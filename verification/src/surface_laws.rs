//! What becomes of the surface that the program is shown on, and how its shutdown ends.
use vstd::prelude::*;

use crate::program_surface;
use crate::program_surface::{
    AcquisitionStep, ConfigurationStep, PresentationAction, PresentationState, RecorderTimeouts,
    ReplacementDisposition, ResizeGeneration, SurfaceAcquire, WaitStep,
    PROGRAM_SHUTDOWN_MILLIS,
};

verus! {

/// A new surface is installed only where it has the size that is awaited. Where it is older, that
/// size is asked for again; any other is dropped.
pub proof fn only_surfaces_that_are_awaited_are_installed(
    state: PresentationState,
    response: ResizeGeneration,
    disposition: ReplacementDisposition,
)
    requires
        call_ensures(
            program_surface::replacement_disposition,
            (state, response),
            disposition,
        ),
    ensures
        disposition is Install <==> (state matches PresentationState::Recreate { resize_generation }
            && resize_generation == response),
        disposition matches ReplacementDisposition::DiscardAndRetry(wanted) ==> (
        state matches PresentationState::Recreate { resize_generation } && wanted
            == resize_generation && response.0 < wanted.0),
        (state matches PresentationState::Recreate { resize_generation } && response.0
            < resize_generation.0) ==> disposition is DiscardAndRetry,
        state is Other ==> disposition is Discard,
{
}

/// Whether an action asks for a surface of a size.
pub open spec fn asks_for_size(
    action: PresentationAction,
    wide: u32,
    high: u32,
    generation: ResizeGeneration,
) -> bool {
    match action {
        PresentationAction::Configure { width, height, resize_generation } => width == wide
            && height == high && resize_generation == generation,
        PresentationAction::Reconfigure { width, height, resize_generation } => width == wide
            && height == high && resize_generation == generation,
        PresentationAction::PresentAndReconfigure { width, height, resize_generation, .. } => width
            == wide && height == high && resize_generation == generation,
        _ => false,
    }
}

/// A surface gets the size that an action asks for and no other; it is made anew, or given up,
/// where the action says so.
pub proof fn surfaces_get_the_size_that_is_asked_for(
    action: PresentationAction,
    step: ConfigurationStep,
    frame: Option<u64>,
    wide: u32,
    high: u32,
    generation: ResizeGeneration,
)
    requires
        call_ensures(program_surface::configuration_step, (action,), step),
        call_ensures(program_surface::presented_frame, (action,), frame),
    ensures
        asks_for_size(action, wide, high, generation) <==> step == (ConfigurationStep::Configure {
            width: wide,
            height: high,
            resize_generation: generation,
        }),
        step == ConfigurationStep::Recreate(generation) <==> action
            == (PresentationAction::Recreate { resize_generation: generation }),
        step is Fail <==> action is Fail,
        step is Nothing <==> action is Idle || action is Retry || action is Present,
        frame is Some <==> action is Present || action is PresentAndReconfigure,
        action matches PresentationAction::Present { frame: shown } ==> frame == Some(shown),
        action matches PresentationAction::PresentAndReconfigure { frame: shown, .. } ==> frame
            == Some(shown),
{
}

/// A frame is drawn exactly where a picture of the surface was acquired. What the lifecycle
/// answers is done to the surface where it has to change, and a surface that fails validation is
/// not gone on with.
pub proof fn frames_are_drawn_on_what_was_acquired(
    acquired: SurfaceAcquire,
    step: Option<AcquisitionStep>,
)
    requires
        call_ensures(program_surface::acquisition_step, (acquired,), step),
    ensures
        step is None <==> acquired is Validation,
        step matches Some(step) ==> {
            &&& step.submits <==> acquired is Success || acquired is Suboptimal
            &&& step.follows_up <==> acquired is Suboptimal || acquired is Outdated || acquired
                is Lost
            &&& step.reported is Success <==> acquired is Success
            &&& step.reported is Suboptimal <==> acquired is Suboptimal
            &&& step.reported is Timeout <==> acquired is Timeout || acquired is Occluded
            &&& step.reported is Outdated <==> acquired is Outdated
            &&& step.reported is Lost <==> acquired is Lost
        },
{
}

/// A shutdown begins with a request and is forced only once its time is over; until it is asked
/// for, displays are looked at. It may take as long as its recorder may, and where
/// there is none as long as any shutdown.
pub proof fn shutdowns_are_forced_once_their_time_is_over(
    requested: bool,
    deadline_passed: bool,
    step: WaitStep,
    recorder: bool,
    timeouts: RecorderTimeouts,
    millis: u64,
)
    requires
        call_ensures(program_surface::wait_step, (requested, deadline_passed), step),
        call_ensures(program_surface::program_shutdown_timeout, (recorder, timeouts), millis),
    ensures
        step is Serve <==> !requested,
        step is ForceShutdown <==> requested && deadline_passed,
        step is AwaitShutdown <==> requested && !deadline_passed,
        recorder ==> millis == timeouts.stop_millis + timeouts.kill_millis
            + timeouts.checkpoint_margin_millis,
        !recorder ==> millis == PROGRAM_SHUTDOWN_MILLIS,
{
}

/// Escape asks for a shutdown when it goes down, and not while it is held. Only the first to ask
/// is told so.
pub proof fn escape_asks_for_a_shutdown(
    pressed: bool,
    repeat: bool,
    escape: bool,
    accepts: bool,
    given_before: bool,
    first: bool,
)
    requires
        call_ensures(program_surface::accepts_escape_press, (pressed, repeat, escape), accepts),
        call_ensures(program_surface::first_to_give, (given_before,), first),
    ensures
        accepts <==> escape && pressed && !repeat,
        first <==> !given_before,
{
}

/// Of two sizes that are asked for, the newer one is made, whichever came first.
pub proof fn the_newest_size_is_made(
    pending: Option<ResizeGeneration>,
    generation: ResizeGeneration,
)
    ensures
        program_surface::newest(pending, generation) matches Some(kept) && {
            &&& kept.0 >= generation.0
            &&& pending matches Some(older) ==> kept.0 >= older.0
            &&& kept == generation || pending == Some(kept)
        },
{
}

} // verus!
