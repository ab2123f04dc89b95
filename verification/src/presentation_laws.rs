//! What a presentation of the program comes to.
use vstd::prelude::*;

use crate::presentation;
use crate::presentation::{
    ConfigureOutcome, PresentEvent, PresentFailure, PresentStage, ProgramPresentation,
    ReplacementPoll,
};
use crate::program_surface::{
    PresentationAction, PresentationState, ResizeGeneration, SurfaceAcquire, SurfaceAcquisition,
};

verus! {

/// The presentation and its stage once these events have come one after another, from its begin.
pub open spec fn presented_after(presentation: ProgramPresentation, events: Seq<PresentEvent>) -> (
    ProgramPresentation,
    Result<PresentStage, PresentFailure>,
)
    decreases events.len(),
{
    if events.len() == 0 {
        (presentation, Ok(PresentStage::Size))
    } else {
        match presented_after(presentation, events.drop_last()) {
            (after, Err(failure)) => (after, Err(failure)),
            (after, Ok(stage)) => presentation::present_step(after, stage, events.last()),
        }
    }
}

/// A program that nothing hinders is shown: with a surface and a transform, no new size and no new
/// surface, the frame after the last is numbered, put forward in the size of the surface,
/// acquired, reported and drawn, and then the presentation is over.
pub proof fn an_unhindered_frame_is_drawn(
    presentation: ProgramPresentation,
    generation: ResizeGeneration,
    frame: u64,
)
    requires
        presentation.has_surface,
        presentation.has_transform,
        frame == presentation.frame_generation + 1,
    ensures
        ({
            let events = seq![
                PresentEvent::Sized(None),
                PresentEvent::Replaced(ReplacementPoll::Nothing),
                PresentEvent::Shown(Some(generation)),
                PresentEvent::Submitted { rejected: false },
                PresentEvent::Acquired(Some(SurfaceAcquire::Success)),
                PresentEvent::Reported(PresentationAction::Present { frame }),
                PresentEvent::Drawn { done: true },
            ];
            let after = ProgramPresentation { frame_generation: frame, ..presentation };
            &&& presented_after(presentation, events.take(3)) == (
                after,
                Ok::<PresentStage, PresentFailure>(PresentStage::Submit { frame, generation }),
            )
            &&& presented_after(presentation, events.take(4)).1 matches Ok(PresentStage::Acquire)
            &&& presented_after(presentation, events.take(5)).1 matches Ok(
                PresentStage::Report { reported: SurfaceAcquisition::Success, .. },
            )
            &&& presented_after(presentation, events.take(6)).1 matches Ok(
                PresentStage::Draw { frame: drawn, .. },
            ) && drawn == frame
            &&& presented_after(presentation, events) == (
                after,
                Ok::<PresentStage, PresentFailure>(PresentStage::Over),
            )
        }),
{
    let events = seq![
        PresentEvent::Sized(None),
        PresentEvent::Replaced(ReplacementPoll::Nothing),
        PresentEvent::Shown(Some(generation)),
        PresentEvent::Submitted { rejected: false },
        PresentEvent::Acquired(Some(SurfaceAcquire::Success)),
        PresentEvent::Reported(PresentationAction::Present { frame }),
        PresentEvent::Drawn { done: true },
    ];
    assert(events.take(1).drop_last() =~= events.take(0));
    assert(events.take(2).drop_last() =~= events.take(1));
    assert(events.take(3).drop_last() =~= events.take(2));
    assert(events.take(4).drop_last() =~= events.take(3));
    assert(events.take(5).drop_last() =~= events.take(4));
    assert(events.take(6).drop_last() =~= events.take(5));
    assert(events.take(7).drop_last() =~= events.take(6));
    assert(events.take(7) =~= events);
    reveal_with_fuel(presented_after, 8);
}

/// Whether a stage comes before a frame is numbered: the surface is still being made ready.
pub open spec fn is_before_the_frame(stage: PresentStage) -> bool {
    match stage {
        PresentStage::Size | PresentStage::Replacement | PresentStage::Install { .. } => true,
        PresentStage::Configure { resume, .. } => resume !is Over,
        PresentStage::Request { resume, .. } => resume !is Over,
        _ => false,
    }
}

/// A presentation whose surface is still being made ready ends only by a failure: else it goes on
/// to make it ready, or to the frame.
pub proof fn surfaces_are_made_ready_before_the_frame(
    presentation: ProgramPresentation,
    stage: PresentStage,
    event: PresentEvent,
)
    requires
        presentation::answers_present(stage, event),
        is_before_the_frame(stage),
    ensures
        presentation::present_step(presentation, stage, event).1 matches Ok(next)
            ==> is_before_the_frame(next) || next is Frame,
        // A new size is seen to before a new surface is, and either before the frame.
        presentation::present_step(presentation, stage, event).1 matches Ok(
            PresentStage::Replacement,
        ) ==> stage is Size || (stage matches PresentStage::Configure { resume, .. } && resume
            is Replacement) || (stage matches PresentStage::Request { resume, .. } && resume
            is Replacement),
        !(presentation::present_step(presentation, stage, event).1 matches Ok(PresentStage::Size)),
{
}

/// Without a new size the presentation looks for a new surface, and without one of these it goes
/// on to the frame, with nothing changed.
pub proof fn nothing_new_leaves_the_surface(presentation: ProgramPresentation)
    ensures
        presentation::present_step(
            presentation,
            PresentStage::Size,
            PresentEvent::Sized(None),
        ) == (presentation, Ok::<PresentStage, PresentFailure>(PresentStage::Replacement)),
        presentation::present_step(
            presentation,
            PresentStage::Replacement,
            PresentEvent::Replaced(ReplacementPoll::Nothing),
        ) == (presentation, Ok::<PresentStage, PresentFailure>(PresentStage::Frame)),
{
}

/// A new surface is installed where it has the size that is awaited. One that is older is given up
/// and the awaited size is asked for again; any other is given up. The presentation goes on to
/// the frame.
pub proof fn only_the_awaited_surface_is_installed(
    presentation: ProgramPresentation,
    generation: ResizeGeneration,
    made: bool,
    state: PresentationState,
)
    ensures
        ({
            let (after, next) = presentation::present_step(
                presentation,
                PresentStage::Replacement,
                PresentEvent::Replaced(ReplacementPoll::Came { generation, made, state }),
            );
            match state {
                PresentationState::Recreate { resize_generation: awaited } => {
                    &&& awaited.0 == generation.0 ==> {
                        &&& next matches Ok(PresentStage::Install { generation: told, made: so })
                            && told == generation && so == made
                        &&& after.has_surface == (made || presentation.has_surface)
                    }
                    &&& awaited.0 > generation.0 ==> {
                        &&& next matches Ok(PresentStage::Request { generation: asked, resume })
                            && asked == awaited && resume is Frame
                        &&& after == presentation
                    }
                    &&& awaited.0 < generation.0 ==> (next matches Ok(PresentStage::Frame) && after
                        == presentation)
                },
                PresentationState::Other => next matches Ok(PresentStage::Frame) && after
                    == presentation,
            }
        }),
        presentation::present_step(
            presentation,
            PresentStage::Replacement,
            PresentEvent::Replaced(ReplacementPoll::Gone),
        ).1 == Err::<PresentStage, PresentFailure>(PresentFailure::ReplacementsGone),
{
}

/// The size that an action asks the surface to be configured for.
pub open spec fn wanted_size(action: PresentationAction) -> Option<(u32, u32, ResizeGeneration)> {
    match action {
        PresentationAction::Configure { width, height, resize_generation } => Some(
            (width, height, resize_generation),
        ),
        PresentationAction::Reconfigure { width, height, resize_generation } => Some(
            (width, height, resize_generation),
        ),
        PresentationAction::PresentAndReconfigure { width, height, resize_generation, .. } => Some(
            (width, height, resize_generation),
        ),
        _ => None,
    }
}

/// Where a presentation goes on once its surface is as it should be: after a new size to look for
/// a new surface, after a new surface to the frame, and after the frame nowhere.
pub open spec fn goes_on_to(stage: PresentStage) -> PresentStage {
    match stage {
        PresentStage::Size => PresentStage::Replacement,
        PresentStage::Install { .. } => PresentStage::Frame,
        _ => PresentStage::Over,
    }
}

/// Whether a stage hands an action of the lifecycle on to the surface.
pub open spec fn hands_on(
    stage: PresentStage,
    event: PresentEvent,
    action: PresentationAction,
) -> bool {
    match (stage, event) {
        (PresentStage::Size, PresentEvent::Sized(Some(asked))) => asked == action,
        (PresentStage::Install { made, .. }, PresentEvent::Installed(asked)) => made && asked
            == action,
        (
            PresentStage::Report { submits, follows_up, .. },
            PresentEvent::Reported(asked),
        ) => asked == action && follows_up && (!submits || (action !is Present && action
            !is PresentAndReconfigure)),
        (
            PresentStage::Draw { action: drawn, follows_up, .. },
            PresentEvent::Drawn { done },
        ) => drawn == action && follows_up && done,
        _ => false,
    }
}

/// What the lifecycle asks for is done to the surface: it is configured in the size that is asked
/// for, with a transform where there is none; it is given up with its transform and asked for
/// anew; or nothing is done. Then the presentation goes on where it was.
pub proof fn actions_are_done_to_the_surface(
    presentation: ProgramPresentation,
    stage: PresentStage,
    event: PresentEvent,
    action: PresentationAction,
)
    requires
        hands_on(stage, event, action),
    ensures
        ({
            let (after, next) = presentation::present_step(presentation, stage, event);
            match action {
                PresentationAction::Recreate { resize_generation } => {
                    &&& !after.has_surface && !after.has_transform
                    &&& next matches Ok(PresentStage::Request { generation, resume }) && generation
                        == resize_generation && presentation::present_step(
                        after,
                        PresentStage::Request { generation, resume },
                        PresentEvent::Requested { done: true },
                    ) == (after, Ok::<PresentStage, PresentFailure>(goes_on_to(stage)))
                },
                PresentationAction::Fail => next == Err::<PresentStage, PresentFailure>(
                    PresentFailure::Lifecycle,
                ),
                _ => match wanted_size(action) {
                    Some((wide, high, asked)) => if presentation.has_surface {
                        &&& after == presentation
                        &&& next matches Ok(
                            PresentStage::Configure {
                                width,
                                height,
                                generation,
                                makes_transform,
                                resume,
                            },
                        ) && {
                            &&& width == wide && height == high && generation == asked
                            &&& makes_transform == !presentation.has_transform
                            &&& presentation::present_step(
                                after,
                                PresentStage::Configure {
                                    width,
                                    height,
                                    generation,
                                    makes_transform,
                                    resume,
                                },
                                PresentEvent::Configured(ConfigureOutcome::Configured),
                            ) == (
                                ProgramPresentation { has_transform: true, ..presentation },
                                Ok::<PresentStage, PresentFailure>(goes_on_to(stage)),
                            )
                        }
                    } else {
                        next == Err::<PresentStage, PresentFailure>(
                            PresentFailure::SurfaceMissing,
                        )
                    },
                    None => after == presentation && next == Ok::<PresentStage, PresentFailure>(
                        goes_on_to(stage),
                    ),
                },
            }
        }),
{
}

/// A surface that could not be configured or asked for, and a new one that could not be made, end
/// the presentation with a failure that tells why.
pub proof fn failures_end_the_presentation(
    presentation: ProgramPresentation,
    stage: PresentStage,
    event: PresentEvent,
)
    requires
        presentation::answers_present(stage, event),
    ensures
        ({
            let next = presentation::present_step(presentation, stage, event).1;
            &&& event matches PresentEvent::Configured(outcome) ==> (next is Ok <==> outcome
                is Configured)
            &&& event matches PresentEvent::Requested { done } ==> (next is Ok <==> done)
            &&& event matches PresentEvent::Drawn { done } ==> (!done ==> next == Err::<
                PresentStage,
                PresentFailure,
            >(PresentFailure::Device))
            &&& stage matches PresentStage::Install { made, .. } ==> (!made ==> next == Err::<
                PresentStage,
                PresentFailure,
            >(PresentFailure::Replacement))
            &&& event matches PresentEvent::Submitted { .. } ==> next is Ok
            &&& event matches PresentEvent::Shown(size) ==> (next is Err <==> size is Some
                && presentation.frame_generation == u64::MAX)
            &&& event matches PresentEvent::Reported(action) ==> (next matches Err(
                PresentFailure::TransformMissing,
            ) ==> !presentation.has_transform)
        }),
{
}

/// A frame is put forward only in the size that the surface has, and given up where it is
/// rejected or the surface is gone; where the surface has no size there is none.
pub proof fn frames_are_put_forward(
    presentation: ProgramPresentation,
    frame: u64,
    generation: ResizeGeneration,
    rejected: bool,
)
    ensures
        presentation::present_step(
            presentation,
            PresentStage::Frame,
            PresentEvent::Shown(None),
        ) == (presentation, Ok::<PresentStage, PresentFailure>(PresentStage::Over)),
        presentation.frame_generation < u64::MAX ==> presentation::present_step(
            presentation,
            PresentStage::Frame,
            PresentEvent::Shown(Some(generation)),
        ).1 == Ok::<PresentStage, PresentFailure>(
            PresentStage::Submit {
                frame: (presentation.frame_generation + 1) as u64,
                generation,
            },
        ),
        ({
            let (after, next) = presentation::present_step(
                presentation,
                PresentStage::Submit { frame, generation },
                PresentEvent::Submitted { rejected },
            );
            &&& after == presentation
            &&& (next matches Ok(PresentStage::Acquire)) <==> !rejected && presentation.has_surface
            &&& (next matches Ok(PresentStage::Over)) <==> rejected || !presentation.has_surface
        }),
{
}

/// What came of acquiring is reported as it is, a window that is covered counting as one that did
/// not come in time. A frame is drawn to what was acquired and to nothing else, and what the
/// lifecycle answers is followed where the surface does not fit any more.
pub proof fn acquisitions_are_reported_as_they_are(
    presentation: ProgramPresentation,
    acquired: Option<SurfaceAcquire>,
)
    ensures
        ({
            let (after, next) = presentation::present_step(
                presentation,
                PresentStage::Acquire,
                PresentEvent::Acquired(acquired),
            );
            &&& after == presentation
            &&& next is Err <==> acquired is None || acquired->Some_0 is Validation
            &&& acquired is None ==> next == Err::<PresentStage, PresentFailure>(
                PresentFailure::Device,
            )
            &&& acquired matches Some(SurfaceAcquire::Validation) ==> next == Err::<
                PresentStage,
                PresentFailure,
            >(PresentFailure::Validation)
            &&& next matches Ok(stage) ==> stage is Report
            &&& next matches Ok(PresentStage::Report { reported, submits, follows_up }) ==> {
                let what = acquired->Some_0;
                &&& reported is Success <==> what is Success
                &&& reported is Suboptimal <==> what is Suboptimal
                &&& reported is Outdated <==> what is Outdated
                &&& reported is Lost <==> what is Lost
                &&& reported is Timeout <==> what is Timeout || what is Occluded
                &&& submits <==> what is Success || what is Suboptimal
                &&& follows_up <==> what is Suboptimal || what is Outdated || what is Lost
            }
        }),
{
}

/// A frame is drawn exactly where something was acquired to draw to and the lifecycle says to
/// present it; it is that frame which is drawn. What the lifecycle says besides is done after.
pub proof fn the_frame_that_is_presented_is_drawn(
    presentation: ProgramPresentation,
    reported: SurfaceAcquisition,
    submits: bool,
    follows_up: bool,
    action: PresentationAction,
)
    requires
        presentation.has_transform,
    ensures
        ({
            let (after, next) = presentation::present_step(
                presentation,
                PresentStage::Report { reported, submits, follows_up },
                PresentEvent::Reported(action),
            );
            let told = action is Present || action is PresentAndReconfigure;
            &&& (next matches Ok(PresentStage::Draw { .. })) <==> submits && told
            &&& next matches Ok(PresentStage::Draw { frame, action: kept, follows_up: later }) ==> {
                &&& after == presentation
                &&& kept == action && later == follows_up
                &&& action matches PresentationAction::Present { frame: number } ==> frame
                    == number
                &&& action matches PresentationAction::PresentAndReconfigure {
                    frame: number,
                    ..
                } ==> frame == number
            }
            &&& !follows_up && !(submits && told) ==> (after, next) == (
                presentation,
                Ok::<PresentStage, PresentFailure>(PresentStage::Over),
            )
        }),
{
}

/// A surface that is configured has its transform and the presentation goes on where it left off.
/// Where no format fits or no transform can be made, nothing changes; where the lifecycle refuses
/// the configuration, the transform has been made already. In each of these it fails for that.
pub proof fn configured_surfaces_have_their_transform(
    before: ProgramPresentation,
    stage: PresentStage,
    outcome: ConfigureOutcome,
)
    requires
        stage is Configure,
    ensures
        ({
            let (after, next) = presentation::present_step(
                before,
                stage,
                PresentEvent::Configured(outcome),
            );
            &&& after.has_surface == before.has_surface
            &&& after.frame_generation == before.frame_generation
            &&& next is Ok <==> outcome is Configured
            &&& outcome is Configured || outcome is Refused ==> after.has_transform
            &&& outcome is NoneFits || outcome is NoTransform ==> after == before
            &&& outcome is NoneFits ==> next == Err::<PresentStage, PresentFailure>(
                PresentFailure::Device,
            )
            &&& outcome is NoTransform ==> next == Err::<PresentStage, PresentFailure>(
                PresentFailure::Transform,
            )
            &&& outcome is Refused ==> next == Err::<PresentStage, PresentFailure>(
                PresentFailure::Configuration,
            )
        }),
{
}

} // verus!
