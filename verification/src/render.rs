//! What one program frame is rendered from.
use vstd::prelude::*;

use crate::model::{
    FadeToBlackPosition, FrameRate, FrameResult, InputId, OutsideFailure, ProgramFrame, SceneId,
    StingerSlotId, SwitcherTransitionKind,
};
use crate::ordered;
use crate::ordered::OrderedMap;
use crate::project_plan::NativeProjectPlan;
use crate::scene_execution;
use crate::scene_execution::{
    ExecutionModel, NativeSceneExecution, NativeScenePlan, NativeVideoRoute,
    NATIVE_PROJECT_IN_FLIGHT_SLOTS,
};
use crate::scene_graph::NativeSceneSource;
use crate::source_registry;
use crate::source_registry::{
    NativeSourceRegistry, NativeVideoPrefix, NativeVideoSourceKind, RegistryModel, WorkingFrame,
};

verus! {

/// How the compositor moves from one picture to the next.
#[derive(Clone, Copy, Debug, PartialEq, Eq, Structural)]
pub enum TransitionKind {
    Cut,
    Fade,
    AlphaFade,
    Wipe,
    Slide,
    Zoom,
}

/// A transition at one point of its course, as the compositor accepts it.
#[derive(Clone, Copy, Debug, PartialEq, Eq, Structural)]
pub struct TransitionPlan {
    pub kind: TransitionKind,
    pub numerator: u32,
    pub denominator: u32,
}

/// Which picture a Stinger covers.
#[derive(Clone, Copy, Debug, PartialEq, Eq, Structural)]
pub enum StingerBase {
    Program,
    Preview,
}

/// One frame of a Stinger, as the compositor accepts it.
#[derive(Clone, Copy, Debug, PartialEq, Eq, Structural)]
pub struct StingerFramePlan {
    pub frame_index: u32,
    pub base: StingerBase,
}

/// Render failures against an authoritative source-ring registry.
#[derive(Clone, Copy, Debug, PartialEq, Eq, Structural)]
pub enum NativeSourceRenderError {
    MissingSource { input: InputId },
    DimensionMismatch {
        input: InputId,
        expected_width: u32,
        expected_height: u32,
        actual_width: u32,
        actual_height: u32,
    },
    MissingTransitionKind,
    MissingStingerConfiguration(StingerSlotId),
    StingerSourceNotPreloaded { input: InputId },
    UnsupportedTransition(SwitcherTransitionKind),
    InvalidMix(OutsideFailure),
    InvalidStinger(OutsideFailure),
    ResourceBounds,
    ConcurrentProjectRender,
    Completion(OutsideFailure),
    SceneCompositor(OutsideFailure),
    Compositor(OutsideFailure),
    Stinger(OutsideFailure),
    InvalidFadeToBlack(OutsideFailure),
    FadeToBlack(OutsideFailure),
}

/// What the compositor is asked to compile for a program frame.
#[derive(Clone, Copy, Debug, PartialEq, Eq, Structural)]
pub enum NativeMixRequest {
    Transition { secondary: InputId, kind: TransitionKind, numerator: u32, denominator: u32 },
    Stinger {
        preview: InputId,
        media: InputId,
        frame_index: u32,
        frame_count: u32,
        cut_point_frame: u32,
    },
}

/// What the compositor compiles; only the one that was asked for is read.
#[derive(Clone, Copy, Debug, PartialEq, Eq)]
pub struct CompositorVerdict {
    pub transition: Result<TransitionPlan, OutsideFailure>,
    pub stinger: Result<StingerFramePlan, OutsideFailure>,
}

/// A transition between two inputs.
#[derive(Clone, Copy, Debug, PartialEq, Eq, Structural)]
pub struct NativeMixPlan {
    pub primary: InputId,
    pub secondary: InputId,
    pub transition: TransitionPlan,
}

/// A Stinger over two inputs.
#[derive(Clone, Copy, Debug, PartialEq, Eq, Structural)]
pub struct NativeStingerMixPlan {
    pub program: InputId,
    pub preview: InputId,
    pub media: InputId,
    pub frame: StingerFramePlan,
}

/// What a program frame mixes.
#[derive(Clone, Copy, Debug, PartialEq, Eq, Structural)]
pub enum NativeProjectMixPlan {
    Transition(NativeMixPlan),
    Stinger(NativeStingerMixPlan),
}

/// The media frame that a Stinger needs.
#[derive(Clone, Copy, Debug, PartialEq, Eq, Structural)]
pub struct NativeStingerFrameRequest {
    pub input: InputId,
    pub deadline_ns: u64,
}

/// The transition that a program frame without a Stinger asks for: a cut to itself when
/// no other input is involved.
pub open spec fn transition_request(program: ProgramFrame) -> Result<
    NativeMixRequest,
    NativeSourceRenderError,
> {
    match program.secondary {
        Some(secondary) => if secondary == program.primary {
            Ok(cut_request(program))
        } else {
            match program.transition_kind {
                None => Err(NativeSourceRenderError::MissingTransitionKind),
                Some(kind) => match compositor_kind(kind) {
                    None => Err(NativeSourceRenderError::UnsupportedTransition(kind)),
                    Some(compositor) => Ok(
                        NativeMixRequest::Transition {
                            secondary,
                            kind: compositor,
                            numerator: program.mix_numerator,
                            denominator: program.mix_denominator,
                        },
                    ),
                },
            }
        },
        None => Ok(cut_request(program)),
    }
}

/// A cut from the primary input to itself.
pub open spec fn cut_request(program: ProgramFrame) -> NativeMixRequest {
    NativeMixRequest::Transition {
        secondary: program.primary,
        kind: TransitionKind::Cut,
        numerator: 0,
        denominator: 1,
    }
}

/// The compositor's transition of that kind; Stingers have none.
pub open spec fn compositor_kind(kind: SwitcherTransitionKind) -> Option<TransitionKind> {
    match kind {
        SwitcherTransitionKind::Fade => Some(TransitionKind::Fade),
        SwitcherTransitionKind::AlphaFade => Some(TransitionKind::AlphaFade),
        SwitcherTransitionKind::Wipe => Some(TransitionKind::Wipe),
        SwitcherTransitionKind::Slide => Some(TransitionKind::Slide),
        SwitcherTransitionKind::Zoom => Some(TransitionKind::Zoom),
        SwitcherTransitionKind::Stinger(_) => None,
    }
}

/// The input that a program frame moves to, if it moves to another.
pub open spec fn preview_of(program: ProgramFrame) -> Option<InputId> {
    match program.secondary {
        Some(preview) => if preview == program.primary {
            None
        } else {
            Some(preview)
        },
        None => None,
    }
}

/// What a program frame asks the compositor for.
pub open spec fn mix_request(project: NativeProjectPlan, program: ProgramFrame) -> Result<
    NativeMixRequest,
    NativeSourceRenderError,
> {
    match program.transition_kind {
        Some(SwitcherTransitionKind::Stinger(slot)) => match preview_of(program) {
            None => Err(NativeSourceRenderError::MissingTransitionKind),
            Some(preview) => match project.stingers.lookup(slot) {
                None => Err(NativeSourceRenderError::MissingStingerConfiguration(slot)),
                Some(config) => Ok(
                    NativeMixRequest::Stinger {
                        preview,
                        media: config.media_input,
                        frame_index: program.mix_numerator,
                        frame_count: program.mix_denominator,
                        cut_point_frame: config.cut_point_frames,
                    },
                ),
            },
        },
        _ => transition_request(program),
    }
}

/// What a program frame mixes, given what the compositor compiled.
pub open spec fn mix_plan(
    request: Result<NativeMixRequest, NativeSourceRenderError>,
    program: ProgramFrame,
    verdict: CompositorVerdict,
) -> Result<NativeProjectMixPlan, NativeSourceRenderError> {
    match request {
        Err(error) => Err(error),
        Ok(NativeMixRequest::Transition { secondary, .. }) => match verdict.transition {
            Err(error) => Err(NativeSourceRenderError::InvalidMix(error)),
            Ok(transition) => Ok(
                NativeProjectMixPlan::Transition(
                    NativeMixPlan { primary: program.primary, secondary, transition },
                ),
            ),
        },
        Ok(NativeMixRequest::Stinger { preview, media, .. }) => match verdict.stinger {
            Err(error) => Err(NativeSourceRenderError::InvalidStinger(error)),
            Ok(frame) => Ok(
                NativeProjectMixPlan::Stinger(
                    NativeStingerMixPlan { program: program.primary, preview, media, frame },
                ),
            ),
        },
    }
}

/// Finds the transition that a program frame without a Stinger asks for.
pub fn native_mix_request(program: ProgramFrame) -> (request: Result<
    NativeMixRequest,
    NativeSourceRenderError,
>)
    ensures
        request == transition_request(program),
{
    let secondary: InputId = match program.secondary {
        Some(secondary) => secondary,
        None => program.primary,
    };
    if secondary == program.primary {
        return Ok(
            NativeMixRequest::Transition {
                secondary: program.primary,
                kind: TransitionKind::Cut,
                numerator: 0,
                denominator: 1,
            },
        );
    }
    let kind: TransitionKind = match program.transition_kind {
        Some(SwitcherTransitionKind::Fade) => TransitionKind::Fade,
        Some(SwitcherTransitionKind::AlphaFade) => TransitionKind::AlphaFade,
        Some(SwitcherTransitionKind::Wipe) => TransitionKind::Wipe,
        Some(SwitcherTransitionKind::Slide) => TransitionKind::Slide,
        Some(SwitcherTransitionKind::Zoom) => TransitionKind::Zoom,
        Some(kind) => {
            return Err(NativeSourceRenderError::UnsupportedTransition(kind));
        },
        None => {
            return Err(NativeSourceRenderError::MissingTransitionKind);
        },
    };
    Ok(
        NativeMixRequest::Transition {
            secondary,
            kind,
            numerator: program.mix_numerator,
            denominator: program.mix_denominator,
        },
    )
}

/// Decides what a program frame without a Stinger mixes.
pub fn native_mix_plan(
    program: ProgramFrame,
    transition: Result<TransitionPlan, OutsideFailure>,
) -> (plan: Result<NativeMixPlan, NativeSourceRenderError>)
    ensures
        match transition_request(program) {
            Err(error) => plan == Err::<NativeMixPlan, NativeSourceRenderError>(error),
            Ok(request) => request is Transition && plan == (match transition {
                Err(error) => Err::<NativeMixPlan, NativeSourceRenderError>(
                    NativeSourceRenderError::InvalidMix(error),
                ),
                Ok(compiled) => Ok(
                    NativeMixPlan {
                        primary: program.primary,
                        secondary: request->Transition_secondary,
                        transition: compiled,
                    },
                ),
            }),
        },
{
    match native_mix_request(program) {
        Err(error) => Err(error),
        Ok(NativeMixRequest::Transition { secondary, .. }) => match transition {
            Err(error) => Err(NativeSourceRenderError::InvalidMix(error)),
            Ok(transition) => Ok(
                NativeMixPlan { primary: program.primary, secondary, transition },
            ),
        },
        Ok(NativeMixRequest::Stinger { .. }) => Err(NativeSourceRenderError::MissingTransitionKind),
    }
}

/// Finds what a program frame asks the compositor for.
pub fn native_project_mix_request(project: &NativeProjectPlan, program: ProgramFrame) -> (request:
    Result<NativeMixRequest, NativeSourceRenderError>)
    requires
        project.wf(),
    ensures
        request == mix_request(*project, program),
{
    let slot: StingerSlotId = match program.transition_kind {
        Some(SwitcherTransitionKind::Stinger(slot)) => slot,
        _ => {
            return native_mix_request(program);
        },
    };
    let preview: InputId = match program.secondary {
        None => {
            return Err(NativeSourceRenderError::MissingTransitionKind);
        },
        Some(preview) => preview,
    };
    if preview == program.primary {
        return Err(NativeSourceRenderError::MissingTransitionKind);
    }
    match project.stinger(slot) {
        None => Err(NativeSourceRenderError::MissingStingerConfiguration(slot)),
        Some(config) => Ok(
            NativeMixRequest::Stinger {
                preview,
                media: config.media_input,
                frame_index: program.mix_numerator,
                frame_count: program.mix_denominator,
                cut_point_frame: config.cut_point_frames,
            },
        ),
    }
}

/// Decides what a program frame mixes.
pub fn native_project_mix_plan(
    project: &NativeProjectPlan,
    program: ProgramFrame,
    verdict: CompositorVerdict,
) -> (plan: Result<NativeProjectMixPlan, NativeSourceRenderError>)
    requires
        project.wf(),
    ensures
        plan == mix_plan(mix_request(*project, program), program, verdict),
{
    match native_project_mix_request(project, program) {
        Err(error) => Err(error),
        Ok(NativeMixRequest::Transition { secondary, .. }) => match verdict.transition {
            Err(error) => Err(NativeSourceRenderError::InvalidMix(error)),
            Ok(transition) => Ok(
                NativeProjectMixPlan::Transition(
                    NativeMixPlan { primary: program.primary, secondary, transition },
                ),
            ),
        },
        Ok(NativeMixRequest::Stinger { preview, media, .. }) => match verdict.stinger {
            Err(error) => Err(NativeSourceRenderError::InvalidStinger(error)),
            Ok(frame) => Ok(
                NativeProjectMixPlan::Stinger(
                    NativeStingerMixPlan { program: program.primary, preview, media, frame },
                ),
            ),
        },
    }
}

/// The fade to black of one frame, as the compositor accepts it.
#[derive(Clone, Copy, Debug, PartialEq, Eq, Structural)]
pub struct FadeToBlackPlan {
    pub start: FadeToBlackPosition,
    pub end: FadeToBlackPosition,
}

/// Puts the two ends of a fade to black together as the compositor accepted them.
pub fn native_fade_to_black_plan(
    start: Result<FadeToBlackPosition, OutsideFailure>,
    end: Result<FadeToBlackPosition, OutsideFailure>,
) -> (plan: Result<FadeToBlackPlan, NativeSourceRenderError>)
    ensures
        plan == (match (start, end) {
            (Err(error), _) => Err::<FadeToBlackPlan, NativeSourceRenderError>(
                NativeSourceRenderError::InvalidFadeToBlack(error),
            ),
            (Ok(_), Err(error)) => Err(NativeSourceRenderError::InvalidFadeToBlack(error)),
            (Ok(start), Ok(end)) => Ok(FadeToBlackPlan { start, end }),
        }),
{
    let start: FadeToBlackPosition = match start {
        Err(error) => {
            return Err(NativeSourceRenderError::InvalidFadeToBlack(error));
        },
        Ok(start) => start,
    };
    match end {
        Err(error) => Err(NativeSourceRenderError::InvalidFadeToBlack(error)),
        Ok(end) => Ok(FadeToBlackPlan { start, end }),
    }
}

/// The last instant of a Stinger frame, given when its interval ends.
pub open spec fn clip_deadline(interval_end_ns: Option<u64>) -> Result<
    u64,
    NativeSourceRenderError,
> {
    match interval_end_ns {
        Some(end) => if end > 0 {
            Ok((end - 1) as u64)
        } else {
            Err(NativeSourceRenderError::ResourceBounds)
        },
        None => Err(NativeSourceRenderError::ResourceBounds),
    }
}

/// Finds the last instant of a Stinger frame.
///
/// `interval_end_ns` is when the frame's interval ends on the clip's own cadence, none
/// where the clock cannot say.
pub fn stinger_frame_deadline(interval_end_ns: Option<u64>) -> (deadline: Result<
    u64,
    NativeSourceRenderError,
>)
    ensures
        deadline == clip_deadline(interval_end_ns),
{
    match interval_end_ns {
        None => Err(NativeSourceRenderError::ResourceBounds),
        Some(end) => match end.checked_sub(1) {
            None => Err(NativeSourceRenderError::ResourceBounds),
            Some(deadline) => Ok(deadline),
        },
    }
}

/// Finds the frame with which the interval of a Stinger frame ends: the next one of the clip.
pub fn clip_interval_end(frame_index: u32) -> (frame: u64)
    ensures
        frame == frame_index + 1,
{
    frame_index as u64 + 1
}

/// What the clock has to be asked for a frame of the program: when a frame begins that is
/// counted from zero at a rate. For a Stinger this is the frame of the clip that comes next, at
/// the rate of the project; a transition needs nothing.
pub open spec fn interval_asked(
    plan: NativeProjectPlan,
    program: ProgramFrame,
    verdict: CompositorVerdict,
) -> Result<Option<(FrameRate, u64)>, NativeSourceRenderError> {
    match mix_plan(mix_request(plan, program), program, verdict) {
        Err(error) => Err(error),
        Ok(NativeProjectMixPlan::Transition(_)) => Ok(None),
        Ok(NativeProjectMixPlan::Stinger(stinger)) => Ok(
            Some((plan.frame_rate, (stinger.frame.frame_index + 1) as u64)),
        ),
    }
}

impl NativeProjectPlan {
    /// Finds what the clock has to be asked for a frame: the rate, and the frame counted from
    /// zero whose begin ends the interval of the Stinger frame, if there is one.
    ///
    /// # Errors
    ///
    /// Returns a typed project-plan failure.
    pub fn stinger_interval(&self, frame: &FrameResult, verdict: CompositorVerdict) -> (ask: Result<
        Option<(FrameRate, u64)>,
        NativeSourceRenderError,
    >)
        requires
            self.wf(),
        ensures
            ask == interval_asked(*self, frame.program, verdict),
    {
        match native_project_mix_plan(self, frame.program, verdict) {
            Err(error) => Err(error),
            Ok(NativeProjectMixPlan::Transition(_)) => Ok(None),
            Ok(NativeProjectMixPlan::Stinger(plan)) => Ok(
                Some((self.frame_rate, clip_interval_end(plan.frame.frame_index))),
            ),
        }
    }

    /// Resolves the clip-local media deadline required by an authoritative
    /// projected Stinger frame.
    ///
    /// # Errors
    ///
    /// Returns a typed project-plan or clip-deadline failure.
    pub fn stinger_frame_request(
        &self,
        frame: &FrameResult,
        verdict: CompositorVerdict,
        interval_end_ns: Option<u64>,
    ) -> (request: Result<Option<NativeStingerFrameRequest>, NativeSourceRenderError>)
        requires
            self.wf(),
        ensures
            match mix_plan(mix_request(*self, frame.program), frame.program, verdict) {
                Err(error) => request == Err::<
                    Option<NativeStingerFrameRequest>,
                    NativeSourceRenderError,
                >(error),
                Ok(NativeProjectMixPlan::Transition(_)) => request == Ok::<
                    Option<NativeStingerFrameRequest>,
                    NativeSourceRenderError,
                >(None),
                Ok(NativeProjectMixPlan::Stinger(plan)) => match clip_deadline(interval_end_ns) {
                    Err(error) => request == Err::<
                        Option<NativeStingerFrameRequest>,
                        NativeSourceRenderError,
                    >(error),
                    Ok(deadline_ns) => request == Ok::<
                        Option<NativeStingerFrameRequest>,
                        NativeSourceRenderError,
                    >(Some(NativeStingerFrameRequest { input: plan.media, deadline_ns })),
                },
            },
    {
        match native_project_mix_plan(self, frame.program, verdict) {
            Err(error) => Err(error),
            Ok(NativeProjectMixPlan::Transition(_)) => Ok(None),
            Ok(NativeProjectMixPlan::Stinger(plan)) => match stinger_frame_deadline(
                interval_end_ns,
            ) {
                Err(error) => Err(error),
                Ok(deadline_ns) => Ok(
                    Some(NativeStingerFrameRequest { input: plan.media, deadline_ns }),
                ),
            },
        }
    }
}

/// Finds the value registered under an input.
pub fn registered_source<T>(sources: &OrderedMap<InputId, T>, input: InputId) -> (found: Result<
    &T,
    NativeSourceRenderError,
>)
    requires
        sources.wf(),
    ensures
        match found {
            Ok(value) => sources.lookup(input) == Some(*value),
            Err(error) => sources.lookup(input) is None && error
                == (NativeSourceRenderError::MissingSource { input }),
        },
{
    match sources.get(input) {
        Some(value) => Ok(value),
        None => Err(NativeSourceRenderError::MissingSource { input }),
    }
}

/// The frame of a source at a deadline, provided that it has the common size.
pub open spec fn sized_frame(
    registry: RegistryModel,
    input: InputId,
    frame: Option<WorkingFrame>,
) -> Result<WorkingFrame, NativeSourceRenderError> {
    match frame {
        None => Err(NativeSourceRenderError::MissingSource { input }),
        Some(frame) => match registry.dimensions {
            Some((width, height)) => if frame.width != width || frame.height != height {
                Err(
                    NativeSourceRenderError::DimensionMismatch {
                        input,
                        expected_width: width,
                        expected_height: height,
                        actual_width: frame.width,
                        actual_height: frame.height,
                    },
                )
            } else {
                Ok(frame)
            },
            None => Ok(frame),
        },
    }
}

/// The frame that the source `input` shows at the deadline.
pub open spec fn frame_of(registry: RegistryModel, input: InputId, deadline_ns: u64) -> Result<
    WorkingFrame,
    NativeSourceRenderError,
> {
    match registry.prefix(input) {
        None => Err(NativeSourceRenderError::MissingSource { input }),
        Some(prefix) => sized_frame(registry, input, prefix.frame_at(deadline_ns)),
    }
}

/// The frame that the Stinger source `input` shows in an interval of its own cadence.
pub open spec fn stinger_frame_of(
    registry: RegistryModel,
    input: InputId,
    interval_end_ns: Option<u64>,
) -> Result<WorkingFrame, NativeSourceRenderError> {
    match registry.prefix(input) {
        None => Err(NativeSourceRenderError::MissingSource { input }),
        Some(prefix) => if prefix.kind != NativeVideoSourceKind::Retained
            && !prefix.available_for_stinger {
            Err(NativeSourceRenderError::StingerSourceNotPreloaded { input })
        } else {
            match clip_deadline(interval_end_ns) {
                Err(error) => Err(error),
                Ok(deadline_ns) => sized_frame(registry, input, prefix.frame_at(deadline_ns)),
            }
        },
    }
}

fn check_frame_size(
    registry: &NativeSourceRegistry,
    input: InputId,
    frame: Option<WorkingFrame>,
) -> (checked: Result<WorkingFrame, NativeSourceRenderError>)
    ensures
        checked == sized_frame(registry@, input, frame),
{
    let frame: WorkingFrame = match frame {
        None => {
            return Err(NativeSourceRenderError::MissingSource { input });
        },
        Some(frame) => frame,
    };
    match registry.dimensions {
        Some((width, height)) => {
            if frame.width != width || frame.height != height {
                return Err(
                    NativeSourceRenderError::DimensionMismatch {
                        input,
                        expected_width: width,
                        expected_height: height,
                        actual_width: frame.width,
                        actual_height: frame.height,
                    },
                );
            }
        },
        None => {},
    }
    Ok(frame)
}

/// Finds the frame that a source shows at the deadline.
pub fn registry_frame(registry: &NativeSourceRegistry, input: InputId, deadline_ns: u64) -> (frame:
    Result<WorkingFrame, NativeSourceRenderError>)
    requires
        registry.wf(),
    ensures
        frame == frame_of(registry@, input, deadline_ns),
{
    let slot: usize = match registry.position(input) {
        None => {
            return Err(NativeSourceRenderError::MissingSource { input });
        },
        Some(slot) => slot,
    };
    proof {
        assert(registry@.sources[slot as int].1.wf(input, registry.limits));
        source_registry::lemma_ascending_is_sorted(
            registry.sources.entries@[slot as int].1.offsets_ns@,
        );
    }
    let frame: Option<WorkingFrame> = registry.sources.entries[slot].1.frame_at_deadline(
        deadline_ns,
    );
    check_frame_size(registry, input, frame)
}

/// Finds the frame that a Stinger source shows in an interval of its own cadence.
pub fn registry_stinger_frame(
    registry: &NativeSourceRegistry,
    input: InputId,
    interval_end_ns: Option<u64>,
) -> (frame: Result<WorkingFrame, NativeSourceRenderError>)
    requires
        registry.wf(),
    ensures
        frame == stinger_frame_of(registry@, input, interval_end_ns),
{
    let slot: usize = match registry.position(input) {
        None => {
            return Err(NativeSourceRenderError::MissingSource { input });
        },
        Some(slot) => slot,
    };
    proof {
        assert(registry@.sources[slot as int].1.wf(input, registry.limits));
        source_registry::lemma_ascending_is_sorted(
            registry.sources.entries@[slot as int].1.offsets_ns@,
        );
    }
    let prefix: &NativeVideoPrefix = &registry.sources.entries[slot].1;
    if prefix.kind != NativeVideoSourceKind::Retained && !prefix.available_for_stinger {
        return Err(NativeSourceRenderError::StingerSourceNotPreloaded { input });
    }
    let deadline_ns: u64 = match stinger_frame_deadline(interval_end_ns) {
        Err(error) => {
            return Err(error);
        },
        Ok(deadline_ns) => deadline_ns,
    };
    check_frame_size(registry, input, prefix.frame_at_deadline(deadline_ns))
}

/// The picture of a composed scene.
#[derive(Clone, Copy, Debug, PartialEq, Eq, Structural)]
pub struct SceneOutput {
    pub token: u64,
    /// The number by which the caller finds the texture again.
    pub texture: u64,
}

/// The picture of an input: the frame of a source or the picture of a composed scene.
pub open spec fn texture_of(
    registry: RegistryModel,
    project: NativeProjectPlan,
    outputs: Map<SceneId, SceneOutput>,
    input: InputId,
    deadline_ns: u64,
) -> Result<u64, NativeSourceRenderError> {
    match project.video_routes.lookup(input) {
        Some(NativeVideoRoute::Leaf(leaf)) => match frame_of(registry, leaf, deadline_ns) {
            Err(error) => Err(error),
            Ok(frame) => Ok(frame.texture),
        },
        Some(NativeVideoRoute::Scene(scene)) => if outputs.contains_key(scene) {
            Ok(outputs[scene].texture)
        } else {
            Err(NativeSourceRenderError::MissingSource { input })
        },
        None => Err(NativeSourceRenderError::MissingSource { input }),
    }
}

/// Finds the picture of an input.
pub fn project_texture(
    registry: &NativeSourceRegistry,
    project: &NativeProjectPlan,
    scene_outputs: &OrderedMap<SceneId, SceneOutput>,
    input: InputId,
    deadline_ns: u64,
) -> (texture: Result<u64, NativeSourceRenderError>)
    requires
        registry.wf(),
        project.wf(),
        scene_outputs.wf(),
    ensures
        texture == texture_of(registry@, *project, scene_outputs@, input, deadline_ns),
{
    match project.video_route(input) {
        Some(NativeVideoRoute::Leaf(leaf)) => match registry_frame(registry, leaf, deadline_ns) {
            Err(error) => Err(error),
            Ok(frame) => Ok(frame.texture),
        },
        Some(NativeVideoRoute::Scene(scene)) => match scene_outputs.get(scene) {
            Some(output) => Ok(output.texture),
            None => Err(NativeSourceRenderError::MissingSource { input }),
        },
        None => Err(NativeSourceRenderError::MissingSource { input }),
    }
}

/// The pictures that a scene takes, each under its token, or the first that is missing.
pub open spec fn scene_pictures(
    registry: RegistryModel,
    outputs: Map<SceneId, SceneOutput>,
    sources: Seq<(NativeSceneSource, u64)>,
    frame: FrameResult,
) -> Result<Seq<(u64, u64)>, NativeSourceRenderError>
    decreases sources.len(),
{
    if sources.len() == 0 {
        Ok(Seq::empty())
    } else {
        match scene_pictures(registry, outputs, sources.drop_last(), frame) {
            Err(error) => Err(error),
            Ok(pictures) => match sources.last().0 {
                NativeSceneSource::Leaf(input) => match frame_of(
                    registry,
                    input,
                    frame.deadline_ns,
                ) {
                    Err(error) => Err(error),
                    Ok(shown) => Ok(pictures.push((sources.last().1, shown.texture))),
                },
                NativeSceneSource::Scene(scene) => if outputs.contains_key(scene) {
                    Ok(pictures.push((sources.last().1, outputs[scene].texture)))
                } else {
                    Err(NativeSourceRenderError::MissingSource { input: frame.program.primary })
                },
            },
        }
    }
}

proof fn lemma_scene_pictures_fail_early(
    registry: RegistryModel,
    outputs: Map<SceneId, SceneOutput>,
    sources: Seq<(NativeSceneSource, u64)>,
    frame: FrameResult,
    count: int,
)
    requires
        0 <= count <= sources.len(),
        scene_pictures(registry, outputs, sources.take(count), frame) is Err,
    ensures
        scene_pictures(registry, outputs, sources, frame) == scene_pictures(
            registry,
            outputs,
            sources.take(count),
            frame,
        ),
    decreases sources.len() - count,
{
    if count < sources.len() {
        assert(sources.take(count + 1).drop_last() =~= sources.take(count));
        lemma_scene_pictures_fail_early(registry, outputs, sources, frame, count + 1);
    } else {
        assert(sources.take(count) =~= sources);
    }
}

/// The scenes of a frame while they are being composed.
pub struct SceneRender {
    pub execution: NativeSceneExecution,
    pub outputs: OrderedMap<SceneId, SceneOutput>,
}

/// What is known of the scenes of a frame while they are being composed.
#[verifier::ext_equal]
pub struct SceneRenderModel {
    pub execution: ExecutionModel,
    pub outputs: Seq<(SceneId, SceneOutput)>,
}

impl View for SceneRender {
    type V = SceneRenderModel;

    open spec fn view(&self) -> SceneRenderModel {
        SceneRenderModel { execution: self.execution@, outputs: self.outputs.entries@ }
    }
}

/// The counters and pictures after the scenes in `shown` have each been taken once: a
/// picture that nothing takes any more is let go unless the frame itself shows it.
pub open spec fn consumed(
    counters: Seq<(SceneId, usize)>,
    outputs: Seq<(SceneId, SceneOutput)>,
    roots: Seq<SceneId>,
    shown: Seq<SceneId>,
) -> Option<(Seq<(SceneId, usize)>, Seq<(SceneId, SceneOutput)>)>
    decreases shown.len(),
{
    if shown.len() == 0 {
        Some((counters, outputs))
    } else {
        match consumed(counters, outputs, roots, shown.drop_last()) {
            None => None,
            Some((counted, kept)) => {
                let scene = shown.last();
                let slot = ordered::lower_bound(ordered::entry_keys(counted), scene);
                if slot < counted.len() && counted[slot].0 == scene && counted[slot].1 > 0 {
                    let left = (counted[slot].1 - 1) as usize;
                    Some(
                        (
                            counted.update(slot, (scene, left)),
                            if left == 0 && !roots.contains(scene) {
                                ordered::without_entry(kept, scene)
                            } else {
                                kept
                            },
                        ),
                    )
                } else {
                    None
                }
            },
        }
    }
}

proof fn lemma_consumed_fails_early(
    counters: Seq<(SceneId, usize)>,
    outputs: Seq<(SceneId, SceneOutput)>,
    roots: Seq<SceneId>,
    shown: Seq<SceneId>,
    count: int,
)
    requires
        0 <= count <= shown.len(),
        consumed(counters, outputs, roots, shown.take(count)) is None,
    ensures
        consumed(counters, outputs, roots, shown) is None,
    decreases shown.len() - count,
{
    if count < shown.len() {
        assert(shown.take(count + 1).drop_last() =~= shown.take(count));
        lemma_consumed_fails_early(counters, outputs, roots, shown, count + 1);
    } else {
        assert(shown.take(count) =~= shown);
    }
}

impl SceneRender {
    /// Whether counters and pictures are in order.
    pub open spec fn wf(self) -> bool {
        &&& self.execution.remaining_consumers.wf()
        &&& ordered::ascending(self.execution.required@)
        &&& ordered::ascending(self.execution.roots@)
        &&& self.outputs.wf()
    }

    /// Begins to compose the scenes of a frame.
    pub fn new(execution: NativeSceneExecution) -> (render: Self)
        requires
            execution.remaining_consumers.wf(),
            ordered::ascending(execution.required@),
            ordered::ascending(execution.roots@),
        ensures
            render.wf(),
            render.execution == execution,
            render.outputs.entries@ == Seq::<(SceneId, SceneOutput)>::empty(),
    {
        let render: SceneRender = SceneRender { execution, outputs: OrderedMap::new() };
        assert(render.outputs.entries@ =~= Seq::<(SceneId, SceneOutput)>::empty());
        render
    }

    /// Whether the frame needs the scene at all.
    pub fn requires_scene(&self, scene: SceneId) -> (required: bool)
        requires
            self.wf(),
        ensures
            required == self.execution.required@.contains(scene),
    {
        ordered::contains_key(&self.execution.required, scene)
    }

    /// Finds the pictures that a scene takes, each under its token.
    pub fn scene_sources(
        &self,
        registry: &NativeSourceRegistry,
        scene: &NativeScenePlan,
        frame: &FrameResult,
    ) -> (pictures: Result<Vec<(u64, u64)>, NativeSourceRenderError>)
        requires
            self.wf(),
            registry.wf(),
        ensures
            match pictures {
                Ok(found) => scene_pictures(registry@, self.outputs@, scene@.sources, *frame)
                    == Ok::<Seq<(u64, u64)>, NativeSourceRenderError>(found@),
                Err(error) => scene_pictures(registry@, self.outputs@, scene@.sources, *frame)
                    == Err::<Seq<(u64, u64)>, NativeSourceRenderError>(error),
            },
    {
        let sources = &scene.sources.entries;
        let mut pictures: Vec<(u64, u64)> = Vec::new();
        assert(sources@.take(0) =~= Seq::<(NativeSceneSource, u64)>::empty());
        assert(pictures@ =~= Seq::<(u64, u64)>::empty());
        let mut i: usize = 0;
        while i < sources.len()
            invariant
                i <= sources@.len(),
                sources@ == scene@.sources,
                self.wf(),
                registry.wf(),
                scene_pictures(registry@, self.outputs@, sources@.take(i as int), *frame) == Ok::<
                    Seq<(u64, u64)>,
                    NativeSourceRenderError,
                >(pictures@),
            decreases sources@.len() - i,
        {
            proof {
                assert(sources@.take(i + 1).drop_last() =~= sources@.take(i as int));
                assert(sources@.take(i + 1).last() == sources@[i as int]);
                if scene_pictures(registry@, self.outputs@, sources@.take(i + 1), *frame) is Err {
                    lemma_scene_pictures_fail_early(
                        registry@,
                        self.outputs@,
                        sources@,
                        *frame,
                        i + 1,
                    );
                }
            }
            let texture: u64 = match sources[i].0 {
                NativeSceneSource::Leaf(input) => match registry_frame(
                    registry,
                    input,
                    frame.deadline_ns,
                ) {
                    Err(error) => {
                        return Err(error);
                    },
                    Ok(shown) => shown.texture,
                },
                NativeSceneSource::Scene(dependency) => match self.outputs.get(dependency) {
                    None => {
                        return Err(
                            NativeSourceRenderError::MissingSource {
                                input: frame.program.primary,
                            },
                        );
                    },
                    Some(output) => output.texture,
                },
            };
            pictures.push((sources[i].1, texture));
            i = i + 1;
        }
        assert(sources@.take(i as int) =~= sources@);
        Ok(pictures)
    }

    /// Takes over the picture of a composed scene and lets go what it took last.
    pub fn finish_scene(&mut self, scene: &NativeScenePlan, texture: u64) -> (finished: Result<
        (),
        NativeSourceRenderError,
    >)
        requires
            old(self).wf(),
        ensures
            final(self).wf(),
            final(self).execution.roots@ == old(self).execution.roots@,
            final(self).execution.required@ == old(self).execution.required@,
            match consumed(
                old(self).execution.remaining_consumers.entries@,
                ordered::with_entry(
                    old(self).outputs.entries@,
                    scene.id,
                    SceneOutput { token: scene.output, texture },
                ),
                old(self).execution.roots@,
                scene_execution::shown_scenes(scene@.sources),
            ) {
                Some((counters, outputs)) => finished is Ok && final(
                    self).execution.remaining_consumers.entries@ == counters && final(
                    self).outputs.entries@ == outputs,
                None => finished == Err::<(), NativeSourceRenderError>(
                    NativeSourceRenderError::ResourceBounds,
                ),
            },
    {
        let ghost counters = self.execution.remaining_consumers.entries@;
        let ghost roots = self.execution.roots@;
        self.outputs.insert(scene.id, SceneOutput { token: scene.output, texture });
        let ghost outputs = self.outputs.entries@;
        let shown: Vec<SceneId> = scene.scene_dependencies();
        assert(shown@.take(0) =~= Seq::<SceneId>::empty());
        let mut i: usize = 0;
        while i < shown.len()
            invariant
                i <= shown@.len(),
                self.wf(),
                self.execution.roots@ == roots,
                roots == old(self).execution.roots@,
                self.execution.required@ == old(self).execution.required@,
                counters == old(self).execution.remaining_consumers.entries@,
                outputs == ordered::with_entry(
                    old(self).outputs.entries@,
                    scene.id,
                    SceneOutput { token: scene.output, texture },
                ),
                shown@ == scene_execution::shown_scenes(scene@.sources),
                consumed(counters, outputs, roots, shown@.take(i as int)) == Some(
                    (self.execution.remaining_consumers.entries@, self.outputs.entries@),
                ),
            decreases shown@.len() - i,
        {
            let dependency: SceneId = shown[i];
            proof {
                assert(shown@.take(i + 1).drop_last() =~= shown@.take(i as int));
                assert(shown@.take(i + 1).last() == dependency);
                let keys = self.execution.remaining_consumers.keys();
                ordered::lemma_contains_at_lower_bound(keys, dependency);
                ordered::lemma_lower_bound(keys, dependency);
                self.execution.remaining_consumers.lemma_entries();
                let slot = ordered::lower_bound(keys, dependency);
                if slot < keys.len() {
                    assert(keys[slot] == self.execution.remaining_consumers.entries@[slot].0);
                }
            }
            let slot: usize = match self.execution.remaining_consumers.position(dependency) {
                None => {
                    proof {
                        lemma_consumed_fails_early(counters, outputs, roots, shown@, i + 1);
                    }
                    return Err(NativeSourceRenderError::ResourceBounds);
                },
                Some(slot) => slot,
            };
            let consumers: usize = self.execution.remaining_consumers.entries[slot].1;
            if consumers == 0 {
                proof {
                    lemma_consumed_fails_early(counters, outputs, roots, shown@, i + 1);
                }
                return Err(NativeSourceRenderError::ResourceBounds);
            }
            let ghost keys = self.execution.remaining_consumers.keys();
            self.execution.remaining_consumers.entries.set(slot, (dependency, consumers - 1));
            assert(self.execution.remaining_consumers.keys() =~= keys);
            if consumers - 1 == 0 && !ordered::contains_key(&self.execution.roots, dependency) {
                self.outputs.remove(dependency);
            }
            i = i + 1;
        }
        assert(shown@.take(i as int) =~= shown@);
        Ok(())
    }
}

/// The pictures that make up the program.
#[derive(Clone, Copy, Debug, PartialEq, Eq, Structural)]
pub enum ProgramSources {
    Transition { transition: TransitionPlan, primary: u64, secondary: u64 },
    Stinger { frame: StingerFramePlan, program: u64, preview: u64, media: u64 },
}

/// The three inputs whose scenes a frame composes.
pub open spec fn frame_inputs(plan: NativeProjectMixPlan) -> Seq<InputId> {
    match plan {
        NativeProjectMixPlan::Transition(plan) => seq![plan.primary, plan.secondary, plan.primary],
        NativeProjectMixPlan::Stinger(plan) => seq![plan.program, plan.preview, plan.media],
    }
}

/// Lists the three inputs whose scenes a frame composes.
pub fn project_frame_inputs(plan: NativeProjectMixPlan) -> (inputs: Vec<InputId>)
    ensures
        inputs@ == frame_inputs(plan),
{
    let mut inputs: Vec<InputId> = Vec::new();
    match plan {
        NativeProjectMixPlan::Transition(plan) => {
            inputs.push(plan.primary);
            inputs.push(plan.secondary);
            inputs.push(plan.primary);
        },
        NativeProjectMixPlan::Stinger(plan) => {
            inputs.push(plan.program);
            inputs.push(plan.preview);
            inputs.push(plan.media);
        },
    }
    assert(inputs@ =~= frame_inputs(plan));
    inputs
}

/// The pictures of a frame, once its scenes are composed.
pub open spec fn frame_pictures(
    plan: NativeProjectMixPlan,
    registry: RegistryModel,
    stingers: RegistryModel,
    project: NativeProjectPlan,
    outputs: Map<SceneId, SceneOutput>,
    deadline_ns: u64,
    interval_end_ns: Option<u64>,
) -> Result<ProgramSources, NativeSourceRenderError> {
    match plan {
        NativeProjectMixPlan::Transition(plan) => match texture_of(
            registry,
            project,
            outputs,
            plan.primary,
            deadline_ns,
        ) {
            Err(error) => Err(error),
            Ok(primary) => match texture_of(
                registry,
                project,
                outputs,
                plan.secondary,
                deadline_ns,
            ) {
                Err(error) => Err(error),
                Ok(secondary) => Ok(
                    ProgramSources::Transition { transition: plan.transition, primary, secondary },
                ),
            },
        },
        NativeProjectMixPlan::Stinger(plan) => match texture_of(
            registry,
            project,
            outputs,
            plan.program,
            deadline_ns,
        ) {
            Err(error) => Err(error),
            Ok(program) => match texture_of(
                registry,
                project,
                outputs,
                plan.preview,
                deadline_ns,
            ) {
                Err(error) => Err(error),
                Ok(preview) => match project.video_routes.lookup(plan.media) {
                    Some(NativeVideoRoute::Leaf(input)) => match stinger_frame_of(
                        stingers,
                        input,
                        interval_end_ns,
                    ) {
                        Err(error) => Err(error),
                        Ok(media) => Ok(
                            ProgramSources::Stinger {
                                frame: plan.frame,
                                program,
                                preview,
                                media: media.texture,
                            },
                        ),
                    },
                    _ => Err(
                        NativeSourceRenderError::StingerSourceNotPreloaded { input: plan.media },
                    ),
                },
            },
        },
    }
}

/// Finds the pictures that make up the program, once the scenes are composed.
///
/// `interval_end_ns` is when the Stinger frame's interval ends on the clip's own cadence.
pub fn project_frame_sources(
    plan: NativeProjectMixPlan,
    registry: &NativeSourceRegistry,
    stingers: &NativeSourceRegistry,
    project: &NativeProjectPlan,
    scene_outputs: &OrderedMap<SceneId, SceneOutput>,
    deadline_ns: u64,
    interval_end_ns: Option<u64>,
) -> (sources: Result<ProgramSources, NativeSourceRenderError>)
    requires
        registry.wf(),
        stingers.wf(),
        project.wf(),
        scene_outputs.wf(),
    ensures
        sources == frame_pictures(
            plan,
            registry@,
            stingers@,
            *project,
            scene_outputs@,
            deadline_ns,
            interval_end_ns,
        ),
{
    match plan {
        NativeProjectMixPlan::Transition(plan) => {
            let primary: u64 = match project_texture(
                registry,
                project,
                scene_outputs,
                plan.primary,
                deadline_ns,
            ) {
                Err(error) => {
                    return Err(error);
                },
                Ok(texture) => texture,
            };
            let secondary: u64 = match project_texture(
                registry,
                project,
                scene_outputs,
                plan.secondary,
                deadline_ns,
            ) {
                Err(error) => {
                    return Err(error);
                },
                Ok(texture) => texture,
            };
            Ok(ProgramSources::Transition { transition: plan.transition, primary, secondary })
        },
        NativeProjectMixPlan::Stinger(plan) => {
            let program: u64 = match project_texture(
                registry,
                project,
                scene_outputs,
                plan.program,
                deadline_ns,
            ) {
                Err(error) => {
                    return Err(error);
                },
                Ok(texture) => texture,
            };
            let preview: u64 = match project_texture(
                registry,
                project,
                scene_outputs,
                plan.preview,
                deadline_ns,
            ) {
                Err(error) => {
                    return Err(error);
                },
                Ok(texture) => texture,
            };
            let media: u64 = match project.video_route(plan.media) {
                Some(NativeVideoRoute::Leaf(input)) => match registry_stinger_frame(
                    stingers,
                    input,
                    interval_end_ns,
                ) {
                    Err(error) => {
                        return Err(error);
                    },
                    Ok(frame) => frame.texture,
                },
                Some(NativeVideoRoute::Scene(_)) | None => {
                    return Err(
                        NativeSourceRenderError::StingerSourceNotPreloaded { input: plan.media },
                    );
                },
            };
            Ok(ProgramSources::Stinger { frame: plan.frame, program, preview, media })
        },
    }
}

/// Completion and slot accounting for bounded native project rendering.
#[derive(Clone, Copy, Debug, PartialEq, Eq, Structural)]
pub struct NativeProjectFrameTelemetry {
    pub frames_submitted: u64,
    pub completion_waits: u64,
    pub in_flight_slots: usize,
    pub peak_in_flight_slots: usize,
}

impl Default for NativeProjectFrameTelemetry {
    fn default() -> (telemetry: Self)
        ensures
            telemetry == (NativeProjectFrameTelemetry {
                frames_submitted: 0,
                completion_waits: 0,
                in_flight_slots: 0,
                peak_in_flight_slots: 0,
            }),
    {
        NativeProjectFrameTelemetry {
            frames_submitted: 0,
            completion_waits: 0,
            in_flight_slots: 0,
            peak_in_flight_slots: 0,
        }
    }
}

/// Whether a project frame is being rendered, and what has been rendered so far.
#[derive(Clone, Copy, Debug, PartialEq, Eq, Structural)]
pub struct NativeProjectFrameState {
    pub rendering: bool,
    pub telemetry: NativeProjectFrameTelemetry,
}

impl Default for NativeProjectFrameState {
    fn default() -> (state: Self)
        ensures
            !state.rendering,
            state.telemetry.frames_submitted == 0,
            state.telemetry.completion_waits == 0,
            state.telemetry.in_flight_slots == 0,
            state.telemetry.peak_in_flight_slots == 0,
    {
        NativeProjectFrameState {
            rendering: false,
            telemetry: NativeProjectFrameTelemetry::default(),
        }
    }
}

impl NativeProjectFrameState {
    /// Claims the renderer; refused while it is claimed.
    pub fn acquire_project_render(&mut self) -> (acquired: Result<(), NativeSourceRenderError>)
        ensures
            final(self).telemetry == old(self).telemetry,
            final(self).rendering,
            acquired == (if old(self).rendering {
                Err::<(), NativeSourceRenderError>(NativeSourceRenderError::ConcurrentProjectRender)
            } else {
                Ok(())
            }),
    {
        if self.rendering {
            return Err(NativeSourceRenderError::ConcurrentProjectRender);
        }
        self.rendering = true;
        Ok(())
    }

    /// Gives the renderer back.
    pub fn release_project_render(&mut self)
        ensures
            final(self).telemetry == old(self).telemetry,
            !final(self).rendering,
    {
        self.rendering = false;
    }

    /// Whether an earlier frame has to be waited for.
    pub fn must_wait(&self) -> (wait: bool)
        ensures
            wait == (self.telemetry.in_flight_slots != 0),
    {
        self.telemetry.in_flight_slots != 0
    }

    /// Frees the slot of the earlier frame, given what waiting for it came to; `waited` is
    /// read only where there is a frame to wait for.
    pub fn complete_in_flight_project_frame(&mut self, waited: Result<(), OutsideFailure>) -> (completed:
        Result<(), NativeSourceRenderError>)
        ensures
            final(self).rendering == old(self).rendering,
            if old(self).telemetry.in_flight_slots == 0 {
                completed is Ok && *final(self) == *old(self)
            } else {
                match waited {
                    Err(error) => completed == Err::<(), NativeSourceRenderError>(
                        NativeSourceRenderError::Completion(error),
                    ) && *final(self) == *old(self),
                    Ok(_) => if old(self).telemetry.completion_waits == u64::MAX {
                        completed == Err::<(), NativeSourceRenderError>(
                            NativeSourceRenderError::ResourceBounds,
                        ) && final(self).telemetry == (NativeProjectFrameTelemetry {
                            in_flight_slots: 0,
                            ..old(self).telemetry
                        })
                    } else {
                        completed is Ok && final(self).telemetry == (NativeProjectFrameTelemetry {
                            in_flight_slots: 0,
                            completion_waits: (old(self).telemetry.completion_waits + 1) as u64,
                            ..old(self).telemetry
                        })
                    },
                }
            },
    {
        if self.telemetry.in_flight_slots == 0 {
            return Ok(());
        }
        match waited {
            Err(error) => {
                return Err(NativeSourceRenderError::Completion(error));
            },
            Ok(_) => {},
        }
        self.telemetry.in_flight_slots = 0;
        match self.telemetry.completion_waits.checked_add(1) {
            None => Err(NativeSourceRenderError::ResourceBounds),
            Some(waits) => {
                self.telemetry.completion_waits = waits;
                Ok(())
            },
        }
    }

    /// Takes the slot for a new frame.
    pub fn occupy_project_slot(&mut self)
        ensures
            final(self).rendering == old(self).rendering,
            final(self).telemetry == (NativeProjectFrameTelemetry {
                in_flight_slots: 1,
                peak_in_flight_slots: if old(self).telemetry.peak_in_flight_slots < 1 {
                    1
                } else {
                    old(self).telemetry.peak_in_flight_slots
                },
                ..old(self).telemetry
            }),
    {
        self.telemetry.in_flight_slots = NATIVE_PROJECT_IN_FLIGHT_SLOTS;
        if self.telemetry.peak_in_flight_slots < NATIVE_PROJECT_IN_FLIGHT_SLOTS {
            self.telemetry.peak_in_flight_slots = NATIVE_PROJECT_IN_FLIGHT_SLOTS;
        }
    }

    /// Counts a submitted frame.
    pub fn finish_project_frame(&mut self) -> (finished: Result<(), NativeSourceRenderError>)
        ensures
            final(self).rendering == old(self).rendering,
            if old(self).telemetry.frames_submitted == u64::MAX {
                finished == Err::<(), NativeSourceRenderError>(
                    NativeSourceRenderError::ResourceBounds,
                ) && final(self).telemetry == old(self).telemetry
            } else {
                finished is Ok && final(self).telemetry == (NativeProjectFrameTelemetry {
                    frames_submitted: (old(self).telemetry.frames_submitted + 1) as u64,
                    ..old(self).telemetry
                })
            },
    {
        match self.telemetry.frames_submitted.checked_add(1) {
            None => Err(NativeSourceRenderError::ResourceBounds),
            Some(frames) => {
                self.telemetry.frames_submitted = frames;
                Ok(())
            },
        }
    }
}

} // verus!
