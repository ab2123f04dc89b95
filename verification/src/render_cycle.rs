//! The order of the steps by which a frame of a project is rendered.
//!
//! Between two steps the compositor does its part. Each stage says what it is asked for, and
//! each event brings what came of it. One frame is rendered at a time.
use vstd::prelude::*;

use crate::frame_laws;
use crate::model::{FadeToBlackPosition, FrameResult, InputId, OutsideFailure};
use crate::ordered;
use crate::project_plan::NativeProjectPlan;
use crate::render;
use crate::render::{
    native_fade_to_black_plan, native_mix_plan, native_project_mix_plan, project_frame_inputs,
    project_frame_sources, registry_frame, CompositorVerdict, FadeToBlackPlan, NativeMixPlan,
    NativeProjectFrameState, NativeProjectFrameTelemetry, NativeProjectMixPlan,
    NativeSourceRenderError, ProgramSources, SceneRender, SceneRenderModel, TransitionPlan,
};
use crate::render_laws;
use crate::scene_execution;
use crate::scene_execution::NativeSceneExecution;
use crate::source_registry::{NativeSourceRegistry, RegistryModel, WorkingFrame};

verus! {

/// What a frame is rendered from.
pub struct FrameSetting<'a> {
    pub registry: &'a NativeSourceRegistry,
    pub stingers: &'a NativeSourceRegistry,
    pub project: &'a NativeProjectPlan,
    pub frame: &'a FrameResult,
    /// When the interval of a Stinger frame ends on the cadence of its clip.
    pub interval_end_ns: Option<u64>,
}

impl<'a> FrameSetting<'a> {
    /// Whether the sources and the project are in order.
    pub open spec fn wf(self) -> bool {
        self.registry.wf() && self.stingers.wf() && self.project.wf()
    }
}

/// What the compositor says of the two ends of a fade to black.
#[derive(Clone, Copy, Debug, PartialEq, Eq)]
pub struct FadeVerdict {
    pub start: Result<FadeToBlackPosition, OutsideFailure>,
    pub end: Result<FadeToBlackPosition, OutsideFailure>,
}

/// How far the render of a frame has come, and what it waits for.
pub enum FrameStage {
    /// The work that was submitted for an earlier frame, if there is any.
    Wait { plan: NativeProjectMixPlan, fade: FadeToBlackPlan, render: SceneRender },
    /// The scene at this place of the project is to be composed of these pictures.
    Scene {
        plan: NativeProjectMixPlan,
        fade: FadeToBlackPlan,
        render: SceneRender,
        place: usize,
        pictures: Vec<(u64, u64)>,
    },
    /// The program is to be mixed.
    Mix { fade: FadeToBlackPlan, sources: ProgramSources },
    /// The program is to be faded.
    Fade { fade: FadeToBlackPlan, program: u64 },
    /// The frame has been submitted.
    Over { picture: u64 },
}

/// What a stage of a render holds.
#[verifier::ext_equal]
pub enum FrameModel {
    Wait { plan: NativeProjectMixPlan, fade: FadeToBlackPlan, render: SceneRenderModel },
    Scene {
        plan: NativeProjectMixPlan,
        fade: FadeToBlackPlan,
        render: SceneRenderModel,
        place: int,
        pictures: Seq<(u64, u64)>,
    },
    Mix { fade: FadeToBlackPlan, sources: ProgramSources },
    Fade { fade: FadeToBlackPlan, program: u64 },
    Over { picture: u64 },
}

impl View for FrameStage {
    type V = FrameModel;

    open spec fn view(&self) -> FrameModel {
        match self {
            FrameStage::Wait { plan, fade, render } => FrameModel::Wait {
                plan: *plan,
                fade: *fade,
                render: render@,
            },
            FrameStage::Scene { plan, fade, render, place, pictures } => FrameModel::Scene {
                plan: *plan,
                fade: *fade,
                render: render@,
                place: *place as int,
                pictures: pictures@,
            },
            FrameStage::Mix { fade, sources } => FrameModel::Mix { fade: *fade, sources: *sources },
            FrameStage::Fade { fade, program } => FrameModel::Fade {
                fade: *fade,
                program: *program,
            },
            FrameStage::Over { picture } => FrameModel::Over { picture: *picture },
        }
    }
}

impl FrameStage {
    /// Whether the scenes are in order, and the one that is composed is one of the project.
    pub open spec fn wf(self, setting: FrameSetting) -> bool {
        match self {
            FrameStage::Wait { render, .. } => render.wf(),
            FrameStage::Scene { render, place, .. } => render.wf() && place
                < setting.project@.scenes.len(),
            _ => true,
        }
    }
}

/// What came of that which a stage of a render waited for. Pictures are told by the numbers of
/// their textures.
#[derive(Clone, Copy, Debug, PartialEq, Eq)]
pub enum FrameEvent {
    Waited(Result<(), OutsideFailure>),
    Composed(Result<u64, OutsideFailure>),
    Mixed(Result<u64, OutsideFailure>),
    Faded(Result<u64, OutsideFailure>),
}

/// Whether an event is what a stage waits for.
pub open spec fn answers_frame(stage: FrameModel, event: FrameEvent) -> bool {
    match stage {
        FrameModel::Wait { .. } => event is Waited,
        FrameModel::Scene { .. } => event is Composed,
        FrameModel::Mix { .. } => event is Mixed,
        FrameModel::Fade { .. } => event is Faded,
        FrameModel::Over { .. } => false,
    }
}

/// What is mixed and how it is faded, and the scenes that have to be composed for it.
pub open spec fn frame_begun(
    state: NativeProjectFrameState,
    setting: FrameSetting,
    verdict: CompositorVerdict,
    fade: FadeVerdict,
) -> (NativeProjectFrameState, Result<FrameModel, NativeSourceRenderError>) {
    let program = setting.frame.program;
    match render::mix_plan(render::mix_request(*setting.project, program), program, verdict) {
        Err(error) => (state, Err(error)),
        Ok(plan) => match (fade.start, fade.end) {
            (Err(error), _) => (state, Err(NativeSourceRenderError::InvalidFadeToBlack(error))),
            (Ok(_), Err(error)) => (
                state,
                Err(NativeSourceRenderError::InvalidFadeToBlack(error)),
            ),
            (Ok(start), Ok(end)) => match scene_execution::execution(
                setting.project.routes_of(render::frame_inputs(plan)),
                setting.project@.scenes,
            ) {
                None => (state, Err(NativeSourceRenderError::ResourceBounds)),
                Some(execution) => if state.rendering {
                    (state, Err(NativeSourceRenderError::ConcurrentProjectRender))
                } else {
                    (
                        NativeProjectFrameState { rendering: true, ..state },
                        Ok(
                            FrameModel::Wait {
                                plan,
                                fade: FadeToBlackPlan { start, end },
                                render: SceneRenderModel { execution, outputs: Seq::empty() },
                            },
                        ),
                    )
                },
            },
        },
    }
}

/// The renderer once it is given back.
pub open spec fn released(state: NativeProjectFrameState) -> NativeProjectFrameState {
    NativeProjectFrameState { rendering: false, ..state }
}

/// The renderer after an earlier frame has been waited for and the slot taken anew.
pub open spec fn slot_taken(
    state: NativeProjectFrameState,
    waited: Result<(), OutsideFailure>,
) -> (NativeProjectFrameState, Result<(), NativeSourceRenderError>) {
    let telemetry = state.telemetry;
    let waits = telemetry.in_flight_slots != 0;
    let emptied = NativeProjectFrameTelemetry { in_flight_slots: 0, ..telemetry };
    if waits && waited is Err {
        (state, Err(NativeSourceRenderError::Completion(waited->Err_0)))
    } else if waits && telemetry.completion_waits == u64::MAX {
        (
            NativeProjectFrameState { telemetry: emptied, ..state },
            Err(NativeSourceRenderError::ResourceBounds),
        )
    } else {
        (
            NativeProjectFrameState {
                telemetry: NativeProjectFrameTelemetry {
                    in_flight_slots: 1,
                    peak_in_flight_slots: if telemetry.peak_in_flight_slots < 1 {
                        1
                    } else {
                        telemetry.peak_in_flight_slots
                    },
                    completion_waits: if waits {
                        (telemetry.completion_waits + 1) as u64
                    } else {
                        telemetry.completion_waits
                    },
                    ..telemetry
                },
                ..state
            },
            Ok(()),
        )
    }
}

/// The next required scene from `place` on with the pictures that it takes, or the pictures of
/// the program where no scene is left.
pub open spec fn next_picture(
    setting: FrameSetting,
    plan: NativeProjectMixPlan,
    fade: FadeToBlackPlan,
    render: SceneRenderModel,
    place: int,
) -> Result<FrameModel, NativeSourceRenderError>
    decreases setting.project@.scenes.len() - place,
{
    let scenes = setting.project@.scenes;
    let outputs = ordered::collected(render.outputs);
    if place >= scenes.len() {
        match render::frame_pictures(
            plan,
            setting.registry@,
            setting.stingers@,
            *setting.project,
            outputs,
            setting.frame.deadline_ns,
            setting.interval_end_ns,
        ) {
            Err(error) => Err(error),
            Ok(sources) => Ok(FrameModel::Mix { fade, sources }),
        }
    } else if !render.execution.required.contains(scenes[place].id) {
        next_picture(setting, plan, fade, render, place + 1)
    } else {
        match render::scene_pictures(
            setting.registry@,
            outputs,
            scenes[place].sources,
            *setting.frame,
        ) {
            Err(error) => Err(error),
            Ok(pictures) => Ok(FrameModel::Scene { plan, fade, render, place, pictures }),
        }
    }
}

/// The scenes once the one at `place` has been composed into a texture.
pub open spec fn with_scene(
    setting: FrameSetting,
    render: SceneRenderModel,
    place: int,
    texture: u64,
) -> Option<SceneRenderModel> {
    let scene = setting.project@.scenes[place];
    match render::consumed(
        render.execution.remaining_consumers,
        ordered::with_entry(
            render.outputs,
            scene.id,
            render::SceneOutput { token: scene.output, texture },
        ),
        render.execution.roots,
        scene_execution::shown_scenes(scene.sources),
    ) {
        None => None,
        Some((counters, outputs)) => Some(
            SceneRenderModel {
                execution: scene_execution::ExecutionModel {
                    remaining_consumers: counters,
                    ..render.execution
                },
                outputs,
            },
        ),
    }
}

/// The stage that follows on a stage and what came of it, before the renderer is given back.
pub open spec fn frame_follows(
    state: NativeProjectFrameState,
    setting: FrameSetting,
    stage: FrameModel,
    event: FrameEvent,
) -> (NativeProjectFrameState, Result<FrameModel, NativeSourceRenderError>) {
    match (stage, event) {
        (FrameModel::Wait { plan, fade, render }, FrameEvent::Waited(waited)) => {
            match slot_taken(state, waited) {
                (after, Err(error)) => (after, Err(error)),
                (after, Ok(_)) => (after, next_picture(setting, plan, fade, render, 0)),
            }
        },
        (
            FrameModel::Scene { plan, fade, render, place, .. },
            FrameEvent::Composed(composed),
        ) => match composed {
            Err(error) => (state, Err(NativeSourceRenderError::SceneCompositor(error))),
            Ok(texture) => match with_scene(setting, render, place, texture) {
                None => (state, Err(NativeSourceRenderError::ResourceBounds)),
                Some(after) => (
                    state,
                    next_picture(setting, plan, fade, after, place + 1),
                ),
            },
        },
        (FrameModel::Mix { fade, sources }, FrameEvent::Mixed(mixed)) => match mixed {
            Err(error) => (
                state,
                Err(
                    if sources is Stinger {
                        NativeSourceRenderError::Stinger(error)
                    } else {
                        NativeSourceRenderError::Compositor(error)
                    },
                ),
            ),
            Ok(program) => (state, Ok(FrameModel::Fade { fade, program })),
        },
        (FrameModel::Fade { .. }, FrameEvent::Faded(faded)) => match faded {
            Err(error) => (state, Err(NativeSourceRenderError::FadeToBlack(error))),
            Ok(picture) => if state.telemetry.frames_submitted == u64::MAX {
                (state, Err(NativeSourceRenderError::ResourceBounds))
            } else {
                (
                    NativeProjectFrameState {
                        telemetry: NativeProjectFrameTelemetry {
                            frames_submitted: (state.telemetry.frames_submitted + 1) as u64,
                            ..state.telemetry
                        },
                        ..state
                    },
                    Ok(FrameModel::Over { picture }),
                )
            },
        },
        _ => (state, Ok(stage)),
    }
}

/// The renderer and the stage that follow on a stage and what came of it. The renderer is given
/// back when the frame is over or has failed.
pub open spec fn frame_step(
    state: NativeProjectFrameState,
    setting: FrameSetting,
    stage: FrameModel,
    event: FrameEvent,
) -> (NativeProjectFrameState, Result<FrameModel, NativeSourceRenderError>) {
    let (after, next) = frame_follows(state, setting, stage, event);
    (
        if next is Err || (next matches Ok(FrameModel::Over { .. })) {
            released(after)
        } else {
            after
        },
        next,
    )
}

/// Finds the next required scene with its pictures, or the pictures of the program.
fn find_next_picture(
    setting: &FrameSetting,
    plan: NativeProjectMixPlan,
    fade: FadeToBlackPlan,
    render: SceneRender,
    first: usize,
) -> (found: Result<FrameStage, NativeSourceRenderError>)
    requires
        setting.wf(),
        render.wf(),
    ensures
        match found {
            Ok(stage) => {
                &&& next_picture(*setting, plan, fade, render@, first as int) == Ok::<
                    FrameModel,
                    NativeSourceRenderError,
                >(stage@)
                &&& stage.wf(*setting)
            },
            Err(error) => next_picture(*setting, plan, fade, render@, first as int) == Err::<
                FrameModel,
                NativeSourceRenderError,
            >(error),
        },
{
    let scenes = &setting.project.scenes;
    let ghost views = setting.project@.scenes;
    let mut place: usize = first;
    while place < scenes.len()
        invariant
            setting.wf(),
            render.wf(),
            scenes@ == setting.project.scenes@,
            views == setting.project@.scenes,
            next_picture(*setting, plan, fade, render@, first as int) == next_picture(
                *setting,
                plan,
                fade,
                render@,
                place as int,
            ),
        decreases scenes@.len() - place,
    {
        assert(views[place as int] == scenes@[place as int]@);
        if render.requires_scene(scenes[place].id) {
            return match render.scene_sources(setting.registry, &scenes[place], setting.frame) {
                Err(error) => Err(error),
                Ok(pictures) => Ok(FrameStage::Scene { plan, fade, render, place, pictures }),
            };
        }
        place = place + 1;
    }
    match project_frame_sources(
        plan,
        setting.registry,
        setting.stingers,
        setting.project,
        &render.outputs,
        setting.frame.deadline_ns,
        setting.interval_end_ns,
    ) {
        Err(error) => Err(error),
        Ok(sources) => Ok(FrameStage::Mix { fade, sources }),
    }
}

impl NativeProjectFrameState {
    /// Begins to render a frame of a project. Refused while another is being rendered.
    pub fn begin_project_frame(
        &mut self,
        setting: &FrameSetting,
        verdict: CompositorVerdict,
        fade: FadeVerdict,
    ) -> (stage: Result<FrameStage, NativeSourceRenderError>)
        requires
            setting.wf(),
        ensures
            ({
                let (after, outcome) = frame_begun(*old(self), *setting, verdict, fade);
                &&& *final(self) == after
                &&& match stage {
                    Ok(stage) => outcome == Ok::<FrameModel, NativeSourceRenderError>(stage@)
                        && stage.wf(*setting) && frame_laws::is_reached(*setting, stage@),
                    Err(error) => outcome == Err::<FrameModel, NativeSourceRenderError>(error),
                }
            }),
    {
        proof {
            frame_laws::a_frame_begins_with_nothing_composed(
                *self,
                *setting,
                verdict,
                fade,
                Seq::new(setting.project@.scenes.len(), |i: int| 0u64),
            );
        }
        let plan: NativeProjectMixPlan = match native_project_mix_plan(
            setting.project,
            setting.frame.program,
            verdict,
        ) {
            Err(error) => {
                return Err(error);
            },
            Ok(plan) => plan,
        };
        let fade: FadeToBlackPlan = match native_fade_to_black_plan(fade.start, fade.end) {
            Err(error) => {
                return Err(error);
            },
            Ok(fade) => fade,
        };
        let inputs: Vec<InputId> = project_frame_inputs(plan);
        let execution: NativeSceneExecution = match setting.project.scene_execution(&inputs) {
            None => {
                return Err(NativeSourceRenderError::ResourceBounds);
            },
            Some(execution) => execution,
        };
        proof {
            render_laws::lemma_execution_in_order(
                setting.project.routes_of(inputs@),
                setting.project@.scenes,
            );
        }
        match self.acquire_project_render() {
            Err(error) => {
                return Err(error);
            },
            Ok(()) => {},
        }
        Ok(FrameStage::Wait { plan, fade, render: SceneRender::new(execution) })
    }

    /// Waits for the earlier frame, as it were, and takes the slot.
    fn take_slot(&mut self, waited: Result<(), OutsideFailure>) -> (taken: Result<
        (),
        NativeSourceRenderError,
    >)
        ensures
            (*final(self), taken) == slot_taken(*old(self), waited),
    {
        match self.complete_in_flight_project_frame(waited) {
            Err(error) => Err(error),
            Ok(()) => {
                self.occupy_project_slot();
                Ok(())
            },
        }
    }

    /// Goes on with a frame, and leaves it to the caller to give the renderer back.
    fn follow(&mut self, setting: &FrameSetting, stage: FrameStage, event: FrameEvent) -> (next:
        Result<FrameStage, NativeSourceRenderError>)
        requires
            setting.wf(),
            stage.wf(*setting),
            answers_frame(stage@, event),
        ensures
            ({
                let (after, outcome) = frame_follows(*old(self), *setting, stage@, event);
                &&& *final(self) == after
                &&& match next {
                    Ok(next) => outcome == Ok::<FrameModel, NativeSourceRenderError>(next@)
                        && next.wf(*setting),
                    Err(error) => outcome == Err::<FrameModel, NativeSourceRenderError>(error),
                }
            }),
    {
        match (stage, event) {
            (FrameStage::Wait { plan, fade, render }, FrameEvent::Waited(waited)) => {
                match self.take_slot(waited) {
                    Err(error) => Err(error),
                    Ok(()) => find_next_picture(setting, plan, fade, render, 0),
                }
            },
            (
                FrameStage::Scene { plan, fade, render, place, .. },
                FrameEvent::Composed(composed),
            ) => match composed {
                Err(error) => Err(NativeSourceRenderError::SceneCompositor(error)),
                Ok(texture) => {
                    let mut render: SceneRender = render;
                    let ghost before = render@;
                    let scenes = &setting.project.scenes;
                    let length: usize = scenes.len();
                    assert(place < length);
                    assert(setting.project@.scenes[place as int] == scenes@[place as int]@);
                    match render.finish_scene(&scenes[place], texture) {
                        Err(error) => Err(error),
                        Ok(()) => {
                            assert(with_scene(*setting, before, place as int, texture) == Some(
                                render@,
                            ));
                            find_next_picture(setting, plan, fade, render, place + 1)
                        },
                    }
                },
            },
            (FrameStage::Mix { fade, sources }, FrameEvent::Mixed(mixed)) => match mixed {
                Err(error) => Err(
                    match sources {
                        ProgramSources::Stinger { .. } => NativeSourceRenderError::Stinger(error),
                        ProgramSources::Transition { .. } => {
                            NativeSourceRenderError::Compositor(error)
                        },
                    },
                ),
                Ok(program) => Ok(FrameStage::Fade { fade, program }),
            },
            (FrameStage::Fade { .. }, FrameEvent::Faded(faded)) => match faded {
                Err(error) => Err(NativeSourceRenderError::FadeToBlack(error)),
                Ok(picture) => match self.finish_project_frame() {
                    Err(error) => Err(error),
                    Ok(()) => Ok(FrameStage::Over { picture }),
                },
            },
            (stage, _) => Ok(stage),
        }
    }

    /// Goes from one stage of the render of a frame to the next. The renderer is given back
    /// when the frame is over or has failed.
    pub fn continue_project_frame(
        &mut self,
        setting: &FrameSetting,
        stage: FrameStage,
        event: FrameEvent,
    ) -> (next: Result<FrameStage, NativeSourceRenderError>)
        requires
            setting.wf(),
            stage.wf(*setting),
            answers_frame(stage@, event),
        ensures
            ({
                let (after, outcome) = frame_step(*old(self), *setting, stage@, event);
                &&& *final(self) == after
                &&& match next {
                    Ok(next) => outcome == Ok::<FrameModel, NativeSourceRenderError>(next@)
                        && next.wf(*setting),
                    Err(error) => outcome == Err::<FrameModel, NativeSourceRenderError>(error),
                }
            }),
            frame_laws::is_reached(*setting, stage@) ==> (next matches Ok(next)
                ==> frame_laws::is_reached(*setting, next@)),
    {
        proof {
            if frame_laws::is_reached(*setting, stage@) {
                let (plan, textures) = choose|plan: NativeProjectMixPlan, textures: Seq<u64>|
                    #[trigger]
                    frame_laws::holds_composed(*setting, plan, textures, stage@);
                frame_laws::stages_hold_what_is_composed(
                    *self,
                    *setting,
                    plan,
                    textures,
                    stage@,
                    event,
                );
            }
        }
        let next: Result<FrameStage, NativeSourceRenderError> = self.follow(setting, stage, event);
        let over: bool = match &next {
            Err(_) => true,
            Ok(FrameStage::Over { .. }) => true,
            Ok(_) => false,
        };
        if over {
            self.release_project_render();
        }
        next
    }
}

/// One frame is rendered at a time: while one is, no other begins, and nothing changes for it.
pub proof fn one_frame_at_a_time(
    state: NativeProjectFrameState,
    setting: FrameSetting,
    verdict: CompositorVerdict,
    fade: FadeVerdict,
)
    ensures
        ({
            let (after, stage) = frame_begun(state, setting, verdict, fade);
            &&& stage is Ok <==> after != state
            &&& stage is Ok ==> !state.rendering && released(after) == state
            &&& state.rendering ==> stage is Err
        }),
{
}

proof fn lemma_next_picture(
    setting: FrameSetting,
    plan: NativeProjectMixPlan,
    fade: FadeToBlackPlan,
    render: SceneRenderModel,
    place: int,
)
    ensures
        next_picture(setting, plan, fade, render, place) matches Ok(stage) ==> stage is Scene
            || stage is Mix,
    decreases setting.project@.scenes.len() - place,
{
    if place < setting.project@.scenes.len() {
        lemma_next_picture(setting, plan, fade, render, place + 1);
    }
}

/// The renderer is given back when a frame is over and when it fails, and not before. No more
/// than one slot is in flight.
pub proof fn the_renderer_is_given_back(
    state: NativeProjectFrameState,
    setting: FrameSetting,
    stage: FrameModel,
    event: FrameEvent,
)
    requires
        state.rendering,
        answers_frame(stage, event),
        state.telemetry.in_flight_slots <= 1,
    ensures
        ({
            let (after, next) = frame_step(state, setting, stage, event);
            &&& after.rendering <==> !(next is Err || (next matches Ok(FrameModel::Over { .. })))
            &&& after.telemetry.in_flight_slots <= 1
            &&& after.telemetry.frames_submitted == state.telemetry.frames_submitted + (
            if next matches Ok(FrameModel::Over { .. }) {
                1int
            } else {
                0
            })
        }),
{
    match (stage, event) {
        (FrameModel::Wait { plan, fade, render }, _) => {
            lemma_next_picture(setting, plan, fade, render, 0);
        },
        (
            FrameModel::Scene { plan, fade, render, place, .. },
            FrameEvent::Composed(Ok(texture)),
        ) => {
            if let Some(after) = with_scene(setting, render, place, texture) {
                lemma_next_picture(setting, plan, fade, after, place + 1);
            }
        },
        _ => {},
    }
}

/// What is mixed and faded for a frame without a project.
#[derive(Clone, Copy, Debug, PartialEq, Eq, Structural)]
pub struct FrameMix {
    pub transition: TransitionPlan,
    pub primary: u64,
    pub secondary: u64,
    pub fade: FadeToBlackPlan,
}

/// What is mixed and faded for a frame without a project, given what the compositor says.
pub open spec fn mixed_frame(
    registry: RegistryModel,
    frame: FrameResult,
    transition: Result<TransitionPlan, OutsideFailure>,
    fade: FadeVerdict,
) -> Result<FrameMix, NativeSourceRenderError> {
    match render::transition_request(frame.program) {
        Err(error) => Err(error),
        Ok(request) => match transition {
            Err(error) => Err(NativeSourceRenderError::InvalidMix(error)),
            Ok(transition) => match (fade.start, fade.end) {
                (Err(error), _) => Err(NativeSourceRenderError::InvalidFadeToBlack(error)),
                (Ok(_), Err(error)) => Err(NativeSourceRenderError::InvalidFadeToBlack(error)),
                (Ok(start), Ok(end)) => match render::frame_of(
                    registry,
                    frame.program.primary,
                    frame.deadline_ns,
                ) {
                    Err(error) => Err(error),
                    Ok(primary) => match render::frame_of(
                        registry,
                        request->Transition_secondary,
                        frame.deadline_ns,
                    ) {
                        Err(error) => Err(error),
                        Ok(secondary) => Ok(
                            FrameMix {
                                transition,
                                primary: primary.texture,
                                secondary: secondary.texture,
                                fade: FadeToBlackPlan { start, end },
                            },
                        ),
                    },
                },
            },
        },
    }
}

/// Finds what is mixed and faded for a frame without a project.
pub fn frame_mix(
    registry: &NativeSourceRegistry,
    frame: &FrameResult,
    transition: Result<TransitionPlan, OutsideFailure>,
    fade: FadeVerdict,
) -> (mix: Result<FrameMix, NativeSourceRenderError>)
    requires
        registry.wf(),
    ensures
        mix == mixed_frame(registry@, *frame, transition, fade),
{
    let plan: NativeMixPlan = match native_mix_plan(frame.program, transition) {
        Err(error) => {
            return Err(error);
        },
        Ok(plan) => plan,
    };
    let fade: FadeToBlackPlan = match native_fade_to_black_plan(fade.start, fade.end) {
        Err(error) => {
            return Err(error);
        },
        Ok(fade) => fade,
    };
    let primary: WorkingFrame = match registry_frame(registry, plan.primary, frame.deadline_ns) {
        Err(error) => {
            return Err(error);
        },
        Ok(primary) => primary,
    };
    match registry_frame(registry, plan.secondary, frame.deadline_ns) {
        Err(error) => Err(error),
        Ok(secondary) => Ok(
            FrameMix {
                transition: plan.transition,
                primary: primary.texture,
                secondary: secondary.texture,
                fade,
            },
        ),
    }
}

} // verus!
