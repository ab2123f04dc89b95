//! Which scenes a frame composes, how many targets it takes, and how a frame without a project
//! is mixed.
use vstd::prelude::*;

use crate::model::{FadeToBlackPosition, FrameResult, InputId, OutsideFailure, ProgramFrame, SceneId};
use crate::ordered;
use crate::picture_laws;
use crate::render;
use crate::render::{
    CompositorVerdict, NativeProjectFrameState, NativeSourceRenderError, ProgramSources,
    TransitionPlan,
};
use crate::render_cycle;
use crate::render_cycle::{FadeVerdict, FrameEvent, FrameMix, FrameModel, FrameSetting};
use crate::scene_execution;
use crate::scene_execution::{NativeVideoRoute, ScenePlanModel};
use crate::scene_graph::NativeSceneSource;
use crate::source_registry::{RegistryModel, WorkingFrame};

verus! {

/// A scene is shown by the frame itself exactly where one of its routes leads to it.
pub proof fn frames_show_the_scenes_of_their_routes(
    routes: Seq<Option<NativeVideoRoute>>,
    scene: SceneId,
)
    ensures
        ordered::ascending(scene_execution::root_scenes(routes)),
        scene_execution::root_scenes(routes).contains(scene) <==> routes.contains(
            Some(NativeVideoRoute::Scene(scene)),
        ),
    decreases routes.len(),
{
    if routes.len() > 0 {
        frames_show_the_scenes_of_their_routes(routes.drop_last(), scene);
        ordered::lemma_contains_drop_last(routes, Some(NativeVideoRoute::Scene(scene)));
        if let Some(NativeVideoRoute::Scene(last)) = routes.last() {
            ordered::lemma_with_key(scene_execution::root_scenes(routes.drop_last()), last);
        }
    }
}

/// A scene shows another exactly where the other is one of its sources.
pub proof fn scenes_show_the_scenes_among_their_sources(
    sources: Seq<(NativeSceneSource, u64)>,
    scene: SceneId,
)
    ensures
        scene_execution::shown_scenes(sources).contains(scene) <==> exists|i: int|
            0 <= i < sources.len() && (#[trigger] sources[i]).0 == NativeSceneSource::Scene(scene),
    decreases sources.len(),
{
    if sources.len() > 0 {
        let rest = sources.drop_last();
        scenes_show_the_scenes_among_their_sources(rest, scene);
        let before = scene_execution::shown_scenes(rest);
        assert(sources[sources.len() - 1] == sources.last());
        if let NativeSceneSource::Scene(last) = sources.last().0 {
            ordered::lemma_contains_drop_last(before.push(last), scene);
            assert(before.push(last).drop_last() =~= before);
        }
        if before.contains(scene) {
            let i = choose|i: int|
                0 <= i < rest.len() && (#[trigger] rest[i]).0 == NativeSceneSource::Scene(scene);
            assert(sources[i] == rest[i]);
        }
        if exists|i: int|
            0 <= i < sources.len() && (#[trigger] sources[i]).0 == NativeSceneSource::Scene(
                scene,
            ) {
            let i = choose|i: int|
                0 <= i < sources.len() && (#[trigger] sources[i]).0 == NativeSceneSource::Scene(
                    scene,
                );
            if i < rest.len() {
                assert(rest[i] == sources[i]);
            }
        }
    }
}

/// Whether a scene is needed by another that a frame composes.
pub open spec fn is_needed(
    scenes: Seq<ScenePlanModel>,
    required: Seq<SceneId>,
    scene: SceneId,
) -> bool {
    exists|i: int|
        #![trigger scenes[i]]
        0 <= i < scenes.len() && required.contains(scenes[i].id) && scene_execution::shown_scenes(
            scenes[i].sources,
        ).contains(scene)
}

proof fn lemma_required(scenes: Seq<ScenePlanModel>, required: Seq<SceneId>, scene: SceneId)
    requires
        ordered::ascending(required),
    ensures
        ({
            let all = scene_execution::required_scenes(scenes, required);
            &&& ordered::ascending(all)
            &&& required.contains(scene) ==> all.contains(scene)
            &&& all.contains(scene) ==> required.contains(scene) || is_needed(scenes, all, scene)
        }),
    decreases scenes.len(),
{
    if scenes.len() > 0 {
        let rest = scenes.drop_last();
        let last = scenes.last();
        let shown = scene_execution::shown_scenes(last.sources);
        let next = if required.contains(last.id) {
            ordered::with_keys(required, shown)
        } else {
            required
        };
        ordered::lemma_with_keys(required, shown);
        lemma_required(rest, next, scene);
        lemma_required(rest, next, last.id);
        let all = scene_execution::required_scenes(scenes, required);
        if all.contains(scene) && !required.contains(scene) {
            if next.contains(scene) {
                assert(scenes[scenes.len() - 1] == last);
                assert(shown.contains(scene));
                assert(all.contains(last.id));
            } else {
                let i = choose|i: int|
                    #![trigger rest[i]]
                    0 <= i < rest.len() && all.contains(rest[i].id)
                        && scene_execution::shown_scenes(rest[i].sources).contains(scene);
                assert(scenes[i] == rest[i]);
            }
        }
    }
}

/// Only what is needed is composed: every scene that a frame composes is shown by the frame
/// itself or by another that it composes.
pub proof fn only_needed_scenes_are_composed(
    routes: Seq<Option<NativeVideoRoute>>,
    scenes: Seq<ScenePlanModel>,
    scene: SceneId,
)
    ensures
        scene_execution::execution(routes, scenes) matches Some(execution) ==> {
            &&& execution.required.contains(scene) ==> routes.contains(
                Some(NativeVideoRoute::Scene(scene)),
            ) || is_needed(scenes, execution.required, scene)
            &&& routes.contains(Some(NativeVideoRoute::Scene(scene)))
                ==> execution.required.contains(scene) && execution.roots.contains(scene)
        },
{
    frames_show_the_scenes_of_their_routes(routes, scene);
    lemma_required(scenes, scene_execution::root_scenes(routes), scene);
}

/// Whether a frame over two inputs, alone or with a Stinger, takes so many targets.
pub open spec fn is_taken_by(
    primary: NativeVideoRoute,
    secondary: NativeVideoRoute,
    stinger: Option<NativeVideoRoute>,
    scenes: Seq<ScenePlanModel>,
    targets: nat,
) -> bool {
    let routes = match stinger {
        None => seq![Some(primary), Some(secondary)],
        Some(stinger) => seq![Some(primary), Some(secondary), Some(stinger)],
    };
    scene_execution::execution(routes, scenes) matches Some(execution) && targets
        == execution.required.len() + 3
}

proof fn lemma_pair_is_taken(
    primary: NativeVideoRoute,
    secondary: NativeVideoRoute,
    stingers: Seq<NativeVideoRoute>,
    scenes: Seq<ScenePlanModel>,
)
    ensures
        scene_execution::pair_peak(primary, secondary, stingers, scenes) matches Some(peak)
            ==> exists|stinger: Option<NativeVideoRoute>|
            #[trigger] is_taken_by(primary, secondary, stinger, scenes, peak) && (
            stinger matches Some(route) ==> stingers.contains(route)),
    decreases stingers.len(),
{
    if let Some(peak) = scene_execution::pair_peak(primary, secondary, stingers, scenes) {
        if stingers.len() == 0 {
            assert(is_taken_by(primary, secondary, None, scenes, peak));
        } else {
            let rest = stingers.drop_last();
            lemma_pair_is_taken(primary, secondary, rest, scenes);
            assert(stingers.contains(stingers.last())) by {
                assert(stingers[stingers.len() - 1] == stingers.last());
            }
            let before = scene_execution::pair_peak(primary, secondary, rest, scenes)->Some_0;
            if peak == before {
                let stinger = choose|stinger: Option<NativeVideoRoute>|
                    #[trigger] is_taken_by(primary, secondary, stinger, scenes, before) && (
                    stinger matches Some(route) ==> rest.contains(route));
                if let Some(route) = stinger {
                    ordered::lemma_contains_drop_last(stingers, route);
                }
                assert(is_taken_by(primary, secondary, stinger, scenes, peak));
            } else {
                assert(is_taken_by(primary, secondary, Some(stingers.last()), scenes, peak));
            }
        }
    }
}

/// Whether some frame over inputs of a project takes so many targets.
pub open spec fn is_taken_by_some(
    primaries: Seq<NativeVideoRoute>,
    secondaries: Seq<NativeVideoRoute>,
    stingers: Seq<NativeVideoRoute>,
    scenes: Seq<ScenePlanModel>,
    targets: nat,
) -> bool {
    exists|primary: NativeVideoRoute, secondary: NativeVideoRoute, stinger: Option<NativeVideoRoute>|
        {
            &&& #[trigger] is_taken_by(primary, secondary, stinger, scenes, targets)
            &&& primaries.contains(primary)
            &&& secondaries.contains(secondary)
            &&& stinger matches Some(route) ==> stingers.contains(route)
        }
}

proof fn lemma_taken_by_more(
    fewer: (Seq<NativeVideoRoute>, Seq<NativeVideoRoute>),
    more: (Seq<NativeVideoRoute>, Seq<NativeVideoRoute>),
    stingers: Seq<NativeVideoRoute>,
    scenes: Seq<ScenePlanModel>,
    targets: nat,
)
    requires
        is_taken_by_some(fewer.0, fewer.1, stingers, scenes, targets),
        forall|route: NativeVideoRoute| #[trigger]
            fewer.0.contains(route) ==> more.0.contains(route),
        forall|route: NativeVideoRoute| #[trigger]
            fewer.1.contains(route) ==> more.1.contains(route),
    ensures
        is_taken_by_some(more.0, more.1, stingers, scenes, targets),
{
}

proof fn lemma_row_is_taken(
    primary: NativeVideoRoute,
    secondaries: Seq<NativeVideoRoute>,
    stingers: Seq<NativeVideoRoute>,
    scenes: Seq<ScenePlanModel>,
)
    ensures
        scene_execution::row_peak(primary, secondaries, stingers, scenes) matches Some(peak)
            ==> peak == 3 || is_taken_by_some(seq![primary], secondaries, stingers, scenes, peak),
    decreases secondaries.len(),
{
    if secondaries.len() > 0 {
        let rest = secondaries.drop_last();
        let last = secondaries.last();
        lemma_row_is_taken(primary, rest, stingers, scenes);
        lemma_pair_is_taken(primary, last, stingers, scenes);
        assert(secondaries[secondaries.len() - 1] == last);
        assert(seq![primary][0] == primary);
        if let Some(peak) = scene_execution::row_peak(primary, secondaries, stingers, scenes) {
            let before = scene_execution::row_peak(primary, rest, stingers, scenes)->Some_0;
            let pair = scene_execution::pair_peak(primary, last, stingers, scenes)->Some_0;
            if peak == before && peak != 3 {
                assert forall|route: NativeVideoRoute| #[trigger]
                    rest.contains(route) implies secondaries.contains(route) by {
                    ordered::lemma_contains_drop_last(secondaries, route);
                }
                lemma_taken_by_more(
                    (seq![primary], rest),
                    (seq![primary], secondaries),
                    stingers,
                    scenes,
                    peak,
                );
            } else if peak != 3 {
                let stinger = choose|stinger: Option<NativeVideoRoute>|
                    #[trigger] is_taken_by(primary, last, stinger, scenes, pair) && (
                    stinger matches Some(route) ==> stingers.contains(route));
                assert(is_taken_by(primary, last, stinger, scenes, peak));
            }
        }
    }
}

/// No more targets are planned than a frame takes: three, or as many as some frame of the project
/// needs for its scenes and three more.
pub proof fn no_more_targets_are_planned_than_taken(
    primaries: Seq<NativeVideoRoute>,
    secondaries: Seq<NativeVideoRoute>,
    stingers: Seq<NativeVideoRoute>,
    scenes: Seq<ScenePlanModel>,
)
    ensures
        scene_execution::grid_peak(primaries, secondaries, stingers, scenes) matches Some(peak)
            ==> peak == 3 || is_taken_by_some(primaries, secondaries, stingers, scenes, peak),
    decreases primaries.len(),
{
    if primaries.len() > 0 {
        let rest = primaries.drop_last();
        let last = primaries.last();
        no_more_targets_are_planned_than_taken(rest, secondaries, stingers, scenes);
        lemma_row_is_taken(last, secondaries, stingers, scenes);
        assert(primaries[primaries.len() - 1] == last);
        if let Some(peak) = scene_execution::grid_peak(primaries, secondaries, stingers, scenes) {
            let before = scene_execution::grid_peak(rest, secondaries, stingers, scenes)->Some_0;
            if peak != 3 {
                if peak == before {
                    assert forall|route: NativeVideoRoute| #[trigger]
                        rest.contains(route) implies primaries.contains(route) by {
                        ordered::lemma_contains_drop_last(primaries, route);
                    }
                    lemma_taken_by_more(
                        (rest, secondaries),
                        (primaries, secondaries),
                        stingers,
                        scenes,
                        peak,
                    );
                } else {
                    assert forall|route: NativeVideoRoute| #[trigger]
                        seq![last].contains(route) implies primaries.contains(route) by {
                        assert(route == last);
                    }
                    lemma_taken_by_more(
                        (seq![last], secondaries),
                        (primaries, secondaries),
                        stingers,
                        scenes,
                        peak,
                    );
                }
            }
        }
    }
}

/// The input that a program is mixed with: its second one, or, where it has none, the first.
pub open spec fn partner_of(program: ProgramFrame) -> InputId {
    match program.secondary {
        Some(secondary) => secondary,
        None => program.primary,
    }
}

/// A frame without a project is mixed of the frames that its inputs show at its deadline, the
/// primary one first, and faded as the compositor said. Without a second input, or with the same
/// one, it shows the primary one alone.
pub proof fn frames_without_a_project_are_mixed_of_their_inputs(
    registry: RegistryModel,
    frame: FrameResult,
    transition: Result<TransitionPlan, OutsideFailure>,
    fade: FadeVerdict,
    mix: FrameMix,
)
    requires
        registry.wf(),
        render_cycle::mixed_frame(registry, frame, transition, fade) == Ok::<
            FrameMix,
            NativeSourceRenderError,
        >(mix),
    ensures
        transition == Ok::<TransitionPlan, OutsideFailure>(mix.transition),
        exists|shown: WorkingFrame|
            #[trigger] picture_laws::is_frame_of(
                registry,
                frame.program.primary,
                frame.deadline_ns,
                shown,
            ) && shown.texture == mix.primary,
        exists|shown: WorkingFrame|
            #[trigger] picture_laws::is_frame_of(
                registry,
                partner_of(frame.program),
                frame.deadline_ns,
                shown,
            ) && shown.texture == mix.secondary,
        fade.start == Ok::<FadeToBlackPosition, OutsideFailure>(mix.fade.start),
        fade.end == Ok::<FadeToBlackPosition, OutsideFailure>(mix.fade.end),
{
    let other = partner_of(frame.program);
    let primary = render::frame_of(registry, frame.program.primary, frame.deadline_ns)->Ok_0;
    picture_laws::frames_are_found(
        registry,
        frame.program.primary,
        frame.deadline_ns,
        primary,
    );
    let secondary = render::frame_of(registry, other, frame.deadline_ns)->Ok_0;
    picture_laws::frames_are_found(registry, other, frame.deadline_ns, secondary);
}

/// The slot of the renderer is taken for one frame at a time. Where it was taken before, that
/// frame is waited for first, and the wait is counted; where the wait fails, the slot is not
/// taken anew.
pub proof fn the_slot_is_taken_once_it_is_free(
    state: NativeProjectFrameState,
    waited: Result<(), OutsideFailure>,
)
    requires
        state.telemetry.completion_waits < u64::MAX,
    ensures
        ({
            let (after, taken) = render_cycle::slot_taken(state, waited);
            let busy = state.telemetry.in_flight_slots > 0;
            &&& taken is Ok <==> !busy || waited is Ok
            &&& taken is Err ==> after == state
            &&& taken is Ok ==> {
                &&& after.telemetry.in_flight_slots == 1
                &&& after.telemetry.peak_in_flight_slots >= 1
                &&& after.telemetry.peak_in_flight_slots >= state.telemetry.peak_in_flight_slots
                &&& after.telemetry.peak_in_flight_slots == 1
                    || after.telemetry.peak_in_flight_slots == state.telemetry.peak_in_flight_slots
                &&& busy ==> after.telemetry.completion_waits == state.telemetry.completion_waits
                    + 1
                &&& !busy ==> after.telemetry.completion_waits == state.telemetry.completion_waits
                &&& after.telemetry.frames_submitted == state.telemetry.frames_submitted
                &&& after.rendering == state.rendering
            }
        }),
{
}

/// A frame of a project begins exactly where its program can be mixed, both ends of its fade are
/// accepted, its scenes can be counted, and no other frame is being rendered.
pub proof fn frames_begin_where_nothing_is_missing(
    state: NativeProjectFrameState,
    setting: FrameSetting,
    verdict: CompositorVerdict,
    fade: FadeVerdict,
)
    ensures
        ({
            let (after, stage) = render_cycle::frame_begun(state, setting, verdict, fade);
            let mix = render::mix_plan(
                render::mix_request(*setting.project, setting.frame.program),
                setting.frame.program,
                verdict,
            );
            &&& stage is Ok <==> {
                &&& fade.start is Ok && fade.end is Ok
                &&& !state.rendering
                &&& mix matches Ok(plan) && scene_execution::execution(
                    setting.project.routes_of(render::frame_inputs(plan)),
                    setting.project@.scenes,
                ) is Some
            }
            &&& stage is Err ==> after == state
            &&& stage is Ok ==> after.rendering && after.telemetry == state.telemetry
            &&& mix matches Err(error) ==> stage == Err::<FrameModel, NativeSourceRenderError>(
                error,
            )
        }),
{
}

/// What the compositor fails with is told with what failed: a scene, a Stinger, a mix or a fade.
pub proof fn failures_of_a_frame_are_told(
    state: NativeProjectFrameState,
    setting: FrameSetting,
    stage: FrameModel,
    event: FrameEvent,
    error: OutsideFailure,
)
    requires
        render_cycle::answers_frame(stage, event),
    ensures
        ({
            let (_, next) = render_cycle::frame_step(state, setting, stage, event);
            &&& event == FrameEvent::Composed(Err(error)) ==> next == Err::<
                FrameModel,
                NativeSourceRenderError,
            >(NativeSourceRenderError::SceneCompositor(error))
            &&& event == FrameEvent::Faded(Err(error)) ==> next == Err::<
                FrameModel,
                NativeSourceRenderError,
            >(NativeSourceRenderError::FadeToBlack(error))
            &&& event == FrameEvent::Mixed(Err(error)) ==> (stage matches FrameModel::Mix {
                sources,
                ..
            } && match sources {
                ProgramSources::Stinger { .. } => next == Err::<FrameModel, NativeSourceRenderError>(
                    NativeSourceRenderError::Stinger(error),
                ),
                _ => next == Err::<FrameModel, NativeSourceRenderError>(
                    NativeSourceRenderError::Compositor(error),
                ),
            })
            &&& event matches FrameEvent::Mixed(Ok(program)) ==> (next matches Ok(
                FrameModel::Fade { program: mixed, .. },
            ) && mixed == program)
            &&& event matches FrameEvent::Faded(Ok(picture)) ==> (
            state.telemetry.frames_submitted < u64::MAX ==> next == Ok::<
                FrameModel,
                NativeSourceRenderError,
            >(FrameModel::Over { picture }))
        }),
{
}

} // verus!
