//! What the stages of a frame hold of the scenes that have been composed for it.
use vstd::prelude::*;

use crate::model::SceneId;
use crate::ordered;
use crate::plan_laws;
use crate::render;
use crate::render::{
    CompositorVerdict, FadeToBlackPlan, NativeProjectFrameState, NativeProjectMixPlan,
    NativeSourceRenderError, SceneOutput, SceneRenderModel,
};
use crate::render_cycle;
use crate::render_cycle::{FadeVerdict, FrameEvent, FrameModel, FrameSetting};
use crate::render_laws;
use crate::scene_execution;
use crate::scene_execution::{ExecutionModel, ScenePlanModel};

verus! {

/// What a plan needs of the scenes of the project, where it can be counted.
pub open spec fn needed(setting: FrameSetting, plan: NativeProjectMixPlan) -> Option<ExecutionModel> {
    scene_execution::execution(
        setting.project.routes_of(render::frame_inputs(plan)),
        setting.project@.scenes,
    )
}

/// The counters and pictures after the first `count` scenes of the project have had their turn,
/// those that a plan requires each composed into the texture of its place.
pub open spec fn composed_for(
    setting: FrameSetting,
    plan: NativeProjectMixPlan,
    textures: Seq<u64>,
    count: int,
) -> Option<(Seq<(SceneId, usize)>, Seq<(SceneId, SceneOutput)>)> {
    let execution = needed(setting, plan)->Some_0;
    render_laws::composed(
        execution.remaining_consumers,
        Seq::empty(),
        execution.roots,
        execution.required,
        setting.project@.scenes.take(count),
        textures,
    )
}

/// Whether a stage holds what has been composed for a plan into these textures: nothing before
/// the first scene, what the scenes before a scene have left when it is its turn, and of what
/// they all have left the pictures that the program shows.
pub open spec fn holds_composed(
    setting: FrameSetting,
    plan: NativeProjectMixPlan,
    textures: Seq<u64>,
    stage: FrameModel,
) -> bool {
    &&& textures.len() == setting.project@.scenes.len()
    &&& needed(setting, plan) is Some
    &&& match stage {
        FrameModel::Wait { plan: planned, render, .. } => {
            &&& planned == plan
            &&& render.execution == needed(setting, plan)->Some_0
            &&& render.outputs == Seq::<(SceneId, SceneOutput)>::empty()
        },
        FrameModel::Scene { plan: planned, render, place, pictures, .. } => {
            &&& planned == plan
            &&& 0 <= place < setting.project@.scenes.len()
            &&& render.execution.roots == needed(setting, plan)->Some_0.roots
            &&& render.execution.required == needed(setting, plan)->Some_0.required
            &&& render.execution.required.contains(setting.project@.scenes[place].id)
            &&& composed_for(setting, plan, textures, place) == Some(
                (render.execution.remaining_consumers, render.outputs),
            )
            &&& render::scene_pictures(
                setting.registry@,
                ordered::collected(render.outputs),
                setting.project@.scenes[place].sources,
                *setting.frame,
            ) == Ok::<Seq<(u64, u64)>, NativeSourceRenderError>(pictures)
        },
        FrameModel::Mix { sources, .. } => {
            composed_for(
                setting,
                plan,
                textures,
                setting.project@.scenes.len() as int,
            ) matches Some((_, outputs)) && render::frame_pictures(
                plan,
                setting.registry@,
                setting.stingers@,
                *setting.project,
                ordered::collected(outputs),
                setting.frame.deadline_ns,
                setting.interval_end_ns,
            ) == Ok::<render::ProgramSources, NativeSourceRenderError>(sources)
        },
        _ => true,
    }
}

/// Whether a stage holds what has been composed for some plan into some textures.
pub open spec fn is_reached(setting: FrameSetting, stage: FrameModel) -> bool {
    exists|plan: NativeProjectMixPlan, textures: Seq<u64>| #[trigger]
        holds_composed(setting, plan, textures, stage)
}

/// The textures once an event has come: a scene that was composed has its own.
pub open spec fn textures_after(
    stage: FrameModel,
    event: FrameEvent,
    textures: Seq<u64>,
) -> Seq<u64> {
    match (stage, event) {
        (FrameModel::Scene { place, .. }, FrameEvent::Composed(Ok(texture))) => textures.update(
            place,
            texture,
        ),
        _ => textures,
    }
}

/// Only the textures of the places before `count` matter to what the first scenes leave.
proof fn lemma_later_textures(
    execution: ExecutionModel,
    scenes: Seq<ScenePlanModel>,
    textures: Seq<u64>,
    others: Seq<u64>,
    count: int,
)
    requires
        0 <= count <= scenes.len(),
        forall|i: int| 0 <= i < count ==> #[trigger] textures[i] == others[i],
    ensures
        render_laws::composed(
            execution.remaining_consumers,
            Seq::empty(),
            execution.roots,
            execution.required,
            scenes.take(count),
            textures,
        ) == render_laws::composed(
            execution.remaining_consumers,
            Seq::empty(),
            execution.roots,
            execution.required,
            scenes.take(count),
            others,
        ),
    decreases count,
{
    if count > 0 {
        lemma_later_textures(execution, scenes, textures, others, count - 1);
        assert(scenes.take(count).drop_last() =~= scenes.take(count - 1));
        assert(textures[count - 1] == others[count - 1]);
    }
}

/// The stage after the first `place` scenes have had their turn holds what they have left.
proof fn lemma_next_picture(
    setting: FrameSetting,
    plan: NativeProjectMixPlan,
    fade: FadeToBlackPlan,
    render: SceneRenderModel,
    textures: Seq<u64>,
    place: int,
)
    requires
        textures.len() == setting.project@.scenes.len(),
        needed(setting, plan) is Some,
        0 <= place <= setting.project@.scenes.len(),
        render.execution.roots == needed(setting, plan)->Some_0.roots,
        render.execution.required == needed(setting, plan)->Some_0.required,
        composed_for(setting, plan, textures, place) == Some(
            (render.execution.remaining_consumers, render.outputs),
        ),
    ensures
        render_cycle::next_picture(setting, plan, fade, render, place) matches Ok(next)
            ==> holds_composed(setting, plan, textures, next),
    decreases setting.project@.scenes.len() - place,
{
    let scenes = setting.project@.scenes;
    if place < scenes.len() {
        assert(scenes.take(place + 1).drop_last() =~= scenes.take(place));
        assert(scenes.take(place + 1).last() == scenes[place]);
        if !render.execution.required.contains(scenes[place].id) {
            lemma_next_picture(setting, plan, fade, render, textures, place + 1);
        }
    } else {
        assert(scenes.take(place) =~= scenes);
    }
}

/// A frame begins with nothing composed, and with the plan that the compositor accepted.
pub proof fn a_frame_begins_with_nothing_composed(
    state: NativeProjectFrameState,
    setting: FrameSetting,
    verdict: CompositorVerdict,
    fade: FadeVerdict,
    textures: Seq<u64>,
)
    requires
        textures.len() == setting.project@.scenes.len(),
    ensures
        render_cycle::frame_begun(state, setting, verdict, fade).1 matches Ok(stage) ==> {
            let program = setting.frame.program;
            let plan = render::mix_plan(
                render::mix_request(*setting.project, program),
                program,
                verdict,
            )->Ok_0;
            &&& holds_composed(setting, plan, textures, stage)
            &&& is_reached(setting, stage)
        },
{
    if let Ok(stage) = render_cycle::frame_begun(state, setting, verdict, fade).1 {
        let program = setting.frame.program;
        let plan = render::mix_plan(
            render::mix_request(*setting.project, program),
            program,
            verdict,
        )->Ok_0;
        assert(holds_composed(setting, plan, textures, stage));
    }
}

/// Each stage that follows on one that holds what has been composed holds it too, with the
/// picture of the scene whose turn it was.
pub proof fn stages_hold_what_is_composed(
    state: NativeProjectFrameState,
    setting: FrameSetting,
    plan: NativeProjectMixPlan,
    textures: Seq<u64>,
    stage: FrameModel,
    event: FrameEvent,
)
    requires
        holds_composed(setting, plan, textures, stage),
        render_cycle::answers_frame(stage, event),
    ensures
        render_cycle::frame_step(state, setting, stage, event).1 matches Ok(next) ==> {
            &&& holds_composed(setting, plan, textures_after(stage, event, textures), next)
            &&& is_reached(setting, next)
        },
{
    let scenes = setting.project@.scenes;
    let after = textures_after(stage, event, textures);
    match (stage, event) {
        (FrameModel::Wait { fade, render, .. }, FrameEvent::Waited(_)) => {
            assert(scenes.take(0) =~= Seq::<ScenePlanModel>::empty());
            lemma_next_picture(setting, plan, fade, render, textures, 0);
        },
        (
            FrameModel::Scene { fade, render, place, .. },
            FrameEvent::Composed(Ok(texture)),
        ) => {
            lemma_later_textures(
                needed(setting, plan)->Some_0,
                scenes,
                textures,
                after,
                place,
            );
            assert(scenes.take(place + 1).drop_last() =~= scenes.take(place));
            assert(scenes.take(place + 1).last() == scenes[place]);
            assert(after[place] == texture);
            if let Some(next) = render_cycle::with_scene(setting, render, place, texture) {
                lemma_next_picture(setting, plan, fade, next, after, place + 1);
            }
        },
        _ => {},
    }
    if let Ok(next) = render_cycle::frame_step(state, setting, stage, event).1 {
        assert(holds_composed(setting, plan, after, next));
    }
}

/// In every stage that a frame reaches, the picture of each scene that the scene at hand shows
/// is there, composing it cannot run out of counts, and no more pictures are held than the
/// frame was charged for.
pub proof fn reached_stages_hold_their_pictures(
    setting: FrameSetting,
    plan: NativeProjectMixPlan,
    textures: Seq<u64>,
    stage: FrameModel,
    texture: u64,
)
    requires
        plan_laws::composes_in_order(setting.project@.scenes),
        holds_composed(setting, plan, textures, stage),
    ensures
        stage matches FrameModel::Scene { render, place, .. } ==> {
            &&& forall|shown: SceneId|
                scene_execution::shown_scenes(setting.project@.scenes[place].sources).contains(
                    shown,
                ) ==> #[trigger] ordered::collected(render.outputs).contains_key(shown)
            &&& render_cycle::with_scene(setting, render, place, texture) is Some
            &&& scene_execution::route_peak(
                setting.project.routes_of(render::frame_inputs(plan)),
                setting.project@.scenes,
            ) matches Some(peak) ==> render.outputs.len() + 3 <= peak
        },
{
    if let FrameModel::Scene { render, place, .. } = stage {
        let scenes = setting.project@.scenes;
        let routes = setting.project.routes_of(render::frame_inputs(plan));
        let after = textures.update(place, texture);
        assert forall|shown: SceneId|
            scene_execution::shown_scenes(scenes[place].sources).contains(
                shown,
            ) implies #[trigger] ordered::collected(render.outputs).contains_key(shown) by {
            render_laws::scenes_find_their_pictures(routes, scenes, textures, place, shown);
        }
        render_laws::held_pictures_keep_to_the_peak(routes, scenes, textures, place);
        render_laws::held_pictures_keep_to_the_peak(routes, scenes, after, place + 1);
        lemma_later_textures(needed(setting, plan)->Some_0, scenes, textures, after, place);
        assert(scenes.take(place + 1).drop_last() =~= scenes.take(place));
        assert(scenes.take(place + 1).last() == scenes[place]);
    }
}

/// When a frame is mixed, the pictures that it shows come from what all scenes have left, and
/// they have left the pictures of the scenes that the frame itself shows and no other.
pub proof fn the_mix_shows_the_roots(
    setting: FrameSetting,
    plan: NativeProjectMixPlan,
    textures: Seq<u64>,
    stage: FrameModel,
    scene: SceneId,
)
    requires
        plan_laws::composes_in_order(setting.project@.scenes),
        holds_composed(setting, plan, textures, stage),
        stage is Mix,
    ensures
        composed_for(
            setting,
            plan,
            textures,
            setting.project@.scenes.len() as int,
        ) matches Some((_, outputs)) && (ordered::collected(outputs).contains_key(scene) <==> {
            &&& needed(setting, plan)->Some_0.roots.contains(scene)
            &&& exists|i: int|
                0 <= i < setting.project@.scenes.len() && (#[trigger] setting.project@.scenes[i]).id
                    == scene
        }),
{
    let scenes = setting.project@.scenes;
    assert(scenes.take(scenes.len() as int) =~= scenes);
    render_laws::only_the_roots_are_left(
        setting.project.routes_of(render::frame_inputs(plan)),
        scenes,
        textures,
        scene,
    );
}

} // verus!
