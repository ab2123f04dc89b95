//! What a frame of the program comes to, whatever the compositor answers on the way.
use vstd::prelude::*;

use crate::model::{InputId, SceneId, SwitcherTransitionKind};
use crate::ordered;
use crate::picture_laws;
use crate::render;
use crate::render::{
    CompositorVerdict, FadeToBlackPlan, NativeProjectFrameState, NativeProjectMixPlan,
    NativeSourceRenderError, ProgramSources, SceneOutput, SceneRenderModel,
};
use crate::render_cycle;
use crate::render_cycle::{FadeVerdict, FrameEvent, FrameModel, FrameSetting};
use crate::scene_execution;
use crate::scene_execution::NativeVideoRoute;
use crate::scene_graph::NativeSceneSource;
use crate::source_registry::WorkingFrame;

verus! {

/// What a frame is begun with.
pub struct FrameBegin<'a> {
    pub state: NativeProjectFrameState,
    pub setting: FrameSetting<'a>,
    pub verdict: CompositorVerdict,
    pub fade: FadeVerdict,
}

/// The renderer and the stage of a frame once these events have come one after another.
pub open spec fn frame_after(begin: FrameBegin, events: Seq<FrameEvent>) -> (
    NativeProjectFrameState,
    Result<FrameModel, NativeSourceRenderError>,
)
    decreases events.len(),
{
    if events.len() == 0 {
        render_cycle::frame_begun(begin.state, begin.setting, begin.verdict, begin.fade)
    } else {
        match frame_after(begin, events.drop_last()) {
            (state, Err(error)) => (state, Err(error)),
            (state, Ok(stage)) => render_cycle::frame_step(
                state,
                begin.setting,
                stage,
                events.last(),
            ),
        }
    }
}

/// Whether each event is what the frame waited for.
pub open spec fn in_turn(begin: FrameBegin, events: Seq<FrameEvent>) -> bool {
    forall|k: int|
        0 <= k < events.len() ==> match frame_after(begin, #[trigger] events.take(k)).1 {
            Ok(stage) => render_cycle::answers_frame(stage, events[k]),
            Err(_) => false,
        }
}

/// Whether the event at place `k` brought this texture as the picture of a scene.
pub open spec fn brings(
    begin: FrameBegin,
    events: Seq<FrameEvent>,
    k: int,
    scene: SceneId,
    texture: u64,
) -> bool {
    &&& 0 <= k < events.len()
    &&& events[k] == FrameEvent::Composed(Ok(texture))
    &&& frame_after(begin, events.take(k)).1 matches Ok(FrameModel::Scene { place, .. }) && 0
        <= place < begin.setting.project@.scenes.len()
        && begin.setting.project@.scenes[place].id == scene
}

/// Whether the compositor has brought this texture as the picture of a scene.
pub open spec fn has_brought(
    begin: FrameBegin,
    events: Seq<FrameEvent>,
    scene: SceneId,
    texture: u64,
) -> bool {
    exists|k: int| #[trigger] brings(begin, events, k, scene, texture)
}

/// Whether a texture is what an input shows in the frame: the frame of its source at the
/// deadline, or the picture that the compositor brought of its scene.
pub open spec fn is_seen_of(
    begin: FrameBegin,
    events: Seq<FrameEvent>,
    input: InputId,
    texture: u64,
) -> bool {
    exists|r: int|
        0 <= r < begin.setting.project.video_routes.entries@.len() && (
        #[trigger] begin.setting.project.video_routes.entries@[r]).0 == input
            && match begin.setting.project.video_routes.entries@[r].1 {
            NativeVideoRoute::Leaf(leaf) => exists|frame: WorkingFrame|
                frame.texture == texture && #[trigger] picture_laws::is_frame_of(
                    begin.setting.registry@,
                    leaf,
                    begin.setting.frame.deadline_ns,
                    frame,
                ),
            NativeVideoRoute::Scene(scene) => has_brought(begin, events, scene, texture),
        }
}

/// Whether these are the pictures of the program of the frame: of a transition the input that it
/// is on and the one that it moves to, of a Stinger the clip of its slot besides.
pub open spec fn is_program(
    begin: FrameBegin,
    events: Seq<FrameEvent>,
    sources: ProgramSources,
) -> bool {
    let program = begin.setting.frame.program;
    match sources {
        ProgramSources::Transition { transition, primary, secondary } => {
            &&& begin.verdict.transition matches Ok(compiled) && transition == compiled
            &&& !(program.transition_kind matches Some(SwitcherTransitionKind::Stinger(_)))
            &&& is_seen_of(begin, events, program.primary, primary)
            &&& match program.secondary {
                Some(next) => is_seen_of(begin, events, next, secondary),
                None => is_seen_of(begin, events, program.primary, secondary),
            }
        },
        ProgramSources::Stinger { frame, program: shown, preview, media } => {
            &&& begin.verdict.stinger matches Ok(compiled) && frame == compiled
            &&& is_seen_of(begin, events, program.primary, shown)
            &&& program.secondary matches Some(next) && next != program.primary && is_seen_of(
                begin,
                events,
                next,
                preview,
            )
            &&& exists|k: int|
                0 <= k < begin.setting.project.stingers.entries@.len() && program.transition_kind
                    == Some(
                    SwitcherTransitionKind::Stinger(
                        (#[trigger] begin.setting.project.stingers.entries@[k]).0,
                    ),
                ) && picture_laws::is_clip_picture_of(
                    begin.setting.stingers@,
                    *begin.setting.project,
                    begin.setting.project.stingers.entries@[k].1.media_input,
                    begin.setting.interval_end_ns,
                    media,
                )
        },
    }
}

/// Whether a fade runs from where the frame begins to where it ends.
pub open spec fn is_fade_of(begin: FrameBegin, fade: FadeToBlackPlan) -> bool {
    &&& begin.fade.start matches Ok(start) && fade.start == start
    &&& begin.fade.end matches Ok(end) && fade.end == end
}

/// Whether a picture is what a source of a scene shows in the frame.
pub open spec fn is_seen_in_scene(
    begin: FrameBegin,
    events: Seq<FrameEvent>,
    source: NativeSceneSource,
    texture: u64,
) -> bool {
    match source {
        NativeSceneSource::Leaf(input) => exists|frame: WorkingFrame|
            frame.texture == texture && #[trigger] picture_laws::is_frame_of(
                begin.setting.registry@,
                input,
                begin.setting.frame.deadline_ns,
                frame,
            ),
        NativeSceneSource::Scene(scene) => has_brought(begin, events, scene, texture),
    }
}

/// Whether the pictures that are held are those that the compositor brought.
spec fn holds(
    begin: FrameBegin,
    events: Seq<FrameEvent>,
    plan: NativeProjectMixPlan,
    fade: FadeToBlackPlan,
    outputs: Seq<(SceneId, SceneOutput)>,
) -> bool {
    let program = begin.setting.frame.program;
    &&& render::mix_plan(
        render::mix_request(*begin.setting.project, program),
        program,
        begin.verdict,
    ) == Ok::<NativeProjectMixPlan, NativeSourceRenderError>(plan)
    &&& is_fade_of(begin, fade)
    &&& ordered::ascending(ordered::entry_keys(outputs))
    &&& forall|i: int|
        0 <= i < outputs.len() ==> has_brought(
            begin,
            events,
            (#[trigger] outputs[i]).0,
            outputs[i].1.texture,
        )
}

/// What is known of the stage that a frame has come to.
spec fn is_come_to(begin: FrameBegin, events: Seq<FrameEvent>, stage: FrameModel) -> bool {
    match stage {
        FrameModel::Wait { plan, fade, render } => holds(begin, events, plan, fade, render.outputs),
        FrameModel::Scene { plan, fade, render, place, pictures } => {
            &&& holds(begin, events, plan, fade, render.outputs)
            &&& 0 <= place < begin.setting.project@.scenes.len()
            &&& pictures.len() == begin.setting.project@.scenes[place].sources.len()
            &&& forall|i: int|
                0 <= i < pictures.len() ==> (#[trigger] pictures[i]).0
                    == begin.setting.project@.scenes[place].sources[i].1 && is_seen_in_scene(
                    begin,
                    events,
                    begin.setting.project@.scenes[place].sources[i].0,
                    pictures[i].1,
                )
        },
        FrameModel::Mix { fade, sources } => is_fade_of(begin, fade) && is_program(
            begin,
            events,
            sources,
        ),
        FrameModel::Fade { fade, program } => {
            &&& is_fade_of(begin, fade)
            &&& events.len() > 0
            &&& events.last() == FrameEvent::Mixed(Ok(program))
        },
        FrameModel::Over { picture } => events.len() > 0 && events.last() == FrameEvent::Faded(
            Ok(picture),
        ),
    }
}

/// What has been brought stays so.
proof fn lemma_still_brought(
    begin: FrameBegin,
    events: Seq<FrameEvent>,
    scene: SceneId,
    texture: u64,
)
    requires
        events.len() > 0,
        has_brought(begin, events.drop_last(), scene, texture),
    ensures
        has_brought(begin, events, scene, texture),
{
    let k = choose|k: int| #[trigger] brings(begin, events.drop_last(), k, scene, texture);
    assert(events.drop_last().take(k) =~= events.take(k));
    assert(brings(begin, events, k, scene, texture));
}

proof fn lemma_place(keys: Seq<SceneId>, key: SceneId)
    ensures
        0 <= ordered::lower_bound(keys, key) <= keys.len(),
    decreases keys.len(),
{
    if keys.len() > 0 {
        lemma_place(keys.subrange(1, keys.len() as int), key);
    }
}

/// Pictures that are let go leave the others as they are.
proof fn lemma_consumed(
    counters: Seq<(SceneId, usize)>,
    outputs: Seq<(SceneId, SceneOutput)>,
    roots: Seq<SceneId>,
    shown: Seq<SceneId>,
)
    requires
        ordered::ascending(ordered::entry_keys(outputs)),
    ensures
        render::consumed(counters, outputs, roots, shown) matches Some((_, kept)) ==> {
            &&& ordered::ascending(ordered::entry_keys(kept))
            &&& forall|i: int| 0 <= i < kept.len() ==> outputs.contains(#[trigger] kept[i])
        },
    decreases shown.len(),
{
    if shown.len() > 0 {
        lemma_consumed(counters, outputs, roots, shown.drop_last());
        if let Some((_, kept)) = render::consumed(counters, outputs, roots, shown.drop_last()) {
            ordered::lemma_without_entry(kept, shown.last());
            let less = ordered::without_entry(kept, shown.last());
            let slot = ordered::lower_bound(ordered::entry_keys(kept), shown.last());
            lemma_place(ordered::entry_keys(kept), shown.last());
            assert forall|i: int| 0 <= i < less.len() implies outputs.contains(
                #[trigger] less[i],
            ) by {
                if less.len() == kept.len() || i < slot {
                    assert(less[i] == kept[i]);
                } else {
                    assert(less[i] == kept[i + 1]);
                }
            }
        }
    }
}

/// The next picture keeps what is held, and shows what is to be seen.
proof fn lemma_next(
    begin: FrameBegin,
    events: Seq<FrameEvent>,
    plan: NativeProjectMixPlan,
    fade: FadeToBlackPlan,
    render: SceneRenderModel,
    place: int,
)
    requires
        begin.setting.wf(),
        holds(begin, events, plan, fade, render.outputs),
        0 <= place,
    ensures
        render_cycle::next_picture(begin.setting, plan, fade, render, place) matches Ok(stage)
            ==> is_come_to(begin, events, stage) && (stage is Scene || stage is Mix),
    decreases begin.setting.project@.scenes.len() - place,
{
    let setting = begin.setting;
    let scenes = setting.project@.scenes;
    let program = setting.frame.program;
    if place < scenes.len() {
        if render.execution.required.contains(scenes[place].id) {
            picture_laws::scenes_are_composed_of_their_sources(
                setting.registry@,
                render.outputs,
                scenes[place].sources,
                *setting.frame,
            );
            if let Ok(pictures) = render::scene_pictures(
                setting.registry@,
                ordered::collected(render.outputs),
                scenes[place].sources,
                *setting.frame,
            ) {
                assert forall|i: int| 0 <= i < pictures.len() implies (#[trigger] pictures[i]).0
                    == scenes[place].sources[i].1 && is_seen_in_scene(
                    begin,
                    events,
                    scenes[place].sources[i].0,
                    pictures[i].1,
                ) by {
                    if let NativeSceneSource::Scene(scene) = scenes[place].sources[i].0 {
                        let k = choose|k: int|
                            0 <= k < render.outputs.len() && (#[trigger] render.outputs[k]).0
                                == scene && render.outputs[k].1.texture == pictures[i].1;
                        assert(has_brought(
                            begin,
                            events,
                            render.outputs[k].0,
                            render.outputs[k].1.texture,
                        ));
                    }
                }
            }
        } else {
            lemma_next(begin, events, plan, fade, render, place + 1);
        }
    } else {
        if let Ok(sources) = render::frame_pictures(
            plan,
            setting.registry@,
            setting.stingers@,
            *setting.project,
            ordered::collected(render.outputs),
            setting.frame.deadline_ns,
            setting.interval_end_ns,
        ) {
            picture_laws::the_program_is_mixed_of_its_inputs(
                plan,
                setting.registry@,
                setting.stingers@,
                *setting.project,
                render.outputs,
                setting.frame.deadline_ns,
                setting.interval_end_ns,
                sources,
            );
            picture_laws::plans_mix_what_the_program_says(*setting.project, program, begin.verdict);
            match (plan, sources) {
                (
                    NativeProjectMixPlan::Transition(mix),
                    ProgramSources::Transition { primary, secondary, .. },
                ) => {
                    lemma_seen(begin, events, plan, fade, render.outputs, mix.primary, primary);
                    lemma_seen(begin, events, plan, fade, render.outputs, mix.secondary, secondary);
                },
                (
                    NativeProjectMixPlan::Stinger(mix),
                    ProgramSources::Stinger { program: shown, preview, .. },
                ) => {
                    lemma_seen(begin, events, plan, fade, render.outputs, mix.program, shown);
                    lemma_seen(begin, events, plan, fade, render.outputs, mix.preview, preview);
                },
                _ => {},
            }
        }
    }
}

/// The picture of an input is what is seen of it.
proof fn lemma_seen(
    begin: FrameBegin,
    events: Seq<FrameEvent>,
    plan: NativeProjectMixPlan,
    fade: FadeToBlackPlan,
    outputs: Seq<(SceneId, SceneOutput)>,
    input: InputId,
    texture: u64,
)
    requires
        holds(begin, events, plan, fade, outputs),
        picture_laws::is_picture_of(
            begin.setting.registry@,
            *begin.setting.project,
            outputs,
            input,
            begin.setting.frame.deadline_ns,
            texture,
        ),
    ensures
        is_seen_of(begin, events, input, texture),
{
    let routes = begin.setting.project.video_routes.entries@;
    let r = choose|r: int|
        0 <= r < routes.len() && (#[trigger] routes[r]).0 == input && match routes[r].1 {
            NativeVideoRoute::Leaf(leaf) => exists|frame: WorkingFrame|
                frame.texture == texture && #[trigger] picture_laws::is_frame_of(
                    begin.setting.registry@,
                    leaf,
                    begin.setting.frame.deadline_ns,
                    frame,
                ),
            NativeVideoRoute::Scene(scene) => exists|k: int|
                0 <= k < outputs.len() && (#[trigger] outputs[k]).0 == scene
                    && outputs[k].1.texture == texture,
        };
    if let NativeVideoRoute::Scene(scene) = routes[r].1 {
        let k = choose|k: int|
            0 <= k < outputs.len() && (#[trigger] outputs[k]).0 == scene && outputs[k].1.texture
                == texture;
        assert(has_brought(begin, events, outputs[k].0, outputs[k].1.texture));
    }
    assert(routes[r].0 == input);
}

proof fn lemma_come_to(begin: FrameBegin, events: Seq<FrameEvent>)
    requires
        begin.setting.wf(),
        in_turn(begin, events),
    ensures
        frame_after(begin, events).1 matches Ok(stage) ==> is_come_to(begin, events, stage),
    decreases events.len(),
{
    if events.len() > 0 {
        let before = events.drop_last();
        assert(before =~= events.take(events.len() - 1));
        assert forall|k: int| 0 <= k < before.len() implies match frame_after(
            begin,
            #[trigger] before.take(k),
        ).1 {
            Ok(stage) => render_cycle::answers_frame(stage, before[k]),
            Err(_) => false,
        } by {
            assert(before.take(k) =~= events.take(k));
        }
        lemma_come_to(begin, before);
        let (state, came) = frame_after(begin, before);
        if let Ok(stage) = came {
            match (stage, events.last()) {
                (FrameModel::Wait { plan, fade, render }, FrameEvent::Waited(_)) => {
                    assert forall|i: int| 0 <= i < render.outputs.len() implies has_brought(
                        begin,
                        events,
                        (#[trigger] render.outputs[i]).0,
                        render.outputs[i].1.texture,
                    ) by {
                        lemma_still_brought(
                            begin,
                            events,
                            render.outputs[i].0,
                            render.outputs[i].1.texture,
                        );
                    }
                    lemma_next(begin, events, plan, fade, render, 0);
                },
                (
                    FrameModel::Scene { plan, fade, render, place, .. },
                    FrameEvent::Composed(Ok(texture)),
                ) => {
                    let scene = begin.setting.project@.scenes[place];
                    if let Some(after) = render_cycle::with_scene(
                        begin.setting,
                        render,
                        place,
                        texture,
                    ) {
                        let output = SceneOutput { token: scene.output, texture };
                        let with = ordered::with_entry(render.outputs, scene.id, output);
                        ordered::lemma_with_entry(render.outputs, scene.id, output);
                        lemma_consumed(
                            render.execution.remaining_consumers,
                            with,
                            render.execution.roots,
                            scene_execution::shown_scenes(scene.sources),
                        );
                        lemma_place(ordered::entry_keys(render.outputs), scene.id);
                        let slot = ordered::lower_bound(
                            ordered::entry_keys(render.outputs),
                            scene.id,
                        );
                        assert(brings(begin, events, events.len() - 1, scene.id, texture));
                        assert forall|i: int| 0 <= i < after.outputs.len() implies has_brought(
                            begin,
                            events,
                            (#[trigger] after.outputs[i]).0,
                            after.outputs[i].1.texture,
                        ) by {
                            let j = choose|j: int|
                                0 <= j < with.len() && with[j] == after.outputs[i];
                            if j != slot {
                                let was = if with.len() == render.outputs.len() || j < slot {
                                    j
                                } else {
                                    j - 1
                                };
                                assert(with[j] == render.outputs[was]);
                                lemma_still_brought(
                                    begin,
                                    events,
                                    render.outputs[was].0,
                                    render.outputs[was].1.texture,
                                );
                            }
                        }
                        lemma_next(begin, events, plan, fade, after, place + 1);
                    }
                },
                _ => {},
            }
        }
    }
}

/// Whatever a frame goes through, what is mixed for it is its program: the picture of the input
/// that it is on, and the one of the input that it moves to.
pub proof fn frames_mix_their_program(
    begin: FrameBegin,
    events: Seq<FrameEvent>,
    fade: FadeToBlackPlan,
    sources: ProgramSources,
)
    requires
        begin.setting.wf(),
        in_turn(begin, events),
        frame_after(begin, events).1 == Ok::<FrameModel, NativeSourceRenderError>(
            FrameModel::Mix { fade, sources },
        ),
    ensures
        is_program(begin, events, sources),
        is_fade_of(begin, fade),
{
    lemma_come_to(begin, events);
}

/// Whatever a frame goes through, a scene that is composed for it is a scene of the project, and
/// it is composed of what its own sources show, each under its own token.
pub proof fn frames_compose_scenes_of_their_sources(begin: FrameBegin, events: Seq<FrameEvent>)
    requires
        begin.setting.wf(),
        in_turn(begin, events),
    ensures
        frame_after(begin, events).1 matches Ok(FrameModel::Scene { place, pictures, .. }) ==> {
            &&& 0 <= place < begin.setting.project@.scenes.len()
            &&& pictures.len() == begin.setting.project@.scenes[place].sources.len()
            &&& forall|i: int|
                0 <= i < pictures.len() ==> (#[trigger] pictures[i]).0
                    == begin.setting.project@.scenes[place].sources[i].1 && is_seen_in_scene(
                    begin,
                    events,
                    begin.setting.project@.scenes[place].sources[i].0,
                    pictures[i].1,
                )
        },
{
    lemma_come_to(begin, events);
}

/// What is faded is what was mixed, from where the frame begins to where it ends, and the frame
/// that is over is what came of that.
pub proof fn frames_fade_what_was_mixed(begin: FrameBegin, events: Seq<FrameEvent>)
    requires
        begin.setting.wf(),
        in_turn(begin, events),
    ensures
        frame_after(begin, events).1 matches Ok(FrameModel::Fade { fade, program }) ==> {
            &&& is_fade_of(begin, fade)
            &&& events.len() > 0 && events.last() == FrameEvent::Mixed(Ok(program))
            &&& frame_after(begin, events.drop_last()).1 matches Ok(FrameModel::Mix { .. })
        },
        frame_after(begin, events).1 matches Ok(FrameModel::Over { picture }) ==> {
            &&& events.len() > 0 && events.last() == FrameEvent::Faded(Ok(picture))
            &&& frame_after(begin, events.drop_last()).1 matches Ok(FrameModel::Fade { .. })
        },
{
    lemma_come_to(begin, events);
    if events.len() > 0 {
        let before = events.drop_last();
        assert(before =~= events.take(events.len() - 1));
        assert forall|k: int| 0 <= k < before.len() implies match frame_after(
            begin,
            #[trigger] before.take(k),
        ).1 {
            Ok(stage) => render_cycle::answers_frame(stage, before[k]),
            Err(_) => false,
        } by {
            assert(before.take(k) =~= events.take(k));
        }
        lemma_come_to(begin, before);
        if let Ok(stage) = frame_after(begin, before).1 {
            match stage {
                FrameModel::Wait { plan, fade, render } => {
                    assert(holds(begin, before, plan, fade, render.outputs));
                    lemma_next(begin, before, plan, fade, render, 0);
                },
                FrameModel::Scene { plan, fade, render, place, .. } => {
                    if let FrameEvent::Composed(Ok(texture)) = events.last() {
                        if let Some(after) = render_cycle::with_scene(
                            begin.setting,
                            render,
                            place,
                            texture,
                        ) {
                            lemma_next_kind(begin, plan, fade, after, place + 1);
                        }
                    }
                },
                _ => {},
            }
        }
    }
}

proof fn lemma_next_kind(
    begin: FrameBegin,
    plan: NativeProjectMixPlan,
    fade: FadeToBlackPlan,
    render: SceneRenderModel,
    place: int,
)
    ensures
        render_cycle::next_picture(begin.setting, plan, fade, render, place) matches Ok(stage)
            ==> stage is Scene || stage is Mix,
    decreases begin.setting.project@.scenes.len() - place,
{
    if place < begin.setting.project@.scenes.len() {
        lemma_next_kind(begin, plan, fade, render, place + 1);
    }
}

/// A frame whose parts all come out goes on to its end: once it is mixed it is faded, and once it
/// is faded it is over, and counted.
pub proof fn frames_come_to_their_end(
    state: NativeProjectFrameState,
    setting: FrameSetting,
    fade: FadeToBlackPlan,
    sources: ProgramSources,
    program: u64,
    picture: u64,
)
    requires
        state.rendering,
        state.telemetry.frames_submitted < u64::MAX,
    ensures
        ({
            let mixed = FrameModel::Mix { fade, sources };
            let (after, next) = render_cycle::frame_step(
                state,
                setting,
                mixed,
                FrameEvent::Mixed(Ok(program)),
            );
            &&& after == state
            &&& next matches Ok(FrameModel::Fade { fade: faded, program: shown }) && faded == fade
                && shown == program
        }),
        ({
            let (after, next) = render_cycle::frame_step(
                state,
                setting,
                FrameModel::Fade { fade, program },
                FrameEvent::Faded(Ok(picture)),
            );
            &&& !after.rendering
            &&& after.telemetry.frames_submitted == state.telemetry.frames_submitted + 1
            &&& next matches Ok(FrameModel::Over { picture: shown }) && shown == picture
        }),
{
}

} // verus!
