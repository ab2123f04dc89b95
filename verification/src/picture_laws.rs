//! What the program shows, told by the frames of the sources and by what the compositor brought.
use vstd::prelude::*;

use crate::model::{InputId, ProgramFrame, SceneId, SwitcherTransitionKind};
use crate::ordered;
use crate::ordered::Ranked;
use crate::project_plan::NativeProjectPlan;
use crate::render;
use crate::render::{
    CompositorVerdict, NativeMixRequest, NativeProjectMixPlan, NativeSourceRenderError,
    ProgramSources, SceneOutput, TransitionKind,
};
use crate::scene_execution::NativeVideoRoute;
use crate::scene_graph::NativeSceneSource;
use crate::source;
use crate::source_playback;
use crate::source_registry;
use crate::source_registry::{NativeVideoSourceKind, PrefixModel, RegistryModel, WorkingFrame};

verus! {

/// Whether the frame at place `i` of a ring is the one to be seen at the deadline. A live source
/// shows its newest frame. Any other shows the frame that is due and after which none is due yet,
/// and only if what comes up to the deadline is known.
pub open spec fn is_seen(prefix: PrefixModel, i: int, deadline_ns: u64) -> bool {
    &&& 0 <= i < prefix.frames.len()
    &&& if prefix.kind == NativeVideoSourceKind::Live {
        i == prefix.frames.len() - 1
    } else {
        &&& prefix.offsets_ns[i] <= deadline_ns
        &&& forall|j: int|
            i < j < prefix.offsets_ns.len() ==> #[trigger] prefix.offsets_ns[j] > deadline_ns
        &&& prefix.end_of_stream || prefix.offsets_ns[prefix.offsets_ns.len() - 1] >= deadline_ns
    }
}

/// Whether a picture has the size that all sources of a registry share.
pub open spec fn fits(registry: RegistryModel, frame: WorkingFrame) -> bool {
    registry.dimensions is None || registry.dimensions == Some((frame.width, frame.height))
}

/// Whether this is the frame of a source at the deadline.
pub open spec fn is_frame_of(
    registry: RegistryModel,
    input: InputId,
    deadline_ns: u64,
    frame: WorkingFrame,
) -> bool {
    &&& fits(registry, frame)
    &&& exists|s: int, i: int|
        #![trigger registry.sources[s], is_seen(registry.sources[s].1, i, deadline_ns)]
        {
            &&& 0 <= s < registry.sources.len()
            &&& registry.sources[s].0 == input
            &&& is_seen(registry.sources[s].1, i, deadline_ns)
            &&& registry.sources[s].1.frames[i] == frame
        }
}

/// Whether this is the frame of a clip in an interval of its own cadence: the one at the last
/// instant of the interval, of a source that is kept or made ready for Stingers.
pub open spec fn is_clip_frame_of(
    registry: RegistryModel,
    input: InputId,
    interval_end_ns: Option<u64>,
    frame: WorkingFrame,
) -> bool {
    &&& fits(registry, frame)
    &&& interval_end_ns matches Some(end) && end > 0 && exists|s: int, i: int|
        #![trigger registry.sources[s], is_seen(registry.sources[s].1, i, (end - 1) as u64)]
        {
            &&& 0 <= s < registry.sources.len()
            &&& registry.sources[s].0 == input
            &&& registry.sources[s].1.kind == NativeVideoSourceKind::Retained
                || registry.sources[s].1.available_for_stinger
            &&& is_seen(registry.sources[s].1, i, (end - 1) as u64)
            &&& registry.sources[s].1.frames[i] == frame
        }
}

/// Whether a texture is the picture of an input at the deadline: the frame of the source that
/// the input leads to, or the picture that was composed of its scene.
pub open spec fn is_picture_of(
    registry: RegistryModel,
    project: NativeProjectPlan,
    outputs: Seq<(SceneId, SceneOutput)>,
    input: InputId,
    deadline_ns: u64,
    texture: u64,
) -> bool {
    exists|r: int|
        0 <= r < project.video_routes.entries@.len() && (
        #[trigger] project.video_routes.entries@[r]).0 == input && match project.video_routes.entries@[r].1 {
            NativeVideoRoute::Leaf(leaf) => exists|frame: WorkingFrame|
                frame.texture == texture && #[trigger] is_frame_of(
                    registry,
                    leaf,
                    deadline_ns,
                    frame,
                ),
            NativeVideoRoute::Scene(scene) => exists|k: int|
                0 <= k < outputs.len() && (#[trigger] outputs[k]).0 == scene
                    && outputs[k].1.texture == texture,
        }
}

/// Whether a texture is the picture of a Stinger's clip in this interval.
pub open spec fn is_clip_picture_of(
    stingers: RegistryModel,
    project: NativeProjectPlan,
    media: InputId,
    interval_end_ns: Option<u64>,
    texture: u64,
) -> bool {
    exists|r: int|
        0 <= r < project.video_routes.entries@.len() && (
        #[trigger] project.video_routes.entries@[r]).0 == media && match project.video_routes.entries@[r].1 {
            NativeVideoRoute::Leaf(leaf) => exists|frame: WorkingFrame|
                frame.texture == texture && #[trigger] is_clip_frame_of(
                    stingers,
                    leaf,
                    interval_end_ns,
                    frame,
                ),
            NativeVideoRoute::Scene(_) => false,
        }
}

/// A ring shows the last frame that is due, and shows it whenever there is one.
pub proof fn rings_show_the_last_frame_due(
    prefix: PrefixModel,
    input: InputId,
    limits: source::NativeSourceLimits,
    deadline_ns: u64,
)
    requires
        prefix.wf(input, limits),
    ensures
        forall|i: int| #[trigger]
            is_seen(prefix, i, deadline_ns) ==> prefix.frame_at(deadline_ns) == Some(
                prefix.frames[i],
            ),
        prefix.frame_at(deadline_ns) matches Some(frame) ==> exists|i: int| #[trigger]
            is_seen(prefix, i, deadline_ns) && prefix.frames[i] == frame,
{
    source_registry::lemma_ascending_is_sorted(prefix.offsets_ns);
    source::lemma_shown_index(prefix.offsets_ns, deadline_ns);
    assert forall|i: int| #[trigger] is_seen(prefix, i, deadline_ns) implies prefix.frame_at(
        deadline_ns,
    ) == Some(prefix.frames[i]) by {
        if prefix.kind != NativeVideoSourceKind::Live {
            let shown = source::shown_index(prefix.offsets_ns, deadline_ns)->Some_0;
            assert(prefix.offsets_ns[i] <= deadline_ns);
            if i < shown {
                assert(prefix.offsets_ns[shown] > deadline_ns);
            }
            if shown < i {
                assert(prefix.offsets_ns[i] > deadline_ns);
            }
        }
    }
    if let Some(frame) = prefix.frame_at(deadline_ns) {
        let i = if prefix.kind == NativeVideoSourceKind::Live {
            prefix.frames.len() - 1
        } else {
            source::shown_index(prefix.offsets_ns, deadline_ns)->Some_0
        };
        assert(is_seen(prefix, i, deadline_ns));
    }
}

/// The ring of an input is the one that is registered under it.
proof fn lemma_prefix(registry: RegistryModel, input: InputId)
    requires
        registry.wf(),
    ensures
        forall|s: int|
            0 <= s < registry.sources.len() && (#[trigger] registry.sources[s]).0 == input
                ==> registry.prefix(input) == Some(registry.sources[s].1),
        registry.prefix(input) matches Some(prefix) ==> exists|s: int|
            0 <= s < registry.sources.len() && #[trigger] registry.sources[s] == (input, prefix),
        registry.prefix(input) matches Some(prefix) ==> prefix.wf(input, registry.limits),
{
    let keys = ordered::entry_keys(registry.sources);
    ordered::lemma_contains_at_lower_bound(keys, input);
    ordered::lemma_lower_bound(keys, input);
    let slot = ordered::lower_bound(keys, input);
    assert forall|s: int|
        0 <= s < registry.sources.len() && (
        #[trigger] registry.sources[s]).0 == input implies registry.prefix(input) == Some(
        registry.sources[s].1,
    ) by {
        assert(keys[s] == input);
        assert(keys.contains(input));
        assert(keys[slot] == registry.sources[slot].0);
        if s < slot {
            assert(keys[s].rank() < keys[slot].rank());
        } else if slot < s {
            assert(keys[slot].rank() < keys[s].rank());
        }
    }
    if registry.prefix(input) is Some {
        assert(registry.sources[slot] == (input, registry.prefix(input)->Some_0));
        source_playback::lemma_prefix_at(registry, input);
    }
}

/// The frame that is found for a source is its frame at the deadline, and it is found whenever
/// there is one.
pub proof fn frames_are_found(
    registry: RegistryModel,
    input: InputId,
    deadline_ns: u64,
    frame: WorkingFrame,
)
    requires
        registry.wf(),
    ensures
        render::frame_of(registry, input, deadline_ns) == Ok::<
            WorkingFrame,
            NativeSourceRenderError,
        >(frame) <==> is_frame_of(registry, input, deadline_ns, frame),
{
    lemma_prefix(registry, input);
    if let Some(prefix) = registry.prefix(input) {
        rings_show_the_last_frame_due(prefix, input, registry.limits, deadline_ns);
        if render::frame_of(registry, input, deadline_ns) == Ok::<
            WorkingFrame,
            NativeSourceRenderError,
        >(frame) {
            let s = choose|s: int|
                0 <= s < registry.sources.len() && #[trigger] registry.sources[s] == (
                    input,
                    prefix,
                );
            let i = choose|i: int| #[trigger]
                is_seen(prefix, i, deadline_ns) && prefix.frames[i] == frame;
            assert(is_seen(registry.sources[s].1, i, deadline_ns));
        }
    }
    if is_frame_of(registry, input, deadline_ns, frame) {
        let (s, i) = choose|s: int, i: int|
            #![trigger registry.sources[s], is_seen(registry.sources[s].1, i, deadline_ns)]
            {
                &&& 0 <= s < registry.sources.len()
                &&& registry.sources[s].0 == input
                &&& is_seen(registry.sources[s].1, i, deadline_ns)
                &&& registry.sources[s].1.frames[i] == frame
            };
        let prefix = registry.sources[s].1;
        assert(registry.prefix(input) == Some(prefix));
        assert(prefix.frame_at(deadline_ns) == Some(frame));
    }
}

/// A frame that is not found is missing, or it has another size than the sources share.
pub proof fn frames_that_are_not_found_are_missing(
    registry: RegistryModel,
    input: InputId,
    deadline_ns: u64,
)
    requires
        registry.wf(),
    ensures
        render::frame_of(registry, input, deadline_ns) matches Err(error) ==> {
            ||| error == (NativeSourceRenderError::MissingSource { input }) && forall|
                s: int,
                i: int,
            |
                0 <= s < registry.sources.len() && (#[trigger] registry.sources[s]).0 == input
                    ==> !#[trigger] is_seen(registry.sources[s].1, i, deadline_ns)
            ||| error matches NativeSourceRenderError::DimensionMismatch {
                input: told,
                expected_width,
                expected_height,
                actual_width,
                actual_height,
            } && {
                &&& told == input
                &&& registry.dimensions == Some((expected_width, expected_height))
                &&& (actual_width, actual_height) != (expected_width, expected_height)
                &&& exists|s: int, i: int|
                    #![trigger registry.sources[s], is_seen(registry.sources[s].1, i, deadline_ns)]
                    {
                        &&& 0 <= s < registry.sources.len()
                        &&& registry.sources[s].0 == input
                        &&& is_seen(registry.sources[s].1, i, deadline_ns)
                        &&& registry.sources[s].1.frames[i].width == actual_width
                        &&& registry.sources[s].1.frames[i].height == actual_height
                    }
            }
        },
{
    lemma_prefix(registry, input);
    if let Err(error) = render::frame_of(registry, input, deadline_ns) {
        if let Some(prefix) = registry.prefix(input) {
            rings_show_the_last_frame_due(prefix, input, registry.limits, deadline_ns);
            if let Some(frame) = prefix.frame_at(deadline_ns) {
                let s = choose|s: int|
                    0 <= s < registry.sources.len() && #[trigger] registry.sources[s] == (
                        input,
                        prefix,
                    );
                let i = choose|i: int| #[trigger]
                    is_seen(prefix, i, deadline_ns) && prefix.frames[i] == frame;
                assert(is_seen(registry.sources[s].1, i, deadline_ns));
            }
        }
    }
}

/// The frame that is found for a clip is its frame in the interval, and it is found whenever
/// there is one.
pub proof fn clip_frames_are_found(
    registry: RegistryModel,
    input: InputId,
    interval_end_ns: Option<u64>,
    frame: WorkingFrame,
)
    requires
        registry.wf(),
    ensures
        render::stinger_frame_of(registry, input, interval_end_ns) == Ok::<
            WorkingFrame,
            NativeSourceRenderError,
        >(frame) <==> is_clip_frame_of(registry, input, interval_end_ns, frame),
{
    lemma_prefix(registry, input);
    if let Some(end) = interval_end_ns {
        if end > 0 {
            let deadline_ns = (end - 1) as u64;
            if let Some(prefix) = registry.prefix(input) {
                rings_show_the_last_frame_due(prefix, input, registry.limits, deadline_ns);
                if render::stinger_frame_of(registry, input, interval_end_ns) == Ok::<
                    WorkingFrame,
                    NativeSourceRenderError,
                >(frame) {
                    let s = choose|s: int|
                        0 <= s < registry.sources.len() && #[trigger] registry.sources[s] == (
                            input,
                            prefix,
                        );
                    let i = choose|i: int| #[trigger]
                        is_seen(prefix, i, deadline_ns) && prefix.frames[i] == frame;
                    assert(is_seen(registry.sources[s].1, i, (end - 1) as u64));
                }
            }
            if is_clip_frame_of(registry, input, interval_end_ns, frame) {
                let (s, i) = choose|s: int, i: int|
                    #![trigger registry.sources[s], is_seen(registry.sources[s].1, i, (end - 1) as u64)]
                    {
                        &&& 0 <= s < registry.sources.len()
                        &&& registry.sources[s].0 == input
                        &&& registry.sources[s].1.kind == NativeVideoSourceKind::Retained
                            || registry.sources[s].1.available_for_stinger
                        &&& is_seen(registry.sources[s].1, i, (end - 1) as u64)
                        &&& registry.sources[s].1.frames[i] == frame
                    };
                assert(registry.prefix(input) == Some(registry.sources[s].1));
            }
        }
    }
}

/// Looking up a route finds the entry of that input.
proof fn lemma_route(project: NativeProjectPlan, input: InputId)
    requires
        project.wf(),
    ensures
        forall|r: int|
            0 <= r < project.video_routes.entries@.len() && (
            #[trigger] project.video_routes.entries@[r]).0 == input
                ==> project.video_routes.lookup(input) == Some(project.video_routes.entries@[r].1),
        project.video_routes.lookup(input) matches Some(route) ==> exists|r: int|
            0 <= r < project.video_routes.entries@.len()
                && #[trigger] project.video_routes.entries@[r] == (input, route),
{
    project.video_routes.lemma_entries();
    if project.video_routes.lookup(input) is Some {
        let keys = project.video_routes.keys();
        assert(keys.contains(input));
        let r = choose|r: int| 0 <= r < keys.len() && keys[r] == input;
        assert(project.video_routes.entries@[r].0 == input);
    }
}

/// The picture of an input is found exactly where it has one.
pub proof fn pictures_are_found(
    registry: RegistryModel,
    project: NativeProjectPlan,
    outputs: Seq<(SceneId, SceneOutput)>,
    input: InputId,
    deadline_ns: u64,
    texture: u64,
)
    requires
        registry.wf(),
        project.wf(),
        ordered::ascending(ordered::entry_keys(outputs)),
    ensures
        render::texture_of(
            registry,
            project,
            ordered::collected(outputs),
            input,
            deadline_ns,
        ) == Ok::<u64, NativeSourceRenderError>(texture) <==> is_picture_of(
            registry,
            project,
            outputs,
            input,
            deadline_ns,
            texture,
        ),
{
    lemma_route(project, input);
    ordered::lemma_entries_match_map(outputs);
    let found = render::texture_of(
        registry,
        project,
        ordered::collected(outputs),
        input,
        deadline_ns,
    );
    if found == Ok::<u64, NativeSourceRenderError>(texture) {
        let route = project.video_routes.lookup(input)->Some_0;
        let r = choose|r: int|
            0 <= r < project.video_routes.entries@.len()
                && #[trigger] project.video_routes.entries@[r] == (input, route);
        match route {
            NativeVideoRoute::Leaf(leaf) => {
                let frame = render::frame_of(registry, leaf, deadline_ns)->Ok_0;
                frames_are_found(registry, leaf, deadline_ns, frame);
                assert(is_frame_of(registry, leaf, deadline_ns, frame));
            },
            NativeVideoRoute::Scene(scene) => {
                let keys = ordered::entry_keys(outputs);
                assert(keys.contains(scene));
                let k = choose|k: int| 0 <= k < keys.len() && keys[k] == scene;
                assert(outputs[k].0 == scene);
            },
        }
        assert(project.video_routes.entries@[r].0 == input);
    }
    if is_picture_of(registry, project, outputs, input, deadline_ns, texture) {
        let r = choose|r: int|
            0 <= r < project.video_routes.entries@.len() && (
            #[trigger] project.video_routes.entries@[r]).0 == input
                && match project.video_routes.entries@[r].1 {
                NativeVideoRoute::Leaf(leaf) => exists|frame: WorkingFrame|
                    frame.texture == texture && #[trigger] is_frame_of(
                        registry,
                        leaf,
                        deadline_ns,
                        frame,
                    ),
                NativeVideoRoute::Scene(scene) => exists|k: int|
                    0 <= k < outputs.len() && (#[trigger] outputs[k]).0 == scene
                        && outputs[k].1.texture == texture,
            };
        match project.video_routes.entries@[r].1 {
            NativeVideoRoute::Leaf(leaf) => {
                let frame = choose|frame: WorkingFrame|
                    frame.texture == texture && #[trigger] is_frame_of(
                        registry,
                        leaf,
                        deadline_ns,
                        frame,
                    );
                frames_are_found(registry, leaf, deadline_ns, frame);
            },
            NativeVideoRoute::Scene(_) => {},
        }
    }
}

/// The picture of a clip is found exactly where it has one.
proof fn lemma_clip_picture(
    stingers: RegistryModel,
    project: NativeProjectPlan,
    media: InputId,
    interval_end_ns: Option<u64>,
    texture: u64,
)
    requires
        stingers.wf(),
        project.wf(),
    ensures
        is_clip_picture_of(stingers, project, media, interval_end_ns, texture) <==> (
        project.video_routes.lookup(media) matches Some(NativeVideoRoute::Leaf(leaf))
            && render::stinger_frame_of(stingers, leaf, interval_end_ns) matches Ok(frame)
            && frame.texture == texture),
{
    lemma_route(project, media);
    if let Some(NativeVideoRoute::Leaf(leaf)) = project.video_routes.lookup(media) {
        if let Ok(frame) = render::stinger_frame_of(stingers, leaf, interval_end_ns) {
            clip_frames_are_found(stingers, leaf, interval_end_ns, frame);
            if frame.texture == texture {
                assert(is_clip_frame_of(stingers, leaf, interval_end_ns, frame));
                let r = choose|r: int|
                    0 <= r < project.video_routes.entries@.len()
                        && #[trigger] project.video_routes.entries@[r] == (
                        media,
                        NativeVideoRoute::Leaf(leaf),
                    );
                assert(project.video_routes.entries@[r].0 == media);
            }
        }
    }
    if is_clip_picture_of(stingers, project, media, interval_end_ns, texture) {
        let r = choose|r: int|
            0 <= r < project.video_routes.entries@.len() && (
            #[trigger] project.video_routes.entries@[r]).0 == media
                && match project.video_routes.entries@[r].1 {
                NativeVideoRoute::Leaf(leaf) => exists|frame: WorkingFrame|
                    frame.texture == texture && #[trigger] is_clip_frame_of(
                        stingers,
                        leaf,
                        interval_end_ns,
                        frame,
                    ),
                NativeVideoRoute::Scene(_) => false,
            };
        if let NativeVideoRoute::Leaf(leaf) = project.video_routes.entries@[r].1 {
            let frame = choose|frame: WorkingFrame|
                frame.texture == texture && #[trigger] is_clip_frame_of(
                    stingers,
                    leaf,
                    interval_end_ns,
                    frame,
                );
            clip_frames_are_found(stingers, leaf, interval_end_ns, frame);
        }
    }
}

/// Whether the pictures of the program are those of the inputs that are mixed, each in its own
/// part, and mixed as the compositor accepted it.
pub open spec fn are_pictures_of(
    plan: NativeProjectMixPlan,
    registry: RegistryModel,
    stingers: RegistryModel,
    project: NativeProjectPlan,
    outputs: Seq<(SceneId, SceneOutput)>,
    deadline_ns: u64,
    interval_end_ns: Option<u64>,
    sources: ProgramSources,
) -> bool {
    match (plan, sources) {
        (
            NativeProjectMixPlan::Transition(mix),
            ProgramSources::Transition { transition, primary, secondary },
        ) => {
            &&& transition == mix.transition
            &&& is_picture_of(registry, project, outputs, mix.primary, deadline_ns, primary)
            &&& is_picture_of(registry, project, outputs, mix.secondary, deadline_ns, secondary)
        },
        (
            NativeProjectMixPlan::Stinger(mix),
            ProgramSources::Stinger { frame, program, preview, media },
        ) => {
            &&& frame == mix.frame
            &&& is_picture_of(registry, project, outputs, mix.program, deadline_ns, program)
            &&& is_picture_of(registry, project, outputs, mix.preview, deadline_ns, preview)
            &&& is_clip_picture_of(stingers, project, mix.media, interval_end_ns, media)
        },
        _ => false,
    }
}

/// The pictures that the program is mixed of are those of its inputs: the one that it moves from
/// as the first, the one that it moves to as the second, and of a Stinger the clip on top. They
/// are found whenever each of them is there.
pub proof fn the_program_is_mixed_of_its_inputs(
    plan: NativeProjectMixPlan,
    registry: RegistryModel,
    stingers: RegistryModel,
    project: NativeProjectPlan,
    outputs: Seq<(SceneId, SceneOutput)>,
    deadline_ns: u64,
    interval_end_ns: Option<u64>,
    sources: ProgramSources,
)
    requires
        registry.wf(),
        stingers.wf(),
        project.wf(),
        ordered::ascending(ordered::entry_keys(outputs)),
    ensures
        render::frame_pictures(
            plan,
            registry,
            stingers,
            project,
            ordered::collected(outputs),
            deadline_ns,
            interval_end_ns,
        ) == Ok::<ProgramSources, NativeSourceRenderError>(sources) <==> are_pictures_of(
            plan,
            registry,
            stingers,
            project,
            outputs,
            deadline_ns,
            interval_end_ns,
            sources,
        ),
{
    match (plan, sources) {
        (
            NativeProjectMixPlan::Transition(mix),
            ProgramSources::Transition { primary, secondary, .. },
        ) => {
            pictures_are_found(registry, project, outputs, mix.primary, deadline_ns, primary);
            pictures_are_found(registry, project, outputs, mix.secondary, deadline_ns, secondary);
        },
        (
            NativeProjectMixPlan::Stinger(mix),
            ProgramSources::Stinger { program, preview, media, .. },
        ) => {
            pictures_are_found(registry, project, outputs, mix.program, deadline_ns, program);
            pictures_are_found(registry, project, outputs, mix.preview, deadline_ns, preview);
            lemma_clip_picture(stingers, project, mix.media, interval_end_ns, media);
        },
        _ => {},
    }
}

/// Whether a plan mixes what the program of a frame says: it moves from the primary input to the
/// secondary one, or stays where there is no other; a Stinger takes its clip from the slot.
pub open spec fn mixes(
    project: NativeProjectPlan,
    program: ProgramFrame,
    verdict: CompositorVerdict,
    plan: NativeProjectMixPlan,
) -> bool {
    match plan {
        NativeProjectMixPlan::Transition(mix) => {
            &&& mix.primary == program.primary
            &&& program.secondary matches Some(secondary) ==> mix.secondary == secondary
            &&& program.secondary is None ==> mix.secondary == program.primary
            &&& !(program.transition_kind matches Some(SwitcherTransitionKind::Stinger(_)))
            &&& verdict.transition matches Ok(transition) && mix.transition == transition
        },
        NativeProjectMixPlan::Stinger(mix) => {
            &&& mix.program == program.primary
            &&& program.secondary == Some(mix.preview)
            &&& mix.preview != mix.program
            &&& exists|k: int|
                0 <= k < project.stingers.entries@.len() && program.transition_kind == Some(
                    SwitcherTransitionKind::Stinger((#[trigger] project.stingers.entries@[k]).0),
                ) && project.stingers.entries@[k].1.media_input == mix.media
            &&& verdict.stinger matches Ok(frame) && mix.frame == frame
        },
    }
}

proof fn lemma_stinger(project: NativeProjectPlan, slot: crate::model::StingerSlotId)
    requires
        project.wf(),
    ensures
        forall|k: int|
            0 <= k < project.stingers.entries@.len() && (
            #[trigger] project.stingers.entries@[k]).0 == slot ==> project.stingers.lookup(slot)
                == Some(project.stingers.entries@[k].1),
        project.stingers.lookup(slot) matches Some(config) ==> exists|k: int|
            0 <= k < project.stingers.entries@.len()
                && #[trigger] project.stingers.entries@[k] == (slot, config),
{
    project.stingers.lemma_entries();
    if project.stingers.lookup(slot) is Some {
        let keys = project.stingers.keys();
        assert(keys.contains(slot));
        let k = choose|k: int| 0 <= k < keys.len() && keys[k] == slot;
        assert(project.stingers.entries@[k].0 == slot);
    }
}

/// What is mixed is what the program of the frame says.
pub proof fn plans_mix_what_the_program_says(
    project: NativeProjectPlan,
    program: ProgramFrame,
    verdict: CompositorVerdict,
)
    requires
        project.wf(),
    ensures
        render::mix_plan(
            render::mix_request(project, program),
            program,
            verdict,
        ) matches Ok(plan) ==> mixes(project, program, verdict, plan),
{
    if let Ok(NativeProjectMixPlan::Stinger(mix)) = render::mix_plan(
        render::mix_request(project, program),
        program,
        verdict,
    ) {
        if let Some(SwitcherTransitionKind::Stinger(slot)) = program.transition_kind {
            lemma_stinger(project, slot);
            let config = project.stingers.lookup(slot)->Some_0;
            let k = choose|k: int|
                0 <= k < project.stingers.entries@.len()
                    && #[trigger] project.stingers.entries@[k] == (slot, config);
            assert(project.stingers.entries@[k].0 == slot);
        }
    }
}

/// Whether the compositor knows a transition of the switcher by this kind.
pub open spec fn is_same_kind(kind: TransitionKind, switched: SwitcherTransitionKind) -> bool {
    &&& kind is Fade <==> switched is Fade
    &&& kind is AlphaFade <==> switched is AlphaFade
    &&& kind is Wipe <==> switched is Wipe
    &&& kind is Slide <==> switched is Slide
    &&& kind is Zoom <==> switched is Zoom
    &&& kind !is Cut
}

/// A program that moves to another input by a transition asks for that transition, as far along
/// as it has come; one that does not move asks for none; one with a Stinger asks for the frame
/// that has come of as many as the clip has, with the cut point of the slot.
pub proof fn the_compositor_is_asked_for_what_the_program_says(
    project: NativeProjectPlan,
    program: ProgramFrame,
)
    requires
        project.wf(),
    ensures
        render::mix_request(project, program) matches Ok(request) ==> match request {
            NativeMixRequest::Transition { secondary, kind, numerator, denominator } => {
                if secondary == program.primary {
                    &&& program.secondary is None || program.secondary == Some(program.primary)
                    &&& kind is Cut && numerator == 0 && denominator == 1
                } else {
                    &&& program.secondary == Some(secondary)
                    &&& program.transition_kind is Some
                    &&& is_same_kind(kind, program.transition_kind->Some_0)
                    &&& numerator == program.mix_numerator
                    &&& denominator == program.mix_denominator
                }
            },
            NativeMixRequest::Stinger {
                preview,
                media,
                frame_index,
                frame_count,
                cut_point_frame,
            } => {
                &&& program.secondary == Some(preview) && preview != program.primary
                &&& frame_index == program.mix_numerator
                &&& frame_count == program.mix_denominator
                &&& exists|k: int|
                    0 <= k < project.stingers.entries@.len() && program.transition_kind == Some(
                        SwitcherTransitionKind::Stinger(
                            (#[trigger] project.stingers.entries@[k]).0,
                        ),
                    ) && project.stingers.entries@[k].1.media_input == media
                        && project.stingers.entries@[k].1.cut_point_frames == cut_point_frame
            },
        },
        // Nothing else is refused than a move without a kind and a slot without a Stinger.
        render::mix_request(project, program) matches Err(error) ==> match error {
            NativeSourceRenderError::MissingTransitionKind => {
                ||| program.transition_kind is None && program.secondary is Some
                    && program.secondary->Some_0 != program.primary
                ||| program.transition_kind matches Some(SwitcherTransitionKind::Stinger(_))
                    && (program.secondary is None || program.secondary->Some_0
                    == program.primary)
            },
            NativeSourceRenderError::MissingStingerConfiguration(slot) => {
                &&& program.transition_kind == Some(SwitcherTransitionKind::Stinger(slot))
                &&& program.secondary is Some && program.secondary->Some_0 != program.primary
                &&& forall|k: int|
                    0 <= k < project.stingers.entries@.len() ==> (
                    #[trigger] project.stingers.entries@[k]).0 != slot
            },
            _ => false,
        },
{
    if let Some(SwitcherTransitionKind::Stinger(slot)) = program.transition_kind {
        lemma_stinger(project, slot);
        if let Some(config) = project.stingers.lookup(slot) {
            let k = choose|k: int|
                0 <= k < project.stingers.entries@.len()
                    && #[trigger] project.stingers.entries@[k] == (slot, config);
            assert(project.stingers.entries@[k].0 == slot);
        }
    }
}

/// Whether a picture is that of a source of a scene: the frame of the input at the deadline, or
/// the picture that was composed of the other scene.
pub open spec fn is_source_picture(
    registry: RegistryModel,
    outputs: Seq<(SceneId, SceneOutput)>,
    source: NativeSceneSource,
    deadline_ns: u64,
    texture: u64,
) -> bool {
    match source {
        NativeSceneSource::Leaf(input) => exists|frame: WorkingFrame|
            frame.texture == texture && #[trigger] is_frame_of(
                registry,
                input,
                deadline_ns,
                frame,
            ),
        NativeSceneSource::Scene(scene) => exists|k: int|
            0 <= k < outputs.len() && (#[trigger] outputs[k]).0 == scene
                && outputs[k].1.texture == texture,
    }
}

/// Whether a source of a scene has a picture at the deadline.
pub open spec fn has_picture(
    registry: RegistryModel,
    outputs: Seq<(SceneId, SceneOutput)>,
    source: NativeSceneSource,
    deadline_ns: u64,
) -> bool {
    exists|texture: u64| #[trigger]
        is_source_picture(registry, outputs, source, deadline_ns, texture)
}

/// A scene is composed of the pictures of all its sources, each under the token of that source
/// and in their order.
pub proof fn scenes_are_composed_of_their_sources(
    registry: RegistryModel,
    outputs: Seq<(SceneId, SceneOutput)>,
    sources: Seq<(NativeSceneSource, u64)>,
    frame: crate::model::FrameResult,
)
    requires
        registry.wf(),
        ordered::ascending(ordered::entry_keys(outputs)),
    ensures
        render::scene_pictures(
            registry,
            ordered::collected(outputs),
            sources,
            frame,
        ) matches Ok(pictures) ==> {
            &&& pictures.len() == sources.len()
            &&& forall|i: int|
                0 <= i < pictures.len() ==> (#[trigger] pictures[i]).0 == sources[i].1
                    && is_source_picture(
                    registry,
                    outputs,
                    sources[i].0,
                    frame.deadline_ns,
                    pictures[i].1,
                )
        },
        // It is refused only where one of them is not there.
        render::scene_pictures(registry, ordered::collected(outputs), sources, frame) is Err
            ==> exists|i: int|
            0 <= i < sources.len() && !has_picture(
                registry,
                outputs,
                (#[trigger] sources[i]).0,
                frame.deadline_ns,
            ),
    decreases sources.len(),
{
    if sources.len() > 0 {
        let init = sources.drop_last();
        let last = sources.len() - 1;
        scenes_are_composed_of_their_sources(registry, outputs, init, frame);
        ordered::lemma_entries_match_map(outputs);
        let before = render::scene_pictures(registry, ordered::collected(outputs), init, frame);
        let now = render::scene_pictures(registry, ordered::collected(outputs), sources, frame);
        match sources[last].0 {
            NativeSceneSource::Leaf(input) => {
                match render::frame_of(registry, input, frame.deadline_ns) {
                    Ok(shown) => {
                        frames_are_found(registry, input, frame.deadline_ns, shown);
                        assert(is_source_picture(
                            registry,
                            outputs,
                            sources[last].0,
                            frame.deadline_ns,
                            shown.texture,
                        ));
                    },
                    Err(_) => {
                        assert forall|texture: u64|
                            !#[trigger] is_source_picture(
                                registry,
                                outputs,
                                sources[last].0,
                                frame.deadline_ns,
                                texture,
                            ) by {
                            if is_source_picture(
                                registry,
                                outputs,
                                sources[last].0,
                                frame.deadline_ns,
                                texture,
                            ) {
                                let shown = choose|shown: WorkingFrame|
                                    shown.texture == texture && #[trigger] is_frame_of(
                                        registry,
                                        input,
                                        frame.deadline_ns,
                                        shown,
                                    );
                                frames_are_found(registry, input, frame.deadline_ns, shown);
                            }
                        }
                    },
                }
            },
            NativeSceneSource::Scene(scene) => {
                if ordered::collected(outputs).contains_key(scene) {
                    let keys = ordered::entry_keys(outputs);
                    assert(keys.contains(scene));
                    let k = choose|k: int| 0 <= k < keys.len() && keys[k] == scene;
                    assert(outputs[k].0 == scene);
                } else {
                    assert forall|texture: u64|
                        !#[trigger] is_source_picture(
                            registry,
                            outputs,
                            sources[last].0,
                            frame.deadline_ns,
                            texture,
                        ) by {
                        assert forall|k: int|
                            0 <= k < outputs.len() implies (#[trigger] outputs[k]).0 != scene by {
                            assert(ordered::collected(outputs).contains_key(outputs[k].0));
                        }
                    }
                }
            },
        }
        if before is Err {
            let i = choose|i: int|
                0 <= i < init.len() && !has_picture(
                    registry,
                    outputs,
                    (#[trigger] init[i]).0,
                    frame.deadline_ns,
                );
            assert(sources[i] == init[i]);
        }
        if let Ok(pictures) = now {
            assert forall|i: int| 0 <= i < pictures.len() implies (#[trigger] pictures[i]).0
                == sources[i].1 && is_source_picture(
                registry,
                outputs,
                sources[i].0,
                frame.deadline_ns,
                pictures[i].1,
            ) by {
                if i < last {
                    assert(pictures[i] == before->Ok_0[i]);
                    assert(init[i] == sources[i]);
                }
            }
        }
    }
}

/// The clock is asked only for a Stinger: when, at the rate of the project, the frame of its clip
/// begins that comes after the one that is shown.
pub proof fn clips_are_shown_until_their_next_frame(
    project: NativeProjectPlan,
    program: ProgramFrame,
    verdict: CompositorVerdict,
)
    ensures
        match render::interval_asked(project, program, verdict) {
            Ok(Some((rate, next))) => {
                &&& program.transition_kind matches Some(SwitcherTransitionKind::Stinger(_))
                &&& verdict.stinger matches Ok(shown) && next == shown.frame_index + 1
                &&& rate == project.frame_rate
            },
            Ok(None) => render::mix_plan(
                render::mix_request(project, program),
                program,
                verdict,
            ) matches Ok(NativeProjectMixPlan::Transition(_)),
            Err(error) => render::mix_plan(
                render::mix_request(project, program),
                program,
                verdict,
            ) matches Err(told) && told == error,
        },
{
}

} // verus!
