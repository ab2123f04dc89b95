//! What holds while the scenes of a frame are composed.
use vstd::prelude::*;

use crate::model::SceneId;
use crate::ordered;
use crate::ordered::Ranked;
use crate::plan_laws;
use crate::render;
use crate::render::SceneOutput;
use crate::scene_execution;
use crate::scene_execution::{ExecutionModel, NativeVideoRoute, ScenePlanModel};

verus! {

/// How often a scene is among those that are shown.
pub open spec fn takings(shown: Seq<SceneId>, scene: SceneId) -> nat
    decreases shown.len(),
{
    if shown.len() == 0 {
        0
    } else {
        takings(shown.drop_last(), scene) + if shown.last() == scene {
            1nat
        } else {
            0nat
        }
    }
}

/// How often the required scenes show a scene.
pub open spec fn all_takings(
    scenes: Seq<ScenePlanModel>,
    required: Seq<SceneId>,
    scene: SceneId,
) -> nat
    decreases scenes.len(),
{
    if scenes.len() == 0 {
        0
    } else {
        all_takings(scenes.drop_last(), required, scene) + if required.contains(scenes.last().id) {
            takings(scene_execution::shown_scenes(scenes.last().sources), scene)
        } else {
            0
        }
    }
}

/// The counters and pictures after the required ones among `scenes` have been composed in
/// turn, each into the texture of its place.
pub open spec fn composed(
    counters: Seq<(SceneId, usize)>,
    outputs: Seq<(SceneId, SceneOutput)>,
    roots: Seq<SceneId>,
    required: Seq<SceneId>,
    scenes: Seq<ScenePlanModel>,
    textures: Seq<u64>,
) -> Option<(Seq<(SceneId, usize)>, Seq<(SceneId, SceneOutput)>)>
    decreases scenes.len(),
{
    if scenes.len() == 0 {
        Some((counters, outputs))
    } else {
        match composed(counters, outputs, roots, required, scenes.drop_last(), textures) {
            None => None,
            Some((counted, kept)) => if required.contains(scenes.last().id) {
                render::consumed(
                    counted,
                    ordered::with_entry(
                        kept,
                        scenes.last().id,
                        SceneOutput {
                            token: scenes.last().output,
                            texture: textures[scenes.len() - 1],
                        },
                    ),
                    roots,
                    scene_execution::shown_scenes(scenes.last().sources),
                )
            } else {
                Some((counted, kept))
            },
        }
    }
}

proof fn lemma_takings(shown: Seq<SceneId>, scene: SceneId)
    ensures
        takings(shown, scene) > 0 <==> shown.contains(scene),
    decreases shown.len(),
{
    if shown.len() > 0 {
        lemma_takings(shown.drop_last(), scene);
        ordered::lemma_contains_drop_last(shown, scene);
    }
}

proof fn lemma_all_takings_grow(
    scenes: Seq<ScenePlanModel>,
    required: Seq<SceneId>,
    scene: SceneId,
    i: int,
    j: int,
)
    requires
        0 <= i <= j <= scenes.len(),
    ensures
        all_takings(scenes.take(i), required, scene) <= all_takings(
            scenes.take(j),
            required,
            scene,
        ),
    decreases j - i,
{
    if i < j {
        lemma_all_takings_grow(scenes, required, scene, i, j - 1);
        assert(scenes.take(j).drop_last() =~= scenes.take(j - 1));
    }
}

/// A scene that a required scene shows is taken.
proof fn lemma_all_takings_positive(
    scenes: Seq<ScenePlanModel>,
    required: Seq<SceneId>,
    scene: SceneId,
    i: int,
)
    requires
        0 <= i < scenes.len(),
        required.contains(scenes[i].id),
        scene_execution::shown_scenes(scenes[i].sources).contains(scene),
    ensures
        all_takings(scenes, required, scene) > 0,
{
    lemma_takings(scene_execution::shown_scenes(scenes[i].sources), scene);
    assert(scenes.take(i + 1).drop_last() =~= scenes.take(i));
    assert(scenes.take(i + 1).last() == scenes[i]);
    lemma_all_takings_grow(scenes, required, scene, i + 1, scenes.len() as int);
    assert(scenes.take(scenes.len() as int) =~= scenes);
}

/// Nothing among scenes takes a scene that none of them shows.
proof fn lemma_all_takings_none(
    scenes: Seq<ScenePlanModel>,
    required: Seq<SceneId>,
    scene: SceneId,
)
    requires
        forall|i: int|
            0 <= i < scenes.len() ==> !scene_execution::shown_scenes(
                (#[trigger] scenes[i]).sources,
            ).contains(scene),
    ensures
        all_takings(scenes, required, scene) == 0,
    decreases scenes.len(),
{
    if scenes.len() > 0 {
        let init = scenes.drop_last();
        assert forall|i: int| 0 <= i < init.len() implies !scene_execution::shown_scenes(
            (#[trigger] init[i]).sources,
        ).contains(scene) by {
            assert(init[i] == scenes[i]);
        }
        lemma_all_takings_none(init, required, scene);
        let last = scenes[scenes.len() - 1];
        lemma_takings(scene_execution::shown_scenes(last.sources), scene);
    }
}

proof fn lemma_counted(counters: Seq<(SceneId, usize)>, shown: Seq<SceneId>, scene: SceneId)
    requires
        ordered::ascending(ordered::entry_keys(counters)),
    ensures
        scene_execution::counted(counters, shown) matches Some(after) ==> {
            &&& ordered::entry_keys(after) == ordered::entry_keys(counters)
            &&& ordered::collected(counters).contains_key(scene) ==> ordered::collected(after)[scene]
                == ordered::collected(counters)[scene] + takings(shown, scene)
        },
    decreases shown.len(),
{
    if shown.len() > 0 {
        lemma_counted(counters, shown.drop_last(), scene);
        if let Some(before) = scene_execution::counted(counters, shown.drop_last()) {
            let slot = ordered::lower_bound(ordered::entry_keys(before), shown.last());
            if let Some(after) = scene_execution::one_more(before, shown.last()) {
                let value = (before[slot].1 + 1) as usize;
                ordered::lemma_lower_bound(ordered::entry_keys(before), shown.last());
                assert(ordered::entry_keys(after) =~= ordered::entry_keys(before));
                assert(after == ordered::with_entry(before, shown.last(), value));
                ordered::lemma_with_entry(before, shown.last(), value);
                ordered::lemma_entries_match_map(before);
                ordered::lemma_entries_match_map(counters);
                assert(ordered::collected(before)[before[slot].0] == before[slot].1);
            }
        }
    }
}

proof fn lemma_consumers(
    counters: Seq<(SceneId, usize)>,
    scenes: Seq<ScenePlanModel>,
    required: Seq<SceneId>,
    scene: SceneId,
)
    requires
        ordered::ascending(ordered::entry_keys(counters)),
    ensures
        scene_execution::consumers(counters, scenes, required) matches Some(after) ==> {
            &&& ordered::entry_keys(after) == ordered::entry_keys(counters)
            &&& ordered::collected(counters).contains_key(scene) ==> ordered::collected(after)[scene]
                == ordered::collected(counters)[scene] + all_takings(scenes, required, scene)
        },
    decreases scenes.len(),
{
    if scenes.len() > 0 {
        lemma_consumers(counters, scenes.drop_last(), required, scene);
        if let Some(before) = scene_execution::consumers(counters, scenes.drop_last(), required) {
            ordered::lemma_entries_match_map(before);
            ordered::lemma_entries_match_map(counters);
            lemma_counted(
                before,
                scene_execution::shown_scenes(scenes.last().sources),
                scene,
            );
        }
    }
}

/// Taking scenes succeeds where the counters allow for it, lowers them by as much, and lets go
/// exactly the pictures that were taken for the last time.
proof fn lemma_consumed(
    counters: Seq<(SceneId, usize)>,
    outputs: Seq<(SceneId, SceneOutput)>,
    roots: Seq<SceneId>,
    shown: Seq<SceneId>,
)
    requires
        ordered::ascending(ordered::entry_keys(counters)),
        ordered::ascending(ordered::entry_keys(outputs)),
        forall|scene: SceneId| #[trigger]
            shown.contains(scene) ==> ordered::collected(counters).contains_key(scene),
        forall|scene: SceneId| #[trigger]
            ordered::collected(counters).contains_key(scene) ==> takings(shown, scene)
                <= ordered::collected(counters)[scene],
    ensures
        render::consumed(counters, outputs, roots, shown) matches Some((after, kept)) && {
            &&& ordered::entry_keys(after) == ordered::entry_keys(counters)
            &&& forall|scene: SceneId| #[trigger]
                ordered::collected(counters).contains_key(scene) ==> ordered::collected(
                    after,
                )[scene] == ordered::collected(counters)[scene] - takings(shown, scene)
            &&& ordered::ascending(ordered::entry_keys(kept))
            &&& forall|scene: SceneId| #[trigger]
                ordered::collected(kept).contains_key(scene) <==> {
                    &&& ordered::collected(outputs).contains_key(scene)
                    &&& !(shown.contains(scene) && ordered::collected(after)[scene] == 0
                        && !roots.contains(scene))
                }
        },
    decreases shown.len(),
{
    if shown.len() > 0 {
        let init = shown.drop_last();
        let last = shown.last();
        assert forall|scene: SceneId| #[trigger] init.contains(scene) implies ordered::collected(
            counters,
        ).contains_key(scene) by {
            ordered::lemma_contains_drop_last(shown, scene);
            assert(shown.contains(scene));
        }
        assert forall|scene: SceneId| #[trigger]
            ordered::collected(counters).contains_key(scene) implies takings(init, scene)
            <= ordered::collected(counters)[scene] by {
            assert(takings(shown, scene) <= ordered::collected(counters)[scene]);
        }
        lemma_consumed(counters, outputs, roots, init);
        let (counted, kept) = render::consumed(counters, outputs, roots, init)->Some_0;
        let keys = ordered::entry_keys(counted);
        let slot = ordered::lower_bound(keys, last);
        ordered::lemma_entries_match_map(counters);
        ordered::lemma_entries_match_map(counted);
        ordered::lemma_lower_bound(keys, last);
        ordered::lemma_contains_at_lower_bound(keys, last);
        assert(shown.contains(shown[shown.len() - 1]));
        assert(ordered::collected(counters).contains_key(last));
        assert(keys.contains(last));
        assert(counted[slot].0 == keys[slot]);
        assert(ordered::collected(counted)[last] == counted[slot].1);
        assert(takings(shown, last) == takings(init, last) + 1);
        assert(takings(shown, last) <= ordered::collected(counters)[last]);
        assert(counted[slot].1 > 0);
        let left = (counted[slot].1 - 1) as usize;
        let after = counted.update(slot, (last, left));
        assert(ordered::entry_keys(after) =~= keys);
        assert(after == ordered::with_entry(counted, last, left));
        ordered::lemma_with_entry(counted, last, left);
        ordered::lemma_without_entry(kept, last);
        let rest = render::consumed(counters, outputs, roots, shown)->Some_0.1;
        assert forall|scene: SceneId| #[trigger]
            ordered::collected(rest).contains_key(scene) <==> {
                &&& ordered::collected(outputs).contains_key(scene)
                &&& !(shown.contains(scene) && ordered::collected(after)[scene] == 0
                    && !roots.contains(scene))
            } by {
            ordered::lemma_contains_drop_last(shown, scene);
            lemma_takings(init, scene);
            assert(ordered::collected(kept).contains_key(scene) <==> {
                &&& ordered::collected(outputs).contains_key(scene)
                &&& !(init.contains(scene) && ordered::collected(counted)[scene] == 0
                    && !roots.contains(scene))
            });
        }
    }
}

/// Whether a scene is required and among the first `count` that are composed.
pub open spec fn is_composed(
    scenes: Seq<ScenePlanModel>,
    required: Seq<SceneId>,
    count: int,
    scene: SceneId,
) -> bool {
    required.contains(scene) && exists|i: int|
        0 <= i < count && (#[trigger] scenes[i]).id == scene
}

/// After the first `count` scenes, every counter tells how often its scene is still taken, and
/// the pictures that are held are those that are still taken or that the frame itself shows.
pub open spec fn holds_what_is_needed(
    execution: ExecutionModel,
    scenes: Seq<ScenePlanModel>,
    textures: Seq<u64>,
    count: int,
) -> bool {
    composed(
        execution.remaining_consumers,
        Seq::empty(),
        execution.roots,
        execution.required,
        scenes.take(count),
        textures,
    ) matches Some((counters, outputs)) && {
        &&& ordered::entry_keys(counters) == execution.required
        &&& ordered::ascending(ordered::entry_keys(outputs))
        &&& forall|scene: SceneId| #[trigger]
            ordered::collected(counters).contains_key(scene) ==> ordered::collected(
                counters,
            )[scene] == all_takings(scenes, execution.required, scene) - all_takings(
                scenes.take(count),
                execution.required,
                scene,
            )
        &&& forall|scene: SceneId| #[trigger]
            ordered::collected(outputs).contains_key(scene) <==> {
                &&& is_composed(scenes, execution.required, count, scene)
                &&& execution.roots.contains(scene) || ordered::collected(counters)[scene] > 0
            }
    }
}

/// The scenes of a frame and their counters stand in order.
pub proof fn lemma_execution_in_order(
    routes: Seq<Option<NativeVideoRoute>>,
    scenes: Seq<ScenePlanModel>,
)
    requires
        scene_execution::execution(routes, scenes) is Some,
    ensures
        ({
            let execution = scene_execution::execution(routes, scenes)->Some_0;
            &&& ordered::ascending(execution.roots)
            &&& ordered::ascending(execution.required)
            &&& ordered::entry_keys(execution.remaining_consumers) == execution.required
        }),
{
    lemma_nothing_composed(routes, scenes, Seq::empty());
    assert(scenes.take(0) =~= Seq::<ScenePlanModel>::empty());
}

proof fn lemma_nothing_composed(
    routes: Seq<Option<NativeVideoRoute>>,
    scenes: Seq<ScenePlanModel>,
    textures: Seq<u64>,
)
    requires
        scene_execution::execution(routes, scenes) is Some,
    ensures
        ordered::ascending(scene_execution::execution(routes, scenes)->Some_0.required),
        ordered::ascending(scene_execution::execution(routes, scenes)->Some_0.roots),
        holds_what_is_needed(
            scene_execution::execution(routes, scenes)->Some_0,
            scenes,
            textures,
            0,
        ),
{
    let execution = scene_execution::execution(routes, scenes)->Some_0;
    let required = execution.required;
    let start = execution.remaining_consumers;
    scene_execution::lemma_root_scenes_ascend(routes);
    plan_laws::lemma_required_grow(scenes, execution.roots, scenes[0].id);
    let zeroed = scene_execution::zeroed(required);
    assert(ordered::entry_keys(zeroed) =~= required);
    assert(scenes.take(0) =~= Seq::<ScenePlanModel>::empty());
    ordered::lemma_entries_match_map(zeroed);
    lemma_consumers(zeroed, scenes, required, scenes[0].id);
    ordered::lemma_entries_match_map(start);
    let outputs = Seq::<(SceneId, SceneOutput)>::empty();
    ordered::lemma_entries_match_map(outputs);
    assert forall|scene: SceneId| #[trigger]
        ordered::collected(start).contains_key(scene) implies ordered::collected(start)[scene]
        == all_takings(scenes, required, scene) by {
        lemma_consumers(zeroed, scenes, required, scene);
        assert(required.contains(scene));
        let i = choose|i: int| 0 <= i < required.len() && required[i] == scene;
        assert(zeroed[i] == (scene, 0usize));
    }
}

/// A scene that is composed is shown neither by itself nor by one that was composed before.
proof fn lemma_not_taken_yet(
    scenes: Seq<ScenePlanModel>,
    required: Seq<SceneId>,
    count: int,
)
    requires
        plan_laws::composes_in_order(scenes),
        0 <= count < scenes.len(),
    ensures
        all_takings(scenes.take(count + 1), required, scenes[count].id) == 0,
        !scene_execution::shown_scenes(scenes[count].sources).contains(scenes[count].id),
{
    let prefix = scenes.take(count + 1);
    assert forall|i: int| 0 <= i < prefix.len() implies !scene_execution::shown_scenes(
        (#[trigger] prefix[i]).sources,
    ).contains(scenes[count].id) by {
        assert(prefix[i] == scenes[i]);
        if scene_execution::shown_scenes(scenes[i].sources).contains(scenes[count].id) {
            let j = choose|j: int| 0 <= j < i && (#[trigger] scenes[j]).id == scenes[count].id;
            assert(scenes[j].id != scenes[count].id);
        }
    }
    lemma_all_takings_none(prefix, required, scenes[count].id);
    assert(prefix[count] == scenes[count]);
}

/// What a required scene shows is at hand when it is its turn, and the counters allow for it.
proof fn lemma_at_hand(
    routes: Seq<Option<NativeVideoRoute>>,
    scenes: Seq<ScenePlanModel>,
    textures: Seq<u64>,
    count: int,
    shown: SceneId,
)
    requires
        plan_laws::composes_in_order(scenes),
        scene_execution::execution(routes, scenes) is Some,
        0 <= count < scenes.len(),
        holds_what_is_needed(
            scene_execution::execution(routes, scenes)->Some_0,
            scenes,
            textures,
            count,
        ),
        scene_execution::execution(routes, scenes)->Some_0.required.contains(scenes[count].id),
    ensures
        ({
            let execution = scene_execution::execution(routes, scenes)->Some_0;
            let (counters, outputs) = composed(
                execution.remaining_consumers,
                Seq::empty(),
                execution.roots,
                execution.required,
                scenes.take(count),
                textures,
            )->Some_0;
            let taken = scene_execution::shown_scenes(scenes[count].sources);
            &&& taken.contains(shown) ==> {
                &&& execution.required.contains(shown)
                &&& ordered::collected(counters).contains_key(shown)
                &&& ordered::collected(outputs).contains_key(shown)
            }
            &&& ordered::collected(counters).contains_key(shown) ==> takings(taken, shown)
                <= ordered::collected(counters)[shown]
        }),
{
    let execution = scene_execution::execution(routes, scenes)->Some_0;
    let (roots, required) = (execution.roots, execution.required);
    let (counters, outputs) = composed(
        execution.remaining_consumers,
        Seq::empty(),
        roots,
        required,
        scenes.take(count),
        textures,
    )->Some_0;
    let taken = scene_execution::shown_scenes(scenes[count].sources);
    lemma_nothing_composed(routes, scenes, textures);
    ordered::lemma_entries_match_map(counters);
    plan_laws::required_scenes_are_closed(scenes, roots, count, shown);
    lemma_takings(taken, shown);
    assert(scenes.take(count + 1).drop_last() =~= scenes.take(count));
    assert(scenes.take(count + 1).last() == scenes[count]);
    lemma_all_takings_grow(scenes, required, shown, count + 1, scenes.len() as int);
    assert(scenes.take(scenes.len() as int) =~= scenes);
    if taken.contains(shown) {
        assert(is_composed(scenes, required, count, shown)) by {
            let j = choose|j: int| 0 <= j < count && (#[trigger] scenes[j]).id == shown;
            assert(scenes[j].id == shown);
        }
    }
}

proof fn lemma_one_more_composed(
    routes: Seq<Option<NativeVideoRoute>>,
    scenes: Seq<ScenePlanModel>,
    textures: Seq<u64>,
    count: int,
)
    requires
        plan_laws::composes_in_order(scenes),
        scene_execution::execution(routes, scenes) is Some,
        0 <= count < scenes.len(),
        holds_what_is_needed(
            scene_execution::execution(routes, scenes)->Some_0,
            scenes,
            textures,
            count,
        ),
    ensures
        holds_what_is_needed(
            scene_execution::execution(routes, scenes)->Some_0,
            scenes,
            textures,
            count + 1,
        ),
{
    let execution = scene_execution::execution(routes, scenes)->Some_0;
    let (roots, required) = (execution.roots, execution.required);
    let (counters, outputs) = composed(
        execution.remaining_consumers,
        Seq::empty(),
        roots,
        required,
        scenes.take(count),
        textures,
    )->Some_0;
    let scene = scenes[count];
    let taken = scene_execution::shown_scenes(scene.sources);
    let next = scenes.take(count + 1);
    lemma_nothing_composed(routes, scenes, textures);
    ordered::lemma_entries_match_map(counters);
    assert(next.drop_last() =~= scenes.take(count));
    assert(next.last() == scene);
    if required.contains(scene.id) {
        let output = SceneOutput { token: scene.output, texture: textures[count] };
        let held = ordered::with_entry(outputs, scene.id, output);
        ordered::lemma_with_entry(outputs, scene.id, output);
        assert forall|shown: SceneId| #[trigger] taken.contains(shown) implies ordered::collected(
            counters,
        ).contains_key(shown) by {
            lemma_at_hand(routes, scenes, textures, count, shown);
        }
        assert forall|shown: SceneId| #[trigger]
            ordered::collected(counters).contains_key(shown) implies takings(taken, shown)
            <= ordered::collected(counters)[shown] by {
            lemma_at_hand(routes, scenes, textures, count, shown);
        }
        lemma_consumed(counters, held, roots, taken);
        let (after, kept) = render::consumed(counters, held, roots, taken)->Some_0;
        ordered::lemma_entries_match_map(after);
        lemma_not_taken_yet(scenes, required, count);
        plan_laws::required_scenes_are_closed(scenes, roots, count, scene.id);
        if !roots.contains(scene.id) {
            let j = choose|j: int|
                0 <= j < scenes.len() && required.contains((#[trigger] scenes[j]).id)
                    && scene_execution::shown_scenes(scenes[j].sources).contains(scene.id);
            lemma_all_takings_positive(scenes, required, scene.id, j);
        }
        assert forall|shown: SceneId| #[trigger]
            ordered::collected(kept).contains_key(shown) <==> {
                &&& is_composed(scenes, required, count + 1, shown)
                &&& roots.contains(shown) || ordered::collected(after)[shown] > 0
            } by {
            lemma_takings(taken, shown);
            lemma_is_composed(scenes, required, count, shown);
            assert(ordered::collected(counters).contains_key(shown) <==> required.contains(shown));
            assert(ordered::collected(outputs).contains_key(shown) <==> {
                &&& is_composed(scenes, required, count, shown)
                &&& roots.contains(shown) || ordered::collected(counters)[shown] > 0
            });
        }
    } else {
        assert forall|shown: SceneId| is_composed(scenes, required, count + 1, shown)
            == #[trigger] is_composed(scenes, required, count, shown) by {
            lemma_is_composed(scenes, required, count, shown);
        }
        assert forall|shown: SceneId| #[trigger]
            ordered::collected(outputs).contains_key(shown) <==> {
                &&& is_composed(scenes, required, count + 1, shown)
                &&& roots.contains(shown) || ordered::collected(counters)[shown] > 0
            } by {
            assert(is_composed(scenes, required, count + 1, shown) == is_composed(
                scenes,
                required,
                count,
                shown,
            ));
        }
    }
}

proof fn lemma_is_composed(
    scenes: Seq<ScenePlanModel>,
    required: Seq<SceneId>,
    count: int,
    scene: SceneId,
)
    requires
        0 <= count < scenes.len(),
    ensures
        is_composed(scenes, required, count + 1, scene) <==> is_composed(
            scenes,
            required,
            count,
            scene,
        ) || (required.contains(scene) && scenes[count].id == scene),
{
    if is_composed(scenes, required, count, scene) {
        let i = choose|i: int| 0 <= i < count && (#[trigger] scenes[i]).id == scene;
        assert(0 <= i < count + 1 && scenes[i].id == scene);
    }
}

proof fn lemma_composed(
    routes: Seq<Option<NativeVideoRoute>>,
    scenes: Seq<ScenePlanModel>,
    textures: Seq<u64>,
    count: int,
)
    requires
        plan_laws::composes_in_order(scenes),
        scene_execution::execution(routes, scenes) is Some,
        0 <= count <= scenes.len(),
    ensures
        holds_what_is_needed(
            scene_execution::execution(routes, scenes)->Some_0,
            scenes,
            textures,
            count,
        ),
    decreases count,
{
    if count == 0 {
        lemma_nothing_composed(routes, scenes, textures);
    } else {
        lemma_composed(routes, scenes, textures, count - 1);
        lemma_one_more_composed(routes, scenes, textures, count - 1);
    }
}

/// When it is the turn of a required scene, the scenes before it have been composed without a
/// failure, and the picture of every scene that it shows is still held.
pub proof fn scenes_find_their_pictures(
    routes: Seq<Option<NativeVideoRoute>>,
    scenes: Seq<ScenePlanModel>,
    textures: Seq<u64>,
    count: int,
    shown: SceneId,
)
    requires
        plan_laws::composes_in_order(scenes),
        scene_execution::execution(routes, scenes) is Some,
        0 <= count < scenes.len(),
        scene_execution::execution(routes, scenes)->Some_0.required.contains(scenes[count].id),
        scene_execution::shown_scenes(scenes[count].sources).contains(shown),
    ensures
        ({
            let execution = scene_execution::execution(routes, scenes)->Some_0;
            composed(
                execution.remaining_consumers,
                Seq::empty(),
                execution.roots,
                execution.required,
                scenes.take(count),
                textures,
            ) matches Some((_, outputs)) && ordered::collected(outputs).contains_key(shown)
        }),
{
    lemma_composed(routes, scenes, textures, count);
    lemma_at_hand(routes, scenes, textures, count, shown);
}

/// Once all scenes have been composed, nothing is held but what the frame itself shows, and all
/// of that is.
pub proof fn only_the_roots_are_left(
    routes: Seq<Option<NativeVideoRoute>>,
    scenes: Seq<ScenePlanModel>,
    textures: Seq<u64>,
    scene: SceneId,
)
    requires
        plan_laws::composes_in_order(scenes),
        scene_execution::execution(routes, scenes) is Some,
    ensures
        ({
            let execution = scene_execution::execution(routes, scenes)->Some_0;
            composed(
                execution.remaining_consumers,
                Seq::empty(),
                execution.roots,
                execution.required,
                scenes,
                textures,
            ) matches Some((_, outputs)) && (ordered::collected(outputs).contains_key(scene) <==> {
                &&& execution.roots.contains(scene)
                &&& exists|i: int| 0 <= i < scenes.len() && (#[trigger] scenes[i]).id == scene
            })
        }),
{
    let count = scenes.len() as int;
    let execution = scene_execution::execution(routes, scenes)->Some_0;
    assert(scenes.take(count) =~= scenes);
    lemma_composed(routes, scenes, textures, count);
    lemma_nothing_composed(routes, scenes, textures);
    let (counters, _) = composed(
        execution.remaining_consumers,
        Seq::empty(),
        execution.roots,
        execution.required,
        scenes,
        textures,
    )->Some_0;
    ordered::lemma_entries_match_map(counters);
    plan_laws::lemma_required_grow(scenes, execution.roots, scene);
    if execution.required.contains(scene) {
        assert(ordered::collected(counters).contains_key(scene));
    }
}

proof fn lemma_keys_fit(keys: Seq<SceneId>, all: Seq<SceneId>)
    requires
        ordered::ascending(keys),
        forall|key: SceneId| #[trigger] keys.contains(key) ==> all.contains(key),
    ensures
        keys.len() <= all.len(),
{
    assert(keys.no_duplicates()) by {
        assert forall|i: int, j: int|
            0 <= i < keys.len() && 0 <= j < keys.len() && i != j implies keys[i] != keys[j] by {
            if i < j {
                assert(keys[i].rank() < keys[j].rank());
            } else {
                assert(keys[j].rank() < keys[i].rank());
            }
        }
    }
    keys.unique_seq_to_set();
    assert(keys.to_set().subset_of(all.to_set())) by {
        assert forall|key: SceneId| keys.to_set().contains(key) implies all.to_set().contains(
            key,
        ) by {
            assert(keys.contains(key));
        }
    }
    vstd::set_lib::lemma_len_subset(keys.to_set(), all.to_set());
    all.lemma_cardinality_of_set();
}

/// At no time are more pictures of scenes held than the frame was charged for: with the
/// transition, the faded picture and the previous program they keep to the peak.
pub proof fn held_pictures_keep_to_the_peak(
    routes: Seq<Option<NativeVideoRoute>>,
    scenes: Seq<ScenePlanModel>,
    textures: Seq<u64>,
    count: int,
)
    requires
        plan_laws::composes_in_order(scenes),
        scene_execution::execution(routes, scenes) is Some,
        0 <= count <= scenes.len(),
    ensures
        ({
            let execution = scene_execution::execution(routes, scenes)->Some_0;
            composed(
                execution.remaining_consumers,
                Seq::empty(),
                execution.roots,
                execution.required,
                scenes.take(count),
                textures,
            ) matches Some((_, outputs)) && (scene_execution::route_peak(
                routes,
                scenes,
            ) matches Some(peak) ==> outputs.len() + 3 <= peak)
        }),
{
    let execution = scene_execution::execution(routes, scenes)->Some_0;
    lemma_composed(routes, scenes, textures, count);
    let (_, outputs) = composed(
        execution.remaining_consumers,
        Seq::empty(),
        execution.roots,
        execution.required,
        scenes.take(count),
        textures,
    )->Some_0;
    let keys = ordered::entry_keys(outputs);
    ordered::lemma_entries_match_map(outputs);
    assert forall|key: SceneId| #[trigger] keys.contains(key) implies execution.required.contains(
        key,
    ) by {
        assert(ordered::collected(outputs).contains_key(key));
    }
    lemma_keys_fit(keys, execution.required);
}

} // verus!
