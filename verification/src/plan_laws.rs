//! What holds of every compiled project.
use vstd::prelude::*;

use crate::audio_route;
use crate::audio_route::NativeAudioRoute;
use crate::model::{Input, InputId, Layer, Project, SceneId};
use crate::ordered;
use crate::project_plan;
use crate::project_plan::{NativeProjectLimits, NativeProjectPlanError, SceneOutcome};
use crate::scene_execution;
use crate::scene_execution::{NativeVideoRoute, ScenePlanModel};
use crate::scene_graph;
use crate::scene_graph::NativeSceneSource;

verus! {

/// The scenes of a plan, without what else is known of them.
pub open spec fn scene_ids(scenes: Seq<ScenePlanModel>) -> Seq<SceneId> {
    Seq::new(scenes.len(), |i: int| scenes[i].id)
}

proof fn lemma_planned_ids(project: Project, order: Seq<SceneId>, outcomes: Seq<SceneOutcome>)
    ensures
        project_plan::planned_scenes(project, order, outcomes) matches Ok((scenes, _)) ==> scene_ids(
            scenes,
        ) =~= order,
    decreases order.len(),
{
    if order.len() > 0 {
        lemma_planned_ids(project, order.drop_last(), outcomes);
        if let Ok((scenes, _)) = project_plan::planned_scenes(project, order, outcomes) {
            let before = project_plan::planned_scenes(project, order.drop_last(), outcomes)->Ok_0.0;
            assert(scenes.drop_last() =~= before);
            assert(scene_ids(before).len() == before.len());
            assert forall|i: int| 0 <= i < order.len() implies scene_ids(scenes)[i] == order[i] by {
                if i < order.len() - 1 {
                    assert(scene_ids(before)[i] == order.drop_last()[i]);
                    assert(scenes[i] == before[i]);
                }
            }
        }
    }
}

/// A compiled project composes exactly the scenes of the bounded order, in that order,
/// and keeps to all of its limits.
pub proof fn compiled_plan_keeps_to_its_limits(
    project: Project,
    limits: NativeProjectLimits,
    outcomes: Seq<SceneOutcome>,
)
    requires
        project_plan::compiled(project, limits, outcomes) is Ok,
    ensures
        project_plan::bounded_order(project, limits) == Ok::<Seq<SceneId>, NativeProjectPlanError>(
            scene_ids(project_plan::compiled(project, limits, outcomes)->Ok_0.scenes),
        ),
        project_plan::compiled(project, limits, outcomes)->Ok_0.scenes.len()
            <= limits.max_reachable_scenes,
        project_plan::compiled(project, limits, outcomes)->Ok_0.transient_rgba16f_bytes
            <= limits.max_transient_rgba16f_bytes,
        project_plan::compiled(project, limits, outcomes)->Ok_0.transient_rgba16f_bytes
            == project.width * project.height * 8 * project_plan::compiled(
            project,
            limits,
            outcomes,
        )->Ok_0.peak_rgba16f_targets,
        project_plan::compiled(project, limits, outcomes)->Ok_0.peak_rgba16f_targets >= 3,
{
    let plan = project_plan::compiled(project, limits, outcomes)->Ok_0;
    let order = project_plan::bounded_order(project, limits)->Ok_0;
    lemma_planned_ids(project, order, outcomes);
    assert(scene_ids(plan.scenes).len() == plan.scenes.len());
    let routes = project_plan::route_values(project_plan::video_entries(project.inputs@));
    let stingers = project_plan::stinger_media_routes(
        project.stingers@,
        project_plan::video_entries(project.inputs@),
    );
    lemma_grid_peak_bounds(routes, routes, stingers, plan.scenes);
}

proof fn lemma_pair_peak_fits(
    primary: NativeVideoRoute,
    secondary: NativeVideoRoute,
    stingers: Seq<NativeVideoRoute>,
    scenes: Seq<ScenePlanModel>,
)
    ensures
        scene_execution::pair_peak(primary, secondary, stingers, scenes) matches Some(peak) ==> peak
            <= usize::MAX,
    decreases stingers.len(),
{
    if stingers.len() > 0 {
        lemma_pair_peak_fits(primary, secondary, stingers.drop_last(), scenes);
    }
}

proof fn lemma_row_peak_fits(
    primary: NativeVideoRoute,
    secondaries: Seq<NativeVideoRoute>,
    stingers: Seq<NativeVideoRoute>,
    scenes: Seq<ScenePlanModel>,
)
    ensures
        scene_execution::row_peak(primary, secondaries, stingers, scenes) matches Some(peak) ==> 3
            <= peak <= usize::MAX,
    decreases secondaries.len(),
{
    if secondaries.len() > 0 {
        lemma_row_peak_fits(primary, secondaries.drop_last(), stingers, scenes);
        lemma_pair_peak_fits(primary, secondaries.last(), stingers, scenes);
    }
}

proof fn lemma_grid_peak_bounds(
    primaries: Seq<NativeVideoRoute>,
    secondaries: Seq<NativeVideoRoute>,
    stingers: Seq<NativeVideoRoute>,
    scenes: Seq<ScenePlanModel>,
)
    ensures
        scene_execution::grid_peak(primaries, secondaries, stingers, scenes) matches Some(peak)
            ==> 3 <= peak <= usize::MAX,
    decreases primaries.len(),
{
    if primaries.len() > 0 {
        lemma_grid_peak_bounds(primaries.drop_last(), secondaries, stingers, scenes);
        lemma_row_peak_fits(primaries.last(), secondaries, stingers, scenes);
    }
}

/// No frame over two inputs, with or without a Stinger, holds more targets than the
/// peak that the plan was charged for.
pub proof fn peak_covers_every_pair(
    primaries: Seq<NativeVideoRoute>,
    secondaries: Seq<NativeVideoRoute>,
    stingers: Seq<NativeVideoRoute>,
    scenes: Seq<ScenePlanModel>,
    i: int,
    j: int,
)
    requires
        scene_execution::grid_peak(primaries, secondaries, stingers, scenes) is Some,
        0 <= i < primaries.len(),
        0 <= j < secondaries.len(),
    ensures
        scene_execution::route_peak(seq![Some(primaries[i]), Some(secondaries[j])], scenes) matches Some(
            targets,
        ) && targets <= scene_execution::grid_peak(
            primaries,
            secondaries,
            stingers,
            scenes,
        )->Some_0,
        forall|k: int|
            #![trigger stingers[k]]
            0 <= k < stingers.len() ==> (scene_execution::route_peak(
                seq![Some(primaries[i]), Some(secondaries[j]), Some(stingers[k])],
                scenes,
            ) matches Some(targets) && targets <= scene_execution::grid_peak(
                primaries,
                secondaries,
                stingers,
                scenes,
            )->Some_0),
    decreases primaries.len(),
{
    if i < primaries.len() - 1 {
        peak_covers_every_pair(primaries.drop_last(), secondaries, stingers, scenes, i, j);
    } else {
        lemma_row_covers(primaries[i], secondaries, stingers, scenes, j);
    }
}

proof fn lemma_row_covers(
    primary: NativeVideoRoute,
    secondaries: Seq<NativeVideoRoute>,
    stingers: Seq<NativeVideoRoute>,
    scenes: Seq<ScenePlanModel>,
    j: int,
)
    requires
        scene_execution::row_peak(primary, secondaries, stingers, scenes) is Some,
        0 <= j < secondaries.len(),
    ensures
        scene_execution::route_peak(seq![Some(primary), Some(secondaries[j])], scenes) matches Some(
            targets,
        ) && targets <= scene_execution::row_peak(primary, secondaries, stingers, scenes)->Some_0,
        forall|k: int|
            #![trigger stingers[k]]
            0 <= k < stingers.len() ==> (scene_execution::route_peak(
                seq![Some(primary), Some(secondaries[j]), Some(stingers[k])],
                scenes,
            ) matches Some(targets) && targets <= scene_execution::row_peak(
                primary,
                secondaries,
                stingers,
                scenes,
            )->Some_0),
    decreases secondaries.len(),
{
    if j < secondaries.len() - 1 {
        lemma_row_covers(primary, secondaries.drop_last(), stingers, scenes, j);
    } else {
        lemma_pair_covers(primary, secondaries[j], stingers, scenes);
    }
}

proof fn lemma_pair_covers(
    primary: NativeVideoRoute,
    secondary: NativeVideoRoute,
    stingers: Seq<NativeVideoRoute>,
    scenes: Seq<ScenePlanModel>,
)
    requires
        scene_execution::pair_peak(primary, secondary, stingers, scenes) is Some,
    ensures
        scene_execution::route_peak(seq![Some(primary), Some(secondary)], scenes) matches Some(
            targets,
        ) && targets <= scene_execution::pair_peak(primary, secondary, stingers, scenes)->Some_0,
        forall|k: int|
            #![trigger stingers[k]]
            0 <= k < stingers.len() ==> (scene_execution::route_peak(
                seq![Some(primary), Some(secondary), Some(stingers[k])],
                scenes,
            ) matches Some(targets) && targets <= scene_execution::pair_peak(
                primary,
                secondary,
                stingers,
                scenes,
            )->Some_0),
    decreases stingers.len(),
{
    if stingers.len() > 0 {
        let init = stingers.drop_last();
        lemma_pair_covers(primary, secondary, init, scenes);
        assert forall|k: int|
            #![trigger stingers[k]]
            0 <= k < stingers.len() implies (scene_execution::route_peak(
            seq![Some(primary), Some(secondary), Some(stingers[k])],
            scenes,
        ) matches Some(targets) && targets <= scene_execution::pair_peak(
            primary,
            secondary,
            stingers,
            scenes,
        )->Some_0) by {
            if k < init.len() {
                assert(init[k] == stingers[k]);
            }
        }
    }
}

proof fn lemma_video_entries(inputs: Seq<Input>)
    ensures
        ordered::ascending(ordered::entry_keys(project_plan::video_entries(inputs))),
        ordered::collected(project_plan::video_entries(inputs)) =~= ordered::collected(
            Seq::new(
                inputs.len(),
                |i: int| (inputs[i].id, project_plan::route_of(inputs[i])),
            ),
        ),
    decreases inputs.len(),
{
    let pairs = Seq::new(
        inputs.len(),
        |i: int| (inputs[i].id, project_plan::route_of(inputs[i])),
    );
    if inputs.len() > 0 {
        let init = inputs.drop_last();
        lemma_video_entries(init);
        ordered::lemma_with_entry(
            project_plan::video_entries(init),
            inputs.last().id,
            project_plan::route_of(inputs.last()),
        );
        assert(pairs.drop_last() =~= Seq::new(
            init.len(),
            |i: int| (init[i].id, project_plan::route_of(init[i])),
        ));
    }
}

proof fn lemma_collected_maps<K, V, W>(
    pairs: Seq<(K, V)>,
    mapped: Seq<(K, W)>,
    f: spec_fn(V) -> W,
    key: K,
)
    requires
        mapped.len() == pairs.len(),
        forall|i: int|
            0 <= i < pairs.len() ==> #[trigger] mapped[i] == (pairs[i].0, f(pairs[i].1)),
    ensures
        ordered::collected(pairs).contains_key(key) == ordered::collected(mapped).contains_key(key),
        ordered::collected(pairs).contains_key(key) ==> ordered::collected(mapped)[key] == f(
            ordered::collected(pairs)[key],
        ),
    decreases pairs.len(),
{
    if pairs.len() > 0 {
        assert(mapped.last() == (pairs.last().0, f(pairs.last().1)));
        lemma_collected_maps(pairs.drop_last(), mapped.drop_last(), f, key);
    }
}

/// Every input of the project has a route, by what it shows; nothing else has one.
pub proof fn every_input_is_routed(project: Project, id: InputId)
    ensures
        match scene_graph::input_model(project, id) {
            Some(input) => ordered::collected(
                project_plan::video_entries(project.inputs@),
            ).contains_key(id) && ordered::collected(
                project_plan::video_entries(project.inputs@),
            )[id] == project_plan::route_of(input),
            None => !ordered::collected(
                project_plan::video_entries(project.inputs@),
            ).contains_key(id),
        },
{
    lemma_video_entries(project.inputs@);
    let pairs = Seq::new(
        project.inputs@.len(),
        |i: int| (project.inputs@[i].id, project.inputs@[i]),
    );
    let mapped = Seq::new(
        project.inputs@.len(),
        |i: int| (project.inputs@[i].id, project_plan::route_of(project.inputs@[i])),
    );
    let f = |input: Input| project_plan::route_of(input);
    lemma_collected_maps(pairs, mapped, f, id);
}

/// Every input of a project that can be compiled has exactly the audio terminal that
/// following its audio gives.
pub proof fn every_input_has_its_audio_terminal(project: Project, id: InputId)
    requires
        audio_route::audio_entries(project, project.inputs@) is Ok,
    ensures
        match scene_graph::input_model(project, id) {
            Some(_) => ordered::collected(
                audio_route::audio_entries(project, project.inputs@)->Ok_0,
            ).contains_key(id) && audio_route::audio_terminal(project, id, Set::empty()) == Ok::<
                NativeAudioRoute,
                NativeProjectPlanError,
            >(ordered::collected(audio_route::audio_entries(project, project.inputs@)->Ok_0)[id]),
            None => !ordered::collected(
                audio_route::audio_entries(project, project.inputs@)->Ok_0,
            ).contains_key(id),
        },
{
    let pairs = Seq::new(
        project.inputs@.len(),
        |i: int| (project.inputs@[i].id, project.inputs@[i]),
    );
    ordered::lemma_collected(pairs);
    lemma_audio_entries(project, project.inputs@, id);
    if exists|i: int| 0 <= i < project.inputs@.len() && (#[trigger] project.inputs@[i]).id == id {
        let i = choose|i: int|
            0 <= i < project.inputs@.len() && (#[trigger] project.inputs@[i]).id == id;
        assert(pairs[i].0 == id);
    }
    if ordered::collected(pairs).contains_key(id) {
        let i = choose|i: int| 0 <= i < pairs.len() && (#[trigger] pairs[i]).0 == id;
        assert(project.inputs@[i].id == id);
    }
}

proof fn lemma_audio_entries(project: Project, inputs: Seq<Input>, id: InputId)
    requires
        audio_route::audio_entries(project, inputs) is Ok,
    ensures
        ordered::ascending(
            ordered::entry_keys(audio_route::audio_entries(project, inputs)->Ok_0),
        ),
        ordered::collected(audio_route::audio_entries(project, inputs)->Ok_0).contains_key(id)
            <==> exists|i: int| 0 <= i < inputs.len() && (#[trigger] inputs[i]).id == id,
        ordered::collected(audio_route::audio_entries(project, inputs)->Ok_0).contains_key(id)
            ==> audio_route::audio_terminal(project, id, Set::empty()) == Ok::<
            NativeAudioRoute,
            NativeProjectPlanError,
        >(ordered::collected(audio_route::audio_entries(project, inputs)->Ok_0)[id]),
    decreases inputs.len(),
{
    if inputs.len() > 0 {
        let init = inputs.drop_last();
        lemma_audio_entries(project, init, id);
        let before = audio_route::audio_entries(project, init)->Ok_0;
        let route = audio_route::audio_terminal(project, inputs.last().id, Set::empty())->Ok_0;
        ordered::lemma_with_entry(before, inputs.last().id, route);
        if exists|i: int| 0 <= i < init.len() && (#[trigger] init[i]).id == id {
            let i = choose|i: int| 0 <= i < init.len() && (#[trigger] init[i]).id == id;
            assert(inputs[i].id == id);
        }
        if exists|i: int| 0 <= i < inputs.len() && (#[trigger] inputs[i]).id == id {
            let i = choose|i: int| 0 <= i < inputs.len() && (#[trigger] inputs[i]).id == id;
            if i < init.len() {
                assert(init[i].id == id);
            }
        }
        if inputs.last().id == id {
            assert(inputs[inputs.len() - 1].id == id);
        }
    }
}

/// What drafting gives out: ascending sources, each with a token of its own between
/// the first and the next, and exactly the scenes that the enabled layers show.
pub proof fn draft_tokens_are_distinct(
    project: Project,
    scene: SceneId,
    layers: Seq<Layer>,
    first: u64,
)
    requires
        project_plan::drafted_layers(project, scene, layers, first) is Ok,
    ensures
        ({
            let draft = project_plan::drafted_layers(project, scene, layers, first)->Ok_0;
            &&& first <= draft.next_source
            &&& ordered::ascending(ordered::entry_keys(draft.sources))
            &&& forall|i: int|
                0 <= i < draft.sources.len() ==> first <= (#[trigger] draft.sources[i]).1
                    < draft.next_source
            &&& forall|i: int, j: int|
                0 <= i < j < draft.sources.len() ==> (#[trigger] draft.sources[i]).1 != (
                #[trigger] draft.sources[j]).1
            &&& draft.layers.len() == layers.len()
        }),
    decreases layers.len(),
{
    if layers.len() > 0 {
        let init = layers.drop_last();
        draft_tokens_are_distinct(project, scene, init, first);
        let before = project_plan::drafted_layers(project, scene, init, first)->Ok_0;
        let draft = project_plan::drafted_layers(project, scene, layers, first)->Ok_0;
        if draft.sources != before.sources {
            let source = scene_graph::resolved_source(project, layers.last().source)->Ok_0;
            let keys = ordered::entry_keys(before.sources);
            ordered::lemma_with_entry(before.sources, source, before.next_source);
            ordered::lemma_entries_match_map(before.sources);
            ordered::lemma_contains_at_lower_bound(keys, source);
            ordered::lemma_lower_bound(keys, source);
            let slot = ordered::lower_bound(keys, source);
            if slot < keys.len() {
                assert(keys[slot] == before.sources[slot].0);
            }
            assert(draft.sources == before.sources.insert(slot, (source, before.next_source)));
            assert forall|i: int| 0 <= i < draft.sources.len() implies #[trigger] draft.sources[i]
                == (if i < slot {
                before.sources[i]
            } else if i == slot {
                (source, before.next_source)
            } else {
                before.sources[i - 1]
            }) by {}
        }
    }
}

proof fn lemma_shown_scenes(sources: Seq<(NativeSceneSource, u64)>, scene: SceneId)
    ensures
        scene_execution::shown_scenes(sources).contains(scene) <==> exists|i: int|
            0 <= i < sources.len() && (#[trigger] sources[i]).0 == NativeSceneSource::Scene(scene),
    decreases sources.len(),
{
    if sources.len() > 0 {
        let init = sources.drop_last();
        lemma_shown_scenes(init, scene);
        let shown = scene_execution::shown_scenes(sources);
        if let NativeSceneSource::Scene(last) = sources.last().0 {
            ordered::lemma_contains_drop_last(shown, scene);
            assert(shown.drop_last() =~= scene_execution::shown_scenes(init));
        }
        if exists|i: int|
            0 <= i < init.len() && (#[trigger] init[i]).0 == NativeSceneSource::Scene(scene) {
            let i = choose|i: int|
                0 <= i < init.len() && (#[trigger] init[i]).0 == NativeSceneSource::Scene(scene);
            assert(sources[i].0 == NativeSceneSource::Scene(scene));
        }
        if exists|i: int|
            0 <= i < sources.len() && (#[trigger] sources[i]).0 == NativeSceneSource::Scene(
                scene,
            ) {
            let i = choose|i: int|
                0 <= i < sources.len() && (#[trigger] sources[i]).0 == NativeSceneSource::Scene(
                    scene,
                );
            if i < init.len() {
                assert(init[i].0 == NativeSceneSource::Scene(scene));
            }
        }
        if sources.last().0 == NativeSceneSource::Scene(scene) {
            assert(sources[sources.len() - 1].0 == NativeSceneSource::Scene(scene));
        }
    }
}

/// A drafted scene takes the pictures of exactly the scenes that its enabled layers
/// show.
pub proof fn draft_shows_its_dependencies(
    project: Project,
    scene: SceneId,
    layers: Seq<Layer>,
    first: u64,
    shown: SceneId,
)
    requires
        project_plan::drafted_layers(project, scene, layers, first) is Ok,
    ensures
        scene_graph::dependencies(project, layers) is Ok,
        scene_execution::shown_scenes(
            project_plan::drafted_layers(project, scene, layers, first)->Ok_0.sources,
        ).contains(shown) <==> scene_graph::dependencies(project, layers)->Ok_0.contains(shown),
    decreases layers.len(),
{
    let draft = project_plan::drafted_layers(project, scene, layers, first)->Ok_0;
    lemma_shown_scenes(draft.sources, shown);
    if layers.len() > 0 {
        let init = layers.drop_last();
        draft_shows_its_dependencies(project, scene, init, first, shown);
        draft_tokens_are_distinct(project, scene, init, first);
        let before = project_plan::drafted_layers(project, scene, init, first)->Ok_0;
        lemma_shown_scenes(before.sources, shown);
        let deps = scene_graph::dependencies(project, init)->Ok_0;
        scene_graph::lemma_dependencies_ascend(project, init);
        if layers.last().enabled {
            let source = scene_graph::resolved_source(project, layers.last().source)->Ok_0;
            ordered::lemma_entries_match_map(before.sources);
            ordered::lemma_with_entry(before.sources, source, before.next_source);
            draft_tokens_are_distinct(project, scene, layers, first);
            ordered::lemma_entries_match_map(draft.sources);
            lemma_key_is_listed(before.sources, NativeSceneSource::Scene(shown));
            lemma_key_is_listed(draft.sources, NativeSceneSource::Scene(shown));
            if let NativeSceneSource::Scene(added) = source {
                ordered::lemma_with_key(deps, added);
            }
        }
    }
}

proof fn lemma_key_is_listed(sources: Seq<(NativeSceneSource, u64)>, key: NativeSceneSource)
    requires
        ordered::ascending(ordered::entry_keys(sources)),
    ensures
        ordered::collected(sources).contains_key(key) <==> exists|i: int|
            0 <= i < sources.len() && (#[trigger] sources[i]).0 == key,
{
    ordered::lemma_collected(sources);
}

/// Whether each scene stands after all the scenes it shows and no two have one name.
pub open spec fn composes_in_order(scenes: Seq<ScenePlanModel>) -> bool {
    &&& forall|i: int, j: int|
        0 <= i < j < scenes.len() ==> (#[trigger] scenes[i]).id != (#[trigger] scenes[j]).id
    &&& forall|i: int, shown: SceneId|
        0 <= i < scenes.len() && #[trigger] scene_execution::shown_scenes(
            scenes[i].sources,
        ).contains(shown) ==> exists|j: int| 0 <= j < i && (#[trigger] scenes[j]).id == shown
}

proof fn lemma_planned_shows(
    project: Project,
    order: Seq<SceneId>,
    outcomes: Seq<SceneOutcome>,
    i: int,
    shown: SceneId,
)
    requires
        project_plan::planned_scenes(project, order, outcomes) is Ok,
        0 <= i < order.len(),
    ensures
        ({
            let scenes = project_plan::planned_scenes(project, order, outcomes)->Ok_0.0;
            &&& scenes.len() == order.len()
            &&& scenes[i].id == order[i]
            &&& scene_execution::shown_scenes(scenes[i].sources).contains(shown)
                <==> scene_graph::shows(project, order[i], shown)
        }),
    decreases order.len(),
{
    lemma_planned_ids(project, order, outcomes);
    let init = order.drop_last();
    lemma_planned_ids(project, init, outcomes);
    let (before, next) = project_plan::planned_scenes(project, init, outcomes)->Ok_0;
    let scenes = project_plan::planned_scenes(project, order, outcomes)->Ok_0.0;
    assert(scene_ids(scenes).len() == order.len());
    assert(scene_ids(scenes)[i] == order[i]);
    assert(scene_ids(before).len() == init.len());
    if i < init.len() {
        lemma_planned_shows(project, init, outcomes, i, shown);
        assert(scenes[i] == before[i]);
    } else {
        let scene = scene_graph::scene_model(project, order[i])->Some_0;
        draft_shows_its_dependencies(project, order[i], scene.layers@, next, shown);
    }
}

/// The scenes of a compiled project stand in an order in which they can be composed.
pub proof fn compiled_scenes_compose_in_order(
    project: Project,
    limits: NativeProjectLimits,
    outcomes: Seq<SceneOutcome>,
)
    requires
        project_plan::compiled(project, limits, outcomes) is Ok,
    ensures
        composes_in_order(project_plan::compiled(project, limits, outcomes)->Ok_0.scenes),
{
    let scenes = project_plan::compiled(project, limits, outcomes)->Ok_0.scenes;
    let order = project_plan::bounded_order(project, limits)->Ok_0;
    let roots = project_plan::input_roots(project_plan::video_entries(project.inputs@));
    scene_graph::scene_order_is_dependency_first(project, roots);
    lemma_planned_ids(project, order, outcomes);
    assert(scene_ids(scenes).len() == order.len());
    assert forall|i: int, j: int| 0 <= i < j < scenes.len() implies (#[trigger] scenes[i]).id != (
    #[trigger] scenes[j]).id by {
        assert(scene_ids(scenes)[i] == order[i] && scene_ids(scenes)[j] == order[j]);
    }
    assert forall|i: int, shown: SceneId|
        0 <= i < scenes.len() && #[trigger] scene_execution::shown_scenes(
            scenes[i].sources,
        ).contains(shown) implies exists|j: int|
        0 <= j < i && (#[trigger] scenes[j]).id == shown by {
        lemma_planned_shows(project, order, outcomes, i, shown);
        assert(scene_graph::shows(project, order[i], shown));
        let j = choose|j: int| 0 <= j < order.take(i).len() && order.take(i)[j] == shown;
        assert(scene_ids(scenes)[j] == order[j]);
        assert(scenes[j].id == shown);
    }
}

/// Required scenes stay in order, and none is lost on the way.
pub proof fn lemma_required_grow(
    scenes: Seq<ScenePlanModel>,
    required: Seq<SceneId>,
    scene: SceneId,
)
    requires
        ordered::ascending(required),
    ensures
        ordered::ascending(scene_execution::required_scenes(scenes, required)),
        required.contains(scene) ==> scene_execution::required_scenes(scenes, required).contains(
            scene,
        ),
    decreases scenes.len(),
{
    if scenes.len() > 0 {
        let shown = scene_execution::shown_scenes(scenes.last().sources);
        ordered::lemma_with_keys(required, shown);
        let next = if required.contains(scenes.last().id) {
            ordered::with_keys(required, shown)
        } else {
            required
        };
        lemma_required_grow(scenes.drop_last(), next, scene);
    }
}

proof fn lemma_required_from_below(
    scenes: Seq<ScenePlanModel>,
    required: Seq<SceneId>,
    scene: SceneId,
)
    requires
        ordered::ascending(required),
        scene_execution::required_scenes(scenes, required).contains(scene),
        !required.contains(scene),
    ensures
        exists|j: int|
            0 <= j < scenes.len() && scene_execution::required_scenes(scenes, required).contains(
                (#[trigger] scenes[j]).id,
            ) && scene_execution::shown_scenes(scenes[j].sources).contains(scene),
    decreases scenes.len(),
{
    if scenes.len() > 0 {
        let init = scenes.drop_last();
        let last = scenes[scenes.len() - 1];
        let shown = scene_execution::shown_scenes(last.sources);
        ordered::lemma_with_keys(required, shown);
        let next = if required.contains(last.id) {
            ordered::with_keys(required, shown)
        } else {
            required
        };
        let result = scene_execution::required_scenes(scenes, required);
        assert(result == scene_execution::required_scenes(init, next));
        if next.contains(scene) {
            assert(shown.contains(scene));
            lemma_required_grow(scenes, required, last.id);
            assert(result.contains(scenes[scenes.len() - 1].id));
        } else {
            lemma_required_from_below(init, next, scene);
            let j = choose|j: int|
                0 <= j < init.len() && result.contains((#[trigger] init[j]).id)
                    && scene_execution::shown_scenes(init[j].sources).contains(scene);
            assert(scenes[j] == init[j]);
        }
    }
}

/// A frame composes everything that its scenes show, and nothing without need: each
/// required scene is a root or is shown by a required scene, and whatever a required
/// scene shows is required.
pub proof fn required_scenes_are_closed(
    scenes: Seq<ScenePlanModel>,
    roots: Seq<SceneId>,
    i: int,
    scene: SceneId,
)
    requires
        composes_in_order(scenes),
        ordered::ascending(roots),
    ensures
        roots.contains(scene) ==> scene_execution::required_scenes(scenes, roots).contains(scene),
        0 <= i < scenes.len() && scene_execution::required_scenes(scenes, roots).contains(
            scenes[i].id,
        ) && scene_execution::shown_scenes(scenes[i].sources).contains(scene)
            ==> scene_execution::required_scenes(scenes, roots).contains(scene),
        scene_execution::required_scenes(scenes, roots).contains(scene) && !roots.contains(scene)
            ==> exists|j: int|
            0 <= j < scenes.len() && scene_execution::required_scenes(scenes, roots).contains(
                (#[trigger] scenes[j]).id,
            ) && scene_execution::shown_scenes(scenes[j].sources).contains(scene),
{
    lemma_required_grow(scenes, roots, scene);
    if scene_execution::required_scenes(scenes, roots).contains(scene) && !roots.contains(scene) {
        lemma_required_from_below(scenes, roots, scene);
    }
    if 0 <= i < scenes.len() && scene_execution::required_scenes(scenes, roots).contains(
        scenes[i].id,
    ) && scene_execution::shown_scenes(scenes[i].sources).contains(scene) {
        assert(scenes.take(scenes.len() as int) =~= scenes);
        lemma_required_passes(scenes, roots, scenes.len() as int, i, scene);
    }
}

proof fn lemma_required_passes(
    scenes: Seq<ScenePlanModel>,
    required: Seq<SceneId>,
    count: int,
    i: int,
    scene: SceneId,
)
    requires
        composes_in_order(scenes),
        ordered::ascending(required),
        0 <= i < count <= scenes.len(),
        scene_execution::required_scenes(scenes.take(count), required).contains(scenes[i].id),
        scene_execution::shown_scenes(scenes[i].sources).contains(scene),
    ensures
        scene_execution::required_scenes(scenes.take(count), required).contains(scene),
    decreases count,
{
    let now = scenes.take(count);
    let last = scenes[count - 1];
    assert(now.last() == last);
    assert(now.drop_last() =~= scenes.take(count - 1));
    let shown = scene_execution::shown_scenes(last.sources);
    ordered::lemma_with_keys(required, shown);
    let next = if required.contains(last.id) {
        ordered::with_keys(required, shown)
    } else {
        required
    };
    if i < count - 1 {
        lemma_required_passes(scenes, next, count - 1, i, scene);
    } else {
        if required.contains(last.id) {
            lemma_required_grow(scenes.take(count - 1), next, scene);
        } else {
            // A scene is not shown by itself nor by one that stands before it.
            lemma_required_from_below(now, required, last.id);
            let j = choose|j: int|
                0 <= j < now.len() && scene_execution::required_scenes(now, required).contains(
                    (#[trigger] now[j]).id,
                ) && scene_execution::shown_scenes(now[j].sources).contains(last.id);
            assert(scenes[j] == now[j]);
            assert(scene_execution::shown_scenes(scenes[j].sources).contains(last.id));
            let k = choose|k: int| 0 <= k < j && (#[trigger] scenes[k]).id == last.id;
            assert(scenes[k].id != scenes[count - 1].id);
        }
    }
}

} // verus!
