//! What a compiled project holds of the project that it was compiled from.
use vstd::prelude::*;

use crate::audio_route;
use crate::audio_route::NativeAudioRoute;
use crate::model::{
    Input, InputAudioStrip, InputAudioStripState, InputId, InputKind, Layer, Project,
    RectMask, Scene, SceneId, SourceRef, StingerConfig, StingerSlotId,
};
use crate::ordered;
use crate::plan_laws;
use crate::project_plan;
use crate::project_plan::{
    NativeProjectLimits, NativeProjectPlanError, NativeStingerConfig, PlanError, SceneOutcome,
    SourceLayer,
};
use crate::scene_execution;
use crate::scene_execution::{NativeVideoRoute, ScenePlanModel};
use crate::scene_graph;
use crate::scene_graph::NativeSceneSource;
use crate::sums;

verus! {

/// Whether this is the input of the project under its identifier: the last one that has it.
pub open spec fn is_input(project: Project, input: Input) -> bool {
    exists|i: int|
        {
            &&& 0 <= i < project.inputs@.len()
            &&& #[trigger] project.inputs@[i] == input
            &&& forall|j: int|
                i < j < project.inputs@.len() ==> (#[trigger] project.inputs@[j]).id != input.id
        }
}

/// Whether this is the scene of the project under its identifier: the last one that has it.
pub open spec fn is_scene(project: Project, scene: Scene) -> bool {
    exists|i: int|
        {
            &&& 0 <= i < project.scenes@.len()
            &&& #[trigger] project.scenes@[i] == scene
            &&& forall|j: int|
                i < j < project.scenes@.len() ==> (#[trigger] project.scenes@[j]).id != scene.id
        }
}

/// Inputs are found under their identifier.
pub proof fn inputs_are_found(project: Project, id: InputId)
    ensures
        scene_graph::input_model(project, id) matches Some(input) ==> input.id == id && is_input(
            project,
            input,
        ),
        scene_graph::input_model(project, id) is None ==> forall|i: int|
            0 <= i < project.inputs@.len() ==> (#[trigger] project.inputs@[i]).id != id,
        forall|input: Input| #[trigger]
            is_input(project, input) && input.id == id ==> scene_graph::input_model(project, id)
                == Some(input),
{
    let pairs = Seq::new(
        project.inputs@.len(),
        |i: int| (project.inputs@[i].id, project.inputs@[i]),
    );
    ordered::lemma_collected(pairs);
    if scene_graph::input_model(project, id) is Some {
        let i = lemma_last_pair(pairs, id);
        assert(project.inputs@[i] == pairs[i].1);
        assert forall|j: int| i < j < project.inputs@.len() implies (
        #[trigger] project.inputs@[j]).id != id by {
            assert(pairs[j].0 != id);
        }
    }
    assert forall|i: int|
        scene_graph::input_model(project, id) is None && 0 <= i < project.inputs@.len() implies (
    #[trigger] project.inputs@[i]).id != id by {
        assert(pairs[i].0 == project.inputs@[i].id);
    }
    assert forall|input: Input| #[trigger]
        is_input(project, input) && input.id == id implies scene_graph::input_model(project, id)
        == Some(input) by {
        let i = choose|i: int|
            {
                &&& 0 <= i < project.inputs@.len()
                &&& #[trigger] project.inputs@[i] == input
                &&& forall|j: int|
                    i < j < project.inputs@.len() ==> (#[trigger] project.inputs@[j]).id
                        != input.id
            };
        assert(pairs[i].0 == id);
        let k = lemma_last_pair(pairs, id);
        if k < i {
            assert(pairs[i].0 != id);
        }
        if i < k {
            assert(project.inputs@[k].id == pairs[k].0);
        }
        assert(pairs[k].1 == project.inputs@[k]);
    }
}

/// Scenes are found under their identifier.
pub proof fn scenes_are_found(project: Project, id: SceneId)
    ensures
        scene_graph::scene_model(project, id) matches Some(scene) ==> scene.id == id && is_scene(
            project,
            scene,
        ),
        scene_graph::scene_model(project, id) is None ==> forall|i: int|
            0 <= i < project.scenes@.len() ==> (#[trigger] project.scenes@[i]).id != id,
        forall|scene: Scene| #[trigger]
            is_scene(project, scene) && scene.id == id ==> scene_graph::scene_model(project, id)
                == Some(scene),
{
    let pairs = Seq::new(
        project.scenes@.len(),
        |i: int| (project.scenes@[i].id, project.scenes@[i]),
    );
    ordered::lemma_collected(pairs);
    if scene_graph::scene_model(project, id) is Some {
        let i = lemma_last_pair(pairs, id);
        assert(project.scenes@[i] == pairs[i].1);
        assert forall|j: int| i < j < project.scenes@.len() implies (
        #[trigger] project.scenes@[j]).id != id by {
            assert(pairs[j].0 != id);
        }
    }
    assert forall|i: int|
        scene_graph::scene_model(project, id) is None && 0 <= i < project.scenes@.len() implies (
    #[trigger] project.scenes@[i]).id != id by {
        assert(pairs[i].0 == project.scenes@[i].id);
    }
    assert forall|scene: Scene| #[trigger]
        is_scene(project, scene) && scene.id == id implies scene_graph::scene_model(project, id)
        == Some(scene) by {
        let i = choose|i: int|
            {
                &&& 0 <= i < project.scenes@.len()
                &&& #[trigger] project.scenes@[i] == scene
                &&& forall|j: int|
                    i < j < project.scenes@.len() ==> (#[trigger] project.scenes@[j]).id
                        != scene.id
            };
        assert(pairs[i].0 == id);
        let k = lemma_last_pair(pairs, id);
        if k < i {
            assert(pairs[i].0 != id);
        }
        if i < k {
            assert(project.scenes@[k].id == pairs[k].0);
        }
        assert(pairs[k].1 == project.scenes@[k]);
    }
}

/// A key that a collected map holds has a last pair, and the map holds the value of that pair.
proof fn lemma_last_pair<K, V>(pairs: Seq<(K, V)>, key: K) -> (i: int)
    requires
        ordered::collected(pairs).contains_key(key),
    ensures
        0 <= i < pairs.len(),
        pairs[i].0 == key,
        pairs[i].1 == ordered::collected(pairs)[key],
        forall|j: int| i < j < pairs.len() ==> (#[trigger] pairs[j]).0 != key,
    decreases pairs.len(),
{
    let last = pairs.len() - 1;
    if pairs.last().0 == key {
        last
    } else {
        let i = lemma_last_pair(pairs.drop_last(), key);
        assert(pairs.drop_last()[i] == pairs[i]);
        assert forall|j: int| i < j < pairs.len() implies (#[trigger] pairs[j]).0 != key by {
            if j < last {
                assert(pairs.drop_last()[j] == pairs[j]);
            }
        }
        i
    }
}

/// Whether a source feeds what a layer shows: media feeds itself, an input that is a scene is fed
/// by that scene, and a scene by itself, which has to be there.
pub open spec fn feeds(project: Project, shown: SourceRef, source: NativeSceneSource) -> bool {
    match (shown, source) {
        (SourceRef::Input(id), NativeSceneSource::Leaf(leaf)) => id == leaf && exists|
            input: Input,
        | #[trigger] is_input(project, input) && input.id == id && input.kind is Media,
        (SourceRef::Input(id), NativeSceneSource::Scene(scene)) => {
            &&& exists|input: Input| #[trigger]
                is_input(project, input) && input.id == id && (input.kind matches InputKind::Scene {
                    scene_id,
                    ..
                } && scene_id == scene)
            &&& exists|model: Scene| #[trigger] is_scene(project, model) && model.id == scene
        },
        (SourceRef::Scene(id), NativeSceneSource::Scene(scene)) => id == scene && exists|
            model: Scene,
        | #[trigger] is_scene(project, model) && model.id == scene,
        (SourceRef::Scene(_), NativeSceneSource::Leaf(_)) => false,
    }
}

/// What a layer shows is fed by the source that is found for it, and one is found wherever there
/// is one.
pub proof fn layers_are_fed(project: Project, shown: SourceRef, source: NativeSceneSource)
    ensures
        scene_graph::resolved_source(project, shown) == Ok::<
            NativeSceneSource,
            NativeProjectPlanError,
        >(source) <==> feeds(project, shown, source),
{
    match shown {
        SourceRef::Input(id) => {
            inputs_are_found(project, id);
            if let Some(input) = scene_graph::input_model(project, id) {
                assert(is_input(project, input));
                if let InputKind::Scene { scene_id, .. } = input.kind {
                    scenes_are_found(project, scene_id);
                    if let Some(model) = scene_graph::scene_model(project, scene_id) {
                        assert(is_scene(project, model));
                    }
                }
            }
            if feeds(project, shown, source) {
                let input = match source {
                    NativeSceneSource::Leaf(_) => choose|input: Input| #[trigger]
                        is_input(project, input) && input.id == id && input.kind is Media,
                    NativeSceneSource::Scene(scene) => {
                        scenes_are_found(project, scene);
                        let model = choose|model: Scene| #[trigger]
                            is_scene(project, model) && model.id == scene;
                        assert(scene_graph::scene_model(project, scene) == Some(model));
                        choose|input: Input| #[trigger]
                            is_input(project, input) && input.id == id && (
                            input.kind matches InputKind::Scene { scene_id, .. } && scene_id
                                == scene)
                    },
                };
                assert(scene_graph::input_model(project, id) == Some(input));
            }
        },
        SourceRef::Scene(id) => {
            scenes_are_found(project, id);
            if let Some(model) = scene_graph::scene_model(project, id) {
                assert(is_scene(project, model));
            }
            if feeds(project, shown, source) {
                let model = choose|model: Scene| #[trigger]
                    is_scene(project, model) && model.id == id;
                assert(scene_graph::scene_model(project, id) == Some(model));
            }
        },
    }
}

/// Whether a mask has an area and lies within a picture of this size.
pub open spec fn lies_within(mask: RectMask, width: int, height: int) -> bool {
    &&& mask.width > 0 && mask.height > 0
    &&& forall|x: int| mask.x <= x < mask.x + mask.width ==> #[trigger] is_in(x, width)
    &&& forall|y: int| mask.y <= y < mask.y + mask.height ==> #[trigger] is_in(y, height)
}

/// Whether a place lies within an extent.
pub open spec fn is_in(place: int, extent: int) -> bool {
    0 <= place < extent
}

/// Whether the mask of a layer, if it has one, lies within what the layer shows: the part that
/// is cropped out, or the whole canvas.
pub open spec fn is_masked_within(project: Project, layer: Layer) -> bool {
    layer.mask matches Some(mask) ==> match layer.crop {
        Some(crop) => lies_within(mask, crop.width as int, crop.height as int),
        None => lies_within(mask, project.width as int, project.height as int),
    }
}

/// A mask is accepted exactly where it lies within what its layer shows.
pub proof fn masks_lie_within_their_layer(project: Project, layer: Layer)
    ensures
        project_plan::mask_fits(project, layer) <==> is_masked_within(project, layer),
{
    if let Some(mask) = layer.mask {
        let (width, height) = match layer.crop {
            Some(crop) => (crop.width as int, crop.height as int),
            None => (project.width as int, project.height as int),
        };
        if lies_within(mask, width, height) {
            assert(is_in(mask.x + mask.width - 1, width));
            assert(is_in(mask.y + mask.height - 1, height));
        }
    }
}

/// Whether a drafted layer is drawn as its layer says.
pub open spec fn is_drawn_as(drafted: SourceLayer, layer: Layer) -> bool {
    &&& drafted.enabled == layer.enabled
    &&& drafted.z == layer.z_order
    &&& drafted.transform == layer.geometry
    &&& drafted.opacity == layer.opacity
    &&& drafted.crop == layer.crop
    &&& drafted.mask == layer.mask
}

/// A draft has one layer for each layer of the scene, in their order, and each is drawn as its
/// layer says. A layer that is on takes the picture of what it shows, under the token of that
/// source; every source of the draft is shown by a layer that is on.
pub proof fn drafts_draw_their_layers(
    project: Project,
    scene: SceneId,
    layers: Seq<Layer>,
    first: u64,
)
    requires
        project_plan::drafted_layers(project, scene, layers, first) is Ok,
    ensures
        ({
            let draft = project_plan::drafted_layers(project, scene, layers, first)->Ok_0;
            &&& draft.layers.len() == layers.len()
            &&& forall|i: int|
                0 <= i < layers.len() ==> is_drawn_as(#[trigger] draft.layers[i], layers[i])
            &&& forall|i: int|
                0 <= i < layers.len() ==> is_masked_within(project, #[trigger] layers[i])
            &&& forall|i: int|
                0 <= i < layers.len() && layers[i].enabled ==> exists|k: int|
                    0 <= k < draft.sources.len() && (#[trigger] draft.sources[k]).1 == (
                    #[trigger] draft.layers[i]).source && feeds(
                        project,
                        layers[i].source,
                        draft.sources[k].0,
                    )
            &&& forall|k: int|
                0 <= k < draft.sources.len() ==> exists|i: int|
                    0 <= i < layers.len() && (#[trigger] layers[i]).enabled && feeds(
                        project,
                        layers[i].source,
                        (#[trigger] draft.sources[k]).0,
                    )
        }),
    decreases layers.len(),
{
    if layers.len() > 0 {
        let init = layers.drop_last();
        let last = layers.len() - 1;
        let layer = layers[last];
        drafts_draw_their_layers(project, scene, init, first);
        plan_laws::draft_tokens_are_distinct(project, scene, init, first);
        masks_lie_within_their_layer(project, layer);
        let before = project_plan::drafted_layers(project, scene, init, first)->Ok_0;
        let draft = project_plan::drafted_layers(project, scene, layers, first)->Ok_0;
        assert(forall|i: int| 0 <= i < last ==> init[i] == #[trigger] layers[i]);
        assert(forall|i: int| 0 <= i < last ==> before.layers[i] == #[trigger] draft.layers[i]);
        assert forall|i: int| 0 <= i < layers.len() implies is_drawn_as(
            #[trigger] draft.layers[i],
            layers[i],
        ) by {
            if i < last {
                assert(is_drawn_as(before.layers[i], init[i]));
            }
        }
        assert forall|i: int| 0 <= i < layers.len() implies is_masked_within(
            project,
            #[trigger] layers[i],
        ) by {
            if i < last {
                assert(is_masked_within(project, init[i]));
            }
        }
        if layer.enabled {
            let source = scene_graph::resolved_source(project, layer.source)->Ok_0;
            layers_are_fed(project, layer.source, source);
            ordered::lemma_entry_pairs(before.sources, source);
            if ordered::collected(before.sources).contains_key(source) {
                let token = ordered::collected(before.sources)[source];
                assert(before.sources.contains((source, token)));
                let k = choose|k: int|
                    0 <= k < before.sources.len() && before.sources[k] == (source, token);
                assert(draft.sources[k].1 == draft.layers[last].source);
            } else {
                ordered::lemma_with_entry(before.sources, source, before.next_source);
                ordered::lemma_entry_pairs(draft.sources, source);
                assert(draft.sources.contains((source, before.next_source)));
                let k = choose|k: int|
                    0 <= k < draft.sources.len() && draft.sources[k] == (
                        source,
                        before.next_source,
                    );
                assert(draft.sources[k].1 == draft.layers[last].source);
            }
        }
        assert forall|i: int| 0 <= i < layers.len() && layers[i].enabled implies exists|k: int|
            0 <= k < draft.sources.len() && (#[trigger] draft.sources[k]).1 == (
            #[trigger] draft.layers[i]).source && feeds(
                project,
                layers[i].source,
                draft.sources[k].0,
            ) by {
            if i < last {
                assert(init[i].enabled);
                let k = choose|k: int|
                    0 <= k < before.sources.len() && (#[trigger] before.sources[k]).1
                        == before.layers[i].source && feeds(
                        project,
                        init[i].source,
                        before.sources[k].0,
                    );
                let j = lemma_entry_stays(
                    before.sources,
                    draft.sources,
                    before.next_source,
                    k,
                    if layer.enabled {
                        Some(scene_graph::resolved_source(project, layer.source)->Ok_0)
                    } else {
                        None
                    },
                );
                assert(draft.sources[j] == before.sources[k]);
            }
        }
        assert forall|k: int| 0 <= k < draft.sources.len() implies exists|i: int|
            0 <= i < layers.len() && (#[trigger] layers[i]).enabled && feeds(
                project,
                layers[i].source,
                (#[trigger] draft.sources[k]).0,
            ) by {
            let (source, token) = draft.sources[k];
            if before.sources.contains((source, token)) {
                let j = choose|j: int|
                    0 <= j < before.sources.len() && before.sources[j] == (source, token);
                let i = choose|i: int|
                    0 <= i < init.len() && (#[trigger] init[i]).enabled && feeds(
                        project,
                        init[i].source,
                        before.sources[j].0,
                    );
                assert(layers[i].enabled);
            } else {
                assert(layer.enabled);
                let fed = scene_graph::resolved_source(project, layer.source)->Ok_0;
                ordered::lemma_with_entry(before.sources, fed, before.next_source);
                ordered::lemma_entry_pairs(before.sources, source);
                ordered::lemma_entry_pairs(draft.sources, source);
                assert(draft.sources.contains((source, token)));
                assert(source == fed);
                layers_are_fed(project, layer.source, fed);
                assert(layers[last].enabled);
            }
        }
    }
}

/// An entry stays among entries to which one of another key may have been added.
proof fn lemma_entry_stays(
    before: Seq<(NativeSceneSource, u64)>,
    after: Seq<(NativeSceneSource, u64)>,
    token: u64,
    k: int,
    added: Option<NativeSceneSource>,
) -> (j: int)
    requires
        ordered::ascending(ordered::entry_keys(before)),
        0 <= k < before.len(),
        after == before || (added is Some && !ordered::collected(before).contains_key(
            added->Some_0,
        ) && after == ordered::with_entry(before, added->Some_0, token)),
    ensures
        0 <= j < after.len(),
        after[j] == before[k],
{
    if after == before {
        k
    } else {
        let source = before[k].0;
        ordered::lemma_with_entry(before, added->Some_0, token);
        ordered::lemma_entries_match_map(before);
        ordered::lemma_entry_pairs(before, source);
        ordered::lemma_entry_pairs(after, source);
        assert(before.contains(before[k]));
        assert(after.contains((source, before[k].1)));
        choose|j: int| 0 <= j < after.len() && after[j] == (source, before[k].1)
    }
}

/// A draft is refused only for a layer whose mask does not lie within it, for a layer that is on
/// and shows what is not there, or where no token is left.
pub proof fn drafts_are_refused_for_a_reason(
    project: Project,
    scene: SceneId,
    layers: Seq<Layer>,
    first: u64,
)
    requires
        layers.len() <= usize::MAX,
    ensures
        project_plan::drafted_layers(project, scene, layers, first) matches Err(error) ==> {
            ||| error matches NativeProjectPlanError::Composition { scene: told, error } && told
                == scene && (error matches PlanError::InvalidMask { layer } && layer < layers.len()
                && !is_masked_within(project, layers[layer as int]))
            ||| exists|i: int|
                0 <= i < layers.len() && (#[trigger] layers[i]).enabled && forall|
                    source: NativeSceneSource,
                |
                    !#[trigger] feeds(project, layers[i].source, source)
            ||| error is SourceTokenExhausted && first + layers.len() >= u64::MAX
        },
        project_plan::drafted_layers(project, scene, layers, first) matches Ok(draft)
            ==> draft.next_source <= first + layers.len(),
    decreases layers.len(),
{
    if layers.len() > 0 {
        let init = layers.drop_last();
        let last = layers.len() - 1;
        let layer = layers[last];
        drafts_are_refused_for_a_reason(project, scene, init, first);
        masks_lie_within_their_layer(project, layer);
        assert(forall|i: int| 0 <= i < last ==> init[i] == #[trigger] layers[i]);
        match project_plan::drafted_layers(project, scene, init, first) {
            Err(error) => {
                if exists|i: int|
                    0 <= i < init.len() && (#[trigger] init[i]).enabled && forall|
                        source: NativeSceneSource,
                    |
                        !#[trigger] feeds(project, init[i].source, source) {
                    let i = choose|i: int|
                        0 <= i < init.len() && (#[trigger] init[i]).enabled && forall|
                            source: NativeSceneSource,
                        |
                            !#[trigger] feeds(project, init[i].source, source);
                    assert(layers[i].enabled);
                }
            },
            Ok(_) => {
                if layer.enabled && scene_graph::resolved_source(project, layer.source) is Err {
                    assert forall|source: NativeSceneSource|
                        !#[trigger] feeds(project, layer.source, source) by {
                        layers_are_fed(project, layer.source, source);
                    }
                    assert(layers[last].enabled);
                }
            },
        }
    }
}

/// The scenes that a scene depends on are those that feed a layer of it that is on.
pub proof fn scenes_depend_on_what_they_show(project: Project, layers: Seq<Layer>, scene: SceneId)
    requires
        scene_graph::dependencies(project, layers) is Ok,
    ensures
        scene_graph::dependencies(project, layers)->Ok_0.contains(scene) <==> exists|i: int|
            0 <= i < layers.len() && (#[trigger] layers[i]).enabled && feeds(
                project,
                layers[i].source,
                NativeSceneSource::Scene(scene),
            ),
    decreases layers.len(),
{
    if layers.len() > 0 {
        let init = layers.drop_last();
        let last = layers.len() - 1;
        scenes_depend_on_what_they_show(project, init, scene);
        scene_graph::lemma_dependencies_ascend(project, init);
        assert(forall|i: int| 0 <= i < last ==> init[i] == #[trigger] layers[i]);
        let before = scene_graph::dependencies(project, init)->Ok_0;
        layers_are_fed(project, layers[last].source, NativeSceneSource::Scene(scene));
        if layers[last].enabled {
            if let Ok(NativeSceneSource::Scene(shown)) = scene_graph::resolved_source(
                project,
                layers[last].source,
            ) {
                ordered::lemma_with_key(before, shown);
            }
        }
        if before.contains(scene) {
            let i = choose|i: int|
                0 <= i < init.len() && (#[trigger] init[i]).enabled && feeds(
                    project,
                    init[i].source,
                    NativeSceneSource::Scene(scene),
                );
            assert(layers[i].enabled);
        }
        if exists|i: int|
            0 <= i < layers.len() && (#[trigger] layers[i]).enabled && feeds(
                project,
                layers[i].source,
                NativeSceneSource::Scene(scene),
            ) {
            let i = choose|i: int|
                0 <= i < layers.len() && (#[trigger] layers[i]).enabled && feeds(
                    project,
                    layers[i].source,
                    NativeSceneSource::Scene(scene),
                );
            if i < last {
                assert(init[i].enabled);
            }
        }
    }
}

/// A scene is planned as it was drafted and as the compositor compiled it, and its own picture
/// has a token that none of its sources has.
pub proof fn scenes_are_planned_as_drafted(
    project: Project,
    id: SceneId,
    first: u64,
    outcome: SceneOutcome,
)
    requires
        project_plan::planned_scene(project, id, first, outcome) is Ok,
    ensures
        ({
            let (plan, next) = project_plan::planned_scene(project, id, first, outcome)->Ok_0;
            &&& plan.id == id
            &&& outcome.canvas is Ok
            &&& outcome.composition matches Ok(composition) && plan.composition == composition
            &&& exists|scene: Scene| #[trigger]
                is_scene(project, scene) && scene.id == id && (project_plan::drafted_layers(
                    project,
                    id,
                    scene.layers@,
                    first,
                ) matches Ok(draft) && draft.sources == plan.sources)
            &&& first <= plan.output < next
            &&& forall|k: int|
                0 <= k < plan.sources.len() ==> first <= (#[trigger] plan.sources[k]).1
                    < plan.output
            &&& forall|j: int, k: int|
                0 <= j < k < plan.sources.len() ==> (#[trigger] plan.sources[j]).1 != (
                #[trigger] plan.sources[k]).1
        }),
{
    scenes_are_found(project, id);
    let scene = scene_graph::scene_model(project, id)->Some_0;
    assert(is_scene(project, scene));
    plan_laws::draft_tokens_are_distinct(project, id, scene.layers@, first);
}

/// No token is given out twice, within a scene or to two scenes: all tokens of a scene come
/// before all tokens of a later one.
pub proof fn scenes_have_tokens_of_their_own(
    project: Project,
    order: Seq<SceneId>,
    outcomes: Seq<SceneOutcome>,
)
    requires
        project_plan::planned_scenes(project, order, outcomes) is Ok,
    ensures
        ({
            let (scenes, next) = project_plan::planned_scenes(project, order, outcomes)->Ok_0;
            &&& scenes.len() == order.len()
            &&& forall|i: int|
                0 <= i < scenes.len() ==> (#[trigger] scenes[i]).output < next && scenes[i].id
                    == order[i] && outcomes[i].composition == Ok::<_, PlanError>(
                    scenes[i].composition,
                )
            &&& forall|i: int, k: int|
                0 <= i < scenes.len() && 0 <= k < scenes[i].sources.len() ==> (
                #[trigger] scenes[i].sources[k]).1 < scenes[i].output
            &&& forall|i: int, j: int|
                0 <= i < j < scenes.len() ==> (#[trigger] scenes[i]).output < (
                #[trigger] scenes[j]).output
            &&& forall|i: int, j: int, k: int|
                0 <= i < j < scenes.len() && 0 <= k < scenes[j].sources.len() ==> (
                #[trigger] scenes[i]).output < (#[trigger] scenes[j].sources[k]).1
        }),
    decreases order.len(),
{
    if order.len() > 0 {
        let init = order.drop_last();
        let last = order.len() - 1;
        scenes_have_tokens_of_their_own(project, init, outcomes);
        let (before, first) = project_plan::planned_scenes(project, init, outcomes)->Ok_0;
        let (scenes, next) = project_plan::planned_scenes(project, order, outcomes)->Ok_0;
        scenes_are_planned_as_drafted(project, order[last], first, outcomes[last]);
        assert(forall|i: int| 0 <= i < last ==> before[i] == #[trigger] scenes[i]);
        assert(forall|i: int| 0 <= i < last ==> #[trigger] init[i] == order[i]);
        assert forall|i: int, k: int|
            0 <= i < scenes.len() && 0 <= k < scenes[i].sources.len() implies (
        #[trigger] scenes[i].sources[k]).1 < scenes[i].output by {
            if i < last {
                assert(before[i].sources[k].1 < before[i].output);
            }
        }
        assert forall|i: int, j: int| 0 <= i < j < scenes.len() implies (
        #[trigger] scenes[i]).output < (#[trigger] scenes[j]).output by {
            assert(before[i].output < first);
            if j < last {
                assert(before[i].output < before[j].output);
            }
        }
        assert forall|i: int, j: int, k: int|
            0 <= i < j < scenes.len() && 0 <= k < scenes[j].sources.len() implies (
        #[trigger] scenes[i]).output < (#[trigger] scenes[j].sources[k]).1 by {
            assert(before[i].output < first);
            if j < last {
                assert(before[i].output < before[j].sources[k].1);
            }
        }
    }
}

/// Every input of the project leads somewhere: an input that is a scene to that scene, and media
/// to itself. Nothing else does.
pub proof fn inputs_lead_to_what_they_are(project: Project, id: InputId)
    ensures
        ({
            let routes = project_plan::video_entries(project.inputs@);
            &&& forall|input: Input| #[trigger]
                is_input(project, input) && input.id == id ==> match input.kind {
                    InputKind::Scene { scene_id, .. } => routes.contains(
                        (id, NativeVideoRoute::Scene(scene_id)),
                    ),
                    InputKind::Media => routes.contains((id, NativeVideoRoute::Leaf(id))),
                }
            &&& forall|route: NativeVideoRoute| #[trigger]
                routes.contains((id, route)) ==> exists|input: Input| #[trigger]
                    is_input(project, input) && input.id == id && match route {
                        NativeVideoRoute::Scene(scene) => input.kind matches InputKind::Scene {
                            scene_id,
                            ..
                        } && scene_id == scene,
                        NativeVideoRoute::Leaf(leaf) => input.kind is Media && leaf == id,
                    }
        }),
{
    inputs_are_found(project, id);
    plan_laws::every_input_is_routed(project, id);
    lemma_routes_ascend(project.inputs@);
    let routes = project_plan::video_entries(project.inputs@);
    ordered::lemma_entry_pairs(routes, id);
    assert forall|route: NativeVideoRoute| #[trigger] routes.contains((id, route)) implies exists|
        input: Input,
    | #[trigger]
        is_input(project, input) && input.id == id && match route {
            NativeVideoRoute::Scene(scene) => input.kind matches InputKind::Scene { scene_id, .. }
                && scene_id == scene,
            NativeVideoRoute::Leaf(leaf) => input.kind is Media && leaf == id,
        } by {
        let input = scene_graph::input_model(project, id)->Some_0;
        assert(is_input(project, input));
    }
}

proof fn lemma_routes_ascend(inputs: Seq<Input>)
    ensures
        ordered::ascending(ordered::entry_keys(project_plan::video_entries(inputs))),
    decreases inputs.len(),
{
    if inputs.len() > 0 {
        lemma_routes_ascend(inputs.drop_last());
        ordered::lemma_with_entry(
            project_plan::video_entries(inputs.drop_last()),
            inputs.last().id,
            project_plan::route_of(inputs.last()),
        );
    }
}

/// The scenes from which the order begins are those that inputs are.
pub proof fn inputs_are_where_the_order_begins(
    entries: Seq<(InputId, NativeVideoRoute)>,
    scene: SceneId,
)
    ensures
        ordered::ascending(project_plan::input_roots(entries)),
        project_plan::input_roots(entries).contains(scene) <==> exists|i: int|
            0 <= i < entries.len() && (#[trigger] entries[i]).1 == NativeVideoRoute::Scene(scene),
    decreases entries.len(),
{
    if entries.len() > 0 {
        let init = entries.drop_last();
        let last = entries.len() - 1;
        inputs_are_where_the_order_begins(init, scene);
        assert(forall|i: int| 0 <= i < last ==> init[i] == #[trigger] entries[i]);
        if let NativeVideoRoute::Scene(shown) = entries[last].1 {
            ordered::lemma_with_key(project_plan::input_roots(init), shown);
        }
        if project_plan::input_roots(init).contains(scene) {
            let i = choose|i: int|
                0 <= i < init.len() && (#[trigger] init[i]).1 == NativeVideoRoute::Scene(scene);
            assert(entries[i].1 == NativeVideoRoute::Scene(scene));
        }
        if exists|i: int|
            0 <= i < entries.len() && (#[trigger] entries[i]).1 == NativeVideoRoute::Scene(scene) {
            let i = choose|i: int|
                0 <= i < entries.len() && (#[trigger] entries[i]).1 == NativeVideoRoute::Scene(
                    scene,
                );
            if i < last {
                assert(init[i].1 == NativeVideoRoute::Scene(scene));
            } else {
                assert(entries[last].1 == NativeVideoRoute::Scene(scene));
            }
        }
    }
}

/// How many layers are counted as on: those that are.
pub proof fn layers_that_are_on_are_counted(layers: Seq<Layer>)
    ensures
        project_plan::enabled_layers(layers) == layers.filter(|layer: Layer| layer.enabled).len(),
    decreases layers.len(),
{
    reveal(Seq::filter);
    if layers.len() > 0 {
        layers_that_are_on_are_counted(layers.drop_last());
    }
}

/// The layers that are on in the scene of this identifier.
pub open spec fn layers_on(project: Project, id: SceneId) -> nat {
    match scene_graph::scene_model(project, id) {
        Some(scene) => scene.layers@.filter(|layer: Layer| layer.enabled).len(),
        None => 0,
    }
}

proof fn lemma_layers_on(project: Project, order: Seq<SceneId>, maximum: usize)
    ensures
        project_plan::active_layers(project, order, maximum) matches Ok(total) ==> total
            == sums::total(Seq::new(order.len(), |i: int| layers_on(project, order[i]))),
        project_plan::active_layers(project, order, maximum) matches Err(error) ==> match error {
            NativeProjectPlanError::MissingScene(id) => scene_graph::scene_model(project, id)
                is None && order.contains(id),
            NativeProjectPlanError::TooManyActiveLayers { actual, maximum: told } => {
                &&& actual == usize::MAX && told == maximum
                &&& sums::total(Seq::new(order.len(), |i: int| layers_on(project, order[i])))
                    > usize::MAX
            },
            _ => false,
        },
    decreases order.len(),
{
    let counts = Seq::new(order.len(), |i: int| layers_on(project, order[i]));
    if order.len() > 0 {
        let init = order.drop_last();
        lemma_layers_on(project, init, maximum);
        let before = Seq::new(init.len(), |i: int| layers_on(project, init[i]));
        assert(counts.drop_last() =~= before);
        assert(order[order.len() - 1] == order.last());
        if let Some(scene) = scene_graph::scene_model(project, order.last()) {
            layers_that_are_on_are_counted(scene.layers@);
        }
        if let Err(NativeProjectPlanError::MissingScene(id)) = project_plan::active_layers(
            project,
            init,
            maximum,
        ) {
            let i = choose|i: int| 0 <= i < init.len() && init[i] == id;
            assert(order[i] == id);
        }
    } else {
        assert(counts =~= Seq::empty());
    }
}

/// The scenes that are composed are no more than allowed, with no more layers that are on than
/// allowed; and they are refused only where there are more of either, where the scenes cannot be
/// ordered, or where one is missing.
pub proof fn orders_keep_to_their_bounds(project: Project, limits: NativeProjectLimits)
    ensures
        ({
            let roots = project_plan::input_roots(project_plan::video_entries(project.inputs@));
            let walked = scene_graph::all_visited(project, roots, Set::empty(), Seq::empty());
            match project_plan::bounded_order(project, limits) {
                Ok(order) => {
                    &&& walked == Ok::<Seq<SceneId>, NativeProjectPlanError>(order)
                    &&& order.len() <= limits.max_reachable_scenes
                    &&& sums::total(Seq::new(order.len(), |i: int| layers_on(project, order[i])))
                        <= limits.max_total_active_layers
                },
                Err(NativeProjectPlanError::TooManyReachableScenes { actual, maximum }) => {
                    ||| walked is Err
                    ||| walked->Ok_0.len() > limits.max_reachable_scenes && maximum
                        == limits.max_reachable_scenes
                },
                Err(NativeProjectPlanError::TooManyActiveLayers { actual, maximum }) => {
                    ||| walked is Err
                    ||| maximum == limits.max_total_active_layers && sums::total(
                        Seq::new(
                            walked->Ok_0.len(),
                            |i: int| layers_on(project, walked->Ok_0[i]),
                        ),
                    ) > limits.max_total_active_layers
                },
                Err(NativeProjectPlanError::MissingScene(id)) => walked is Err
                    || scene_graph::scene_model(project, id) is None,
                Err(error) => walked == Err::<Seq<SceneId>, NativeProjectPlanError>(error),
            }
        }),
{
    let roots = project_plan::input_roots(project_plan::video_entries(project.inputs@));
    if let Ok(order) = scene_graph::all_visited(project, roots, Set::empty(), Seq::empty()) {
        lemma_layers_on(project, order, limits.max_total_active_layers);
    }
}

/// Whether no later Stinger stands in the same slot.
pub open spec fn is_last_in_slot(stingers: Seq<StingerConfig>, i: int) -> bool {
    &&& 0 <= i < stingers.len()
    &&& forall|j: int| i < j < stingers.len() ==> (#[trigger] stingers[j]).slot != stingers[i].slot
}

/// Whether a slot holds what a Stinger of the project says.
pub open spec fn is_set_up_as(config: NativeStingerConfig, stinger: StingerConfig) -> bool {
    &&& config.media_input == stinger.media_input
    &&& config.preload == stinger.preload
    &&& config.cut_point_frames == stinger.cut_point_frames
    &&& config.audio_policy == stinger.audio_policy
}

proof fn lemma_slots(stingers: Seq<StingerConfig>, slot: StingerSlotId)
    ensures
        project_plan::stinger_entries(stingers) matches Ok(entries) ==> {
            &&& ordered::ascending(ordered::entry_keys(entries))
            &&& ordered::collected(entries).contains_key(slot) ==> exists|i: int| #[trigger]
                is_last_in_slot(stingers, i) && stingers[i].slot == Some(slot) && is_set_up_as(
                    ordered::collected(entries)[slot],
                    stingers[i],
                )
            &&& !ordered::collected(entries).contains_key(slot) ==> forall|i: int|
                0 <= i < stingers.len() ==> (#[trigger] stingers[i]).slot != Some(slot)
        },
    decreases stingers.len(),
{
    if stingers.len() > 0 {
        let init = stingers.drop_last();
        let last = stingers.len() - 1;
        lemma_slots(init, slot);
        if let Ok(entries) = project_plan::stinger_entries(stingers) {
            let before = project_plan::stinger_entries(init)->Ok_0;
            let own = stingers.last().slot->Some_0;
            ordered::lemma_with_entry(before, own, project_plan::stinger_of(stingers.last()));
            if own == slot {
                assert(is_last_in_slot(stingers, last));
            } else {
                if ordered::collected(before).contains_key(slot) {
                    let i = choose|i: int| #[trigger]
                        is_last_in_slot(init, i) && init[i].slot == Some(slot) && is_set_up_as(
                            ordered::collected(before)[slot],
                            init[i],
                        );
                    assert forall|j: int| i < j < stingers.len() implies (
                    #[trigger] stingers[j]).slot != stingers[i].slot by {
                        if j < last {
                            assert(init[j].slot != init[i].slot);
                        }
                    }
                    assert(is_last_in_slot(stingers, i));
                } else {
                    assert forall|i: int| 0 <= i < stingers.len() implies (
                    #[trigger] stingers[i]).slot != Some(slot) by {
                        if i < last {
                            assert(init[i].slot != Some(slot));
                        }
                    }
                }
            }
        }
    }
}

proof fn lemma_slots_are_there(stingers: Seq<StingerConfig>)
    ensures
        match project_plan::stinger_entries(stingers) {
            Ok(_) => forall|i: int|
                0 <= i < stingers.len() ==> (#[trigger] stingers[i]).slot is Some,
            Err(error) => exists|i: int|
                0 <= i < stingers.len() && (#[trigger] stingers[i]).slot is None && error
                    == NativeProjectPlanError::InvalidStingerSlot(stingers[i].slot_number),
        },
    decreases stingers.len(),
{
    if stingers.len() > 0 {
        let init = stingers.drop_last();
        let last = stingers.len() - 1;
        lemma_slots_are_there(init);
        match project_plan::stinger_entries(init) {
            Err(error) => {
                let i = choose|i: int|
                    0 <= i < init.len() && (#[trigger] init[i]).slot is None && error
                        == NativeProjectPlanError::InvalidStingerSlot(init[i].slot_number);
                assert(stingers[i].slot is None);
            },
            Ok(_) => {
                assert(stingers[last] == stingers.last());
                assert forall|i: int|
                    stingers.last().slot is Some && 0 <= i < stingers.len() implies (
                #[trigger] stingers[i]).slot is Some by {
                    if i < last {
                        assert(init[i].slot is Some);
                    }
                }
            },
        }
    }
}

/// A slot holds the last Stinger of the project that stands in it, with its clip, its cut point
/// and its policy, and nothing where none does. A Stinger without a slot has the project refused.
pub proof fn stingers_stand_in_their_slots(
    stingers: Seq<StingerConfig>,
    slot: StingerSlotId,
    config: NativeStingerConfig,
)
    ensures
        match project_plan::stinger_entries(stingers) {
            Ok(entries) => {
                &&& forall|i: int|
                    0 <= i < stingers.len() ==> (#[trigger] stingers[i]).slot is Some
                &&& entries.contains((slot, config)) <==> exists|i: int| #[trigger]
                    is_last_in_slot(stingers, i) && stingers[i].slot == Some(slot) && is_set_up_as(
                        config,
                        stingers[i],
                    )
            },
            Err(error) => exists|i: int|
                0 <= i < stingers.len() && (#[trigger] stingers[i]).slot is None && error
                    == NativeProjectPlanError::InvalidStingerSlot(stingers[i].slot_number),
        },
{
    lemma_slots_are_there(stingers);
    lemma_slots(stingers, slot);
    if let Ok(entries) = project_plan::stinger_entries(stingers) {
        ordered::lemma_entry_pairs(entries, slot);
        if exists|i: int| #[trigger]
            is_last_in_slot(stingers, i) && stingers[i].slot == Some(slot) && is_set_up_as(
                config,
                stingers[i],
            ) {
            let i = choose|i: int| #[trigger]
                is_last_in_slot(stingers, i) && stingers[i].slot == Some(slot) && is_set_up_as(
                    config,
                    stingers[i],
                );
            let k = choose|k: int| #[trigger]
                is_last_in_slot(stingers, k) && stingers[k].slot == Some(slot) && is_set_up_as(
                    ordered::collected(entries)[slot],
                    stingers[k],
                );
            if i < k {
                assert(stingers[k].slot != stingers[i].slot);
            }
            if k < i {
                assert(stingers[i].slot != stingers[k].slot);
            }
        }
    }
}

/// Whether no later strip belongs to the same input.
pub open spec fn is_last_strip(strips: Seq<InputAudioStrip>, i: int) -> bool {
    &&& 0 <= i < strips.len()
    &&& forall|j: int| i < j < strips.len() ==> (#[trigger] strips[j]).input != strips[i].input
}

proof fn lemma_strips(strips: Seq<InputAudioStrip>, input: InputId)
    ensures
        ({
            let entries = project_plan::strip_entries(strips);
            &&& ordered::ascending(ordered::entry_keys(entries))
            &&& ordered::collected(entries).contains_key(input) ==> exists|i: int| #[trigger]
                is_last_strip(strips, i) && strips[i].input == input && strips[i].state
                    == ordered::collected(entries)[input]
            &&& !ordered::collected(entries).contains_key(input) ==> forall|i: int|
                0 <= i < strips.len() ==> (#[trigger] strips[i]).input != input
        }),
    decreases strips.len(),
{
    if strips.len() > 0 {
        let init = strips.drop_last();
        let last = strips.len() - 1;
        lemma_strips(init, input);
        let before = project_plan::strip_entries(init);
        ordered::lemma_with_entry(before, strips.last().input, strips.last().state);
        if strips.last().input == input {
            assert(is_last_strip(strips, last));
        } else if ordered::collected(before).contains_key(input) {
            let i = choose|i: int| #[trigger]
                is_last_strip(init, i) && init[i].input == input && init[i].state
                    == ordered::collected(before)[input];
            assert forall|j: int| i < j < strips.len() implies (#[trigger] strips[j]).input
                != strips[i].input by {
                if j < last {
                    assert(init[j].input != init[i].input);
                }
            }
            assert(is_last_strip(strips, i));
        } else {
            assert forall|i: int| 0 <= i < strips.len() implies (#[trigger] strips[i]).input
                != input by {
                if i < last {
                    assert(init[i].input != input);
                }
            }
        }
    }
}

/// An input has the settings of the last strip of the project that belongs to it, and none where
/// no strip does.
pub proof fn strips_stand_under_their_inputs(
    strips: Seq<InputAudioStrip>,
    input: InputId,
    state: InputAudioStripState,
)
    ensures
        project_plan::strip_entries(strips).contains((input, state)) <==> exists|i: int| #[trigger]
            is_last_strip(strips, i) && strips[i].input == input && strips[i].state == state,
{
    lemma_strips(strips, input);
    let entries = project_plan::strip_entries(strips);
    ordered::lemma_entry_pairs(entries, input);
    if exists|i: int| #[trigger]
        is_last_strip(strips, i) && strips[i].input == input && strips[i].state == state {
        let i = choose|i: int| #[trigger]
            is_last_strip(strips, i) && strips[i].input == input && strips[i].state == state;
        let k = choose|k: int| #[trigger]
            is_last_strip(strips, k) && strips[k].input == input && strips[k].state
                == ordered::collected(entries)[input];
        if i < k {
            assert(strips[k].input != strips[i].input);
        }
        if k < i {
            assert(strips[i].input != strips[k].input);
        }
    }
}

/// Media plays its own sound, a scene that names no input is silent, and one that names an input
/// plays what that input plays.
pub proof fn inputs_play_what_they_name(project: Project, input: Input)
    requires
        is_input(project, input),
    ensures
        match input.kind {
            InputKind::Media => audio_route::audio_terminal(project, input.id, Set::empty()) == Ok::<
                NativeAudioRoute,
                NativeProjectPlanError,
            >(NativeAudioRoute::Leaf(input.id)),
            InputKind::Scene { audio_source: None, .. } => audio_route::audio_terminal(
                project,
                input.id,
                Set::empty(),
            ) == Ok::<NativeAudioRoute, NativeProjectPlanError>(NativeAudioRoute::Silence),
            InputKind::Scene { audio_source: Some(source), .. } => audio_route::audio_terminal(
                project,
                input.id,
                Set::empty(),
            ) is Ok ==> audio_route::audio_terminal(project, input.id, Set::empty())
                == audio_route::audio_terminal(project, source, Set::empty()),
        },
{
    inputs_are_found(project, input.id);
    if let InputKind::Scene { audio_source: Some(source), .. } = input.kind {
        if audio_route::audio_terminal(project, input.id, Set::empty()) is Ok {
            audio_route::scene_plays_its_audio_source(project, input.id, source);
        }
    }
}

/// A compiled project keeps the rate of its project and takes as many bytes as its pictures at
/// once need; where there are no inputs three are held.
pub proof fn plans_keep_what_the_project_says(
    project: Project,
    limits: NativeProjectLimits,
    outcomes: Seq<SceneOutcome>,
)
    requires
        project_plan::compiled(project, limits, outcomes) is Ok,
    ensures
        ({
            let plan = project_plan::compiled(project, limits, outcomes)->Ok_0;
            &&& plan.frame_rate == project.frame_rate
            &&& plan.video_routes == project_plan::video_entries(project.inputs@)
            &&& plan.audio_strips == project_plan::strip_entries(project.input_audio_strips@)
            &&& project_plan::stinger_entries(project.stingers@) == Ok::<_, NativeProjectPlanError>(
                plan.stingers,
            )
            &&& audio_route::audio_entries(project, project.inputs@) == Ok::<
                _,
                NativeProjectPlanError,
            >(plan.audio_routes)
            &&& plan.transient_rgba16f_bytes == project.width * project.height * 8
                * plan.peak_rgba16f_targets
            &&& plan.transient_rgba16f_bytes <= limits.max_transient_rgba16f_bytes
        }),
{
    plan_laws::compiled_plan_keeps_to_its_limits(project, limits, outcomes);
}

/// The bytes of as many pictures are refused only where they exceed the limit, or cannot be
/// counted.
pub proof fn bytes_are_refused_only_above_the_limit(
    project: Project,
    targets: nat,
    limits: NativeProjectLimits,
)
    ensures
        ({
            let bytes = project.width * project.height * 8 * targets;
            match project_plan::transient_bytes(project, targets, limits) {
                Ok(counted) => counted == bytes && bytes <= limits.max_transient_rgba16f_bytes,
                Err(NativeProjectPlanError::TransientBytesExceeded { required, maximum }) => {
                    required == bytes && maximum == limits.max_transient_rgba16f_bytes && bytes
                        > maximum
                },
                Err(error) => error is TransientByteSizeOverflow && (bytes > u64::MAX || targets
                    == 0),
            }
        }),
{
    let frame = project.width * project.height * 8;
    if frame > u64::MAX && targets > 0 {
        assert(frame * targets >= frame) by (nonlinear_arith)
            requires
                targets > 0,
                frame >= 0,
        ;
    }
}

/// A scene is planned exactly where the project has it, its canvas is accepted, it can be drafted,
/// its composition is accepted, and a token is left for it.
pub proof fn scenes_that_can_be_drafted_are_planned(
    project: Project,
    id: SceneId,
    first: u64,
    outcome: SceneOutcome,
)
    ensures
        project_plan::planned_scene(project, id, first, outcome) is Ok <==> {
            &&& outcome.canvas is Ok
            &&& outcome.composition is Ok
            &&& project_plan::drafted_scene(project, id, first) matches Ok(draft)
                && draft.next_source < u64::MAX
        },
        scene_graph::scene_model(project, id) is None ==> (project_plan::planned_scene(
            project,
            id,
            first,
            outcome,
        ) matches Err(error) && error == NativeProjectPlanError::MissingScene(id)),
{
}

/// A project is refused only for its scenes, for its targets or their bytes, for its audio or for
/// its Stingers, and the first of these is what it is refused for.
pub proof fn projects_are_compiled_where_nothing_is_missing(
    project: Project,
    limits: NativeProjectLimits,
    outcomes: Seq<SceneOutcome>,
    order: Seq<SceneId>,
    scenes: Seq<ScenePlanModel>,
    next: u64,
    targets: nat,
)
    requires
        project_plan::bounded_order(project, limits) == Ok::<_, NativeProjectPlanError>(order),
        project_plan::planned_scenes(project, order, outcomes) == Ok::<_, NativeProjectPlanError>(
            (scenes, next),
        ),
        ({
            let routes = project_plan::video_entries(project.inputs@);
            scene_execution::grid_peak(
                project_plan::route_values(routes),
                project_plan::route_values(routes),
                project_plan::stinger_media_routes(project.stingers@, routes),
                scenes,
            ) == Some(targets)
        }),
    ensures
        ({
            let compiled = project_plan::compiled(project, limits, outcomes);
            let bytes = project_plan::transient_bytes(project, targets, limits);
            let audio = audio_route::audio_entries(project, project.inputs@);
            let stingers = project_plan::stinger_entries(project.stingers@);
            &&& compiled is Ok <==> bytes is Ok && audio is Ok && stingers is Ok
            &&& bytes matches Err(error) ==> (compiled matches Err(told) && told == error)
            &&& bytes is Ok ==> (audio matches Err(error) ==> (compiled matches Err(told) && told
                == error))
            &&& bytes is Ok && audio is Ok ==> (stingers matches Err(error) ==> (
            compiled matches Err(told) && told == error))
            &&& compiled matches Ok(plan) ==> plan.scenes == scenes
        }),
{
}

/// The route of a Stinger is planned for exactly where its medium is an input of the project.
pub proof fn stingers_that_can_be_shown_are_planned_for(
    stingers: Seq<StingerConfig>,
    routes: Seq<(InputId, NativeVideoRoute)>,
    route: NativeVideoRoute,
)
    ensures
        project_plan::stinger_media_routes(stingers, routes).contains(route) <==> exists|i: int|
            0 <= i < stingers.len() && ordered::collected(routes).contains_key(
                (#[trigger] stingers[i]).media_input,
            ) && ordered::collected(routes)[stingers[i].media_input] == route,
    decreases stingers.len(),
{
    if stingers.len() > 0 {
        let rest = stingers.drop_last();
        let last = stingers.last();
        stingers_that_can_be_shown_are_planned_for(rest, routes, route);
        let before = project_plan::stinger_media_routes(rest, routes);
        assert(stingers[stingers.len() - 1] == last);
        if ordered::collected(routes).contains_key(last.media_input) {
            let added = ordered::collected(routes)[last.media_input];
            ordered::lemma_contains_drop_last(before.push(added), route);
            assert(before.push(added).drop_last() =~= before);
        }
        if before.contains(route) {
            let i = choose|i: int|
                0 <= i < rest.len() && ordered::collected(routes).contains_key(
                    (#[trigger] rest[i]).media_input,
                ) && ordered::collected(routes)[rest[i].media_input] == route;
            assert(stingers[i] == rest[i]);
        }
        if exists|i: int|
            0 <= i < stingers.len() && ordered::collected(routes).contains_key(
                (#[trigger] stingers[i]).media_input,
            ) && ordered::collected(routes)[stingers[i].media_input] == route {
            let i = choose|i: int|
                0 <= i < stingers.len() && ordered::collected(routes).contains_key(
                    (#[trigger] stingers[i]).media_input,
                ) && ordered::collected(routes)[stingers[i].media_input] == route;
            if i < rest.len() {
                assert(rest[i] == stingers[i]);
            }
        }
    }
}

} // verus!
