//! The order in which the scenes of a project are composed.
use vstd::prelude::*;

use crate::model::{Input, InputId, InputKind, Layer, Project, Scene, SceneId, SourceRef};
use crate::ordered;
use crate::ordered::{insert_key, lists_key, Ranked};
use crate::project_plan::NativeProjectPlanError;

verus! {

/// What feeds one layer of a scene.
#[derive(Clone, Copy, Debug, PartialEq, Eq, Structural)]
pub enum NativeSceneSource {
    Leaf(InputId),
    Scene(SceneId),
}

impl Ranked for NativeSceneSource {
    open spec fn rank(self) -> int {
        match self {
            NativeSceneSource::Leaf(input) => input.0 as int,
            NativeSceneSource::Scene(scene) => 0x1_0000_0000_0000_0000_0000_0000_0000_0000
                + scene.0,
        }
    }

    proof fn rank_is_injective(a: Self, b: Self) {
    }

    fn ranks_below(&self, other: &Self) -> (below: bool) {
        match (self, other) {
            (NativeSceneSource::Leaf(a), NativeSceneSource::Leaf(b)) => a.0 < b.0,
            (NativeSceneSource::Leaf(_), NativeSceneSource::Scene(_)) => true,
            (NativeSceneSource::Scene(_), NativeSceneSource::Leaf(_)) => false,
            (NativeSceneSource::Scene(a), NativeSceneSource::Scene(b)) => a.0 < b.0,
        }
    }
}

/// The inputs of the project under their identifiers; of several with one
/// identifier, the last.
pub open spec fn input_models(project: Project) -> Map<InputId, Input> {
    ordered::collected(
        Seq::new(project.inputs@.len(), |i: int| (project.inputs@[i].id, project.inputs@[i])),
    )
}

/// The scenes of the project under their identifiers; of several with one
/// identifier, the last.
pub open spec fn scene_models(project: Project) -> Map<SceneId, Scene> {
    ordered::collected(
        Seq::new(project.scenes@.len(), |i: int| (project.scenes@[i].id, project.scenes@[i])),
    )
}

/// The input `id` of the project.
pub open spec fn input_model(project: Project, id: InputId) -> Option<Input> {
    if input_models(project).contains_key(id) {
        Some(input_models(project)[id])
    } else {
        None
    }
}

/// The scene `id` of the project.
pub open spec fn scene_model(project: Project, id: SceneId) -> Option<Scene> {
    if scene_models(project).contains_key(id) {
        Some(scene_models(project)[id])
    } else {
        None
    }
}

/// What feeds a layer that shows `source`.
pub open spec fn resolved_source(project: Project, source: SourceRef) -> Result<
    NativeSceneSource,
    NativeProjectPlanError,
> {
    match source {
        SourceRef::Input(input) => match input_model(project, input) {
            None => Err(NativeProjectPlanError::MissingInput(input)),
            Some(model) => match model.kind {
                InputKind::Scene { scene_id, .. } => if scene_model(project, scene_id) is None {
                    Err(NativeProjectPlanError::MissingScene(scene_id))
                } else {
                    Ok(NativeSceneSource::Scene(scene_id))
                },
                InputKind::Media => Ok(NativeSceneSource::Leaf(input)),
            },
        },
        SourceRef::Scene(scene) => if scene_model(project, scene) is None {
            Err(NativeProjectPlanError::MissingScene(scene))
        } else {
            Ok(NativeSceneSource::Scene(scene))
        },
    }
}

/// The scenes that the enabled layers show, in ascending order, or the failure of
/// the first enabled layer whose source is missing.
pub open spec fn dependencies(project: Project, layers: Seq<Layer>) -> Result<
    Seq<SceneId>,
    NativeProjectPlanError,
>
    decreases layers.len(),
{
    if layers.len() == 0 {
        Ok(Seq::empty())
    } else {
        match dependencies(project, layers.drop_last()) {
            Err(error) => Err(error),
            Ok(scenes) => if !layers.last().enabled {
                Ok(scenes)
            } else {
                match resolved_source(project, layers.last().source) {
                    Err(error) => Err(error),
                    Ok(NativeSceneSource::Leaf(_)) => Ok(scenes),
                    Ok(NativeSceneSource::Scene(scene)) => Ok(ordered::with_key(scenes, scene)),
                }
            },
        }
    }
}

/// The scenes that the scene `id` shows.
pub open spec fn scene_dependencies(project: Project, id: SceneId) -> Result<
    Seq<SceneId>,
    NativeProjectPlanError,
> {
    match scene_model(project, id) {
        None => Err(NativeProjectPlanError::MissingScene(id)),
        Some(model) => dependencies(project, model.layers@),
    }
}

/// How many scenes of the project are not being visited.
pub open spec fn unvisited(project: Project, visiting: Set<SceneId>) -> nat {
    scene_models(project).dom().difference(visiting).len()
}

/// A scene that begins to be visited leaves one fewer to visit.
pub proof fn lemma_unvisited_decreases(project: Project, visiting: Set<SceneId>, scene: SceneId)
    requires
        scene_models(project).contains_key(scene),
        !visiting.contains(scene),
    ensures
        unvisited(project, visiting.insert(scene)) < unvisited(project, visiting),
{
    let pairs = Seq::new(
        project.scenes@.len(),
        |i: int| (project.scenes@[i].id, project.scenes@[i]),
    );
    ordered::lemma_collected(pairs);
    let left = scene_models(project).dom().difference(visiting);
    assert(scene_models(project).dom().difference(visiting.insert(scene)) =~= left.remove(scene));
    assert(left.contains(scene));
}

/// The composition order after `scene`, and everything it shows, has been added to
/// `order`: each scene comes after the scenes it shows, which are taken in ascending
/// order. `visiting` holds the scenes that are waiting for this one.
pub open spec fn visited(
    project: Project,
    scene: SceneId,
    visiting: Set<SceneId>,
    order: Seq<SceneId>,
) -> Result<Seq<SceneId>, NativeProjectPlanError>
    decreases unvisited(project, visiting), 0nat,
{
    if order.contains(scene) {
        Ok(order)
    } else if visiting.contains(scene) {
        Err(NativeProjectPlanError::SceneCycle { scene })
    } else {
        match scene_dependencies(project, scene) {
            Err(error) => Err(error),
            Ok(shown) => {
                proof {
                    lemma_unvisited_decreases(project, visiting, scene);
                }
                match all_visited(project, shown, visiting.insert(scene), order) {
                    Err(error) => Err(error),
                    Ok(extended) => Ok(extended.push(scene)),
                }
            },
        }
    }
}

/// The composition order after all of `scenes` have been added to `order` in turn.
pub open spec fn all_visited(
    project: Project,
    scenes: Seq<SceneId>,
    visiting: Set<SceneId>,
    order: Seq<SceneId>,
) -> Result<Seq<SceneId>, NativeProjectPlanError>
    decreases unvisited(project, visiting), scenes.len(),
{
    if scenes.len() == 0 {
        Ok(order)
    } else {
        match all_visited(project, scenes.drop_last(), visiting, order) {
            Err(error) => Err(error),
            Ok(extended) => visited(project, scenes.last(), visiting, extended),
        }
    }
}

/// Whether the scene `a` shows the scene `b`.
pub open spec fn shows(project: Project, a: SceneId, b: SceneId) -> bool {
    match scene_dependencies(project, a) {
        Ok(scenes) => scenes.contains(b),
        Err(_) => false,
    }
}

/// Whether the scene at place `i` of `walk` shows the next one.
pub open spec fn steps(project: Project, walk: Seq<SceneId>, i: int) -> bool {
    shows(project, walk[i], walk[i + 1])
}

/// Whether each scene of `walk` shows the next one.
pub open spec fn is_walk(project: Project, walk: Seq<SceneId>) -> bool {
    walk.len() > 0 && forall|i: int| 0 <= i < walk.len() - 1 ==> #[trigger] steps(project, walk, i)
}

/// Whether a walk leads from `a` to `b`.
pub open spec fn reaches(project: Project, a: SceneId, b: SceneId) -> bool {
    exists|walk: Seq<SceneId>| #[trigger]
        is_walk(project, walk) && walk[0] == a && walk.last() == b
}

/// Whether a scene is shown, directly or not, by itself.
pub open spec fn on_cycle(project: Project, scene: SceneId) -> bool {
    exists|walk: Seq<SceneId>| #[trigger]
        is_walk(project, walk) && walk.len() > 1 && walk[0] == scene && walk.last() == scene
}

/// Whether no scene occurs twice and each stands after all the scenes it shows.
pub open spec fn dependency_first(project: Project, order: Seq<SceneId>) -> bool {
    &&& order.no_duplicates()
    &&& forall|i: int| 0 <= i < order.len() ==> (#[trigger] scene_dependencies(project, order[i])) is Ok
    &&& forall|i: int, b: SceneId|
        0 <= i < order.len() && #[trigger] shows(project, order[i], b) ==> order.take(i).contains(b)
}

/// Finds the input `id`.
pub fn find_input(project: &Project, id: InputId) -> (found: Option<&Input>)
    ensures
        match found {
            Some(input) => input_model(*project, id) == Some(*input),
            None => input_model(*project, id) is None,
        },
{
    let ghost pairs = Seq::new(
        project.inputs@.len(),
        |i: int| (project.inputs@[i].id, project.inputs@[i]),
    );
    proof {
        ordered::lemma_collected(pairs);
    }
    let mut i: usize = project.inputs.len();
    while i > 0
        invariant
            i <= project.inputs@.len(),
            pairs == Seq::new(
                project.inputs@.len(),
                |k: int| (project.inputs@[k].id, project.inputs@[k]),
            ),
            forall|j: int| i <= j < pairs.len() ==> (#[trigger] pairs[j]).0 != id,
        decreases i,
    {
        i = i - 1;
        if project.inputs[i].id == id {
            proof {
                ordered::lemma_collected(pairs);
                assert(pairs[i as int].0 == id);
                assert(ordered::collected(pairs).contains_key(id));
            }
            return Some(&project.inputs[i]);
        }
    }
    None
}

/// Finds the scene `id`.
pub fn find_scene(project: &Project, id: SceneId) -> (found: Option<&Scene>)
    ensures
        match found {
            Some(scene) => scene_model(*project, id) == Some(*scene),
            None => scene_model(*project, id) is None,
        },
{
    let ghost pairs = Seq::new(
        project.scenes@.len(),
        |i: int| (project.scenes@[i].id, project.scenes@[i]),
    );
    proof {
        ordered::lemma_collected(pairs);
    }
    let mut i: usize = project.scenes.len();
    while i > 0
        invariant
            i <= project.scenes@.len(),
            pairs == Seq::new(
                project.scenes@.len(),
                |k: int| (project.scenes@[k].id, project.scenes@[k]),
            ),
            forall|j: int| i <= j < pairs.len() ==> (#[trigger] pairs[j]).0 != id,
        decreases i,
    {
        i = i - 1;
        if project.scenes[i].id == id {
            proof {
                ordered::lemma_collected(pairs);
                assert(pairs[i as int].0 == id);
                assert(ordered::collected(pairs).contains_key(id));
            }
            return Some(&project.scenes[i]);
        }
    }
    None
}

/// Finds what feeds a layer that shows `source`.
pub fn resolve_scene_source(source: SourceRef, project: &Project) -> (resolved: Result<
    NativeSceneSource,
    NativeProjectPlanError,
>)
    ensures
        resolved == resolved_source(*project, source),
{
    match source {
        SourceRef::Input(input) => {
            match find_input(project, input) {
                None => Err(NativeProjectPlanError::MissingInput(input)),
                Some(model) => match model.kind {
                    InputKind::Scene { scene_id, .. } => {
                        if find_scene(project, scene_id).is_none() {
                            return Err(NativeProjectPlanError::MissingScene(scene_id));
                        }
                        Ok(NativeSceneSource::Scene(scene_id))
                    },
                    InputKind::Media => Ok(NativeSceneSource::Leaf(input)),
                },
            }
        },
        SourceRef::Scene(scene) => {
            if find_scene(project, scene).is_none() {
                return Err(NativeProjectPlanError::MissingScene(scene));
            }
            Ok(NativeSceneSource::Scene(scene))
        },
    }
}

proof fn lemma_dependencies_fail_early(project: Project, layers: Seq<Layer>, count: int)
    requires
        0 <= count <= layers.len(),
        dependencies(project, layers.take(count)) is Err,
    ensures
        dependencies(project, layers) == dependencies(project, layers.take(count)),
    decreases layers.len() - count,
{
    if count < layers.len() {
        assert(layers.take(count + 1).drop_last() =~= layers.take(count));
        lemma_dependencies_fail_early(project, layers, count + 1);
    } else {
        assert(layers.take(count) =~= layers);
    }
}

/// The scenes among the dependencies stand in ascending order.
pub proof fn lemma_dependencies_ascend(project: Project, layers: Seq<Layer>)
    ensures
        dependencies(project, layers) matches Ok(scenes) ==> ordered::ascending(scenes),
    decreases layers.len(),
{
    if layers.len() > 0 {
        lemma_dependencies_ascend(project, layers.drop_last());
        if let Ok(scenes) = dependencies(project, layers.drop_last()) {
            if let Ok(NativeSceneSource::Scene(scene)) = resolved_source(
                project,
                layers.last().source,
            ) {
                ordered::lemma_with_key(scenes, scene);
            }
        }
    }
}

/// Lists the scenes that the enabled layers show.
fn collect_dependencies(project: &Project, layers: &Vec<Layer>) -> (shown: Result<
    Vec<SceneId>,
    NativeProjectPlanError,
>)
    ensures
        match shown {
            Ok(scenes) => dependencies(*project, layers@) == Ok::<
                Seq<SceneId>,
                NativeProjectPlanError,
            >(scenes@),
            Err(error) => dependencies(*project, layers@) == Err::<
                Seq<SceneId>,
                NativeProjectPlanError,
            >(error),
        },
{
    let mut scenes: Vec<SceneId> = Vec::new();
    assert(layers@.take(0) =~= Seq::<Layer>::empty());
    let mut i: usize = 0;
    while i < layers.len()
        invariant
            i <= layers@.len(),
            dependencies(*project, layers@.take(i as int)) == Ok::<
                Seq<SceneId>,
                NativeProjectPlanError,
            >(scenes@),
        decreases layers@.len() - i,
    {
        proof {
            assert(layers@.take(i + 1).drop_last() =~= layers@.take(i as int));
            assert(layers@.take(i + 1).last() == layers@[i as int]);
            lemma_dependencies_ascend(*project, layers@.take(i as int));
        }
        if layers[i].enabled {
            match resolve_scene_source(layers[i].source, project) {
                Err(error) => {
                    proof {
                        lemma_dependencies_fail_early(*project, layers@, i + 1);
                    }
                    return Err(error);
                },
                Ok(NativeSceneSource::Leaf(_)) => {},
                Ok(NativeSceneSource::Scene(scene)) => {
                    insert_key(&mut scenes, scene);
                },
            }
        }
        i = i + 1;
    }
    assert(layers@.take(i as int) =~= layers@);
    Ok(scenes)
}

proof fn lemma_all_visited_fail_early(
    project: Project,
    scenes: Seq<SceneId>,
    visiting: Set<SceneId>,
    order: Seq<SceneId>,
    count: int,
)
    requires
        0 <= count <= scenes.len(),
        all_visited(project, scenes.take(count), visiting, order) is Err,
    ensures
        all_visited(project, scenes, visiting, order) == all_visited(
            project,
            scenes.take(count),
            visiting,
            order,
        ),
    decreases scenes.len() - count,
{
    if count < scenes.len() {
        assert(scenes.take(count + 1).drop_last() =~= scenes.take(count));
        lemma_all_visited_fail_early(project, scenes, visiting, order, count + 1);
    } else {
        assert(scenes.take(count) =~= scenes);
    }
}

/// Adds `scene`, after everything it shows, to the composition order.
pub fn visit_native_scene(
    scene: SceneId,
    project: &Project,
    visiting: &mut Vec<SceneId>,
    order: &mut Vec<SceneId>,
) -> (result: Result<(), NativeProjectPlanError>)
    ensures
        match result {
            Ok(_) => visited(*project, scene, old(visiting)@.to_set(), old(order)@) == Ok::<
                Seq<SceneId>,
                NativeProjectPlanError,
            >(final(order)@) && final(visiting)@ == old(visiting)@,
            Err(error) => visited(*project, scene, old(visiting)@.to_set(), old(order)@) == Err::<
                Seq<SceneId>,
                NativeProjectPlanError,
            >(error),
        },
    decreases unvisited(*project, old(visiting)@.to_set()),
{
    if lists_key(order, scene) {
        return Ok(());
    }
    if lists_key(visiting, scene) {
        return Err(NativeProjectPlanError::SceneCycle { scene });
    }
    let model: &Scene = match find_scene(project, scene) {
        None => {
            return Err(NativeProjectPlanError::MissingScene(scene));
        },
        Some(model) => model,
    };
    let shown: Vec<SceneId> = match collect_dependencies(project, &model.layers) {
        Err(error) => {
            return Err(error);
        },
        Ok(shown) => shown,
    };
    let ghost waiting = visiting@.to_set();
    proof {
        ordered::lemma_push_to_set(visiting@, scene);
        lemma_unvisited_decreases(*project, waiting, scene);
    }
    visiting.push(scene);
    assert(shown@.take(0) =~= Seq::<SceneId>::empty());
    let ghost before = order@;
    let ghost stack = visiting@;
    let mut i: usize = 0;
    while i < shown.len()
        invariant
            i <= shown@.len(),
            visiting@ == stack,
            stack.to_set() == waiting.insert(scene),
            waiting == old(visiting)@.to_set(),
            unvisited(*project, waiting.insert(scene)) < unvisited(*project, waiting),
            all_visited(*project, shown@.take(i as int), waiting.insert(scene), before) == Ok::<
                Seq<SceneId>,
                NativeProjectPlanError,
            >(order@),
            scene_dependencies(*project, scene) == Ok::<Seq<SceneId>, NativeProjectPlanError>(
                shown@,
            ),
            before == old(order)@,
            !before.contains(scene),
            !waiting.contains(scene),
        decreases shown@.len() - i,
    {
        proof {
            assert(shown@.take(i + 1).drop_last() =~= shown@.take(i as int));
            assert(shown@.take(i + 1).last() == shown@[i as int]);
        }
        match visit_native_scene(shown[i], project, visiting, order) {
            Err(error) => {
                proof {
                    lemma_all_visited_fail_early(
                        *project,
                        shown@,
                        waiting.insert(scene),
                        before,
                        i + 1,
                    );
                }
                return Err(error);
            },
            Ok(_) => {},
        }
        i = i + 1;
    }
    assert(shown@.take(i as int) =~= shown@);
    visiting.pop();
    assert(visiting@ =~= old(visiting)@);
    order.push(scene);
    Ok(())
}

/// Adds every scene of `roots` to an empty composition order.
pub fn visit_native_scenes(roots: &Vec<SceneId>, project: &Project) -> (result: Result<
    Vec<SceneId>,
    NativeProjectPlanError,
>)
    ensures
        match result {
            Ok(order) => all_visited(*project, roots@, Set::empty(), Seq::empty()) == Ok::<
                Seq<SceneId>,
                NativeProjectPlanError,
            >(order@),
            Err(error) => all_visited(*project, roots@, Set::empty(), Seq::empty()) == Err::<
                Seq<SceneId>,
                NativeProjectPlanError,
            >(error),
        },
{
    let mut order: Vec<SceneId> = Vec::new();
    let mut visiting: Vec<SceneId> = Vec::new();
    assert(roots@.take(0) =~= Seq::<SceneId>::empty());
    assert(visiting@.to_set() =~= Set::<SceneId>::empty());
    let mut i: usize = 0;
    while i < roots.len()
        invariant
            i <= roots@.len(),
            visiting@.len() == 0,
            visiting@.to_set() == Set::<SceneId>::empty(),
            all_visited(*project, roots@.take(i as int), Set::empty(), Seq::empty()) == Ok::<
                Seq<SceneId>,
                NativeProjectPlanError,
            >(order@),
        decreases roots@.len() - i,
    {
        proof {
            assert(roots@.take(i + 1).drop_last() =~= roots@.take(i as int));
            assert(roots@.take(i + 1).last() == roots@[i as int]);
        }
        match visit_native_scene(roots[i], project, &mut visiting, &mut order) {
            Err(error) => {
                proof {
                    lemma_all_visited_fail_early(
                        *project,
                        roots@,
                        Set::empty(),
                        Seq::empty(),
                        i + 1,
                    );
                }
                return Err(error);
            },
            Ok(_) => {},
        }
        i = i + 1;
    }
    assert(roots@.take(i as int) =~= roots@);
    Ok(order)
}

proof fn lemma_single_walk(project: Project, scene: SceneId)
    ensures
        reaches(project, scene, scene),
{
    assert(is_walk(project, seq![scene]));
    assert(seq![scene].last() == scene);
}

proof fn lemma_walk_step(project: Project, first: SceneId, walk: Seq<SceneId>)
    requires
        is_walk(project, walk),
        shows(project, first, walk[0]),
    ensures
        is_walk(project, seq![first] + walk),
        (seq![first] + walk)[0] == first,
        (seq![first] + walk).last() == walk.last(),
        (seq![first] + walk).len() == walk.len() + 1,
{
    let longer = seq![first] + walk;
    assert forall|i: int| 0 <= i < longer.len() - 1 implies #[trigger] steps(
        project,
        longer,
        i,
    ) by {
        if i == 0 {
            assert(longer[0] == first && longer[1] == walk[0]);
        } else {
            assert(steps(project, walk, i - 1));
            assert(longer[i] == walk[i - 1] && longer[i + 1] == walk[i]);
        }
    }
    assert(longer.last() == walk.last());
}

proof fn lemma_reaches_step(project: Project, a: SceneId, b: SceneId, c: SceneId)
    requires
        shows(project, a, b),
        reaches(project, b, c),
    ensures
        reaches(project, a, c),
{
    let walk = choose|walk: Seq<SceneId>| #[trigger]
        is_walk(project, walk) && walk[0] == b && walk.last() == c;
    lemma_walk_step(project, a, walk);
    assert(is_walk(project, seq![a] + walk));
}

/// What one visit does to a composition order.
pub open spec fn extends_order(
    project: Project,
    order: Seq<SceneId>,
    visiting: Set<SceneId>,
    extended: Seq<SceneId>,
) -> bool {
    &&& order.len() <= extended.len()
    &&& extended.take(order.len() as int) == order
    &&& dependency_first(project, extended)
    &&& forall|i: int|
        order.len() <= i < extended.len() ==> !visiting.contains(#[trigger] extended[i])
}

proof fn lemma_visited(
    project: Project,
    scene: SceneId,
    visiting: Set<SceneId>,
    order: Seq<SceneId>,
)
    requires
        dependency_first(project, order),
        visited(project, scene, visiting, order) is Ok,
    ensures
        extends_order(project, order, visiting, visited(project, scene, visiting, order)->Ok_0),
        visited(project, scene, visiting, order)->Ok_0.contains(scene),
        forall|i: int|
            order.len() <= i < visited(project, scene, visiting, order)->Ok_0.len() ==> reaches(
                project,
                scene,
                #[trigger] visited(project, scene, visiting, order)->Ok_0[i],
            ),
    decreases unvisited(project, visiting), 0nat,
{
    let result = visited(project, scene, visiting, order)->Ok_0;
    if order.contains(scene) {
        assert(order.take(order.len() as int) =~= order);
    } else {
        let shown = scene_dependencies(project, scene)->Ok_0;
        lemma_unvisited_decreases(project, visiting, scene);
        let inner = visiting.insert(scene);
        lemma_all_visited(project, shown, inner, order);
        let extended = all_visited(project, shown, inner, order)->Ok_0;
        assert(result == extended.push(scene));
        assert(result[extended.len() as int] == scene);
        assert(!extended.contains(scene)) by {
            if extended.contains(scene) {
                let i = choose|i: int| 0 <= i < extended.len() && extended[i] == scene;
                if i < order.len() {
                    assert(extended.take(order.len() as int)[i] == extended[i]);
                    assert(order.contains(scene));
                } else {
                    assert(!inner.contains(extended[i]));
                }
            }
        }
        assert(result.no_duplicates()) by {
            assert forall|i: int, j: int|
                0 <= i < result.len() && 0 <= j < result.len() && i != j implies result[i]
                != result[j] by {
                if i < extended.len() && j < extended.len() {
                    assert(extended[i] != extended[j]);
                } else if i < extended.len() {
                    assert(extended.contains(extended[i]));
                } else {
                    assert(extended.contains(extended[j]));
                }
            }
        }
        assert forall|i: int| 0 <= i < result.len() implies (#[trigger] scene_dependencies(
            project,
            result[i],
        )) is Ok by {
            if i < extended.len() {
                assert(result[i] == extended[i]);
            }
        }
        assert forall|i: int, b: SceneId|
            0 <= i < result.len() && #[trigger] shows(
                project,
                result[i],
                b,
            ) implies result.take(i).contains(b) by {
            if i < extended.len() {
                assert(result[i] == extended[i]);
                assert(extended.take(i).contains(b));
                assert(result.take(i) =~= extended.take(i));
            } else {
                assert(shown.contains(b));
                assert(extended.contains(b));
                assert(result.take(i) =~= extended);
            }
        }
        assert(result.take(order.len() as int) =~= extended.take(order.len() as int));
        assert forall|i: int| order.len() <= i < result.len() implies !visiting.contains(
            #[trigger] result[i],
        ) && reaches(project, scene, result[i]) by {
            if i < extended.len() {
                assert(!inner.contains(extended[i]));
                let k = choose|k: int|
                    0 <= k < shown.len() && reaches(project, #[trigger] shown[k], extended[i]);
                assert(shown.contains(shown[k]));
                assert(shows(project, scene, shown[k]));
                lemma_reaches_step(project, scene, shown[k], extended[i]);
            } else {
                lemma_single_walk(project, scene);
            }
        }
    }
}

proof fn lemma_all_visited(
    project: Project,
    scenes: Seq<SceneId>,
    visiting: Set<SceneId>,
    order: Seq<SceneId>,
)
    requires
        dependency_first(project, order),
        all_visited(project, scenes, visiting, order) is Ok,
    ensures
        extends_order(project, order, visiting, all_visited(project, scenes, visiting, order)->Ok_0),
        forall|scene: SceneId| #[trigger]
            scenes.contains(scene) ==> all_visited(
                project,
                scenes,
                visiting,
                order,
            )->Ok_0.contains(scene),
        forall|i: int|
            #![trigger all_visited(project, scenes, visiting, order)->Ok_0[i]]
            order.len() <= i < all_visited(project, scenes, visiting, order)->Ok_0.len() ==> exists|
                k: int,
            |
                0 <= k < scenes.len() && reaches(
                    project,
                    #[trigger] scenes[k],
                    all_visited(project, scenes, visiting, order)->Ok_0[i],
                ),
    decreases unvisited(project, visiting), scenes.len(),
{
    if scenes.len() == 0 {
        assert(order.take(order.len() as int) =~= order);
    } else {
        let init = scenes.drop_last();
        lemma_all_visited(project, init, visiting, order);
        let middle = all_visited(project, init, visiting, order)->Ok_0;
        lemma_visited(project, scenes.last(), visiting, middle);
        let result = all_visited(project, scenes, visiting, order)->Ok_0;
        assert(result == visited(project, scenes.last(), visiting, middle)->Ok_0);
        assert(result.take(order.len() as int) =~= middle.take(order.len() as int)) by {
            assert(result.take(middle.len() as int) == middle);
            assert forall|i: int| 0 <= i < order.len() implies result[i] == middle[i] by {
                assert(result.take(middle.len() as int)[i] == result[i]);
            }
        }
        assert forall|i: int| 0 <= i < middle.len() implies result[i] == middle[i] by {
            assert(result.take(middle.len() as int)[i] == result[i]);
        }
        assert forall|scene: SceneId| #[trigger] scenes.contains(scene) implies result.contains(
            scene,
        ) by {
            let k = choose|k: int| 0 <= k < scenes.len() && scenes[k] == scene;
            if k < init.len() {
                assert(init[k] == scene);
                assert(init.contains(scene));
                let i = choose|i: int| 0 <= i < middle.len() && middle[i] == scene;
                assert(result[i] == scene);
            }
        }
        assert forall|i: int|
            #![trigger result[i]]
            order.len() <= i < result.len() implies !visiting.contains(result[i]) && exists|k: int|
            0 <= k < scenes.len() && reaches(project, #[trigger] scenes[k], result[i]) by {
            if i < middle.len() {
                assert(result[i] == middle[i]);
                let k = choose|k: int|
                    0 <= k < init.len() && reaches(project, #[trigger] init[k], middle[i]);
                assert(scenes[k] == init[k]);
            } else {
                assert(reaches(project, scenes[scenes.len() - 1], result[i]));
            }
        }
    }
}

/// Where the roots can be ordered at all, no scene of the order occurs twice and each
/// stands after every scene it shows.
pub proof fn scene_order_is_dependency_first(project: Project, roots: Seq<SceneId>)
    requires
        all_visited(project, roots, Set::empty(), Seq::empty()) is Ok,
    ensures
        dependency_first(project, all_visited(project, roots, Set::empty(), Seq::empty())->Ok_0),
{
    lemma_all_visited(project, roots, Set::empty(), Seq::empty());
}

/// The order holds exactly the scenes that a walk from one of the roots leads to.
pub proof fn scene_order_is_what_the_roots_reach(
    project: Project,
    roots: Seq<SceneId>,
    scene: SceneId,
)
    requires
        all_visited(project, roots, Set::empty(), Seq::empty()) is Ok,
    ensures
        all_visited(project, roots, Set::empty(), Seq::empty())->Ok_0.contains(scene) <==> exists|
            k: int,
        |
            0 <= k < roots.len() && reaches(project, #[trigger] roots[k], scene),
{
    lemma_all_visited(project, roots, Set::empty(), Seq::empty());
    let order = all_visited(project, roots, Set::empty(), Seq::empty())->Ok_0;
    if exists|k: int| 0 <= k < roots.len() && reaches(project, #[trigger] roots[k], scene) {
        let k = choose|k: int| 0 <= k < roots.len() && reaches(project, #[trigger] roots[k], scene);
        let walk = choose|walk: Seq<SceneId>| #[trigger]
            is_walk(project, walk) && walk[0] == roots[k] && walk.last() == scene;
        assert(roots.contains(roots[k]));
        lemma_order_is_closed(project, order, walk);
    }
    if order.contains(scene) {
        let i = choose|i: int| 0 <= i < order.len() && order[i] == scene;
        assert(exists|k: int| 0 <= k < roots.len() && reaches(project, #[trigger] roots[k], order[i]));
    }
}

proof fn lemma_order_is_closed(project: Project, order: Seq<SceneId>, walk: Seq<SceneId>)
    requires
        dependency_first(project, order),
        is_walk(project, walk),
        order.contains(walk[0]),
    ensures
        order.contains(walk.last()),
    decreases walk.len(),
{
    if walk.len() > 1 {
        let i = choose|i: int| 0 <= i < order.len() && order[i] == walk[0];
        assert(steps(project, walk, 0));
        assert(shows(project, order[i], walk[1]));
        assert(order.take(i).contains(walk[1]));
        let j = choose|j: int| 0 <= j < order.take(i).len() && order.take(i)[j] == walk[1];
        assert(order[j] == walk[1]);
        let rest = walk.subrange(1, walk.len() as int);
        assert forall|k: int| 0 <= k < rest.len() - 1 implies #[trigger] steps(
            project,
            rest,
            k,
        ) by {
            assert(steps(project, walk, k + 1));
            assert(rest[k] == walk[k + 1] && rest[k + 1] == walk[k + 2]);
        }
        assert(rest.last() == walk.last());
        lemma_order_is_closed(project, order, rest);
    }
}

/// Where the roots can be ordered at all, no scene of the order lies on a cycle.
pub proof fn ordered_scenes_are_acyclic(project: Project, roots: Seq<SceneId>, scene: SceneId)
    requires
        all_visited(project, roots, Set::empty(), Seq::empty()) is Ok,
        all_visited(project, roots, Set::empty(), Seq::empty())->Ok_0.contains(scene),
    ensures
        !on_cycle(project, scene),
{
    lemma_all_visited(project, roots, Set::empty(), Seq::empty());
    let order = all_visited(project, roots, Set::empty(), Seq::empty())->Ok_0;
    if on_cycle(project, scene) {
        let walk = choose|walk: Seq<SceneId>| #[trigger]
            is_walk(project, walk) && walk.len() > 1 && walk[0] == scene && walk.last() == scene;
        let i = choose|i: int| 0 <= i < order.len() && order[i] == scene;
        lemma_walk_descends(project, order, walk, i);
        let j = choose|j: int|
            0 <= j < order.len() && #[trigger] order[j] == walk.last() && j <= i - (walk.len() - 1);
        assert(order[j] == order[i]);
    }
}

proof fn lemma_walk_descends(project: Project, order: Seq<SceneId>, walk: Seq<SceneId>, i: int)
    requires
        dependency_first(project, order),
        is_walk(project, walk),
        0 <= i < order.len(),
        order[i] == walk[0],
    ensures
        exists|j: int|
            0 <= j < order.len() && #[trigger] order[j] == walk.last() && j <= i - (walk.len() - 1),
    decreases walk.len(),
{
    if walk.len() == 1 {
        assert(order[i] == walk.last());
    } else {
        assert(steps(project, walk, 0));
        assert(shows(project, order[i], walk[1]));
        assert(order.take(i).contains(walk[1]));
        let j = choose|j: int| 0 <= j < order.take(i).len() && order.take(i)[j] == walk[1];
        assert(order[j] == walk[1]);
        let rest = walk.subrange(1, walk.len() as int);
        assert forall|k: int| 0 <= k < rest.len() - 1 implies #[trigger] steps(
            project,
            rest,
            k,
        ) by {
            assert(steps(project, walk, k + 1));
            assert(rest[k] == walk[k + 1] && rest[k + 1] == walk[k + 2]);
        }
        assert(rest.last() == walk.last());
        lemma_walk_descends(project, order, rest, j);
    }
}

/// Whether `stack` is a walk of the waiting scenes that ends in one showing `scene`.
pub open spec fn waits_for(
    project: Project,
    stack: Seq<SceneId>,
    visiting: Set<SceneId>,
    scene: SceneId,
) -> bool {
    &&& stack.to_set() == visiting
    &&& stack.len() > 0 ==> is_walk(project, stack) && shows(project, stack.last(), scene)
}

proof fn lemma_cycle_found(
    project: Project,
    scene: SceneId,
    visiting: Set<SceneId>,
    order: Seq<SceneId>,
    stack: Seq<SceneId>,
)
    requires
        waits_for(project, stack, visiting, scene),
        visited(project, scene, visiting, order) is Err,
    ensures
        match visited(project, scene, visiting, order)->Err_0 {
            NativeProjectPlanError::SceneCycle { scene: reported } => on_cycle(project, reported),
            _ => true,
        },
    decreases unvisited(project, visiting), 0nat,
{
    if visiting.contains(scene) {
        assert(stack.to_set().contains(scene));
        assert(stack.contains(scene));
        let i = choose|i: int| 0 <= i < stack.len() && stack[i] == scene;
        let tail = stack.subrange(i, stack.len() as int);
        let walk = tail.push(scene);
        assert(tail.last() == stack.last());
        assert forall|k: int| 0 <= k < walk.len() - 1 implies #[trigger] steps(
            project,
            walk,
            k,
        ) by {
            if k < tail.len() - 1 {
                assert(steps(project, stack, i + k));
                assert(walk[k] == stack[i + k] && walk[k + 1] == stack[i + k + 1]);
            } else {
                assert(walk[k] == stack.last() && walk[k + 1] == scene);
            }
        }
        assert(is_walk(project, walk) && walk[0] == scene && walk.last() == scene);
    } else if scene_dependencies(project, scene) is Ok {
        let shown = scene_dependencies(project, scene)->Ok_0;
        lemma_unvisited_decreases(project, visiting, scene);
        let longer = stack.push(scene);
        ordered::lemma_push_to_set(stack, scene);
        assert forall|k: int| 0 <= k < longer.len() - 1 implies #[trigger] steps(
            project,
            longer,
            k,
        ) by {
            if k < stack.len() - 1 {
                assert(steps(project, stack, k));
                assert(longer[k] == stack[k] && longer[k + 1] == stack[k + 1]);
            } else {
                assert(longer[k] == stack.last() && longer[k + 1] == scene);
            }
        }
        assert(longer.last() == scene);
        lemma_cycles_found(project, shown, visiting.insert(scene), order, longer);
    } else if let Some(model) = scene_model(project, scene) {
        lemma_dependencies_report_no_cycle(project, model.layers@);
    }
}

proof fn lemma_dependencies_report_no_cycle(project: Project, layers: Seq<Layer>)
    ensures
        dependencies(project, layers) matches Err(error) ==> !(error is SceneCycle),
    decreases layers.len(),
{
    if layers.len() > 0 {
        lemma_dependencies_report_no_cycle(project, layers.drop_last());
    }
}

proof fn lemma_cycles_found(
    project: Project,
    scenes: Seq<SceneId>,
    visiting: Set<SceneId>,
    order: Seq<SceneId>,
    stack: Seq<SceneId>,
)
    requires
        stack.to_set() == visiting,
        stack.len() > 0 ==> is_walk(project, stack) && forall|scene: SceneId| #[trigger]
            scenes.contains(scene) ==> shows(project, stack.last(), scene),
        all_visited(project, scenes, visiting, order) is Err,
    ensures
        match all_visited(project, scenes, visiting, order)->Err_0 {
            NativeProjectPlanError::SceneCycle { scene: reported } => on_cycle(project, reported),
            _ => true,
        },
    decreases unvisited(project, visiting), scenes.len(),
{
    if scenes.len() > 0 {
        let init = scenes.drop_last();
        assert forall|scene: SceneId| #[trigger] init.contains(scene) implies scenes.contains(
            scene,
        ) by {
            let i = choose|i: int| 0 <= i < init.len() && init[i] == scene;
            assert(scenes[i] == scene);
        }
        match all_visited(project, init, visiting, order) {
            Err(_) => {
                lemma_cycles_found(project, init, visiting, order, stack);
            },
            Ok(middle) => {
                assert(scenes.contains(scenes.last()));
                lemma_cycle_found(project, scenes.last(), visiting, middle, stack);
            },
        }
    }
}

/// A reported scene cycle is real: the reported scene is shown, directly or not, by
/// itself.
pub proof fn reported_scene_cycle_is_real(project: Project, roots: Seq<SceneId>)
    ensures
        match all_visited(project, roots, Set::empty(), Seq::empty()) {
            Err(NativeProjectPlanError::SceneCycle { scene }) => on_cycle(project, scene),
            _ => true,
        },
{
    if all_visited(project, roots, Set::empty(), Seq::empty()) is Err {
        assert(Seq::<SceneId>::empty().to_set() =~= Set::<SceneId>::empty());
        lemma_cycles_found(project, roots, Set::empty(), Seq::empty(), Seq::empty());
    }
}

} // verus!
