//! Which scenes a program frame needs, and how often each of them is shown.
use vstd::prelude::*;

use crate::model::{InputId, SceneId};
use crate::ordered;
use crate::ordered::{contains_key, insert_key, insert_keys, OrderedMap};
use crate::scene_graph::NativeSceneSource;

verus! {

/// Targets that stay in flight while a frame is composed.
pub const NATIVE_PROJECT_IN_FLIGHT_SLOTS: usize = 1;

/// A schema input's native video realization route.
#[derive(Clone, Copy, Debug, PartialEq, Eq, Structural)]
pub enum NativeVideoRoute {
    Leaf(InputId),
    Scene(SceneId),
}

/// A scene that the compositor has compiled.
#[derive(Clone, Copy, Debug, PartialEq, Eq, Structural)]
pub struct Composition {
    /// The number by which the caller finds the compiled scene again.
    pub handle: u64,
    /// How many layers the compiled scene draws.
    pub layer_count: usize,
}

/// One scene of a compiled project.
pub struct NativeScenePlan {
    pub id: SceneId,
    /// The token under which other scenes take this scene's picture.
    pub output: u64,
    pub composition: Composition,
    /// The token of each source that the scene shows.
    pub sources: OrderedMap<NativeSceneSource, u64>,
}

/// What one scene of a compiled project holds.
#[verifier::ext_equal]
pub struct ScenePlanModel {
    pub id: SceneId,
    pub output: u64,
    pub composition: Composition,
    pub sources: Seq<(NativeSceneSource, u64)>,
}

impl View for NativeScenePlan {
    type V = ScenePlanModel;

    open spec fn view(&self) -> ScenePlanModel {
        ScenePlanModel {
            id: self.id,
            output: self.output,
            composition: self.composition,
            sources: self.sources.entries@,
        }
    }
}

/// What the scenes of a compiled project hold.
pub open spec fn scene_views(scenes: Seq<NativeScenePlan>) -> Seq<ScenePlanModel> {
    Seq::new(scenes.len(), |i: int| scenes[i]@)
}

/// The scenes among the sources, in the order of the sources.
pub open spec fn shown_scenes(sources: Seq<(NativeSceneSource, u64)>) -> Seq<SceneId>
    decreases sources.len(),
{
    if sources.len() == 0 {
        Seq::empty()
    } else {
        match sources.last().0 {
            NativeSceneSource::Scene(scene) => shown_scenes(sources.drop_last()).push(scene),
            NativeSceneSource::Leaf(_) => shown_scenes(sources.drop_last()),
        }
    }
}

impl NativeScenePlan {
    /// The scenes that this scene shows.
    pub fn scene_dependencies(&self) -> (scenes: Vec<SceneId>)
        ensures
            scenes@ == shown_scenes(self@.sources),
    {
        let sources = &self.sources.entries;
        let mut scenes: Vec<SceneId> = Vec::new();
        assert(sources@.take(0) =~= Seq::<(NativeSceneSource, u64)>::empty());
        let mut i: usize = 0;
        while i < sources.len()
            invariant
                i <= sources@.len(),
                scenes@ == shown_scenes(sources@.take(i as int)),
            decreases sources@.len() - i,
        {
            proof {
                assert(sources@.take(i + 1).drop_last() =~= sources@.take(i as int));
                assert(sources@.take(i + 1).last() == sources@[i as int]);
            }
            match sources[i].0 {
                NativeSceneSource::Scene(scene) => {
                    scenes.push(scene);
                },
                NativeSceneSource::Leaf(_) => {},
            }
            i = i + 1;
        }
        assert(sources@.take(i as int) =~= sources@);
        scenes
    }
}

/// The scenes that one frame composes.
pub struct NativeSceneExecution {
    /// The scenes that the frame shows itself, in ascending order.
    pub roots: Vec<SceneId>,
    /// The roots and every scene that they need, in ascending order.
    pub required: Vec<SceneId>,
    /// How many required scenes show each required scene.
    pub remaining_consumers: OrderedMap<SceneId, usize>,
}

/// What the scenes of one frame are.
#[verifier::ext_equal]
pub struct ExecutionModel {
    pub roots: Seq<SceneId>,
    pub required: Seq<SceneId>,
    pub remaining_consumers: Seq<(SceneId, usize)>,
}

impl View for NativeSceneExecution {
    type V = ExecutionModel;

    open spec fn view(&self) -> ExecutionModel {
        ExecutionModel {
            roots: self.roots@,
            required: self.required@,
            remaining_consumers: self.remaining_consumers.entries@,
        }
    }
}

/// The scenes among the routes, in ascending order.
pub open spec fn root_scenes(routes: Seq<Option<NativeVideoRoute>>) -> Seq<SceneId>
    decreases routes.len(),
{
    if routes.len() == 0 {
        Seq::empty()
    } else {
        match routes.last() {
            Some(NativeVideoRoute::Scene(scene)) => ordered::with_key(
                root_scenes(routes.drop_last()),
                scene,
            ),
            _ => root_scenes(routes.drop_last()),
        }
    }
}

/// The required scenes once the scenes of a plan have been gone through from the last
/// to the first, each required one adding the scenes it shows.
pub open spec fn required_scenes(scenes: Seq<ScenePlanModel>, required: Seq<SceneId>) -> Seq<
    SceneId,
>
    decreases scenes.len(),
{
    if scenes.len() == 0 {
        required
    } else {
        required_scenes(
            scenes.drop_last(),
            if required.contains(scenes.last().id) {
                ordered::with_keys(required, shown_scenes(scenes.last().sources))
            } else {
                required
            },
        )
    }
}

/// The counters with that of `scene` raised by one; none where `scene` has no counter
/// or its counter is at its end.
pub open spec fn one_more(counters: Seq<(SceneId, usize)>, scene: SceneId) -> Option<
    Seq<(SceneId, usize)>,
> {
    let slot = ordered::lower_bound(ordered::entry_keys(counters), scene);
    if slot < counters.len() && counters[slot].0 == scene && counters[slot].1 < usize::MAX {
        Some(counters.update(slot, (scene, (counters[slot].1 + 1) as usize)))
    } else {
        None
    }
}

/// The counters after each of `scenes` has been counted once more.
pub open spec fn counted(counters: Seq<(SceneId, usize)>, scenes: Seq<SceneId>) -> Option<
    Seq<(SceneId, usize)>,
>
    decreases scenes.len(),
{
    if scenes.len() == 0 {
        Some(counters)
    } else {
        match counted(counters, scenes.drop_last()) {
            None => None,
            Some(before) => one_more(before, scenes.last()),
        }
    }
}

/// The counters after every required scene has counted the scenes it shows.
pub open spec fn consumers(
    counters: Seq<(SceneId, usize)>,
    scenes: Seq<ScenePlanModel>,
    required: Seq<SceneId>,
) -> Option<Seq<(SceneId, usize)>>
    decreases scenes.len(),
{
    if scenes.len() == 0 {
        Some(counters)
    } else {
        match consumers(counters, scenes.drop_last(), required) {
            None => None,
            Some(before) => if required.contains(scenes.last().id) {
                counted(before, shown_scenes(scenes.last().sources))
            } else {
                Some(before)
            },
        }
    }
}

/// A counter at zero for each scene.
pub open spec fn zeroed(scenes: Seq<SceneId>) -> Seq<(SceneId, usize)> {
    Seq::new(scenes.len(), |i: int| (scenes[i], 0usize))
}

/// The scenes that a frame over `routes` composes.
pub open spec fn execution(
    routes: Seq<Option<NativeVideoRoute>>,
    scenes: Seq<ScenePlanModel>,
) -> Option<ExecutionModel> {
    let roots = root_scenes(routes);
    let required = required_scenes(scenes, roots);
    match consumers(zeroed(required), scenes, required) {
        None => None,
        Some(counters) => Some(
            ExecutionModel { roots, required, remaining_consumers: counters },
        ),
    }
}

/// The roots of a frame stand in order.
pub proof fn lemma_root_scenes_ascend(routes: Seq<Option<NativeVideoRoute>>)
    ensures
        ordered::ascending(root_scenes(routes)),
    decreases routes.len(),
{
    if routes.len() > 0 {
        lemma_root_scenes_ascend(routes.drop_last());
        if let Some(NativeVideoRoute::Scene(scene)) = routes.last() {
            ordered::lemma_with_key(root_scenes(routes.drop_last()), scene);
        }
    }
}

proof fn lemma_counted_fail_early(
    counters: Seq<(SceneId, usize)>,
    scenes: Seq<SceneId>,
    count: int,
)
    requires
        0 <= count <= scenes.len(),
        counted(counters, scenes.take(count)) is None,
    ensures
        counted(counters, scenes) is None,
    decreases scenes.len() - count,
{
    if count < scenes.len() {
        assert(scenes.take(count + 1).drop_last() =~= scenes.take(count));
        lemma_counted_fail_early(counters, scenes, count + 1);
    } else {
        assert(scenes.take(count) =~= scenes);
    }
}

proof fn lemma_consumers_fail_early(
    counters: Seq<(SceneId, usize)>,
    scenes: Seq<ScenePlanModel>,
    required: Seq<SceneId>,
    count: int,
)
    requires
        0 <= count <= scenes.len(),
        consumers(counters, scenes.take(count), required) is None,
    ensures
        consumers(counters, scenes, required) is None,
    decreases scenes.len() - count,
{
    if count < scenes.len() {
        assert(scenes.take(count + 1).drop_last() =~= scenes.take(count));
        lemma_consumers_fail_early(counters, scenes, required, count + 1);
    } else {
        assert(scenes.take(count) =~= scenes);
    }
}

/// Counts each of `scenes` once more; tells whether every one had a counter to raise.
fn count_scenes(counters: &mut OrderedMap<SceneId, usize>, scenes: &Vec<SceneId>) -> (counted_all:
    bool)
    requires
        old(counters).wf(),
    ensures
        final(counters).wf(),
        counted_all == (counted(old(counters).entries@, scenes@) is Some),
        counted_all ==> counted(old(counters).entries@, scenes@) == Some(final(counters).entries@),
{
    assert(scenes@.take(0) =~= Seq::<SceneId>::empty());
    let mut i: usize = 0;
    while i < scenes.len()
        invariant
            i <= scenes@.len(),
            counters.wf(),
            counted(old(counters).entries@, scenes@.take(i as int)) == Some(counters.entries@),
        decreases scenes@.len() - i,
    {
        proof {
            assert(scenes@.take(i + 1).drop_last() =~= scenes@.take(i as int));
            assert(scenes@.take(i + 1).last() == scenes@[i as int]);
            ordered::lemma_contains_at_lower_bound(counters.keys(), scenes@[i as int]);
            ordered::lemma_lower_bound(counters.keys(), scenes@[i as int]);
            counters.lemma_entries();
        }
        match counters.position(scenes[i]) {
            None => {
                proof {
                    let slot = ordered::lower_bound(counters.keys(), scenes@[i as int]);
                    if slot < counters.entries@.len() {
                        assert(counters.keys()[slot] == counters.entries@[slot].0);
                    }
                    lemma_counted_fail_early(old(counters).entries@, scenes@, i + 1);
                }
                return false;
            },
            Some(slot) => {
                let count: usize = counters.entries[slot].1;
                if count == usize::MAX {
                    proof {
                        lemma_counted_fail_early(old(counters).entries@, scenes@, i + 1);
                    }
                    return false;
                }
                let ghost keys = counters.keys();
                counters.entries.set(slot, (scenes[i], count + 1));
                assert(counters.keys() =~= keys);
            },
        }
        i = i + 1;
    }
    assert(scenes@.take(i as int) =~= scenes@);
    true
}

/// Finds the scenes that a frame over `routes` composes, and how many of them show each.
pub fn scene_execution_for_routes(
    routes: &Vec<Option<NativeVideoRoute>>,
    scenes: &Vec<NativeScenePlan>,
) -> (execution_found: Option<NativeSceneExecution>)
    ensures
        match execution_found {
            Some(found) => execution(routes@, scene_views(scenes@)) == Some(found@)
                && found.remaining_consumers.wf() && ordered::ascending(found.required@)
                && ordered::ascending(found.roots@),
            None => execution(routes@, scene_views(scenes@)) is None,
        },
{
    let ghost views = scene_views(scenes@);
    let mut roots: Vec<SceneId> = Vec::new();
    assert(routes@.take(0) =~= Seq::<Option<NativeVideoRoute>>::empty());
    let mut i: usize = 0;
    while i < routes.len()
        invariant
            i <= routes@.len(),
            ordered::ascending(roots@),
            roots@ == root_scenes(routes@.take(i as int)),
        decreases routes@.len() - i,
    {
        proof {
            assert(routes@.take(i + 1).drop_last() =~= routes@.take(i as int));
            assert(routes@.take(i + 1).last() == routes@[i as int]);
        }
        match routes[i] {
            Some(NativeVideoRoute::Scene(scene)) => {
                insert_key(&mut roots, scene);
            },
            Some(NativeVideoRoute::Leaf(_)) | None => {},
        }
        i = i + 1;
    }
    assert(routes@.take(i as int) =~= routes@);

    let mut required: Vec<SceneId> = Vec::new();
    proof {
        ordered::lemma_with_keys(required@, roots@);
        ordered::lemma_ascending_unique(ordered::with_keys(required@, roots@), roots@);
    }
    insert_keys(&mut required, &roots);
    let mut left: usize = scenes.len();
    assert(views.take(left as int) =~= views);
    while left > 0
        invariant
            left <= scenes@.len(),
            views == scene_views(scenes@),
            ordered::ascending(required@),
            required_scenes(views, roots@) == required_scenes(views.take(left as int), required@),
        decreases left,
    {
        proof {
            assert(views.take(left as int).drop_last() =~= views.take(left - 1));
            assert(views.take(left as int).last() == scenes@[left - 1]@);
        }
        left = left - 1;
        if contains_key(&required, scenes[left].id) {
            let shown: Vec<SceneId> = scenes[left].scene_dependencies();
            insert_keys(&mut required, &shown);
        }
    }
    assert(required@ == required_scenes(views, roots@));

    let mut counters: OrderedMap<SceneId, usize> = OrderedMap::new();
    let mut j: usize = 0;
    while j < required.len()
        invariant
            j <= required@.len(),
            counters.entries@ == zeroed(required@).take(j as int),
        decreases required@.len() - j,
    {
        counters.entries.push((required[j], 0));
        j = j + 1;
        assert(counters.entries@ =~= zeroed(required@).take(j as int));
    }
    assert(counters.entries@ =~= zeroed(required@));
    assert(counters.keys() =~= required@);
    let ghost start = zeroed(required@);
    assert(views.take(0) =~= Seq::<ScenePlanModel>::empty());
    let mut k: usize = 0;
    while k < scenes.len()
        invariant
            k <= scenes@.len(),
            views == scene_views(scenes@),
            ordered::ascending(required@),
            counters.wf(),
            consumers(start, views.take(k as int), required@) == Some(counters.entries@),
            start == zeroed(required@),
            required@ == required_scenes(views, root_scenes(routes@)),
        decreases scenes@.len() - k,
    {
        proof {
            assert(views.take(k + 1).drop_last() =~= views.take(k as int));
            assert(views.take(k + 1).last() == scenes@[k as int]@);
        }
        if contains_key(&required, scenes[k].id) {
            let shown: Vec<SceneId> = scenes[k].scene_dependencies();
            if !count_scenes(&mut counters, &shown) {
                proof {
                    lemma_consumers_fail_early(start, views, required@, k + 1);
                }
                return None;
            }
        }
        k = k + 1;
    }
    assert(views.take(k as int) =~= views);
    Some(NativeSceneExecution { roots, required, remaining_consumers: counters })
}

/// How many targets a frame holds at once: its scenes, its transition, the faded
/// picture, and the previous program.
pub open spec fn execution_targets(required: Seq<SceneId>) -> Option<nat> {
    if required.len() + 3 <= usize::MAX {
        Some((required.len() + 3) as nat)
    } else {
        None
    }
}

/// How many targets a frame holds at once; none where the number does not fit.
pub fn native_execution_peak(execution: &NativeSceneExecution) -> (targets: Option<usize>)
    ensures
        match targets {
            Some(count) => execution_targets(execution.required@) == Some(count as nat),
            None => execution_targets(execution.required@) is None,
        },
{
    match execution.required.len().checked_add(NATIVE_PROJECT_IN_FLIGHT_SLOTS) {
        None => None,
        Some(targets) => match targets.checked_add(1) {
            None => None,
            Some(targets) => targets.checked_add(1),
        },
    }
}

/// The targets of a frame over `routes`.
pub open spec fn route_peak(
    routes: Seq<Option<NativeVideoRoute>>,
    scenes: Seq<ScenePlanModel>,
) -> Option<nat> {
    match execution(routes, scenes) {
        None => None,
        Some(found) => execution_targets(found.required),
    }
}

/// The larger of two numbers; none where one of them is missing.
pub open spec fn larger(a: Option<nat>, b: Option<nat>) -> Option<nat> {
    match (a, b) {
        (Some(x), Some(y)) => Some(if x < y {
            y
        } else {
            x
        }),
        _ => None,
    }
}

/// The most targets of a frame over two inputs, alone or with one of the Stingers.
pub open spec fn pair_peak(
    primary: NativeVideoRoute,
    secondary: NativeVideoRoute,
    stingers: Seq<NativeVideoRoute>,
    scenes: Seq<ScenePlanModel>,
) -> Option<nat>
    decreases stingers.len(),
{
    if stingers.len() == 0 {
        route_peak(seq![Some(primary), Some(secondary)], scenes)
    } else {
        larger(
            pair_peak(primary, secondary, stingers.drop_last(), scenes),
            route_peak(seq![Some(primary), Some(secondary), Some(stingers.last())], scenes),
        )
    }
}

/// The most targets of a frame over one input and any of `secondaries`; at least three.
pub open spec fn row_peak(
    primary: NativeVideoRoute,
    secondaries: Seq<NativeVideoRoute>,
    stingers: Seq<NativeVideoRoute>,
    scenes: Seq<ScenePlanModel>,
) -> Option<nat>
    decreases secondaries.len(),
{
    if secondaries.len() == 0 {
        Some(3)
    } else {
        larger(
            row_peak(primary, secondaries.drop_last(), stingers, scenes),
            pair_peak(primary, secondaries.last(), stingers, scenes),
        )
    }
}

/// The most targets of a frame over any of `primaries` and any of `secondaries`; at
/// least three.
pub open spec fn grid_peak(
    primaries: Seq<NativeVideoRoute>,
    secondaries: Seq<NativeVideoRoute>,
    stingers: Seq<NativeVideoRoute>,
    scenes: Seq<ScenePlanModel>,
) -> Option<nat>
    decreases primaries.len(),
{
    if primaries.len() == 0 {
        Some(3)
    } else {
        larger(
            grid_peak(primaries.drop_last(), secondaries, stingers, scenes),
            row_peak(primaries.last(), secondaries, stingers, scenes),
        )
    }
}

proof fn lemma_pair_peak_fail_early(
    primary: NativeVideoRoute,
    secondary: NativeVideoRoute,
    stingers: Seq<NativeVideoRoute>,
    scenes: Seq<ScenePlanModel>,
    count: int,
)
    requires
        0 <= count <= stingers.len(),
        pair_peak(primary, secondary, stingers.take(count), scenes) is None,
    ensures
        pair_peak(primary, secondary, stingers, scenes) is None,
    decreases stingers.len() - count,
{
    if count < stingers.len() {
        assert(stingers.take(count + 1).drop_last() =~= stingers.take(count));
        lemma_pair_peak_fail_early(primary, secondary, stingers, scenes, count + 1);
    } else {
        assert(stingers.take(count) =~= stingers);
    }
}

proof fn lemma_row_peak_fail_early(
    primary: NativeVideoRoute,
    secondaries: Seq<NativeVideoRoute>,
    stingers: Seq<NativeVideoRoute>,
    scenes: Seq<ScenePlanModel>,
    count: int,
)
    requires
        0 <= count <= secondaries.len(),
        row_peak(primary, secondaries.take(count), stingers, scenes) is None,
    ensures
        row_peak(primary, secondaries, stingers, scenes) is None,
    decreases secondaries.len() - count,
{
    if count < secondaries.len() {
        assert(secondaries.take(count + 1).drop_last() =~= secondaries.take(count));
        lemma_row_peak_fail_early(primary, secondaries, stingers, scenes, count + 1);
    } else {
        assert(secondaries.take(count) =~= secondaries);
    }
}

proof fn lemma_grid_peak_fail_early(
    primaries: Seq<NativeVideoRoute>,
    secondaries: Seq<NativeVideoRoute>,
    stingers: Seq<NativeVideoRoute>,
    scenes: Seq<ScenePlanModel>,
    count: int,
)
    requires
        0 <= count <= primaries.len(),
        grid_peak(primaries.take(count), secondaries, stingers, scenes) is None,
    ensures
        grid_peak(primaries, secondaries, stingers, scenes) is None,
    decreases primaries.len() - count,
{
    if count < primaries.len() {
        assert(primaries.take(count + 1).drop_last() =~= primaries.take(count));
        lemma_grid_peak_fail_early(primaries, secondaries, stingers, scenes, count + 1);
    } else {
        assert(primaries.take(count) =~= primaries);
    }
}

fn peak_of_routes(routes: &Vec<Option<NativeVideoRoute>>, scenes: &Vec<NativeScenePlan>) -> (peak:
    Option<usize>)
    ensures
        match peak {
            Some(count) => route_peak(routes@, scene_views(scenes@)) == Some(count as nat),
            None => route_peak(routes@, scene_views(scenes@)) is None,
        },
{
    match scene_execution_for_routes(routes, scenes) {
        None => None,
        Some(execution) => native_execution_peak(&execution),
    }
}

fn peak_of_pair(
    primary: NativeVideoRoute,
    secondary: NativeVideoRoute,
    stingers: &Vec<NativeVideoRoute>,
    scenes: &Vec<NativeScenePlan>,
) -> (peak: Option<usize>)
    ensures
        match peak {
            Some(count) => pair_peak(primary, secondary, stingers@, scene_views(scenes@)) == Some(
                count as nat,
            ),
            None => pair_peak(primary, secondary, stingers@, scene_views(scenes@)) is None,
        },
{
    let ghost views = scene_views(scenes@);
    let mut routes: Vec<Option<NativeVideoRoute>> = Vec::new();
    routes.push(Some(primary));
    routes.push(Some(secondary));
    assert(routes@ =~= seq![Some(primary), Some(secondary)]);
    assert(stingers@.take(0) =~= Seq::<NativeVideoRoute>::empty());
    let mut maximum: usize = match peak_of_routes(&routes, scenes) {
        None => {
            proof {
                lemma_pair_peak_fail_early(primary, secondary, stingers@, views, 0);
            }
            return None;
        },
        Some(count) => count,
    };
    let mut i: usize = 0;
    while i < stingers.len()
        invariant
            i <= stingers@.len(),
            views == scene_views(scenes@),
            pair_peak(primary, secondary, stingers@.take(i as int), views) == Some(maximum as nat),
        decreases stingers@.len() - i,
    {
        proof {
            assert(stingers@.take(i + 1).drop_last() =~= stingers@.take(i as int));
            assert(stingers@.take(i + 1).last() == stingers@[i as int]);
        }
        let mut with_stinger: Vec<Option<NativeVideoRoute>> = Vec::new();
        with_stinger.push(Some(primary));
        with_stinger.push(Some(secondary));
        with_stinger.push(Some(stingers[i]));
        assert(with_stinger@ =~= seq![Some(primary), Some(secondary), Some(stingers@[i as int])]);
        match peak_of_routes(&with_stinger, scenes) {
            None => {
                proof {
                    lemma_pair_peak_fail_early(primary, secondary, stingers@, views, i + 1);
                }
                return None;
            },
            Some(count) => {
                if maximum < count {
                    maximum = count;
                }
            },
        }
        i = i + 1;
    }
    assert(stingers@.take(i as int) =~= stingers@);
    Some(maximum)
}

fn peak_of_row(
    primary: NativeVideoRoute,
    secondaries: &Vec<NativeVideoRoute>,
    stingers: &Vec<NativeVideoRoute>,
    scenes: &Vec<NativeScenePlan>,
) -> (peak: Option<usize>)
    ensures
        match peak {
            Some(count) => row_peak(primary, secondaries@, stingers@, scene_views(scenes@))
                == Some(count as nat),
            None => row_peak(primary, secondaries@, stingers@, scene_views(scenes@)) is None,
        },
{
    let ghost views = scene_views(scenes@);
    let mut maximum: usize = 3;
    assert(secondaries@.take(0) =~= Seq::<NativeVideoRoute>::empty());
    let mut i: usize = 0;
    while i < secondaries.len()
        invariant
            i <= secondaries@.len(),
            views == scene_views(scenes@),
            row_peak(primary, secondaries@.take(i as int), stingers@, views) == Some(
                maximum as nat,
            ),
        decreases secondaries@.len() - i,
    {
        proof {
            assert(secondaries@.take(i + 1).drop_last() =~= secondaries@.take(i as int));
            assert(secondaries@.take(i + 1).last() == secondaries@[i as int]);
        }
        match peak_of_pair(primary, secondaries[i], stingers, scenes) {
            None => {
                proof {
                    lemma_row_peak_fail_early(primary, secondaries@, stingers@, views, i + 1);
                }
                return None;
            },
            Some(count) => {
                if maximum < count {
                    maximum = count;
                }
            },
        }
        i = i + 1;
    }
    assert(secondaries@.take(i as int) =~= secondaries@);
    Some(maximum)
}

/// The most targets that any program frame over the routes holds at once; none where
/// the number does not fit.
pub fn maximum_native_execution_peak(
    routes: &Vec<NativeVideoRoute>,
    stinger_routes: &Vec<NativeVideoRoute>,
    scenes: &Vec<NativeScenePlan>,
) -> (peak: Option<usize>)
    ensures
        match peak {
            Some(count) => grid_peak(routes@, routes@, stinger_routes@, scene_views(scenes@))
                == Some(count as nat),
            None => grid_peak(routes@, routes@, stinger_routes@, scene_views(scenes@)) is None,
        },
{
    let ghost views = scene_views(scenes@);
    let mut maximum: usize = 3;
    assert(routes@.take(0) =~= Seq::<NativeVideoRoute>::empty());
    let mut i: usize = 0;
    while i < routes.len()
        invariant
            i <= routes@.len(),
            views == scene_views(scenes@),
            grid_peak(routes@.take(i as int), routes@, stinger_routes@, views) == Some(
                maximum as nat,
            ),
        decreases routes@.len() - i,
    {
        proof {
            assert(routes@.take(i + 1).drop_last() =~= routes@.take(i as int));
            assert(routes@.take(i + 1).last() == routes@[i as int]);
        }
        match peak_of_row(routes[i], routes, stinger_routes, scenes) {
            None => {
                proof {
                    lemma_grid_peak_fail_early(
                        routes@,
                        routes@,
                        stinger_routes@,
                        views,
                        i + 1,
                    );
                }
                return None;
            },
            Some(count) => {
                if maximum < count {
                    maximum = count;
                }
            },
        }
        i = i + 1;
    }
    assert(routes@.take(i as int) =~= routes@);
    Some(maximum)
}

} // verus!
