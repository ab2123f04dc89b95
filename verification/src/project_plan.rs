//! Compiles a project into a bounded plan for its native realization.
use vstd::prelude::*;

use crate::audio_route;
use crate::audio_route::{resolve_audio_route, NativeAudioRoute};
use crate::model::{
    CropRect, FrameRate, Input, InputAudioStrip, InputAudioStripState, InputId, InputKind, Layer,
    LayerGeometry, OutsideFailure, Project, RectMask, Rgba8, Scene, SceneId, StingerAudioPolicy,
    StingerConfig, StingerSlotId,
};
use crate::ordered;
use crate::ordered::{insert_key, OrderedMap};
use crate::scene_execution;
use crate::scene_execution::{
    maximum_native_execution_peak, scene_execution_for_routes, Composition, NativeSceneExecution,
    NativeScenePlan, NativeVideoRoute, ScenePlanModel,
};
use crate::scene_graph;
use crate::scene_graph::{
    find_scene, resolve_scene_source, visit_native_scenes, NativeSceneSource,
};

verus! {

/// Why the compositor refuses a scene.
#[derive(Clone, Copy, Debug, PartialEq, Eq, Structural)]
pub enum PlanError {
    /// The mask of the layer does not lie within its source.
    InvalidMask { layer: usize },
    /// The compositor's own judgment.
    Compositor(OutsideFailure),
}

#[allow(inconsistent_fields)]
/// Typed failures produced before any native device or decoder is opened.
#[derive(Clone, Copy, Debug, PartialEq, Eq, Structural)]
pub enum NativeProjectPlanError {
    MissingInput(InputId),
    MissingScene(SceneId),
    InvalidStingerSlot(u8),
    SceneCycle { scene: SceneId },
    AudioCycle { input: InputId },
    TooManyReachableScenes { actual: usize, maximum: usize },
    TooManyActiveLayers { actual: usize, maximum: usize },
    TransientByteSizeOverflow { width: u32, height: u32, targets: usize },
    TransientTargetCountOverflow,
    TransientBytesExceeded { required: u64, maximum: u64 },
    Scene { scene: SceneId, error: OutsideFailure },
    Composition { scene: SceneId, error: PlanError },
    SourceTokenExhausted,
}

/// Bytes of one pixel of a working picture.
pub const RGBA16_FLOAT_BYTES_PER_PIXEL: u64 = 8;

/// Resource bounds applied while compiling native scenes.
#[derive(Clone, Copy, Debug, PartialEq, Eq, Structural)]
pub struct NativeProjectLimits {
    pub max_reachable_scenes: usize,
    pub max_total_active_layers: usize,
    pub max_transient_rgba16f_bytes: u64,
}

impl NativeProjectLimits {
    pub const DEFAULT_MAX_REACHABLE_SCENES: usize = 64;

    pub const DEFAULT_MAX_TOTAL_ACTIVE_LAYERS: usize = 64;

    pub const DEFAULT_MAX_TRANSIENT_RGBA16F_BYTES: u64 = 536_870_912;
}

impl Default for NativeProjectLimits {
    fn default() -> (limits: Self)
        ensures
            limits.max_reachable_scenes == 64,
            limits.max_total_active_layers == 64,
            limits.max_transient_rgba16f_bytes == 512 * 1024 * 1024,
    {
        NativeProjectLimits {
            max_reachable_scenes: Self::DEFAULT_MAX_REACHABLE_SCENES,
            max_total_active_layers: Self::DEFAULT_MAX_TOTAL_ACTIVE_LAYERS,
            max_transient_rgba16f_bytes: Self::DEFAULT_MAX_TRANSIENT_RGBA16F_BYTES,
        }
    }
}

/// One Stinger of a compiled project.
#[derive(Clone, Copy, Debug, PartialEq, Eq, Structural)]
pub struct NativeStingerConfig {
    pub media_input: InputId,
    pub preload: bool,
    pub cut_point_frames: u32,
    pub audio_policy: StingerAudioPolicy,
}

/// One layer as the compositor takes it.
#[derive(Clone, Copy, Debug, PartialEq, Eq, Structural)]
pub struct SourceLayer {
    /// The token of the layer's source; zero for a layer that is off.
    pub source: u64,
    pub z: i32,
    pub transform: LayerGeometry,
    pub enabled: bool,
    pub opacity: u8,
    pub crop: Option<CropRect>,
    pub mask: Option<RectMask>,
}

/// One scene as the compositor takes it.
pub struct NativeSceneDraft {
    pub id: SceneId,
    pub width: u32,
    pub height: u32,
    pub background: Rgba8,
    pub layers: Vec<SourceLayer>,
    /// The token of each source that the scene shows.
    pub sources: OrderedMap<NativeSceneSource, u64>,
    /// The first token that the scene has not used.
    pub next_source: u64,
}

/// The layers of a draft, the tokens given out, and the next token.
#[verifier::ext_equal]
pub struct DraftModel {
    pub layers: Seq<SourceLayer>,
    pub sources: Seq<(NativeSceneSource, u64)>,
    pub next_source: u64,
}

impl NativeSceneDraft {
    /// The layers, the tokens given out, and the next token.
    pub open spec fn model(self) -> DraftModel {
        DraftModel {
            layers: self.layers@,
            sources: self.sources.entries@,
            next_source: self.next_source,
        }
    }
}

/// What the compositor says of one scene.
#[derive(Clone, Copy, Debug, PartialEq, Eq)]
pub struct SceneOutcome {
    /// Whether it accepts the canvas.
    pub canvas: Result<(), OutsideFailure>,
    /// What it makes of the drafted scene; read only where the draft succeeds.
    pub composition: Result<Composition, PlanError>,
}

/// The route of one input's picture.
pub open spec fn route_of(input: Input) -> NativeVideoRoute {
    match input.kind {
        InputKind::Scene { scene_id, .. } => NativeVideoRoute::Scene(scene_id),
        InputKind::Media => NativeVideoRoute::Leaf(input.id),
    }
}

/// The routes of the inputs, in ascending order of their identifiers.
pub open spec fn video_entries(inputs: Seq<Input>) -> Seq<(InputId, NativeVideoRoute)>
    decreases inputs.len(),
{
    if inputs.len() == 0 {
        Seq::empty()
    } else {
        ordered::with_entry(
            video_entries(inputs.drop_last()),
            inputs.last().id,
            route_of(inputs.last()),
        )
    }
}

/// The routes without the inputs they belong to.
pub open spec fn route_values(entries: Seq<(InputId, NativeVideoRoute)>) -> Seq<NativeVideoRoute> {
    Seq::new(entries.len(), |i: int| entries[i].1)
}

/// The scenes that inputs show, in ascending order.
pub open spec fn input_roots(entries: Seq<(InputId, NativeVideoRoute)>) -> Seq<SceneId>
    decreases entries.len(),
{
    if entries.len() == 0 {
        Seq::empty()
    } else {
        match entries.last().1 {
            NativeVideoRoute::Scene(scene) => ordered::with_key(
                input_roots(entries.drop_last()),
                scene,
            ),
            NativeVideoRoute::Leaf(_) => input_roots(entries.drop_last()),
        }
    }
}

/// How many of the layers are on.
pub open spec fn enabled_layers(layers: Seq<Layer>) -> nat
    decreases layers.len(),
{
    if layers.len() == 0 {
        0
    } else {
        enabled_layers(layers.drop_last()) + if layers.last().enabled {
            1nat
        } else {
            0nat
        }
    }
}

/// How many layers of the scenes are on.
pub open spec fn active_layers(project: Project, order: Seq<SceneId>, maximum: usize) -> Result<
    nat,
    NativeProjectPlanError,
>
    decreases order.len(),
{
    if order.len() == 0 {
        Ok(0)
    } else {
        match active_layers(project, order.drop_last(), maximum) {
            Err(error) => Err(error),
            Ok(total) => match scene_graph::scene_model(project, order.last()) {
                None => Err(NativeProjectPlanError::MissingScene(order.last())),
                Some(scene) => if total + enabled_layers(scene.layers@) > usize::MAX {
                    Err(
                        NativeProjectPlanError::TooManyActiveLayers { actual: usize::MAX, maximum },
                    )
                } else {
                    Ok(total + enabled_layers(scene.layers@))
                },
            },
        }
    }
}

/// The scenes to compose, in their order, where they keep to the limits.
pub open spec fn bounded_order(project: Project, limits: NativeProjectLimits) -> Result<
    Seq<SceneId>,
    NativeProjectPlanError,
> {
    match scene_graph::all_visited(
        project,
        input_roots(video_entries(project.inputs@)),
        Set::empty(),
        Seq::empty(),
    ) {
        Err(error) => Err(error),
        Ok(order) => if order.len() > limits.max_reachable_scenes {
            Err(
                NativeProjectPlanError::TooManyReachableScenes {
                    actual: order.len() as usize,
                    maximum: limits.max_reachable_scenes,
                },
            )
        } else {
            match active_layers(project, order, limits.max_total_active_layers) {
                Err(error) => Err(error),
                Ok(total) => if total > limits.max_total_active_layers {
                    Err(
                        NativeProjectPlanError::TooManyActiveLayers {
                            actual: total as usize,
                            maximum: limits.max_total_active_layers,
                        },
                    )
                } else {
                    Ok(order)
                },
            }
        },
    }
}

/// Whether the layer's mask is not empty and lies within what the layer shows.
pub open spec fn mask_fits(project: Project, layer: Layer) -> bool {
    match layer.mask {
        None => true,
        Some(mask) => {
            let (width, height) = match layer.crop {
                Some(crop) => (crop.width, crop.height),
                None => (project.width, project.height),
            };
            mask.width != 0 && mask.height != 0 && mask.x + mask.width <= width && mask.y
                + mask.height <= height
        },
    }
}

/// The layer as the compositor takes it.
pub open spec fn source_layer(layer: Layer, token: u64) -> SourceLayer {
    SourceLayer {
        source: token,
        z: layer.z_order,
        transform: layer.geometry,
        enabled: layer.enabled,
        opacity: layer.opacity,
        crop: layer.crop,
        mask: layer.mask,
    }
}

/// A draft with one more layer: a source seen for the first time takes the next token.
pub open spec fn draft_step(
    project: Project,
    scene: SceneId,
    draft: DraftModel,
    layer: Layer,
    index: int,
) -> Result<DraftModel, NativeProjectPlanError> {
    if !mask_fits(project, layer) {
        Err(
            NativeProjectPlanError::Composition {
                scene,
                error: PlanError::InvalidMask { layer: index as usize },
            },
        )
    } else if !layer.enabled {
        Ok(DraftModel { layers: draft.layers.push(source_layer(layer, 0)), ..draft })
    } else {
        match scene_graph::resolved_source(project, layer.source) {
            Err(error) => Err(error),
            Ok(source) => if ordered::collected(draft.sources).contains_key(source) {
                Ok(
                    DraftModel {
                        layers: draft.layers.push(
                            source_layer(layer, ordered::collected(draft.sources)[source]),
                        ),
                        ..draft
                    },
                )
            } else if draft.next_source == u64::MAX {
                Err(NativeProjectPlanError::SourceTokenExhausted)
            } else {
                Ok(
                    DraftModel {
                        layers: draft.layers.push(source_layer(layer, draft.next_source)),
                        sources: ordered::with_entry(draft.sources, source, draft.next_source),
                        next_source: (draft.next_source + 1) as u64,
                    },
                )
            },
        }
    }
}

/// The draft of the layers, the first new source taking the token `first`.
pub open spec fn drafted_layers(
    project: Project,
    scene: SceneId,
    layers: Seq<Layer>,
    first: u64,
) -> Result<DraftModel, NativeProjectPlanError>
    decreases layers.len(),
{
    if layers.len() == 0 {
        Ok(DraftModel { layers: Seq::empty(), sources: Seq::empty(), next_source: first })
    } else {
        match drafted_layers(project, scene, layers.drop_last(), first) {
            Err(error) => Err(error),
            Ok(draft) => draft_step(project, scene, draft, layers.last(), layers.len() - 1),
        }
    }
}

/// The draft of the scene `id`.
pub open spec fn drafted_scene(project: Project, id: SceneId, first: u64) -> Result<
    DraftModel,
    NativeProjectPlanError,
> {
    match scene_graph::scene_model(project, id) {
        None => Err(NativeProjectPlanError::MissingScene(id)),
        Some(scene) => drafted_layers(project, id, scene.layers@, first),
    }
}

/// The plan of one scene and the first token left after it.
pub open spec fn planned_scene(project: Project, id: SceneId, first: u64, outcome: SceneOutcome) -> Result<
    (ScenePlanModel, u64),
    NativeProjectPlanError,
> {
    if scene_graph::scene_model(project, id) is None {
        Err(NativeProjectPlanError::MissingScene(id))
    } else {
        match outcome.canvas {
            Err(error) => Err(NativeProjectPlanError::Scene { scene: id, error }),
            Ok(_) => match drafted_scene(project, id, first) {
                Err(error) => Err(error),
                Ok(draft) => match outcome.composition {
                    Err(error) => Err(NativeProjectPlanError::Composition { scene: id, error }),
                    Ok(composition) => if draft.next_source == u64::MAX {
                        Err(NativeProjectPlanError::SourceTokenExhausted)
                    } else {
                        Ok(
                            (
                                ScenePlanModel {
                                    id,
                                    output: draft.next_source,
                                    composition,
                                    sources: draft.sources,
                                },
                                (draft.next_source + 1) as u64,
                            ),
                        )
                    },
                },
            },
        }
    }
}

/// The plans of the scenes and the first token left after them.
pub open spec fn planned_scenes(
    project: Project,
    order: Seq<SceneId>,
    outcomes: Seq<SceneOutcome>,
) -> Result<(Seq<ScenePlanModel>, u64), NativeProjectPlanError>
    decreases order.len(),
{
    if order.len() == 0 {
        Ok((Seq::empty(), 0))
    } else {
        match planned_scenes(project, order.drop_last(), outcomes) {
            Err(error) => Err(error),
            Ok((scenes, next)) => match planned_scene(
                project,
                order.last(),
                next,
                outcomes[order.len() - 1],
            ) {
                Err(error) => Err(error),
                Ok((scene, after)) => Ok((scenes.push(scene), after)),
            },
        }
    }
}

/// The routes of the Stingers' media, where the media is an input of the project.
pub open spec fn stinger_media_routes(
    stingers: Seq<StingerConfig>,
    routes: Seq<(InputId, NativeVideoRoute)>,
) -> Seq<NativeVideoRoute>
    decreases stingers.len(),
{
    if stingers.len() == 0 {
        Seq::empty()
    } else {
        let before = stinger_media_routes(stingers.drop_last(), routes);
        if ordered::collected(routes).contains_key(stingers.last().media_input) {
            before.push(ordered::collected(routes)[stingers.last().media_input])
        } else {
            before
        }
    }
}

/// The bytes that `targets` pictures take, where they keep to the limit.
pub open spec fn transient_bytes(
    project: Project,
    targets: nat,
    limits: NativeProjectLimits,
) -> Result<u64, NativeProjectPlanError> {
    let frame = project.width * project.height * 8;
    if frame > u64::MAX || frame * targets > u64::MAX {
        Err(
            NativeProjectPlanError::TransientByteSizeOverflow {
                width: project.width,
                height: project.height,
                targets: targets as usize,
            },
        )
    } else if frame * targets > limits.max_transient_rgba16f_bytes {
        Err(
            NativeProjectPlanError::TransientBytesExceeded {
                required: (frame * targets) as u64,
                maximum: limits.max_transient_rgba16f_bytes,
            },
        )
    } else {
        Ok((frame * targets) as u64)
    }
}

/// A Stinger as a compiled project holds it.
pub open spec fn stinger_of(config: StingerConfig) -> NativeStingerConfig {
    NativeStingerConfig {
        media_input: config.media_input,
        preload: config.preload,
        cut_point_frames: config.cut_point_frames,
        audio_policy: config.audio_policy,
    }
}

/// The Stingers under their slots, or the first slot number that the switcher lacks.
pub open spec fn stinger_entries(stingers: Seq<StingerConfig>) -> Result<
    Seq<(StingerSlotId, NativeStingerConfig)>,
    NativeProjectPlanError,
>
    decreases stingers.len(),
{
    if stingers.len() == 0 {
        Ok(Seq::empty())
    } else {
        match stinger_entries(stingers.drop_last()) {
            Err(error) => Err(error),
            Ok(entries) => match stingers.last().slot {
                None => Err(NativeProjectPlanError::InvalidStingerSlot(stingers.last().slot_number)),
                Some(slot) => Ok(ordered::with_entry(entries, slot, stinger_of(stingers.last()))),
            },
        }
    }
}

/// The audio settings under their inputs.
pub open spec fn strip_entries(strips: Seq<InputAudioStrip>) -> Seq<(InputId, InputAudioStripState)>
    decreases strips.len(),
{
    if strips.len() == 0 {
        Seq::empty()
    } else {
        ordered::with_entry(
            strip_entries(strips.drop_last()),
            strips.last().input,
            strips.last().state,
        )
    }
}

/// What a compiled project holds.
#[verifier::ext_equal]
pub struct ProjectPlanModel {
    pub video_routes: Seq<(InputId, NativeVideoRoute)>,
    pub audio_routes: Seq<(InputId, NativeAudioRoute)>,
    pub audio_strips: Seq<(InputId, InputAudioStripState)>,
    pub stingers: Seq<(StingerSlotId, NativeStingerConfig)>,
    pub frame_rate: FrameRate,
    pub scenes: Seq<ScenePlanModel>,
    pub peak_rgba16f_targets: usize,
    pub transient_rgba16f_bytes: u64,
}

/// The plan of a project, or the first reason why it has none.
pub open spec fn compiled(
    project: Project,
    limits: NativeProjectLimits,
    outcomes: Seq<SceneOutcome>,
) -> Result<ProjectPlanModel, NativeProjectPlanError> {
    let routes = video_entries(project.inputs@);
    match bounded_order(project, limits) {
        Err(error) => Err(error),
        Ok(order) => match planned_scenes(project, order, outcomes) {
            Err(error) => Err(error),
            Ok((scenes, _)) => match scene_execution::grid_peak(
                route_values(routes),
                route_values(routes),
                stinger_media_routes(project.stingers@, routes),
                scenes,
            ) {
                None => Err(NativeProjectPlanError::TransientTargetCountOverflow),
                Some(targets) => match transient_bytes(project, targets, limits) {
                    Err(error) => Err(error),
                    Ok(bytes) => match audio_route::audio_entries(project, project.inputs@) {
                        Err(error) => Err(error),
                        Ok(audio_routes) => match stinger_entries(project.stingers@) {
                            Err(error) => Err(error),
                            Ok(stingers) => Ok(
                                ProjectPlanModel {
                                    video_routes: routes,
                                    audio_routes,
                                    audio_strips: strip_entries(project.input_audio_strips@),
                                    stingers,
                                    frame_rate: project.frame_rate,
                                    scenes,
                                    peak_rgba16f_targets: targets as usize,
                                    transient_rgba16f_bytes: bytes,
                                },
                            ),
                        },
                    },
                },
            },
        },
    }
}

/// Immutable, bounded native realization plan for one canonical project.
pub struct NativeProjectPlan {
    pub video_routes: OrderedMap<InputId, NativeVideoRoute>,
    pub audio_routes: OrderedMap<InputId, NativeAudioRoute>,
    pub audio_strips: OrderedMap<InputId, InputAudioStripState>,
    pub stingers: OrderedMap<StingerSlotId, NativeStingerConfig>,
    pub frame_rate: FrameRate,
    pub scenes: Vec<NativeScenePlan>,
    pub peak_rgba16f_targets: usize,
    pub transient_rgba16f_bytes: u64,
}

impl View for NativeProjectPlan {
    type V = ProjectPlanModel;

    open spec fn view(&self) -> ProjectPlanModel {
        ProjectPlanModel {
            video_routes: self.video_routes.entries@,
            audio_routes: self.audio_routes.entries@,
            audio_strips: self.audio_strips.entries@,
            stingers: self.stingers.entries@,
            frame_rate: self.frame_rate,
            scenes: scene_execution::scene_views(self.scenes@),
            peak_rgba16f_targets: self.peak_rgba16f_targets,
            transient_rgba16f_bytes: self.transient_rgba16f_bytes,
        }
    }
}

proof fn lemma_active_layers_fail_early(
    project: Project,
    order: Seq<SceneId>,
    maximum: usize,
    count: int,
)
    requires
        0 <= count <= order.len(),
        active_layers(project, order.take(count), maximum) is Err,
    ensures
        active_layers(project, order, maximum) == active_layers(
            project,
            order.take(count),
            maximum,
        ),
    decreases order.len() - count,
{
    if count < order.len() {
        assert(order.take(count + 1).drop_last() =~= order.take(count));
        lemma_active_layers_fail_early(project, order, maximum, count + 1);
    } else {
        assert(order.take(count) =~= order);
    }
}

proof fn lemma_drafted_layers_fail_early(
    project: Project,
    scene: SceneId,
    layers: Seq<Layer>,
    first: u64,
    count: int,
)
    requires
        0 <= count <= layers.len(),
        drafted_layers(project, scene, layers.take(count), first) is Err,
    ensures
        drafted_layers(project, scene, layers, first) == drafted_layers(
            project,
            scene,
            layers.take(count),
            first,
        ),
    decreases layers.len() - count,
{
    if count < layers.len() {
        assert(layers.take(count + 1).drop_last() =~= layers.take(count));
        lemma_drafted_layers_fail_early(project, scene, layers, first, count + 1);
    } else {
        assert(layers.take(count) =~= layers);
    }
}

proof fn lemma_planned_scenes_fail_early(
    project: Project,
    order: Seq<SceneId>,
    outcomes: Seq<SceneOutcome>,
    count: int,
)
    requires
        0 <= count <= order.len(),
        planned_scenes(project, order.take(count), outcomes) is Err,
    ensures
        planned_scenes(project, order, outcomes) == planned_scenes(
            project,
            order.take(count),
            outcomes,
        ),
    decreases order.len() - count,
{
    if count < order.len() {
        assert(order.take(count + 1).drop_last() =~= order.take(count));
        lemma_planned_scenes_fail_early(project, order, outcomes, count + 1);
    } else {
        assert(order.take(count) =~= order);
    }
}

proof fn lemma_stinger_entries_fail_early(stingers: Seq<StingerConfig>, count: int)
    requires
        0 <= count <= stingers.len(),
        stinger_entries(stingers.take(count)) is Err,
    ensures
        stinger_entries(stingers) == stinger_entries(stingers.take(count)),
    decreases stingers.len() - count,
{
    if count < stingers.len() {
        assert(stingers.take(count + 1).drop_last() =~= stingers.take(count));
        lemma_stinger_entries_fail_early(stingers, count + 1);
    } else {
        assert(stingers.take(count) =~= stingers);
    }
}

fn compile_video_routes(inputs: &Vec<Input>) -> (routes: OrderedMap<InputId, NativeVideoRoute>)
    ensures
        routes.wf(),
        routes.entries@ == video_entries(inputs@),
{
    let mut routes: OrderedMap<InputId, NativeVideoRoute> = OrderedMap::new();
    assert(inputs@.take(0) =~= Seq::<Input>::empty());
    assert(routes.entries@ =~= Seq::<(InputId, NativeVideoRoute)>::empty());
    let mut i: usize = 0;
    while i < inputs.len()
        invariant
            i <= inputs@.len(),
            routes.wf(),
            routes.entries@ == video_entries(inputs@.take(i as int)),
        decreases inputs@.len() - i,
    {
        proof {
            assert(inputs@.take(i + 1).drop_last() =~= inputs@.take(i as int));
            assert(inputs@.take(i + 1).last() == inputs@[i as int]);
        }
        let route: NativeVideoRoute = match inputs[i].kind {
            InputKind::Scene { scene_id, .. } => NativeVideoRoute::Scene(scene_id),
            InputKind::Media => NativeVideoRoute::Leaf(inputs[i].id),
        };
        routes.insert(inputs[i].id, route);
        i = i + 1;
    }
    assert(inputs@.take(i as int) =~= inputs@);
    routes
}

fn collect_roots(routes: &OrderedMap<InputId, NativeVideoRoute>) -> (roots: Vec<SceneId>)
    ensures
        roots@ == input_roots(routes.entries@),
{
    let entries = &routes.entries;
    let mut roots: Vec<SceneId> = Vec::new();
    assert(entries@.take(0) =~= Seq::<(InputId, NativeVideoRoute)>::empty());
    let mut i: usize = 0;
    while i < entries.len()
        invariant
            i <= entries@.len(),
            ordered::ascending(roots@),
            roots@ == input_roots(entries@.take(i as int)),
        decreases entries@.len() - i,
    {
        proof {
            assert(entries@.take(i + 1).drop_last() =~= entries@.take(i as int));
            assert(entries@.take(i + 1).last() == entries@[i as int]);
        }
        match entries[i].1 {
            NativeVideoRoute::Scene(scene) => {
                insert_key(&mut roots, scene);
            },
            NativeVideoRoute::Leaf(_) => {},
        }
        i = i + 1;
    }
    assert(entries@.take(i as int) =~= entries@);
    roots
}

fn collect_routes(routes: &OrderedMap<InputId, NativeVideoRoute>) -> (values: Vec<NativeVideoRoute>)
    ensures
        values@ == route_values(routes.entries@),
{
    let entries = &routes.entries;
    let mut values: Vec<NativeVideoRoute> = Vec::new();
    let mut i: usize = 0;
    while i < entries.len()
        invariant
            i <= entries@.len(),
            values@ == route_values(entries@).take(i as int),
        decreases entries@.len() - i,
    {
        values.push(entries[i].1);
        i = i + 1;
        assert(values@ =~= route_values(entries@).take(i as int));
    }
    assert(values@ =~= route_values(entries@));
    values
}

fn count_enabled(layers: &Vec<Layer>) -> (count: usize)
    ensures
        count == enabled_layers(layers@),
        count <= layers@.len(),
{
    let mut count: usize = 0;
    assert(layers@.take(0) =~= Seq::<Layer>::empty());
    let mut i: usize = 0;
    while i < layers.len()
        invariant
            i <= layers@.len(),
            count <= i,
            count == enabled_layers(layers@.take(i as int)),
        decreases layers@.len() - i,
    {
        proof {
            assert(layers@.take(i + 1).drop_last() =~= layers@.take(i as int));
            assert(layers@.take(i + 1).last() == layers@[i as int]);
        }
        if layers[i].enabled {
            count = count + 1;
        }
        i = i + 1;
    }
    assert(layers@.take(i as int) =~= layers@);
    count
}

fn count_active_layers(project: &Project, order: &Vec<SceneId>, maximum: usize) -> (total: Result<
    usize,
    NativeProjectPlanError,
>)
    ensures
        match total {
            Ok(count) => active_layers(*project, order@, maximum) == Ok::<
                nat,
                NativeProjectPlanError,
            >(count as nat),
            Err(error) => active_layers(*project, order@, maximum) == Err::<
                nat,
                NativeProjectPlanError,
            >(error),
        },
{
    let mut total: usize = 0;
    assert(order@.take(0) =~= Seq::<SceneId>::empty());
    let mut i: usize = 0;
    while i < order.len()
        invariant
            i <= order@.len(),
            active_layers(*project, order@.take(i as int), maximum) == Ok::<
                nat,
                NativeProjectPlanError,
            >(total as nat),
        decreases order@.len() - i,
    {
        proof {
            assert(order@.take(i + 1).drop_last() =~= order@.take(i as int));
            assert(order@.take(i + 1).last() == order@[i as int]);
            if active_layers(*project, order@.take(i + 1), maximum) is Err {
                lemma_active_layers_fail_early(*project, order@, maximum, i + 1);
            }
        }
        match find_scene(project, order[i]) {
            None => {
                return Err(NativeProjectPlanError::MissingScene(order[i]));
            },
            Some(scene) => match total.checked_add(count_enabled(&scene.layers)) {
                None => {
                    return Err(
                        NativeProjectPlanError::TooManyActiveLayers { actual: usize::MAX, maximum },
                    );
                },
                Some(sum) => {
                    total = sum;
                },
            },
        }
        i = i + 1;
    }
    assert(order@.take(i as int) =~= order@);
    Ok(total)
}

/// Finds the scenes to compose, in the order in which they are composed.
pub fn native_scene_order(project: &Project, limits: NativeProjectLimits) -> (result: Result<
    Vec<SceneId>,
    NativeProjectPlanError,
>)
    ensures
        match result {
            Ok(order) => bounded_order(*project, limits) == Ok::<
                Seq<SceneId>,
                NativeProjectPlanError,
            >(order@),
            Err(error) => bounded_order(*project, limits) == Err::<
                Seq<SceneId>,
                NativeProjectPlanError,
            >(error),
        },
{
    let routes: OrderedMap<InputId, NativeVideoRoute> = compile_video_routes(&project.inputs);
    let roots: Vec<SceneId> = collect_roots(&routes);
    let order: Vec<SceneId> = match visit_native_scenes(&roots, project) {
        Err(error) => {
            return Err(error);
        },
        Ok(order) => order,
    };
    if order.len() > limits.max_reachable_scenes {
        return Err(
            NativeProjectPlanError::TooManyReachableScenes {
                actual: order.len(),
                maximum: limits.max_reachable_scenes,
            },
        );
    }
    let total: usize = match count_active_layers(project, &order, limits.max_total_active_layers) {
        Err(error) => {
            return Err(error);
        },
        Ok(total) => total,
    };
    if total > limits.max_total_active_layers {
        return Err(
            NativeProjectPlanError::TooManyActiveLayers {
                actual: total,
                maximum: limits.max_total_active_layers,
            },
        );
    }
    Ok(order)
}

fn mask_lies_within(project: &Project, layer: &Layer) -> (fits: bool)
    ensures
        fits == mask_fits(*project, *layer),
{
    let (width, height): (u32, u32) = match layer.crop {
        Some(crop) => (crop.width, crop.height),
        None => (project.width, project.height),
    };
    match layer.mask {
        None => true,
        Some(mask) => {
            let right_fits = match mask.x.checked_add(mask.width) {
                Some(right) => right <= width,
                None => false,
            };
            let bottom_fits = match mask.y.checked_add(mask.height) {
                Some(bottom) => bottom <= height,
                None => false,
            };
            mask.width != 0 && mask.height != 0 && right_fits && bottom_fits
        },
    }
}

/// Drafts the scene `id` for the compositor, giving out tokens from `first` on.
pub fn draft_native_scene(project: &Project, id: SceneId, first: u64) -> (result: Result<
    NativeSceneDraft,
    NativeProjectPlanError,
>)
    ensures
        match result {
            Ok(draft) => {
                &&& drafted_scene(*project, id, first) == Ok::<DraftModel, NativeProjectPlanError>(
                    draft.model(),
                )
                &&& draft.sources.wf()
                &&& draft.id == id
                &&& draft.width == project.width
                &&& draft.height == project.height
                &&& scene_graph::scene_model(*project, id) matches Some(scene) && draft.background
                    == scene.background
            },
            Err(error) => drafted_scene(*project, id, first) == Err::<
                DraftModel,
                NativeProjectPlanError,
            >(error),
        },
{
    let scene: &Scene = match find_scene(project, id) {
        None => {
            return Err(NativeProjectPlanError::MissingScene(id));
        },
        Some(scene) => scene,
    };
    let model_layers = &scene.layers;
    let mut layers: Vec<SourceLayer> = Vec::new();
    let mut sources: OrderedMap<NativeSceneSource, u64> = OrderedMap::new();
    let mut next_source: u64 = first;
    assert(model_layers@.take(0) =~= Seq::<Layer>::empty());
    assert(layers@ =~= Seq::<SourceLayer>::empty());
    assert(sources.entries@ =~= Seq::<(NativeSceneSource, u64)>::empty());
    let mut i: usize = 0;
    while i < model_layers.len()
        invariant
            i <= model_layers@.len(),
            sources.wf(),
            drafted_layers(*project, id, model_layers@.take(i as int), first) == Ok::<
                DraftModel,
                NativeProjectPlanError,
            >(DraftModel { layers: layers@, sources: sources.entries@, next_source }),
            drafted_scene(*project, id, first) == drafted_layers(
                *project,
                id,
                model_layers@,
                first,
            ),
        decreases model_layers@.len() - i,
    {
        proof {
            assert(model_layers@.take(i + 1).drop_last() =~= model_layers@.take(i as int));
            assert(model_layers@.take(i + 1).last() == model_layers@[i as int]);
            if drafted_layers(*project, id, model_layers@.take(i + 1), first) is Err {
                lemma_drafted_layers_fail_early(*project, id, model_layers@, first, i + 1);
            }
        }
        let layer: Layer = model_layers[i];
        if !mask_lies_within(project, &layer) {
            return Err(
                NativeProjectPlanError::Composition {
                    scene: id,
                    error: PlanError::InvalidMask { layer: i },
                },
            );
        }
        let token: u64 = if layer.enabled {
            let source: NativeSceneSource = match resolve_scene_source(layer.source, project) {
                Err(error) => {
                    return Err(error);
                },
                Ok(source) => source,
            };
            match sources.get(source) {
                Some(token) => *token,
                None => {
                    let token: u64 = next_source;
                    next_source = match next_source.checked_add(1) {
                        None => {
                            return Err(NativeProjectPlanError::SourceTokenExhausted);
                        },
                        Some(next) => next,
                    };
                    sources.insert(source, token);
                    token
                },
            }
        } else {
            0
        };
        layers.push(
            SourceLayer {
                source: token,
                z: layer.z_order,
                transform: layer.geometry,
                enabled: layer.enabled,
                opacity: layer.opacity,
                crop: layer.crop,
                mask: layer.mask,
            },
        );
        i = i + 1;
    }
    assert(model_layers@.take(i as int) =~= model_layers@);
    Ok(
        NativeSceneDraft {
            id,
            width: project.width,
            height: project.height,
            background: scene.background,
            layers,
            sources,
            next_source,
        },
    )
}

fn plan_scenes(project: &Project, order: &Vec<SceneId>, outcomes: &Vec<SceneOutcome>) -> (result:
    Result<Vec<NativeScenePlan>, NativeProjectPlanError>)
    requires
        outcomes@.len() == order@.len(),
    ensures
        match result {
            Ok(scenes) => planned_scenes(*project, order@, outcomes@) matches Ok((views, _))
                && views == scene_execution::scene_views(scenes@) && forall|i: int|
                0 <= i < scenes@.len() ==> (#[trigger] scenes@[i]).sources.wf(),
            Err(error) => planned_scenes(*project, order@, outcomes@) == Err::<
                (Seq<ScenePlanModel>, u64),
                NativeProjectPlanError,
            >(error),
        },
{
    let mut scenes: Vec<NativeScenePlan> = Vec::new();
    let mut next_source: u64 = 0;
    assert(order@.take(0) =~= Seq::<SceneId>::empty());
    assert(scene_execution::scene_views(scenes@) =~= Seq::<ScenePlanModel>::empty());
    let mut i: usize = 0;
    while i < order.len()
        invariant
            i <= order@.len(),
            outcomes@.len() == order@.len(),
            planned_scenes(*project, order@.take(i as int), outcomes@) == Ok::<
                (Seq<ScenePlanModel>, u64),
                NativeProjectPlanError,
            >((scene_execution::scene_views(scenes@), next_source)),
            forall|k: int| 0 <= k < scenes@.len() ==> (#[trigger] scenes@[k]).sources.wf(),
        decreases order@.len() - i,
    {
        proof {
            assert(order@.take(i + 1).drop_last() =~= order@.take(i as int));
            assert(order@.take(i + 1).last() == order@[i as int]);
            if planned_scenes(*project, order@.take(i + 1), outcomes@) is Err {
                lemma_planned_scenes_fail_early(*project, order@, outcomes@, i + 1);
            }
        }
        let id: SceneId = order[i];
        let outcome: SceneOutcome = outcomes[i];
        if find_scene(project, id).is_none() {
            return Err(NativeProjectPlanError::MissingScene(id));
        }
        match outcome.canvas {
            Err(error) => {
                return Err(NativeProjectPlanError::Scene { scene: id, error });
            },
            Ok(_) => {},
        }
        let draft: NativeSceneDraft = match draft_native_scene(project, id, next_source) {
            Err(error) => {
                return Err(error);
            },
            Ok(draft) => draft,
        };
        let composition: Composition = match outcome.composition {
            Err(error) => {
                return Err(NativeProjectPlanError::Composition { scene: id, error });
            },
            Ok(composition) => composition,
        };
        let output: u64 = draft.next_source;
        next_source = match output.checked_add(1) {
            None => {
                return Err(NativeProjectPlanError::SourceTokenExhausted);
            },
            Some(next) => next,
        };
        let ghost before = scene_execution::scene_views(scenes@);
        let plan: NativeScenePlan = NativeScenePlan {
            id,
            output,
            composition,
            sources: draft.sources,
        };
        let ghost view = plan@;
        scenes.push(plan);
        assert(scene_execution::scene_views(scenes@) =~= before.push(view));
        i = i + 1;
    }
    assert(order@.take(i as int) =~= order@);
    Ok(scenes)
}

fn collect_stinger_routes(
    stingers: &Vec<StingerConfig>,
    routes: &OrderedMap<InputId, NativeVideoRoute>,
) -> (values: Vec<NativeVideoRoute>)
    requires
        routes.wf(),
    ensures
        values@ == stinger_media_routes(stingers@, routes.entries@),
{
    let mut values: Vec<NativeVideoRoute> = Vec::new();
    assert(stingers@.take(0) =~= Seq::<StingerConfig>::empty());
    let mut i: usize = 0;
    while i < stingers.len()
        invariant
            i <= stingers@.len(),
            routes.wf(),
            values@ == stinger_media_routes(stingers@.take(i as int), routes.entries@),
        decreases stingers@.len() - i,
    {
        proof {
            assert(stingers@.take(i + 1).drop_last() =~= stingers@.take(i as int));
            assert(stingers@.take(i + 1).last() == stingers@[i as int]);
        }
        match routes.get(stingers[i].media_input) {
            Some(route) => {
                values.push(*route);
            },
            None => {},
        }
        i = i + 1;
    }
    assert(stingers@.take(i as int) =~= stingers@);
    values
}

fn charge_transient_bytes(project: &Project, targets: usize, limits: NativeProjectLimits) -> (bytes:
    Result<u64, NativeProjectPlanError>)
    ensures
        bytes == transient_bytes(*project, targets as nat, limits),
{
    let ghost frame = project.width * project.height * 8;
    proof {
        assert(0 <= project.width * project.height <= 0xffff_ffff * 0xffff_ffff) by (nonlinear_arith)
            requires
                0 <= project.width <= 0xffff_ffff,
                0 <= project.height <= 0xffff_ffff,
        ;
    }
    let pixels: u64 = (project.width as u64) * (project.height as u64);
    let frame_bytes: u64 = match pixels.checked_mul(RGBA16_FLOAT_BYTES_PER_PIXEL) {
        None => {
            return Err(
                NativeProjectPlanError::TransientByteSizeOverflow {
                    width: project.width,
                    height: project.height,
                    targets,
                },
            );
        },
        Some(bytes) => bytes,
    };
    let required: u64 = match frame_bytes.checked_mul(targets as u64) {
        None => {
            return Err(
                NativeProjectPlanError::TransientByteSizeOverflow {
                    width: project.width,
                    height: project.height,
                    targets,
                },
            );
        },
        Some(bytes) => bytes,
    };
    if required > limits.max_transient_rgba16f_bytes {
        return Err(
            NativeProjectPlanError::TransientBytesExceeded {
                required,
                maximum: limits.max_transient_rgba16f_bytes,
            },
        );
    }
    Ok(required)
}

fn compile_audio_routes(project: &Project) -> (result: Result<
    OrderedMap<InputId, NativeAudioRoute>,
    NativeProjectPlanError,
>)
    ensures
        match result {
            Ok(routes) => routes.wf() && audio_route::audio_entries(*project, project.inputs@)
                == Ok::<Seq<(InputId, NativeAudioRoute)>, NativeProjectPlanError>(routes.entries@),
            Err(error) => audio_route::audio_entries(*project, project.inputs@) == Err::<
                Seq<(InputId, NativeAudioRoute)>,
                NativeProjectPlanError,
            >(error),
        },
{
    let inputs = &project.inputs;
    let mut routes: OrderedMap<InputId, NativeAudioRoute> = OrderedMap::new();
    assert(inputs@.take(0) =~= Seq::<Input>::empty());
    assert(routes.entries@ =~= Seq::<(InputId, NativeAudioRoute)>::empty());
    let mut i: usize = 0;
    while i < inputs.len()
        invariant
            i <= inputs@.len(),
            inputs@ == project.inputs@,
            routes.wf(),
            audio_route::audio_entries(*project, inputs@.take(i as int)) == Ok::<
                Seq<(InputId, NativeAudioRoute)>,
                NativeProjectPlanError,
            >(routes.entries@),
        decreases inputs@.len() - i,
    {
        proof {
            assert(inputs@.take(i + 1).drop_last() =~= inputs@.take(i as int));
            assert(inputs@.take(i + 1).last() == inputs@[i as int]);
            if audio_route::audio_entries(*project, inputs@.take(i + 1)) is Err {
                audio_route::lemma_audio_entries_fail_early(*project, inputs@, i + 1);
            }
        }
        let mut visiting: Vec<InputId> = Vec::new();
        assert(visiting@.to_set() =~= Set::<InputId>::empty());
        match resolve_audio_route(inputs[i].id, project, &mut visiting) {
            Err(error) => {
                return Err(error);
            },
            Ok(route) => {
                routes.insert(inputs[i].id, route);
            },
        }
        i = i + 1;
    }
    assert(inputs@.take(i as int) =~= inputs@);
    Ok(routes)
}

fn compile_stingers(stingers: &Vec<StingerConfig>) -> (result: Result<
    OrderedMap<StingerSlotId, NativeStingerConfig>,
    NativeProjectPlanError,
>)
    ensures
        match result {
            Ok(compiled_stingers) => compiled_stingers.wf() && stinger_entries(stingers@) == Ok::<
                Seq<(StingerSlotId, NativeStingerConfig)>,
                NativeProjectPlanError,
            >(compiled_stingers.entries@),
            Err(error) => stinger_entries(stingers@) == Err::<
                Seq<(StingerSlotId, NativeStingerConfig)>,
                NativeProjectPlanError,
            >(error),
        },
{
    let mut result: OrderedMap<StingerSlotId, NativeStingerConfig> = OrderedMap::new();
    assert(stingers@.take(0) =~= Seq::<StingerConfig>::empty());
    assert(result.entries@ =~= Seq::<(StingerSlotId, NativeStingerConfig)>::empty());
    let mut i: usize = 0;
    while i < stingers.len()
        invariant
            i <= stingers@.len(),
            result.wf(),
            stinger_entries(stingers@.take(i as int)) == Ok::<
                Seq<(StingerSlotId, NativeStingerConfig)>,
                NativeProjectPlanError,
            >(result.entries@),
        decreases stingers@.len() - i,
    {
        proof {
            assert(stingers@.take(i + 1).drop_last() =~= stingers@.take(i as int));
            assert(stingers@.take(i + 1).last() == stingers@[i as int]);
            if stinger_entries(stingers@.take(i + 1)) is Err {
                lemma_stinger_entries_fail_early(stingers@, i + 1);
            }
        }
        let config: StingerConfig = stingers[i];
        match config.slot {
            None => {
                return Err(NativeProjectPlanError::InvalidStingerSlot(config.slot_number));
            },
            Some(slot) => {
                result.insert(
                    slot,
                    NativeStingerConfig {
                        media_input: config.media_input,
                        preload: config.preload,
                        cut_point_frames: config.cut_point_frames,
                        audio_policy: config.audio_policy,
                    },
                );
            },
        }
        i = i + 1;
    }
    assert(stingers@.take(i as int) =~= stingers@);
    Ok(result)
}

fn compile_strips(strips: &Vec<InputAudioStrip>) -> (states: OrderedMap<
    InputId,
    InputAudioStripState,
>)
    ensures
        states.wf(),
        states.entries@ == strip_entries(strips@),
{
    let mut states: OrderedMap<InputId, InputAudioStripState> = OrderedMap::new();
    assert(strips@.take(0) =~= Seq::<InputAudioStrip>::empty());
    assert(states.entries@ =~= Seq::<(InputId, InputAudioStripState)>::empty());
    let mut i: usize = 0;
    while i < strips.len()
        invariant
            i <= strips@.len(),
            states.wf(),
            states.entries@ == strip_entries(strips@.take(i as int)),
        decreases strips@.len() - i,
    {
        proof {
            assert(strips@.take(i + 1).drop_last() =~= strips@.take(i as int));
            assert(strips@.take(i + 1).last() == strips@[i as int]);
        }
        states.insert(strips[i].input, strips[i].state);
        i = i + 1;
    }
    assert(strips@.take(i as int) =~= strips@);
    states
}

impl NativeProjectPlan {
    /// Whether the maps of the plan are in order.
    pub open spec fn wf(self) -> bool {
        &&& self.video_routes.wf()
        &&& self.audio_routes.wf()
        &&& self.audio_strips.wf()
        &&& self.stingers.wf()
        &&& forall|i: int| 0 <= i < self.scenes@.len() ==> (#[trigger] self.scenes@[i]).sources.wf()
    }

    /// Compiles all scene-input roots and their enabled dependencies without I/O.
    ///
    /// `outcomes` holds what the compositor says of each scene, in the order that
    /// [`native_scene_order`] gives.
    ///
    /// # Errors
    ///
    /// Returns typed missing-resource, cycle, scene-validation, or bound failures.
    pub fn compile(
        project: &Project,
        limits: NativeProjectLimits,
        outcomes: &Vec<SceneOutcome>,
    ) -> (result: Result<Self, NativeProjectPlanError>)
        requires
            bounded_order(*project, limits) matches Ok(order) ==> outcomes@.len() == order.len(),
        ensures
            match result {
                Ok(plan) => plan.wf() && compiled(*project, limits, outcomes@) == Ok::<
                    ProjectPlanModel,
                    NativeProjectPlanError,
                >(plan@),
                Err(error) => compiled(*project, limits, outcomes@) == Err::<
                    ProjectPlanModel,
                    NativeProjectPlanError,
                >(error),
            },
    {
        let video_routes: OrderedMap<InputId, NativeVideoRoute> = compile_video_routes(
            &project.inputs,
        );
        let order: Vec<SceneId> = match native_scene_order(project, limits) {
            Err(error) => {
                return Err(error);
            },
            Ok(order) => order,
        };
        let scenes: Vec<NativeScenePlan> = match plan_scenes(project, &order, outcomes) {
            Err(error) => {
                return Err(error);
            },
            Ok(scenes) => scenes,
        };
        let routes: Vec<NativeVideoRoute> = collect_routes(&video_routes);
        let stinger_routes: Vec<NativeVideoRoute> = collect_stinger_routes(
            &project.stingers,
            &video_routes,
        );
        let peak: usize = match maximum_native_execution_peak(&routes, &stinger_routes, &scenes) {
            None => {
                return Err(NativeProjectPlanError::TransientTargetCountOverflow);
            },
            Some(peak) => peak,
        };
        let bytes: u64 = match charge_transient_bytes(project, peak, limits) {
            Err(error) => {
                return Err(error);
            },
            Ok(bytes) => bytes,
        };
        let audio_routes: OrderedMap<InputId, NativeAudioRoute> = match compile_audio_routes(
            project,
        ) {
            Err(error) => {
                return Err(error);
            },
            Ok(routes) => routes,
        };
        let stingers: OrderedMap<StingerSlotId, NativeStingerConfig> = match compile_stingers(
            &project.stingers,
        ) {
            Err(error) => {
                return Err(error);
            },
            Ok(stingers) => stingers,
        };
        Ok(
            NativeProjectPlan {
                video_routes,
                audio_routes,
                audio_strips: compile_strips(&project.input_audio_strips),
                stingers,
                frame_rate: project.frame_rate,
                scenes,
                peak_rgba16f_targets: peak,
                transient_rgba16f_bytes: bytes,
            },
        )
    }

    /// The route of the input's picture.
    pub fn video_route(&self, input: InputId) -> (route: Option<NativeVideoRoute>)
        requires
            self.wf(),
        ensures
            route == self.video_routes.lookup(input),
    {
        match self.video_routes.get(input) {
            Some(route) => Some(*route),
            None => None,
        }
    }

    /// Where the input's audio comes from.
    pub fn audio_route(&self, input: InputId) -> (route: Option<NativeAudioRoute>)
        requires
            self.wf(),
        ensures
            route == self.audio_routes.lookup(input),
    {
        match self.audio_routes.get(input) {
            Some(route) => Some(*route),
            None => None,
        }
    }

    /// The audio settings of the input.
    pub fn audio_strip(&self, input: InputId) -> (state: Option<InputAudioStripState>)
        requires
            self.wf(),
        ensures
            state == self.audio_strips.lookup(input),
    {
        match self.audio_strips.get(input) {
            Some(state) => Some(*state),
            None => None,
        }
    }

    /// The Stinger of the slot.
    pub fn stinger(&self, slot: StingerSlotId) -> (config: Option<NativeStingerConfig>)
        requires
            self.wf(),
        ensures
            config == self.stingers.lookup(slot),
    {
        match self.stingers.get(slot) {
            Some(config) => Some(*config),
            None => None,
        }
    }

    /// The scenes in the order in which they are composed.
    pub fn scene_order(&self) -> (order: Vec<SceneId>)
        ensures
            order@ == Seq::new(self@.scenes.len(), |i: int| self@.scenes[i].id),
    {
        let mut order: Vec<SceneId> = Vec::new();
        let mut i: usize = 0;
        while i < self.scenes.len()
            invariant
                i <= self.scenes@.len(),
                order@ == Seq::new(i as nat, |k: int| self@.scenes[k].id),
            decreases self.scenes@.len() - i,
        {
            order.push(self.scenes[i].id);
            i = i + 1;
            assert(order@ =~= Seq::new(i as nat, |k: int| self@.scenes[k].id));
        }
        order
    }

    /// How many layers the composed scenes draw.
    pub fn active_layer_count(&self) -> (count: usize)
        requires
            drawn_layers(self@.scenes) <= usize::MAX,
        ensures
            count == drawn_layers(self@.scenes),
    {
        let ghost views = self@.scenes;
        let mut count: usize = 0;
        assert(views.take(0) =~= Seq::<ScenePlanModel>::empty());
        let mut i: usize = 0;
        while i < self.scenes.len()
            invariant
                i <= self.scenes@.len(),
                views == self@.scenes,
                count == drawn_layers(views.take(i as int)),
                drawn_layers(views) <= usize::MAX,
            decreases self.scenes@.len() - i,
        {
            proof {
                assert(views.take(i + 1).drop_last() =~= views.take(i as int));
                assert(views.take(i + 1).last() == self.scenes@[i as int]@);
                lemma_drawn_layers_grow(views, i + 1);
            }
            count = count + self.scenes[i].composition.layer_count;
            i = i + 1;
        }
        assert(views.take(i as int) =~= views);
        count
    }

    /// Maximum simultaneous scene, transition, and previous Program targets.
    pub fn peak_rgba16f_targets(&self) -> (targets: usize)
        ensures
            targets == self.peak_rgba16f_targets,
    {
        self.peak_rgba16f_targets
    }

    /// The bytes of those targets.
    pub fn transient_rgba16f_bytes(&self) -> (bytes: u64)
        ensures
            bytes == self.transient_rgba16f_bytes,
    {
        self.transient_rgba16f_bytes
    }

    /// The scenes that a frame over `inputs` composes.
    pub fn scene_execution(&self, inputs: &Vec<InputId>) -> (found: Option<NativeSceneExecution>)
        requires
            self.wf(),
        ensures
            match found {
                Some(execution) => scene_execution::execution(
                    self.routes_of(inputs@),
                    self@.scenes,
                ) == Some(execution@),
                None => scene_execution::execution(
                    self.routes_of(inputs@),
                    self@.scenes,
                ) is None,
            },
    {
        let mut routes: Vec<Option<NativeVideoRoute>> = Vec::new();
        let mut i: usize = 0;
        while i < inputs.len()
            invariant
                i <= inputs@.len(),
                self.wf(),
                routes@ == self.routes_of(inputs@).take(i as int),
            decreases inputs@.len() - i,
        {
            routes.push(self.video_route(inputs[i]));
            i = i + 1;
            assert(routes@ =~= self.routes_of(inputs@).take(i as int));
        }
        assert(routes@ =~= self.routes_of(inputs@));
        scene_execution_for_routes(&routes, &self.scenes)
    }

    /// The routes of the listed inputs.
    pub open spec fn routes_of(self, inputs: Seq<InputId>) -> Seq<Option<NativeVideoRoute>> {
        Seq::new(inputs.len(), |i: int| self.video_routes.lookup(inputs[i]))
    }
}

/// How many layers the scenes draw.
pub open spec fn drawn_layers(scenes: Seq<ScenePlanModel>) -> nat
    decreases scenes.len(),
{
    if scenes.len() == 0 {
        0
    } else {
        drawn_layers(scenes.drop_last()) + scenes.last().composition.layer_count as nat
    }
}

proof fn lemma_drawn_layers_grow(scenes: Seq<ScenePlanModel>, count: int)
    requires
        0 <= count <= scenes.len(),
    ensures
        drawn_layers(scenes.take(count)) <= drawn_layers(scenes),
    decreases scenes.len() - count,
{
    if count < scenes.len() {
        assert(scenes.take(count + 1).drop_last() =~= scenes.take(count));
        lemma_drawn_layers_grow(scenes, count + 1);
    } else {
        assert(scenes.take(count) =~= scenes);
    }
}

} // verus!
