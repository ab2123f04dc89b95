use freemix_daemon::audio_route::NativeAudioRoute;
use freemix_daemon::model::{
    CropRect, FrameRate, Input, InputAudioStrip, InputAudioStripState, InputId, InputKind, Layer,
    LayerGeometry, OutsideFailure, Project, RectMask, Rgba8, Rotation, Scene, SceneId, SourceRef,
    StingerAudioPolicy, StingerConfig, StingerSlotId,
};
use freemix_daemon::project_plan::{
    draft_native_scene, native_scene_order, NativeProjectLimits, NativeProjectPlan,
    NativeProjectPlanError, PlanError, SceneOutcome,
};
use freemix_daemon::scene_execution::{Composition, NativeVideoRoute};
use freemix_daemon::scene_graph::NativeSceneSource;

fn input(value: u128) -> InputId {
    InputId(value)
}

fn scene(value: u128) -> SceneId {
    SceneId(value)
}

fn native_plan_project(width: u32, height: u32) -> Project {
    Project {
        inputs: Vec::new(),
        scenes: Vec::new(),
        stingers: Vec::new(),
        input_audio_strips: Vec::new(),
        frame_rate: FrameRate { numerator: 30, denominator: 1 },
        width,
        height,
    }
}

fn add_leaf(project: &mut Project, id: InputId) {
    project.inputs.push(Input { id, kind: InputKind::Media });
}

fn add_scene_input(
    project: &mut Project,
    id: InputId,
    scene_id: SceneId,
    audio_source: Option<InputId>,
) {
    project.inputs.push(Input { id, kind: InputKind::Scene { scene_id, audio_source } });
}

fn layer(source: SourceRef, z_order: i32) -> Layer {
    Layer {
        source,
        enabled: true,
        geometry: LayerGeometry {
            translation_x: 0,
            translation_y: 0,
            width: 4,
            height: 2,
            rotation: Rotation::Deg0,
        },
        crop: None,
        mask: None,
        opacity: u8::MAX,
        z_order,
    }
}

fn add_scene(project: &mut Project, id: SceneId, layers: Vec<Layer>) {
    project.scenes.push(Scene {
        id,
        background: Rgba8 { red: 0, green: 0, blue: 0, alpha: 255 },
        layers,
    });
}

/// What a compositor says that accepts every scene.
fn accepting(project: &Project, limits: NativeProjectLimits) -> Vec<SceneOutcome> {
    let order = match native_scene_order(project, limits) {
        Ok(order) => order,
        Err(_) => return Vec::new(),
    };
    order
        .iter()
        .map(|id| {
            let scene = project.scenes.iter().find(|scene| scene.id == *id).unwrap();
            let layer_count = scene.layers.iter().filter(|layer| layer.enabled).count();
            SceneOutcome {
                canvas: Ok(()),
                composition: Ok(Composition { handle: 7, layer_count }),
            }
        })
        .collect()
}

fn compile(
    project: &Project,
    limits: NativeProjectLimits,
) -> Result<NativeProjectPlan, NativeProjectPlanError> {
    let outcomes = accepting(project, limits);
    NativeProjectPlan::compile(project, limits, &outcomes)
}

fn compile_default(project: &Project) -> Result<NativeProjectPlan, NativeProjectPlanError> {
    compile(project, NativeProjectLimits::default())
}

#[test]
fn native_project_plan_accepts_empty_scene_and_ignores_unreachable_scene() {
    let mut leaf_only = native_plan_project(4, 2);
    add_leaf(&mut leaf_only, input(9));
    let leaf_plan = compile_default(&leaf_only).ok().unwrap();
    assert_eq!(leaf_plan.peak_rgba16f_targets(), 3);
    assert_eq!(leaf_plan.transient_rgba16f_bytes(), 3 * 4 * 2 * 8);

    let mut project = native_plan_project(4, 2);
    add_scene_input(&mut project, input(1), scene(10), None);
    add_scene(&mut project, scene(10), Vec::new());
    add_scene(&mut project, scene(99), Vec::new());

    let plan = compile_default(&project).ok().unwrap();

    assert_eq!(plan.scene_order(), vec![scene(10)]);
    assert_eq!(plan.active_layer_count(), 0);
    assert_eq!(plan.peak_rgba16f_targets(), 4);
    assert_eq!(plan.transient_rgba16f_bytes(), 4 * 4 * 2 * 8);
    assert_eq!(plan.video_route(input(1)), Some(NativeVideoRoute::Scene(scene(10))));
    assert_eq!(plan.audio_route(input(1)), Some(NativeAudioRoute::Silence));
}

#[test]
fn native_project_plan_orders_nested_shared_scenes_dependency_first() {
    let mut project = native_plan_project(4, 2);
    add_leaf(&mut project, input(1));
    add_scene_input(&mut project, input(2), scene(20), Some(input(1)));
    add_scene_input(&mut project, input(3), scene(30), Some(input(1)));
    add_scene(&mut project, scene(10), vec![layer(SourceRef::Input(input(1)), 0)]);
    add_scene(&mut project, scene(20), vec![layer(SourceRef::Scene(scene(10)), 0)]);
    add_scene(
        &mut project,
        scene(30),
        vec![layer(SourceRef::Scene(scene(10)), 0), layer(SourceRef::Scene(scene(10)), 1)],
    );

    let plan = compile_default(&project).ok().unwrap();

    assert_eq!(plan.scene_order(), vec![scene(10), scene(20), scene(30)]);
    assert_eq!(plan.active_layer_count(), 4);
    assert_eq!(plan.peak_rgba16f_targets(), 6);
    assert_eq!(plan.transient_rgba16f_bytes(), 6 * 4 * 2 * 8);
    assert_eq!(
        compile(
            &project,
            NativeProjectLimits {
                max_transient_rgba16f_bytes: 383,
                ..NativeProjectLimits::default()
            },
        )
        .err(),
        Some(NativeProjectPlanError::TransientBytesExceeded { required: 384, maximum: 383 })
    );
    let primary_only = plan.scene_execution(&vec![input(2), input(2)]).unwrap();
    assert_eq!(primary_only.required, vec![scene(10), scene(20)]);
    assert!(!primary_only.required.contains(&scene(30)));
}

#[test]
fn native_project_plan_accounts_for_three_independent_stinger_scene_roots() {
    let mut project = native_plan_project(4, 2);
    for (input_id, scene_id) in
        [(input(1), scene(10)), (input(2), scene(20)), (input(3), scene(30))]
    {
        add_scene_input(&mut project, input_id, scene_id, None);
        add_scene(&mut project, scene_id, Vec::new());
    }
    project.stingers.push(StingerConfig {
        slot_number: 1,
        slot: Some(StingerSlotId(1)),
        media_input: input(3),
        preload: true,
        cut_point_frames: 1,
        audio_policy: StingerAudioPolicy::Muted,
    });

    let plan = compile_default(&project).ok().unwrap();

    assert_eq!(plan.peak_rgba16f_targets(), 6);
    assert_eq!(plan.transient_rgba16f_bytes(), 6 * 4 * 2 * 8);
    let execution = plan.scene_execution(&vec![input(1), input(2), input(3)]).unwrap();
    assert_eq!(execution.required, vec![scene(10), scene(20), scene(30)]);
}

#[test]
fn native_project_plan_source_tokens_do_not_narrow_high_u128_ids() {
    let low = input(7);
    let high = input((1_u128 << 64) + 7);
    let mut project = native_plan_project(4, 2);
    add_leaf(&mut project, low);
    add_leaf(&mut project, high);
    add_scene_input(&mut project, input(3), scene(10), Some(low));
    add_scene(
        &mut project,
        scene(10),
        vec![layer(SourceRef::Input(low), 0), layer(SourceRef::Input(high), 1)],
    );

    let plan = compile_default(&project).ok().unwrap();
    let sources = &plan.scenes[0].sources.entries;

    assert_eq!(sources.len(), 2);
    assert!(sources.iter().any(|(source, _)| *source == NativeSceneSource::Leaf(low)));
    assert!(sources.iter().any(|(source, _)| *source == NativeSceneSource::Leaf(high)));
    assert_ne!(sources[0].1, sources[1].1);
    assert_eq!(plan.video_route(low), Some(NativeVideoRoute::Leaf(low)));
    assert_eq!(plan.video_route(high), Some(NativeVideoRoute::Leaf(high)));
}

#[test]
fn native_project_plan_maps_scene_visual_model_exactly() {
    let mut project = native_plan_project(4, 2);
    add_leaf(&mut project, input(1));
    add_scene_input(&mut project, input(2), scene(10), Some(input(1)));
    project.scenes.push(Scene {
        id: scene(10),
        background: Rgba8 { red: 12, green: 24, blue: 36, alpha: 48 },
        layers: vec![Layer {
            source: SourceRef::Input(input(1)),
            enabled: true,
            geometry: LayerGeometry {
                translation_x: -7,
                translation_y: 9,
                width: 3,
                height: 2,
                rotation: Rotation::Deg270,
            },
            crop: Some(CropRect { x: 1, y: 0, width: 2, height: 2 }),
            mask: Some(RectMask { x: 1, y: 0, width: 1, height: 2, invert: true }),
            opacity: 123,
            z_order: -4,
        }],
    });

    assert!(compile_default(&project).is_ok());
    let composition = draft_native_scene(&project, scene(10), 1).ok().unwrap();
    let mapped = &composition.layers[0];

    assert_eq!(composition.background, Rgba8 { red: 12, green: 24, blue: 36, alpha: 48 });
    assert_eq!(mapped.z, -4);
    assert_eq!(
        mapped.transform,
        LayerGeometry {
            translation_x: -7,
            translation_y: 9,
            width: 3,
            height: 2,
            rotation: Rotation::Deg270,
        }
    );
    assert_eq!(mapped.crop, Some(CropRect { x: 1, y: 0, width: 2, height: 2 }));
    assert_eq!(mapped.mask, Some(RectMask { x: 1, y: 0, width: 1, height: 2, invert: true }));
    assert_eq!(mapped.opacity, 123);
}

#[test]
fn native_project_plan_rejects_65_total_active_layers() {
    let mut project = native_plan_project(4, 2);
    add_leaf(&mut project, input(1));
    add_scene_input(&mut project, input(2), scene(10), Some(input(1)));
    add_scene(
        &mut project,
        scene(10),
        (0_i32..65).map(|z| layer(SourceRef::Input(input(1)), z)).collect(),
    );

    assert_eq!(
        compile_default(&project).err(),
        Some(NativeProjectPlanError::TooManyActiveLayers { actual: 65, maximum: 64 })
    );
}

#[test]
fn native_project_plan_routes_recursive_audio_without_collapsing_logical_inputs() {
    let mut project = native_plan_project(4, 2);
    add_leaf(&mut project, input(1));
    add_scene_input(&mut project, input(2), scene(20), Some(input(1)));
    add_scene_input(&mut project, input(3), scene(30), Some(input(2)));
    add_scene_input(&mut project, input(4), scene(40), None);
    for id in [20, 30, 40] {
        add_scene(&mut project, scene(id), Vec::new());
    }
    let plan = compile_default(&project).ok().unwrap();

    assert_eq!(plan.audio_route(input(3)), Some(NativeAudioRoute::Leaf(input(1))));
    assert_eq!(plan.audio_route(input(2)), Some(NativeAudioRoute::Leaf(input(1))));
    assert_eq!(plan.audio_route(input(4)), Some(NativeAudioRoute::Silence));
    assert_ne!(input(2), input(3));
}

#[test]
fn native_project_plan_reports_scene_cycles_missing_resources_and_bounds() {
    let mut cyclic = native_plan_project(4, 2);
    add_scene_input(&mut cyclic, input(1), scene(10), None);
    add_scene(&mut cyclic, scene(10), vec![layer(SourceRef::Scene(scene(20)), 0)]);
    add_scene(&mut cyclic, scene(20), vec![layer(SourceRef::Scene(scene(10)), 0)]);
    assert!(matches!(
        compile_default(&cyclic),
        Err(NativeProjectPlanError::SceneCycle { .. })
    ));

    let mut missing = native_plan_project(4, 2);
    add_scene_input(&mut missing, input(1), scene(10), None);
    add_scene(&mut missing, scene(10), vec![layer(SourceRef::Input(input(99)), 0)]);
    assert_eq!(
        compile_default(&missing).err(),
        Some(NativeProjectPlanError::MissingInput(input(99)))
    );

    let mut audio_cycle = native_plan_project(4, 2);
    add_scene_input(&mut audio_cycle, input(1), scene(10), Some(input(2)));
    add_scene_input(&mut audio_cycle, input(2), scene(20), Some(input(1)));
    add_scene(&mut audio_cycle, scene(10), Vec::new());
    add_scene(&mut audio_cycle, scene(20), Vec::new());
    assert!(matches!(
        compile_default(&audio_cycle),
        Err(NativeProjectPlanError::AudioCycle { .. })
    ));

    let mut bounded = native_plan_project(4, 2);
    add_scene_input(&mut bounded, input(1), scene(10), None);
    add_scene(&mut bounded, scene(10), Vec::new());
    assert_eq!(
        compile(
            &bounded,
            NativeProjectLimits { max_reachable_scenes: 0, ..NativeProjectLimits::default() },
        )
        .err(),
        Some(NativeProjectPlanError::TooManyReachableScenes { actual: 1, maximum: 0 })
    );
    assert_eq!(
        compile(
            &bounded,
            NativeProjectLimits {
                max_transient_rgba16f_bytes: 191,
                ..NativeProjectLimits::default()
            },
        )
        .err(),
        Some(NativeProjectPlanError::TransientBytesExceeded { required: 256, maximum: 191 })
    );
}

#[test]
fn missing_scenes_and_bad_stinger_slots_are_reported() {
    let mut project = native_plan_project(4, 2);
    add_scene_input(&mut project, input(1), scene(10), None);
    assert_eq!(
        compile_default(&project).err(),
        Some(NativeProjectPlanError::MissingScene(scene(10)))
    );

    let mut project = native_plan_project(4, 2);
    add_leaf(&mut project, input(1));
    project.stingers.push(StingerConfig {
        slot_number: 200,
        slot: None,
        media_input: input(1),
        preload: true,
        cut_point_frames: 1,
        audio_policy: StingerAudioPolicy::Muted,
    });
    assert_eq!(
        compile_default(&project).err(),
        Some(NativeProjectPlanError::InvalidStingerSlot(200))
    );
}

#[test]
fn what_the_compositor_refuses_is_reported_with_its_scene() {
    let mut project = native_plan_project(4, 2);
    add_leaf(&mut project, input(1));
    add_scene_input(&mut project, input(2), scene(10), Some(input(1)));
    add_scene(&mut project, scene(10), vec![layer(SourceRef::Input(input(1)), 0)]);
    let limits = NativeProjectLimits::default();

    let canvas = vec![SceneOutcome {
        canvas: Err(OutsideFailure(3)),
        composition: Ok(Composition { handle: 7, layer_count: 1 }),
    }];
    assert_eq!(
        NativeProjectPlan::compile(&project, limits, &canvas).err(),
        Some(NativeProjectPlanError::Scene { scene: scene(10), error: OutsideFailure(3) })
    );
    let composition = vec![SceneOutcome {
        canvas: Ok(()),
        composition: Err(PlanError::InvalidMask { layer: 0 }),
    }];
    assert_eq!(
        NativeProjectPlan::compile(&project, limits, &composition).err(),
        Some(NativeProjectPlanError::Composition {
            scene: scene(10),
            error: PlanError::InvalidMask { layer: 0 },
        })
    );
}

#[test]
fn a_picture_too_large_to_count_is_reported() {
    let mut project = native_plan_project(u32::MAX, u32::MAX);
    add_leaf(&mut project, input(1));
    assert_eq!(
        compile_default(&project).err(),
        Some(NativeProjectPlanError::TransientByteSizeOverflow {
            width: u32::MAX,
            height: u32::MAX,
            targets: 3,
        })
    );
}

#[test]
fn strips_and_stingers_are_found_by_their_keys() {
    let mut project = native_plan_project(4, 2);
    add_leaf(&mut project, input(1));
    let state = InputAudioStripState { gain_milli_db: -6_021, muted: true, follow_video: false };
    project.input_audio_strips.push(InputAudioStrip { input: input(1), state });
    project.stingers.push(StingerConfig {
        slot_number: 1,
        slot: Some(StingerSlotId(1)),
        media_input: input(1),
        preload: false,
        cut_point_frames: 5,
        audio_policy: StingerAudioPolicy::MixWithProgram,
    });
    let plan = compile_default(&project).ok().unwrap();
    assert_eq!(plan.audio_strip(input(1)), Some(state));
    assert_eq!(plan.audio_strip(input(2)), None);
    let stinger = plan.stinger(StingerSlotId(1)).unwrap();
    assert_eq!(stinger.cut_point_frames, 5);
    assert!(!stinger.preload);
    assert!(plan.stinger(StingerSlotId(2)).is_none());
}
