use freemix_daemon::model::{
    ClockDomainId, FadeToBlackFrame, FadeToBlackPosition, FrameRate, FrameResult, Input, InputId,
    InputKind, Layer, LayerGeometry, OutsideFailure, ProgramFrame, Project, Rgba8, Rotation, Scene,
    SceneId, SourceRef, SwitcherTransitionKind,
};
use freemix_daemon::ordered::OrderedMap;
use freemix_daemon::project_plan::{
    native_scene_order, NativeProjectLimits, NativeProjectPlan, SceneOutcome,
};
use freemix_daemon::render::{
    CompositorVerdict, NativeProjectFrameState, NativeSourceRenderError, ProgramSources,
    TransitionKind, TransitionPlan,
};
use freemix_daemon::render_cycle::{
    frame_mix, FadeVerdict, FrameEvent, FrameSetting, FrameStage,
};
use freemix_daemon::scene_execution::Composition;
use freemix_daemon::source::{MediaTiming, NativeSourceLimits, OriginalTimestamp, TimeBase};
use freemix_daemon::source_registry::{
    NativeSourceRegistry, NativeVideoPrefix, NativeVideoSourceKind, WorkingFrame,
};

const LEAF: InputId = InputId(1);
const SHOW: InputId = InputId(2);
const INNER: SceneId = SceneId(10);
const OUTER: SceneId = SceneId(20);
const LIVE: FadeToBlackPosition = FadeToBlackPosition { numerator: 0, denominator: 1 };
const LOST: OutsideFailure = OutsideFailure(5);

fn layer(source: SourceRef) -> Layer {
    Layer {
        source,
        enabled: true,
        geometry: LayerGeometry {
            translation_x: 0,
            translation_y: 0,
            width: 4,
            height: 2,
            rotation: Rotation::Deg0,
        },
        crop: None,
        mask: None,
        opacity: 255,
        z_order: 0,
    }
}

fn scene(id: SceneId, layers: Vec<Layer>) -> Scene {
    Scene { id, background: Rgba8 { red: 0, green: 0, blue: 0, alpha: 255 }, layers }
}

/// A project whose show is a scene that shows the leaf and another scene, which shows the leaf.
fn project() -> NativeProjectPlan {
    let project = Project {
        inputs: vec![
            Input { id: LEAF, kind: InputKind::Media },
            Input {
                id: SHOW,
                kind: InputKind::Scene { scene_id: OUTER, audio_source: None },
            },
        ],
        scenes: vec![
            scene(OUTER, vec![layer(SourceRef::Scene(INNER)), layer(SourceRef::Input(LEAF))]),
            scene(INNER, vec![layer(SourceRef::Input(LEAF))]),
        ],
        stingers: Vec::new(),
        input_audio_strips: Vec::new(),
        frame_rate: FrameRate { numerator: 30, denominator: 1 },
        width: 4,
        height: 2,
    };
    let limits = NativeProjectLimits::default();
    let outcomes = native_scene_order(&project, limits)
        .unwrap()
        .iter()
        .map(|_| SceneOutcome {
            canvas: Ok(()),
            composition: Ok(Composition { handle: 7, layer_count: 1 }),
        })
        .collect();
    NativeProjectPlan::compile(&project, limits, &outcomes).ok().unwrap()
}

fn registry(sources: &[(InputId, u64)]) -> NativeSourceRegistry {
    let mut map = OrderedMap::new();
    for (input, texture) in sources {
        let timing = MediaTiming {
            original: OriginalTimestamp {
                ticks: 0,
                time_base: TimeBase { numerator: 1, denominator: 1_000_000_000 },
            },
            presentation_ns: 0,
            duration_ns: 1,
            sequence: 0,
            clock_domain: ClockDomainId(7),
        };
        map.insert(
            *input,
            NativeVideoPrefix {
                frames: vec![WorkingFrame { timing, width: 4, height: 2, texture: *texture }],
                offsets_ns: vec![0],
                source_pts_origin: 0,
                last_source_pts: 0,
                last_sequence: 0,
                clock_domain: ClockDomainId(7),
                kind: NativeVideoSourceKind::Live,
                end_of_stream: false,
                in_flight: None,
                available_for_stinger: false,
                pinned_for_stinger: false,
            },
        );
    }
    NativeSourceRegistry {
        sources: map,
        dimensions: Some((4, 2)),
        retained_rgba16f_bytes: 64 * sources.len() as u64,
        limits: NativeSourceLimits::default(),
    }
}

fn frame() -> FrameResult {
    FrameResult {
        frame: 3,
        deadline_ns: 100,
        program: ProgramFrame {
            primary: SHOW,
            secondary: None,
            transition_kind: None,
            mix_numerator: 0,
            mix_denominator: 1,
            mix_start_numerator: 0,
            mix_end_numerator: 0,
        },
        fade_to_black: FadeToBlackFrame { interval_start: LIVE, interval_end: LIVE },
    }
}

fn verdict() -> CompositorVerdict {
    CompositorVerdict {
        transition: Ok(TransitionPlan { kind: TransitionKind::Cut, numerator: 0, denominator: 1 }),
        stinger: Err(LOST),
    }
}

fn fade() -> FadeVerdict {
    FadeVerdict { start: Ok(LIVE), end: Ok(LIVE) }
}

#[test]
fn scenes_are_composed_from_the_inside_out() {
    let (project, sources, stingers, frame) = (project(), registry(&[(LEAF, 500)]), registry(&[]), frame());
    let setting = FrameSetting {
        registry: &sources,
        stingers: &stingers,
        project: &project,
        frame: &frame,
        interval_end_ns: None,
    };
    let mut state = NativeProjectFrameState::default();
    let mut stage = state.begin_project_frame(&setting, verdict(), fade()).ok().unwrap();
    assert!(state.rendering);
    assert_eq!(
        state.begin_project_frame(&setting, verdict(), fade()).err(),
        Some(NativeSourceRenderError::ConcurrentProjectRender)
    );
    stage = state.continue_project_frame(&setting, stage, FrameEvent::Waited(Ok(()))).ok().unwrap();

    let FrameStage::Scene { place, pictures, .. } = &stage else { panic!("no scene") };
    assert_eq!(project.scenes[*place].id, INNER);
    assert_eq!(pictures.iter().map(|picture| picture.1).collect::<Vec<_>>(), vec![500]);
    stage =
        state.continue_project_frame(&setting, stage, FrameEvent::Composed(Ok(600))).ok().unwrap();

    let FrameStage::Scene { place, pictures, render, .. } = &stage else { panic!("no scene") };
    assert_eq!(project.scenes[*place].id, OUTER);
    let mut textures: Vec<_> = pictures.iter().map(|picture| picture.1).collect();
    textures.sort_unstable();
    assert_eq!(textures, vec![500, 600]);
    assert!(render.outputs.get(INNER).is_some());
    stage =
        state.continue_project_frame(&setting, stage, FrameEvent::Composed(Ok(700))).ok().unwrap();

    let FrameStage::Mix { sources, .. } = &stage else { panic!("no mix") };
    assert_eq!(
        *sources,
        ProgramSources::Transition {
            transition: verdict().transition.unwrap(),
            primary: 700,
            secondary: 700,
        }
    );
    stage = state.continue_project_frame(&setting, stage, FrameEvent::Mixed(Ok(800))).ok().unwrap();
    assert!(matches!(stage, FrameStage::Fade { program: 800, .. }));
    stage = state.continue_project_frame(&setting, stage, FrameEvent::Faded(Ok(900))).ok().unwrap();
    assert!(matches!(stage, FrameStage::Over { picture: 900 }));
    assert!(!state.rendering);
    assert_eq!(state.telemetry.frames_submitted, 1);
    assert_eq!(state.telemetry.in_flight_slots, 1);
}

#[test]
fn the_renderer_is_given_back_after_a_failure() {
    let (project, frame) = (project(), frame());
    let (sources, stingers, bare) = (registry(&[(LEAF, 500)]), registry(&[]), registry(&[]));
    let setting = FrameSetting {
        registry: &sources,
        stingers: &stingers,
        project: &project,
        frame: &frame,
        interval_end_ns: None,
    };
    let mut state = NativeProjectFrameState::default();
    let refused = FadeVerdict { end: Err(LOST), ..fade() };
    assert_eq!(
        state.begin_project_frame(&setting, verdict(), refused).err(),
        Some(NativeSourceRenderError::InvalidFadeToBlack(LOST))
    );
    assert!(!state.rendering);

    let stage = state.begin_project_frame(&setting, verdict(), fade()).ok().unwrap();
    let stage =
        state.continue_project_frame(&setting, stage, FrameEvent::Waited(Ok(()))).ok().unwrap();
    assert_eq!(
        state.continue_project_frame(&setting, stage, FrameEvent::Composed(Err(LOST))).err(),
        Some(NativeSourceRenderError::SceneCompositor(LOST))
    );
    assert!(!state.rendering);
    assert_eq!(state.telemetry.frames_submitted, 0);

    // The slot of the failed frame is still taken, so its work is waited for.
    let stage = state.begin_project_frame(&setting, verdict(), fade()).ok().unwrap();
    assert!(state.must_wait());
    assert_eq!(
        state.continue_project_frame(&setting, stage, FrameEvent::Waited(Err(LOST))).err(),
        Some(NativeSourceRenderError::Completion(LOST))
    );
    assert!(!state.rendering);

    let missing = FrameSetting { registry: &bare, ..setting };
    let stage = state.begin_project_frame(&missing, verdict(), fade()).ok().unwrap();
    assert_eq!(
        state.continue_project_frame(&missing, stage, FrameEvent::Waited(Ok(()))).err(),
        Some(NativeSourceRenderError::MissingSource { input: LEAF })
    );
    assert_eq!(state.telemetry.completion_waits, 1);
}

#[test]
fn a_frame_without_a_project_mixes_two_sources() {
    let sources = registry(&[(LEAF, 500), (SHOW, 501)]);
    let mut frame = frame();
    frame.program.secondary = Some(LEAF);
    frame.program.transition_kind = Some(SwitcherTransitionKind::Fade);
    let half = TransitionPlan { kind: TransitionKind::Fade, numerator: 1, denominator: 2 };
    let mix = frame_mix(&sources, &frame, Ok(half), fade()).unwrap();
    assert_eq!(mix.transition, half);
    assert_eq!((mix.primary, mix.secondary), (501, 500));
    assert_eq!((mix.fade.start, mix.fade.end), (LIVE, LIVE));

    assert_eq!(
        frame_mix(&sources, &frame, Err(LOST), fade()),
        Err(NativeSourceRenderError::InvalidMix(LOST))
    );
    let refused = FadeVerdict { start: Err(LOST), ..fade() };
    assert_eq!(
        frame_mix(&registry(&[]), &frame, Ok(half), refused),
        Err(NativeSourceRenderError::InvalidFadeToBlack(LOST))
    );
    assert_eq!(
        frame_mix(&registry(&[(SHOW, 501)]), &frame, Ok(half), fade()),
        Err(NativeSourceRenderError::MissingSource { input: LEAF })
    );
    frame.program.transition_kind = None;
    assert_eq!(
        frame_mix(&sources, &frame, Ok(half), fade()),
        Err(NativeSourceRenderError::MissingTransitionKind)
    );
}
