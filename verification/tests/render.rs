use freemix_daemon::model::{
    FadeToBlackFrame, FadeToBlackPosition, FrameRate, FrameResult, Input, InputId, InputKind,
    OutsideFailure, ProgramFrame, Project, StingerAudioPolicy, StingerConfig, StingerSlotId,
    SwitcherTransitionKind,
};
use freemix_daemon::project_plan::{NativeProjectLimits, NativeProjectPlan};
use freemix_daemon::render::{
    native_fade_to_black_plan, native_mix_plan, native_mix_request, native_project_mix_plan,
    native_project_mix_request, project_frame_inputs, CompositorVerdict, NativeMixPlan,
    NativeMixRequest, NativeProjectFrameState, NativeProjectMixPlan, NativeSourceRenderError,
    NativeStingerFrameRequest, StingerBase, StingerFramePlan, TransitionKind, TransitionPlan,
};

fn input(value: u128) -> InputId {
    InputId(value)
}

const ZERO_DENOMINATOR: OutsideFailure = OutsideFailure(1);
const CUT_POINT_OUT_OF_RANGE: OutsideFailure = OutsideFailure(2);

/// A compositor that accepts every position within its transition and every cut point within
/// its clip.
fn compositor(request: &Result<NativeMixRequest, NativeSourceRenderError>) -> CompositorVerdict {
    let mut verdict = CompositorVerdict {
        transition: Err(ZERO_DENOMINATOR),
        stinger: Err(CUT_POINT_OUT_OF_RANGE),
    };
    match *request {
        Ok(NativeMixRequest::Transition { kind, numerator, denominator, .. }) => {
            if denominator > 0 {
                verdict.transition = Ok(TransitionPlan { kind, numerator, denominator });
            }
        }
        Ok(NativeMixRequest::Stinger { frame_index, frame_count, cut_point_frame, .. }) => {
            if cut_point_frame <= frame_count {
                let base = if frame_index < cut_point_frame {
                    StingerBase::Program
                } else {
                    StingerBase::Preview
                };
                verdict.stinger = Ok(StingerFramePlan { frame_index, base });
            }
        }
        Err(_) => {}
    }
    verdict
}

fn mix_plan(program: ProgramFrame) -> Result<NativeMixPlan, NativeSourceRenderError> {
    let verdict = compositor(&native_mix_request(program));
    native_mix_plan(program, verdict.transition)
}

fn project_mix_plan(
    project: &NativeProjectPlan,
    program: ProgramFrame,
) -> Result<NativeProjectMixPlan, NativeSourceRenderError> {
    let verdict = compositor(&native_project_mix_request(project, program));
    native_project_mix_plan(project, program, verdict)
}

fn native_plan_project(inputs: &[InputId], stingers: Vec<StingerConfig>) -> NativeProjectPlan {
    let project = Project {
        inputs: inputs.iter().map(|id| Input { id: *id, kind: InputKind::Media }).collect(),
        scenes: Vec::new(),
        stingers,
        input_audio_strips: Vec::new(),
        frame_rate: FrameRate { numerator: 30, denominator: 1 },
        width: 4,
        height: 2,
    };
    NativeProjectPlan::compile(&project, NativeProjectLimits::default(), &Vec::new()).ok().unwrap()
}

fn stinger(number: u8, media_input: InputId, cut_point_frames: u32) -> StingerConfig {
    StingerConfig {
        slot_number: number,
        slot: Some(StingerSlotId(number)),
        media_input,
        preload: true,
        cut_point_frames,
        audio_policy: StingerAudioPolicy::Muted,
    }
}

#[test]
fn program_frame_maps_exactly_to_cut_fade_or_wipe() {
    let primary = input(1);
    let secondary = input((1_u128 << 64) + 1);
    let cut = mix_plan(ProgramFrame {
        primary,
        secondary: None,
        transition_kind: None,
        mix_numerator: u32::MAX,
        mix_denominator: 0,
        mix_start_numerator: u32::MAX,
        mix_end_numerator: u32::MAX,
    })
    .unwrap();
    assert_eq!(cut.primary, primary);
    assert_eq!(cut.secondary, primary);
    assert_eq!(cut.transition.kind, TransitionKind::Cut);
    assert_eq!(cut.transition.numerator, 0);
    assert_eq!(cut.transition.denominator, 1);

    let identical = mix_plan(ProgramFrame {
        primary,
        secondary: Some(primary),
        transition_kind: Some(SwitcherTransitionKind::Fade),
        mix_numerator: u32::MAX,
        mix_denominator: 0,
        mix_start_numerator: u32::MAX,
        mix_end_numerator: u32::MAX,
    })
    .unwrap();
    assert_eq!(identical.primary, primary);
    assert_eq!(identical.secondary, primary);
    assert_eq!(identical.transition.kind, TransitionKind::Cut);

    let fade = mix_plan(ProgramFrame {
        primary,
        secondary: Some(secondary),
        transition_kind: Some(SwitcherTransitionKind::Fade),
        mix_numerator: 7,
        mix_denominator: 11,
        mix_start_numerator: 7,
        mix_end_numerator: 8,
    })
    .unwrap();
    assert_eq!(fade.primary, primary);
    assert_eq!(fade.secondary, secondary);
    assert_eq!(fade.transition.kind, TransitionKind::Fade);
    assert_eq!(fade.transition.numerator, 7);
    assert_eq!(fade.transition.denominator, 11);
    assert!(matches!(
        mix_plan(ProgramFrame {
            primary,
            secondary: Some(secondary),
            transition_kind: Some(SwitcherTransitionKind::Fade),
            mix_numerator: 1,
            mix_denominator: 0,
            mix_start_numerator: 1,
            mix_end_numerator: 1,
        }),
        Err(NativeSourceRenderError::InvalidMix(ZERO_DENOMINATOR))
    ));

    let wipe = mix_plan(ProgramFrame {
        primary,
        secondary: Some(secondary),
        transition_kind: Some(SwitcherTransitionKind::Wipe),
        mix_numerator: 1,
        mix_denominator: 2,
        mix_start_numerator: 1,
        mix_end_numerator: 2,
    })
    .unwrap();
    assert_eq!(wipe.primary, primary);
    assert_eq!(wipe.secondary, secondary);
    assert_eq!(wipe.transition.kind, TransitionKind::Wipe);
    assert_eq!(wipe.transition.numerator, 1);
    assert_eq!(wipe.transition.denominator, 2);
}

#[test]
fn program_frame_preserves_slide_kind_and_progress() {
    let primary = input(1);
    let secondary = input((1_u128 << 64) + 1);
    let slide = mix_plan(ProgramFrame {
        primary,
        secondary: Some(secondary),
        transition_kind: Some(SwitcherTransitionKind::Slide),
        mix_numerator: 2,
        mix_denominator: 3,
        mix_start_numerator: 1,
        mix_end_numerator: 2,
    })
    .unwrap();
    assert_eq!(slide.primary, primary);
    assert_eq!(slide.secondary, secondary);
    assert_eq!(slide.transition.kind, TransitionKind::Slide);
    assert_eq!(slide.transition.numerator, 2);
    assert_eq!(slide.transition.denominator, 3);
}

#[test]
fn program_frame_preserves_zoom_and_rejects_stinger() {
    let primary = input(1);
    let secondary = input((1_u128 << 64) + 1);
    let zoom = mix_plan(ProgramFrame {
        primary,
        secondary: Some(secondary),
        transition_kind: Some(SwitcherTransitionKind::Zoom),
        mix_numerator: 1,
        mix_denominator: 2,
        mix_start_numerator: 1,
        mix_end_numerator: 2,
    })
    .unwrap();
    assert_eq!(zoom.primary, primary);
    assert_eq!(zoom.secondary, secondary);
    assert_eq!(zoom.transition.kind, TransitionKind::Zoom);
    assert_eq!(zoom.transition.numerator, 1);
    assert_eq!(zoom.transition.denominator, 2);

    let stinger = SwitcherTransitionKind::Stinger(StingerSlotId(1));
    assert!(matches!(
        mix_plan(ProgramFrame {
            primary,
            secondary: Some(secondary),
            transition_kind: Some(stinger),
            mix_numerator: 1,
            mix_denominator: 2,
            mix_start_numerator: 1,
            mix_end_numerator: 2,
        }),
        Err(NativeSourceRenderError::UnsupportedTransition(actual)) if actual == stinger
    ));
}

#[test]
fn configured_project_stinger_selects_program_then_preview_at_exact_cut() {
    let program = input(1);
    let preview = input(2);
    let media = input(3);
    let slot = StingerSlotId(1);
    let project = native_plan_project(&[program, preview, media], vec![stinger(1, media, 2)]);
    let frame = |frame_index| ProgramFrame {
        primary: program,
        secondary: Some(preview),
        transition_kind: Some(SwitcherTransitionKind::Stinger(slot)),
        mix_numerator: frame_index,
        mix_denominator: 4,
        mix_start_numerator: frame_index,
        mix_end_numerator: frame_index + 1,
    };

    let NativeProjectMixPlan::Stinger(before) = project_mix_plan(&project, frame(1)).unwrap()
    else {
        panic!("expected a configured Stinger plan");
    };
    assert_eq!(before.program, program);
    assert_eq!(before.preview, preview);
    assert_eq!(before.media, media);
    assert_eq!(before.frame.base, StingerBase::Program);

    let NativeProjectMixPlan::Stinger(at_cut) = project_mix_plan(&project, frame(2)).unwrap()
    else {
        panic!("expected a configured Stinger plan");
    };
    assert_eq!(at_cut.frame.base, StingerBase::Preview);
    assert_eq!(
        project_frame_inputs(NativeProjectMixPlan::Stinger(at_cut)),
        vec![program, preview, media]
    );
}

#[test]
fn project_stinger_requires_configuration_and_valid_frame_position() {
    let program = input(1);
    let preview = input(2);
    let slot = StingerSlotId(8);
    let project = native_plan_project(&[program, preview], Vec::new());
    let frame = ProgramFrame {
        primary: program,
        secondary: Some(preview),
        transition_kind: Some(SwitcherTransitionKind::Stinger(slot)),
        mix_numerator: 0,
        mix_denominator: 4,
        mix_start_numerator: 0,
        mix_end_numerator: 1,
    };

    assert!(matches!(
        project_mix_plan(&project, frame),
        Err(NativeSourceRenderError::MissingStingerConfiguration(actual)) if actual == slot
    ));

    let invalid = native_plan_project(&[program, preview], vec![stinger(8, preview, 5)]);
    assert_eq!(
        native_project_mix_request(&invalid, frame),
        Ok(NativeMixRequest::Stinger {
            preview,
            media: preview,
            frame_index: 0,
            frame_count: 4,
            cut_point_frame: 5,
        })
    );
    assert!(matches!(
        project_mix_plan(&invalid, frame),
        Err(NativeSourceRenderError::InvalidStinger(CUT_POINT_OUT_OF_RANGE))
    ));
}

#[test]
fn program_frame_preserves_alpha_fade_kind_and_progress() {
    let primary = input(1);
    let secondary = input((1_u128 << 64) + 1);
    let plan = mix_plan(ProgramFrame {
        primary,
        secondary: Some(secondary),
        transition_kind: Some(SwitcherTransitionKind::AlphaFade),
        mix_numerator: 3,
        mix_denominator: 5,
        mix_start_numerator: 3,
        mix_end_numerator: 4,
    })
    .unwrap();
    assert_eq!(plan.primary, primary);
    assert_eq!(plan.secondary, secondary);
    assert_eq!(plan.transition.kind, TransitionKind::AlphaFade);
    assert_eq!(plan.transition.numerator, 3);
    assert_eq!(plan.transition.denominator, 5);
}

#[test]
fn a_transition_without_a_kind_is_refused() {
    let frame = ProgramFrame {
        primary: input(1),
        secondary: Some(input(2)),
        transition_kind: None,
        mix_numerator: 1,
        mix_denominator: 2,
        mix_start_numerator: 1,
        mix_end_numerator: 2,
    };
    assert_eq!(mix_plan(frame).err(), Some(NativeSourceRenderError::MissingTransitionKind));
}

#[test]
fn stinger_frames_ask_for_the_last_instant_of_their_interval() {
    let project =
        native_plan_project(&[input(1), input(2), input(3)], vec![stinger(1, input(3), 2)]);
    let live = FadeToBlackPosition { numerator: 0, denominator: 1 };
    let frame = FrameResult {
        frame: 9,
        deadline_ns: 0,
        program: ProgramFrame {
            primary: input(1),
            secondary: Some(input(2)),
            transition_kind: Some(SwitcherTransitionKind::Stinger(StingerSlotId(1))),
            mix_numerator: 1,
            mix_denominator: 4,
            mix_start_numerator: 1,
            mix_end_numerator: 2,
        },
        fade_to_black: FadeToBlackFrame { interval_start: live, interval_end: live },
    };
    let verdict = compositor(&native_project_mix_request(&project, frame.program));
    assert_eq!(project.stinger_interval(&frame, verdict), Ok(Some((project.frame_rate, 2))));
    let mut cut = frame;
    cut.program.secondary = None;
    cut.program.transition_kind = None;
    let plain = compositor(&native_project_mix_request(&project, cut.program));
    assert_eq!(project.stinger_interval(&cut, plain), Ok(None));
    let refused = CompositorVerdict { stinger: Err(CUT_POINT_OUT_OF_RANGE), ..verdict };
    assert_eq!(
        project.stinger_interval(&frame, refused),
        Err(NativeSourceRenderError::InvalidStinger(CUT_POINT_OUT_OF_RANGE))
    );
    assert_eq!(
        project.stinger_frame_request(&frame, verdict, Some(66_666_666)),
        Ok(Some(NativeStingerFrameRequest { input: input(3), deadline_ns: 66_666_665 }))
    );
    assert_eq!(
        project.stinger_frame_request(&frame, verdict, None),
        Err(NativeSourceRenderError::ResourceBounds)
    );
}

#[test]
fn fades_to_black_keep_both_ends_or_the_first_failure() {
    let start = FadeToBlackPosition { numerator: 1, denominator: 4 };
    let end = FadeToBlackPosition { numerator: 2, denominator: 4 };
    let plan = native_fade_to_black_plan(Ok(start), Ok(end)).unwrap();
    assert_eq!((plan.start, plan.end), (start, end));
    assert_eq!(
        native_fade_to_black_plan(Err(OutsideFailure(1)), Err(OutsideFailure(2))).err(),
        Some(NativeSourceRenderError::InvalidFadeToBlack(OutsideFailure(1)))
    );
    assert_eq!(
        native_fade_to_black_plan(Ok(start), Err(OutsideFailure(2))).err(),
        Some(NativeSourceRenderError::InvalidFadeToBlack(OutsideFailure(2)))
    );
}

#[test]
fn one_project_frame_is_in_flight_at_a_time() {
    let mut state = NativeProjectFrameState::default();
    assert_eq!(state.acquire_project_render(), Ok(()));
    assert_eq!(
        state.acquire_project_render(),
        Err(NativeSourceRenderError::ConcurrentProjectRender)
    );
    assert!(!state.must_wait());
    state.complete_in_flight_project_frame(Ok(())).unwrap();
    state.occupy_project_slot();
    state.finish_project_frame().unwrap();
    state.release_project_render();
    assert_eq!(state.telemetry.frames_submitted, 1);
    assert_eq!(state.telemetry.completion_waits, 0);

    assert_eq!(state.acquire_project_render(), Ok(()));
    assert!(state.must_wait());
    assert_eq!(
        state.complete_in_flight_project_frame(Err(OutsideFailure(5))),
        Err(NativeSourceRenderError::Completion(OutsideFailure(5)))
    );
    state.complete_in_flight_project_frame(Ok(())).unwrap();
    assert_eq!(state.telemetry.completion_waits, 1);
    assert_eq!(state.telemetry.in_flight_slots, 0);
    assert_eq!(state.telemetry.peak_in_flight_slots, 1);
}
