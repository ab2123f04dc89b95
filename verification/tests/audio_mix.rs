use freemix_daemon::audio_limits::NativeMasterError;
use freemix_daemon::audio_mix::{
    active_video_inputs, clip_local_stinger_mix, logical_source_gain, native_audio_mix_plan,
    native_input_state, native_project_audio_mix_plan, project_audio_submissions,
    stinger_audio_request, AudioMixVerdict, ClipMix, NativeAudioMixPlan, SourceGain,
};
use freemix_daemon::audio_source::{AudioBlock, ChannelLayout, NativeAudioSource};
use freemix_daemon::audio_timing::output_audio_timing;
use freemix_daemon::model::{
    ClockDomainId, FadeToBlackFrame, FadeToBlackPosition, FrameRate, FrameResult, Input,
    InputAudioStrip, InputAudioStripState, InputId, InputKind, OutsideFailure, ProgramFrame,
    Project, StingerAudioPolicy, StingerConfig, StingerSlotId, SwitcherTransitionKind,
};
use freemix_daemon::ordered::OrderedMap;
use freemix_daemon::project_plan::{NativeProjectLimits, NativeProjectPlan};
use freemix_daemon::render::{StingerBase, StingerFramePlan};

fn input(value: u128) -> InputId {
    InputId(value)
}

fn gain(start_numerator: u32, end_numerator: u32, denominator: u32) -> SourceGain {
    SourceGain { start_numerator, end_numerator, denominator }
}

const UNUSABLE_GAIN: OutsideFailure = OutsideFailure(6);

/// A mixer that takes every gain up to the whole.
fn gains(program: ProgramFrame) -> Result<(), OutsideFailure> {
    let whole = program.mix_denominator;
    if whole > 0 && program.mix_start_numerator <= whole && program.mix_end_numerator <= whole {
        Ok(())
    } else {
        Err(UNUSABLE_GAIN)
    }
}

fn audio_mix_plan(program: ProgramFrame) -> Result<NativeAudioMixPlan, NativeMasterError> {
    native_audio_mix_plan(program, gains(program))
}

fn cut_at(frame_index: u32, cut: u32) -> Result<StingerFramePlan, OutsideFailure> {
    let base = if frame_index < cut { StingerBase::Program } else { StingerBase::Preview };
    Ok(StingerFramePlan { frame_index, base })
}

fn t_bar(primary: InputId, secondary: InputId, start: u32, end: u32) -> ProgramFrame {
    ProgramFrame {
        primary,
        secondary: Some(secondary),
        transition_kind: Some(SwitcherTransitionKind::Wipe),
        mix_numerator: start,
        mix_denominator: 10_000,
        mix_start_numerator: start,
        mix_end_numerator: end,
    }
}

fn project_with(
    inputs: &[InputId],
    stingers: Vec<StingerConfig>,
    input_audio_strips: Vec<InputAudioStrip>,
) -> NativeProjectPlan {
    let project = Project {
        inputs: inputs.iter().map(|id| Input { id: *id, kind: InputKind::Media }).collect(),
        scenes: Vec::new(),
        stingers,
        input_audio_strips,
        frame_rate: FrameRate { numerator: 30, denominator: 1 },
        width: 4,
        height: 2,
    };
    NativeProjectPlan::compile(&project, NativeProjectLimits::default(), &Vec::new()).ok().unwrap()
}

fn stinger(number: u8, media_input: InputId, cut: u32, policy: StingerAudioPolicy) -> StingerConfig {
    StingerConfig {
        slot_number: number,
        slot: Some(StingerSlotId(number)),
        media_input,
        preload: true,
        cut_point_frames: cut,
        audio_policy: policy,
    }
}

#[test]
fn audio_mix_plan_maps_cut_and_exact_fade_interval_endpoints() {
    let old = input(1);
    let new = input(2);
    assert_eq!(
        audio_mix_plan(ProgramFrame {
            primary: old,
            secondary: Some(new),
            transition_kind: Some(SwitcherTransitionKind::Fade),
            mix_numerator: 2,
            mix_denominator: 4,
            mix_start_numerator: 2,
            mix_end_numerator: 3,
        })
        .unwrap(),
        NativeAudioMixPlan {
            primary: old,
            primary_gain: gain(2, 1, 4),
            secondary: Some((new, gain(2, 3, 4))),
        }
    );
    assert_eq!(
        audio_mix_plan(ProgramFrame {
            primary: new,
            secondary: None,
            transition_kind: None,
            mix_numerator: u32::MAX,
            mix_denominator: 0,
            mix_start_numerator: u32::MAX,
            mix_end_numerator: u32::MAX,
        })
        .unwrap(),
        NativeAudioMixPlan { primary: new, primary_gain: SourceGain::unity(), secondary: None }
    );
    assert!(audio_mix_plan(ProgramFrame {
        primary: old,
        secondary: Some(new),
        transition_kind: Some(SwitcherTransitionKind::Fade),
        mix_numerator: 1,
        mix_denominator: 0,
        mix_start_numerator: 1,
        mix_end_numerator: 1,
    })
    .is_err());
    assert_eq!(
        audio_mix_plan(ProgramFrame {
            primary: old,
            secondary: Some(old),
            transition_kind: Some(SwitcherTransitionKind::Fade),
            mix_numerator: u32::MAX,
            mix_denominator: 0,
            mix_start_numerator: u32::MAX,
            mix_end_numerator: u32::MAX,
        })
        .unwrap(),
        NativeAudioMixPlan { primary: old, primary_gain: SourceGain::unity(), secondary: None }
    );
}

#[test]
fn wipe_audio_mix_plan_has_explicit_endpoints() {
    let old = input(1);
    let new = input(2);
    let plan = |start, end| {
        audio_mix_plan(ProgramFrame {
            primary: old,
            secondary: Some(new),
            transition_kind: Some(SwitcherTransitionKind::Wipe),
            mix_numerator: start,
            mix_denominator: 2,
            mix_start_numerator: start,
            mix_end_numerator: end,
        })
        .unwrap()
    };

    assert_eq!(
        plan(0, 1),
        NativeAudioMixPlan {
            primary: old,
            primary_gain: gain(2, 1, 2),
            secondary: Some((new, gain(0, 1, 2))),
        }
    );
    assert_eq!(
        plan(1, 2),
        NativeAudioMixPlan {
            primary: old,
            primary_gain: gain(1, 0, 2),
            secondary: Some((new, gain(1, 2, 2))),
        }
    );
}

#[test]
fn wipe_t_bar_audio_plan_holds_reverses_and_reaches_manual_endpoints() {
    let old = input(1);
    let new = input(2);
    assert_eq!(
        audio_mix_plan(t_bar(old, new, 0, 8_000)).unwrap(),
        NativeAudioMixPlan {
            primary: old,
            primary_gain: gain(10_000, 2_000, 10_000),
            secondary: Some((new, gain(0, 8_000, 10_000))),
        }
    );
    assert_eq!(
        audio_mix_plan(t_bar(old, new, 8_000, 8_000)).unwrap(),
        NativeAudioMixPlan {
            primary: old,
            primary_gain: gain(2_000, 2_000, 10_000),
            secondary: Some((new, gain(8_000, 8_000, 10_000))),
        }
    );
    assert_eq!(
        audio_mix_plan(t_bar(old, new, 8_000, 2_500)).unwrap(),
        NativeAudioMixPlan {
            primary: old,
            primary_gain: gain(2_000, 7_500, 10_000),
            secondary: Some((new, gain(8_000, 2_500, 10_000))),
        }
    );
    assert_eq!(
        audio_mix_plan(t_bar(old, new, 2_500, 10_000)).unwrap(),
        NativeAudioMixPlan {
            primary: old,
            primary_gain: gain(7_500, 0, 10_000),
            secondary: Some((new, gain(2_500, 10_000, 10_000))),
        }
    );
    assert_eq!(
        audio_mix_plan(ProgramFrame {
            secondary: None,
            transition_kind: None,
            ..t_bar(new, old, 0, 0)
        })
        .unwrap(),
        NativeAudioMixPlan { primary: new, primary_gain: SourceGain::unity(), secondary: None }
    );
}

#[test]
fn slide_and_zoom_audio_crossfade_while_stinger_fails_explicitly() {
    let old = input(1);
    let new = input(2);
    let program = |transition_kind| ProgramFrame {
        primary: old,
        secondary: Some(new),
        transition_kind,
        mix_numerator: 0,
        mix_denominator: 1,
        mix_start_numerator: 0,
        mix_end_numerator: 1,
    };

    for kind in [SwitcherTransitionKind::Slide, SwitcherTransitionKind::Zoom] {
        assert_eq!(
            audio_mix_plan(program(Some(kind))).unwrap(),
            NativeAudioMixPlan {
                primary: old,
                primary_gain: gain(1, 0, 1),
                secondary: Some((new, gain(0, 1, 1))),
            }
        );
    }

    let stinger = SwitcherTransitionKind::Stinger(StingerSlotId(1));
    let Err(NativeMasterError::UnsupportedAudioTransition(actual)) =
        audio_mix_plan(program(Some(stinger)))
    else {
        panic!("expected unsupported audio transition {stinger:?}");
    };
    assert_eq!(actual, stinger);
    assert!(matches!(
        audio_mix_plan(program(None)),
        Err(NativeMasterError::MissingAudioTransitionKind)
    ));
}

#[test]
fn configured_stinger_audio_policies_switch_base_at_the_video_cut() {
    let program = input(1);
    let preview = input(2);
    let media = input(3);
    let slot = StingerSlotId(1);
    let frame = |frame_index| ProgramFrame {
        primary: program,
        secondary: Some(preview),
        transition_kind: Some(SwitcherTransitionKind::Stinger(slot)),
        mix_numerator: frame_index,
        mix_denominator: 4,
        mix_start_numerator: frame_index,
        mix_end_numerator: frame_index + 1,
    };
    for policy in [
        StingerAudioPolicy::Muted,
        StingerAudioPolicy::StingerOnly,
        StingerAudioPolicy::MixWithProgram,
    ] {
        let project =
            project_with(&[program, preview, media], vec![stinger(1, media, 2, policy)], Vec::new());
        for (frame_index, heard) in [(1, program), (2, preview)] {
            let program_frame = frame(frame_index);
            let verdict = AudioMixVerdict {
                gains: gains(program_frame),
                stinger: cut_at(frame_index, 2),
            };
            assert_eq!(
                native_project_audio_mix_plan(&project, program_frame, verdict).unwrap(),
                NativeAudioMixPlan {
                    primary: heard,
                    primary_gain: SourceGain::unity(),
                    secondary: None,
                }
            );
        }
    }
}

#[test]
fn a_showing_of_a_stinger_keeps_the_frame_it_began_with() {
    let project = project_with(
        &[input(1), input(2), input(3)],
        vec![stinger(1, input(3), 2, StingerAudioPolicy::StingerOnly)],
        Vec::new(),
    );
    let live = FadeToBlackPosition { numerator: 0, denominator: 1 };
    let frame = |number, frame_index| FrameResult {
        frame: number,
        deadline_ns: 0,
        program: ProgramFrame {
            primary: input(1),
            secondary: Some(input(2)),
            transition_kind: Some(SwitcherTransitionKind::Stinger(StingerSlotId(1))),
            mix_numerator: frame_index,
            mix_denominator: 4,
            mix_start_numerator: frame_index,
            mix_end_numerator: frame_index + 1,
        },
        fade_to_black: FadeToBlackFrame { interval_start: live, interval_end: live },
    };
    let first = stinger_audio_request(&project, &frame(40, 0), cut_at(0, 2)).unwrap().unwrap();
    let second = stinger_audio_request(&project, &frame(41, 1), cut_at(1, 2)).unwrap().unwrap();
    assert_eq!(first.trigger, second.trigger);
    assert_eq!(first.trigger.cadence_origin_frame, 40);
    assert_eq!((first.frame_index, second.frame_index), (0, 1));
    assert!(matches!(
        stinger_audio_request(&project, &frame(40, 0), Err(OutsideFailure(2))),
        Err(NativeMasterError::InvalidStinger(OutsideFailure(2)))
    ));
}

#[test]
fn strips_split_their_gain_with_one_sign() {
    let strip = |gain_milli_db| {
        let state = InputAudioStripState { gain_milli_db, muted: true, follow_video: false };
        project_with(&[input(1)], Vec::new(), vec![InputAudioStrip { input: input(1), state }])
    };
    let quiet = native_input_state(&strip(-6_021), input(1)).unwrap();
    assert_eq!((quiet.whole_db, quiet.fractional_milli_db), (-6, -21));
    assert!(quiet.muted && !quiet.follow_video);
    let loud = native_input_state(&strip(3_500), input(1)).unwrap();
    assert_eq!((loud.whole_db, loud.fractional_milli_db), (3, 500));
    assert!(matches!(
        native_input_state(&strip(0), input(9)),
        Err(NativeMasterError::MissingAudioRoute { input }) if input == InputId(9)
    ));
}

#[test]
fn gains_go_to_the_inputs_that_are_seen() {
    let plan = NativeAudioMixPlan {
        primary: input(1),
        primary_gain: gain(2, 1, 4),
        secondary: Some((input(2), gain(2, 3, 4))),
    };
    assert_eq!(logical_source_gain(plan, input(1)), gain(2, 1, 4));
    assert_eq!(logical_source_gain(plan, input(2)), gain(2, 3, 4));
    assert_eq!(logical_source_gain(plan, input(3)), SourceGain::unity());
    assert_eq!(active_video_inputs(plan), vec![input(1), input(2)]);

    let project = project_with(&[input(1), input(2)], Vec::new(), Vec::new());
    let mut sources = OrderedMap::new();
    sources.insert(input(1), NativeAudioSource::silence());
    assert_eq!(
        project_audio_submissions(&project, plan, &sources),
        Err(NativeMasterError::DecodeContract { input: input(2) })
    );
    sources.insert(input(2), NativeAudioSource::silence());
    assert_eq!(project_audio_submissions(&project, plan, &sources), Ok(Vec::new()));
}

#[test]
fn clips_replace_the_program_or_join_it() {
    let layout = ChannelLayout { id: 1, channels: 1 };
    let clip = AudioBlock {
        timing: output_audio_timing(0, 0, 4, 48_000, ClockDomainId(9)).unwrap(),
        sample_rate: 48_000,
        layout,
        sample_count: 4,
        payload: 0,
    };
    let mix = |policy, clip| clip_local_stinger_mix(1, 4, policy, clip, 48_000, layout);
    assert_eq!(mix(StingerAudioPolicy::MixWithProgram, Some(clip)), Ok(ClipMix::Sum));
    assert_eq!(mix(StingerAudioPolicy::MixWithProgram, None), Ok(ClipMix::Keep));
    assert_eq!(
        mix(StingerAudioPolicy::StingerOnly, Some(AudioBlock { sample_count: 3, ..clip })),
        Err(NativeMasterError::InvalidFormat)
    );
}
