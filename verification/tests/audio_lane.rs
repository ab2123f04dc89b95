use freemix_daemon::audio_cycle::{RenderEvent, RenderStage, ServiceEvent, ServiceStage};
use freemix_daemon::audio_limits::{
    audio_sample_bytes, observe_retained_peak, partition_native_audio_limits,
    partition_stinger_audio_limits, proportional_page_samples, validate_audio_limits,
    validate_page_bounds, validate_retained_bounds, NativeAudioCharge, NativeAudioLimits,
    NativeAudioTelemetry, NativeMasterError, ValidatedAudioPage,
};
use freemix_daemon::audio_master::{NativeAudioDecodeResult, NativeMasterLane, ReadyFrame};
use freemix_daemon::audio_mix::AudioMixVerdict;
use freemix_daemon::audio_playback::{
    NativeMasterRuntime, NativeStingerAudioPlayback, StingerRender, StingerService,
};
use freemix_daemon::audio_project::{clip_lane, plan_project_audio};
use freemix_daemon::audio_render::SourceRender;
use freemix_daemon::audio_sending::BeforeAsking;
use freemix_daemon::audio_service::{NativeAudioDecodeRequest, RenderOutcome};
use freemix_daemon::audio_setup::{
    check_strip_count, requested_stinger_inputs, split_stinger_inputs, StripAction,
};
use freemix_daemon::audio_source::{
    commit_audio_page, stage_eos_padding_source, validate_audio_page,
    validate_audio_window_contract, AudioBlock, ChannelLayout, DecodedAudioWindow,
    NativeAudioSource, Synchronizer,
};
use freemix_daemon::audio_timing::{
    absolute_frame_sample_span, cadence_sample_at_or_after, cadence_sample_at_timestamp,
    cadence_timestamp_at_sample, floor_div_i128, nonnegative_mapping_anchors,
    normalized_sample_endpoint, output_audio_timing, AudioCadenceOrigin,
};
use freemix_daemon::model::{
    ClockDomainId, FadeToBlackFrame, FadeToBlackPosition, FrameRate, FrameResult, Input,
    InputAudioStrip, InputAudioStripState, InputId, InputKind, OutsideFailure, ProgramFrame,
    Project, Scene, SceneId, Rgba8, StingerAudioPolicy, StingerConfig, StingerSlotId,
    SwitcherTransitionKind,
};
use freemix_daemon::ordered::OrderedMap;
use freemix_daemon::project_plan::{NativeProjectLimits, NativeProjectPlan, SceneOutcome};
use freemix_daemon::render::{StingerBase, StingerFramePlan};
use freemix_daemon::scene_execution::Composition;
use freemix_daemon::source::{MediaTiming, TimeBase};
use freemix_daemon::source_playback::NativeDecodeResult;
use freemix_daemon::source_registry::NativeDecodeRequest;

const RATE: u32 = 48_000;
const SAMPLE_BYTES: usize = 4;
const MAX_SAMPLES_PER_BLOCK: usize = 65_536;
const MONO: ChannelLayout = ChannelLayout { id: 1, channels: 1 };
const CLOCK: ClockDomainId = ClockDomainId(9);
const NEEDS_MORE: OutsideFailure = OutsideFailure(77);

fn input(value: u128) -> InputId {
    InputId(value)
}

fn charge(blocks: usize, samples: usize) -> NativeAudioCharge {
    NativeAudioCharge { blocks, samples, bytes: samples * SAMPLE_BYTES }
}

fn origin() -> AudioCadenceOrigin {
    AudioCadenceOrigin { timestamp_ns: 0, sample_index: 0 }
}

fn audio_block(sequence: u64, start_sample: u64, samples: usize) -> AudioBlock {
    AudioBlock {
        timing: output_audio_timing(sequence, start_sample, start_sample + samples as u64, RATE, CLOCK)
            .unwrap(),
        sample_rate: RATE,
        layout: MONO,
        sample_count: samples,
        payload: 0,
    }
}

/// A source of the Master's own rate, of which these chunks are at hand.
fn audio_source(chunks: &[(u64, usize)], end_of_stream: bool) -> NativeAudioSource {
    let first = chunks.first().map_or(0, |chunk| chunk.0);
    let next_sample = chunks.last().map_or(first, |chunk| chunk.0 + chunk.1 as u64);
    let samples = chunks.iter().map(|chunk| chunk.1).sum();
    NativeAudioSource::decoded(
        Synchronizer {
            source_rate: RATE,
            layout: MONO,
            source_domain: CLOCK,
            source_origin: AudioCadenceOrigin {
                timestamp_ns: normalized_sample_endpoint(first as i128, RATE).unwrap(),
                sample_index: first,
            },
            master_origin: origin(),
            max_samples: 1_048_576,
            max_bytes: 1_048_576 * SAMPLE_BYTES,
            buffered: charge(chunks.len(), samples),
        },
        origin(),
        ValidatedAudioPage {
            next_sample,
            next_sequence: chunks.len() as u64,
            charge: charge(0, 0),
        },
        0,
        end_of_stream,
        0,
        0,
    )
}

fn lane(sources: &[(InputId, NativeAudioSource)], frames_per_second: u32) -> NativeMasterLane {
    let mut map = OrderedMap::new();
    for (id, source) in sources {
        map.insert(*id, *source);
    }
    NativeMasterLane {
        sample_rate: RATE,
        layout: MONO,
        frame_rate: FrameRate { numerator: frames_per_second, denominator: 1 },
        clock_domain: CLOCK,
        expected_next_frame: 0,
        cadence_origin_frame: 0,
        ready_frame: None,
        sources: map,
        limits: NativeAudioLimits::default(),
        audio_telemetry: NativeAudioTelemetry::default(),
        collect_output: true,
        failed: false,
    }
}

/// A lane of 25 frames a second, each source of which holds three frames and then ends.
fn audio_test_lane(inputs: &[InputId]) -> NativeMasterLane {
    let sources: Vec<_> =
        inputs.iter().map(|id| (*id, audio_source(&[(0, 3 * 1_920)], true))).collect();
    lane(&sources, 25)
}

/// What a synchronizer of the Master's own rate says of an interval: it needs every sample of it.
fn outcomes(lane: &NativeMasterLane, start: u64, end: u64) -> Vec<RenderOutcome> {
    (0..lane.sources.entries.len())
        .map(|slot| match lane.render_interval(slot, start, end) {
            Ok(Some(_)) if lane.sources.entries[slot].1.next_sample < end => {
                RenderOutcome::NeedMoreInput { required_sample: end - 1 }
            }
            _ => RenderOutcome::Ready,
        })
        .collect()
}

fn held(lane: &NativeMasterLane, input: InputId) -> NativeAudioCharge {
    lane.sources.get(input).unwrap().synchronizer.unwrap().buffered
}

/// What a lane counts and has ready as it stands.
fn as_it_stands(lane: &NativeMasterLane) -> BeforeAsking {
    BeforeAsking { audio_telemetry: lane.audio_telemetry, ready_frame: lane.ready_frame }
}

/// Goes through a whole service. The synchronizers take whatever they are given.
fn service_until_sent(
    lane: &mut NativeMasterLane,
    answers: Result<Vec<NativeAudioDecodeResult>, NativeMasterError>,
) -> (Vec<NativeAudioDecodeRequest>, Result<bool, NativeMasterError>, BeforeAsking) {
    let mut answers = Some(answers);
    let mut stage = match lane.start_service() {
        Err(error) => return (Vec::new(), Err(error), as_it_stands(lane)),
        Ok(stage) => stage,
    };
    loop {
        let event = match &stage {
            ServiceStage::Answers { .. } => ServiceEvent::Answered(answers.take().unwrap()),
            ServiceStage::Pages { pages, .. } => ServiceEvent::Pushed(
                pages
                    .iter()
                    .map(|page| Ok(held(lane, page.input).checked_add(page.page.charge).unwrap()))
                    .collect(),
            ),
            ServiceStage::Intervals { start_sample, end_sample } => {
                ServiceEvent::Planned(outcomes(lane, *start_sample, *end_sample))
            }
            ServiceStage::Silence { wanted, .. } => {
                ServiceEvent::Admitted(vec![Ok(()); wanted.len()])
            }
            ServiceStage::Paddings { paddings, .. } => ServiceEvent::Padded(
                paddings
                    .iter()
                    .map(|padding| {
                        Ok(held(lane, padding.input).checked_add(padding.page.charge).unwrap())
                    })
                    .collect(),
            ),
            ServiceStage::Over { .. } => unreachable!(),
        };
        match lane.serve(stage, event, MAX_SAMPLES_PER_BLOCK) {
            Err(error) => return (Vec::new(), Err(error), as_it_stands(lane)),
            Ok(ServiceStage::Over { requests, covered, before }) => return (requests, covered, before),
            Ok(next) => stage = next,
        }
    }
}

fn service_answers(
    lane: &mut NativeMasterLane,
    answers: Result<Vec<NativeAudioDecodeResult>, NativeMasterError>,
) -> (Vec<NativeAudioDecodeRequest>, Result<bool, NativeMasterError>) {
    let (requests, covered, _) = service_until_sent(lane, answers);
    (requests, covered)
}

fn service(lane: &mut NativeMasterLane) -> (Vec<NativeAudioDecodeRequest>, Result<bool, NativeMasterError>) {
    service_answers(lane, Ok(Vec::new()))
}

fn frame_result(frame: u64, primary: InputId, secondary: Option<InputId>) -> FrameResult {
    let live = FadeToBlackPosition { numerator: 0, denominator: 1 };
    FrameResult {
        frame,
        deadline_ns: 0,
        program: ProgramFrame {
            primary,
            secondary,
            transition_kind: secondary.map(|_| SwitcherTransitionKind::Fade),
            mix_numerator: u32::from(secondary.is_some()),
            mix_denominator: 2,
            mix_start_numerator: u32::from(secondary.is_some()),
            mix_end_numerator: if secondary.is_some() { 2 } else { 0 },
        },
        fade_to_black: FadeToBlackFrame { interval_start: live, interval_end: live },
    }
}

const UNUSED_STINGER: Result<StingerFramePlan, OutsideFailure> = Err(OutsideFailure(1));

fn verdict() -> AudioMixVerdict {
    AudioMixVerdict { gains: Ok(()), stinger: UNUSED_STINGER }
}

/// What a synchronizer holds once it has played a part, if it holds the whole of it.
fn played(lane: &NativeMasterLane, part: &(InputId, SourceRender)) -> Result<NativeAudioCharge, OutsideFailure> {
    let held = held(lane, part.0);
    if held.samples >= part.1.samples {
        Ok(charge(held.blocks, held.samples - part.1.samples))
    } else {
        Err(NEEDS_MORE)
    }
}

/// Goes through a whole render and tells when the frame is heard and how many samples it has.
fn render_timed(
    lane: &mut NativeMasterLane,
    frame: &FrameResult,
    collected: Result<(), NativeMasterError>,
) -> Result<(MediaTiming, usize), NativeMasterError> {
    let mut stage = lane.start_render(frame, None, false, verdict())?;
    let mut block = None;
    loop {
        let event = match &stage {
            RenderStage::Parts { plan } => {
                block = Some((plan.timing, plan.samples));
                RenderEvent::Rendered(vec![Ok(()); lane.sources.entries.len()])
            }
            RenderStage::Mix { .. } => RenderEvent::Mixed(Ok(())),
            RenderStage::Check { parts, .. } => RenderEvent::Checked(
                parts.iter().map(|part| played(lane, part).map(|_| ())).collect(),
            ),
            RenderStage::Play { parts, .. } => {
                RenderEvent::Played(parts.iter().map(|part| played(lane, part)).collect())
            }
            RenderStage::Collect { .. } => RenderEvent::Collected(collected),
            RenderStage::Over => return Ok(block.unwrap()),
        };
        stage = lane.render(stage, event)?;
    }
}

fn render_collected(
    lane: &mut NativeMasterLane,
    frame: &FrameResult,
    collected: Result<(), NativeMasterError>,
) -> Result<usize, NativeMasterError> {
    render_timed(lane, frame, collected).map(|block| block.1)
}

fn render(lane: &mut NativeMasterLane, frame: &FrameResult) -> Result<usize, NativeMasterError> {
    render_collected(lane, frame, Ok(()))
}

#[test]
fn absolute_audio_spans_are_exact_at_integer_and_fractional_rates() {
    let rate = FrameRate { numerator: 25, denominator: 1 };
    assert_eq!(absolute_frame_sample_span(0, 48_000, rate).unwrap(), (0, 1_920));
    assert_eq!(absolute_frame_sample_span(123, 48_000, rate).unwrap(), (236_160, 238_080));

    let ntsc = FrameRate { numerator: 60_000, denominator: 1_001 };
    assert_eq!(absolute_frame_sample_span(0, 48_000, ntsc).unwrap(), (0, 800));
    assert_eq!(absolute_frame_sample_span(1, 48_000, ntsc).unwrap(), (800, 1_601));
    assert_eq!(
        absolute_frame_sample_span(59_999, 48_000, ntsc).unwrap(),
        (48_047_199, 48_048_000)
    );
}

#[test]
fn output_audio_timing_uses_absolute_samples_and_contiguous_normalized_endpoints() {
    let clock_domain = ClockDomainId(3);
    let rate = FrameRate { numerator: 60_000, denominator: 1_001 };
    let first_span = absolute_frame_sample_span(41, 48_000, rate).unwrap();
    let second_span = absolute_frame_sample_span(42, 48_000, rate).unwrap();
    let first = output_audio_timing(41, first_span.0, first_span.1, 48_000, clock_domain).unwrap();
    let second =
        output_audio_timing(42, second_span.0, second_span.1, 48_000, clock_domain).unwrap();

    assert_eq!(first.original.ticks, 32_832);
    assert_eq!(first.original.time_base, TimeBase { numerator: 1, denominator: 48_000 });
    assert_eq!(first.sequence, 41);
    assert_eq!(second.sequence, 42);
    assert_eq!(
        first.presentation_ns + i64::try_from(first.duration_ns).unwrap(),
        second.presentation_ns
    );
}

#[test]
fn audio_pages_validate_global_sequence_and_sample_continuity_transactionally() {
    let source_id = input(1);
    let mut source = audio_source(&[(100, 2), (102, 1)], false);
    assert_eq!(source.next_sample, 103);
    assert_eq!(source.next_sequence, 2);

    let invalid = vec![audio_block(3, 103, 1)];
    assert!(matches!(
        validate_audio_page(source_id, &source, &invalid, CLOCK, Ok(())),
        Err(NativeMasterError::InvalidTimeline { input }) if input == source_id
    ));
    assert_eq!(source.next_sample, 103);
    assert_eq!(source.next_sequence, 2);
    let valid = vec![audio_block(2, 103, 1)];
    let page = validate_audio_page(source_id, &source, &valid, CLOCK, Ok(())).unwrap();
    assert_eq!(page.charge, charge(1, 1));
    let held = source.synchronizer.unwrap().buffered.checked_add(page.charge).unwrap();
    commit_audio_page(&mut source, page, Ok(held)).unwrap();
    assert_eq!(source.next_sample, 104);
    assert_eq!(source.synchronizer.unwrap().buffered.blocks, 3);
}

#[test]
fn synchronizer_occupancy_aggregates_into_native_telemetry() {
    let source_id = input(1);
    let mut runtime = NativeMasterRuntime {
        lane: lane(&[(source_id, audio_source(&[(0, 4)], true))], 24_000),
        stinger_audio: None,
    };
    assert_eq!(
        (runtime.retained_blocks(), runtime.retained_samples(), runtime.retained_bytes()),
        (1, 4, 16)
    );
    assert!(service(&mut runtime.lane).1.unwrap());
    assert_eq!(render(&mut runtime.lane, &frame_result(0, source_id, None)), Ok(2));
    assert_eq!(runtime.retained_samples(), 2);
    assert_eq!(runtime.retained_bytes(), 8);
}

#[test]
fn eos_straddle_pads_to_the_end_of_the_frame() {
    let source_id = input(1);
    let mut lane = lane(&[(source_id, audio_source(&[(0, 3)], true))], 12_000);
    assert!(service(&mut lane).1.unwrap());
    assert_eq!(lane.audio_telemetry.eos_padding_blocks, 1);
    assert_eq!(lane.audio_telemetry.eos_padding_samples, 1);
    assert_eq!(render(&mut lane, &frame_result(0, source_id, None)), Ok(4));
}

#[test]
fn inactive_decoded_sources_advance_on_every_master_interval() {
    let active = input(1);
    let inactive = input(2);
    let mut lane = audio_test_lane(&[active, inactive]);
    assert!(service(&mut lane).1.unwrap());
    assert_eq!(render(&mut lane, &frame_result(0, active, None)), Ok(1_920));
    for source in [active, inactive] {
        let held = lane.sources.get(source).unwrap().synchronizer.unwrap().buffered;
        assert_eq!(held.samples, 3_840);
    }
}

#[test]
fn multi_source_render_preflight_rolls_back_every_cursor() {
    let first = input(1);
    let second = input(2);
    let mut lane = audio_test_lane(&[first, second]);
    lane.sources.insert(second, audio_source(&[(0, 32)], false));
    lane.ready_frame = Some(ReadyFrame { frame: 0, start_sample: 0, end_sample: 1_920 });
    let retained = lane.retained_charge().samples;

    assert_eq!(
        render(&mut lane, &frame_result(0, first, Some(second))),
        Err(NativeMasterError::Synchronizer(NEEDS_MORE))
    );
    assert_eq!(lane.expected_next_frame(), 0);
    assert_eq!(lane.retained_charge().samples, retained);
}

#[test]
fn restored_master_starts_at_absolute_frame_cadence() {
    let source_id = input(1);
    let mut lane = audio_test_lane(&[source_id]);
    lane.expected_next_frame = 2;
    assert!(service(&mut lane).1.unwrap());
    let plan = lane
        .begin_render(&frame_result(2, source_id, None), None, false, verdict())
        .unwrap();
    assert_eq!(plan.timing.original.ticks, 3_840);
    assert_eq!(plan.samples, 1_920);
}

#[test]
fn restored_master_cursor_services_absolute_frame_without_allocator_replay() {
    let source_id = input(1);
    let mut master = lane(&[(source_id, NativeAudioSource::silence())], 25);
    master.expected_next_frame = 123;

    assert!(service(&mut master).1.unwrap());
    let (timing, samples) =
        render_timed(&mut master, &frame_result(123, source_id, None), Ok(())).unwrap();

    assert_eq!(master.expected_next_frame(), 124);
    assert_eq!(timing.sequence, 123);
    assert_eq!(timing.original.ticks, 236_160);
    assert_eq!(samples, 1_920);
}

#[test]
fn worker_messages_are_send() {
    fn assert_send<T: Send>() {}

    assert_send::<NativeDecodeRequest>();
    assert_send::<NativeDecodeResult>();
    assert_send::<NativeAudioDecodeRequest>();
    assert_send::<NativeAudioDecodeResult>();
}

#[test]
fn uncovered_tiny_blocks_fail_at_the_per_source_ring_bound() {
    let source_id = input(1);
    let chunks: Vec<_> = (0..8).map(|sample| (sample, 1)).collect();
    let mut lane = lane(&[(source_id, audio_source(&chunks, false))], 25);
    lane.limits.max_blocks_per_source = 8;
    lane.limits.max_blocks_per_page = 4;

    assert!(matches!(service(&mut lane).1, Err(NativeMasterError::BoundsExceeded)));
    assert!(matches!(service(&mut lane).1, Err(NativeMasterError::Failed)));
}

#[test]
fn only_uncovered_source_bypasses_watermark_and_reserves_actual_count() {
    let starved = input(1);
    let covered = input(2);
    let mut lane = audio_test_lane(&[starved, covered]);
    let tiny: Vec<_> = (0..30).map(|sample| (sample, 1)).collect();
    lane.sources.insert(starved, audio_source(&tiny, false));
    let full: Vec<_> = (0..9).map(|block| (block * 300, 300)).collect();
    lane.sources.insert(covered, audio_source(&full, false));

    let (requests, served) = service(&mut lane);
    assert!(!served.unwrap());
    assert_eq!(requests.len(), 1);
    assert_eq!(
        lane.sources.get(starved).unwrap().in_flight.map(|reservation| reservation.count),
        Some(2)
    );
    assert!(lane.sources.get(covered).unwrap().in_flight.is_none());
    let telemetry = lane.audio_telemetry;
    assert_eq!(telemetry.reservation_requests, 1);
    assert_eq!(telemetry.reserved_blocks, 2);
    assert_eq!(telemetry.peak_reserved_blocks, 2);
    assert_eq!(telemetry.source_stalls, 1);
}

#[test]
fn urgent_high_id_reserves_before_low_id_speculation_at_exact_global_budget() {
    let speculative = input(1);
    let urgent = input(2);
    let mut lane = audio_test_lane(&[speculative, urgent]);
    lane.sources.insert(speculative, audio_source(&[(0, 2_400)], false));
    let tiny: Vec<_> = (0..30).map(|sample| (sample, 1)).collect();
    lane.sources.insert(urgent, audio_source(&tiny, false));
    let retained_samples = 2_430;
    let speculative_reservation = NativeAudioLimits::default().max_samples_per_page;
    lane.limits.max_retained_blocks = 47;
    lane.limits.max_retained_samples = retained_samples + speculative_reservation;
    lane.limits.max_retained_bytes = (retained_samples + speculative_reservation) * SAMPLE_BYTES;

    assert!(!service(&mut lane).1.unwrap());
    assert!(lane.sources.get(speculative).unwrap().in_flight.is_none());
    assert_eq!(
        lane.sources.get(urgent).unwrap().in_flight.map(|reservation| reservation.charge),
        Some(NativeAudioCharge { blocks: 2, samples: 8_192, bytes: 8_192 * SAMPLE_BYTES })
    );
    let held = lane.retained_charge();
    assert_eq!(lane.limits.max_retained_blocks, held.blocks + 16);
    assert_eq!(lane.limits.max_retained_samples, held.samples + speculative_reservation);
    assert_eq!(
        lane.limits.max_retained_bytes,
        held.bytes + speculative_reservation * SAMPLE_BYTES
    );
    assert_eq!(lane.audio_telemetry.reservation_requests, 1);
}

#[test]
fn eos_padding_preflights_all_sources_before_any_commit() {
    let first = input(1);
    let second = input(2);
    let mut lane = lane(
        &[(first, audio_source(&[(0, 3)], true)), (second, audio_source(&[(0, 3)], true))],
        12_000,
    );
    lane.limits.max_retained_samples = 7;
    lane.limits.max_retained_bytes = 7 * SAMPLE_BYTES;
    let before = [first, second].map(|input| *lane.sources.get(input).unwrap());

    assert!(matches!(service(&mut lane).1, Err(NativeMasterError::BoundsExceeded)));
    for (input, expected) in [first, second].into_iter().zip(before) {
        assert_eq!(*lane.sources.get(input).unwrap(), expected);
    }
    assert_eq!(lane.audio_telemetry.eos_padding_blocks, 0);
}

#[test]
fn multi_block_eos_late_bound_failure_rolls_back_every_source() {
    let first = input(1);
    let second = input(2);
    let mut lane = lane(
        &[(first, audio_source(&[(0, 1)], true)), (second, audio_source(&[(0, 1)], true))],
        8_000,
    );
    lane.limits.max_samples_per_page = 2;
    lane.limits.max_retained_blocks = 8;
    lane.limits.max_retained_samples = 11;
    lane.limits.max_retained_bytes = 11 * SAMPLE_BYTES;
    let before = [first, second].map(|input| *lane.sources.get(input).unwrap());

    let mut room = lane.limits.max_retained_blocks;
    let mut staged_spans = 0;
    for (input, source) in [first, second].into_iter().zip(&before) {
        let staged =
            stage_eos_padding_source(input, 5, source, lane.limits, MAX_SAMPLES_PER_BLOCK, room)
                .unwrap();
        room -= staged.spans.len();
        staged_spans += staged.spans.len();
    }
    assert_eq!(staged_spans, 6);
    assert!(matches!(service(&mut lane).1, Err(NativeMasterError::BoundsExceeded)));
    for (input, expected) in [first, second].into_iter().zip(before) {
        assert_eq!(*lane.sources.get(input).unwrap(), expected);
    }
    assert_eq!(lane.audio_telemetry.eos_padding_blocks, 0);
    assert_eq!(lane.audio_telemetry.eos_padding_samples, 0);
}

#[test]
fn eos_padding_comes_in_blocks_no_longer_than_a_page() {
    let source_id = input(1);
    let mut lane = lane(&[(source_id, audio_source(&[(0, 1)], true))], 8_000);
    lane.limits.max_samples_per_page = 2;
    assert!(service(&mut lane).1.unwrap());
    assert_eq!(lane.audio_telemetry.eos_padding_blocks, 3);
    assert_eq!(lane.audio_telemetry.eos_padding_samples, 5);
    assert_eq!(lane.sources.get(source_id).unwrap().next_sample, 6);
}

#[test]
fn silence_after_the_end_lies_back_to_back() {
    let source_id = input(1);
    let source = audio_source(&[(0, 1)], true);
    let limits = NativeAudioLimits { max_samples_per_page: 2, ..NativeAudioLimits::default() };
    let staged =
        stage_eos_padding_source(source_id, 5, &source, limits, MAX_SAMPLES_PER_BLOCK, 8).unwrap();
    let starts: Vec<_> = staged.spans.iter().map(|span| span.timing.original.ticks).collect();
    assert_eq!(starts, vec![1, 3, 5]);
    let lengths: Vec<_> = staged.spans.iter().map(|span| span.samples).collect();
    assert_eq!(lengths, vec![2, 2, 1]);
    let sequences: Vec<_> = staged.spans.iter().map(|span| span.timing.sequence).collect();
    assert_eq!(sequences, vec![1, 2, 3]);
    for pair in staged.spans.windows(2) {
        let end = pair[0].timing.presentation_ns + pair[0].timing.duration_ns as i64;
        assert_eq!(pair[1].timing.presentation_ns, end);
    }
    assert!(matches!(
        stage_eos_padding_source(source_id, 5, &source, limits, MAX_SAMPLES_PER_BLOCK, 2),
        Err(NativeMasterError::BoundsExceeded)
    ));
}

#[test]
fn answers_are_committed_and_reservations_released() {
    let source_id = input(1);
    let mut lane = lane(&[(source_id, audio_source(&[(0, 100)], false))], 25);
    let (requests, served) = service(&mut lane);
    assert!(!served.unwrap());
    let request = requests[0];
    let reservation = lane.sources.get(source_id).unwrap().in_flight.unwrap();
    assert_eq!(request.count, reservation.count);
    let blocks = (0..request.count as u64)
        .map(|index| audio_block(1 + index, 100 + index * 200, 200))
        .collect::<Vec<_>>();
    let end = 100 + 200 * blocks.len() as u64;
    let window = Ok(DecodedAudioWindow { blocks, end_of_stream: true });
    let completed = vec![request.answered(0, 0, window, Ok(()))];
    assert_eq!(completed[0].reservation, reservation);
    assert!(service_answers(&mut lane, Ok(completed)).1.unwrap());
    let source = lane.sources.get(source_id).unwrap();
    assert_eq!(source.next_sample, end);
    assert!(source.in_flight.is_none() && source.end_of_stream);
    assert_eq!(lane.audio_telemetry.reserved_blocks, 0);
    assert_eq!(lane.audio_telemetry.peak_retained_samples as u64, end);
}

#[test]
fn answers_from_before_a_restart_are_dropped() {
    let source_id = input(1);
    let mut lane = lane(&[(source_id, audio_source(&[(0, 100)], false))], 25);
    let (requests, _) = service(&mut lane);
    assert_eq!(requests.len(), 1);
    let reservation = lane.sources.get(source_id).unwrap().in_flight.unwrap();
    lane.restart_clip_at(7).unwrap();
    let completed = vec![NativeAudioDecodeResult {
        input: source_id,
        reservation,
        positioned_blocks: 0,
        positioned_samples: 0,
        window: Ok(DecodedAudioWindow { blocks: vec![audio_block(1, 100, 50)], end_of_stream: true }),
        admitted: Ok(()),
    }];
    let (_, pages) = lane.check_completed_pages(&completed).unwrap();
    assert!(pages.is_empty());
    let source = lane.sources.get(source_id).unwrap();
    assert!(source.restart_decode && source.in_flight.is_none());
    assert_eq!(held(&lane, source_id), charge(0, 0));
    assert_eq!(source.next_sample, source.restart_sample);
    assert_eq!(lane.audio_telemetry.reserved_blocks, 0);
}

#[test]
fn frames_are_rendered_in_turn_and_only_when_ready() {
    let source_id = input(1);
    let mut lane = audio_test_lane(&[source_id]);
    assert!(matches!(
        lane.begin_render(&frame_result(0, source_id, None), None, false, verdict()),
        Err(NativeMasterError::FrameNotReady(0))
    ));
    assert!(service(&mut lane).1.unwrap());
    assert!(matches!(
        lane.begin_render(&frame_result(1, source_id, None), None, false, verdict()),
        Err(NativeMasterError::UnexpectedFrame { expected: 0, actual: 1 })
    ));
    assert!(matches!(
        lane.begin_render(&frame_result(0, source_id, None), None, true, verdict()),
        Err(NativeMasterError::SinkRejected)
    ));
    assert_eq!(render(&mut lane, &frame_result(0, source_id, None)), Ok(1_920));
    assert_eq!(lane.expected_next_frame(), 1);
}

#[test]
fn a_failed_service_is_final() {
    let source_id = input(1);
    let mut lane = audio_test_lane(&[source_id]);
    let (requests, served) =
        service_answers(&mut lane, Err(NativeMasterError::WorkerDisconnected));
    assert!(requests.is_empty());
    assert_eq!(served, Err(NativeMasterError::WorkerDisconnected));
    assert_eq!(service(&mut lane).1, Err(NativeMasterError::Failed));
    assert_eq!(
        render(&mut lane, &frame_result(0, source_id, None)),
        Err(NativeMasterError::Failed)
    );
}

#[test]
fn a_failed_frame_keeps_its_place() {
    let source_id = input(1);
    let mut lane = audio_test_lane(&[source_id]);
    assert!(service(&mut lane).1.unwrap());
    let ready = lane.ready_frame;
    assert!(ready.is_some());
    assert_eq!(
        render_collected(
            &mut lane,
            &frame_result(0, source_id, None),
            Err(NativeMasterError::SinkRejected)
        ),
        Err(NativeMasterError::SinkRejected)
    );
    assert_eq!(lane.expected_next_frame(), 0);
    assert_eq!(lane.ready_frame, ready);
    assert!(lane.failed);
    assert_eq!(
        render(&mut lane, &frame_result(0, source_id, None)),
        Err(NativeMasterError::Failed)
    );
}

#[test]
fn a_frame_that_is_waited_for_is_not_ready() {
    let source_id = input(1);
    let mut lane = lane(&[(source_id, audio_source(&[(0, 100)], false))], 25);
    let (requests, served) = service(&mut lane);
    assert_eq!(served, Ok(false));
    assert_eq!(requests.len(), 1);
    assert_eq!(lane.ready_frame, None);
    assert_eq!(lane.audio_telemetry.source_stalls, 1);
    assert_eq!(lane.expected_next_frame(), 0);
}

fn project_with(inputs: &[InputId], stingers: Vec<StingerConfig>) -> NativeProjectPlan {
    let project = Project {
        inputs: inputs.iter().map(|id| Input { id: *id, kind: InputKind::Media }).collect(),
        scenes: Vec::new(),
        stingers,
        input_audio_strips: inputs
            .iter()
            .map(|id| InputAudioStrip {
                input: *id,
                state: InputAudioStripState { gain_milli_db: 0, muted: false, follow_video: true },
            })
            .collect(),
        frame_rate: FrameRate { numerator: 25, denominator: 1 },
        width: 4,
        height: 2,
    };
    NativeProjectPlan::compile(&project, NativeProjectLimits::default(), &Vec::new()).ok().unwrap()
}

fn stinger(number: u8, media_input: InputId) -> StingerConfig {
    StingerConfig {
        slot_number: number,
        slot: Some(StingerSlotId(number)),
        media_input,
        preload: true,
        cut_point_frames: 1,
        audio_policy: StingerAudioPolicy::StingerOnly,
    }
}

fn stinger_frame(frame: u64, frame_index: u32) -> (FrameResult, Result<StingerFramePlan, OutsideFailure>) {
    let mut result = frame_result(frame, input(1), Some(input(2)));
    result.program.transition_kind = Some(SwitcherTransitionKind::Stinger(StingerSlotId(1)));
    result.program.mix_numerator = frame_index;
    result.program.mix_start_numerator = frame_index;
    result.program.mix_end_numerator = frame_index + 1;
    let base = if frame_index < 1 { StingerBase::Program } else { StingerBase::Preview };
    (result, Ok(StingerFramePlan { frame_index, base }))
}

fn play_stinger(
    runtime: &mut NativeMasterRuntime,
    project: &NativeProjectPlan,
    frame: u64,
    frame_index: u32,
) -> bool {
    let (result, plan) = stinger_frame(frame, frame_index);
    play_stinger_frame(runtime, project, &result, plan)
}

/// Plays a frame of a Stinger and tells whether its clip was restarted.
fn play_stinger_frame(
    runtime: &mut NativeMasterRuntime,
    project: &NativeProjectPlan,
    result: &FrameResult,
    plan: Result<StingerFramePlan, OutsideFailure>,
) -> bool {
    let wanted = runtime.stinger_audio.as_ref().unwrap().restarts(result, project, plan);
    let begun = runtime.begin_stinger_service(result, project, plan).unwrap();
    let Some(StingerService::Clip { request, restarted }) = begun else {
        panic!("expected a clip");
    };
    assert_eq!(wanted, restarted.then_some(request.trigger.media));
    let playback = runtime.stinger_audio.as_mut().unwrap();
    let slot = playback.masters.position(request.trigger.media).unwrap();
    let covered = service(&mut playback.masters.entries[slot].1).1.unwrap();
    assert!(runtime.finish_project_service(true, begun, covered));
    let StingerRender::Clip { request, frame } =
        runtime.begin_stinger_render(result, project, plan).unwrap()
    else {
        panic!("expected a clip");
    };
    let playback = runtime.stinger_audio.as_mut().unwrap();
    let slot = playback.masters.position(request.trigger.media).unwrap();
    render(&mut playback.masters.entries[slot].1, &frame).unwrap();
    restarted
}

#[test]
fn stinger_audio_services_only_selected_media_and_reports_aggregate_retention() {
    let program = input(1);
    let preview = input(2);
    let selected = input(3);
    let unrelated = input(4);
    let inputs = [program, preview, selected, unrelated];
    let project = project_with(&inputs, vec![stinger(1, selected), stinger(2, unrelated)]);
    let mut masters = OrderedMap::new();
    for media in [selected, unrelated] {
        let mut clip = audio_test_lane(&[media]);
        clip.collect_output = false;
        masters.insert(media, clip);
    }
    let mut runtime = NativeMasterRuntime {
        lane: audio_test_lane(&inputs),
        stinger_audio: Some(NativeStingerAudioPlayback {
            masters,
            silent_inputs: Vec::new(),
            active_trigger: None,
            ready: None,
        }),
    };
    assert!(runtime.lane.realize_project_audio(&project).is_ok());
    assert!(runtime.retained_blocks() > runtime.lane.retained_charge().blocks);

    play_stinger(&mut runtime, &project, 0, 0);

    let playback = runtime.stinger_audio.as_ref().unwrap();
    assert_eq!(playback.masters.get(selected).unwrap().expected_next_frame(), 1);
    assert_eq!(playback.masters.get(unrelated).unwrap().expected_next_frame(), 0);
}

#[test]
fn fade_to_black_revision_change_does_not_restart_stinger_audio() {
    let media = input(3);
    let project = project_with(&[input(1), input(2), media], vec![stinger(1, media)]);
    let mut masters = OrderedMap::new();
    masters.insert(media, audio_test_lane(&[media]));
    let mut runtime = NativeMasterRuntime {
        lane: audio_test_lane(&[input(1), input(2), media]),
        stinger_audio: Some(NativeStingerAudioPlayback {
            masters,
            silent_inputs: Vec::new(),
            active_trigger: None,
            ready: None,
        }),
    };
    assert!(!play_stinger(&mut runtime, &project, 0, 0));
    let (mut faded, plan) = stinger_frame(1, 1);
    faded.fade_to_black = FadeToBlackFrame {
        interval_start: FadeToBlackPosition { numerator: 1, denominator: 4 },
        interval_end: FadeToBlackPosition { numerator: 2, denominator: 4 },
    };
    assert!(!play_stinger_frame(&mut runtime, &project, &faded, plan));
    let playback = runtime.stinger_audio.as_ref().unwrap();
    assert_eq!(playback.masters.get(media).unwrap().expected_next_frame(), 2);
}

#[test]
fn a_clip_that_is_shown_again_starts_empty_and_asks_its_decoder() {
    let media = input(3);
    let project = project_with(&[input(1), input(2), media], vec![stinger(1, media)]);
    let full: Vec<_> = (0..8).map(|block| (block * 240, 240)).collect();
    let mut clip = lane(&[(media, audio_source(&full, false))], 25);
    clip.limits.max_blocks_per_source = 8;
    clip.limits.max_blocks_per_page = 4;
    let mut masters = OrderedMap::new();
    masters.insert(media, clip);
    let mut runtime = NativeMasterRuntime {
        lane: audio_test_lane(&[input(1), input(2), media]),
        stinger_audio: Some(NativeStingerAudioPlayback {
            masters,
            silent_inputs: Vec::new(),
            active_trigger: None,
            ready: None,
        }),
    };
    assert!(!play_stinger(&mut runtime, &project, 0, 0));
    let playback = runtime.stinger_audio.as_ref().unwrap();
    assert_eq!(held(playback.masters.get(media).unwrap(), media).blocks, 8);

    // The same Stinger is shown again, ten frames later.
    let (result, plan) = stinger_frame(10, 0);
    assert_eq!(playback.restarts(&result, &project, plan), Some(media));
    let begun = runtime.begin_stinger_service(&result, &project, plan);
    let Ok(Some(StingerService::Clip { request, restarted: true })) = begun else {
        panic!("expected a restart");
    };
    assert_eq!(request.trigger.cadence_origin_frame, 10);
    let playback = runtime.stinger_audio.as_mut().unwrap();
    assert_eq!(playback.restarts(&result, &project, plan), None);
    let slot = playback.masters.position(media).unwrap();
    let clip = &mut playback.masters.entries[slot].1;
    assert_eq!(held(clip, media), charge(0, 0));
    assert_eq!(clip.retained_charge(), charge(0, 0));
    assert_eq!((clip.expected_next_frame(), clip.cadence_origin_frame), (0, 10));
    let (requests, covered) = service(clip);
    assert_eq!(covered, Ok(false));
    assert_eq!(requests.len(), 1);
    assert_eq!((requests[0].count, requests[0].restart, requests[0].generation), (4, true, 1));

    // A showing that comes in at its middle is refused, but restarts the clip all the same.
    let (middle, plan) = stinger_frame(30, 1);
    assert_eq!(playback.restarts(&middle, &project, plan), Some(media));
    assert_eq!(
        runtime.begin_stinger_service(&middle, &project, plan),
        Err(NativeMasterError::UnexpectedFrame { expected: 0, actual: 1 })
    );
    let playback = runtime.stinger_audio.as_ref().unwrap();
    let source = playback.masters.get(media).unwrap().sources.get(media).unwrap();
    assert!(source.restart_decode && source.decode_generation == 2);
}

#[test]
fn a_muted_stinger_restarts_nothing() {
    let media = input(3);
    let mut muted = stinger(1, media);
    muted.audio_policy = StingerAudioPolicy::Muted;
    let project = project_with(&[input(1), input(2), media], vec![stinger(1, media)]);
    let quiet = project_with(&[input(1), input(2), media], vec![muted]);
    let mut masters = OrderedMap::new();
    masters.insert(media, audio_test_lane(&[media]));
    let mut runtime = NativeMasterRuntime {
        lane: audio_test_lane(&[input(1), input(2), media]),
        stinger_audio: Some(NativeStingerAudioPlayback {
            masters,
            silent_inputs: Vec::new(),
            active_trigger: None,
            ready: None,
        }),
    };
    assert!(!play_stinger(&mut runtime, &project, 0, 0));
    let (result, plan) = stinger_frame(10, 0);
    let playback = runtime.stinger_audio.as_ref().unwrap();
    assert_eq!(playback.restarts(&result, &quiet, plan), None);
    let before = held(playback.masters.get(media).unwrap(), media);
    assert_eq!(
        runtime.begin_stinger_service(&result, &quiet, plan),
        Ok(Some(StingerService::Covered))
    );
    let playback = runtime.stinger_audio.as_ref().unwrap();
    assert_eq!(held(playback.masters.get(media).unwrap(), media), before);
}

#[test]
fn requests_that_were_not_sent_are_taken_back() {
    let (first, second) = (input(1), input(2));
    let starved = audio_source(&[(0, 100)], false);
    let mut lane = lane(&[(first, starved), (second, starved)], 25);
    let (requests, covered, before) = service_until_sent(&mut lane, Ok(Vec::new()));
    assert_eq!(covered, Ok(false));
    assert_eq!(requests.len(), 2);
    assert_eq!(lane.audio_telemetry.reservation_requests, 2);
    let promised = lane.sources.get(first).unwrap().in_flight.unwrap();

    lane.take_back(&requests, 1, before);
    assert!(lane.failed);
    assert_eq!(lane.sources.get(first).unwrap().in_flight, Some(promised));
    assert_eq!(*lane.sources.get(second).unwrap(), starved);
    let telemetry = lane.audio_telemetry;
    assert_eq!((telemetry.reservation_requests, telemetry.source_stalls), (1, 2));
    assert_eq!(telemetry.reserved_samples, promised.charge.samples);
    assert_eq!(telemetry.peak_reserved_samples, promised.charge.samples);
    assert_eq!(service(&mut lane).1, Err(NativeMasterError::Failed));
}

#[test]
fn a_restart_that_was_not_sent_is_still_due() {
    let source_id = input(1);
    let mut lane = lane(&[(source_id, audio_source(&[(0, 1_920)], false))], 25);
    assert_eq!(service(&mut lane).1, Ok(true));
    let ready = lane.ready_frame;
    assert!(ready.is_some());
    let asked = lane.sources.get(source_id).unwrap().in_flight;
    assert!(asked.is_some());
    lane.sources.insert(
        source_id,
        NativeAudioSource {
            in_flight: None,
            restart_decode: true,
            next_sample: 0,
            ..*lane.sources.get(source_id).unwrap()
        },
    );
    let counts = lane.audio_telemetry;
    let (requests, covered, before) = service_until_sent(&mut lane, Ok(Vec::new()));
    assert_eq!(covered, Ok(false));
    assert!(requests[0].restart);
    assert_eq!(lane.ready_frame, None);
    lane.take_back(&requests, 0, before);
    let source = lane.sources.get(source_id).unwrap();
    assert!(source.restart_decode && source.in_flight.is_none());
    assert_eq!(
        lane.audio_telemetry,
        NativeAudioTelemetry { source_stalls: counts.source_stalls + 1, ..counts }
    );
    assert_eq!(lane.ready_frame, ready);
}

#[test]
fn video_only_stinger_audio_is_silence_and_splits_no_bounds() {
    let media = input(3);
    let project = project_with(&[input(1), input(2), media], vec![stinger(1, media)]);
    let requested = requested_stinger_inputs(&project);
    assert_eq!(requested, vec![media]);
    let (heard, silent) =
        split_stinger_inputs(&requested, &vec![input(1), input(2), media], &vec![Ok(false)]).unwrap();
    assert!(heard.is_empty());
    assert_eq!(silent, vec![media]);
    let limits = NativeAudioLimits::default();
    assert_eq!(partition_native_audio_limits(limits, false), Ok((limits, limits)));

    let mut runtime = NativeMasterRuntime {
        lane: audio_test_lane(&[input(1), input(2), media]),
        stinger_audio: Some(NativeStingerAudioPlayback {
            masters: OrderedMap::new(),
            silent_inputs: silent,
            active_trigger: None,
            ready: None,
        }),
    };
    let (frame, plan) = stinger_frame(0, 0);
    assert_eq!(
        runtime.begin_stinger_service(&frame, &project, plan),
        Ok(Some(StingerService::Covered))
    );
    assert!(matches!(
        runtime.begin_stinger_render(&frame, &project, plan),
        Ok(StingerRender::Silence(_))
    ));
}

#[test]
fn the_lanes_of_a_project_share_its_bounds() {
    let (first, second, quiet) = (input(3), input(4), input(5));
    let inputs = [input(1), first, second, quiet];
    let mut muted = stinger(4, input(1));
    muted.audio_policy = StingerAudioPolicy::Muted;
    let project = project_with(
        &inputs,
        vec![stinger(1, second), stinger(2, first), stinger(3, quiet), muted],
    );
    assert_eq!(requested_stinger_inputs(&project), vec![first, second, quiet]);
    let limits = NativeAudioLimits::default();
    let resolved = inputs.to_vec();
    let found = vec![Ok(true), Ok(true), Ok(false)];
    let plan = plan_project_audio(&project, &resolved, &found, limits).unwrap();
    assert_eq!(plan.heard, vec![first, second]);
    assert_eq!(plan.silent, vec![quiet]);
    assert_eq!(plan.ordinary_limits.max_retained_samples, 524_288);
    assert_eq!(plan.stinger_limits.max_retained_samples, 524_288);
    let clip_limits = plan.clip_limits().unwrap();
    assert_eq!(clip_limits.max_retained_samples, 262_144);
    assert_eq!(clip_limits.max_retained_blocks, 256);
    assert_eq!(clip_limits.sink_blocks, 1);

    let mut masters = OrderedMap::new();
    for media in [first, second] {
        let (clip, state) = clip_lane(&project, media, audio_test_lane(&[media])).ok().unwrap();
        assert!(!clip.collect_output);
        assert!(state.follow_video && !state.muted);
        masters.insert(media, clip);
    }
    assert_eq!(
        clip_lane(&project, input(9), audio_test_lane(&[input(9)])).err(),
        Some(NativeMasterError::MissingAudioRoute { input: input(9) })
    );
    let runtime = plan.join(audio_test_lane(&inputs), masters);
    let playback = runtime.stinger_audio.as_ref().unwrap();
    assert_eq!(playback.masters.entries.iter().map(|clip| clip.0).collect::<Vec<_>>(), vec![first, second]);
    assert_eq!(playback.silent_inputs, vec![quiet]);
    assert_eq!(playback.active_trigger, None);

    let missing = plan_project_audio(&project, &vec![input(1)], &found, limits);
    assert_eq!(missing.err(), Some(NativeMasterError::MissingAudioRoute { input: first }));
    let broken = NativeMasterError::Ffmpeg { input: second, error: OutsideFailure(8) };
    let failed = vec![Ok(true), Err(broken), Ok(false)];
    assert_eq!(plan_project_audio(&project, &resolved, &failed, limits).err(), Some(broken));

    let bare = project_with(&inputs, Vec::new());
    let plan = plan_project_audio(&bare, &resolved, &Vec::new(), limits).unwrap();
    assert_eq!(plan.ordinary_limits, limits);
    assert_eq!(plan.clip_limits(), None);
    assert!(plan.join(audio_test_lane(&inputs), OrderedMap::new()).stinger_audio.is_none());
}

#[test]
fn a_stinger_without_clips_is_not_heard() {
    let media = input(3);
    let project = project_with(&[input(1), input(2), media], vec![stinger(1, media)]);
    let mut runtime =
        NativeMasterRuntime { lane: audio_test_lane(&[input(1)]), stinger_audio: None };
    let (frame, plan) = stinger_frame(0, 0);
    assert_eq!(runtime.begin_stinger_service(&frame, &project, plan), Ok(None));
    assert_eq!(
        runtime.begin_stinger_render(&frame, &project, plan),
        Err(NativeMasterError::InvalidFormat)
    );
    assert_eq!(runtime.expected_next_frame(), 0);
    assert_eq!(runtime.audio_telemetry().source_stalls, 0);
}

#[test]
fn projects_name_the_inputs_the_mixer_has_to_learn_of() {
    let physical = input(1);
    let alias = input(2);
    let mut project = Project {
        inputs: vec![
            Input { id: physical, kind: InputKind::Media },
            Input {
                id: alias,
                kind: InputKind::Scene { scene_id: SceneId(10), audio_source: Some(physical) },
            },
        ],
        scenes: vec![Scene {
            id: SceneId(10),
            background: Rgba8 { red: 0, green: 0, blue: 0, alpha: 255 },
            layers: Vec::new(),
        }],
        stingers: Vec::new(),
        input_audio_strips: Vec::new(),
        frame_rate: FrameRate { numerator: 25, denominator: 1 },
        width: 4,
        height: 2,
    };
    for id in [physical, alias] {
        project.input_audio_strips.push(InputAudioStrip {
            input: id,
            state: InputAudioStripState { gain_milli_db: -12_000, muted: true, follow_video: false },
        });
    }
    let outcome = SceneOutcome {
        canvas: Ok(()),
        composition: Ok(Composition { handle: 0, layer_count: 0 }),
    };
    let plan = NativeProjectPlan::compile(&project, NativeProjectLimits::default(), &vec![outcome])
        .ok()
        .unwrap();
    assert_eq!(check_strip_count(&plan), Ok(()));
    let mut lane = audio_test_lane(&[physical]);
    let (states, actions) = lane.realize_project_audio(&plan).unwrap();
    assert_eq!(states.len(), 1);
    assert_eq!(states[0].0, physical);
    assert_eq!((states[0].1.whole_db, states[0].1.fractional_milli_db), (-12, 0));
    assert!(states[0].1.muted && !states[0].1.follow_video);
    assert!(matches!(
        actions[..],
        [StripAction::Alias { input, source, .. }] if input == alias && source == physical
    ));
    let unknown = audio_test_lane(&[input(9)]);
    assert!(matches!(
        unknown.apply_project_audio_strips(&plan),
        Err(NativeMasterError::MissingAudioRoute { input }) if input == InputId(9)
    ));
}

#[test]
fn limits_are_shared_out_and_checked() {
    let limits = NativeAudioLimits::default();
    let (ordinary, stinger) = partition_native_audio_limits(limits, true).unwrap();
    assert_eq!(ordinary.max_retained_blocks, 512);
    assert_eq!(ordinary.max_retained_blocks + stinger.max_retained_blocks, 1_024);
    let clip = partition_stinger_audio_limits(stinger, 3).unwrap();
    assert_eq!(clip.max_retained_blocks, 170);
    assert_eq!(
        partition_stinger_audio_limits(limits, 0),
        Err(NativeMasterError::InvalidLimits)
    );
    assert_eq!(validate_audio_limits(limits, 2), Ok(()));
    assert_eq!(
        validate_audio_limits(NativeAudioLimits { max_samples_per_page: 0, ..limits }, 2),
        Err(NativeMasterError::InvalidLimits)
    );
    assert_eq!(proportional_page_samples(2, limits), Ok(8_192));
    assert_eq!(audio_sample_bytes(3, 2), Ok(24));
    assert_eq!(audio_sample_bytes(usize::MAX, 2), Err(NativeMasterError::BoundsExceeded));
}

#[test]
fn charges_add_and_subtract_without_wrapping() {
    let one = charge(1, 10);
    let two = charge(2, 30);
    assert_eq!(one.checked_add(two), Some(charge(3, 40)));
    assert_eq!(charge(3, 40).checked_sub(two), Some(one));
    assert_eq!(one.checked_sub(two), None);
    let full = NativeAudioCharge { blocks: usize::MAX, samples: 0, bytes: 0 };
    assert_eq!(full.checked_add(one), None);

    let mut telemetry = NativeAudioTelemetry::default();
    telemetry.record_reservation(two);
    assert_eq!(telemetry.reserved_samples, 30);
    assert_eq!(
        telemetry.release_reservation(charge(3, 30)),
        Err(NativeMasterError::BoundsExceeded)
    );
    telemetry.release_reservation(two).unwrap();
    assert_eq!(telemetry.reserved_samples, 0);
    assert_eq!(telemetry.peak_reserved_samples, 30);
    observe_retained_peak(&mut telemetry, one);
    assert_eq!(telemetry.peak_retained_blocks, 1);
    let mut merged = NativeAudioTelemetry::default();
    merged.merge(telemetry);
    merged.merge(telemetry);
    assert_eq!(merged.peak_reserved_samples, 60);
}

#[test]
fn pages_keep_to_their_bounds() {
    let limits = NativeAudioLimits::default();
    let page = ValidatedAudioPage { next_sample: 0, next_sequence: 0, charge: charge(16, 65_536) };
    assert_eq!(validate_page_bounds(&page, limits), Ok(()));
    let over = ValidatedAudioPage { charge: charge(17, 0), ..page };
    assert_eq!(validate_page_bounds(&over, limits), Err(NativeMasterError::BoundsExceeded));
    assert_eq!(validate_retained_bounds(charge(1_024, 0), limits), Ok(()));
    assert_eq!(
        validate_retained_bounds(charge(1_025, 0), limits),
        Err(NativeMasterError::BoundsExceeded)
    );
    let window = DecodedAudioWindow { blocks: vec![audio_block(0, 0, 1)], end_of_stream: false };
    assert_eq!(validate_audio_window_contract(input(1), &window, 1), Ok(()));
    assert_eq!(
        validate_audio_window_contract(input(1), &window, 2),
        Err(NativeMasterError::DecodeContract { input: input(1) })
    );
}

#[test]
fn samples_and_times_are_told_apart_exactly() {
    assert_eq!(normalized_sample_endpoint(44_101, 44_100), Some(1_000_022_675));
    assert_eq!(normalized_sample_endpoint(1, 0), None);
    assert_eq!(cadence_sample_at_or_after(1, RATE), Ok(1));
    assert_eq!(cadence_sample_at_or_after(0, RATE), Ok(0));
    assert_eq!(cadence_sample_at_or_after(-1, RATE), Err(NativeMasterError::BoundsExceeded));
    assert_eq!(floor_div_i128(-1, 2), Ok(-1));
    assert_eq!(floor_div_i128(5, 2), Ok(2));
    assert_eq!(floor_div_i128(5, 0), Err(NativeMasterError::BoundsExceeded));
    assert_eq!(nonnegative_mapping_anchors(5, 7), Ok((5, 7)));
    assert_eq!(nonnegative_mapping_anchors(-5, 7), Ok((0, 12)));
    let late = AudioCadenceOrigin { timestamp_ns: 1_000_000_000, sample_index: 48_000 };
    assert_eq!(cadence_sample_at_timestamp(late, 2_000_000_000, RATE), Ok(96_000));
    assert_eq!(cadence_timestamp_at_sample(late, 96_000, RATE), Ok(2_000_000_000));
}

#[test]
fn frames_of_a_fractional_rate_have_the_samples_of_their_place() {
    let (old, new) = (input(1), input(2));
    let mut lane = audio_test_lane(&[old, new]);
    lane.frame_rate = FrameRate { numerator: 30_000, denominator: 1_001 };
    let mut samples = Vec::new();
    for (frame, primary, secondary) in [(0, old, Some(new)), (1, old, Some(new)), (2, new, None)] {
        assert_eq!(service(&mut lane).1, Ok(true));
        samples.push(render(&mut lane, &frame_result(frame, primary, secondary)).unwrap());
    }
    assert_eq!(samples, vec![1_601, 1_602, 1_601]);
}

#[test]
fn a_clip_counts_its_samples_from_the_frame_that_triggers_it() {
    let media = input(3);
    let inputs = [input(1), input(2), media];
    let project = project_with(&inputs, vec![stinger(1, media)]);
    let rate = FrameRate { numerator: 60_000, denominator: 1_001 };
    let mut clip = audio_test_lane(&[media]);
    clip.frame_rate = rate;
    let mut masters = OrderedMap::new();
    masters.insert(media, clip);
    let mut runtime = NativeMasterRuntime {
        lane: audio_test_lane(&inputs),
        stinger_audio: Some(NativeStingerAudioPlayback {
            masters,
            silent_inputs: Vec::new(),
            active_trigger: None,
            ready: None,
        }),
    };
    runtime.lane.frame_rate = rate;
    assert_eq!(service(&mut runtime.lane).1, Ok(true));
    assert_eq!(render(&mut runtime.lane, &frame_result(0, input(1), None)), Ok(800));

    // The second frame of the program is the first of the clip: both have as many samples.
    let (result, plan) = stinger_frame(1, 0);
    assert_eq!(service(&mut runtime.lane).1, Ok(true));
    assert_eq!(runtime.lane.next_frame_sample_span(), Ok((800, 1_601)));
    let Ok(Some(StingerService::Clip { request, restarted: false })) =
        runtime.begin_stinger_service(&result, &project, plan)
    else {
        panic!("expected a clip");
    };
    assert_eq!(request.trigger.cadence_origin_frame, 1);
    let playback = runtime.stinger_audio.as_mut().unwrap();
    let slot = playback.masters.position(media).unwrap();
    let clip = &mut playback.masters.entries[slot].1;
    assert_eq!(clip.next_frame_sample_span(), Ok((0, 801)));
    let covered = service(clip).1.unwrap();
    playback.finish_service(request, covered);
    let Ok(StingerRender::Clip { frame, .. }) =
        runtime.begin_stinger_render(&result, &project, plan)
    else {
        panic!("expected a clip");
    };
    let playback = runtime.stinger_audio.as_mut().unwrap();
    assert_eq!(render(&mut playback.masters.entries[slot].1, &frame), Ok(801));
}

#[test]
fn a_frame_is_covered_where_the_master_and_the_stinger_cover_it() {
    let media = input(3);
    let inputs = [input(1), input(2), media];
    let project = project_with(&inputs, vec![stinger(1, media)]);
    let mut masters = OrderedMap::new();
    masters.insert(media, audio_test_lane(&[media]));
    let mut runtime = NativeMasterRuntime {
        lane: audio_test_lane(&inputs),
        stinger_audio: Some(NativeStingerAudioPlayback {
            masters,
            silent_inputs: Vec::new(),
            active_trigger: None,
            ready: None,
        }),
    };
    assert!(!runtime.finish_project_service(true, None, true));
    assert!(runtime.finish_project_service(true, Some(StingerService::Covered), false));
    assert!(!runtime.finish_project_service(false, Some(StingerService::Covered), false));
    let (result, plan) = stinger_frame(0, 0);
    let begun = runtime.begin_stinger_service(&result, &project, plan).unwrap();
    let Some(StingerService::Clip { request, .. }) = begun else {
        panic!("expected a clip");
    };
    assert!(!runtime.finish_project_service(false, begun, true));
    assert_eq!(runtime.stinger_audio.as_ref().unwrap().ready, Some(request));
    assert!(!runtime.finish_project_service(true, begun, false));
    assert_eq!(runtime.stinger_audio.as_ref().unwrap().ready, None);
}
