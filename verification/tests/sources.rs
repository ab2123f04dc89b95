use freemix_daemon::model::{ClockDomainId, InputId, OutsideFailure};
use freemix_daemon::ordered::OrderedMap;
use freemix_daemon::playback_cycle::{PlaybackEvent, PlaybackService, PlaybackStage};
use freemix_daemon::render::{
    clip_interval_end, registered_source, registry_frame, registry_stinger_frame,
    stinger_frame_deadline,
    NativeSourceRenderError,
};
use freemix_daemon::source::{
    floor_anchor_eviction_count, frame_index_at_deadline, rebased_offsets, refill_page_size,
    rgba16f_frame_bytes, source_covers_deadline, source_eviction_count,
    validate_live_seed_timing, validate_live_update_timing, validate_resolved_sources,
    validate_retained_frame_timing, validate_source_layouts, validate_timing_values, MediaTiming,
    NativeResolvedSource, NativeSourceError, NativeSourceLimits, NativeSourcePreflightError,
    OriginalTimestamp, TimeBase, VideoFrame,
};
use freemix_daemon::source_opening::{
    begin_preflight, continue_preflight, PreflightEvent, PreflightStage, SourceSetting,
};
use freemix_daemon::source_playback::{
    NativeDecodeResult, NativeSourcePlayback, NativeSourcePlaybackError,
};
use freemix_daemon::source_registry::{
    admit_sources, preflight_live_frame, preflight_local_video, preflight_retained_frame,
    DecodedVideoWindow, NativeDecodeOperation, NativeDecodeRequest, NativeSourceRegistry,
    NativeVideoPrefix, NativeVideoSourceKind, PreflightSource, WorkingFrame,
};

fn input(value: u128) -> InputId {
    InputId(value)
}

fn retained_frame(
    clock_domain: ClockDomainId,
    sequence: u64,
    presentation_timestamp: i64,
) -> VideoFrame {
    VideoFrame {
        timing: MediaTiming {
            original: OriginalTimestamp {
                ticks: presentation_timestamp,
                time_base: TimeBase { numerator: 1, denominator: 1_000_000_000 },
            },
            presentation_ns: presentation_timestamp,
            duration_ns: 1,
            sequence,
            clock_domain,
        },
        width: 1,
        height: 1,
        payload: 0,
    }
}

fn working(frame: &VideoFrame, texture: u64) -> WorkingFrame {
    WorkingFrame { timing: frame.timing, width: frame.width, height: frame.height, texture }
}

#[test]
fn resolved_source_accessors_preserve_full_width_ids() {
    let local_input = input(1);
    let retained_input = input((1_u128 << 96) + 1);
    let live_input = input((1_u128 << 112) + 1);
    let clock_domain = ClockDomainId(7);
    let local = NativeResolvedSource::LocalVideo {
        input: local_input,
        path: String::from("video.mov"),
    };
    let retained = NativeResolvedSource::RetainedFrame {
        input: retained_input,
        frame: retained_frame(clock_domain, 0, -42),
    };
    let live = NativeResolvedSource::LiveFrame {
        input: live_input,
        frame: retained_frame(clock_domain, 41, -21),
    };

    assert_eq!(local.input(), local_input);
    assert_eq!(retained.input(), retained_input);
    assert_eq!(live.input(), live_input);
    assert!(matches!(local, NativeResolvedSource::LocalVideo { .. }));
    assert!(matches!(retained, NativeResolvedSource::RetainedFrame { .. }));
    assert!(matches!(live, NativeResolvedSource::LiveFrame { .. }));
}

#[test]
fn mixed_source_validation_precedes_adapter_use() {
    let duplicate = input((1_u128 << 80) + 3);
    let clock_domain = ClockDomainId(7);
    let sources = vec![
        NativeResolvedSource::LocalVideo { input: duplicate, path: String::from("video.mov") },
        NativeResolvedSource::RetainedFrame {
            input: duplicate,
            frame: retained_frame(clock_domain, 0, 0),
        },
    ];
    assert!(matches!(
        validate_resolved_sources(&sources, false, 2),
        Err(NativeSourcePreflightError::Source(NativeSourceError::DuplicateSource(input)))
            if input == duplicate
    ));

    let local = input(4);
    let sources =
        [NativeResolvedSource::LocalVideo { input: local, path: String::from("video.mov") }];
    assert!(matches!(
        validate_resolved_sources(&sources, false, 1),
        Err(NativeSourcePreflightError::CodecAdapterRequired { input }) if input == local
    ));
    assert!(validate_resolved_sources(&sources, true, 1).is_ok());

    let retained = [NativeResolvedSource::RetainedFrame {
        input: local,
        frame: retained_frame(clock_domain, 0, 0),
    }];
    assert!(validate_resolved_sources(&retained, false, 1).is_ok());
    let live = [NativeResolvedSource::LiveFrame {
        input: local,
        frame: retained_frame(clock_domain, 9, 10),
    }];
    assert!(validate_resolved_sources(&live, false, 1).is_ok());
}

#[test]
fn retained_frame_timing_rebases_pts_and_requires_domain_and_sequence_zero() {
    let source = input(1);
    let clock_domain = ClockDomainId(7);
    let other_domain = ClockDomainId(8);
    let frame = retained_frame(clock_domain, 0, -42);
    assert_eq!(
        validate_retained_frame_timing(source, &frame, clock_domain),
        Ok((vec![0], -42, 0))
    );
    assert_eq!(
        validate_retained_frame_timing(
            source,
            &retained_frame(clock_domain, 1, 42),
            clock_domain
        ),
        Err(NativeSourceError::InvalidTimeline { input: source })
    );
    assert_eq!(
        validate_retained_frame_timing(
            source,
            &retained_frame(other_domain, 0, 42),
            clock_domain
        ),
        Err(NativeSourceError::InvalidTimeline { input: source })
    );
}

#[test]
fn live_timing_preserves_source_clock_and_accepts_sequence_gaps() {
    let source = input(1);
    let clock_domain = ClockDomainId(7);
    let other_domain = ClockDomainId(8);
    let seed = retained_frame(clock_domain, 40, -42);
    assert_eq!(
        validate_live_seed_timing(source, &seed),
        Ok((vec![0], -42, 40, clock_domain))
    );
    assert_eq!(
        validate_live_update_timing(
            source,
            &retained_frame(clock_domain, 44, 10),
            -42,
            40,
            clock_domain,
        ),
        Ok(())
    );
    for frame in [
        retained_frame(clock_domain, 40, 10),
        retained_frame(clock_domain, 44, -42),
        retained_frame(other_domain, 44, 10),
    ] {
        assert_eq!(
            validate_live_update_timing(source, &frame, -42, 40, clock_domain),
            Err(NativeSourceError::InvalidTimeline { input: source })
        );
    }
}

#[test]
fn source_validation_preserves_full_width_ids_and_charges_exact_bytes() {
    let low = input(1);
    let high = input((1_u128 << 64) + 1);
    let sources = [(low, 2, 3, 1), (high, 2, 3, 2)];
    let limits = NativeSourceLimits {
        max_media_inputs: 2,
        max_video_frames_per_source: 2,
        max_retained_rgba16f_bytes: 144,
    };

    assert_eq!(validate_source_layouts(&sources, limits), Ok((Some((2, 3)), 144)));
    let mut ids = OrderedMap::new();
    for (id, _, _, _) in sources {
        ids.insert(id, true);
    }
    assert_eq!(ids.entries.len(), 2);
    assert!(registered_source(&ids, low).is_ok());
    assert!(registered_source(&ids, high).is_ok());
}

#[test]
fn source_validation_rejects_count_duplicates_budget_and_dimensions() {
    let first = input(1);
    let second = input(2);
    let limits = NativeSourceLimits {
        max_media_inputs: 2,
        max_video_frames_per_source: 1,
        max_retained_rgba16f_bytes: 64,
    };

    assert_eq!(
        validate_source_layouts(
            &[(first, 2, 2, 1), (second, 2, 2, 1), (input(3), 2, 2, 1)],
            limits
        ),
        Err(NativeSourceError::TooManySources { actual: 3, maximum: 2 })
    );
    assert_eq!(
        validate_source_layouts(&[(first, 2, 2, 1), (first, 2, 2, 1)], limits),
        Err(NativeSourceError::DuplicateSource(first))
    );
    assert_eq!(
        validate_source_layouts(&[(first, 2, 2, 0)], limits),
        Err(NativeSourceError::InvalidTimeline { input: first })
    );
    assert_eq!(
        validate_source_layouts(&[(first, 2, 2, 2)], limits),
        Err(NativeSourceError::TooManyFrames { input: first, actual: 2, maximum: 1 })
    );
    assert_eq!(
        validate_source_layouts(&[(first, 3, 2, 1), (second, 3, 2, 1)], limits),
        Err(NativeSourceError::RetainedBytesExceeded { required: 96, maximum: 64 })
    );
    assert_eq!(
        validate_source_layouts(&[(first, 2, 2, 1), (second, 3, 2, 1)], limits),
        Err(NativeSourceError::DimensionMismatch {
            input: second,
            expected_width: 2,
            expected_height: 2,
            actual_width: 3,
            actual_height: 2
        })
    );
}

#[test]
fn source_validation_reports_checked_frame_charge_overflow() {
    let source = input(1);
    assert_eq!(
        validate_source_layouts(
            &[(source, u32::MAX, u32::MAX, 1)],
            NativeSourceLimits {
                max_media_inputs: 1,
                max_video_frames_per_source: 1,
                max_retained_rgba16f_bytes: u64::MAX,
            }
        ),
        Err(NativeSourceError::FrameByteSizeOverflow {
            input: source,
            width: u32::MAX,
            height: u32::MAX
        })
    );
    assert_eq!(rgba16f_frame_bytes(source, 3, 2), Ok(48));
}

#[test]
fn missing_source_lookup_is_typed_and_uses_full_width_id() {
    let missing = input((1_u128 << 64) + 1);
    let sources = OrderedMap::<InputId, bool>::new();
    assert!(matches!(
        registered_source(&sources, missing),
        Err(NativeSourceRenderError::MissingSource { input }) if input == missing
    ));
}

#[test]
fn prefix_selection_rebases_vfr_pts_and_holds_boundaries_and_end() {
    let source = input(1);
    let offsets = rebased_offsets(source, &[-20_000_000, 20_000_000, 100_000_000]).unwrap();
    assert_eq!(offsets, [0, 40_000_000, 120_000_000]);
    for (deadline, expected) in [
        (0, 0),
        (39_999_999, 0),
        (40_000_000, 1),
        (119_999_999, 1),
        (120_000_000, 2),
        (u64::MAX, 2),
    ] {
        assert_eq!(frame_index_at_deadline(&offsets, deadline), Some(expected));
    }
    assert_eq!(frame_index_at_deadline(&[], 0), None);
    assert_eq!(
        rebased_offsets(source, &[0, 0]),
        Err(NativeSourceError::InvalidTimeline { input: source })
    );
    assert_eq!(rebased_offsets(source, &[i64::MIN, i64::MAX]), Ok(vec![0, u64::MAX]));
}

fn source_playback_for_pin_test(
    kind: NativeVideoSourceKind,
    end_of_stream: bool,
) -> NativeSourcePlayback {
    let mut sources = OrderedMap::new();
    sources.insert(
        input(1),
        NativeVideoPrefix {
            frames: Vec::new(),
            offsets_ns: Vec::new(),
            source_pts_origin: 0,
            last_source_pts: 0,
            last_sequence: 0,
            clock_domain: ClockDomainId(1),
            kind,
            end_of_stream,
            in_flight: None,
            available_for_stinger: false,
            pinned_for_stinger: false,
        },
    );
    NativeSourcePlayback {
        registry: NativeSourceRegistry {
            sources,
            dimensions: None,
            retained_rgba16f_bytes: 0,
            limits: NativeSourceLimits::default(),
        },
        failed: false,
    }
}

#[test]
fn stinger_pin_requires_bounded_eos_and_rejects_live_sources() {
    let source = input(1);
    let mut complete = source_playback_for_pin_test(NativeVideoSourceKind::Decoded, true);
    complete.pin_stinger_source(source).unwrap();
    assert!(complete.registry.sources.get(source).unwrap().pinned_for_stinger);

    let mut incomplete = source_playback_for_pin_test(NativeVideoSourceKind::Decoded, false);
    assert!(matches!(
        incomplete.pin_stinger_source(source),
        Err(NativeSourcePlaybackError::StingerSourceNotFullyPreloaded {
            input,
            retained_frames: 0,
            maximum_frames: 8,
        }) if input == source
    ));
    assert!(!incomplete.registry.sources.get(source).unwrap().pinned_for_stinger);

    let mut live = source_playback_for_pin_test(NativeVideoSourceKind::Live, false);
    assert!(matches!(
        live.pin_stinger_source(source),
        Err(NativeSourcePlaybackError::StingerSourceIsLive { input }) if input == source
    ));
}

#[test]
fn clip_local_stinger_cadence_restarts_and_pinned_frames_never_evict() {
    let frame_ns = 40_000_000;
    let offsets = [0, 40_000_000, 80_000_000];
    for (frame, expected_deadline, expected_source_frame) in [
        (0, 39_999_999, 0),
        (1, 79_999_999, 1),
        (2, 119_999_999, 2),
        (3, 159_999_999, 2),
    ] {
        // The clock begins a frame of 25 in a second every 40 milliseconds.
        let asked = clip_interval_end(frame);
        let deadline = stinger_frame_deadline(Some(asked * frame_ns)).unwrap();
        assert_eq!(deadline, expected_deadline);
        assert_eq!(frame_index_at_deadline(&offsets, deadline), Some(expected_source_frame));
    }
    assert_eq!(source_eviction_count(&offsets, true, u64::MAX), 0);
    assert_eq!(source_eviction_count(&offsets, false, u64::MAX), 2);
    assert_eq!(stinger_frame_deadline(None), Err(NativeSourceRenderError::ResourceBounds));
    assert_eq!(stinger_frame_deadline(Some(0)), Err(NativeSourceRenderError::ResourceBounds));
}

#[test]
fn eviction_retains_floor_anchor_and_every_future_frame() {
    let offsets = [0, 40, 125, 210];
    assert_eq!(floor_anchor_eviction_count(&offsets, 0), 0);
    assert_eq!(floor_anchor_eviction_count(&offsets, 124), 1);
    assert_eq!(floor_anchor_eviction_count(&offsets, 125), 2);
    assert_eq!(floor_anchor_eviction_count(&offsets, u64::MAX), 3);
}

#[test]
fn coverage_requires_latest_pts_until_eos() {
    assert!(!source_covers_deadline(None, false, 0));
    assert!(source_covers_deadline(Some(100), false, 100));
    assert!(!source_covers_deadline(Some(100), false, 101));
    assert!(source_covers_deadline(Some(100), true, u64::MAX));
}

#[test]
fn refill_state_obeys_watermark_ring_budget_and_single_flight() {
    assert_eq!(refill_page_size(4, false, false, 8, u64::MAX), Some(4));
    assert_eq!(refill_page_size(3, false, false, 5, u64::MAX), Some(2));
    assert_eq!(refill_page_size(1, false, false, 8, 1), Some(1));
    assert_eq!(refill_page_size(5, false, false, 8, 8), None);
    assert_eq!(refill_page_size(1, true, false, 8, 8), None);
    assert_eq!(refill_page_size(1, false, true, 8, 8), None);
    assert_eq!(refill_page_size(1, false, false, 8, 0), None);
}

#[test]
fn retained_eos_uses_an_idle_worker_and_never_schedules_refill() {
    assert_eq!(refill_page_size(1, false, true, 8, u64::MAX), None);
}

#[test]
fn vfr_page_seams_preserve_origin_pts_and_global_sequence() {
    let source = input(1);
    let first =
        validate_timing_values(source, &[-20, 20, 100], &[0, 1, 2], -20, None, 0).unwrap();
    assert_eq!(first, (vec![0, 40, 120], 100, 2));
    let second =
        validate_timing_values(source, &[175, 260], &[3, 4], -20, Some(100), 3).unwrap();
    assert_eq!(second, (vec![195, 280], 260, 4));

    assert_eq!(
        validate_timing_values(source, &[100], &[3], -20, Some(100), 3),
        Err(NativeSourceError::InvalidTimeline { input: source })
    );
    assert_eq!(
        validate_timing_values(source, &[175], &[4], -20, Some(100), 3),
        Err(NativeSourceError::InvalidTimeline { input: source })
    );
}

fn ready_video(id: u128, frames: u64, end_of_stream: bool, limits: NativeSourceLimits) -> PreflightSource {
    let window = DecodedVideoWindow {
        frames: (0..frames)
            .map(|index| retained_frame(ClockDomainId(7), index, index as i64 * 40))
            .collect(),
        end_of_stream,
    };
    preflight_local_video(input(id), Ok(window), ClockDomainId(7), limits).unwrap()
}

fn registry_of(ready: Vec<PreflightSource>, limits: NativeSourceLimits) -> NativeSourceRegistry {
    let admission = admit_sources(&ready, limits).unwrap();
    let uploads = ready
        .iter()
        .map(|source| {
            source
                .frames
                .iter()
                .map(|frame| working(frame, 100 + frame.timing.sequence))
                .collect()
        })
        .collect();
    NativeSourceRegistry::from_preflight(ready, uploads, admission, limits)
}

#[test]
fn a_decoder_hands_over_as_much_as_it_was_asked_for() {
    let limits =
        NativeSourceLimits { max_video_frames_per_source: 3, ..NativeSourceLimits::default() };
    let source = input(1);
    let short = DecodedVideoWindow {
        frames: vec![retained_frame(ClockDomainId(7), 0, 0)],
        end_of_stream: false,
    };
    assert!(matches!(
        preflight_local_video(source, Ok(short), ClockDomainId(7), limits),
        Err(NativeSourcePreflightError::DecodeContract { video_frames: 1, audio_blocks: 0, .. })
    ));
    assert!(matches!(
        preflight_local_video(source, Err(OutsideFailure(4)), ClockDomainId(7), limits),
        Err(NativeSourcePreflightError::Decode { error: OutsideFailure(4), .. })
    ));
    let ready = ready_video(1, 3, false, limits);
    assert_eq!(ready.offsets_ns, vec![0, 40, 80]);
    assert_eq!(ready.last_source_pts, 80);
    assert_eq!(ready.last_sequence, 2);
    assert!(!ready.end_of_stream);
}

#[test]
fn registries_show_frames_by_deadline_and_name_what_is_missing() {
    let limits = NativeSourceLimits::default();
    let retained = preflight_retained_frame(
        input(2),
        retained_frame(ClockDomainId(7), 0, -5),
        ClockDomainId(7),
    )
    .unwrap();
    let live =
        preflight_live_frame(input(3), retained_frame(ClockDomainId(9), 40, -5)).unwrap();
    let registry = registry_of(vec![ready_video(1, 8, false, limits), retained, live], limits);
    assert_eq!(registry.len(), 3);
    assert!(!registry.is_empty());
    assert_eq!(registry.dimensions(), Some((1, 1)));
    assert_eq!(registry.retained_rgba16f_bytes(), 10 * 8);
    assert_eq!(registry.inputs(), vec![input(1), input(2), input(3)]);
    assert!(registry.contains(input(2)));
    assert!(!registry.contains(input(4)));
    assert_eq!(registry_frame(&registry, input(1), 79).unwrap().texture, 101);
    assert_eq!(registry_frame(&registry, input(1), 80).unwrap().texture, 102);
    assert_eq!(registry_frame(&registry, input(2), u64::MAX).unwrap().texture, 100);
    assert_eq!(
        registry_frame(&registry, input(4), 0),
        Err(NativeSourceRenderError::MissingSource { input: input(4) })
    );
    assert_eq!(
        registry_stinger_frame(&registry, input(1), Some(40)),
        Err(NativeSourceRenderError::StingerSourceNotPreloaded { input: input(1) })
    );
    assert_eq!(registry.timing_at_deadline(input(1), 40).unwrap().sequence, 1);
    assert!(registry.timing_at_deadline(input(4), 40).is_none());
}

#[test]
fn service_evicts_asks_for_more_and_takes_the_answer() {
    let limits = NativeSourceLimits::default();
    let mut playback = NativeSourcePlayback::new(registry_of(vec![ready_video(1, 8, false, limits)], limits));

    // At the fifth frame the four before it are let go, and a page is asked for.
    let (requests, covered) = playback.service(160, None).unwrap();
    assert!(covered);
    let request = NativeDecodeRequest {
        input: input(1),
        count: 4,
        operation: NativeDecodeOperation::Continue,
    };
    assert_eq!(requests, vec![request]);
    assert_eq!(playback.registry().sources.get(input(1)).unwrap().frames.len(), 4);

    // While the page is on its way nothing else is asked for.
    let (requests, _) = playback.service(160, None).unwrap();
    assert!(requests.is_empty());

    let frames: Vec<VideoFrame> = (8..12)
        .map(|index| retained_frame(ClockDomainId(7), index, index as i64 * 40))
        .collect();
    let uploads = frames.iter().map(|frame| working(frame, 100 + frame.timing.sequence)).collect();
    let result = NativeDecodeResult {
        request,
        window: Ok(DecodedVideoWindow { frames, end_of_stream: true }),
    };
    playback.receive_page(&result, Ok(uploads)).unwrap();
    let ring = playback.registry().sources.get(input(1)).unwrap();
    assert_eq!(ring.frames.len(), 8);
    assert!(ring.end_of_stream && ring.in_flight.is_none());
    assert_eq!(ring.last_sequence, 11);
    assert_eq!(playback.registry().retained_rgba16f_bytes(), 8 * 8);
    let (requests, covered) = playback.service(u64::MAX, None).unwrap();
    assert!(covered && requests.is_empty());
}

#[test]
fn an_answer_nobody_asked_for_ends_playback() {
    let limits = NativeSourceLimits::default();
    let mut playback = NativeSourcePlayback::new(registry_of(vec![ready_video(1, 8, false, limits)], limits));
    let request = NativeDecodeRequest {
        input: input(1),
        count: 4,
        operation: NativeDecodeOperation::Continue,
    };
    let result = NativeDecodeResult {
        request,
        window: Ok(DecodedVideoWindow { frames: Vec::new(), end_of_stream: true }),
    };
    assert_eq!(
        playback.receive_page(&result, Ok(Vec::new())),
        Err(NativeSourcePlaybackError::DecodeContract { input: input(1) })
    );
    assert_eq!(playback.service(0, None).err(), Some(NativeSourcePlaybackError::Failed));
    assert_eq!(playback.begin_service(None), Err(NativeSourcePlaybackError::Failed));
}

#[test]
fn only_sources_made_ready_for_stingers_are_served_alone() {
    let limits = NativeSourceLimits::default();
    let mut playback = NativeSourcePlayback::new(registry_of(vec![ready_video(1, 3, true, limits)], limits));
    assert_eq!(
        playback.begin_service(Some(input(1))),
        Err(NativeSourcePlaybackError::MissingSource { input: input(1) })
    );
    playback.enable_stinger_source(input(1)).unwrap();
    assert_eq!(playback.begin_service(Some(input(1))), Ok(()));
    playback.pin_stinger_source(input(1)).unwrap();
    assert_eq!(
        registry_stinger_frame(playback.registry(), input(1), Some(81)).unwrap().texture,
        102
    );
    let (requests, covered) = playback.service(u64::MAX, Some(input(1))).unwrap();
    assert!(requests.is_empty() && covered);
    assert_eq!(playback.registry().sources.get(input(1)).unwrap().frames.len(), 3);
}

#[test]
fn live_frames_replace_one_another() {
    let limits = NativeSourceLimits::default();
    let live = preflight_live_frame(input(3), retained_frame(ClockDomainId(9), 40, -5)).unwrap();
    let mut playback = NativeSourcePlayback::new(registry_of(vec![live], limits));
    let newer = retained_frame(ClockDomainId(9), 44, 10);
    playback.receive_live_frame(input(3), &newer, Ok(working(&newer, 7))).unwrap();
    assert_eq!(registry_frame(playback.registry(), input(3), 0).unwrap().texture, 7);
    let older = retained_frame(ClockDomainId(9), 44, 20);
    assert_eq!(
        playback.receive_live_frame(input(3), &older, Ok(working(&older, 8))),
        Err(NativeSourcePlaybackError::Source(NativeSourceError::InvalidTimeline {
            input: input(3)
        }))
    );
}

#[test]
fn a_live_source_covers_a_deadline_once_a_frame_reaches_it() {
    let limits = NativeSourceLimits::default();
    let live = preflight_live_frame(input(3), retained_frame(ClockDomainId(9), 40, -5)).unwrap();
    let video = ready_video(1, 8, true, limits);
    let mut playback = NativeSourcePlayback::new(registry_of(vec![video, live], limits));
    assert!(playback.service(0, None).unwrap().1);
    // Holding a last frame is not enough.
    assert!(!playback.service(1, None).unwrap().1);
    let newer = retained_frame(ClockDomainId(9), 44, 10);
    playback.receive_live_frame(input(3), &newer, Ok(working(&newer, 7))).unwrap();
    assert_eq!(playback.registry().sources.get(input(3)).unwrap().offsets_ns, vec![15]);
    assert!(playback.service(1, None).unwrap().1);
    assert!(playback.service(15, None).unwrap().1);
    assert!(!playback.service(16, None).unwrap().1);
    assert_eq!(registry_frame(playback.registry(), input(3), 16).unwrap().texture, 7);

    let service = PlaybackService { deadline_ns: 16, only: None };
    let stage = playback.start_service(service).unwrap();
    let stage =
        playback.serve(service, stage, PlaybackEvent::Answered(Ok(Vec::new()))).unwrap();
    assert!(matches!(stage, PlaybackStage::Over { covered: false, .. }));
}

#[test]
fn requests_that_were_not_sent_leave_their_rings_free() {
    let limits = NativeSourceLimits::default();
    let rings = vec![ready_video(1, 8, false, limits), ready_video(2, 8, false, limits)];
    let mut playback = NativeSourcePlayback::new(registry_of(rings, limits));
    let (requests, covered) = playback.service(160, None).unwrap();
    assert!(covered);
    assert_eq!(requests.len(), 2);
    assert!(playback.registry().sources.get(input(2)).unwrap().in_flight.is_some());

    playback.take_back(&requests, 1);
    assert!(playback.failed);
    let rings = &playback.registry().sources;
    assert_eq!(rings.get(input(1)).unwrap().in_flight, Some(requests[0]));
    assert_eq!(rings.get(input(2)).unwrap().in_flight, None);
    assert_eq!(rings.get(input(2)).unwrap().frames.len(), 4);
    assert_eq!(playback.service(160, None).err(), Some(NativeSourcePlaybackError::Failed));
}

#[test]
fn a_service_uploads_one_answer_after_the_other() {
    let limits = NativeSourceLimits::default();
    let rings = vec![ready_video(1, 8, false, limits), ready_video(2, 8, false, limits)];
    let mut playback = NativeSourcePlayback::new(registry_of(rings, limits));
    let service = PlaybackService { deadline_ns: 160, only: None };

    let stage = playback.start_service(service).unwrap();
    let stage =
        playback.serve(service, stage, PlaybackEvent::Answered(Ok(Vec::new()))).unwrap();
    let PlaybackStage::Over { requests, covered: true } = stage else { panic!("not covered") };
    assert_eq!(requests.len(), 2);

    // The first source has come to its end, the second brings a page.
    let frames: Vec<VideoFrame> = (8..12)
        .map(|index| retained_frame(ClockDomainId(7), index, index as i64 * 40))
        .collect();
    let uploads: Vec<_> = frames.iter().map(|frame| working(frame, 7)).collect();
    let ended = NativeDecodeResult {
        request: requests[0],
        window: Ok(DecodedVideoWindow { frames: Vec::new(), end_of_stream: true }),
    };
    let page = NativeDecodeResult {
        request: requests[1],
        window: Ok(DecodedVideoWindow { frames, end_of_stream: false }),
    };
    let stage = playback.start_service(service).unwrap();
    let answers = PlaybackEvent::Answered(Ok(vec![ended, page]));
    let stage = playback.serve(service, stage, answers).unwrap();
    assert!(matches!(stage, PlaybackStage::Upload { place: 1, .. }));
    assert!(playback.registry().sources.get(input(1)).unwrap().end_of_stream);
    let stage = playback.serve(service, stage, PlaybackEvent::Uploaded(Ok(uploads))).unwrap();
    let PlaybackStage::Over { requests, covered: true } = stage else { panic!("not covered") };
    assert!(requests.is_empty());
    assert_eq!(playback.registry().sources.get(input(2)).unwrap().frames.len(), 8);
    assert_eq!(registry_frame(playback.registry(), input(2), 440).unwrap().texture, 7);
}

#[test]
fn a_service_that_fails_is_the_last() {
    let limits = NativeSourceLimits::default();
    let service = PlaybackService { deadline_ns: 160, only: None };
    let gone = NativeSourcePlaybackError::WorkerDisconnected;
    let mut playback =
        NativeSourcePlayback::new(registry_of(vec![ready_video(1, 8, false, limits)], limits));
    let stage = playback.start_service(service).unwrap();
    let failed = playback.serve(service, stage, PlaybackEvent::Answered(Err(gone)));
    assert_eq!(failed.err(), Some(gone));
    assert_eq!(playback.start_service(service).err(), Some(NativeSourcePlaybackError::Failed));

    let mut playback =
        NativeSourcePlayback::new(registry_of(vec![ready_video(1, 8, false, limits)], limits));
    let (requests, _) = playback.service(160, None).unwrap();
    let frames: Vec<VideoFrame> = (8..12)
        .map(|index| retained_frame(ClockDomainId(7), index, index as i64 * 40))
        .collect();
    let page = NativeDecodeResult {
        request: requests[0],
        window: Ok(DecodedVideoWindow { frames, end_of_stream: false }),
    };
    let stage = playback.start_service(service).unwrap();
    let stage =
        playback.serve(service, stage, PlaybackEvent::Answered(Ok(vec![page]))).unwrap();
    let lost = PlaybackEvent::Uploaded(Err(OutsideFailure(3)));
    assert_eq!(
        playback.serve(service, stage, lost).err(),
        Some(NativeSourcePlaybackError::Normalize {
            input: input(1),
            error: OutsideFailure(3)
        })
    );
    assert!(playback.failed);
    assert_eq!(playback.registry().sources.get(input(1)).unwrap().frames.len(), 4);
}

#[test]
fn a_decode_that_fails_is_told() {
    let limits = NativeSourceLimits::default();
    let mut playback =
        NativeSourcePlayback::new(registry_of(vec![ready_video(1, 8, false, limits)], limits));
    let (requests, _) = playback.service(160, None).unwrap();
    let failed = NativeDecodeResult { request: requests[0], window: Err(OutsideFailure(5)) };
    assert_eq!(
        playback.receive_page(&failed, Ok(Vec::new())),
        Err(NativeSourcePlaybackError::Decode { input: input(1), error: OutsideFailure(5) })
    );
    assert!(playback.failed);
    assert_eq!(playback.registry().sources.get(input(1)).unwrap().frames.len(), 4);
}

fn resolved_sources() -> Vec<NativeResolvedSource> {
    vec![
        NativeResolvedSource::LiveFrame {
            input: input(4),
            frame: retained_frame(ClockDomainId(9), 40, -5),
        },
        NativeResolvedSource::LocalVideo { input: input(2), path: "clip.mov".to_owned() },
        NativeResolvedSource::RetainedFrame {
            input: input(3),
            frame: retained_frame(ClockDomainId(7), 0, 11),
        },
        NativeResolvedSource::LocalVideo { input: input(1), path: "other.mov".to_owned() },
    ]
}

fn decoded(frames: u64, end_of_stream: bool) -> PreflightEvent {
    PreflightEvent::Decoded(Ok(DecodedVideoWindow {
        frames: (0..frames)
            .map(|index| retained_frame(ClockDomainId(7), index, index as i64 * 40))
            .collect(),
        end_of_stream,
    }))
}

#[test]
fn sources_are_all_checked_before_any_is_uploaded() {
    let sources = resolved_sources();
    let setting = SourceSetting {
        sources: &sources,
        has_adapter: true,
        clock_domain: ClockDomainId(7),
        limits: NativeSourceLimits::default(),
    };
    let mut stage = begin_preflight(&setting).ok().unwrap();
    for (place, frames) in [(1, 8), (3, 2)] {
        let PreflightStage::Decode { ref ready } = stage else { panic!("expected a decode") };
        assert_eq!(ready.len(), place);
        stage = continue_preflight(&setting, stage, decoded(frames, frames < 8)).ok().unwrap();
    }
    let mut order = Vec::new();
    while let PreflightStage::Upload { ref ready, ref uploads, .. } = stage {
        assert_eq!(ready.len(), sources.len());
        let source = &ready[uploads.len()];
        order.push(source.input);
        let frames = source.frames.iter().map(|frame| working(frame, 100)).collect();
        stage = continue_preflight(&setting, stage, PreflightEvent::Uploaded(Ok(frames)))
            .ok()
            .unwrap();
    }
    assert_eq!(order, vec![input(4), input(2), input(3), input(1)]);
    assert!(matches!(stage, PreflightStage::Start { .. }));
    let stage = continue_preflight(&setting, stage, PreflightEvent::Started(Ok(()))).ok().unwrap();
    let PreflightStage::Over { playback } = stage else { panic!("expected the end") };
    let rings: Vec<_> = playback
        .registry()
        .sources
        .entries
        .iter()
        .map(|(id, ring)| (*id, ring.frames.len(), ring.kind, ring.end_of_stream))
        .collect();
    assert_eq!(
        rings,
        vec![
            (input(1), 2, NativeVideoSourceKind::Decoded, true),
            (input(2), 8, NativeVideoSourceKind::Decoded, false),
            (input(3), 1, NativeVideoSourceKind::Retained, true),
            (input(4), 1, NativeVideoSourceKind::Live, false),
        ]
    );
}

#[test]
fn opening_stops_at_the_first_failure() {
    let sources = resolved_sources();
    let setting = |has_adapter: bool, limits: NativeSourceLimits| SourceSetting {
        sources: &sources,
        has_adapter,
        clock_domain: ClockDomainId(7),
        limits,
    };
    let limits = NativeSourceLimits::default();
    assert_eq!(
        begin_preflight(&setting(false, limits)).err(),
        Some(NativeSourcePreflightError::CodecAdapterRequired { input: input(2) })
    );
    let few = NativeSourceLimits { max_media_inputs: 3, ..limits };
    assert_eq!(
        begin_preflight(&setting(true, few)).err(),
        Some(NativeSourcePreflightError::Source(NativeSourceError::TooManySources {
            actual: 4,
            maximum: 3
        }))
    );
    let opened = setting(true, limits);
    let stage = begin_preflight(&opened).ok().unwrap();
    let lost = PreflightEvent::Decoded(Err(OutsideFailure(6)));
    assert_eq!(
        continue_preflight(&opened, stage, lost).err(),
        Some(NativeSourcePreflightError::Decode { input: input(2), error: OutsideFailure(6) })
    );

    let mut stage = begin_preflight(&opened).ok().unwrap();
    for _ in 0..2 {
        stage = continue_preflight(&opened, stage, decoded(1, true)).ok().unwrap();
    }
    let lost = PreflightEvent::Uploaded(Err(OutsideFailure(8)));
    assert_eq!(
        continue_preflight(&opened, stage, lost).err(),
        Some(NativeSourcePreflightError::Normalize { input: input(4), error: OutsideFailure(8) })
    );
}
