use freemix_daemon::audio_limits::{NativeAudioCharge, NativeAudioLimits, NativeMasterError};
use freemix_daemon::audio_master::NativeMasterLane;
use freemix_daemon::audio_opening::{OpeningEvent, OpeningStage, PassedBlocks, ProbedAudio};
use freemix_daemon::audio_preflight::audio_preflight_budget;
use freemix_daemon::audio_setup::AudioPreflight;
use freemix_daemon::audio_source::{
    AudioBlock, ChannelLayout, DecodedAudioWindow, NativeAudioSource,
};
use freemix_daemon::audio_timing::normalized_sample_endpoint;
use freemix_daemon::model::{ClockDomainId, FrameRate, InputId, OutsideFailure};
use freemix_daemon::source::{
    MediaTiming, NativeResolvedSource, OriginalTimestamp, TimeBase, VideoFrame,
};

const MASTER_RATE: u32 = 48_000;
const SOURCE_RATE: u32 = 44_100;
const MONO: ChannelLayout = ChannelLayout { id: 1, channels: 1 };
const CLOCK: ClockDomainId = ClockDomainId(9);
const SOURCE: InputId = InputId(1);
const BROKEN: OutsideFailure = OutsideFailure(5);

/// A file whose audio begins at a sample of its own rate, in blocks of one length.
struct Media {
    first_sample: i64,
    block_samples: usize,
    blocks: usize,
    video_ns: Option<i64>,
    next_block: usize,
}

impl Media {
    fn new(first_sample: i64, block_samples: usize, blocks: usize, video_ns: i64) -> Self {
        Media { first_sample, block_samples, blocks, video_ns: Some(video_ns), next_block: 0 }
    }

    fn block(&self, number: usize) -> AudioBlock {
        let start = self.first_sample + (number * self.block_samples) as i64;
        let end = start + self.block_samples as i64;
        let start_ns = normalized_sample_endpoint(i128::from(start), SOURCE_RATE).unwrap();
        let end_ns = normalized_sample_endpoint(i128::from(end), SOURCE_RATE).unwrap();
        AudioBlock {
            timing: MediaTiming {
                original: OriginalTimestamp {
                    ticks: start,
                    time_base: TimeBase { numerator: 1, denominator: SOURCE_RATE },
                },
                presentation_ns: start_ns,
                duration_ns: u64::try_from(end_ns - start_ns).unwrap(),
                sequence: number as u64,
                clock_domain: CLOCK,
            },
            sample_rate: SOURCE_RATE,
            layout: MONO,
            sample_count: self.block_samples,
            payload: number as u64,
        }
    }

    fn decode(&mut self, count: usize) -> DecodedAudioWindow {
        let end = self.blocks.min(self.next_block + count);
        let blocks = (self.next_block..end).map(|number| self.block(number)).collect();
        self.next_block = end;
        DecodedAudioWindow { blocks, end_of_stream: end == self.blocks }
    }

    fn pass(&mut self, target_ordinal: usize) -> PassedBlocks {
        let from = self.next_block;
        while self.next_block < self.blocks
            && (self.next_block + 1) * self.block_samples <= target_ordinal
        {
            self.next_block += 1;
        }
        PassedBlocks {
            skipped_blocks: self.next_block - from,
            skipped_samples: (self.next_block - from) * self.block_samples,
            next_block: self.next_block,
            end_of_stream: self.next_block == self.blocks,
        }
    }
}

fn setup(expected_next_frame: u64, retain_eos_decoders: bool) -> AudioPreflight {
    setup_within(NativeAudioLimits::default(), expected_next_frame, retain_eos_decoders)
}

fn setup_within(
    limits: NativeAudioLimits,
    expected_next_frame: u64,
    retain_eos_decoders: bool,
) -> AudioPreflight {
    let frame_rate = FrameRate { numerator: 25, denominator: 1 };
    let budget = audio_preflight_budget(
        true,
        Ok(()),
        MASTER_RATE,
        MONO.channels,
        frame_rate,
        1,
        expected_next_frame,
        limits,
        64,
    )
    .unwrap();
    AudioPreflight::new(
        MASTER_RATE,
        MONO,
        frame_rate,
        CLOCK,
        expected_next_frame,
        limits,
        retain_eos_decoders,
        budget,
    )
}

fn file() -> NativeResolvedSource {
    NativeResolvedSource::LocalVideo { input: SOURCE, path: String::from("clip.mov") }
}

fn probed(channels: u32) -> OpeningEvent {
    OpeningEvent::Probed(Ok(ProbedAudio { has_audio: true, selected: Ok(Some(channels)) }))
}

/// Opens the audio of a file to its end and tells whether its decoder is kept.
fn open(setup: &mut AudioPreflight, media: &mut Media) -> Result<bool, NativeMasterError> {
    let mut stage = setup.open_source(&file(), true)?;
    loop {
        let event = match &stage {
            OpeningStage::Probe => probed(1),
            OpeningStage::Audio => OpeningEvent::AudioOpened(Ok(())),
            OpeningStage::FirstBlock { max_samples, page_bytes } => {
                assert_eq!(*max_samples, setup.limits.max_samples_per_page);
                assert_eq!(*page_bytes, 4 * max_samples);
                OpeningEvent::Decoded(Ok(media.decode(1)))
            }
            OpeningStage::FirstFrame { .. } => OpeningEvent::FrameDecoded(Ok(media.video_ns)),
            OpeningStage::Pass { position, max_position_blocks, .. } => {
                assert_eq!(*max_position_blocks, 4_096);
                OpeningEvent::Passed(Ok(media.pass(position.target_ordinal)))
            }
            OpeningStage::Page { max_blocks, .. } => {
                OpeningEvent::Decoded(Ok(media.decode(*max_blocks as usize)))
            }
            OpeningStage::Clocks { .. } => {
                OpeningEvent::ClocksMapped { mapped: true, limited: Ok(()) }
            }
            OpeningStage::Blocks { window, .. } => {
                let samples: usize = window.blocks.iter().map(|block| block.sample_count).sum();
                OpeningEvent::BlocksPushed(Ok(NativeAudioCharge {
                    blocks: window.blocks.len(),
                    samples,
                    bytes: samples * 4,
                }))
            }
            OpeningStage::Mixer { .. } => OpeningEvent::InputAdded(Ok(())),
            OpeningStage::Over { keeps_decoder } => return Ok(*keeps_decoder),
        };
        stage = setup.go_on(SOURCE, stage, event)?;
    }
}

fn source_of(lane: &NativeMasterLane) -> NativeAudioSource {
    *lane.sources.get(SOURCE).unwrap()
}

/// The stage before the first frame of a file, of which 441 samples make a block.
fn before_the_first_frame(setup: &mut AudioPreflight, media: &mut Media) -> OpeningStage {
    let stage = setup.open_source(&file(), true).unwrap();
    let stage = setup.go_on(SOURCE, stage, probed(1)).unwrap();
    let stage = setup.go_on(SOURCE, stage, OpeningEvent::AudioOpened(Ok(()))).unwrap();
    setup.go_on(SOURCE, stage, OpeningEvent::Decoded(Ok(media.decode(1)))).unwrap()
}

#[test]
fn a_restored_source_is_opened_where_the_program_stands() {
    // Both streams begin two seconds in; frame 251 stands at 10.04 seconds.
    let mut setup = setup(251, false);
    let mut media = Media::new(88_200, 1_024, 646, 2_000_000_000);
    assert_eq!(open(&mut setup, &mut media), Ok(true));
    let lane = setup.finish();
    assert_eq!(lane.expected_next_frame, 251);
    // 442764 samples lie before; 432 blocks of them are complete, the first already decoded.
    assert_eq!(lane.audio_telemetry.positioned_blocks, 431);
    assert_eq!(lane.audio_telemetry.positioned_samples, 441_344);
    let source = source_of(&lane);
    assert_eq!(source.restart_target_ordinal, 442_764);
    assert_eq!(source.restart_sequence, 432);
    assert_eq!(source.next_sequence, 448);
    assert!(!source.end_of_stream);
    let synchronizer = source.synchronizer.unwrap();
    assert_eq!(synchronizer.buffered.samples, 16 * 1_024);
    assert!(synchronizer.buffered.samples <= lane.limits.max_samples_per_page);
    assert!(synchronizer.source_origin.timestamp_ns > 10_000_000_000);
    assert_eq!(synchronizer.source_origin.sample_index, 442_368);
    assert_eq!(synchronizer.master_origin.sample_index, 481_920);
    assert_eq!(synchronizer.master_origin.timestamp_ns, 10_040_000_000);
    assert_eq!(lane.audio_telemetry.peak_retained_samples, 16 * 1_024);
}

#[test]
fn early_audio_is_trimmed_and_delayed_audio_waits() {
    // The audio begins 50 ms before its video: 2205 samples are passed over.
    let mut early = setup(0, false);
    let mut media = Media::new(85_995, 441, 300, 2_000_000_000);
    assert_eq!(open(&mut early, &mut media), Ok(true));
    let lane = early.finish();
    let source = source_of(&lane);
    assert_eq!(source.audio_start_master_sample, 0);
    assert_eq!(source.restart_target_ordinal, 2_205);
    assert_eq!(lane.audio_telemetry.positioned_samples, 4 * 441);
    assert_eq!(lane.audio_telemetry.leading_silence_samples, 0);

    // It begins 50 ms after: the Master waits 2400 samples, and nothing is passed over.
    let mut delayed = setup(0, false);
    let mut media = Media::new(90_405, 441, 300, 2_000_000_000);
    assert_eq!(open(&mut delayed, &mut media), Ok(true));
    let lane = delayed.finish();
    let source = source_of(&lane);
    assert_eq!(source.audio_start_master_sample, 2_400);
    assert_eq!(source.restart_target_ordinal, 0);
    assert_eq!(lane.audio_telemetry.positioned_samples, 0);
    assert_eq!(source.synchronizer.unwrap().buffered.blocks, 1);
    assert_eq!(source.synchronizer.unwrap().master_origin.sample_index, 2_400);

    // It begins before zero.
    let mut negative = setup(0, false);
    let mut media = Media::new(-2_205, 441, 300, 0);
    assert_eq!(open(&mut negative, &mut media), Ok(true));
    let source = source_of(&negative.finish());
    assert_eq!(source.timeline_origin.timestamp_ns, -50_000_000);
    assert_eq!(source.timeline_origin.sample_index, 41_895);
}

#[test]
fn sources_without_audio_are_opened_as_silence() {
    // A file without a stream of audio.
    let mut quiet = setup(0, true);
    let stage = quiet.open_source(&file(), true).unwrap();
    let without = OpeningEvent::Probed(Ok(ProbedAudio { has_audio: false, selected: Err(BROKEN) }));
    let stage = quiet.go_on(SOURCE, stage, without).unwrap();
    assert!(matches!(stage, OpeningStage::Mixer { source_layout: None, keeps_decoder: false }));
    let stage = quiet.go_on(SOURCE, stage, OpeningEvent::InputAdded(Ok(()))).unwrap();
    assert!(matches!(stage, OpeningStage::Over { keeps_decoder: false }));
    assert_eq!(source_of(&quiet.finish()), NativeAudioSource::silence());

    // A file whose audio ends before it begins.
    let mut empty = setup(0, true);
    assert_eq!(open(&mut empty, &mut Media::new(0, 441, 0, 0)), Ok(false));
    assert_eq!(source_of(&empty.finish()), NativeAudioSource::silence());

    // A still.
    let mut still = setup(0, true);
    let timing = Media::new(0, 441, 1, 0).block(0).timing;
    let frame = VideoFrame { timing, width: 64, height: 48, payload: 0 };
    let source = NativeResolvedSource::RetainedFrame { input: SOURCE, frame };
    let stage = still.open_source(&source, false).unwrap();
    assert!(matches!(stage, OpeningStage::Mixer { source_layout: None, .. }));
    assert_eq!(source_of(&still.finish()), NativeAudioSource::silence());
}

#[test]
fn a_source_that_ends_before_the_program_keeps_its_place() {
    for retained in [false, true] {
        let mut setup = setup(251, retained);
        let mut media = Media::new(0, 441, 10, 0);
        assert_eq!(open(&mut setup, &mut media), Ok(retained));
        let lane = setup.finish();
        let source = source_of(&lane);
        assert!(source.end_of_stream);
        assert_eq!(source.next_sequence, 10);
        assert_eq!(source.restart_sequence, 10);
        assert_eq!(source.next_sample, 442_764);
        assert_eq!(lane.audio_telemetry.positioned_blocks, 9);
    }
}

#[test]
fn an_opening_fails_where_the_media_does() {
    let fails = NativeMasterError::Ffmpeg { input: SOURCE, error: BROKEN };
    let broken = NativeMasterError::InvalidTimeline { input: SOURCE };
    let contract = NativeMasterError::DecodeContract { input: SOURCE };

    let mut setup = setup(0, false);
    assert_eq!(setup.open_source(&file(), false).unwrap_err(), NativeMasterError::InvalidFormat);

    let mut probe = |event| {
        let stage = setup.open_source(&file(), true).unwrap();
        setup.go_on(SOURCE, stage, event).unwrap_err()
    };
    assert_eq!(probe(OpeningEvent::Probed(Err(BROKEN))), fails);
    assert_eq!(probe(probed(2)), NativeMasterError::InvalidFormat);
    let unselected = ProbedAudio { has_audio: true, selected: Err(BROKEN) };
    assert_eq!(probe(OpeningEvent::Probed(Ok(unselected))), fails);

    let mut first = |event| {
        let stage = setup.open_source(&file(), true).unwrap();
        let stage = setup.go_on(SOURCE, stage, probed(1)).unwrap();
        let stage = setup.go_on(SOURCE, stage, OpeningEvent::AudioOpened(Ok(()))).unwrap();
        setup.go_on(SOURCE, stage, event).unwrap_err()
    };
    assert_eq!(first(OpeningEvent::Decoded(Err(BROKEN))), fails);
    let nothing = DecodedAudioWindow { blocks: Vec::new(), end_of_stream: false };
    assert_eq!(first(OpeningEvent::Decoded(Ok(nothing))), contract);
    let too_many = Media::new(0, 441, 3, 0).decode(2);
    assert_eq!(first(OpeningEvent::Decoded(Ok(too_many))), contract);

    let mut frame = |event| {
        let stage = before_the_first_frame(&mut setup, &mut Media::new(0, 441, 3, 0));
        setup.go_on(SOURCE, stage, event).unwrap_err()
    };
    assert_eq!(frame(OpeningEvent::FrameDecoded(Err(BROKEN))), fails);
    assert_eq!(frame(OpeningEvent::FrameDecoded(Ok(None))), broken);
    // The audio begins more than a minute after its video.
    assert_eq!(
        frame(OpeningEvent::FrameDecoded(Ok(Some(-60_100_000_000)))),
        NativeMasterError::BoundsExceeded
    );

    let mut clocks = |mapped, limited| {
        let stage = before_the_first_frame(&mut setup, &mut Media::new(0, 441, 3, 0));
        let stage = setup.go_on(SOURCE, stage, OpeningEvent::FrameDecoded(Ok(Some(0)))).unwrap();
        setup.go_on(SOURCE, stage, OpeningEvent::ClocksMapped { mapped, limited }).unwrap_err()
    };
    assert_eq!(clocks(false, Ok(())), broken);
    assert_eq!(clocks(true, Err(BROKEN)), NativeMasterError::Synchronizer(BROKEN));

    let lane = setup.finish();
    assert!(lane.sources.get(SOURCE).is_none());
}

#[test]
fn one_opening_leaves_the_other_sources_alone() {
    let mut setup = setup(0, false);
    setup.add_silence(InputId(7));
    assert_eq!(open(&mut setup, &mut Media::new(0, 441, 3, 0)), Ok(true));
    let lane = setup.finish();
    assert_eq!(*lane.sources.get(InputId(7)).unwrap(), NativeAudioSource::silence());
    assert_eq!(source_of(&lane).synchronizer.unwrap().buffered.samples, 441);
}

#[test]
fn an_opening_keeps_to_the_bounds_of_a_page() {
    // Sixteen blocks come after the audio that is trimmed: 7056 samples.
    let early = || Media::new(85_995, 441, 300, 2_000_000_000);
    let exact = NativeAudioLimits { max_samples_per_page: 7_056, ..NativeAudioLimits::default() };
    let mut fits = setup_within(exact, 0, false);
    assert_eq!(open(&mut fits, &mut early()), Ok(true));
    assert_eq!(fits.retained.samples, 7_056);

    let short = NativeAudioLimits { max_samples_per_page: 7_055, ..NativeAudioLimits::default() };
    let mut exceeds = setup_within(short, 0, false);
    assert_eq!(open(&mut exceeds, &mut early()), Err(NativeMasterError::BoundsExceeded));
    assert_eq!(exceeds.retained.samples, 0);
    assert!(exceeds.sources.get(SOURCE).is_none());
}
