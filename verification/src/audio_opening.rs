//! The order of the steps by which one source is opened for a lane that is being set up.
//!
//! Between two steps the adapter, the decoders, the synchronizer and the mixer do their part.
//! Each stage says what is waited for, and each event brings what came of it. Where a step
//! fails, the lane is not set up at all.
use vstd::prelude::*;

use crate::audio_limits;
use crate::audio_limits::{audio_sample_bytes, NativeAudioCharge, NativeMasterError};
use crate::audio_preflight;
use crate::audio_preflight::{
    audio_position, check_stream_channels, plan_synchronizer, AudioPosition, SynchronizerPlan,
};
use crate::audio_setup;
use crate::audio_setup::{AudioPreflight, PreflightModel};
use crate::audio_source;
use crate::audio_source::{
    validate_audio_window_contract, AudioBlock, ChannelLayout, DecodedAudioWindow,
    NativeAudioSource,
};
use crate::model::{InputId, OutsideFailure};
use crate::ordered;
use crate::source::NativeResolvedSource;

verus! {

/// What a window of decoded audio holds.
#[verifier::ext_equal]
pub struct WindowModel {
    pub blocks: Seq<AudioBlock>,
    pub end_of_stream: bool,
}

impl WindowModel {
    /// Whether every rate and every time base of the blocks can be divided by.
    pub open spec fn timed(self) -> bool {
        &&& audio_source::blocks_are_timed(self.blocks)
        &&& forall|i: int| 0 <= i < self.blocks.len() ==> (#[trigger] self.blocks[i]).sample_rate > 0
    }

    /// The first block, if there is one.
    pub open spec fn first(self) -> Option<AudioBlock> {
        if self.blocks.len() == 0 {
            None
        } else {
            Some(self.blocks[0])
        }
    }
}

impl View for DecodedAudioWindow {
    type V = WindowModel;

    open spec fn view(&self) -> WindowModel {
        WindowModel { blocks: self.blocks@, end_of_stream: self.end_of_stream }
    }
}

/// What probing a file found of its audio.
#[derive(Clone, Copy, Debug, PartialEq, Eq)]
pub struct ProbedAudio {
    pub has_audio: bool,
    /// How many channels the selected stream has, if it tells, or why none could be selected.
    pub selected: Result<Option<u32>, OutsideFailure>,
}

/// Where a decoder stands after it has passed over complete blocks.
#[derive(Clone, Copy, Debug, PartialEq, Eq, Structural)]
pub struct PassedBlocks {
    pub skipped_blocks: usize,
    pub skipped_samples: usize,
    pub next_block: usize,
    pub end_of_stream: bool,
}

/// How far the opening of a source has come, and what it waits for.
#[derive(Debug)]
pub enum OpeningStage {
    /// The file is to be probed.
    Probe,
    /// The audio of the file is to be opened.
    Audio,
    /// One block is to be decoded, of no more than so many samples and bytes.
    FirstBlock { max_samples: usize, page_bytes: usize },
    /// The video of the file is to be opened and its first frame decoded.
    FirstFrame { first: AudioBlock, window: DecodedAudioWindow, page_bytes: usize },
    /// The decoder is to pass over complete blocks up to the target of the position, over no
    /// more than so many.
    Pass {
        position: AudioPosition,
        first_video_pts: i64,
        max_position_blocks: usize,
        page_bytes: usize,
    },
    /// A page is to be decoded, of no more than so many blocks, samples and bytes.
    Page {
        position: AudioPosition,
        first_video_pts: i64,
        next_sequence: u64,
        max_blocks: u32,
        max_samples: usize,
        page_bytes: usize,
    },
    /// The clocks are to be mapped and the limits of the synchronizer to be made.
    Clocks {
        position: AudioPosition,
        first_video_pts: i64,
        window: DecodedAudioWindow,
        positioned_end: bool,
        next_sequence: u64,
    },
    /// The synchronizer is to be made after the plan, and to take the blocks of the window.
    Blocks {
        position: AudioPosition,
        plan: SynchronizerPlan,
        window: DecodedAudioWindow,
        positioned_end: bool,
        next_sequence: u64,
    },
    /// The mixer is to learn of the input: with the layout of its source, or, where there is
    /// none, with that of the Master.
    Mixer { source_layout: Option<ChannelLayout>, keeps_decoder: bool },
    /// The source is open.
    Over { keeps_decoder: bool },
}

/// What a stage of an opening holds.
#[verifier::ext_equal]
pub enum OpeningModel {
    Probe,
    Audio,
    FirstBlock { max_samples: usize, page_bytes: usize },
    FirstFrame { first: AudioBlock, window: WindowModel, page_bytes: usize },
    Pass {
        position: AudioPosition,
        first_video_pts: i64,
        max_position_blocks: usize,
        page_bytes: usize,
    },
    Page {
        position: AudioPosition,
        first_video_pts: i64,
        next_sequence: u64,
        max_blocks: u32,
        max_samples: usize,
        page_bytes: usize,
    },
    Clocks {
        position: AudioPosition,
        first_video_pts: i64,
        window: WindowModel,
        positioned_end: bool,
        next_sequence: u64,
    },
    Blocks {
        position: AudioPosition,
        plan: SynchronizerPlan,
        window: WindowModel,
        positioned_end: bool,
        next_sequence: u64,
    },
    Mixer { source_layout: Option<ChannelLayout>, keeps_decoder: bool },
    Over { keeps_decoder: bool },
}

impl OpeningModel {
    /// Whether every rate and every time base can be divided by.
    pub open spec fn wf(self) -> bool {
        match self {
            OpeningModel::FirstFrame { first, window, .. } => window.timed() && window.first()
                == Some(first),
            OpeningModel::Pass { position, .. } => position.source_rate > 0,
            OpeningModel::Page { position, .. } => position.source_rate > 0,
            OpeningModel::Clocks { position, window, .. } => position.source_rate > 0
                && window.timed(),
            OpeningModel::Blocks { position, window, .. } => position.source_rate > 0
                && window.timed(),
            _ => true,
        }
    }
}

impl View for OpeningStage {
    type V = OpeningModel;

    open spec fn view(&self) -> OpeningModel {
        match self {
            OpeningStage::Probe => OpeningModel::Probe,
            OpeningStage::Audio => OpeningModel::Audio,
            OpeningStage::FirstBlock { max_samples, page_bytes } => OpeningModel::FirstBlock {
                max_samples: *max_samples,
                page_bytes: *page_bytes,
            },
            OpeningStage::FirstFrame { first, window, page_bytes } => OpeningModel::FirstFrame {
                first: *first,
                window: window@,
                page_bytes: *page_bytes,
            },
            OpeningStage::Pass { position, first_video_pts, max_position_blocks, page_bytes } =>
                OpeningModel::Pass {
                position: *position,
                first_video_pts: *first_video_pts,
                max_position_blocks: *max_position_blocks,
                page_bytes: *page_bytes,
            },
            OpeningStage::Page {
                position,
                first_video_pts,
                next_sequence,
                max_blocks,
                max_samples,
                page_bytes,
            } => OpeningModel::Page {
                position: *position,
                first_video_pts: *first_video_pts,
                next_sequence: *next_sequence,
                max_blocks: *max_blocks,
                max_samples: *max_samples,
                page_bytes: *page_bytes,
            },
            OpeningStage::Clocks {
                position,
                first_video_pts,
                window,
                positioned_end,
                next_sequence,
            } => OpeningModel::Clocks {
                position: *position,
                first_video_pts: *first_video_pts,
                window: window@,
                positioned_end: *positioned_end,
                next_sequence: *next_sequence,
            },
            OpeningStage::Blocks { position, plan, window, positioned_end, next_sequence } =>
                OpeningModel::Blocks {
                position: *position,
                plan: *plan,
                window: window@,
                positioned_end: *positioned_end,
                next_sequence: *next_sequence,
            },
            OpeningStage::Mixer { source_layout, keeps_decoder } => OpeningModel::Mixer {
                source_layout: *source_layout,
                keeps_decoder: *keeps_decoder,
            },
            OpeningStage::Over { keeps_decoder } => OpeningModel::Over {
                keeps_decoder: *keeps_decoder,
            },
        }
    }
}

/// What came of that which a stage of an opening waited for.
#[derive(Debug)]
pub enum OpeningEvent {
    Probed(Result<ProbedAudio, OutsideFailure>),
    AudioOpened(Result<(), OutsideFailure>),
    Decoded(Result<DecodedAudioWindow, OutsideFailure>),
    /// When the first frame of the video is shown, if it has one.
    FrameDecoded(Result<Option<i64>, OutsideFailure>),
    Passed(Result<PassedBlocks, OutsideFailure>),
    /// Whether the clocks could be mapped, and whether the limits could be made.
    ClocksMapped { mapped: bool, limited: Result<(), OutsideFailure> },
    /// What the synchronizer holds.
    BlocksPushed(Result<NativeAudioCharge, OutsideFailure>),
    /// Whether the mixer took the input.
    InputAdded(Result<(), NativeMasterError>),
}

/// Whether an event is what a stage waits for.
pub open spec fn answers_opening(stage: OpeningModel, event: OpeningEvent) -> bool {
    match (stage, event) {
        (OpeningModel::Probe, OpeningEvent::Probed(_)) => true,
        (OpeningModel::Audio, OpeningEvent::AudioOpened(_)) => true,
        (OpeningModel::FirstBlock { .. }, OpeningEvent::Decoded(decoded)) => {
            decoded matches Ok(window) ==> window@.timed()
        },
        (OpeningModel::FirstFrame { .. }, OpeningEvent::FrameDecoded(_)) => true,
        (OpeningModel::Pass { .. }, OpeningEvent::Passed(_)) => true,
        (OpeningModel::Page { .. }, OpeningEvent::Decoded(decoded)) => {
            decoded matches Ok(window) ==> window@.timed()
        },
        (OpeningModel::Clocks { .. }, OpeningEvent::ClocksMapped { .. }) => true,
        (OpeningModel::Blocks { .. }, OpeningEvent::BlocksPushed(_)) => true,
        (OpeningModel::Mixer { .. }, OpeningEvent::InputAdded(_)) => true,
        _ => false,
    }
}

/// The setup with an input that is never heard, and the stage that follows.
pub open spec fn unheard(setup: PreflightModel, input: InputId) -> (
    PreflightModel,
    Result<OpeningModel, NativeMasterError>,
) {
    (
        setup.with_source(input, NativeAudioSource::silent()),
        Ok(OpeningModel::Mixer { source_layout: None, keeps_decoder: false }),
    )
}

/// The setup and the first stage of the opening of a source.
pub open spec fn opening_begun(
    setup: PreflightModel,
    source: NativeResolvedSource,
    has_adapter: bool,
) -> (PreflightModel, Result<OpeningModel, NativeMasterError>) {
    match source {
        NativeResolvedSource::LocalVideo { .. } => if has_adapter {
            (setup, Ok(OpeningModel::Probe))
        } else {
            (setup, Err(NativeMasterError::InvalidFormat))
        },
        _ => unheard(setup, source.source_input()),
    }
}

/// The stage that follows on probing.
pub open spec fn after_probing(
    setup: PreflightModel,
    input: InputId,
    probed: ProbedAudio,
) -> (PreflightModel, Result<OpeningModel, NativeMasterError>) {
    let channels = setup.layout.channels;
    if !probed.has_audio {
        unheard(setup, input)
    } else {
        match probed.selected {
            Err(error) => (setup, Err(NativeMasterError::Ffmpeg { input, error })),
            Ok(selected) => if selected == (if channels <= u32::MAX {
                Some(channels as u32)
            } else {
                None
            }) {
                (setup, Ok(OpeningModel::Audio))
            } else {
                (setup, Err(NativeMasterError::InvalidFormat))
            },
        }
    }
}

/// The stage that follows on the first frame: the first block is used where the program has not
/// left it behind.
pub open spec fn after_first_frame(
    setup: PreflightModel,
    input: InputId,
    first: AudioBlock,
    window: WindowModel,
    page_bytes: usize,
    first_video_pts: Option<i64>,
) -> Result<OpeningModel, NativeMasterError> {
    match audio_preflight::position_of(
        input,
        first,
        first_video_pts,
        setup.clock_domain,
        setup.sample_rate,
        setup.budget,
        setup.limits,
    ) {
        Err(error) => Err(error),
        Ok(position) => if position.reuses_first_window {
            Ok(
                OpeningModel::Clocks {
                    position,
                    first_video_pts: first_video_pts->Some_0,
                    window,
                    positioned_end: window.end_of_stream,
                    next_sequence: position.next_sequence,
                },
            )
        } else {
            Ok(
                OpeningModel::Pass {
                    position,
                    first_video_pts: first_video_pts->Some_0,
                    max_position_blocks: setup.limits.max_position_blocks,
                    page_bytes,
                },
            )
        },
    }
}

/// The setup once it has counted the blocks that a decoder has passed over.
pub open spec fn counted(setup: PreflightModel, passed: PassedBlocks) -> PreflightModel {
    PreflightModel {
        audio_telemetry: audio_limits::NativeAudioTelemetry {
            positioned_blocks: audio_limits::capped_u64(
                setup.audio_telemetry.positioned_blocks,
                passed.skipped_blocks as int,
            ),
            positioned_samples: audio_limits::capped_u64(
                setup.audio_telemetry.positioned_samples,
                passed.skipped_samples as int,
            ),
            ..setup.audio_telemetry
        },
        ..setup
    }
}

/// The stage that follows on passing over blocks: nothing is decoded where the source has come
/// to its end.
pub open spec fn after_passing(
    setup: PreflightModel,
    position: AudioPosition,
    first_video_pts: i64,
    page_bytes: usize,
    passed: PassedBlocks,
) -> OpeningModel {
    if passed.end_of_stream {
        OpeningModel::Clocks {
            position,
            first_video_pts,
            window: WindowModel { blocks: Seq::empty(), end_of_stream: true },
            positioned_end: true,
            next_sequence: passed.next_block as u64,
        }
    } else {
        OpeningModel::Page {
            position,
            first_video_pts,
            next_sequence: passed.next_block as u64,
            max_blocks: setup.limits.max_blocks_per_page,
            max_samples: setup.limits.max_samples_per_page,
            page_bytes,
        }
    }
}

/// The setup and the stage that follow on a stage and what came of it.
pub open spec fn opening_step(
    setup: PreflightModel,
    input: InputId,
    stage: OpeningModel,
    event: OpeningEvent,
) -> (PreflightModel, Result<OpeningModel, NativeMasterError>) {
    match (stage, event) {
        (OpeningModel::Probe, OpeningEvent::Probed(probed)) => match probed {
            Err(error) => (setup, Err(NativeMasterError::Ffmpeg { input, error })),
            Ok(probed) => after_probing(setup, input, probed),
        },
        (OpeningModel::Audio, OpeningEvent::AudioOpened(opened)) => match opened {
            Err(error) => (setup, Err(NativeMasterError::Ffmpeg { input, error })),
            Ok(_) => {
                let bytes = audio_limits::sample_bytes(
                    setup.limits.max_samples_per_page,
                    setup.layout.channels,
                );
                if bytes > usize::MAX {
                    (setup, Err(NativeMasterError::BoundsExceeded))
                } else {
                    (
                        setup,
                        Ok(
                            OpeningModel::FirstBlock {
                                max_samples: setup.limits.max_samples_per_page,
                                page_bytes: bytes as usize,
                            },
                        ),
                    )
                }
            },
        },
        (OpeningModel::FirstBlock { page_bytes, .. }, OpeningEvent::Decoded(decoded)) => {
            match decoded {
                Err(error) => (setup, Err(NativeMasterError::Ffmpeg { input, error })),
                Ok(window) => if !audio_source::window_keeps_contract(
                    window@.blocks.len(),
                    window@.end_of_stream,
                    1,
                ) {
                    (setup, Err(NativeMasterError::DecodeContract { input }))
                } else {
                    match window@.first() {
                        None => unheard(setup, input),
                        Some(first) => (
                            setup,
                            Ok(OpeningModel::FirstFrame { first, window: window@, page_bytes }),
                        ),
                    }
                },
            }
        },
        (
            OpeningModel::FirstFrame { first, window, page_bytes },
            OpeningEvent::FrameDecoded(decoded),
        ) => match decoded {
            Err(error) => (setup, Err(NativeMasterError::Ffmpeg { input, error })),
            Ok(first_video_pts) => (
                setup,
                after_first_frame(setup, input, first, window, page_bytes, first_video_pts),
            ),
        },
        (
            OpeningModel::Pass { position, first_video_pts, page_bytes, .. },
            OpeningEvent::Passed(passed),
        ) => match passed {
            Err(error) => (setup, Err(NativeMasterError::Ffmpeg { input, error })),
            Ok(passed) => (
                counted(setup, passed),
                Ok(after_passing(setup, position, first_video_pts, page_bytes, passed)),
            ),
        },
        (
            OpeningModel::Page { position, first_video_pts, next_sequence, max_blocks, .. },
            OpeningEvent::Decoded(decoded),
        ) => match decoded {
            Err(error) => (setup, Err(NativeMasterError::Ffmpeg { input, error })),
            Ok(window) => if !audio_source::window_keeps_contract(
                window@.blocks.len(),
                window@.end_of_stream,
                max_blocks,
            ) {
                (setup, Err(NativeMasterError::DecodeContract { input }))
            } else {
                (
                    setup,
                    Ok(
                        OpeningModel::Clocks {
                            position,
                            first_video_pts,
                            window: window@,
                            positioned_end: false,
                            next_sequence,
                        },
                    ),
                )
            },
        },
        (
            OpeningModel::Clocks {
                position,
                first_video_pts,
                window,
                positioned_end,
                next_sequence,
            },
            OpeningEvent::ClocksMapped { mapped, limited },
        ) => match audio_preflight::synchronizer_plan(
            input,
            position,
            first_video_pts,
            window.first(),
            setup.sample_rate,
            setup.budget,
            setup.limits,
            mapped,
            limited,
        ) {
            Err(error) => (setup, Err(error)),
            Ok(plan) => (
                setup,
                Ok(OpeningModel::Blocks { position, plan, window, positioned_end, next_sequence }),
            ),
        },
        (
            OpeningModel::Blocks { position, plan, window, positioned_end, next_sequence },
            OpeningEvent::BlocksPushed(pushed),
        ) => match audio_setup::admitted(
            setup,
            input,
            position,
            plan,
            window.blocks,
            window.end_of_stream || positioned_end,
            next_sequence,
            pushed,
        ) {
            Err(error) => (setup, Err(error)),
            Ok(after) => (
                after,
                Ok(
                    OpeningModel::Mixer {
                        source_layout: Some(position.layout),
                        keeps_decoder: setup.retain_eos_decoders || !window.end_of_stream,
                    },
                ),
            ),
        },
        (OpeningModel::Mixer { keeps_decoder, .. }, OpeningEvent::InputAdded(added)) => {
            match added {
                Err(error) => (setup, Err(error)),
                Ok(_) => (setup, Ok(OpeningModel::Over { keeps_decoder })),
            }
        },
        _ => (setup, Ok(stage)),
    }
}

/// Whether a step came to what was told of it.
pub open spec fn comes_to(
    told: (PreflightModel, Result<OpeningModel, NativeMasterError>),
    after: PreflightModel,
    next: Result<OpeningStage, NativeMasterError>,
) -> bool {
    &&& told.0 == after
    &&& match next {
        Ok(stage) => told.1 == Ok::<OpeningModel, NativeMasterError>(stage@) && stage@.wf(),
        Err(error) => told.1 == Err::<OpeningModel, NativeMasterError>(error),
    }
}

impl AudioPreflight {
    /// Begins to open a source. Only the audio of files is heard.
    pub fn open_source(&mut self, source: &NativeResolvedSource, has_adapter: bool) -> (next: Result<
        OpeningStage,
        NativeMasterError,
    >)
        requires
            old(self).wf(),
        ensures
            final(self).wf(),
            comes_to(opening_begun(old(self)@, *source, has_adapter), final(self)@, next),
    {
        match source {
            NativeResolvedSource::LocalVideo { .. } => {
                if has_adapter {
                    Ok(OpeningStage::Probe)
                } else {
                    Err(NativeMasterError::InvalidFormat)
                }
            },
            _ => {
                self.add_silence(source.input());
                Ok(OpeningStage::Mixer { source_layout: None, keeps_decoder: false })
            },
        }
    }

    /// Goes on after probing.
    fn probed(&mut self, input: InputId, probed: ProbedAudio) -> (next: Result<
        OpeningStage,
        NativeMasterError,
    >)
        requires
            old(self).wf(),
        ensures
            final(self).wf(),
            comes_to(after_probing(old(self)@, input, probed), final(self)@, next),
    {
        if !probed.has_audio {
            self.add_silence(input);
            return Ok(OpeningStage::Mixer { source_layout: None, keeps_decoder: false });
        }
        match probed.selected {
            Err(error) => Err(NativeMasterError::Ffmpeg { input, error }),
            Ok(selected) => match check_stream_channels(selected, self.layout.channels) {
                Err(error) => Err(error),
                Ok(()) => Ok(OpeningStage::Audio),
            },
        }
    }

    /// Goes on after the first frame of the video.
    fn first_frame(
        &self,
        input: InputId,
        first: AudioBlock,
        window: DecodedAudioWindow,
        page_bytes: usize,
        first_video_pts: Option<i64>,
    ) -> (next: Result<OpeningStage, NativeMasterError>)
        requires
            self.wf(),
            window@.timed(),
            window@.first() == Some(first),
        ensures
            comes_to(
                (
                    self@,
                    after_first_frame(self@, input, first, window@, page_bytes, first_video_pts),
                ),
                self@,
                next,
            ),
    {
        assert(first == window.blocks@[0]);
        let position: AudioPosition = match audio_position(
            input,
            &first,
            first_video_pts,
            self.clock_domain,
            self.sample_rate,
            self.budget,
            self.limits,
        ) {
            Err(error) => {
                return Err(error);
            },
            Ok(position) => position,
        };
        match first_video_pts {
            None => Err(NativeMasterError::InvalidTimeline { input }),
            Some(first_video_pts) => if position.reuses_first_window {
                let positioned_end: bool = window.end_of_stream;
                Ok(
                    OpeningStage::Clocks {
                        position,
                        first_video_pts,
                        window,
                        positioned_end,
                        next_sequence: position.next_sequence,
                    },
                )
            } else {
                Ok(
                    OpeningStage::Pass {
                        position,
                        first_video_pts,
                        max_position_blocks: self.limits.max_position_blocks,
                        page_bytes,
                    },
                )
            },
        }
    }

    /// Takes what came of that which a stage waited for, and goes on to the next.
    pub fn go_on(&mut self, input: InputId, stage: OpeningStage, event: OpeningEvent) -> (next: Result<
        OpeningStage,
        NativeMasterError,
    >)
        requires
            old(self).wf(),
            stage@.wf(),
            answers_opening(stage@, event),
        ensures
            final(self).wf(),
            comes_to(opening_step(old(self)@, input, stage@, event), final(self)@, next),
    {
        match (stage, event) {
            (OpeningStage::Probe, OpeningEvent::Probed(probed)) => match probed {
                Err(error) => Err(NativeMasterError::Ffmpeg { input, error }),
                Ok(probed) => self.probed(input, probed),
            },
            (OpeningStage::Audio, OpeningEvent::AudioOpened(opened)) => match opened {
                Err(error) => Err(NativeMasterError::Ffmpeg { input, error }),
                Ok(()) => match audio_sample_bytes(
                    self.limits.max_samples_per_page,
                    self.layout.channels,
                ) {
                    Err(error) => Err(error),
                    Ok(page_bytes) => Ok(
                        OpeningStage::FirstBlock {
                            max_samples: self.limits.max_samples_per_page,
                            page_bytes,
                        },
                    ),
                },
            },
            (OpeningStage::FirstBlock { page_bytes, .. }, OpeningEvent::Decoded(decoded)) => {
                match decoded {
                    Err(error) => Err(NativeMasterError::Ffmpeg { input, error }),
                    Ok(window) => match self.first_block(input, &window) {
                        Err(error) => Err(error),
                        Ok(None) => {
                            self.add_silence(input);
                            Ok(OpeningStage::Mixer { source_layout: None, keeps_decoder: false })
                        },
                        Ok(Some(first)) => Ok(
                            OpeningStage::FirstFrame { first, window, page_bytes },
                        ),
                    },
                }
            },
            (
                OpeningStage::FirstFrame { first, window, page_bytes },
                OpeningEvent::FrameDecoded(decoded),
            ) => match decoded {
                Err(error) => Err(NativeMasterError::Ffmpeg { input, error }),
                Ok(first_video_pts) => self.first_frame(
                    input,
                    first,
                    window,
                    page_bytes,
                    first_video_pts,
                ),
            },
            (
                OpeningStage::Pass { position, first_video_pts, page_bytes, .. },
                OpeningEvent::Passed(passed),
            ) => match passed {
                Err(error) => Err(NativeMasterError::Ffmpeg { input, error }),
                Ok(passed) => {
                    self.note_position(passed.skipped_blocks, passed.skipped_samples);
                    let next_sequence: u64 = passed.next_block as u64;
                    if passed.end_of_stream {
                        let window: DecodedAudioWindow = DecodedAudioWindow {
                            blocks: Vec::new(),
                            end_of_stream: true,
                        };
                        assert(window@.blocks =~= Seq::<AudioBlock>::empty());
                        Ok(
                            OpeningStage::Clocks {
                                position,
                                first_video_pts,
                                window,
                                positioned_end: true,
                                next_sequence,
                            },
                        )
                    } else {
                        Ok(
                            OpeningStage::Page {
                                position,
                                first_video_pts,
                                next_sequence,
                                max_blocks: self.limits.max_blocks_per_page,
                                max_samples: self.limits.max_samples_per_page,
                                page_bytes,
                            },
                        )
                    }
                },
            },
            (
                OpeningStage::Page { position, first_video_pts, next_sequence, max_blocks, .. },
                OpeningEvent::Decoded(decoded),
            ) => match decoded {
                Err(error) => Err(NativeMasterError::Ffmpeg { input, error }),
                Ok(window) => match validate_audio_window_contract(input, &window, max_blocks) {
                    Err(error) => Err(error),
                    Ok(()) => Ok(
                        OpeningStage::Clocks {
                            position,
                            first_video_pts,
                            window,
                            positioned_end: false,
                            next_sequence,
                        },
                    ),
                },
            },
            (
                OpeningStage::Clocks {
                    position,
                    first_video_pts,
                    window,
                    positioned_end,
                    next_sequence,
                },
                OpeningEvent::ClocksMapped { mapped, limited },
            ) => {
                let first: Option<AudioBlock> = if window.blocks.len() == 0 {
                    None
                } else {
                    Some(window.blocks[0])
                };
                match plan_synchronizer(
                    input,
                    &position,
                    first_video_pts,
                    first,
                    self.sample_rate,
                    self.budget,
                    self.limits,
                    mapped,
                    limited,
                ) {
                    Err(error) => Err(error),
                    Ok(plan) => Ok(
                        OpeningStage::Blocks {
                            position,
                            plan,
                            window,
                            positioned_end,
                            next_sequence,
                        },
                    ),
                }
            },
            (
                OpeningStage::Blocks { position, plan, window, positioned_end, next_sequence },
                OpeningEvent::BlocksPushed(pushed),
            ) => match self.admit_source(
                input,
                &position,
                &plan,
                &window,
                positioned_end,
                next_sequence,
                pushed,
            ) {
                Err(error) => Err(error),
                Ok(keeps_decoder) => Ok(
                    OpeningStage::Mixer { source_layout: Some(position.layout), keeps_decoder },
                ),
            },
            (OpeningStage::Mixer { keeps_decoder, .. }, OpeningEvent::InputAdded(added)) => {
                match added {
                    Err(error) => Err(error),
                    Ok(()) => Ok(OpeningStage::Over { keeps_decoder }),
                }
            },
            (stage, _) => Ok(stage),
        }
    }
}

/// Opening a source changes no other input of the setup, and neither its settings nor its
/// bounds.
pub proof fn an_opening_keeps_to_its_input(
    setup: PreflightModel,
    input: InputId,
    stage: OpeningModel,
    event: OpeningEvent,
    other: InputId,
)
    requires
        setup.wf(),
        other != input,
    ensures
        ({
            let after = opening_step(setup, input, stage, event).0;
            let (old, new) = (ordered::collected(setup.sources), ordered::collected(after.sources));
            &&& after == (PreflightModel {
                sources: after.sources,
                retained: after.retained,
                audio_telemetry: after.audio_telemetry,
                ..setup
            })
            &&& old.contains_key(other) == new.contains_key(other)
            &&& old.contains_key(other) ==> old[other] == new[other]
        }),
{
    let after = opening_step(setup, input, stage, event).0;
    if after.sources != setup.sources {
        let source = choose|source: NativeAudioSource|
            after.sources == ordered::with_entry(setup.sources, input, source);
        ordered::lemma_with_entry(setup.sources, input, source);
    }
}

/// A source that comes before the mixer is listed: it is silent exactly where the mixer is told
/// of no layout.
pub proof fn the_mixer_learns_of_listed_sources(
    setup: PreflightModel,
    input: InputId,
    stage: OpeningModel,
    event: OpeningEvent,
)
    requires
        setup.wf(),
        answers_opening(stage, event),
    ensures
        opening_step(setup, input, stage, event).1 matches Ok(
            OpeningModel::Mixer { source_layout, .. },
        ) ==> {
            let sources = ordered::collected(opening_step(setup, input, stage, event).0.sources);
            &&& sources.contains_key(input)
            &&& sources[input].explicit_silence == (source_layout is None)
            &&& sources[input].synchronizer is Some == (source_layout is Some)
        },
{
    let (after, next) = opening_step(setup, input, stage, event);
    if next matches Ok(OpeningModel::Mixer { .. }) {
        let slot = ordered::lower_bound(ordered::entry_keys(setup.sources), input);
        ordered::lemma_lower_bound(ordered::entry_keys(setup.sources), input);
        ordered::lemma_with_entry(setup.sources, input, after.sources[slot].1);
    }
}

/// A step that fails leaves the setup as it was.
pub proof fn a_failed_opening_changes_nothing(
    setup: PreflightModel,
    input: InputId,
    stage: OpeningModel,
    event: OpeningEvent,
)
    ensures
        opening_step(setup, input, stage, event).1 is Err ==> opening_step(
            setup,
            input,
            stage,
            event,
        ).0 == setup,
{
}

/// However far an opening has come, the setup holds no more than its bounds allow.
pub proof fn openings_keep_to_the_bounds(
    setup: PreflightModel,
    input: InputId,
    stage: OpeningModel,
    event: OpeningEvent,
)
    requires
        setup.retained.within(setup.limits),
    ensures
        opening_step(setup, input, stage, event).0.retained.within(setup.limits),
{
}

} // verus!
