//! Setting up a lane: what each source may hold, where it begins, what it brings first.
use vstd::prelude::*;

use crate::audio_limits;
use crate::audio_limits::{
    audio_sample_bytes, validate_audio_limits, NativeAudioLimits, NativeMasterError,
};
use crate::audio_source::{AudioBlock, ChannelLayout, Synchronizer};
use crate::audio_timing;
use crate::audio_timing::{
    absolute_frame_sample_span, cadence_sample_at_or_after, cadence_sample_at_timestamp,
    cadence_timestamp_at_sample, nonnegative_mapping_anchors, normalized_sample_endpoint,
    original_timestamp_samples, AudioCadenceOrigin,
};
use crate::model::{ClockDomainId, FrameRate, InputId, OutsideFailure};
use crate::source::NativeResolvedSource;

verus! {

/// What is known of the Master before any source is opened.
#[derive(Clone, Copy, Debug, PartialEq, Eq, Structural)]
pub struct AudioBudget {
    /// The most samples that one frame holds.
    pub output_samples: usize,
    /// How many samples one source may hold.
    pub source_samples: usize,
    /// How many bytes one source may hold.
    pub source_bytes: usize,
    pub master_start_sample: u64,
    pub master_start_timestamp: i64,
}

/// The most samples that one frame holds.
pub open spec fn frame_samples(sample_rate: u32, frame_rate: FrameRate) -> int {
    (sample_rate * frame_rate.denominator + frame_rate.numerator - 1) / frame_rate.numerator as int
}

/// How many sources are planned for: at least one.
pub open spec fn slots(source_count: usize) -> int {
    if source_count == 0 {
        1
    } else {
        source_count as int
    }
}

/// The samples that rendering works on: one set for each source and one for the mix.
pub open spec fn scratch_samples(output: int, source_count: usize) -> int {
    output * (slots(source_count) + 1)
}

/// The channels that rendering works on.
pub open spec fn scratch_channels(
    source_count: usize,
    channels: usize,
    max_mapping_channels: usize,
) -> int {
    slots(source_count) * max_mapping_channels + channels
}

/// The bytes that rendering works on.
pub open spec fn scratch_bytes(output: int, channels: int) -> int {
    output * channels * 4
}

/// What is known of the Master before any source is opened, if it can be set up.
pub open spec fn budget_of(
    sample_rate: u32,
    channels: usize,
    frame_rate: FrameRate,
    source_count: usize,
    expected_next_frame: u64,
    limits: NativeAudioLimits,
    max_mapping_channels: usize,
) -> Result<AudioBudget, NativeMasterError> {
    let output = frame_samples(sample_rate, frame_rate);
    let count = slots(source_count);
    let samples = scratch_samples(output, source_count);
    let all_channels = scratch_channels(source_count, channels, max_mapping_channels);
    let bytes = scratch_bytes(output, all_channels);
    let start = audio_timing::frame_start(expected_next_frame as int, sample_rate, frame_rate);
    if output > usize::MAX {
        Err(NativeMasterError::BoundsExceeded)
    } else if audio_limits::checked_limits(limits, channels) is Err {
        Err(audio_limits::checked_limits(limits, channels)->Err_0)
    } else if count + 1 > usize::MAX || samples > usize::MAX || all_channels > usize::MAX || bytes
        > usize::MAX {
        Err(NativeMasterError::BoundsExceeded)
    } else if limits.max_retained_samples < samples || (limits.max_retained_samples - samples)
        / count == 0 || limits.max_retained_bytes < bytes || (limits.max_retained_bytes - bytes)
        / count == 0 {
        Err(NativeMasterError::InvalidLimits)
    } else if audio_timing::frame_start(expected_next_frame + 1, sample_rate, frame_rate)
        > u64::MAX || !audio_timing::boundary_fits(start, sample_rate) {
        Err(NativeMasterError::BoundsExceeded)
    } else {
        Ok(
            AudioBudget {
                output_samples: output as usize,
                source_samples: ((limits.max_retained_samples - samples) / count) as usize,
                source_bytes: ((limits.max_retained_bytes - bytes) / count) as usize,
                master_start_sample: start as u64,
                master_start_timestamp: audio_timing::sample_boundary(start, sample_rate) as i64,
            },
        )
    }
}

/// What all sources may hold, with what rendering works on, keeps to the bounds.
pub proof fn budgets_keep_to_the_bounds(
    sample_rate: u32,
    channels: usize,
    frame_rate: FrameRate,
    source_count: usize,
    expected_next_frame: u64,
    limits: NativeAudioLimits,
    max_mapping_channels: usize,
)
    requires
        frame_rate.wf(),
    ensures
        budget_of(
            sample_rate,
            channels,
            frame_rate,
            source_count,
            expected_next_frame,
            limits,
            max_mapping_channels,
        ) matches Ok(budget) ==> {
            let output = budget.output_samples as int;
            &&& budget.source_samples > 0
            &&& budget.source_bytes > 0
            &&& budget.source_samples * slots(source_count) + scratch_samples(output, source_count)
                <= limits.max_retained_samples
            &&& budget.source_bytes * slots(source_count) + scratch_bytes(
                output,
                scratch_channels(source_count, channels, max_mapping_channels),
            ) <= limits.max_retained_bytes
        },
{
    if let Ok(budget) = budget_of(
        sample_rate,
        channels,
        frame_rate,
        source_count,
        expected_next_frame,
        limits,
        max_mapping_channels,
    ) {
        let output = frame_samples(sample_rate, frame_rate);
        assert(output >= 0) by {
            let x = sample_rate * frame_rate.denominator + frame_rate.numerator - 1;
            let d = frame_rate.numerator as int;
            assert(sample_rate * frame_rate.denominator >= 0) by (nonlinear_arith);
            assert(x / d >= 0) by (nonlinear_arith)
                requires
                    x >= 0,
                    d > 0,
            ;
        }
        let count = slots(source_count);
        let a = limits.max_retained_samples - scratch_samples(output, source_count);
        let b = limits.max_retained_bytes - scratch_bytes(
            output,
            scratch_channels(source_count, channels, max_mapping_channels),
        );
        assert((a / count) * count <= a && (a / count) >= 0) by (nonlinear_arith)
            requires
                a >= 0,
                count > 0,
        ;
        assert((b / count) * count <= b && (b / count) >= 0) by (nonlinear_arith)
            requires
                b >= 0,
                count > 0,
        ;
    }
}

/// Finds what is known of the Master before any source is opened. `setup` tells whether the
/// mixer and the frame cadence take the format.
pub fn audio_preflight_budget(
    is_planar_f32: bool,
    setup: Result<(), OutsideFailure>,
    sample_rate: u32,
    channels: usize,
    frame_rate: FrameRate,
    source_count: usize,
    expected_next_frame: u64,
    limits: NativeAudioLimits,
    max_mapping_channels: usize,
) -> (budget: Result<AudioBudget, NativeMasterError>)
    requires
        frame_rate.wf(),
    ensures
        budget == (if !is_planar_f32 {
            Err(NativeMasterError::InvalidFormat)
        } else {
            match setup {
                Err(error) => Err(NativeMasterError::Audio(error)),
                Ok(()) => budget_of(
                    sample_rate,
                    channels,
                    frame_rate,
                    source_count,
                    expected_next_frame,
                    limits,
                    max_mapping_channels,
                ),
            }
        }),
{
    if !is_planar_f32 {
        return Err(NativeMasterError::InvalidFormat);
    }
    match setup {
        Err(error) => {
            return Err(NativeMasterError::Audio(error));
        },
        Ok(()) => {},
    }
    let slot_count: usize = if source_count == 0 {
        1
    } else {
        source_count
    };
    proof {
        let (a, b, d) = (
            sample_rate as int,
            frame_rate.denominator as int,
            frame_rate.numerator as int,
        );
        assert(0 <= a * b <= 0xffff_ffff * 0xffff_ffff) by (nonlinear_arith)
            requires
                0 <= a <= 0xffff_ffff,
                0 <= b <= 0xffff_ffff,
        ;
        let x = a * b + d - 1;
        assert(0 <= x / d <= x) by (nonlinear_arith)
            requires
                x >= 0,
                d > 0,
        ;
    }
    let output: u128 = ((sample_rate as u128) * (frame_rate.denominator as u128) + (
    frame_rate.numerator as u128 - 1)) / (frame_rate.numerator as u128);
    if output > usize::MAX as u128 {
        return Err(NativeMasterError::BoundsExceeded);
    }
    let output_samples: usize = output as usize;
    match validate_audio_limits(limits, channels) {
        Err(error) => {
            return Err(error);
        },
        Ok(()) => {},
    }
    let plane_sets: usize = match slot_count.checked_add(1) {
        None => {
            return Err(NativeMasterError::BoundsExceeded);
        },
        Some(sets) => sets,
    };
    let working_samples: usize = match output_samples.checked_mul(plane_sets) {
        None => {
            return Err(NativeMasterError::BoundsExceeded);
        },
        Some(samples) => samples,
    };
    let source_channels: usize = match slot_count.checked_mul(max_mapping_channels) {
        None => {
            return Err(NativeMasterError::BoundsExceeded);
        },
        Some(channels) => channels,
    };
    let working_channels: usize = match source_channels.checked_add(channels) {
        None => {
            return Err(NativeMasterError::BoundsExceeded);
        },
        Some(channels) => channels,
    };
    let working_bytes: usize = match audio_sample_bytes(output_samples, working_channels) {
        Err(error) => {
            return Err(error);
        },
        Ok(bytes) => bytes,
    };
    if limits.max_retained_samples < working_samples || (limits.max_retained_samples
        - working_samples) / slot_count == 0 {
        return Err(NativeMasterError::InvalidLimits);
    }
    if limits.max_retained_bytes < working_bytes || (limits.max_retained_bytes - working_bytes)
        / slot_count == 0 {
        return Err(NativeMasterError::InvalidLimits);
    }
    let master_start_sample: u64 = match absolute_frame_sample_span(
        expected_next_frame,
        sample_rate,
        frame_rate,
    ) {
        Err(error) => {
            return Err(error);
        },
        Ok((start, _)) => start,
    };
    match normalized_sample_endpoint(master_start_sample as i128, sample_rate) {
        None => Err(NativeMasterError::BoundsExceeded),
        Some(master_start_timestamp) => Ok(
            AudioBudget {
                output_samples,
                source_samples: (limits.max_retained_samples - working_samples) / slot_count,
                source_bytes: (limits.max_retained_bytes - working_bytes) / slot_count,
                master_start_sample,
                master_start_timestamp,
            },
        ),
    }
}

/// Tells whether a source has audio, given what probing its file came to.
pub fn native_source_has_audio(
    has_adapter: bool,
    source: &NativeResolvedSource,
    probed: Result<bool, OutsideFailure>,
) -> (found: Result<bool, NativeMasterError>)
    ensures
        found == (match *source {
            NativeResolvedSource::LocalVideo { input, .. } => if !has_adapter {
                Err(NativeMasterError::InvalidFormat)
            } else {
                match probed {
                    Err(error) => Err(NativeMasterError::Ffmpeg { input, error }),
                    Ok(has_audio) => Ok(has_audio),
                }
            },
            _ => Ok(false),
        }),
{
    match source {
        NativeResolvedSource::LocalVideo { input, .. } => {
            if !has_adapter {
                return Err(NativeMasterError::InvalidFormat);
            }
            match probed {
                Err(error) => Err(NativeMasterError::Ffmpeg { input: *input, error }),
                Ok(has_audio) => Ok(has_audio),
            }
        },
        _ => Ok(false),
    }
}

/// Checks that the selected stream has as many channels as the Master.
pub fn check_stream_channels(selected: Option<u32>, channels: usize) -> (checked: Result<
    (),
    NativeMasterError,
>)
    ensures
        checked == (if selected == (if channels <= u32::MAX {
            Some(channels as u32)
        } else {
            None
        }) {
            Ok(())
        } else {
            Err(NativeMasterError::InvalidFormat)
        }),
{
    let matches: bool = match selected {
        None => channels as u64 > u32::MAX as u64,
        Some(count) => count as u64 == channels as u64,
    };
    if matches {
        Ok(())
    } else {
        Err(NativeMasterError::InvalidFormat)
    }
}

/// Where the audio of a source stands against its video and the program.
#[derive(Clone, Copy, Debug, PartialEq, Eq, Structural)]
pub struct AudioPosition {
    /// The first sample of the media's audio.
    pub origin: AudioCadenceOrigin,
    pub source_rate: u32,
    pub layout: ChannelLayout,
    /// The first sample of the Master at which the source is heard.
    pub audio_start_master_sample: u64,
    /// The sample of the source that the program has come to.
    pub target_source_sample: u64,
    /// The same, counted from the first sample of the media.
    pub target_ordinal: usize,
    pub next_sequence: u64,
    /// Whether the first block holds the target.
    pub reuses_first_window: bool,
}

/// The number of the first sample within its second.
pub open spec fn phase_of(first: AudioBlock) -> Option<int> {
    match audio_timing::whole_samples(first.timing, first.sample_rate) {
        None => None,
        Some(sample) => Some(sample % first.sample_rate as int),
    }
}

/// The first sample of the Master at which audio is heard that begins so much after its video.
pub open spec fn audio_start(offset: int, sample_rate: u32) -> int {
    if offset <= 0 {
        0
    } else {
        audio_timing::sample_not_before(offset, sample_rate)
    }
}

/// The time of the media that the program has come to, but not before its audio begins.
pub open spec fn target_time(first_video_pts: i64, master_start_timestamp: i64, audio_origin: i64) -> int {
    if first_video_pts + master_start_timestamp < audio_origin {
        audio_origin as int
    } else {
        first_video_pts + master_start_timestamp
    }
}

/// Where the audio of a source stands, given its first block and its first video frame.
pub open spec fn position_of(
    input: InputId,
    first: AudioBlock,
    first_video_pts: Option<i64>,
    clock_domain: ClockDomainId,
    sample_rate: u32,
    budget: AudioBudget,
    limits: NativeAudioLimits,
) -> Result<AudioPosition, NativeMasterError> {
    let broken = NativeMasterError::InvalidTimeline { input };
    match first_video_pts {
        None => Err(broken),
        Some(video) => match phase_of(first) {
            None => Err(broken),
            Some(phase) => {
                let audio = first.timing.presentation_ns;
                let origin = AudioCadenceOrigin { timestamp_ns: audio, sample_index: phase as u64 };
                let start = audio_start(audio - video, sample_rate);
                let target = audio_timing::sample_at(
                    origin,
                    target_time(video, budget.master_start_timestamp, audio),
                    first.sample_rate,
                );
                if first.timing.clock_domain != clock_domain || !(i64::MIN <= audio - video
                    <= i64::MAX) {
                    Err(broken)
                } else if start > u64::MAX || start > limits.max_leading_silence_samples {
                    Err(NativeMasterError::BoundsExceeded)
                } else if !(i64::MIN <= video + budget.master_start_timestamp <= i64::MAX) {
                    Err(broken)
                } else if !(0 <= target <= u64::MAX) {
                    Err(NativeMasterError::BoundsExceeded)
                } else if target < phase || target - phase > usize::MAX || first.timing.sequence
                    == u64::MAX {
                    Err(broken)
                } else {
                    Ok(
                        AudioPosition {
                            origin,
                            source_rate: first.sample_rate,
                            layout: first.layout,
                            audio_start_master_sample: start as u64,
                            target_source_sample: target as u64,
                            target_ordinal: (target - phase) as usize,
                            next_sequence: (first.timing.sequence + 1) as u64,
                            reuses_first_window: target - phase < first.sample_count,
                        },
                    )
                }
            },
        },
    }
}

/// Finds where the audio of a source stands against its video and the program.
pub fn audio_position(
    input: InputId,
    first: &AudioBlock,
    first_video_pts: Option<i64>,
    clock_domain: ClockDomainId,
    sample_rate: u32,
    budget: AudioBudget,
    limits: NativeAudioLimits,
) -> (position: Result<AudioPosition, NativeMasterError>)
    requires
        first.sample_rate > 0,
        first.timing.original.time_base.denominator > 0,
    ensures
        position == position_of(
            input,
            *first,
            first_video_pts,
            clock_domain,
            sample_rate,
            budget,
            limits,
        ),
{
    let broken: NativeMasterError = NativeMasterError::InvalidTimeline { input };
    let video_pts: i64 = match first_video_pts {
        None => {
            return Err(broken);
        },
        Some(pts) => pts,
    };
    if first.timing.clock_domain != clock_domain {
        return Err(broken);
    }
    let origin_timestamp: i64 = first.timing.presentation_ns;
    let raw: i128 = match original_timestamp_samples(first.timing, first.sample_rate) {
        None => {
            return Err(broken);
        },
        Some(raw) => raw,
    };
    let rate: i128 = first.sample_rate as i128;
    proof {
        lemma_euclidean_remainder(raw as int, rate as int);
    }
    let remainder: i128 = raw % rate;
    let phase: u64 = if remainder < 0 {
        (remainder + rate) as u64
    } else {
        remainder as u64
    };
    assert(phase_of(*first) == Some(phase as int));
    let origin: AudioCadenceOrigin = AudioCadenceOrigin {
        timestamp_ns: origin_timestamp,
        sample_index: phase,
    };
    let audio_offset: i64 = match origin_timestamp.checked_sub(video_pts) {
        None => {
            return Err(broken);
        },
        Some(offset) => offset,
    };
    let audio_start_master_sample: u64 = if audio_offset <= 0 {
        0
    } else {
        match cadence_sample_at_or_after(audio_offset, sample_rate) {
            Err(error) => {
                return Err(error);
            },
            Ok(sample) => sample,
        }
    };
    if audio_start_master_sample > limits.max_leading_silence_samples {
        return Err(NativeMasterError::BoundsExceeded);
    }
    let program_timestamp: i64 = match video_pts.checked_add(budget.master_start_timestamp) {
        None => {
            return Err(broken);
        },
        Some(timestamp) => timestamp,
    };
    let target_timestamp: i64 = if program_timestamp < origin_timestamp {
        origin_timestamp
    } else {
        program_timestamp
    };
    let target_source_sample: u64 = match cadence_sample_at_timestamp(
        origin,
        target_timestamp,
        first.sample_rate,
    ) {
        Err(error) => {
            return Err(error);
        },
        Ok(sample) => sample,
    };
    let ordinal: u64 = match target_source_sample.checked_sub(phase) {
        None => {
            return Err(broken);
        },
        Some(ordinal) => ordinal,
    };
    if ordinal > usize::MAX as u64 {
        return Err(broken);
    }
    let next_sequence: u64 = match first.timing.sequence.checked_add(1) {
        None => {
            return Err(broken);
        },
        Some(next) => next,
    };
    Ok(
        AudioPosition {
            origin,
            source_rate: first.sample_rate,
            layout: first.layout,
            audio_start_master_sample,
            target_source_sample,
            target_ordinal: ordinal as usize,
            next_sequence,
            reuses_first_window: ordinal < first.sample_count as u64,
        },
    )
}

proof fn lemma_euclidean_remainder(x: int, d: int)
    requires
        d > 0,
    ensures
        x < 0 ==> x % d == (if (-x) % d == 0 {
            0
        } else {
            d - (-x) % d
        }),
        0 <= x % d < d,
        0 <= (-x) % d < d,
{
    let q = (-x) / d;
    let m = (-x) % d;
    assert(-x == q * d + m && 0 <= m < d) by (nonlinear_arith)
        requires
            d > 0,
            q == (-x) / d,
            m == (-x) % d,
    ;
    if m == 0 {
        assert(x == (-q) * d + 0) by (nonlinear_arith)
            requires
                -x == q * d + m,
                m == 0,
        ;
        vstd::arithmetic::div_mod::lemma_fundamental_div_mod_converse(x, d, -q, 0);
    } else {
        assert(x == (-q - 1) * d + (d - m)) by (nonlinear_arith)
            requires
                -x == q * d + m,
        ;
        vstd::arithmetic::div_mod::lemma_fundamental_div_mod_converse(x, d, -q - 1, d - m);
    }
}

/// How the synchronizer of a source is set up.
#[derive(Clone, Copy, Debug, PartialEq, Eq, Structural)]
pub struct SynchronizerPlan {
    pub source_anchor_ns: u64,
    pub master_anchor_ns: u64,
    pub source_origin: AudioCadenceOrigin,
    pub master_origin: AudioCadenceOrigin,
    pub max_blocks: u32,
    pub max_samples: usize,
    pub max_bytes: usize,
    pub max_output_samples: usize,
}

/// The later of two samples.
pub open spec fn later(a: u64, b: u64) -> u64 {
    if a < b {
        b
    } else {
        a
    }
}

/// Whether a sample of the source is one that can be told, and which.
pub open spec fn first_origin(position: AudioPosition, first: Option<AudioBlock>) -> Result<
    AudioCadenceOrigin,
    NativeMasterError,
> {
    match first {
        Some(block) => {
            let sample = audio_timing::sample_at(
                position.origin,
                block.timing.presentation_ns as int,
                position.source_rate,
            );
            if 0 <= sample <= u64::MAX {
                Ok(
                    AudioCadenceOrigin {
                        timestamp_ns: block.timing.presentation_ns,
                        sample_index: sample as u64,
                    },
                )
            } else {
                Err(NativeMasterError::BoundsExceeded)
            }
        },
        None => {
            let sample = position.target_source_sample as int;
            let time = audio_timing::time_of(position.origin, sample, position.source_rate);
            if audio_timing::boundary_fits(
                position.origin.sample_index as int,
                position.source_rate,
            ) && audio_timing::boundary_fits(sample, position.source_rate) && i64::MIN <= time
                <= i64::MAX {
                Ok(
                    AudioCadenceOrigin {
                        timestamp_ns: time as i64,
                        sample_index: position.target_source_sample,
                    },
                )
            } else {
                Err(NativeMasterError::BoundsExceeded)
            }
        },
    }
}

/// The two instants, shifted alike so that neither is negative.
pub open spec fn anchors_of(first_video_pts: i64) -> (u64, u64) {
    if first_video_pts >= 0 {
        (first_video_pts as u64, 0)
    } else {
        (0, (-first_video_pts) as u64)
    }
}

/// How the synchronizer of a source is set up, given what the clock mapping and the limits of
/// the synchronizer came to.
pub open spec fn synchronizer_plan(
    input: InputId,
    position: AudioPosition,
    first_video_pts: i64,
    first: Option<AudioBlock>,
    sample_rate: u32,
    budget: AudioBudget,
    limits: NativeAudioLimits,
    mapped: bool,
    limited: Result<(), OutsideFailure>,
) -> Result<SynchronizerPlan, NativeMasterError> {
    let master = later(budget.master_start_sample, position.audio_start_master_sample);
    if !audio_timing::boundary_fits(master as int, sample_rate) {
        Err(NativeMasterError::BoundsExceeded)
    } else if !mapped {
        Err(NativeMasterError::InvalidTimeline { input })
    } else {
        match limited {
            Err(error) => Err(NativeMasterError::Synchronizer(error)),
            Ok(()) => match first_origin(position, first) {
                Err(error) => Err(error),
                Ok(source_origin) => Ok(
                    SynchronizerPlan {
                        source_anchor_ns: anchors_of(first_video_pts).0,
                        master_anchor_ns: anchors_of(first_video_pts).1,
                        source_origin,
                        master_origin: AudioCadenceOrigin {
                            timestamp_ns: audio_timing::sample_boundary(
                                master as int,
                                sample_rate,
                            ) as i64,
                            sample_index: master,
                        },
                        max_blocks: limits.max_blocks_per_source,
                        max_samples: budget.source_samples,
                        max_bytes: budget.source_bytes,
                        max_output_samples: budget.output_samples,
                    },
                ),
            },
        }
    }
}

/// Plans how the synchronizer of a source is set up.
pub fn plan_synchronizer(
    input: InputId,
    position: &AudioPosition,
    first_video_pts: i64,
    first: Option<AudioBlock>,
    sample_rate: u32,
    budget: AudioBudget,
    limits: NativeAudioLimits,
    mapped: bool,
    limited: Result<(), OutsideFailure>,
) -> (plan: Result<SynchronizerPlan, NativeMasterError>)
    requires
        position.source_rate > 0,
    ensures
        plan == synchronizer_plan(
            input,
            *position,
            first_video_pts,
            first,
            sample_rate,
            budget,
            limits,
            mapped,
            limited,
        ),
{
    let master_sample: u64 = if budget.master_start_sample < position.audio_start_master_sample {
        position.audio_start_master_sample
    } else {
        budget.master_start_sample
    };
    let master_timestamp: i64 = match normalized_sample_endpoint(
        master_sample as i128,
        sample_rate,
    ) {
        None => {
            return Err(NativeMasterError::BoundsExceeded);
        },
        Some(timestamp) => timestamp,
    };
    let (source_anchor_ns, master_anchor_ns): (u64, u64) = match nonnegative_mapping_anchors(
        first_video_pts,
        0,
    ) {
        Err(error) => {
            return Err(error);
        },
        Ok(anchors) => anchors,
    };
    if !mapped {
        return Err(NativeMasterError::InvalidTimeline { input });
    }
    match limited {
        Err(error) => {
            return Err(NativeMasterError::Synchronizer(error));
        },
        Ok(()) => {},
    }
    let source_origin: AudioCadenceOrigin = match first {
        Some(block) => match cadence_sample_at_timestamp(
            position.origin,
            block.timing.presentation_ns,
            position.source_rate,
        ) {
            Err(error) => {
                return Err(error);
            },
            Ok(sample_index) => AudioCadenceOrigin {
                timestamp_ns: block.timing.presentation_ns,
                sample_index,
            },
        },
        None => match cadence_timestamp_at_sample(
            position.origin,
            position.target_source_sample,
            position.source_rate,
        ) {
            Err(error) => {
                return Err(error);
            },
            Ok(timestamp_ns) => AudioCadenceOrigin {
                timestamp_ns,
                sample_index: position.target_source_sample,
            },
        },
    };
    Ok(
        SynchronizerPlan {
            source_anchor_ns,
            master_anchor_ns,
            source_origin,
            master_origin: AudioCadenceOrigin {
                timestamp_ns: master_timestamp,
                sample_index: master_sample,
            },
            max_blocks: limits.max_blocks_per_source,
            max_samples: budget.source_samples,
            max_bytes: budget.source_bytes,
            max_output_samples: budget.output_samples,
        },
    )
}

} // verus!
