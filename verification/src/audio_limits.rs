//! Resource bounds and accounting of native audio.
use vstd::prelude::*;

use crate::model::{InputId, OutsideFailure, StingerSlotId, SwitcherTransitionKind};

verus! {

/// A source with more buffered blocks than this is refilled only when it must be.
pub const AUDIO_REFILL_LOW_WATERMARK: usize = 8;

/// The most inputs that one project mixes.
pub const MAX_NATIVE_AUDIO_STRIPS: usize = 64;

/// Bytes of one sample of one channel.
pub const SAMPLE_BYTES: usize = 4;

/// Resource bounds for the independent CPU audio runtime.
#[derive(Clone, Copy, Debug, PartialEq, Eq, Structural)]
pub struct NativeAudioLimits {
    pub max_blocks_per_source: u32,
    pub max_blocks_per_page: u32,
    pub max_samples_per_page: usize,
    pub max_retained_blocks: usize,
    pub max_retained_samples: usize,
    pub max_retained_bytes: usize,
    pub max_position_blocks: usize,
    pub max_leading_silence_samples: u64,
    pub sink_blocks: usize,
}

impl NativeAudioLimits {
    /// Whether at least one block may be asked for and held.
    pub open spec fn wf(self) -> bool {
        self.max_blocks_per_source > 0 && self.max_blocks_per_page > 0
    }
}

impl Default for NativeAudioLimits {
    fn default() -> (limits: Self)
        ensures
            limits == (NativeAudioLimits {
                max_blocks_per_source: 32,
                max_blocks_per_page: 16,
                max_samples_per_page: 65_536,
                max_retained_blocks: 1024,
                max_retained_samples: 1_048_576,
                max_retained_bytes: 33_554_432,
                max_position_blocks: 4_096,
                max_leading_silence_samples: 2_880_000,
                sink_blocks: 8,
            }),
    {
        NativeAudioLimits {
            max_blocks_per_source: 32,
            max_blocks_per_page: 16,
            max_samples_per_page: 64 * 1024,
            max_retained_blocks: 1024,
            max_retained_samples: 1024 * 1024,
            max_retained_bytes: 32 * 1024 * 1024,
            max_position_blocks: 4_096,
            max_leading_silence_samples: 48_000 * 60,
            sink_blocks: 8,
        }
    }
}

/// Fatal setup, decode-contract, or render failures in native CPU audio.
#[derive(Clone, Copy, Debug, PartialEq, Eq, Structural)]
pub enum NativeMasterError {
    Ffmpeg { input: InputId, error: OutsideFailure },
    Audio(OutsideFailure),
    ChannelMapping(OutsideFailure),
    Synchronizer(OutsideFailure),
    AudioBlock(OutsideFailure),
    Timing(OutsideFailure),
    SinkConfig(OutsideFailure),
    InvalidLimits,
    InvalidFormat,
    InvalidTimeline { input: InputId },
    BoundsExceeded,
    WorkerUnavailable,
    WorkerDisconnected,
    WorkerPanicked,
    WorkerQueueFull,
    DecodeContract { input: InputId },
    MissingAudioRoute { input: InputId },
    MissingAudioTransitionKind,
    MissingStingerConfiguration(StingerSlotId),
    InvalidStinger(OutsideFailure),
    UnsupportedAudioTransition(SwitcherTransitionKind),
    UnexpectedFrame { expected: u64, actual: u64 },
    FrameNotReady(u64),
    SinkRejected,
    Failed,
}

/// Splits the retained bounds between ordinary audio and Stinger audio.
pub fn partition_native_audio_limits(limits: NativeAudioLimits, has_stinger_audio: bool) -> (parts: Result<
    (NativeAudioLimits, NativeAudioLimits),
    NativeMasterError,
>)
    ensures
        parts matches Ok((ordinary, stinger)) && if !has_stinger_audio {
            ordinary == limits && stinger == limits
        } else {
            &&& ordinary == (NativeAudioLimits {
                max_retained_blocks: (limits.max_retained_blocks / 2) as usize,
                max_retained_samples: (limits.max_retained_samples / 2) as usize,
                max_retained_bytes: (limits.max_retained_bytes / 2) as usize,
                ..limits
            })
            &&& stinger == (NativeAudioLimits {
                max_retained_blocks: (limits.max_retained_blocks
                    - ordinary.max_retained_blocks) as usize,
                max_retained_samples: (limits.max_retained_samples
                    - ordinary.max_retained_samples) as usize,
                max_retained_bytes: (limits.max_retained_bytes
                    - ordinary.max_retained_bytes) as usize,
                ..limits
            })
            &&& ordinary.max_retained_blocks + stinger.max_retained_blocks
                == limits.max_retained_blocks
            &&& ordinary.max_retained_samples + stinger.max_retained_samples
                == limits.max_retained_samples
            &&& ordinary.max_retained_bytes + stinger.max_retained_bytes
                == limits.max_retained_bytes
        },
{
    if !has_stinger_audio {
        return Ok((limits, limits));
    }
    let ordinary: NativeAudioLimits = NativeAudioLimits {
        max_retained_blocks: limits.max_retained_blocks / 2,
        max_retained_samples: limits.max_retained_samples / 2,
        max_retained_bytes: limits.max_retained_bytes / 2,
        ..limits
    };
    let stinger: NativeAudioLimits = NativeAudioLimits {
        max_retained_blocks: limits.max_retained_blocks - ordinary.max_retained_blocks,
        max_retained_samples: limits.max_retained_samples - ordinary.max_retained_samples,
        max_retained_bytes: limits.max_retained_bytes - ordinary.max_retained_bytes,
        ..limits
    };
    Ok((ordinary, stinger))
}

/// Splits the retained bounds evenly among the Stinger sources.
pub fn partition_stinger_audio_limits(limits: NativeAudioLimits, source_count: usize) -> (part: Result<
    NativeAudioLimits,
    NativeMasterError,
>)
    ensures
        part == (if source_count == 0 {
            Err(NativeMasterError::InvalidLimits)
        } else {
            Ok(
                NativeAudioLimits {
                    max_retained_blocks: (limits.max_retained_blocks / source_count) as usize,
                    max_retained_samples: (limits.max_retained_samples / source_count) as usize,
                    max_retained_bytes: (limits.max_retained_bytes / source_count) as usize,
                    sink_blocks: 1,
                    ..limits
                },
            )
        }),
{
    if source_count == 0 {
        return Err(NativeMasterError::InvalidLimits);
    }
    Ok(
        NativeAudioLimits {
            max_retained_blocks: limits.max_retained_blocks / source_count,
            max_retained_samples: limits.max_retained_samples / source_count,
            max_retained_bytes: limits.max_retained_bytes / source_count,
            sink_blocks: 1,
            ..limits
        },
    )
}

/// The shares of all Stinger sources together do not exceed what was shared out.
pub proof fn stinger_shares_fit(whole: usize, source_count: usize)
    requires
        source_count > 0,
    ensures
        (whole / source_count) * source_count <= whole,
{
    let (w, n) = (whole as int, source_count as int);
    assert((w / n) * n <= w) by (nonlinear_arith)
        requires
            w >= 0,
            n > 0,
    ;
}

/// Blocks, samples and bytes that are held or asked for.
#[derive(Clone, Copy, Debug, PartialEq, Eq, Structural)]
pub struct NativeAudioCharge {
    pub blocks: usize,
    pub samples: usize,
    pub bytes: usize,
}

impl Default for NativeAudioCharge {
    fn default() -> (charge: Self)
        ensures
            charge == NativeAudioCharge::zero(),
    {
        NativeAudioCharge { blocks: 0, samples: 0, bytes: 0 }
    }
}

impl NativeAudioCharge {
    /// Nothing held.
    pub open spec fn zero() -> Self {
        NativeAudioCharge { blocks: 0, samples: 0, bytes: 0 }
    }

    /// The sum, where each part of it can be counted.
    pub open spec fn plus(self, other: Self) -> Option<Self> {
        if self.blocks + other.blocks <= usize::MAX && self.samples + other.samples <= usize::MAX
            && self.bytes + other.bytes <= usize::MAX {
            Some(
                NativeAudioCharge {
                    blocks: (self.blocks + other.blocks) as usize,
                    samples: (self.samples + other.samples) as usize,
                    bytes: (self.bytes + other.bytes) as usize,
                },
            )
        } else {
            None
        }
    }

    /// The difference, where no part of it is negative.
    pub open spec fn minus(self, other: Self) -> Option<Self> {
        if self.blocks >= other.blocks && self.samples >= other.samples && self.bytes
            >= other.bytes {
            Some(
                NativeAudioCharge {
                    blocks: (self.blocks - other.blocks) as usize,
                    samples: (self.samples - other.samples) as usize,
                    bytes: (self.bytes - other.bytes) as usize,
                },
            )
        } else {
            None
        }
    }

    /// Whether no part exceeds the retained bounds.
    pub open spec fn within(self, limits: NativeAudioLimits) -> bool {
        &&& self.blocks <= limits.max_retained_blocks
        &&& self.samples <= limits.max_retained_samples
        &&& self.bytes <= limits.max_retained_bytes
    }

    /// Adds, where each part of the sum can be counted.
    pub fn checked_add(self, other: Self) -> (sum: Option<Self>)
        ensures
            sum == self.plus(other),
    {
        let blocks: usize = match self.blocks.checked_add(other.blocks) {
            None => {
                return None;
            },
            Some(blocks) => blocks,
        };
        let samples: usize = match self.samples.checked_add(other.samples) {
            None => {
                return None;
            },
            Some(samples) => samples,
        };
        let bytes: usize = match self.bytes.checked_add(other.bytes) {
            None => {
                return None;
            },
            Some(bytes) => bytes,
        };
        Some(NativeAudioCharge { blocks, samples, bytes })
    }

    /// Subtracts, where no part of the difference is negative.
    pub fn checked_sub(self, other: Self) -> (difference: Option<Self>)
        ensures
            difference == self.minus(other),
    {
        let blocks: usize = match self.blocks.checked_sub(other.blocks) {
            None => {
                return None;
            },
            Some(blocks) => blocks,
        };
        let samples: usize = match self.samples.checked_sub(other.samples) {
            None => {
                return None;
            },
            Some(samples) => samples,
        };
        let bytes: usize = match self.bytes.checked_sub(other.bytes) {
            None => {
                return None;
            },
            Some(bytes) => bytes,
        };
        Some(NativeAudioCharge { blocks, samples, bytes })
    }
}

/// Subtracting what was added gives back what was there.
pub proof fn charge_sub_undoes_add(a: NativeAudioCharge, b: NativeAudioCharge)
    requires
        a.plus(b) is Some,
    ensures
        a.plus(b)->Some_0.minus(b) == Some(a),
{
}

/// Mutation-point pressure and alignment telemetry for native audio.
#[derive(Clone, Copy, Debug, PartialEq, Eq, Structural)]
pub struct NativeAudioTelemetry {
    pub reservation_requests: u64,
    pub reserved_blocks: usize,
    pub reserved_samples: usize,
    pub reserved_bytes: usize,
    pub peak_reserved_blocks: usize,
    pub peak_reserved_samples: usize,
    pub peak_reserved_bytes: usize,
    pub source_stalls: u64,
    pub positioned_blocks: u64,
    pub positioned_samples: u64,
    pub leading_silence_samples: u64,
    pub eos_padding_blocks: u64,
    pub eos_padding_samples: u64,
    pub peak_retained_blocks: usize,
    pub peak_retained_samples: usize,
    pub peak_retained_bytes: usize,
}

/// The sum of two counts, or the largest count where the sum cannot be counted.
pub open spec fn capped_u64(a: u64, b: int) -> u64 {
    if a + b > u64::MAX {
        u64::MAX
    } else {
        (a + b) as u64
    }
}

/// The sum of two counts, or the largest count where the sum cannot be counted.
pub open spec fn capped_usize(a: usize, b: int) -> usize {
    if a + b > usize::MAX {
        usize::MAX
    } else {
        (a + b) as usize
    }
}

/// The larger of two counts.
pub open spec fn larger_usize(a: usize, b: usize) -> usize {
    if a < b {
        b
    } else {
        a
    }
}

/// Picks the larger of two counts.
pub fn max_usize(a: usize, b: usize) -> (larger: usize)
    ensures
        larger == larger_usize(a, b),
{
    if a < b {
        b
    } else {
        a
    }
}

impl Default for NativeAudioTelemetry {
    fn default() -> (telemetry: Self)
        ensures
            telemetry == NativeAudioTelemetry::cleared(),
    {
        NativeAudioTelemetry {
            reservation_requests: 0,
            reserved_blocks: 0,
            reserved_samples: 0,
            reserved_bytes: 0,
            peak_reserved_blocks: 0,
            peak_reserved_samples: 0,
            peak_reserved_bytes: 0,
            source_stalls: 0,
            positioned_blocks: 0,
            positioned_samples: 0,
            leading_silence_samples: 0,
            eos_padding_blocks: 0,
            eos_padding_samples: 0,
            peak_retained_blocks: 0,
            peak_retained_samples: 0,
            peak_retained_bytes: 0,
        }
    }
}

impl NativeAudioTelemetry {
    /// All counts at zero.
    pub open spec fn cleared() -> Self {
        NativeAudioTelemetry {
            reservation_requests: 0,
            reserved_blocks: 0,
            reserved_samples: 0,
            reserved_bytes: 0,
            peak_reserved_blocks: 0,
            peak_reserved_samples: 0,
            peak_reserved_bytes: 0,
            source_stalls: 0,
            positioned_blocks: 0,
            positioned_samples: 0,
            leading_silence_samples: 0,
            eos_padding_blocks: 0,
            eos_padding_samples: 0,
            peak_retained_blocks: 0,
            peak_retained_samples: 0,
            peak_retained_bytes: 0,
        }
    }

    /// What is asked for at present.
    pub open spec fn reserved(self) -> NativeAudioCharge {
        NativeAudioCharge {
            blocks: self.reserved_blocks,
            samples: self.reserved_samples,
            bytes: self.reserved_bytes,
        }
    }

    /// The counts of two runtimes taken together, each capped.
    pub open spec fn merged(self, other: Self) -> Self {
        NativeAudioTelemetry {
            reservation_requests: capped_u64(
                self.reservation_requests,
                other.reservation_requests as int,
            ),
            reserved_blocks: capped_usize(self.reserved_blocks, other.reserved_blocks as int),
            reserved_samples: capped_usize(self.reserved_samples, other.reserved_samples as int),
            reserved_bytes: capped_usize(self.reserved_bytes, other.reserved_bytes as int),
            peak_reserved_blocks: capped_usize(
                self.peak_reserved_blocks,
                other.peak_reserved_blocks as int,
            ),
            peak_reserved_samples: capped_usize(
                self.peak_reserved_samples,
                other.peak_reserved_samples as int,
            ),
            peak_reserved_bytes: capped_usize(
                self.peak_reserved_bytes,
                other.peak_reserved_bytes as int,
            ),
            source_stalls: capped_u64(self.source_stalls, other.source_stalls as int),
            positioned_blocks: capped_u64(self.positioned_blocks, other.positioned_blocks as int),
            positioned_samples: capped_u64(
                self.positioned_samples,
                other.positioned_samples as int,
            ),
            leading_silence_samples: capped_u64(
                self.leading_silence_samples,
                other.leading_silence_samples as int,
            ),
            eos_padding_blocks: capped_u64(
                self.eos_padding_blocks,
                other.eos_padding_blocks as int,
            ),
            eos_padding_samples: capped_u64(
                self.eos_padding_samples,
                other.eos_padding_samples as int,
            ),
            peak_retained_blocks: capped_usize(
                self.peak_retained_blocks,
                other.peak_retained_blocks as int,
            ),
            peak_retained_samples: capped_usize(
                self.peak_retained_samples,
                other.peak_retained_samples as int,
            ),
            peak_retained_bytes: capped_usize(
                self.peak_retained_bytes,
                other.peak_retained_bytes as int,
            ),
        }
    }

    /// Adds the counts of another runtime.
    pub fn merge(&mut self, other: Self)
        ensures
            *final(self) == old(self).merged(other),
    {
        self.reservation_requests = self.reservation_requests.saturating_add(
            other.reservation_requests,
        );
        self.reserved_blocks = self.reserved_blocks.saturating_add(other.reserved_blocks);
        self.reserved_samples = self.reserved_samples.saturating_add(other.reserved_samples);
        self.reserved_bytes = self.reserved_bytes.saturating_add(other.reserved_bytes);
        self.peak_reserved_blocks = self.peak_reserved_blocks.saturating_add(
            other.peak_reserved_blocks,
        );
        self.peak_reserved_samples = self.peak_reserved_samples.saturating_add(
            other.peak_reserved_samples,
        );
        self.peak_reserved_bytes = self.peak_reserved_bytes.saturating_add(
            other.peak_reserved_bytes,
        );
        self.source_stalls = self.source_stalls.saturating_add(other.source_stalls);
        self.positioned_blocks = self.positioned_blocks.saturating_add(other.positioned_blocks);
        self.positioned_samples = self.positioned_samples.saturating_add(other.positioned_samples);
        self.leading_silence_samples = self.leading_silence_samples.saturating_add(
            other.leading_silence_samples,
        );
        self.eos_padding_blocks = self.eos_padding_blocks.saturating_add(other.eos_padding_blocks);
        self.eos_padding_samples = self.eos_padding_samples.saturating_add(
            other.eos_padding_samples,
        );
        self.peak_retained_blocks = self.peak_retained_blocks.saturating_add(
            other.peak_retained_blocks,
        );
        self.peak_retained_samples = self.peak_retained_samples.saturating_add(
            other.peak_retained_samples,
        );
        self.peak_retained_bytes = self.peak_retained_bytes.saturating_add(
            other.peak_retained_bytes,
        );
    }

    /// The telemetry after a reservation of `charge`.
    pub open spec fn with_reservation(self, charge: NativeAudioCharge) -> Self {
        let blocks = capped_usize(self.reserved_blocks, charge.blocks as int);
        let samples = capped_usize(self.reserved_samples, charge.samples as int);
        let bytes = capped_usize(self.reserved_bytes, charge.bytes as int);
        NativeAudioTelemetry {
            reservation_requests: capped_u64(self.reservation_requests, 1),
            reserved_blocks: blocks,
            reserved_samples: samples,
            reserved_bytes: bytes,
            peak_reserved_blocks: larger_usize(self.peak_reserved_blocks, blocks),
            peak_reserved_samples: larger_usize(self.peak_reserved_samples, samples),
            peak_reserved_bytes: larger_usize(self.peak_reserved_bytes, bytes),
            ..self
        }
    }

    /// Counts a reservation.
    pub fn record_reservation(&mut self, charge: NativeAudioCharge)
        ensures
            *final(self) == old(self).with_reservation(charge),
    {
        self.reservation_requests = self.reservation_requests.saturating_add(1);
        self.reserved_blocks = self.reserved_blocks.saturating_add(charge.blocks);
        self.reserved_samples = self.reserved_samples.saturating_add(charge.samples);
        self.reserved_bytes = self.reserved_bytes.saturating_add(charge.bytes);
        self.peak_reserved_blocks = max_usize(self.peak_reserved_blocks, self.reserved_blocks);
        self.peak_reserved_samples = max_usize(self.peak_reserved_samples, self.reserved_samples);
        self.peak_reserved_bytes = max_usize(self.peak_reserved_bytes, self.reserved_bytes);
    }

    /// The telemetry after a reservation of `charge` has been given back.
    pub open spec fn without_reservation(self, charge: NativeAudioCharge) -> Result<
        Self,
        NativeMasterError,
    > {
        match self.reserved().minus(charge) {
            None => Err(NativeMasterError::BoundsExceeded),
            Some(left) => Ok(
                NativeAudioTelemetry {
                    reserved_blocks: left.blocks,
                    reserved_samples: left.samples,
                    reserved_bytes: left.bytes,
                    ..self
                },
            ),
        }
    }

    /// Gives a reservation back.
    pub fn release_reservation(&mut self, charge: NativeAudioCharge) -> (released: Result<
        (),
        NativeMasterError,
    >)
        ensures
            match old(self).without_reservation(charge) {
                Ok(after) => released is Ok && *final(self) == after,
                Err(error) => released == Err::<(), NativeMasterError>(error) && *final(self)
                    == *old(self),
            },
    {
        let current: NativeAudioCharge = NativeAudioCharge {
            blocks: self.reserved_blocks,
            samples: self.reserved_samples,
            bytes: self.reserved_bytes,
        };
        match current.checked_sub(charge) {
            None => Err(NativeMasterError::BoundsExceeded),
            Some(next) => {
                self.reserved_blocks = next.blocks;
                self.reserved_samples = next.samples;
                self.reserved_bytes = next.bytes;
                Ok(())
            },
        }
    }

    /// The telemetry after `charge` has been seen held.
    pub open spec fn with_retained(self, charge: NativeAudioCharge) -> Self {
        NativeAudioTelemetry {
            peak_retained_blocks: larger_usize(self.peak_retained_blocks, charge.blocks),
            peak_retained_samples: larger_usize(self.peak_retained_samples, charge.samples),
            peak_retained_bytes: larger_usize(self.peak_retained_bytes, charge.bytes),
            ..self
        }
    }
}

/// Giving a reservation back undoes taking it, as long as no count was capped.
pub proof fn release_undoes_reservation(telemetry: NativeAudioTelemetry, charge: NativeAudioCharge)
    requires
        telemetry.reserved().plus(charge) is Some,
    ensures
        telemetry.with_reservation(charge).without_reservation(charge) matches Ok(after)
            && after.reserved() == telemetry.reserved(),
{
}

/// Raises the peaks to what is held.
pub fn observe_retained_peak(telemetry: &mut NativeAudioTelemetry, charge: NativeAudioCharge)
    ensures
        *final(telemetry) == old(telemetry).with_retained(charge),
{
    telemetry.peak_retained_blocks = max_usize(telemetry.peak_retained_blocks, charge.blocks);
    telemetry.peak_retained_samples = max_usize(telemetry.peak_retained_samples, charge.samples);
    telemetry.peak_retained_bytes = max_usize(telemetry.peak_retained_bytes, charge.bytes);
}

/// The bytes of samples over some channels.
pub open spec fn sample_bytes(samples: usize, channels: usize) -> int {
    samples * channels * 4
}

/// Counts the bytes of samples over some channels.
pub fn audio_sample_bytes(samples: usize, channels: usize) -> (bytes: Result<
    usize,
    NativeMasterError,
>)
    ensures
        bytes == (if sample_bytes(samples, channels) <= usize::MAX {
            Ok(sample_bytes(samples, channels) as usize)
        } else {
            Err(NativeMasterError::BoundsExceeded)
        }),
        sample_bytes(samples, channels) >= 0,
{
    proof {
        let (a, b) = (samples as int, channels as int);
        assert(a * b >= 0) by (nonlinear_arith)
            requires
                a >= 0,
                b >= 0,
        ;
    }
    match samples.checked_mul(channels) {
        None => Err(NativeMasterError::BoundsExceeded),
        Some(product) => match product.checked_mul(SAMPLE_BYTES) {
            None => Err(NativeMasterError::BoundsExceeded),
            Some(bytes) => Ok(bytes),
        },
    }
}

/// Whether limits can be kept with so many channels.
pub open spec fn checked_limits(limits: NativeAudioLimits, channels: usize) -> Result<
    (),
    NativeMasterError,
> {
    if limits.max_blocks_per_page > limits.max_blocks_per_source || limits.max_samples_per_page == 0
        || limits.max_retained_blocks == 0 || limits.max_retained_samples
        < limits.max_samples_per_page {
        Err(NativeMasterError::InvalidLimits)
    } else if sample_bytes(limits.max_samples_per_page, channels) > usize::MAX {
        Err(NativeMasterError::BoundsExceeded)
    } else if limits.max_retained_bytes < sample_bytes(limits.max_samples_per_page, channels)
        || limits.max_position_blocks == 0 || limits.max_leading_silence_samples == 0
        || limits.sink_blocks == 0 {
        Err(NativeMasterError::InvalidLimits)
    } else {
        Ok(())
    }
}

/// Checks that limits can be kept with so many channels.
pub fn validate_audio_limits(limits: NativeAudioLimits, channels: usize) -> (checked: Result<
    (),
    NativeMasterError,
>)
    ensures
        checked == checked_limits(limits, channels),
{
    if limits.max_blocks_per_page > limits.max_blocks_per_source || limits.max_samples_per_page == 0
        || limits.max_retained_blocks == 0 || limits.max_retained_samples
        < limits.max_samples_per_page {
        return Err(NativeMasterError::InvalidLimits);
    }
    let page_bytes: usize = match audio_sample_bytes(limits.max_samples_per_page, channels) {
        Err(error) => {
            return Err(error);
        },
        Ok(bytes) => bytes,
    };
    if limits.max_retained_bytes < page_bytes || limits.max_position_blocks == 0
        || limits.max_leading_silence_samples == 0 || limits.sink_blocks == 0 {
        return Err(NativeMasterError::InvalidLimits);
    }
    Ok(())
}

/// Where a source stands after a page, and what the page holds.
#[derive(Clone, Copy, Debug, PartialEq, Eq, Structural)]
pub struct ValidatedAudioPage {
    pub next_sample: u64,
    pub next_sequence: u64,
    pub charge: NativeAudioCharge,
}

/// Whether a page keeps to the bounds of one page.
pub open spec fn page_fits(page: ValidatedAudioPage, limits: NativeAudioLimits) -> bool {
    &&& page.charge.blocks <= limits.max_blocks_per_page
    &&& page.charge.samples <= limits.max_samples_per_page
    &&& page.charge.bytes <= limits.max_retained_bytes
}

/// Checks that a page keeps to the bounds of one page.
pub fn validate_page_bounds(page: &ValidatedAudioPage, limits: NativeAudioLimits) -> (checked: Result<
    (),
    NativeMasterError,
>)
    ensures
        checked == (if page_fits(*page, limits) {
            Ok(())
        } else {
            Err(NativeMasterError::BoundsExceeded)
        }),
{
    if page.charge.blocks as u64 > limits.max_blocks_per_page as u64 || page.charge.samples
        > limits.max_samples_per_page || page.charge.bytes > limits.max_retained_bytes {
        return Err(NativeMasterError::BoundsExceeded);
    }
    Ok(())
}

/// Checks that what is held keeps to the retained bounds.
pub fn validate_retained_bounds(charge: NativeAudioCharge, limits: NativeAudioLimits) -> (checked: Result<
    (),
    NativeMasterError,
>)
    ensures
        checked == (if charge.within(limits) {
            Ok(())
        } else {
            Err(NativeMasterError::BoundsExceeded)
        }),
{
    if charge.blocks > limits.max_retained_blocks || charge.samples > limits.max_retained_samples
        || charge.bytes > limits.max_retained_bytes {
        return Err(NativeMasterError::BoundsExceeded);
    }
    Ok(())
}

/// The share of a page's samples that so many blocks get, rounded up.
pub open spec fn page_share(count: u32, limits: NativeAudioLimits) -> int {
    (limits.max_samples_per_page * count + limits.max_blocks_per_page - 1)
        / limits.max_blocks_per_page as int
}

/// The share of a page's samples that so many blocks get, where it can be counted and is
/// not nothing.
pub open spec fn counted_page_share(count: u32, limits: NativeAudioLimits) -> Result<
    usize,
    NativeMasterError,
> {
    if limits.max_samples_per_page * count + limits.max_blocks_per_page - 1 <= usize::MAX
        && page_share(count, limits) != 0 {
        Ok(page_share(count, limits) as usize)
    } else {
        Err(NativeMasterError::BoundsExceeded)
    }
}

/// Finds the share of a page's samples that so many blocks get.
pub fn proportional_page_samples(count: u32, limits: NativeAudioLimits) -> (samples: Result<
    usize,
    NativeMasterError,
>)
    requires
        limits.max_blocks_per_page > 0,
    ensures
        samples == counted_page_share(count, limits),
{
    let whole: usize = match limits.max_samples_per_page.checked_mul(count as usize) {
        None => {
            return Err(NativeMasterError::BoundsExceeded);
        },
        Some(whole) => whole,
    };
    let raised: usize = match whole.checked_add(limits.max_blocks_per_page as usize - 1) {
        None => {
            return Err(NativeMasterError::BoundsExceeded);
        },
        Some(raised) => raised,
    };
    let samples: usize = raised / limits.max_blocks_per_page as usize;
    if samples == 0 {
        return Err(NativeMasterError::BoundsExceeded);
    }
    Ok(samples)
}

} // verus!
