//! Where samples lie in time.
use vstd::prelude::*;

use crate::audio_limits::NativeMasterError;
use crate::model::{ClockDomainId, FrameRate};
use crate::source::{MediaTiming, OriginalTimestamp, TimeBase};

verus! {

/// A sample of a cadence and the time at which it is heard.
#[derive(Clone, Copy, Debug, PartialEq, Eq, Structural)]
pub struct AudioCadenceOrigin {
    pub timestamp_ns: i64,
    pub sample_index: u64,
}

/// The quotient without its fraction.
pub open spec fn truncated(numerator: int, denominator: int) -> int {
    if numerator >= 0 {
        numerator / denominator
    } else {
        -((-numerator) / denominator)
    }
}

/// When a sample begins, in nanoseconds.
pub open spec fn sample_boundary(sample: int, sample_rate: u32) -> int {
    truncated(sample * 1_000_000_000, sample_rate as int)
}

/// Whether the begin of a sample can be told.
pub open spec fn boundary_fits(sample: int, sample_rate: u32) -> bool {
    &&& sample_rate != 0
    &&& i128::MIN <= sample * 1_000_000_000 <= i128::MAX
    &&& i64::MIN <= sample_boundary(sample, sample_rate) <= i64::MAX
}

/// Tells when a sample begins, in nanoseconds.
pub fn normalized_sample_endpoint(sample: i128, sample_rate: u32) -> (endpoint: Option<i64>)
    ensures
        match endpoint {
            Some(value) => boundary_fits(sample as int, sample_rate) && value == sample_boundary(
                sample as int,
                sample_rate,
            ),
            None => !boundary_fits(sample as int, sample_rate),
        },
{
    let scaled: i128 = match sample.checked_mul(1_000_000_000) {
        None => {
            return None;
        },
        Some(scaled) => scaled,
    };
    if sample_rate == 0 {
        return None;
    }
    let rate: i128 = sample_rate as i128;
    proof {
        let x = scaled as int;
        let d = rate as int;
        if x < 0 {
            assert(0 <= (-x) / d <= -x) by (nonlinear_arith)
                requires
                    x < 0,
                    d > 0,
            ;
        } else {
            assert(0 <= x / d <= x) by (nonlinear_arith)
                requires
                    x >= 0,
                    d > 0,
            ;
        }
    }
    let boundary: i128 = match scaled.checked_div(rate) {
        None => {
            return None;
        },
        Some(boundary) => boundary,
    };
    assert(boundary == sample_boundary(sample as int, sample_rate));
    if boundary < i64::MIN as i128 || boundary > i64::MAX as i128 {
        return None;
    }
    Some(boundary as i64)
}

/// The begin of a nonnegative sample is the floor of its exact time.
pub proof fn lemma_boundary_is_floor(sample: int, sample_rate: u32)
    requires
        sample >= 0,
        sample_rate > 0,
    ensures
        sample_boundary(sample, sample_rate) >= 0,
        sample_boundary(sample, sample_rate) * sample_rate <= sample * 1_000_000_000,
        sample * 1_000_000_000 < (sample_boundary(sample, sample_rate) + 1) * sample_rate,
{
    let x = sample * 1_000_000_000;
    let d = sample_rate as int;
    let q = x / d;
    assert(x >= 0);
    assert(q * d <= x && x < (q + 1) * d && q >= 0) by (nonlinear_arith)
        requires
            x >= 0,
            d > 0,
            q == x / d,
    ;
}

/// Samples do not begin before earlier samples.
pub proof fn sample_boundaries_do_not_descend(a: int, b: int, sample_rate: u32)
    requires
        0 <= a <= b,
        sample_rate > 0,
    ensures
        sample_boundary(a, sample_rate) <= sample_boundary(b, sample_rate),
{
    lemma_boundary_is_floor(a, sample_rate);
    lemma_boundary_is_floor(b, sample_rate);
    let p = sample_boundary(a, sample_rate);
    let q = sample_boundary(b, sample_rate);
    let d = sample_rate as int;
    assert(p <= q) by (nonlinear_arith)
        requires
            p * d <= a * 1_000_000_000,
            b * 1_000_000_000 < (q + 1) * d,
            a <= b,
            d > 0,
    ;
}

/// The exact number of samples of an original timestamp, if it is a whole number.
pub open spec fn whole_samples(timing: MediaTiming, sample_rate: u32) -> Option<int> {
    let scaled = timing.original.ticks * timing.original.time_base.numerator * sample_rate;
    let denominator = timing.original.time_base.denominator as int;
    if truncated(scaled, denominator) * denominator == scaled {
        Some(truncated(scaled, denominator))
    } else {
        None
    }
}

/// Finds the exact number of samples of an original timestamp.
pub fn original_timestamp_samples(timing: MediaTiming, sample_rate: u32) -> (samples: Option<i128>)
    requires
        timing.original.time_base.denominator > 0,
    ensures
        match samples {
            Some(count) => whole_samples(timing, sample_rate) == Some(count as int),
            None => whole_samples(timing, sample_rate) is None,
        },
{
    let ticks: i128 = timing.original.ticks as i128;
    let base: i128 = timing.original.time_base.numerator as i128;
    let rate: i128 = sample_rate as i128;
    let denominator: i128 = timing.original.time_base.denominator as i128;
    let ghost (t, n, r) = (ticks as int, base as int, rate as int);
    proof {
        assert(-0x8000_0000_0000_0000 * 0xffff_ffff <= t * n <= 0x8000_0000_0000_0000 * 0xffff_ffff)
            by (nonlinear_arith)
            requires
                -0x8000_0000_0000_0000 <= t <= 0x8000_0000_0000_0000,
                0 <= n <= 0xffff_ffff,
        ;
        let m = t * n;
        assert(-0x8000_0000_0000_0000 * 0xffff_ffff * 0xffff_ffff <= m * r <= 0x8000_0000_0000_0000
            * 0xffff_ffff * 0xffff_ffff) by (nonlinear_arith)
            requires
                -0x8000_0000_0000_0000 * 0xffff_ffff <= m <= 0x8000_0000_0000_0000 * 0xffff_ffff,
                0 <= r <= 0xffff_ffff,
        ;
    }
    let scaled: i128 = ticks * base * rate;
    proof {
        let x = scaled as int;
        let d = denominator as int;
        if x >= 0 {
            assert(x == (x / d) * d + x % d) by (nonlinear_arith)
                requires
                    d > 0,
            ;
        } else {
            assert(-x == ((-x) / d) * d + (-x) % d) by (nonlinear_arith)
                requires
                    d > 0,
            ;
            assert((-((-x) / d)) * d == -(((-x) / d) * d)) by (nonlinear_arith);
        }
    }
    if scaled % denominator == 0 {
        Some(scaled / denominator)
    } else {
        None
    }
}

/// The first sample of a cadence that does not begin before the time.
pub open spec fn sample_not_before(timestamp: int, sample_rate: u32) -> int {
    (timestamp * sample_rate + 999_999_999) / 1_000_000_000
}

/// Finds the first sample that does not begin before a nonnegative time.
pub fn cadence_sample_at_or_after(timestamp: i64, sample_rate: u32) -> (sample: Result<
    u64,
    NativeMasterError,
>)
    ensures
        sample == (if timestamp >= 0 && sample_not_before(timestamp as int, sample_rate)
            <= u64::MAX {
            Ok(sample_not_before(timestamp as int, sample_rate) as u64)
        } else {
            Err(NativeMasterError::BoundsExceeded)
        }),
{
    if timestamp < 0 {
        return Err(NativeMasterError::BoundsExceeded);
    }
    let time: u128 = timestamp as u128;
    let rate: u128 = sample_rate as u128;
    proof {
        let (t, r) = (time as int, rate as int);
        assert(0 <= t * r <= 0x7fff_ffff_ffff_ffff * 0xffff_ffff) by (nonlinear_arith)
            requires
                0 <= t <= 0x7fff_ffff_ffff_ffff,
                0 <= r <= 0xffff_ffff,
        ;
    }
    let sample: u128 = (time * rate + 999_999_999) / 1_000_000_000;
    if sample > u64::MAX as u128 {
        return Err(NativeMasterError::BoundsExceeded);
    }
    Ok(sample as u64)
}

/// Floors a quotient whose denominator is positive.
pub fn floor_div_i128(numerator: i128, denominator: i128) -> (quotient: Result<
    i128,
    NativeMasterError,
>)
    ensures
        quotient == (if denominator > 0 {
            Ok((numerator as int / denominator as int) as i128)
        } else {
            Err(NativeMasterError::BoundsExceeded)
        }),
        denominator > 0 ==> i128::MIN <= numerator as int / denominator as int <= i128::MAX,
{
    if denominator <= 0 {
        return Err(NativeMasterError::BoundsExceeded);
    }
    let ghost (x, d) = (numerator as int, denominator as int);
    proof {
        if x >= 0 {
            assert(0 <= x / d <= x) by (nonlinear_arith)
                requires
                    x >= 0,
                    d > 0,
            ;
        } else {
            assert(x <= x / d < 0) by (nonlinear_arith)
                requires
                    x < 0,
                    d > 0,
            ;
            let p = (-x) / d;
            let r = (-x) % d;
            assert(-x == p * d + r && 0 <= r < d && 0 <= p) by (nonlinear_arith)
                requires
                    d > 0,
                    x < 0,
                    p == (-x) / d,
                    r == (-x) % d,
            ;
            if r == 0 {
                assert(x / d == -p) by (nonlinear_arith)
                    requires
                        -x == p * d,
                        d > 0,
                ;
            } else {
                assert(x / d == -p - 1) by (nonlinear_arith)
                    requires
                        -x == p * d + r,
                        0 < r < d,
                        d > 0,
                ;
            }
            assert(p <= -x) by (nonlinear_arith)
                requires
                    -x == p * d + r,
                    r >= 0,
                    d > 0,
                    p >= 0,
            ;
        }
    }
    let quotient: i128 = numerator / denominator;
    let remainder: i128 = numerator % denominator;
    if remainder < 0 {
        match quotient.checked_sub(1) {
            None => Err(NativeMasterError::BoundsExceeded),
            Some(quotient) => Ok(quotient),
        }
    } else {
        Ok(quotient)
    }
}

/// The sample of a cadence that is heard at a time: the last that has begun by then.
pub open spec fn sample_at(origin: AudioCadenceOrigin, timestamp: int, sample_rate: u32) -> int {
    let position = timestamp - origin.timestamp_ns + sample_boundary(
        origin.sample_index as int,
        sample_rate,
    );
    ((position + 1) * sample_rate - 1) / 1_000_000_000
}

/// Finds the sample of a cadence that is heard at a time.
pub fn cadence_sample_at_timestamp(origin: AudioCadenceOrigin, timestamp: i64, sample_rate: u32) -> (sample:
    Result<u64, NativeMasterError>)
    requires
        sample_rate > 0,
    ensures
        sample == (if 0 <= sample_at(origin, timestamp as int, sample_rate) <= u64::MAX {
            Ok(sample_at(origin, timestamp as int, sample_rate) as u64)
        } else {
            Err(NativeMasterError::BoundsExceeded)
        }),
{
    let rate: i128 = sample_rate as i128;
    let index: i128 = origin.sample_index as i128;
    let scaled: i128 = index * 1_000_000_000;
    proof {
        let (x, d) = (scaled as int, rate as int);
        assert(0 <= x / d <= x) by (nonlinear_arith)
            requires
                x >= 0,
                d > 0,
        ;
    }
    let origin_boundary: i128 = scaled / rate;
    assert(origin_boundary == sample_boundary(origin.sample_index as int, sample_rate));
    let position: i128 = timestamp as i128 - origin.timestamp_ns as i128 + origin_boundary;
    proof {
        let (p, d) = (position as int, rate as int);
        let limit: int = 0x1_0000_0000_0000_0000int * 1_000_000_001int;
        assert(-limit <= p + 1 <= limit);
        assert(-limit * 0x1_0000_0000 <= (p + 1) * d <= limit * 0x1_0000_0000) by (nonlinear_arith)
            requires
                -limit <= p + 1 <= limit,
                0 <= d <= 0x1_0000_0000,
        ;
    }
    let numerator: i128 = (position + 1) * rate - 1;
    let sample: i128 = match floor_div_i128(numerator, 1_000_000_000) {
        Err(error) => {
            return Err(error);
        },
        Ok(sample) => sample,
    };
    if sample < 0 || sample > u64::MAX as i128 {
        return Err(NativeMasterError::BoundsExceeded);
    }
    Ok(sample as u64)
}

/// When a sample of a cadence is heard.
pub open spec fn time_of(origin: AudioCadenceOrigin, sample: int, sample_rate: u32) -> int {
    origin.timestamp_ns + sample_boundary(sample, sample_rate) - sample_boundary(
        origin.sample_index as int,
        sample_rate,
    )
}

/// Finds when a sample of a cadence is heard.
pub fn cadence_timestamp_at_sample(origin: AudioCadenceOrigin, sample: u64, sample_rate: u32) -> (time:
    Result<i64, NativeMasterError>)
    ensures
        time == (if boundary_fits(origin.sample_index as int, sample_rate) && boundary_fits(
            sample as int,
            sample_rate,
        ) && i64::MIN <= time_of(origin, sample as int, sample_rate) <= i64::MAX {
            Ok(time_of(origin, sample as int, sample_rate) as i64)
        } else {
            Err(NativeMasterError::BoundsExceeded)
        }),
{
    let origin_boundary: i64 = match normalized_sample_endpoint(
        origin.sample_index as i128,
        sample_rate,
    ) {
        None => {
            return Err(NativeMasterError::BoundsExceeded);
        },
        Some(boundary) => boundary,
    };
    let sample_start: i64 = match normalized_sample_endpoint(sample as i128, sample_rate) {
        None => {
            return Err(NativeMasterError::BoundsExceeded);
        },
        Some(boundary) => boundary,
    };
    proof {
        lemma_boundary_is_floor(origin.sample_index as int, sample_rate);
        lemma_boundary_is_floor(sample as int, sample_rate);
    }
    match origin.timestamp_ns.checked_add(sample_start - origin_boundary) {
        None => Err(NativeMasterError::BoundsExceeded),
        Some(timestamp) => Ok(timestamp),
    }
}

/// At up to one sample per nanosecond, asking for the time of a sample and then for the
/// sample at that time gives the sample back.
pub proof fn sample_and_time_agree(origin: AudioCadenceOrigin, sample: int, sample_rate: u32)
    requires
        0 < sample_rate <= 1_000_000_000,
        sample >= 0,
    ensures
        sample_at(origin, time_of(origin, sample, sample_rate), sample_rate) == sample,
{
    lemma_boundary_is_floor(sample, sample_rate);
    let b = sample_boundary(sample, sample_rate);
    let d = sample_rate as int;
    let n = (b + 1) * d - 1;
    assert(sample * 1_000_000_000 <= n);
    assert(n < (sample + 1) * 1_000_000_000) by (nonlinear_arith)
        requires
            n == (b + 1) * d - 1,
            b * d <= sample * 1_000_000_000,
            d <= 1_000_000_000,
    ;
    assert(n / 1_000_000_000 == sample);
}

/// The first sample of a frame.
pub open spec fn frame_start(frame: int, sample_rate: u32, frame_rate: FrameRate) -> int {
    (frame * (sample_rate * frame_rate.denominator)) / frame_rate.numerator as int
}

/// Finds the samples of a frame: the first, and the first of the next frame.
pub fn absolute_frame_sample_span(frame: u64, sample_rate: u32, frame_rate: FrameRate) -> (span: Result<
    (u64, u64),
    NativeMasterError,
>)
    requires
        frame_rate.numerator > 0,
    ensures
        span == (if frame_start(frame + 1, sample_rate, frame_rate) <= u64::MAX {
            Ok(
                (
                    frame_start(frame as int, sample_rate, frame_rate) as u64,
                    frame_start(frame + 1, sample_rate, frame_rate) as u64,
                ),
            )
        } else {
            Err(NativeMasterError::BoundsExceeded)
        }),
        span is Ok ==> 0 <= frame_start(frame as int, sample_rate, frame_rate) <= frame_start(
            frame + 1,
            sample_rate,
            frame_rate,
        ),
{
    proof {
        let (a, b) = (sample_rate as int, frame_rate.denominator as int);
        assert(0 <= a * b <= 0xffff_ffff * 0xffff_ffff) by (nonlinear_arith)
            requires
                0 <= a <= 0xffff_ffff,
                0 <= b <= 0xffff_ffff,
        ;
    }
    let per_frame: u128 = (sample_rate as u128) * (frame_rate.denominator as u128);
    let denominator: u128 = frame_rate.numerator as u128;
    let ghost (f, p, d) = (frame as int, per_frame as int, denominator as int);
    proof {
        assert(0 <= f * p <= (f + 1) * p <= 0x1_0000_0000_0000_0000 * (0xffff_ffff * 0xffff_ffff))
            by (nonlinear_arith)
            requires
                0 <= f <= 0xffff_ffff_ffff_ffff,
                0 <= p <= 0xffff_ffff * 0xffff_ffff,
        ;
        let (x, y) = (f * p, (f + 1) * p);
        assert(0 <= x / d <= y / d) by (nonlinear_arith)
            requires
                0 <= x <= y,
                d > 0,
        ;
    }
    let start: u128 = (frame as u128) * per_frame / denominator;
    let end: u128 = (frame as u128 + 1) * per_frame / denominator;
    if start > u64::MAX as u128 || end > u64::MAX as u128 {
        return Err(NativeMasterError::BoundsExceeded);
    }
    Ok((start as u64, end as u64))
}

/// Frames follow one another without a gap: where one ends, the next begins.
pub proof fn frame_spans_are_contiguous(frame: int, sample_rate: u32, frame_rate: FrameRate)
    requires
        frame >= 0,
        frame_rate.wf(),
    ensures
        frame_start(0, sample_rate, frame_rate) == 0,
        frame_start(frame, sample_rate, frame_rate) <= frame_start(
            frame + 1,
            sample_rate,
            frame_rate,
        ),
        frame_start(frame, sample_rate, frame_rate) * frame_rate.numerator <= frame * (sample_rate
            * frame_rate.denominator) < (frame_start(frame, sample_rate, frame_rate) + 1)
            * frame_rate.numerator,
{
    let p = sample_rate * frame_rate.denominator;
    let d = frame_rate.numerator as int;
    assert(p >= 0) by (nonlinear_arith)
        requires
            p == sample_rate * frame_rate.denominator,
    ;
    let (x, y) = (frame * p, (frame + 1) * p);
    assert(0 <= x <= y) by (nonlinear_arith)
        requires
            x == frame * p,
            y == (frame + 1) * p,
            p >= 0,
            frame >= 0,
    ;
    assert(x / d <= y / d && (x / d) * d <= x && x < (x / d + 1) * d) by (nonlinear_arith)
        requires
            0 <= x <= y,
            d > 0,
    ;
    assert(0 * p == 0);
    assert(0int / d == 0) by (nonlinear_arith)
        requires
            d > 0,
    ;
}

/// The timing of an output block.
pub open spec fn block_timing(
    frame: u64,
    start_sample: u64,
    end_sample: u64,
    sample_rate: u32,
    clock_domain: ClockDomainId,
) -> MediaTiming {
    MediaTiming {
        original: OriginalTimestamp {
            ticks: start_sample as i64,
            time_base: TimeBase { numerator: 1, denominator: sample_rate },
        },
        presentation_ns: sample_boundary(start_sample as int, sample_rate) as i64,
        duration_ns: (sample_boundary(end_sample as int, sample_rate) - sample_boundary(
            start_sample as int,
            sample_rate,
        )) as u64,
        sequence: frame,
        clock_domain,
    }
}

/// Whether an output block over these samples has a timing.
pub open spec fn block_is_timed(start_sample: u64, end_sample: u64, sample_rate: u32) -> bool {
    &&& start_sample <= i64::MAX
    &&& boundary_fits(start_sample as int, sample_rate)
    &&& boundary_fits(end_sample as int, sample_rate)
    &&& sample_boundary(start_sample as int, sample_rate) <= sample_boundary(
        end_sample as int,
        sample_rate,
    )
}

/// Gives an output block its timing: it begins and ends where its samples do.
pub fn output_audio_timing(
    frame: u64,
    start_sample: u64,
    end_sample: u64,
    sample_rate: u32,
    clock_domain: ClockDomainId,
) -> (timing: Result<MediaTiming, NativeMasterError>)
    ensures
        timing == (if block_is_timed(start_sample, end_sample, sample_rate) {
            Ok(block_timing(frame, start_sample, end_sample, sample_rate, clock_domain))
        } else {
            Err(NativeMasterError::BoundsExceeded)
        }),
{
    if start_sample > i64::MAX as u64 {
        return Err(NativeMasterError::BoundsExceeded);
    }
    let start_ns: i64 = match normalized_sample_endpoint(start_sample as i128, sample_rate) {
        None => {
            return Err(NativeMasterError::BoundsExceeded);
        },
        Some(start) => start,
    };
    let end_ns: i64 = match normalized_sample_endpoint(end_sample as i128, sample_rate) {
        None => {
            return Err(NativeMasterError::BoundsExceeded);
        },
        Some(end) => end,
    };
    proof {
        lemma_boundary_is_floor(start_sample as int, sample_rate);
        lemma_boundary_is_floor(end_sample as int, sample_rate);
    }
    let duration: i64 = end_ns - start_ns;
    if duration < 0 {
        return Err(NativeMasterError::BoundsExceeded);
    }
    Ok(
        MediaTiming {
            original: OriginalTimestamp {
                ticks: start_sample as i64,
                time_base: TimeBase { numerator: 1, denominator: sample_rate },
            },
            presentation_ns: start_ns,
            duration_ns: duration as u64,
            sequence: frame,
            clock_domain,
        },
    )
}

/// Output blocks over adjoining samples adjoin in time.
pub proof fn output_blocks_are_contiguous(
    frame: u64,
    start_sample: u64,
    middle_sample: u64,
    end_sample: u64,
    sample_rate: u32,
    clock_domain: ClockDomainId,
)
    requires
        block_is_timed(start_sample, middle_sample, sample_rate),
        block_is_timed(middle_sample, end_sample, sample_rate),
    ensures
        block_timing(frame, start_sample, middle_sample, sample_rate, clock_domain).presentation_ns
            + block_timing(
            frame,
            start_sample,
            middle_sample,
            sample_rate,
            clock_domain,
        ).duration_ns == block_timing(
            frame,
            middle_sample,
            end_sample,
            sample_rate,
            clock_domain,
        ).presentation_ns,
{
    lemma_boundary_is_floor(start_sample as int, sample_rate);
    lemma_boundary_is_floor(middle_sample as int, sample_rate);
}

/// Shifts two instants alike so that neither is negative.
pub fn nonnegative_mapping_anchors(source: i64, master: i64) -> (anchors: Result<
    (u64, u64),
    NativeMasterError,
>)
    ensures
        anchors matches Ok((a, b)) && a - b == source - master && if source >= 0 && master >= 0 {
            a == source && b == master
        } else {
            a == 0 || b == 0
        },
{
    let smaller: i128 = if source < master {
        source as i128
    } else {
        master as i128
    };
    let shift: i128 = if smaller < 0 {
        -smaller
    } else {
        0
    };
    Ok(((source as i128 + shift) as u64, (master as i128 + shift) as u64))
}

} // verus!
