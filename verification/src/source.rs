//! Bounds and timelines of video sources.
use vstd::prelude::*;

use crate::model::{ClockDomainId, InputId, OutsideFailure};
use crate::ordered;
use crate::ordered::insert_key;
use crate::project_plan::RGBA16_FLOAT_BYTES_PER_PIXEL;

verus! {

/// A source with more retained frames than this is not refilled.
pub const SOURCE_REFILL_LOW_WATERMARK: usize = 4;

/// The most frames that one refill asks for.
pub const SOURCE_REFILL_MAX_PAGE: u32 = 4;

/// Resource bounds for GPU-resident native source rings.
#[derive(Clone, Copy, Debug, PartialEq, Eq, Structural)]
pub struct NativeSourceLimits {
    pub max_media_inputs: usize,
    pub max_video_frames_per_source: u32,
    pub max_retained_rgba16f_bytes: u64,
}

impl NativeSourceLimits {
    pub const DEFAULT_MAX_MEDIA_INPUTS: usize = 64;

    pub const DEFAULT_MAX_VIDEO_FRAMES_PER_SOURCE: u32 = 8;

    pub const DEFAULT_MAX_RETAINED_RGBA16F_BYTES: u64 = 536_870_912;
}

impl Default for NativeSourceLimits {
    fn default() -> (limits: Self)
        ensures
            limits.max_media_inputs == 64,
            limits.max_video_frames_per_source == 8,
            limits.max_retained_rgba16f_bytes == 512 * 1024 * 1024,
    {
        NativeSourceLimits {
            max_media_inputs: Self::DEFAULT_MAX_MEDIA_INPUTS,
            max_video_frames_per_source: Self::DEFAULT_MAX_VIDEO_FRAMES_PER_SOURCE,
            max_retained_rgba16f_bytes: Self::DEFAULT_MAX_RETAINED_RGBA16F_BYTES,
        }
    }
}

/// The length of one tick, in seconds.
#[derive(Clone, Copy, Debug, PartialEq, Eq, Structural)]
pub struct TimeBase {
    pub numerator: u32,
    pub denominator: u32,
}

/// A timestamp as the media states it.
#[derive(Clone, Copy, Debug, PartialEq, Eq, Structural)]
pub struct OriginalTimestamp {
    pub ticks: i64,
    pub time_base: TimeBase,
}

/// When a frame or a block is presented, and by which clock.
#[derive(Clone, Copy, Debug, PartialEq, Eq, Structural)]
pub struct MediaTiming {
    pub original: OriginalTimestamp,
    pub presentation_ns: i64,
    pub duration_ns: u64,
    pub sequence: u64,
    pub clock_domain: ClockDomainId,
}

/// A decoded frame in main memory.
#[derive(Clone, Copy, Debug, PartialEq, Eq, Structural)]
pub struct VideoFrame {
    pub timing: MediaTiming,
    pub width: u32,
    pub height: u32,
    /// The number by which the caller finds the pixels again.
    pub payload: u64,
}

impl VideoFrame {
    /// Whether the frame has pixels at all.
    pub open spec fn wf(self) -> bool {
        self.width > 0 && self.height > 0
    }
}

/// A fully resolved native playback source.
#[derive(Debug)]
pub enum NativeResolvedSource {
    LocalVideo { input: InputId, path: String },
    RetainedFrame { input: InputId, frame: VideoFrame },
    LiveFrame { input: InputId, frame: VideoFrame },
}

impl NativeResolvedSource {
    /// The input of the source.
    pub open spec fn source_input(self) -> InputId {
        match self {
            NativeResolvedSource::LocalVideo { input, .. } => input,
            NativeResolvedSource::RetainedFrame { input, .. } => input,
            NativeResolvedSource::LiveFrame { input, .. } => input,
        }
    }

    /// Returns the full-width input identity of this source.
    pub fn input(&self) -> (input: InputId)
        ensures
            input == self.source_input(),
    {
        match self {
            NativeResolvedSource::LocalVideo { input, .. } => *input,
            NativeResolvedSource::RetainedFrame { input, .. } => *input,
            NativeResolvedSource::LiveFrame { input, .. } => *input,
        }
    }
}

#[allow(inconsistent_fields)]
/// Pure source-registry validation failures.
#[derive(Clone, Copy, Debug, PartialEq, Eq, Structural)]
pub enum NativeSourceError {
    TooManySources { actual: usize, maximum: usize },
    TooManyFrames { input: InputId, actual: usize, maximum: u32 },
    DuplicateSource(InputId),
    FrameByteSizeOverflow { input: InputId, width: u32, height: u32 },
    RetainedBytesExceeded { required: u64, maximum: u64 },
    DimensionMismatch {
        input: InputId,
        expected_width: u32,
        expected_height: u32,
        actual_width: u32,
        actual_height: u32,
    },
    InvalidTimeline { input: InputId },
}

/// Failures while decoding and uploading a bounded source prefix.
#[derive(Clone, Copy, Debug, PartialEq, Eq, Structural)]
pub enum NativeSourcePreflightError {
    Source(NativeSourceError),
    Decode { input: InputId, error: OutsideFailure },
    DecodeContract { input: InputId, video_frames: usize, audio_blocks: usize },
    Normalize { input: InputId, error: OutsideFailure },
    CodecAdapterRequired { input: InputId },
    WorkerUnavailable,
}

/// The inputs of the listed sources.
pub open spec fn listed_inputs<T>(sources: Seq<(InputId, T)>) -> Seq<InputId> {
    Seq::new(sources.len(), |i: int| sources[i].0)
}

/// The first input that occurs a second time.
pub open spec fn first_duplicate(inputs: Seq<InputId>) -> Option<InputId>
    decreases inputs.len(),
{
    if inputs.len() == 0 {
        None
    } else {
        match first_duplicate(inputs.drop_last()) {
            Some(input) => Some(input),
            None => if inputs.drop_last().contains(inputs.last()) {
                Some(inputs.last())
            } else {
                None
            },
        }
    }
}

/// Whether the inputs are few enough and pairwise distinct.
pub open spec fn checked_ids(inputs: Seq<InputId>, maximum: usize) -> Result<
    (),
    NativeSourceError,
> {
    if inputs.len() > maximum {
        Err(NativeSourceError::TooManySources { actual: inputs.len() as usize, maximum })
    } else {
        match first_duplicate(inputs) {
            Some(input) => Err(NativeSourceError::DuplicateSource(input)),
            None => Ok(()),
        }
    }
}

/// Inputs among which none occurs a second time are pairwise distinct.
pub proof fn lemma_no_duplicate(inputs: Seq<InputId>)
    ensures
        first_duplicate(inputs) is None <==> inputs.no_duplicates(),
    decreases inputs.len(),
{
    if inputs.len() > 0 {
        let init = inputs.drop_last();
        lemma_no_duplicate(init);
        if first_duplicate(inputs) is None {
            assert forall|i: int, j: int|
                0 <= i < inputs.len() && 0 <= j < inputs.len() && i != j implies inputs[i]
                != inputs[j] by {
                if i < init.len() && j < init.len() {
                    assert(init[i] == inputs[i] && init[j] == inputs[j]);
                } else if i < init.len() {
                    assert(init[i] == inputs[i]);
                    assert(init.contains(inputs[i]));
                } else {
                    assert(init[j] == inputs[j]);
                    assert(init.contains(inputs[j]));
                }
            }
        }
        if inputs.no_duplicates() {
            assert forall|i: int, j: int|
                0 <= i < init.len() && 0 <= j < init.len() && i != j implies init[i] != init[j] by {
                assert(inputs[i] != inputs[j]);
            }
            if init.contains(inputs.last()) {
                let i = choose|i: int| 0 <= i < init.len() && init[i] == inputs.last();
                assert(inputs[i] == inputs[inputs.len() - 1]);
            }
        }
    }
}

proof fn lemma_duplicate_found_early(inputs: Seq<InputId>, count: int)
    requires
        0 <= count <= inputs.len(),
        first_duplicate(inputs.take(count)) is Some,
    ensures
        first_duplicate(inputs) == first_duplicate(inputs.take(count)),
    decreases inputs.len() - count,
{
    if count < inputs.len() {
        assert(inputs.take(count + 1).drop_last() =~= inputs.take(count));
        lemma_duplicate_found_early(inputs, count + 1);
    } else {
        assert(inputs.take(count) =~= inputs);
    }
}

/// Checks that the sources are few enough and pairwise distinct.
pub fn validate_source_ids<T>(sources: &[(InputId, T)], maximum: usize) -> (checked: Result<
    (),
    NativeSourceError,
>)
    ensures
        checked == checked_ids(listed_inputs(sources@), maximum),
{
    let ghost inputs = listed_inputs(sources@);
    if sources.len() > maximum {
        return Err(NativeSourceError::TooManySources { actual: sources.len(), maximum });
    }
    let mut ids: Vec<InputId> = Vec::new();
    assert(inputs.take(0) =~= Seq::<InputId>::empty());
    let mut i: usize = 0;
    while i < sources.len()
        invariant
            i <= sources@.len(),
            inputs == listed_inputs(sources@),
            sources@.len() <= maximum,
            first_duplicate(inputs.take(i as int)) is None,
            ordered::ascending(ids@),
            forall|input: InputId| ids@.contains(input) <==> inputs.take(i as int).contains(input),
        decreases sources@.len() - i,
    {
        proof {
            assert(inputs.take(i + 1).drop_last() =~= inputs.take(i as int));
            assert(inputs.take(i + 1).last() == sources@[i as int].0);
            ordered::lemma_with_key(ids@, sources@[i as int].0);
        }
        let input: InputId = sources[i].0;
        let ghost before = ids@;
        if !insert_key(&mut ids, input) {
            proof {
                lemma_duplicate_found_early(inputs, i + 1);
            }
            return Err(NativeSourceError::DuplicateSource(input));
        }
        proof {
            assert forall|other: InputId|
                ids@.contains(other) <==> inputs.take(i + 1).contains(other) by {
                assert(ordered::with_key(before, input).contains(other) <==> (before.contains(other)
                    || other == input));
                ordered::lemma_contains_drop_last(inputs.take(i + 1), other);
            }
        }
        i = i + 1;
    }
    assert(inputs.take(i as int) =~= inputs);
    Ok(())
}

/// The inputs of the resolved sources.
pub open spec fn resolved_inputs(sources: Seq<NativeResolvedSource>) -> Seq<InputId> {
    Seq::new(sources.len(), |i: int| sources[i].source_input())
}

/// The first source that is a local video.
pub open spec fn first_local_video(sources: Seq<NativeResolvedSource>) -> Option<InputId>
    decreases sources.len(),
{
    if sources.len() == 0 {
        None
    } else {
        match first_local_video(sources.drop_last()) {
            Some(input) => Some(input),
            None => if sources.last() is LocalVideo {
                Some(sources.last().source_input())
            } else {
                None
            },
        }
    }
}

/// Whether the resolved sources are distinct, few enough, and can be decoded.
pub open spec fn checked_sources(
    sources: Seq<NativeResolvedSource>,
    has_adapter: bool,
    maximum: usize,
) -> Result<(), NativeSourcePreflightError> {
    match checked_ids(resolved_inputs(sources), maximum) {
        Err(error) => Err(NativeSourcePreflightError::Source(error)),
        Ok(_) => match first_local_video(sources) {
            Some(input) => if has_adapter {
                Ok(())
            } else {
                Err(NativeSourcePreflightError::CodecAdapterRequired { input })
            },
            None => Ok(()),
        },
    }
}

proof fn lemma_local_video_found_early(sources: Seq<NativeResolvedSource>, count: int)
    requires
        0 <= count <= sources.len(),
        first_local_video(sources.take(count)) is Some,
    ensures
        first_local_video(sources) == first_local_video(sources.take(count)),
    decreases sources.len() - count,
{
    if count < sources.len() {
        assert(sources.take(count + 1).drop_last() =~= sources.take(count));
        lemma_local_video_found_early(sources, count + 1);
    } else {
        assert(sources.take(count) =~= sources);
    }
}

/// Checks the resolved sources before any of them is opened.
pub fn validate_resolved_sources(
    sources: &[NativeResolvedSource],
    has_adapter: bool,
    maximum: usize,
) -> (checked: Result<(), NativeSourcePreflightError>)
    ensures
        checked == checked_sources(sources@, has_adapter, maximum),
{
    let mut ids: Vec<(InputId, ())> = Vec::new();
    let mut i: usize = 0;
    while i < sources.len()
        invariant
            i <= sources@.len(),
            listed_inputs(ids@) == resolved_inputs(sources@).take(i as int),
        decreases sources@.len() - i,
    {
        let ghost before = ids@;
        ids.push((sources[i].input(), ()));
        i = i + 1;
        assert(listed_inputs(ids@) =~= listed_inputs(before).push(ids@[i - 1].0));
        assert(listed_inputs(ids@) =~= resolved_inputs(sources@).take(i as int));
    }
    assert(listed_inputs(ids@) =~= resolved_inputs(sources@));
    match validate_source_ids(ids.as_slice(), maximum) {
        Err(error) => {
            return Err(NativeSourcePreflightError::Source(error));
        },
        Ok(_) => {},
    }
    if has_adapter {
        return Ok(());
    }
    assert(sources@.take(0) =~= Seq::<NativeResolvedSource>::empty());
    let mut k: usize = 0;
    while k < sources.len()
        invariant
            k <= sources@.len(),
            first_local_video(sources@.take(k as int)) is None,
            checked_ids(resolved_inputs(sources@), maximum) is Ok,
            !has_adapter,
        decreases sources@.len() - k,
    {
        proof {
            assert(sources@.take(k + 1).drop_last() =~= sources@.take(k as int));
            assert(sources@.take(k + 1).last() == sources@[k as int]);
        }
        match &sources[k] {
            NativeResolvedSource::LocalVideo { input, .. } => {
                proof {
                    lemma_local_video_found_early(sources@, k + 1);
                }
                return Err(NativeSourcePreflightError::CodecAdapterRequired { input: *input });
            },
            NativeResolvedSource::RetainedFrame { .. } | NativeResolvedSource::LiveFrame { .. } => {
            },
        }
        k = k + 1;
    }
    assert(sources@.take(k as int) =~= sources@);
    Ok(())
}

/// The bytes of one working picture.
pub open spec fn picture_bytes(width: u32, height: u32) -> nat {
    (width * height * 8) as nat
}

/// The bytes of one working picture, where they can be counted.
pub fn rgba16f_frame_bytes(input: InputId, width: u32, height: u32) -> (bytes: Result<
    u64,
    NativeSourceError,
>)
    ensures
        match bytes {
            Ok(count) => count == picture_bytes(width, height),
            Err(error) => picture_bytes(width, height) > u64::MAX && error
                == (NativeSourceError::FrameByteSizeOverflow { input, width, height }),
        },
{
    proof {
        assert(0 <= width * height <= 0xffff_ffff * 0xffff_ffff) by (nonlinear_arith)
            requires
                0 <= width <= 0xffff_ffff,
                0 <= height <= 0xffff_ffff,
        ;
    }
    let pixels: u64 = (width as u64) * (height as u64);
    match pixels.checked_mul(RGBA16_FLOAT_BYTES_PER_PIXEL) {
        Some(bytes) => Ok(bytes),
        None => Err(NativeSourceError::FrameByteSizeOverflow { input, width, height }),
    }
}

/// The common size and the charged bytes after one more source.
pub open spec fn charged_source(
    charged: (Option<(u32, u32)>, u64),
    source: (InputId, u32, u32, usize),
    limits: NativeSourceLimits,
) -> Result<(Option<(u32, u32)>, u64), NativeSourceError> {
    let (dimensions, retained) = charged;
    let (input, width, height, frame_count) = source;
    let exceeded = |required: u64|
        NativeSourceError::RetainedBytesExceeded {
            required,
            maximum: limits.max_retained_rgba16f_bytes,
        };
    if frame_count == 0 {
        Err(NativeSourceError::InvalidTimeline { input })
    } else if frame_count > limits.max_video_frames_per_source {
        Err(
            NativeSourceError::TooManyFrames {
                input,
                actual: frame_count,
                maximum: limits.max_video_frames_per_source,
            },
        )
    } else if dimensions is Some && dimensions->Some_0 != (width, height) {
        Err(
            NativeSourceError::DimensionMismatch {
                input,
                expected_width: dimensions->Some_0.0,
                expected_height: dimensions->Some_0.1,
                actual_width: width,
                actual_height: height,
            },
        )
    } else if picture_bytes(width, height) > u64::MAX {
        Err(NativeSourceError::FrameByteSizeOverflow { input, width, height })
    } else if picture_bytes(width, height) * frame_count > u64::MAX || retained + picture_bytes(
        width,
        height,
    ) * frame_count > u64::MAX {
        Err(exceeded(u64::MAX))
    } else if retained + picture_bytes(width, height) * frame_count
        > limits.max_retained_rgba16f_bytes {
        Err(exceeded((retained + picture_bytes(width, height) * frame_count) as u64))
    } else {
        Ok(
            (
                Some((width, height)),
                (retained + picture_bytes(width, height) * frame_count) as u64,
            ),
        )
    }
}

/// The common size and the charged bytes of all the sources.
pub open spec fn charged_sources(
    sources: Seq<(InputId, u32, u32, usize)>,
    limits: NativeSourceLimits,
) -> Result<(Option<(u32, u32)>, u64), NativeSourceError>
    decreases sources.len(),
{
    if sources.len() == 0 {
        Ok((None, 0))
    } else {
        match charged_sources(sources.drop_last(), limits) {
            Err(error) => Err(error),
            Ok(charged) => charged_source(charged, sources.last(), limits),
        }
    }
}

/// The inputs of the laid-out sources.
pub open spec fn layout_inputs(sources: Seq<(InputId, u32, u32, usize)>) -> Seq<InputId> {
    Seq::new(sources.len(), |i: int| sources[i].0)
}

/// The verdict on the sizes and frame counts of the sources.
pub open spec fn checked_layouts(
    sources: Seq<(InputId, u32, u32, usize)>,
    limits: NativeSourceLimits,
) -> Result<(Option<(u32, u32)>, u64), NativeSourceError> {
    match checked_ids(layout_inputs(sources), limits.max_media_inputs) {
        Err(error) => Err(error),
        Ok(_) => charged_sources(sources, limits),
    }
}

proof fn lemma_charge_fails_early(
    sources: Seq<(InputId, u32, u32, usize)>,
    limits: NativeSourceLimits,
    count: int,
)
    requires
        0 <= count <= sources.len(),
        charged_sources(sources.take(count), limits) is Err,
    ensures
        charged_sources(sources, limits) == charged_sources(sources.take(count), limits),
    decreases sources.len() - count,
{
    if count < sources.len() {
        assert(sources.take(count + 1).drop_last() =~= sources.take(count));
        lemma_charge_fails_early(sources, limits, count + 1);
    } else {
        assert(sources.take(count) =~= sources);
    }
}

/// Checks the sizes and frame counts of the sources and charges their bytes.
pub fn validate_source_layouts(
    sources: &[(InputId, u32, u32, usize)],
    limits: NativeSourceLimits,
) -> (checked: Result<(Option<(u32, u32)>, u64), NativeSourceError>)
    ensures
        checked == checked_layouts(sources@, limits),
{
    let mut ids: Vec<(InputId, ())> = Vec::new();
    let mut k: usize = 0;
    while k < sources.len()
        invariant
            k <= sources@.len(),
            listed_inputs(ids@) == layout_inputs(sources@).take(k as int),
        decreases sources@.len() - k,
    {
        let ghost before = ids@;
        ids.push((sources[k].0, ()));
        k = k + 1;
        assert(listed_inputs(ids@) =~= listed_inputs(before).push(ids@[k - 1].0));
        assert(listed_inputs(ids@) =~= layout_inputs(sources@).take(k as int));
    }
    assert(listed_inputs(ids@) =~= layout_inputs(sources@));
    match validate_source_ids(ids.as_slice(), limits.max_media_inputs) {
        Err(error) => {
            return Err(error);
        },
        Ok(_) => {},
    }
    let mut dimensions: Option<(u32, u32)> = None;
    let mut retained: u64 = 0;
    assert(sources@.take(0) =~= Seq::<(InputId, u32, u32, usize)>::empty());
    let mut i: usize = 0;
    while i < sources.len()
        invariant
            i <= sources@.len(),
            checked_ids(layout_inputs(sources@), limits.max_media_inputs) is Ok,
            charged_sources(sources@.take(i as int), limits) == Ok::<
                (Option<(u32, u32)>, u64),
                NativeSourceError,
            >((dimensions, retained)),
        decreases sources@.len() - i,
    {
        proof {
            assert(sources@.take(i + 1).drop_last() =~= sources@.take(i as int));
            assert(sources@.take(i + 1).last() == sources@[i as int]);
            if charged_sources(sources@.take(i + 1), limits) is Err {
                lemma_charge_fails_early(sources@, limits, i + 1);
            }
        }
        let (input, width, height, frame_count): (InputId, u32, u32, usize) = sources[i];
        if frame_count == 0 {
            return Err(NativeSourceError::InvalidTimeline { input });
        }
        if frame_count as u64 > limits.max_video_frames_per_source as u64 {
            return Err(
                NativeSourceError::TooManyFrames {
                    input,
                    actual: frame_count,
                    maximum: limits.max_video_frames_per_source,
                },
            );
        }
        match dimensions {
            Some((expected_width, expected_height)) => {
                if width != expected_width || height != expected_height {
                    return Err(
                        NativeSourceError::DimensionMismatch {
                            input,
                            expected_width,
                            expected_height,
                            actual_width: width,
                            actual_height: height,
                        },
                    );
                }
            },
            None => {},
        }
        let frame_bytes: u64 = match rgba16f_frame_bytes(input, width, height) {
            Err(error) => {
                return Err(error);
            },
            Ok(bytes) => bytes,
        };
        let source_bytes: u64 = match frame_bytes.checked_mul(frame_count as u64) {
            None => {
                return Err(
                    NativeSourceError::RetainedBytesExceeded {
                        required: u64::MAX,
                        maximum: limits.max_retained_rgba16f_bytes,
                    },
                );
            },
            Some(bytes) => bytes,
        };
        let total: u64 = match retained.checked_add(source_bytes) {
            None => {
                return Err(
                    NativeSourceError::RetainedBytesExceeded {
                        required: u64::MAX,
                        maximum: limits.max_retained_rgba16f_bytes,
                    },
                );
            },
            Some(bytes) => bytes,
        };
        if total > limits.max_retained_rgba16f_bytes {
            return Err(
                NativeSourceError::RetainedBytesExceeded {
                    required: total,
                    maximum: limits.max_retained_rgba16f_bytes,
                },
            );
        }
        dimensions = Some((width, height));
        retained = total;
        i = i + 1;
    }
    assert(sources@.take(i as int) =~= sources@);
    Ok((dimensions, retained))
}

/// Whether the frames follow one another: each is presented later than the one before
/// it and not before the origin, and the sequence counts up by one.
pub open spec fn is_timeline(
    timestamps: Seq<i64>,
    sequences: Seq<u64>,
    origin: i64,
    previous: Option<i64>,
    expected_sequence: u64,
) -> bool {
    &&& timestamps.len() > 0
    &&& timestamps.len() == sequences.len()
    &&& previous is Some ==> previous->Some_0 < timestamps[0]
    &&& forall|i: int, j: int|
        0 <= i < j < timestamps.len() ==> #[trigger] timestamps[i] < #[trigger] timestamps[j]
    &&& forall|i: int|
        0 <= i < timestamps.len() ==> 0 <= #[trigger] timestamps[i] - origin <= u64::MAX
    &&& forall|i: int|
        0 <= i < sequences.len() ==> #[trigger] sequences[i] == expected_sequence + i
}

/// How long after the origin each frame is presented.
pub open spec fn offsets_from(timestamps: Seq<i64>, origin: i64) -> Seq<u64> {
    Seq::new(timestamps.len(), |i: int| (timestamps[i] - origin) as u64)
}

/// Checks a timeline and gives the offsets, the last timestamp and the last sequence.
pub fn validate_timing_values(
    input: InputId,
    timestamps: &[i64],
    sequences: &[u64],
    source_pts_origin: i64,
    previous_pts: Option<i64>,
    expected_sequence: u64,
) -> (checked: Result<(Vec<u64>, i64, u64), NativeSourceError>)
    ensures
        checked is Ok <==> is_timeline(
            timestamps@,
            sequences@,
            source_pts_origin,
            previous_pts,
            expected_sequence,
        ),
        match checked {
            Ok((offsets, last_pts, last_sequence)) => offsets@ == offsets_from(
                timestamps@,
                source_pts_origin,
            ) && last_pts == timestamps@.last() && last_sequence == sequences@.last(),
            Err(error) => error == (NativeSourceError::InvalidTimeline { input }),
        },
{
    if timestamps.len() == 0 || timestamps.len() != sequences.len() {
        return Err(NativeSourceError::InvalidTimeline { input });
    }
    let mut offsets: Vec<u64> = Vec::new();
    let mut previous: Option<i64> = previous_pts;
    let mut expected: u64 = expected_sequence;
    let mut i: usize = 0;
    while i < timestamps.len()
        invariant
            i <= timestamps@.len(),
            timestamps@.len() == sequences@.len(),
            timestamps@.len() > 0,
            i == 0 ==> previous == previous_pts,
            i > 0 ==> previous == Some(timestamps@[i - 1]),
            i > 0 ==> (previous_pts is Some ==> previous_pts->Some_0 < timestamps@[0]),
            i < timestamps@.len() ==> expected == expected_sequence + i,
            offsets@ == offsets_from(timestamps@, source_pts_origin).take(i as int),
            forall|a: int, b: int|
                0 <= a < b < i ==> #[trigger] timestamps@[a] < #[trigger] timestamps@[b],
            forall|a: int|
                0 <= a < i ==> 0 <= #[trigger] timestamps@[a] - source_pts_origin <= u64::MAX,
            forall|a: int| 0 <= a < i ==> #[trigger] sequences@[a] == expected_sequence + a,
        decreases timestamps@.len() - i,
    {
        let pts: i64 = timestamps[i];
        let sequence: u64 = sequences[i];
        match previous {
            Some(previous) => {
                if pts <= previous {
                    return Err(NativeSourceError::InvalidTimeline { input });
                }
            },
            None => {},
        }
        if sequence != expected {
            return Err(NativeSourceError::InvalidTimeline { input });
        }
        let difference: i128 = pts as i128 - source_pts_origin as i128;
        if difference < 0 || difference > u64::MAX as i128 {
            assert(!(0 <= timestamps@[i as int] - source_pts_origin <= u64::MAX));
            return Err(NativeSourceError::InvalidTimeline { input });
        }
        offsets.push(difference as u64);
        previous = Some(pts);
        if i + 1 < sequences.len() {
            expected = match expected.checked_add(1) {
                None => {
                    assert(sequences@[i + 1] != expected_sequence + (i + 1));
                    return Err(NativeSourceError::InvalidTimeline { input });
                },
                Some(next) => next,
            };
        }
        i = i + 1;
        assert(offsets@ =~= offsets_from(timestamps@, source_pts_origin).take(i as int));
    }
    assert(offsets@ =~= offsets_from(timestamps@, source_pts_origin));
    let last_pts: i64 = timestamps[timestamps.len() - 1];
    let last_sequence: u64 = sequences[sequences.len() - 1];
    Ok((offsets, last_pts, last_sequence))
}

/// Whether timestamps ascend, and there are any.
pub open spec fn ascends(timestamps: Seq<i64>) -> bool {
    &&& timestamps.len() > 0
    &&& forall|a: int, b: int|
        0 <= a < b < timestamps.len() ==> #[trigger] timestamps[a] < #[trigger] timestamps[b]
}

/// Gives how long after the first each frame is presented.
pub fn rebased_offsets(input: InputId, timestamps: &[i64]) -> (offsets: Result<
    Vec<u64>,
    NativeSourceError,
>)
    ensures
        offsets is Ok <==> ascends(timestamps@),
        match offsets {
            Ok(offsets) => offsets@ == offsets_from(timestamps@, timestamps@[0]),
            Err(error) => error == (NativeSourceError::InvalidTimeline { input }),
        },
{
    if timestamps.len() == 0 {
        return Err(NativeSourceError::InvalidTimeline { input });
    }
    let first: i64 = timestamps[0];
    let mut offsets: Vec<u64> = Vec::new();
    let mut i: usize = 0;
    while i < timestamps.len()
        invariant
            i <= timestamps@.len(),
            timestamps@.len() > 0,
            first == timestamps@[0],
            offsets@ == offsets_from(timestamps@, first).take(i as int),
            forall|a: int, b: int|
                0 <= a < b < i ==> #[trigger] timestamps@[a] < #[trigger] timestamps@[b],
        decreases timestamps@.len() - i,
    {
        let pts: i64 = timestamps[i];
        if i > 0 && pts <= timestamps[i - 1] {
            assert(!(timestamps@[i - 1] < timestamps@[i as int]));
            return Err(NativeSourceError::InvalidTimeline { input });
        }
        assert(i > 0 ==> timestamps@[0] <= timestamps@[i - 1]);
        let difference: i128 = pts as i128 - first as i128;
        offsets.push(difference as u64);
        i = i + 1;
        assert(offsets@ =~= offsets_from(timestamps@, first).take(i as int));
    }
    assert(offsets@ =~= offsets_from(timestamps@, first));
    Ok(offsets)
}

/// The presentation times of the frames.
pub open spec fn frame_timestamps(frames: Seq<VideoFrame>) -> Seq<i64> {
    Seq::new(frames.len(), |i: int| frames[i].timing.presentation_ns)
}

/// The sequence numbers of the frames.
pub open spec fn frame_sequences(frames: Seq<VideoFrame>) -> Seq<u64> {
    Seq::new(frames.len(), |i: int| frames[i].timing.sequence)
}

/// Whether the frames of one page follow one another by one clock.
pub open spec fn is_page_timeline(
    frames: Seq<VideoFrame>,
    origin: i64,
    previous: Option<i64>,
    expected_sequence: u64,
    clock_domain: ClockDomainId,
) -> bool {
    &&& forall|i: int|
        0 <= i < frames.len() ==> (#[trigger] frames[i]).timing.clock_domain == clock_domain
    &&& is_timeline(
        frame_timestamps(frames),
        frame_sequences(frames),
        origin,
        previous,
        expected_sequence,
    )
}

/// Checks the timeline of one page.
pub fn validate_page_timing(
    input: InputId,
    frames: &[VideoFrame],
    source_pts_origin: i64,
    previous_pts: Option<i64>,
    expected_sequence: u64,
    clock_domain: ClockDomainId,
) -> (checked: Result<(Vec<u64>, i64, u64), NativeSourceError>)
    ensures
        checked is Ok <==> is_page_timeline(
            frames@,
            source_pts_origin,
            previous_pts,
            expected_sequence,
            clock_domain,
        ),
        match checked {
            Ok((offsets, last_pts, last_sequence)) => offsets@ == offsets_from(
                frame_timestamps(frames@),
                source_pts_origin,
            ) && last_pts == frames@.last().timing.presentation_ns && last_sequence
                == frames@.last().timing.sequence,
            Err(error) => error == (NativeSourceError::InvalidTimeline { input }),
        },
{
    let mut timestamps: Vec<i64> = Vec::new();
    let mut sequences: Vec<u64> = Vec::new();
    let mut i: usize = 0;
    while i < frames.len()
        invariant
            i <= frames@.len(),
            timestamps@ == frame_timestamps(frames@).take(i as int),
            sequences@ == frame_sequences(frames@).take(i as int),
            forall|k: int|
                0 <= k < i ==> (#[trigger] frames@[k]).timing.clock_domain == clock_domain,
        decreases frames@.len() - i,
    {
        if frames[i].timing.clock_domain != clock_domain {
            return Err(NativeSourceError::InvalidTimeline { input });
        }
        timestamps.push(frames[i].timing.presentation_ns);
        sequences.push(frames[i].timing.sequence);
        i = i + 1;
        assert(timestamps@ =~= frame_timestamps(frames@).take(i as int));
        assert(sequences@ =~= frame_sequences(frames@).take(i as int));
    }
    assert(timestamps@ =~= frame_timestamps(frames@));
    assert(sequences@ =~= frame_sequences(frames@));
    validate_timing_values(
        input,
        timestamps.as_slice(),
        sequences.as_slice(),
        source_pts_origin,
        previous_pts,
        expected_sequence,
    )
}

/// Checks the timing of a frame that is shown for good.
pub fn validate_retained_frame_timing(
    input: InputId,
    frame: &VideoFrame,
    clock_domain: ClockDomainId,
) -> (checked: Result<(Vec<u64>, i64, u64), NativeSourceError>)
    ensures
        checked is Ok <==> frame.timing.duration_ns != 0 && frame.timing.clock_domain
            == clock_domain && frame.timing.sequence == 0,
        match checked {
            Ok((offsets, last_pts, last_sequence)) => offsets@ == seq![0u64] && last_pts
                == frame.timing.presentation_ns && last_sequence == 0,
            Err(error) => error == (NativeSourceError::InvalidTimeline { input }),
        },
{
    if frame.timing.duration_ns == 0 {
        return Err(NativeSourceError::InvalidTimeline { input });
    }
    let mut frames: Vec<VideoFrame> = Vec::new();
    frames.push(*frame);
    let checked = validate_page_timing(
        input,
        frames.as_slice(),
        frame.timing.presentation_ns,
        None,
        0,
        clock_domain,
    );
    proof {
        assert(frames@[0] == *frame);
        assert(frame_timestamps(frames@)[0] == frame.timing.presentation_ns);
        assert(frame_sequences(frames@)[0] == frame.timing.sequence);
        assert(offsets_from(frame_timestamps(frames@), frame.timing.presentation_ns)
            =~= seq![0u64]);
    }
    checked
}

/// Checks the timing of the first frame of a live source.
pub fn validate_live_seed_timing(input: InputId, frame: &VideoFrame) -> (checked: Result<
    (Vec<u64>, i64, u64, ClockDomainId),
    NativeSourceError,
>)
    ensures
        checked is Ok <==> frame.timing.duration_ns != 0,
        match checked {
            Ok((offsets, last_pts, last_sequence, clock_domain)) => offsets@ == seq![0u64]
                && last_pts == frame.timing.presentation_ns && last_sequence
                == frame.timing.sequence && clock_domain == frame.timing.clock_domain,
            Err(error) => error == (NativeSourceError::InvalidTimeline { input }),
        },
{
    if frame.timing.duration_ns == 0 {
        return Err(NativeSourceError::InvalidTimeline { input });
    }
    let mut offsets: Vec<u64> = Vec::new();
    offsets.push(0);
    assert(offsets@ =~= seq![0u64]);
    Ok(
        (
            offsets,
            frame.timing.presentation_ns,
            frame.timing.sequence,
            frame.timing.clock_domain,
        ),
    )
}

/// Whether a live frame may follow: same clock, later, and with a larger sequence.
pub open spec fn follows_live(
    frame: VideoFrame,
    previous_pts: i64,
    previous_sequence: u64,
    clock_domain: ClockDomainId,
) -> bool {
    &&& frame.timing.duration_ns != 0
    &&& frame.timing.clock_domain == clock_domain
    &&& frame.timing.presentation_ns > previous_pts
    &&& frame.timing.sequence > previous_sequence
}

/// Checks the timing of a further frame of a live source.
pub fn validate_live_update_timing(
    input: InputId,
    frame: &VideoFrame,
    previous_pts: i64,
    previous_sequence: u64,
    clock_domain: ClockDomainId,
) -> (checked: Result<(), NativeSourceError>)
    ensures
        checked is Ok <==> follows_live(*frame, previous_pts, previous_sequence, clock_domain),
        checked matches Err(error) ==> error == (NativeSourceError::InvalidTimeline { input }),
{
    if frame.timing.duration_ns == 0 || frame.timing.clock_domain != clock_domain
        || frame.timing.presentation_ns <= previous_pts || frame.timing.sequence
        <= previous_sequence {
        return Err(NativeSourceError::InvalidTimeline { input });
    }
    Ok(())
}

/// Whether the offsets do not descend.
pub open spec fn sorted(offsets: Seq<u64>) -> bool {
    forall|i: int, j: int|
        0 <= i <= j < offsets.len() ==> #[trigger] offsets[i] <= #[trigger] offsets[j]
}

/// The last place whose offset is not after the deadline.
pub open spec fn shown_index(offsets: Seq<u64>, deadline_ns: u64) -> Option<int>
    decreases offsets.len(),
{
    if offsets.len() == 0 {
        None
    } else if offsets.last() <= deadline_ns {
        Some(offsets.len() - 1)
    } else {
        shown_index(offsets.drop_last(), deadline_ns)
    }
}

/// What is shown at a deadline: the last frame due by then, none before the first.
pub proof fn lemma_shown_index(offsets: Seq<u64>, deadline_ns: u64)
    requires
        sorted(offsets),
    ensures
        match shown_index(offsets, deadline_ns) {
            Some(index) => 0 <= index < offsets.len() && offsets[index] <= deadline_ns && forall|
                i: int,
            |
                index < i < offsets.len() ==> #[trigger] offsets[i] > deadline_ns,
            None => forall|i: int| 0 <= i < offsets.len() ==> #[trigger] offsets[i] > deadline_ns,
        },
    decreases offsets.len(),
{
    if offsets.len() > 0 && offsets.last() > deadline_ns {
        let init = offsets.drop_last();
        assert(sorted(init)) by {
            assert forall|i: int, j: int| 0 <= i <= j < init.len() implies #[trigger] init[i]
                <= #[trigger] init[j] by {
                assert(offsets[i] <= offsets[j]);
            }
        }
        lemma_shown_index(init, deadline_ns);
        match shown_index(init, deadline_ns) {
            Some(index) => {
                assert(offsets[index] == init[index]);
                assert forall|i: int| index < i < offsets.len() implies #[trigger] offsets[i]
                    > deadline_ns by {
                    if i < init.len() {
                        assert(init[i] == offsets[i]);
                    }
                }
            },
            None => {
                assert forall|i: int| 0 <= i < offsets.len() implies #[trigger] offsets[i]
                    > deadline_ns by {
                    if i < init.len() {
                        assert(init[i] == offsets[i]);
                    }
                }
            },
        }
    }
}

/// Finds the frame that is shown at the deadline.
pub fn frame_index_at_deadline(offsets_ns: &[u64], deadline_ns: u64) -> (index: Option<usize>)
    requires
        sorted(offsets_ns@),
    ensures
        match index {
            Some(i) => shown_index(offsets_ns@, deadline_ns) == Some(i as int) && i
                < offsets_ns@.len(),
            None => shown_index(offsets_ns@, deadline_ns) is None,
        },
{
    let mut low: usize = 0;
    let mut high: usize = offsets_ns.len();
    while low < high
        invariant
            low <= high <= offsets_ns@.len(),
            sorted(offsets_ns@),
            forall|i: int| 0 <= i < low ==> #[trigger] offsets_ns@[i] <= deadline_ns,
            forall|i: int| high <= i < offsets_ns@.len() ==> #[trigger] offsets_ns@[i] > deadline_ns,
        decreases high - low,
    {
        let middle: usize = low + (high - low) / 2;
        if offsets_ns[middle] <= deadline_ns {
            low = middle + 1;
        } else {
            high = middle;
        }
    }
    proof {
        lemma_shown_index(offsets_ns@, deadline_ns);
        match shown_index(offsets_ns@, deadline_ns) {
            Some(index) => {
                assert(offsets_ns@[index] <= deadline_ns);
                if low > 0 {
                    assert(offsets_ns@[low - 1] <= deadline_ns);
                }
            },
            None => {
                if low > 0 {
                    assert(offsets_ns@[low - 1] <= deadline_ns);
                }
            },
        }
    }
    low.checked_sub(1)
}

/// How many frames before the deadline's frame can be let go.
pub open spec fn surplus_frames(offsets: Seq<u64>, deadline_ns: u64) -> int {
    match shown_index(offsets, deadline_ns) {
        Some(index) => index,
        None => 0,
    }
}

/// Counts the frames before the one that is shown at the deadline.
pub fn floor_anchor_eviction_count(offsets_ns: &[u64], deadline_ns: u64) -> (count: usize)
    requires
        sorted(offsets_ns@),
    ensures
        count == surplus_frames(offsets_ns@, deadline_ns),
        offsets_ns@.len() > 0 ==> count < offsets_ns@.len(),
        offsets_ns@.len() == 0 ==> count == 0,
{
    match frame_index_at_deadline(offsets_ns, deadline_ns) {
        Some(index) => index,
        None => 0,
    }
}

/// Counts the frames that a source lets go; a pinned source lets none go.
pub fn source_eviction_count(offsets_ns: &[u64], pinned_for_stinger: bool, deadline_ns: u64) -> (count:
    usize)
    requires
        sorted(offsets_ns@),
    ensures
        count == (if pinned_for_stinger {
            0
        } else {
            surplus_frames(offsets_ns@, deadline_ns)
        }),
        offsets_ns@.len() > 0 ==> count < offsets_ns@.len(),
        offsets_ns@.len() == 0 ==> count == 0,
{
    if pinned_for_stinger {
        0
    } else {
        floor_anchor_eviction_count(offsets_ns, deadline_ns)
    }
}

/// Whether a source has ended or is known up to the deadline.
pub open spec fn covers(latest_offset_ns: Option<u64>, end_of_stream: bool, deadline_ns: u64) -> bool {
    end_of_stream || (latest_offset_ns matches Some(latest) && latest >= deadline_ns)
}

/// Tells whether a source has ended or is known up to the deadline.
pub fn source_covers_deadline(
    latest_offset_ns: Option<u64>,
    end_of_stream: bool,
    deadline_ns: u64,
) -> (covered: bool)
    ensures
        covered == covers(latest_offset_ns, end_of_stream, deadline_ns),
{
    end_of_stream || match latest_offset_ns {
        Some(latest) => latest >= deadline_ns,
        None => false,
    }
}

/// How many frames the next refill asks for: none while one is in flight, after the
/// end, above the watermark or with a full ring; else as many as fit the ring, one
/// page and the budget.
pub open spec fn refill_frames(
    retained_frames: nat,
    in_flight: bool,
    end_of_stream: bool,
    maximum_frames: u32,
    budget_frames: u64,
) -> nat {
    if in_flight || end_of_stream || retained_frames > SOURCE_REFILL_LOW_WATERMARK
        || retained_frames >= maximum_frames {
        0
    } else {
        let ring = maximum_frames - retained_frames;
        let page = if ring < SOURCE_REFILL_MAX_PAGE {
            ring
        } else {
            SOURCE_REFILL_MAX_PAGE as int
        };
        (if page < budget_frames {
            page
        } else {
            budget_frames as int
        }) as nat
    }
}

/// Decides how many frames the next refill asks for, if any.
pub fn refill_page_size(
    retained_frames: usize,
    in_flight: bool,
    end_of_stream: bool,
    maximum_frames: u32,
    budget_frames: u64,
) -> (count: Option<u32>)
    ensures
        match count {
            Some(frames) => frames > 0 && frames == refill_frames(
                retained_frames as nat,
                in_flight,
                end_of_stream,
                maximum_frames,
                budget_frames,
            ),
            None => refill_frames(
                retained_frames as nat,
                in_flight,
                end_of_stream,
                maximum_frames,
                budget_frames,
            ) == 0,
        },
{
    if in_flight || end_of_stream || retained_frames > SOURCE_REFILL_LOW_WATERMARK
        || retained_frames as u64 >= maximum_frames as u64 {
        return None;
    }
    let ring: u32 = maximum_frames - retained_frames as u32;
    let page: u32 = if ring < SOURCE_REFILL_MAX_PAGE {
        ring
    } else {
        SOURCE_REFILL_MAX_PAGE
    };
    let count: u32 = if (page as u64) < budget_frames {
        page
    } else {
        budget_frames as u32
    };
    if count == 0 {
        None
    } else {
        Some(count)
    }
}

} // verus!
