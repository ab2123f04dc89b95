//! Bounded rings of video frames, one for each source.
use vstd::prelude::*;

use crate::model::{ClockDomainId, InputId, OutsideFailure};
use crate::ordered;
use crate::ordered::OrderedMap;
use crate::source;
use crate::source::{
    frame_index_at_deadline, source_covers_deadline, validate_live_seed_timing,
    validate_page_timing, validate_retained_frame_timing, validate_source_layouts, MediaTiming,
    NativeSourceError, NativeSourceLimits, NativeSourcePreflightError, VideoFrame,
};
use crate::sums;

verus! {

/// A frame that has been normalized into a texture.
#[derive(Clone, Copy, Debug, PartialEq, Eq, Structural)]
pub struct WorkingFrame {
    pub timing: MediaTiming,
    pub width: u32,
    pub height: u32,
    /// The number by which the caller finds the texture again.
    pub texture: u64,
}

/// Where the frames of a source come from.
#[derive(Clone, Copy, Debug, PartialEq, Eq, Structural)]
pub enum NativeVideoSourceKind {
    Decoded,
    Retained,
    Live,
}

/// How a decoder goes on.
#[derive(Clone, Copy, Debug, PartialEq, Eq, Structural)]
pub enum NativeDecodeOperation {
    Continue,
    Restart,
}

/// What a decoder is asked for.
#[derive(Clone, Copy, Debug, PartialEq, Eq, Structural)]
pub struct NativeDecodeRequest {
    pub input: InputId,
    pub count: u32,
    pub operation: NativeDecodeOperation,
}

/// The frames that a decoder hands over at once.
#[derive(Debug)]
pub struct DecodedVideoWindow {
    pub frames: Vec<VideoFrame>,
    pub end_of_stream: bool,
}

/// The ring of one source.
pub struct NativeVideoPrefix {
    pub frames: Vec<WorkingFrame>,
    pub offsets_ns: Vec<u64>,
    pub source_pts_origin: i64,
    pub last_source_pts: i64,
    pub last_sequence: u64,
    pub clock_domain: ClockDomainId,
    pub kind: NativeVideoSourceKind,
    pub end_of_stream: bool,
    pub in_flight: Option<NativeDecodeRequest>,
    pub available_for_stinger: bool,
    pub pinned_for_stinger: bool,
}

/// What the ring of one source holds.
#[verifier::ext_equal]
pub struct PrefixModel {
    pub frames: Seq<WorkingFrame>,
    pub offsets_ns: Seq<u64>,
    pub source_pts_origin: i64,
    pub last_source_pts: i64,
    pub last_sequence: u64,
    pub clock_domain: ClockDomainId,
    pub kind: NativeVideoSourceKind,
    pub end_of_stream: bool,
    pub in_flight: Option<NativeDecodeRequest>,
    pub available_for_stinger: bool,
    pub pinned_for_stinger: bool,
}

impl View for NativeVideoPrefix {
    type V = PrefixModel;

    open spec fn view(&self) -> PrefixModel {
        PrefixModel {
            frames: self.frames@,
            offsets_ns: self.offsets_ns@,
            source_pts_origin: self.source_pts_origin,
            last_source_pts: self.last_source_pts,
            last_sequence: self.last_sequence,
            clock_domain: self.clock_domain,
            kind: self.kind,
            end_of_stream: self.end_of_stream,
            in_flight: self.in_flight,
            available_for_stinger: self.available_for_stinger,
            pinned_for_stinger: self.pinned_for_stinger,
        }
    }
}

impl PrefixModel {
    /// How many frames the source holds or will hold once its request is answered.
    pub open spec fn claim(self) -> nat {
        match self.in_flight {
            None => self.frames.len(),
            Some(request) => match request.operation {
                NativeDecodeOperation::Continue => self.frames.len() + request.count as nat,
                NativeDecodeOperation::Restart => if self.frames.len() < request.count {
                    request.count as nat
                } else {
                    self.frames.len()
                },
            },
        }
    }

    /// Whether frames and offsets belong together and the ring keeps to its bound.
    pub open spec fn wf(self, input: InputId, limits: NativeSourceLimits) -> bool {
        &&& self.frames.len() == self.offsets_ns.len()
        &&& forall|i: int, j: int|
            0 <= i < j < self.offsets_ns.len() ==> #[trigger] self.offsets_ns[i]
                < #[trigger] self.offsets_ns[j]
        &&& self.offsets_ns.len() > 0 ==> self.offsets_ns.last() == self.last_source_pts
            - self.source_pts_origin
        &&& self.in_flight matches Some(request) ==> request.input == input && request.count > 0
            && self.kind == NativeVideoSourceKind::Decoded
        &&& self.claim() <= limits.max_video_frames_per_source
    }

    /// The frame that is shown at the deadline: of a live source the newest, of another
    /// the last one due, provided that the source is known up to the deadline.
    pub open spec fn frame_at(self, deadline_ns: u64) -> Option<WorkingFrame> {
        if self.kind == NativeVideoSourceKind::Live {
            if self.frames.len() > 0 {
                Some(self.frames.last())
            } else {
                None
            }
        } else if !source::covers(self.latest(), self.end_of_stream, deadline_ns) {
            None
        } else {
            match source::shown_index(self.offsets_ns, deadline_ns) {
                Some(index) => Some(self.frames[index]),
                None => None,
            }
        }
    }

    /// The offset of the newest frame.
    pub open spec fn latest(self) -> Option<u64> {
        if self.offsets_ns.len() > 0 {
            Some(self.offsets_ns.last())
        } else {
            None
        }
    }

    /// Whether the source can show a frame at the deadline and has ended or is known up to it.
    /// A live source shows its newest frame whatever the deadline, so it needs none from before.
    pub open spec fn is_ready(self, deadline_ns: u64) -> bool {
        &&& self.in_flight is None || self.in_flight->Some_0.operation
            != NativeDecodeOperation::Restart
        &&& self.offsets_ns.len() > 0
        &&& self.kind == NativeVideoSourceKind::Live || self.offsets_ns[0] <= deadline_ns
        &&& source::covers(self.latest(), self.end_of_stream, deadline_ns)
    }
}

/// Ascending offsets are sorted.
pub proof fn lemma_ascending_is_sorted(offsets: Seq<u64>)
    requires
        forall|i: int, j: int|
            0 <= i < j < offsets.len() ==> #[trigger] offsets[i] < #[trigger] offsets[j],
    ensures
        source::sorted(offsets),
{
    assert forall|i: int, j: int| 0 <= i <= j < offsets.len() implies #[trigger] offsets[i]
        <= #[trigger] offsets[j] by {
        if i < j {
            assert(offsets[i] < offsets[j]);
        }
    }
}

impl NativeVideoPrefix {
    /// The frame that is shown at the deadline.
    pub fn frame_at_deadline(&self, deadline_ns: u64) -> (frame: Option<WorkingFrame>)
        requires
            source::sorted(self.offsets_ns@),
            self.frames@.len() == self.offsets_ns@.len(),
        ensures
            frame == self@.frame_at(deadline_ns),
    {
        if self.kind == NativeVideoSourceKind::Live {
            if self.frames.len() > 0 {
                return Some(self.frames[self.frames.len() - 1]);
            }
            return None;
        }
        let latest: Option<u64> = if self.offsets_ns.len() > 0 {
            Some(self.offsets_ns[self.offsets_ns.len() - 1])
        } else {
            None
        };
        if !source_covers_deadline(latest, self.end_of_stream, deadline_ns) {
            return None;
        }
        match frame_index_at_deadline(self.offsets_ns.as_slice(), deadline_ns) {
            Some(index) => Some(self.frames[index]),
            None => None,
        }
    }

    /// Whether the source can show a frame at the deadline and has ended or is known up to it.
    pub fn covers_deadline(&self, deadline_ns: u64) -> (ready: bool)
        ensures
            ready == self@.is_ready(deadline_ns),
            ready ==> source::covers(self@.latest(), self@.end_of_stream, deadline_ns),
    {
        match self.in_flight {
            Some(request) => {
                if request.operation == NativeDecodeOperation::Restart {
                    return false;
                }
            },
            None => {},
        }
        if self.offsets_ns.len() == 0 {
            return false;
        }
        if self.kind != NativeVideoSourceKind::Live && self.offsets_ns[0] > deadline_ns {
            return false;
        }
        source_covers_deadline(
            Some(self.offsets_ns[self.offsets_ns.len() - 1]),
            self.end_of_stream,
            deadline_ns,
        )
    }
}

/// Bounded GPU-resident video prefixes keyed by full-width input identity.
/// Textures are retained once and selected without cloning or re-uploading.
pub struct NativeSourceRegistry {
    pub sources: OrderedMap<InputId, NativeVideoPrefix>,
    pub dimensions: Option<(u32, u32)>,
    pub retained_rgba16f_bytes: u64,
    pub limits: NativeSourceLimits,
}

/// What a registry holds.
#[verifier::ext_equal]
pub struct RegistryModel {
    pub sources: Seq<(InputId, PrefixModel)>,
    pub dimensions: Option<(u32, u32)>,
    pub retained_rgba16f_bytes: u64,
    pub limits: NativeSourceLimits,
}

/// What the rings of the sources hold.
pub open spec fn source_views(entries: Seq<(InputId, NativeVideoPrefix)>) -> Seq<
    (InputId, PrefixModel),
> {
    Seq::new(entries.len(), |i: int| (entries[i].0, entries[i].1@))
}

/// How many frames each source holds.
pub open spec fn frame_counts(sources: Seq<(InputId, PrefixModel)>) -> Seq<nat> {
    Seq::new(sources.len(), |i: int| sources[i].1.frames.len())
}

/// How many frames each source holds or will hold.
pub open spec fn claims(sources: Seq<(InputId, PrefixModel)>) -> Seq<nat> {
    Seq::new(sources.len(), |i: int| sources[i].1.claim())
}

impl View for NativeSourceRegistry {
    type V = RegistryModel;

    open spec fn view(&self) -> RegistryModel {
        RegistryModel {
            sources: source_views(self.sources.entries@),
            dimensions: self.dimensions,
            retained_rgba16f_bytes: self.retained_rgba16f_bytes,
            limits: self.limits,
        }
    }
}

impl RegistryModel {
    /// The bytes of one frame.
    pub open spec fn frame_bytes(self) -> nat {
        match self.dimensions {
            Some((width, height)) => source::picture_bytes(width, height),
            None => 0,
        }
    }

    /// Whether every ring is in order, the charge is that of the frames held, and the
    /// frames held or asked for keep to the byte limit.
    pub open spec fn wf(self) -> bool {
        &&& ordered::ascending(ordered::entry_keys(self.sources))
        &&& forall|i: int|
            0 <= i < self.sources.len() ==> (#[trigger] self.sources[i]).1.wf(
                self.sources[i].0,
                self.limits,
            )
        &&& match self.dimensions {
            None => sums::total(claims(self.sources)) == 0 && self.retained_rgba16f_bytes == 0,
            Some((width, height)) => {
                &&& width > 0
                &&& height > 0
                &&& self.frame_bytes() <= u64::MAX
                &&& self.retained_rgba16f_bytes == self.frame_bytes() * sums::total(
                    frame_counts(self.sources),
                )
                &&& self.frame_bytes() * sums::total(claims(self.sources))
                    <= self.limits.max_retained_rgba16f_bytes
                &&& forall|i: int|
                    0 <= i < self.sources.len() && (#[trigger] self.sources[i]).1.kind
                        == NativeVideoSourceKind::Live ==> self.sources[i].1.frames.len() == 1
            },
        }
    }

    /// The ring of the source `input`.
    pub open spec fn prefix(self, input: InputId) -> Option<PrefixModel> {
        let slot = ordered::lower_bound(ordered::entry_keys(self.sources), input);
        if slot < self.sources.len() && self.sources[slot].0 == input {
            Some(self.sources[slot].1)
        } else {
            None
        }
    }
}

impl NativeSourceRegistry {
    /// Whether the registry is in order.
    pub open spec fn wf(self) -> bool {
        self@.wf()
    }

    /// Registries in order keep their sources in order.
    pub proof fn lemma_sources_in_order(self)
        requires
            self.wf(),
        ensures
            self.sources.wf(),
            ordered::entry_keys(self@.sources) == self.sources.keys(),
    {
        assert(ordered::entry_keys(self@.sources) =~= self.sources.keys());
    }

    /// The place of the source `input`.
    pub fn position(&self, input: InputId) -> (position: Option<usize>)
        requires
            self.wf(),
        ensures
            match position {
                Some(i) => i < self.sources.entries@.len() && self.sources.entries@[i as int].0
                    == input && i == ordered::lower_bound(
                    ordered::entry_keys(self@.sources),
                    input,
                ) && self@.prefix(input) == Some(self.sources.entries@[i as int].1@),
                None => self@.prefix(input) is None,
            },
    {
        proof {
            self.lemma_sources_in_order();
            self.sources.lemma_entries();
            ordered::lemma_contains_at_lower_bound(self.sources.keys(), input);
            ordered::lemma_lower_bound(self.sources.keys(), input);
        }
        let position: Option<usize> = self.sources.position(input);
        proof {
            if position is None {
                let slot = ordered::lower_bound(self.sources.keys(), input);
                if slot < self@.sources.len() {
                    assert(self.sources.keys()[slot] == self@.sources[slot].0);
                }
            }
        }
        position
    }

    /// How many sources there are.
    pub fn len(&self) -> (count: usize)
        ensures
            count == self@.sources.len(),
    {
        self.sources.entries.len()
    }

    /// Whether there is no source.
    pub fn is_empty(&self) -> (empty: bool)
        ensures
            empty == (self@.sources.len() == 0),
    {
        self.sources.entries.len() == 0
    }

    /// The size that all the sources have.
    pub fn dimensions(&self) -> (dimensions: Option<(u32, u32)>)
        ensures
            dimensions == self.dimensions,
    {
        self.dimensions
    }

    /// The bytes of all the frames held.
    pub fn retained_rgba16f_bytes(&self) -> (bytes: u64)
        ensures
            bytes == self.retained_rgba16f_bytes,
    {
        self.retained_rgba16f_bytes
    }

    /// The inputs of the sources in ascending order.
    pub fn inputs(&self) -> (inputs: Vec<InputId>)
        ensures
            inputs@ == ordered::entry_keys(self@.sources),
    {
        let entries = &self.sources.entries;
        let mut inputs: Vec<InputId> = Vec::new();
        let mut i: usize = 0;
        while i < entries.len()
            invariant
                i <= entries@.len(),
                entries@ == self.sources.entries@,
                inputs@ == ordered::entry_keys(self@.sources).take(i as int),
            decreases entries@.len() - i,
        {
            inputs.push(entries[i].0);
            i = i + 1;
            assert(inputs@ =~= ordered::entry_keys(self@.sources).take(i as int));
        }
        assert(inputs@ =~= ordered::entry_keys(self@.sources));
        inputs
    }

    /// Returns selected source timing without exposing its texture.
    pub fn timing_at_deadline(&self, input: InputId, deadline_ns: u64) -> (timing: Option<
        MediaTiming,
    >)
        requires
            self.wf(),
        ensures
            timing == (match self@.prefix(input) {
                None => None,
                Some(prefix) => match prefix.frame_at(deadline_ns) {
                    None => None,
                    Some(frame) => Some(frame.timing),
                },
            }),
    {
        match self.position(input) {
            None => None,
            Some(i) => {
                proof {
                    assert(self@.sources[i as int].1.wf(input, self.limits));
                    lemma_ascending_is_sorted(self.sources.entries@[i as int].1.offsets_ns@);
                }
                match self.sources.entries[i].1.frame_at_deadline(deadline_ns) {
                    None => None,
                    Some(frame) => Some(frame.timing),
                }
            },
        }
    }

    /// Whether the input is a source.
    pub fn contains(&self, input: InputId) -> (found: bool)
        requires
            self.wf(),
        ensures
            found == (self@.prefix(input) is Some),
    {
        self.position(input).is_some()
    }
}

/// One source whose first frames have been checked but not yet uploaded.
#[derive(Debug)]
pub struct PreflightSource {
    pub input: InputId,
    pub frames: Vec<VideoFrame>,
    pub offsets_ns: Vec<u64>,
    pub source_pts_origin: i64,
    pub last_source_pts: i64,
    pub last_sequence: u64,
    pub end_of_stream: bool,
    pub clock_domain: ClockDomainId,
    pub kind: NativeVideoSourceKind,
}

/// What is known of a source whose first frames have been checked.
#[verifier::ext_equal]
pub struct PreflightModel {
    pub input: InputId,
    pub frames: Seq<VideoFrame>,
    pub offsets_ns: Seq<u64>,
    pub source_pts_origin: i64,
    pub last_source_pts: i64,
    pub last_sequence: u64,
    pub end_of_stream: bool,
    pub clock_domain: ClockDomainId,
    pub kind: NativeVideoSourceKind,
}

impl View for PreflightSource {
    type V = PreflightModel;

    open spec fn view(&self) -> PreflightModel {
        PreflightModel {
            input: self.input,
            frames: self.frames@,
            offsets_ns: self.offsets_ns@,
            source_pts_origin: self.source_pts_origin,
            last_source_pts: self.last_source_pts,
            last_sequence: self.last_sequence,
            end_of_stream: self.end_of_stream,
            clock_domain: self.clock_domain,
            kind: self.kind,
        }
    }
}

impl PreflightModel {
    /// Whether frames, offsets and last timestamp belong together.
    pub open spec fn wf(self) -> bool {
        &&& self.frames.len() == self.offsets_ns.len()
        &&& self.frames.len() > 0
        &&& forall|i: int, j: int|
            0 <= i < j < self.offsets_ns.len() ==> #[trigger] self.offsets_ns[i]
                < #[trigger] self.offsets_ns[j]
        &&& self.offsets_ns.last() == self.last_source_pts - self.source_pts_origin
        &&& self.kind == NativeVideoSourceKind::Live ==> self.frames.len() == 1
    }
}

impl PreflightSource {
    /// Whether frames, offsets and last timestamp belong together.
    pub open spec fn wf(self) -> bool {
        self@.wf()
    }
}

/// What is known of checked sources.
pub open spec fn ready_views(ready: Seq<PreflightSource>) -> Seq<PreflightModel> {
    Seq::new(ready.len(), |i: int| ready[i]@)
}

/// The uploaded frames of sources.
pub open spec fn uploaded_views(uploads: Seq<Vec<WorkingFrame>>) -> Seq<Seq<WorkingFrame>> {
    Seq::new(uploads.len(), |i: int| uploads[i]@)
}

/// Whether a decoder has handed over as many frames as it was asked for, or all that
/// there are.
pub open spec fn window_keeps_contract(count: nat, end_of_stream: bool, requested: u32) -> bool {
    0 < count <= requested && (end_of_stream || count == requested)
}

/// A local video whose first frames have been decoded, or why they are not taken.
pub open spec fn checked_local_video(
    input: InputId,
    window: Result<DecodedVideoWindow, OutsideFailure>,
    clock_domain: ClockDomainId,
    limits: NativeSourceLimits,
) -> Result<PreflightModel, NativeSourcePreflightError> {
    match window {
        Err(error) => Err(NativeSourcePreflightError::Decode { input, error }),
        Ok(window) => {
            let frames = window.frames@;
            let origin = frames[0].timing.presentation_ns;
            if !window_keeps_contract(
                frames.len(),
                window.end_of_stream,
                limits.max_video_frames_per_source,
            ) {
                Err(
                    NativeSourcePreflightError::DecodeContract {
                        input,
                        video_frames: frames.len() as usize,
                        audio_blocks: 0,
                    },
                )
            } else if !source::is_page_timeline(frames, origin, None, 0, clock_domain) {
                Err(NativeSourcePreflightError::Source(NativeSourceError::InvalidTimeline { input }))
            } else {
                Ok(
                    PreflightModel {
                        input,
                        frames,
                        offsets_ns: source::offsets_from(source::frame_timestamps(frames), origin),
                        source_pts_origin: origin,
                        last_source_pts: frames.last().timing.presentation_ns,
                        last_sequence: frames.last().timing.sequence,
                        end_of_stream: window.end_of_stream,
                        clock_domain,
                        kind: NativeVideoSourceKind::Decoded,
                    },
                )
            }
        },
    }
}

/// Checks the first frames of a local video.
pub fn preflight_local_video(
    input: InputId,
    window: Result<DecodedVideoWindow, OutsideFailure>,
    clock_domain: ClockDomainId,
    limits: NativeSourceLimits,
) -> (checked: Result<PreflightSource, NativeSourcePreflightError>)
    ensures
        match checked {
            Ok(ready) => ready.wf() && checked_local_video(input, window, clock_domain, limits)
                == Ok::<PreflightModel, NativeSourcePreflightError>(ready@),
            Err(error) => checked_local_video(input, window, clock_domain, limits) == Err::<
                PreflightModel,
                NativeSourcePreflightError,
            >(error),
        },
{
    let window: DecodedVideoWindow = match window {
        Err(error) => {
            return Err(NativeSourcePreflightError::Decode { input, error });
        },
        Ok(window) => window,
    };
    let video_frames: usize = window.frames.len();
    if video_frames == 0 || video_frames as u64 > limits.max_video_frames_per_source as u64 || (
    !window.end_of_stream && video_frames as u64 != limits.max_video_frames_per_source as u64) {
        return Err(
            NativeSourcePreflightError::DecodeContract { input, video_frames, audio_blocks: 0 },
        );
    }
    let source_pts_origin: i64 = window.frames[0].timing.presentation_ns;
    match validate_page_timing(
        input,
        window.frames.as_slice(),
        source_pts_origin,
        None,
        0,
        clock_domain,
    ) {
        Err(error) => Err(NativeSourcePreflightError::Source(error)),
        Ok((offsets_ns, last_source_pts, last_sequence)) => {
            proof {
                lemma_offsets_ascend(window.frames@, source_pts_origin, None, 0, clock_domain);
            }
            let ready: PreflightSource = PreflightSource {
                input,
                frames: window.frames,
                offsets_ns,
                source_pts_origin,
                last_source_pts,
                last_sequence,
                end_of_stream: window.end_of_stream,
                clock_domain,
                kind: NativeVideoSourceKind::Decoded,
            };
            assert(ready.wf());
            Ok(ready)
        },
    }
}

/// The offsets of a timeline ascend and end at the last timestamp.
pub proof fn lemma_offsets_ascend(
    frames: Seq<VideoFrame>,
    origin: i64,
    previous: Option<i64>,
    expected_sequence: u64,
    clock_domain: ClockDomainId,
)
    requires
        source::is_page_timeline(frames, origin, previous, expected_sequence, clock_domain),
    ensures
        ({
            let offsets = source::offsets_from(source::frame_timestamps(frames), origin);
            &&& offsets.len() == frames.len()
            &&& frames.len() > 0
            &&& forall|i: int, j: int|
                0 <= i < j < offsets.len() ==> #[trigger] offsets[i] < #[trigger] offsets[j]
            &&& offsets.last() == frames.last().timing.presentation_ns - origin
            &&& previous is Some ==> previous->Some_0 - origin < offsets[0]
        }),
{
    let timestamps = source::frame_timestamps(frames);
    let offsets = source::offsets_from(timestamps, origin);
    assert forall|i: int| 0 <= i < offsets.len() implies #[trigger] offsets[i] == timestamps[i]
        - origin by {
        assert(0 <= timestamps[i] - origin <= u64::MAX);
    }
    assert forall|i: int, j: int| 0 <= i < j < offsets.len() implies #[trigger] offsets[i]
        < #[trigger] offsets[j] by {
        assert(timestamps[i] < timestamps[j]);
    }
    assert(offsets[offsets.len() - 1] == timestamps[offsets.len() - 1] - origin);
    assert(offsets[0] == timestamps[0] - origin);
}

/// A source of one frame.
pub open spec fn single_frame(
    input: InputId,
    frame: VideoFrame,
    clock_domain: ClockDomainId,
    kind: NativeVideoSourceKind,
) -> PreflightModel {
    PreflightModel {
        input,
        frames: seq![frame],
        offsets_ns: seq![0u64],
        source_pts_origin: frame.timing.presentation_ns,
        last_source_pts: frame.timing.presentation_ns,
        last_sequence: frame.timing.sequence,
        end_of_stream: kind == NativeVideoSourceKind::Retained,
        clock_domain,
        kind,
    }
}

/// A source of a frame that is shown for good, or why the frame is not taken.
pub open spec fn checked_retained_frame(
    input: InputId,
    frame: VideoFrame,
    clock_domain: ClockDomainId,
) -> Result<PreflightModel, NativeSourcePreflightError> {
    if frame.timing.duration_ns != 0 && frame.timing.clock_domain == clock_domain
        && frame.timing.sequence == 0 {
        Ok(single_frame(input, frame, clock_domain, NativeVideoSourceKind::Retained))
    } else {
        Err(NativeSourcePreflightError::Source(NativeSourceError::InvalidTimeline { input }))
    }
}

/// Checks a frame that is shown for good.
pub fn preflight_retained_frame(input: InputId, frame: VideoFrame, clock_domain: ClockDomainId) -> (checked:
    Result<PreflightSource, NativeSourcePreflightError>)
    ensures
        match checked {
            Ok(ready) => ready.wf() && checked_retained_frame(input, frame, clock_domain) == Ok::<
                PreflightModel,
                NativeSourcePreflightError,
            >(ready@),
            Err(error) => checked_retained_frame(input, frame, clock_domain) == Err::<
                PreflightModel,
                NativeSourcePreflightError,
            >(error),
        },
{
    match validate_retained_frame_timing(input, &frame, clock_domain) {
        Err(error) => Err(NativeSourcePreflightError::Source(error)),
        Ok((offsets_ns, last_source_pts, last_sequence)) => {
            let mut frames: Vec<VideoFrame> = Vec::new();
            frames.push(frame);
            assert(frames@ =~= seq![frame]);
            let ready: PreflightSource = PreflightSource {
                input,
                frames,
                offsets_ns,
                source_pts_origin: frame.timing.presentation_ns,
                last_source_pts,
                last_sequence,
                end_of_stream: true,
                clock_domain,
                kind: NativeVideoSourceKind::Retained,
            };
            assert(ready@ =~= single_frame(
                input,
                frame,
                clock_domain,
                NativeVideoSourceKind::Retained,
            ));
            Ok(ready)
        },
    }
}

/// A live source that begins with a frame, or why the frame is not taken. It keeps the clock of
/// its frames.
pub open spec fn checked_live_frame(input: InputId, frame: VideoFrame) -> Result<
    PreflightModel,
    NativeSourcePreflightError,
> {
    if frame.timing.duration_ns != 0 {
        Ok(single_frame(input, frame, frame.timing.clock_domain, NativeVideoSourceKind::Live))
    } else {
        Err(NativeSourcePreflightError::Source(NativeSourceError::InvalidTimeline { input }))
    }
}

/// Checks the first frame of a live source.
pub fn preflight_live_frame(input: InputId, frame: VideoFrame) -> (checked: Result<
    PreflightSource,
    NativeSourcePreflightError,
>)
    ensures
        match checked {
            Ok(ready) => ready.wf() && checked_live_frame(input, frame) == Ok::<
                PreflightModel,
                NativeSourcePreflightError,
            >(ready@),
            Err(error) => checked_live_frame(input, frame) == Err::<
                PreflightModel,
                NativeSourcePreflightError,
            >(error),
        },
{
    match validate_live_seed_timing(input, &frame) {
        Err(error) => Err(NativeSourcePreflightError::Source(error)),
        Ok((offsets_ns, last_source_pts, last_sequence, clock_domain)) => {
            let mut frames: Vec<VideoFrame> = Vec::new();
            frames.push(frame);
            assert(frames@ =~= seq![frame]);
            let ready: PreflightSource = PreflightSource {
                input,
                frames,
                offsets_ns,
                source_pts_origin: last_source_pts,
                last_source_pts,
                last_sequence,
                end_of_stream: false,
                clock_domain,
                kind: NativeVideoSourceKind::Live,
            };
            assert(ready@ =~= single_frame(
                input,
                frame,
                clock_domain,
                NativeVideoSourceKind::Live,
            ));
            Ok(ready)
        },
    }
}

/// The first frame whose size is not the expected one.
pub open spec fn first_misfit(frames: Seq<VideoFrame>, width: u32, height: u32) -> Option<VideoFrame>
    decreases frames.len(),
{
    if frames.len() == 0 {
        None
    } else {
        match first_misfit(frames.drop_last(), width, height) {
            Some(frame) => Some(frame),
            None => if frames.last().width != width || frames.last().height != height {
                Some(frames.last())
            } else {
                None
            },
        }
    }
}

proof fn lemma_misfit_found_early(frames: Seq<VideoFrame>, width: u32, height: u32, count: int)
    requires
        0 <= count <= frames.len(),
        first_misfit(frames.take(count), width, height) is Some,
    ensures
        first_misfit(frames, width, height) == first_misfit(frames.take(count), width, height),
    decreases frames.len() - count,
{
    if count < frames.len() {
        assert(frames.take(count + 1).drop_last() =~= frames.take(count));
        lemma_misfit_found_early(frames, width, height, count + 1);
    } else {
        assert(frames.take(count) =~= frames);
    }
}

/// The failure of a frame whose size is not the expected one.
pub open spec fn misfit(input: InputId, width: u32, height: u32, frame: VideoFrame) -> NativeSourceError {
    NativeSourceError::DimensionMismatch {
        input,
        expected_width: width,
        expected_height: height,
        actual_width: frame.width,
        actual_height: frame.height,
    }
}

/// Checks that every frame has the expected size.
pub fn check_frame_sizes(input: InputId, frames: &Vec<VideoFrame>, width: u32, height: u32) -> (checked:
    Result<(), NativeSourceError>)
    ensures
        match first_misfit(frames@, width, height) {
            None => checked is Ok,
            Some(frame) => checked == Err::<(), NativeSourceError>(
                misfit(input, width, height, frame),
            ),
        },
{
    assert(frames@.take(0) =~= Seq::<VideoFrame>::empty());
    let mut i: usize = 0;
    while i < frames.len()
        invariant
            i <= frames@.len(),
            first_misfit(frames@.take(i as int), width, height) is None,
        decreases frames@.len() - i,
    {
        proof {
            assert(frames@.take(i + 1).drop_last() =~= frames@.take(i as int));
            assert(frames@.take(i + 1).last() == frames@[i as int]);
        }
        if frames[i].width != width || frames[i].height != height {
            proof {
                lemma_misfit_found_early(frames@, width, height, i + 1);
            }
            return Err(
                NativeSourceError::DimensionMismatch {
                    input,
                    expected_width: width,
                    expected_height: height,
                    actual_width: frames[i].width,
                    actual_height: frames[i].height,
                },
            );
        }
        i = i + 1;
    }
    assert(frames@.take(i as int) =~= frames@);
    Ok(())
}

/// The layout of one checked source, or why its frames differ in size.
pub open spec fn source_layout(ready: PreflightModel) -> Result<
    (InputId, u32, u32, usize),
    NativeSourceError,
> {
    let (width, height) = (ready.frames[0].width, ready.frames[0].height);
    match first_misfit(ready.frames, width, height) {
        Some(frame) => Err(misfit(ready.input, width, height, frame)),
        None => Ok((ready.input, width, height, ready.frames.len() as usize)),
    }
}

/// The layouts of the checked sources, or the failure of the first without one.
pub open spec fn source_layouts(ready: Seq<PreflightModel>) -> Result<
    Seq<(InputId, u32, u32, usize)>,
    NativeSourceError,
>
    decreases ready.len(),
{
    if ready.len() == 0 {
        Ok(Seq::empty())
    } else {
        match source_layouts(ready.drop_last()) {
            Err(error) => Err(error),
            Ok(layouts) => match source_layout(ready.last()) {
                Err(error) => Err(error),
                Ok(layout) => Ok(layouts.push(layout)),
            },
        }
    }
}

proof fn lemma_layouts_fail_early(ready: Seq<PreflightModel>, count: int)
    requires
        0 <= count <= ready.len(),
        source_layouts(ready.take(count)) is Err,
    ensures
        source_layouts(ready) == source_layouts(ready.take(count)),
    decreases ready.len() - count,
{
    if count < ready.len() {
        assert(ready.take(count + 1).drop_last() =~= ready.take(count));
        lemma_layouts_fail_early(ready, count + 1);
    } else {
        assert(ready.take(count) =~= ready);
    }
}

/// The verdict on the checked sources taken together, before any upload.
pub open spec fn admitted(ready: Seq<PreflightModel>, limits: NativeSourceLimits) -> Result<
    (Option<(u32, u32)>, u64),
    NativeSourceError,
> {
    match source_layouts(ready) {
        Err(error) => Err(error),
        Ok(layouts) => source::checked_layouts(layouts, limits),
    }
}

/// Checks the sources together: common size, frame counts, distinct inputs and bytes.
pub fn admit_sources(ready: &Vec<PreflightSource>, limits: NativeSourceLimits) -> (checked: Result<
    (Option<(u32, u32)>, u64),
    NativeSourceError,
>)
    requires
        forall|i: int| 0 <= i < ready@.len() ==> (#[trigger] ready@[i]).wf(),
    ensures
        checked == admitted(ready_views(ready@), limits),
{
    let ghost views = ready_views(ready@);
    let mut layouts: Vec<(InputId, u32, u32, usize)> = Vec::new();
    assert(views.take(0) =~= Seq::<PreflightModel>::empty());
    assert(layouts@ =~= Seq::<(InputId, u32, u32, usize)>::empty());
    let mut i: usize = 0;
    while i < ready.len()
        invariant
            i <= ready@.len(),
            views == ready_views(ready@),
            forall|k: int| 0 <= k < ready@.len() ==> (#[trigger] ready@[k]).wf(),
            source_layouts(views.take(i as int)) == Ok::<
                Seq<(InputId, u32, u32, usize)>,
                NativeSourceError,
            >(layouts@),
        decreases ready@.len() - i,
    {
        proof {
            assert(views.take(i + 1).drop_last() =~= views.take(i as int));
            assert(views.take(i + 1).last() == ready@[i as int]@);
            assert(ready@[i as int].wf());
            if source_layouts(views.take(i + 1)) is Err {
                lemma_layouts_fail_early(views, i + 1);
            }
        }
        let input: InputId = ready[i].input;
        let width: u32 = ready[i].frames[0].width;
        let height: u32 = ready[i].frames[0].height;
        match check_frame_sizes(input, &ready[i].frames, width, height) {
            Err(error) => {
                return Err(error);
            },
            Ok(_) => {},
        }
        layouts.push((input, width, height, ready[i].frames.len()));
        i = i + 1;
    }
    assert(views.take(i as int) =~= views);
    validate_source_layouts(layouts.as_slice(), limits)
}

/// The ring that a checked source starts with once its frames are uploaded.
pub open spec fn first_prefix(ready: PreflightModel, frames: Seq<WorkingFrame>) -> PrefixModel {
    PrefixModel {
        frames,
        offsets_ns: ready.offsets_ns,
        source_pts_origin: ready.source_pts_origin,
        last_source_pts: ready.last_source_pts,
        last_sequence: ready.last_sequence,
        clock_domain: ready.clock_domain,
        kind: ready.kind,
        end_of_stream: ready.end_of_stream,
        in_flight: None,
        available_for_stinger: false,
        pinned_for_stinger: false,
    }
}

/// The rings of the checked sources, in ascending order of their inputs.
pub open spec fn first_prefixes(
    ready: Seq<PreflightModel>,
    uploads: Seq<Seq<WorkingFrame>>,
) -> Seq<(InputId, PrefixModel)>
    decreases ready.len(),
{
    if ready.len() == 0 {
        Seq::empty()
    } else {
        ordered::with_entry(
            first_prefixes(ready.drop_last(), uploads),
            ready.last().input,
            first_prefix(ready.last(), uploads[ready.len() - 1]),
        )
    }
}

proof fn lemma_prefix_inputs(
    ready: Seq<PreflightModel>,
    uploads: Seq<Seq<WorkingFrame>>,
    input: InputId,
)
    ensures
        ordered::ascending(ordered::entry_keys(first_prefixes(ready, uploads))),
        ordered::entry_keys(first_prefixes(ready, uploads)).contains(input) <==> exists|k: int|
            0 <= k < ready.len() && (#[trigger] ready[k]).input == input,
    decreases ready.len(),
{
    if ready.len() > 0 {
        let init = ready.drop_last();
        lemma_prefix_inputs(init, uploads, input);
        let before = first_prefixes(init, uploads);
        let last = ready[ready.len() - 1];
        ordered::lemma_with_entry(
            before,
            last.input,
            first_prefix(last, uploads[ready.len() - 1]),
        );
        ordered::lemma_with_key(ordered::entry_keys(before), last.input);
        if exists|k: int| 0 <= k < init.len() && (#[trigger] init[k]).input == input {
            let k = choose|k: int| 0 <= k < init.len() && (#[trigger] init[k]).input == input;
            assert(ready[k].input == input);
        }
        if exists|k: int| 0 <= k < ready.len() && (#[trigger] ready[k]).input == input {
            let k = choose|k: int| 0 <= k < ready.len() && (#[trigger] ready[k]).input == input;
            if k < init.len() {
                assert(init[k].input == input);
            }
        }
        if last.input == input {
            assert(ready[ready.len() - 1].input == input);
        }
    }
}

proof fn lemma_layouts_name_inputs(ready: Seq<PreflightModel>, k: int)
    requires
        source_layouts(ready) is Ok,
        0 <= k < ready.len(),
    ensures
        source_layouts(ready)->Ok_0.len() == ready.len(),
        source_layouts(ready)->Ok_0[k].0 == ready[k].input,
    decreases ready.len(),
{
    let init = ready.drop_last();
    if k < init.len() {
        lemma_layouts_name_inputs(init, k);
    } else if init.len() > 0 {
        lemma_layouts_name_inputs(init, 0);
    }
}

proof fn lemma_layouts_len(ready: Seq<PreflightModel>)
    ensures
        source_layouts(ready) matches Ok(layouts) ==> layouts.len() == ready.len(),
    decreases ready.len(),
{
    if ready.len() > 0 {
        lemma_layouts_len(ready.drop_last());
    }
}

/// Admitted sources make a registry in order.
pub proof fn lemma_first_registry(
    ready: Seq<PreflightModel>,
    uploads: Seq<Seq<WorkingFrame>>,
    limits: NativeSourceLimits,
)
    requires
        forall|i: int| 0 <= i < ready.len() ==> (#[trigger] ready[i]).wf(),
        forall|i: int|
            #![trigger ready[i]]
            0 <= i < ready.len() ==> uploads[i].len() == ready[i].frames.len()
                && ready[i].frames[0].wf() && ready[i].frames.len() <= usize::MAX,
        source_layouts(ready) is Ok,
        source::first_duplicate(source::layout_inputs(source_layouts(ready)->Ok_0)) is None,
        source::charged_sources(source_layouts(ready)->Ok_0, limits) is Ok,
    ensures
        (RegistryModel {
            sources: first_prefixes(ready, uploads),
            dimensions: source::charged_sources(source_layouts(ready)->Ok_0, limits)->Ok_0.0,
            retained_rgba16f_bytes: source::charged_sources(
                source_layouts(ready)->Ok_0,
                limits,
            )->Ok_0.1,
            limits,
        }).wf(),
        claims(first_prefixes(ready, uploads)) == frame_counts(first_prefixes(ready, uploads)),
        ready.len() == 0 <==> source::charged_sources(
            source_layouts(ready)->Ok_0,
            limits,
        )->Ok_0.0 is None,
        forall|i: int|
            0 <= i < first_prefixes(ready, uploads).len() ==> (#[trigger] first_prefixes(
                ready,
                uploads,
            )[i]).1.in_flight is None,
    decreases ready.len(),
{
    let layouts = source_layouts(ready)->Ok_0;
    let sources = first_prefixes(ready, uploads);
    if ready.len() == 0 {
        assert(claims(sources) =~= Seq::<nat>::empty());
        assert(frame_counts(sources) =~= Seq::<nat>::empty());
    } else {
        let init = ready.drop_last();
        let last = ready[ready.len() - 1];
        let upload = uploads[ready.len() - 1];
        let before_layouts = source_layouts(init)->Ok_0;
        assert(layouts.drop_last() =~= before_layouts);
        assert(source::layout_inputs(layouts).drop_last() =~= source::layout_inputs(
            before_layouts,
        ));
        assert forall|i: int|
            #![trigger init[i]]
            0 <= i < init.len() implies init[i].wf() && uploads[i].len() == init[i].frames.len()
            && init[i].frames[0].wf() && init[i].frames.len() <= usize::MAX by {
            assert(init[i] == ready[i]);
        }
        lemma_first_registry(init, uploads, limits);
        let before = first_prefixes(init, uploads);
        let (dimensions, retained) = source::charged_sources(before_layouts, limits)->Ok_0;
        let (width, height) = (last.frames[0].width, last.frames[0].height);
        let count = last.frames.len();
        assert(layouts.last() == (last.input, width, height, count as usize));
        let added = first_prefix(last, upload);
        let keys = ordered::entry_keys(before);
        lemma_prefix_inputs(init, uploads, last.input);
        assert(!keys.contains(last.input)) by {
            if keys.contains(last.input) {
                let k = choose|k: int| 0 <= k < init.len() && (#[trigger] init[k]).input
                    == last.input;
                lemma_layouts_name_inputs(init, k);
                assert(source::layout_inputs(before_layouts)[k] == last.input);
                assert(source::layout_inputs(before_layouts).contains(last.input));
                assert(source::layout_inputs(layouts).last() == last.input);
            }
        }
        ordered::lemma_with_entry(before, last.input, added);
        ordered::lemma_contains_at_lower_bound(keys, last.input);
        ordered::lemma_lower_bound(keys, last.input);
        let slot = ordered::lower_bound(keys, last.input);
        if slot < before.len() {
            assert(keys[slot] == before[slot].0);
        }
        assert(sources == before.insert(slot, (last.input, added)));
        assert(added.wf(last.input, limits));
        assert forall|i: int| 0 <= i < sources.len() implies (#[trigger] sources[i]).1.wf(
            sources[i].0,
            limits,
        ) && sources[i].1.in_flight is None && (sources[i].1.kind == NativeVideoSourceKind::Live
            ==> sources[i].1.frames.len() == 1) by {
            if i < slot {
                assert(sources[i] == before[i]);
            } else if i > slot {
                assert(sources[i] == before[i - 1]);
            }
        }
        assert(frame_counts(sources) =~= frame_counts(before).insert(slot, count));
        assert(claims(sources) =~= frame_counts(sources));
        sums::lemma_total_insert(frame_counts(before), slot, count);
        let frame = source::picture_bytes(width, height);
        let old_total = sums::total(frame_counts(before));
        if init.len() == 0 {
            assert(frame_counts(before) =~= Seq::<nat>::empty());
            assert(frame * (0 + count) == 0 + frame * count) by (nonlinear_arith);
        } else {
            assert(dimensions == Some((width, height)));
            assert(frame * (old_total + count) == frame * old_total + frame * count)
                by (nonlinear_arith);
        }
    }
}

/// The registry of admitted sources with their uploaded frames.
pub open spec fn first_registry(
    ready: Seq<PreflightModel>,
    uploads: Seq<Seq<WorkingFrame>>,
    admission: (Option<(u32, u32)>, u64),
    limits: NativeSourceLimits,
) -> RegistryModel {
    RegistryModel {
        sources: first_prefixes(ready, uploads),
        dimensions: admission.0,
        retained_rgba16f_bytes: admission.1,
        limits,
    }
}

impl NativeSourceRegistry {
    /// Puts the admitted sources together with their uploaded frames.
    pub fn from_preflight(
        ready: Vec<PreflightSource>,
        uploads: Vec<Vec<WorkingFrame>>,
        admission: (Option<(u32, u32)>, u64),
        limits: NativeSourceLimits,
    ) -> (registry: Self)
        requires
            forall|i: int| 0 <= i < ready@.len() ==> (#[trigger] ready@[i]).wf(),
            uploads@.len() == ready@.len(),
            forall|i: int|
                #![trigger ready@[i]]
                0 <= i < ready@.len() ==> uploads@[i]@.len() == ready@[i].frames@.len()
                    && ready@[i].frames@[0].wf(),
            admitted(ready_views(ready@), limits) == Ok::<(Option<(u32, u32)>, u64), NativeSourceError>(
                admission,
            ),
        ensures
            registry.wf(),
            registry@ == first_registry(
                ready_views(ready@),
                uploaded_views(uploads@),
                admission,
                limits,
            ),
    {
        let ghost all_ready = ready@;
        let ghost all_uploads = uploads@;
        let ghost views = ready_views(all_ready);
        let ghost uploaded_frames = uploaded_views(all_uploads);
        let mut ready = ready;
        let mut uploads = uploads;
        let mut sources: OrderedMap<InputId, NativeVideoPrefix> = OrderedMap::new();
        let ghost mut done: int = 0;
        assert(views.take(0) =~= Seq::<PreflightModel>::empty());
        assert(source_views(sources.entries@) =~= Seq::<(InputId, PrefixModel)>::empty());
        assert(all_ready.skip(0) =~= all_ready);
        assert(all_uploads.skip(0) =~= all_uploads);
        while ready.len() > 0
            invariant
                0 <= done <= all_ready.len(),
                views == ready_views(all_ready),
                uploaded_frames == uploaded_views(all_uploads),
                all_uploads.len() == all_ready.len(),
                ready@ == all_ready.skip(done),
                uploads@ == all_uploads.skip(done),
                sources.wf(),
                source_views(sources.entries@) == first_prefixes(views.take(done), uploaded_frames),
            decreases ready@.len(),
        {
            proof {
                assert(views.take(done + 1).drop_last() =~= views.take(done));
                assert(views.take(done + 1).last() == all_ready[done]@);
                assert(uploaded_frames[done] == all_uploads[done]@);
                assert(ready@[0] == all_ready[done]);
                assert(uploads@[0] == all_uploads[done]);
            }
            let source: PreflightSource = ready.remove(0);
            let frames: Vec<WorkingFrame> = uploads.remove(0);
            let ghost ready_source = source;
            let ghost uploaded = frames@;
            let ghost before = sources.entries@;
            let input: InputId = source.input;
            let prefix: NativeVideoPrefix = NativeVideoPrefix {
                frames,
                offsets_ns: source.offsets_ns,
                source_pts_origin: source.source_pts_origin,
                last_source_pts: source.last_source_pts,
                last_sequence: source.last_sequence,
                clock_domain: source.clock_domain,
                kind: source.kind,
                end_of_stream: source.end_of_stream,
                in_flight: None,
                available_for_stinger: false,
                pinned_for_stinger: false,
            };
            let ghost view = prefix@;
            assert(view == first_prefix(ready_source@, uploaded));
            sources.insert(input, prefix);
            proof {
                assert(ordered::entry_keys(source_views(before)) =~= ordered::entry_keys(before));
                ordered::lemma_lower_bound(ordered::entry_keys(before), input);
                assert(source_views(sources.entries@) =~= ordered::with_entry(
                    source_views(before),
                    input,
                    view,
                ));
                done = done + 1;
                assert(ready@ =~= all_ready.skip(done));
                assert(uploads@ =~= all_uploads.skip(done));
            }
        }
        proof {
            assert(done == all_ready.len());
            assert(views.take(done) =~= views);
            lemma_layouts_len(views);
            assert forall|i: int| 0 <= i < views.len() implies (#[trigger] views[i]).wf()
                && uploaded_frames[i].len() == views[i].frames.len() && views[i].frames[0].wf()
                && views[i].frames.len() <= usize::MAX by {
                assert(all_ready[i].wf());
                assert(all_ready[i].frames.len() <= usize::MAX);
            }
            lemma_first_registry(views, uploaded_frames, limits);
        }
        NativeSourceRegistry {
            sources,
            dimensions: admission.0,
            retained_rgba16f_bytes: admission.1,
            limits,
        }
    }
}

} // verus!
