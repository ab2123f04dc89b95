//! Keeps the rings of video sources filled as playback goes on.
use vstd::prelude::*;

use crate::model::{InputId, OutsideFailure};
use crate::ordered;
use crate::ordered::Ranked;
use crate::source;
use crate::source::{
    refill_page_size, source_eviction_count, validate_live_update_timing, validate_page_timing,
    NativeSourceError, NativeSourceLimits, VideoFrame,
};
use crate::source_registry;
use crate::source_registry::{
    check_frame_sizes, DecodedVideoWindow, NativeDecodeOperation, NativeDecodeRequest,
    NativeSourceRegistry, NativeVideoPrefix, NativeVideoSourceKind, PrefixModel, RegistryModel,
    WorkingFrame,
};
use crate::sums;

verus! {

/// Fatal failures while pumping bounded native source playback.
#[derive(Clone, Copy, Debug, PartialEq, Eq, Structural)]
pub enum NativeSourcePlaybackError {
    Source(NativeSourceError),
    Decode { input: InputId, error: OutsideFailure },
    DecodeContract { input: InputId },
    Normalize { input: InputId, error: OutsideFailure },
    WorkerDisconnected,
    WorkerPanicked,
    WorkerQueueFull,
    SourceNotLive { input: InputId },
    MissingSource { input: InputId },
    StingerSourceNotFullyPreloaded { input: InputId, retained_frames: usize, maximum_frames: u32 },
    StingerSourceIsLive { input: InputId },
    Failed,
}

/// What a decoder answers to a request.
#[derive(Debug)]
pub struct NativeDecodeResult {
    pub request: NativeDecodeRequest,
    pub window: Result<DecodedVideoWindow, OutsideFailure>,
}

/// The frames and the end mark of an answer, or the decoder's failure.
pub open spec fn answer(result: NativeDecodeResult) -> Result<
    (Seq<VideoFrame>, bool),
    OutsideFailure,
> {
    match result.window {
        Ok(window) => Ok((window.frames@, window.end_of_stream)),
        Err(error) => Err(error),
    }
}

/// A page of frames that may be uploaded.
#[derive(Debug)]
pub struct PagePlan {
    pub restarting: bool,
    pub offsets_ns: Vec<u64>,
    pub source_pts_origin: i64,
    pub last_source_pts: i64,
    pub last_sequence: u64,
    pub end_of_stream: bool,
    pub required_bytes: u64,
}

/// What an answer allows.
#[derive(Debug)]
pub enum PageVerdict {
    /// The source has ended and brought no further frame.
    EndOfStream,
    /// The frames may be uploaded.
    Upload(PagePlan),
}

/// What a page of frames that may be uploaded holds.
#[verifier::ext_equal]
pub struct PageModel {
    pub restarting: bool,
    pub offsets_ns: Seq<u64>,
    pub source_pts_origin: i64,
    pub last_source_pts: i64,
    pub last_sequence: u64,
    pub end_of_stream: bool,
    pub required_bytes: u64,
}

/// What an answer allows, with what it holds.
pub enum VerdictModel {
    EndOfStream,
    Upload(PageModel),
}

impl View for PagePlan {
    type V = PageModel;

    open spec fn view(&self) -> PageModel {
        PageModel {
            restarting: self.restarting,
            offsets_ns: self.offsets_ns@,
            source_pts_origin: self.source_pts_origin,
            last_source_pts: self.last_source_pts,
            last_sequence: self.last_sequence,
            end_of_stream: self.end_of_stream,
            required_bytes: self.required_bytes,
        }
    }
}

impl View for PageVerdict {
    type V = VerdictModel;

    open spec fn view(&self) -> VerdictModel {
        match self {
            PageVerdict::EndOfStream => VerdictModel::EndOfStream,
            PageVerdict::Upload(page) => VerdictModel::Upload(page@),
        }
    }
}

/// Whether an answer holds no more frames than asked for, and fewer only at the end.
pub open spec fn answer_keeps_contract(count: nat, end_of_stream: bool, requested: u32) -> bool {
    count <= requested && (end_of_stream || count == requested) && (count > 0 || end_of_stream)
}

/// The failure of a timeline.
pub open spec fn broken_timeline(input: InputId) -> NativeSourcePlaybackError {
    NativeSourcePlaybackError::Source(NativeSourceError::InvalidTimeline { input })
}

/// What the answer to a request allows.
pub open spec fn page_verdict(
    registry: RegistryModel,
    request: NativeDecodeRequest,
    window: Result<(Seq<VideoFrame>, bool), OutsideFailure>,
) -> Result<VerdictModel, NativeSourcePlaybackError> {
    let input = request.input;
    let broken = NativeSourcePlaybackError::DecodeContract { input };
    let restarting = request.operation == NativeDecodeOperation::Restart;
    match window {
        Err(error) => Err(NativeSourcePlaybackError::Decode { input, error }),
        Ok((frames, end_of_stream)) => match registry.prefix(input) {
            None => Err(broken),
            Some(prefix) => if prefix.kind != NativeVideoSourceKind::Decoded || prefix.in_flight
                != Some(request) || !answer_keeps_contract(
                frames.len(),
                end_of_stream,
                request.count,
            ) {
                Err(broken)
            } else if frames.len() == 0 {
                if restarting {
                    Err(broken)
                } else {
                    Ok(VerdictModel::EndOfStream)
                }
            } else if !restarting && prefix.last_sequence == u64::MAX {
                Err(broken_timeline(input))
            } else {
                let origin = if restarting {
                    frames[0].timing.presentation_ns
                } else {
                    prefix.source_pts_origin
                };
                let previous = if restarting {
                    None
                } else {
                    Some(prefix.last_source_pts)
                };
                let expected = if restarting {
                    0u64
                } else {
                    (prefix.last_sequence + 1) as u64
                };
                let (width, height) = registry.dimensions->Some_0;
                if !source::is_page_timeline(
                    frames,
                    origin,
                    previous,
                    expected,
                    prefix.clock_domain,
                ) {
                    Err(broken_timeline(input))
                } else {
                    match source_registry::first_misfit(frames, width, height) {
                        Some(frame) => Err(
                            NativeSourcePlaybackError::Source(
                                source_registry::misfit(input, width, height, frame),
                            ),
                        ),
                        None => Ok(
                            VerdictModel::Upload(
                                PageModel {
                                    restarting,
                                    offsets_ns: source::offsets_from(
                                        source::frame_timestamps(frames),
                                        origin,
                                    ),
                                    source_pts_origin: origin,
                                    last_source_pts: frames.last().timing.presentation_ns,
                                    last_sequence: frames.last().timing.sequence,
                                    end_of_stream,
                                    required_bytes: (registry.retained_rgba16f_bytes
                                        - registry.frame_bytes() * replaced_frames(
                                        prefix,
                                        restarting,
                                    ) + registry.frame_bytes() * frames.len()) as u64,
                                },
                            ),
                        ),
                    }
                }
            },
        },
    }
}

/// How many frames a page replaces.
pub open spec fn replaced_frames(prefix: PrefixModel, restarting: bool) -> nat {
    if restarting {
        prefix.frames.len()
    } else {
        0
    }
}

/// The ring of a source after a page has been added to it.
pub open spec fn extended_prefix(
    prefix: PrefixModel,
    page: PageModel,
    uploads: Seq<WorkingFrame>,
) -> PrefixModel {
    PrefixModel {
        frames: if page.restarting {
            uploads
        } else {
            prefix.frames + uploads
        },
        offsets_ns: if page.restarting {
            page.offsets_ns
        } else {
            prefix.offsets_ns + page.offsets_ns
        },
        source_pts_origin: page.source_pts_origin,
        last_source_pts: page.last_source_pts,
        last_sequence: page.last_sequence,
        end_of_stream: page.end_of_stream,
        in_flight: None,
        ..prefix
    }
}

/// The registry with another ring for the source `input`.
pub open spec fn with_prefix(
    registry: RegistryModel,
    input: InputId,
    prefix: PrefixModel,
    retained: u64,
) -> RegistryModel {
    let slot = ordered::lower_bound(ordered::entry_keys(registry.sources), input);
    RegistryModel {
        sources: registry.sources.update(slot, (input, prefix)),
        retained_rgba16f_bytes: retained,
        ..registry
    }
}

/// The registry after an answer, given what normalizing its frames came to.
pub open spec fn answered(
    registry: RegistryModel,
    request: NativeDecodeRequest,
    window: Result<(Seq<VideoFrame>, bool), OutsideFailure>,
    normalized: Result<Seq<WorkingFrame>, OutsideFailure>,
) -> Result<RegistryModel, NativeSourcePlaybackError> {
    let input = request.input;
    match page_verdict(registry, request, window) {
        Err(error) => Err(error),
        Ok(VerdictModel::EndOfStream) => Ok(
            with_prefix(
                registry,
                input,
                PrefixModel {
                    in_flight: None,
                    end_of_stream: true,
                    ..registry.prefix(input)->Some_0
                },
                registry.retained_rgba16f_bytes,
            ),
        ),
        Ok(VerdictModel::Upload(page)) => match normalized {
            Err(error) => Err(NativeSourcePlaybackError::Normalize { input, error }),
            Ok(uploads) => Ok(
                with_prefix(
                    registry,
                    input,
                    extended_prefix(registry.prefix(input)->Some_0, page, uploads),
                    page.required_bytes,
                ),
            ),
        },
    }
}

/// The ring of a source stands at its place and is in order.
pub proof fn lemma_prefix_at(registry: RegistryModel, input: InputId)
    requires
        registry.wf(),
        registry.prefix(input) is Some,
    ensures
        ({
            let slot = ordered::lower_bound(ordered::entry_keys(registry.sources), input);
            &&& 0 <= slot < registry.sources.len()
            &&& registry.sources[slot] == (input, registry.prefix(input)->Some_0)
            &&& registry.prefix(input)->Some_0.wf(input, registry.limits)
        }),
{
    ordered::lemma_lower_bound(ordered::entry_keys(registry.sources), input);
    let slot = ordered::lower_bound(ordered::entry_keys(registry.sources), input);
    assert(registry.sources[slot].1.wf(registry.sources[slot].0, registry.limits));
}

/// A ring may be exchanged for one that claims no more, with its frames charged.
pub proof fn lemma_with_prefix_wf(
    registry: RegistryModel,
    input: InputId,
    prefix: PrefixModel,
    retained: u64,
)
    requires
        registry.wf(),
        registry.dimensions is Some,
        registry.prefix(input) is Some,
        prefix.wf(input, registry.limits),
        prefix.kind == NativeVideoSourceKind::Live ==> prefix.frames.len() == 1,
        registry.frame_bytes() * (sums::total(
            source_registry::claims(registry.sources),
        ) - registry.prefix(input)->Some_0.claim() + prefix.claim())
            <= registry.limits.max_retained_rgba16f_bytes,
        retained == registry.retained_rgba16f_bytes - registry.frame_bytes() * registry.prefix(
            input,
        )->Some_0.frames.len() + registry.frame_bytes() * prefix.frames.len(),
    ensures
        with_prefix(registry, input, prefix, retained).wf(),
{
    lemma_prefix_at(registry, input);
    let slot = ordered::lower_bound(ordered::entry_keys(registry.sources), input);
    let before = registry.prefix(input)->Some_0;
    let after = with_prefix(registry, input, prefix, retained);
    assert(ordered::entry_keys(after.sources) =~= ordered::entry_keys(registry.sources));
    let frames = source_registry::frame_counts(registry.sources);
    let claims = source_registry::claims(registry.sources);
    sums::lemma_total_update(frames, slot, prefix.frames.len());
    sums::lemma_total_update(claims, slot, prefix.claim());
    assert(source_registry::frame_counts(after.sources) =~= frames.update(
        slot,
        prefix.frames.len(),
    ));
    assert(source_registry::claims(after.sources) =~= claims.update(slot, prefix.claim()));
    let unit = registry.frame_bytes() as int;
    let whole = sums::total(frames) as int;
    let old_count = before.frames.len() as int;
    let new_count = prefix.frames.len() as int;
    assert(unit * (whole - old_count + new_count) == unit * whole - unit * old_count + unit
        * new_count) by (nonlinear_arith);
    assert forall|i: int| 0 <= i < after.sources.len() implies (#[trigger] after.sources[i]).1.wf(
        after.sources[i].0,
        after.limits,
    ) by {
        if i != slot {
            assert(after.sources[i] == registry.sources[i]);
        }
    }
}

/// In a registry in order, the source that awaits an answer has room for it.
proof fn lemma_answer_fits(
    registry: RegistryModel,
    request: NativeDecodeRequest,
    count: nat,
)
    requires
        registry.wf(),
        registry.prefix(request.input) is Some,
        registry.prefix(request.input)->Some_0.in_flight == Some(request),
        count <= request.count,
    ensures
        registry.dimensions is Some,
        ({
            let prefix = registry.prefix(request.input)->Some_0;
            let restarting = request.operation == NativeDecodeOperation::Restart;
            let replaced = replaced_frames(prefix, restarting);
            let unit = registry.frame_bytes();
            &&& prefix.frames.len() - replaced + count <= prefix.claim()
            &&& unit * prefix.frames.len() <= registry.retained_rgba16f_bytes
            &&& unit * replaced <= registry.retained_rgba16f_bytes
            &&& registry.retained_rgba16f_bytes - unit * replaced + unit * count
                <= registry.limits.max_retained_rgba16f_bytes
            &&& unit * count <= registry.limits.max_retained_rgba16f_bytes
            &&& unit * (sums::total(source_registry::claims(registry.sources)) - prefix.claim() + (
            prefix.frames.len() - replaced + count)) <= registry.limits.max_retained_rgba16f_bytes
        }),
{
    let input = request.input;
    lemma_prefix_at(registry, input);
    let slot = ordered::lower_bound(ordered::entry_keys(registry.sources), input);
    let prefix = registry.prefix(input)->Some_0;
    let restarting = request.operation == NativeDecodeOperation::Restart;
    let replaced = replaced_frames(prefix, restarting);
    let frames = source_registry::frame_counts(registry.sources);
    let claims = source_registry::claims(registry.sources);
    sums::lemma_total_update(frames, slot, 0);
    sums::lemma_total_update(claims, slot, 0);
    assert(claims[slot] == prefix.claim());
    assert(frames[slot] == prefix.frames.len());
    assert(prefix.claim() > 0);
    if registry.dimensions is None {
        assert(sums::total(claims) == 0);
    }
    // Frames held elsewhere never exceed what is claimed elsewhere.
    let others_held = frames.update(slot, 0);
    let others_claimed = claims.update(slot, 0);
    assert forall|i: int| 0 <= i < others_held.len() implies #[trigger] others_held[i]
        <= others_claimed[i] by {
        if i != slot {
            assert(others_held[i] == registry.sources[i].1.frames.len());
            assert(others_claimed[i] == registry.sources[i].1.claim());
        }
    }
    sums::lemma_total_monotone(others_held, others_claimed);
    let unit = registry.frame_bytes() as int;
    let held = sums::total(frames) as int;
    let claimed = sums::total(claims) as int;
    let own = prefix.frames.len() as int;
    let gone = replaced as int;
    let new = count as int;
    assert(held - gone + new <= claimed);
    assert(unit * (held - gone + new) == unit * held - unit * gone + unit * new)
        by (nonlinear_arith);
    assert(unit * (held - gone + new) <= unit * claimed) by (nonlinear_arith)
        requires
            held - gone + new <= claimed,
            unit >= 0,
    ;
    assert(unit * own <= unit * held) by (nonlinear_arith)
        requires
            own <= held,
            unit >= 0,
    ;
    assert(unit * gone <= unit * own) by (nonlinear_arith)
        requires
            gone <= own,
            unit >= 0,
    ;
    assert(unit * new <= unit * claimed) by (nonlinear_arith)
        requires
            new <= claimed,
            unit >= 0,
    ;
    let rest = claimed - prefix.claim() + (own - gone + new);
    assert(rest <= claimed);
    assert(unit * rest <= unit * claimed) by (nonlinear_arith)
        requires
            rest <= claimed,
            unit >= 0,
    ;
}

/// An answer keeps the registry in order.
pub proof fn answer_keeps_registry_in_order(
    registry: RegistryModel,
    request: NativeDecodeRequest,
    window: Result<(Seq<VideoFrame>, bool), OutsideFailure>,
    normalized: Result<Seq<WorkingFrame>, OutsideFailure>,
)
    requires
        registry.wf(),
        (window is Ok && normalized is Ok) ==> normalized->Ok_0.len() == window->Ok_0.0.len(),
    ensures
        answered(registry, request, window, normalized) matches Ok(after) ==> after.wf(),
{
    let input = request.input;
    if answered(registry, request, window, normalized) is Ok {
        let prefix = registry.prefix(input)->Some_0;
        let (frames, _) = window->Ok_0;
        lemma_prefix_at(registry, input);
        lemma_answer_fits(registry, request, frames.len());
        lemma_answer_fits(registry, request, 0);
        let unit = registry.frame_bytes() as int;
        match page_verdict(registry, request, window)->Ok_0 {
            VerdictModel::EndOfStream => {
                let ended = PrefixModel { in_flight: None, end_of_stream: true, ..prefix };
                assert(unit * (prefix.frames.len() as int) - unit * (prefix.frames.len() as int)
                    == 0);
                lemma_with_prefix_wf(registry, input, ended, registry.retained_rgba16f_bytes);
            },
            VerdictModel::Upload(page) => {
                let uploads = normalized->Ok_0;
                let extended = extended_prefix(prefix, page, uploads);
                let restarting = page.restarting;
                let previous = if restarting {
                    None
                } else {
                    Some(prefix.last_source_pts)
                };
                let expected = if restarting {
                    0u64
                } else {
                    (prefix.last_sequence + 1) as u64
                };
                source_registry::lemma_offsets_ascend(
                    frames,
                    page.source_pts_origin,
                    previous,
                    expected,
                    prefix.clock_domain,
                );
                assert forall|i: int, j: int|
                    0 <= i < j < extended.offsets_ns.len() implies #[trigger] extended.offsets_ns[i]
                    < #[trigger] extended.offsets_ns[j] by {
                    if !restarting {
                        let own = prefix.offsets_ns.len() as int;
                        if j < own {
                            assert(extended.offsets_ns[i] == prefix.offsets_ns[i]);
                            assert(extended.offsets_ns[j] == prefix.offsets_ns[j]);
                        } else if i >= own {
                            assert(extended.offsets_ns[i] == page.offsets_ns[i - own]);
                            assert(extended.offsets_ns[j] == page.offsets_ns[j - own]);
                        } else {
                            assert(extended.offsets_ns[i] == prefix.offsets_ns[i]);
                            assert(extended.offsets_ns[j] == page.offsets_ns[j - own]);
                            if i < own - 1 {
                                assert(prefix.offsets_ns[i] < prefix.offsets_ns[own - 1]);
                            }
                            if j > own {
                                assert(page.offsets_ns[0] < page.offsets_ns[j - own]);
                            }
                        }
                    }
                }
                assert(extended.offsets_ns.last() == page.offsets_ns.last());
                assert(extended.claim() <= prefix.claim());
                let own = prefix.frames.len() as int;
                let count = frames.len() as int;
                assert(unit * (own + count) == unit * own + unit * count) by (nonlinear_arith);
                lemma_with_prefix_wf(registry, input, extended, page.required_bytes);
            },
        }
    }
}

impl NativeSourceRegistry {
    /// Decides what the answer to a request allows. All checks are done before any upload.
    pub fn check_page(&self, result: &NativeDecodeResult) -> (verdict: Result<
        PageVerdict,
        NativeSourcePlaybackError,
    >)
        requires
            self.wf(),
        ensures
            match verdict {
                Ok(allowed) => page_verdict(self@, result.request, answer(*result)) == Ok::<
                    VerdictModel,
                    NativeSourcePlaybackError,
                >(allowed@),
                Err(error) => page_verdict(self@, result.request, answer(*result)) == Err::<
                    VerdictModel,
                    NativeSourcePlaybackError,
                >(error),
            },
    {
        let request: NativeDecodeRequest = result.request;
        let input: InputId = request.input;
        let window: &DecodedVideoWindow = match &result.window {
            Err(error) => {
                return Err(NativeSourcePlaybackError::Decode { input, error: *error });
            },
            Ok(window) => window,
        };
        let slot: usize = match self.position(input) {
            None => {
                return Err(NativeSourcePlaybackError::DecodeContract { input });
            },
            Some(slot) => slot,
        };
        let prefix: &NativeVideoPrefix = &self.sources.entries[slot].1;
        if prefix.kind != NativeVideoSourceKind::Decoded {
            return Err(NativeSourcePlaybackError::DecodeContract { input });
        }
        match prefix.in_flight {
            Some(expected) => {
                if expected != request {
                    return Err(NativeSourcePlaybackError::DecodeContract { input });
                }
            },
            None => {
                return Err(NativeSourcePlaybackError::DecodeContract { input });
            },
        }
        let count: u64 = window.frames.len() as u64;
        let requested: u64 = request.count as u64;
        if count > requested || (count == 0 && !window.end_of_stream) || (!window.end_of_stream
            && count != requested) {
            return Err(NativeSourcePlaybackError::DecodeContract { input });
        }
        let restarting: bool = request.operation == NativeDecodeOperation::Restart;
        if window.frames.len() == 0 {
            if restarting {
                return Err(NativeSourcePlaybackError::DecodeContract { input });
            }
            return Ok(PageVerdict::EndOfStream);
        }
        let source_pts_origin: i64 = if restarting {
            window.frames[0].timing.presentation_ns
        } else {
            prefix.source_pts_origin
        };
        let previous_pts: Option<i64> = if restarting {
            None
        } else {
            Some(prefix.last_source_pts)
        };
        let expected_sequence: u64 = if restarting {
            0
        } else {
            match prefix.last_sequence.checked_add(1) {
                None => {
                    return Err(
                        NativeSourcePlaybackError::Source(
                            NativeSourceError::InvalidTimeline { input },
                        ),
                    );
                },
                Some(next) => next,
            }
        };
        let (offsets_ns, last_source_pts, last_sequence): (Vec<u64>, i64, u64) =
            match validate_page_timing(
            input,
            window.frames.as_slice(),
            source_pts_origin,
            previous_pts,
            expected_sequence,
            prefix.clock_domain,
        ) {
            Err(error) => {
                return Err(NativeSourcePlaybackError::Source(error));
            },
            Ok(timing) => timing,
        };
        proof {
            lemma_answer_fits(self@, request, window.frames@.len());
        }
        let (width, height): (u32, u32) = match self.dimensions {
            None => {
                return Err(
                    NativeSourcePlaybackError::Source(NativeSourceError::InvalidTimeline { input }),
                );
            },
            Some(dimensions) => dimensions,
        };
        match check_frame_sizes(input, &window.frames, width, height) {
            Err(error) => {
                return Err(NativeSourcePlaybackError::Source(error));
            },
            Ok(_) => {},
        }
        let required_bytes: u64 = self.bytes_after(prefix, restarting, window.frames.len());
        Ok(
            PageVerdict::Upload(
                PagePlan {
                    restarting,
                    offsets_ns,
                    source_pts_origin,
                    last_source_pts,
                    last_sequence,
                    end_of_stream: window.end_of_stream,
                    required_bytes,
                },
            ),
        )
    }

    /// The charged bytes once `count` frames have been added to the ring.
    fn bytes_after(&self, prefix: &NativeVideoPrefix, restarting: bool, count: usize) -> (bytes: u64)
        requires
            self.dimensions is Some,
            self@.frame_bytes() <= u64::MAX,
            self@.frame_bytes() * replaced_frames(prefix@, restarting)
                <= self.retained_rgba16f_bytes,
            self@.frame_bytes() * count <= u64::MAX,
            self.retained_rgba16f_bytes - self@.frame_bytes() * replaced_frames(prefix@, restarting)
                + self@.frame_bytes() * count <= u64::MAX,
        ensures
            bytes == self.retained_rgba16f_bytes - self@.frame_bytes() * replaced_frames(
                prefix@,
                restarting,
            ) + self@.frame_bytes() * count,
    {
        let frame_bytes: u64 = self.unit_bytes();
        let replaced: u64 = if restarting {
            frame_bytes * prefix.frames.len() as u64
        } else {
            0
        };
        proof {
            if !restarting {
                assert(self@.frame_bytes() * replaced_frames(prefix@, restarting) == 0)
                    by (nonlinear_arith)
                    requires
                        replaced_frames(prefix@, restarting) == 0,
                ;
            }
        }
        self.retained_rgba16f_bytes - replaced + frame_bytes * count as u64
    }

    /// The bytes of one frame.
    fn unit_bytes(&self) -> (bytes: u64)
        requires
            self.dimensions is Some,
            self@.frame_bytes() <= u64::MAX,
        ensures
            bytes == self@.frame_bytes(),
    {
        match self.dimensions {
            None => 0,
            Some((width, height)) => {
                proof {
                    assert(0 <= width * height <= 0xffff_ffff * 0xffff_ffff) by (nonlinear_arith)
                        requires
                            0 <= width <= 0xffff_ffff,
                            0 <= height <= 0xffff_ffff,
                    ;
                }
                (width as u64) * (height as u64) * 8
            },
        }
    }

    /// Takes over the answer to a request, with what normalizing its frames came to.
    pub fn apply_page(
        &mut self,
        result: &NativeDecodeResult,
        normalized: Result<Vec<WorkingFrame>, OutsideFailure>,
    ) -> (applied: Result<(), NativeSourcePlaybackError>)
        requires
            old(self).wf(),
            (answer(*result) is Ok && normalized is Ok) ==> normalized->Ok_0@.len()
                == answer(*result)->Ok_0.0.len(),
        ensures
            final(self).wf(),
            match applied {
                Ok(_) => answered(
                    old(self)@,
                    result.request,
                    answer(*result),
                    upload_views(normalized),
                ) == Ok::<RegistryModel, NativeSourcePlaybackError>(final(self)@),
                Err(error) => final(self)@ == old(self)@ && answered(
                    old(self)@,
                    result.request,
                    answer(*result),
                    upload_views(normalized),
                ) == Err::<RegistryModel, NativeSourcePlaybackError>(error),
            },
    {
        let request: NativeDecodeRequest = result.request;
        let input: InputId = request.input;
        proof {
            answer_keeps_registry_in_order(
                self@,
                request,
                answer(*result),
                upload_views(normalized),
            );
        }
        let verdict: PageVerdict = match self.check_page(result) {
            Err(error) => {
                return Err(error);
            },
            Ok(verdict) => verdict,
        };
        let slot: usize = match self.position(input) {
            None => {
                return Err(NativeSourcePlaybackError::DecodeContract { input });
            },
            Some(slot) => slot,
        };
        let ghost before = self@;
        match verdict {
            PageVerdict::EndOfStream => {
                let prefix = &mut self.sources.entries[slot].1;
                prefix.in_flight = None;
                prefix.end_of_stream = true;
            },
            PageVerdict::Upload(page) => {
                let mut uploads: Vec<WorkingFrame> = match normalized {
                    Err(error) => {
                        return Err(NativeSourcePlaybackError::Normalize { input, error });
                    },
                    Ok(uploads) => uploads,
                };
                let mut offsets: Vec<u64> = page.offsets_ns;
                let prefix = &mut self.sources.entries[slot].1;
                if page.restarting {
                    prefix.frames = uploads;
                    prefix.offsets_ns = offsets;
                    prefix.source_pts_origin = page.source_pts_origin;
                } else {
                    prefix.frames.append(&mut uploads);
                    prefix.offsets_ns.append(&mut offsets);
                }
                prefix.last_source_pts = page.last_source_pts;
                prefix.last_sequence = page.last_sequence;
                prefix.end_of_stream = page.end_of_stream;
                prefix.in_flight = None;
                self.retained_rgba16f_bytes = page.required_bytes;
            },
        }
        proof {
            let after = answered(before, request, answer(*result), upload_views(normalized))->Ok_0;
            assert(self@.sources =~= after.sources);
        }
        Ok(())
    }
}

/// What normalizing the frames of an answer came to.
pub open spec fn upload_views(normalized: Result<Vec<WorkingFrame>, OutsideFailure>) -> Result<
    Seq<WorkingFrame>,
    OutsideFailure,
> {
    match normalized {
        Ok(uploads) => Ok(uploads@),
        Err(error) => Err(error),
    }
}

/// Whether a service that may be confined to one input attends to `input`.
pub open spec fn attends(only: Option<InputId>, input: InputId) -> bool {
    only is None || only->Some_0 == input
}

/// How many frames a source lets go at the deadline.
pub open spec fn let_go(prefix: PrefixModel, deadline_ns: u64) -> int {
    if prefix.pinned_for_stinger {
        0
    } else {
        source::surplus_frames(prefix.offsets_ns, deadline_ns)
    }
}

/// The ring of a source without the frames before the one shown at the deadline.
pub open spec fn trimmed(prefix: PrefixModel, deadline_ns: u64) -> PrefixModel {
    PrefixModel {
        frames: prefix.frames.skip(let_go(prefix, deadline_ns)),
        offsets_ns: prefix.offsets_ns.skip(let_go(prefix, deadline_ns)),
        ..prefix
    }
}

/// The first `count` sources trimmed, as far as the service attends to them.
pub open spec fn trimmed_sources(
    sources: Seq<(InputId, PrefixModel)>,
    deadline_ns: u64,
    only: Option<InputId>,
    count: int,
) -> Seq<(InputId, PrefixModel)> {
    Seq::new(
        sources.len(),
        |i: int|
            if i < count && attends(only, sources[i].0) {
                (sources[i].0, trimmed(sources[i].1, deadline_ns))
            } else {
                sources[i]
            },
    )
}

/// A ring that lets frames go stays in order, claims no more, and keeps one frame at least.
pub proof fn lemma_trimmed(prefix: PrefixModel, input: InputId, limits: NativeSourceLimits, deadline_ns: u64)
    requires
        prefix.wf(input, limits),
    ensures
        trimmed(prefix, deadline_ns).wf(input, limits),
        trimmed(prefix, deadline_ns).claim() <= prefix.claim(),
        0 <= let_go(prefix, deadline_ns) <= prefix.frames.len(),
        prefix.frames.len() > 0 ==> let_go(prefix, deadline_ns) < prefix.frames.len(),
        trimmed(prefix, deadline_ns).frames.len() == prefix.frames.len() - let_go(
            prefix,
            deadline_ns,
        ),
{
    source_registry::lemma_ascending_is_sorted(prefix.offsets_ns);
    source::lemma_shown_index(prefix.offsets_ns, deadline_ns);
    let gone = let_go(prefix, deadline_ns);
    let after = trimmed(prefix, deadline_ns);
    assert forall|i: int, j: int| 0 <= i < j < after.offsets_ns.len() implies #[trigger] after.offsets_ns[i]
        < #[trigger] after.offsets_ns[j] by {
        assert(prefix.offsets_ns[i + gone] < prefix.offsets_ns[j + gone]);
    }
    if prefix.offsets_ns.len() > 0 {
        assert(after.offsets_ns.last() == prefix.offsets_ns.last());
    }
}

/// Letting frames go never changes what is shown at the deadline or later.
pub proof fn trimming_keeps_what_is_shown(
    prefix: PrefixModel,
    input: InputId,
    limits: NativeSourceLimits,
    deadline_ns: u64,
    later_ns: u64,
)
    requires
        prefix.wf(input, limits),
        deadline_ns <= later_ns,
    ensures
        trimmed(prefix, deadline_ns).frame_at(later_ns) == prefix.frame_at(later_ns),
{
    lemma_trimmed(prefix, input, limits, deadline_ns);
    let after = trimmed(prefix, deadline_ns);
    let gone = let_go(prefix, deadline_ns);
    source_registry::lemma_ascending_is_sorted(prefix.offsets_ns);
    source_registry::lemma_ascending_is_sorted(after.offsets_ns);
    source::lemma_shown_index(prefix.offsets_ns, deadline_ns);
    source::lemma_shown_index(prefix.offsets_ns, later_ns);
    source::lemma_shown_index(after.offsets_ns, later_ns);
    if prefix.offsets_ns.len() > 0 {
        assert(after.offsets_ns.last() == prefix.offsets_ns.last());
        assert(after.frames.last() == prefix.frames.last());
        assert forall|i: int| 0 <= i < after.offsets_ns.len() implies #[trigger] after.offsets_ns[i]
            == prefix.offsets_ns[i + gone] by {}
        match (
            source::shown_index(prefix.offsets_ns, later_ns),
            source::shown_index(after.offsets_ns, later_ns),
        ) {
            (Some(a), Some(b)) => {
                assert(after.offsets_ns[b] == prefix.offsets_ns[b + gone]);
                if a < b + gone {
                    assert(prefix.offsets_ns[b + gone] > later_ns);
                }
                if b + gone < a {
                    assert(after.offsets_ns[a - gone] > later_ns);
                }
                assert(a == b + gone);
            },
            (Some(a), None) => {
                if gone == 0 {
                    assert(after.offsets_ns[a] == prefix.offsets_ns[a]);
                } else {
                    assert(prefix.offsets_ns[gone] <= deadline_ns);
                    assert(after.offsets_ns[0] == prefix.offsets_ns[gone]);
                }
            },
            (None, Some(b)) => {
                assert(after.offsets_ns[b] == prefix.offsets_ns[b + gone]);
            },
            (None, None) => {},
        }
    }
}

/// The registry after trimming.
pub open spec fn trimmed_registry(
    registry: RegistryModel,
    deadline_ns: u64,
    only: Option<InputId>,
    count: int,
) -> RegistryModel {
    let sources = trimmed_sources(registry.sources, deadline_ns, only, count);
    RegistryModel {
        sources,
        retained_rgba16f_bytes: (registry.frame_bytes() * sums::total(
            source_registry::frame_counts(sources),
        )) as u64,
        ..registry
    }
}

/// Trimming leaves the registry in order, and charges it for the frames that it keeps.
pub proof fn lemma_trimmed_registry(
    registry: RegistryModel,
    deadline_ns: u64,
    only: Option<InputId>,
    count: int,
)
    requires
        registry.wf(),
        registry.dimensions is Some,
        0 <= count <= registry.sources.len(),
    ensures
        trimmed_registry(registry, deadline_ns, only, count).wf(),
        trimmed_registry(registry, deadline_ns, only, count).retained_rgba16f_bytes
            == registry.frame_bytes() * sums::total(
            source_registry::frame_counts(
                trimmed_sources(registry.sources, deadline_ns, only, count),
            ),
        ),
{
    let after = trimmed_registry(registry, deadline_ns, only, count);
    assert(ordered::entry_keys(after.sources) =~= ordered::entry_keys(registry.sources));
    assert forall|i: int| 0 <= i < after.sources.len() implies (#[trigger] after.sources[i]).1.wf(
        after.sources[i].0,
        after.limits,
    ) && (after.sources[i].1.kind == NativeVideoSourceKind::Live
        ==> after.sources[i].1.frames.len() == 1) by {
        assert(registry.sources[i].1.wf(registry.sources[i].0, registry.limits));
        lemma_trimmed(registry.sources[i].1, registry.sources[i].0, registry.limits, deadline_ns);
    }
    let held = source_registry::frame_counts(after.sources);
    let claimed = source_registry::claims(after.sources);
    let claimed_before = source_registry::claims(registry.sources);
    assert forall|i: int| 0 <= i < claimed.len() implies #[trigger] claimed[i]
        <= claimed_before[i] by {
        assert(registry.sources[i].1.wf(registry.sources[i].0, registry.limits));
        lemma_trimmed(registry.sources[i].1, registry.sources[i].0, registry.limits, deadline_ns);
    }
    assert forall|i: int| 0 <= i < held.len() implies #[trigger] held[i] <= claimed[i] by {}
    sums::lemma_total_monotone(claimed, claimed_before);
    sums::lemma_total_monotone(held, claimed);
    let unit = registry.frame_bytes() as int;
    let a = sums::total(held) as int;
    let b = sums::total(claimed) as int;
    let c = sums::total(claimed_before) as int;
    assert(unit * a <= unit * b && unit * b <= unit * c) by (nonlinear_arith)
        requires
            a <= b <= c,
            unit >= 0,
    ;
    assert(0 <= unit * a) by (nonlinear_arith)
        requires
            unit >= 0,
            a >= 0,
    ;
}

/// The request for the source at place `i`, if it gets one: a restart when playback has
/// gone back before its first frame, else a refill.
pub open spec fn refill_request(
    registry: RegistryModel,
    i: int,
    deadline_ns: u64,
) -> Option<NativeDecodeRequest> {
    let (input, prefix) = registry.sources[i];
    let restart = prefix.available_for_stinger && prefix.offsets_ns.len() > 0
        && prefix.offsets_ns[0] > deadline_ns;
    let allocated = registry.frame_bytes() * sums::total(source_registry::claims(registry.sources))
        - if restart {
        registry.frame_bytes() * prefix.frames.len()
    } else {
        0
    };
    let budget = ((registry.limits.max_retained_rgba16f_bytes - allocated)
        / registry.frame_bytes() as int) as u64;
    let count = if restart && prefix.in_flight is None {
        if registry.limits.max_video_frames_per_source < budget {
            registry.limits.max_video_frames_per_source as nat
        } else {
            budget as nat
        }
    } else {
        source::refill_frames(
            prefix.frames.len(),
            prefix.in_flight is Some,
            prefix.end_of_stream,
            registry.limits.max_video_frames_per_source,
            budget,
        )
    };
    if prefix.kind != NativeVideoSourceKind::Decoded || count == 0 {
        None
    } else {
        Some(
            NativeDecodeRequest {
                input,
                count: count as u32,
                operation: if restart {
                    NativeDecodeOperation::Restart
                } else {
                    NativeDecodeOperation::Continue
                },
            },
        )
    }
}

/// The registry in which the source at place `i` awaits the answer to `request`.
pub open spec fn awaiting(registry: RegistryModel, i: int, request: NativeDecodeRequest) -> RegistryModel {
    RegistryModel {
        sources: registry.sources.update(
            i,
            (
                registry.sources[i].0,
                PrefixModel { in_flight: Some(request), ..registry.sources[i].1 },
            ),
        ),
        ..registry
    }
}

/// The registry and the requests after the first `count` sources have been gone through.
pub open spec fn scheduled(
    registry: RegistryModel,
    deadline_ns: u64,
    only: Option<InputId>,
    count: nat,
) -> (RegistryModel, Seq<NativeDecodeRequest>)
    decreases count,
{
    if count == 0 {
        (registry, Seq::empty())
    } else {
        let (now, requests) = scheduled(registry, deadline_ns, only, (count - 1) as nat);
        let i = count - 1;
        if !attends(only, now.sources[i].0) {
            (now, requests)
        } else {
            match refill_request(now, i, deadline_ns) {
                None => (now, requests),
                Some(request) => (awaiting(now, i, request), requests.push(request)),
            }
        }
    }
}

/// A scheduled request claims no more than the ring and the byte limit allow, and goes
/// only to a source that awaits no answer.
pub proof fn request_keeps_registry_in_order(registry: RegistryModel, i: int, deadline_ns: u64)
    requires
        registry.wf(),
        registry.dimensions is Some,
        0 <= i < registry.sources.len(),
    ensures
        refill_request(registry, i, deadline_ns) matches Some(request)
            ==> registry.sources[i].1.in_flight is None && request.count > 0 && awaiting(
            registry,
            i,
            request,
        ).wf(),
{
    if let Some(request) = refill_request(registry, i, deadline_ns) {
        let (input, prefix) = registry.sources[i];
        assert(prefix.wf(input, registry.limits));
        let after = awaiting(registry, i, request);
        let unit = registry.frame_bytes() as int;
        let claims = source_registry::claims(registry.sources);
        let total = sums::total(claims) as int;
        let own = prefix.frames.len() as int;
        let limit = registry.limits.max_retained_rgba16f_bytes as int;
        let count = request.count as int;
        let restart = prefix.available_for_stinger && prefix.offsets_ns.len() > 0
            && prefix.offsets_ns[0] > deadline_ns;
        assert(prefix.in_flight is None);
        assert(claims[i] == own);
        sums::lemma_total_update(claims, i, after.sources[i].1.claim());
        let (width, height) = registry.dimensions->Some_0;
        assert(unit > 0) by (nonlinear_arith)
            requires
                width > 0,
                height > 0,
                unit == width * height * 8,
        ;
        assert(0 <= unit * own <= unit * total) by (nonlinear_arith)
            requires
                0 <= own <= total,
                unit >= 0,
        ;
        let spare = if restart {
            limit - (unit * total - unit * own)
        } else {
            limit - unit * total
        };
        assert(0 <= spare <= limit);
        let budget = spare / unit;
        assert(unit * budget <= spare && 0 <= budget <= spare) by (nonlinear_arith)
            requires
                unit > 0,
                spare >= 0,
                budget == spare / unit,
        ;
        assert(count <= budget);
        assert(unit * count <= unit * budget) by (nonlinear_arith)
            requires
                count <= budget,
                unit > 0,
        ;
        let claim = after.sources[i].1.claim() as int;
        if restart {
            let grown = total - own + claim;
            assert(unit * grown == unit * total - unit * own + unit * claim) by (nonlinear_arith)
                requires
                    grown == total - own + claim,
            ;
            if claim == own {
                assert(unit * grown == unit * total);
            } else {
                assert(claim == count);
            }
        } else {
            let grown = total + count;
            assert(claim == own + count);
            assert(unit * grown == unit * total + unit * count) by (nonlinear_arith)
                requires
                    grown == total + count,
            ;
        }
        assert(ordered::entry_keys(after.sources) =~= ordered::entry_keys(registry.sources));
        assert(source_registry::claims(after.sources) =~= claims.update(
            i,
            after.sources[i].1.claim(),
        ));
        assert(source_registry::frame_counts(after.sources) =~= source_registry::frame_counts(
            registry.sources,
        ));
        assert forall|k: int| 0 <= k < after.sources.len() implies (
        #[trigger] after.sources[k]).1.wf(after.sources[k].0, after.limits) by {
            if k != i {
                assert(after.sources[k] == registry.sources[k]);
            }
        }
    }
}

/// Scheduling keeps the registry in order: the frames held or asked for never exceed
/// the byte limit.
pub proof fn scheduling_keeps_registry_in_order(
    registry: RegistryModel,
    deadline_ns: u64,
    only: Option<InputId>,
    count: nat,
)
    requires
        registry.wf(),
        registry.dimensions is Some,
        count <= registry.sources.len(),
    ensures
        scheduled(registry, deadline_ns, only, count).0.wf(),
        scheduled(registry, deadline_ns, only, count).0.dimensions == registry.dimensions,
        scheduled(registry, deadline_ns, only, count).0.limits == registry.limits,
        scheduled(registry, deadline_ns, only, count).0.retained_rgba16f_bytes
            == registry.retained_rgba16f_bytes,
        scheduled(registry, deadline_ns, only, count).0.sources.len() == registry.sources.len(),
        forall|i: int|
            0 <= i < registry.sources.len() ==> (#[trigger] scheduled(
                registry,
                deadline_ns,
                only,
                count,
            ).0.sources[i]).0 == registry.sources[i].0,
        forall|i: int|
            count <= i < registry.sources.len() ==> #[trigger] scheduled(
                registry,
                deadline_ns,
                only,
                count,
            ).0.sources[i] == registry.sources[i],
    decreases count,
{
    if count > 0 {
        let i = count - 1;
        scheduling_keeps_registry_in_order(registry, deadline_ns, only, i as nat);
        let now = scheduled(registry, deadline_ns, only, i as nat).0;
        request_keeps_registry_in_order(now, i, deadline_ns);
    }
}

/// Every source has at most one request on its way: each scheduled request goes to a
/// different source, and none to a source that awaited an answer before.
pub proof fn requests_are_single_flight(
    registry: RegistryModel,
    deadline_ns: u64,
    only: Option<InputId>,
    count: nat,
    a: int,
    b: int,
)
    requires
        registry.wf(),
        registry.dimensions is Some,
        count <= registry.sources.len(),
        0 <= a < b < scheduled(registry, deadline_ns, only, count).1.len(),
    ensures
        scheduled(registry, deadline_ns, only, count).1[a].input != scheduled(
            registry,
            deadline_ns,
            only,
            count,
        ).1[b].input,
    decreases count,
{
    if count > 0 {
        let i = count - 1;
        scheduling_keeps_registry_in_order(registry, deadline_ns, only, i as nat);
        let (now, before) = scheduled(registry, deadline_ns, only, i as nat);
        let requests = scheduled(registry, deadline_ns, only, count).1;
        if b < before.len() {
            requests_are_single_flight(registry, deadline_ns, only, i as nat, a, b);
        } else {
            lemma_request_of_source(registry, deadline_ns, only, i as nat, a);
            let k = choose|k: int|
                0 <= k < i && (#[trigger] registry.sources[k]).0 == before[a].input;
            assert(requests[b].input == now.sources[i].0);
            assert(now.sources[i].0 == registry.sources[i].0);
            assert(ordered::entry_keys(registry.sources)[k].0 != ordered::entry_keys(
                registry.sources,
            )[i].0) by {
                use_ascending(registry.sources, k, i);
            }
        }
    }
}

proof fn use_ascending(sources: Seq<(InputId, PrefixModel)>, i: int, j: int)
    requires
        ordered::ascending(ordered::entry_keys(sources)),
        0 <= i < j < sources.len(),
    ensures
        sources[i].0 != sources[j].0,
{
    let keys = ordered::entry_keys(sources);
    assert(keys[i] == sources[i].0 && keys[j] == sources[j].0);
}

proof fn lemma_request_of_source(
    registry: RegistryModel,
    deadline_ns: u64,
    only: Option<InputId>,
    count: nat,
    a: int,
)
    requires
        registry.wf(),
        registry.dimensions is Some,
        count <= registry.sources.len(),
        0 <= a < scheduled(registry, deadline_ns, only, count).1.len(),
    ensures
        exists|k: int|
            0 <= k < count && (#[trigger] registry.sources[k]).0 == scheduled(
                registry,
                deadline_ns,
                only,
                count,
            ).1[a].input && registry.sources[k].1.in_flight is None && registry.sources[k].1.kind
                == NativeVideoSourceKind::Decoded,
    decreases count,
{
    if count > 0 {
        let i = count - 1;
        scheduling_keeps_registry_in_order(registry, deadline_ns, only, i as nat);
        let (now, before) = scheduled(registry, deadline_ns, only, i as nat);
        if a < before.len() {
            lemma_request_of_source(registry, deadline_ns, only, i as nat, a);
            let k = choose|k: int|
                0 <= k < i && (#[trigger] registry.sources[k]).0 == before[a].input
                    && registry.sources[k].1.in_flight is None && registry.sources[k].1.kind
                    == NativeVideoSourceKind::Decoded;
            assert(registry.sources[k].0 == before[a].input);
        } else {
            request_keeps_registry_in_order(now, i, deadline_ns);
            assert(now.sources[i] == registry.sources[i]);
            assert(registry.sources[i].0 == scheduled(
                registry,
                deadline_ns,
                only,
                count,
            ).1[a].input);
        }
    }
}

/// Whether all the sources can show a frame at the deadline.
pub open spec fn all_ready(sources: Seq<(InputId, PrefixModel)>, deadline_ns: u64) -> bool {
    forall|i: int| 0 <= i < sources.len() ==> (#[trigger] sources[i]).1.is_ready(deadline_ns)
}

/// What a service leaves behind.
#[verifier::ext_equal]
pub struct ServiceModel {
    pub registry: RegistryModel,
    pub requests: Seq<NativeDecodeRequest>,
    pub covered: Result<bool, NativeSourcePlaybackError>,
}

/// Whether the sources that a service attends to can show a frame at the deadline.
pub open spec fn coverage(
    registry: RegistryModel,
    deadline_ns: u64,
    only: Option<InputId>,
) -> Result<bool, NativeSourcePlaybackError> {
    match only {
        Some(input) => match registry.prefix(input) {
            None => Err(NativeSourcePlaybackError::MissingSource { input }),
            Some(prefix) => Ok(prefix.is_ready(deadline_ns)),
        },
        None => Ok(all_ready(registry.sources, deadline_ns)),
    }
}

/// Whether every source that a service attends to has ended or is known up to the deadline.
pub open spec fn known_up_to(
    registry: RegistryModel,
    deadline_ns: u64,
    only: Option<InputId>,
) -> bool {
    forall|i: int|
        0 <= i < registry.sources.len() && attends(only, registry.sources[i].0) ==> source::covers(
            (#[trigger] registry.sources[i]).1.latest(),
            registry.sources[i].1.end_of_stream,
            deadline_ns,
        )
}

/// A source that has not ended is never covered merely because it holds a frame: its newest
/// frame has to be presented at the deadline or after it. This holds of live sources too.
pub proof fn coverage_is_known(registry: RegistryModel, deadline_ns: u64, only: Option<InputId>)
    requires
        registry.wf(),
        coverage(registry, deadline_ns, only) == Ok::<bool, NativeSourcePlaybackError>(true),
    ensures
        known_up_to(registry, deadline_ns, only),
{
    if let Some(input) = only {
        let keys = ordered::entry_keys(registry.sources);
        let slot = ordered::lower_bound(keys, input);
        ordered::lemma_lower_bound(keys, input);
        assert forall|i: int|
            0 <= i < registry.sources.len() && attends(only, registry.sources[i].0) implies i
            == slot by {
            assert(keys[i] == registry.sources[i].0);
            assert(keys[slot] == registry.sources[slot].0);
            if i < slot {
                assert(keys[i].rank() < keys[slot].rank());
            } else if slot < i {
                assert(keys[slot].rank() < keys[i].rank());
            }
        }
    }
}

/// A service: trim the rings, schedule refills, tell whether the deadline is covered.
pub open spec fn serviced(
    registry: RegistryModel,
    deadline_ns: u64,
    only: Option<InputId>,
) -> ServiceModel {
    if registry.dimensions is None {
        ServiceModel {
            registry,
            requests: Seq::empty(),
            covered: coverage(registry, deadline_ns, only),
        }
    } else if registry.sources.len() == 0 {
        ServiceModel { registry, requests: Seq::empty(), covered: Ok(true) }
    } else {
        let kept = trimmed_registry(
            registry,
            deadline_ns,
            only,
            registry.sources.len() as int,
        );
        let (after, requests) = scheduled(kept, deadline_ns, only, kept.sources.len());
        ServiceModel {
            registry: after,
            requests,
            covered: coverage(after, deadline_ns, only),
        }
    }
}

impl NativeSourceRegistry {
    fn trim(&mut self, deadline_ns: u64, only: Option<InputId>)
        requires
            old(self).wf(),
            old(self).dimensions is Some,
        ensures
            final(self).wf(),
            final(self)@ == trimmed_registry(
                old(self)@,
                deadline_ns,
                only,
                old(self)@.sources.len() as int,
            ),
    {
        let ghost start = self@;
        let frame_bytes: u64 = self.unit_bytes();
        let mut i: usize = 0;
        proof {
            assert(trimmed_sources(start.sources, deadline_ns, only, 0) =~= start.sources);
        }
        while i < self.sources.entries.len()
            invariant
                i <= self.sources.entries@.len(),
                start.wf(),
                start.dimensions is Some,
                start.dimensions == self.dimensions,
                start.limits == self.limits,
                self.sources.entries@.len() == start.sources.len(),
                self@.sources == trimmed_sources(start.sources, deadline_ns, only, i as int),
                self@ == trimmed_registry(start, deadline_ns, only, i as int),
                frame_bytes == start.frame_bytes(),
            decreases self.sources.entries@.len() - i,
        {
            let ghost now = self@;
            proof {
                lemma_trimmed_registry(start, deadline_ns, only, i as int);
                lemma_trimmed_registry(start, deadline_ns, only, i + 1);
                assert(now.sources[i as int] == start.sources[i as int]);
                assert(start.sources[i as int].1.wf(start.sources[i as int].0, start.limits));
                lemma_trimmed(
                    start.sources[i as int].1,
                    start.sources[i as int].0,
                    start.limits,
                    deadline_ns,
                );
                source_registry::lemma_ascending_is_sorted(
                    self.sources.entries@[i as int].1.offsets_ns@,
                );
            }
            let input: InputId = self.sources.entries[i].0;
            let attended: bool = match only {
                None => true,
                Some(selected) => selected == input,
            };
            if attended {
                let remove: usize = source_eviction_count(
                    self.sources.entries[i].1.offsets_ns.as_slice(),
                    self.sources.entries[i].1.pinned_for_stinger,
                    deadline_ns,
                );
                let prefix = &mut self.sources.entries[i].1;
                prefix.frames = prefix.frames.split_off(remove);
                prefix.offsets_ns = prefix.offsets_ns.split_off(remove);
                proof {
                    let kept = trimmed(start.sources[i as int].1, deadline_ns);
                    assert(self@.sources[i as int].1.frames =~= kept.frames);
                    assert(self@.sources[i as int].1.offsets_ns =~= kept.offsets_ns);
                    assert(self@.sources[i as int] == (input, kept));
                    let held = source_registry::frame_counts(now.sources);
                    let own = held[i as int];
                    sums::lemma_total_update(held, i as int, (own - remove) as nat);
                    let next = trimmed_sources(start.sources, deadline_ns, only, i + 1);
                    assert(source_registry::frame_counts(next) =~= held.update(
                        i as int,
                        (own - remove) as nat,
                    ));
                    let unit = frame_bytes as int;
                    let all = sums::total(held) as int;
                    let gone = remove as int;
                    assert(unit * (all - gone) == unit * all - unit * gone) by (nonlinear_arith);
                    assert(0 <= unit * gone <= unit * all) by (nonlinear_arith)
                        requires
                            0 <= gone <= all,
                            unit >= 0,
                    ;
                }
                self.retained_rgba16f_bytes = self.retained_rgba16f_bytes - frame_bytes
                    * remove as u64;
            } else {
                proof {
                    assert(trimmed_sources(start.sources, deadline_ns, only, i + 1)
                        =~= trimmed_sources(start.sources, deadline_ns, only, i as int));
                }
            }
            i = i + 1;
            proof {
                let next = trimmed_sources(start.sources, deadline_ns, only, i as int);
                assert forall|k: int| 0 <= k < next.len() implies self@.sources[k] == next[k] by {
                    if k != i - 1 {
                        assert(self@.sources[k] == now.sources[k]);
                    }
                }
                assert(self@.sources =~= next);
            }
        }
        proof {
            lemma_trimmed_registry(start, deadline_ns, only, i as int);
        }
    }

    /// The bytes of the frames held or asked for.
    fn allocated_bytes(&self) -> (bytes: u64)
        requires
            self.wf(),
            self.dimensions is Some,
        ensures
            bytes == self@.frame_bytes() * sums::total(source_registry::claims(self@.sources)),
    {
        let frame_bytes: u64 = self.unit_bytes();
        let ghost claims = source_registry::claims(self@.sources);
        let mut bytes: u64 = 0;
        assert(claims.take(0) =~= Seq::<nat>::empty());
        assert(frame_bytes * 0 == 0);
        let mut i: usize = 0;
        while i < self.sources.entries.len()
            invariant
                i <= self.sources.entries@.len(),
                self.wf(),
                self.dimensions is Some,
                claims == source_registry::claims(self@.sources),
                frame_bytes == self@.frame_bytes(),
                bytes == frame_bytes * sums::total(claims.take(i as int)),
            decreases self.sources.entries@.len() - i,
        {
            let ghost prefix_view = self.sources.entries@[i as int].1@;
            proof {
                assert(claims.take(i + 1).drop_last() =~= claims.take(i as int));
                assert(claims.take(i + 1).last() == claims[i as int]);
                sums::lemma_total_take(claims, i + 1);
                assert(self@.sources[i as int].1.wf(self@.sources[i as int].0, self.limits));
                let unit = frame_bytes as int;
                let before = sums::total(claims.take(i as int)) as int;
                let own = claims[i as int] as int;
                let all = sums::total(claims) as int;
                assert(unit * (before + own) == unit * before + unit * own) by (nonlinear_arith);
                assert(unit * (before + own) <= unit * all) by (nonlinear_arith)
                    requires
                        before + own <= all,
                        unit >= 0,
                ;
                assert(0 <= unit * before && 0 <= unit * own) by (nonlinear_arith)
                    requires
                        unit >= 0,
                        before >= 0,
                        own >= 0,
                ;
            }
            let prefix: &NativeVideoPrefix = &self.sources.entries[i].1;
            let held: u64 = prefix.frames.len() as u64;
            let claim: u64 = match prefix.in_flight {
                None => held,
                Some(request) => match request.operation {
                    NativeDecodeOperation::Continue => held + request.count as u64,
                    NativeDecodeOperation::Restart => if held < request.count as u64 {
                        request.count as u64
                    } else {
                        held
                    },
                },
            };
            bytes = bytes + frame_bytes * claim;
            i = i + 1;
        }
        assert(claims.take(i as int) =~= claims);
        bytes
    }

    /// Decides on the request for the source at place `i`.
    fn plan_request(&self, i: usize, deadline_ns: u64, allocated: u64) -> (request: Option<
        NativeDecodeRequest,
    >)
        requires
            self.wf(),
            self.dimensions is Some,
            i < self.sources.entries@.len(),
            allocated == self@.frame_bytes() * sums::total(source_registry::claims(self@.sources)),
        ensures
            request == refill_request(self@, i as int, deadline_ns),
    {
        let prefix: &NativeVideoPrefix = &self.sources.entries[i].1;
        if prefix.kind != NativeVideoSourceKind::Decoded {
            return None;
        }
        let frame_bytes: u64 = self.unit_bytes();
        let restart: bool = prefix.available_for_stinger && prefix.offsets_ns.len() > 0
            && prefix.offsets_ns[0] > deadline_ns;
        proof {
            let claims = source_registry::claims(self@.sources);
            sums::lemma_total_update(claims, i as int, 0);
            assert(self@.sources[i as int].1.wf(self@.sources[i as int].0, self.limits));
            let unit = frame_bytes as int;
            let own = prefix.frames@.len() as int;
            let all = sums::total(claims) as int;
            assert(own <= claims[i as int]);
            assert(0 <= unit * own <= unit * all) by (nonlinear_arith)
                requires
                    0 <= own <= all,
                    unit >= 0,
            ;
            let (width, height) = self.dimensions->Some_0;
            assert(unit > 0) by (nonlinear_arith)
                requires
                    width > 0,
                    height > 0,
                    unit == width * height * 8,
            ;
        }
        let allocated: u64 = if restart {
            allocated - frame_bytes * prefix.frames.len() as u64
        } else {
            allocated
        };
        let budget_frames: u64 = (self.limits.max_retained_rgba16f_bytes - allocated) / frame_bytes;
        let count: Option<u32> = if restart && prefix.in_flight.is_none() {
            let maximum: u32 = self.limits.max_video_frames_per_source;
            let frames: u32 = if (maximum as u64) < budget_frames {
                maximum
            } else {
                budget_frames as u32
            };
            if frames == 0 {
                None
            } else {
                Some(frames)
            }
        } else {
            refill_page_size(
                prefix.frames.len(),
                prefix.in_flight.is_some(),
                prefix.end_of_stream,
                self.limits.max_video_frames_per_source,
                budget_frames,
            )
        };
        match count {
            None => None,
            Some(count) => Some(
                NativeDecodeRequest {
                    input: self.sources.entries[i].0,
                    count,
                    operation: if restart {
                        NativeDecodeOperation::Restart
                    } else {
                        NativeDecodeOperation::Continue
                    },
                },
            ),
        }
    }

    fn schedule(&mut self, deadline_ns: u64, only: Option<InputId>) -> (requests: Vec<
        NativeDecodeRequest,
    >)
        requires
            old(self).wf(),
            old(self).dimensions is Some,
        ensures
            final(self).wf(),
            (final(self)@, requests@) == scheduled(
                old(self)@,
                deadline_ns,
                only,
                old(self)@.sources.len(),
            ),
    {
        let ghost start = self@;
        let frame_bytes: u64 = self.unit_bytes();
        let mut allocated: u64 = self.allocated_bytes();
        let mut requests: Vec<NativeDecodeRequest> = Vec::new();
        assert(requests@ =~= Seq::<NativeDecodeRequest>::empty());
        let mut i: usize = 0;
        while i < self.sources.entries.len()
            invariant
                i <= self.sources.entries@.len(),
                self.sources.entries@.len() == start.sources.len(),
                start.wf(),
                start.dimensions is Some,
                self.wf(),
                self.dimensions == start.dimensions,
                (self@, requests@) == scheduled(start, deadline_ns, only, i as nat),
                frame_bytes == self@.frame_bytes(),
                allocated == frame_bytes * sums::total(source_registry::claims(self@.sources)),
            decreases self.sources.entries@.len() - i,
        {
            let ghost now = self@;
            let input: InputId = self.sources.entries[i].0;
            let attended: bool = match only {
                None => true,
                Some(selected) => selected == input,
            };
            if attended {
                proof {
                    request_keeps_registry_in_order(now, i as int, deadline_ns);
                }
                match self.plan_request(i, deadline_ns, allocated) {
                    None => {},
                    Some(request) => {
                        let held: u64 = self.sources.entries[i].1.frames.len() as u64;
                        let grown: u64 = match request.operation {
                            NativeDecodeOperation::Continue => request.count as u64,
                            NativeDecodeOperation::Restart => if held < request.count as u64 {
                                request.count as u64 - held
                            } else {
                                0
                            },
                        };
                        self.sources.entries[i].1.in_flight = Some(request);
                        proof {
                            assert(self@.sources =~= awaiting(now, i as int, request).sources);
                            let claims = source_registry::claims(now.sources);
                            let after = source_registry::claims(self@.sources);
                            sums::lemma_total_update(claims, i as int, after[i as int]);
                            assert(after =~= claims.update(i as int, after[i as int]));
                            let unit = frame_bytes as int;
                            let all = sums::total(claims) as int;
                            let more = grown as int;
                            assert(sums::total(after) == all + more);
                            assert(unit * (all + more) == unit * all + unit * more)
                                by (nonlinear_arith);
                            assert(0 <= unit * more && 0 <= unit * all) by (nonlinear_arith)
                                requires
                                    unit >= 0,
                                    more >= 0,
                                    all >= 0,
                            ;
                        }
                        allocated = allocated + frame_bytes * grown;
                        requests.push(request);
                    },
                }
            }
            i = i + 1;
        }
        requests
    }

    /// Trims the rings, schedules refills, and tells whether the deadline is covered.
    ///
    /// The requests are to be handed to the decoders in their order.
    pub fn service(&mut self, deadline_ns: u64, only: Option<InputId>) -> (served: (
        Vec<NativeDecodeRequest>,
        Result<bool, NativeSourcePlaybackError>,
    ))
        requires
            old(self).wf(),
        ensures
            final(self).wf(),
            serviced(old(self)@, deadline_ns, only) == (ServiceModel {
                registry: final(self)@,
                requests: served.0@,
                covered: served.1,
            }),
            served.1 == Ok::<bool, NativeSourcePlaybackError>(true) ==> known_up_to(
                final(self)@,
                deadline_ns,
                only,
            ),
    {
        let requests: Vec<NativeDecodeRequest> = if self.dimensions.is_none() {
            let requests: Vec<NativeDecodeRequest> = Vec::new();
            assert(requests@ =~= Seq::<NativeDecodeRequest>::empty());
            requests
        } else if self.sources.entries.len() == 0 {
            let requests: Vec<NativeDecodeRequest> = Vec::new();
            assert(requests@ =~= Seq::<NativeDecodeRequest>::empty());
            return (requests, Ok(true));
        } else {
            self.trim(deadline_ns, only);
            self.schedule(deadline_ns, only)
        };
        let covered: Result<bool, NativeSourcePlaybackError> = match only {
            Some(input) => match self.position(input) {
                None => Err(NativeSourcePlaybackError::MissingSource { input }),
                Some(slot) => Ok(self.sources.entries[slot].1.covers_deadline(deadline_ns)),
            },
            None => Ok(self.covers_all(deadline_ns)),
        };
        proof {
            if covered == Ok::<bool, NativeSourcePlaybackError>(true) {
                coverage_is_known(self@, deadline_ns, only);
            }
        }
        (requests, covered)
    }

    fn covers_all(&self, deadline_ns: u64) -> (ready: bool)
        ensures
            ready == all_ready(self@.sources, deadline_ns),
    {
        let mut i: usize = 0;
        while i < self.sources.entries.len()
            invariant
                i <= self.sources.entries@.len(),
                forall|k: int|
                    0 <= k < i ==> (#[trigger] self@.sources[k]).1.is_ready(deadline_ns),
            decreases self.sources.entries@.len() - i,
        {
            if !self.sources.entries[i].1.covers_deadline(deadline_ns) {
                assert(!self@.sources[i as int].1.is_ready(deadline_ns));
                return false;
            }
            assert(self@.sources[i as int].1.is_ready(deadline_ns));
            i = i + 1;
        }
        true
    }
}

/// Whether a frame may replace the one that the live source `input` shows.
pub open spec fn live_verdict(registry: RegistryModel, input: InputId, frame: VideoFrame) -> Result<
    (),
    NativeSourcePlaybackError,
> {
    match registry.prefix(input) {
        None => Err(NativeSourcePlaybackError::SourceNotLive { input }),
        Some(prefix) => if prefix.kind != NativeVideoSourceKind::Live {
            Err(NativeSourcePlaybackError::SourceNotLive { input })
        } else if !source::follows_live(
            frame,
            prefix.last_source_pts,
            prefix.last_sequence,
            prefix.clock_domain,
        ) {
            Err(broken_timeline(input))
        } else {
            match registry.dimensions {
                None => Err(broken_timeline(input)),
                Some((width, height)) => if frame.width != width || frame.height != height {
                    Err(
                        NativeSourcePlaybackError::Source(
                            source_registry::misfit(input, width, height, frame),
                        ),
                    )
                } else {
                    Ok(())
                },
            }
        },
    }
}

/// How long after the first frame of its source a frame is presented.
pub open spec fn rebased(prefix: PrefixModel, frame: VideoFrame) -> u64 {
    (frame.timing.presentation_ns - prefix.source_pts_origin) as u64
}

/// The registry after a live frame, given what normalizing it came to.
pub open spec fn ingested(
    registry: RegistryModel,
    input: InputId,
    frame: VideoFrame,
    normalized: Result<WorkingFrame, OutsideFailure>,
) -> Result<RegistryModel, NativeSourcePlaybackError> {
    match live_verdict(registry, input, frame) {
        Err(error) => Err(error),
        Ok(_) => match normalized {
            Err(error) => Err(NativeSourcePlaybackError::Normalize { input, error }),
            Ok(upload) => Ok(
                with_prefix(
                    registry,
                    input,
                    PrefixModel {
                        frames: seq![upload],
                        offsets_ns: seq![rebased(registry.prefix(input)->Some_0, frame)],
                        last_source_pts: frame.timing.presentation_ns,
                        last_sequence: frame.timing.sequence,
                        ..registry.prefix(input)->Some_0
                    },
                    registry.retained_rgba16f_bytes,
                ),
            ),
        },
    }
}

impl NativeSourceRegistry {
    /// Decides whether a frame may replace the one that a live source shows.
    pub fn check_live_frame(&self, input: InputId, frame: &VideoFrame) -> (verdict: Result<
        (),
        NativeSourcePlaybackError,
    >)
        requires
            self.wf(),
        ensures
            verdict == live_verdict(self@, input, *frame),
    {
        let slot: usize = match self.position(input) {
            None => {
                return Err(NativeSourcePlaybackError::SourceNotLive { input });
            },
            Some(slot) => slot,
        };
        let prefix: &NativeVideoPrefix = &self.sources.entries[slot].1;
        if prefix.kind != NativeVideoSourceKind::Live {
            return Err(NativeSourcePlaybackError::SourceNotLive { input });
        }
        match validate_live_update_timing(
            input,
            frame,
            prefix.last_source_pts,
            prefix.last_sequence,
            prefix.clock_domain,
        ) {
            Err(error) => {
                return Err(NativeSourcePlaybackError::Source(error));
            },
            Ok(_) => {},
        }
        match self.dimensions {
            None => Err(
                NativeSourcePlaybackError::Source(NativeSourceError::InvalidTimeline { input }),
            ),
            Some((width, height)) => {
                if frame.width != width || frame.height != height {
                    Err(
                        NativeSourcePlaybackError::Source(
                            NativeSourceError::DimensionMismatch {
                                input,
                                expected_width: width,
                                expected_height: height,
                                actual_width: frame.width,
                                actual_height: frame.height,
                            },
                        ),
                    )
                } else {
                    Ok(())
                }
            },
        }
    }

    /// Takes over a live frame, with what normalizing it came to.
    pub fn apply_live_frame(
        &mut self,
        input: InputId,
        frame: &VideoFrame,
        normalized: Result<WorkingFrame, OutsideFailure>,
    ) -> (applied: Result<(), NativeSourcePlaybackError>)
        requires
            old(self).wf(),
        ensures
            final(self).wf(),
            match applied {
                Ok(_) => ingested(old(self)@, input, *frame, normalized) == Ok::<
                    RegistryModel,
                    NativeSourcePlaybackError,
                >(final(self)@),
                Err(error) => final(self)@ == old(self)@ && ingested(
                    old(self)@,
                    input,
                    *frame,
                    normalized,
                ) == Err::<RegistryModel, NativeSourcePlaybackError>(error),
            },
    {
        match self.check_live_frame(input, frame) {
            Err(error) => {
                return Err(error);
            },
            Ok(_) => {},
        }
        let upload: WorkingFrame = match normalized {
            Err(error) => {
                return Err(NativeSourcePlaybackError::Normalize { input, error });
            },
            Ok(upload) => upload,
        };
        let slot: usize = match self.position(input) {
            None => {
                return Err(NativeSourcePlaybackError::SourceNotLive { input });
            },
            Some(slot) => slot,
        };
        let ghost before = self@;
        let mut frames: Vec<WorkingFrame> = Vec::new();
        frames.push(upload);
        proof {
            lemma_prefix_at(before, input);
            let place = ordered::lower_bound(ordered::entry_keys(before.sources), input);
            assert(before.sources[place].1.frames.len() == 1);
        }
        let offset_ns: u64 = (frame.timing.presentation_ns as i128
            - self.sources.entries[slot].1.source_pts_origin as i128) as u64;
        let mut offsets: Vec<u64> = Vec::new();
        offsets.push(offset_ns);
        assert(frames@ =~= seq![upload]);
        assert(offsets@ =~= seq![rebased(before.prefix(input)->Some_0, *frame)]);
        let prefix = &mut self.sources.entries[slot].1;
        prefix.frames = frames;
        prefix.offsets_ns = offsets;
        prefix.last_source_pts = frame.timing.presentation_ns;
        prefix.last_sequence = frame.timing.sequence;
        proof {
            let after = ingested(before, input, *frame, normalized)->Ok_0;
            assert(self@.sources =~= after.sources);
            let shown = PrefixModel {
                frames: seq![upload],
                offsets_ns: seq![offset_ns],
                last_source_pts: frame.timing.presentation_ns,
                last_sequence: frame.timing.sequence,
                ..before.prefix(input)->Some_0
            };
            lemma_with_prefix_wf(before, input, shown, before.retained_rgba16f_bytes);
        }
        Ok(())
    }
}

/// Bounded GPU source rings paired with one CPU-only background decode worker.
pub struct NativeSourcePlayback {
    pub registry: NativeSourceRegistry,
    pub failed: bool,
}

impl NativeSourcePlayback {
    /// Whether the rings are in order.
    pub open spec fn wf(self) -> bool {
        self.registry.wf()
    }

    /// Playback over the rings of a preflight.
    pub fn new(registry: NativeSourceRegistry) -> (playback: Self)
        requires
            registry.wf(),
        ensures
            playback.wf(),
            playback.registry == registry,
            !playback.failed,
    {
        NativeSourcePlayback { registry, failed: false }
    }

    /// Returns the immutable registry used by the existing render API.
    pub fn registry(&self) -> (registry: &NativeSourceRegistry)
        ensures
            *registry == self.registry,
    {
        &self.registry
    }

    /// Consumes playback into its current registry.
    pub fn into_registry(self) -> (registry: NativeSourceRegistry)
        ensures
            registry == self.registry,
    {
        self.registry
    }

    /// Marks playback as failed, which it stays.
    pub fn fail(&mut self)
        requires
            old(self).wf(),
        ensures
            final(self).wf(),
            final(self).failed,
            final(self).registry == old(self).registry,
    {
        self.failed = true;
    }

    /// Tells whether a service may begin: playback has not failed and, where it is
    /// confined to one input, that input is enabled for Stingers.
    pub fn begin_service(&self, only: Option<InputId>) -> (allowed: Result<
        (),
        NativeSourcePlaybackError,
    >)
        requires
            self.wf(),
        ensures
            allowed == (if self.failed {
                Err::<(), NativeSourcePlaybackError>(NativeSourcePlaybackError::Failed)
            } else {
                match only {
                    None => Ok(()),
                    Some(input) => match self.registry@.prefix(input) {
                        Some(prefix) => if prefix.available_for_stinger {
                            Ok(())
                        } else {
                            Err(NativeSourcePlaybackError::MissingSource { input })
                        },
                        None => Err(NativeSourcePlaybackError::MissingSource { input }),
                    },
                }
            }),
    {
        if self.failed {
            return Err(NativeSourcePlaybackError::Failed);
        }
        match only {
            None => Ok(()),
            Some(input) => match self.registry.position(input) {
                Some(slot) => {
                    if self.registry.sources.entries[slot].1.available_for_stinger {
                        Ok(())
                    } else {
                        Err(NativeSourcePlaybackError::MissingSource { input })
                    }
                },
                None => Err(NativeSourcePlaybackError::MissingSource { input }),
            },
        }
    }

    /// Takes over the answer to a request; playback fails with the first error.
    pub fn receive_page(
        &mut self,
        result: &NativeDecodeResult,
        normalized: Result<Vec<WorkingFrame>, OutsideFailure>,
    ) -> (received: Result<(), NativeSourcePlaybackError>)
        requires
            old(self).wf(),
            (answer(*result) is Ok && normalized is Ok) ==> normalized->Ok_0@.len()
                == answer(*result)->Ok_0.0.len(),
        ensures
            final(self).wf(),
            if old(self).failed {
                received == Err::<(), NativeSourcePlaybackError>(NativeSourcePlaybackError::Failed)
                    && final(self).failed && final(self).registry@ == old(self).registry@
            } else {
                match answered(
                    old(self).registry@,
                    result.request,
                    answer(*result),
                    upload_views(normalized),
                ) {
                    Ok(after) => received is Ok && final(self).registry@ == after && !final(self).failed,
                    Err(error) => received == Err::<(), NativeSourcePlaybackError>(error)
                        && final(self).failed && final(self).registry@ == old(self).registry@,
                }
            },
    {
        if self.failed {
            return Err(NativeSourcePlaybackError::Failed);
        }
        let received = self.registry.apply_page(result, normalized);
        if received.is_err() {
            self.failed = true;
        }
        received
    }

    /// Trims the rings, schedules refills, and tells whether the deadline is covered;
    /// playback fails with the first error.
    pub fn service(&mut self, deadline_ns: u64, only: Option<InputId>) -> (served: Result<
        (Vec<NativeDecodeRequest>, bool),
        NativeSourcePlaybackError,
    >)
        requires
            old(self).wf(),
        ensures
            final(self).wf(),
            if old(self).failed {
                served == Err::<(Vec<NativeDecodeRequest>, bool), NativeSourcePlaybackError>(
                    NativeSourcePlaybackError::Failed,
                ) && final(self).failed && final(self).registry@ == old(self).registry@
            } else {
                let service = serviced(old(self).registry@, deadline_ns, only);
                final(self).registry@ == service.registry && match service.covered {
                    Ok(covered) => served matches Ok((requests, ready)) && ready == covered
                        && requests@ == service.requests && !final(self).failed,
                    Err(error) => served == Err::<
                        (Vec<NativeDecodeRequest>, bool),
                        NativeSourcePlaybackError,
                    >(error) && final(self).failed,
                }
            },
            served matches Ok((_, true)) ==> known_up_to(
                final(self).registry@,
                deadline_ns,
                only,
            ),
    {
        if self.failed {
            return Err(NativeSourcePlaybackError::Failed);
        }
        let (requests, covered): (
            Vec<NativeDecodeRequest>,
            Result<bool, NativeSourcePlaybackError>,
        ) = self.registry.service(deadline_ns, only);
        match covered {
            Ok(ready) => Ok((requests, ready)),
            Err(error) => {
                self.failed = true;
                Err(error)
            },
        }
    }

    /// Takes over a live frame; playback fails with the first error.
    pub fn receive_live_frame(
        &mut self,
        input: InputId,
        frame: &VideoFrame,
        normalized: Result<WorkingFrame, OutsideFailure>,
    ) -> (received: Result<(), NativeSourcePlaybackError>)
        requires
            old(self).wf(),
        ensures
            final(self).wf(),
            if old(self).failed {
                received == Err::<(), NativeSourcePlaybackError>(NativeSourcePlaybackError::Failed)
                    && final(self).failed && final(self).registry@ == old(self).registry@
            } else {
                match ingested(old(self).registry@, input, *frame, normalized) {
                    Ok(after) => received is Ok && final(self).registry@ == after && !final(self).failed,
                    Err(error) => received == Err::<(), NativeSourcePlaybackError>(error)
                        && final(self).failed && final(self).registry@ == old(self).registry@,
                }
            },
    {
        if self.failed {
            return Err(NativeSourcePlaybackError::Failed);
        }
        let received = self.registry.apply_live_frame(input, frame, normalized);
        if received.is_err() {
            self.failed = true;
        }
        received
    }

    /// Pins one fully decoded source for clip-local Stinger playback.
    ///
    /// Pinned frames are not evicted by the global input timeline, so repeated
    /// Stinger triggers can restart from local frame zero without decode or
    /// upload work.
    ///
    /// # Errors
    ///
    /// Returns a typed error for failed playback, a missing source, a live
    /// source, or a local video longer than the configured GPU prefix bound.
    pub fn pin_stinger_source(&mut self, input: InputId) -> (pinned: Result<
        (),
        NativeSourcePlaybackError,
    >)
        requires
            old(self).wf(),
        ensures
            final(self).wf(),
            final(self).failed == old(self).failed,
            match stinger_verdict(old(self).failed, old(self).registry@, input, true) {
                Err(error) => pinned == Err::<(), NativeSourcePlaybackError>(error) && final(self).registry@ == old(self).registry@,
                Ok(_) => pinned is Ok && final(self).registry@ == with_prefix(
                    old(self).registry@,
                    input,
                    PrefixModel {
                        available_for_stinger: true,
                        pinned_for_stinger: true,
                        ..old(self).registry@.prefix(input)->Some_0
                    },
                    old(self).registry@.retained_rgba16f_bytes,
                ),
            },
    {
        if self.failed {
            return Err(NativeSourcePlaybackError::Failed);
        }
        let maximum_frames: u32 = self.registry.limits.max_video_frames_per_source;
        let slot: usize = match self.registry.position(input) {
            None => {
                return Err(NativeSourcePlaybackError::MissingSource { input });
            },
            Some(slot) => slot,
        };
        let ghost before = self.registry@;
        let kind: NativeVideoSourceKind = self.registry.sources.entries[slot].1.kind;
        if kind == NativeVideoSourceKind::Live {
            return Err(NativeSourcePlaybackError::StingerSourceIsLive { input });
        }
        if kind == NativeVideoSourceKind::Decoded
            && !self.registry.sources.entries[slot].1.end_of_stream {
            return Err(
                NativeSourcePlaybackError::StingerSourceNotFullyPreloaded {
                    input,
                    retained_frames: self.registry.sources.entries[slot].1.frames.len(),
                    maximum_frames,
                },
            );
        }
        let prefix = &mut self.registry.sources.entries[slot].1;
        prefix.available_for_stinger = true;
        prefix.pinned_for_stinger = true;
        proof {
            lemma_marking_keeps_registry(before, input, true, true);
            assert(self.registry@.sources =~= marked(before, input, true, true).sources);
        }
        Ok(())
    }

    /// Enables one decoded or retained source for an independently serviced
    /// clip-local Stinger ring without pinning its frames.
    ///
    /// # Errors
    ///
    /// Returns a typed failed-playback, missing-source, or live-source error.
    pub fn enable_stinger_source(&mut self, input: InputId) -> (enabled: Result<
        (),
        NativeSourcePlaybackError,
    >)
        requires
            old(self).wf(),
        ensures
            final(self).wf(),
            final(self).failed == old(self).failed,
            match stinger_verdict(old(self).failed, old(self).registry@, input, false) {
                Err(error) => enabled == Err::<(), NativeSourcePlaybackError>(error) && final(self).registry@ == old(self).registry@,
                Ok(_) => enabled is Ok && final(self).registry@ == with_prefix(
                    old(self).registry@,
                    input,
                    PrefixModel {
                        available_for_stinger: true,
                        ..old(self).registry@.prefix(input)->Some_0
                    },
                    old(self).registry@.retained_rgba16f_bytes,
                ),
            },
    {
        if self.failed {
            return Err(NativeSourcePlaybackError::Failed);
        }
        let slot: usize = match self.registry.position(input) {
            None => {
                return Err(NativeSourcePlaybackError::MissingSource { input });
            },
            Some(slot) => slot,
        };
        let ghost before = self.registry@;
        if self.registry.sources.entries[slot].1.kind == NativeVideoSourceKind::Live {
            return Err(NativeSourcePlaybackError::StingerSourceIsLive { input });
        }
        let prefix = &mut self.registry.sources.entries[slot].1;
        prefix.available_for_stinger = true;
        proof {
            let pinned = before.prefix(input)->Some_0.pinned_for_stinger;
            lemma_marking_keeps_registry(before, input, true, pinned);
            assert(self.registry@.sources =~= marked(before, input, true, pinned).sources);
        }
        Ok(())
    }
}

/// Whether a source may serve Stingers, pinned or not.
pub open spec fn stinger_verdict(
    failed: bool,
    registry: RegistryModel,
    input: InputId,
    pinned: bool,
) -> Result<(), NativeSourcePlaybackError> {
    if failed {
        Err(NativeSourcePlaybackError::Failed)
    } else {
        match registry.prefix(input) {
            None => Err(NativeSourcePlaybackError::MissingSource { input }),
            Some(prefix) => if prefix.kind == NativeVideoSourceKind::Live {
                Err(NativeSourcePlaybackError::StingerSourceIsLive { input })
            } else if pinned && prefix.kind == NativeVideoSourceKind::Decoded
                && !prefix.end_of_stream {
                Err(
                    NativeSourcePlaybackError::StingerSourceNotFullyPreloaded {
                        input,
                        retained_frames: prefix.frames.len() as usize,
                        maximum_frames: registry.limits.max_video_frames_per_source,
                    },
                )
            } else {
                Ok(())
            },
        }
    }
}

/// The registry with the Stinger marks of one source set.
pub open spec fn marked(
    registry: RegistryModel,
    input: InputId,
    available: bool,
    pinned: bool,
) -> RegistryModel {
    with_prefix(
        registry,
        input,
        PrefixModel {
            available_for_stinger: available,
            pinned_for_stinger: pinned,
            ..registry.prefix(input)->Some_0
        },
        registry.retained_rgba16f_bytes,
    )
}

proof fn lemma_marking_keeps_registry(
    registry: RegistryModel,
    input: InputId,
    available: bool,
    pinned: bool,
)
    requires
        registry.wf(),
        registry.prefix(input) is Some,
    ensures
        marked(registry, input, available, pinned).wf(),
{
    lemma_prefix_at(registry, input);
    let after = marked(registry, input, available, pinned);
    assert(ordered::entry_keys(after.sources) =~= ordered::entry_keys(registry.sources));
    assert(source_registry::claims(after.sources) =~= source_registry::claims(registry.sources));
    assert(source_registry::frame_counts(after.sources) =~= source_registry::frame_counts(
        registry.sources,
    ));
    let slot = ordered::lower_bound(ordered::entry_keys(registry.sources), input);
    assert forall|i: int| 0 <= i < after.sources.len() implies (#[trigger] after.sources[i]).1.wf(
        after.sources[i].0,
        after.limits,
    ) && (after.sources[i].1.kind == NativeVideoSourceKind::Live && after.dimensions is Some
        ==> after.sources[i].1.frames.len() == 1) by {
        assert(registry.sources[i].1.wf(registry.sources[i].0, registry.limits));
        if i != slot {
            assert(after.sources[i] == registry.sources[i]);
        }
    }
}

} // verus!
