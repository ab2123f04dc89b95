//! What a service of the rings does to each source, and what it asks the decoders for.
use vstd::prelude::*;

use crate::model::{InputId, OutsideFailure};
use crate::ordered;
use crate::picture_laws;
use crate::source;
use crate::source::VideoFrame;
use crate::source_playback;
use crate::source_playback::NativeSourcePlaybackError;
use crate::source_registry;
use crate::source_registry::{
    NativeDecodeOperation, NativeDecodeRequest, NativeVideoSourceKind, PrefixModel, RegistryModel,
    WorkingFrame,
};
use crate::sums;

verus! {

/// The frames that all sources hold or will hold once they are answered.
pub open spec fn all_claims(registry: RegistryModel) -> nat {
    sums::total(source_registry::claims(registry.sources))
}

/// The request that the source at place `i` has got once the first `i` sources had theirs.
spec fn request_at(
    registry: RegistryModel,
    deadline_ns: u64,
    only: Option<InputId>,
    i: int,
) -> Option<NativeDecodeRequest> {
    if source_playback::attends(only, registry.sources[i].0) {
        source_playback::refill_request(
            source_playback::scheduled(registry, deadline_ns, only, i as nat).0,
            i,
            deadline_ns,
        )
    } else {
        None
    }
}

proof fn lemma_scheduled(
    registry: RegistryModel,
    deadline_ns: u64,
    only: Option<InputId>,
    count: nat,
    i: int,
)
    requires
        registry.wf(),
        registry.dimensions is Some,
        count <= registry.sources.len(),
        0 <= i < count,
    ensures
        ({
            let (after, requests) = source_playback::scheduled(registry, deadline_ns, only, count);
            match request_at(registry, deadline_ns, only, i) {
                Some(request) => {
                    &&& request.input == registry.sources[i].0
                    &&& after.sources[i] == (
                        registry.sources[i].0,
                        PrefixModel { in_flight: Some(request), ..registry.sources[i].1 },
                    )
                    &&& exists|a: int| 0 <= a < requests.len() && #[trigger] requests[a] == request
                },
                None => after.sources[i] == registry.sources[i],
            }
        }),
    decreases count,
{
    let last = count - 1;
    source_playback::scheduling_keeps_registry_in_order(registry, deadline_ns, only, last as nat);
    let (now, before) = source_playback::scheduled(registry, deadline_ns, only, last as nat);
    let (after, requests) = source_playback::scheduled(registry, deadline_ns, only, count);
    assert(now.sources[last] == registry.sources[last]);
    if i < last {
        lemma_scheduled(registry, deadline_ns, only, last as nat, i);
        if let Some(request) = request_at(registry, deadline_ns, only, i) {
            let a = choose|a: int| 0 <= a < before.len() && #[trigger] before[a] == request;
            assert(requests[a] == request);
        }
    } else {
        if let Some(request) = request_at(registry, deadline_ns, only, i) {
            assert(requests[before.len() as int] == request);
        }
    }
}

proof fn lemma_requests(
    registry: RegistryModel,
    deadline_ns: u64,
    only: Option<InputId>,
    count: nat,
    a: int,
)
    requires
        registry.wf(),
        registry.dimensions is Some,
        count <= registry.sources.len(),
        0 <= a < source_playback::scheduled(registry, deadline_ns, only, count).1.len(),
    ensures
        exists|i: int|
            0 <= i < count && #[trigger] request_at(registry, deadline_ns, only, i) == Some(
                source_playback::scheduled(registry, deadline_ns, only, count).1[a],
            ),
    decreases count,
{
    if count > 0 {
        let last = count - 1;
        source_playback::scheduling_keeps_registry_in_order(
            registry,
            deadline_ns,
            only,
            last as nat,
        );
        let (now, before) = source_playback::scheduled(registry, deadline_ns, only, last as nat);
        let requests = source_playback::scheduled(registry, deadline_ns, only, count).1;
        assert(now.sources[last] == registry.sources[last]);
        if a < before.len() {
            lemma_requests(registry, deadline_ns, only, last as nat, a);
            let i = choose|i: int|
                0 <= i < last && #[trigger] request_at(registry, deadline_ns, only, i) == Some(
                    before[a],
                );
            assert(request_at(registry, deadline_ns, only, i) == Some(requests[a]));
        } else {
            assert(request_at(registry, deadline_ns, only, last) == Some(requests[a]));
        }
    }
}

/// The claims after a source has been asked for more never get less as others are asked.
proof fn lemma_claims_grow(
    registry: RegistryModel,
    deadline_ns: u64,
    only: Option<InputId>,
    from: nat,
    to: nat,
)
    requires
        registry.wf(),
        registry.dimensions is Some,
        from <= to <= registry.sources.len(),
    ensures
        all_claims(source_playback::scheduled(registry, deadline_ns, only, from).0) <= all_claims(
            source_playback::scheduled(registry, deadline_ns, only, to).0,
        ),
    decreases to - from,
{
    if from < to {
        let last = to - 1;
        lemma_claims_grow(registry, deadline_ns, only, from, last as nat);
        source_playback::scheduling_keeps_registry_in_order(
            registry,
            deadline_ns,
            only,
            last as nat,
        );
        let now = source_playback::scheduled(registry, deadline_ns, only, last as nat).0;
        source_playback::request_keeps_registry_in_order(now, last, deadline_ns);
        if let Some(request) = source_playback::refill_request(now, last, deadline_ns) {
            let after = source_playback::awaiting(now, last, request);
            let claims = source_registry::claims(now.sources);
            assert(source_registry::claims(after.sources) =~= claims.update(
                last,
                after.sources[last].1.claim(),
            ));
            sums::lemma_total_update(claims, last, after.sources[last].1.claim());
        }
    }
}

/// Whether a source has to be decoded again from its beginning: it is a decoded clip that is
/// ready for Stingers, awaits no answer, and holds nothing but frames that come after the
/// deadline.
pub open spec fn must_begin_again(prefix: PrefixModel, deadline_ns: u64) -> bool {
    &&& prefix.kind == NativeVideoSourceKind::Decoded
    &&& prefix.available_for_stinger
    &&& prefix.in_flight is None
    &&& prefix.frames.len() > 0
    &&& forall|i: int|
        0 <= i < prefix.offsets_ns.len() ==> #[trigger] prefix.offsets_ns[i] > deadline_ns
}

/// What is decided for one source that awaits no answer.
proof fn lemma_request(registry: RegistryModel, i: int, deadline_ns: u64)
    requires
        registry.wf(),
        registry.dimensions is Some,
        0 <= i < registry.sources.len(),
    ensures
        ({
            let (input, prefix) = registry.sources[i];
            let unit = registry.frame_bytes();
            let limit = registry.limits.max_retained_rgba16f_bytes;
            let asked = source_playback::refill_request(registry, i, deadline_ns);
            let again = must_begin_again(prefix, deadline_ns);
            let own = prefix.frames.len();
            let most = registry.limits.max_video_frames_per_source;
            &&& unit > 0
            &&& asked is Some ==> {
                &&& prefix.kind == NativeVideoSourceKind::Decoded
                &&& prefix.in_flight is None
                &&& asked->Some_0.input == input
                &&& asked->Some_0.count > 0
            }
            &&& again ==> asked is Some
            &&& asked is Some && again ==> {
                &&& asked->Some_0.operation == NativeDecodeOperation::Restart
                &&& own <= asked->Some_0.count <= most
                &&& asked->Some_0.count < most ==> unit * (all_claims(registry) - own
                    + asked->Some_0.count + 1) > limit
            }
            &&& asked is Some && !again ==> {
                &&& asked->Some_0.operation == NativeDecodeOperation::Continue
                &&& !prefix.end_of_stream
                &&& own <= 4
                &&& asked->Some_0.count <= 4
                &&& own + asked->Some_0.count <= most
                &&& asked->Some_0.count < 4 && own + asked->Some_0.count < most ==> unit * (
                all_claims(registry) + asked->Some_0.count + 1) > limit
            }
            &&& asked is None && !again && prefix.kind == NativeVideoSourceKind::Decoded
                && prefix.in_flight is None && !prefix.end_of_stream && own <= 4 && own < most
                ==> unit * (all_claims(registry) + 1) > limit
        }),
{
    let (input, prefix) = registry.sources[i];
    assert(prefix.wf(input, registry.limits));
    source_playback::request_keeps_registry_in_order(registry, i, deadline_ns);
    let unit = registry.frame_bytes() as int;
    let claims = source_registry::claims(registry.sources);
    let total = sums::total(claims) as int;
    let own = prefix.frames.len() as int;
    let limit = registry.limits.max_retained_rgba16f_bytes as int;
    let again = must_begin_again(prefix, deadline_ns);
    let restart = prefix.available_for_stinger && prefix.offsets_ns.len() > 0
        && prefix.offsets_ns[0] > deadline_ns;
    if restart {
        assert forall|k: int| 0 <= k < prefix.offsets_ns.len() implies #[trigger] prefix.offsets_ns[k]
            > deadline_ns by {
            if k > 0 {
                assert(prefix.offsets_ns[0] < prefix.offsets_ns[k]);
            }
        }
    }
    sums::lemma_total_update(claims, i, 0);
    assert(own <= claims[i]);
    let (width, height) = registry.dimensions->Some_0;
    assert(unit > 0) by (nonlinear_arith)
        requires
            width > 0,
            height > 0,
            unit == width * height * 8,
    ;
    assert(0 <= unit * own <= unit * total) by (nonlinear_arith)
        requires
            0 <= own <= total,
            unit >= 0,
    ;
    let spare = if restart {
        limit - (unit * total - unit * own)
    } else {
        limit - unit * total
    };
    let budget = spare / unit;
    assert(unit * budget <= spare && 0 <= budget <= spare && spare < unit * budget + unit)
        by (nonlinear_arith)
        requires
            unit > 0,
            spare >= 0,
            budget == spare / unit,
    ;
    if restart {
        assert(own <= budget) by (nonlinear_arith)
            requires
                unit > 0,
                spare >= unit * own,
                spare < unit * budget + unit,
        ;
        assert(unit * (total - own + budget + 1) == unit * total - unit * own + unit * budget + unit)
            by (nonlinear_arith);
    } else {
        assert(unit * (total + budget + 1) == unit * total + unit * budget + unit)
            by (nonlinear_arith);
    }
}

/// A service asks for a clip again from its beginning whenever playback has gone back before all
/// that is held of it, whether or not the clip had come to its end: one request, and no other for
/// that source, for as many frames as the ring and the byte limit allow.
pub proof fn clips_begin_again(
    registry: RegistryModel,
    deadline_ns: u64,
    only: Option<InputId>,
    i: int,
)
    requires
        registry.wf(),
        0 <= i < registry.sources.len(),
        only is None || only == Some(registry.sources[i].0),
        must_begin_again(registry.sources[i].1, deadline_ns),
    ensures
        ({
            let requests = source_playback::serviced(registry, deadline_ns, only).requests;
            let (input, prefix) = registry.sources[i];
            exists|a: int|
                {
                    &&& 0 <= a < requests.len()
                    &&& (#[trigger] requests[a]).input == input
                    &&& requests[a].operation == NativeDecodeOperation::Restart
                    &&& prefix.frames.len() <= requests[a].count
                    &&& requests[a].count <= registry.limits.max_video_frames_per_source
                    &&& forall|b: int|
                        0 <= b < requests.len() && b != a ==> (#[trigger] requests[b]).input
                            != input
                }
        }),
{
    let (input, prefix) = registry.sources[i];
    assert(prefix.wf(input, registry.limits));
    lemma_dimensions(registry, i);
    let n = registry.sources.len();
    let kept = source_playback::trimmed_registry(registry, deadline_ns, only, n as int);
    source_playback::lemma_trimmed_registry(registry, deadline_ns, only, n as int);
    lemma_nothing_due(prefix, input, registry.limits, deadline_ns);
    assert(kept.sources[i] == registry.sources[i]);
    source_playback::scheduling_keeps_registry_in_order(kept, deadline_ns, only, i as nat);
    let now = source_playback::scheduled(kept, deadline_ns, only, i as nat).0;
    assert(now.sources[i] == registry.sources[i]);
    lemma_request(now, i, deadline_ns);
    lemma_scheduled(kept, deadline_ns, only, n, i);
    let requests = source_playback::serviced(registry, deadline_ns, only).requests;
    let request = request_at(kept, deadline_ns, only, i)->Some_0;
    let a = choose|a: int| 0 <= a < requests.len() && #[trigger] requests[a] == request;
    assert forall|b: int| 0 <= b < requests.len() && b != a implies (#[trigger] requests[b]).input
        != input by {
        if a < b {
            source_playback::requests_are_single_flight(kept, deadline_ns, only, n, a, b);
        } else {
            source_playback::requests_are_single_flight(kept, deadline_ns, only, n, b, a);
        }
    }
}

/// A source that holds frames has a size.
proof fn lemma_dimensions(registry: RegistryModel, i: int)
    requires
        registry.wf(),
        0 <= i < registry.sources.len(),
        registry.sources[i].1.frames.len() > 0 || registry.sources[i].1.in_flight is Some,
    ensures
        registry.dimensions is Some,
{
    let claims = source_registry::claims(registry.sources);
    assert(registry.sources[i].1.wf(registry.sources[i].0, registry.limits));
    sums::lemma_total_update(claims, i, 0);
    assert(claims[i] > 0);
}

proof fn lemma_nothing_due(
    prefix: PrefixModel,
    input: InputId,
    limits: source::NativeSourceLimits,
    deadline_ns: u64,
)
    requires
        prefix.wf(input, limits),
        forall|i: int|
            0 <= i < prefix.offsets_ns.len() ==> #[trigger] prefix.offsets_ns[i] > deadline_ns,
    ensures
        source_playback::trimmed(prefix, deadline_ns) == prefix,
{
    source_registry::lemma_ascending_is_sorted(prefix.offsets_ns);
    source::lemma_shown_index(prefix.offsets_ns, deadline_ns);
    assert(source_playback::trimmed(prefix, deadline_ns) =~= prefix);
}

/// Whether a ring is what is left of another once frames that nothing needs any more are let go:
/// those before the last one that is due, unless the ring is pinned.
pub open spec fn is_rest_of(rest: PrefixModel, before: PrefixModel, deadline_ns: u64) -> bool {
    exists|gone: int|
        {
            &&& 0 <= gone <= before.frames.len()
            &&& rest.frames == #[trigger] before.frames.skip(gone)
            &&& rest.offsets_ns == before.offsets_ns.skip(gone)
            // What is let go stands before a frame that is due, and is not pinned.
            &&& gone > 0 ==> !before.pinned_for_stinger && gone < before.offsets_ns.len()
                && before.offsets_ns[gone] <= deadline_ns
            // Of what is due, only the last stays.
            &&& !before.pinned_for_stinger && gone + 1 < before.offsets_ns.len()
                ==> before.offsets_ns[gone + 1] > deadline_ns
        }
}

/// Whether two rings are alike but for their frames and the request on its way.
pub open spec fn is_same_source(a: PrefixModel, b: PrefixModel) -> bool {
    &&& a.source_pts_origin == b.source_pts_origin
    &&& a.last_source_pts == b.last_source_pts
    &&& a.last_sequence == b.last_sequence
    &&& a.clock_domain == b.clock_domain
    &&& a.kind == b.kind
    &&& a.end_of_stream == b.end_of_stream
    &&& a.available_for_stinger == b.available_for_stinger
    &&& a.pinned_for_stinger == b.pinned_for_stinger
}

proof fn lemma_rest(
    prefix: PrefixModel,
    input: InputId,
    limits: source::NativeSourceLimits,
    deadline_ns: u64,
)
    requires
        prefix.wf(input, limits),
    ensures
        is_rest_of(source_playback::trimmed(prefix, deadline_ns), prefix, deadline_ns),
        is_same_source(source_playback::trimmed(prefix, deadline_ns), prefix),
        source_playback::trimmed(prefix, deadline_ns).in_flight == prefix.in_flight,
{
    source_playback::lemma_trimmed(prefix, input, limits, deadline_ns);
    source_registry::lemma_ascending_is_sorted(prefix.offsets_ns);
    source::lemma_shown_index(prefix.offsets_ns, deadline_ns);
    let gone = source_playback::let_go(prefix, deadline_ns);
    let rest = source_playback::trimmed(prefix, deadline_ns);
    assert(rest.frames == prefix.frames.skip(gone));
}

/// What a service leaves of each source: the frames that are needed from the deadline on, and
/// the request on its way, its own or a new one; a source that it does not attend to stays as it
/// is. Nothing else of the rings changes.
pub proof fn services_let_go_what_is_past(
    registry: RegistryModel,
    deadline_ns: u64,
    only: Option<InputId>,
    i: int,
)
    requires
        registry.wf(),
        0 <= i < registry.sources.len(),
    ensures
        ({
            let service = source_playback::serviced(registry, deadline_ns, only);
            let (input, before) = registry.sources[i];
            let (same, after) = service.registry.sources[i];
            let attended = only is None || only == Some(input);
            &&& service.registry.sources.len() == registry.sources.len()
            &&& service.registry.dimensions == registry.dimensions
            &&& service.registry.limits == registry.limits
            &&& same == input
            &&& is_same_source(after, before)
            &&& !attended ==> after == before
            &&& registry.dimensions is Some && attended ==> is_rest_of(after, before, deadline_ns)
            &&& before.in_flight is Some ==> after.in_flight == before.in_flight
            &&& before.in_flight is None && after.in_flight is Some ==> attended && exists|a: int|
                0 <= a < service.requests.len() && #[trigger] service.requests[a]
                    == after.in_flight->Some_0
        }),
{
    let (input, before) = registry.sources[i];
    assert(before.wf(input, registry.limits));
    if registry.dimensions is Some {
        let n = registry.sources.len();
        let kept = source_playback::trimmed_registry(registry, deadline_ns, only, n as int);
        source_playback::lemma_trimmed_registry(registry, deadline_ns, only, n as int);
        lemma_rest(before, input, registry.limits, deadline_ns);
        source_playback::scheduling_keeps_registry_in_order(kept, deadline_ns, only, n);
        source_playback::scheduling_keeps_registry_in_order(kept, deadline_ns, only, i as nat);
        lemma_scheduled(kept, deadline_ns, only, n, i);
        let now = source_playback::scheduled(kept, deadline_ns, only, i as nat).0;
        assert(now.sources[i] == kept.sources[i]);
        lemma_request(now, i, deadline_ns);
        let after = source_playback::serviced(registry, deadline_ns, only).registry.sources[i].1;
        let trimmed = source_playback::trimmed(before, deadline_ns);
        if source_playback::attends(only, input) {
            assert(kept.sources[i].1 == trimmed);
            assert(after.frames == trimmed.frames && after.offsets_ns == trimmed.offsets_ns);
            let gone = choose|gone: int|
                {
                    &&& 0 <= gone <= before.frames.len()
                    &&& trimmed.frames == #[trigger] before.frames.skip(gone)
                    &&& trimmed.offsets_ns == before.offsets_ns.skip(gone)
                    &&& gone > 0 ==> !before.pinned_for_stinger && gone < before.offsets_ns.len()
                        && before.offsets_ns[gone] <= deadline_ns
                    &&& !before.pinned_for_stinger && gone + 1 < before.offsets_ns.len()
                        ==> before.offsets_ns[gone + 1] > deadline_ns
                };
            assert(after.frames == before.frames.skip(gone));
            assert(is_rest_of(after, before, deadline_ns));
        }
        let service = source_playback::serviced(registry, deadline_ns, only);
        let attended = only is None || only == Some(input);
        assert(attended == source_playback::attends(only, input));
        if before.in_flight is None && after.in_flight is Some {
            let request = after.in_flight->Some_0;
            assert(request_at(kept, deadline_ns, only, i) == Some(request));
            let a = choose|a: int|
                0 <= a < service.requests.len() && #[trigger] service.requests[a] == request;
            assert(service.requests[a] == request);
            assert(attended);
        }
    }
}

/// Whether a source is in want of frames: it is decoded, has not ended, awaits no answer, is not
/// to begin again, and holds so few that it is to be filled.
pub open spec fn wants_more(prefix: PrefixModel, most: u32, deadline_ns: u64) -> bool {
    &&& prefix.kind == NativeVideoSourceKind::Decoded
    &&& !prefix.end_of_stream
    &&& prefix.in_flight is None
    &&& !must_begin_again(prefix, deadline_ns)
    &&& prefix.frames.len() <= 4
    &&& prefix.frames.len() < most
}

/// A source that is in want of frames once what is past has been let go is asked to go on, for
/// as many frames as one page, its ring and the byte limit allow. It is passed over only where
/// not even one frame has room.
pub proof fn sources_are_filled(
    registry: RegistryModel,
    deadline_ns: u64,
    only: Option<InputId>,
    i: int,
)
    requires
        registry.wf(),
        registry.dimensions is Some,
        0 <= i < registry.sources.len(),
        only is None || only == Some(registry.sources[i].0),
        ({
            let after = source_playback::serviced(
                registry,
                deadline_ns,
                only,
            ).registry.sources[i].1;
            wants_more(
                PrefixModel { in_flight: registry.sources[i].1.in_flight, ..after },
                registry.limits.max_video_frames_per_source,
                deadline_ns,
            )
        }),
    ensures
        ({
            let service = source_playback::serviced(registry, deadline_ns, only);
            let after = service.registry.sources[i].1;
            let most = registry.limits.max_video_frames_per_source;
            let full = registry.frame_bytes() * (all_claims(service.registry) + 1)
                > registry.limits.max_retained_rgba16f_bytes;
            match after.in_flight {
                Some(request) => {
                    &&& request.input == registry.sources[i].0
                    &&& request.operation == NativeDecodeOperation::Continue
                    &&& 0 < request.count <= 4
                    &&& after.frames.len() + request.count <= most
                    &&& request.count < 4 && after.frames.len() + request.count < most ==> full
                },
                None => full,
            }
        }),
{
    let n = registry.sources.len();
    let kept = source_playback::trimmed_registry(registry, deadline_ns, only, n as int);
    source_playback::lemma_trimmed_registry(registry, deadline_ns, only, n as int);
    source_playback::scheduling_keeps_registry_in_order(kept, deadline_ns, only, i as nat);
    source_playback::scheduling_keeps_registry_in_order(kept, deadline_ns, only, n);
    lemma_scheduled(kept, deadline_ns, only, n, i);
    lemma_scheduled(kept, deadline_ns, only, (i + 1) as nat, i);
    source_playback::scheduling_keeps_registry_in_order(kept, deadline_ns, only, (i + 1) as nat);
    let now = source_playback::scheduled(kept, deadline_ns, only, i as nat).0;
    let next = source_playback::scheduled(kept, deadline_ns, only, (i + 1) as nat).0;
    let end = source_playback::scheduled(kept, deadline_ns, only, n).0;
    assert(now.sources[i] == kept.sources[i]);
    lemma_request(now, i, deadline_ns);
    lemma_claims_grow(kept, deadline_ns, only, (i + 1) as nat, n);
    let unit = registry.frame_bytes() as int;
    let asked = source_playback::refill_request(now, i, deadline_ns);
    let prefix = kept.sources[i].1;
    assert(kept.sources[i].0 == registry.sources[i].0);
    assert(source_playback::attends(only, now.sources[i].0));
    let claims = source_registry::claims(now.sources);
    let more = match asked {
        Some(request) => {
            assert(next == source_playback::awaiting(now, i, request));
            assert(source_registry::claims(next.sources) =~= claims.update(
                i,
                next.sources[i].1.claim(),
            ));
            sums::lemma_total_update(claims, i, next.sources[i].1.claim());
            assert(all_claims(next) == all_claims(now) + request.count);
            request.count as int
        },
        None => {
            assert(next == now);
            0
        },
    };
    let small = all_claims(now) + more + 1;
    let large = all_claims(end) + 1;
    assert(unit * small <= unit * large) by (nonlinear_arith)
        requires
            small <= large,
            unit >= 0,
    ;
    assert(now.frame_bytes() == registry.frame_bytes());
}

/// Every request goes to a decoded source that the service attends to and that awaited no
/// answer, and that source awaits it then. One that has ended is asked only to begin again.
pub proof fn requests_go_to_sources_that_want_them(
    registry: RegistryModel,
    deadline_ns: u64,
    only: Option<InputId>,
    a: int,
)
    requires
        registry.wf(),
        0 <= a < source_playback::serviced(registry, deadline_ns, only).requests.len(),
    ensures
        ({
            let service = source_playback::serviced(registry, deadline_ns, only);
            let request = service.requests[a];
            exists|i: int|
                {
                    &&& 0 <= i < registry.sources.len()
                    &&& (#[trigger] registry.sources[i]).0 == request.input
                    &&& only is None || only == Some(request.input)
                    &&& registry.sources[i].1.kind == NativeVideoSourceKind::Decoded
                    &&& registry.sources[i].1.in_flight is None
                    &&& service.registry.sources[i].1.in_flight == Some(request)
                    &&& request.operation == NativeDecodeOperation::Restart <==> must_begin_again(
                        registry.sources[i].1,
                        deadline_ns,
                    )
                    &&& registry.sources[i].1.end_of_stream ==> request.operation
                        == NativeDecodeOperation::Restart
                }
        }),
{
    let n = registry.sources.len();
    let kept = source_playback::trimmed_registry(registry, deadline_ns, only, n as int);
    source_playback::lemma_trimmed_registry(registry, deadline_ns, only, n as int);
    lemma_requests(kept, deadline_ns, only, n, a);
    let requests = source_playback::serviced(registry, deadline_ns, only).requests;
    let i = choose|i: int|
        0 <= i < n && #[trigger] request_at(kept, deadline_ns, only, i) == Some(requests[a]);
    source_playback::scheduling_keeps_registry_in_order(kept, deadline_ns, only, i as nat);
    let now = source_playback::scheduled(kept, deadline_ns, only, i as nat).0;
    assert(now.sources[i] == kept.sources[i]);
    lemma_request(now, i, deadline_ns);
    lemma_scheduled(kept, deadline_ns, only, n, i);
    let (input, prefix) = registry.sources[i];
    assert(prefix.wf(input, registry.limits));
    source_playback::lemma_trimmed(prefix, input, registry.limits, deadline_ns);
    let trimmed = source_playback::trimmed(prefix, deadline_ns);
    assert(kept.sources[i].1 == trimmed);
    source_registry::lemma_ascending_is_sorted(prefix.offsets_ns);
    source::lemma_shown_index(prefix.offsets_ns, deadline_ns);
    if must_begin_again(prefix, deadline_ns) {
        lemma_nothing_due(prefix, input, registry.limits, deadline_ns);
    }
    if must_begin_again(trimmed, deadline_ns) {
        let gone = source_playback::let_go(prefix, deadline_ns);
        if gone > 0 {
            assert(trimmed.offsets_ns[0] == prefix.offsets_ns[gone]);
        }
        assert(trimmed =~= prefix);
    }
    assert(registry.sources[i].0 == requests[a].input);
}

/// Whether a source can be shown at the deadline: it is not beginning again, and one of its
/// frames is to be seen; of a live source more has to be known than that it has a frame.
pub open spec fn can_be_shown(prefix: PrefixModel, deadline_ns: u64) -> bool {
    &&& !(prefix.in_flight matches Some(request) && request.operation
        == NativeDecodeOperation::Restart)
    &&& exists|i: int| #[trigger] picture_laws::is_seen(prefix, i, deadline_ns)
    &&& prefix.kind == NativeVideoSourceKind::Live ==> prefix.end_of_stream
        || prefix.offsets_ns.last() >= deadline_ns
}

proof fn lemma_ready(
    prefix: PrefixModel,
    input: InputId,
    limits: source::NativeSourceLimits,
    deadline_ns: u64,
)
    requires
        prefix.wf(input, limits),
    ensures
        prefix.is_ready(deadline_ns) <==> can_be_shown(prefix, deadline_ns),
{
    source_registry::lemma_ascending_is_sorted(prefix.offsets_ns);
    source::lemma_shown_index(prefix.offsets_ns, deadline_ns);
    if prefix.is_ready(deadline_ns) {
        let i = if prefix.kind == NativeVideoSourceKind::Live {
            prefix.frames.len() - 1
        } else {
            source::shown_index(prefix.offsets_ns, deadline_ns)->Some_0
        };
        assert(picture_laws::is_seen(prefix, i, deadline_ns));
    }
    if can_be_shown(prefix, deadline_ns) {
        let i = choose|i: int| #[trigger] picture_laws::is_seen(prefix, i, deadline_ns);
        if prefix.kind != NativeVideoSourceKind::Live && i > 0 {
            assert(prefix.offsets_ns[0] < prefix.offsets_ns[i]);
        }
    }
}

/// A service tells that the deadline is covered exactly where every source that it attends to
/// can be shown then. It fails only for an input that is not there.
pub proof fn services_tell_what_can_be_shown(
    registry: RegistryModel,
    deadline_ns: u64,
    only: Option<InputId>,
)
    requires
        registry.wf(),
        registry.sources.len() > 0,
    ensures
        ({
            let service = source_playback::serviced(registry, deadline_ns, only);
            match service.covered {
                Ok(covered) => {
                    &&& covered <==> forall|i: int|
                        0 <= i < registry.sources.len() && (only is None || only == Some(
                            registry.sources[i].0,
                        )) ==> can_be_shown(
                            (#[trigger] service.registry.sources[i]).1,
                            deadline_ns,
                        )
                    &&& only matches Some(input) ==> exists|i: int|
                        0 <= i < registry.sources.len() && (#[trigger] registry.sources[i]).0
                            == input
                },
                Err(error) => only matches Some(input) && error == (
                NativeSourcePlaybackError::MissingSource { input }) && forall|i: int|
                    0 <= i < registry.sources.len() ==> (#[trigger] registry.sources[i]).0
                        != input,
            }
        }),
{
    let service = source_playback::serviced(registry, deadline_ns, only);
    let after = service.registry;
    let n = registry.sources.len();
    if registry.dimensions is Some {
        let kept = source_playback::trimmed_registry(registry, deadline_ns, only, n as int);
        source_playback::lemma_trimmed_registry(registry, deadline_ns, only, n as int);
        source_playback::scheduling_keeps_registry_in_order(kept, deadline_ns, only, n);
        assert forall|i: int| 0 <= i < n implies (#[trigger] after.sources[i]).0
            == registry.sources[i].0 by {
            assert(kept.sources[i].0 == registry.sources[i].0);
        }
    }
    assert forall|i: int| 0 <= i < n implies (#[trigger] after.sources[i]).1.is_ready(deadline_ns)
        <==> can_be_shown(after.sources[i].1, deadline_ns) by {
        assert(after.sources[i].1.wf(after.sources[i].0, after.limits));
        lemma_ready(after.sources[i].1, after.sources[i].0, after.limits, deadline_ns);
    }
    if let Some(input) = only {
        let keys = ordered::entry_keys(after.sources);
        let slot = ordered::lower_bound(keys, input);
        ordered::lemma_lower_bound(keys, input);
        ordered::lemma_contains_at_lower_bound(keys, input);
        assert forall|i: int| 0 <= i < n && (#[trigger] registry.sources[i]).0 == input implies i
            == slot && slot < n && after.sources[slot].0 == input by {
            assert(after.sources[i].0 == input);
            assert(keys[i] == input);
            assert(keys.contains(input));
            lemma_one_place(after.sources, i, slot);
        }
        if after.prefix(input) is Some {
            assert(registry.sources[slot].0 == after.sources[slot].0);
        }
    }
}

proof fn lemma_one_place(sources: Seq<(InputId, PrefixModel)>, i: int, k: int)
    requires
        ordered::ascending(ordered::entry_keys(sources)),
        0 <= i < sources.len(),
        0 <= k < sources.len(),
        sources[i].0 == sources[k].0,
    ensures
        i == k,
{
    let keys = ordered::entry_keys(sources);
    assert(keys[i] == sources[i].0 && keys[k] == sources[k].0);
}

/// A live frame takes the place of the one before it, and is what the source shows from then on,
/// at whatever deadline. No other source changes. It is taken exactly where the source is live
/// and the frame has a duration, comes by the clock of the source, later and with a larger
/// number than the last, in the size that the sources share, and could be normalized.
pub proof fn live_frames_are_shown_at_once(
    registry: RegistryModel,
    input: InputId,
    frame: VideoFrame,
    normalized: Result<WorkingFrame, OutsideFailure>,
    i: int,
)
    requires
        registry.wf(),
        0 <= i < registry.sources.len(),
    ensures
        ({
            let (other, prefix) = registry.sources[i];
            let outcome = source_playback::ingested(registry, input, frame, normalized);
            &&& other == input ==> (outcome is Ok <==> {
                &&& prefix.kind == NativeVideoSourceKind::Live
                &&& frame.timing.duration_ns > 0
                &&& frame.timing.clock_domain == prefix.clock_domain
                &&& frame.timing.presentation_ns > prefix.last_source_pts
                &&& frame.timing.sequence > prefix.last_sequence
                &&& registry.dimensions == Some((frame.width, frame.height))
                &&& normalized is Ok
            })
            &&& outcome matches Ok(after) ==> {
                &&& after.sources.len() == registry.sources.len()
                &&& after.sources[i].0 == other
                &&& other != input ==> after.sources[i].1 == prefix
                &&& other == input ==> {
                    let shown = after.sources[i].1;
                    &&& forall|deadline_ns: u64|
                        #[trigger] shown.frame_at(deadline_ns) == Some(normalized->Ok_0)
                    &&& shown.last_source_pts == frame.timing.presentation_ns
                    &&& shown.last_sequence == frame.timing.sequence
                    &&& shown.frames.len() == 1
                    &&& shown.offsets_ns[0] == frame.timing.presentation_ns
                        - shown.source_pts_origin
                    &&& shown.source_pts_origin == prefix.source_pts_origin
                    &&& shown.clock_domain == prefix.clock_domain && shown.kind == prefix.kind
                }
            }
        }),
{
    let (other, prefix) = registry.sources[i];
    let keys = ordered::entry_keys(registry.sources);
    let slot = ordered::lower_bound(keys, input);
    ordered::lemma_lower_bound(keys, input);
    ordered::lemma_contains_at_lower_bound(keys, input);
    if other == input {
        assert(keys[i] == input);
        assert(keys.contains(input));
        lemma_one_place(registry.sources, i, slot);
    }
    assert(prefix.wf(other, registry.limits));
    if let Ok(after) = source_playback::ingested(registry, input, frame, normalized) {
        source_playback::lemma_prefix_at(registry, input);
        let live = registry.sources[slot].1;
        assert(live.frames.len() == 1);
        assert(live.offsets_ns.last() == live.last_source_pts - live.source_pts_origin);
    }
}

/// Whether the frames of an answer go on from where a source is: by its clock, each later than
/// the one before and counted up by one, and in the size that the sources share. One that begins
/// again begins to count anew.
pub open spec fn go_on(
    registry: RegistryModel,
    prefix: PrefixModel,
    operation: NativeDecodeOperation,
    frames: Seq<VideoFrame>,
) -> bool {
    let again = operation == NativeDecodeOperation::Restart;
    &&& forall|k: int|
        0 <= k < frames.len() ==> {
            let timing = (#[trigger] frames[k]).timing;
            let origin = if again {
                frames[0].timing.presentation_ns
            } else {
                prefix.source_pts_origin
            };
            &&& timing.clock_domain == prefix.clock_domain
            &&& timing.sequence == k + (if again {
                0
            } else {
                prefix.last_sequence + 1
            })
            &&& 0 <= timing.presentation_ns - origin <= u64::MAX
            &&& !again ==> timing.presentation_ns > prefix.last_source_pts
            &&& registry.dimensions == Some((frames[k].width, frames[k].height))
        }
    &&& forall|j: int, k: int|
        0 <= j < k < frames.len() ==> (#[trigger] frames[j]).timing.presentation_ns < (
        #[trigger] frames[k]).timing.presentation_ns
}

/// The answer to a request is taken exactly where the source awaits that very request, the
/// decoder keeps to it, and the frames go on from where the source is.
pub proof fn answers_are_taken_where_they_go_on(
    registry: RegistryModel,
    request: NativeDecodeRequest,
    frames: Seq<VideoFrame>,
    end_of_stream: bool,
    uploads: Seq<WorkingFrame>,
    i: int,
)
    requires
        registry.wf(),
        0 <= i < registry.sources.len(),
        registry.sources[i].0 == request.input,
    ensures
        ({
            let prefix = registry.sources[i].1;
            let outcome = source_playback::answered(
                registry,
                request,
                Ok((frames, end_of_stream)),
                Ok(uploads),
            );
            outcome is Ok <==> {
                &&& prefix.in_flight == Some(request)
                &&& frames.len() <= request.count
                &&& frames.len() < request.count ==> end_of_stream
                &&& frames.len() == 0 ==> request.operation != NativeDecodeOperation::Restart
                &&& go_on(registry, prefix, request.operation, frames)
            }
        }),
{
    let (input, prefix) = registry.sources[i];
    let keys = ordered::entry_keys(registry.sources);
    let slot = ordered::lower_bound(keys, input);
    ordered::lemma_lower_bound(keys, input);
    ordered::lemma_contains_at_lower_bound(keys, input);
    assert(keys[i] == input);
    assert(keys.contains(input));
    lemma_one_place(registry.sources, i, slot);
    assert(prefix.wf(input, registry.limits));
    let again = request.operation == NativeDecodeOperation::Restart;
    if prefix.in_flight is Some {
        lemma_dimensions(registry, i);
        let (width, height) = registry.dimensions->Some_0;
        lemma_sizes(frames, width, height);
    }
    if frames.len() > 0 && prefix.in_flight is Some {
        let origin = if again {
            frames[0].timing.presentation_ns
        } else {
            prefix.source_pts_origin
        };
        let previous = if again {
            None
        } else {
            Some(prefix.last_source_pts)
        };
        let (width, height) = registry.dimensions->Some_0;
        if again || prefix.last_sequence < u64::MAX {
            let expected = if again {
                0u64
            } else {
                (prefix.last_sequence + 1) as u64
            };
            lemma_timeline(frames, origin, previous, expected, prefix.clock_domain);
            if go_on(registry, prefix, request.operation, frames) {
                assert forall|k: int| 0 <= k < frames.len() implies (
                #[trigger] frames[k]).timing.clock_domain == prefix.clock_domain
                    && frames[k].timing.sequence == expected + k && 0
                    <= frames[k].timing.presentation_ns - origin <= u64::MAX && (previous is Some
                    ==> previous->Some_0 < frames[k].timing.presentation_ns) by {}
            } else if source::is_page_timeline(
                frames,
                origin,
                previous,
                expected,
                prefix.clock_domain,
            ) && source_registry::first_misfit(frames, width, height) is None {
                assert(go_on(registry, prefix, request.operation, frames));
            }
        } else {
            assert(frames[0].timing.sequence <= u64::MAX);
        }
    }
}

proof fn lemma_sizes(frames: Seq<VideoFrame>, width: u32, height: u32)
    ensures
        source_registry::first_misfit(frames, width, height) is None <==> forall|k: int|
            0 <= k < frames.len() ==> (#[trigger] frames[k]).width == width && frames[k].height
                == height,
    decreases frames.len(),
{
    if frames.len() > 0 {
        lemma_sizes(frames.drop_last(), width, height);
        let init = frames.drop_last();
        assert(forall|k: int| 0 <= k < init.len() ==> #[trigger] init[k] == frames[k]);
        if source_registry::first_misfit(frames, width, height) is None {
            assert forall|k: int| 0 <= k < frames.len() implies (#[trigger] frames[k]).width
                == width && frames[k].height == height by {
                if k < init.len() {
                    assert(init[k] == frames[k]);
                }
            }
        }
        if forall|k: int|
            0 <= k < frames.len() ==> (#[trigger] frames[k]).width == width && frames[k].height
                == height {
            assert forall|k: int| 0 <= k < init.len() implies (#[trigger] init[k]).width == width
                && init[k].height == height by {
                assert(frames[k].width == width);
            }
        }
    }
}

proof fn lemma_timeline(
    frames: Seq<VideoFrame>,
    origin: i64,
    previous: Option<i64>,
    expected: u64,
    clock: crate::model::ClockDomainId,
)
    requires
        frames.len() > 0,
    ensures
        source::is_page_timeline(frames, origin, previous, expected, clock) <==> {
            &&& forall|k: int|
                0 <= k < frames.len() ==> (#[trigger] frames[k]).timing.clock_domain == clock
                    && frames[k].timing.sequence == expected + k && 0
                    <= frames[k].timing.presentation_ns - origin <= u64::MAX && (previous is Some
                    ==> previous->Some_0 < frames[k].timing.presentation_ns)
            &&& forall|j: int, k: int|
                0 <= j < k < frames.len() ==> (#[trigger] frames[j]).timing.presentation_ns < (
                #[trigger] frames[k]).timing.presentation_ns
        },
{
    let times = source::frame_timestamps(frames);
    let sequences = source::frame_sequences(frames);
    assert(forall|k: int|
        0 <= k < frames.len() ==> times[k] == (#[trigger] frames[k]).timing.presentation_ns
            && sequences[k] == frames[k].timing.sequence);
    if source::is_page_timeline(frames, origin, previous, expected, clock) {
        assert forall|k: int| 0 <= k < frames.len() implies (
        #[trigger] frames[k]).timing.clock_domain == clock && frames[k].timing.sequence == expected
            + k && 0 <= frames[k].timing.presentation_ns - origin <= u64::MAX && (previous is Some
            ==> previous->Some_0 < frames[k].timing.presentation_ns) by {
            assert(times[k] - origin >= 0);
            assert(sequences[k] == expected + k);
            if k > 0 {
                assert(times[0] < times[k]);
            }
        }
        assert forall|j: int, k: int| 0 <= j < k < frames.len() implies (
        #[trigger] frames[j]).timing.presentation_ns < (
        #[trigger] frames[k]).timing.presentation_ns by {
            assert(times[j] < times[k]);
        }
    } else {
        if (forall|k: int|
            0 <= k < frames.len() ==> (#[trigger] frames[k]).timing.clock_domain == clock
                && frames[k].timing.sequence == expected + k && 0
                <= frames[k].timing.presentation_ns - origin <= u64::MAX && (previous is Some
                ==> previous->Some_0 < frames[k].timing.presentation_ns)) && (forall|
            j: int,
            k: int,
        |
            0 <= j < k < frames.len() ==> (#[trigger] frames[j]).timing.presentation_ns < (
            #[trigger] frames[k]).timing.presentation_ns) {
            assert(frames[0].timing.clock_domain == clock);
            assert forall|j: int, k: int| 0 <= j < k < times.len() implies #[trigger] times[j]
                < #[trigger] times[k] by {
                assert(frames[j].timing.presentation_ns < frames[k].timing.presentation_ns);
            }
            assert forall|k: int| 0 <= k < times.len() implies 0 <= #[trigger] times[k] - origin
                <= u64::MAX by {
                assert(frames[k].timing.clock_domain == clock);
            }
            assert forall|k: int| 0 <= k < sequences.len() implies #[trigger] sequences[k]
                == expected + k by {
                assert(frames[k].timing.clock_domain == clock);
            }
        }
    }
}

/// An answer that is taken adds its frames behind those that are held, or takes their place
/// where the source begins again; each is due as long after the first frame of its source as its
/// timestamp says. The source awaits nothing more, has ended where the answer says so, and no
/// other source changes. What is charged is what the frames held take up.
pub proof fn answers_add_their_frames(
    registry: RegistryModel,
    request: NativeDecodeRequest,
    frames: Seq<VideoFrame>,
    end_of_stream: bool,
    uploads: Seq<WorkingFrame>,
    i: int,
)
    requires
        registry.wf(),
        uploads.len() == frames.len(),
        0 <= i < registry.sources.len(),
        source_playback::answered(
            registry,
            request,
            Ok((frames, end_of_stream)),
            Ok(uploads),
        ) is Ok,
    ensures
        ({
            let (input, prefix) = registry.sources[i];
            let after = source_playback::answered(
                registry,
                request,
                Ok((frames, end_of_stream)),
                Ok(uploads),
            )->Ok_0;
            let ring = after.sources[i].1;
            let again = request.operation == NativeDecodeOperation::Restart;
            let first = if again {
                0int
            } else {
                prefix.frames.len() as int
            };
            &&& after.sources.len() == registry.sources.len()
            &&& after.dimensions == registry.dimensions && after.limits == registry.limits
            &&& after.sources[i].0 == input
            &&& input != request.input ==> ring == prefix
            &&& input == request.input ==> {
                &&& ring.in_flight is None
                &&& ring.end_of_stream == end_of_stream
                &&& ring.frames.len() == first + frames.len()
                &&& ring.offsets_ns.len() == ring.frames.len()
                &&& forall|k: int|
                    0 <= k < first ==> #[trigger] ring.frames[k] == prefix.frames[k]
                        && ring.offsets_ns[k] == prefix.offsets_ns[k]
                &&& forall|k: int|
                    0 <= k < frames.len() ==> ring.frames[first + k] == uploads[k]
                        && ring.offsets_ns[first + k] == (
                    #[trigger] frames[k]).timing.presentation_ns - ring.source_pts_origin
                &&& ring.source_pts_origin == (if again {
                    frames[0].timing.presentation_ns
                } else {
                    prefix.source_pts_origin
                })
                &&& frames.len() > 0 ==> ring.last_source_pts
                    == frames[frames.len() - 1].timing.presentation_ns && ring.last_sequence
                    == frames[frames.len() - 1].timing.sequence
                &&& frames.len() == 0 ==> ring.last_source_pts == prefix.last_source_pts
                    && ring.last_sequence == prefix.last_sequence
                &&& ring.kind == prefix.kind && ring.clock_domain == prefix.clock_domain
                &&& ring.available_for_stinger == prefix.available_for_stinger
                &&& ring.pinned_for_stinger == prefix.pinned_for_stinger
            }
            &&& after.retained_rgba16f_bytes == registry.frame_bytes() * sums::total(
                source_registry::frame_counts(after.sources),
            )
        }),
{
    let (input, prefix) = registry.sources[i];
    let window = Ok::<(Seq<VideoFrame>, bool), OutsideFailure>((frames, end_of_stream));
    let normalized = Ok::<Seq<WorkingFrame>, OutsideFailure>(uploads);
    source_playback::answer_keeps_registry_in_order(registry, request, window, normalized);
    source_playback::lemma_prefix_at(registry, request.input);
    let slot = ordered::lower_bound(ordered::entry_keys(registry.sources), request.input);
    lemma_dimensions(registry, slot);
    if input == request.input {
        lemma_one_place(registry.sources, i, slot);
    }
    assert(prefix.wf(input, registry.limits));
    let after = source_playback::answered(registry, request, window, normalized)->Ok_0;
    assert(after.frame_bytes() == registry.frame_bytes());
    if input == request.input && frames.len() > 0 {
        let again = request.operation == NativeDecodeOperation::Restart;
        let ring = after.sources[i].1;
        let first = if again {
            0int
        } else {
            prefix.frames.len() as int
        };
        answers_are_taken_where_they_go_on(registry, request, frames, end_of_stream, uploads, i);
        assert forall|k: int| 0 <= k < frames.len() implies ring.frames[first + k] == uploads[k]
            && ring.offsets_ns[first + k] == (#[trigger] frames[k]).timing.presentation_ns
            - ring.source_pts_origin by {
            assert(source::frame_timestamps(frames)[k] == frames[k].timing.presentation_ns);
        }
    }
}

/// A source may serve Stingers where it is there and not live, and to be pinned it has to be held
/// to its end; playback must not have failed.
pub proof fn sources_serve_stingers(
    failed: bool,
    registry: RegistryModel,
    input: InputId,
    pinned: bool,
)
    requires
        registry.wf(),
    ensures
        source_playback::stinger_verdict(failed, registry, input, pinned) is Ok <==> {
            &&& !failed
            &&& exists|i: int|
                {
                    &&& 0 <= i < registry.sources.len()
                    &&& (#[trigger] registry.sources[i]).0 == input
                    &&& registry.sources[i].1.kind != NativeVideoSourceKind::Live
                    &&& pinned && registry.sources[i].1.kind == NativeVideoSourceKind::Decoded
                        ==> registry.sources[i].1.end_of_stream
                }
        },
{
    let keys = ordered::entry_keys(registry.sources);
    let slot = ordered::lower_bound(keys, input);
    ordered::lemma_lower_bound(keys, input);
    ordered::lemma_contains_at_lower_bound(keys, input);
    if registry.prefix(input) is Some {
        assert(registry.sources[slot].0 == input);
    }
    assert forall|i: int| 0 <= i < registry.sources.len() && (
    #[trigger] registry.sources[i]).0 == input implies i == slot && slot < registry.sources.len()
        && registry.sources[slot].0 == input by {
        assert(keys[i] == input);
        assert(keys.contains(input));
        lemma_one_place(registry.sources, i, slot);
    }
}

/// A pinned clip keeps every frame whatever is served, so that it can be shown from its
/// beginning at once, as often as it is triggered.
pub proof fn pinned_clips_can_always_begin(
    registry: RegistryModel,
    deadline_ns: u64,
    only: Option<InputId>,
    i: int,
)
    requires
        registry.wf(),
        0 <= i < registry.sources.len(),
        registry.sources[i].1.pinned_for_stinger,
    ensures
        ({
            let after = source_playback::serviced(
                registry,
                deadline_ns,
                only,
            ).registry.sources[i].1;
            after.frames == registry.sources[i].1.frames && after.offsets_ns
                == registry.sources[i].1.offsets_ns
        }),
{
    services_let_go_what_is_past(registry, deadline_ns, only, i);
    let before = registry.sources[i].1;
    let after = source_playback::serviced(registry, deadline_ns, only).registry.sources[i].1;
    if registry.dimensions is Some && (only is None || only == Some(registry.sources[i].0)) {
        let gone = choose|gone: int|
            {
                &&& 0 <= gone <= before.frames.len()
                &&& after.frames == #[trigger] before.frames.skip(gone)
                &&& after.offsets_ns == before.offsets_ns.skip(gone)
                &&& gone > 0 ==> !before.pinned_for_stinger && gone < before.offsets_ns.len()
                    && before.offsets_ns[gone] <= deadline_ns
                &&& !before.pinned_for_stinger && gone + 1 < before.offsets_ns.len()
                    ==> before.offsets_ns[gone + 1] > deadline_ns
            };
        assert(after.frames =~= before.frames);
        assert(after.offsets_ns =~= before.offsets_ns);
    } else if registry.dimensions is None {
        assert(after == before);
    }
}

} // verus!
