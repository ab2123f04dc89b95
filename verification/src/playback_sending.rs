//! Taking back the requests that could not be handed to the decoders of the rings.
use vstd::prelude::*;

use crate::model::InputId;
use crate::ordered;
use crate::ordered::Ranked;
use crate::playback_cycle::RingsModel;
use crate::source_playback;
use crate::source_playback::NativeSourcePlayback;
use crate::source_registry;
use crate::source_registry::{NativeDecodeRequest, PrefixModel, RegistryModel};
use crate::sums;

verus! {

/// The place of the source of an input.
pub open spec fn place_of(registry: RegistryModel, input: InputId) -> int {
    ordered::lower_bound(ordered::entry_keys(registry.sources), input)
}

/// The registry with a request taken back: its source awaits no answer.
pub open spec fn taken_back(registry: RegistryModel, request: NativeDecodeRequest) -> RegistryModel {
    match registry.prefix(request.input) {
        None => registry,
        Some(prefix) => RegistryModel {
            sources: registry.sources.update(
                place_of(registry, request.input),
                (request.input, PrefixModel { in_flight: None, ..prefix }),
            ),
            ..registry
        },
    }
}

/// The registry with all requests taken back but the first `sent`, the last first.
pub open spec fn unsent_taken_back(
    registry: RegistryModel,
    requests: Seq<NativeDecodeRequest>,
    sent: int,
) -> RegistryModel
    decreases requests.len(),
{
    if requests.len() == 0 || requests.len() <= sent {
        registry
    } else {
        unsent_taken_back(taken_back(registry, requests.last()), requests.drop_last(), sent)
    }
}

/// The registry whose sources await the answers to requests.
pub open spec fn asking(registry: RegistryModel, requests: Seq<NativeDecodeRequest>) -> RegistryModel
    decreases requests.len(),
{
    if requests.len() == 0 {
        registry
    } else {
        let before = asking(registry, requests.drop_last());
        source_playback::awaiting(
            before,
            place_of(before, requests.last().input),
            requests.last(),
        )
    }
}

/// Whether each request goes to a source that awaits no answer.
spec fn askable(registry: RegistryModel, requests: Seq<NativeDecodeRequest>) -> bool
    decreases requests.len(),
{
    requests.len() == 0 || {
        &&& askable(registry, requests.drop_last())
        &&& asking(registry, requests.drop_last()).prefix(requests.last().input) matches Some(
            prefix,
        ) && prefix.in_flight is None
    }
}

proof fn lemma_place(registry: RegistryModel, i: int)
    requires
        ordered::ascending(ordered::entry_keys(registry.sources)),
        0 <= i < registry.sources.len(),
    ensures
        place_of(registry, registry.sources[i].0) == i,
        registry.prefix(registry.sources[i].0) == Some(registry.sources[i].1),
{
    let keys = ordered::entry_keys(registry.sources);
    let input = registry.sources[i].0;
    assert(keys[i] == input);
    ordered::lemma_lower_bound(keys, input);
    let slot = ordered::lower_bound(keys, input);
    if slot < i {
        assert(keys[slot].rank() < keys[i].rank());
    }
}

/// A request that is taken back leaves the registry in order.
pub proof fn lemma_taken_back(registry: RegistryModel, request: NativeDecodeRequest)
    requires
        registry.wf(),
    ensures
        taken_back(registry, request).wf(),
{
    if registry.prefix(request.input) is Some {
        let keys = ordered::entry_keys(registry.sources);
        ordered::lemma_lower_bound(keys, request.input);
        let slot = place_of(registry, request.input);
        let prefix = registry.sources[slot].1;
        let after = taken_back(registry, request);
        assert(prefix.wf(request.input, registry.limits));
        assert(ordered::entry_keys(after.sources) =~= keys);
        let claims = source_registry::claims(registry.sources);
        let left = source_registry::claims(after.sources);
        assert forall|i: int| 0 <= i < after.sources.len() implies (
        #[trigger] after.sources[i]).1.wf(after.sources[i].0, after.limits) by {
            assert(i != slot ==> after.sources[i] == registry.sources[i]);
        }
        assert forall|i: int| 0 <= i < left.len() implies #[trigger] left[i] <= claims[i] by {
            assert(i != slot ==> after.sources[i] == registry.sources[i]);
        }
        sums::lemma_total_monotone(left, claims);
        assert(source_registry::frame_counts(after.sources) =~= source_registry::frame_counts(
            registry.sources,
        ));
        let unit = registry.frame_bytes() as int;
        let fewer = sums::total(left) as int;
        let more = sums::total(claims) as int;
        assert(unit * fewer <= unit * more) by (nonlinear_arith)
            requires
                0 <= unit,
                0 <= fewer <= more,
        ;
    }
}

proof fn lemma_asking(registry: RegistryModel, requests: Seq<NativeDecodeRequest>)
    requires
        ordered::ascending(ordered::entry_keys(registry.sources)),
        askable(registry, requests),
    ensures
        ordered::entry_keys(asking(registry, requests).sources) == ordered::entry_keys(
            registry.sources,
        ),
        requests.len() > 0 ==> taken_back(asking(registry, requests), requests.last()) == asking(
            registry,
            requests.drop_last(),
        ),
    decreases requests.len(),
{
    if requests.len() > 0 {
        let before = asking(registry, requests.drop_last());
        let after = asking(registry, requests);
        let request = requests.last();
        lemma_asking(registry, requests.drop_last());
        let keys = ordered::entry_keys(before.sources);
        ordered::lemma_lower_bound(keys, request.input);
        let slot = place_of(before, request.input);
        assert(ordered::entry_keys(after.sources) =~= keys);
        lemma_place(after, slot);
        let (input, prefix) = before.sources[slot];
        assert(after.sources[slot].1 == PrefixModel { in_flight: Some(request), ..prefix });
        assert(PrefixModel { in_flight: None, ..after.sources[slot].1 } == prefix);
        assert(taken_back(after, request).sources =~= before.sources);
    }
}

proof fn lemma_unsent(registry: RegistryModel, requests: Seq<NativeDecodeRequest>, sent: int)
    requires
        ordered::ascending(ordered::entry_keys(registry.sources)),
        askable(registry, requests),
        0 <= sent <= requests.len(),
    ensures
        unsent_taken_back(asking(registry, requests), requests, sent) == asking(
            registry,
            requests.take(sent),
        ),
    decreases requests.len(),
{
    if sent == requests.len() {
        assert(requests.take(sent) =~= requests);
    } else {
        lemma_asking(registry, requests);
        lemma_unsent(registry, requests.drop_last(), sent);
        assert(requests.drop_last().take(sent) =~= requests.take(sent));
    }
}

proof fn lemma_scheduling_asks(
    registry: RegistryModel,
    deadline_ns: u64,
    only: Option<InputId>,
    count: nat,
)
    requires
        registry.wf(),
        registry.dimensions is Some,
        count <= registry.sources.len(),
    ensures
        ({
            let (after, requests) = source_playback::scheduled(registry, deadline_ns, only, count);
            askable(registry, requests) && after == asking(registry, requests)
        }),
    decreases count,
{
    if count > 0 {
        let i = count - 1;
        lemma_scheduling_asks(registry, deadline_ns, only, i as nat);
        source_playback::scheduling_keeps_registry_in_order(
            registry,
            deadline_ns,
            only,
            i as nat,
        );
        let (now, requests) = source_playback::scheduled(registry, deadline_ns, only, i as nat);
        source_playback::request_keeps_registry_in_order(now, i, deadline_ns);
        lemma_place(now, i);
        if let Some(request) = source_playback::refill_request(now, i, deadline_ns) {
            assert(requests.push(request).drop_last() =~= requests);
        }
    }
}

/// Where only the first requests of a service reach the decoders, taking back the others leaves
/// the rings as if these alone had been made: no other source awaits an answer, and no other
/// room is promised.
pub proof fn only_what_was_sent_is_asked(
    registry: RegistryModel,
    deadline_ns: u64,
    only: Option<InputId>,
    sent: int,
)
    requires
        registry.wf(),
        0 <= sent <= source_playback::serviced(registry, deadline_ns, only).requests.len(),
    ensures
        ({
            let service = source_playback::serviced(registry, deadline_ns, only);
            let kept = if registry.dimensions is None {
                registry
            } else {
                source_playback::trimmed_registry(
                    registry,
                    deadline_ns,
                    only,
                    registry.sources.len() as int,
                )
            };
            unsent_taken_back(service.registry, service.requests, sent) == asking(
                kept,
                service.requests.take(sent),
            )
        }),
{
    let service = source_playback::serviced(registry, deadline_ns, only);
    if registry.dimensions is None || registry.sources.len() == 0 {
        assert(service.requests.take(sent) =~= Seq::empty());
    } else {
        let kept = source_playback::trimmed_registry(
            registry,
            deadline_ns,
            only,
            registry.sources.len() as int,
        );
        source_playback::lemma_trimmed_registry(
            registry,
            deadline_ns,
            only,
            registry.sources.len() as int,
        );
        lemma_scheduling_asks(kept, deadline_ns, only, kept.sources.len());
        lemma_unsent(kept, service.requests, sent);
    }
}

impl NativeSourcePlayback {
    /// Takes back all requests of a service but the first `sent`, which alone reached the
    /// decoders, and fails playback for good.
    pub fn take_back(&mut self, requests: &Vec<NativeDecodeRequest>, sent: usize)
        requires
            old(self).wf(),
            sent <= requests@.len(),
        ensures
            final(self).wf(),
            final(self)@ == (RingsModel {
                registry: unsent_taken_back(old(self)@.registry, requests@, sent as int),
                failed: true,
            }),
    {
        let ghost start = self.registry@;
        let mut left: usize = requests.len();
        assert(requests@.take(left as int) =~= requests@);
        while left > sent
            invariant
                self.wf(),
                sent <= left <= requests@.len(),
                unsent_taken_back(start, requests@, sent as int) == unsent_taken_back(
                    self.registry@,
                    requests@.take(left as int),
                    sent as int,
                ),
            decreases left,
        {
            assert(requests@.take(left as int).last() == requests@[left - 1]);
            assert(requests@.take(left as int).drop_last() =~= requests@.take(left - 1));
            left = left - 1;
            let ghost before = self.registry@;
            let request: NativeDecodeRequest = requests[left];
            proof {
                lemma_taken_back(before, request);
            }
            if let Some(place) = self.registry.position(request.input) {
                self.registry.sources.entries[place].1.in_flight = None;
                assert(self.registry@.sources =~= taken_back(before, request).sources);
            }
        }
        self.failed = true;
    }
}

} // verus!
