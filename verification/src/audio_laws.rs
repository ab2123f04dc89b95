//! What holds of a lane whatever it is asked to do.
use vstd::prelude::*;

use crate::audio_limits::NativeAudioCharge;
use crate::audio_master;
use crate::audio_master::{LaneModel, NativeAudioDecodeResult, ValidatedCompletedAudioPage};
use crate::audio_service;
use crate::audio_service::NativeAudioDecodeRequest;
use crate::audio_source::NativeAudioSource;
use crate::model::{InputId, OutsideFailure};
use crate::ordered;

verus! {

/// Blocks, samples and bytes without a bound.
#[verifier::ext_equal]
pub struct Amount {
    pub blocks: int,
    pub samples: int,
    pub bytes: int,
}

impl Amount {
    /// The amount of a charge.
    pub open spec fn of(charge: NativeAudioCharge) -> Self {
        Amount {
            blocks: charge.blocks as int,
            samples: charge.samples as int,
            bytes: charge.bytes as int,
        }
    }

    /// Two amounts together.
    pub open spec fn plus(self, other: Self) -> Self {
        Amount {
            blocks: self.blocks + other.blocks,
            samples: self.samples + other.samples,
            bytes: self.bytes + other.bytes,
        }
    }

    /// One amount without another.
    pub open spec fn minus(self, other: Self) -> Self {
        Amount {
            blocks: self.blocks - other.blocks,
            samples: self.samples - other.samples,
            bytes: self.bytes - other.bytes,
        }
    }

    /// Nothing.
    pub open spec fn zero() -> Self {
        Amount { blocks: 0, samples: 0, bytes: 0 }
    }
}

/// What a source has been asked for.
pub open spec fn asked_of(source: NativeAudioSource) -> Amount {
    match source.in_flight {
        None => Amount::zero(),
        Some(reservation) => Amount::of(reservation.charge),
    }
}

/// What sources have been asked for together.
pub open spec fn asked_of_all(sources: Seq<(InputId, NativeAudioSource)>) -> Amount
    decreases sources.len(),
{
    if sources.len() == 0 {
        Amount::zero()
    } else {
        asked_of_all(sources.drop_last()).plus(asked_of(sources.last().1))
    }
}

/// Whether the counts of a lane say what its sources have been asked for.
pub open spec fn books_balance(lane: LaneModel) -> bool {
    Amount::of(lane.audio_telemetry.reserved()) == asked_of_all(lane.sources)
}

proof fn lemma_asked_nonnegative(sources: Seq<(InputId, NativeAudioSource)>)
    ensures
        asked_of_all(sources).blocks >= 0,
        asked_of_all(sources).samples >= 0,
        asked_of_all(sources).bytes >= 0,
    decreases sources.len(),
{
    if sources.len() > 0 {
        lemma_asked_nonnegative(sources.drop_last());
    }
}

proof fn lemma_asked_update(
    sources: Seq<(InputId, NativeAudioSource)>,
    slot: int,
    entry: (InputId, NativeAudioSource),
)
    requires
        0 <= slot < sources.len(),
    ensures
        asked_of_all(sources.update(slot, entry)) == asked_of_all(sources).minus(
            asked_of(sources[slot].1),
        ).plus(asked_of(entry.1)),
    decreases sources.len(),
{
    let after = sources.update(slot, entry);
    if slot == sources.len() - 1 {
        assert(after.drop_last() =~= sources.drop_last());
    } else {
        lemma_asked_update(sources.drop_last(), slot, entry);
        assert(after.drop_last() =~= sources.drop_last().update(slot, entry));
        assert(after.last() == sources.last());
    }
    assert(asked_of_all(after) =~= asked_of_all(sources).minus(asked_of(sources[slot].1)).plus(
        asked_of(entry.1),
    ));
}

proof fn lemma_asked_at_least(sources: Seq<(InputId, NativeAudioSource)>, slot: int)
    requires
        0 <= slot < sources.len(),
    ensures
        asked_of(sources[slot].1).blocks <= asked_of_all(sources).blocks,
        asked_of(sources[slot].1).samples <= asked_of_all(sources).samples,
        asked_of(sources[slot].1).bytes <= asked_of_all(sources).bytes,
    decreases sources.len(),
{
    lemma_asked_nonnegative(sources.drop_last());
    if slot < sources.len() - 1 {
        lemma_asked_at_least(sources.drop_last(), slot);
    }
}

proof fn lemma_reserved_is_asked(sources: Seq<(InputId, NativeAudioSource)>)
    ensures
        audio_service::reserved_by(sources) matches Some(reserved) ==> Amount::of(reserved)
            == asked_of_all(sources),
    decreases sources.len(),
{
    if sources.len() > 0 {
        lemma_reserved_is_asked(sources.drop_last());
        if let Some(reserved) = audio_service::reserved_by(sources) {
            assert(Amount::of(reserved) =~= asked_of_all(sources));
        }
    } else {
        assert(Amount::of(NativeAudioCharge::zero()) =~= Amount::zero());
    }
}

/// Whether an amount, with what a lane holds, keeps to the bounds of the lane.
pub open spec fn keeps_to_bounds(lane: LaneModel, held: NativeAudioCharge, asked: Amount) -> bool {
    &&& held.blocks + asked.blocks <= lane.limits.max_retained_blocks
    &&& held.samples + asked.samples <= lane.limits.max_retained_samples
    &&& held.bytes + asked.bytes <= lane.limits.max_retained_bytes
}

/// A request adds its charge to the books.
proof fn lemma_request_balances(
    lane: LaneModel,
    input: InputId,
    requested_end: u64,
    retained: NativeAudioCharge,
    reserved: NativeAudioCharge,
    urgent: bool,
)
    requires
        lane.wf(),
        books_balance(lane),
        Amount::of(reserved) == asked_of_all(lane.sources),
    ensures
        audio_service::refill_of(
            lane,
            input,
            requested_end,
            retained,
            reserved,
            urgent,
        ) matches Ok(Some(reservation)) ==> {
            let after = audio_service::with_request(lane, input, reservation);
            &&& after.wf()
            &&& after.inputs() == lane.inputs()
            &&& after.limits == lane.limits
            &&& books_balance(after)
            &&& reserved.plus(reservation.charge) is Some
            &&& Amount::of(reserved.plus(reservation.charge)->Some_0) == asked_of_all(
                after.sources,
            )
            &&& keeps_to_bounds(lane, retained, asked_of_all(after.sources))
            &&& lane.source(input) is Some
            &&& lane.source(input)->Some_0.in_flight is None
            &&& after.source(input) is Some
            &&& after.source(input)->Some_0.in_flight == Some(reservation)
            &&& forall|other: InputId|
                other != input ==> #[trigger] after.source(other) == lane.source(other)
        },
{
    if let Ok(Some(reservation)) = audio_service::refill_of(
        lane,
        input,
        requested_end,
        retained,
        reserved,
        urgent,
    ) {
        let source = lane.source(input)->Some_0;
        let asked = NativeAudioSource {
            in_flight: Some(reservation),
            restart_decode: false,
            ..source
        };
        ordered::lemma_entries_match_map(lane.sources);
        lemma_source_wf(lane, input);
        audio_master::lemma_with_source(lane, input, asked);
        let slot = ordered::lower_bound(lane.inputs(), input);
        lemma_asked_update(lane.sources, slot, (input, asked));
        let after = audio_service::with_request(lane, input, reservation);
        let moved = lane.with_source(input, asked);
        assert(after.sources == moved.sources);
        assert forall|other: InputId| other != input implies #[trigger] after.source(other)
            == lane.source(other) by {
            assert(moved.source(other) == lane.source(other));
        }
        assert(moved.source(input) == after.source(input));
        assert(Amount::of(reserved.plus(reservation.charge)->Some_0) =~= asked_of_all(
            after.sources,
        ));
        assert(Amount::of(after.audio_telemetry.reserved()) =~= asked_of_all(after.sources));
    }
}

proof fn lemma_source_wf(lane: LaneModel, input: InputId)
    requires
        lane.wf(),
        lane.source(input) is Some,
    ensures
        lane.source(input)->Some_0.wf(),
{
    let slot = ordered::lower_bound(lane.inputs(), input);
    ordered::lemma_lower_bound(lane.inputs(), input);
    ordered::lemma_contains_at_lower_bound(lane.inputs(), input);
    ordered::lemma_entries_match_map(lane.sources);
    assert(lane.inputs()[slot] == lane.sources[slot].0);
    assert(lane.sources[slot].1.wf());
}

/// Whether every request stands for what its source has been asked for, and none stands for
/// the same source as another.
pub open spec fn single_flight(lane: LaneModel, requests: Seq<NativeAudioDecodeRequest>) -> bool {
    &&& forall|i: int|
        0 <= i < requests.len() ==> (lane.source((#[trigger] requests[i]).input) matches Some(
            source,
        ) && source.in_flight is Some)
    &&& forall|i: int, j: int|
        0 <= i < j < requests.len() ==> (#[trigger] requests[i]).input != (
        #[trigger] requests[j]).input
}

proof fn lemma_refilling(
    lane: LaneModel,
    requested_end: u64,
    retained: NativeAudioCharge,
    reserved: NativeAudioCharge,
    uncovered: Seq<InputId>,
    order: Seq<InputId>,
    i: int,
    requests: Seq<NativeAudioDecodeRequest>,
)
    requires
        0 <= i,
        lane.wf(),
        books_balance(lane),
        Amount::of(reserved) == asked_of_all(lane.sources),
        single_flight(lane, requests),
        requests.len() > 0 ==> keeps_to_bounds(lane, retained, asked_of_all(lane.sources)),
    ensures
        ({
            let (after, asked, _) = audio_service::refilled(
                lane,
                requested_end,
                retained,
                reserved,
                uncovered,
                order,
                i,
                requests,
            );
            &&& after.wf()
            &&& after.limits == lane.limits
            &&& books_balance(after)
            &&& single_flight(after, asked)
            &&& asked.len() > 0 ==> keeps_to_bounds(after, retained, asked_of_all(after.sources))
        }),
    decreases order.len() - i,
{
    if i < order.len() {
        let urgent = uncovered.contains(order[i]);
        lemma_request_balances(lane, order[i], requested_end, retained, reserved, urgent);
        match audio_service::refill_of(
            lane,
            order[i],
            requested_end,
            retained,
            reserved,
            urgent,
        ) {
            Err(_) => {},
            Ok(None) => {
                lemma_refilling(
                    lane,
                    requested_end,
                    retained,
                    reserved,
                    uncovered,
                    order,
                    i + 1,
                    requests,
                );
            },
            Ok(Some(reservation)) => {
                let after = audio_service::with_request(lane, order[i], reservation);
                let next = requests.push(
                    audio_service::request_of(lane, order[i], reservation),
                );
                assert forall|k: int| 0 <= k < next.len() implies (after.source(
                    (#[trigger] next[k]).input,
                ) matches Some(source) && source.in_flight is Some) by {
                    if k < requests.len() {
                        assert(next[k] == requests[k]);
                        assert(next[k].input != order[i]);
                        assert(after.source(next[k].input) == lane.source(next[k].input));
                    } else {
                        assert(next[k].input == order[i]);
                    }
                }
                assert forall|k: int, l: int| 0 <= k < l < next.len() implies (
                #[trigger] next[k]).input != (#[trigger] next[l]).input by {
                    assert(next[k] == requests[k]);
                    if l < requests.len() {
                        assert(next[l] == requests[l]);
                    }
                }
                lemma_refilling(
                    after,
                    requested_end,
                    retained,
                    reserved.plus(reservation.charge)->Some_0,
                    uncovered,
                    order,
                    i + 1,
                    next,
                );
            },
        }
    }
}

/// At most one page is asked of each source. Once something has been asked, what the lane
/// holds and what it has been promised keep to its bounds together. The counts say what is
/// asked for before and after.
pub proof fn requests_are_single_flight_and_bounded(
    lane: LaneModel,
    requested_end: u64,
    uncovered: Seq<InputId>,
)
    requires
        lane.wf(),
        books_balance(lane),
    ensures
        ({
            let (after, asked, _) = audio_service::scheduled(lane, requested_end, uncovered);
            &&& after.wf()
            &&& books_balance(after)
            &&& single_flight(after, asked)
            &&& asked.len() > 0 ==> keeps_to_bounds(
                after,
                audio_master::held_by(lane.sources),
                asked_of_all(after.sources),
            )
        }),
{
    lemma_reserved_is_asked(lane.sources);
    match audio_service::reserved_by(lane.sources) {
        None => {},
        Some(reserved) => {
            lemma_refilling(
                lane,
                requested_end,
                audio_master::held_by(lane.sources),
                reserved,
                uncovered,
                audio_service::refill_order(lane, uncovered),
                0,
                Seq::empty(),
            );
        },
    }
}

/// Where the counts say what is asked for, a page that answers an open request can always be
/// given back, and the counts say so still.
pub proof fn committing_keeps_the_books(
    lane: LaneModel,
    validated: ValidatedCompletedAudioPage,
    pushed: Result<NativeAudioCharge, OutsideFailure>,
)
    requires
        lane.wf(),
        books_balance(lane),
        lane.source(validated.input) matches Some(source) && source.in_flight == Some(
            validated.reservation,
        ),
    ensures
        books_balance(audio_master::with_committed(lane, validated, pushed).0),
        pushed is Ok && lane.source(validated.input)->Some_0.synchronizer is Some
            ==> audio_master::with_committed(lane, validated, pushed).1 is Ok,
{
    let input = validated.input;
    let source = lane.source(input)->Some_0;
    let slot = ordered::lower_bound(lane.inputs(), input);
    lemma_source_wf(lane, input);
    audio_master::lemma_with_source(lane, input, source);
    lemma_asked_at_least(lane.sources, slot);
    match crate::audio_source::with_pushed_page(source, validated.page, pushed) {
        Err(_) => {},
        Ok(after) => {
            let moved = NativeAudioSource {
                in_flight: None,
                end_of_stream: validated.end_of_stream,
                ..after
            };
            lemma_asked_update(lane.sources, slot, (input, moved));
            let last = audio_master::with_committed(lane, validated, pushed).0;
            assert(last.sources == lane.sources.update(slot, (input, moved)));
            assert(Amount::of(last.audio_telemetry.reserved()) =~= asked_of_all(last.sources));
        },
    }
}

/// Looking at answers keeps the books, as long as each answer that comes too late answers the
/// open request of its source.
pub proof fn late_answers_keep_the_books(
    lane: LaneModel,
    source: NativeAudioSource,
    completed: NativeAudioDecodeResult,
)
    requires
        lane.wf(),
        books_balance(lane),
        lane.source(completed.input) == Some(source),
        source.in_flight == Some(completed.reservation),
    ensures
        books_balance(audio_master::with_stale(lane, source, completed).0),
        audio_master::with_stale(lane, source, completed).1 is Ok,
{
    let input = completed.input;
    let slot = ordered::lower_bound(lane.inputs(), input);
    let cleared = NativeAudioSource { in_flight: None, ..source };
    lemma_source_wf(lane, input);
    audio_master::lemma_with_source(lane, input, cleared);
    lemma_asked_at_least(lane.sources, slot);
    lemma_asked_update(lane.sources, slot, (input, cleared));
    let last = audio_master::with_stale(lane, source, completed).0;
    assert(last.sources == lane.sources.update(slot, (input, cleared)));
    assert(Amount::of(last.audio_telemetry.reserved()) =~= asked_of_all(last.sources));
}

/// What a source has played and holds, without what it has been asked for.
pub open spec fn position(source: NativeAudioSource) -> NativeAudioSource {
    NativeAudioSource { in_flight: None, ..source }
}

proof fn lemma_looking(
    lane: LaneModel,
    retained: NativeAudioCharge,
    pages: Seq<ValidatedCompletedAudioPage>,
    completed: Seq<NativeAudioDecodeResult>,
)
    requires
        lane.wf(),
    ensures
        ({
            let after = audio_master::looked_at(lane, retained, pages, completed).0;
            &&& after.wf()
            &&& after.sources.len() == lane.sources.len()
            &&& forall|i: int|
                #![trigger after.sources[i]]
                0 <= i < lane.sources.len() ==> after.sources[i].0 == lane.sources[i].0
                    && position(after.sources[i].1) == position(lane.sources[i].1)
            &&& after.expected_next_frame == lane.expected_next_frame
            &&& after.ready_frame == lane.ready_frame
        }),
    decreases completed.len(),
{
    if completed.len() > 0 {
        let answer = completed.last();
        let rest = completed.drop_last();
        match lane.source(answer.input) {
            None => {},
            Some(source) => {
                let cleared = NativeAudioSource { in_flight: None, ..source };
                lemma_source_wf(lane, answer.input);
                audio_master::lemma_with_source(lane, answer.input, cleared);
                if answer.reservation.generation != source.decode_generation {
                    let stale = audio_master::with_stale(lane, source, answer);
                    if stale.1 is Ok {
                        lemma_looking(stale.0, retained, pages, rest);
                    }
                } else {
                    let counted = audio_master::with_positioned(lane, answer);
                    match audio_master::page_of(counted, retained, source, answer) {
                        Err(_) => {},
                        Ok((total, page)) => {
                            lemma_looking(counted, total, pages.push(page), rest);
                        },
                    }
                }
            },
        }
    }
}

/// Answers are found in order before any is used: looking at them moves no source and no
/// cursor, whether they are in order or not.
pub proof fn looking_moves_nothing(
    lane: LaneModel,
    completed: Seq<NativeAudioDecodeResult>,
)
    requires
        lane.wf(),
    ensures
        ({
            let after = audio_master::looked_at(
                lane,
                audio_master::held_by(lane.sources),
                Seq::empty(),
                completed,
            ).0;
            &&& after.sources.len() == lane.sources.len()
            &&& forall|i: int|
                #![trigger after.sources[i]]
                0 <= i < lane.sources.len() ==> after.sources[i].0 == lane.sources[i].0
                    && position(after.sources[i].1) == position(lane.sources[i].1)
            &&& after.expected_next_frame == lane.expected_next_frame
            &&& after.ready_frame == lane.ready_frame
        }),
{
    lemma_looking(lane, audio_master::held_by(lane.sources), Seq::empty(), completed);
}

} // verus!
