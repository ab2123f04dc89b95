//! What a lane asks of its decoders, and how it takes what they bring.
use vstd::prelude::*;

use crate::audio_limits;
use crate::audio_limits::{NativeAudioCharge, NativeAudioLimits, NativeMasterError, ValidatedAudioPage};
use crate::audio_master;
use crate::audio_master::{
    LaneModel, NativeAudioDecodeResult, ValidatedCompletedAudioPage,
};
use crate::audio_service;
use crate::audio_service::{NativeAudioDecodeRequest, RenderOutcome};
use crate::audio_source;
use crate::audio_source::{
    AudioBlock, AudioPageRules, NativeAudioReservation, NativeAudioSource, PaddingModel,
    Synchronizer,
};
use crate::audio_timing;
use crate::audio_timing::AudioCadenceOrigin;
use crate::model::{ClockDomainId, InputId, OutsideFailure};
use crate::ordered;

verus! {

/// Whether a time in nanoseconds is the last whole one that does not lie after the begin of a
/// sample.
pub open spec fn is_begin_of(nanoseconds: int, sample: int, sample_rate: u32) -> bool {
    nanoseconds * sample_rate <= sample * 1_000_000_000 < (nanoseconds + 1) * sample_rate
}

/// A sample has begun by a time exactly where its begin does not lie after it: the sample that is
/// heard at a time is the last of those.
pub proof fn samples_are_heard_once_they_begin(
    origin: AudioCadenceOrigin,
    timestamp: int,
    sample_rate: u32,
    sample: int,
    first_ns: int,
    sample_ns: int,
)
    requires
        sample_rate > 0,
        sample >= 0,
        is_begin_of(first_ns, origin.sample_index as int, sample_rate),
        is_begin_of(sample_ns, sample, sample_rate),
    ensures
        sample <= audio_timing::sample_at(origin, timestamp, sample_rate) <==> origin.timestamp_ns
            + (sample_ns - first_ns) <= timestamp,
        audio_timing::time_of(origin, sample, sample_rate) == origin.timestamp_ns + (sample_ns
            - first_ns),
{
    lemma_begin(origin.sample_index as int, sample_rate, first_ns);
    lemma_begin(sample, sample_rate, sample_ns);
    let rate = sample_rate as int;
    let position = timestamp - origin.timestamp_ns + first_ns;
    let top = (position + 1) * rate - 1;
    let heard = top / 1_000_000_000;
    assert(heard * 1_000_000_000 <= top < (heard + 1) * 1_000_000_000);
    if sample_ns <= position {
        assert((sample_ns + 1) * rate <= (position + 1) * rate) by (nonlinear_arith)
            requires
                sample_ns <= position,
                rate > 0,
        ;
        assert(sample * 1_000_000_000 <= top);
    } else {
        assert(sample_ns * rate >= (position + 1) * rate) by (nonlinear_arith)
            requires
                sample_ns > position,
                rate > 0,
        ;
        assert(sample * 1_000_000_000 > top);
    }
}

/// The begin of a sample is what [`audio_timing::sample_boundary`] says.
proof fn lemma_begin(sample: int, sample_rate: u32, nanoseconds: int)
    requires
        sample >= 0,
        sample_rate > 0,
        is_begin_of(nanoseconds, sample, sample_rate),
    ensures
        audio_timing::sample_boundary(sample, sample_rate) == nanoseconds,
{
    audio_timing::lemma_boundary_is_floor(sample, sample_rate);
    let found = audio_timing::sample_boundary(sample, sample_rate);
    assert(found == nanoseconds) by (nonlinear_arith)
        requires
            sample_rate > 0,
            found * sample_rate <= sample * 1_000_000_000 < (found + 1) * sample_rate,
            nanoseconds * sample_rate <= sample * 1_000_000_000 < (nanoseconds + 1) * sample_rate,
    ;
}

/// The first sample that does not begin before a time: it does not, and the one before does.
pub proof fn audio_begins_with_the_first_sample(timestamp: int, sample_rate: u32)
    requires
        timestamp >= 0,
    ensures
        ({
            let first = audio_timing::sample_not_before(timestamp, sample_rate);
            (first - 1) * 1_000_000_000 < timestamp * sample_rate <= first * 1_000_000_000
        }),
{
}

/// An output block says where its samples stand: which is the first, when the first begins, when
/// the one behind the last begins, and which frame they are of.
pub proof fn output_blocks_are_timed_by_their_samples(
    frame: u64,
    start: u64,
    end: u64,
    sample_rate: u32,
    clock_domain: ClockDomainId,
)
    requires
        sample_rate > 0,
        audio_timing::block_is_timed(start, end, sample_rate),
    ensures
        ({
            let timing = audio_timing::block_timing(frame, start, end, sample_rate, clock_domain);
            &&& timing.original.ticks == start
            &&& timing.original.time_base.numerator == 1
            &&& timing.original.time_base.denominator == sample_rate
            &&& is_begin_of(timing.presentation_ns as int, start as int, sample_rate)
            &&& is_begin_of(timing.presentation_ns + timing.duration_ns, end as int, sample_rate)
            &&& timing.sequence == frame
            &&& timing.clock_domain == clock_domain
        }),
{
    audio_timing::lemma_boundary_is_floor(start as int, sample_rate);
    audio_timing::lemma_boundary_is_floor(end as int, sample_rate);
}

/// An output block has a timing wherever its samples follow one another and the begin of each
/// can be told.
pub proof fn output_blocks_can_be_timed(start: u64, end: u64, sample_rate: u32)
    requires
        sample_rate > 0,
        start <= end <= i64::MAX,
        end * 1_000_000_000 <= i64::MAX * sample_rate,
    ensures
        audio_timing::block_is_timed(start, end, sample_rate),
{
    let rate = sample_rate as int;
    audio_timing::sample_boundaries_do_not_descend(start as int, end as int, sample_rate);
    audio_timing::lemma_boundary_is_floor(start as int, sample_rate);
    audio_timing::lemma_boundary_is_floor(end as int, sample_rate);
    let last = audio_timing::sample_boundary(end as int, sample_rate);
    assert(last <= i64::MAX) by (nonlinear_arith)
        requires
            rate > 0,
            last * rate <= i64::MAX * rate,
    ;
}

/// The next frame of a clip plays as many samples as the frame of the program that it is shown
/// in: it begins as far from the begin of the clip as that frame from the one that the clip
/// began with.
pub proof fn clips_play_the_frames_of_the_program(lane: LaneModel, span: (u64, u64))
    requires
        lane.wf(),
        audio_master::next_span(lane) == Ok::<(u64, u64), NativeMasterError>(span),
    ensures
        ({
            let origin = lane.cadence_origin_frame as int;
            let frame = origin + lane.expected_next_frame;
            let first = audio_timing::frame_start(origin, lane.sample_rate, lane.frame_rate);
            &&& first + span.0 == audio_timing::frame_start(
                frame,
                lane.sample_rate,
                lane.frame_rate,
            )
            &&& first + span.1 == audio_timing::frame_start(
                frame + 1,
                lane.sample_rate,
                lane.frame_rate,
            )
        }),
{
    let origin = lane.cadence_origin_frame as int;
    let frame = origin + lane.expected_next_frame;
    audio_master::lemma_frames_do_not_descend(origin, frame, lane.sample_rate, lane.frame_rate);
    audio_master::lemma_frames_do_not_descend(frame, frame + 1, lane.sample_rate, lane.frame_rate);
}

/// Whether a block is as the source has to bring it: of its rate, its layout and its clock, with
/// the sequence and the sample that come next, and as long as its samples.
pub open spec fn is_next_block(
    rules: AudioPageRules,
    page: ValidatedAudioPage,
    block: AudioBlock,
    first_sample: int,
) -> bool {
    &&& block.sample_rate == rules.sample_rate
    &&& block.layout == rules.layout
    &&& block.timing.clock_domain == rules.clock_domain
    &&& block.timing.sequence == page.next_sequence
    &&& audio_timing::sample_at(
        rules.timeline_origin,
        block.timing.presentation_ns as int,
        rules.sample_rate,
    ) == page.next_sample
    &&& first_sample * block.timing.original.time_base.denominator == block.timing.original.ticks
        * block.timing.original.time_base.numerator * rules.sample_rate
    &&& block.timing.presentation_ns == audio_timing::sample_boundary(
        first_sample,
        rules.sample_rate,
    )
    &&& block.timing.presentation_ns + block.timing.duration_ns == audio_timing::sample_boundary(
        first_sample + block.sample_count,
        rules.sample_rate,
    )
}

/// A block is taken only where it is as the source has to bring it. The source then goes on
/// behind it, and one block more is held with its samples and their bytes.
pub proof fn blocks_go_on_where_the_source_stands(
    rules: AudioPageRules,
    page: ValidatedAudioPage,
    block: AudioBlock,
    taken: ValidatedAudioPage,
)
    requires
        rules.sample_rate > 0,
        block.timing.original.time_base.denominator > 0,
        audio_source::with_block(rules, page, block) == Ok::<ValidatedAudioPage, NativeMasterError>(
            taken,
        ),
    ensures
        exists|first_sample: int| #[trigger] is_next_block(rules, page, block, first_sample),
        taken.next_sample == page.next_sample + block.sample_count,
        taken.next_sequence == page.next_sequence + 1,
        taken.charge.blocks == page.charge.blocks + 1,
        taken.charge.samples == page.charge.samples + block.sample_count,
        taken.charge.bytes == page.charge.bytes + block.sample_count * rules.layout.channels * 4,
{
    let first_sample = audio_timing::whole_samples(block.timing, rules.sample_rate)->Some_0;
    assert(is_next_block(rules, page, block, first_sample));
}

/// A block that is as the source has to bring it is taken, as long as what is held can be
/// counted.
pub proof fn blocks_that_go_on_are_taken(
    rules: AudioPageRules,
    page: ValidatedAudioPage,
    block: AudioBlock,
    first_sample: int,
)
    requires
        rules.sample_rate > 0,
        block.timing.original.time_base.denominator > 0,
        is_next_block(rules, page, block, first_sample),
        audio_timing::boundary_fits(first_sample, rules.sample_rate),
        audio_timing::boundary_fits(first_sample + block.sample_count, rules.sample_rate),
        block.timing.duration_ns <= i64::MAX,
        page.next_sample + block.sample_count <= u64::MAX,
        page.next_sequence < u64::MAX,
        page.charge.blocks < usize::MAX,
        page.charge.samples + block.sample_count <= usize::MAX,
        page.charge.bytes + block.sample_count * rules.layout.channels * 4 <= usize::MAX,
    ensures
        audio_source::with_block(rules, page, block) is Ok,
{
    let scaled = block.timing.original.ticks * block.timing.original.time_base.numerator
        * rules.sample_rate;
    let denominator = block.timing.original.time_base.denominator as int;
    assert(audio_timing::truncated(scaled, denominator) == first_sample) by (nonlinear_arith)
        requires
            denominator > 0,
            first_sample * denominator == scaled,
            audio_timing::truncated(scaled, denominator) == (if scaled >= 0 {
                scaled / denominator
            } else {
                -((-scaled) / denominator)
            }),
    ;
}

/// Whether a page is the largest that a source may be asked for that holds so many blocks.
pub open spec fn is_largest_page(limits: NativeAudioLimits, held: usize, count: u32) -> bool {
    &&& 0 < count <= limits.max_blocks_per_page
    &&& held + count <= limits.max_blocks_per_source
    &&& count == limits.max_blocks_per_page || held + count == limits.max_blocks_per_source
}

/// Whether samples are the share of a page that so many blocks get: as few as will do.
pub open spec fn is_share(limits: NativeAudioLimits, count: u32, samples: usize) -> bool {
    (samples - 1) * limits.max_blocks_per_page < limits.max_samples_per_page * count <= samples
        * limits.max_blocks_per_page
}

/// Whether a charge can be held beside others.
pub open spec fn is_held_beside(
    charge: NativeAudioCharge,
    retained: NativeAudioCharge,
    reserved: NativeAudioCharge,
    limits: NativeAudioLimits,
) -> bool {
    &&& charge.blocks + retained.blocks + reserved.blocks <= limits.max_retained_blocks
    &&& charge.samples + retained.samples + reserved.samples <= limits.max_retained_samples
    &&& charge.bytes + retained.bytes + reserved.bytes <= limits.max_retained_bytes
}

/// Whether a decoder is to bring more: it is not at its end, nothing is being waited for, and
/// either the frame waits for it or it is soon heard and holds little.
pub open spec fn is_to_bring_more(
    source: NativeAudioSource,
    held: usize,
    requested_end: u64,
    urgent: bool,
) -> bool {
    &&& !source.explicit_silence
    &&& !source.end_of_stream
    &&& source.in_flight is None
    &&& urgent || source.audio_start_master_sample < requested_end && held
        <= audio_limits::AUDIO_REFILL_LOW_WATERMARK
}

/// Whether a reservation is what a decoder is to be asked for.
pub open spec fn is_refill(
    lane: LaneModel,
    source: NativeAudioSource,
    synchronizer: Synchronizer,
    requested_end: u64,
    retained: NativeAudioCharge,
    reserved: NativeAudioCharge,
    urgent: bool,
    reservation: NativeAudioReservation,
) -> bool {
    let charge = reservation.charge;
    &&& is_to_bring_more(source, synchronizer.buffered.blocks, requested_end, urgent)
    &&& is_largest_page(lane.limits, synchronizer.buffered.blocks, reservation.count)
    &&& charge.blocks == reservation.count
    &&& is_share(lane.limits, reservation.count, charge.samples)
    &&& charge.bytes == charge.samples * synchronizer.layout.channels * 4
    &&& is_held_beside(charge, retained, reserved, lane.limits)
    &&& synchronizer.buffered.samples + charge.samples <= synchronizer.max_samples
    &&& synchronizer.buffered.bytes + charge.bytes <= synchronizer.max_bytes
    &&& reservation.generation == source.decode_generation
}

proof fn lemma_share(limits: NativeAudioLimits, count: u32, samples: int)
    requires
        limits.max_blocks_per_page > 0,
    ensures
        (samples - 1) * limits.max_blocks_per_page < limits.max_samples_per_page * count <= samples
            * limits.max_blocks_per_page <==> samples == audio_limits::page_share(count, limits),
{
    let whole = limits.max_samples_per_page * count;
    let blocks = limits.max_blocks_per_page as int;
    let top = whole + blocks - 1;
    let share = audio_limits::page_share(count, limits);
    assert(share == top / blocks);
    assert(share * blocks <= top < (share + 1) * blocks) by (nonlinear_arith)
        requires
            blocks > 0,
            share == top / blocks,
    ;
    assert((share - 1) * blocks == share * blocks - blocks) by (nonlinear_arith);
    assert((share + 1) * blocks == share * blocks + blocks) by (nonlinear_arith);
    if (samples - 1) * blocks < whole <= samples * blocks {
        assert(samples == share) by (nonlinear_arith)
            requires
                blocks > 0,
                (samples - 1) * blocks < whole <= samples * blocks,
                (share - 1) * blocks < whole <= share * blocks,
        ;
    }
}

/// A decoder is asked for more exactly where it is to bring more and there is room for it, and
/// then for the largest page that the source may hold.
pub proof fn decoders_are_asked_for_what_fits(
    lane: LaneModel,
    input: InputId,
    source: NativeAudioSource,
    synchronizer: Synchronizer,
    requested_end: u64,
    retained: NativeAudioCharge,
    reserved: NativeAudioCharge,
    urgent: bool,
    reservation: NativeAudioReservation,
)
    requires
        lane.wf(),
        lane.source(input) == Some(source),
        source.synchronizer == Some(synchronizer),
        lane.limits.max_samples_per_page > 0,
        lane.limits.max_samples_per_page * lane.limits.max_blocks_per_page
            + lane.limits.max_blocks_per_page <= usize::MAX,
    ensures
        audio_service::refill_of(lane, input, requested_end, retained, reserved, urgent) == Ok::<
            Option<NativeAudioReservation>,
            NativeMasterError,
        >(Some(reservation)) <==> is_refill(
            lane,
            source,
            synchronizer,
            requested_end,
            retained,
            reserved,
            urgent,
            reservation,
        ),
{
    let count = audio_service::page_blocks(lane, synchronizer);
    if is_largest_page(lane.limits, synchronizer.buffered.blocks, reservation.count) {
        assert(count == reservation.count);
    }
    if 0 < count <= lane.limits.max_blocks_per_page {
        let page = lane.limits.max_samples_per_page as int;
        let most = lane.limits.max_blocks_per_page as int;
        assert(page <= page * count <= page * most) by (nonlinear_arith)
            requires
                page > 0,
                0 < count <= most,
        ;
        lemma_share(lane.limits, count as u32, reservation.charge.samples as int);
        let share = audio_limits::page_share(count as u32, lane.limits);
        lemma_share(lane.limits, count as u32, share);
        assert(0 < share <= page * count + most) by (nonlinear_arith)
            requires
                most > 0,
                0 < page * count <= share * most,
                (share - 1) * most < page * count,
        ;
    }
}

/// A decoder that a frame waits for is never passed over: it has ended, it is at work, it is
/// asked, or the frame fails. A decoder that nobody waits for fails no frame for want of room.
pub proof fn decoders_that_a_frame_waits_for_are_asked(
    lane: LaneModel,
    input: InputId,
    requested_end: u64,
    retained: NativeAudioCharge,
    reserved: NativeAudioCharge,
)
    ensures
        audio_service::refill_of(lane, input, requested_end, retained, reserved, true) == Ok::<
            Option<NativeAudioReservation>,
            NativeMasterError,
        >(None) ==> (lane.source(input) matches Some(source) && (source.explicit_silence
            || source.end_of_stream || source.in_flight is Some)),
        lane.source(input) is None ==> audio_service::refill_of(
            lane,
            input,
            requested_end,
            retained,
            reserved,
            true,
        ) is Err,
        (lane.source(input) matches Some(source) && (source.explicit_silence
            || source.synchronizer is Some && (source.end_of_stream || source.in_flight is Some)))
            ==> audio_service::refill_of(lane, input, requested_end, retained, reserved, true)
            == Ok::<Option<NativeAudioReservation>, NativeMasterError>(None),
{
}

/// A request says what has been promised and whether its decoder has to begin anew, and that is
/// said only once.
pub proof fn requests_say_what_is_promised(
    lane: LaneModel,
    input: InputId,
    source: NativeAudioSource,
    reservation: NativeAudioReservation,
)
    requires
        lane.wf(),
        lane.source(input) == Some(source),
    ensures
        ({
            let request = audio_service::request_of(lane, input, reservation);
            &&& request.input == input
            &&& request.count == reservation.count
            &&& request.max_samples == reservation.charge.samples
            &&& request.max_bytes == reservation.charge.bytes
            &&& request.generation == reservation.generation
            &&& request.restart == source.restart_decode
            &&& request.restart_target_ordinal == source.restart_target_ordinal
            &&& request.max_position_blocks == lane.limits.max_position_blocks
        }),
        ({
            let after = audio_service::with_request(lane, input, reservation);
            &&& after.source(input) matches Some(asked) && asked == (NativeAudioSource {
                in_flight: Some(reservation),
                restart_decode: false,
                ..source
            })
            &&& forall|other: InputId|
                other != input ==> #[trigger] after.source(other) == lane.source(other)
            &&& after.audio_telemetry.source_stalls == lane.audio_telemetry.source_stalls
            &&& after.wf()
            &&& after.limits == lane.limits
        }),
{
    lemma_source_is_listed(lane, input);
    let asked = NativeAudioSource {
        in_flight: Some(reservation),
        restart_decode: false,
        ..source
    };
    audio_master::lemma_with_source(lane, input, asked);
    let moved = lane.with_source(input, asked);
    let after = audio_service::with_request(lane, input, reservation);
    assert(after.source(input) == moved.source(input));
    assert forall|other: InputId| other != input implies #[trigger] after.source(other)
        == lane.source(other) by {
        assert(after.source(other) == moved.source(other));
    }
}

proof fn lemma_source_is_listed(lane: LaneModel, input: InputId)
    requires
        lane.wf(),
        lane.source(input) is Some,
    ensures
        lane.source(input)->Some_0.wf(),
        lane.sources.contains((input, lane.source(input)->Some_0)),
{
    ordered::lemma_entry_pairs(lane.sources, input);
    let source = lane.source(input)->Some_0;
    assert(lane.sources.contains((input, source)));
    let i = choose|i: int| 0 <= i < lane.sources.len() && lane.sources[i] == (input, source);
    assert(lane.sources[i].1.wf());
}

/// An input is asked in its turn where the frame does not wait for it: it is one of the lane's,
/// and it does not come twice.
pub proof fn every_decoder_has_its_turn(lane: LaneModel, uncovered: Seq<InputId>, input: InputId)
    ensures
        ({
            let order = audio_service::refill_order(lane, uncovered);
            &&& order.take(uncovered.len() as int) == uncovered
            &&& order.skip(uncovered.len() as int).contains(input) <==> (lane.inputs().contains(
                input,
            ) && !uncovered.contains(input))
            &&& order.contains(input) <==> (uncovered.contains(input) || lane.inputs().contains(
                input,
            ))
        }),
{
    let rest = audio_service::covered_keys(lane.inputs(), uncovered);
    let order = audio_service::refill_order(lane, uncovered);
    lemma_covered(lane.inputs(), uncovered, input);
    assert(order.take(uncovered.len() as int) =~= uncovered);
    assert(order.skip(uncovered.len() as int) =~= rest);
    if uncovered.contains(input) {
        let k = choose|k: int| 0 <= k < uncovered.len() && uncovered[k] == input;
        assert(order[k] == input);
    }
    if rest.contains(input) {
        let k = choose|k: int| 0 <= k < rest.len() && rest[k] == input;
        assert(order[uncovered.len() + k] == input);
    }
    if order.contains(input) {
        let k = choose|k: int| 0 <= k < order.len() && order[k] == input;
        if k < uncovered.len() {
            assert(uncovered[k] == input);
        } else {
            assert(rest[k - uncovered.len()] == input);
        }
    }
}

proof fn lemma_covered(keys: Seq<InputId>, uncovered: Seq<InputId>, input: InputId)
    ensures
        audio_service::covered_keys(keys, uncovered).contains(input) <==> (keys.contains(input)
            && !uncovered.contains(input)),
    decreases keys.len(),
{
    if keys.len() > 0 {
        lemma_covered(keys.drop_last(), uncovered, input);
        ordered::lemma_contains_drop_last(keys, input);
        let rest = audio_service::covered_keys(keys.drop_last(), uncovered);
        if rest.contains(input) {
            let k = choose|k: int| 0 <= k < rest.len() && rest[k] == input;
            assert(rest.push(keys.last())[k] == input);
        }
        assert(rest.push(keys.last())[rest.len() as int] == keys.last());
    }
}

/// Whether nothing has to be asked of a source any more.
pub open spec fn is_served(source: NativeAudioSource) -> bool {
    source.explicit_silence || source.end_of_stream || source.in_flight is Some
}

proof fn lemma_refills_serve(
    lane: LaneModel,
    requested_end: u64,
    retained: NativeAudioCharge,
    reserved: NativeAudioCharge,
    uncovered: Seq<InputId>,
    order: Seq<InputId>,
    i: int,
    requests: Seq<NativeAudioDecodeRequest>,
    input: InputId,
    turn: int,
)
    requires
        lane.wf(),
        0 <= i,
        uncovered.contains(input),
        0 <= turn < order.len(),
        order[turn] == input,
        turn < i ==> (lane.source(input) matches Some(source) ==> is_served(source)),
    ensures
        ({
            let (after, _, outcome) = audio_service::refilled(
                lane,
                requested_end,
                retained,
                reserved,
                uncovered,
                order,
                i,
                requests,
            );
            &&& after.audio_telemetry.source_stalls == lane.audio_telemetry.source_stalls
            &&& outcome is Ok ==> (after.source(input) matches Some(source) ==> is_served(source))
            &&& outcome is Ok ==> (after.source(input) is Some <==> lane.source(input) is Some)
        }),
    decreases order.len() - i,
{
    if i < order.len() {
        let urgent = uncovered.contains(order[i]);
        match audio_service::refill_of(lane, order[i], requested_end, retained, reserved, urgent) {
            Err(_) => {},
            Ok(None) => {
                lemma_refills_serve(
                    lane,
                    requested_end,
                    retained,
                    reserved,
                    uncovered,
                    order,
                    i + 1,
                    requests,
                    input,
                    turn,
                );
            },
            Ok(Some(reservation)) => {
                let source = lane.source(order[i])->Some_0;
                requests_say_what_is_promised(lane, order[i], source, reservation);
                lemma_refills_serve(
                    audio_service::with_request(lane, order[i], reservation),
                    requested_end,
                    retained,
                    reserved.plus(reservation.charge)->Some_0,
                    uncovered,
                    order,
                    i + 1,
                    requests.push(audio_service::request_of(lane, order[i], reservation)),
                    input,
                    turn,
                );
            },
        }
    }
}

/// Once decoders have been asked, no source that the frame waits for is left without: it has
/// ended or its decoder is at work.
pub proof fn sources_that_a_frame_waits_for_are_served(
    lane: LaneModel,
    requested_end: u64,
    uncovered: Seq<InputId>,
    input: InputId,
)
    requires
        lane.wf(),
        uncovered.contains(input),
    ensures
        ({
            let (after, _, outcome) = audio_service::scheduled(lane, requested_end, uncovered);
            outcome is Ok ==> (after.source(input) matches Some(source) && is_served(source))
        }),
{
    match audio_service::reserved_by(lane.sources) {
        None => {},
        Some(reserved) => {
            let order = audio_service::refill_order(lane, uncovered);
            let turn = choose|k: int| 0 <= k < uncovered.len() && uncovered[k] == input;
            assert(order[turn] == input);
            lemma_refills_serve(
                lane,
                requested_end,
                audio_master::held_by(lane.sources),
                reserved,
                uncovered,
                order,
                0,
                Seq::empty(),
                input,
                turn,
            );
            if lane.source(input) is None {
                lemma_unknown_is_refused(
                    lane,
                    requested_end,
                    audio_master::held_by(lane.sources),
                    reserved,
                    uncovered,
                    order,
                    0,
                    Seq::empty(),
                    input,
                    turn,
                );
            }
        },
    }
}

proof fn lemma_unknown_is_refused(
    lane: LaneModel,
    requested_end: u64,
    retained: NativeAudioCharge,
    reserved: NativeAudioCharge,
    uncovered: Seq<InputId>,
    order: Seq<InputId>,
    i: int,
    requests: Seq<NativeAudioDecodeRequest>,
    input: InputId,
    turn: int,
)
    requires
        lane.wf(),
        lane.source(input) is None,
        0 <= i <= turn < order.len(),
        order[turn] == input,
    ensures
        audio_service::refilled(
            lane,
            requested_end,
            retained,
            reserved,
            uncovered,
            order,
            i,
            requests,
        ).2 is Err,
    decreases order.len() - i,
{
    let urgent = uncovered.contains(order[i]);
    match audio_service::refill_of(lane, order[i], requested_end, retained, reserved, urgent) {
        Err(_) => {},
        Ok(None) => {
            lemma_unknown_is_refused(
                lane,
                requested_end,
                retained,
                reserved,
                uncovered,
                order,
                i + 1,
                requests,
                input,
                turn,
            );
        },
        Ok(Some(reservation)) => {
            let source = lane.source(order[i])->Some_0;
            requests_say_what_is_promised(lane, order[i], source, reservation);
            lemma_unknown_is_refused(
                audio_service::with_request(lane, order[i], reservation),
                requested_end,
                retained,
                reserved.plus(reservation.charge)->Some_0,
                uncovered,
                order,
                i + 1,
                requests.push(audio_service::request_of(lane, order[i], reservation)),
                input,
                turn,
            );
        },
    }
}

/// A frame is ready once it waits for no source, and then it is the next one with its samples.
pub proof fn frames_are_ready_once_covered(
    lane: LaneModel,
    start: u64,
    end: u64,
    uncovered: Seq<InputId>,
    covered: bool,
)
    requires
        lane.wf(),
        audio_service::serviced(lane, start, end, uncovered).2 == Ok::<bool, NativeMasterError>(
            covered,
        ),
    ensures
        covered <==> uncovered =~= Seq::<InputId>::empty(),
        ({
            let after = audio_service::serviced(lane, start, end, uncovered).0;
            &&& covered <==> after.ready_frame is Some
            &&& after.ready_frame matches Some(ready) ==> ready.frame == lane.expected_next_frame
                && ready.start_sample == start && ready.end_sample == end
        }),
{
}

/// Whether a source is heard in a frame that ends before `end`.
pub open spec fn is_heard_before(source: NativeAudioSource, end: u64) -> bool {
    !source.explicit_silence && source.audio_start_master_sample < end
}

/// Whether the frame waits for what the decoder of a source has yet to bring.
pub open spec fn is_waited_for(source: NativeAudioSource, end: u64, outcome: RenderOutcome) -> bool {
    is_heard_before(source, end) && !source.end_of_stream && outcome is NeedMoreInput
}

/// Whether silence has to be put behind a source that has ended, up to a sample.
pub open spec fn is_padded_to(
    source: NativeAudioSource,
    end: u64,
    outcome: RenderOutcome,
    required_sample: u64,
) -> bool {
    is_heard_before(source, end) && source.end_of_stream && outcome
        == (RenderOutcome::NeedMoreInput { required_sample })
}

proof fn lemma_pushed<A>(elements: Seq<A>, added: A, element: A)
    ensures
        elements.push(added).contains(element) <==> (elements.contains(element) || added
            == element),
{
    if elements.contains(element) {
        let k = choose|k: int| 0 <= k < elements.len() && elements[k] == element;
        assert(elements.push(added)[k] == element);
    }
    assert(elements.push(added)[elements.len() as int] == added);
    if elements.push(added).contains(element) {
        let k = choose|k: int|
            0 <= k < elements.push(added).len() && elements.push(added)[k] == element;
        if k < elements.len() {
            assert(elements[k] == element);
        }
    }
}

proof fn lemma_needs_name(
    lane: LaneModel,
    start: u64,
    end: u64,
    outcomes: Seq<RenderOutcome>,
    i: int,
    uncovered: Seq<InputId>,
    paddings: Seq<(InputId, u64)>,
    slot: int,
    required_sample: u64,
)
    requires
        lane.wf(),
        0 <= i,
        0 <= slot < lane.sources.len(),
        outcomes.len() == lane.sources.len(),
    ensures
        audio_service::needs(lane, start, end, outcomes, i, uncovered, paddings) matches Ok(
            (waited, padded),
        ) ==> {
            let (input, source) = lane.sources[slot];
            &&& waited.contains(input) <==> (uncovered.contains(input) || i <= slot
                && is_waited_for(source, end, outcomes[slot]))
            &&& padded.contains((input, required_sample)) <==> (paddings.contains(
                (input, required_sample),
            ) || i <= slot && is_padded_to(source, end, outcomes[slot], required_sample))
            &&& i <= slot && is_heard_before(source, end) ==> !(outcomes[slot] is Failed)
        },
    decreases lane.sources.len() - i,
{
    if i < lane.sources.len() {
        let (input, source) = lane.sources[i];
        let (wanted, _) = lane.sources[slot];
        assert(lane.inputs()[i] == input);
        assert(lane.inputs()[slot] == wanted);
        assert(i != slot ==> input != wanted);
        let next_uncovered = match outcomes[i] {
            RenderOutcome::NeedMoreInput { .. } => if source.end_of_stream {
                uncovered
            } else {
                uncovered.push(input)
            },
            _ => uncovered,
        };
        let next_paddings = match outcomes[i] {
            RenderOutcome::NeedMoreInput { required_sample } => if source.end_of_stream {
                paddings.push((input, required_sample))
            } else {
                paddings
            },
            _ => paddings,
        };
        lemma_pushed(uncovered, input, wanted);
        if let RenderOutcome::NeedMoreInput { required_sample: needed } = outcomes[i] {
            lemma_pushed(paddings, (input, needed), (wanted, required_sample));
        }
        lemma_needs_name(
            lane,
            start,
            end,
            outcomes,
            i + 1,
            uncovered,
            paddings,
            slot,
            required_sample,
        );
        lemma_needs_name(
            lane,
            start,
            end,
            outcomes,
            i + 1,
            next_uncovered,
            next_paddings,
            slot,
            required_sample,
        );
    }
}

/// A frame waits for exactly the sources that are heard in it, lack samples and may still bring
/// them. Those that lack samples and have ended are padded to the sample that is missing.
pub proof fn frames_wait_for_what_is_missing(
    lane: LaneModel,
    start: u64,
    end: u64,
    outcomes: Seq<RenderOutcome>,
    slot: int,
    required_sample: u64,
    waited: Seq<InputId>,
    padded: Seq<(InputId, u64)>,
)
    requires
        lane.wf(),
        outcomes.len() == lane.sources.len(),
        0 <= slot < lane.sources.len(),
        audio_service::needs(lane, start, end, outcomes, 0, Seq::empty(), Seq::empty()) == Ok::<
            (Seq<InputId>, Seq<(InputId, u64)>),
            NativeMasterError,
        >((waited, padded)),
    ensures
        ({
            let (input, source) = lane.sources[slot];
            &&& waited.contains(input) <==> is_waited_for(source, end, outcomes[slot])
            &&& padded.contains((input, required_sample)) <==> is_padded_to(
                source,
                end,
                outcomes[slot],
                required_sample,
            )
            &&& is_heard_before(source, end) ==> !(outcomes[slot] is Failed)
        }),
{
    lemma_needs_name(
        lane,
        start,
        end,
        outcomes,
        0,
        Seq::empty(),
        Seq::empty(),
        slot,
        required_sample,
    );
}

proof fn lemma_needs_are_found(
    lane: LaneModel,
    start: u64,
    end: u64,
    outcomes: Seq<RenderOutcome>,
    i: int,
    uncovered: Seq<InputId>,
    paddings: Seq<(InputId, u64)>,
)
    requires
        0 <= i,
        outcomes.len() == lane.sources.len(),
        forall|k: int|
            0 <= k < lane.sources.len() && is_heard_before(
                (#[trigger] lane.sources[k]).1,
                end,
            ) ==> lane.sources[k].1.synchronizer is Some && !(outcomes[k] is Failed),
        lane.sample_rate > 0,
        start <= end <= i64::MAX,
        end <= usize::MAX,
        end * 1_000_000_000 <= i64::MAX * lane.sample_rate,
    ensures
        audio_service::needs(lane, start, end, outcomes, i, uncovered, paddings) is Ok,
    decreases lane.sources.len() - i,
{
    if i < lane.sources.len() {
        let (input, source) = lane.sources[i];
        let begin = if start < source.audio_start_master_sample {
            source.audio_start_master_sample
        } else {
            start
        };
        if is_heard_before(source, end) {
            output_blocks_can_be_timed(begin, end, lane.sample_rate);
        }
        lemma_needs_are_found(lane, start, end, outcomes, i + 1, uncovered, paddings);
        lemma_needs_are_found(
            lane,
            start,
            end,
            outcomes,
            i + 1,
            uncovered.push(input),
            paddings,
        );
        if let RenderOutcome::NeedMoreInput { required_sample } = outcomes[i] {
            lemma_needs_are_found(
                lane,
                start,
                end,
                outcomes,
                i + 1,
                uncovered,
                paddings.push((input, required_sample)),
            );
        }
    }
}

/// What a frame waits for is found wherever no synchronizer of a source that is heard fails and
/// the samples of the frame can be timed.
pub proof fn what_is_missing_is_found(
    lane: LaneModel,
    start: u64,
    end: u64,
    outcomes: Seq<RenderOutcome>,
)
    requires
        outcomes.len() == lane.sources.len(),
        forall|k: int|
            0 <= k < lane.sources.len() && is_heard_before(
                (#[trigger] lane.sources[k]).1,
                end,
            ) ==> lane.sources[k].1.synchronizer is Some && !(outcomes[k] is Failed),
        lane.sample_rate > 0,
        start <= end <= i64::MAX,
        end <= usize::MAX,
        end * 1_000_000_000 <= i64::MAX * lane.sample_rate,
    ensures
        audio_service::needs(lane, start, end, outcomes, 0, Seq::empty(), Seq::empty()) is Ok,
{
    lemma_needs_are_found(lane, start, end, outcomes, 0, Seq::empty(), Seq::empty());
}

/// Whether a page goes on where its source stands and brings what was promised of it.
pub open spec fn is_answer_to(
    source: NativeAudioSource,
    reservation: NativeAudioReservation,
    blocks: Seq<AudioBlock>,
    end_of_stream: bool,
) -> bool {
    &&& source.in_flight == Some(reservation)
    &&& !source.end_of_stream
    &&& blocks.len() <= reservation.count
    &&& blocks.len() < reservation.count ==> end_of_stream
    &&& blocks.len() == 0 ==> end_of_stream
}

/// An answer is taken only where it answers the open request of a source that goes on, its
/// synchronizer takes it, and everything can be held. The page moves the source on by what was
/// brought, and ends it where the decoder is at its end.
pub proof fn answers_are_taken_as_promised(
    lane: LaneModel,
    retained: NativeAudioCharge,
    source: NativeAudioSource,
    completed: NativeAudioDecodeResult,
    total: NativeAudioCharge,
    page: ValidatedCompletedAudioPage,
)
    requires
        audio_master::page_of(lane, retained, source, completed) == Ok::<
            (NativeAudioCharge, ValidatedCompletedAudioPage),
            NativeMasterError,
        >((total, page)),
    ensures
        completed.admitted is Ok,
        completed.window matches Ok(window) && {
            let blocks = window.blocks@;
            &&& is_answer_to(source, completed.reservation, blocks, window.end_of_stream)
            &&& page.input == completed.input
            &&& page.reservation == completed.reservation
            &&& page.end_of_stream == window.end_of_stream
            &&& page.page.next_sample == source.next_sample + audio_source::total_samples(blocks)
            &&& page.page.next_sequence == source.next_sequence + blocks.len()
            &&& page.page.charge.blocks == blocks.len()
            &&& page.page.charge.samples == audio_source::total_samples(blocks)
        },
        page.page.charge.blocks <= lane.limits.max_blocks_per_page,
        page.page.charge.samples <= lane.limits.max_samples_per_page,
        total.blocks == retained.blocks + page.page.charge.blocks,
        total.samples == retained.samples + page.page.charge.samples,
        total.bytes == retained.bytes + page.page.charge.bytes,
        total.blocks <= lane.limits.max_retained_blocks,
        total.samples <= lane.limits.max_retained_samples,
        total.bytes <= lane.limits.max_retained_bytes,
{
    let window = completed.window->Ok_0;
    let synchronizer = source.synchronizer->Some_0;
    audio_source::page_moves_by_its_samples(
        audio_source::source_rules(completed.input, source, synchronizer, lane.clock_domain),
        source.next_sample,
        source.next_sequence,
        window.blocks@,
    );
}

/// An answer to the open request of a source that goes on is refused only for its blocks, by the
/// synchronizer, or for want of room.
pub proof fn answers_as_promised_are_taken(
    lane: LaneModel,
    retained: NativeAudioCharge,
    source: NativeAudioSource,
    completed: NativeAudioDecodeResult,
    synchronizer: Synchronizer,
)
    requires
        source.synchronizer == Some(synchronizer),
        completed.window matches Ok(window) && is_answer_to(
            source,
            completed.reservation,
            window.blocks@,
            window.end_of_stream,
        ),
        completed.admitted is Ok,
    ensures
        ({
            let checked = audio_source::checked_blocks(
                AudioPageRules {
                    input: completed.input,
                    sample_rate: synchronizer.source_rate,
                    layout: synchronizer.layout,
                    timeline_origin: source.timeline_origin,
                    clock_domain: lane.clock_domain,
                },
                ValidatedAudioPage {
                    next_sample: source.next_sample,
                    next_sequence: source.next_sequence,
                    charge: NativeAudioCharge { blocks: 0, samples: 0, bytes: 0 },
                },
                completed.window->Ok_0.blocks@,
            );
            let taken = audio_master::page_of(lane, retained, source, completed);
            &&& checked matches Err(error) ==> taken == Err::<
                (NativeAudioCharge, ValidatedCompletedAudioPage),
                NativeMasterError,
            >(error)
            &&& checked matches Ok(page) ==> {
                &&& page.charge.blocks <= lane.limits.max_blocks_per_page
                &&& page.charge.samples <= lane.limits.max_samples_per_page
                &&& is_held_beside(
                    page.charge,
                    retained,
                    NativeAudioCharge { blocks: 0, samples: 0, bytes: 0 },
                    lane.limits,
                )
            } ==> taken is Ok
        }),
{
}

/// Blocks are taken in their order: a page that holds so many blocks holds all but its last, and
/// its last goes on behind them.
pub proof fn pages_are_taken_block_by_block(
    rules: AudioPageRules,
    start: ValidatedAudioPage,
    blocks: Seq<AudioBlock>,
    block: AudioBlock,
    page: ValidatedAudioPage,
)
    ensures
        audio_source::checked_blocks(rules, start, Seq::empty()) == Ok::<
            ValidatedAudioPage,
            NativeMasterError,
        >(start),
        audio_source::checked_blocks(rules, start, blocks.push(block)) == Ok::<
            ValidatedAudioPage,
            NativeMasterError,
        >(page) <==> (audio_source::checked_blocks(rules, start, blocks) matches Ok(before)
            && audio_source::with_block(rules, before, block) == Ok::<
            ValidatedAudioPage,
            NativeMasterError,
        >(page)),
{
    assert(blocks.push(block).drop_last() =~= blocks);
}

/// Whether an answer is to a request that has been made since its source last began anew.
pub open spec fn is_fresh(lane: LaneModel, answer: NativeAudioDecodeResult) -> bool {
    lane.source(answer.input) matches Some(source) && source.decode_generation
        == answer.reservation.generation
}

/// The answers that are still to be used, the last first.
pub open spec fn fresh_answers(lane: LaneModel, completed: Seq<NativeAudioDecodeResult>) -> Seq<
    NativeAudioDecodeResult,
> {
    completed.reverse().filter(|answer: NativeAudioDecodeResult| is_fresh(lane, answer))
}

/// Whether a page is what an answer brings.
pub open spec fn is_page_of(
    page: ValidatedCompletedAudioPage,
    answer: NativeAudioDecodeResult,
) -> bool {
    &&& page.input == answer.input
    &&& page.reservation == answer.reservation
    &&& answer.window matches Ok(window) && page.end_of_stream == window.end_of_stream
}

proof fn lemma_fresh_last(lane: LaneModel, completed: Seq<NativeAudioDecodeResult>)
    requires
        completed.len() > 0,
    ensures
        fresh_answers(lane, completed) == (if is_fresh(lane, completed.last()) {
            seq![completed.last()]
        } else {
            Seq::empty()
        }) + fresh_answers(lane, completed.drop_last()),
{
    let fresh = |answer: NativeAudioDecodeResult| is_fresh(lane, answer);
    let first = seq![completed.last()];
    let rest = completed.drop_last().reverse();
    assert(completed.reverse() =~= first + rest);
    Seq::filter_distributes_over_add(first, rest, fresh);
    reveal(Seq::filter);
    assert(first.drop_last() =~= Seq::empty());
    assert(first.drop_last().filter(fresh) =~= Seq::empty());
}

proof fn lemma_looking_finds(
    lane: LaneModel,
    retained: NativeAudioCharge,
    pages: Seq<ValidatedCompletedAudioPage>,
    completed: Seq<NativeAudioDecodeResult>,
)
    requires
        lane.wf(),
    ensures
        audio_master::looked_at(lane, retained, pages, completed).1 matches Ok((_, found)) ==> {
            let fresh = fresh_answers(lane, completed);
            &&& found.len() == pages.len() + fresh.len()
            &&& found.take(pages.len() as int) == pages
            &&& forall|k: int|
                0 <= k < fresh.len() ==> is_page_of(found[pages.len() + k], #[trigger] fresh[k])
        },
    decreases completed.len(),
{
    if completed.len() == 0 {
        reveal(Seq::filter);
        assert(completed.reverse() =~= Seq::empty());
        assert(pages.take(pages.len() as int) =~= pages);
    } else {
        let answer = completed.last();
        let rest = completed.drop_last();
        lemma_fresh_last(lane, completed);
        match lane.source(answer.input) {
            None => {},
            Some(source) => {
                lemma_source_is_listed(lane, answer.input);
                if answer.reservation.generation != source.decode_generation {
                    let (after, outcome) = audio_master::with_stale(lane, source, answer);
                    if outcome is Ok {
                        answers_that_come_too_late_are_dropped(lane, source, answer);
                        lemma_looking_finds(after, retained, pages, rest);
                        let before_fresh = |a: NativeAudioDecodeResult| is_fresh(lane, a);
                        let after_fresh = |a: NativeAudioDecodeResult| is_fresh(after, a);
                        assert forall|a: NativeAudioDecodeResult|
                            is_fresh(lane, a) == is_fresh(after, a) by {
                            if a.input != answer.input {
                                assert(after.source(a.input) == lane.source(a.input));
                            }
                        }
                        assert(before_fresh =~= after_fresh);
                        assert(fresh_answers(lane, rest) == fresh_answers(after, rest));
                        assert(fresh_answers(lane, completed) =~= fresh_answers(after, rest));
                    }
                } else {
                    let counted = audio_master::with_positioned(lane, answer);
                    match audio_master::page_of(counted, retained, source, answer) {
                        Err(_) => {},
                        Ok((total, page)) => {
                            answers_are_taken_as_promised(
                                counted,
                                retained,
                                source,
                                answer,
                                total,
                                page,
                            );
                            lemma_looking_finds(counted, total, pages.push(page), rest);
                            let before_fresh = |a: NativeAudioDecodeResult| is_fresh(lane, a);
                            let after_fresh = |a: NativeAudioDecodeResult| is_fresh(counted, a);
                            assert forall|a: NativeAudioDecodeResult|
                                is_fresh(lane, a) == is_fresh(counted, a) by {
                                assert(counted.source(a.input) == lane.source(a.input));
                            }
                            assert(before_fresh =~= after_fresh);
                            let later = fresh_answers(counted, rest);
                            assert(fresh_answers(lane, rest) == later);
                            let fresh = fresh_answers(lane, completed);
                            if let Ok((_, found)) = audio_master::looked_at(
                                lane,
                                retained,
                                pages,
                                completed,
                            ).1 {
                                assert(found.take(pages.len() as int) =~= found.take(
                                    pages.push(page).len() as int,
                                ).take(pages.len() as int));
                                assert(pages.push(page).take(pages.len() as int) =~= pages);
                                assert(found[pages.len() as int] == found.take(
                                    pages.push(page).len() as int,
                                )[pages.len() as int]);
                                assert forall|k: int| 0 <= k < fresh.len() implies is_page_of(
                                    found[pages.len() + k],
                                    #[trigger] fresh[k],
                                ) by {
                                    if k > 0 {
                                        assert(fresh[k] == later[k - 1]);
                                        assert(is_page_of(
                                            found[pages.push(page).len() + (k - 1)],
                                            later[k - 1],
                                        ));
                                    }
                                }
                            }
                        },
                    }
                }
            },
        }
    }
}

/// Every answer that is still to be used gives its page, the last first, and no other does.
pub proof fn every_fresh_answer_gives_its_page(
    lane: LaneModel,
    completed: Seq<NativeAudioDecodeResult>,
    total: NativeAudioCharge,
    pages: Seq<ValidatedCompletedAudioPage>,
)
    requires
        lane.wf(),
        audio_master::looked_at(
            lane,
            audio_master::held_by(lane.sources),
            Seq::empty(),
            completed,
        ).1 == Ok::<(NativeAudioCharge, Seq<ValidatedCompletedAudioPage>), NativeMasterError>(
            (total, pages),
        ),
    ensures
        pages.len() == fresh_answers(lane, completed).len(),
        forall|k: int|
            0 <= k < pages.len() ==> is_page_of(
                #[trigger] pages[k],
                fresh_answers(lane, completed)[k],
            ),
{
    lemma_looking_finds(lane, audio_master::held_by(lane.sources), Seq::empty(), completed);
    let fresh = fresh_answers(lane, completed);
    assert forall|k: int| 0 <= k < pages.len() implies is_page_of(#[trigger] pages[k], fresh[k]) by {
        assert(is_page_of(pages[0 + k], fresh[k]));
    }
}

/// Whether less is asked for by a charge.
pub open spec fn is_less_by(
    before: NativeAudioCharge,
    after: NativeAudioCharge,
    charge: NativeAudioCharge,
) -> bool {
    &&& after.blocks + charge.blocks == before.blocks
    &&& after.samples + charge.samples == before.samples
    &&& after.bytes + charge.bytes == before.bytes
}

/// An answer that comes too late is dropped: what was promised is given back, its source waits
/// for it no more, and nothing else changes.
pub proof fn answers_that_come_too_late_are_dropped(
    lane: LaneModel,
    source: NativeAudioSource,
    answer: NativeAudioDecodeResult,
)
    requires
        lane.wf(),
        lane.source(answer.input) == Some(source),
    ensures
        ({
            let (after, outcome) = audio_master::with_stale(lane, source, answer);
            &&& after.wf()
            &&& after.source(answer.input) matches Some(kept) && {
                &&& source.in_flight == Some(answer.reservation) ==> kept == (NativeAudioSource {
                    in_flight: None,
                    ..source
                })
                &&& source.in_flight != Some(answer.reservation) ==> kept == source
            }
            &&& forall|other: InputId|
                other != answer.input ==> #[trigger] after.source(other) == lane.source(other)
            &&& outcome is Ok ==> is_less_by(
                lane.audio_telemetry.reserved(),
                after.audio_telemetry.reserved(),
                answer.reservation.charge,
            )
            &&& outcome is Ok <==> {
                &&& answer.reservation.charge.blocks <= lane.audio_telemetry.reserved_blocks
                &&& answer.reservation.charge.samples <= lane.audio_telemetry.reserved_samples
                &&& answer.reservation.charge.bytes <= lane.audio_telemetry.reserved_bytes
            }
        }),
{
    lemma_source_is_listed(lane, answer.input);
    let cleared = NativeAudioSource { in_flight: None, ..source };
    audio_master::lemma_with_source(lane, answer.input, cleared);
    let moved = lane.with_source(answer.input, cleared);
    let after = audio_master::with_stale(lane, source, answer).0;
    if source.in_flight == Some(answer.reservation) {
        assert(after.sources == moved.sources);
        assert(after.source(answer.input) == moved.source(answer.input));
        assert forall|other: InputId| other != answer.input implies #[trigger] after.source(other)
            == lane.source(other) by {
            assert(after.source(other) == moved.source(other));
        }
    } else {
        assert(after.sources == lane.sources);
        assert forall|other: InputId| #[trigger] after.source(other) == lane.source(other) by {}
    }
}

/// A page that has been pushed moves its source on: it stands where the page ends, holds what
/// its synchronizer holds, waits for nothing, and has ended where the page says so. What was
/// promised is given back, and no other source moves.
pub proof fn pages_move_their_source(
    lane: LaneModel,
    validated: ValidatedCompletedAudioPage,
    pushed: Result<NativeAudioCharge, OutsideFailure>,
)
    requires
        lane.wf(),
    ensures
        ({
            let (after, outcome) = audio_master::with_committed(lane, validated, pushed);
            &&& outcome is Ok ==> {
                &&& lane.source(validated.input) matches Some(source)
                    && source.synchronizer matches Some(synchronizer)
                    && pushed matches Ok(buffered)
                    && after.source(validated.input) == Some(
                    NativeAudioSource {
                        synchronizer: Some(Synchronizer { buffered, ..synchronizer }),
                        next_sample: validated.page.next_sample,
                        next_sequence: validated.page.next_sequence,
                        in_flight: None,
                        end_of_stream: validated.end_of_stream,
                        ..source
                    },
                )
                &&& is_less_by(
                    lane.audio_telemetry.reserved(),
                    after.audio_telemetry.reserved(),
                    validated.reservation.charge,
                )
            }
            &&& forall|other: InputId|
                other != validated.input ==> #[trigger] after.source(other) == lane.source(other)
            &&& pushed is Err ==> outcome is Err && after == lane
        }),
{
    if let Some(source) = lane.source(validated.input) {
        lemma_source_is_listed(lane, validated.input);
        if let Ok(pushed_source) = audio_source::with_pushed_page(
            source,
            validated.page,
            pushed,
        ) {
            let moved_source = NativeAudioSource {
                in_flight: None,
                end_of_stream: validated.end_of_stream,
                ..pushed_source
            };
            audio_master::lemma_with_source(lane, validated.input, moved_source);
            let moved = lane.with_source(validated.input, moved_source);
            let after = audio_master::with_committed(lane, validated, pushed).0;
            assert(after.source(validated.input) == moved.source(validated.input));
            assert forall|other: InputId| other != validated.input implies #[trigger] after.source(
                other,
            ) == lane.source(other) by {
                assert(after.source(other) == moved.source(other));
            }
        }
    }
}

/// What sources hold is counted without loss: one source more adds what it holds, and no source
/// holds more than all together.
pub proof fn what_is_held_is_counted(
    sources: Seq<(InputId, NativeAudioSource)>,
    added: (InputId, NativeAudioSource),
)
    ensures
        audio_master::held_by(Seq::empty()) == (NativeAudioCharge {
            blocks: 0,
            samples: 0,
            bytes: 0,
        }),
        ({
            let before = audio_master::held_by(sources);
            let after = audio_master::held_by(sources.push(added));
            let more = match added.1.synchronizer {
                Some(synchronizer) => synchronizer.buffered,
                None => NativeAudioCharge { blocks: 0, samples: 0, bytes: 0 },
            };
            let counted = before.blocks + more.blocks <= usize::MAX && before.samples + more.samples
                <= usize::MAX && before.bytes + more.bytes <= usize::MAX;
            &&& counted ==> is_less_by(after, before, more)
            &&& !counted ==> after.blocks == usize::MAX && after.samples == usize::MAX
                && after.bytes == usize::MAX
        }),
{
    assert(sources.push(added).drop_last() =~= sources);
}

/// What silences hold together: their blocks, samples and bytes.
pub open spec fn silence_together(paddings: Seq<PaddingModel>) -> (int, int, int)
    decreases paddings.len(),
{
    if paddings.len() == 0 {
        (0, 0, 0)
    } else {
        let before = silence_together(paddings.drop_last());
        let charge = paddings.last().page.charge;
        (before.0 + charge.blocks, before.1 + charge.samples, before.2 + charge.bytes)
    }
}

/// Whether a silence is what a source needs to reach a sample.
pub open spec fn is_silence_for(
    padding: PaddingModel,
    input: InputId,
    source: NativeAudioSource,
    required_sample: u64,
) -> bool {
    &&& padding.input == input
    &&& source.next_sample <= required_sample ==> {
        &&& padding.page.next_sample == required_sample + 1
        &&& padding.page.charge.samples == required_sample + 1 - source.next_sample
        &&& padding.page.next_sequence == source.next_sequence + padding.spans.len()
    }
    &&& padding.page.charge.blocks == padding.spans.len()
}

/// Whether a source of the lane gets the silence that was asked for, and takes it.
pub open spec fn is_provided_for(
    lane: LaneModel,
    request: (InputId, u64),
    admitted: Result<(), OutsideFailure>,
    padding: PaddingModel,
) -> bool {
    &&& admitted is Ok
    &&& lane.source(request.0) matches Some(source) && is_silence_for(
        padding,
        request.0,
        source,
        request.1,
    )
}

proof fn lemma_staging(
    lane: LaneModel,
    requests: Seq<(InputId, u64)>,
    admitted: Seq<Result<(), OutsideFailure>>,
    max_block_samples: usize,
    i: int,
    retained: NativeAudioCharge,
    room: int,
    done: Seq<PaddingModel>,
)
    requires
        0 <= i <= requests.len(),
        admitted.len() == requests.len(),
        done.len() == i,
        room >= 0,
        i == requests.len() ==> retained.blocks <= lane.limits.max_retained_blocks
            && retained.samples <= lane.limits.max_retained_samples && retained.bytes
            <= lane.limits.max_retained_bytes || requests.len() == 0,
    ensures
        audio_service::staged(
            lane,
            requests,
            admitted,
            max_block_samples,
            i,
            retained,
            room,
            done,
        ) matches Ok((total, paddings)) ==> {
            &&& paddings.len() == requests.len()
            &&& paddings.take(i) == done
            &&& forall|k: int|
                i <= k < requests.len() ==> is_provided_for(
                    lane,
                    requests[k],
                    admitted[k],
                    #[trigger] paddings[k],
                )
            &&& total.blocks - silence_together(paddings).0 == retained.blocks - silence_together(
                done,
            ).0
            &&& total.samples - silence_together(paddings).1 == retained.samples
                - silence_together(done).1
            &&& total.bytes - silence_together(paddings).2 == retained.bytes - silence_together(
                done,
            ).2
            &&& requests.len() > 0 ==> total.blocks <= lane.limits.max_retained_blocks
                && total.samples <= lane.limits.max_retained_samples && total.bytes
                <= lane.limits.max_retained_bytes
        },
    decreases requests.len() - i,
{
    if i >= requests.len() {
        assert(done.take(i) =~= done);
    } else {
        let (input, required_sample) = requests[i];
        if let Some(source) = lane.source(input) {
            audio_source::padding_keeps_to_its_room(
                input,
                required_sample,
                source,
                lane.limits,
                max_block_samples,
                room,
            );
            if source.next_sample <= required_sample {
                audio_source::padding_reaches_exactly(
                    input,
                    required_sample,
                    source,
                    lane.limits,
                    max_block_samples,
                    room,
                );
            }
            if let Ok(padding) = audio_source::padding(
                input,
                required_sample,
                source,
                lane.limits,
                max_block_samples,
                room,
            ) {
                if let Some(total) = retained.plus(padding.page.charge) {
                    if total.within(lane.limits) {
                        let next = done.push(padding);
                        assert(next.drop_last() =~= done);
                        lemma_staging(
                            lane,
                            requests,
                            admitted,
                            max_block_samples,
                            i + 1,
                            total,
                            room - padding.spans.len(),
                            next,
                        );
                        if let Ok((_, paddings)) = audio_service::staged(
                            lane,
                            requests,
                            admitted,
                            max_block_samples,
                            i,
                            retained,
                            room,
                            done,
                        ) {
                            assert(paddings.take(i) =~= paddings.take(i + 1).take(i));
                            assert(next.take(i) =~= done);
                            assert(paddings[i] == paddings.take(i + 1)[i]);
                        }
                    }
                }
            }
        }
    }
}

/// Silence is prepared for all sources that need it or for none: each request gets its silence in
/// its place, each synchronizer takes its part, and all of it is counted to what the lane holds
/// and kept within the bounds.
pub proof fn every_ended_source_gets_its_silence(
    lane: LaneModel,
    requests: Seq<(InputId, u64)>,
    admitted: Seq<Result<(), OutsideFailure>>,
    max_block_samples: usize,
    total: NativeAudioCharge,
    paddings: Seq<PaddingModel>,
)
    requires
        admitted.len() == requests.len(),
        audio_service::staged(
            lane,
            requests,
            admitted,
            max_block_samples,
            0,
            audio_master::held_by(lane.sources),
            lane.limits.max_retained_blocks as int,
            Seq::empty(),
        ) == Ok::<(NativeAudioCharge, Seq<PaddingModel>), NativeMasterError>((total, paddings)),
    ensures
        paddings.len() == requests.len(),
        forall|k: int|
            0 <= k < requests.len() ==> is_provided_for(
                lane,
                requests[k],
                admitted[k],
                #[trigger] paddings[k],
            ),
        ({
            let held = audio_master::held_by(lane.sources);
            let added = silence_together(paddings);
            &&& total.blocks == held.blocks + added.0
            &&& total.samples == held.samples + added.1
            &&& total.bytes == held.bytes + added.2
        }),
        requests.len() > 0 ==> total.blocks <= lane.limits.max_retained_blocks && total.samples
            <= lane.limits.max_retained_samples && total.bytes <= lane.limits.max_retained_bytes,
{
    lemma_staging(
        lane,
        requests,
        admitted,
        max_block_samples,
        0,
        audio_master::held_by(lane.sources),
        lane.limits.max_retained_blocks as int,
        Seq::empty(),
    );
}

proof fn lemma_padding_suffices(
    synchronizer: Synchronizer,
    longest: usize,
    required_sample: u64,
    room: int,
    page: ValidatedAudioPage,
    spans: Seq<crate::audio_source::AudioSilenceSpan>,
)
    requires
        synchronizer.source_rate > 0,
        longest > 0,
        page.charge.blocks <= room <= usize::MAX,
        page.next_sample <= required_sample + 1,
        required_sample + 1 - page.next_sample <= longest * (room - page.charge.blocks),
        required_sample < i64::MAX,
        page.next_sequence + (room - page.charge.blocks) < u64::MAX,
        page.charge.samples + (required_sample + 1 - page.next_sample) <= usize::MAX,
        page.charge.bytes + (required_sample + 1 - page.next_sample)
            * synchronizer.layout.channels * 4 <= usize::MAX,
        audio_timing::boundary_fits(
            synchronizer.source_origin.sample_index as int,
            synchronizer.source_rate,
        ),
        (required_sample + 1) * 1_000_000_000 <= i64::MAX * synchronizer.source_rate,
        i64::MIN <= audio_timing::time_of(
            synchronizer.source_origin,
            page.next_sample as int,
            synchronizer.source_rate,
        ),
        audio_timing::time_of(
            synchronizer.source_origin,
            required_sample + 1,
            synchronizer.source_rate,
        ) <= i64::MAX,
    ensures
        audio_source::padded(synchronizer, longest, required_sample, room, page, spans) is Ok,
    decreases required_sample - page.next_sample + 1,
{
    if page.next_sample <= required_sample {
        let rate = synchronizer.source_rate;
        let channels = synchronizer.layout.channels as int;
        let left = required_sample + 1 - page.next_sample;
        let blocks = room - page.charge.blocks;
        let samples = audio_source::span_length(longest, required_sample, page.next_sample);
        assert(blocks > 0) by (nonlinear_arith)
            requires
                0 < left <= longest * blocks,
                longest > 0,
        ;
        assert(0 < samples <= left);
        assert(left - samples <= longest * (blocks - 1)) by (nonlinear_arith)
            requires
                left <= longest * blocks,
                samples == left || samples == longest,
                blocks >= 1,
                longest > 0,
        ;
        assert(samples * channels * 4 + (left - samples) * channels * 4 == left * channels * 4)
            by (nonlinear_arith);
        assert(0 <= samples * channels * 4 && 0 <= (left - samples) * channels * 4)
            by (nonlinear_arith)
            requires
                0 <= samples <= left,
                channels >= 0,
        ;
        output_blocks_can_be_timed(
            page.next_sample,
            (page.next_sample + samples) as u64,
            rate,
        );
        audio_timing::sample_boundaries_do_not_descend(
            page.next_sample as int,
            page.next_sample + samples,
            rate,
        );
        audio_timing::sample_boundaries_do_not_descend(
            page.next_sample + samples,
            required_sample + 1,
            rate,
        );
        assert(audio_source::silence_is_timed(synchronizer, page.next_sample as int, samples));
        match audio_source::with_span(synchronizer, longest, required_sample, room, page) {
            Err(_) => {},
            Ok((span, next)) => {
                lemma_padding_suffices(
                    synchronizer,
                    longest,
                    required_sample,
                    room,
                    next,
                    spans.push(span),
                );
            },
        }
    }
}

/// A source that has ended gets its silence wherever the spans that there is room for are long
/// enough together, and what they hold and when they begin can be told.
pub proof fn silence_is_found_where_there_is_room(
    input: InputId,
    required_sample: u64,
    source: NativeAudioSource,
    synchronizer: Synchronizer,
    limits: NativeAudioLimits,
    max_block_samples: usize,
    room: int,
)
    requires
        source.synchronizer == Some(synchronizer),
        synchronizer.source_rate > 0,
        max_block_samples > 0,
        limits.max_samples_per_page > 0,
        0 <= room <= usize::MAX,
        source.next_sample <= required_sample + 1,
        required_sample + 1 - source.next_sample <= max_block_samples * room,
        required_sample + 1 - source.next_sample <= limits.max_samples_per_page * room,
        required_sample < i64::MAX,
        source.next_sequence + room < u64::MAX,
        required_sample + 1 - source.next_sample <= usize::MAX,
        (required_sample + 1 - source.next_sample) * synchronizer.layout.channels * 4
            <= usize::MAX,
        audio_timing::boundary_fits(
            synchronizer.source_origin.sample_index as int,
            synchronizer.source_rate,
        ),
        (required_sample + 1) * 1_000_000_000 <= i64::MAX * synchronizer.source_rate,
        i64::MIN <= audio_timing::time_of(
            synchronizer.source_origin,
            source.next_sample as int,
            synchronizer.source_rate,
        ),
        audio_timing::time_of(
            synchronizer.source_origin,
            required_sample + 1,
            synchronizer.source_rate,
        ) <= i64::MAX,
    ensures
        audio_source::padding(input, required_sample, source, limits, max_block_samples, room)
            is Ok,
{
    lemma_padding_suffices(
        synchronizer,
        audio_source::longest_span(limits, max_block_samples),
        required_sample,
        room,
        audio_source::page_start(source.next_sample, source.next_sequence),
        Seq::empty(),
    );
}

/// Whether no silence from `i` on is for an input.
pub open spec fn is_not_padded(paddings: Seq<PaddingModel>, i: int, input: InputId) -> bool {
    forall|k: int| i <= k < paddings.len() ==> (#[trigger] paddings[k]).input != input
}

proof fn lemma_padding_lane(
    lane: LaneModel,
    paddings: Seq<PaddingModel>,
    pushed: Seq<Result<NativeAudioCharge, OutsideFailure>>,
    i: int,
    input: InputId,
)
    requires
        lane.wf(),
        0 <= i,
        is_not_padded(paddings, i, input),
    ensures
        audio_service::padded_lane(lane, paddings, pushed, i).0.source(input) == lane.source(input),
    decreases paddings.len() - i,
{
    if i < paddings.len() {
        let padded = paddings[i].input;
        if let Some(source) = lane.source(padded) {
            lemma_source_is_listed(lane, padded);
            if let Ok(after) = audio_source::with_pushed_page(
                source,
                paddings[i].page,
                pushed[i],
            ) {
                audio_master::lemma_with_source(lane, padded, after);
                let next = lane.with_source(padded, after).with_telemetry(
                    audio_service::padded_telemetry(
                        lane.audio_telemetry,
                        paddings[i].page.charge,
                    ),
                );
                assert(next.source(input) == lane.with_source(padded, after).source(input));
                lemma_padding_lane(next, paddings, pushed, i + 1, input);
            }
        }
    }
}

proof fn lemma_padding_moves(
    lane: LaneModel,
    paddings: Seq<PaddingModel>,
    pushed: Seq<Result<NativeAudioCharge, OutsideFailure>>,
    i: int,
    place: int,
)
    requires
        lane.wf(),
        0 <= i <= place < paddings.len(),
        pushed.len() == paddings.len(),
        is_not_padded(paddings, place + 1, paddings[place].input),
        forall|k: int| i <= k < place ==> (#[trigger] paddings[k]).input != paddings[place].input,
    ensures
        ({
            let (after, outcome) = audio_service::padded_lane(lane, paddings, pushed, i);
            let input = paddings[place].input;
            outcome is Ok ==> (lane.source(input) matches Some(source)
                && source.synchronizer matches Some(synchronizer)
                && pushed[place] matches Ok(buffered) && after.source(input) == Some(
                NativeAudioSource {
                    synchronizer: Some(Synchronizer { buffered, ..synchronizer }),
                    next_sample: paddings[place].page.next_sample,
                    next_sequence: paddings[place].page.next_sequence,
                    ..source
                },
            ))
        }),
    decreases paddings.len() - i,
{
    let input = paddings[place].input;
    let padded = paddings[i].input;
    if let Some(source) = lane.source(padded) {
        lemma_source_is_listed(lane, padded);
        if let Ok(moved) = audio_source::with_pushed_page(source, paddings[i].page, pushed[i]) {
            audio_master::lemma_with_source(lane, padded, moved);
            let next = lane.with_source(padded, moved).with_telemetry(
                audio_service::padded_telemetry(lane.audio_telemetry, paddings[i].page.charge),
            );
            assert(next.source(input) == lane.with_source(padded, moved).source(input));
            if i < place {
                lemma_padding_moves(next, paddings, pushed, i + 1, place);
            } else {
                lemma_padding_lane(next, paddings, pushed, i + 1, input);
            }
        }
    }
}

/// Silence that has been pushed moves the source that it is for, and no other: it stands behind
/// the silence then, and holds what its synchronizer holds. It has ended as before.
pub proof fn silence_moves_its_source(
    lane: LaneModel,
    paddings: Seq<PaddingModel>,
    pushed: Seq<Result<NativeAudioCharge, OutsideFailure>>,
    place: int,
    other: InputId,
)
    requires
        lane.wf(),
        pushed.len() == paddings.len(),
        0 <= place < paddings.len(),
        forall|k: int|
            0 <= k < paddings.len() && k != place ==> (#[trigger] paddings[k]).input
                != paddings[place].input,
    ensures
        ({
            let (after, outcome) = audio_service::padded_lane(lane, paddings, pushed, 0);
            let input = paddings[place].input;
            &&& outcome is Ok ==> (lane.source(input) matches Some(source)
                && source.synchronizer matches Some(synchronizer)
                && pushed[place] matches Ok(buffered) && after.source(input) == Some(
                NativeAudioSource {
                    synchronizer: Some(Synchronizer { buffered, ..synchronizer }),
                    next_sample: paddings[place].page.next_sample,
                    next_sequence: paddings[place].page.next_sequence,
                    ..source
                },
            ))
            &&& is_not_padded(paddings, 0, other) ==> after.source(other) == lane.source(other)
        }),
{
    lemma_padding_moves(lane, paddings, pushed, 0, place);
    if is_not_padded(paddings, 0, other) {
        lemma_padding_lane(lane, paddings, pushed, 0, other);
    }
}

} // verus!
