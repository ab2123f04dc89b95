//! Servicing a lane: planning the next frame, padding ended sources, asking for more.
use vstd::prelude::*;

use crate::audio_limits;
use crate::audio_limits::{
    audio_sample_bytes, proportional_page_samples, validate_retained_bounds, NativeAudioCharge,
    NativeAudioTelemetry, NativeMasterError, AUDIO_REFILL_LOW_WATERMARK,
};
use crate::audio_master;
use crate::audio_master::{LaneModel, NativeAudioDecodeResult, NativeMasterLane, ReadyFrame};
use crate::audio_source;
use crate::audio_source::{
    commit_audio_page, stage_eos_padding_source, DecodedAudioWindow, NativeAudioReservation,
    NativeAudioSource, PaddingModel, StagedAudioPadding, Synchronizer,
};
use crate::audio_timing;
use crate::audio_timing::output_audio_timing;
use crate::model::{InputId, OutsideFailure};
use crate::ordered;
use crate::source::MediaTiming;

verus! {

/// The part of a frame that one source plays.
#[derive(Clone, Copy, Debug, PartialEq, Eq, Structural)]
pub struct RenderInterval {
    pub start_sample: u64,
    pub samples: usize,
    pub timing: MediaTiming,
}

/// What a synchronizer says of an interval.
#[derive(Clone, Copy, Debug, PartialEq, Eq, Structural)]
pub enum RenderOutcome {
    /// The interval can be rendered.
    Ready,
    /// Samples up to the one named are missing.
    NeedMoreInput { required_sample: u64 },
    Failed(OutsideFailure),
}

/// The part of a frame that a source plays: nothing before its audio begins.
pub open spec fn interval_of(lane: LaneModel, source: NativeAudioSource, start: u64, end: u64) -> Result<
    Option<RenderInterval>,
    NativeMasterError,
> {
    let begin = if start < source.audio_start_master_sample {
        source.audio_start_master_sample
    } else {
        start
    };
    if source.explicit_silence || end <= source.audio_start_master_sample {
        Ok(None)
    } else if end - begin > usize::MAX || !audio_timing::block_is_timed(
        begin,
        end,
        lane.sample_rate,
    ) {
        Err(NativeMasterError::BoundsExceeded)
    } else if source.synchronizer is None {
        Err(NativeMasterError::InvalidFormat)
    } else {
        Ok(
            Some(
                RenderInterval {
                    start_sample: begin,
                    samples: (end - begin) as usize,
                    timing: audio_timing::block_timing(
                        lane.expected_next_frame,
                        begin,
                        end,
                        lane.sample_rate,
                        lane.clock_domain,
                    ),
                },
            ),
        )
    }
}

/// What the sources from `i` on need for a frame: the inputs whose decoders have to bring
/// more, and the inputs that have ended and need silence, with the last sample of it.
pub open spec fn needs(
    lane: LaneModel,
    start: u64,
    end: u64,
    outcomes: Seq<RenderOutcome>,
    i: int,
    uncovered: Seq<InputId>,
    paddings: Seq<(InputId, u64)>,
) -> Result<(Seq<InputId>, Seq<(InputId, u64)>), NativeMasterError>
    decreases lane.sources.len() - i,
{
    if i >= lane.sources.len() {
        Ok((uncovered, paddings))
    } else {
        let (input, source) = lane.sources[i];
        match interval_of(lane, source, start, end) {
            Err(error) => Err(error),
            Ok(None) => needs(lane, start, end, outcomes, i + 1, uncovered, paddings),
            Ok(Some(interval)) => match outcomes[i] {
                RenderOutcome::Ready => needs(
                    lane,
                    start,
                    end,
                    outcomes,
                    i + 1,
                    uncovered,
                    paddings,
                ),
                RenderOutcome::NeedMoreInput { required_sample } => if source.end_of_stream {
                    needs(
                        lane,
                        start,
                        end,
                        outcomes,
                        i + 1,
                        uncovered,
                        paddings.push((input, required_sample)),
                    )
                } else {
                    needs(lane, start, end, outcomes, i + 1, uncovered.push(input), paddings)
                },
                RenderOutcome::Failed(error) => Err(NativeMasterError::Synchronizer(error)),
            },
        }
    }
}

proof fn lemma_needs(
    lane: LaneModel,
    start: u64,
    end: u64,
    outcomes: Seq<RenderOutcome>,
    i: int,
    uncovered: Seq<InputId>,
    paddings: Seq<(InputId, u64)>,
)
    requires
        lane.wf(),
        0 <= i <= lane.sources.len(),
        forall|k: int|
            0 <= k < uncovered.len() ==> (lane.source(#[trigger] uncovered[k]) matches Some(source)
                && !source.end_of_stream),
        forall|k: int|
            0 <= k < paddings.len() ==> (lane.source((#[trigger] paddings[k]).0) matches Some(source)
                && source.end_of_stream),
    ensures
        needs(lane, start, end, outcomes, i, uncovered, paddings) matches Ok((all, ended)) ==> {
            &&& forall|k: int|
                0 <= k < all.len() ==> (lane.source(#[trigger] all[k]) matches Some(source)
                    && !source.end_of_stream)
            &&& forall|k: int|
                0 <= k < ended.len() ==> (lane.source((#[trigger] ended[k]).0) matches Some(source)
                    && source.end_of_stream)
        },
    decreases lane.sources.len() - i,
{
    if i < lane.sources.len() {
        let (input, source) = lane.sources[i];
        ordered::lemma_entries_match_map(lane.sources);
        assert(lane.source(input) == Some(source));
        let stalled = uncovered.push(input);
        assert forall|k: int| 0 <= k < stalled.len() && !source.end_of_stream implies (lane.source(
            #[trigger] stalled[k],
        ) matches Some(source) && !source.end_of_stream) by {
            assert(k < uncovered.len() ==> stalled[k] == uncovered[k]);
        }
        match interval_of(lane, source, start, end) {
            Err(_) => {},
            Ok(None) => {
                lemma_needs(lane, start, end, outcomes, i + 1, uncovered, paddings);
            },
            Ok(Some(_)) => match outcomes[i] {
                RenderOutcome::Ready => {
                    lemma_needs(lane, start, end, outcomes, i + 1, uncovered, paddings);
                },
                RenderOutcome::NeedMoreInput { required_sample } => {
                    if source.end_of_stream {
                        let padded = paddings.push((input, required_sample));
                        assert forall|k: int| 0 <= k < padded.len() implies (lane.source(
                            (#[trigger] padded[k]).0,
                        ) matches Some(source) && source.end_of_stream) by {
                            assert(k < paddings.len() ==> padded[k] == paddings[k]);
                        }
                        lemma_needs(lane, start, end, outcomes, i + 1, uncovered, padded);
                    } else {
                        lemma_needs(lane, start, end, outcomes, i + 1, stalled, paddings);
                    }
                },
                RenderOutcome::Failed(_) => {},
            },
        }
    }
}

/// A source that has ended never stalls a frame: it is padded, and only sources that have not
/// ended are waited for.
pub proof fn ended_sources_never_stall(
    lane: LaneModel,
    start: u64,
    end: u64,
    outcomes: Seq<RenderOutcome>,
)
    requires
        lane.wf(),
    ensures
        needs(lane, start, end, outcomes, 0, Seq::empty(), Seq::empty()) matches Ok(
            (uncovered, paddings),
        ) ==> {
            &&& forall|k: int|
                0 <= k < uncovered.len() ==> (lane.source(
                    #[trigger] uncovered[k],
                ) matches Some(source) && !source.end_of_stream)
            &&& forall|k: int|
                0 <= k < paddings.len() ==> (lane.source(
                    (#[trigger] paddings[k]).0,
                ) matches Some(source) && source.end_of_stream)
        },
{
    lemma_needs(lane, start, end, outcomes, 0, Seq::empty(), Seq::empty());
}

/// The silence that sources which have ended need, from request `i` on, and what the lane
/// would hold with all of it.
pub open spec fn staged(
    lane: LaneModel,
    requests: Seq<(InputId, u64)>,
    admitted: Seq<Result<(), OutsideFailure>>,
    max_block_samples: usize,
    i: int,
    retained: NativeAudioCharge,
    room: int,
    done: Seq<PaddingModel>,
) -> Result<(NativeAudioCharge, Seq<PaddingModel>), NativeMasterError>
    decreases requests.len() - i,
{
    if i >= requests.len() {
        Ok((retained, done))
    } else {
        let (input, required_sample) = requests[i];
        match lane.source(input) {
            None => Err(NativeMasterError::DecodeContract { input }),
            Some(source) => match audio_source::padding(
                input,
                required_sample,
                source,
                lane.limits,
                max_block_samples,
                room,
            ) {
                Err(error) => Err(error),
                Ok(padding) => match admitted[i] {
                    Err(error) => Err(NativeMasterError::Synchronizer(error)),
                    Ok(()) => match retained.plus(padding.page.charge) {
                        None => Err(NativeMasterError::BoundsExceeded),
                        Some(total) => if !total.within(lane.limits) {
                            Err(NativeMasterError::BoundsExceeded)
                        } else {
                            staged(
                                lane,
                                requests,
                                admitted,
                                max_block_samples,
                                i + 1,
                                total,
                                room - padding.spans.len(),
                                done.push(padding),
                            )
                        },
                    },
                },
            },
        }
    }
}

/// What prepared silences hold.
pub open spec fn paddings_of(staged: Seq<StagedAudioPadding>) -> Seq<PaddingModel> {
    Seq::new(staged.len(), |i: int| staged[i]@)
}

/// The counts after a source has been padded.
pub open spec fn padded_telemetry(telemetry: NativeAudioTelemetry, charge: NativeAudioCharge) -> NativeAudioTelemetry {
    NativeAudioTelemetry {
        eos_padding_blocks: audio_limits::capped_u64(
            telemetry.eos_padding_blocks,
            charge.blocks as int,
        ),
        eos_padding_samples: audio_limits::capped_u64(
            telemetry.eos_padding_samples,
            charge.samples as int,
        ),
        ..telemetry
    }
}

/// The lane after prepared silence has been pushed from `i` on, given what pushing each came
/// to.
pub open spec fn padded_lane(
    lane: LaneModel,
    staged: Seq<PaddingModel>,
    pushed: Seq<Result<NativeAudioCharge, OutsideFailure>>,
    i: int,
) -> (LaneModel, Result<(), NativeMasterError>)
    decreases staged.len() - i,
{
    if i >= staged.len() {
        (lane, Ok(()))
    } else {
        let input = staged[i].input;
        match lane.source(input) {
            None => (lane, Err(NativeMasterError::DecodeContract { input })),
            Some(source) => match audio_source::with_pushed_page(
                source,
                staged[i].page,
                pushed[i],
            ) {
                Err(error) => (lane, Err(error)),
                Ok(after) => padded_lane(
                    lane.with_source(input, after).with_telemetry(
                        padded_telemetry(lane.audio_telemetry, staged[i].page.charge),
                    ),
                    staged,
                    pushed,
                    i + 1,
                ),
            },
        }
    }
}

/// What a decoder is asked for.
#[derive(Clone, Copy, Debug, PartialEq, Eq, Structural)]
pub struct NativeAudioDecodeRequest {
    pub input: InputId,
    pub count: u32,
    pub max_samples: usize,
    pub max_bytes: usize,
    pub generation: u64,
    pub restart: bool,
    pub restart_target_ordinal: usize,
    pub max_position_blocks: usize,
}

impl NativeAudioDecodeRequest {
    /// What a request has been promised room for.
    pub open spec fn reserved(self) -> NativeAudioReservation {
        NativeAudioReservation {
            count: self.count,
            charge: NativeAudioCharge {
                blocks: self.count as usize,
                samples: self.max_samples,
                bytes: self.max_bytes,
            },
            generation: self.generation,
        }
    }

    /// The answer to a request, with what its decoder passed over and brought.
    pub fn answered(
        self,
        positioned_blocks: u64,
        positioned_samples: u64,
        window: Result<DecodedAudioWindow, OutsideFailure>,
        admitted: Result<(), OutsideFailure>,
    ) -> (answer: NativeAudioDecodeResult)
        ensures
            answer == (NativeAudioDecodeResult {
                input: self.input,
                reservation: self.reserved(),
                positioned_blocks,
                positioned_samples,
                window,
                admitted,
            }),
    {
        NativeAudioDecodeResult {
            input: self.input,
            reservation: NativeAudioReservation {
                count: self.count,
                charge: NativeAudioCharge {
                    blocks: self.count as usize,
                    samples: self.max_samples,
                    bytes: self.max_bytes,
                },
                generation: self.generation,
            },
            positioned_blocks,
            positioned_samples,
            window,
            admitted,
        }
    }
}

/// Whether a source is to be left alone: nothing more comes of it, it is being served, or it
/// is not needed yet.
pub open spec fn is_at_rest(
    source: NativeAudioSource,
    synchronizer: Synchronizer,
    requested_end: u64,
    urgent: bool,
) -> bool {
    ||| source.end_of_stream
    ||| source.in_flight is Some
    ||| !urgent && requested_end <= source.audio_start_master_sample
    ||| !urgent && synchronizer.buffered.blocks > AUDIO_REFILL_LOW_WATERMARK
}

/// How many blocks a source can take.
pub open spec fn page_blocks(lane: LaneModel, synchronizer: Synchronizer) -> int {
    let room = if synchronizer.buffered.blocks < lane.limits.max_blocks_per_source {
        lane.limits.max_blocks_per_source - synchronizer.buffered.blocks
    } else {
        0
    };
    if room < lane.limits.max_blocks_per_page {
        room
    } else {
        lane.limits.max_blocks_per_page as int
    }
}

/// Whether a page can be held beside what is held and asked for.
pub open spec fn has_room(
    lane: LaneModel,
    synchronizer: Synchronizer,
    retained: NativeAudioCharge,
    reserved: NativeAudioCharge,
    charge: NativeAudioCharge,
) -> bool {
    &&& retained.blocks + reserved.blocks + charge.blocks <= lane.limits.max_retained_blocks
    &&& retained.samples + reserved.samples + charge.samples <= lane.limits.max_retained_samples
    &&& retained.bytes + reserved.bytes + charge.bytes <= lane.limits.max_retained_bytes
    &&& synchronizer.buffered.samples + charge.samples <= synchronizer.max_samples
    &&& synchronizer.buffered.bytes + charge.bytes <= synchronizer.max_bytes
}

/// Nothing for a source that can wait, a failure for one that cannot.
pub open spec fn refused(urgent: bool) -> Result<Option<NativeAudioReservation>, NativeMasterError> {
    if urgent {
        Err(NativeMasterError::BoundsExceeded)
    } else {
        Ok(None)
    }
}

/// What is asked of the decoder of an input, if anything.
pub open spec fn refill_of(
    lane: LaneModel,
    input: InputId,
    requested_end: u64,
    retained: NativeAudioCharge,
    reserved: NativeAudioCharge,
    urgent: bool,
) -> Result<Option<NativeAudioReservation>, NativeMasterError> {
    match lane.source(input) {
        None => Err(NativeMasterError::DecodeContract { input }),
        Some(source) => if source.explicit_silence {
            Ok(None)
        } else {
            match source.synchronizer {
                None => Err(NativeMasterError::InvalidFormat),
                Some(synchronizer) => if is_at_rest(source, synchronizer, requested_end, urgent) {
                    Ok(None)
                } else {
                    let count = page_blocks(lane, synchronizer);
                    if count == 0 {
                        refused(urgent)
                    } else {
                        match audio_limits::counted_page_share(count as u32, lane.limits) {
                            Err(error) => Err(error),
                            Ok(samples) => {
                                let bytes = audio_limits::sample_bytes(
                                    samples,
                                    synchronizer.layout.channels,
                                );
                                let charge = NativeAudioCharge {
                                    blocks: count as usize,
                                    samples,
                                    bytes: bytes as usize,
                                };
                                if bytes > usize::MAX {
                                    Err(NativeMasterError::BoundsExceeded)
                                } else if !has_room(
                                    lane,
                                    synchronizer,
                                    retained,
                                    reserved,
                                    charge,
                                ) {
                                    refused(urgent)
                                } else {
                                    Ok(
                                        Some(
                                            NativeAudioReservation {
                                                count: count as u32,
                                                charge,
                                                generation: source.decode_generation,
                                            },
                                        ),
                                    )
                                }
                            },
                        }
                    }
                },
            }
        },
    }
}

/// The request that goes with a reservation.
pub open spec fn request_of(
    lane: LaneModel,
    input: InputId,
    reservation: NativeAudioReservation,
) -> NativeAudioDecodeRequest {
    let source = lane.source(input)->Some_0;
    NativeAudioDecodeRequest {
        input,
        count: reservation.count,
        max_samples: reservation.charge.samples,
        max_bytes: reservation.charge.bytes,
        generation: reservation.generation,
        restart: source.restart_decode,
        restart_target_ordinal: source.restart_target_ordinal,
        max_position_blocks: lane.limits.max_position_blocks,
    }
}

/// The lane after a request has been made.
pub open spec fn with_request(
    lane: LaneModel,
    input: InputId,
    reservation: NativeAudioReservation,
) -> LaneModel {
    lane.with_source(
        input,
        NativeAudioSource {
            in_flight: Some(reservation),
            restart_decode: false,
            ..lane.source(input)->Some_0
        },
    ).with_telemetry(lane.audio_telemetry.with_reservation(reservation.charge))
}

/// The answer to a request names what was promised to its source, so that it settles the open
/// request and no other.
pub proof fn answers_name_their_request(
    lane: LaneModel,
    input: InputId,
    requested_end: u64,
    retained: NativeAudioCharge,
    reserved: NativeAudioCharge,
    urgent: bool,
)
    requires
        lane.wf(),
    ensures
        refill_of(lane, input, requested_end, retained, reserved, urgent) matches Ok(
            Some(reservation),
        ) ==> {
            &&& request_of(lane, input, reservation).reserved() == reservation
            &&& request_of(lane, input, reservation).input == input
            &&& with_request(lane, input, reservation).source(input) matches Some(source)
                && source.in_flight == Some(reservation) && source.decode_generation
                == reservation.generation
        },
{
    if let Ok(Some(reservation)) = refill_of(
        lane,
        input,
        requested_end,
        retained,
        reserved,
        urgent,
    ) {
        let source = lane.source(input)->Some_0;
        let slot = ordered::lower_bound(lane.inputs(), input);
        ordered::lemma_lower_bound(lane.inputs(), input);
        ordered::lemma_contains_at_lower_bound(lane.inputs(), input);
        ordered::lemma_entries_match_map(lane.sources);
        assert(lane.sources[slot] == (input, source));
        audio_master::lemma_with_source(
            lane,
            input,
            NativeAudioSource {
                in_flight: Some(reservation),
                restart_decode: false,
                ..source
            },
        );
    }
}

/// The inputs of `keys` that `uncovered` does not name.
pub open spec fn covered_keys(keys: Seq<InputId>, uncovered: Seq<InputId>) -> Seq<InputId>
    decreases keys.len(),
{
    if keys.len() == 0 {
        Seq::empty()
    } else if uncovered.contains(keys.last()) {
        covered_keys(keys.drop_last(), uncovered)
    } else {
        covered_keys(keys.drop_last(), uncovered).push(keys.last())
    }
}

/// The order in which decoders are asked: first those that a frame waits for, then the others
/// by their input.
pub open spec fn refill_order(lane: LaneModel, uncovered: Seq<InputId>) -> Seq<InputId> {
    uncovered + covered_keys(lane.inputs(), uncovered)
}

/// The lane after decoders have been asked from place `i` of the order on, and the requests.
pub open spec fn refilled(
    lane: LaneModel,
    requested_end: u64,
    retained: NativeAudioCharge,
    reserved: NativeAudioCharge,
    uncovered: Seq<InputId>,
    order: Seq<InputId>,
    i: int,
    requests: Seq<NativeAudioDecodeRequest>,
) -> (LaneModel, Seq<NativeAudioDecodeRequest>, Result<(), NativeMasterError>)
    decreases order.len() - i,
{
    if i >= order.len() {
        (lane, requests, Ok(()))
    } else {
        match refill_of(
            lane,
            order[i],
            requested_end,
            retained,
            reserved,
            uncovered.contains(order[i]),
        ) {
            Err(error) => (lane, requests, Err(error)),
            Ok(None) => refilled(
                lane,
                requested_end,
                retained,
                reserved,
                uncovered,
                order,
                i + 1,
                requests,
            ),
            Ok(Some(reservation)) => refilled(
                with_request(lane, order[i], reservation),
                requested_end,
                retained,
                reserved.plus(reservation.charge)->Some_0,
                uncovered,
                order,
                i + 1,
                requests.push(request_of(lane, order[i], reservation)),
            ),
        }
    }
}

/// What is asked for by the sources together, where it can be counted.
pub open spec fn reserved_by(sources: Seq<(InputId, NativeAudioSource)>) -> Option<NativeAudioCharge>
    decreases sources.len(),
{
    if sources.len() == 0 {
        Some(NativeAudioCharge::zero())
    } else {
        match reserved_by(sources.drop_last()) {
            None => None,
            Some(total) => match sources.last().1.in_flight {
                None => Some(total),
                Some(reservation) => total.plus(reservation.charge),
            },
        }
    }
}

proof fn lemma_uncounted(sources: Seq<(InputId, NativeAudioSource)>, count: int)
    requires
        0 <= count <= sources.len(),
        reserved_by(sources.take(count)) is None,
    ensures
        reserved_by(sources) is None,
    decreases sources.len() - count,
{
    if count == sources.len() {
        assert(sources.take(count) =~= sources);
    } else {
        assert(sources.take(count + 1).drop_last() =~= sources.take(count));
        lemma_uncounted(sources, count + 1);
    }
}

/// The lane after decoders have been asked, and the requests.
pub open spec fn scheduled(lane: LaneModel, requested_end: u64, uncovered: Seq<InputId>) -> (
    LaneModel,
    Seq<NativeAudioDecodeRequest>,
    Result<(), NativeMasterError>,
) {
    match reserved_by(lane.sources) {
        None => (lane, Seq::empty(), Err(NativeMasterError::BoundsExceeded)),
        Some(reserved) => refilled(
            lane,
            requested_end,
            audio_master::held_by(lane.sources),
            reserved,
            uncovered,
            refill_order(lane, uncovered),
            0,
            Seq::empty(),
        ),
    }
}

/// The lane after a frame has been serviced, the requests, and whether the frame is covered.
pub open spec fn serviced(lane: LaneModel, start: u64, end: u64, uncovered: Seq<InputId>) -> (
    LaneModel,
    Seq<NativeAudioDecodeRequest>,
    Result<bool, NativeMasterError>,
) {
    let counted = lane.with_telemetry(
        NativeAudioTelemetry {
            source_stalls: audio_limits::capped_u64(
                lane.audio_telemetry.source_stalls,
                uncovered.len() as int,
            ),
            ..lane.audio_telemetry
        },
    );
    match scheduled(counted, end, uncovered) {
        (after, requests, Err(error)) => (after, requests, Err(error)),
        (after, requests, Ok(_)) => (
            LaneModel {
                ready_frame: if uncovered.len() == 0 {
                    Some(
                        ReadyFrame {
                            frame: lane.expected_next_frame,
                            start_sample: start,
                            end_sample: end,
                        },
                    )
                } else {
                    None
                },
                ..after
            },
            requests,
            Ok(uncovered.len() == 0),
        ),
    }
}

impl NativeMasterLane {
    /// Begins to service the next frame: a lane that failed stays failed.
    pub fn begin_service(&self) -> (span: Result<(u64, u64), NativeMasterError>)
        requires
            self.wf(),
        ensures
            span == (if self.failed {
                Err(NativeMasterError::Failed)
            } else {
                audio_master::next_span(self@)
            }),
            span matches Ok((start, end)) ==> start <= end,
    {
        if self.failed {
            return Err(NativeMasterError::Failed);
        }
        self.next_frame_sample_span()
    }

    /// Finds the part of a frame that the source at `slot` plays.
    pub fn render_interval(&self, slot: usize, start_sample: u64, end_sample: u64) -> (interval: Result<
        Option<RenderInterval>,
        NativeMasterError,
    >)
        requires
            slot < self@.sources.len(),
            start_sample <= end_sample,
        ensures
            interval == interval_of(self@, self@.sources[slot as int].1, start_sample, end_sample),
    {
        let source: NativeAudioSource = self.sources.entries[slot].1;
        if source.explicit_silence || end_sample <= source.audio_start_master_sample {
            return Ok(None);
        }
        let render_start: u64 = if start_sample < source.audio_start_master_sample {
            source.audio_start_master_sample
        } else {
            start_sample
        };
        if end_sample - render_start > usize::MAX as u64 {
            return Err(NativeMasterError::BoundsExceeded);
        }
        let timing: MediaTiming = match output_audio_timing(
            self.expected_next_frame,
            render_start,
            end_sample,
            self.sample_rate,
            self.clock_domain,
        ) {
            Err(error) => {
                return Err(error);
            },
            Ok(timing) => timing,
        };
        match source.synchronizer {
            None => Err(NativeMasterError::InvalidFormat),
            Some(_) => Ok(
                Some(
                    RenderInterval {
                        start_sample: render_start,
                        samples: (end_sample - render_start) as usize,
                        timing,
                    },
                ),
            ),
        }
    }

    /// Finds out what the sources need for a frame, given what the synchronizers say of their
    /// intervals. The outcome of a source that plays no part of the frame is not looked at.
    pub fn plan_sources(&self, start_sample: u64, end_sample: u64, outcomes: &Vec<RenderOutcome>) -> (found:
        Result<(Vec<InputId>, Vec<(InputId, u64)>), NativeMasterError>)
        requires
            start_sample <= end_sample,
            outcomes@.len() == self@.sources.len(),
        ensures
            match found {
                Ok((uncovered, paddings)) => needs(
                    self@,
                    start_sample,
                    end_sample,
                    outcomes@,
                    0,
                    Seq::empty(),
                    Seq::empty(),
                ) == Ok::<(Seq<InputId>, Seq<(InputId, u64)>), NativeMasterError>(
                    (uncovered@, paddings@),
                ),
                Err(error) => needs(
                    self@,
                    start_sample,
                    end_sample,
                    outcomes@,
                    0,
                    Seq::empty(),
                    Seq::empty(),
                ) == Err::<(Seq<InputId>, Seq<(InputId, u64)>), NativeMasterError>(error),
            },
    {
        let mut uncovered: Vec<InputId> = Vec::new();
        let mut paddings: Vec<(InputId, u64)> = Vec::new();
        let mut i: usize = 0;
        let ghost whole = needs(
            self@,
            start_sample,
            end_sample,
            outcomes@,
            0,
            Seq::empty(),
            Seq::empty(),
        );
        assert(uncovered@ =~= Seq::<InputId>::empty());
        assert(paddings@ =~= Seq::<(InputId, u64)>::empty());
        while i < self.sources.entries.len()
            invariant
                i <= self@.sources.len(),
                start_sample <= end_sample,
                outcomes@.len() == self@.sources.len(),
                whole == needs(
                    self@,
                    start_sample,
                    end_sample,
                    outcomes@,
                    0,
                    Seq::empty(),
                    Seq::empty(),
                ),
                whole == needs(
                    self@,
                    start_sample,
                    end_sample,
                    outcomes@,
                    i as int,
                    uncovered@,
                    paddings@,
                ),
            decreases self@.sources.len() - i,
        {
            let input: InputId = self.sources.entries[i].0;
            match self.render_interval(i, start_sample, end_sample) {
                Err(error) => {
                    return Err(error);
                },
                Ok(None) => {},
                Ok(Some(_)) => match outcomes[i] {
                    RenderOutcome::Ready => {},
                    RenderOutcome::NeedMoreInput { required_sample } => {
                        if self.sources.entries[i].1.end_of_stream {
                            paddings.push((input, required_sample));
                        } else {
                            uncovered.push(input);
                        }
                    },
                    RenderOutcome::Failed(error) => {
                        return Err(NativeMasterError::Synchronizer(error));
                    },
                },
            }
            i = i + 1;
        }
        Ok((uncovered, paddings))
    }

    /// Prepares silence for all sources that have ended, given whether each synchronizer would
    /// take its part. Either all of it can be pushed, or nothing has changed.
    pub fn stage_eos_padding(
        &self,
        requests: &Vec<(InputId, u64)>,
        admitted: &Vec<Result<(), OutsideFailure>>,
        max_block_samples: usize,
    ) -> (prepared: Result<(NativeAudioCharge, Vec<StagedAudioPadding>), NativeMasterError>)
        requires
            self.wf(),
            admitted@.len() == requests@.len(),
        ensures
            match prepared {
                Ok((retained, paddings)) => staged(
                    self@,
                    requests@,
                    admitted@,
                    max_block_samples,
                    0,
                    audio_master::held_by(self@.sources),
                    self@.limits.max_retained_blocks as int,
                    Seq::empty(),
                ) == Ok::<(NativeAudioCharge, Seq<PaddingModel>), NativeMasterError>(
                    (retained, paddings_of(paddings@)),
                ),
                Err(error) => staged(
                    self@,
                    requests@,
                    admitted@,
                    max_block_samples,
                    0,
                    audio_master::held_by(self@.sources),
                    self@.limits.max_retained_blocks as int,
                    Seq::empty(),
                ) == Err::<(NativeAudioCharge, Seq<PaddingModel>), NativeMasterError>(error),
            },
    {
        let mut retained: NativeAudioCharge = self.retained_charge();
        let mut room: usize = self.limits.max_retained_blocks;
        let mut paddings: Vec<StagedAudioPadding> = Vec::new();
        let mut i: usize = 0;
        let ghost whole = staged(
            self@,
            requests@,
            admitted@,
            max_block_samples,
            0,
            audio_master::held_by(self@.sources),
            self@.limits.max_retained_blocks as int,
            Seq::empty(),
        );
        assert(paddings_of(paddings@) =~= Seq::<PaddingModel>::empty());
        while i < requests.len()
            invariant
                self.wf(),
                i <= requests@.len(),
                admitted@.len() == requests@.len(),
                whole == staged(
                    self@,
                    requests@,
                    admitted@,
                    max_block_samples,
                    0,
                    audio_master::held_by(self@.sources),
                    self@.limits.max_retained_blocks as int,
                    Seq::empty(),
                ),
                whole == staged(
                    self@,
                    requests@,
                    admitted@,
                    max_block_samples,
                    i as int,
                    retained,
                    room as int,
                    paddings_of(paddings@),
                ),
            decreases requests@.len() - i,
        {
            let (input, required_sample): (InputId, u64) = requests[i];
            let slot: usize = match self.sources.position(input) {
                None => {
                    return Err(NativeMasterError::DecodeContract { input });
                },
                Some(slot) => slot,
            };
            let source: NativeAudioSource = self.sources.entries[slot].1;
            proof {
                audio_master::lemma_with_source(self@, input, self@.sources[slot as int].1);
                audio_source::padding_keeps_to_its_room(
                    input,
                    required_sample,
                    source,
                    self.limits,
                    max_block_samples,
                    room as int,
                );
            }
            let padding: StagedAudioPadding = match stage_eos_padding_source(
                input,
                required_sample,
                &source,
                self.limits,
                max_block_samples,
                room,
            ) {
                Err(error) => {
                    return Err(error);
                },
                Ok(padding) => padding,
            };
            match admitted[i] {
                Err(error) => {
                    return Err(NativeMasterError::Synchronizer(error));
                },
                Ok(()) => {},
            }
            let total: NativeAudioCharge = match retained.checked_add(padding.page.charge) {
                None => {
                    return Err(NativeMasterError::BoundsExceeded);
                },
                Some(total) => total,
            };
            match validate_retained_bounds(total, self.limits) {
                Err(error) => {
                    return Err(error);
                },
                Ok(()) => {},
            }
            let ghost before = paddings@;
            retained = total;
            room = room - padding.spans.len();
            paddings.push(padding);
            assert(paddings_of(paddings@) =~= paddings_of(before).push(padding@));
            i = i + 1;
        }
        Ok((retained, paddings))
    }

    /// Moves the sources on by silence that has been pushed, given what pushing each came to,
    /// and raises the peaks.
    pub fn commit_staged_eos_padding(
        &mut self,
        paddings: &Vec<StagedAudioPadding>,
        pushed: &Vec<Result<NativeAudioCharge, OutsideFailure>>,
        retained: NativeAudioCharge,
    ) -> (committed: Result<(), NativeMasterError>)
        requires
            old(self).wf(),
            pushed@.len() == paddings@.len(),
        ensures
            final(self).wf(),
            ({
                let (after, outcome) = padded_lane(old(self)@, paddings_of(paddings@), pushed@, 0);
                &&& committed == outcome
                &&& final(self)@ == (if outcome is Ok {
                    after.with_telemetry(after.audio_telemetry.with_retained(retained))
                } else {
                    after
                })
            }),
    {
        let mut i: usize = 0;
        let ghost whole = padded_lane(self@, paddings_of(paddings@), pushed@, 0);
        while i < paddings.len()
            invariant
                self.wf(),
                i <= paddings@.len(),
                pushed@.len() == paddings@.len(),
                whole == padded_lane(old(self)@, paddings_of(paddings@), pushed@, 0),
                whole == padded_lane(self@, paddings_of(paddings@), pushed@, i as int),
            decreases paddings@.len() - i,
        {
            let ghost before = self@;
            let padding: &StagedAudioPadding = &paddings[i];
            assert(paddings_of(paddings@)[i as int] == padding@);
            let input: InputId = padding.input;
            let slot: usize = match self.sources.position(input) {
                None => {
                    return Err(NativeMasterError::DecodeContract { input });
                },
                Some(slot) => slot,
            };
            let mut source: NativeAudioSource = self.sources.entries[slot].1;
            proof {
                audio_master::lemma_with_source(before, input, before.source(input)->Some_0);
            }
            match commit_audio_page(&mut source, padding.page, pushed[i]) {
                Err(error) => {
                    return Err(error);
                },
                Ok(()) => {},
            }
            proof {
                audio_master::lemma_with_source(before, input, source);
            }
            self.sources.entries.set(slot, (input, source));
            self.audio_telemetry.eos_padding_blocks = self.audio_telemetry.eos_padding_blocks.saturating_add(
            padding.page.charge.blocks as u64);
            self.audio_telemetry.eos_padding_samples = self.audio_telemetry.eos_padding_samples.saturating_add(
            padding.page.charge.samples as u64);
            assert(self@ =~= before.with_source(input, source).with_telemetry(
                padded_telemetry(before.audio_telemetry, padding.page.charge),
            ));
            i = i + 1;
        }
        self.observe_retained(retained);
        Ok(())
    }

    /// Finds what is asked of the decoder of an input.
    pub fn plan_refill(
        &self,
        input: InputId,
        requested_end: u64,
        retained: NativeAudioCharge,
        reserved: NativeAudioCharge,
        urgent: bool,
    ) -> (planned: Result<
        Option<(NativeAudioDecodeRequest, NativeAudioReservation)>,
        NativeMasterError,
    >)
        requires
            self.wf(),
        ensures
            match refill_of(self@, input, requested_end, retained, reserved, urgent) {
                Err(error) => planned == Err::<
                    Option<(NativeAudioDecodeRequest, NativeAudioReservation)>,
                    NativeMasterError,
                >(error),
                Ok(None) => planned == Ok::<
                    Option<(NativeAudioDecodeRequest, NativeAudioReservation)>,
                    NativeMasterError,
                >(None),
                Ok(Some(reservation)) => planned == Ok::<
                    Option<(NativeAudioDecodeRequest, NativeAudioReservation)>,
                    NativeMasterError,
                >(Some((request_of(self@, input, reservation), reservation))),
            },
    {
        let source: NativeAudioSource = match self.sources.position(input) {
            None => {
                return Err(NativeMasterError::DecodeContract { input });
            },
            Some(slot) => self.sources.entries[slot].1,
        };
        if source.explicit_silence {
            return Ok(None);
        }
        let synchronizer: Synchronizer = match source.synchronizer {
            None => {
                return Err(NativeMasterError::InvalidFormat);
            },
            Some(synchronizer) => synchronizer,
        };
        if source.end_of_stream || source.in_flight.is_some() || (!urgent && requested_end
            <= source.audio_start_master_sample) || (!urgent && synchronizer.buffered.blocks
            > AUDIO_REFILL_LOW_WATERMARK) {
            return Ok(None);
        }
        let available: usize = (self.limits.max_blocks_per_source as usize).saturating_sub(
            synchronizer.buffered.blocks,
        );
        let count: u32 = if available < self.limits.max_blocks_per_page as usize {
            available as u32
        } else {
            self.limits.max_blocks_per_page
        };
        if count == 0 {
            return if urgent {
                Err(NativeMasterError::BoundsExceeded)
            } else {
                Ok(None)
            };
        }
        let samples: usize = match proportional_page_samples(count, self.limits) {
            Err(error) => {
                return Err(error);
            },
            Ok(samples) => samples,
        };
        let bytes: usize = match audio_sample_bytes(samples, synchronizer.layout.channels) {
            Err(error) => {
                return Err(error);
            },
            Ok(bytes) => bytes,
        };
        let charge: NativeAudioCharge = NativeAudioCharge { blocks: count as usize, samples, bytes };
        let fits_lane: bool = match retained.checked_add(reserved) {
            None => false,
            Some(allocated) => match allocated.checked_add(charge) {
                None => false,
                Some(total) => match validate_retained_bounds(total, self.limits) {
                    Err(_) => false,
                    Ok(()) => true,
                },
            },
        };
        let fits_samples: bool = match synchronizer.buffered.samples.checked_add(charge.samples) {
            None => false,
            Some(total) => total <= synchronizer.max_samples,
        };
        let fits_bytes: bool = match synchronizer.buffered.bytes.checked_add(charge.bytes) {
            None => false,
            Some(total) => total <= synchronizer.max_bytes,
        };
        if !fits_lane || !fits_samples || !fits_bytes {
            return if urgent {
                Err(NativeMasterError::BoundsExceeded)
            } else {
                Ok(None)
            };
        }
        let reservation: NativeAudioReservation = NativeAudioReservation {
            count,
            charge,
            generation: source.decode_generation,
        };
        Ok(
            Some(
                (
                    NativeAudioDecodeRequest {
                        input,
                        count,
                        max_samples: charge.samples,
                        max_bytes: charge.bytes,
                        generation: source.decode_generation,
                        restart: source.restart_decode,
                        restart_target_ordinal: source.restart_target_ordinal,
                        max_position_blocks: self.limits.max_position_blocks,
                    },
                    reservation,
                ),
            ),
        )
    }

    /// Lists the inputs in the order in which their decoders are asked.
    pub fn prepare_refill_order(&self, uncovered: &Vec<InputId>) -> (order: Vec<InputId>)
        ensures
            order@ == refill_order(self@, uncovered@),
    {
        let mut order: Vec<InputId> = Vec::new();
        let mut i: usize = 0;
        while i < uncovered.len()
            invariant
                i <= uncovered@.len(),
                order@ == uncovered@.take(i as int),
            decreases uncovered@.len() - i,
        {
            order.push(uncovered[i]);
            assert(uncovered@.take(i + 1) =~= uncovered@.take(i as int).push(uncovered@[i as int]));
            i = i + 1;
        }
        assert(uncovered@.take(i as int) =~= uncovered@);
        let ghost keys = self@.inputs();
        let mut k: usize = 0;
        assert(keys.take(0) =~= Seq::<InputId>::empty());
        assert(order@ =~= uncovered@ + covered_keys(keys.take(0), uncovered@));
        while k < self.sources.entries.len()
            invariant
                k <= self@.sources.len(),
                keys == self@.inputs(),
                order@ == uncovered@ + covered_keys(keys.take(k as int), uncovered@),
            decreases self@.sources.len() - k,
        {
            assert(keys.take(k + 1).drop_last() =~= keys.take(k as int));
            assert(keys.take(k + 1).last() == self@.sources[k as int].0);
            let input: InputId = self.sources.entries[k].0;
            if !ordered::lists_key(uncovered, input) {
                let ghost before = order@;
                order.push(input);
                assert(order@ =~= uncovered@ + covered_keys(keys.take(k as int), uncovered@).push(
                    input,
                ));
            }
            k = k + 1;
        }
        assert(keys.take(k as int) =~= keys);
        order
    }

    /// Counts what is asked for.
    pub fn reserved_charge(&self) -> (charge: Option<NativeAudioCharge>)
        ensures
            charge == reserved_by(self@.sources),
    {
        let ghost sources = self@.sources;
        let mut total: NativeAudioCharge = NativeAudioCharge { blocks: 0, samples: 0, bytes: 0 };
        let mut i: usize = 0;
        assert(sources.take(0) =~= Seq::<(InputId, NativeAudioSource)>::empty());
        while i < self.sources.entries.len()
            invariant
                i <= sources.len(),
                sources == self.sources.entries@,
                reserved_by(sources.take(i as int)) == Some(total),
            decreases sources.len() - i,
        {
            assert(sources.take(i + 1).drop_last() =~= sources.take(i as int));
            assert(sources.take(i + 1).last() == sources[i as int]);
            match self.sources.entries[i].1.in_flight {
                None => {},
                Some(reservation) => match total.checked_add(reservation.charge) {
                    None => {
                        proof {
                            lemma_uncounted(sources, i + 1);
                        }
                        return None;
                    },
                    Some(next) => {
                        total = next;
                    },
                },
            }
            i = i + 1;
        }
        assert(sources.take(i as int) =~= sources);
        Some(total)
    }

    /// Asks decoders for more, first those that a frame waits for. The requests come back
    /// also where a later one fails: those before it have been made.
    pub fn schedule_refills(&mut self, requested_end: u64, uncovered: &Vec<InputId>) -> (asked: (
        Vec<NativeAudioDecodeRequest>,
        Result<(), NativeMasterError>,
    ))
        requires
            old(self).wf(),
        ensures
            final(self).wf(),
            (final(self)@, asked.0@, asked.1) == scheduled(
                old(self)@,
                requested_end,
                uncovered@,
            ),
    {
        let mut requests: Vec<NativeAudioDecodeRequest> = Vec::new();
        assert(requests@ =~= Seq::<NativeAudioDecodeRequest>::empty());
        let mut reserved: NativeAudioCharge = match self.reserved_charge() {
            None => {
                return (requests, Err(NativeMasterError::BoundsExceeded));
            },
            Some(reserved) => reserved,
        };
        let retained: NativeAudioCharge = self.retained_charge();
        let order: Vec<InputId> = self.prepare_refill_order(uncovered);
        let ghost whole = scheduled(self@, requested_end, uncovered@);
        let mut i: usize = 0;
        while i < order.len()
            invariant
                self.wf(),
                i <= order@.len(),
                whole == scheduled(old(self)@, requested_end, uncovered@),
                whole == refilled(
                    self@,
                    requested_end,
                    retained,
                    reserved,
                    uncovered@,
                    order@,
                    i as int,
                    requests@,
                ),
            decreases order@.len() - i,
        {
            let ghost before = self@;
            let input: InputId = order[i];
            let urgent: bool = ordered::lists_key(uncovered, input);
            match self.plan_refill(input, requested_end, retained, reserved, urgent) {
                Err(error) => {
                    return (requests, Err(error));
                },
                Ok(None) => {},
                Ok(Some((request, reservation))) => {
                    let slot: usize = match self.sources.position(input) {
                        None => {
                            return (requests, Err(NativeMasterError::DecodeContract { input }));
                        },
                        Some(slot) => slot,
                    };
                    let source: NativeAudioSource = NativeAudioSource {
                        in_flight: Some(reservation),
                        restart_decode: false,
                        ..self.sources.entries[slot].1
                    };
                    reserved = match reserved.checked_add(reservation.charge) {
                        None => {
                            return (requests, Err(NativeMasterError::BoundsExceeded));
                        },
                        Some(total) => total,
                    };
                    proof {
                        audio_master::lemma_with_source(before, input, before.source(input)->Some_0);
                        audio_master::lemma_with_source(before, input, source);
                    }
                    self.sources.entries.set(slot, (input, source));
                    self.audio_telemetry.record_reservation(reservation.charge);
                    assert(self@ =~= with_request(before, input, reservation));
                    requests.push(request);
                },
            }
            i = i + 1;
        }
        (requests, Ok(()))
    }

    /// Ends the service of a frame: counts the sources that it waits for, asks decoders for
    /// more, and marks the frame as ready where it waits for none.
    pub fn finish_service(&mut self, start_sample: u64, end_sample: u64, uncovered: &Vec<InputId>) -> (finished: (
        Vec<NativeAudioDecodeRequest>,
        Result<bool, NativeMasterError>,
    ))
        requires
            old(self).wf(),
            start_sample <= end_sample,
        ensures
            final(self).wf(),
            (final(self)@, finished.0@, finished.1) == serviced(
                old(self)@,
                start_sample,
                end_sample,
                uncovered@,
            ),
    {
        self.audio_telemetry.source_stalls = self.audio_telemetry.source_stalls.saturating_add(
            uncovered.len() as u64,
        );
        let (requests, asked): (Vec<NativeAudioDecodeRequest>, Result<(), NativeMasterError>) = self.schedule_refills(
        end_sample, uncovered);
        match asked {
            Err(error) => {
                return (requests, Err(error));
            },
            Ok(()) => {},
        }
        let covered: bool = uncovered.len() == 0;
        proof {
            lemma_scheduling_keeps_cursor(
                old(self)@.with_telemetry(
                    NativeAudioTelemetry {
                        source_stalls: audio_limits::capped_u64(
                            old(self)@.audio_telemetry.source_stalls,
                            uncovered@.len() as int,
                        ),
                        ..old(self)@.audio_telemetry
                    },
                ),
                end_sample,
                uncovered@,
            );
        }
        self.ready_frame = if covered {
            Some(
                ReadyFrame { frame: self.expected_next_frame, start_sample, end_sample },
            )
        } else {
            None
        };
        (requests, Ok(covered))
    }
}

proof fn lemma_refilling_keeps_cursor(
    lane: LaneModel,
    requested_end: u64,
    retained: NativeAudioCharge,
    reserved: NativeAudioCharge,
    uncovered: Seq<InputId>,
    order: Seq<InputId>,
    i: int,
    requests: Seq<NativeAudioDecodeRequest>,
)
    ensures
        refilled(
            lane,
            requested_end,
            retained,
            reserved,
            uncovered,
            order,
            i,
            requests,
        ).0.expected_next_frame == lane.expected_next_frame,
        refilled(
            lane,
            requested_end,
            retained,
            reserved,
            uncovered,
            order,
            i,
            requests,
        ).0.ready_frame == lane.ready_frame,
    decreases order.len() - i,
{
    if i < order.len() {
        match refill_of(
            lane,
            order[i],
            requested_end,
            retained,
            reserved,
            uncovered.contains(order[i]),
        ) {
            Err(_) => {},
            Ok(None) => {
                lemma_refilling_keeps_cursor(
                    lane,
                    requested_end,
                    retained,
                    reserved,
                    uncovered,
                    order,
                    i + 1,
                    requests,
                );
            },
            Ok(Some(reservation)) => {
                lemma_refilling_keeps_cursor(
                    with_request(lane, order[i], reservation),
                    requested_end,
                    retained,
                    reserved.plus(reservation.charge)->Some_0,
                    uncovered,
                    order,
                    i + 1,
                    requests.push(request_of(lane, order[i], reservation)),
                );
            },
        }
    }
}

proof fn lemma_scheduling_keeps_cursor(lane: LaneModel, requested_end: u64, uncovered: Seq<InputId>)
    ensures
        scheduled(lane, requested_end, uncovered).0.expected_next_frame
            == lane.expected_next_frame,
        scheduled(lane, requested_end, uncovered).0.ready_frame == lane.ready_frame,
{
    match reserved_by(lane.sources) {
        None => {},
        Some(reserved) => {
            lemma_refilling_keeps_cursor(
                lane,
                requested_end,
                audio_master::held_by(lane.sources),
                reserved,
                uncovered,
                refill_order(lane, uncovered),
                0,
                Seq::empty(),
            );
        },
    }
}

/// Ending a service keeps the cursor, and readies no frame but where nothing is uncovered.
pub proof fn lemma_servicing_keeps_cursor(
    lane: LaneModel,
    start: u64,
    end: u64,
    uncovered: Seq<InputId>,
)
    ensures
        ({
            let (after, _, covered) = serviced(lane, start, end, uncovered);
            &&& after.expected_next_frame == lane.expected_next_frame
            &&& covered is Err ==> after.ready_frame == lane.ready_frame
        }),
{
    lemma_scheduling_keeps_cursor(
        lane.with_telemetry(
            NativeAudioTelemetry {
                source_stalls: audio_limits::capped_u64(
                    lane.audio_telemetry.source_stalls,
                    uncovered.len() as int,
                ),
                ..lane.audio_telemetry
            },
        ),
        end,
        uncovered,
    );
}

} // verus!
