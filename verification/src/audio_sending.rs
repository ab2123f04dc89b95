//! Taking back the requests that could not be handed to the decoders of a lane.
use vstd::prelude::*;

use crate::audio_cycle;
use crate::audio_cycle::ServiceModel;
use crate::audio_limits;
use crate::audio_limits::{NativeAudioCharge, NativeAudioTelemetry};
use crate::audio_master;
use crate::audio_master::{LaneModel, NativeMasterLane, ReadyFrame};
use crate::audio_service;
use crate::audio_service::NativeAudioDecodeRequest;
use crate::audio_source::NativeAudioSource;
use crate::model::InputId;

verus! {

/// What a lane counts and has ready before it asks its decoders for more.
#[derive(Clone, Copy, Debug)]
pub struct BeforeAsking {
    pub audio_telemetry: NativeAudioTelemetry,
    pub ready_frame: Option<ReadyFrame>,
}

impl BeforeAsking {
    /// Whether the frame that is ready does not end before it starts.
    pub open spec fn wf(self) -> bool {
        self.ready_frame matches Some(ready) ==> ready.start_sample <= ready.end_sample
    }
}

/// The lane once the sources that its next frame waits for have been counted.
pub open spec fn stalls_counted(lane: LaneModel, uncovered: Seq<InputId>) -> LaneModel {
    lane.with_telemetry(
        NativeAudioTelemetry {
            source_stalls: audio_limits::capped_u64(
                lane.audio_telemetry.source_stalls,
                uncovered.len() as int,
            ),
            ..lane.audio_telemetry
        },
    )
}

/// What a lane counts and has ready before it asks its decoders for more.
pub open spec fn before_asking(lane: LaneModel, uncovered: Seq<InputId>) -> BeforeAsking {
    BeforeAsking {
        audio_telemetry: stalls_counted(lane, uncovered).audio_telemetry,
        ready_frame: lane.ready_frame,
    }
}

/// The lane with a request taken back: its source waits for nothing, and still has to restart
/// its decoder where the request would have.
pub open spec fn taken_back(lane: LaneModel, request: NativeAudioDecodeRequest) -> LaneModel {
    match lane.source(request.input) {
        None => lane,
        Some(source) => lane.with_source(
            request.input,
            NativeAudioSource { in_flight: None, restart_decode: request.restart, ..source },
        ),
    }
}

/// The lane with all requests taken back but the first `sent`, the last first.
pub open spec fn unsent_taken_back(
    lane: LaneModel,
    requests: Seq<NativeAudioDecodeRequest>,
    sent: int,
) -> LaneModel
    decreases requests.len(),
{
    if requests.len() == 0 || requests.len() <= sent {
        lane
    } else {
        unsent_taken_back(taken_back(lane, requests.last()), requests.drop_last(), sent)
    }
}

/// The counts once room has been promised to requests, in order.
pub open spec fn promises_counted(
    telemetry: NativeAudioTelemetry,
    requests: Seq<NativeAudioDecodeRequest>,
) -> NativeAudioTelemetry
    decreases requests.len(),
{
    if requests.len() == 0 {
        telemetry
    } else {
        promises_counted(telemetry, requests.drop_last()).with_reservation(
            requests.last().reserved().charge,
        )
    }
}

/// The failed lane of which only the first `sent` requests reached the decoders.
pub open spec fn sent_in_part(
    lane: LaneModel,
    requests: Seq<NativeAudioDecodeRequest>,
    sent: int,
    before: BeforeAsking,
) -> LaneModel {
    LaneModel {
        audio_telemetry: promises_counted(before.audio_telemetry, requests.take(sent)),
        ready_frame: before.ready_frame,
        failed: true,
        ..unsent_taken_back(lane, requests, sent)
    }
}

/// The lane that has made requests, in order.
pub open spec fn asking(lane: LaneModel, requests: Seq<NativeAudioDecodeRequest>) -> LaneModel
    decreases requests.len(),
{
    if requests.len() == 0 {
        lane
    } else {
        audio_service::with_request(
            asking(lane, requests.drop_last()),
            requests.last().input,
            requests.last().reserved(),
        )
    }
}

/// Whether each request goes to a source that waits for nothing, and restarts its decoder
/// where the source has to.
spec fn askable(lane: LaneModel, requests: Seq<NativeAudioDecodeRequest>) -> bool
    decreases requests.len(),
{
    requests.len() == 0 || {
        &&& askable(lane, requests.drop_last())
        &&& asking(lane, requests.drop_last()).source(requests.last().input) matches Some(source)
            && source.in_flight is None && source.restart_decode == requests.last().restart
    }
}

proof fn lemma_asking(lane: LaneModel, requests: Seq<NativeAudioDecodeRequest>)
    requires
        lane.wf(),
        askable(lane, requests),
    ensures
        asking(lane, requests).wf(),
        asking(lane, requests) == (LaneModel {
            sources: asking(lane, requests).sources,
            audio_telemetry: promises_counted(lane.audio_telemetry, requests),
            ..lane
        }),
        requests.len() > 0 ==> taken_back(asking(lane, requests), requests.last()).sources
            == asking(lane, requests.drop_last()).sources,
    decreases requests.len(),
{
    if requests.len() > 0 {
        let before = asking(lane, requests.drop_last());
        let request = requests.last();
        lemma_asking(lane, requests.drop_last());
        let source = before.source(request.input)->Some_0;
        audio_master::lemma_with_source(before, request.input, NativeAudioSource::silent());
        let asked = NativeAudioSource {
            in_flight: Some(request.reserved()),
            restart_decode: false,
            ..source
        };
        audio_master::lemma_with_source(before, request.input, asked);
        let after = asking(lane, requests);
        let with_asked = before.with_source(request.input, asked);
        assert(after.sources == with_asked.sources);
        assert(after.inputs() == with_asked.inputs());
        assert(after.source(request.input) == with_asked.source(request.input));
        assert(NativeAudioSource { in_flight: None, restart_decode: request.restart, ..asked }
            == source);
        assert(taken_back(after, request).sources =~= before.sources);
    }
}

proof fn lemma_taking_back(
    lane: LaneModel,
    other: LaneModel,
    requests: Seq<NativeAudioDecodeRequest>,
    sent: int,
)
    requires
        lane.sources == other.sources,
    ensures
        unsent_taken_back(lane, requests, sent).sources == unsent_taken_back(
            other,
            requests,
            sent,
        ).sources,
        unsent_taken_back(lane, requests, sent) == (LaneModel {
            sources: unsent_taken_back(lane, requests, sent).sources,
            ..lane
        }),
    decreases requests.len(),
{
    if requests.len() > 0 && requests.len() > sent {
        lemma_taking_back(
            taken_back(lane, requests.last()),
            taken_back(other, requests.last()),
            requests.drop_last(),
            sent,
        );
    }
}

proof fn lemma_unsent(lane: LaneModel, requests: Seq<NativeAudioDecodeRequest>, sent: int)
    requires
        lane.wf(),
        askable(lane, requests),
        0 <= sent <= requests.len(),
    ensures
        unsent_taken_back(asking(lane, requests), requests, sent).sources == asking(
            lane,
            requests.take(sent),
        ).sources,
        askable(lane, requests.take(sent)),
    decreases requests.len(),
{
    if sent == requests.len() {
        assert(requests.take(sent) =~= requests);
    } else {
        lemma_asking(lane, requests);
        lemma_unsent(lane, requests.drop_last(), sent);
        assert(requests.drop_last().take(sent) =~= requests.take(sent));
        lemma_taking_back(
            taken_back(asking(lane, requests), requests.last()),
            asking(lane, requests.drop_last()),
            requests.drop_last(),
            sent,
        );
    }
}

proof fn lemma_refilling_asks(
    first: LaneModel,
    lane: LaneModel,
    requested_end: u64,
    retained: NativeAudioCharge,
    reserved: NativeAudioCharge,
    uncovered: Seq<InputId>,
    order: Seq<InputId>,
    i: int,
    requests: Seq<NativeAudioDecodeRequest>,
)
    requires
        first.wf(),
        askable(first, requests),
        lane == asking(first, requests),
    ensures
        ({
            let (after, asked, _) = audio_service::refilled(
                lane,
                requested_end,
                retained,
                reserved,
                uncovered,
                order,
                i,
                requests,
            );
            askable(first, asked) && after == asking(first, asked)
        }),
    decreases order.len() - i,
{
    if i < order.len() {
        lemma_asking(first, requests);
        let urgent = uncovered.contains(order[i]);
        audio_service::answers_name_their_request(
            lane,
            order[i],
            requested_end,
            retained,
            reserved,
            urgent,
        );
        match audio_service::refill_of(lane, order[i], requested_end, retained, reserved, urgent) {
            Err(_) => {},
            Ok(None) => {
                lemma_refilling_asks(
                    first,
                    lane,
                    requested_end,
                    retained,
                    reserved,
                    uncovered,
                    order,
                    i + 1,
                    requests,
                );
            },
            Ok(Some(reservation)) => {
                let request = audio_service::request_of(lane, order[i], reservation);
                let next = requests.push(request);
                assert(next.drop_last() =~= requests);
                assert(next.last() == request);
                lemma_refilling_asks(
                    first,
                    audio_service::with_request(lane, order[i], reservation),
                    requested_end,
                    retained,
                    reserved.plus(reservation.charge)->Some_0,
                    uncovered,
                    order,
                    i + 1,
                    next,
                );
            },
        }
    }
}

/// Where only the first requests of a service reach the decoders, taking back the others leaves
/// the lane as if these alone had been made: no other source waits for an answer, no other room
/// is promised or was ever counted, a decoder that has to restart still has to, and the frame
/// that was ready before still is. The lane has failed.
pub proof fn only_what_was_sent_is_asked(
    lane: LaneModel,
    start: u64,
    end: u64,
    uncovered: Seq<InputId>,
    sent: int,
)
    requires
        lane.wf(),
        0 <= sent <= audio_service::serviced(lane, start, end, uncovered).1.len(),
    ensures
        ({
            let (after, over) = audio_cycle::service_over(lane, start, end, uncovered);
            over matches Ok(ServiceModel::Over { requests, before, .. }) && sent_in_part(
                after,
                requests,
                sent,
                before,
            ) == (LaneModel {
                failed: true,
                ..asking(stalls_counted(lane, uncovered), requests.take(sent))
            })
        }),
{
    let counted = stalls_counted(lane, uncovered);
    let (after, requests, _) = audio_service::serviced(lane, start, end, uncovered);
    match audio_service::reserved_by(counted.sources) {
        None => {},
        Some(reserved) => {
            lemma_refilling_asks(
                counted,
                counted,
                end,
                audio_master::held_by(counted.sources),
                reserved,
                uncovered,
                audio_service::refill_order(counted, uncovered),
                0,
                Seq::empty(),
            );
        },
    }
    assert(askable(counted, requests));
    assert(after.sources == asking(counted, requests).sources);
    lemma_asking(counted, requests);
    lemma_unsent(counted, requests, sent);
    lemma_asking(counted, requests.take(sent));
    lemma_taking_back(after, asking(counted, requests), requests, sent);
    lemma_taking_back(audio_cycle::failed(after), after, requests, sent);
}

impl NativeMasterLane {
    /// Takes back all requests of a service but the first `sent`, which alone reached the
    /// decoders, and fails the lane for good.
    pub fn take_back(
        &mut self,
        requests: &Vec<NativeAudioDecodeRequest>,
        sent: usize,
        before: BeforeAsking,
    )
        requires
            old(self).wf(),
            sent <= requests@.len(),
            before.wf(),
        ensures
            final(self).wf(),
            final(self)@ == sent_in_part(old(self)@, requests@, sent as int, before),
    {
        let ghost start = self@;
        let mut left: usize = requests.len();
        assert(requests@.take(left as int) =~= requests@);
        while left > sent
            invariant
                self.wf(),
                sent <= left <= requests@.len(),
                unsent_taken_back(start, requests@, sent as int) == unsent_taken_back(
                    self@,
                    requests@.take(left as int),
                    sent as int,
                ),
            decreases left,
        {
            assert(requests@.take(left as int).last() == requests@[left - 1]);
            assert(requests@.take(left as int).drop_last() =~= requests@.take(left - 1));
            left = left - 1;
            self.take_back_one(&requests[left]);
        }
        let mut telemetry: NativeAudioTelemetry = before.audio_telemetry;
        let mut counted: usize = 0;
        assert(requests@.take(0) =~= Seq::<NativeAudioDecodeRequest>::empty());
        while counted < sent
            invariant
                counted <= sent <= requests@.len(),
                telemetry == promises_counted(
                    before.audio_telemetry,
                    requests@.take(counted as int),
                ),
            decreases sent - counted,
        {
            assert(requests@.take(counted + 1).drop_last() =~= requests@.take(counted as int));
            assert(requests@.take(counted + 1).last() == requests@[counted as int]);
            let request: NativeAudioDecodeRequest = requests[counted];
            telemetry.record_reservation(
                NativeAudioCharge {
                    blocks: request.count as usize,
                    samples: request.max_samples,
                    bytes: request.max_bytes,
                },
            );
            counted = counted + 1;
        }
        self.audio_telemetry = telemetry;
        self.ready_frame = before.ready_frame;
        self.failed = true;
    }

    /// Takes back a request that did not reach its decoder.
    fn take_back_one(&mut self, request: &NativeAudioDecodeRequest)
        requires
            old(self).wf(),
        ensures
            final(self).wf(),
            final(self)@ == taken_back(old(self)@, *request),
    {
        let ghost before = self@;
        if let Some(slot) = self.sources.position(request.input) {
            let source: NativeAudioSource = NativeAudioSource {
                in_flight: None,
                restart_decode: request.restart,
                ..self.sources.entries[slot].1
            };
            proof {
                audio_master::lemma_with_source(
                    before,
                    request.input,
                    before.source(request.input)->Some_0,
                );
                audio_master::lemma_with_source(before, request.input, source);
            }
            self.sources.entries.set(slot, (request.input, source));
            assert(self@ =~= taken_back(before, *request));
        }
    }
}

} // verus!
