//! What clients are sent and what becomes of what they say.
use vstd::prelude::*;

use crate::session_flow;
use crate::session_flow::{
    LiveStep, MessageKind, ReadEvent, WebPoll,
};
use crate::session_pass;
use crate::session_pass::{AskPoint, PassEvent, PassSetting, PassStage, RunEnd};
use crate::session_peer::{
    Accounting, MessageModel, OutboundModel, Peer, PeerModel, Phase, INBOUND_CAPACITY,
};
use crate::session_record::{LatestModel, WriteEvent, WriteOutcome};
use crate::session_write;
use crate::session_write::{
    AcknowledgementPoll, LossySlot, ShutdownPlan, ShutdownQueue, WriteChoice,
};

verus! {

/// Whether two clients are alike but for what waits to be answered.
pub open spec fn differs_in_inbound<M>(a: PeerModel<M>, b: PeerModel<M>) -> bool {
    a == (PeerModel { inbound: a.inbound, ..b })
}

/// Whether two clients are alike but for the line to them.
pub open spec fn differs_in_line<M>(a: PeerModel<M>, b: PeerModel<M>) -> bool {
    a == (PeerModel { outbound: a.outbound, ..b })
}

/// Messages of a client are answered in the order in which they came, each once, and only while
/// the client is awaited or active.
pub proof fn messages_are_answered_in_order<M>(peer: PeerModel<M>)
    ensures
        ({
            let (after, message) = peer.next_message();
            &&& differs_in_inbound(after, peer)
            &&& match message {
                Some(message) => peer.inbound == seq![message] + after.inbound && (peer.phase
                    is AwaitHandshake || peer.phase is Active),
                None => after.inbound == peer.inbound && (peer.inbound.len() == 0 || peer.phase
                    is Syncing || peer.phase is Closing),
            }
        }),
{
    let (after, message) = peer.next_message();
    if let Some(message) = message {
        assert(peer.inbound =~= seq![message] + after.inbound);
    }
}

/// What a client says is kept behind what it said before. A client that says more than there is
/// room for is closed, with nothing kept, and so is one whose wire ends, fails or makes no sense;
/// no other is.
pub proof fn messages_are_kept_in_order<M>(peer: PeerModel<M>, event: ReadEvent<M>)
    ensures
        ({
            let (after, close) = peer.read(event);
            &&& differs_in_inbound(after, peer)
            &&& event matches ReadEvent::Decoded(messages) ==> {
                &&& close <==> peer.inbound.len() + messages@.len() > 8
                &&& !close ==> after.inbound == peer.inbound + messages@
            }
            &&& close ==> after == peer
            &&& event is Ended || event is Malformed || event is Failed ==> close
            &&& event is Pending ==> !close && after == peer
        }),
{
}

/// What a browser says is kept behind what it said before, as long as there is room.
pub proof fn messages_of_browsers_are_kept<M>(peer: PeerModel<M>, poll: WebPoll<M>)
    requires
        peer.inbound.len() < INBOUND_CAPACITY,
    ensures
        ({
            let (after, step) = peer.read_web(poll);
            &&& differs_in_inbound(after, peer)
            &&& poll matches WebPoll::Message(message) ==> {
                &&& after.inbound == peer.inbound + seq![message]
                &&& step is Again <==> after.inbound.len() < 8
                &&& step !is Close
            }
            &&& poll is Empty ==> after == peer && step is Stop
            &&& poll is Disconnected ==> after == peer && step is Close
        }),
{
    let (after, step) = peer.read_web(poll);
    if let WebPoll::Message(message) = poll {
        assert(after.inbound =~= peer.inbound + seq![message]);
    }
}

/// Whether a record stands at the end of the line to a client, whole and not yet sent.
pub open spec fn stands_last<M>(
    before: PeerModel<M>,
    after: PeerModel<M>,
    message: MessageModel,
    accounting: Accounting,
) -> bool {
    &&& after.outbound.len() == before.outbound.len() + 1
    &&& forall|i: int|
        0 <= i < before.outbound.len() ==> #[trigger] after.outbound[i] == before.outbound[i]
    &&& {
        let record = after.outbound[before.outbound.len() as int];
        &&& record.write.bytes == message.bytes
        &&& record.write.written == 0
        &&& !record.channel_sent
        &&& record.accounting == accounting
        &&& record.accounted == !before.web
        &&& record.handshake_response == (message.kind is HandshakeResponse)
        &&& record.command_result == (message.kind is CommandResult)
    }
}

/// A message for a client goes to the end of the line where the line has room and, for one that
/// counts, the session of a client that is no browser takes it; else nothing changes.
pub proof fn messages_join_the_line<M>(
    peer: PeerModel<M>,
    message: Option<MessageModel>,
    accounting: Accounting,
    admitted: bool,
)
    ensures
        ({
            let (after, result) = peer.queued(message, accounting, admitted);
            &&& differs_in_line(after, peer)
            &&& result is Ok <==> {
                &&& message is Some
                &&& peer.outbound.len() < 32
                &&& accounting is Raw || peer.web || (peer.session && admitted)
            }
            &&& result is Ok ==> stands_last(peer, after, message->Some_0, accounting)
            &&& result is Err ==> after == peer
        }),
{
}

/// Before its handshake a client can only introduce itself; after it, it can give commands, say
/// that it is there and ask for diagnostics, and nothing else.
pub proof fn clients_introduce_themselves_first(phase: Phase, kind: MessageKind)
    ensures
        ({
            let step = session_flow::dispatched(phase, kind);
            let first = phase is AwaitHandshake;
            &&& step is Handshake <==> first && kind is HandshakeRequest
            &&& step is RequireHandshake <==> first && kind !is HandshakeRequest
            &&& step is Execute <==> !first && kind is Command
            &&& step is RecordHeartbeat <==> !first && kind is Heartbeat
            &&& step is AdmitDiagnostics <==> !first && kind is DiagnosticsRequest
            &&& step is RejectUnexpected <==> !first && (kind is HandshakeRequest || kind is Other)
        }),
{
}

/// A request for diagnostics that its session admits is answered by them, one that it does not
/// admit by why, under its own number; where there is no answer its client has to stop.
pub proof fn diagnostics_are_answered<I, E>(
    request_id: I,
    current_revision: u64,
    admitted: Option<Result<(), E>>,
    reported: bool,
)
    ensures
        ({
            let answer = session_flow::diagnosed(
                request_id,
                current_revision,
                admitted,
                reported,
            );
            &&& (answer matches Ok(session_flow::DiagnosticsAnswer::Report)) <==> admitted is Some
                && admitted->Some_0 is Ok && reported
            &&& admitted matches Some(Err(error)) ==> (answer matches Ok(
                session_flow::DiagnosticsAnswer::Refused {
                    request_id: id,
                    current_revision: revision,
                    error: why,
                },
            ) && id == request_id && revision == current_revision && why == error)
            &&& answer is Err <==> admitted is None || (admitted->Some_0 is Ok && !reported)
            &&& answer matches Err(error) ==> error is Peer
        }),
{
}

/// A client that is welcomed has its session and its subscription, is sent what comes first, and
/// then its answer, which it has to know of; only a studio that is no browser is given meters and
/// the state of the streams. Where there is more to be sent first than is kept, or the answer
/// finds no place, it is turned away and not subscribed.
pub proof fn welcomed_clients_are_sent_what_comes_first<M>(
    peer: PeerModel<M>,
    sync: Seq<MessageModel>,
    retained_events: usize,
    response: Option<MessageModel>,
    admitted: bool,
    studio: bool,
)
    requires
        peer.wf(),
        peer.phase is AwaitHandshake,
        !peer.subscribed,
    ensures
        ({
            let (after, result) = peer.welcomed(sync, retained_events, response, admitted, studio);
            let most = if retained_events == 0 {
                1
            } else {
                retained_events as int
            };
            &&& result is Ok <==> {
                &&& peer.initial_sync.len() + sync.len() <= most
                &&& response is Some
                &&& peer.outbound.len() < 32
                &&& peer.web || admitted
            }
            &&& result is Ok ==> {
                &&& after.phase is Syncing
                &&& after.session && after.subscribed
                &&& after.initial_sync == peer.initial_sync + sync
                &&& stands_last(peer, after, response->Some_0, Accounting::Session)
                &&& after.audio_meters == (studio && !peer.web)
                &&& after.stream_status == (studio && !peer.web)
                &&& after.inbound == peer.inbound && after.id == peer.id && after.web == peer.web
            }
            &&& result is Err ==> result->Err_0 is Peer && !after.subscribed && after.outbound
                == peer.outbound
        }),
{
}

/// What a client is sent first moves into the line whenever there is room for it, message by
/// message, as long as its session takes it.
pub proof fn the_first_sync_moves_on<M>(peer: PeerModel<M>, admitted: bool)
    requires
        peer.session,
    ensures
        ({
            let (after, moved) = peer.fed(admitted);
            let can = peer.outbound.len() < 32 && peer.initial_sync.len() > 0;
            &&& !can ==> moved == Ok::<bool, ()>(false) && after == peer
            &&& can && (peer.web || admitted) ==> {
                &&& moved == Ok::<bool, ()>(true)
                &&& stands_last(peer, after, peer.initial_sync[0], Accounting::Session)
                &&& peer.initial_sync == seq![peer.initial_sync[0]] + after.initial_sync
            }
            &&& can && !peer.web && !admitted ==> moved is Err
        }),
{
    if peer.initial_sync.len() > 0 {
        assert(peer.initial_sync =~= seq![peer.initial_sync[0]] + peer.initial_sync.drop_first());
    }
}

/// A client that is told something for the last time closes once that has gone out; where it
/// finds no place, nothing changes.
pub proof fn last_words_close_the_client<M>(peer: PeerModel<M>, message: Option<MessageModel>)
    ensures
        ({
            let (after, result) = peer.closing_after(message);
            &&& result is Ok <==> message is Some && peer.outbound.len() < 32
            &&& result is Ok ==> after.phase is Closing && stands_last(
                peer,
                after,
                message->Some_0,
                Accounting::Raw,
            )
            &&& result is Err ==> after == peer
        }),
{
}

/// An event of its subscription goes to the end of the line to a client, as long as it takes any
/// in this pass; a subscription that is gone, or an event that finds no place, closes the client.
pub proof fn events_join_the_line<M>(
    peer: PeerModel<M>,
    message: MessageModel,
    gone: bool,
    budget: usize,
    admitted: bool,
)
    requires
        peer.wf(),
        peer.takes_live(false, budget),
    ensures
        ({
            let (after, step) = peer.live(Some(Some(message)), gone, budget, admitted);
            if peer.web || admitted {
                &&& step matches LiveStep::Again(left) && left == budget - 1
                &&& stands_last(peer, after, message, Accounting::Session)
            } else {
                step is Close && after == peer
            }
        }),
        peer.live(None, true, budget, admitted) == (peer, LiveStep::Close),
        peer.live(None, false, budget, admitted) == (peer, LiveStep::Stop),
        peer.live(Some(None), gone, budget, admitted) == (peer, LiveStep::Close),
        peer.phase is Active && budget > 0 && peer.outbound.len() < 32,
{
}

/// Events are given to a client exactly while it is active and not closing, its line has room, and
/// it has not had all of this pass.
pub proof fn active_clients_take_events<M>(peer: PeerModel<M>, closing: bool, budget: usize)
    ensures
        peer.takes_live(closing, budget) <==> {
            &&& peer.phase is Active
            &&& !closing
            &&& budget > 0
            &&& peer.outbound.len() < 32
        },
{
}

/// The bytes that are still to go out to a client that is no browser, in their order.
pub open spec fn bytes_to_go(line: Seq<OutboundModel>) -> Seq<u8>
    decreases line.len(),
{
    if line.len() == 0 {
        Seq::empty()
    } else {
        bytes_to_go(line.drop_last()) + line.last().write.bytes.subrange(
            line.last().write.written,
            line.last().write.bytes.len() as int,
        )
    }
}

proof fn lemma_bytes_to_go(line: Seq<OutboundModel>)
    requires
        line.len() > 0,
    ensures
        bytes_to_go(line) == line[0].write.bytes.subrange(
            line[0].write.written,
            line[0].write.bytes.len() as int,
        ) + bytes_to_go(line.drop_first()),
    decreases line.len(),
{
    if line.len() == 1 {
        assert(line.drop_last() =~= Seq::<OutboundModel>::empty());
        assert(line.drop_first() =~= Seq::<OutboundModel>::empty());
        assert(bytes_to_go(line) =~= line[0].write.bytes.subrange(
            line[0].write.written,
            line[0].write.bytes.len() as int,
        ) + bytes_to_go(line.drop_first()));
    } else {
        lemma_bytes_to_go(line.drop_last());
        assert(line.drop_last().drop_first() =~= line.drop_first().drop_last());
        assert(line.drop_first().last() == line.last());
        assert(bytes_to_go(line) =~= line[0].write.bytes.subrange(
            line[0].write.written,
            line[0].write.bytes.len() as int,
        ) + bytes_to_go(line.drop_first()));
    }
}

/// Nothing is lost and nothing goes out twice: what the wire took and what is still to go make up
/// what was to go before, in the same order. A record leaves the line when its last byte has
/// gone, and not before.
pub proof fn the_wire_gets_every_byte<M>(peer: PeerModel<M>, count: usize, delivered: bool)
    requires
        peer.wf(),
        !peer.web,
        peer.outbound.len() > 0,
        count <= peer.outbound[0].write.bytes.len() - peer.outbound[0].write.written,
    ensures
        ({
            let (after, outcome) = peer.front_written(WriteEvent::Wrote(count), delivered);
            let front = peer.outbound[0];
            let went = front.write.bytes.subrange(
                front.write.written,
                front.write.written + count,
            );
            let whole = front.write.written + count == front.write.bytes.len();
            &&& bytes_to_go(peer.outbound) == went + bytes_to_go(after.outbound)
            &&& after.outbound.len() == peer.outbound.len() - (if whole {
                1int
            } else {
                0
            })
            &&& outcome is HandshakeResponseWritten <==> whole && front.handshake_response && (
            front.accounting is Raw || delivered)
            &&& outcome is HandshakeResponseWritten ==> after.handshake_written
            &&& outcome is Failed <==> whole && front.accounting is Session && !delivered
            &&& !whole ==> outcome is Pending
            &&& outcome !is HandshakeResponseWritten ==> after.handshake_written
                == peer.handshake_written
        }),
        peer.front_written(WriteEvent::Blocked, delivered) == (peer, WriteOutcome::Pending),
        peer.front_written(WriteEvent::Failed, delivered) == (peer, WriteOutcome::Failed),
{
    let (after, outcome) = peer.front_written(WriteEvent::Wrote(count), delivered);
    let front = peer.outbound[0];
    assert(front.write.wf());
    let went = front.write.bytes.subrange(front.write.written, front.write.written + count);
    let whole = front.write.written + count == front.write.bytes.len();
    let advanced = peer.front_advanced(count as int);
    lemma_bytes_to_go(peer.outbound);
    assert(advanced.outbound[0].write.written == front.write.written + count);
    assert(advanced.outbound.drop_first() =~= peer.outbound.drop_first());
    if whole {
        assert(after.outbound == advanced.outbound.drop_first());
        assert(bytes_to_go(peer.outbound) =~= went + bytes_to_go(after.outbound));
    } else {
        assert(after.outbound == advanced.outbound);
        lemma_bytes_to_go(after.outbound);
        assert(bytes_to_go(peer.outbound) =~= went + bytes_to_go(after.outbound));
    }
}

/// The latest record goes out byte by byte; once it has gone the one behind it begins. Nothing
/// else of the client changes.
pub proof fn latest_records_go_out_in_turn<M>(peer: PeerModel<M>, slot: LossySlot, count: usize)
    requires
        peer.wf(),
        !peer.web,
        count <= peer.lossy_left(slot),
        peer.lossy_left(slot) > 0,
    ensures
        ({
            let (after, outcome) = peer.lossy_written(slot, WriteEvent::Wrote(count));
            let (place, left) = match slot {
                LossySlot::Meter => (peer.latest_meter, after.latest_meter),
                LossySlot::StreamStatus => (
                    peer.latest_stream_status,
                    after.latest_stream_status,
                ),
            };
            let current = place.current->Some_0;
            &&& outcome is Pending
            &&& place.current is Some
            &&& if current.written + count < current.bytes.len() {
                &&& left.current matches Some(now) && now.bytes == current.bytes && now.written
                    == current.written + count
                &&& left.next == place.next
            } else {
                &&& left.next is None
                &&& match place.next {
                    Some(bytes) => left.current matches Some(now) && now.bytes == bytes
                        && now.written == 0,
                    None => left.current is None,
                }
            }
            &&& after == (match slot {
                LossySlot::Meter => PeerModel { latest_meter: left, ..peer },
                LossySlot::StreamStatus => PeerModel { latest_stream_status: left, ..peer },
            })
        }),
{
}

/// What goes out next: to a client that is no browser a latest record that has started, else the
/// line, else the latest records. To a browser the front of the line, and nothing more until it
/// says that it has it; one that counts is counted when it goes.
pub proof fn the_line_goes_out<M>(peer: PeerModel<M>)
    requires
        peer.wf(),
    ensures
        ({
            let choice = peer.next_write();
            let started = |place: LatestModel|
                place.current is Some && place.current->Some_0.written > 0;
            &&& !peer.web ==> {
                &&& choice is Front <==> !started(peer.latest_meter) && !started(
                    peer.latest_stream_status,
                ) && peer.outbound.len() > 0
                &&& choice is BothLossy <==> !started(peer.latest_meter) && !started(
                    peer.latest_stream_status,
                ) && peer.outbound.len() == 0
                &&& choice is Lossy <==> started(peer.latest_meter) || started(
                    peer.latest_stream_status,
                )
            }
            &&& peer.web ==> {
                &&& choice is Nothing <==> peer.outbound.len() == 0
                &&& choice is AwaitAcknowledgement <==> peer.outbound.len() > 0
                    && peer.outbound[0].channel_sent
                &&& choice is Send <==> peer.outbound.len() > 0 && !peer.outbound[0].channel_sent
                &&& choice matches WriteChoice::Send { counts } ==> (counts is Some
                    <==> peer.outbound[0].accounting is Session && !peer.outbound[0].accounted)
                &&& choice matches WriteChoice::Send { counts: Some(length) }
                    ==> (peer.outbound[0].write.bytes.len() <= usize::MAX ==> length
                    == peer.outbound[0].write.bytes.len())
            }
        }),
{
}

/// A record goes to a browser whole and stays in line until the browser says that it has it. It
/// goes only where its session counts it, if it has to be counted.
pub proof fn browsers_get_whole_records<M>(
    peer: PeerModel<M>,
    admitted: bool,
    sent: bool,
    delivered: bool,
)
    requires
        peer.wf(),
        peer.web,
        peer.outbound.len() > 0,
    ensures
        !peer.outbound[0].channel_sent ==> {
            let (after, outcome) = peer.web_sent(admitted, sent);
            let front = peer.outbound[0];
            let asked = front.accounting is Session && !front.accounted;
            &&& differs_in_line(after, peer)
            &&& after.outbound.len() == peer.outbound.len()
            &&& forall|i: int|
                0 < i < peer.outbound.len() ==> #[trigger] after.outbound[i] == peer.outbound[i]
            &&& after.outbound[0].write == front.write
            &&& outcome is Failed <==> (asked && !admitted) || !sent
            &&& outcome is Pending <==> !((asked && !admitted) || !sent)
            &&& after.outbound[0].channel_sent <==> outcome is Pending
            &&& asked && !admitted ==> after == peer
            &&& front.accounting is Session && outcome is Pending ==> after.outbound[0].accounted
        },
        ({
            let (after, outcome) = peer.acknowledged(
                AcknowledgementPoll::Acknowledged,
                delivered,
            );
            &&& after.outbound == peer.outbound.drop_first()
            &&& outcome is HandshakeResponseWritten <==> peer.outbound[0].handshake_response && (
            !peer.outbound[0].accounted || peer.outbound[0].accounting is Raw || delivered)
            &&& outcome is HandshakeResponseWritten ==> after.handshake_written
        }),
        peer.acknowledged(AcknowledgementPoll::Empty, delivered) == (peer, WriteOutcome::Pending),
        peer.acknowledged(AcknowledgementPoll::Disconnected, delivered) == (
            peer,
            WriteOutcome::Failed,
        ),
{
}

/// A client becomes active once it has been sent all that comes first, and a client that is told
/// for the last time goes once that has gone out; nothing else changes by the end of a pass.
pub proof fn clients_settle_once_all_has_gone_out<M>(peer: PeerModel<M>)
    ensures
        ({
            let (after, close) = peer.settled();
            let all_out = peer.outbound.len() == 0;
            &&& close <==> peer.phase is Closing && all_out
            &&& after.phase is Active <==> peer.phase is Active || (peer.phase is Syncing
                && all_out && peer.initial_sync.len() == 0)
            &&& after == (PeerModel { phase: after.phase, ..peer })
            &&& after.phase !is Active ==> after.phase == peer.phase
        }),
{
}

/// Only clients that are active and asked for them are given meters and the state of the streams,
/// and what is newer takes the place of what has not started to go out.
pub proof fn latest_records_are_the_newest<M>(peer: PeerModel<M>, bytes: Seq<u8>)
    requires
        peer.wf(),
        bytes.len() > 0,
    ensures
        ({
            let after = peer.metered(bytes);
            let given = peer.phase is Active && peer.audio_meters;
            &&& !given ==> after == peer
            &&& given ==> is_newest(peer.latest_meter, after.latest_meter, bytes)
            &&& after == (PeerModel { latest_meter: after.latest_meter, ..peer })
        }),
        ({
            let after = peer.stream_reported(bytes);
            let given = peer.phase is Active && peer.stream_status;
            &&& !given ==> after == peer
            &&& given ==> is_newest(peer.latest_stream_status, after.latest_stream_status, bytes)
            &&& after == (PeerModel { latest_stream_status: after.latest_stream_status, ..peer })
        }),
{
}

/// Whether a place holds these bytes as the newest: behind a record that has started to go out,
/// else as the one to go.
pub open spec fn is_newest(before: LatestModel, after: LatestModel, bytes: Seq<u8>) -> bool {
    if before.current is Some && before.current->Some_0.written > 0 {
        after.current == before.current && after.next == Some(bytes)
    } else {
        after.current matches Some(now) && now.bytes == bytes && now.written == 0 && after.next
            is None
    }
}

/// A line that makes way for the notice of a shutdown keeps only what has partly left. Where
/// answers are kept, only a full line loses a record, and only one.
pub proof fn shutdowns_clear_the_line<M>(peer: PeerModel<M>)
    requires
        peer.wf(),
    ensures
        ({
            let after = peer.cleared(ShutdownQueue::Replace);
            &&& after.inbound.len() == 0 && after.initial_sync.len() == 0
            &&& after.outbound.len() <= 1
            &&& forall|i: int|
                0 <= i < after.outbound.len() ==> (#[trigger] after.outbound[i]).channel_sent
                    || after.outbound[i].write.written > 0
            &&& after.latest_meter.next is None && after.latest_stream_status.next is None
            &&& after.latest_meter.current matches Some(now) ==> now.written > 0
            &&& after.latest_stream_status.current matches Some(now) ==> now.written > 0
        }),
        ({
            let after = peer.cleared(ShutdownQueue::PreserveCommandResult);
            &&& after.inbound.len() == 0 && after.initial_sync.len() == 0
            &&& peer.outbound.len() < 32 ==> after.outbound == peer.outbound
            &&& after.outbound.len() + 1 >= peer.outbound.len()
            &&& after.latest_meter.next is None && after.latest_stream_status.next is None
        }),
{
    lemma_expendable(peer.without_unstarted(), peer.outbound.len() as int);
}

proof fn lemma_expendable<M>(peer: PeerModel<M>, end: int)
    requires
        end <= peer.outbound.len(),
    ensures
        peer.expendable(end) matches Some(index) ==> 0 <= index < end,
    decreases end,
{
    if end > 0 {
        lemma_expendable(peer, end - 1);
    }
}

/// A client is told of a shutdown once it knows that it was let in; the notice is the last that it
/// is sent, counted where its session takes it and uncounted where it does not.
pub proof fn the_notice_is_the_last_word<M>(
    peer: PeerModel<M>,
    notice: MessageModel,
    admitted: bool,
)
    requires
        peer.wf(),
        peer.session,
    ensures
        ({
            let after = peer.told(Some(notice), admitted);
            &&& after.phase is Closing
            &&& peer.outbound.len() < 32 ==> stands_last(
                peer,
                after,
                notice,
                if peer.web || admitted {
                    Accounting::Session
                } else {
                    Accounting::Raw
                },
            )
            &&& peer.outbound.len() >= 32 ==> after.outbound == peer.outbound
        }),
        peer.is_told() <==> peer.handshake_written,
{
}

/// A client that is let go is done once its line is empty or its wire has failed, and one that is
/// no browser also where an answer to a handshake has gone out.
pub proof fn clients_are_let_go_once_told<M>(peer: PeerModel<M>, outcome: WriteOutcome)
    ensures
        peer.outbound.len() == 0 || outcome is Failed ==> peer.is_done(outcome),
        peer.is_done(outcome) && peer.outbound.len() > 0 ==> outcome is Failed || (!peer.web
            && outcome is HandshakeResponseWritten),
        !peer.web && outcome is HandshakeResponseWritten ==> peer.is_done(outcome),
{
}

/// How many clients are counted as no browsers: those that are none.
pub proof fn clients_that_are_no_browsers_are_counted<M>(peers: Seq<PeerModel<M>>)
    ensures
        session_write::raw_count(peers) == peers.filter(|peer: PeerModel<M>| !peer.web).len(),
    decreases peers.len(),
{
    reveal(Seq::filter);
    if peers.len() > 0 {
        clients_that_are_no_browsers_are_counted(peers.drop_last());
    }
}

/// Whether one more client that is no browser may be let in: fewer are there than are served at a
/// time, and where one only is to be served none has been and nobody is there.
pub proof fn clients_are_let_in_while_there_is_room<M>(
    peers: Seq<Peer<M>>,
    once: bool,
    once_peer: Option<u64>,
    limit: usize,
)
    ensures
        session_pass::has_room(peers, once, once_peer, limit) <==> {
            &&& once_peer is None
            &&& once ==> peers.len() == 0
            &&& session_write::peer_views(peers).filter(|peer: PeerModel<M>| !peer.web).len()
                < limit
        },
{
    clients_that_are_no_browsers_are_counted(session_write::peer_views(peers));
}

/// The one client that is to be served is the first whose handshake was answered.
pub proof fn the_first_client_is_the_one(
    once: bool,
    known: Option<u64>,
    id: u64,
    outcome: WriteOutcome,
)
    ensures
        ({
            let noted = session_write::once_peer(once, known, id, outcome);
            &&& known is Some ==> noted == known
            &&& known is None ==> (noted is Some <==> once && outcome is HandshakeResponseWritten)
            &&& known is None && noted is Some ==> noted == Some(id)
        }),
{
}

/// Serving ends where the daemon is asked to stop, where it fails, where nobody can be let in any
/// more, and where the one client that was to be served has gone; and it ends as each of these
/// asks for. It goes on otherwise.
pub proof fn serving_ends_for_a_reason<M>(
    stage: PassStage,
    event: PassEvent,
    peers: Seq<Peer<M>>,
    setting: PassSetting,
)
    requires
        session_pass::can_come_of(stage, event),
    ensures
        ({
            let next = session_pass::next_stage(stage, event, peers, setting);
            let owed = exists|i: int|
                0 <= i < peers.len() && session_write::owes_answer((#[trigger] peers[i])@);
            let served = setting.once_peer is Some && forall|i: int|
                0 <= i < peers.len() ==> (#[trigger] peers[i]).id != setting.once_peer->Some_0;
            &&& next is Over <==> {
                ||| event matches PassEvent::Asked(Some(_))
                ||| event is CannotAccept
                ||| event is DaemonFailed
                ||| stage is Remove && served
            }
            &&& event matches PassEvent::Asked(Some(reason)) ==> next == PassStage::Over(
                RunEnd::Stopped {
                    reason,
                    plan: if reason is ProgramSurface {
                        ShutdownPlan::Close
                    } else if owed {
                        ShutdownPlan::Tell(ShutdownQueue::PreserveCommandResult)
                    } else {
                        ShutdownPlan::Tell(ShutdownQueue::Replace)
                    },
                },
            )
            &&& event is CannotAccept ==> next == PassStage::Over(RunEnd::Shut)
            &&& event is DaemonFailed ==> next == PassStage::Over(
                RunEnd::Failed(ShutdownPlan::Tell(ShutdownQueue::Replace)),
            )
            &&& stage is Remove && served ==> next == PassStage::Over(RunEnd::Once)
        }),
{
    let views = session_write::peer_views(peers);
    assert(forall|i: int| 0 <= i < peers.len() ==> (#[trigger] views[i]) == peers[i]@);
    if exists|i: int|
        0 <= i < peers.len() && session_write::owes_answer((#[trigger] peers[i])@) {
        let i = choose|i: int|
            0 <= i < peers.len() && session_write::owes_answer((#[trigger] peers[i])@);
        assert(session_write::owes_answer(views[i]));
    }
    if exists|i: int| 0 <= i < peers.len() && session_write::owes_answer(#[trigger] views[i]) {
        let i = choose|i: int|
            0 <= i < peers.len() && session_write::owes_answer(#[trigger] views[i]);
        assert(session_write::owes_answer(peers[i]@));
    }
    if session_pass::has_served(peers, setting.once_peer) {
        assert forall|i: int| 0 <= i < peers.len() implies (#[trigger] peers[i]).id
            != setting.once_peer->Some_0 by {
            assert(views[i].id != setting.once_peer->Some_0);
        }
    }
}

/// The steps of a pass, each with what follows on it where nothing ends it.
pub proof fn a_pass_takes_its_steps<M>(peers: Seq<Peer<M>>, setting: PassSetting)
    requires
        setting.once_peer is None,
    ensures
        ({
            let next = |stage: PassStage, event: PassEvent|
                session_pass::next_stage(stage, event, peers, setting);
            let asked = PassEvent::Asked(None);
            let done = PassEvent::Done;
            let room = session_pass::has_room(peers, setting.once, None, setting.limit);
            &&& next(PassStage::Ask(AskPoint::Start), asked) is Web <==> setting.web
            &&& next(PassStage::Web, done) is Accept <==> room
            &&& !setting.web ==> (next(PassStage::Ask(AskPoint::Start), asked) is Accept <==> room)
            &&& next(PassStage::Accept, done) is Read
            &&& next(PassStage::Read, done) is Messages
            &&& next(PassStage::Ask(AskPoint::AfterMessages), asked) is Tick <==> setting.native
            &&& next(PassStage::Ask(AskPoint::AfterTick), asked) is Live
            &&& next(PassStage::Live, done) is Write
            &&& next(PassStage::Write, done) is Remove
            &&& next(PassStage::Ask(AskPoint::AfterRemoval), asked) is Rest
        }),
{
}

/// A record has left as soon as a byte of it has reached the wire or the channel has it.
pub proof fn records_leave_with_their_first_byte(record: OutboundModel)
    ensures
        !record.has_left() <==> !record.channel_sent && record.write.written <= 0,
{
}

/// A client is let in exactly where the server lets it in and its subscription comes about. A
/// refusal of the server is told as it is; where the subscription fails, the client is told why
/// and may try again.
pub proof fn clients_are_told_why_they_are_turned_away(
    server: Result<(), session_flow::RejectionModel>,
    subscribed: Result<(), Seq<char>>,
)
    ensures
        ({
            let outcome = session_flow::greeted(server, subscribed);
            &&& outcome is Accepted <==> server is Ok && subscribed is Ok
            &&& server matches Err(refusal) ==> (outcome matches session_flow::OutcomeModel::Rejected(
                told,
            ) && told == refusal)
            &&& server is Ok ==> (subscribed matches Err(message) ==> (
            outcome matches session_flow::OutcomeModel::Rejected(told) && told.message == message
                && told.retryable && told.code == "unavailable"@))
        }),
{
}

/// There is no latest record exactly where none is going out.
pub proof fn latest_records_go_out_or_are_not_there(record: LatestModel)
    ensures
        record.is_vacant() <==> !(record.current matches Some(_)),
        record.started() <==> (record.current matches Some(write) && write.written > 0),
{
}

} // verus!
