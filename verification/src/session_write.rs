//! The order in which records go out to a client, and how its clients are let
//! go at a shutdown.

use vstd::prelude::*;

use crate::session_peer;
use crate::session_peer::{Accounting, OutboundMessage, Peer, Phase, OUTBOUND_CAPACITY, MAX_PEERS};
use crate::session_peer::{MessageModel, OutboundModel, PeerModel};
use crate::session_record::{WriteEvent, WriteOutcome};

verus! {

/// Which of the two places for latest records is meant.
#[derive(Clone, Copy, Debug, PartialEq, Eq, Structural)]
pub enum LossySlot {
    Meter,
    StreamStatus,
}

/// What to write to a client next.
#[derive(Clone, Copy, Debug, PartialEq, Eq, Structural)]
pub enum WriteChoice {
    /// A latest record that has started to go out.
    Lossy(LossySlot),
    /// The record in front of the line.
    Front,
    /// The latest records, the meter first, since the line is empty.
    BothLossy,
    /// Nothing, since the line to a browser is empty.
    Nothing,
    /// Nothing yet: the browser has yet to acknowledge the record in front.
    AwaitAcknowledgement,
    /// The record in front goes to the thread of the browser. Its length,
    /// where its session has to be asked for it first.
    Send { counts: Option<usize> },
}

/// What the thread of a browser said of the record it was given.
#[derive(Clone, Copy, Debug, PartialEq, Eq, Structural)]
pub enum AcknowledgementPoll {
    Acknowledged,
    Empty,
    Disconnected,
}

impl<M> PeerModel<M> {
    /// What to write to the client next.
    pub open spec fn next_write(self) -> WriteChoice {
        if self.web {
            if self.outbound.len() == 0 {
                WriteChoice::Nothing
            } else if self.outbound[0].channel_sent {
                WriteChoice::AwaitAcknowledgement
            } else if self.outbound[0].accounting is Session && !self.outbound[0].accounted {
                WriteChoice::Send { counts: Some(self.outbound[0].write.bytes.len() as usize) }
            } else {
                WriteChoice::Send { counts: None }
            }
        } else if self.latest_meter.started() {
            WriteChoice::Lossy(LossySlot::Meter)
        } else if self.latest_stream_status.started() {
            WriteChoice::Lossy(LossySlot::StreamStatus)
        } else if self.outbound.len() > 0 {
            WriteChoice::Front
        } else {
            WriteChoice::BothLossy
        }
    }

    /// The client without the record in front, which has gone out.
    pub open spec fn without_front(self) -> Self {
        PeerModel { outbound: self.outbound.drop_first(), ..self }
    }

    /// What comes of the record in front having gone out. A session that
    /// counts it has to be told, and may fail.
    pub open spec fn finished(self, delivered: bool) -> (Self, WriteOutcome) {
        let record = self.outbound.first();
        let after = self.without_front();
        if record.counted() && !delivered {
            (after, WriteOutcome::Failed)
        } else if record.handshake_response {
            (
                PeerModel { handshake_written: true, ..after },
                WriteOutcome::HandshakeResponseWritten,
            )
        } else {
            (after, WriteOutcome::Pending)
        }
    }

    /// The client whose record in front has gone out a little further.
    pub open spec fn front_advanced(self, count: int) -> Self {
        PeerModel {
            outbound: self.outbound.update(
                0,
                OutboundModel { write: self.outbound[0].write.advanced(count), ..self.outbound[0] },
            ),
            ..self
        }
    }

    /// What comes of writing the record in front once.
    pub open spec fn front_written(self, event: WriteEvent, delivered: bool) -> (
        Self,
        WriteOutcome,
    ) {
        match event {
            WriteEvent::Wrote(count) => {
                let after = self.front_advanced(count as int);
                if after.outbound[0].write.complete() {
                    after.finished(delivered)
                } else {
                    (after, WriteOutcome::Pending)
                }
            },
            WriteEvent::Blocked => (self, WriteOutcome::Pending),
            WriteEvent::Failed => (self, WriteOutcome::Failed),
        }
    }

    /// What comes of writing a latest record once.
    pub open spec fn lossy_written(self, slot: LossySlot, event: WriteEvent) -> (
        Self,
        WriteOutcome,
    ) {
        if self.web {
            (self, WriteOutcome::Failed)
        } else {
            match event {
                WriteEvent::Wrote(count) => (
                    match slot {
                        LossySlot::Meter => PeerModel {
                            latest_meter: self.latest_meter.advanced(count as int),
                            ..self
                        },
                        LossySlot::StreamStatus => PeerModel {
                            latest_stream_status: self.latest_stream_status.advanced(
                                count as int,
                            ),
                            ..self
                        },
                    },
                    WriteOutcome::Pending,
                ),
                WriteEvent::Blocked => (self, WriteOutcome::Pending),
                WriteEvent::Failed => (self, WriteOutcome::Failed),
            }
        }
    }

    /// How many bytes of a latest record are left.
    pub open spec fn lossy_left(self, slot: LossySlot) -> nat {
        match slot {
            LossySlot::Meter => self.latest_meter.left(),
            LossySlot::StreamStatus => self.latest_stream_status.left(),
        }
    }

    /// The browser whose record in front was counted, and handed to its
    /// thread or not.
    pub open spec fn front_sent(self, sent: bool) -> Self {
        let record = self.outbound[0];
        PeerModel {
            outbound: self.outbound.update(
                0,
                OutboundModel {
                    accounted: record.accounted || record.accounting is Session,
                    channel_sent: record.channel_sent || sent,
                    ..record
                },
            ),
            ..self
        }
    }

    /// What comes of sending the record in front to a browser: its session may
    /// refuse to count it, and its thread to take it.
    pub open spec fn web_sent(self, admitted: bool, sent: bool) -> (Self, WriteOutcome) {
        let asks = self.outbound[0].accounting is Session && !self.outbound[0].accounted;
        if asks && !admitted {
            (self, WriteOutcome::Failed)
        } else if sent {
            (self.front_sent(true), WriteOutcome::Pending)
        } else {
            (self.front_sent(false), WriteOutcome::Failed)
        }
    }

    /// What comes of a look for an acknowledgement.
    pub open spec fn acknowledged(self, poll: AcknowledgementPoll, delivered: bool) -> (
        Self,
        WriteOutcome,
    ) {
        match poll {
            AcknowledgementPoll::Acknowledged => self.finished(delivered),
            AcknowledgementPoll::Empty => (self, WriteOutcome::Pending),
            AcknowledgementPoll::Disconnected => (self, WriteOutcome::Failed),
        }
    }

    /// What comes of a pass over the client: one that was sent all that comes
    /// first is active, and one that was told all is let go.
    pub open spec fn settled(self) -> (Self, bool) {
        if self.phase is Syncing && self.initial_sync.len() == 0 && self.outbound.len() == 0 {
            (PeerModel { phase: Phase::Active, ..self }, false)
        } else {
            (self, self.phase is Closing && self.outbound.len() == 0)
        }
    }
}

/// The line of a client stays in order where only its front changes.
proof fn lemma_front_changed<M>(before: PeerModel<M>, after: PeerModel<M>)
    requires
        before.wf(),
        before.outbound.len() > 0,
        after == (PeerModel { outbound: before.outbound.update(0, after.outbound[0]), ..before }),
        after.outbound[0].write.wf(),
        before.web ==> !after.outbound[0].write.started(),
        !before.web ==> after.outbound[0].accounted && !after.outbound[0].channel_sent,
        after.outbound[0].accounting == before.outbound[0].accounting,
    ensures
        after.wf(),
{
    assert(before.outbound[0].accounting is Session ==> before.session);
    assert forall|i: int| 0 <= i < after.outbound.len() implies {
        let record = #[trigger] after.outbound[i];
        &&& record.write.wf()
        &&& record.has_left() ==> i == 0
        &&& after.web ==> !record.write.started()
        &&& after.web && record.accounted ==> i == 0
        &&& !after.web ==> record.accounted && !record.channel_sent
        &&& record.accounting is Session ==> after.session
    } by {
        if i > 0 {
            assert(after.outbound[i] == before.outbound[i]);
        }
    }
}

/// The line of a client stays in order without its front.
proof fn lemma_front_gone<M>(before: PeerModel<M>)
    requires
        before.wf(),
        before.outbound.len() > 0,
    ensures
        before.without_front().wf(),
{
    let after = before.without_front();
    assert forall|i: int| 0 <= i < after.outbound.len() implies {
        let record = #[trigger] after.outbound[i];
        &&& record.write.wf()
        &&& record.has_left() ==> i == 0
        &&& after.web ==> !record.write.started()
        &&& after.web && record.accounted ==> i == 0
        &&& !after.web ==> record.accounted && !record.channel_sent
        &&& record.accounting is Session ==> after.session
    } by {
        assert(after.outbound[i] == before.outbound[i + 1]);
    }
}

impl<M> Peer<M> {
    /// Returns what to write to the client next.
    pub fn next_write(&self) -> (choice: WriteChoice)
        requires
            self@.wf(),
        ensures
            choice == self@.next_write(),
    {
        proof {
            if self.outbound@.len() > 0 {
                assert(self@.outbound[0] == self.outbound@[0]@);
            }
        }
        if self.web {
            if self.outbound.len() == 0 {
                return WriteChoice::Nothing;
            }
            if self.outbound[0].channel_sent {
                return WriteChoice::AwaitAcknowledgement;
            }
            if let Accounting::Session = self.outbound[0].accounting {
                if !self.outbound[0].accounted {
                    let length: usize = self.outbound[0].write.bytes.len();
                    return WriteChoice::Send { counts: Some(length) };
                }
            }
            return WriteChoice::Send { counts: None };
        }
        if self.latest_meter.started() {
            return WriteChoice::Lossy(LossySlot::Meter);
        }
        if self.latest_stream_status.started() {
            return WriteChoice::Lossy(LossySlot::StreamStatus);
        }
        if self.outbound.len() > 0 {
            WriteChoice::Front
        } else {
            WriteChoice::BothLossy
        }
    }

    /// Takes the record in front out of line, which has gone out. `delivered`
    /// is what its session said, where it counts the record.
    pub fn finish_outbound(&mut self, delivered: bool) -> (outcome: WriteOutcome)
        requires
            old(self)@.wf(),
            old(self)@.outbound.len() > 0,
        ensures
            final(self)@.wf(),
            (final(self)@, outcome) == old(self)@.finished(delivered),
    {
        let ghost before = self@;
        proof {
            lemma_front_gone(before);
        }
        let record = self.outbound.remove(0);
        proof {
            assert(before.outbound[0] == record@);
            assert(self@.outbound =~= before.outbound.drop_first());
            assert(self@ =~= before.without_front());
        }
        if record.counted() && !delivered {
            return WriteOutcome::Failed;
        }
        if record.handshake_response {
            self.handshake_written = true;
            WriteOutcome::HandshakeResponseWritten
        } else {
            WriteOutcome::Pending
        }
    }

    /// Takes in what writing the record in front once came to.
    pub fn write_front(&mut self, event: WriteEvent, delivered: bool) -> (outcome: WriteOutcome)
        requires
            old(self)@.wf(),
            !old(self)@.web,
            old(self)@.outbound.len() > 0,
            event matches WriteEvent::Wrote(count) ==> count
                <= old(self)@.outbound[0].write.rest().len(),
        ensures
            final(self)@.wf(),
            (final(self)@, outcome) == old(self)@.front_written(event, delivered),
    {
        let count: usize = match event {
            WriteEvent::Wrote(count) => count,
            WriteEvent::Blocked => {
                return WriteOutcome::Pending;
            },
            WriteEvent::Failed => {
                return WriteOutcome::Failed;
            },
        };
        let ghost before = self@;
        proof {
            assert(before.outbound[0] == self.outbound@[0]@);
        }
        let front = &mut self.outbound[0];
        let complete = front.write.advance(count);
        proof {
            assert(self@.outbound =~= before.front_advanced(count as int).outbound);
            assert(self@ =~= before.front_advanced(count as int));
            lemma_front_changed(before, self@);
        }
        if complete {
            self.finish_outbound(delivered)
        } else {
            WriteOutcome::Pending
        }
    }

    /// Takes in what writing a latest record once came to.
    pub fn write_lossy(&mut self, slot: LossySlot, event: WriteEvent) -> (outcome: WriteOutcome)
        requires
            old(self)@.wf(),
            event matches WriteEvent::Wrote(count) ==> count <= old(self)@.lossy_left(slot),
        ensures
            final(self)@.wf(),
            (final(self)@, outcome) == old(self)@.lossy_written(slot, event),
    {
        if self.web {
            return WriteOutcome::Failed;
        }
        match event {
            WriteEvent::Wrote(count) => {
                match slot {
                    LossySlot::Meter => {
                        self.latest_meter.advance(count);
                    },
                    LossySlot::StreamStatus => {
                        self.latest_stream_status.advance(count);
                    },
                }
                WriteOutcome::Pending
            },
            WriteEvent::Blocked => WriteOutcome::Pending,
            WriteEvent::Failed => WriteOutcome::Failed,
        }
    }

    /// Takes in that the record in front was sent to a browser: whether its
    /// session counts it, where it was asked, and whether its thread took it.
    pub fn write_web(&mut self, admitted: bool, sent: bool) -> (outcome: WriteOutcome)
        requires
            old(self)@.wf(),
            old(self)@.web,
            old(self)@.outbound.len() > 0,
            !old(self)@.outbound[0].channel_sent,
        ensures
            final(self)@.wf(),
            (final(self)@, outcome) == old(self)@.web_sent(admitted, sent),
    {
        let ghost before = self@;
        proof {
            assert(before.outbound[0] == self.outbound@[0]@);
        }
        let session = match self.outbound[0].accounting {
            Accounting::Session => true,
            Accounting::Raw => false,
        };
        if session && !self.outbound[0].accounted && !admitted {
            return WriteOutcome::Failed;
        }
        let front = &mut self.outbound[0];
        if session {
            front.accounted = true;
        }
        if sent {
            front.channel_sent = true;
        }
        proof {
            assert(self@.outbound =~= before.front_sent(sent).outbound);
            assert(self@ =~= before.front_sent(sent));
            lemma_front_changed(before, self@);
        }
        if sent {
            WriteOutcome::Pending
        } else {
            WriteOutcome::Failed
        }
    }

    /// Takes in a look for an acknowledgement of the record in front.
    pub fn acknowledge_web(&mut self, poll: AcknowledgementPoll, delivered: bool) -> (outcome:
        WriteOutcome)
        requires
            old(self)@.wf(),
            old(self)@.outbound.len() > 0,
        ensures
            final(self)@.wf(),
            (final(self)@, outcome) == old(self)@.acknowledged(poll, delivered),
    {
        match poll {
            AcknowledgementPoll::Acknowledged => self.finish_outbound(delivered),
            AcknowledgementPoll::Empty => WriteOutcome::Pending,
            AcknowledgementPoll::Disconnected => WriteOutcome::Failed,
        }
    }

    /// Ends a pass over the client. Returns whether it is to be closed.
    pub fn settle(&mut self) -> (close: bool)
        requires
            old(self)@.wf(),
        ensures
            final(self)@.wf(),
            (final(self)@, close) == old(self)@.settled(),
    {
        match self.phase {
            Phase::Syncing => {
                if self.initial_sync.len() == 0 && self.outbound.len() == 0 {
                    self.phase = Phase::Active;
                }
                false
            },
            Phase::Closing => self.outbound.len() == 0,
            _ => false,
        }
    }
}

/// What is to become of the lines of the clients at a shutdown.
#[derive(Clone, Copy, Debug, PartialEq, Eq, Structural)]
pub enum ShutdownQueue {
    Replace,
    PreserveCommandResult,
}

/// Why the daemon stops.
#[derive(Clone, Copy, Debug, PartialEq, Eq, Structural)]
pub enum DaemonShutdownReason {
    ProcessSignal,
    ProgramSurface,
    Once,
}

/// How the clients are let go.
#[derive(Clone, Copy, Debug, PartialEq, Eq, Structural)]
pub enum ShutdownPlan {
    /// They are told, with what is to become of their lines.
    Tell(ShutdownQueue),
    /// They are closed at once.
    Close,
}

/// What clients are known to be.
pub open spec fn peer_views<M>(peers: Seq<Peer<M>>) -> Seq<PeerModel<M>> {
    Seq::new(peers.len(), |i: int| peers[i]@)
}

/// Whether a client is still owed the answer to a command.
pub open spec fn owes_answer<M>(peer: PeerModel<M>) -> bool {
    exists|i: int| 0 <= i < peer.outbound.len() && (#[trigger] peer.outbound[i]).command_result
}

impl<M> Peer<M> {
    /// Returns whether the client is still owed the answer to a command.
    pub fn owes_answer(&self) -> (owes: bool)
        ensures
            owes == owes_answer(self@),
    {
        let mut index: usize = 0;
        while index < self.outbound.len()
            invariant
                index <= self.outbound.len(),
                forall|i: int| 0 <= i < index ==> !(#[trigger] self@.outbound[i]).command_result,
            decreases self.outbound.len() - index,
        {
            proof {
                assert(self@.outbound[index as int] == self.outbound@[index as int]@);
            }
            if self.outbound[index].command_result {
                return true;
            }
            index = index + 1;
        }
        false
    }
}

/// Returns how the clients are let go. Answers to commands are kept where a
/// client is still owed one.
pub fn shutdown_plan<M>(reason: DaemonShutdownReason, peers: &[Peer<M>]) -> (plan: ShutdownPlan)
    requires
        !(reason is Once),
    ensures
        plan == (if reason is ProgramSurface {
            ShutdownPlan::Close
        } else if exists|i: int|
            0 <= i < peers@.len() && owes_answer(#[trigger] peer_views(peers@)[i]) {
            ShutdownPlan::Tell(ShutdownQueue::PreserveCommandResult)
        } else {
            ShutdownPlan::Tell(ShutdownQueue::Replace)
        }),
{
    match reason {
        DaemonShutdownReason::ProgramSurface => {
            return ShutdownPlan::Close;
        },
        _ => {},
    }
    let mut index: usize = 0;
    while index < peers.len()
        invariant
            index <= peers.len(),
            !(reason is ProgramSurface),
            forall|i: int| 0 <= i < index ==> !owes_answer(#[trigger] peer_views(peers@)[i]),
        decreases peers.len() - index,
    {
        proof {
            assert(peer_views(peers@)[index as int] == peers@[index as int]@);
        }
        if peers[index].owes_answer() {
            return ShutdownPlan::Tell(ShutdownQueue::PreserveCommandResult);
        }
        index = index + 1;
    }
    ShutdownPlan::Tell(ShutdownQueue::Replace)
}

impl<M> PeerModel<M> {
    /// Whether the client is told of a shutdown: it has been introduced, and
    /// knows that it has.
    pub open spec fn is_told(self) -> bool {
        self.session && self.handshake_written
    }

    /// The client whose line has made way for the notice of a shutdown.
    pub open spec fn cleared(self, queue: ShutdownQueue) -> Self {
        let quiet = self.without_unstarted();
        let made = match queue {
            ShutdownQueue::Replace => quiet.line_replaced(),
            ShutdownQueue::PreserveCommandResult => quiet.line_preserved(),
        };
        PeerModel { initial_sync: Seq::empty(), inbound: Seq::empty(), ..made }
    }

    /// The client that was told of a shutdown. A notice that its session does
    /// not admit goes out uncounted; one that finds no place is dropped.
    pub open spec fn told(self, notice: Option<MessageModel>, admitted: bool) -> Self {
        let (counted, result) = self.queued(notice, Accounting::Session, admitted);
        let after = match result {
            Ok(()) => counted,
            Err(()) => self.queued(notice, Accounting::Raw, false).0,
        };
        PeerModel { phase: Phase::Closing, ..after }
    }

    /// Whether a client that is being let go has been told all it will be.
    pub open spec fn is_done(self, outcome: WriteOutcome) -> bool {
        if self.web {
            outcome is Failed || self.outbound.len() == 0
        } else {
            !(outcome is Pending) || self.outbound.len() == 0
        }
    }
}

impl<M> Peer<M> {
    /// Returns whether the client is told of a shutdown.
    pub fn is_told(&self) -> (told: bool)
        ensures
            told == self@.is_told(),
    {
        self.session && self.handshake_written
    }

    /// Makes the line of a client ready for the notice of a shutdown. Returns
    /// the places of the records that its session has to be told of.
    pub fn clear_for_shutdown(&mut self, queue: ShutdownQueue) -> (discarded: Vec<usize>)
        requires
            old(self)@.wf(),
        ensures
            final(self)@.wf(),
            final(self)@ == old(self)@.cleared(queue),
            queue is Replace ==> discarded@ == session_peer::counted_places(
                old(self)@.without_unstarted(),
                old(self)@.kept_in_line(),
                old(self)@.outbound.len() as int,
            ),
            queue is PreserveCommandResult ==> discarded@ == {
                let full = old(self)@.outbound.len() >= OUTBOUND_CAPACITY;
                match old(self)@.without_unstarted().expendable(
                    old(self)@.outbound.len() as int,
                ) {
                    Some(index) => if full && old(self)@.outbound[index].counted() {
                        seq![index as usize]
                    } else {
                        Seq::empty()
                    },
                    None => Seq::empty(),
                }
            },
    {
        self.discard_unstarted_lossy_records();
        let mut discarded: Vec<usize> = Vec::new();
        match queue {
            ShutdownQueue::Replace => {
                discarded = self.replace_outbound_for_shutdown();
            },
            ShutdownQueue::PreserveCommandResult => {
                match self.preserve_outbound_for_shutdown() {
                    None => {},
                    Some(place) => {
                        discarded.push(place);
                    },
                }
            },
        }
        self.initial_sync.clear();
        self.inbound.clear();
        proof {
            assert(self@.initial_sync =~= Seq::empty());
            assert(self@ =~= old(self)@.cleared(queue));
        }
        discarded
    }

    /// Tells a client of a shutdown. `admitted` is what its session said of
    /// the notice, where it was asked. The notice may be needed twice.
    pub fn tell_shutdown(&mut self, notice: Option<OutboundMessage>, admitted: bool)
        requires
            old(self)@.wf(),
            old(self)@.session,
        ensures
            final(self)@.wf(),
            final(self)@ == old(self)@.told(
                match notice {
                    None => None,
                    Some(notice) => Some(notice@),
                },
                admitted,
            ),
    {
        let accounting = if self.web || admitted {
            Accounting::Session
        } else {
            Accounting::Raw
        };
        let _ = self.queue(notice, accounting, admitted);
        self.phase = Phase::Closing;
    }

    /// Returns whether a client that is being let go has been told all it will
    /// be.
    pub fn is_done(&self, outcome: WriteOutcome) -> (done: bool)
        ensures
            done == self@.is_done(outcome),
    {
        if self.web {
            match outcome {
                WriteOutcome::Failed => true,
                _ => self.outbound.len() == 0,
            }
        } else {
            match outcome {
                WriteOutcome::Pending => self.outbound.len() == 0,
                _ => true,
            }
        }
    }
}

/// How many of the first clients are no browsers.
pub open spec fn raw_count<M>(peers: Seq<PeerModel<M>>) -> nat
    decreases peers.len(),
{
    if peers.len() == 0 {
        0
    } else {
        raw_count(peers.drop_last()) + if peers.last().web {
            0nat
        } else {
            1
        }
    }
}

/// Returns how many clients are no browsers.
pub fn raw_peer_count<M>(peers: &[Peer<M>]) -> (count: usize)
    ensures
        count == raw_count(peer_views(peers@)),
        count <= peers@.len(),
{
    let mut count: usize = 0;
    let mut index: usize = 0;
    while index < peers.len()
        invariant
            index <= peers.len(),
            count == raw_count(peer_views(peers@).subrange(0, index as int)),
            count <= index,
        decreases peers.len() - index,
    {
        proof {
            let views = peer_views(peers@);
            assert(views.subrange(0, index + 1).drop_last() =~= views.subrange(0, index as int));
            assert(views.subrange(0, index + 1).last() == peers@[index as int]@);
        }
        if !peers[index].web {
            count = count + 1;
        }
        index = index + 1;
    }
    proof {
        assert(peer_views(peers@).subrange(0, peers@.len() as int) =~= peer_views(peers@));
    }
    count
}

/// Returns how many clients that are no browsers are served at a time.
pub fn peer_limit(native: bool) -> (limit: usize)
    ensures
        limit == (if native {
            1
        } else {
            MAX_PEERS as int
        }),
{
    if native {
        1
    } else {
        MAX_PEERS
    }
}

/// Returns whether another client that is no browser is let in: there is room,
/// and where the daemon serves only once, nobody else is or was there.
pub fn accepts_raw<M>(peers: &[Peer<M>], once: bool, once_peer: Option<u64>, limit: usize) -> (accepts:
    bool)
    ensures
        accepts == {
            &&& once_peer is None
            &&& !once || peers@.len() == 0
            &&& raw_count(peer_views(peers@)) < limit
        },
{
    once_peer.is_none() && (!once || peers.len() == 0) && raw_peer_count(peers) < limit
}

/// Returns whether a browser is let in: one at a time is.
pub fn accepts_web<M>(peers: &[Peer<M>]) -> (accepts: bool)
    ensures
        accepts == forall|i: int|
            0 <= i < peers@.len() ==> !(#[trigger] peer_views(peers@)[i]).web,
{
    let mut index: usize = 0;
    while index < peers.len()
        invariant
            index <= peers.len(),
            forall|i: int| 0 <= i < index ==> !(#[trigger] peer_views(peers@)[i]).web,
        decreases peers.len() - index,
    {
        if peers[index].web {
            proof {
                assert(peer_views(peers@)[index as int].web);
            }
            return false;
        }
        index = index + 1;
    }
    true
}

/// Returns the time that a browser has for its handshake.
pub fn web_handshake_timeout_ms(timeout_ms: u64) -> (web_timeout_ms: u64)
    ensures
        web_timeout_ms == (if timeout_ms <= 500 {
            timeout_ms
        } else {
            500
        }),
{
    if timeout_ms <= 500 {
        timeout_ms
    } else {
        500
    }
}

/// Returns why a client cannot be taken whose handshake has no end in time.
pub fn handshake_deadline_message() -> (message: &'static str)
    ensures
        message@ == "handshake deadline exceeds Instant range"@,
{
    "handshake deadline exceeds Instant range"
}

/// Returns the number of the next client.
pub fn next_peer_id(id: u64) -> (next: u64)
    ensures
        next == (if id == u64::MAX {
            0
        } else {
            id + 1
        }),
{
    id.wrapping_add(1)
}

/// The client that a daemon serves that serves only once: the first whose
/// handshake was answered.
pub open spec fn once_peer(
    once: bool,
    known: Option<u64>,
    id: u64,
    outcome: WriteOutcome,
) -> Option<u64> {
    if once && known is None && outcome is HandshakeResponseWritten {
        Some(id)
    } else {
        known
    }
}

/// Returns the client that a daemon serves that serves only once, after a
/// write to a client.
pub fn note_once_peer(once: bool, known: Option<u64>, id: u64, outcome: WriteOutcome) -> (noted:
    Option<u64>)
    ensures
        noted == once_peer(once, known, id, outcome),
{
    match outcome {
        WriteOutcome::HandshakeResponseWritten => {
            if once && known.is_none() {
                Some(id)
            } else {
                known
            }
        },
        _ => known,
    }
}

/// Returns whether a daemon that serves only once has served.
pub fn once_is_over<M>(peers: &[Peer<M>], once_peer: Option<u64>) -> (over: bool)
    ensures
        over == {
            &&& once_peer matches Some(id)
            &&& forall|i: int| 0 <= i < peers@.len() ==> (#[trigger] peer_views(peers@)[i]).id != id
        },
{
    let id: u64 = match once_peer {
        None => {
            return false;
        },
        Some(id) => id,
    };
    let mut index: usize = 0;
    while index < peers.len()
        invariant
            index <= peers.len(),
            once_peer == Some(id),
            forall|i: int| 0 <= i < index ==> (#[trigger] peer_views(peers@)[i]).id != id,
        decreases peers.len() - index,
    {
        if peers[index].id == id {
            proof {
                assert(peer_views(peers@)[index as int].id == id);
            }
            return false;
        }
        index = index + 1;
    }
    true
}

/// What stays where marked items go, from the last to the first: each place
/// that one leaves is filled by the last item.
pub open spec fn without_marked<T>(items: Seq<T>, marks: Seq<bool>, from: int) -> (Seq<T>, Seq<T>)
    decreases from,
{
    if from <= 0 {
        (items, Seq::empty())
    } else if marks[from - 1] {
        let (rest, gone) = without_marked(
            items.update(from - 1, items.last()).drop_last(),
            marks,
            from - 1,
        );
        (rest, seq![items[from - 1]] + gone)
    } else {
        without_marked(items, marks, from - 1)
    }
}

/// Takes the marked items out, the last first, and returns them in the order
/// in which they went.
pub fn remove_marked<T>(items: &mut Vec<T>, marks: &[bool]) -> (gone: Vec<T>)
    requires
        old(items)@.len() == marks@.len(),
    ensures
        (final(items)@, gone@) == without_marked(
            old(items)@,
            marks@,
            old(items)@.len() as int,
        ),
{
    let mut gone: Vec<T> = Vec::new();
    let mut end: usize = items.len();
    proof {
        let whole = without_marked(items@, marks@, end as int);
        assert(gone@ + whole.1 =~= whole.1);
    }
    while end > 0
        invariant
            end <= items.len(),
            end <= marks.len(),
            ({
                let (rest, left) = without_marked(items@, marks@, end as int);
                (rest, gone@ + left)
            }) == without_marked(old(items)@, marks@, old(items)@.len() as int),
        decreases end,
    {
        let index: usize = end - 1;
        if marks[index] {
            let ghost before = items@;
            let ghost went = gone@;
            let item = items.swap_remove(index);
            gone.push(item);
            proof {
                let (rest, left) = without_marked(items@, marks@, index as int);
                assert(went + (seq![before[index as int]] + left) =~= gone@ + left);
            }
        }
        end = index;
    }
    proof {
        assert(gone@ + Seq::<T>::empty() =~= gone@);
    }
    gone
}

/// Whether an item is one of the first and is marked.
pub open spec fn was_marked<T>(items: Seq<T>, marks: Seq<bool>, from: int, item: T) -> bool {
    exists|i: int| 0 <= i < from && marks[i] && (#[trigger] items[i]) == item
}

/// Taking the marked items out loses none and keeps none: the rest and what
/// went are together what was there, and exactly as many went as were marked.
pub proof fn marked_items_go<T>(items: Seq<T>, marks: Seq<bool>, from: int)
    requires
        0 <= from <= items.len(),
        from <= marks.len(),
    ensures
        ({
            let (rest, gone) = without_marked(items, marks, from);
            &&& rest.to_multiset().add(gone.to_multiset()) =~= items.to_multiset()
            &&& rest.len() + gone.len() == items.len()
            &&& forall|i: int|
                0 <= i < from && marks[i] ==> gone.contains(#[trigger] items[i])
            &&& forall|g: int|
                0 <= g < gone.len() ==> was_marked(items, marks, from, #[trigger] gone[g])
        }),
    decreases from,
{
    broadcast use vstd::seq_lib::group_to_multiset_ensures;

    let (rest, gone) = without_marked(items, marks, from);
    if from <= 0 {
        assert(gone =~= Seq::empty());
        assert(gone.to_multiset() =~= vstd::multiset::Multiset::empty());
        assert(rest.to_multiset().add(gone.to_multiset()) =~= items.to_multiset());
    } else if marks[from - 1] {
        let left = items.update(from - 1, items.last()).drop_last();
        marked_items_go(left, marks, from - 1);
        let (_, tail) = without_marked(left, marks, from - 1);
        let item = items[from - 1];
        assert(gone == seq![item] + tail);
        assert(left.to_multiset() =~= items.to_multiset().remove(item)) by {
            let shorter = items.remove(items.len() - 1);
            assert(shorter =~= items.drop_last());
            if from == items.len() {
                assert(left =~= shorter);
            } else {
                let gap = shorter.remove(from - 1);
                assert(shorter[from - 1] == item);
                assert(left =~= gap.insert(from - 1, items.last()));
                assert(shorter.contains(item));
                assert(items.contains(item));
                assert(items.to_multiset().count(item) > 0);
                assert(shorter.to_multiset().count(item) > 0);
            }
        }
        assert(gone.to_multiset() =~= tail.to_multiset().insert(item)) by {
            assert(gone =~= tail.insert(0, item));
        }
        assert(items.contains(item));
        assert(items.to_multiset().count(item) > 0);
        assert(rest.to_multiset().add(tail.to_multiset()) == left.to_multiset());
        assert(left.to_multiset().insert(item) =~= items.to_multiset());
        assert(rest.to_multiset().add(tail.to_multiset().insert(item)) =~= rest.to_multiset().add(
            tail.to_multiset(),
        ).insert(item));
        assert(gone[0] == item);
        assert forall|i: int| 0 <= i < from && marks[i] implies gone.contains(
            #[trigger] items[i],
        ) by {
            if i < from - 1 {
                assert(left[i] == items[i]);
                assert(tail.contains(left[i]));
                let place = choose|p: int| 0 <= p < tail.len() && tail[p] == left[i];
                assert(gone[place + 1] == items[i]);
            }
        }
        assert forall|g: int| 0 <= g < gone.len() implies was_marked(
            items,
            marks,
            from,
            #[trigger] gone[g],
        ) by {
            if g == 0 {
                assert(items[from - 1] == gone[0]);
            } else {
                assert(gone[g] == tail[g - 1]);
                assert(was_marked(left, marks, from - 1, tail[g - 1]));
                let i = choose|i: int|
                    0 <= i < from - 1 && marks[i] && (#[trigger] left[i]) == tail[g - 1];
                assert(items[i] == left[i]);
            }
        }
    } else {
        marked_items_go(items, marks, from - 1);
        assert forall|g: int| 0 <= g < gone.len() implies was_marked(
            items,
            marks,
            from,
            #[trigger] gone[g],
        ) by {
            assert(was_marked(items, marks, from - 1, gone[g]));
        }
    }
}

/// A record that has started to go out is not cut off by one of another kind.
pub proof fn started_records_are_not_cut_off<M>(peer: PeerModel<M>)
    requires
        peer.wf(),
        !peer.web,
    ensures
        peer.latest_meter.started() ==> peer.next_write() == WriteChoice::Lossy(LossySlot::Meter),
        !peer.latest_meter.started() && peer.latest_stream_status.started()
            ==> peer.next_write() == WriteChoice::Lossy(LossySlot::StreamStatus),
        peer.outbound.len() > 0 && peer.outbound[0].write.started()
            && !peer.latest_meter.started() && !peer.latest_stream_status.started()
            ==> peer.next_write() is Front,
        peer.next_write() is BothLossy ==> peer.outbound.len() == 0,
{
}

/// A shutdown keeps an answer to a command, where it is told to, and whatever
/// has partly left, whatever else it takes out of line.
pub proof fn shutdown_keeps_what_it_must<M>(peer: PeerModel<M>, index: int)
    requires
        peer.wf(),
        0 <= index < peer.outbound.len(),
    ensures
        peer.outbound[index].has_left() ==> peer.cleared(ShutdownQueue::Replace).outbound
            == seq![peer.outbound[index]],
        peer.outbound[index].command_result || peer.outbound[index].has_left()
            ==> peer.cleared(ShutdownQueue::PreserveCommandResult).outbound.contains(
            peer.outbound[index],
        ),
{
    let quiet = peer.without_unstarted();
    if peer.outbound[index].has_left() {
        assert(index == 0);
        assert(quiet.outbound.subrange(0, 1) =~= seq![peer.outbound[index]]);
    }
    if peer.outbound[index].command_result || peer.outbound[index].has_left() {
        let kept = quiet.line_preserved();
        if kept.outbound == quiet.outbound {
            assert(kept.outbound[index] == peer.outbound[index]);
        } else {
            lemma_expendable(quiet, quiet.outbound.len() as int);
            let place = quiet.expendable(quiet.outbound.len() as int)->0;
            assert(place != index);
            if index < place {
                assert(kept.outbound[index] == peer.outbound[index]);
            } else {
                assert(kept.outbound[index - 1] == peer.outbound[index]);
            }
        }
    }
}

/// What may make way for a notice is no answer to a command, and none of it
/// has left.
proof fn lemma_expendable<M>(peer: PeerModel<M>, end: int)
    requires
        0 <= end <= peer.outbound.len(),
    ensures
        peer.expendable(end) matches Some(index) ==> 0 <= index < end
            && !peer.outbound[index].command_result && !peer.outbound[index].has_left(),
    decreases end,
{
    if end > 0 {
        lemma_expendable(peer, end - 1);
    }
}

/// A client that was told of a shutdown is closing, and its line has a place
/// for the notice whenever its line made way.
pub proof fn the_notice_finds_a_place<M>(
    peer: PeerModel<M>,
    notice: MessageModel,
    admitted: bool,
)
    requires
        peer.wf(),
        peer.session,
    ensures
        ({
            let cleared = peer.cleared(ShutdownQueue::Replace);
            let told = cleared.told(Some(notice), admitted);
            &&& told.phase is Closing
            &&& told.outbound.len() == cleared.outbound.len() + 1
            &&& told.outbound.last().write.bytes == notice.bytes
            &&& told.initial_sync.len() == 0
            &&& told.inbound.len() == 0
        }),
{
}

} // verus!
