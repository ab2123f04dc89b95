//! One client of the daemon: what it was sent, what waits for it, and what is
//! left for it at a shutdown.

use vstd::prelude::*;

use crate::session_record;
use crate::session_record::{LatestRecord, PendingWrite};
use crate::session_record::{LatestModel, WriteModel};

verus! {

/// How many clients are served at a time, where no native program runs.
pub const MAX_PEERS: usize = 2;

/// How many messages of a client wait to be answered.
pub const INBOUND_CAPACITY: usize = 8;

/// How many records wait to go to a client.
pub const OUTBOUND_CAPACITY: usize = 32;

/// How many live events a client is given in one pass.
pub const LIVE_EVENTS_PER_PASS: usize = 8;

/// How far a client has come.
#[derive(Clone, Copy, Debug, PartialEq, Eq, Structural)]
pub enum Phase {
    AwaitHandshake,
    Syncing,
    Active,
    Closing,
}

/// Whether a record counts toward what its session may hold.
#[derive(Clone, Copy, Debug, PartialEq, Eq, Structural)]
pub enum Accounting {
    Raw,
    Session,
}

/// What a record says, as far as it matters to the line it waits in.
#[derive(Clone, Copy, Debug, PartialEq, Eq, Structural)]
pub enum RecordKind {
    HandshakeResponse,
    CommandResult,
    Other,
}

/// A message to a client in the form in which it goes out.
#[derive(Debug)]
pub struct OutboundMessage {
    pub bytes: Vec<u8>,
    pub kind: RecordKind,
}

/// What a message to a client says.
#[verifier::ext_equal]
pub struct MessageModel {
    pub bytes: Seq<u8>,
    pub kind: RecordKind,
}

impl View for OutboundMessage {
    type V = MessageModel;

    open spec fn view(&self) -> MessageModel {
        MessageModel { bytes: self.bytes@, kind: self.kind }
    }
}

/// A record in the line to a client.
#[derive(Debug)]
pub struct Outbound {
    pub write: PendingWrite,
    pub accounting: Accounting,
    pub handshake_response: bool,
    pub command_result: bool,
    /// Whether its session knows of it.
    pub accounted: bool,
    /// Whether it was handed to the thread of a browser.
    pub channel_sent: bool,
}

/// What a record in the line holds.
#[verifier::ext_equal]
pub struct OutboundModel {
    pub write: WriteModel,
    pub accounting: Accounting,
    pub handshake_response: bool,
    pub command_result: bool,
    pub accounted: bool,
    pub channel_sent: bool,
}

impl View for Outbound {
    type V = OutboundModel;

    open spec fn view(&self) -> OutboundModel {
        OutboundModel {
            write: self.write@,
            accounting: self.accounting,
            handshake_response: self.handshake_response,
            command_result: self.command_result,
            accounted: self.accounted,
            channel_sent: self.channel_sent,
        }
    }
}

impl OutboundModel {
    /// Whether some of the record has left.
    pub open spec fn has_left(self) -> bool {
        self.channel_sent || self.write.started()
    }

    /// Whether its session counts it.
    pub open spec fn counted(self) -> bool {
        self.accounted && self.accounting is Session
    }
}

impl Outbound {
    /// Returns whether some of the record has left.
    pub fn has_left(&self) -> (left: bool)
        ensures
            left == self@.has_left(),
    {
        self.channel_sent || self.write.started()
    }

    /// Returns whether its session counts it.
    pub fn counted(&self) -> (counted: bool)
        ensures
            counted == self@.counted(),
    {
        match self.accounting {
            Accounting::Session => self.accounted,
            Accounting::Raw => false,
        }
    }
}

/// A client. Its session, identity and subscription are kept elsewhere; here
/// stands whether it has them.
pub struct Peer<M> {
    pub id: u64,
    /// Whether it is a browser.
    pub web: bool,
    pub inbound: Vec<M>,
    pub handshake_deadline_ms: u64,
    pub phase: Phase,
    pub handshake_written: bool,
    pub session: bool,
    pub subscribed: bool,
    pub initial_sync: Vec<OutboundMessage>,
    pub outbound: Vec<Outbound>,
    pub audio_meters: bool,
    pub latest_meter: LatestRecord,
    pub stream_status: bool,
    pub latest_stream_status: LatestRecord,
}

/// What is known of a client.
#[verifier::ext_equal]
pub struct PeerModel<M> {
    pub id: u64,
    pub web: bool,
    pub inbound: Seq<M>,
    pub handshake_deadline_ms: u64,
    pub phase: Phase,
    pub handshake_written: bool,
    pub session: bool,
    pub subscribed: bool,
    pub initial_sync: Seq<MessageModel>,
    pub outbound: Seq<OutboundModel>,
    pub audio_meters: bool,
    pub latest_meter: LatestModel,
    pub stream_status: bool,
    pub latest_stream_status: LatestModel,
}

/// What messages say.
pub open spec fn message_views(messages: Seq<OutboundMessage>) -> Seq<MessageModel> {
    Seq::new(messages.len(), |i: int| messages[i]@)
}

/// What the records of a line hold.
pub open spec fn outbound_views(records: Seq<Outbound>) -> Seq<OutboundModel> {
    Seq::new(records.len(), |i: int| records[i]@)
}

impl<M> View for Peer<M> {
    type V = PeerModel<M>;

    open spec fn view(&self) -> PeerModel<M> {
        PeerModel {
            id: self.id,
            web: self.web,
            inbound: self.inbound@,
            handshake_deadline_ms: self.handshake_deadline_ms,
            phase: self.phase,
            handshake_written: self.handshake_written,
            session: self.session,
            subscribed: self.subscribed,
            initial_sync: message_views(self.initial_sync@),
            outbound: outbound_views(self.outbound@),
            audio_meters: self.audio_meters,
            latest_meter: self.latest_meter@,
            stream_status: self.stream_status,
            latest_stream_status: self.latest_stream_status@,
        }
    }
}

/// The record that a message becomes in the line to a client. A browser's
/// records are counted only when they leave.
pub open spec fn outbound_of(message: MessageModel, web: bool, accounting: Accounting) -> OutboundModel {
    OutboundModel {
        write: session_record::unstarted(message.bytes),
        accounting,
        handshake_response: message.kind is HandshakeResponse,
        command_result: message.kind is CommandResult,
        accounted: !web,
        channel_sent: false,
    }
}

impl<M> PeerModel<M> {
    /// Whether a client that is syncing or active has its session and its
    /// subscription, and the line is in order: nothing but the record in front
    /// has left, no record leaves in the way of the other kind of client, and
    /// only a client with a session has records that count.
    pub open spec fn wf(self) -> bool {
        &&& (self.phase is Syncing || self.phase is Active) ==> self.session && self.subscribed
        &&& self.outbound.len() <= OUTBOUND_CAPACITY
        &&& self.inbound.len() <= INBOUND_CAPACITY
        &&& self.latest_meter.wf()
        &&& self.latest_stream_status.wf()
        &&& forall|i: int|
            0 <= i < self.outbound.len() ==> {
                let record = #[trigger] self.outbound[i];
                &&& record.write.wf()
                &&& record.has_left() ==> i == 0
                &&& self.web ==> !record.write.started()
                &&& self.web && record.accounted ==> i == 0
                &&& !self.web ==> record.accounted && !record.channel_sent
                &&& record.accounting is Session ==> self.session
            }
    }

    /// Whether its session has to be asked before a record is put in line.
    pub open spec fn asks_session(self, accounting: Accounting) -> bool {
        accounting is Session && !self.web
    }

    /// Whether a message finds a place in line.
    pub open spec fn takes(self, accounting: Accounting, admitted: bool) -> bool {
        &&& self.outbound.len() < OUTBOUND_CAPACITY
        &&& self.asks_session(accounting) ==> self.session && admitted
    }

    /// The client once a message was put in line.
    pub open spec fn with_record(self, message: MessageModel, accounting: Accounting) -> Self {
        PeerModel {
            outbound: self.outbound.push(outbound_of(message, self.web, accounting)),
            ..self
        }
    }

    /// What comes of putting a message in line: a message that does not encode
    /// or finds no place changes nothing.
    pub open spec fn queued(
        self,
        message: Option<MessageModel>,
        accounting: Accounting,
        admitted: bool,
    ) -> (Self, Result<(), ()>) {
        match message {
            Some(message) => if self.takes(accounting, admitted) {
                (self.with_record(message, accounting), Ok(()))
            } else {
                (self, Err(()))
            },
            None => (self, Err(())),
        }
    }

    /// The client without one record of its line.
    pub open spec fn without_record(self, index: int) -> Self {
        PeerModel { outbound: self.outbound.remove(index), ..self }
    }

    /// How much of the line stays when it makes way for a notice.
    pub open spec fn kept_in_line(self) -> int {
        if self.outbound.len() > 0 && self.outbound[0].has_left() {
            1
        } else {
            0
        }
    }

    /// The client whose line has made way for a notice.
    pub open spec fn line_replaced(self) -> Self {
        PeerModel { outbound: self.outbound.subrange(0, self.kept_in_line()), ..self }
    }

    /// The last record of a line that may make way for a notice: no answer to
    /// a command, and none of it has left.
    pub open spec fn expendable(self, end: int) -> Option<int>
        decreases end,
    {
        if end <= 0 {
            None
        } else if !self.outbound[end - 1].command_result && !self.outbound[end - 1].has_left() {
            Some(end - 1)
        } else {
            self.expendable(end - 1)
        }
    }

    /// The client whose full line has made room for a notice where it could.
    pub open spec fn line_preserved(self) -> Self {
        if self.outbound.len() < OUTBOUND_CAPACITY {
            self
        } else {
            match self.expendable(self.outbound.len() as int) {
                None => self,
                Some(index) => self.without_record(index),
            }
        }
    }

    /// The bytes of what waits in line.
    pub open spec fn line(self) -> Seq<Seq<u8>> {
        Seq::new(self.outbound.len(), |i: int| self.outbound[i].write.bytes)
    }

    /// The bytes of what a client is sent first.
    pub open spec fn sync_line(self) -> Seq<Seq<u8>> {
        Seq::new(self.initial_sync.len(), |i: int| self.initial_sync[i].bytes)
    }

    /// The lengths of the records that its session counts, in line.
    pub open spec fn counted_lengths(self) -> Seq<nat>
        decreases self.outbound.len(),
    {
        if self.outbound.len() == 0 {
            Seq::empty()
        } else {
            let rest = (PeerModel { outbound: self.outbound.drop_last(), ..self })
                .counted_lengths();
            if self.outbound.last().counted() {
                rest.push(self.outbound.last().write.bytes.len())
            } else {
                rest
            }
        }
    }
}

/// What its session has to be told of a record that left the line unsent: its
/// place in line.
pub type Discarded = Option<usize>;

impl<M> Peer<M> {
    /// A client that has just come. None where the time by which it has to
    /// introduce itself cannot be told.
    pub fn new(id: u64, web: bool, now_ms: u64, handshake_timeout_ms: u64) -> (peer: Option<Self>)
        ensures
            peer is Some <==> now_ms + handshake_timeout_ms <= u64::MAX,
            peer matches Some(peer) ==> peer@.wf() && peer@ == (PeerModel::<M> {
                id,
                web,
                inbound: Seq::empty(),
                handshake_deadline_ms: (now_ms + handshake_timeout_ms) as u64,
                phase: Phase::AwaitHandshake,
                handshake_written: false,
                session: false,
                subscribed: false,
                initial_sync: Seq::empty(),
                outbound: Seq::empty(),
                audio_meters: false,
                latest_meter: LatestModel::vacant(),
                stream_status: false,
                latest_stream_status: LatestModel::vacant(),
            }),
    {
        let handshake_deadline_ms: u64 = match now_ms.checked_add(handshake_timeout_ms) {
            None => {
                return None;
            },
            Some(deadline) => deadline,
        };
        let peer = Peer {
            id,
            web,
            inbound: Vec::new(),
            handshake_deadline_ms,
            phase: Phase::AwaitHandshake,
            handshake_written: false,
            session: false,
            subscribed: false,
            initial_sync: Vec::new(),
            outbound: Vec::new(),
            audio_meters: false,
            latest_meter: LatestRecord::new(),
            stream_status: false,
            latest_stream_status: LatestRecord::new(),
        };
        proof {
            assert(peer@.initial_sync =~= Seq::empty());
            assert(peer@.outbound =~= Seq::empty());
        }
        Some(peer)
    }

    /// Returns whether its session has to be asked before a record is put in
    /// line, and can be.
    pub fn asks_session(&self, accounting: Accounting) -> (asks: bool)
        requires
            self@.wf(),
        ensures
            asks == (self@.outbound.len() < OUTBOUND_CAPACITY && self@.asks_session(accounting)
                && self@.session),
    {
        match accounting {
            Accounting::Session => {
                self.outbound.len() < OUTBOUND_CAPACITY && !self.web && self.session
            },
            Accounting::Raw => false,
        }
    }

    /// Puts a message in line. `admitted` is what its session said of the
    /// record, where it was asked.
    pub fn queue(
        &mut self,
        message: Option<OutboundMessage>,
        accounting: Accounting,
        admitted: bool,
    ) -> (result: Result<(), ()>)
        requires
            old(self)@.wf(),
            accounting is Session && old(self)@.web ==> old(self)@.session,
        ensures
            final(self)@.wf(),
            (final(self)@, result) == old(self)@.queued(
                match message {
                    None => None,
                    Some(message) => Some(message@),
                },
                accounting,
                admitted,
            ),
    {
        if self.outbound.len() >= OUTBOUND_CAPACITY {
            return Err(());
        }
        let message = match message {
            None => {
                return Err(());
            },
            Some(message) => message,
        };
        let accounted = !self.web;
        if let Accounting::Session = accounting {
            if accounted && !(self.session && admitted) {
                return Err(());
            }
        }
        let handshake_response = match message.kind {
            RecordKind::HandshakeResponse => true,
            _ => false,
        };
        let command_result = match message.kind {
            RecordKind::CommandResult => true,
            _ => false,
        };
        self.outbound.push(
            Outbound {
                write: PendingWrite::new(message.bytes),
                accounting,
                handshake_response,
                command_result,
                accounted,
                channel_sent: false,
            },
        );
        proof {
            assert(self@.outbound =~= old(self)@.outbound.push(
                outbound_of(message@, old(self)@.web, accounting),
            ));
            assert forall|i: int| 0 <= i < self@.outbound.len() implies {
                let record = #[trigger] self@.outbound[i];
                &&& record.write.wf()
                &&& record.has_left() ==> i == 0
                &&& self@.web ==> !record.write.started()
                &&& self@.web && record.accounted ==> i == 0
                &&& !self@.web ==> record.accounted && !record.channel_sent
                &&& record.accounting is Session ==> self@.session
            } by {
                if i < old(self)@.outbound.len() {
                    assert(self@.outbound[i] == old(self)@.outbound[i]);
                }
            }
        }
        Ok(())
    }

    /// Takes a record out of line unsent. Returns its place where its session
    /// counted it and has to be told.
    pub fn discard_outbound(&mut self, index: usize) -> (discarded: Discarded)
        requires
            old(self)@.wf(),
        ensures
            final(self)@.wf(),
            final(self)@ == (if index < old(self)@.outbound.len() {
                old(self)@.without_record(index as int)
            } else {
                old(self)@
            }),
            discarded == (if index < old(self)@.outbound.len()
                && old(self)@.outbound[index as int].counted() && old(self)@.session {
                Some(index)
            } else {
                None
            }),
    {
        if index >= self.outbound.len() {
            return None;
        }
        let ghost before = self@;
        let record = self.outbound.remove(index);
        proof {
            assert(before.outbound[index as int] == record@);
            assert(self@.outbound =~= before.outbound.remove(index as int));
            assert forall|i: int| 0 <= i < self@.outbound.len() implies {
                let record = #[trigger] self@.outbound[i];
                &&& record.write.wf()
                &&& record.has_left() ==> i == 0
                &&& self@.web ==> !record.write.started()
                &&& self@.web && record.accounted ==> i == 0
                &&& !self@.web ==> record.accounted && !record.channel_sent
                &&& record.accounting is Session ==> self@.session
            } by {
                if i < index {
                    assert(self@.outbound[i] == before.outbound[i]);
                } else {
                    assert(self@.outbound[i] == before.outbound[i + 1]);
                }
            }
        }
        if record.counted() && self.session {
            Some(index)
        } else {
            None
        }
    }

    /// Takes every record out of line but one that has partly left. Returns
    /// the places of those that the session counted, the last first.
    pub fn replace_outbound_for_shutdown(&mut self) -> (discarded: Vec<usize>)
        requires
            old(self)@.wf(),
        ensures
            final(self)@.wf(),
            final(self)@ == old(self)@.line_replaced(),
            discarded@ == counted_places(
                old(self)@,
                old(self)@.kept_in_line(),
                old(self)@.outbound.len() as int,
            ),
    {
        let retained: usize = if self.outbound.len() > 0 && self.outbound[0].has_left() {
            1
        } else {
            0
        };
        let ghost before = self@;
        let mut discarded: Vec<usize> = Vec::new();
        proof {
            if before.outbound.len() > 0 {
                assert(before.outbound[0] == self.outbound@[0]@);
            }
            assert(retained == before.kept_in_line());
            assert(before.outbound.subrange(0, before.outbound.len() as int) =~= before.outbound);
        }
        while self.outbound.len() > retained
            invariant
                self@.wf(),
                before.wf(),
                retained == before.kept_in_line(),
                retained <= self.outbound.len() <= before.outbound.len(),
                self@ == (PeerModel {
                    outbound: before.outbound.subrange(0, self.outbound.len() as int),
                    ..before
                }),
                discarded@ + counted_places(before, retained as int, self.outbound.len() as int)
                    == counted_places(before, retained as int, before.outbound.len() as int),
            decreases self.outbound.len(),
        {
            let last: usize = self.outbound.len() - 1;
            let ghost told = discarded@;
            match self.discard_outbound(last) {
                None => {},
                Some(place) => {
                    discarded.push(place);
                },
            }
            proof {
                let places = counted_places(before, retained as int, last + 1);
                assert(before.outbound.subrange(0, last + 1)[last as int]
                    == before.outbound[last as int]);
                assert(before.outbound.subrange(0, last + 1).remove(last as int)
                    =~= before.outbound.subrange(0, last as int));
                if before.outbound[last as int].counted() {
                    assert(before.outbound[last as int].accounting is Session);
                    assert(before.session);
                    assert(told + places =~= told.push(last) + counted_places(
                        before,
                        retained as int,
                        last as int,
                    ));
                }
            }
        }
        proof {
            assert(counted_places(before, retained as int, retained as int) =~= Seq::empty());
            assert(discarded@ + Seq::<usize>::empty() =~= discarded@);
        }
        discarded
    }

    /// Makes room in a full line for a notice, without losing an answer to a
    /// command or a record that has partly left.
    pub fn preserve_outbound_for_shutdown(&mut self) -> (discarded: Discarded)
        requires
            old(self)@.wf(),
        ensures
            final(self)@.wf(),
            final(self)@ == old(self)@.line_preserved(),
            discarded == (if old(self)@.outbound.len() < OUTBOUND_CAPACITY {
                None
            } else {
                match old(self)@.expendable(old(self)@.outbound.len() as int) {
                    None => None,
                    Some(index) => if old(self)@.outbound[index].counted() {
                        Some(index as usize)
                    } else {
                        None
                    },
                }
            }),
    {
        if self.outbound.len() < OUTBOUND_CAPACITY {
            return None;
        }
        let mut end: usize = self.outbound.len();
        while end > 0
            invariant
                self@ == old(self)@,
                self@.wf(),
                self@.outbound.len() >= OUTBOUND_CAPACITY,
                end <= self.outbound.len(),
                self@.expendable(self@.outbound.len() as int) == self@.expendable(end as int),
            decreases end,
        {
            let index: usize = end - 1;
            proof {
                assert(self@.outbound[index as int] == self.outbound@[index as int]@);
            }
            if !self.outbound[index].command_result && !self.outbound[index].has_left() {
                return self.discard_outbound(index);
            }
            end = index;
        }
        None
    }
}

/// The places of the records that a session counts, from the last to the
/// first, between two places of the line.
pub open spec fn counted_places<M>(peer: PeerModel<M>, from: int, to: int) -> Seq<usize>
    decreases to - from,
{
    if to <= from {
        Seq::empty()
    } else if peer.outbound[to - 1].counted() {
        seq![(to - 1) as usize] + counted_places(peer, from, to - 1)
    } else {
        counted_places(peer, from, to - 1)
    }
}

/// The client with a line of its own.
pub open spec fn with_line<M>(peer: PeerModel<M>, outbound: Seq<OutboundModel>) -> PeerModel<M> {
    PeerModel { outbound, ..peer }
}

/// A line in which the session counts every record is counted record by record.
proof fn lemma_all_counted<M>(peer: PeerModel<M>)
    requires
        forall|i: int| 0 <= i < peer.outbound.len() ==> (#[trigger] peer.outbound[i]).counted(),
    ensures
        peer.counted_lengths().len() == peer.outbound.len(),
    decreases peer.outbound.len(),
{
    if peer.outbound.len() > 0 {
        let shorter = with_line(peer, peer.outbound.drop_last());
        assert forall|i: int| 0 <= i < shorter.outbound.len() implies (
        #[trigger] shorter.outbound[i]).counted() by {
            assert(shorter.outbound[i] == peer.outbound[i]);
        }
        lemma_all_counted(shorter);
        assert(peer.outbound.last() == peer.outbound[peer.outbound.len() - 1]);
    }
}

/// What a session counts follows the line: it grows by a record that is put in
/// line, and loses the record at the place that the session is told, where the
/// session counts all that stands before it.
pub proof fn the_count_follows_the_line<M>(
    peer: PeerModel<M>,
    message: MessageModel,
    accounting: Accounting,
    index: int,
)
    requires
        0 <= index < peer.outbound.len(),
        forall|i: int| 0 <= i <= index ==> (#[trigger] peer.outbound[i]).counted(),
    ensures
        peer.with_record(message, accounting).counted_lengths() == (if outbound_of(
            message,
            peer.web,
            accounting,
        ).counted() {
            peer.counted_lengths().push(message.bytes.len())
        } else {
            peer.counted_lengths()
        }),
        index < peer.counted_lengths().len(),
        peer.counted_lengths()[index] == peer.outbound[index].write.bytes.len(),
        peer.without_record(index).counted_lengths() == peer.counted_lengths().remove(index),
    decreases peer.outbound.len(),
{
    let longer = peer.with_record(message, accounting);
    assert(longer.outbound.drop_last() =~= peer.outbound);
    let shorter = with_line(peer, peer.outbound.drop_last());
    let last = peer.outbound.last();
    if index == peer.outbound.len() - 1 {
        assert forall|i: int| 0 <= i < shorter.outbound.len() implies (
        #[trigger] shorter.outbound[i]).counted() by {
            assert(shorter.outbound[i] == peer.outbound[i]);
        }
        lemma_all_counted(shorter);
        assert(last == peer.outbound[index]);
        assert(peer.without_record(index).outbound =~= shorter.outbound);
        assert(peer.counted_lengths().remove(index) =~= shorter.counted_lengths());
    } else {
        assert forall|i: int| 0 <= i <= index implies (
        #[trigger] shorter.outbound[i]).counted() by {
            assert(shorter.outbound[i] == peer.outbound[i]);
        }
        the_count_follows_the_line(shorter, message, accounting, index);
        let without = peer.without_record(index);
        assert(without.outbound.drop_last() =~= shorter.without_record(index).outbound);
        assert(without.outbound.last() == last);
        assert(with_line(without, without.outbound.drop_last()) == shorter.without_record(index));
        if last.counted() {
            assert(shorter.counted_lengths().push(last.write.bytes.len()).remove(index)
                =~= shorter.counted_lengths().remove(index).push(last.write.bytes.len()));
        }
    }
}

} // verus!
