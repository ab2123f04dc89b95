//! How a client moves from its handshake to its end: what is read from it,
//! what it is told, and in what order records go out to it.

use vstd::prelude::*;

use crate::session_peer;
use crate::session_peer::{
    Accounting, MessageModel, OutboundMessage, Peer, PeerModel, Phase, INBOUND_CAPACITY,
    OUTBOUND_CAPACITY,
};
use crate::session_record;

verus! {

/// What the wire of a client gave.
pub enum ReadEvent<M> {
    /// The client has ended its side.
    Ended,
    /// Bytes that complete these messages.
    Decoded(Vec<M>),
    /// Bytes that are no messages.
    Malformed,
    /// Nothing for now.
    Pending,
    /// The wire is gone.
    Failed,
}

/// What the thread of a browser gave.
pub enum WebPoll<M> {
    Message(M),
    Empty,
    Disconnected,
}

/// What to do after a look at the thread of a browser.
#[derive(Clone, Copy, Debug, PartialEq, Eq, Structural)]
pub enum WebReadStep {
    Again,
    Stop,
    Close,
}

/// What a message of a client asks for.
#[derive(Clone, Copy, Debug, PartialEq, Eq, Structural)]
pub enum MessageKind {
    HandshakeRequest,
    Command,
    Heartbeat,
    DiagnosticsRequest,
    Other,
}

/// What to do about a message of a client.
#[derive(Clone, Copy, Debug, PartialEq, Eq, Structural)]
pub enum DispatchStep {
    /// Introduce the client.
    Handshake,
    /// Answer that a handshake has to come first, and close.
    RequireHandshake,
    /// Execute the command.
    Execute,
    /// Record the heartbeat.
    RecordHeartbeat,
    /// Admit the request for diagnostics.
    AdmitDiagnostics,
    /// Answer that the message is not expected.
    RejectUnexpected,
}

/// Who has to stop over a failure.
#[derive(Clone, Copy, Debug, PartialEq, Eq, Structural)]
pub enum DispatchError {
    Peer,
    Daemon,
}

/// The code and the text of an error that a client is told.
#[derive(Clone, Copy, Debug, PartialEq, Eq)]
pub struct ProtocolError {
    pub code: &'static str,
    pub message: &'static str,
}

/// What comes of a message, going by how far its client has come.
pub open spec fn dispatched(phase: Phase, kind: MessageKind) -> DispatchStep {
    if phase is AwaitHandshake {
        if kind is HandshakeRequest {
            DispatchStep::Handshake
        } else {
            DispatchStep::RequireHandshake
        }
    } else {
        match kind {
            MessageKind::Command => DispatchStep::Execute,
            MessageKind::Heartbeat => DispatchStep::RecordHeartbeat,
            MessageKind::DiagnosticsRequest => DispatchStep::AdmitDiagnostics,
            _ => DispatchStep::RejectUnexpected,
        }
    }
}

/// Returns what to do about a message.
pub fn dispatch(phase: Phase, kind: MessageKind) -> (step: DispatchStep)
    ensures
        step == dispatched(phase, kind),
{
    match phase {
        Phase::AwaitHandshake => match kind {
            MessageKind::HandshakeRequest => DispatchStep::Handshake,
            _ => DispatchStep::RequireHandshake,
        },
        _ => match kind {
            MessageKind::Command => DispatchStep::Execute,
            MessageKind::Heartbeat => DispatchStep::RecordHeartbeat,
            MessageKind::DiagnosticsRequest => DispatchStep::AdmitDiagnostics,
            _ => DispatchStep::RejectUnexpected,
        },
    }
}

/// Returns what a client is told that says something before its handshake.
pub fn handshake_required() -> (error: ProtocolError)
    ensures
        error.code@ == "handshake_required"@,
        error.message@ == "first message must be handshake_request"@,
{
    ProtocolError {
        code: "handshake_required",
        message: "first message must be handshake_request",
    }
}

/// Returns what a client is told that says something it may not.
pub fn unexpected_message() -> (error: ProtocolError)
    ensures
        error.code@ == "unexpected_message"@,
        error.message@
            == "only command and heartbeat messages are accepted after the handshake"@,
{
    ProtocolError {
        code: "unexpected_message",
        message: "only command and heartbeat messages are accepted after the handshake",
    }
}

/// Returns the code of what a client is told whose heartbeat is not right.
pub fn invalid_heartbeat() -> (code: &'static str)
    ensures
        code@ == "invalid_heartbeat"@,
{
    "invalid_heartbeat"
}

/// Returns who has to stop over a command that failed: its client, where the
/// failure ends only the session.
pub fn command_failure(ends_session: bool) -> (error: DispatchError)
    ensures
        error == (if ends_session {
            DispatchError::Peer
        } else {
            DispatchError::Daemon
        }),
{
    if ends_session {
        DispatchError::Peer
    } else {
        DispatchError::Daemon
    }
}

/// An answer that turns a client away.
#[derive(Debug)]
pub struct RejectedHandshake {
    pub code: String,
    pub message: String,
    pub retryable: bool,
}

/// What a client is told of its handshake.
#[derive(Debug)]
pub enum HandshakeOutcome {
    Accepted,
    Rejected(RejectedHandshake),
}

/// What an answer says that turns a client away.
#[verifier::ext_equal]
pub struct RejectionModel {
    pub code: Seq<char>,
    pub message: Seq<char>,
    pub retryable: bool,
}

impl View for RejectedHandshake {
    type V = RejectionModel;

    open spec fn view(&self) -> RejectionModel {
        RejectionModel {
            code: self.code@,
            message: self.message@,
            retryable: self.retryable,
        }
    }
}

/// What the answer to a handshake says.
#[verifier::ext_equal]
pub enum OutcomeModel {
    Accepted,
    Rejected(RejectionModel),
}

impl View for HandshakeOutcome {
    type V = OutcomeModel;

    open spec fn view(&self) -> OutcomeModel {
        match self {
            HandshakeOutcome::Accepted => OutcomeModel::Accepted,
            HandshakeOutcome::Rejected(rejected) => OutcomeModel::Rejected(rejected@),
        }
    }
}

/// Lets a client that was turned away try again.
pub fn make_retryable(outcome: HandshakeOutcome) -> (retryable: HandshakeOutcome)
    ensures
        match outcome {
            HandshakeOutcome::Accepted => retryable is Accepted,
            HandshakeOutcome::Rejected(rejected) => {
                &&& retryable is Rejected
                &&& retryable->Rejected_0.code == rejected.code
                &&& retryable->Rejected_0.message == rejected.message
                &&& retryable->Rejected_0.retryable
            },
        },
{
    match outcome {
        HandshakeOutcome::Accepted => HandshakeOutcome::Accepted,
        HandshakeOutcome::Rejected(rejected) => HandshakeOutcome::Rejected(
            RejectedHandshake {
                code: rejected.code,
                message: rejected.message,
                retryable: true,
            },
        ),
    }
}

/// The answer to a handshake, given what the server said of it and what came of
/// the subscription. A refusal of the server goes out under its own code. A
/// subscription that fails turns the client away as unavailable, and lets it
/// try again.
pub open spec fn greeted(
    server: Result<(), RejectionModel>,
    subscribed: Result<(), Seq<char>>,
) -> OutcomeModel {
    match server {
        Err(refusal) => OutcomeModel::Rejected(refusal),
        Ok(_) => match subscribed {
            Err(message) => OutcomeModel::Rejected(
                RejectionModel { code: "unavailable"@, message, retryable: true },
            ),
            Ok(_) => OutcomeModel::Accepted,
        },
    }
}

/// Returns the answer to a handshake, given what the server said of it and, where it let the
/// client in, what came of the subscription.
pub fn handshake_outcome(
    server: Result<(), RejectedHandshake>,
    subscribed: Result<(), String>,
) -> (outcome: HandshakeOutcome)
    ensures
        outcome@ == greeted(
            match server {
                Ok(_) => Ok::<(), RejectionModel>(()),
                Err(refusal) => Err(refusal@),
            },
            match subscribed {
                Ok(_) => Ok::<(), Seq<char>>(()),
                Err(message) => Err(message@),
            },
        ),
{
    match server {
        Err(refusal) => HandshakeOutcome::Rejected(refusal),
        Ok(()) => match subscribed {
            Err(message) => make_retryable(
                HandshakeOutcome::Rejected(
                    RejectedHandshake {
                        code: String::from_str("unavailable"),
                        message,
                        retryable: false,
                    },
                ),
            ),
            Ok(()) => HandshakeOutcome::Accepted,
        },
    }
}

/// A client is let in only where the server and its subscription both take it; one that is
/// turned away for want of a subscription may always try again.
pub proof fn only_accepted_clients_are_let_in(
    server: Result<(), RejectionModel>,
    subscribed: Result<(), Seq<char>>,
)
    ensures
        greeted(server, subscribed) is Accepted <==> server is Ok && subscribed is Ok,
        server is Ok && subscribed is Err ==> (greeted(server, subscribed) matches
            OutcomeModel::Rejected(rejected) && rejected.retryable),
        server is Err ==> greeted(server, subscribed) == OutcomeModel::Rejected(server->Err_0),
{
}

/// What a client is told of its heartbeat.
#[derive(Debug)]
pub enum HeartbeatAnswer {
    /// It was recorded at this time.
    Acknowledged { sequence: u64, received_at_ms: u64 },
    /// It is not right.
    Refused { code: &'static str, message: String },
}

/// What the answer to a heartbeat says.
#[verifier::ext_equal]
pub enum HeartbeatModel {
    Acknowledged { sequence: u64, received_at_ms: u64 },
    Refused { code: Seq<char>, message: Seq<char> },
}

impl View for HeartbeatAnswer {
    type V = HeartbeatModel;

    open spec fn view(&self) -> HeartbeatModel {
        match self {
            HeartbeatAnswer::Acknowledged { sequence, received_at_ms } =>
                HeartbeatModel::Acknowledged {
                sequence: *sequence,
                received_at_ms: *received_at_ms,
            },
            HeartbeatAnswer::Refused { code, message } => HeartbeatModel::Refused {
                code: code@,
                message: message@,
            },
        }
    }
}

/// Returns the answer to the heartbeat of this sequence, given when its session recorded it,
/// or why it did not.
pub fn heartbeat_answer(sequence: u64, recorded: Result<u64, String>) -> (answer: HeartbeatAnswer)
    ensures
        answer@ == (match recorded {
            Ok(received_at_ms) => HeartbeatModel::Acknowledged { sequence, received_at_ms },
            Err(message) => HeartbeatModel::Refused {
                code: "invalid_heartbeat"@,
                message: message@,
            },
        }),
{
    match recorded {
        Ok(received_at_ms) => HeartbeatAnswer::Acknowledged { sequence, received_at_ms },
        Err(message) => HeartbeatAnswer::Refused { code: invalid_heartbeat(), message },
    }
}

/// What a client is told of its request for diagnostics.
#[derive(Debug)]
pub enum DiagnosticsAnswer<I, E> {
    /// The diagnostics themselves.
    Report,
    /// Its session does not admit the request, and says why.
    Refused { request_id: I, current_revision: u64, error: E },
}

/// The answer to a request for diagnostics. `admitted` is what its session said of it, and is
/// missing where the request cannot be encoded again or the time cannot be told; `reported` is
/// whether the diagnostics could be taken. Where there is no answer, the client has to stop.
pub open spec fn diagnosed<I, E>(
    request_id: I,
    current_revision: u64,
    admitted: Option<Result<(), E>>,
    reported: bool,
) -> Result<DiagnosticsAnswer<I, E>, DispatchError> {
    match admitted {
        None => Err(DispatchError::Peer),
        Some(Err(error)) => Ok(DiagnosticsAnswer::Refused { request_id, current_revision, error }),
        Some(Ok(_)) => if reported {
            Ok(DiagnosticsAnswer::Report)
        } else {
            Err(DispatchError::Peer)
        },
    }
}

/// Returns the answer to a request for diagnostics.
pub fn diagnostics_answer<I, E>(
    request_id: I,
    current_revision: u64,
    admitted: Option<Result<(), E>>,
    reported: bool,
) -> (answer: Result<DiagnosticsAnswer<I, E>, DispatchError>)
    ensures
        answer == diagnosed(request_id, current_revision, admitted, reported),
{
    match admitted {
        None => Err(DispatchError::Peer),
        Some(Err(error)) => Ok(DiagnosticsAnswer::Refused { request_id, current_revision, error }),
        Some(Ok(())) => if reported {
            Ok(DiagnosticsAnswer::Report)
        } else {
            Err(DispatchError::Peer)
        },
    }
}

impl<M> PeerModel<M> {
    /// Whether a message that waits may be answered now.
    pub open spec fn answers(self) -> bool {
        self.phase is AwaitHandshake || self.phase is Active
    }

    /// The client and the message to answer next.
    pub open spec fn next_message(self) -> (Self, Option<M>) {
        if self.answers() && self.inbound.len() > 0 {
            (
                PeerModel { inbound: self.inbound.drop_first(), ..self },
                Some(self.inbound.first()),
            )
        } else {
            (self, None)
        }
    }

    /// What comes of what its wire gave: messages that do not all find a place
    /// close the client.
    pub open spec fn read(self, event: ReadEvent<M>) -> (Self, bool) {
        match event {
            ReadEvent::Ended => (self, true),
            ReadEvent::Decoded(messages) => if self.inbound.len() + messages@.len()
                <= INBOUND_CAPACITY {
                (PeerModel { inbound: self.inbound + messages@, ..self }, false)
            } else {
                (self, true)
            },
            ReadEvent::Malformed => (self, true),
            ReadEvent::Pending => (self, false),
            ReadEvent::Failed => (self, true),
        }
    }

    /// What comes of a look at the thread of a browser.
    pub open spec fn read_web(self, poll: WebPoll<M>) -> (Self, WebReadStep) {
        match poll {
            WebPoll::Message(message) => (
                PeerModel { inbound: self.inbound.push(message), ..self },
                if self.inbound.len() + 1 < INBOUND_CAPACITY {
                    WebReadStep::Again
                } else {
                    WebReadStep::Stop
                },
            ),
            WebPoll::Empty => (self, WebReadStep::Stop),
            WebPoll::Disconnected => (self, WebReadStep::Close),
        }
    }

    /// What comes of moving one message of the first sync into the line.
    pub open spec fn fed(self, admitted: bool) -> (Self, Result<bool, ()>) {
        if self.outbound.len() >= OUTBOUND_CAPACITY || self.initial_sync.len() == 0 {
            (self, Ok(false))
        } else {
            let popped = PeerModel { initial_sync: self.initial_sync.drop_first(), ..self };
            let (after, result) = popped.queued(
                Some(self.initial_sync.first()),
                Accounting::Session,
                admitted,
            );
            match result {
                Ok(()) => (after, Ok(true)),
                Err(()) => (after, Err(())),
            }
        }
    }

    /// What comes of telling the client something and closing it after that.
    pub open spec fn closing_after(self, message: Option<MessageModel>) -> (
        Self,
        Result<(), ()>,
    ) {
        let (after, result) = self.queued(message, Accounting::Raw, false);
        match result {
            Ok(()) => (PeerModel { phase: Phase::Closing, ..after }, Ok(())),
            Err(()) => (after, Err(())),
        }
    }

    /// The client with a newer meter record, where it gets any.
    pub open spec fn metered(self, bytes: Seq<u8>) -> Self {
        if self.audio_meters && self.phase is Active {
            PeerModel { latest_meter: self.latest_meter.replaced(bytes), ..self }
        } else {
            self
        }
    }

    /// The client with a newer record of the streams, where it gets any.
    pub open spec fn stream_reported(self, bytes: Seq<u8>) -> Self {
        if self.stream_status && self.phase is Active {
            PeerModel {
                latest_stream_status: self.latest_stream_status.replaced(bytes),
                ..self
            }
        } else {
            self
        }
    }

    /// The client without the latest records that have not started to go out.
    pub open spec fn without_unstarted(self) -> Self {
        PeerModel {
            latest_meter: self.latest_meter.only_started(),
            latest_stream_status: self.latest_stream_status.only_started(),
            ..self
        }
    }

    /// The client that is accepted, with what it is sent first.
    pub open spec fn accepted(self, sync: Seq<MessageModel>, studio: bool) -> Self {
        PeerModel {
            initial_sync: self.initial_sync + sync,
            session: true,
            subscribed: true,
            audio_meters: !self.web && studio,
            stream_status: !self.web && studio,
            ..self
        }
    }

    /// What comes of a handshake that its server and control accepted. A
    /// first sync over what is retained, or an answer that finds no place,
    /// ends the client and its subscription.
    pub open spec fn welcomed(
        self,
        sync: Seq<MessageModel>,
        retained_events: usize,
        response: Option<MessageModel>,
        admitted: bool,
        studio: bool,
    ) -> (Self, Result<(), DispatchError>) {
        let limit = if retained_events >= 1 {
            retained_events as int
        } else {
            1
        };
        if self.initial_sync.len() + sync.len() > limit {
            (
                PeerModel { initial_sync: self.initial_sync + sync, ..self },
                Err(DispatchError::Peer),
            )
        } else {
            let (after, result) = self.accepted(sync, studio).queued(
                response,
                Accounting::Session,
                admitted,
            );
            match result {
                Ok(()) => (PeerModel { phase: Phase::Syncing, ..after }, Ok(())),
                Err(()) => (
                    PeerModel { subscribed: false, ..after },
                    Err(DispatchError::Peer),
                ),
            }
        }
    }

    /// Whether a live event may be given to the client now.
    pub open spec fn takes_live(self, closing: bool, budget: usize) -> bool {
        !closing && self.phase is Active && budget > 0 && self.outbound.len() < OUTBOUND_CAPACITY
    }
}

/// Moving a client's models does not depend on how its lists were made.
proof fn lemma_tail_views(messages: Seq<OutboundMessage>)
    requires
        messages.len() > 0,
    ensures
        session_peer::message_views(messages.remove(0)) == session_peer::message_views(
            messages,
        ).drop_first(),
        session_peer::message_views(messages).first() == messages[0]@,
{
    assert(session_peer::message_views(messages.remove(0)) =~= session_peer::message_views(
        messages,
    ).drop_first());
}

impl<M> Peer<M> {
    /// Returns the message to answer next, if there is one.
    pub fn next_message(&mut self) -> (message: Option<M>)
        requires
            old(self)@.wf(),
        ensures
            final(self)@.wf(),
            (final(self)@, message) == old(self)@.next_message(),
    {
        match self.phase {
            Phase::AwaitHandshake | Phase::Active => {},
            Phase::Syncing | Phase::Closing => {
                return None;
            },
        }
        if self.inbound.len() == 0 {
            return None;
        }
        let message = self.inbound.remove(0);
        proof {
            assert(self@.inbound =~= old(self)@.inbound.drop_first());
        }
        Some(message)
    }

    /// Takes in what the wire of the client gave. Returns whether the client
    /// is to be closed.
    pub fn read_peer(&mut self, event: ReadEvent<M>) -> (close: bool)
        requires
            old(self)@.wf(),
        ensures
            final(self)@.wf(),
            (final(self)@, close) == old(self)@.read(event),
    {
        match event {
            ReadEvent::Ended => true,
            ReadEvent::Decoded(messages) => {
                let mut messages = messages;
                if messages.len() <= INBOUND_CAPACITY - self.inbound.len() {
                    self.inbound.append(&mut messages);
                    false
                } else {
                    true
                }
            },
            ReadEvent::Malformed => true,
            ReadEvent::Pending => false,
            ReadEvent::Failed => true,
        }
    }

    /// Returns whether the thread of a browser may be looked at.
    pub fn reads_web(&self) -> (reads: bool)
        requires
            self@.wf(),
        ensures
            reads == (self@.inbound.len() < INBOUND_CAPACITY),
    {
        self.inbound.len() < INBOUND_CAPACITY
    }

    /// Takes in what the thread of a browser gave.
    pub fn read_web(&mut self, poll: WebPoll<M>) -> (step: WebReadStep)
        requires
            old(self)@.wf(),
            old(self)@.inbound.len() < INBOUND_CAPACITY,
        ensures
            final(self)@.wf(),
            (final(self)@, step) == old(self)@.read_web(poll),
    {
        match poll {
            WebPoll::Message(message) => {
                self.inbound.push(message);
                if self.inbound.len() < INBOUND_CAPACITY {
                    WebReadStep::Again
                } else {
                    WebReadStep::Stop
                }
            },
            WebPoll::Empty => WebReadStep::Stop,
            WebPoll::Disconnected => WebReadStep::Close,
        }
    }

    /// Returns whether a client is to be closed after it was read: its wire
    /// said so, its handshake is late, its session is not alive, or its
    /// subscription has failed.
    pub fn is_over(
        &self,
        read_closed: bool,
        now_ms: u64,
        session_alive: bool,
        subscription_failed: bool,
    ) -> (over: bool)
        ensures
            over == {
                ||| read_closed
                ||| self@.phase is AwaitHandshake && now_ms >= self@.handshake_deadline_ms
                ||| self@.session && !session_alive
                ||| self@.subscribed && subscription_failed
            },
    {
        let late = match self.phase {
            Phase::AwaitHandshake => now_ms >= self.handshake_deadline_ms,
            _ => false,
        };
        read_closed || late || (self.session && !session_alive) || (self.subscribed
            && subscription_failed)
    }

    /// Returns the length of the next message of the first sync, where the
    /// line has a place for it.
    pub fn next_sync_length(&self) -> (length: Option<usize>)
        requires
            self@.wf(),
        ensures
            length == (if self@.outbound.len() >= OUTBOUND_CAPACITY || self@.initial_sync.len()
                == 0 {
                None::<usize>
            } else {
                Some(self@.initial_sync.first().bytes.len() as usize)
            }),
    {
        if self.outbound.len() >= OUTBOUND_CAPACITY || self.initial_sync.len() == 0 {
            return None;
        }
        let length: usize = self.initial_sync[0].bytes.len();
        proof {
            assert(self@.initial_sync[0] == self.initial_sync@[0]@);
        }
        Some(length)
    }

    /// Moves one message of the first sync into the line, where it has a
    /// place for it. Returns whether one was moved.
    pub fn feed_initial_sync(&mut self, admitted: bool) -> (moved: Result<bool, ()>)
        requires
            old(self)@.wf(),
            old(self)@.phase is Syncing,
        ensures
            final(self)@.wf(),
            (final(self)@, moved) == old(self)@.fed(admitted),
    {
        if self.outbound.len() >= OUTBOUND_CAPACITY || self.initial_sync.len() == 0 {
            return Ok(false);
        }
        let ghost before = self@;
        proof {
            lemma_tail_views(self.initial_sync@);
        }
        let message = self.initial_sync.remove(0);
        proof {
            assert(self@ =~= (PeerModel {
                initial_sync: before.initial_sync.drop_first(),
                ..before
            }));
        }
        match self.queue(Some(message), Accounting::Session, admitted) {
            Ok(()) => Ok(true),
            Err(()) => Err(()),
        }
    }

    /// Puts the answer to a message of an active client in line. `admitted` is
    /// what its session said of the record, where it was asked.
    pub fn queue_answer(&mut self, message: Option<OutboundMessage>, admitted: bool) -> (result:
        Result<(), DispatchError>)
        requires
            old(self)@.wf(),
            old(self)@.phase is Active,
        ensures
            final(self)@.wf(),
            final(self)@ == old(self)@.queued(
                match message {
                    None => None,
                    Some(message) => Some(message@),
                },
                Accounting::Session,
                admitted,
            ).0,
            result == (match old(self)@.queued(
                match message {
                    None => None,
                    Some(message) => Some(message@),
                },
                Accounting::Session,
                admitted,
            ).1 {
                Ok(_) => Ok::<(), DispatchError>(()),
                Err(_) => Err(DispatchError::Peer),
            }),
    {
        match self.queue(message, Accounting::Session, admitted) {
            Ok(()) => Ok(()),
            Err(()) => Err(DispatchError::Peer),
        }
    }

    /// Tells the client something and closes it after that.
    pub fn close_after(&mut self, message: Option<OutboundMessage>) -> (result: Result<(), ()>)
        requires
            old(self)@.wf(),
        ensures
            final(self)@.wf(),
            (final(self)@, result) == old(self)@.closing_after(
                match message {
                    None => None,
                    Some(message) => Some(message@),
                },
            ),
    {
        match self.queue(message, Accounting::Raw, false) {
            Ok(()) => {
                self.phase = Phase::Closing;
                Ok(())
            },
            Err(()) => Err(()),
        }
    }

    /// Gives the client a newer meter record, where it gets any.
    pub fn replace_meter(&mut self, bytes: Vec<u8>)
        requires
            old(self)@.wf(),
        ensures
            final(self)@.wf(),
            final(self)@ == old(self)@.metered(bytes@),
    {
        if self.audio_meters {
            if let Phase::Active = self.phase {
                self.latest_meter.replace(bytes);
            }
        }
    }

    /// Gives the client a newer record of the streams, where it gets any. It
    /// has a place of its own, so that neither kind of record can evict the
    /// other.
    pub fn replace_stream_status(&mut self, bytes: Vec<u8>)
        requires
            old(self)@.wf(),
        ensures
            final(self)@.wf(),
            final(self)@ == old(self)@.stream_reported(bytes@),
    {
        if self.stream_status {
            if let Phase::Active = self.phase {
                self.latest_stream_status.replace(bytes);
            }
        }
    }

    /// Drops latest records that never reached the wire, so that a shutdown
    /// cannot flush them after its goodbye; one that has started keeps going
    /// out.
    pub fn discard_unstarted_lossy_records(&mut self)
        requires
            old(self)@.wf(),
        ensures
            final(self)@.wf(),
            final(self)@ == old(self)@.without_unstarted(),
    {
        self.latest_meter.discard_unstarted();
        self.latest_stream_status.discard_unstarted();
    }

    /// Takes in a handshake that the server and the control accepted: what the
    /// client is sent first, how many events are retained, the answer and what
    /// the new session said of it, and whether the client is a studio.
    pub fn welcome(
        &mut self,
        sync: Vec<OutboundMessage>,
        retained_events: usize,
        response: Option<OutboundMessage>,
        admitted: bool,
        studio: bool,
    ) -> (result: Result<(), DispatchError>)
        requires
            old(self)@.wf(),
            old(self)@.phase is AwaitHandshake,
            old(self)@.initial_sync.len() + sync@.len() <= usize::MAX,
        ensures
            final(self)@.wf(),
            (final(self)@, result) == old(self)@.welcomed(
                session_peer::message_views(sync@),
                retained_events,
                match response {
                    None => None,
                    Some(response) => Some(response@),
                },
                admitted,
                studio,
            ),
    {
        let ghost before = self@;
        let limit: usize = if retained_events >= 1 {
            retained_events
        } else {
            1
        };
        let mut sync = sync;
        let ghost sent = sync@;
        let ghost waiting = self.initial_sync@;
        self.initial_sync.append(&mut sync);
        proof {
            assert(session_peer::message_views(waiting + sent) =~= session_peer::message_views(
                waiting,
            ) + session_peer::message_views(sent));
            assert(self@ =~= (PeerModel {
                initial_sync: before.initial_sync + session_peer::message_views(sent),
                ..before
            }));
        }
        if self.initial_sync.len() > limit {
            return Err(DispatchError::Peer);
        }
        self.session = true;
        self.subscribed = true;
        self.audio_meters = !self.web && studio;
        self.stream_status = self.audio_meters;
        proof {
            assert(self@ =~= before.accepted(session_peer::message_views(sent), studio));
        }
        match self.queue(response, Accounting::Session, admitted) {
            Ok(()) => {
                self.phase = Phase::Syncing;
                Ok(())
            },
            Err(()) => {
                self.subscribed = false;
                Err(DispatchError::Peer)
            },
        }
    }

    /// Returns whether a live event may be given to the client now.
    pub fn takes_live(&self, closing: bool, budget: usize) -> (takes: bool)
        requires
            self@.wf(),
        ensures
            takes == self@.takes_live(closing, budget),
    {
        match self.phase {
            Phase::Active => !closing && budget > 0 && self.outbound.len() < OUTBOUND_CAPACITY,
            _ => false,
        }
    }
}

/// What the subscription of a client gave.
pub enum LivePoll {
    /// An event, in the form in which it goes out, where it has one.
    Event(Option<OutboundMessage>),
    Empty,
    Disconnected,
}

/// What to do after a look at the subscription of a client.
#[derive(Clone, Copy, Debug, PartialEq, Eq, Structural)]
pub enum LiveStep {
    /// Look again, with what is left of the pass.
    Again(usize),
    /// The client has all there is.
    Stop,
    /// Close the client.
    Close,
}

impl<M> PeerModel<M> {
    /// What comes of a look at its subscription.
    pub open spec fn live(self, poll: Option<Option<MessageModel>>, gone: bool, budget: usize, admitted: bool) -> (
        Self,
        LiveStep,
    ) {
        match poll {
            None => (self, if gone { LiveStep::Close } else { LiveStep::Stop }),
            Some(message) => {
                let (after, result) = self.queued(message, Accounting::Session, admitted);
                match result {
                    Ok(()) => (after, LiveStep::Again((budget - 1) as usize)),
                    Err(()) => (after, LiveStep::Close),
                }
            },
        }
    }
}

impl<M> Peer<M> {
    /// Takes in what the subscription of the client gave.
    pub fn drain_live(&mut self, poll: LivePoll, budget: usize, admitted: bool) -> (step: LiveStep)
        requires
            old(self)@.wf(),
            old(self)@.takes_live(false, budget),
        ensures
            final(self)@.wf(),
            (final(self)@, step) == old(self)@.live(
                match poll {
                    LivePoll::Event(message) => Some(
                        match message {
                            None => None,
                            Some(message) => Some(message@),
                        },
                    ),
                    _ => None,
                },
                poll is Disconnected,
                budget,
                admitted,
            ),
    {
        match poll {
            LivePoll::Empty => LiveStep::Stop,
            LivePoll::Disconnected => LiveStep::Close,
            LivePoll::Event(message) => {
                match self.queue(message, Accounting::Session, admitted) {
                    Ok(()) => LiveStep::Again(budget - 1),
                    Err(()) => LiveStep::Close,
                }
            },
        }
    }
}

/// Whether every client is in order.
pub open spec fn all_in_order<M>(peers: Seq<Peer<M>>) -> bool {
    forall|i: int| 0 <= i < peers.len() ==> (#[trigger] peers[i])@.wf()
}

/// Gives every client a newer meter record, where it gets any. A record that
/// does not encode is given to none.
pub fn publish_audio_meters<M>(peers: &mut Vec<Peer<M>>, bytes: Option<&[u8]>)
    requires
        all_in_order(old(peers)@),
    ensures
        all_in_order(final(peers)@),
        final(peers)@.len() == old(peers)@.len(),
        forall|i: int|
            0 <= i < old(peers)@.len() ==> (#[trigger] final(peers)@[i])@ == match bytes {
                None => old(peers)@[i]@,
                Some(bytes) => old(peers)@[i]@.metered(bytes@),
            },
{
    let bytes = match bytes {
        None => {
            return;
        },
        Some(bytes) => bytes,
    };
    let mut index: usize = 0;
    while index < peers.len()
        invariant
            index <= peers.len(),
            peers@.len() == old(peers)@.len(),
            all_in_order(peers@),
            forall|i: int|
                0 <= i < index ==> (#[trigger] peers@[i])@ == old(peers)@[i]@.metered(bytes@),
            forall|i: int| index <= i < peers@.len() ==> (#[trigger] peers@[i]) == old(peers)@[i],
        decreases peers.len() - index,
    {
        let copy = session_record::copied(bytes);
        let peer = &mut peers[index];
        peer.replace_meter(copy);
        index = index + 1;
    }
}

/// Gives every client a newer record of the streams, where it gets any. A
/// record that does not encode is given to none.
pub fn publish_stream_status<M>(peers: &mut Vec<Peer<M>>, bytes: Option<&[u8]>)
    requires
        all_in_order(old(peers)@),
    ensures
        all_in_order(final(peers)@),
        final(peers)@.len() == old(peers)@.len(),
        forall|i: int|
            0 <= i < old(peers)@.len() ==> (#[trigger] final(peers)@[i])@ == match bytes {
                None => old(peers)@[i]@,
                Some(bytes) => old(peers)@[i]@.stream_reported(bytes@),
            },
{
    let bytes = match bytes {
        None => {
            return;
        },
        Some(bytes) => bytes,
    };
    let mut index: usize = 0;
    while index < peers.len()
        invariant
            index <= peers.len(),
            peers@.len() == old(peers)@.len(),
            all_in_order(peers@),
            forall|i: int|
                0 <= i < index ==> (#[trigger] peers@[i])@ == old(peers)@[i]@.stream_reported(
                    bytes@,
                ),
            forall|i: int| index <= i < peers@.len() ==> (#[trigger] peers@[i]) == old(peers)@[i],
        decreases peers.len() - index,
    {
        let copy = session_record::copied(bytes);
        let peer = &mut peers[index];
        peer.replace_stream_status(copy);
        index = index + 1;
    }
}

/// What the first sync and the line hold together goes out in one order:
/// moving a message from one to the other changes nothing of it.
pub proof fn sync_goes_out_in_order<M>(peer: PeerModel<M>, admitted: bool)
    requires
        peer.wf(),
    ensures
        peer.fed(admitted).1 is Ok ==> peer.fed(admitted).0.line() + peer.fed(
            admitted,
        ).0.sync_line() == peer.line() + peer.sync_line(),
        peer.fed(admitted).1 == Ok::<bool, ()>(true) ==> peer.fed(admitted).0.initial_sync.len()
            + 1 == peer.initial_sync.len(),
{
    let (after, result) = peer.fed(admitted);
    if result is Ok {
        assert(after.line() + after.sync_line() =~= peer.line() + peer.sync_line());
    }
}

/// The two kinds of latest records do not touch each other.
pub proof fn latest_records_keep_apart<M>(peer: PeerModel<M>, meters: Seq<u8>, status: Seq<u8>)
    ensures
        peer.metered(meters).latest_stream_status == peer.latest_stream_status,
        peer.stream_reported(status).latest_meter == peer.latest_meter,
        peer.metered(meters).stream_reported(status) == peer.stream_reported(status).metered(
            meters,
        ),
{
}

/// A browser gets no latest records: whatever its handshake says, none is ever
/// kept for it.
pub proof fn browsers_get_no_latest_records<M>(
    peer: PeerModel<M>,
    sync: Seq<MessageModel>,
    studio: bool,
    bytes: Seq<u8>,
)
    requires
        peer.web,
    ensures
        peer.accepted(sync, studio).metered(bytes) == peer.accepted(sync, studio),
        peer.accepted(sync, studio).stream_reported(bytes) == peer.accepted(sync, studio),
{
}

} // verus!
