use freemix_daemon::session_flow::{
    command_failure, diagnostics_answer, dispatch, handshake_outcome, handshake_required,
    heartbeat_answer, invalid_heartbeat, make_retryable, publish_audio_meters,
    publish_stream_status, unexpected_message, DiagnosticsAnswer, DispatchError, DispatchStep,
    HandshakeOutcome, HeartbeatAnswer, LivePoll, LiveStep, MessageKind, ReadEvent,
    RejectedHandshake, WebPoll, WebReadStep,
};
use freemix_daemon::session_pass::{
    pass_step, AskPoint, PassEvent, PassSetting, PassStage, RunEnd,
};
use freemix_daemon::session_peer::{
    Accounting, OutboundMessage, Peer, Phase, RecordKind, OUTBOUND_CAPACITY,
};
use freemix_daemon::session_record::{LatestRecord, PendingWrite, WriteEvent, WriteOutcome};
use freemix_daemon::session_write::{
    accepts_raw, accepts_web, handshake_deadline_message, next_peer_id, note_once_peer,
    once_is_over, peer_limit, raw_peer_count, remove_marked, shutdown_plan,
    web_handshake_timeout_ms, AcknowledgementPoll, DaemonShutdownReason, LossySlot, ShutdownPlan,
    ShutdownQueue, WriteChoice,
};

fn peer(id: u64, web: bool) -> Peer<u8> {
    Peer::new(id, web, 1_000, 5_000).unwrap()
}

fn message(bytes: &[u8], kind: RecordKind) -> Option<OutboundMessage> {
    Some(OutboundMessage { bytes: bytes.to_vec(), kind })
}

fn other(bytes: &[u8]) -> Option<OutboundMessage> {
    message(bytes, RecordKind::Other)
}

fn active_eligible_peer() -> Peer<u8> {
    let mut peer = peer(0, false);
    peer.phase = Phase::Active;
    peer.audio_meters = true;
    peer.stream_status = true;
    peer.session = true;
    peer.subscribed = true;
    peer
}

/// Writes to a peer as long as there is anything to write, a few bytes at a time, and gives
/// what reached the wire.
fn drain(peer: &mut Peer<u8>, step: usize) -> Vec<u8> {
    let mut wire = Vec::new();
    let lossy = |peer: &mut Peer<u8>, slot, wire: &mut Vec<u8>| {
        let record = match slot {
            LossySlot::Meter => &peer.latest_meter,
            LossySlot::StreamStatus => &peer.latest_stream_status,
        };
        let taken = record.rest().map_or(0, |rest| {
            let taken = rest.len().min(step);
            wire.extend_from_slice(&rest[..taken]);
            taken
        });
        assert_eq!(peer.write_lossy(slot, WriteEvent::Wrote(taken)), WriteOutcome::Pending);
    };
    while !peer.latest_meter.is_empty()
        || !peer.latest_stream_status.is_empty()
        || !peer.outbound.is_empty()
    {
        match peer.next_write() {
            WriteChoice::Lossy(slot) => lossy(peer, slot, &mut wire),
            WriteChoice::BothLossy => {
                lossy(peer, LossySlot::Meter, &mut wire);
                lossy(peer, LossySlot::StreamStatus, &mut wire);
            }
            WriteChoice::Front => {
                let rest = peer.outbound[0].write.rest();
                let taken = rest.len().min(step);
                wire.extend_from_slice(&rest[..taken]);
                assert_ne!(
                    peer.write_front(WriteEvent::Wrote(taken), true),
                    WriteOutcome::Failed
                );
            }
            choice => panic!("unexpected choice {choice:?}"),
        }
    }
    wire
}

#[test]
fn stream_status_and_meter_records_coexist_and_drain_independently() {
    let mut peers = vec![active_eligible_peer()];
    publish_audio_meters(&mut peers, Some(b"meters\n"));
    publish_stream_status(&mut peers, Some(b"status\n"));
    // Both slots hold their own encoded record; neither evicted the other.
    assert!(!peers[0].latest_meter.is_empty());
    assert!(!peers[0].latest_stream_status.is_empty());

    // A newer stream status replaces only the stream status slot.
    publish_stream_status(&mut peers, Some(b"newer\n"));
    assert!(!peers[0].latest_meter.is_empty());
    assert!(!peers[0].latest_stream_status.is_empty());

    assert_eq!(drain(&mut peers[0], usize::MAX), b"meters\nnewer\n");
    assert!(peers[0].latest_meter.is_empty());
    assert!(peers[0].latest_stream_status.is_empty());
}

#[test]
fn ineligible_peers_never_store_or_write_stream_status() {
    // A raw peer that did not opt in keeps both lossy slots empty.
    let mut raw = peer(0, false);
    raw.phase = Phase::Active;
    raw.session = true;
    raw.subscribed = true;
    raw.audio_meters = false;
    raw.stream_status = false;
    let mut peers = vec![raw];
    publish_stream_status(&mut peers, Some(b"status\n"));
    assert!(peers[0].latest_stream_status.is_empty());
    assert_eq!(peers[0].next_write(), WriteChoice::BothLossy);
    assert!(drain(&mut peers[0], usize::MAX).is_empty());

    // Web transports are excluded from the lossy side channel entirely.
    let mut web = peer(1, true);
    web.welcome(Vec::new(), 0, message(b"hello", RecordKind::HandshakeResponse), true, true)
        .unwrap();
    web.phase = Phase::Active;
    assert!(!web.stream_status, "web peers are not lossy-record eligible");
    let mut peers = vec![web];
    publish_stream_status(&mut peers, Some(b"status\n"));
    assert!(peers[0].latest_stream_status.is_empty());
}

#[test]
fn unstarted_lossy_records_are_discarded_for_shutdown_together() {
    let mut peers = vec![active_eligible_peer()];
    publish_audio_meters(&mut peers, Some(b"meters\n"));
    publish_stream_status(&mut peers, Some(b"status\n"));
    assert!(!peers[0].latest_meter.is_empty());
    assert!(!peers[0].latest_stream_status.is_empty());

    peers[0].discard_unstarted_lossy_records();
    assert!(peers[0].latest_meter.is_empty());
    assert!(peers[0].latest_stream_status.is_empty());
}

#[test]
fn records_that_have_started_go_out_whole() {
    let mut peer = active_eligible_peer();
    peer.replace_meter(b"first\n".to_vec());
    assert_eq!(peer.write_lossy(LossySlot::Meter, WriteEvent::Wrote(2)), WriteOutcome::Pending);
    peer.replace_meter(b"lost\n".to_vec());
    peer.replace_meter(b"last\n".to_vec());
    peer.queue(other(b"event\n"), Accounting::Session, true).unwrap();
    // The started record is finished first, the line comes next, and the newest record last.
    assert_eq!(drain(&mut peer, 3), b"rst\nevent\nlast\n");

    let mut record = LatestRecord::new();
    record.replace(b"abc".to_vec());
    record.advance(1);
    record.replace(b"d".to_vec());
    record.discard_unstarted();
    assert_eq!(record.rest(), Some(&b"bc"[..]));
    record.advance(2);
    assert!(record.is_empty());
    let mut write = PendingWrite::new(b"abc".to_vec());
    assert!(!write.started() && !write.advance(2) && write.started());
    assert_eq!(write.rest(), b"c");
    assert!(write.advance(1));
}

#[test]
fn lines_have_bounds_and_ask_the_session() {
    let mut raw = peer(0, false);
    assert_eq!(raw.queue(other(b"x"), Accounting::Session, true), Err(()));
    assert!(!raw.asks_session(Accounting::Session));
    raw.session = true;
    assert!(raw.asks_session(Accounting::Session));
    assert!(!raw.asks_session(Accounting::Raw));
    assert_eq!(raw.queue(other(b"x"), Accounting::Session, false), Err(()));
    assert_eq!(raw.queue(None, Accounting::Raw, true), Err(()));
    for _ in 0..OUTBOUND_CAPACITY {
        assert_eq!(raw.queue(other(b"x"), Accounting::Session, true), Ok(()));
    }
    assert_eq!(raw.queue(other(b"x"), Accounting::Raw, true), Err(()));
    assert_eq!(raw.discard_outbound(31), Some(31));
    assert_eq!(raw.discard_outbound(31), None);
    assert_eq!(raw.outbound.len(), 31);
}

#[test]
fn peers_are_welcomed_synced_and_activated() {
    let mut peer = peer(4, false);
    assert_eq!(peer.next_sync_length(), None);
    let sync = vec![other(b"one").unwrap(), other(b"two!").unwrap()];
    peer.welcome(sync, 2, message(b"hi", RecordKind::HandshakeResponse), true, true).unwrap();
    assert_eq!(peer.phase, Phase::Syncing);
    assert!(peer.session && peer.subscribed && peer.audio_meters && peer.stream_status);
    assert_eq!(peer.next_sync_length(), Some(3));
    assert_eq!(peer.feed_initial_sync(true), Ok(true));
    assert_eq!(peer.feed_initial_sync(false), Err(()));
    assert!(!peer.settle());
    assert_eq!(peer.phase, Phase::Syncing);
    assert_eq!(
        peer.write_front(WriteEvent::Wrote(2), true),
        WriteOutcome::HandshakeResponseWritten
    );
    assert!(peer.handshake_written);
    assert_eq!(peer.write_front(WriteEvent::Blocked, true), WriteOutcome::Pending);
    assert_eq!(peer.write_front(WriteEvent::Wrote(3), true), WriteOutcome::Pending);
    assert!(!peer.settle());
    assert_eq!(peer.phase, Phase::Active);
}

#[test]
fn a_sync_over_what_is_retained_ends_the_peer() {
    let mut peer = peer(4, false);
    let sync = vec![other(b"one").unwrap(), other(b"two").unwrap()];
    assert_eq!(
        peer.welcome(sync, 0, message(b"hi", RecordKind::HandshakeResponse), true, true),
        Err(DispatchError::Peer)
    );
    assert!(!peer.session && !peer.subscribed);

    let mut refused = self::peer(5, false);
    assert_eq!(
        refused.welcome(Vec::new(), 1, message(b"hi", RecordKind::HandshakeResponse), false, true),
        Err(DispatchError::Peer)
    );
    assert!(refused.session && !refused.subscribed);
    assert_eq!(refused.phase, Phase::AwaitHandshake);
}

#[test]
fn messages_are_dispatched_by_phase() {
    assert_eq!(
        dispatch(Phase::AwaitHandshake, MessageKind::HandshakeRequest),
        DispatchStep::Handshake
    );
    assert_eq!(
        dispatch(Phase::AwaitHandshake, MessageKind::Command),
        DispatchStep::RequireHandshake
    );
    assert_eq!(dispatch(Phase::Active, MessageKind::Command), DispatchStep::Execute);
    assert_eq!(dispatch(Phase::Active, MessageKind::Heartbeat), DispatchStep::RecordHeartbeat);
    assert_eq!(
        dispatch(Phase::Active, MessageKind::DiagnosticsRequest),
        DispatchStep::AdmitDiagnostics
    );
    assert_eq!(
        dispatch(Phase::Active, MessageKind::HandshakeRequest),
        DispatchStep::RejectUnexpected
    );
    assert_eq!(dispatch(Phase::Active, MessageKind::Other), DispatchStep::RejectUnexpected);
    assert_eq!(handshake_required().code, "handshake_required");
    assert_eq!(handshake_required().message, "first message must be handshake_request");
    assert_eq!(unexpected_message().code, "unexpected_message");
    assert_eq!(
        unexpected_message().message,
        "only command and heartbeat messages are accepted after the handshake"
    );
    assert_eq!(invalid_heartbeat(), "invalid_heartbeat");
    assert_eq!(command_failure(true), DispatchError::Peer);
    assert_eq!(command_failure(false), DispatchError::Daemon);
    let HandshakeOutcome::Rejected(rejected) =
        make_retryable(HandshakeOutcome::Rejected(RejectedHandshake {
            code: String::from("unavailable"),
            message: String::from("full"),
            retryable: false,
        }))
    else {
        panic!("expected a rejection");
    };
    assert!(rejected.retryable);
    assert_eq!((rejected.code.as_str(), rejected.message.as_str()), ("unavailable", "full"));
    assert!(matches!(make_retryable(HandshakeOutcome::Accepted), HandshakeOutcome::Accepted));
}

#[test]
fn reading_closes_on_too_much_and_answers_in_turn() {
    let mut raw = peer(0, false);
    assert!(!raw.read_peer(ReadEvent::Decoded(vec![1, 2, 3, 4, 5, 6, 7])));
    assert!(raw.read_peer(ReadEvent::Decoded(vec![8, 9])));
    assert!(!raw.read_peer(ReadEvent::Decoded(vec![8])));
    assert!(!raw.read_peer(ReadEvent::Pending));
    assert!(raw.read_peer(ReadEvent::Ended));
    assert!(raw.read_peer(ReadEvent::Malformed));
    assert!(raw.read_peer(ReadEvent::Failed));
    assert_eq!(raw.next_message(), Some(1));
    raw.session = true;
    raw.subscribed = true;
    raw.phase = Phase::Syncing;
    assert_eq!(raw.next_message(), None);
    raw.phase = Phase::Active;
    assert_eq!(raw.next_message(), Some(2));

    let mut web = peer(1, true);
    for value in 0..7 {
        assert!(web.reads_web());
        assert_eq!(web.read_web(WebPoll::Message(value)), WebReadStep::Again);
    }
    assert_eq!(web.read_web(WebPoll::Empty), WebReadStep::Stop);
    assert_eq!(web.read_web(WebPoll::Disconnected), WebReadStep::Close);
    assert_eq!(web.read_web(WebPoll::Message(7)), WebReadStep::Stop);
    assert!(!web.reads_web());
}

#[test]
fn peers_end_when_they_are_late_silent_or_cut_off() {
    let mut peer = peer(0, false);
    assert!(!peer.is_over(false, 5_999, false, true));
    assert!(peer.is_over(false, 6_000, true, false));
    assert!(peer.is_over(true, 0, true, false));
    peer.phase = Phase::Closing;
    assert!(!peer.is_over(false, 6_000, false, true));
    peer.session = true;
    assert!(peer.is_over(false, 0, false, false));
    peer.subscribed = true;
    peer.phase = Phase::Active;
    assert!(peer.is_over(false, 0, true, true));
    assert!(!peer.is_over(false, 9_000, true, false));
    assert!(Peer::<u8>::new(0, false, u64::MAX, 1).is_none());
    assert_eq!(handshake_deadline_message(), "handshake deadline exceeds Instant range");
    assert_eq!(web_handshake_timeout_ms(300), 300);
    assert_eq!(web_handshake_timeout_ms(3_000), 500);
}

#[test]
fn live_events_keep_to_their_budget() {
    let mut peer = active_eligible_peer();
    assert!(peer.takes_live(false, 1));
    assert!(!peer.takes_live(true, 1));
    assert!(!peer.takes_live(false, 0));
    assert_eq!(peer.drain_live(LivePoll::Event(other(b"e")), 3, true), LiveStep::Again(2));
    assert_eq!(peer.drain_live(LivePoll::Empty, 2, true), LiveStep::Stop);
    assert_eq!(peer.drain_live(LivePoll::Disconnected, 2, true), LiveStep::Close);
    assert_eq!(peer.drain_live(LivePoll::Event(other(b"e")), 2, false), LiveStep::Close);
    assert_eq!(peer.outbound.len(), 1);
    peer.phase = Phase::Syncing;
    assert!(!peer.takes_live(false, 1));
}

#[test]
fn browsers_acknowledge_each_record() {
    let mut web = peer(0, true);
    assert_eq!(web.next_write(), WriteChoice::Nothing);
    web.session = true;
    web.queue(message(b"hello", RecordKind::HandshakeResponse), Accounting::Session, false)
        .unwrap();
    assert_eq!(web.next_write(), WriteChoice::Send { counts: Some(5) });
    assert_eq!(web.write_web(false, true), WriteOutcome::Failed);
    assert_eq!(web.write_web(true, true), WriteOutcome::Pending);
    assert_eq!(web.next_write(), WriteChoice::AwaitAcknowledgement);
    assert_eq!(web.acknowledge_web(AcknowledgementPoll::Empty, true), WriteOutcome::Pending);
    assert_eq!(
        web.acknowledge_web(AcknowledgementPoll::Disconnected, true),
        WriteOutcome::Failed
    );
    assert_eq!(
        web.acknowledge_web(AcknowledgementPoll::Acknowledged, true),
        WriteOutcome::HandshakeResponseWritten
    );
    assert!(web.outbound.is_empty() && web.handshake_written);
    web.queue(other(b"x"), Accounting::Raw, false).unwrap();
    assert_eq!(web.next_write(), WriteChoice::Send { counts: None });
    assert_eq!(web.write_web(false, false), WriteOutcome::Failed);
    assert_eq!(web.write_lossy(LossySlot::Meter, WriteEvent::Blocked), WriteOutcome::Failed);
}

#[test]
fn writes_fail_when_the_session_or_the_wire_does() {
    let mut peer = active_eligible_peer();
    peer.queue(other(b"x"), Accounting::Session, true).unwrap();
    assert_eq!(peer.write_front(WriteEvent::Failed, true), WriteOutcome::Failed);
    assert_eq!(peer.write_front(WriteEvent::Wrote(1), false), WriteOutcome::Failed);
    assert!(peer.outbound.is_empty());
    peer.replace_meter(b"m".to_vec());
    assert_eq!(peer.write_lossy(LossySlot::Meter, WriteEvent::Failed), WriteOutcome::Failed);
    assert_eq!(peer.write_lossy(LossySlot::Meter, WriteEvent::Blocked), WriteOutcome::Pending);
}

#[test]
fn shutdowns_make_way_for_their_notice() {
    let mut peer = active_eligible_peer();
    peer.handshake_written = true;
    assert!(peer.is_told());
    peer.queue(other(b"first"), Accounting::Session, true).unwrap();
    peer.queue(message(b"answer", RecordKind::CommandResult), Accounting::Session, true).unwrap();
    peer.write_front(WriteEvent::Wrote(2), true);
    assert!(peer.owes_answer());
    assert_eq!(
        shutdown_plan(DaemonShutdownReason::ProcessSignal, std::slice::from_ref(&peer)),
        ShutdownPlan::Tell(ShutdownQueue::PreserveCommandResult)
    );
    assert_eq!(
        shutdown_plan(DaemonShutdownReason::ProgramSurface, std::slice::from_ref(&peer)),
        ShutdownPlan::Close
    );
    let discarded = peer.clear_for_shutdown(ShutdownQueue::Replace);
    assert_eq!(discarded, vec![1]);
    peer.tell_shutdown(other(b"bye"), true);
    assert_eq!(peer.phase, Phase::Closing);
    assert_eq!(drain(&mut peer, 4), b"rstbye");
    assert!(peer.settle());
    assert_eq!(
        shutdown_plan(DaemonShutdownReason::ProcessSignal, std::slice::from_ref(&peer)),
        ShutdownPlan::Tell(ShutdownQueue::Replace)
    );
}

#[test]
fn full_lines_lose_an_event_before_an_answer() {
    let mut peer = active_eligible_peer();
    peer.queue(other(b"event"), Accounting::Session, true).unwrap();
    for _ in 1..OUTBOUND_CAPACITY {
        peer.queue(message(b"answer", RecordKind::CommandResult), Accounting::Session, true)
            .unwrap();
    }
    let discarded = peer.clear_for_shutdown(ShutdownQueue::PreserveCommandResult);
    assert_eq!(discarded, vec![0]);
    assert_eq!(peer.outbound.len(), OUTBOUND_CAPACITY - 1);
    peer.tell_shutdown(other(b"bye"), false);
    let notice = &peer.outbound[OUTBOUND_CAPACITY - 1];
    assert_eq!(notice.accounting, Accounting::Raw);
    assert_eq!(notice.write.bytes, b"bye");
    assert!(!peer.is_done(WriteOutcome::Pending));
    assert!(peer.is_done(WriteOutcome::Failed));
}

#[test]
fn peers_told_why_are_closed_afterwards() {
    let mut peer = peer(0, false);
    assert_eq!(peer.close_after(other(b"why")), Ok(()));
    assert_eq!(peer.phase, Phase::Closing);
    assert!(!peer.settle());
    assert_eq!(drain(&mut peer, 1), b"why");
    assert!(peer.settle());
    assert_eq!(peer.close_after(None), Err(()));
}

#[test]
fn peers_are_let_in_up_to_their_limits() {
    assert_eq!(peer_limit(true), 1);
    assert_eq!(peer_limit(false), 2);
    let peers = vec![peer(0, false), peer(1, true)];
    assert_eq!(raw_peer_count(&peers), 1);
    assert!(accepts_raw(&peers, false, None, 2));
    assert!(!accepts_raw(&peers, false, None, 1));
    assert!(!accepts_raw(&peers, true, None, 2));
    assert!(!accepts_raw(&peers, false, Some(0), 2));
    assert!(accepts_raw::<u8>(&[], true, None, 2));
    assert!(!accepts_web(&peers));
    assert!(accepts_web(&peers[..1]));
    assert_eq!(next_peer_id(7), 8);
    assert_eq!(next_peer_id(u64::MAX), 0);
    assert_eq!(
        note_once_peer(true, None, 3, WriteOutcome::HandshakeResponseWritten),
        Some(3)
    );
    assert_eq!(note_once_peer(true, None, 3, WriteOutcome::Pending), None);
    assert_eq!(
        note_once_peer(true, Some(1), 3, WriteOutcome::HandshakeResponseWritten),
        Some(1)
    );
    assert!(once_is_over(&peers, Some(9)));
    assert!(!once_is_over(&peers, Some(1)));
    assert!(!once_is_over(&peers, None));
}

#[test]
fn marked_peers_are_removed_and_none_is_lost() {
    let mut items = vec![0, 1, 2, 3, 4];
    let gone = remove_marked(&mut items, &[true, false, true, false, false]);
    assert_eq!(gone, vec![2, 0]);
    assert_eq!(items, vec![3, 1, 4]);
    items.sort_unstable();
    assert_eq!(items, vec![1, 3, 4]);
}

fn setting() -> PassSetting {
    PassSetting { web: true, native: true, once: false, once_peer: None, limit: 1 }
}

/// The steps of a pass in which nothing happens, from its start until it begins anew.
fn quiet_pass(peers: &[Peer<u8>], setting: PassSetting) -> Vec<PassStage> {
    let mut stages = vec![PassStage::Ask(AskPoint::Start)];
    loop {
        let stage = *stages.last().unwrap();
        let event = match stage {
            PassStage::Ask(_) => PassEvent::Asked(None),
            _ => PassEvent::Done,
        };
        let next = pass_step(stage, event, peers, setting);
        if next == PassStage::Ask(AskPoint::Start) {
            return stages;
        }
        stages.push(next);
        if matches!(next, PassStage::Over(_)) {
            return stages;
        }
    }
}

#[test]
fn a_pass_goes_through_its_steps_in_order() {
    let whole = [
        PassStage::Ask(AskPoint::Start),
        PassStage::Web,
        PassStage::Accept,
        PassStage::Read,
        PassStage::Messages,
        PassStage::Ask(AskPoint::AfterMessages),
        PassStage::Tick,
        PassStage::Ask(AskPoint::AfterTick),
        PassStage::Live,
        PassStage::Write,
        PassStage::Remove,
        PassStage::Ask(AskPoint::AfterRemoval),
        PassStage::Rest,
    ];
    assert_eq!(quiet_pass(&[], setting()), whole);
    let bare = PassSetting { web: false, native: false, ..setting() };
    let short: Vec<_> = whole
        .into_iter()
        .filter(|stage| !matches!(stage, PassStage::Web | PassStage::Accept | PassStage::Tick))
        .collect();
    assert_eq!(quiet_pass(&[peer(0, false)], bare), short);
}

#[test]
fn a_pass_ends_for_a_stop_a_failure_and_the_only_client() {
    let mut owed = peer(3, false);
    owed.phase = Phase::Active;
    owed.session = true;
    owed.subscribed = true;
    owed.queue(message(b"answer\n", RecordKind::CommandResult), Accounting::Session, true).unwrap();
    let peers = [owed];
    let stop = |reason| {
        pass_step(
            PassStage::Ask(AskPoint::AfterTick),
            PassEvent::Asked(Some(reason)),
            &peers,
            setting(),
        )
    };
    assert_eq!(
        stop(DaemonShutdownReason::ProcessSignal),
        PassStage::Over(RunEnd::Stopped {
            reason: DaemonShutdownReason::ProcessSignal,
            plan: ShutdownPlan::Tell(ShutdownQueue::PreserveCommandResult),
        })
    );
    assert_eq!(
        stop(DaemonShutdownReason::ProgramSurface),
        PassStage::Over(RunEnd::Stopped {
            reason: DaemonShutdownReason::ProgramSurface,
            plan: ShutdownPlan::Close,
        })
    );
    assert_eq!(
        pass_step(PassStage::Tick, PassEvent::DaemonFailed, &peers, setting()),
        PassStage::Over(RunEnd::Failed(ShutdownPlan::Tell(ShutdownQueue::Replace)))
    );
    assert_eq!(
        pass_step(PassStage::Accept, PassEvent::CannotAccept, &peers, setting()),
        PassStage::Over(RunEnd::Shut)
    );
    let once = PassSetting { once: true, once_peer: Some(4), ..setting() };
    assert_eq!(
        pass_step(PassStage::Remove, PassEvent::Done, &peers, once),
        PassStage::Over(RunEnd::Once)
    );
    let still = PassSetting { once_peer: Some(3), ..once };
    assert_eq!(
        pass_step(PassStage::Remove, PassEvent::Done, &peers, still),
        PassStage::Ask(AskPoint::AfterRemoval)
    );
}

#[test]
fn a_refused_client_is_told_why() {
    let refusal = || RejectedHandshake {
        code: "unauthorized".to_owned(),
        message: "no".to_owned(),
        retryable: false,
    };
    assert!(matches!(handshake_outcome(Ok(()), Ok(())), HandshakeOutcome::Accepted));
    for subscribed in [Ok(()), Err("full".to_owned())] {
        let HandshakeOutcome::Rejected(rejected) = handshake_outcome(Err(refusal()), subscribed)
        else {
            panic!("expected a rejection");
        };
        assert_eq!((rejected.code.as_str(), rejected.message.as_str()), ("unauthorized", "no"));
        assert!(!rejected.retryable);
    }
    let HandshakeOutcome::Rejected(rejected) = handshake_outcome(Ok(()), Err("full".to_owned()))
    else {
        panic!("expected a rejection");
    };
    assert_eq!((rejected.code.as_str(), rejected.message.as_str()), ("unavailable", "full"));
    assert!(rejected.retryable);
}

#[test]
fn heartbeats_and_diagnostics_are_answered() {
    assert!(matches!(
        heartbeat_answer(7, Ok(1_234)),
        HeartbeatAnswer::Acknowledged { sequence: 7, received_at_ms: 1_234 }
    ));
    let HeartbeatAnswer::Refused { code, message } = heartbeat_answer(7, Err("late".to_owned()))
    else {
        panic!("expected a refusal");
    };
    assert_eq!((code, message.as_str()), ("invalid_heartbeat", "late"));

    assert!(matches!(
        diagnostics_answer("request", 3, Some(Ok::<(), &str>(())), true),
        Ok(DiagnosticsAnswer::Report)
    ));
    assert!(matches!(
        diagnostics_answer("request", 3, Some(Err("quota")), true),
        Ok(DiagnosticsAnswer::Refused { request_id: "request", current_revision: 3, error: "quota" })
    ));
    assert!(matches!(
        diagnostics_answer("request", 3, Some(Ok::<(), &str>(())), false),
        Err(DispatchError::Peer)
    ));
    assert!(matches!(
        diagnostics_answer::<_, &str>("request", 3, None, true),
        Err(DispatchError::Peer)
    ));
}

#[test]
fn an_answer_that_finds_no_place_ends_its_client() {
    let mut peer = active_eligible_peer();
    for _ in 0..OUTBOUND_CAPACITY {
        assert_eq!(peer.queue_answer(other(b"x"), true), Ok(()));
    }
    assert_eq!(peer.queue_answer(other(b"x"), true), Err(DispatchError::Peer));
    assert_eq!(peer.outbound.len(), OUTBOUND_CAPACITY);
    let mut refused = active_eligible_peer();
    assert_eq!(refused.queue_answer(other(b"x"), false), Err(DispatchError::Peer));
    assert_eq!(refused.queue_answer(None, true), Err(DispatchError::Peer));
    assert!(refused.outbound.is_empty());
}
