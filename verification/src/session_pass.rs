//! The order of the steps of one pass over the clients of a daemon.
use vstd::prelude::*;

use crate::session_peer::Peer;
use crate::session_write;
use crate::session_write::{
    accepts_raw, once_is_over, shutdown_plan, DaemonShutdownReason, ShutdownPlan, ShutdownQueue,
};

verus! {

/// When in a pass the daemon is asked whether it is to stop.
#[derive(Clone, Copy, Debug, PartialEq, Eq, Structural)]
pub enum AskPoint {
    Start,
    AfterMessages,
    AfterTick,
    AfterRemoval,
}

/// What is done next in a pass.
#[derive(Clone, Copy, Debug, PartialEq, Eq, Structural)]
pub enum PassStage {
    /// The daemon is asked whether it is to stop.
    Ask(AskPoint),
    /// Browsers are let in or turned away.
    Web,
    /// Another client is let in, if one waits.
    Accept,
    /// Every client is read, and marked where it is over.
    Read,
    /// One message of every client is handled.
    Messages,
    /// The pictures and sounds go on.
    Tick,
    /// Events are handed to the clients that take them.
    Live,
    /// Every client is written to.
    Write,
    /// The clients that are over are taken out.
    Remove,
    /// Nothing is done for a while.
    Rest,
    Over(RunEnd),
}

/// How serving clients ends.
#[derive(Clone, Copy, Debug, PartialEq, Eq, Structural)]
pub enum RunEnd {
    /// The daemon was asked to stop, and lets the clients go as planned.
    Stopped { reason: DaemonShutdownReason, plan: ShutdownPlan },
    /// The daemon failed. The clients are told, as planned.
    Failed(ShutdownPlan),
    /// Clients can no longer be let in. Those that are there are closed.
    Shut,
    /// The only client that was to be served has been. The others are closed.
    Once,
}

/// What a step of a pass came to.
#[derive(Clone, Copy, Debug, PartialEq, Eq, Structural)]
pub enum PassEvent {
    /// Whether the daemon is to stop.
    Asked(Option<DaemonShutdownReason>),
    Done,
    /// A client that came could not be let in, nor can any other be.
    CannotAccept,
    /// The daemon itself failed.
    DaemonFailed,
}

/// Whether an event can come of a step.
pub open spec fn can_come_of(stage: PassStage, event: PassEvent) -> bool {
    match stage {
        PassStage::Ask(_) => event matches PassEvent::Asked(reason) && reason != Some(
            DaemonShutdownReason::Once,
        ),
        PassStage::Web | PassStage::Accept => event is Done || event is CannotAccept,
        PassStage::Messages | PassStage::Tick => event is Done || event is DaemonFailed,
        PassStage::Over(_) => false,
        _ => event is Done,
    }
}

/// How clients are let go for a reason other than that one was served.
pub open spec fn planned<M>(reason: DaemonShutdownReason, peers: Seq<Peer<M>>) -> ShutdownPlan {
    let views = session_write::peer_views(peers);
    if reason is ProgramSurface {
        ShutdownPlan::Close
    } else if exists|i: int|
        0 <= i < peers.len() && session_write::owes_answer(#[trigger] views[i]) {
        ShutdownPlan::Tell(ShutdownQueue::PreserveCommandResult)
    } else {
        ShutdownPlan::Tell(ShutdownQueue::Replace)
    }
}

/// Whether another client that is no browser may be let in.
pub open spec fn has_room<M>(
    peers: Seq<Peer<M>>,
    once: bool,
    once_peer: Option<u64>,
    limit: usize,
) -> bool {
    &&& once_peer is None
    &&& !once || peers.len() == 0
    &&& session_write::raw_count(session_write::peer_views(peers)) < limit
}

/// Whether the only client that was to be served has gone.
pub open spec fn has_served<M>(peers: Seq<Peer<M>>, once_peer: Option<u64>) -> bool {
    &&& once_peer matches Some(id)
    &&& forall|i: int|
        0 <= i < peers.len() ==> (#[trigger] session_write::peer_views(peers)[i]).id != id
}

/// The step that follows on a step and what it came to.
pub open spec fn next_stage<M>(
    stage: PassStage,
    event: PassEvent,
    peers: Seq<Peer<M>>,
    setting: PassSetting,
) -> PassStage {
    let letting_in = if has_room(peers, setting.once, setting.once_peer, setting.limit) {
        PassStage::Accept
    } else {
        PassStage::Read
    };
    match event {
        PassEvent::Asked(Some(reason)) => PassStage::Over(
            RunEnd::Stopped { reason, plan: planned(reason, peers) },
        ),
        PassEvent::CannotAccept => PassStage::Over(RunEnd::Shut),
        PassEvent::DaemonFailed => PassStage::Over(
            RunEnd::Failed(ShutdownPlan::Tell(ShutdownQueue::Replace)),
        ),
        _ => match stage {
            PassStage::Ask(AskPoint::Start) => if setting.web {
                PassStage::Web
            } else {
                letting_in
            },
            PassStage::Web => letting_in,
            PassStage::Accept => PassStage::Read,
            PassStage::Read => PassStage::Messages,
            PassStage::Messages => PassStage::Ask(AskPoint::AfterMessages),
            PassStage::Ask(AskPoint::AfterMessages) => if setting.native {
                PassStage::Tick
            } else {
                PassStage::Ask(AskPoint::AfterTick)
            },
            PassStage::Tick => PassStage::Ask(AskPoint::AfterTick),
            PassStage::Ask(AskPoint::AfterTick) => PassStage::Live,
            PassStage::Live => PassStage::Write,
            PassStage::Write => PassStage::Remove,
            PassStage::Remove => if has_served(peers, setting.once_peer) {
                PassStage::Over(RunEnd::Once)
            } else {
                PassStage::Ask(AskPoint::AfterRemoval)
            },
            PassStage::Ask(AskPoint::AfterRemoval) => PassStage::Rest,
            PassStage::Rest => PassStage::Ask(AskPoint::Start),
            PassStage::Over(end) => PassStage::Over(end),
        },
    }
}

/// What a pass depends on besides the clients.
#[derive(Clone, Copy, Debug, PartialEq, Eq, Structural)]
pub struct PassSetting {
    /// Whether browsers are served.
    pub web: bool,
    /// Whether the daemon makes pictures and sounds.
    pub native: bool,
    /// Whether one client only is to be served.
    pub once: bool,
    /// The client that is served where only one is.
    pub once_peer: Option<u64>,
    /// How many clients that are no browsers are served at a time.
    pub limit: usize,
}

/// Returns whether another client is to be let in, or the clients are to be read.
fn after_browsers<M>(peers: &[Peer<M>], setting: PassSetting) -> (stage: PassStage)
    ensures
        stage == (if has_room(peers@, setting.once, setting.once_peer, setting.limit) {
            PassStage::Accept
        } else {
            PassStage::Read
        }),
{
    if accepts_raw(peers, setting.once, setting.once_peer, setting.limit) {
        PassStage::Accept
    } else {
        PassStage::Read
    }
}

/// Returns the step that follows on a step and what it came to.
pub fn pass_step<M>(
    stage: PassStage,
    event: PassEvent,
    peers: &[Peer<M>],
    setting: PassSetting,
) -> (next: PassStage)
    requires
        can_come_of(stage, event),
    ensures
        next == next_stage(stage, event, peers@, setting),
{
    match event {
        PassEvent::Asked(Some(reason)) => {
            return PassStage::Over(
                RunEnd::Stopped { reason, plan: shutdown_plan(reason, peers) },
            );
        },
        PassEvent::CannotAccept => {
            return PassStage::Over(RunEnd::Shut);
        },
        PassEvent::DaemonFailed => {
            return PassStage::Over(RunEnd::Failed(ShutdownPlan::Tell(ShutdownQueue::Replace)));
        },
        _ => {},
    }
    match stage {
        PassStage::Ask(AskPoint::Start) => if setting.web {
            PassStage::Web
        } else {
            after_browsers(peers, setting)
        },
        PassStage::Web => after_browsers(peers, setting),
        PassStage::Accept => PassStage::Read,
        PassStage::Read => PassStage::Messages,
        PassStage::Messages => PassStage::Ask(AskPoint::AfterMessages),
        PassStage::Ask(AskPoint::AfterMessages) => if setting.native {
            PassStage::Tick
        } else {
            PassStage::Ask(AskPoint::AfterTick)
        },
        PassStage::Tick => PassStage::Ask(AskPoint::AfterTick),
        PassStage::Ask(AskPoint::AfterTick) => PassStage::Live,
        PassStage::Live => PassStage::Write,
        PassStage::Write => PassStage::Remove,
        PassStage::Remove => if once_is_over(peers, setting.once_peer) {
            PassStage::Over(RunEnd::Once)
        } else {
            PassStage::Ask(AskPoint::AfterRemoval)
        },
        PassStage::Ask(AskPoint::AfterRemoval) => PassStage::Rest,
        PassStage::Rest => PassStage::Ask(AskPoint::Start),
        PassStage::Over(end) => PassStage::Over(end),
    }
}

/// How far a pass has come.
pub open spec fn place(stage: PassStage) -> int {
    match stage {
        PassStage::Ask(AskPoint::Start) => 0,
        PassStage::Web => 1,
        PassStage::Accept => 2,
        PassStage::Read => 3,
        PassStage::Messages => 4,
        PassStage::Ask(AskPoint::AfterMessages) => 5,
        PassStage::Tick => 6,
        PassStage::Ask(AskPoint::AfterTick) => 7,
        PassStage::Live => 8,
        PassStage::Write => 9,
        PassStage::Remove => 10,
        PassStage::Ask(AskPoint::AfterRemoval) => 11,
        PassStage::Rest => 12,
        PassStage::Over(_) => 13,
    }
}

/// A pass goes forward until it rests, and begins anew only then. Reading, handling messages,
/// handing out events, writing and taking clients out are never left out, nor is any of the
/// points at which the daemon is asked whether it is to stop.
pub proof fn a_pass_goes_through<M>(
    stage: PassStage,
    event: PassEvent,
    peers: Seq<Peer<M>>,
    setting: PassSetting,
)
    requires
        can_come_of(stage, event),
    ensures
        ({
            let next = next_stage(stage, event, peers, setting);
            &&& stage is Rest ==> next == PassStage::Ask(AskPoint::Start)
            &&& !(stage is Rest) ==> place(next) > place(stage)
            &&& forall|skipped: PassStage|
                !(next is Over) && place(stage) < #[trigger] place(skipped) < place(next) ==> {
                    ||| skipped is Web && !setting.web
                    ||| skipped is Accept && !has_room(
                        peers,
                        setting.once,
                        setting.once_peer,
                        setting.limit,
                    )
                    ||| skipped is Tick && !setting.native
                }
        }),
{
}

/// A daemon that a signal stops lets its clients go at once, and keeps the answers to commands
/// in their lines where one is still owed.
pub proof fn a_stop_keeps_answers<M>(
    point: AskPoint,
    reason: DaemonShutdownReason,
    peers: Seq<Peer<M>>,
    setting: PassSetting,
    i: int,
)
    requires
        reason is ProcessSignal,
        0 <= i < peers.len(),
        session_write::owes_answer(peers[i]@),
    ensures
        next_stage(
            PassStage::Ask(point),
            PassEvent::Asked(Some(reason)),
            peers,
            setting,
        ) == PassStage::Over(
            RunEnd::Stopped {
                reason,
                plan: ShutdownPlan::Tell(ShutdownQueue::PreserveCommandResult),
            },
        ),
{
    assert(session_write::peer_views(peers)[i] == peers[i]@);
}

} // verus!
