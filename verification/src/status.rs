//! What the daemon tells of itself.
use vstd::prelude::*;
use vstd::string::*;

use crate::access_token;
use crate::access_token::StatusToken;
use crate::request_head;
use crate::request_head::RequestHead;
use crate::status_http;
use crate::status_http::{Response, ResponseModel};
use crate::text;
use crate::text::decimal;

use std::sync::atomic::{AtomicU64, AtomicU8, AtomicUsize};
use std::sync::Arc;
use std::time::{Duration, Instant};

verus! {

/// How long the control loop may go silent before liveness fails.
pub const CONTROL_STALL_LIMIT_MILLIS: u64 = 10_000;

/// The most bytes of a support bundle.
pub const BUNDLE_MAX_BYTES: usize = 32768;

pub const READINESS_STARTING: u8 = 0;

pub const READINESS_READY: u8 = 1;

pub const READINESS_DRAINING: u8 = 2;

pub const READINESS_UNHEALTHY: u8 = 3;

pub const HEALTH_HEALTHY: u8 = 0;

pub const HEALTH_UNHEALTHY: u8 = 1;

/// Stands for a moment that has not come.
pub const UNSET_MILLIS: u64 = 0xffff_ffff_ffff_ffff;

/// Whether the daemon takes work.
#[derive(Clone, Copy, Debug, PartialEq, Eq, Structural)]
pub enum ReadinessState {
    Starting,
    Ready,
    Draining,
    Unhealthy,
}

/// Whether the daemon is well.
#[derive(Clone, Copy, Debug, PartialEq, Eq, Structural)]
pub enum HealthState {
    Healthy,
    Unhealthy,
}

/// The words for the states of the daemon.
#[derive(Clone, Copy, Debug)]
pub struct StateNames<'a> {
    pub readiness: &'a str,
    pub health: &'a str,
}

/// The number that stands for a readiness.
pub open spec fn readiness_number(readiness: ReadinessState) -> u8 {
    match readiness {
        ReadinessState::Starting => READINESS_STARTING,
        ReadinessState::Ready => READINESS_READY,
        ReadinessState::Draining => READINESS_DRAINING,
        ReadinessState::Unhealthy => READINESS_UNHEALTHY,
    }
}

/// The readiness that a number stands for.
pub open spec fn readiness_of(number: u8) -> ReadinessState {
    if number == READINESS_READY {
        ReadinessState::Ready
    } else if number == READINESS_DRAINING {
        ReadinessState::Draining
    } else if number == READINESS_UNHEALTHY {
        ReadinessState::Unhealthy
    } else {
        ReadinessState::Starting
    }
}

/// The number that stands for a health.
pub open spec fn health_number(health: HealthState) -> u8 {
    match health {
        HealthState::Healthy => HEALTH_HEALTHY,
        HealthState::Unhealthy => HEALTH_UNHEALTHY,
    }
}

/// The health that a number stands for.
pub open spec fn health_of(number: u8) -> HealthState {
    if number == HEALTH_UNHEALTHY {
        HealthState::Unhealthy
    } else {
        HealthState::Healthy
    }
}

/// What is published is what is read.
pub proof fn states_read_back(readiness: ReadinessState, health: HealthState)
    ensures
        readiness_of(readiness_number(readiness)) == readiness,
        health_of(health_number(health)) == health,
{
}

/// Numbers a readiness.
pub fn encode_readiness(readiness: ReadinessState) -> (number: u8)
    ensures
        number == readiness_number(readiness),
{
    match readiness {
        ReadinessState::Starting => READINESS_STARTING,
        ReadinessState::Ready => READINESS_READY,
        ReadinessState::Draining => READINESS_DRAINING,
        ReadinessState::Unhealthy => READINESS_UNHEALTHY,
    }
}

/// Numbers a health.
pub fn encode_health(health: HealthState) -> (number: u8)
    ensures
        number == health_number(health),
{
    match health {
        HealthState::Healthy => HEALTH_HEALTHY,
        HealthState::Unhealthy => HEALTH_UNHEALTHY,
    }
}

/// The moment that a number stands for, if it has come.
pub open spec fn set_moment(millis: u64) -> Option<u64> {
    if millis == UNSET_MILLIS {
        None
    } else {
        Some(millis)
    }
}

/// Finds the moment that a number stands for, if it has come.
pub fn unset_to_none(millis: u64) -> (moment: Option<u64>)
    ensures
        moment == set_moment(millis),
{
    if millis == UNSET_MILLIS {
        None
    } else {
        Some(millis)
    }
}

/// What is known of the daemon at one moment.
#[derive(Clone, Copy, Debug, PartialEq, Eq, Structural)]
pub struct StatusSnapshot {
    pub uptime_millis: u64,
    pub beat_millis: u64,
    pub stalled: bool,
    pub readiness: ReadinessState,
    pub health: HealthState,
    pub ready_millis: Option<u64>,
    pub draining_millis: Option<u64>,
    pub served: u64,
    pub rejected: u64,
    pub in_flight: usize,
}

/// The numbers that the daemon publishes, as they were read.
#[derive(Clone, Copy, Debug, PartialEq, Eq, Structural)]
pub struct PublishedNumbers {
    pub uptime_millis: u64,
    pub beat_millis: u64,
    pub readiness: u8,
    pub health: u8,
    pub ready_millis: u64,
    pub draining_millis: u64,
    pub served: u64,
    pub rejected: u64,
    pub in_flight: usize,
}

/// The numbers of a daemon that has just been started: it is starting and well, and nothing
/// has happened yet.
pub open spec fn start_numbers() -> PublishedNumbers {
    PublishedNumbers {
        uptime_millis: 0,
        beat_millis: 0,
        readiness: readiness_number(ReadinessState::Starting),
        health: health_number(HealthState::Healthy),
        ready_millis: UNSET_MILLIS,
        draining_millis: UNSET_MILLIS,
        served: 0,
        rejected: 0,
        in_flight: 0,
    }
}

/// The moment that is kept where one may have been noted before: the first.
pub open spec fn first_moment_of(noted: u64, now: u64) -> u64 {
    if noted == UNSET_MILLIS {
        now
    } else {
        noted
    }
}

/// Finds the moment to keep where one may have been noted before: the first.
pub fn first_moment(noted: u64, now: u64) -> (moment: u64)
    ensures
        moment == first_moment_of(noted, now),
{
    if noted == UNSET_MILLIS {
        now
    } else {
        noted
    }
}

/// The numbers after a request to stop: a daemon that is ready drains from then on, and the
/// moment of the first request is kept. Any other stays as it is.
pub open spec fn drained_numbers(numbers: PublishedNumbers, now: u64) -> PublishedNumbers {
    if numbers.readiness == readiness_number(ReadinessState::Ready) {
        PublishedNumbers {
            readiness: readiness_number(ReadinessState::Draining),
            draining_millis: first_moment_of(numbers.draining_millis, now),
            ..numbers
        }
    } else {
        numbers
    }
}

/// The numbers after states have been published: the moment when the daemon is first ready is
/// kept.
pub open spec fn published_numbers(
    numbers: PublishedNumbers,
    readiness: ReadinessState,
    health: HealthState,
    now: u64,
) -> PublishedNumbers {
    PublishedNumbers {
        readiness: readiness_number(readiness),
        health: health_number(health),
        ready_millis: if readiness == ReadinessState::Ready {
            first_moment_of(numbers.ready_millis, now)
        } else {
            numbers.ready_millis
        },
        ..numbers
    }
}

/// A daemon drains only once it has been ready, and a second request to stop changes nothing.
pub proof fn draining_follows_ready(numbers: PublishedNumbers, now: u64, later: u64)
    ensures
        snapshot_of(drained_numbers(numbers, now)).readiness == ReadinessState::Draining <==> (
        snapshot_of(numbers).readiness == ReadinessState::Ready || snapshot_of(numbers).readiness
            == ReadinessState::Draining),
        snapshot_of(numbers).readiness != ReadinessState::Ready ==> drained_numbers(numbers, now)
            == numbers,
        drained_numbers(drained_numbers(numbers, now), later) == drained_numbers(numbers, now),
{
}

/// A moment that has been noted is never noted again, whatever is published or asked for later.
pub proof fn first_moments_are_kept(
    numbers: PublishedNumbers,
    readiness: ReadinessState,
    health: HealthState,
    now: u64,
)
    ensures
        ({
            let drained = drained_numbers(numbers, now);
            let published = published_numbers(numbers, readiness, health, now);
            &&& set_moment(numbers.draining_millis) is Some ==> drained.draining_millis
                == numbers.draining_millis && published.draining_millis == numbers.draining_millis
            &&& set_moment(numbers.ready_millis) is Some ==> drained.ready_millis
                == numbers.ready_millis && published.ready_millis == numbers.ready_millis
        }),
{
}

/// What is published is what is read again.
pub proof fn published_states_are_read(
    numbers: PublishedNumbers,
    readiness: ReadinessState,
    health: HealthState,
    now: u64,
)
    ensures
        snapshot_of(published_numbers(numbers, readiness, health, now)).readiness == readiness,
        snapshot_of(published_numbers(numbers, readiness, health, now)).health == health,
{
}

impl PublishedNumbers {
    /// The numbers after a request to stop at a moment.
    pub fn drained(self, now: u64) -> (numbers: Self)
        ensures
            numbers == drained_numbers(self, now),
    {
        if self.readiness == READINESS_READY {
            PublishedNumbers {
                readiness: READINESS_DRAINING,
                draining_millis: first_moment(self.draining_millis, now),
                ..self
            }
        } else {
            self
        }
    }

    /// The numbers after states have been published at a moment.
    pub fn published(self, readiness: ReadinessState, health: HealthState, now: u64) -> (numbers:
        Self)
        ensures
            numbers == published_numbers(self, readiness, health, now),
    {
        PublishedNumbers {
            readiness: encode_readiness(readiness),
            health: encode_health(health),
            ready_millis: if readiness == ReadinessState::Ready {
                first_moment(self.ready_millis, now)
            } else {
                self.ready_millis
            },
            ..self
        }
    }

    /// The numbers of a daemon that has just been started.
    pub fn at_start() -> (numbers: Self)
        ensures
            numbers == start_numbers(),
    {
        PublishedNumbers {
            uptime_millis: 0,
            beat_millis: 0,
            readiness: READINESS_STARTING,
            health: HEALTH_HEALTHY,
            ready_millis: UNSET_MILLIS,
            draining_millis: UNSET_MILLIS,
            served: 0,
            rejected: 0,
            in_flight: 0,
        }
    }
}

/// What the published numbers say.
pub open spec fn snapshot_of(numbers: PublishedNumbers) -> StatusSnapshot {
    StatusSnapshot {
        uptime_millis: numbers.uptime_millis,
        beat_millis: numbers.beat_millis,
        stalled: numbers.uptime_millis - numbers.beat_millis > CONTROL_STALL_LIMIT_MILLIS,
        readiness: readiness_of(numbers.readiness),
        health: health_of(numbers.health),
        ready_millis: set_moment(numbers.ready_millis),
        draining_millis: set_moment(numbers.draining_millis),
        served: numbers.served,
        rejected: numbers.rejected,
        in_flight: numbers.in_flight,
    }
}

impl StatusSnapshot {
    /// Reads the published numbers.
    pub fn from_numbers(numbers: PublishedNumbers) -> (snapshot: Self)
        ensures
            snapshot == snapshot_of(numbers),
    {
        StatusSnapshot {
            uptime_millis: numbers.uptime_millis,
            beat_millis: numbers.beat_millis,
            stalled: numbers.uptime_millis.saturating_sub(numbers.beat_millis)
                > CONTROL_STALL_LIMIT_MILLIS,
            readiness: if numbers.readiness == READINESS_READY {
                ReadinessState::Ready
            } else if numbers.readiness == READINESS_DRAINING {
                ReadinessState::Draining
            } else if numbers.readiness == READINESS_UNHEALTHY {
                ReadinessState::Unhealthy
            } else {
                ReadinessState::Starting
            },
            health: if numbers.health == HEALTH_UNHEALTHY {
                HealthState::Unhealthy
            } else {
                HealthState::Healthy
            },
            ready_millis: unset_to_none(numbers.ready_millis),
            draining_millis: unset_to_none(numbers.draining_millis),
            served: numbers.served,
            rejected: numbers.rejected,
            in_flight: numbers.in_flight,
        }
    }

    /// Whether the control loop runs and nothing has failed.
    pub open spec fn is_live(self) -> bool {
        !self.stalled && self.health == HealthState::Healthy
    }

    /// Whether the daemon is live and takes work.
    pub open spec fn is_ready(self) -> bool {
        self.is_live() && self.readiness == ReadinessState::Ready
    }

    /// Tells whether the control loop runs and nothing has failed.
    pub fn live(&self) -> (live: bool)
        ensures
            live == self.is_live(),
    {
        !self.stalled && self.health == HealthState::Healthy
    }

    /// Tells whether the daemon is live and takes work.
    pub fn ready(&self) -> (ready: bool)
        ensures
            ready == self.is_ready(),
    {
        self.live() && self.readiness == ReadinessState::Ready
    }
}

/// The answer to a liveness probe.
pub open spec fn health_answer(snapshot: StatusSnapshot) -> ResponseModel {
    let state = if snapshot.health == HealthState::Unhealthy {
        "unhealthy"@
    } else if snapshot.stalled {
        "stalled"@
    } else {
        "live"@
    };
    let body = "FREEMIXD_STATUS\tv=1\tcheck=healthz\tstatus="@ + state + "\tuptime_ms="@
        + text::digits(snapshot.uptime_millis as nat) + "\tlast_beat_ms="@ + text::digits(
        snapshot.beat_millis as nat,
    ) + "\n"@;
    if snapshot.is_live() {
        status_http::plain(200, "OK"@, body)
    } else {
        status_http::plain(503, "Service Unavailable"@, body)
    }
}

/// Answers a liveness probe.
pub fn health_response(snapshot: &StatusSnapshot) -> (response: Response)
    ensures
        response@ == health_answer(*snapshot),
{
    let state: &'static str = if snapshot.health == HealthState::Unhealthy {
        "unhealthy"
    } else if snapshot.stalled {
        "stalled"
    } else {
        "live"
    };
    let body: String = String::from_str("FREEMIXD_STATUS\tv=1\tcheck=healthz\tstatus=").concat(
        state,
    ).concat("\tuptime_ms=").concat(decimal(snapshot.uptime_millis).as_str()).concat(
        "\tlast_beat_ms=",
    ).concat(decimal(snapshot.beat_millis).as_str()).concat("\n");
    if snapshot.live() {
        Response::ok(body)
    } else {
        Response::unavailable(body)
    }
}

/// The answer to a readiness probe.
pub open spec fn ready_answer(
    snapshot: StatusSnapshot,
    readiness: Seq<char>,
    health: Seq<char>,
) -> ResponseModel {
    let body = "FREEMIXD_STATUS\tv=1\tcheck=readyz\tstatus="@ + (if snapshot.is_ready() {
        "ready"@
    } else {
        "not-ready"@
    }) + "\treadiness="@ + readiness + "\thealth="@ + health + "\tliveness="@ + (
    if snapshot.stalled {
        "stalled"@
    } else {
        "live"@
    }) + "\tuptime_ms="@ + text::digits(snapshot.uptime_millis as nat) + "\n"@;
    if snapshot.is_ready() {
        status_http::plain(200, "OK"@, body)
    } else {
        status_http::plain(503, "Service Unavailable"@, body)
    }
}

/// Answers a readiness probe.
pub fn ready_response(snapshot: &StatusSnapshot, names: StateNames) -> (response: Response)
    ensures
        response@ == ready_answer(*snapshot, names.readiness@, names.health@),
{
    let ready: bool = snapshot.ready();
    let status: &'static str = if ready {
        "ready"
    } else {
        "not-ready"
    };
    let liveness: &'static str = if snapshot.stalled {
        "stalled"
    } else {
        "live"
    };
    let body: String = String::from_str("FREEMIXD_STATUS\tv=1\tcheck=readyz\tstatus=").concat(
        status,
    ).concat("\treadiness=").concat(names.readiness).concat("\thealth=").concat(
        names.health,
    ).concat("\tliveness=").concat(liveness).concat("\tuptime_ms=").concat(
        decimal(snapshot.uptime_millis).as_str(),
    ).concat("\n");
    if ready {
        Response::ok(body)
    } else {
        Response::unavailable(body)
    }
}

/// How well a part of the daemon is.
#[derive(Clone, Copy, Debug, PartialEq, Eq, Structural)]
pub enum ComponentHealth {
    Healthy,
    Degraded,
    Unhealthy,
}

/// Finds how well the control loop is.
pub fn component_health(snapshot: &StatusSnapshot) -> (health: ComponentHealth)
    ensures
        health == loop_health(*snapshot),
{
    if snapshot.stalled || snapshot.health == HealthState::Unhealthy {
        ComponentHealth::Unhealthy
    } else if snapshot.readiness == ReadinessState::Ready {
        ComponentHealth::Healthy
    } else {
        ComponentHealth::Degraded
    }
}

/// Bounds a count so that it can be told exactly as a fraction.
pub fn approximate(value: u64) -> (bounded: u32)
    ensures
        bounded == bounded_count(value as int),
{
    if value > u32::MAX as u64 {
        u32::MAX
    } else {
        value as u32
    }
}

/// How grave an event of the support bundle is.
#[derive(Clone, Copy, Debug, PartialEq, Eq, Structural)]
pub enum EventSeverity {
    Info,
    Warning,
}

/// An event of the support bundle.
#[derive(Clone, Copy, Debug)]
pub struct BundleEvent {
    pub at_millis: u64,
    pub severity: EventSeverity,
    pub message: &'static str,
    /// Whether the event carries the readiness and the counts.
    pub carries_counts: bool,
}

/// What an event of the support bundle says.
#[verifier::ext_equal]
pub struct EventModel {
    pub at_millis: u64,
    pub severity: EventSeverity,
    pub message: Seq<char>,
    pub carries_counts: bool,
}

impl View for BundleEvent {
    type V = EventModel;

    open spec fn view(&self) -> EventModel {
        EventModel {
            at_millis: self.at_millis,
            severity: self.severity,
            message: self.message@,
            carries_counts: self.carries_counts,
        }
    }
}

/// What events say.
pub open spec fn event_models(events: Seq<BundleEvent>) -> Seq<EventModel> {
    Seq::new(events.len(), |i: int| events[i]@)
}

/// The events of the support bundle: when the daemon became ready, when it was told to stop,
/// and now.
pub open spec fn events_of(snapshot: StatusSnapshot) -> Seq<EventModel> {
    let ready = match snapshot.ready_millis {
        None => Seq::empty(),
        Some(at_millis) => seq![
            EventModel {
                at_millis,
                severity: EventSeverity::Info,
                message: "control plane became ready"@,
                carries_counts: false,
            },
        ],
    };
    let draining = match snapshot.draining_millis {
        None => ready,
        Some(at_millis) => ready.push(
            EventModel {
                at_millis,
                severity: EventSeverity::Warning,
                message: "cooperative shutdown requested"@,
                carries_counts: false,
            },
        ),
    };
    draining.push(
        EventModel {
            at_millis: snapshot.uptime_millis,
            severity: EventSeverity::Info,
            message: "status snapshot exported"@,
            carries_counts: true,
        },
    )
}

/// Lists the events of the support bundle.
pub fn bundle_events(snapshot: &StatusSnapshot) -> (events: Vec<BundleEvent>)
    ensures
        event_models(events@) == events_of(*snapshot),
{
    let mut events: Vec<BundleEvent> = Vec::new();
    assert(event_models(events@) =~= Seq::<EventModel>::empty());
    if let Some(at_millis) = snapshot.ready_millis {
        events.push(
            BundleEvent {
                at_millis,
                severity: EventSeverity::Info,
                message: "control plane became ready",
                carries_counts: false,
            },
        );
    }
    let ghost ready = match snapshot.ready_millis {
        None => Seq::empty(),
        Some(at_millis) => seq![
            EventModel {
                at_millis,
                severity: EventSeverity::Info,
                message: "control plane became ready"@,
                carries_counts: false,
            },
        ],
    };
    assert(event_models(events@) =~= ready);
    let ghost before = events@;
    if let Some(at_millis) = snapshot.draining_millis {
        events.push(
            BundleEvent {
                at_millis,
                severity: EventSeverity::Warning,
                message: "cooperative shutdown requested",
                carries_counts: false,
            },
        );
        assert(event_models(events@) =~= event_models(before).push(events@.last()@));
    }
    let ghost middle = events@;
    events.push(
        BundleEvent {
            at_millis: snapshot.uptime_millis,
            severity: EventSeverity::Info,
            message: "status snapshot exported",
            carries_counts: true,
        },
    );
    assert(event_models(events@) =~= event_models(middle).push(events@.last()@));
    events
}

/// How a part of the daemon fares, as the support bundle tells it.
#[derive(Clone, Copy, Debug)]
pub struct BundleCheck {
    pub name: &'static str,
    pub live: bool,
    pub ready: bool,
    pub health: ComponentHealth,
    /// Whether the readiness is told with it.
    pub tells_readiness: bool,
}

/// What a check of the support bundle says.
#[verifier::ext_equal]
pub struct CheckModel {
    pub name: Seq<char>,
    pub live: bool,
    pub ready: bool,
    pub health: ComponentHealth,
    pub tells_readiness: bool,
}

impl View for BundleCheck {
    type V = CheckModel;

    open spec fn view(&self) -> CheckModel {
        CheckModel {
            name: self.name@,
            live: self.live,
            ready: self.ready,
            health: self.health,
            tells_readiness: self.tells_readiness,
        }
    }
}

/// What a support bundle is made of.
#[derive(Debug)]
pub struct BundleInputs {
    pub control_loop: BundleCheck,
    pub status_listener: BundleCheck,
    /// When the counts were taken.
    pub at_millis: u64,
    pub queue_depth: u32,
    pub dropped_items: u32,
    pub events: Vec<BundleEvent>,
    pub readiness: ReadinessState,
    pub served: u64,
    pub rejected: u64,
}

/// What the inputs of a support bundle say.
#[verifier::ext_equal]
pub struct InputsModel {
    pub control_loop: CheckModel,
    pub status_listener: CheckModel,
    pub at_millis: u64,
    pub queue_depth: u32,
    pub dropped_items: u32,
    pub events: Seq<EventModel>,
    pub readiness: ReadinessState,
    pub served: u64,
    pub rejected: u64,
}

impl View for BundleInputs {
    type V = InputsModel;

    open spec fn view(&self) -> InputsModel {
        InputsModel {
            control_loop: self.control_loop@,
            status_listener: self.status_listener@,
            at_millis: self.at_millis,
            queue_depth: self.queue_depth,
            dropped_items: self.dropped_items,
            events: event_models(self.events@),
            readiness: self.readiness,
            served: self.served,
            rejected: self.rejected,
        }
    }
}

/// How well the control loop is.
pub open spec fn loop_health(snapshot: StatusSnapshot) -> ComponentHealth {
    if !snapshot.is_live() {
        ComponentHealth::Unhealthy
    } else if snapshot.is_ready() {
        ComponentHealth::Healthy
    } else {
        ComponentHealth::Degraded
    }
}

/// A count, bounded so that it can be told exactly as a fraction.
pub open spec fn bounded_count(value: int) -> u32 {
    if value > u32::MAX {
        u32::MAX
    } else {
        value as u32
    }
}

/// What a support bundle is made of: the snapshot, and nothing else.
pub open spec fn inputs_of(snapshot: StatusSnapshot) -> InputsModel {
    InputsModel {
        control_loop: CheckModel {
            name: "control-loop"@,
            live: !snapshot.stalled,
            ready: snapshot.is_ready(),
            health: loop_health(snapshot),
            tells_readiness: true,
        },
        status_listener: CheckModel {
            name: "status-listener"@,
            live: true,
            ready: true,
            health: ComponentHealth::Healthy,
            tells_readiness: false,
        },
        at_millis: snapshot.uptime_millis,
        queue_depth: bounded_count(snapshot.in_flight as int),
        dropped_items: bounded_count(snapshot.rejected as int),
        events: events_of(snapshot),
        readiness: snapshot.readiness,
        served: snapshot.served,
        rejected: snapshot.rejected,
    }
}

/// Collects what a support bundle is made of, from a snapshot alone.
pub fn bundle_inputs(snapshot: &StatusSnapshot) -> (inputs: BundleInputs)
    ensures
        inputs@ == inputs_of(*snapshot),
{
    BundleInputs {
        control_loop: BundleCheck {
            name: "control-loop",
            live: !snapshot.stalled,
            ready: snapshot.ready(),
            health: component_health(snapshot),
            tells_readiness: true,
        },
        status_listener: BundleCheck {
            name: "status-listener",
            live: true,
            ready: true,
            health: ComponentHealth::Healthy,
            tells_readiness: false,
        },
        at_millis: snapshot.uptime_millis,
        queue_depth: approximate(snapshot.in_flight as u64),
        dropped_items: approximate(snapshot.rejected),
        events: bundle_events(snapshot),
        readiness: snapshot.readiness,
        served: snapshot.served,
        rejected: snapshot.rejected,
    }
}

/// A support bundle as it was made.
#[derive(Debug)]
pub struct BundleExport {
    pub text: String,
    pub uncapped_bytes: usize,
    pub truncated: bool,
}

/// The word for a truth value.
pub open spec fn truth(value: bool) -> Seq<char> {
    if value {
        "true"@
    } else {
        "false"@
    }
}

/// The answer that carries a support bundle.
pub open spec fn bundle_answer(export: BundleExport) -> ResponseModel {
    status_http::plain(
        200,
        "OK"@,
        "FREEMIXD_STATUS\tv=1\tcheck=support-bundle\tstatus=ok\tbytes="@ + text::digits(
            vstd::utf8::encode_utf8(export.text@).len(),
        ) + "\tuncapped_bytes="@ + text::digits(export.uncapped_bytes as nat) + "\ttruncated="@
            + truth(export.truncated) + "\n"@ + export.text@,
    )
}

/// Answers with a support bundle.
pub fn bundle_response(export: &BundleExport) -> (response: Response)
    ensures
        response@ == bundle_answer(*export),
{
    let length: usize = export.text.as_str().as_bytes().len();
    let truncated: &'static str = if export.truncated {
        "true"
    } else {
        "false"
    };
    Response::ok(
        String::from_str(
            "FREEMIXD_STATUS\tv=1\tcheck=support-bundle\tstatus=ok\tbytes=",
        ).concat(decimal(length as u64).as_str()).concat("\tuncapped_bytes=").concat(
            decimal(export.uncapped_bytes as u64).as_str(),
        ).concat("\ttruncated=").concat(truncated).concat("\n").concat(export.text.as_str()),
    )
}

/// What a request is after.
#[derive(Clone, Copy, Debug, PartialEq, Eq, Structural)]
pub enum Route {
    Health,
    Ready,
    Bundle,
}

/// What a path stands for.
pub open spec fn route_of(path: Seq<char>) -> Option<Route> {
    if path == "/healthz"@ {
        Some(Route::Health)
    } else if path == "/readyz"@ {
        Some(Route::Ready)
    } else if path == "/v1/support-bundle"@ {
        Some(Route::Bundle)
    } else {
        None
    }
}

/// Whether a header, as text, presents a token.
pub open spec fn carries(authorization: Option<Seq<char>>, secret: Seq<u8>) -> bool {
    authorization matches Some(value) && vstd::utf8::encode_utf8(value) == access_token::bearer()
        + secret
}

/// The answer to a request, given what the daemon tells of itself and its support bundle.
pub open spec fn answer(
    head: Seq<u8>,
    snapshot: StatusSnapshot,
    readiness: Seq<char>,
    health: Seq<char>,
    secret: Seq<u8>,
    export: BundleExport,
) -> ResponseModel {
    match request_head::parsed(head) {
        Err(refusal) => refusal,
        Ok(request) => match route_of(request.path) {
            None => status_http::unknown(),
            Some(route) => if request.method != "GET"@ {
                status_http::unmethodical()
            } else {
                match route {
                    Route::Health => health_answer(snapshot),
                    Route::Ready => ready_answer(snapshot, readiness, health),
                    Route::Bundle => if carries(request.authorization, secret) {
                        bundle_answer(export)
                    } else {
                        status_http::refused()
                    },
                }
            },
        },
    }
}

/// Tells whether two texts are the same.
fn same_text(a: &str, b: &str) -> (same: bool)
    ensures
        same == (a@ == b@),
{
    let left: String = String::from_str(a);
    let right: String = String::from_str(b);
    left == right
}

/// Whether a request gets the support bundle.
pub open spec fn gets_bundle(head: Seq<u8>, secret: Seq<u8>) -> bool {
    request_head::parsed(head) matches Ok(request) && route_of(request.path) == Some(Route::Bundle)
        && request.method == "GET"@ && carries(request.authorization, secret)
}

/// Tells whether a request gets the support bundle, so that it has to be made.
pub fn wants_bundle(head: &[u8], token: &StatusToken) -> (wants: bool)
    requires
        token.wf(),
    ensures
        wants == gets_bundle(head@, token.secret@),
{
    match RequestHead::parse(head) {
        Err(_) => false,
        Ok(request) => !same_text(request.path, "/healthz") && !same_text(request.path, "/readyz")
            && same_text(request.path, "/v1/support-bundle") && same_text(request.method, "GET")
            && token.matches(request.authorization),
    }
}

/// Answers a request. `export` is what the support bundle would be; it is used only where it
/// is asked for with the token.
pub fn route(
    head: &[u8],
    snapshot: &StatusSnapshot,
    names: StateNames,
    token: &StatusToken,
    export: &BundleExport,
) -> (response: Response)
    requires
        token.wf(),
    ensures
        response@ == answer(
            head@,
            *snapshot,
            names.readiness@,
            names.health@,
            token.secret@,
            *export,
        ),
{
    let request: RequestHead = match RequestHead::parse(head) {
        Err(response) => {
            return response;
        },
        Ok(request) => request,
    };
    let route: Route = if same_text(request.path, "/healthz") {
        Route::Health
    } else if same_text(request.path, "/readyz") {
        Route::Ready
    } else if same_text(request.path, "/v1/support-bundle") {
        Route::Bundle
    } else {
        return Response::not_found();
    };
    if !same_text(request.method, "GET") {
        return Response::method_not_allowed();
    }
    match route {
        Route::Health => health_response(snapshot),
        Route::Ready => ready_response(snapshot, names),
        Route::Bundle => if token.matches(request.authorization) {
            bundle_response(export)
        } else {
            Response::unauthorized()
        },
    }
}

/// Without the token nobody gets the support bundle: what is answered then depends neither on
/// the bundle nor on the token.
pub proof fn the_bundle_is_guarded(
    head: Seq<u8>,
    snapshot: StatusSnapshot,
    readiness: Seq<char>,
    health: Seq<char>,
    secret: Seq<u8>,
    other_secret: Seq<u8>,
    export: BundleExport,
    other_export: BundleExport,
)
    requires
        !gets_bundle(head, secret),
        !gets_bundle(head, other_secret),
    ensures
        answer(head, snapshot, readiness, health, secret, export) == answer(
            head,
            snapshot,
            readiness,
            health,
            other_secret,
            other_export,
        ),
{
}

/// Makes `std::time::Instant` known. Nothing is claimed of what an instant holds.
#[verifier::external_type_specification]
#[verifier::external_body]
pub struct ExInstant(Instant);

/// Calls `std::time::Instant::now`. Nothing is claimed of the moment.
#[verifier::external_body]
fn now() -> Instant {
    Instant::now()
}

/// Calls `std::time::Instant::elapsed`. Nothing is claimed of how long it has been.
#[verifier::external_body]
fn elapsed(since: &Instant) -> Duration {
    since.elapsed()
}

/// Calls `std::time::Duration::as_millis`. What a duration holds is not known here, so nothing
/// is claimed of the count.
#[verifier::external_body]
fn whole_millis(duration: &Duration) -> u128 {
    duration.as_millis()
}

/// What the threads of the daemon share of its state.
pub struct DaemonStatus {
    pub started: Instant,
    pub beat_millis: AtomicU64,
    pub readiness: AtomicU8,
    pub health: AtomicU8,
    pub ready_millis: AtomicU64,
    pub draining_millis: AtomicU64,
    pub served: AtomicU64,
    pub rejected: AtomicU64,
    pub in_flight: AtomicUsize,
}

/// A count of milliseconds, or the largest where it cannot be counted.
pub fn bounded_millis(millis: u128) -> (bounded: u64)
    ensures
        bounded == (if millis > u64::MAX {
            u64::MAX as int
        } else {
            millis as int
        }),
{
    if millis > u64::MAX as u128 {
        u64::MAX
    } else {
        millis as u64
    }
}

impl DaemonStatus {
    /// The state of a daemon that has just been started: its atomics are made with the numbers
    /// of [`PublishedNumbers::at_start`]. What an atomic holds cannot be told of its value, nor
    /// what an instant is, so nothing is claimed of them here.
    pub fn new() -> Arc<Self> {
        let start: PublishedNumbers = PublishedNumbers::at_start();
        Arc::new(
            DaemonStatus {
                started: now(),
                beat_millis: AtomicU64::new(start.beat_millis),
                readiness: AtomicU8::new(start.readiness),
                health: AtomicU8::new(start.health),
                ready_millis: AtomicU64::new(start.ready_millis),
                draining_millis: AtomicU64::new(start.draining_millis),
                served: AtomicU64::new(start.served),
                rejected: AtomicU64::new(start.rejected),
                in_flight: AtomicUsize::new(start.in_flight),
            },
        )
    }

    /// How long the daemon has been running. Nothing is claimed of the time.
    pub fn uptime_millis(&self) -> u64 {
        bounded_millis(whole_millis(&elapsed(&self.started)))
    }

    /// Records that the control loop completed another pass. Other threads may store meanwhile,
    /// so nothing is claimed of what the number holds afterwards.
    pub fn beat(&self) {
        let millis: u64 = self.uptime_millis();
        self.beat_millis.store(millis, std::sync::atomic::Ordering::Release);
    }

    /// Publishes the states of the daemon, and notes the moment when it is first ready, as
    /// [`PublishedNumbers::published`] has it. Other threads may store meanwhile, so nothing is
    /// claimed of what the numbers hold afterwards.
    pub fn publish(&self, readiness: ReadinessState, health: HealthState) {
        let seen: PublishedNumbers = self.numbers();
        let next: PublishedNumbers = seen.published(readiness, health, seen.uptime_millis);
        self.readiness.store(next.readiness, std::sync::atomic::Ordering::Release);
        self.health.store(next.health, std::sync::atomic::Ordering::Release);
        if next.ready_millis != seen.ready_millis {
            self.stamp(&self.ready_millis);
        }
    }

    /// Moves a daemon that is ready to draining on the first request to stop, and notes the
    /// moment, as [`PublishedNumbers::drained`] has it. Other threads may store meanwhile, so
    /// nothing is claimed of what the numbers hold afterwards.
    pub fn begin_draining(&self) {
        let seen: PublishedNumbers = self.numbers();
        let next: PublishedNumbers = seen.drained(seen.uptime_millis);
        if next.readiness == seen.readiness {
            return;
        }
        let moved: Result<u8, u8> = self.readiness.compare_exchange(
            seen.readiness,
            next.readiness,
            std::sync::atomic::Ordering::AcqRel,
            std::sync::atomic::Ordering::Acquire,
        );
        if moved.is_ok() {
            self.stamp(&self.draining_millis);
        }
    }

    /// Notes the moment, unless one has been noted, as [`first_moment`] has it. Other threads
    /// may do so meanwhile, so nothing is claimed of what the number holds afterwards.
    pub fn stamp(&self, slot: &AtomicU64) {
        let noted: u64 = slot.load(std::sync::atomic::Ordering::Acquire);
        let _ = slot.compare_exchange(
            noted,
            first_moment(noted, self.uptime_millis()),
            std::sync::atomic::Ordering::AcqRel,
            std::sync::atomic::Ordering::Acquire,
        );
    }

    /// Reads the numbers. Other threads may store meanwhile, so nothing is claimed of them.
    fn numbers(&self) -> PublishedNumbers {
        PublishedNumbers {
            uptime_millis: self.uptime_millis(),
            beat_millis: self.beat_millis.load(std::sync::atomic::Ordering::Acquire),
            readiness: self.readiness.load(std::sync::atomic::Ordering::Acquire),
            health: self.health.load(std::sync::atomic::Ordering::Acquire),
            ready_millis: self.ready_millis.load(std::sync::atomic::Ordering::Acquire),
            draining_millis: self.draining_millis.load(std::sync::atomic::Ordering::Acquire),
            served: self.served.load(std::sync::atomic::Ordering::Acquire),
            rejected: self.rejected.load(std::sync::atomic::Ordering::Acquire),
            in_flight: self.in_flight.load(std::sync::atomic::Ordering::Acquire),
        }
    }

    /// Reads the state. Whatever is published, it says of itself whether it has stalled.
    pub fn snapshot(&self) -> (snapshot: StatusSnapshot)
        ensures
            exists|numbers: PublishedNumbers| snapshot == snapshot_of(numbers),
    {
        StatusSnapshot::from_numbers(self.numbers())
    }
}

} // verus!
