use freemix_daemon::access_token::{AccessToken, StatusToken, WebToken};
use freemix_daemon::request_head::RequestHead;
use freemix_daemon::status::{
    approximate, bounded_millis, bundle_events, bundle_inputs, bundle_response, component_health, encode_health,
    encode_readiness, first_moment, health_response, ready_response, route, unset_to_none, wants_bundle,
    BundleExport, ComponentHealth, DaemonStatus, EventSeverity, HealthState, PublishedNumbers,
    ReadinessState, StateNames, StatusSnapshot, UNSET_MILLIS,
};
use freemix_daemon::status_http::{
    characters, count_sent, drains_more, extend_head, offer_step, read_head_step, receive_head,
    send_step, Admission, HeadStep, Response, SendStep, SocketRead, SocketWrite, WorkerOffer,
    MAX_REQUEST_BYTES,
};
use freemix_daemon::text::decimal;
use freemix_daemon::web::{
    http_error, refuse, relay_step, web_admission, websocket_limits, RelayStep, WebRead,
    WebRefusal,
};

const SECRET: &str = "0123456789abcdef0123456789abcdef";

const NAMES: StateNames<'static> = StateNames { readiness: "ready", health: "healthy" };

fn token() -> StatusToken {
    StatusToken::from_environment(Some(SECRET)).ok().unwrap()
}

fn numbers() -> PublishedNumbers {
    PublishedNumbers {
        uptime_millis: 20_000,
        beat_millis: 19_990,
        readiness: 1,
        health: 0,
        ready_millis: 100,
        draining_millis: u64::MAX,
        served: 3,
        rejected: 1,
        in_flight: 1,
    }
}

fn snapshot() -> StatusSnapshot {
    StatusSnapshot::from_numbers(numbers())
}

fn export() -> BundleExport {
    BundleExport { text: String::from("events\n"), uncapped_bytes: 9, truncated: true }
}

fn answer(head: &str) -> Response {
    route(head.as_bytes(), &snapshot(), NAMES, &token(), &export())
}

#[test]
fn health_and_readiness_are_answered_in_full() {
    let health = answer("GET /healthz HTTP/1.1\r\nHost: localhost");
    assert_eq!(health.status, 200);
    assert_eq!(
        health.body,
        "FREEMIXD_STATUS\tv=1\tcheck=healthz\tstatus=live\tuptime_ms=20000\tlast_beat_ms=19990\n"
    );
    let ready = answer("GET /readyz?verbose=1 HTTP/1.0");
    assert_eq!(ready.status, 200);
    assert_eq!(
        ready.body,
        "FREEMIXD_STATUS\tv=1\tcheck=readyz\tstatus=ready\treadiness=ready\thealth=healthy\tliveness=live\tuptime_ms=20000\n"
    );
}

#[test]
fn a_stalled_or_unhealthy_daemon_is_not_live() {
    let stalled =
        StatusSnapshot::from_numbers(PublishedNumbers { beat_millis: 9_999, ..numbers() });
    assert!(stalled.stalled && !stalled.live() && !stalled.ready());
    let response = health_response(&stalled);
    assert_eq!(response.status, 503);
    assert!(response.body.contains("status=stalled"));
    let edge = StatusSnapshot::from_numbers(PublishedNumbers { beat_millis: 10_000, ..numbers() });
    assert!(!edge.stalled && edge.ready());

    let unhealthy = StatusSnapshot::from_numbers(PublishedNumbers { health: 1, ..numbers() });
    assert!(health_response(&unhealthy).body.contains("status=unhealthy"));
    assert_eq!(component_health(&unhealthy), ComponentHealth::Unhealthy);

    let draining = StatusSnapshot::from_numbers(PublishedNumbers { readiness: 2, ..numbers() });
    assert!(draining.live() && !draining.ready());
    assert_eq!(component_health(&draining), ComponentHealth::Degraded);
    let response = ready_response(&draining, StateNames { readiness: "draining", ..NAMES });
    assert_eq!(response.status, 503);
    assert!(response.body.contains("status=not-ready\treadiness=draining"));
}

#[test]
fn the_support_bundle_needs_the_token() {
    let without = answer("GET /v1/support-bundle HTTP/1.1");
    assert_eq!(without.status, 401);
    assert!(without.authenticate);
    assert_eq!(
        without.body,
        "FREEMIXD_STATUS\tv=1\tcheck=support-bundle\tstatus=unauthorized\n"
    );
    let head = format!("GET /v1/support-bundle HTTP/1.1\r\nauthorization:  Bearer {SECRET} ");
    assert!(wants_bundle(head.as_bytes(), &token()));
    let with = answer(&head);
    assert_eq!(with.status, 200);
    assert_eq!(
        with.body,
        "FREEMIXD_STATUS\tv=1\tcheck=support-bundle\tstatus=ok\tbytes=7\tuncapped_bytes=9\ttruncated=true\nevents\n"
    );
    assert_eq!(bundle_response(&export()).body, with.body);
    assert!(!wants_bundle(b"GET /healthz HTTP/1.1", &token()));
}

#[test]
fn what_is_not_asked_for_properly_is_refused() {
    for (head, status) in [
        ("POST /healthz HTTP/1.1", 405),
        ("GET /metrics HTTP/1.1", 404),
        ("POST /metrics HTTP/1.1", 404),
        ("GET /healthz", 400),
        ("GET /healthz HTTP/2", 400),
        ("GET  /healthz HTTP/1.1", 400),
        ("GET /healthz HTTP/1.1\r\nno colon", 400),
        ("GET /healthz HTTP/1.1\r\nTransfer-Encoding: chunked", 400),
        ("GET /healthz HTTP/1.1\r\nContent-Length: 1", 400),
        ("GET /healthz HTTP/1.1\r\nContent-Length: 0", 200),
        ("GET /healthz HTTP/1.1\r\nAuthorization: a\r\nauthorization: b", 400),
        ("GET /healthz#part HTTP/1.1\r\n\r\n", 200),
    ] {
        assert_eq!(answer(head).status, status, "{head}");
    }
    assert_eq!(route(b"\xff", &snapshot(), NAMES, &token(), &export()).status, 400);

    let mut head = String::from("GET /healthz HTTP/1.1");
    for index in 0..32 {
        head.push_str(&format!("\r\nx-{index}: y"));
    }
    assert_eq!(answer(&head).status, 200);
    head.push_str("\r\nx-32: y");
    let crowded = answer(&head);
    assert_eq!(crowded.status, 431);
    assert_eq!(
        crowded.body,
        "FREEMIXD_STATUS\tv=1\tcheck=request\tstatus=too-many-headers\tlimit=32\n"
    );
}

#[test]
fn requests_are_read_into_their_parts() {
    let request =
        RequestHead::parse(b"GET /readyz?x#y HTTP/1.1\r\nAUTHORIZATION: \t Bearer a b ").ok().unwrap();
    assert_eq!(request.method, "GET");
    assert_eq!(request.path, "/readyz");
    assert_eq!(request.authorization, Some(&b"Bearer a b"[..]));
    let plain = RequestHead::parse("GET /\u{e4} HTTP/1.0\r\nx: 1".as_bytes()).ok().unwrap();
    assert_eq!(plain.path, "/\u{e4}");
    assert_eq!(plain.authorization, None);
    assert_eq!(characters("a\u{e4}"), vec!['a', '\u{e4}']);
}

#[test]
fn heads_are_read_up_to_their_bound() {
    let mut head = b"GET / HTTP/1.1\r\n\r".to_vec();
    assert_eq!(read_head_step(&head, false), HeadStep::Read);
    assert_eq!(read_head_step(&head, true), HeadStep::Timeout);
    extend_head(&mut head, b"\nrest");
    assert_eq!(read_head_step(&head, true), HeadStep::Complete(14));
    let mut long = vec![b'a'; MAX_REQUEST_BYTES - 1];
    assert_eq!(read_head_step(&long, false), HeadStep::Read);
    extend_head(&mut long, b"bc");
    assert_eq!(long.len(), MAX_REQUEST_BYTES);
    assert_eq!(read_head_step(&long, false), HeadStep::TooLarge);
    assert!(drains_more(16_383, false));
    assert!(!drains_more(16_384, false));
    assert!(!drains_more(0, true));
}

#[test]
fn connections_go_to_the_first_free_worker() {
    assert_eq!(offer_step(WorkerOffer::Busy, 1), Admission::AskNext);
    assert_eq!(offer_step(WorkerOffer::Busy, 0), Admission::Reject);
    assert_eq!(offer_step(WorkerOffer::Taken, 1), Admission::Settled);
    assert_eq!(offer_step(WorkerOffer::Gone, 1), Admission::Settled);
    assert_eq!(
        Response::busy().body,
        "FREEMIXD_STATUS\tv=1\tcheck=admission\tstatus=busy\tlimit=2\n"
    );
}

#[test]
fn answers_have_a_full_head() {
    assert_eq!(
        Response::unauthorized().head(),
        "HTTP/1.1 401 Unauthorized\r\nContent-Type: text/plain; charset=utf-8\r\nContent-Length: 61\r\nCache-Control: no-store\r\nConnection: close\r\nWWW-Authenticate: Bearer\r\n\r\n"
    );
    let response = Response::ok(String::from("\u{e4}"));
    assert!(response.head().starts_with("HTTP/1.1 200 OK\r\n"));
    assert!(response.head().contains("Content-Length: 2\r\n"));
    assert!(response.head().ends_with("Connection: close\r\n\r\n"));
    let late = Response::request_timeout();
    assert_eq!((late.status, late.reason), (408, "Request Timeout"));
    let large = Response::request_too_large();
    assert_eq!(large.status, 413);
    assert_eq!(
        large.body,
        "FREEMIXD_STATUS\tv=1\tcheck=request\tstatus=too-large\tlimit_bytes=4096\n"
    );
    assert_eq!(Response::unavailable(String::new()).status, 503);
    assert_eq!(Response::new(201, "Created", String::new()).reason, "Created");
}

#[test]
fn tokens_have_bounds_and_are_compared_whole() {
    assert!(AccessToken::from_bytes(&[b'a'; 31]).is_none());
    assert!(AccessToken::from_bytes(&[b'a'; 32]).is_some());
    assert!(AccessToken::from_bytes(&[b'a'; 256]).is_some());
    assert!(AccessToken::from_bytes(&[b'a'; 257]).is_none());
    assert!(AccessToken::from_bytes(&[b' '; 32]).is_none());
    let token = token();
    assert!(token.matches(Some(format!("Bearer {SECRET}").as_bytes())));
    assert!(!token.matches(Some(SECRET.as_bytes())));
    assert!(!token.matches(Some(format!("Bearer {SECRET}x").as_bytes())));
    assert!(!token.matches(Some(format!("bearer {SECRET}").as_bytes())));
    assert!(!token.matches(Some(b"Bearer ")));
    assert!(!token.matches(None));
    assert_eq!(
        StatusToken::from_environment(None).err().unwrap(),
        "FREEMIXD_STATUS_TOKEN is required when --status-listen is enabled"
    );
    assert_eq!(
        StatusToken::from_environment(Some("short")).err().unwrap(),
        "FREEMIXD_STATUS_TOKEN must be 32..=256 ASCII graphic bytes"
    );
    assert_eq!(
        WebToken::from_environment(None).err().unwrap(),
        "FREEMIXD_WEB_TOKEN is required when --web-listen is enabled"
    );
    assert_eq!(
        WebToken::from_environment(Some("short")).err().unwrap(),
        "FREEMIXD_WEB_TOKEN must be 32..=256 ASCII graphic bytes"
    );
}

#[test]
fn the_bundle_tells_what_has_happened() {
    let numbers = PublishedNumbers { draining_millis: 19_000, ..numbers() };
    let events = bundle_events(&StatusSnapshot::from_numbers(numbers));
    assert_eq!(
        events.iter().map(|event| event.message).collect::<Vec<_>>(),
        vec![
            "control plane became ready",
            "cooperative shutdown requested",
            "status snapshot exported"
        ]
    );
    assert_eq!(events[1].severity, EventSeverity::Warning);
    assert_eq!(events[2].at_millis, 20_000);
    assert!(events[2].carries_counts);
    assert_eq!(bundle_events(&snapshot()).len(), 2);

    let inputs = bundle_inputs(&StatusSnapshot::from_numbers(numbers));
    assert_eq!(inputs.control_loop.name, "control-loop");
    assert!(inputs.control_loop.live && inputs.control_loop.tells_readiness);
    assert_eq!(inputs.control_loop.health, component_health(&StatusSnapshot::from_numbers(numbers)));
    assert_eq!(inputs.status_listener.name, "status-listener");
    assert_eq!(inputs.status_listener.health, ComponentHealth::Healthy);
    assert!(inputs.status_listener.ready && !inputs.status_listener.tells_readiness);
    assert_eq!(inputs.at_millis, 20_000);
    assert_eq!(u64::from(inputs.dropped_items), inputs.rejected);
    assert_eq!(inputs.events.len(), 3);
    assert_eq!(approximate(7), 7);
    assert_eq!(approximate(u64::MAX), u32::MAX);
    assert_eq!(unset_to_none(u64::MAX), None);
    assert_eq!(unset_to_none(0), Some(0));
    assert_eq!(bounded_millis(u128::MAX), u64::MAX);
    assert_eq!(bounded_millis(5), 5);
}

#[test]
fn published_states_are_read_back() {
    for readiness in [
        ReadinessState::Starting,
        ReadinessState::Ready,
        ReadinessState::Draining,
        ReadinessState::Unhealthy,
    ] {
        for health in [HealthState::Healthy, HealthState::Unhealthy] {
            let snapshot = StatusSnapshot::from_numbers(PublishedNumbers {
                readiness: encode_readiness(readiness),
                health: encode_health(health),
                ..numbers()
            });
            assert_eq!((snapshot.readiness, snapshot.health), (readiness, health));
        }
    }
    let start = StatusSnapshot::from_numbers(PublishedNumbers::at_start());
    assert_eq!((start.readiness, start.health), (ReadinessState::Starting, HealthState::Healthy));
    assert_eq!((start.ready_millis, start.draining_millis), (None, None));
    assert_eq!((start.beat_millis, start.served, start.rejected, start.in_flight), (0, 0, 0, 0));
    let starting = PublishedNumbers::at_start();
    assert_eq!(starting.drained(7), starting);
    let ready = starting.published(ReadinessState::Ready, HealthState::Healthy, 11);
    assert_eq!(StatusSnapshot::from_numbers(ready).ready_millis, Some(11));
    assert_eq!(ready.published(ReadinessState::Ready, HealthState::Healthy, 12), ready);
    let draining = ready.drained(20);
    assert_eq!(StatusSnapshot::from_numbers(draining).readiness, ReadinessState::Draining);
    assert_eq!((draining.ready_millis, draining.draining_millis), (11, 20));
    assert_eq!(draining.drained(21), draining);
    let again = draining.published(ReadinessState::Ready, HealthState::Unhealthy, 30).drained(31);
    assert_eq!((again.ready_millis, again.draining_millis), (11, 20));
    assert_eq!(StatusSnapshot::from_numbers(again).health, HealthState::Unhealthy);
    assert_eq!((first_moment(UNSET_MILLIS, 4), first_moment(3, 4)), (4, 3));
    let status = DaemonStatus::new();
    let begun = status.snapshot();
    assert_eq!(StatusSnapshot { uptime_millis: 0, ..begun }, start);
    assert_eq!(status.snapshot().readiness, ReadinessState::Starting);
    assert_eq!(status.snapshot().ready_millis, None);
    status.begin_draining();
    assert_eq!(status.snapshot().readiness, ReadinessState::Starting);
    status.publish(ReadinessState::Ready, HealthState::Healthy);
    while status.uptime_millis() < 5 {}
    status.beat();
    let ready = status.snapshot();
    assert!(ready.ready() && ready.ready_millis.is_some() && ready.draining_millis.is_none());
    assert!(ready.beat_millis >= 5);
    status.begin_draining();
    let draining = status.snapshot();
    assert_eq!(draining.readiness, ReadinessState::Draining);
    let first = draining.draining_millis;
    assert!(first.is_some());
    let later = status.uptime_millis() + 5;
    while status.uptime_millis() < later {}
    status.stamp(&status.draining_millis);
    assert_eq!(status.snapshot().draining_millis, first);
}

#[test]
fn reads_and_writes_end_as_they_must() {
    let mut head = b"GET".to_vec();
    assert!(receive_head(&mut head, SocketRead::Interrupted).is_ok());
    assert!(receive_head(&mut head, SocketRead::Bytes(b" /healthz")).is_ok());
    assert_eq!(head, b"GET /healthz");
    assert_eq!(receive_head(&mut head, SocketRead::TimedOut).unwrap_err().status, 408);
    assert_eq!(receive_head(&mut head, SocketRead::Closed).unwrap_err().status, 400);
    assert_eq!(receive_head(&mut head, SocketRead::Failed).unwrap_err().status, 400);
    assert_eq!(head, b"GET /healthz");

    assert_eq!(send_step(3, 8, false), SendStep::Write);
    assert_eq!(send_step(3, 8, true), SendStep::GiveUp);
    assert_eq!(send_step(8, 8, true), SendStep::Done);
    assert_eq!(count_sent(3, SocketWrite::Wrote(5)), Some(8));
    assert_eq!(count_sent(3, SocketWrite::Wrote(0)), None);
    assert_eq!(count_sent(3, SocketWrite::Interrupted), Some(3));
    assert_eq!(count_sent(3, SocketWrite::Failed), None);
}

#[test]
fn browsers_ask_for_the_control_channel_with_the_token() {
    let token = WebToken::from_environment(Some(SECRET)).ok().unwrap();
    let header = format!("Bearer {SECRET}");
    let header = Some(header.as_bytes());
    assert_eq!(web_admission(Some("/v1/control"), header, &token), Ok(()));
    for target in [Some("/v1/control?x"), Some("/"), None] {
        assert_eq!(web_admission(target, header, &token), Err(WebRefusal::NotFound));
    }
    assert_eq!(
        web_admission(Some("/v1/control"), None, &token),
        Err(WebRefusal::Unauthorized)
    );
    assert_eq!(refuse(WebRefusal::NotFound).status, 404);
    assert_eq!(refuse(WebRefusal::Unauthorized).status, 401);
    assert_eq!(http_error(503).status, 503);
    assert!(http_error(503).body.is_none());
}

#[test]
fn only_texts_that_are_messages_go_on() {
    assert_eq!(relay_step(WebRead::Text { decoded: true }), RelayStep::Deliver);
    assert_eq!(relay_step(WebRead::Text { decoded: false }), RelayStep::Stop);
    assert_eq!(relay_step(WebRead::Binary), RelayStep::Stop);
    assert_eq!(relay_step(WebRead::Ping), RelayStep::Continue);
    assert_eq!(relay_step(WebRead::Close), RelayStep::Flush);
    assert_eq!(relay_step(WebRead::Pending), RelayStep::Wait);
    let limits = websocket_limits(1_000);
    assert_eq!((limits.max_message, limits.max_frame, limits.max_write_buffer), (1_000, 1_000, 2_000));
}

#[test]
fn numbers_are_written_in_full() {
    for value in [0, 9, 10, 4_096, u64::MAX] {
        assert_eq!(decimal(value), value.to_string());
    }
}
