//! What the listeners answer, and to whom.
use vstd::prelude::*;

use crate::access_token;
use crate::request_head;
use crate::request_head::RequestModel;
use crate::status;
use crate::status::{
    BundleExport, EventModel, EventSeverity, HealthState, PublishedNumbers,
    ReadinessState, StatusSnapshot,
};
use crate::status_http;
use crate::status_http::{
    Admission, HeadStep, ResponseModel, SendStep, SocketWrite, WorkerOffer, MAX_DRAIN_BYTES,
    MAX_REQUEST_BYTES,
};
use crate::text;
use crate::web;
use crate::web::{HttpRefusal, RelayStep, WebRead, WebRefusal, WebSocketLimits};

verus! {

/// The daemon has stalled exactly where its control loop has been silent for too long, and the
/// states are those that were published. A moment that has not come is not told.
pub proof fn snapshots_tell_what_was_published(
    numbers: PublishedNumbers,
    readiness: ReadinessState,
    health: HealthState,
)
    requires
        numbers.readiness == status::readiness_number(readiness),
        numbers.health == status::health_number(health),
    ensures
        ({
            let snapshot = status::snapshot_of(numbers);
            &&& snapshot.stalled <==> numbers.uptime_millis > numbers.beat_millis
                + status::CONTROL_STALL_LIMIT_MILLIS
            &&& snapshot.readiness == readiness
            &&& snapshot.health == health
            &&& snapshot.uptime_millis == numbers.uptime_millis
            &&& snapshot.beat_millis == numbers.beat_millis
            &&& snapshot.served == numbers.served
            &&& snapshot.rejected == numbers.rejected
            &&& snapshot.in_flight == numbers.in_flight
            &&& match snapshot.ready_millis {
                Some(moment) => moment == numbers.ready_millis && moment != status::UNSET_MILLIS,
                None => numbers.ready_millis == status::UNSET_MILLIS,
            }
            &&& match snapshot.draining_millis {
                Some(moment) => moment == numbers.draining_millis && moment
                    != status::UNSET_MILLIS,
                None => numbers.draining_millis == status::UNSET_MILLIS,
            }
        }),
{
}

/// No two states are published as the same number.
pub proof fn states_have_numbers_of_their_own(
    a: ReadinessState,
    b: ReadinessState,
    c: HealthState,
    d: HealthState,
)
    ensures
        status::readiness_number(a) == status::readiness_number(b) <==> a == b,
        status::health_number(c) == status::health_number(d) <==> c == d,
{
}

/// A request to stop moves a daemon that is ready to draining and changes nothing else but the
/// moment that is noted for it; publishing changes nothing but the states and the moment when
/// the daemon is first ready.
pub proof fn only_what_is_published_changes(
    numbers: PublishedNumbers,
    readiness: ReadinessState,
    health: HealthState,
    now: u64,
)
    ensures
        ({
            let after = status::drained_numbers(numbers, now);
            &&& after.uptime_millis == numbers.uptime_millis
            &&& after.beat_millis == numbers.beat_millis
            &&& after.health == numbers.health
            &&& after.ready_millis == numbers.ready_millis
            &&& after.served == numbers.served && after.rejected == numbers.rejected
            &&& after.in_flight == numbers.in_flight
            &&& numbers.readiness == status::readiness_number(ReadinessState::Ready) ==> {
                &&& after.readiness == status::readiness_number(ReadinessState::Draining)
                &&& numbers.draining_millis == status::UNSET_MILLIS ==> after.draining_millis == now
                &&& numbers.draining_millis != status::UNSET_MILLIS ==> after.draining_millis
                    == numbers.draining_millis
            }
        }),
        ({
            let after = status::published_numbers(numbers, readiness, health, now);
            &&& after.uptime_millis == numbers.uptime_millis
            &&& after.beat_millis == numbers.beat_millis
            &&& after.draining_millis == numbers.draining_millis
            &&& after.served == numbers.served && after.rejected == numbers.rejected
            &&& after.in_flight == numbers.in_flight
            &&& readiness is Ready && numbers.ready_millis == status::UNSET_MILLIS
                ==> after.ready_millis == now
            &&& !(readiness is Ready && numbers.ready_millis == status::UNSET_MILLIS)
                ==> after.ready_millis == numbers.ready_millis
        }),
{
}

/// The word that a liveness probe is told: what has failed comes before what has stalled.
pub open spec fn life_word(snapshot: StatusSnapshot) -> Seq<char> {
    match (snapshot.health, snapshot.stalled) {
        (HealthState::Unhealthy, _) => "unhealthy"@,
        (HealthState::Healthy, true) => "stalled"@,
        (HealthState::Healthy, false) => "live"@,
    }
}

/// Whether an answer says that all is well, or that it is not, with a text.
pub open spec fn tells(answer: ResponseModel, well: bool, body: Seq<char>) -> bool {
    &&& answer.status == (if well {
        200u16
    } else {
        503u16
    })
    &&& answer.reason == (if well {
        "OK"@
    } else {
        "Service Unavailable"@
    })
    &&& !answer.authenticate
    &&& answer.body == body
}

/// A liveness probe is told that all is well exactly where nothing has failed and the control
/// loop runs, and how long the daemon and its last beat have been.
pub proof fn liveness_is_told(snapshot: StatusSnapshot)
    ensures
        tells(
            status::health_answer(snapshot),
            snapshot.health is Healthy && !snapshot.stalled,
            "FREEMIXD_STATUS\tv=1\tcheck=healthz\tstatus="@ + life_word(snapshot)
                + "\tuptime_ms="@ + text::digits(snapshot.uptime_millis as nat)
                + "\tlast_beat_ms="@ + text::digits(snapshot.beat_millis as nat) + "\n"@,
        ),
{
}

/// A readiness probe is told that all is well exactly where the daemon is live and takes work.
pub proof fn readiness_is_told(snapshot: StatusSnapshot, readiness: Seq<char>, health: Seq<char>)
    ensures
        ({
            let ready = snapshot.health is Healthy && !snapshot.stalled && snapshot.readiness
                is Ready;
            tells(
                status::ready_answer(snapshot, readiness, health),
                ready,
                "FREEMIXD_STATUS\tv=1\tcheck=readyz\tstatus="@ + (if ready {
                    "ready"@
                } else {
                    "not-ready"@
                }) + "\treadiness="@ + readiness + "\thealth="@ + health + "\tliveness="@ + (
                if snapshot.stalled {
                    "stalled"@
                } else {
                    "live"@
                }) + "\tuptime_ms="@ + text::digits(snapshot.uptime_millis as nat) + "\n"@,
            )
        }),
{
}

/// The control loop is well exactly where the daemon is ready, and unwell exactly where it is
/// not live.
pub proof fn the_control_loop_is_as_well_as_the_daemon(snapshot: StatusSnapshot)
    ensures
        status::loop_health(snapshot) is Unhealthy <==> snapshot.stalled || snapshot.health
            is Unhealthy,
        status::loop_health(snapshot) is Healthy <==> !snapshot.stalled && snapshot.health
            is Healthy && snapshot.readiness is Ready,
{
}

/// Whether an event says that something came to pass at a moment.
pub open spec fn is_event(
    event: EventModel,
    at_millis: u64,
    message: Seq<char>,
    severity: EventSeverity,
    carries_counts: bool,
) -> bool {
    &&& event.at_millis == at_millis
    &&& event.message == message
    &&& event.severity == severity
    &&& event.carries_counts == carries_counts
}

/// A support bundle tells when the daemon became ready and when it was told to stop, where that
/// has come to pass, and last of all that it was made.
pub proof fn bundles_tell_what_came_to_pass(snapshot: StatusSnapshot)
    ensures
        ({
            let events = status::events_of(snapshot);
            let ready: int = if snapshot.ready_millis is Some {
                1
            } else {
                0
            };
            let draining: int = if snapshot.draining_millis is Some {
                1
            } else {
                0
            };
            &&& events.len() == ready + draining + 1
            &&& snapshot.ready_millis matches Some(moment) ==> is_event(
                events[0],
                moment,
                "control plane became ready"@,
                EventSeverity::Info,
                false,
            )
            &&& snapshot.draining_millis matches Some(moment) ==> is_event(
                events[ready],
                moment,
                "cooperative shutdown requested"@,
                EventSeverity::Warning,
                false,
            )
            &&& is_event(
                events[ready + draining],
                snapshot.uptime_millis,
                "status snapshot exported"@,
                EventSeverity::Info,
                true,
            )
        }),
{
}

/// Whether a count is told as it is, or as the largest that can be told.
pub open spec fn is_told(count: int, told: u32) -> bool {
    told == count || told == u32::MAX && count > u32::MAX
}

/// A support bundle is made of the snapshot alone: how the control loop fares, that the listener
/// answers, and the counts.
pub proof fn bundles_are_made_of_the_snapshot(snapshot: StatusSnapshot)
    ensures
        ({
            let inputs = status::inputs_of(snapshot);
            &&& inputs.control_loop.live <==> !snapshot.stalled
            &&& inputs.control_loop.ready <==> !snapshot.stalled && snapshot.health is Healthy
                && snapshot.readiness is Ready
            &&& inputs.control_loop.health is Unhealthy <==> snapshot.stalled || snapshot.health
                is Unhealthy
            &&& inputs.control_loop.tells_readiness
            &&& inputs.status_listener.live && inputs.status_listener.ready
            &&& inputs.status_listener.health is Healthy
            &&& !inputs.status_listener.tells_readiness
            &&& is_told(snapshot.in_flight as int, inputs.queue_depth)
            &&& is_told(snapshot.rejected as int, inputs.dropped_items)
            &&& inputs.at_millis == snapshot.uptime_millis
            &&& inputs.readiness == snapshot.readiness
            &&& inputs.served == snapshot.served
            &&& inputs.rejected == snapshot.rejected
        }),
{
}

/// Whether a path is one that the listener answers.
pub open spec fn is_known(path: Seq<char>) -> bool {
    path == "/healthz"@ || path == "/readyz"@ || path == "/v1/support-bundle"@
}

/// Whether a request carries a token: `Bearer`, a blank, and nothing but the secret.
pub open spec fn carries_secret(request: RequestModel, secret: Seq<u8>) -> bool {
    request.authorization matches Some(value) && vstd::utf8::encode_utf8(value) == seq![
        66u8,
        101,
        97,
        114,
        101,
        114,
        32,
    ] + secret
}

/// Every request is answered for what it asks: one that cannot be read with why, one for something
/// else with that there is no such thing, one that wants to change something with that it may
/// not, and the support bundle only to who has the token.
pub proof fn requests_are_answered_for_what_they_ask(
    head: Seq<u8>,
    snapshot: StatusSnapshot,
    readiness: Seq<char>,
    health: Seq<char>,
    secret: Seq<u8>,
    export: BundleExport,
)
    ensures
        ({
            let answer = status::answer(head, snapshot, readiness, health, secret, export);
            match request_head::parsed(head) {
                Err(refusal) => answer == refusal,
                Ok(request) => {
                    let reads = request.method == "GET"@;
                    &&& !is_known(request.path) ==> answer.status == 404 && !answer.authenticate
                    &&& is_known(request.path) && !reads ==> answer.status == 405
                        && !answer.authenticate
                    &&& request.path == "/healthz"@ && reads ==> answer == status::health_answer(
                        snapshot,
                    )
                    &&& request.path == "/readyz"@ && reads ==> answer == status::ready_answer(
                        snapshot,
                        readiness,
                        health,
                    )
                    &&& request.path == "/v1/support-bundle"@ && reads && carries_secret(
                        request,
                        secret,
                    ) ==> answer == status::bundle_answer(export)
                    &&& request.path == "/v1/support-bundle"@ && reads && !carries_secret(
                        request,
                        secret,
                    ) ==> answer.status == 401 && answer.authenticate
                },
            }
        }),
        status::gets_bundle(head, secret) <==> (request_head::parsed(head) matches Ok(request)
            && request.path == "/v1/support-bundle"@ && request.method == "GET"@ && carries_secret(
            request,
            secret,
        )),
{
    reveal_strlit("/healthz");
    reveal_strlit("/readyz");
    reveal_strlit("/v1/support-bundle");
    assert("/healthz"@.len() != "/v1/support-bundle"@.len());
    assert("/readyz"@.len() != "/v1/support-bundle"@.len());
    assert("/healthz"@.len() != "/readyz"@.len());
    assert(access_token::bearer() =~= seq![66u8, 101, 97, 114, 101, 114, 32]);
}

/// The answer with a support bundle carries the whole bundle behind what is said of it.
pub proof fn bundles_are_sent_whole(export: BundleExport)
    ensures
        ({
            let answer = status::bundle_answer(export);
            tells(
                answer,
                true,
                "FREEMIXD_STATUS\tv=1\tcheck=support-bundle\tstatus=ok\tbytes="@ + text::digits(
                    vstd::utf8::encode_utf8(export.text@).len(),
                ) + "\tuncapped_bytes="@ + text::digits(export.uncapped_bytes as nat)
                    + "\ttruncated="@ + (if export.truncated {
                    "true"@
                } else {
                    "false"@
                }) + "\n"@ + export.text@,
            )
        }),
{
}

/// A browser is let in exactly where it asks for the control channel and presents the token; who
/// asks for something else is told so, whatever they present.
pub proof fn browsers_are_let_in_with_the_token(
    target: Option<&str>,
    authorization: Option<&[u8]>,
    secret: Seq<u8>,
)
    ensures
        ({
            let admitted = web::admission(target, authorization, secret);
            let control = target matches Some(target) && target@ == "/v1/control"@;
            let known = authorization matches Some(value) && value@ == seq![
                66u8,
                101,
                97,
                114,
                101,
                114,
                32,
            ] + secret;
            &&& admitted is Ok <==> control && known
            &&& !control ==> admitted == Err::<(), WebRefusal>(WebRefusal::NotFound)
            &&& control && !known ==> admitted == Err::<(), WebRefusal>(WebRefusal::Unauthorized)
        }),
        web::refusal_status(WebRefusal::NotFound) == 404,
        web::refusal_status(WebRefusal::Unauthorized) == 401,
{
    assert(access_token::bearer() =~= seq![66u8, 101, 97, 114, 101, 114, 32]);
}

/// Only messages go on from a browser. One that is greeted is answered by waiting for more, one
/// that closes is bidden farewell, and one that sends anything else is left.
pub proof fn only_messages_go_on(read: WebRead, step: RelayStep)
    requires
        call_ensures(web::relay_step, (read,), step),
    ensures
        step is Deliver <==> read == (WebRead::Text { decoded: true }),
        step is Continue <==> read is Ping || read is Pong,
        step is Wait <==> read is Pending,
        step is Flush <==> read is Close,
        step is Stop <==> read is Binary || read is Frame || read is Failed || read
            == (WebRead::Text { decoded: false }),
{
}

/// A connection is asked of one worker after another until one has it; only where all are busy is
/// it turned away.
pub proof fn connections_are_offered_to_every_worker(
    offer: WorkerOffer,
    left: usize,
    admission: Admission,
)
    requires
        call_ensures(status_http::offer_step, (offer, left), admission),
    ensures
        admission is Reject <==> offer is Busy && left == 0,
        admission is AskNext <==> offer is Busy && left > 0,
        admission is Settled <==> !(offer is Busy),
{
}

/// Bytes are written until all have gone, or it has taken too long, and every byte that went is
/// counted once.
pub proof fn answers_are_written_to_the_end(
    sent: usize,
    length: usize,
    deadline_passed: bool,
    step: SendStep,
    write: SocketWrite,
    counted: Option<usize>,
)
    requires
        call_ensures(status_http::send_step, (sent, length, deadline_passed), step),
        call_ensures(status_http::count_sent, (sent, write), counted),
        write matches SocketWrite::Wrote(count) ==> sent + count <= usize::MAX,
    ensures
        step is Done <==> sent >= length,
        step is GiveUp <==> sent < length && deadline_passed,
        step is Write <==> sent < length && !deadline_passed,
        write matches SocketWrite::Wrote(count) ==> (counted is Some <==> count > 0) && (
        counted matches Some(total) ==> total == sent + count),
        write is Interrupted ==> counted == Some(sent),
        write is Failed ==> counted is None,
{
}

/// The place at which a head ends is the first at which an empty line follows.
pub proof fn heads_end_with_the_first_empty_line(head: Seq<u8>, from: int)
    requires
        0 <= from,
    ensures
        match status_http::head_end(head, from) {
            Some(end) => {
                &&& from <= end
                &&& end + 4 <= head.len()
                &&& head[end] == 13 && head[end + 1] == 10
                &&& head[end + 2] == 13 && head[end + 3] == 10
                &&& forall|i: int| from <= i < end ==> !#[trigger] status_http::ends_at(head, i)
            },
            None => forall|i: int| from <= i ==> !#[trigger] status_http::ends_at(head, i),
        },
    decreases head.len() - from,
{
    if from + 4 <= head.len() && !status_http::ends_at(head, from) {
        heads_end_with_the_first_empty_line(head, from + 1);
    }
}

/// A head is read on until it ends, is too long or takes too long; one that ends is taken, however
/// long it took.
pub proof fn heads_are_read_until_they_end(head: Seq<u8>, deadline_passed: bool)
    requires
        head.len() <= usize::MAX,
    ensures
        ({
            let step = status_http::reading_step(head, deadline_passed);
            let ended = exists|i: int| #[trigger] status_http::ends_at(head, i);
            &&& step is Complete <==> ended
            &&& step matches HeadStep::Complete(end) ==> status_http::ends_at(head, end as int)
                && forall|i: int| 0 <= i < end ==> !#[trigger] status_http::ends_at(head, i)
            &&& step is TooLarge <==> !ended && head.len() >= MAX_REQUEST_BYTES
            &&& step is Timeout <==> !ended && head.len() < MAX_REQUEST_BYTES && deadline_passed
            &&& step is Read <==> !ended && head.len() < MAX_REQUEST_BYTES && !deadline_passed
        }),
{
    heads_end_with_the_first_empty_line(head, 0);
    if let Some(end) = status_http::head_end(head, 0) {
        assert(status_http::ends_at(head, end));
    }
}

/// What is read of a request is kept from the front on, as far as there is room.
pub proof fn heads_keep_what_comes_first(head: Seq<u8>, chunk: Seq<u8>)
    requires
        head.len() <= MAX_REQUEST_BYTES,
    ensures
        ({
            let after = status_http::extended(head, chunk);
            &&& after.len() <= MAX_REQUEST_BYTES
            &&& after.len() == head.len() + chunk.len() || after.len() == MAX_REQUEST_BYTES
            &&& after.len() <= head.len() + chunk.len()
            &&& after =~= (head + chunk).take(after.len() as int)
        }),
{
}

/// Whether a line break stands at a place.
pub open spec fn breaks_at(text: Seq<char>, i: int) -> bool {
    0 <= i && i + 1 < text.len() && text[i] == '\r' && text[i + 1] == '\n'
}

/// Whether a line of a text goes from a place to another: no line break stands in it, and one
/// stands behind it, or it is the last.
pub open spec fn is_line(text: Seq<char>, from: int, to: int) -> bool {
    &&& 0 <= from <= to <= text.len()
    &&& to == text.len() || breaks_at(text, to)
    &&& forall|i: int| from <= i < to ==> !#[trigger] breaks_at(text, i)
}

proof fn lemma_line(text: Seq<char>, from: int)
    requires
        0 <= from <= text.len(),
    ensures
        is_line(text, from, request_head::line_end(text, from)),
    decreases text.len() - from,
{
    if from < text.len() && !breaks_at(text, from) {
        lemma_line(text, from + 1);
    }
}

proof fn lemma_line_is(text: Seq<char>, from: int, to: int)
    requires
        is_line(text, from, to),
    ensures
        request_head::line_end(text, from) == to,
{
    lemma_line(text, from);
    let found = request_head::line_end(text, from);
    if found < to {
        assert(breaks_at(text, found));
    }
    if to < found {
        assert(breaks_at(text, to));
    }
}

proof fn lemma_first(text: Seq<char>, from: int, to: int, a: char, b: char)
    requires
        0 <= from <= to <= text.len(),
    ensures
        ({
            let found = request_head::first_of(text, from, to, a, b);
            &&& from <= found <= to
            &&& found < to ==> text[found] == a || text[found] == b
            &&& forall|i: int| from <= i < found ==> #[trigger] text[i] != a && text[i] != b
        }),
    decreases to - from,
{
    if from < to && text[from] != a && text[from] != b {
        lemma_first(text, from + 1, to, a, b);
    }
}

proof fn lemma_first_is(text: Seq<char>, from: int, to: int, a: char, b: char, place: int)
    requires
        0 <= from <= place <= to <= text.len(),
        place < to ==> text[place] == a || text[place] == b,
        forall|i: int| from <= i < place ==> #[trigger] text[i] != a && text[i] != b,
    ensures
        request_head::first_of(text, from, to, a, b) == place,
{
    lemma_first(text, from, to, a, b);
    let found = request_head::first_of(text, from, to, a, b);
    if found < place {
        assert(text[found] != a);
    }
    if place < found {
        assert(text[place] != a);
    }
}

/// The first line of a request: a method, a target and a version, with one blank between each.
pub open spec fn first_line(method: Seq<char>, target: Seq<char>, version: Seq<char>) -> Seq<char> {
    method + seq![' '] + target + seq![' '] + version
}

/// Whether a text can stand between blanks on a line.
pub open spec fn is_word(text: Seq<char>) -> bool {
    forall|i: int|
        0 <= i < text.len() ==> #[trigger] text[i] != ' ' && text[i] != '\r' && text[i] != '\n'
}

/// Whether a path is what comes before the query and the fragment of a target.
pub open spec fn is_path_of(path: Seq<char>, target: Seq<char>) -> bool {
    &&& path.len() <= target.len()
    &&& target.take(path.len() as int) == path
    &&& forall|i: int| 0 <= i < path.len() ==> #[trigger] path[i] != '?' && path[i] != '#'
    &&& path.len() < target.len() ==> target[path.len() as int] == '?' || target[path.len() as int]
        == '#'
}

/// A request without headers is read as it was written: its method, and its target without query
/// and fragment.
pub proof fn requests_are_read_as_written(
    method: Seq<char>,
    target: Seq<char>,
    path: Seq<char>,
    version: Seq<char>,
)
    requires
        is_word(method),
        is_word(target),
        is_path_of(path, target),
        version == "HTTP/1.1"@ || version == "HTTP/1.0"@,
    ensures
        request_head::request_of(first_line(method, target, version)) matches Ok(request) && {
            &&& request.method == method
            &&& request.path == path
            &&& request.authorization is None
        },
{
    lemma_version();
    let text = first_line(method, target, version);
    lemma_first_line(method, target, path, version, Seq::empty());
    assert(text =~= text + Seq::<char>::empty());
}

/// What stands behind the first line of a request is read as its headers: they do not change what
/// the first line says, and where they are refused the request is.
pub proof fn headers_follow_the_first_line(
    method: Seq<char>,
    target: Seq<char>,
    path: Seq<char>,
    version: Seq<char>,
    rest: Seq<char>,
)
    requires
        is_word(method),
        is_word(target),
        is_path_of(path, target),
        version == "HTTP/1.1"@ || version == "HTTP/1.0"@,
    ensures
        ({
            let line = first_line(method, target, version);
            let text = line + seq!['\r', '\n'] + rest;
            let headers = request_head::headers_from(text, line.len() as int + 2, 0, None);
            match request_head::request_of(text) {
                Ok(request) => request.method == method && request.path == path && headers == Ok::<
                    Option<Seq<char>>,
                    ResponseModel,
                >(request.authorization),
                Err(refusal) => headers == Err::<Option<Seq<char>>, ResponseModel>(refusal),
            }
        }),
{
    lemma_version();
    let line = first_line(method, target, version);
    let behind = seq!['\r', '\n'] + rest;
    lemma_first_line(method, target, path, version, behind);
    assert(line + behind =~= line + seq!['\r', '\n'] + rest);
}

proof fn lemma_version()
    ensures
        is_word("HTTP/1.1"@),
        is_word("HTTP/1.0"@),
{
    reveal_strlit("HTTP/1.1");
    reveal_strlit("HTTP/1.0");
}

proof fn lemma_first_line(
    method: Seq<char>,
    target: Seq<char>,
    path: Seq<char>,
    version: Seq<char>,
    behind: Seq<char>,
)
    requires
        is_word(method),
        is_word(target),
        is_word(version),
        is_path_of(path, target),
        behind.len() == 0 || behind.len() >= 2 && behind[0] == '\r' && behind[1] == '\n',
    ensures
        ({
            let line = first_line(method, target, version);
            let text = line + behind;
            let first = method.len() as int;
            let second = first + 1 + target.len();
            &&& request_head::line_end(text, 0) == line.len()
            &&& request_head::first_of(text, 0, line.len() as int, ' ', ' ') == first
            &&& request_head::first_of(text, first + 1, line.len() as int, ' ', ' ') == second
            &&& request_head::first_of(text, second + 1, line.len() as int, ' ', ' ') == line.len()
            &&& text.subrange(second + 1, line.len() as int) == version
            &&& text.subrange(0, first) == method
            &&& request_head::first_of(text, first + 1, second, '?', '#') == first + 1 + path.len()
            &&& text.subrange(first + 1, first + 1 + path.len()) == path
        }),
{
    let line = first_line(method, target, version);
    let text = line + behind;
    let first = method.len() as int;
    let second = first + 1 + target.len();
    let end = line.len() as int;
    assert(forall|i: int| 0 <= i < first ==> #[trigger] text[i] == method[i]);
    assert(text[first] == ' ');
    assert(forall|i: int| first < i < second ==> #[trigger] text[i] == target[i - first - 1]);
    assert(text[second] == ' ');
    assert(forall|i: int| second < i < end ==> #[trigger] text[i] == version[i - second - 1]);
    assert forall|i: int| 0 <= i < end implies !#[trigger] breaks_at(text, i) by {
        if i < first {
            assert(text[i] == method[i]);
        } else if first < i < second {
            assert(text[i] == target[i - first - 1]);
        } else if second < i {
            assert(text[i] == version[i - second - 1]);
        }
    }
    if behind.len() > 0 {
        assert(text[end] == behind[0] && text[end + 1] == behind[1]);
    }
    lemma_line_is(text, 0, end);
    lemma_first_is(text, 0, end, ' ', ' ', first);
    lemma_first_is(text, first + 1, end, ' ', ' ', second);
    lemma_first_is(text, second + 1, end, ' ', ' ', end);
    assert(text.subrange(second + 1, end) =~= version);
    assert(text.subrange(0, first) =~= method);
    assert forall|i: int| first + 1 <= i < first + 1 + path.len() implies #[trigger] text[i] != '?'
        && text[i] != '#' by {
        assert(text[i] == target[i - first - 1]);
        assert(target.take(path.len() as int)[i - first - 1] == path[i - first - 1]);
    }
    if path.len() < target.len() {
        assert(text[first + 1 + path.len()] == target[path.len() as int]);
    }
    lemma_first_is(text, first + 1, second, '?', '#', first + 1 + path.len());
    assert(text.subrange(first + 1, first + 1 + path.len()) =~= target.take(path.len() as int));
}

/// Whether a line of a text holds a header: the name goes to its first colon, the value is what
/// stands behind it without white space at either end.
pub open spec fn is_header(
    text: Seq<char>,
    from: int,
    to: int,
    colon: int,
    first: int,
    last: int,
) -> bool {
    &&& is_line(text, from, to)
    &&& from <= colon < to
    &&& text[colon] == ':'
    &&& forall|i: int| from <= i < colon ==> #[trigger] text[i] != ':'
    &&& colon + 1 <= first <= last <= to
    &&& forall|i: int|
        colon + 1 <= i < first ==> request_head::is_white_space(#[trigger] text[i])
    &&& forall|i: int| last <= i < to ==> request_head::is_white_space(#[trigger] text[i])
    &&& first < last ==> !request_head::is_white_space(text[first])
        && !request_head::is_white_space(text[last - 1])
    &&& first == last ==> first == to
}

proof fn lemma_trimmed_start(text: Seq<char>, from: int, to: int)
    requires
        0 <= from <= to <= text.len(),
    ensures
        ({
            let start = request_head::trimmed_start(text, from, to);
            &&& from <= start <= to
            &&& start < to ==> !request_head::is_white_space(text[start])
            &&& forall|i: int|
                from <= i < start ==> request_head::is_white_space(#[trigger] text[i])
        }),
    decreases to - from,
{
    if from < to && request_head::is_white_space(text[from]) {
        lemma_trimmed_start(text, from + 1, to);
    }
}

proof fn lemma_trimmed_end(text: Seq<char>, from: int, to: int)
    requires
        0 <= from <= to <= text.len(),
    ensures
        ({
            let end = request_head::trimmed_end(text, from, to);
            &&& from <= end <= to
            &&& end > from ==> !request_head::is_white_space(text[end - 1])
            &&& forall|i: int| end <= i < to ==> request_head::is_white_space(#[trigger] text[i])
        }),
    decreases to - from,
{
    if from < to && request_head::is_white_space(text[to - 1]) {
        lemma_trimmed_end(text, from, to - 1);
    }
}

proof fn lemma_header(
    text: Seq<char>,
    from: int,
    to: int,
    colon: int,
    first: int,
    last: int,
)
    requires
        is_header(text, from, to, colon, first, last),
    ensures
        request_head::line_end(text, from) == to,
        request_head::first_of(text, from, to, ':', ':') == colon,
        request_head::trimmed(text, colon + 1, to) == text.subrange(first, last),
{
    lemma_line_is(text, from, to);
    lemma_first_is(text, from, to, ':', ':', colon);
    lemma_trimmed_start(text, colon + 1, to);
    let start = request_head::trimmed_start(text, colon + 1, to);
    if start < first {
        assert(request_head::is_white_space(text[start]));
    }
    if first < start {
        assert(request_head::is_white_space(text[first]));
    }
    assert(start == first);
    lemma_trimmed_end(text, first, to);
    let end = request_head::trimmed_end(text, first, to);
    if end < last {
        assert(request_head::is_white_space(text[last - 1]));
    }
    if last < end {
        assert(request_head::is_white_space(text[end - 1]));
    }
}

/// Whether a line begins at a place, where headers are read from another on.
pub open spec fn begins_line(text: Seq<char>, from: int, start: int) -> bool {
    start == from || from + 2 <= start && breaks_at(text, start - 2)
}

/// Headers that are accepted say who asks at most once: a header for it is what is read. None of
/// them announces a body.
pub proof fn headers_say_who_asks(
    text: Seq<char>,
    from: int,
    authorization: Option<Seq<char>>,
    start: int,
    end: int,
    colon: int,
    first: int,
    last: int,
)
    requires
        0 <= from <= text.len(),
        request_head::headers_from(text, from, 0, None) == Ok::<
            Option<Seq<char>>,
            ResponseModel,
        >(authorization),
        begins_line(text, from, start),
        start >= from,
        is_header(text, start, end, colon, first, last),
    ensures
        ({
            let name = text.subrange(start, colon);
            let value = text.subrange(first, last);
            &&& request_head::same_word(name, "authorization"@) ==> authorization == Some(value)
            &&& !request_head::same_word(name, "transfer-encoding"@)
            &&& request_head::same_word(name, "content-length"@) ==> value == "0"@
        }),
{
    lemma_headers(text, from, 0, None, start, end, colon, first, last);
}

proof fn lemma_names_differ(name: Seq<char>)
    ensures
        request_head::same_word(name, "authorization"@) ==> !request_head::same_word(
            name,
            "transfer-encoding"@,
        ) && !request_head::same_word(name, "content-length"@),
{
    reveal_strlit("authorization");
    reveal_strlit("transfer-encoding");
    reveal_strlit("content-length");
}

proof fn lemma_headers(
    text: Seq<char>,
    from: int,
    count: nat,
    before: Option<Seq<char>>,
    start: int,
    end: int,
    colon: int,
    first: int,
    last: int,
)
    requires
        0 <= from <= text.len(),
        begins_line(text, from, start),
        start >= from,
        is_header(text, start, end, colon, first, last),
    ensures
        request_head::headers_from(text, from, count, before) matches Ok(authorization) ==> {
            let name = text.subrange(start, colon);
            let value = text.subrange(first, last);
            &&& request_head::same_word(name, "authorization"@) ==> authorization == Some(value)
            &&& !request_head::same_word(name, "transfer-encoding"@)
            &&& request_head::same_word(name, "content-length"@) ==> value == "0"@
            &&& before is Some ==> authorization == before && !request_head::same_word(
                name,
                "authorization"@,
            )
        },
    decreases text.len() + 2 - from,
{
    let line = request_head::line_end(text, from);
    lemma_line(text, from);
    let name = text.subrange(start, colon);
    lemma_names_differ(name);
    if start == from {
        lemma_header(text, start, end, colon, first, last);
        if line < text.len() {
            if request_head::same_word(name, "authorization"@) {
                lemma_headers_keep(
                    text,
                    line + 2,
                    count + 1,
                    Some(text.subrange(first, last)),
                );
            } else {
                if before is Some {
                    lemma_headers_keep(text, line + 2, count + 1, before);
                }
            }
        }
    } else {
        if start - 2 < line {
            assert(breaks_at(text, start - 2));
        }
        assert(line < text.len());
        assert(breaks_at(text, line));
        if start < line + 2 {
            assert(start == line + 1);
            assert(text[line] == '\r' && text[start - 1] == '\n');
        }
        assert(line + 2 <= start);
        if start > line + 2 {
            assert(line + 2 + 2 <= start) by {
                if start == line + 3 {
                    assert(text[line + 1] == '\r' && text[line + 1] == '\n');
                }
            }
        }
        if line > from {
            let at = request_head::first_of(text, from, line, ':', ':');
            lemma_first(text, from, line, ':', ':');
            let value = request_head::trimmed(text, at + 1, line);
            lemma_headers(text, line + 2, count + 1, before, start, end, colon, first, last);
            lemma_headers(
                text,
                line + 2,
                count + 1,
                Some(value),
                start,
                end,
                colon,
                first,
                last,
            );
        } else {
            lemma_headers(text, line + 2, count, before, start, end, colon, first, last);
        }
    }
}

proof fn lemma_headers_keep(text: Seq<char>, from: int, count: nat, before: Option<Seq<char>>)
    requires
        before is Some,
    ensures
        request_head::headers_from(text, from, count, before) matches Ok(authorization)
            ==> authorization == before,
    decreases text.len() + 2 - from,
{
    if 0 <= from <= text.len() {
        let end = request_head::line_end(text, from);
        lemma_line(text, from);
        if end < text.len() {
            lemma_headers_keep(text, end + 2, count, before);
            lemma_headers_keep(text, end + 2, count + 1, before);
        }
    }
}

/// Whether a header says who asks.
pub open spec fn says_who(
    text: Seq<char>,
    from: int,
    value: Seq<char>,
    start: int,
    end: int,
    colon: int,
    first: int,
    last: int,
) -> bool {
    &&& from <= start
    &&& begins_line(text, from, start)
    &&& is_header(text, start, end, colon, first, last)
    &&& request_head::same_word(text.subrange(start, colon), "authorization"@)
    &&& value == text.subrange(first, last)
}

/// Who asks is read from a header for it, and from no other.
pub proof fn only_its_header_says_who_asks(
    text: Seq<char>,
    from: int,
    count: nat,
    value: Seq<char>,
)
    requires
        0 <= from <= text.len(),
        request_head::headers_from(text, from, count, None) == Ok::<
            Option<Seq<char>>,
            ResponseModel,
        >(Some(value)),
    ensures
        exists|start: int, end: int, colon: int, first: int, last: int|
            #[trigger] says_who(text, from, value, start, end, colon, first, last),
    decreases text.len() + 2 - from,
{
    let line = request_head::line_end(text, from);
    lemma_line(text, from);
    if line == from {
        only_its_header_says_who_asks(text, line + 2, count, value);
        lemma_lines_begin_earlier(text, from, line, value);
    } else {
        let colon = request_head::first_of(text, from, line, ':', ':');
        lemma_first(text, from, line, ':', ':');
        let first = request_head::trimmed_start(text, colon + 1, line);
        lemma_trimmed_start(text, colon + 1, line);
        let last = request_head::trimmed_end(text, first, line);
        lemma_trimmed_end(text, first, line);
        assert(is_header(text, from, line, colon, first, last));
        if request_head::same_word(text.subrange(from, colon), "authorization"@) {
            if line < text.len() {
                lemma_headers_keep(
                    text,
                    line + 2,
                    count + 1,
                    Some(text.subrange(first, last)),
                );
            }
            assert(says_who(text, from, value, from, line, colon, first, last));
        } else {
            only_its_header_says_who_asks(text, line + 2, count + 1, value);
            lemma_lines_begin_earlier(text, from, line, value);
        }
    }
}

proof fn lemma_lines_begin_earlier(text: Seq<char>, from: int, line: int, value: Seq<char>)
    requires
        is_line(text, from, line),
        line < text.len(),
        exists|start: int, end: int, colon: int, first: int, last: int|
            #[trigger] says_who(text, line + 2, value, start, end, colon, first, last),
    ensures
        exists|start: int, end: int, colon: int, first: int, last: int|
            #[trigger] says_who(text, from, value, start, end, colon, first, last),
{
    let (start, end, colon, first, last) = choose|
        start: int,
        end: int,
        colon: int,
        first: int,
        last: int,
    |
        #[trigger] says_who(text, line + 2, value, start, end, colon, first, last);
    assert(breaks_at(text, line));
    assert(says_who(text, from, value, start, end, colon, first, last));
}

/// What a client still sends after its request is read for a while and no further, so that the
/// answer reaches it.
pub proof fn what_comes_late_is_read_for_a_while(drained: usize, deadline_passed: bool, more: bool)
    requires
        call_ensures(status_http::drains_more, (drained, deadline_passed), more),
    ensures
        more <==> drained < MAX_DRAIN_BYTES && !deadline_passed,
{
}

/// A browser that is not let in is told why by a status, and nothing else. One that is let in may
/// send whole lines of the protocol and no longer ones.
pub proof fn browsers_are_told_why(
    refusal: WebRefusal,
    answer: HttpRefusal,
    max_line_bytes: usize,
    limits: WebSocketLimits,
)
    requires
        call_ensures(web::refuse, (refusal,), answer),
        2 * max_line_bytes <= usize::MAX,
        call_ensures(web::websocket_limits, (max_line_bytes,), limits),
    ensures
        answer.status == (match refusal {
            WebRefusal::NotFound => 404u16,
            WebRefusal::Unauthorized => 401u16,
        }),
        answer.body is None,
        limits.max_message == max_line_bytes,
        limits.max_frame == max_line_bytes,
        limits.max_write_buffer == 2 * max_line_bytes,
{
}

/// A secret can be a token exactly where it is neither too short nor too long and every byte of it
/// is a visible character.
pub proof fn tokens_are_made_of_visible_characters(bytes: Seq<u8>)
    ensures
        access_token::is_token(bytes) <==> {
            &&& 32 <= bytes.len() <= 256
            &&& forall|i: int|
                0 <= i < bytes.len() ==> '!' as u8 <= #[trigger] bytes[i] && bytes[i] <= '~' as u8
        },
{
    assert('!' as u8 == 0x21u8 && '~' as u8 == 0x7eu8);
    if forall|i: int|
        0 <= i < bytes.len() ==> '!' as u8 <= #[trigger] bytes[i] && bytes[i] <= '~' as u8 {
        assert forall|i: int| 0 <= i < bytes.len() implies access_token::is_graphic(
            #[trigger] bytes[i],
        ) by {}
    }
    if access_token::is_token(bytes) {
        assert forall|i: int| 0 <= i < bytes.len() implies '!' as u8 <= #[trigger] bytes[i]
            && bytes[i] <= '~' as u8 by {
            assert(access_token::is_graphic(bytes[i]));
        }
    }
}

} // verus!
