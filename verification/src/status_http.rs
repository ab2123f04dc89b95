//! The little of HTTP that the status listener speaks.
use vstd::prelude::*;
use vstd::string::*;

use crate::text;
use crate::text::decimal;

verus! {

/// How many requests are served at once; as many more may wait.
pub const CONNECTION_WORKERS: usize = 2;

/// The most bytes of a request head.
pub const MAX_REQUEST_BYTES: usize = 4096;

/// The most headers of a request.
pub const MAX_REQUEST_HEADERS: usize = 32;

/// The most bytes that are read and dropped after a request.
pub const MAX_DRAIN_BYTES: usize = 16384;

/// An answer of the status listener.
#[derive(Debug)]
pub struct Response {
    pub status: u16,
    pub reason: &'static str,
    pub authenticate: bool,
    pub body: String,
}

/// What an answer says.
#[verifier::ext_equal]
pub struct ResponseModel {
    pub status: u16,
    pub reason: Seq<char>,
    pub authenticate: bool,
    pub body: Seq<char>,
}

impl View for Response {
    type V = ResponseModel;

    open spec fn view(&self) -> ResponseModel {
        ResponseModel {
            status: self.status,
            reason: self.reason@,
            authenticate: self.authenticate,
            body: self.body@,
        }
    }
}

/// An answer that asks for no token.
pub open spec fn plain(status: u16, reason: Seq<char>, body: Seq<char>) -> ResponseModel {
    ResponseModel { status, reason, authenticate: false, body }
}

/// The answer to a request that cannot be read.
pub open spec fn malformed() -> ResponseModel {
    plain(400, "Bad Request"@, "FREEMIXD_STATUS\tv=1\tcheck=request\tstatus=malformed\n"@)
}

/// The answer to a request with too many headers.
pub open spec fn crowded() -> ResponseModel {
    plain(
        431,
        "Request Header Fields Too Large"@,
        "FREEMIXD_STATUS\tv=1\tcheck=request\tstatus=too-many-headers\tlimit="@ + text::digits(
            MAX_REQUEST_HEADERS as nat,
        ) + "\n"@,
    )
}

/// The answer to a request that is too long.
pub open spec fn oversized() -> ResponseModel {
    plain(
        413,
        "Content Too Large"@,
        "FREEMIXD_STATUS\tv=1\tcheck=request\tstatus=too-large\tlimit_bytes="@ + text::digits(
            MAX_REQUEST_BYTES as nat,
        ) + "\n"@,
    )
}

/// The answer to a request that takes too long.
pub open spec fn late() -> ResponseModel {
    plain(408, "Request Timeout"@, "FREEMIXD_STATUS\tv=1\tcheck=request\tstatus=timeout\n"@)
}

/// The answer to a request without the token.
pub open spec fn refused() -> ResponseModel {
    ResponseModel {
        authenticate: true,
        ..plain(
            401,
            "Unauthorized"@,
            "FREEMIXD_STATUS\tv=1\tcheck=support-bundle\tstatus=unauthorized\n"@,
        )
    }
}

/// The answer to a request for something else.
pub open spec fn unknown() -> ResponseModel {
    plain(404, "Not Found"@, "FREEMIXD_STATUS\tv=1\tcheck=request\tstatus=unknown-route\n"@)
}

/// The answer to a request that wants to change something.
pub open spec fn unmethodical() -> ResponseModel {
    plain(
        405,
        "Method Not Allowed"@,
        "FREEMIXD_STATUS\tv=1\tcheck=request\tstatus=method-not-allowed\n"@,
    )
}

/// The answer where too many requests are served.
pub open spec fn crammed() -> ResponseModel {
    plain(
        503,
        "Service Unavailable"@,
        "FREEMIXD_STATUS\tv=1\tcheck=admission\tstatus=busy\tlimit="@ + text::digits(
            CONNECTION_WORKERS as nat,
        ) + "\n"@,
    )
}

/// The head of an answer.
pub open spec fn head_text(response: ResponseModel) -> Seq<char> {
    "HTTP/1.1 "@ + text::digits(response.status as nat) + " "@ + response.reason
        + "\r\nContent-Type: text/plain; charset=utf-8\r\nContent-Length: "@ + text::digits(
        vstd::utf8::encode_utf8(response.body).len(),
    ) + "\r\nCache-Control: no-store\r\nConnection: close\r\n"@ + (if response.authenticate {
        "WWW-Authenticate: Bearer\r\n\r\n"@
    } else {
        "\r\n"@
    })
}

impl Response {
    /// An answer that asks for no token.
    pub fn new(status: u16, reason: &'static str, body: String) -> (response: Self)
        ensures
            response@ == plain(status, reason@, body@),
    {
        Response { status, reason, authenticate: false, body }
    }

    /// All is well.
    pub fn ok(body: String) -> (response: Self)
        ensures
            response@ == plain(200, "OK"@, body@),
    {
        Response::new(200, "OK", body)
    }

    /// Something is not well.
    pub fn unavailable(body: String) -> (response: Self)
        ensures
            response@ == plain(503, "Service Unavailable"@, body@),
    {
        Response::new(503, "Service Unavailable", body)
    }

    /// The request cannot be read.
    pub fn bad_request() -> (response: Self)
        ensures
            response@ == malformed(),
    {
        Response::new(
            400,
            "Bad Request",
            String::from_str("FREEMIXD_STATUS\tv=1\tcheck=request\tstatus=malformed\n"),
        )
    }

    /// The request lacks the token.
    pub fn unauthorized() -> (response: Self)
        ensures
            response@ == refused(),
    {
        let mut response: Response = Response::new(
            401,
            "Unauthorized",
            String::from_str("FREEMIXD_STATUS\tv=1\tcheck=support-bundle\tstatus=unauthorized\n"),
        );
        response.authenticate = true;
        response
    }

    /// There is no such thing.
    pub fn not_found() -> (response: Self)
        ensures
            response@ == unknown(),
    {
        Response::new(
            404,
            "Not Found",
            String::from_str("FREEMIXD_STATUS\tv=1\tcheck=request\tstatus=unknown-route\n"),
        )
    }

    /// Things can only be read.
    pub fn method_not_allowed() -> (response: Self)
        ensures
            response@ == unmethodical(),
    {
        Response::new(
            405,
            "Method Not Allowed",
            String::from_str("FREEMIXD_STATUS\tv=1\tcheck=request\tstatus=method-not-allowed\n"),
        )
    }

    /// The request took too long.
    pub fn request_timeout() -> (response: Self)
        ensures
            response@ == late(),
    {
        Response::new(
            408,
            "Request Timeout",
            String::from_str("FREEMIXD_STATUS\tv=1\tcheck=request\tstatus=timeout\n"),
        )
    }

    /// The request is too long.
    pub fn request_too_large() -> (response: Self)
        ensures
            response@ == oversized(),
    {
        Response::new(
            413,
            "Content Too Large",
            String::from_str(
                "FREEMIXD_STATUS\tv=1\tcheck=request\tstatus=too-large\tlimit_bytes=",
            ).concat(decimal(MAX_REQUEST_BYTES as u64).as_str()).concat("\n"),
        )
    }

    /// The request has too many headers.
    pub fn too_many_headers() -> (response: Self)
        ensures
            response@ == crowded(),
    {
        Response::new(
            431,
            "Request Header Fields Too Large",
            String::from_str(
                "FREEMIXD_STATUS\tv=1\tcheck=request\tstatus=too-many-headers\tlimit=",
            ).concat(decimal(MAX_REQUEST_HEADERS as u64).as_str()).concat("\n"),
        )
    }

    /// Too many requests are served.
    pub fn busy() -> (response: Self)
        ensures
            response@ == crammed(),
    {
        Response::new(
            503,
            "Service Unavailable",
            String::from_str("FREEMIXD_STATUS\tv=1\tcheck=admission\tstatus=busy\tlimit=").concat(
                decimal(CONNECTION_WORKERS as u64).as_str(),
            ).concat("\n"),
        )
    }

    /// Writes the head of the answer.
    pub fn head(&self) -> (head: String)
        ensures
            head@ == head_text(self@),
    {
        let length: usize = self.body.as_str().as_bytes().len();
        let head: String = String::from_str("HTTP/1.1 ").concat(
            decimal(self.status as u64).as_str(),
        ).concat(" ").concat(self.reason).concat(
            "\r\nContent-Type: text/plain; charset=utf-8\r\nContent-Length: ",
        ).concat(decimal(length as u64).as_str()).concat(
            "\r\nCache-Control: no-store\r\nConnection: close\r\n",
        );
        let text: String = if self.authenticate {
            head.concat("WWW-Authenticate: Bearer\r\n\r\n")
        } else {
            head.concat("\r\n")
        };
        text
    }
}

/// What is to be done with a request that is being read.
#[derive(Clone, Copy, Debug, PartialEq, Eq, Structural)]
pub enum HeadStep {
    /// The head ends here.
    Complete(usize),
    TooLarge,
    Timeout,
    Read,
}

/// Whether a head ends at a place: with an empty line.
pub open spec fn ends_at(head: Seq<u8>, i: int) -> bool {
    0 <= i && i + 4 <= head.len() && head[i] == 13 && head[i + 1] == 10 && head[i + 2] == 13
        && head[i + 3] == 10
}

/// The first place from `i` on at which a head ends.
pub open spec fn head_end(head: Seq<u8>, i: int) -> Option<int>
    decreases head.len() - i,
{
    if i + 4 > head.len() {
        None
    } else if ends_at(head, i) {
        Some(i)
    } else {
        head_end(head, i + 1)
    }
}

/// What is to be done with a request of which so much has been read.
pub open spec fn reading_step(head: Seq<u8>, deadline_passed: bool) -> HeadStep {
    match head_end(head, 0) {
        Some(end) => HeadStep::Complete(end as usize),
        None => if head.len() >= MAX_REQUEST_BYTES {
            HeadStep::TooLarge
        } else if deadline_passed {
            HeadStep::Timeout
        } else {
            HeadStep::Read
        },
    }
}

/// Decides what is to be done with a request that is being read.
pub fn read_head_step(head: &Vec<u8>, deadline_passed: bool) -> (step: HeadStep)
    ensures
        step == reading_step(head@, deadline_passed),
        step matches HeadStep::Complete(end) ==> end + 4 <= head@.len(),
{
    let mut i: usize = 0;
    while head.len() >= 4 && i <= head.len() - 4
        invariant
            i <= head@.len() + 1,
            head@.len() >= 4 ==> i <= head@.len() - 3,
            head_end(head@, 0) == head_end(head@, i as int),
        decreases head@.len() + 1 - i,
    {
        if head[i] == 13 && head[i + 1] == 10 && head[i + 2] == 13 && head[i + 3] == 10 {
            return HeadStep::Complete(i);
        }
        i = i + 1;
    }
    if head.len() >= MAX_REQUEST_BYTES {
        HeadStep::TooLarge
    } else if deadline_passed {
        HeadStep::Timeout
    } else {
        HeadStep::Read
    }
}

/// Adds what has been read to a request, as far as there is room.
pub fn extend_head(head: &mut Vec<u8>, chunk: &[u8])
    requires
        old(head)@.len() <= MAX_REQUEST_BYTES,
    ensures
        final(head)@ == extended(old(head)@, chunk@),
        final(head)@.len() <= MAX_REQUEST_BYTES,
{
    let room: usize = MAX_REQUEST_BYTES - head.len();
    let count: usize = if chunk.len() <= room {
        chunk.len()
    } else {
        room
    };
    let ghost before = head@;
    let mut i: usize = 0;
    assert(head@ =~= before + chunk@.take(0));
    while i < count
        invariant
            i <= count <= chunk@.len(),
            head@ == before + chunk@.take(i as int),
        decreases count - i,
    {
        head.push(chunk[i]);
        assert(head@ =~= before + chunk@.take(i + 1));
        i = i + 1;
    }
}

/// What reading from a socket came to.
#[derive(Clone, Copy, Debug)]
pub enum SocketRead<'a> {
    /// Nothing more will come.
    Closed,
    Bytes(&'a [u8]),
    /// The read has to be tried again.
    Interrupted,
    TimedOut,
    Failed,
}

/// A request with what has been read, as far as there is room.
pub open spec fn extended(head: Seq<u8>, chunk: Seq<u8>) -> Seq<u8> {
    head + chunk.take(
        if chunk.len() <= MAX_REQUEST_BYTES - head.len() {
            chunk.len() as int
        } else {
            MAX_REQUEST_BYTES - head.len()
        },
    )
}

/// Takes what reading came to into a request, or answers where it cannot go on.
pub fn receive_head(head: &mut Vec<u8>, read: SocketRead) -> (received: Result<(), Response>)
    requires
        old(head)@.len() <= MAX_REQUEST_BYTES,
    ensures
        final(head)@ == (match read {
            SocketRead::Bytes(chunk) => extended(old(head)@, chunk@),
            _ => old(head)@,
        }),
        final(head)@.len() <= MAX_REQUEST_BYTES,
        match received {
            Ok(()) => read is Bytes || read is Interrupted,
            Err(response) => response@ == (match read {
                SocketRead::TimedOut => late(),
                _ => malformed(),
            }) && !(read is Bytes) && !(read is Interrupted),
        },
{
    match read {
        SocketRead::Bytes(chunk) => {
            extend_head(head, chunk);
            Ok(())
        },
        SocketRead::Interrupted => Ok(()),
        SocketRead::TimedOut => Err(Response::request_timeout()),
        SocketRead::Closed | SocketRead::Failed => Err(Response::bad_request()),
    }
}

/// What is to be done with bytes that are being sent.
#[derive(Clone, Copy, Debug, PartialEq, Eq, Structural)]
pub enum SendStep {
    /// All of them have gone.
    Done,
    /// It has taken too long.
    GiveUp,
    /// The rest is to be written.
    Write,
}

/// Decides what is to be done with bytes of which `sent` have gone.
pub fn send_step(sent: usize, length: usize, deadline_passed: bool) -> (step: SendStep)
    ensures
        step == (if sent >= length {
            SendStep::Done
        } else if deadline_passed {
            SendStep::GiveUp
        } else {
            SendStep::Write
        }),
{
    if sent >= length {
        SendStep::Done
    } else if deadline_passed {
        SendStep::GiveUp
    } else {
        SendStep::Write
    }
}

/// What writing to a socket came to.
#[derive(Clone, Copy, Debug, PartialEq, Eq, Structural)]
pub enum SocketWrite {
    Wrote(usize),
    /// The write has to be tried again.
    Interrupted,
    Failed,
}

/// Counts the bytes that have gone, or tells that no more can.
pub fn count_sent(sent: usize, write: SocketWrite) -> (counted: Option<usize>)
    requires
        write matches SocketWrite::Wrote(count) ==> sent + count <= usize::MAX,
    ensures
        counted == (match write {
            SocketWrite::Wrote(count) => if count == 0 {
                None
            } else {
                Some((sent + count) as usize)
            },
            SocketWrite::Interrupted => Some(sent),
            SocketWrite::Failed => None,
        }),
{
    match write {
        SocketWrite::Wrote(count) => if count == 0 {
            None
        } else {
            Some(sent + count)
        },
        SocketWrite::Interrupted => Some(sent),
        SocketWrite::Failed => None,
    }
}

/// Tells whether more is read and dropped after a request.
pub fn drains_more(drained: usize, deadline_passed: bool) -> (more: bool)
    ensures
        more == (drained < MAX_DRAIN_BYTES && !deadline_passed),
{
    drained < MAX_DRAIN_BYTES && !deadline_passed
}

/// What a worker said of a connection it was offered.
#[derive(Clone, Copy, Debug, PartialEq, Eq, Structural)]
pub enum WorkerOffer {
    Taken,
    Busy,
    Gone,
}

/// What is done with a connection after workers were asked in turn.
#[derive(Clone, Copy, Debug, PartialEq, Eq, Structural)]
pub enum Admission {
    /// A worker has it, or the worker that was to have it is gone and it is dropped.
    Settled,
    /// The next worker is asked.
    AskNext,
    /// Every worker is busy: the client is told, and the rejection counted.
    Reject,
}

/// Decides what is done with a connection once a worker was asked; `left` workers have not
/// been asked yet.
pub fn offer_step(offer: WorkerOffer, left: usize) -> (admission: Admission)
    ensures
        admission == (match offer {
            WorkerOffer::Busy => if left > 0 {
                Admission::AskNext
            } else {
                Admission::Reject
            },
            _ => Admission::Settled,
        }),
{
    match offer {
        WorkerOffer::Busy => {
            if left > 0 {
                Admission::AskNext
            } else {
                Admission::Reject
            }
        },
        _ => Admission::Settled,
    }
}

/// Calls `std::str::from_utf8`: bytes are a text exactly where they are valid UTF-8, and the
/// text consists of those bytes.
#[verifier::external_body]
pub(crate) fn utf8_text(bytes: &[u8]) -> (text: Option<&str>)
    ensures
        match text {
            Some(text) => vstd::utf8::valid_utf8(bytes@) && vstd::utf8::encode_utf8(text@)
                == bytes@,
            None => !vstd::utf8::valid_utf8(bytes@),
        },
{
    std::str::from_utf8(bytes).ok()
}

/// Lists the characters of a text.
pub fn characters(text: &str) -> (list: Vec<char>)
    ensures
        list@ == text@,
{
    let length: usize = text.unicode_len();
    let mut list: Vec<char> = Vec::new();
    let mut rest = text.chars();
    proof {
        broadcast use axiom_spec_iter;

    }
    let mut i: usize = 0;
    while i < length
        invariant
            i <= length,
            length == text@.len(),
            list@ == text@.take(i as int),
            vstd::std_specs::iter::IteratorSpec::remaining(&rest) == text@.skip(i as int),
        decreases length - i,
    {
        broadcast use next_postcondition;

        assert(text@.skip(i as int).drop_first() =~= text@.skip(i + 1));
        match rest.next() {
            Some(character) => {
                list.push(character);
            },
            None => {},
        }
        assert(text@.take(i + 1) =~= text@.take(i as int).push(text@[i as int]));
        i = i + 1;
    }
    assert(text@.take(i as int) =~= text@);
    list
}

} // verus!
