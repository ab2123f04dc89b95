//! The gateway for browsers: who is let in, and what becomes of what they send.
use vstd::prelude::*;
use vstd::string::*;

use crate::access_token;
use crate::access_token::WebToken;

verus! {

/// Bytes that are read from a socket at once.
pub const WEBSOCKET_READ_BUFFER: usize = 8192;

/// Bytes that are collected before they are written.
pub const WEBSOCKET_WRITE_BUFFER: usize = 8192;

/// Messages of one browser that may wait.
pub const WEB_INBOUND_CAPACITY: usize = 8;

/// Messages to one browser that may wait.
pub const WEB_OUTBOUND_CAPACITY: usize = 32;

/// Bounds of a connection.
#[derive(Clone, Copy, Debug, PartialEq, Eq, Structural)]
pub struct WebSocketLimits {
    pub read_buffer: usize,
    pub write_buffer: usize,
    pub max_write_buffer: usize,
    pub max_message: usize,
    pub max_frame: usize,
}

/// Finds the bounds of a connection from the longest line of the protocol.
pub fn websocket_limits(max_line_bytes: usize) -> (limits: WebSocketLimits)
    requires
        2 * max_line_bytes <= usize::MAX,
    ensures
        limits == (WebSocketLimits {
            read_buffer: WEBSOCKET_READ_BUFFER,
            write_buffer: WEBSOCKET_WRITE_BUFFER,
            max_write_buffer: (2 * max_line_bytes) as usize,
            max_message: max_line_bytes,
            max_frame: max_line_bytes,
        }),
{
    WebSocketLimits {
        read_buffer: WEBSOCKET_READ_BUFFER,
        write_buffer: WEBSOCKET_WRITE_BUFFER,
        max_write_buffer: 2 * max_line_bytes,
        max_message: max_line_bytes,
        max_frame: max_line_bytes,
    }
}

/// Why a browser is not let in.
#[derive(Clone, Copy, Debug, PartialEq, Eq, Structural)]
pub enum WebRefusal {
    NotFound,
    Unauthorized,
}

/// Whether a browser is let in.
pub open spec fn admission(
    target: Option<&str>,
    authorization: Option<&[u8]>,
    secret: Seq<u8>,
) -> Result<(), WebRefusal> {
    if !(target matches Some(target) && target@ == "/v1/control"@) {
        Err(WebRefusal::NotFound)
    } else if !access_token::presents(authorization, secret) {
        Err(WebRefusal::Unauthorized)
    } else {
        Ok(())
    }
}

/// Decides whether a browser is let in: it has to ask for the control channel, without a query,
/// and present the token.
pub fn web_admission(target: Option<&str>, authorization: Option<&[u8]>, token: &WebToken) -> (admitted:
    Result<(), WebRefusal>)
    requires
        token.wf(),
    ensures
        admitted == admission(target, authorization, token.secret@),
{
    let known: bool = match target {
        None => false,
        Some(target) => String::from_str(target) == String::from_str("/v1/control"),
    };
    if !known {
        return Err(WebRefusal::NotFound);
    }
    if !token.matches(authorization) {
        return Err(WebRefusal::Unauthorized);
    }
    Ok(())
}

/// The status that tells a browser why it is not let in.
pub open spec fn refusal_status(refusal: WebRefusal) -> u16 {
    match refusal {
        WebRefusal::NotFound => 404,
        WebRefusal::Unauthorized => 401,
    }
}

/// An answer to a browser that is not let in: a status and no body.
#[derive(Debug)]
pub struct HttpRefusal {
    pub status: u16,
    pub body: Option<String>,
}

/// Makes an answer that carries a status and no body.
pub fn http_error(status: u16) -> (refusal: HttpRefusal)
    ensures
        refusal.status == status,
        refusal.body is None,
{
    HttpRefusal { status, body: None }
}

/// Makes the answer to a browser that is not let in.
pub fn refuse(refusal: WebRefusal) -> (answer: HttpRefusal)
    ensures
        answer.status == refusal_status(refusal),
        answer.body is None,
{
    match refusal {
        WebRefusal::NotFound => http_error(404),
        WebRefusal::Unauthorized => http_error(401),
    }
}

/// What has come from a browser.
#[derive(Clone, Copy, Debug, PartialEq, Eq, Structural)]
pub enum WebRead {
    /// A text, and whether it is a message of the protocol.
    Text { decoded: bool },
    Binary,
    Ping,
    Pong,
    Close,
    Frame,
    /// Nothing for now.
    Pending,
    Failed,
}

/// What the relay does.
#[derive(Clone, Copy, Debug, PartialEq, Eq, Structural)]
pub enum RelayStep {
    /// The message is handed on; the connection ends where it cannot be.
    Deliver,
    Continue,
    /// The relay sleeps and looks again.
    Wait,
    /// The farewell is written and the connection ends.
    Flush,
    Stop,
}

/// Decides what the relay does with what has come from a browser: only texts that are messages
/// go on.
pub fn relay_step(read: WebRead) -> (step: RelayStep)
    ensures
        step == (match read {
            WebRead::Text { decoded } => if decoded {
                RelayStep::Deliver
            } else {
                RelayStep::Stop
            },
            WebRead::Ping | WebRead::Pong => RelayStep::Continue,
            WebRead::Pending => RelayStep::Wait,
            WebRead::Close => RelayStep::Flush,
            WebRead::Binary | WebRead::Frame | WebRead::Failed => RelayStep::Stop,
        }),
{
    match read {
        WebRead::Text { decoded } => if decoded {
            RelayStep::Deliver
        } else {
            RelayStep::Stop
        },
        WebRead::Ping | WebRead::Pong => RelayStep::Continue,
        WebRead::Pending => RelayStep::Wait,
        WebRead::Close => RelayStep::Flush,
        WebRead::Binary | WebRead::Frame | WebRead::Failed => RelayStep::Stop,
    }
}

} // verus!
