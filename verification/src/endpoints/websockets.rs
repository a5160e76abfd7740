//! The websocket session with an agent: what is sent to it, what it may send back, and how the
//! session authenticates, answers pings and shuts down.

use vstd::prelude::*;

use crate::db::DbBackendError;
use crate::state::State;
use crate::text::{decimal, push_decimal};
use crate::timelocked_hashmap::without_key;

verus! {

broadcast use vstd::std_specs::hash::group_hash_axioms;

/// The kind of an error reported in a message between the api and an agent.
#[derive(Debug, Clone, Copy, PartialEq, Eq, Structural)]
pub enum ErrorKind {
    /// Any other error
    Unknown,
    /// The agent's session (its credentials) is not valid
    InvalidSession,
    /// A file could not be uploaded
    FailedFileUpload,
}

/// A message exchanged with an agent over its websocket.
#[derive(Debug, PartialEq, Eq)]
pub enum AgentMessage {
    /// Acknowledgement
    Acknowledge,
    /// An error, with an optional reason
    Error { kind: ErrorKind, reason: Option<String> },
    /// The api asks the agent to authenticate as `public_id`
    AuthReq { public_id: u64 },
    /// The agent authenticates
    AuthRes { public_id: u64, passcode: Vec<u8> },
    /// The api asks the agent to upload a file to `upload_url`
    UploadTo { file_id: u32, upload_url: String },
    /// The api asks the agent for the metadata of a file
    MetadataReq { file_id: u32, upload_id: u64 },
    /// The agent answers a metadata request
    MetadataRes {
        file_id: u32,
        exp: u64,
        crt: u64,
        file_size: u64,
        username: String,
        file_name: String,
        upload_id: u64,
    },
    /// The api asks the agent for its status
    StatusReq { public_id: u64, upload_id: u64 },
    /// The agent answers a status request
    StatusRes { public_id: u64, ready: bool, uptime: u64, upload_id: u64, message: Option<String> },
}

/// A message to the websocket session of an agent, from elsewhere in the api.
#[derive(Debug, PartialEq, Eq)]
pub enum InternalComm {
    /// The agent has authenticated
    Authenticated,
    /// The agent has been taken out of the state; the session may stop
    ShutDownComplete,
    /// Send this message down the websocket
    SendMessage(AgentMessage),
    /// Close the websocket
    CloseConnection,
}

/// The running state of a websocket session.
#[derive(Debug, Clone, Copy, PartialEq, Eq, Structural)]
pub enum WsState {
    Running,
    Stopping,
    Stopped,
}

/// Whether the agent of a session has authenticated.
#[derive(Debug, Clone, Copy, PartialEq, Eq, Structural)]
pub enum Authentication {
    Authenticated,
    Unauthenticated,
}

/// The decision state of the websocket session with one agent.
#[derive(Debug, Clone, Copy, PartialEq, Eq, Structural)]
pub struct WsHandler {
    /// the id of this server
    pub id: u64,
    /// the current running state of the server
    pub ws_state: WsState,
    /// the current authentication state of the server
    pub authentication: Authentication,
    /// a tracker for the current ping status
    pub pinger: u64,
}

/// What a session's internal message queue yielded on one poll.
#[derive(Debug, PartialEq, Eq)]
pub enum Received {
    /// A message was waiting
    Message(InternalComm),
    /// No message was waiting
    Empty,
    /// Every sender of the queue is gone
    Disconnected,
}

/// What the session does after polling its internal queue.
#[derive(Debug, PartialEq, Eq)]
pub enum TickAction {
    /// Nothing to do
    Nothing,
    /// Encode this message and write it down the websocket
    Write(AgentMessage),
    /// Close the websocket and finish the session
    Close,
}

/// What the session does when the actor system asks it to stop.
#[derive(Debug, Clone, Copy, PartialEq, Eq, Structural)]
pub enum StopDecision {
    /// Take the agent out of the state, then report `ShutDownComplete`; keep running meanwhile
    BeginShutdown,
    /// Keep running: the shutdown is under way
    Continue,
    /// Stop now
    Stop,
}

/// A frame that arrived on the websocket, with binary frames already decoded.
#[derive(Debug, PartialEq, Eq)]
pub enum Frame {
    /// A binary frame that decoded to a message
    Message(AgentMessage),
    /// A binary frame that did not decode
    Undecodable,
    /// A ping with its payload
    Ping(Vec<u8>),
    /// A pong with its payload
    Pong(Vec<u8>),
    /// The peer closes the connection
    Close,
    /// Any other frame (text, continuation, no-op)
    Other,
    /// The websocket protocol failed
    ProtocolError,
}

/// What the session does with an incoming frame.
#[derive(Debug, PartialEq, Eq)]
pub enum FrameAction {
    /// The session is shutting down: the frame is ignored
    Ignore,
    /// Nothing to do (an acknowledgement, or a pong that answers the last ping)
    Nothing,
    /// The agent reported an error: log it
    LogAgentError { kind: ErrorKind, reason: Option<String> },
    /// The frame could not be decoded: log it
    LogUndecodable,
    /// Send `body` to the waiting request `upload_id`, if it still waits
    Forward { upload_id: u64, body: String },
    /// Check these credentials against the database, then complete the authentication
    Validate { public_id: u64, passcode: Vec<u8> },
    /// Answer with a pong carrying this payload
    Pong(Vec<u8>),
    /// Unexpected input: send `message`, close the websocket as invalid with `description`, and
    /// finish the session
    Reject { message: AgentMessage, description: String },
    /// The pong did not answer the last ping: send `message`, close and finish the session
    PingFailed { message: AgentMessage },
    /// Finish the session
    Finish,
}

/// Whether `m` is an error message of kind `kind` whose reason is `text`.
pub open spec fn is_error_message(m: AgentMessage, kind: ErrorKind, text: Seq<char>) -> bool {
    m matches AgentMessage::Error { kind: k, reason: Some(r) } && k == kind && r@ == text
}

/// The reason sent with the error for an unexpected message, also used to close the socket.
pub open spec fn unknown_message_text() -> Seq<char> {
    "Got unknown message"@
}

/// The reason sent when a pong does not answer the last ping.
pub open spec fn ping_failure_text() -> Seq<char> {
    "failed to respond to ping"@
}

/// The reason sent when an agent's credentials are refused.
pub open spec fn auth_failure_text() -> Seq<char> {
    "failed authentication"@
}

/// The body of the answer when an agent with the same id is already authenticated.
pub open spec fn already_authenticated_text() -> Seq<char> {
    "another server is already authenticated with this id"@
}

/// The big-endian bytes of a 64-bit number.
pub open spec fn be_bytes(n: u64) -> Seq<u8> {
    seq![
        (n >> 56u64) as u8,
        (n >> 48u64) as u8,
        (n >> 40u64) as u8,
        (n >> 32u64) as u8,
        (n >> 24u64) as u8,
        (n >> 16u64) as u8,
        (n >> 8u64) as u8,
        n as u8,
    ]
}

/// The JSON-like text forwarded to a client for a metadata response, as the api lays it out.
pub open spec fn metadata_text(
    file_id: nat,
    exp: nat,
    crt: nat,
    file_size: nat,
    username: Seq<char>,
    file_name: Seq<char>,
) -> Seq<char> {
    "{\n"@ + field_indent() + "\"file_id\":"@ + decimal(file_id) + ",\n"@ + field_indent()
        + "\"exp\": "@ + decimal(exp) + ",\n"@ + field_indent() + "\"crt\": "@ + decimal(crt)
        + ",\n"@ + field_indent() + "\"file_size\": "@ + decimal(file_size) + ",\n"@
        + field_indent() + "\"username\": \""@ + username + "\",\n"@ + field_indent()
        + "\"file_name\": \""@ + file_name + "\"\n"@ + closing_indent() + "}"@
}

/// The JSON-like text forwarded to a client for a status response, as the api lays it out.
pub open spec fn status_text(public_id: nat, ready: bool, uptime: nat, message: Seq<char>) -> Seq<
    char,
> {
    "{\n"@ + field_indent() + "\"public_id\": \""@ + decimal(public_id) + "\",\n"@
        + field_indent() + "\"ready\": "@ + (if ready {
        "true"@
    } else {
        "false"@
    }) + ",\n"@ + field_indent() + "\"uptime\": "@ + decimal(uptime) + ",\n"@ + field_indent()
        + "\"message\": \""@ + message + "\"\n"@ + closing_indent() + "}"@
}

/// The indentation before each field of a forwarded response.
pub open spec fn field_indent() -> Seq<char> {
    "                                        "@
}

/// The indentation before the closing brace of a forwarded response.
pub open spec fn closing_indent() -> Seq<char> {
    "                                    "@
}

/// The characters of an optional text, nothing when absent.
pub open spec fn text_or_empty(s: Option<String>) -> Seq<char> {
    match s {
        Some(t) => t@,
        None => Seq::empty(),
    }
}

/// Whether `piece` occurs in `text`.
pub open spec fn contains_text(text: Seq<char>, piece: Seq<char>) -> bool {
    exists|i: int|
        0 <= i && i + piece.len() <= text.len() && #[trigger] text.subrange(i, i + piece.len())
            == piece
}

/// Three pieces appended, one after the other, to any text occur together in the result.
proof fn lemma_contains_appended(x: Seq<char>, a: Seq<char>, b: Seq<char>, c: Seq<char>)
    ensures
        contains_text(x + a + b + c, a + b + c),
{
    let t = x + a + b + c;
    let piece = a + b + c;
    let i: int = x.len() as int;
    assert(t.subrange(i, i + piece.len()) =~= piece);
}

/// Whatever occurs in a text still occurs once more is appended to it.
broadcast proof fn lemma_contains_extend(t: Seq<char>, q: Seq<char>, piece: Seq<char>)
    requires
        contains_text(t, piece),
    ensures
        #[trigger] contains_text(t + q, piece),
{
    let i = choose|i: int|
        0 <= i && i + piece.len() <= t.len() && #[trigger] t.subrange(i, i + piece.len())
            == piece;
    assert((t + q).subrange(i, i + piece.len()) =~= t.subrange(i, i + piece.len()));
}

/// Each field of a metadata response stands in the forwarded text under its own name,
/// followed by its own value.
pub proof fn lemma_metadata_text_fields(
    file_id: nat,
    exp: nat,
    crt: nat,
    file_size: nat,
    username: Seq<char>,
    file_name: Seq<char>,
)
    ensures
        ({
            let t = metadata_text(file_id, exp, crt, file_size, username, file_name);
            &&& contains_text(t, "\"file_id\":"@ + decimal(file_id) + ",\n"@)
            &&& contains_text(t, "\"exp\": "@ + decimal(exp) + ",\n"@)
            &&& contains_text(t, "\"crt\": "@ + decimal(crt) + ",\n"@)
            &&& contains_text(t, "\"file_size\": "@ + decimal(file_size) + ",\n"@)
            &&& contains_text(t, "\"username\": \""@ + username + "\",\n"@)
            &&& contains_text(t, "\"file_name\": \""@ + file_name + "\"\n"@)
        }),
{
    broadcast use lemma_contains_extend;

    let fi = field_indent();
    let x1 = "{\n"@ + fi;
    lemma_contains_appended(x1, "\"file_id\":"@, decimal(file_id), ",\n"@);
    let x2 = x1 + "\"file_id\":"@ + decimal(file_id) + ",\n"@ + fi;
    lemma_contains_appended(x2, "\"exp\": "@, decimal(exp), ",\n"@);
    let x3 = x2 + "\"exp\": "@ + decimal(exp) + ",\n"@ + fi;
    lemma_contains_appended(x3, "\"crt\": "@, decimal(crt), ",\n"@);
    let x4 = x3 + "\"crt\": "@ + decimal(crt) + ",\n"@ + fi;
    lemma_contains_appended(x4, "\"file_size\": "@, decimal(file_size), ",\n"@);
    let x5 = x4 + "\"file_size\": "@ + decimal(file_size) + ",\n"@ + fi;
    lemma_contains_appended(x5, "\"username\": \""@, username, "\",\n"@);
    let x6 = x5 + "\"username\": \""@ + username + "\",\n"@ + fi;
    lemma_contains_appended(x6, "\"file_name\": \""@, file_name, "\"\n"@);
}

/// The text of a boolean in a forwarded response.
pub open spec fn bool_text(b: bool) -> Seq<char> {
    if b {
        "true"@
    } else {
        "false"@
    }
}

/// Each field of a status response stands in the forwarded text under its own name, followed
/// by its own value.
pub proof fn lemma_status_text_fields(public_id: nat, ready: bool, uptime: nat, message: Seq<char>)
    ensures
        ({
            let t = status_text(public_id, ready, uptime, message);
            &&& contains_text(t, "\"public_id\": \""@ + decimal(public_id) + "\",\n"@)
            &&& contains_text(t, "\"ready\": "@ + bool_text(ready) + ",\n"@)
            &&& contains_text(t, "\"uptime\": "@ + decimal(uptime) + ",\n"@)
            &&& contains_text(t, "\"message\": \""@ + message + "\"\n"@)
        }),
{
    broadcast use lemma_contains_extend;

    let fi = field_indent();
    let x1 = "{\n"@ + fi;
    lemma_contains_appended(x1, "\"public_id\": \""@, decimal(public_id), "\",\n"@);
    let x2 = x1 + "\"public_id\": \""@ + decimal(public_id) + "\",\n"@ + fi;
    lemma_contains_appended(x2, "\"ready\": "@, bool_text(ready), ",\n"@);
    let x3 = x2 + "\"ready\": "@ + bool_text(ready) + ",\n"@ + fi;
    lemma_contains_appended(x3, "\"uptime\": "@, decimal(uptime), ",\n"@);
    let x4 = x3 + "\"uptime\": "@ + decimal(uptime) + ",\n"@ + fi;
    lemma_contains_appended(x4, "\"message\": \""@, message, "\"\n"@);
}

/// The body forwarded to a client for a metadata response.
pub fn metadata_body(
    file_id: u32,
    exp: u64,
    crt: u64,
    file_size: u64,
    username: &str,
    file_name: &str,
) -> (r: String)
    ensures
        r@ == metadata_text(
            file_id as nat,
            exp as nat,
            crt as nat,
            file_size as nat,
            username@,
            file_name@,
        ),
{
    let mut s = String::from_str("{\n");
    s.append("                                        ");
    s.append("\"file_id\":");
    push_decimal(&mut s, file_id as u64);
    s.append(",\n");
    s.append("                                        ");
    s.append("\"exp\": ");
    push_decimal(&mut s, exp);
    s.append(",\n");
    s.append("                                        ");
    s.append("\"crt\": ");
    push_decimal(&mut s, crt);
    s.append(",\n");
    s.append("                                        ");
    s.append("\"file_size\": ");
    push_decimal(&mut s, file_size);
    s.append(",\n");
    s.append("                                        ");
    s.append("\"username\": \"");
    s.append(username);
    s.append("\",\n");
    s.append("                                        ");
    s.append("\"file_name\": \"");
    s.append(file_name);
    s.append("\"\n");
    s.append("                                    ");
    s.append("}");
    s
}

/// The body forwarded to a client for a status response.
pub fn status_body(public_id: u64, ready: bool, uptime: u64, message: Option<String>) -> (r: String)
    ensures
        r@ == status_text(public_id as nat, ready, uptime as nat, text_or_empty(message)),
{
    let mut s = String::from_str("{\n");
    s.append("                                        ");
    s.append("\"public_id\": \"");
    push_decimal(&mut s, public_id);
    s.append("\",\n");
    s.append("                                        ");
    s.append("\"ready\": ");
    if ready {
        s.append("true");
    } else {
        s.append("false");
    }
    s.append(",\n");
    s.append("                                        ");
    s.append("\"uptime\": ");
    push_decimal(&mut s, uptime);
    s.append(",\n");
    s.append("                                        ");
    s.append("\"message\": \"");
    match &message {
        Some(m) => s.append(m.as_str()),
        None => {},
    }
    s.append("\"\n");
    s.append("                                    ");
    s.append("}");
    s
}

/// An error message of the given kind with the given reason.
pub fn error_message(kind: ErrorKind, reason: &str) -> (m: AgentMessage)
    ensures
        is_error_message(m, kind, reason@),
{
    AgentMessage::Error { kind, reason: Some(String::from_str(reason)) }
}

/// The big-endian bytes of a 64-bit number.
pub fn to_be_bytes(n: u64) -> (r: Vec<u8>)
    ensures
        r@ == be_bytes(n),
{
    let r = vec![
        (n >> 56u64) as u8,
        (n >> 48u64) as u8,
        (n >> 40u64) as u8,
        (n >> 32u64) as u8,
        (n >> 24u64) as u8,
        (n >> 16u64) as u8,
        (n >> 8u64) as u8,
        n as u8,
    ];
    assert(r@ =~= be_bytes(n));
    r
}

/// Whether two byte strings are equal.
fn same_bytes(a: &[u8], b: &[u8]) -> (r: bool)
    ensures
        r == (a@ == b@),
{
    crate::db::bytes_equal(a, b)
}

/// The action for a message that an agent sent.
pub open spec fn agent_message_action(m: AgentMessage, a: FrameAction) -> bool {
    match m {
        AgentMessage::Acknowledge => a == FrameAction::Nothing,
        AgentMessage::Error { kind, reason } => a == (FrameAction::LogAgentError {
            kind,
            reason,
        }),
        AgentMessage::MetadataRes {
            file_id,
            exp,
            crt,
            file_size,
            username,
            file_name,
            upload_id,
        } => a matches FrameAction::Forward { upload_id: u, body } && u == upload_id
            && body@ == metadata_text(
            file_id as nat,
            exp as nat,
            crt as nat,
            file_size as nat,
            username@,
            file_name@,
        ),
        AgentMessage::AuthRes { public_id, passcode } => a == (FrameAction::Validate {
            public_id,
            passcode,
        }),
        AgentMessage::StatusRes { public_id, ready, uptime, upload_id, message } => a matches FrameAction::Forward {
            upload_id: u,
            body,
        } && u == upload_id && body@ == status_text(
            public_id as nat,
            ready,
            uptime as nat,
            text_or_empty(message),
        ),
        _ => a matches FrameAction::Reject { message, description } && is_error_message(
            message,
            ErrorKind::Unknown,
            unknown_message_text(),
        ) && description@ == unknown_message_text(),
    }
}

/// What an agent's answer to a request becomes: a metadata or status response is forwarded to
/// the request it names, with every field of the response in the body under its own name and
/// with its own value (the expiry under `exp`, the creation time under `crt`, and so on);
/// credentials go to validation unchanged; an error is logged as it came.
pub proof fn lemma_responses_forwarded_field_by_field(m: AgentMessage, a: FrameAction)
    requires
        agent_message_action(m, a),
    ensures
        match m {
            AgentMessage::MetadataRes {
                file_id,
                exp,
                crt,
                file_size,
                username,
                file_name,
                upload_id,
            } => a matches FrameAction::Forward { upload_id: u, body } && u == upload_id && {
                &&& contains_text(body@, "\"file_id\":"@ + decimal(file_id as nat) + ",\n"@)
                &&& contains_text(body@, "\"exp\": "@ + decimal(exp as nat) + ",\n"@)
                &&& contains_text(body@, "\"crt\": "@ + decimal(crt as nat) + ",\n"@)
                &&& contains_text(body@, "\"file_size\": "@ + decimal(file_size as nat) + ",\n"@)
                &&& contains_text(body@, "\"username\": \""@ + username@ + "\",\n"@)
                &&& contains_text(body@, "\"file_name\": \""@ + file_name@ + "\"\n"@)
            },
            AgentMessage::StatusRes { public_id, ready, uptime, upload_id, message } => a matches FrameAction::Forward { upload_id: u, body } && u == upload_id && {
                &&& contains_text(body@, "\"public_id\": \""@ + decimal(public_id as nat) + "\",\n"@)
                &&& contains_text(body@, "\"ready\": "@ + bool_text(ready) + ",\n"@)
                &&& contains_text(body@, "\"uptime\": "@ + decimal(uptime as nat) + ",\n"@)
                &&& contains_text(body@, "\"message\": \""@ + text_or_empty(message) + "\"\n"@)
            },
            AgentMessage::AuthRes { public_id, passcode } => a == (FrameAction::Validate {
                public_id,
                passcode,
            }),
            AgentMessage::Error { kind, reason } => a == (FrameAction::LogAgentError { kind, reason }),
            AgentMessage::Acknowledge => a == FrameAction::Nothing,
            _ => a is Reject,
        },
{
    match m {
        AgentMessage::MetadataRes { file_id, exp, crt, file_size, username, file_name, upload_id } => {
            lemma_metadata_text_fields(
                file_id as nat,
                exp as nat,
                crt as nat,
                file_size as nat,
                username@,
                file_name@,
            );
        },
        AgentMessage::StatusRes { public_id, ready, uptime, upload_id, message } => {
            lemma_status_text_fields(public_id as nat, ready, uptime as nat, text_or_empty(message));
        },
        _ => {},
    }
}

/// The session's state after the actor system asks it to stop, and its decision.
pub open spec fn stopping_next(h: WsHandler) -> (WsHandler, StopDecision) {
    match h.ws_state {
        WsState::Running => (WsHandler { ws_state: WsState::Stopping, ..h }, StopDecision::BeginShutdown),
        WsState::Stopping => (h, StopDecision::Continue),
        WsState::Stopped => (h, StopDecision::Stop),
    }
}

/// The session's state after one poll of its internal queue, and what it does.
pub open spec fn internal_next(h: WsHandler, r: Received) -> (WsHandler, TickAction) {
    if h.ws_state == WsState::Stopped {
        (h, TickAction::Nothing)
    } else {
        match r {
            Received::Message(InternalComm::Authenticated) => (
                WsHandler { authentication: Authentication::Authenticated, ..h },
                TickAction::Nothing,
            ),
            Received::Message(InternalComm::CloseConnection) => (h, TickAction::Close),
            Received::Message(InternalComm::ShutDownComplete) => (
                WsHandler { ws_state: WsState::Stopped, ..h },
                TickAction::Nothing,
            ),
            Received::Message(InternalComm::SendMessage(m)) => (h, TickAction::Write(m)),
            Received::Empty => (h, TickAction::Nothing),
            Received::Disconnected => (h, TickAction::Close),
        }
    }
}

/// What a session does with a frame: a session that is not running ignores it; a running one
/// acts on it as the frame's kind says.
pub open spec fn frame_action(h: WsHandler, frame: Frame, a: FrameAction) -> bool {
    &&& h.ws_state != WsState::Running ==> a == FrameAction::Ignore
    &&& h.ws_state == WsState::Running ==> match frame {
        Frame::Message(m) => agent_message_action(m, a),
        Frame::Undecodable => a == FrameAction::LogUndecodable,
        Frame::Ping(p) => a == FrameAction::Pong(p),
        Frame::Pong(p) => if p@ == be_bytes((h.pinger - 1) as u64) {
            a == FrameAction::Nothing
        } else {
            a matches FrameAction::PingFailed { message } && is_error_message(
                message,
                ErrorKind::Unknown,
                ping_failure_text(),
            )
        },
        Frame::Close => a == FrameAction::Finish,
        Frame::Other => a matches FrameAction::Reject { message, description }
            && is_error_message(message, ErrorKind::Unknown, unknown_message_text())
            && description@ == unknown_message_text(),
        Frame::ProtocolError => a == FrameAction::Finish,
    }
}

/// A ping tick: the payload sent is the big-endian counter, and the counter advances.
pub open spec fn ping_tick(h: WsHandler) -> (WsHandler, Seq<u8>) {
    (WsHandler { pinger: (h.pinger + 1) as u64, ..h }, be_bytes(h.pinger))
}

impl WsHandler {
    /// A new session with the agent `id`: running, not authenticated, no ping sent yet.
    pub fn new(id: u64) -> (h: WsHandler)
        ensures
            h == (WsHandler {
                id,
                ws_state: WsState::Running,
                authentication: Authentication::Unauthenticated,
                pinger: 0,
            }),
    {
        WsHandler {
            id,
            ws_state: WsState::Running,
            authentication: Authentication::Unauthenticated,
            pinger: 0,
        }
    }

    /// The actor system asks the session to stop. A running session begins its shutdown (the
    /// agent is taken out of the state, then `ShutDownComplete` arrives) and keeps running;
    /// a stopping session keeps running; a stopped one stops.
    pub fn on_stopping(&mut self) -> (d: StopDecision)
        ensures
            (*final(self), d) == stopping_next(*old(self)),
    {
        match self.ws_state {
            WsState::Running => {
                self.ws_state = WsState::Stopping;
                StopDecision::BeginShutdown
            },
            WsState::Stopping => StopDecision::Continue,
            WsState::Stopped => StopDecision::Stop,
        }
    }

    /// Whether the session reads its internal queue on this tick. A stopped session leaves the
    /// queue alone, so messages queued for it stay queued; a stopping one still reads it, so
    /// that `ShutDownComplete` can arrive.
    pub fn polls_internal(&self) -> (b: bool)
        ensures
            b == (self.ws_state != WsState::Stopped),
    {
        self.ws_state != WsState::Stopped
    }

    /// One poll of the session's internal queue. A stopped session handles nothing.
    pub fn on_internal(&mut self, r: Received) -> (a: TickAction)
        ensures
            (*final(self), a) == internal_next(*old(self), r),
            old(self).ws_state != WsState::Stopped ==> match r {
                Received::Message(InternalComm::SendMessage(m)) => a == TickAction::Write(m)
                    && *final(self) == *old(self),
                Received::Message(InternalComm::CloseConnection) => a == TickAction::Close
                    && *final(self) == *old(self),
                Received::Disconnected => a == TickAction::Close && *final(self) == *old(self),
                Received::Empty => a == TickAction::Nothing && *final(self) == *old(self),
                _ => a == TickAction::Nothing,
            },
            old(self).ws_state == WsState::Stopped ==> a == TickAction::Nothing && *final(self)
                == *old(self),
    {
        if self.ws_state == WsState::Stopped {
            return TickAction::Nothing;
        }
        match r {
            Received::Message(InternalComm::Authenticated) => {
                self.authentication = Authentication::Authenticated;
                TickAction::Nothing
            },
            Received::Message(InternalComm::CloseConnection) => TickAction::Close,
            Received::Message(InternalComm::ShutDownComplete) => {
                self.ws_state = WsState::Stopped;
                TickAction::Nothing
            },
            Received::Message(InternalComm::SendMessage(m)) => TickAction::Write(m),
            Received::Empty => TickAction::Nothing,
            Received::Disconnected => TickAction::Close,
        }
    }

    /// Time to ping the agent: returns the payload of the ping (the big-endian bytes of the
    /// ping counter) and advances the counter.
    pub fn on_ping_tick(&mut self) -> (payload: Vec<u8>)
        requires
            old(self).pinger < u64::MAX,
        ensures
            payload@ == be_bytes(old(self).pinger),
            *final(self) == (WsHandler { pinger: (old(self).pinger + 1) as u64, ..*old(self) }),
            (*final(self), payload@) == ping_tick(*old(self)),
    {
        let payload = to_be_bytes(self.pinger);
        self.pinger = self.pinger + 1;
        payload
    }

    /// What to do with a message that an agent sent.
    pub fn on_agent_message(&self, m: AgentMessage) -> (a: FrameAction)
        ensures
            agent_message_action(m, a),
    {
        match m {
            AgentMessage::Acknowledge => FrameAction::Nothing,
            AgentMessage::Error { kind, reason } => FrameAction::LogAgentError { kind, reason },
            AgentMessage::MetadataRes {
                file_id,
                exp,
                crt,
                file_size,
                username,
                file_name,
                upload_id,
            } => {
                let body = metadata_body(
                    file_id,
                    exp,
                    crt,
                    file_size,
                    username.as_str(),
                    file_name.as_str(),
                );
                FrameAction::Forward { upload_id, body }
            },
            AgentMessage::AuthRes { public_id, passcode } => FrameAction::Validate {
                public_id,
                passcode,
            },
            AgentMessage::StatusRes { public_id, ready, uptime, upload_id, message } => {
                let body = status_body(public_id, ready, uptime, message);
                FrameAction::Forward { upload_id, body }
            },
            _ => FrameAction::Reject {
                message: error_message(ErrorKind::Unknown, "Got unknown message"),
                description: String::from_str("Got unknown message"),
            },
        }
    }

    /// What to do with a frame that arrived on the websocket. A session that is not running
    /// ignores everything. Pings are answered with the same payload; a pong must carry the
    /// payload of the last ping sent, else the session fails; a close frame or a protocol error
    /// finishes the session; any other non-binary frame is unexpected.
    pub fn on_frame(&self, frame: Frame) -> (a: FrameAction)
        requires
            self.ws_state == WsState::Running && frame is Pong ==> self.pinger > 0,
        ensures
            frame_action(*self, frame, a),
            self.ws_state != WsState::Running ==> a == FrameAction::Ignore,
            self.ws_state == WsState::Running ==> match frame {
                Frame::Message(m) => agent_message_action(m, a),
                Frame::Undecodable => a == FrameAction::LogUndecodable,
                Frame::Ping(p) => a == FrameAction::Pong(p),
                Frame::Pong(p) => if p@ == be_bytes((self.pinger - 1) as u64) {
                    a == FrameAction::Nothing
                } else {
                    a matches FrameAction::PingFailed { message } && is_error_message(
                        message,
                        ErrorKind::Unknown,
                        ping_failure_text(),
                    )
                },
                Frame::Close => a == FrameAction::Finish,
                Frame::Other => a matches FrameAction::Reject { message, description }
                    && is_error_message(message, ErrorKind::Unknown, unknown_message_text())
                    && description@ == unknown_message_text(),
                Frame::ProtocolError => a == FrameAction::Finish,
            },
    {
        if self.ws_state != WsState::Running {
            return FrameAction::Ignore;
        }
        match frame {
            Frame::Message(m) => self.on_agent_message(m),
            Frame::Undecodable => FrameAction::LogUndecodable,
            Frame::Ping(p) => FrameAction::Pong(p),
            Frame::Pong(p) => {
                let expected = to_be_bytes(self.pinger - 1);
                if same_bytes(p.as_slice(), expected.as_slice()) {
                    FrameAction::Nothing
                } else {
                    FrameAction::PingFailed {
                        message: error_message(ErrorKind::Unknown, "failed to respond to ping"),
                    }
                }
            },
            Frame::Close => FrameAction::Finish,
            Frame::Other => FrameAction::Reject {
                message: error_message(ErrorKind::Unknown, "Got unknown message"),
                description: String::from_str("Got unknown message"),
            },
            Frame::ProtocolError => FrameAction::Finish,
        }
    }
}

/// The answer to an agent opening a websocket.
#[derive(Debug, PartialEq, Eq)]
pub enum ConnectOutcome {
    /// An agent with the same id is already authenticated: refuse with `403 Forbidden` and
    /// the text `already_authenticated_text()`
    Forbidden,
    /// The agent is recorded as connected but unauthenticated; the session starts by sending
    /// it this message
    Accepted(AgentMessage),
}

/// A websocket opened as `id` is refused: an agent with that id is already authenticated.
pub open spec fn refuses_connection<S, R>(state: State<S, R>, id: u64) -> bool {
    state.servers@.contains_key(id)
}

/// An agent opens a websocket as `server_id`, with `tx` the channel to its session, at time
/// `now`. If an agent with that id is already authenticated the connection is refused and
/// nothing changes. Otherwise the agent is stored among the unauthenticated ones (replacing an
/// earlier unauthenticated connection with the same id) and is asked to authenticate.
pub fn connect_websocket<S, R>(state: &mut State<S, R>, server_id: u64, tx: S, now: u64) -> (r:
    ConnectOutcome)
    requires
        old(state).wf(),
    ensures
        final(state).wf(),
        refuses_connection(*old(state), server_id) ==> r == ConnectOutcome::Forbidden && *final(state) == *old(state),
        old(state).servers@.contains_key(server_id) ==> r == ConnectOutcome::Forbidden,
        !old(state).servers@.contains_key(server_id) ==> r == ConnectOutcome::Accepted(
            AgentMessage::AuthReq { public_id: server_id },
        ) && final(state).unauthenticated_servers.value_map() == old(
            state,
        ).unauthenticated_servers.value_map().insert(server_id, tx),
        !refuses_connection(*old(state), server_id) ==> {
            &&& r == ConnectOutcome::Accepted(AgentMessage::AuthReq { public_id: server_id })
            &&& final(state).unauthenticated_servers.value_map() == old(state).unauthenticated_servers.value_map().insert(server_id, tx)
            &&& final(state).unauthenticated_servers.entries() == without_key(
                old(state).unauthenticated_servers.entries(),
                server_id,
            ).push((server_id, final(state).unauthenticated_servers.clock()))
            &&& final(state).unauthenticated_servers.clock() == (if now > old(state).unauthenticated_servers.clock() {
                now
            } else {
                old(state).unauthenticated_servers.clock()
            })
            &&& final(state).servers == old(state).servers
            &&& final(state).requests == old(state).requests
            &&& final(state).base_url == old(state).base_url
            &&& final(state).start_time == old(state).start_time
        },
{
    if state.servers.contains_key(&server_id) {
        return ConnectOutcome::Forbidden;
    }
    state.unauthenticated_servers.insert(server_id, tx, now);
    ConnectOutcome::Accepted(AgentMessage::AuthReq { public_id: server_id })
}

/// The text of the answer that refuses a second connection for an authenticated id.
pub fn already_authenticated_body() -> (r: &'static str)
    ensures
        r@ == already_authenticated_text(),
{
    "another server is already authenticated with this id"
}

/// What completing the authentication of `public_id` does, for each verdict of the database:
/// `before` and `after` are the state around it and `sends` the messages for the session.
pub open spec fn authentication_outcome<S, R>(
    before: State<S, R>,
    after: State<S, R>,
    public_id: u64,
    verdict: Result<bool, DbBackendError>,
    sends: Seq<InternalComm>,
) -> bool {
    match verdict {
        Ok(true) => if before.unauthenticated_servers.value_map().contains_key(public_id) {
            &&& after.unauthenticated_servers.value_map() == before.unauthenticated_servers.value_map().remove(public_id)
            &&& after.unauthenticated_servers.entries() == without_key(
                before.unauthenticated_servers.entries(),
                public_id,
            )
            &&& after.servers@ == before.servers@.insert(
                public_id,
                before.unauthenticated_servers.value_map()[public_id],
            )
            &&& sends == seq![
                InternalComm::SendMessage(AgentMessage::Acknowledge),
                InternalComm::Authenticated,
            ]
        } else {
            after == before && sends.len() == 0
        },
        Ok(false) => {
            &&& after == before
            &&& sends.len() == 2
            &&& sends[0] matches InternalComm::SendMessage(m) && is_error_message(
                m,
                ErrorKind::InvalidSession,
                auth_failure_text(),
            )
            &&& sends[1] == InternalComm::CloseConnection
        },
        Err(_) => after == before && sends.len() == 0,
    }
}

/// Complete the authentication of agent `public_id` once the database has judged its
/// credentials. Valid credentials move the agent's channel from the unauthenticated agents to
/// the authenticated ones, and the session is told to acknowledge and to mark itself
/// authenticated (if the agent has gone meanwhile, nothing happens). Refused credentials leave
/// the state alone; the session sends an `InvalidSession` error and closes. A database error
/// changes nothing. Returns the messages for the session, in order.
pub fn complete_authentication<S, R>(
    state: &mut State<S, R>,
    public_id: u64,
    verdict: Result<bool, DbBackendError>,
) -> (sends: Vec<InternalComm>)
    requires
        old(state).wf(),
    ensures
        final(state).wf(),
        final(state).requests == old(state).requests,
        final(state).base_url == old(state).base_url,
        final(state).start_time == old(state).start_time,
        authentication_outcome(*old(state), *final(state), public_id, verdict, sends@),
        match verdict {
            Ok(true) => if old(state).unauthenticated_servers.value_map().contains_key(public_id) {
                &&& final(state).unauthenticated_servers.value_map() == old(state).unauthenticated_servers.value_map().remove(public_id)
                &&& final(state).unauthenticated_servers.entries() == without_key(
                    old(state).unauthenticated_servers.entries(),
                    public_id,
                )
                &&& final(state).servers@ == old(state).servers@.insert(
                    public_id,
                    old(state).unauthenticated_servers.value_map()[public_id],
                )
                &&& sends@ == seq![
                    InternalComm::SendMessage(AgentMessage::Acknowledge),
                    InternalComm::Authenticated,
                ]
            } else {
                *final(state) == *old(state) && sends.len() == 0
            },
            Ok(false) => {
                &&& *final(state) == *old(state)
                &&& sends.len() == 2
                &&& sends[0] matches InternalComm::SendMessage(m) && is_error_message(
                    m,
                    ErrorKind::InvalidSession,
                    auth_failure_text(),
                )
                &&& sends[1] == InternalComm::CloseConnection
            },
            Err(_) => *final(state) == *old(state) && sends.len() == 0,
        },
{
    let mut sends: Vec<InternalComm> = Vec::new();
    match verdict {
        Ok(true) => {
            if state.unauthenticated_servers.contains_key(&public_id) {
                match state.unauthenticated_servers.remove(&public_id) {
                    Some(s) => {
                        state.servers.insert(public_id, s);
                        sends.push(InternalComm::SendMessage(AgentMessage::Acknowledge));
                        sends.push(InternalComm::Authenticated);
                        assert(sends@ =~= seq![
                            InternalComm::SendMessage(AgentMessage::Acknowledge),
                            InternalComm::Authenticated,
                        ]);
                    },
                    None => {},
                }
            }
        },
        Ok(false) => {
            sends.push(
                InternalComm::SendMessage(
                    error_message(ErrorKind::InvalidSession, "failed authentication"),
                ),
            );
            sends.push(InternalComm::CloseConnection);
        },
        Err(_) => {},
    }
    sends
}

/// A session that is not stopped delivers every queued message unchanged: polling
/// `SendMessage(m)` writes exactly `m` (whatever kind of message it is, errors included) and
/// leaves the session as it was; a close request or a broken queue closes it.
pub proof fn lemma_queued_messages_are_written(h: WsHandler, m: AgentMessage)
    requires
        h.ws_state != WsState::Stopped,
    ensures
        internal_next(h, Received::Message(InternalComm::SendMessage(m))) == (h, TickAction::Write(m)),
        internal_next(h, Received::Message(InternalComm::CloseConnection)) == (h, TickAction::Close),
        internal_next(h, Received::Disconnected) == (h, TickAction::Close),
        internal_next(h, Received::Empty) == (h, TickAction::Nothing),
{
}

/// How a session answers frames: a session that is not running ignores every frame; a running
/// one answers a ping with a pong carrying the same payload, finishes on a close frame or a
/// protocol error, logs a frame it cannot decode, and rejects (with an error message and an
/// invalid close) any other frame that is not a message.
pub proof fn lemma_frames_answered(h: WsHandler, frame: Frame, a: FrameAction)
    requires
        frame_action(h, frame, a),
    ensures
        h.ws_state != WsState::Running ==> a == FrameAction::Ignore,
        h.ws_state == WsState::Running ==> match frame {
            Frame::Ping(p) => a == FrameAction::Pong(p),
            Frame::Close => a == FrameAction::Finish,
            Frame::ProtocolError => a == FrameAction::Finish,
            Frame::Undecodable => a == FrameAction::LogUndecodable,
            Frame::Other => a matches FrameAction::Reject { message, description } && (
            message matches AgentMessage::Error { kind: ErrorKind::Unknown, reason: Some(r) }
                && r@ == "Got unknown message"@) && description@ == "Got unknown message"@,
            _ => true,
        },
{
}

/// Pings and pongs: after a tick has sent a ping, a pong that echoes that ping's payload is
/// accepted, and a pong with any other payload (a stale one included) fails the session with
/// an error; each tick advances the counter by one and sends eight bytes that tell different
/// counters apart.
pub proof fn lemma_pong_must_echo_last_ping(
    h: WsHandler,
    echo: Vec<u8>,
    q: Vec<u8>,
    a: FrameAction,
    b: FrameAction,
)
    requires
        h.ws_state == WsState::Running,
        h.pinger < u64::MAX,
        echo@ == ping_tick(h).1,
        frame_action(ping_tick(h).0, Frame::Pong(echo), a),
    ensures
        a == FrameAction::Nothing,
        ping_tick(h).0.pinger == h.pinger + 1,
        ping_tick(h).0.ws_state == h.ws_state && ping_tick(h).0.id == h.id
            && ping_tick(h).0.authentication == h.authentication,
        ping_tick(h).1.len() == 8,
        q@ != ping_tick(h).1 && frame_action(ping_tick(h).0, Frame::Pong(q), b) ==> (
        b matches FrameAction::PingFailed { message } && (message matches AgentMessage::Error {
            kind: ErrorKind::Unknown,
            reason: Some(r),
        } && r@ == "failed to respond to ping"@)),
{
}

/// The ping payload is the counter in big-endian order: its last byte is the counter's lowest
/// byte and its first byte the highest.
pub proof fn lemma_ping_payload_big_endian(n: u64)
    ensures
        be_bytes(n)[7] == n % 256,
        be_bytes(n)[0] == n / 0x100_0000_0000_0000,
        n < 256 ==> be_bytes(n) == seq![0u8, 0u8, 0u8, 0u8, 0u8, 0u8, 0u8, n as u8],
{
    assert(n as u8 == n % 256) by (bit_vector);
    assert((n >> 56u64) as u8 == n / 0x100_0000_0000_0000) by (bit_vector);
    if n < 256 {
        assert((n >> 8u64) as u8 == 0 && (n >> 16u64) as u8 == 0 && (n >> 24u64) as u8 == 0
            && (n >> 32u64) as u8 == 0 && (n >> 40u64) as u8 == 0 && (n >> 48u64) as u8 == 0
            && (n >> 56u64) as u8 == 0) by (bit_vector)
            requires
                n < 256,
        ;
        assert(be_bytes(n) =~= seq![0u8, 0u8, 0u8, 0u8, 0u8, 0u8, 0u8, n as u8]);
    }
}

/// Authentication is granted only by the database: valid credentials of an agent that is still
/// pending make it authenticated with the channel it connected with, and the session is told to
/// acknowledge and then to mark itself authenticated; refused credentials never authenticate
/// anyone, and the session sends an `InvalidSession` error and closes; a database error changes
/// nothing and sends nothing.
pub proof fn lemma_authentication_outcomes<S, R>(
    before: State<S, R>,
    after: State<S, R>,
    id: u64,
    verdict: Result<bool, DbBackendError>,
    sends: Seq<InternalComm>,
)
    requires
        authentication_outcome(before, after, id, verdict, sends),
    ensures
        verdict == Ok::<bool, DbBackendError>(true) && before.unauthenticated_servers.value_map().contains_key(id) ==> {
            &&& after.servers@.contains_key(id)
            &&& after.servers@[id] == before.unauthenticated_servers.value_map()[id]
            &&& !after.unauthenticated_servers.value_map().contains_key(id)
            &&& forall|k: u64| k != id ==> after.servers@.contains_key(k) == before.servers@.contains_key(k)
            &&& sends.len() == 2 && sends[0] == InternalComm::SendMessage(AgentMessage::Acknowledge)
                && sends[1] == InternalComm::Authenticated
        },
        verdict != Ok::<bool, DbBackendError>(true) ==> after.servers@ == before.servers@
            && after.unauthenticated_servers == before.unauthenticated_servers,
        verdict == Ok::<bool, DbBackendError>(false) ==> sends.len() == 2 && (
        sends[0] matches InternalComm::SendMessage(m) && (m matches AgentMessage::Error {
            kind: ErrorKind::InvalidSession,
            reason: Some(r),
        } && r@ == "failed authentication"@)) && sends[1] == InternalComm::CloseConnection,
        verdict is Err ==> after == before && sends.len() == 0,
        !sends.contains(InternalComm::Authenticated) || verdict == Ok::<bool, DbBackendError>(true),
{
    if verdict == Ok::<bool, DbBackendError>(false) {
        assert(sends[0] != InternalComm::Authenticated);
        assert(sends[1] != InternalComm::Authenticated);
    }
}

/// The shutdown of a session: asked to stop while running, it begins the shutdown and keeps
/// running, and keeps running if asked again; once `ShutDownComplete` arrives it is stopped,
/// and the next request to stop stops it. Its id, authentication and ping counter are kept.
pub proof fn lemma_shutdown_sequence(h: WsHandler)
    requires
        h.ws_state == WsState::Running,
    ensures
        ({
            let (h1, d1) = stopping_next(h);
            let (h2, a2) = internal_next(h1, Received::Message(InternalComm::ShutDownComplete));
            let (h3, d3) = stopping_next(h2);
            &&& d1 == StopDecision::BeginShutdown && h1.ws_state == WsState::Stopping
            &&& stopping_next(h1) == (h1, StopDecision::Continue)
            &&& h2.ws_state == WsState::Stopped && a2 == TickAction::Nothing
            &&& d3 == StopDecision::Stop
            &&& h3.id == h.id && h3.authentication == h.authentication && h3.pinger == h.pinger
        }),
{
}

/// A stopped session stays stopped: it handles no internal message and stops when asked.
pub proof fn lemma_stopped_is_final(h: WsHandler, r: Received)
    requires
        h.ws_state == WsState::Stopped,
    ensures
        internal_next(h, r) == (h, TickAction::Nothing),
        stopping_next(h) == (h, StopDecision::Stop),
{
}

/// Only an `Authenticated` message (to a session not stopped) marks a session authenticated,
/// and nothing marks an authenticated session unauthenticated again.
pub proof fn lemma_authentication_only_by_message(h: WsHandler, r: Received)
    ensures
        internal_next(h, r).0.authentication != h.authentication ==> h.ws_state != WsState::Stopped
            && r == Received::Message(InternalComm::Authenticated),
        h.authentication == Authentication::Authenticated ==> internal_next(h, r).0.authentication
            == Authentication::Authenticated,
        stopping_next(h).0.authentication == h.authentication,
{
}

/// The pong that echoes the last ping is accepted: after `on_ping_tick` sent the bytes of
/// counter `p` (and advanced the counter to `p + 1`), those bytes are what a pong must carry.
pub proof fn lemma_pong_of_last_ping_accepted(p: u64)
    requires
        p < u64::MAX,
    ensures
        be_bytes((((p + 1) as u64) - 1) as u64) == be_bytes(p),
{
}

/// A stale pong is refused: ping payloads of different counters differ, so only the pong of
/// the last ping matches.
pub proof fn lemma_stale_pong_rejected(a: u64, b: u64)
    ensures
        be_bytes(a) == be_bytes(b) ==> a == b,
        be_bytes(a).len() == 8,
{
    if be_bytes(a) == be_bytes(b) {
        assert(be_bytes(a)[0] == be_bytes(b)[0]);
        assert(be_bytes(a)[1] == be_bytes(b)[1]);
        assert(be_bytes(a)[2] == be_bytes(b)[2]);
        assert(be_bytes(a)[3] == be_bytes(b)[3]);
        assert(be_bytes(a)[4] == be_bytes(b)[4]);
        assert(be_bytes(a)[5] == be_bytes(b)[5]);
        assert(be_bytes(a)[6] == be_bytes(b)[6]);
        assert(be_bytes(a)[7] == be_bytes(b)[7]);
        assert(a == b) by (bit_vector)
            requires
                (a >> 56u64) as u8 == (b >> 56u64) as u8,
                (a >> 48u64) as u8 == (b >> 48u64) as u8,
                (a >> 40u64) as u8 == (b >> 40u64) as u8,
                (a >> 32u64) as u8 == (b >> 32u64) as u8,
                (a >> 24u64) as u8 == (b >> 24u64) as u8,
                (a >> 16u64) as u8 == (b >> 16u64) as u8,
                (a >> 8u64) as u8 == (b >> 8u64) as u8,
                a as u8 == b as u8,
        ;
    }
}

/// A websocket is refused exactly when an authenticated agent already holds its id, whatever
/// the agents still authenticating hold: a pending connection with the same id (one whose
/// credentials were refused, say) never blocks a reconnection, which replaces it.
pub proof fn lemma_refused_only_for_authenticated_ids<S, R>(a: State<S, R>, b: State<S, R>, id: u64)
    ensures
        refuses_connection(a, id) <==> a.servers@.contains_key(id),
        a.servers@.contains_key(id) == b.servers@.contains_key(id) ==> refuses_connection(a, id)
            == refuses_connection(b, id),
        a.servers@ == Map::<u64, S>::empty() ==> !refuses_connection(a, id),
{
}

/// Once an agent has authenticated (its unauthenticated channel moved to the authenticated
/// agents, as `complete_authentication` does), a second websocket for the same id is refused:
/// `connect_websocket` then answers `Forbidden` and changes nothing.
pub proof fn lemma_second_login_refused<S, R>(before: State<S, R>, after: State<S, R>, id: u64)
    requires
        before.unauthenticated_servers.value_map().contains_key(id),
        after.servers@ == before.servers@.insert(id, before.unauthenticated_servers.value_map()[id]),
    ensures
        refuses_connection(after, id),
{
}

} // verus!
