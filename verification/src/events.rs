//! Server-to-client events of the harness API, and the requests a client
//! sends.
use vstd::prelude::*;
use crate::json::{Number, NumberView, number_view};
use crate::edits::opt_text;

verus! {

/// Why a request failed.
#[derive(Debug, Clone, Copy, PartialEq, Eq, Structural)]
pub enum ErrorCode {
    UnsupportedVersion,
    UnknownRequest,
    UnknownSession,
    InvalidRequest,
    Internal,
}

/// A session as the server describes it.
#[derive(Clone, Debug, PartialEq, Eq)]
pub struct SessionInfo {
    pub session_id: String,
    pub working_dir: Option<String>,
    pub title: Option<String>,
    pub status: String,
    /// Size of the session's stored record, in bytes, when known: a cheap,
    /// monotonic proxy for how much conversation it holds.
    pub transcript_bytes: Option<u64>,
}

/// One message of a session's history.
#[derive(Clone, Debug, PartialEq, Eq)]
pub struct HistoryMessage {
    /// "user" | "assistant" | "tool".
    pub role: String,
    pub content: String,
}

/// The curated event surface.
#[derive(Clone, Debug, PartialEq, Eq)]
pub enum ApiEvent {
    /// Handshake accepted. Sent in reply to `Hello`.
    HelloOk { version: u32, server: String, capabilities: Vec<String> },
    /// Generic success acknowledgment for requests without a richer reply.
    Success,
    /// Request failed.
    Error { code: ErrorCode, message: String },
    /// Reply to `ListSessions`.
    Sessions { sessions: Vec<SessionInfo> },
    /// Reply to `CreateSession` / `AttachSession`.
    Attached { session: SessionInfo },
    /// Reply to `GetHistory`.
    History { session_id: String, messages: Vec<HistoryMessage> },
    /// Reply to `Ping`.
    Pong,
    /// Assistant text delta.
    TextDelta { session_id: String, text: String },
    /// Model reasoning delta.
    ReasoningDelta { session_id: String, text: String },
    /// Reasoning finished for the current step, with its duration in seconds.
    ReasoningDone { session_id: String, duration_secs: Option<Number> },
    /// Tool call streaming lifecycle.
    ToolStart { session_id: String, call_id: String, name: String },
    ToolInputDelta { session_id: String, call_id: String, delta: String },
    ToolExec { session_id: String, call_id: String, name: String },
    ToolDone {
        session_id: String,
        call_id: String,
        name: String,
        output: String,
        error: Option<String>,
    },
    /// Token usage update for the attached session.
    TokenUsage { session_id: String, input: u64, output: u64, cache_read_input: Option<u64> },
    /// The turn finished; the agent is idle.
    TurnDone { session_id: String },
    /// The agent accepted a user message.
    MessageAccepted { session_id: String },
    /// The harness needs a permission decision from the user.
    PermissionRequest {
        session_id: String,
        request_id: String,
        tool_name: String,
        description: String,
    },
    /// Session-level status change.
    SessionStatus { session_id: String, status: String },
    /// The provider and model serving the attached session.
    ModelInfo { session_id: String, provider: Option<String>, model: Option<String> },
    /// Forward-compatibility catch-all: clients skip this silently.
    Unknown,
}

/// A server frame: an event, and the request it answers when it is a reply.
#[derive(Debug)]
pub struct ServerFrame {
    pub reply_to: Option<u64>,
    pub event: ApiEvent,
}

impl ServerFrame {
    /// A reply to request `id`.
    pub fn reply(id: u64, event: ApiEvent) -> (f: ServerFrame)
        ensures
            f.reply_to == Some(id),
            f.event == event,
    {
        ServerFrame { reply_to: Some(id), event }
    }

    /// An unsolicited event.
    pub fn event(event: ApiEvent) -> (f: ServerFrame)
        ensures
            f.reply_to is None,
            f.event == event,
    {
        ServerFrame { reply_to: None, event }
    }
}

/// The content of a [`SessionInfo`].
pub struct SessionView {
    pub session_id: Seq<char>,
    pub working_dir: Option<Seq<char>>,
    pub title: Option<Seq<char>>,
    pub status: Seq<char>,
    pub transcript_bytes: Option<u64>,
}

impl View for SessionInfo {
    type V = SessionView;

    open spec fn view(&self) -> SessionView {
        SessionView {
            session_id: self.session_id@,
            working_dir: opt_text(self.working_dir),
            title: opt_text(self.title),
            status: self.status@,
            transcript_bytes: self.transcript_bytes,
        }
    }
}

/// The content of a [`HistoryMessage`]: its role and its text.
pub struct MessageLine {
    pub role: Seq<char>,
    pub content: Seq<char>,
}

impl View for HistoryMessage {
    type V = MessageLine;

    open spec fn view(&self) -> MessageLine {
        MessageLine { role: self.role@, content: self.content@ }
    }
}

/// The content of a list of sessions.
pub open spec fn sessions_of(v: Seq<SessionInfo>) -> Seq<SessionView> {
    v.map_values(|s: SessionInfo| s@)
}

/// The content of a list of history messages.
pub open spec fn lines_of(v: Seq<HistoryMessage>) -> Seq<MessageLine> {
    v.map_values(|m: HistoryMessage| m@)
}

/// The content of an [`ApiEvent`].
pub enum EventView {
    HelloOk { version: u32, server: Seq<char>, capabilities: Seq<Seq<char>> },
    Success,
    Error { code: ErrorCode, message: Seq<char> },
    Sessions { sessions: Seq<SessionView> },
    Attached { session: SessionView },
    History { session_id: Seq<char>, messages: Seq<MessageLine> },
    Pong,
    TextDelta { session_id: Seq<char>, text: Seq<char> },
    ReasoningDelta { session_id: Seq<char>, text: Seq<char> },
    ReasoningDone { session_id: Seq<char>, duration_secs: Option<NumberView> },
    ToolStart { session_id: Seq<char>, call_id: Seq<char>, name: Seq<char> },
    ToolInputDelta { session_id: Seq<char>, call_id: Seq<char>, delta: Seq<char> },
    ToolExec { session_id: Seq<char>, call_id: Seq<char>, name: Seq<char> },
    ToolDone {
        session_id: Seq<char>,
        call_id: Seq<char>,
        name: Seq<char>,
        output: Seq<char>,
        error: Option<Seq<char>>,
    },
    TokenUsage { session_id: Seq<char>, input: u64, output: u64, cache_read_input: Option<u64> },
    TurnDone { session_id: Seq<char> },
    MessageAccepted { session_id: Seq<char> },
    PermissionRequest {
        session_id: Seq<char>,
        request_id: Seq<char>,
        tool_name: Seq<char>,
        description: Seq<char>,
    },
    SessionStatus { session_id: Seq<char>, status: Seq<char> },
    ModelInfo { session_id: Seq<char>, provider: Option<Seq<char>>, model: Option<Seq<char>> },
    Unknown,
}

impl View for ApiEvent {
    type V = EventView;

    open spec fn view(&self) -> EventView {
        match *self {
            ApiEvent::HelloOk { version, server, capabilities } => EventView::HelloOk {
                version,
                server: server@,
                capabilities: capabilities@.map_values(|c: String| c@),
            },
            ApiEvent::Success => EventView::Success,
            ApiEvent::Error { code, message } => EventView::Error { code, message: message@ },
            ApiEvent::Sessions { sessions } => EventView::Sessions {
                sessions: sessions_of(sessions@),
            },
            ApiEvent::Attached { session } => EventView::Attached { session: session@ },
            ApiEvent::History { session_id, messages } => EventView::History {
                session_id: session_id@,
                messages: lines_of(messages@),
            },
            ApiEvent::Pong => EventView::Pong,
            ApiEvent::TextDelta { session_id, text } => EventView::TextDelta {
                session_id: session_id@,
                text: text@,
            },
            ApiEvent::ReasoningDelta { session_id, text } => EventView::ReasoningDelta {
                session_id: session_id@,
                text: text@,
            },
            ApiEvent::ReasoningDone { session_id, duration_secs } => EventView::ReasoningDone {
                session_id: session_id@,
                duration_secs: match duration_secs {
                    Some(n) => Some(number_view(n)),
                    None => None,
                },
            },
            ApiEvent::ToolStart { session_id, call_id, name } => EventView::ToolStart {
                session_id: session_id@,
                call_id: call_id@,
                name: name@,
            },
            ApiEvent::ToolInputDelta { session_id, call_id, delta } => EventView::ToolInputDelta {
                session_id: session_id@,
                call_id: call_id@,
                delta: delta@,
            },
            ApiEvent::ToolExec { session_id, call_id, name } => EventView::ToolExec {
                session_id: session_id@,
                call_id: call_id@,
                name: name@,
            },
            ApiEvent::ToolDone { session_id, call_id, name, output, error } => EventView::ToolDone {
                session_id: session_id@,
                call_id: call_id@,
                name: name@,
                output: output@,
                error: opt_text(error),
            },
            ApiEvent::TokenUsage { session_id, input, output, cache_read_input } =>
                EventView::TokenUsage { session_id: session_id@, input, output, cache_read_input },
            ApiEvent::TurnDone { session_id } => EventView::TurnDone { session_id: session_id@ },
            ApiEvent::MessageAccepted { session_id } => EventView::MessageAccepted {
                session_id: session_id@,
            },
            ApiEvent::PermissionRequest { session_id, request_id, tool_name, description } =>
                EventView::PermissionRequest {
                session_id: session_id@,
                request_id: request_id@,
                tool_name: tool_name@,
                description: description@,
            },
            ApiEvent::SessionStatus { session_id, status } => EventView::SessionStatus {
                session_id: session_id@,
                status: status@,
            },
            ApiEvent::ModelInfo { session_id, provider, model } => EventView::ModelInfo {
                session_id: session_id@,
                provider: opt_text(provider),
                model: opt_text(model),
            },
            ApiEvent::Unknown => EventView::Unknown,
        }
    }
}

/// The content of a [`ServerFrame`].
pub struct FrameView {
    pub reply_to: Option<u64>,
    pub event: EventView,
}

impl View for ServerFrame {
    type V = FrameView;

    open spec fn view(&self) -> FrameView {
        FrameView { reply_to: self.reply_to, event: self.event@ }
    }
}

/// A client request, as the desktop sends them.
#[derive(Debug)]
pub enum ApiRequest {
    CreateSession { working_dir: Option<String> },
    AttachSession { session_id: String },
    SendMessage { session_id: String, content: String },
    PeekSession { session_id: String, limit: Option<u64> },
    ListSessions,
    GetHistory { session_id: String },
}

} // verus!
