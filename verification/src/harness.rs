//! The desktop's side of the harness API connection, as decisions.
//!
//! The connection worker is an event loop: it reads a frame, decides, and
//! then writes a request or hands updates to the UI. The reading and writing
//! happen outside; what each event and command amounts to is decided here,
//! as a function from the worker's state and one input to the next state and
//! the actions to perform.
use vstd::prelude::*;
use crate::activity::{intent_from_partial_json, intent_of};
use crate::edits::{card_of, parse, EditCard, EditCardView};
use crate::events::{ApiEvent, ApiRequest, HistoryMessage, SessionInfo};
use crate::text::{
    chars_of, contains, contains_seq, copy, owned, push_decimal, push_str, str_eq,
    trim, trim_seq,
};
use crate::transcript::{plain, MessageView, Role, Transcript};

verus! {

/// One session in the strip.
#[derive(Debug)]
pub struct Entry {
    pub session_id: String,
    pub working_dir: Option<String>,
    /// Whether the session is mid-turn.
    pub busy: bool,
    /// Size of the session's stored record, in bytes, zero when the server
    /// could not measure it: the overview sizes a blob by it.
    pub weight: u64,
}

/// UI-facing updates produced by the connection worker.
#[derive(Debug)]
pub enum HarnessUpdate {
    Status(String),
    Attached { session_id: String, working_dir: Option<String> },
    /// The provider and model serving the session.
    Model { provider: Option<String>, model: Option<String> },
    Text(String),
    /// Streamed reasoning, kept apart from `Text` so it lands in its own block.
    Reasoning(String),
    /// The agent's current phase (a tool intent, or "thinking").
    Activity(String),
    /// A tool call's current label, keyed by call id.
    Tool { call_id: String, label: String },
    /// A finished file edit.
    Edit(EditCard),
    TurnDone,
    /// The agent took delivery of the user's message.
    MessageAccepted,
    /// Something failed.
    Failed(String),
    /// The daemon's current session list, for the session strip.
    Sessions(Vec<Entry>),
    /// The tail of another session's conversation, for the overview's preview.
    Peek { session_id: String, transcript: Transcript },
}

/// A command from the UI thread to the connection worker.
#[derive(Debug)]
pub enum Command {
    Send(String),
    /// Attach to another session; the worker retargets subsequent sends.
    Attach(String),
    /// Fetch the tail of another session without attaching to it.
    Peek(String),
}

/// What the worker does next.
#[derive(Debug)]
pub enum Action {
    /// Hand an update to the UI.
    Update(HarnessUpdate),
    /// Write a request to the server.
    Request(ApiRequest),
    /// Make this the session sends go to, and the one a reconnect re-attaches.
    Attach(String),
}

/// The text of a string, optionally.
pub open spec fn opt_view(o: Option<String>) -> Option<Seq<char>> {
    match o {
        Some(s) => Some(s@),
        None => None,
    }
}

/// The content of an [`Entry`].
pub struct EntryView {
    pub session_id: Seq<char>,
    pub working_dir: Option<Seq<char>>,
    pub busy: bool,
    pub weight: u64,
}

/// The content of a [`HarnessUpdate`].
pub enum UpdateView {
    Status(Seq<char>),
    Attached { session_id: Seq<char>, working_dir: Option<Seq<char>> },
    Model { provider: Option<Seq<char>>, model: Option<Seq<char>> },
    Text(Seq<char>),
    Reasoning(Seq<char>),
    Activity(Seq<char>),
    Tool { call_id: Seq<char>, label: Seq<char> },
    Edit(EditCardView),
    TurnDone,
    MessageAccepted,
    Failed(Seq<char>),
    Sessions(Seq<EntryView>),
    Peek { session_id: Seq<char>, transcript: Seq<MessageView> },
}

/// The content of an [`ApiRequest`].
pub enum RequestView {
    CreateSession { working_dir: Option<Seq<char>> },
    AttachSession { session_id: Seq<char> },
    SendMessage { session_id: Seq<char>, content: Seq<char> },
    PeekSession { session_id: Seq<char>, limit: Option<u64> },
    ListSessions,
    GetHistory { session_id: Seq<char> },
}

/// The content of an [`Action`].
pub enum ActionView {
    Update(UpdateView),
    Request(RequestView),
    Attach(Seq<char>),
}

impl View for Entry {
    type V = EntryView;

    open spec fn view(&self) -> EntryView {
        EntryView {
            session_id: self.session_id@,
            working_dir: opt_view(self.working_dir),
            busy: self.busy,
            weight: self.weight,
        }
    }
}

impl View for HarnessUpdate {
    type V = UpdateView;

    open spec fn view(&self) -> UpdateView {
        match self {
            HarnessUpdate::Status(s) => UpdateView::Status(s@),
            HarnessUpdate::Attached { session_id, working_dir } => UpdateView::Attached {
                session_id: session_id@,
                working_dir: opt_view(*working_dir),
            },
            HarnessUpdate::Model { provider, model } => UpdateView::Model {
                provider: opt_view(*provider),
                model: opt_view(*model),
            },
            HarnessUpdate::Text(s) => UpdateView::Text(s@),
            HarnessUpdate::Reasoning(s) => UpdateView::Reasoning(s@),
            HarnessUpdate::Activity(s) => UpdateView::Activity(s@),
            HarnessUpdate::Tool { call_id, label } => UpdateView::Tool {
                call_id: call_id@,
                label: label@,
            },
            HarnessUpdate::Edit(card) => UpdateView::Edit(card@),
            HarnessUpdate::TurnDone => UpdateView::TurnDone,
            HarnessUpdate::MessageAccepted => UpdateView::MessageAccepted,
            HarnessUpdate::Failed(s) => UpdateView::Failed(s@),
            HarnessUpdate::Sessions(v) => UpdateView::Sessions(v@.map_values(|e: Entry| e@)),
            HarnessUpdate::Peek { session_id, transcript } => UpdateView::Peek {
                session_id: session_id@,
                transcript: transcript@,
            },
        }
    }
}

impl View for ApiRequest {
    type V = RequestView;

    open spec fn view(&self) -> RequestView {
        match self {
            ApiRequest::CreateSession { working_dir } => RequestView::CreateSession {
                working_dir: opt_view(*working_dir),
            },
            ApiRequest::AttachSession { session_id } => RequestView::AttachSession {
                session_id: session_id@,
            },
            ApiRequest::SendMessage { session_id, content } => RequestView::SendMessage {
                session_id: session_id@,
                content: content@,
            },
            ApiRequest::PeekSession { session_id, limit } => RequestView::PeekSession {
                session_id: session_id@,
                limit: *limit,
            },
            ApiRequest::ListSessions => RequestView::ListSessions,
            ApiRequest::GetHistory { session_id } => RequestView::GetHistory {
                session_id: session_id@,
            },
        }
    }
}

impl View for Action {
    type V = ActionView;

    open spec fn view(&self) -> ActionView {
        match self {
            Action::Update(u) => ActionView::Update(u@),
            Action::Request(r) => ActionView::Request(r@),
            Action::Attach(s) => ActionView::Attach(s@),
        }
    }
}

/// The content of a list of actions.
pub open spec fn action_views(v: Seq<Action>) -> Seq<ActionView> {
    v.map_values(|a: Action| a@)
}

/// `c` in lower case, ASCII letters only.
pub open spec fn ascii_lower_char(c: char) -> char {
    if 'A' <= c && c <= 'Z' {
        ((c as u32) + 32) as char
    } else {
        c
    }
}

/// `s` in lower case, ASCII letters only (`str::to_ascii_lowercase`).
pub open spec fn ascii_lower(s: Seq<char>) -> Seq<char> {
    s.map_values(|c: char| ascii_lower_char(c))
}

/// The phrases by which a failed request says the machine is offline.
pub open spec fn offline_phrases() -> Seq<Seq<char>> {
    seq![
        "dns error"@,
        "failed to lookup address information"@,
        "temporary failure in name resolution"@,
        "network is unreachable"@,
        "no route to host"@,
        "name or service not known"@,
    ]
}

/// Whether a failure names one of the offline phrases, in any letter case.
pub open spec fn is_offline(message: Seq<char>) -> bool {
    exists|i: int| 0 <= i < 6 && contains_seq(ascii_lower(message), #[trigger] offline_phrases()[i])
}

/// Human wording for a failure: an offline machine is named as such, and
/// everything else passes through unchanged.
pub open spec fn explained(message: Seq<char>) -> Seq<char> {
    if is_offline(message) {
        "no network connection: "@ + message
    } else {
        message
    }
}

fn lower_chars(v: &[char]) -> (r: Vec<char>)
    ensures
        r@ == ascii_lower(v@),
{
    let mut r: Vec<char> = Vec::new();
    let mut i: usize = 0;
    while i < v.len()
        invariant
            i <= v@.len(),
            r@ == ascii_lower(v@.take(i as int)),
        decreases v.len() - i,
    {
        let c = v[i];
        let l = if 'A' <= c && c <= 'Z' {
            ((c as u8) + 32) as char
        } else {
            c
        };
        assert(l == ascii_lower_char(c)) by {
            if 'A' <= c && c <= 'Z' {
                assert((c as u8) as u32 == c as u32);
            }
        }
        r.push(l);
        i = i + 1;
        assert(r@ =~= ascii_lower(v@.take(i as int)));
    }
    assert(v@.take(v@.len() as int) =~= v@);
    r
}

/// Human wording for a failure, when the cause is one the user can act on.
///
/// Provider errors arrive as whatever the HTTP stack said; a DNS failure means
/// the machine is offline, and is named as such with the raw text kept after
/// it. Everything unrecognised is passed through unchanged: a wrong guess
/// would be worse than the raw text.
pub fn explain(message: &str) -> (r: String)
    ensures
        r@ == explained(message@),
{
    let v = chars_of(message);
    let lower = lower_chars(v.as_slice());
    let phrases: [&str; 6] = [
        "dns error",
        "failed to lookup address information",
        "temporary failure in name resolution",
        "network is unreachable",
        "no route to host",
        "name or service not known",
    ];
    let mut i: usize = 0;
    while i < 6
        invariant
            i <= 6,
            lower@ == ascii_lower(message@),
            phrases@ == seq![
                "dns error",
                "failed to lookup address information",
                "temporary failure in name resolution",
                "network is unreachable",
                "no route to host",
                "name or service not known",
            ],
            forall|j: int| 0 <= j < i ==> !contains_seq(lower@, #[trigger] offline_phrases()[j]),
        decreases 6 - i,
    {
        let needle = chars_of(phrases[i]);
        assert(needle@ == offline_phrases()[i as int]);
        if contains(lower.as_slice(), needle.as_slice()) {
            let mut out = owned("no network connection: ");
            push_str(&mut out, message);
            return out;
        }
        i = i + 1;
    }
    owned(message)
}

/// Streamed tool arguments, keyed by call id, as text.
pub type Inputs = Seq<(Seq<char>, Seq<char>)>;

/// The text of the argument buffers.
pub open spec fn input_views(v: Seq<(String, String)>) -> Inputs {
    v.map_values(|p: (String, String)| (p.0@, p.1@))
}

/// The arguments streamed so far for call `k`.
pub open spec fn lookup(m: Inputs, k: Seq<char>) -> Option<Seq<char>>
    decreases m.len(),
{
    if m.len() == 0 {
        None
    } else if m.last().0 == k {
        Some(m.last().1)
    } else {
        lookup(m.drop_last(), k)
    }
}

/// The buffers without call `k`'s.
pub open spec fn removed(m: Inputs, k: Seq<char>) -> Inputs
    decreases m.len(),
{
    if m.len() == 0 {
        m
    } else if m.last().0 == k {
        removed(m.drop_last(), k)
    } else {
        removed(m.drop_last(), k).push(m.last())
    }
}

/// The buffers with `d` appended to call `k`'s.
pub open spec fn extended(m: Inputs, k: Seq<char>, d: Seq<char>) -> Inputs {
    match lookup(m, k) {
        Some(v) => removed(m, k).push((k, v + d)),
        None => m.push((k, d)),
    }
}

/// A session-strip entry for a listed session.
pub open spec fn entry_of(s: SessionInfo) -> EntryView {
    EntryView {
        session_id: s.session_id@,
        working_dir: opt_view(s.working_dir),
        busy: s.status@ == "busy"@,
        weight: match s.transcript_bytes {
            Some(b) => b,
            None => 0,
        },
    }
}

/// A preview transcript built from a session's history: blank messages are
/// skipped, the rest trimmed, and anything not the user's reads as a reply.
pub open spec fn history_transcript(msgs: Seq<HistoryMessage>) -> Seq<MessageView>
    decreases msgs.len(),
{
    if msgs.len() == 0 {
        seq![]
    } else {
        let rest = history_transcript(msgs.drop_last());
        let m = msgs.last();
        let text = trim_seq(m.content@);
        if text.len() == 0 {
            rest
        } else if m.role@ == "user"@ {
            rest.push(plain(Role::User, text))
        } else {
            rest.push(plain(Role::Assistant, text))
        }
    }
}

/// The worker's state after an event, and what it does.
pub struct Routed {
    pub inputs: Inputs,
    pub current: Seq<char>,
    pub actions: Seq<ActionView>,
}

/// What `e` amounts to for a worker whose argument buffers are `m` and whose
/// most recently opened call is `cur`.
pub open spec fn route_of(m: Inputs, cur: Seq<char>, e: ApiEvent) -> Routed {
    match e {
        ApiEvent::Attached { session } => Routed {
            inputs: m,
            current: cur,
            actions: seq![
                ActionView::Attach(session.session_id@),
                ActionView::Request(RequestView::GetHistory { session_id: session.session_id@ }),
                ActionView::Update(
                    UpdateView::Attached {
                        session_id: session.session_id@,
                        working_dir: opt_view(session.working_dir),
                    },
                ),
            ],
        },
        ApiEvent::TextDelta { text, .. } => Routed {
            inputs: m,
            current: cur,
            actions: seq![ActionView::Update(UpdateView::Text(text@))],
        },
        ApiEvent::ReasoningDelta { text, .. } => Routed {
            inputs: m,
            current: cur,
            actions: seq![
                ActionView::Update(UpdateView::Activity("thinking"@)),
                ActionView::Update(UpdateView::Reasoning(text@)),
            ],
        },
        ApiEvent::ToolStart { call_id, name, .. } => Routed {
            inputs: removed(m, call_id@),
            current: call_id@,
            actions: seq![
                ActionView::Update(UpdateView::Tool { call_id: call_id@, label: name@ }),
                ActionView::Update(UpdateView::Activity(name@)),
            ],
        },
        ApiEvent::ToolInputDelta { call_id, delta, .. } => {
            let key = if call_id@.len() == 0 {
                cur
            } else {
                call_id@
            };
            let m2 = extended(m, key, delta@);
            Routed {
                inputs: m2,
                current: cur,
                actions: match intent_of(lookup(m2, key).unwrap()) {
                    Some(i) => seq![
                        ActionView::Update(UpdateView::Tool { call_id: key, label: i }),
                        ActionView::Update(UpdateView::Activity(i)),
                    ],
                    None => seq![],
                },
            }
        },
        ApiEvent::ToolExec { call_id, name, .. } => Routed {
            inputs: m,
            current: cur,
            actions: match lookup(m, call_id@) {
                Some(input) => match intent_of(input) {
                    Some(i) => seq![
                        ActionView::Update(UpdateView::Tool { call_id: call_id@, label: i }),
                        ActionView::Update(UpdateView::Activity(i)),
                    ],
                    None => seq![],
                },
                None => seq![ActionView::Update(UpdateView::Activity(name@))],
            },
        },
        ApiEvent::ToolDone { call_id, name, output, error, .. } => Routed {
            inputs: removed(m, call_id@),
            current: cur,
            actions: (if error is None && card_of(name@, lookup(m, call_id@), output@) is Some {
                seq![
                    ActionView::Update(
                        UpdateView::Edit(card_of(name@, lookup(m, call_id@), output@).unwrap()),
                    ),
                ]
            } else {
                seq![]
            }) + seq![ActionView::Update(UpdateView::Activity("thinking"@))],
        },
        ApiEvent::Sessions { sessions } => Routed {
            inputs: m,
            current: cur,
            actions: seq![
                ActionView::Update(
                    UpdateView::Sessions(sessions@.map_values(|s: SessionInfo| entry_of(s))),
                ),
            ],
        },
        ApiEvent::ModelInfo { provider, model, .. } => Routed {
            inputs: m,
            current: cur,
            actions: seq![
                ActionView::Update(
                    UpdateView::Model { provider: opt_view(provider), model: opt_view(model) },
                ),
            ],
        },
        ApiEvent::History { session_id, messages } => Routed {
            inputs: m,
            current: cur,
            actions: seq![
                ActionView::Update(
                    UpdateView::Peek {
                        session_id: session_id@,
                        transcript: history_transcript(messages@),
                    },
                ),
            ],
        },
        ApiEvent::MessageAccepted { .. } => Routed {
            inputs: m,
            current: cur,
            actions: seq![ActionView::Update(UpdateView::MessageAccepted)],
        },
        ApiEvent::TurnDone { .. } => Routed {
            inputs: m,
            current: cur,
            actions: seq![ActionView::Update(UpdateView::TurnDone)],
        },
        ApiEvent::Error { message, .. } => Routed {
            inputs: m,
            current: cur,
            actions: seq![
                ActionView::Update(UpdateView::Failed(explained(message@))),
                ActionView::Update(UpdateView::TurnDone),
            ],
        },
        _ => Routed { inputs: m, current: cur, actions: seq![] },
    }
}

/// The connection worker's own state: the arguments streamed for each tool
/// call still running, and the call that opened last (argument deltas that
/// carry no call id belong to it).
#[derive(Debug)]
pub struct Connection {
    tool_input: Vec<(String, String)>,
    current_call: String,
}

impl Connection {
    pub closed spec fn inputs(&self) -> Inputs {
        input_views(self.tool_input@)
    }

    pub closed spec fn current(&self) -> Seq<char> {
        self.current_call@
    }

    /// A fresh worker: no call running.
    pub fn new() -> (c: Connection)
        ensures
            c.inputs() == Seq::<(Seq<char>, Seq<char>)>::empty(),
            c.current() == Seq::<char>::empty(),
    {
        let c = Connection { tool_input: Vec::new(), current_call: String::new() };
        assert(c.inputs() =~= Seq::<(Seq<char>, Seq<char>)>::empty());
        c
    }

    fn find_input(&self, key: &str) -> (r: Option<String>)
        ensures
            match r {
                Some(v) => lookup(self.inputs(), key@) == Some(v@),
                None => lookup(self.inputs(), key@) is None,
            },
    {
        let mut i = self.tool_input.len();
        assert(self.inputs().take(i as int) =~= self.inputs());
        while i > 0
            invariant
                i <= self.tool_input@.len(),
                lookup(self.inputs(), key@) == lookup(self.inputs().take(i as int), key@),
            decreases i,
        {
            proof {
                assert(self.inputs().take(i as int).drop_last() =~= self.inputs().take(i - 1));
            }
            if str_eq(self.tool_input[i - 1].0.as_str(), key) {
                return Some(copy(&self.tool_input[i - 1].1));
            }
            i = i - 1;
        }
        None
    }

    fn remove_input(&mut self, key: &str)
        ensures
            final(self).inputs() == removed(old(self).inputs(), key@),
            final(self).current() == old(self).current(),
    {
        let ghost orig = old(self).inputs();
        let mut j: usize = 0;
        let ghost mut k: int = 0;
        while j < self.tool_input.len()
            invariant
                0 <= k <= orig.len(),
                self.current() == old(self).current(),
                self.inputs() == removed(orig.take(k), key@) + orig.skip(k),
                j == removed(orig.take(k), key@).len(),
            decreases self.tool_input.len() - j,
        {
            proof {
                assert(self.inputs()[j as int] == orig[k]);
                assert(orig.take(k + 1).drop_last() =~= orig.take(k));
                assert(orig.take(k + 1).last() == orig[k]);
            }
            if str_eq(self.tool_input[j].0.as_str(), key) {
                let ghost before = self.inputs();
                let _ = self.tool_input.remove(j);
                proof {
                    assert(self.inputs() =~= before.remove(j as int));
                    assert(self.inputs() =~= removed(orig.take(k + 1), key@) + orig.skip(k + 1));
                }
            } else {
                proof {
                    assert(self.inputs() =~= removed(orig.take(k + 1), key@) + orig.skip(k + 1));
                }
                j = j + 1;
            }
            proof {
                k = k + 1;
            }
        }
        proof {
            assert(orig.take(k) =~= orig);
            assert(self.inputs() =~= removed(orig, key@));
        }
    }

    fn extend_input(&mut self, key: &str, delta: &str) -> (buffer: String)
        ensures
            final(self).inputs() == extended(old(self).inputs(), key@, delta@),
            final(self).current() == old(self).current(),
            lookup(final(self).inputs(), key@) == Some(buffer@),
    {
        let mut buffer = match self.find_input(key) {
            Some(v) => v,
            None => String::new(),
        };
        self.remove_input(key);
        push_str(&mut buffer, delta);
        let ghost before = self.tool_input@;
        self.tool_input.push((owned(key), copy(&buffer)));
        proof {
            assert(self.inputs() =~= input_views(before).push((key@, buffer@)));
            if lookup(old(self).inputs(), key@) is None {
                lemma_removed_absent(old(self).inputs(), key@);
                assert(buffer@ =~= delta@);
            }
        }
        buffer
    }

    /// What the worker does with one event from the server: the updates for
    /// the UI, the request to write, and the session to remember.
    pub fn route(&mut self, event: ApiEvent) -> (actions: Vec<Action>)
        ensures
            ({
                let r = route_of(old(self).inputs(), old(self).current(), event);
                &&& action_views(actions@) == r.actions
                &&& final(self).inputs() == r.inputs
                &&& final(self).current() == r.current
            }),
            event is History ==> actions@.len() == 1 && (actions@[0] matches Action::Update(
                HarnessUpdate::Peek { transcript, .. },
            ) && transcript.mode() == crate::transcript::ReasoningMode::Full),
    {
        let ghost e = event;
        let mut actions: Vec<Action> = Vec::new();
        match event {
            ApiEvent::Attached { session } => {
                actions.push(Action::Attach(copy(&session.session_id)));
                actions.push(
                    Action::Request(ApiRequest::GetHistory { session_id: copy(&session.session_id) }),
                );
                actions.push(
                    Action::Update(
                        HarnessUpdate::Attached {
                            session_id: session.session_id,
                            working_dir: session.working_dir,
                        },
                    ),
                );
            },
            ApiEvent::TextDelta { text, .. } => {
                actions.push(Action::Update(HarnessUpdate::Text(text)));
            },
            ApiEvent::ReasoningDelta { text, .. } => {
                actions.push(Action::Update(HarnessUpdate::Activity(owned("thinking"))));
                actions.push(Action::Update(HarnessUpdate::Reasoning(text)));
            },
            ApiEvent::ToolStart { call_id, name, .. } => {
                self.remove_input(call_id.as_str());
                self.current_call = copy(&call_id);
                actions.push(
                    Action::Update(HarnessUpdate::Tool { call_id, label: copy(&name) }),
                );
                actions.push(Action::Update(HarnessUpdate::Activity(name)));
            },
            ApiEvent::ToolInputDelta { call_id, delta, .. } => {
                let key = if call_id.as_str().is_empty() {
                    copy(&self.current_call)
                } else {
                    call_id
                };
                let buffer = self.extend_input(key.as_str(), delta.as_str());
                if let Some(intent) = intent_from_partial_json(buffer.as_str()) {
                    actions.push(
                        Action::Update(HarnessUpdate::Tool { call_id: key, label: copy(&intent) }),
                    );
                    actions.push(Action::Update(HarnessUpdate::Activity(intent)));
                }
            },
            ApiEvent::ToolExec { call_id, name, .. } => {
                match self.find_input(call_id.as_str()) {
                    Some(input) => {
                        if let Some(intent) = intent_from_partial_json(input.as_str()) {
                            actions.push(
                                Action::Update(
                                    HarnessUpdate::Tool { call_id, label: copy(&intent) },
                                ),
                            );
                            actions.push(Action::Update(HarnessUpdate::Activity(intent)));
                        }
                    },
                    None => {
                        actions.push(Action::Update(HarnessUpdate::Activity(name)));
                    },
                }
            },
            ApiEvent::ToolDone { call_id, name, output, error, .. } => {
                if error.is_none() {
                    let input = self.find_input(call_id.as_str());
                    let card = match &input {
                        Some(i) => parse(name.as_str(), Some(i.as_str()), output.as_str()),
                        None => parse(name.as_str(), None, output.as_str()),
                    };
                    if let Some(card) = card {
                        actions.push(Action::Update(HarnessUpdate::Edit(card)));
                    }
                }
                self.remove_input(call_id.as_str());
                actions.push(Action::Update(HarnessUpdate::Activity(owned("thinking"))));
            },
            ApiEvent::Sessions { sessions } => {
                let entries = entries_from(sessions);
                actions.push(Action::Update(HarnessUpdate::Sessions(entries)));
            },
            ApiEvent::ModelInfo { provider, model, .. } => {
                actions.push(Action::Update(HarnessUpdate::Model { provider, model }));
            },
            ApiEvent::History { session_id, messages } => {
                let transcript = transcript_from_history(&messages);
                actions.push(Action::Update(HarnessUpdate::Peek { session_id, transcript }));
            },
            ApiEvent::MessageAccepted { .. } => {
                actions.push(Action::Update(HarnessUpdate::MessageAccepted));
            },
            ApiEvent::TurnDone { .. } => {
                actions.push(Action::Update(HarnessUpdate::TurnDone));
            },
            ApiEvent::Error { message, .. } => {
                actions.push(Action::Update(HarnessUpdate::Failed(explain(message.as_str()))));
                actions.push(Action::Update(HarnessUpdate::TurnDone));
            },
            _ => {},
        }
        proof {
            reveal_strlit("thinking");
            assert(action_views(actions@) =~= route_of(
                old(self).inputs(),
                old(self).current(),
                e,
            ).actions);
        }
        actions
    }
}

/// What a command from the UI amounts to, for a worker attached to `session`.
pub open spec fn command_of(session: Seq<char>, c: Command) -> Seq<ActionView> {
    match c {
        Command::Send(content) => if session.len() == 0 {
            seq![]
        } else {
            seq![
                ActionView::Request(
                    RequestView::SendMessage { session_id: session, content: content@ },
                ),
            ]
        },
        Command::Attach(target) => seq![
            ActionView::Attach(target@),
            ActionView::Request(RequestView::AttachSession { session_id: target@ }),
        ],
        Command::Peek(target) => seq![
            ActionView::Request(RequestView::PeekSession { session_id: target@, limit: None }),
        ],
    }
}

/// What the worker does with a command from the UI. A message waits for a
/// session (it is dropped before one is attached); a switch retargets sends
/// at once, so a message typed straight after it lands in the session the
/// user is looking at; a peek reads another session without retargeting.
pub fn command_actions(session: &str, command: Command) -> (actions: Vec<Action>)
    ensures
        action_views(actions@) == command_of(session@, command),
{
    let ghost c = command;
    let mut actions: Vec<Action> = Vec::new();
    match command {
        Command::Send(content) => {
            if !session.is_empty() {
                actions.push(
                    Action::Request(ApiRequest::SendMessage { session_id: owned(session), content }),
                );
            }
        },
        Command::Attach(target) => {
            actions.push(Action::Attach(copy(&target)));
            actions.push(Action::Request(ApiRequest::AttachSession { session_id: target }));
        },
        Command::Peek(target) => {
            actions.push(
                Action::Request(ApiRequest::PeekSession { session_id: target, limit: None }),
            );
        },
    }
    assert(action_views(actions@) =~= command_of(session@, c));
    actions
}

/// The first request on a new connection: re-attach the session the user was
/// reading, or open one in `working_dir` when there is none yet.
pub fn opening_request(previous: &str, working_dir: Option<String>) -> (r: ApiRequest)
    ensures
        previous@.len() == 0 ==> r@ == (RequestView::CreateSession {
            working_dir: opt_view(working_dir),
        }),
        previous@.len() > 0 ==> r@ == (RequestView::AttachSession { session_id: previous@ }),
{
    if previous.is_empty() {
        ApiRequest::CreateSession { working_dir }
    } else {
        ApiRequest::AttachSession { session_id: owned(previous) }
    }
}

/// First wait between reconnection attempts, in milliseconds.
pub const RECONNECT_BACKOFF: u64 = 500;

/// Ceiling of the wait between reconnection attempts, in milliseconds.
pub const RECONNECT_BACKOFF_MAX: u64 = 10_000;

/// The wait after `backoff` milliseconds: doubled, up to the ceiling.
pub fn next_backoff(backoff: u64) -> (next: u64)
    ensures
        next == if 2 * backoff < RECONNECT_BACKOFF_MAX {
            2 * backoff
        } else {
            RECONNECT_BACKOFF_MAX as int
        },
{
    if backoff < RECONNECT_BACKOFF_MAX / 2 {
        backoff * 2
    } else {
        RECONNECT_BACKOFF_MAX
    }
}

/// Whole seconds a wait of `backoff` milliseconds reads as: rounded half
/// up, and never less than one.
pub open spec fn wait_seconds(backoff: nat) -> nat {
    if (backoff + 500) / 1000 < 1 {
        1
    } else {
        (backoff + 500) / 1000
    }
}

/// The status line shown while waiting to reconnect.
pub fn reconnect_status(backoff: u64) -> (s: String)
    ensures
        s@ == "reconnecting in "@ + crate::text::decimal(wait_seconds(backoff as nat)) + "s..."@,
{
    // Rounded half up without forming `backoff + 500`, which could overflow.
    let mut secs = backoff / 1000 + if backoff % 1000 >= 500 {
        1
    } else {
        0
    };
    assert(secs == (backoff + 500) / 1000);
    if secs < 1 {
        secs = 1;
    }
    let mut s = owned("reconnecting in ");
    push_decimal(&mut s, secs);
    push_str(&mut s, "s...");
    s
}

/// The failure shown when the connection drops.
pub fn disconnected(error: &str) -> (s: String)
    ensures
        s@ == "disconnected: "@ + error@,
{
    let mut s = owned("disconnected: ");
    push_str(&mut s, error);
    s
}

/// Removing an absent key changes nothing.
proof fn lemma_removed_absent(m: Inputs, k: Seq<char>)
    requires
        lookup(m, k) is None,
    ensures
        removed(m, k) == m,
    decreases m.len(),
{
    if m.len() > 0 {
        lemma_removed_absent(m.drop_last(), k);
        assert(m.drop_last().push(m.last()) =~= m);
    }
}

/// Session-strip entries for the listed sessions.
fn entries_from(sessions: Vec<SessionInfo>) -> (entries: Vec<Entry>)
    ensures
        entries@.map_values(|e: Entry| e@) == sessions@.map_values(|s: SessionInfo| entry_of(s)),
{
    let mut entries: Vec<Entry> = Vec::new();
    let mut i: usize = 0;
    while i < sessions.len()
        invariant
            i <= sessions@.len(),
            entries@.len() == i,
            forall|j: int| 0 <= j < i ==> (#[trigger] entries@[j])@ == entry_of(sessions@[j]),
        decreases sessions.len() - i,
    {
        let s = &sessions[i];
        let busy = str_eq(s.status.as_str(), "busy");
        let weight = match s.transcript_bytes {
            Some(b) => b,
            None => 0,
        };
        let working_dir = match &s.working_dir {
            Some(d) => Some(copy(d)),
            None => None,
        };
        entries.push(Entry { session_id: copy(&s.session_id), working_dir, busy, weight });
        i = i + 1;
    }
    assert(entries@.map_values(|e: Entry| e@) =~= sessions@.map_values(|s: SessionInfo| entry_of(s)));
    entries
}

/// A preview transcript built from a session's history.
pub fn transcript_from_history(messages: &Vec<HistoryMessage>) -> (t: Transcript)
    ensures
        t@ == history_transcript(messages@),
        t.mode() == crate::transcript::ReasoningMode::Full,
{
    let mut transcript = Transcript::new();
    let mut i: usize = 0;
    while i < messages.len()
        invariant
            i <= messages@.len(),
            transcript@ == history_transcript(messages@.take(i as int)),
            transcript.mode() == crate::transcript::ReasoningMode::Full,
        decreases messages.len() - i,
    {
        proof {
            assert(messages@.take(i + 1).drop_last() =~= messages@.take(i as int));
        }
        let text = trim(messages[i].content.as_str());
        if !text.as_str().is_empty() {
            if str_eq(messages[i].role.as_str(), "user") {
                transcript.push(crate::transcript::Message::user(text.as_str()));
            } else {
                transcript.push(crate::transcript::Message::assistant(text.as_str()));
            }
        }
        i = i + 1;
    }
    assert(messages@.take(messages@.len() as int) =~= messages@);
    transcript
}

/// What a lookup finds once a call's buffer is dropped.
proof fn lemma_removed_lookup(m: Inputs, k: Seq<char>, o: Seq<char>)
    ensures
        lookup(removed(m, k), o) == if o == k {
            None
        } else {
            lookup(m, o)
        },
    decreases m.len(),
{
    if m.len() > 0 {
        lemma_removed_lookup(m.drop_last(), k, o);
        if m.last().0 != k {
            let r = removed(m.drop_last(), k).push(m.last());
            assert(r.drop_last() =~= removed(m.drop_last(), k));
        }
    }
}

/// Whether `a` hands the UI answer text.
pub open spec fn is_text_update(a: ActionView) -> bool {
    a matches ActionView::Update(UpdateView::Text(_))
}

/// Whether `a` hands the UI reasoning.
pub open spec fn is_reasoning_update(a: ActionView) -> bool {
    a matches ActionView::Update(UpdateView::Reasoning(_))
}

/// Answer text and reasoning stay apart: a text delta hands its text to the
/// UI as answer text and a reasoning delta hands its text over as
/// reasoning; no other event produces either, so reasoning never lands in
/// the reply block nor the reply in the reasoning block. A reasoning delta
/// also tells the activity line the model is thinking. Neither delta
/// touches the argument buffers or the current call.
pub proof fn answer_and_reasoning_stay_apart(m: Inputs, cur: Seq<char>, e: ApiEvent)
    ensures
        ({
            let r = route_of(m, cur, e);
            &&& (e matches ApiEvent::TextDelta { text, .. } ==> r.actions.contains(
                ActionView::Update(UpdateView::Text(text@)),
            ))
            &&& (e matches ApiEvent::ReasoningDelta { text, .. } ==> r.actions.contains(
                ActionView::Update(UpdateView::Reasoning(text@)),
            ) && r.actions.contains(ActionView::Update(UpdateView::Activity("thinking"@))))
            &&& (!(e is TextDelta) ==> forall|i: int|
                0 <= i < r.actions.len() ==> !is_text_update(#[trigger] r.actions[i]))
            &&& (!(e is ReasoningDelta) ==> forall|i: int|
                0 <= i < r.actions.len() ==> !is_reasoning_update(#[trigger] r.actions[i]))
            &&& (e is TextDelta || e is ReasoningDelta ==> r.inputs == m && r.current == cur)
        }),
{
    let r = route_of(m, cur, e);
    match e {
        ApiEvent::TextDelta { text, .. } => {
            assert(r.actions[0] == ActionView::Update(UpdateView::Text(text@)));
        },
        ApiEvent::ReasoningDelta { text, .. } => {
            assert(r.actions[0] == ActionView::Update(UpdateView::Activity("thinking"@)));
            assert(r.actions[1] == ActionView::Update(UpdateView::Reasoning(text@)));
        },
        _ => {},
    }
}

/// Whether `a` tells the UI the turn is over.
pub open spec fn ends_turn(a: ActionView) -> bool {
    a matches ActionView::Update(UpdateView::TurnDone)
}

/// Events reach the UI as what they are: an attach makes the session the
/// target and asks for its history; a tool call's start opens its card
/// under the tool's name and becomes the current call; an accepted message
/// and a finished turn are reported as such; a failure is reported and ends
/// the turn. Only a finished turn or a failure ends a turn.
pub proof fn events_reach_the_ui_as_themselves(m: Inputs, cur: Seq<char>, e: ApiEvent)
    ensures
        ({
            let r = route_of(m, cur, e);
            &&& (e matches ApiEvent::Attached { session } ==> r.actions.contains(
                ActionView::Attach(session.session_id@),
            ) && r.actions.contains(
                ActionView::Request(RequestView::GetHistory { session_id: session.session_id@ }),
            ))
            &&& (e matches ApiEvent::ToolStart { call_id, name, .. } ==> r.actions.contains(
                ActionView::Update(UpdateView::Tool { call_id: call_id@, label: name@ }),
            ) && r.current == call_id@)
            &&& (e is MessageAccepted ==> r.actions.contains(
                ActionView::Update(UpdateView::MessageAccepted),
            ))
            &&& (e is TurnDone ==> r.actions.contains(ActionView::Update(UpdateView::TurnDone)))
            &&& (e matches ApiEvent::Error { message, .. } ==> r.actions.contains(
                ActionView::Update(UpdateView::Failed(explained(message@))),
            ) && r.actions.contains(ActionView::Update(UpdateView::TurnDone)))
            &&& (!(e is TurnDone) && !(e is Error) ==> forall|i: int|
                0 <= i < r.actions.len() ==> !ends_turn(#[trigger] r.actions[i]))
        }),
{
    let r = route_of(m, cur, e);
    match e {
        ApiEvent::Attached { session } => {
            assert(r.actions[0] == ActionView::Attach(session.session_id@));
            assert(r.actions[1] == ActionView::Request(
                RequestView::GetHistory { session_id: session.session_id@ },
            ));
        },
        ApiEvent::ToolStart { call_id, name, .. } => {
            assert(r.actions[0] == ActionView::Update(
                UpdateView::Tool { call_id: call_id@, label: name@ },
            ));
        },
        ApiEvent::MessageAccepted { .. } => {
            assert(r.actions[0] == ActionView::Update(UpdateView::MessageAccepted));
        },
        ApiEvent::TurnDone { .. } => {
            assert(r.actions[0] == ActionView::Update(UpdateView::TurnDone));
        },
        ApiEvent::Error { message, .. } => {
            assert(r.actions[0] == ActionView::Update(UpdateView::Failed(explained(message@))));
            assert(r.actions[1] == ActionView::Update(UpdateView::TurnDone));
        },
        _ => {},
    }
}

/// Argument buffers follow their calls: a call's streamed arguments
/// accumulate in order, its buffer is gone once the call finishes or opens
/// again, and every other call's buffer is left as it was. A turn with many
/// calls does not keep their arguments forever.
pub proof fn argument_buffers_follow_their_calls(m: Inputs, k: Seq<char>, o: Seq<char>, d: Seq<char>)
    requires
        o != k,
    ensures
        lookup(extended(m, k, d), k) == Some(
            match lookup(m, k) {
                Some(v) => v + d,
                None => d,
            },
        ),
        lookup(extended(m, k, d), o) == lookup(m, o),
        lookup(removed(m, k), k) is None,
        lookup(removed(m, k), o) == lookup(m, o),
{
    lemma_removed_lookup(m, k, k);
    lemma_removed_lookup(m, k, o);
    match lookup(m, k) {
        Some(v) => {
            let e = removed(m, k).push((k, v + d));
            assert(e.drop_last() =~= removed(m, k));
        },
        None => {
            let e = m.push((k, d));
            assert(e.drop_last() =~= m);
        },
    }
}

} // verus!
