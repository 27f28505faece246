//! The bridge between the harness API and the daemon's own protocol.
//!
//! Both directions are pure: a request or a daemon event goes in, frames come
//! out, and the per-connection bookkeeping is updated. What the machine knows
//! (the working directory, which directories are source checkouts, the stored
//! session records) is read by the caller and handed in as a [`Host`].
use vstd::prelude::*;
use crate::json::{
    Json, JsonView, NumberView, member, text_of, text_or_blank, array_of, u64_of, bool_of,
    number_of, get, text_at, text_or_empty, u64_at, bool_at, array_at, number_at, copy_json,
    members_view, object, text_member, u64_member,
};
use crate::events::{
    ApiEvent, ErrorCode, EventView, FrameView, HistoryMessage, MessageLine, ServerFrame,
    SessionInfo, SessionView, lines_of, sessions_of,
};
use crate::edits::texts;
use crate::text::{copy, owned, push_str, str_eq, trim_seq, trim};

verus! {

/// Default number of messages a `peek_session` returns: enough to recognise
/// which conversation it is, few enough that peeking many sessions stays cheap.
pub const PEEK_LIMIT: u64 = 12;

/// What a simple request expects back from the daemon.
#[derive(Debug, Clone, Copy, PartialEq, Eq, Structural)]
pub enum SimpleKind {
    Ping,
    History,
    Ack,
}

/// Where a client request, once mapped, goes.
#[derive(Debug)]
pub enum Outbound {
    /// Forward to the daemon connection.
    Legacy(Json),
    /// Answer the API client directly.
    Reply(ServerFrame),
}

/// The content of an [`Outbound`].
pub enum OutView {
    Legacy(JsonView),
    Reply(FrameView),
}

impl View for Outbound {
    type V = OutView;

    open spec fn view(&self) -> OutView {
        match *self {
            Outbound::Legacy(j) => OutView::Legacy(j@),
            Outbound::Reply(f) => OutView::Reply(f@),
        }
    }
}

/// The content of a list of outbound messages.
pub open spec fn outs_of(v: Seq<Outbound>) -> Seq<OutView> {
    v.map_values(|o: Outbound| o@)
}

/// The content of a list of frames.
pub open spec fn frames_of(v: Seq<ServerFrame>) -> Seq<FrameView> {
    v.map_values(|f: ServerFrame| f@)
}

/// What the machine holds about one stored session.
#[derive(Debug)]
pub struct StoredSession {
    pub session_id: String,
    /// Size of the stored record in bytes, when it could be read.
    pub bytes: Option<u64>,
    /// The stored record, when it could be read and parsed.
    pub record: Option<Json>,
}

/// What the machine around the bridge says, read by the caller.
#[derive(Debug)]
pub struct Host {
    /// The process's working directory, when it can be named.
    pub current_dir: Option<String>,
    /// Directories known to lie inside a jcode source checkout.
    pub checkouts: Vec<String>,
    /// The stored sessions the call may read about.
    pub stored: Vec<StoredSession>,
}

/// The content of a [`StoredSession`].
pub struct StoredView {
    pub session_id: Seq<char>,
    pub bytes: Option<u64>,
    pub record: Option<JsonView>,
}

impl View for StoredSession {
    type V = StoredView;

    open spec fn view(&self) -> StoredView {
        StoredView {
            session_id: self.session_id@,
            bytes: self.bytes,
            record: match self.record {
                Some(r) => Some(r@),
                None => None,
            },
        }
    }
}

/// The content of a [`Host`].
pub struct HostView {
    pub current_dir: Option<Seq<char>>,
    pub checkouts: Seq<Seq<char>>,
    pub stored: Seq<StoredView>,
}

impl View for Host {
    type V = HostView;

    open spec fn view(&self) -> HostView {
        HostView {
            current_dir: match self.current_dir {
                Some(d) => Some(d@),
                None => None,
            },
            checkouts: texts(self.checkouts@),
            stored: self.stored@.map_values(|s: StoredSession| s@),
        }
    }
}

/// The first stored session, at or after `from`, with id `id`.
pub open spec fn stored_index(st: Seq<StoredView>, id: Seq<char>, from: int) -> Option<int>
    decreases st.len() - from,
{
    if from < 0 || from >= st.len() {
        None
    } else if st[from].session_id == id {
        Some(from)
    } else {
        stored_index(st, id, from + 1)
    }
}

/// Size of the stored record of session `id`, when known.
pub open spec fn bytes_of(h: HostView, id: Seq<char>) -> Option<u64> {
    match stored_index(h.stored, id, 0) {
        Some(i) => h.stored[i].bytes,
        None => None,
    }
}

/// The stored record of session `id`, when it could be read.
pub open spec fn record_of(h: HostView, id: Seq<char>) -> Option<JsonView> {
    match stored_index(h.stored, id, 0) {
        Some(i) => h.stored[i].record,
        None => None,
    }
}

/// Working directory of session `id`, as its stored record names it.
pub open spec fn resolved_dir(h: HostView, id: Seq<char>) -> Option<Seq<char>> {
    match record_of(h, id) {
        Some(r) => text_of(member(r, "working_dir"@)),
        None => None,
    }
}

/// Finds the stored session with id `id`.
fn find_stored<'a>(host: &'a Host, id: &str) -> (r: Option<&'a StoredSession>)
    ensures
        match r {
            Some(s) => stored_index(host@.stored, id@, 0) is Some && s@ == host@.stored[stored_index(
                host@.stored,
                id@,
                0,
            )->0],
            None => stored_index(host@.stored, id@, 0) is None,
        },
{
    let ghost st = host@.stored;
    let mut i: usize = 0;
    while i < host.stored.len()
        invariant
            i <= host.stored@.len(),
            st == host@.stored,
            st.len() == host.stored@.len(),
            forall|k: int| 0 <= k < st.len() ==> #[trigger] st[k] == host.stored@[k]@,
            stored_index(st, id@, 0) == stored_index(st, id@, i as int),
        decreases host.stored.len() - i,
    {
        if str_eq(host.stored[i].session_id.as_str(), id) {
            return Some(&host.stored[i]);
        }
        i = i + 1;
    }
    None
}

/// Size of the stored record of session `id`.
fn stored_bytes(host: &Host, id: &str) -> (r: Option<u64>)
    ensures
        r == bytes_of(host@, id@),
{
    match find_stored(host, id) {
        Some(s) => s.bytes,
        None => None,
    }
}

/// Working directory of session `id`, read from its stored record.
fn resolve_working_dir(host: &Host, id: &str) -> (r: Option<String>)
    ensures
        match r {
            Some(d) => resolved_dir(host@, id@) == Some(d@),
            None => resolved_dir(host@, id@) is None,
        },
{
    match find_stored(host, id) {
        Some(s) => match &s.record {
            Some(rec) => text_at(rec, "working_dir"),
            None => None,
        },
        None => None,
    }
}

/// Whether `dir` is known to lie inside a jcode source checkout.
fn in_checkout(host: &Host, dir: &str) -> (b: bool)
    ensures
        b == host@.checkouts.contains(dir@),
{
    let ghost cs = host@.checkouts;
    let mut i: usize = 0;
    while i < host.checkouts.len()
        invariant
            i <= host.checkouts@.len(),
            cs == host@.checkouts,
            cs.len() == host.checkouts@.len(),
            forall|k: int| 0 <= k < cs.len() ==> #[trigger] cs[k] == host.checkouts@[k]@,
            forall|k: int| 0 <= k < i ==> cs[k] != dir@,
        decreases host.checkouts.len() - i,
    {
        if str_eq(host.checkouts[i].as_str(), dir) {
            assert(cs[i as int] == dir@);
            return true;
        }
        i = i + 1;
    }
    false
}

/// The text a list of content blocks carries, in order.
pub open spec fn block_texts(bs: Seq<JsonView>) -> Seq<char>
    decreases bs.len(),
{
    if bs.len() == 0 {
        Seq::empty()
    } else {
        block_texts(bs.drop_last()) + text_or_blank(bs.last(), "text"@)
    }
}

/// A stored message's content as plain text: a bare string as it is, an array
/// of blocks as the concatenation of their texts, anything else as nothing.
pub open spec fn flattened(c: JsonView) -> Seq<char> {
    match c {
        JsonView::Text(s) => s,
        JsonView::Array(bs) => block_texts(bs),
        _ => Seq::empty(),
    }
}

/// Flattens a stored message's `content` to plain text.
pub fn flatten_content(content: &Json) -> (r: String)
    ensures
        r@ == flattened(content@),
{
    match content {
        Json::Text(s) => copy(s),
        Json::Array(blocks) => {
            let ghost bs = match content@ {
                JsonView::Array(bs) => bs,
                _ => Seq::empty(),
            };
            let mut out = String::new();
            let mut i: usize = 0;
            while i < blocks.len()
                invariant
                    i <= blocks@.len(),
                    bs.len() == blocks@.len(),
                    content@ == JsonView::Array(bs),
                    forall|k: int| 0 <= k < bs.len() ==> #[trigger] bs[k] == blocks@[k]@,
                    out@ == block_texts(bs.take(i as int)),
                decreases blocks.len() - i,
            {
                let t = text_or_empty(&blocks[i], "text");
                push_str(&mut out, t.as_str());
                proof {
                    assert(bs.take(i + 1).drop_last() =~= bs.take(i as int));
                }
                i = i + 1;
            }
            assert(bs.take(i as int) =~= bs);
            out
        },
        _ => String::new(),
    }
}

/// The preview line a stored message contributes: a user or assistant
/// message whose flattened text is not blank.
pub open spec fn preview_line(m: JsonView) -> Option<MessageLine> {
    match text_of(member(m, "role"@)) {
        Some(role) => {
            let content = flattened(member(m, "content"@));
            if (role == "user"@ || role == "assistant"@) && trim_seq(content).len() > 0 {
                Some(MessageLine { role, content })
            } else {
                None
            }
        },
        None => None,
    }
}

/// The preview lines of a list of stored messages, in order.
pub open spec fn preview_lines(ms: Seq<JsonView>) -> Seq<MessageLine>
    decreases ms.len(),
{
    if ms.len() == 0 {
        Seq::empty()
    } else {
        let rest = preview_lines(ms.drop_last());
        match preview_line(ms.last()) {
            Some(l) => rest.push(l),
            None => rest,
        }
    }
}

/// The last `n` items of `s` (all of them when there are fewer).
pub open spec fn last_n<A>(s: Seq<A>, n: nat) -> Seq<A> {
    if s.len() <= n {
        s
    } else {
        s.subrange(s.len() - n, s.len() as int)
    }
}

/// The last `limit` preview lines of a stored record.
pub open spec fn stored_preview(record: Option<JsonView>, limit: nat) -> Seq<MessageLine> {
    match record {
        Some(r) => match array_of(member(r, "messages"@)) {
            Some(ms) => last_n(preview_lines(ms), limit),
            None => Seq::empty(),
        },
        None => Seq::empty(),
    }
}

/// The preview line of one stored message.
fn preview_of(m: &Json) -> (r: Option<HistoryMessage>)
    ensures
        match r {
            Some(l) => preview_line(m@) == Some(l@),
            None => preview_line(m@) is None,
        },
{
    match text_at(m, "role") {
        Some(role) => {
            if str_eq(role.as_str(), "user") || str_eq(role.as_str(), "assistant") {
                let content = match get(m, "content") {
                    Some(c) => flatten_content(c),
                    None => String::new(),
                };
                let t = trim(content.as_str());
                if t.as_str().is_empty() {
                    None
                } else {
                    Some(HistoryMessage { role, content })
                }
            } else {
                None
            }
        },
        None => None,
    }
}

/// The last `limit` user and assistant messages of a stored record, with
/// their content flattened to text and blank ones left out.
pub fn stored_tail(record: Option<&Json>, limit: u64) -> (r: Vec<HistoryMessage>)
    ensures
        lines_of(r@) == stored_preview(
            match record {
                Some(j) => Some(j@),
                None => None,
            },
            limit as nat,
        ),
{
    let messages = match record {
        Some(rec) => array_at(rec, "messages"),
        None => None,
    };
    match messages {
        None => {
            let v: Vec<HistoryMessage> = Vec::new();
            assert(lines_of(v@) =~= Seq::<MessageLine>::empty());
            v
        },
        Some(ms) => {
            let ghost a = array_of(member(record->0@, "messages"@))->0;
            let mut all: Vec<HistoryMessage> = Vec::new();
            let mut i: usize = 0;
            while i < ms.len()
                invariant
                    i <= ms@.len(),
                    a.len() == ms@.len(),
                    forall|k: int| 0 <= k < a.len() ==> #[trigger] a[k] == ms@[k]@,
                    lines_of(all@) == preview_lines(a.take(i as int)),
                decreases ms.len() - i,
            {
                let line = preview_of(&ms[i]);
                proof {
                    assert(a.take(i + 1).drop_last() =~= a.take(i as int));
                    assert(a.take(i + 1).last() == a[i as int]);
                }
                match line {
                    Some(l) => {
                        let ghost before = all@;
                        all.push(l);
                        assert(lines_of(all@) =~= lines_of(before).push(l@));
                    },
                    None => {},
                }
                i = i + 1;
            }
            assert(a.take(i as int) =~= a);
            let n = all.len();
            if (n as u64) > limit {
                let start: usize = n - (limit as usize);
                let tail = all.split_off(start);
                proof {
                    assert(lines_of(tail@) =~= lines_of(all@ + tail@).subrange(
                        start as int,
                        n as int,
                    ));
                }
                assert(lines_of(tail@) =~= last_n(preview_lines(a), limit as nat));
                tail
            } else {
                all
            }
        },
    }
}

/// Per-connection bridge state.
#[derive(Debug)]
pub struct BridgeState {
    /// Session id the daemon assigned to this connection.
    pub session_id: Option<String>,
    /// What the connection keeps in flight and knows of sessions.
    ledger: Ledger,
}

/// The bookkeeping of a connection: the ids issued on the daemon side and
/// what each in-flight request waits for.
#[derive(Debug)]
struct Ledger {
    /// The last id used on the daemon connection.
    next_legacy_id: u64,
    /// Daemon id of the in-flight `message` request, so `done` maps to
    /// `turn_done`.
    pending_message_id: Option<u64>,
    /// Daemon id of the `state` chase of an in-flight create or attach, and
    /// the API id it answers.
    pending_attach_id: Option<(u64, u64)>,
    /// Daemon id of the model-catalog probe sent after attach.
    pending_model_probe: Option<u64>,
    /// Daemon id, API id and expected reply of each simple request in flight.
    pending_simple: Vec<(u64, u64, SimpleKind)>,
    /// Every session the daemon has told us about, newest snapshot wins.
    known_sessions: Vec<String>,
    /// Working directory per session, as far as it is known; each session
    /// occurs once.
    session_dirs: Vec<(String, String)>,
}

/// The content of a [`BridgeState`].
#[verifier::ext_equal]
pub struct BridgeView {
    pub session_id: Option<Seq<char>>,
    pub next_legacy_id: u64,
    pub pending_message: Option<u64>,
    pub pending_attach: Option<(u64, u64)>,
    pub pending_model_probe: Option<u64>,
    pub pending_simple: Seq<(u64, u64, SimpleKind)>,
    pub known_sessions: Seq<Seq<char>>,
    pub session_dirs: Seq<(Seq<char>, Seq<char>)>,
}

impl Ledger {
    /// The content of a bridge whose connection is attached to `session_id`.
    closed spec fn with_session(self, session_id: Option<Seq<char>>) -> BridgeView {
        BridgeView {
            session_id,
            next_legacy_id: self.next_legacy_id,
            pending_message: self.pending_message_id,
            pending_attach: self.pending_attach_id,
            pending_model_probe: self.pending_model_probe,
            pending_simple: self.pending_simple@,
            known_sessions: texts(self.known_sessions@),
            session_dirs: self.session_dirs@.map_values(|e: (String, String)| (e.0@, e.1@)),
        }
    }

    /// Every id waited on was issued, and each session has one directory.
    #[verifier::type_invariant]
    closed spec fn well_formed(self) -> bool {
        &&& (self.pending_message_id matches Some(m) ==> m <= self.next_legacy_id)
        &&& (self.pending_attach_id matches Some(p) ==> p.0 <= self.next_legacy_id)
        &&& (self.pending_model_probe matches Some(m) ==> m <= self.next_legacy_id)
        &&& (forall|i: int|
            0 <= i < self.pending_simple@.len() ==> (#[trigger] self.pending_simple@[i]).0
                <= self.next_legacy_id)
        &&& keys_distinct(self.session_dirs@.map_values(|e: (String, String)| (e.0@, e.1@)))
    }
}

impl View for BridgeState {
    type V = BridgeView;

    closed spec fn view(&self) -> BridgeView {
        self.ledger.with_session(
            match self.session_id {
                Some(s) => Some(s@),
                None => None,
            },
        )
    }
}

/// A fresh connection's state.
pub open spec fn fresh_view() -> BridgeView {
    BridgeView {
        session_id: None,
        next_legacy_id: 0,
        pending_message: None,
        pending_attach: None,
        pending_model_probe: None,
        pending_simple: Seq::empty(),
        known_sessions: Seq::empty(),
        session_dirs: Seq::empty(),
    }
}

/// The first entry of `d`, at or after `from`, for session `k`.
pub open spec fn dir_index(d: Seq<(Seq<char>, Seq<char>)>, k: Seq<char>, from: int) -> Option<int>
    decreases d.len() - from,
{
    if from < 0 || from >= d.len() {
        None
    } else if d[from].0 == k {
        Some(from)
    } else {
        dir_index(d, k, from + 1)
    }
}

/// The working directory recorded for session `k`.
pub open spec fn dir_of(d: Seq<(Seq<char>, Seq<char>)>, k: Seq<char>) -> Option<Seq<char>> {
    match dir_index(d, k, 0) {
        Some(i) => Some(d[i].1),
        None => None,
    }
}

/// `d` with the directory of session `k` set to `v`.
pub open spec fn dirs_insert(d: Seq<(Seq<char>, Seq<char>)>, k: Seq<char>, v: Seq<char>) -> Seq<
    (Seq<char>, Seq<char>),
> {
    match dir_index(d, k, 0) {
        Some(i) => d.update(i, (k, v)),
        None => d.push((k, v)),
    }
}

/// No session occurs twice in `d`.
pub open spec fn keys_distinct(d: Seq<(Seq<char>, Seq<char>)>) -> bool {
    forall|i: int, j: int| 0 <= i < j < d.len() ==> d[i].0 != d[j].0
}

/// Every daemon id the state waits on was issued already, and the directory
/// table names each session once.
pub open spec fn wf(s: BridgeView) -> bool {
    &&& (s.pending_message matches Some(m) ==> m <= s.next_legacy_id)
    &&& (s.pending_attach matches Some(p) ==> p.0 <= s.next_legacy_id)
    &&& (s.pending_model_probe matches Some(m) ==> m <= s.next_legacy_id)
    &&& (forall|i: int|
        0 <= i < s.pending_simple.len() ==> (#[trigger] s.pending_simple[i]).0 <= s.next_legacy_id)
    &&& keys_distinct(s.session_dirs)
}

/// `{"type": kind, "id": id}`, as object members.
pub open spec fn tagged(kind: Seq<char>, id: u64) -> Seq<(Seq<char>, JsonView)> {
    seq![("type"@, JsonView::Text(kind)), ("id"@, JsonView::Number(NumberView::Unsigned(id)))]
}

/// The API id of a request: `request["id"].as_u64().unwrap_or(0)`.
pub open spec fn api_id(r: JsonView) -> u64 {
    match u64_of(member(r, "id"@)) {
        Some(n) => n,
        None => 0,
    }
}

/// The members of the `subscribe` sent for a create or attach.
pub open spec fn subscribe_fields(
    id: u64,
    wd: Option<Seq<char>>,
    selfdev: bool,
    target: Option<Seq<char>>,
) -> Seq<(Seq<char>, JsonView)> {
    let base = tagged("subscribe"@, id).push(
        (
            "working_dir"@,
            match wd {
                Some(d) => JsonView::Text(d),
                None => JsonView::Null,
            },
        ),
    );
    let with_dev = if selfdev {
        base.push(("selfdev"@, JsonView::Bool(true)))
    } else {
        base
    };
    match target {
        Some(t) => with_dev.push(("target_session_id"@, JsonView::Text(t))),
        None => with_dev,
    }
}

/// The members of the daemon `message` carrying a user message.
pub open spec fn message_fields(id: u64, r: JsonView) -> Seq<(Seq<char>, JsonView)> {
    let base = tagged("message"@, id).push(("content"@, JsonView::Text(text_or_blank(r, "content"@))));
    match array_of(member(r, "images"@)) {
        Some(images) => if images.len() > 0 {
            base.push(("images"@, JsonView::Array(images)))
        } else {
            base
        },
        None => base,
    }
}

/// The sessions `list_sessions` reports: every known one, and the attached
/// one when it is not among them.
pub open spec fn listed_ids(s: BridgeView) -> Seq<Seq<char>> {
    match s.session_id {
        Some(a) => if s.known_sessions.contains(a) {
            s.known_sessions
        } else {
            s.known_sessions.push(a)
        },
        None => s.known_sessions,
    }
}

/// `d` with the directory of each of `ids` that it lacks filled in from the
/// stored records, where they name one.
pub open spec fn resolve_dirs(d: Seq<(Seq<char>, Seq<char>)>, ids: Seq<Seq<char>>, h: HostView) -> Seq<
    (Seq<char>, Seq<char>),
>
    decreases ids.len(),
{
    if ids.len() == 0 {
        d
    } else {
        let before = resolve_dirs(d, ids.drop_last(), h);
        let id = ids.last();
        if dir_of(before, id) is None && resolved_dir(h, id) is Some {
            dirs_insert(before, id, resolved_dir(h, id)->0)
        } else {
            before
        }
    }
}

/// How `list_sessions` describes session `id`.
pub open spec fn session_line(
    attached: Option<Seq<char>>,
    d: Seq<(Seq<char>, Seq<char>)>,
    h: HostView,
    id: Seq<char>,
) -> SessionView {
    SessionView {
        session_id: id,
        working_dir: dir_of(d, id),
        title: None,
        status: if attached == Some(id) {
            "attached"@
        } else {
            "idle"@
        },
        transcript_bytes: bytes_of(h, id),
    }
}

/// How `list_sessions` describes each of `ids`.
pub open spec fn session_lines(
    attached: Option<Seq<char>>,
    d: Seq<(Seq<char>, Seq<char>)>,
    h: HostView,
    ids: Seq<Seq<char>>,
) -> Seq<SessionView> {
    ids.map_values(|k: Seq<char>| session_line(attached, d, h, k))
}

/// A reply frame.
pub open spec fn reply(api: u64, e: EventView) -> FrameView {
    FrameView { reply_to: Some(api), event: e }
}

/// An unsolicited frame.
pub open spec fn unsolicited(e: EventView) -> FrameView {
    FrameView { reply_to: None, event: e }
}

/// A simple request: issue the next daemon id, wait for a reply of `kind` to
/// it, and send `fields` (whose `id` member carries it).
pub open spec fn simple_step(
    s: BridgeView,
    api: u64,
    kind: SimpleKind,
    fields: Seq<(Seq<char>, JsonView)>,
) -> (BridgeView, Seq<OutView>) {
    let id = (s.next_legacy_id + 1) as u64;
    (
        BridgeView {
            next_legacy_id: id,
            pending_simple: s.pending_simple.push((id, api, kind)),
            ..s
        },
        seq![OutView::Legacy(JsonView::Object(fields))],
    )
}

/// What one API request does: the new state, and what goes out.
pub open spec fn request_step(s: BridgeView, r: JsonView, h: HostView) -> (BridgeView, Seq<OutView>) {
    let api = api_id(r);
    let req = text_or_blank(r, "req"@);
    let n = s.next_legacy_id;
    let id = (n + 1) as u64;
    if req == "create_session"@ || req == "attach_session"@ {
        let wd = match text_of(member(r, "working_dir"@)) {
            Some(d) => Some(d),
            None => h.current_dir,
        };
        let selfdev = wd matches Some(d) && h.checkouts.contains(d);
        let target = if req == "attach_session"@ {
            text_of(member(r, "session_id"@))
        } else {
            None
        };
        (
            BridgeView {
                next_legacy_id: (n + 3) as u64,
                pending_attach: Some(((n + 2) as u64, api)),
                pending_model_probe: Some((n + 3) as u64),
                ..s
            },
            seq![
                OutView::Legacy(JsonView::Object(subscribe_fields(id, wd, selfdev, target))),
                OutView::Legacy(JsonView::Object(tagged("state"@, (n + 2) as u64))),
                OutView::Legacy(JsonView::Object(tagged("get_model_catalog"@, (n + 3) as u64))),
            ],
        )
    } else if req == "send_message"@ {
        (
            BridgeView { next_legacy_id: id, pending_message: Some(id), ..s },
            seq![OutView::Legacy(JsonView::Object(message_fields(id, r)))],
        )
    } else if req == "cancel"@ {
        simple_step(s, api, SimpleKind::Ack, tagged("cancel"@, id))
    } else if req == "soft_interrupt"@ {
        simple_step(
            s,
            api,
            SimpleKind::Ack,
            tagged("soft_interrupt"@, id).push(
                ("content"@, JsonView::Text(text_or_blank(r, "content"@))),
            ).push(
                (
                    "urgent"@,
                    JsonView::Bool(
                        match bool_of(member(r, "urgent"@)) {
                            Some(b) => b,
                            None => false,
                        },
                    ),
                ),
            ),
        )
    } else if req == "clear"@ {
        simple_step(s, api, SimpleKind::Ack, tagged("clear"@, id))
    } else if req == "rewind"@ {
        simple_step(
            s,
            api,
            SimpleKind::Ack,
            tagged("rewind"@, id).push(
                (
                    "message_index"@,
                    JsonView::Number(
                        NumberView::Unsigned(
                            match u64_of(member(r, "message_index"@)) {
                                Some(k) => k,
                                None => 1,
                            },
                        ),
                    ),
                ),
            ),
        )
    } else if req == "get_history"@ {
        simple_step(s, api, SimpleKind::History, tagged("get_history"@, id))
    } else if req == "peek_session"@ {
        let sid = text_or_blank(r, "session_id"@);
        let limit = match u64_of(member(r, "limit"@)) {
            Some(k) => k,
            None => PEEK_LIMIT,
        };
        (
            s,
            seq![
                OutView::Reply(
                    reply(
                        api,
                        EventView::History {
                            session_id: sid,
                            messages: stored_preview(record_of(h, sid), limit as nat),
                        },
                    ),
                ),
            ],
        )
    } else if req == "ping"@ {
        simple_step(s, api, SimpleKind::Ping, tagged("ping"@, id))
    } else if req == "list_sessions"@ {
        let ids = listed_ids(s);
        let dirs = resolve_dirs(s.session_dirs, ids, h);
        (
            BridgeView { session_dirs: dirs, ..s },
            seq![
                OutView::Reply(
                    reply(
                        api,
                        EventView::Sessions { sessions: session_lines(s.session_id, dirs, h, ids) },
                    ),
                ),
            ],
        )
    } else if req == "detach_session"@ {
        (s, seq![OutView::Reply(reply(api, EventView::Success))])
    } else if req == "permission_response"@ {
        (
            s,
            seq![
                OutView::Reply(
                    reply(
                        api,
                        EventView::Error {
                            code: ErrorCode::InvalidRequest,
                            message: "permission_response not yet supported by bridge"@,
                        },
                    ),
                ),
            ],
        )
    } else {
        (
            s,
            seq![
                OutView::Reply(
                    reply(
                        api,
                        EventView::Error {
                            code: ErrorCode::UnknownRequest,
                            message: "unknown request: "@ + req,
                        },
                    ),
                ),
            ],
        )
    }
}

/// Where `dir_index` lands.
pub proof fn lemma_dir_index(d: Seq<(Seq<char>, Seq<char>)>, k: Seq<char>, from: int)
    requires
        0 <= from,
    ensures
        match dir_index(d, k, from) {
            Some(i) => from <= i < d.len() && d[i].0 == k && forall|j: int|
                from <= j < i ==> #[trigger] d[j].0 != k,
            None => forall|j: int| from <= j < d.len() ==> #[trigger] d[j].0 != k,
        },
    decreases d.len() - from,
{
    if from < d.len() && d[from].0 != k {
        lemma_dir_index(d, k, from + 1);
    }
}

/// Setting a session's directory keeps each session listed once, and the
/// table then names exactly that directory for it and leaves the others.
pub proof fn lemma_dirs_insert(d: Seq<(Seq<char>, Seq<char>)>, k: Seq<char>, v: Seq<char>)
    requires
        keys_distinct(d),
    ensures
        keys_distinct(dirs_insert(d, k, v)),
        dir_of(dirs_insert(d, k, v), k) == Some(v),
        forall|o: Seq<char>| o != k ==> dir_of(#[trigger] dirs_insert(d, k, v), o) == dir_of(d, o),
{
    lemma_dir_index(d, k, 0);
    let e = dirs_insert(d, k, v);
    lemma_dir_index(e, k, 0);
    match dir_index(d, k, 0) {
        Some(i) => {
            assert(e[i].0 == k);
        },
        None => {
            assert(e[d.len() as int].0 == k);
        },
    }
    assert forall|o: Seq<char>| o != k implies dir_of(#[trigger] dirs_insert(d, k, v), o) == dir_of(
        d,
        o,
    ) by {
        lemma_dir_index(d, o, 0);
        lemma_dir_index(e, o, 0);
        match dir_index(d, o, 0) {
            Some(i) => {
                assert(e[i].0 == o);
            },
            None => {},
        }
        match dir_index(e, o, 0) {
            Some(i) => {
                assert(i < d.len());
                assert(d[i].0 == o);
            },
            None => {},
        }
    }
}

/// Object members `{"type": kind, "id": id}`.
fn tagged_members(kind: &str, id: u64) -> (v: Vec<(String, Json)>)
    ensures
        members_view(v@) == tagged(kind@, id),
{
    let mut v: Vec<(String, Json)> = Vec::new();
    v.push(text_member("type", owned(kind)));
    v.push(u64_member("id", id));
    assert(members_view(v@) =~= tagged(kind@, id));
    v
}

/// Appends a member to a list of object members.
fn push_member(v: &mut Vec<(String, Json)>, m: (String, Json))
    ensures
        members_view(final(v)@) == members_view(old(v)@).push((m.0@, m.1@)),
{
    let ghost before = v@;
    v.push(m);
    assert(members_view(v@) =~= members_view(before).push((m.0@, m.1@)));
}

/// A daemon-bound object with the given members.
fn legacy(v: Vec<(String, Json)>) -> (o: Outbound)
    ensures
        o@ == OutView::Legacy(JsonView::Object(members_view(v@))),
{
    Outbound::Legacy(object(v))
}

/// A direct reply to the API client.
fn answer(api: u64, e: ApiEvent) -> (o: Outbound)
    ensures
        o@ == OutView::Reply(reply(api, e@)),
{
    Outbound::Reply(ServerFrame::reply(api, e))
}

/// A copy of an optional string.
fn copy_opt(o: &Option<String>) -> (r: Option<String>)
    ensures
        match r {
            Some(s) => o matches Some(t) && s@ == t@,
            None => o is None,
        },
{
    match o {
        Some(s) => Some(copy(s)),
        None => None,
    }
}

impl Default for BridgeState {
    fn default() -> (s: Self)
        ensures
            s@ == fresh_view(),
    {
        BridgeState::new()
    }
}

impl BridgeState {
    /// The state of a fresh connection.
    pub fn new() -> (s: Self)
        ensures
            s@ == fresh_view(),
            wf(s@),
    {
        let ledger = Ledger {
            next_legacy_id: 0,
            pending_message_id: None,
            pending_attach_id: None,
            pending_model_probe: None,
            pending_simple: Vec::new(),
            known_sessions: Vec::new(),
            session_dirs: Vec::new(),
        };
        let s = BridgeState { session_id: None, ledger };
        assert(s@ =~= fresh_view());
        s
    }

    /// Records the session the daemon attached this connection to, or
    /// forgets it.
    pub fn set_session_id(&mut self, session_id: Option<String>)
        ensures
            final(self)@ == (BridgeView {
                session_id: match session_id {
                    Some(s) => Some(s@),
                    None => None,
                },
                ..old(self)@
            }),
    {
        self.session_id = session_id;
        proof {
            assert(self@ =~= (BridgeView {
                session_id: match session_id {
                    Some(s) => Some(s@),
                    None => None,
                },
                ..old(self)@
            }));
        }
    }

    /// Issues the next daemon id.
    fn legacy_id(&mut self) -> (id: u64)
        requires
            old(self)@.next_legacy_id < u64::MAX,
        ensures
            id == old(self)@.next_legacy_id + 1,
            final(self)@ == (BridgeView { next_legacy_id: id, ..old(self)@ }),
    {
        proof {
            use_type_invariant(&self.ledger);
        }
        self.ledger.next_legacy_id = self.ledger.next_legacy_id + 1;
        proof {
            assert(self@ =~= (BridgeView { next_legacy_id: self.ledger.next_legacy_id, ..old(self)@ }));
        }
        self.ledger.next_legacy_id
    }

    /// Sends a simple request, remembering what it waits for.
    fn simple(&mut self, api: u64, kind: SimpleKind, id: u64, v: Vec<(String, Json)>) -> (out: Vec<
        Outbound,
    >)
        requires
            id == old(self)@.next_legacy_id,
        ensures
            final(self)@ == (BridgeView {
                pending_simple: old(self)@.pending_simple.push((id, api, kind)),
                ..old(self)@
            }),
            outs_of(out@) == seq![OutView::Legacy(JsonView::Object(members_view(v@)))],
    {
        proof {
            use_type_invariant(&self.ledger);
        }
        let mut waiting = Vec::new();
        std::mem::swap(&mut waiting, &mut self.ledger.pending_simple);
        waiting.push((id, api, kind));
        assert(forall|j: int|
            0 <= j < waiting@.len() ==> (#[trigger] waiting@[j]).0 <= self.ledger.next_legacy_id);
        std::mem::swap(&mut waiting, &mut self.ledger.pending_simple);
        proof {
            assert(self@ =~= (BridgeView {
                pending_simple: old(self)@.pending_simple.push((id, api, kind)),
                ..old(self)@
            }));
        }
        let out = vec![legacy(v)];
        assert(outs_of(out@) =~= seq![OutView::Legacy(JsonView::Object(members_view(v@)))]);
        out
    }
}

/// A copy of a list of JSON values.
fn copy_items(items: &Vec<Json>) -> (r: Vec<Json>)
    ensures
        r@.len() == items@.len(),
        forall|k: int| 0 <= k < r@.len() ==> (#[trigger] r@[k])@ == items@[k]@,
{
    let mut r: Vec<Json> = Vec::new();
    let mut i: usize = 0;
    while i < items.len()
        invariant
            i <= items@.len(),
            r@.len() == i,
            forall|k: int| 0 <= k < i ==> (#[trigger] r@[k])@ == items@[k]@,
        decreases items.len() - i,
    {
        r.push(copy_json(&items[i]));
        i = i + 1;
    }
    r
}

/// Whether `v` holds the text `k`.
fn holds(v: &Vec<String>, k: &str) -> (b: bool)
    ensures
        b == texts(v@).contains(k@),
{
    let ghost t = texts(v@);
    let mut i: usize = 0;
    while i < v.len()
        invariant
            i <= v@.len(),
            t == texts(v@),
            forall|j: int| 0 <= j < i ==> t[j] != k@,
        decreases v.len() - i,
    {
        if str_eq(v[i].as_str(), k) {
            assert(t[i as int] == k@);
            return true;
        }
        i = i + 1;
    }
    false
}

impl BridgeState {
    /// Opens a session: subscribe, chase the `state` that names it, and probe
    /// the model catalog.
    fn open_session(&mut self, request: &Json, host: &Host, api: u64, attach: bool) -> (out: Vec<
        Outbound,
    >)
        requires
            old(self)@.next_legacy_id <= u64::MAX - 3,
        ensures
            ({
                let s = old(self)@;
                let r = request@;
                let h = host@;
                let n = s.next_legacy_id;
                let wd = match text_of(member(r, "working_dir"@)) {
                    Some(d) => Some(d),
                    None => h.current_dir,
                };
                let selfdev = wd matches Some(d) && h.checkouts.contains(d);
                let target = if attach {
                    text_of(member(r, "session_id"@))
                } else {
                    None
                };
                &&& final(self)@ == (BridgeView {
                    next_legacy_id: (n + 3) as u64,
                    pending_attach: Some(((n + 2) as u64, api)),
                    pending_model_probe: Some((n + 3) as u64),
                    ..s
                })
                &&& outs_of(out@) == seq![
                    OutView::Legacy(
                        JsonView::Object(subscribe_fields((n + 1) as u64, wd, selfdev, target)),
                    ),
                    OutView::Legacy(JsonView::Object(tagged("state"@, (n + 2) as u64))),
                    OutView::Legacy(JsonView::Object(tagged("get_model_catalog"@, (n + 3) as u64))),
                ]
            }),
    {
        let id = self.legacy_id();
        let state_id = self.legacy_id();
        let catalog_id = self.legacy_id();
        proof {
            use_type_invariant(&self.ledger);
        }
        self.ledger.pending_attach_id = Some((state_id, api));
        self.ledger.pending_model_probe = Some(catalog_id);
        proof {
            assert(self@ =~= (BridgeView {
                next_legacy_id: catalog_id,
                pending_attach: Some((state_id, api)),
                pending_model_probe: Some(catalog_id),
                ..old(self)@
            }));
        }
        let working_dir: Option<String> = match text_at(request, "working_dir") {
            Some(d) => Some(d),
            None => copy_opt(&host.current_dir),
        };
        let mut sub = tagged_members("subscribe", id);
        let selfdev = match &working_dir {
            Some(d) => in_checkout(host, d.as_str()),
            None => false,
        };
        let wd_json = match &working_dir {
            Some(d) => Json::Text(copy(d)),
            None => Json::Null,
        };
        push_member(&mut sub, (owned("working_dir"), wd_json));
        if selfdev {
            push_member(&mut sub, (owned("selfdev"), Json::Bool(true)));
        }
        if attach {
            match text_at(request, "session_id") {
                Some(t) => push_member(&mut sub, (owned("target_session_id"), Json::Text(t))),
                None => {},
            }
        }
        let out = vec![
            legacy(sub),
            legacy(tagged_members("state", state_id)),
            legacy(tagged_members("get_model_catalog", catalog_id)),
        ];
        proof {
            let s = old(self)@;
            let n = s.next_legacy_id;
            let wd = match text_of(member(request@, "working_dir"@)) {
                Some(d) => Some(d),
                None => host@.current_dir,
            };
            let target = if attach {
                text_of(member(request@, "session_id"@))
            } else {
                None
            };
            assert(members_view(sub@) =~= subscribe_fields(
                (n + 1) as u64,
                wd,
                wd matches Some(d) && host@.checkouts.contains(d),
                target,
            ));
            assert(outs_of(out@) =~= seq![
                OutView::Legacy(
                    JsonView::Object(
                        subscribe_fields(
                            (n + 1) as u64,
                            wd,
                            wd matches Some(d) && host@.checkouts.contains(d),
                            target,
                        ),
                    ),
                ),
                OutView::Legacy(JsonView::Object(tagged("state"@, (n + 2) as u64))),
                OutView::Legacy(JsonView::Object(tagged("get_model_catalog"@, (n + 3) as u64))),
            ]);
        }
        out
    }
}

impl BridgeState {
    /// Forwards a user message, remembering it as the turn in flight.
    fn send_message(&mut self, request: &Json) -> (out: Vec<Outbound>)
        requires
            old(self)@.next_legacy_id < u64::MAX,
        ensures
            ({
                let s = old(self)@;
                let id = (s.next_legacy_id + 1) as u64;
                &&& final(self)@ == (BridgeView {
                    next_legacy_id: id,
                    pending_message: Some(id),
                    ..s
                })
                &&& outs_of(out@) == seq![
                    OutView::Legacy(JsonView::Object(message_fields(id, request@))),
                ]
            }),
    {
        let id = self.legacy_id();
        proof {
            use_type_invariant(&self.ledger);
        }
        self.ledger.pending_message_id = Some(id);
        proof {
            assert(self@ =~= (BridgeView {
                next_legacy_id: id,
                pending_message: Some(id),
                ..old(self)@
            }));
        }
        let mut m = tagged_members("message", id);
        push_member(&mut m, text_member("content", text_or_empty(request, "content")));
        match array_at(request, "images") {
            Some(images) => {
                if images.len() > 0 {
                    let copied = copy_items(images);
                    let j = Json::Array(copied);
                    proof {
                        let a = array_of(member(request@, "images"@))->0;
                        if let JsonView::Array(b) = j@ {
                            assert(b =~= a);
                        }
                    }
                    push_member(&mut m, (owned("images"), j));
                }
            },
            None => {},
        }
        let out = vec![legacy(m)];
        assert(outs_of(out@) =~= seq![
            OutView::Legacy(JsonView::Object(message_fields(id, request@))),
        ]);
        out
    }

    /// The directory recorded for session `k`.
    fn dir_lookup(&self, k: &str) -> (r: Option<String>)
        ensures
            match r {
                Some(d) => dir_of(self@.session_dirs, k@) == Some(d@),
                None => dir_of(self@.session_dirs, k@) is None,
            },
    {
        let ghost d = self@.session_dirs;
        let mut i: usize = 0;
        while i < self.ledger.session_dirs.len()
            invariant
                i <= self.ledger.session_dirs@.len(),
                d == self@.session_dirs,
                d.len() == self.ledger.session_dirs@.len(),
                forall|j: int|
                    0 <= j < d.len() ==> #[trigger] d[j] == (
                        self.ledger.session_dirs@[j].0@,
                        self.ledger.session_dirs@[j].1@,
                    ),
                dir_index(d, k@, 0) == dir_index(d, k@, i as int),
            decreases self.ledger.session_dirs.len() - i,
        {
            if str_eq(self.ledger.session_dirs[i].0.as_str(), k) {
                return Some(copy(&self.ledger.session_dirs[i].1));
            }
            i = i + 1;
        }
        None
    }

    /// Records `v` as the directory of session `k`.
    fn set_dir(&mut self, k: String, v: String)
        ensures
            final(self)@ == (BridgeView {
                session_dirs: dirs_insert(old(self)@.session_dirs, k@, v@),
                ..old(self)@
            }),
    {
        proof {
            use_type_invariant(&self.ledger);
            assert(wf(self@));
            lemma_dirs_insert(self@.session_dirs, k@, v@);
        }
        let ghost d = self@.session_dirs;
        let mut dirs = Vec::new();
        std::mem::swap(&mut dirs, &mut self.ledger.session_dirs);
        let ghost kept = dirs@;
        let ghost emptied = *self;
        assert(emptied@ =~= (BridgeView { session_dirs: Seq::empty(), ..old(self)@ }));
        let mut i: usize = 0;
        while i < dirs.len()
            invariant
                i <= dirs@.len(),
                dirs@ == kept,
                *self == emptied,
                emptied@ == (BridgeView { session_dirs: Seq::empty(), ..old(self)@ }),
                wf(old(self)@),
                keys_distinct(dirs_insert(d, k@, v@)),
                d == old(self)@.session_dirs,
                d.len() == kept.len(),
                forall|j: int| 0 <= j < d.len() ==> #[trigger] d[j] == (kept[j].0@, kept[j].1@),
                dir_index(d, k@, 0) == dir_index(d, k@, i as int),
            decreases dirs.len() - i,
        {
            if str_eq(dirs[i].0.as_str(), k.as_str()) {
                dirs.set(i, (k, v));
                assert(dirs@.map_values(|e: (String, String)| (e.0@, e.1@)) =~= dirs_insert(
                    d,
                    k@,
                    v@,
                ));
                std::mem::swap(&mut dirs, &mut self.ledger.session_dirs);
                proof {
                    assert(self@ =~= (BridgeView {
                        session_dirs: dirs_insert(old(self)@.session_dirs, k@, v@),
                        ..old(self)@
                    }));
                }
                return;
            }
            i = i + 1;
        }
        dirs.push((k, v));
        assert(dirs@.map_values(|e: (String, String)| (e.0@, e.1@)) =~= dirs_insert(d, k@, v@));
        std::mem::swap(&mut dirs, &mut self.ledger.session_dirs);
        proof {
            assert(self@ =~= (BridgeView {
                session_dirs: dirs_insert(old(self)@.session_dirs, k@, v@),
                ..old(self)@
            }));
        }
    }
}

impl BridgeState {
    /// Answers `list_sessions` from what the daemon has reported, filling in
    /// working directories from the stored records where they are missing.
    fn list_sessions(&mut self, host: &Host, api: u64) -> (out: Vec<Outbound>)
        ensures
            ({
                let s = old(self)@;
                let ids = listed_ids(s);
                let dirs = resolve_dirs(s.session_dirs, ids, host@);
                &&& final(self)@ == (BridgeView { session_dirs: dirs, ..s })
                &&& outs_of(out@) == seq![
                    OutView::Reply(
                        reply(
                            api,
                            EventView::Sessions {
                                sessions: session_lines(s.session_id, dirs, host@, ids),
                            },
                        ),
                    ),
                ]
            }),
    {
        let ghost s = self@;
        let ids = self.listed_sessions();
        let ghost all = texts(ids@);
        assert(all == listed_ids(s));
        let mut i: usize = 0;
        while i < ids.len()
            invariant
                i <= ids@.len(),
                all == texts(ids@),
                self@ == (BridgeView {
                    session_dirs: resolve_dirs(s.session_dirs, all.take(i as int), host@),
                    ..s
                }),
            decreases ids.len() - i,
        {
            proof {
                assert(all.take(i + 1).drop_last() =~= all.take(i as int));
            }
            if self.dir_lookup(ids[i].as_str()).is_none() {
                match resolve_working_dir(host, ids[i].as_str()) {
                    Some(d) => self.set_dir(copy(&ids[i]), d),
                    None => {},
                }
            }
            i = i + 1;
        }
        assert(all.take(i as int) =~= all);
        let ghost dirs = self@.session_dirs;
        let mut sessions: Vec<SessionInfo> = Vec::new();
        let mut j: usize = 0;
        while j < ids.len()
            invariant
                j <= ids@.len(),
                all == texts(ids@),
                self@.session_dirs == dirs,
                self@.session_id == s.session_id,
                sessions_of(sessions@) == session_lines(s.session_id, dirs, host@, all.take(j as int)),
            decreases ids.len() - j,
        {
            let id = ids[j].as_str();
            let attached = match &self.session_id {
                Some(a) => str_eq(a.as_str(), id),
                None => false,
            };
            let status = if attached {
                owned("attached")
            } else {
                owned("idle")
            };
            let info = SessionInfo {
                session_id: owned(id),
                working_dir: self.dir_lookup(id),
                title: None,
                status,
                transcript_bytes: stored_bytes(host, id),
            };
            let ghost before = sessions@;
            let ghost iv = info@;
            assert(iv == session_line(s.session_id, dirs, host@, all[j as int]));
            sessions.push(info);
            proof {
                assert(sessions_of(sessions@) =~= sessions_of(before).push(iv));
                assert(session_lines(s.session_id, dirs, host@, all.take(j + 1)) =~= session_lines(
                    s.session_id,
                    dirs,
                    host@,
                    all.take(j as int),
                ).push(iv));
                assert(sessions_of(sessions@) =~= session_lines(
                    s.session_id,
                    dirs,
                    host@,
                    all.take(j + 1),
                ));
            }
            j = j + 1;
        }
        assert(all.take(j as int) =~= all);
        let out = vec![answer(api, ApiEvent::Sessions { sessions })];
        assert(outs_of(out@) =~= seq![
            OutView::Reply(
                reply(
                    api,
                    EventView::Sessions { sessions: session_lines(s.session_id, dirs, host@, all) },
                ),
            ),
        ]);
        out
    }
}

/// Answers `peek_session` from the stored record.
fn peek_session(request: &Json, host: &Host, api: u64) -> (out: Vec<Outbound>)
    ensures
        ({
            let r = request@;
            let sid = text_or_blank(r, "session_id"@);
            let limit = match u64_of(member(r, "limit"@)) {
                Some(k) => k,
                None => PEEK_LIMIT,
            };
            outs_of(out@) == seq![
                OutView::Reply(
                    reply(
                        api,
                        EventView::History {
                            session_id: sid,
                            messages: stored_preview(record_of(host@, sid), limit as nat),
                        },
                    ),
                ),
            ]
        }),
{
    let sid = text_or_empty(request, "session_id");
    let limit = match u64_at(request, "limit") {
        Some(k) => k,
        None => PEEK_LIMIT,
    };
    let record = match find_stored(host, sid.as_str()) {
        Some(st) => match &st.record {
            Some(r) => Some(r),
            None => None,
        },
        None => None,
    };
    let ghost sv = sid@;
    let messages = stored_tail(record, limit);
    let out = vec![answer(api, ApiEvent::History { session_id: sid, messages })];
    assert(outs_of(out@) =~= seq![
        OutView::Reply(
            reply(
                api,
                EventView::History {
                    session_id: sv,
                    messages: stored_preview(record_of(host@, sv), limit as nat),
                },
            ),
        ),
    ]);
    out
}

impl BridgeState {
    /// Maps one API request onto what goes to the daemon or straight
    /// back to the client.
    pub fn api_request_to_legacy(&mut self, request: &Json, host: &Host) -> (out: Vec<Outbound>)
        requires
            old(self)@.next_legacy_id <= u64::MAX - 3,
        ensures
            final(self)@ == request_step(old(self)@, request@, host@).0,
            outs_of(out@) == request_step(old(self)@, request@, host@).1,
            wf(old(self)@),
            wf(final(self)@),
    {
        let ghost s = self@;
        proof {
            use_type_invariant(&self.ledger);
        }
        let api = match u64_at(request, "id") {
            Some(n) => n,
            None => 0,
        };
        let req = text_or_empty(request, "req");
        let r = req.as_str();
        let out = if str_eq(r, "create_session") || str_eq(r, "attach_session") {
            let attach = str_eq(r, "attach_session");
            self.open_session(request, host, api, attach)
        } else if str_eq(r, "send_message") {
            self.send_message(request)
        } else if str_eq(r, "cancel") {
            let id = self.legacy_id();
            self.simple(api, SimpleKind::Ack, id, tagged_members("cancel", id))
        } else if str_eq(r, "soft_interrupt") {
            let id = self.legacy_id();
            let mut m = tagged_members("soft_interrupt", id);
            push_member(&mut m, text_member("content", text_or_empty(request, "content")));
            let urgent = match bool_at(request, "urgent") {
                Some(b) => b,
                None => false,
            };
            push_member(&mut m, (owned("urgent"), Json::Bool(urgent)));
            self.simple(api, SimpleKind::Ack, id, m)
        } else if str_eq(r, "clear") {
            let id = self.legacy_id();
            self.simple(api, SimpleKind::Ack, id, tagged_members("clear", id))
        } else if str_eq(r, "rewind") {
            let id = self.legacy_id();
            let mut m = tagged_members("rewind", id);
            let index = match u64_at(request, "message_index") {
                Some(k) => k,
                None => 1,
            };
            push_member(&mut m, u64_member("message_index", index));
            self.simple(api, SimpleKind::Ack, id, m)
        } else if str_eq(r, "get_history") {
            let id = self.legacy_id();
            self.simple(api, SimpleKind::History, id, tagged_members("get_history", id))
        } else if str_eq(r, "peek_session") {
            peek_session(request, host, api)
        } else if str_eq(r, "ping") {
            let id = self.legacy_id();
            self.simple(api, SimpleKind::Ping, id, tagged_members("ping", id))
        } else if str_eq(r, "list_sessions") {
            self.list_sessions(host, api)
        } else if str_eq(r, "detach_session") {
            let out = vec![answer(api, ApiEvent::Success)];
            assert(outs_of(out@) =~= request_step(s, request@, host@).1);
            out
        } else if str_eq(r, "permission_response") {
            let out = vec![
                answer(
                    api,
                    ApiEvent::Error {
                        code: ErrorCode::InvalidRequest,
                        message: owned("permission_response not yet supported by bridge"),
                    },
                ),
            ];
            assert(outs_of(out@) =~= request_step(s, request@, host@).1);
            out
        } else {
            let mut message = owned("unknown request: ");
            push_str(&mut message, r);
            let out = vec![
                answer(api, ApiEvent::Error { code: ErrorCode::UnknownRequest, message }),
            ];
            assert(outs_of(out@) =~= request_step(s, request@, host@).1);
            out
        };
        proof {
            use_type_invariant(&self.ledger);
        }
        out
    }
}

/// Every request keeps the state well formed.
pub proof fn lemma_request_keeps_wf(s: BridgeView, r: JsonView, h: HostView)
    requires
        wf(s),
        s.next_legacy_id <= u64::MAX - 3,
    ensures
        wf(request_step(s, r, h).0),
{
    let t = request_step(s, r, h).0;
    let ids = listed_ids(s);
    lemma_resolve_dirs_distinct(s.session_dirs, ids, h);
    assert forall|i: int| 0 <= i < t.pending_simple.len() implies (
    #[trigger] t.pending_simple[i]).0 <= t.next_legacy_id by {
        if i < s.pending_simple.len() {
            assert(t.pending_simple[i] == s.pending_simple[i] || t.pending_simple == s.pending_simple);
        }
    }
}

/// Filling in directories keeps each session listed once.
pub proof fn lemma_resolve_dirs_distinct(
    d: Seq<(Seq<char>, Seq<char>)>,
    ids: Seq<Seq<char>>,
    h: HostView,
)
    requires
        keys_distinct(d),
    ensures
        keys_distinct(resolve_dirs(d, ids, h)),
    decreases ids.len(),
{
    if ids.len() > 0 {
        lemma_resolve_dirs_distinct(d, ids.drop_last(), h);
        let before = resolve_dirs(d, ids.drop_last(), h);
        let id = ids.last();
        if dir_of(before, id) is None && resolved_dir(h, id) is Some {
            lemma_dirs_insert(before, id, resolved_dir(h, id)->0);
        }
    }
}

/// The session id streaming events carry: the attached one, or blank.
pub open spec fn current(s: BridgeView) -> Seq<char> {
    match s.session_id {
        Some(x) => x,
        None => Seq::empty(),
    }
}

/// The first simple request, at or after `from`, with daemon id `id` and
/// expected reply `kind`.
pub open spec fn simple_index(
    p: Seq<(u64, u64, SimpleKind)>,
    id: u64,
    kind: SimpleKind,
    from: int,
) -> Option<int>
    decreases p.len() - from,
{
    if from < 0 || from >= p.len() {
        None
    } else if p[from].0 == id && p[from].2 == kind {
        Some(from)
    } else {
        simple_index(p, id, kind, from + 1)
    }
}

/// The first simple request, at or after `from`, with daemon id `id`,
/// whatever it expects.
pub open spec fn waiting_index(p: Seq<(u64, u64, SimpleKind)>, id: u64, from: int) -> Option<int>
    decreases p.len() - from,
{
    if from < 0 || from >= p.len() {
        None
    } else if p[from].0 == id {
        Some(from)
    } else {
        waiting_index(p, id, from + 1)
    }
}

/// The string items of a list, in order.
pub open spec fn texts_in(vs: Seq<JsonView>) -> Seq<Seq<char>>
    decreases vs.len(),
{
    if vs.len() == 0 {
        Seq::empty()
    } else {
        let rest = texts_in(vs.drop_last());
        match text_of(vs.last()) {
            Some(t) => rest.push(t),
            None => rest,
        }
    }
}

/// The state after remembering the session set a `history` reply volunteers
/// and the working directory it names.
pub open spec fn noted(s: BridgeView, e: JsonView) -> BridgeView {
    let known = match array_of(member(e, "all_sessions"@)) {
        Some(all) => if texts_in(all).len() > 0 {
            texts_in(all)
        } else {
            s.known_sessions
        },
        None => s.known_sessions,
    };
    let dirs = match text_of(member(e, "working_dir"@)) {
        Some(d) => match text_of(member(e, "session_id"@)) {
            Some(id) => dirs_insert(s.session_dirs, id, d),
            None => s.session_dirs,
        },
        None => s.session_dirs,
    };
    BridgeView { known_sessions: known, session_dirs: dirs, ..s }
}

/// The provider and model a catalog reply or models push names.
pub open spec fn model_info(session: Seq<char>, e: JsonView) -> EventView {
    EventView::ModelInfo {
        session_id: session,
        provider: text_of(member(e, "provider_name"@)),
        model: text_of(member(e, "provider_model"@)),
    }
}

/// One message of a daemon `history` reply.
pub open spec fn history_line(m: JsonView) -> MessageLine {
    MessageLine { role: text_or_blank(m, "role"@), content: text_or_blank(m, "content"@) }
}

/// The messages of a daemon `history` reply.
pub open spec fn history_lines(e: JsonView) -> Seq<MessageLine> {
    match array_of(member(e, "messages"@)) {
        Some(ms) => ms.map_values(|m: JsonView| history_line(m)),
        None => Seq::empty(),
    }
}

/// `v.as_u64().unwrap_or(0)` for member `key`.
pub open spec fn u64_or_zero(e: JsonView, key: Seq<char>) -> u64 {
    match u64_of(member(e, key)) {
        Some(n) => n,
        None => 0,
    }
}

/// What one daemon event does: the new state, and the frames for the client.
pub open spec fn event_step(s: BridgeView, e: JsonView, h: HostView) -> (BridgeView, Seq<FrameView>) {
    let kind = text_or_blank(e, "type"@);
    let sess = current(s);
    let id = u64_or_zero(e, "id"@);
    if kind == "session"@ {
        let sid = text_or_blank(e, "session_id"@);
        (
            BridgeView { session_id: Some(sid), ..s },
            seq![unsolicited(EventView::SessionStatus { session_id: sid, status: "attached"@ })],
        )
    } else if kind == "state"@ {
        let sid = text_or_blank(e, "session_id"@);
        let s1 = if sid.len() > 0 {
            BridgeView { session_id: Some(sid), ..s }
        } else {
            s
        };
        match s.pending_attach {
            Some(p) => if p.0 == id {
                (
                    BridgeView { pending_attach: None, ..s1 },
                    seq![
                        reply(
                            p.1,
                            EventView::Attached {
                                session: SessionView {
                                    session_id: sid,
                                    working_dir: None,
                                    title: None,
                                    status: if bool_of(member(e, "is_processing"@)) == Some(true) {
                                        "processing"@
                                    } else {
                                        "idle"@
                                    },
                                    transcript_bytes: bytes_of(h, sid),
                                },
                            },
                        ),
                    ],
                )
            } else {
                (s1, Seq::empty())
            },
            None => (s1, Seq::empty()),
        }
    } else if kind == "text_delta"@ {
        (
            s,
            seq![
                unsolicited(
                    EventView::TextDelta { session_id: sess, text: text_or_blank(e, "text"@) },
                ),
            ],
        )
    } else if kind == "reasoning_delta"@ {
        (
            s,
            seq![
                unsolicited(
                    EventView::ReasoningDelta { session_id: sess, text: text_or_blank(e, "text"@) },
                ),
            ],
        )
    } else if kind == "reasoning_done"@ {
        (
            s,
            seq![
                unsolicited(
                    EventView::ReasoningDone {
                        session_id: sess,
                        duration_secs: number_of(member(e, "duration_secs"@)),
                    },
                ),
            ],
        )
    } else if kind == "tool_start"@ {
        (
            s,
            seq![
                unsolicited(
                    EventView::ToolStart {
                        session_id: sess,
                        call_id: text_or_blank(e, "id"@),
                        name: text_or_blank(e, "name"@),
                    },
                ),
            ],
        )
    } else if kind == "tool_input"@ {
        (
            s,
            seq![
                unsolicited(
                    EventView::ToolInputDelta {
                        session_id: sess,
                        call_id: Seq::empty(),
                        delta: text_or_blank(e, "delta"@),
                    },
                ),
            ],
        )
    } else if kind == "tool_exec"@ {
        (
            s,
            seq![
                unsolicited(
                    EventView::ToolExec {
                        session_id: sess,
                        call_id: text_or_blank(e, "id"@),
                        name: text_or_blank(e, "name"@),
                    },
                ),
            ],
        )
    } else if kind == "tool_done"@ {
        (
            s,
            seq![
                unsolicited(
                    EventView::ToolDone {
                        session_id: sess,
                        call_id: text_or_blank(e, "id"@),
                        name: text_or_blank(e, "name"@),
                        output: text_or_blank(e, "output"@),
                        error: text_of(member(e, "error"@)),
                    },
                ),
            ],
        )
    } else if kind == "tokens"@ {
        (
            s,
            seq![
                unsolicited(
                    EventView::TokenUsage {
                        session_id: sess,
                        input: u64_or_zero(e, "input"@),
                        output: u64_or_zero(e, "output"@),
                        cache_read_input: u64_of(member(e, "cache_read_input"@)),
                    },
                ),
            ],
        )
    } else if kind == "done"@ {
        if s.pending_message == Some(id) {
            (
                BridgeView { pending_message: None, ..s },
                seq![unsolicited(EventView::TurnDone { session_id: sess })],
            )
        } else {
            (s, Seq::empty())
        }
    } else if kind == "pong"@ {
        match simple_index(s.pending_simple, id, SimpleKind::Ping, 0) {
            Some(i) => (
                BridgeView { pending_simple: s.pending_simple.remove(i), ..s },
                seq![reply(s.pending_simple[i].1, EventView::Pong)],
            ),
            None => (s, Seq::empty()),
        }
    } else if kind == "history"@ {
        let s1 = noted(s, e);
        if s1.pending_model_probe == Some(id) {
            (
                BridgeView { pending_model_probe: None, ..s1 },
                seq![unsolicited(model_info(sess, e))],
            )
        } else {
            match simple_index(s1.pending_simple, id, SimpleKind::History, 0) {
                Some(i) => (
                    BridgeView { pending_simple: s1.pending_simple.remove(i), ..s1 },
                    seq![
                        reply(
                            s1.pending_simple[i].1,
                            EventView::History { session_id: sess, messages: history_lines(e) },
                        ),
                    ],
                ),
                None => (s1, Seq::empty()),
            }
        }
    } else if kind == "model_changed"@ {
        if text_of(member(e, "error"@)) is Some {
            (s, Seq::empty())
        } else {
            (
                s,
                seq![
                    unsolicited(
                        EventView::ModelInfo {
                            session_id: sess,
                            provider: text_of(member(e, "provider_name"@)),
                            model: text_of(member(e, "model"@)),
                        },
                    ),
                ],
            )
        }
    } else if kind == "available_models_updated"@ {
        (s, seq![unsolicited(model_info(sess, e))])
    } else if kind == "ack"@ {
        if s.pending_message == Some(id) {
            (s, seq![unsolicited(EventView::MessageAccepted { session_id: sess })])
        } else {
            match simple_index(s.pending_simple, id, SimpleKind::Ack, 0) {
                Some(i) => (
                    BridgeView { pending_simple: s.pending_simple.remove(i), ..s },
                    seq![reply(s.pending_simple[i].1, EventView::Success)],
                ),
                None => (s, Seq::empty()),
            }
        }
    } else if kind == "error"@ {
        let s1 = if s.pending_message == Some(id) {
            BridgeView { pending_message: None, ..s }
        } else {
            s
        };
        let ev = EventView::Error { code: ErrorCode::Internal, message: text_or_blank(e, "message"@) };
        match waiting_index(s1.pending_simple, id, 0) {
            Some(i) => (
                BridgeView { pending_simple: s1.pending_simple.remove(i), ..s1 },
                seq![reply(s1.pending_simple[i].1, ev)],
            ),
            None => (s1, seq![unsolicited(ev)]),
        }
    } else {
        (s, Seq::empty())
    }
}

/// The string items of a list of JSON values.
fn strings_in(items: &Vec<Json>, Ghost(a): Ghost<Seq<JsonView>>) -> (r: Vec<String>)
    requires
        a.len() == items@.len(),
        forall|k: int| 0 <= k < a.len() ==> #[trigger] a[k] == items@[k]@,
    ensures
        texts(r@) == texts_in(a),
{
    let mut r: Vec<String> = Vec::new();
    let mut i: usize = 0;
    while i < items.len()
        invariant
            i <= items@.len(),
            a.len() == items@.len(),
            forall|k: int| 0 <= k < a.len() ==> #[trigger] a[k] == items@[k]@,
            texts(r@) == texts_in(a.take(i as int)),
        decreases items.len() - i,
    {
        proof {
            assert(a.take(i + 1).drop_last() =~= a.take(i as int));
            assert(a.take(i + 1).last() == a[i as int]);
        }
        match &items[i] {
            Json::Text(t) => {
                let c = copy(t);
                let ghost before = r@;
                let ghost cv = c@;
                r.push(c);
                assert(texts(r@) =~= texts(before).push(cv));
            },
            _ => {},
        }
        i = i + 1;
    }
    assert(a.take(i as int) =~= a);
    r
}

/// The messages of a daemon `history` reply.
fn history_messages(event: &Json) -> (r: Vec<HistoryMessage>)
    ensures
        lines_of(r@) == history_lines(event@),
{
    let mut r: Vec<HistoryMessage> = Vec::new();
    match array_at(event, "messages") {
        Some(ms) => {
            let ghost a = array_of(member(event@, "messages"@))->0;
            let mut i: usize = 0;
            while i < ms.len()
                invariant
                    i <= ms@.len(),
                    a.len() == ms@.len(),
                    forall|k: int| 0 <= k < a.len() ==> #[trigger] a[k] == ms@[k]@,
                    lines_of(r@) == a.take(i as int).map_values(|m: JsonView| history_line(m)),
                decreases ms.len() - i,
            {
                let line = HistoryMessage {
                    role: text_or_empty(&ms[i], "role"),
                    content: text_or_empty(&ms[i], "content"),
                };
                let ghost before = r@;
                let ghost lv = line@;
                r.push(line);
                assert(lines_of(r@) =~= lines_of(before).push(lv));
                assert(a.take(i + 1).map_values(|m: JsonView| history_line(m)) =~= a.take(
                    i as int,
                ).map_values(|m: JsonView| history_line(m)).push(history_line(a[i as int])));
                i = i + 1;
            }
            assert(a.take(i as int) =~= a);
            r
        },
        None => {
            assert(lines_of(r@) =~= Seq::<MessageLine>::empty());
            r
        },
    }
}

/// The provider and model a catalog reply or models push names.
fn model_info_of(session: String, event: &Json) -> (e: ApiEvent)
    ensures
        e@ == model_info(session@, event@),
{
    ApiEvent::ModelInfo {
        session_id: session,
        provider: text_at(event, "provider_name"),
        model: text_at(event, "provider_model"),
    }
}

impl BridgeState {
    /// The session id streaming events carry.
    fn current_session(&self) -> (r: String)
        ensures
            r@ == current(self@),
    {
        match &self.session_id {
            Some(x) => copy(x),
            None => String::new(),
        }
    }

    /// Stops waiting for the simple request `legacy_id` of `kind`, giving
    /// back the API id it answers.
    fn take_simple(&mut self, legacy_id: u64, kind: SimpleKind) -> (r: Option<u64>)
        ensures
            match simple_index(old(self)@.pending_simple, legacy_id, kind, 0) {
                Some(i) => r == Some(old(self)@.pending_simple[i].1) && final(self)@ == (
                BridgeView { pending_simple: old(self)@.pending_simple.remove(i), ..old(self)@ }),
                None => r is None && final(self)@ == old(self)@,
            },
    {
        proof {
            use_type_invariant(&self.ledger);
            assert(wf(self@));
        }
        let ghost p = self@.pending_simple;
        let mut waiting = Vec::new();
        std::mem::swap(&mut waiting, &mut self.ledger.pending_simple);
        let ghost emptied = *self;
        assert(emptied@ =~= (BridgeView { pending_simple: Seq::empty(), ..old(self)@ }));
        let mut i: usize = 0;
        while i < waiting.len()
            invariant
                i <= p.len(),
                p == waiting@,
                p == old(self)@.pending_simple,
                *self == emptied,
                emptied@ == (BridgeView { pending_simple: Seq::empty(), ..old(self)@ }),
                wf(old(self)@),
                simple_index(p, legacy_id, kind, 0) == simple_index(p, legacy_id, kind, i as int),
            decreases waiting.len() - i,
        {
            let (id, api, k) = waiting[i];
            if id == legacy_id && k == kind {
                waiting.remove(i);
                std::mem::swap(&mut waiting, &mut self.ledger.pending_simple);
                proof {
                    assert(self@ =~= (BridgeView {
                        pending_simple: old(self)@.pending_simple.remove(i as int),
                        ..old(self)@
                    }));
                }
                return Some(api);
            }
            i = i + 1;
        }
        std::mem::swap(&mut waiting, &mut self.ledger.pending_simple);
        proof {
            assert(self@ =~= old(self)@);
        }
        None
    }

    /// Stops waiting for whichever simple request has daemon id `legacy_id`,
    /// giving back the API id it answers.
    fn take_waiting(&mut self, legacy_id: u64) -> (r: Option<u64>)
        ensures
            match waiting_index(old(self)@.pending_simple, legacy_id, 0) {
                Some(i) => r == Some(old(self)@.pending_simple[i].1) && final(self)@ == (
                BridgeView { pending_simple: old(self)@.pending_simple.remove(i), ..old(self)@ }),
                None => r is None && final(self)@ == old(self)@,
            },
    {
        proof {
            use_type_invariant(&self.ledger);
            assert(wf(self@));
        }
        let ghost p = self@.pending_simple;
        let mut waiting = Vec::new();
        std::mem::swap(&mut waiting, &mut self.ledger.pending_simple);
        let ghost emptied = *self;
        assert(emptied@ =~= (BridgeView { pending_simple: Seq::empty(), ..old(self)@ }));
        let mut i: usize = 0;
        while i < waiting.len()
            invariant
                i <= p.len(),
                p == waiting@,
                p == old(self)@.pending_simple,
                *self == emptied,
                emptied@ == (BridgeView { pending_simple: Seq::empty(), ..old(self)@ }),
                wf(old(self)@),
                waiting_index(p, legacy_id, 0) == waiting_index(p, legacy_id, i as int),
            decreases waiting.len() - i,
        {
            let (id, api, _k) = waiting[i];
            if id == legacy_id {
                waiting.remove(i);
                std::mem::swap(&mut waiting, &mut self.ledger.pending_simple);
                proof {
                    assert(self@ =~= (BridgeView {
                        pending_simple: old(self)@.pending_simple.remove(i as int),
                        ..old(self)@
                    }));
                }
                return Some(api);
            }
            i = i + 1;
        }
        std::mem::swap(&mut waiting, &mut self.ledger.pending_simple);
        proof {
            assert(self@ =~= old(self)@);
        }
        None
    }

    /// Remembers the session set and working directory a `history` reply
    /// carries.
    fn note_sessions(&mut self, event: &Json)
        ensures
            final(self)@ == noted(old(self)@, event@),
    {
        match array_at(event, "all_sessions") {
            Some(all) => {
                let ghost a = array_of(member(event@, "all_sessions"@))->0;
                let listed = strings_in(all, Ghost(a));
                if listed.len() > 0 {
                    proof {
                        use_type_invariant(&self.ledger);
                    }
                    self.ledger.known_sessions = listed;
                }
            },
            None => {},
        }
        proof {
            assert(self@ =~= (BridgeView {
                known_sessions: noted(old(self)@, event@).known_sessions,
                ..old(self)@
            }));
        }
        match text_at(event, "working_dir") {
            Some(dir) => match text_at(event, "session_id") {
                Some(id) => self.set_dir(id, dir),
                None => {},
            },
            None => {},
        }
        assert(self@ =~= noted(old(self)@, event@));
    }
}

/// One unsolicited frame.
fn push_event(e: ApiEvent) -> (out: Vec<ServerFrame>)
    ensures
        frames_of(out@) == seq![unsolicited(e@)],
{
    let out = vec![ServerFrame::event(e)];
    assert(frames_of(out@) =~= seq![unsolicited(e@)]);
    out
}

/// One reply frame.
fn push_reply(api: u64, e: ApiEvent) -> (out: Vec<ServerFrame>)
    ensures
        frames_of(out@) == seq![reply(api, e@)],
{
    let out = vec![ServerFrame::reply(api, e)];
    assert(frames_of(out@) =~= seq![reply(api, e@)]);
    out
}

/// No frames.
fn nothing() -> (out: Vec<ServerFrame>)
    ensures
        frames_of(out@) == Seq::<FrameView>::empty(),
{
    let out: Vec<ServerFrame> = Vec::new();
    assert(frames_of(out@) =~= Seq::<FrameView>::empty());
    out
}

impl BridgeState {
    /// Maps a streaming daemon event, which changes no state.
    fn stream_event(&self, event: &Json, kind: &str, Ghost(h): Ghost<HostView>) -> (out: Vec<
        ServerFrame,
    >)
        requires
            kind@ == text_or_blank(event@, "type"@),
            kind@ != "session"@,
            kind@ != "state"@,
            kind@ == "text_delta"@ || kind@ == "reasoning_delta"@ || kind@ == "reasoning_done"@
                || kind@ == "tool_start"@ || kind@ == "tool_input"@ || kind@ == "tool_exec"@
                || kind@ == "tool_done"@ || kind@ == "tokens"@,
        ensures
            frames_of(out@) == event_step(self@, event@, h).1,
    {
        let sess = self.current_session();
        if str_eq(kind, "text_delta") {
            push_event(ApiEvent::TextDelta { session_id: sess, text: text_or_empty(event, "text") })
        } else if str_eq(kind, "reasoning_delta") {
            push_event(
                ApiEvent::ReasoningDelta { session_id: sess, text: text_or_empty(event, "text") },
            )
        } else if str_eq(kind, "reasoning_done") {
            push_event(
                ApiEvent::ReasoningDone {
                    session_id: sess,
                    duration_secs: number_at(event, "duration_secs"),
                },
            )
        } else if str_eq(kind, "tool_start") {
            push_event(
                ApiEvent::ToolStart {
                    session_id: sess,
                    call_id: text_or_empty(event, "id"),
                    name: text_or_empty(event, "name"),
                },
            )
        } else if str_eq(kind, "tool_input") {
            push_event(
                ApiEvent::ToolInputDelta {
                    session_id: sess,
                    call_id: String::new(),
                    delta: text_or_empty(event, "delta"),
                },
            )
        } else if str_eq(kind, "tool_exec") {
            push_event(
                ApiEvent::ToolExec {
                    session_id: sess,
                    call_id: text_or_empty(event, "id"),
                    name: text_or_empty(event, "name"),
                },
            )
        } else if str_eq(kind, "tool_done") {
            push_event(
                ApiEvent::ToolDone {
                    session_id: sess,
                    call_id: text_or_empty(event, "id"),
                    name: text_or_empty(event, "name"),
                    output: text_or_empty(event, "output"),
                    error: text_at(event, "error"),
                },
            )
        } else {
            push_event(
                ApiEvent::TokenUsage {
                    session_id: sess,
                    input: match u64_at(event, "input") {
                        Some(n) => n,
                        None => 0,
                    },
                    output: match u64_at(event, "output") {
                        Some(n) => n,
                        None => 0,
                    },
                    cache_read_input: u64_at(event, "cache_read_input"),
                },
            )
        }
    }
}

impl BridgeState {
    /// Maps one daemon event onto frames for the API client.
    pub fn legacy_event_to_api(&mut self, event: &Json, host: &Host) -> (out: Vec<ServerFrame>)
        ensures
            final(self)@ == event_step(old(self)@, event@, host@).0,
            frames_of(out@) == event_step(old(self)@, event@, host@).1,
            wf(old(self)@),
            wf(final(self)@),
    {
        let ghost s = self@;
        proof {
            use_type_invariant(&self.ledger);
        }
        let kind_text = text_or_empty(event, "type");
        let kind = kind_text.as_str();
        let id = match u64_at(event, "id") {
            Some(n) => n,
            None => 0,
        };
        let out = if str_eq(kind, "session") {
            let sid = text_or_empty(event, "session_id");
            self.session_id = Some(copy(&sid));
            proof {
                assert(self@ =~= event_step(s, event@, host@).0);
            }
            push_event(ApiEvent::SessionStatus { session_id: sid, status: owned("attached") })
        } else if str_eq(kind, "state") {
            let sid = text_or_empty(event, "session_id");
            if !sid.as_str().is_empty() {
                self.session_id = Some(copy(&sid));
            }
            match self.ledger.pending_attach_id {
                Some((state_id, api)) => {
                    if state_id == id {
                        proof {
                            use_type_invariant(&self.ledger);
                        }
                        self.ledger.pending_attach_id = None;
                        proof {
                            assert(self@ =~= event_step(s, event@, host@).0);
                        }
                        let processing = match bool_at(event, "is_processing") {
                            Some(b) => b,
                            None => false,
                        };
                        let status = if processing {
                            owned("processing")
                        } else {
                            owned("idle")
                        };
                        let bytes = stored_bytes(host, sid.as_str());
                        push_reply(
                            api,
                            ApiEvent::Attached {
                                session: SessionInfo {
                                    session_id: sid,
                                    working_dir: None,
                                    title: None,
                                    status,
                                    transcript_bytes: bytes,
                                },
                            },
                        )
                    } else {
                        proof {
                            assert(self@ =~= event_step(s, event@, host@).0);
                        }
                        nothing()
                    }
                },
                None => {
                    proof {
                        assert(self@ =~= event_step(s, event@, host@).0);
                    }
                    nothing()
                },
            }
        } else if str_eq(kind, "text_delta") || str_eq(kind, "reasoning_delta") || str_eq(
            kind,
            "reasoning_done",
        ) || str_eq(kind, "tool_start") || str_eq(kind, "tool_input") || str_eq(kind, "tool_exec")
            || str_eq(kind, "tool_done") || str_eq(kind, "tokens") {
            self.stream_event(event, kind, Ghost(host@))
        } else if str_eq(kind, "done") {
            if self.ledger.pending_message_id == Some(id) {
                proof {
                    use_type_invariant(&self.ledger);
                }
                self.ledger.pending_message_id = None;
                proof {
                    assert(self@ =~= event_step(s, event@, host@).0);
                }
                push_event(ApiEvent::TurnDone { session_id: self.current_session() })
            } else {
                nothing()
            }
        } else if str_eq(kind, "pong") {
            match self.take_simple(id, SimpleKind::Ping) {
                Some(api) => push_reply(api, ApiEvent::Pong),
                None => nothing(),
            }
        } else if str_eq(kind, "history") {
            let sess = self.current_session();
            self.note_sessions(event);
            if self.ledger.pending_model_probe == Some(id) {
                proof {
                    use_type_invariant(&self.ledger);
                }
                self.ledger.pending_model_probe = None;
                proof {
                    assert(self@ =~= event_step(s, event@, host@).0);
                }
                push_event(model_info_of(sess, event))
            } else {
                match self.take_simple(id, SimpleKind::History) {
                    Some(api) => push_reply(
                        api,
                        ApiEvent::History { session_id: sess, messages: history_messages(event) },
                    ),
                    None => nothing(),
                }
            }
        } else if str_eq(kind, "model_changed") {
            if text_at(event, "error").is_some() {
                nothing()
            } else {
                push_event(
                    ApiEvent::ModelInfo {
                        session_id: self.current_session(),
                        provider: text_at(event, "provider_name"),
                        model: text_at(event, "model"),
                    },
                )
            }
        } else if str_eq(kind, "available_models_updated") {
            push_event(model_info_of(self.current_session(), event))
        } else if str_eq(kind, "ack") {
            if self.ledger.pending_message_id == Some(id) {
                push_event(ApiEvent::MessageAccepted { session_id: self.current_session() })
            } else {
                match self.take_simple(id, SimpleKind::Ack) {
                    Some(api) => push_reply(api, ApiEvent::Success),
                    None => nothing(),
                }
            }
        } else if str_eq(kind, "error") {
            let message = text_or_empty(event, "message");
            if self.ledger.pending_message_id == Some(id) {
                proof {
                    use_type_invariant(&self.ledger);
                }
                self.ledger.pending_message_id = None;
            }
            proof {
                assert(self@ =~= (if s.pending_message == Some(id) {
                    BridgeView { pending_message: None, ..s }
                } else {
                    s
                }));
            }
            let e = ApiEvent::Error { code: ErrorCode::Internal, message };
            match self.take_waiting(id) {
                Some(api) => push_reply(api, e),
                None => push_event(e),
            }
        } else {
            nothing()
        };
        proof {
            use_type_invariant(&self.ledger);
        }
        out
    }
}

/// Removing an entry keeps every remaining daemon id issued.
pub proof fn lemma_remove_keeps_issued(p: Seq<(u64, u64, SimpleKind)>, i: int, bound: u64)
    requires
        0 <= i < p.len(),
        forall|j: int| 0 <= j < p.len() ==> (#[trigger] p[j]).0 <= bound,
    ensures
        forall|j: int| 0 <= j < p.remove(i).len() ==> (#[trigger] p.remove(i)[j]).0 <= bound,
{
    assert forall|j: int| 0 <= j < p.remove(i).len() implies (#[trigger] p.remove(i)[j]).0
        <= bound by {
        if j < i {
            assert(p.remove(i)[j] == p[j]);
        } else {
            assert(p.remove(i)[j] == p[j + 1]);
        }
    }
}

/// Where `simple_index` and `waiting_index` land.
pub proof fn lemma_pending_index(p: Seq<(u64, u64, SimpleKind)>, id: u64, kind: SimpleKind, from: int)
    requires
        0 <= from,
    ensures
        simple_index(p, id, kind, from) matches Some(i) ==> from <= i < p.len() && p[i].0 == id
            && p[i].2 == kind,
        waiting_index(p, id, from) matches Some(i) ==> from <= i < p.len() && p[i].0 == id,
    decreases p.len() - from,
{
    if from < p.len() {
        lemma_pending_index(p, id, kind, from + 1);
    }
}

/// Every daemon event keeps the state well formed.
#[verifier::rlimit(40)]
pub proof fn lemma_event_keeps_wf(s: BridgeView, e: JsonView, h: HostView)
    requires
        wf(s),
    ensures
        wf(event_step(s, e, h).0),
{
    let id = u64_or_zero(e, "id"@);
    let n = noted(s, e);
    lemma_pending_index(s.pending_simple, id, SimpleKind::Ping, 0);
    lemma_pending_index(s.pending_simple, id, SimpleKind::Ack, 0);
    lemma_pending_index(n.pending_simple, id, SimpleKind::History, 0);
    match text_of(member(e, "working_dir"@)) {
        Some(d) => match text_of(member(e, "session_id"@)) {
            Some(k) => lemma_dirs_insert(s.session_dirs, k, d),
            None => {},
        },
        None => {},
    }
    assert(wf(n));
    match simple_index(s.pending_simple, id, SimpleKind::Ping, 0) {
        Some(i) => lemma_remove_keeps_issued(s.pending_simple, i, s.next_legacy_id),
        None => {},
    }
    match simple_index(s.pending_simple, id, SimpleKind::Ack, 0) {
        Some(i) => lemma_remove_keeps_issued(s.pending_simple, i, s.next_legacy_id),
        None => {},
    }
    match simple_index(n.pending_simple, id, SimpleKind::History, 0) {
        Some(i) => lemma_remove_keeps_issued(n.pending_simple, i, s.next_legacy_id),
        None => {},
    }
    match waiting_index(s.pending_simple, id, 0) {
        Some(i) => lemma_remove_keeps_issued(s.pending_simple, i, s.next_legacy_id),
        None => {},
    }
}

impl BridgeState {
    /// The last daemon id issued on this connection.
    pub fn last_legacy_id(&self) -> (n: u64)
        ensures
            n == self@.next_legacy_id,
    {
        self.ledger.next_legacy_id
    }

    /// The sessions a `list_sessions` would describe: every known one, and
    /// the attached one when it is not among them. The caller reads their
    /// stored records before asking.
    pub fn listed_sessions(&self) -> (ids: Vec<String>)
        ensures
            texts(ids@) == listed_ids(self@),
    {
        let ghost s = self@;
        let mut ids: Vec<String> = Vec::new();
        let mut k: usize = 0;
        while k < self.ledger.known_sessions.len()
            invariant
                k <= self.ledger.known_sessions@.len(),
                self@ == s,
                s.known_sessions == texts(self.ledger.known_sessions@),
                texts(ids@) == s.known_sessions.take(k as int),
            decreases self.ledger.known_sessions.len() - k,
        {
            let c = copy(&self.ledger.known_sessions[k]);
            let ghost before = ids@;
            let ghost cv = c@;
            assert(cv == s.known_sessions[k as int]);
            ids.push(c);
            assert(texts(ids@) =~= texts(before).push(cv));
            assert(texts(ids@) =~= s.known_sessions.take(k + 1));
            k = k + 1;
        }
        assert(s.known_sessions.take(k as int) =~= s.known_sessions);
        match &self.session_id {
            Some(a) => {
                if !holds(&ids, a.as_str()) {
                    ids.push(copy(a));
                    assert(texts(ids@) =~= s.known_sessions.push(a@));
                }
            },
            None => {},
        }
        ids
    }
}

} // verus!
