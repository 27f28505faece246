//! The transcript: typed messages, and the rules that keep the live parts of
//! a turn (the reply being streamed, the running tool call, the queue of
//! messages typed mid-turn) where the reader expects them.
//!
//! [`Message`] is the unit: who said it, and their markdown source. Streaming
//! appends to the trailing message of the same kind rather than pushing one
//! per delta, so a reply is one block however many chunks it arrived in.
use vstd::prelude::*;
use crate::edits::EditCard;
use crate::text::{
    all_ws, chars_of, copy, decimal, lemma_trim_empty_iff_all_ws, owned, push_char,
    push_decimal, push_str, trim, trim_bounds, trim_end, trim_end_seq, trim_seq,
};

verus! {

/// Who produced a message. Roles are styled, not labelled.
#[derive(Clone, Copy, Debug, PartialEq, Eq, Structural)]
pub enum Role {
    User,
    Assistant,
    /// The model's reasoning: shown, but visibly subordinate to the answer.
    Reasoning,
    /// The tool call running right now, shown as its `intent`. At most one
    /// exists, pinned under the streamed text, and it clears when the turn
    /// ends.
    Tool,
    /// A file edit the agent made. Unlike [`Role::Tool`] it stays.
    Edit,
    /// Something went wrong, placed where the user is already looking.
    Notice,
}

/// How far a user message has got towards the agent. Times are milliseconds
/// on the app's clock.
#[derive(Clone, Copy, Debug, PartialEq, Eq, Structural)]
pub enum Delivery {
    /// Typed while the agent was mid-turn: waiting in the transcript's tail.
    Queued,
    /// Handed to the connection, not yet acknowledged.
    Sent,
    /// The agent took delivery at `at`.
    Acked { at: u64 },
}

/// How much streamed reasoning the transcript keeps.
#[derive(Clone, Copy, Debug, PartialEq, Eq, Structural)]
pub enum ReasoningMode {
    /// No reasoning reaches the transcript.
    Off,
    /// Only the live thought, and only the paragraph being written.
    Current,
    /// Every thought stays as history.
    Full,
}

/// One turn of the conversation.
#[derive(Clone, Debug, PartialEq, Eq)]
pub struct Message {
    pub role: Role,
    /// Markdown source, kept raw so a streaming message can be re-parsed as it
    /// grows, and so copy yields what the model actually wrote.
    pub source: String,
    /// The tool call this message reports, when `role` is [`Role::Tool`].
    pub call_id: Option<String>,
    /// How far this message has got towards the agent, for messages this app
    /// sent. `None` for everything else.
    pub delivery: Option<Delivery>,
}

/// The content of a [`Message`].
pub struct MessageView {
    pub role: Role,
    pub source: Seq<char>,
    pub call_id: Option<Seq<char>>,
    pub delivery: Option<Delivery>,
}

impl View for Message {
    type V = MessageView;

    open spec fn view(&self) -> MessageView {
        MessageView {
            role: self.role,
            source: self.source@,
            call_id: match self.call_id {
                Some(c) => Some(c@),
                None => None,
            },
            delivery: self.delivery,
        }
    }
}

/// A message with no call id and no delivery mark.
pub open spec fn plain(role: Role, source: Seq<char>) -> MessageView {
    MessageView { role, source, call_id: None, delivery: None }
}

impl Message {
    /// A copy of this message.
    pub fn duplicate(&self) -> (m: Message)
        ensures
            m@ == self@,
    {
        Message {
            role: self.role,
            source: copy(&self.source),
            call_id: match &self.call_id {
                Some(c) => Some(copy(c)),
                None => None,
            },
            delivery: self.delivery,
        }
    }

    /// A user message replayed from history or built in a test: on the page,
    /// but not in flight, so it carries no delivery mark.
    pub fn user(source: &str) -> (m: Message)
        ensures
            m@ == plain(Role::User, source@),
    {
        Message { role: Role::User, source: owned(source), call_id: None, delivery: None }
    }

    /// A user message this app has just handed to the connection.
    pub fn sent(source: &str) -> (m: Message)
        ensures
            m@ == (MessageView { delivery: Some(Delivery::Sent), ..plain(Role::User, source@) }),
    {
        Message {
            role: Role::User,
            source: owned(source),
            call_id: None,
            delivery: Some(Delivery::Sent),
        }
    }

    /// A user message typed while the agent was mid-turn. It waits in the
    /// transcript's tail until [`Transcript::promote_oldest_queued`] sends it.
    pub fn queued(source: &str) -> (m: Message)
        ensures
            m@ == (MessageView { delivery: Some(Delivery::Queued), ..plain(Role::User, source@) }),
    {
        Message {
            role: Role::User,
            source: owned(source),
            call_id: None,
            delivery: Some(Delivery::Queued),
        }
    }

    pub fn assistant(source: &str) -> (m: Message)
        ensures
            m@ == plain(Role::Assistant, source@),
    {
        Message { role: Role::Assistant, source: owned(source), call_id: None, delivery: None }
    }

    pub fn reasoning(source: &str) -> (m: Message)
        ensures
            m@ == plain(Role::Reasoning, source@),
    {
        Message { role: Role::Reasoning, source: owned(source), call_id: None, delivery: None }
    }

    pub fn tool(call_id: &str, label: &str) -> (m: Message)
        ensures
            m@ == (MessageView { call_id: Some(call_id@), ..plain(Role::Tool, label@) }),
    {
        Message {
            role: Role::Tool,
            source: owned(label),
            call_id: Some(owned(call_id)),
            delivery: None,
        }
    }

    /// A failure, placed in the conversation where the user is already looking.
    pub fn notice(source: &str) -> (m: Message)
        ensures
            m@ == plain(Role::Notice, source@),
    {
        Message { role: Role::Notice, source: owned(source), call_id: None, delivery: None }
    }
}

/// The content of a list of messages.
pub open spec fn views(v: Seq<Message>) -> Seq<MessageView> {
    v.map_values(|m: Message| m@)
}

/// Whether `m` is waiting for its turn to be sent.
pub open spec fn is_queued(m: MessageView) -> bool {
    m.delivery == Some(Delivery::Queued)
}

/// Start of the trailing run of queued messages.
pub open spec fn queued_tail(ms: Seq<MessageView>) -> int
    decreases ms.len(),
{
    if ms.len() > 0 && is_queued(ms.last()) {
        queued_tail(ms.drop_last())
    } else {
        ms.len() as int
    }
}

/// Where streamed text goes: the end of the transcript, except that a live
/// tool card and the queued messages at the tail are skipped over.
pub open spec fn text_tail(ms: Seq<MessageView>) -> int {
    let t = queued_tail(ms);
    if t > 0 && ms[t - 1].role == Role::Tool {
        t - 1
    } else {
        t
    }
}

pub proof fn lemma_queued_tail(ms: Seq<MessageView>)
    ensures
        0 <= queued_tail(ms) <= ms.len(),
        forall|j: int| queued_tail(ms) <= j < ms.len() ==> is_queued(#[trigger] ms[j]),
        queued_tail(ms) > 0 ==> !is_queued(ms[queued_tail(ms) - 1]),
    decreases ms.len(),
{
    if ms.len() > 0 && is_queued(ms.last()) {
        let d = ms.drop_last();
        lemma_queued_tail(d);
        assert forall|j: int| queued_tail(ms) <= j < ms.len() implies is_queued(#[trigger] ms[j]) by {
            if j < d.len() {
                assert(ms[j] == d[j]);
            }
        }
        if queued_tail(d) > 0 {
            assert(ms[queued_tail(d) - 1] == d[queued_tail(d) - 1]);
        }
    }
}

/// A trailing run of queued messages that starts at `k` is the queued tail.
pub proof fn lemma_queued_tail_is(ms: Seq<MessageView>, k: int)
    requires
        0 <= k <= ms.len(),
        forall|j: int| k <= j < ms.len() ==> is_queued(#[trigger] ms[j]),
        k == 0 || !is_queued(ms[k - 1]),
    ensures
        queued_tail(ms) == k,
    decreases ms.len(),
{
    if ms.len() > k {
        let d = ms.drop_last();
        assert forall|j: int| k <= j < d.len() implies is_queued(#[trigger] d[j]) by {
            assert(d[j] == ms[j]);
        }
        if k > 0 {
            assert(d[k - 1] == ms[k - 1]);
        }
        lemma_queued_tail_is(d, k);
    }
}

/// The conversation, and how much thinking it keeps.
#[derive(Clone, Debug, PartialEq, Eq)]
pub struct Transcript {
    messages: Vec<Message>,
    reasoning: ReasoningMode,
}

impl View for Transcript {
    type V = Seq<MessageView>;

    closed spec fn view(&self) -> Seq<MessageView> {
        views(self.messages@)
    }
}

impl Default for Transcript {
    fn default() -> (t: Transcript)
        ensures
            t@ == Seq::<MessageView>::empty(),
            t.mode() == ReasoningMode::Full,
    {
        Transcript::new()
    }
}

impl Transcript {
    /// The reasoning mode in force.
    pub closed spec fn mode(&self) -> ReasoningMode {
        self.reasoning
    }

    /// An empty transcript that keeps every thought: a transcript built in a
    /// test or from replayed history is exactly the messages it was given.
    pub fn new() -> (t: Transcript)
        ensures
            t@ == Seq::<MessageView>::empty(),
            t.mode() == ReasoningMode::Full,
    {
        let t = Transcript { messages: Vec::new(), reasoning: ReasoningMode::Full };
        assert(t@ =~= Seq::<MessageView>::empty());
        t
    }

    /// A transcript holding copies of `messages`.
    pub fn from_messages(messages: &[Message]) -> (t: Transcript)
        ensures
            t@ == views(messages@),
            t.mode() == ReasoningMode::Full,
    {
        let mut v: Vec<Message> = Vec::new();
        let mut i: usize = 0;
        while i < messages.len()
            invariant
                i <= messages@.len(),
                v@.len() == i,
                views(v@) == views(messages@.take(i as int)),
            decreases messages.len() - i,
        {
            let ghost before = v@;
            let m = messages[i].duplicate();
            v.push(m);
            proof {
                assert(v@ == before.push(m));
                assert(m@ == messages@[i as int]@);
                assert forall|k: int| 0 <= k < i + 1 implies views(v@)[k] == views(
                    messages@.take(i + 1),
                )[k] by {
                    assert(views(v@)[k] == v@[k]@);
                    assert(views(messages@.take(i + 1))[k] == messages@[k]@);
                    if k < i {
                        assert(views(before)[k] == views(messages@.take(i as int))[k]);
                        assert(views(before)[k] == before[k]@);
                        assert(views(messages@.take(i as int))[k] == messages@[k]@);
                    }
                }
            }
            i = i + 1;
            assert(views(v@) =~= views(messages@.take(i as int)));
        }
        assert(messages@.take(messages@.len() as int) =~= messages@);
        Transcript { messages: v, reasoning: ReasoningMode::Full }
    }

    /// Choose what happens to streamed reasoning.
    pub fn set_reasoning_mode(&mut self, mode: ReasoningMode)
        ensures
            final(self).mode() == mode,
            final(self)@ == old(self)@,
    {
        self.reasoning = mode;
    }

    pub fn reasoning_mode(&self) -> (m: ReasoningMode)
        ensures
            m == self.mode(),
    {
        self.reasoning
    }

    /// Whether there is nothing on the page: every message is blank.
    pub fn is_empty(&self) -> (b: bool)
        ensures
            b == forall|i: int| 0 <= i < self@.len() ==> all_ws(#[trigger] self@[i].source),
    {
        let mut i: usize = 0;
        while i < self.messages.len()
            invariant
                i <= self.messages@.len(),
                self@ == views(self.messages@),
                forall|j: int| 0 <= j < i ==> all_ws(#[trigger] self@[j].source),
            decreases self.messages.len() - i,
        {
            let v = chars_of(self.messages[i].source.as_str());
            let (lo, hi) = trim_bounds(v.as_slice());
            proof {
                lemma_trim_empty_iff_all_ws(v@);
                assert(v@ == self@[i as int].source);
            }
            if lo != hi {
                return false;
            }
            i = i + 1;
        }
        true
    }

    /// The messages, in page order.
    pub fn messages(&self) -> (m: &[Message])
        ensures
            views(m@) == self@,
    {
        self.messages.as_slice()
    }

    /// Append a message as it is.
    pub fn push(&mut self, message: Message)
        ensures
            final(self)@ == old(self)@.push(message@),
            final(self).mode() == old(self).mode(),
    {
        self.messages.push(message);
        assert(self@ =~= old(self)@.push(message@));
    }

    /// Whether any message is still waiting for its turn to be sent.
    pub fn has_queued(&self) -> (b: bool)
        ensures
            b == exists|i: int| 0 <= i < self@.len() && is_queued(#[trigger] self@[i]),
    {
        let mut i: usize = 0;
        while i < self.messages.len()
            invariant
                i <= self.messages@.len(),
                self@ == views(self.messages@),
                forall|j: int| 0 <= j < i ==> !is_queued(#[trigger] self@[j]),
            decreases self.messages.len() - i,
        {
            if self.messages[i].delivery == Some(Delivery::Queued) {
                assert(is_queued(self@[i as int]));
                return true;
            }
            i = i + 1;
        }
        false
    }

    /// Every delivery mark currently on the page, in page order.
    pub fn deliveries(&self) -> (d: Vec<Delivery>)
        ensures
            d@ == marks(self@),
    {
        let mut d: Vec<Delivery> = Vec::new();
        let mut i: usize = 0;
        while i < self.messages.len()
            invariant
                i <= self.messages@.len(),
                self@ == views(self.messages@),
                d@ == marks(self@.take(i as int)),
            decreases self.messages.len() - i,
        {
            assert(self@.take(i + 1).drop_last() =~= self@.take(i as int));
            if let Some(mark) = self.messages[i].delivery {
                d.push(mark);
            }
            i = i + 1;
        }
        assert(self@.take(self@.len() as int) =~= self@);
        d
    }

    fn queued_tail_start(&self) -> (t: usize)
        ensures
            t == queued_tail(self@),
    {
        proof {
            lemma_queued_tail(self@);
        }
        let mut index = self.messages.len();
        while index > 0 && self.messages[index - 1].delivery == Some(Delivery::Queued)
            invariant
                index <= self.messages@.len(),
                self@ == views(self.messages@),
                forall|j: int| index <= j < self@.len() ==> is_queued(#[trigger] self@[j]),
            decreases index,
        {
            assert(is_queued(self@[index - 1]));
            index = index - 1;
        }
        proof {
            lemma_queued_tail_is(self@, index as int);
        }
        index
    }

    fn text_tail(&self) -> (t: usize)
        ensures
            t == text_tail(self@),
            t <= self@.len(),
    {
        let tail = self.queued_tail_start();
        proof {
            lemma_queued_tail(self@);
        }
        if tail > 0 && self.messages[tail - 1].role == Role::Tool {
            tail - 1
        } else {
            tail
        }
    }
}

impl Transcript {
    fn insert_message(&mut self, at: usize, m: Message)
        requires
            at <= old(self)@.len(),
        ensures
            final(self)@ == old(self)@.insert(at as int, m@),
            final(self).mode() == old(self).mode(),
    {
        self.messages.insert(at, m);
        assert(self@ =~= old(self)@.insert(at as int, m@));
    }

    fn remove_message(&mut self, at: usize)
        requires
            at < old(self)@.len(),
        ensures
            final(self)@ == old(self)@.remove(at as int),
            final(self).mode() == old(self).mode(),
    {
        let _ = self.messages.remove(at);
        assert(self@ =~= old(self)@.remove(at as int));
    }

    fn extend_source(&mut self, at: usize, text: &str)
        requires
            at < old(self)@.len(),
        ensures
            final(self)@ == old(self)@.update(
                at as int,
                with_source(old(self)@[at as int], old(self)@[at as int].source + text@),
            ),
            final(self).mode() == old(self).mode(),
    {
        let m = &mut self.messages[at];
        push_str(&mut m.source, text);
        assert(self@ =~= old(self)@.update(
            at as int,
            with_source(old(self)@[at as int], old(self)@[at as int].source + text@),
        ));
    }
}

impl Transcript {
    fn live_reasoning_index(&self) -> (r: Option<usize>)
        ensures
            match r {
                Some(i) => live_reasoning(self@) == Some(i as int),
                None => live_reasoning(self@) is None,
            },
            r matches Some(i) ==> i < self@.len(),
    {
        let t = self.text_tail();
        if t > 0 && self.messages[t - 1].role == Role::Reasoning {
            Some(t - 1)
        } else {
            None
        }
    }

    /// Drop the live thought once it has been superseded, in `current` mode.
    fn retire_live_reasoning(&mut self)
        ensures
            final(self)@ == retired(old(self)@, old(self).mode()),
            final(self).mode() == old(self).mode(),
    {
        if self.reasoning != ReasoningMode::Current {
            return;
        }
        if let Some(live) = self.live_reasoning_index() {
            self.remove_message(live);
        }
    }

    /// Append streamed text as `role` at the text tail.
    fn append_as(&mut self, role: Role, text: &str)
        ensures
            final(self)@ == appended(old(self)@, role, text@),
            final(self).mode() == old(self).mode(),
    {
        let at = self.text_tail();
        if at > 0 && self.messages[at - 1].role == role {
            self.extend_source(at - 1, text);
        } else {
            let m = Message { role, source: owned(text), call_id: None, delivery: None };
            self.insert_message(at, m);
        }
    }

    /// Append streamed assistant text, continuing the current reply when there
    /// is one. Text lands *above* a live tool card and the queue; in `current`
    /// mode the live thought leaves the page here, superseded by the answer.
    pub fn append_assistant(&mut self, text: &str)
        ensures
            final(self)@ == after_assistant(old(self)@, old(self).mode(), text@),
            final(self).mode() == old(self).mode(),
    {
        self.retire_live_reasoning();
        self.append_as(Role::Assistant, text);
    }

    /// Append streamed reasoning, continuing the current thought. In `off`
    /// mode nothing lands; in `current` mode only the paragraph being written
    /// right now is kept.
    pub fn append_reasoning(&mut self, text: &str)
        ensures
            final(self)@ == after_reasoning(old(self)@, old(self).mode(), text@),
            final(self).mode() == old(self).mode(),
    {
        if self.reasoning == ReasoningMode::Off {
            return;
        }
        self.append_as(Role::Reasoning, text);
        if self.reasoning == ReasoningMode::Current {
            self.trim_live_reasoning_to_current_paragraph();
        }
    }

    /// Keep only the paragraph the model is writing now: the text after the
    /// live thought's last blank line.
    fn trim_live_reasoning_to_current_paragraph(&mut self)
        ensures
            final(self)@ == current_paragraph(old(self)@),
            final(self).mode() == old(self).mode(),
    {
        let live = match self.live_reasoning_index() {
            Some(live) => live,
            None => return ,
        };
        assert(self@.len() == self.messages@.len());
        let v = chars_of(self.messages[live].source.as_str());
        let mut nn: Vec<char> = Vec::new();
        nn.push('\n');
        nn.push('\n');
        assert(nn@ =~= blank_line());
        if let Some(b) = crate::text::rfind(v.as_slice(), nn.as_slice()) {
            proof {
                crate::text::lemma_rfind_upto_props(v@, nn@, v@.len() - 2);
                assert(b + 2 <= v.len());
            }
            let k = crate::text::leading_ws_count(&v[b + 2..v.len()]);
            proof {
                crate::text::lemma_leading_ws_bound(v@.skip(b + 2));
                assert(v@.subrange(b + 2, v@.len() as int) =~= v@.skip(b + 2));
            }
            let tail = crate::text::string_from(v.as_slice(), b + 2 + k, v.len());
            let m = &mut self.messages[live];
            m.source = tail;
            proof {
                assert(tail@ =~= crate::text::trim_start_seq(v@.skip(b + 2)));
                assert(self@ =~= current_paragraph(old(self)@));
            }
        }
    }

    /// Show the current tool call as the single live tool card.
    ///
    /// The card is a slot, not a log entry: the card under the streamed text
    /// is refined in place, whichever call it belongs to now, and otherwise
    /// one card opens there. A blank label changes nothing. In `current` mode
    /// a call opening ends the live thought.
    pub fn set_live_tool(&mut self, call_id: &str, label: &str)
        ensures
            final(self)@ == after_live_tool(old(self)@, old(self).mode(), call_id@, label@),
            final(self).mode() == old(self).mode(),
    {
        let label = trim(label);
        if label.as_str().is_empty() {
            return;
        }
        self.retire_live_reasoning();
        let ghost r = self@;
        let slot = self.text_tail();
        if slot < self.messages.len() && self.messages[slot].role == Role::Tool {
            let m = &mut self.messages[slot];
            m.call_id = Some(owned(call_id));
            m.source = label;
            proof {
                assert(self@ =~= r.update(
                    slot as int,
                    MessageView { call_id: Some(call_id@), source: label@, ..r[slot as int] },
                ));
            }
            return;
        }
        self.clear_live_tool();
        let at = self.text_tail();
        let card = Message {
            role: Role::Tool,
            source: label,
            call_id: Some(owned(call_id)),
            delivery: None,
        };
        self.insert_message(at, card);
    }

    /// Remove every tool card. Called when the turn ends: a card left behind
    /// would claim work is still happening after it stopped.
    pub fn clear_live_tool(&mut self)
        ensures
            final(self)@ == without_tools(old(self)@),
            final(self).mode() == old(self).mode(),
    {
        let ghost orig = old(self)@;
        let mut j: usize = 0;
        let ghost mut k: int = 0;
        while j < self.messages.len()
            invariant
                0 <= k <= orig.len(),
                self.mode() == old(self).mode(),
                self@ == without_tools(orig.take(k)) + orig.skip(k),
                j == without_tools(orig.take(k)).len(),
            decreases self.messages.len() - j,
        {
            proof {
                assert(self@[j as int] == orig[k]);
                assert(orig.take(k + 1).drop_last() =~= orig.take(k));
                assert(orig.take(k + 1).last() == orig[k]);
            }
            if self.messages[j].role == Role::Tool {
                self.remove_message(j);
                proof {
                    assert(self@ =~= without_tools(orig.take(k + 1)) + orig.skip(k + 1));
                }
            } else {
                proof {
                    assert(self@ =~= without_tools(orig.take(k + 1)) + orig.skip(k + 1));
                }
                j = j + 1;
            }
            proof {
                k = k + 1;
            }
        }
        proof {
            assert(orig.take(k) =~= orig);
            assert(self@ =~= without_tools(orig));
        }
    }
}

/// A code fence line.
pub open spec fn fence() -> Seq<char> {
    seq!['`', '`', '`']
}

/// A file name set as inline code.
pub open spec fn backticked(f: Seq<char>) -> Seq<char> {
    seq!['`'] + f + seq!['`']
}

/// The intent that heads an edit card, with the blank line after it, or
/// nothing when the model wrote none (or only white space).
pub open spec fn intent_line(intent: Option<Seq<char>>) -> Seq<char> {
    if let Some(i) = intent {
        if trim_seq(i).len() > 0 {
            trim_seq(i) + blank_line()
        } else {
            seq![]
        }
    } else {
        seq![]
    }
}

/// Markdown for an edit card: why, where and how much, then the diff in a
/// code fence.
pub open spec fn edit_source_of(card: crate::edits::EditCardView) -> Seq<char> {
    intent_line(card.intent) + joined(card.files.map_values(|f: Seq<char>| backticked(f)), seq![' '])
        + seq![' ', '+'] + decimal(card.added) + seq![' ', '-'] + decimal(card.removed) + seq!['\n']
        + fence() + seq!['\n'] + trim_end_seq(card.diff) + seq!['\n'] + fence() + seq!['\n']
}

/// Markdown for an edit card: what changed and why, then the diff itself.
fn edit_source(card: &EditCard) -> (source: String)
    ensures
        source@ == edit_source_of(card@),
{
    let mut source = String::new();
    let ghost c = card@;
    if let Some(intent) = &card.intent {
        let t = trim(intent.as_str());
        if !t.as_str().is_empty() {
            push_str(&mut source, t.as_str());
            push_char(&mut source, '\n');
            push_char(&mut source, '\n');
        }
    }
    assert(source@ =~= intent_line(c.intent));
    let ghost head = source@;
    let ghost parts = c.files.map_values(|f: Seq<char>| backticked(f));
    let mut i: usize = 0;
    while i < card.files.len()
        invariant
            i <= card.files@.len(),
            c == card@,
            parts == c.files.map_values(|f: Seq<char>| backticked(f)),
            parts.len() == card.files@.len(),
            source@ == head + joined(parts.take(i as int), seq![' ']),
        decreases card.files.len() - i,
    {
        let ghost before = source@;
        if i > 0 {
            push_char(&mut source, ' ');
        }
        push_char(&mut source, '`');
        push_str(&mut source, card.files[i].as_str());
        push_char(&mut source, '`');
        proof {
            assert(parts[i as int] == backticked(card.files@[i as int]@));
            assert(parts.take(i + 1).drop_last() =~= parts.take(i as int));
            if i == 0 {
                assert(source@ =~= head + parts[0]);
            } else {
                assert(source@ =~= before + seq![' '] + parts[i as int]);
            }
        }
        i = i + 1;
    }
    assert(parts.take(parts.len() as int) =~= parts);
    push_char(&mut source, ' ');
    push_char(&mut source, '+');
    push_decimal(&mut source, card.added as u64);
    push_char(&mut source, ' ');
    push_char(&mut source, '-');
    push_decimal(&mut source, card.removed as u64);
    push_char(&mut source, '\n');
    push_str(&mut source, "```\n");
    let body = trim_end(card.diff.as_str());
    push_str(&mut source, body.as_str());
    push_str(&mut source, "\n```\n");
    proof {
        reveal_strlit("```\n");
        reveal_strlit("\n```\n");
        assert(source@ =~= edit_source_of(c));
    }
    source
}

impl Message {
    /// An edit card, rendered from a finished edit tool call.
    pub fn edit(card: &EditCard) -> (m: Message)
        ensures
            m@ == plain(Role::Edit, edit_source_of(card@)),
    {
        Message { role: Role::Edit, source: edit_source(card), call_id: None, delivery: None }
    }
}

impl Transcript {
    /// Record a completed edit in the conversation, above the live tool card
    /// like streamed text. It is never cleared: it records a change to the
    /// user's files.
    pub fn push_edit(&mut self, card: &EditCard)
        ensures
            final(self)@ == old(self)@.insert(
                text_tail(old(self)@),
                plain(Role::Edit, edit_source_of(card@)),
            ),
            final(self).mode() == old(self).mode(),
    {
        let at = self.text_tail();
        self.insert_message(at, Message::edit(card));
    }

    /// Record a failure in the conversation, above the queue. Repeats are
    /// collapsed, and the live tool card goes with it: a call that errored is
    /// not still running.
    pub fn push_notice(&mut self, text: &str)
        ensures
            final(self)@ == after_notice(old(self)@, text@),
            final(self).mode() == old(self).mode(),
    {
        let text = trim(text);
        if text.as_str().is_empty() {
            return;
        }
        self.clear_live_tool();
        let at = self.queued_tail_start();
        proof {
            lemma_queued_tail(self@);
        }
        if at > 0 && self.messages[at - 1].role == Role::Notice && self.messages[at - 1].source
            == text {
            return;
        }
        let m = Message { role: Role::Notice, source: text, call_id: None, delivery: None };
        self.insert_message(at, m);
    }

    /// Plain-text rendering, for tests and for copying the conversation:
    /// every message trimmed, with a blank line between them.
    pub fn plain_text(&self) -> (s: String)
        ensures
            s@ == plain_text_of(self@),
    {
        let ghost parts = self@.map_values(|m: MessageView| trim_seq(m.source));
        let mut s = String::new();
        let mut i: usize = 0;
        while i < self.messages.len()
            invariant
                i <= self.messages@.len(),
                self@ == views(self.messages@),
                parts == self@.map_values(|m: MessageView| trim_seq(m.source)),
                parts.len() == self.messages@.len(),
                s@ == joined(parts.take(i as int), blank_line()),
            decreases self.messages.len() - i,
        {
            let ghost before = s@;
            if i > 0 {
                push_char(&mut s, '\n');
                push_char(&mut s, '\n');
            }
            let t = trim(self.messages[i].source.as_str());
            push_str(&mut s, t.as_str());
            proof {
                assert(parts[i as int] == t@);
                assert(parts.take(i + 1).drop_last() =~= parts.take(i as int));
                if i == 0 {
                    assert(s@ =~= parts[0]);
                } else {
                    assert(s@ =~= before + blank_line() + parts[i as int]);
                }
            }
            i = i + 1;
        }
        assert(parts.take(parts.len() as int) =~= parts);
        s
    }

    /// Characters in the trailing reply, which is the message the streaming
    /// reveal animates. Zero when the last turn is the user's or a notice.
    pub fn streaming_len(&self) -> (n: usize)
        ensures
            n == streaming(self@),
    {
        let t = self.text_tail();
        assert(self@.len() == self.messages@.len());
        if t > 0 && self.messages[t - 1].role != Role::User && self.messages[t - 1].role
            != Role::Notice {
            chars_of(self.messages[t - 1].source.as_str()).len()
        } else {
            0
        }
    }

    /// Mark the oldest message still awaiting its acknowledgement as
    /// acknowledged at `at`. Returns whether anything changed: an ack for a
    /// message this window did not send changes nothing.
    pub fn acknowledge_oldest_pending(&mut self, at: u64) -> (changed: bool)
        ensures
            match first_marked(old(self)@, Delivery::Sent, 0) {
                Some(i) => changed && final(self)@ == remarked(old(self)@, i, Delivery::Acked { at }),
                None => !changed && final(self)@ == old(self)@,
            },
            final(self).mode() == old(self).mode(),
    {
        match self.first_with(Delivery::Sent) {
            Some(i) => {
                let m = &mut self.messages[i];
                m.delivery = Some(Delivery::Acked { at });
                assert(self@ =~= remarked(old(self)@, i as int, Delivery::Acked { at }));
                true
            },
            None => false,
        }
    }

    /// Promote the oldest queued message to `Sent` and return its text for
    /// the connection, or `None` when nothing is waiting. One at a time,
    /// because the daemon takes one message per turn; the promoted message
    /// keeps its place on the page.
    pub fn promote_oldest_queued(&mut self) -> (r: Option<String>)
        ensures
            match first_marked(old(self)@, Delivery::Queued, 0) {
                Some(i) => r matches Some(s) && s@ == old(self)@[i].source && final(self)@
                    == remarked(old(self)@, i, Delivery::Sent),
                None => r is None && final(self)@ == old(self)@,
            },
            final(self)@ == promoted(old(self)@, 1),
            r matches Some(s) ==> promotion(old(self)@, 0) == Some(s@),
            r is None ==> promotion(old(self)@, 0) is None,
            final(self).mode() == old(self).mode(),
    {
        proof {
            reveal_with_fuel(promoted, 2);
        }
        match self.first_with(Delivery::Queued) {
            Some(i) => {
                let m = &mut self.messages[i];
                m.delivery = Some(Delivery::Sent);
                let text = copy(&m.source);
                assert(self@ =~= remarked(old(self)@, i as int, Delivery::Sent));
                Some(text)
            },
            None => None,
        }
    }

    fn first_with(&self, d: Delivery) -> (r: Option<usize>)
        ensures
            match r {
                Some(i) => first_marked(self@, d, 0) == Some(i as int) && i < self@.len(),
                None => first_marked(self@, d, 0) is None,
            },
    {
        let mut i: usize = 0;
        while i < self.messages.len()
            invariant
                i <= self.messages@.len(),
                self@ == views(self.messages@),
                first_marked(self@, d, 0) == first_marked(self@, d, i as int),
            decreases self.messages.len() - i,
        {
            if self.messages[i].delivery == Some(d) {
                return Some(i);
            }
            i = i + 1;
        }
        None
    }
}

/// The delivery marks of `ms`, in order.
pub open spec fn marks(ms: Seq<MessageView>) -> Seq<Delivery>
    decreases ms.len(),
{
    if ms.len() == 0 {
        seq![]
    } else {
        match ms.last().delivery {
            Some(d) => marks(ms.drop_last()).push(d),
            None => marks(ms.drop_last()),
        }
    }
}

/// `m` with its source replaced.
pub open spec fn with_source(m: MessageView, source: Seq<char>) -> MessageView {
    MessageView { source, ..m }
}

/// The live thought: the reasoning message just above the text tail.
pub open spec fn live_reasoning(ms: Seq<MessageView>) -> Option<int> {
    let t = text_tail(ms);
    if t > 0 && ms[t - 1].role == Role::Reasoning {
        Some(t - 1)
    } else {
        None
    }
}

/// `ms` with the live thought dropped, in `current` mode.
pub open spec fn retired(ms: Seq<MessageView>, mode: ReasoningMode) -> Seq<MessageView> {
    if mode == ReasoningMode::Current {
        match live_reasoning(ms) {
            Some(i) => ms.remove(i),
            None => ms,
        }
    } else {
        ms
    }
}

/// `text` streamed in as `role`: continuing the message of that role just
/// above the text tail, or opening a new one there.
pub open spec fn appended(ms: Seq<MessageView>, role: Role, text: Seq<char>) -> Seq<MessageView> {
    let at = text_tail(ms);
    if at > 0 && ms[at - 1].role == role {
        ms.update(at - 1, with_source(ms[at - 1], ms[at - 1].source + text))
    } else {
        ms.insert(at, plain(role, text))
    }
}

/// The transcript after streamed assistant text.
pub open spec fn after_assistant(ms: Seq<MessageView>, mode: ReasoningMode, text: Seq<char>) -> Seq<
    MessageView,
> {
    appended(retired(ms, mode), Role::Assistant, text)
}

/// A paragraph break.
pub open spec fn blank_line() -> Seq<char> {
    seq!['\n', '\n']
}

/// The live thought cut down to the paragraph after its last blank line.
pub open spec fn current_paragraph(ms: Seq<MessageView>) -> Seq<MessageView> {
    match live_reasoning(ms) {
        Some(i) => {
            let src = ms[i].source;
            match crate::text::rfind_upto(src, blank_line(), src.len() - 2) {
                Some(b) => ms.update(
                    i,
                    with_source(ms[i], crate::text::trim_start_seq(src.skip(b + 2))),
                ),
                None => ms,
            }
        },
        None => ms,
    }
}

/// The transcript after streamed reasoning.
pub open spec fn after_reasoning(ms: Seq<MessageView>, mode: ReasoningMode, text: Seq<char>) -> Seq<
    MessageView,
> {
    if mode == ReasoningMode::Off {
        ms
    } else if mode == ReasoningMode::Current {
        current_paragraph(appended(ms, Role::Reasoning, text))
    } else {
        appended(ms, Role::Reasoning, text)
    }
}

/// `ms` without its tool messages, the rest in order.
pub open spec fn without_tools(ms: Seq<MessageView>) -> Seq<MessageView>
    decreases ms.len(),
{
    if ms.len() == 0 {
        ms
    } else if ms.last().role == Role::Tool {
        without_tools(ms.drop_last())
    } else {
        without_tools(ms.drop_last()).push(ms.last())
    }
}

/// A tool card.
pub open spec fn tool_card(call_id: Seq<char>, label: Seq<char>) -> MessageView {
    MessageView { call_id: Some(call_id), ..plain(Role::Tool, label) }
}

/// The transcript after a tool call announces (or refines) its label: the
/// card under the text is refined in place, or else every stray card goes and
/// one opens under the text.
pub open spec fn after_live_tool(
    ms: Seq<MessageView>,
    mode: ReasoningMode,
    call_id: Seq<char>,
    label: Seq<char>,
) -> Seq<MessageView> {
    let l = trim_seq(label);
    if l.len() == 0 {
        ms
    } else {
        let r = retired(ms, mode);
        let slot = text_tail(r);
        if slot < r.len() && r[slot].role == Role::Tool {
            r.update(slot, MessageView { call_id: Some(call_id), source: l, ..r[slot] })
        } else {
            let c = without_tools(r);
            c.insert(text_tail(c), tool_card(call_id, l))
        }
    }
}

/// The transcript after a failure is recorded: the tool cards go, and the
/// notice lands above the queue unless it repeats the notice already there.
pub open spec fn after_notice(ms: Seq<MessageView>, text: Seq<char>) -> Seq<MessageView> {
    let t = trim_seq(text);
    if t.len() == 0 {
        ms
    } else {
        let c = without_tools(ms);
        let at = queued_tail(c);
        if at > 0 && c[at - 1].role == Role::Notice && c[at - 1].source == t {
            c
        } else {
            c.insert(at, plain(Role::Notice, t))
        }
    }
}

/// The characters of the reply the streaming reveal animates: the message
/// just above the text tail, unless it is the user's or a notice.
pub open spec fn streaming(ms: Seq<MessageView>) -> nat {
    let t = text_tail(ms);
    if t > 0 && ms[t - 1].role != Role::User && ms[t - 1].role != Role::Notice {
        ms[t - 1].source.len()
    } else {
        0
    }
}

/// `parts` joined with `sep` between them.
pub open spec fn joined(parts: Seq<Seq<char>>, sep: Seq<char>) -> Seq<char>
    decreases parts.len(),
{
    if parts.len() == 0 {
        seq![]
    } else if parts.len() == 1 {
        parts[0]
    } else {
        joined(parts.drop_last(), sep) + sep + parts.last()
    }
}

/// The conversation as plain text: every message trimmed, a blank line
/// between them.
pub open spec fn plain_text_of(ms: Seq<MessageView>) -> Seq<char> {
    joined(ms.map_values(|m: MessageView| trim_seq(m.source)), blank_line())
}

/// The first message carrying delivery mark `d`.
pub open spec fn first_marked(ms: Seq<MessageView>, d: Delivery, from: int) -> Option<int>
    decreases ms.len() - from,
{
    if from < 0 || from >= ms.len() {
        None
    } else if ms[from].delivery == Some(d) {
        Some(from)
    } else {
        first_marked(ms, d, from + 1)
    }
}

/// `ms` with the message at `i` re-marked `d`.
pub open spec fn remarked(ms: Seq<MessageView>, i: int, d: Delivery) -> Seq<MessageView> {
    ms.update(i, MessageView { delivery: Some(d), ..ms[i] })
}

/// `ms` after `n` successive promotions of its oldest queued message.
pub open spec fn promoted(ms: Seq<MessageView>, n: nat) -> Seq<MessageView>
    decreases n,
{
    if n == 0 {
        ms
    } else {
        let p = promoted(ms, (n - 1) as nat);
        match first_marked(p, Delivery::Queued, 0) {
            Some(i) => remarked(p, i, Delivery::Sent),
            None => p,
        }
    }
}

/// What the promotion after `n` earlier ones hands to the connection.
pub open spec fn promotion(ms: Seq<MessageView>, n: nat) -> Option<Seq<char>> {
    let p = promoted(ms, n);
    match first_marked(p, Delivery::Queued, 0) {
        Some(i) => Some(p[i].source),
        None => None,
    }
}

/// The positions of the queued messages at or after `from`, top to bottom.
pub open spec fn queued_from(ms: Seq<MessageView>, from: int) -> Seq<int>
    decreases ms.len() - from,
{
    if from < 0 || from >= ms.len() {
        Seq::empty()
    } else if is_queued(ms[from]) {
        seq![from] + queued_from(ms, from + 1)
    } else {
        queued_from(ms, from + 1)
    }
}

} // verus!
