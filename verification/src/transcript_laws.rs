//! What every transcript operation keeps, and what repeated calls amount to.
use vstd::prelude::*;
use crate::transcript::{
    after_assistant, after_live_tool, after_notice, after_reasoning, appended, is_queued,
    lemma_queued_tail, lemma_queued_tail_is, live_reasoning, plain, queued_tail, retired,
    text_tail, with_source, without_tools, MessageView, ReasoningMode, Role,
};
use crate::text::{contains_seq, lemma_rfind_upto_props, occurs_at, rfind_upto, trim_seq};
use crate::transcript::{blank_line, current_paragraph, streaming, first_marked, remarked, Delivery};
use crate::transcript::{promoted, promotion, queued_from};
use crate::transcript::{backticked, edit_source_of, intent_line, joined};
use crate::edits::EditCardView;
use crate::text::{decimal, trim_end_seq};

verus! {

/// Queued messages only ever sit in the trailing run at the end.
pub open spec fn queue_trails(ms: Seq<MessageView>) -> bool {
    forall|i: int| 0 <= i < queued_tail(ms) ==> !is_queued(#[trigger] ms[i])
}

/// Tool cards carry no delivery mark.
pub open spec fn tools_unmarked(ms: Seq<MessageView>) -> bool {
    forall|i: int| 0 <= i < ms.len() && (#[trigger] ms[i]).role == Role::Tool ==> ms[i].delivery is None
}

/// At most one tool card exists.
pub open spec fn single_tool(ms: Seq<MessageView>) -> bool {
    forall|i: int, j: int|
        0 <= i < ms.len() && 0 <= j < ms.len() && (#[trigger] ms[i]).role == Role::Tool && (
        #[trigger] ms[j]).role == Role::Tool ==> i == j
}

/// No tool card exists.
pub open spec fn no_tools(ms: Seq<MessageView>) -> bool {
    forall|i: int| 0 <= i < ms.len() ==> (#[trigger] ms[i]).role != Role::Tool
}

/// Updating a message without changing whether it is queued leaves the
/// queued tail where it was.
pub proof fn lemma_qt_update(ms: Seq<MessageView>, i: int, m: MessageView)
    requires
        0 <= i < ms.len(),
        is_queued(m) == is_queued(ms[i]),
    ensures
        queued_tail(ms.update(i, m)) == queued_tail(ms),
{
    lemma_queued_tail(ms);
    let q = queued_tail(ms);
    let u = ms.update(i, m);
    assert forall|j: int| q <= j < u.len() implies is_queued(#[trigger] u[j]) by {
        assert(is_queued(ms[j]));
    }
    lemma_queued_tail_is(u, q);
}

/// Inserting an unqueued message at or above the queue moves the queue down
/// by one.
pub proof fn lemma_qt_insert(ms: Seq<MessageView>, i: int, m: MessageView)
    requires
        0 <= i <= queued_tail(ms),
        !is_queued(m),
    ensures
        queued_tail(ms.insert(i, m)) == queued_tail(ms) + 1,
{
    lemma_queued_tail(ms);
    let q = queued_tail(ms);
    let u = ms.insert(i, m);
    assert forall|j: int| q + 1 <= j < u.len() implies is_queued(#[trigger] u[j]) by {
        assert(u[j] == ms[j - 1]);
    }
    if i < q {
        assert(u[q] == ms[q - 1]);
    }
    lemma_queued_tail_is(u, q + 1);
}

/// Removing a message above the queue, from a transcript whose queue
/// trails, moves the queue up by one.
pub proof fn lemma_qt_remove(ms: Seq<MessageView>, i: int)
    requires
        0 <= i < queued_tail(ms),
        queue_trails(ms),
    ensures
        queued_tail(ms.remove(i)) == queued_tail(ms) - 1,
{
    lemma_queued_tail(ms);
    let q = queued_tail(ms);
    let u = ms.remove(i);
    assert forall|j: int| q - 1 <= j < u.len() implies is_queued(#[trigger] u[j]) by {
        assert(u[j] == ms[j + 1]);
    }
    if q - 1 > 0 {
        if i < q - 1 {
            assert(u[q - 2] == ms[q - 1]);
        } else {
            assert(u[q - 2] == ms[q - 2]);
            assert(!is_queued(ms[q - 2]));
        }
    }
    lemma_queued_tail_is(u, q - 1);
}

/// Inserting a plain message at the text tail puts it just above the new
/// text tail.
pub proof fn lemma_tt_insert(ms: Seq<MessageView>, m: MessageView)
    requires
        m.role != Role::Tool,
        !is_queued(m),
    ensures
        text_tail(ms.insert(text_tail(ms), m)) == text_tail(ms) + 1,
{
    lemma_queued_tail(ms);
    let t = text_tail(ms);
    let u = ms.insert(t, m);
    lemma_qt_insert(ms, t, m);
    let q = queued_tail(ms);
    if t < q {
        assert(u[q] == ms[q - 1]);
    } else {
        assert(u[q] == m);
    }
}

/// Updating the message just above the text tail, keeping its role and
/// delivery mark, leaves the text tail where it was.
pub proof fn lemma_tt_update(ms: Seq<MessageView>, i: int, m: MessageView)
    requires
        0 <= i < ms.len(),
        m.role == ms[i].role,
        m.delivery == ms[i].delivery,
    ensures
        text_tail(ms.update(i, m)) == text_tail(ms),
        queued_tail(ms.update(i, m)) == queued_tail(ms),
{
    lemma_qt_update(ms, i, m);
    lemma_queued_tail(ms);
    let q = queued_tail(ms);
    if q > 0 {
        if i == q - 1 {
        } else {
            assert(ms.update(i, m)[q - 1] == ms[q - 1]);
        }
    }
}

/// After streamed text of some role lands, the message just above the text
/// tail is of that role and ends with the text.
proof fn lemma_appended_tail(ms: Seq<MessageView>, role: Role, text: Seq<char>)
    requires
        role != Role::Tool,
    ensures
        ({
            let a = appended(ms, role, text);
            let t = text_tail(a);
            &&& t > 0
            &&& a[t - 1].role == role
            &&& t == (if text_tail(ms) > 0 && ms[text_tail(ms) - 1].role == role {
                text_tail(ms)
            } else {
                text_tail(ms) + 1
            })
        }),
{
    lemma_queued_tail(ms);
    let at = text_tail(ms);
    if at > 0 && ms[at - 1].role == role {
        let m = with_source(ms[at - 1], ms[at - 1].source + text);
        lemma_tt_update(ms, at - 1, m);
    } else {
        lemma_tt_insert(ms, plain(role, text));
    }
}

/// Streamed replies coalesce: two deltas land exactly as their concatenation
/// would, so a reply is one message however many chunks it arrived in.
pub proof fn streaming_deltas_accumulate(
    ms: Seq<MessageView>,
    mode: ReasoningMode,
    a: Seq<char>,
    b: Seq<char>,
)
    ensures
        after_assistant(after_assistant(ms, mode, a), mode, b) == after_assistant(ms, mode, a + b),
{
    let r = retired(ms, mode);
    let once = after_assistant(ms, mode, a);
    lemma_appended_tail(r, Role::Assistant, a);
    lemma_queued_tail(r);
    assert(live_reasoning(once) is None);
    assert(retired(once, mode) == once);
    let at = text_tail(r);
    if at > 0 && r[at - 1].role == Role::Assistant {
        assert(once[at - 1].source == r[at - 1].source + a);
        assert(text_tail(once) == at);
        assert(r[at - 1].source + a + b =~= r[at - 1].source + (a + b));
        assert(with_source(once[at - 1], once[at - 1].source + b) == with_source(
            r[at - 1],
            r[at - 1].source + (a + b),
        ));
        assert(after_assistant(once, mode, b) =~= after_assistant(ms, mode, a + b));
    } else {
        assert(once[at] == plain(Role::Assistant, a));
        assert(text_tail(once) == at + 1);
        assert(with_source(once[at], once[at].source + b) == plain(Role::Assistant, a + b));
        assert(appended(once, Role::Assistant, b) == once.update(at, plain(Role::Assistant, a + b)));
        assert(once.update(at, plain(Role::Assistant, a + b)) =~= r.insert(at, plain(Role::Assistant, a + b)));
        assert(after_assistant(once, mode, b) =~= after_assistant(ms, mode, a + b));
    }
}

/// Streamed reasoning coalesces the same way in `full` mode.
pub proof fn reasoning_deltas_accumulate(ms: Seq<MessageView>, a: Seq<char>, b: Seq<char>)
    ensures
        after_reasoning(after_reasoning(ms, ReasoningMode::Full, a), ReasoningMode::Full, b)
            == after_reasoning(ms, ReasoningMode::Full, a + b),
{
    let once = appended(ms, Role::Reasoning, a);
    lemma_appended_tail(ms, Role::Reasoning, a);
    lemma_queued_tail(ms);
    let at = text_tail(ms);
    if at > 0 && ms[at - 1].role == Role::Reasoning {
        assert(text_tail(once) == at);
        assert(ms[at - 1].source + a + b =~= ms[at - 1].source + (a + b));
        assert(with_source(once[at - 1], once[at - 1].source + b) == with_source(
            ms[at - 1],
            ms[at - 1].source + (a + b),
        ));
        assert(appended(once, Role::Reasoning, b) =~= appended(ms, Role::Reasoning, a + b));
    } else {
        assert(once[at] == plain(Role::Reasoning, a));
        assert(text_tail(once) == at + 1);
        assert(with_source(once[at], once[at].source + b) == plain(Role::Reasoning, a + b));
        assert(appended(once, Role::Reasoning, b) == once.update(at, plain(Role::Reasoning, a + b)));
        assert(once.update(at, plain(Role::Reasoning, a + b)) =~= ms.insert(at, plain(Role::Reasoning, a + b)));
        assert(appended(once, Role::Reasoning, b) =~= appended(ms, Role::Reasoning, a + b));
    }
}

/// In `off` mode no reasoning reaches the transcript.
pub proof fn off_mode_drops_reasoning(ms: Seq<MessageView>, text: Seq<char>)
    ensures
        after_reasoning(ms, ReasoningMode::Off, text) == ms,
{
}

/// Clearing the tool cards leaves none behind.
pub proof fn clearing_leaves_no_tool_card(ms: Seq<MessageView>)
    ensures
        no_tools(without_tools(ms)),
        without_tools(ms).len() <= ms.len(),
    decreases ms.len(),
{
    if ms.len() > 0 {
        clearing_leaves_no_tool_card(ms.drop_last());
        let d = without_tools(ms.drop_last());
        if ms.last().role != Role::Tool {
            assert forall|i: int| 0 <= i < d.push(ms.last()).len() implies (#[trigger] d.push(
                ms.last(),
            )[i]).role != Role::Tool by {
                if i < d.len() {
                    assert(d.push(ms.last())[i] == d[i]);
                }
            }
        }
    }
}

/// A transcript with no tool cards is left as it is by clearing them.
pub proof fn lemma_without_tools_id(ms: Seq<MessageView>)
    requires
        no_tools(ms),
    ensures
        without_tools(ms) == ms,
    decreases ms.len(),
{
    if ms.len() > 0 {
        let d = ms.drop_last();
        assert forall|i: int| 0 <= i < d.len() implies (#[trigger] d[i]).role != Role::Tool by {
            assert(d[i] == ms[i]);
        }
        lemma_without_tools_id(d);
        assert(ms.last() == ms[ms.len() - 1]);
        assert(d.push(ms.last()) =~= ms);
    }
}

/// Repeated notices collapse: recording the same failure twice in a row
/// leaves the transcript as recording it once does.
pub proof fn repeated_notices_collapse(ms: Seq<MessageView>, text: Seq<char>)
    ensures
        after_notice(after_notice(ms, text), text) == after_notice(ms, text),
{
    let t = trim_seq(text);
    if t.len() > 0 {
        let c = without_tools(ms);
        clearing_leaves_no_tool_card(ms);
        lemma_queued_tail(c);
        let at = queued_tail(c);
        let once = after_notice(ms, text);
        if at > 0 && c[at - 1].role == Role::Notice && c[at - 1].source == t {
            lemma_without_tools_id(c);
        } else {
            let n = plain(Role::Notice, t);
            assert forall|i: int| 0 <= i < once.len() implies (#[trigger] once[i]).role
                != Role::Tool by {
                if i < at {
                    assert(once[i] == c[i]);
                } else if i > at {
                    assert(once[i] == c[i - 1]);
                }
            }
            lemma_without_tools_id(once);
            lemma_qt_insert(c, at, n);
            assert(once[at] == n);
        }
    }
}

/// Removing a message keeps tool cards single and unmarked.
proof fn lemma_tools_remove(ms: Seq<MessageView>, i: int)
    requires
        0 <= i < ms.len(),
        single_tool(ms),
        tools_unmarked(ms),
    ensures
        single_tool(ms.remove(i)),
        tools_unmarked(ms.remove(i)),
{
    let u = ms.remove(i);
    assert forall|a: int, b: int|
        0 <= a < u.len() && 0 <= b < u.len() && (#[trigger] u[a]).role == Role::Tool && (
        #[trigger] u[b]).role == Role::Tool implies a == b by {
        let a0 = if a < i {
            a
        } else {
            a + 1
        };
        let b0 = if b < i {
            b
        } else {
            b + 1
        };
        assert(u[a] == ms[a0]);
        assert(u[b] == ms[b0]);
    }
    assert forall|a: int| 0 <= a < u.len() && (#[trigger] u[a]).role == Role::Tool implies u[a].delivery is None by {
        let a0 = if a < i {
            a
        } else {
            a + 1
        };
        assert(u[a] == ms[a0]);
    }
}

/// Retiring the live thought keeps tool cards single and unmarked.
proof fn lemma_tools_retired(ms: Seq<MessageView>, mode: ReasoningMode)
    requires
        single_tool(ms),
        tools_unmarked(ms),
    ensures
        single_tool(retired(ms, mode)),
        tools_unmarked(retired(ms, mode)),
{
    lemma_queued_tail(ms);
    if mode == ReasoningMode::Current {
        if let Some(i) = live_reasoning(ms) {
            lemma_tools_remove(ms, i);
        }
    }
}

/// Where tool cards carry no delivery mark, the live card sits directly
/// above the queue of waiting messages: after a call announces a non-blank
/// label, the one tool card is the message just above the queued tail.
pub proof fn the_live_tool_card_sits_above_the_queue(
    ms: Seq<MessageView>,
    mode: ReasoningMode,
    call_id: Seq<char>,
    label: Seq<char>,
)
    requires
        single_tool(ms),
        tools_unmarked(ms),
        trim_seq(label).len() > 0,
    ensures
        ({
            let a = after_live_tool(ms, mode, call_id, label);
            let k = queued_tail(a) - 1;
            &&& 0 <= k < a.len()
            &&& a[k].role == Role::Tool
            &&& a[k].source == trim_seq(label)
            &&& a[k].call_id == Some(call_id)
            &&& forall|j: int| 0 <= j < a.len() && j != k ==> (#[trigger] a[j]).role != Role::Tool
        }),
{
    let l = trim_seq(label);
    let r = retired(ms, mode);
    lemma_tools_retired(ms, mode);
    lemma_queued_tail(r);
    let slot = text_tail(r);
    let a = after_live_tool(ms, mode, call_id, label);
    if slot < r.len() && r[slot].role == Role::Tool {
        let q = queued_tail(r);
        if slot == q {
            assert(is_queued(r[q]));
            assert(r[q].delivery is None);
        }
        assert(slot == q - 1);
        let m = MessageView { call_id: Some(call_id), source: l, ..r[slot] };
        lemma_qt_update(r, slot, m);
        assert forall|j: int| 0 <= j < a.len() && j != slot implies (#[trigger] a[j]).role
            != Role::Tool by {
            assert(a[j] == r[j]);
        }
    } else {
        let c = without_tools(r);
        clearing_leaves_no_tool_card(r);
        lemma_queued_tail(c);
        let at = text_tail(c);
        assert(at == queued_tail(c));
        let card = crate::transcript::tool_card(call_id, l);
        lemma_qt_insert(c, at, card);
        assert(a[at] == card);
        assert forall|j: int| 0 <= j < a.len() && j != at implies (#[trigger] a[j]).role
            != Role::Tool by {
            if j < at {
                assert(a[j] == c[j]);
            } else {
                assert(a[j] == c[j - 1]);
            }
        }
    }
}

/// In `current` mode the live thought never holds a finished paragraph:
/// after reasoning streams in, its text contains no blank line.
pub proof fn current_mode_keeps_one_paragraph(
    ms: Seq<MessageView>,
    text: Seq<char>,
)
    ensures
        ({
            let a = after_reasoning(ms, ReasoningMode::Current, text);
            live_reasoning(a) matches Some(i) && !contains_seq(a[i].source, blank_line())
        }),
{
    let x = appended(ms, Role::Reasoning, text);
    lemma_appended_tail(ms, Role::Reasoning, text);
    lemma_queued_tail(x);
    let i = text_tail(x) - 1;
    assert(live_reasoning(x) == Some(i));
    let src = x[i].source;
    let nn = blank_line();
    lemma_rfind_upto_props(src, nn, src.len() - 2);
    let a = current_paragraph(x);
    match rfind_upto(src, nn, src.len() - 2) {
        Some(b) => {
            let rest = src.skip(b + 2);
            crate::text::lemma_leading_ws_bound(rest);
            let lw = crate::text::leading_ws(rest) as int;
            let kept = crate::text::trim_start_seq(rest);
            let m = with_source(x[i], kept);
            lemma_tt_update(x, i, m);
            assert(a == x.update(i, m));
            assert forall|j: int| !occurs_at(kept, nn, j) by {
                if occurs_at(kept, nn, j) {
                    assert(kept.subrange(j, j + 2) =~= src.subrange(b + 2 + lw + j, b + 2 + lw + j + 2));
                    assert(occurs_at(src, nn, b + 2 + lw + j));
                }
            }
        },
        None => {
            assert(a == x);
            assert forall|j: int| !occurs_at(src, nn, j) by {
                if occurs_at(src, nn, j) {
                    assert(j <= src.len() - 2);
                }
            }
        },
    }
}

/// Clearing tool cards distributes over concatenation.
proof fn lemma_without_tools_split(x: Seq<MessageView>, y: Seq<MessageView>)
    ensures
        without_tools(x + y) == without_tools(x) + without_tools(y),
    decreases y.len(),
{
    if y.len() == 0 {
        assert(x + y =~= x);
        assert(without_tools(x) + without_tools(y) =~= without_tools(x));
    } else {
        lemma_without_tools_split(x, y.drop_last());
        assert((x + y).drop_last() =~= x + y.drop_last());
        assert((x + y).last() == y.last());
        if y.last().role != Role::Tool {
            assert(without_tools(x) + without_tools(y) =~= (without_tools(x) + without_tools(
                y.drop_last(),
            )).push(y.last()));
        }
    }
}

/// The last message of a tool-free clearing is the last non-tool message.
proof fn lemma_without_tools_last(ms: Seq<MessageView>)
    requires
        ms.len() > 0,
        ms.last().role != Role::Tool,
    ensures
        without_tools(ms).len() > 0,
        without_tools(ms).last() == ms.last(),
{
}

/// A call announcing itself does not count toward the streaming reveal: in
/// `full` mode the reply the reveal animates is the same message, of the same
/// length, before and after the card appears or changes.
pub proof fn the_tool_card_does_not_count_toward_the_reveal(
    ms: Seq<MessageView>,
    call_id: Seq<char>,
    label: Seq<char>,
)
    requires
        tools_unmarked(ms),
        queue_trails(ms),
    ensures
        streaming(after_live_tool(ms, ReasoningMode::Full, call_id, label)) == streaming(ms),
{
    let l = trim_seq(label);
    if l.len() == 0 {
        return;
    }
    let a = after_live_tool(ms, ReasoningMode::Full, call_id, label);
    lemma_queued_tail(ms);
    let q = queued_tail(ms);
    let slot = text_tail(ms);
    assert(retired(ms, ReasoningMode::Full) == ms);
    if slot < ms.len() && ms[slot].role == Role::Tool {
        if slot == q {
            assert(is_queued(ms[q]));
        }
        let m = MessageView { call_id: Some(call_id), source: l, ..ms[slot] };
        lemma_tt_update(ms, slot, m);
        if slot > 0 {
            assert(a[slot - 1] == ms[slot - 1]);
        }
    } else {
        assert(slot == q);
        let x = ms.take(q);
        let y = ms.skip(q);
        assert(x + y =~= ms);
        lemma_without_tools_split(x, y);
        assert forall|i: int| 0 <= i < y.len() implies (#[trigger] y[i]).role != Role::Tool by {
            assert(y[i] == ms[q + i]);
            assert(is_queued(ms[q + i]));
        }
        lemma_without_tools_id(y);
        let c = without_tools(ms);
        assert(c == without_tools(x) + y);
        let wx = without_tools(x);
        clearing_leaves_no_tool_card(ms);
        assert forall|j: int| wx.len() <= j < c.len() implies is_queued(#[trigger] c[j]) by {
            assert(c[j] == y[j - wx.len()]);
            assert(y[j - wx.len()] == ms[q + j - wx.len()]);
        }
        if q > 0 {
            assert(x.last() == ms[q - 1]);
            assert(x.len() > 0);
            lemma_without_tools_last(x);
            assert(c[wx.len() - 1] == wx.last());
            lemma_queued_tail_is(c, wx.len() as int);
        } else {
            assert(x =~= Seq::<MessageView>::empty());
            assert(wx =~= Seq::<MessageView>::empty());
            lemma_queued_tail_is(c, 0);
        }
        let at = queued_tail(c);
        let card = crate::transcript::tool_card(call_id, l);
        lemma_qt_insert(c, at, card);
        assert(a[at] == card);
        if at > 0 {
            assert(a[at - 1] == c[at - 1]);
        }
    }
}

/// Every tool card sits directly above the queue.
pub open spec fn card_pinned(ms: Seq<MessageView>) -> bool {
    forall|j: int| 0 <= j < ms.len() && (#[trigger] ms[j]).role == Role::Tool ==> j == queued_tail(ms)
        - 1
}

/// Inserting a plain message at the text tail keeps the card pinned.
proof fn lemma_pinned_insert(ms: Seq<MessageView>, m: MessageView)
    requires
        card_pinned(ms),
        m.role != Role::Tool,
        !is_queued(m),
    ensures
        card_pinned(ms.insert(text_tail(ms), m)),
{
    lemma_queued_tail(ms);
    let t = text_tail(ms);
    let u = ms.insert(t, m);
    lemma_qt_insert(ms, t, m);
    assert forall|j: int| 0 <= j < u.len() && (#[trigger] u[j]).role == Role::Tool implies j
        == queued_tail(u) - 1 by {
        if j < t {
            assert(u[j] == ms[j]);
            assert(ms[j].role == Role::Tool);
        } else if j > t {
            assert(u[j] == ms[j - 1]);
            assert(ms[j - 1].role == Role::Tool);
        }
    }
}

/// Updating a message without changing its role or mark keeps the card pinned.
proof fn lemma_pinned_update(ms: Seq<MessageView>, i: int, m: MessageView)
    requires
        card_pinned(ms),
        0 <= i < ms.len(),
        m.role == ms[i].role,
        m.delivery == ms[i].delivery,
    ensures
        card_pinned(ms.update(i, m)),
{
    lemma_qt_update(ms, i, m);
    let u = ms.update(i, m);
    assert forall|j: int| 0 <= j < u.len() && (#[trigger] u[j]).role == Role::Tool implies j
        == queued_tail(u) - 1 by {
        if j != i {
            assert(u[j] == ms[j]);
        }
    }
}

/// Streamed text of a non-tool role keeps the card pinned.
proof fn lemma_pinned_appended(ms: Seq<MessageView>, role: Role, text: Seq<char>)
    requires
        card_pinned(ms),
        role != Role::Tool,
    ensures
        card_pinned(appended(ms, role, text)),
{
    lemma_queued_tail(ms);
    let at = text_tail(ms);
    if at > 0 && ms[at - 1].role == role {
        lemma_pinned_update(ms, at - 1, with_source(ms[at - 1], ms[at - 1].source + text));
    } else {
        lemma_pinned_insert(ms, plain(role, text));
    }
}

/// The live tool card stays at the bottom: however a turn interleaves reply
/// text, reasoning and edits, a card that sat directly above the queue still
/// does, so it always renders under the streamed text.
pub proof fn the_live_tool_card_stays_at_the_bottom(
    ms: Seq<MessageView>,
    mode: ReasoningMode,
    text: Seq<char>,
    edit: Seq<char>,
)
    requires
        card_pinned(ms),
        queue_trails(ms),
        tools_unmarked(ms),
    ensures
        card_pinned(after_assistant(ms, mode, text)),
        card_pinned(after_reasoning(ms, mode, text)),
        card_pinned(ms.insert(text_tail(ms), plain(Role::Edit, edit))),
{
    lemma_queued_tail(ms);
    let r = retired(ms, mode);
    if mode == ReasoningMode::Current && live_reasoning(ms) is Some {
        let i = text_tail(ms) - 1;
        lemma_qt_remove(ms, i);
        assert forall|j: int| 0 <= j < r.len() && (#[trigger] r[j]).role == Role::Tool implies j
            == queued_tail(r) - 1 by {
            if j < i {
                assert(r[j] == ms[j]);
                assert(ms[j].role == Role::Tool);
            } else {
                assert(r[j] == ms[j + 1]);
            }
        }
    }
    assert(card_pinned(r));
    lemma_pinned_appended(r, Role::Assistant, text);
    lemma_pinned_insert(ms, plain(Role::Edit, edit));
    if mode != ReasoningMode::Off {
        let x = appended(ms, Role::Reasoning, text);
        lemma_pinned_appended(ms, Role::Reasoning, text);
        if mode == ReasoningMode::Current {
            lemma_queued_tail(x);
            if let Some(i) = live_reasoning(x) {
                let src = x[i].source;
                if let Some(b) = rfind_upto(src, blank_line(), src.len() - 2) {
                    let m = with_source(x[i], crate::text::trim_start_seq(src.skip(b + 2)));
                    lemma_pinned_update(x, i, m);
                    assert(current_paragraph(x) == x.update(i, m));
                }
            }
        }
    }
}

/// The waiting queue: the trailing run of queued messages.
pub open spec fn queue_of(ms: Seq<MessageView>) -> Seq<MessageView> {
    ms.skip(queued_tail(ms))
}

/// Inserting an unqueued message at or above the queue leaves the queue as
/// it was, still trailing.
proof fn lemma_queue_insert(ms: Seq<MessageView>, i: int, m: MessageView)
    requires
        0 <= i <= queued_tail(ms),
        !is_queued(m),
        queue_trails(ms),
    ensures
        queue_of(ms.insert(i, m)) == queue_of(ms),
        queue_trails(ms.insert(i, m)),
{
    lemma_queued_tail(ms);
    lemma_qt_insert(ms, i, m);
    let u = ms.insert(i, m);
    let q = queued_tail(ms);
    assert(queue_of(u) =~= queue_of(ms)) by {
        assert forall|j: int| 0 <= j < queue_of(u).len() implies queue_of(u)[j] == queue_of(ms)[j] by {
            assert(u[q + 1 + j] == ms[q + j]);
        }
    }
    assert forall|j: int| 0 <= j < queued_tail(u) implies !is_queued(#[trigger] u[j]) by {
        if j < i {
            assert(u[j] == ms[j]);
        } else if j > i {
            assert(u[j] == ms[j - 1]);
        }
    }
}

/// Changing a message above the queue, without queueing it, leaves the
/// queue as it was, still trailing.
proof fn lemma_queue_update(ms: Seq<MessageView>, i: int, m: MessageView)
    requires
        0 <= i < queued_tail(ms),
        !is_queued(m),
        queue_trails(ms),
    ensures
        queue_of(ms.update(i, m)) == queue_of(ms),
        queue_trails(ms.update(i, m)),
{
    lemma_queued_tail(ms);
    lemma_qt_update(ms, i, m);
    let u = ms.update(i, m);
    assert(queue_of(u) =~= queue_of(ms));
    assert forall|j: int| 0 <= j < queued_tail(u) implies !is_queued(#[trigger] u[j]) by {
        if j != i {
            assert(u[j] == ms[j]);
        }
    }
}

/// Removing a message above the queue leaves the queue as it was, still
/// trailing.
proof fn lemma_queue_remove(ms: Seq<MessageView>, i: int)
    requires
        0 <= i < queued_tail(ms),
        queue_trails(ms),
    ensures
        queue_of(ms.remove(i)) == queue_of(ms),
        queue_trails(ms.remove(i)),
{
    lemma_queued_tail(ms);
    lemma_qt_remove(ms, i);
    let u = ms.remove(i);
    let q = queued_tail(ms);
    assert(queue_of(u) =~= queue_of(ms)) by {
        assert forall|j: int| 0 <= j < queue_of(u).len() implies queue_of(u)[j] == queue_of(ms)[j] by {
            assert(u[q - 1 + j] == ms[q + j]);
        }
    }
    assert forall|j: int| 0 <= j < queued_tail(u) implies !is_queued(#[trigger] u[j]) by {
        if j < i {
            assert(u[j] == ms[j]);
        } else {
            assert(u[j] == ms[j + 1]);
        }
    }
}

/// Clearing the tool cards leaves the queue as it was, still trailing.
proof fn lemma_queue_without_tools(ms: Seq<MessageView>)
    requires
        queue_trails(ms),
        tools_unmarked(ms),
    ensures
        queue_of(without_tools(ms)) == queue_of(ms),
        queue_trails(without_tools(ms)),
    decreases ms.len(),
{
    lemma_queued_tail(ms);
    if ms.len() > 0 {
        let d = ms.drop_last();
        let last = ms.last();
        lemma_queued_tail(d);
        assert(queue_trails(d)) by {
            assert forall|j: int| 0 <= j < queued_tail(d) implies !is_queued(#[trigger] d[j]) by {
                assert(d[j] == ms[j]);
                if is_queued(last) {
                    assert(queued_tail(ms) == queued_tail(d));
                } else {
                    assert(queued_tail(ms) == ms.len());
                }
            }
        }
        assert(tools_unmarked(d)) by {
            assert forall|j: int| 0 <= j < d.len() && (#[trigger] d[j]).role == Role::Tool implies d[j].delivery
                is None by {
                assert(d[j] == ms[j]);
            }
        }
        lemma_queue_without_tools(d);
        let wd = without_tools(d);
        lemma_queued_tail(wd);
        if is_queued(last) {
            assert(last.role != Role::Tool) by {
                if last.role == Role::Tool {
                    assert(ms[ms.len() - 1].delivery is None);
                }
            }
            let w = wd.push(last);
            assert(without_tools(ms) == w);
            assert(w.drop_last() =~= wd);
            assert(queued_tail(w) == queued_tail(wd));
            assert(queue_of(w) =~= queue_of(wd).push(last));
            assert(queue_of(ms) =~= queue_of(d).push(last));
            assert forall|j: int| 0 <= j < queued_tail(w) implies !is_queued(#[trigger] w[j]) by {
                assert(w[j] == wd[j]);
            }
        } else {
            // Nothing in `ms` is queued, so nothing in `d` is, and the
            // clearing of `d` keeps none.
            assert(queued_tail(ms) == ms.len());
            assert(queue_of(ms) =~= Seq::<MessageView>::empty());
            assert(queued_tail(d) == d.len()) by {
                if queued_tail(d) < d.len() {
                    assert(is_queued(d[d.len() - 1]));
                    assert(d[d.len() - 1] == ms[d.len() - 1]);
                }
            }
            assert(queue_of(d) =~= Seq::<MessageView>::empty());
            assert(queued_tail(wd) == wd.len());
            if last.role == Role::Tool {
                assert(without_tools(ms) == wd);
                assert(queue_of(wd) =~= Seq::<MessageView>::empty());
            } else {
                let w = wd.push(last);
                assert(without_tools(ms) == w);
                assert(queued_tail(w) == w.len());
                assert(queue_of(w) =~= Seq::<MessageView>::empty());
                assert forall|j: int| 0 <= j < queued_tail(w) implies !is_queued(#[trigger] w[j]) by {
                    if j < wd.len() {
                        assert(w[j] == wd[j]);
                    }
                }
            }
        }
    }
}

/// Streamed text lands above the queue and leaves it as it was.
proof fn lemma_queue_appended(ms: Seq<MessageView>, role: Role, text: Seq<char>)
    requires
        queue_trails(ms),
    ensures
        queue_of(appended(ms, role, text)) == queue_of(ms),
        queue_trails(appended(ms, role, text)),
{
    lemma_queued_tail(ms);
    let at = text_tail(ms);
    if at > 0 && ms[at - 1].role == role {
        let m = with_source(ms[at - 1], ms[at - 1].source + text);
        lemma_queue_update(ms, at - 1, m);
    } else {
        lemma_queue_insert(ms, at, plain(role, text));
    }
}

/// Retiring the live thought leaves the queue as it was, and tool cards
/// unmarked.
proof fn lemma_queue_retired(ms: Seq<MessageView>, mode: ReasoningMode)
    requires
        queue_trails(ms),
        tools_unmarked(ms),
    ensures
        queue_of(retired(ms, mode)) == queue_of(ms),
        queue_trails(retired(ms, mode)),
        tools_unmarked(retired(ms, mode)),
{
    lemma_queued_tail(ms);
    if mode == ReasoningMode::Current {
        if let Some(i) = live_reasoning(ms) {
            lemma_queue_remove(ms, i);
            let u = ms.remove(i);
            assert forall|j: int| 0 <= j < u.len() && (#[trigger] u[j]).role == Role::Tool implies u[j].delivery
                is None by {
                if j < i {
                    assert(u[j] == ms[j]);
                } else {
                    assert(u[j] == ms[j + 1]);
                }
            }
        }
    }
}

/// What a turn streams lands above the waiting queue and leaves it alone:
/// after streamed text or reasoning, a tool card, an edit, a notice or the
/// card clearing, the same queued messages, in the same order, still trail
/// the transcript and nothing above them is queued.
pub proof fn the_queue_is_untouched_by_the_turn(
    ms: Seq<MessageView>,
    mode: ReasoningMode,
    text: Seq<char>,
    call_id: Seq<char>,
    label: Seq<char>,
    edit: Seq<char>,
)
    requires
        queue_trails(ms),
        tools_unmarked(ms),
    ensures
        queue_of(after_assistant(ms, mode, text)) == queue_of(ms),
        queue_trails(after_assistant(ms, mode, text)),
        queue_of(after_reasoning(ms, mode, text)) == queue_of(ms),
        queue_trails(after_reasoning(ms, mode, text)),
        queue_of(after_live_tool(ms, mode, call_id, label)) == queue_of(ms),
        queue_trails(after_live_tool(ms, mode, call_id, label)),
        queue_of(ms.insert(text_tail(ms), plain(Role::Edit, edit))) == queue_of(ms),
        queue_trails(ms.insert(text_tail(ms), plain(Role::Edit, edit))),
        queue_of(after_notice(ms, text)) == queue_of(ms),
        queue_trails(after_notice(ms, text)),
        queue_of(without_tools(ms)) == queue_of(ms),
        queue_trails(without_tools(ms)),
{
    lemma_queued_tail(ms);
    // Streamed text.
    let r = retired(ms, mode);
    lemma_queue_retired(ms, mode);
    lemma_queue_appended(r, Role::Assistant, text);
    // Streamed reasoning.
    if mode != ReasoningMode::Off {
        let x = appended(ms, Role::Reasoning, text);
        lemma_queue_appended(ms, Role::Reasoning, text);
        if mode == ReasoningMode::Current {
            lemma_queued_tail(x);
            if let Some(i) = live_reasoning(x) {
                let src = x[i].source;
                if let Some(b) = rfind_upto(src, blank_line(), src.len() - 2) {
                    let m = with_source(x[i], crate::text::trim_start_seq(src.skip(b + 2)));
                    lemma_queue_update(x, i, m);
                    assert(current_paragraph(x) == x.update(i, m));
                }
            }
        }
    }
    // A tool card.
    let l = trim_seq(label);
    if l.len() > 0 {
        lemma_queued_tail(r);
        let slot = text_tail(r);
        if slot < r.len() && r[slot].role == Role::Tool {
            let q = queued_tail(r);
            if slot == q {
                assert(is_queued(r[q]));
                assert(r[q].delivery is None);
            }
            let m = MessageView { call_id: Some(call_id), source: l, ..r[slot] };
            lemma_queue_update(r, slot, m);
        } else {
            let c = without_tools(r);
            lemma_queue_without_tools(r);
            lemma_queued_tail(c);
            lemma_queue_insert(c, text_tail(c), crate::transcript::tool_card(call_id, l));
        }
    }
    // An edit.
    lemma_queue_insert(ms, text_tail(ms), plain(Role::Edit, edit));
    // A notice, and the clearing.
    lemma_queue_without_tools(ms);
    let t = trim_seq(text);
    if t.len() > 0 {
        let c = without_tools(ms);
        lemma_queued_tail(c);
        lemma_queue_insert(c, queued_tail(c), plain(Role::Notice, t));
    }
}

/// Where `first_marked` lands.
proof fn lemma_first_marked(ms: Seq<MessageView>, d: Delivery, from: int)
    requires
        0 <= from,
    ensures
        match first_marked(ms, d, from) {
            Some(i) => from <= i < ms.len() && ms[i].delivery == Some(d) && forall|j: int|
                from <= j < i ==> (#[trigger] ms[j]).delivery != Some(d),
            None => forall|j: int| from <= j < ms.len() ==> (#[trigger] ms[j]).delivery != Some(d),
        },
    decreases ms.len() - from,
{
    if from < ms.len() && ms[from].delivery != Some(d) {
        lemma_first_marked(ms, d, from + 1);
    }
}

/// Queued messages are sent oldest first, one per call: the message promoted
/// is the first queued one on the page, it keeps its place, role and text and
/// becomes sent, every other message is left as it was, and the next
/// promotion, if any, takes a message further down the page. When nothing is
/// queued, nothing is promoted.
pub proof fn queued_messages_go_oldest_first(ms: Seq<MessageView>)
    ensures
        match first_marked(ms, Delivery::Queued, 0) {
            Some(i) => {
                let after = remarked(ms, i, Delivery::Sent);
                &&& 0 <= i < ms.len()
                &&& is_queued(ms[i])
                &&& forall|j: int| 0 <= j < i ==> !is_queued(#[trigger] ms[j])
                &&& after.len() == ms.len()
                &&& after[i].role == ms[i].role && after[i].source == ms[i].source
                &&& after[i].delivery == Some(Delivery::Sent)
                &&& forall|j: int| 0 <= j < ms.len() && j != i ==> #[trigger] after[j] == ms[j]
                &&& (first_marked(after, Delivery::Queued, 0) matches Some(k) ==> k > i)
            },
            None => forall|j: int| 0 <= j < ms.len() ==> !is_queued(#[trigger] ms[j]),
        },
{
    lemma_first_marked(ms, Delivery::Queued, 0);
    if let Some(i) = first_marked(ms, Delivery::Queued, 0) {
        let after = remarked(ms, i, Delivery::Sent);
        lemma_first_marked(after, Delivery::Queued, 0);
        if let Some(k) = first_marked(after, Delivery::Queued, 0) {
            if k < i {
                assert(after[k] == ms[k]);
            }
        }
    }
}

/// `m` marked sent.
pub open spec fn sent(m: MessageView) -> MessageView {
    MessageView { delivery: Some(Delivery::Sent), ..m }
}

/// `ms` with every queued message above position `bound` marked sent.
spec fn sent_above(ms: Seq<MessageView>, bound: int) -> Seq<MessageView> {
    Seq::new(
        ms.len(),
        |j: int|
            if is_queued(ms[j]) && j < bound {
                sent(ms[j])
            } else {
                ms[j]
            },
    )
}

/// The queued positions from `from` on are in range, queued and rising, and
/// nothing is queued before the first of them, between two of them, or after
/// the last.
proof fn lemma_queued_from(ms: Seq<MessageView>, from: int)
    requires
        0 <= from,
    ensures
        ({
            let r = queued_from(ms, from);
            &&& forall|m: int|
                0 <= m < r.len() ==> from <= #[trigger] r[m] < ms.len() && is_queued(ms[r[m]])
            &&& forall|a: int, b: int| 0 <= a < b < r.len() ==> #[trigger] r[a] < #[trigger] r[b]
            &&& forall|j: int|
                from <= j < ms.len() && (r.len() == 0 || j < r[0]) ==> !is_queued(
                    #[trigger] ms[j],
                )
            &&& forall|m: int, j: int|
                #![trigger r[m], ms[j]]
                0 <= m < r.len() && r[m] < j < ms.len() && (m + 1 == r.len() || j < r[m + 1])
                    ==> !is_queued(ms[j])
        }),
    decreases ms.len() - from,
{
    if from < ms.len() {
        lemma_queued_from(ms, from + 1);
        let t = queued_from(ms, from + 1);
        let r = queued_from(ms, from);
        if is_queued(ms[from]) {
            assert(r == seq![from] + t);
            assert forall|m: int| 1 <= m < r.len() implies #[trigger] r[m] == t[m - 1] by {}
            assert forall|a: int, b: int| 0 <= a < b < r.len() implies #[trigger] r[a]
                < #[trigger] r[b] by {
                if a > 0 {
                    assert(r[a] == t[a - 1]);
                }
                assert(r[b] == t[b - 1]);
            }
            assert forall|m: int, j: int|
                #![trigger r[m], ms[j]]
                0 <= m < r.len() && r[m] < j < ms.len() && (m + 1 == r.len() || j < r[m + 1])
                    implies !is_queued(ms[j]) by {
                if m > 0 {
                    assert(r[m] == t[m - 1]);
                    if m + 1 < r.len() {
                        assert(r[m + 1] == t[m]);
                    }
                    assert(t[m - 1] < j);
                } else if t.len() > 0 {
                    assert(r[1] == t[0]);
                }
            }
        } else {
            assert(r == t);
        }
    }
}

/// The first queued message of `p` is at `i` when `i` is queued and nothing
/// above it is.
proof fn lemma_first_queued_at(p: Seq<MessageView>, i: int)
    requires
        0 <= i < p.len(),
        is_queued(p[i]),
        forall|j: int| 0 <= j < i ==> !is_queued(#[trigger] p[j]),
    ensures
        first_marked(p, Delivery::Queued, 0) == Some(i),
{
    lemma_first_marked(p, Delivery::Queued, 0);
    if let Some(f) = first_marked(p, Delivery::Queued, 0) {
        if f > i {
            assert(!is_queued(p[i]));
        }
    }
}

/// After `n` promotions, exactly the queued messages above the next one
/// still waiting (or all of them, once none is left) are marked sent.
proof fn lemma_promoted_prefix(ms: Seq<MessageView>, n: nat)
    requires
        n <= queued_from(ms, 0).len(),
    ensures
        ({
            let q = queued_from(ms, 0);
            promoted(ms, n) == sent_above(
                ms,
                if n < q.len() {
                    q[n as int]
                } else {
                    ms.len() as int
                },
            )
        }),
    decreases n,
{
    let q = queued_from(ms, 0);
    lemma_queued_from(ms, 0);
    if n == 0 {
        let b = if 0 < q.len() {
            q[0]
        } else {
            ms.len() as int
        };
        assert(promoted(ms, 0) =~= sent_above(ms, b));
    } else {
        let k = (n - 1) as nat;
        lemma_promoted_prefix(ms, k);
        let p = sent_above(ms, q[k as int]);
        assert(promoted(ms, k) == p);
        lemma_first_queued_at(p, q[k as int]);
        let b = if n < q.len() {
            q[n as int]
        } else {
            ms.len() as int
        };
        if n < q.len() {
            assert(q[k as int] < q[n as int]);
        }
        assert forall|j: int| 0 <= j < ms.len() implies #[trigger] remarked(
            p,
            q[k as int],
            Delivery::Sent,
        )[j] == sent_above(ms, b)[j] by {
            if q[k as int] < j && j < b {
                assert(!is_queued(ms[j]));
            }
        }
        assert(remarked(p, q[k as int], Delivery::Sent) =~= sent_above(ms, b));
    }
}

/// Queued messages go out oldest first, one per promotion, until none is
/// left. With the queued messages at positions `q[0] < q[1] < ...`, top to
/// bottom, the promotion after `n` earlier ones hands over the text of the
/// message at `q[n]`; once all of them have gone, the next promotion hands
/// over nothing; and the transcript then shows each of them sent, in its own
/// place, with every other message as it was.
pub proof fn the_queue_drains_oldest_first(ms: Seq<MessageView>)
    ensures
        ({
            let q = queued_from(ms, 0);
            let drained = promoted(ms, q.len());
            &&& forall|m: int| 0 <= m < q.len() ==> 0 <= #[trigger] q[m] < ms.len() && is_queued(ms[q[m]])
            &&& forall|a: int, b: int| 0 <= a < b < q.len() ==> #[trigger] q[a] < #[trigger] q[b]
            &&& forall|n: nat| n < q.len() ==> #[trigger] promotion(ms, n) == Some(
                ms[q[n as int]].source,
            )
            &&& promotion(ms, q.len()) is None
            &&& drained.len() == ms.len()
            &&& forall|j: int|
                0 <= j < ms.len() ==> #[trigger] drained[j] == if is_queued(ms[j]) {
                    sent(ms[j])
                } else {
                    ms[j]
                }
        }),
{
    let q = queued_from(ms, 0);
    lemma_queued_from(ms, 0);
    assert forall|n: nat| n < q.len() implies #[trigger] promotion(ms, n) == Some(
        ms[q[n as int]].source,
    ) by {
        lemma_promoted_prefix(ms, n);
        let p = sent_above(ms, q[n as int]);
        lemma_first_queued_at(p, q[n as int]);
    }
    lemma_promoted_prefix(ms, q.len());
    let d = sent_above(ms, ms.len() as int);
    lemma_first_marked(d, Delivery::Queued, 0);
    if let Some(f) = first_marked(d, Delivery::Queued, 0) {
        assert(is_queued(d[f]));
    }
}

/// Removing a message keeps tool cards single.
proof fn lemma_single_remove(ms: Seq<MessageView>, i: int)
    requires
        0 <= i < ms.len(),
        single_tool(ms),
    ensures
        single_tool(ms.remove(i)),
{
    let u = ms.remove(i);
    assert forall|a: int, b: int|
        0 <= a < u.len() && 0 <= b < u.len() && (#[trigger] u[a]).role == Role::Tool && (
        #[trigger] u[b]).role == Role::Tool implies a == b by {
        let a0 = if a < i {
            a
        } else {
            a + 1
        };
        let b0 = if b < i {
            b
        } else {
            b + 1
        };
        assert(u[a] == ms[a0]);
        assert(u[b] == ms[b0]);
    }
}

/// Clearing the cards sees through one message: a tool card contributes
/// nothing, anything else itself.
proof fn lemma_without_tools_around(x: Seq<MessageView>, m: MessageView, y: Seq<MessageView>)
    ensures
        without_tools(x + seq![m] + y) == without_tools(x) + (if m.role == Role::Tool {
            Seq::<MessageView>::empty()
        } else {
            seq![m]
        }) + without_tools(y),
{
    lemma_without_tools_split(x + seq![m], y);
    lemma_without_tools_split(x, seq![m]);
    let one = seq![m];
    assert(one.drop_last() =~= Seq::<MessageView>::empty());
    assert(without_tools(Seq::<MessageView>::empty()) == Seq::<MessageView>::empty());
    if m.role != Role::Tool {
        assert(without_tools(one) =~= Seq::<MessageView>::empty().push(m));
    }
}

/// The live tool card is singular: after a call announces a non-blank label,
/// exactly one tool card exists, it carries that label and call, nothing but
/// waiting messages follows it, and every other message is the transcript's
/// as it was (less, in `current` mode, the thought the call retired).
pub proof fn the_live_tool_card_is_singular(
    ms: Seq<MessageView>,
    mode: ReasoningMode,
    call_id: Seq<char>,
    label: Seq<char>,
)
    requires
        single_tool(ms),
        trim_seq(label).len() > 0,
    ensures
        ({
            let a = after_live_tool(ms, mode, call_id, label);
            &&& single_tool(a)
            &&& exists|k: int|
                0 <= k < a.len() && (#[trigger] a[k]).role == Role::Tool && a[k].source == trim_seq(
                    label,
                ) && a[k].call_id == Some(call_id) && forall|j: int|
                    k < j < a.len() ==> is_queued(#[trigger] a[j])
            &&& without_tools(a) == without_tools(retired(ms, mode))
        }),
{
    let l = trim_seq(label);
    let r = retired(ms, mode);
    lemma_queued_tail(ms);
    if mode == ReasoningMode::Current {
        if let Some(i) = live_reasoning(ms) {
            lemma_single_remove(ms, i);
        }
    }
    assert(single_tool(r));
    lemma_queued_tail(r);
    let slot = text_tail(r);
    let a = after_live_tool(ms, mode, call_id, label);
    if slot < r.len() && r[slot].role == Role::Tool {
        let m = MessageView { call_id: Some(call_id), source: l, ..r[slot] };
        assert(a == r.update(slot, m));
        assert forall|x: int, y: int|
            0 <= x < a.len() && 0 <= y < a.len() && (#[trigger] a[x]).role == Role::Tool && (
            #[trigger] a[y]).role == Role::Tool implies x == y by {
            if x != slot {
                assert(a[x] == r[x]);
            }
            if y != slot {
                assert(a[y] == r[y]);
            }
        }
        assert forall|j: int| slot < j < a.len() implies is_queued(#[trigger] a[j]) by {
            assert(a[j] == r[j]);
        }
        assert(a[slot] == m);
        let x = r.take(slot);
        let y = r.skip(slot + 1);
        assert(r =~= x + seq![r[slot]] + y);
        assert(a =~= x + seq![m] + y);
        lemma_without_tools_around(x, r[slot], y);
        lemma_without_tools_around(x, m, y);
    } else {
        let c = without_tools(r);
        clearing_leaves_no_tool_card(r);
        lemma_queued_tail(c);
        let at = text_tail(c);
        assert(at == queued_tail(c));
        let card = crate::transcript::tool_card(call_id, l);
        assert(a == c.insert(at, card));
        assert forall|x: int, y: int|
            0 <= x < a.len() && 0 <= y < a.len() && (#[trigger] a[x]).role == Role::Tool && (
            #[trigger] a[y]).role == Role::Tool implies x == y by {
            if x < at {
                assert(a[x] == c[x]);
            } else if x > at {
                assert(a[x] == c[x - 1]);
            }
            if y < at {
                assert(a[y] == c[y]);
            } else if y > at {
                assert(a[y] == c[y - 1]);
            }
        }
        assert forall|j: int| at < j < a.len() implies is_queued(#[trigger] a[j]) by {
            assert(a[j] == c[j - 1]);
        }
        assert(a[at] == card);
        let x = c.take(at);
        let y = c.skip(at);
        assert(a =~= x + seq![card] + y);
        lemma_without_tools_around(x, card, y);
        assert forall|i: int| 0 <= i < x.len() implies (#[trigger] x[i]).role != Role::Tool by {
            assert(x[i] == c[i]);
        }
        assert forall|i: int| 0 <= i < y.len() implies (#[trigger] y[i]).role != Role::Tool by {
            assert(y[i] == c[at + i]);
        }
        lemma_without_tools_id(x);
        lemma_without_tools_id(y);
        assert(x + Seq::<MessageView>::empty() + y =~= c);
    }
}

/// An edit card reads: the intent, when the model gave one; the files it
/// touched, each in backticks; then its counts, the lines added after `+`
/// and the lines removed after `-`; then the diff, fenced.
pub proof fn an_edit_card_shows_added_then_removed(card: EditCardView)
    ensures
        edit_source_of(card) == intent_line(card.intent) + joined(
            card.files.map_values(|f: Seq<char>| backticked(f)),
            " "@,
        ) + " +"@ + decimal(card.added) + " -"@ + decimal(card.removed) + "\n```\n"@
            + trim_end_seq(card.diff) + "\n```\n"@,
{
    reveal_strlit(" ");
    reveal_strlit(" +");
    reveal_strlit(" -");
    reveal_strlit("\n```\n");
    let files = joined(card.files.map_values(|f: Seq<char>| backticked(f)), " "@);
    assert(" "@ =~= seq![' ']);
    assert(edit_source_of(card) =~= intent_line(card.intent) + files + " +"@ + decimal(card.added)
        + " -"@ + decimal(card.removed) + "\n```\n"@ + trim_end_seq(card.diff) + "\n```\n"@);
}

} // verus!
