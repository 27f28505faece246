//! What the bridge promises across calls: fresh daemon ids, replies
//! that reach the request they answer, and turns that end exactly once.
use vstd::prelude::*;
use crate::json::{JsonView, member, text_of, text_or_blank, u64_of, first_key, bool_of};
use crate::events::{ErrorCode, EventView, FrameView};
use crate::bridge::{
    BridgeView, HostView, OutView, SimpleKind, wf, request_step, event_step, tagged, api_id,
    current, reply, unsolicited, simple_index, waiting_index, model_info, u64_or_zero,
    subscribe_fields, message_fields,
};

verus! {

/// The daemon id an outbound message carries.
pub open spec fn legacy_id_of(o: OutView) -> Option<u64> {
    match o {
        OutView::Legacy(j) => u64_of(member(j, "id"@)),
        OutView::Reply(_) => None,
    }
}

/// A member list that starts with `{"type": _, "id": id}` names `id` as its
/// id, whatever follows.
proof fn lemma_tagged_id(kind: Seq<char>, id: u64, rest: Seq<(Seq<char>, JsonView)>)
    ensures
        u64_of(member(JsonView::Object(tagged(kind, id) + rest), "id"@)) == Some(id),
{
    reveal_strlit("type");
    reveal_strlit("id");
    let fs = tagged(kind, id) + rest;
    assert(fs[0].0 == "type"@);
    assert(fs[1].0 == "id"@);
    assert(first_key(fs, "id"@, 1) == Some(1int));
    assert(first_key(fs, "id"@, 0) == Some(1int));
}

/// Every message a request sends to the daemon carries a fresh id: the ids
/// run on from the last one issued, one per message in order, so none is
/// ever reused, and the counter moves past exactly those. A request that is
/// answered directly sends one reply, to the request's own id, and issues no
/// id at all.
pub proof fn daemon_ids_are_fresh(s: BridgeView, r: JsonView, h: HostView)
    requires
        s.next_legacy_id <= u64::MAX - 3,
    ensures
        request_step(s, r, h).1.len() > 0,
        forall|i: int|
            0 <= i < request_step(s, r, h).1.len() && request_step(s, r, h).1[i] is Legacy
                ==> #[trigger] legacy_id_of(request_step(s, r, h).1[i]) == Some(
                (s.next_legacy_id + 1 + i) as u64,
            ),
        forall|i: int|
            0 <= i < request_step(s, r, h).1.len() && (#[trigger] request_step(s, r, h).1[i]) is Reply
                ==> request_step(s, r, h).1[i]->Reply_0.reply_to == Some(api_id(r)),
        request_step(s, r, h).1[0] is Legacy ==> request_step(s, r, h).0.next_legacy_id
            == s.next_legacy_id + request_step(s, r, h).1.len() && forall|i: int|
            0 <= i < request_step(s, r, h).1.len() ==> (#[trigger] request_step(s, r, h).1[i]) is Legacy,
        request_step(s, r, h).1[0] is Reply ==> request_step(s, r, h).1.len() == 1
            && request_step(s, r, h).0.next_legacy_id == s.next_legacy_id,
        request_step(s, r, h).0.next_legacy_id >= s.next_legacy_id,
        forall|i: int|
            0 <= i < request_step(s, r, h).1.len() && request_step(s, r, h).1[i] is Legacy
                ==> (#[trigger] legacy_id_of(request_step(s, r, h).1[i]) matches Some(x)
                && s.next_legacy_id < x <= request_step(s, r, h).0.next_legacy_id),
        forall|i: int, k: int|
            0 <= i < k < request_step(s, r, h).1.len() && request_step(s, r, h).1[i] is Legacy
                && request_step(s, r, h).1[k] is Legacy ==> #[trigger] legacy_id_of(
                request_step(s, r, h).1[i],
            ) != #[trigger] legacy_id_of(request_step(s, r, h).1[k]),
{
    let n = s.next_legacy_id;
    let (t, o) = request_step(s, r, h);
    let req = text_or_blank(r, "req"@);
    let id = (n + 1) as u64;
    if req == "create_session"@ || req == "attach_session"@ {
        let wd = match text_of(member(r, "working_dir"@)) {
            Some(d) => Some(d),
            None => h.current_dir,
        };
        let selfdev = wd matches Some(d) && h.checkouts.contains(d);
        let target = if req == "attach_session"@ {
            text_of(member(r, "session_id"@))
        } else {
            None
        };
        let sub = subscribe_fields(id, wd, selfdev, target);
        assert(sub == tagged("subscribe"@, id) + sub.subrange(2, sub.len() as int));
        lemma_tagged_id("subscribe"@, id, sub.subrange(2, sub.len() as int));
        lemma_tagged_id("state"@, (n + 2) as u64, Seq::empty());
        assert(tagged("state"@, (n + 2) as u64) + Seq::empty() == tagged("state"@, (n + 2) as u64));
        lemma_tagged_id("get_model_catalog"@, (n + 3) as u64, Seq::empty());
        assert(tagged("get_model_catalog"@, (n + 3) as u64) + Seq::empty() == tagged(
            "get_model_catalog"@,
            (n + 3) as u64,
        ));
    } else if req == "send_message"@ {
        let m = message_fields(id, r);
        assert(m == tagged("message"@, id) + m.subrange(2, m.len() as int));
        lemma_tagged_id("message"@, id, m.subrange(2, m.len() as int));
    } else if o.len() == 1 && o[0] is Legacy {
        let j = o[0]->Legacy_0;
        let fs = j->Object_0;
        assert(fs == tagged(fs[0].1->Text_0, id) + fs.subrange(2, fs.len() as int));
        lemma_tagged_id(fs[0].1->Text_0, id, fs.subrange(2, fs.len() as int));
    }
}

/// The daemon event kinds, told apart.
pub proof fn lemma_event_names()
    ensures
        "state"@ != "session"@,
        "text_delta"@ != "session"@,
        "text_delta"@ != "state"@,
        "reasoning_delta"@ != "session"@,
        "reasoning_delta"@ != "state"@,
        "reasoning_delta"@ != "text_delta"@,
        "reasoning_done"@ != "session"@,
        "reasoning_done"@ != "state"@,
        "reasoning_done"@ != "text_delta"@,
        "reasoning_done"@ != "reasoning_delta"@,
        "tool_start"@ != "session"@,
        "tool_start"@ != "state"@,
        "tool_start"@ != "text_delta"@,
        "tool_start"@ != "reasoning_delta"@,
        "tool_start"@ != "reasoning_done"@,
        "tool_input"@ != "session"@,
        "tool_input"@ != "state"@,
        "tool_input"@ != "text_delta"@,
        "tool_input"@ != "reasoning_delta"@,
        "tool_input"@ != "reasoning_done"@,
        "tool_input"@ != "tool_start"@,
        "tool_exec"@ != "session"@,
        "tool_exec"@ != "state"@,
        "tool_exec"@ != "text_delta"@,
        "tool_exec"@ != "reasoning_delta"@,
        "tool_exec"@ != "reasoning_done"@,
        "tool_exec"@ != "tool_start"@,
        "tool_exec"@ != "tool_input"@,
        "tool_done"@ != "session"@,
        "tool_done"@ != "state"@,
        "tool_done"@ != "text_delta"@,
        "tool_done"@ != "reasoning_delta"@,
        "tool_done"@ != "reasoning_done"@,
        "tool_done"@ != "tool_start"@,
        "tool_done"@ != "tool_input"@,
        "tool_done"@ != "tool_exec"@,
        "tokens"@ != "session"@,
        "tokens"@ != "state"@,
        "tokens"@ != "text_delta"@,
        "tokens"@ != "reasoning_delta"@,
        "tokens"@ != "reasoning_done"@,
        "tokens"@ != "tool_start"@,
        "tokens"@ != "tool_input"@,
        "tokens"@ != "tool_exec"@,
        "tokens"@ != "tool_done"@,
        "done"@ != "session"@,
        "done"@ != "state"@,
        "done"@ != "text_delta"@,
        "done"@ != "reasoning_delta"@,
        "done"@ != "reasoning_done"@,
        "done"@ != "tool_start"@,
        "done"@ != "tool_input"@,
        "done"@ != "tool_exec"@,
        "done"@ != "tool_done"@,
        "done"@ != "tokens"@,
        "pong"@ != "session"@,
        "pong"@ != "state"@,
        "pong"@ != "text_delta"@,
        "pong"@ != "reasoning_delta"@,
        "pong"@ != "reasoning_done"@,
        "pong"@ != "tool_start"@,
        "pong"@ != "tool_input"@,
        "pong"@ != "tool_exec"@,
        "pong"@ != "tool_done"@,
        "pong"@ != "tokens"@,
        "pong"@ != "done"@,
        "history"@ != "session"@,
        "history"@ != "state"@,
        "history"@ != "text_delta"@,
        "history"@ != "reasoning_delta"@,
        "history"@ != "reasoning_done"@,
        "history"@ != "tool_start"@,
        "history"@ != "tool_input"@,
        "history"@ != "tool_exec"@,
        "history"@ != "tool_done"@,
        "history"@ != "tokens"@,
        "history"@ != "done"@,
        "history"@ != "pong"@,
        "model_changed"@ != "session"@,
        "model_changed"@ != "state"@,
        "model_changed"@ != "text_delta"@,
        "model_changed"@ != "reasoning_delta"@,
        "model_changed"@ != "reasoning_done"@,
        "model_changed"@ != "tool_start"@,
        "model_changed"@ != "tool_input"@,
        "model_changed"@ != "tool_exec"@,
        "model_changed"@ != "tool_done"@,
        "model_changed"@ != "tokens"@,
        "model_changed"@ != "done"@,
        "model_changed"@ != "pong"@,
        "model_changed"@ != "history"@,
        "available_models_updated"@ != "session"@,
        "available_models_updated"@ != "state"@,
        "available_models_updated"@ != "text_delta"@,
        "available_models_updated"@ != "reasoning_delta"@,
        "available_models_updated"@ != "reasoning_done"@,
        "available_models_updated"@ != "tool_start"@,
        "available_models_updated"@ != "tool_input"@,
        "available_models_updated"@ != "tool_exec"@,
        "available_models_updated"@ != "tool_done"@,
        "available_models_updated"@ != "tokens"@,
        "available_models_updated"@ != "done"@,
        "available_models_updated"@ != "pong"@,
        "available_models_updated"@ != "history"@,
        "available_models_updated"@ != "model_changed"@,
        "ack"@ != "session"@,
        "ack"@ != "state"@,
        "ack"@ != "text_delta"@,
        "ack"@ != "reasoning_delta"@,
        "ack"@ != "reasoning_done"@,
        "ack"@ != "tool_start"@,
        "ack"@ != "tool_input"@,
        "ack"@ != "tool_exec"@,
        "ack"@ != "tool_done"@,
        "ack"@ != "tokens"@,
        "ack"@ != "done"@,
        "ack"@ != "pong"@,
        "ack"@ != "history"@,
        "ack"@ != "model_changed"@,
        "ack"@ != "available_models_updated"@,
        "error"@ != "session"@,
        "error"@ != "state"@,
        "error"@ != "text_delta"@,
        "error"@ != "reasoning_delta"@,
        "error"@ != "reasoning_done"@,
        "error"@ != "tool_start"@,
        "error"@ != "tool_input"@,
        "error"@ != "tool_exec"@,
        "error"@ != "tool_done"@,
        "error"@ != "tokens"@,
        "error"@ != "done"@,
        "error"@ != "pong"@,
        "error"@ != "history"@,
        "error"@ != "model_changed"@,
        "error"@ != "available_models_updated"@,
        "error"@ != "ack"@,
{
    reveal_strlit("session");
    reveal_strlit("state");
    reveal_strlit("text_delta");
    reveal_strlit("reasoning_delta");
    reveal_strlit("reasoning_done");
    reveal_strlit("tool_start");
    reveal_strlit("tool_input");
    reveal_strlit("tool_exec");
    reveal_strlit("tool_done");
    reveal_strlit("tokens");
    reveal_strlit("done");
    reveal_strlit("pong");
    reveal_strlit("history");
    reveal_strlit("model_changed");
    reveal_strlit("available_models_updated");
    reveal_strlit("ack");
    reveal_strlit("error");
    assert("state"@.len() != "session"@.len());
    assert("text_delta"@.len() != "session"@.len());
    assert("text_delta"@.len() != "state"@.len());
    assert("reasoning_delta"@.len() != "session"@.len());
    assert("reasoning_delta"@.len() != "state"@.len());
    assert("reasoning_delta"@.len() != "text_delta"@.len());
    assert("reasoning_done"@.len() != "session"@.len());
    assert("reasoning_done"@.len() != "state"@.len());
    assert("reasoning_done"@.len() != "text_delta"@.len());
    assert("reasoning_done"@.len() != "reasoning_delta"@.len());
    assert("tool_start"@.len() != "session"@.len());
    assert("tool_start"@.len() != "state"@.len());
    assert("tool_start"@[1] != "text_delta"@[1]);
    assert("tool_start"@.len() != "reasoning_delta"@.len());
    assert("tool_start"@.len() != "reasoning_done"@.len());
    assert("tool_input"@.len() != "session"@.len());
    assert("tool_input"@.len() != "state"@.len());
    assert("tool_input"@[1] != "text_delta"@[1]);
    assert("tool_input"@.len() != "reasoning_delta"@.len());
    assert("tool_input"@.len() != "reasoning_done"@.len());
    assert("tool_input"@[5] != "tool_start"@[5]);
    assert("tool_exec"@.len() != "session"@.len());
    assert("tool_exec"@.len() != "state"@.len());
    assert("tool_exec"@.len() != "text_delta"@.len());
    assert("tool_exec"@.len() != "reasoning_delta"@.len());
    assert("tool_exec"@.len() != "reasoning_done"@.len());
    assert("tool_exec"@.len() != "tool_start"@.len());
    assert("tool_exec"@.len() != "tool_input"@.len());
    assert("tool_done"@.len() != "session"@.len());
    assert("tool_done"@.len() != "state"@.len());
    assert("tool_done"@.len() != "text_delta"@.len());
    assert("tool_done"@.len() != "reasoning_delta"@.len());
    assert("tool_done"@.len() != "reasoning_done"@.len());
    assert("tool_done"@.len() != "tool_start"@.len());
    assert("tool_done"@.len() != "tool_input"@.len());
    assert("tool_done"@[5] != "tool_exec"@[5]);
    assert("tokens"@.len() != "session"@.len());
    assert("tokens"@.len() != "state"@.len());
    assert("tokens"@.len() != "text_delta"@.len());
    assert("tokens"@.len() != "reasoning_delta"@.len());
    assert("tokens"@.len() != "reasoning_done"@.len());
    assert("tokens"@.len() != "tool_start"@.len());
    assert("tokens"@.len() != "tool_input"@.len());
    assert("tokens"@.len() != "tool_exec"@.len());
    assert("tokens"@.len() != "tool_done"@.len());
    assert("done"@.len() != "session"@.len());
    assert("done"@.len() != "state"@.len());
    assert("done"@.len() != "text_delta"@.len());
    assert("done"@.len() != "reasoning_delta"@.len());
    assert("done"@.len() != "reasoning_done"@.len());
    assert("done"@.len() != "tool_start"@.len());
    assert("done"@.len() != "tool_input"@.len());
    assert("done"@.len() != "tool_exec"@.len());
    assert("done"@.len() != "tool_done"@.len());
    assert("done"@.len() != "tokens"@.len());
    assert("pong"@.len() != "session"@.len());
    assert("pong"@.len() != "state"@.len());
    assert("pong"@.len() != "text_delta"@.len());
    assert("pong"@.len() != "reasoning_delta"@.len());
    assert("pong"@.len() != "reasoning_done"@.len());
    assert("pong"@.len() != "tool_start"@.len());
    assert("pong"@.len() != "tool_input"@.len());
    assert("pong"@.len() != "tool_exec"@.len());
    assert("pong"@.len() != "tool_done"@.len());
    assert("pong"@.len() != "tokens"@.len());
    assert("pong"@[0] != "done"@[0]);
    assert("history"@[0] != "session"@[0]);
    assert("history"@.len() != "state"@.len());
    assert("history"@.len() != "text_delta"@.len());
    assert("history"@.len() != "reasoning_delta"@.len());
    assert("history"@.len() != "reasoning_done"@.len());
    assert("history"@.len() != "tool_start"@.len());
    assert("history"@.len() != "tool_input"@.len());
    assert("history"@.len() != "tool_exec"@.len());
    assert("history"@.len() != "tool_done"@.len());
    assert("history"@.len() != "tokens"@.len());
    assert("history"@.len() != "done"@.len());
    assert("history"@.len() != "pong"@.len());
    assert("model_changed"@.len() != "session"@.len());
    assert("model_changed"@.len() != "state"@.len());
    assert("model_changed"@.len() != "text_delta"@.len());
    assert("model_changed"@.len() != "reasoning_delta"@.len());
    assert("model_changed"@.len() != "reasoning_done"@.len());
    assert("model_changed"@.len() != "tool_start"@.len());
    assert("model_changed"@.len() != "tool_input"@.len());
    assert("model_changed"@.len() != "tool_exec"@.len());
    assert("model_changed"@.len() != "tool_done"@.len());
    assert("model_changed"@.len() != "tokens"@.len());
    assert("model_changed"@.len() != "done"@.len());
    assert("model_changed"@.len() != "pong"@.len());
    assert("model_changed"@.len() != "history"@.len());
    assert("available_models_updated"@.len() != "session"@.len());
    assert("available_models_updated"@.len() != "state"@.len());
    assert("available_models_updated"@.len() != "text_delta"@.len());
    assert("available_models_updated"@.len() != "reasoning_delta"@.len());
    assert("available_models_updated"@.len() != "reasoning_done"@.len());
    assert("available_models_updated"@.len() != "tool_start"@.len());
    assert("available_models_updated"@.len() != "tool_input"@.len());
    assert("available_models_updated"@.len() != "tool_exec"@.len());
    assert("available_models_updated"@.len() != "tool_done"@.len());
    assert("available_models_updated"@.len() != "tokens"@.len());
    assert("available_models_updated"@.len() != "done"@.len());
    assert("available_models_updated"@.len() != "pong"@.len());
    assert("available_models_updated"@.len() != "history"@.len());
    assert("available_models_updated"@.len() != "model_changed"@.len());
    assert("ack"@.len() != "session"@.len());
    assert("ack"@.len() != "state"@.len());
    assert("ack"@.len() != "text_delta"@.len());
    assert("ack"@.len() != "reasoning_delta"@.len());
    assert("ack"@.len() != "reasoning_done"@.len());
    assert("ack"@.len() != "tool_start"@.len());
    assert("ack"@.len() != "tool_input"@.len());
    assert("ack"@.len() != "tool_exec"@.len());
    assert("ack"@.len() != "tool_done"@.len());
    assert("ack"@.len() != "tokens"@.len());
    assert("ack"@.len() != "done"@.len());
    assert("ack"@.len() != "pong"@.len());
    assert("ack"@.len() != "history"@.len());
    assert("ack"@.len() != "model_changed"@.len());
    assert("ack"@.len() != "available_models_updated"@.len());
    assert("error"@.len() != "session"@.len());
    assert("error"@[0] != "state"@[0]);
    assert("error"@.len() != "text_delta"@.len());
    assert("error"@.len() != "reasoning_delta"@.len());
    assert("error"@.len() != "reasoning_done"@.len());
    assert("error"@.len() != "tool_start"@.len());
    assert("error"@.len() != "tool_input"@.len());
    assert("error"@.len() != "tool_exec"@.len());
    assert("error"@.len() != "tool_done"@.len());
    assert("error"@.len() != "tokens"@.len());
    assert("error"@.len() != "done"@.len());
    assert("error"@.len() != "pong"@.len());
    assert("error"@.len() != "history"@.len());
    assert("error"@.len() != "model_changed"@.len());
    assert("error"@.len() != "available_models_updated"@.len());
    assert("error"@.len() != "ack"@.len());
}

/// The API request kinds, told apart.
pub proof fn lemma_request_kinds()
    ensures
        "attach_session"@ != "create_session"@,
        "send_message"@ != "create_session"@,
        "send_message"@ != "attach_session"@,
        "cancel"@ != "create_session"@,
        "cancel"@ != "attach_session"@,
        "cancel"@ != "send_message"@,
        "soft_interrupt"@ != "create_session"@,
        "soft_interrupt"@ != "attach_session"@,
        "soft_interrupt"@ != "send_message"@,
        "soft_interrupt"@ != "cancel"@,
        "clear"@ != "create_session"@,
        "clear"@ != "attach_session"@,
        "clear"@ != "send_message"@,
        "clear"@ != "cancel"@,
        "clear"@ != "soft_interrupt"@,
        "rewind"@ != "create_session"@,
        "rewind"@ != "attach_session"@,
        "rewind"@ != "send_message"@,
        "rewind"@ != "cancel"@,
        "rewind"@ != "soft_interrupt"@,
        "rewind"@ != "clear"@,
        "get_history"@ != "create_session"@,
        "get_history"@ != "attach_session"@,
        "get_history"@ != "send_message"@,
        "get_history"@ != "cancel"@,
        "get_history"@ != "soft_interrupt"@,
        "get_history"@ != "clear"@,
        "get_history"@ != "rewind"@,
        "peek_session"@ != "create_session"@,
        "peek_session"@ != "attach_session"@,
        "peek_session"@ != "send_message"@,
        "peek_session"@ != "cancel"@,
        "peek_session"@ != "soft_interrupt"@,
        "peek_session"@ != "clear"@,
        "peek_session"@ != "rewind"@,
        "peek_session"@ != "get_history"@,
        "ping"@ != "create_session"@,
        "ping"@ != "attach_session"@,
        "ping"@ != "send_message"@,
        "ping"@ != "cancel"@,
        "ping"@ != "soft_interrupt"@,
        "ping"@ != "clear"@,
        "ping"@ != "rewind"@,
        "ping"@ != "get_history"@,
        "ping"@ != "peek_session"@,
        "list_sessions"@ != "create_session"@,
        "list_sessions"@ != "attach_session"@,
        "list_sessions"@ != "send_message"@,
        "list_sessions"@ != "cancel"@,
        "list_sessions"@ != "soft_interrupt"@,
        "list_sessions"@ != "clear"@,
        "list_sessions"@ != "rewind"@,
        "list_sessions"@ != "get_history"@,
        "list_sessions"@ != "peek_session"@,
        "list_sessions"@ != "ping"@,
        "detach_session"@ != "create_session"@,
        "detach_session"@ != "attach_session"@,
        "detach_session"@ != "send_message"@,
        "detach_session"@ != "cancel"@,
        "detach_session"@ != "soft_interrupt"@,
        "detach_session"@ != "clear"@,
        "detach_session"@ != "rewind"@,
        "detach_session"@ != "get_history"@,
        "detach_session"@ != "peek_session"@,
        "detach_session"@ != "ping"@,
        "detach_session"@ != "list_sessions"@,
        "permission_response"@ != "create_session"@,
        "permission_response"@ != "attach_session"@,
        "permission_response"@ != "send_message"@,
        "permission_response"@ != "cancel"@,
        "permission_response"@ != "soft_interrupt"@,
        "permission_response"@ != "clear"@,
        "permission_response"@ != "rewind"@,
        "permission_response"@ != "get_history"@,
        "permission_response"@ != "peek_session"@,
        "permission_response"@ != "ping"@,
        "permission_response"@ != "list_sessions"@,
        "permission_response"@ != "detach_session"@,
{
    reveal_strlit("create_session");
    reveal_strlit("attach_session");
    reveal_strlit("send_message");
    reveal_strlit("cancel");
    reveal_strlit("soft_interrupt");
    reveal_strlit("clear");
    reveal_strlit("rewind");
    reveal_strlit("get_history");
    reveal_strlit("peek_session");
    reveal_strlit("ping");
    reveal_strlit("list_sessions");
    reveal_strlit("detach_session");
    reveal_strlit("permission_response");
    assert("attach_session"@[0] != "create_session"@[0]);
    assert("send_message"@.len() != "create_session"@.len());
    assert("send_message"@.len() != "attach_session"@.len());
    assert("cancel"@.len() != "create_session"@.len());
    assert("cancel"@.len() != "attach_session"@.len());
    assert("cancel"@.len() != "send_message"@.len());
    assert("soft_interrupt"@[0] != "create_session"@[0]);
    assert("soft_interrupt"@[0] != "attach_session"@[0]);
    assert("soft_interrupt"@.len() != "send_message"@.len());
    assert("soft_interrupt"@.len() != "cancel"@.len());
    assert("clear"@.len() != "create_session"@.len());
    assert("clear"@.len() != "attach_session"@.len());
    assert("clear"@.len() != "send_message"@.len());
    assert("clear"@.len() != "cancel"@.len());
    assert("clear"@.len() != "soft_interrupt"@.len());
    assert("rewind"@.len() != "create_session"@.len());
    assert("rewind"@.len() != "attach_session"@.len());
    assert("rewind"@.len() != "send_message"@.len());
    assert("rewind"@[0] != "cancel"@[0]);
    assert("rewind"@.len() != "soft_interrupt"@.len());
    assert("rewind"@.len() != "clear"@.len());
    assert("get_history"@.len() != "create_session"@.len());
    assert("get_history"@.len() != "attach_session"@.len());
    assert("get_history"@.len() != "send_message"@.len());
    assert("get_history"@.len() != "cancel"@.len());
    assert("get_history"@.len() != "soft_interrupt"@.len());
    assert("get_history"@.len() != "clear"@.len());
    assert("get_history"@.len() != "rewind"@.len());
    assert("peek_session"@.len() != "create_session"@.len());
    assert("peek_session"@.len() != "attach_session"@.len());
    assert("peek_session"@[0] != "send_message"@[0]);
    assert("peek_session"@.len() != "cancel"@.len());
    assert("peek_session"@.len() != "soft_interrupt"@.len());
    assert("peek_session"@.len() != "clear"@.len());
    assert("peek_session"@.len() != "rewind"@.len());
    assert("peek_session"@.len() != "get_history"@.len());
    assert("ping"@.len() != "create_session"@.len());
    assert("ping"@.len() != "attach_session"@.len());
    assert("ping"@.len() != "send_message"@.len());
    assert("ping"@.len() != "cancel"@.len());
    assert("ping"@.len() != "soft_interrupt"@.len());
    assert("ping"@.len() != "clear"@.len());
    assert("ping"@.len() != "rewind"@.len());
    assert("ping"@.len() != "get_history"@.len());
    assert("ping"@.len() != "peek_session"@.len());
    assert("list_sessions"@.len() != "create_session"@.len());
    assert("list_sessions"@.len() != "attach_session"@.len());
    assert("list_sessions"@.len() != "send_message"@.len());
    assert("list_sessions"@.len() != "cancel"@.len());
    assert("list_sessions"@.len() != "soft_interrupt"@.len());
    assert("list_sessions"@.len() != "clear"@.len());
    assert("list_sessions"@.len() != "rewind"@.len());
    assert("list_sessions"@.len() != "get_history"@.len());
    assert("list_sessions"@.len() != "peek_session"@.len());
    assert("list_sessions"@.len() != "ping"@.len());
    assert("detach_session"@[0] != "create_session"@[0]);
    assert("detach_session"@[0] != "attach_session"@[0]);
    assert("detach_session"@.len() != "send_message"@.len());
    assert("detach_session"@.len() != "cancel"@.len());
    assert("detach_session"@[0] != "soft_interrupt"@[0]);
    assert("detach_session"@.len() != "clear"@.len());
    assert("detach_session"@.len() != "rewind"@.len());
    assert("detach_session"@.len() != "get_history"@.len());
    assert("detach_session"@.len() != "peek_session"@.len());
    assert("detach_session"@.len() != "ping"@.len());
    assert("detach_session"@.len() != "list_sessions"@.len());
    assert("permission_response"@.len() != "create_session"@.len());
    assert("permission_response"@.len() != "attach_session"@.len());
    assert("permission_response"@.len() != "send_message"@.len());
    assert("permission_response"@.len() != "cancel"@.len());
    assert("permission_response"@.len() != "soft_interrupt"@.len());
    assert("permission_response"@.len() != "clear"@.len());
    assert("permission_response"@.len() != "rewind"@.len());
    assert("permission_response"@.len() != "get_history"@.len());
    assert("permission_response"@.len() != "peek_session"@.len());
    assert("permission_response"@.len() != "ping"@.len());
    assert("permission_response"@.len() != "list_sessions"@.len());
    assert("permission_response"@.len() != "detach_session"@.len());
}

/// A request waiting on a fresh id is the one a reply with that id finds.
proof fn lemma_fresh_entry_found(
    p: Seq<(u64, u64, SimpleKind)>,
    id: u64,
    api: u64,
    kind: SimpleKind,
    from: int,
)
    requires
        0 <= from <= p.len(),
        forall|j: int| 0 <= j < p.len() ==> (#[trigger] p[j]).0 < id,
    ensures
        simple_index(p.push((id, api, kind)), id, kind, from) == Some(p.len() as int),
        waiting_index(p.push((id, api, kind)), id, from) == Some(p.len() as int),
    decreases p.len() - from,
{
    let q = p.push((id, api, kind));
    if from < p.len() {
        assert(q[from] == p[from]);
        lemma_fresh_entry_found(p, id, api, kind, from + 1);
    } else {
        assert(q[from] == (id, api, kind));
    }
}

/// The turn of a sent message ends when the daemon reports `done` for the id
/// the message carried: the client hears `turn_done` for the attached
/// session, once, and the bridge stops waiting for it.
pub proof fn a_sent_message_ends_on_its_done(s: BridgeView, r: JsonView, e: JsonView, h: HostView)
    requires
        s.next_legacy_id <= u64::MAX - 3,
        text_or_blank(r, "req"@) == "send_message"@,
        text_or_blank(e, "type"@) == "done"@,
        legacy_id_of(request_step(s, r, h).1[0]) == Some(u64_or_zero(e, "id"@)),
    ensures
        event_step(request_step(s, r, h).0, e, h).1 == seq![
            unsolicited(EventView::TurnDone { session_id: current(s) }),
        ],
        event_step(request_step(s, r, h).0, e, h).0.pending_message is None,
{
    lemma_request_kinds();
    lemma_event_names();
    daemon_ids_are_fresh(s, r, h);
    let t = request_step(s, r, h).0;
    assert(t.pending_message == Some((s.next_legacy_id + 1) as u64));
    assert(legacy_id_of(request_step(s, r, h).1[0]) == Some((s.next_legacy_id + 1) as u64));
}

/// The daemon accepting the message in flight is reported as acceptance,
/// changes nothing, and leaves the turn open: its `done` still ends it.
pub proof fn an_accepted_message_still_ends_on_done(
    s: BridgeView,
    a: JsonView,
    d: JsonView,
    h: HostView,
)
    requires
        text_or_blank(a, "type"@) == "ack"@,
        text_or_blank(d, "type"@) == "done"@,
        s.pending_message == Some(u64_or_zero(a, "id"@)),
        u64_or_zero(d, "id"@) == u64_or_zero(a, "id"@),
    ensures
        event_step(s, a, h) == (s, seq![
            unsolicited(EventView::MessageAccepted { session_id: current(s) }),
        ]),
        event_step(event_step(s, a, h).0, d, h).1 == seq![
            unsolicited(EventView::TurnDone { session_id: current(s) }),
        ],
{
    lemma_event_names();
}

/// A turn that fails ends with its error, forwarded once, and a later `done`
/// carrying the same id no longer reports the turn as finished.
pub proof fn a_failed_turn_is_not_finished_twice(s: BridgeView, f: JsonView, d: JsonView, h: HostView)
    requires
        text_or_blank(f, "type"@) == "error"@,
        text_or_blank(d, "type"@) == "done"@,
        s.pending_message == Some(u64_or_zero(f, "id"@)),
        u64_or_zero(d, "id"@) == u64_or_zero(f, "id"@),
    ensures
        event_step(s, f, h).1.len() == 1,
        event_step(s, f, h).1[0].event == (EventView::Error {
            code: ErrorCode::Internal,
            message: text_or_blank(f, "message"@),
        }),
        event_step(s, f, h).0.pending_message is None,
        event_step(event_step(s, f, h).0, d, h).1 == Seq::<crate::events::FrameView>::empty(),
{
    lemma_event_names();
}

/// A `done` for anything but the message in flight (a subscribe, say) is
/// silent and changes nothing.
pub proof fn a_done_for_anything_else_is_silent(s: BridgeView, e: JsonView, h: HostView)
    requires
        text_or_blank(e, "type"@) == "done"@,
        s.pending_message != Some(u64_or_zero(e, "id"@)),
    ensures
        event_step(s, e, h) == (s, Seq::<crate::events::FrameView>::empty()),
{
    lemma_event_names();
}

/// Daemon events outside the stable API surface are dropped without a trace.
pub proof fn unknown_events_are_dropped(s: BridgeView, e: JsonView, h: HostView)
    requires
        ({
            let k = text_or_blank(e, "type"@);
            &&& k != "session"@
            &&& k != "state"@
            &&& k != "text_delta"@
            &&& k != "reasoning_delta"@
            &&& k != "reasoning_done"@
            &&& k != "tool_start"@
            &&& k != "tool_input"@
            &&& k != "tool_exec"@
            &&& k != "tool_done"@
            &&& k != "tokens"@
            &&& k != "done"@
            &&& k != "pong"@
            &&& k != "history"@
            &&& k != "model_changed"@
            &&& k != "available_models_updated"@
            &&& k != "ack"@
            &&& k != "error"@
        }),
    ensures
        event_step(s, e, h) == (s, Seq::<crate::events::FrameView>::empty()),
{
}

/// A request the API does not know is answered, to the request, with an
/// `unknown_request` error naming it, and changes nothing.
pub proof fn unknown_requests_are_refused(s: BridgeView, r: JsonView, h: HostView)
    requires
        ({
            let k = text_or_blank(r, "req"@);
            &&& k != "create_session"@
            &&& k != "attach_session"@
            &&& k != "send_message"@
            &&& k != "cancel"@
            &&& k != "soft_interrupt"@
            &&& k != "clear"@
            &&& k != "rewind"@
            &&& k != "get_history"@
            &&& k != "peek_session"@
            &&& k != "ping"@
            &&& k != "list_sessions"@
            &&& k != "detach_session"@
            &&& k != "permission_response"@
        }),
    ensures
        request_step(s, r, h) == (s, seq![
            OutView::Reply(
                reply(
                    api_id(r),
                    EventView::Error {
                        code: ErrorCode::UnknownRequest,
                        message: "unknown request: "@ + text_or_blank(r, "req"@),
                    },
                ),
            ),
        ]),
{
}

/// The id a simple request issues is the one its reply finds: the request
/// is answered, and the bridge stops waiting for it.
proof fn lemma_simple_reply_found(s: BridgeView, api: u64, kind: SimpleKind)
    requires
        wf(s),
        s.next_legacy_id < u64::MAX,
    ensures
        ({
            let id = (s.next_legacy_id + 1) as u64;
            let p = s.pending_simple.push((id, api, kind));
            &&& simple_index(p, id, kind, 0) == Some(s.pending_simple.len() as int)
            &&& waiting_index(p, id, 0) == Some(s.pending_simple.len() as int)
            &&& p.remove(s.pending_simple.len() as int) == s.pending_simple
        }),
{
    let id = (s.next_legacy_id + 1) as u64;
    let p = s.pending_simple.push((id, api, kind));
    assert forall|j: int| 0 <= j < s.pending_simple.len() implies (
    #[trigger] s.pending_simple[j]).0 < id by {
    }
    lemma_fresh_entry_found(s.pending_simple, id, api, kind, 0);
    assert(p.remove(s.pending_simple.len() as int) =~= s.pending_simple);
}

/// A ping is answered by the pong for the id it carried, as a reply to the
/// client's ping, and the bridge is left waiting for nothing more.
pub proof fn a_ping_is_answered_by_its_pong(s: BridgeView, r: JsonView, e: JsonView, h: HostView)
    requires
        wf(s),
        s.next_legacy_id <= u64::MAX - 3,
        text_or_blank(r, "req"@) == "ping"@,
        text_or_blank(e, "type"@) == "pong"@,
        legacy_id_of(request_step(s, r, h).1[0]) == Some(u64_or_zero(e, "id"@)),
    ensures
        event_step(request_step(s, r, h).0, e, h) == (
            BridgeView { next_legacy_id: request_step(s, r, h).0.next_legacy_id, ..s },
            seq![reply(api_id(r), EventView::Pong)],
        ),
{
    lemma_request_kinds();
    lemma_event_names();
    daemon_ids_are_fresh(s, r, h);
    lemma_simple_reply_found(s, api_id(r), SimpleKind::Ping);
    assert(legacy_id_of(request_step(s, r, h).1[0]) == Some((s.next_legacy_id + 1) as u64));
    assert(event_step(request_step(s, r, h).0, e, h).0 =~= (BridgeView {
        next_legacy_id: request_step(s, r, h).0.next_legacy_id,
        ..s
    }));
}

/// A request the daemon acknowledges (`cancel`, `soft_interrupt`, `clear`,
/// `rewind`) is answered by the `ack` for the id it carried, as a plain
/// success reply to that request, and the bridge stops waiting for it.
pub proof fn an_acknowledged_request_is_answered(s: BridgeView, r: JsonView, e: JsonView, h: HostView)
    requires
        wf(s),
        s.next_legacy_id <= u64::MAX - 3,
        ({
            let k = text_or_blank(r, "req"@);
            k == "cancel"@ || k == "soft_interrupt"@ || k == "clear"@ || k == "rewind"@
        }),
        text_or_blank(e, "type"@) == "ack"@,
        legacy_id_of(request_step(s, r, h).1[0]) == Some(u64_or_zero(e, "id"@)),
    ensures
        event_step(request_step(s, r, h).0, e, h) == (
            BridgeView { next_legacy_id: request_step(s, r, h).0.next_legacy_id, ..s },
            seq![reply(api_id(r), EventView::Success)],
        ),
{
    lemma_request_kinds();
    lemma_event_names();
    daemon_ids_are_fresh(s, r, h);
    lemma_simple_reply_found(s, api_id(r), SimpleKind::Ack);
    assert(legacy_id_of(request_step(s, r, h).1[0]) == Some((s.next_legacy_id + 1) as u64));
    assert(event_step(request_step(s, r, h).0, e, h).0 =~= (BridgeView {
        next_legacy_id: request_step(s, r, h).0.next_legacy_id,
        ..s
    }));
}

/// A client's `get_history` is answered by the daemon's `history` for the id
/// it carried, as a reply to that request with the messages the daemon sent.
pub proof fn a_history_request_is_answered(s: BridgeView, r: JsonView, e: JsonView, h: HostView)
    requires
        wf(s),
        s.next_legacy_id <= u64::MAX - 3,
        text_or_blank(r, "req"@) == "get_history"@,
        text_or_blank(e, "type"@) == "history"@,
        legacy_id_of(request_step(s, r, h).1[0]) == Some(u64_or_zero(e, "id"@)),
    ensures
        event_step(request_step(s, r, h).0, e, h).1 == seq![
            reply(
                api_id(r),
                EventView::History {
                    session_id: current(s),
                    messages: crate::bridge::history_lines(e),
                },
            ),
        ],
        event_step(request_step(s, r, h).0, e, h).0.pending_simple == s.pending_simple,
{
    lemma_request_kinds();
    lemma_event_names();
    daemon_ids_are_fresh(s, r, h);
    lemma_simple_reply_found(s, api_id(r), SimpleKind::History);
    assert(legacy_id_of(request_step(s, r, h).1[0]) == Some((s.next_legacy_id + 1) as u64));
}

/// A daemon error for a request in flight goes to that request, as an
/// internal error carrying the daemon's message.
pub proof fn an_error_reaches_the_request_it_answers(
    s: BridgeView,
    r: JsonView,
    e: JsonView,
    h: HostView,
)
    requires
        wf(s),
        s.next_legacy_id <= u64::MAX - 3,
        ({
            let k = text_or_blank(r, "req"@);
            k == "cancel"@ || k == "soft_interrupt"@ || k == "clear"@ || k == "rewind"@ || k
                == "get_history"@ || k == "ping"@
        }),
        text_or_blank(e, "type"@) == "error"@,
        legacy_id_of(request_step(s, r, h).1[0]) == Some(u64_or_zero(e, "id"@)),
    ensures
        event_step(request_step(s, r, h).0, e, h).1 == seq![
            reply(
                api_id(r),
                EventView::Error { code: ErrorCode::Internal, message: text_or_blank(e, "message"@) },
            ),
        ],
        event_step(request_step(s, r, h).0, e, h).0.pending_simple == s.pending_simple,
{
    lemma_request_kinds();
    lemma_event_names();
    daemon_ids_are_fresh(s, r, h);
    let t = request_step(s, r, h).0;
    lemma_simple_reply_found(s, api_id(r), t.pending_simple.last().2);
    assert(legacy_id_of(request_step(s, r, h).1[0]) == Some((s.next_legacy_id + 1) as u64));
}

/// Opening a session probes the model, and the daemon's answer to the probe
/// becomes an unsolicited model report, never a reply: the client's own
/// requests in flight are untouched by it.
pub proof fn the_model_probe_is_not_a_reply(s: BridgeView, r: JsonView, e: JsonView, h: HostView)
    requires
        wf(s),
        s.next_legacy_id <= u64::MAX - 3,
        ({
            let k = text_or_blank(r, "req"@);
            k == "create_session"@ || k == "attach_session"@
        }),
        text_or_blank(e, "type"@) == "history"@,
        legacy_id_of(request_step(s, r, h).1[2]) == Some(u64_or_zero(e, "id"@)),
    ensures
        event_step(request_step(s, r, h).0, e, h).1 == seq![unsolicited(model_info(current(s), e))],
        event_step(request_step(s, r, h).0, e, h).0.pending_simple == s.pending_simple,
        event_step(request_step(s, r, h).0, e, h).0.pending_model_probe is None,
{
    lemma_request_kinds();
    lemma_event_names();
    daemon_ids_are_fresh(s, r, h);
    let c = tagged("get_model_catalog"@, (s.next_legacy_id + 3) as u64);
    lemma_tagged_id("get_model_catalog"@, (s.next_legacy_id + 3) as u64, Seq::empty());
    assert(c + Seq::empty() == c);
    assert(legacy_id_of(request_step(s, r, h).1[2]) == Some((s.next_legacy_id + 3) as u64));
}

/// Opening a session is answered by the daemon's `state` for the chase it
/// sent: a reply to the opening request that names the session, which
/// becomes the attached one.
pub proof fn an_open_is_answered_by_its_state(s: BridgeView, r: JsonView, e: JsonView, h: HostView)
    requires
        s.next_legacy_id <= u64::MAX - 3,
        ({
            let k = text_or_blank(r, "req"@);
            k == "create_session"@ || k == "attach_session"@
        }),
        text_or_blank(e, "type"@) == "state"@,
        text_or_blank(e, "session_id"@).len() > 0,
        legacy_id_of(request_step(s, r, h).1[1]) == Some(u64_or_zero(e, "id"@)),
    ensures
        event_step(request_step(s, r, h).0, e, h).1.len() == 1,
        event_step(request_step(s, r, h).0, e, h).1[0].reply_to == Some(api_id(r)),
        event_step(request_step(s, r, h).0, e, h).1[0].event matches EventView::Attached { session }
            && session.session_id == text_or_blank(e, "session_id"@),
        event_step(request_step(s, r, h).0, e, h).0.session_id == Some(
            text_or_blank(e, "session_id"@),
        ),
        event_step(request_step(s, r, h).0, e, h).0.pending_attach is None,
{
    lemma_request_kinds();
    lemma_event_names();
    daemon_ids_are_fresh(s, r, h);
    let c = tagged("state"@, (s.next_legacy_id + 2) as u64);
    lemma_tagged_id("state"@, (s.next_legacy_id + 2) as u64, Seq::empty());
    assert(c + Seq::empty() == c);
    assert(legacy_id_of(request_step(s, r, h).1[1]) == Some((s.next_legacy_id + 2) as u64));
}

/// The request index a rewind names, as the daemon is to read it.
spec fn requested_index(r: JsonView) -> u64 {
    match u64_of(member(r, "message_index"@)) {
        Some(k) => k,
        None => 1,
    }
}

/// A rewind goes to the daemon as a single `rewind` message that carries the
/// message index the client asked for, unchanged, or the first message when
/// the request names none.
pub proof fn a_rewind_forwards_its_index(s: BridgeView, r: JsonView, h: HostView)
    requires
        text_or_blank(r, "req"@) == "rewind"@,
    ensures
        request_step(s, r, h).1.len() == 1,
        request_step(s, r, h).1[0] is Legacy,
        text_of(member(request_step(s, r, h).1[0]->Legacy_0, "type"@)) == Some("rewind"@),
        u64_of(member(r, "message_index"@)) matches Some(k) ==> u64_of(
            member(request_step(s, r, h).1[0]->Legacy_0, "message_index"@),
        ) == Some(k),
        u64_of(member(r, "message_index"@)) is None ==> u64_of(
            member(request_step(s, r, h).1[0]->Legacy_0, "message_index"@),
        ) == Some(1u64),
{
    lemma_request_kinds();
    reveal_strlit("type");
    reveal_strlit("id");
    reveal_strlit("message_index");
    let id = (s.next_legacy_id + 1) as u64;
    let v = JsonView::Number(crate::json::NumberView::Unsigned(requested_index(r)));
    let fs = tagged("rewind"@, id).push(("message_index"@, v));
    assert(fs[0].0 == "type"@);
    assert(fs[1].0 == "id"@);
    assert(fs[2].0 == "message_index"@);
    assert("message_index"@ != "type"@);
    assert("message_index"@ != "id"@);
    assert(first_key(fs, "type"@, 0) == Some(0int));
    assert(first_key(fs, "message_index"@, 2) == Some(2int));
    assert(first_key(fs, "message_index"@, 1) == Some(2int));
    assert(first_key(fs, "message_index"@, 0) == Some(2int));
    assert(request_step(s, r, h).1 == seq![OutView::Legacy(JsonView::Object(fs))]);
}

/// Whether a frame streams answer text.
pub open spec fn streams_text(f: FrameView) -> bool {
    f.event is TextDelta
}

/// Whether a frame streams reasoning.
pub open spec fn streams_reasoning(f: FrameView) -> bool {
    f.event is ReasoningDelta
}

/// Streamed answer text and streamed reasoning keep their kinds on the way
/// to the client: a daemon `text_delta` becomes exactly one text delta and a
/// `reasoning_delta` exactly one reasoning delta, each carrying the event's
/// text for the attached session, unsolicited, with the bridge unchanged;
/// and no other daemon event produces either.
pub proof fn streamed_deltas_keep_their_kind(s: BridgeView, e: JsonView, h: HostView)
    ensures
        ({
            let kind = text_or_blank(e, "type"@);
            let (t, out) = event_step(s, e, h);
            &&& (kind == "text_delta"@ ==> t == s && out == seq![
                unsolicited(
                    EventView::TextDelta { session_id: current(s), text: text_or_blank(e, "text"@) },
                ),
            ])
            &&& (kind == "reasoning_delta"@ ==> t == s && out == seq![
                unsolicited(
                    EventView::ReasoningDelta {
                        session_id: current(s),
                        text: text_or_blank(e, "text"@),
                    },
                ),
            ])
            &&& (kind != "text_delta"@ ==> forall|i: int|
                0 <= i < out.len() ==> !streams_text(#[trigger] out[i]))
            &&& (kind != "reasoning_delta"@ ==> forall|i: int|
                0 <= i < out.len() ==> !streams_reasoning(#[trigger] out[i]))
        }),
{
    lemma_event_names();
}

/// The member named `key` of an object is the first field with that name.
proof fn lemma_member_at(fs: Seq<(Seq<char>, JsonView)>, key: Seq<char>, i: int)
    requires
        0 <= i < fs.len(),
        fs[i].0 == key,
        forall|j: int| 0 <= j < i ==> (#[trigger] fs[j]).0 != key,
    ensures
        member(JsonView::Object(fs), key) == fs[i].1,
{
    lemma_first_key_from(fs, key, i, i);
}

/// Searching from any field at or above `i` finds the field at `i` first.
proof fn lemma_first_key_from(fs: Seq<(Seq<char>, JsonView)>, key: Seq<char>, i: int, k: int)
    requires
        0 <= k <= i < fs.len(),
        fs[i].0 == key,
        forall|j: int| 0 <= j < i ==> (#[trigger] fs[j]).0 != key,
    ensures
        first_key(fs, key, i - k) == Some(i),
    decreases k,
{
    if k > 0 {
        lemma_first_key_from(fs, key, i, k - 1);
        assert(fs[i - k].0 != key);
    }
}

/// What a request asks of the daemon reaches it as asked: a message goes as
/// a `message` carrying the client's text; a soft interrupt as a
/// `soft_interrupt` carrying the text and whether it is urgent (not, unless
/// the request says so); cancel, clear, history and ping each as a message of
/// their own kind. Each is a single message to the daemon.
pub proof fn requests_reach_the_daemon_as_asked(s: BridgeView, r: JsonView, h: HostView)
    ensures
        ({
            let kind = text_or_blank(r, "req"@);
            let out = request_step(s, r, h).1;
            let sent = out[0]->Legacy_0;
            &&& (kind == "send_message"@ ==> out.len() == 1 && out[0] is Legacy && text_of(
                member(sent, "type"@),
            ) == Some("message"@) && text_of(member(sent, "content"@)) == Some(
                text_or_blank(r, "content"@),
            ))
            &&& (kind == "soft_interrupt"@ ==> out.len() == 1 && out[0] is Legacy && text_of(
                member(sent, "type"@),
            ) == Some("soft_interrupt"@) && text_of(member(sent, "content"@)) == Some(
                text_or_blank(r, "content"@),
            ) && bool_of(member(sent, "urgent"@)) == Some(bool_of(member(r, "urgent"@)) == Some(true)))
            &&& (kind == "cancel"@ || kind == "clear"@ || kind == "get_history"@ || kind == "ping"@
                ==> out.len() == 1 && out[0] is Legacy && text_of(member(sent, "type"@)) == Some(
                kind,
            ))
        }),
{
    lemma_request_kinds();
    reveal_strlit("type");
    reveal_strlit("id");
    reveal_strlit("content");
    reveal_strlit("urgent");
    reveal_strlit("images");
    let kind = text_or_blank(r, "req"@);
    let id = (s.next_legacy_id + 1) as u64;
    let out = request_step(s, r, h).1;
    if kind == "send_message"@ {
        let fs = crate::bridge::message_fields(id, r);
        assert(out == seq![OutView::Legacy(JsonView::Object(fs))]);
        assert(fs[0].0 == "type"@);
        assert(fs[1].0 == "id"@);
        assert(fs[2].0 == "content"@);
        lemma_member_at(fs, "type"@, 0);
        lemma_member_at(fs, "content"@, 2);
    } else if kind == "soft_interrupt"@ {
        let fs = out[0]->Legacy_0->Object_0;
        assert(fs[0].0 == "type"@);
        assert(fs[1].0 == "id"@);
        assert(fs[2].0 == "content"@);
        assert(fs[3].0 == "urgent"@);
        lemma_member_at(fs, "type"@, 0);
        lemma_member_at(fs, "content"@, 2);
        lemma_member_at(fs, "urgent"@, 3);
    } else if kind == "cancel"@ || kind == "clear"@ || kind == "get_history"@ || kind == "ping"@ {
        let fs = out[0]->Legacy_0->Object_0;
        assert(fs[0].0 == "type"@);
        lemma_member_at(fs, "type"@, 0);
    }
}

/// A daemon tool event reaches the client as the tool event of the same
/// stage, unsolicited and alone, naming the call by the event's `id` and the
/// tool by its `name`: `tool_start` as a start, `tool_exec` as an execution,
/// `tool_done` as a completion carrying the tool's output and any error; and
/// streamed tool arguments as an argument delta carrying the event's
/// `delta`.
pub proof fn tool_events_keep_their_stage(s: BridgeView, e: JsonView, h: HostView)
    ensures
        ({
            let kind = text_or_blank(e, "type"@);
            let out = event_step(s, e, h).1;
            let call = text_or_blank(e, "id"@);
            let name = text_or_blank(e, "name"@);
            &&& (kind == "tool_start"@ ==> out.len() == 1 && out[0].reply_to is None
                && (out[0].event matches EventView::ToolStart { call_id, name: n, .. } && call_id
                == call && n == name))
            &&& (kind == "tool_exec"@ ==> out.len() == 1 && out[0].reply_to is None
                && (out[0].event matches EventView::ToolExec { call_id, name: n, .. } && call_id
                == call && n == name))
            &&& (kind == "tool_done"@ ==> out.len() == 1 && out[0].reply_to is None
                && (out[0].event matches EventView::ToolDone { call_id, name: n, output, error, .. }
                && call_id == call && n == name && output == text_or_blank(e, "output"@) && error
                == text_of(member(e, "error"@))))
            &&& (kind == "tool_input"@ ==> out.len() == 1 && out[0].reply_to is None
                && (out[0].event matches EventView::ToolInputDelta { delta, .. } && delta
                == text_or_blank(e, "delta"@)))
        }),
{
    lemma_event_names();
}

} // verus!
