use jcode_desktop2::bridge::{BridgeState, Host, Outbound, StoredSession, flatten_content, stored_tail};
use jcode_desktop2::events::{ApiEvent, ErrorCode};
use jcode_desktop2::json::{Json, Number, get, text_at, u64_at};

fn obj(fields: Vec<(&str, Json)>) -> Json {
    Json::Object(fields.into_iter().map(|(k, v)| (k.to_string(), v)).collect())
}

fn s(text: &str) -> Json {
    Json::Text(text.to_string())
}

fn n(value: u64) -> Json {
    Json::Number(Number::Unsigned(value))
}

fn host() -> Host {
    Host { current_dir: Some("/home/user/project".to_string()), checkouts: vec![], stored: vec![] }
}

fn state_with_session() -> BridgeState {
    let mut state = BridgeState::default();
    state.session_id = Some("s1".into());
    state
}

fn legacy(out: &Outbound) -> &Json {
    match out {
        Outbound::Legacy(value) => value,
        Outbound::Reply(_) => panic!("expected legacy outbound"),
    }
}

#[test]
fn create_session_maps_to_subscribe() {
    let mut state = BridgeState::default();
    let out = state.api_request_to_legacy(&obj(vec![("req", s("create_session")), ("id", n(1))]), &host());
    let value = legacy(&out[0]);
    assert_eq!(text_at(value, "type").as_deref(), Some("subscribe"));
    assert!(matches!(get(value, "working_dir"), Some(Json::Text(_))));
}

#[test]
fn state_event_answers_pending_attach() {
    let mut state = BridgeState::default();
    let out = state.api_request_to_legacy(&obj(vec![("req", s("create_session")), ("id", n(5))]), &host());
    assert_eq!(out.len(), 3, "subscribe + state chase + model catalog probe");
    let state_req = legacy(&out[1]);
    assert_eq!(text_at(state_req, "type").as_deref(), Some("state"));
    let state_id = u64_at(state_req, "id").unwrap();

    // A subscribe `done` must not leak a turn_done.
    let done = state.legacy_event_to_api(&obj(vec![("type", s("done")), ("id", n(1))]), &host());
    assert!(done.is_empty());

    let frames = state.legacy_event_to_api(
        &obj(vec![
            ("type", s("state")),
            ("id", n(state_id)),
            ("session_id", s("abc")),
            ("message_count", n(0)),
            ("is_processing", Json::Bool(false)),
        ]),
        &host(),
    );
    assert_eq!(frames.len(), 1);
    assert_eq!(frames[0].reply_to, Some(5));
    match &frames[0].event {
        ApiEvent::Attached { session } => assert_eq!(session.session_id, "abc"),
        other => panic!("unexpected: {other:?}"),
    }
    assert_eq!(state.session_id.as_deref(), Some("abc"));
}

#[test]
fn send_message_then_done_becomes_turn_done() {
    let mut state = state_with_session();
    let out = state.api_request_to_legacy(
        &obj(vec![("req", s("send_message")), ("id", n(2)), ("session_id", s("s1")), ("content", s("hi"))]),
        &host(),
    );
    let message = legacy(&out[0]);
    assert_eq!(text_at(message, "type").as_deref(), Some("message"));
    let legacy_id = u64_at(message, "id").unwrap();

    let deltas = state.legacy_event_to_api(&obj(vec![("type", s("text_delta")), ("text", s("yo"))]), &host());
    assert!(matches!(
        &deltas[0].event,
        ApiEvent::TextDelta { session_id, text } if session_id == "s1" && text == "yo"
    ));

    let done = state.legacy_event_to_api(&obj(vec![("type", s("done")), ("id", n(legacy_id))]), &host());
    assert!(matches!(
        &done[0].event,
        ApiEvent::TurnDone { session_id } if session_id == "s1"
    ));
}

#[test]
fn acking_the_pending_message_reports_acceptance() {
    let mut state = state_with_session();
    let out = state.api_request_to_legacy(
        &obj(vec![("req", s("send_message")), ("id", n(2)), ("session_id", s("s1")), ("content", s("hi"))]),
        &host(),
    );
    let legacy_id = u64_at(legacy(&out[0]), "id").unwrap();

    let accepted = state.legacy_event_to_api(&obj(vec![("type", s("ack")), ("id", n(legacy_id))]), &host());
    assert!(matches!(
        &accepted[0].event,
        ApiEvent::MessageAccepted { session_id } if session_id == "s1"
    ));
    let done = state.legacy_event_to_api(&obj(vec![("type", s("done")), ("id", n(legacy_id))]), &host());
    assert!(matches!(&done[0].event, ApiEvent::TurnDone { .. }));
}

#[test]
fn acking_an_unrelated_request_stays_a_reply() {
    let mut state = state_with_session();
    let out = state.api_request_to_legacy(
        &obj(vec![("req", s("clear")), ("id", n(9)), ("session_id", s("s1"))]),
        &host(),
    );
    let legacy_id = u64_at(legacy(&out[0]), "id").unwrap();
    let frames = state.legacy_event_to_api(&obj(vec![("type", s("ack")), ("id", n(legacy_id))]), &host());
    assert_eq!(frames[0].reply_to, Some(9));
    assert!(matches!(&frames[0].event, ApiEvent::Success));
}

#[test]
fn ping_pong_roundtrip() {
    let mut state = state_with_session();
    let out = state.api_request_to_legacy(&obj(vec![("req", s("ping")), ("id", n(9))]), &host());
    let legacy_id = u64_at(legacy(&out[0]), "id").unwrap();
    let frames = state.legacy_event_to_api(&obj(vec![("type", s("pong")), ("id", n(legacy_id))]), &host());
    assert_eq!(frames[0].reply_to, Some(9));
    assert!(matches!(frames[0].event, ApiEvent::Pong));
}

#[test]
fn history_reply_is_mapped() {
    let mut state = state_with_session();
    let out = state.api_request_to_legacy(&obj(vec![("req", s("get_history")), ("id", n(4))]), &host());
    let legacy_id = u64_at(legacy(&out[0]), "id").unwrap();
    let frames = state.legacy_event_to_api(
        &obj(vec![
            ("type", s("history")),
            ("id", n(legacy_id)),
            ("session_id", s("s1")),
            ("messages", Json::Array(vec![obj(vec![("role", s("user")), ("content", s("hi"))])])),
        ]),
        &host(),
    );
    match &frames[0].event {
        ApiEvent::History { messages, .. } => {
            assert_eq!(messages.len(), 1);
            assert_eq!(messages[0].role, "user");
        }
        other => panic!("unexpected: {other:?}"),
    }
}

#[test]
fn unknown_legacy_events_are_dropped() {
    let mut state = state_with_session();
    let frames = state.legacy_event_to_api(&obj(vec![("type", s("swarm_event")), ("data", obj(vec![]))]), &host());
    assert!(frames.is_empty());
}

#[test]
fn unknown_api_request_gets_error_reply() {
    let mut state = BridgeState::default();
    let out = state.api_request_to_legacy(&obj(vec![("req", s("frobnicate")), ("id", n(3))]), &host());
    let Outbound::Reply(frame) = &out[0] else {
        panic!("expected direct reply");
    };
    assert_eq!(frame.reply_to, Some(3));
    assert!(matches!(frame.event, ApiEvent::Error { code: ErrorCode::UnknownRequest, .. }));
}

#[test]
fn error_routes_to_pending_request() {
    let mut state = state_with_session();
    let out = state.api_request_to_legacy(&obj(vec![("req", s("clear")), ("id", n(7))]), &host());
    let legacy_id = u64_at(legacy(&out[0]), "id").unwrap();
    let frames = state.legacy_event_to_api(
        &obj(vec![("type", s("error")), ("id", n(legacy_id)), ("message", s("nope"))]),
        &host(),
    );
    assert_eq!(frames[0].reply_to, Some(7));
}

#[test]
fn attaching_probes_and_reports_the_model() {
    let mut state = BridgeState::default();
    let out = state.api_request_to_legacy(&obj(vec![("req", s("create_session")), ("id", n(7))]), &host());
    let catalog = legacy(&out[2]);
    assert_eq!(text_at(catalog, "type").as_deref(), Some("get_model_catalog"));
    let catalog_id = u64_at(catalog, "id").unwrap();

    let frames = state.legacy_event_to_api(
        &obj(vec![
            ("type", s("history")),
            ("id", n(catalog_id)),
            ("messages", Json::Array(vec![])),
            ("provider_name", s("anthropic")),
            ("provider_model", s("frontier-large-4-5")),
        ]),
        &host(),
    );
    assert_eq!(frames.len(), 1);
    assert_eq!(frames[0].reply_to, None, "the probe was not client-initiated");
    match &frames[0].event {
        ApiEvent::ModelInfo { provider, model, .. } => {
            assert_eq!(provider.as_deref(), Some("anthropic"));
            assert_eq!(model.as_deref(), Some("frontier-large-4-5"));
        }
        other => panic!("unexpected: {other:?}"),
    }
}

#[test]
fn a_client_history_request_is_untouched_by_the_probe() {
    let mut state = BridgeState::default();
    let out = state.api_request_to_legacy(&obj(vec![("req", s("create_session")), ("id", n(1))]), &host());
    let catalog_id = u64_at(legacy(&out[2]), "id").unwrap();
    state.legacy_event_to_api(
        &obj(vec![("type", s("history")), ("id", n(catalog_id)), ("messages", Json::Array(vec![]))]),
        &host(),
    );

    let out = state.api_request_to_legacy(&obj(vec![("req", s("get_history")), ("id", n(9))]), &host());
    let history_id = u64_at(legacy(&out[0]), "id").unwrap();
    let frames = state.legacy_event_to_api(
        &obj(vec![
            ("type", s("history")),
            ("id", n(history_id)),
            ("messages", Json::Array(vec![obj(vec![("role", s("user")), ("content", s("hi"))])])),
        ]),
        &host(),
    );
    assert_eq!(frames[0].reply_to, Some(9));
    assert!(matches!(frames[0].event, ApiEvent::History { .. }));
}

#[test]
fn a_model_change_is_forwarded() {
    let mut state = state_with_session();
    let frames = state.legacy_event_to_api(
        &obj(vec![
            ("type", s("model_changed")),
            ("id", n(3)),
            ("model", s("gpt-5.6")),
            ("provider_name", s("openai")),
        ]),
        &host(),
    );
    match &frames[0].event {
        ApiEvent::ModelInfo { provider, model, .. } => {
            assert_eq!(provider.as_deref(), Some("openai"));
            assert_eq!(model.as_deref(), Some("gpt-5.6"));
        }
        other => panic!("unexpected: {other:?}"),
    }
}

#[test]
fn a_failed_model_change_is_not_reported() {
    let mut state = state_with_session();
    let frames = state.legacy_event_to_api(
        &obj(vec![
            ("type", s("model_changed")),
            ("id", n(3)),
            ("model", s("nope")),
            ("error", s("no such model")),
        ]),
        &host(),
    );
    assert!(frames.is_empty());
}

#[test]
fn an_available_models_push_updates_the_model() {
    let mut state = state_with_session();
    let frames = state.legacy_event_to_api(
        &obj(vec![
            ("type", s("available_models_updated")),
            ("provider_name", s("anthropic")),
            ("provider_model", s("frontier-max-4-5")),
            ("available_models", Json::Array(vec![s("frontier-max-4-5")])),
        ]),
        &host(),
    );
    match &frames[0].event {
        ApiEvent::ModelInfo { session_id, model, .. } => {
            assert_eq!(session_id, "s1");
            assert_eq!(model.as_deref(), Some("frontier-max-4-5"));
        }
        other => panic!("unexpected: {other:?}"),
    }
}

#[test]
fn create_session_in_a_jcode_checkout_requests_selfdev() {
    // The machine reports the desktop crate's directory as inside a checkout.
    let repo = "/src/jcode/crates/jcode-desktop2".to_string();
    let host = Host { current_dir: None, checkouts: vec![repo.clone()], stored: vec![] };
    let mut state = BridgeState::default();
    let out = state.api_request_to_legacy(
        &obj(vec![("req", s("create_session")), ("id", n(1)), ("working_dir", Json::Text(repo))]),
        &host,
    );
    let value = legacy(&out[0]);
    assert!(matches!(get(value, "selfdev"), Some(Json::Bool(true))));
}

#[test]
fn create_session_outside_a_checkout_leaves_selfdev_unset() {
    let mut state = BridgeState::default();
    let out = state.api_request_to_legacy(
        &obj(vec![("req", s("create_session")), ("id", n(1)), ("working_dir", s("/"))]),
        &host(),
    );
    let value = legacy(&out[0]);
    assert!(get(value, "selfdev").is_none(), "got {value:?}");
}

#[test]
fn a_failed_turn_clears_the_pending_message() {
    let mut state = state_with_session();
    let out = state.api_request_to_legacy(
        &obj(vec![("req", s("send_message")), ("id", n(11)), ("content", s("hi"))]),
        &host(),
    );
    let legacy_id = u64_at(legacy(&out[0]), "id").expect("a legacy id");

    let frames = state.legacy_event_to_api(
        &obj(vec![("type", s("error")), ("id", n(legacy_id)), ("message", s("dns error"))]),
        &host(),
    );
    assert!(
        frames.iter().any(|frame| matches!(frame.event, ApiEvent::Error { .. })),
        "the failure was not forwarded"
    );

    let frames = state.legacy_event_to_api(&obj(vec![("type", s("done")), ("id", n(legacy_id))]), &host());
    assert!(
        !frames.iter().any(|frame| matches!(frame.event, ApiEvent::TurnDone { .. })),
        "a failed turn reported a second, phantom completion"
    );
}

// --- further cases ---

#[test]
fn issued_ids_only_grow() {
    let mut state = BridgeState::default();
    let first = state.api_request_to_legacy(&obj(vec![("req", s("create_session")), ("id", n(1))]), &host());
    let ids: Vec<u64> = first.iter().map(|o| u64_at(legacy(o), "id").unwrap()).collect();
    assert_eq!(ids, vec![1, 2, 3]);
    let next = state.api_request_to_legacy(&obj(vec![("req", s("ping")), ("id", n(2))]), &host());
    assert_eq!(u64_at(legacy(&next[0]), "id"), Some(4));
}

#[test]
fn attach_names_its_target_and_create_does_not() {
    let mut state = BridgeState::default();
    let out = state.api_request_to_legacy(
        &obj(vec![("req", s("attach_session")), ("id", n(1)), ("session_id", s("older"))]),
        &host(),
    );
    assert_eq!(text_at(legacy(&out[0]), "target_session_id").as_deref(), Some("older"));
    assert_eq!(text_at(legacy(&out[0]), "working_dir").as_deref(), Some("/home/user/project"));
    let mut state = BridgeState::default();
    let out = state.api_request_to_legacy(
        &obj(vec![("req", s("create_session")), ("id", n(1)), ("session_id", s("older"))]),
        &host(),
    );
    assert!(get(legacy(&out[0]), "target_session_id").is_none());
}

#[test]
fn a_missing_working_dir_is_sent_as_null() {
    let mut state = BridgeState::default();
    let bare = Host { current_dir: None, checkouts: vec![], stored: vec![] };
    let out = state.api_request_to_legacy(&obj(vec![("req", s("create_session")), ("id", n(1))]), &bare);
    assert!(matches!(get(legacy(&out[0]), "working_dir"), Some(Json::Null)));
}

#[test]
fn images_ride_along_only_when_there_are_some() {
    let mut state = state_with_session();
    let out = state.api_request_to_legacy(
        &obj(vec![("req", s("send_message")), ("content", s("look")), ("images", Json::Array(vec![s("a.png")]))]),
        &host(),
    );
    assert!(matches!(get(legacy(&out[0]), "images"), Some(Json::Array(items)) if items.len() == 1));
    let out = state.api_request_to_legacy(
        &obj(vec![("req", s("send_message")), ("content", s("look")), ("images", Json::Array(vec![]))]),
        &host(),
    );
    assert!(get(legacy(&out[0]), "images").is_none());
}

#[test]
fn soft_interrupt_and_rewind_carry_their_defaults() {
    let mut state = state_with_session();
    let out = state.api_request_to_legacy(&obj(vec![("req", s("soft_interrupt"))]), &host());
    let value = legacy(&out[0]);
    assert_eq!(text_at(value, "content").as_deref(), Some(""));
    assert!(matches!(get(value, "urgent"), Some(Json::Bool(false))));
    let out = state.api_request_to_legacy(&obj(vec![("req", s("rewind"))]), &host());
    assert_eq!(u64_at(legacy(&out[0]), "message_index"), Some(1));
}

#[test]
fn detach_and_permission_are_answered_directly() {
    let mut state = state_with_session();
    let out = state.api_request_to_legacy(&obj(vec![("req", s("detach_session")), ("id", n(4))]), &host());
    assert!(matches!(&out[0], Outbound::Reply(f) if f.reply_to == Some(4) && matches!(f.event, ApiEvent::Success)));
    let out = state.api_request_to_legacy(&obj(vec![("req", s("permission_response")), ("id", n(5))]), &host());
    match &out[0] {
        Outbound::Reply(f) => match &f.event {
            ApiEvent::Error { code, message } => {
                assert_eq!(*code, ErrorCode::InvalidRequest);
                assert_eq!(message, "permission_response not yet supported by bridge");
            }
            other => panic!("unexpected: {other:?}"),
        },
        Outbound::Legacy(_) => panic!("expected a reply"),
    }
}

#[test]
fn an_unknown_request_is_named_in_its_error() {
    let mut state = BridgeState::default();
    let out = state.api_request_to_legacy(&obj(vec![("req", s("frobnicate")), ("id", n(3))]), &host());
    match &out[0] {
        Outbound::Reply(f) => match &f.event {
            ApiEvent::Error { message, .. } => assert_eq!(message, "unknown request: frobnicate"),
            other => panic!("unexpected: {other:?}"),
        },
        Outbound::Legacy(_) => panic!("expected a reply"),
    }
}

#[test]
fn list_sessions_reports_known_sessions_with_their_directories() {
    let mut state = state_with_session();
    state.legacy_event_to_api(
        &obj(vec![
            ("type", s("history")),
            ("id", n(77)),
            ("all_sessions", Json::Array(vec![s("s0"), n(5), s("s1")])),
            ("session_id", s("s0")),
            ("working_dir", s("/work/zero")),
        ]),
        &host(),
    );
    let host = Host {
        current_dir: None,
        checkouts: vec![],
        stored: vec![StoredSession {
            session_id: "s1".into(),
            bytes: Some(2048),
            record: Some(obj(vec![("working_dir", s("/work/one"))])),
        }],
    };
    let out = state.api_request_to_legacy(&obj(vec![("req", s("list_sessions")), ("id", n(8))]), &host);
    let Outbound::Reply(frame) = &out[0] else { panic!("expected a reply") };
    assert_eq!(frame.reply_to, Some(8));
    match &frame.event {
        ApiEvent::Sessions { sessions } => {
            assert_eq!(sessions.len(), 2);
            assert_eq!(sessions[0].session_id, "s0");
            assert_eq!(sessions[0].working_dir.as_deref(), Some("/work/zero"));
            assert_eq!(sessions[0].status, "idle");
            assert_eq!(sessions[0].transcript_bytes, None);
            assert_eq!(sessions[1].session_id, "s1");
            assert_eq!(sessions[1].working_dir.as_deref(), Some("/work/one"));
            assert_eq!(sessions[1].status, "attached");
            assert_eq!(sessions[1].transcript_bytes, Some(2048));
        }
        other => panic!("unexpected: {other:?}"),
    }
}

#[test]
fn the_attached_session_is_listed_even_when_unreported() {
    let mut state = state_with_session();
    let out = state.api_request_to_legacy(&obj(vec![("req", s("list_sessions"))]), &host());
    let Outbound::Reply(frame) = &out[0] else { panic!("expected a reply") };
    match &frame.event {
        ApiEvent::Sessions { sessions } => {
            assert_eq!(sessions.len(), 1);
            assert_eq!(sessions[0].session_id, "s1");
            assert_eq!(sessions[0].status, "attached");
        }
        other => panic!("unexpected: {other:?}"),
    }
}

fn stored_record() -> Json {
    obj(vec![(
        "messages",
        Json::Array(vec![
            obj(vec![("role", s("user")), ("content", s("first question"))]),
            obj(vec![("role", s("tool")), ("content", s("tool noise"))]),
            obj(vec![
                ("role", s("assistant")),
                ("content", Json::Array(vec![obj(vec![("text", s("part one, "))]), obj(vec![("kind", s("image"))]), obj(vec![("text", s("part two"))])])),
            ]),
            obj(vec![("role", s("user")), ("content", s("   "))]),
            obj(vec![("role", s("user")), ("content", s("last question"))]),
        ]),
    )])
}

#[test]
fn content_blocks_flatten_to_their_text() {
    let blocks = Json::Array(vec![obj(vec![("text", s("a"))]), obj(vec![("image", s("x"))]), obj(vec![("text", s("b"))])]);
    assert_eq!(flatten_content(&blocks), "ab");
    assert_eq!(flatten_content(&s("plain")), "plain");
    assert_eq!(flatten_content(&n(3)), "");
}

#[test]
fn a_stored_tail_keeps_the_last_conversation_lines() {
    let record = stored_record();
    let all = stored_tail(Some(&record), 12);
    let lines: Vec<(&str, &str)> = all.iter().map(|m| (m.role.as_str(), m.content.as_str())).collect();
    assert_eq!(
        lines,
        vec![("user", "first question"), ("assistant", "part one, part two"), ("user", "last question")]
    );
    let tail = stored_tail(Some(&record), 2);
    assert_eq!(tail.len(), 2);
    assert_eq!(tail[0].content, "part one, part two");
    assert_eq!(tail[1].content, "last question");
    assert!(stored_tail(None, 5).is_empty());
    assert!(stored_tail(Some(&record), 0).is_empty());
}

#[test]
fn peek_answers_from_the_stored_record() {
    let mut state = BridgeState::default();
    let host = Host {
        current_dir: None,
        checkouts: vec![],
        stored: vec![StoredSession { session_id: "old".into(), bytes: None, record: Some(stored_record()) }],
    };
    let out = state.api_request_to_legacy(
        &obj(vec![("req", s("peek_session")), ("id", n(6)), ("session_id", s("old")), ("limit", n(1))]),
        &host,
    );
    let Outbound::Reply(frame) = &out[0] else { panic!("expected a reply") };
    assert_eq!(frame.reply_to, Some(6));
    match &frame.event {
        ApiEvent::History { session_id, messages } => {
            assert_eq!(session_id, "old");
            assert_eq!(messages.len(), 1);
            assert_eq!(messages[0].content, "last question");
        }
        other => panic!("unexpected: {other:?}"),
    }
}

#[test]
fn streaming_events_carry_the_attached_session() {
    let mut state = state_with_session();
    let frames = state.legacy_event_to_api(
        &obj(vec![("type", s("tool_done")), ("id", s("c1")), ("name", s("bash")), ("output", s("ok")), ("error", s("exit 1"))]),
        &host(),
    );
    match &frames[0].event {
        ApiEvent::ToolDone { session_id, call_id, name, output, error } => {
            assert_eq!(session_id, "s1");
            assert_eq!(call_id, "c1");
            assert_eq!(name, "bash");
            assert_eq!(output, "ok");
            assert_eq!(error.as_deref(), Some("exit 1"));
        }
        other => panic!("unexpected: {other:?}"),
    }
    let frames = state.legacy_event_to_api(
        &obj(vec![("type", s("tokens")), ("input", n(10)), ("cache_read_input", n(4))]),
        &host(),
    );
    match &frames[0].event {
        ApiEvent::TokenUsage { input, output, cache_read_input, .. } => {
            assert_eq!((*input, *output, *cache_read_input), (10, 0, Some(4)));
        }
        other => panic!("unexpected: {other:?}"),
    }
    let frames = state.legacy_event_to_api(&obj(vec![("type", s("tool_input")), ("delta", s("{\"a\""))]), &host());
    assert!(matches!(&frames[0].event, ApiEvent::ToolInputDelta { call_id, delta, .. } if call_id.is_empty() && delta == "{\"a\""));
}

#[test]
fn a_session_event_attaches_it() {
    let mut state = BridgeState::default();
    let frames = state.legacy_event_to_api(&obj(vec![("type", s("session")), ("session_id", s("new"))]), &host());
    assert_eq!(state.session_id.as_deref(), Some("new"));
    assert!(matches!(&frames[0].event, ApiEvent::SessionStatus { session_id, status } if session_id == "new" && status == "attached"));
}

#[test]
fn an_unmatched_error_is_streamed() {
    let mut state = state_with_session();
    let frames = state.legacy_event_to_api(&obj(vec![("type", s("error")), ("id", n(99)), ("message", s("boom"))]), &host());
    assert_eq!(frames[0].reply_to, None);
    assert!(matches!(&frames[0].event, ApiEvent::Error { code: ErrorCode::Internal, message } if message == "boom"));
}

#[test]
fn daemon_ids_run_on_across_requests_and_replies_take_none() {
    let mut state = state_with_session();
    let out = state.api_request_to_legacy(&obj(vec![("req", s("clear")), ("id", n(1))]), &host());
    assert_eq!(u64_at(legacy(&out[0]), "id"), Some(1));
    let out = state.api_request_to_legacy(&obj(vec![("req", s("detach_session")), ("id", n(2))]), &host());
    assert!(matches!(&out[0], Outbound::Reply(f) if f.reply_to == Some(2)));
    let out = state.api_request_to_legacy(&obj(vec![("req", s("attach_session")), ("id", n(3)), ("session_id", s("x"))]), &host());
    let ids: Vec<u64> = out.iter().map(|o| u64_at(legacy(o), "id").unwrap()).collect();
    assert_eq!(ids, vec![2, 3, 4]);
    let out = state.api_request_to_legacy(&obj(vec![("req", s("nope"))]), &host());
    assert!(matches!(&out[0], Outbound::Reply(f) if f.reply_to == Some(0)));
}

#[test]
fn the_session_setter_records_and_forgets_the_session() {
    let mut state = BridgeState::default();
    state.set_session_id(Some("s1".into()));
    assert_eq!(state.session_id.as_deref(), Some("s1"));
    state.set_session_id(None);
    assert!(state.session_id.is_none());
}
