use jcode_desktop2::events::{ApiEvent, ApiRequest, ErrorCode, HistoryMessage, SessionInfo};
use jcode_desktop2::harness::{
    command_actions, disconnected, explain, next_backoff, opening_request, reconnect_status,
    transcript_from_history, Action, Command, Connection, HarnessUpdate, RECONNECT_BACKOFF,
    RECONNECT_BACKOFF_MAX,
};
use jcode_desktop2::transcript::Role;

#[test]
fn an_offline_failure_is_explained_in_the_users_terms() {
    let raw = "error sending request for url (https://api.example.com/v1/messages): \
               dns error: failed to lookup address information: Name or service not known";
    let explained = explain(raw);
    assert!(explained.starts_with("no network connection"), "offline was not named: {explained}");
    assert!(explained.contains("dns error"), "the underlying cause must survive: {explained}");
}

#[test]
fn an_unrecognised_failure_is_passed_through() {
    assert_eq!(explain("overloaded_error: try again"), "overloaded_error: try again");
}

// --- further cases ---

#[test]
fn offline_phrases_are_matched_in_any_case() {
    assert_eq!(explain("Network Is Unreachable"), "no network connection: Network Is Unreachable");
    assert_eq!(explain("No route to host"), "no network connection: No route to host");
}

#[test]
fn backoff_doubles_up_to_its_ceiling() {
    assert_eq!(next_backoff(RECONNECT_BACKOFF), 1000);
    assert_eq!(next_backoff(4000), 8000);
    assert_eq!(next_backoff(8000), RECONNECT_BACKOFF_MAX);
    assert_eq!(next_backoff(RECONNECT_BACKOFF_MAX), RECONNECT_BACKOFF_MAX);
}

#[test]
fn the_reconnect_status_names_whole_seconds() {
    assert_eq!(reconnect_status(500), "reconnecting in 1s...");
    assert_eq!(reconnect_status(100), "reconnecting in 1s...");
    assert_eq!(reconnect_status(1499), "reconnecting in 1s...");
    assert_eq!(reconnect_status(10_000), "reconnecting in 10s...");
    assert_eq!(disconnected("broken pipe"), "disconnected: broken pipe");
}

#[test]
fn a_new_connection_reattaches_or_creates() {
    assert!(matches!(
        opening_request("", Some("/work".to_string())),
        ApiRequest::CreateSession { working_dir: Some(d) } if d == "/work"
    ));
    assert!(matches!(
        opening_request("s9", None),
        ApiRequest::AttachSession { session_id } if session_id == "s9"
    ));
}

#[test]
fn a_message_waits_for_a_session_and_a_switch_retargets_at_once() {
    assert!(command_actions("", Command::Send("hi".into())).is_empty());
    let sent = command_actions("s1", Command::Send("hi".into()));
    assert!(matches!(
        &sent[0],
        Action::Request(ApiRequest::SendMessage { session_id, content }) if session_id == "s1" && content == "hi"
    ));
    let switched = command_actions("s1", Command::Attach("s2".into()));
    assert!(matches!(&switched[0], Action::Attach(s) if s == "s2"));
    assert!(matches!(&switched[1], Action::Request(ApiRequest::AttachSession { session_id }) if session_id == "s2"));
    let peeked = command_actions("s1", Command::Peek("s3".into()));
    assert!(matches!(&peeked[0], Action::Request(ApiRequest::PeekSession { session_id, limit: None }) if session_id == "s3"));
}

#[test]
fn streamed_arguments_become_the_tool_label() {
    let mut connection = Connection::new();
    let started = connection.route(ApiEvent::ToolStart {
        session_id: "s1".into(),
        call_id: "call_1".into(),
        name: "bash".into(),
    });
    assert!(matches!(&started[0], Action::Update(HarnessUpdate::Tool { call_id, label }) if call_id == "call_1" && label == "bash"));
    let partial = connection.route(ApiEvent::ToolInputDelta {
        session_id: "s1".into(),
        call_id: String::new(),
        delta: "{\"intent\":\"check the bu".into(),
    });
    assert!(matches!(&partial[0], Action::Update(HarnessUpdate::Tool { call_id, label }) if call_id == "call_1" && label == "check the bu"));
}

#[test]
fn a_finished_edit_becomes_a_card_and_a_failure_ends_the_turn() {
    let mut connection = Connection::new();
    connection.route(ApiEvent::ToolStart { session_id: "s1".into(), call_id: "c".into(), name: "edit".into() });
    connection.route(ApiEvent::ToolInputDelta {
        session_id: "s1".into(),
        call_id: "c".into(),
        delta: "{\"file_path\":\"a.rs\",\"intent\":\"fix it\"}".into(),
    });
    let done = connection.route(ApiEvent::ToolDone {
        session_id: "s1".into(),
        call_id: "c".into(),
        name: "edit".into(),
        output: "1- a\n1+ b\n".into(),
        error: None,
    });
    match &done[0] {
        Action::Update(HarnessUpdate::Edit(card)) => {
            assert_eq!(card.files, vec!["a.rs".to_string()]);
            assert_eq!(card.intent.as_deref(), Some("fix it"));
        }
        other => panic!("unexpected: {other:?}"),
    }
    let failed = connection.route(ApiEvent::Error { code: ErrorCode::Internal, message: "dns error".into() });
    assert!(matches!(&failed[0], Action::Update(HarnessUpdate::Failed(m)) if m == "no network connection: dns error"));
    assert!(matches!(&failed[1], Action::Update(HarnessUpdate::TurnDone)));
}

#[test]
fn an_attach_asks_for_the_history_of_the_session() {
    let mut connection = Connection::new();
    let actions = connection.route(ApiEvent::Attached {
        session: SessionInfo {
            session_id: "s4".into(),
            working_dir: Some("/w".into()),
            title: None,
            status: "idle".into(),
            transcript_bytes: None,
        },
    });
    assert!(matches!(&actions[0], Action::Attach(s) if s == "s4"));
    assert!(matches!(&actions[1], Action::Request(ApiRequest::GetHistory { session_id }) if session_id == "s4"));
}

#[test]
fn a_history_preview_drops_blank_messages() {
    let messages = vec![
        HistoryMessage { role: "user".into(), content: "  hi  ".into() },
        HistoryMessage { role: "assistant".into(), content: "   ".into() },
        HistoryMessage { role: "tool".into(), content: "ran".into() },
    ];
    let t = transcript_from_history(&messages);
    let roles: Vec<Role> = t.messages().iter().map(|m| m.role).collect();
    assert_eq!(roles, vec![Role::User, Role::Assistant]);
    assert_eq!(t.messages()[0].source, "hi");
    assert_eq!(t.messages()[1].source, "ran");
}

#[test]
fn a_finished_call_forgets_its_arguments() {
    let mut connection = Connection::new();
    connection.route(ApiEvent::ToolStart { session_id: "s1".into(), call_id: "c".into(), name: "bash".into() });
    connection.route(ApiEvent::ToolInputDelta {
        session_id: "s1".into(),
        call_id: "c".into(),
        delta: "{\"intent\":\"run it\"}".into(),
    });
    let exec = connection.route(ApiEvent::ToolExec { session_id: "s1".into(), call_id: "c".into(), name: "bash".into() });
    assert!(matches!(&exec[0], Action::Update(HarnessUpdate::Tool { label, .. }) if label == "run it"));
    connection.route(ApiEvent::ToolDone {
        session_id: "s1".into(),
        call_id: "c".into(),
        name: "bash".into(),
        output: String::new(),
        error: None,
    });
    // With the buffer gone, the call reads as its bare name again.
    let exec = connection.route(ApiEvent::ToolExec { session_id: "s1".into(), call_id: "c".into(), name: "bash".into() });
    assert!(matches!(&exec[0], Action::Update(HarnessUpdate::Activity(name)) if name == "bash"));
}

#[test]
fn the_longest_wait_still_reads_in_whole_seconds() {
    assert_eq!(reconnect_status(u64::MAX), "reconnecting in 18446744073709552s...");
}
