use jcode_desktop2::edits::EditCard;
use jcode_desktop2::transcript::{Delivery, Message, ReasoningMode, Role, Transcript};

fn roles(t: &Transcript) -> Vec<Role> {
    t.messages().iter().map(|m| m.role).collect()
}

#[test]
fn streaming_deltas_accumulate_into_one_message() {
    let mut transcript = Transcript::default();
    transcript.push(Message::user("hi"));
    transcript.append_assistant("**bo");
    transcript.append_assistant("ld**");
    assert_eq!(transcript.messages().len(), 2);
    assert_eq!(transcript.messages()[1].source, "**bold**");
}

#[test]
fn a_tool_call_refines_one_line_in_place() {
    let mut transcript = Transcript::default();
    transcript.set_live_tool("call_1", "bash");
    transcript.set_live_tool("call_1", "check the build");
    assert_eq!(transcript.messages().len(), 1);
    assert_eq!(transcript.messages()[0].role, Role::Tool);
    assert_eq!(transcript.messages()[0].source, "check the build");
}

#[test]
fn a_failure_is_recorded_and_retires_the_live_card() {
    let mut transcript = Transcript::default();
    transcript.push(Message::user("summarise the file"));
    transcript.set_live_tool("call_1", "read the file");
    transcript.push_notice("no network connection: dns error");
    assert_eq!(roles(&transcript), vec![Role::User, Role::Notice]);
    assert!(transcript.plain_text().contains("no network connection"));
}

#[test]
fn repeated_identical_failures_collapse() {
    let mut transcript = Transcript::default();
    transcript.push_notice("no network connection: dns error");
    transcript.push_notice("no network connection: dns error");
    transcript.push_notice("no network connection: dns error");
    assert_eq!(transcript.messages().len(), 1);
    transcript.push_notice("disconnected: the harness closed the connection");
    assert_eq!(transcript.messages().len(), 2);
}

#[test]
fn a_failure_is_not_treated_as_arriving_text() {
    let mut transcript = Transcript::default();
    transcript.push(Message::user("go"));
    transcript.push_notice("no network connection: dns error");
    assert_eq!(transcript.streaming_len(), 0);
}

#[test]
fn an_edit_card_outlives_the_turn() {
    let card = EditCard {
        intent: Some("rename the field".into()),
        files: vec!["src/lib.rs".into()],
        diff: "10- old\n10+ new\n".into(),
        added: 1,
        removed: 1,
    };
    let mut transcript = Transcript::default();
    transcript.set_live_tool("call_1", "rename the field");
    transcript.push_edit(&card);
    transcript.clear_live_tool();
    assert_eq!(roles(&transcript), vec![Role::Edit]);
    let source = &transcript.messages()[0].source;
    assert!(source.contains("rename the field"), "intent missing: {source}");
    assert!(source.contains("src/lib.rs"), "file missing: {source}");
    assert!(source.contains("+1 -1"), "counts missing: {source}");
    assert!(source.contains("10+ new"), "diff missing: {source}");
}

#[test]
fn an_edit_card_lands_above_the_live_tool_card() {
    let card = EditCard {
        intent: None,
        files: vec!["a.rs".into()],
        diff: "1+ fn main() {}\n".into(),
        added: 1,
        removed: 0,
    };
    let mut transcript = Transcript::default();
    transcript.set_live_tool("call_1", "write the file");
    transcript.push_edit(&card);
    transcript.set_live_tool("call_2", "run the tests");
    assert_eq!(roles(&transcript), vec![Role::Edit, Role::Tool]);
}

#[test]
fn the_live_tool_card_is_singular() {
    let mut transcript = Transcript::default();
    transcript.set_live_tool("call_1", "read the config");
    transcript.append_assistant("Found it. ");
    assert_eq!(
        roles(&transcript),
        vec![Role::Assistant, Role::Tool],
        "streamed text did not land above the live card"
    );
    transcript.set_live_tool("call_2", "run the tests");
    assert_eq!(roles(&transcript), vec![Role::Assistant, Role::Tool]);
    assert_eq!(transcript.messages()[1].source, "run the tests");
    transcript.set_live_tool("call_3", "check the diff");
    let tools = transcript.messages().iter().filter(|m| m.role == Role::Tool).count();
    assert_eq!(tools, 1, "a second call added a card instead of taking it");
    assert_eq!(transcript.messages()[1].source, "check the diff");
}

#[test]
fn the_live_tool_card_stays_at_the_bottom() {
    let mut transcript = Transcript::default();
    transcript.push(Message::user("go"));
    transcript.set_live_tool("call_1", "read the config");
    transcript.append_reasoning("thinking about it ");
    transcript.append_assistant("Found it. ");
    transcript.append_assistant("Fixing now. ");
    assert_eq!(
        transcript.messages().last().map(|m| m.role),
        Some(Role::Tool),
        "streamed text pushed the live card off the tail"
    );
    assert_eq!(roles(&transcript), vec![Role::User, Role::Reasoning, Role::Assistant, Role::Tool]);
    assert_eq!(transcript.messages()[2].source, "Found it. Fixing now. ");
}

#[test]
fn the_tool_card_clears_when_the_turn_ends() {
    let mut transcript = Transcript::default();
    transcript.push(Message::user("go"));
    transcript.set_live_tool("call_1", "running tests");
    transcript.append_assistant("done");
    transcript.clear_live_tool();
    assert!(
        transcript.messages().iter().all(|m| m.role != Role::Tool),
        "a finished turn left its tool card behind"
    );
    assert_eq!(transcript.messages().len(), 2);
}

#[test]
fn a_blank_tool_label_changes_nothing() {
    let mut transcript = Transcript::default();
    transcript.set_live_tool("call_1", "   ");
    assert!(transcript.messages().is_empty());
    transcript.set_live_tool("call_1", "list the crate");
    transcript.set_live_tool("call_1", "");
    assert_eq!(transcript.messages()[0].source, "list the crate");
}

#[test]
fn the_tool_card_does_not_count_toward_the_reveal() {
    let mut transcript = Transcript::default();
    transcript.push(Message::user("go"));
    transcript.append_assistant("The fix is in the layout module.");
    let reply_len = transcript.streaming_len();
    assert!(reply_len > 0);
    transcript.set_live_tool("call_1", "running tests");
    assert_eq!(transcript.streaming_len(), reply_len, "the live card changed the streaming length");
}

#[test]
fn reasoning_accumulates_then_yields_to_the_answer() {
    let mut transcript = Transcript::default();
    transcript.append_reasoning("first ");
    transcript.append_reasoning("thought");
    transcript.append_assistant("the answer");
    assert_eq!(roles(&transcript), vec![Role::Reasoning, Role::Assistant]);
    assert_eq!(transcript.messages()[0].source, "first thought");
}

#[test]
fn current_mode_keeps_only_the_paragraph_being_written() {
    let mut transcript = Transcript::default();
    transcript.set_reasoning_mode(ReasoningMode::Current);
    transcript.append_reasoning("first point, now settled.\n\n");
    transcript.append_reasoning("second point, still being");
    assert_eq!(
        transcript.plain_text(),
        "second point, still being",
        "a finished paragraph was kept in current mode"
    );
}

#[test]
fn current_mode_retires_the_thought_when_the_model_acts() {
    let mut answered = Transcript::default();
    answered.set_reasoning_mode(ReasoningMode::Current);
    answered.append_reasoning("thinking");
    answered.append_assistant("the answer");
    assert_eq!(roles(&answered), vec![Role::Assistant]);

    let mut called = Transcript::default();
    called.set_reasoning_mode(ReasoningMode::Current);
    called.append_reasoning("thinking");
    called.set_live_tool("call_1", "running tests");
    assert_eq!(roles(&called), vec![Role::Tool]);
}

#[test]
fn current_mode_shows_the_next_thought() {
    let mut transcript = Transcript::default();
    transcript.set_reasoning_mode(ReasoningMode::Current);
    transcript.append_reasoning("first thought");
    transcript.set_live_tool("call_1", "reading the file");
    transcript.append_reasoning("second thought");
    assert!(transcript.plain_text().contains("second thought"));
    assert!(!transcript.plain_text().contains("first thought"), "a superseded thought came back");
}

#[test]
fn full_mode_keeps_every_thought() {
    let mut transcript = Transcript::default();
    transcript.set_reasoning_mode(ReasoningMode::Full);
    transcript.append_reasoning("first point.\n\nsecond point");
    transcript.append_assistant("the answer");
    assert!(transcript.plain_text().contains("first point."));
    assert_eq!(roles(&transcript), vec![Role::Reasoning, Role::Assistant]);
}

#[test]
fn off_mode_drops_reasoning_entirely() {
    let mut transcript = Transcript::default();
    transcript.set_reasoning_mode(ReasoningMode::Off);
    transcript.append_reasoning("thinking hard");
    assert!(transcript.is_empty());
}

#[test]
fn a_user_message_carries_no_marker_text() {
    let transcript = Transcript::from_messages(&[Message::user("hello")][..]);
    assert!(
        !transcript.plain_text().contains('>'),
        "a shell prompt marker leaked into the transcript text"
    );
}

// --- further cases ---

#[test]
fn acks_land_on_the_oldest_sent_message() {
    let mut transcript = Transcript::default();
    transcript.push(Message::user("old"));
    transcript.push(Message::sent("first"));
    transcript.push(Message::sent("second"));
    assert!(transcript.acknowledge_oldest_pending(42));
    assert_eq!(
        transcript.deliveries(),
        vec![Delivery::Acked { at: 42 }, Delivery::Sent]
    );
    assert!(transcript.acknowledge_oldest_pending(43));
    assert!(!transcript.acknowledge_oldest_pending(44), "an ack with nothing sent changed the page");
    assert_eq!(
        transcript.deliveries(),
        vec![Delivery::Acked { at: 42 }, Delivery::Acked { at: 43 }]
    );
}

#[test]
fn queued_messages_are_sent_one_at_a_time_in_order() {
    let mut transcript = Transcript::default();
    transcript.push(Message::queued("one"));
    transcript.push(Message::queued("two"));
    assert!(transcript.has_queued());
    assert_eq!(transcript.promote_oldest_queued().as_deref(), Some("one"));
    assert_eq!(transcript.deliveries(), vec![Delivery::Sent, Delivery::Queued]);
    assert_eq!(transcript.promote_oldest_queued().as_deref(), Some("two"));
    assert!(!transcript.has_queued());
    assert_eq!(transcript.promote_oldest_queued(), None);
}

#[test]
fn streamed_text_lands_above_queued_messages() {
    let mut transcript = Transcript::default();
    transcript.push(Message::user("go"));
    transcript.push(Message::queued("and then this"));
    transcript.append_assistant("working");
    assert_eq!(roles(&transcript), vec![Role::User, Role::Assistant, Role::User]);
    assert_eq!(transcript.messages()[2].source, "and then this");
}

#[test]
fn plain_text_joins_messages_with_blank_lines() {
    let transcript = Transcript::from_messages(&[Message::user("hello"), Message::assistant("world")][..]);
    assert_eq!(transcript.plain_text(), "hello\n\nworld");
    assert_eq!(transcript.reasoning_mode(), ReasoningMode::Full);
}

#[test]
fn a_blank_transcript_is_empty() {
    let transcript = Transcript::from_messages(&[Message::assistant("  \n ")][..]);
    assert!(transcript.is_empty());
    assert!(Transcript::new().is_empty());
}

#[test]
fn an_edit_card_is_rendered_from_its_parts() {
    let card = EditCard {
        intent: Some("tidy".into()),
        files: vec!["a.rs".into(), "b.rs".into()],
        diff: "1- x\n1+ y\n".into(),
        added: 1,
        removed: 1,
    };
    let m = Message::edit(&card);
    assert_eq!(m.role, Role::Edit);
    assert!(m.source.contains("a.rs"));
    assert!(m.source.contains("b.rs"));
    assert!(m.source.contains("1+ y"));
}

#[test]
fn the_queue_stays_at_the_tail_whatever_the_turn_does() {
    let mut transcript = Transcript::default();
    transcript.push(Message::user("go"));
    transcript.push(Message::queued("later"));
    transcript.set_live_tool("call_1", "reading");
    transcript.append_reasoning("hmm ");
    transcript.push_edit(&EditCard {
        intent: None,
        files: vec!["a.rs".into()],
        diff: "1+ x\n".into(),
        added: 1,
        removed: 0,
    });
    transcript.push_notice("no network connection: dns error");
    assert_eq!(
        roles(&transcript),
        vec![Role::User, Role::Reasoning, Role::Edit, Role::Notice, Role::User]
    );
    assert_eq!(transcript.messages().last().map(|m| m.source.as_str()), Some("later"));
    assert_eq!(transcript.deliveries(), vec![Delivery::Queued]);
}

#[test]
fn a_stray_queued_tool_card_is_still_refined_in_place() {
    let mut stray = Message::tool("call_0", "old label");
    stray.delivery = Some(Delivery::Queued);
    let mut transcript = Transcript::from_messages(&[Message::user("go"), stray][..]);
    transcript.set_live_tool("call_1", "new label");
    let tools: Vec<&Message> = transcript.messages().iter().filter(|m| m.role == Role::Tool).collect();
    assert_eq!(tools.len(), 1);
    assert_eq!(tools[0].source, "new label");
    assert_eq!(tools[0].call_id.as_deref(), Some("call_1"));
}

#[test]
fn the_queue_drains_oldest_first_around_other_messages() {
    let mut transcript = Transcript::from_messages(&[
        Message::queued("first"),
        Message::user("sent earlier"),
        Message::queued("second"),
        Message::queued("third"),
    ]);
    let mut handed_over = Vec::new();
    while let Some(text) = transcript.promote_oldest_queued() {
        handed_over.push(text);
    }
    assert_eq!(handed_over, vec!["first", "second", "third"]);
    assert!(!transcript.has_queued());
    let sources: Vec<&str> = transcript.messages().iter().map(|m| m.source.as_str()).collect();
    assert_eq!(sources, vec!["first", "sent earlier", "second", "third"]);
    assert_eq!(transcript.promote_oldest_queued(), None);
}
