use jcode_desktop2::scene::elide;

#[test]
fn elide_keeps_short_text() {
    assert_eq!(elide("attached", 20), "attached");
}

#[test]
fn elide_respects_budget_and_keeps_ends() {
    let out = elide("disconnected: no such file or directory (os error 2)", 24);
    assert_eq!(out.chars().count(), 24);
    assert!(out.starts_with("disconn"));
    assert!(out.ends_with("2)"));
}

#[test]
fn elide_handles_tiny_budget() {
    assert_eq!(elide("abcdef", 2), "...");
}

// --- further cases ---

#[test]
fn elide_splits_the_budget_between_head_and_tail() {
    // 10 chars of budget: 7 kept, 4 from the head and 3 from the tail.
    assert_eq!(elide("abcdefghijklmnop", 10), "abcd...nop");
}

#[test]
fn elide_at_exactly_the_budget_keeps_everything() {
    assert_eq!(elide("abcdef", 6), "abcdef");
    assert_eq!(elide("", 0), "");
}

#[test]
fn elide_counts_characters_not_bytes() {
    let out = elide("ünïcödé ünïcödé ünïcödé", 9);
    assert_eq!(out.chars().count(), 9);
    assert!(out.starts_with("ünï"));
}

#[test]
fn eliding_twice_changes_nothing() {
    for (text, budget) in [("  disconnected: no such file or directory (os error 2)", 24), ("abcdef", 2), ("abcd", 4), ("  hi  ", 10)] {
        let once = elide(text, budget);
        assert_eq!(elide(&once, budget), once);
    }
}
