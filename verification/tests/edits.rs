use jcode_desktop2::edits::{classify, is_edit_tool, parse, Change};

#[test]
fn an_edit_becomes_a_card() {
    let card = parse(
        "edit",
        Some(r#"{"file_path":"src/lib.rs","intent":"rename the field"}"#),
        "Edited src/lib.rs: replaced 1 occurrence(s)\n10- let old = 1;\n10+ let new = 1;\n\nContext after edit (lines 8-12):\nfn main() {",
    )
    .expect("an edit with changed lines is a card");
    assert_eq!(card.intent.as_deref(), Some("rename the field"));
    assert_eq!(card.files, vec!["src/lib.rs".to_string()]);
    assert_eq!((card.added, card.removed), (1, 1));
    assert_eq!(card.diff, "10- let old = 1;\n10+ let new = 1;\n");
}

#[test]
fn only_diff_lines_land_in_the_card() {
    let card = parse("write", None, "Created a.rs (2 lines):\n1+ fn main() {}\n2+ \n")
        .expect("a create is all additions");
    assert_eq!(card.diff, "1+ fn main() {}\n2+\n");
    assert_eq!((card.added, card.removed), (2, 0));
}

#[test]
fn a_non_edit_tool_is_not_an_edit() {
    assert!(parse("bash", None, "1- looks like a diff\n").is_none());
    assert!(parse("edit", None, "old_string not found").is_none());
}

#[test]
fn prose_is_not_mistaken_for_a_diff() {
    assert_eq!(classify("- wrote three files"), None);
    assert_eq!(classify("---"), None);
    assert_eq!(classify("42+ added"), Some(Change::Added));
    assert_eq!(classify("  7- removed"), Some(Change::Removed));
    assert_eq!(classify("42+"), Some(Change::Added));
    assert_eq!(classify("42x nope"), None);
}

#[test]
fn every_touched_file_is_named_once() {
    let card = parse(
        "multiedit",
        Some(r#"{"file_path":"a.rs","edits":[{"file_path":"a.rs"}]}"#),
        "3- a\n3+ b\n",
    )
    .expect("card");
    assert_eq!(card.files, vec!["a.rs".to_string()]);
}

// --- further cases ---

#[test]
fn the_edit_tools_are_named() {
    for name in ["edit", "multiedit", "write", "patch", "apply_patch"] {
        assert!(is_edit_tool(name), "{name} should count as an edit tool");
    }
    assert!(!is_edit_tool("bash"));
    assert!(!is_edit_tool("read"));
}

#[test]
fn distinct_files_are_named_in_order() {
    let card = parse(
        "patch",
        Some(r#"{"file_path":"b.rs","edits":[{"file_path":"a.rs"},{"file_path":"b.rs"}]}"#),
        "1- x\n1+ y\n",
    )
    .expect("card");
    assert_eq!(card.files, vec!["b.rs".to_string(), "a.rs".to_string()]);
    assert_eq!(card.intent, None);
}

#[test]
fn a_crlf_line_is_still_a_diff_line() {
    let card = parse("edit", None, "5- a\r\n5+ b\r\n").expect("card");
    assert_eq!((card.added, card.removed), (1, 1));
    assert_eq!(card.diff, "5- a\n5+ b\n");
}
