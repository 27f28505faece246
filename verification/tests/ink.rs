use jcode_desktop2::edits::Change;
use jcode_desktop2::ink::{diff_spans, DiffInk};

#[test]
fn diff_lines_take_their_side_s_ink() {
    let spans = diff_spans("10- old\n10+ new\n...\n");
    let inks: Vec<Change> = spans.iter().map(|span| span.change).collect();
    assert_eq!(
        inks,
        vec![Change::Removed, Change::Added],
        "a truncation marker must not be coloured as a change"
    );
}

#[test]
fn diff_ink_spans_each_line_without_its_newline() {
    let inks = diff_spans("10- old\n10+ new\n...\n");
    assert_eq!(
        inks,
        vec![
            DiffInk { start: 0, end: 7, change: Change::Removed },
            DiffInk { start: 8, end: 15, change: Change::Added },
        ],
        "a truncation marker must not be coloured as a change"
    );
}

#[test]
fn ranges_are_counted_in_bytes() {
    let inks = diff_spans("1- é\n2+ 中\n");
    assert_eq!(
        inks,
        vec![
            DiffInk { start: 0, end: 5, change: Change::Removed },
            DiffInk { start: 6, end: 12, change: Change::Added },
        ]
    );
}

#[test]
fn a_last_line_without_a_newline_is_inked_to_the_end() {
    assert_eq!(diff_spans("3+ x"), vec![DiffInk { start: 0, end: 4, change: Change::Added }]);
    assert!(diff_spans("").is_empty());
}
