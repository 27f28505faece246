use jcode_desktop2::hints::{arbitrary_index, hint, index_from_clock, HINTS};

#[test]
fn hints_wrap_instead_of_panicking() {
    assert_eq!(hint(0), HINTS[0]);
    assert_eq!(hint(HINTS.len()), HINTS[0]);
    assert_eq!(hint(usize::MAX), HINTS[usize::MAX % HINTS.len()]);
}

#[test]
fn every_hint_fits_a_single_short_line() {
    for hint in HINTS.iter() {
        assert!(!hint.is_empty());
        assert!(hint.len() <= 60, "hint too long for the field: {hint:?} ({} chars)", hint.len());
        assert_eq!(*hint, hint.to_lowercase(), "hints follow the UI's lowercase voice");
        assert!(!hint.ends_with('.'), "hints are invitations, not sentences: {hint:?}");
    }
}

#[test]
fn hints_are_unique() {
    let mut seen: Vec<&str> = HINTS.to_vec();
    seen.sort_unstable();
    let count = seen.len();
    seen.dedup();
    assert_eq!(seen.len(), count, "duplicate hint");
}

#[test]
fn an_arbitrary_index_is_always_in_range() {
    assert!(arbitrary_index() < HINTS.len());
}

// --- further cases ---

#[test]
fn a_counter_walks_the_hints_in_order() {
    for i in 0..25 {
        assert_eq!(hint(i), HINTS[i % 10]);
    }
    assert_eq!(hint(15), "ask why this codebase is shaped like this");
}

#[test]
fn a_clock_reading_picks_its_hint_by_remainder() {
    assert_eq!(index_from_clock(Some(23)), 3);
    assert_eq!(index_from_clock(Some(1_700_000_000_123_456_789)), 9);
    assert_eq!(index_from_clock(Some(usize::MAX)), usize::MAX % 10);
    assert_eq!(index_from_clock(None), 0);
}
