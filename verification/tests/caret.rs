use jcode_desktop2::caret::{Caret, BLINK_PERIOD, SOLID_AFTER_INPUT};

/// An arbitrary moment on a caret's clock, in milliseconds.
const START: u64 = 1_000_000;

#[test]
fn caret_is_solid_immediately_after_typing() {
    let caret = Caret::with_activity(START);
    let step = 10u64;
    let grace = SOLID_AFTER_INPUT;
    let mut ms = 0;
    while ms < grace {
        assert!(
            caret.visible_at(START + ms),
            "caret blinked out {ms}ms after input, inside the {grace}ms grace period"
        );
        ms += step;
    }
}

#[test]
fn the_grace_period_is_what_holds_the_caret_solid() {
    let caret = Caret::with_activity(START);
    let half = BLINK_PERIOD / 2;
    let off_phase_moment = half + 5;
    assert!(
        off_phase_moment < SOLID_AFTER_INPUT,
        "the grace period ({}ms) must outlast half a blink period ({half}ms), or it has no observable effect",
        SOLID_AFTER_INPUT
    );
    assert!(
        caret.visible_at(START + off_phase_moment),
        "the caret went dark {off_phase_moment}ms after typing: the grace period is not holding it solid"
    );
}

#[test]
fn caret_blinks_once_idle() {
    let caret = Caret::with_activity(START);
    let at = |ms: u64| caret.visible_at(START + ms);
    let grace = SOLID_AFTER_INPUT;
    let period = BLINK_PERIOD;
    let half = period / 2;
    let mut seen_on = false;
    let mut seen_off = false;
    for cycle in 0..3 {
        let base = grace + cycle * period;
        let phase = base % period;
        let on_at = base + ((period - phase) % period) + 5;
        let off_at = on_at + half;
        assert!(at(on_at), "caret should be visible at {on_at}ms");
        assert!(!at(off_at), "caret should be dark at {off_at}ms");
        seen_on = true;
        seen_off = true;
    }
    assert!(seen_on && seen_off, "never observed a full blink cycle");
}

#[test]
fn typing_restarts_the_blink_so_the_caret_is_visible() {
    // A caret's clock reads zero when it is made, so this is "typed just now".
    let start: u64 = 0;
    let mut caret = Caret::with_activity(start);
    let dark = SOLID_AFTER_INPUT + BLINK_PERIOD / 2 + 5;
    assert!(!caret.visible_at(start + dark), "expected the caret to be dark at {dark}ms");
    caret.touch();
    assert!(caret.visible(), "caret was not visible right after typing");
}

#[test]
fn a_pinned_caret_ignores_the_clock() {
    for visible in [true, false] {
        let caret = Caret::pinned(visible);
        for ms in [0, 600, 1200, 5000] {
            assert_eq!(caret.visible_at(START + ms), visible, "pinned caret changed at {ms}ms");
        }
        assert_eq!(caret.next_toggle_at(START), None, "a pinned caret must not schedule redraws");
    }
}

#[test]
fn typing_unpins_the_caret_so_it_blinks_again() {
    let mut caret = Caret::pinned(false);
    caret.touch();
    assert!(caret.visible(), "caret stayed pinned off after typing");
    assert!(caret.next_toggle_at(caret.now()).is_some());
}

#[test]
fn blink_is_scheduled_rather_than_polled() {
    let caret = Caret::with_activity(START);
    let toggle = caret.next_toggle_at(START).expect("no toggle scheduled");
    assert!(toggle > START, "toggle must be in the future");
    assert!(
        toggle <= START + SOLID_AFTER_INPUT + BLINK_PERIOD,
        "the next toggle should be within the grace period plus one blink"
    );
}

#[test]
fn scheduled_toggle_actually_flips_visibility() {
    let caret = Caret::with_activity(START);
    let mut now = START + SOLID_AFTER_INPUT;
    let mut visible = caret.visible_at(now);
    for _ in 0..4 {
        now = caret.next_toggle_at(now).expect("no toggle");
        let next = caret.visible_at(now);
        assert_ne!(visible, next, "visibility did not flip at the wake time");
        visible = next;
    }
}

// --- further cases ---

#[test]
fn inside_the_grace_period_the_wake_is_the_first_dark_moment() {
    let caret = Caret::with_activity(START);
    // The grace ends at 1200ms, 140ms into a blink period, so the caret stays
    // lit until 1590ms (half of 1060 is 530) and the wake lands just after.
    let wake = caret.next_toggle_at(START + 100).expect("no toggle");
    assert_eq!(wake, START + 1591);
    assert!(caret.visible_at(START + 100));
    assert!(caret.visible_at(START + 1589));
    assert!(!caret.visible_at(wake), "the wake did not land on a change");
}

#[test]
fn an_idle_caret_wakes_just_after_each_flip() {
    let caret = Caret::with_activity(START);
    // 1300ms after input the phase is 240ms into a 1060ms period: on until 530.
    assert!(caret.visible_at(START + 1300));
    assert_eq!(caret.next_toggle_at(START + 1300), Some(START + 1300 + (530 - 240) + 1));
    // 1700ms after input the phase is 640: off until the period ends at 1060.
    assert!(!caret.visible_at(START + 1700));
    assert_eq!(caret.next_toggle_at(START + 1700), Some(START + 1700 + (1060 - 640) + 1));
}

#[test]
fn a_clock_read_before_the_activity_counts_as_no_time() {
    let caret = Caret::with_activity(START);
    assert!(caret.visible_at(START - 5000));
}

#[test]
fn the_default_caret_is_unpinned_and_visible() {
    let caret = Caret::default();
    assert!(caret.visible());
    assert!(caret.next_toggle_at(caret.now()).is_some());
}

#[test]
fn a_caret_clock_starts_at_zero_and_runs_forward() {
    let caret = Caret::new();
    let first = caret.now();
    let second = caret.now();
    assert!(first < 1000, "a fresh caret's clock read {first}ms");
    assert!(second >= first);
    assert!(caret.visible_at(first));
}
