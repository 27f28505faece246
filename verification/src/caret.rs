//! Caret blink state.
//!
//! A normal input box shows an insert caret at all times: solid while you are
//! typing, then blinking on a fixed phase once idle. Blink is derived from
//! elapsed time rather than a timer thread, so it is a pure function of
//! (last activity, now). Times are milliseconds on the caret's own
//! monotonic clock, which starts when the caret is made: setting the system
//! clock moves neither the grace period nor the blink.
use vstd::prelude::*;
use std::time::Instant;
use crate::clock::{millis_since, monotonic_now};

verus! {

/// Full blink cycle, in milliseconds: on for half, off for half.
pub const BLINK_PERIOD: u64 = 1060;

/// Grace period after a keystroke during which the caret stays solid, in
/// milliseconds. Deliberately longer than half a blink period, so that it has
/// an observable effect of its own.
pub const SOLID_AFTER_INPUT: u64 = 1200;

#[derive(Clone, Copy, Debug)]
pub struct Caret {
    /// The moment the caret's clock reads zero.
    origin: Instant,
    /// The last keystroke, in milliseconds on the caret's clock.
    last_activity: u64,
    /// Pins visibility, ignoring the clock.
    pinned: Option<bool>,
}

/// `now - since`, or zero when `now` is earlier.
pub open spec fn elapsed(now: int, since: int) -> int {
    if now >= since {
        now - since
    } else {
        0
    }
}

/// Whether an unpinned caret is drawn `e` milliseconds after the last
/// activity: always inside the grace period, then on the first half of each
/// blink period.
pub open spec fn blink_on(e: int) -> bool {
    e < SOLID_AFTER_INPUT || e % (BLINK_PERIOD as int) < (BLINK_PERIOD as int) / 2
}

/// Milliseconds from phase `e` until the blink next flips, plus one so the
/// wake lands after the flip rather than on it.
pub open spec fn toggle_delay(e: int) -> int {
    let phase = e % (BLINK_PERIOD as int);
    let half = (BLINK_PERIOD as int) / 2;
    if phase < half {
        half - phase + 1
    } else {
        BLINK_PERIOD - phase + 1
    }
}

impl Caret {
    pub closed spec fn last_activity(&self) -> u64 {
        self.last_activity
    }

    pub closed spec fn pin(&self) -> Option<bool> {
        self.pinned
    }

    /// Whether the caret is drawn at `now`, as a pure function of its state.
    pub open spec fn shown_at(&self, now: int) -> bool {
        match self.pin() {
            Some(p) => p,
            None => blink_on(elapsed(now, self.last_activity() as int)),
        }
    }

    /// A caret last touched now, unpinned.
    pub fn new() -> (c: Self)
        ensures
            c.pin() is None,
            c.last_activity() == 0,
    {
        Caret { origin: monotonic_now(), last_activity: 0, pinned: None }
    }

    /// When the caret was last touched, on its own clock.
    pub fn last_touch(&self) -> (t: u64)
        ensures
            t == self.last_activity(),
    {
        self.last_activity
    }

    /// The current reading of the caret's clock, in milliseconds since the
    /// caret was made.
    pub fn now(&self) -> u64 {
        millis_since(&self.origin)
    }

    /// Call on every keystroke or cursor move: keeps the caret solid and
    /// restarts the blink phase from "visible".
    pub fn touch(&mut self)
        ensures
            final(self).pin() is None,
    {
        let now = self.now();
        self.touch_at(now);
    }

    /// [`Caret::touch`] at an explicit time.
    pub fn touch_at(&mut self, now: u64)
        ensures
            final(self).pin() is None,
            final(self).last_activity() == now,
    {
        self.last_activity = now;
        self.pinned = None;
    }

    /// Construct a caret with an explicit last-activity time, so blink phases
    /// are deterministic in state-space nodes and tests.
    pub fn with_activity(last_activity: u64) -> (c: Self)
        ensures
            c.pin() is None,
            c.last_activity() == last_activity,
    {
        Caret { origin: monotonic_now(), last_activity, pinned: None }
    }

    /// A caret pinned on or off, for deterministic rendering.
    pub fn pinned(visible: bool) -> (c: Self)
        ensures
            c.pin() == Some(visible),
            c.last_activity() == 0,
    {
        Caret { origin: monotonic_now(), last_activity: 0, pinned: Some(visible) }
    }

    /// Whether the caret is drawn at `now`.
    pub fn visible_at(&self, now: u64) -> (b: bool)
        ensures
            b == self.shown_at(now as int),
    {
        if let Some(pinned) = self.pinned {
            return pinned;
        }
        let e: u64 = if now >= self.last_activity {
            now - self.last_activity
        } else {
            0
        };
        if e < SOLID_AFTER_INPUT {
            return true;
        }
        e % BLINK_PERIOD < BLINK_PERIOD / 2
    }

    /// Whether the caret is drawn now.
    pub fn visible(&self) -> (b: bool)
        ensures
            self.pin() matches Some(p) ==> b == p,
    {
        self.visible_at(self.now())
    }

    /// When the caret next changes state, so the event loop can schedule a
    /// redraw instead of spinning. `None` means no redraw is needed: the
    /// caret is pinned. Inside the grace period the caret stays solid past
    /// the grace's end, so the next change is where the blink first goes
    /// dark after it.
    pub fn next_toggle_at(&self, now: u64) -> (r: Option<u64>)
        requires
            self.pin() is None ==> self.last_activity() + SOLID_AFTER_INPUT + BLINK_PERIOD
                <= u64::MAX,
            self.pin() is None ==> now + BLINK_PERIOD <= u64::MAX,
        ensures
            self.pin() is Some ==> r is None,
            self.pin() is None ==> r == Some(next_change(self.last_activity() as int, now as int) as u64),
            self.pin() is None ==> r->0 > now && self.shown_at(r->0 as int) != self.shown_at(
                now as int,
            ),
    {
        if self.pinned.is_some() {
            return None;
        }
        proof {
            scheduled_toggle_flips_visibility(*self, now as int);
        }
        let e: u64 = if now >= self.last_activity {
            now - self.last_activity
        } else {
            0
        };
        let half = BLINK_PERIOD / 2;
        if e < SOLID_AFTER_INPUT {
            // Solid until the grace ends, then on for the rest of that
            // blink half: the first change is the first dark moment.
            let phase = SOLID_AFTER_INPUT % BLINK_PERIOD;
            return Some(self.last_activity + SOLID_AFTER_INPUT + (half - phase) + 1);
        }
        let phase = e % BLINK_PERIOD;
        let remaining = if phase < half {
            half - phase
        } else {
            BLINK_PERIOD - phase
        };
        Some(now + remaining + 1)
    }
}

/// The moment an unpinned caret last touched at `last` next changes state,
/// seen from `now`: inside the grace period, where the blink first goes dark
/// after the grace ends; past it, just after the blink next flips.
pub open spec fn next_change(last: int, now: int) -> int {
    if elapsed(now, last) < SOLID_AFTER_INPUT {
        last + SOLID_AFTER_INPUT + toggle_delay(SOLID_AFTER_INPUT as int)
    } else {
        now + toggle_delay(elapsed(now, last))
    }
}

/// Adding `k` to a time whose blink phase is `e % BLINK_PERIOD` moves the
/// phase by `k`, wrapping once at most.
proof fn lemma_phase_shift(e: int, k: int)
    requires
        e >= 0,
        k >= 0,
        e % (BLINK_PERIOD as int) + k < 2 * (BLINK_PERIOD as int),
    ensures
        e % (BLINK_PERIOD as int) + k < BLINK_PERIOD ==> (e + k) % (BLINK_PERIOD as int) == e % (
        BLINK_PERIOD as int) + k,
        e % (BLINK_PERIOD as int) + k >= BLINK_PERIOD ==> (e + k) % (BLINK_PERIOD as int) == e % (
        BLINK_PERIOD as int) + k - BLINK_PERIOD,
{
    let p = BLINK_PERIOD as int;
    vstd::arithmetic::div_mod::lemma_fundamental_div_mod(e, p);
    let q = e / p;
    let r = e % p;
    assert(e == q * p + r) by (nonlinear_arith)
        requires
            e == p * q + r,
    ;
    if r + k < p {
        vstd::arithmetic::div_mod::lemma_fundamental_div_mod_converse(e + k, p, q, r + k);
    } else {
        assert(e + k == (q + 1) * p + (r + k - p)) by (nonlinear_arith)
            requires
                e == q * p + r,
        ;
        vstd::arithmetic::div_mod::lemma_fundamental_div_mod_converse(e + k, p, q + 1, r + k - p);
    }
}

/// The wake time [`Caret::next_toggle_at`] schedules for an unpinned caret
/// is one at which visibility has flipped, and it holds steady until just
/// before then: the loop neither misses a change nor wakes for one that has
/// not happened. Once the caret is blinking, the wake is at most half a
/// blink period (plus one millisecond) away.
pub proof fn scheduled_toggle_flips_visibility(c: Caret, now: int)
    requires
        c.pin() is None,
    ensures
        ({
            let t = next_change(c.last_activity() as int, now);
            &&& t > now
            &&& c.shown_at(t) != c.shown_at(now)
            &&& forall|m: int| now <= m < t - 1 ==> c.shown_at(m) == c.shown_at(now)
            &&& now >= c.last_activity() + SOLID_AFTER_INPUT ==> t <= now + (BLINK_PERIOD as int) / 2
                + 1
        }),
{
    let last = c.last_activity() as int;
    let e = elapsed(now, last);
    let p = BLINK_PERIOD as int;
    if e < SOLID_AFTER_INPUT {
        let g = SOLID_AFTER_INPUT as int;
        let d = toggle_delay(g);
        assert(g % p == 140);
        assert(d == 391);
        lemma_phase_shift(g, d);
        assert(elapsed(last + g + d, last) == g + d);
        assert forall|m: int| now <= m < last + g + d - 1 implies c.shown_at(m) == c.shown_at(now) by {
            if m >= last + g {
                lemma_phase_shift(g, m - last - g);
                assert(elapsed(m, last) == g + (m - last - g));
            }
        }
    } else {
        let d = toggle_delay(e);
        lemma_phase_shift(e, d);
        assert forall|m: int| now <= m < now + d - 1 implies c.shown_at(m) == c.shown_at(now) by {
            lemma_phase_shift(e, m - now);
            assert(elapsed(m, last) == e + (m - now));
        }
        assert(elapsed(now + d, last) == e + d);
    }
}

/// Inside the grace period an unpinned caret is drawn, including at moments
/// when the blink phase alone would hide it: the grace outlasts the blink's
/// "on" half, so it is the rule that holds the caret solid while typing.
pub proof fn grace_period_holds_the_caret_solid(c: Caret, m: int)
    requires
        c.pin() is None,
        c.last_activity() <= m < c.last_activity() + SOLID_AFTER_INPUT,
    ensures
        c.shown_at(m),
        (BLINK_PERIOD as int) / 2 < SOLID_AFTER_INPUT,
{
}

impl Default for Caret {
    fn default() -> (c: Self)
        ensures
            c.pin() is None,
    {
        Caret::new()
    }
}

} // verus!
