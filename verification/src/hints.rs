//! Ghost hints for the empty composer.
//!
//! The empty field shows one line from a small curated set, each an actual
//! invitation to ask for something. Selection is a plain index into the set,
//! so captures and tests pin a hint instead of racing a clock.
use vstd::prelude::*;
use crate::clock::wall_nanos;

verus! {

/// The hint set. Keep these short enough to read at a glance and phrased as
/// something you would actually type.
pub const HINTS: [&'static str; 10] = [
    "ask for something above your expectations",
    "ask something vague and let it figure the rest out",
    "describe the bug, not the fix",
    "point at a file and ask what is wrong with it",
    "ask it to do the whole thing, not the first step",
    "ask why this codebase is shaped like this",
    "hand it a failing test and walk away",
    "ask for the version you would not have thought of",
    "say what you want to be true, not what to change",
    "ask it to find what you forgot",
];

/// The hint at `index`, wrapping around so any counter is a valid choice.
pub fn hint(index: usize) -> (h: &'static str)
    ensures
        h == HINTS@[(index % 10) as int],
{
    HINTS[index % HINTS.len()]
}

/// The starting index a wall-clock reading of `nanos` nanoseconds since the
/// Unix epoch gives: the reading wrapped onto the hint set, and the first hint
/// for a clock set before the epoch.
pub fn index_from_clock(nanos: Option<usize>) -> (i: usize)
    ensures
        i == match nanos {
            Some(n) => n % 10,
            None => 0,
        },
        i < HINTS@.len(),
{
    let n = match nanos {
        Some(n) => n,
        None => 0,
    };
    n % HINTS.len()
}

/// A starting index that varies between launches, so the hint set is actually
/// discovered over time. Derived from the wall clock; it only needs to be
/// arbitrary, and it is always a valid index.
pub fn arbitrary_index() -> (i: usize)
    ensures
        i < HINTS@.len(),
{
    index_from_clock(wall_nanos())
}

/// A hint is a short, lower-case invitation: plain ASCII text of at most 60
/// characters, with no capital letter and no closing period.
pub open spec fn short_invitation(h: Seq<char>) -> bool {
    &&& 0 < h.len() <= 60
    &&& forall|k: int| 0 <= k < h.len() ==> (h[k] as u32) < 0x80 && !('A' <= #[trigger] h[k] <= 'Z')
    &&& h.last() != '.'
}

/// Every hint fits a single short line in the UI's lower-case voice, and no
/// two hints are the same.
pub proof fn the_hints_are_distinct_short_invitations()
    ensures
        forall|i: int| 0 <= i < 10 ==> short_invitation(#[trigger] HINTS@[i]@),
        forall|i: int, j: int| 0 <= i < j < 10 ==> #[trigger] HINTS@[i]@ != #[trigger] HINTS@[j]@,
{
    reveal_strlit("ask for something above your expectations");
    reveal_strlit("ask something vague and let it figure the rest out");
    reveal_strlit("describe the bug, not the fix");
    reveal_strlit("point at a file and ask what is wrong with it");
    reveal_strlit("ask it to do the whole thing, not the first step");
    reveal_strlit("ask why this codebase is shaped like this");
    reveal_strlit("hand it a failing test and walk away");
    reveal_strlit("ask for the version you would not have thought of");
    reveal_strlit("say what you want to be true, not what to change");
    reveal_strlit("ask it to find what you forgot");
    assert(HINTS@[1]@.len() != HINTS@[0]@.len());
    assert(HINTS@[2]@.len() != HINTS@[0]@.len());
    assert(HINTS@[2]@.len() != HINTS@[1]@.len());
    assert(HINTS@[3]@.len() != HINTS@[0]@.len());
    assert(HINTS@[3]@.len() != HINTS@[1]@.len());
    assert(HINTS@[3]@.len() != HINTS@[2]@.len());
    assert(HINTS@[4]@.len() != HINTS@[0]@.len());
    assert(HINTS@[4]@.len() != HINTS@[1]@.len());
    assert(HINTS@[4]@.len() != HINTS@[2]@.len());
    assert(HINTS@[4]@.len() != HINTS@[3]@.len());
    assert(HINTS@[5]@[4] != HINTS@[0]@[4]);
    assert(HINTS@[5]@.len() != HINTS@[1]@.len());
    assert(HINTS@[5]@.len() != HINTS@[2]@.len());
    assert(HINTS@[5]@.len() != HINTS@[3]@.len());
    assert(HINTS@[5]@.len() != HINTS@[4]@.len());
    assert(HINTS@[6]@.len() != HINTS@[0]@.len());
    assert(HINTS@[6]@.len() != HINTS@[1]@.len());
    assert(HINTS@[6]@.len() != HINTS@[2]@.len());
    assert(HINTS@[6]@.len() != HINTS@[3]@.len());
    assert(HINTS@[6]@.len() != HINTS@[4]@.len());
    assert(HINTS@[6]@.len() != HINTS@[5]@.len());
    assert(HINTS@[7]@.len() != HINTS@[0]@.len());
    assert(HINTS@[7]@.len() != HINTS@[1]@.len());
    assert(HINTS@[7]@.len() != HINTS@[2]@.len());
    assert(HINTS@[7]@.len() != HINTS@[3]@.len());
    assert(HINTS@[7]@.len() != HINTS@[4]@.len());
    assert(HINTS@[7]@.len() != HINTS@[5]@.len());
    assert(HINTS@[7]@.len() != HINTS@[6]@.len());
    assert(HINTS@[8]@.len() != HINTS@[0]@.len());
    assert(HINTS@[8]@.len() != HINTS@[1]@.len());
    assert(HINTS@[8]@.len() != HINTS@[2]@.len());
    assert(HINTS@[8]@.len() != HINTS@[3]@.len());
    assert(HINTS@[8]@[0] != HINTS@[4]@[0]);
    assert(HINTS@[8]@.len() != HINTS@[5]@.len());
    assert(HINTS@[8]@.len() != HINTS@[6]@.len());
    assert(HINTS@[8]@.len() != HINTS@[7]@.len());
    assert(HINTS@[9]@.len() != HINTS@[0]@.len());
    assert(HINTS@[9]@.len() != HINTS@[1]@.len());
    assert(HINTS@[9]@.len() != HINTS@[2]@.len());
    assert(HINTS@[9]@.len() != HINTS@[3]@.len());
    assert(HINTS@[9]@.len() != HINTS@[4]@.len());
    assert(HINTS@[9]@.len() != HINTS@[5]@.len());
    assert(HINTS@[9]@.len() != HINTS@[6]@.len());
    assert(HINTS@[9]@.len() != HINTS@[7]@.len());
    assert(HINTS@[9]@.len() != HINTS@[8]@.len());
    assert forall|i: int| 0 <= i < 10 implies short_invitation(#[trigger] HINTS@[i]@) by {
        assert(HINTS@[i]@.len() <= 60);
    }
}

} // verus!
