//! Text fitting for the frame's captions.
use vstd::prelude::*;
use crate::text::{chars_of, push_char, string_from, trim_bounds, trim_seq, is_ws, lemma_trimmed, lemma_trim_fixed};

verus! {

/// The three dots that stand in for elided text.
pub open spec fn ellipsis() -> Seq<char> {
    seq!['.', '.', '.']
}

/// `t` middle-elided to `max` characters: the head keeps the extra character
/// of an odd budget, and the tail keeps the rest.
pub open spec fn elided(t: Seq<char>, max: nat) -> Seq<char> {
    if t.len() <= max {
        t
    } else if max <= 3 {
        ellipsis()
    } else {
        let keep = (max - 3) as nat;
        let head = (keep + 1) / 2;
        let tail = keep - head;
        t.take(head as int) + ellipsis() + t.skip(t.len() - tail)
    }
}

/// Middle-elide `text` to at most `max_chars` characters, keeping the head and
/// tail (the informative ends of paths, ids, and error strings).
pub fn elide(text: &str, max_chars: usize) -> (out: String)
    ensures
        out@ == elided(trim_seq(text@), max_chars as nat),
        out@.len() <= max_chars || (max_chars < 3 && out@ == ellipsis()),
        max_chars > 3 && trim_seq(text@).len() > max_chars ==> {
            &&& out@.len() == max_chars
            &&& trim_seq(text@).take((max_chars as int - 2) / 2) =~= out@.take(
                (max_chars as int - 2) / 2,
            )
            &&& trim_seq(text@).skip(trim_seq(text@).len() - (max_chars as int - 3) / 2)
                =~= out@.skip(out@.len() - (max_chars as int - 3) / 2)
        },
{
    let all = chars_of(text);
    let (lo, hi) = trim_bounds(all.as_slice());
    let ghost t = trim_seq(text@);
    let len = hi - lo;
    if len <= max_chars {
        return string_from(all.as_slice(), lo, hi);
    }
    if max_chars <= 3 {
        let mut out = String::new();
        push_char(&mut out, '.');
        push_char(&mut out, '.');
        push_char(&mut out, '.');
        assert(out@ =~= ellipsis());
        return out;
    }
    let keep = max_chars - 3;
    let head = (keep + 1) / 2;
    let tail = keep - head;
    let mut out = string_from(all.as_slice(), lo, lo + head);
    push_char(&mut out, '.');
    push_char(&mut out, '.');
    push_char(&mut out, '.');
    let rest = string_from(all.as_slice(), hi - tail, hi);
    let ghost before = out@;
    crate::text::push_str(&mut out, rest.as_str());
    proof {
        assert(t =~= all@.subrange(lo as int, hi as int));
        assert(before =~= t.take(head as int) + ellipsis());
        assert(rest@ =~= t.skip(t.len() - tail));
        assert(out@ =~= t.take(head as int) + ellipsis() + t.skip(t.len() - tail));
        assert((max_chars as int - 2) / 2 == head);
        assert((max_chars as int - 3) / 2 == tail);
    }
    out
}

/// An elided caption is already trimmed and within its budget, so eliding
/// it again to the same budget changes nothing.
pub proof fn eliding_twice_changes_nothing(t: Seq<char>, max: nat)
    ensures
        elided(trim_seq(elided(trim_seq(t), max)), max) == elided(trim_seq(t), max),
{
    let u = trim_seq(t);
    lemma_trimmed(t);
    let e = elided(u, max);
    if u.len() <= max {
        assert(e == u);
    } else if max <= 3 {
        assert(!is_ws('.'));
        lemma_trim_fixed(ellipsis());
    } else {
        let keep = (max - 3) as nat;
        let head = (keep + 1) / 2;
        let tail = keep - head;
        assert(e.len() == max);
        assert(e[0] == u[0]);
        if tail > 0 {
            assert(e.last() == u.last());
        } else {
            assert(e.last() == '.');
        }
        lemma_trim_fixed(e);
    }
}

} // verus!
