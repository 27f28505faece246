//! Per-line ink for a diff body: added lines take one colour and removed lines
//! another, and anything else (a `...` truncation marker) keeps the block's
//! own. Ranges are byte ranges over the body, so a wrapped long line keeps its
//! ink across the wrap: the colour belongs to the text, not to the screen row.
use vstd::prelude::*;
use crate::edits::{Change, classify_chars, classify_line};
use crate::text::{chars_of, line_end, lemma_line_end};

verus! {

/// Bytes of `c` in UTF-8.
pub open spec fn utf8_width(c: char) -> nat {
    if (c as u32) < 0x80 {
        1
    } else if (c as u32) < 0x800 {
        2
    } else if (c as u32) < 0x10000 {
        3
    } else {
        4
    }
}

/// Bytes of `s` in UTF-8.
pub open spec fn utf8_len(s: Seq<char>) -> nat
    decreases s.len(),
{
    if s.len() == 0 {
        0
    } else {
        utf8_len(s.drop_last()) + utf8_width(s.last())
    }
}

/// Bytes of `c` in UTF-8 (`char::len_utf8`).
fn char_bytes(c: char) -> (n: usize)
    ensures
        n == utf8_width(c),
{
    let u = c as u32;
    if u < 0x80 {
        1
    } else if u < 0x800 {
        2
    } else if u < 0x10000 {
        3
    } else {
        4
    }
}

/// A prefix is never longer in bytes than the whole.
pub proof fn lemma_utf8_prefix(s: Seq<char>, k: int)
    requires
        0 <= k <= s.len(),
    ensures
        utf8_len(s.take(k)) <= utf8_len(s),
    decreases s.len() - k,
{
    if k < s.len() {
        lemma_utf8_prefix(s, k + 1);
        assert(s.take(k + 1).drop_last() =~= s.take(k));
    } else {
        assert(s.take(k) =~= s);
    }
}

/// Ink for one diff line: its byte range within the body, and its side.
#[derive(Clone, Copy, Debug, PartialEq, Eq, Structural)]
pub struct DiffInk {
    pub start: usize,
    pub end: usize,
    pub change: Change,
}

/// The content of a [`DiffInk`].
pub struct InkView {
    pub start: nat,
    pub end: nat,
    pub change: Change,
}

impl View for DiffInk {
    type V = InkView;

    open spec fn view(&self) -> InkView {
        InkView { start: self.start as nat, end: self.end as nat, change: self.change }
    }
}

/// The content of a list of inks.
pub open spec fn ink_views(v: Seq<DiffInk>) -> Seq<InkView> {
    v.map_values(|i: DiffInk| i@)
}

/// Where the piece of `s` starting at `pos` ends, its newline included, as
/// `split_inclusive('\n')` cuts it.
pub open spec fn piece_end(s: Seq<char>, pos: int) -> int {
    if line_end(s, pos) < s.len() {
        line_end(s, pos) + 1
    } else {
        line_end(s, pos)
    }
}

/// The inks of the diff lines of `s` from `pos` on: each piece that is a
/// diff line, spanning its bytes up to (not including) its newline.
pub open spec fn inks_from(s: Seq<char>, pos: int) -> Seq<InkView>
    decreases s.len() - pos,
{
    if pos < 0 || pos >= s.len() || piece_end(s, pos) <= pos || piece_end(s, pos) > s.len() {
        Seq::empty()
    } else {
        let rest = inks_from(s, piece_end(s, pos));
        match classify_line(s.subrange(pos, piece_end(s, pos))) {
            Some(c) => seq![
                InkView {
                    start: utf8_len(s.take(pos)),
                    end: utf8_len(s.take(line_end(s, pos))),
                    change: c,
                },
            ] + rest,
            None => rest,
        }
    }
}

/// The ink of every added and removed line of a diff body, in order.
pub fn diff_spans(source: &str) -> (r: Vec<DiffInk>)
    requires
        utf8_len(source@) <= usize::MAX,
    ensures
        ink_views(r@) == inks_from(source@, 0),
{
    let v = chars_of(source);
    let ghost s = v@;
    let mut out: Vec<DiffInk> = Vec::new();
    let mut pos: usize = 0;
    let mut at: usize = 0;
    while pos < v.len()
        invariant
            s == v@,
            s == source@,
            pos <= s.len(),
            at == utf8_len(s.take(pos as int)),
            utf8_len(s) <= usize::MAX,
            ink_views(out@) + inks_from(s, pos as int) == inks_from(s, 0),
        decreases v.len() - pos,
    {
        let mut e = pos;
        let mut end_bytes = at;
        while e < v.len() && v[e] != '\n'
            invariant
                s == v@,
                pos <= e <= s.len(),
                line_end(s, pos as int) == line_end(s, e as int),
                end_bytes == utf8_len(s.take(e as int)),
                utf8_len(s) <= usize::MAX,
            decreases v.len() - e,
        {
            proof {
                assert(s.take(e + 1).drop_last() =~= s.take(e as int));
                lemma_utf8_prefix(s, e + 1);
            }
            end_bytes = end_bytes + char_bytes(v[e]);
            e = e + 1;
        }
        proof {
            lemma_line_end(s, pos as int);
        }
        let next = if e < v.len() {
            e + 1
        } else {
            e
        };
        let piece = &v.as_slice()[pos..next];
        proof {
            assert(piece@ =~= s.subrange(pos as int, piece_end(s, pos as int)));
        }
        let c = classify_chars(piece);
        let ghost before = out@;
        match c {
            Some(ch) => {
                out.push(DiffInk { start: at, end: end_bytes, change: ch });
                assert(ink_views(out@) =~= ink_views(before).push(
                    InkView { start: at as nat, end: end_bytes as nat, change: ch },
                ));
            },
            None => {},
        }
        proof {
            assert(ink_views(out@) + inks_from(s, next as int) =~= ink_views(before) + inks_from(
                s,
                pos as int,
            ));
        }
        if e < v.len() {
            proof {
                assert(s.take(e + 1).drop_last() =~= s.take(e as int));
                lemma_utf8_prefix(s, e + 1);
            }
            at = end_bytes + 1;
        } else {
            at = end_bytes;
        }
        pos = next;
    }
    assert(inks_from(s, pos as int) =~= Seq::<InkView>::empty());
    assert(ink_views(out@) =~= inks_from(s, 0));
    out
}

/// A longer prefix takes more bytes: at least one per character.
pub proof fn lemma_utf8_take_grows(s: Seq<char>, a: int, b: int)
    requires
        0 <= a <= b <= s.len(),
    ensures
        utf8_len(s.take(a)) + (b - a) <= utf8_len(s.take(b)),
    decreases b - a,
{
    if a < b {
        lemma_utf8_take_grows(s, a, b - 1);
        assert(s.take(b).drop_last() =~= s.take(b - 1));
    }
}

/// Every ink from `pos` on lies at or after `pos`'s byte offset and inside
/// the body, and the inks come in order without overlapping.
proof fn lemma_inks_from_ordered(s: Seq<char>, pos: int)
    requires
        0 <= pos <= s.len(),
    ensures
        forall|i: int|
            0 <= i < inks_from(s, pos).len() ==> utf8_len(s.take(pos)) <= (
            #[trigger] inks_from(s, pos)[i]).start <= inks_from(s, pos)[i].end <= utf8_len(s),
        forall|i: int, j: int|
            0 <= i < j < inks_from(s, pos).len() ==> (#[trigger] inks_from(s, pos)[i]).end
                < (#[trigger] inks_from(s, pos)[j]).start,
    decreases s.len() - pos,
{
    if pos < s.len() && piece_end(s, pos) > pos && piece_end(s, pos) <= s.len() {
        let e = line_end(s, pos);
        let next = piece_end(s, pos);
        lemma_line_end(s, pos);
        lemma_inks_from_ordered(s, next);
        lemma_utf8_take_grows(s, pos, e);
        lemma_utf8_take_grows(s, e, next);
        lemma_utf8_take_grows(s, next, s.len() as int);
        assert(s.take(s.len() as int) =~= s);
        let rest = inks_from(s, next);
        match classify_line(s.subrange(pos, next)) {
            Some(c) => {
                let ink = InkView { start: utf8_len(s.take(pos)), end: utf8_len(s.take(e)), change: c };
                assert(inks_from(s, pos) == seq![ink] + rest);
                if e < s.len() {
                    assert(next == e + 1);
                } else {
                    assert(rest.len() == 0);
                }
                assert forall|i: int, j: int|
                    0 <= i < j < inks_from(s, pos).len() implies (#[trigger] inks_from(s, pos)[i]).end
                    < (#[trigger] inks_from(s, pos)[j]).start by {
                    if i > 0 {
                        assert(inks_from(s, pos)[i] == rest[i - 1]);
                        assert(inks_from(s, pos)[j] == rest[j - 1]);
                    } else {
                        assert(inks_from(s, pos)[j] == rest[j - 1]);
                    }
                }
                assert forall|i: int| 0 <= i < inks_from(s, pos).len() implies utf8_len(
                    s.take(pos),
                ) <= (#[trigger] inks_from(s, pos)[i]).start <= inks_from(s, pos)[i].end
                    <= utf8_len(s) by {
                    if i > 0 {
                        assert(inks_from(s, pos)[i] == rest[i - 1]);
                    }
                }
            },
            None => {
                assert(inks_from(s, pos) == rest);
            },
        }
    }
}

/// Each ink spans a diff line's own bytes: the inks come in the body's
/// order, never overlap, and stay inside it.
pub proof fn inks_are_ordered_and_inside(s: Seq<char>)
    ensures
        forall|i: int|
            0 <= i < inks_from(s, 0).len() ==> (#[trigger] inks_from(s, 0)[i]).start
                <= inks_from(s, 0)[i].end <= utf8_len(s),
        forall|i: int, j: int|
            0 <= i < j < inks_from(s, 0).len() ==> (#[trigger] inks_from(s, 0)[i]).end
                < (#[trigger] inks_from(s, 0)[j]).start,
{
    lemma_inks_from_ordered(s, 0);
}

} // verus!
