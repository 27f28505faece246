//! Reading a tool call's `intent` out of its streamed JSON arguments.
use vstd::prelude::*;
use crate::text::{
    chars_of, find, find_from, is_whitespace, is_ws, lemma_find_from_props, string_from, trim_bounds,
    trim_seq,
};

verus! {

/// The key the model writes a call's one-line intent under.
pub open spec fn intent_key() -> Seq<char> {
    seq!['"', 'i', 'n', 't', 'e', 'n', 't', '"']
}

/// First index at or after `p` that is not white space.
pub open spec fn skip_ws(h: Seq<char>, p: int) -> int
    decreases h.len() - p,
{
    if p < h.len() && is_ws(h[p]) {
        skip_ws(h, p + 1)
    } else {
        p
    }
}

/// The character an escape sequence `\c` stands for.
pub open spec fn unescape(c: char) -> char {
    if c == 'n' {
        '\n'
    } else if c == 't' {
        '\t'
    } else if c == 'r' {
        '\r'
    } else {
        c
    }
}

/// The decoded contents of a JSON string whose body starts at `i`, up to its
/// closing quote or, for arguments still streaming in, the end of the input.
pub open spec fn string_body(h: Seq<char>, i: int) -> Seq<char>
    decreases h.len() - i,
{
    if i < 0 || i >= h.len() || h[i] == '"' {
        seq![]
    } else if h[i] == '\\' {
        if i + 1 >= h.len() {
            seq![]
        } else {
            seq![unescape(h[i + 1])] + string_body(h, i + 2)
        }
    } else {
        seq![h[i]] + string_body(h, i + 1)
    }
}

/// The intent in `h`, if its value has started arriving and is not blank.
pub open spec fn intent_of(h: Seq<char>) -> Option<Seq<char>> {
    match find_from(h, intent_key(), 0) {
        None => None,
        Some(at) => {
            let colon = skip_ws(h, at + intent_key().len());
            if colon < h.len() && h[colon] == ':' {
                let quote = skip_ws(h, colon + 1);
                if quote < h.len() && h[quote] == '"' {
                    let value = trim_seq(string_body(h, quote + 1));
                    if value.len() > 0 {
                        Some(value)
                    } else {
                        None
                    }
                } else {
                    None
                }
            } else {
                None
            }
        }
    }
}

fn skip_ws_at(v: &[char], p: usize) -> (r: usize)
    requires
        p <= v.len(),
    ensures
        r == skip_ws(v@, p as int),
        p <= r <= v.len(),
{
    let mut i = p;
    while i < v.len() && is_whitespace(v[i])
        invariant
            p <= i <= v@.len(),
            skip_ws(v@, p as int) == skip_ws(v@, i as int),
        decreases v.len() - i,
    {
        i = i + 1;
    }
    i
}

fn unescape_char(c: char) -> (r: char)
    ensures
        r == unescape(c),
{
    if c == 'n' {
        '\n'
    } else if c == 't' {
        '\t'
    } else if c == 'r' {
        '\r'
    } else {
        c
    }
}

fn read_string_body(v: &[char], start: usize) -> (r: Vec<char>)
    requires
        start <= v.len(),
    ensures
        r@ == string_body(v@, start as int),
{
    let mut out: Vec<char> = Vec::new();
    let mut i = start;
    while i < v.len() && v[i] != '"'
        invariant
            start <= i <= v@.len(),
            out@ + string_body(v@, i as int) == string_body(v@, start as int),
        decreases v.len() - i,
    {
        let ghost before = out@;
        if v[i] == '\\' {
            if i + 1 >= v.len() {
                assert(string_body(v@, i as int) =~= seq![]);
                assert(out@ =~= string_body(v@, start as int));
                return out;
            }
            out.push(unescape_char(v[i + 1]));
            assert(before + string_body(v@, i as int) =~= out@ + string_body(v@, i + 2));
            i = i + 2;
        } else {
            out.push(v[i]);
            assert(before + string_body(v@, i as int) =~= out@ + string_body(v@, i + 1));
            i = i + 1;
        }
    }
    assert(string_body(v@, i as int) =~= seq![]);
    assert(out@ =~= string_body(v@, start as int));
    out
}

/// The `intent` a tool call's (possibly still streaming) JSON arguments carry,
/// once its value has started arriving and is not blank.
pub fn intent_from_partial_json(input: &str) -> (r: Option<String>)
    ensures
        match r {
            Some(s) => intent_of(input@) == Some(s@),
            None => intent_of(input@) is None,
        },
{
    let v = chars_of(input);
    let key = chars_of("\"intent\"");
    proof {
        reveal_strlit("\"intent\"");
        assert(key@ =~= intent_key());
    }
    let at = match find(v.as_slice(), key.as_slice(), 0) {
        None => return None,
        Some(at) => at,
    };
    proof {
        lemma_find_from_props(v@, key@, 0);
        assert(at + key@.len() <= v.len());
    }
    let colon = skip_ws_at(v.as_slice(), at + key.len());
    if colon >= v.len() || v[colon] != ':' {
        return None;
    }
    let quote = skip_ws_at(v.as_slice(), colon + 1);
    if quote >= v.len() || v[quote] != '"' {
        return None;
    }
    let body = read_string_body(v.as_slice(), quote + 1);
    let (lo, hi) = trim_bounds(body.as_slice());
    if lo == hi {
        return None;
    }
    Some(string_from(body.as_slice(), lo, hi))
}

} // verus!
