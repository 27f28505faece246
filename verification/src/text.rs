//! Character-level string helpers shared by every module.
use vstd::prelude::*;

verus! {

/// Unicode `White_Space`, the property behind `char::is_whitespace` and the
/// `trim` family.
pub open spec fn is_ws(c: char) -> bool {
    ||| ('\u{9}' <= c && c <= '\u{d}')
    ||| c == ' '
    ||| c == '\u{85}'
    ||| c == '\u{a0}'
    ||| c == '\u{1680}'
    ||| ('\u{2000}' <= c && c <= '\u{200a}')
    ||| c == '\u{2028}'
    ||| c == '\u{2029}'
    ||| c == '\u{202f}'
    ||| c == '\u{205f}'
    ||| c == '\u{3000}'
}

/// Whether `c` is Unicode white space.
pub fn is_whitespace(c: char) -> (b: bool)
    ensures
        b == is_ws(c),
{
    ('\u{9}' <= c && c <= '\u{d}') || c == ' ' || c == '\u{85}' || c == '\u{a0}' || c == '\u{1680}'
        || ('\u{2000}' <= c && c <= '\u{200a}') || c == '\u{2028}' || c == '\u{2029}' || c
        == '\u{202f}' || c == '\u{205f}' || c == '\u{3000}'
}

/// The characters of `s`, in order.
pub fn chars_of(s: &str) -> (v: Vec<char>)
    ensures
        v@ == s@,
{
    let mut v: Vec<char> = Vec::new();
    for c in it: s.chars()
        invariant
            v@ == it.seq().take(it.index() as int),
    {
        v.push(c);
    }
    v
}

/// Appends one character to a string.
#[verifier::external_body]
pub(crate) fn push_char(s: &mut String, c: char)
    ensures
        final(s)@ == old(s)@.push(c),
{
    s.push(c);
}


/// Number of white-space characters at the start of `s`.
pub open spec fn leading_ws(s: Seq<char>) -> nat
    decreases s.len(),
{
    if s.len() > 0 && is_ws(s[0]) {
        1 + leading_ws(s.drop_first())
    } else {
        0
    }
}

/// Number of white-space characters at the end of `s`.
pub open spec fn trailing_ws(s: Seq<char>) -> nat
    decreases s.len(),
{
    if s.len() > 0 && is_ws(s.last()) {
        1 + trailing_ws(s.drop_last())
    } else {
        0
    }
}

/// `s` without its leading white space (`str::trim_start`).
pub open spec fn trim_start_seq(s: Seq<char>) -> Seq<char> {
    s.skip(leading_ws(s) as int)
}

/// `s` without its trailing white space (`str::trim_end`).
pub open spec fn trim_end_seq(s: Seq<char>) -> Seq<char> {
    s.take(s.len() - trailing_ws(s))
}

/// `s` without white space at either end (`str::trim`).
pub open spec fn trim_seq(s: Seq<char>) -> Seq<char> {
    trim_end_seq(trim_start_seq(s))
}

/// Whether every character of `s` is white space.
pub open spec fn all_ws(s: Seq<char>) -> bool {
    forall|i: int| 0 <= i < s.len() ==> is_ws(#[trigger] s[i])
}

pub proof fn lemma_leading_ws_bound(s: Seq<char>)
    ensures
        leading_ws(s) <= s.len(),
    decreases s.len(),
{
    if s.len() > 0 && is_ws(s[0]) {
        lemma_leading_ws_bound(s.drop_first());
    }
}

pub proof fn lemma_trailing_ws_bound(s: Seq<char>)
    ensures
        trailing_ws(s) <= s.len(),
    decreases s.len(),
{
    if s.len() > 0 && is_ws(s.last()) {
        lemma_trailing_ws_bound(s.drop_last());
    }
}

/// A run of `k` white-space characters ended by a non-space (or the end) is
/// exactly the leading white space.
pub proof fn lemma_leading_ws_is(s: Seq<char>, k: int)
    requires
        0 <= k <= s.len(),
        forall|j: int| 0 <= j < k ==> is_ws(#[trigger] s[j]),
        k == s.len() || !is_ws(s[k]),
    ensures
        leading_ws(s) == k,
    decreases k,
{
    if k > 0 {
        let t = s.drop_first();
        assert forall|j: int| 0 <= j < k - 1 implies is_ws(#[trigger] t[j]) by {
            assert(t[j] == s[j + 1]);
        }
        lemma_leading_ws_is(t, k - 1);
    }
}

/// The mirror image of [`lemma_leading_ws_is`] for the end of `s`.
pub proof fn lemma_trailing_ws_is(s: Seq<char>, k: int)
    requires
        0 <= k <= s.len(),
        forall|j: int| s.len() - k <= j < s.len() ==> is_ws(#[trigger] s[j]),
        k == s.len() || !is_ws(s[s.len() - k - 1]),
    ensures
        trailing_ws(s) == k,
    decreases k,
{
    if k > 0 {
        let t = s.drop_last();
        assert forall|j: int| t.len() - (k - 1) <= j < t.len() implies is_ws(#[trigger] t[j]) by {
            assert(t[j] == s[j]);
        }
        lemma_trailing_ws_is(t, k - 1);
    }
}

/// A string trims to nothing exactly when it is all white space.
pub proof fn lemma_trim_empty_iff_all_ws(s: Seq<char>)
    ensures
        (trim_seq(s).len() == 0) == all_ws(s),
    decreases s.len(),
{
    lemma_leading_ws_bound(s);
    let t = trim_start_seq(s);
    lemma_trailing_ws_bound(t);
    if s.len() > 0 && is_ws(s[0]) {
        lemma_trim_empty_iff_all_ws(s.drop_first());
        assert(trim_start_seq(s) =~= trim_start_seq(s.drop_first()));
        if all_ws(s.drop_first()) {
            assert forall|i: int| 0 <= i < s.len() implies is_ws(#[trigger] s[i]) by {
                if i > 0 {
                    assert(s[i] == s.drop_first()[i - 1]);
                }
            }
        }
        if all_ws(s) {
            assert forall|i: int| 0 <= i < s.drop_first().len() implies is_ws(
                #[trigger] s.drop_first()[i],
            ) by {
                assert(s.drop_first()[i] == s[i + 1]);
            }
        }
    } else if s.len() > 0 {
        assert(t =~= s);
        assert(t.len() > 0 && !is_ws(t[0]));
        if trailing_ws(t) == t.len() {
            lemma_trailing_first_ws(t);
        }
    }
}

/// The first character past the leading white space is not white space.
pub proof fn lemma_leading_ws_stop(s: Seq<char>)
    ensures
        leading_ws(s) <= s.len(),
        leading_ws(s) < s.len() ==> !is_ws(s[leading_ws(s) as int]),
    decreases s.len(),
{
    if s.len() > 0 && is_ws(s[0]) {
        lemma_leading_ws_stop(s.drop_first());
        if leading_ws(s) < s.len() {
            assert(s.drop_first()[leading_ws(s.drop_first()) as int] == s[leading_ws(s) as int]);
        }
    }
}

/// The last character before the trailing white space is not white space.
pub proof fn lemma_trailing_ws_stop(s: Seq<char>)
    ensures
        trailing_ws(s) <= s.len(),
        trailing_ws(s) < s.len() ==> !is_ws(s[s.len() - trailing_ws(s) - 1]),
    decreases s.len(),
{
    if s.len() > 0 && is_ws(s.last()) {
        lemma_trailing_ws_stop(s.drop_last());
        if trailing_ws(s) < s.len() {
            assert(s.drop_last()[s.drop_last().len() - trailing_ws(s.drop_last()) - 1] == s[s.len()
                - trailing_ws(s) - 1]);
        }
    }
}

/// Trimmed text starts and ends with a non-space, and trimming it again
/// changes nothing.
pub proof fn lemma_trimmed(s: Seq<char>)
    ensures
        trim_seq(s).len() > 0 ==> !is_ws(trim_seq(s)[0]) && !is_ws(trim_seq(s).last()),
        trim_seq(trim_seq(s)) == trim_seq(s),
{
    let a = trim_start_seq(s);
    lemma_leading_ws_stop(s);
    lemma_trailing_ws_stop(a);
    let u = trim_seq(s);
    if u.len() > 0 {
        assert(u[0] == a[0]);
        assert(a[0] == s[leading_ws(s) as int]);
        assert(u.last() == a[a.len() - trailing_ws(a) - 1]);
    }
    lemma_trim_fixed(u);
}

/// Text that starts and ends with a non-space is its own trim.
pub proof fn lemma_trim_fixed(s: Seq<char>)
    requires
        s.len() == 0 || (!is_ws(s[0]) && !is_ws(s.last())),
    ensures
        trim_seq(s) == s,
{
    lemma_leading_ws_is(s, 0);
    assert(trim_start_seq(s) =~= s);
    lemma_trailing_ws_is(s, 0);
    assert(trim_seq(s) =~= s);
}

/// When every character is trailing white space, the first one is too.
proof fn lemma_trailing_first_ws(t: Seq<char>)
    requires
        t.len() > 0,
        trailing_ws(t) == t.len(),
    ensures
        is_ws(t[0]),
    decreases t.len(),
{
    if t.len() > 1 {
        lemma_trailing_first_ws(t.drop_last());
        assert(t.drop_last()[0] == t[0]);
    }
}

/// Number of leading white-space characters of `v`.
pub fn leading_ws_count(v: &[char]) -> (k: usize)
    ensures
        k == leading_ws(v@),
{
    let mut k: usize = 0;
    while k < v.len() && is_whitespace(v[k])
        invariant
            k <= v@.len(),
            forall|j: int| 0 <= j < k ==> is_ws(#[trigger] v@[j]),
        decreases v.len() - k,
    {
        k = k + 1;
    }
    proof {
        lemma_leading_ws_is(v@, k as int);
    }
    k
}

/// Number of trailing white-space characters of `v[..hi]`.
pub fn trailing_ws_count(v: &[char], hi: usize) -> (k: usize)
    requires
        hi <= v.len(),
    ensures
        k == trailing_ws(v@.take(hi as int)),
        k <= hi,
{
    let ghost s = v@.take(hi as int);
    let mut k: usize = 0;
    while k < hi && is_whitespace(v[hi - k - 1])
        invariant
            hi <= v@.len(),
            s == v@.take(hi as int),
            k <= hi,
            forall|j: int| hi - k <= j < hi ==> is_ws(#[trigger] s[j]),
        decreases hi - k,
    {
        assert(s[hi - k - 1] == v@[hi - k - 1]);
        k = k + 1;
    }
    proof {
        if k < hi {
            assert(s[hi - k - 1] == v@[hi - k - 1]);
        }
        lemma_trailing_ws_is(s, k as int);
    }
    k
}

/// The bounds of `v` with white space trimmed from both ends.
pub fn trim_bounds(v: &[char]) -> (r: (usize, usize))
    ensures
        r.0 <= r.1 <= v.len(),
        v@.subrange(r.0 as int, r.1 as int) == trim_seq(v@),
        r.0 == leading_ws(v@),
{
    let lo = leading_ws_count(v);
    proof {
        lemma_leading_ws_bound(v@);
    }
    let ghost t = v@.skip(lo as int);
    let mut k: usize = 0;
    while k < v.len() - lo && is_whitespace(v[v.len() - k - 1])
        invariant
            lo <= v@.len(),
            t == v@.skip(lo as int),
            k <= v@.len() - lo,
            forall|j: int| t.len() - k <= j < t.len() ==> is_ws(#[trigger] t[j]),
        decreases v.len() - lo - k,
    {
        assert(t[t.len() - k - 1] == v@[v.len() - k - 1]);
        k = k + 1;
    }
    proof {
        if k < v.len() - lo {
            assert(t[t.len() - k - 1] == v@[v.len() - k - 1]);
        }
        lemma_trailing_ws_is(t, k as int);
        assert(v@.subrange(lo as int, (v.len() - k) as int) =~= trim_seq(v@));
    }
    (lo, v.len() - k)
}

/// The characters `v[lo..hi]` as a string.
pub fn string_from(v: &[char], lo: usize, hi: usize) -> (s: String)
    requires
        lo <= hi <= v.len(),
    ensures
        s@ == v@.subrange(lo as int, hi as int),
{
    let mut s = String::new();
    let mut i = lo;
    while i < hi
        invariant
            lo <= i <= hi <= v@.len(),
            s@ == v@.subrange(lo as int, i as int),
        decreases hi - i,
    {
        push_char(&mut s, v[i]);
        i = i + 1;
        assert(s@ =~= v@.subrange(lo as int, i as int));
    }
    s
}

/// `s` with white space trimmed from both ends (`str::trim`).
pub fn trim(s: &str) -> (r: String)
    ensures
        r@ == trim_seq(s@),
{
    let v = chars_of(s);
    let (lo, hi) = trim_bounds(v.as_slice());
    string_from(v.as_slice(), lo, hi)
}

/// `s` with its trailing white space removed (`str::trim_end`).
pub fn trim_end(s: &str) -> (r: String)
    ensures
        r@ == trim_end_seq(s@),
{
    let v = chars_of(s);
    let k = trailing_ws_count(v.as_slice(), v.len());
    proof {
        assert(v@.take(v@.len() as int) =~= v@);
    }
    string_from(v.as_slice(), 0, v.len() - k)
}

/// `s` with its leading white space removed (`str::trim_start`).
pub fn trim_start(s: &str) -> (r: String)
    ensures
        r@ == trim_start_seq(s@),
{
    let v = chars_of(s);
    let k = leading_ws_count(v.as_slice());
    proof {
        lemma_leading_ws_bound(v@);
    }
    string_from(v.as_slice(), k, v.len())
}


/// Whether `n` occurs in `h` starting at index `i`.
pub open spec fn occurs_at(h: Seq<char>, n: Seq<char>, i: int) -> bool {
    0 <= i && i + n.len() <= h.len() && h.subrange(i, i + n.len()) == n
}

/// The first index at or after `from` where `n` occurs in `h` (`str::find`).
pub open spec fn find_from(h: Seq<char>, n: Seq<char>, from: int) -> Option<int>
    decreases h.len() + 1 - from,
{
    if from < 0 || from + n.len() > h.len() {
        None
    } else if occurs_at(h, n, from) {
        Some(from)
    } else {
        find_from(h, n, from + 1)
    }
}

/// The last index at or before `upto` where `n` occurs in `h` (`str::rfind`).
pub open spec fn rfind_upto(h: Seq<char>, n: Seq<char>, upto: int) -> Option<int>
    decreases upto + 1,
{
    if upto < 0 {
        None
    } else if occurs_at(h, n, upto) {
        Some(upto)
    } else {
        rfind_upto(h, n, upto - 1)
    }
}

/// Whether `n` occurs anywhere in `h` (`str::contains`).
pub open spec fn contains_seq(h: Seq<char>, n: Seq<char>) -> bool {
    exists|i: int| occurs_at(h, n, i)
}

pub proof fn lemma_find_from_props(h: Seq<char>, n: Seq<char>, from: int)
    requires
        0 <= from,
    ensures
        find_from(h, n, from) matches Some(i) ==> from <= i && occurs_at(h, n, i),
        find_from(h, n, from) is None ==> forall|i: int| from <= i ==> !occurs_at(h, n, i),
        find_from(h, n, from) matches Some(i) ==> forall|j: int|
            from <= j < i ==> !occurs_at(h, n, j),
    decreases h.len() + 1 - from,
{
    if from + n.len() <= h.len() && !occurs_at(h, n, from) {
        lemma_find_from_props(h, n, from + 1);
    }
}

pub proof fn lemma_rfind_upto_props(h: Seq<char>, n: Seq<char>, upto: int)
    ensures
        rfind_upto(h, n, upto) matches Some(i) ==> 0 <= i <= upto && occurs_at(h, n, i),
        rfind_upto(h, n, upto) is None ==> forall|i: int| i <= upto ==> !occurs_at(h, n, i),
        rfind_upto(h, n, upto) matches Some(i) ==> forall|j: int|
            i < j <= upto ==> !occurs_at(h, n, j),
    decreases upto + 1,
{
    if upto >= 0 && !occurs_at(h, n, upto) {
        lemma_rfind_upto_props(h, n, upto - 1);
    }
}

/// Whether `n` occurs in `h` at index `i`.
pub fn matches_at(h: &[char], n: &[char], i: usize) -> (b: bool)
    ensures
        b == occurs_at(h@, n@, i as int),
{
    if i > h.len() || n.len() > h.len() - i {
        return false;
    }
    let mut k: usize = 0;
    while k < n.len()
        invariant
            i + n@.len() <= h@.len(),
            i <= h@.len(),
            k <= n@.len(),
            forall|j: int| 0 <= j < k ==> h@[i + j] == n@[j],
        decreases n.len() - k,
    {
        assert(i + k < h.len());
        if h[i + k] != n[k] {
            assert(h@.subrange(i as int, i + n@.len())[k as int] != n@[k as int]);
            return false;
        }
        k = k + 1;
    }
    assert(h@.subrange(i as int, i + n@.len()) =~= n@);
    true
}

/// The first index at or after `from` where `n` occurs in `h`.
pub fn find(h: &[char], n: &[char], from: usize) -> (r: Option<usize>)
    ensures
        match r {
            Some(i) => find_from(h@, n@, from as int) == Some(i as int),
            None => find_from(h@, n@, from as int) is None,
        },
{
    let mut i = from;
    loop
        invariant
            from <= i,
            find_from(h@, n@, from as int) == find_from(h@, n@, i as int),
        decreases h.len() + 1 - i,
    {
        if i > h.len() || n.len() > h.len() - i {
            return None;
        }
        if matches_at(h, n, i) {
            return Some(i);
        }
        if i == h.len() {
            assert(find_from(h@, n@, i + 1) is None);
            return None;
        }
        i = i + 1;
    }
}

/// The last index at or before `upto` where `n` occurs in `h`.
pub fn rfind(h: &[char], n: &[char]) -> (r: Option<usize>)
    ensures
        match r {
            Some(i) => rfind_upto(h@, n@, h@.len() - n@.len()) == Some(i as int),
            None => rfind_upto(h@, n@, h@.len() - n@.len()) is None,
        },
{
    if n.len() > h.len() {
        return None;
    }
    let mut i = h.len() - n.len();
    loop
        invariant
            i <= h@.len() - n@.len(),
            n@.len() <= h@.len(),
            rfind_upto(h@, n@, h@.len() - n@.len()) == rfind_upto(h@, n@, i as int),
        decreases i,
    {
        if matches_at(h, n, i) {
            return Some(i);
        }
        if i == 0 {
            assert(rfind_upto(h@, n@, -1) is None);
            return None;
        }
        i = i - 1;
    }
}

/// Whether `n` occurs anywhere in `h`.
pub fn contains(h: &[char], n: &[char]) -> (b: bool)
    ensures
        b == contains_seq(h@, n@),
{
    let r = find(h, n, 0);
    proof {
        lemma_find_from_props(h@, n@, 0);
    }
    r.is_some()
}

/// Whether two character slices hold the same text.
pub fn chars_eq(a: &[char], b: &[char]) -> (r: bool)
    ensures
        r == (a@ == b@),
{
    if a.len() != b.len() {
        return false;
    }
    let mut i: usize = 0;
    while i < a.len()
        invariant
            a@.len() == b@.len(),
            i <= a@.len(),
            forall|j: int| 0 <= j < i ==> a@[j] == b@[j],
        decreases a.len() - i,
    {
        if a[i] != b[i] {
            return false;
        }
        i = i + 1;
    }
    assert(a@ =~= b@);
    true
}

/// Whether two strings hold the same text.
pub fn str_eq(a: &str, b: &str) -> (r: bool)
    ensures
        r == (a@ == b@),
{
    let x = chars_of(a);
    let y = chars_of(b);
    chars_eq(x.as_slice(), y.as_slice())
}

/// The character for a decimal digit.
pub open spec fn digit_char(d: nat) -> char {
    (48 + d) as char
}

/// Decimal rendering of `n`, as `format!("{n}")` writes it.
pub open spec fn decimal(n: nat) -> Seq<char>
    decreases n,
{
    if n < 10 {
        seq![digit_char(n)]
    } else {
        decimal(n / 10).push(digit_char(n % 10))
    }
}

/// Appends the decimal rendering of `n` to `s`.
pub fn push_decimal(s: &mut String, n: u64)
    ensures
        final(s)@ == old(s)@ + decimal(n as nat),
    decreases n,
{
    if n >= 10 {
        push_decimal(s, n / 10);
    }
    let d: u8 = (n % 10) as u8;
    let c: char = (48u8 + d) as char;
    assert(c == digit_char((n % 10) as nat));
    push_char(s, c);
}

/// Appends the characters of `v` to `s`.
pub fn push_chars(s: &mut String, v: &[char])
    ensures
        final(s)@ == old(s)@ + v@,
{
    let ghost start = s@;
    let mut i: usize = 0;
    while i < v.len()
        invariant
            i <= v@.len(),
            s@ == start + v@.take(i as int),
        decreases v.len() - i,
    {
        push_char(s, v[i]);
        i = i + 1;
        assert(s@ =~= start + v@.take(i as int));
    }
    assert(v@.take(v@.len() as int) =~= v@);
}

/// Appends `t` to `s`.
pub fn push_str(s: &mut String, t: &str)
    ensures
        final(s)@ == old(s)@ + t@,
{
    let v = chars_of(t);
    push_chars(s, v.as_slice());
}

/// A string holding the text of `t`.
pub fn owned(t: &str) -> (s: String)
    ensures
        s@ == t@,
{
    let mut s = String::new();
    push_str(&mut s, t);
    assert(s@ =~= t@);
    s
}

/// A copy of `t`.
pub fn copy(t: &String) -> (s: String)
    ensures
        s@ == t@,
{
    owned(t.as_str())
}


/// Index of the first `'\n'` at or after `pos`, or the length of `s`.
pub open spec fn line_end(s: Seq<char>, pos: int) -> int
    decreases s.len() - pos,
{
    if pos >= s.len() {
        s.len() as int
    } else if s[pos] == '\n' {
        pos
    } else {
        line_end(s, pos + 1)
    }
}

pub proof fn lemma_line_end(s: Seq<char>, pos: int)
    requires
        0 <= pos <= s.len(),
    ensures
        pos <= line_end(s, pos) <= s.len(),
        line_end(s, pos) < s.len() ==> s[line_end(s, pos)] == '\n',
        forall|j: int| pos <= j < line_end(s, pos) ==> s[j] != '\n',
    decreases s.len() - pos,
{
    if pos < s.len() && s[pos] != '\n' {
        lemma_line_end(s, pos + 1);
    }
}

/// A line's content without the `'\r'` of a `"\r\n"` ending.
pub open spec fn strip_cr(l: Seq<char>) -> Seq<char> {
    if l.len() > 0 && l.last() == '\r' {
        l.drop_last()
    } else {
        l
    }
}

/// The lines of `s` from `pos` on, as `str::lines` yields them: split at
/// `'\n'`, a `"\r\n"` ending counts as one, and a final ending is optional.
pub open spec fn lines_from(s: Seq<char>, pos: int) -> Seq<Seq<char>>
    decreases s.len() - pos,
{
    if pos < 0 || pos >= s.len() {
        seq![]
    } else if line_end(s, pos) < pos {
        seq![]
    } else if line_end(s, pos) >= s.len() {
        seq![s.subrange(pos, s.len() as int)]
    } else {
        let e = line_end(s, pos);
        seq![strip_cr(s.subrange(pos, e))] + lines_from(s, e + 1)
    }
}

/// The lines of `s` (`str::lines`).
pub open spec fn lines(s: Seq<char>) -> Seq<Seq<char>> {
    lines_from(s, 0)
}

/// The line that starts at `pos`: the bounds of its content and where the
/// next line starts.
pub fn next_line(v: &[char], pos: usize) -> (r: (usize, usize))
    requires
        pos < v.len(),
    ensures
        pos <= r.0 <= r.1 <= v.len(),
        pos < r.1,
        lines_from(v@, pos as int) == seq![v@.subrange(pos as int, r.0 as int)] + lines_from(
            v@,
            r.1 as int,
        ),
{
    let mut e = pos;
    while e < v.len() && v[e] != '\n'
        invariant
            pos <= e <= v@.len(),
            line_end(v@, pos as int) == line_end(v@, e as int),
        decreases v.len() - e,
    {
        e = e + 1;
    }
    proof {
        lemma_line_end(v@, pos as int);
    }
    let mut end = e;
    if e < v.len() && e > pos && v[e - 1] == '\r' {
        end = e - 1;
    }
    proof {
        let raw = v@.subrange(pos as int, e as int);
        if e < v.len() {
            assert(strip_cr(raw) =~= v@.subrange(pos as int, end as int));
        } else {
            assert(raw =~= v@.subrange(pos as int, end as int));
            assert(lines_from(v@, e as int) =~= seq![]);
            assert(seq![raw] + lines_from(v@, e as int) =~= seq![raw]);
        }
    }
    if e < v.len() {
        (end, e + 1)
    } else {
        (end, e)
    }
}

} // verus!
