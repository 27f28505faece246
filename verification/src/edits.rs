//! Turning an edit tool's output into a transcript card.
//!
//! An edit changed the user's files, so it earns a permanent card: the intent
//! the model wrote, the files it touched, and the added and removed lines,
//! recovered from the `42- old` / `42+ new` lines every edit tool prints.
use vstd::prelude::*;
use crate::activity::{intent_from_partial_json, intent_of};
use crate::text::{
    chars_of, find, find_from, is_whitespace, lemma_find_from_props, lines, lines_from, next_line,
    push_char, push_chars, string_from, trim_end_seq, trim_start_seq, lemma_leading_ws_is, is_ws,
};

verus! {

/// A completed edit, ready to be pushed into the transcript.
#[derive(Clone, Debug, PartialEq, Eq)]
pub struct EditCard {
    /// The `intent` the model wrote for the call, when it wrote one.
    pub intent: Option<String>,
    /// Files touched, in the order the tool reported them.
    pub files: Vec<String>,
    /// The diff body, one `42- old` / `42+ new` line per change.
    pub diff: String,
    /// Added and removed line counts, for the card's `+n -m` summary.
    pub added: usize,
    pub removed: usize,
}

/// The text of an [`EditCard`].
pub struct EditCardView {
    pub intent: Option<Seq<char>>,
    pub files: Seq<Seq<char>>,
    pub diff: Seq<char>,
    pub added: nat,
    pub removed: nat,
}

/// The text of a list of strings.
pub open spec fn texts(v: Seq<String>) -> Seq<Seq<char>> {
    v.map_values(|s: String| s@)
}

/// The text of an optional string.
pub open spec fn opt_text(o: Option<String>) -> Option<Seq<char>> {
    match o {
        Some(s) => Some(s@),
        None => None,
    }
}

impl View for EditCard {
    type V = EditCardView;

    open spec fn view(&self) -> EditCardView {
        EditCardView {
            intent: opt_text(self.intent),
            files: texts(self.files@),
            diff: self.diff@,
            added: self.added as nat,
            removed: self.removed as nat,
        }
    }
}

/// Which side of a diff a line is, if it is one.
#[derive(Clone, Copy, PartialEq, Eq, Debug, Structural)]
pub enum Change {
    Added,
    Removed,
}

/// The tool names that write to files.
pub open spec fn is_edit_tool_name(name: Seq<char>) -> bool {
    ||| name == "edit"@
    ||| name == "write"@
    ||| name == "multiedit"@
    ||| name == "patch"@
    ||| name == "apply_patch"@
    ||| name == "notebook_edit"@
}

/// Whether a tool name is one that writes to files. Only these are inspected
/// for a diff: a `bash` call whose output happens to contain a `-` line must
/// not be dressed up as an edit.
pub fn is_edit_tool(name: &str) -> (b: bool)
    ensures
        b == is_edit_tool_name(name@),
{
    crate::text::str_eq(name, "edit") || crate::text::str_eq(name, "write") || crate::text::str_eq(
        name,
        "multiedit",
    ) || crate::text::str_eq(name, "patch") || crate::text::str_eq(name, "apply_patch")
        || crate::text::str_eq(name, "notebook_edit")
}

pub open spec fn is_ascii_digit(c: char) -> bool {
    '0' <= c && c <= '9'
}

/// Number of ASCII digits at the start of `s`.
pub open spec fn leading_digits(s: Seq<char>) -> nat
    decreases s.len(),
{
    if s.len() > 0 && is_ascii_digit(s[0]) {
        1 + leading_digits(s.drop_first())
    } else {
        0
    }
}

proof fn lemma_leading_digits_is(s: Seq<char>, k: int)
    requires
        0 <= k <= s.len(),
        forall|j: int| 0 <= j < k ==> is_ascii_digit(#[trigger] s[j]),
        k == s.len() || !is_ascii_digit(s[k]),
    ensures
        leading_digits(s) == k,
    decreases k,
{
    if k > 0 {
        let t = s.drop_first();
        assert forall|j: int| 0 <= j < k - 1 implies is_ascii_digit(#[trigger] t[j]) by {
            assert(t[j] == s[j + 1]);
        }
        lemma_leading_digits_is(t, k - 1);
    }
}

/// Which side of a diff `line` is: `<line number><+|-> <content>`, after any
/// indentation, with the content (and its space) optional.
pub open spec fn classify_line(line: Seq<char>) -> Option<Change> {
    let l = trim_start_seq(line);
    let d = leading_digits(l);
    let rest = l.skip(d as int);
    if d == 0 || rest.len() == 0 {
        None
    } else if rest.len() >= 2 && rest[1] != ' ' {
        None
    } else if rest[0] == '+' {
        Some(Change::Added)
    } else if rest[0] == '-' {
        Some(Change::Removed)
    } else {
        None
    }
}

pub(crate) fn classify_chars(v: &[char]) -> (r: Option<Change>)
    ensures
        r == classify_line(v@),
{
    let mut lo: usize = 0;
    while lo < v.len() && is_whitespace(v[lo])
        invariant
            lo <= v@.len(),
            forall|j: int| 0 <= j < lo ==> is_ws(#[trigger] v@[j]),
        decreases v.len() - lo,
    {
        lo = lo + 1;
    }
    proof {
        lemma_leading_ws_is(v@, lo as int);
    }
    let ghost l = v@.skip(lo as int);
    let mut d = lo;
    while d < v.len() && '0' <= v[d] && v[d] <= '9'
        invariant
            lo <= d <= v@.len(),
            l == v@.skip(lo as int),
            forall|j: int| 0 <= j < d - lo ==> is_ascii_digit(#[trigger] l[j]),
        decreases v.len() - d,
    {
        assert(l[d - lo] == v@[d as int]);
        d = d + 1;
    }
    proof {
        if d < v.len() {
            assert(l[d - lo] == v@[d as int]);
        }
        lemma_leading_digits_is(l, d - lo);
        assert(l.skip(d - lo) =~= v@.skip(d as int));
    }
    if d == lo || d == v.len() {
        return None;
    }
    if d + 1 < v.len() && v[d + 1] != ' ' {
        return None;
    }
    if v[d] == '+' {
        Some(Change::Added)
    } else if v[d] == '-' {
        Some(Change::Removed)
    } else {
        None
    }
}

/// Classify one line of an edit tool's output.
///
/// The shared shape across every edit tool is `<line number><+|-> <content>`.
/// Requiring the number is what keeps prose out: a summary line like
/// "- wrote 3 files" is not a diff line, and neither is a bare `---` rule.
pub fn classify(line: &str) -> (r: Option<Change>)
    ensures
        r == classify_line(line@),
{
    let v = chars_of(line);
    classify_chars(v.as_slice())
}

/// The diff body for `ls`: every diff line, trailing white space trimmed,
/// each ended by a newline.
pub open spec fn diff_body(ls: Seq<Seq<char>>) -> Seq<char>
    decreases ls.len(),
{
    if ls.len() == 0 {
        seq![]
    } else if classify_line(ls.last()) is Some {
        diff_body(ls.drop_last()) + trim_end_seq(ls.last()).push('\n')
    } else {
        diff_body(ls.drop_last())
    }
}

/// How many lines of `ls` are on side `c` of the diff.
pub open spec fn count_side(ls: Seq<Seq<char>>, c: Change) -> nat
    decreases ls.len(),
{
    if ls.len() == 0 {
        0
    } else if classify_line(ls.last()) == Some(c) {
        count_side(ls.drop_last(), c) + 1
    } else {
        count_side(ls.drop_last(), c)
    }
}

/// The key edit tools spell a file argument with.
pub open spec fn file_key() -> Seq<char> {
    seq!['"', 'f', 'i', 'l', 'e', '_', 'p', 'a', 't', 'h', '"']
}

/// Every string value that follows a `"file_path"` key, from `pos` on, in order.
pub open spec fn file_values(h: Seq<char>, pos: int) -> Seq<Seq<char>>
    decreases h.len() + 1 - pos,
{
    match find_from(h, file_key(), pos) {
        None => seq![],
        Some(at) => match find_from(h, seq!['"'], at + file_key().len()) {
            None => seq![],
            Some(open) => match find_from(h, seq!['"'], open + 1) {
                None => seq![],
                Some(close) => if close < pos || close >= h.len() {
                    seq![]
                } else {
                    seq![h.subrange(open + 1, close)] + file_values(h, close + 1)
                },
            },
        },
    }
}

/// The non-empty values of `vs`, each kept once, in order of first appearance.
pub open spec fn distinct_nonempty(vs: Seq<Seq<char>>) -> Seq<Seq<char>>
    decreases vs.len(),
{
    if vs.len() == 0 {
        seq![]
    } else {
        let d = distinct_nonempty(vs.drop_last());
        if vs.last().len() > 0 && !d.contains(vs.last()) {
            d.push(vs.last())
        } else {
            d
        }
    }
}

/// The files a tool's JSON arguments name.
pub open spec fn files_of(input: Seq<char>) -> Seq<Seq<char>> {
    distinct_nonempty(file_values(input, 0))
}

/// File paths named in a tool's arguments: the value of every `"file_path"`
/// key, once each, in order.
fn files_in(input: &str) -> (files: Vec<String>)
    ensures
        texts(files@) == files_of(input@),
{
    let v = chars_of(input);
    let key = chars_of("\"file_path\"");
    let quote = chars_of("\"");
    proof {
        reveal_strlit("\"file_path\"");
        reveal_strlit("\"");
        assert(key@ =~= file_key());
        assert(quote@ =~= seq!['"']);
    }
    let mut files: Vec<String> = Vec::new();
    let ghost mut seen: Seq<Seq<char>> = seq![];
    let mut pos: usize = 0;
    loop
        invariant
            pos <= v@.len() + 1,
            key@ == file_key(),
            quote@ == seq!['"'],
            file_values(v@, 0) == seen + file_values(v@, pos as int),
            texts(files@) == distinct_nonempty(seen),
        ensures
            texts(files@) == distinct_nonempty(file_values(v@, 0)),
        decreases v.len() + 1 - pos,
    {
        let at = match find(v.as_slice(), key.as_slice(), pos) {
            None => {
                assert(file_values(v@, pos as int) =~= seq![]);
                assert(seen + seq![] =~= seen);
                assert(seen == file_values(v@, 0));
                break ;
            },
            Some(at) => at,
        };
        proof {
            lemma_find_from_props(v@, key@, pos as int);
            assert(at + key@.len() <= v.len());
        }
        let open = match find(v.as_slice(), quote.as_slice(), at + key.len()) {
            None => {
                assert(file_values(v@, pos as int) =~= seq![]);
                assert(seen + seq![] =~= seen);
                assert(seen == file_values(v@, 0));
                break ;
            },
            Some(open) => open,
        };
        proof {
            lemma_find_from_props(v@, quote@, at + key@.len());
            assert(open + 1 <= v.len());
        }
        let close = match find(v.as_slice(), quote.as_slice(), open + 1) {
            None => {
                assert(file_values(v@, pos as int) =~= seq![]);
                assert(seen + seq![] =~= seen);
                assert(seen == file_values(v@, 0));
                break ;
            },
            Some(close) => close,
        };
        proof {
            lemma_find_from_props(v@, quote@, open + 1);
        }
        let value = string_from(v.as_slice(), open + 1, close);
        let ghost old_seen = seen;
        proof {
            seen = seen.push(v@.subrange(open + 1, close as int));
            assert(file_values(v@, pos as int) == seq![v@.subrange(open + 1, close as int)]
                + file_values(v@, close + 1));
            assert(old_seen + file_values(v@, pos as int) =~= seen + file_values(
                v@,
                close + 1,
            ));
            assert(seen.drop_last() =~= old_seen);
        }
        let mut present = false;
        let mut j: usize = 0;
        while j < files.len()
            invariant
                j <= files@.len(),
                present == exists|k: int| 0 <= k < j && files@[k]@ == value@,
            decreases files.len() - j,
        {
            if files[j] == value {
                present = true;
            }
            j = j + 1;
        }
        proof {
            let d = distinct_nonempty(old_seen);
            assert(d == texts(files@));
            if present {
                let k = choose|k: int| 0 <= k < files@.len() && files@[k]@ == value@;
                assert(d[k] == value@);
            }
            if d.contains(value@) {
                let k = choose|k: int| 0 <= k < d.len() && d[k] == value@;
                assert(files@[k]@ == value@);
            }
        }
        if close > open + 1 && !present {
            files.push(value);
            proof {
                assert(texts(files@) =~= distinct_nonempty(old_seen).push(value@));
            }
        }
        pos = close + 1;
    }
    files
}

/// The card an edit tool's call yields, if it is one.
pub open spec fn card_of(name: Seq<char>, input: Option<Seq<char>>, output: Seq<char>) -> Option<
    EditCardView,
> {
    let ls = lines(output);
    if !is_edit_tool_name(name) || diff_body(ls).len() == 0 {
        None
    } else {
        Some(
            EditCardView {
                intent: match input {
                    Some(i) => intent_of(i),
                    None => None,
                },
                files: match input {
                    Some(i) => files_of(i),
                    None => seq![],
                },
                diff: diff_body(ls),
                added: count_side(ls, Change::Added),
                removed: count_side(ls, Change::Removed),
            },
        )
    }
}

/// Extract the edit card from a finished tool call.
///
/// Returns `None` when the tool is not an edit tool, or when it reported no
/// changed lines at all (a failed edit, or a write of identical content): a
/// card with an empty diff would claim a change that did not happen.
pub fn parse(name: &str, input_json: Option<&str>, output: &str) -> (r: Option<EditCard>)
    ensures
        match r {
            Some(card) => card_of(name@, opt_str(input_json), output@) == Some(card@),
            None => card_of(name@, opt_str(input_json), output@) is None,
        },
{
    if !is_edit_tool(name) {
        return None;
    }
    let v = chars_of(output);
    let mut diff = String::new();
    let mut added: usize = 0;
    let mut removed: usize = 0;
    let mut pos: usize = 0;
    let ghost mut done: Seq<Seq<char>> = seq![];
    while pos < v.len()
        invariant
            pos <= v@.len(),
            lines(v@) == done + lines_from(v@, pos as int),
            diff@ == diff_body(done),
            added == count_side(done, Change::Added),
            removed == count_side(done, Change::Removed),
            added + removed <= pos,
        decreases v.len() - pos,
    {
        let (end, next) = next_line(v.as_slice(), pos);
        let line = &v[pos..end];
        let ghost before = done;
        proof {
            done = done.push(v@.subrange(pos as int, end as int));
            assert(done.drop_last() =~= before);
            assert(before + lines_from(v@, pos as int) =~= done + lines_from(v@, next as int));
            assert(line@ == v@.subrange(pos as int, end as int));
        }
        match classify_chars(line) {
            Some(Change::Added) => added = added + 1,
            Some(Change::Removed) => removed = removed + 1,
            None => {
                pos = next;
                continue ;
            },
        }
        let k = crate::text::trailing_ws_count(line, line.len());
        proof {
            assert(line@.take(line@.len() as int) =~= line@);
        }
        push_chars(&mut diff, &line[0..line.len() - k]);
        push_char(&mut diff, '\n');
        proof {
            assert(diff@ =~= diff_body(before) + trim_end_seq(line@).push('\n'));
        }
        pos = next;
    }
    proof {
        assert(lines_from(v@, pos as int) =~= seq![]);
        assert(done + seq![] =~= done);
    }
    if diff.as_str().is_empty() {
        return None;
    }
    let intent = match input_json {
        Some(input) => intent_from_partial_json(input),
        None => None,
    };
    let files = match input_json {
        Some(input) => files_in(input),
        None => Vec::new(),
    };
    proof {
        assert(texts(Seq::<String>::empty()) =~= seq![]);
    }
    Some(EditCard { intent, files, diff, added, removed })
}

/// The text of an optional string slice.
pub open spec fn opt_str(o: Option<&str>) -> Option<Seq<char>> {
    match o {
        Some(s) => Some(s@),
        None => None,
    }
}

/// The values `distinct_nonempty` keeps are non-empty, each kept once, and
/// all among the values it was given.
proof fn lemma_distinct_nonempty(vs: Seq<Seq<char>>)
    ensures
        forall|i: int, j: int|
            0 <= i < j < distinct_nonempty(vs).len() ==> #[trigger] distinct_nonempty(vs)[i]
                != #[trigger] distinct_nonempty(vs)[j],
        forall|i: int|
            0 <= i < distinct_nonempty(vs).len() ==> (#[trigger] distinct_nonempty(vs)[i]).len() > 0
                && vs.contains(distinct_nonempty(vs)[i]),
    decreases vs.len(),
{
    if vs.len() > 0 {
        let d = distinct_nonempty(vs.drop_last());
        lemma_distinct_nonempty(vs.drop_last());
        assert forall|i: int| 0 <= i < d.len() implies vs.contains(#[trigger] d[i]) by {
            let k = choose|k: int| 0 <= k < vs.drop_last().len() && vs.drop_last()[k] == d[i];
            assert(vs[k] == d[i]);
        }
        if vs.last().len() > 0 && !d.contains(vs.last()) {
            let e = d.push(vs.last());
            assert(distinct_nonempty(vs) == e);
            assert forall|i: int, j: int| 0 <= i < j < e.len() implies #[trigger] e[i] != #[trigger] e[j] by {
                if j == d.len() {
                    assert(e[i] == d[i]);
                    if e[i] == e[j] {
                        assert(d.contains(vs.last()));
                    }
                } else {
                    assert(e[i] == d[i]);
                    assert(e[j] == d[j]);
                }
            }
            assert(vs[vs.len() - 1] == vs.last());
        }
    }
}

/// A diff body holds a line exactly when some line was added or removed.
proof fn lemma_body_counts(ls: Seq<Seq<char>>)
    ensures
        (diff_body(ls).len() > 0) == (count_side(ls, Change::Added) + count_side(ls, Change::Removed)
            > 0),
    decreases ls.len(),
{
    if ls.len() > 0 {
        lemma_body_counts(ls.drop_last());
    }
}

/// A card claims only what happened: it comes from an edit tool, its diff is
/// not empty and counts at least one changed line, and it names each touched
/// file once, every one of them a `file_path` the call's arguments carried.
pub proof fn a_card_names_each_file_once(name: Seq<char>, input: Option<Seq<char>>, output: Seq<char>)
    requires
        card_of(name, input, output) is Some,
    ensures
        ({
            let c = card_of(name, input, output)->0;
            &&& is_edit_tool_name(name)
            &&& c.diff.len() > 0
            &&& c.added + c.removed > 0
            &&& forall|i: int, j: int| 0 <= i < j < c.files.len() ==> #[trigger] c.files[i] != #[trigger] c.files[j]
            &&& forall|i: int|
                0 <= i < c.files.len() ==> (#[trigger] c.files[i]).len() > 0 && (input matches Some(
                    inp,
                ) && file_values(inp, 0).contains(c.files[i]))
        }),
{
    lemma_body_counts(lines(output));
    if let Some(inp) = input {
        lemma_distinct_nonempty(file_values(inp, 0));
    }
}

/// Past its indentation and line number, a numbered line is read from the
/// sign on.
proof fn lemma_numbered_rest(pad: Seq<char>, digits: Seq<char>, t: Seq<char>)
    requires
        forall|j: int| 0 <= j < pad.len() ==> is_ws(#[trigger] pad[j]),
        digits.len() > 0,
        forall|j: int| 0 <= j < digits.len() ==> is_ascii_digit(#[trigger] digits[j]),
        t.len() > 0,
        !is_ascii_digit(t[0]),
    ensures
        ({
            let l = trim_start_seq(pad + digits + t);
            &&& leading_digits(l) == digits.len()
            &&& l.skip(digits.len() as int) == t
        }),
{
    let line = pad + digits + t;
    assert(line[pad.len() as int] == digits[0]);
    assert forall|j: int| 0 <= j < pad.len() implies is_ws(#[trigger] line[j]) by {
        assert(line[j] == pad[j]);
    }
    lemma_leading_ws_is(line, pad.len() as int);
    let l = trim_start_seq(line);
    assert(l =~= digits + t);
    assert forall|j: int| 0 <= j < digits.len() implies is_ascii_digit(#[trigger] l[j]) by {
        assert(l[j] == digits[j]);
    }
    assert(l[digits.len() as int] == t[0]);
    lemma_leading_digits_is(l, digits.len() as int);
    assert(l.skip(digits.len() as int) =~= t);
}

/// A line number followed by a sign, after any indentation, and then either
/// nothing or a space and any content, is a diff line of that sign: `+`
/// adds and `-` removes, the two alike, an empty added or removed line
/// included. A sign run straight into other text (`12+x`) is not a diff
/// line, and neither is a line whose first visible character is not a
/// digit (`- wrote 3 files`).
pub proof fn signed_numbered_lines_are_diff_lines(
    pad: Seq<char>,
    digits: Seq<char>,
    content: Seq<char>,
    c: char,
)
    requires
        forall|j: int| 0 <= j < pad.len() ==> is_ws(#[trigger] pad[j]),
        digits.len() > 0,
        forall|j: int| 0 <= j < digits.len() ==> is_ascii_digit(#[trigger] digits[j]),
    ensures
        classify_line(pad + digits + seq!['+']) == Some(Change::Added),
        classify_line(pad + digits + seq!['-']) == Some(Change::Removed),
        classify_line(pad + digits + (seq!['+', ' '] + content)) == Some(Change::Added),
        classify_line(pad + digits + (seq!['-', ' '] + content)) == Some(Change::Removed),
        c != ' ' ==> classify_line(pad + digits + (seq!['+', c] + content)) is None,
        c != ' ' ==> classify_line(pad + digits + (seq!['-', c] + content)) is None,
        !is_ws(c) && !is_ascii_digit(c) ==> classify_line(pad + (seq![c] + content)) is None,
{
    lemma_numbered_rest(pad, digits, seq!['+']);
    lemma_numbered_rest(pad, digits, seq!['-']);
    lemma_numbered_rest(pad, digits, seq!['+', ' '] + content);
    lemma_numbered_rest(pad, digits, seq!['-', ' '] + content);
    lemma_numbered_rest(pad, digits, seq!['+', c] + content);
    lemma_numbered_rest(pad, digits, seq!['-', c] + content);
    if !is_ws(c) && !is_ascii_digit(c) {
        let line = pad + (seq![c] + content);
        assert(line[pad.len() as int] == c);
        assert forall|j: int| 0 <= j < pad.len() implies is_ws(#[trigger] line[j]) by {
            assert(line[j] == pad[j]);
        }
        lemma_leading_ws_is(line, pad.len() as int);
        let l = trim_start_seq(line);
        assert(l[0] == c);
    }
}

} // verus!
