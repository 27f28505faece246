//! A markdown table laid out as aligned columns.
//!
//! The app is a monospace stack throughout, so padding each cell to the widest
//! in its column produces true columns. A naive `join` would put every row's
//! second cell at a different x, which reads worse than the markdown source.
use vstd::prelude::*;
use crate::edits::texts;
use crate::text::push_char;

verus! {

/// `UnicodeWidthStr::width`: the columns `s` takes on screen.
pub uninterp spec fn display_width(s: Seq<char>) -> usize;

/// The displayed width of `s`, from `unicode_width::UnicodeWidthStr::width`.
/// Claimed: the result is `display_width` of the text, a function of the
/// text alone (the crate looks each character up in its tables).
#[verifier::external_body]
fn str_width(s: &str) -> (w: usize)
    ensures
        w == display_width(s@),
{
    unicode_width::UnicodeWidthStr::width(s)
}

/// One line of a laid-out table: its text, and whether it is the header.
#[derive(Debug)]
pub struct TableLine {
    pub text: String,
    /// The header is the one piece of table structure worth carrying: it
    /// says which way to read the rest.
    pub bold: bool,
}

/// The content of a [`TableLine`].
pub struct LineView {
    pub text: Seq<char>,
    pub bold: bool,
}

impl View for TableLine {
    type V = LineView;

    open spec fn view(&self) -> LineView {
        LineView { text: self.text@, bold: self.bold }
    }
}

/// The content of a list of table lines.
pub open spec fn line_views(v: Seq<TableLine>) -> Seq<LineView> {
    v.map_values(|l: TableLine| l@)
}

/// The cells of each row, as text.
pub open spec fn cells(rows: Seq<Vec<String>>) -> Seq<Seq<Seq<char>>> {
    rows.map_values(|r: Vec<String>| texts(r@))
}

/// The widths of each row's cells.
pub open spec fn widths_of(rows: Seq<Seq<Seq<char>>>) -> Seq<Seq<usize>> {
    rows.map_values(|r: Seq<Seq<char>>| r.map_values(|c: Seq<char>| display_width(c)))
}

/// The number of columns: the longest row's length.
pub open spec fn column_count(w: Seq<Seq<usize>>) -> nat
    decreases w.len(),
{
    if w.len() == 0 {
        0
    } else if column_count(w.drop_last()) < w.last().len() {
        w.last().len()
    } else {
        column_count(w.drop_last())
    }
}

/// The width of column `c`: its widest cell.
pub open spec fn column_width(w: Seq<Seq<usize>>, c: int) -> nat
    decreases w.len(),
{
    if w.len() == 0 {
        0
    } else {
        let rest = column_width(w.drop_last(), c);
        if 0 <= c < w.last().len() && rest < w.last()[c] {
            w.last()[c] as nat
        } else {
            rest
        }
    }
}

/// `n` spaces.
pub open spec fn spaces(n: nat) -> Seq<char> {
    Seq::new(n, |i: int| ' ')
}

/// The width of a row's cell `c`, zero for a cell the row lacks.
pub open spec fn cell_width(rw: Seq<usize>, c: int) -> nat {
    if 0 <= c < rw.len() {
        rw[c] as nat
    } else {
        0
    }
}

/// The padding that brings a row's cell `c` to its column's width.
pub open spec fn pad_for(w: Seq<Seq<usize>>, rw: Seq<usize>, c: int) -> nat {
    if column_width(w, c) > cell_width(rw, c) {
        (column_width(w, c) - cell_width(rw, c)) as nat
    } else {
        0
    }
}

/// The first `upto` columns of a row: each cell, then (but after the last
/// column) padding to its column's width plus a two-space gutter. A row
/// shorter than the table reads its missing cells as empty.
pub open spec fn padded(
    row: Seq<Seq<char>>,
    rw: Seq<usize>,
    w: Seq<Seq<usize>>,
    cols: nat,
    upto: nat,
) -> Seq<char>
    decreases upto,
{
    if upto == 0 {
        Seq::empty()
    } else {
        let c = upto - 1;
        let cell = if c < row.len() {
            row[c]
        } else {
            Seq::empty()
        };
        padded(row, rw, w, cols, (upto - 1) as nat) + cell + if c + 1 < cols {
            spaces(pad_for(w, rw, c) + 2)
        } else {
            Seq::empty()
        }
    }
}

/// No cell is wider than its column.
proof fn lemma_column_width_bounds(w: Seq<Seq<usize>>, r: int, c: int)
    requires
        0 <= r < w.len(),
    ensures
        cell_width(w[r], c) <= column_width(w, c),
    decreases w.len(),
{
    if r < w.len() - 1 {
        lemma_column_width_bounds(w.drop_last(), r, c);
        assert(w.drop_last()[r] == w[r]);
    }
}

/// Padding makes true columns: in every row, each cell and its padding
/// together span exactly its column's width, so with the gutter after it
/// the next column starts at the same screen column in every row.
pub proof fn cells_fill_their_columns(w: Seq<Seq<usize>>, r: int, c: int)
    requires
        0 <= r < w.len(),
    ensures
        cell_width(w[r], c) + pad_for(w, w[r], c) == column_width(w, c),
{
    lemma_column_width_bounds(w, r, c);
}

/// The table `rows` laid out, given each cell's width `w`: one line per row,
/// the first bold.
pub open spec fn laid_table(rows: Seq<Seq<Seq<char>>>, w: Seq<Seq<usize>>) -> Seq<LineView> {
    Seq::new(
        rows.len(),
        |r: int|
            LineView {
                text: padded(rows[r], w[r], w, column_count(w), column_count(w)),
                bold: r == 0,
            },
    )
}

/// Appends `n` spaces.
fn push_spaces(s: &mut String, n: usize)
    ensures
        final(s)@ == old(s)@ + spaces(n as nat),
{
    let mut i: usize = 0;
    while i < n
        invariant
            i <= n,
            s@ == old(s)@ + spaces(i as nat),
        decreases n - i,
    {
        push_char(s, ' ');
        i = i + 1;
        assert(s@ =~= old(s)@ + spaces(i as nat));
    }
}

/// Each row of `widths` holds one width per cell of the same row of `rows`.
pub open spec fn shaped(rows: Seq<Vec<String>>, widths: Seq<Vec<usize>>) -> bool {
    &&& rows.len() == widths.len()
    &&& forall|r: int| 0 <= r < rows.len() ==> #[trigger] rows[r]@.len() == widths[r]@.len()
}

/// The width rows of a table, as values.
pub open spec fn width_rows(widths: Seq<Vec<usize>>) -> Seq<Seq<usize>> {
    widths.map_values(|r: Vec<usize>| r@)
}

/// Lay a table out given each cell's displayed width.
pub fn lay_table(rows: &[Vec<String>], widths: &[Vec<usize>]) -> (lines: Vec<TableLine>)
    requires
        shaped(rows@, widths@),
    ensures
        line_views(lines@) == laid_table(cells(rows@), width_rows(widths@)),
{
    let ghost w = width_rows(widths@);
    let ghost cs = cells(rows@);
    // The number of columns.
    let mut columns: usize = 0;
    let mut r: usize = 0;
    while r < widths.len()
        invariant
            r <= widths@.len(),
            w == width_rows(widths@),
            columns == column_count(w.take(r as int)),
        decreases widths.len() - r,
    {
        proof {
            assert(w.take(r + 1).drop_last() =~= w.take(r as int));
        }
        if columns < widths[r].len() {
            columns = widths[r].len();
        }
        r = r + 1;
    }
    assert(w.take(r as int) =~= w);
    // Each column's width.
    let mut col_widths: Vec<usize> = Vec::new();
    let mut c: usize = 0;
    while c < columns
        invariant
            c <= columns,
            w == width_rows(widths@),
            col_widths@.len() == c,
            forall|k: int| 0 <= k < c ==> #[trigger] col_widths@[k] == column_width(w, k),
        decreases columns - c,
    {
        let mut best: usize = 0;
        let mut r: usize = 0;
        while r < widths.len()
            invariant
                r <= widths@.len(),
                w == width_rows(widths@),
                best == column_width(w.take(r as int), c as int),
            decreases widths.len() - r,
        {
            proof {
                assert(w.take(r + 1).drop_last() =~= w.take(r as int));
                assert(w.take(r + 1).last() == widths@[r as int]@);
            }
            if c < widths[r].len() && best < widths[r][c] {
                best = widths[r][c];
            }
            r = r + 1;
        }
        assert(w.take(r as int) =~= w);
        col_widths.push(best);
        c = c + 1;
    }
    // The lines.
    let mut lines: Vec<TableLine> = Vec::new();
    let mut r: usize = 0;
    while r < rows.len()
        invariant
            r <= rows@.len(),
            shaped(rows@, widths@),
            w == width_rows(widths@),
            cs == cells(rows@),
            columns == column_count(w),
            col_widths@.len() == columns,
            forall|k: int| 0 <= k < columns ==> #[trigger] col_widths@[k] == column_width(w, k),
            line_views(lines@) == laid_table(cs, w).take(r as int),
        decreases rows.len() - r,
    {
        let row = &rows[r];
        let row_widths = &widths[r];
        let mut text = String::new();
        let mut c: usize = 0;
        while c < columns
            invariant
                c <= columns,
                r < rows@.len(),
                shaped(rows@, widths@),
                w == width_rows(widths@),
                cs == cells(rows@),
                columns == column_count(w),
                col_widths@.len() == columns,
                forall|k: int| 0 <= k < columns ==> #[trigger] col_widths@[k] == column_width(w, k),
                *row == rows@[r as int],
                *row_widths == widths@[r as int],
                text@ == padded(cs[r as int], w[r as int], w, columns as nat, c as nat),
            decreases columns - c,
        {
            let cw: usize = if c < row_widths.len() {
                row_widths[c]
            } else {
                0
            };
            assert(cw == cell_width(w[r as int], c as int));
            if c < row.len() {
                crate::text::push_str(&mut text, row[c].as_str());
            }
            if c + 1 < columns {
                let gap: usize = if col_widths[c] > cw {
                    col_widths[c] - cw
                } else {
                    0
                };
                push_spaces(&mut text, gap);
                push_spaces(&mut text, 2);
                proof {
                    assert(spaces(gap as nat) + spaces(2) =~= spaces(gap as nat + 2));
                }
            }
            proof {
                assert(cs[r as int] == texts(rows@[r as int]@));
                assert(w[r as int] == widths@[r as int]@);
                let cell = if (c as int) < cs[r as int].len() {
                    cs[r as int][c as int]
                } else {
                    Seq::<char>::empty()
                };
                assert(text@ =~= padded(cs[r as int], w[r as int], w, columns as nat, c as nat)
                    + cell + if c + 1 < columns {
                    spaces(pad_for(w, w[r as int], c as int) + 2)
                } else {
                    Seq::empty()
                });
            }
            c = c + 1;
        }
        let ghost lv = LineView { text: text@, bold: r == 0 };
        let ghost before = lines@;
        lines.push(TableLine { text, bold: r == 0 });
        proof {
            assert(line_views(lines@) =~= line_views(before).push(lv));
            assert(laid_table(cs, w).take(r + 1) =~= laid_table(cs, w).take(r as int).push(lv));
        }
        r = r + 1;
    }
    assert(laid_table(cs, w).take(r as int) =~= laid_table(cs, w));
    lines
}

/// Lay a table out as aligned columns, measuring each cell's displayed
/// width.
pub fn table_lines(rows: &[Vec<String>]) -> (lines: Vec<TableLine>)
    ensures
        line_views(lines@) == laid_table(cells(rows@), widths_of(cells(rows@))),
{
    let mut widths: Vec<Vec<usize>> = Vec::new();
    let mut r: usize = 0;
    while r < rows.len()
        invariant
            r <= rows@.len(),
            widths@.len() == r,
            forall|k: int|
                0 <= k < r ==> (#[trigger] widths@[k])@ == texts(rows@[k]@).map_values(
                    |c: Seq<char>| display_width(c),
                ),
        decreases rows.len() - r,
    {
        let row = &rows[r];
        let mut rw: Vec<usize> = Vec::new();
        let mut c: usize = 0;
        while c < row.len()
            invariant
                c <= row@.len(),
                rw@ == texts(row@).take(c as int).map_values(|x: Seq<char>| display_width(x)),
            decreases row.len() - c,
        {
            rw.push(str_width(row[c].as_str()));
            c = c + 1;
            assert(rw@ =~= texts(row@).take(c as int).map_values(|x: Seq<char>| display_width(x)));
        }
        assert(texts(row@).take(c as int) =~= texts(row@));
        widths.push(rw);
        r = r + 1;
    }
    proof {
        assert(width_rows(widths@) =~= widths_of(cells(rows@)));
        assert forall|k: int| 0 <= k < rows@.len() implies #[trigger] rows@[k]@.len()
            == widths@[k]@.len() by {
            assert(widths@[k]@ == texts(rows@[k]@).map_values(|c: Seq<char>| display_width(c)));
        }
    }
    lay_table(rows, widths.as_slice())
}

} // verus!
