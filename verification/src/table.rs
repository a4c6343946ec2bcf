//! The tabulation engine: column semantics, width solving, vertical
//! alignment, rendering, and the `tabulate` entry point.

use vstd::prelude::*;

use crate::alignment::{aligned_cell, Alignment, DecimalLayout};
use crate::chars::{find_char, split_lines};
use crate::numeric::{classified, classify, CellKind};
use crate::options::{RowAlignment, TabulateOptions};
use crate::width::{capped, visible_width, vwidth};

verus! {

/// The error returned for structurally invalid configuration.
#[derive(Clone, Debug)]
pub enum TabulateError {
    /// The requested format name is not in the catalog.
    UnknownFormat(String),
}

impl TabulateError {
    /// A short description of the error.
    pub fn message(&self) -> (r: String)
        ensures
            self matches TabulateError::UnknownFormat(n) ==> r@ == "unknown table format: "@
                + n@,
    {
        match self {
            TabulateError::UnknownFormat(name) => {
                let mut out = String::from_str("unknown table format: ");
                out.append(name.as_str());
                out
            },
        }
    }
}

/// The join of two cell kinds: text absorbs everything, a float makes the
/// column fractional.
pub open spec fn kind_join(a: CellKind, b: CellKind) -> CellKind {
    if a is Text || b is Text {
        CellKind::Text
    } else if a is Float || b is Float {
        CellKind::Float
    } else {
        CellKind::Integer
    }
}

/// The joined kind of the first `n` cells of column `c`.
pub open spec fn column_kind_upto(g: Seq<Seq<Seq<char>>>, c: int, n: int) -> CellKind
    decreases n,
{
    if n <= 0 {
        CellKind::Integer
    } else {
        kind_join(column_kind_upto(g, c, n - 1), classified(g[n - 1][c], false))
    }
}

/// The kind of column `c`: the join over all rows; an empty table is text.
pub open spec fn column_kind_of(g: Seq<Seq<Seq<char>>>, c: int, disabled: bool) -> CellKind {
    if disabled || g.len() == 0 {
        CellKind::Text
    } else {
        column_kind_upto(g, c, g.len() as int)
    }
}

/// Compute the kind of column `c` of the grid.
pub fn column_kind(grid: &Vec<Vec<String>>, c: usize, disabled: bool) -> (k: CellKind)
    requires
        forall|r: int| 0 <= r < grid.deep_view().len() ==> c < (#[trigger] grid.deep_view()[r]).len(),
    ensures
        k == column_kind_of(grid.deep_view(), c as int, disabled),
{
    let ghost g = grid.deep_view();
    if disabled || grid.len() == 0 {
        return CellKind::Text;
    }
    let mut k = CellKind::Integer;
    let mut r: usize = 0;
    while r < grid.len()
        invariant
            r <= grid.len(),
            grid.deep_view() == g,
            forall|i: int| 0 <= i < g.len() ==> c < (#[trigger] g[i]).len(),
            k == column_kind_upto(g, c as int, r as int),
        decreases grid.len() - r,
    {
        proof {
            assert(grid[r as int].deep_view() == g[r as int]);
            assert(grid[r as int][c as int]@ == g[r as int][c as int]);
        }
        let ck = classify(grid[r][c].as_str(), false);
        k = match (k, ck) {
            (CellKind::Text, _) => CellKind::Text,
            (_, CellKind::Text) => CellKind::Text,
            (CellKind::Float, _) => CellKind::Float,
            (_, CellKind::Float) => CellKind::Float,
            _ => CellKind::Integer,
        };
        r = r + 1;
    }
    k
}

/// The horizontal alignment resolved for a column: per-column override, then
/// the global override, then the default of the column's kind.
pub open spec fn resolved_col_align(o: &TabulateOptions, kind: CellKind, c: int) -> Alignment {
    if 0 <= c < o.col_align@.len() && o.col_align@[c] is Some {
        o.col_align@[c]->0
    } else if o.col_global_align is Some {
        o.col_global_align->0
    } else {
        match kind {
            CellKind::Text => match o.str_align {
                Some(a) => a,
                None => Alignment::Left,
            },
            _ => match o.num_align {
                Some(a) => a,
                None => Alignment::Decimal,
            },
        }
    }
}

/// Resolve the alignment of column `c`.
pub fn col_align_for(o: &TabulateOptions, kind: CellKind, c: usize) -> (a: Alignment)
    ensures
        a == resolved_col_align(o, kind, c as int),
{
    if c < o.col_align.len() {
        if let Some(a) = o.col_align[c] {
            return a;
        }
    }
    if let Some(a) = o.col_global_align {
        return a;
    }
    match kind {
        CellKind::Text => match o.str_align {
            Some(a) => a,
            None => Alignment::Left,
        },
        _ => match o.num_align {
            Some(a) => a,
            None => Alignment::Decimal,
        },
    }
}

/// The alignment resolved for a header cell: per-header override, then the
/// global header override, then the column's own alignment.
pub open spec fn resolved_header_align(o: &TabulateOptions, col_align: Alignment, c: int) -> Alignment {
    if 0 <= c < o.headers_align@.len() && (match o.headers_align@[c] {
        Some(crate::options::HeaderAlignment::Align(_)) => true,
        _ => false,
    }) {
        match o.headers_align@[c] {
            Some(crate::options::HeaderAlignment::Align(a)) => a,
            _ => col_align,
        }
    } else if o.headers_global_align is Some {
        o.headers_global_align->0
    } else {
        col_align
    }
}

/// Resolve the alignment of header cell `c`.
pub fn header_align_for(o: &TabulateOptions, col_align: Alignment, c: usize) -> (a: Alignment)
    ensures
        a == resolved_header_align(o, col_align, c as int),
{
    if c < o.headers_align.len() {
        if let Some(crate::options::HeaderAlignment::Align(a)) = o.headers_align[c] {
            return a;
        }
    }
    if let Some(a) = o.headers_global_align {
        return a;
    }
    col_align
}

/// The vertical alignment resolved for a data row: per-row override, then
/// the global row override, else top.
pub open spec fn resolved_row_align(o: &TabulateOptions, r: int) -> RowAlignment {
    if 0 <= r < o.row_align@.len() && o.row_align@[r] is Some {
        o.row_align@[r]->0
    } else if o.row_global_align is Some {
        o.row_global_align->0
    } else {
        RowAlignment::Top
    }
}

/// Resolve the vertical alignment of row `r`.
pub fn row_align_for(o: &TabulateOptions, r: usize) -> (a: RowAlignment)
    ensures
        a == resolved_row_align(o, r as int),
{
    if r < o.row_align.len() {
        if let Some(a) = o.row_align[r] {
            return a;
        }
    }
    if let Some(a) = o.row_global_align {
        return a;
    }
    RowAlignment::Top
}

/// A width-cap list entry for column `c`: the list is extended by repeating
/// its last entry, and no list means no cap.
pub open spec fn cap_for(caps: &Option<Vec<Option<usize>>>, c: int) -> Option<usize> {
    match caps {
        Some(v) => {
            if v@.len() == 0 {
                None
            } else if 0 <= c < v@.len() {
                v@[c]
            } else {
                v@[v@.len() - 1]
            }
        },
        None => None,
    }
}

/// The cap configured for column `c`.
pub fn cap_at(caps: &Option<Vec<Option<usize>>>, c: usize) -> (r: Option<usize>)
    ensures
        r == cap_for(caps, c as int),
{
    match caps {
        Some(v) => {
            if v.len() == 0 {
                None
            } else if c < v.len() {
                v[c]
            } else {
                v[v.len() - 1]
            }
        },
        None => None,
    }
}

/// The visible width of a cell's integer part: what stands before the first
/// decimal point, or the whole text.
pub open spec fn int_part_width(s: Seq<char>, wide: bool) -> nat {
    capped(vwidth(s.take(find_char(s, '.', 0)), wide))
}

/// The visible width of a cell's fractional part: what follows the first
/// decimal point, or zero.
pub open spec fn frac_part_width(s: Seq<char>, wide: bool) -> nat {
    let p = find_char(s, '.', 0);
    if p < s.len() {
        capped(vwidth(s.skip(p + 1), wide))
    } else {
        0
    }
}

/// Measure the integer and fractional widths of one cell.
pub fn decimal_parts_width(s: &str, wide: bool) -> (r: (usize, usize))
    ensures
        r.0 as nat == int_part_width(s@, wide),
        r.1 as nat == frac_part_width(s@, wide),
{
    let len = s.unicode_len();
    let p = crate::chars::find_char_at(s, '.', 0);
    let ip = s.substring_char(0, p);
    proof {
        assert(ip@ =~= s@.take(p as int));
    }
    let iw = visible_width(ip, wide);
    let fw: usize = if p < len {
        let fp = s.substring_char(p + 1, len);
        proof {
            assert(fp@ =~= s@.skip(p + 1));
        }
        visible_width(fp, wide)
    } else {
        0
    };
    (iw, fw)
}

/// The decimal layout of column `c` over the first `n` rows: the widest
/// integer and fractional parts.
pub open spec fn decimal_layout_upto(g: Seq<Seq<Seq<char>>>, c: int, n: int, wide: bool) -> (
    nat,
    nat,
)
    decreases n,
{
    if n <= 0 {
        (0, 0)
    } else {
        let rest = decimal_layout_upto(g, c, n - 1, wide);
        let iw = int_part_width(g[n - 1][c], wide);
        let fw = frac_part_width(g[n - 1][c], wide);
        (if iw > rest.0 {
            iw
        } else {
            rest.0
        }, if fw > rest.1 {
            fw
        } else {
            rest.1
        })
    }
}

/// Compute the decimal layout of column `c`.
pub fn decimal_layout_for(grid: &Vec<Vec<String>>, c: usize, wide: bool) -> (r: DecimalLayout)
    requires
        forall|i: int| 0 <= i < grid.deep_view().len() ==> c < (#[trigger] grid.deep_view()[i]).len(),
    ensures
        r.integer as nat == decimal_layout_upto(
            grid.deep_view(),
            c as int,
            grid.deep_view().len() as int,
            wide,
        ).0,
        r.fraction as nat == decimal_layout_upto(
            grid.deep_view(),
            c as int,
            grid.deep_view().len() as int,
            wide,
        ).1,
{
    let ghost g = grid.deep_view();
    let mut li: usize = 0;
    let mut lf: usize = 0;
    let mut r: usize = 0;
    while r < grid.len()
        invariant
            r <= grid.len(),
            grid.deep_view() == g,
            forall|i: int| 0 <= i < g.len() ==> c < (#[trigger] g[i]).len(),
            li as nat == decimal_layout_upto(g, c as int, r as int, wide).0,
            lf as nat == decimal_layout_upto(g, c as int, r as int, wide).1,
        decreases grid.len() - r,
    {
        proof {
            assert(grid[r as int].deep_view() == g[r as int]);
            assert(grid[r as int][c as int]@ == g[r as int][c as int]);
        }
        let (iw, fw) = decimal_parts_width(grid[r][c].as_str(), wide);
        if iw > li {
            li = iw;
        }
        if fw > lf {
            lf = fw;
        }
        r = r + 1;
    }
    DecimalLayout { integer: li, fraction: lf }
}

/// The larger of two widths.
pub open spec fn max_nat(a: nat, b: nat) -> nat {
    if a >= b {
        a
    } else {
        b
    }
}

/// The widest line of a sequence of lines, widths capped at the word limit.
pub open spec fn lines_width_max(lines: Seq<Seq<char>>, wide: bool) -> nat
    decreases lines.len(),
{
    if lines.len() == 0 {
        0
    } else {
        max_nat(capped(vwidth(lines[0], wide)), lines_width_max(lines.drop_first(), wide))
    }
}

pub proof fn lemma_lines_width_max_push(lines: Seq<Seq<char>>, l: Seq<char>, wide: bool)
    ensures
        lines_width_max(lines.push(l), wide) == max_nat(
            lines_width_max(lines, wide),
            capped(vwidth(l, wide)),
        ),
    decreases lines.len(),
{
    if lines.len() == 0 {
        assert(lines.push(l).drop_first() =~= Seq::<Seq<char>>::empty());
        assert(lines.push(l)[0] == l);
        assert(lines_width_max(Seq::<Seq<char>>::empty(), wide) == 0);
    } else {
        assert(lines.push(l).drop_first() =~= lines.drop_first().push(l));
        lemma_lines_width_max_push(lines.drop_first(), l, wide);
        assert(lines.push(l)[0] == lines[0]);
    }
}

/// Every line is at most the maximum.
pub proof fn lemma_lines_width_max_bound(lines: Seq<Seq<char>>, wide: bool)
    ensures
        forall|i: int|
            0 <= i < lines.len() ==> capped(vwidth(#[trigger] lines[i], wide)) <= lines_width_max(
                lines,
                wide,
            ),
    decreases lines.len(),
{
    if lines.len() > 0 {
        lemma_lines_width_max_bound(lines.drop_first(), wide);
        assert forall|i: int|
            0 <= i < lines.len() implies capped(vwidth(#[trigger] lines[i], wide))
            <= lines_width_max(lines, wide) by {
            if i > 0 {
                assert(lines[i] == lines.drop_first()[i - 1]);
            }
        }
    }
}

/// The visible width of a multi-line cell: its widest line.
pub open spec fn cell_width(s: Seq<char>, wide: bool) -> nat {
    lines_width_max(split_lines(s), wide)
}

/// Measure the widest line of a cell.
pub fn cell_width_of(s: &str, wide: bool) -> (w: usize)
    ensures
        w as nat == cell_width(s@, wide),
{
    let ws = crate::width::multiline_widths(s, wide);
    let ghost lines = split_lines(s@);
    let mut w: usize = 0;
    let mut i: usize = 0;
    while i < ws.len()
        invariant
            i <= ws.len(),
            ws@.len() == lines.len(),
            lines == split_lines(s@),
            forall|k: int| 0 <= k < ws@.len() ==> ws@[k] as nat == capped(vwidth(lines[k], wide)),
            w as nat == lines_width_max(lines.take(i as int), wide),
        decreases ws.len() - i,
    {
        proof {
            assert(lines.take(i + 1) =~= lines.take(i as int).push(lines[i as int]));
            lemma_lines_width_max_push(lines.take(i as int), lines[i as int], wide);
        }
        if ws[i] > w {
            w = ws[i];
        }
        i = i + 1;
    }
    proof {
        assert(lines.take(lines.len() as int) =~= lines);
    }
    w
}

/// The widest cell among the first `n` rows of column `c`.
pub open spec fn col_width_upto(g: Seq<Seq<Seq<char>>>, c: int, n: int, wide: bool) -> nat
    decreases n,
{
    if n <= 0 {
        0
    } else {
        max_nat(col_width_upto(g, c, n - 1, wide), cell_width(g[n - 1][c], wide))
    }
}

/// The unconstrained width of column `c`: the widest cell, header included.
pub open spec fn natural_col_width(
    g: Seq<Seq<Seq<char>>>,
    hv: Seq<Seq<char>>,
    c: int,
    wide: bool,
) -> nat {
    max_nat(
        if 0 <= c < hv.len() {
            cell_width(hv[c], wide)
        } else {
            0
        },
        col_width_upto(g, c, g.len() as int, wide),
    )
}

/// The widest data cell of column `c` (without the header).
pub fn data_col_width(grid: &Vec<Vec<String>>, c: usize, wide: bool) -> (w: usize)
    requires
        forall|i: int| 0 <= i < grid.deep_view().len() ==> c < (#[trigger] grid.deep_view()[i]).len(),
    ensures
        w as nat == col_width_upto(grid.deep_view(), c as int, grid.deep_view().len() as int, wide),
{
    let ghost g = grid.deep_view();
    let mut w: usize = 0;
    let mut r: usize = 0;
    while r < grid.len()
        invariant
            r <= grid.len(),
            grid.deep_view() == g,
            forall|i: int| 0 <= i < g.len() ==> c < (#[trigger] g[i]).len(),
            w as nat == col_width_upto(g, c as int, r as int, wide),
        decreases grid.len() - r,
    {
        proof {
            assert(grid[r as int].deep_view() == g[r as int]);
            assert(grid[r as int][c as int]@ == g[r as int][c as int]);
        }
        let cw = cell_width_of(grid[r][c].as_str(), wide);
        if cw > w {
            w = cw;
        }
        r = r + 1;
    }
    w
}

/// Replace every cell of column `c` by its wrapped text, lines joined with
/// newlines; all other cells are unchanged.
pub fn wrap_column(grid: Vec<Vec<String>>, c: usize, width: usize, bl: bool, bh: bool, wide: bool) -> (r: Vec<
    Vec<String>,
>)
    requires
        forall|i: int| 0 <= i < grid.deep_view().len() ==> c < (#[trigger] grid.deep_view()[i]).len(),
    ensures
        r.deep_view().len() == grid.deep_view().len(),
        forall|i: int| 0 <= i < grid.deep_view().len() ==> (#[trigger] r.deep_view()[i]).len()
            == grid.deep_view()[i].len(),
        forall|i: int, k: int|
            0 <= i < grid.deep_view().len() && 0 <= k < grid.deep_view()[i].len() && k != c
                ==> r.deep_view()[i][k] == grid.deep_view()[i][k],
        forall|i: int|
            0 <= i < grid.deep_view().len() ==> r.deep_view()[i][c as int]
                == crate::chars::join_char(
                crate::wrap::wrapped_cell(grid.deep_view()[i][c as int], width as nat, bl, bh, wide),
                '\n',
            ),
{
    let ghost g = grid.deep_view();
    let mut out: Vec<Vec<String>> = Vec::new();
    let mut i: usize = 0;
    while i < grid.len()
        invariant
            i <= grid.len(),
            grid.deep_view() == g,
            forall|k: int| 0 <= k < g.len() ==> c < (#[trigger] g[k]).len(),
            out.deep_view().len() == i,
            forall|k: int| 0 <= k < i ==> (#[trigger] out.deep_view()[k]).len() == g[k].len(),
            forall|k: int, j: int|
                0 <= k < i && 0 <= j < g[k].len() && j != c ==> out.deep_view()[k][j] == g[k][j],
            forall|k: int|
                0 <= k < i ==> out.deep_view()[k][c as int] == crate::chars::join_char(
                    crate::wrap::wrapped_cell(g[k][c as int], width as nat, bl, bh, wide),
                    '\n',
                ),
        decreases grid.len() - i,
    {
        let mut row: Vec<String> = Vec::new();
        let rlen = grid[i].len();
        proof {
            assert(grid[i as int].deep_view() == g[i as int]);
            assert(c < g[i as int].len());
        }
        let mut j: usize = 0;
        while j < rlen
            invariant
                j <= rlen,
                i < grid.len(),
                grid.deep_view() == g,
                rlen as nat == g[i as int].len(),
                c < rlen,
                row.deep_view().len() == j,
                forall|k: int| 0 <= k < j && k != c ==> row.deep_view()[k] == g[i as int][k],
                c < j ==> row.deep_view()[c as int] == crate::chars::join_char(
                    crate::wrap::wrapped_cell(g[i as int][c as int], width as nat, bl, bh, wide),
                    '\n',
                ),
            decreases rlen - j,
        {
            proof {
                assert(grid[i as int].deep_view() == g[i as int]);
                assert(grid[i as int][j as int]@ == g[i as int][j as int]);
            }
            let ghost dv_old = row.deep_view();
            if j == c {
                let pieces = crate::wrap::wrap_text(grid[i][j].as_str(), width, bl, bh, wide);
                let joined = crate::chars::join_with_char(&pieces, '\n');
                row.push(joined);
                proof {
                    assert(row.deep_view() =~= dv_old.push(row.deep_view().last()));
                }
            } else {
                let cell = String::from_str(grid[i][j].as_str());
                row.push(cell);
                proof {
                    assert(row.deep_view() =~= dv_old.push(g[i as int][j as int]));
                }
            }
            j = j + 1;
        }
        let ghost ov_old = out.deep_view();
        out.push(row);
        proof {
            assert(out.deep_view() =~= ov_old.push(out.deep_view().last()));
        }
        i = i + 1;
    }
    out
}

/// `n` blank lines.
pub open spec fn blank_lines(n: nat) -> Seq<Seq<char>> {
    Seq::new(n, |i: int| Seq::<char>::empty())
}

/// A cell's lines padded to the row's line count: top alignment appends
/// blank lines, bottom prepends them, and centring splits the deficit with
/// the extra line going below.
pub open spec fn vpadded(lines: Seq<Seq<char>>, target: nat, va: RowAlignment) -> Seq<Seq<char>> {
    if lines.len() >= target {
        lines
    } else {
        let d = (target - lines.len()) as nat;
        match va {
            RowAlignment::Top => lines + blank_lines(d),
            RowAlignment::Bottom => blank_lines(d) + lines,
            RowAlignment::Center => blank_lines(d / 2) + lines + blank_lines((d - d / 2) as nat),
        }
    }
}

/// The line count of the tallest cell among the first `n` of the row.
pub open spec fn row_height_upto(row: Seq<Seq<char>>, n: int) -> nat
    decreases n,
{
    if n <= 0 {
        0
    } else {
        max_nat(row_height_upto(row, n - 1), split_lines(row[n - 1]).len())
    }
}

/// The line count of the tallest cell of the row.
pub open spec fn row_height(row: Seq<Seq<char>>) -> nat {
    row_height_upto(row, row.len() as int)
}

/// Pad every cell of the row to the row's line count under the vertical
/// alignment.
pub fn valign_row(row: Vec<String>, va: RowAlignment) -> (r: Vec<String>)
    ensures
        r.deep_view().len() == row.deep_view().len(),
        forall|c: int|
            0 <= c < row.deep_view().len() ==> (#[trigger] r.deep_view()[c])
                == crate::chars::join_char(
                vpadded(
                    split_lines(row.deep_view()[c]),
                    row_height(row.deep_view()),
                    va,
                ),
                '\n',
            ),
{
    let ghost rv = row.deep_view();
    let mut h: usize = 0;
    let mut c: usize = 0;
    while c < row.len()
        invariant
            c <= row.len(),
            row.deep_view() == rv,
            h as nat == row_height_upto(rv, c as int),
        decreases row.len() - c,
    {
        proof {
            assert(row[c as int]@ == rv[c as int]);
        }
        let parts = crate::chars::split_str(row[c].as_str(), '\n');
        proof {
            assert(parts.deep_view().len() == split_lines(rv[c as int]).len());
        }
        if parts.len() > h {
            h = parts.len();
        }
        c = c + 1;
    }
    proof {
        assert(h as nat == row_height(rv));
    }
    let mut out: Vec<String> = Vec::new();
    let mut c2: usize = 0;
    while c2 < row.len()
        invariant
            c2 <= row.len(),
            row.deep_view() == rv,
            h as nat == row_height(rv),
            out.deep_view().len() == c2,
            forall|k: int|
                0 <= k < c2 ==> (#[trigger] out.deep_view()[k]) == crate::chars::join_char(
                    vpadded(split_lines(rv[k]), row_height(rv), va),
                    '\n',
                ),
        decreases row.len() - c2,
    {
        proof {
            assert(row[c2 as int]@ == rv[c2 as int]);
        }
        let parts = crate::chars::split_str(row[c2].as_str(), '\n');
        let ghost pv = parts.deep_view();
        let mut padded: Vec<String> = Vec::new();
        if parts.len() >= h {
            padded = parts;
            proof {
                assert(padded.deep_view() =~= vpadded(pv, h as nat, va));
            }
        } else {
            let deficit = h - parts.len();
            let (top, bottom): (usize, usize) = match va {
                RowAlignment::Top => (0, deficit),
                RowAlignment::Bottom => (deficit, 0),
                RowAlignment::Center => (deficit / 2, deficit - deficit / 2),
            };
            let mut t: usize = 0;
            while t < top
                invariant
                    t <= top,
                    padded.deep_view() =~= blank_lines(t as nat),
                decreases top - t,
            {
                let ghost dv_old = padded.deep_view();
                padded.push(String::new());
                proof {
                    assert(padded.deep_view() =~= dv_old.push(Seq::<char>::empty()));
                    assert(blank_lines((t + 1) as nat) =~= blank_lines(t as nat).push(
                        Seq::<char>::empty(),
                    ));
                }
                t = t + 1;
            }
            let mut k: usize = 0;
            while k < parts.len()
                invariant
                    k <= parts.len(),
                    parts.deep_view() == pv,
                    top <= h,
                    padded.deep_view() =~= blank_lines(top as nat) + pv.take(k as int),
                decreases parts.len() - k,
            {
                let ghost dv_old = padded.deep_view();
                let piece = String::from_str(parts[k].as_str());
                proof {
                    assert(piece@ == pv[k as int]);
                }
                padded.push(piece);
                proof {
                    assert(padded.deep_view() =~= dv_old.push(pv[k as int]));
                    assert(blank_lines(top as nat) + pv.take(k + 1) =~= (blank_lines(top as nat)
                        + pv.take(k as int)).push(pv[k as int]));
                }
                k = k + 1;
            }
            proof {
                assert(pv.take(pv.len() as int) =~= pv);
            }
            let mut b: usize = 0;
            while b < bottom
                invariant
                    b <= bottom,
                    padded.deep_view() =~= blank_lines(top as nat) + pv + blank_lines(b as nat),
                decreases bottom - b,
            {
                let ghost dv_old = padded.deep_view();
                padded.push(String::new());
                proof {
                    assert(padded.deep_view() =~= dv_old.push(Seq::<char>::empty()));
                    assert(blank_lines(top as nat) + pv + blank_lines((b + 1) as nat) =~= (
                    blank_lines(top as nat) + pv + blank_lines(b as nat)).push(
                        Seq::<char>::empty(),
                    ));
                }
                b = b + 1;
            }
            proof {
                match va {
                    RowAlignment::Top => {
                        assert(blank_lines(0) =~= Seq::<Seq<char>>::empty());
                        assert(padded.deep_view() =~= pv + blank_lines(deficit as nat));
                    },
                    RowAlignment::Bottom => {
                        assert(blank_lines(0) =~= Seq::<Seq<char>>::empty());
                        assert(padded.deep_view() =~= blank_lines(deficit as nat) + pv);
                    },
                    RowAlignment::Center => {},
                }
                assert(padded.deep_view() =~= vpadded(pv, h as nat, va));
            }
        }
        let joined = crate::chars::join_with_char(&padded, '\n');
        let ghost ov_old = out.deep_view();
        out.push(joined);
        proof {
            assert(out.deep_view() =~= ov_old.push(out.deep_view().last()));
        }
        c2 = c2 + 1;
    }
    out
}

/// Every cell of the grid aligned to its column's width, line by line.
pub fn align_grid(
    grid: Vec<Vec<String>>,
    widths: &Vec<usize>,
    aligns: &Vec<Alignment>,
    layouts: &Vec<Option<DecimalLayout>>,
    wide: bool,
) -> (r: Vec<Vec<String>>)
    requires
        forall|i: int| 0 <= i < grid.deep_view().len() ==> (#[trigger] grid.deep_view()[i]).len()
            <= widths@.len(),
        aligns@.len() == widths@.len(),
        layouts@.len() == widths@.len(),
    ensures
        r.deep_view().len() == grid.deep_view().len(),
        forall|i: int| 0 <= i < grid.deep_view().len() ==> (#[trigger] r.deep_view()[i]).len()
            == grid.deep_view()[i].len(),
        forall|i: int, c: int|
            0 <= i < grid.deep_view().len() && 0 <= c < grid.deep_view()[i].len()
                ==> r.deep_view()[i][c] == aligned_cell(
                grid.deep_view()[i][c],
                widths@[c] as nat,
                aligns@[c],
                '.',
                layouts@[c],
                true,
                true,
                wide,
            ),
        r.deep_view() == aligned_grid_spec(grid.deep_view(), widths@, aligns@, layouts@, wide),
{
    let ghost g = grid.deep_view();
    let mut out: Vec<Vec<String>> = Vec::new();
    let mut i: usize = 0;
    while i < grid.len()
        invariant
            i <= grid.len(),
            grid.deep_view() == g,
            forall|k: int| 0 <= k < g.len() ==> (#[trigger] g[k]).len() <= widths@.len(),
            aligns@.len() == widths@.len(),
            layouts@.len() == widths@.len(),
            out.deep_view().len() == i,
            forall|k: int| 0 <= k < i ==> (#[trigger] out.deep_view()[k]).len() == g[k].len(),
            forall|k: int, c: int|
                0 <= k < i && 0 <= c < g[k].len() ==> out.deep_view()[k][c] == aligned_cell(
                    g[k][c],
                    widths@[c] as nat,
                    aligns@[c],
                    '.',
                    layouts@[c],
                    true,
                    true,
                    wide,
                ),
        decreases grid.len() - i,
    {
        proof {
            assert(grid[i as int].deep_view() == g[i as int]);
        }
        let rlen = grid[i].len();
        let mut row: Vec<String> = Vec::new();
        let mut c: usize = 0;
        while c < rlen
            invariant
                c <= rlen,
                i < grid.len(),
                grid.deep_view() == g,
                rlen as nat == g[i as int].len(),
                rlen <= widths@.len(),
                aligns@.len() == widths@.len(),
                layouts@.len() == widths@.len(),
                row.deep_view().len() == c,
                forall|k: int|
                    0 <= k < c ==> row.deep_view()[k] == aligned_cell(
                        g[i as int][k],
                        widths@[k] as nat,
                        aligns@[k],
                        '.',
                        layouts@[k],
                        true,
                        true,
                        wide,
                    ),
            decreases rlen - c,
        {
            proof {
                assert(grid[i as int][c as int]@ == g[i as int][c as int]);
            }
            let cell = crate::alignment::align_cell(
                grid[i][c].as_str(),
                widths[c],
                aligns[c],
                '.',
                layouts[c],
                true,
                true,
                wide,
            );
            let ghost dv_old = row.deep_view();
            row.push(cell);
            proof {
                assert(row.deep_view() =~= dv_old.push(row.deep_view().last()));
            }
            c = c + 1;
        }
        let ghost ov_old = out.deep_view();
        out.push(row);
        proof {
            assert(out.deep_view() =~= ov_old.push(out.deep_view().last()));
        }
        i = i + 1;
    }
    proof {
        assert forall|r: int|
            0 <= r < g.len() implies out.deep_view()[r] =~= aligned_row_spec(
            g[r],
            widths@,
            aligns@,
            layouts@,
            wide,
        ) by {}
        assert(out.deep_view() =~= aligned_grid_spec(g, widths@, aligns@, layouts@, wide));
    }
    out
}

/// A column width inflated by the format's padding on both sides, capped at
/// the word limit.
pub open spec fn padded_width(w: usize, pad: nat) -> nat {
    capped(w as nat + 2 * pad)
}

/// Inflate a width by the padding on both sides.
fn padded_w(w: usize, pad: usize) -> (r: usize)
    ensures
        r as nat == padded_width(w, pad as nat),
{
    let a = if w <= usize::MAX - pad {
        w + pad
    } else {
        usize::MAX
    };
    if a <= usize::MAX - pad {
        a + pad
    } else {
        usize::MAX
    }
}

/// Inflate every column width by the padding.
fn padded_widths(widths: &Vec<usize>, pad: usize) -> (r: Vec<usize>)
    ensures
        r@.len() == widths@.len(),
        forall|i: int| 0 <= i < widths@.len() ==> (#[trigger] r@[i]) as nat == padded_width(
            widths@[i],
            pad as nat,
        ),
        r@ == pwidths_spec(widths@, pad as nat),
{
    let mut out: Vec<usize> = Vec::new();
    let mut i: usize = 0;
    while i < widths.len()
        invariant
            i <= widths.len(),
            out@.len() == i,
            forall|k: int| 0 <= k < i ==> (#[trigger] out@[k]) as nat == padded_width(
                widths@[k],
                pad as nat,
            ),
        decreases widths.len() - i,
    {
        out.push(padded_w(widths[i], pad));
        i = i + 1;
    }
    proof {
        assert(out@ =~= pwidths_spec(widths@, pad as nat));
    }
    out
}

/// The text a structural line renders to, if the line is present: the begin
/// piece, the fill repeated over each padded column width and joined with
/// the separator, and the end piece.
pub open spec fn line_block(tv: crate::format::LineFormatV, pwidths: Seq<usize>, aligns: Seq<
    Alignment,
>) -> Option<Seq<char>> {
    match tv {
        crate::format::LineFormatV::Absent => None,
        crate::format::LineFormatV::Fixed(l) => Some(
            l.begin + crate::chars::join_seq(
                Seq::new(pwidths.len(), |i: int| crate::chars::repeat_seq(l.fill, pwidths[i] as nat)),
                l.separator,
            ) + l.end,
        ),
        crate::format::LineFormatV::Text(t) => Some(t),
        crate::format::LineFormatV::Computed(d) => Some(
            crate::format::dyn_line_text(d, pwidths, aligns),
        ),
    }
}

/// Render a structural line, if the format has one.
pub fn render_line_block(
    tpl: &crate::format::LineFormat,
    pwidths: &Vec<usize>,
    aligns: &Vec<Alignment>,
) -> (r: Option<String>)
    ensures
        match r {
            Some(s) => line_block(tpl@, pwidths@, aligns@) == Some(s@),
            None => line_block(tpl@, pwidths@, aligns@) is None,
        },
{
    match tpl {
        crate::format::LineFormat::Absent => None,
        crate::format::LineFormat::Fixed(l) => {
            let ghost target: Seq<Seq<char>> = Seq::new(
                pwidths@.len(),
                |i: int| crate::chars::repeat_seq(l@.fill, pwidths@[i] as nat),
            );
            let mut segments: Vec<String> = Vec::new();
            let mut i: usize = 0;
            while i < pwidths.len()
                invariant
                    i <= pwidths.len(),
                    segments.deep_view() =~= target.take(i as int),
                    target == Seq::new(
                        pwidths@.len(),
                        |k: int| crate::chars::repeat_seq(l@.fill, pwidths@[k] as nat),
                    ),
                decreases pwidths.len() - i,
            {
                let mut seg = String::new();
                crate::chars::append_repeat(&mut seg, l.fill.as_str(), pwidths[i]);
                proof {
                    assert(seg@ =~= target[i as int]);
                }
                let ghost dv_old = segments.deep_view();
                segments.push(seg);
                proof {
                    assert(segments.deep_view() =~= dv_old.push(target[i as int]));
                    assert(target.take(i + 1) =~= target.take(i as int).push(target[i as int]));
                }
                i = i + 1;
            }
            proof {
                assert(target.take(pwidths@.len() as int) =~= target);
            }
            let mut out = String::from_str(l.begin.as_str());
            let joined = crate::chars::join_with(&segments, l.separator.as_str());
            out.append(joined.as_str());
            out.append(l.end.as_str());
            Some(out)
        },
        crate::format::LineFormat::Text(t) => Some(String::from_str(t.as_str())),
        crate::format::LineFormat::Computed(d) => Some(
            crate::format::render_dyn_line(*d, pwidths, aligns),
        ),
    }
}

/// Line `t` of cell `c` of a row whose cells may span several lines.
pub open spec fn line_cell_at(row: Seq<Seq<char>>, c: int, t: int) -> Seq<char> {
    let ls = split_lines(row[c]);
    if 0 <= t < ls.len() {
        ls[t]
    } else {
        Seq::empty()
    }
}

/// The cells of text line `t` of a row, each padded on both sides.
pub open spec fn padded_line_cells(row: Seq<Seq<char>>, t: int, pad: nat) -> Seq<Seq<char>> {
    Seq::new(
        row.len(),
        |c: int|
            crate::chars::space_seq(pad) + line_cell_at(row, c, t) + crate::chars::space_seq(pad),
    )
}

/// The text that text line `t` of a row renders to.
pub open spec fn row_line_text(
    tv: crate::format::RowFormatV,
    row: Seq<Seq<char>>,
    t: int,
    pwidths: Seq<usize>,
    aligns: Seq<Alignment>,
    pad: nat,
) -> Seq<char> {
    let cells = padded_line_cells(row, t, pad);
    match tv {
        crate::format::RowFormatV::Absent => Seq::empty(),
        crate::format::RowFormatV::Fixed(d) => d.begin + crate::chars::join_seq(cells, d.separator)
            + d.end,
        crate::format::RowFormatV::Computed(dr) => crate::format::dyn_row_text(
            dr,
            cells,
            pwidths,
            aligns,
        ),
    }
}

/// The text lines a whole row renders to: one per line of its tallest cell.
pub open spec fn row_block(
    tv: crate::format::RowFormatV,
    row: Seq<Seq<char>>,
    pwidths: Seq<usize>,
    aligns: Seq<Alignment>,
    pad: nat,
) -> Seq<Seq<char>> {
    if tv is Absent {
        Seq::empty()
    } else {
        Seq::new(row_height(row), |t: int| row_line_text(tv, row, t, pwidths, aligns, pad))
    }
}

/// Render one row into its text lines.
pub fn render_row_block(
    tpl: &crate::format::RowFormat,
    row: &Vec<String>,
    pwidths: &Vec<usize>,
    aligns: &Vec<Alignment>,
    pad: usize,
) -> (r: Vec<String>)
    ensures
        r.deep_view() == row_block(tpl@, row.deep_view(), pwidths@, aligns@, pad as nat),
{
    let ghost rv = row.deep_view();
    if matches!(tpl, crate::format::RowFormat::Absent) {
        let out: Vec<String> = Vec::new();
        proof {
            assert(out.deep_view() =~= Seq::<Seq<char>>::empty());
        }
        return out;
    }
    let mut h: usize = 0;
    let mut c: usize = 0;
    while c < row.len()
        invariant
            c <= row.len(),
            row.deep_view() == rv,
            h as nat == row_height_upto(rv, c as int),
        decreases row.len() - c,
    {
        proof {
            assert(row[c as int]@ == rv[c as int]);
        }
        let parts = crate::chars::split_str(row[c].as_str(), '\n');
        proof {
            assert(parts.deep_view().len() == split_lines(rv[c as int]).len());
        }
        if parts.len() > h {
            h = parts.len();
        }
        c = c + 1;
    }
    proof {
        assert(h as nat == row_height(rv));
    }
    let mut out: Vec<String> = Vec::new();
    let mut t: usize = 0;
    while t < h
        invariant
            t <= h,
            row.deep_view() == rv,
            h as nat == row_height(rv),
            !(tpl@ is Absent),
            out.deep_view().len() == t,
            forall|k: int|
                0 <= k < t ==> (#[trigger] out.deep_view()[k]) == row_line_text(
                    tpl@,
                    rv,
                    k,
                    pwidths@,
                    aligns@,
                    pad as nat,
                ),
        decreases h - t,
    {
        let ghost cells_spec = padded_line_cells(rv, t as int, pad as nat);
        let mut cells: Vec<String> = Vec::new();
        let mut c2: usize = 0;
        while c2 < row.len()
            invariant
                c2 <= row.len(),
                row.deep_view() == rv,
                cells_spec == padded_line_cells(rv, t as int, pad as nat),
                cells.deep_view() =~= cells_spec.take(c2 as int),
            decreases row.len() - c2,
        {
            proof {
                assert(row[c2 as int]@ == rv[c2 as int]);
            }
            let parts = crate::chars::split_str(row[c2].as_str(), '\n');
            let mut cell = String::new();
            crate::chars::append_spaces(&mut cell, pad);
            if t < parts.len() {
                proof {
                    assert(parts[t as int]@ == parts.deep_view()[t as int]);
                }
                cell.append(parts[t].as_str());
            }
            crate::chars::append_spaces(&mut cell, pad);
            proof {
                assert(cell@ =~= cells_spec[c2 as int]);
            }
            let ghost dv_old = cells.deep_view();
            cells.push(cell);
            proof {
                assert(cells.deep_view() =~= dv_old.push(cells_spec[c2 as int]));
                assert(cells_spec.take(c2 + 1) =~= cells_spec.take(c2 as int).push(
                    cells_spec[c2 as int],
                ));
            }
            c2 = c2 + 1;
        }
        proof {
            assert(cells_spec.take(rv.len() as int) =~= cells_spec);
        }
        let line: String = match tpl {
            crate::format::RowFormat::Absent => String::new(),
            crate::format::RowFormat::Fixed(d) => {
                let mut s = String::from_str(d.begin.as_str());
                let joined = crate::chars::join_with(&cells, d.separator.as_str());
                s.append(joined.as_str());
                s.append(d.end.as_str());
                s
            },
            crate::format::RowFormat::Computed(dr) => crate::format::render_dyn_row(
                *dr,
                &cells,
                pwidths,
                aligns,
            ),
        };
        proof {
            assert(line@ =~= row_line_text(tpl@, rv, t as int, pwidths@, aligns@, pad as nat));
        }
        let ghost ov_old = out.deep_view();
        out.push(line);
        proof {
            assert(out.deep_view() =~= ov_old.push(out.deep_view().last()));
        }
        t = t + 1;
    }
    proof {
        assert(out.deep_view() =~= row_block(tpl@, rv, pwidths@, aligns@, pad as nat));
    }
    out
}

/// One optional structural line, as a (possibly empty) run of text lines.
pub open spec fn maybe_line(
    tv: crate::format::LineFormatV,
    pwidths: Seq<usize>,
    aligns: Seq<Alignment>,
    show: bool,
) -> Seq<Seq<char>> {
    if show {
        match line_block(tv, pwidths, aligns) {
            Some(l) => seq![l],
            None => Seq::empty(),
        }
    } else {
        Seq::empty()
    }
}

/// The text lines of the first `n` data rows: each row's block, with the
/// between-rows line before every row but the first when it is shown.
pub open spec fn data_rows_lines(
    row_tv: crate::format::RowFormatV,
    between_tv: crate::format::LineFormatV,
    grid: Seq<Seq<Seq<char>>>,
    pwidths: Seq<usize>,
    aligns: Seq<Alignment>,
    pad: nat,
    show_between: bool,
    n: int,
) -> Seq<Seq<char>>
    decreases n,
{
    if n <= 0 {
        Seq::empty()
    } else {
        data_rows_lines(row_tv, between_tv, grid, pwidths, aligns, pad, show_between, n - 1) + (
        if n > 1 && show_between {
            maybe_line(between_tv, pwidths, aligns, true)
        } else {
            Seq::empty()
        }) + row_block(row_tv, grid[n - 1], pwidths, aligns, pad)
    }
}

/// Every text line of the assembled table: the line above, the header block
/// and the line below it, the data rows with their between-lines, and the
/// line below — with the header-hide set suppressing its components when the
/// table has no header.
pub open spec fn assembled_lines(
    fv: crate::format::TableFormatV,
    header: Seq<Seq<char>>,
    grid: Seq<Seq<Seq<char>>>,
    pwidths: Seq<usize>,
    aligns: Seq<Alignment>,
    haligns: Seq<Alignment>,
) -> Seq<Seq<char>> {
    let has_header = header.len() > 0;
    let show_above = !(!has_header && fv.with_header_hide.contains("lineabove"@));
    let show_between = !(!has_header && fv.with_header_hide.contains("linebetweenrows"@));
    let show_below = !(!has_header && fv.with_header_hide.contains("linebelow"@));
    maybe_line(fv.line_above, pwidths, aligns, show_above) + (if has_header {
        row_block(fv.header_row, header, pwidths, haligns, fv.padding) + maybe_line(
            fv.line_below_header,
            pwidths,
            aligns,
            true,
        )
    } else {
        Seq::empty()
    }) + data_rows_lines(
        fv.data_row,
        fv.line_between_rows,
        grid,
        pwidths,
        aligns,
        fv.padding,
        show_between,
        grid.len() as int,
    ) + maybe_line(fv.line_below, pwidths, aligns, show_below)
}

/// Assemble the table's text lines from the aligned header and grid.
pub fn render_table(
    fmt: &crate::format::TableFormat,
    header: &Vec<String>,
    grid: &Vec<Vec<String>>,
    pwidths: &Vec<usize>,
    aligns: &Vec<Alignment>,
    header_aligns: &Vec<Alignment>,
) -> (r: Vec<String>)
    ensures
        r.deep_view() == assembled_lines(
            fmt@,
            header.deep_view(),
            grid.deep_view(),
            pwidths@,
            aligns@,
            header_aligns@,
        ),
{
    let ghost fv = fmt@;
    let ghost hv = header.deep_view();
    let ghost gv = grid.deep_view();
    let has_header = header.len() > 0;
    let show_above = !(!has_header && fmt.hides("lineabove"));
    let show_between = !(!has_header && fmt.hides("linebetweenrows"));
    let show_below = !(!has_header && fmt.hides("linebelow"));
    let mut lines: Vec<String> = Vec::new();
    if show_above {
        if let Some(l) = render_line_block(&fmt.line_above, pwidths, aligns) {
            lines.push(l);
        }
    }
    let ghost part1 = maybe_line(fv.line_above, pwidths@, aligns@, show_above);
    proof {
        assert(lines.deep_view() =~= part1);
    }
    if has_header {
        let hblock = render_row_block(&fmt.header_row, header, pwidths, header_aligns, fmt.padding);
        let ghost bv = hblock.deep_view();
        let ghost start = lines.deep_view();
        let mut k: usize = 0;
        while k < hblock.len()
            invariant
                k <= hblock.len(),
                hblock.deep_view() == bv,
                lines.deep_view() =~= start + bv.take(k as int),
            decreases hblock.len() - k,
        {
            let ghost dv_old = lines.deep_view();
            let piece = String::from_str(hblock[k].as_str());
            proof {
                assert(piece@ == bv[k as int]);
            }
            lines.push(piece);
            proof {
                assert(lines.deep_view() =~= dv_old.push(bv[k as int]));
                assert(bv.take(k + 1) =~= bv.take(k as int).push(bv[k as int]));
            }
            k = k + 1;
        }
        proof {
            assert(bv.take(bv.len() as int) =~= bv);
        }
        let ghost after_block = lines.deep_view();
        if let Some(l) = render_line_block(&fmt.line_below_header, pwidths, aligns) {
            let ghost lv = l@;
            lines.push(l);
            proof {
                assert(lines.deep_view() =~= after_block.push(lv));
                assert(maybe_line(fv.line_below_header, pwidths@, aligns@, true) =~= seq![lv]);
                assert(lines.deep_view() =~= part1 + (bv + seq![lv]));
            }
        } else {
            proof {
                assert(maybe_line(fv.line_below_header, pwidths@, aligns@, true)
                    =~= Seq::<Seq<char>>::empty());
                assert(bv + Seq::<Seq<char>>::empty() =~= bv);
            }
        }
    }
    let ghost part2 = part1 + (if hv.len() > 0 {
        row_block(fv.header_row, hv, pwidths@, header_aligns@, fv.padding) + maybe_line(
            fv.line_below_header,
            pwidths@,
            aligns@,
            true,
        )
    } else {
        Seq::<Seq<char>>::empty()
    });
    proof {
        assert(lines.deep_view() =~= part2);
    }
    let mut r2: usize = 0;
    while r2 < grid.len()
        invariant
            r2 <= grid.len(),
            grid.deep_view() == gv,
            fmt@ == fv,
            pwidths@ == pwidths@,
            lines.deep_view() =~= part2 + data_rows_lines(
                fv.data_row,
                fv.line_between_rows,
                gv,
                pwidths@,
                aligns@,
                fv.padding,
                show_between,
                r2 as int,
            ),
        decreases grid.len() - r2,
    {
        let ghost before = lines.deep_view();
        if r2 > 0 && show_between {
            if let Some(l) = render_line_block(&fmt.line_between_rows, pwidths, aligns) {
                lines.push(l);
            }
        }
        proof {
            assert(lines.deep_view() =~= before + (if r2 > 0 && show_between {
                maybe_line(fv.line_between_rows, pwidths@, aligns@, true)
            } else {
                Seq::<Seq<char>>::empty()
            }));
        }
        let block = render_row_block(&fmt.data_row, &grid[r2], pwidths, aligns, fmt.padding);
        proof {
            assert(grid[r2 as int].deep_view() == gv[r2 as int]);
        }
        let ghost bv = block.deep_view();
        let ghost start = lines.deep_view();
        let mut k: usize = 0;
        while k < block.len()
            invariant
                k <= block.len(),
                block.deep_view() == bv,
                lines.deep_view() =~= start + bv.take(k as int),
            decreases block.len() - k,
        {
            let ghost dv_old = lines.deep_view();
            let piece = String::from_str(block[k].as_str());
            proof {
                assert(piece@ == bv[k as int]);
            }
            lines.push(piece);
            proof {
                assert(lines.deep_view() =~= dv_old.push(bv[k as int]));
                assert(bv.take(k + 1) =~= bv.take(k as int).push(bv[k as int]));
            }
            k = k + 1;
        }
        proof {
            assert(bv.take(bv.len() as int) =~= bv);
            assert(lines.deep_view() =~= part2 + data_rows_lines(
                fv.data_row,
                fv.line_between_rows,
                gv,
                pwidths@,
                aligns@,
                fv.padding,
                show_between,
                r2 + 1,
            ));
        }
        r2 = r2 + 1;
    }
    if show_below {
        if let Some(l) = render_line_block(&fmt.line_below, pwidths, aligns) {
            lines.push(l);
        }
    }
    proof {
        assert(lines.deep_view() =~= assembled_lines(
            fv,
            hv,
            gv,
            pwidths@,
            aligns@,
            header_aligns@,
        ));
    }
    lines
}

/// Every row has exactly `n` cells.
pub open spec fn rectangular(g: Seq<Seq<Seq<char>>>, n: nat) -> bool {
    forall|r: int| 0 <= r < g.len() ==> (#[trigger] g[r]).len() == n
}

/// A non-empty header padded on the right with empty labels to the column
/// count; an empty header stays empty.
pub fn pad_header(header: Vec<String>, ncols: usize) -> (r: Vec<String>)
    requires
        header.deep_view().len() <= ncols,
    ensures
        header.deep_view().len() == 0 ==> r.deep_view() == header.deep_view(),
        header.deep_view().len() > 0 ==> {
            &&& r.deep_view().len() == ncols
            &&& forall|c: int|
                0 <= c < header.deep_view().len() ==> r.deep_view()[c] == header.deep_view()[c]
            &&& forall|c: int|
                header.deep_view().len() <= c < ncols ==> r.deep_view()[c] == Seq::<char>::empty()
        },
        r.deep_view() == crate::normalize::padded_header_spec(header.deep_view(), ncols as nat),
{
    if header.len() == 0 {
        return header;
    }
    let ghost hv = header.deep_view();
    let mut out = header;
    while out.len() < ncols
        invariant
            out.deep_view().len() <= ncols,
            hv.len() <= out.deep_view().len(),
            forall|c: int| 0 <= c < hv.len() ==> out.deep_view()[c] == hv[c],
            forall|c: int|
                hv.len() <= c < out.deep_view().len() ==> out.deep_view()[c]
                    == Seq::<char>::empty(),
        decreases ncols - out.len(),
    {
        let ghost dv_old = out.deep_view();
        out.push(String::new());
        proof {
            assert(out.deep_view() =~= dv_old.push(Seq::<char>::empty()));
        }
    }
    proof {
        assert(out.deep_view() =~= crate::normalize::padded_header_spec(hv, ncols as nat));
    }
    out
}

/// A cell's wrapped lines, joined back with newlines.
pub fn wrap_cell_join(s: &str, width: usize, bl: bool, bh: bool, wide: bool) -> (r: String)
    ensures
        r@ == crate::chars::join_char(
            crate::wrap::wrapped_cell(s@, width as nat, bl, bh, wide),
            '\n',
        ),
{
    let pieces = crate::wrap::wrap_text(s, width, bl, bh, wide);
    crate::chars::join_with_char(&pieces, '\n')
}

/// The grid after the numeric formatting of its first `c` columns: each
/// column whose parsing is on and whose integer or float format parses has
/// its numeric cells rendered under those formats.
pub open spec fn formatted_upto(g: Seq<Seq<Seq<char>>>, o: &TabulateOptions, c: int) -> Seq<
    Seq<Seq<char>>,
>
    decreases c,
{
    if c <= 0 {
        g
    } else {
        let prev = formatted_upto(g, o, c - 1);
        let isp = crate::fmtnum::int_spec_for(&o.int_format, c - 1);
        let fsp = crate::fmtnum::float_spec_for(&o.float_format, c - 1);
        if !o.numparse_disabled_for(Some((c - 1) as usize)) && (isp is Some || fsp is Some) {
            crate::fmtnum::formatted_column_spec(prev, c - 1, isp, fsp)
        } else {
            prev
        }
    }
}

/// The grid with column `c` wrapped to a width cap.
pub open spec fn wrapped_column_spec(
    g: Seq<Seq<Seq<char>>>,
    c: int,
    w: nat,
    bl: bool,
    bh: bool,
    wide: bool,
) -> Seq<Seq<Seq<char>>> {
    Seq::new(
        g.len() as nat,
        |r: int|
            Seq::new(
                g[r].len() as nat,
                |k: int|
                    if k == c {
                        crate::chars::join_char(
                            crate::wrap::wrapped_cell(g[r][c], w, bl, bh, wide),
                            '\n',
                        )
                    } else {
                        g[r][k]
                    },
            ),
    )
}

/// The grid after the width caps of its first `c` columns: a capped column
/// whose unconstrained data width exceeds the cap has every cell wrapped.
pub open spec fn capped_grid_upto(
    g: Seq<Seq<Seq<char>>>,
    o: &TabulateOptions,
    bl: bool,
    bh: bool,
    wide: bool,
    c: int,
) -> Seq<Seq<Seq<char>>>
    decreases c,
{
    if c <= 0 {
        g
    } else {
        let prev = capped_grid_upto(g, o, bl, bh, wide, c - 1);
        match cap_for(&o.max_col_widths, c - 1) {
            Some(w) => if col_width_upto(prev, c - 1, prev.len() as int, wide) > w {
                wrapped_column_spec(prev, c - 1, w as nat, bl, bh, wide)
            } else {
                prev
            },
            None => prev,
        }
    }
}

/// The header after the header width caps of its first `c` columns.
pub open spec fn capped_header_upto(
    h: Seq<Seq<char>>,
    o: &TabulateOptions,
    bl: bool,
    bh: bool,
    wide: bool,
    c: int,
) -> Seq<Seq<char>>
    decreases c,
{
    if c <= 0 || h.len() == 0 {
        h
    } else {
        let prev = capped_header_upto(h, o, bl, bh, wide, c - 1);
        match cap_for(&o.max_header_col_widths, c - 1) {
            Some(w) => if 0 <= c - 1 < prev.len() && cell_width(prev[c - 1], wide) > w {
                prev.update(
                    c - 1,
                    crate::chars::join_char(
                        crate::wrap::wrapped_cell(prev[c - 1], w as nat, bl, bh, wide),
                        '\n',
                    ),
                )
            } else {
                prev
            },
            None => prev,
        }
    }
}

/// The kind of column `c`, with its numeric-parsing toggle applied.
pub open spec fn kind_at(g: Seq<Seq<Seq<char>>>, o: &TabulateOptions, c: int) -> CellKind {
    column_kind_of(g, c, o.numparse_disabled_for(Some(c as usize)))
}

/// The resolved alignment of every column.
pub open spec fn aligns_spec(g: Seq<Seq<Seq<char>>>, o: &TabulateOptions, ncols: nat) -> Seq<
    Alignment,
> {
    Seq::new(ncols, |c: int| resolved_col_align(o, kind_at(g, o, c), c))
}

/// The resolved alignment of every header cell.
pub open spec fn header_aligns_spec(g: Seq<Seq<Seq<char>>>, o: &TabulateOptions, ncols: nat) -> Seq<
    Alignment,
> {
    Seq::new(
        ncols,
        |c: int| resolved_header_align(o, resolved_col_align(o, kind_at(g, o, c), c), c),
    )
}

/// The decimal layout of column `c` over the whole grid.
pub open spec fn layout_at(g: Seq<Seq<Seq<char>>>, c: int, wide: bool) -> (nat, nat) {
    decimal_layout_upto(g, c, g.len() as int, wide)
}

/// The decimal layout of every decimal-aligned column.
pub open spec fn layouts_spec(
    g: Seq<Seq<Seq<char>>>,
    o: &TabulateOptions,
    ncols: nat,
    wide: bool,
) -> Seq<Option<DecimalLayout>> {
    Seq::new(
        ncols,
        |c: int|
            if resolved_col_align(o, kind_at(g, o, c), c) is Decimal {
                Some(
                    DecimalLayout {
                        integer: layout_at(g, c, wide).0 as usize,
                        fraction: layout_at(g, c, wide).1 as usize,
                    },
                )
            } else {
                None
            },
    )
}

/// The columns a decimal layout needs: integer part, marker, fraction part.
pub open spec fn layout_width_of(l: (nat, nat)) -> nat {
    capped(
        l.0 + l.1 + (if l.1 > 0 {
            1nat
        } else {
            0nat
        }),
    )
}

/// The final width of column `c`: the unconstrained width, widened to the
/// decimal layout on decimal-aligned columns.
pub open spec fn width_at(
    g: Seq<Seq<Seq<char>>>,
    hv: Seq<Seq<char>>,
    o: &TabulateOptions,
    c: int,
    wide: bool,
) -> nat {
    let base = natural_col_width(g, hv, c, wide);
    if resolved_col_align(o, kind_at(g, o, c), c) is Decimal {
        max_nat(base, layout_width_of(layout_at(g, c, wide)))
    } else {
        base
    }
}

/// The final width of every column.
pub open spec fn widths_spec(
    g: Seq<Seq<Seq<char>>>,
    hv: Seq<Seq<char>>,
    o: &TabulateOptions,
    ncols: nat,
    wide: bool,
) -> Seq<usize> {
    Seq::new(ncols, |c: int| width_at(g, hv, o, c, wide) as usize)
}

/// The grid after vertical alignment: every cell padded to its row's height
/// under the row's resolved vertical alignment.
pub open spec fn valigned_grid_spec(g: Seq<Seq<Seq<char>>>, o: &TabulateOptions) -> Seq<
    Seq<Seq<char>>,
> {
    Seq::new(
        g.len() as nat,
        |r: int|
            Seq::new(
                g[r].len() as nat,
                |c: int|
                    crate::chars::join_char(
                        vpadded(split_lines(g[r][c]), row_height(g[r]), resolved_row_align(o, r)),
                        '\n',
                    ),
            ),
    )
}

/// One row with every cell aligned to its column's width.
pub open spec fn aligned_row_spec(
    row: Seq<Seq<char>>,
    widths: Seq<usize>,
    aligns: Seq<Alignment>,
    layouts: Seq<Option<DecimalLayout>>,
    wide: bool,
) -> Seq<Seq<char>> {
    Seq::new(
        row.len() as nat,
        |c: int| aligned_cell(row[c], widths[c] as nat, aligns[c], '.', layouts[c], true, true, wide),
    )
}

/// The grid with every cell aligned to its column's width.
pub open spec fn aligned_grid_spec(
    g: Seq<Seq<Seq<char>>>,
    widths: Seq<usize>,
    aligns: Seq<Alignment>,
    layouts: Seq<Option<DecimalLayout>>,
    wide: bool,
) -> Seq<Seq<Seq<char>>> {
    Seq::new(g.len() as nat, |r: int| aligned_row_spec(g[r], widths, aligns, layouts, wide))
}

/// Every column width inflated by the format's padding.
pub open spec fn pwidths_spec(widths: Seq<usize>, pad: nat) -> Seq<usize> {
    Seq::new(widths.len() as nat, |i: int| padded_width(widths[i], pad) as usize)
}

/// The whole engine as one function of the input rows, the options, and the
/// resolved format: normalization, whitespace, numeric formatting, width
/// caps, column semantics, vertical and horizontal alignment, and assembly,
/// joined into one text.
pub open spec fn tabulate_text(
    rows: Seq<Seq<Seq<char>>>,
    o: &TabulateOptions,
    fv: crate::format::TableFormatV,
) -> Seq<char> {
    let bl = o.break_long_words;
    let bh = o.break_on_hyphens;
    let wide = o.enable_widechars;
    let h0 = crate::normalize::resolved_header(&o.headers, rows);
    let d0 = crate::normalize::resolved_data(&o.headers, rows);
    let ncols0 = crate::normalize::column_count(d0, h0.len());
    let g1 = crate::normalize::padded_grid_spec(d0, ncols0, &o.missing_values);
    let h1 = crate::normalize::padded_header_spec(h0, ncols0);
    let g2 = crate::normalize::indexed_grid_spec(g1, &o.show_index);
    let h2 = crate::normalize::indexed_header_spec(h1, &o.show_index);
    let ncols: nat = if g2.len() > 0 {
        g2[0].len()
    } else {
        h2.len()
    };
    let g3 = if o.preserve_whitespace {
        g2
    } else {
        crate::fmtnum::trimmed_grid_spec(g2)
    };
    let h3 = if o.preserve_whitespace {
        h2
    } else {
        crate::fmtnum::trimmed_row_spec(h2)
    };
    let g4 = formatted_upto(g3, o, ncols as int);
    let g5 = capped_grid_upto(g4, o, bl, bh, wide, ncols as int);
    let h5 = capped_header_upto(h3, o, bl, bh, wide, ncols as int);
    let aligns = aligns_spec(g5, o, ncols);
    let haligns = header_aligns_spec(g5, o, ncols);
    let widths = widths_spec(g5, h5, o, ncols, wide);
    let layouts = layouts_spec(g5, o, ncols, wide);
    let g6 = valigned_grid_spec(g5, o);
    let g7 = aligned_grid_spec(g6, widths, aligns, layouts, wide);
    let h7 = if h5.len() > 0 {
        aligned_row_spec(h5, widths, haligns, layouts, wide)
    } else {
        h5
    };
    let pw = pwidths_spec(widths, fv.padding);
    crate::chars::join_char(assembled_lines(fv, h7, g7, pw, aligns, haligns), '\n')
}

/// The text `tabulate` returns for the configured format, when the format
/// resolves.
pub open spec fn tabulate_spec(rows: Seq<Seq<Seq<char>>>, o: &TabulateOptions) -> Seq<char> {
    match o.table_format {
        crate::options::TableFormatChoice::Name(n) => tabulate_text(
            rows,
            o,
            crate::format::builtin_format(n@)->Some_0,
        ),
        crate::options::TableFormatChoice::Custom(f) => tabulate_text(rows, o, f@),
    }
}

/// Whether the configured table format resolves: custom formats always do,
/// a named format only when the catalog holds the name.
pub open spec fn format_resolves(o: &TabulateOptions) -> bool {
    match o.table_format {
        crate::options::TableFormatChoice::Custom(_) => true,
        crate::options::TableFormatChoice::Name(n) => crate::format::builtin_format(n@) is Some,
    }
}

/// Apply the numeric formats to every column of the grid.
fn apply_formats(grid: Vec<Vec<String>>, options: &TabulateOptions, ncols: usize) -> (r: Vec<
    Vec<String>,
>)
    requires
        rectangular(grid.deep_view(), ncols as nat),
    ensures
        r.deep_view() == formatted_upto(grid.deep_view(), options, ncols as int),
        rectangular(r.deep_view(), ncols as nat),
{
    let ghost g3 = grid.deep_view();
    let mut grid = grid;
    let mut cf: usize = 0;
    while cf < ncols
        invariant
            cf <= ncols,
            grid.deep_view() == formatted_upto(g3, options, cf as int),
            rectangular(grid.deep_view(), ncols as nat),
        decreases ncols - cf,
    {
        let ghost prev = grid.deep_view();
        let disabled = options.is_numparse_disabled(Some(cf));
        let isp = crate::fmtnum::int_format_for(&options.int_format, cf);
        let fsp = crate::fmtnum::float_format_for(&options.float_format, cf);
        if !disabled && (isp.is_some() || fsp.is_some()) {
            grid = crate::fmtnum::format_column(grid, cf, isp, fsp);
            proof {
                assert(grid.deep_view() == formatted_upto(g3, options, cf + 1));
                assert forall|i: int|
                    0 <= i < grid.deep_view().len() implies (#[trigger] grid.deep_view()[i]).len()
                    == ncols as nat by {
                    assert(prev[i].len() == ncols as nat);
                }
            }
        } else {
            proof {
                assert(grid.deep_view() == formatted_upto(g3, options, cf + 1));
            }
        }
        cf = cf + 1;
    }
    grid
}

/// Apply the width caps: wrap the cells of capped columns that exceed their
/// cap, and capped header cells likewise.
fn apply_caps(
    grid: Vec<Vec<String>>,
    header: Vec<String>,
    options: &TabulateOptions,
    bl: bool,
    bh: bool,
    wide: bool,
    ncols: usize,
) -> (r: (Vec<Vec<String>>, Vec<String>))
    requires
        rectangular(grid.deep_view(), ncols as nat),
        header.deep_view().len() == 0 || header.deep_view().len() == ncols as nat,
    ensures
        r.0.deep_view() == capped_grid_upto(grid.deep_view(), options, bl, bh, wide, ncols as int),
        r.1.deep_view() == capped_header_upto(
            header.deep_view(),
            options,
            bl,
            bh,
            wide,
            ncols as int,
        ),
        rectangular(r.0.deep_view(), ncols as nat),
        r.1.deep_view().len() == header.deep_view().len(),
{
    let ghost g4 = grid.deep_view();
    let ghost h3 = header.deep_view();
    let mut grid = grid;
    let mut header = header;
    let mut c: usize = 0;
    while c < ncols
        invariant
            c <= ncols,
            grid.deep_view() == capped_grid_upto(g4, options, bl, bh, wide, c as int),
            header.deep_view() == capped_header_upto(h3, options, bl, bh, wide, c as int),
            rectangular(grid.deep_view(), ncols as nat),
            header.deep_view().len() == h3.len(),
            h3.len() == 0 || h3.len() == ncols as nat,
        decreases ncols - c,
    {
        let ghost prev = grid.deep_view();
        let ghost prev_h = header.deep_view();
        if let Some(w) = cap_at(&options.max_col_widths, c) {
            let natural = data_col_width(&grid, c, wide);
            if natural > w {
                grid = wrap_column(grid, c, w, bl, bh, wide);
                proof {
                    assert forall|i: int|
                        0 <= i < prev.len() implies grid.deep_view()[i] =~= wrapped_column_spec(
                        prev,
                        c as int,
                        w as nat,
                        bl,
                        bh,
                        wide,
                    )[i] by {}
                    assert(grid.deep_view() =~= wrapped_column_spec(
                        prev,
                        c as int,
                        w as nat,
                        bl,
                        bh,
                        wide,
                    ));
                    assert(grid.deep_view() == capped_grid_upto(g4, options, bl, bh, wide, c + 1));
                }
            } else {
                proof {
                    assert(grid.deep_view() == capped_grid_upto(g4, options, bl, bh, wide, c + 1));
                }
            }
        } else {
            proof {
                assert(grid.deep_view() == capped_grid_upto(g4, options, bl, bh, wide, c + 1));
            }
        }
        if header.len() > 0 {
            if let Some(w) = cap_at(&options.max_header_col_widths, c) {
                let hw = cell_width_of(header[c].as_str(), wide);
                if hw > w {
                    proof {
                        assert(header[c as int]@ == header.deep_view()[c as int]);
                    }
                    let wrapped = wrap_cell_join(header[c].as_str(), w, bl, bh, wide);
                    header.set(c, wrapped);
                    proof {
                        assert(header.deep_view() =~= prev_h.update(
                            c as int,
                            crate::chars::join_char(
                                crate::wrap::wrapped_cell(prev_h[c as int], w as nat, bl, bh, wide),
                                '\n',
                            ),
                        ));
                        assert(header.deep_view() == capped_header_upto(
                            h3,
                            options,
                            bl,
                            bh,
                            wide,
                            c + 1,
                        ));
                    }
                } else {
                    proof {
                        assert(header.deep_view() == capped_header_upto(
                            h3,
                            options,
                            bl,
                            bh,
                            wide,
                            c + 1,
                        ));
                    }
                }
            } else {
                proof {
                    assert(header.deep_view() == capped_header_upto(
                        h3,
                        options,
                        bl,
                        bh,
                        wide,
                        c + 1,
                    ));
                }
            }
        } else {
            proof {
                assert(header.deep_view() == capped_header_upto(h3, options, bl, bh, wide, c + 1));
            }
        }
        c = c + 1;
    }
    (grid, header)
}

/// Resolve the alignments, widths and decimal layouts of every column.
#[verifier::rlimit(60)]
fn solve_columns(
    grid: &Vec<Vec<String>>,
    header: &Vec<String>,
    options: &TabulateOptions,
    ncols: usize,
    wide: bool,
) -> (r: (Vec<Alignment>, Vec<Alignment>, Vec<usize>, Vec<Option<DecimalLayout>>))
    requires
        rectangular(grid.deep_view(), ncols as nat),
        header.deep_view().len() == 0 || header.deep_view().len() == ncols as nat,
    ensures
        r.0@ == aligns_spec(grid.deep_view(), options, ncols as nat),
        r.1@ == header_aligns_spec(grid.deep_view(), options, ncols as nat),
        r.2@ == widths_spec(grid.deep_view(), header.deep_view(), options, ncols as nat, wide),
        r.3@ == layouts_spec(grid.deep_view(), options, ncols as nat, wide),
{
    let ghost g5 = grid.deep_view();
    let ghost h5 = header.deep_view();
    let ghost aligns_s = aligns_spec(g5, options, ncols as nat);
    let ghost haligns_s = header_aligns_spec(g5, options, ncols as nat);
    let ghost widths_s = widths_spec(g5, h5, options, ncols as nat, wide);
    let ghost layouts_s = layouts_spec(g5, options, ncols as nat, wide);
    let mut aligns: Vec<Alignment> = Vec::new();
    let mut header_aligns: Vec<Alignment> = Vec::new();
    let mut widths: Vec<usize> = Vec::new();
    let mut layouts: Vec<Option<DecimalLayout>> = Vec::new();
    let mut c2: usize = 0;
    while c2 < ncols
        invariant
            c2 <= ncols,
            grid.deep_view() == g5,
            header.deep_view() == h5,
            rectangular(g5, ncols as nat),
            h5.len() == 0 || h5.len() == ncols as nat,
            aligns_s == aligns_spec(g5, options, ncols as nat),
            haligns_s == header_aligns_spec(g5, options, ncols as nat),
            widths_s == widths_spec(g5, h5, options, ncols as nat, wide),
            layouts_s == layouts_spec(g5, options, ncols as nat, wide),
            aligns@ =~= aligns_s.take(c2 as int),
            header_aligns@ =~= haligns_s.take(c2 as int),
            widths@ =~= widths_s.take(c2 as int),
            layouts@ =~= layouts_s.take(c2 as int),
        decreases ncols - c2,
    {
        let disabled = options.is_numparse_disabled(Some(c2));
        let kind = column_kind(grid, c2, disabled);
        proof {
            assert(kind == kind_at(g5, options, c2 as int));
        }
        let a = col_align_for(options, kind, c2);
        let ha = header_align_for(options, a, c2);
        let mut w = data_col_width(grid, c2, wide);
        if header.len() > 0 {
            let hw = cell_width_of(header[c2].as_str(), wide);
            proof {
                assert(header[c2 as int]@ == h5[c2 as int]);
            }
            if hw > w {
                w = hw;
            }
        }
        proof {
            assert(w as nat == natural_col_width(g5, h5, c2 as int, wide));
        }
        let layout: Option<DecimalLayout> = if matches!(a, Alignment::Decimal) {
            let l = decimal_layout_for(grid, c2, wide);
            let base: usize = if l.integer <= usize::MAX - l.fraction {
                l.integer + l.fraction
            } else {
                usize::MAX
            };
            let lw: usize = if l.fraction > 0 && base < usize::MAX {
                base + 1
            } else {
                base
            };
            proof {
                assert(lw as nat == layout_width_of(layout_at(g5, c2 as int, wide)));
            }
            if lw > w {
                w = lw;
            }
            Some(l)
        } else {
            None
        };
        proof {
            assert(w as nat == width_at(g5, h5, options, c2 as int, wide));
            assert(w == widths_s[c2 as int]);
            assert(layout == layouts_s[c2 as int]);
            assert(a == aligns_s[c2 as int]);
            assert(ha == haligns_s[c2 as int]);
        }
        aligns.push(a);
        header_aligns.push(ha);
        widths.push(w);
        layouts.push(layout);
        proof {
            assert(aligns@ =~= aligns_s.take(c2 + 1));
            assert(header_aligns@ =~= haligns_s.take(c2 + 1));
            assert(widths@ =~= widths_s.take(c2 + 1));
            assert(layouts@ =~= layouts_s.take(c2 + 1));
        }
        c2 = c2 + 1;
    }
    proof {
        assert(aligns@ =~= aligns_s);
        assert(header_aligns@ =~= haligns_s);
        assert(widths@ =~= widths_s);
        assert(layouts@ =~= layouts_s);
    }
    (aligns, header_aligns, widths, layouts)
}

/// Pad every cell of every row to its row's height.
fn valign_grid(grid: &Vec<Vec<String>>, options: &TabulateOptions, ncols: usize) -> (r: Vec<
    Vec<String>,
>)
    requires
        rectangular(grid.deep_view(), ncols as nat),
    ensures
        r.deep_view() == valigned_grid_spec(grid.deep_view(), options),
        rectangular(r.deep_view(), ncols as nat),
{
    let ghost g5 = grid.deep_view();
    let mut vgrid: Vec<Vec<String>> = Vec::new();
    let mut r: usize = 0;
    while r < grid.len()
        invariant
            r <= grid.len(),
            grid.deep_view() == g5,
            rectangular(g5, ncols as nat),
            vgrid.deep_view() =~= valigned_grid_spec(g5, options).take(r as int),
            rectangular(vgrid.deep_view(), ncols as nat),
        decreases grid.len() - r,
    {
        let va = row_align_for(options, r);
        let row_copy = crate::chars::clone_string_vec(&grid[r]);
        proof {
            assert(grid[r as int].deep_view() == g5[r as int]);
        }
        let padded = valign_row(row_copy, va);
        proof {
            assert(padded.deep_view() =~= valigned_grid_spec(g5, options)[r as int]);
        }
        let ghost vv_old = vgrid.deep_view();
        vgrid.push(padded);
        proof {
            assert(vgrid.deep_view() =~= vv_old.push(padded.deep_view()));
            assert(valigned_grid_spec(g5, options).take(r + 1) =~= valigned_grid_spec(
                g5,
                options,
            ).take(r as int).push(valigned_grid_spec(g5, options)[r as int]));
        }
        r = r + 1;
    }
    proof {
        assert(vgrid.deep_view() =~= valigned_grid_spec(g5, options).take(g5.len() as int));
        assert(valigned_grid_spec(g5, options).take(g5.len() as int) =~= valigned_grid_spec(
            g5,
            options,
        ));
    }
    vgrid
}

/// Render tabular data as formatted text.
///
/// The rows are normalized into a rectangular grid, columns are classified
/// and capped, cells are wrapped, vertically and horizontally aligned, and
/// the table format's templates assemble the output. The call fails exactly
/// when a format name is requested that the catalog does not hold, and a
/// successful call returns exactly the text that [`tabulate_spec`] gives
/// for the input rows and options.
#[verifier::rlimit(100)]
pub fn tabulate(rows: Vec<Vec<String>>, options: &TabulateOptions) -> (r: Result<
    String,
    TabulateError,
>)
    ensures
        r is Ok <==> format_resolves(options),
        r matches Ok(s) ==> s@ == tabulate_spec(rows.deep_view(), options),
        r matches Err(e) ==> (e matches TabulateError::UnknownFormat(m)
            && options.table_format matches crate::options::TableFormatChoice::Name(n) && m@
            == n@),
{
    let ghost rv = rows.deep_view();
    let fmt: crate::format::TableFormat = match &options.table_format {
        crate::options::TableFormatChoice::Name(n) => {
            match crate::format::table_format(n.as_str()) {
                Some(f) => f,
                None => {
                    return Err(TabulateError::UnknownFormat(String::from_str(n.as_str())));
                },
            }
        },
        crate::options::TableFormatChoice::Custom(f) => crate::format::clone_table_format(&**f),
    };
    let ghost fv = fmt@;
    let wide = options.enable_widechars;
    let bl = options.break_long_words;
    let bh = options.break_on_hyphens;

    // Normalize: header resolution, rectangular fill, header padding, index.
    let (header0, data) = crate::normalize::resolve_header(rows, &options.headers);
    let ghost h0 = crate::normalize::resolved_header(&options.headers, rv);
    let ghost d0 = crate::normalize::resolved_data(&options.headers, rv);
    let hlen0 = header0.len();
    let ghost dv = data.deep_view();
    let (grid0, ncols0) = crate::normalize::pad_rows(data, hlen0, &options.missing_values);
    proof {
        crate::normalize::lemma_column_count_bounds(dv, hlen0 as nat);
    }
    let header1 = pad_header(header0, ncols0);
    let ghost g0v = grid0.deep_view();
    let (header, grid) = crate::normalize::apply_index(header1, grid0, &options.show_index);
    let ghost g2 = crate::normalize::indexed_grid_spec(
        crate::normalize::padded_grid_spec(
            d0,
            crate::normalize::column_count(d0, h0.len()),
            &options.missing_values,
        ),
        &options.show_index,
    );
    let ghost h2 = crate::normalize::indexed_header_spec(
        crate::normalize::padded_header_spec(h0, crate::normalize::column_count(d0, h0.len())),
        &options.show_index,
    );
    proof {
        assert(grid.deep_view() == g2);
        assert(header.deep_view() == h2);
        if crate::normalize::index_label(&options.show_index, 0) is Some {
            assert forall|i: int|
                0 <= i < grid.deep_view().len() implies (#[trigger] grid.deep_view()[i]).len() == 1
                + ncols0 as nat by {
                assert(grid.deep_view()[i] =~= seq![
                    crate::normalize::index_label(&options.show_index, i)->Some_0,
                ] + g0v[i]);
            }
        } else {
            assert(grid.deep_view() == g0v);
        }
    }
    let ncols: usize = if grid.len() > 0 {
        proof {
            assert(grid[0].deep_view() == grid.deep_view()[0]);
        }
        grid[0].len()
    } else {
        header.len()
    };
    proof {
        assert(rectangular(grid.deep_view(), ncols as nat));
        assert(header.deep_view().len() == 0 || header.deep_view().len() == ncols as nat);
        assert(ncols as nat == (if g2.len() > 0 {
            g2[0].len()
        } else {
            h2.len()
        }));
    }

    let mut grid = grid;
    let mut header = header;

    // Whitespace: strip cell text at both ends unless preservation is on.
    if !options.preserve_whitespace {
        grid = crate::fmtnum::trim_grid(grid);
        header = crate::fmtnum::trim_row(&header);
        proof {
            assert(rectangular(grid.deep_view(), ncols as nat));
        }
    }
    let ghost g3 = if options.preserve_whitespace {
        g2
    } else {
        crate::fmtnum::trimmed_grid_spec(g2)
    };
    let ghost h3 = if options.preserve_whitespace {
        h2
    } else {
        crate::fmtnum::trimmed_row_spec(h2)
    };
    proof {
        assert(grid.deep_view() == g3);
        assert(header.deep_view() == h3);
    }

    // Numeric formatting: integer and float cells under their column's
    // format specifications.
    grid = apply_formats(grid, options, ncols);
    let ghost g4 = formatted_upto(g3, options, ncols as int);
    proof {
        assert(grid.deep_view() == g4);
    }

    // Width caps: wrap the cells of capped columns that exceed their cap.
    let capped_parts = apply_caps(grid, header, options, bl, bh, wide, ncols);
    let grid = capped_parts.0;
    let header = capped_parts.1;
    let ghost g5 = capped_grid_upto(g4, options, bl, bh, wide, ncols as int);
    let ghost h5 = capped_header_upto(h3, options, bl, bh, wide, ncols as int);
    proof {
        assert(grid.deep_view() == g5);
        assert(header.deep_view() == h5);
    }

    // Column semantics: kind, alignments, widths and decimal layouts.
    let ghost aligns_s = aligns_spec(g5, options, ncols as nat);
    let ghost haligns_s = header_aligns_spec(g5, options, ncols as nat);
    let ghost widths_s = widths_spec(g5, h5, options, ncols as nat, wide);
    let ghost layouts_s = layouts_spec(g5, options, ncols as nat, wide);
    let solved = solve_columns(&grid, &header, options, ncols, wide);
    let aligns = solved.0;
    let header_aligns = solved.1;
    let widths = solved.2;
    let layouts = solved.3;

    // Vertical alignment: every cell of a row padded to the row's height.
    let vgrid = valign_grid(&grid, options, ncols);
    let ghost g6 = valigned_grid_spec(g5, options);
    proof {
        assert(vgrid.deep_view() == g6);
    }

    // Horizontal alignment to the final column widths.
    let agrid = align_grid(vgrid, &widths, &aligns, &layouts, wide);
    let ghost g7 = aligned_grid_spec(g6, widths_s, aligns_s, layouts_s, wide);
    proof {
        assert(agrid.deep_view() == g7);
    }
    let aheader: Vec<String> = if header.len() > 0 {
        let mut hgrid: Vec<Vec<String>> = Vec::new();
        hgrid.push(header);
        proof {
            assert(hgrid.deep_view() =~= seq![h5]);
        }
        let ah = align_grid(hgrid, &widths, &header_aligns, &layouts, wide);
        let out = crate::chars::clone_string_vec(&ah[0]);
        proof {
            assert(ah[0].deep_view() == ah.deep_view()[0]);
            assert(out.deep_view() =~= aligned_row_spec(h5, widths_s, haligns_s, layouts_s, wide));
        }
        out
    } else {
        header
    };
    let ghost h7 = if h5.len() > 0 {
        aligned_row_spec(h5, widths_s, haligns_s, layouts_s, wide)
    } else {
        h5
    };
    proof {
        assert(aheader.deep_view() == h7);
    }

    // Assembly: structural lines and row templates, with the header-hide
    // set applied when the table has no header.
    let pw = padded_widths(&widths, fmt.padding);
    let lines = render_table(&fmt, &aheader, &agrid, &pw, &aligns, &header_aligns);
    let out = crate::chars::join_with_char(&lines, '\n');
    proof {
        assert(out@ == tabulate_text(rv, options, fv));
        assert(out@ == tabulate_spec(rv, options));
    }
    Ok(out)
}

} // verus!
