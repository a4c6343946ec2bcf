//! Laws of the engine: rectangularity of rendered rows, width conformance,
//! decimal alignment, and the round trip through a bare delimiter format.

use vstd::prelude::*;

use crate::alignment::{aligned_left, DecimalLayout};
use crate::alignment::Alignment;
use crate::chars::{
    find_char, is_ws, join_char, join_seq, lemma_find_char_bounds, space_seq, split_char,
    split_char_from, split_lines, trim_end_idx, trim_end_seq,
};
use crate::format::{DataRowV, RowFormatV};
use crate::table::{
    cell_width, col_width_upto, lines_width_max, natural_col_width, padded_line_cells,
    row_line_text,
};
use crate::width::{capped, vwidth};

verus! {

/// Each cell of a column is at most as wide as the column's running
/// maximum.
pub proof fn lemma_col_width_upto_bound(g: Seq<Seq<Seq<char>>>, c: int, n: int, wide: bool)
    ensures
        forall|r: int| 0 <= r < n ==> cell_width(#[trigger] g[r][c], wide) <= col_width_upto(
            g,
            c,
            n,
            wide,
        ),
    decreases n,
{
    if n > 0 {
        lemma_col_width_upto_bound(g, c, n - 1, wide);
    }
}

/// Rectangularity: every text line that a fixed row template renders is the
/// template's begin piece, exactly one padded cell per column joined with
/// the separator, and the end piece. Two rows with the same column count
/// therefore render with the same number of cell segments, whatever their
/// content.
pub proof fn law_renderer_rectangular(
    d: DataRowV,
    row1: Seq<Seq<char>>,
    row2: Seq<Seq<char>>,
    t1: int,
    t2: int,
    pwidths: Seq<usize>,
    aligns: Seq<Alignment>,
    pad: nat,
)
    requires
        row1.len() == row2.len(),
    ensures
        row_line_text(RowFormatV::Fixed(d), row1, t1, pwidths, aligns, pad) == d.begin + join_seq(
            padded_line_cells(row1, t1, pad),
            d.separator,
        ) + d.end,
        padded_line_cells(row1, t1, pad).len() == row1.len(),
        padded_line_cells(row2, t2, pad).len() == row2.len(),
        padded_line_cells(row1, t1, pad).len() == padded_line_cells(row2, t2, pad).len(),
{
}

/// Width conformance: every line of every cell of a column is at most as
/// wide as the column's unconstrained width — the widest cell of the
/// column, header included. The engine's final column width only grows from
/// there (explicit caps and decimal layouts can widen it, never narrow it),
/// so every post-wrap line fits the effective column width.
pub proof fn law_width_conformance(
    g: Seq<Seq<Seq<char>>>,
    hv: Seq<Seq<char>>,
    c: int,
    r: int,
    t: int,
    wide: bool,
)
    requires
        0 <= r < g.len(),
        0 <= t < split_lines(g[r][c]).len(),
    ensures
        capped(vwidth(split_lines(g[r][c])[t], wide)) <= natural_col_width(g, hv, c, wide),
{
    crate::table::lemma_lines_width_max_bound(split_lines(g[r][c]), wide);
    lemma_col_width_upto_bound(g, c, g.len() as int, wide);
}

/// The header cell of a column is also at most as wide as the column's
/// unconstrained width.
pub proof fn law_header_width_conformance(
    g: Seq<Seq<Seq<char>>>,
    hv: Seq<Seq<char>>,
    c: int,
    t: int,
    wide: bool,
)
    requires
        0 <= c < hv.len(),
        0 <= t < split_lines(hv[c]).len(),
    ensures
        capped(vwidth(split_lines(hv[c])[t], wide)) <= natural_col_width(g, hv, c, wide),
{
    crate::table::lemma_lines_width_max_bound(split_lines(hv[c]), wide);
}

/// Idempotence of normalization: a grid that keeps every present cell of
/// its source and fills only the missing ones is the source itself when the
/// source is already rectangular at the resolved column count. The
/// rectangular fill guarantees exactly these premises of its output.
pub proof fn law_normalize_idempotent(
    g: Seq<Seq<Seq<char>>>,
    d: Seq<Seq<Seq<char>>>,
    n: nat,
)
    requires
        g.len() == d.len(),
        forall|i: int| 0 <= i < g.len() ==> (#[trigger] g[i]).len() == n,
        forall|i: int, c: int|
            0 <= i < d.len() && 0 <= c < d[i].len() ==> g[i][c] == d[i][c],
        forall|i: int| 0 <= i < d.len() ==> (#[trigger] d[i]).len() == n,
    ensures
        g =~~= d,
{
    assert forall|i: int| 0 <= i < g.len() implies g[i] =~= d[i] by {
        assert(d[i].len() == n);
    }
}

proof fn lemma_find_drop_first(s: Seq<char>, c: char, j: int)
    requires
        1 <= j <= s.len(),
    ensures
        find_char(s, c, j) == 1 + find_char(s.drop_first(), c, j - 1),
    decreases s.len() - j,
{
    if j < s.len() {
        assert(s[j] == s.drop_first()[j - 1]);
        if s[j] != c {
            lemma_find_drop_first(s, c, j + 1);
        }
    }
}

proof fn lemma_split_drop_first(s: Seq<char>, c: char, j: int)
    requires
        1 <= j <= s.len(),
    ensures
        split_char_from(s, c, j) == split_char_from(s.drop_first(), c, j - 1),
    decreases s.len() - j,
{
    lemma_find_drop_first(s, c, j);
    lemma_find_char_bounds(s, c, j);
    let m = find_char(s, c, j);
    if m < s.len() {
        assert(s.subrange(j, m) =~= s.drop_first().subrange(j - 1, m - 1));
        lemma_split_drop_first(s, c, m + 1);
    } else {
        assert(s.subrange(j, s.len() as int) =~= s.drop_first().subrange(
            j - 1,
            s.drop_first().len() as int,
        ));
    }
}

proof fn lemma_split_shift(s: Seq<char>, c: char, i: int)
    requires
        0 <= i <= s.len(),
    ensures
        split_char_from(s, c, i) == split_char(s.skip(i), c),
    decreases i,
{
    if i == 0 {
        assert(s.skip(0) =~= s);
    } else {
        lemma_split_drop_first(s, c, i);
        lemma_split_shift(s.drop_first(), c, i - 1);
        assert(s.drop_first().skip(i - 1) =~= s.skip(i));
    }
}

proof fn lemma_find_char_exact_from(s: Seq<char>, c: char, i: int, m: int)
    requires
        0 <= i <= m < s.len(),
        s[m] == c,
        forall|k: int| i <= k < m ==> s[k] != c,
    ensures
        find_char(s, c, i) == m,
    decreases m - i,
{
    if i < m {
        lemma_find_char_exact_from(s, c, i + 1, m);
    }
}

/// Splitting on a delimiter undoes joining with it, as long as no part
/// holds the delimiter.
pub proof fn lemma_split_join(parts: Seq<Seq<char>>, c: char)
    requires
        parts.len() >= 1,
        forall|i: int| 0 <= i < parts.len() ==> !(#[trigger] parts[i]).contains(c),
    ensures
        split_char(join_char(parts, c), c) == parts,
    decreases parts.len(),
{
    let s = join_char(parts, c);
    if parts.len() == 1 {
        assert(s == parts[0]);
        lemma_find_char_bounds(s, c, 0);
        if find_char(s, c, 0) < s.len() {
            assert(s.contains(c));
        }
        assert(split_char(s, c) =~= seq![s.subrange(0, s.len() as int)]);
        assert(s.subrange(0, s.len() as int) =~= s);
        assert(split_char(s, c) =~= parts);
    } else {
        let rest = join_char(parts.drop_first(), c);
        assert(s == parts[0] + seq![c] + rest);
        let m = parts[0].len() as int;
        assert(s[m] == c);
        assert forall|k: int| 0 <= k < m implies s[k] != c by {
            assert(s[k] == parts[0][k]);
            if parts[0][k] == c {
                assert(parts[0].contains(c));
            }
        }
        lemma_find_char_exact_from(s, c, 0, m);
        assert(s.subrange(0, m) =~= parts[0]);
        lemma_split_shift(s, c, m + 1);
        assert(s.skip(m + 1) =~= rest);
        assert(forall|i: int|
            0 <= i < parts.drop_first().len() ==> !(#[trigger] parts.drop_first()[i]).contains(c));
        lemma_split_join(parts.drop_first(), c);
        assert(split_char(s, c) =~= seq![parts[0]] + parts.drop_first());
        assert(seq![parts[0]] + parts.drop_first() =~= parts);
    }
}

proof fn lemma_trim_end_ws_run(s: Seq<char>, m: int, i: int)
    requires
        0 <= m <= i <= s.len(),
        forall|k: int| m <= k < i ==> is_ws(s[k]),
    ensures
        trim_end_idx(s, i) == trim_end_idx(s, m),
    decreases i - m,
{
    if i > m {
        lemma_trim_end_ws_run(s, m, i - 1);
    }
}

/// Trimming trailing blanks undoes left alignment, as long as the original
/// text does not itself end in whitespace.
pub proof fn lemma_trim_aligned_left(line: Seq<char>, width: nat, wide: bool)
    requires
        line.len() == 0 || !is_ws(line[line.len() - 1]),
    ensures
        trim_end_seq(aligned_left(line, width, wide)) == line,
{
    let al = aligned_left(line, width, wide);
    if vwidth(line, wide) >= width {
        assert(al == line);
        crate::chars::lemma_trim_end_noop(line);
    } else {
        let k = (width - vwidth(line, wide)) as nat;
        assert(al == line + space_seq(k));
        assert forall|j: int| line.len() <= j < al.len() implies is_ws(al[j]) by {
            assert(al[j] == space_seq(k)[j - line.len()]);
        }
        lemma_trim_end_ws_run(al, line.len() as int, al.len() as int);
        if line.len() > 0 {
            assert(al[line.len() - 1] == line[line.len() - 1]);
            assert(trim_end_idx(al, line.len() as int) == line.len());
        } else {
            assert(trim_end_idx(al, 0) == 0);
        }
        assert(trim_end_seq(al) =~= line);
    }
}

/// Round trip through a bare delimiter format: cells left-aligned to their
/// column widths and joined with a single-character delimiter split back on
/// that delimiter into the aligned cells, and trimming each recovered
/// cell's trailing blanks restores the original text. This holds whenever
/// no cell holds the delimiter, the delimiter is not a blank, and no cell
/// ends in whitespace.
pub proof fn law_round_trip(cells: Seq<Seq<char>>, widths: Seq<nat>, sep: char, wide: bool)
    requires
        cells.len() >= 1,
        widths.len() == cells.len(),
        sep != ' ',
        forall|i: int| 0 <= i < cells.len() ==> !(#[trigger] cells[i]).contains(sep),
        forall|i: int|
            0 <= i < cells.len() ==> ((#[trigger] cells[i]).len() == 0 || !is_ws(
                cells[i][cells[i].len() - 1],
            )),
    ensures
        ({
            let aligned = Seq::new(cells.len(), |j: int| aligned_left(cells[j], widths[j], wide));
            &&& split_char(join_char(aligned, sep), sep) == aligned
            &&& forall|i: int|
                0 <= i < cells.len() ==> trim_end_seq(
                    split_char(join_char(aligned, sep), sep)[i],
                ) == cells[i]
        }),
{
    let aligned = Seq::new(cells.len(), |j: int| aligned_left(cells[j], widths[j], wide));
    assert forall|i: int| 0 <= i < aligned.len() implies !(#[trigger] aligned[i]).contains(sep) by {
        let al = aligned[i];
        if al.contains(sep) {
            let w = choose|w: int| 0 <= w < al.len() && al[w] == sep;
            if vwidth(cells[i], wide) >= widths[i] {
                assert(cells[i].contains(sep));
            } else {
                if w < cells[i].len() {
                    assert(al[w] == cells[i][w]);
                    assert(cells[i].contains(sep));
                } else {
                    assert(al[w] == ' ');
                }
            }
        }
    }
    lemma_split_join(aligned, sep);
    assert forall|i: int|
        0 <= i < cells.len() implies trim_end_seq(
        split_char(join_char(aligned, sep), sep)[i],
    ) == cells[i] by {
        lemma_trim_aligned_left(cells[i], widths[i], wide);
    }
}

/// Per-line width of alignment: on escape-free text, a line aligned left,
/// right or centred is exactly as wide as the target width or as its own
/// text, whichever is more. In particular a line that fits is padded to
/// exactly the column width and never beyond it.
pub proof fn law_aligned_line_width(
    line: Seq<char>,
    width: nat,
    a: Alignment,
    marker: char,
    layout: Option<DecimalLayout>,
    wide: bool,
)
    requires
        crate::width::esc_free(line),
        a != Alignment::Decimal,
    ensures
        vwidth(crate::alignment::aligned_line(line, width, a, marker, layout, wide), wide)
            == crate::table::max_nat(width, vwidth(line, wide)),
{
    let vw = vwidth(line, wide);
    match a {
        Alignment::Left => {
            if vw < width {
                crate::width::lemma_space_seq_width((width - vw) as nat, wide);
                crate::width::lemma_vwidth_free_concat(line, space_seq((width - vw) as nat), wide);
            }
        },
        Alignment::Right => {
            if vw < width {
                crate::width::lemma_space_seq_width((width - vw) as nat, wide);
                crate::width::lemma_vwidth_free_concat(space_seq((width - vw) as nat), line, wide);
            }
        },
        Alignment::Center => {
            if vw < width {
                let pad = (width - vw) as nat;
                let left = pad / 2;
                crate::width::lemma_space_seq_width(left, wide);
                crate::width::lemma_space_seq_width((pad - left) as nat, wide);
                crate::width::lemma_vwidth_free_concat(space_seq(left), line, wide);
                crate::width::lemma_vwidth_free_concat(
                    space_seq(left) + line,
                    space_seq((pad - left) as nat),
                    wide,
                );
            }
        },
        Alignment::Decimal => {},
    }
}

/// Decimal alignment of a line without a marker: the line is padded on the
/// left so that its end lands at the layout's integer boundary, and carries
/// exactly the layout's fraction width in trailing blanks.
pub proof fn lemma_decimal_no_marker(
    x: Seq<char>,
    width: nat,
    marker: char,
    layout: DecimalLayout,
    wide: bool,
)
    requires
        crate::width::esc_free(x),
        !x.contains(marker),
        layout.fraction > 0,
        vwidth(x, wide) <= layout.integer as nat,
    ensures
        ({
            let li = layout.integer as nat;
            let lf = layout.fraction as nat;
            let fpad: nat = if li + lf < width {
                (width - li - lf) as nat
            } else {
                0
            };
            let lead: nat = (fpad + (li - vwidth(x, wide))) as nat;
            crate::alignment::aligned_decimal(x, width, marker, Some(layout), wide) == space_seq(
                lead,
            ) + x + space_seq(lf)
        }),
{
    let li = layout.integer as nat;
    let lf = layout.fraction as nat;
    let p = find_char(x, marker, 0);
    lemma_find_char_bounds(x, marker, 0);
    if p < x.len() {
        assert(x.contains(marker));
    }
    assert(x.take(p) =~= x);
    let iw = vwidth(x, wide);
    let spi = space_seq((li - iw) as nat);
    crate::width::lemma_space_seq_width((li - iw) as nat, wide);
    crate::width::lemma_vwidth_free_concat(spi, x, wide);
    let with_int = spi + x;
    assert(vwidth(with_int, wide) == li);
    let spf = space_seq(lf);
    crate::width::lemma_space_seq_width(lf, wide);
    crate::width::lemma_vwidth_free_concat(with_int, spf, wide);
    let core = crate::alignment::decimal_core(x, li, lf, marker, wide);
    assert(core =~= with_int + spf) by {
        if iw < li {
        } else {
            assert(iw == li);
            assert(spi =~= Seq::<char>::empty());
            assert(spi + x =~= x);
        }
    }
    let cw = vwidth(core, wide);
    assert(cw == li + lf);
    let fpad: nat = if cw < width {
        (width - cw) as nat
    } else {
        0
    };
    let out = crate::alignment::aligned_decimal(x, width, marker, Some(layout), wide);
    let spo = space_seq(fpad);
    assert(out =~= spo + core) by {
        if cw < width {
        } else {
            assert(spo =~= Seq::<char>::empty());
            assert(spo + core =~= core);
        }
    }
    let lead: nat = (fpad + (li - iw)) as nat;
    assert(out =~= space_seq(lead) + x + space_seq(lf));
}

/// The visible width of the text standing before the first occurrence of
/// the marker.
pub open spec fn marker_prefix_width(s: Seq<char>, marker: char, wide: bool) -> nat {
    vwidth(s.take(find_char(s, marker, 0)), wide)
}

/// Where decimal alignment puts the marker of one line: the width of the
/// text before the marker depends only on the target width, the layout and
/// the marker — never on the line's own content.
#[verifier::rlimit(100)]
pub proof fn lemma_decimal_marker_prefix(
    x: Seq<char>,
    width: nat,
    marker: char,
    layout: DecimalLayout,
    wide: bool,
)
    requires
        marker != ' ',
        marker != '\u{1b}',
        crate::width::esc_free(x),
        find_char(x, marker, 0) < x.len(),
        layout.fraction > 0,
        vwidth(x.take(find_char(x, marker, 0)), wide) <= layout.integer as nat,
        vwidth(x.skip(find_char(x, marker, 0) + 1), wide) <= layout.fraction as nat,
    ensures
        marker_prefix_width(
            crate::alignment::aligned_decimal(x, width, marker, Some(layout), wide),
            marker,
            wide,
        ) == (if (layout.integer as nat + crate::width::char_width(marker, wide)
            + layout.fraction as nat) < width {
            (width - crate::width::char_width(marker, wide) - layout.fraction as nat) as nat
        } else {
            layout.integer as nat
        }),
{
    let li = layout.integer as nat;
    let lf = layout.fraction as nat;
    let mw = crate::width::char_width(marker, wide);
    let p = find_char(x, marker, 0);
    lemma_find_char_bounds(x, marker, 0);
    let ip = x.take(p);
    let fp = x.skip(p + 1);
    assert(crate::width::esc_free(ip)) by {
        assert(forall|i: int| 0 <= i < ip.len() ==> ip[i] == x[i]);
    }
    assert(crate::width::esc_free(fp)) by {
        assert(forall|i: int| 0 <= i < fp.len() ==> fp[i] == x[i + p + 1]);
    }
    let iw = vwidth(ip, wide);
    let fw = vwidth(fp, wide);
    let spi = space_seq((li - iw) as nat);
    let with_int = spi + ip;
    crate::width::lemma_space_seq_width((li - iw) as nat, wide);
    crate::width::lemma_vwidth_free_concat(spi, ip, wide);
    assert(vwidth(with_int, wide) == li);
    crate::width::lemma_single_char_width(marker, wide);
    crate::width::lemma_vwidth_free_concat(with_int, seq![marker], wide);
    crate::width::lemma_vwidth_free_concat(with_int + seq![marker], fp, wide);
    let with_frac = with_int + seq![marker] + fp;
    assert(vwidth(with_frac, wide) == li + mw + fw);
    let spf = space_seq((lf - fw) as nat);
    crate::width::lemma_space_seq_width((lf - fw) as nat, wide);
    crate::width::lemma_vwidth_free_concat(with_frac, spf, wide);
    let padded = if fw < lf {
        with_frac + spf
    } else {
        with_frac
    };
    assert(vwidth(padded, wide) == li + mw + lf);
    let core = crate::alignment::decimal_core(x, li, lf, marker, wide);
    assert(core =~= padded) by {
        if iw < li {
        } else {
            assert(iw == li);
            assert(spi =~= Seq::<char>::empty());
            assert(spi + ip =~= ip);
        }
        if fw < lf {
        } else {
            assert(fw == lf);
        }
    }
    let cw = vwidth(core, wide);
    assert(cw == li + mw + lf);
    let out = crate::alignment::aligned_decimal(x, width, marker, Some(layout), wide);
    let fpad: nat = if cw < width {
        (width - cw) as nat
    } else {
        0
    };
    let spo = space_seq(fpad);
    assert(out =~= spo + padded) by {
        if cw < width {
        } else {
            assert(spo =~= Seq::<char>::empty());
            assert(spo + padded =~= padded);
        }
    }
    // The first marker of the output sits right after the padding and the
    // integer part.
    let g: nat = (fpad + (li - iw)) as nat;
    let q: int = g + p;
    assert(out =~= space_seq(g) + ip + (seq![marker] + (if fw < lf {
        fp + spf
    } else {
        fp
    }))) by {
        assert(spo + spi =~= space_seq(g));
    }
    let tail = seq![marker] + (if fw < lf {
        fp + spf
    } else {
        fp
    });
    let pre = space_seq(g) + ip;
    assert(out =~= pre + tail);
    assert(out[q as int] == marker) by {
        assert(pre.len() == q);
        assert((pre + tail)[q as int] == tail[0]);
    }
    assert forall|k: int| 0 <= k < q implies out[k] != marker by {
        assert(out[k] == pre[k]);
        if k < g {
            assert(pre[k] == ' ');
        } else {
            assert(pre[k] == ip[k - g]);
            assert(ip[k - g] == x[k - g]);
        }
    }
    lemma_find_char_exact_from(out, marker, 0, q as int);
    assert(out.take(q as int) =~= pre);
    crate::width::lemma_space_seq_width(g, wide);
    crate::width::lemma_vwidth_free_concat(space_seq(g), ip, wide);
    assert(vwidth(pre, wide) == g + iw);
    assert(marker_prefix_width(out, marker, wide) == fpad + li);
}

/// Decimal alignment: two lines that both hold a decimal marker and whose
/// integer and fractional parts fit the column's decimal layout are padded
/// so that the text before the marker has the same visible width in both —
/// the markers land in the same display column.
pub proof fn law_decimal_alignment(
    a: Seq<char>,
    b: Seq<char>,
    width: nat,
    marker: char,
    layout: DecimalLayout,
    wide: bool,
)
    requires
        marker != ' ',
        marker != '\u{1b}',
        crate::width::esc_free(a),
        crate::width::esc_free(b),
        find_char(a, marker, 0) < a.len(),
        find_char(b, marker, 0) < b.len(),
        layout.fraction > 0,
        vwidth(a.take(find_char(a, marker, 0)), wide) <= layout.integer as nat,
        vwidth(a.skip(find_char(a, marker, 0) + 1), wide) <= layout.fraction as nat,
        vwidth(b.take(find_char(b, marker, 0)), wide) <= layout.integer as nat,
        vwidth(b.skip(find_char(b, marker, 0) + 1), wide) <= layout.fraction as nat,
    ensures
        marker_prefix_width(
            crate::alignment::aligned_decimal(a, width, marker, Some(layout), wide),
            marker,
            wide,
        ) == marker_prefix_width(
            crate::alignment::aligned_decimal(b, width, marker, Some(layout), wide),
            marker,
            wide,
        ),
{
    lemma_decimal_marker_prefix(a, width, marker, layout, wide);
    lemma_decimal_marker_prefix(b, width, marker, layout, wide);
}

/// On escape-free text in character-count mode, fitting is a bound on the
/// character count.
proof fn lemma_fits_is_len(s: Seq<char>, width: nat)
    requires
        crate::width::esc_free(s),
    ensures
        crate::wrap::fits(s, width, false) <==> capped(s.len()) <= width,
{
    crate::width::lemma_no_esc_stripped(s);
    crate::width::lemma_seq_width_narrow(s);
}

/// Every piece an overlong word is split into fits the cap, when long words
/// may be broken, the cap is at least one column, the text is escape-free,
/// and widths count characters.
proof fn lemma_split_word_fits(word: Seq<char>, width: nat, bh: bool)
    requires
        width >= 1,
        crate::width::esc_free(word),
    ensures
        forall|i: int|
            0 <= i < crate::wrap::split_word(word, width, true, bh, false).len()
                ==> crate::wrap::fits(
                #[trigger] crate::wrap::split_word(word, width, true, bh, false)[i],
                width,
                false,
            ),
    decreases word.len(),
{
    let pieces = crate::wrap::split_word(word, width, true, bh, false);
    if word.len() == 0 {
    } else if crate::wrap::fits(word, width, false) {
        assert(pieces =~= seq![word]);
    } else {
        crate::wrap::lemma_fit_prefix_bounds(word, width, false, 1);
        let fit = crate::wrap::fit_prefix(word, width, false, 1);
        let cut = crate::wrap::word_cut(word, width, true, bh, false);
        if bh {
            crate::wrap::lemma_last_hyphen_break_bounds(
                word,
                crate::wrap::min_int(fit, word.len() - 1),
            );
        }
        lemma_fits_is_len(word, width);
        assert(fit < word.len()) by {
            if fit == word.len() {
                assert(crate::wrap::fits(word, width, false));
            }
        }
        assert(1 <= cut < word.len());
        let head = word.take(cut);
        let tail = word.skip(cut);
        assert(crate::width::esc_free(head)) by {
            assert(forall|i: int| 0 <= i < head.len() ==> head[i] == word[i]);
        }
        assert(crate::width::esc_free(tail)) by {
            assert(forall|i: int| 0 <= i < tail.len() ==> tail[i] == word[i + cut]);
        }
        assert(crate::wrap::fits(head, width, false)) by {
            lemma_fits_is_len(head, width);
            if fit > 1 {
                let fp = word.take(fit);
                assert(crate::width::esc_free(fp)) by {
                    assert(forall|i: int| 0 <= i < fp.len() ==> fp[i] == word[i]);
                }
                lemma_fits_is_len(fp, width);
                assert(fit <= width);
            }
        }
        lemma_split_word_fits(tail, width, bh);
        assert forall|i: int| 0 <= i < pieces.len() implies crate::wrap::fits(
            #[trigger] pieces[i],
            width,
            false,
        ) by {
            if i == 0 {
                assert(pieces[0] == head);
            } else {
                assert(pieces[i] == crate::wrap::split_word(tail, width, true, bh, false)[i - 1]);
            }
        }
    }
}

/// An overlong word splits into at least one piece.
proof fn lemma_split_word_nonempty(word: Seq<char>, width: nat, bl: bool, bh: bool, wide: bool)
    requires
        word.len() > 0,
    ensures
        crate::wrap::split_word(word, width, bl, bh, wide).len() >= 1,
    decreases word.len(),
{
}

/// The words of a line inherit the line's freedom from escape characters.
proof fn lemma_words_esc_free(s: Seq<char>, i: int)
    requires
        0 <= i <= s.len(),
        crate::width::esc_free(s),
    ensures
        forall|k: int|
            0 <= k < crate::wrap::words_from(s, i).len() ==> crate::width::esc_free(
                #[trigger] crate::wrap::words_from(s, i)[k],
            ),
    decreases s.len() - i,
{
    crate::wrap::lemma_next_non_space_bounds(s, i);
    let a = crate::wrap::next_non_space(s, i);
    if a < s.len() {
        lemma_find_char_bounds(s, ' ', a);
        let b = find_char(s, ' ', a);
        lemma_words_esc_free(s, b);
        let w0 = s.subrange(a, b);
        assert(crate::width::esc_free(w0)) by {
            assert(forall|j: int| 0 <= j < w0.len() ==> w0[j] == s[j + a]);
        }
        assert forall|k: int|
            0 <= k < crate::wrap::words_from(s, i).len() implies crate::width::esc_free(
            #[trigger] crate::wrap::words_from(s, i)[k],
        ) by {
            if k == 0 {
                assert(crate::wrap::words_from(s, i)[0] == w0);
            } else {
                assert(crate::wrap::words_from(s, i)[k] == crate::wrap::words_from(s, b)[k - 1]);
            }
        }
    }
}

/// Greedy filling only emits fitting lines, given fitting starts.
proof fn lemma_fill_words_fits(
    words: Seq<Seq<char>>,
    cur: Seq<char>,
    width: nat,
    bh: bool,
)
    requires
        width >= 1,
        forall|i: int| 0 <= i < words.len() ==> (#[trigger] words[i]).len() > 0,
        forall|i: int| 0 <= i < words.len() ==> crate::width::esc_free(#[trigger] words[i]),
        crate::wrap::fits(cur, width, false),
    ensures
        forall|i: int|
            0 <= i < crate::wrap::fill_words(words, cur, width, true, bh, false).len()
                ==> crate::wrap::fits(
                #[trigger] crate::wrap::fill_words(words, cur, width, true, bh, false)[i],
                width,
                false,
            ),
    decreases words.len(), crate::wrap::cur_measure(cur),
{
    let out = crate::wrap::fill_words(words, cur, width, true, bh, false);
    if words.len() == 0 {
        assert(out =~= seq![cur]);
    } else {
        let w = words[0];
        assert(forall|i: int|
            0 <= i < words.drop_first().len() ==> (#[trigger] words.drop_first()[i]).len() > 0);
        assert(forall|i: int|
            0 <= i < words.drop_first().len() ==> crate::width::esc_free(
                #[trigger] words.drop_first()[i],
            ));
        if cur.len() == 0 {
            let pieces = crate::wrap::split_word(w, width, true, bh, false);
            lemma_split_word_nonempty(w, width, true, bh, false);
            lemma_split_word_fits(w, width, bh);
            assert(crate::wrap::fits(pieces.last(), width, false));
            lemma_fill_words_fits(words.drop_first(), pieces.last(), width, bh);
            let rest = crate::wrap::fill_words(
                words.drop_first(),
                pieces.last(),
                width,
                true,
                bh,
                false,
            );
            assert(out == pieces.drop_last() + rest);
            assert forall|i: int| 0 <= i < out.len() implies crate::wrap::fits(
                #[trigger] out[i],
                width,
                false,
            ) by {
                if i < pieces.drop_last().len() {
                    assert(out[i] == pieces.drop_last()[i]);
                    assert(pieces.drop_last()[i] == pieces[i]);
                } else {
                    assert(out[i] == rest[i - pieces.drop_last().len()]);
                }
            }
        } else {
            let cand = cur + seq![' '] + w;
            if crate::wrap::fits(cand, width, false) {
                lemma_fill_words_fits(words.drop_first(), cand, width, bh);
                assert(out == crate::wrap::fill_words(
                    words.drop_first(),
                    cand,
                    width,
                    true,
                    bh,
                    false,
                ));
            } else {
                assert(crate::wrap::fits(Seq::<char>::empty(), width, false)) by {
                    lemma_fits_is_len(Seq::<char>::empty(), width);
                }
                lemma_fill_words_fits(words, Seq::<char>::empty(), width, bh);
                let rest = crate::wrap::fill_words(
                    words,
                    Seq::<char>::empty(),
                    width,
                    true,
                    bh,
                    false,
                );
                assert(out == seq![cur] + rest);
                assert forall|i: int| 0 <= i < out.len() implies crate::wrap::fits(
                    #[trigger] out[i],
                    width,
                    false,
                ) by {
                    if i == 0 {
                        assert(out[0] == cur);
                    } else {
                        assert(out[i] == rest[i - 1]);
                    }
                }
            }
        }
    }
}

/// Wrap conformance: when long words may be broken, the cap is at least one
/// column, the line holds no escape sequences, and widths count characters,
/// every line of the wrapped text fits the cap.
pub proof fn law_wrap_fits_cap(line: Seq<char>, width: nat, bh: bool)
    requires
        width >= 1,
        crate::width::esc_free(line),
    ensures
        forall|i: int|
            0 <= i < crate::wrap::wrapped_line(line, width, true, bh, false).len()
                ==> crate::wrap::fits(
                #[trigger] crate::wrap::wrapped_line(line, width, true, bh, false)[i],
                width,
                false,
            ),
{
    crate::wrap::lemma_words_nonempty(line, 0);
    lemma_words_esc_free(line, 0);
    assert(crate::wrap::fits(Seq::<char>::empty(), width, false)) by {
        lemma_fits_is_len(Seq::<char>::empty(), width);
    }
    lemma_fill_words_fits(crate::wrap::words_of(line), Seq::<char>::empty(), width, bh);
}

} // verus!
