//! Padding a cell's text to a target visible width under a chosen alignment,
//! including decimal-point alignment from a precomputed layout.

use vstd::prelude::*;

use crate::chars::{
    append_spaces, find_char, join_char, join_with_char, push_char, space_seq, split_lines,
    split_str, str_eq, trim_end_seq, trim_end_str,
};
use crate::width::{capped, visible_width, vwidth};

verus! {

/// Text alignment options supported by the tabulator.
#[derive(Clone, Copy, Debug, PartialEq, Eq, Structural)]
pub enum Alignment {
    /// Align text to the left (pad on the right).
    Left,
    /// Align text to the right (pad on the left).
    Right,
    /// Align text to the centre.
    Center,
    /// Align text so that decimal separators line up.
    Decimal,
}

/// What an alignment specifier parses to: the four known names, in the order
/// the parser tries them.
pub open spec fn parse_alignment(s: Seq<char>) -> Option<Alignment> {
    if s == "left"@ {
        Some(Alignment::Left)
    } else if s == "right"@ {
        Some(Alignment::Right)
    } else if s == "center"@ {
        Some(Alignment::Center)
    } else if s == "decimal"@ {
        Some(Alignment::Decimal)
    } else {
        None
    }
}

impl Alignment {
    /// Parse an alignment specifier.
    pub fn parse(value: &str) -> (r: Option<Self>)
        ensures
            r == parse_alignment(value@),
    {
        if str_eq(value, "left") {
            Some(Alignment::Left)
        } else if str_eq(value, "right") {
            Some(Alignment::Right)
        } else if str_eq(value, "center") {
            Some(Alignment::Center)
        } else if str_eq(value, "decimal") {
            Some(Alignment::Decimal)
        } else {
            None
        }
    }
}

/// Layout information for decimal alignment.
#[derive(Clone, Copy, Debug, PartialEq, Eq, Structural)]
pub struct DecimalLayout {
    /// Columns reserved for the integer part.
    pub integer: usize,
    /// Columns reserved for the fractional part.
    pub fraction: usize,
}

/// A line padded on the right to the target width; wider lines are kept.
pub open spec fn aligned_left(line: Seq<char>, width: nat, wide: bool) -> Seq<char> {
    if vwidth(line, wide) >= width {
        line
    } else {
        line + space_seq((width - vwidth(line, wide)) as nat)
    }
}

/// A line padded on the left to the target width; wider lines are kept.
pub open spec fn aligned_right(line: Seq<char>, width: nat, wide: bool) -> Seq<char> {
    if vwidth(line, wide) >= width {
        line
    } else {
        space_seq((width - vwidth(line, wide)) as nat) + line
    }
}

/// A line padded on both sides to the target width, the extra space going to
/// the right; wider lines are kept.
pub open spec fn aligned_center(line: Seq<char>, width: nat, wide: bool) -> Seq<char> {
    if vwidth(line, wide) >= width {
        line
    } else {
        let pad = (width - vwidth(line, wide)) as nat;
        let left = pad / 2;
        space_seq(left) + line + space_seq((pad - left) as nat)
    }
}

/// The integer part of a line and, when a decimal marker occurs, what follows
/// the first marker.
pub open spec fn decimal_split(line: Seq<char>, marker: char) -> (Seq<char>, Option<Seq<char>>) {
    let p = find_char(line, marker, 0);
    if p < line.len() {
        (line.take(p), Some(line.skip(p + 1)))
    } else {
        (line, None)
    }
}

/// A line padded so that decimal markers line up: the integer part is padded
/// to the layout's integer width, the fractional part to its fraction width,
/// and the whole is then padded on the left to the target width. Without a
/// layout the whole width is reserved for the integer part.
/// The decimal-aligned body of a line, before the final left padding: the
/// integer part padded to `li` columns, then the marker and the fractional
/// part padded to `lf` columns.
pub open spec fn decimal_core(line: Seq<char>, li: nat, lf: nat, marker: char, wide: bool) -> Seq<
    char,
> {
    let sp = decimal_split(line, marker);
    let ip = sp.0;
    let iw = vwidth(ip, wide);
    let with_int = if iw < li {
        space_seq((li - iw) as nat) + ip
    } else {
        ip
    };
    let with_frac = match sp.1 {
        Some(f) => with_int + seq![marker] + f,
        None => with_int,
    };
    let fw: nat = match sp.1 {
        Some(f) => vwidth(f, wide),
        None => 0,
    };
    if lf > 0 {
        match sp.1 {
            Some(f) => if fw < lf {
                with_frac + space_seq((lf - fw) as nat)
            } else {
                with_frac
            },
            None => with_frac + space_seq(lf),
        }
    } else {
        with_frac
    }
}

/// A line padded so that decimal markers line up, then padded on the left to
/// the target width. Without a layout the whole width is reserved for the
/// integer part.
pub open spec fn aligned_decimal(
    line: Seq<char>,
    width: nat,
    marker: char,
    layout: Option<DecimalLayout>,
    wide: bool,
) -> Seq<char> {
    let li: nat = match layout {
        Some(l) => l.integer as nat,
        None => width,
    };
    let lf: nat = match layout {
        Some(l) => l.fraction as nat,
        None => 0,
    };
    let core = decimal_core(line, li, lf, marker, wide);
    let cw = vwidth(core, wide);
    if cw < width {
        space_seq((width - cw) as nat) + core
    } else {
        core
    }
}

/// One line aligned under the given alignment.
pub open spec fn aligned_line(
    line: Seq<char>,
    width: nat,
    alignment: Alignment,
    marker: char,
    layout: Option<DecimalLayout>,
    wide: bool,
) -> Seq<char> {
    match alignment {
        Alignment::Left => aligned_left(line, width, wide),
        Alignment::Right => aligned_right(line, width, wide),
        Alignment::Center => aligned_center(line, width, wide),
        Alignment::Decimal => aligned_decimal(line, width, marker, layout, wide),
    }
}

/// A whole cell aligned: either line by line, or as one piece, in which case
/// a left-aligned multi-line result has every line's trailing blanks removed.
pub open spec fn aligned_cell(
    cell: Seq<char>,
    width: nat,
    alignment: Alignment,
    marker: char,
    layout: Option<DecimalLayout>,
    per_line: bool,
    enforce_left: bool,
    wide: bool,
) -> Seq<char> {
    if per_line {
        join_char(
            split_lines(cell).map_values(
                |l: Seq<char>| aligned_line(l, width, alignment, marker, layout, wide),
            ),
            '\n',
        )
    } else {
        let a0 = if alignment == Alignment::Left && !enforce_left {
            cell
        } else {
            aligned_line(cell, width, alignment, marker, layout, wide)
        };
        if alignment == Alignment::Left && a0.contains('\n') {
            join_char(split_lines(a0).map_values(|l: Seq<char>| trim_end_seq(l)), '\n')
        } else {
            a0
        }
    }
}

/// Pad one line to the target width under the left alignment.
pub fn align_left_line(line: &str, width: usize, enable_widechars: bool) -> (r: String)
    ensures
        r@ == aligned_left(line@, width as nat, enable_widechars),
{
    let cw = visible_width(line, enable_widechars);
    let mut out = String::from_str(line);
    if cw < width {
        append_spaces(&mut out, width - cw);
    }
    out
}

/// Pad one line to the target width under the right alignment.
pub fn align_right_line(line: &str, width: usize, enable_widechars: bool) -> (r: String)
    ensures
        r@ == aligned_right(line@, width as nat, enable_widechars),
{
    let cw = visible_width(line, enable_widechars);
    if cw >= width {
        String::from_str(line)
    } else {
        let mut out = String::new();
        append_spaces(&mut out, width - cw);
        out.append(line);
        out
    }
}

/// Pad one line to the target width under the centre alignment.
pub fn align_center_line(line: &str, width: usize, enable_widechars: bool) -> (r: String)
    ensures
        r@ == aligned_center(line@, width as nat, enable_widechars),
{
    let cw = visible_width(line, enable_widechars);
    if cw >= width {
        String::from_str(line)
    } else {
        let pad = width - cw;
        let left = pad / 2;
        let mut out = String::new();
        append_spaces(&mut out, left);
        out.append(line);
        append_spaces(&mut out, pad - left);
        out
    }
}

/// Pad one line so that its decimal marker lands where the layout puts it.
pub fn align_decimal_line(
    line: &str,
    width: usize,
    decimal_marker: char,
    decimal_layout: Option<DecimalLayout>,
    enable_widechars: bool,
) -> (r: String)
    ensures
        r@ == aligned_decimal(line@, width as nat, decimal_marker, decimal_layout, enable_widechars),
{
    let li: usize = match decimal_layout {
        Some(l) => l.integer,
        None => width,
    };
    let lf: usize = match decimal_layout {
        Some(l) => l.fraction,
        None => 0,
    };
    let len = line.unicode_len();
    let p = crate::chars::find_char_at(line, decimal_marker, 0);
    let integer_part = if p < len {
        line.substring_char(0, p)
    } else {
        line
    };
    proof {
        if p < len {
            assert(integer_part@ == line@.take(p as int));
        }
    }
    let iw = visible_width(integer_part, enable_widechars);
    let mut out = String::new();
    if iw < li {
        append_spaces(&mut out, li - iw);
    }
    out.append(integer_part);
    if p < len {
        push_char(&mut out, decimal_marker);
        let frac = line.substring_char(p + 1, len);
        proof {
            assert(frac@ == line@.skip(p + 1));
        }
        out.append(frac);
        if lf > 0 {
            let fw = visible_width(frac, enable_widechars);
            if fw < lf {
                append_spaces(&mut out, lf - fw);
            }
        }
    } else {
        if lf > 0 {
            append_spaces(&mut out, lf);
        }
    }
    proof {
        assert(out@ =~= decimal_core(
            line@,
            li as nat,
            lf as nat,
            decimal_marker,
            enable_widechars,
        ));
    }
    let cw = visible_width(out.as_str(), enable_widechars);
    if cw < width {
        let mut padded = String::new();
        append_spaces(&mut padded, width - cw);
        padded.append(out.as_str());
        proof {
            assert(padded@ =~= aligned_decimal(
                line@,
                width as nat,
                decimal_marker,
                decimal_layout,
                enable_widechars,
            ));
        }
        return padded;
    }
    out
}

/// Pad one line under the given alignment.
pub fn align_line(
    line: &str,
    width: usize,
    alignment: Alignment,
    decimal_marker: char,
    decimal_layout: Option<DecimalLayout>,
    enable_widechars: bool,
) -> (r: String)
    ensures
        r@ == aligned_line(
            line@,
            width as nat,
            alignment,
            decimal_marker,
            decimal_layout,
            enable_widechars,
        ),
{
    match alignment {
        Alignment::Left => align_left_line(line, width, enable_widechars),
        Alignment::Right => align_right_line(line, width, enable_widechars),
        Alignment::Center => align_center_line(line, width, enable_widechars),
        Alignment::Decimal => align_decimal_line(
            line,
            width,
            decimal_marker,
            decimal_layout,
            enable_widechars,
        ),
    }
}

/// Align `cell` so that its visible width equals `width`.
#[allow(clippy::too_many_arguments)]
pub fn align_cell(
    cell: &str,
    width: usize,
    alignment: Alignment,
    decimal_marker: char,
    decimal_layout: Option<DecimalLayout>,
    per_line: bool,
    enforce_left_alignment: bool,
    enable_widechars: bool,
) -> (r: String)
    ensures
        r@ == aligned_cell(
            cell@,
            width as nat,
            alignment,
            decimal_marker,
            decimal_layout,
            per_line,
            enforce_left_alignment,
            enable_widechars,
        ),
{
    if per_line {
        let parts = split_str(cell, '\n');
        let ghost f = |l: Seq<char>|
            aligned_line(
                l,
                width as nat,
                alignment,
                decimal_marker,
                decimal_layout,
                enable_widechars,
            );
        let mut aligned: Vec<String> = Vec::new();
        let mut i: usize = 0;
        while i < parts.len()
            invariant
                i <= parts.len(),
                parts.deep_view() == split_lines(cell@),
                aligned.deep_view() =~= split_lines(cell@).map_values(f).take(i as int),
                f == (|l: Seq<char>|
                    aligned_line(
                    l,
                    width as nat,
                    alignment,
                    decimal_marker,
                    decimal_layout,
                    enable_widechars,
                )),
            decreases parts.len() - i,
        {
            let a = align_line(
                parts[i].as_str(),
                width,
                alignment,
                decimal_marker,
                decimal_layout,
                enable_widechars,
            );
            proof {
                assert(parts[i as int]@ == parts.deep_view()[i as int]);
            }
            let ghost dv_old = aligned.deep_view();
            aligned.push(a);
            proof {
                assert(aligned.deep_view() =~= dv_old.push(a@));
                assert(split_lines(cell@).map_values(f).take(i + 1) =~= split_lines(
                    cell@,
                ).map_values(f).take(i as int).push(split_lines(cell@).map_values(f)[i as int]));
            }
            i = i + 1;
        }
        proof {
            assert(split_lines(cell@).map_values(f).take(parts.len() as int) =~= split_lines(
                cell@,
            ).map_values(f));
        }
        join_with_char(&aligned, '\n')
    } else {
        let keep_raw = matches!(alignment, Alignment::Left) && !enforce_left_alignment;
        let a0 = if keep_raw {
            String::from_str(cell)
        } else {
            align_line(cell, width, alignment, decimal_marker, decimal_layout, enable_widechars)
        };
        let a0len = a0.as_str().unicode_len();
        let has_newline = crate::chars::find_char_at(a0.as_str(), '\n', 0) < a0len;
        proof {
            crate::chars::lemma_find_char_bounds(a0@, '\n', 0);
            if has_newline {
                assert(a0@.contains('\n'));
            } else {
                if a0@.contains('\n') {
                    let w = choose|w: int| 0 <= w < a0@.len() && a0@[w] == '\n';
                    assert(false);
                }
            }
        }
        if matches!(alignment, Alignment::Left) && has_newline {
            let parts = split_str(a0.as_str(), '\n');
            let ghost g = |l: Seq<char>| trim_end_seq(l);
            let mut trimmed: Vec<String> = Vec::new();
            let mut i: usize = 0;
            while i < parts.len()
                invariant
                    i <= parts.len(),
                    parts.deep_view() == split_lines(a0@),
                    trimmed.deep_view() =~= split_lines(a0@).map_values(g).take(i as int),
                    g == (|l: Seq<char>| trim_end_seq(l)),
                decreases parts.len() - i,
            {
                let t = trim_end_str(parts[i].as_str());
                proof {
                    assert(parts[i as int]@ == parts.deep_view()[i as int]);
                }
                let ghost dv_old = trimmed.deep_view();
                trimmed.push(t);
                proof {
                    assert(trimmed.deep_view() =~= dv_old.push(t@));
                    assert(split_lines(a0@).map_values(g).take(i + 1) =~= split_lines(
                        a0@,
                    ).map_values(g).take(i as int).push(split_lines(a0@).map_values(g)[i as int]));
                }
                i = i + 1;
            }
            proof {
                assert(split_lines(a0@).map_values(g).take(parts.len() as int) =~= split_lines(
                    a0@,
                ).map_values(g));
            }
            join_with_char(&trimmed, '\n')
        } else {
            a0
        }
    }
}

} // verus!
