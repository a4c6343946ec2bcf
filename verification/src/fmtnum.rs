//! Rendering numeric cells under a fixed-precision format specification.
//! A float format of the shape `.Nf` reformats plain decimal tokens to
//! exactly `N` fraction digits, rounding half away from zero on the decimal
//! digits; any other specification leaves the cell's own text standing.

use vstd::prelude::*;

use crate::chars::{char_run, find_char, push_char};
use crate::numeric::{
    all_digits, check_float, exp_pos, is_digit, is_float_token, is_inf_nan, strip_sign,
};
use crate::options::FormatSpec;

verus! {

/// The next decimal digit character.
pub open spec fn succ_digit(c: char) -> char {
    if c == '0' {
        '1'
    } else if c == '1' {
        '2'
    } else if c == '2' {
        '3'
    } else if c == '3' {
        '4'
    } else if c == '4' {
        '5'
    } else if c == '5' {
        '6'
    } else if c == '6' {
        '7'
    } else if c == '7' {
        '8'
    } else {
        '9'
    }
}

/// A decimal digit string incremented by one, with carry.
pub open spec fn inc_digits(s: Seq<char>) -> Seq<char>
    decreases s.len(),
{
    if s.len() == 0 {
        seq!['1']
    } else if s.last() == '9' {
        inc_digits(s.drop_last()).push('0')
    } else {
        s.drop_last().push(succ_digit(s.last()))
    }
}

fn succ_digit_char(c: char) -> (r: char)
    ensures
        r == succ_digit(c),
{
    match c {
        '0' => '1',
        '1' => '2',
        '2' => '3',
        '3' => '4',
        '4' => '5',
        '5' => '6',
        '6' => '7',
        '7' => '8',
        _ => '9',
    }
}

/// Increment a decimal digit string by one.
fn inc_digits_str(s: &str) -> (r: String)
    ensures
        r@ == inc_digits(s@),
    decreases s@.len(),
{
    let len = s.unicode_len();
    if len == 0 {
        let mut out = String::new();
        push_char(&mut out, '1');
        proof {
            assert(out@ =~= seq!['1']);
        }
        return out;
    }
    let last = s.get_char(len - 1);
    let head = s.substring_char(0, len - 1);
    proof {
        assert(head@ =~= s@.drop_last());
    }
    if last == '9' {
        let mut out = inc_digits_str(head);
        push_char(&mut out, '0');
        out
    } else {
        let mut out = String::from_str(head);
        push_char(&mut out, succ_digit_char(last));
        out
    }
}

/// A mantissa reformatted to exactly `n` fraction digits: shorter fractions
/// are zero-padded, longer ones are cut with the first dropped digit
/// rounding half away from zero.
pub open spec fn fixed_mantissa(ip: Seq<char>, fp: Seq<char>, n: nat) -> Seq<char> {
    let ip1 = if ip.len() == 0 {
        seq!['0']
    } else {
        ip
    };
    if fp.len() <= n {
        if n == 0 {
            ip1
        } else {
            ip1 + seq!['.'] + fp + char_run('0', (n - fp.len()) as nat)
        }
    } else {
        let kept = fp.take(n as int);
        if '5' <= fp[n as int] && fp[n as int] <= '9' {
            let combined = inc_digits(ip1 + kept);
            let ilen = combined.len() - n;
            if n == 0 {
                combined
            } else {
                combined.take(ilen as int) + seq!['.'] + combined.skip(ilen as int)
            }
        } else {
            if n == 0 {
                ip1
            } else {
                ip1 + seq!['.'] + kept
            }
        }
    }
}

/// A cell's text under a fixed-precision float format: plain decimal tokens
/// (no exponent, no infinity or not-a-number word) keep their sign and get
/// exactly `n` fraction digits; every other text stands unchanged.
pub open spec fn formatted_float(s: Seq<char>, n: nat) -> Seq<char> {
    let b = strip_sign(s);
    if is_float_token(s) && !is_inf_nan(b) && exp_pos(b) >= b.len() {
        let sign = s.take(s.len() - b.len());
        let p = find_char(b, '.', 0);
        let ip = b.take(p);
        let fp = if p < b.len() {
            b.skip(p + 1)
        } else {
            Seq::empty()
        };
        sign + fixed_mantissa(ip, fp, n)
    } else {
        s
    }
}

/// Reformat one cell under a fixed-precision float format.
#[verifier::rlimit(60)]
pub fn format_float_cell(s: &str, n: usize) -> (r: String)
    ensures
        r@ == formatted_float(s@, n as nat),
{
    let len = s.unicode_len();
    let b0: usize = if len > 0 && (s.get_char(0) == '+' || s.get_char(0) == '-') {
        1
    } else {
        0
    };
    let b = s.substring_char(b0, len);
    proof {
        if b0 == 1 {
            assert(b@ =~= s@.drop_first());
        }
        assert(b@ == strip_sign(s@));
    }
    let is_simple = {
        if !check_float(s) {
            false
        } else if crate::numeric::check_inf_nan(b) {
            false
        } else {
            let pe = crate::chars::find_char_at(b, 'e', 0);
            let pec = crate::chars::find_char_at(b, 'E', 0);
            let e = if pe <= pec {
                pe
            } else {
                pec
            };
            e >= b.unicode_len()
        }
    };
    if !is_simple {
        return String::from_str(s);
    }
    let blen = b.unicode_len();
    let p = crate::chars::find_char_at(b, '.', 0);
    let ip = b.substring_char(0, p);
    proof {
        assert(ip@ =~= b@.take(p as int));
    }
    let mut out = String::from_str(s.substring_char(0, b0));
    proof {
        assert(out@ =~= s@.take(s@.len() - b@.len()));
    }
    let ip1: String = if ip.unicode_len() == 0 {
        let mut z = String::new();
        push_char(&mut z, '0');
        proof {
            assert(z@ =~= seq!['0']);
        }
        z
    } else {
        String::from_str(ip)
    };
    let fp: String = if p < blen {
        let f = b.substring_char(p + 1, blen);
        proof {
            assert(f@ =~= b@.skip(p + 1));
        }
        String::from_str(f)
    } else {
        let f = String::new();
        proof {
            assert(f@ =~= Seq::<char>::empty());
        }
        f
    };
    let flen = fp.as_str().unicode_len();
    if flen <= n {
        out.append(ip1.as_str());
        if n > 0 {
            push_char(&mut out, '.');
            out.append(fp.as_str());
            crate::chars::append_char_run(&mut out, '0', n - flen);
        }
        proof {
            assert(out@ =~= formatted_float(s@, n as nat));
        }
        out
    } else {
        let kept = fp.as_str().substring_char(0, n);
        proof {
            assert(kept@ =~= fp@.take(n as int));
        }
        let next = fp.as_str().get_char(n);
        if '5' <= next && next <= '9' {
            let mut joined = String::from_str(ip1.as_str());
            joined.append(kept);
            let combined = inc_digits_str(joined.as_str());
            let clen = combined.as_str().unicode_len();
            proof {
                assert(combined@.len() >= 1);
                crate::fmtnum::lemma_inc_digits_len(joined@);
            }
            let ilen = clen - n;
            if n == 0 {
                out.append(combined.as_str());
            } else {
                let chead = combined.as_str().substring_char(0, ilen);
                let ctail = combined.as_str().substring_char(ilen, clen);
                proof {
                    assert(chead@ =~= combined@.take(ilen as int));
                    assert(ctail@ =~= combined@.skip(ilen as int));
                }
                out.append(chead);
                push_char(&mut out, '.');
                out.append(ctail);
            }
            proof {
                assert(out@ =~= formatted_float(s@, n as nat));
            }
            out
        } else {
            out.append(ip1.as_str());
            if n > 0 {
                push_char(&mut out, '.');
                out.append(kept);
            }
            proof {
                assert(out@ =~= formatted_float(s@, n as nat));
            }
            out
        }
    }
}

/// Incrementing never shortens a digit string.
pub proof fn lemma_inc_digits_len(s: Seq<char>)
    ensures
        inc_digits(s).len() >= s.len(),
        inc_digits(s).len() >= 1,
    decreases s.len(),
{
    if s.len() > 0 && s.last() == '9' {
        lemma_inc_digits_len(s.drop_last());
    }
}

/// What a float format string of the shape `.Nf` asks for: up to four
/// precision digits. Anything else does not parse.
pub open spec fn fixed_precision_of(s: Seq<char>) -> Option<nat> {
    if 3 <= s.len() <= 6 && s[0] == '.' && s.last() == 'f' && all_digits(
        s.subrange(1, s.len() - 1),
    ) {
        Some(digits_value(s.subrange(1, s.len() - 1)))
    } else {
        None
    }
}

/// Powers of ten.
pub open spec fn pow10(k: nat) -> nat
    decreases k,
{
    if k == 0 {
        1
    } else {
        10 * pow10((k - 1) as nat)
    }
}

/// The numeric value of a decimal digit string.
pub open spec fn digits_value(s: Seq<char>) -> nat
    decreases s.len(),
{
    if s.len() == 0 {
        0
    } else {
        digits_value(s.drop_last()) * 10 + (s.last() as u32 - 0x30) as nat
    }
}

/// Parse a float format string of the shape `.Nf`.
pub fn parse_float_format(s: &str) -> (r: Option<usize>)
    ensures
        match r {
            Some(n) => fixed_precision_of(s@) == Some(n as nat),
            None => fixed_precision_of(s@) is None,
        },
{
    let len = s.unicode_len();
    if len < 3 || len > 6 {
        return None;
    }
    if s.get_char(0) != '.' || s.get_char(len - 1) != 'f' {
        return None;
    }
    let ghost digits = s@.subrange(1, s@.len() - 1);
    let mut n: usize = 0;
    let mut i: usize = 1;
    while i < len - 1
        invariant
            1 <= i <= len - 1,
            3 <= len <= 6,
            len == s@.len(),
            digits == s@.subrange(1, s@.len() - 1),
            forall|k: int| 0 <= k < i - 1 ==> is_digit(digits[k]),
            n as nat == digits_value(digits.take(i - 1)),
            (n as nat) < pow10((i - 1) as nat),
        decreases len - i,
    {
        let c = s.get_char(i);
        if !('0' <= c && c <= '9') {
            proof {
                assert(digits[i - 1] == s@[i as int]);
            }
            return None;
        }
        proof {
            assert(digits[i - 1] == s@[i as int]);
            assert(digits.take(i as int) =~= digits.take(i - 1).push(digits[i - 1]));
            assert(digits.take(i as int).drop_last() =~= digits.take(i - 1));
            assert(pow10(0) == 1);
            assert(pow10(1) == 10 * pow10(0));
            assert(pow10(2) == 10 * pow10(1));
            assert(pow10(3) == 10 * pow10(2));
            assert(pow10(4) == 10 * pow10(3));
            assert(n < 10000);
            assert(pow10(i as nat) == 10 * pow10((i - 1) as nat));
        }
        n = n * 10 + ((c as u32 - 0x30) as usize);
        i = i + 1;
    }
    proof {
        assert(digits.take(digits.len() as int) =~= digits);
        assert(all_digits(digits));
    }
    Some(n)
}

/// What an integer format string asks for: `d` is the plain decimal form,
/// a leading width pads to that many characters, and a leading zero pads
/// with zeros after the sign. Up to four width digits; anything else does
/// not parse.
pub open spec fn int_precision_of(s: Seq<char>) -> Option<(bool, nat)> {
    if s.len() >= 1 && s.last() == 'd' {
        let body = s.drop_last();
        if body.len() == 0 {
            Some((false, 0))
        } else if body.len() >= 2 && body[0] == '0' && all_digits(body) && body.len() <= 5 {
            Some((true, digits_value(body)))
        } else if all_digits(body) && body.len() <= 4 {
            Some((false, digits_value(body)))
        } else {
            None
        }
    } else {
        None
    }
}

/// An integer token padded to the format's width: spaces go before the
/// sign, zeros after it; a token already wide enough stands unchanged.
pub open spec fn int_formatted(s: Seq<char>, zero: bool, width: nat) -> Seq<char> {
    if s.len() >= width {
        s
    } else {
        let pad = (width - s.len()) as nat;
        if zero {
            let b = strip_sign(s);
            let sign = s.take(s.len() - b.len());
            sign + char_run('0', pad) + b
        } else {
            crate::chars::space_seq(pad) + s
        }
    }
}

/// Parse an integer format string.
pub fn parse_int_format(s: &str) -> (r: Option<(bool, usize)>)
    ensures
        match r {
            Some(p) => int_precision_of(s@) == Some((p.0, p.1 as nat)),
            None => int_precision_of(s@) is None,
        },
{
    let len = s.unicode_len();
    if len < 1 || len > 6 || s.get_char(len - 1) != 'd' {
        if len >= 1 && s.get_char(len - 1) == 'd' {
            proof {
                assert(s@.drop_last().len() >= 6);
            }
        }
        return None;
    }
    let ghost body = s@.drop_last();
    if len == 1 {
        proof {
            assert(body.len() == 0);
        }
        return Some((false, 0));
    }
    let zero = s.get_char(0) == '0' && len >= 3;
    if !zero && len > 5 {
        proof {
            assert(body[0] == s@[0]);
            assert(body.len() > 4);
        }
        return None;
    }
    let mut n: usize = 0;
    let mut i: usize = 0;
    while i < len - 1
        invariant
            0 <= i <= len - 1,
            2 <= len <= 6,
            len == s@.len(),
            body == s@.drop_last(),
            forall|k: int| 0 <= k < i ==> is_digit(body[k]),
            n as nat == digits_value(body.take(i as int)),
            (n as nat) < pow10(i as nat),
        decreases len - i,
    {
        let c = s.get_char(i);
        if !('0' <= c && c <= '9') {
            proof {
                assert(body[i as int] == s@[i as int]);
            }
            return None;
        }
        proof {
            assert(body[i as int] == s@[i as int]);
            assert(body.take(i + 1) =~= body.take(i as int).push(body[i as int]));
            assert(body.take(i + 1).drop_last() =~= body.take(i as int));
            assert(pow10(0) == 1);
            assert(pow10(1) == 10 * pow10(0));
            assert(pow10(2) == 10 * pow10(1));
            assert(pow10(3) == 10 * pow10(2));
            assert(pow10(4) == 10 * pow10(3));
            assert(pow10(5) == 10 * pow10(4));
            assert(n < 100000);
            assert(pow10((i + 1) as nat) == 10 * pow10(i as nat));
        }
        n = n * 10 + ((c as u32 - 0x30) as usize);
        i = i + 1;
    }
    proof {
        assert(body.take(body.len() as int) =~= body);
        assert(all_digits(body));
        if !zero {
            if body[0] == '0' && body.len() >= 2 {
                assert(s@[0] == body[0]);
            }
        }
    }
    Some((zero, n))
}

/// Pad one integer cell under its format.
pub fn int_format_cell(s: &str, zero: bool, width: usize) -> (r: String)
    ensures
        r@ == int_formatted(s@, zero, width as nat),
{
    let len = s.unicode_len();
    if len >= width {
        return String::from_str(s);
    }
    let pad = width - len;
    if zero {
        let b0: usize = if len > 0 && (s.get_char(0) == '+' || s.get_char(0) == '-') {
            1
        } else {
            0
        };
        let b = s.substring_char(b0, len);
        proof {
            if b0 == 1 {
                assert(b@ =~= s@.drop_first());
            }
            assert(b@ == strip_sign(s@));
        }
        let mut out = String::from_str(s.substring_char(0, b0));
        proof {
            assert(out@ =~= s@.take(s@.len() - b@.len()));
        }
        crate::chars::append_char_run(&mut out, '0', pad);
        out.append(b);
        proof {
            assert(out@ =~= int_formatted(s@, zero, width as nat));
        }
        out
    } else {
        let mut out = String::new();
        crate::chars::append_spaces(&mut out, pad);
        out.append(s);
        proof {
            assert(out@ =~= int_formatted(s@, zero, width as nat));
        }
        out
    }
}

/// The integer format resolved for column `c`: a per-column list is
/// extended by repeating its last entry.
pub open spec fn int_spec_for(fs: &FormatSpec, c: int) -> Option<(bool, nat)> {
    match fs {
        FormatSpec::Standard => None,
        FormatSpec::Fixed(s) => int_precision_of(s@),
        FormatSpec::PerColumn(v) => {
            let dv = v.deep_view();
            if dv.len() == 0 {
                None
            } else if 0 <= c < dv.len() {
                int_precision_of(dv[c])
            } else {
                int_precision_of(dv[dv.len() - 1])
            }
        },
    }
}

/// Resolve the integer format of column `c`.
pub fn int_format_for(fs: &FormatSpec, c: usize) -> (r: Option<(bool, usize)>)
    ensures
        match r {
            Some(p) => int_spec_for(fs, c as int) == Some((p.0, p.1 as nat)),
            None => int_spec_for(fs, c as int) is None,
        },
{
    match fs {
        FormatSpec::Standard => None,
        FormatSpec::Fixed(s) => parse_int_format(s.as_str()),
        FormatSpec::PerColumn(v) => {
            if v.len() == 0 {
                None
            } else if c < v.len() {
                let r = parse_int_format(v[c].as_str());
                proof {
                    assert(v[c as int]@ == v.deep_view()[c as int]);
                }
                r
            } else {
                let r = parse_int_format(v[v.len() - 1].as_str());
                proof {
                    assert(v[v.len() - 1]@ == v.deep_view()[v.deep_view().len() - 1]);
                }
                r
            }
        },
    }
}

/// The float format resolved for column `c`: a per-column list is extended
/// by repeating its last entry.
pub open spec fn float_spec_for(fs: &FormatSpec, c: int) -> Option<nat> {
    match fs {
        FormatSpec::Standard => None,
        FormatSpec::Fixed(s) => fixed_precision_of(s@),
        FormatSpec::PerColumn(v) => {
            let dv = v.deep_view();
            if dv.len() == 0 {
                None
            } else if 0 <= c < dv.len() {
                fixed_precision_of(dv[c])
            } else {
                fixed_precision_of(dv[dv.len() - 1])
            }
        },
    }
}

/// Resolve the float format of column `c`.
pub fn float_format_for(fs: &FormatSpec, c: usize) -> (r: Option<usize>)
    ensures
        match r {
            Some(n) => float_spec_for(fs, c as int) == Some(n as nat),
            None => float_spec_for(fs, c as int) is None,
        },
{
    match fs {
        FormatSpec::Standard => None,
        FormatSpec::Fixed(s) => parse_float_format(s.as_str()),
        FormatSpec::PerColumn(v) => {
            if v.len() == 0 {
                None
            } else if c < v.len() {
                let r = parse_float_format(v[c].as_str());
                proof {
                    assert(v[c as int]@ == v.deep_view()[c as int]);
                }
                r
            } else {
                let r = parse_float_format(v[v.len() - 1].as_str());
                proof {
                    assert(v[v.len() - 1]@ == v.deep_view()[v.deep_view().len() - 1]);
                }
                r
            }
        },
    }
}

/// One cell rendered under its column's numeric formats: integer tokens use
/// the integer format, float tokens the float format, text stands as it is.
pub open spec fn formatted_cell(
    cell: Seq<char>,
    ispec: Option<(bool, nat)>,
    fspec: Option<nat>,
) -> Seq<char> {
    match crate::numeric::classified(cell, false) {
        crate::numeric::CellKind::Integer => match ispec {
            Some(p) => int_formatted(cell, p.0, p.1),
            None => cell,
        },
        crate::numeric::CellKind::Float => match fspec {
            Some(n) => formatted_float(cell, n),
            None => cell,
        },
        crate::numeric::CellKind::Text => cell,
    }
}

/// The grid with column `c` rendered under its numeric formats.
pub open spec fn formatted_column_spec(
    g: Seq<Seq<Seq<char>>>,
    c: int,
    ispec: Option<(bool, nat)>,
    fspec: Option<nat>,
) -> Seq<Seq<Seq<char>>> {
    Seq::new(
        g.len() as nat,
        |r: int|
            Seq::new(
                g[r].len() as nat,
                |k: int|
                    if k == c {
                        formatted_cell(g[r][c], ispec, fspec)
                    } else {
                        g[r][k]
                    },
            ),
    )
}

/// Replace every numeric cell of column `c` by its rendering under the
/// column's formats; all other cells are unchanged.
pub fn format_column(
    grid: Vec<Vec<String>>,
    c: usize,
    ispec: Option<(bool, usize)>,
    fspec: Option<usize>,
) -> (r: Vec<Vec<String>>)
    requires
        forall|i: int| 0 <= i < grid.deep_view().len() ==> c < (#[trigger] grid.deep_view()[i]).len(),
    ensures
        r.deep_view() == formatted_column_spec(
            grid.deep_view(),
            c as int,
            match ispec {
                Some(p) => Some((p.0, p.1 as nat)),
                None => None,
            },
            match fspec {
                Some(n) => Some(n as nat),
                None => None,
            },
        ),
{
    let ghost g = grid.deep_view();
    let ghost isv: Option<(bool, nat)> = match ispec {
        Some(p) => Some((p.0, p.1 as nat)),
        None => None,
    };
    let ghost fsv: Option<nat> = match fspec {
        Some(n) => Some(n as nat),
        None => None,
    };
    let mut out: Vec<Vec<String>> = Vec::new();
    let mut i: usize = 0;
    while i < grid.len()
        invariant
            i <= grid.len(),
            grid.deep_view() == g,
            isv == (match ispec {
                Some(p) => Some((p.0, p.1 as nat)),
                None => None::<(bool, nat)>,
            }),
            fsv == (match fspec {
                Some(n) => Some(n as nat),
                None => None::<nat>,
            }),
            forall|k: int| 0 <= k < g.len() ==> c < (#[trigger] g[k]).len(),
            out.deep_view() =~= formatted_column_spec(g, c as int, isv, fsv).take(i as int),
        decreases grid.len() - i,
    {
        let mut row: Vec<String> = Vec::new();
        let rlen = grid[i].len();
        proof {
            assert(grid[i as int].deep_view() == g[i as int]);
            assert(c < g[i as int].len());
        }
        let mut j: usize = 0;
        while j < rlen
            invariant
                j <= rlen,
                i < grid.len(),
                grid.deep_view() == g,
                isv == (match ispec {
                    Some(p) => Some((p.0, p.1 as nat)),
                    None => None::<(bool, nat)>,
                }),
                fsv == (match fspec {
                    Some(n) => Some(n as nat),
                    None => None::<nat>,
                }),
                rlen as nat == g[i as int].len(),
                c < rlen,
                row.deep_view().len() == j,
                forall|k: int| 0 <= k < j && k != c ==> row.deep_view()[k] == g[i as int][k],
                c < j ==> row.deep_view()[c as int] == formatted_cell(g[i as int][c as int], isv, fsv),
            decreases rlen - j,
        {
            proof {
                assert(grid[i as int].deep_view() == g[i as int]);
                assert(grid[i as int][j as int]@ == g[i as int][j as int]);
            }
            let ghost dv_old = row.deep_view();
            if j == c {
                let kind = crate::numeric::classify(grid[i][j].as_str(), false);
                let cell = match kind {
                    crate::numeric::CellKind::Integer => match ispec {
                        Some(p) => int_format_cell(grid[i][j].as_str(), p.0, p.1),
                        None => String::from_str(grid[i][j].as_str()),
                    },
                    crate::numeric::CellKind::Float => match fspec {
                        Some(n) => format_float_cell(grid[i][j].as_str(), n),
                        None => String::from_str(grid[i][j].as_str()),
                    },
                    crate::numeric::CellKind::Text => String::from_str(grid[i][j].as_str()),
                };
                proof {
                    assert(cell@ == formatted_cell(g[i as int][c as int], isv, fsv));
                }
                row.push(cell);
                proof {
                    assert(row.deep_view() =~= dv_old.push(row.deep_view().last()));
                }
            } else {
                let cell = String::from_str(grid[i][j].as_str());
                row.push(cell);
                proof {
                    assert(row.deep_view() =~= dv_old.push(g[i as int][j as int]));
                }
            }
            j = j + 1;
        }
        let ghost ov_old = out.deep_view();
        out.push(row);
        proof {
            assert(row.deep_view() =~= formatted_column_spec(g, c as int, isv, fsv)[i as int]);
            assert(out.deep_view() =~= ov_old.push(row.deep_view()));
            assert(formatted_column_spec(g, c as int, isv, fsv).take(i + 1)
                =~= formatted_column_spec(g, c as int, isv, fsv).take(i as int).push(
                formatted_column_spec(g, c as int, isv, fsv)[i as int],
            ));
        }
        i = i + 1;
    }
    proof {
        assert(formatted_column_spec(g, c as int, isv, fsv).take(grid.len() as int)
            =~= formatted_column_spec(g, c as int, isv, fsv));
    }
    out
}

/// Every label of a row trimmed at both ends.
pub open spec fn trimmed_row_spec(h: Seq<Seq<char>>) -> Seq<Seq<char>> {
    Seq::new(h.len() as nat, |c: int| crate::chars::trim_seq(h[c]))
}

/// Every cell of the grid trimmed at both ends.
pub open spec fn trimmed_grid_spec(g: Seq<Seq<Seq<char>>>) -> Seq<Seq<Seq<char>>> {
    Seq::new(g.len() as nat, |r: int| trimmed_row_spec(g[r]))
}

/// Trim leading and trailing whitespace from every cell of the grid.
pub fn trim_grid(grid: Vec<Vec<String>>) -> (r: Vec<Vec<String>>)
    ensures
        r.deep_view().len() == grid.deep_view().len(),
        forall|i: int| 0 <= i < grid.deep_view().len() ==> (#[trigger] r.deep_view()[i]).len()
            == grid.deep_view()[i].len(),
        forall|i: int, k: int|
            0 <= i < grid.deep_view().len() && 0 <= k < grid.deep_view()[i].len()
                ==> r.deep_view()[i][k] == crate::chars::trim_seq(grid.deep_view()[i][k]),
        r.deep_view() == trimmed_grid_spec(grid.deep_view()),
{
    let ghost g = grid.deep_view();
    let mut out: Vec<Vec<String>> = Vec::new();
    let mut i: usize = 0;
    while i < grid.len()
        invariant
            i <= grid.len(),
            grid.deep_view() == g,
            out.deep_view().len() == i,
            forall|k: int| 0 <= k < i ==> (#[trigger] out.deep_view()[k]).len() == g[k].len(),
            forall|k: int, j: int|
                0 <= k < i && 0 <= j < g[k].len() ==> out.deep_view()[k][j] == crate::chars::trim_seq(
                    g[k][j],
                ),
        decreases grid.len() - i,
    {
        proof {
            assert(grid[i as int].deep_view() == g[i as int]);
        }
        let row = trim_row(&grid[i]);
        let ghost ov_old = out.deep_view();
        out.push(row);
        proof {
            assert(out.deep_view() =~= ov_old.push(out.deep_view().last()));
        }
        i = i + 1;
    }
    proof {
        assert forall|r: int|
            0 <= r < g.len() implies out.deep_view()[r] =~= trimmed_row_spec(g[r]) by {}
        assert(out.deep_view() =~= trimmed_grid_spec(g));
    }
    out
}

/// Trim leading and trailing whitespace from every label of a row.
pub fn trim_row(row: &Vec<String>) -> (r: Vec<String>)
    ensures
        r.deep_view().len() == row.deep_view().len(),
        forall|k: int|
            0 <= k < row.deep_view().len() ==> (#[trigger] r.deep_view()[k])
                == crate::chars::trim_seq(row.deep_view()[k]),
        r.deep_view() == trimmed_row_spec(row.deep_view()),
{
    let mut out: Vec<String> = Vec::new();
    let mut i: usize = 0;
    while i < row.len()
        invariant
            i <= row.len(),
            out.deep_view().len() == i,
            forall|k: int|
                0 <= k < i ==> (#[trigger] out.deep_view()[k]) == crate::chars::trim_seq(
                    row.deep_view()[k],
                ),
        decreases row.len() - i,
    {
        proof {
            assert(row[i as int]@ == row.deep_view()[i as int]);
        }
        let cell = crate::chars::trim_str(row[i].as_str());
        let ghost ov_old = out.deep_view();
        out.push(cell);
        proof {
            assert(out.deep_view() =~= ov_old.push(out.deep_view().last()));
        }
        i = i + 1;
    }
    proof {
        assert(out.deep_view() =~= trimmed_row_spec(row.deep_view()));
    }
    out
}

} // verus!
