//! Classifying cell text as integer, float or plain text, and rendering
//! numeric cells under a format specification.

use vstd::prelude::*;

use crate::chars::find_char;

verus! {

/// The inferred kind of a cell value.
#[derive(Clone, Copy, Debug, PartialEq, Eq, Structural)]
pub enum CellKind {
    /// The text parses as an integer.
    Integer,
    /// The text parses as a floating point number.
    Float,
    /// Anything else.
    Text,
}

/// Decimal digit characters.
pub open spec fn is_digit(c: char) -> bool {
    '0' <= c && c <= '9'
}

/// `s` without one leading sign character, if any.
pub open spec fn strip_sign(s: Seq<char>) -> Seq<char> {
    if s.len() > 0 && (s[0] == '+' || s[0] == '-') {
        s.drop_first()
    } else {
        s
    }
}

/// A non-empty run of decimal digits.
pub open spec fn all_digits(s: Seq<char>) -> bool {
    s.len() > 0 && forall|i: int| 0 <= i < s.len() ==> is_digit(s[i])
}

/// An optional run of decimal digits.
pub open spec fn digits_or_empty(s: Seq<char>) -> bool {
    forall|i: int| 0 <= i < s.len() ==> is_digit(s[i])
}

/// An integer token: an optional sign and at least one digit.
pub open spec fn is_int_token(s: Seq<char>) -> bool {
    all_digits(strip_sign(s))
}

/// Whether `c` matches the lower-case letter `w`, folding ASCII case.
pub open spec fn lower_matches(c: char, w: char) -> bool {
    c == w || ('A' <= c && c <= 'Z' && c as u32 + 0x20 == w as u32)
}

/// Case-insensitive equality with a lower-case word.
pub open spec fn eq_lower(s: Seq<char>, word: Seq<char>) -> bool {
    s.len() == word.len() && forall|i: int| 0 <= i < s.len() ==> lower_matches(s[i], word[i])
}

/// The literal tokens for infinities and not-a-number, case-insensitive,
/// sign already stripped.
pub open spec fn is_inf_nan(s: Seq<char>) -> bool {
    eq_lower(s, "inf"@) || eq_lower(s, "infinity"@) || eq_lower(s, "nan"@)
}

/// A mantissa: digits, optionally with one decimal point, with at least one
/// digit on some side of the point.
pub open spec fn is_mantissa(s: Seq<char>) -> bool {
    let p = find_char(s, '.', 0);
    if p < s.len() {
        digits_or_empty(s.take(p)) && digits_or_empty(s.skip(p + 1)) && (p > 0 || s.len() - p - 1
            > 0) && s.len() - p - 1 >= 0
    } else {
        all_digits(s)
    }
}

/// An exponent part: an optional sign and at least one digit.
pub open spec fn is_exponent(s: Seq<char>) -> bool {
    all_digits(strip_sign(s))
}

/// The position of the exponent marker: the first `e` or `E`, or the length.
pub open spec fn exp_pos(s: Seq<char>) -> int {
    let pe = find_char(s, 'e', 0);
    let pec = find_char(s, 'E', 0);
    if pe <= pec {
        pe
    } else {
        pec
    }
}

/// A float token: an optional sign, then either an infinity/not-a-number
/// word, or a mantissa with an optional exponent.
pub open spec fn is_float_token(s: Seq<char>) -> bool {
    let b = strip_sign(s);
    is_inf_nan(b) || {
        let e = exp_pos(b);
        if e < b.len() {
            is_mantissa(b.take(e)) && is_exponent(b.skip(e + 1))
        } else {
            is_mantissa(b)
        }
    }
}

/// The kind a cell's text classifies as: integer parse is tried first, then
/// float parse, and anything else is text.
pub open spec fn classified(s: Seq<char>, numparse_disabled: bool) -> CellKind {
    if numparse_disabled {
        CellKind::Text
    } else if is_int_token(s) {
        CellKind::Integer
    } else if is_float_token(s) {
        CellKind::Float
    } else {
        CellKind::Text
    }
}

fn exec_is_digit(c: char) -> (r: bool)
    ensures
        r == is_digit(c),
{
    '0' <= c && c <= '9'
}

/// Check that `s` is all digits (or empty).
fn check_digits(s: &str) -> (r: bool)
    ensures
        r == digits_or_empty(s@),
{
    let len = s.unicode_len();
    let mut i: usize = 0;
    while i < len
        invariant
            i <= len,
            len == s@.len(),
            forall|k: int| 0 <= k < i ==> is_digit(s@[k]),
        decreases len - i,
    {
        if !exec_is_digit(s.get_char(i)) {
            return false;
        }
        i = i + 1;
    }
    true
}

/// `s` without one leading sign character.
fn strip_sign_str<'a>(s: &'a str) -> (r: &'a str)
    ensures
        r@ == strip_sign(s@),
{
    let len = s.unicode_len();
    if len > 0 {
        let c = s.get_char(0);
        if c == '+' || c == '-' {
            let rest = s.substring_char(1, len);
            proof {
                assert(rest@ =~= s@.drop_first());
            }
            return rest;
        }
    }
    s
}

/// Case-insensitive comparison with a lower-case word.
fn eq_lower_word(s: &str, word: &str) -> (r: bool)
    ensures
        r == eq_lower(s@, word@),
{
    let len = s.unicode_len();
    let wlen = word.unicode_len();
    if len != wlen {
        return false;
    }
    let mut i: usize = 0;
    while i < wlen
        invariant
            i <= wlen,
            wlen == word@.len(),
            len == s@.len(),
            wlen == len,
            forall|k: int| 0 <= k < i ==> lower_matches(s@[k], word@[k]),
        decreases wlen - i,
    {
        let c = s.get_char(i);
        let w = word.get_char(i);
        let matches_here = c == w || ('A' <= c && c <= 'Z' && (c as u32) + 0x20 == (w as u32));
        if !matches_here {
            return false;
        }
        i = i + 1;
    }
    true
}

/// Check that `s` is an integer token.
pub fn check_int(s: &str) -> (r: bool)
    ensures
        r == is_int_token(s@),
{
    let b = strip_sign_str(s);
    let blen = b.unicode_len();
    if blen == 0 {
        return false;
    }
    check_digits(b)
}

/// Check that `s` is a mantissa.
fn check_mantissa(s: &str) -> (r: bool)
    ensures
        r == is_mantissa(s@),
{
    let len = s.unicode_len();
    let p = crate::chars::find_char_at(s, '.', 0);
    if p < len {
        let ip = s.substring_char(0, p);
        let fp = s.substring_char(p + 1, len);
        proof {
            assert(ip@ =~= s@.take(p as int));
            assert(fp@ =~= s@.skip(p + 1));
        }
        check_digits(ip) && check_digits(fp) && (p > 0 || len - p - 1 > 0)
    } else {
        if len == 0 {
            return false;
        }
        check_digits(s)
    }
}

/// Check that `s` is an exponent part.
fn check_exponent(s: &str) -> (r: bool)
    ensures
        r == is_exponent(s@),
{
    let b = strip_sign_str(s);
    if b.unicode_len() == 0 {
        return false;
    }
    check_digits(b)
}

/// Check that `s` (with any sign already stripped) is an infinity or
/// not-a-number word.
pub fn check_inf_nan(s: &str) -> (r: bool)
    ensures
        r == is_inf_nan(s@),
{
    eq_lower_word(s, "inf") || eq_lower_word(s, "infinity") || eq_lower_word(s, "nan")
}

/// Check that `s` is a float token.
pub fn check_float(s: &str) -> (r: bool)
    ensures
        r == is_float_token(s@),
{
    let b = strip_sign_str(s);
    if eq_lower_word(b, "inf") || eq_lower_word(b, "infinity") || eq_lower_word(b, "nan") {
        return true;
    }
    let blen = b.unicode_len();
    let pe = crate::chars::find_char_at(b, 'e', 0);
    let pec = crate::chars::find_char_at(b, 'E', 0);
    let e = if pe <= pec {
        pe
    } else {
        pec
    };
    if e < blen {
        let m = b.substring_char(0, e);
        let x = b.substring_char(e + 1, blen);
        proof {
            assert(m@ =~= b@.take(e as int));
            assert(x@ =~= b@.skip(e + 1));
        }
        check_mantissa(m) && check_exponent(x)
    } else {
        check_mantissa(b)
    }
}

/// Classify a cell's text: integer parse first, then float parse, else text.
pub fn classify(s: &str, numparse_disabled: bool) -> (k: CellKind)
    ensures
        k == classified(s@, numparse_disabled),
{
    if numparse_disabled {
        CellKind::Text
    } else if check_int(s) {
        CellKind::Integer
    } else if check_float(s) {
        CellKind::Float
    } else {
        CellKind::Text
    }
}

} // verus!
