//! Visible width of text: terminal escape sequences are stripped before
//! counting, and East Asian wide characters can count as two columns.

use vstd::prelude::*;

use crate::chars::{push_char, split_char, split_lines};

verus! {

/// Parameter characters of a CSI escape sequence.
pub open spec fn is_csi_param(c: char) -> bool {
    (0x30 <= c as u32 && c as u32 <= 0x39) || c as u32 == 0x3b
}

/// Final characters of a CSI escape sequence: ASCII letters.
pub open spec fn is_csi_final(c: char) -> bool {
    (0x41 <= c as u32 && c as u32 <= 0x5a) || (0x61 <= c as u32 && c as u32 <= 0x7a)
}

/// First index `j >= i` whose character is not a CSI parameter.
pub open spec fn csi_param_end(s: Seq<char>, i: int) -> int
    decreases s.len() - i,
{
    if 0 <= i < s.len() && is_csi_param(s[i]) {
        csi_param_end(s, i + 1)
    } else {
        i
    }
}

pub proof fn lemma_csi_param_end_bounds(s: Seq<char>, i: int)
    requires
        0 <= i <= s.len(),
    ensures
        i <= csi_param_end(s, i) <= s.len(),
    decreases s.len() - i,
{
    if i < s.len() && is_csi_param(s[i]) {
        lemma_csi_param_end_bounds(s, i + 1);
    }
}

/// First index `j >= i` holding an escape character, or `s.len()`.
pub open spec fn next_esc(s: Seq<char>, i: int) -> int
    decreases s.len() - i,
{
    if 0 <= i < s.len() {
        if s[i] == '\u{1b}' {
            i
        } else {
            next_esc(s, i + 1)
        }
    } else {
        s.len() as int
    }
}

pub proof fn lemma_next_esc_bounds(s: Seq<char>, i: int)
    requires
        0 <= i <= s.len(),
    ensures
        i <= next_esc(s, i) <= s.len(),
    decreases s.len() - i,
{
    if i < s.len() && s[i] != '\u{1b}' {
        lemma_next_esc_bounds(s, i + 1);
    }
}

/// Length of the terminal escape sequence starting at `i`, if one starts
/// there: either `ESC [ params final` or `ESC ] text ESC \`.
pub open spec fn ansi_escape_len(s: Seq<char>, i: int) -> Option<int> {
    if 0 <= i && i + 1 < s.len() && s[i] == '\u{1b}' {
        if s[i + 1] == '[' {
            let j = csi_param_end(s, i + 2);
            if j < s.len() && is_csi_final(s[j]) {
                Some(j + 1 - i)
            } else {
                None
            }
        } else if s[i + 1] == ']' {
            let j = next_esc(s, i + 2);
            if j + 1 < s.len() && s[j + 1] == '\\' {
                Some(j + 2 - i)
            } else {
                None
            }
        } else {
            None
        }
    } else {
        None
    }
}

/// `s` from position `i` on, with every escape sequence removed.
pub open spec fn ansi_stripped_from(s: Seq<char>, i: int) -> Seq<char>
    decreases s.len() - i,
    when 0 <= i
    via ansi_stripped_from_decreases
{
    if 0 <= i < s.len() {
        match ansi_escape_len(s, i) {
            Some(l) => ansi_stripped_from(s, i + l),
            None => seq![s[i]] + ansi_stripped_from(s, i + 1),
        }
    } else {
        Seq::empty()
    }
}

#[via_fn]
proof fn ansi_stripped_from_decreases(s: Seq<char>, i: int) {
    if 0 <= i && i + 1 < s.len() && s[i] == '\u{1b}' {
        if s[i + 1] == '[' {
            lemma_csi_param_end_bounds(s, i + 2);
        } else if s[i + 1] == ']' {
            lemma_next_esc_bounds(s, i + 2);
        }
    }
}

/// `s` with every terminal escape sequence removed.
pub open spec fn ansi_stripped(s: Seq<char>) -> Seq<char> {
    ansi_stripped_from(s, 0)
}

/// Named display width of a single character, as the Unicode width tables
/// give it; control characters count as zero columns.
pub uninterp spec fn wide_width(c: char) -> nat;

/// Relies on `unicode_width::UnicodeWidthChar::width`: the column width of a
/// character, which depends on the character alone; `None` only for control
/// characters, mapped here to zero.
#[verifier::external_body]
fn wide_char_width(c: char) -> (w: usize)
    ensures
        w as nat == wide_width(c),
{
    unicode_width::UnicodeWidthChar::width(c).unwrap_or(0)
}

/// Column width of one character. Without wide-character support every
/// character counts one column; printable ASCII always counts one.
pub open spec fn char_width(c: char, wide: bool) -> nat {
    if wide {
        if 0x20 <= c as u32 && c as u32 <= 0x7e {
            1
        } else {
            wide_width(c)
        }
    } else {
        1
    }
}

/// Column width of a run of characters: the sum of the character widths.
pub open spec fn seq_width(s: Seq<char>, wide: bool) -> nat
    decreases s.len(),
{
    if s.len() == 0 {
        0
    } else {
        char_width(s[0], wide) + seq_width(s.drop_first(), wide)
    }
}

pub proof fn lemma_seq_width_push(s: Seq<char>, c: char, wide: bool)
    ensures
        seq_width(s.push(c), wide) == seq_width(s, wide) + char_width(c, wide),
    decreases s.len(),
{
    if s.len() == 0 {
        assert(s.push(c).drop_first() =~= Seq::<char>::empty());
        assert(s.push(c)[0] == c);
        assert(seq_width(Seq::<char>::empty(), wide) == 0);
        assert(seq_width(s.push(c), wide) == char_width(c, wide) + seq_width(
            Seq::<char>::empty(),
            wide,
        ));
        assert(seq_width(s, wide) == 0);
    } else {
        assert(s.push(c).drop_first() =~= s.drop_first().push(c));
        lemma_seq_width_push(s.drop_first(), c, wide);
        assert(s.push(c)[0] == s[0]);
        assert(seq_width(s.push(c), wide) == char_width(s[0], wide) + seq_width(
            s.drop_first().push(c),
            wide,
        ));
        assert(seq_width(s, wide) == char_width(s[0], wide) + seq_width(s.drop_first(), wide));
    }
}

pub proof fn lemma_seq_width_concat(a: Seq<char>, b: Seq<char>, wide: bool)
    ensures
        seq_width(a + b, wide) == seq_width(a, wide) + seq_width(b, wide),
    decreases a.len(),
{
    if a.len() == 0 {
        assert(a + b =~= b);
    } else {
        assert((a + b)[0] == a[0]);
        assert((a + b).drop_first() =~= a.drop_first() + b);
        lemma_seq_width_concat(a.drop_first(), b, wide);
    }
}

/// Without wide-character support, the width is the character count.
pub proof fn lemma_seq_width_narrow(s: Seq<char>)
    ensures
        seq_width(s, false) == s.len(),
    decreases s.len(),
{
    if s.len() > 0 {
        lemma_seq_width_narrow(s.drop_first());
    }
}

/// Visible width of `s`: the width of the escape-stripped text.
pub open spec fn vwidth(s: Seq<char>, wide: bool) -> nat {
    seq_width(ansi_stripped(s), wide)
}

/// No escape character occurs in `s`.
pub open spec fn esc_free(s: Seq<char>) -> bool {
    forall|i: int| 0 <= i < s.len() ==> s[i] != '\u{1b}'
}

proof fn lemma_no_esc_stripped_from(s: Seq<char>, i: int)
    requires
        0 <= i <= s.len(),
        esc_free(s),
    ensures
        ansi_stripped_from(s, i) == s.skip(i),
    decreases s.len() - i,
{
    if i < s.len() {
        assert(ansi_escape_len(s, i) is None);
        lemma_no_esc_stripped_from(s, i + 1);
        assert(seq![s[i]] + s.skip(i + 1) =~= s.skip(i));
    } else {
        assert(s.skip(i) =~= Seq::<char>::empty());
    }
}

/// Stripping changes nothing in text without escape characters.
pub proof fn lemma_no_esc_stripped(s: Seq<char>)
    requires
        esc_free(s),
    ensures
        ansi_stripped(s) == s,
{
    lemma_no_esc_stripped_from(s, 0);
    assert(s.skip(0) =~= s);
}

/// On escape-free text, visible width adds over concatenation.
pub proof fn lemma_vwidth_free_concat(a: Seq<char>, b: Seq<char>, wide: bool)
    requires
        esc_free(a),
        esc_free(b),
    ensures
        esc_free(a + b),
        vwidth(a + b, wide) == vwidth(a, wide) + vwidth(b, wide),
{
    assert forall|i: int| 0 <= i < (a + b).len() implies (a + b)[i] != '\u{1b}' by {
        if i < a.len() {
            assert((a + b)[i] == a[i]);
        } else {
            assert((a + b)[i] == b[i - a.len()]);
        }
    }
    lemma_no_esc_stripped(a);
    lemma_no_esc_stripped(b);
    lemma_no_esc_stripped(a + b);
    lemma_seq_width_concat(a, b, wide);
}

/// A run of spaces is escape-free and one column wide per space.
pub proof fn lemma_space_seq_width(n: nat, wide: bool)
    ensures
        esc_free(crate::chars::space_seq(n)),
        vwidth(crate::chars::space_seq(n), wide) == n,
    decreases n,
{
    let s = crate::chars::space_seq(n);
    assert(esc_free(s));
    lemma_no_esc_stripped(s);
    lemma_seq_width_space(s, wide);
}

proof fn lemma_seq_width_space(s: Seq<char>, wide: bool)
    requires
        forall|i: int| 0 <= i < s.len() ==> s[i] == ' ',
    ensures
        seq_width(s, wide) == s.len(),
    decreases s.len(),
{
    if s.len() > 0 {
        lemma_seq_width_space(s.drop_first(), wide);
    }
}

/// A single character other than the escape character is as wide as its
/// character width.
pub proof fn lemma_single_char_width(c: char, wide: bool)
    requires
        c != '\u{1b}',
    ensures
        esc_free(seq![c]),
        vwidth(seq![c], wide) == char_width(c, wide),
{
    lemma_no_esc_stripped(seq![c]);
    assert(seq![c].drop_first() =~= Seq::<char>::empty());
    assert(seq![c][0] == c);
    assert(seq_width(Seq::<char>::empty(), wide) == 0);
    assert(seq_width(seq![c], wide) == char_width(c, wide) + seq_width(
        Seq::<char>::empty(),
        wide,
    ));
}

/// A width sum capped at the machine word limit.
pub open spec fn capped(n: nat) -> nat {
    if n > usize::MAX as nat {
        usize::MAX as nat
    } else {
        n
    }
}

fn csi_param_end_at(s: &str, i: usize) -> (j: usize)
    requires
        i <= s@.len(),
    ensures
        j == csi_param_end(s@, i as int),
        i <= j <= s@.len(),
{
    let len = s.unicode_len();
    let mut k: usize = i;
    loop
        invariant
            i <= k <= len,
            len == s@.len(),
            csi_param_end(s@, i as int) == csi_param_end(s@, k as int),
        decreases len - k,
    {
        if k >= len {
            return k;
        }
        let u = s.get_char(k) as u32;
        if !((0x30 <= u && u <= 0x39) || u == 0x3b) {
            return k;
        }
        k = k + 1;
    }
}

fn next_esc_at(s: &str, i: usize) -> (j: usize)
    requires
        i <= s@.len(),
    ensures
        j == next_esc(s@, i as int),
        i <= j <= s@.len(),
{
    let len = s.unicode_len();
    let mut k: usize = i;
    while k < len && s.get_char(k) != '\u{1b}'
        invariant
            i <= k <= len,
            len == s@.len(),
            next_esc(s@, i as int) == next_esc(s@, k as int),
        decreases len - k,
    {
        k = k + 1;
    }
    k
}

/// Length of the escape sequence starting at `i`, if any.
fn ansi_escape_len_at(s: &str, i: usize) -> (r: Option<usize>)
    requires
        i <= s@.len(),
    ensures
        match r {
            Some(l) => {
                &&& ansi_escape_len(s@, i as int) == Some(l as int)
                &&& i + l <= s@.len()
                &&& l >= 1
            },
            None => ansi_escape_len(s@, i as int) is None,
        },
{
    let len = s.unicode_len();
    if i >= len || i + 1 >= len || s.get_char(i) != '\u{1b}' {
        return None;
    }
    let c1 = s.get_char(i + 1);
    if c1 == '[' {
        let j = csi_param_end_at(s, i + 2);
        if j < len {
            let cf = s.get_char(j);
            let u = cf as u32;
            if (0x41 <= u && u <= 0x5a) || (0x61 <= u && u <= 0x7a) {
                return Some(j + 1 - i);
            }
        }
        None
    } else if c1 == ']' {
        let j = next_esc_at(s, i + 2);
        if j < len && j + 1 < len && s.get_char(j + 1) == '\\' {
            Some(j + 2 - i)
        } else {
            None
        }
    } else {
        None
    }
}

/// Remove terminal escape sequences from `input`.
pub fn strip_ansi(input: &str) -> (r: String)
    ensures
        r@ == ansi_stripped(input@),
{
    let len = input.unicode_len();
    let mut out = String::new();
    let mut i: usize = 0;
    while i < len
        invariant
            i <= len,
            len == input@.len(),
            out@ + ansi_stripped_from(input@, i as int) == ansi_stripped(input@),
        decreases len - i,
    {
        match ansi_escape_len_at(input, i) {
            Some(l) => {
                i = i + l;
            },
            None => {
                let c = input.get_char(i);
                push_char(&mut out, c);
                proof {
                    assert(out@ + ansi_stripped_from(input@, i + 1) =~= ansi_stripped(input@));
                }
                i = i + 1;
            },
        }
    }
    proof {
        assert(out@ =~= ansi_stripped(input@));
    }
    out
}

/// Sum one character's width into a running total, capping at the word limit.
fn add_width(total: usize, c: char, wide: bool) -> (r: usize)
    ensures
        r as nat == capped(total as nat + char_width(c, wide)),
{
    let cw: usize = if wide {
        let u = c as u32;
        if 0x20 <= u && u <= 0x7e {
            1
        } else {
            wide_char_width(c)
        }
    } else {
        1
    };
    if total <= usize::MAX - cw {
        total + cw
    } else {
        usize::MAX
    }
}

/// Compute the visible display width of a string: escape sequences are
/// stripped, then character widths are summed (capping at the word limit).
pub fn visible_width(input: &str, enable_widechars: bool) -> (w: usize)
    ensures
        w as nat == capped(vwidth(input@, enable_widechars)),
{
    let stripped = strip_ansi(input);
    let slen = stripped.as_str().unicode_len();
    let mut w: usize = 0;
    let mut i: usize = 0;
    while i < slen
        invariant
            i <= slen,
            slen == stripped@.len(),
            stripped@ == ansi_stripped(input@),
            w as nat == capped(seq_width(stripped@.take(i as int), enable_widechars)),
        decreases slen - i,
    {
        let c = stripped.as_str().get_char(i);
        w = add_width(w, c, enable_widechars);
        proof {
            assert(stripped@.take(i + 1) =~= stripped@.take(i as int).push(stripped@[i as int]));
            lemma_seq_width_push(stripped@.take(i as int), stripped@[i as int], enable_widechars);
        }
        i = i + 1;
    }
    proof {
        assert(stripped@.take(slen as int) =~= stripped@);
    }
    w
}

/// Visible widths of the individual lines of a multi-line cell.
pub fn multiline_widths(input: &str, enable_widechars: bool) -> (r: Vec<usize>)
    ensures
        r@.len() == split_lines(input@).len(),
        forall|i: int|
            0 <= i < r@.len() ==> r@[i] as nat == capped(
                vwidth(split_lines(input@)[i], enable_widechars),
            ),
{
    let parts = crate::chars::split_str(input, '\n');
    let mut out: Vec<usize> = Vec::new();
    let mut i: usize = 0;
    while i < parts.len()
        invariant
            i <= parts.len(),
            parts.deep_view() == split_lines(input@),
            out@.len() == i,
            forall|k: int|
                0 <= k < i ==> out@[k] as nat == capped(
                    vwidth(split_lines(input@)[k], enable_widechars),
                ),
        decreases parts.len() - i,
    {
        let w = visible_width(parts[i].as_str(), enable_widechars);
        proof {
            assert(parts[i as int]@ == parts.deep_view()[i as int]);
        }
        out.push(w);
        i = i + 1;
    }
    out
}

} // verus!
