//! Character-level helpers shared by the width, alignment and rendering code.

use vstd::prelude::*;

verus! {

/// A run of `n` space characters.
pub open spec fn space_seq(n: nat) -> Seq<char> {
    Seq::new(n, |i: int| ' ')
}

/// Relies on `String::push`: it appends exactly the given character.
#[verifier::external_body]
pub(crate) fn push_char(s: &mut String, c: char)
    ensures
        final(s)@ == old(s)@.push(c),
{
    s.push(c);
}

/// Append `n` spaces to `s`.
pub(crate) fn append_spaces(s: &mut String, n: usize)
    ensures
        final(s)@ == old(s)@ + space_seq(n as nat),
{
    let mut i: usize = 0;
    while i < n
        invariant
            i <= n,
            s@ == old(s)@ + space_seq(i as nat),
        decreases n - i,
    {
        push_char(s, ' ');
        proof {
            assert(old(s)@ + space_seq((i + 1) as nat) =~= (old(s)@ + space_seq(
                i as nat,
            )).push(' '));
        }
        i = i + 1;
    }
    proof {
        assert(s@ =~= old(s)@ + space_seq(n as nat));
    }
}

/// Whitespace characters, following the Unicode `White_Space` property that
/// `char::is_whitespace` documents.
pub open spec fn is_ws(c: char) -> bool {
    ||| c as u32 == 0x20
    ||| (0x9 <= c as u32 && c as u32 <= 0xd)
    ||| c as u32 == 0x85
    ||| c as u32 == 0xa0
    ||| c as u32 == 0x1680
    ||| (0x2000 <= c as u32 && c as u32 <= 0x200a)
    ||| c as u32 == 0x2028
    ||| c as u32 == 0x2029
    ||| c as u32 == 0x202f
    ||| c as u32 == 0x205f
    ||| c as u32 == 0x3000
}

/// Decide whether `c` is a whitespace character.
pub fn char_is_ws(c: char) -> (r: bool)
    ensures
        r == is_ws(c),
{
    let u = c as u32;
    u == 0x20 || (0x9 <= u && u <= 0xd) || u == 0x85 || u == 0xa0 || u == 0x1680 || (0x2000 <= u
        && u <= 0x200a) || u == 0x2028 || u == 0x2029 || u == 0x202f || u == 0x205f || u == 0x3000
}

/// Index that a backward scan over trailing whitespace stops at, starting at `i`.
pub open spec fn trim_end_idx(s: Seq<char>, i: int) -> int
    decreases i,
{
    if 0 < i <= s.len() && is_ws(s[i - 1]) {
        trim_end_idx(s, i - 1)
    } else {
        i
    }
}

/// `s` without its trailing whitespace.
pub open spec fn trim_end_seq(s: Seq<char>) -> Seq<char> {
    s.take(trim_end_idx(s, s.len() as int))
}

pub proof fn lemma_trim_end_idx_bounds(s: Seq<char>, i: int)
    requires
        0 <= i <= s.len(),
    ensures
        0 <= trim_end_idx(s, i) <= i,
    decreases i,
{
    if 0 < i <= s.len() && is_ws(s[i - 1]) {
        lemma_trim_end_idx_bounds(s, i - 1);
    }
}

/// Trimming a string that does not end in whitespace keeps it unchanged.
pub proof fn lemma_trim_end_noop(s: Seq<char>)
    requires
        s.len() == 0 || !is_ws(s[s.len() - 1]),
    ensures
        trim_end_seq(s) == s,
{
    assert(trim_end_seq(s) =~= s);
}

/// `s` without its trailing whitespace.
pub fn trim_end_str(s: &str) -> (r: String)
    ensures
        r@ == trim_end_seq(s@),
{
    let len = s.unicode_len();
    let mut k: usize = len;
    while k > 0 && char_is_ws(s.get_char(k - 1))
        invariant
            k <= len,
            len == s@.len(),
            trim_end_idx(s@, len as int) == trim_end_idx(s@, k as int),
        decreases k,
    {
        k = k - 1;
    }
    proof {
        lemma_trim_end_idx_bounds(s@, len as int);
    }
    String::from_str(s.substring_char(0, k))
}

/// Index that a forward scan over leading whitespace stops at.
pub open spec fn trim_start_idx(s: Seq<char>, i: int) -> int
    decreases s.len() - i,
{
    if 0 <= i < s.len() && is_ws(s[i]) {
        trim_start_idx(s, i + 1)
    } else {
        i
    }
}

/// `s` without leading or trailing whitespace.
pub open spec fn trim_seq(s: Seq<char>) -> Seq<char> {
    let t = trim_end_seq(s);
    t.skip(trim_start_idx(t, 0))
}

/// Trim leading and trailing whitespace.
pub fn trim_str(s: &str) -> (r: String)
    ensures
        r@ == trim_seq(s@),
{
    let t = trim_end_str(s);
    let tlen = t.as_str().unicode_len();
    let mut i: usize = 0;
    while i < tlen && char_is_ws(t.as_str().get_char(i))
        invariant
            i <= tlen,
            tlen == t@.len(),
            trim_start_idx(t@, 0) == trim_start_idx(t@, i as int),
        decreases tlen - i,
    {
        i = i + 1;
    }
    let r = String::from_str(t.as_str().substring_char(i, tlen));
    proof {
        assert(r@ =~= t@.skip(i as int));
    }
    r
}

/// First index `j >= i` with `s[j] == c`, or `s.len()` if there is none.
pub open spec fn find_char(s: Seq<char>, c: char, i: int) -> int
    decreases s.len() - i,
{
    if 0 <= i < s.len() {
        if s[i] == c {
            i
        } else {
            find_char(s, c, i + 1)
        }
    } else {
        s.len() as int
    }
}

pub proof fn lemma_find_char_bounds(s: Seq<char>, c: char, i: int)
    requires
        0 <= i <= s.len(),
    ensures
        i <= find_char(s, c, i) <= s.len(),
        find_char(s, c, i) < s.len() ==> s[find_char(s, c, i)] == c,
        forall|j: int| i <= j < find_char(s, c, i) ==> s[j] != c,
    decreases s.len() - i,
{
    if i < s.len() && s[i] != c {
        lemma_find_char_bounds(s, c, i + 1);
    }
}

/// First index `j >= i` with `s@[j] == c`, or the length if there is none.
pub fn find_char_at(s: &str, c: char, i: usize) -> (j: usize)
    requires
        i <= s@.len(),
    ensures
        j == find_char(s@, c, i as int),
        i <= j <= s@.len(),
        j < s@.len() ==> s@[j as int] == c,
{
    let len = s.unicode_len();
    let mut k: usize = i;
    while k < len && s.get_char(k) != c
        invariant
            i <= k <= len,
            len == s@.len(),
            find_char(s@, c, i as int) == find_char(s@, c, k as int),
        decreases len - k,
    {
        k = k + 1;
    }
    k
}

/// The pieces of `s` between occurrences of `c`, scanning from `i`.
pub open spec fn split_char_from(s: Seq<char>, c: char, i: int) -> Seq<Seq<char>>
    decreases s.len() - i,
    when 0 <= i <= s.len()
    via split_char_from_decreases
{
    let j = find_char(s, c, i);
    if j < s.len() {
        seq![s.subrange(i, j)] + split_char_from(s, c, j + 1)
    } else {
        seq![s.subrange(i, s.len() as int)]
    }
}

#[via_fn]
proof fn split_char_from_decreases(s: Seq<char>, c: char, i: int) {
    lemma_find_char_bounds(s, c, i);
}

/// The pieces of `s` between occurrences of the separator `c`.
pub open spec fn split_char(s: Seq<char>, c: char) -> Seq<Seq<char>> {
    split_char_from(s, c, 0)
}

/// The lines of a cell: pieces between newline characters.
pub open spec fn split_lines(s: Seq<char>) -> Seq<Seq<char>> {
    split_char(s, '\n')
}

/// `parts` joined with the single character `c` between adjacent parts.
pub open spec fn join_char(parts: Seq<Seq<char>>, c: char) -> Seq<char> {
    join_seq(parts, seq![c])
}

/// `parts` joined with the separator string `sep` between adjacent parts.
pub open spec fn join_seq(parts: Seq<Seq<char>>, sep: Seq<char>) -> Seq<char>
    decreases parts.len(),
{
    if parts.len() == 0 {
        Seq::empty()
    } else if parts.len() == 1 {
        parts[0]
    } else {
        parts[0] + sep + join_seq(parts.drop_first(), sep)
    }
}

/// `s` repeated `n` times.
pub open spec fn repeat_seq(s: Seq<char>, n: nat) -> Seq<char>
    decreases n,
{
    if n == 0 {
        Seq::empty()
    } else {
        s + repeat_seq(s, (n - 1) as nat)
    }
}

/// Split `s` on the character `c`.
pub fn split_str(s: &str, c: char) -> (parts: Vec<String>)
    ensures
        parts.deep_view() == split_char(s@, c),
        parts.len() >= 1,
{
    let len = s.unicode_len();
    let mut out: Vec<String> = Vec::new();
    let mut i: usize = 0;
    loop
        invariant
            i <= len,
            len == s@.len(),
            out.deep_view() + split_char_from(s@, c, i as int) =~= split_char(s@, c),
        decreases len - i,
    {
        let j = find_char_at(s, c, i);
        let part = String::from_str(s.substring_char(i, j));
        proof {
            lemma_find_char_bounds(s@, c, i as int);
        }
        out.push(part);
        if j == len {
            proof {
                assert(out.deep_view() =~= split_char(s@, c));
            }
            return out;
        }
        proof {
            assert(out.deep_view() + split_char_from(s@, c, j + 1) =~= split_char(s@, c));
        }
        i = j + 1;
    }
}

/// Append `sep` repeated `n` times to `s`.
pub fn append_repeat(s: &mut String, piece: &str, n: usize)
    ensures
        final(s)@ == old(s)@ + repeat_seq(piece@, n as nat),
{
    let mut i: usize = 0;
    while i < n
        invariant
            i <= n,
            s@ == old(s)@ + repeat_seq(piece@, i as nat),
        decreases n - i,
    {
        s.append(piece);
        proof {
            lemma_repeat_snoc(piece@, i as nat);
            assert(s@ =~= old(s)@ + repeat_seq(piece@, (i + 1) as nat));
        }
        i = i + 1;
    }
}

/// Repeating one more time appends one more copy at the end.
pub proof fn lemma_repeat_snoc(s: Seq<char>, n: nat)
    ensures
        repeat_seq(s, n + 1) =~= repeat_seq(s, n) + s,
    decreases n,
{
    if n > 0 {
        lemma_repeat_snoc(s, (n - 1) as nat);
        assert(repeat_seq(s, n + 1) =~= s + repeat_seq(s, n));
        assert(repeat_seq(s, n) =~= s + repeat_seq(s, (n - 1) as nat));
    }
}

/// Joining one more part appends a separator and that part (or is that part
/// alone when nothing was joined yet).
pub proof fn lemma_join_seq_snoc(parts: Seq<Seq<char>>, sep: Seq<char>, p: Seq<char>)
    ensures
        parts.len() == 0 ==> join_seq(parts.push(p), sep) == p,
        parts.len() > 0 ==> join_seq(parts.push(p), sep) == join_seq(parts, sep) + sep + p,
    decreases parts.len(),
{
    if parts.len() == 0 {
        assert(parts.push(p)[0] == p);
    } else if parts.len() == 1 {
        assert(parts.push(p)[0] == parts[0]);
        assert(parts.push(p).drop_first() =~= seq![p]);
        assert(join_seq(seq![p], sep) == p);
    } else {
        assert(parts.push(p)[0] == parts[0]);
        assert(parts.push(p).drop_first() =~= parts.drop_first().push(p));
        lemma_join_seq_snoc(parts.drop_first(), sep, p);
        assert(parts[0] + sep + (join_seq(parts.drop_first(), sep) + sep + p) =~= (parts[0] + sep
            + join_seq(parts.drop_first(), sep)) + sep + p);
    }
}

/// Join the parts with the separator string `sep`.
pub fn join_with(parts: &Vec<String>, sep: &str) -> (r: String)
    ensures
        r@ == join_seq(parts.deep_view(), sep@),
{
    let mut out = String::new();
    let mut i: usize = 0;
    while i < parts.len()
        invariant
            i <= parts.len(),
            out@ == join_seq(parts.deep_view().take(i as int), sep@),
        decreases parts.len() - i,
    {
        if i > 0 {
            out.append(sep);
        }
        out.append(parts[i].as_str());
        proof {
            let dv = parts.deep_view();
            assert(dv.take(i + 1) =~= dv.take(i as int).push(dv[i as int]));
            lemma_join_seq_snoc(dv.take(i as int), sep@, dv[i as int]);
            assert(parts[i as int]@ == dv[i as int]);
        }
        i = i + 1;
    }
    proof {
        assert(parts.deep_view().take(parts.len() as int) =~= parts.deep_view());
    }
    out
}

/// Join the parts with the single character `c`.
pub fn join_with_char(parts: &Vec<String>, c: char) -> (r: String)
    ensures
        r@ == join_char(parts.deep_view(), c),
{
    let mut out = String::new();
    let mut i: usize = 0;
    while i < parts.len()
        invariant
            i <= parts.len(),
            out@ == join_seq(parts.deep_view().take(i as int), seq![c]),
        decreases parts.len() - i,
    {
        if i > 0 {
            push_char(&mut out, c);
        }
        out.append(parts[i].as_str());
        proof {
            let dv = parts.deep_view();
            assert(dv.take(i + 1) =~= dv.take(i as int).push(dv[i as int]));
            lemma_join_seq_snoc(dv.take(i as int), seq![c], dv[i as int]);
            assert(parts[i as int]@ == dv[i as int]);
            if i > 0 {
                assert(join_seq(dv.take(i as int), seq![c]) + seq![c] + dv[i as int] =~= (join_seq(
                    dv.take(i as int),
                    seq![c],
                ).push(c)) + dv[i as int]);
            }
        }
        i = i + 1;
    }
    proof {
        assert(parts.deep_view().take(parts.len() as int) =~= parts.deep_view());
    }
    out
}

/// A run of `n` copies of the character `c`.
pub open spec fn char_run(c: char, n: nat) -> Seq<char> {
    Seq::new(n, |i: int| c)
}

/// Append `n` copies of `c` to `s`.
pub(crate) fn append_char_run(s: &mut String, c: char, n: usize)
    ensures
        final(s)@ == old(s)@ + char_run(c, n as nat),
{
    let mut i: usize = 0;
    while i < n
        invariant
            i <= n,
            s@ == old(s)@ + char_run(c, i as nat),
        decreases n - i,
    {
        push_char(s, c);
        proof {
            assert(old(s)@ + char_run(c, (i + 1) as nat) =~= (old(s)@ + char_run(c, i as nat)).push(
                c,
            ));
        }
        i = i + 1;
    }
    proof {
        assert(s@ =~= old(s)@ + char_run(c, n as nat));
    }
}

/// Each character mapped to a replacement, concatenated in order.
pub open spec fn concat_map(s: Seq<char>, f: spec_fn(char) -> Seq<char>) -> Seq<char>
    decreases s.len(),
{
    if s.len() == 0 {
        Seq::empty()
    } else {
        f(s[0]) + concat_map(s.drop_first(), f)
    }
}

pub proof fn lemma_concat_map_push(s: Seq<char>, c: char, f: spec_fn(char) -> Seq<char>)
    ensures
        concat_map(s.push(c), f) == concat_map(s, f) + f(c),
    decreases s.len(),
{
    if s.len() == 0 {
        assert(s.push(c).drop_first() =~= Seq::<char>::empty());
        assert(s.push(c)[0] == c);
        assert(concat_map(Seq::<char>::empty(), f) == Seq::<char>::empty());
        assert(concat_map(s.push(c), f) == f(c) + Seq::<char>::empty());
        assert(f(c) + Seq::<char>::empty() =~= Seq::<char>::empty() + f(c));
    } else {
        assert(s.push(c).drop_first() =~= s.drop_first().push(c));
        lemma_concat_map_push(s.drop_first(), c, f);
        assert(s.push(c)[0] == s[0]);
        assert(concat_map(s.push(c), f) == f(s[0]) + (concat_map(s.drop_first(), f) + f(c)));
        assert(f(s[0]) + (concat_map(s.drop_first(), f) + f(c)) =~= (f(s[0]) + concat_map(
            s.drop_first(),
            f,
        )) + f(c));
    }
}

/// The decimal digit character for a value below ten.
pub open spec fn digit_of(d: nat) -> char {
    if d == 0 {
        '0'
    } else if d == 1 {
        '1'
    } else if d == 2 {
        '2'
    } else if d == 3 {
        '3'
    } else if d == 4 {
        '4'
    } else if d == 5 {
        '5'
    } else if d == 6 {
        '6'
    } else if d == 7 {
        '7'
    } else if d == 8 {
        '8'
    } else {
        '9'
    }
}

/// The decimal digits of `n`, most significant first.
pub open spec fn dec_digits(n: nat) -> Seq<char>
    decreases n,
{
    if n < 10 {
        seq![digit_of(n)]
    } else {
        dec_digits(n / 10).push(digit_of(n % 10))
    }
}

fn digit_char(d: usize) -> (c: char)
    requires
        d < 10,
    ensures
        c == digit_of(d as nat),
{
    match d {
        0 => '0',
        1 => '1',
        2 => '2',
        3 => '3',
        4 => '4',
        5 => '5',
        6 => '6',
        7 => '7',
        8 => '8',
        _ => '9',
    }
}

/// Render `n` in decimal.
pub fn usize_to_string(n: usize) -> (r: String)
    ensures
        r@ == dec_digits(n as nat),
    decreases n,
{
    if n < 10 {
        let mut out = String::new();
        push_char(&mut out, digit_char(n));
        proof {
            assert(out@ =~= seq![digit_of(n as nat)]);
        }
        out
    } else {
        let mut out = usize_to_string(n / 10);
        push_char(&mut out, digit_char(n % 10));
        out
    }
}

/// Copy a vector of strings.
pub fn clone_string_vec(v: &Vec<String>) -> (r: Vec<String>)
    ensures
        r.deep_view() == v.deep_view(),
{
    let mut out: Vec<String> = Vec::new();
    let mut i: usize = 0;
    while i < v.len()
        invariant
            i <= v.len(),
            out.deep_view() =~= v.deep_view().take(i as int),
        decreases v.len() - i,
    {
        let ghost dv_old = out.deep_view();
        let cell = String::from_str(v[i].as_str());
        proof {
            assert(cell@ == v.deep_view()[i as int]);
        }
        out.push(cell);
        proof {
            assert(out.deep_view() =~= dv_old.push(v.deep_view()[i as int]));
            assert(v.deep_view().take(i + 1) =~= v.deep_view().take(i as int).push(
                v.deep_view()[i as int],
            ));
        }
        i = i + 1;
    }
    proof {
        assert(out.deep_view() =~= v.deep_view());
    }
    out
}

/// Character-for-character string equality.
pub fn str_eq(a: &str, b: &str) -> (r: bool)
    ensures
        r == (a@ == b@),
{
    let alen = a.unicode_len();
    let blen = b.unicode_len();
    if alen != blen {
        return false;
    }
    let mut i: usize = 0;
    while i < alen
        invariant
            i <= alen,
            alen == a@.len(),
            alen == b@.len(),
            forall|j: int| 0 <= j < i ==> a@[j] == b@[j],
        decreases alen - i,
    {
        if a.get_char(i) != b.get_char(i) {
            return false;
        }
        i = i + 1;
    }
    proof {
        assert(a@ =~= b@);
    }
    true
}

} // verus!
