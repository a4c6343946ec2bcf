//! Wrapping a cell's text into lines under a width cap: existing newlines
//! are hard breaks, words fill lines greedily, and an overlong word may be
//! broken after a hyphen or, when long words may be broken, after its widest
//! fitting prefix.

use vstd::prelude::*;

use crate::chars::{find_char, lemma_find_char_bounds, split_lines, split_str};
use crate::width::{capped, visible_width, vwidth};

verus! {

/// Whether text fits a width cap: its visible width, capped at the machine
/// word limit, is at most the cap.
pub open spec fn fits(s: Seq<char>, width: nat, wide: bool) -> bool {
    capped(vwidth(s, wide)) <= width
}

/// First index `k >= i` whose character is not a space, or the length.
pub open spec fn next_non_space(s: Seq<char>, i: int) -> int
    decreases s.len() - i,
{
    if 0 <= i < s.len() {
        if s[i] == ' ' {
            next_non_space(s, i + 1)
        } else {
            i
        }
    } else {
        s.len() as int
    }
}

pub proof fn lemma_next_non_space_bounds(s: Seq<char>, i: int)
    requires
        0 <= i <= s.len(),
    ensures
        i <= next_non_space(s, i) <= s.len(),
        next_non_space(s, i) < s.len() ==> s[next_non_space(s, i)] != ' ',
    decreases s.len() - i,
{
    if i < s.len() && s[i] == ' ' {
        lemma_next_non_space_bounds(s, i + 1);
    }
}

/// The words of `s` from position `i` on: maximal runs of non-space
/// characters.
pub open spec fn words_from(s: Seq<char>, i: int) -> Seq<Seq<char>>
    decreases s.len() - i,
    when 0 <= i <= s.len()
    via words_from_decreases
{
    let a = next_non_space(s, i);
    if a < s.len() {
        let b = find_char(s, ' ', a);
        seq![s.subrange(a, b)] + words_from(s, b)
    } else {
        Seq::empty()
    }
}

#[via_fn]
proof fn words_from_decreases(s: Seq<char>, i: int) {
    lemma_next_non_space_bounds(s, i);
    let a = next_non_space(s, i);
    if a < s.len() {
        lemma_find_char_bounds(s, ' ', a);
    }
}

/// The words of one line.
pub open spec fn words_of(s: Seq<char>) -> Seq<Seq<char>> {
    words_from(s, 0)
}

/// The largest `j >= k` such that the first `j` characters still fit the
/// width, reached by single steps.
pub open spec fn fit_prefix(word: Seq<char>, width: nat, wide: bool, k: int) -> int
    decreases word.len() - k,
{
    if 0 <= k < word.len() && fits(word.take(k + 1), width, wide) {
        fit_prefix(word, width, wide, k + 1)
    } else {
        k
    }
}

pub proof fn lemma_fit_prefix_bounds(word: Seq<char>, width: nat, wide: bool, k: int)
    requires
        0 <= k <= word.len(),
    ensures
        k <= fit_prefix(word, width, wide, k) <= word.len(),
        (fit_prefix(word, width, wide, k) == word.len() && k < word.len()) ==> fits(
            word,
            width,
            wide,
        ),
        (fit_prefix(word, width, wide, k) > k) ==> fits(
            word.take(fit_prefix(word, width, wide, k)),
            width,
            wide,
        ),
    decreases word.len() - k,
{
    if 0 <= k < word.len() && fits(word.take(k + 1), width, wide) {
        lemma_fit_prefix_bounds(word, width, wide, k + 1);
        if fit_prefix(word, width, wide, k) == word.len() {
            assert(word.take(word.len() as int) =~= word);
        }
    }
}

/// The largest `k <= limit` with a hyphen just before position `k`, or zero.
pub open spec fn last_hyphen_break(word: Seq<char>, limit: int) -> int
    decreases limit,
{
    if 1 <= limit <= word.len() {
        if word[limit - 1] == '-' {
            limit
        } else {
            last_hyphen_break(word, limit - 1)
        }
    } else {
        0
    }
}

pub proof fn lemma_last_hyphen_break_bounds(word: Seq<char>, limit: int)
    requires
        limit <= word.len(),
    ensures
        0 <= last_hyphen_break(word, limit) <= limit || last_hyphen_break(word, limit) == 0,
        last_hyphen_break(word, limit) <= word.len(),
        last_hyphen_break(word, limit) >= 0,
    decreases limit,
{
    if 1 <= limit <= word.len() && word[limit - 1] != '-' {
        lemma_last_hyphen_break_bounds(word, limit - 1);
    }
}

/// The smaller of two positions.
pub open spec fn min_int(a: int, b: int) -> int {
    if a <= b {
        a
    } else {
        b
    }
}

/// Where an overlong word is cut: after a fitting hyphen when hyphen breaks
/// are on, else after the widest fitting prefix when long words may break,
/// else not at all.
pub open spec fn word_cut(word: Seq<char>, width: nat, bl: bool, bh: bool, wide: bool) -> int {
    let fit = fit_prefix(word, width, wide, 1);
    let hb = if bh {
        last_hyphen_break(word, min_int(fit, word.len() - 1))
    } else {
        0
    };
    if hb >= 1 {
        hb
    } else if bl {
        fit
    } else {
        word.len() as int
    }
}

/// An overlong word split into pieces at its cut points.
pub open spec fn split_word(word: Seq<char>, width: nat, bl: bool, bh: bool, wide: bool) -> Seq<
    Seq<char>,
>
    decreases word.len(),
    when word.len() >= 0
    via split_word_decreases
{
    if word.len() == 0 {
        Seq::empty()
    } else if fits(word, width, wide) {
        seq![word]
    } else {
        let cut = word_cut(word, width, bl, bh, wide);
        if cut >= word.len() {
            seq![word]
        } else {
            seq![word.take(cut)] + split_word(word.skip(cut), width, bl, bh, wide)
        }
    }
}

#[via_fn]
proof fn split_word_decreases(word: Seq<char>, width: nat, bl: bool, bh: bool, wide: bool) {
    if word.len() > 0 {
        lemma_fit_prefix_bounds(word, width, wide, 1);
        lemma_last_hyphen_break_bounds(
            word,
            min_int(fit_prefix(word, width, wide, 1), word.len() - 1),
        );
    }
}

/// Zero when the current line is empty, one otherwise.
pub open spec fn cur_measure(cur: Seq<char>) -> int {
    if cur.len() == 0 {
        0
    } else {
        1
    }
}

/// Greedy filling: each word joins the current line if the joined text still
/// fits; otherwise the current line is emitted. A word arriving at an empty
/// line is split when it does not fit on its own.
pub open spec fn fill_words(
    words: Seq<Seq<char>>,
    cur: Seq<char>,
    width: nat,
    bl: bool,
    bh: bool,
    wide: bool,
) -> Seq<Seq<char>>
    decreases words.len(), cur_measure(cur),
    when forall|i: int| 0 <= i < words.len() ==> (#[trigger] words[i]).len() > 0
    via fill_words_decreases
{
    if words.len() == 0 {
        seq![cur]
    } else {
        let w = words[0];
        if cur.len() == 0 {
            let pieces = split_word(w, width, bl, bh, wide);
            pieces.drop_last() + fill_words(words.drop_first(), pieces.last(), width, bl, bh, wide)
        } else {
            let cand = cur + seq![' '] + w;
            if fits(cand, width, wide) {
                fill_words(words.drop_first(), cand, width, bl, bh, wide)
            } else {
                seq![cur] + fill_words(words, Seq::empty(), width, bl, bh, wide)
            }
        }
    }
}

#[via_fn]
proof fn fill_words_decreases(
    words: Seq<Seq<char>>,
    cur: Seq<char>,
    width: nat,
    bl: bool,
    bh: bool,
    wide: bool,
) {
    if words.len() > 0 {
        assert(words[0].len() > 0);
        assert(forall|i: int|
            0 <= i < words.drop_first().len() ==> (#[trigger] words.drop_first()[i]).len() > 0);
    }
}

/// One line wrapped into lines that fit the width where possible.
pub open spec fn wrapped_line(line: Seq<char>, width: nat, bl: bool, bh: bool, wide: bool) -> Seq<
    Seq<char>,
> {
    fill_words(words_of(line), Seq::empty(), width, bl, bh, wide)
}

/// Every word is a non-empty run of characters.
pub proof fn lemma_words_nonempty(s: Seq<char>, i: int)
    requires
        0 <= i <= s.len(),
    ensures
        forall|k: int|
            0 <= k < words_from(s, i).len() ==> (#[trigger] words_from(s, i)[k]).len() > 0,
    decreases s.len() - i,
{
    lemma_next_non_space_bounds(s, i);
    let a = next_non_space(s, i);
    if a < s.len() {
        lemma_find_char_bounds(s, ' ', a);
        let b = find_char(s, ' ', a);
        lemma_words_nonempty(s, b);
        assert(s.subrange(a, b).len() > 0);
        assert forall|k: int|
            0 <= k < words_from(s, i).len() implies (#[trigger] words_from(s, i)[k]).len() > 0 by {
            if k == 0 {
                assert(words_from(s, i)[0] == s.subrange(a, b));
            } else {
                assert(words_from(s, i)[k] == words_from(s, b)[k - 1]);
            }
        }
    }
}

/// A whole cell wrapped: each hard line is wrapped on its own, and the
/// results follow each other.
pub open spec fn wrapped_cell(cell: Seq<char>, width: nat, bl: bool, bh: bool, wide: bool) -> Seq<
    Seq<char>,
>
    decreases split_lines(cell).len(),
{
    wrapped_lines_of(split_lines(cell), width, bl, bh, wide)
}

/// The wrapped lines of a sequence of hard lines, concatenated.
pub open spec fn wrapped_lines_of(
    lines: Seq<Seq<char>>,
    width: nat,
    bl: bool,
    bh: bool,
    wide: bool,
) -> Seq<Seq<char>>
    decreases lines.len(),
{
    if lines.len() == 0 {
        Seq::empty()
    } else {
        wrapped_line(lines[0], width, bl, bh, wide) + wrapped_lines_of(
            lines.drop_first(),
            width,
            bl,
            bh,
            wide,
        )
    }
}

/// The words of one line, as owned strings.
fn words_vec(line: &str) -> (r: Vec<String>)
    ensures
        r.deep_view() == words_of(line@),
        forall|i: int| 0 <= i < r.deep_view().len() ==> (#[trigger] r.deep_view()[i]).len() > 0,
{
    let len = line.unicode_len();
    let mut out: Vec<String> = Vec::new();
    let mut i: usize = 0;
    while i < len
        invariant
            i <= len,
            len == line@.len(),
            out.deep_view() + words_from(line@, i as int) =~= words_of(line@),
        decreases len - i,
    {
        let c = line.get_char(i);
        if c == ' ' {
            proof {
                assert(next_non_space(line@, i as int) == next_non_space(line@, i + 1));
            }
            i = i + 1;
        } else {
            proof {
                assert(next_non_space(line@, i as int) == i);
            }
            let b = crate::chars::find_char_at(line, ' ', i);
            let word = String::from_str(line.substring_char(i, b));
            proof {
                lemma_find_char_bounds(line@, ' ', i as int);
                assert(word@ =~= line@.subrange(i as int, b as int));
            }
            let ghost dv_old = out.deep_view();
            out.push(word);
            proof {
                assert(out.deep_view() =~= dv_old.push(word@));
                assert(dv_old.push(word@) + words_from(line@, b as int) =~= dv_old + words_from(
                    line@,
                    i as int,
                ));
            }
            i = b;
        }
    }
    proof {
        assert(words_from(line@, len as int) =~= Seq::<Seq<char>>::empty());
        assert(out.deep_view() =~= words_of(line@));
        lemma_words_nonempty(line@, 0);
    }
    out
}

/// The widest fitting prefix length, scanned upward from one.
fn fit_prefix_len(word: &str, width: usize, wide: bool) -> (r: usize)
    requires
        word@.len() > 0,
    ensures
        r == fit_prefix(word@, width as nat, wide, 1),
        1 <= r <= word@.len(),
{
    let len = word.unicode_len();
    let mut k: usize = 1;
    loop
        invariant
            1 <= k <= len,
            len == word@.len(),
            fit_prefix(word@, width as nat, wide, 1) == fit_prefix(word@, width as nat, wide, k as int),
        decreases len - k,
    {
        if k >= len {
            return k;
        }
        let prefix = word.substring_char(0, k + 1);
        proof {
            assert(prefix@ =~= word@.take(k + 1));
        }
        let pw = visible_width(prefix, wide);
        if pw > width {
            return k;
        }
        proof {
            assert(fits(word@.take(k + 1), width as nat, wide));
            assert(fit_prefix(word@, width as nat, wide, k as int) == fit_prefix(
                word@,
                width as nat,
                wide,
                k + 1,
            ));
        }
        k = k + 1;
    }
}

/// The largest fitting hyphen break position, or zero.
fn hyphen_break(word: &str, limit: usize) -> (r: usize)
    requires
        limit <= word@.len(),
    ensures
        r == last_hyphen_break(word@, limit as int),
{
    let mut k: usize = limit;
    loop
        invariant
            k <= limit <= word@.len(),
            last_hyphen_break(word@, limit as int) == last_hyphen_break(word@, k as int),
        decreases k,
    {
        if k == 0 {
            return 0;
        }
        if word.get_char(k - 1) == '-' {
            return k;
        }
        k = k - 1;
    }
}

/// Split one overlong word, pushing its pieces.
fn split_word_vec(word: &str, width: usize, bl: bool, bh: bool, wide: bool) -> (r: Vec<String>)
    requires
        word@.len() > 0,
    ensures
        r.deep_view() == split_word(word@, width as nat, bl, bh, wide),
        r.len() >= 1,
    decreases word@.len(),
{
    let len = word.unicode_len();
    let w = visible_width(word, wide);
    if w <= width {
        let mut out: Vec<String> = Vec::new();
        out.push(String::from_str(word));
        proof {
            assert(out.deep_view() =~= seq![word@]);
        }
        return out;
    }
    let fit = fit_prefix_len(word, width, wide);
    let hb: usize = if bh {
        let limit = if fit <= len - 1 {
            fit
        } else {
            len - 1
        };
        hyphen_break(word, limit)
    } else {
        0
    };
    proof {
        lemma_last_hyphen_break_bounds(word@, min_int(fit as int, word@.len() - 1));
    }
    let cut: usize = if hb >= 1 {
        hb
    } else if bl {
        fit
    } else {
        len
    };
    proof {
        assert(cut as int == word_cut(word@, width as nat, bl, bh, wide));
    }
    if cut >= len {
        let mut out: Vec<String> = Vec::new();
        out.push(String::from_str(word));
        proof {
            assert(out.deep_view() =~= seq![word@]);
            assert(split_word(word@, width as nat, bl, bh, wide) =~= seq![word@]);
        }
        return out;
    }
    let head = String::from_str(word.substring_char(0, cut));
    let tail = word.substring_char(cut, len);
    proof {
        assert(head@ =~= word@.take(cut as int));
        assert(tail@ =~= word@.skip(cut as int));
    }
    let mut out: Vec<String> = Vec::new();
    out.push(head);
    let rest = split_word_vec(tail, width, bl, bh, wide);
    let mut j: usize = 0;
    while j < rest.len()
        invariant
            j <= rest.len(),
            out.deep_view() =~= seq![word@.take(cut as int)] + rest.deep_view().take(j as int),
            rest.deep_view() == split_word(word@.skip(cut as int), width as nat, bl, bh, wide),
        decreases rest.len() - j,
    {
        let ghost dv_old = out.deep_view();
        let piece = String::from_str(rest[j].as_str());
        proof {
            assert(piece@ == rest.deep_view()[j as int]);
        }
        out.push(piece);
        proof {
            assert(out.deep_view() =~= dv_old.push(rest.deep_view()[j as int]));
            assert(rest.deep_view().take(j + 1) =~= rest.deep_view().take(j as int).push(
                rest.deep_view()[j as int],
            ));
        }
        j = j + 1;
    }
    proof {
        assert(rest.deep_view().take(rest.len() as int) =~= rest.deep_view());
        assert(out.deep_view() =~= split_word(word@, width as nat, bl, bh, wide));
    }
    out
}

/// Wrap one hard line into lines under the width cap.
pub fn wrap_line(line: &str, width: usize, bl: bool, bh: bool, wide: bool) -> (r: Vec<String>)
    ensures
        r.deep_view() == wrapped_line(line@, width as nat, bl, bh, wide),
        r.len() >= 1,
{
    let words = words_vec(line);
    let ghost target = wrapped_line(line@, width as nat, bl, bh, wide);
    let mut out: Vec<String> = Vec::new();
    let mut cur = String::new();
    let mut i: usize = 0;
    proof {
        assert(words.deep_view().skip(0) =~= words.deep_view());
        assert(cur@ =~= Seq::<char>::empty());
    }
    loop
        invariant
            i <= words.len(),
            words.deep_view() == words_of(line@),
            forall|k: int|
                0 <= k < words.deep_view().len() ==> (#[trigger] words.deep_view()[k]).len() > 0,
            target == wrapped_line(line@, width as nat, bl, bh, wide),
            out.deep_view() + fill_words(
                words.deep_view().skip(i as int),
                cur@,
                width as nat,
                bl,
                bh,
                wide,
            ) =~= target,
        decreases words.len() - i, cur_measure(cur@),
    {
        proof {
            assert(forall|k: int|
                0 <= k < words.deep_view().skip(i as int).len()
                    ==> (#[trigger] words.deep_view().skip(i as int)[k]).len() > 0);
        }
        if i >= words.len() {
            let ghost dv_old = out.deep_view();
            let ghost curv = cur@;
            out.push(cur);
            proof {
                assert(words.deep_view().skip(i as int) =~= Seq::<Seq<char>>::empty());
                assert(out.deep_view() =~= dv_old.push(curv));
                assert(dv_old.push(curv) =~= dv_old + seq![curv]);
                assert(out.deep_view() =~= target);
            }
            return out;
        }
        let ghost remaining = words.deep_view().skip(i as int);
        proof {
            assert(remaining[0] == words.deep_view()[i as int]);
            assert(remaining.drop_first() =~= words.deep_view().skip(i + 1));
        }
        if cur.as_str().unicode_len() == 0 {
            proof {
                assert(cur@ =~= Seq::<char>::empty());
            }
            let pieces = split_word_vec(words[i].as_str(), width, bl, bh, wide);
            proof {
                assert(words[i as int]@ == words.deep_view()[i as int]);
            }
            let ghost pv = pieces.deep_view();
            let ghost dv_start = out.deep_view();
            let mut j: usize = 0;
            while j + 1 < pieces.len()
                invariant
                    j < pieces.len(),
                    pieces.deep_view() == pv,
                    out.deep_view() =~= dv_start + pv.take(j as int),
                decreases pieces.len() - j,
            {
                let ghost dv_old = out.deep_view();
                let piece = String::from_str(pieces[j].as_str());
                proof {
                    assert(piece@ == pv[j as int]);
                }
                out.push(piece);
                proof {
                    assert(out.deep_view() =~= dv_old.push(pv[j as int]));
                    assert(pv.take(j + 1) =~= pv.take(j as int).push(pv[j as int]));
                }
                j = j + 1;
            }
            cur = String::from_str(pieces[j].as_str());
            proof {
                assert(cur@ == pv[j as int]);
                assert(j + 1 == pv.len());
                assert(pv.take(j as int) =~= pv.drop_last());
                assert(cur@ == pv.last());
                assert(fill_words(remaining, Seq::<char>::empty(), width as nat, bl, bh, wide)
                    =~= pv.drop_last() + fill_words(
                    remaining.drop_first(),
                    pv.last(),
                    width as nat,
                    bl,
                    bh,
                    wide,
                ));
                assert((dv_start + pv.drop_last()) + fill_words(
                    remaining.drop_first(),
                    pv.last(),
                    width as nat,
                    bl,
                    bh,
                    wide,
                ) =~= dv_start + (pv.drop_last() + fill_words(
                    remaining.drop_first(),
                    pv.last(),
                    width as nat,
                    bl,
                    bh,
                    wide,
                )));
            }
            i = i + 1;
        } else {
            let mut cand = String::from_str(cur.as_str());
            crate::chars::push_char(&mut cand, ' ');
            cand.append(words[i].as_str());
            proof {
                assert(words[i as int]@ == words.deep_view()[i as int]);
                assert(cand@ =~= cur@ + seq![' '] + remaining[0]);
            }
            let cw = visible_width(cand.as_str(), wide);
            if cw <= width {
                cur = cand;
                i = i + 1;
            } else {
                let ghost dv_old = out.deep_view();
                let ghost curv = cur@;
                out.push(cur);
                cur = String::new();
                proof {
                    assert(out.deep_view() =~= dv_old.push(curv));
                    assert(dv_old.push(curv) =~= dv_old + seq![curv]);
                    assert((dv_old + seq![curv]) + fill_words(
                        remaining,
                        Seq::<char>::empty(),
                        width as nat,
                        bl,
                        bh,
                        wide,
                    ) =~= dv_old + (seq![curv] + fill_words(
                        remaining,
                        Seq::<char>::empty(),
                        width as nat,
                        bl,
                        bh,
                        wide,
                    )));
                }
            }
        }
    }
}

/// Wrap a whole cell: hard line breaks are kept, then each line is wrapped.
pub fn wrap_text(cell: &str, width: usize, bl: bool, bh: bool, wide: bool) -> (r: Vec<String>)
    ensures
        r.deep_view() == wrapped_cell(cell@, width as nat, bl, bh, wide),
        r.len() >= 1,
{
    let hard = split_str(cell, '\n');
    let mut out: Vec<String> = Vec::new();
    let mut i: usize = 0;
    proof {
        assert(hard.deep_view().skip(0) =~= hard.deep_view());
    }
    while i < hard.len()
        invariant
            i <= hard.len(),
            hard.deep_view() == split_lines(cell@),
            hard.len() >= 1,
            out.deep_view() + wrapped_lines_of(
                hard.deep_view().skip(i as int),
                width as nat,
                bl,
                bh,
                wide,
            ) =~= wrapped_cell(cell@, width as nat, bl, bh, wide),
            i > 0 ==> out.len() >= 1,
        decreases hard.len() - i,
    {
        let ghost remaining = hard.deep_view().skip(i as int);
        proof {
            assert(remaining[0] == hard.deep_view()[i as int]);
            assert(remaining.drop_first() =~= hard.deep_view().skip(i + 1));
            assert(hard[i as int]@ == hard.deep_view()[i as int]);
        }
        let pieces = wrap_line(hard[i].as_str(), width, bl, bh, wide);
        let ghost pv = pieces.deep_view();
        let ghost dv_start = out.deep_view();
        let mut j: usize = 0;
        while j < pieces.len()
            invariant
                j <= pieces.len(),
                pieces.deep_view() == pv,
                out.deep_view() =~= dv_start + pv.take(j as int),
            decreases pieces.len() - j,
        {
            let ghost dv_old = out.deep_view();
            let piece = String::from_str(pieces[j].as_str());
            proof {
                assert(piece@ == pv[j as int]);
            }
            out.push(piece);
            proof {
                assert(out.deep_view() =~= dv_old.push(pv[j as int]));
                assert(pv.take(j + 1) =~= pv.take(j as int).push(pv[j as int]));
            }
            j = j + 1;
        }
        proof {
            assert(pv.take(pieces.len() as int) =~= pv);
            assert((dv_start + pv) + wrapped_lines_of(
                remaining.drop_first(),
                width as nat,
                bl,
                bh,
                wide,
            ) =~= dv_start + (pv + wrapped_lines_of(
                remaining.drop_first(),
                width as nat,
                bl,
                bh,
                wide,
            )));
        }
        i = i + 1;
    }
    proof {
        assert(hard.deep_view().skip(hard.len() as int) =~= Seq::<Seq<char>>::empty());
        assert(out.deep_view() =~= wrapped_cell(cell@, width as nat, bl, bh, wide));
    }
    out
}

} // verus!
