//! What holds of the ways in which texts are cut and put together.

use vstd::prelude::*;

use crate::text::{
    ahead_all, begins, behind_all, ends, has, is_white, joined, lemma_place_from, lines_of,
    newline_from, pieces, place, place_from, stripped, stripped_back, stripped_front, trimmed,
    trimmed_back, trimmed_front, white_from, without_cr, word_end, words,
};

verus! {

/// Whether all characters of a text are among those of `set`.
pub open spec fn made_of(s: Seq<char>, set: spec_fn(char) -> bool) -> bool {
    forall|i: int| 0 <= i < s.len() ==> set(#[trigger] s[i])
}

/// Whether `t` is what is left of `s` without the characters of `set` at its front.
pub open spec fn is_cut_in_front(s: Seq<char>, set: spec_fn(char) -> bool, t: Seq<char>) -> bool {
    exists|k: int|
        0 <= k <= s.len() && t == #[trigger] s.skip(k) && made_of(s.take(k), set) && (t.len() > 0
            ==> !set(t[0]))
}

/// Whether `t` is what is left of `s` without the characters of `set` at its end.
pub open spec fn is_cut_behind(s: Seq<char>, set: spec_fn(char) -> bool, t: Seq<char>) -> bool {
    exists|k: int|
        0 <= k <= s.len() && t == #[trigger] s.take(k) && made_of(s.skip(k), set) && (t.len() > 0
            ==> !set(t.last()))
}

/// Whether `t` is what is left of `s` without the characters of `set` around it.
pub open spec fn is_cut(s: Seq<char>, set: spec_fn(char) -> bool, t: Seq<char>) -> bool {
    exists|a: int, b: int|
        0 <= a <= b <= s.len() && t == #[trigger] s.subrange(a, b) && made_of(s.take(a), set)
            && made_of(s.skip(b), set) && (t.len() > 0 ==> !set(t[0]) && !set(t.last()))
}

/// White space.
pub open spec fn white() -> spec_fn(char) -> bool {
    |c: char| is_white(c)
}

/// The characters of a text.
pub open spec fn chars_in(set: Seq<char>) -> spec_fn(char) -> bool {
    |c: char| set.contains(c)
}

proof fn lemma_trimmed_front(s: Seq<char>)
    ensures
        is_cut_in_front(s, white(), trimmed_front(s)),
    decreases s.len(),
{
    if s.len() > 0 && is_white(s[0]) {
        lemma_trimmed_front(s.skip(1));
        let t = trimmed_front(s);
        let r = s.skip(1);
        let k = choose|k: int|
            0 <= k <= r.len() && t == #[trigger] r.skip(k) && made_of(r.take(k), white()) && (
            t.len() > 0 ==> !white()(t[0]));
        assert(r.skip(k) =~= s.skip(k + 1));
        assert forall|i: int| 0 <= i < k + 1 implies white()(#[trigger] s.take(k + 1)[i]) by {
            if i > 0 {
                assert(r.take(k)[i - 1] == s[i]);
            }
        }
    } else {
        assert(s.skip(0) =~= s);
        assert(made_of(s.take(0), white()));
    }
}

proof fn lemma_trimmed_back(s: Seq<char>)
    ensures
        is_cut_behind(s, white(), trimmed_back(s)),
    decreases s.len(),
{
    if s.len() > 0 && is_white(s.last()) {
        lemma_trimmed_back(s.drop_last());
        let t = trimmed_back(s);
        let r = s.drop_last();
        let k = choose|k: int|
            0 <= k <= r.len() && t == #[trigger] r.take(k) && made_of(r.skip(k), white()) && (
            t.len() > 0 ==> !white()(t.last()));
        assert(r.take(k) =~= s.take(k));
        assert forall|i: int| 0 <= i < s.skip(k).len() implies white()(
            #[trigger] s.skip(k)[i],
        ) by {
            if i < r.skip(k).len() {
                assert(r.skip(k)[i] == s.skip(k)[i]);
            }
        }
    } else {
        assert(s.take(s.len() as int) =~= s);
        assert(made_of(s.skip(s.len() as int), white()));
    }
}

proof fn lemma_stripped_front(s: Seq<char>, set: Seq<char>)
    ensures
        is_cut_in_front(s, chars_in(set), stripped_front(s, set)),
    decreases s.len(),
{
    if s.len() > 0 && set.contains(s[0]) {
        lemma_stripped_front(s.skip(1), set);
        let t = stripped_front(s, set);
        let r = s.skip(1);
        let k = choose|k: int|
            0 <= k <= r.len() && t == #[trigger] r.skip(k) && made_of(r.take(k), chars_in(set)) && (
            t.len() > 0 ==> !chars_in(set)(t[0]));
        assert(r.skip(k) =~= s.skip(k + 1));
        assert forall|i: int| 0 <= i < k + 1 implies chars_in(set)(
            #[trigger] s.take(k + 1)[i],
        ) by {
            if i > 0 {
                assert(r.take(k)[i - 1] == s[i]);
            }
        }
    } else {
        assert(s.skip(0) =~= s);
        assert(made_of(s.take(0), chars_in(set)));
    }
}

proof fn lemma_stripped_back(s: Seq<char>, set: Seq<char>)
    ensures
        is_cut_behind(s, chars_in(set), stripped_back(s, set)),
    decreases s.len(),
{
    if s.len() > 0 && set.contains(s.last()) {
        lemma_stripped_back(s.drop_last(), set);
        let t = stripped_back(s, set);
        let r = s.drop_last();
        let k = choose|k: int|
            0 <= k <= r.len() && t == #[trigger] r.take(k) && made_of(r.skip(k), chars_in(set)) && (
            t.len() > 0 ==> !chars_in(set)(t.last()));
        assert(r.take(k) =~= s.take(k));
        assert forall|i: int| 0 <= i < s.skip(k).len() implies chars_in(set)(
            #[trigger] s.skip(k)[i],
        ) by {
            if i < r.skip(k).len() {
                assert(r.skip(k)[i] == s.skip(k)[i]);
            }
        }
    } else {
        assert(s.take(s.len() as int) =~= s);
        assert(made_of(s.skip(s.len() as int), chars_in(set)));
    }
}

proof fn lemma_cut(s: Seq<char>, set: spec_fn(char) -> bool, f: Seq<char>, t: Seq<char>)
    requires
        is_cut_in_front(s, set, f),
        is_cut_behind(f, set, t),
    ensures
        is_cut(s, set, t),
{
    let a = choose|k: int|
        0 <= k <= s.len() && f == #[trigger] s.skip(k) && made_of(s.take(k), set) && (f.len() > 0
            ==> !set(f[0]));
    let k = choose|k: int|
        0 <= k <= f.len() && t == #[trigger] f.take(k) && made_of(f.skip(k), set) && (t.len() > 0
            ==> !set(t.last()));
    let b = a + k;
    assert(s.subrange(a, b) =~= t);
    assert forall|i: int| 0 <= i < s.skip(b).len() implies set(#[trigger] s.skip(b)[i]) by {
        assert(f.skip(k)[i] == s.skip(b)[i]);
    }
    if t.len() > 0 {
        assert(t[0] == f[0]);
    }
}

/// A trimmed text is the text without the white space around it.
pub proof fn trimming_cuts_white_space(s: Seq<char>)
    ensures
        is_cut(s, white(), trimmed(s)),
        is_cut_in_front(s, white(), trimmed_front(s)),
        is_cut_behind(s, white(), trimmed_back(s)),
{
    lemma_trimmed_front(s);
    lemma_trimmed_back(s);
    lemma_trimmed_back(trimmed_front(s));
    lemma_cut(s, white(), trimmed_front(s), trimmed(s));
}

/// A stripped text is the text without the given characters around it.
pub proof fn stripping_cuts_characters(s: Seq<char>, set: Seq<char>)
    ensures
        is_cut(s, chars_in(set), stripped(s, set)),
        is_cut_in_front(s, chars_in(set), stripped_front(s, set)),
        is_cut_behind(s, chars_in(set), stripped_back(s, set)),
{
    lemma_stripped_front(s, set);
    lemma_stripped_back(s, set);
    lemma_stripped_back(stripped_front(s, set), set);
    lemma_cut(s, chars_in(set), stripped_front(s, set), stripped(s, set));
}

/// A text `n` times, one behind the other.
pub open spec fn repeated(p: Seq<char>, n: nat) -> Seq<char>
    decreases n,
{
    if n == 0 {
        Seq::empty()
    } else {
        p + repeated(p, (n - 1) as nat)
    }
}

/// What is behind all the copies of a text at the front of another, together with
/// those copies, is that other text, and has no copy at its front.
pub proof fn prefixes_are_cut_off(s: Seq<char>, p: Seq<char>)
    requires
        p.len() > 0,
    ensures
        exists|n: nat| s == #[trigger] repeated(p, n) + behind_all(s, p),
        !begins(behind_all(s, p), p),
    decreases s.len(),
{
    if begins(s, p) {
        let r = s.skip(p.len() as int);
        prefixes_are_cut_off(r, p);
        let n = choose|n: nat| r == #[trigger] repeated(p, n) + behind_all(r, p);
        assert(s =~= p + r);
        assert(s =~= repeated(p, (n + 1) as nat) + behind_all(s, p));
    } else {
        assert(s =~= repeated(p, 0) + s);
    }
}

/// What is before all the copies of a text at the end of another has no copy at its
/// end, and is a front part of that other text.
pub proof fn suffixes_are_cut_off(s: Seq<char>, p: Seq<char>)
    requires
        p.len() > 0,
    ensures
        begins(s, ahead_all(s, p)),
        !ends(ahead_all(s, p), p),
        !ends(s, p) ==> ahead_all(s, p) == s,
    decreases s.len(),
{
    if ends(s, p) {
        let r = s.take(s.len() - p.len());
        suffixes_are_cut_off(r, p);
        let t = ahead_all(s, p);
        assert(r.subrange(0, t.len() as int) =~= s.subrange(0, t.len() as int));
    } else {
        assert(s.subrange(0, s.len() as int) =~= s);
    }
}

/// Whether `p` stands at position `k` of a text.
pub open spec fn stands_at(s: Seq<char>, p: Seq<char>, k: int) -> bool {
    0 <= k && k + p.len() <= s.len() && s.subrange(k, k + p.len()) == p
}

proof fn lemma_place(s: Seq<char>, p: Seq<char>, i: int)
    requires
        0 <= i,
    ensures
        place_from(s, p, i) matches Some(k) ==> i <= k && stands_at(s, p, k) && forall|m: int|
            i <= m < k ==> !#[trigger] stands_at(s, p, m),
        place_from(s, p, i) is None ==> forall|m: int| i <= m ==> !#[trigger] stands_at(s, p, m),
    decreases s.len() + 1 - i,
{
    if i <= s.len() {
        lemma_place_from(s, p, i);
        if begins(s.skip(i), p) {
        } else {
            lemma_place(s, p, i + 1);
            if stands_at(s, p, i) {
                assert(s.skip(i).subrange(0, p.len() as int) =~= s.subrange(i, i + p.len()));
            }
        }
    }
}

/// The place of a text in another is the first position at which it stands there.
pub proof fn places_are_first(s: Seq<char>, p: Seq<char>)
    ensures
        place(s, p) matches Some(k) ==> stands_at(s, p, k) && forall|m: int|
            0 <= m < k ==> !#[trigger] stands_at(s, p, m),
        place(s, p) is None ==> forall|m: int| !#[trigger] stands_at(s, p, m),
        has(s, p) <==> exists|m: int| #[trigger] stands_at(s, p, m),
{
    lemma_place(s, p, 0);
}

proof fn lemma_joined_front(parts: Seq<Seq<char>>, sep: Seq<char>)
    requires
        parts.len() > 1,
    ensures
        joined(parts, sep) == parts[0] + sep + joined(parts.skip(1), sep),
    decreases parts.len(),
{
    let rest = parts.skip(1);
    if parts.len() == 2 {
        assert(joined(parts.drop_last(), sep) == parts[0]);
        assert(joined(rest, sep) == parts[1]);
        assert(joined(parts, sep) =~= parts[0] + sep + joined(rest, sep));
    } else {
        lemma_joined_front(parts.drop_last(), sep);
        assert(parts.drop_last().skip(1) =~= rest.drop_last());
        assert(joined(parts, sep) =~= parts[0] + sep + joined(rest, sep));
    }
}

/// The pieces of a text, put together again, are the text. The separator stands in
/// none of them.
pub proof fn pieces_make_up_the_text(s: Seq<char>, sep: Seq<char>)
    requires
        sep.len() > 0,
    ensures
        pieces(s, sep).len() > 0,
        joined(pieces(s, sep), sep) == s,
        forall|i: int| 0 <= i < pieces(s, sep).len() ==> place(#[trigger] pieces(s, sep)[i], sep) is None,
    decreases s.len(),
{
    places_are_first(s, sep);
    match place(s, sep) {
        Some(k) => {
            let rest = s.skip(k + sep.len());
            pieces_make_up_the_text(rest, sep);
            let parts = pieces(s, sep);
            assert(parts.skip(1) =~= pieces(rest, sep));
            lemma_joined_front(parts, sep);
            assert(s =~= s.take(k) + sep + rest);
            assert forall|i: int| 0 <= i < parts.len() implies place(#[trigger] parts[i], sep) is None by {
                if i > 0 {
                    assert(parts[i] == pieces(rest, sep)[i - 1]);
                } else {
                    let head = s.take(k);
                    places_are_first(head, sep);
                    if has(head, sep) {
                        let m = choose|m: int| #[trigger] stands_at(head, sep, m);
                        assert(head.subrange(m, m + sep.len()) =~= s.subrange(m, m + sep.len()));
                        assert(stands_at(s, sep, m));
                    }
                }
            }
        },
        None => {
            assert(pieces(s, sep) =~= seq![s]);
        },
    }
}

/// The text without its white space.
pub open spec fn without_white(s: Seq<char>) -> Seq<char>
    decreases s.len(),
{
    if s.len() == 0 {
        Seq::empty()
    } else if is_white(s[0]) {
        without_white(s.skip(1))
    } else {
        seq![s[0]] + without_white(s.skip(1))
    }
}

/// Some texts, one behind the other.
pub open spec fn run_together(parts: Seq<Seq<char>>) -> Seq<char>
    decreases parts.len(),
{
    if parts.len() == 0 {
        Seq::empty()
    } else {
        parts[0] + run_together(parts.skip(1))
    }
}

proof fn lemma_without_white(s: Seq<char>, k: int)
    requires
        0 <= k <= s.len(),
        forall|i: int| 0 <= i < k ==> !is_white(#[trigger] s[i]),
    ensures
        without_white(s) == s.take(k) + without_white(s.skip(k)),
    decreases k,
{
    if k == 0 {
        assert(s.skip(0) =~= s);
        assert(s.take(0) + without_white(s) =~= without_white(s));
    } else {
        let r = s.skip(1);
        assert forall|i: int| 0 <= i < k - 1 implies !is_white(#[trigger] r[i]) by {
            assert(r[i] == s[i + 1]);
        }
        lemma_without_white(r, k - 1);
        assert(r.skip(k - 1) =~= s.skip(k));
        assert(seq![s[0]] + (r.take(k - 1) + without_white(s.skip(k))) =~= s.take(k)
            + without_white(s.skip(k)));
    }
}

proof fn lemma_white_front(s: Seq<char>)
    ensures
        without_white(s) == without_white(trimmed_front(s)),
    decreases s.len(),
{
    if s.len() > 0 && is_white(s[0]) {
        lemma_white_front(s.skip(1));
    }
}

proof fn lemma_white_from(s: Seq<char>, i: int)
    requires
        0 <= i <= s.len(),
    ensures
        white_from(s, i) matches Some(k) ==> i <= k < s.len() && is_white(s[k]) && forall|m: int|
            i <= m < k ==> !is_white(#[trigger] s[m]),
        white_from(s, i) is None ==> forall|m: int|
            i <= m < s.len() ==> !is_white(#[trigger] s[m]),
    decreases s.len() - i,
{
    if i < s.len() && !is_white(s[i]) {
        lemma_white_from(s, i + 1);
    }
}

/// The words of a text, put together, are the text without its white space. No word
/// is empty, and none has white space in it.
pub proof fn words_make_up_the_text(s: Seq<char>)
    ensures
        run_together(words(s)) == without_white(s),
        forall|i: int|
            0 <= i < words(s).len() ==> (#[trigger] words(s)[i]).len() > 0 && made_of(
                words(s)[i],
                |c: char| !is_white(c),
            ),
    decreases s.len(),
{
    let t = trimmed_front(s);
    lemma_trimmed_front(s);
    lemma_white_front(s);
    if t.len() > 0 {
        let k = choose|k: int|
            0 <= k <= s.len() && t == #[trigger] s.skip(k) && made_of(s.take(k), white()) && (
            t.len() > 0 ==> !white()(t[0]));
        lemma_white_from(t, 0);
        let e = word_end(t);
        let head = t.take(e);
        let rest = t.skip(e);
        assert(e > 0);
        words_make_up_the_text(rest);
        lemma_without_white(t, e);
        let all = words(s);
        assert(all.skip(1) =~= words(rest));
        assert(all[0] == head);
        assert forall|i: int| 0 <= i < all.len() implies (#[trigger] all[i]).len() > 0 && made_of(
            all[i],
            |c: char| !is_white(c),
        ) by {
            if i > 0 {
                assert(all[i] == words(rest)[i - 1]);
            }
        }
    }
}

/// Whether the lines of a text are cut at its line breaks.
pub open spec fn are_lines(s: Seq<char>, lines: Seq<Seq<char>>) -> bool
    decreases s.len(),
{
    if lines.len() == 0 {
        s.len() == 0
    } else {
        let head = lines[0];
        let n = head.len() as int;
        ||| lines.len() == 1 && s == head && s.len() > 0 && !s.contains('\n')
        ||| n < s.len() && s.take(n) == head && s[n] == '\n' && !head.contains('\n') && (n == 0
            || head.last() != '\r') && are_lines(s.skip(n + 1), lines.skip(1))
        ||| n + 1 < s.len() && s.take(n) == head && s[n] == '\r' && s[n + 1] == '\n'
            && !head.contains('\n') && are_lines(s.skip(n + 2), lines.skip(1))
    }
}

proof fn lemma_newline(s: Seq<char>, i: int)
    requires
        0 <= i <= s.len(),
    ensures
        newline_from(s, i) matches Some(k) ==> i <= k < s.len() && s[k] == '\n' && forall|m: int|
            i <= m < k ==> #[trigger] s[m] != '\n',
        newline_from(s, i) is None ==> forall|m: int| i <= m < s.len() ==> #[trigger] s[m] != '\n',
    decreases s.len() - i,
{
    if i < s.len() && s[i] != '\n' {
        lemma_newline(s, i + 1);
    }
}

/// The lines of a text stand between its line breaks: `\n`, or `\r\n`.
pub proof fn lines_make_up_the_text(s: Seq<char>)
    ensures
        are_lines(s, lines_of(s)),
    decreases s.len(),
{
    lemma_newline(s, 0);
    let lines = lines_of(s);
    match newline_from(s, 0) {
        Some(k) => {
            lines_make_up_the_text(s.skip(k + 1));
            assert(lines.skip(1) =~= lines_of(s.skip(k + 1)));
            let head = without_cr(s.take(k));
            assert(lines[0] == head);
            assert forall|i: int| 0 <= i < head.len() implies head[i] != '\n' by {
                assert(head[i] == s[i]);
            }
            if k > 0 && s[k - 1] == '\r' {
                assert(head =~= s.take(k - 1));
                assert(s.skip(head.len() as int + 2) =~= s.skip(k + 1));
            } else {
                assert(head =~= s.take(k));
                if k > 0 {
                    assert(head.last() == s[k - 1]);
                }
            }
        },
        None => {
            if s.len() > 0 {
                assert(lines =~= seq![s]);
            }
        },
    }
}

} // verus!
