//! How the lines of doc comments are read, and how names are ordered.

use vstd::prelude::*;

use crate::lang;
use crate::natspec::{inner_text, is_block, is_return_name, return_tag, split_word, with_line};
use crate::order::comes_before;
use crate::text::{begins, is_white, trimmed, white_from};

verus! {

/// Whether `word` is the first word of a text and `rest` what follows it.
pub open spec fn is_split(s: Seq<char>, word: Seq<char>, rest: Seq<char>) -> bool {
    &&& forall|i: int| 0 <= i < word.len() ==> !is_white(#[trigger] word[i])
    &&& begins(s, word)
    &&& if s.len() == word.len() {
        rest.len() == 0
    } else {
        is_white(s[word.len() as int]) && rest == trimmed(s.skip(word.len() as int + 1))
    }
}

proof fn lemma_white(s: Seq<char>, i: int)
    requires
        0 <= i <= s.len(),
    ensures
        white_from(s, i) matches Some(k) ==> i <= k < s.len() && is_white(s[k]) && forall|m: int|
            i <= m < k ==> !is_white(#[trigger] s[m]),
        white_from(s, i) is None ==> forall|m: int|
            i <= m < s.len() ==> !is_white(#[trigger] s[m]),
    decreases s.len() - i,
{
    if i < s.len() && !is_white(s[i]) {
        lemma_white(s, i + 1);
    }
}

/// A text is split at its first white space.
pub proof fn texts_are_split_at_white_space(s: Seq<char>)
    ensures
        is_split(s, split_word(s).0, split_word(s).1),
{
    lemma_white(s, 0);
    match white_from(s, 0) {
        Some(k) => {
            assert(s.subrange(0, k) =~= s.take(k));
        },
        None => {
            assert(s.subrange(0, s.len() as int) =~= s);
        },
    }
}

/// A line that begins with `@` begins a tag: the word behind the `@`, with the text that
/// follows. Any other line goes on with the last tag, behind a blank. Empty lines, and lines
/// before the first tag, say nothing.
pub proof fn lines_begin_or_continue_tags(tags: Seq<(Seq<char>, Seq<char>)>, raw: Seq<char>)
    ensures
        ({
            let line = trimmed(raw);
            let after = with_line(tags, raw);
            &&& line.len() > 0 && line[0] == '@' ==> after.len() == tags.len() + 1
                && after.drop_last() == tags && is_split(
                line.skip(1),
                after.last().0,
                after.last().1,
            )
            &&& line.len() > 0 && line[0] != '@' && tags.len() > 0 ==> after.len() == tags.len()
                && after.drop_last() == tags.drop_last() && after.last().0 == tags.last().0
                && after.last().1 == if tags.last().1.len() == 0 {
                line
            } else {
                tags.last().1 + seq![' '] + line
            }
            &&& line.len() == 0 || (line[0] != '@' && tags.len() == 0) ==> after == tags
        }),
{
    let line = trimmed(raw);
    let after = with_line(tags, raw);
    reveal_strlit("@");
    reveal_strlit(" ");
    assert("@"@ =~= seq!['@']);
    assert(" "@ =~= seq![' ']);
    if line.len() > 0 {
        assert(line.subrange(0, 1) =~= seq![line[0]]);
        assert(line.subrange(0, 1)[0] == line[0]);
        if line[0] == '@' {
            texts_are_split_at_white_space(line.skip(1));
            assert(after.drop_last() =~= tags);
        } else if tags.len() > 0 {
            assert(after.drop_last() =~= tags.drop_last());
        }
    }
}

/// A `@return` names its value where its first word can be a name and more text follows.
pub proof fn returns_may_be_named(body: Seq<char>)
    ensures
        is_return_name(split_word(body).0) && split_word(body).1.len() > 0 ==> return_tag(body) == (
            Some(split_word(body).0),
            split_word(body).1,
        ),
        !(is_return_name(split_word(body).0) && split_word(body).1.len() > 0) ==> return_tag(body)
            == (None::<Seq<char>>, body),
{
}

/// The text of a block comment stands between `/**` and `*/`.
pub proof fn blocks_are_read_between_their_delimiters(text: Seq<char>, inner: Seq<char>)
    requires
        trimmed(text) == "/**"@ + inner + "*/"@,
    ensures
        is_block(text),
        inner_text(text) == inner,
{
    reveal_strlit("/**");
    reveal_strlit("*/");
    assert("/**"@.len() == 3);
    assert("*/"@.len() == 2);
    let t = trimmed(text);
    assert(t.subrange(0, 3) =~= "/**"@);
    let rest = t.skip(3);
    assert(rest =~= inner + "*/"@);
    assert(rest.subrange(rest.len() - 2, rest.len() as int) =~= "*/"@);
    assert(rest.take(rest.len() - 2) =~= inner);
}

/// Whether one text comes before another: at the first character in which they differ it
/// has the lesser one, or it ends there.
pub open spec fn is_less_at(a: Seq<char>, b: Seq<char>, k: int) -> bool {
    &&& 0 <= k <= a.len() && k < b.len()
    &&& forall|i: int| 0 <= i < k ==> #[trigger] a[i] == b[i]
    &&& k == a.len() || a[k] < b[k]
}

/// Names are ordered by the first character in which they differ.
pub proof fn names_are_ordered_by_characters(a: Seq<char>, b: Seq<char>)
    ensures
        comes_before(a, b) <==> exists|k: int| #[trigger] is_less_at(a, b, k),
    decreases a.len(),
{
    if b.len() == 0 {
    } else if a.len() == 0 {
        assert(is_less_at(a, b, 0));
    } else if a[0] != b[0] {
        if a[0] < b[0] {
            assert(is_less_at(a, b, 0));
        } else if exists|k: int| #[trigger] is_less_at(a, b, k) {
            let k = choose|k: int| #[trigger] is_less_at(a, b, k);
            if k > 0 {
                assert(a[0] == b[0]);
            }
        }
    } else {
        let x = a.skip(1);
        let y = b.skip(1);
        names_are_ordered_by_characters(x, y);
        if exists|k: int| #[trigger] is_less_at(x, y, k) {
            let k = choose|k: int| #[trigger] is_less_at(x, y, k);
            assert forall|i: int| 0 <= i < k + 1 implies #[trigger] a[i] == b[i] by {
                if i > 0 {
                    assert(x[i - 1] == y[i - 1]);
                }
            }
            assert(is_less_at(a, b, k + 1));
        }
        if exists|k: int| #[trigger] is_less_at(a, b, k) {
            let k = choose|k: int| #[trigger] is_less_at(a, b, k);
            assert(k > 0);
            assert forall|i: int| 0 <= i < k - 1 implies #[trigger] x[i] == y[i] by {
                assert(a[i + 1] == b[i + 1]);
            }
            assert(is_less_at(x, y, k - 1));
        }
    }
}

/// The text of a Lua comment stands behind its dashes.
pub proof fn lua_comments_are_read_behind_their_dashes(text: Seq<char>, inner: Seq<char>)
    requires
        inner.len() == 0 || inner[0] != '-',
    ensures
        trimmed(text) == seq!['-', '-'] + inner ==> lang::lua::comment_text(text) == trimmed(inner),
        trimmed(text) == seq!['-', '-', '-'] + inner ==> lang::lua::comment_text(text) == trimmed(
            inner,
        ),
{
    reveal_strlit("--");
    reveal_strlit("---");
    assert("--"@ =~= seq!['-', '-']);
    assert("---"@ =~= seq!['-', '-', '-']);
    let t = trimmed(text);
    if t == seq!['-', '-'] + inner {
        assert(t.subrange(0, 2) =~= "--"@);
        if begins(t, "---"@) {
            assert(t.subrange(0, 3)[2] == '-');
            assert(t[2] == inner[0]);
        }
        assert(t.skip(2) =~= inner);
    }
    if t == seq!['-', '-', '-'] + inner {
        assert(t.subrange(0, 3) =~= "---"@);
        assert(t.skip(3) =~= inner);
        if begins(inner, "--"@) {
            assert(inner.subrange(0, 2)[0] == inner[0]);
        }
    }
}

} // verus!
