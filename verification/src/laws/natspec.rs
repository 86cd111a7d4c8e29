//! What holds of the tags of every doc comment.

use vstd::prelude::*;

use crate::docs::{doc_line, doc_lines};
use crate::lists::group_lists;
use crate::natspec::{
    cleaned_lines, custom_texts, doc_of, inner_text, is_block, key_from, natspec, no_tags,
    normalized, return_tag, split_word, tags_of, tags_upto, with_custom, with_line, with_tag, NatSpec,
};
use crate::text::{
    begins, behind, is_white, joined, lines_of, newline_from, trimmed, trimmed_back, trimmed_front,
    without_cr, words,
};

verus! {

broadcast use group_lists;

/// The texts of those of the first `k` tags that have the given name, in order.
pub open spec fn texts_upto(tags: Seq<(Seq<char>, Seq<char>)>, name: Seq<char>, k: nat) -> Seq<
    Seq<char>,
>
    decreases k,
{
    if k == 0 {
        Seq::empty()
    } else if tags[k - 1].0 == name {
        texts_upto(tags, name, (k - 1) as nat) + seq![tags[k - 1].1]
    } else {
        texts_upto(tags, name, (k - 1) as nat)
    }
}

/// The texts of all tags of a comment that have the given name, in order.
pub open spec fn texts_of(text: Seq<char>, name: Seq<char>) -> Seq<Seq<char>> {
    texts_upto(tags_of(text), name, tags_of(text).len())
}

/// The first of some texts.
pub open spec fn first_of(texts: Seq<Seq<char>>) -> Option<Seq<char>> {
    if texts.len() > 0 {
        Some(texts[0])
    } else {
        None
    }
}

/// The parameters that some texts describe: each begins with a name.
pub open spec fn params_in(texts: Seq<Seq<char>>) -> Seq<(Seq<char>, Seq<char>)>
    decreases texts.len(),
{
    if texts.len() == 0 {
        Seq::empty()
    } else {
        params_in(texts.drop_last()) + if split_word(texts.last()).0.len() > 0 {
            seq![split_word(texts.last())]
        } else {
            Seq::empty()
        }
    }
}

/// The returned values that some texts describe.
pub open spec fn returns_in(texts: Seq<Seq<char>>) -> Seq<(Option<Seq<char>>, Seq<char>)> {
    Seq::new(texts.len(), |i: int| return_tag(texts[i]))
}

/// The first word in some texts.
pub open spec fn first_word_in(texts: Seq<Seq<char>>) -> Option<Seq<char>>
    decreases texts.len(),
{
    if texts.len() == 0 {
        None
    } else {
        match first_word_in(texts.drop_last()) {
            Some(word) => Some(word),
            None => if words(texts.last()).len() > 0 {
                Some(words(texts.last())[0])
            } else {
                None
            },
        }
    }
}

proof fn lemma_names_differ(key: Seq<char>)
    ensures
        "title"@ != "custom:"@ + key,
        "author"@ != "custom:"@ + key,
        "notice"@ != "custom:"@ + key,
        "dev"@ != "custom:"@ + key,
        "param"@ != "custom:"@ + key,
        "return"@ != "custom:"@ + key,
        "inheritdoc"@ != "custom:"@ + key,
        behind("custom:"@ + key, "custom:"@) == Some(key),
{
    reveal_strlit("title");
    reveal_strlit("author");
    reveal_strlit("notice");
    reveal_strlit("dev");
    reveal_strlit("param");
    reveal_strlit("return");
    reveal_strlit("inheritdoc");
    reveal_strlit("custom:");
    let tag = "custom:"@ + key;
    assert(tag[0] == 'c');
    assert(tag.subrange(0, 7) =~= "custom:"@);
    assert(tag.skip(7) =~= key);
}

proof fn lemma_names_distinct()
    ensures
        "title"@ != "author"@,
        "title"@ != "notice"@,
        "title"@ != "dev"@,
        "title"@ != "param"@,
        "title"@ != "return"@,
        "title"@ != "inheritdoc"@,
        "author"@ != "notice"@,
        "author"@ != "dev"@,
        "author"@ != "param"@,
        "author"@ != "return"@,
        "author"@ != "inheritdoc"@,
        "notice"@ != "dev"@,
        "notice"@ != "param"@,
        "notice"@ != "return"@,
        "notice"@ != "inheritdoc"@,
        "dev"@ != "param"@,
        "dev"@ != "return"@,
        "dev"@ != "inheritdoc"@,
        "param"@ != "return"@,
        "param"@ != "inheritdoc"@,
        "return"@ != "inheritdoc"@,
{
    reveal_strlit("title");
    reveal_strlit("author");
    reveal_strlit("notice");
    reveal_strlit("dev");
    reveal_strlit("param");
    reveal_strlit("return");
    reveal_strlit("inheritdoc");
    assert("title"@[0] == 't');
    assert("author"@[0] == 'a');
    assert("notice"@[0] == 'n');
    assert("dev"@[0] == 'd');
    assert("param"@[0] == 'p');
    assert("return"@[0] == 'r');
    assert("inheritdoc"@[0] == 'i');
}

proof fn lemma_params_in_push(texts: Seq<Seq<char>>, x: Seq<char>)
    ensures
        params_in(texts + seq![x]) == params_in(texts) + if split_word(x).0.len() > 0 {
            seq![split_word(x)]
        } else {
            Seq::empty()
        },
        returns_in(texts + seq![x]) == returns_in(texts) + seq![return_tag(x)],
        first_word_in(texts + seq![x]) == match first_word_in(texts) {
            Some(word) => Some(word),
            None => if words(x).len() > 0 {
                Some(words(x)[0])
            } else {
                None
            },
        },
{
    assert((texts + seq![x]).drop_last() =~= texts);
    assert(returns_in(texts + seq![x]) =~= returns_in(texts) + seq![return_tag(x)]);
}

/// What the first `k` tags of a comment say, told by their names.
pub open spec fn says(tags: Seq<(Seq<char>, Seq<char>)>, doc: NatSpec, k: nat) -> bool {
    &&& doc.title == first_of(texts_upto(tags, "title"@, k))
    &&& doc.author == first_of(texts_upto(tags, "author"@, k))
    &&& doc.notice == first_of(texts_upto(tags, "notice"@, k))
    &&& doc.dev == first_of(texts_upto(tags, "dev"@, k))
    &&& doc.params == params_in(texts_upto(tags, "param"@, k))
    &&& doc.returns == returns_in(texts_upto(tags, "return"@, k))
    &&& doc.inheritdoc == first_word_in(texts_upto(tags, "inheritdoc"@, k))
}

proof fn lemma_says(tags: Seq<(Seq<char>, Seq<char>)>, k: nat)
    ensures
        says(tags, doc_of(tags, k), k),
    decreases k,
{
    lemma_names_distinct();
    if k == 0 {
        assert(returns_in(Seq::empty()) =~= Seq::empty());
    } else {
        let j = (k - 1) as nat;
        let name = tags[k - 1].0;
        let body = tags[k - 1].1;
        lemma_says(tags, j);
        lemma_params_in_push(texts_upto(tags, name, j), body);
    }
}

/// Of `@title`, `@author`, `@notice` and `@dev` the first counts. Every `@param`
/// with a name and every `@return` is kept, in order. Of `@inheritdoc` the first
/// one with a target counts.
pub proof fn natspec_reads_each_tag(text: Seq<char>)
    ensures
        natspec(text).title == first_of(texts_of(text, "title"@)),
        natspec(text).author == first_of(texts_of(text, "author"@)),
        natspec(text).notice == first_of(texts_of(text, "notice"@)),
        natspec(text).dev == first_of(texts_of(text, "dev"@)),
        natspec(text).params == params_in(texts_of(text, "param"@)),
        natspec(text).returns == returns_in(texts_of(text, "return"@)),
        natspec(text).inheritdoc == first_word_in(texts_of(text, "inheritdoc"@)),
{
    lemma_says(tags_of(text), tags_of(text).len());
}

proof fn lemma_key_from(tags: Seq<(Seq<char>, Seq<Seq<char>>)>, key: Seq<char>, i: int)
    requires
        0 <= i,
    ensures
        key_from(tags, key, i) matches Some(k) ==> i <= k < tags.len() && tags[k].0 == key,
        key_from(tags, key, i) is None ==> forall|k: int|
            i <= k < tags.len() ==> (#[trigger] tags[k]).0 != key,
    decreases tags.len() - i,
{
    if i < tags.len() {
        lemma_key_from(tags, key, i + 1);
    }
}

proof fn lemma_key_from_same(
    a: Seq<(Seq<char>, Seq<Seq<char>>)>,
    b: Seq<(Seq<char>, Seq<Seq<char>>)>,
    key: Seq<char>,
    i: int,
)
    requires
        0 <= i,
        a.len() == b.len(),
        forall|k: int| 0 <= k < a.len() ==> (#[trigger] a[k]).0 == b[k].0,
    ensures
        key_from(a, key, i) == key_from(b, key, i),
    decreases a.len() - i,
{
    if i < a.len() {
        lemma_key_from_same(a, b, key, i + 1);
    }
}

proof fn lemma_key_from_push(
    tags: Seq<(Seq<char>, Seq<Seq<char>>)>,
    x: (Seq<char>, Seq<Seq<char>>),
    key: Seq<char>,
    i: int,
)
    requires
        0 <= i <= tags.len(),
    ensures
        key_from(tags + seq![x], key, i) == match key_from(tags, key, i) {
            Some(k) => Some(k),
            None => if x.0 == key {
                Some(tags.len() as int)
            } else {
                None
            },
        },
    decreases tags.len() - i,
{
    if i < tags.len() {
        lemma_key_from_push(tags, x, key, i + 1);
    } else {
        assert((tags + seq![x])[i] == x);
        assert(key_from(tags + seq![x], key, i + 1) is None);
    }
}

spec fn texts_under(tags: Seq<(Seq<char>, Seq<Seq<char>>)>, key: Seq<char>) -> Seq<Seq<char>> {
    match key_from(tags, key, 0) {
        Some(k) => tags[k].1,
        None => Seq::empty(),
    }
}

proof fn lemma_with_custom(
    tags: Seq<(Seq<char>, Seq<Seq<char>>)>,
    key: Seq<char>,
    text: Seq<char>,
    other: Seq<char>,
)
    ensures
        texts_under(with_custom(tags, key, text), other) == if other == key {
            texts_under(tags, key) + seq![text]
        } else {
            texts_under(tags, other)
        },
{
    lemma_key_from(tags, key, 0);
    lemma_key_from(tags, other, 0);
    match key_from(tags, key, 0) {
        Some(k) => {
            lemma_key_from_same(tags, with_custom(tags, key, text), other, 0);
        },
        None => {
            lemma_key_from_push(tags, (key, seq![text]), other, 0);
        },
    }
}

proof fn lemma_customs(tags: Seq<(Seq<char>, Seq<char>)>, key: Seq<char>, k: nat)
    requires
        key.len() > 0,
    ensures
        texts_under(doc_of(tags, k).custom_tags, key) == texts_upto(tags, "custom:"@ + key, k),
    decreases k,
{
    if k > 0 {
        let j = (k - 1) as nat;
        let name = tags[k - 1].0;
        let body = tags[k - 1].1;
        lemma_customs(tags, key, j);
        lemma_names_differ(key);
        let before = doc_of(tags, j);
        match behind(name, "custom:"@) {
            Some(own) => {
                lemma_names_differ(own);
                lemma_with_custom(before.custom_tags, own, body, key);
                assert(name =~= "custom:"@ + own) by {
                    assert(name =~= name.subrange(0, "custom:"@.len() as int) + name.skip(
                        "custom:"@.len() as int,
                    ));
                }
            },
            None => {
                assert(with_tag(before, name, body).custom_tags == before.custom_tags);
            },
        }
    }
}

/// The texts of all `@custom:key` tags with one key are kept together, in order.
pub proof fn natspec_gathers_custom_tags(text: Seq<char>, key: Seq<char>)
    requires
        key.len() > 0,
    ensures
        custom_texts(natspec(text), key) == texts_of(text, "custom:"@ + key),
{
    lemma_customs(tags_of(text), key, tags_of(text).len());
}

/// Whether no key occurs twice among custom tags.
pub open spec fn keys_differ(tags: Seq<(Seq<char>, Seq<Seq<char>>)>) -> bool {
    forall|i: int, j: int|
        0 <= i < j < tags.len() ==> (#[trigger] tags[i]).0 != (#[trigger] tags[j]).0
}

proof fn lemma_keys_differ(tags: Seq<(Seq<char>, Seq<char>)>, k: nat)
    ensures
        keys_differ(doc_of(tags, k).custom_tags),
    decreases k,
{
    if k > 0 {
        let j = (k - 1) as nat;
        lemma_keys_differ(tags, j);
        let before = doc_of(tags, j).custom_tags;
        let after = doc_of(tags, k).custom_tags;
        match behind(tags[k - 1].0, "custom:"@) {
            Some(key) => {
                lemma_names_differ(key);
                lemma_key_from(before, key, 0);
                assert forall|x: int, y: int| 0 <= x < y < after.len() implies (
                #[trigger] after[x]).0 != (#[trigger] after[y]).0 by {
                    if after != before {
                        assert(after[x].0 == before[x].0);
                        if y < before.len() {
                            assert(after[y].0 == before[y].0);
                        }
                    }
                }
            },
            None => {},
        }
    }
}

/// Each key of `@custom:key` tags is listed one time.
pub proof fn natspec_lists_custom_keys_once(text: Seq<char>)
    ensures
        keys_differ(natspec(text).custom_tags),
{
    lemma_keys_differ(tags_of(text), tags_of(text).len());
}

/// Whether a text holds no line break.
spec fn one_line(s: Seq<char>) -> bool {
    forall|i: int| 0 <= i < s.len() ==> #[trigger] s[i] != '\n'
}

proof fn lemma_newline_from(s: Seq<char>, i: int)
    requires
        0 <= i,
    ensures
        newline_from(s, i) matches Some(k) ==> i <= k < s.len() && s[k] == '\n' && forall|j: int|
            i <= j < k ==> #[trigger] s[j] != '\n',
        newline_from(s, i) is None ==> forall|j: int| i <= j < s.len() ==> #[trigger] s[j] != '\n',
    decreases s.len() - i,
{
    if i < s.len() {
        lemma_newline_from(s, i + 1);
    }
}

proof fn lemma_lines_hold_no_break(s: Seq<char>)
    ensures
        forall|i: int| 0 <= i < lines_of(s).len() ==> one_line(#[trigger] lines_of(s)[i]),
    decreases s.len(),
{
    lemma_newline_from(s, 0);
    match newline_from(s, 0) {
        Some(k) => {
            lemma_lines_hold_no_break(s.skip(k + 1));
            let line = without_cr(s.take(k));
            assert(one_line(line)) by {
                assert forall|i: int| 0 <= i < line.len() implies #[trigger] line[i] != '\n' by {
                    assert(line[i] == s[i]);
                }
            }
            let rest = lines_of(s.skip(k + 1));
            assert(lines_of(s) == seq![line] + rest);
            assert forall|i: int| 0 <= i < lines_of(s).len() implies one_line(
                #[trigger] lines_of(s)[i],
            ) by {
                if i > 0 {
                    assert(lines_of(s)[i] == rest[i - 1]);
                }
            }
        },
        None => {},
    }
}

proof fn lemma_trimmed_part(s: Seq<char>)
    requires
        one_line(s),
    ensures
        one_line(trimmed_front(s)),
        one_line(trimmed_back(s)),
    decreases s.len(),
{
    if s.len() > 0 {
        assert(one_line(s.skip(1))) by {
            assert forall|i: int| 0 <= i < s.skip(1).len() implies #[trigger] s.skip(1)[i]
                != '\n' by {
                assert(s.skip(1)[i] == s[i + 1]);
            }
        }
        assert(one_line(s.drop_last())) by {
            assert forall|i: int| 0 <= i < s.drop_last().len() implies #[trigger] s.drop_last()[i]
                != '\n' by {
                assert(s.drop_last()[i] == s[i]);
            }
        }
        lemma_trimmed_part(s.skip(1));
        lemma_trimmed_part(s.drop_last());
    }
}

proof fn lemma_doc_line_one_line(s: Seq<char>)
    requires
        one_line(s),
    ensures
        one_line(doc_line(s)),
{
    lemma_trimmed_part(s);
    lemma_trimmed_part(trimmed_front(s));
    let t = trimmed(s);
    assert forall|n: int, i: int| 0 <= n <= t.len() && 0 <= i < t.skip(n).len() implies
        #[trigger] t.skip(n)[i] != '\n' by {
        assert(t.skip(n)[i] == t[i + n]);
    }
}

proof fn lemma_one_more_line(a: Seq<char>, line: Seq<char>)
    requires
        a.len() == 0 || a.last() == '\n',
        one_line(line),
    ensures
        lines_of((a + line).push('\n')) == lines_of(a) + seq![without_cr(line)],
    decreases a.len(),
{
    let s = (a + line).push('\n');
    lemma_newline_from(s, 0);
    lemma_newline_from(a, 0);
    assert(s[s.len() - 1] == '\n');
    let k = newline_from(s, 0)->0;
    if a.len() == 0 {
        assert forall|i: int| 0 <= i < line.len() implies #[trigger] s[i] != '\n' by {
            assert(s[i] == line[i]);
        }
        assert(k == line.len());
        assert(s.take(k) =~= line);
        assert(s.skip(k + 1) =~= Seq::empty());
        assert(lines_of(Seq::<char>::empty()) =~= Seq::empty()) by {
            lemma_newline_from(Seq::empty(), 0);
        }
        assert(a =~= Seq::empty());
        assert(lines_of(s) =~= lines_of(a) + seq![without_cr(line)]);
    } else {
        assert(a[a.len() - 1] == '\n');
        let j = newline_from(a, 0)->0;
        assert(s[j] == a[j]);
        assert forall|i: int| 0 <= i < j implies #[trigger] s[i] != '\n' by {
            assert(s[i] == a[i]);
        }
        assert(k == j);
        assert(s.take(k) =~= a.take(k));
        let rest = a.skip(k + 1);
        if rest.len() > 0 {
            assert(rest.last() == a.last());
        }
        lemma_one_more_line(rest, line);
        assert(s.skip(k + 1) =~= (rest + line).push('\n'));
        assert(lines_of(s) =~= lines_of(a) + seq![without_cr(line)]);
    }
}

proof fn lemma_cleaned_lines(raw: Seq<Seq<char>>, k: nat)
    requires
        k <= raw.len(),
        forall|i: int| 0 <= i < raw.len() ==> one_line(#[trigger] raw[i]),
    ensures
        cleaned_lines(raw, k).len() == 0 || cleaned_lines(raw, k).last() == '\n',
        lines_of(cleaned_lines(raw, k)).len() == k,
        forall|i: int|
            0 <= i < k ==> #[trigger] lines_of(cleaned_lines(raw, k))[i] == without_cr(
                doc_line(raw[i]),
            ),
    decreases k,
{
    if k == 0 {
        lemma_newline_from(Seq::empty(), 0);
    } else {
        let j = (k - 1) as nat;
        lemma_cleaned_lines(raw, j);
        assert(one_line(raw[j as int]));
        lemma_doc_line_one_line(raw[j as int]);
        let before = cleaned_lines(raw, j);
        lemma_one_more_line(before, doc_line(raw[j as int]));
        assert forall|i: int| 0 <= i < k implies #[trigger] lines_of(cleaned_lines(raw, k))[i]
            == without_cr(doc_line(raw[i])) by {
            if i < j {
                assert(lines_of(cleaned_lines(raw, k))[i] == lines_of(before)[i]);
            }
        }
    }
}

proof fn lemma_trimmed_without_last(s: Seq<char>)
    requires
        s.len() > 0,
        is_white(s.last()),
    ensures
        trimmed(s.drop_last()) == trimmed(s),
    decreases s.len(),
{
    let front = s.drop_last();
    if is_white(s[0]) {
        if s.len() == 1 {
            assert(s.skip(1) =~= front);
        } else {
            assert(s.skip(1).drop_last() =~= front.skip(1));
            lemma_trimmed_without_last(s.skip(1));
        }
    }
}

/// The lines of a comment that tags are looked for in: those of a block without
/// its delimiters and the `*` at their front, those of any other text as they
/// are.
pub open spec fn comment_lines(text: Seq<char>) -> Seq<Seq<char>> {
    if is_block(text) {
        doc_lines(lines_of(inner_text(text)))
    } else {
        lines_of(text)
    }
}

proof fn lemma_without_cr(s: Seq<char>)
    ensures
        trimmed(without_cr(s)) == trimmed(s),
{
    if s.len() > 0 && s.last() == '\r' {
        lemma_trimmed_without_last(s);
    }
}

proof fn lemma_same_trim(a: Seq<Seq<char>>, b: Seq<Seq<char>>, k: nat)
    requires
        k <= a.len(),
        k <= b.len(),
        forall|i: int| 0 <= i < k ==> trimmed(#[trigger] a[i]) == trimmed(b[i]),
    ensures
        tags_upto(a, k) == tags_upto(b, k),
    decreases k,
{
    if k > 0 {
        lemma_same_trim(a, b, (k - 1) as nat);
        assert(trimmed(a[k - 1]) == trimmed(b[k - 1]));
    }
}

/// The tags of a comment are those of its lines. Only in a block are the `*` at
/// the front of lines left out.
pub proof fn natspec_reads_cleaned_lines(text: Seq<char>)
    ensures
        tags_of(text) == tags_upto(comment_lines(text), comment_lines(text).len()),
{
    if is_block(text) {
        let raw = lines_of(inner_text(text));
        lemma_lines_hold_no_break(inner_text(text));
        lemma_cleaned_lines(raw, raw.len());
        let read = lines_of(normalized(text));
        assert forall|i: int| 0 <= i < raw.len() implies trimmed(#[trigger] read[i]) == trimmed(
            doc_lines(raw)[i],
        ) by {
            lemma_without_cr(doc_line(raw[i]));
        }
        lemma_same_trim(read, doc_lines(raw), raw.len());
    }
}

/// Two comments whose lines are the same, but for white space around them, say
/// the same, whether they are written as blocks or not.
pub proof fn same_lines_say_the_same(a: Seq<char>, b: Seq<char>)
    requires
        comment_lines(a).len() == comment_lines(b).len(),
        forall|i: int|
            0 <= i < comment_lines(a).len() ==> trimmed(#[trigger] comment_lines(a)[i]) == trimmed(
                comment_lines(b)[i],
            ),
    ensures
        natspec(a) == natspec(b),
{
    natspec_reads_cleaned_lines(a);
    natspec_reads_cleaned_lines(b);
    lemma_same_trim(comment_lines(a), comment_lines(b), comment_lines(a).len());
}

proof fn lemma_trim_back_keeps(s: Seq<char>)
    ensures
        trimmed_back(s).len() <= s.len(),
        trimmed_back(s) == s.take(trimmed_back(s).len() as int),
        trimmed_back(s).len() > 0 ==> !is_white(trimmed_back(s).last()),
        s.len() > 0 && !is_white(s[0]) ==> trimmed_back(s).len() > 0,
        trimmed(trimmed_back(s)) == trimmed(s),
    decreases s.len(),
{
    if s.len() > 0 && is_white(s.last()) {
        let front = s.drop_last();
        lemma_trim_back_keeps(front);
        lemma_trimmed_without_last(s);
        let n = trimmed_back(front).len() as int;
        assert(front.take(n) =~= s.take(n));
        if !is_white(s[0]) {
            assert(front[0] == s[0]);
        }
    } else {
        assert(s.take(s.len() as int) =~= s);
    }
}

proof fn lemma_trim_front_stops(s: Seq<char>)
    ensures
        trimmed_front(s).len() > 0 ==> !is_white(trimmed_front(s)[0]),
    decreases s.len(),
{
    if s.len() > 0 && is_white(s[0]) {
        lemma_trim_front_stops(s.skip(1));
    }
}

proof fn lemma_trimmed_twice(s: Seq<char>)
    ensures
        trimmed(trimmed(s)) == trimmed(s),
{
    let t = trimmed(s);
    lemma_trim_front_stops(s);
    lemma_trim_back_keeps(trimmed_front(s));
    if t.len() > 0 {
        assert(t[0] == trimmed_front(s)[0]);
        assert(trimmed_front(t) == t);
    }
}

/// A text says the same with the delimiters of a block around it, unless it is
/// written as a block itself or a line of it begins with `*`.
pub proof fn block_delimiters_say_nothing(text: Seq<char>)
    requires
        !is_block(text),
        forall|i: int|
            0 <= i < lines_of(text).len() ==> !begins(trimmed(#[trigger] lines_of(text)[i]), "*"@),
    ensures
        natspec("/**"@ + text + "*/"@) == natspec(text),
{
    reveal_strlit("/**");
    reveal_strlit("*/");
    reveal_strlit("*");
    reveal_strlit("* ");
    let block = "/**"@ + text + "*/"@;
    assert(block[0] == '/');
    assert(block.last() == '/');
    assert(trimmed(block) == block);
    assert(block.subrange(0, 3) =~= "/**"@);
    let rest = block.skip(3);
    assert(rest.subrange(rest.len() - 2, rest.len() as int) =~= "*/"@);
    assert(rest.take(rest.len() - 2) =~= text);
    let raw = lines_of(text);
    assert(comment_lines(block) == doc_lines(raw));
    assert forall|i: int| 0 <= i < raw.len() implies trimmed(#[trigger] doc_lines(raw)[i])
        == trimmed(raw[i]) by {
        let t = trimmed(raw[i]);
        assert(!begins(t, "*"@));
        if begins(t, "* "@) {
            assert(t.subrange(0, 1) =~= t.subrange(0, 2).subrange(0, 1));
            assert("* "@.subrange(0, 1) =~= "*"@);
        }
        assert(doc_line(raw[i]) == t);
        lemma_trimmed_twice(raw[i]);
    }
    same_lines_say_the_same(block, text);
}

/// The tags behind further lines of a comment.
spec fn behind_lines(tags: Seq<(Seq<char>, Seq<char>)>, raw: Seq<Seq<char>>) -> Seq<
    (Seq<char>, Seq<char>),
>
    decreases raw.len(),
{
    if raw.len() == 0 {
        tags
    } else {
        behind_lines(with_line(tags, raw[0]), raw.skip(1))
    }
}

proof fn lemma_behind_lines_last(tags: Seq<(Seq<char>, Seq<char>)>, raw: Seq<Seq<char>>)
    requires
        raw.len() > 0,
    ensures
        behind_lines(tags, raw) == with_line(behind_lines(tags, raw.drop_last()), raw.last()),
    decreases raw.len(),
{
    let next = with_line(tags, raw[0]);
    if raw.len() == 1 {
        assert(behind_lines(next, raw.skip(1)) == next);
        assert(behind_lines(tags, raw.drop_last()) == tags);
    } else {
        lemma_behind_lines_last(next, raw.skip(1));
        assert(raw.skip(1).drop_last() =~= raw.drop_last().skip(1));
    }
}

proof fn lemma_behind_lines(raw: Seq<Seq<char>>, k: nat)
    requires
        k <= raw.len(),
    ensures
        tags_upto(raw, k) == behind_lines(Seq::empty(), raw.take(k as int)),
    decreases k,
{
    if k > 0 {
        lemma_behind_lines(raw, (k - 1) as nat);
        let front = raw.take(k as int);
        lemma_behind_lines_last(Seq::empty(), front);
        assert(front.drop_last() =~= raw.take(k - 1));
    }
}

proof fn lemma_one_line_text(s: Seq<char>, tags: Seq<(Seq<char>, Seq<char>)>)
    requires
        one_line(s),
    ensures
        behind_lines(tags, lines_of(s)) == with_line(tags, s),
        lines_of(s) == if s.len() == 0 {
            Seq::<Seq<char>>::empty()
        } else {
            seq![s]
        },
{
    lemma_newline_from(s, 0);
    assert(newline_from(s, 0) is None);
    if s.len() > 0 {
        assert(seq![s].skip(1) =~= Seq::empty());
        assert(behind_lines(with_line(tags, s), seq![s].skip(1)) == with_line(tags, s));
    } else {
        assert(trimmed(s).len() == 0);
    }
}

/// The lines of two texts with a line break between them are read one after the
/// other.
proof fn lemma_joined_texts(a: Seq<char>, b: Seq<char>, tags: Seq<(Seq<char>, Seq<char>)>)
    ensures
        behind_lines(tags, lines_of(a.push('\n') + b)) == behind_lines(
            behind_lines(tags, lines_of(a)),
            lines_of(b),
        ),
    decreases a.len(),
{
    let s = a.push('\n') + b;
    lemma_newline_from(s, 0);
    lemma_newline_from(a, 0);
    assert(s[a.len() as int] == '\n');
    let k = newline_from(s, 0)->0;
    assert(lines_of(s) == seq![without_cr(s.take(k))] + lines_of(s.skip(k + 1)));
    assert(lines_of(s).skip(1) =~= lines_of(s.skip(k + 1)));
    match newline_from(a, 0) {
        Some(j) => {
            assert(s[j] == a[j]);
            assert forall|i: int| 0 <= i < j implies #[trigger] s[i] != '\n' by {
                assert(s[i] == a[i]);
            }
            assert(k == j);
            assert(s.take(k) =~= a.take(k));
            let rest = a.skip(k + 1);
            assert(s.skip(k + 1) =~= rest.push('\n') + b);
            assert(lines_of(a).skip(1) =~= lines_of(rest));
            lemma_joined_texts(rest, b, with_line(tags, without_cr(a.take(k))));
        },
        None => {
            assert forall|i: int| 0 <= i < a.len() implies #[trigger] s[i] != '\n' by {
                assert(s[i] == a[i]);
            }
            assert(k == a.len());
            assert(s.take(k) =~= a);
            assert(s.skip(k + 1) =~= b);
            lemma_one_line_text(a, tags);
            lemma_without_cr(a);
            assert(with_line(tags, without_cr(a)) == with_line(tags, a));
        },
    }
}

proof fn lemma_no_tag(lines: Seq<Seq<char>>, k: nat)
    requires
        k <= lines.len(),
        forall|i: int| 0 <= i < lines.len() ==> !begins(trimmed(#[trigger] lines[i]), "@"@),
    ensures
        tags_upto(lines, k).len() == 0,
    decreases k,
{
    if k > 0 {
        lemma_no_tag(lines, (k - 1) as nat);
        assert(!begins(trimmed(lines[k - 1]), "@"@));
    }
}

/// A comment in which no line begins with `@` says nothing.
pub proof fn prose_says_nothing(text: Seq<char>)
    requires
        forall|i: int|
            0 <= i < comment_lines(text).len() ==> !begins(
                trimmed(#[trigger] comment_lines(text)[i]),
                "@"@,
            ),
    ensures
        natspec(text) == no_tags(),
{
    natspec_reads_cleaned_lines(text);
    lemma_no_tag(comment_lines(text), comment_lines(text).len());
}

proof fn lemma_blank_front(p: Seq<char>, t: Seq<char>)
    requires
        trimmed_front(p).len() == 0,
    ensures
        trimmed_front(p + t) == trimmed_front(t),
    decreases p.len(),
{
    if p.len() > 0 {
        assert((p + t).skip(1) =~= p.skip(1) + t);
        lemma_blank_front(p.skip(1), t);
    } else {
        assert(p + t =~= t);
    }
}

proof fn lemma_blank(p: Seq<char>)
    requires
        trimmed(p).len() == 0,
    ensures
        trimmed_front(p).len() == 0,
{
    lemma_trim_front_stops(p);
    lemma_trim_back_keeps(trimmed_front(p));
}

/// Lines before the first tag are ignored: any text says the same with prose
/// before it. Left out is prose before a block, and prose that begins one.
pub proof fn prose_before_a_text_says_nothing(prose: Seq<char>, text: Seq<char>)
    requires
        forall|i: int|
            0 <= i < lines_of(prose).len() ==> !begins(
                trimmed(#[trigger] lines_of(prose)[i]),
                "@"@,
            ),
        trimmed(prose).len() == 0 || (!is_block(text) && !is_block(prose + "\n"@ + text)),
    ensures
        natspec(prose + "\n"@ + text) == natspec(text),
{
    reveal_strlit("\n");
    let all = prose + "\n"@ + text;
    assert(all =~= prose.push('\n') + text);
    if trimmed(prose).len() == 0 {
        lemma_blank(prose);
        assert(all =~= prose + ("\n"@ + text));
        lemma_blank_front(prose, "\n"@ + text);
        assert(("\n"@ + text).skip(1) =~= text);
        assert(trimmed(all) == trimmed(text));
    }
    if !is_block(text) {
        natspec_reads_cleaned_lines(all);
        natspec_reads_cleaned_lines(text);
        let a = lines_of(all);
        let b = lines_of(text);
        let p = lines_of(prose);
        lemma_no_tag(p, p.len());
        lemma_behind_lines(a, a.len());
        lemma_behind_lines(b, b.len());
        lemma_behind_lines(p, p.len());
        assert(a.take(a.len() as int) =~= a);
        assert(b.take(b.len() as int) =~= b);
        assert(p.take(p.len() as int) =~= p);
        lemma_joined_texts(prose, text, Seq::empty());
        assert(tags_upto(p, p.len()) =~= Seq::empty());
    }
}

/// The first `k` lines as a block comment writes them, each behind a `*`.
pub open spec fn starred(lines: Seq<Seq<char>>, k: nat) -> Seq<char>
    decreases k,
{
    if k == 0 {
        Seq::empty()
    } else {
        starred(lines, (k - 1) as nat) + " * "@ + lines[k - 1] + "\n"@
    }
}

/// The lines as a block comment.
pub open spec fn as_block(lines: Seq<Seq<char>>) -> Seq<char> {
    "/**\n"@ + starred(lines, lines.len()) + " */"@
}

proof fn lemma_trim_back_behind(p: Seq<char>, s: Seq<char>)
    ensures
        trimmed_back(p + s) == if trimmed_back(s).len() > 0 {
            p + trimmed_back(s)
        } else {
            trimmed_back(p)
        },
    decreases s.len(),
{
    if s.len() == 0 {
        assert(p + s =~= p);
    } else if is_white(s.last()) {
        assert((p + s).drop_last() =~= p + s.drop_last());
        lemma_trim_back_behind(p, s.drop_last());
    }
}

proof fn lemma_starred_line(line: Seq<char>)
    ensures
        trimmed(doc_line(without_cr(" * "@ + line))) == trimmed(line),
{
    reveal_strlit(" * ");
    reveal_strlit("* ");
    reveal_strlit("*");
    let y = " * "@ + line;
    lemma_without_cr(y);
    assert(y.skip(1) =~= "* "@ + line);
    assert(("* "@ + line)[0] == '*');
    assert(trimmed_front("* "@ + line) == "* "@ + line);
    assert(y[0] == ' ');
    assert(trimmed_front(y) == "* "@ + line);
    lemma_trim_back_behind("* "@, line);
    lemma_trim_back_keeps(line);
    let end = trimmed_back(line);
    if end.len() > 0 {
        let t = "* "@ + end;
        assert(trimmed(y) == t);
        assert(t.subrange(0, 2) =~= "* "@);
        assert(t.skip(2) =~= end);
    } else {
        assert("* "@.drop_last() =~= "*"@);
        assert(trimmed_back("* "@) == trimmed_back("*"@));
        assert(trimmed_back("*"@) == "*"@);
        assert("*"@.subrange(0, 1) =~= "*"@);
        assert("*"@.skip(1) =~= Seq::empty());
        assert(end =~= Seq::empty());
    }
}

proof fn lemma_last_line(a: Seq<char>, line: Seq<char>)
    requires
        a.len() == 0 || a.last() == '\n',
        one_line(line),
        line.len() > 0,
    ensures
        lines_of(a + line) == lines_of(a) + seq![line],
    decreases a.len(),
{
    let s = a + line;
    lemma_newline_from(s, 0);
    lemma_newline_from(a, 0);
    if a.len() == 0 {
        assert(s =~= line);
        assert(a =~= Seq::empty());
        lemma_one_line_text(line, Seq::empty());
        lemma_one_line_text(a, Seq::empty());
        assert(lines_of(a) + seq![line] =~= seq![line]);
    } else {
        assert(a[a.len() - 1] == '\n');
        let j = newline_from(a, 0)->0;
        assert(s[j] == a[j]);
        assert forall|i: int| 0 <= i < j implies #[trigger] s[i] != '\n' by {
            assert(s[i] == a[i]);
        }
        assert(newline_from(s, 0) == Some(j));
        assert(s.take(j) =~= a.take(j));
        let rest = a.skip(j + 1);
        if rest.len() > 0 {
            assert(rest.last() == a.last());
        }
        lemma_last_line(rest, line);
        assert(s.skip(j + 1) =~= rest + line);
        assert(lines_of(s) =~= lines_of(a) + seq![line]);
    }
}

/// Whether no line holds a line break.
pub open spec fn hold_no_break(lines: Seq<Seq<char>>) -> bool {
    forall|i: int, j: int|
        0 <= i < lines.len() && 0 <= j < lines[i].len() ==> #[trigger] lines[i][j] != '\n'
}

proof fn lemma_starred(lines: Seq<Seq<char>>, k: nat)
    requires
        k <= lines.len(),
        hold_no_break(lines),
    ensures
        ({
            let text = seq!['\n'] + starred(lines, k);
            &&& text.last() == '\n'
            &&& lines_of(text).len() == k + 1
            &&& lines_of(text)[0] == Seq::<char>::empty()
            &&& forall|i: int|
                0 <= i < k ==> #[trigger] lines_of(text)[i + 1] == without_cr(" * "@ + lines[i])
        }),
    decreases k,
{
    let text = seq!['\n'] + starred(lines, k);
    if k == 0 {
        let empty = Seq::<char>::empty();
        lemma_one_more_line(empty, empty);
        lemma_one_line_text(empty, Seq::empty());
        assert(text =~= (empty + empty).push('\n'));
    } else {
        reveal_strlit(" * ");
        reveal_strlit("\n");
        lemma_starred(lines, (k - 1) as nat);
        let before = seq!['\n'] + starred(lines, (k - 1) as nat);
        let line = " * "@ + lines[k - 1];
        assert(one_line(line)) by {
            assert forall|i: int| 0 <= i < line.len() implies #[trigger] line[i] != '\n' by {
                if i >= 3 {
                    assert(line[i] == lines[k - 1][i - 3]);
                }
            }
        }
        lemma_one_more_line(before, line);
        assert(text =~= (before + line).push('\n'));
        assert forall|i: int| 0 <= i < k implies #[trigger] lines_of(text)[i + 1] == without_cr(
            " * "@ + lines[i],
        ) by {
            if i < k - 1 {
                assert(lines_of(text)[i + 1] == lines_of(before)[i + 1]);
            }
        }
    }
}

proof fn lemma_shifted(a: Seq<Seq<char>>, b: Seq<Seq<char>>, k: nat)
    requires
        k + 1 <= a.len(),
        k <= b.len(),
        trimmed(a[0]).len() == 0,
        forall|i: int| 0 <= i < k ==> trimmed(a[i + 1]) == trimmed(#[trigger] b[i]),
    ensures
        tags_upto(a, k + 1) == tags_upto(b, k),
    decreases k,
{
    if k > 0 {
        lemma_shifted(a, b, (k - 1) as nat);
        assert(trimmed(a[k as int]) == trimmed(b[k - 1]));
    } else {
        assert(tags_upto(a, 0) == Seq::<(Seq<char>, Seq<char>)>::empty());
        assert(tags_upto(a, 1) == with_line(tags_upto(a, 0), a[0]));
    }
}

proof fn lemma_plain_lines(lines: Seq<Seq<char>>)
    requires
        hold_no_break(lines),
    ensures
        behind_lines(Seq::empty(), lines_of(joined(lines, "\n"@))) == tags_upto(
            lines,
            lines.len(),
        ),
    decreases lines.len(),
{
    let none = Seq::<(Seq<char>, Seq<char>)>::empty();
    if lines.len() == 0 {
        lemma_one_line_text(Seq::empty(), none);
        assert(trimmed(Seq::<char>::empty()).len() == 0);
    } else {
        let last = lines.last();
        let front = lines.drop_last();
        assert(one_line(last)) by {
            assert forall|j: int| 0 <= j < last.len() implies #[trigger] last[j] != '\n' by {
                assert(lines[lines.len() - 1][j] == last[j]);
            }
        }
        assert(hold_no_break(front)) by {
            assert forall|i: int, j: int|
                0 <= i < front.len() && 0 <= j < front[i].len() implies #[trigger] front[i][j]
                != '\n' by {
                assert(lines[i][j] == front[i][j]);
            }
        }
        lemma_plain_lines(front);
        assert(tags_upto(front, front.len()) == tags_upto(lines, front.len())) by {
            lemma_same_trim(front, lines, front.len());
        }
        if lines.len() == 1 {
            assert(front.len() == 0);
            lemma_one_line_text(last, none);
            assert(tags_upto(lines, 0) == none);
        } else {
            reveal_strlit("\n");
            let before = joined(front, "\n"@);
            assert(joined(lines, "\n"@) =~= before.push('\n') + last);
            lemma_joined_texts(before, last, none);
            lemma_one_line_text(last, tags_upto(front, front.len()));
        }
    }
}

/// A block and the bare lines of a comment say the same: what lines say does
/// not depend on whether they are written behind `*` in a block or one by one.
/// Left out are lines that are a block themselves.
pub proof fn blocks_and_lines_say_the_same(lines: Seq<Seq<char>>)
    requires
        hold_no_break(lines),
        !is_block(joined(lines, "\n"@)),
    ensures
        natspec(as_block(lines)) == natspec(joined(lines, "\n"@)),
{
    reveal_strlit("/**\n");
    reveal_strlit("/**");
    reveal_strlit("*/");
    reveal_strlit(" */");
    let n = lines.len();
    let block = as_block(lines);
    let plain = joined(lines, "\n"@);
    let text = seq!['\n'] + starred(lines, n);
    let inner = text + seq![' '];
    assert(block =~= "/**"@ + inner + "*/"@);
    assert(block[0] == '/');
    assert(block.last() == '/');
    assert(trimmed(block) == block);
    assert(block.subrange(0, 3) =~= "/**"@);
    let rest = block.skip(3);
    assert(rest.subrange(rest.len() - 2, rest.len() as int) =~= "*/"@);
    assert(rest.take(rest.len() - 2) =~= inner);
    assert(inner_text(block) == inner);
    lemma_starred(lines, n);
    lemma_last_line(text, seq![' ']);
    let raw = lines_of(inner);
    let read = doc_lines(raw);
    assert(raw == lines_of(text) + seq![seq![' ']]);
    assert(raw.len() == n + 2);
    assert(trimmed(read[0]).len() == 0) by {
        assert(raw[0] == Seq::<char>::empty());
        lemma_blank_doc_line(raw[0]);
    }
    assert(trimmed(read[n as int + 1]).len() == 0) by {
        assert(raw[n as int + 1] == seq![' ']);
        assert(seq![' '].skip(1) =~= Seq::empty());
        assert(trimmed(raw[n as int + 1]).len() == 0);
        lemma_blank_doc_line(raw[n as int + 1]);
    }
    assert forall|i: int| 0 <= i < n implies trimmed(read[i + 1]) == trimmed(
        #[trigger] lines[i],
    ) by {
        assert(raw[i + 1] == lines_of(text)[i + 1]);
        lemma_starred_line(lines[i]);
    }
    lemma_shifted(read, lines, n);
    assert(tags_upto(read, n + 2) == with_line(tags_upto(read, n + 1), read[n as int + 1]));
    natspec_reads_cleaned_lines(block);
    natspec_reads_cleaned_lines(plain);
    lemma_plain_lines(lines);
    let p = lines_of(plain);
    lemma_behind_lines(p, p.len());
    assert(p.take(p.len() as int) =~= p);
}

proof fn lemma_blank_doc_line(s: Seq<char>)
    requires
        trimmed(s).len() == 0,
    ensures
        trimmed(doc_line(s)).len() == 0,
{
    reveal_strlit("* ");
    reveal_strlit("*");
    assert(doc_line(s).len() == 0);
}

} // verus!
