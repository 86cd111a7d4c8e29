//! NatSpec: the tags in the doc comments of Solidity.

use vstd::prelude::*;
use vstd::string::StrSliceExecFns;

use crate::docs::{clean_doc_line, doc_line};
use crate::lists::{copy_strings, emit, group_lists, none, one};
use crate::text::{
    ahead, begins, behind, behind_or_all, chars_of, concat3, find_white, lines, lines_of, own,
    split_whitespace, strip_prefix, strip_suffix, trim, trimmed, white_from, words,
};
use crate::tree::same;

verus! {

broadcast use group_lists;

/// What `@param name text` says.
#[derive(Clone, Debug, PartialEq, Eq)]
pub struct NatSpecParam {
    /// Name of the parameter.
    pub name: String,
    /// Description of the parameter.
    pub text: String,
}

/// What `@return name text` or `@return text` says.
#[derive(Clone, Debug, PartialEq, Eq)]
pub struct NatSpecReturn {
    /// Name of the returned value, where there is one.
    pub name: Option<String>,
    /// Description of the returned value.
    pub text: String,
}

/// The tags of a doc comment.
#[derive(Clone, Debug, PartialEq, Eq)]
pub struct NatSpecDoc {
    /// `@title`
    pub title: Option<String>,
    /// `@author`
    pub author: Option<String>,
    /// `@notice`
    pub notice: Option<String>,
    /// `@dev`
    pub dev: Option<String>,
    /// The `@param` tags, in order.
    pub params: Vec<NatSpecParam>,
    /// The `@return` tags, in order.
    pub returns: Vec<NatSpecReturn>,
    /// The contract that `@inheritdoc` names.
    pub inheritdoc: Option<String>,
    /// The `@custom:key` tags: each key with its texts, in order.
    pub custom_tags: Vec<(String, Vec<String>)>,
}

/// What a [`NatSpecDoc`] says.
pub struct NatSpec {
    pub title: Option<Seq<char>>,
    pub author: Option<Seq<char>>,
    pub notice: Option<Seq<char>>,
    pub dev: Option<Seq<char>>,
    pub params: Seq<(Seq<char>, Seq<char>)>,
    pub returns: Seq<(Option<Seq<char>>, Seq<char>)>,
    pub inheritdoc: Option<Seq<char>>,
    pub custom_tags: Seq<(Seq<char>, Seq<Seq<char>>)>,
}

impl DeepView for NatSpecParam {
    type V = (Seq<char>, Seq<char>);

    open spec fn deep_view(&self) -> (Seq<char>, Seq<char>) {
        (self.name@, self.text@)
    }
}

impl DeepView for NatSpecReturn {
    type V = (Option<Seq<char>>, Seq<char>);

    open spec fn deep_view(&self) -> (Option<Seq<char>>, Seq<char>) {
        (self.name.deep_view(), self.text@)
    }
}

impl DeepView for NatSpecDoc {
    type V = NatSpec;

    open spec fn deep_view(&self) -> NatSpec {
        NatSpec {
            title: self.title.deep_view(),
            author: self.author.deep_view(),
            notice: self.notice.deep_view(),
            dev: self.dev.deep_view(),
            params: self.params.deep_view(),
            returns: self.returns.deep_view(),
            inheritdoc: self.inheritdoc.deep_view(),
            custom_tags: self.custom_tags.deep_view(),
        }
    }
}

/// A doc comment without tags.
pub open spec fn no_tags() -> NatSpec {
    NatSpec {
        title: None,
        author: None,
        notice: None,
        dev: None,
        params: Seq::empty(),
        returns: Seq::empty(),
        inheritdoc: None,
        custom_tags: Seq::empty(),
    }
}

impl Default for NatSpecDoc {
    fn default() -> (res: NatSpecDoc)
        ensures
            res.deep_view() == no_tags(),
    {
        NatSpecDoc {
            title: None,
            author: None,
            notice: None,
            dev: None,
            params: none(),
            returns: none(),
            inheritdoc: None,
            custom_tags: none(),
        }
    }
}

/// Whether a word can be the name of a returned value: it begins with an ASCII
/// lower case letter or `_`, and only ASCII letters, digits and `_` follow.
pub open spec fn is_return_name(s: Seq<char>) -> bool {
    &&& s.len() > 0
    &&& 'a' <= s[0] <= 'z' || s[0] == '_'
    &&& forall|i: int|
        0 <= i < s.len() ==> ('a' <= #[trigger] s[i] <= 'z' || 'A' <= s[i] <= 'Z' || '0' <= s[i]
            <= '9' || s[i] == '_')
}

/// Whether a word can be the name of a returned value.
pub fn is_natspec_identifier(s: &str) -> (res: bool)
    ensures
        res == is_return_name(s@),
{
    let cs: Vec<char> = chars_of(s);
    if cs.len() == 0 {
        return false;
    }
    let first: char = cs[0];
    if !(('a' <= first && first <= 'z') || first == '_') {
        return false;
    }
    let mut i: usize = 0;
    while i < cs.len()
        invariant
            i <= cs.len(),
            cs@ == s@,
            forall|k: int|
                0 <= k < i ==> ('a' <= #[trigger] s@[k] <= 'z' || 'A' <= s@[k] <= 'Z' || '0'
                    <= s@[k] <= '9' || s@[k] == '_'),
        decreases cs.len() - i,
    {
        let c: char = cs[i];
        if !(('a' <= c && c <= 'z') || ('A' <= c && c <= 'Z') || ('0' <= c && c <= '9') || c
            == '_') {
            assert(s@[i as int] == c);
            return false;
        }
        i += 1;
    }
    true
}

/// The first `k` lines, each cleaned and ended with a newline.
pub open spec fn cleaned_lines(raw: Seq<Seq<char>>, k: nat) -> Seq<char>
    decreases k,
{
    if k == 0 {
        Seq::empty()
    } else {
        (cleaned_lines(raw, (k - 1) as nat) + doc_line(raw[k - 1])).push('\n')
    }
}

/// Whether a text is written as a block comment.
pub open spec fn is_block(text: Seq<char>) -> bool {
    begins(trimmed(text), "/**"@)
}

/// What stands between the delimiters of a block comment.
pub open spec fn inner_text(text: Seq<char>) -> Seq<char> {
    let rest = behind_or_all(trimmed(text), "/**"@);
    match ahead(rest, "*/"@) {
        Some(inner) => inner,
        None => rest,
    }
}

/// The text of a block comment, without its delimiters and the `*` at the front
/// of its lines. Any other text is kept as it is.
pub open spec fn normalized(text: Seq<char>) -> Seq<char> {
    if is_block(text) {
        let raw = lines_of(inner_text(text));
        cleaned_lines(raw, raw.len())
    } else {
        text
    }
}

/// The text of a block comment, without its delimiters and the `*` at the front
/// of its lines. Any other text is kept as it is.
pub fn normalize_natspec_text(text: &str) -> (res: String)
    ensures
        res@ == normalized(text@),
{
    let rest: &str = match strip_prefix(trim(text), "/**") {
        Some(rest) => rest,
        None => return own(text),
    };
    let inner: &str = match strip_suffix(rest, "*/") {
        Some(inner) => inner,
        None => rest,
    };
    let raw = lines(inner);
    let ghost all = raw.deep_view();
    let mut out = String::new();
    let mut i: usize = 0;
    while i < raw.len()
        invariant
            i <= raw.len(),
            all == raw.deep_view(),
            out@ == cleaned_lines(all, i as nat),
        decreases raw.len() - i,
    {
        assert(all[i as int] == raw@[i as int]@);
        let line = clean_doc_line(raw[i].as_str());
        out.append(line.as_str());
        out.append("\n");
        proof {
            reveal_strlit("\n");
            assert(out@ =~= cleaned_lines(all, (i + 1) as nat));
        }
        i += 1;
    }
    out
}

/// The first word of a text, and what follows it.
pub open spec fn split_word(s: Seq<char>) -> (Seq<char>, Seq<char>) {
    match white_from(s, 0) {
        Some(k) => (s.take(k), trimmed(s.skip(k + 1))),
        None => (s, Seq::empty()),
    }
}

fn split_first_word(s: &str) -> (res: (String, String))
    ensures
        res.deep_view() == split_word(s@),
{
    match find_white(s) {
        Some(k) => {
            let n: usize = s.unicode_len();
            let rest: &str = s.substring_char(k + 1, n);
            assert(rest@ =~= s@.skip(k + 1));
            (own(s.substring_char(0, k)), own(trim(rest)))
        },
        None => (own(s), String::new()),
    }
}

/// A text with a line added to it.
pub open spec fn continued(body: Seq<char>, line: Seq<char>) -> Seq<char> {
    if body.len() == 0 {
        line
    } else {
        body + " "@ + line
    }
}

/// The tags with one more line: a line with `@` begins a tag, and any other
/// line that is not empty goes on with the last tag.
pub open spec fn with_line(tags: Seq<(Seq<char>, Seq<char>)>, raw: Seq<char>) -> Seq<
    (Seq<char>, Seq<char>),
> {
    let line = trimmed(raw);
    if line.len() == 0 {
        tags
    } else {
        match behind(line, "@"@) {
            Some(rest) => tags + seq![split_word(rest)],
            None => if tags.len() == 0 {
                tags
            } else {
                tags.update(
                    tags.len() - 1,
                    (tags.last().0, continued(tags.last().1, line)),
                )
            },
        }
    }
}

/// The tags of the first `k` lines, each with its text.
pub open spec fn tags_upto(raw: Seq<Seq<char>>, k: nat) -> Seq<(Seq<char>, Seq<char>)>
    decreases k,
{
    if k == 0 {
        Seq::empty()
    } else {
        with_line(tags_upto(raw, (k - 1) as nat), raw[k - 1])
    }
}

/// The tags of a comment, each with its text.
pub open spec fn tags_of(text: Seq<char>) -> Seq<(Seq<char>, Seq<char>)> {
    let raw = lines_of(normalized(text));
    tags_upto(raw, raw.len())
}

fn add_line(tags: &mut Vec<(String, String)>, raw: &str)
    ensures
        final(tags).deep_view() == with_line(old(tags).deep_view(), raw@),
{
    let line: &str = trim(raw);
    if line.is_empty() {
        return;
    }
    let ghost before = tags.deep_view();
    match strip_prefix(line, "@") {
        Some(rest) => emit(tags, split_first_word(rest)),
        None => {
            match tags.pop() {
                Some((tag, body)) => {
                    assert(tags.deep_view() =~= before.drop_last());
                    let longer = if body.as_str().is_empty() {
                        own(line)
                    } else {
                        concat3(body.as_str(), " ", line)
                    };
                    tags.push((tag, longer));
                    assert(before.last() == (tag@, body@));
                    assert(tags.deep_view() =~= with_line(before, raw@));
                },
                None => {},
            }
        },
    }
}

fn collect_tags(text: &str) -> (res: Vec<(String, String)>)
    ensures
        res.deep_view() == tags_of(text@),
{
    let normal = normalize_natspec_text(text);
    let raw = lines(normal.as_str());
    let ghost all = raw.deep_view();
    let mut tags: Vec<(String, String)> = none();
    let mut i: usize = 0;
    while i < raw.len()
        invariant
            i <= raw.len(),
            all == raw.deep_view(),
            tags.deep_view() == tags_upto(all, i as nat),
        decreases raw.len() - i,
    {
        assert(all[i as int] == raw@[i as int]@);
        add_line(&mut tags, raw[i].as_str());
        i += 1;
    }
    tags
}

/// The first of the custom tags at or behind position `i` with the given key.
pub open spec fn key_from(tags: Seq<(Seq<char>, Seq<Seq<char>>)>, key: Seq<char>, i: int) -> Option<
    int,
>
    decreases tags.len() - i,
{
    if i < 0 || i >= tags.len() {
        None
    } else if tags[i].0 == key {
        Some(i)
    } else {
        key_from(tags, key, i + 1)
    }
}

/// The custom tags with one more text under a key.
pub open spec fn with_custom(
    tags: Seq<(Seq<char>, Seq<Seq<char>>)>,
    key: Seq<char>,
    text: Seq<char>,
) -> Seq<(Seq<char>, Seq<Seq<char>>)> {
    match key_from(tags, key, 0) {
        Some(k) => tags.update(k, (tags[k].0, tags[k].1 + seq![text])),
        None => tags + seq![(key, seq![text])],
    }
}

fn find_key(tags: &Vec<(String, Vec<String>)>, key: &str) -> (res: Option<usize>)
    ensures
        res matches Some(k) ==> key_from(tags.deep_view(), key@, 0) == Some(k as int) && k
            < tags@.len(),
        res is None ==> key_from(tags.deep_view(), key@, 0) is None,
{
    let ghost all = tags.deep_view();
    let mut i: usize = 0;
    while i < tags.len()
        invariant
            i <= tags.len(),
            all == tags.deep_view(),
            key_from(all, key@, 0) == key_from(all, key@, i as int),
        decreases tags.len() - i,
    {
        assert(all[i as int] == tags@[i as int].deep_view());
        if same(tags[i].0.as_str(), key) {
            return Some(i);
        }
        i += 1;
    }
    None
}

fn add_custom(tags: &mut Vec<(String, Vec<String>)>, key: &str, text: String)
    ensures
        final(tags).deep_view() == with_custom(old(tags).deep_view(), key@, text@),
{
    let ghost before = tags.deep_view();
    match find_key(tags, key) {
        Some(k) => {
            assert(before[k as int] == tags@[k as int].deep_view());
            emit(&mut tags[k].1, text);
            assert(tags@[k as int].deep_view() == (
                before[k as int].0,
                before[k as int].1 + seq![text@],
            ));
            assert(tags.deep_view() =~= with_custom(before, key@, text@));
        },
        None => {
            let entry: (String, Vec<String>) = (own(key), one(text));
            assert(entry.deep_view() == (key@, seq![text@]));
            emit(tags, entry);
        },
    }
}

/// The first text, where there is none before.
pub open spec fn first_wins(a: Option<Seq<char>>, b: Seq<char>) -> Option<Seq<char>> {
    match a {
        Some(text) => Some(text),
        None => Some(b),
    }
}

fn keep_first(a: Option<String>, b: String) -> (res: Option<String>)
    ensures
        res.deep_view() == first_wins(a.deep_view(), b@),
{
    match a {
        Some(text) => Some(text),
        None => Some(b),
    }
}

/// What `@return` says: the first word is a name where it has the shape of one
/// and more text follows.
pub open spec fn return_tag(body: Seq<char>) -> (Option<Seq<char>>, Seq<char>) {
    let (name, rest) = split_word(body);
    if is_return_name(name) && rest.len() > 0 {
        (Some(name), rest)
    } else {
        (None, body)
    }
}

fn parse_return_tag(body: String) -> (res: NatSpecReturn)
    ensures
        res.deep_view() == return_tag(body@),
{
    let parts = split_first_word(body.as_str());
    assert(parts.deep_view() == (parts.0@, parts.1@));
    let (name, rest) = parts;
    if is_natspec_identifier(name.as_str()) && !rest.as_str().is_empty() {
        NatSpecReturn { name: Some(name), text: rest }
    } else {
        NatSpecReturn { name: None, text: body }
    }
}

/// The doc with one more tag. Of title, author, notice, dev and inheritdoc the
/// first counts. Tags that are not known say nothing.
pub open spec fn with_tag(doc: NatSpec, tag: Seq<char>, body: Seq<char>) -> NatSpec {
    if tag == "title"@ {
        NatSpec { title: first_wins(doc.title, body), ..doc }
    } else if tag == "author"@ {
        NatSpec { author: first_wins(doc.author, body), ..doc }
    } else if tag == "notice"@ {
        NatSpec { notice: first_wins(doc.notice, body), ..doc }
    } else if tag == "dev"@ {
        NatSpec { dev: first_wins(doc.dev, body), ..doc }
    } else if tag == "param"@ {
        if split_word(body).0.len() > 0 {
            NatSpec { params: doc.params + seq![split_word(body)], ..doc }
        } else {
            doc
        }
    } else if tag == "return"@ {
        NatSpec { returns: doc.returns + seq![return_tag(body)], ..doc }
    } else if tag == "inheritdoc"@ {
        if words(body).len() > 0 {
            NatSpec { inheritdoc: first_wins(doc.inheritdoc, words(body)[0]), ..doc }
        } else {
            doc
        }
    } else {
        match behind(tag, "custom:"@) {
            Some(key) if key.len() > 0 => NatSpec {
                custom_tags: with_custom(doc.custom_tags, key, body),
                ..doc
            },
            _ => doc,
        }
    }
}

fn add_tag(doc: NatSpecDoc, tag: &str, body: String) -> (res: NatSpecDoc)
    ensures
        res.deep_view() == with_tag(doc.deep_view(), tag@, body@),
{
    let mut doc = doc;
    if same(tag, "title") {
        doc.title = keep_first(doc.title, body);
    } else if same(tag, "author") {
        doc.author = keep_first(doc.author, body);
    } else if same(tag, "notice") {
        doc.notice = keep_first(doc.notice, body);
    } else if same(tag, "dev") {
        doc.dev = keep_first(doc.dev, body);
    } else if same(tag, "param") {
        let parts = split_first_word(body.as_str());
        assert(parts.deep_view() == (parts.0@, parts.1@));
        let (name, text) = parts;
        if !name.as_str().is_empty() {
            emit(&mut doc.params, NatSpecParam { name, text });
        }
    } else if same(tag, "return") {
        emit(&mut doc.returns, parse_return_tag(body));
    } else if same(tag, "inheritdoc") {
        let targets = split_whitespace(body.as_str());
        if targets.len() > 0 {
            assert(targets.deep_view()[0] == targets@[0]@);
            doc.inheritdoc = keep_first(doc.inheritdoc, targets[0].clone());
        }
    } else {
        match strip_prefix(tag, "custom:") {
            Some(key) => {
                if !key.is_empty() {
                    add_custom(&mut doc.custom_tags, key, body);
                }
            },
            None => {},
        }
    }
    doc
}

/// What the first `k` tags say.
pub open spec fn doc_of(tags: Seq<(Seq<char>, Seq<char>)>, k: nat) -> NatSpec
    decreases k,
{
    if k == 0 {
        no_tags()
    } else {
        with_tag(doc_of(tags, (k - 1) as nat), tags[k - 1].0, tags[k - 1].1)
    }
}

/// What the tags of a comment say.
pub open spec fn natspec(text: Seq<char>) -> NatSpec {
    doc_of(tags_of(text), tags_of(text).len())
}

/// Reads the tags of a comment: a `/** .. */` block, or lines without their
/// `///`. A line with `@` begins a tag, other lines go on with the last one.
pub fn parse_solidity_natspec(text: &str) -> (res: NatSpecDoc)
    ensures
        res.deep_view() == natspec(text@),
{
    let tags = collect_tags(text);
    let ghost all = tags.deep_view();
    let mut doc = NatSpecDoc::default();
    let mut i: usize = 0;
    while i < tags.len()
        invariant
            i <= tags.len(),
            all == tags.deep_view(),
            doc.deep_view() == doc_of(all, i as nat),
        decreases tags.len() - i,
    {
        assert(all[i as int] == tags@[i as int].deep_view());
        assert(all[i as int] == (tags@[i as int].0@, tags@[i as int].1@));
        doc = add_tag(doc, tags[i].0.as_str(), tags[i].1.clone());
        i += 1;
    }
    doc
}

impl NatSpecDoc {
    /// The texts of the custom tags with the given key.
    pub fn custom_tag(&self, key: &str) -> (res: Vec<String>)
        ensures
            res.deep_view() == custom_texts(self.deep_view(), key@),
    {
        match find_key(&self.custom_tags, key) {
            Some(k) => {
                assert(self.custom_tags.deep_view()[k as int] == self.custom_tags@[k as int].deep_view());
                copy_strings(&self.custom_tags[k].1)
            },
            None => none(),
        }
    }
}

/// The texts of the custom tags with the given key.
pub open spec fn custom_texts(doc: NatSpec, key: Seq<char>) -> Seq<Seq<char>> {
    match key_from(doc.custom_tags, key, 0) {
        Some(k) => doc.custom_tags[k].1,
        None => Seq::empty(),
    }
}

} // verus!
