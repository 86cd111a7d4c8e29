//! Operations on strings, described over sequences of characters.

use vstd::prelude::*;
use vstd::string::StrSliceExecFns;

verus! {

/// The characters with Unicode's `White_Space` property.
pub open spec fn is_white(c: char) -> bool {
    let u = c as u32;
    ||| 0x09 <= u <= 0x0d
    ||| u == 0x20
    ||| u == 0x85
    ||| u == 0xa0
    ||| u == 0x1680
    ||| 0x2000 <= u <= 0x200a
    ||| u == 0x2028
    ||| u == 0x2029
    ||| u == 0x202f
    ||| u == 0x205f
    ||| u == 0x3000
}

/// `char::is_whitespace`: whether the character has Unicode's `White_Space`
/// property.
pub assume_specification[ char::is_whitespace ](c: char) -> (res: bool)
    ensures
        res == is_white(c),
;

/// Whether a character is one of ASCII.
pub open spec fn is_ascii(c: char) -> bool {
    (c as u32) < 0x80
}

/// Whether Unicode gives the character the `Uppercase` property.
pub uninterp spec fn is_upper(c: char) -> bool;

/// `char::is_uppercase`: whether the character has Unicode's `Uppercase`
/// property. In ASCII the letters from `A` to `Z` have it.
pub assume_specification[ char::is_uppercase ](c: char) -> (res: bool)
    ensures
        res == is_upper(c),
        is_ascii(c) ==> res == ('A' <= c <= 'Z'),
;

/// Whether a character is an upper case letter.
pub open spec fn upper(c: char) -> bool {
    if is_ascii(c) {
        'A' <= c <= 'Z'
    } else {
        is_upper(c)
    }
}

/// Whether Unicode gives the character the `Alphabetic` property.
pub uninterp spec fn is_letter(c: char) -> bool;

/// `char::is_alphabetic`: whether the character has Unicode's `Alphabetic`
/// property. In ASCII the letters from `A` to `Z` and from `a` to `z` have it.
pub assume_specification[ char::is_alphabetic ](c: char) -> (res: bool)
    ensures
        res == is_letter(c),
        is_ascii(c) ==> res == ('A' <= c <= 'Z' || 'a' <= c <= 'z'),
;

/// Whether a character is a letter.
pub open spec fn letter(c: char) -> bool {
    if is_ascii(c) {
        'A' <= c <= 'Z' || 'a' <= c <= 'z'
    } else {
        is_letter(c)
    }
}

/// The lowercase form of a text.
pub uninterp spec fn lowercased(s: Seq<char>) -> Seq<char>;

/// Whether all characters of a text are of ASCII.
pub open spec fn all_ascii(s: Seq<char>) -> bool {
    forall|i: int| 0 <= i < s.len() ==> is_ascii(#[trigger] s[i])
}

/// The text with the letters from `A` to `Z` turned into those from `a` to `z`.
pub open spec fn ascii_lowered(s: Seq<char>) -> Seq<char> {
    Seq::new(
        s.len(),
        |i: int|
            if 'A' <= s[i] <= 'Z' {
                (s[i] as u32 + 32) as char
            } else {
                s[i]
            },
    )
}

/// `str::to_lowercase`: the lowercase form of the text, by Unicode's
/// `Lowercase` mapping. In ASCII it turns the letters from `A` to `Z` into
/// those from `a` to `z`, and keeps all else.
#[verifier::external_body]
pub(crate) fn to_lowercase(s: &str) -> (res: String)
    ensures
        res@ == lowercased(s@),
        all_ascii(s@) ==> res@ == ascii_lowered(s@),
{
    s.to_lowercase()
}

/// The lowercase form of a text.
pub open spec fn lower(s: Seq<char>) -> Seq<char> {
    if all_ascii(s) {
        ascii_lowered(s)
    } else {
        lowercased(s)
    }
}

/// The characters of a text, as a list.
pub fn chars_of(s: &str) -> (res: Vec<char>)
    ensures
        res@ == s@,
{
    let mut res: Vec<char> = Vec::new();
    for c in it: s.chars()
        invariant
            it.seq() == s@,
            res@ == s@.take(it.index()),
    {
        res.push(c);
        assert(res@ =~= s@.take(it.index() + 1));
    }
    assert(res@ =~= s@);
    res
}

/// A string of its own with the same characters.
pub fn own(s: &str) -> (res: String)
    ensures
        res@ == s@,
{
    s.to_owned()
}

/// The text, behind the characters at its front that are white space.
pub open spec fn trimmed_front(s: Seq<char>) -> Seq<char>
    decreases s.len(),
{
    if s.len() > 0 && is_white(s[0]) {
        trimmed_front(s.skip(1))
    } else {
        s
    }
}

/// The text, before the characters at its end that are white space.
pub open spec fn trimmed_back(s: Seq<char>) -> Seq<char>
    decreases s.len(),
{
    if s.len() > 0 && is_white(s.last()) {
        trimmed_back(s.drop_last())
    } else {
        s
    }
}

/// The text without the white space around it.
pub open spec fn trimmed(s: Seq<char>) -> Seq<char> {
    trimmed_back(trimmed_front(s))
}

/// The text without the white space at its front.
pub fn trim_start<'a>(s: &'a str) -> (res: &'a str)
    ensures
        res@ == trimmed_front(s@),
{
    let cs: Vec<char> = chars_of(s);
    let n: usize = cs.len();
    let mut i: usize = 0;
    assert(cs@.subrange(0, n as int) =~= cs@);
    while i < n && cs[i].is_whitespace()
        invariant
            i <= n,
            n == cs.len(),
            trimmed_front(cs@) == trimmed_front(cs@.subrange(i as int, n as int)),
        decreases n - i,
    {
        assert(cs@.subrange(i as int, n as int).skip(1) =~= cs@.subrange(i + 1, n as int));
        i += 1;
    }
    s.substring_char(i, n)
}

/// The text without the white space at its end.
pub fn trim_end<'a>(s: &'a str) -> (res: &'a str)
    ensures
        res@ == trimmed_back(s@),
{
    let cs: Vec<char> = chars_of(s);
    let mut j: usize = cs.len();
    assert(cs@.subrange(0, j as int) =~= cs@);
    while j > 0 && cs[j - 1].is_whitespace()
        invariant
            j <= cs.len(),
            trimmed_back(cs@) == trimmed_back(cs@.subrange(0, j as int)),
        decreases j,
    {
        assert(cs@.subrange(0, j as int).drop_last() =~= cs@.subrange(0, j - 1));
        j -= 1;
    }
    s.substring_char(0, j)
}

/// The text without the white space around it.
pub fn trim<'a>(s: &'a str) -> (res: &'a str)
    ensures
        res@ == trimmed(s@),
{
    trim_end(trim_start(s))
}

/// The text, behind the characters at its front that are in `set`.
pub open spec fn stripped_front(s: Seq<char>, set: Seq<char>) -> Seq<char>
    decreases s.len(),
{
    if s.len() > 0 && set.contains(s[0]) {
        stripped_front(s.skip(1), set)
    } else {
        s
    }
}

/// The text, before the characters at its end that are in `set`.
pub open spec fn stripped_back(s: Seq<char>, set: Seq<char>) -> Seq<char>
    decreases s.len(),
{
    if s.len() > 0 && set.contains(s.last()) {
        stripped_back(s.drop_last(), set)
    } else {
        s
    }
}

/// The text without the characters of `set` around it.
pub open spec fn stripped(s: Seq<char>, set: Seq<char>) -> Seq<char> {
    stripped_back(stripped_front(s, set), set)
}

/// Whether a character is among those of a list.
pub fn among(set: &Vec<char>, c: char) -> (res: bool)
    ensures
        res == set@.contains(c),
{
    let mut i: usize = 0;
    while i < set.len()
        invariant
            i <= set.len(),
            forall|k: int| 0 <= k < i ==> set@[k] != c,
        decreases set.len() - i,
    {
        if set[i] == c {
            return true;
        }
        i += 1;
    }
    false
}

/// The text without the characters of `set` at its front.
pub fn strip_front<'a>(s: &'a str, set: &str) -> (res: &'a str)
    ensures
        res@ == stripped_front(s@, set@),
{
    let cs: Vec<char> = chars_of(s);
    let out: Vec<char> = chars_of(set);
    let n: usize = cs.len();
    let mut i: usize = 0;
    assert(cs@.subrange(0, n as int) =~= cs@);
    while i < n && among(&out, cs[i])
        invariant
            i <= n,
            n == cs.len(),
            stripped_front(cs@, out@) == stripped_front(cs@.subrange(i as int, n as int), out@),
        decreases n - i,
    {
        assert(cs@.subrange(i as int, n as int).skip(1) =~= cs@.subrange(i + 1, n as int));
        i += 1;
    }
    s.substring_char(i, n)
}

/// The text without the characters of `set` at its end.
pub fn strip_back<'a>(s: &'a str, set: &str) -> (res: &'a str)
    ensures
        res@ == stripped_back(s@, set@),
{
    let cs: Vec<char> = chars_of(s);
    let out: Vec<char> = chars_of(set);
    let mut j: usize = cs.len();
    assert(cs@.subrange(0, j as int) =~= cs@);
    while j > 0 && among(&out, cs[j - 1])
        invariant
            j <= cs.len(),
            stripped_back(cs@, out@) == stripped_back(cs@.subrange(0, j as int), out@),
        decreases j,
    {
        assert(cs@.subrange(0, j as int).drop_last() =~= cs@.subrange(0, j - 1));
        j -= 1;
    }
    s.substring_char(0, j)
}

/// The text without the characters of `set` around it.
pub fn strip<'a>(s: &'a str, set: &str) -> (res: &'a str)
    ensures
        res@ == stripped(s@, set@),
{
    strip_back(strip_front(s, set), set)
}

/// Whether the text begins with `p`.
pub open spec fn begins(s: Seq<char>, p: Seq<char>) -> bool {
    p.len() <= s.len() && s.subrange(0, p.len() as int) == p
}

/// Whether the text ends with `p`.
pub open spec fn ends(s: Seq<char>, p: Seq<char>) -> bool {
    p.len() <= s.len() && s.subrange(s.len() - p.len(), s.len() as int) == p
}

/// The rest of the text behind `p`, where the text begins with it.
pub open spec fn behind(s: Seq<char>, p: Seq<char>) -> Option<Seq<char>> {
    if begins(s, p) {
        Some(s.skip(p.len() as int))
    } else {
        None
    }
}

/// The part of the text before `p`, where the text ends with it.
pub open spec fn ahead(s: Seq<char>, p: Seq<char>) -> Option<Seq<char>> {
    if ends(s, p) {
        Some(s.take(s.len() - p.len()))
    } else {
        None
    }
}

/// The rest of the text behind `p`, or the text where it does not begin with `p`.
pub open spec fn behind_or_all(s: Seq<char>, p: Seq<char>) -> Seq<char> {
    if begins(s, p) {
        s.skip(p.len() as int)
    } else {
        s
    }
}

/// The rest of the text behind all the copies of `p` at its front.
pub open spec fn behind_all(s: Seq<char>, p: Seq<char>) -> Seq<char>
    decreases s.len(),
{
    if p.len() > 0 && begins(s, p) {
        behind_all(s.skip(p.len() as int), p)
    } else {
        s
    }
}

/// The part of the text before all the copies of `p` at its end.
pub open spec fn ahead_all(s: Seq<char>, p: Seq<char>) -> Seq<char>
    decreases s.len(),
{
    if p.len() > 0 && ends(s, p) {
        ahead_all(s.take(s.len() - p.len()), p)
    } else {
        s
    }
}

/// Whether `p` stands at position `at` of a list of characters.
fn stands_at(cs: &Vec<char>, p: &Vec<char>, at: usize) -> (res: bool)
    requires
        at <= cs@.len(),
    ensures
        res == begins(cs@.skip(at as int), p@),
{
    if p.len() > cs.len() - at {
        return false;
    }
    let ghost rest = cs@.skip(at as int);
    let mut i: usize = 0;
    while i < p.len()
        invariant
            i <= p.len() <= cs.len() - at,
            rest == cs@.skip(at as int),
            forall|k: int| 0 <= k < i ==> cs@[at + k] == p@[k],
        decreases p.len() - i,
    {
        if cs[at + i] != p[i] {
            assert(rest.subrange(0, p@.len() as int)[i as int] != p@[i as int]);
            return false;
        }
        i += 1;
    }
    assert(rest.subrange(0, p@.len() as int) =~= p@);
    true
}

/// Whether the text begins with `p`.
pub fn starts_with(s: &str, p: &str) -> (res: bool)
    ensures
        res == begins(s@, p@),
{
    let cs: Vec<char> = chars_of(s);
    assert(cs@.skip(0) =~= cs@);
    stands_at(&cs, &chars_of(p), 0)
}

/// Whether the text ends with `p`.
pub fn ends_with(s: &str, p: &str) -> (res: bool)
    ensures
        res == ends(s@, p@),
{
    let cs: Vec<char> = chars_of(s);
    let ps: Vec<char> = chars_of(p);
    if ps.len() > cs.len() {
        return false;
    }
    let at: usize = cs.len() - ps.len();
    assert(cs@.skip(at as int).subrange(0, ps@.len() as int) =~= cs@.subrange(
        at as int,
        cs@.len() as int,
    ));
    stands_at(&cs, &ps, at)
}

/// The rest of the text behind `p`, where the text begins with it.
pub fn strip_prefix<'a>(s: &'a str, p: &str) -> (res: Option<&'a str>)
    ensures
        res.deep_view() == behind(s@, p@),
{
    if starts_with(s, p) {
        let n: usize = s.unicode_len();
        let k: usize = p.unicode_len();
        assert(s@.subrange(k as int, n as int) =~= s@.skip(k as int));
        Some(s.substring_char(k, n))
    } else {
        None
    }
}

/// The part of the text before `p`, where the text ends with it.
pub fn strip_suffix<'a>(s: &'a str, p: &str) -> (res: Option<&'a str>)
    ensures
        res.deep_view() == ahead(s@, p@),
{
    if ends_with(s, p) {
        let n: usize = s.unicode_len();
        let k: usize = p.unicode_len();
        assert(s@.subrange(0, n - k) =~= s@.take(n - k));
        Some(s.substring_char(0, n - k))
    } else {
        None
    }
}

/// The rest of the text behind `p`, or the text where it does not begin with `p`.
pub fn without_prefix<'a>(s: &'a str, p: &str) -> (res: &'a str)
    ensures
        res@ == behind_or_all(s@, p@),
{
    match strip_prefix(s, p) {
        Some(rest) => rest,
        None => s,
    }
}

/// The rest of the text behind all the copies of `p` at its front.
pub fn without_prefixes<'a>(s: &'a str, p: &str) -> (res: &'a str)
    ensures
        res@ == behind_all(s@, p@),
    decreases s@.len(),
{
    if p.unicode_len() == 0 {
        return s;
    }
    match strip_prefix(s, p) {
        Some(rest) => without_prefixes(rest, p),
        None => s,
    }
}

/// The part of the text before all the copies of `p` at its end.
pub fn without_suffixes<'a>(s: &'a str, p: &str) -> (res: &'a str)
    ensures
        res@ == ahead_all(s@, p@),
    decreases s@.len(),
{
    if p.unicode_len() == 0 {
        return s;
    }
    match strip_suffix(s, p) {
        Some(rest) => without_suffixes(rest, p),
        None => s,
    }
}

/// The first position at or behind `i` at which `p` stands in the text.
pub open spec fn place_from(s: Seq<char>, p: Seq<char>, i: int) -> Option<int>
    decreases s.len() + 1 - i,
{
    if i < 0 || i > s.len() {
        None
    } else if begins(s.skip(i), p) {
        Some(i)
    } else {
        place_from(s, p, i + 1)
    }
}

/// The first position at which `p` stands in the text.
pub open spec fn place(s: Seq<char>, p: Seq<char>) -> Option<int> {
    place_from(s, p, 0)
}

/// Whether `p` stands somewhere in the text.
pub open spec fn has(s: Seq<char>, p: Seq<char>) -> bool {
    place(s, p) is Some
}

pub proof fn lemma_place_from(s: Seq<char>, p: Seq<char>, i: int)
    ensures
        place_from(s, p, i) matches Some(k) ==> 0 <= i <= k && k + p.len() <= s.len() && begins(
            s.skip(k),
            p,
        ) && s.subrange(k, k + p.len()) == p,
    decreases s.len() + 1 - i,
{
    if i < 0 || i > s.len() {
    } else if begins(s.skip(i), p) {
        assert(s.skip(i).subrange(0, p.len() as int) =~= s.subrange(i, i + p.len()));
    } else {
        lemma_place_from(s, p, i + 1);
    }
}

/// The first position at or behind `at` at which `p` stands.
fn find_in(cs: &Vec<char>, p: &Vec<char>, at: usize) -> (res: Option<usize>)
    requires
        at <= cs@.len(),
    ensures
        res matches Some(k) ==> place_from(cs@, p@, at as int) == Some(k as int) && at <= k
            && k + p@.len() <= cs@.len(),
        res is None ==> place_from(cs@, p@, at as int) is None,
{
    let mut i: usize = at;
    loop
        invariant
            at <= i <= cs@.len(),
            place_from(cs@, p@, at as int) == place_from(cs@, p@, i as int),
        decreases cs@.len() - i,
    {
        if stands_at(cs, p, i) {
            proof {
                lemma_place_from(cs@, p@, i as int);
            }
            return Some(i);
        }
        if i == cs.len() {
            assert(place_from(cs@, p@, i + 1) is None);
            return None;
        }
        i += 1;
    }
}

/// The first position (in characters) at which `p` stands in the text.
pub fn find(s: &str, p: &str) -> (res: Option<usize>)
    ensures
        res matches Some(k) ==> place(s@, p@) == Some(k as int) && k + p@.len() <= s@.len(),
        res is None ==> place(s@, p@) is None,
{
    find_in(&chars_of(s), &chars_of(p), 0)
}

/// Whether `p` stands somewhere in the text.
pub fn contains(s: &str, p: &str) -> (res: bool)
    ensures
        res == has(s@, p@),
{
    find(s, p).is_some()
}

/// The parts of the text between the places where `sep` stands.
pub open spec fn pieces(s: Seq<char>, sep: Seq<char>) -> Seq<Seq<char>>
    decreases s.len(),
{
    match place(s, sep) {
        Some(k) if sep.len() > 0 && 0 <= k && k + sep.len() <= s.len() => seq![s.take(k)] + pieces(
            s.skip(k + sep.len()),
            sep,
        ),
        _ => seq![s],
    }
}

/// The parts of the text between the places where `sep` stands.
pub fn split(s: &str, sep: &str) -> (res: Vec<String>)
    requires
        sep@.len() > 0,
    ensures
        res.deep_view() == pieces(s@, sep@),
        res@.len() > 0,
{
    let mut res: Vec<String> = Vec::new();
    let mut rest: &str = s;
    let ghost done: Seq<Seq<char>> = Seq::empty();
    assert(done + pieces(s@, sep@) =~= pieces(s@, sep@));
    loop
        invariant
            sep@.len() > 0,
            res.deep_view() == done,
            done + pieces(rest@, sep@) == pieces(s@, sep@),
        decreases rest@.len(),
    {
        match find(rest, sep) {
            Some(k) => {
                let n: usize = rest.unicode_len();
                let m: usize = sep.unicode_len();
                let head: &str = rest.substring_char(0, k);
                let tail: &str = rest.substring_char(k + m, n);
                proof {
                    assert(head@ =~= rest@.take(k as int));
                    assert(tail@ =~= rest@.skip(k + m));
                    assert(done.push(head@) + pieces(tail@, sep@) =~= done + (seq![head@] + pieces(
                        tail@,
                        sep@,
                    )));
                    done = done.push(head@);
                }
                res.push(head.to_owned());
                assert(res.deep_view() =~= done);
                rest = tail;
            },
            None => {
                res.push(rest.to_owned());
                assert(res.deep_view() =~= done + seq![rest@]);
                return res;
            },
        }
    }
}

/// The texts one after the other, with `sep` between them.
pub open spec fn joined(parts: Seq<Seq<char>>, sep: Seq<char>) -> Seq<char>
    decreases parts.len(),
{
    if parts.len() == 0 {
        Seq::empty()
    } else if parts.len() == 1 {
        parts[0]
    } else {
        joined(parts.drop_last(), sep) + sep + parts.last()
    }
}

/// The texts one after the other, with `sep` between them.
pub fn join(parts: &Vec<String>, sep: &str) -> (res: String)
    ensures
        res@ == joined(parts.deep_view(), sep@),
{
    let mut res = String::new();
    let mut i: usize = 0;
    let ghost all = parts.deep_view();
    while i < parts.len()
        invariant
            i <= parts.len(),
            all == parts.deep_view(),
            res@ == joined(all.take(i as int), sep@),
        decreases parts.len() - i,
    {
        if i > 0 {
            res.append(sep);
        }
        res.append(parts[i].as_str());
        assert(all.take(i + 1).drop_last() =~= all.take(i as int));
        if i == 0 {
            assert(res@ =~= all[0]);
        }
        i += 1;
    }
    assert(all.take(i as int) =~= all);
    res
}

/// Two texts, one after the other.
pub fn concat(a: &str, b: &str) -> (res: String)
    ensures
        res@ == a@ + b@,
{
    let mut res: String = a.to_owned();
    res.append(b);
    res
}

/// Three texts, one after the other.
pub fn concat3(a: &str, b: &str, c: &str) -> (res: String)
    ensures
        res@ == a@ + b@ + c@,
{
    let mut res: String = a.to_owned();
    res.append(b);
    res.append(c);
    res
}

/// The first position at or behind `i` that holds white space.
pub open spec fn white_from(s: Seq<char>, i: int) -> Option<int>
    decreases s.len() - i,
{
    if i < 0 || i >= s.len() {
        None
    } else if is_white(s[i]) {
        Some(i)
    } else {
        white_from(s, i + 1)
    }
}

/// The first position that holds white space.
pub fn find_white(s: &str) -> (res: Option<usize>)
    ensures
        res matches Some(k) ==> white_from(s@, 0) == Some(k as int) && k < s@.len(),
        res is None ==> white_from(s@, 0) is None,
{
    let cs: Vec<char> = chars_of(s);
    let mut i: usize = 0;
    while i < cs.len()
        invariant
            i <= cs.len(),
            cs@ == s@,
            white_from(s@, 0) == white_from(s@, i as int),
        decreases cs.len() - i,
    {
        if cs[i].is_whitespace() {
            return Some(i);
        }
        i += 1;
    }
    None
}

/// How far the text reaches before its first white space.
pub open spec fn word_end(s: Seq<char>) -> int {
    match white_from(s, 0) {
        Some(k) => k,
        None => s.len() as int,
    }
}

proof fn lemma_white_from(s: Seq<char>, i: int)
    ensures
        white_from(s, i) matches Some(k) ==> i <= k < s.len() && is_white(s[k]),
    decreases s.len() - i,
{
    if 0 <= i < s.len() && !is_white(s[i]) {
        lemma_white_from(s, i + 1);
    }
}

proof fn lemma_trimmed_front(s: Seq<char>)
    ensures
        trimmed_front(s).len() <= s.len(),
        trimmed_front(s).len() > 0 ==> !is_white(trimmed_front(s)[0]),
    decreases s.len(),
{
    if s.len() > 0 && is_white(s[0]) {
        lemma_trimmed_front(s.skip(1));
    }
}

/// The parts of the text between its white space.
pub open spec fn words(s: Seq<char>) -> Seq<Seq<char>>
    decreases s.len(),
    via words_decreases
{
    let t = trimmed_front(s);
    if t.len() == 0 {
        Seq::empty()
    } else {
        seq![t.take(word_end(t))] + words(t.skip(word_end(t)))
    }
}

#[via_fn]
proof fn words_decreases(s: Seq<char>) {
    let t = trimmed_front(s);
    lemma_trimmed_front(s);
    lemma_white_from(t, 0);
}

/// The parts of the text between its white space.
pub fn split_whitespace(s: &str) -> (res: Vec<String>)
    ensures
        res.deep_view() == words(s@),
{
    let mut res: Vec<String> = Vec::new();
    let mut rest: &str = s;
    let ghost mut done: Seq<Seq<char>> = Seq::empty();
    assert(done + words(s@) =~= words(s@));
    assert(res.deep_view() =~= done);
    loop
        invariant
            res.deep_view() == done,
            done + words(rest@) == words(s@),
        decreases rest@.len(),
    {
        proof {
            lemma_trimmed_front(rest@);
        }
        let t: &str = trim_start(rest);
        let n: usize = t.unicode_len();
        if n == 0 {
            assert(done + words(rest@) =~= done);
            return res;
        }
        let k: usize = match find_white(t) {
            Some(k) => k,
            None => n,
        };
        proof {
            lemma_white_from(t@, 0);
        }
        let head: &str = t.substring_char(0, k);
        let tail: &str = t.substring_char(k, n);
        proof {
            assert(head@ =~= t@.take(k as int));
            assert(tail@ =~= t@.skip(k as int));
            assert(done.push(head@) + words(tail@) =~= done + (seq![head@] + words(tail@)));
            done = done.push(head@);
        }
        res.push(head.to_owned());
        assert(res.deep_view() =~= done);
        rest = tail;
    }
}

/// The last part of a line that `\n` ends, without a `\r` before the `\n`.
pub open spec fn without_cr(s: Seq<char>) -> Seq<char> {
    if s.len() > 0 && s.last() == '\r' {
        s.drop_last()
    } else {
        s
    }
}

/// The position of the first `\n` at or behind `i`.
pub open spec fn newline_from(s: Seq<char>, i: int) -> Option<int>
    decreases s.len() - i,
{
    if i < 0 || i >= s.len() {
        None
    } else if s[i] == '\n' {
        Some(i)
    } else {
        newline_from(s, i + 1)
    }
}

proof fn lemma_newline_from(s: Seq<char>, i: int)
    ensures
        newline_from(s, i) matches Some(k) ==> i <= k < s.len() && s[k] == '\n',
    decreases s.len() - i,
{
    if 0 <= i < s.len() && s[i] != '\n' {
        lemma_newline_from(s, i + 1);
    }
}

/// The lines of the text. A line ends at `\n` or `\r\n`, the last one also
/// at the end of the text.
pub open spec fn lines_of(s: Seq<char>) -> Seq<Seq<char>>
    decreases s.len(),
    via lines_of_decreases
{
    match newline_from(s, 0) {
        Some(k) => seq![without_cr(s.take(k))] + lines_of(s.skip(k + 1)),
        None => if s.len() == 0 {
            Seq::empty()
        } else {
            seq![s]
        },
    }
}

#[via_fn]
proof fn lines_of_decreases(s: Seq<char>) {
    lemma_newline_from(s, 0);
}

fn find_newline(s: &str) -> (res: Option<usize>)
    ensures
        res matches Some(k) ==> newline_from(s@, 0) == Some(k as int) && k < s@.len(),
        res is None ==> newline_from(s@, 0) is None,
{
    let cs: Vec<char> = chars_of(s);
    let mut i: usize = 0;
    while i < cs.len()
        invariant
            i <= cs.len(),
            cs@ == s@,
            newline_from(s@, 0) == newline_from(s@, i as int),
        decreases cs.len() - i,
    {
        if cs[i] == '\n' {
            return Some(i);
        }
        i += 1;
    }
    None
}

/// The lines of the text.
pub fn lines(s: &str) -> (res: Vec<String>)
    ensures
        res.deep_view() == lines_of(s@),
{
    let mut res: Vec<String> = Vec::new();
    let mut rest: &str = s;
    let ghost mut done: Seq<Seq<char>> = Seq::empty();
    assert(done + lines_of(s@) =~= lines_of(s@));
    assert(res.deep_view() =~= done);
    loop
        invariant
            res.deep_view() == done,
            done + lines_of(rest@) == lines_of(s@),
        decreases rest@.len(),
    {
        let n: usize = rest.unicode_len();
        match find_newline(rest) {
            Some(k) => {
                let end: usize = if k > 0 && rest.get_char(k - 1) == '\r' {
                    k - 1
                } else {
                    k
                };
                let head: &str = rest.substring_char(0, end);
                let tail: &str = rest.substring_char(k + 1, n);
                proof {
                    assert(head@ =~= without_cr(rest@.take(k as int)));
                    assert(tail@ =~= rest@.skip(k + 1));
                    assert(done.push(head@) + lines_of(tail@) =~= done + (seq![head@] + lines_of(
                        tail@,
                    )));
                    done = done.push(head@);
                }
                res.push(head.to_owned());
                assert(res.deep_view() =~= done);
                rest = tail;
            },
            None => {
                if n == 0 {
                    assert(done + lines_of(rest@) =~= done);
                    return res;
                }
                res.push(rest.to_owned());
                assert(res.deep_view() =~= done + seq![rest@]);
                return res;
            },
        }
    }
}

} // verus!
