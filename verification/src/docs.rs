//! Block comments that document what follows them.

use vstd::prelude::*;

use crate::lists::group_lists;
use crate::text::{
    ahead_all, begins, behind_all, behind_or_all, join, joined, lines, lines_of, own, strip_prefix,
    trim, trimmed, without_prefix, without_prefixes, without_suffixes,
};

verus! {

broadcast use group_lists;

/// A line of a block comment, without the white space around it and the `*`
/// at its front.
pub open spec fn doc_line(line: Seq<char>) -> Seq<char> {
    let t = trimmed(line);
    if begins(t, "* "@) {
        behind_or_all(t, "* "@)
    } else {
        behind_or_all(t, "*"@)
    }
}

/// A line of a block comment, without the white space around it and the `*`
/// at its front.
pub fn clean_doc_line(line: &str) -> (res: String)
    ensures
        res@ == doc_line(line@),
{
    let t: &str = trim(line);
    match strip_prefix(t, "* ") {
        Some(rest) => own(rest),
        None => own(without_prefix(t, "*")),
    }
}

/// The lines of a block comment, cleaned.
pub open spec fn doc_lines(raw: Seq<Seq<char>>) -> Seq<Seq<char>> {
    Seq::new(raw.len(), |i: int| doc_line(raw[i]))
}

/// The lines behind the empty ones at the front.
pub open spec fn without_blank_front(s: Seq<Seq<char>>) -> Seq<Seq<char>>
    decreases s.len(),
{
    if s.len() > 0 && s[0].len() == 0 {
        without_blank_front(s.skip(1))
    } else {
        s
    }
}

/// The lines before the empty ones at the end.
pub open spec fn without_blank_back(s: Seq<Seq<char>>) -> Seq<Seq<char>>
    decreases s.len(),
{
    if s.len() > 0 && s.last().len() == 0 {
        without_blank_back(s.drop_last())
    } else {
        s
    }
}

/// The lines without the empty ones around them, or nothing where no line is
/// left.
pub open spec fn doc_body(lines: Seq<Seq<char>>) -> Option<Seq<char>> {
    let body = without_blank_back(without_blank_front(lines));
    if body.len() == 0 {
        None
    } else {
        Some(joined(body, "\n"@))
    }
}

/// The text of a `/** .. */` comment, without its delimiters and the `*` at the
/// front of each line.
pub open spec fn block_doc(text: Seq<char>) -> Option<Seq<char>> {
    doc_body(doc_lines(lines_of(ahead_all(behind_all(text, "/**"@), "*/"@))))
}

/// Cleans the lines of a block comment.
pub fn clean_doc_lines(raw: &Vec<String>) -> (res: Vec<String>)
    ensures
        res.deep_view() == doc_lines(raw.deep_view()),
{
    let mut res: Vec<String> = Vec::new();
    let mut i: usize = 0;
    while i < raw.len()
        invariant
            i <= raw.len(),
            res@.len() == i,
            forall|k: int| 0 <= k < i ==> (#[trigger] res@[k])@ == doc_line(raw@[k]@),
        decreases raw.len() - i,
    {
        res.push(clean_doc_line(raw[i].as_str()));
        i += 1;
    }
    assert(res.deep_view() =~= doc_lines(raw.deep_view()));
    res
}

/// Joins the lines without the empty ones around them.
pub fn join_doc_body(cleaned: Vec<String>) -> (res: Option<String>)
    ensures
        res.deep_view() == doc_body(cleaned.deep_view()),
{
    let ghost all = cleaned.deep_view();
    let n: usize = cleaned.len();
    let mut start: usize = 0;
    assert(all.subrange(0, n as int) =~= all);
    while start < n && cleaned[start].as_str().is_empty()
        invariant
            start <= n,
            n == cleaned.len(),
            all == cleaned.deep_view(),
            without_blank_front(all) == without_blank_front(all.subrange(start as int, n as int)),
        decreases n - start,
    {
        assert(all.subrange(start as int, n as int).skip(1) =~= all.subrange(start + 1, n as int));
        start += 1;
    }
    let ghost rest = all.subrange(start as int, n as int);
    assert(without_blank_front(all) == rest);
    let mut end: usize = n;
    assert(rest.subrange(0, end - start) =~= rest);
    while end > start && cleaned[end - 1].as_str().is_empty()
        invariant
            start <= end <= n,
            n == cleaned.len(),
            all == cleaned.deep_view(),
            rest == all.subrange(start as int, n as int),
            without_blank_back(rest) == without_blank_back(rest.subrange(0, end - start)),
        decreases end,
    {
        assert(rest.subrange(0, end - start).drop_last() =~= rest.subrange(0, end - 1 - start));
        end -= 1;
    }
    let ghost body = rest.subrange(0, end - start);
    assert(without_blank_back(rest) == body);
    if start >= end {
        return None;
    }
    let mut kept: Vec<String> = Vec::new();
    let mut i: usize = start;
    while i < end
        invariant
            start <= i <= end <= n,
            n == cleaned.len(),
            kept@.len() == i - start,
            forall|k: int| 0 <= k < i - start ==> (#[trigger] kept@[k])@ == cleaned@[start + k]@,
        decreases end - i,
    {
        kept.push(cleaned[i].clone());
        i += 1;
    }
    assert(kept.deep_view() =~= body);
    Some(join(&kept, "\n"))
}

/// The text of a `/** .. */` comment, without its delimiters and the `*` at the
/// front of each line.
pub fn parse_block_doc_comment(text: &str) -> (res: Option<String>)
    ensures
        res.deep_view() == block_doc(text@),
{
    let inner: &str = without_suffixes(without_prefixes(text, "/**"), "*/");
    join_doc_body(clean_doc_lines(&lines(inner)))
}

/// The lines one below the other, or nothing where there is no line.
pub open spec fn joined_lines(lines: Seq<Seq<char>>) -> Option<Seq<char>> {
    if lines.len() == 0 {
        None
    } else {
        Some(joined(lines, "\n"@))
    }
}

/// The lines one below the other, or nothing where there is no line.
pub fn join_lines(lines: &Vec<String>) -> (res: Option<String>)
    ensures
        res.deep_view() == joined_lines(lines.deep_view()),
{
    if lines.len() == 0 {
        None
    } else {
        Some(join(lines, "\n"))
    }
}

} // verus!
