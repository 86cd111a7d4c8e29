//! Small questions about a node and its children.

use vstd::prelude::*;

use crate::text::{own, strip, stripped};
use crate::tree::{at_or_below, group_tree, lemma_kid_below, Node};

verus! {

broadcast use group_tree;

/// The text of an optional node.
pub open spec fn txt_of(n: Option<Node<'_>>) -> Option<Seq<char>> {
    match n {
        Some(c) => Some(c.txt()),
        None => None,
    }
}

/// The text, or the empty text where there is none.
pub open spec fn or_empty(s: Option<Seq<char>>) -> Seq<char> {
    match s {
        Some(x) => x,
        None => Seq::empty(),
    }
}

/// The text of the child that fills the field `name`.
pub open spec fn field_txt(n: Node<'_>, name: &str) -> Option<Seq<char>> {
    txt_of(n.at(name))
}

/// The text of the child that fills the field `name`.
pub fn field_text(n: &Node<'_>, name: &str) -> (res: Option<String>)
    ensures
        res.deep_view() == field_txt(*n, name),
{
    match n.child_by_field_name(name) {
        Some(c) => Some(own(c.text())),
        None => None,
    }
}

/// The text of the child that fills the field `name`, or the empty text.
pub fn field_text_or_empty(n: &Node<'_>, name: &str) -> (res: String)
    ensures
        res@ == or_empty(field_txt(*n, name)),
{
    match n.child_by_field_name(name) {
        Some(c) => own(c.text()),
        None => String::new(),
    }
}

/// The first child at or behind position `i` of the given kind.
pub open spec fn first_from<'a>(n: Node<'a>, kind: &str, i: int) -> Option<Node<'a>>
    decreases n.arity() - i,
{
    if i < 0 || i >= n.arity() {
        None
    } else if n.kid(i).isa(kind) {
        Some(n.kid(i))
    } else {
        first_from(n, kind, i + 1)
    }
}

/// The first child of the given kind.
pub open spec fn first<'a>(n: Node<'a>, kind: &str) -> Option<Node<'a>> {
    first_from(n, kind, 0)
}

/// The first child of the given kind.
pub fn first_child<'a>(n: &Node<'a>, kind: &str) -> (res: Option<Node<'a>>)
    ensures
        res == first(*n, kind),
{
    let count: usize = n.child_count();
    let mut i: usize = 0;
    while i < count
        invariant
            count == n.arity(),
            i <= count,
            first(*n, kind) == first_from(*n, kind, i as int),
        decreases count - i,
    {
        let c = n.child(i);
        if c.is(kind) {
            return Some(c);
        }
        i += 1;
    }
    None
}

/// The text of the first child of the given kind.
pub fn text_of_child(n: &Node<'_>, kind: &str) -> (res: Option<String>)
    ensures
        res.deep_view() == txt_of(first(*n, kind)),
{
    match first_child(n, kind) {
        Some(c) => Some(own(c.text())),
        None => None,
    }
}

/// Whether some child is of the given kind.
pub fn has_child(n: &Node<'_>, kind: &str) -> (res: bool)
    ensures
        res == (first(*n, kind) is Some),
{
    first_child(n, kind).is_some()
}

/// The first child of a kind stands behind its parent in the walk.
pub broadcast proof fn lemma_first_rank(n: Node<'_>, kind: &str, i: int)
    ensures
        #[trigger] first_from(n, kind, i) matches Some(c) ==> c.rank() < n.rank(),
    decreases n.arity() - i,
{
    if 0 <= i < n.arity() {
        lemma_first_rank(n, kind, i + 1);
    }
}

/// The first child of a kind stands below its parent.
pub proof fn lemma_first_below(n: Node<'_>, kind: &str, i: int)
    ensures
        first_from(n, kind, i) matches Some(c) ==> at_or_below(n, c) && c.isa(kind),
    decreases n.arity() - i,
{
    if 0 <= i < n.arity() {
        lemma_kid_below(n, i);
        lemma_first_below(n, kind, i + 1);
    }
}

/// The characters that quote a string.
pub open spec fn unquoted(s: Seq<char>) -> Seq<char> {
    stripped(s, "\"'`"@)
}

/// The text of a string literal without the quotes around it.
pub fn string_content(n: &Node<'_>) -> (res: String)
    ensures
        res@ == unquoted(n.txt()),
{
    own(strip(n.text(), "\"'`"))
}

/// The text of the child that fills the field `name`, without the quotes around it.
pub open spec fn field_unquoted(n: Node<'_>, name: &str) -> Seq<char> {
    match n.at(name) {
        Some(c) => unquoted(c.txt()),
        None => Seq::empty(),
    }
}

/// The text of the child that fills the field `name`, without the quotes around it.
pub fn field_content(n: &Node<'_>, name: &str) -> (res: String)
    ensures
        res@ == field_unquoted(*n, name),
{
    match n.child_by_field_name(name) {
        Some(c) => string_content(&c),
        None => String::new(),
    }
}

/// A text, as an optional string.
pub fn some_text(s: &str) -> (res: Option<String>)
    ensures
        res.deep_view() == Some(s@),
{
    Some(own(s))
}

} // verus!
