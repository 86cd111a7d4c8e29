//! What holds of the overloads in every TypeScript class.

use vstd::prelude::*;

use crate::lang::typescript::{accessor, function_info, is_overload, Functions, Implements};
use crate::nodes::first;
use crate::tree::{group_tree, Node};
use crate::walk::{found, found_from, Test, Walker};

verus! {

broadcast use group_tree;

/// Whether a node is a member of a class that can be an overload.
pub open spec fn is_member(c: Node<'_>) -> bool {
    c.isa("method_definition") || c.isa("method_signature")
}

proof fn lemma_found_kid<T: Test>(t: &T, n: Node<'_>, i: int)
    ensures
        found_from(t, n, i) matches Some(c) ==> t.accepts(c) && exists|k: int|
            i <= k < n.arity() && 0 <= k && c == #[trigger] n.kid(k),
    decreases n.arity() - i,
{
    if 0 <= i < n.arity() && !t.accepts(n.kid(i)) {
        lemma_found_kid(t, n, i + 1);
    }
}

proof fn lemma_member_kinds(c: Node<'_>)
    requires
        is_member(c),
    ensures
        !c.isa("function_declaration"),
        !c.isa("function_signature"),
{
    reveal_strlit("method_definition");
    reveal_strlit("method_signature");
    reveal_strlit("function_declaration");
    reveal_strlit("function_signature");
    assert("function_declaration"@.len() == 20);
    assert("function_signature"@.len() == 18);
    assert("method_definition"@.len() == 17);
    assert("method_signature"@.len() == 16);
}

/// A member of a class is reported one time, or not at all where it is an
/// overload. A member with a body is no overload.
pub proof fn members_with_bodies_are_reported(c: Node<'_>)
    requires
        is_member(c),
    ensures
        (Functions { is_method: true }).yields(c) == if is_overload(c) {
            Seq::empty()
        } else {
            seq![function_info(c, true)]
        },
        c.at("body") is Some ==> !is_overload(c),
{
    lemma_member_kinds(c);
}

/// Whether a member stands for an overload: it is reported under the name of
/// the overload, has a body, and is static or an accessor as the overload is.
pub open spec fn stands_for(s: Node<'_>, c: Node<'_>) -> bool {
    &&& s.index() != c.index()
    &&& s.at("body") is Some
    &&& (first(s, "static") is Some) == (first(c, "static") is Some)
    &&& accessor(s) == accessor(c)
    &&& (Functions { is_method: true }).yields(s) == seq![function_info(s, true)]
    &&& function_info(s, true).name == function_info(c, true).name
}

/// Where an overload is left out, a sibling stands for it.
pub proof fn overloads_have_implementations(c: Node<'_>)
    requires
        is_member(c),
        is_overload(c),
    ensures
        exists|i: int|
            0 <= i < c.up()->0.arity() && stands_for(#[trigger] (c.up()->0).kid(i), c),
{
    let p = c.up()->0;
    let t = Implements { declared: c };
    lemma_found_kid(&t, p, 0);
    let s = found(&t, p)->0;
    let i = choose|i: int| 0 <= i < p.arity() && s == #[trigger] p.kid(i);
    members_with_bodies_are_reported(p.kid(i));
}

/// A `get` and a `set` of one name are never taken for one member.
pub proof fn accessors_are_kept_apart(c: Node<'_>, s: Node<'_>)
    requires
        accessor(c) != accessor(s),
    ensures
        !(Implements { declared: c }).accepts(s),
{
}

} // verus!
