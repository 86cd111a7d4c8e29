//! Elixir: module attributes in upper case.

use vstd::prelude::*;

use crate::items::{emit_upper_constant, upper_constant};
use crate::lists::{group_lists, none};
use crate::nodes::txt_of;
use crate::text::own;
use crate::tree::{group_tree, same, Node};
use crate::types::{Field, FieldInfo};

verus! {

broadcast use {group_tree, group_lists};

/// The constant that an attribute makes, the next node being its value.
pub open spec fn attribute(c: Node<'_>, next: Option<Node<'_>>) -> Seq<Field> {
    match (c.at("operator"), c.at("operand")) {
        (Some(op), Some(name)) if c.isa("unary_operator") && op.txt() == "@"@ => upper_constant(
            Some(name.txt()),
            c,
            None,
            txt_of(next),
        ),
        _ => Seq::empty(),
    }
}

/// The constants among the first `k` children.
pub open spec fn attributes(n: Node<'_>, k: nat) -> Seq<Field>
    decreases k,
{
    if k == 0 {
        Seq::empty()
    } else {
        attributes(n, (k - 1) as nat) + attribute(n.kid(k - 1), n.nth(k as int))
    }
}

/// The constants of a file.
pub fn extract_elixir_module_constants(n: &Node<'_>) -> (res: Vec<FieldInfo>)
    ensures
        res.deep_view() == attributes(*n, n.arity()),
{
    let mut out: Vec<FieldInfo> = none();
    let count: usize = n.child_count();
    let mut i: usize = 0;
    while i < count
        invariant
            count == n.arity(),
            i <= count,
            out.deep_view() == attributes(*n, i as nat),
        decreases count - i,
    {
        let c = n.child(i);
        i += 1;
        if c.is("unary_operator") {
            match (c.child_by_field_name("operator"), c.child_by_field_name("operand")) {
                (Some(op), Some(name)) => {
                    if same(op.text(), "@") {
                        let value = match n.get_child(i) {
                            Some(next) => Some(own(next.text())),
                            None => None,
                        };
                        emit_upper_constant(&mut out, Some(own(name.text())), &c, None, value);
                    }
                },
                _ => {},
            }
        }
    }
    out
}

} // verus!
