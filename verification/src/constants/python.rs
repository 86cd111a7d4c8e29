//! Python: assignments to names in upper case.

use vstd::prelude::*;

use crate::items::{emit_upper_constant, upper_constant};
use crate::lists::group_lists;
use crate::nodes::{field_text, field_txt};
use crate::text::own;
use crate::tree::{group_tree, Node};
use crate::types::{Field, FieldInfo};
use crate::walk::Picker;

verus! {

broadcast use {group_tree, group_lists};

/// The constants of a module.
pub struct Constants;

/// The constant that an assignment makes.
pub open spec fn assigned_constant(n: Node<'_>) -> Seq<Field> {
    match n.at("left") {
        Some(left) if left.isa("identifier") => upper_constant(
            Some(left.txt()),
            n,
            field_txt(n, "type"),
            field_txt(n, "right"),
        ),
        _ => Seq::empty(),
    }
}

impl Picker for Constants {
    type Item = FieldInfo;

    open spec fn picks(&self, c: Node<'_>) -> Seq<Field> {
        if c.isa("expression_statement") && c.arity() > 0 && c.kid(0).isa("assignment") {
            assigned_constant(c.kid(0))
        } else {
            Seq::empty()
        }
    }

    fn pick(&self, c: Node<'_>, out: &mut Vec<FieldInfo>) {
        if !c.is("expression_statement") {
            return;
        }
        let inner = match c.get_child(0) {
            Some(inner) => inner,
            None => return,
        };
        if !inner.is("assignment") {
            return;
        }
        match inner.child_by_field_name("left") {
            Some(left) => {
                if left.is("identifier") {
                    let kind = field_text(&inner, "type");
                    let value = field_text(&inner, "right");
                    emit_upper_constant(out, Some(own(left.text())), &inner, kind, value);
                }
            },
            None => {},
        }
    }
}

} // verus!
