//! OCaml: `let` of names in upper case.

use vstd::prelude::*;

use crate::items::{emit_upper_constant, upper_constant};
use crate::lang::ocaml::{is_function, ocaml_binding_has_params};
use crate::lists::group_lists;
use crate::nodes::{field_text, field_txt};
use crate::tree::{group_tree, Node};
use crate::types::{Field, FieldInfo};
use crate::walk::{pick_into, picked, Picker};

verus! {

broadcast use {group_tree, group_lists};

/// The constants that a definition binds.
pub struct Bound<'b> {
    pub definition: Node<'b>,
}

impl<'b> Picker for Bound<'b> {
    type Item = FieldInfo;

    open spec fn picks(&self, c: Node<'_>) -> Seq<Field> {
        if c.isa("let_binding") && !is_function(c) {
            upper_constant(field_txt(c, "pattern"), self.definition, None, field_txt(c, "body"))
        } else {
            Seq::empty()
        }
    }

    fn pick(&self, c: Node<'_>, out: &mut Vec<FieldInfo>) {
        if c.is("let_binding") && !ocaml_binding_has_params(&c) {
            let value = field_text(&c, "body");
            emit_upper_constant(out, field_text(&c, "pattern"), &self.definition, None, value);
        }
    }
}

/// The constants of a file.
pub struct Constants;

impl Picker for Constants {
    type Item = FieldInfo;

    open spec fn picks(&self, c: Node<'_>) -> Seq<Field> {
        if c.isa("value_definition") {
            picked(&Bound { definition: c }, c)
        } else {
            Seq::empty()
        }
    }

    fn pick(&self, c: Node<'_>, out: &mut Vec<FieldInfo>) {
        if c.is("value_definition") {
            pick_into(&Bound { definition: c }, c, out);
        }
    }
}

} // verus!
