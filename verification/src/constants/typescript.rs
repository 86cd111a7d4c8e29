//! TypeScript and JavaScript: `const` declarations of names in upper case.

use vstd::prelude::*;

use crate::items::{emit_upper_constant, upper_constant};
use crate::lists::group_lists;
use crate::nodes::{field_text, field_txt};
use crate::text::{begins, starts_with};
use crate::tree::{group_tree, Node};
use crate::types::{Field, FieldInfo};
use crate::walk::{pick_into, picked, Picker};

verus! {

broadcast use {group_tree, group_lists};

/// The names in upper case that a declaration binds.
pub struct Declarators;

impl Picker for Declarators {
    type Item = FieldInfo;

    open spec fn picks(&self, c: Node<'_>) -> Seq<Field> {
        if c.isa("variable_declarator") {
            upper_constant(field_txt(c, "name"), c, None, field_txt(c, "value"))
        } else {
            Seq::empty()
        }
    }

    fn pick(&self, c: Node<'_>, out: &mut Vec<FieldInfo>) {
        if c.is("variable_declarator") {
            emit_upper_constant(out, field_text(&c, "name"), &c, None, field_text(&c, "value"));
        }
    }
}

/// The constants that a `const` declaration makes.
pub struct Lexical;

impl Picker for Lexical {
    type Item = FieldInfo;

    open spec fn picks(&self, c: Node<'_>) -> Seq<Field> {
        if c.isa("lexical_declaration") && begins(c.txt(), "const "@) {
            picked(&Declarators, c)
        } else {
            Seq::empty()
        }
    }

    fn pick(&self, c: Node<'_>, out: &mut Vec<FieldInfo>) {
        if c.is("lexical_declaration") && starts_with(c.text(), "const ") {
            pick_into(&Declarators, c, out);
        }
    }
}

/// The constants of a module, exported or not.
pub struct Constants;

impl Picker for Constants {
    type Item = FieldInfo;

    open spec fn picks(&self, c: Node<'_>) -> Seq<Field> {
        if c.isa("lexical_declaration") {
            Lexical.picks(c)
        } else if c.isa("export_statement") {
            picked(&Lexical, c)
        } else {
            Seq::empty()
        }
    }

    fn pick(&self, c: Node<'_>, out: &mut Vec<FieldInfo>) {
        if c.is("lexical_declaration") {
            Lexical.pick(c, out);
        } else if c.is("export_statement") {
            pick_into(&Lexical, c, out);
        }
    }
}

} // verus!
