//! Go: `const` and `var` declarations of a package.

use vstd::prelude::*;

use crate::items::{field_at, new_field};
use crate::lists::{group_lists, push_some, some_seq};
use crate::names::{capital_visibility, visibility_by_capital};
use crate::nodes::{field_text, field_txt};
use crate::tree::{group_tree, Node};
use crate::types::{Field, FieldInfo};
use crate::walk::{gather_into, gathered, pick_into, picked, Picker, Walker};

verus! {

broadcast use {group_tree, group_lists};

/// What is reported of a constant or variable spec.
pub open spec fn declared(n: Node<'_>, is_constant: bool) -> Option<Field> {
    match field_txt(n, "name") {
        Some(name) => Some(
            Field {
                field_type: field_txt(n, "type"),
                default_value: field_txt(n, "value"),
                is_static: true,
                is_constant,
                visibility: capital_visibility(name),
                ..field_at(name, n)
            },
        ),
        None => None,
    }
}

/// What is reported of a constant or variable spec.
pub fn extract_go_spec(n: &Node<'_>, is_constant: bool) -> (res: Option<FieldInfo>)
    ensures
        res.deep_view() == declared(*n, is_constant),
{
    match field_text(n, "name") {
        Some(name) => {
            let visibility = visibility_by_capital(name.as_str());
            let mut info = new_field(name, n);
            info.field_type = field_text(n, "type");
            info.default_value = field_text(n, "value");
            info.is_static = true;
            info.is_constant = is_constant;
            info.visibility = visibility;
            Some(info)
        },
        None => None,
    }
}

/// The specs of a `const` declaration.
pub struct ConstSpecs;

impl Picker for ConstSpecs {
    type Item = FieldInfo;

    open spec fn picks(&self, c: Node<'_>) -> Seq<Field> {
        if c.isa("const_spec") {
            some_seq(declared(c, true))
        } else {
            Seq::empty()
        }
    }

    fn pick(&self, c: Node<'_>, out: &mut Vec<FieldInfo>) {
        if c.is("const_spec") {
            push_some(out, extract_go_spec(&c, true));
        }
    }
}

/// The specs of a `var` declaration, also those in parentheses.
pub struct VarSpecs;

impl Walker for VarSpecs {
    type Item = FieldInfo;

    open spec fn yields(&self, c: Node<'_>) -> Seq<Field> {
        if c.isa("var_spec") {
            some_seq(declared(c, false))
        } else {
            Seq::empty()
        }
    }

    open spec fn enters<'a>(&self, c: Node<'a>) -> Option<Node<'a>> {
        if c.isa("var_spec") {
            None
        } else if c.isa("var_spec_list") {
            Some(c)
        } else {
            None
        }
    }

    fn visit<'a>(&self, c: Node<'a>, out: &mut Vec<FieldInfo>) -> (res: Option<Node<'a>>) {
        if c.is("var_spec") {
            push_some(out, extract_go_spec(&c, false));
            None
        } else if c.is("var_spec_list") {
            Some(c)
        } else {
            None
        }
    }
}

/// The constants and variables of a package.
pub struct Constants;

impl Picker for Constants {
    type Item = FieldInfo;

    open spec fn picks(&self, c: Node<'_>) -> Seq<Field> {
        if c.isa("const_declaration") {
            picked(&ConstSpecs, c)
        } else if c.isa("var_declaration") {
            gathered(&VarSpecs, c)
        } else {
            Seq::empty()
        }
    }

    fn pick(&self, c: Node<'_>, out: &mut Vec<FieldInfo>) {
        if c.is("const_declaration") {
            pick_into(&ConstSpecs, c, out);
        } else if c.is("var_declaration") {
            gather_into(&VarSpecs, c, out);
        }
    }
}

} // verus!
