//! Rust: `const` and `static` items outside of functions, impls and structs.

use vstd::prelude::*;

use crate::items::{field_at, new_field};
use crate::lists::{group_lists, push_some, some_seq};
use crate::nodes::{field_text, field_txt, first, first_child};
use crate::text::own;
use crate::tree::{group_tree, same, Node};
use crate::types::{Field, FieldInfo};
use crate::walk::Walker;

verus! {

broadcast use {group_tree, group_lists};

/// The visibility of an item: `public` for `pub`, the modifier as written for
/// `pub(..)`, and `private` without a modifier.
pub open spec fn visibility(n: Node<'_>) -> Option<Seq<char>> {
    match first(n, "visibility_modifier") {
        Some(m) => if m.txt() == "pub"@ {
            Some("public"@)
        } else {
            Some(m.txt())
        },
        None => Some("private"@),
    }
}

/// The visibility of an item.
pub fn rust_visibility(n: &Node<'_>) -> (res: Option<String>)
    ensures
        res.deep_view() == visibility(*n),
{
    match first_child(n, "visibility_modifier") {
        Some(m) => if same(m.text(), "pub") {
            Some(own("public"))
        } else {
            Some(own(m.text()))
        },
        None => Some(own("private")),
    }
}

/// What is reported of a `const` or `static` item.
pub open spec fn item(n: Node<'_>, is_const: bool) -> Option<Field> {
    match field_txt(n, "name") {
        Some(name) => Some(
            Field {
                field_type: field_txt(n, "type"),
                default_value: field_txt(n, "value"),
                is_static: !is_const,
                is_constant: true,
                visibility: visibility(n),
                ..field_at(name, n)
            },
        ),
        None => None,
    }
}

/// What is reported of a `const` or `static` item.
pub fn extract_rust_const_or_static(n: &Node<'_>, is_const: bool) -> (res: Option<FieldInfo>)
    ensures
        res.deep_view() == item(*n, is_const),
{
    match field_text(n, "name") {
        Some(name) => {
            let mut info = new_field(name, n);
            info.field_type = field_text(n, "type");
            info.default_value = field_text(n, "value");
            info.is_static = !is_const;
            info.is_constant = true;
            info.visibility = rust_visibility(n);
            Some(info)
        },
        None => None,
    }
}

/// The constants of a module and of the modules in it.
pub struct Constants;

impl Walker for Constants {
    type Item = FieldInfo;

    open spec fn yields(&self, c: Node<'_>) -> Seq<Field> {
        if c.isa("const_item") {
            some_seq(item(c, true))
        } else if c.isa("static_item") {
            some_seq(item(c, false))
        } else {
            Seq::empty()
        }
    }

    open spec fn enters<'a>(&self, c: Node<'a>) -> Option<Node<'a>> {
        if c.isa("const_item") || c.isa("static_item") || c.isa("function_item") || c.isa(
            "impl_item",
        ) || c.isa("struct_item") {
            None
        } else {
            Some(c)
        }
    }

    fn visit<'a>(&self, c: Node<'a>, out: &mut Vec<FieldInfo>) -> (res: Option<Node<'a>>) {
        if c.is("const_item") {
            push_some(out, extract_rust_const_or_static(&c, true));
            None
        } else if c.is("static_item") {
            push_some(out, extract_rust_const_or_static(&c, false));
            None
        } else if c.is("function_item") || c.is("impl_item") || c.is("struct_item") {
            None
        } else {
            Some(c)
        }
    }
}

} // verus!
