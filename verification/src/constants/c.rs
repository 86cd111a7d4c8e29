//! C and C++: `#define`, `const` and `constexpr` of names in upper case.

use vstd::prelude::*;

use crate::items::{emit_upper_constant, upper_constant};
use crate::lists::group_lists;
use crate::nodes::{field_text, field_txt};
use crate::text::{own, trim, trimmed};
use crate::tree::{group_tree, same, Node};
use crate::types::{Field, FieldInfo};
use crate::walk::{find_child, fold, folded, found, pick_into, picked, Fold, Picker, Test};

verus! {

broadcast use {group_tree, group_lists};

/// The name and the value of a `#define`.
pub struct Defined;

impl Fold for Defined {
    type State = (Option<String>, Option<String>);

    open spec fn step(&self, s: (Option<Seq<char>>, Option<Seq<char>>), c: Node<'_>) -> (
        Option<Seq<char>>,
        Option<Seq<char>>,
    ) {
        if c.isa("identifier") {
            (Some(c.txt()), s.1)
        } else if c.isa("preproc_arg") {
            (s.0, Some(trimmed(c.txt())))
        } else {
            s
        }
    }

    fn next(&self, s: (Option<String>, Option<String>), c: Node<'_>) -> (res: (
        Option<String>,
        Option<String>,
    )) {
        let ghost before = s.deep_view();
        let (name, value) = s;
        assert(before == (name.deep_view(), value.deep_view()));
        if c.is("identifier") {
            (Some(own(c.text())), value)
        } else if c.is("preproc_arg") {
            (name, Some(own(trim(c.text()))))
        } else {
            (name, value)
        }
    }
}

/// The constant that a `#define` makes.
pub open spec fn defined_constant(n: Node<'_>) -> Seq<Field> {
    let parts = folded(&Defined, (None, None), n);
    upper_constant(parts.0, n, None, parts.1)
}

fn extract_preproc_def_constant(n: &Node<'_>, out: &mut Vec<FieldInfo>)
    ensures
        final(out).deep_view() == old(out).deep_view() + defined_constant(*n),
{
    let start: (Option<String>, Option<String>) = (None, None);
    assert(start.deep_view() == (None::<Seq<char>>, None::<Seq<char>>));
    let parts = fold(&Defined, start, *n);
    assert(parts.deep_view() == (parts.0.deep_view(), parts.1.deep_view()));
    emit_upper_constant(out, parts.0, n, None, parts.1);
}

/// The qualifiers that make a declaration constant.
pub struct ConstQualifier {
    pub cpp: bool,
}

impl Test for ConstQualifier {
    open spec fn accepts(&self, c: Node<'_>) -> bool {
        c.isa("type_qualifier") && (c.txt() == "const"@ || (self.cpp && c.txt() == "constexpr"@))
    }

    fn test(&self, c: Node<'_>) -> (res: bool) {
        c.is("type_qualifier") && (same(c.text(), "const") || (self.cpp && same(
            c.text(),
            "constexpr",
        )))
    }
}

/// The names that a declaration initialises.
pub struct Declarators<'b> {
    pub declaration: Node<'b>,
}

impl<'b> Picker for Declarators<'b> {
    type Item = FieldInfo;

    open spec fn picks(&self, c: Node<'_>) -> Seq<Field> {
        if c.isa("init_declarator") {
            upper_constant(
                field_txt(c, "declarator"),
                self.declaration,
                field_txt(self.declaration, "type"),
                field_txt(c, "value"),
            )
        } else {
            Seq::empty()
        }
    }

    fn pick(&self, c: Node<'_>, out: &mut Vec<FieldInfo>) {
        if c.is("init_declarator") {
            let name = field_text(&c, "declarator");
            let kind = field_text(&self.declaration, "type");
            emit_upper_constant(out, name, &self.declaration, kind, field_text(&c, "value"));
        }
    }
}

/// The constants of a file.
pub struct Constants {
    pub cpp: bool,
}

impl Picker for Constants {
    type Item = FieldInfo;

    open spec fn picks(&self, c: Node<'_>) -> Seq<Field> {
        if c.isa("preproc_def") {
            defined_constant(c)
        } else if c.isa("declaration") {
            if found(&ConstQualifier { cpp: self.cpp }, c) is Some {
                picked(&Declarators { declaration: c }, c)
            } else {
                Seq::empty()
            }
        } else {
            Seq::empty()
        }
    }

    fn pick(&self, c: Node<'_>, out: &mut Vec<FieldInfo>) {
        if c.is("preproc_def") {
            extract_preproc_def_constant(&c, out);
        } else if c.is("declaration") {
            if find_child(&ConstQualifier { cpp: self.cpp }, c).is_some() {
                pick_into(&Declarators { declaration: c }, c, out);
            }
        }
    }
}

} // verus!
