//! Kotlin: `const val`, and `val` of names in upper case.

use vstd::prelude::*;

use crate::items::{constant_at, new_constant};
use crate::lists::{emit, group_lists};
use crate::names::{is_constant_name, is_upper_case_name};
use crate::text::{contains, has, own};
use crate::tree::{group_tree, Node};
use crate::types::{Field, FieldInfo};
use crate::walk::{fold, folded, Fold, Picker};

verus! {

broadcast use {group_tree, group_lists};

/// The name that a variable declaration gives: its last identifier.
pub struct VariableName;

impl Fold for VariableName {
    type State = Option<String>;

    open spec fn step(&self, s: Option<Seq<char>>, c: Node<'_>) -> Option<Seq<char>> {
        if c.isa("identifier") || c.isa("simple_identifier") {
            Some(c.txt())
        } else {
            s
        }
    }

    fn next(&self, s: Option<String>, c: Node<'_>) -> (res: Option<String>) {
        if c.is("identifier") || c.is("simple_identifier") {
            Some(own(c.text()))
        } else {
            s
        }
    }
}

/// What the parts of a property say: the name, the value, whether it is
/// declared with `val`, whether it has the modifier `const`, and whether its
/// `=` was passed.
pub struct Property;

/// Name, value, `val`, `const`, `=`.
pub type PropertyParts = (Option<Seq<char>>, Option<Seq<char>>, bool, bool, bool);

impl Fold for Property {
    type State = (Option<String>, Option<String>, bool, bool, bool);

    open spec fn step(&self, s: PropertyParts, c: Node<'_>) -> PropertyParts {
        if c.isa("modifiers") {
            (s.0, s.1, s.2, s.3 || has(c.txt(), "const"@), s.4)
        } else if c.isa("val") {
            (s.0, s.1, true, s.3, s.4)
        } else if c.isa("variable_declaration") {
            (folded(&VariableName, s.0, c), s.1, s.2, s.3, s.4)
        } else if c.isa("=") {
            (s.0, s.1, s.2, s.3, true)
        } else if s.4 && s.1 is None {
            (s.0, Some(c.txt()), s.2, s.3, s.4)
        } else {
            s
        }
    }

    fn next(
        &self,
        s: (Option<String>, Option<String>, bool, bool, bool),
        c: Node<'_>,
    ) -> (res: (Option<String>, Option<String>, bool, bool, bool)) {
        let ghost before = s.deep_view();
        let (name, value, is_val, is_const, seen) = s;
        assert(before == (name.deep_view(), value.deep_view(), is_val, is_const, seen));
        if c.is("modifiers") {
            (name, value, is_val, is_const || contains(c.text(), "const"), seen)
        } else if c.is("val") {
            (name, value, true, is_const, seen)
        } else if c.is("variable_declaration") {
            (fold(&VariableName, name, c), value, is_val, is_const, seen)
        } else if c.is("=") {
            (name, value, is_val, is_const, true)
        } else if seen && value.is_none() {
            (name, Some(own(c.text())), is_val, is_const, seen)
        } else {
            (name, value, is_val, is_const, seen)
        }
    }
}

/// The constants of a file.
pub struct Constants;

impl Picker for Constants {
    type Item = FieldInfo;

    open spec fn picks(&self, c: Node<'_>) -> Seq<Field> {
        let parts = folded(&Property, (None, None, false, false, false), c);
        match parts.0 {
            Some(name) if c.isa("property_declaration") && (parts.3 || (parts.2
                && is_constant_name(name))) => seq![constant_at(name, c, None, parts.1)],
            _ => Seq::empty(),
        }
    }

    fn pick(&self, c: Node<'_>, out: &mut Vec<FieldInfo>) {
        if !c.is("property_declaration") {
            return;
        }
        let start: (Option<String>, Option<String>, bool, bool, bool) = (
            None,
            None,
            false,
            false,
            false,
        );
        assert(start.deep_view() == (
            None::<Seq<char>>,
            None::<Seq<char>>,
            false,
            false,
            false,
        ));
        let parts = fold(&Property, start, c);
        assert(parts.deep_view() == (
            parts.0.deep_view(),
            parts.1.deep_view(),
            parts.2,
            parts.3,
            parts.4,
        ));
        let (name, value, is_val, is_const, _seen) = parts;
        match name {
            Some(text) => {
                if is_const || (is_val && is_upper_case_name(text.as_str())) {
                    emit(out, new_constant(text, &c, None, value));
                }
            },
            None => {},
        }
    }
}

} // verus!
