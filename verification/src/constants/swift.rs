//! Swift: `let` of names in upper case.

use vstd::prelude::*;

use crate::items::{emit_upper_constant, upper_constant};
use crate::lists::group_lists;
use crate::text::own;
use crate::tree::{group_tree, same, Node};
use crate::types::{Field, FieldInfo};
use crate::walk::{fold, folded, Fold, Picker};

verus! {

broadcast use {group_tree, group_lists};

/// The name that a pattern binds: its last identifier.
pub struct PatternName;

impl Fold for PatternName {
    type State = Option<String>;

    open spec fn step(&self, s: Option<Seq<char>>, c: Node<'_>) -> Option<Seq<char>> {
        if c.isa("simple_identifier") {
            Some(c.txt())
        } else {
            s
        }
    }

    fn next(&self, s: Option<String>, c: Node<'_>) -> (res: Option<String>) {
        if c.is("simple_identifier") {
            Some(own(c.text()))
        } else {
            s
        }
    }
}

/// What the parts of a property say: the name, the value, whether it is
/// declared with `let`, and whether its `=` was passed.
pub struct Property;

/// Name, value, `let`, `=`.
pub type PropertyParts = (Option<Seq<char>>, Option<Seq<char>>, bool, bool);

impl Fold for Property {
    type State = (Option<String>, Option<String>, bool, bool);

    open spec fn step(&self, s: PropertyParts, c: Node<'_>) -> PropertyParts {
        if c.isa("value_binding_pattern") {
            (s.0, s.1, c.txt() == "let"@, s.3)
        } else if c.isa("pattern") {
            (folded(&PatternName, s.0, c), s.1, s.2, s.3)
        } else if c.isa("=") {
            (s.0, s.1, s.2, true)
        } else if s.3 && s.1 is None {
            (s.0, Some(c.txt()), s.2, s.3)
        } else {
            s
        }
    }

    fn next(&self, s: (Option<String>, Option<String>, bool, bool), c: Node<'_>) -> (res: (
        Option<String>,
        Option<String>,
        bool,
        bool,
    )) {
        let ghost before = s.deep_view();
        let (name, value, is_let, seen) = s;
        assert(before == (name.deep_view(), value.deep_view(), is_let, seen));
        if c.is("value_binding_pattern") {
            (name, value, same(c.text(), "let"), seen)
        } else if c.is("pattern") {
            (fold(&PatternName, name, c), value, is_let, seen)
        } else if c.is("=") {
            (name, value, is_let, true)
        } else if seen && value.is_none() {
            (name, Some(own(c.text())), is_let, seen)
        } else {
            (name, value, is_let, seen)
        }
    }
}

/// The constants of a file.
pub struct Constants;

impl Picker for Constants {
    type Item = FieldInfo;

    open spec fn picks(&self, c: Node<'_>) -> Seq<Field> {
        let parts = folded(&Property, (None, None, false, false), c);
        if c.isa("property_declaration") && parts.2 {
            upper_constant(parts.0, c, None, parts.1)
        } else {
            Seq::empty()
        }
    }

    fn pick(&self, c: Node<'_>, out: &mut Vec<FieldInfo>) {
        if !c.is("property_declaration") {
            return;
        }
        let start: (Option<String>, Option<String>, bool, bool) = (None, None, false, false);
        assert(start.deep_view() == (None::<Seq<char>>, None::<Seq<char>>, false, false));
        let parts = fold(&Property, start, c);
        assert(parts.deep_view() == (parts.0.deep_view(), parts.1.deep_view(), parts.2, parts.3));
        if parts.2 {
            emit_upper_constant(out, parts.0, &c, None, parts.1);
        }
    }
}

} // verus!
