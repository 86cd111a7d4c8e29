//! Scala: `val` of names in upper case.

use vstd::prelude::*;

use crate::items::{emit_upper_constant, upper_constant};
use crate::lists::group_lists;
use crate::text::own;
use crate::tree::{group_tree, Node};
use crate::types::{Field, FieldInfo};
use crate::walk::{fold, folded, Fold, Picker};

verus! {

broadcast use {group_tree, group_lists};

/// The name, the value, and whether the `=` between them was passed.
pub struct Definition;

impl Fold for Definition {
    type State = (Option<String>, Option<String>, bool);

    open spec fn step(
        &self,
        s: (Option<Seq<char>>, Option<Seq<char>>, bool),
        c: Node<'_>,
    ) -> (Option<Seq<char>>, Option<Seq<char>>, bool) {
        if c.isa("identifier") && s.0 is None {
            (Some(c.txt()), s.1, s.2)
        } else if c.isa("=") {
            (s.0, s.1, true)
        } else if s.2 && s.1 is None && !c.isa("val") {
            (s.0, Some(c.txt()), s.2)
        } else {
            s
        }
    }

    fn next(&self, s: (Option<String>, Option<String>, bool), c: Node<'_>) -> (res: (
        Option<String>,
        Option<String>,
        bool,
    )) {
        let ghost before = s.deep_view();
        let (name, value, seen) = s;
        assert(before == (name.deep_view(), value.deep_view(), seen));
        if c.is("identifier") && name.is_none() {
            (Some(own(c.text())), value, seen)
        } else if c.is("=") {
            (name, value, true)
        } else if seen && value.is_none() && !c.is("val") {
            (name, Some(own(c.text())), seen)
        } else {
            (name, value, seen)
        }
    }
}

/// The constants of a file.
pub struct Constants;

impl Picker for Constants {
    type Item = FieldInfo;

    open spec fn picks(&self, c: Node<'_>) -> Seq<Field> {
        if c.isa("val_definition") {
            let parts = folded(&Definition, (None, None, false), c);
            upper_constant(parts.0, c, None, parts.1)
        } else {
            Seq::empty()
        }
    }

    fn pick(&self, c: Node<'_>, out: &mut Vec<FieldInfo>) {
        if c.is("val_definition") {
            let start: (Option<String>, Option<String>, bool) = (None, None, false);
            assert(start.deep_view() == (None::<Seq<char>>, None::<Seq<char>>, false));
            let parts = fold(&Definition, start, c);
            assert(parts.deep_view() == (parts.0.deep_view(), parts.1.deep_view(), parts.2));
            emit_upper_constant(out, parts.0, &c, None, parts.1);
        }
    }
}

} // verus!
