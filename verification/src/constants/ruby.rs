//! Ruby: assignments to constants in upper case.

use vstd::prelude::*;

use crate::items::{emit_upper_constant, upper_constant};
use crate::lists::group_lists;
use crate::text::own;
use crate::tree::{group_tree, Node};
use crate::types::{Field, FieldInfo};
use crate::walk::{fold, folded, Fold, Picker};

verus! {

broadcast use {group_tree, group_lists};

/// The constant left of `=`, what stands right of it, and whether it was passed.
pub struct Sides;

impl Fold for Sides {
    type State = (Option<String>, Option<String>, bool);

    open spec fn step(
        &self,
        s: (Option<Seq<char>>, Option<Seq<char>>, bool),
        c: Node<'_>,
    ) -> (Option<Seq<char>>, Option<Seq<char>>, bool) {
        if !s.2 && c.isa("constant") {
            (Some(c.txt()), s.1, s.2)
        } else if c.isa("=") {
            (s.0, s.1, true)
        } else if s.2 && s.1 is None {
            (s.0, Some(c.txt()), s.2)
        } else {
            s
        }
    }

    fn next(&self, s: (Option<String>, Option<String>, bool), c: Node<'_>) -> (res: (
        Option<String>,
        Option<String>,
        bool,
    )) {
        let ghost before = s.deep_view();
        let (left, right, seen) = s;
        assert(before == (left.deep_view(), right.deep_view(), seen));
        if !seen && c.is("constant") {
            (Some(own(c.text())), right, seen)
        } else if c.is("=") {
            (left, right, true)
        } else if seen && right.is_none() {
            (left, Some(own(c.text())), seen)
        } else {
            (left, right, seen)
        }
    }
}

/// The constants of a file.
pub struct Constants;

impl Picker for Constants {
    type Item = FieldInfo;

    open spec fn picks(&self, c: Node<'_>) -> Seq<Field> {
        if c.isa("assignment") {
            let sides = folded(&Sides, (None, None, false), c);
            upper_constant(sides.0, c, None, sides.1)
        } else {
            Seq::empty()
        }
    }

    fn pick(&self, c: Node<'_>, out: &mut Vec<FieldInfo>) {
        if c.is("assignment") {
            let start: (Option<String>, Option<String>, bool) = (None, None, false);
            assert(start.deep_view() == (None::<Seq<char>>, None::<Seq<char>>, false));
            let sides = fold(&Sides, start, c);
            assert(sides.deep_view() == (sides.0.deep_view(), sides.1.deep_view(), sides.2));
            emit_upper_constant(out, sides.0, &c, None, sides.1);
        }
    }
}

} // verus!
