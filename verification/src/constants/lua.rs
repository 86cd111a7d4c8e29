//! Lua and Luau: assignments to names in upper case, local or not.

use vstd::prelude::*;

use crate::items::{emit_upper_constant, upper_constant};
use crate::lists::group_lists;
use crate::text::own;
use crate::tree::{group_tree, Node};
use crate::types::{Field, FieldInfo};
use crate::walk::{
    find_last_child, fold, folded, last_found, pick_into, picked, Fold, Picker, Test,
};

verus! {

broadcast use {group_tree, group_lists};

/// The text of the last expression list among the children.
pub struct Values;

impl Fold for Values {
    type State = Option<String>;

    open spec fn step(&self, s: Option<Seq<char>>, c: Node<'_>) -> Option<Seq<char>> {
        if c.isa("expression_list") {
            Some(c.txt())
        } else {
            s
        }
    }

    fn next(&self, s: Option<String>, c: Node<'_>) -> (res: Option<String>) {
        if c.is("expression_list") {
            Some(own(c.text()))
        } else {
            s
        }
    }
}

/// The names in upper case of a variable list.
pub struct Variables<'b> {
    pub assignment: Node<'b>,
}

impl<'b> Picker for Variables<'b> {
    type Item = FieldInfo;

    open spec fn picks(&self, c: Node<'_>) -> Seq<Field> {
        if c.isa("identifier") {
            upper_constant(
                Some(c.txt()),
                self.assignment,
                None,
                folded(&Values, None, self.assignment),
            )
        } else {
            Seq::empty()
        }
    }

    fn pick(&self, c: Node<'_>, out: &mut Vec<FieldInfo>) {
        if c.is("identifier") {
            let value = fold(&Values, None, self.assignment);
            emit_upper_constant(out, Some(own(c.text())), &self.assignment, None, value);
        }
    }
}

/// Variable lists.
pub struct VariableList;

impl Test for VariableList {
    open spec fn accepts(&self, c: Node<'_>) -> bool {
        c.isa("variable_list")
    }

    fn test(&self, c: Node<'_>) -> (res: bool) {
        c.is("variable_list")
    }
}

/// The constants that an assignment makes.
pub open spec fn assigned_constants(n: Node<'_>) -> Seq<Field> {
    match last_found(&VariableList, n) {
        Some(list) => picked(&Variables { assignment: n }, list),
        None => Seq::empty(),
    }
}

/// The constants that an assignment makes.
pub fn extract_lua_constant_from_assignment(n: &Node<'_>, out: &mut Vec<FieldInfo>)
    ensures
        final(out).deep_view() == old(out).deep_view() + assigned_constants(*n),
{
    match find_last_child(&VariableList, *n) {
        Some(list) => pick_into(&Variables { assignment: *n }, list, out),
        None => {},
    }
}

/// The assignments of a local declaration.
pub struct Locals;

impl Picker for Locals {
    type Item = FieldInfo;

    open spec fn picks(&self, c: Node<'_>) -> Seq<Field> {
        if c.isa("assignment_statement") {
            assigned_constants(c)
        } else {
            Seq::empty()
        }
    }

    fn pick(&self, c: Node<'_>, out: &mut Vec<FieldInfo>) {
        if c.is("assignment_statement") {
            extract_lua_constant_from_assignment(&c, out);
        }
    }
}

/// The constants of a file.
pub struct Constants;

impl Picker for Constants {
    type Item = FieldInfo;

    open spec fn picks(&self, c: Node<'_>) -> Seq<Field> {
        if c.isa("assignment_statement") {
            assigned_constants(c)
        } else if c.isa("variable_declaration") {
            picked(&Locals, c)
        } else {
            Seq::empty()
        }
    }

    fn pick(&self, c: Node<'_>, out: &mut Vec<FieldInfo>) {
        if c.is("assignment_statement") {
            extract_lua_constant_from_assignment(&c, out);
        } else if c.is("variable_declaration") {
            pick_into(&Locals, c, out);
        }
    }
}

} // verus!
