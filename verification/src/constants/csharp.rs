//! C#: `const` declarations at the top level.

use vstd::prelude::*;

use crate::items::{emit_upper_constant, upper_constant};
use crate::lists::group_lists;
use crate::nodes::{field_text, field_txt};
use crate::text::{contains, has, own};
use crate::tree::{group_tree, Node};
use crate::types::{Field, FieldInfo};
use crate::walk::{
    find_child, fold, folded, found, pick_into, picked, Fold, Picker, Test,
};

verus! {

broadcast use {group_tree, group_lists};

/// The modifier `const`.
pub struct ConstModifier;

impl Test for ConstModifier {
    open spec fn accepts(&self, c: Node<'_>) -> bool {
        c.isa("modifier") && has(c.txt(), "const"@)
    }

    fn test(&self, c: Node<'_>) -> (res: bool) {
        c.is("modifier") && contains(c.text(), "const")
    }
}

/// Whether a `=` was passed, and what stands right of it.
pub struct Initial;

impl Fold for Initial {
    type State = (bool, Option<String>);

    open spec fn step(&self, s: (bool, Option<Seq<char>>), c: Node<'_>) -> (
        bool,
        Option<Seq<char>>,
    ) {
        if c.isa("=") {
            (true, s.1)
        } else if s.0 && s.1 is None {
            (s.0, Some(c.txt()))
        } else {
            s
        }
    }

    fn next(&self, s: (bool, Option<String>), c: Node<'_>) -> (res: (bool, Option<String>)) {
        let ghost before = s.deep_view();
        let (seen, value) = s;
        assert(before == (seen, value.deep_view()));
        if c.is("=") {
            (true, value)
        } else if seen && value.is_none() {
            (seen, Some(own(c.text())))
        } else {
            (seen, value)
        }
    }
}

/// What stands right of the first `=` among the children.
pub open spec fn initial_value(n: Node<'_>) -> Option<Seq<char>> {
    folded(&Initial, (false, None), n).1
}

/// What stands right of the first `=` among the children.
pub fn find_initial_value(n: &Node<'_>) -> (res: Option<String>)
    ensures
        res.deep_view() == initial_value(*n),
{
    let start: (bool, Option<String>) = (false, None);
    assert(start.deep_view() == (false, None::<Seq<char>>));
    let parts = fold(&Initial, start, *n);
    assert(parts.deep_view() == (parts.0, parts.1.deep_view()));
    parts.1
}

/// The names in upper case that a variable declaration declares.
pub struct Declarators<'b> {
    pub statement: Node<'b>,
    pub declaration: Node<'b>,
}

impl<'b> Picker for Declarators<'b> {
    type Item = FieldInfo;

    open spec fn picks(&self, c: Node<'_>) -> Seq<Field> {
        if c.isa("variable_declarator") {
            upper_constant(
                field_txt(c, "name"),
                self.statement,
                field_txt(self.declaration, "type"),
                initial_value(c),
            )
        } else {
            Seq::empty()
        }
    }

    fn pick(&self, c: Node<'_>, out: &mut Vec<FieldInfo>) {
        if c.is("variable_declarator") {
            let kind = field_text(&self.declaration, "type");
            let value = find_initial_value(&c);
            emit_upper_constant(out, field_text(&c, "name"), &self.statement, kind, value);
        }
    }
}

/// The variable declarations of a statement.
pub struct Declarations<'b> {
    pub statement: Node<'b>,
}

impl<'b> Picker for Declarations<'b> {
    type Item = FieldInfo;

    open spec fn picks(&self, c: Node<'_>) -> Seq<Field> {
        if c.isa("variable_declaration") {
            declared_constants(self.statement, c)
        } else {
            Seq::empty()
        }
    }

    fn pick(&self, c: Node<'_>, out: &mut Vec<FieldInfo>) {
        if c.is("variable_declaration") {
            extract_declared(&self.statement, &c, out);
        }
    }
}

/// The constants of one declaration of a statement.
pub open spec fn declared_constants(statement: Node<'_>, declaration: Node<'_>) -> Seq<Field> {
    picked(&Declarators { statement, declaration }, declaration)
}

fn extract_declared(statement: &Node<'_>, declaration: &Node<'_>, out: &mut Vec<FieldInfo>)
    ensures
        final(out).deep_view() == old(out).deep_view() + declared_constants(
            *statement,
            *declaration,
        ),
{
    pick_into(
        &Declarators { statement: *statement, declaration: *declaration },
        *declaration,
        out,
    );
}

/// The constant declarations of a global statement.
pub struct Statements;

impl Picker for Statements {
    type Item = FieldInfo;

    open spec fn picks(&self, c: Node<'_>) -> Seq<Field> {
        if c.isa("local_declaration_statement") && found(&ConstModifier, c) is Some {
            picked(&Declarations { statement: c }, c)
        } else {
            Seq::empty()
        }
    }

    fn pick(&self, c: Node<'_>, out: &mut Vec<FieldInfo>) {
        if c.is("local_declaration_statement") && find_child(&ConstModifier, c).is_some() {
            pick_into(&Declarations { statement: c }, c, out);
        }
    }
}

/// The constants of a file.
pub struct Constants;

impl Picker for Constants {
    type Item = FieldInfo;

    open spec fn picks(&self, c: Node<'_>) -> Seq<Field> {
        if c.isa("global_statement") {
            picked(&Statements, c)
        } else {
            Seq::empty()
        }
    }

    fn pick(&self, c: Node<'_>, out: &mut Vec<FieldInfo>) {
        if c.is("global_statement") {
            pick_into(&Statements, c, out);
        }
    }
}

} // verus!
