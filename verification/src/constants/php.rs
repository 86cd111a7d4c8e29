//! PHP: `const` declarations and calls of `define`.

use vstd::prelude::*;

use crate::items::{constant_at, new_constant};
use crate::lists::{emit, group_lists};
use crate::nodes::field_txt;
use crate::text::{own, strip, stripped};
use crate::tree::{group_tree, same, Node};
use crate::types::{Field, FieldInfo};
use crate::walk::{fold, folded, pick_all, pick_into, picked, Fold, Picker};

verus! {

broadcast use {group_tree, group_lists};

/// The name, the value, and whether the `=` between them was passed.
pub struct Element;

impl Fold for Element {
    type State = (Option<String>, Option<String>, bool);

    open spec fn step(
        &self,
        s: (Option<Seq<char>>, Option<Seq<char>>, bool),
        c: Node<'_>,
    ) -> (Option<Seq<char>>, Option<Seq<char>>, bool) {
        if c.isa("name") {
            (Some(c.txt()), s.1, s.2)
        } else if c.isa("=") {
            (s.0, s.1, true)
        } else if s.2 && s.1 is None {
            (s.0, Some(c.txt()), s.2)
        } else {
            s
        }
    }

    fn next(&self, s: (Option<String>, Option<String>, bool), c: Node<'_>) -> (res: (
        Option<String>,
        Option<String>,
        bool,
    )) {
        let ghost before = s.deep_view();
        let (name, value, seen) = s;
        assert(before == (name.deep_view(), value.deep_view(), seen));
        if c.is("name") {
            (Some(own(c.text())), value, seen)
        } else if c.is("=") {
            (name, value, true)
        } else if seen && value.is_none() {
            (name, Some(own(c.text())), seen)
        } else {
            (name, value, seen)
        }
    }
}

/// The constants of a `const` declaration.
pub struct Elements<'b> {
    pub declaration: Node<'b>,
}

impl<'b> Picker for Elements<'b> {
    type Item = FieldInfo;

    open spec fn picks(&self, c: Node<'_>) -> Seq<Field> {
        let parts = folded(&Element, (None, None, false), c);
        match parts.0 {
            Some(name) if c.isa("const_element") => seq![
                constant_at(name, self.declaration, None, parts.1),
            ],
            _ => Seq::empty(),
        }
    }

    fn pick(&self, c: Node<'_>, out: &mut Vec<FieldInfo>) {
        if !c.is("const_element") {
            return;
        }
        let start: (Option<String>, Option<String>, bool) = (None, None, false);
        assert(start.deep_view() == (None::<Seq<char>>, None::<Seq<char>>, false));
        let parts = fold(&Element, start, c);
        assert(parts.deep_view() == (parts.0.deep_view(), parts.1.deep_view(), parts.2));
        match parts.0 {
            Some(name) => emit(out, new_constant(name, &self.declaration, None, parts.1)),
            None => {},
        }
    }
}

/// The arguments of a call.
pub struct Arguments;

impl Picker for Arguments {
    type Item = String;

    open spec fn picks(&self, c: Node<'_>) -> Seq<Seq<char>> {
        if c.isa("argument") {
            seq![c.txt()]
        } else {
            Seq::empty()
        }
    }

    fn pick(&self, c: Node<'_>, out: &mut Vec<String>) {
        if c.is("argument") {
            emit(out, own(c.text()));
        }
    }
}

/// The constant that `define(name, value)` makes.
pub open spec fn defined_constant(args: Node<'_>, statement: Node<'_>) -> Seq<Field> {
    let texts = picked(&Arguments, args);
    if texts.len() > 0 && stripped(texts[0], "'\""@).len() > 0 {
        seq![
            constant_at(
                stripped(texts[0], "'\""@),
                statement,
                None,
                if texts.len() > 1 {
                    Some(texts[1])
                } else {
                    None
                },
            ),
        ]
    } else {
        Seq::empty()
    }
}

/// The constant that `define(name, value)` makes.
pub fn extract_php_define_call(args: &Node<'_>, out: &mut Vec<FieldInfo>, statement: &Node<'_>)
    ensures
        final(out).deep_view() == old(out).deep_view() + defined_constant(*args, *statement),
{
    let texts = pick_all(&Arguments, *args);
    if texts.len() == 0 {
        return;
    }
    assert(texts.deep_view()[0] == texts@[0]@);
    let name = own(strip(texts[0].as_str(), "'\""));
    if name.as_str().is_empty() {
        return;
    }
    let value = if texts.len() > 1 {
        assert(texts.deep_view()[1] == texts@[1]@);
        Some(texts[1].clone())
    } else {
        None
    };
    emit(out, new_constant(name, statement, None, value));
}

/// The calls of `define` in a statement.
pub struct Defines<'b> {
    pub statement: Node<'b>,
}

impl<'b> Picker for Defines<'b> {
    type Item = FieldInfo;

    open spec fn picks(&self, c: Node<'_>) -> Seq<Field> {
        match c.at("arguments") {
            Some(args) if c.isa("function_call_expression") && field_txt(c, "function") == Some(
                "define"@,
            ) => defined_constant(args, self.statement),
            _ => Seq::empty(),
        }
    }

    fn pick(&self, c: Node<'_>, out: &mut Vec<FieldInfo>) {
        if !c.is("function_call_expression") {
            return;
        }
        match c.child_by_field_name("function") {
            Some(f) => {
                if same(f.text(), "define") {
                    match c.child_by_field_name("arguments") {
                        Some(args) => extract_php_define_call(&args, out, &self.statement),
                        None => {},
                    }
                }
            },
            None => {},
        }
    }
}

/// The constants of a file.
pub struct Constants;

impl Picker for Constants {
    type Item = FieldInfo;

    open spec fn picks(&self, c: Node<'_>) -> Seq<Field> {
        if c.isa("const_declaration") {
            picked(&Elements { declaration: c }, c)
        } else if c.isa("expression_statement") {
            picked(&Defines { statement: c }, c)
        } else {
            Seq::empty()
        }
    }

    fn pick(&self, c: Node<'_>, out: &mut Vec<FieldInfo>) {
        if c.is("const_declaration") {
            pick_into(&Elements { declaration: c }, c, out);
        } else if c.is("expression_statement") {
            pick_into(&Defines { statement: c }, c, out);
        }
    }
}

} // verus!
