//! OCaml: `let` bindings that define functions.

use vstd::prelude::*;

use crate::items::{function_at, new_function};
use crate::lists::{emit, group_lists, push_some, some_seq};
use crate::nodes::{field_text_or_empty, field_txt, or_empty, txt_of};
use crate::text::{
    ahead, begins, behind, own, starts_with, strip_prefix, strip_suffix, trim, trimmed,
};
use crate::tree::{group_tree, Node};
use crate::types::{Function, FunctionInfo};
use crate::walk::{find_child, found, pick_all, pick_into, picked, Picker, Test, Walker};

verus! {

broadcast use {group_tree, group_lists};

/// What makes a binding a function: a parameter, or a function as its value.
pub struct MakesFunction;

impl Test for MakesFunction {
    open spec fn accepts(&self, c: Node<'_>) -> bool {
        c.isa("parameter") || c.isa("function_expression") || c.isa("fun_expression")
    }

    fn test(&self, c: Node<'_>) -> (res: bool) {
        c.is("parameter") || c.is("function_expression") || c.is("fun_expression")
    }
}

/// Whether a binding defines a function.
pub open spec fn is_function(n: Node<'_>) -> bool {
    found(&MakesFunction, n) is Some
}

/// Whether a binding defines a function.
pub fn ocaml_binding_has_params(n: &Node<'_>) -> (res: bool)
    ensures
        res == is_function(*n),
{
    find_child(&MakesFunction, *n).is_some()
}

/// Names and patterns of names.
pub struct ValueName;

impl Test for ValueName {
    open spec fn accepts(&self, c: Node<'_>) -> bool {
        c.isa("value_pattern") || c.isa("value_name")
    }

    fn test(&self, c: Node<'_>) -> (res: bool) {
        c.is("value_pattern") || c.is("value_name")
    }
}

fn value_name_text(n: &Node<'_>) -> (res: Option<String>)
    ensures
        res.deep_view() == txt_of(found(&ValueName, *n)),
{
    match find_child(&ValueName, *n) {
        Some(c) => Some(own(c.text())),
        None => None,
    }
}

/// The name of a parameter, or its pattern as written.
pub open spec fn param_name(n: Node<'_>) -> Option<Seq<char>> {
    match n.at("pattern") {
        Some(pattern) => if pattern.isa("typed_pattern") {
            match pattern.at("pattern") {
                Some(inner) => Some(inner.txt()),
                None => txt_of(found(&ValueName, pattern)),
            }
        } else {
            Some(pattern.txt())
        },
        None => txt_of(found(&ValueName, n)),
    }
}

fn extract_param_name(n: &Node<'_>) -> (res: Option<String>)
    ensures
        res.deep_view() == param_name(*n),
{
    match n.child_by_field_name("pattern") {
        Some(pattern) => if pattern.is("typed_pattern") {
            match pattern.child_by_field_name("pattern") {
                Some(inner) => Some(own(inner.text())),
                None => value_name_text(&pattern),
            }
        } else {
            Some(own(pattern.text()))
        },
        None => value_name_text(n),
    }
}

/// The parameters of a binding.
pub struct Params;

impl Picker for Params {
    type Item = String;

    open spec fn picks(&self, c: Node<'_>) -> Seq<Seq<char>> {
        if c.isa("parameter") {
            some_seq(param_name(c))
        } else {
            Seq::empty()
        }
    }

    fn pick(&self, c: Node<'_>, out: &mut Vec<String>) {
        if c.is("parameter") {
            push_some(out, extract_param_name(&c));
        }
    }
}

/// The parameters of a binding.
pub fn extract_ocaml_params(n: &Node<'_>) -> (res: Vec<String>)
    ensures
        res.deep_view() == picked(&Params, *n),
{
    pick_all(&Params, *n)
}

/// The type behind a `:` that follows the parameters and precedes the `=`,
/// looked for from child `i` on; `colon` says whether the `:` was just passed.
pub open spec fn return_type_from(n: Node<'_>, i: int, colon: bool) -> Option<Seq<char>>
    decreases n.arity() - i,
{
    if i < 0 || i >= n.arity() {
        None
    } else {
        let c = n.kid(i);
        if c.isa("parameter") {
            return_type_from(n, i + 1, false)
        } else if c.isa(":") {
            return_type_from(n, i + 1, true)
        } else if c.isa("=") {
            None
        } else if colon && trimmed(c.txt()).len() > 0 {
            Some(trimmed(c.txt()))
        } else {
            return_type_from(n, i + 1, false)
        }
    }
}

/// The return type of a binding.
pub fn extract_ocaml_return_type(n: &Node<'_>) -> (res: Option<String>)
    ensures
        res.deep_view() == return_type_from(*n, 0, false),
{
    let count: usize = n.child_count();
    let mut colon = false;
    let mut i: usize = 0;
    while i < count
        invariant
            count == n.arity(),
            i <= count,
            return_type_from(*n, 0, false) == return_type_from(*n, i as int, colon),
        decreases count - i,
    {
        let c = n.child(i);
        if c.is("parameter") {
            colon = false;
        } else if c.is(":") {
            colon = true;
        } else if c.is("=") {
            return None;
        } else {
            if colon {
                let text: &str = trim(c.text());
                if !text.is_empty() {
                    return Some(own(text));
                }
            }
            colon = false;
        }
        i += 1;
    }
    None
}

/// The text of a doc comment.
pub open spec fn doc_text(comment: Seq<char>) -> Seq<char> {
    match behind(comment, "(**"@) {
        Some(rest) => match ahead(rest, "*)"@) {
            Some(inner) => trimmed(inner),
            None => trimmed(comment),
        },
        None => trimmed(comment),
    }
}

/// The doc comment at or before a node, with only comments between them.
pub open spec fn doc_at(n: Option<Node<'_>>) -> Option<Seq<char>>
    decreases
            match n {
                Some(c) => c.index() + 1,
                None => 0,
            },
{
    match n {
        Some(c) if c.isa("comment") => if begins(trimmed(c.txt()), "(**"@) {
            Some(doc_text(trimmed(c.txt())))
        } else {
            doc_at(c.left())
        },
        _ => None,
    }
}

/// The doc comment before a definition.
pub fn extract_ocaml_docstring_before(n: &Node<'_>) -> (res: Option<String>)
    ensures
        res.deep_view() == doc_at(n.left()),
{
    let mut prev: Option<Node<'_>> = n.prev_sibling();
    loop
        invariant
            doc_at(n.left()) == doc_at(prev),
        decreases
                match prev {
                    Some(c) => c.index() + 1,
                    None => 0,
                },
    {
        match prev {
            Some(c) => {
                if !c.is("comment") {
                    return None;
                }
                let comment: &str = trim(c.text());
                if starts_with(comment, "(**") {
                    let text = match strip_prefix(comment, "(**") {
                        Some(rest) => match strip_suffix(rest, "*)") {
                            Some(inner) => own(trim(inner)),
                            None => own(trim(comment)),
                        },
                        None => own(trim(comment)),
                    };
                    return Some(text);
                }
                prev = c.prev_sibling();
            },
            None => return None,
        }
    }
}

/// What is reported of a function that a definition binds.
pub open spec fn function_info(binding: Node<'_>, definition: Node<'_>) -> Function {
    Function {
        params: picked(&Params, binding),
        return_type: return_type_from(binding, 0, false),
        docstring: doc_at(definition.left()),
        ..function_at(or_empty(field_txt(binding, "pattern")), definition)
    }
}

fn extract_ocaml_function_info(binding: &Node<'_>, definition: &Node<'_>) -> (res: FunctionInfo)
    ensures
        res.deep_view() == function_info(*binding, *definition),
{
    let mut info = new_function(field_text_or_empty(binding, "pattern"), definition);
    info.params = extract_ocaml_params(binding);
    info.return_type = extract_ocaml_return_type(binding);
    info.docstring = extract_ocaml_docstring_before(definition);
    info
}

/// The functions that a definition binds.
pub struct Bound<'b> {
    pub definition: Node<'b>,
}

impl<'b> Picker for Bound<'b> {
    type Item = FunctionInfo;

    open spec fn picks(&self, c: Node<'_>) -> Seq<Function> {
        if c.isa("let_binding") && is_function(c) {
            seq![function_info(c, self.definition)]
        } else {
            Seq::empty()
        }
    }

    fn pick(&self, c: Node<'_>, out: &mut Vec<FunctionInfo>) {
        if c.is("let_binding") && ocaml_binding_has_params(&c) {
            emit(out, extract_ocaml_function_info(&c, &self.definition));
        }
    }
}

/// Whether a definition belongs to a `let .. in` expression.
pub open spec fn is_let_in(n: Node<'_>) -> bool {
    n.up() matches Some(p) && p.isa("let_expression")
}

/// All functions of a file, but for those of `let .. in` expressions.
pub struct Functions;

impl Walker for Functions {
    type Item = FunctionInfo;

    open spec fn yields(&self, c: Node<'_>) -> Seq<Function> {
        if c.isa("value_definition") && !is_let_in(c) {
            picked(&Bound { definition: c }, c)
        } else {
            Seq::empty()
        }
    }

    open spec fn enters<'a>(&self, c: Node<'a>) -> Option<Node<'a>> {
        Some(c)
    }

    fn visit<'a>(&self, c: Node<'a>, out: &mut Vec<FunctionInfo>) -> (res: Option<Node<'a>>) {
        if c.is("value_definition") {
            let let_in = match c.parent() {
                Some(p) => p.is("let_expression"),
                None => false,
            };
            if !let_in {
                pick_into(&Bound { definition: c }, c, out);
            }
        }
        Some(c)
    }
}

} // verus!
