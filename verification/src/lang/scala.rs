//! Scala: functions, classes, objects and traits.

use vstd::prelude::*;

use crate::items::{class_at, function_at, new_class, new_function};
use crate::lists::{emit, group_lists, push_some, some_seq};
use crate::nodes::{first, or_empty, text_of_child, txt_of};
use crate::spans::{decl_keyword_line_from_node, declaration_line};
use crate::text::{begins, own, starts_with};
use crate::tree::{group_tree, same, Node};
use crate::types::{Class, ClassInfo, Function, FunctionInfo};
use crate::walk::{
    gather_into, gathered, inside, is_inside, past, pick_all, pick_into, picked, skip_back, Picker,
    Test, Walker,
};

verus! {

broadcast use {group_tree, group_lists};

/// Nodes that hold the members of a class.
pub struct ClassNode;

impl Test for ClassNode {
    open spec fn accepts(&self, c: Node<'_>) -> bool {
        c.isa("class_definition") || c.isa("object_definition") || c.isa("trait_definition")
            || c.isa("template_body")
    }

    fn test(&self, c: Node<'_>) -> (res: bool) {
        c.is("class_definition") || c.is("object_definition") || c.is("trait_definition") || c.is(
            "template_body",
        )
    }
}

/// The name of a definition: that in its name field, or its first identifier.
pub open spec fn defined_name(n: Node<'_>) -> Seq<char> {
    match n.at("name") {
        Some(name) => name.txt(),
        None => or_empty(txt_of(first(n, "identifier"))),
    }
}

fn find_defined_name(n: &Node<'_>) -> (res: String)
    ensures
        res@ == defined_name(*n),
{
    match n.child_by_field_name("name") {
        Some(name) => own(name.text()),
        None => match text_of_child(n, "identifier") {
            Some(name) => name,
            None => String::new(),
        },
    }
}

/// The name of a parameter.
pub open spec fn param_name(n: Node<'_>) -> Option<Seq<char>> {
    match n.at("name") {
        Some(name) => Some(name.txt()),
        None => txt_of(first(n, "identifier")),
    }
}

/// The parameters in a parameter list, and in the lists inside of it.
pub struct ListedParams;

impl Walker for ListedParams {
    type Item = String;

    open spec fn yields(&self, c: Node<'_>) -> Seq<Seq<char>> {
        if c.isa("class_parameter") || c.isa("parameter") {
            some_seq(param_name(c))
        } else {
            Seq::empty()
        }
    }

    open spec fn enters<'a>(&self, c: Node<'a>) -> Option<Node<'a>> {
        if c.isa("class_parameter") || c.isa("parameter") {
            None
        } else if c.isa("parameters") || c.isa("class_parameters") {
            Some(c)
        } else {
            None
        }
    }

    fn visit<'a>(&self, c: Node<'a>, out: &mut Vec<String>) -> (res: Option<Node<'a>>) {
        if c.is("class_parameter") || c.is("parameter") {
            match c.child_by_field_name("name") {
                Some(name) => emit(out, own(name.text())),
                None => push_some(out, text_of_child(&c, "identifier")),
            }
            None
        } else if c.is("parameters") || c.is("class_parameters") {
            Some(c)
        } else {
            None
        }
    }
}

/// The parameters in the parameter lists of a function.
pub struct Params;

impl Picker for Params {
    type Item = String;

    open spec fn picks(&self, c: Node<'_>) -> Seq<Seq<char>> {
        if c.isa("parameters") || c.isa("class_parameters") {
            gathered(&ListedParams, c)
        } else {
            Seq::empty()
        }
    }

    fn pick(&self, c: Node<'_>, out: &mut Vec<String>) {
        if c.is("parameters") || c.is("class_parameters") {
            gather_into(&ListedParams, c, out);
        }
    }
}

/// The parameters of a function. Its type parameters are not among them.
pub fn extract_scala_params(n: &Node<'_>) -> (res: Vec<String>)
    ensures
        res.deep_view() == picked(&Params, *n),
{
    pick_all(&Params, *n)
}

/// Types.
pub struct TypeNode;

impl Test for TypeNode {
    open spec fn accepts(&self, c: Node<'_>) -> bool {
        c.isa("type_identifier") || c.isa("generic_type") || c.isa("compound_type") || c.isa(
            "infix_type",
        ) || c.isa("tuple_type") || c.isa("function_type") || c.isa("parametrized_type") || c.isa(
            "stable_type_identifier",
        )
    }

    fn test(&self, c: Node<'_>) -> (res: bool) {
        c.is("type_identifier") || c.is("generic_type") || c.is("compound_type") || c.is(
            "infix_type",
        ) || c.is("tuple_type") || c.is("function_type") || c.is("parametrized_type") || c.is(
            "stable_type_identifier",
        )
    }
}

/// What stands behind a `:`, unless the body begins there, looked for from
/// child `i` on; `colon` says whether the `:` was passed.
pub open spec fn return_type_from(n: Node<'_>, i: int, colon: bool) -> Option<Seq<char>>
    decreases n.arity() - i,
{
    if i < 0 || i >= n.arity() {
        None
    } else {
        let c = n.kid(i);
        if c.txt() == ":"@ {
            return_type_from(n, i + 1, true)
        } else if !colon {
            return_type_from(n, i + 1, colon)
        } else if c.txt() == "="@ || c.txt() == "{"@ {
            None
        } else if TypeNode.accepts(c) || c.txt().len() > 0 {
            Some(c.txt())
        } else {
            None
        }
    }
}

/// The return type of a function.
pub fn extract_scala_return_type(n: &Node<'_>) -> (res: Option<String>)
    ensures
        res.deep_view() == return_type_from(*n, 0, false),
{
    let count: usize = n.child_count();
    let mut colon = false;
    let mut i: usize = 0;
    while i < count
        invariant
            count == n.arity(),
            i <= count,
            return_type_from(*n, 0, false) == return_type_from(*n, i as int, colon),
        decreases count - i,
    {
        let c = n.child(i);
        let text: &str = c.text();
        if same(text, ":") {
            colon = true;
        } else if colon {
            if same(text, "=") || same(text, "{") {
                return None;
            }
            if TypeNode.test(c) || !text.is_empty() {
                return Some(own(text));
            }
            return None;
        }
        i += 1;
    }
    None
}

/// What can stand between a doc comment and its definition.
pub struct Modifier;

impl Test for Modifier {
    open spec fn accepts(&self, c: Node<'_>) -> bool {
        c.isa("annotation") || c.isa("modifiers")
    }

    fn test(&self, c: Node<'_>) -> (res: bool) {
        c.is("annotation") || c.is("modifiers")
    }
}

/// The doc comment of a definition, as written.
pub open spec fn docstring(n: Node<'_>) -> Option<Seq<char>> {
    match past(&Modifier, n.left()) {
        Some(c) if (c.isa("comment") || c.isa("block_comment")) && begins(c.txt(), "/**"@) => Some(
            c.txt(),
        ),
        _ => None,
    }
}

/// The doc comment of a definition, as written.
pub fn extract_scala_docstring(n: &Node<'_>) -> (res: Option<String>)
    ensures
        res.deep_view() == docstring(*n),
{
    match skip_back(&Modifier, n) {
        Some(c) => if (c.is("comment") || c.is("block_comment")) && starts_with(c.text(), "/**") {
            Some(own(c.text()))
        } else {
            None
        },
        None => None,
    }
}

/// What is reported of a function.
pub open spec fn function_info(n: Node<'_>, is_method: bool) -> Function {
    Function {
        params: picked(&Params, n),
        return_type: return_type_from(n, 0, false),
        docstring: docstring(n),
        is_method,
        line_number: declaration_line(n),
        ..function_at(defined_name(n), n)
    }
}

/// What is reported of a function.
pub fn extract_scala_function_info(n: &Node<'_>, is_method: bool) -> (res: FunctionInfo)
    ensures
        res.deep_view() == function_info(*n, is_method),
{
    let mut info = new_function(find_defined_name(n), n);
    info.params = extract_scala_params(n);
    info.return_type = extract_scala_return_type(n);
    info.docstring = extract_scala_docstring(n);
    info.is_method = is_method;
    info.line_number = decl_keyword_line_from_node(n);
    info
}

/// The functions of a file outside of classes, objects and traits.
pub struct Functions;

impl Walker for Functions {
    type Item = FunctionInfo;

    open spec fn yields(&self, c: Node<'_>) -> Seq<Function> {
        if (c.isa("function_definition") || c.isa("function_declaration")) && !inside(
            &ClassNode,
            c,
        ) {
            seq![function_info(c, false)]
        } else {
            Seq::empty()
        }
    }

    open spec fn enters<'a>(&self, c: Node<'a>) -> Option<Node<'a>> {
        if c.isa("function_definition") || c.isa("function_declaration") || c.isa(
            "class_definition",
        ) || c.isa("object_definition") || c.isa("trait_definition") {
            None
        } else {
            Some(c)
        }
    }

    fn visit<'a>(&self, c: Node<'a>, out: &mut Vec<FunctionInfo>) -> (res: Option<Node<'a>>) {
        if c.is("function_definition") || c.is("function_declaration") {
            if !is_inside(&ClassNode, &c) {
                emit(out, extract_scala_function_info(&c, false));
            }
            None
        } else if c.is("class_definition") || c.is("object_definition") || c.is(
            "trait_definition",
        ) {
            None
        } else {
            Some(c)
        }
    }
}

/// The methods of a template body.
pub struct BodyMethods;

impl Picker for BodyMethods {
    type Item = FunctionInfo;

    open spec fn picks(&self, c: Node<'_>) -> Seq<Function> {
        if c.isa("function_definition") || c.isa("function_declaration") {
            seq![function_info(c, true)]
        } else {
            Seq::empty()
        }
    }

    fn pick(&self, c: Node<'_>, out: &mut Vec<FunctionInfo>) {
        if c.is("function_definition") || c.is("function_declaration") {
            emit(out, extract_scala_function_info(&c, true));
        }
    }
}

/// The methods of the bodies of a class, object or trait.
pub struct Methods;

impl Picker for Methods {
    type Item = FunctionInfo;

    open spec fn picks(&self, c: Node<'_>) -> Seq<Function> {
        if c.isa("template_body") || c.isa("body") {
            picked(&BodyMethods, c)
        } else {
            Seq::empty()
        }
    }

    fn pick(&self, c: Node<'_>, out: &mut Vec<FunctionInfo>) {
        if c.is("template_body") || c.is("body") {
            pick_into(&BodyMethods, c, out);
        }
    }
}

/// The types in an extends clause.
pub struct ClauseTypes;

impl Picker for ClauseTypes {
    type Item = String;

    open spec fn picks(&self, c: Node<'_>) -> Seq<Seq<char>> {
        if c.isa("type_identifier") || c.isa("generic_type") || c.isa("stable_type_identifier") {
            seq![c.txt()]
        } else {
            Seq::empty()
        }
    }

    fn pick(&self, c: Node<'_>, out: &mut Vec<String>) {
        if c.is("type_identifier") || c.is("generic_type") || c.is("stable_type_identifier") {
            emit(out, own(c.text()));
        }
    }
}

/// The types that a class, object or trait extends.
pub struct Bases;

impl Picker for Bases {
    type Item = String;

    open spec fn picks(&self, c: Node<'_>) -> Seq<Seq<char>> {
        if c.isa("extends_clause") {
            picked(&ClauseTypes, c)
        } else {
            Seq::empty()
        }
    }

    fn pick(&self, c: Node<'_>, out: &mut Vec<String>) {
        if c.is("extends_clause") {
            pick_into(&ClauseTypes, c, out);
        }
    }
}

/// What is reported of a class, object or trait.
pub open spec fn class_info(n: Node<'_>) -> Class {
    Class {
        bases: picked(&Bases, n),
        docstring: docstring(n),
        methods: picked(&Methods, n),
        line_number: declaration_line(n),
        ..class_at(defined_name(n), n)
    }
}

/// What is reported of a class, object or trait.
pub fn extract_scala_class_info(n: &Node<'_>) -> (res: ClassInfo)
    ensures
        res.deep_view() == class_info(*n),
{
    let mut info = new_class(find_defined_name(n), n);
    info.bases = pick_all(&Bases, *n);
    info.docstring = extract_scala_docstring(n);
    info.methods = pick_all(&Methods, *n);
    info.line_number = decl_keyword_line_from_node(n);
    info
}

/// All classes, objects and traits of a file, but for those inside of others.
pub struct Classes;

impl Walker for Classes {
    type Item = ClassInfo;

    open spec fn yields(&self, c: Node<'_>) -> Seq<Class> {
        if c.isa("class_definition") || c.isa("object_definition") || c.isa("trait_definition") {
            seq![class_info(c)]
        } else {
            Seq::empty()
        }
    }

    open spec fn enters<'a>(&self, c: Node<'a>) -> Option<Node<'a>> {
        if c.isa("class_definition") || c.isa("object_definition") || c.isa("trait_definition") {
            None
        } else {
            Some(c)
        }
    }

    fn visit<'a>(&self, c: Node<'a>, out: &mut Vec<ClassInfo>) -> (res: Option<Node<'a>>) {
        if c.is("class_definition") || c.is("object_definition") || c.is("trait_definition") {
            emit(out, extract_scala_class_info(&c));
            None
        } else {
            Some(c)
        }
    }
}

} // verus!
