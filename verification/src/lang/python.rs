//! Python: functions, classes, and the fields that a class has.

use vstd::prelude::*;

use crate::items::{
    class_at, field_at, function_at, new_class, new_field, new_function,
};
use crate::lists::{emit, group_lists, none, push_some, some_seq};
use crate::names::{
    is_constant_name, is_upper_case_name, underscore_visibility, visibility_by_underscore,
};
use crate::nodes::{
    field_text, field_text_or_empty, field_txt, or_empty, string_content, text_of_child, txt_of,
    unquoted, first,
};
use crate::text::{begins, own, starts_with, strip_front, stripped_front};
use crate::tree::{group_tree, same, Node};
use crate::types::{Class, ClassInfo, Field, FieldInfo, Function, FunctionInfo};
use crate::walk::{
    gather, gather_into, gathered, inside, is_inside, pick_all, picked, Picker, Test, Walker,
};

verus! {

broadcast use {group_tree, group_lists};

/// Nodes that hold the members of a class.
pub struct ClassNode;

impl Test for ClassNode {
    open spec fn accepts(&self, c: Node<'_>) -> bool {
        c.isa("class_definition") || c.isa("class_declaration") || c.isa("class") || c.isa(
            "class_body",
        )
    }

    fn test(&self, c: Node<'_>) -> (res: bool) {
        c.is("class_definition") || c.is("class_declaration") || c.is("class") || c.is("class_body")
    }
}

/// The parameters in a parameter list.
pub struct Params;

impl Picker for Params {
    type Item = String;

    open spec fn picks(&self, c: Node<'_>) -> Seq<Seq<char>> {
        if c.isa("identifier") {
            seq![c.txt()]
        } else if c.isa("typed_parameter") || c.isa("default_parameter") || c.isa(
            "typed_default_parameter",
        ) {
            some_seq(txt_of(first(c, "identifier")))
        } else if c.isa("list_splat_pattern") || c.isa("dictionary_splat_pattern") {
            seq![c.txt()]
        } else {
            Seq::empty()
        }
    }

    fn pick(&self, c: Node<'_>, out: &mut Vec<String>) {
        if c.is("identifier") {
            emit(out, own(c.text()));
        } else if c.is("typed_parameter") || c.is("default_parameter") || c.is(
            "typed_default_parameter",
        ) {
            push_some(out, text_of_child(&c, "identifier"));
        } else if c.is("list_splat_pattern") || c.is("dictionary_splat_pattern") {
            emit(out, own(c.text()));
        }
    }
}

/// The parameters of a function.
pub open spec fn params(n: Node<'_>) -> Seq<Seq<char>> {
    match n.at("parameters") {
        Some(list) => picked(&Params, list),
        None => Seq::empty(),
    }
}

/// The parameters of a function.
pub fn extract_python_params(n: &Node<'_>) -> (res: Vec<String>)
    ensures
        res.deep_view() == params(*n),
{
    match n.child_by_field_name("parameters") {
        Some(list) => pick_all(&Params, list),
        None => none(),
    }
}

/// The string that a statement consists of.
pub open spec fn string_statement(n: Node<'_>) -> Option<Seq<char>> {
    if n.isa("expression_statement") && n.arity() > 0 && n.kid(0).isa("string") {
        Some(unquoted(n.kid(0).txt()))
    } else {
        None
    }
}

/// The string that a statement consists of.
pub fn read_string_statement(n: &Node<'_>) -> (res: Option<String>)
    ensures
        res.deep_view() == string_statement(*n),
{
    if n.is("expression_statement") {
        match n.get_child(0) {
            Some(e) => if e.is("string") {
                Some(string_content(&e))
            } else {
                None
            },
            None => None,
        }
    } else {
        None
    }
}

/// The docstring of a function or class: a string at the front of its body.
pub open spec fn docstring(n: Node<'_>) -> Option<Seq<char>> {
    match n.at("body") {
        Some(body) if body.arity() > 0 => string_statement(body.kid(0)),
        _ => None,
    }
}

/// The docstring of a function or class.
pub fn extract_python_docstring(n: &Node<'_>) -> (res: Option<String>)
    ensures
        res.deep_view() == docstring(*n),
{
    match n.child_by_field_name("body") {
        Some(body) => match body.get_child(0) {
            Some(statement) => read_string_statement(&statement),
            None => None,
        },
        None => None,
    }
}

/// The decorators of a definition, without their `@`.
pub struct Decorators;

impl Picker for Decorators {
    type Item = String;

    open spec fn picks(&self, c: Node<'_>) -> Seq<Seq<char>> {
        if c.isa("decorator") {
            seq![stripped_front(c.txt(), "@"@)]
        } else {
            Seq::empty()
        }
    }

    fn pick(&self, c: Node<'_>, out: &mut Vec<String>) {
        if c.is("decorator") {
            emit(out, own(strip_front(c.text(), "@")));
        }
    }
}

/// Whether a function is asynchronous.
pub open spec fn is_async(n: Node<'_>) -> bool {
    (n.left() matches Some(p) && p.isa("async")) || begins(n.txt(), "async"@)
}

/// What is reported of a function definition.
pub open spec fn function_info(n: Node<'_>, is_method: bool) -> Function {
    Function {
        params: params(n),
        return_type: field_txt(n, "return_type"),
        docstring: docstring(n),
        is_method,
        is_async: is_async(n),
        ..function_at(or_empty(field_txt(n, "name")), n)
    }
}

/// What is reported of a function definition.
pub fn extract_python_function_info(n: &Node<'_>, is_method: bool) -> (res: FunctionInfo)
    ensures
        res.deep_view() == function_info(*n, is_method),
{
    let before_async = match n.prev_sibling() {
        Some(p) => p.is("async"),
        None => false,
    };
    let mut info = new_function(field_text_or_empty(n, "name"), n);
    info.params = extract_python_params(n);
    info.return_type = field_text(n, "return_type");
    info.docstring = extract_python_docstring(n);
    info.is_method = is_method;
    info.is_async = before_async || starts_with(n.text(), "async");
    info
}

/// The functions outside of classes, or the methods of a class body.
pub struct Functions {
    pub is_method: bool,
}

impl Walker for Functions {
    type Item = FunctionInfo;

    open spec fn yields(&self, c: Node<'_>) -> Seq<Function> {
        let in_class = inside(&ClassNode, c);
        if c.isa("function_definition") {
            if in_class == self.is_method {
                seq![function_info(c, in_class)]
            } else {
                Seq::empty()
            }
        } else if c.isa("decorated_definition") {
            match c.at("definition") {
                Some(def) if def.isa("function_definition") && in_class == self.is_method => seq![
                    Function { decorators: picked(&Decorators, c), ..function_info(def, in_class) },
                ],
                _ => Seq::empty(),
            }
        } else {
            Seq::empty()
        }
    }

    open spec fn enters<'a>(&self, c: Node<'a>) -> Option<Node<'a>> {
        if c.isa("function_definition") || c.isa("decorated_definition") {
            None
        } else if c.isa("class_definition") {
            if self.is_method {
                c.at("body")
            } else {
                None
            }
        } else if self.is_method {
            None
        } else {
            Some(c)
        }
    }

    fn visit<'a>(&self, c: Node<'a>, out: &mut Vec<FunctionInfo>) -> (res: Option<Node<'a>>) {
        if c.is("function_definition") {
            let in_class = is_inside(&ClassNode, &c);
            if in_class == self.is_method {
                emit(out, extract_python_function_info(&c, in_class));
            }
            None
        } else if c.is("decorated_definition") {
            match c.child_by_field_name("definition") {
                Some(def) => {
                    let in_class = is_inside(&ClassNode, &c);
                    if def.is("function_definition") && in_class == self.is_method {
                        let mut info = extract_python_function_info(&def, in_class);
                        info.decorators = pick_all(&Decorators, c);
                        emit(out, info);
                    }
                },
                None => {},
            }
            None
        } else if c.is("class_definition") {
            if self.is_method {
                c.child_by_field_name("body")
            } else {
                None
            }
        } else if self.is_method {
            None
        } else {
            Some(c)
        }
    }
}

/// The classes that a class definition names as its bases.
pub struct Bases;

impl Picker for Bases {
    type Item = String;

    open spec fn picks(&self, c: Node<'_>) -> Seq<Seq<char>> {
        if c.isa("identifier") || c.isa("attribute") {
            seq![c.txt()]
        } else {
            Seq::empty()
        }
    }

    fn pick(&self, c: Node<'_>, out: &mut Vec<String>) {
        if c.is("identifier") || c.is("attribute") {
            emit(out, own(c.text()));
        }
    }
}

/// The bases of a class.
pub open spec fn bases(n: Node<'_>) -> Seq<Seq<char>> {
    match n.at("superclasses") {
        Some(list) => picked(&Bases, list),
        None => Seq::empty(),
    }
}

fn extract_python_bases(n: &Node<'_>) -> (res: Vec<String>)
    ensures
        res.deep_view() == bases(*n),
{
    match n.child_by_field_name("superclasses") {
        Some(list) => pick_all(&Bases, list),
        None => none(),
    }
}

/// The field that an assignment to a plain name makes.
pub open spec fn assigned_field(n: Node<'_>, is_static: bool) -> Option<Field> {
    match n.at("left") {
        Some(left) if left.isa("identifier") => Some(
            Field {
                field_type: field_txt(n, "type"),
                default_value: field_txt(n, "right"),
                is_static,
                is_constant: is_constant_name(left.txt()),
                visibility: underscore_visibility(left.txt()),
                ..field_at(left.txt(), n)
            },
        ),
        _ => None,
    }
}

/// The field that an assignment to a plain name makes.
pub fn extract_python_field_from_assignment(n: &Node<'_>, is_static: bool) -> (res: Option<
    FieldInfo,
>)
    ensures
        res.deep_view() == assigned_field(*n, is_static),
{
    let left = match n.child_by_field_name("left") {
        Some(left) => left,
        None => return None,
    };
    if !left.is("identifier") {
        return None;
    }
    let mut info = new_field(own(left.text()), n);
    info.field_type = field_text(n, "type");
    info.default_value = field_text(n, "right");
    info.is_static = is_static;
    info.is_constant = is_upper_case_name(left.text());
    info.visibility = visibility_by_underscore(left.text());
    Some(info)
}

/// The field that an assignment to an attribute of `self` makes.
pub open spec fn self_field(n: Node<'_>) -> Option<Field> {
    match n.at("left") {
        Some(left) if left.isa("attribute") => match (left.at("object"), left.at("attribute")) {
            (Some(object), Some(attribute)) if object.txt() == "self"@ => Some(
                Field {
                    default_value: field_txt(n, "right"),
                    visibility: underscore_visibility(attribute.txt()),
                    ..field_at(attribute.txt(), n)
                },
            ),
            _ => None,
        },
        _ => None,
    }
}

fn extract_python_self_field(n: &Node<'_>) -> (res: Option<FieldInfo>)
    ensures
        res.deep_view() == self_field(*n),
{
    let left = match n.child_by_field_name("left") {
        Some(left) => left,
        None => return None,
    };
    if !left.is("attribute") {
        return None;
    }
    match (left.child_by_field_name("object"), left.child_by_field_name("attribute")) {
        (Some(object), Some(attribute)) => {
            if !same(object.text(), "self") {
                return None;
            }
            let mut info = new_field(own(attribute.text()), n);
            info.default_value = field_text(n, "right");
            info.visibility = visibility_by_underscore(attribute.text());
            Some(info)
        },
        _ => None,
    }
}

/// The fields that the statements of a method give to `self`.
pub struct SelfFields;

impl Walker for SelfFields {
    type Item = FieldInfo;

    open spec fn yields(&self, c: Node<'_>) -> Seq<Field> {
        if c.isa("expression_statement") && c.arity() > 0 && c.kid(0).isa("assignment") {
            some_seq(self_field(c.kid(0)))
        } else {
            Seq::empty()
        }
    }

    open spec fn enters<'a>(&self, c: Node<'a>) -> Option<Node<'a>> {
        Some(c)
    }

    fn visit<'a>(&self, c: Node<'a>, out: &mut Vec<FieldInfo>) -> (res: Option<Node<'a>>) {
        if c.is("expression_statement") {
            match c.get_child(0) {
                Some(inner) => {
                    if inner.is("assignment") {
                        push_some(out, extract_python_self_field(&inner));
                    }
                },
                None => {},
            }
        }
        Some(c)
    }
}

/// The function that a member of a class defines, with or without decorators.
pub open spec fn defined_function<'a>(c: Node<'a>) -> Option<Node<'a>> {
    let def = if c.isa("decorated_definition") {
        c.at("definition")
    } else {
        Some(c)
    };
    match def {
        Some(f) if f.isa("function_definition") => Some(f),
        _ => None,
    }
}

fn find_defined_function<'a>(c: Node<'a>) -> (res: Option<Node<'a>>)
    ensures
        res == defined_function(c),
{
    let def = if c.is("decorated_definition") {
        c.child_by_field_name("definition")
    } else {
        Some(c)
    };
    match def {
        Some(f) => if f.is("function_definition") {
            Some(f)
        } else {
            None
        },
        None => None,
    }
}

/// The fields that the members of a class body make: assignments, and what
/// `__init__` gives to `self`.
pub struct ClassFields;

impl Picker for ClassFields {
    type Item = FieldInfo;

    open spec fn picks(&self, c: Node<'_>) -> Seq<Field> {
        if c.isa("expression_statement") {
            if c.arity() > 0 && c.kid(0).isa("assignment") {
                some_seq(assigned_field(c.kid(0), true))
            } else {
                Seq::empty()
            }
        } else if c.isa("function_definition") || c.isa("decorated_definition") {
            match defined_function(c) {
                Some(f) if field_txt(f, "name") == Some("__init__"@) => match f.at("body") {
                    Some(body) => gathered(&SelfFields, body),
                    None => Seq::empty(),
                },
                _ => Seq::empty(),
            }
        } else {
            Seq::empty()
        }
    }

    fn pick(&self, c: Node<'_>, out: &mut Vec<FieldInfo>) {
        if c.is("expression_statement") {
            match c.get_child(0) {
                Some(inner) => {
                    if inner.is("assignment") {
                        push_some(out, extract_python_field_from_assignment(&inner, true));
                    }
                },
                None => {},
            }
        } else if c.is("function_definition") || c.is("decorated_definition") {
            match find_defined_function(c) {
                Some(f) => {
                    let is_init = match f.child_by_field_name("name") {
                        Some(name) => same(name.text(), "__init__"),
                        None => false,
                    };
                    if is_init {
                        match f.child_by_field_name("body") {
                            Some(body) => gather_into(&SelfFields, body, out),
                            None => {},
                        }
                    }
                },
                None => {},
            }
        }
    }
}

/// What is reported of a class definition.
pub open spec fn class_info(n: Node<'_>) -> Class {
    Class {
        bases: bases(n),
        docstring: docstring(n),
        methods: match n.at("body") {
            Some(body) => gathered(&Functions { is_method: true }, body),
            None => Seq::empty(),
        },
        fields: match n.at("body") {
            Some(body) => picked(&ClassFields, body),
            None => Seq::empty(),
        },
        ..class_at(or_empty(field_txt(n, "name")), n)
    }
}

/// What is reported of a class definition.
pub fn extract_python_class_info(n: &Node<'_>) -> (res: ClassInfo)
    ensures
        res.deep_view() == class_info(*n),
{
    let mut info = new_class(field_text_or_empty(n, "name"), n);
    info.bases = extract_python_bases(n);
    info.docstring = extract_python_docstring(n);
    match n.child_by_field_name("body") {
        Some(body) => {
            info.methods = gather(&Functions { is_method: true }, body);
            info.fields = pick_all(&ClassFields, body);
        },
        None => {},
    }
    info
}

/// All classes of a file, but for those inside of others.
pub struct Classes;

impl Walker for Classes {
    type Item = ClassInfo;

    open spec fn yields(&self, c: Node<'_>) -> Seq<Class> {
        if c.isa("class_definition") {
            seq![class_info(c)]
        } else if c.isa("decorated_definition") {
            match c.at("definition") {
                Some(def) if def.isa("class_definition") => seq![
                    Class { decorators: picked(&Decorators, c), ..class_info(def) },
                ],
                _ => Seq::empty(),
            }
        } else {
            Seq::empty()
        }
    }

    open spec fn enters<'a>(&self, c: Node<'a>) -> Option<Node<'a>> {
        if c.isa("class_definition") || c.isa("decorated_definition") {
            None
        } else {
            Some(c)
        }
    }

    fn visit<'a>(&self, c: Node<'a>, out: &mut Vec<ClassInfo>) -> (res: Option<Node<'a>>) {
        if c.is("class_definition") {
            emit(out, extract_python_class_info(&c));
            None
        } else if c.is("decorated_definition") {
            match c.child_by_field_name("definition") {
                Some(def) => {
                    if def.is("class_definition") {
                        let mut info = extract_python_class_info(&def);
                        info.decorators = pick_all(&Decorators, c);
                        emit(out, info);
                    }
                },
                None => {},
            }
            None
        } else {
            Some(c)
        }
    }
}

} // verus!
