//! PHP: functions, classes, interfaces and traits.

use vstd::prelude::*;

use crate::items::{class_at, function_at, new_class, new_function};
use crate::lists::{emit, group_lists, none, one, push_some, some_seq};
use crate::nodes::{field_text, field_text_or_empty, field_txt, or_empty};
use crate::text::{
    begins, contains, has, own, starts_with, strip_front, stripped_front, trim, trimmed,
};
use crate::tree::{group_tree, Node};
use crate::types::{Class, ClassInfo, Function, FunctionInfo};
use crate::walk::{pick_all, pick_into, picked, Picker, Test, Walker};

verus! {

broadcast use {group_tree, group_lists};

/// The parameters in a parameter list.
pub struct Params;

impl Picker for Params {
    type Item = String;

    open spec fn picks(&self, c: Node<'_>) -> Seq<Seq<char>> {
        if c.isa("simple_parameter") || c.isa("variadic_parameter") || c.isa(
            "property_promotion_parameter",
        ) {
            some_seq(field_txt(c, "name"))
        } else {
            Seq::empty()
        }
    }

    fn pick(&self, c: Node<'_>, out: &mut Vec<String>) {
        if c.is("simple_parameter") || c.is("variadic_parameter") || c.is(
            "property_promotion_parameter",
        ) {
            push_some(out, field_text(&c, "name"));
        }
    }
}

/// The parameters of a function.
pub open spec fn params(n: Node<'_>) -> Seq<Seq<char>> {
    match n.at("parameters") {
        Some(list) => picked(&Params, list),
        None => Seq::empty(),
    }
}

/// The parameters of a function.
pub fn extract_php_params(n: &Node<'_>) -> (res: Vec<String>)
    ensures
        res.deep_view() == params(*n),
{
    match n.child_by_field_name("parameters") {
        Some(list) => pick_all(&Params, list),
        None => none(),
    }
}

/// Types that can follow a `:`.
pub struct TypeNode;

impl Test for TypeNode {
    open spec fn accepts(&self, c: Node<'_>) -> bool {
        c.isa("named_type") || c.isa("primitive_type") || c.isa("optional_type") || c.isa(
            "union_type",
        ) || c.isa("intersection_type") || c.isa("name") || c.isa("qualified_name")
    }

    fn test(&self, c: Node<'_>) -> (res: bool) {
        c.is("named_type") || c.is("primitive_type") || c.is("optional_type") || c.is("union_type")
            || c.is("intersection_type") || c.is("name") || c.is("qualified_name")
    }
}

/// The first type just behind a `:`, looked for from child `i` on; `colon` says
/// whether a `:` was just passed.
pub open spec fn type_behind_colon(n: Node<'_>, i: int, colon: bool) -> Option<Seq<char>>
    decreases n.arity() - i,
{
    if i < 0 || i >= n.arity() {
        None
    } else {
        let c = n.kid(i);
        if c.isa(":") {
            type_behind_colon(n, i + 1, true)
        } else if colon && TypeNode.accepts(c) {
            Some(c.txt())
        } else {
            type_behind_colon(n, i + 1, false)
        }
    }
}

/// The return type of a function.
pub open spec fn return_type(n: Node<'_>) -> Option<Seq<char>> {
    let stated = trimmed(stripped_front(or_empty(field_txt(n, "return_type")), ":"@));
    if n.at("return_type") is Some && stated.len() > 0 {
        Some(stated)
    } else {
        type_behind_colon(n, 0, false)
    }
}

/// The return type of a function.
pub fn extract_php_return_type(n: &Node<'_>) -> (res: Option<String>)
    ensures
        res.deep_view() == return_type(*n),
{
    match n.child_by_field_name("return_type") {
        Some(t) => {
            let stated: &str = trim(strip_front(t.text(), ":"));
            if !stated.is_empty() {
                return Some(own(stated));
            }
        },
        None => {},
    }
    let count: usize = n.child_count();
    let mut colon = false;
    let mut i: usize = 0;
    while i < count
        invariant
            count == n.arity(),
            i <= count,
            return_type(*n) == type_behind_colon(*n, i as int, colon),
        decreases count - i,
    {
        let c = n.child(i);
        if c.is(":") {
            colon = true;
        } else {
            if colon && TypeNode.test(c) {
                return Some(own(c.text()));
            }
            colon = false;
        }
        i += 1;
    }
    None
}

/// The comment just before a declaration, as written.
pub open spec fn docstring(n: Node<'_>) -> Option<Seq<char>> {
    match n.left() {
        Some(p) if p.isa("comment") && (begins(p.txt(), "/*"@) || begins(p.txt(), "//"@)) => Some(
            p.txt(),
        ),
        _ => None,
    }
}

/// The comment just before a declaration, as written.
pub fn extract_php_docstring(n: &Node<'_>) -> (res: Option<String>)
    ensures
        res.deep_view() == docstring(*n),
{
    match n.prev_sibling() {
        Some(p) => if p.is("comment") && (starts_with(p.text(), "/*") || starts_with(
            p.text(),
            "//",
        )) {
            Some(own(p.text()))
        } else {
            None
        },
        None => None,
    }
}

/// The modifiers that the text of a method states.
pub open spec fn modifiers(text: Seq<char>) -> Seq<Seq<char>> {
    (if begins(text, "public "@) || has(text, " public "@) {
        seq!["public"@]
    } else if begins(text, "private "@) || has(text, " private "@) {
        seq!["private"@]
    } else if begins(text, "protected "@) || has(text, " protected "@) {
        seq!["protected"@]
    } else {
        Seq::empty()
    }) + (if has(text, "static "@) {
        seq!["static"@]
    } else {
        Seq::empty()
    }) + (if has(text, "abstract "@) {
        seq!["abstract"@]
    } else {
        Seq::empty()
    })
}

fn find_modifiers(text: &str) -> (res: Vec<String>)
    ensures
        res.deep_view() == modifiers(text@),
{
    let mut out: Vec<String> = none();
    if starts_with(text, "public ") || contains(text, " public ") {
        emit(&mut out, own("public"));
    } else if starts_with(text, "private ") || contains(text, " private ") {
        emit(&mut out, own("private"));
    } else if starts_with(text, "protected ") || contains(text, " protected ") {
        emit(&mut out, own("protected"));
    }
    if contains(text, "static ") {
        emit(&mut out, own("static"));
    }
    if contains(text, "abstract ") {
        emit(&mut out, own("abstract"));
    }
    assert(out.deep_view() =~= modifiers(text@));
    out
}

/// What is reported of a function or method.
pub open spec fn function_info(n: Node<'_>, is_method: bool) -> Function {
    Function {
        params: params(n),
        return_type: return_type(n),
        docstring: docstring(n),
        is_method,
        decorators: if is_method {
            modifiers(n.txt())
        } else {
            Seq::empty()
        },
        ..function_at(or_empty(field_txt(n, "name")), n)
    }
}

/// What is reported of a function or method.
pub fn extract_php_function_info(n: &Node<'_>, is_method: bool) -> (res: FunctionInfo)
    ensures
        res.deep_view() == function_info(*n, is_method),
{
    let mut info = new_function(field_text_or_empty(n, "name"), n);
    info.params = extract_php_params(n);
    info.return_type = extract_php_return_type(n);
    info.docstring = extract_php_docstring(n);
    info.is_method = is_method;
    if is_method {
        info.decorators = find_modifiers(n.text());
    }
    info
}

/// Classes, interfaces and traits.
pub open spec fn is_class(n: Node<'_>) -> bool {
    n.isa("class_declaration") || n.isa("interface_declaration") || n.isa("trait_declaration")
}

fn class_node(n: &Node<'_>) -> (res: bool)
    ensures
        res == is_class(*n),
{
    n.is("class_declaration") || n.is("interface_declaration") || n.is("trait_declaration")
}

/// The functions of a file outside of classes.
pub struct Functions;

impl Walker for Functions {
    type Item = FunctionInfo;

    open spec fn yields(&self, c: Node<'_>) -> Seq<Function> {
        if c.isa("function_definition") {
            seq![function_info(c, false)]
        } else {
            Seq::empty()
        }
    }

    open spec fn enters<'a>(&self, c: Node<'a>) -> Option<Node<'a>> {
        if c.isa("function_definition") || is_class(c) {
            None
        } else {
            Some(c)
        }
    }

    fn visit<'a>(&self, c: Node<'a>, out: &mut Vec<FunctionInfo>) -> (res: Option<Node<'a>>) {
        if c.is("function_definition") {
            emit(out, extract_php_function_info(&c, false));
            None
        } else if class_node(&c) {
            None
        } else {
            Some(c)
        }
    }
}

/// The methods of a class body.
pub struct BodyMethods;

impl Picker for BodyMethods {
    type Item = FunctionInfo;

    open spec fn picks(&self, c: Node<'_>) -> Seq<Function> {
        if c.isa("method_declaration") {
            seq![function_info(c, true)]
        } else {
            Seq::empty()
        }
    }

    fn pick(&self, c: Node<'_>, out: &mut Vec<FunctionInfo>) {
        if c.is("method_declaration") {
            emit(out, extract_php_function_info(&c, true));
        }
    }
}

/// The types in a clause.
pub struct ClauseTypes;

impl Picker for ClauseTypes {
    type Item = String;

    open spec fn picks(&self, c: Node<'_>) -> Seq<Seq<char>> {
        if c.isa("name") || c.isa("qualified_name") || c.isa("named_type") {
            seq![c.txt()]
        } else {
            Seq::empty()
        }
    }

    fn pick(&self, c: Node<'_>, out: &mut Vec<String>) {
        if c.is("name") || c.is("qualified_name") || c.is("named_type") {
            emit(out, own(c.text()));
        }
    }
}

/// The class that a class extends and the interfaces that it implements.
pub struct Bases;

impl Picker for Bases {
    type Item = String;

    open spec fn picks(&self, c: Node<'_>) -> Seq<Seq<char>> {
        if c.isa("base_clause") || c.isa("class_interface_clause") {
            picked(&ClauseTypes, c)
        } else {
            Seq::empty()
        }
    }

    fn pick(&self, c: Node<'_>, out: &mut Vec<String>) {
        if c.is("base_clause") || c.is("class_interface_clause") {
            pick_into(&ClauseTypes, c, out);
        }
    }
}

/// The class that a class extends and the interfaces that it implements.
pub fn extract_php_bases(n: &Node<'_>) -> (res: Vec<String>)
    ensures
        res.deep_view() == picked(&Bases, *n),
{
    pick_all(&Bases, *n)
}

/// What is reported of a class, interface or trait. Only a class has bases.
pub open spec fn class_info(n: Node<'_>) -> Class {
    let plain = Class {
        docstring: docstring(n),
        methods: match n.at("body") {
            Some(body) => picked(&BodyMethods, body),
            None => Seq::empty(),
        },
        ..class_at(or_empty(field_txt(n, "name")), n)
    };
    if n.isa("class_declaration") {
        Class { bases: picked(&Bases, n), ..plain }
    } else if n.isa("interface_declaration") {
        Class { decorators: seq!["interface"@], ..plain }
    } else {
        Class { decorators: seq!["trait"@], ..plain }
    }
}

/// What is reported of a class, interface or trait.
pub fn extract_php_class_info(n: &Node<'_>) -> (res: ClassInfo)
    ensures
        res.deep_view() == class_info(*n),
{
    let mut info = new_class(field_text_or_empty(n, "name"), n);
    info.docstring = extract_php_docstring(n);
    match n.child_by_field_name("body") {
        Some(body) => {
            info.methods = pick_all(&BodyMethods, body);
        },
        None => {},
    }
    if n.is("class_declaration") {
        info.bases = extract_php_bases(n);
    } else if n.is("interface_declaration") {
        info.decorators = one(own("interface"));
    } else {
        info.decorators = one(own("trait"));
    }
    info
}

/// All classes, interfaces and traits of a file, but for those inside of others.
pub struct Classes;

impl Walker for Classes {
    type Item = ClassInfo;

    open spec fn yields(&self, c: Node<'_>) -> Seq<Class> {
        if is_class(c) {
            seq![class_info(c)]
        } else {
            Seq::empty()
        }
    }

    open spec fn enters<'a>(&self, c: Node<'a>) -> Option<Node<'a>> {
        if is_class(c) {
            None
        } else {
            Some(c)
        }
    }

    fn visit<'a>(&self, c: Node<'a>, out: &mut Vec<ClassInfo>) -> (res: Option<Node<'a>>) {
        if class_node(&c) {
            emit(out, extract_php_class_info(&c));
            None
        } else {
            Some(c)
        }
    }
}

} // verus!
