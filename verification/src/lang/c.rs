//! C and C++: functions, classes and structs.

use vstd::prelude::*;

use crate::docs::{join_lines, joined_lines};
use crate::items::{class_at, function_at, new_class, new_function};
use crate::lists::{backwards, emit, group_lists, none};
use crate::nodes::{field_text, field_txt, first, first_child, or_empty};
use crate::text::{
    begins, contains, has, own, starts_with, strip_back, stripped_back, trim, trimmed,
};
use crate::tree::{group_tree, same, Node};
use crate::types::{Class, ClassInfo, Function, FunctionInfo};
use crate::walk::{
    find_child, fold, folded, found, inside, is_inside, look_back, nearest_first, pick_all,
    pick_into, picked, Back, Fold, Picker, Test, Walker,
};

verus! {

broadcast use {group_tree, group_lists};

/// The name at the core of a declarator, without the pointers, references and
/// parentheses around it.
pub open spec fn core_name(n: Node<'_>) -> Option<Seq<char>>
    decreases n.rank(), n.arity() + 1,
{
    if n.isa("identifier") || n.isa("field_identifier") || n.isa("destructor_name") || n.isa(
        "operator_name",
    ) {
        Some(n.txt())
    } else if n.isa("qualified_identifier") || n.isa("scoped_identifier") {
        match n.at("name") {
            Some(name) => core_name(name),
            None => Some(n.txt()),
        }
    } else if n.isa("pointer_declarator") || n.isa("reference_declarator") || n.isa(
        "parenthesized_declarator",
    ) {
        match n.at("declarator") {
            Some(inner) => core_name(inner),
            None => core_name_from(n, n.arity()),
        }
    } else {
        None
    }
}

/// The first name at the core of one of the last `k` children.
pub open spec fn core_name_from(n: Node<'_>, k: nat) -> Option<Seq<char>>
    decreases n.rank(), k,
{
    if k == 0 || k > n.arity() {
        None
    } else {
        match core_name(n.kid(n.arity() - k)) {
            Some(name) => Some(name),
            None => core_name_from(n, (k - 1) as nat),
        }
    }
}

/// The name at the core of a declarator, without the pointers, references and
/// parentheses around it.
pub fn extract_name_from_declarator_inner(n: &Node<'_>) -> (res: Option<String>)
    ensures
        res.deep_view() == core_name(*n),
    decreases n.rank(),
{
    if n.is("identifier") || n.is("field_identifier") || n.is("destructor_name") || n.is(
        "operator_name",
    ) {
        return Some(own(n.text()));
    }
    if n.is("qualified_identifier") || n.is("scoped_identifier") {
        return match n.child_by_field_name("name") {
            Some(name) => extract_name_from_declarator_inner(&name),
            None => Some(own(n.text())),
        };
    }
    if n.is("pointer_declarator") || n.is("reference_declarator") || n.is(
        "parenthesized_declarator",
    ) {
        match n.child_by_field_name("declarator") {
            Some(inner) => return extract_name_from_declarator_inner(&inner),
            None => {},
        }
        let count: usize = n.child_count();
        let mut i: usize = 0;
        while i < count
            invariant
                count == n.arity(),
                i <= count,
                core_name(*n) == core_name_from(*n, (count - i) as nat),
            decreases count - i,
        {
            let name = extract_name_from_declarator_inner(&n.child(i));
            if name.is_some() {
                return name;
            }
            i += 1;
        }
        return None;
    }
    None
}

/// The part of a definition that declares a function.
pub open spec fn function_declarator<'a>(n: Node<'a>) -> Option<Node<'a>> {
    match n.at("declarator") {
        Some(d) => if d.isa("function_declarator") {
            Some(d)
        } else if d.isa("pointer_declarator") {
            first(d, "function_declarator")
        } else {
            None
        },
        None => None,
    }
}

fn find_function_declarator<'a>(n: &Node<'a>) -> (res: Option<Node<'a>>)
    ensures
        res == function_declarator(*n),
{
    match n.child_by_field_name("declarator") {
        Some(d) => if d.is("function_declarator") {
            Some(d)
        } else if d.is("pointer_declarator") {
            first_child(&d, "function_declarator")
        } else {
            None
        },
        None => None,
    }
}

/// The name of a function.
pub open spec fn function_name(n: Node<'_>) -> Option<Seq<char>> {
    match function_declarator(n) {
        Some(f) => match f.at("declarator") {
            Some(d) => core_name(d),
            None => None,
        },
        None => match n.at("declarator") {
            Some(d) if d.isa("identifier") => Some(d.txt()),
            _ => None,
        },
    }
}

/// The name of a function.
pub fn extract_c_function_name(n: &Node<'_>) -> (res: Option<String>)
    ensures
        res.deep_view() == function_name(*n),
{
    match find_function_declarator(n) {
        Some(f) => match f.child_by_field_name("declarator") {
            Some(d) => extract_name_from_declarator_inner(&d),
            None => None,
        },
        None => match n.child_by_field_name("declarator") {
            Some(d) => if d.is("identifier") {
                Some(own(d.text()))
            } else {
                None
            },
            None => None,
        },
    }
}

/// The name of a parameter, without the pointers and brackets around it.
pub open spec fn param_name(n: Node<'_>) -> Seq<char>
    decreases n.rank(),
{
    if n.isa("identifier") {
        n.txt()
    } else if n.isa("pointer_declarator") {
        match n.at("declarator") {
            Some(inner) => param_name(inner),
            None => match first(n, "identifier") {
                Some(id) => id.txt(),
                None => Seq::empty(),
            },
        }
    } else if n.isa("array_declarator") {
        match n.at("declarator") {
            Some(inner) => param_name(inner),
            None => Seq::empty(),
        }
    } else {
        n.txt()
    }
}

/// The name of a parameter, without the pointers and brackets around it.
pub fn extract_c_param_name(n: &Node<'_>) -> (res: String)
    ensures
        res@ == param_name(*n),
    decreases n.rank(),
{
    if n.is("identifier") {
        own(n.text())
    } else if n.is("pointer_declarator") {
        match n.child_by_field_name("declarator") {
            Some(inner) => extract_c_param_name(&inner),
            None => match first_child(n, "identifier") {
                Some(id) => own(id.text()),
                None => String::new(),
            },
        }
    } else if n.is("array_declarator") {
        match n.child_by_field_name("declarator") {
            Some(inner) => extract_c_param_name(&inner),
            None => String::new(),
        }
    } else {
        own(n.text())
    }
}

/// The named parameters in a parameter list.
pub struct Params;

impl Picker for Params {
    type Item = String;

    open spec fn picks(&self, c: Node<'_>) -> Seq<Seq<char>> {
        match c.at("declarator") {
            Some(d) if c.isa("parameter_declaration") && param_name(d).len() > 0 => seq![
                param_name(d),
            ],
            _ => Seq::empty(),
        }
    }

    fn pick(&self, c: Node<'_>, out: &mut Vec<String>) {
        if c.is("parameter_declaration") {
            match c.child_by_field_name("declarator") {
                Some(d) => {
                    let name = extract_c_param_name(&d);
                    if !name.as_str().is_empty() {
                        emit(out, name);
                    }
                },
                None => {},
            }
        }
    }
}

/// The parameters of a function.
pub open spec fn params(n: Node<'_>) -> Seq<Seq<char>> {
    match function_declarator(n) {
        Some(f) => match f.at("parameters") {
            Some(list) => picked(&Params, list),
            None => Seq::empty(),
        },
        None => Seq::empty(),
    }
}

/// The parameters of a function.
pub fn extract_c_params(n: &Node<'_>) -> (res: Vec<String>)
    ensures
        res.deep_view() == params(*n),
{
    match find_function_declarator(n) {
        Some(f) => match f.child_by_field_name("parameters") {
            Some(list) => pick_all(&Params, list),
            None => none(),
        },
        None => none(),
    }
}

/// The line comments just before a definition.
pub struct LineComments;

impl Back for LineComments {
    type Item = String;

    open spec fn passes(&self, c: Node<'_>) -> bool {
        c.isa("comment") && !begins(c.txt(), "/*"@) && begins(c.txt(), "//"@)
    }

    open spec fn takes(&self, c: Node<'_>) -> Option<Seq<char>> {
        Some(c.txt())
    }

    fn pass(&self, c: Node<'_>) -> (res: bool) {
        c.is("comment") && !starts_with(c.text(), "/*") && starts_with(c.text(), "//")
    }

    fn take(&self, c: Node<'_>) -> (res: Option<String>) {
        Some(own(c.text()))
    }
}

/// The comment of a definition, as written: a block comment just before it, or
/// the line comments just before it.
pub open spec fn docstring(n: Node<'_>) -> Option<Seq<char>> {
    match n.left() {
        Some(p) if p.isa("comment") && begins(p.txt(), "/*"@) => Some(p.txt()),
        _ => joined_lines(nearest_first(&LineComments, n.left()).reverse()),
    }
}

/// The comment of a definition, as written.
pub fn extract_c_docstring(n: &Node<'_>) -> (res: Option<String>)
    ensures
        res.deep_view() == docstring(*n),
{
    match n.prev_sibling() {
        Some(p) => {
            if p.is("comment") && starts_with(p.text(), "/*") {
                return Some(own(p.text()));
            }
        },
        None => {},
    }
    join_lines(&backwards(look_back(&LineComments, n)))
}

/// What is reported of a function.
pub open spec fn function_info(n: Node<'_>) -> Function {
    Function {
        params: params(n),
        return_type: field_txt(n, "type"),
        docstring: docstring(n),
        ..function_at(or_empty(function_name(n)), n)
    }
}

/// What is reported of a function.
pub fn extract_c_function_info(n: &Node<'_>) -> (res: FunctionInfo)
    ensures
        res.deep_view() == function_info(*n),
{
    let name = match extract_c_function_name(n) {
        Some(name) => name,
        None => String::new(),
    };
    let mut info = new_function(name, n);
    info.params = extract_c_params(n);
    info.return_type = field_text(n, "type");
    info.docstring = extract_c_docstring(n);
    info
}

/// All functions of a C file.
pub struct Functions;

impl Walker for Functions {
    type Item = FunctionInfo;

    open spec fn yields(&self, c: Node<'_>) -> Seq<Function> {
        if c.isa("function_definition") {
            seq![function_info(c)]
        } else {
            Seq::empty()
        }
    }

    open spec fn enters<'a>(&self, c: Node<'a>) -> Option<Node<'a>> {
        Some(c)
    }

    fn visit<'a>(&self, c: Node<'a>, out: &mut Vec<FunctionInfo>) -> (res: Option<Node<'a>>) {
        if c.is("function_definition") {
            emit(out, extract_c_function_info(&c));
        }
        Some(c)
    }
}

/// The keywords of a C++ function that are reported.
pub open spec fn cpp_keywords(text: Seq<char>) -> Seq<Seq<char>> {
    (if has(text, "virtual "@) {
        seq!["virtual"@]
    } else {
        Seq::empty()
    }) + (if has(text, "static "@) {
        seq!["static"@]
    } else {
        Seq::empty()
    })
}

/// What is reported of a C++ function.
pub open spec fn cpp_function_info(n: Node<'_>, is_method: bool) -> Function {
    Function { is_method, decorators: cpp_keywords(n.txt()), ..function_info(n) }
}

/// What is reported of a C++ function.
pub fn extract_cpp_function_info(n: &Node<'_>, is_method: bool) -> (res: FunctionInfo)
    ensures
        res.deep_view() == cpp_function_info(*n, is_method),
{
    let mut keywords: Vec<String> = none();
    if contains(n.text(), "virtual ") {
        emit(&mut keywords, own("virtual"));
    }
    if contains(n.text(), "static ") {
        emit(&mut keywords, own("static"));
    }
    assert(keywords.deep_view() =~= cpp_keywords(n.txt()));
    let mut info = extract_c_function_info(n);
    info.is_method = is_method;
    info.decorators = keywords;
    info
}

/// The class that a definition is in truth: where a macro stands before the
/// name of a class, the grammar takes the macro for the class and the class for
/// a function or variable. Its name and its body.
pub open spec fn macro_class<'a>(n: Node<'a>) -> Option<(Seq<char>, Node<'a>)> {
    match (n.at("type"), n.at("declarator"), n.at("body")) {
        (Some(t), Some(d), Some(body)) if (n.isa("function_definition") || n.isa("declaration"))
            && (t.isa("class_specifier") || t.isa("struct_specifier")) && t.at("body") is None
            && d.isa("identifier") && d.txt().len() > 0 => Some((d.txt(), body)),
        _ => None,
    }
}

/// The class that a definition is in truth, where a macro stands before its name.
pub fn macro_decorated_class_name_and_body<'a>(n: &Node<'a>) -> (res: Option<(String, Node<'a>)>)
    ensures
        res is Some <==> macro_class(*n) is Some,
        res matches Some(found) ==> macro_class(*n) == Some((found.0@, found.1))
            && found.1.rank() < n.rank(),
{
    if !n.is("function_definition") && !n.is("declaration") {
        return None;
    }
    match (
        n.child_by_field_name("type"),
        n.child_by_field_name("declarator"),
        n.child_by_field_name("body"),
    ) {
        (Some(t), Some(d), Some(body)) => {
            if (t.is("class_specifier") || t.is("struct_specifier")) && t.child_by_field_name(
                "body",
            ).is_none() && d.is("identifier") && !d.text().is_empty() {
                Some((own(d.text()), body))
            } else {
                None
            }
        },
        _ => None,
    }
}

/// Nodes that hold the members of a class.
pub struct ClassNode;

impl Test for ClassNode {
    open spec fn accepts(&self, c: Node<'_>) -> bool {
        c.isa("class_specifier") || c.isa("struct_specifier") || c.isa("field_declaration_list")
    }

    fn test(&self, c: Node<'_>) -> (res: bool) {
        c.is("class_specifier") || c.is("struct_specifier") || c.is("field_declaration_list")
    }
}

/// The functions of a C++ file outside of classes.
pub struct CppFunctions;

impl Walker for CppFunctions {
    type Item = FunctionInfo;

    open spec fn yields(&self, c: Node<'_>) -> Seq<Function> {
        if c.isa("function_definition") && macro_class(c) is None && !inside(&ClassNode, c)
            && trimmed(cpp_function_info(c, false).name).len() > 0 {
            seq![cpp_function_info(c, false)]
        } else {
            Seq::empty()
        }
    }

    open spec fn enters<'a>(&self, c: Node<'a>) -> Option<Node<'a>> {
        if (c.isa("function_definition") && macro_class(c) is Some) || ClassNode.accepts(c) {
            None
        } else {
            Some(c)
        }
    }

    fn visit<'a>(&self, c: Node<'a>, out: &mut Vec<FunctionInfo>) -> (res: Option<Node<'a>>) {
        if c.is("function_definition") {
            if macro_decorated_class_name_and_body(&c).is_some() {
                return None;
            }
            if !is_inside(&ClassNode, &c) {
                let info = extract_cpp_function_info(&c, false);
                if !trim(info.name.as_str()).is_empty() {
                    emit(out, info);
                }
            }
        }
        if ClassNode.test(c) {
            None
        } else {
            Some(c)
        }
    }
}

/// The access keyword that a specifier names.
pub open spec fn access_word(n: Node<'_>) -> Option<Seq<char>> {
    let word = trimmed(stripped_back(trimmed(n.txt()), ":"@));
    if word == "public"@ || word == "private"@ || word == "protected"@ {
        Some(word)
    } else {
        None
    }
}

fn find_access_word(n: &Node<'_>) -> (res: Option<String>)
    ensures
        res.deep_view() == access_word(*n),
{
    let word: &str = trim(strip_back(trim(n.text()), ":"));
    if same(word, "public") || same(word, "private") || same(word, "protected") {
        Some(own(word))
    } else {
        None
    }
}

/// The methods of a class body, and the access keyword that is in force.
pub struct BodyMethods;

impl Fold for BodyMethods {
    type State = (String, Vec<FunctionInfo>);

    open spec fn step(&self, s: (Seq<char>, Seq<Function>), c: Node<'_>) -> (
        Seq<char>,
        Seq<Function>,
    ) {
        if c.isa("function_definition") {
            (s.0, s.1 + seq![Function { visibility: Some(s.0), ..cpp_function_info(c, true) }])
        } else if c.isa("access_specifier") {
            match access_word(c) {
                Some(word) => (word, s.1),
                None => s,
            }
        } else {
            s
        }
    }

    fn next(&self, s: (String, Vec<FunctionInfo>), c: Node<'_>) -> (res: (
        String,
        Vec<FunctionInfo>,
    )) {
        let ghost before = s.deep_view();
        let (access, methods) = s;
        assert(before == (access@, methods.deep_view()));
        let mut methods = methods;
        if c.is("function_definition") {
            let mut info = extract_cpp_function_info(&c, true);
            info.visibility = Some(access.clone());
            emit(&mut methods, info);
            (access, methods)
        } else if c.is("access_specifier") {
            match find_access_word(&c) {
                Some(word) => (word, methods),
                None => (access, methods),
            }
        } else {
            (access, methods)
        }
    }
}

/// The access of the members before the first access specifier: public in a
/// struct, private in a class.
pub open spec fn default_access(specifier: Node<'_>) -> Seq<char> {
    if specifier.isa("struct_specifier") {
        "public"@
    } else {
        "private"@
    }
}

fn find_default_access(specifier: &Node<'_>) -> (res: String)
    ensures
        res@ == default_access(*specifier),
{
    if specifier.is("struct_specifier") {
        own("public")
    } else {
        own("private")
    }
}

/// The methods of the body of a class or struct.
pub open spec fn body_methods(specifier: Node<'_>, body: Node<'_>) -> Seq<Function> {
    folded(&BodyMethods, (default_access(specifier), Seq::empty()), body).1
}

/// The methods of the body of a class or struct.
pub fn extract_cpp_methods_from_body(specifier: &Node<'_>, body: &Node<'_>) -> (res: Vec<
    FunctionInfo,
>)
    ensures
        res.deep_view() == body_methods(*specifier, *body),
{
    let start: (String, Vec<FunctionInfo>) = (find_default_access(specifier), none());
    assert(start.deep_view() == (default_access(*specifier), Seq::<Function>::empty()));
    let end = fold(&BodyMethods, start, *body);
    assert(end.deep_view() == (end.0@, end.1.deep_view()));
    end.1
}

/// The types in a base class clause.
pub struct ClauseTypes;

impl Picker for ClauseTypes {
    type Item = String;

    open spec fn picks(&self, c: Node<'_>) -> Seq<Seq<char>> {
        if c.isa("type_identifier") || c.isa("qualified_identifier") || c.isa("template_type") {
            seq![c.txt()]
        } else {
            Seq::empty()
        }
    }

    fn pick(&self, c: Node<'_>, out: &mut Vec<String>) {
        if c.is("type_identifier") || c.is("qualified_identifier") || c.is("template_type") {
            emit(out, own(c.text()));
        }
    }
}

/// The base classes of a class.
pub struct Bases;

impl Picker for Bases {
    type Item = String;

    open spec fn picks(&self, c: Node<'_>) -> Seq<Seq<char>> {
        if c.isa("base_class_clause") {
            picked(&ClauseTypes, c)
        } else {
            Seq::empty()
        }
    }

    fn pick(&self, c: Node<'_>, out: &mut Vec<String>) {
        if c.is("base_class_clause") {
            pick_into(&ClauseTypes, c, out);
        }
    }
}

/// Type names that are not empty.
pub struct TypeName;

impl Test for TypeName {
    open spec fn accepts(&self, c: Node<'_>) -> bool {
        c.isa("type_identifier") && c.txt().len() > 0
    }

    fn test(&self, c: Node<'_>) -> (res: bool) {
        c.is("type_identifier") && !c.text().is_empty()
    }
}

/// The name of a class.
pub open spec fn class_name(n: Node<'_>) -> Seq<char> {
    match n.at("name") {
        Some(name) if name.txt().len() > 0 => name.txt(),
        _ => match found(&TypeName, n) {
            Some(c) => c.txt(),
            None => Seq::empty(),
        },
    }
}

fn find_class_name(n: &Node<'_>) -> (res: String)
    ensures
        res@ == class_name(*n),
{
    match n.child_by_field_name("name") {
        Some(name) => {
            if !name.text().is_empty() {
                return own(name.text());
            }
        },
        None => {},
    }
    match find_child(&TypeName, *n) {
        Some(c) => own(c.text()),
        None => String::new(),
    }
}

/// What is reported of a class or struct.
pub open spec fn class_info(n: Node<'_>) -> Class {
    Class {
        bases: picked(&Bases, n),
        docstring: docstring(n),
        methods: match n.at("body") {
            Some(body) => body_methods(n, body),
            None => Seq::empty(),
        },
        ..class_at(class_name(n), n)
    }
}

/// What is reported of a class or struct.
pub fn extract_cpp_class_info(n: &Node<'_>) -> (res: ClassInfo)
    ensures
        res.deep_view() == class_info(*n),
{
    let mut info = new_class(find_class_name(n), n);
    info.bases = pick_all(&Bases, *n);
    info.docstring = extract_c_docstring(n);
    match n.child_by_field_name("body") {
        Some(body) => {
            info.methods = extract_cpp_methods_from_body(n, &body);
        },
        None => {},
    }
    info
}

/// Whether a specifier only stands for a macro before the name of a class.
pub open spec fn is_macro_shell(n: Node<'_>) -> bool {
    n.at("body") is None && (n.up() matches Some(p) && (p.isa("function_definition") || p.isa(
        "declaration",
    )))
}

fn macro_shell(n: &Node<'_>) -> (res: bool)
    ensures
        res == is_macro_shell(*n),
{
    if n.child_by_field_name("body").is_some() {
        return false;
    }
    match n.parent() {
        Some(p) => p.is("function_definition") || p.is("declaration"),
        None => false,
    }
}

/// What is reported of a class whose name stands behind a macro.
pub open spec fn macro_class_info(name: Seq<char>, body: Node<'_>, n: Node<'_>) -> Class {
    Class {
        docstring: docstring(n),
        methods: match n.at("type") {
            Some(specifier) => body_methods(specifier, body),
            None => Seq::empty(),
        },
        ..class_at(name, n)
    }
}

/// All classes and structs of a C++ file.
pub struct CppClasses;

impl Walker for CppClasses {
    type Item = ClassInfo;

    open spec fn yields(&self, c: Node<'_>) -> Seq<Class> {
        if c.isa("class_specifier") || c.isa("struct_specifier") {
            if !is_macro_shell(c) && class_info(c).name.len() > 0 {
                seq![class_info(c)]
            } else {
                Seq::empty()
            }
        } else {
            match macro_class(c) {
                Some((name, body)) => seq![macro_class_info(name, body, c)],
                None => Seq::empty(),
            }
        }
    }

    open spec fn enters<'a>(&self, c: Node<'a>) -> Option<Node<'a>> {
        if c.isa("class_specifier") || c.isa("struct_specifier") {
            Some(c)
        } else {
            match macro_class(c) {
                Some((name, body)) => Some(body),
                None => Some(c),
            }
        }
    }

    fn visit<'a>(&self, c: Node<'a>, out: &mut Vec<ClassInfo>) -> (res: Option<Node<'a>>) {
        if c.is("class_specifier") || c.is("struct_specifier") {
            if !macro_shell(&c) {
                let info = extract_cpp_class_info(&c);
                if !info.name.as_str().is_empty() {
                    emit(out, info);
                }
            }
            return Some(c);
        }
        match macro_decorated_class_name_and_body(&c) {
            Some((name, body)) => {
                let mut info = new_class(name, &c);
                info.docstring = extract_c_docstring(&c);
                match c.child_by_field_name("type") {
                    Some(specifier) => {
                        info.methods = extract_cpp_methods_from_body(&specifier, &body);
                    },
                    None => {},
                }
                emit(out, info);
                Some(body)
            },
            None => Some(c),
        }
    }
}

} // verus!
