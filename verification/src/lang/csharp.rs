//! C#: methods and constructors, classes, structs and interfaces.

use vstd::prelude::*;

use crate::docs::{join_lines, joined_lines};
use crate::items::{class_at, function_at, new_class, new_function};
use crate::lists::{backwards, emit, group_lists, none, some_seq};
use crate::nodes::{
    field_text, field_text_or_empty, field_txt, first, or_empty, text_of_child, txt_of,
};
use crate::spans::{decl_keyword_line_from_node, declaration_line};
use crate::text::{
    begins, behind_all, own, starts_with, strip_back, strip_front, stripped_back, stripped_front,
    trim, trimmed, without_prefixes,
};
use crate::tree::{group_tree, same, Node};
use crate::types::{Class, ClassInfo, Function, FunctionInfo};
use crate::walk::{
    find_child, find_last_child, found, last_found, look_back, nearest_first, pick_all, pick_into,
    picked, Back, Picker, Test, Walker,
};

verus! {

broadcast use {group_tree, group_lists};

/// Identifiers.
pub struct Identifier;

impl Test for Identifier {
    open spec fn accepts(&self, c: Node<'_>) -> bool {
        c.isa("identifier")
    }

    fn test(&self, c: Node<'_>) -> (res: bool) {
        c.is("identifier")
    }
}

/// The name of a parameter: that in its name field, or its last identifier.
pub open spec fn param_name(n: Node<'_>) -> Option<Seq<char>> {
    match n.at("name") {
        Some(name) => Some(name.txt()),
        None => txt_of(last_found(&Identifier, n)),
    }
}

/// The parameters in a parameter list.
pub struct Params;

impl Picker for Params {
    type Item = String;

    open spec fn picks(&self, c: Node<'_>) -> Seq<Seq<char>> {
        if c.isa("parameter") {
            some_seq(param_name(c))
        } else {
            Seq::empty()
        }
    }

    fn pick(&self, c: Node<'_>, out: &mut Vec<String>) {
        if c.is("parameter") {
            match c.child_by_field_name("name") {
                Some(name) => emit(out, own(name.text())),
                None => match find_last_child(&Identifier, c) {
                    Some(id) => emit(out, own(id.text())),
                    None => {},
                },
            }
        }
    }
}

/// The parameters of a method.
pub open spec fn params(n: Node<'_>) -> Seq<Seq<char>> {
    match n.at("parameters") {
        Some(list) => picked(&Params, list),
        None => Seq::empty(),
    }
}

/// The parameters of a method.
pub fn extract_csharp_params(n: &Node<'_>) -> (res: Vec<String>)
    ensures
        res.deep_view() == params(*n),
{
    match n.child_by_field_name("parameters") {
        Some(list) => pick_all(&Params, list),
        None => none(),
    }
}

/// The doc lines just before a declaration.
pub struct DocLines;

impl Back for DocLines {
    type Item = String;

    open spec fn passes(&self, c: Node<'_>) -> bool {
        c.isa("comment") && begins(c.txt(), "///"@)
    }

    open spec fn takes(&self, c: Node<'_>) -> Option<Seq<char>> {
        Some(trimmed(behind_all(c.txt(), "///"@)))
    }

    fn pass(&self, c: Node<'_>) -> (res: bool) {
        c.is("comment") && starts_with(c.text(), "///")
    }

    fn take(&self, c: Node<'_>) -> (res: Option<String>) {
        Some(own(trim(without_prefixes(c.text(), "///"))))
    }
}

/// The doc lines just before a declaration.
pub open spec fn docstring(n: Node<'_>) -> Option<Seq<char>> {
    joined_lines(nearest_first(&DocLines, n.left()).reverse())
}

/// The doc lines just before a declaration.
pub fn extract_csharp_docstring(n: &Node<'_>) -> (res: Option<String>)
    ensures
        res.deep_view() == docstring(*n),
{
    join_lines(&backwards(look_back(&DocLines, n)))
}

/// The attributes just before a declaration, without their brackets.
pub struct Attributes;

impl Back for Attributes {
    type Item = String;

    open spec fn passes(&self, c: Node<'_>) -> bool {
        c.isa("attribute_list")
    }

    open spec fn takes(&self, c: Node<'_>) -> Option<Seq<char>> {
        Some(stripped_back(stripped_front(c.txt(), "["@), "]"@))
    }

    fn pass(&self, c: Node<'_>) -> (res: bool) {
        c.is("attribute_list")
    }

    fn take(&self, c: Node<'_>) -> (res: Option<String>) {
        Some(own(strip_back(strip_front(c.text(), "["), "]")))
    }
}

/// The keyword that makes a method asynchronous.
pub struct AsyncModifier;

impl Test for AsyncModifier {
    open spec fn accepts(&self, c: Node<'_>) -> bool {
        (c.isa("modifier") || c.isa("async")) && c.txt() == "async"@
    }

    fn test(&self, c: Node<'_>) -> (res: bool) {
        (c.is("modifier") || c.is("async")) && same(c.text(), "async")
    }
}

/// Access keywords.
pub struct AccessModifier;

impl Test for AccessModifier {
    open spec fn accepts(&self, c: Node<'_>) -> bool {
        c.isa("modifier") && (c.txt() == "public"@ || c.txt() == "private"@ || c.txt()
            == "protected"@ || c.txt() == "internal"@)
    }

    fn test(&self, c: Node<'_>) -> (res: bool) {
        c.is("modifier") && (same(c.text(), "public") || same(c.text(), "private") || same(
            c.text(),
            "protected",
        ) || same(c.text(), "internal"))
    }
}

/// The visibility of a declaration: its first access keyword.
pub fn extract_csharp_visibility(n: &Node<'_>) -> (res: Option<String>)
    ensures
        res.deep_view() == txt_of(found(&AccessModifier, *n)),
{
    match find_child(&AccessModifier, *n) {
        Some(c) => Some(own(c.text())),
        None => None,
    }
}

/// The name of a method or constructor.
pub open spec fn function_name(n: Node<'_>) -> Seq<char> {
    match n.at("name") {
        Some(name) => name.txt(),
        None => or_empty(txt_of(first(n, "identifier"))),
    }
}

fn find_function_name(n: &Node<'_>) -> (res: String)
    ensures
        res@ == function_name(*n),
{
    match n.child_by_field_name("name") {
        Some(name) => own(name.text()),
        None => match text_of_child(n, "identifier") {
            Some(name) => name,
            None => String::new(),
        },
    }
}

/// What is reported of a method or constructor.
pub open spec fn function_info(n: Node<'_>) -> Function {
    Function {
        params: params(n),
        return_type: field_txt(n, "type"),
        docstring: docstring(n),
        is_method: true,
        is_async: found(&AsyncModifier, n) is Some,
        decorators: nearest_first(&Attributes, n.left()).reverse(),
        visibility: txt_of(found(&AccessModifier, n)),
        line_number: declaration_line(n),
        ..function_at(function_name(n), n)
    }
}

/// What is reported of a method or constructor.
pub fn extract_csharp_function_info(n: &Node<'_>) -> (res: FunctionInfo)
    ensures
        res.deep_view() == function_info(*n),
{
    let mut info = new_function(find_function_name(n), n);
    info.params = extract_csharp_params(n);
    info.return_type = field_text(n, "type");
    info.docstring = extract_csharp_docstring(n);
    info.is_method = true;
    info.is_async = find_child(&AsyncModifier, *n).is_some();
    info.decorators = backwards(look_back(&Attributes, n));
    info.visibility = extract_csharp_visibility(n);
    info.line_number = decl_keyword_line_from_node(n);
    info
}

/// All methods and constructors of a file.
pub struct Functions;

impl Walker for Functions {
    type Item = FunctionInfo;

    open spec fn yields(&self, c: Node<'_>) -> Seq<Function> {
        if c.isa("method_declaration") || c.isa("constructor_declaration") {
            seq![function_info(c)]
        } else {
            Seq::empty()
        }
    }

    open spec fn enters<'a>(&self, c: Node<'a>) -> Option<Node<'a>> {
        if c.isa("method_declaration") || c.isa("constructor_declaration") {
            None
        } else if c.isa("class_declaration") || c.isa("struct_declaration") || c.isa(
            "namespace_declaration",
        ) || c.isa("interface_declaration") {
            c.at("body")
        } else {
            Some(c)
        }
    }

    fn visit<'a>(&self, c: Node<'a>, out: &mut Vec<FunctionInfo>) -> (res: Option<Node<'a>>) {
        if c.is("method_declaration") || c.is("constructor_declaration") {
            emit(out, extract_csharp_function_info(&c));
            None
        } else if c.is("class_declaration") || c.is("struct_declaration") || c.is(
            "namespace_declaration",
        ) || c.is("interface_declaration") {
            c.child_by_field_name("body")
        } else {
            Some(c)
        }
    }
}

/// The methods and constructors of a class body.
pub struct BodyMethods;

impl Picker for BodyMethods {
    type Item = FunctionInfo;

    open spec fn picks(&self, c: Node<'_>) -> Seq<Function> {
        if c.isa("method_declaration") || c.isa("constructor_declaration") {
            seq![function_info(c)]
        } else {
            Seq::empty()
        }
    }

    fn pick(&self, c: Node<'_>, out: &mut Vec<FunctionInfo>) {
        if c.is("method_declaration") || c.is("constructor_declaration") {
            emit(out, extract_csharp_function_info(&c));
        }
    }
}

/// The types in a list of bases.
pub struct BaseTypes;

impl Picker for BaseTypes {
    type Item = String;

    open spec fn picks(&self, c: Node<'_>) -> Seq<Seq<char>> {
        if c.isa("identifier") || c.isa("generic_name") || c.isa("qualified_name") {
            seq![c.txt()]
        } else {
            Seq::empty()
        }
    }

    fn pick(&self, c: Node<'_>, out: &mut Vec<String>) {
        if c.is("identifier") || c.is("generic_name") || c.is("qualified_name") {
            emit(out, own(c.text()));
        }
    }
}

/// The types in the lists of bases among the children.
pub struct BaseLists;

impl Picker for BaseLists {
    type Item = String;

    open spec fn picks(&self, c: Node<'_>) -> Seq<Seq<char>> {
        if c.isa("base_list") {
            picked(&BaseTypes, c)
        } else {
            Seq::empty()
        }
    }

    fn pick(&self, c: Node<'_>, out: &mut Vec<String>) {
        if c.is("base_list") {
            pick_into(&BaseTypes, c, out);
        }
    }
}

/// The types that a type builds on.
pub open spec fn bases(n: Node<'_>) -> Seq<Seq<char>> {
    match n.at("bases") {
        Some(list) => picked(&BaseTypes, list),
        None => picked(&BaseLists, n),
    }
}

/// The types that a type builds on.
pub fn extract_csharp_bases(n: &Node<'_>) -> (res: Vec<String>)
    ensures
        res.deep_view() == bases(*n),
{
    match n.child_by_field_name("bases") {
        Some(list) => pick_all(&BaseTypes, list),
        None => pick_all(&BaseLists, *n),
    }
}

/// What is reported of a class, struct or interface.
pub open spec fn class_info(n: Node<'_>) -> Class {
    Class {
        bases: bases(n),
        docstring: docstring(n),
        methods: match n.at("body") {
            Some(body) => picked(&BodyMethods, body),
            None => Seq::empty(),
        },
        line_number: declaration_line(n),
        ..class_at(or_empty(field_txt(n, "name")), n)
    }
}

/// What is reported of a class, struct or interface.
pub fn extract_csharp_class_info(n: &Node<'_>) -> (res: ClassInfo)
    ensures
        res.deep_view() == class_info(*n),
{
    let mut info = new_class(field_text_or_empty(n, "name"), n);
    info.bases = extract_csharp_bases(n);
    info.docstring = extract_csharp_docstring(n);
    match n.child_by_field_name("body") {
        Some(body) => {
            info.methods = pick_all(&BodyMethods, body);
        },
        None => {},
    }
    info.line_number = decl_keyword_line_from_node(n);
    info
}

/// All classes, structs and interfaces of a file, but for those inside of others.
pub struct Classes;

impl Walker for Classes {
    type Item = ClassInfo;

    open spec fn yields(&self, c: Node<'_>) -> Seq<Class> {
        if c.isa("class_declaration") || c.isa("struct_declaration") || c.isa(
            "interface_declaration",
        ) {
            seq![class_info(c)]
        } else {
            Seq::empty()
        }
    }

    open spec fn enters<'a>(&self, c: Node<'a>) -> Option<Node<'a>> {
        if c.isa("class_declaration") || c.isa("struct_declaration") || c.isa(
            "interface_declaration",
        ) {
            None
        } else {
            Some(c)
        }
    }

    fn visit<'a>(&self, c: Node<'a>, out: &mut Vec<ClassInfo>) -> (res: Option<Node<'a>>) {
        if c.is("class_declaration") || c.is("struct_declaration") || c.is("interface_declaration")
        {
            emit(out, extract_csharp_class_info(&c));
            None
        } else {
            Some(c)
        }
    }
}

} // verus!
