//! Java: methods and constructors, classes, fields.

use vstd::prelude::*;

use crate::docs::{block_doc, parse_block_doc_comment};
use crate::items::{class_at, field_at, function_at, new_class, new_field, new_function};
use crate::lists::{emit, group_lists, none, push_some, some_seq};
use crate::names::{is_constant_name, is_upper_case_name};
use crate::nodes::{
    field_text, field_text_or_empty, field_txt, or_empty, some_text, txt_of,
};
use crate::spans::{decl_keyword_line_from_node, declaration_line};
use crate::text::{begins, contains, has, own, starts_with};
use crate::tree::{group_tree, same, Node};
use crate::types::{Class, ClassInfo, Field, FieldInfo, Function, FunctionInfo};
use crate::walk::{
    find_child, found, gather, gathered, past, pick_all, pick_into, picked, skip_back, Picker, Test,
    Walker,
};

verus! {

broadcast use {group_tree, group_lists};

/// The access keyword that a kind names.
pub open spec fn access_kind(n: Node<'_>) -> Option<Seq<char>> {
    if n.isa("public") || n.isa("private") || n.isa("protected") {
        Some(n.tag())
    } else {
        None
    }
}

/// The access keyword that a modifier is, by its kind or by its text.
pub open spec fn access_word(n: Node<'_>) -> Option<Seq<char>> {
    match access_kind(n) {
        Some(word) => Some(word),
        None => if n.txt() == "public"@ || n.txt() == "private"@ || n.txt() == "protected"@ {
            Some(n.txt())
        } else {
            None
        },
    }
}

fn find_access_kind(n: &Node<'_>) -> (res: Option<String>)
    ensures
        res.deep_view() == access_kind(*n),
{
    if n.is("public") || n.is("private") || n.is("protected") {
        Some(own(n.kind()))
    } else {
        None
    }
}

/// The access keywords of a list of modifiers.
pub struct AccessWords;

impl Picker for AccessWords {
    type Item = String;

    open spec fn picks(&self, c: Node<'_>) -> Seq<Seq<char>> {
        some_seq(access_word(c))
    }

    fn pick(&self, c: Node<'_>, out: &mut Vec<String>) {
        let word = match find_access_kind(&c) {
            Some(word) => Some(word),
            None => if same(c.text(), "public") || same(c.text(), "private") || same(
                c.text(),
                "protected",
            ) {
                Some(own(c.text()))
            } else {
                None
            },
        };
        push_some(out, word);
    }
}

/// The access keywords of a declaration.
pub struct Access;

impl Picker for Access {
    type Item = String;

    open spec fn picks(&self, c: Node<'_>) -> Seq<Seq<char>> {
        (if c.isa("modifiers") {
            picked(&AccessWords, c)
        } else {
            Seq::empty()
        }) + some_seq(access_kind(c))
    }

    fn pick(&self, c: Node<'_>, out: &mut Vec<String>) {
        let ghost before = out.deep_view();
        if c.is("modifiers") {
            pick_into(&AccessWords, c, out);
        }
        push_some(out, find_access_kind(&c));
        assert(out.deep_view() =~= before + self.picks(c));
    }
}

/// The visibility of a declaration: its first access keyword.
pub open spec fn visibility(n: Node<'_>) -> Option<Seq<char>> {
    if picked(&Access, n).len() > 0 {
        Some(picked(&Access, n)[0])
    } else {
        None
    }
}

/// The visibility of a declaration: its first access keyword.
pub fn extract_java_visibility(n: &Node<'_>) -> (res: Option<String>)
    ensures
        res.deep_view() == visibility(*n),
{
    let found_words = pick_all(&Access, *n);
    if found_words.len() > 0 {
        assert(found_words.deep_view()[0] == found_words@[0]@);
        Some(found_words[0].clone())
    } else {
        None
    }
}

/// The parameters in a parameter list.
pub struct Params;

impl Picker for Params {
    type Item = String;

    open spec fn picks(&self, c: Node<'_>) -> Seq<Seq<char>> {
        if c.isa("formal_parameter") {
            some_seq(field_txt(c, "name"))
        } else {
            Seq::empty()
        }
    }

    fn pick(&self, c: Node<'_>, out: &mut Vec<String>) {
        if c.is("formal_parameter") {
            push_some(out, field_text(&c, "name"));
        }
    }
}

/// The parameters of a method.
pub open spec fn params(n: Node<'_>) -> Seq<Seq<char>> {
    match n.at("parameters") {
        Some(list) => picked(&Params, list),
        None => Seq::empty(),
    }
}

/// The parameters of a method.
pub fn extract_java_params(n: &Node<'_>) -> (res: Vec<String>)
    ensures
        res.deep_view() == params(*n),
{
    match n.child_by_field_name("parameters") {
        Some(list) => pick_all(&Params, list),
        None => none(),
    }
}

/// Annotations.
pub struct Annotation;

impl Test for Annotation {
    open spec fn accepts(&self, c: Node<'_>) -> bool {
        c.isa("marker_annotation") || c.isa("annotation")
    }

    fn test(&self, c: Node<'_>) -> (res: bool) {
        c.is("marker_annotation") || c.is("annotation")
    }
}

/// The doc comment of a declaration, past its annotations.
pub open spec fn docstring(n: Node<'_>) -> Option<Seq<char>> {
    match past(&Annotation, n.left()) {
        Some(c) if (c.isa("block_comment") || c.isa("comment")) && begins(c.txt(), "/**"@) =>
            block_doc(c.txt()),
        _ => None,
    }
}

/// The doc comment of a declaration, past its annotations.
pub fn extract_java_docstring(n: &Node<'_>) -> (res: Option<String>)
    ensures
        res.deep_view() == docstring(*n),
{
    match skip_back(&Annotation, n) {
        Some(c) => if (c.is("block_comment") || c.is("comment")) && starts_with(c.text(), "/**") {
            parse_block_doc_comment(c.text())
        } else {
            None
        },
        None => None,
    }
}

/// What is reported of a method or constructor.
pub open spec fn function_info(n: Node<'_>) -> Function {
    Function {
        params: params(n),
        return_type: field_txt(n, "type"),
        docstring: docstring(n),
        is_method: true,
        visibility: visibility(n),
        line_number: declaration_line(n),
        ..function_at(or_empty(field_txt(n, "name")), n)
    }
}

/// What is reported of a method or constructor.
pub fn extract_java_function_info(n: &Node<'_>) -> (res: FunctionInfo)
    ensures
        res.deep_view() == function_info(*n),
{
    let mut info = new_function(field_text_or_empty(n, "name"), n);
    info.params = extract_java_params(n);
    info.return_type = field_text(n, "type");
    info.docstring = extract_java_docstring(n);
    info.is_method = true;
    info.visibility = extract_java_visibility(n);
    info.line_number = decl_keyword_line_from_node(n);
    info
}

/// All methods and constructors below a node.
pub struct Functions;

impl Walker for Functions {
    type Item = FunctionInfo;

    open spec fn yields(&self, c: Node<'_>) -> Seq<Function> {
        if c.isa("method_declaration") || c.isa("constructor_declaration") {
            seq![function_info(c)]
        } else {
            Seq::empty()
        }
    }

    open spec fn enters<'a>(&self, c: Node<'a>) -> Option<Node<'a>> {
        Some(c)
    }

    fn visit<'a>(&self, c: Node<'a>, out: &mut Vec<FunctionInfo>) -> (res: Option<Node<'a>>) {
        if c.is("method_declaration") || c.is("constructor_declaration") {
            emit(out, extract_java_function_info(&c));
        }
        Some(c)
    }
}

/// Names of types without type arguments.
pub struct PlainType;

impl Test for PlainType {
    open spec fn accepts(&self, c: Node<'_>) -> bool {
        c.isa("type_identifier") || c.isa("scoped_type_identifier")
    }

    fn test(&self, c: Node<'_>) -> (res: bool) {
        c.is("type_identifier") || c.is("scoped_type_identifier")
    }
}

/// The name of a type, without its type arguments.
pub open spec fn plain_type_name(n: Node<'_>) -> Option<Seq<char>> {
    if n.isa("type_identifier") {
        Some(n.txt())
    } else if n.isa("generic_type") {
        txt_of(found(&PlainType, n))
    } else if n.isa("scoped_type_identifier") {
        Some(n.txt())
    } else {
        None
    }
}

/// The name of a type, without its type arguments.
pub fn extract_java_type_name(n: &Node<'_>) -> (res: Option<String>)
    ensures
        res.deep_view() == plain_type_name(*n),
{
    if n.is("type_identifier") {
        Some(own(n.text()))
    } else if n.is("generic_type") {
        match find_child(&PlainType, *n) {
            Some(c) => Some(own(c.text())),
            None => None,
        }
    } else if n.is("scoped_type_identifier") {
        Some(own(n.text()))
    } else {
        None
    }
}

/// The types among the children.
pub struct TypeNames;

impl Picker for TypeNames {
    type Item = String;

    open spec fn picks(&self, c: Node<'_>) -> Seq<Seq<char>> {
        some_seq(plain_type_name(c))
    }

    fn pick(&self, c: Node<'_>, out: &mut Vec<String>) {
        push_some(out, extract_java_type_name(&c));
    }
}

/// The types among the children, and in the type lists among them.
pub struct TypeList;

impl Picker for TypeList {
    type Item = String;

    open spec fn picks(&self, c: Node<'_>) -> Seq<Seq<char>> {
        if c.isa("type_list") {
            picked(&TypeNames, c)
        } else {
            some_seq(plain_type_name(c))
        }
    }

    fn pick(&self, c: Node<'_>, out: &mut Vec<String>) {
        if c.is("type_list") {
            pick_into(&TypeNames, c, out);
        } else {
            push_some(out, extract_java_type_name(&c));
        }
    }
}

/// The interfaces that an interface extends.
pub struct Extended;

impl Picker for Extended {
    type Item = String;

    open spec fn picks(&self, c: Node<'_>) -> Seq<Seq<char>> {
        if c.isa("extends_interfaces") {
            picked(&TypeList, c)
        } else {
            Seq::empty()
        }
    }

    fn pick(&self, c: Node<'_>, out: &mut Vec<String>) {
        if c.is("extends_interfaces") {
            pick_into(&TypeList, c, out);
        }
    }
}

/// The classes and interfaces that a class builds on.
pub open spec fn bases(n: Node<'_>) -> Seq<Seq<char>> {
    (match n.at("superclass") {
        Some(c) => picked(&TypeNames, c),
        None => Seq::empty(),
    }) + (match n.at("interfaces") {
        Some(c) => picked(&TypeList, c),
        None => Seq::empty(),
    }) + picked(&Extended, n)
}

/// The classes and interfaces that a class builds on.
pub fn extract_java_class_bases(n: &Node<'_>) -> (res: Vec<String>)
    ensures
        res.deep_view() == bases(*n),
{
    let mut out: Vec<String> = none();
    match n.child_by_field_name("superclass") {
        Some(c) => pick_into(&TypeNames, c, &mut out),
        None => {},
    }
    match n.child_by_field_name("interfaces") {
        Some(c) => pick_into(&TypeList, c, &mut out),
        None => {},
    }
    pick_into(&Extended, *n, &mut out);
    out
}

/// The visibility that the text of a field states.
pub open spec fn stated_visibility(text: Seq<char>) -> Option<Seq<char>> {
    if has(text, "private "@) {
        Some("private"@)
    } else if has(text, "protected "@) {
        Some("protected"@)
    } else if has(text, "public "@) {
        Some("public"@)
    } else {
        Some("package"@)
    }
}

fn find_stated_visibility(text: &str) -> (res: Option<String>)
    ensures
        res.deep_view() == stated_visibility(text@),
{
    if contains(text, "private ") {
        some_text("private")
    } else if contains(text, "protected ") {
        some_text("protected")
    } else if contains(text, "public ") {
        some_text("public")
    } else {
        some_text("package")
    }
}

/// The fields that a declaration declares.
pub struct Declarators<'b> {
    pub declaration: Node<'b>,
}

impl<'b> Picker for Declarators<'b> {
    type Item = FieldInfo;

    open spec fn picks(&self, c: Node<'_>) -> Seq<Field> {
        let text = self.declaration.txt();
        match field_txt(c, "name") {
            Some(name) if c.isa("variable_declarator") => seq![
                Field {
                    field_type: field_txt(self.declaration, "type"),
                    default_value: field_txt(c, "value"),
                    is_static: has(text, "static "@),
                    is_constant: has(text, "static "@) && has(text, "final "@)
                        && is_constant_name(name),
                    visibility: stated_visibility(text),
                    ..field_at(name, self.declaration)
                },
            ],
            _ => Seq::empty(),
        }
    }

    fn pick(&self, c: Node<'_>, out: &mut Vec<FieldInfo>) {
        if !c.is("variable_declarator") {
            return;
        }
        match field_text(&c, "name") {
            Some(name) => {
                let text: &str = self.declaration.text();
                let is_static = contains(text, "static ");
                let is_constant = is_static && contains(text, "final ") && is_upper_case_name(
                    name.as_str(),
                );
                let mut info = new_field(name, &self.declaration);
                info.field_type = field_text(&self.declaration, "type");
                info.default_value = field_text(&c, "value");
                info.is_static = is_static;
                info.is_constant = is_constant;
                info.visibility = find_stated_visibility(text);
                emit(out, info);
            },
            None => {},
        }
    }
}

/// The fields of a class body.
pub struct Fields;

impl Picker for Fields {
    type Item = FieldInfo;

    open spec fn picks(&self, c: Node<'_>) -> Seq<Field> {
        if c.isa("field_declaration") {
            picked(&Declarators { declaration: c }, c)
        } else {
            Seq::empty()
        }
    }

    fn pick(&self, c: Node<'_>, out: &mut Vec<FieldInfo>) {
        if c.is("field_declaration") {
            pick_into(&Declarators { declaration: c }, c, out);
        }
    }
}

/// What is reported of a class, interface, enum or record.
pub open spec fn class_info(n: Node<'_>) -> Class {
    Class {
        bases: bases(n),
        docstring: docstring(n),
        methods: match n.at("body") {
            Some(body) => gathered(&Functions, body),
            None => Seq::empty(),
        },
        fields: match n.at("body") {
            Some(body) => picked(&Fields, body),
            None => Seq::empty(),
        },
        line_number: declaration_line(n),
        ..class_at(or_empty(field_txt(n, "name")), n)
    }
}

fn extract_java_class_info(n: &Node<'_>) -> (res: ClassInfo)
    ensures
        res.deep_view() == class_info(*n),
{
    let mut info = new_class(field_text_or_empty(n, "name"), n);
    info.bases = extract_java_class_bases(n);
    info.docstring = extract_java_docstring(n);
    match n.child_by_field_name("body") {
        Some(body) => {
            info.methods = gather(&Functions, body);
            info.fields = pick_all(&Fields, body);
        },
        None => {},
    }
    info.line_number = decl_keyword_line_from_node(n);
    info
}

/// All classes, interfaces, enums and records of a file.
pub struct Classes;

impl Walker for Classes {
    type Item = ClassInfo;

    open spec fn yields(&self, c: Node<'_>) -> Seq<Class> {
        if c.isa("class_declaration") || c.isa("interface_declaration") || c.isa(
            "enum_declaration",
        ) || c.isa("record_declaration") {
            seq![class_info(c)]
        } else {
            Seq::empty()
        }
    }

    open spec fn enters<'a>(&self, c: Node<'a>) -> Option<Node<'a>> {
        Some(c)
    }

    fn visit<'a>(&self, c: Node<'a>, out: &mut Vec<ClassInfo>) -> (res: Option<Node<'a>>) {
        if c.is("class_declaration") || c.is("interface_declaration") || c.is("enum_declaration")
            || c.is("record_declaration") {
            emit(out, extract_java_class_info(&c));
        }
        Some(c)
    }
}

} // verus!
