//! Go: functions, structs and interfaces, methods by their receiver.

use vstd::prelude::*;
use vstd::string::StrSliceExecFns;

use crate::docs::{join_lines, joined_lines};
use crate::grouping::{attach_all, attached_all};
use crate::items::{class_at, field_at, function_at, new_class, new_field, new_function};
use crate::lists::{backwards, emit, group_lists, none, one, push_some, some_seq};
use crate::names::{capital_visibility, visibility_by_capital};
use crate::nodes::{
    field_text, field_text_or_empty, field_txt, first, has_child, or_empty, some_text,
};
use crate::text::{
    ahead_all, begins, behind_all, behind_or_all, own, starts_with, strip_front, strip_prefix,
    stripped_front, trim, trimmed, without_prefix, without_prefixes, without_suffixes,
};
use crate::tree::{group_tree, Node};
use crate::types::{Class, ClassInfo, Field, FieldInfo, Function, FunctionInfo};
use crate::walk::{
    find_child, fold, folded, found, gather, gathered, look_back, nearest_first, pick_all,
    pick_into, picked, Back, Fold, Picker, Test, Walker,
};

verus! {

broadcast use {group_tree, group_lists};

/// Names that begin with an ASCII upper case letter are public, others private.
pub open spec fn name_visibility(name: Seq<char>) -> Option<Seq<char>> {
    if name.len() == 0 {
        None
    } else if 'A' <= name[0] <= 'Z' {
        Some("public"@)
    } else {
        Some("private"@)
    }
}

/// Names that begin with an ASCII upper case letter are public, others private.
pub fn go_name_visibility(name: &str) -> (res: Option<String>)
    ensures
        res.deep_view() == name_visibility(name@),
{
    if name.is_empty() {
        return None;
    }
    let first: char = name.get_char(0);
    if 'A' <= first && first <= 'Z' {
        some_text("public")
    } else {
        some_text("private")
    }
}

/// A line comment without its slashes and the space behind them.
pub open spec fn comment_line(text: Seq<char>) -> Seq<char> {
    if begins(text, "// "@) {
        behind_or_all(text, "// "@)
    } else {
        behind_or_all(text, "//"@)
    }
}

/// The line comments just before a declaration.
pub struct LineComments;

impl Back for LineComments {
    type Item = String;

    open spec fn passes(&self, c: Node<'_>) -> bool {
        c.isa("comment") && !begins(c.txt(), "/*"@) && begins(c.txt(), "//"@)
    }

    open spec fn takes(&self, c: Node<'_>) -> Option<Seq<char>> {
        Some(comment_line(c.txt()))
    }

    fn pass(&self, c: Node<'_>) -> (res: bool) {
        c.is("comment") && !starts_with(c.text(), "/*") && starts_with(c.text(), "//")
    }

    fn take(&self, c: Node<'_>) -> (res: Option<String>) {
        let text: &str = c.text();
        match strip_prefix(text, "// ") {
            Some(rest) => Some(own(rest)),
            None => Some(own(without_prefix(text, "//"))),
        }
    }
}

/// The comment of a declaration: a block comment just before it, or the line
/// comments just before it.
pub open spec fn docstring(n: Node<'_>) -> Option<Seq<char>> {
    match n.left() {
        Some(p) if p.isa("comment") && begins(p.txt(), "/*"@) => {
            let inner = trimmed(ahead_all(behind_all(p.txt(), "/*"@), "*/"@));
            if inner.len() == 0 {
                None
            } else {
                Some(inner)
            }
        },
        _ => joined_lines(nearest_first(&LineComments, n.left()).reverse()),
    }
}

/// The comment of a declaration.
pub fn extract_go_docstring(n: &Node<'_>) -> (res: Option<String>)
    ensures
        res.deep_view() == docstring(*n),
{
    match n.prev_sibling() {
        Some(p) => {
            if p.is("comment") && starts_with(p.text(), "/*") {
                let inner: &str = trim(
                    without_suffixes(without_prefixes(p.text(), "/*"), "*/"),
                );
                if inner.is_empty() {
                    return None;
                }
                return Some(own(inner));
            }
        },
        None => {},
    }
    join_lines(&backwards(look_back(&LineComments, n)))
}

/// The identifiers of a parameter declaration.
pub struct Identifiers;

impl Picker for Identifiers {
    type Item = String;

    open spec fn picks(&self, c: Node<'_>) -> Seq<Seq<char>> {
        if c.isa("identifier") {
            seq![c.txt()]
        } else {
            Seq::empty()
        }
    }

    fn pick(&self, c: Node<'_>, out: &mut Vec<String>) {
        if c.is("identifier") {
            emit(out, own(c.text()));
        }
    }
}

/// The parameters in a parameter list. One declaration can name several.
pub struct Params;

impl Picker for Params {
    type Item = String;

    open spec fn picks(&self, c: Node<'_>) -> Seq<Seq<char>> {
        if c.isa("parameter_declaration") {
            if first(c, "identifier") is Some {
                picked(&Identifiers, c)
            } else {
                some_seq(field_txt(c, "name"))
            }
        } else {
            Seq::empty()
        }
    }

    fn pick(&self, c: Node<'_>, out: &mut Vec<String>) {
        if c.is("parameter_declaration") {
            if has_child(&c, "identifier") {
                pick_into(&Identifiers, c, out);
            } else {
                push_some(out, field_text(&c, "name"));
            }
        }
    }
}

/// The parameters of a function.
pub open spec fn params(n: Node<'_>) -> Seq<Seq<char>> {
    match n.at("parameters") {
        Some(list) => picked(&Params, list),
        None => Seq::empty(),
    }
}

/// The parameters of a function.
pub fn extract_go_params(n: &Node<'_>) -> (res: Vec<String>)
    ensures
        res.deep_view() == params(*n),
{
    match n.child_by_field_name("parameters") {
        Some(list) => pick_all(&Params, list),
        None => none(),
    }
}

/// What is reported of a function or method.
pub open spec fn function_info(n: Node<'_>) -> Function {
    let name = or_empty(field_txt(n, "name"));
    Function {
        params: params(n),
        return_type: field_txt(n, "result"),
        docstring: docstring(n),
        is_method: n.isa("method_declaration"),
        visibility: name_visibility(name),
        ..function_at(name, n)
    }
}

/// What is reported of a function or method.
pub fn extract_go_function_info(n: &Node<'_>) -> (res: FunctionInfo)
    ensures
        res.deep_view() == function_info(*n),
{
    let name = field_text_or_empty(n, "name");
    let visibility = go_name_visibility(name.as_str());
    let mut info = new_function(name, n);
    info.params = extract_go_params(n);
    info.return_type = field_text(n, "result");
    info.docstring = extract_go_docstring(n);
    info.is_method = n.is("method_declaration");
    info.visibility = visibility;
    info
}

/// All functions of a file that are no methods.
pub struct Functions;

impl Walker for Functions {
    type Item = FunctionInfo;

    open spec fn yields(&self, c: Node<'_>) -> Seq<Function> {
        if c.isa("function_declaration") {
            seq![function_info(c)]
        } else {
            Seq::empty()
        }
    }

    open spec fn enters<'a>(&self, c: Node<'a>) -> Option<Node<'a>> {
        Some(c)
    }

    fn visit<'a>(&self, c: Node<'a>, out: &mut Vec<FunctionInfo>) -> (res: Option<Node<'a>>) {
        if c.is("function_declaration") {
            emit(out, extract_go_function_info(&c));
        }
        Some(c)
    }
}

/// The names that a field declaration gives, a field each.
pub struct FieldNames<'b> {
    pub declaration: Node<'b>,
}

impl<'b> Picker for FieldNames<'b> {
    type Item = FieldInfo;

    open spec fn picks(&self, c: Node<'_>) -> Seq<Field> {
        if c.isa("field_identifier") {
            seq![
                Field {
                    field_type: field_txt(self.declaration, "type"),
                    visibility: capital_visibility(c.txt()),
                    ..field_at(c.txt(), self.declaration)
                },
            ]
        } else {
            Seq::empty()
        }
    }

    fn pick(&self, c: Node<'_>, out: &mut Vec<FieldInfo>) {
        if c.is("field_identifier") {
            let mut info = new_field(own(c.text()), &self.declaration);
            info.field_type = field_text(&self.declaration, "type");
            info.visibility = visibility_by_capital(c.text());
            emit(out, info);
        }
    }
}

/// The fields in a list of field declarations.
pub struct FieldList;

impl Picker for FieldList {
    type Item = FieldInfo;

    open spec fn picks(&self, c: Node<'_>) -> Seq<Field> {
        if c.isa("field_declaration") {
            picked(&FieldNames { declaration: c }, c)
        } else {
            Seq::empty()
        }
    }

    fn pick(&self, c: Node<'_>, out: &mut Vec<FieldInfo>) {
        if c.is("field_declaration") {
            pick_into(&FieldNames { declaration: c }, c, out);
        }
    }
}

/// The fields of a struct.
pub struct Fields;

impl Picker for Fields {
    type Item = FieldInfo;

    open spec fn picks(&self, c: Node<'_>) -> Seq<Field> {
        if c.isa("field_declaration_list") {
            picked(&FieldList, c)
        } else {
            Seq::empty()
        }
    }

    fn pick(&self, c: Node<'_>, out: &mut Vec<FieldInfo>) {
        if c.is("field_declaration_list") {
            pick_into(&FieldList, c, out);
        }
    }
}

/// The named parameters in the parameter list of an interface method.
pub struct ListedNames;

impl Picker for ListedNames {
    type Item = String;

    open spec fn picks(&self, c: Node<'_>) -> Seq<Seq<char>> {
        if c.isa("parameter_declaration") {
            some_seq(field_txt(c, "name"))
        } else {
            Seq::empty()
        }
    }

    fn pick(&self, c: Node<'_>, out: &mut Vec<String>) {
        if c.is("parameter_declaration") {
            push_some(out, field_text(&c, "name"));
        }
    }
}

/// The parameters of an interface method.
pub struct SignatureParams;

impl Picker for SignatureParams {
    type Item = String;

    open spec fn picks(&self, c: Node<'_>) -> Seq<Seq<char>> {
        if c.isa("parameter_list") {
            picked(&ListedNames, c)
        } else {
            Seq::empty()
        }
    }

    fn pick(&self, c: Node<'_>, out: &mut Vec<String>) {
        if c.is("parameter_list") {
            pick_into(&ListedNames, c, out);
        }
    }
}

/// Types that can be a single return type.
pub struct SingleType;

impl Test for SingleType {
    open spec fn accepts(&self, c: Node<'_>) -> bool {
        c.isa("type_identifier") || c.isa("qualified_type") || c.isa("pointer_type") || c.isa(
            "slice_type",
        ) || c.isa("map_type") || c.isa("channel_type") || c.isa("function_type") || c.isa(
            "interface_type",
        ) || c.isa("struct_type") || c.isa("parenthesized_type")
    }

    fn test(&self, c: Node<'_>) -> (res: bool) {
        c.is("type_identifier") || c.is("qualified_type") || c.is("pointer_type") || c.is(
            "slice_type",
        ) || c.is("map_type") || c.is("channel_type") || c.is("function_type") || c.is(
            "interface_type",
        ) || c.is("struct_type") || c.is("parenthesized_type")
    }
}

/// The last name, and the last single type, of an interface method.
pub struct SignatureParts;

impl Fold for SignatureParts {
    type State = (String, Option<String>);

    open spec fn step(&self, s: (Seq<char>, Option<Seq<char>>), c: Node<'_>) -> (
        Seq<char>,
        Option<Seq<char>>,
    ) {
        if c.isa("field_identifier") {
            (c.txt(), s.1)
        } else if c.isa("parameter_list") {
            s
        } else if SingleType.accepts(c) {
            (s.0, Some(c.txt()))
        } else {
            s
        }
    }

    fn next(&self, s: (String, Option<String>), c: Node<'_>) -> (res: (String, Option<String>)) {
        let ghost before = s.deep_view();
        let (name, kind) = s;
        assert(before == (name@, kind.deep_view()));
        if c.is("field_identifier") {
            (own(c.text()), kind)
        } else if c.is("parameter_list") {
            (name, kind)
        } else if SingleType.test(c) {
            (name, Some(own(c.text())))
        } else {
            (name, kind)
        }
    }
}

/// What is reported of a method of an interface.
pub open spec fn signature_info(n: Node<'_>) -> Option<Function> {
    let parts = folded(&SignatureParts, (Seq::empty(), None), n);
    if parts.0.len() == 0 {
        None
    } else {
        Some(
            Function {
                params: picked(&SignatureParams, n),
                return_type: match parts.1 {
                    Some(kind) => Some(kind),
                    None => field_txt(n, "result"),
                },
                docstring: docstring(n),
                is_method: true,
                visibility: name_visibility(parts.0),
                ..function_at(parts.0, n)
            },
        )
    }
}

fn extract_signature_info(n: &Node<'_>) -> (res: Option<FunctionInfo>)
    ensures
        res.deep_view() == signature_info(*n),
{
    let start: (String, Option<String>) = (String::new(), None);
    assert(start.deep_view() == (Seq::<char>::empty(), None::<Seq<char>>));
    let parts = fold(&SignatureParts, start, *n);
    assert(parts.deep_view() == (parts.0@, parts.1.deep_view()));
    let (name, kind) = parts;
    if name.as_str().is_empty() {
        return None;
    }
    let visibility = go_name_visibility(name.as_str());
    let mut info = new_function(name, n);
    info.params = pick_all(&SignatureParams, *n);
    info.return_type = match kind {
        Some(text) => Some(text),
        None => field_text(n, "result"),
    };
    info.docstring = extract_go_docstring(n);
    info.is_method = true;
    info.visibility = visibility;
    Some(info)
}

/// The methods of an interface.
pub struct Signatures;

impl Walker for Signatures {
    type Item = FunctionInfo;

    open spec fn yields(&self, c: Node<'_>) -> Seq<Function> {
        if c.isa("method_elem") || c.isa("method_spec") {
            some_seq(signature_info(c))
        } else {
            Seq::empty()
        }
    }

    open spec fn enters<'a>(&self, c: Node<'a>) -> Option<Node<'a>> {
        if c.isa("method_elem") || c.isa("method_spec") {
            None
        } else {
            Some(c)
        }
    }

    fn visit<'a>(&self, c: Node<'a>, out: &mut Vec<FunctionInfo>) -> (res: Option<Node<'a>>) {
        if c.is("method_elem") || c.is("method_spec") {
            push_some(out, extract_signature_info(&c));
            None
        } else {
            Some(c)
        }
    }
}

/// The structs and interfaces of a type declaration.
pub struct TypeSpecs<'b> {
    pub declaration: Node<'b>,
}

impl<'b> Picker for TypeSpecs<'b> {
    type Item = ClassInfo;

    open spec fn picks(&self, c: Node<'_>) -> Seq<Class> {
        let plain = Class {
            docstring: docstring(self.declaration),
            ..class_at(or_empty(field_txt(c, "name")), c)
        };
        match c.at("type") {
            Some(t) if c.isa("type_spec") => if t.isa("struct_type") {
                seq![Class { fields: picked(&Fields, t), ..plain }]
            } else if t.isa("interface_type") {
                seq![Class { methods: gathered(&Signatures, t), ..plain }]
            } else {
                Seq::empty()
            },
            _ => Seq::empty(),
        }
    }

    fn pick(&self, c: Node<'_>, out: &mut Vec<ClassInfo>) {
        if !c.is("type_spec") {
            return;
        }
        match c.child_by_field_name("type") {
            Some(t) => {
                if t.is("struct_type") {
                    let mut info = new_class(field_text_or_empty(&c, "name"), &c);
                    info.docstring = extract_go_docstring(&self.declaration);
                    info.fields = pick_all(&Fields, t);
                    emit(out, info);
                } else if t.is("interface_type") {
                    let mut info = new_class(field_text_or_empty(&c, "name"), &c);
                    info.docstring = extract_go_docstring(&self.declaration);
                    info.methods = gather(&Signatures, t);
                    emit(out, info);
                }
            },
            None => {},
        }
    }
}

/// The structs and interfaces of a file.
pub struct Types;

impl Picker for Types {
    type Item = ClassInfo;

    open spec fn picks(&self, c: Node<'_>) -> Seq<Class> {
        if c.isa("type_declaration") {
            picked(&TypeSpecs { declaration: c }, c)
        } else {
            Seq::empty()
        }
    }

    fn pick(&self, c: Node<'_>, out: &mut Vec<ClassInfo>) {
        if c.is("type_declaration") {
            pick_into(&TypeSpecs { declaration: c }, c, out);
        }
    }
}

/// Receivers that have a type.
pub struct TypedReceiver;

impl Test for TypedReceiver {
    open spec fn accepts(&self, c: Node<'_>) -> bool {
        c.isa("parameter_declaration") && c.at("type") is Some
    }

    fn test(&self, c: Node<'_>) -> (res: bool) {
        c.is("parameter_declaration") && c.child_by_field_name("type").is_some()
    }
}

/// The type of the receiver of a method, without the `*` of a pointer.
pub open spec fn receiver_type(n: Node<'_>) -> Seq<char> {
    match n.at("receiver") {
        Some(list) => match found(&TypedReceiver, list) {
            Some(c) => stripped_front(or_empty(field_txt(c, "type")), "*"@),
            None => Seq::empty(),
        },
        None => Seq::empty(),
    }
}

/// The type of the receiver of a method, without the `*` of a pointer.
pub fn extract_go_receiver_type(n: &Node<'_>) -> (res: String)
    ensures
        res@ == receiver_type(*n),
{
    match n.child_by_field_name("receiver") {
        Some(list) => match find_child(&TypedReceiver, list) {
            Some(c) => {
                let text = field_text_or_empty(&c, "type");
                own(strip_front(text.as_str(), "*"))
            },
            None => String::new(),
        },
        None => String::new(),
    }
}

/// The methods of a file, each with the type of its receiver.
pub struct Methods;

impl Walker for Methods {
    type Item = (String, Vec<FunctionInfo>);

    open spec fn yields(&self, c: Node<'_>) -> Seq<(Seq<char>, Seq<Function>)> {
        if c.isa("method_declaration") && receiver_type(c).len() > 0 {
            seq![(receiver_type(c), seq![function_info(c)])]
        } else {
            Seq::empty()
        }
    }

    open spec fn enters<'a>(&self, c: Node<'a>) -> Option<Node<'a>> {
        Some(c)
    }

    fn visit<'a>(&self, c: Node<'a>, out: &mut Vec<(String, Vec<FunctionInfo>)>) -> (res: Option<
        Node<'a>,
    >) {
        if c.is("method_declaration") {
            let receiver = extract_go_receiver_type(&c);
            if !receiver.as_str().is_empty() {
                emit(out, (receiver, one(extract_go_function_info(&c))));
            }
        }
        Some(c)
    }
}

/// The structs and interfaces of a file, with the methods of the file.
pub open spec fn classes(root: Node<'_>) -> Seq<Class> {
    let methods = gathered(&Methods, root);
    attached_all(picked(&Types, root), methods, true, methods.len())
}

/// The structs and interfaces of a file, with the methods of the file.
pub fn extract_go_structs_detailed(root: &Node<'_>) -> (res: Vec<ClassInfo>)
    ensures
        res.deep_view() == classes(*root),
{
    let mut res = pick_all(&Types, *root);
    attach_all(&mut res, gather(&Methods, *root), true);
    res
}

} // verus!
