//! Rust: functions, structs, enums and traits, methods by their impl.

use vstd::prelude::*;

use crate::constants::rust::{rust_visibility, visibility};
use crate::docs::{block_doc, join_lines, joined_lines, parse_block_doc_comment};
use crate::grouping::{attach_all, attached_all};
use crate::items::{class_at, field_at, function_at, new_class, new_field, new_function};
use crate::lists::{backwards, emit, extend, group_lists, holds, none, push_some, some_seq};
use crate::nodes::{field_text, field_text_or_empty, field_txt, or_empty};
use crate::text::{
    ahead, begins, behind, behind_all, behind_or_all, concat3, contains, has, lower, own, pieces,
    split, starts_with, strip_prefix, strip_suffix, to_lowercase, trim, trimmed, without_prefix,
    without_prefixes,
};
use crate::tree::{group_tree, Node};
use crate::types::{Class, ClassInfo, Field, FieldInfo, Function, FunctionInfo};
use crate::walk::{
    gather, gathered, inside, is_inside, look_back, nearest_first, past, pick_all, pick_into,
    picked, skip_back, Back, Picker, Test, Walker,
};

verus! {

broadcast use {group_tree, group_lists};

/// Impl blocks.
pub struct ImplItem;

impl Test for ImplItem {
    open spec fn accepts(&self, c: Node<'_>) -> bool {
        c.isa("impl_item")
    }

    fn test(&self, c: Node<'_>) -> (res: bool) {
        c.is("impl_item")
    }
}

/// The parameters in a parameter list, `self` as written.
pub struct Params;

impl Picker for Params {
    type Item = String;

    open spec fn picks(&self, c: Node<'_>) -> Seq<Seq<char>> {
        if c.isa("parameter") {
            some_seq(field_txt(c, "pattern"))
        } else if c.isa("self_parameter") {
            seq![c.txt()]
        } else {
            Seq::empty()
        }
    }

    fn pick(&self, c: Node<'_>, out: &mut Vec<String>) {
        if c.is("parameter") {
            push_some(out, field_text(&c, "pattern"));
        } else if c.is("self_parameter") {
            emit(out, own(c.text()));
        }
    }
}

/// The parameters of a function.
pub open spec fn params(n: Node<'_>) -> Seq<Seq<char>> {
    match n.at("parameters") {
        Some(list) => picked(&Params, list),
        None => Seq::empty(),
    }
}

/// The parameters of a function.
pub fn extract_rust_params(n: &Node<'_>) -> (res: Vec<String>)
    ensures
        res.deep_view() == params(*n),
{
    match n.child_by_field_name("parameters") {
        Some(list) => pick_all(&Params, list),
        None => none(),
    }
}

/// A doc line without its slashes and the space behind them.
pub open spec fn doc_line(text: Seq<char>) -> Seq<char> {
    if begins(text, "/// "@) {
        behind_or_all(text, "/// "@)
    } else {
        behind_or_all(text, "///"@)
    }
}

/// The doc lines before an item, past its attributes.
pub struct DocLines;

impl Back for DocLines {
    type Item = String;

    open spec fn passes(&self, c: Node<'_>) -> bool {
        (c.isa("line_comment") && begins(c.txt(), "///"@)) || c.isa("attribute_item")
    }

    open spec fn takes(&self, c: Node<'_>) -> Option<Seq<char>> {
        if c.isa("line_comment") {
            Some(doc_line(c.txt()))
        } else {
            None
        }
    }

    fn pass(&self, c: Node<'_>) -> (res: bool) {
        (c.is("line_comment") && starts_with(c.text(), "///")) || c.is("attribute_item")
    }

    fn take(&self, c: Node<'_>) -> (res: Option<String>) {
        if !c.is("line_comment") {
            return None;
        }
        let text: &str = c.text();
        match strip_prefix(text, "/// ") {
            Some(rest) => Some(own(rest)),
            None => Some(own(without_prefix(text, "///"))),
        }
    }
}

/// Attributes.
pub struct AttributeItem;

impl Test for AttributeItem {
    open spec fn accepts(&self, c: Node<'_>) -> bool {
        c.isa("attribute_item")
    }

    fn test(&self, c: Node<'_>) -> (res: bool) {
        c.is("attribute_item")
    }
}

/// The documentation of an item: the doc lines before it, or a doc block just
/// before it, past its attributes.
pub open spec fn docstring(n: Node<'_>) -> Option<Seq<char>> {
    let lines = nearest_first(&DocLines, n.left()).reverse();
    match past(&AttributeItem, n.left()) {
        Some(c) if lines.len() == 0 && c.isa("block_comment") && begins(c.txt(), "/**"@) =>
            block_doc(c.txt()),
        _ => joined_lines(lines),
    }
}

/// The documentation of an item.
pub fn extract_rust_docstring(n: &Node<'_>) -> (res: Option<String>)
    ensures
        res.deep_view() == docstring(*n),
{
    let lines = backwards(look_back(&DocLines, n));
    if lines.len() == 0 {
        match skip_back(&AttributeItem, n) {
            Some(c) => {
                if c.is("block_comment") && starts_with(c.text(), "/**") {
                    return parse_block_doc_comment(c.text());
                }
            },
            None => {},
        }
    }
    join_lines(&lines)
}

/// The content of an attribute, without the brackets around it.
pub open spec fn attribute_content(raw: Seq<char>) -> Option<Seq<char>> {
    let t = trimmed(raw);
    let opened = match behind(t, "#!["@) {
        Some(rest) => Some(rest),
        None => behind(t, "#["@),
    };
    let inner = match opened {
        Some(rest) => match ahead(rest, "]"@) {
            Some(inside) => trimmed(inside),
            None => trimmed(t),
        },
        None => trimmed(t),
    };
    if inner.len() == 0 {
        None
    } else {
        Some(inner)
    }
}

/// The content of an attribute, without the brackets around it.
pub fn parse_rust_attribute_item(n: &Node<'_>) -> (res: Option<String>)
    ensures
        res.deep_view() == attribute_content(n.txt()),
{
    let t: &str = trim(n.text());
    let opened = match strip_prefix(t, "#![") {
        Some(rest) => Some(rest),
        None => strip_prefix(t, "#["),
    };
    let inner: &str = match opened {
        Some(rest) => match strip_suffix(rest, "]") {
            Some(inside) => trim(inside),
            None => trim(t),
        },
        None => trim(t),
    };
    if inner.is_empty() {
        None
    } else {
        Some(own(inner))
    }
}

/// The attributes before an item, past comments: all of them, or those that
/// say that the item is for tests.
pub struct Attributes {
    pub tests_only: bool,
}

impl Back for Attributes {
    type Item = String;

    open spec fn passes(&self, c: Node<'_>) -> bool {
        c.isa("attribute_item") || c.isa("line_comment") || c.isa("block_comment")
    }

    open spec fn takes(&self, c: Node<'_>) -> Option<Seq<char>> {
        match attribute_content(c.txt()) {
            Some(s) if c.isa("attribute_item") && (!self.tests_only || (has(s, "cfg"@) && has(
                s,
                "test"@,
            ))) => Some(s),
            _ => None,
        }
    }

    fn pass(&self, c: Node<'_>) -> (res: bool) {
        c.is("attribute_item") || c.is("line_comment") || c.is("block_comment")
    }

    fn take(&self, c: Node<'_>) -> (res: Option<String>) {
        if !c.is("attribute_item") {
            return None;
        }
        match parse_rust_attribute_item(&c) {
            Some(s) => if !self.tests_only || (contains(s.as_str(), "cfg") && contains(
                s.as_str(),
                "test",
            )) {
                Some(s)
            } else {
                None
            },
            None => None,
        }
    }
}

/// Whether the name of a module says that it is for tests: it holds `test`, in
/// upper or lower case.
pub open spec fn is_test_name(name: Seq<char>) -> bool {
    has(lower(name), "test"@)
}

fn test_name(name: &str) -> (res: bool)
    ensures
        res == is_test_name(name@),
{
    let lowered = to_lowercase(name);
    contains(lowered.as_str(), "test")
}

/// What a module around a function says of its being for tests.
pub open spec fn module_marks(p: Node<'_>) -> Seq<Seq<char>> {
    let name = or_empty(field_txt(p, "name"));
    if p.isa("mod_item") {
        (if is_test_name(name) {
            seq!["cfg(test)/* via mod "@ + name + " */"@]
        } else {
            Seq::empty()
        }) + nearest_first(&Attributes { tests_only: true }, p.left())
    } else {
        Seq::empty()
    }
}

/// What the modules around a node say of its being for tests, the innermost
/// first.
pub open spec fn enclosing_marks(n: Node<'_>) -> Seq<Seq<char>>
    decreases n.index(),
{
    match n.up() {
        Some(p) => module_marks(p) + enclosing_marks(p),
        None => Seq::empty(),
    }
}

fn add_module_marks(p: &Node<'_>, out: &mut Vec<String>)
    ensures
        final(out).deep_view() == old(out).deep_view() + module_marks(*p),
{
    if p.is("mod_item") {
        let name = field_text_or_empty(p, "name");
        if test_name(name.as_str()) {
            emit(out, concat3("cfg(test)/* via mod ", name.as_str(), " */"));
        }
        extend(out, look_back(&Attributes { tests_only: true }, p));
        assert(out.deep_view() =~= old(out).deep_view() + module_marks(*p));
    }
}

/// The attributes of a function, and what the modules around it say of its
/// being for tests.
pub open spec fn attributes(n: Node<'_>) -> Seq<Seq<char>> {
    nearest_first(&Attributes { tests_only: false }, n.left()) + enclosing_marks(n)
}

/// The attributes of a function, and what the modules around it say of its
/// being for tests.
pub fn extract_rust_function_attributes(n: &Node<'_>) -> (res: Vec<String>)
    ensures
        res.deep_view() == attributes(*n),
{
    let mut out = look_back(&Attributes { tests_only: false }, n);
    let mut current: Node<'_> = *n;
    loop
        invariant
            out.deep_view() + enclosing_marks(current) == attributes(*n),
        decreases current.index(),
    {
        match current.parent() {
            Some(p) => {
                let ghost before = out.deep_view();
                add_module_marks(&p, &mut out);
                assert(before + module_marks(p) + enclosing_marks(p) =~= before + (module_marks(p)
                    + enclosing_marks(p)));
                current = p;
            },
            None => {
                return out;
            },
        }
    }
}

/// The return type, without the arrow before it.
pub open spec fn return_type(n: Node<'_>) -> Option<Seq<char>> {
    match n.at("return_type") {
        Some(t) => Some(trimmed(behind_all(t.txt(), "->"@))),
        None => None,
    }
}

fn extract_return_type(n: &Node<'_>) -> (res: Option<String>)
    ensures
        res.deep_view() == return_type(*n),
{
    match n.child_by_field_name("return_type") {
        Some(t) => Some(own(trim(without_prefixes(t.text(), "->")))),
        None => None,
    }
}

/// What is reported of a function, but for its attributes.
pub open spec fn signature_info(n: Node<'_>, is_method: bool) -> Function {
    Function {
        params: params(n),
        return_type: return_type(n),
        docstring: docstring(n),
        is_method,
        is_async: has(n.txt(), "async fn"@),
        ..function_at(or_empty(field_txt(n, "name")), n)
    }
}

fn extract_signature_info(n: &Node<'_>, is_method: bool) -> (res: FunctionInfo)
    ensures
        res.deep_view() == signature_info(*n, is_method),
{
    let mut info = new_function(field_text_or_empty(n, "name"), n);
    info.params = extract_rust_params(n);
    info.return_type = extract_return_type(n);
    info.docstring = extract_rust_docstring(n);
    info.is_method = is_method;
    info.is_async = contains(n.text(), "async fn");
    info
}

/// What is reported of a function.
pub open spec fn function_info(n: Node<'_>, is_method: bool) -> Function {
    Function { decorators: attributes(n), ..signature_info(n, is_method) }
}

/// What is reported of a function.
pub fn extract_rust_function_info(n: &Node<'_>, is_method: bool) -> (res: FunctionInfo)
    ensures
        res.deep_view() == function_info(*n, is_method),
{
    let mut info = extract_signature_info(n, is_method);
    info.decorators = extract_rust_function_attributes(n);
    info
}

/// All functions of a file outside of impl blocks.
pub struct Functions;

impl Walker for Functions {
    type Item = FunctionInfo;

    open spec fn yields(&self, c: Node<'_>) -> Seq<Function> {
        if c.isa("function_item") && !inside(&ImplItem, c) {
            seq![function_info(c, false)]
        } else {
            Seq::empty()
        }
    }

    open spec fn enters<'a>(&self, c: Node<'a>) -> Option<Node<'a>> {
        Some(c)
    }

    fn visit<'a>(&self, c: Node<'a>, out: &mut Vec<FunctionInfo>) -> (res: Option<Node<'a>>) {
        if c.is("function_item") && !is_inside(&ImplItem, &c) {
            emit(out, extract_rust_function_info(&c, false));
        }
        Some(c)
    }
}

/// The fields in a list of field declarations.
pub struct FieldList;

impl Picker for FieldList {
    type Item = FieldInfo;

    open spec fn picks(&self, c: Node<'_>) -> Seq<Field> {
        match field_txt(c, "name") {
            Some(name) if c.isa("field_declaration") => seq![
                Field {
                    field_type: field_txt(c, "type"),
                    visibility: visibility(c),
                    ..field_at(name, c)
                },
            ],
            _ => Seq::empty(),
        }
    }

    fn pick(&self, c: Node<'_>, out: &mut Vec<FieldInfo>) {
        if !c.is("field_declaration") {
            return;
        }
        match field_text(&c, "name") {
            Some(name) => {
                let mut info = new_field(name, &c);
                info.field_type = field_text(&c, "type");
                info.visibility = rust_visibility(&c);
                emit(out, info);
            },
            None => {},
        }
    }
}

/// The fields of a struct.
pub struct Fields;

impl Picker for Fields {
    type Item = FieldInfo;

    open spec fn picks(&self, c: Node<'_>) -> Seq<Field> {
        if c.isa("field_declaration_list") {
            picked(&FieldList, c)
        } else {
            Seq::empty()
        }
    }

    fn pick(&self, c: Node<'_>, out: &mut Vec<FieldInfo>) {
        if c.is("field_declaration_list") {
            pick_into(&FieldList, c, out);
        }
    }
}

/// The methods in the body of a trait, with or without a body of their own.
pub struct TraitItems;

impl Picker for TraitItems {
    type Item = FunctionInfo;

    open spec fn picks(&self, c: Node<'_>) -> Seq<Function> {
        if c.isa("function_item") {
            seq![function_info(c, true)]
        } else if c.isa("function_signature_item") {
            seq![signature_info(c, true)]
        } else {
            Seq::empty()
        }
    }

    fn pick(&self, c: Node<'_>, out: &mut Vec<FunctionInfo>) {
        if c.is("function_item") {
            emit(out, extract_rust_function_info(&c, true));
        } else if c.is("function_signature_item") {
            emit(out, extract_signature_info(&c, true));
        }
    }
}

/// The methods of a trait.
pub struct TraitMethods;

impl Picker for TraitMethods {
    type Item = FunctionInfo;

    open spec fn picks(&self, c: Node<'_>) -> Seq<Function> {
        if c.isa("declaration_list") {
            picked(&TraitItems, c)
        } else {
            Seq::empty()
        }
    }

    fn pick(&self, c: Node<'_>, out: &mut Vec<FunctionInfo>) {
        if c.is("declaration_list") {
            pick_into(&TraitItems, c, out);
        }
    }
}

/// What is reported of a struct, enum or trait.
pub open spec fn type_info(n: Node<'_>) -> Class {
    Class {
        docstring: docstring(n),
        methods: if n.isa("trait_item") {
            picked(&TraitMethods, n)
        } else {
            Seq::empty()
        },
        fields: if n.isa("struct_item") {
            picked(&Fields, n)
        } else {
            Seq::empty()
        },
        ..class_at(or_empty(field_txt(n, "name")), n)
    }
}

fn extract_type_info(n: &Node<'_>) -> (res: ClassInfo)
    ensures
        res.deep_view() == type_info(*n),
{
    let mut info = new_class(field_text_or_empty(n, "name"), n);
    info.docstring = extract_rust_docstring(n);
    if n.is("trait_item") {
        info.methods = pick_all(&TraitMethods, *n);
    }
    if n.is("struct_item") {
        info.fields = pick_all(&Fields, *n);
    }
    info
}

/// The structs, enums and traits of a file.
pub struct Types;

impl Walker for Types {
    type Item = ClassInfo;

    open spec fn yields(&self, c: Node<'_>) -> Seq<Class> {
        if c.isa("struct_item") || c.isa("enum_item") || c.isa("trait_item") {
            seq![type_info(c)]
        } else {
            Seq::empty()
        }
    }

    open spec fn enters<'a>(&self, c: Node<'a>) -> Option<Node<'a>> {
        Some(c)
    }

    fn visit<'a>(&self, c: Node<'a>, out: &mut Vec<ClassInfo>) -> (res: Option<Node<'a>>) {
        if c.is("struct_item") || c.is("enum_item") || c.is("trait_item") {
            emit(out, extract_type_info(&c));
        }
        Some(c)
    }
}

/// The name of the type that an impl block is for.
pub open spec fn impl_type_name(n: Node<'_>) -> Option<Seq<char>> {
    match n.at("type") {
        Some(t) => if t.isa("type_identifier") {
            Some(t.txt())
        } else if t.isa("generic_type") {
            field_txt(t, "type")
        } else if t.isa("scoped_type_identifier") {
            field_txt(t, "name")
        } else {
            let name = trimmed(pieces(t.txt(), "<"@)[0]);
            if name.len() == 0 {
                None
            } else {
                Some(name)
            }
        },
        None => None,
    }
}

/// The name of the type that an impl block is for.
pub fn get_impl_type_name(n: &Node<'_>) -> (res: Option<String>)
    ensures
        res.deep_view() == impl_type_name(*n),
{
    let t = match n.child_by_field_name("type") {
        Some(t) => t,
        None => return None,
    };
    if t.is("type_identifier") {
        Some(own(t.text()))
    } else if t.is("generic_type") {
        field_text(&t, "type")
    } else if t.is("scoped_type_identifier") {
        field_text(&t, "name")
    } else {
        proof {
            reveal_strlit("<");
        }
        let parts = split(t.text(), "<");
        assert(parts.deep_view()[0] == parts@[0]@);
        let name: &str = trim(parts[0].as_str());
        if name.is_empty() {
            None
        } else {
            Some(own(name))
        }
    }
}

/// What is reported of a method of an impl block. Methods of the impl of a
/// trait are marked.
pub open spec fn impl_method(n: Node<'_>, is_trait_impl: bool) -> Function {
    let info = function_info(n, true);
    if is_trait_impl && !info.decorators.contains("trait_impl"@) {
        Function { decorators: info.decorators + seq!["trait_impl"@], ..info }
    } else {
        info
    }
}

fn extract_impl_method(n: &Node<'_>, is_trait_impl: bool) -> (res: FunctionInfo)
    ensures
        res.deep_view() == impl_method(*n, is_trait_impl),
{
    let mut info = extract_rust_function_info(n, true);
    if is_trait_impl && !holds(&info.decorators, "trait_impl") {
        emit(&mut info.decorators, own("trait_impl"));
    }
    info
}

/// The methods in the body of an impl block.
pub struct ImplMethods {
    pub is_trait_impl: bool,
}

impl Picker for ImplMethods {
    type Item = FunctionInfo;

    open spec fn picks(&self, c: Node<'_>) -> Seq<Function> {
        if c.isa("function_item") {
            seq![impl_method(c, self.is_trait_impl)]
        } else {
            Seq::empty()
        }
    }

    fn pick(&self, c: Node<'_>, out: &mut Vec<FunctionInfo>) {
        if c.is("function_item") {
            emit(out, extract_impl_method(&c, self.is_trait_impl));
        }
    }
}

/// The methods of an impl block.
pub open spec fn impl_methods(n: Node<'_>) -> Seq<Function> {
    match n.at("body") {
        Some(body) => picked(&ImplMethods { is_trait_impl: n.at("trait") is Some }, body),
        None => Seq::empty(),
    }
}

fn extract_methods_from_impl_body(n: &Node<'_>) -> (res: Vec<FunctionInfo>)
    ensures
        res.deep_view() == impl_methods(*n),
{
    let is_trait_impl = n.child_by_field_name("trait").is_some();
    match n.child_by_field_name("body") {
        Some(body) => pick_all(&ImplMethods { is_trait_impl }, body),
        None => none(),
    }
}

/// The methods of the impl blocks of a file, grouped by the type.
pub struct Impls;

impl Walker for Impls {
    type Item = (String, Vec<FunctionInfo>);

    open spec fn yields(&self, c: Node<'_>) -> Seq<(Seq<char>, Seq<Function>)> {
        match impl_type_name(c) {
            Some(name) if c.isa("impl_item") => seq![(name, impl_methods(c))],
            _ => Seq::empty(),
        }
    }

    open spec fn enters<'a>(&self, c: Node<'a>) -> Option<Node<'a>> {
        Some(c)
    }

    fn visit<'a>(&self, c: Node<'a>, out: &mut Vec<(String, Vec<FunctionInfo>)>) -> (res: Option<
        Node<'a>,
    >) {
        if c.is("impl_item") {
            match get_impl_type_name(&c) {
                Some(name) => emit(out, (name, extract_methods_from_impl_body(&c))),
                None => {},
            }
        }
        Some(c)
    }
}

/// The structs, enums and traits of a file, with the methods of its impl
/// blocks. An impl block goes to the first type of its name.
pub open spec fn classes(root: Node<'_>) -> Seq<Class> {
    let groups = gathered(&Impls, root);
    attached_all(gathered(&Types, root), groups, false, groups.len())
}

/// The structs, enums and traits of a file, with the methods of its impl blocks.
pub fn extract_rust_structs_detailed(root: &Node<'_>) -> (res: Vec<ClassInfo>)
    ensures
        res.deep_view() == classes(*root),
{
    let mut res = gather(&Types, *root);
    attach_all(&mut res, gather(&Impls, *root), false);
    res
}

} // verus!
