//! Kotlin: functions, classes and objects.

use vstd::prelude::*;

use crate::items::{class_at, function_at, new_class, new_function};
use crate::lists::{emit, group_lists, none, push_some, some_seq};
use crate::nodes::{first, first_child, or_empty, text_of_child, txt_of};
use crate::spans::{decl_keyword_line_from_node, declaration_line};
use crate::text::{begins, own, starts_with, strip_front, stripped_front, trim, trimmed};
use crate::tree::{group_tree, same, Node};
use crate::types::{Class, ClassInfo, Function, FunctionInfo};
use crate::walk::{
    find_child, found, gather_into, gathered, inside, is_inside, past, pick_all, pick_into, picked,
    skip_back, Picker, Test, Walker,
};

verus! {

broadcast use {group_tree, group_lists};

/// Nodes that hold the members of a class.
pub struct ClassNode;

impl Test for ClassNode {
    open spec fn accepts(&self, c: Node<'_>) -> bool {
        c.isa("class_declaration") || c.isa("object_declaration") || c.isa("class_body")
    }

    fn test(&self, c: Node<'_>) -> (res: bool) {
        c.is("class_declaration") || c.is("object_declaration") || c.is("class_body")
    }
}

/// The access keywords of a list of modifiers.
pub struct AccessWords;

impl Picker for AccessWords {
    type Item = String;

    open spec fn picks(&self, c: Node<'_>) -> Seq<Seq<char>> {
        let word = trimmed(c.txt());
        if word == "public"@ || word == "private"@ || word == "protected"@ || word == "internal"@ {
            seq![word]
        } else {
            Seq::empty()
        }
    }

    fn pick(&self, c: Node<'_>, out: &mut Vec<String>) {
        let word: &str = trim(c.text());
        if same(word, "public") || same(word, "private") || same(word, "protected") || same(
            word,
            "internal",
        ) {
            emit(out, own(word));
        }
    }
}

/// The access keywords of a declaration.
pub struct Access;

impl Picker for Access {
    type Item = String;

    open spec fn picks(&self, c: Node<'_>) -> Seq<Seq<char>> {
        if c.isa("modifiers") {
            picked(&AccessWords, c)
        } else {
            Seq::empty()
        }
    }

    fn pick(&self, c: Node<'_>, out: &mut Vec<String>) {
        if c.is("modifiers") {
            pick_into(&AccessWords, c, out);
        }
    }
}

/// The visibility of a declaration: its first access keyword.
pub open spec fn visibility(n: Node<'_>) -> Option<Seq<char>> {
    if picked(&Access, n).len() > 0 {
        Some(picked(&Access, n)[0])
    } else {
        None
    }
}

/// The visibility of a declaration: its first access keyword.
pub fn extract_kotlin_visibility(n: &Node<'_>) -> (res: Option<String>)
    ensures
        res.deep_view() == visibility(*n),
{
    let found_words = pick_all(&Access, *n);
    if found_words.len() > 0 {
        assert(found_words.deep_view()[0] == found_words@[0]@);
        Some(found_words[0].clone())
    } else {
        None
    }
}

/// Names.
pub struct Identifier;

impl Test for Identifier {
    open spec fn accepts(&self, c: Node<'_>) -> bool {
        c.isa("simple_identifier") || c.isa("identifier")
    }

    fn test(&self, c: Node<'_>) -> (res: bool) {
        c.is("simple_identifier") || c.is("identifier")
    }
}

fn identifier_text(n: &Node<'_>) -> (res: Option<String>)
    ensures
        res.deep_view() == txt_of(found(&Identifier, *n)),
{
    match find_child(&Identifier, *n) {
        Some(c) => Some(own(c.text())),
        None => None,
    }
}

/// The parameters in a parameter list.
pub struct Params;

impl Picker for Params {
    type Item = String;

    open spec fn picks(&self, c: Node<'_>) -> Seq<Seq<char>> {
        if c.isa("parameter") {
            some_seq(txt_of(found(&Identifier, c)))
        } else if c.isa("function_value_parameter") {
            match c.at("parameter") {
                Some(inner) => some_seq(txt_of(found(&Identifier, inner))),
                None => some_seq(txt_of(found(&Identifier, c))),
            }
        } else {
            Seq::empty()
        }
    }

    fn pick(&self, c: Node<'_>, out: &mut Vec<String>) {
        if c.is("parameter") {
            push_some(out, identifier_text(&c));
        } else if c.is("function_value_parameter") {
            match c.child_by_field_name("parameter") {
                Some(inner) => push_some(out, identifier_text(&inner)),
                None => push_some(out, identifier_text(&c)),
            }
        }
    }
}

/// The parameters of a function.
pub open spec fn params(n: Node<'_>) -> Seq<Seq<char>> {
    match first(n, "function_value_parameters") {
        Some(list) => picked(&Params, list),
        None => Seq::empty(),
    }
}

/// The parameters of a function.
pub fn extract_kotlin_params(n: &Node<'_>) -> (res: Vec<String>)
    ensures
        res.deep_view() == params(*n),
{
    match first_child(n, "function_value_parameters") {
        Some(list) => pick_all(&Params, list),
        None => none(),
    }
}

/// What stands behind the `:` that follows the parameters, unless it is the
/// body, looked for from child `i` on; the flags say whether the parameters and
/// the `:` were passed.
pub open spec fn return_type_from(n: Node<'_>, i: int, past_params: bool, colon: bool) -> Option<
    Seq<char>,
>
    decreases n.arity() - i,
{
    if i < 0 || i >= n.arity() {
        None
    } else {
        let c = n.kid(i);
        if c.isa("function_value_parameters") {
            return_type_from(n, i + 1, true, colon)
        } else if past_params && c.txt() == ":"@ {
            return_type_from(n, i + 1, past_params, true)
        } else if !colon {
            return_type_from(n, i + 1, past_params, colon)
        } else if c.isa("function_body") || c.isa("{") {
            None
        } else {
            Some(c.txt())
        }
    }
}

/// The return type of a function.
pub fn extract_kotlin_return_type(n: &Node<'_>) -> (res: Option<String>)
    ensures
        res.deep_view() == return_type_from(*n, 0, false, false),
{
    let count: usize = n.child_count();
    let mut past_params = false;
    let mut colon = false;
    let mut i: usize = 0;
    while i < count
        invariant
            count == n.arity(),
            i <= count,
            return_type_from(*n, 0, false, false) == return_type_from(
                *n,
                i as int,
                past_params,
                colon,
            ),
        decreases count - i,
    {
        let c = n.child(i);
        if c.is("function_value_parameters") {
            past_params = true;
        } else if past_params && same(c.text(), ":") {
            colon = true;
        } else if colon {
            if c.is("function_body") || c.is("{") {
                return None;
            }
            return Some(own(c.text()));
        }
        i += 1;
    }
    None
}

/// What can stand between a doc comment and its declaration.
pub struct Modifier;

impl Test for Modifier {
    open spec fn accepts(&self, c: Node<'_>) -> bool {
        c.isa("modifiers") || c.isa("annotation")
    }

    fn test(&self, c: Node<'_>) -> (res: bool) {
        c.is("modifiers") || c.is("annotation")
    }
}

/// The doc comment of a declaration, as written.
pub open spec fn docstring(n: Node<'_>) -> Option<Seq<char>> {
    match past(&Modifier, n.left()) {
        Some(c) if c.isa("multiline_comment") && begins(c.txt(), "/**"@) => Some(c.txt()),
        _ => None,
    }
}

/// The doc comment of a declaration, as written.
pub fn extract_kotlin_docstring(n: &Node<'_>) -> (res: Option<String>)
    ensures
        res.deep_view() == docstring(*n),
{
    match skip_back(&Modifier, n) {
        Some(c) => if c.is("multiline_comment") && starts_with(c.text(), "/**") {
            Some(own(c.text()))
        } else {
            None
        },
        None => None,
    }
}

/// The annotations of a list of modifiers, without their `@`.
pub struct ModifierAnnotations;

impl Picker for ModifierAnnotations {
    type Item = String;

    open spec fn picks(&self, c: Node<'_>) -> Seq<Seq<char>> {
        if c.isa("annotation") {
            seq![stripped_front(c.txt(), "@"@)]
        } else {
            Seq::empty()
        }
    }

    fn pick(&self, c: Node<'_>, out: &mut Vec<String>) {
        if c.is("annotation") {
            emit(out, own(strip_front(c.text(), "@")));
        }
    }
}

/// The annotations of a declaration, without their `@`.
pub struct Annotations;

impl Picker for Annotations {
    type Item = String;

    open spec fn picks(&self, c: Node<'_>) -> Seq<Seq<char>> {
        if c.isa("modifiers") {
            picked(&ModifierAnnotations, c)
        } else {
            Seq::empty()
        }
    }

    fn pick(&self, c: Node<'_>, out: &mut Vec<String>) {
        if c.is("modifiers") {
            pick_into(&ModifierAnnotations, c, out);
        }
    }
}

/// The modifier `suspend`.
pub struct SuspendWord;

impl Test for SuspendWord {
    open spec fn accepts(&self, c: Node<'_>) -> bool {
        c.txt() == "suspend"@
    }

    fn test(&self, c: Node<'_>) -> (res: bool) {
        same(c.text(), "suspend")
    }
}

/// Lists of modifiers with `suspend` among them.
pub struct Suspended;

impl Test for Suspended {
    open spec fn accepts(&self, c: Node<'_>) -> bool {
        c.isa("modifiers") && found(&SuspendWord, c) is Some
    }

    fn test(&self, c: Node<'_>) -> (res: bool) {
        c.is("modifiers") && find_child(&SuspendWord, c).is_some()
    }
}

/// The name of a function.
pub open spec fn function_name(n: Node<'_>) -> Seq<char> {
    match n.at("name") {
        Some(name) => name.txt(),
        None => or_empty(txt_of(first(n, "simple_identifier"))),
    }
}

fn find_function_name(n: &Node<'_>) -> (res: String)
    ensures
        res@ == function_name(*n),
{
    match n.child_by_field_name("name") {
        Some(name) => own(name.text()),
        None => match text_of_child(n, "simple_identifier") {
            Some(name) => name,
            None => String::new(),
        },
    }
}

/// What is reported of a function.
pub open spec fn function_info(n: Node<'_>, is_method: bool) -> Function {
    Function {
        params: params(n),
        return_type: return_type_from(n, 0, false, false),
        docstring: docstring(n),
        is_method,
        is_async: found(&Suspended, n) is Some,
        decorators: picked(&Annotations, n),
        visibility: visibility(n),
        line_number: declaration_line(n),
        ..function_at(function_name(n), n)
    }
}

/// What is reported of a function.
pub fn extract_kotlin_function_info(n: &Node<'_>, is_method: bool) -> (res: FunctionInfo)
    ensures
        res.deep_view() == function_info(*n, is_method),
{
    let mut info = new_function(find_function_name(n), n);
    info.params = extract_kotlin_params(n);
    info.return_type = extract_kotlin_return_type(n);
    info.docstring = extract_kotlin_docstring(n);
    info.is_method = is_method;
    info.is_async = find_child(&Suspended, *n).is_some();
    info.decorators = pick_all(&Annotations, *n);
    info.visibility = extract_kotlin_visibility(n);
    info.line_number = decl_keyword_line_from_node(n);
    info
}

/// The functions of a file outside of classes and objects.
pub struct Functions;

impl Walker for Functions {
    type Item = FunctionInfo;

    open spec fn yields(&self, c: Node<'_>) -> Seq<Function> {
        if c.isa("function_declaration") && !inside(&ClassNode, c) {
            seq![function_info(c, false)]
        } else {
            Seq::empty()
        }
    }

    open spec fn enters<'a>(&self, c: Node<'a>) -> Option<Node<'a>> {
        if c.isa("function_declaration") || c.isa("class_declaration") || c.isa(
            "object_declaration",
        ) {
            None
        } else {
            Some(c)
        }
    }

    fn visit<'a>(&self, c: Node<'a>, out: &mut Vec<FunctionInfo>) -> (res: Option<Node<'a>>) {
        if c.is("function_declaration") {
            if !is_inside(&ClassNode, &c) {
                emit(out, extract_kotlin_function_info(&c, false));
            }
            None
        } else if c.is("class_declaration") || c.is("object_declaration") {
            None
        } else {
            Some(c)
        }
    }
}

/// Whether a node is an object inside of a class.
pub open spec fn is_object(n: Node<'_>) -> bool {
    n.isa("companion_object") || n.isa("object_declaration")
}

/// Whether a node is a part of an object inside of a class.
pub open spec fn in_object(n: Node<'_>) -> bool {
    n.up() matches Some(p) && is_object(p)
}

/// The methods of a class body, and of the bodies of the objects in it.
pub struct BodyMethods;

impl Walker for BodyMethods {
    type Item = FunctionInfo;

    open spec fn yields(&self, c: Node<'_>) -> Seq<Function> {
        if c.isa("function_declaration") && !in_object(c) {
            seq![function_info(c, true)]
        } else {
            Seq::empty()
        }
    }

    open spec fn enters<'a>(&self, c: Node<'a>) -> Option<Node<'a>> {
        if in_object(c) {
            if c.isa("class_body") {
                Some(c)
            } else {
                None
            }
        } else if c.isa("function_declaration") {
            None
        } else if is_object(c) {
            Some(c)
        } else {
            None
        }
    }

    fn visit<'a>(&self, c: Node<'a>, out: &mut Vec<FunctionInfo>) -> (res: Option<Node<'a>>) {
        let nested = match c.parent() {
            Some(p) => p.is("companion_object") || p.is("object_declaration"),
            None => false,
        };
        if nested {
            if c.is("class_body") {
                Some(c)
            } else {
                None
            }
        } else if c.is("function_declaration") {
            emit(out, extract_kotlin_function_info(&c, true));
            None
        } else if c.is("companion_object") || c.is("object_declaration") {
            Some(c)
        } else {
            None
        }
    }
}

/// The methods of the bodies of a class or object.
pub struct Methods;

impl Picker for Methods {
    type Item = FunctionInfo;

    open spec fn picks(&self, c: Node<'_>) -> Seq<Function> {
        if c.isa("class_body") {
            gathered(&BodyMethods, c)
        } else {
            Seq::empty()
        }
    }

    fn pick(&self, c: Node<'_>, out: &mut Vec<FunctionInfo>) {
        if c.is("class_body") {
            gather_into(&BodyMethods, c, out);
        }
    }
}

/// What names a base in a delegation specifier.
pub struct BaseNode;

impl Test for BaseNode {
    open spec fn accepts(&self, c: Node<'_>) -> bool {
        c.isa("user_type") || c.isa("constructor_invocation") || c.isa("type_identifier")
    }

    fn test(&self, c: Node<'_>) -> (res: bool) {
        c.is("user_type") || c.is("constructor_invocation") || c.is("type_identifier")
    }
}

/// The type that is named in a base.
pub struct BaseType;

impl Test for BaseType {
    open spec fn accepts(&self, c: Node<'_>) -> bool {
        c.isa("type_identifier") || c.isa("user_type")
    }

    fn test(&self, c: Node<'_>) -> (res: bool) {
        c.is("type_identifier") || c.is("user_type")
    }
}

/// The base that a delegation specifier names.
pub open spec fn specified_base(n: Node<'_>) -> Option<Seq<char>> {
    match found(&BaseNode, n) {
        Some(c) => if c.isa("user_type") || c.isa("constructor_invocation") {
            txt_of(found(&BaseType, c))
        } else {
            Some(c.txt())
        },
        None => None,
    }
}

fn find_specified_base(n: &Node<'_>) -> (res: Option<String>)
    ensures
        res.deep_view() == specified_base(*n),
{
    match find_child(&BaseNode, *n) {
        Some(c) => if c.is("user_type") || c.is("constructor_invocation") {
            match find_child(&BaseType, c) {
                Some(t) => Some(own(t.text())),
                None => None,
            }
        } else {
            Some(own(c.text()))
        },
        None => None,
    }
}

/// The bases that the specifiers of a list name.
pub struct Specifiers;

impl Picker for Specifiers {
    type Item = String;

    open spec fn picks(&self, c: Node<'_>) -> Seq<Seq<char>> {
        (if c.isa("delegation_specifier") {
            some_seq(specified_base(c))
        } else {
            Seq::empty()
        }) + (if c.isa("user_type") || c.isa("constructor_invocation") {
            some_seq(txt_of(first(c, "type_identifier")))
        } else {
            Seq::empty()
        })
    }

    fn pick(&self, c: Node<'_>, out: &mut Vec<String>) {
        let ghost before = out.deep_view();
        if c.is("delegation_specifier") {
            push_some(out, find_specified_base(&c));
        }
        if c.is("user_type") || c.is("constructor_invocation") {
            push_some(out, text_of_child(&c, "type_identifier"));
        }
        assert(out.deep_view() =~= before + self.picks(c));
    }
}

/// The types that a class or object builds on.
pub struct Bases;

impl Picker for Bases {
    type Item = String;

    open spec fn picks(&self, c: Node<'_>) -> Seq<Seq<char>> {
        if c.isa("delegation_specifiers") {
            picked(&Specifiers, c)
        } else {
            Seq::empty()
        }
    }

    fn pick(&self, c: Node<'_>, out: &mut Vec<String>) {
        if c.is("delegation_specifiers") {
            pick_into(&Specifiers, c, out);
        }
    }
}

/// The types that a class or object builds on.
pub fn extract_kotlin_bases(n: &Node<'_>) -> (res: Vec<String>)
    ensures
        res.deep_view() == picked(&Bases, *n),
{
    pick_all(&Bases, *n)
}

/// Names that a class can have.
pub struct ClassName;

impl Test for ClassName {
    open spec fn accepts(&self, c: Node<'_>) -> bool {
        c.isa("simple_identifier") || c.isa("type_identifier")
    }

    fn test(&self, c: Node<'_>) -> (res: bool) {
        c.is("simple_identifier") || c.is("type_identifier")
    }
}

/// The name of a class or object.
pub open spec fn class_name(n: Node<'_>) -> Seq<char> {
    match n.at("name") {
        Some(name) => name.txt(),
        None => or_empty(txt_of(found(&ClassName, n))),
    }
}

fn find_class_name(n: &Node<'_>) -> (res: String)
    ensures
        res@ == class_name(*n),
{
    match n.child_by_field_name("name") {
        Some(name) => own(name.text()),
        None => match find_child(&ClassName, *n) {
            Some(c) => own(c.text()),
            None => String::new(),
        },
    }
}

/// What is reported of a class or object. Bases are reported of a class only.
pub open spec fn class_info(n: Node<'_>) -> Class {
    Class {
        bases: if n.isa("class_declaration") {
            picked(&Bases, n)
        } else {
            Seq::empty()
        },
        docstring: docstring(n),
        methods: picked(&Methods, n),
        line_number: declaration_line(n),
        ..class_at(class_name(n), n)
    }
}

/// What is reported of a class or object.
pub fn extract_kotlin_class_info(n: &Node<'_>) -> (res: ClassInfo)
    ensures
        res.deep_view() == class_info(*n),
{
    let mut info = new_class(find_class_name(n), n);
    if n.is("class_declaration") {
        info.bases = extract_kotlin_bases(n);
    }
    info.docstring = extract_kotlin_docstring(n);
    info.methods = pick_all(&Methods, *n);
    info.line_number = decl_keyword_line_from_node(n);
    info
}

/// All classes and objects of a file, but for those inside of others.
pub struct Classes;

impl Walker for Classes {
    type Item = ClassInfo;

    open spec fn yields(&self, c: Node<'_>) -> Seq<Class> {
        if c.isa("class_declaration") || c.isa("object_declaration") {
            seq![class_info(c)]
        } else {
            Seq::empty()
        }
    }

    open spec fn enters<'a>(&self, c: Node<'a>) -> Option<Node<'a>> {
        if c.isa("class_declaration") || c.isa("object_declaration") {
            None
        } else {
            Some(c)
        }
    }

    fn visit<'a>(&self, c: Node<'a>, out: &mut Vec<ClassInfo>) -> (res: Option<Node<'a>>) {
        if c.is("class_declaration") || c.is("object_declaration") {
            emit(out, extract_kotlin_class_info(&c));
            None
        } else {
            Some(c)
        }
    }
}

} // verus!
