//! Swift: functions, classes and structs.

use vstd::prelude::*;
use vstd::string::StrSliceExecFns;

use crate::docs::{join_lines, joined_lines};
use crate::items::{class_at, function_at, new_class, new_function};
use crate::lists::{backwards, emit, group_lists, none, push_some, some_seq};
use crate::nodes::{field_text_or_empty, field_txt, or_empty, txt_of};
use crate::spans::{decl_keyword_line_from_node, declaration_line};
use crate::text::{
    begins, behind, contains, ends, ends_with, has, own, starts_with, strip_prefix, trim, trimmed,
};
use crate::tree::{group_tree, same, Node};
use crate::types::{Class, ClassInfo, Function, FunctionInfo};
use crate::walk::{
    find_child, found, inside, is_inside, look_back, nearest_first, pick_all, pick_into, picked,
    Back, Picker, Test, Walker,
};

verus! {

broadcast use {group_tree, group_lists};

/// Nodes that hold the members of a type.
pub struct TypeNode;

impl Test for TypeNode {
    open spec fn accepts(&self, c: Node<'_>) -> bool {
        c.isa("class_declaration") || c.isa("struct_declaration") || c.isa("class_body") || c.isa(
            "struct_body",
        ) || c.isa("extension_declaration") || c.isa("protocol_declaration")
    }

    fn test(&self, c: Node<'_>) -> (res: bool) {
        c.is("class_declaration") || c.is("struct_declaration") || c.is("class_body") || c.is(
            "struct_body",
        ) || c.is("extension_declaration") || c.is("protocol_declaration")
    }
}

/// Whether a text is an access keyword.
pub open spec fn is_access(s: Seq<char>) -> bool {
    s == "public"@ || s == "open"@ || s == "internal"@ || s == "fileprivate"@ || s == "private"@
}

/// The access keyword that a node consists of.
pub open spec fn access_word(n: Node<'_>) -> Option<Seq<char>> {
    if is_access(trimmed(n.txt())) {
        Some(trimmed(n.txt()))
    } else {
        None
    }
}

fn find_access_word(n: &Node<'_>) -> (res: Option<String>)
    ensures
        res.deep_view() == access_word(*n),
{
    let t: &str = trim(n.text());
    if same(t, "public") || same(t, "open") || same(t, "internal") || same(t, "fileprivate")
        || same(t, "private") {
        Some(own(t))
    } else {
        None
    }
}

/// The access keywords among the children.
pub struct AccessWords;

impl Picker for AccessWords {
    type Item = String;

    open spec fn picks(&self, c: Node<'_>) -> Seq<Seq<char>> {
        some_seq(access_word(c))
    }

    fn pick(&self, c: Node<'_>, out: &mut Vec<String>) {
        push_some(out, find_access_word(&c));
    }
}

/// The access keywords of a declaration, also those among its modifiers.
pub struct Access;

impl Picker for Access {
    type Item = String;

    open spec fn picks(&self, c: Node<'_>) -> Seq<Seq<char>> {
        (if c.isa("visibility_modifier") || c.isa("modifiers") {
            picked(&AccessWords, c)
        } else {
            Seq::empty()
        }) + some_seq(access_word(c))
    }

    fn pick(&self, c: Node<'_>, out: &mut Vec<String>) {
        let ghost before = out.deep_view();
        if c.is("visibility_modifier") || c.is("modifiers") {
            pick_into(&AccessWords, c, out);
        }
        push_some(out, find_access_word(&c));
        assert(out.deep_view() =~= before + self.picks(c));
    }
}

/// The visibility of a declaration: its first access keyword.
pub open spec fn visibility(n: Node<'_>) -> Option<Seq<char>> {
    if picked(&Access, n).len() > 0 {
        Some(picked(&Access, n)[0])
    } else {
        None
    }
}

/// The visibility of a declaration: its first access keyword.
pub fn extract_swift_visibility(n: &Node<'_>) -> (res: Option<String>)
    ensures
        res.deep_view() == visibility(*n),
{
    let found_words = pick_all(&Access, *n);
    if found_words.len() > 0 {
        assert(found_words.deep_view()[0] == found_words@[0]@);
        Some(found_words[0].clone())
    } else {
        None
    }
}

/// Names.
pub struct Identifier;

impl Test for Identifier {
    open spec fn accepts(&self, c: Node<'_>) -> bool {
        c.isa("simple_identifier") || c.isa("identifier")
    }

    fn test(&self, c: Node<'_>) -> (res: bool) {
        c.is("simple_identifier") || c.is("identifier")
    }
}

/// The parameters in a parameter list: the first name of each.
pub struct Params;

impl Picker for Params {
    type Item = String;

    open spec fn picks(&self, c: Node<'_>) -> Seq<Seq<char>> {
        if c.isa("parameter") {
            some_seq(txt_of(found(&Identifier, c)))
        } else {
            Seq::empty()
        }
    }

    fn pick(&self, c: Node<'_>, out: &mut Vec<String>) {
        if c.is("parameter") {
            match find_child(&Identifier, c) {
                Some(id) => emit(out, own(id.text())),
                None => {},
            }
        }
    }
}

/// Parameter lists.
pub struct ParamClause;

impl Test for ParamClause {
    open spec fn accepts(&self, c: Node<'_>) -> bool {
        c.isa("parameter_clause") || c.isa("parameter_list")
    }

    fn test(&self, c: Node<'_>) -> (res: bool) {
        c.is("parameter_clause") || c.is("parameter_list")
    }
}

/// The parameters of a function.
pub open spec fn params(n: Node<'_>) -> Seq<Seq<char>> {
    match n.at("parameters") {
        Some(list) => picked(&Params, list),
        None => match found(&ParamClause, n) {
            Some(list) => picked(&Params, list),
            None => Seq::empty(),
        },
    }
}

/// The parameters of a function.
pub fn extract_swift_params(n: &Node<'_>) -> (res: Vec<String>)
    ensures
        res.deep_view() == params(*n),
{
    match n.child_by_field_name("parameters") {
        Some(list) => pick_all(&Params, list),
        None => match find_child(&ParamClause, *n) {
            Some(list) => pick_all(&Params, list),
            None => none(),
        },
    }
}

/// Types that a function can return.
pub struct ReturnedType;

impl Test for ReturnedType {
    open spec fn accepts(&self, c: Node<'_>) -> bool {
        c.isa("type_identifier") || c.isa("type_annotation") || c.isa("simple_identifier") || c.isa(
            "user_type",
        ) || c.isa("optional_type") || c.isa("array_type") || c.isa("dictionary_type") || c.isa(
            "tuple_type",
        )
    }

    fn test(&self, c: Node<'_>) -> (res: bool) {
        c.is("type_identifier") || c.is("type_annotation") || c.is("simple_identifier") || c.is(
            "user_type",
        ) || c.is("optional_type") || c.is("array_type") || c.is("dictionary_type") || c.is(
            "tuple_type",
        )
    }
}

/// The first type behind the arrow and before the body, looked for from child
/// `i` on; `arrow` says whether the arrow was passed.
pub open spec fn return_type_from(n: Node<'_>, i: int, arrow: bool) -> Option<Seq<char>>
    decreases n.arity() - i,
{
    if i < 0 || i >= n.arity() {
        None
    } else {
        let c = n.kid(i);
        if c.isa("->") || c.txt() == "->"@ {
            return_type_from(n, i + 1, true)
        } else if !arrow {
            return_type_from(n, i + 1, arrow)
        } else if ReturnedType.accepts(c) {
            Some(c.txt())
        } else if c.isa("function_body") || c.isa("code_block") {
            None
        } else {
            return_type_from(n, i + 1, arrow)
        }
    }
}

/// The return type of a function.
pub fn extract_swift_return_type(n: &Node<'_>) -> (res: Option<String>)
    ensures
        res.deep_view() == return_type_from(*n, 0, false),
{
    let count: usize = n.child_count();
    let mut arrow = false;
    let mut i: usize = 0;
    while i < count
        invariant
            count == n.arity(),
            i <= count,
            return_type_from(*n, 0, false) == return_type_from(*n, i as int, arrow),
        decreases count - i,
    {
        let c = n.child(i);
        if c.is("->") || same(c.text(), "->") {
            arrow = true;
        } else if arrow {
            if ReturnedType.test(c) {
                return Some(own(c.text()));
            }
            if c.is("function_body") || c.is("code_block") {
                return None;
            }
        }
        i += 1;
    }
    None
}

/// The text of a comment without its delimiters.
pub open spec fn comment_text(text: Seq<char>) -> Seq<char> {
    let t = trimmed(text);
    match behind(t, "///"@) {
        Some(rest) => trimmed(rest),
        None => if begins(t, "/**"@) && ends(t, "*/"@) {
            if t.len() < 5 {
                Seq::empty()
            } else {
                trimmed(t.subrange(3, t.len() - 2))
            }
        } else {
            t
        },
    }
}

fn clean_comment(text: &str) -> (res: String)
    ensures
        res@ == comment_text(text@),
{
    let t: &str = trim(text);
    match strip_prefix(t, "///") {
        Some(rest) => own(trim(rest)),
        None => if starts_with(t, "/**") && ends_with(t, "*/") {
            let n: usize = t.unicode_len();
            if n < 5 {
                String::new()
            } else {
                own(trim(t.substring_char(3, n - 2)))
            }
        } else {
            own(t)
        },
    }
}

/// The comments just before a declaration.
pub struct Comments;

impl Back for Comments {
    type Item = String;

    open spec fn passes(&self, c: Node<'_>) -> bool {
        c.isa("comment") || c.isa("multiline_comment")
    }

    open spec fn takes(&self, c: Node<'_>) -> Option<Seq<char>> {
        Some(comment_text(c.txt()))
    }

    fn pass(&self, c: Node<'_>) -> (res: bool) {
        c.is("comment") || c.is("multiline_comment")
    }

    fn take(&self, c: Node<'_>) -> (res: Option<String>) {
        Some(clean_comment(c.text()))
    }
}

/// The comments just before a declaration.
pub open spec fn docstring(n: Node<'_>) -> Option<Seq<char>> {
    joined_lines(nearest_first(&Comments, n.left()).reverse())
}

/// The comments just before a declaration.
pub fn extract_swift_docstring_before(n: &Node<'_>) -> (res: Option<String>)
    ensures
        res.deep_view() == docstring(*n),
{
    join_lines(&backwards(look_back(&Comments, n)))
}

/// What is reported of a function.
pub open spec fn function_info(n: Node<'_>, is_method: bool) -> Function {
    Function {
        params: params(n),
        return_type: return_type_from(n, 0, false),
        docstring: docstring(n),
        is_method,
        is_async: has(n.txt(), "async "@),
        visibility: visibility(n),
        line_number: declaration_line(n),
        ..function_at(or_empty(field_txt(n, "name")), n)
    }
}

/// What is reported of a function.
pub fn extract_swift_function_info(n: &Node<'_>, is_method: bool) -> (res: FunctionInfo)
    ensures
        res.deep_view() == function_info(*n, is_method),
{
    let mut info = new_function(field_text_or_empty(n, "name"), n);
    info.params = extract_swift_params(n);
    info.return_type = extract_swift_return_type(n);
    info.docstring = extract_swift_docstring_before(n);
    info.is_method = is_method;
    info.is_async = contains(n.text(), "async ");
    info.visibility = extract_swift_visibility(n);
    info.line_number = decl_keyword_line_from_node(n);
    info
}

/// The functions of a file outside of types.
pub struct Functions;

impl Walker for Functions {
    type Item = FunctionInfo;

    open spec fn yields(&self, c: Node<'_>) -> Seq<Function> {
        if c.isa("function_declaration") && !inside(&TypeNode, c) {
            seq![function_info(c, false)]
        } else {
            Seq::empty()
        }
    }

    open spec fn enters<'a>(&self, c: Node<'a>) -> Option<Node<'a>> {
        if c.isa("function_declaration") || c.isa("class_declaration") || c.isa(
            "struct_declaration",
        ) || c.isa("class_body") || c.isa("struct_body") {
            None
        } else {
            Some(c)
        }
    }

    fn visit<'a>(&self, c: Node<'a>, out: &mut Vec<FunctionInfo>) -> (res: Option<Node<'a>>) {
        if c.is("function_declaration") {
            if !is_inside(&TypeNode, &c) {
                emit(out, extract_swift_function_info(&c, false));
            }
            None
        } else if c.is("class_declaration") || c.is("struct_declaration") || c.is("class_body")
            || c.is("struct_body") {
            None
        } else {
            Some(c)
        }
    }
}

/// The methods in a body.
pub struct BodyMethods;

impl Picker for BodyMethods {
    type Item = FunctionInfo;

    open spec fn picks(&self, c: Node<'_>) -> Seq<Function> {
        if c.isa("function_declaration") {
            seq![function_info(c, true)]
        } else {
            Seq::empty()
        }
    }

    fn pick(&self, c: Node<'_>, out: &mut Vec<FunctionInfo>) {
        if c.is("function_declaration") {
            emit(out, extract_swift_function_info(&c, true));
        }
    }
}

/// The methods in the bodies of a type.
pub struct Bodies;

impl Picker for Bodies {
    type Item = FunctionInfo;

    open spec fn picks(&self, c: Node<'_>) -> Seq<Function> {
        if c.isa("class_body") || c.isa("struct_body") || c.isa("body") {
            picked(&BodyMethods, c)
        } else {
            Seq::empty()
        }
    }

    fn pick(&self, c: Node<'_>, out: &mut Vec<FunctionInfo>) {
        if c.is("class_body") || c.is("struct_body") || c.is("body") {
            pick_into(&BodyMethods, c, out);
        }
    }
}

/// The methods of a type.
pub open spec fn methods(n: Node<'_>) -> Seq<Function> {
    match n.at("body") {
        Some(body) if picked(&Bodies, n).len() == 0 => picked(&BodyMethods, body),
        _ => picked(&Bodies, n),
    }
}

fn extract_methods(n: &Node<'_>) -> (res: Vec<FunctionInfo>)
    ensures
        res.deep_view() == methods(*n),
{
    let res = pick_all(&Bodies, *n);
    if res.len() == 0 {
        match n.child_by_field_name("body") {
            Some(body) => return pick_all(&BodyMethods, body),
            None => {},
        }
    }
    res
}

/// Names of types.
pub struct NamedType;

impl Test for NamedType {
    open spec fn accepts(&self, c: Node<'_>) -> bool {
        c.isa("type_identifier") || c.isa("user_type") || c.isa("simple_identifier")
    }

    fn test(&self, c: Node<'_>) -> (res: bool) {
        c.is("type_identifier") || c.is("user_type") || c.is("simple_identifier")
    }
}

/// The types in an inheritance specifier.
pub struct SpecifierTypes;

impl Picker for SpecifierTypes {
    type Item = String;

    open spec fn picks(&self, c: Node<'_>) -> Seq<Seq<char>> {
        if NamedType.accepts(c) {
            seq![c.txt()]
        } else {
            Seq::empty()
        }
    }

    fn pick(&self, c: Node<'_>, out: &mut Vec<String>) {
        if NamedType.test(c) {
            emit(out, own(c.text()));
        }
    }
}

/// The types in an inheritance clause.
pub struct ClauseTypes;

impl Picker for ClauseTypes {
    type Item = String;

    open spec fn picks(&self, c: Node<'_>) -> Seq<Seq<char>> {
        SpecifierTypes.picks(c) + if c.isa("inheritance_specifier") || c.isa(
            "annotated_inheritance_specifier",
        ) {
            picked(&SpecifierTypes, c)
        } else {
            Seq::empty()
        }
    }

    fn pick(&self, c: Node<'_>, out: &mut Vec<String>) {
        let ghost before = out.deep_view();
        SpecifierTypes.pick(c, out);
        if c.is("inheritance_specifier") || c.is("annotated_inheritance_specifier") {
            pick_into(&SpecifierTypes, c, out);
        }
        assert(out.deep_view() =~= before + self.picks(c));
    }
}

/// The types in the inheritance clauses of a declaration.
pub struct Bases;

impl Picker for Bases {
    type Item = String;

    open spec fn picks(&self, c: Node<'_>) -> Seq<Seq<char>> {
        if c.isa("inheritance_clause") || c.isa("type_inheritance_clause") {
            picked(&ClauseTypes, c)
        } else {
            Seq::empty()
        }
    }

    fn pick(&self, c: Node<'_>, out: &mut Vec<String>) {
        if c.is("inheritance_clause") || c.is("type_inheritance_clause") {
            pick_into(&ClauseTypes, c, out);
        }
    }
}

/// The types that a class, struct, enum, protocol or extension builds on.
pub fn extract_swift_bases(n: &Node<'_>) -> (res: Vec<String>)
    ensures
        res.deep_view() == picked(&Bases, *n),
{
    pick_all(&Bases, *n)
}

/// Names that a type can have.
pub struct TypeName;

impl Test for TypeName {
    open spec fn accepts(&self, c: Node<'_>) -> bool {
        c.isa("type_identifier") || c.isa("simple_identifier")
    }

    fn test(&self, c: Node<'_>) -> (res: bool) {
        c.is("type_identifier") || c.is("simple_identifier")
    }
}

/// The name of a type.
pub open spec fn class_name(n: Node<'_>) -> Seq<char> {
    match field_txt(n, "name") {
        Some(name) => name,
        None => or_empty(txt_of(found(&TypeName, n))),
    }
}

fn find_class_name(n: &Node<'_>) -> (res: String)
    ensures
        res@ == class_name(*n),
{
    match n.child_by_field_name("name") {
        Some(name) => own(name.text()),
        None => match find_child(&TypeName, *n) {
            Some(c) => own(c.text()),
            None => String::new(),
        },
    }
}

/// What is reported of a class or struct.
pub open spec fn class_info(n: Node<'_>) -> Class {
    Class {
        bases: picked(&Bases, n),
        docstring: docstring(n),
        methods: methods(n),
        line_number: declaration_line(n),
        ..class_at(class_name(n), n)
    }
}

fn extract_swift_class_info(n: &Node<'_>) -> (res: ClassInfo)
    ensures
        res.deep_view() == class_info(*n),
{
    let mut info = new_class(find_class_name(n), n);
    info.bases = extract_swift_bases(n);
    info.docstring = extract_swift_docstring_before(n);
    info.methods = extract_methods(n);
    info.line_number = decl_keyword_line_from_node(n);
    info
}

/// All classes and structs of a file, but for those inside of others.
pub struct Classes;

impl Walker for Classes {
    type Item = ClassInfo;

    open spec fn yields(&self, c: Node<'_>) -> Seq<Class> {
        if c.isa("class_declaration") || c.isa("struct_declaration") {
            seq![class_info(c)]
        } else {
            Seq::empty()
        }
    }

    open spec fn enters<'a>(&self, c: Node<'a>) -> Option<Node<'a>> {
        if c.isa("class_declaration") || c.isa("struct_declaration") {
            None
        } else {
            Some(c)
        }
    }

    fn visit<'a>(&self, c: Node<'a>, out: &mut Vec<ClassInfo>) -> (res: Option<Node<'a>>) {
        if c.is("class_declaration") || c.is("struct_declaration") {
            emit(out, extract_swift_class_info(&c));
            None
        } else {
            Some(c)
        }
    }
}

} // verus!
