//! TypeScript and JavaScript: functions in all their forms, classes, fields.

use vstd::prelude::*;

use crate::docs::{block_doc, parse_block_doc_comment};
use crate::items::{class_at, field_at, function_at, new_class, new_field, new_function};
use crate::lists::{emit, group_lists, none, push_some, some_seq};
use crate::names::{
    is_constant_name, is_identifier, is_js_identifier_shape, is_upper_case_name,
    js_name_visibility, js_visibility,
};
use crate::nodes::{
    field_text, field_text_or_empty, field_txt, first, has_child, or_empty, some_text, txt_of,
};
use crate::text::{
    begins, behind_all, concat, contains, has, own, split_whitespace, starts_with, strip,
    strip_front, stripped, stripped_front, trim, trimmed, without_prefixes, words,
};
use crate::tree::{group_tree, same, Node};
use crate::types::{Class, ClassInfo, Field, FieldInfo, Function, FunctionInfo};
use crate::walk::{
    find_child, found, gather, gathered, inside, is_inside, pick_all, pick_into, picked, Picker,
    Test, Walker,
};

verus! {

broadcast use {group_tree, group_lists};

/// Argument lists of calls.
pub struct Arguments;

impl Test for Arguments {
    open spec fn accepts(&self, c: Node<'_>) -> bool {
        c.isa("arguments")
    }

    fn test(&self, c: Node<'_>) -> (res: bool) {
        c.is("arguments")
    }
}

/// Whether a node is the value of a function: an arrow or a function expression.
pub open spec fn is_function_value(n: Node<'_>) -> bool {
    n.isa("arrow_function") || n.isa("function_expression") || n.isa("function")
}

fn function_value(n: &Node<'_>) -> (res: bool)
    ensures
        res == is_function_value(*n),
{
    n.is("arrow_function") || n.is("function_expression") || n.is("function")
}

/// The type in a field of a node, without the `:` before it.
pub open spec fn type_in(n: Node<'_>, field: &str) -> Option<Seq<char>> {
    match n.at(field) {
        Some(t) => Some(trimmed(stripped_front(t.txt(), ":"@))),
        None => None,
    }
}

fn extract_type_in(n: &Node<'_>, field: &str) -> (res: Option<String>)
    ensures
        res.deep_view() == type_in(*n, field),
{
    match n.child_by_field_name(field) {
        Some(t) => Some(own(trim(strip_front(t.text(), ":")))),
        None => None,
    }
}

/// The comment just before a node, where it is a doc comment.
pub open spec fn doc_before(n: Node<'_>) -> Option<Seq<char>> {
    match n.left() {
        Some(p) if p.isa("comment") && begins(p.txt(), "/**"@) => block_doc(p.txt()),
        _ => None,
    }
}

fn try_jsdoc_prev_sibling(n: &Node<'_>) -> (res: Option<String>)
    ensures
        res.deep_view() == doc_before(*n),
{
    match n.prev_sibling() {
        Some(p) => if p.is("comment") && starts_with(p.text(), "/**") {
            parse_block_doc_comment(p.text())
        } else {
            None
        },
        None => None,
    }
}

/// What can stand around a declaration, between it and its doc comment.
pub open spec fn wraps_declaration(n: Node<'_>) -> bool {
    n.isa("export_statement") || n.isa("lexical_declaration") || n.isa("variable_declaration")
        || n.isa("variable_declarator")
}

/// The doc comment before a node, or before what is wrapped around it, up to
/// `k` nodes in all.
pub open spec fn jsdoc(n: Node<'_>, k: nat) -> Option<Seq<char>>
    decreases k,
{
    if k == 0 {
        None
    } else {
        match doc_before(n) {
            Some(doc) => Some(doc),
            None => match n.up() {
                Some(p) if wraps_declaration(p) => jsdoc(p, (k - 1) as nat),
                _ => None,
            },
        }
    }
}

/// The doc comment of a declaration.
pub fn extract_jsdoc_docstring(n: &Node<'_>) -> (res: Option<String>)
    ensures
        res.deep_view() == jsdoc(*n, 3),
{
    let mut target: Node<'_> = *n;
    let mut left: usize = 3;
    while left > 0
        invariant
            jsdoc(*n, 3) == jsdoc(target, left as nat),
        decreases left,
    {
        let doc = try_jsdoc_prev_sibling(&target);
        if doc.is_some() {
            return doc;
        }
        match target.parent() {
            Some(p) => {
                if p.is("export_statement") || p.is("lexical_declaration") || p.is(
                    "variable_declaration",
                ) || p.is("variable_declarator") {
                    target = p;
                    left -= 1;
                } else {
                    return None;
                }
            },
            None => return None,
        }
    }
    None
}

/// The parameters in a parameter list, with or without those that stand there
/// as bare names.
pub struct Params {
    pub bare: bool,
}

impl Picker for Params {
    type Item = String;

    open spec fn picks(&self, c: Node<'_>) -> Seq<Seq<char>> {
        if c.isa("required_parameter") || c.isa("optional_parameter") {
            some_seq(field_txt(c, "pattern"))
        } else if self.bare && c.isa("identifier") {
            seq![c.txt()]
        } else {
            Seq::empty()
        }
    }

    fn pick(&self, c: Node<'_>, out: &mut Vec<String>) {
        if c.is("required_parameter") || c.is("optional_parameter") {
            push_some(out, field_text(&c, "pattern"));
        } else if self.bare && c.is("identifier") {
            emit(out, own(c.text()));
        }
    }
}

/// The parameters of a function declaration or method.
pub open spec fn params(n: Node<'_>) -> Seq<Seq<char>> {
    match n.at("parameters") {
        Some(list) => picked(&Params { bare: false }, list),
        None => Seq::empty(),
    }
}

/// The parameters of a function declaration or method.
pub fn extract_ts_params(n: &Node<'_>) -> (res: Vec<String>)
    ensures
        res.deep_view() == params(*n),
{
    match n.child_by_field_name("parameters") {
        Some(list) => pick_all(&Params { bare: false }, list),
        None => none(),
    }
}

/// The parameters of an arrow or function expression.
pub open spec fn arrow_params(n: Node<'_>) -> Seq<Seq<char>> {
    match n.at("parameters") {
        Some(list) => picked(&Params { bare: true }, list),
        None => some_seq(field_txt(n, "parameter")),
    }
}

/// The parameters of an arrow or function expression.
pub fn extract_ts_arrow_params(n: &Node<'_>) -> (res: Vec<String>)
    ensures
        res.deep_view() == arrow_params(*n),
{
    match n.child_by_field_name("parameters") {
        Some(list) => pick_all(&Params { bare: true }, list),
        None => {
            let mut res: Vec<String> = none();
            push_some(&mut res, field_text(n, "parameter"));
            res
        },
    }
}

/// What is reported of a declared function or method.
pub open spec fn function_info(n: Node<'_>, is_method: bool) -> Function {
    let name = or_empty(field_txt(n, "name"));
    Function {
        params: params(n),
        return_type: type_in(n, "return_type"),
        docstring: jsdoc(n, 3),
        is_method,
        is_async: begins(n.txt(), "async"@),
        visibility: js_visibility(name),
        ..function_at(name, n)
    }
}

/// What is reported of a declared function or method.
pub fn extract_ts_function_info(n: &Node<'_>, is_method: bool) -> (res: FunctionInfo)
    ensures
        res.deep_view() == function_info(*n, is_method),
{
    let name = field_text_or_empty(n, "name");
    let visibility = js_name_visibility(name.as_str());
    let mut info = new_function(name, n);
    info.params = extract_ts_params(n);
    info.return_type = extract_type_in(n, "return_type");
    info.docstring = extract_jsdoc_docstring(n);
    info.is_method = is_method;
    info.is_async = starts_with(n.text(), "async");
    info.visibility = visibility;
    info
}

/// What is reported of a function value that is given a name at `place`.
pub open spec fn value_info(name: Seq<char>, value: Node<'_>, place: Node<'_>) -> Function {
    Function {
        params: arrow_params(value),
        return_type: type_in(value, "return_type"),
        is_async: begins(value.txt(), "async"@),
        ..function_at(name, place)
    }
}

fn make_value_info(name: String, value: &Node<'_>, place: &Node<'_>) -> (res: FunctionInfo)
    ensures
        res.deep_view() == value_info(name@, *value, *place),
{
    let mut info = new_function(name, place);
    info.params = extract_ts_arrow_params(value);
    info.return_type = extract_type_in(value, "return_type");
    info.is_async = starts_with(value.text(), "async");
    info
}

/// The placeholder for `object[name] = function`, whose name is not known.
pub open spec fn computed_member(n: Node<'_>) -> Seq<Function> {
    match (n.at("left"), n.at("right")) {
        (Some(left), Some(right)) => match (left.at("object"), left.at("index")) {
            (Some(object), Some(index)) if left.isa("subscript_expression") && (is_function_value(
                right,
            ) || right.isa("generator_function")) && object.isa("identifier") && index.isa(
                "identifier",
            ) && object.txt().len() > 0 => seq![
                Function {
                    visibility: Some("public"@),
                    ..function_at(object.txt() + ".[computed]"@, n)
                },
            ],
            _ => Seq::empty(),
        },
        _ => Seq::empty(),
    }
}

/// The placeholder for `object[name] = function`, whose name is not known.
pub fn extract_ts_computed_member_assignment(n: &Node<'_>, out: &mut Vec<FunctionInfo>)
    ensures
        final(out).deep_view() == old(out).deep_view() + computed_member(*n),
{
    let left = match n.child_by_field_name("left") {
        Some(left) => left,
        None => return,
    };
    if !left.is("subscript_expression") {
        return;
    }
    let right = match n.child_by_field_name("right") {
        Some(right) => right,
        None => return,
    };
    if !function_value(&right) && !right.is("generator_function") {
        return;
    }
    let object = match left.child_by_field_name("object") {
        Some(object) => object,
        None => return,
    };
    if !object.is("identifier") {
        return;
    }
    let index = match left.child_by_field_name("index") {
        Some(index) => index,
        None => return,
    };
    if !index.is("identifier") || object.text().is_empty() {
        return;
    }
    let mut info = new_function(concat(object.text(), ".[computed]"), n);
    info.visibility = some_text("public");
    emit(out, info);
}

/// The name that an assignment gives to its value, and whether the name is
/// that of a member.
pub open spec fn assigned_name(left: Node<'_>) -> Option<(Seq<char>, bool)> {
    if left.isa("identifier") {
        Some((left.txt(), false))
    } else if left.isa("member_expression") {
        match left.at("property") {
            Some(p) if p.isa("property_identifier") || p.isa("identifier") => Some((p.txt(), true)),
            _ => None,
        }
    } else {
        None
    }
}

fn find_assigned_name(left: &Node<'_>) -> (res: Option<(String, bool)>)
    ensures
        res.deep_view() == assigned_name(*left),
{
    if left.is("identifier") {
        Some((own(left.text()), false))
    } else if left.is("member_expression") {
        match left.child_by_field_name("property") {
            Some(p) => if p.is("property_identifier") || p.is("identifier") {
                Some((own(p.text()), true))
            } else {
                None
            },
            None => None,
        }
    } else {
        None
    }
}

/// The node before which an assignment is documented.
pub open spec fn doc_anchor<'a>(n: Node<'a>) -> Node<'a> {
    match n.up() {
        Some(p) if p.isa("expression_statement") => p,
        _ => n,
    }
}

/// The function that an assignment gives a name.
pub open spec fn assigned_function(n: Node<'_>) -> Seq<Function> {
    match (n.at("left"), n.at("right")) {
        (Some(left), Some(right)) => match assigned_name(left) {
            Some((name, member)) if is_function_value(right) && name.len() > 0 => seq![
                Function {
                    docstring: jsdoc(doc_anchor(n), 3),
                    visibility: if member {
                        Some("public"@)
                    } else {
                        None
                    },
                    ..value_info(name, right, n)
                },
            ],
            _ => Seq::empty(),
        },
        _ => Seq::empty(),
    }
}

/// The function that an assignment gives a name.
pub fn extract_ts_assignment_function(n: &Node<'_>, out: &mut Vec<FunctionInfo>)
    ensures
        final(out).deep_view() == old(out).deep_view() + assigned_function(*n),
{
    let left = match n.child_by_field_name("left") {
        Some(left) => left,
        None => return,
    };
    let right = match n.child_by_field_name("right") {
        Some(right) => right,
        None => return,
    };
    if !function_value(&right) {
        return;
    }
    let (name, member) = match find_assigned_name(&left) {
        Some(found) => found,
        None => return,
    };
    if name.as_str().is_empty() {
        return;
    }
    let anchor = match n.parent() {
        Some(p) => if p.is("expression_statement") {
            p
        } else {
            *n
        },
        None => *n,
    };
    let mut info = make_value_info(name, &right, n);
    info.docstring = extract_jsdoc_docstring(&anchor);
    info.visibility = if member {
        some_text("public")
    } else {
        None
    };
    emit(out, info);
}

/// The name that the key of a pair gives: a name as it stands, or the content
/// of a string that has the shape of one.
pub open spec fn key_name(key: Node<'_>) -> Seq<char> {
    if key.isa("property_identifier") || key.isa("identifier") {
        key.txt()
    } else if key.isa("string") && is_identifier(stripped(key.txt(), "\"'`"@)) {
        stripped(key.txt(), "\"'`"@)
    } else {
        Seq::empty()
    }
}

fn find_key_name(key: &Node<'_>) -> (res: String)
    ensures
        res@ == key_name(*key),
{
    if key.is("property_identifier") || key.is("identifier") {
        own(key.text())
    } else if key.is("string") {
        let content: &str = strip(key.text(), "\"'`");
        if is_js_identifier_shape(content) {
            own(content)
        } else {
            String::new()
        }
    } else {
        String::new()
    }
}

/// The function that a pair of an object literal gives a name.
pub open spec fn pair_function(n: Node<'_>) -> Seq<Function> {
    match (n.at("value"), n.at("key")) {
        (Some(value), Some(key)) if is_function_value(value) && key_name(key).len() > 0 => seq![
            Function { docstring: jsdoc(n, 3), ..value_info(key_name(key), value, n) },
        ],
        _ => Seq::empty(),
    }
}

/// The function that a pair of an object literal gives a name.
pub fn extract_ts_pair_function(n: &Node<'_>, out: &mut Vec<FunctionInfo>)
    ensures
        final(out).deep_view() == old(out).deep_view() + pair_function(*n),
{
    let value = match n.child_by_field_name("value") {
        Some(value) => value,
        None => return,
    };
    if !function_value(&value) {
        return;
    }
    let key = match n.child_by_field_name("key") {
        Some(key) => key,
        None => return,
    };
    let name = find_key_name(&key);
    if name.as_str().is_empty() {
        return;
    }
    let mut info = make_value_info(name, &value, n);
    info.docstring = extract_jsdoc_docstring(n);
    emit(out, info);
}

/// The functions that the declarators of a declaration give a name.
pub struct Declarators<'b> {
    pub declaration: Node<'b>,
}

impl<'b> Picker for Declarators<'b> {
    type Item = FunctionInfo;

    open spec fn picks(&self, c: Node<'_>) -> Seq<Function> {
        let name = or_empty(field_txt(c, "name"));
        match c.at("value") {
            Some(value) if c.isa("variable_declarator") && name.len() > 0 && is_function_value(
                value,
            ) => seq![
                Function {
                    docstring: jsdoc(self.declaration, 3),
                    is_async: begins(value.txt(), "async"@) || begins(c.txt(), "async"@),
                    ..value_info(name, value, c)
                },
            ],
            _ => Seq::empty(),
        }
    }

    fn pick(&self, c: Node<'_>, out: &mut Vec<FunctionInfo>) {
        if !c.is("variable_declarator") {
            return;
        }
        let name = field_text_or_empty(&c, "name");
        if name.as_str().is_empty() {
            return;
        }
        match c.child_by_field_name("value") {
            Some(value) => {
                if function_value(&value) {
                    let mut info = make_value_info(name, &value, &c);
                    info.docstring = extract_jsdoc_docstring(&self.declaration);
                    info.is_async = starts_with(value.text(), "async") || starts_with(
                        c.text(),
                        "async",
                    );
                    emit(out, info);
                }
            },
            None => {},
        }
    }
}

/// Whether a member of a class has a body.
pub fn ts_method_has_body(n: &Node<'_>) -> (res: bool)
    ensures
        res == (n.at("body") is Some),
{
    n.child_by_field_name("body").is_some()
}

/// The tokens that make a method an accessor.
pub struct AccessorToken;

impl Test for AccessorToken {
    open spec fn accepts(&self, c: Node<'_>) -> bool {
        c.isa("get") || c.isa("set")
    }

    fn test(&self, c: Node<'_>) -> (res: bool) {
        c.is("get") || c.is("set")
    }
}

/// The accessor token of a member: `get`, `set` or none.
pub open spec fn accessor(n: Node<'_>) -> Option<Seq<char>> {
    match found(&AccessorToken, n) {
        Some(t) => Some(t.tag()),
        None => None,
    }
}

fn same_accessor(a: &Node<'_>, b: &Node<'_>) -> (res: bool)
    ensures
        res == (accessor(*a) == accessor(*b)),
{
    match (find_child(&AccessorToken, *a), find_child(&AccessorToken, *b)) {
        (Some(x), Some(y)) => same(x.kind(), y.kind()),
        (None, None) => true,
        _ => false,
    }
}

/// The members that implement what a member declares: other methods with a
/// body, of the same name, alike in being static or an accessor.
pub struct Implements<'b> {
    pub declared: Node<'b>,
}

impl<'b> Test for Implements<'b> {
    open spec fn accepts(&self, c: Node<'_>) -> bool {
        &&& c.isa("method_definition")
        &&& c.index() != self.declared.index()
        &&& c.at("body") is Some
        &&& self.declared.at("name") is Some
        &&& field_txt(c, "name") == field_txt(self.declared, "name")
        &&& (first(c, "static") is Some) == (first(self.declared, "static") is Some)
        &&& accessor(c) == accessor(self.declared)
    }

    fn test(&self, c: Node<'_>) -> (res: bool) {
        if !c.is("method_definition") || c.id() == self.declared.id() || !ts_method_has_body(&c) {
            return false;
        }
        let same_name = match (
            c.child_by_field_name("name"),
            self.declared.child_by_field_name("name"),
        ) {
            (Some(x), Some(y)) => same(x.text(), y.text()),
            _ => false,
        };
        same_name && has_child(&c, "static") == has_child(&self.declared, "static")
            && same_accessor(&c, &self.declared)
    }
}

/// Whether some member of the class body implements what `declared` declares.
pub open spec fn has_implementation(class_body: Node<'_>, declared: Node<'_>) -> bool {
    found(&Implements { declared }, class_body) is Some
}

/// Whether some member of the class body implements what `declared` declares.
pub fn ts_method_has_impl_sibling(class_body: &Node<'_>, declared: &Node<'_>) -> (res: bool)
    ensures
        res == has_implementation(*class_body, *declared),
{
    find_child(&Implements { declared: *declared }, *class_body).is_some()
}

/// Whether a member only declares a method that another member implements.
pub open spec fn is_overload(c: Node<'_>) -> bool {
    c.at("body") is None && (c.up() matches Some(body) && has_implementation(body, c))
}

fn overload(c: &Node<'_>) -> (res: bool)
    ensures
        res == is_overload(*c),
{
    if ts_method_has_body(c) {
        return false;
    }
    match c.parent() {
        Some(body) => ts_method_has_impl_sibling(&body, c),
        None => false,
    }
}

/// The functions outside of classes, or the methods of a class body.
pub struct Functions {
    pub is_method: bool,
}

impl Walker for Functions {
    type Item = FunctionInfo;

    open spec fn yields(&self, c: Node<'_>) -> Seq<Function> {
        if c.isa("function_declaration") {
            if self.is_method {
                Seq::empty()
            } else {
                seq![function_info(c, false)]
            }
        } else if c.isa("function_signature") {
            if !self.is_method && function_info(c, false).name.len() > 0 {
                seq![function_info(c, false)]
            } else {
                Seq::empty()
            }
        } else if c.isa("method_definition") || c.isa("method_signature") {
            if self.is_method {
                if is_overload(c) {
                    Seq::empty()
                } else {
                    seq![function_info(c, true)]
                }
            } else if (c.up() matches Some(p) && p.isa("object")) {
                seq![function_info(c, false)]
            } else {
                Seq::empty()
            }
        } else if c.isa("class_declaration") || c.isa("class") {
            Seq::empty()
        } else if self.is_method {
            Seq::empty()
        } else if c.isa("lexical_declaration") || c.isa("variable_declaration") {
            picked(&Declarators { declaration: c }, c)
        } else if c.isa("function_expression") || c.isa("arrow_function") || c.isa(
            "generator_function",
        ) {
            if c.at("name") is Some && inside(&Arguments, c) && function_info(c, false).name.len()
                > 0 {
                seq![function_info(c, false)]
            } else {
                Seq::empty()
            }
        } else if c.isa("assignment_expression") {
            assigned_function(c) + computed_member(c)
        } else if c.isa("pair") {
            pair_function(c)
        } else {
            Seq::empty()
        }
    }

    open spec fn enters<'a>(&self, c: Node<'a>) -> Option<Node<'a>> {
        if c.isa("function_declaration") || c.isa("function_signature") || c.isa(
            "method_definition",
        ) || c.isa("method_signature") {
            None
        } else if c.isa("class_declaration") || c.isa("class") {
            if self.is_method {
                c.at("body")
            } else {
                None
            }
        } else {
            Some(c)
        }
    }

    fn visit<'a>(&self, c: Node<'a>, out: &mut Vec<FunctionInfo>) -> (res: Option<Node<'a>>) {
        if c.is("function_declaration") {
            if !self.is_method {
                emit(out, extract_ts_function_info(&c, false));
            }
            return None;
        }
        if c.is("function_signature") {
            if !self.is_method {
                let info = extract_ts_function_info(&c, false);
                if !info.name.as_str().is_empty() {
                    emit(out, info);
                }
            }
            return None;
        }
        if c.is("method_definition") || c.is("method_signature") {
            if self.is_method {
                if !overload(&c) {
                    emit(out, extract_ts_function_info(&c, true));
                }
            } else {
                match c.parent() {
                    Some(p) => {
                        if p.is("object") {
                            emit(out, extract_ts_function_info(&c, false));
                        }
                    },
                    None => {},
                }
            }
            return None;
        }
        if c.is("class_declaration") || c.is("class") {
            if self.is_method {
                return c.child_by_field_name("body");
            }
            return None;
        }
        if self.is_method {
            return Some(c);
        }
        if c.is("lexical_declaration") || c.is("variable_declaration") {
            pick_into(&Declarators { declaration: c }, c, out);
        } else if c.is("function_expression") || c.is("arrow_function") || c.is(
            "generator_function",
        ) {
            if c.child_by_field_name("name").is_some() && is_inside(&Arguments, &c) {
                let info = extract_ts_function_info(&c, false);
                if !info.name.as_str().is_empty() {
                    emit(out, info);
                }
            }
        } else if c.is("assignment_expression") {
            extract_ts_assignment_function(&c, out);
            extract_ts_computed_member_assignment(&c, out);
            assert(old(out).deep_view() + assigned_function(c) + computed_member(c) =~= old(
                out,
            ).deep_view() + (assigned_function(c) + computed_member(c)));
        } else if c.is("pair") {
            extract_ts_pair_function(&c, out);
        }
        Some(c)
    }
}

/// The class that a heritage clause says the class extends.
pub struct Bases;

impl Picker for Bases {
    type Item = String;

    open spec fn picks(&self, c: Node<'_>) -> Seq<Seq<char>> {
        let rest = words(behind_all(c.txt(), "extends"@));
        if c.isa("class_heritage") && begins(c.txt(), "extends"@) && rest.len() > 0 {
            seq![rest[0]]
        } else {
            Seq::empty()
        }
    }

    fn pick(&self, c: Node<'_>, out: &mut Vec<String>) {
        if c.is("class_heritage") && starts_with(c.text(), "extends") {
            let rest = split_whitespace(without_prefixes(c.text(), "extends"));
            if rest.len() > 0 {
                assert(rest.deep_view()[0] == rest@[0]@);
                emit(out, rest[0].clone());
            }
        }
    }
}

/// Names of properties.
pub struct PropertyName;

impl Test for PropertyName {
    open spec fn accepts(&self, c: Node<'_>) -> bool {
        c.isa("property_identifier") || c.isa("identifier")
    }

    fn test(&self, c: Node<'_>) -> (res: bool) {
        c.is("property_identifier") || c.is("identifier")
    }
}

/// The name of a field: that in its name field, or its first identifier.
pub open spec fn field_name(n: Node<'_>) -> Option<Seq<char>> {
    match field_txt(n, "name") {
        Some(name) => Some(name),
        None => txt_of(found(&PropertyName, n)),
    }
}

fn find_field_name(n: &Node<'_>) -> (res: Option<String>)
    ensures
        res.deep_view() == field_name(*n),
{
    match field_text(n, "name") {
        Some(name) => Some(name),
        None => match find_child(&PropertyName, *n) {
            Some(c) => Some(own(c.text())),
            None => None,
        },
    }
}

/// The visibility that the text of a field states.
pub open spec fn stated_visibility(text: Seq<char>) -> Option<Seq<char>> {
    if has(text, "private "@) {
        Some("private"@)
    } else if has(text, "protected "@) {
        Some("protected"@)
    } else {
        Some("public"@)
    }
}

/// What is reported of a field definition.
pub open spec fn field_info(n: Node<'_>) -> Option<Field> {
    match field_name(n) {
        Some(name) => Some(
            Field {
                field_type: type_in(n, "type"),
                default_value: field_txt(n, "value"),
                is_static: begins(n.txt(), "static "@),
                is_constant: begins(n.txt(), "static "@) && is_constant_name(name),
                visibility: stated_visibility(n.txt()),
                ..field_at(name, n)
            },
        ),
        None => None,
    }
}

/// What is reported of a field definition.
pub fn extract_ts_field_from_definition(n: &Node<'_>) -> (res: Option<FieldInfo>)
    ensures
        res.deep_view() == field_info(*n),
{
    let name = match find_field_name(n) {
        Some(name) => name,
        None => return None,
    };
    let text: &str = n.text();
    let is_static = starts_with(text, "static ");
    let is_constant = is_static && is_upper_case_name(name.as_str());
    let mut info = new_field(name, n);
    info.field_type = extract_type_in(n, "type");
    info.default_value = field_text(n, "value");
    info.is_static = is_static;
    info.is_constant = is_constant;
    info.visibility = if contains(text, "private ") {
        some_text("private")
    } else if contains(text, "protected ") {
        some_text("protected")
    } else {
        some_text("public")
    };
    Some(info)
}

/// The fields of a class body.
pub struct Fields;

impl Picker for Fields {
    type Item = FieldInfo;

    open spec fn picks(&self, c: Node<'_>) -> Seq<Field> {
        if c.isa("public_field_definition") || c.isa("field_definition") {
            some_seq(field_info(c))
        } else {
            Seq::empty()
        }
    }

    fn pick(&self, c: Node<'_>, out: &mut Vec<FieldInfo>) {
        if c.is("public_field_definition") || c.is("field_definition") {
            push_some(out, extract_ts_field_from_definition(&c));
        }
    }
}

/// What is reported of a class or interface.
pub open spec fn class_info(n: Node<'_>) -> Class {
    Class {
        bases: picked(&Bases, n),
        docstring: jsdoc(n, 3),
        methods: match n.at("body") {
            Some(body) => gathered(&Functions { is_method: true }, body),
            None => Seq::empty(),
        },
        fields: match n.at("body") {
            Some(body) => picked(&Fields, body),
            None => Seq::empty(),
        },
        ..class_at(or_empty(field_txt(n, "name")), n)
    }
}

/// What is reported of a class or interface.
pub fn extract_ts_class_info(n: &Node<'_>) -> (res: ClassInfo)
    ensures
        res.deep_view() == class_info(*n),
{
    let mut info = new_class(field_text_or_empty(n, "name"), n);
    info.bases = pick_all(&Bases, *n);
    info.docstring = extract_jsdoc_docstring(n);
    match n.child_by_field_name("body") {
        Some(body) => {
            info.methods = gather(&Functions { is_method: true }, body);
            info.fields = pick_all(&Fields, body);
        },
        None => {},
    }
    info
}

/// All classes, interfaces and type aliases of a file.
pub struct Classes;

impl Walker for Classes {
    type Item = ClassInfo;

    open spec fn yields(&self, c: Node<'_>) -> Seq<Class> {
        if c.isa("class_declaration") || c.isa("class") || c.isa("interface_declaration") {
            seq![class_info(c)]
        } else if c.isa("type_alias_declaration") {
            seq![
                Class {
                    docstring: jsdoc(c, 3),
                    ..class_at(or_empty(field_txt(c, "name")), c)
                },
            ]
        } else {
            Seq::empty()
        }
    }

    open spec fn enters<'a>(&self, c: Node<'a>) -> Option<Node<'a>> {
        if c.isa("class_declaration") || c.isa("class") || c.isa("interface_declaration") || c.isa(
            "type_alias_declaration",
        ) {
            None
        } else {
            Some(c)
        }
    }

    fn visit<'a>(&self, c: Node<'a>, out: &mut Vec<ClassInfo>) -> (res: Option<Node<'a>>) {
        if c.is("class_declaration") || c.is("class") || c.is("interface_declaration") {
            emit(out, extract_ts_class_info(&c));
            None
        } else if c.is("type_alias_declaration") {
            let mut info = new_class(field_text_or_empty(&c, "name"), &c);
            info.docstring = extract_jsdoc_docstring(&c);
            emit(out, info);
            None
        } else {
            Some(c)
        }
    }
}

} // verus!
