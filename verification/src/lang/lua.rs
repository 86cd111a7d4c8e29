//! Lua and Luau: functions, and tables that functions are attached to.
//!
//! Neither language has classes. A table with functions `function T.m()` or
//! `function T:m()` is reported as one.

use vstd::prelude::*;

use crate::docs::{join_lines, joined_lines};
use crate::items::{field_at, function_at, new_field, new_function};
use crate::lists::{backwards, emit, group_lists, none, one, push_some, some_seq};
use crate::names::{is_constant_name, is_upper_case_name};
use crate::nodes::{field_text_or_empty, field_txt, first, or_empty, text_of_child, txt_of, first_child};
use crate::text::{
    begins, behind_or_all, concat, concat3, own, pieces, split, starts_with, trim, trim_start,
    trimmed, trimmed_front, without_prefix,
};
use crate::tree::{group_tree, same, Node};
use crate::types::{Class, ClassInfo, Field, FieldInfo, Function, FunctionInfo};
use crate::walk::{
    find_last_child, gather, gathered, last_found, pick_all, pick_into, picked, Picker, Test,
    Walker,
};

verus! {

broadcast use {group_tree, group_lists};

/// A comment without its dashes and the white space around it.
pub open spec fn comment_text(text: Seq<char>) -> Seq<char> {
    trimmed(behind_or_all(behind_or_all(trimmed(text), "---"@), "--"@))
}

fn clean_comment(text: &str) -> (res: String)
    ensures
        res@ == comment_text(text@),
{
    own(trim(without_prefix(without_prefix(trim(text), "---"), "--")))
}

/// The comments at and before `p`, the nearest first, with no empty line
/// between them or before line `below`. A mode pragma is no such comment.
pub open spec fn comments_back(p: Option<Node<'_>>, below: int) -> Seq<Seq<char>>
    decreases
            match p {
                Some(c) => c.index() + 1,
                None => 0,
            },
{
    match p {
        Some(c) if c.isa("comment") && !begins(trimmed_front(c.txt()), "--!"@) && c.bottom() + 1
            >= below => seq![comment_text(c.txt())] + comments_back(c.left(), c.top() as int),
        _ => Seq::empty(),
    }
}

/// The comments just before a node.
pub open spec fn docstring(n: Node<'_>) -> Option<Seq<char>> {
    joined_lines(comments_back(n.left(), n.top() as int).reverse())
}

/// The comments just before a node.
pub fn extract_lua_docstring_before(n: &Node<'_>) -> (res: Option<String>)
    ensures
        res.deep_view() == docstring(*n),
{
    let mut found: Vec<String> = none();
    let mut below: u32 = n.start_line();
    let mut prev: Option<Node<'_>> = n.prev_sibling();
    let ghost all = comments_back(prev, below as int);
    loop
        invariant
            found.deep_view() + comments_back(prev, below as int) == all,
            all == comments_back(n.left(), n.top() as int),
        decreases
                match prev {
                    Some(c) => c.index() + 1,
                    None => 0,
                },
    {
        match prev {
            Some(c) => {
                if !c.is("comment") || starts_with(trim_start(c.text()), "--!") || (below > 0
                    && c.end_line() < below - 1) {
                    return join_lines(&backwards(found));
                }
                let ghost before = found.deep_view();
                emit(&mut found, clean_comment(c.text()));
                below = c.start_line();
                prev = c.prev_sibling();
                assert(before + seq![comment_text(c.txt())] + comments_back(prev, below as int)
                    =~= before + (seq![comment_text(c.txt())] + comments_back(prev, below as int)));
            },
            None => {
                return join_lines(&backwards(found));
            },
        }
    }
}

/// The parameters in a parameter list.
pub struct Params {
    pub luau: bool,
}

impl Picker for Params {
    type Item = String;

    open spec fn picks(&self, c: Node<'_>) -> Seq<Seq<char>> {
        if c.isa("identifier") {
            seq![c.txt()]
        } else if self.luau && c.isa("parameter") {
            some_seq(txt_of(first(c, "identifier")))
        } else if c.isa("spread") || c.isa("vararg_expression") {
            seq!["..."@]
        } else {
            Seq::empty()
        }
    }

    fn pick(&self, c: Node<'_>, out: &mut Vec<String>) {
        if c.is("identifier") {
            emit(out, own(c.text()));
        } else if self.luau && c.is("parameter") {
            push_some(out, text_of_child(&c, "identifier"));
        } else if c.is("spread") || c.is("vararg_expression") {
            emit(out, own("..."));
        }
    }
}

/// The parameters of a function.
pub open spec fn params(n: Node<'_>, luau: bool) -> Seq<Seq<char>> {
    match n.at("parameters") {
        Some(list) => picked(&Params { luau }, list),
        None => Seq::empty(),
    }
}

fn extract_params(n: &Node<'_>, luau: bool) -> (res: Vec<String>)
    ensures
        res.deep_view() == params(*n, luau),
{
    match n.child_by_field_name("parameters") {
        Some(list) => pick_all(&Params { luau }, list),
        None => none(),
    }
}

/// The parameters of a Lua function.
pub fn extract_lua_params(n: &Node<'_>) -> (res: Vec<String>)
    ensures
        res.deep_view() == params(*n, false),
{
    extract_params(n, false)
}

/// The parameters of a Luau function.
pub fn extract_luau_params(n: &Node<'_>) -> (res: Vec<String>)
    ensures
        res.deep_view() == params(*n, true),
{
    extract_params(n, true)
}

/// The type behind a `:` that follows the parameters and precedes the body,
/// looked for from child `i` on; the flags say whether the parameters and the
/// `:` were passed.
pub open spec fn return_type_from(n: Node<'_>, i: int, past_params: bool, colon: bool) -> Option<
    Seq<char>,
>
    decreases n.arity() - i,
{
    if i < 0 || i >= n.arity() {
        None
    } else {
        let c = n.kid(i);
        if c.isa("parameters") {
            return_type_from(n, i + 1, true, colon)
        } else if past_params && c.isa(":") {
            return_type_from(n, i + 1, past_params, true)
        } else if c.isa("block") || c.isa("end") {
            None
        } else if colon && trimmed(c.txt()).len() > 0 {
            Some(trimmed(c.txt()))
        } else {
            return_type_from(n, i + 1, past_params, colon)
        }
    }
}

/// The return type of a Luau function.
pub fn extract_luau_return_type(n: &Node<'_>) -> (res: Option<String>)
    ensures
        res.deep_view() == return_type_from(*n, 0, false, false),
{
    let count: usize = n.child_count();
    let mut past_params = false;
    let mut colon = false;
    let mut i: usize = 0;
    while i < count
        invariant
            count == n.arity(),
            i <= count,
            return_type_from(*n, 0, false, false) == return_type_from(
                *n,
                i as int,
                past_params,
                colon,
            ),
        decreases count - i,
    {
        let c = n.child(i);
        if c.is("parameters") {
            past_params = true;
        } else if past_params && c.is(":") {
            colon = true;
        } else if c.is("block") || c.is("end") {
            return None;
        } else if colon {
            let text: &str = trim(c.text());
            if !text.is_empty() {
                return Some(own(text));
            }
        }
        i += 1;
    }
    None
}

/// The return type of a function: Lua has none.
pub open spec fn return_type(n: Node<'_>, luau: bool) -> Option<Seq<char>> {
    if luau {
        return_type_from(n, 0, false, false)
    } else {
        None
    }
}

fn extract_return_type(n: &Node<'_>, luau: bool) -> (res: Option<String>)
    ensures
        res.deep_view() == return_type(*n, luau),
{
    if luau {
        extract_luau_return_type(n)
    } else {
        None
    }
}

/// What is reported of a function `f` that is named by what stands at `place`.
pub open spec fn function_info(name: Seq<char>, f: Node<'_>, place: Node<'_>, luau: bool) -> Function {
    Function {
        params: params(f, luau),
        return_type: return_type(f, luau),
        docstring: docstring(place),
        ..function_at(name, place)
    }
}

fn extract_function_info(name: String, f: &Node<'_>, place: &Node<'_>, luau: bool) -> (res:
    FunctionInfo)
    ensures
        res.deep_view() == function_info(name@, *f, *place, luau),
{
    let mut info = new_function(name, place);
    info.params = extract_params(f, luau);
    info.return_type = extract_return_type(f, luau);
    info.docstring = extract_lua_docstring_before(place);
    info
}

/// Whether a function is declared as a member of a table.
pub open spec fn is_qualified(n: Node<'_>) -> bool {
    n.at("name") matches Some(name) && (name.isa("dot_index_expression") || name.isa(
        "method_index_expression",
    ))
}

/// Whether a function is declared as a member of a table.
pub fn lua_function_decl_is_table_qualified(n: &Node<'_>) -> (res: bool)
    ensures
        res == is_qualified(*n),
{
    match n.child_by_field_name("name") {
        Some(name) => name.is("dot_index_expression") || name.is("method_index_expression"),
        None => false,
    }
}

/// The name that `table[key]` spells.
pub open spec fn bracket_name(n: Node<'_>) -> Seq<char> {
    match (n.at("table"), n.at("field")) {
        (Some(table), Some(field)) if table.txt().len() > 0 && field.txt().len() > 0 => table.txt()
            + "["@ + field.txt() + "]"@,
        _ => Seq::empty(),
    }
}

/// The name that `table[key]` spells.
pub fn lua_bracket_index_name(n: &Node<'_>) -> (res: String)
    ensures
        res@ == bracket_name(*n),
{
    match (n.child_by_field_name("table"), n.child_by_field_name("field")) {
        (Some(table), Some(field)) => {
            if table.text().is_empty() || field.text().is_empty() {
                return String::new();
            }
            let open = concat3(table.text(), "[", field.text());
            concat(open.as_str(), "]")
        },
        _ => String::new(),
    }
}

/// The name that the left side of an assignment gives, looked for from child
/// `i` on.
pub open spec fn target_name_from(n: Node<'_>, i: int) -> Seq<char>
    decreases n.arity() - i,
{
    if i < 0 || i >= n.arity() {
        Seq::empty()
    } else {
        let c = n.kid(i);
        if c.isa("dot_index_expression") {
            match field_txt(c, "field") {
                Some(name) => name,
                None => pieces(c.txt(), "."@).last(),
            }
        } else if c.isa("bracket_index_expression") {
            if bracket_name(c).len() > 0 {
                bracket_name(c)
            } else {
                target_name_from(n, i + 1)
            }
        } else if c.isa("identifier") {
            c.txt()
        } else {
            target_name_from(n, i + 1)
        }
    }
}

/// The name that the left side of an assignment gives.
pub fn extract_lua_lhs_name(n: &Node<'_>) -> (res: String)
    ensures
        res@ == target_name_from(*n, 0),
{
    let count: usize = n.child_count();
    let mut i: usize = 0;
    while i < count
        invariant
            count == n.arity(),
            i <= count,
            target_name_from(*n, 0) == target_name_from(*n, i as int),
        decreases count - i,
    {
        let c = n.child(i);
        if c.is("dot_index_expression") {
            match c.child_by_field_name("field") {
                Some(field) => return own(field.text()),
                None => {
                    proof {
                        reveal_strlit(".");
                    }
                    let parts = split(c.text(), ".");
                    assert(parts.deep_view().last() == parts@[parts@.len() - 1]@);
                    return parts[parts.len() - 1].clone();
                },
            }
        } else if c.is("bracket_index_expression") {
            let name = lua_bracket_index_name(&c);
            if !name.as_str().is_empty() {
                return name;
            }
        } else if c.is("identifier") {
            return own(c.text());
        }
        i += 1;
    }
    String::new()
}

/// The left side of an assignment.
pub struct Targets {
    pub luau: bool,
}

impl Test for Targets {
    open spec fn accepts(&self, c: Node<'_>) -> bool {
        c.isa("variable_list") || (self.luau && (c.isa("assignment_variable_list") || c.isa(
            "binding_list",
        )))
    }

    fn test(&self, c: Node<'_>) -> (res: bool) {
        c.is("variable_list") || (self.luau && (c.is("assignment_variable_list") || c.is(
            "binding_list",
        )))
    }
}

/// The right side of an assignment.
pub struct Values {
    pub luau: bool,
}

impl Test for Values {
    open spec fn accepts(&self, c: Node<'_>) -> bool {
        c.isa("expression_list") || (self.luau && c.isa("assignment_expression_list"))
    }

    fn test(&self, c: Node<'_>) -> (res: bool) {
        c.is("expression_list") || (self.luau && c.is("assignment_expression_list"))
    }
}

/// The function that an assignment gives a name.
pub open spec fn assigned_function(n: Node<'_>, luau: bool) -> Seq<Function> {
    match (last_found(&Targets { luau }, n), last_found(&Values { luau }, n)) {
        (Some(targets), Some(values)) => match first(values, "function_definition") {
            Some(f) if target_name_from(targets, 0).len() > 0 => seq![
                function_info(target_name_from(targets, 0), f, n, luau),
            ],
            _ => Seq::empty(),
        },
        _ => Seq::empty(),
    }
}

/// The function that an assignment gives a name.
pub fn extract_lua_assignment_functions(n: &Node<'_>, luau: bool, out: &mut Vec<FunctionInfo>)
    ensures
        final(out).deep_view() == old(out).deep_view() + assigned_function(*n, luau),
{
    match (find_last_child(&Targets { luau }, *n), find_last_child(&Values { luau }, *n)) {
        (Some(targets), Some(values)) => {
            match first_child(&values, "function_definition") {
                Some(f) => {
                    let name = extract_lua_lhs_name(&targets);
                    if !name.as_str().is_empty() {
                        emit(out, extract_function_info(name, &f, n, luau));
                    }
                },
                None => {},
            }
        },
        _ => {},
    }
}

/// Assignments.
pub struct Assignment {
    pub luau: bool,
}

impl Test for Assignment {
    open spec fn accepts(&self, c: Node<'_>) -> bool {
        c.isa("assignment_statement") || (self.luau && c.isa("variable_assignment"))
    }

    fn test(&self, c: Node<'_>) -> (res: bool) {
        c.is("assignment_statement") || (self.luau && c.is("variable_assignment"))
    }
}

/// The functions that the assignments of a local declaration give a name.
pub struct LocalFunctions {
    pub luau: bool,
}

impl Picker for LocalFunctions {
    type Item = FunctionInfo;

    open spec fn picks(&self, c: Node<'_>) -> Seq<Function> {
        if (Assignment { luau: self.luau }).accepts(c) {
            assigned_function(c, self.luau)
        } else {
            Seq::empty()
        }
    }

    fn pick(&self, c: Node<'_>, out: &mut Vec<FunctionInfo>) {
        if (Assignment { luau: self.luau }).test(c) {
            extract_lua_assignment_functions(&c, self.luau, out);
        }
    }
}

/// The functions of a file that are not declared as members of a table.
pub struct Functions {
    pub luau: bool,
}

impl Walker for Functions {
    type Item = FunctionInfo;

    open spec fn yields(&self, c: Node<'_>) -> Seq<Function> {
        if c.isa("function_declaration") {
            if is_qualified(c) {
                Seq::empty()
            } else {
                seq![function_info(or_empty(field_txt(c, "name")), c, c, self.luau)]
            }
        } else if (Assignment { luau: self.luau }).accepts(c) {
            assigned_function(c, self.luau)
        } else if c.isa("variable_declaration") {
            picked(&LocalFunctions { luau: self.luau }, c)
        } else {
            Seq::empty()
        }
    }

    open spec fn enters<'a>(&self, c: Node<'a>) -> Option<Node<'a>> {
        if c.isa("function_declaration") || (Assignment { luau: self.luau }).accepts(c) || c.isa(
            "variable_declaration",
        ) {
            None
        } else {
            Some(c)
        }
    }

    fn visit<'a>(&self, c: Node<'a>, out: &mut Vec<FunctionInfo>) -> (res: Option<Node<'a>>) {
        if c.is("function_declaration") {
            if !lua_function_decl_is_table_qualified(&c) {
                let name = field_text_or_empty(&c, "name");
                emit(out, extract_function_info(name, &c, &c, self.luau));
            }
            None
        } else if (Assignment { luau: self.luau }).test(c) {
            extract_lua_assignment_functions(&c, self.luau, out);
            None
        } else if c.is("variable_declaration") {
            pick_into(&LocalFunctions { luau: self.luau }, c, out);
            None
        } else {
            Some(c)
        }
    }
}

/// A table that functions are attached to.
pub struct TableClass {
    pub name: String,
    /// Line of the first `T = {}`.
    pub anchor: Option<u32>,
    /// Last line that belongs to the table.
    pub line_end: u32,
    pub methods: Vec<FunctionInfo>,
    pub fields: Vec<FieldInfo>,
}

/// What a [`TableClass`] says.
pub struct Table {
    pub name: Seq<char>,
    pub anchor: Option<u32>,
    pub line_end: u32,
    pub methods: Seq<Function>,
    pub fields: Seq<Field>,
}

impl DeepView for TableClass {
    type V = Table;

    open spec fn deep_view(&self) -> Table {
        Table {
            name: self.name@,
            anchor: self.anchor,
            line_end: self.line_end,
            methods: self.methods.deep_view(),
            fields: self.fields.deep_view(),
        }
    }
}

/// The larger of two lines.
pub open spec fn later(a: u32, b: u32) -> u32 {
    if a >= b {
        a
    } else {
        b
    }
}

fn later_line(a: u32, b: u32) -> (res: u32)
    ensures
        res == later(a, b),
{
    if a >= b {
        a
    } else {
        b
    }
}

/// Whether a field of the given name is there.
pub open spec fn has_field(fields: Seq<Field>, name: Seq<char>) -> bool {
    exists|i: int| 0 <= i < fields.len() && (#[trigger] fields[i]).name == name
}

fn field_is_there(fields: &Vec<FieldInfo>, name: &str) -> (res: bool)
    ensures
        res == has_field(fields.deep_view(), name@),
{
    let ghost all = fields.deep_view();
    let mut i: usize = 0;
    while i < fields.len()
        invariant
            i <= fields.len(),
            all == fields.deep_view(),
            forall|k: int| 0 <= k < i ==> (#[trigger] all[k]).name != name@,
        decreases fields.len() - i,
    {
        assert(all[i as int] == fields@[i as int].deep_view());
        if same(fields[i].name.as_str(), name) {
            return true;
        }
        i += 1;
    }
    false
}

/// The fields with one more, where none of its name is there.
pub open spec fn with_field(fields: Seq<Field>, field: Field) -> Seq<Field> {
    if has_field(fields, field.name) {
        fields
    } else {
        fields + seq![field]
    }
}

/// The fields with the first `k` of further ones, where none of their names is
/// there.
pub open spec fn with_fields(fields: Seq<Field>, more: Seq<Field>, k: nat) -> Seq<Field>
    decreases k,
{
    if k == 0 {
        fields
    } else {
        with_field(with_fields(fields, more, (k - 1) as nat), more[k - 1])
    }
}

fn add_field(fields: &mut Vec<FieldInfo>, field: FieldInfo)
    ensures
        final(fields).deep_view() == with_field(old(fields).deep_view(), field.deep_view()),
{
    if !field_is_there(fields, field.name.as_str()) {
        emit(fields, field);
    }
}

fn add_fields(fields: &mut Vec<FieldInfo>, more: Vec<FieldInfo>)
    ensures
        final(fields).deep_view() == with_fields(
            old(fields).deep_view(),
            more.deep_view(),
            more@.len(),
        ),
{
    let ghost start = fields.deep_view();
    let ghost all = more.deep_view();
    let mut rest = backwards(more);
    let ghost mut done: nat = 0;
    assert(rest.deep_view().len() == all.len());
    assert(all.skip(0) =~= all);
    while rest.len() > 0
        invariant
            done + rest@.len() == all.len(),
            rest.deep_view() == all.skip(done as int).reverse(),
            fields.deep_view() == with_fields(start, all, done),
        decreases rest.len(),
    {
        let ghost before = rest.deep_view();
        match rest.pop() {
            Some(field) => {
                assert(field.deep_view() == before.last());
                assert(before.last() == all[done as int]);
                assert(rest.deep_view() =~= before.drop_last());
                assert(before.drop_last() =~= all.skip((done + 1) as int).reverse());
                add_field(fields, field);
                proof {
                    done = done + 1;
                }
            },
            None => {},
        }
    }
}

/// The fields that an assignment gives to `self`.
pub struct SelfTargets<'b> {
    pub assignment: Node<'b>,
}

impl<'b> Picker for SelfTargets<'b> {
    type Item = FieldInfo;

    open spec fn picks(&self, c: Node<'_>) -> Seq<Field> {
        match (c.at("table"), c.at("field")) {
            (Some(table), Some(field)) if c.isa("dot_index_expression") && table.txt() == "self"@
                && field.txt().len() > 0 => seq![field_at(field.txt(), self.assignment)],
            _ => Seq::empty(),
        }
    }

    fn pick(&self, c: Node<'_>, out: &mut Vec<FieldInfo>) {
        if !c.is("dot_index_expression") {
            return;
        }
        match (c.child_by_field_name("table"), c.child_by_field_name("field")) {
            (Some(table), Some(field)) => {
                if same(table.text(), "self") && !field.text().is_empty() {
                    emit(out, new_field(own(field.text()), &self.assignment));
                }
            },
            _ => {},
        }
    }
}

/// The fields that the body of a function gives to `self`.
pub struct SelfFields;

impl Walker for SelfFields {
    type Item = FieldInfo;

    open spec fn yields(&self, c: Node<'_>) -> Seq<Field> {
        match first(c, "variable_list") {
            Some(list) if c.isa("assignment_statement") => picked(
                &SelfTargets { assignment: c },
                list,
            ),
            _ => Seq::empty(),
        }
    }

    open spec fn enters<'a>(&self, c: Node<'a>) -> Option<Node<'a>> {
        Some(c)
    }

    fn visit<'a>(&self, c: Node<'a>, out: &mut Vec<FieldInfo>) -> (res: Option<Node<'a>>) {
        if c.is("assignment_statement") {
            match first_child(&c, "variable_list") {
                Some(list) => pick_into(&SelfTargets { assignment: c }, list, out),
                None => {},
            }
        }
        Some(c)
    }
}

/// The table and the member that a function name consists of, and whether a
/// colon stands between them.
pub open spec fn qualified_name(n: Node<'_>) -> Option<(Seq<char>, Seq<char>, bool)> {
    if n.isa("method_index_expression") {
        match (n.at("table"), n.at("method")) {
            (Some(table), Some(method)) => Some((table.txt(), method.txt(), true)),
            _ => None,
        }
    } else if n.isa("dot_index_expression") {
        match (n.at("table"), n.at("field")) {
            (Some(table), Some(field)) => Some((table.txt(), field.txt(), false)),
            _ => None,
        }
    } else {
        None
    }
}

/// The table and the member that a function name consists of, and whether a
/// colon stands between them.
pub fn lua_split_qualified_name(n: &Node<'_>) -> (res: Option<(String, String, bool)>)
    ensures
        res.deep_view() == qualified_name(*n),
{
    if n.is("method_index_expression") {
        match (n.child_by_field_name("table"), n.child_by_field_name("method")) {
            (Some(table), Some(method)) => Some((own(table.text()), own(method.text()), true)),
            _ => None,
        }
    } else if n.is("dot_index_expression") {
        match (n.child_by_field_name("table"), n.child_by_field_name("field")) {
            (Some(table), Some(field)) => Some((own(table.text()), own(field.text()), false)),
            _ => None,
        }
    } else {
        None
    }
}

/// What is reported of a function that is a member of a table.
pub open spec fn method_info(n: Node<'_>, member: Seq<char>, colon: bool, luau: bool) -> Function {
    Function {
        is_method: true,
        decorators: seq![
            if colon {
                "method"@
            } else {
                "static"@
            },
        ],
        ..function_info(member, n, n, luau)
    }
}

fn lua_build_method_info(n: &Node<'_>, member: String, colon: bool, luau: bool) -> (res:
    FunctionInfo)
    ensures
        res.deep_view() == method_info(*n, member@, colon, luau),
{
    let mut info = extract_function_info(member, n, n, luau);
    info.is_method = true;
    info.decorators = if colon {
        one(own("method"))
    } else {
        one(own("static"))
    };
    info
}

/// The functions of a file that are members of tables: the table, the
/// function, and the fields that the function gives to `self`.
pub struct Methods {
    pub luau: bool,
}

impl Walker for Methods {
    type Item = (String, FunctionInfo, Vec<FieldInfo>);

    open spec fn yields(&self, c: Node<'_>) -> Seq<(Seq<char>, Function, Seq<Field>)> {
        match c.at("name") {
            Some(name) if c.isa("function_declaration") => match qualified_name(name) {
                Some((table, member, colon)) if table.len() > 0 && table != "self"@ && table
                    != "_"@ && member.len() > 0 => seq![
                    (table, method_info(c, member, colon, self.luau), gathered(&SelfFields, c)),
                ],
                _ => Seq::empty(),
            },
            _ => Seq::empty(),
        }
    }

    open spec fn enters<'a>(&self, c: Node<'a>) -> Option<Node<'a>> {
        Some(c)
    }

    fn visit<'a>(
        &self,
        c: Node<'a>,
        out: &mut Vec<(String, FunctionInfo, Vec<FieldInfo>)>,
    ) -> (res: Option<Node<'a>>) {
        if c.is("function_declaration") {
            match c.child_by_field_name("name") {
                Some(name) => match lua_split_qualified_name(&name) {
                    Some((table, member, colon)) => {
                        if !table.as_str().is_empty() && !same(table.as_str(), "self") && !same(
                            table.as_str(),
                            "_",
                        ) && !member.as_str().is_empty() {
                            let method = lua_build_method_info(&c, member, colon, self.luau);
                            emit(out, (table, method, gather(&SelfFields, c)));
                        }
                    },
                    None => {},
                },
                None => {},
            }
        }
        Some(c)
    }
}

/// The first table at or behind position `i` with the given name.
pub open spec fn table_from(tables: Seq<Table>, name: Seq<char>, i: int) -> Option<int>
    decreases tables.len() - i,
{
    if i < 0 || i >= tables.len() {
        None
    } else if tables[i].name == name {
        Some(i)
    } else {
        table_from(tables, name, i + 1)
    }
}

fn find_table(tables: &Vec<TableClass>, name: &str) -> (res: Option<usize>)
    ensures
        res matches Some(k) ==> table_from(tables.deep_view(), name@, 0) == Some(k as int) && k
            < tables@.len(),
        res is None ==> table_from(tables.deep_view(), name@, 0) is None,
{
    let ghost all = tables.deep_view();
    let mut i: usize = 0;
    while i < tables.len()
        invariant
            i <= tables.len(),
            all == tables.deep_view(),
            table_from(all, name@, 0) == table_from(all, name@, i as int),
        decreases tables.len() - i,
    {
        assert(all[i as int] == tables@[i as int].deep_view());
        if same(tables[i].name.as_str(), name) {
            return Some(i);
        }
        i += 1;
    }
    None
}

/// A table without anything attached.
pub open spec fn empty_table(name: Seq<char>) -> Table {
    Table { name, anchor: None, line_end: 0, methods: Seq::empty(), fields: Seq::empty() }
}

/// The table with one more method.
pub open spec fn table_with_method(t: Table, method: Function, fields: Seq<Field>) -> Table {
    Table {
        line_end: later(t.line_end, method.line_end),
        methods: t.methods + seq![method],
        fields: with_fields(t.fields, fields, fields.len()),
        ..t
    }
}

fn add_method_to_table(t: &mut TableClass, method: FunctionInfo, fields: Vec<FieldInfo>)
    ensures
        final(t).deep_view() == table_with_method(
            old(t).deep_view(),
            method.deep_view(),
            fields.deep_view(),
        ),
{
    t.line_end = later_line(t.line_end, method.line_end);
    emit(&mut t.methods, method);
    add_fields(&mut t.fields, fields);
}

/// The tables with one more method. A table comes to be with its first method.
pub open spec fn with_method(
    tables: Seq<Table>,
    name: Seq<char>,
    method: Function,
    fields: Seq<Field>,
) -> Seq<Table> {
    match table_from(tables, name, 0) {
        Some(k) => tables.update(k, table_with_method(tables[k], method, fields)),
        None => tables + seq![table_with_method(empty_table(name), method, fields)],
    }
}

fn add_method(
    tables: &mut Vec<TableClass>,
    name: String,
    method: FunctionInfo,
    fields: Vec<FieldInfo>,
)
    ensures
        final(tables).deep_view() == with_method(
            old(tables).deep_view(),
            name@,
            method.deep_view(),
            fields.deep_view(),
        ),
{
    let ghost before = tables.deep_view();
    match find_table(tables, name.as_str()) {
        Some(k) => {
            assert(before[k as int] == tables@[k as int].deep_view());
            add_method_to_table(&mut tables[k], method, fields);
            assert(tables.deep_view() =~= with_method(
                before,
                name@,
                method.deep_view(),
                fields.deep_view(),
            ));
        },
        None => {
            let mut t = TableClass {
                name,
                anchor: None,
                line_end: 0,
                methods: none(),
                fields: none(),
            };
            assert(t.deep_view() == empty_table(name@));
            add_method_to_table(&mut t, method, fields);
            emit(tables, t);
        },
    }
}

/// The tables that the first `k` methods make.
pub open spec fn tables_with_methods(methods: Seq<(Seq<char>, Function, Seq<Field>)>, k: nat) -> Seq<
    Table,
>
    decreases k,
{
    if k == 0 {
        Seq::empty()
    } else {
        let (name, method, fields) = methods[k - 1];
        with_method(tables_with_methods(methods, (k - 1) as nat), name, method, fields)
    }
}

fn collect_lua_class_methods(root: &Node<'_>, luau: bool) -> (res: Vec<TableClass>)
    ensures
        res.deep_view() == tables_with_methods(
            gathered(&Methods { luau }, *root),
            gathered(&Methods { luau }, *root).len(),
        ),
{
    let methods = gather(&Methods { luau }, *root);
    let ghost all = methods.deep_view();
    let mut rest = backwards(methods);
    let mut tables: Vec<TableClass> = none();
    let ghost mut done: nat = 0;
    assert(rest.deep_view().len() == all.len());
    assert(all.skip(0) =~= all);
    while rest.len() > 0
        invariant
            done + rest@.len() == all.len(),
            rest.deep_view() == all.skip(done as int).reverse(),
            tables.deep_view() == tables_with_methods(all, done),
        decreases rest.len(),
    {
        let ghost before = rest.deep_view();
        match rest.pop() {
            Some(item) => {
                assert(item.deep_view() == before.last());
                assert(before.last() == all[done as int]);
                assert(rest.deep_view() =~= before.drop_last());
                assert(before.drop_last() =~= all.skip((done + 1) as int).reverse());
                let (name, method, fields) = item;
                assert(all[done as int] == (name@, method.deep_view(), fields.deep_view()));
                add_method(&mut tables, name, method, fields);
                proof {
                    done = done + 1;
                }
            },
            None => {},
        }
    }
    tables
}

/// What an assignment says of a table: its name, the line of `T = {}`, the last
/// line, and the field that `T.x = value` gives it.
pub open spec fn table_note(n: Node<'_>) -> Option<(Seq<char>, Option<u32>, u32, Option<Field>)> {
    match (
        last_found(&Targets { luau: false }, n),
        last_found(&Values { luau: false }, n),
    ) {
        (Some(targets), Some(values)) => match (
            targets.named_from(0, 0),
            values.named_from(0, 0),
        ) {
            (Some(left), Some(right)) => if left.isa("identifier") {
                if right.isa("table_constructor") {
                    Some((left.txt(), Some(n.top()), n.bottom(), None))
                } else {
                    None
                }
            } else if left.isa("dot_index_expression") {
                match (left.at("table"), left.at("field")) {
                    (Some(table), Some(field)) => Some(
                        (table.txt(), None, n.bottom(), noted_field(n, field, right)),
                    ),
                    _ => None,
                }
            } else {
                None
            },
            _ => None,
        },
        _ => None,
    }
}

/// The field that `T.x = value` gives a table: none for a function, or where `x`
/// is `__index`.
pub open spec fn noted_field(n: Node<'_>, field: Node<'_>, value: Node<'_>) -> Option<Field> {
    if field.txt() == "__index"@ || value.isa("function_definition") || field.txt().len() == 0 {
        None
    } else {
        Some(
            Field {
                default_value: Some(value.txt()),
                is_static: true,
                is_constant: is_constant_name(field.txt()),
                ..field_at(field.txt(), n)
            },
        )
    }
}

fn make_noted_field(n: &Node<'_>, field: &Node<'_>, value: &Node<'_>) -> (res: Option<FieldInfo>)
    ensures
        res.deep_view() == noted_field(*n, *field, *value),
{
    if same(field.text(), "__index") || value.is("function_definition") || field.text().is_empty() {
        return None;
    }
    let mut info = new_field(own(field.text()), n);
    info.default_value = Some(own(value.text()));
    info.is_static = true;
    info.is_constant = is_upper_case_name(field.text());
    Some(info)
}

/// What an assignment says of a table.
pub fn lua_record_anchor_or_field(n: &Node<'_>) -> (res: Option<
    (String, Option<u32>, u32, Option<FieldInfo>),
>)
    ensures
        res.deep_view() == table_note(*n),
{
    let (targets, values) = match (
        find_last_child(&Targets { luau: false }, *n),
        find_last_child(&Values { luau: false }, *n),
    ) {
        (Some(targets), Some(values)) => (targets, values),
        _ => return None,
    };
    let (left, right) = match (targets.named_child(0), values.named_child(0)) {
        (Some(left), Some(right)) => (left, right),
        _ => return None,
    };
    if left.is("identifier") {
        if right.is("table_constructor") {
            Some((own(left.text()), Some(n.start_line()), n.end_line(), None))
        } else {
            None
        }
    } else if left.is("dot_index_expression") {
        match (left.child_by_field_name("table"), left.child_by_field_name("field")) {
            (Some(table), Some(field)) => {
                let made = make_noted_field(n, &field, &right);
                Some((own(table.text()), None, n.end_line(), made))
            },
            _ => None,
        }
    } else {
        None
    }
}

/// Whether a statement stands outside of all functions and blocks.
pub open spec fn is_top_level(n: Node<'_>) -> bool {
    n.up() matches Some(p) && p.up() is None
}

fn top_level(n: &Node<'_>) -> (res: bool)
    ensures
        res == is_top_level(*n),
{
    match n.parent() {
        Some(p) => p.parent().is_none(),
        None => false,
    }
}

/// What an assignment says of a table, where it belongs to the given statement.
/// Only statements at top level give fields.
pub open spec fn statement_note(n: Node<'_>, statement: Node<'_>) -> Option<
    (Seq<char>, Option<u32>, u32, Option<Field>),
> {
    match table_note(n) {
        Some((name, anchor, end, field)) => Some(
            (
                name,
                anchor,
                end,
                if is_top_level(statement) {
                    field
                } else {
                    None
                },
            ),
        ),
        None => None,
    }
}

fn make_statement_note(n: &Node<'_>, statement: &Node<'_>) -> (res: Option<
    (String, Option<u32>, u32, Option<FieldInfo>),
>)
    ensures
        res.deep_view() == statement_note(*n, *statement),
{
    match lua_record_anchor_or_field(n) {
        Some(note) => {
            let ghost before = note.deep_view();
            let (name, anchor, end, field) = note;
            assert(before == (name@, anchor, end, field.deep_view()));
            let kept = if top_level(statement) {
                field
            } else {
                None
            };
            Some((name, anchor, end, kept))
        },
        None => None,
    }
}

/// What the assignments of a local declaration say of tables.
pub struct LocalNotes<'b> {
    pub declaration: Node<'b>,
}

impl<'b> Picker for LocalNotes<'b> {
    type Item = (String, Option<u32>, u32, Option<FieldInfo>);

    open spec fn picks(&self, c: Node<'_>) -> Seq<(Seq<char>, Option<u32>, u32, Option<Field>)> {
        if c.isa("assignment_statement") {
            some_seq(statement_note(c, self.declaration))
        } else {
            Seq::empty()
        }
    }

    fn pick(&self, c: Node<'_>, out: &mut Vec<(String, Option<u32>, u32, Option<FieldInfo>)>) {
        if c.is("assignment_statement") {
            push_some(out, make_statement_note(&c, &self.declaration));
        }
    }
}

/// What the assignments of a file say of tables.
pub struct Notes;

impl Walker for Notes {
    type Item = (String, Option<u32>, u32, Option<FieldInfo>);

    open spec fn yields(&self, c: Node<'_>) -> Seq<(Seq<char>, Option<u32>, u32, Option<Field>)> {
        if c.isa("variable_declaration") {
            picked(&LocalNotes { declaration: c }, c)
        } else if c.isa("assignment_statement") {
            some_seq(statement_note(c, c))
        } else {
            Seq::empty()
        }
    }

    open spec fn enters<'a>(&self, c: Node<'a>) -> Option<Node<'a>> {
        Some(c)
    }

    fn visit<'a>(
        &self,
        c: Node<'a>,
        out: &mut Vec<(String, Option<u32>, u32, Option<FieldInfo>)>,
    ) -> (res: Option<Node<'a>>) {
        if c.is("variable_declaration") {
            pick_into(&LocalNotes { declaration: c }, c, out);
        } else if c.is("assignment_statement") {
            push_some(out, make_statement_note(&c, &c));
        }
        Some(c)
    }
}

/// The earlier of two lines, where there are two.
pub open spec fn earliest(a: Option<u32>, b: Option<u32>) -> Option<u32> {
    match (a, b) {
        (Some(x), Some(y)) => if x <= y {
            Some(x)
        } else {
            Some(y)
        },
        (Some(x), None) => Some(x),
        (None, _) => b,
    }
}

/// The table with what an assignment says of it.
pub open spec fn noted_table(t: Table, anchor: Option<u32>, end: u32, field: Option<Field>) -> Table {
    Table {
        anchor: earliest(t.anchor, anchor),
        line_end: later(t.line_end, end),
        fields: match field {
            Some(f) => with_field(t.fields, f),
            None => t.fields,
        },
        ..t
    }
}

fn note_table(t: &mut TableClass, anchor: Option<u32>, end: u32, field: Option<FieldInfo>)
    ensures
        final(t).deep_view() == noted_table(old(t).deep_view(), anchor, end, field.deep_view()),
{
    t.anchor = match (t.anchor, anchor) {
        (Some(x), Some(y)) => if x <= y {
            Some(x)
        } else {
            Some(y)
        },
        (Some(x), None) => Some(x),
        (None, _) => anchor,
    };
    t.line_end = later_line(t.line_end, end);
    match field {
        Some(f) => add_field(&mut t.fields, f),
        None => {},
    }
}

/// The tables with what an assignment says of one of them. Nothing is said of
/// tables without functions.
pub open spec fn with_note(
    tables: Seq<Table>,
    note: (Seq<char>, Option<u32>, u32, Option<Field>),
) -> Seq<Table> {
    match table_from(tables, note.0, 0) {
        Some(k) => tables.update(k, noted_table(tables[k], note.1, note.2, note.3)),
        None => tables,
    }
}

/// The tables with what the first `k` assignments say of them.
pub open spec fn with_notes(
    tables: Seq<Table>,
    notes: Seq<(Seq<char>, Option<u32>, u32, Option<Field>)>,
    k: nat,
) -> Seq<Table>
    decreases k,
{
    if k == 0 {
        tables
    } else {
        with_note(with_notes(tables, notes, (k - 1) as nat), notes[k - 1])
    }
}

fn collect_lua_class_anchors_and_fields(root: &Node<'_>, tables: &mut Vec<TableClass>)
    ensures
        final(tables).deep_view() == with_notes(
            old(tables).deep_view(),
            gathered(&Notes, *root),
            gathered(&Notes, *root).len(),
        ),
{
    let notes = gather(&Notes, *root);
    let ghost start = tables.deep_view();
    let ghost all = notes.deep_view();
    let mut rest = backwards(notes);
    let ghost mut done: nat = 0;
    assert(rest.deep_view().len() == all.len());
    assert(all.skip(0) =~= all);
    while rest.len() > 0
        invariant
            done + rest@.len() == all.len(),
            rest.deep_view() == all.skip(done as int).reverse(),
            tables.deep_view() == with_notes(start, all, done),
        decreases rest.len(),
    {
        let ghost before = rest.deep_view();
        let ghost so_far = tables.deep_view();
        match rest.pop() {
            Some(item) => {
                assert(item.deep_view() == before.last());
                assert(before.last() == all[done as int]);
                assert(rest.deep_view() =~= before.drop_last());
                assert(before.drop_last() =~= all.skip((done + 1) as int).reverse());
                let (name, anchor, end, field) = item;
                assert(all[done as int] == (name@, anchor, end, field.deep_view()));
                match find_table(tables, name.as_str()) {
                    Some(k) => {
                        assert(so_far[k as int] == tables@[k as int].deep_view());
                        note_table(&mut tables[k], anchor, end, field);
                        assert(tables.deep_view() =~= with_note(so_far, all[done as int]));
                    },
                    None => {},
                }
                proof {
                    done = done + 1;
                }
            },
            None => {},
        }
    }
}

/// The first line of the first `k` methods, or 0 where there is none.
pub open spec fn first_line(methods: Seq<Function>, k: nat) -> u32
    decreases k,
{
    if k == 0 {
        0
    } else if k == 1 {
        methods[0].line_number
    } else {
        let before = first_line(methods, (k - 1) as nat);
        if before <= methods[k - 1].line_number {
            before
        } else {
            methods[k - 1].line_number
        }
    }
}

/// The last line of the first `k` methods.
pub open spec fn last_line(methods: Seq<Function>, k: nat) -> u32
    decreases k,
{
    if k == 0 {
        0
    } else {
        later(last_line(methods, (k - 1) as nat), methods[k - 1].line_end)
    }
}

/// What is reported of a table: its line is that of `T = {}`, or of its first
/// method.
pub open spec fn table_class(t: Table) -> Class {
    Class {
        name: t.name,
        bases: Seq::empty(),
        docstring: None,
        methods: t.methods,
        fields: t.fields,
        decorators: Seq::empty(),
        line_number: match t.anchor {
            Some(line) => line,
            None => first_line(t.methods, t.methods.len()),
        },
        line_end: later(t.line_end, last_line(t.methods, t.methods.len())),
        kind: Some("table"@),
        modifiers: Seq::empty(),
        events: Seq::empty(),
        errors: Seq::empty(),
    }
}

fn make_table_class(t: TableClass) -> (res: ClassInfo)
    ensures
        res.deep_view() == table_class(t.deep_view()),
{
    let ghost methods = t.methods.deep_view();
    let mut top: u32 = 0;
    let mut bottom: u32 = 0;
    let mut i: usize = 0;
    while i < t.methods.len()
        invariant
            i <= t.methods.len(),
            methods == t.methods.deep_view(),
            top == first_line(methods, i as nat),
            bottom == last_line(methods, i as nat),
        decreases t.methods.len() - i,
    {
        assert(methods[i as int] == t.methods@[i as int].deep_view());
        let line: u32 = t.methods[i].line_number;
        if i == 0 || line < top {
            top = line;
        }
        bottom = later_line(bottom, t.methods[i].line_end);
        i += 1;
    }
    let line_number: u32 = match t.anchor {
        Some(line) => line,
        None => top,
    };
    ClassInfo {
        name: t.name,
        bases: none(),
        docstring: None,
        methods: t.methods,
        fields: t.fields,
        decorators: none(),
        line_number,
        line_end: later_line(t.line_end, bottom),
        kind: Some(own("table")),
        modifiers: none(),
        events: none(),
        errors: none(),
    }
}

/// The tables of a file that functions are attached to, in the order of their
/// first functions.
pub open spec fn tables(root: Node<'_>, luau: bool) -> Seq<Table> {
    let methods = gathered(&Methods { luau }, root);
    let notes = gathered(&Notes, root);
    with_notes(tables_with_methods(methods, methods.len()), notes, notes.len())
}

/// The classes of a file.
pub open spec fn classes(root: Node<'_>, luau: bool) -> Seq<Class> {
    Seq::new(tables(root, luau).len(), |i: int| table_class(tables(root, luau)[i]))
}

/// The classes of a file.
pub fn extract_lua_classes_detailed(root: &Node<'_>, luau: bool) -> (res: Vec<ClassInfo>)
    ensures
        res.deep_view() == classes(*root, luau),
{
    let mut found = collect_lua_class_methods(root, luau);
    collect_lua_class_anchors_and_fields(root, &mut found);
    let ghost all = found.deep_view();
    let mut rest = backwards(found);
    let mut res: Vec<ClassInfo> = none();
    assert(rest.deep_view().len() == all.len());
    assert(all.skip(0) =~= all);
    while rest.len() > 0
        invariant
            all == tables(*root, luau),
            res@.len() + rest@.len() == all.len(),
            rest.deep_view() == all.skip(res@.len() as int).reverse(),
            forall|i: int|
                0 <= i < res@.len() ==> (#[trigger] res@[i]).deep_view() == table_class(all[i]),
        decreases rest.len(),
    {
        let ghost before = rest.deep_view();
        let ghost done = res@.len();
        match rest.pop() {
            Some(t) => {
                assert(t.deep_view() == before.last());
                assert(before.last() == all[done as int]);
                assert(rest.deep_view() =~= before.drop_last());
                assert(before.drop_last() =~= all.skip((done + 1) as int).reverse());
                res.push(make_table_class(t));
            },
            None => {},
        }
    }
    assert(res.deep_view() =~= classes(*root, luau));
    res
}

} // verus!
