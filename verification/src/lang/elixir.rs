//! Elixir: functions (`def`, `defp`) and modules.

use vstd::prelude::*;

use crate::items::{class_at, function_at, new_class, new_function};
use crate::lists::{emit, group_lists, none, push_some, some_seq};
use crate::nodes::{first, first_child, or_empty, txt_of};
use crate::text::{begins, behind_all, own, starts_with, trim, trimmed, without_prefixes};
use crate::tree::{group_tree, same, Node};
use crate::types::{Class, ClassInfo, Function, FunctionInfo};
use crate::walk::{
    find_child, find_last_child, found, gather_into, gathered, last_found, pick_all, picked,
    Picker, Test, Walker,
};

verus! {

broadcast use {group_tree, group_lists};

/// The word that a call begins with.
pub open spec fn head_word(n: Node<'_>) -> Option<Seq<char>> {
    if n.isa("call") {
        txt_of(n.nth(0))
    } else {
        None
    }
}

/// Whether a call defines a function.
pub open spec fn is_def(n: Node<'_>) -> bool {
    head_word(n) == Some("def"@) || head_word(n) == Some("defp"@)
}

fn head_is(n: &Node<'_>, word: &str) -> (res: bool)
    ensures
        res == (head_word(*n) == Some(word@)),
{
    if !n.is("call") {
        return false;
    }
    match n.get_child(0) {
        Some(c) => same(c.text(), word),
        None => false,
    }
}

fn defines_function(n: &Node<'_>) -> (res: bool)
    ensures
        res == is_def(*n),
{
    head_is(n, "def") || head_is(n, "defp")
}

/// The first identifier at or below a node.
pub open spec fn first_identifier(n: Node<'_>) -> Option<Seq<char>>
    decreases n.rank(), n.arity() + 1,
{
    if n.isa("identifier") {
        Some(n.txt())
    } else {
        first_identifier_from(n, n.arity())
    }
}

/// The first identifier in the last `k` children.
pub open spec fn first_identifier_from(n: Node<'_>, k: nat) -> Option<Seq<char>>
    decreases n.rank(), k,
{
    if k == 0 || k > n.arity() {
        None
    } else {
        match first_identifier(n.kid(n.arity() - k)) {
            Some(name) => Some(name),
            None => first_identifier_from(n, (k - 1) as nat),
        }
    }
}

/// The first identifier at or below a node.
pub fn elixir_first_identifier(n: &Node<'_>) -> (res: Option<String>)
    ensures
        res.deep_view() == first_identifier(*n),
    decreases n.rank(),
{
    if n.is("identifier") {
        return Some(own(n.text()));
    }
    let count: usize = n.child_count();
    let mut i: usize = 0;
    while i < count
        invariant
            count == n.arity(),
            i <= count,
            first_identifier(*n) == first_identifier_from(*n, (count - i) as nat),
        decreases count - i,
    {
        let name = elixir_first_identifier(&n.child(i));
        if name.is_some() {
            return name;
        }
        i += 1;
    }
    None
}

/// The match operator.
pub struct MatchOperator;

impl Test for MatchOperator {
    open spec fn accepts(&self, c: Node<'_>) -> bool {
        c.isa("=") && c.txt() == "="@
    }

    fn test(&self, c: Node<'_>) -> (res: bool) {
        c.is("=") && same(c.text(), "=")
    }
}

/// Identifiers.
pub struct Identifier;

impl Test for Identifier {
    open spec fn accepts(&self, c: Node<'_>) -> bool {
        c.isa("identifier")
    }

    fn test(&self, c: Node<'_>) -> (res: bool) {
        c.is("identifier")
    }
}

/// The name that an operator in a parameter list binds: that right of a `=`,
/// and that left of any other operator.
pub open spec fn bound_name(n: Node<'_>) -> Option<Seq<char>> {
    if found(&MatchOperator, n) is Some {
        match n.at("right") {
            Some(right) => first_identifier(right),
            None => txt_of(last_found(&Identifier, n)),
        }
    } else {
        match n.nth(0) {
            Some(left) if left.isa("identifier") => Some(left.txt()),
            _ => None,
        }
    }
}

fn find_bound_name(n: &Node<'_>) -> (res: Option<String>)
    ensures
        res.deep_view() == bound_name(*n),
{
    if find_child(&MatchOperator, *n).is_some() {
        match n.child_by_field_name("right") {
            Some(right) => elixir_first_identifier(&right),
            None => match find_last_child(&Identifier, *n) {
                Some(id) => Some(own(id.text())),
                None => None,
            },
        }
    } else {
        match n.get_child(0) {
            Some(left) => if left.is("identifier") {
                Some(own(left.text()))
            } else {
                None
            },
            None => None,
        }
    }
}

/// The parameters in an argument list: names, what an operator binds, and
/// patterns as written.
pub struct Params;

impl Picker for Params {
    type Item = String;

    open spec fn picks(&self, c: Node<'_>) -> Seq<Seq<char>> {
        let text = c.txt();
        if c.isa("identifier") {
            seq![text]
        } else if c.isa("binary_operator") {
            some_seq(bound_name(c))
        } else if c.isa("unary_operator") || c.isa("tuple") || c.isa("map") || c.isa("list")
            || c.isa("sigil") || c.isa("string") || c.isa("atom") {
            seq![text]
        } else if c.isa(",") || c.isa("(") || c.isa(")") || text.len() == 0 || text == ","@ || text
            == "("@ || text == ")"@ {
            Seq::empty()
        } else {
            seq![text]
        }
    }

    fn pick(&self, c: Node<'_>, out: &mut Vec<String>) {
        let text: &str = c.text();
        if c.is("identifier") {
            emit(out, own(text));
        } else if c.is("binary_operator") {
            push_some(out, find_bound_name(&c));
        } else if c.is("unary_operator") || c.is("tuple") || c.is("map") || c.is("list") || c.is(
            "sigil",
        ) || c.is("string") || c.is("atom") {
            emit(out, own(text));
        } else if !(c.is(",") || c.is("(") || c.is(")") || text.is_empty() || same(text, ",")
            || same(text, "(") || same(text, ")")) {
            emit(out, own(text));
        }
    }
}

/// The parameters in an argument list.
pub fn extract_elixir_params(n: &Node<'_>) -> (res: Vec<String>)
    ensures
        res.deep_view() == picked(&Params, *n),
{
    pick_all(&Params, *n)
}

/// The parameters of a clause `name(..)`.
pub open spec fn clause_params(n: Node<'_>) -> Seq<Seq<char>> {
    match n.nth(1) {
        Some(args) if args.isa("arguments") => picked(&Params, args),
        _ => Seq::empty(),
    }
}

fn extract_clause_params(n: &Node<'_>) -> (res: Vec<String>)
    ensures
        res.deep_view() == clause_params(*n),
{
    match n.get_child(1) {
        Some(args) => if args.is("arguments") {
            extract_elixir_params(&args)
        } else {
            none()
        },
        None => none(),
    }
}

/// The name of a clause `name(..)`, or `otherwise`.
pub open spec fn clause_name(n: Node<'_>, otherwise: Seq<char>) -> Seq<char> {
    match n.nth(0) {
        Some(c) if c.isa("identifier") => c.txt(),
        _ => otherwise,
    }
}

fn find_clause_name(n: &Node<'_>, otherwise: String) -> (res: String)
    ensures
        res@ == clause_name(*n, otherwise@),
{
    match n.get_child(0) {
        Some(c) => if c.is("identifier") {
            own(c.text())
        } else {
            otherwise
        },
        None => otherwise,
    }
}

/// The name and the parameters of a clause with a guard, looked for from child
/// `i` on: those of the first call, or the first name without one.
pub open spec fn guarded_from(n: Node<'_>, i: int, name: Seq<char>) -> (Seq<char>, Seq<Seq<char>>)
    decreases n.arity() - i,
{
    if i < 0 || i >= n.arity() {
        (name, Seq::empty())
    } else {
        let c = n.kid(i);
        if c.isa("call") {
            (clause_name(c, name), clause_params(c))
        } else if c.isa("identifier") && name.len() == 0 {
            guarded_from(n, i + 1, c.txt())
        } else {
            guarded_from(n, i + 1, name)
        }
    }
}

fn extract_guarded(n: &Node<'_>) -> (res: (String, Vec<String>))
    ensures
        res.deep_view() == guarded_from(*n, 0, Seq::empty()),
{
    let count: usize = n.child_count();
    let mut name = String::new();
    let mut i: usize = 0;
    while i < count
        invariant
            count == n.arity(),
            i <= count,
            guarded_from(*n, 0, Seq::empty()) == guarded_from(*n, i as int, name@),
        decreases count - i,
    {
        let c = n.child(i);
        if c.is("call") {
            return (find_clause_name(&c, name), extract_clause_params(&c));
        }
        if c.is("identifier") && name.as_str().is_empty() {
            name = own(c.text());
        }
        i += 1;
    }
    (name, none())
}

/// The name and the parameters that the head of a definition states.
pub open spec fn head(n: Node<'_>) -> (Seq<char>, Seq<Seq<char>>) {
    match n.nth(1) {
        Some(args) => if args.isa("arguments") {
            match args.nth(0) {
                Some(arg) => if arg.isa("identifier") {
                    (arg.txt(), Seq::empty())
                } else if arg.isa("call") {
                    (clause_name(arg, Seq::empty()), clause_params(arg))
                } else if arg.isa("binary_operator") {
                    guarded_from(arg, 0, Seq::empty())
                } else {
                    (Seq::empty(), Seq::empty())
                },
                None => (Seq::empty(), Seq::empty()),
            }
        } else if args.isa("call") {
            (clause_name(args, Seq::empty()), clause_params(args))
        } else if args.isa("identifier") {
            (args.txt(), Seq::empty())
        } else {
            (Seq::empty(), Seq::empty())
        },
        None => (Seq::empty(), Seq::empty()),
    }
}

fn extract_head(n: &Node<'_>) -> (res: (String, Vec<String>))
    ensures
        res.deep_view() == head(*n),
{
    let args = match n.get_child(1) {
        Some(args) => args,
        None => return (String::new(), none()),
    };
    if args.is("arguments") {
        match args.get_child(0) {
            Some(arg) => if arg.is("identifier") {
                (own(arg.text()), none())
            } else if arg.is("call") {
                (find_clause_name(&arg, String::new()), extract_clause_params(&arg))
            } else if arg.is("binary_operator") {
                extract_guarded(&arg)
            } else {
                (String::new(), none())
            },
            None => (String::new(), none()),
        }
    } else if args.is("call") {
        (find_clause_name(&args, String::new()), extract_clause_params(&args))
    } else if args.is("identifier") {
        (own(args.text()), none())
    } else {
        (String::new(), none())
    }
}

/// The parameters of the function that a `def` call defines.
pub open spec fn def_params(n: Node<'_>) -> Seq<Seq<char>> {
    match first(n, "arguments") {
        Some(args) => match args.nth(0) {
            Some(arg) => if arg.isa("call") {
                clause_params(arg)
            } else if arg.isa("binary_operator") {
                match first(arg, "call") {
                    Some(call) => clause_params(call),
                    None => Seq::empty(),
                }
            } else {
                Seq::empty()
            },
            None => Seq::empty(),
        },
        None => Seq::empty(),
    }
}

/// The parameters of the function that a `def` call defines.
pub fn elixir_params_from_def_call(n: &Node<'_>) -> (res: Vec<String>)
    ensures
        res.deep_view() == def_params(*n),
{
    match first_child(n, "arguments") {
        Some(args) => match args.get_child(0) {
            Some(arg) => if arg.is("call") {
                extract_clause_params(&arg)
            } else if arg.is("binary_operator") {
                match first_child(&arg, "call") {
                    Some(call) => extract_clause_params(&call),
                    None => none(),
                }
            } else {
                none()
            },
            None => none(),
        },
        None => none(),
    }
}

/// What stands behind the `@doc` at or before `p`, past specs.
pub open spec fn doc_at(p: Option<Node<'_>>) -> Option<Seq<char>>
    decreases
            match p {
                Some(c) => c.index() + 1,
                None => 0,
            },
{
    match p {
        Some(c) if c.isa("call") || c.isa("unary_operator") => {
            let doc = trimmed(behind_all(c.txt(), "@doc"@));
            if begins(c.txt(), "@doc"@) && doc.len() > 0 {
                Some(doc)
            } else if begins(c.txt(), "@spec"@) || begins(c.txt(), "@impl"@) {
                doc_at(c.left())
            } else {
                None
            }
        },
        _ => None,
    }
}

/// The documentation of a function.
pub fn extract_elixir_docstring(n: &Node<'_>) -> (res: Option<String>)
    ensures
        res.deep_view() == doc_at(n.left()),
{
    let mut prev: Option<Node<'_>> = n.prev_sibling();
    loop
        invariant
            doc_at(n.left()) == doc_at(prev),
        decreases
                match prev {
                    Some(c) => c.index() + 1,
                    None => 0,
                },
    {
        match prev {
            Some(c) => {
                if !c.is("call") && !c.is("unary_operator") {
                    return None;
                }
                let text: &str = c.text();
                if starts_with(text, "@doc") {
                    let doc: &str = trim(without_prefixes(text, "@doc"));
                    if !doc.is_empty() {
                        return Some(own(doc));
                    }
                }
                if !starts_with(text, "@spec") && !starts_with(text, "@impl") {
                    return None;
                }
                prev = c.prev_sibling();
            },
            None => return None,
        }
    }
}

/// What is reported of a function.
pub open spec fn function_info(n: Node<'_>) -> Function {
    Function { params: head(n).1, docstring: doc_at(n.left()), ..function_at(head(n).0, n) }
}

/// What is reported of a function.
pub fn extract_elixir_function_info(n: &Node<'_>) -> (res: FunctionInfo)
    ensures
        res.deep_view() == function_info(*n),
{
    let parts = extract_head(n);
    assert(parts.deep_view() == (parts.0@, parts.1.deep_view()));
    let (name, params) = parts;
    let mut info = new_function(name, n);
    info.params = params;
    info.docstring = extract_elixir_docstring(n);
    info
}

/// Whether a node belongs to the head of a module definition.
pub open spec fn in_module_head(n: Node<'_>) -> bool {
    !n.isa("do_block") && (n.up() matches Some(p) && head_word(p) == Some("defmodule"@))
}

fn belongs_to_module_head(n: &Node<'_>) -> (res: bool)
    ensures
        res == in_module_head(*n),
{
    if n.is("do_block") {
        return false;
    }
    match n.parent() {
        Some(p) => head_is(&p, "defmodule"),
        None => false,
    }
}

/// All functions of a file, but for those inside of functions.
pub struct Functions;

impl Walker for Functions {
    type Item = FunctionInfo;

    open spec fn yields(&self, c: Node<'_>) -> Seq<Function> {
        if !in_module_head(c) && is_def(c) {
            seq![function_info(c)]
        } else {
            Seq::empty()
        }
    }

    open spec fn enters<'a>(&self, c: Node<'a>) -> Option<Node<'a>> {
        if in_module_head(c) || is_def(c) {
            None
        } else {
            Some(c)
        }
    }

    fn visit<'a>(&self, c: Node<'a>, out: &mut Vec<FunctionInfo>) -> (res: Option<Node<'a>>) {
        if belongs_to_module_head(&c) {
            None
        } else if defines_function(&c) {
            emit(out, extract_elixir_function_info(&c));
            None
        } else {
            Some(c)
        }
    }
}

/// The functions in the body of a module, but for those inside of other calls.
pub struct BodyFunctions;

impl Walker for BodyFunctions {
    type Item = FunctionInfo;

    open spec fn yields(&self, c: Node<'_>) -> Seq<Function> {
        if is_def(c) {
            seq![function_info(c)]
        } else {
            Seq::empty()
        }
    }

    open spec fn enters<'a>(&self, c: Node<'a>) -> Option<Node<'a>> {
        if c.isa("call") {
            None
        } else {
            Some(c)
        }
    }

    fn visit<'a>(&self, c: Node<'a>, out: &mut Vec<FunctionInfo>) -> (res: Option<Node<'a>>) {
        if defines_function(&c) {
            emit(out, extract_elixir_function_info(&c));
        }
        if c.is("call") {
            None
        } else {
            Some(c)
        }
    }
}

/// The functions of a module.
pub struct ModuleFunctions;

impl Picker for ModuleFunctions {
    type Item = FunctionInfo;

    open spec fn picks(&self, c: Node<'_>) -> Seq<Function> {
        if c.isa("do_block") {
            gathered(&BodyFunctions, c)
        } else {
            Seq::empty()
        }
    }

    fn pick(&self, c: Node<'_>, out: &mut Vec<FunctionInfo>) {
        if c.is("do_block") {
            gather_into(&BodyFunctions, c, out);
        }
    }
}

/// What stands behind the first `@moduledoc` of a body that precedes its
/// functions, looked for from child `i` on.
pub open spec fn moduledoc_from(n: Node<'_>, i: int) -> Option<Seq<char>>
    decreases n.arity() - i,
{
    if i < 0 || i >= n.arity() {
        None
    } else {
        let c = n.kid(i);
        let doc = trimmed(behind_all(c.txt(), "@moduledoc"@));
        if (c.isa("call") || c.isa("unary_operator")) && begins(c.txt(), "@moduledoc"@) && doc.len()
            > 0 {
            Some(doc)
        } else if is_def(c) {
            None
        } else {
            moduledoc_from(n, i + 1)
        }
    }
}

fn find_moduledoc(n: &Node<'_>) -> (res: Option<String>)
    ensures
        res.deep_view() == moduledoc_from(*n, 0),
{
    let count: usize = n.child_count();
    let mut i: usize = 0;
    while i < count
        invariant
            count == n.arity(),
            i <= count,
            moduledoc_from(*n, 0) == moduledoc_from(*n, i as int),
        decreases count - i,
    {
        let c = n.child(i);
        if (c.is("call") || c.is("unary_operator")) && starts_with(c.text(), "@moduledoc") {
            let doc: &str = trim(without_prefixes(c.text(), "@moduledoc"));
            if !doc.is_empty() {
                return Some(own(doc));
            }
        }
        if defines_function(&c) {
            return None;
        }
        i += 1;
    }
    None
}

/// The module docs of the bodies of a module.
pub struct ModuleDocs;

impl Picker for ModuleDocs {
    type Item = String;

    open spec fn picks(&self, c: Node<'_>) -> Seq<Seq<char>> {
        if c.isa("do_block") {
            some_seq(moduledoc_from(c, 0))
        } else {
            Seq::empty()
        }
    }

    fn pick(&self, c: Node<'_>, out: &mut Vec<String>) {
        if c.is("do_block") {
            push_some(out, find_moduledoc(&c));
        }
    }
}

/// The documentation of a module.
pub open spec fn module_docstring(n: Node<'_>) -> Option<Seq<char>> {
    if picked(&ModuleDocs, n).len() > 0 {
        Some(picked(&ModuleDocs, n)[0])
    } else {
        None
    }
}

/// The documentation of a module.
pub fn extract_elixir_module_docstring(n: &Node<'_>) -> (res: Option<String>)
    ensures
        res.deep_view() == module_docstring(*n),
{
    let docs = pick_all(&ModuleDocs, *n);
    if docs.len() > 0 {
        assert(docs.deep_view()[0] == docs@[0]@);
        Some(docs[0].clone())
    } else {
        None
    }
}

/// What can name a module.
pub struct ModuleName;

impl Test for ModuleName {
    open spec fn accepts(&self, c: Node<'_>) -> bool {
        c.isa("alias") || c.isa("call") || c.isa("dot")
    }

    fn test(&self, c: Node<'_>) -> (res: bool) {
        c.is("alias") || c.is("call") || c.is("dot")
    }
}

/// The name of a module.
pub open spec fn module_name(n: Node<'_>) -> Seq<char> {
    match n.nth(1) {
        Some(args) => if args.isa("arguments") {
            or_empty(txt_of(found(&ModuleName, args)))
        } else if args.isa("alias") {
            args.txt()
        } else {
            Seq::empty()
        },
        None => Seq::empty(),
    }
}

fn find_module_name(n: &Node<'_>) -> (res: String)
    ensures
        res@ == module_name(*n),
{
    match n.get_child(1) {
        Some(args) => if args.is("arguments") {
            match find_child(&ModuleName, args) {
                Some(c) => own(c.text()),
                None => String::new(),
            }
        } else if args.is("alias") {
            own(args.text())
        } else {
            String::new()
        },
        None => String::new(),
    }
}

/// What is reported of a module.
pub open spec fn module_info(n: Node<'_>) -> Class {
    Class {
        docstring: module_docstring(n),
        methods: picked(&ModuleFunctions, n),
        ..class_at(module_name(n), n)
    }
}

/// What is reported of a module.
pub fn extract_elixir_module_info(n: &Node<'_>) -> (res: ClassInfo)
    ensures
        res.deep_view() == module_info(*n),
{
    let mut info = new_class(find_module_name(n), n);
    info.docstring = extract_elixir_module_docstring(n);
    info.methods = pick_all(&ModuleFunctions, *n);
    info
}

/// All modules of a file, but for those inside of others.
pub struct Classes;

impl Walker for Classes {
    type Item = ClassInfo;

    open spec fn yields(&self, c: Node<'_>) -> Seq<Class> {
        if head_word(c) == Some("defmodule"@) {
            seq![module_info(c)]
        } else {
            Seq::empty()
        }
    }

    open spec fn enters<'a>(&self, c: Node<'a>) -> Option<Node<'a>> {
        if head_word(c) == Some("defmodule"@) {
            None
        } else {
            Some(c)
        }
    }

    fn visit<'a>(&self, c: Node<'a>, out: &mut Vec<ClassInfo>) -> (res: Option<Node<'a>>) {
        if head_is(&c, "defmodule") {
            emit(out, extract_elixir_module_info(&c));
            None
        } else {
            Some(c)
        }
    }
}

} // verus!
