//! Which functions of a file call which.

use vstd::prelude::*;

use crate::lists::{emit, group_lists, holds, none};
use crate::name_map::{names_under, with_one, NameMap};
use crate::nodes::{field_text, field_txt};
use crate::order::{in_order, sort_and_dedup};
use crate::text::{pieces, split};
use crate::tree::{group_tree, same, Node, SyntaxTree};
use crate::types::{Class, ClassInfo, Function, FunctionInfo, Language};

verus! {

broadcast use {group_tree, group_lists};

/// Which functions of a file call which.
#[derive(Clone, Debug)]
pub struct IntraFileCallGraph {
    /// What each function calls.
    pub calls: NameMap,
    /// By which functions each name is called.
    pub called_by: NameMap,
}

/// What an [`IntraFileCallGraph`] says.
pub struct CallGraph {
    pub calls: Map<Seq<char>, Seq<Seq<char>>>,
    pub called_by: Map<Seq<char>, Seq<Seq<char>>>,
}

impl DeepView for IntraFileCallGraph {
    type V = CallGraph;

    open spec fn deep_view(&self) -> CallGraph {
        CallGraph { calls: self.calls.deep_view(), called_by: self.called_by.deep_view() }
    }
}

/// Whether a node declares a function whose calls are looked at.
pub open spec fn declares_function(n: Node<'_>, language: Language) -> bool {
    match language {
        Language::Python => n.isa("function_definition"),
        Language::TypeScript | Language::JavaScript => n.isa("function_declaration") || n.isa(
            "method_definition",
        ),
        Language::Go => n.isa("function_declaration") || n.isa("method_declaration"),
        Language::Rust => n.isa("function_item"),
        Language::Java => n.isa("method_declaration"),
        _ => false,
    }
}

fn function_node(n: &Node<'_>, language: Language) -> (res: bool)
    ensures
        res == declares_function(*n, language),
{
    match language {
        Language::Python => n.is("function_definition"),
        Language::TypeScript | Language::JavaScript => n.is("function_declaration") || n.is(
            "method_definition",
        ),
        Language::Go => n.is("function_declaration") || n.is("method_declaration"),
        Language::Rust => n.is("function_item"),
        Language::Java => n.is("method_declaration"),
        _ => false,
    }
}

/// Whether a node defines the function `name`: a declaration, or a variable
/// that is given a function.
pub open spec fn defines(n: Node<'_>, name: Seq<char>, language: Language) -> bool {
    field_txt(n, "name") == Some(name) && (declares_function(n, language) || (n.isa(
        "variable_declarator",
    ) && (n.at("value") matches Some(v) && (v.isa("arrow_function") || v.isa(
        "function_expression",
    ) || v.isa("function")))))
}

fn defines_name(n: &Node<'_>, name: &str, language: Language) -> (res: bool)
    ensures
        res == defines(*n, name@, language),
{
    let named = match n.child_by_field_name("name") {
        Some(c) => same(c.text(), name),
        None => false,
    };
    if !named {
        return false;
    }
    if function_node(n, language) {
        return true;
    }
    if !n.is("variable_declarator") {
        return false;
    }
    match n.child_by_field_name("value") {
        Some(v) => v.is("arrow_function") || v.is("function_expression") || v.is("function"),
        None => false,
    }
}

/// What a node calls, as written.
pub open spec fn callee(n: Node<'_>, language: Language) -> Option<Seq<char>> {
    match language {
        Language::Python => if n.isa("call") {
            field_txt(n, "function")
        } else {
            None
        },
        Language::TypeScript | Language::JavaScript | Language::Go | Language::Rust => if n.isa(
            "call_expression",
        ) {
            field_txt(n, "function")
        } else {
            None
        },
        Language::Java => if n.isa("method_invocation") {
            field_txt(n, "name")
        } else {
            None
        },
        _ => None,
    }
}

fn find_callee(n: &Node<'_>, language: Language) -> (res: Option<String>)
    ensures
        res.deep_view() == callee(*n, language),
{
    match language {
        Language::Python => if n.is("call") {
            field_text(n, "function")
        } else {
            None
        },
        Language::TypeScript | Language::JavaScript | Language::Go | Language::Rust => if n.is(
            "call_expression",
        ) {
            field_text(n, "function")
        } else {
            None
        },
        Language::Java => if n.is("method_invocation") {
            field_text(n, "name")
        } else {
            None
        },
        _ => None,
    }
}

/// The name under which a call is reported: what stands behind the last dot
/// where the file knows that name, or else the callee as written.
pub open spec fn reported(callee: Seq<char>, known: Seq<Seq<char>>) -> Seq<char> {
    let simple = pieces(callee, "."@).last();
    if known.contains(simple) {
        simple
    } else {
        callee
    }
}

fn report(callee: String, known: &Vec<String>) -> (res: String)
    ensures
        res@ == reported(callee@, known.deep_view()),
{
    proof {
        reveal_strlit(".");
    }
    let parts = split(callee.as_str(), ".");
    assert(parts.deep_view().last() == parts@[parts@.len() - 1]@);
    let simple: &String = &parts[parts.len() - 1];
    if holds(known, simple.as_str()) {
        simple.clone()
    } else {
        callee
    }
}

/// The call that a node makes.
pub open spec fn own_call(n: Node<'_>, known: Seq<Seq<char>>, language: Language) -> Seq<Seq<char>> {
    match callee(n, language) {
        Some(text) => seq![reported(text, known)],
        None => Seq::empty(),
    }
}

/// The calls at and below a node, in the order of the source.
pub open spec fn calls_at(n: Node<'_>, known: Seq<Seq<char>>, language: Language) -> Seq<Seq<char>>
    decreases n.rank(), n.arity() + 1,
{
    own_call(n, known, language) + calls_below(n, known, language, n.arity())
}

/// The calls in the first `k` children of a node.
pub open spec fn calls_below(
    n: Node<'_>,
    known: Seq<Seq<char>>,
    language: Language,
    k: nat,
) -> Seq<Seq<char>>
    decreases n.rank(), k,
{
    if k == 0 || k > n.arity() {
        Seq::empty()
    } else {
        calls_below(n, known, language, (k - 1) as nat) + calls_at(n.kid(k - 1), known, language)
    }
}

/// Collects the calls at and below a node.
pub fn extract_call_expressions(
    n: &Node<'_>,
    known: &Vec<String>,
    out: &mut Vec<String>,
    language: Language,
)
    ensures
        final(out).deep_view() == old(out).deep_view() + calls_at(*n, known.deep_view(), language),
    decreases n.rank(),
{
    let ghost start = out.deep_view();
    let ghost names = known.deep_view();
    match find_callee(n, language) {
        Some(text) => emit(out, report(text, known)),
        None => {},
    }
    let ghost own = own_call(*n, names, language);
    let count: usize = n.child_count();
    let mut i: usize = 0;
    assert(start + own + Seq::empty() =~= start + own);
    while i < count
        invariant
            count == n.arity(),
            i <= count,
            names == known.deep_view(),
            out.deep_view() == start + own + calls_below(*n, names, language, i as nat),
        decreases count - i,
    {
        let c = n.child(i);
        let ghost before = calls_below(*n, names, language, i as nat);
        extract_call_expressions(&c, known, out, language);
        assert(start + own + before + calls_at(c, names, language) =~= start + own + (before
            + calls_at(c, names, language)));
        i += 1;
    }
    assert(start + own + calls_below(*n, names, language, n.arity()) =~= start + (own + calls_below(
        *n,
        names,
        language,
        n.arity(),
    )));
}

/// The calls of all definitions of the function `name` at and below a node.
/// What is inside of one of them is not looked at again.
pub open spec fn calls_of(
    n: Node<'_>,
    name: Seq<char>,
    known: Seq<Seq<char>>,
    language: Language,
) -> Seq<Seq<char>>
    decreases n.rank(), n.arity() + 1,
{
    if defines(n, name, language) {
        calls_at(n, known, language)
    } else {
        calls_of_below(n, name, known, language, n.arity())
    }
}

/// The calls of all definitions of the function `name` in the first `k`
/// children of a node.
pub open spec fn calls_of_below(
    n: Node<'_>,
    name: Seq<char>,
    known: Seq<Seq<char>>,
    language: Language,
    k: nat,
) -> Seq<Seq<char>>
    decreases n.rank(), k,
{
    if k == 0 || k > n.arity() {
        Seq::empty()
    } else {
        calls_of_below(n, name, known, language, (k - 1) as nat) + calls_of(
            n.kid(k - 1),
            name,
            known,
            language,
        )
    }
}

/// Collects the calls of all definitions of the function `name`.
pub fn find_and_extract_calls(
    n: &Node<'_>,
    name: &str,
    known: &Vec<String>,
    out: &mut Vec<String>,
    language: Language,
)
    ensures
        final(out).deep_view() == old(out).deep_view() + calls_of(
            *n,
            name@,
            known.deep_view(),
            language,
        ),
    decreases n.rank(),
{
    if defines_name(n, name, language) {
        extract_call_expressions(n, known, out, language);
        return;
    }
    let ghost start = out.deep_view();
    let ghost names = known.deep_view();
    let count: usize = n.child_count();
    let mut i: usize = 0;
    assert(start + Seq::empty() =~= start);
    while i < count
        invariant
            count == n.arity(),
            i <= count,
            names == known.deep_view(),
            out.deep_view() == start + calls_of_below(*n, name@, names, language, i as nat),
        decreases count - i,
    {
        let c = n.child(i);
        let ghost before = calls_of_below(*n, name@, names, language, i as nat);
        find_and_extract_calls(&c, name, known, out, language);
        assert(start + before + calls_of(c, name@, names, language) =~= start + (before + calls_of(
            c,
            name@,
            names,
            language,
        )));
        i += 1;
    }
}

/// What the function `name` calls, in alphabetical order, each name one time.
pub open spec fn callees(
    root: Node<'_>,
    name: Seq<char>,
    known: Seq<Seq<char>>,
    language: Language,
) -> Seq<Seq<char>> {
    in_order(calls_of(root, name, known, language))
}

/// What the function `name` calls, in alphabetical order, each name one time.
pub fn extract_calls_in_function(
    root: &Node<'_>,
    name: &str,
    known: &Vec<String>,
    language: Language,
) -> (res: Vec<String>)
    ensures
        res.deep_view() == callees(*root, name@, known.deep_view(), language),
{
    let mut found: Vec<String> = none();
    find_and_extract_calls(root, name, known, &mut found, language);
    sort_and_dedup(&found)
}

/// The names of functions.
pub open spec fn function_names(functions: Seq<Function>) -> Seq<Seq<char>> {
    Seq::new(functions.len(), |i: int| functions[i].name)
}

/// The names of classes.
pub open spec fn class_names(classes: Seq<Class>) -> Seq<Seq<char>> {
    Seq::new(classes.len(), |i: int| classes[i].name)
}

/// The names of the methods of the first `k` classes.
pub open spec fn method_names(classes: Seq<Class>, k: nat) -> Seq<Seq<char>>
    decreases k,
{
    if k == 0 {
        Seq::empty()
    } else {
        method_names(classes, (k - 1) as nat) + function_names(classes[k - 1].methods)
    }
}

/// The functions and methods whose calls are reported.
pub open spec fn callers(functions: Seq<Function>, classes: Seq<Class>) -> Seq<Seq<char>> {
    function_names(functions) + method_names(classes, classes.len())
}

/// The names that a file knows.
pub open spec fn known_names(functions: Seq<Function>, classes: Seq<Class>) -> Seq<Seq<char>> {
    callers(functions, classes) + class_names(classes)
}

fn add_function_names(functions: &Vec<FunctionInfo>, out: &mut Vec<String>)
    ensures
        final(out).deep_view() == old(out).deep_view() + function_names(functions.deep_view()),
{
    let ghost all = functions.deep_view();
    let ghost start = out.deep_view();
    let mut i: usize = 0;
    assert(start + function_names(all).take(0) =~= start);
    while i < functions.len()
        invariant
            i <= functions.len(),
            all == functions.deep_view(),
            out.deep_view() == start + function_names(all).take(i as int),
        decreases functions.len() - i,
    {
        assert(all[i as int] == functions@[i as int].deep_view());
        emit(out, functions[i].name.clone());
        i += 1;
        assert(start + function_names(all).take(i - 1) + seq![all[i - 1].name] =~= start
            + function_names(all).take(i as int));
    }
    assert(function_names(all).take(i as int) =~= function_names(all));
}

fn collect_callers(functions: &Vec<FunctionInfo>, classes: &Vec<ClassInfo>) -> (res: Vec<String>)
    ensures
        res.deep_view() == callers(functions.deep_view(), classes.deep_view()),
{
    let ghost all = classes.deep_view();
    let ghost first = function_names(functions.deep_view());
    let mut out: Vec<String> = none();
    add_function_names(functions, &mut out);
    let mut i: usize = 0;
    assert(first + Seq::empty() =~= first);
    while i < classes.len()
        invariant
            i <= classes.len(),
            all == classes.deep_view(),
            out.deep_view() == first + method_names(all, i as nat),
        decreases classes.len() - i,
    {
        assert(all[i as int] == classes@[i as int].deep_view());
        let ghost before = method_names(all, i as nat);
        add_function_names(&classes[i].methods, &mut out);
        assert(first + before + function_names(all[i as int].methods) =~= first + (before
            + function_names(all[i as int].methods)));
        i += 1;
    }
    out
}

fn add_class_names(classes: &Vec<ClassInfo>, out: &mut Vec<String>)
    ensures
        final(out).deep_view() == old(out).deep_view() + class_names(classes.deep_view()),
{
    let ghost all = classes.deep_view();
    let ghost start = out.deep_view();
    let mut i: usize = 0;
    assert(start + class_names(all).take(0) =~= start);
    while i < classes.len()
        invariant
            i <= classes.len(),
            all == classes.deep_view(),
            out.deep_view() == start + class_names(all).take(i as int),
        decreases classes.len() - i,
    {
        assert(all[i as int] == classes@[i as int].deep_view());
        emit(out, classes[i].name.clone());
        i += 1;
        assert(start + class_names(all).take(i - 1) + seq![all[i - 1].name] =~= start + class_names(
            all,
        ).take(i as int));
    }
    assert(class_names(all).take(i as int) =~= class_names(all));
}

/// The reverse map with a caller noted at the first `k` of its callees.
pub open spec fn noted(
    called_by: Map<Seq<char>, Seq<Seq<char>>>,
    caller: Seq<char>,
    callees: Seq<Seq<char>>,
    k: nat,
) -> Map<Seq<char>, Seq<Seq<char>>>
    decreases k,
{
    if k == 0 {
        called_by
    } else {
        let before = noted(called_by, caller, callees, (k - 1) as nat);
        before.insert(callees[k - 1], with_one(names_under(before, callees[k - 1]), caller))
    }
}

fn note_caller(called_by: NameMap, caller: &str, callees: &Vec<String>) -> (res: NameMap)
    ensures
        res.deep_view() == noted(
            called_by.deep_view(),
            caller@,
            callees.deep_view(),
            callees@.len(),
        ),
{
    let ghost start = called_by.deep_view();
    let ghost all = callees.deep_view();
    let mut map = called_by;
    let mut i: usize = 0;
    while i < callees.len()
        invariant
            i <= callees.len(),
            all == callees.deep_view(),
            map.deep_view() == noted(start, caller@, all, i as nat),
        decreases callees.len() - i,
    {
        assert(all[i as int] == callees@[i as int]@);
        map = map.with_name(callees[i].as_str(), caller);
        i += 1;
    }
    map
}

/// The call graph with one more caller.
pub open spec fn with_caller(graph: CallGraph, caller: Seq<char>, callees: Seq<Seq<char>>) -> CallGraph {
    if callees.len() == 0 {
        graph
    } else {
        CallGraph {
            calls: graph.calls.insert(caller, callees),
            called_by: noted(graph.called_by, caller, callees, callees.len()),
        }
    }
}

/// The call graph of the first `k` callers.
pub open spec fn graph_upto(
    root: Node<'_>,
    names: Seq<Seq<char>>,
    known: Seq<Seq<char>>,
    language: Language,
    k: nat,
) -> CallGraph
    decreases k,
{
    if k == 0 {
        CallGraph { calls: Map::empty(), called_by: Map::empty() }
    } else {
        with_caller(
            graph_upto(root, names, known, language, (k - 1) as nat),
            names[k - 1],
            callees(root, names[k - 1], known, language),
        )
    }
}

/// The call graph of a file with the given functions and classes.
pub open spec fn call_graph(
    root: Node<'_>,
    language: Language,
    functions: Seq<Function>,
    classes: Seq<Class>,
) -> CallGraph {
    graph_upto(
        root,
        callers(functions, classes),
        known_names(functions, classes),
        language,
        callers(functions, classes).len(),
    )
}

/// The call graph of a file with the given functions and classes.
pub fn build_intra_file_call_graph(
    tree: &SyntaxTree,
    language: Language,
    functions: &Vec<FunctionInfo>,
    classes: &Vec<ClassInfo>,
) -> (res: IntraFileCallGraph)
    ensures
        res.deep_view() == call_graph(
            tree.root(),
            language,
            functions.deep_view(),
            classes.deep_view(),
        ),
{
    let root = tree.root_node();
    let names = collect_callers(functions, classes);
    let mut known = collect_callers(functions, classes);
    add_class_names(classes, &mut known);
    let ghost all = names.deep_view();
    let ghost knows = known.deep_view();
    let mut calls = NameMap::new();
    let mut called_by = NameMap::new();
    let mut i: usize = 0;
    while i < names.len()
        invariant
            i <= names.len(),
            all == names.deep_view(),
            knows == known.deep_view(),
            (CallGraph { calls: calls.deep_view(), called_by: called_by.deep_view() })
                == graph_upto(root, all, knows, language, i as nat),
        decreases names.len() - i,
    {
        assert(all[i as int] == names@[i as int]@);
        let name: &str = names[i].as_str();
        let list = extract_calls_in_function(&root, name, &known, language);
        if list.len() > 0 {
            called_by = note_caller(called_by, name, &list);
            calls = calls.with(name, list);
        }
        i += 1;
    }
    IntraFileCallGraph { calls, called_by }
}

} // verus!
