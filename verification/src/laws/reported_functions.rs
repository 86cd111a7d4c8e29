//! Which nodes of a file are reported as its functions, and what is reported of
//! them.

use vstd::prelude::*;

use crate::extract::functions_in;
use crate::lang;
use crate::laws::listing::{
    closed_but_for_bodies, closed_by, has_plain_bodies, is_open, lemma_picked_blocks,
    lemma_picked_kids, lemma_reported, lemma_reported_blocks, lemma_reported_in_bodies, lemma_ones,
    ones, reports, reports_blocks, reports_kid_blocks, reports_kids,
};
use crate::lists::group_lists;
use crate::names::{is_identifier, js_visibility};
use crate::nodes::first;
use crate::spans::declaration_line;
use crate::text::{begins, has, stripped, stripped_front, trimmed};
use crate::tree::{at_or_below, group_tree, lemma_up_index, Node};
use crate::types::{Function, Language};
use crate::walk::{found, gathered, inside, last_found, picked, Test, Walker};

verus! {

broadcast use {group_tree, group_lists};

/// The text of the child that fills a field.
pub open spec fn txt_at(d: Node<'_>, field: &str) -> Option<Seq<char>> {
    match d.at(field) {
        Some(c) => Some(c.txt()),
        None => None,
    }
}

/// The text of the child that fills a field, or the empty text.
pub open spec fn word_at(d: Node<'_>, field: &str) -> Seq<char> {
    match d.at(field) {
        Some(c) => c.txt(),
        None => Seq::empty(),
    }
}

/// Whether `p` accepts a node above `d`.
pub open spec fn is_under<'a>(d: Node<'a>, p: spec_fn(Node<'a>) -> bool) -> bool {
    exists|e: Node<'a>| #[trigger] at_or_below(e, d) && e != d && p(e)
}

pub(crate) proof fn lemma_inside<'a, T: Test>(t: &T, d: Node<'a>, p: spec_fn(Node<'a>) -> bool)
    requires
        forall|e: Node<'a>| #[trigger] t.accepts(e) == p(e),
    ensures
        inside(t, d) == is_under(d, p),
    decreases d.index(),
{
    lemma_up_index(d);
    match d.up() {
        Some(u) => {
            lemma_inside(t, u, p);
            assert(at_or_below(u, u));
            assert(at_or_below(u, d));
            assert(t.accepts(u) == p(u));
            if inside(t, d) && !t.accepts(u) {
                let e = choose|e: Node<'a>| #[trigger] at_or_below(e, u) && e != u && p(e);
                crate::tree::lemma_below_index(e, u);
                assert(at_or_below(e, d) && e != d && p(e));
            }
            if is_under(d, p) {
                let e = choose|e: Node<'a>| #[trigger] at_or_below(e, d) && e != d && p(e);
                assert(at_or_below(e, u));
                if e == u {
                    assert(t.accepts(u));
                } else {
                    assert(is_under(u, p));
                }
            }
        },
        None => {},
    }
}

/// Whether a function is reported on the lines of a node.
pub open spec fn on_node(f: Function, d: Node<'_>) -> bool {
    f.line_number == d.top() && f.line_end == d.bottom()
}

/// Whether a function is reported from the line on which a node declares
/// something to the last line of the node.
pub open spec fn from_declaration(f: Function, d: Node<'_>) -> bool {
    f.line_number == declaration_line(d) && f.line_end == d.bottom()
}

/// Classes of Python.
pub open spec fn python_classes<'a>() -> spec_fn(Node<'a>) -> bool {
    |c: Node<'a>| c.isa("class_definition") || c.isa("class_declaration") || c.isa("class") || c.isa("class_body")
}

/// Nodes of Python below which no function of the file is looked for.
pub open spec fn python_closed<'a>() -> spec_fn(Node<'a>) -> bool {
    |c: Node<'a>| c.isa("function_definition") || c.isa("decorated_definition") || c.isa("class_definition")
}

/// The definition that a node of Python is, or that it decorates.
pub open spec fn python_definition<'a>(c: Node<'a>) -> Option<Node<'a>> {
    if c.isa("decorated_definition") {
        c.at("definition")
    } else {
        Some(c)
    }
}

/// The decorators of a node of Python.
pub open spec fn python_decorators<'a>() -> spec_fn(Node<'a>) -> bool {
    |c: Node<'a>| c.isa("decorator")
}

/// A text that is that of a node, without the `@` at its front.
pub open spec fn without_at<'a>() -> spec_fn(Seq<char>, Node<'a>) -> bool {
    |s: Seq<char>, c: Node<'a>| s == stripped_front(c.txt(), "@"@)
}

/// Functions of Python, decorated or not, outside of classes.
pub open spec fn python_functions<'a>() -> spec_fn(Node<'a>) -> bool {
    |c: Node<'a>| (python_definition(c) matches Some(d) && d.isa("function_definition")) && !is_under(c, python_classes())
}

/// What is reported of a function of Python.
pub open spec fn python_function<'a>() -> spec_fn(Function, Node<'a>) -> bool {
    |f: Function, c: Node<'a>|
        {
            let d = python_definition(c)->0;
            &&& f.name == word_at(d, "name")
            &&& on_node(f, d)
            &&& f.params == lang::python::params(d)
            &&& f.return_type == txt_at(d, "return_type")
            &&& f.docstring == lang::python::docstring(d)
            &&& f.is_method == false
            &&& f.is_async == ((d.left() matches Some(p) && p.isa("async")) || begins(d.txt(), "async"@))
            &&& if c.isa("decorated_definition") {
                reports_kids(c, python_decorators(), without_at(), f.decorators)
            } else {
                f.decorators.len() == 0
            }
            &&& f.visibility is None
            &&& f.state_mutability is None
        }
}

proof fn lemma_python_kinds()
    ensures
        "function_definition"@ != "decorated_definition"@,
        "class_definition"@ != "decorated_definition"@,
        "class_definition"@ != "function_definition"@,
{
    reveal_strlit("function_definition");
    reveal_strlit("decorated_definition");
    reveal_strlit("class_definition");
    assert("function_definition"@.len() == 19);
    assert("decorated_definition"@.len() == 20);
    assert("class_definition"@.len() == 16);
}

/// The functions of a Python file are reported each one time, in the order of the
/// source, and nothing else is.
pub proof fn python_functions_are_reported<'a>(root: Node<'a>)
    ensures
        reports(
            root,
            closed_by(python_closed()),
            python_functions(),
            python_function(),
            functions_in(root, Language::Python),
        ),
{
    let w = lang::python::Functions { is_method: false };
    assert forall|c: Node<'a>| is_open(root, closed_by(python_closed()), c) implies (
    #[trigger] w.yields(c)).len() == if python_functions()(c) {
        1nat
    } else {
        0
    } && (python_functions()(c) ==> python_function()(w.yields(c)[0], c)) by {
        lemma_inside(&lang::python::ClassNode, c, python_classes());
        lemma_picked_kids(&lang::python::Decorators, c, python_decorators(), without_at());
        lemma_python_kinds();
    }
    lemma_reported(&w, root, python_closed(), python_functions(), python_function());
}

/// No node of Go hides a function.
pub open spec fn go_closed<'a>() -> spec_fn(Node<'a>) -> bool {
    |c: Node<'a>| false
}

/// Functions of Go.
pub open spec fn go_functions<'a>() -> spec_fn(Node<'a>) -> bool {
    |c: Node<'a>| c.isa("function_declaration")
}

/// What is reported of a function of Go.
pub open spec fn go_function<'a>() -> spec_fn(Function, Node<'a>) -> bool {
    |f: Function, c: Node<'a>|
        {
            &&& f.name == word_at(c, "name")
            &&& on_node(f, c)
            &&& f.params == lang::go::params(c)
            &&& f.return_type == txt_at(c, "result")
            &&& f.docstring == lang::go::docstring(c)
            &&& f.is_method == false
            &&& !f.is_async
            &&& f.decorators.len() == 0
            &&& f.visibility == if f.name.len() == 0 {
                None
            } else if 'A' <= f.name[0] <= 'Z' {
                Some("public"@)
            } else {
                Some("private"@)
            }
            &&& f.state_mutability is None
        }
}

/// The functions of a Go file are reported each one time, in the order of the
/// source, and nothing else is.
pub proof fn go_functions_are_reported<'a>(root: Node<'a>)
    ensures
        reports(
            root,
            closed_by(go_closed()),
            go_functions(),
            go_function(),
            functions_in(root, Language::Go),
        ),
{
    let w = lang::go::Functions;
    assert forall|c: Node<'a>| is_open(root, closed_by(go_closed()), c) implies (
    #[trigger] w.yields(c)).len() == if go_functions()(c) {
        1nat
    } else {
        0
    } && (go_functions()(c) ==> go_function()(w.yields(c)[0], c)) by {
        reveal_strlit("function_declaration");
        reveal_strlit("method_declaration");
        assert("function_declaration"@.len() == 20);
        assert("method_declaration"@.len() == 18);
    }
    lemma_reported(&w, root, go_closed(), go_functions(), go_function());
}

/// No node of Rust hides a function.
pub open spec fn rust_closed<'a>() -> spec_fn(Node<'a>) -> bool {
    |c: Node<'a>| false
}

/// Impl blocks of Rust.
pub open spec fn rust_impls<'a>() -> spec_fn(Node<'a>) -> bool {
    |c: Node<'a>| c.isa("impl_item")
}

/// Functions of Rust outside of impl blocks.
pub open spec fn rust_functions<'a>() -> spec_fn(Node<'a>) -> bool {
    |c: Node<'a>| c.isa("function_item") && !is_under(c, rust_impls())
}

/// What is reported of a function of Rust.
pub open spec fn rust_function<'a>() -> spec_fn(Function, Node<'a>) -> bool {
    |f: Function, c: Node<'a>|
        {
            &&& f.name == word_at(c, "name")
            &&& on_node(f, c)
            &&& f.params == lang::rust::params(c)
            &&& f.return_type == match c.at("return_type") {
                Some(t) => Some(trimmed(crate::text::behind_all(t.txt(), "->"@))),
                None => None,
            }
            &&& f.docstring == lang::rust::docstring(c)
            &&& f.is_method == false
            &&& f.is_async == has(c.txt(), "async fn"@)
            &&& f.decorators == lang::rust::attributes(c)
            &&& f.visibility is None
            &&& f.state_mutability is None
        }
}

/// The functions of a Rust file are reported each one time, in the order of the
/// source, and nothing else is.
pub proof fn rust_functions_are_reported<'a>(root: Node<'a>)
    ensures
        reports(
            root,
            closed_by(rust_closed()),
            rust_functions(),
            rust_function(),
            functions_in(root, Language::Rust),
        ),
{
    let w = lang::rust::Functions;
    assert forall|c: Node<'a>| is_open(root, closed_by(rust_closed()), c) implies (
    #[trigger] w.yields(c)).len() == if rust_functions()(c) {
        1nat
    } else {
        0
    } && (rust_functions()(c) ==> rust_function()(w.yields(c)[0], c)) by {
        lemma_inside(&lang::rust::ImplItem, c, rust_impls());
    }
    lemma_reported(&w, root, rust_closed(), rust_functions(), rust_function());
}

/// No node of Java hides a method.
pub open spec fn java_closed<'a>() -> spec_fn(Node<'a>) -> bool {
    |c: Node<'a>| false
}

/// Methods and constructors of Java.
pub open spec fn java_functions<'a>() -> spec_fn(Node<'a>) -> bool {
    |c: Node<'a>| c.isa("method_declaration") || c.isa("constructor_declaration")
}

/// What is reported of a method or constructor of Java.
pub open spec fn java_function<'a>() -> spec_fn(Function, Node<'a>) -> bool {
    |f: Function, c: Node<'a>|
        {
            &&& f.name == word_at(c, "name")
            &&& from_declaration(f, c)
            &&& f.params == lang::java::params(c)
            &&& f.return_type == txt_at(c, "type")
            &&& f.docstring == lang::java::docstring(c)
            &&& f.is_method
            &&& !f.is_async
            &&& f.decorators.len() == 0
            &&& f.visibility == lang::java::visibility(c)
            &&& f.state_mutability is None
        }
}

/// The functions of a Java file are reported each one time, in the order of the
/// source, and nothing else is.
pub proof fn java_functions_are_reported<'a>(root: Node<'a>)
    ensures
        reports(
            root,
            closed_by(java_closed()),
            java_functions(),
            java_function(),
            functions_in(root, Language::Java),
        ),
{
    let w = lang::java::Functions;
    assert forall|c: Node<'a>| is_open(root, closed_by(java_closed()), c) implies (
    #[trigger] w.yields(c)).len() == if java_functions()(c) {
        1nat
    } else {
        0
    } && (java_functions()(c) ==> java_function()(w.yields(c)[0], c)) by {
    }
    lemma_reported(&w, root, java_closed(), java_functions(), java_function());
}

/// No node of C hides a function.
pub open spec fn c_closed<'a>() -> spec_fn(Node<'a>) -> bool {
    |c: Node<'a>| false
}

/// Functions of C.
pub open spec fn c_functions<'a>() -> spec_fn(Node<'a>) -> bool {
    |c: Node<'a>| c.isa("function_definition")
}

/// What is reported of a function of C.
pub open spec fn c_function<'a>() -> spec_fn(Function, Node<'a>) -> bool {
    |f: Function, c: Node<'a>|
        {
            &&& f.name == match lang::c::function_name(c) {
                Some(name) => name,
                None => Seq::empty(),
            }
            &&& on_node(f, c)
            &&& f.params == lang::c::params(c)
            &&& f.return_type == txt_at(c, "type")
            &&& f.docstring == lang::c::docstring(c)
            &&& f.is_method == false
            &&& !f.is_async
            &&& f.decorators.len() == 0
            &&& f.visibility is None
            &&& f.state_mutability is None
        }
}

/// The functions of a C file are reported each one time, in the order of the
/// source, and nothing else is.
pub proof fn c_functions_are_reported<'a>(root: Node<'a>)
    ensures
        reports(
            root,
            closed_by(c_closed()),
            c_functions(),
            c_function(),
            functions_in(root, Language::C),
        ),
{
    let w = lang::c::Functions;
    assert forall|c: Node<'a>| is_open(root, closed_by(c_closed()), c) implies (
    #[trigger] w.yields(c)).len() == if c_functions()(c) {
        1nat
    } else {
        0
    } && (c_functions()(c) ==> c_function()(w.yields(c)[0], c)) by {
    }
    lemma_reported(&w, root, c_closed(), c_functions(), c_function());
}

/// Classes of C++, and the lists of their members.
pub open spec fn cpp_classes<'a>() -> spec_fn(Node<'a>) -> bool {
    |c: Node<'a>| c.isa("class_specifier") || c.isa("struct_specifier") || c.isa("field_declaration_list")
}

/// Whether a definition of C++ is in truth a class whose name stands behind a
/// macro: `class MACRO Name { .. }`.
pub open spec fn is_macro_class(c: Node<'_>) -> bool {
    &&& c.isa("function_definition") || c.isa("declaration")
    &&& c.at("type") matches Some(t) && (t.isa("class_specifier") || t.isa("struct_specifier"))
        && t.at("body") is None
    &&& c.at("declarator") matches Some(d) && d.isa("identifier") && d.txt().len() > 0
    &&& c.at("body") is Some
}

/// Nodes of C++ below which no function of the file is looked for.
pub open spec fn cpp_closed<'a>() -> spec_fn(Node<'a>) -> bool {
    |c: Node<'a>| (c.isa("function_definition") && is_macro_class(c)) || cpp_classes()(c)
}

/// Functions of C++ outside of classes that have a name.
pub open spec fn cpp_functions<'a>() -> spec_fn(Node<'a>) -> bool {
    |c: Node<'a>| c.isa("function_definition") && !is_macro_class(c) && !is_under(c, cpp_classes()) && (lang::c::function_name(c) matches Some(name) && trimmed(name).len() > 0)
}

/// What is reported of a function of C++.
pub open spec fn cpp_function<'a>() -> spec_fn(Function, Node<'a>) -> bool {
    |f: Function, c: Node<'a>|
        {
            &&& f.name == match lang::c::function_name(c) {
                Some(name) => name,
                None => Seq::empty(),
            }
            &&& on_node(f, c)
            &&& f.params == lang::c::params(c)
            &&& f.return_type == txt_at(c, "type")
            &&& f.docstring == lang::c::docstring(c)
            &&& f.is_method == false
            &&& !f.is_async
            &&& f.decorators == (if has(c.txt(), "virtual "@) {
                seq!["virtual"@]
            } else {
                Seq::empty()
            }) + (if has(c.txt(), "static "@) {
                seq!["static"@]
            } else {
                Seq::empty()
            })
            &&& f.visibility is None
            &&& f.state_mutability is None
        }
}

/// The functions of a C++ file are reported each one time, in the order of the
/// source, and nothing else is.
pub proof fn cpp_functions_are_reported<'a>(root: Node<'a>)
    ensures
        reports(
            root,
            closed_by(cpp_closed()),
            cpp_functions(),
            cpp_function(),
            functions_in(root, Language::Cpp),
        ),
{
    let w = lang::c::CppFunctions;
    assert forall|c: Node<'a>| is_open(root, closed_by(cpp_closed()), c) implies (
    #[trigger] w.yields(c)).len() == if cpp_functions()(c) {
        1nat
    } else {
        0
    } && (cpp_functions()(c) ==> cpp_function()(w.yields(c)[0], c)) by {
        lemma_inside(&lang::c::ClassNode, c, cpp_classes());
        assert(trimmed(Seq::<char>::empty()) =~= Seq::empty());
    }
    lemma_reported(&w, root, cpp_closed(), cpp_functions(), cpp_function());
}

/// Classes and modules of Ruby.
pub open spec fn ruby_classes<'a>() -> spec_fn(Node<'a>) -> bool {
    |c: Node<'a>| c.facts().named && (c.isa("class") || c.isa("module"))
}

/// Nodes of Ruby below which no method of the file is looked for.
pub open spec fn ruby_closed<'a>() -> spec_fn(Node<'a>) -> bool {
    |c: Node<'a>| c.isa("method") || c.isa("singleton_method") || ruby_classes()(c)
}

/// Methods of Ruby outside of classes and modules.
pub open spec fn ruby_functions<'a>() -> spec_fn(Node<'a>) -> bool {
    |c: Node<'a>| (c.isa("method") || c.isa("singleton_method")) && !is_under(c, ruby_classes())
}

/// What is reported of a method of Ruby.
pub open spec fn ruby_function<'a>() -> spec_fn(Function, Node<'a>) -> bool {
    |f: Function, c: Node<'a>|
        {
            &&& f.name == word_at(c, "name")
            &&& on_node(f, c)
            &&& f.params == lang::ruby::params(c)
            &&& f.return_type is None
            &&& f.docstring == lang::ruby::docstring(c)
            &&& f.is_method == false
            &&& !f.is_async
            &&& f.decorators == if c.isa("singleton_method") {
                seq!["self"@]
            } else {
                Seq::<Seq<char>>::empty()
            }
            &&& f.visibility is None
            &&& f.state_mutability is None
        }
}

/// The functions of a Ruby file are reported each one time, in the order of the
/// source, and nothing else is.
pub proof fn ruby_functions_are_reported<'a>(root: Node<'a>)
    ensures
        reports(
            root,
            closed_by(ruby_closed()),
            ruby_functions(),
            ruby_function(),
            functions_in(root, Language::Ruby),
        ),
{
    let w = lang::ruby::Functions;
    assert forall|c: Node<'a>| is_open(root, closed_by(ruby_closed()), c) implies (
    #[trigger] w.yields(c)).len() == if ruby_functions()(c) {
        1nat
    } else {
        0
    } && (ruby_functions()(c) ==> ruby_function()(w.yields(c)[0], c)) by {
        lemma_inside(&lang::ruby::ClassNode, c, ruby_classes());
    }
    lemma_reported(&w, root, ruby_closed(), ruby_functions(), ruby_function());
}

/// Nodes of PHP below which no function of the file is looked for.
pub open spec fn php_closed<'a>() -> spec_fn(Node<'a>) -> bool {
    |c: Node<'a>| c.isa("function_definition") || c.isa("class_declaration") || c.isa("interface_declaration") || c.isa("trait_declaration")
}

/// Functions of PHP.
pub open spec fn php_functions<'a>() -> spec_fn(Node<'a>) -> bool {
    |c: Node<'a>| c.isa("function_definition")
}

/// What is reported of a function of PHP.
pub open spec fn php_function<'a>() -> spec_fn(Function, Node<'a>) -> bool {
    |f: Function, c: Node<'a>|
        {
            &&& f.name == word_at(c, "name")
            &&& on_node(f, c)
            &&& f.params == lang::php::params(c)
            &&& f.return_type == lang::php::return_type(c)
            &&& f.docstring == lang::php::docstring(c)
            &&& !f.is_method
            &&& !f.is_async
            &&& f.decorators.len() == 0
            &&& f.visibility is None
            &&& f.state_mutability is None
        }
}

/// The functions of a PHP file are reported each one time, in the order of the
/// source, and nothing else is.
pub proof fn php_functions_are_reported<'a>(root: Node<'a>)
    ensures
        reports(
            root,
            closed_by(php_closed()),
            php_functions(),
            php_function(),
            functions_in(root, Language::Php),
        ),
{
    let w = lang::php::Functions;
    assert forall|c: Node<'a>| is_open(root, closed_by(php_closed()), c) implies (
    #[trigger] w.yields(c)).len() == if php_functions()(c) {
        1nat
    } else {
        0
    } && (php_functions()(c) ==> php_function()(w.yields(c)[0], c)) by {
    }
    lemma_reported(&w, root, php_closed(), php_functions(), php_function());
}

/// Classes and objects of Kotlin, and their bodies.
pub open spec fn kotlin_classes<'a>() -> spec_fn(Node<'a>) -> bool {
    |c: Node<'a>| c.isa("class_declaration") || c.isa("object_declaration") || c.isa("class_body")
}

/// Nodes of Kotlin below which no function of the file is looked for.
pub open spec fn kotlin_closed<'a>() -> spec_fn(Node<'a>) -> bool {
    |c: Node<'a>| c.isa("function_declaration") || c.isa("class_declaration") || c.isa("object_declaration")
}

/// Functions of Kotlin outside of classes.
pub open spec fn kotlin_functions<'a>() -> spec_fn(Node<'a>) -> bool {
    |c: Node<'a>| c.isa("function_declaration") && !is_under(c, kotlin_classes())
}

/// Whether the word `suspend` is among the modifiers of a node of Kotlin.
pub open spec fn is_suspended(c: Node<'_>) -> bool {
    exists|i: int, j: int|
        0 <= i < c.arity() && 0 <= j < c.kid(i).arity() && c.kid(i).isa("modifiers") && (
        #[trigger] c.kid(i).kid(j)).txt() == "suspend"@
}

pub(crate) proof fn lemma_found<'a, T: Test>(t: &T, n: Node<'a>, i: int)
    requires
        0 <= i,
    ensures
        crate::walk::found_from(t, n, i) is Some <==> exists|k: int|
            i <= k < n.arity() && t.accepts(#[trigger] n.kid(k)),
    decreases n.arity() - i,
{
    if i < n.arity() {
        lemma_found(t, n, i + 1);
    }
}

pub(crate) proof fn lemma_suspended(c: Node<'_>)
    ensures
        is_suspended(c) == (found(&lang::kotlin::Suspended, c) is Some),
{
    lemma_found(&lang::kotlin::Suspended, c, 0);
    assert forall|i: int| 0 <= i < c.arity() implies (lang::kotlin::Suspended.accepts(
        #[trigger] c.kid(i),
    ) <==> c.kid(i).isa("modifiers") && exists|j: int|
        0 <= j < c.kid(i).arity() && (#[trigger] c.kid(i).kid(j)).txt() == "suspend"@) by {
        lemma_found(&lang::kotlin::SuspendWord, c.kid(i), 0);
        let m = c.kid(i);
        if found(&lang::kotlin::SuspendWord, m) is Some {
            let j = choose|j: int|
                0 <= j < m.arity() && lang::kotlin::SuspendWord.accepts(#[trigger] m.kid(j));
            assert(c.kid(i).kid(j).txt() == "suspend"@);
        }
        if exists|j: int| 0 <= j < m.arity() && (#[trigger] c.kid(i).kid(j)).txt() == "suspend"@ {
            let j = choose|j: int|
                0 <= j < m.arity() && (#[trigger] c.kid(i).kid(j)).txt() == "suspend"@;
            assert(lang::kotlin::SuspendWord.accepts(m.kid(j)));
        }
    }
    if is_suspended(c) {
        let (i, j) = choose|i: int, j: int|
            0 <= i < c.arity() && 0 <= j < c.kid(i).arity() && c.kid(i).isa("modifiers") && (
            #[trigger] c.kid(i).kid(j)).txt() == "suspend"@;
        assert(lang::kotlin::Suspended.accepts(c.kid(i)));
    }
    if found(&lang::kotlin::Suspended, c) is Some {
        let i = choose|i: int|
            0 <= i < c.arity() && lang::kotlin::Suspended.accepts(#[trigger] c.kid(i));
        let j = choose|j: int|
            0 <= j < c.kid(i).arity() && (#[trigger] c.kid(i).kid(j)).txt() == "suspend"@;
        assert(c.kid(i).kid(j).txt() == "suspend"@);
    }
}

/// What is reported of a function of Kotlin.
pub open spec fn kotlin_function<'a>() -> spec_fn(Function, Node<'a>) -> bool {
    |f: Function, c: Node<'a>|
        {
            &&& f.name == match c.at("name") {
                Some(name) => name.txt(),
                None => match first(c, "simple_identifier") {
                    Some(name) => name.txt(),
                    None => Seq::empty(),
                },
            }
            &&& from_declaration(f, c)
            &&& f.params == lang::kotlin::params(c)
            &&& f.return_type == lang::kotlin::return_type_from(c, 0, false, false)
            &&& f.docstring == lang::kotlin::docstring(c)
            &&& f.is_method == false
            &&& f.is_async == is_suspended(c)
            &&& f.decorators == picked(&lang::kotlin::Annotations, c)
            &&& f.visibility == lang::kotlin::visibility(c)
            &&& f.state_mutability is None
        }
}

/// The functions of a Kotlin file are reported each one time, in the order of the
/// source, and nothing else is.
pub proof fn kotlin_functions_are_reported<'a>(root: Node<'a>)
    ensures
        reports(
            root,
            closed_by(kotlin_closed()),
            kotlin_functions(),
            kotlin_function(),
            functions_in(root, Language::Kotlin),
        ),
{
    let w = lang::kotlin::Functions;
    assert forall|c: Node<'a>| is_open(root, closed_by(kotlin_closed()), c) implies (
    #[trigger] w.yields(c)).len() == if kotlin_functions()(c) {
        1nat
    } else {
        0
    } && (kotlin_functions()(c) ==> kotlin_function()(w.yields(c)[0], c)) by {
        lemma_inside(&lang::kotlin::ClassNode, c, kotlin_classes());
        lemma_suspended(c);
    }
    lemma_reported(&w, root, kotlin_closed(), kotlin_functions(), kotlin_function());
}

/// Classes, objects and traits of Scala, and their bodies.
pub open spec fn scala_classes<'a>() -> spec_fn(Node<'a>) -> bool {
    |c: Node<'a>| c.isa("class_definition") || c.isa("object_definition") || c.isa("trait_definition") || c.isa("template_body")
}

/// Nodes of Scala below which no function of the file is looked for.
pub open spec fn scala_closed<'a>() -> spec_fn(Node<'a>) -> bool {
    |c: Node<'a>| c.isa("function_definition") || c.isa("function_declaration") || c.isa("class_definition") || c.isa("object_definition") || c.isa("trait_definition")
}

/// Functions of Scala outside of classes.
pub open spec fn scala_functions<'a>() -> spec_fn(Node<'a>) -> bool {
    |c: Node<'a>| (c.isa("function_definition") || c.isa("function_declaration")) && !is_under(c, scala_classes())
}

/// What is reported of a function of Scala.
pub open spec fn scala_function<'a>() -> spec_fn(Function, Node<'a>) -> bool {
    |f: Function, c: Node<'a>|
        {
            &&& f.name == match c.at("name") {
                Some(name) => name.txt(),
                None => match first(c, "identifier") {
                    Some(name) => name.txt(),
                    None => Seq::empty(),
                },
            }
            &&& from_declaration(f, c)
            &&& f.params == picked(&lang::scala::Params, c)
            &&& f.return_type == lang::scala::return_type_from(c, 0, false)
            &&& f.docstring == lang::scala::docstring(c)
            &&& f.is_method == false
            &&& !f.is_async
            &&& f.decorators.len() == 0
            &&& f.visibility is None
            &&& f.state_mutability is None
        }
}

/// The functions of a Scala file are reported each one time, in the order of the
/// source, and nothing else is.
pub proof fn scala_functions_are_reported<'a>(root: Node<'a>)
    ensures
        reports(
            root,
            closed_by(scala_closed()),
            scala_functions(),
            scala_function(),
            functions_in(root, Language::Scala),
        ),
{
    let w = lang::scala::Functions;
    assert forall|c: Node<'a>| is_open(root, closed_by(scala_closed()), c) implies (
    #[trigger] w.yields(c)).len() == if scala_functions()(c) {
        1nat
    } else {
        0
    } && (scala_functions()(c) ==> scala_function()(w.yields(c)[0], c)) by {
        lemma_inside(&lang::scala::ClassNode, c, scala_classes());
    }
    lemma_reported(&w, root, scala_closed(), scala_functions(), scala_function());
}

/// Types of Swift, and their bodies.
pub open spec fn swift_types<'a>() -> spec_fn(Node<'a>) -> bool {
    |c: Node<'a>| c.isa("class_declaration") || c.isa("struct_declaration") || c.isa("class_body") || c.isa("struct_body") || c.isa("extension_declaration") || c.isa("protocol_declaration")
}

/// Nodes of Swift below which no function of the file is looked for.
pub open spec fn swift_closed<'a>() -> spec_fn(Node<'a>) -> bool {
    |c: Node<'a>| c.isa("function_declaration") || c.isa("class_declaration") || c.isa("struct_declaration") || c.isa("class_body") || c.isa("struct_body")
}

/// Functions of Swift outside of types.
pub open spec fn swift_functions<'a>() -> spec_fn(Node<'a>) -> bool {
    |c: Node<'a>| c.isa("function_declaration") && !is_under(c, swift_types())
}

/// What is reported of a function of Swift.
pub open spec fn swift_function<'a>() -> spec_fn(Function, Node<'a>) -> bool {
    |f: Function, c: Node<'a>|
        {
            &&& f.name == word_at(c, "name")
            &&& from_declaration(f, c)
            &&& f.params == lang::swift::params(c)
            &&& f.return_type == lang::swift::return_type_from(c, 0, false)
            &&& f.docstring == lang::swift::docstring(c)
            &&& f.is_method == false
            &&& f.is_async == has(c.txt(), "async "@)
            &&& f.decorators.len() == 0
            &&& f.visibility == lang::swift::visibility(c)
            &&& f.state_mutability is None
        }
}

/// The functions of a Swift file are reported each one time, in the order of the
/// source, and nothing else is.
pub proof fn swift_functions_are_reported<'a>(root: Node<'a>)
    ensures
        reports(
            root,
            closed_by(swift_closed()),
            swift_functions(),
            swift_function(),
            functions_in(root, Language::Swift),
        ),
{
    let w = lang::swift::Functions;
    assert forall|c: Node<'a>| is_open(root, closed_by(swift_closed()), c) implies (
    #[trigger] w.yields(c)).len() == if swift_functions()(c) {
        1nat
    } else {
        0
    } && (swift_functions()(c) ==> swift_function()(w.yields(c)[0], c)) by {
        lemma_inside(&lang::swift::TypeNode, c, swift_types());
    }
    lemma_reported(&w, root, swift_closed(), swift_functions(), swift_function());
}

/// Whether a node of Elixir is a call whose first word is `word`.
pub open spec fn is_call_of(c: Node<'_>, word: Seq<char>) -> bool {
    c.isa("call") && c.arity() > 0 && c.kid(0).txt() == word
}

/// Whether a node of Elixir defines a function.
pub open spec fn is_elixir_def(c: Node<'_>) -> bool {
    is_call_of(c, "def"@) || is_call_of(c, "defp"@)
}

/// Whether a node of Elixir is part of a module, but not its body.
pub open spec fn is_module_head(c: Node<'_>) -> bool {
    !c.isa("do_block") && (c.up() matches Some(p) && is_call_of(p, "defmodule"@))
}

/// Nodes of Elixir below which no function of the file is looked for.
pub open spec fn elixir_closed<'a>() -> spec_fn(Node<'a>) -> bool {
    |c: Node<'a>| is_module_head(c) || is_elixir_def(c)
}

/// Functions of Elixir.
pub open spec fn elixir_functions<'a>() -> spec_fn(Node<'a>) -> bool {
    |c: Node<'a>| is_elixir_def(c) && !is_module_head(c)
}

/// What is reported of a function of Elixir.
pub open spec fn elixir_function<'a>() -> spec_fn(Function, Node<'a>) -> bool {
    |f: Function, c: Node<'a>|
        {
            &&& f.name == lang::elixir::head(c).0
            &&& on_node(f, c)
            &&& f.params == lang::elixir::head(c).1
            &&& f.return_type is None
            &&& f.docstring == lang::elixir::doc_at(c.left())
            &&& !f.is_method
            &&& !f.is_async
            &&& f.decorators.len() == 0
            &&& f.visibility is None
            &&& f.state_mutability is None
        }
}

/// The functions of a Elixir file are reported each one time, in the order of the
/// source, and nothing else is.
pub proof fn elixir_functions_are_reported<'a>(root: Node<'a>)
    ensures
        reports(
            root,
            closed_by(elixir_closed()),
            elixir_functions(),
            elixir_function(),
            functions_in(root, Language::Elixir),
        ),
{
    let w = lang::elixir::Functions;
    assert forall|c: Node<'a>| is_open(root, closed_by(elixir_closed()), c) implies (
    #[trigger] w.yields(c)).len() == if elixir_functions()(c) {
        1nat
    } else {
        0
    } && (elixir_functions()(c) ==> elixir_function()(w.yields(c)[0], c)) by {
    }
    lemma_reported(&w, root, elixir_closed(), elixir_functions(), elixir_function());
}

/// What can be called in Solidity.
pub open spec fn solidity_callables<'a>() -> spec_fn(Node<'a>) -> bool {
    |c: Node<'a>| c.isa("function_definition") || c.isa("constructor_definition") || c.isa("fallback_receive_definition")
}

/// Contracts, interfaces and libraries of Solidity.
pub open spec fn solidity_contracts<'a>() -> spec_fn(Node<'a>) -> bool {
    |c: Node<'a>| c.isa("contract_declaration") || c.isa("interface_declaration") || c.isa("library_declaration")
}

/// Nodes of Solidity below which no function is looked for.
pub open spec fn solidity_closed<'a>() -> spec_fn(Node<'a>) -> bool {
    |c: Node<'a>| solidity_callables()(c) || solidity_contracts()(c) || c.isa("contract_body")
}

/// What is reported of a function, constructor or fallback of Solidity.
pub open spec fn solidity_function<'a>(is_method: bool) -> spec_fn(Function, Node<'a>) -> bool {
    |f: Function, c: Node<'a>|
        {
            &&& f.name == if c.isa("function_definition") {
                word_at(c, "name")
            } else if c.isa("constructor_definition") {
                "constructor"@
            } else {
                lang::solidity::fallback_name(c)
            }
            &&& on_node(f, c)
            &&& f.params == picked(&lang::solidity::ParamNames, c)
            &&& f.return_type == if c.isa("function_definition") {
                lang::solidity::return_type(c)
            } else {
                None
            }
            &&& f.docstring == lang::solidity::docstring(c)
            &&& f.is_method == is_method
            &&& !f.is_async
            &&& f.decorators == picked(&lang::solidity::Invocations, c)
            &&& f.visibility == lang::solidity::visibility(c)
            &&& f.state_mutability == lang::solidity::state_mutability(c)
        }
}

/// The functions below a node of Solidity are reported each one time, in the order
/// of the source, and nothing else is. Those inside of contracts are left out.
pub proof fn solidity_functions_are_reported<'a>(root: Node<'a>, is_method: bool)
    ensures
        reports(
            root,
            closed_by(solidity_closed()),
            solidity_callables(),
            solidity_function(is_method),
            gathered(&lang::solidity::Functions { is_method }, root),
        ),
        functions_in(root, Language::Solidity) == gathered(
            &lang::solidity::Functions { is_method: false },
            root,
        ),
{
    let w = lang::solidity::Functions { is_method };
    assert forall|c: Node<'a>| is_open(root, closed_by(solidity_closed()), c) implies (
    #[trigger] w.yields(c)).len() == if solidity_callables()(c) {
        1nat
    } else {
        0
    } && (solidity_callables()(c) ==> solidity_function(is_method)(w.yields(c)[0], c)) by {
    }
    lemma_reported(
        &w,
        root,
        solidity_closed(),
        solidity_callables(),
        solidity_function(is_method),
    );
}

/// Methods and constructors of C#.
pub open spec fn csharp_functions<'a>() -> spec_fn(Node<'a>) -> bool {
    |c: Node<'a>| c.isa("method_declaration") || c.isa("constructor_declaration")
}

/// Nodes of C# of which only the body is looked at.
pub open spec fn csharp_owners<'a>() -> spec_fn(Node<'a>) -> bool {
    |c: Node<'a>| c.isa("class_declaration") || c.isa("struct_declaration") || c.isa("namespace_declaration") || c.isa("interface_declaration")
}

/// What is reported of a method or constructor of C#.
pub open spec fn csharp_function<'a>() -> spec_fn(Function, Node<'a>) -> bool {
    |f: Function, c: Node<'a>|
        {
            &&& f.name == match c.at("name") {
                Some(name) => name.txt(),
                None => match first(c, "identifier") {
                    Some(name) => name.txt(),
                    None => Seq::empty(),
                },
            }
            &&& from_declaration(f, c)
            &&& f.params == lang::csharp::params(c)
            &&& f.return_type == txt_at(c, "type")
            &&& f.docstring == lang::csharp::docstring(c)
            &&& f.is_method
            &&& f.is_async == exists|i: int|
                0 <= i < c.arity() && ((#[trigger] c.kid(i)).isa("modifier") || c.kid(i).isa("async")) && c.kid(i).txt()
                    == "async"@
            &&& f.decorators == crate::walk::nearest_first(&lang::csharp::Attributes, c.left()).reverse()
            &&& f.visibility == crate::nodes::txt_of(found(&lang::csharp::AccessModifier, c))
            &&& f.state_mutability is None
        }
}

/// The methods and constructors of a C# file are reported each one time, in the
/// order of the source, and nothing else is.
pub proof fn csharp_functions_are_reported<'a>(root: Node<'a>)
    requires
        has_plain_bodies(root, csharp_functions(), csharp_owners()),
    ensures
        reports(
            root,
            closed_but_for_bodies(csharp_functions(), csharp_owners()),
            csharp_functions(),
            csharp_function(),
            functions_in(root, Language::CSharp),
        ),
{
    let w = lang::csharp::Functions;
    let hides = closed_but_for_bodies(csharp_functions(), csharp_owners());
    assert forall|c: Node<'a>| is_open(root, hides, c) implies (#[trigger] w.yields(c)).len()
        == if csharp_functions()(c) {
        1nat
    } else {
        0
    } && (csharp_functions()(c) ==> csharp_function()(w.yields(c)[0], c)) by {
        lemma_found(&lang::csharp::AsyncModifier, c, 0);
        assert forall|i: int| 0 <= i < c.arity() implies lang::csharp::AsyncModifier.accepts(
            #[trigger] c.kid(i),
        ) == ((c.kid(i).isa("modifier") || c.kid(i).isa("async")) && c.kid(i).txt() == "async"@) by {
        }
    }
    assert forall|c: Node<'a>| is_open(root, hides, c) implies #[trigger] w.enters(c)
        == if csharp_functions()(c) {
        None
    } else if csharp_owners()(c) {
        c.at("body")
    } else {
        Some(c)
    } by {
    }
    lemma_reported_in_bodies(
        &w,
        root,
        csharp_functions(),
        csharp_owners(),
        csharp_functions(),
        ones(csharp_function()),
    );
    lemma_ones(root, hides, csharp_functions(), csharp_function(), functions_in(root, Language::CSharp));
}

/// Whether a node of TypeScript is a function that can be given to a name.
pub open spec fn is_ts_value(v: Node<'_>) -> bool {
    v.isa("arrow_function") || v.isa("function_expression") || v.isa("function")
}

/// What is reported of a declared function or method of TypeScript.
pub open spec fn ts_declared(f: Function, d: Node<'_>, is_method: bool) -> bool {
    &&& f.name == word_at(d, "name")
    &&& on_node(f, d)
    &&& f.params == lang::typescript::params(d)
    &&& f.return_type == match d.at("return_type") {
        Some(t) => Some(trimmed(stripped_front(t.txt(), ":"@))),
        None => None,
    }
    &&& f.docstring == lang::typescript::jsdoc(d, 3)
    &&& f.is_method == is_method
    &&& f.is_async == begins(d.txt(), "async"@)
    &&& f.decorators.len() == 0
    &&& f.visibility == js_visibility(f.name)
    &&& f.state_mutability is None
}

/// What is reported of a function `v` of TypeScript that is given to a name at the
/// node `d`.
pub open spec fn ts_given(f: Function, v: Node<'_>, d: Node<'_>) -> bool {
    &&& on_node(f, d)
    &&& f.params == lang::typescript::arrow_params(v)
    &&& f.return_type == match v.at("return_type") {
        Some(t) => Some(trimmed(stripped_front(t.txt(), ":"@))),
        None => None,
    }
    &&& !f.is_method
    &&& f.decorators.len() == 0
    &&& f.state_mutability is None
}

/// Variables of TypeScript that are given a function.
pub open spec fn ts_variables<'a>() -> spec_fn(Node<'a>) -> bool {
    |d: Node<'a>|
        d.isa("variable_declarator") && word_at(d, "name").len() > 0 && (d.at("value") matches Some(
            v,
        ) && is_ts_value(v))
}

/// What is reported of a variable of TypeScript that is given a function.
pub open spec fn ts_variable<'a>(declaration: Node<'a>) -> spec_fn(Function, Node<'a>) -> bool {
    |f: Function, d: Node<'a>|
        {
            let v = d.at("value")->0;
            &&& f.name == word_at(d, "name")
            &&& ts_given(f, v, d)
            &&& f.docstring == lang::typescript::jsdoc(declaration, 3)
            &&& f.is_async == (begins(v.txt(), "async"@) || begins(d.txt(), "async"@))
            &&& f.visibility is None
        }
}

/// The name that an assignment of TypeScript gives to a function, and whether it
/// is that of a member.
pub open spec fn ts_target(left: Node<'_>) -> Option<(Seq<char>, bool)> {
    if left.isa("identifier") {
        Some((left.txt(), false))
    } else if left.isa("member_expression") {
        match left.at("property") {
            Some(p) if p.isa("property_identifier") || p.isa("identifier") => Some((p.txt(), true)),
            _ => None,
        }
    } else {
        None
    }
}

/// What is reported of an assignment of TypeScript.
pub open spec fn ts_assigned(s: Seq<Function>, c: Node<'_>) -> bool {
    let plain = match (c.at("left"), c.at("right")) {
        (Some(left), Some(right)) => is_ts_value(right) && (ts_target(left) matches Some(t)
            && t.0.len() > 0),
        _ => false,
    };
    let computed = match (c.at("left"), c.at("right")) {
        (Some(left), Some(right)) => left.isa("subscript_expression") && (is_ts_value(right)
            || right.isa("generator_function")) && (left.at("object") matches Some(o) && o.isa(
            "identifier",
        ) && o.txt().len() > 0) && (left.at("index") matches Some(x) && x.isa("identifier")),
        _ => false,
    };
    let anchor = match c.up() {
        Some(p) if p.isa("expression_statement") => p,
        _ => c,
    };
    if plain {
        let left = c.at("left")->0;
        let right = c.at("right")->0;
        let t = ts_target(left)->0;
        &&& s.len() == 1
        &&& s[0].name == t.0
        &&& ts_given(s[0], right, c)
        &&& s[0].docstring == lang::typescript::jsdoc(anchor, 3)
        &&& s[0].is_async == begins(right.txt(), "async"@)
        &&& s[0].visibility == if t.1 {
            Some("public"@)
        } else {
            None
        }
    } else if computed {
        &&& s.len() == 1
        &&& s[0].name == c.at("left")->0.at("object")->0.txt() + ".[computed]"@
        &&& on_node(s[0], c)
        &&& s[0].visibility == Some("public"@)
    } else {
        s.len() == 0
    }
}

/// The name of a key of TypeScript: an identifier, also in quotes.
pub open spec fn ts_key(key: Node<'_>) -> Seq<char> {
    let inner = stripped(key.txt(), "\"'`"@);
    if key.isa("property_identifier") || key.isa("identifier") {
        key.txt()
    } else if key.isa("string") && is_identifier(inner) {
        inner
    } else {
        Seq::empty()
    }
}

/// What is reported of a pair of an object of TypeScript.
pub open spec fn ts_pair(s: Seq<Function>, c: Node<'_>) -> bool {
    match (c.at("value"), c.at("key")) {
        (Some(v), Some(key)) if is_ts_value(v) && ts_key(key).len() > 0 => {
            &&& s.len() == 1
            &&& s[0].name == ts_key(key)
            &&& ts_given(s[0], v, c)
            &&& s[0].docstring == lang::typescript::jsdoc(c, 3)
            &&& s[0].is_async == begins(v.txt(), "async"@)
            &&& s[0].visibility is None
        },
        _ => s.len() == 0,
    }
}

/// Calls of TypeScript: the lists of their arguments.
pub open spec fn ts_arguments<'a>() -> spec_fn(Node<'a>) -> bool {
    |c: Node<'a>| c.isa("arguments")
}

/// Nodes of TypeScript below which no function of the file is looked for.
pub open spec fn typescript_closed<'a>() -> spec_fn(Node<'a>) -> bool {
    |c: Node<'a>| c.isa("function_declaration") || c.isa("function_signature") || c.isa("method_definition") || c.isa("method_signature") || c.isa("class_declaration") || c.isa("class")
}

/// Nodes of TypeScript that may give a function of the file.
pub open spec fn typescript_functions<'a>() -> spec_fn(Node<'a>) -> bool {
    |c: Node<'a>| c.isa("function_declaration") || c.isa("function_signature") || c.isa("method_definition") || c.isa("method_signature") || c.isa("lexical_declaration") || c.isa("variable_declaration") || c.isa("function_expression") || c.isa("arrow_function") || c.isa("generator_function") || c.isa("assignment_expression") || c.isa("pair")
}

/// What is reported of a node of TypeScript.
pub open spec fn typescript_function<'a>() -> spec_fn(Seq<Function>, Node<'a>) -> bool {
    |s: Seq<Function>, c: Node<'a>|
        if c.isa("function_declaration") {
            s.len() == 1 && ts_declared(s[0], c, false)
        } else if c.isa("function_signature") {
            if word_at(c, "name").len() > 0 {
                s.len() == 1 && ts_declared(s[0], c, false)
            } else {
                s.len() == 0
            }
        } else if c.isa("method_definition") || c.isa("method_signature") {
            if (c.up() matches Some(p) && p.isa("object")) {
                s.len() == 1 && ts_declared(s[0], c, false)
            } else {
                s.len() == 0
            }
        } else if c.isa("lexical_declaration") || c.isa("variable_declaration") {
            reports_kids(c, ts_variables(), ts_variable(c), s)
        } else if c.isa("assignment_expression") {
            ts_assigned(s, c)
        } else if c.isa("pair") {
            ts_pair(s, c)
        } else if word_at(c, "name").len() > 0 && is_under(c, ts_arguments()) {
            s.len() == 1 && ts_declared(s[0], c, false)
        } else {
            s.len() == 0
        }
}

proof fn lemma_ts_kinds(c: Node<'_>)
    ensures
        typescript_functions()(c) ==> !c.isa("class_declaration") && !c.isa("class"),
        c.isa("function_expression") || c.isa("arrow_function") || c.isa("generator_function")
            ==> !c.isa("assignment_expression") && !c.isa("pair"),
        !(c.isa("identifier") && c.isa("subscript_expression")),
        !(c.isa("member_expression") && c.isa("subscript_expression")),
{
    reveal_strlit("class_declaration");
    reveal_strlit("class");
    reveal_strlit("function_declaration");
    reveal_strlit("function_signature");
    reveal_strlit("method_definition");
    reveal_strlit("method_signature");
    reveal_strlit("lexical_declaration");
    reveal_strlit("variable_declaration");
    reveal_strlit("function_expression");
    reveal_strlit("arrow_function");
    reveal_strlit("generator_function");
    reveal_strlit("assignment_expression");
    reveal_strlit("pair");
    reveal_strlit("identifier");
    reveal_strlit("subscript_expression");
    reveal_strlit("member_expression");
    assert("class_declaration"@.len() == 17);
    assert("class"@.len() == 5);
    assert("function_declaration"@.len() == 20);
    assert("function_signature"@.len() == 18);
    assert("method_definition"@.len() == 17);
    assert("method_definition"@[0] == 'm');
    assert("class_declaration"@[0] == 'c');
    assert("method_signature"@.len() == 16);
    assert("lexical_declaration"@.len() == 19);
    assert("variable_declaration"@.len() == 20);
    assert("function_expression"@.len() == 19);
    assert("arrow_function"@.len() == 14);
    assert("generator_function"@.len() == 18);
    assert("assignment_expression"@.len() == 21);
    assert("pair"@.len() == 4);
    assert("identifier"@.len() == 10);
    assert("subscript_expression"@.len() == 20);
    assert("member_expression"@.len() == 17);
}

/// The functions of a TypeScript or JavaScript file are reported each one time, in
/// the order of the source, and nothing else is: declarations, members of objects,
/// variables and members that are given a function, and named functions among the
/// arguments of calls.
pub proof fn typescript_functions_are_reported<'a>(root: Node<'a>)
    ensures
        reports_blocks(
            root,
            closed_by(typescript_closed()),
            typescript_functions(),
            typescript_function(),
            functions_in(root, Language::TypeScript),
        ),
        functions_in(root, Language::JavaScript) == functions_in(root, Language::TypeScript),
{
    let w = lang::typescript::Functions { is_method: false };
    assert forall|c: Node<'a>| is_open(root, closed_by(typescript_closed()), c) implies (
    typescript_functions()(c) ==> typescript_function()(#[trigger] w.yields(c), c)) && (
    !typescript_functions()(c) ==> w.yields(c).len() == 0) by {
        lemma_ts_kinds(c);
        lemma_inside(&lang::typescript::Arguments, c, ts_arguments());
        lemma_picked_kids(
            &lang::typescript::Declarators { declaration: c },
            c,
            ts_variables(),
            ts_variable(c),
        );
        if c.at("left") is Some {
            lemma_ts_kinds(c.at("left")->0);
        }
    }
    lemma_reported_blocks(
        &w,
        root,
        typescript_closed(),
        typescript_functions(),
        typescript_function(),
    );
}

/// Whether a child of a node of OCaml makes it a function.
pub open spec fn is_ocaml_function(d: Node<'_>) -> bool {
    exists|i: int|
        0 <= i < d.arity() && ((#[trigger] d.kid(i)).isa("parameter") || d.kid(i).isa(
            "function_expression",
        ) || d.kid(i).isa("fun_expression"))
}

/// Bindings of OCaml that bind a function.
pub open spec fn ocaml_bindings<'a>() -> spec_fn(Node<'a>) -> bool {
    |d: Node<'a>| d.isa("let_binding") && is_ocaml_function(d)
}

/// What is reported of a binding of OCaml.
pub open spec fn ocaml_binding<'a>(c: Node<'a>) -> spec_fn(Function, Node<'a>) -> bool {
    |f: Function, d: Node<'a>|
        {
            &&& f.name == word_at(d, "pattern")
            &&& on_node(f, c)
            &&& f.params == picked(&lang::ocaml::Params, d)
            &&& f.return_type == lang::ocaml::return_type_from(d, 0, false)
            &&& f.docstring == lang::ocaml::doc_at(c.left())
            &&& !f.is_method
            &&& !f.is_async
            &&& f.decorators.len() == 0
            &&& f.visibility is None
            &&& f.state_mutability is None
        }
}

/// No node of OCaml hides a function.
pub open spec fn ocaml_closed<'a>() -> spec_fn(Node<'a>) -> bool {
    |c: Node<'a>| false
}

/// Definitions of OCaml, but for those of `let .. in`.
pub open spec fn ocaml_functions<'a>() -> spec_fn(Node<'a>) -> bool {
    |c: Node<'a>| c.isa("value_definition") && !(c.up() matches Some(p) && p.isa("let_expression"))
}

/// What is reported of a definition of OCaml.
pub open spec fn ocaml_function<'a>() -> spec_fn(Seq<Function>, Node<'a>) -> bool {
    |s: Seq<Function>, c: Node<'a>| reports_kids(c, ocaml_bindings(), ocaml_binding(c), s)
}

/// The functions of an OCaml file are reported each one time, in the order of the
/// source, and nothing else is.
pub proof fn ocaml_functions_are_reported<'a>(root: Node<'a>)
    ensures
        reports_blocks(
            root,
            closed_by(ocaml_closed()),
            ocaml_functions(),
            ocaml_function(),
            functions_in(root, Language::Ocaml),
        ),
{
    let w = lang::ocaml::Functions;
    assert forall|c: Node<'a>| is_open(root, closed_by(ocaml_closed()), c) implies (
    ocaml_functions()(c) ==> ocaml_function()(#[trigger] w.yields(c), c)) && (!ocaml_functions()(c)
        ==> w.yields(c).len() == 0) by {
        let q = lang::ocaml::Bound { definition: c };
        assert forall|i: int| 0 <= i < c.arity() implies is_ocaml_function(#[trigger] c.kid(i))
            == lang::ocaml::is_function(c.kid(i)) by {
            let d = c.kid(i);
            lemma_found(&lang::ocaml::MakesFunction, d, 0);
            assert forall|j: int| 0 <= j < d.arity() implies lang::ocaml::MakesFunction.accepts(
                #[trigger] d.kid(j),
            ) == (d.kid(j).isa("parameter") || d.kid(j).isa("function_expression") || d.kid(j).isa(
                "fun_expression",
            )) by {
            }
        }
        lemma_picked_kids(&q, c, ocaml_bindings(), ocaml_binding(c));
    }
    lemma_reported_blocks(&w, root, ocaml_closed(), ocaml_functions(), ocaml_function());
}

/// Whether `s` is what is reported of a statement of Lua that may give a function
/// to a name.
pub open spec fn lua_given(s: Seq<Function>, c: Node<'_>, luau: bool) -> bool {
    let targets = last_found(&lang::lua::Targets { luau }, c);
    let values = last_found(&lang::lua::Values { luau }, c);
    let given = match (targets, values) {
        (Some(t), Some(v)) => first(v, "function_definition") is Some
            && lang::lua::target_name_from(t, 0).len() > 0,
        _ => false,
    };
    if given {
        let name = lang::lua::target_name_from(targets->0, 0);
        s.len() == 1 && lua_function_at(s[0], name, first(values->0, "function_definition")->0, c, luau)
    } else {
        s.len() == 0
    }
}

/// What is reported of a function of Lua that stands at the node `c`.
pub open spec fn lua_function_at(
    f: Function,
    name: Seq<char>,
    value: Node<'_>,
    c: Node<'_>,
    luau: bool,
) -> bool {
    &&& f.name == name
    &&& on_node(f, c)
    &&& f.params == lang::lua::params(value, luau)
    &&& f.return_type == if luau {
        lang::lua::return_type_from(value, 0, false, false)
    } else {
        None
    }
    &&& f.docstring == lang::lua::docstring(c)
    &&& !f.is_method
    &&& !f.is_async
    &&& f.decorators.len() == 0
    &&& f.visibility is None
    &&& f.state_mutability is None
}

/// Assignments of Lua.
pub open spec fn lua_assignments<'a>(luau: bool) -> spec_fn(Node<'a>) -> bool {
    |c: Node<'a>| c.isa("assignment_statement") || (luau && c.isa("variable_assignment"))
}

/// Nodes of Lua below which no function of the file is looked for.
pub open spec fn lua_closed<'a>(luau: bool) -> spec_fn(Node<'a>) -> bool {
    |c: Node<'a>|
        c.isa("function_declaration") || c.isa("variable_declaration") || lua_assignments(luau)(c)
}

/// A function of Lua, or what gives one to a name.
pub open spec fn lua_function<'a>(luau: bool) -> spec_fn(Seq<Function>, Node<'a>) -> bool {
    |s: Seq<Function>, c: Node<'a>|
        if c.isa("function_declaration") {
            if (c.at("name") matches Some(name) && (name.isa("dot_index_expression") || name.isa(
                "method_index_expression",
            ))) {
                s.len() == 0
            } else {
                s.len() == 1 && lua_function_at(s[0], word_at(c, "name"), c, c, luau)
            }
        } else if c.isa("variable_declaration") {
            reports_kid_blocks(c, lua_assignments(luau), lua_local(luau), s)
        } else {
            lua_given(s, c, luau)
        }
}

/// An assignment inside of a local declaration of Lua.
pub open spec fn lua_local<'a>(luau: bool) -> spec_fn(Seq<Function>, Node<'a>) -> bool {
    |s: Seq<Function>, d: Node<'a>| lua_given(s, d, luau)
}

proof fn lemma_lua<'a>(root: Node<'a>, luau: bool)
    ensures
        reports_blocks(
            root,
            closed_by(lua_closed(luau)),
            lua_closed(luau),
            lua_function(luau),
            gathered(&lang::lua::Functions { luau }, root),
        ),
{
    let w = lang::lua::Functions { luau };
    assert forall|c: Node<'a>| is_open(root, closed_by(lua_closed(luau)), c) implies (lua_closed(
        luau,
    )(c) ==> lua_function(luau)(#[trigger] w.yields(c), c)) && (!lua_closed(luau)(c)
        ==> w.yields(c).len() == 0) by {
        reveal_strlit("assignment_statement");
        reveal_strlit("variable_assignment");
        reveal_strlit("variable_declaration");
        assert("assignment_statement"@.len() == 20);
        assert("variable_assignment"@.len() == 19);
        assert("variable_declaration"@.len() == 20);
        assert("variable_declaration"@[0] == 'v');
        assert("assignment_statement"@[0] == 'a');
        let q = lang::lua::LocalFunctions { luau };
        lemma_picked_blocks(&q, c, lua_assignments(luau), lua_local(luau));
    }
    lemma_reported_blocks(&w, root, lua_closed(luau), lua_closed(luau), lua_function(luau));
}

/// The functions of a Lua or Luau file are reported each one time, in the order of
/// the source, and nothing else is. Members of tables are left out.
pub proof fn lua_functions_are_reported<'a>(root: Node<'a>)
    ensures
        reports_blocks(
            root,
            closed_by(lua_closed(false)),
            lua_closed(false),
            lua_function(false),
            functions_in(root, Language::Lua),
        ),
        reports_blocks(
            root,
            closed_by(lua_closed(true)),
            lua_closed(true),
            lua_function(true),
            functions_in(root, Language::Luau),
        ),
{
    lemma_lua(root, false);
    lemma_lua(root, true);
}

} // verus!
