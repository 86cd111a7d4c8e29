//! Which nodes of a file are reported as its classes, and what is reported of
//! them and of their methods.

use vstd::prelude::*;

use crate::extract::classes_in;
use crate::lang;
use crate::laws::listing::{
    closed_but_for_bodies, closed_by, has_plain_bodies, in_body, is_open, lasts, lemma_at_up,
    lemma_blocks, lemma_ones, lemma_picked_blocks, lemma_picked_kids, lemma_reported,
    lemma_reported_in_bodies, ones, reports, reports_kid_blocks, reports_kids, walks,
};
use crate::laws::reported_functions::{
    csharp_function, csharp_functions, elixir_function, from_declaration, is_call_of, is_elixir_def,
    is_suspended, is_under, java_closed, java_function, java_functions, lemma_inside, lemma_found,
    on_node, python_classes, python_decorators, python_definition, ruby_classes, solidity_callables,
    solidity_closed, solidity_contracts, solidity_function, solidity_functions_are_reported,
    ts_declared, txt_at, without_at, word_at,
};
use crate::lists::group_lists;
use crate::nodes::first;
use crate::spans::declaration_line;
use crate::text::{begins, has};
use crate::tree::{at_or_below, group_tree, lemma_below_index, lemma_below_transitive, Node};
use crate::types::{Class, ContractError, Event, Function, Language, Modifier};
use crate::walk::{found, gathered, picked, Picker, Test, Walker};

verus! {

broadcast use {group_tree, group_lists};

/// Whether a class is reported on the lines of a node.
pub open spec fn class_on_node(k: Class, d: Node<'_>) -> bool {
    k.line_number == d.top() && k.line_end == d.bottom()
}

/// Whether a class is reported from the line on which a node declares something
/// to the last line of the node.
pub open spec fn class_from_declaration(k: Class, d: Node<'_>) -> bool {
    k.line_number == declaration_line(d) && k.line_end == d.bottom()
}

/// Whether nothing is reported of a class that only contracts have.
pub open spec fn is_no_contract(k: Class) -> bool {
    k.kind is None && k.modifiers.len() == 0 && k.events.len() == 0 && k.errors.len() == 0
}

/// Classes, interfaces, enums and records of Java.
pub open spec fn java_class_nodes<'a>() -> spec_fn(Node<'a>) -> bool {
    |c: Node<'a>| c.isa("class_declaration") || c.isa("interface_declaration") || c.isa("enum_declaration") || c.isa("record_declaration")
}

/// What is reported of a class of Java.
pub open spec fn java_class<'a>() -> spec_fn(Class, Node<'a>) -> bool {
    |k: Class, c: Node<'a>|
        {
            &&& k.name == word_at(c, "name")
            &&& class_from_declaration(k, c)
            &&& k.bases == lang::java::bases(c)
            &&& k.docstring == lang::java::docstring(c)
            &&& match c.at("body") {
                Some(body) => reports(
                    body,
                    closed_by(java_closed()),
                    java_functions(),
                    java_function(),
                    k.methods,
                ),
                None => k.methods.len() == 0,
            }
            &&& k.fields == match c.at("body") {
                Some(body) => picked(&lang::java::Fields, body),
                None => Seq::empty(),
            }
            &&& k.decorators.len() == 0
            &&& is_no_contract(k)
        }
}

proof fn lemma_java_methods<'a>(body: Node<'a>)
    ensures
        reports(
            body,
            closed_by(java_closed()),
            java_functions(),
            java_function(),
            gathered(&lang::java::Functions, body),
        ),
{
    crate::laws::reported_functions::java_functions_are_reported(body);
}

/// The classes of a Java file are reported each one time, in the order of the source,
/// and nothing else is.
pub proof fn java_classes_are_reported<'a>(root: Node<'a>)
    ensures
        reports(
            root,
            closed_by(java_closed()),
            java_class_nodes(),
            java_class(),
            classes_in(root, Language::Java),
        ),
{
    let w = lang::java::Classes;
    assert forall|c: Node<'a>| is_open(root, closed_by(java_closed()), c) implies (
    #[trigger] w.yields(c)).len() == if java_class_nodes()(c) {
        1nat
    } else {
        0
    } && (java_class_nodes()(c) ==> java_class()(w.yields(c)[0], c)) by {
        if c.at("body") is Some {
            lemma_java_methods(c.at("body")->0);
        }
    }
    lemma_reported(&w, root, java_closed(), java_class_nodes(), java_class());
}

/// Nodes of Python below which no class of the file is looked for.
pub open spec fn python_closed<'a>() -> spec_fn(Node<'a>) -> bool {
    |c: Node<'a>| c.isa("class_definition") || c.isa("decorated_definition")
}

/// Classes of Python, decorated or not.
pub open spec fn python_class_nodes<'a>() -> spec_fn(Node<'a>) -> bool {
    |c: Node<'a>| python_definition(c) matches Some(d) && d.isa("class_definition")
}

/// Whether a node is the body of a class of Python.
pub open spec fn is_python_body(e: Node<'_>) -> bool {
    e.up() matches Some(k) && k.isa("class_definition") && k.at("body") == Some(e)
}

/// Nodes of Python that hide methods of a class: all but classes inside of it,
/// and those hide what is not in their body.
pub open spec fn python_hides<'a>() -> spec_fn(Node<'a>, Node<'a>) -> bool {
    |e: Node<'a>, d: Node<'a>|
        if e.isa("class_definition") {
            !in_body(e, d)
        } else {
            !is_python_body(e)
        }
}

/// Whether the body of a class of Python is no class.
pub open spec fn has_python_bodies<'a>(root: Node<'a>) -> bool {
    forall|c: Node<'a>|
        at_or_below(root, c) && c.isa("class_definition") ==> (#[trigger] c.at("body") matches Some(
            b,
        ) ==> !b.isa("class_definition"))
}

/// Functions of Python, decorated or not, inside of a class.
pub open spec fn python_methods<'a>() -> spec_fn(Node<'a>) -> bool {
    |c: Node<'a>| (python_definition(c) matches Some(d) && d.isa("function_definition")) && is_under(c, python_classes())
}

/// What is reported of a method of Python.
pub open spec fn python_method<'a>() -> spec_fn(Function, Node<'a>) -> bool {
    |f: Function, c: Node<'a>|
        {
            let d = python_definition(c)->0;
            &&& f.name == word_at(d, "name")
            &&& on_node(f, d)
            &&& f.params == lang::python::params(d)
            &&& f.return_type == txt_at(d, "return_type")
            &&& f.docstring == lang::python::docstring(d)
            &&& f.is_method == true
            &&& f.is_async == ((d.left() matches Some(p) && p.isa("async")) || begins(d.txt(), "async"@))
            &&& if c.isa("decorated_definition") {
                reports_kids(c, python_decorators(), without_at(), f.decorators)
            } else {
                f.decorators.len() == 0
            }
            &&& f.visibility is None
            &&& f.state_mutability is None
        }
}

/// Nodes that a report of the methods of a class of Python holds.
pub open spec fn reports_python_methods(body: Node<'_>, r: Seq<Function>) -> bool {
    reports(body, python_hides(), python_methods(), python_method(), r)
}

proof fn lemma_python_kinds()
    ensures
        "function_definition"@ != "decorated_definition"@,
        "class_definition"@ != "decorated_definition"@,
        "class_definition"@ != "function_definition"@,
{
    reveal_strlit("function_definition");
    reveal_strlit("decorated_definition");
    reveal_strlit("class_definition");
    assert("function_definition"@.len() == 19);
    assert("decorated_definition"@.len() == 20);
    assert("class_definition"@.len() == 16);
}

proof fn lemma_python_methods<'a>(body: Node<'a>)
    requires
        has_python_bodies(body),
        !body.isa("class_definition"),
    ensures
        reports_python_methods(body, gathered(&lang::python::Functions { is_method: true }, body)),
{
    let w = lang::python::Functions { is_method: true };
    let hides = python_hides();
    assert(lasts(hides)) by {
        assert forall|e: Node<'a>, x: Node<'a>, d: Node<'a>|
            #![trigger hides(e, d), at_or_below(x, d)]
            !hides(e, x) && at_or_below(e, x) && e != x && at_or_below(x, d) implies !hides(
            e,
            d,
        ) by {
            if e.isa("class_definition") {
                let b = e.at("body")->0;
                lemma_below_transitive(b, x, d);
                lemma_below_index(b, x);
                lemma_below_index(x, d);
            }
        }
    }
    assert forall|c: Node<'a>| is_open(body, hides, c) implies #[trigger] walks(
        &w,
        hides,
        python_methods(),
        c,
    ) by {
        lemma_python_open(body, c);
        lemma_inside(&lang::python::ClassNode, c, python_classes());
        lemma_python_kinds();
        lemma_at_up(c, "body");
        assert(at_or_below(c, c));
    }
    assert forall|c: Node<'a>| is_open(body, hides, c) && python_methods()(c) implies ones(
        python_method(),
    )(#[trigger] w.yields(c), c) by {
        lemma_inside(&lang::python::ClassNode, c, python_classes());
        lemma_picked_kids(&lang::python::Decorators, c, python_decorators(), without_at());
        lemma_python_kinds();
    }
    lemma_blocks(&w, body, hides, python_methods(), ones(python_method()));
    lemma_ones(body, hides, python_methods(), python_method(), gathered(&w, body));
}

proof fn lemma_python_open<'a>(body: Node<'a>, c: Node<'a>)
    requires
        is_open(body, python_hides(), c),
        !body.isa("class_definition"),
    ensures
        !is_python_body(c),
{
    if is_python_body(c) {
        let k = c.up()->0;
        assert(at_or_below(k, k));
        assert(at_or_below(k, c));
        if k != body {
            assert(at_or_below(body, k));
            crate::tree::lemma_up_index(c);
            assert(!python_hides()(k, c));
        }
    }
}

/// What is reported of a class of Python.
pub open spec fn python_class<'a>() -> spec_fn(Class, Node<'a>) -> bool {
    |k: Class, c: Node<'a>|
        {
            let d = python_definition(c)->0;
            &&& k.name == word_at(d, "name")
            &&& class_on_node(k, d)
            &&& k.bases == lang::python::bases(d)
            &&& k.docstring == lang::python::docstring(d)
            &&& match d.at("body") {
                Some(body) => reports_python_methods(body, k.methods),
                None => k.methods.len() == 0,
            }
            &&& k.fields == match d.at("body") {
                Some(body) => picked(&lang::python::ClassFields, body),
                None => Seq::empty(),
            }
            &&& if c.isa("decorated_definition") {
                reports_kids(c, python_decorators(), without_at(), k.decorators)
            } else {
                k.decorators.len() == 0
            }
            &&& is_no_contract(k)
        }
}

/// The classes of a Python file are reported each one time, in the order of the source,
/// and nothing else is.
pub proof fn python_classes_are_reported<'a>(root: Node<'a>)
    requires
        has_python_bodies(root),
    ensures
        reports(
            root,
            closed_by(python_closed()),
            python_class_nodes(),
            python_class(),
            classes_in(root, Language::Python),
        ),
{
    let w = lang::python::Classes;
    assert forall|c: Node<'a>| is_open(root, closed_by(python_closed()), c) implies (
    #[trigger] w.yields(c)).len() == if python_class_nodes()(c) {
        1nat
    } else {
        0
    } && (python_class_nodes()(c) ==> python_class()(w.yields(c)[0], c)) by {
        lemma_picked_kids(&lang::python::Decorators, c, python_decorators(), without_at());
        lemma_python_kinds();
        if python_class_nodes()(c) {
            let d = python_definition(c)->0;
            lemma_at_up(c, "definition");
            lemma_below_transitive(root, c, d);
            lemma_at_up(d, "body");
            if d.at("body") is Some {
                let body = d.at("body")->0;
                lemma_below_transitive(root, d, body);
                assert forall|x: Node<'a>|
                    at_or_below(body, x) && x.isa("class_definition") implies (#[trigger] x.at(
                    "body",
                ) matches Some(b) ==> !b.isa("class_definition")) by {
                    lemma_below_transitive(root, body, x);
                }
                lemma_python_methods(body);
            }
        }
    }
    lemma_reported(&w, root, python_closed(), python_class_nodes(), python_class());
}

/// Nodes of TypeScript below which no class of the file is looked for.
pub open spec fn typescript_closed<'a>() -> spec_fn(Node<'a>) -> bool {
    |c: Node<'a>| c.isa("class_declaration") || c.isa("class") || c.isa("interface_declaration") || c.isa("type_alias_declaration")
}

/// Classes, interfaces and type aliases of TypeScript.
pub open spec fn typescript_class_nodes<'a>() -> spec_fn(Node<'a>) -> bool {
    |c: Node<'a>| c.isa("class_declaration") || c.isa("class") || c.isa("interface_declaration") || c.isa("type_alias_declaration")
}

/// Nodes of TypeScript below which no member of a class is looked for.
pub open spec fn ts_leaves<'a>() -> spec_fn(Node<'a>) -> bool {
    |c: Node<'a>| c.isa("function_declaration") || c.isa("function_signature") || c.isa("method_definition") || c.isa("method_signature")
}

/// Classes of TypeScript: of those inside of others only the body is looked at.
pub open spec fn ts_owners<'a>() -> spec_fn(Node<'a>) -> bool {
    |c: Node<'a>| c.isa("class_declaration") || c.isa("class")
}

/// Members of classes of TypeScript, but for overloads.
pub open spec fn ts_methods<'a>() -> spec_fn(Node<'a>) -> bool {
    |c: Node<'a>| (c.isa("method_definition") || c.isa("method_signature")) && !lang::typescript::is_overload(c)
}

/// What is reported of a member of a class of TypeScript.
pub open spec fn ts_method<'a>() -> spec_fn(Function, Node<'a>) -> bool {
    |f: Function, c: Node<'a>| ts_declared(f, c, true)
}

/// What is reported of a class, interface or type alias of TypeScript.
pub open spec fn typescript_class<'a>() -> spec_fn(Class, Node<'a>) -> bool {
    |k: Class, c: Node<'a>|
        {
            &&& k.name == word_at(c, "name")
            &&& class_on_node(k, c)
            &&& k.docstring == lang::typescript::jsdoc(c, 3)
            &&& k.decorators.len() == 0
            &&& is_no_contract(k)
            &&& if c.isa("type_alias_declaration") {
                k.bases.len() == 0 && k.methods.len() == 0 && k.fields.len() == 0
            } else {
                &&& k.bases == picked(&lang::typescript::Bases, c)
                &&& match c.at("body") {
                    Some(body) => reports(
                        body,
                        closed_but_for_bodies(ts_leaves(), ts_owners()),
                        ts_methods(),
                        ts_method(),
                        k.methods,
                    ),
                    None => k.methods.len() == 0,
                }
                &&& k.fields == match c.at("body") {
                    Some(body) => picked(&lang::typescript::Fields, body),
                    None => Seq::empty(),
                }
            }
        }
}

proof fn lemma_ts_methods<'a>(body: Node<'a>)
    requires
        has_plain_bodies(body, ts_leaves(), ts_owners()),
    ensures
        reports(
            body,
            closed_but_for_bodies(ts_leaves(), ts_owners()),
            ts_methods(),
            ts_method(),
            gathered(&lang::typescript::Functions { is_method: true }, body),
        ),
{
    let w = lang::typescript::Functions { is_method: true };
    let hides = closed_but_for_bodies(ts_leaves(), ts_owners());
    assert forall|c: Node<'a>| is_open(body, hides, c) implies (ts_methods()(c) ==> ones(
        ts_method(),
    )(#[trigger] w.yields(c), c)) && (!ts_methods()(c) ==> w.yields(c).len() == 0) by {
        lemma_ts_kinds(c);
    }
    lemma_reported_in_bodies(
        &w,
        body,
        ts_leaves(),
        ts_owners(),
        ts_methods(),
        ones(ts_method()),
    );
    lemma_ones(body, hides, ts_methods(), ts_method(), gathered(&w, body));
}

proof fn lemma_ts_kinds(c: Node<'_>)
    ensures
        c.isa("method_definition") || c.isa("method_signature") ==> !c.isa("function_declaration")
            && !c.isa("function_signature"),
        c.isa("type_alias_declaration") ==> !c.isa("class_declaration") && !c.isa("class")
            && !c.isa("interface_declaration"),
{
    reveal_strlit("class_declaration");
    reveal_strlit("class");
    reveal_strlit("interface_declaration");
    reveal_strlit("type_alias_declaration");
    reveal_strlit("function_declaration");
    reveal_strlit("function_signature");
    reveal_strlit("method_definition");
    reveal_strlit("method_signature");
    assert("class_declaration"@.len() == 17);
    assert("class"@.len() == 5);
    assert("interface_declaration"@.len() == 21);
    assert("type_alias_declaration"@.len() == 22);
    assert("function_declaration"@.len() == 20);
    assert("function_signature"@.len() == 18);
    assert("method_definition"@.len() == 17);
    assert("method_signature"@.len() == 16);
}

/// The classes of a TypeScript file are reported each one time, in the order of the source,
/// and nothing else is.
pub proof fn typescript_classes_are_reported<'a>(root: Node<'a>)
    requires
        has_plain_bodies(root, ts_leaves(), ts_owners()),
    ensures
        reports(
            root,
            closed_by(typescript_closed()),
            typescript_class_nodes(),
            typescript_class(),
            classes_in(root, Language::TypeScript),
        ),
{
    let w = lang::typescript::Classes;
    assert forall|c: Node<'a>| is_open(root, closed_by(typescript_closed()), c) implies (
    #[trigger] w.yields(c)).len() == if typescript_class_nodes()(c) {
        1nat
    } else {
        0
    } && (typescript_class_nodes()(c) ==> typescript_class()(w.yields(c)[0], c)) by {
        lemma_ts_kinds(c);
        lemma_at_up(c, "body");
        if c.at("body") is Some {
            let body = c.at("body")->0;
            lemma_below_transitive(root, c, body);
            assert forall|x: Node<'a>| at_or_below(body, x) && ts_owners()(x) implies (
            #[trigger] x.at("body") matches Some(b) ==> !ts_leaves()(b) && !ts_owners()(b)) by {
                lemma_below_transitive(root, body, x);
            }
            lemma_ts_methods(body);
        }
    }
    lemma_reported(&w, root, typescript_closed(), typescript_class_nodes(), typescript_class());
}

/// Nodes of C# below which no class of the file is looked for.
pub open spec fn csharp_closed<'a>() -> spec_fn(Node<'a>) -> bool {
    |c: Node<'a>| c.isa("class_declaration") || c.isa("struct_declaration") || c.isa("interface_declaration")
}

/// Classes, structs and interfaces of C#.
pub open spec fn csharp_class_nodes<'a>() -> spec_fn(Node<'a>) -> bool {
    |c: Node<'a>| c.isa("class_declaration") || c.isa("struct_declaration") || c.isa("interface_declaration")
}

/// What is reported of a class of C#.
pub open spec fn csharp_class<'a>() -> spec_fn(Class, Node<'a>) -> bool {
    |k: Class, c: Node<'a>|
        {
            &&& k.name == word_at(c, "name")
            &&& class_from_declaration(k, c)
            &&& k.bases == lang::csharp::bases(c)
            &&& k.docstring == lang::csharp::docstring(c)
            &&& match c.at("body") {
                Some(body) => reports_kids(body, csharp_functions(), csharp_function(), k.methods),
                None => k.methods.len() == 0,
            }
            &&& k.fields.len() == 0
            &&& k.decorators.len() == 0
            &&& is_no_contract(k)
        }
}

proof fn lemma_csharp_methods<'a>(body: Node<'a>)
    ensures
        reports_kids(
            body,
            csharp_functions(),
            csharp_function(),
            picked(&lang::csharp::BodyMethods, body),
        ),
{
    let q = lang::csharp::BodyMethods;
    assert forall|i: int| 0 <= i < body.arity() && csharp_functions()(
        #[trigger] body.kid(i),
    ) implies q.picks(body.kid(i)).len() == 1 && csharp_function()(
        q.picks(body.kid(i))[0],
        body.kid(i),
    ) by {
        let c = body.kid(i);
        lemma_found(&lang::csharp::AsyncModifier, c, 0);
        assert forall|j: int| 0 <= j < c.arity() implies lang::csharp::AsyncModifier.accepts(
            #[trigger] c.kid(j),
        ) == ((c.kid(j).isa("modifier") || c.kid(j).isa("async")) && c.kid(j).txt() == "async"@) by {
        }
    }
    lemma_picked_kids(&q, body, csharp_functions(), csharp_function());
}

/// The classes of a C# file are reported each one time, in the order of the source,
/// and nothing else is.
pub proof fn csharp_classes_are_reported<'a>(root: Node<'a>)
    ensures
        reports(
            root,
            closed_by(csharp_closed()),
            csharp_class_nodes(),
            csharp_class(),
            classes_in(root, Language::CSharp),
        ),
{
    let w = lang::csharp::Classes;
    assert forall|c: Node<'a>| is_open(root, closed_by(csharp_closed()), c) implies (
    #[trigger] w.yields(c)).len() == if csharp_class_nodes()(c) {
        1nat
    } else {
        0
    } && (csharp_class_nodes()(c) ==> csharp_class()(w.yields(c)[0], c)) by {
        if c.at("body") is Some {
            lemma_csharp_methods(c.at("body")->0);
        }
    }
    lemma_reported(&w, root, csharp_closed(), csharp_class_nodes(), csharp_class());
}

/// Nodes of PHP below which no class of the file is looked for.
pub open spec fn php_closed<'a>() -> spec_fn(Node<'a>) -> bool {
    |c: Node<'a>| c.isa("class_declaration") || c.isa("interface_declaration") || c.isa("trait_declaration")
}

/// Classes, interfaces and traits of PHP.
pub open spec fn php_class_nodes<'a>() -> spec_fn(Node<'a>) -> bool {
    |c: Node<'a>| c.isa("class_declaration") || c.isa("interface_declaration") || c.isa("trait_declaration")
}

/// Methods of PHP.
pub open spec fn php_methods<'a>() -> spec_fn(Node<'a>) -> bool {
    |c: Node<'a>| c.isa("method_declaration")
}

/// What is reported of a method of PHP.
pub open spec fn php_method<'a>() -> spec_fn(Function, Node<'a>) -> bool {
    |f: Function, c: Node<'a>|
        {
            &&& f.name == word_at(c, "name")
            &&& on_node(f, c)
            &&& f.params == lang::php::params(c)
            &&& f.return_type == lang::php::return_type(c)
            &&& f.docstring == lang::php::docstring(c)
            &&& f.is_method
            &&& !f.is_async
            &&& f.decorators == lang::php::modifiers(c.txt())
            &&& f.visibility is None
            &&& f.state_mutability is None
        }
}

/// What is reported of a class of PHP.
pub open spec fn php_class<'a>() -> spec_fn(Class, Node<'a>) -> bool {
    |k: Class, c: Node<'a>|
        {
            &&& k.name == word_at(c, "name")
            &&& class_on_node(k, c)
            &&& k.docstring == lang::php::docstring(c)
            &&& match c.at("body") {
                Some(body) => reports_kids(body, php_methods(), php_method(), k.methods),
                None => k.methods.len() == 0,
            }
            &&& k.fields.len() == 0
            &&& is_no_contract(k)
            &&& if c.isa("class_declaration") {
                k.bases == picked(&lang::php::Bases, c) && k.decorators.len() == 0
            } else if c.isa("interface_declaration") {
                k.bases.len() == 0 && k.decorators == seq!["interface"@]
            } else {
                k.bases.len() == 0 && k.decorators == seq!["trait"@]
            }
        }
}

/// The classes of a PHP file are reported each one time, in the order of the source,
/// and nothing else is.
pub proof fn php_classes_are_reported<'a>(root: Node<'a>)
    ensures
        reports(
            root,
            closed_by(php_closed()),
            php_class_nodes(),
            php_class(),
            classes_in(root, Language::Php),
        ),
{
    let w = lang::php::Classes;
    assert forall|c: Node<'a>| is_open(root, closed_by(php_closed()), c) implies (
    #[trigger] w.yields(c)).len() == if php_class_nodes()(c) {
        1nat
    } else {
        0
    } && (php_class_nodes()(c) ==> php_class()(w.yields(c)[0], c)) by {
        if c.at("body") is Some {
            lemma_picked_kids(&lang::php::BodyMethods, c.at("body")->0, php_methods(), php_method());
        }
    }
    lemma_reported(&w, root, php_closed(), php_class_nodes(), php_class());
}

/// Nodes of Ruby below which no method of a class is looked for.
pub open spec fn ruby_leaves<'a>() -> spec_fn(Node<'a>) -> bool {
    |c: Node<'a>| c.isa("method") || c.isa("singleton_method") || ruby_classes()(c)
}

/// Methods of Ruby.
pub open spec fn ruby_methods<'a>() -> spec_fn(Node<'a>) -> bool {
    |c: Node<'a>| c.isa("method") || c.isa("singleton_method")
}

/// What is reported of a method of a class of Ruby.
pub open spec fn ruby_method<'a>() -> spec_fn(Function, Node<'a>) -> bool {
    |f: Function, c: Node<'a>|
        {
            &&& f.name == word_at(c, "name")
            &&& on_node(f, c)
            &&& f.params == lang::ruby::params(c)
            &&& f.return_type is None
            &&& f.docstring == lang::ruby::docstring(c)
            &&& f.is_method == true
            &&& !f.is_async
            &&& f.decorators == if c.isa("singleton_method") {
                seq!["self"@]
            } else {
                Seq::<Seq<char>>::empty()
            }
            &&& f.visibility is None
            &&& f.state_mutability is None
        }
}

/// No node of Ruby hides all that is below it.
pub open spec fn ruby_open<'a>() -> spec_fn(Node<'a>) -> bool {
    |c: Node<'a>| false
}

/// What is reported of a class or module of Ruby.
pub open spec fn ruby_class<'a>() -> spec_fn(Class, Node<'a>) -> bool {
    |k: Class, c: Node<'a>|
        {
            &&& k.name == word_at(c, "name")
            &&& class_on_node(k, c)
            &&& k.docstring == lang::ruby::docstring(c)
            &&& match c.at("body") {
                Some(body) => reports(
                    body,
                    closed_by(ruby_leaves()),
                    ruby_methods(),
                    ruby_method(),
                    k.methods,
                ),
                None => k.methods.len() == 0,
            }
            &&& k.fields.len() == 0
            &&& is_no_contract(k)
            &&& if c.isa("class") {
                &&& k.decorators.len() == 0
                &&& match c.at("superclass") {
                    Some(s) => k.bases == seq![s.txt()],
                    None => k.bases.len() == 0,
                }
            } else {
                k.bases.len() == 0 && k.decorators == seq!["module"@]
            }
        }
}

proof fn lemma_ruby_methods<'a>(body: Node<'a>)
    ensures
        reports(
            body,
            closed_by(ruby_leaves()),
            ruby_methods(),
            ruby_method(),
            gathered(&lang::ruby::BodyMethods, body),
        ),
{
    let w = lang::ruby::BodyMethods;
    lemma_reported(&w, body, ruby_leaves(), ruby_methods(), ruby_method());
}

/// The classes and modules of a Ruby file are reported each one time, also those
/// inside of others, in the order of the source, and nothing else is.
pub proof fn ruby_classes_are_reported<'a>(root: Node<'a>)
    requires
        has_plain_bodies(root, ruby_open(), ruby_classes()),
    ensures
        reports(
            root,
            closed_but_for_bodies(ruby_open(), ruby_classes()),
            ruby_classes(),
            ruby_class(),
            classes_in(root, Language::Ruby),
        ),
{
    let w = lang::ruby::Classes;
    let hides = closed_but_for_bodies(ruby_open(), ruby_classes());
    assert forall|c: Node<'a>| is_open(root, hides, c) implies (ruby_classes()(c) ==> ones(
        ruby_class(),
    )(#[trigger] w.yields(c), c)) && (!ruby_classes()(c) ==> w.yields(c).len() == 0) by {
        if c.at("body") is Some {
            lemma_ruby_methods(c.at("body")->0);
        }
    }
    lemma_reported_in_bodies(
        &w,
        root,
        ruby_open(),
        ruby_classes(),
        ruby_classes(),
        ones(ruby_class()),
    );
    lemma_ones(root, hides, ruby_classes(), ruby_class(), classes_in(root, Language::Ruby));
}

/// Nodes of Kotlin below which no class of the file is looked for.
pub open spec fn kotlin_closed<'a>() -> spec_fn(Node<'a>) -> bool {
    |c: Node<'a>| c.isa("class_declaration") || c.isa("object_declaration")
}

/// Classes and objects of Kotlin.
pub open spec fn kotlin_class_nodes<'a>() -> spec_fn(Node<'a>) -> bool {
    |c: Node<'a>| c.isa("class_declaration") || c.isa("object_declaration")
}

/// Whether a node of Kotlin is an object inside of a class.
pub open spec fn is_kotlin_object(e: Node<'_>) -> bool {
    e.isa("companion_object") || e.isa("object_declaration")
}

/// Whether a node of Kotlin is a direct part of an object.
pub open spec fn is_in_object(e: Node<'_>) -> bool {
    e.up() matches Some(p) && is_kotlin_object(p)
}

/// Nodes of Kotlin below which no method of a class is looked for: all but the objects in it and their bodies.
pub open spec fn kotlin_leaves<'a>() -> spec_fn(Node<'a>) -> bool {
    |c: Node<'a>| if is_in_object(c) {
            !c.isa("class_body")
        } else {
            c.isa("function_declaration") || !is_kotlin_object(c)
        }
}

/// Methods of Kotlin.
pub open spec fn kotlin_methods<'a>() -> spec_fn(Node<'a>) -> bool {
    |c: Node<'a>| c.isa("function_declaration") && !is_in_object(c)
}

/// What is reported of a method of Kotlin.
pub open spec fn kotlin_method<'a>() -> spec_fn(Function, Node<'a>) -> bool {
    |f: Function, c: Node<'a>|
        {
            &&& f.name == match c.at("name") {
                Some(name) => name.txt(),
                None => match first(c, "simple_identifier") {
                    Some(name) => name.txt(),
                    None => Seq::empty(),
                },
            }
            &&& from_declaration(f, c)
            &&& f.params == lang::kotlin::params(c)
            &&& f.return_type == lang::kotlin::return_type_from(c, 0, false, false)
            &&& f.docstring == lang::kotlin::docstring(c)
            &&& f.is_method == true
            &&& f.is_async == is_suspended(c)
            &&& f.decorators == picked(&lang::kotlin::Annotations, c)
            &&& f.visibility == lang::kotlin::visibility(c)
            &&& f.state_mutability is None
        }
}

/// Bodies of classes of Kotlin.
pub open spec fn kotlin_bodies<'a>() -> spec_fn(Node<'a>) -> bool {
    |c: Node<'a>| c.isa("class_body")
}

/// The methods in a body of a class of Kotlin.
pub open spec fn kotlin_body_methods<'a>() -> spec_fn(Seq<Function>, Node<'a>) -> bool {
    |s: Seq<Function>, body: Node<'a>|
        reports(body, closed_by(kotlin_leaves()), kotlin_methods(), kotlin_method(), s)
}

/// What is reported of a class of Kotlin.
pub open spec fn kotlin_class<'a>() -> spec_fn(Class, Node<'a>) -> bool {
    |k: Class, c: Node<'a>|
        {
            &&& k.name == match c.at("name") {
                Some(name) => name.txt(),
                None => match found(&lang::kotlin::ClassName, c) {
                    Some(name) => name.txt(),
                    None => Seq::empty(),
                },
            }
            &&& class_from_declaration(k, c)
            &&& if c.isa("class_declaration") {
                k.bases == picked(&lang::kotlin::Bases, c)
            } else {
                k.bases.len() == 0
            }
            &&& k.docstring == lang::kotlin::docstring(c)
            &&& reports_kid_blocks(c, kotlin_bodies(), kotlin_body_methods(), k.methods)
            &&& k.fields.len() == 0
            &&& k.decorators.len() == 0
            &&& is_no_contract(k)
        }
}

proof fn lemma_kotlin_body<'a>(body: Node<'a>)
    ensures
        kotlin_body_methods()(gathered(&lang::kotlin::BodyMethods, body), body),
{
    let w = lang::kotlin::BodyMethods;
    assert forall|c: Node<'a>| is_open(body, closed_by(kotlin_leaves()), c) implies (
    #[trigger] w.yields(c)).len() == if kotlin_methods()(c) {
        1nat
    } else {
        0
    } && (kotlin_methods()(c) ==> kotlin_method()(w.yields(c)[0], c)) by {
        crate::laws::reported_functions::lemma_suspended(c);
    }
    lemma_reported(&w, body, kotlin_leaves(), kotlin_methods(), kotlin_method());
}

/// The classes of a Kotlin file are reported each one time, in the order of the source,
/// and nothing else is.
pub proof fn kotlin_classes_are_reported<'a>(root: Node<'a>)
    ensures
        reports(
            root,
            closed_by(kotlin_closed()),
            kotlin_class_nodes(),
            kotlin_class(),
            classes_in(root, Language::Kotlin),
        ),
{
    let w = lang::kotlin::Classes;
    assert forall|c: Node<'a>| is_open(root, closed_by(kotlin_closed()), c) implies (
    #[trigger] w.yields(c)).len() == if kotlin_class_nodes()(c) {
        1nat
    } else {
        0
    } && (kotlin_class_nodes()(c) ==> kotlin_class()(w.yields(c)[0], c)) by {
        assert forall|i: int| 0 <= i < c.arity() implies kotlin_body_methods()(
            gathered(&lang::kotlin::BodyMethods, #[trigger] c.kid(i)),
            c.kid(i),
        ) by {
            lemma_kotlin_body(c.kid(i));
        }
        lemma_picked_blocks(&lang::kotlin::Methods, c, kotlin_bodies(), kotlin_body_methods());
    }
    lemma_reported(&w, root, kotlin_closed(), kotlin_class_nodes(), kotlin_class());
}

/// Nodes of Scala below which no class of the file is looked for.
pub open spec fn scala_closed<'a>() -> spec_fn(Node<'a>) -> bool {
    |c: Node<'a>| c.isa("class_definition") || c.isa("object_definition") || c.isa("trait_definition")
}

/// Classes, objects and traits of Scala.
pub open spec fn scala_class_nodes<'a>() -> spec_fn(Node<'a>) -> bool {
    |c: Node<'a>| c.isa("class_definition") || c.isa("object_definition") || c.isa("trait_definition")
}

/// Bodies of classes of Scala.
pub open spec fn scala_bodies<'a>() -> spec_fn(Node<'a>) -> bool {
    |c: Node<'a>| c.isa("template_body") || c.isa("body")
}

/// Methods of Scala.
pub open spec fn scala_methods<'a>() -> spec_fn(Node<'a>) -> bool {
    |c: Node<'a>| c.isa("function_definition") || c.isa("function_declaration")
}

/// What is reported of a method of Scala.
pub open spec fn scala_method<'a>() -> spec_fn(Function, Node<'a>) -> bool {
    |f: Function, c: Node<'a>|
        {
            &&& f.name == match c.at("name") {
                Some(name) => name.txt(),
                None => match first(c, "identifier") {
                    Some(name) => name.txt(),
                    None => Seq::empty(),
                },
            }
            &&& from_declaration(f, c)
            &&& f.params == picked(&lang::scala::Params, c)
            &&& f.return_type == lang::scala::return_type_from(c, 0, false)
            &&& f.docstring == lang::scala::docstring(c)
            &&& f.is_method == true
            &&& !f.is_async
            &&& f.decorators.len() == 0
            &&& f.visibility is None
            &&& f.state_mutability is None
        }
}

/// The methods in a body of a class of Scala.
pub open spec fn scala_body_methods<'a>() -> spec_fn(Seq<Function>, Node<'a>) -> bool {
    |s: Seq<Function>, body: Node<'a>| reports_kids(body, scala_methods(), scala_method(), s)
}

/// What is reported of a class of Scala.
pub open spec fn scala_class<'a>() -> spec_fn(Class, Node<'a>) -> bool {
    |k: Class, c: Node<'a>|
        {
            &&& k.name == match c.at("name") {
                Some(name) => name.txt(),
                None => match first(c, "identifier") {
                    Some(name) => name.txt(),
                    None => Seq::empty(),
                },
            }
            &&& class_from_declaration(k, c)
            &&& k.bases == picked(&lang::scala::Bases, c)
            &&& k.docstring == lang::scala::docstring(c)
            &&& reports_kid_blocks(c, scala_bodies(), scala_body_methods(), k.methods)
            &&& k.fields.len() == 0
            &&& k.decorators.len() == 0
            &&& is_no_contract(k)
        }
}

/// The classes of a Scala file are reported each one time, in the order of the source,
/// and nothing else is.
pub proof fn scala_classes_are_reported<'a>(root: Node<'a>)
    ensures
        reports(
            root,
            closed_by(scala_closed()),
            scala_class_nodes(),
            scala_class(),
            classes_in(root, Language::Scala),
        ),
{
    let w = lang::scala::Classes;
    assert forall|c: Node<'a>| is_open(root, closed_by(scala_closed()), c) implies (
    #[trigger] w.yields(c)).len() == if scala_class_nodes()(c) {
        1nat
    } else {
        0
    } && (scala_class_nodes()(c) ==> scala_class()(w.yields(c)[0], c)) by {
        assert forall|i: int| 0 <= i < c.arity() implies scala_body_methods()(
            picked(&lang::scala::BodyMethods, #[trigger] c.kid(i)),
            c.kid(i),
        ) by {
            lemma_picked_kids(
                &lang::scala::BodyMethods,
                c.kid(i),
                scala_methods(),
                scala_method(),
            );
        }
        lemma_picked_blocks(&lang::scala::Methods, c, scala_bodies(), scala_body_methods());
    }
    lemma_reported(&w, root, scala_closed(), scala_class_nodes(), scala_class());
}

/// Nodes of Swift below which no class of the file is looked for.
pub open spec fn swift_closed<'a>() -> spec_fn(Node<'a>) -> bool {
    |c: Node<'a>| c.isa("class_declaration") || c.isa("struct_declaration")
}

/// Classes and structs of Swift.
pub open spec fn swift_class_nodes<'a>() -> spec_fn(Node<'a>) -> bool {
    |c: Node<'a>| c.isa("class_declaration") || c.isa("struct_declaration")
}

/// Bodies of types of Swift.
pub open spec fn swift_bodies<'a>() -> spec_fn(Node<'a>) -> bool {
    |c: Node<'a>| c.isa("class_body") || c.isa("struct_body") || c.isa("body")
}

/// Methods of Swift.
pub open spec fn swift_methods<'a>() -> spec_fn(Node<'a>) -> bool {
    |c: Node<'a>| c.isa("function_declaration")
}

/// What is reported of a method of Swift.
pub open spec fn swift_method<'a>() -> spec_fn(Function, Node<'a>) -> bool {
    |f: Function, c: Node<'a>|
        {
            &&& f.name == word_at(c, "name")
            &&& from_declaration(f, c)
            &&& f.params == lang::swift::params(c)
            &&& f.return_type == lang::swift::return_type_from(c, 0, false)
            &&& f.docstring == lang::swift::docstring(c)
            &&& f.is_method == true
            &&& f.is_async == has(c.txt(), "async "@)
            &&& f.decorators.len() == 0
            &&& f.visibility == lang::swift::visibility(c)
            &&& f.state_mutability is None
        }
}

/// The methods in a body of a type of Swift.
pub open spec fn swift_body_methods<'a>() -> spec_fn(Seq<Function>, Node<'a>) -> bool {
    |s: Seq<Function>, body: Node<'a>| reports_kids(body, swift_methods(), swift_method(), s)
}

/// Whether `r` are the methods of a type of Swift: those in its bodies, or where
/// there are none those in the child that fills the field `body`.
pub open spec fn is_swift_methods(c: Node<'_>, r: Seq<Function>) -> bool {
    exists|s: Seq<Function>| #[trigger]
        reports_kid_blocks(c, swift_bodies(), swift_body_methods(), s) && match c.at("body") {
            Some(body) if s.len() == 0 => reports_kids(body, swift_methods(), swift_method(), r),
            _ => r == s,
        }
}

/// What is reported of a class of Swift.
pub open spec fn swift_class<'a>() -> spec_fn(Class, Node<'a>) -> bool {
    |k: Class, c: Node<'a>|
        {
            &&& k.name == match c.at("name") {
                Some(name) => name.txt(),
                None => match found(&lang::swift::TypeName, c) {
                    Some(name) => name.txt(),
                    None => Seq::empty(),
                },
            }
            &&& class_from_declaration(k, c)
            &&& k.bases == picked(&lang::swift::Bases, c)
            &&& k.docstring == lang::swift::docstring(c)
            &&& is_swift_methods(c, k.methods)
            &&& k.fields.len() == 0
            &&& k.decorators.len() == 0
            &&& is_no_contract(k)
        }
}

/// The classes of a Swift file are reported each one time, in the order of the source,
/// and nothing else is.
pub proof fn swift_classes_are_reported<'a>(root: Node<'a>)
    ensures
        reports(
            root,
            closed_by(swift_closed()),
            swift_class_nodes(),
            swift_class(),
            classes_in(root, Language::Swift),
        ),
{
    let w = lang::swift::Classes;
    assert forall|c: Node<'a>| is_open(root, closed_by(swift_closed()), c) implies (
    #[trigger] w.yields(c)).len() == if swift_class_nodes()(c) {
        1nat
    } else {
        0
    } && (swift_class_nodes()(c) ==> swift_class()(w.yields(c)[0], c)) by {
        assert forall|i: int| 0 <= i < c.arity() implies swift_body_methods()(
            picked(&lang::swift::BodyMethods, #[trigger] c.kid(i)),
            c.kid(i),
        ) by {
            lemma_picked_kids(
                &lang::swift::BodyMethods,
                c.kid(i),
                swift_methods(),
                swift_method(),
            );
        }
        lemma_picked_blocks(&lang::swift::Bodies, c, swift_bodies(), swift_body_methods());
        if c.at("body") is Some {
            lemma_picked_kids(
                &lang::swift::BodyMethods,
                c.at("body")->0,
                swift_methods(),
                swift_method(),
            );
        }
    }
    lemma_reported(&w, root, swift_closed(), swift_class_nodes(), swift_class());
}

/// Nodes of Elixir below which no module of the file is looked for.
pub open spec fn elixir_closed<'a>() -> spec_fn(Node<'a>) -> bool {
    |c: Node<'a>| is_call_of(c, "defmodule"@)
}

/// Modules of Elixir.
pub open spec fn elixir_class_nodes<'a>() -> spec_fn(Node<'a>) -> bool {
    |c: Node<'a>| is_call_of(c, "defmodule"@)
}

/// Nodes of Elixir below which no function of a module is looked for.
pub open spec fn elixir_leaves<'a>() -> spec_fn(Node<'a>) -> bool {
    |c: Node<'a>| c.isa("call")
}

/// Functions of modules of Elixir.
pub open spec fn elixir_methods<'a>() -> spec_fn(Node<'a>) -> bool {
    |c: Node<'a>| is_elixir_def(c)
}

/// Bodies of modules of Elixir.
pub open spec fn elixir_bodies<'a>() -> spec_fn(Node<'a>) -> bool {
    |c: Node<'a>| c.isa("do_block")
}

/// The functions in a body of a module of Elixir.
pub open spec fn elixir_body_functions<'a>() -> spec_fn(Seq<Function>, Node<'a>) -> bool {
    |s: Seq<Function>, body: Node<'a>|
        reports(body, closed_by(elixir_leaves()), elixir_methods(), elixir_function(), s)
}

/// What is reported of a module of Elixir.
pub open spec fn elixir_class<'a>() -> spec_fn(Class, Node<'a>) -> bool {
    |k: Class, c: Node<'a>|
        {
            &&& k.name == if c.arity() < 2 {
                Seq::empty()
            } else if c.kid(1).isa("arguments") {
                match found(&lang::elixir::ModuleName, c.kid(1)) {
                    Some(name) => name.txt(),
                    None => Seq::empty(),
                }
            } else if c.kid(1).isa("alias") {
                c.kid(1).txt()
            } else {
                Seq::empty()
            }
            &&& class_on_node(k, c)
            &&& k.bases.len() == 0
            &&& k.docstring == lang::elixir::module_docstring(c)
            &&& reports_kid_blocks(c, elixir_bodies(), elixir_body_functions(), k.methods)
            &&& k.fields.len() == 0
            &&& k.decorators.len() == 0
            &&& is_no_contract(k)
        }
}

/// The classes of a Elixir file are reported each one time, in the order of the source,
/// and nothing else is.
pub proof fn elixir_classes_are_reported<'a>(root: Node<'a>)
    ensures
        reports(
            root,
            closed_by(elixir_closed()),
            elixir_class_nodes(),
            elixir_class(),
            classes_in(root, Language::Elixir),
        ),
{
    let w = lang::elixir::Classes;
    assert forall|c: Node<'a>| is_open(root, closed_by(elixir_closed()), c) implies (
    #[trigger] w.yields(c)).len() == if elixir_class_nodes()(c) {
        1nat
    } else {
        0
    } && (elixir_class_nodes()(c) ==> elixir_class()(w.yields(c)[0], c)) by {
        assert forall|i: int| 0 <= i < c.arity() implies elixir_body_functions()(
            gathered(&lang::elixir::BodyFunctions, #[trigger] c.kid(i)),
            c.kid(i),
        ) by {
            lemma_reported(
                &lang::elixir::BodyFunctions,
                c.kid(i),
                elixir_leaves(),
                elixir_methods(),
                elixir_function(),
            );
        }
        lemma_picked_blocks(
            &lang::elixir::ModuleFunctions,
            c,
            elixir_bodies(),
            elixir_body_functions(),
        );
    }
    lemma_reported(&w, root, elixir_closed(), elixir_class_nodes(), elixir_class());
}

/// Nodes of Solidity below which no contract is looked for.
pub open spec fn solidity_shut<'a>() -> spec_fn(Node<'a>) -> bool {
    |c: Node<'a>| solidity_contracts()(c)
}

/// What is reported of a contract of Solidity.
pub open spec fn solidity_class<'a>() -> spec_fn(Class, Node<'a>) -> bool {
    |k: Class, c: Node<'a>|
        {
            &&& k.name == word_at(c, "name")
            &&& class_on_node(k, c)
            &&& k.bases == picked(&lang::solidity::Bases, c)
            &&& k.docstring == lang::solidity::docstring(c)
            &&& k.decorators.len() == 0
            &&& k.kind == Some(
                if c.isa("contract_declaration") {
                    "contract"@
                } else if c.isa("interface_declaration") {
                    "interface"@
                } else {
                    "library"@
                },
            )
            &&& match c.at("body") {
                Some(body) => {
                    &&& reports(
                        body,
                        closed_by(solidity_closed()),
                        solidity_callables(),
                        solidity_function(true),
                        k.methods,
                    )
                    &&& k.fields == picked(&lang::solidity::BodyFields, body)
                    &&& reports_kids(body, solidity_modifiers(), solidity_modifier(), k.modifiers)
                    &&& reports_kids(body, solidity_events(), solidity_event(), k.events)
                    &&& reports_kids(body, solidity_errors(), solidity_error(), k.errors)
                },
                None => k.methods.len() == 0 && k.fields.len() == 0 && k.modifiers.len() == 0
                    && k.events.len() == 0 && k.errors.len() == 0,
            }
        }
}

/// Modifiers of Solidity.
pub open spec fn solidity_modifiers<'a>() -> spec_fn(Node<'a>) -> bool {
    |c: Node<'a>| c.isa("modifier_definition")
}

/// Events of Solidity.
pub open spec fn solidity_events<'a>() -> spec_fn(Node<'a>) -> bool {
    |c: Node<'a>| c.isa("event_definition")
}

/// Errors of Solidity.
pub open spec fn solidity_errors<'a>() -> spec_fn(Node<'a>) -> bool {
    |c: Node<'a>| c.isa("error_declaration")
}

/// What is reported of a modifier of Solidity.
pub open spec fn solidity_modifier<'a>() -> spec_fn(Modifier, Node<'a>) -> bool {
    |m: Modifier, c: Node<'a>|
        {
            &&& m.name == word_at(c, "name")
            &&& m.line_number == c.top()
            &&& m.params == picked(&lang::solidity::TypedParams { kind: "parameter" }, c)
            &&& m.is_virtual == (first(c, "virtual") is Some)
            &&& m.is_override == (first(c, "override_specifier") is Some)
            &&& m.body_present == (c.at("body") is Some)
        }
}

/// What is reported of an event of Solidity.
pub open spec fn solidity_event<'a>() -> spec_fn(Event, Node<'a>) -> bool {
    |e: Event, c: Node<'a>|
        {
            &&& e.name == word_at(c, "name")
            &&& e.line_number == c.top()
            &&& e.params == picked(&lang::solidity::EventParams, c)
            &&& e.is_anonymous == (found(&lang::solidity::AnonymousWord, c) is Some)
        }
}

/// What is reported of an error of Solidity.
pub open spec fn solidity_error<'a>() -> spec_fn(ContractError, Node<'a>) -> bool {
    |e: ContractError, c: Node<'a>|
        {
            &&& e.name == word_at(c, "name")
            &&& e.line_number == c.top()
            &&& e.params == picked(&lang::solidity::TypedParams { kind: "error_parameter" }, c)
        }
}

/// The classes of a Solidity file are reported each one time, in the order of the source,
/// and nothing else is.
pub proof fn solidity_classes_are_reported<'a>(root: Node<'a>)
    ensures
        reports(
            root,
            closed_by(solidity_shut()),
            solidity_contracts(),
            solidity_class(),
            classes_in(root, Language::Solidity),
        ),
{
    let w = lang::solidity::Classes;
    assert forall|c: Node<'a>| is_open(root, closed_by(solidity_shut()), c) implies (
    #[trigger] w.yields(c)).len() == if solidity_contracts()(c) {
        1nat
    } else {
        0
    } && (solidity_contracts()(c) ==> solidity_class()(w.yields(c)[0], c)) by {
        if c.at("body") is Some {
            let body = c.at("body")->0;
            solidity_functions_are_reported(body, true);
            lemma_picked_kids(
                &lang::solidity::BodyModifiers,
                body,
                solidity_modifiers(),
                solidity_modifier(),
            );
            lemma_picked_kids(
                &lang::solidity::BodyEvents,
                body,
                solidity_events(),
                solidity_event(),
            );
            lemma_picked_kids(
                &lang::solidity::BodyErrors,
                body,
                solidity_errors(),
                solidity_error(),
            );
        }
    }
    lemma_reported(&w, root, solidity_shut(), solidity_contracts(), solidity_class());
}

/// Nodes of Solidity below which no modifier of the file is looked for.
pub open spec fn modifiers_closed<'a>() -> spec_fn(Node<'a>) -> bool {
    |c: Node<'a>| c.isa("modifier_definition") || solidity_contracts()(c)
}

/// Nodes of Solidity below which no event of the file is looked for.
pub open spec fn events_closed<'a>() -> spec_fn(Node<'a>) -> bool {
    |c: Node<'a>| c.isa("event_definition") || solidity_contracts()(c)
}

/// Nodes of Solidity below which no error of the file is looked for.
pub open spec fn errors_closed<'a>() -> spec_fn(Node<'a>) -> bool {
    |c: Node<'a>| c.isa("error_declaration") || solidity_contracts()(c)
}

/// The modifiers, events and errors of a Solidity file outside of contracts are
/// reported each one time, in the order of the source, and nothing else is.
pub proof fn solidity_file_lists_are_reported<'a>(root: Node<'a>)
    ensures
        reports(
            root,
            closed_by(modifiers_closed()),
            solidity_modifiers(),
            solidity_modifier(),
            gathered(&lang::solidity::FileModifiers, root),
        ),
        reports(
            root,
            closed_by(events_closed()),
            solidity_events(),
            solidity_event(),
            gathered(&lang::solidity::FileEvents, root),
        ),
        reports(
            root,
            closed_by(errors_closed()),
            solidity_errors(),
            solidity_error(),
            gathered(&lang::solidity::FileErrors, root),
        ),
{
    lemma_reported(
        &lang::solidity::FileModifiers,
        root,
        modifiers_closed(),
        solidity_modifiers(),
        solidity_modifier(),
    );
    lemma_reported(
        &lang::solidity::FileEvents,
        root,
        events_closed(),
        solidity_events(),
        solidity_event(),
    );
    lemma_reported(
        &lang::solidity::FileErrors,
        root,
        errors_closed(),
        solidity_errors(),
        solidity_error(),
    );
}

} // verus!
