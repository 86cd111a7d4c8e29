//! Which nodes of C++, Go, Rust and Lua files are reported as classes and as
//! their methods.

use vstd::prelude::*;

use crate::extract::classes_in;
use crate::lang;
use crate::laws::listing::{
    closed_but_for_bodies, closed_by, has_plain_bodies, is_open, lemma_ones, lemma_picked_blocks,
    lemma_picked_kids, lemma_reported, lemma_reported_in_bodies, lists_kids, ones, reports,
    reports_kid_blocks, reports_kids,
};
use crate::laws::reported_classes::{class_on_node, is_no_contract};
use crate::laws::reported_functions::{is_macro_class, on_node, txt_at, word_at};
use crate::lists::group_lists;
use crate::text::{has, stripped_back, stripped_front, trimmed};
use crate::tree::{group_tree, Node};
use crate::types::{Class, Field, Function, Language};
use crate::walk::{folded_upto, found, gathered, picked, Picker, Walker};

verus! {

broadcast use {group_tree, group_lists};

/// Functions in the body of a class of C++.
pub open spec fn cpp_members<'a>() -> spec_fn(Node<'a>) -> bool {
    |c: Node<'a>| c.isa("function_definition")
}

/// The access that a node of C++ states for the members behind it.
pub open spec fn stated_access(c: Node<'_>) -> Option<Seq<char>> {
    let word = trimmed(stripped_back(trimmed(c.txt()), ":"@));
    if c.isa("access_specifier") && (word == "public"@ || word == "private"@ || word
        == "protected"@) {
        Some(word)
    } else {
        None
    }
}

/// Whether `word` is the access of a member at position `k` of a body of C++: the
/// one that is stated last before it, or else the one that the class starts with.
pub open spec fn is_access_at(body: Node<'_>, k: int, start: Seq<char>, word: Seq<char>) -> bool {
    ||| exists|j: int|
        0 <= j < k && stated_access(#[trigger] body.kid(j)) == Some(word) && forall|m: int|
            j < m < k ==> stated_access(#[trigger] body.kid(m)) is None
    ||| word == start && forall|m: int| 0 <= m < k ==> stated_access(#[trigger] body.kid(m)) is None
}

/// What is reported of a member function of C++, but for its access.
pub open spec fn cpp_member(f: Function, c: Node<'_>) -> bool {
    &&& f.name == match lang::c::function_name(c) {
    Some(name) => name,
    None => Seq::empty(),
    }
    &&& on_node(f, c)
    &&& f.params == lang::c::params(c)
    &&& f.return_type == txt_at(c, "type")
    &&& f.docstring == lang::c::docstring(c)
    &&& f.is_method == true
    &&& !f.is_async
    &&& f.decorators == (if has(c.txt(), "virtual "@) {
    seq!["virtual"@]
    } else {
    Seq::empty()
    }) + (if has(c.txt(), "static "@) {
    seq!["static"@]
    } else {
    Seq::empty()
    })
    &&& f.visibility is Some
    &&& f.state_mutability is None
}

/// Whether `r` are the functions in a body of C++, each one time and in order, of
/// a class whose members start with the access `start`.
pub open spec fn is_cpp_methods(body: Node<'_>, start: Seq<char>, r: Seq<Function>) -> bool {
    exists|ks: Seq<int>| #[trigger]
        lists_kids(body, cpp_members(), ks) && r.len() == ks.len() && forall|i: int|
            0 <= i < r.len() ==> cpp_member(#[trigger] r[i], body.kid(ks[i])) && (r[i].visibility matches Some(
                word,
            ) && is_access_at(body, ks[i], start, word))
}

proof fn collect_cpp<'a>(body: Node<'a>, start: Seq<char>, k: nat) -> (ks: Seq<int>)
    requires
        k <= body.arity(),
    ensures
        ({
            let s = folded_upto(&lang::c::BodyMethods, (start, Seq::empty()), body, k);
            &&& is_access_at(body, k as int, start, s.0)
            &&& s.1.len() == ks.len()
            &&& forall|i: int|
                0 <= i < ks.len() ==> cpp_member(#[trigger] s.1[i], body.kid(ks[i])) && (
                s.1[i].visibility matches Some(word) && is_access_at(body, ks[i], start, word))
        }),
        forall|i: int|
            0 <= i < ks.len() ==> 0 <= #[trigger] ks[i] < k && cpp_members()(body.kid(ks[i])),
        forall|i: int, j: int| 0 <= i < j < ks.len() ==> #[trigger] ks[i] < #[trigger] ks[j],
        forall|i: int| 0 <= i < k && cpp_members()(#[trigger] body.kid(i)) ==> ks.contains(i),
    decreases k,
{
    if k == 0 {
        Seq::empty()
    } else {
        let before = collect_cpp(body, start, (k - 1) as nat);
        let c = body.kid(k - 1);
        let s = folded_upto(&lang::c::BodyMethods, (start, Seq::empty()), body, (k - 1) as nat);
        let t = folded_upto(&lang::c::BodyMethods, (start, Seq::empty()), body, k);
        reveal_strlit("access_specifier");
        reveal_strlit("function_definition");
        assert("access_specifier"@.len() == 16);
        assert("function_definition"@.len() == 19);
        if stated_access(c) is None {
            assert(t.0 == s.0);
            lemma_access_step(body, k as int, start, s.0);
        } else {
            assert(stated_access(body.kid(k - 1)) == Some(t.0));
        }
        if cpp_members()(c) {
            let ks = before.push(k - 1);
            assert forall|i: int| 0 <= i < ks.len() implies cpp_member(
                #[trigger] t.1[i],
                body.kid(ks[i]),
            ) && (t.1[i].visibility matches Some(word) && is_access_at(
                body,
                ks[i],
                start,
                word,
            )) by {
                if i < before.len() {
                    assert(t.1[i] == s.1[i]);
                    assert(ks[i] == before[i]);
                }
            }
            assert forall|i: int| 0 <= i < k && cpp_members()(
                #[trigger] body.kid(i),
            ) implies ks.contains(i) by {
                if i < k - 1 {
                    let at = choose|at: int| 0 <= at < before.len() && before[at] == i;
                    assert(ks[at] == i);
                } else {
                    assert(ks[before.len() as int] == i);
                }
            }
            ks
        } else {
            before
        }
    }
}

proof fn lemma_access_step(body: Node<'_>, k: int, start: Seq<char>, word: Seq<char>)
    requires
        0 < k,
        is_access_at(body, k - 1, start, word),
        stated_access(body.kid(k - 1)) is None,
    ensures
        is_access_at(body, k, start, word),
{
    if exists|j: int|
        0 <= j < k - 1 && stated_access(#[trigger] body.kid(j)) == Some(word) && forall|m: int|
            j < m < k - 1 ==> stated_access(#[trigger] body.kid(m)) is None {
        let j = choose|j: int|
            0 <= j < k - 1 && stated_access(#[trigger] body.kid(j)) == Some(word) && forall|m: int|
                j < m < k - 1 ==> stated_access(#[trigger] body.kid(m)) is None;
        assert(stated_access(body.kid(j)) == Some(word));
        assert forall|m: int| j < m < k implies stated_access(#[trigger] body.kid(m)) is None by {
        }
    } else {
        assert forall|m: int| 0 <= m < k implies stated_access(#[trigger] body.kid(m)) is None by {
        }
    }
}

proof fn lemma_cpp_methods<'a>(specifier: Node<'a>, body: Node<'a>)
    ensures
        is_cpp_methods(
            body,
            if specifier.isa("struct_specifier") {
                "public"@
            } else {
                "private"@
            },
            lang::c::body_methods(specifier, body),
        ),
{
    let start = lang::c::default_access(specifier);
    let ks = collect_cpp(body, start, body.arity());
    assert(lists_kids(body, cpp_members(), ks));
}

/// The access that the members of a class or struct of C++ start with.
pub open spec fn first_access(specifier: Node<'_>) -> Seq<char> {
    if specifier.isa("struct_specifier") {
        "public"@
    } else {
        "private"@
    }
}

/// Whether a specifier of C++ only names the type of a definition.
pub open spec fn is_cpp_shell(c: Node<'_>) -> bool {
    c.at("body") is None && (c.up() matches Some(p) && (p.isa("function_definition") || p.isa(
        "declaration",
    )))
}

/// The name of a class of C++.
pub open spec fn cpp_name(c: Node<'_>) -> Seq<char> {
    match c.at("name") {
        Some(name) if name.txt().len() > 0 => name.txt(),
        _ => match found(&lang::c::TypeName, c) {
            Some(name) => name.txt(),
            None => Seq::empty(),
        },
    }
}

/// Classes of C++ whose name stands behind a macro.
pub open spec fn cpp_macro_classes<'a>() -> spec_fn(Node<'a>) -> bool {
    |c: Node<'a>| is_macro_class(c)
}

/// No node of C++ hides all that stands below it.
pub open spec fn cpp_open<'a>() -> spec_fn(Node<'a>) -> bool {
    |c: Node<'a>| false
}

/// Classes and structs of C++ that have a name.
pub open spec fn cpp_class_nodes<'a>() -> spec_fn(Node<'a>) -> bool {
    |c: Node<'a>|
        ((c.isa("class_specifier") || c.isa("struct_specifier")) && !is_cpp_shell(c) && cpp_name(
            c,
        ).len() > 0) || is_macro_class(c)
}

/// What is reported of a class or struct of C++.
pub open spec fn cpp_class<'a>() -> spec_fn(Class, Node<'a>) -> bool {
    |k: Class, c: Node<'a>|
        {
            &&& class_on_node(k, c)
            &&& k.docstring == lang::c::docstring(c)
            &&& k.fields.len() == 0
            &&& k.decorators.len() == 0
            &&& is_no_contract(k)
            &&& if is_macro_class(c) {
                &&& k.name == word_at(c, "declarator")
                &&& k.bases.len() == 0
                &&& is_cpp_methods(c.at("body")->0, first_access(c.at("type")->0), k.methods)
            } else {
                &&& k.name == cpp_name(c)
                &&& k.bases == picked(&lang::c::Bases, c)
                &&& match c.at("body") {
                    Some(body) => is_cpp_methods(body, first_access(c), k.methods),
                    None => k.methods.len() == 0,
                }
            }
        }
}

/// The classes and structs of a C++ file are reported each one time, in the order
/// of the source, and nothing else is.
pub proof fn cpp_classes_are_reported<'a>(root: Node<'a>)
    requires
        has_plain_bodies(root, cpp_open(), cpp_macro_classes()),
    ensures
        reports(
            root,
            closed_but_for_bodies(cpp_open(), cpp_macro_classes()),
            cpp_class_nodes(),
            cpp_class(),
            classes_in(root, Language::Cpp),
        ),
{
    let w = lang::c::CppClasses;
    let hides = closed_but_for_bodies(cpp_open(), cpp_macro_classes());
    assert forall|c: Node<'a>| is_open(root, hides, c) implies (cpp_class_nodes()(c) ==> ones(
        cpp_class(),
    )(#[trigger] w.yields(c), c)) && (!cpp_class_nodes()(c) ==> w.yields(c).len() == 0) by {
        lemma_cpp_kinds(c);
        if c.at("body") is Some {
            lemma_cpp_methods(c, c.at("body")->0);
            if c.at("type") is Some {
                lemma_cpp_methods(c.at("type")->0, c.at("body")->0);
            }
        }
    }
    assert forall|c: Node<'a>| is_open(root, hides, c) implies #[trigger] w.enters(c)
        == if cpp_macro_classes()(c) {
        c.at("body")
    } else {
        Some(c)
    } by {
        lemma_cpp_kinds(c);
    }
    lemma_reported_in_bodies(
        &w,
        root,
        cpp_open(),
        cpp_macro_classes(),
        cpp_class_nodes(),
        ones(cpp_class()),
    );
    lemma_ones(root, hides, cpp_class_nodes(), cpp_class(), classes_in(root, Language::Cpp));
}

proof fn lemma_cpp_kinds(c: Node<'_>)
    ensures
        c.isa("class_specifier") || c.isa("struct_specifier") ==> !c.isa("function_definition")
            && !c.isa("declaration"),
{
    reveal_strlit("class_specifier");
    reveal_strlit("struct_specifier");
    reveal_strlit("function_definition");
    reveal_strlit("declaration");
    assert("class_specifier"@.len() == 15);
    assert("struct_specifier"@.len() == 16);
    assert("function_definition"@.len() == 19);
    assert("declaration"@.len() == 11);
}

/// No node of Go hides a method.
pub open spec fn go_open<'a>() -> spec_fn(Node<'a>) -> bool {
    |c: Node<'a>| false
}

/// The type that a method of Go is declared for, without the `*` of a pointer.
pub open spec fn go_receiver(c: Node<'_>) -> Seq<char> {
    match c.at("receiver") {
        Some(list) => match found(&lang::go::TypedReceiver, list) {
            Some(d) => stripped_front(word_at(d, "type"), "*"@),
            None => Seq::empty(),
        },
        None => Seq::empty(),
    }
}

/// Methods of Go that have a receiver.
pub open spec fn go_methods<'a>() -> spec_fn(Node<'a>) -> bool {
    |c: Node<'a>| c.isa("method_declaration") && go_receiver(c).len() > 0
}

/// What is reported of a function or method of Go.
pub open spec fn go_method(f: Function, c: Node<'_>) -> bool {
    &&& f.name == word_at(c, "name")
    &&& on_node(f, c)
    &&& f.params == lang::go::params(c)
    &&& f.return_type == txt_at(c, "result")
    &&& f.docstring == lang::go::docstring(c)
    &&& f.is_method == true
    &&& !f.is_async
    &&& f.decorators.len() == 0
    &&& f.visibility == if f.name.len() == 0 {
    None
    } else if 'A' <= f.name[0] <= 'Z' {
    Some("public"@)
    } else {
    Some("private"@)
    }
    &&& f.state_mutability is None
}

/// A method of Go, under the name of the type that it is declared for.
pub open spec fn go_group<'a>() -> spec_fn((Seq<char>, Seq<Function>), Node<'a>) -> bool {
    |g: (Seq<char>, Seq<Function>), c: Node<'a>|
        g.0 == go_receiver(c) && g.1.len() == 1 && go_method(g.1[0], c)
}

/// The methods of a Go file are collected each one time, in the order of the
/// source, under the types of their receivers, and nothing else is.
pub proof fn go_methods_are_collected<'a>(root: Node<'a>)
    ensures
        reports(
            root,
            closed_by(go_open()),
            go_methods(),
            go_group(),
            gathered(&lang::go::Methods, root),
        ),
{
    lemma_reported(&lang::go::Methods, root, go_open(), go_methods(), go_group());
}

/// Declarations of types of Go.
pub open spec fn go_type_declarations<'a>() -> spec_fn(Node<'a>) -> bool {
    |c: Node<'a>| c.isa("type_declaration")
}

/// Structs and interfaces of Go.
pub open spec fn go_types<'a>() -> spec_fn(Node<'a>) -> bool {
    |c: Node<'a>| c.isa("type_spec") && (c.at("type") matches Some(t) && (t.isa("struct_type") || t.isa("interface_type")))
}

/// Signatures in an interface of Go.
pub open spec fn go_signature_nodes<'a>() -> spec_fn(Node<'a>) -> bool {
    |c: Node<'a>| (c.isa("method_elem") || c.isa("method_spec")) && lang::go::signature_info(c) is Some
}

/// Nodes of Go below which no signature is looked for.
pub open spec fn go_signature_leaves<'a>() -> spec_fn(Node<'a>) -> bool {
    |c: Node<'a>| c.isa("method_elem") || c.isa("method_spec")
}

/// A signature of Go.
pub open spec fn go_signature<'a>() -> spec_fn(Function, Node<'a>) -> bool {
    |f: Function, c: Node<'a>| lang::go::signature_info(c) == Some(f)
}

/// What is reported of a struct or interface of Go, before it gets the methods of
/// the file.
pub open spec fn go_type<'a>(declaration: Node<'a>) -> spec_fn(Class, Node<'a>) -> bool {
    |k: Class, c: Node<'a>|
        {
            let t = c.at("type")->0;
            &&& k.name == word_at(c, "name")
            &&& class_on_node(k, c)
            &&& k.docstring == lang::go::docstring(declaration)
            &&& k.bases.len() == 0
            &&& k.decorators.len() == 0
            &&& is_no_contract(k)
            &&& if t.isa("struct_type") {
                k.methods.len() == 0 && k.fields == picked(&lang::go::Fields, t)
            } else {
                &&& reports(
                    t,
                    closed_by(go_signature_leaves()),
                    go_signature_nodes(),
                    go_signature(),
                    k.methods,
                )
                &&& k.fields.len() == 0
            }
        }
}

/// The types of a declaration of Go.
pub open spec fn go_declared<'a>() -> spec_fn(Seq<Class>, Node<'a>) -> bool {
    |s: Seq<Class>, c: Node<'a>| reports_kids(c, go_types(), go_type(c), s)
}

/// The structs and interfaces that a Go file declares at its top are collected each
/// one time, in the order of the source, and nothing else is.
pub proof fn go_types_are_collected<'a>(root: Node<'a>)
    ensures
        reports_kid_blocks(
            root,
            go_type_declarations(),
            go_declared(),
            picked(&lang::go::Types, root),
        ),
{
    assert forall|i: int| 0 <= i < root.arity() implies go_declared()(
        picked(&lang::go::TypeSpecs { declaration: #[trigger] root.kid(i) }, root.kid(i)),
        root.kid(i),
    ) by {
        let c = root.kid(i);
        let q = lang::go::TypeSpecs { declaration: c };
        assert forall|j: int| 0 <= j < c.arity() && go_types()(#[trigger] c.kid(j)) implies q.picks(
            c.kid(j),
        ).len() == 1 && go_type(c)(q.picks(c.kid(j))[0], c.kid(j)) by {
            let t = c.kid(j).at("type")->0;
            lemma_reported(
                &lang::go::Signatures,
                t,
                go_signature_leaves(),
                go_signature_nodes(),
                go_signature(),
            );
        }
        lemma_picked_kids(&q, c, go_types(), go_type(c));
    }
    lemma_picked_blocks(&lang::go::Types, root, go_type_declarations(), go_declared());
}

/// No node of Rust hides a type.
pub open spec fn rust_open<'a>() -> spec_fn(Node<'a>) -> bool {
    |c: Node<'a>| false
}

/// Structs, enums and traits of Rust.
pub open spec fn rust_types<'a>() -> spec_fn(Node<'a>) -> bool {
    |c: Node<'a>| c.isa("struct_item") || c.isa("enum_item") || c.isa("trait_item")
}

/// Lists of members of Rust.
pub open spec fn rust_member_lists<'a>() -> spec_fn(Node<'a>) -> bool {
    |c: Node<'a>| c.isa("declaration_list")
}

/// Functions of a trait of Rust, with or without a body.
pub open spec fn rust_trait_items<'a>() -> spec_fn(Node<'a>) -> bool {
    |c: Node<'a>| c.isa("function_item") || c.isa("function_signature_item")
}

/// What is reported of a method of Rust, but for its decorators.
pub open spec fn rust_method(f: Function, c: Node<'_>) -> bool {
    &&& f.name == word_at(c, "name")
    &&& on_node(f, c)
    &&& f.params == lang::rust::params(c)
    &&& f.return_type == match c.at("return_type") {
    Some(t) => Some(trimmed(crate::text::behind_all(t.txt(), "->"@))),
    None => None,
    }
    &&& f.docstring == lang::rust::docstring(c)
    &&& f.is_method == true
    &&& f.is_async == has(c.txt(), "async fn"@)
    &&& true
    &&& f.visibility is None
    &&& f.state_mutability is None
}

/// What is reported of a function of a trait of Rust.
pub open spec fn rust_trait_item<'a>() -> spec_fn(Function, Node<'a>) -> bool {
    |f: Function, c: Node<'a>|
        rust_method(f, c) && if c.isa("function_item") {
            f.decorators == lang::rust::attributes(c)
        } else {
            f.decorators.len() == 0
        }
}

/// The functions in a list of members of a trait of Rust.
pub open spec fn rust_trait_list<'a>() -> spec_fn(Seq<Function>, Node<'a>) -> bool {
    |s: Seq<Function>, c: Node<'a>| reports_kids(c, rust_trait_items(), rust_trait_item(), s)
}

/// What is reported of a type of Rust, before it gets the methods of impl blocks.
pub open spec fn rust_type<'a>() -> spec_fn(Class, Node<'a>) -> bool {
    |k: Class, c: Node<'a>|
        {
            &&& k.name == word_at(c, "name")
            &&& class_on_node(k, c)
            &&& k.docstring == lang::rust::docstring(c)
            &&& k.bases.len() == 0
            &&& k.decorators.len() == 0
            &&& is_no_contract(k)
            &&& if c.isa("trait_item") {
                reports_kid_blocks(c, rust_member_lists(), rust_trait_list(), k.methods)
            } else {
                k.methods.len() == 0
            }
            &&& if c.isa("struct_item") {
                k.fields == picked(&lang::rust::Fields, c)
            } else {
                k.fields.len() == 0
            }
        }
}

/// The structs, enums and traits of a Rust file are collected each one time, in the
/// order of the source, and nothing else is.
pub proof fn rust_types_are_collected<'a>(root: Node<'a>)
    ensures
        reports(
            root,
            closed_by(rust_open()),
            rust_types(),
            rust_type(),
            gathered(&lang::rust::Types, root),
        ),
{
    let w = lang::rust::Types;
    assert forall|c: Node<'a>| is_open(root, closed_by(rust_open()), c) implies (
    #[trigger] w.yields(c)).len() == if rust_types()(c) {
        1nat
    } else {
        0
    } && (rust_types()(c) ==> rust_type()(w.yields(c)[0], c)) by {
        assert forall|i: int| 0 <= i < c.arity() implies rust_trait_list()(
            picked(&lang::rust::TraitItems, #[trigger] c.kid(i)),
            c.kid(i),
        ) by {
            lemma_picked_kids(
                &lang::rust::TraitItems,
                c.kid(i),
                rust_trait_items(),
                rust_trait_item(),
            );
        }
        lemma_picked_blocks(
            &lang::rust::TraitMethods,
            c,
            rust_member_lists(),
            rust_trait_list(),
        );
    }
    lemma_reported(&w, root, rust_open(), rust_types(), rust_type());
}

/// Impl blocks of Rust that are for a type with a name.
pub open spec fn rust_impl_nodes<'a>() -> spec_fn(Node<'a>) -> bool {
    |c: Node<'a>| c.isa("impl_item") && lang::rust::impl_type_name(c) is Some
}

/// Functions in an impl block of Rust.
pub open spec fn rust_impl_items<'a>() -> spec_fn(Node<'a>) -> bool {
    |c: Node<'a>| c.isa("function_item")
}

/// What is reported of a function in an impl block of Rust.
pub open spec fn rust_impl_item<'a>(of_trait: bool) -> spec_fn(Function, Node<'a>) -> bool {
    |f: Function, c: Node<'a>|
        rust_method(f, c) && f.decorators == if of_trait && !lang::rust::attributes(c).contains(
            "trait_impl"@,
        ) {
            lang::rust::attributes(c) + seq!["trait_impl"@]
        } else {
            lang::rust::attributes(c)
        }
}

/// The methods of an impl block of Rust, under the name of the type.
pub open spec fn rust_group<'a>() -> spec_fn((Seq<char>, Seq<Function>), Node<'a>) -> bool {
    |g: (Seq<char>, Seq<Function>), c: Node<'a>|
        lang::rust::impl_type_name(c) == Some(g.0) && match c.at("body") {
            Some(body) => reports_kids(
                body,
                rust_impl_items(),
                rust_impl_item(c.at("trait") is Some),
                g.1,
            ),
            None => g.1.len() == 0,
        }
}

/// The methods of the impl blocks of a Rust file are collected each one time, in
/// the order of the source, under the types of the blocks, and nothing else is.
pub proof fn rust_impls_are_collected<'a>(root: Node<'a>)
    ensures
        reports(
            root,
            closed_by(rust_open()),
            rust_impl_nodes(),
            rust_group(),
            gathered(&lang::rust::Impls, root),
        ),
{
    let w = lang::rust::Impls;
    assert forall|c: Node<'a>| is_open(root, closed_by(rust_open()), c) implies (
    #[trigger] w.yields(c)).len() == if rust_impl_nodes()(c) {
        1nat
    } else {
        0
    } && (rust_impl_nodes()(c) ==> rust_group()(w.yields(c)[0], c)) by {
        if c.at("body") is Some {
            lemma_picked_kids(
                &lang::rust::ImplMethods { is_trait_impl: c.at("trait") is Some },
                c.at("body")->0,
                rust_impl_items(),
                rust_impl_item(c.at("trait") is Some),
            );
        }
    }
    lemma_reported(&w, root, rust_open(), rust_impl_nodes(), rust_group());
}

/// No node of Lua hides a member of a table.
pub open spec fn lua_open<'a>() -> spec_fn(Node<'a>) -> bool {
    |c: Node<'a>| false
}

/// The table, the member and whether the member is called with `:`, where a
/// function of Lua is declared as `T.m` or `T:m`.
pub open spec fn lua_member(c: Node<'_>) -> Option<(Seq<char>, Seq<char>, bool)> {
    match c.at("name") {
        Some(name) => {
            let with_colon = name.isa("method_index_expression");
            let member = if with_colon {
                name.at("method")
            } else {
                name.at("field")
            };
            match (name.at("table"), member) {
                (Some(t), Some(m)) if with_colon || name.isa("dot_index_expression") => Some(
                    (t.txt(), m.txt(), with_colon),
                ),
                _ => None,
            }
        },
        None => None,
    }
}

/// Functions of Lua that are members of a table with a name of its own.
pub open spec fn lua_members<'a>() -> spec_fn(Node<'a>) -> bool {
    |c: Node<'a>|
        c.isa("function_declaration") && (lua_member(c) matches Some(m) && m.0.len() > 0 && m.0
            != "self"@ && m.0 != "_"@ && m.1.len() > 0)
}

/// What is collected of a function of Lua that is a member of a table.
pub open spec fn lua_method<'a>(luau: bool) -> spec_fn(
    (Seq<char>, Function, Seq<Field>),
    Node<'a>,
) -> bool {
    |g: (Seq<char>, Function, Seq<Field>), c: Node<'a>|
        {
            let m = lua_member(c)->0;
            let f = g.1;
            &&& g.0 == m.0
            &&& f.name == m.1
            &&& on_node(f, c)
            &&& f.params == lang::lua::params(c, luau)
            &&& f.return_type == if luau {
                lang::lua::return_type_from(c, 0, false, false)
            } else {
                None
            }
            &&& f.docstring == lang::lua::docstring(c)
            &&& f.is_method
            &&& !f.is_async
            &&& f.decorators == seq![
                if m.2 {
                    "method"@
                } else {
                    "static"@
                },
            ]
            &&& f.visibility is None
            &&& f.state_mutability is None
            &&& g.2 == gathered(&lang::lua::SelfFields, c)
        }
}

/// The functions of a Lua or Luau file that are members of tables are collected
/// each one time, in the order of the source, under the tables, and nothing else
/// is.
pub proof fn lua_members_are_collected<'a>(root: Node<'a>, luau: bool)
    ensures
        reports(
            root,
            closed_by(lua_open()),
            lua_members(),
            lua_method(luau),
            gathered(&lang::lua::Methods { luau }, root),
        ),
{
    lemma_reported(
        &lang::lua::Methods { luau },
        root,
        lua_open(),
        lua_members(),
        lua_method(luau),
    );
}

} // verus!
