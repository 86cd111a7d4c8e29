//! On which lines the functions of a file are reported.

use vstd::prelude::*;

use crate::extract::functions_in;
use crate::lang;
use crate::lists::group_lists;
use crate::nodes::{first, lemma_first_below};
use crate::spans::{declaration_line, DeclarationPart};
use crate::tree::{
    at_or_below, group_tree, is_sound, is_tree, lemma_at_below, lemma_below_lines,
    lemma_below_transitive, lemma_kid_lines, lemma_lines, lemma_root_sound, line_count,
    source_lines, Node, SyntaxTree,
};
use crate::types::{Function, Language};
use crate::walk::{
    all_have, found_from, gathered, last_found, lemma_gathered, lemma_last_below, lemma_picked, Picker,
    Test, Walker,
};

verus! {

broadcast use {group_tree, group_lists};

proof fn lemma_found_lines<'a, T: Test>(t: &T, n: Node<'a>, i: int)
    requires
        is_sound(n),
        0 <= i,
    ensures
        found_from(t, n, i) matches Some(c) ==> n.top() <= c.top() <= c.bottom() <= n.bottom(),
    decreases n.arity() - i,
{
    if i < n.arity() {
        lemma_kid_lines(n, i);
        lemma_lines(n.kid(i));
        lemma_found_lines(t, n, i + 1);
    }
}

/// The line on which a declaration begins is one of those of its node.
pub proof fn declarations_begin_on_their_lines(n: Node<'_>)
    requires
        is_sound(n),
    ensures
        n.top() <= declaration_line(n) <= n.bottom(),
{
    lemma_found_lines(&DeclarationPart, n, 0);
    lemma_lines(n);
}

/// Whether a function is reported on lines of a source text with `count` lines,
/// of which the first is not behind the last.
pub open spec fn function_on_lines(count: nat) -> spec_fn(Function) -> bool {
    |f: Function| 1 <= f.line_number <= f.line_end <= count
}

pub(crate) proof fn lemma_place<'a>(root: Node<'a>, c: Node<'a>)
    requires
        is_sound(root),
        at_or_below(root, c),
    ensures
        is_sound(c),
        source_lines(c) == source_lines(root),
        1 <= c.top() <= declaration_line(c) <= c.bottom() <= source_lines(root),
{
    lemma_below_lines(root, c);
    lemma_lines(c);
    declarations_begin_on_their_lines(c);
}

proof fn lemma_go<'a>(root: Node<'a>)
    requires
        is_sound(root),
    ensures
        all_have(functions_in(root, Language::Go), function_on_lines(source_lines(root))),
{
    let w = lang::go::Functions;
    let p = function_on_lines(source_lines(root));
    assert forall|c: Node<'a>| at_or_below(root, c) implies all_have(#[trigger] w.yields(c), p) by {
        lemma_place(root, c);
    }
    lemma_gathered(&w, root, p);
}

proof fn lemma_rust<'a>(root: Node<'a>)
    requires
        is_sound(root),
    ensures
        all_have(functions_in(root, Language::Rust), function_on_lines(source_lines(root))),
{
    let w = lang::rust::Functions;
    let p = function_on_lines(source_lines(root));
    assert forall|c: Node<'a>| at_or_below(root, c) implies all_have(#[trigger] w.yields(c), p) by {
        lemma_place(root, c);
    }
    lemma_gathered(&w, root, p);
}

pub(crate) proof fn lemma_java<'a>(root: Node<'a>)
    requires
        is_sound(root),
    ensures
        all_have(functions_in(root, Language::Java), function_on_lines(source_lines(root))),
{
    let w = lang::java::Functions;
    let p = function_on_lines(source_lines(root));
    assert forall|c: Node<'a>| at_or_below(root, c) implies all_have(#[trigger] w.yields(c), p) by {
        lemma_place(root, c);
    }
    lemma_gathered(&w, root, p);
}

proof fn lemma_c<'a>(root: Node<'a>)
    requires
        is_sound(root),
    ensures
        all_have(functions_in(root, Language::C), function_on_lines(source_lines(root))),
{
    let w = lang::c::Functions;
    let p = function_on_lines(source_lines(root));
    assert forall|c: Node<'a>| at_or_below(root, c) implies all_have(#[trigger] w.yields(c), p) by {
        lemma_place(root, c);
    }
    lemma_gathered(&w, root, p);
}

proof fn lemma_cpp<'a>(root: Node<'a>)
    requires
        is_sound(root),
    ensures
        all_have(functions_in(root, Language::Cpp), function_on_lines(source_lines(root))),
{
    let w = lang::c::CppFunctions;
    let p = function_on_lines(source_lines(root));
    assert forall|c: Node<'a>| at_or_below(root, c) implies all_have(#[trigger] w.yields(c), p) by {
        lemma_place(root, c);
    }
    lemma_gathered(&w, root, p);
}

proof fn lemma_ruby<'a>(root: Node<'a>)
    requires
        is_sound(root),
    ensures
        all_have(functions_in(root, Language::Ruby), function_on_lines(source_lines(root))),
{
    let w = lang::ruby::Functions;
    let p = function_on_lines(source_lines(root));
    assert forall|c: Node<'a>| at_or_below(root, c) implies all_have(#[trigger] w.yields(c), p) by {
        lemma_place(root, c);
    }
    lemma_gathered(&w, root, p);
}

proof fn lemma_php<'a>(root: Node<'a>)
    requires
        is_sound(root),
    ensures
        all_have(functions_in(root, Language::Php), function_on_lines(source_lines(root))),
{
    let w = lang::php::Functions;
    let p = function_on_lines(source_lines(root));
    assert forall|c: Node<'a>| at_or_below(root, c) implies all_have(#[trigger] w.yields(c), p) by {
        lemma_place(root, c);
    }
    lemma_gathered(&w, root, p);
}

proof fn lemma_kotlin<'a>(root: Node<'a>)
    requires
        is_sound(root),
    ensures
        all_have(functions_in(root, Language::Kotlin), function_on_lines(source_lines(root))),
{
    let w = lang::kotlin::Functions;
    let p = function_on_lines(source_lines(root));
    assert forall|c: Node<'a>| at_or_below(root, c) implies all_have(#[trigger] w.yields(c), p) by {
        lemma_place(root, c);
    }
    lemma_gathered(&w, root, p);
}

proof fn lemma_scala<'a>(root: Node<'a>)
    requires
        is_sound(root),
    ensures
        all_have(functions_in(root, Language::Scala), function_on_lines(source_lines(root))),
{
    let w = lang::scala::Functions;
    let p = function_on_lines(source_lines(root));
    assert forall|c: Node<'a>| at_or_below(root, c) implies all_have(#[trigger] w.yields(c), p) by {
        lemma_place(root, c);
    }
    lemma_gathered(&w, root, p);
}

proof fn lemma_swift<'a>(root: Node<'a>)
    requires
        is_sound(root),
    ensures
        all_have(functions_in(root, Language::Swift), function_on_lines(source_lines(root))),
{
    let w = lang::swift::Functions;
    let p = function_on_lines(source_lines(root));
    assert forall|c: Node<'a>| at_or_below(root, c) implies all_have(#[trigger] w.yields(c), p) by {
        lemma_place(root, c);
    }
    lemma_gathered(&w, root, p);
}

pub(crate) proof fn lemma_python<'a>(root: Node<'a>, is_method: bool)
    requires
        is_sound(root),
    ensures
        all_have(
            gathered(&lang::python::Functions { is_method }, root),
            function_on_lines(source_lines(root)),
        ),
{
    let w = lang::python::Functions { is_method };
    let p = function_on_lines(source_lines(root));
    assert forall|c: Node<'a>| at_or_below(root, c) implies all_have(#[trigger] w.yields(c), p) by {
        lemma_place(root, c);
        lemma_at_below(c, "definition");
        if c.at("definition") is Some {
            lemma_below_transitive(root, c, c.at("definition")->0);
            lemma_place(root, c.at("definition")->0);
        }
    }
    assert forall|c: Node<'a>| (#[trigger] w.enters(c)) matches Some(d) implies at_or_below(
        c,
        w.enters(c)->0,
    ) by {
        lemma_at_below(c, "body");
    }
    lemma_gathered(&w, root, p);
}

proof fn lemma_csharp<'a>(root: Node<'a>)
    requires
        is_sound(root),
    ensures
        all_have(functions_in(root, Language::CSharp), function_on_lines(source_lines(root))),
{
    let w = lang::csharp::Functions;
    let p = function_on_lines(source_lines(root));
    assert forall|c: Node<'a>| at_or_below(root, c) implies all_have(#[trigger] w.yields(c), p) by {
        lemma_place(root, c);
    }
    assert forall|c: Node<'a>| (#[trigger] w.enters(c)) matches Some(d) implies at_or_below(
        c,
        w.enters(c)->0,
    ) by {
        lemma_at_below(c, "body");
    }
    lemma_gathered(&w, root, p);
}

pub(crate) proof fn lemma_solidity<'a>(root: Node<'a>, is_method: bool)
    requires
        is_sound(root),
    ensures
        all_have(
            gathered(&lang::solidity::Functions { is_method }, root),
            function_on_lines(source_lines(root)),
        ),
{
    let w = lang::solidity::Functions { is_method };
    let p = function_on_lines(source_lines(root));
    assert forall|c: Node<'a>| at_or_below(root, c) implies all_have(#[trigger] w.yields(c), p) by {
        lemma_place(root, c);
    }
    lemma_gathered(&w, root, p);
}

proof fn lemma_ocaml<'a>(root: Node<'a>)
    requires
        is_sound(root),
    ensures
        all_have(functions_in(root, Language::Ocaml), function_on_lines(source_lines(root))),
{
    let w = lang::ocaml::Functions;
    let p = function_on_lines(source_lines(root));
    assert forall|c: Node<'a>| at_or_below(root, c) implies all_have(#[trigger] w.yields(c), p) by {
        lemma_place(root, c);
        let bound = lang::ocaml::Bound { definition: c };
        assert forall|d: Node<'a>| at_or_below(c, d) implies all_have(
            #[trigger] bound.picks(d),
            p,
        ) by {
            lemma_below_transitive(root, c, d);
            lemma_place(root, d);
        }
        lemma_picked(&bound, c, p);
    }
    lemma_gathered(&w, root, p);
}

pub(crate) proof fn lemma_value<'a>(root: Node<'a>, n: Node<'a>, field: &str)
    requires
        is_sound(root),
        at_or_below(root, n),
    ensures
        n.at(field) matches Some(v) ==> is_sound(v) && source_lines(v) == source_lines(root) && 1
            <= v.top() <= v.bottom() <= source_lines(root),
{
    lemma_at_below(n, field);
    if n.at(field) is Some {
        lemma_below_transitive(root, n, n.at(field)->0);
        lemma_place(root, n.at(field)->0);
    }
}

pub(crate) proof fn lemma_typescript<'a>(root: Node<'a>, is_method: bool)
    requires
        is_sound(root),
    ensures
        all_have(
            gathered(&lang::typescript::Functions { is_method }, root),
            function_on_lines(source_lines(root)),
        ),
{
    let w = lang::typescript::Functions { is_method };
    let p = function_on_lines(source_lines(root));
    assert forall|c: Node<'a>| at_or_below(root, c) implies all_have(#[trigger] w.yields(c), p) by {
        lemma_place(root, c);
        lemma_value(root, c, "value");
        lemma_value(root, c, "right");
        let q = lang::typescript::Declarators { declaration: c };
        assert forall|d: Node<'a>| at_or_below(c, d) implies all_have(#[trigger] q.picks(d), p) by {
            lemma_below_transitive(root, c, d);
            lemma_place(root, d);
            lemma_value(root, d, "value");
        }
        lemma_picked(&q, c, p);
    }
    assert forall|c: Node<'a>| (#[trigger] w.enters(c)) matches Some(d) implies at_or_below(
        c,
        w.enters(c)->0,
    ) by {
        lemma_at_below(c, "body");
    }
    lemma_gathered(&w, root, p);
}

proof fn lemma_elixir<'a>(root: Node<'a>)
    requires
        is_sound(root),
    ensures
        all_have(functions_in(root, Language::Elixir), function_on_lines(source_lines(root))),
{
    let w = lang::elixir::Functions;
    let p = function_on_lines(source_lines(root));
    assert forall|c: Node<'a>| at_or_below(root, c) implies all_have(#[trigger] w.yields(c), p) by {
        lemma_place(root, c);
    }
    lemma_gathered(&w, root, p);
}

proof fn lemma_assigned<'a>(root: Node<'a>, n: Node<'a>, luau: bool)
    requires
        is_sound(root),
        at_or_below(root, n),
    ensures
        all_have(
            lang::lua::assigned_function(n, luau),
            function_on_lines(source_lines(root)),
        ),
{
    lemma_place(root, n);
    let values = last_found(&lang::lua::Values { luau }, n);
    if values is Some {
        let v = values->0;
        lemma_last_below(&lang::lua::Values { luau }, n, n.arity());
        lemma_below_transitive(root, n, v);
        lemma_first_below(v, "function_definition", 0);
        if first(v, "function_definition") is Some {
            let f = first(v, "function_definition")->0;
            lemma_below_transitive(root, v, f);
            lemma_place(root, f);
        }
    }
}

proof fn lemma_lua<'a>(root: Node<'a>, luau: bool)
    requires
        is_sound(root),
    ensures
        luau ==> all_have(
            functions_in(root, Language::Luau),
            function_on_lines(source_lines(root)),
        ),
        !luau ==> all_have(
            functions_in(root, Language::Lua),
            function_on_lines(source_lines(root)),
        ),
{
    let w = lang::lua::Functions { luau };
    let local = lang::lua::LocalFunctions { luau };
    let p = function_on_lines(source_lines(root));
    assert forall|c: Node<'a>| at_or_below(root, c) implies all_have(#[trigger] w.yields(c), p) by {
        lemma_place(root, c);
        lemma_assigned(root, c, luau);
        assert forall|d: Node<'a>| at_or_below(c, d) implies all_have(
            #[trigger] local.picks(d),
            p,
        ) by {
            lemma_below_transitive(root, c, d);
            lemma_assigned(root, d, luau);
        }
        lemma_picked(&local, c, p);
    }
    lemma_gathered(&w, root, p);
}

/// Every function is reported on lines of the source, which are numbered from 1.
/// Its first line is not behind its last.
pub proof fn functions_stand_on_lines_of_the_source(tree: &SyntaxTree, language: Language)
    requires
        is_tree(tree.text(), tree.nodes()),
    ensures
        all_have(
            functions_in(tree.root(), language),
            function_on_lines(line_count(tree.text())),
        ),
{
    let root = tree.root();
    lemma_root_sound(tree);
    match language {
        Language::Python => lemma_python(root, false),
        Language::TypeScript | Language::JavaScript => lemma_typescript(root, false),
        Language::Go => lemma_go(root),
        Language::Rust => lemma_rust(root),
        Language::Java => lemma_java(root),
        Language::C => lemma_c(root),
        Language::Cpp => lemma_cpp(root),
        Language::Ruby => lemma_ruby(root),
        Language::Php => lemma_php(root),
        Language::CSharp => lemma_csharp(root),
        Language::Kotlin => lemma_kotlin(root),
        Language::Scala => lemma_scala(root),
        Language::Elixir => lemma_elixir(root),
        Language::Lua => lemma_lua(root, false),
        Language::Luau => lemma_lua(root, true),
        Language::Swift => lemma_swift(root),
        Language::Ocaml => lemma_ocaml(root),
        Language::Solidity => lemma_solidity(root, false),
    }
}

} // verus!
