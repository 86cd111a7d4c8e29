//! What holds of the functions of every file.

use vstd::prelude::*;

use crate::extract::{function_params, functions_in};
use crate::lang;
use crate::lists::group_lists;
use crate::nodes::{first, first_from, lemma_first_below};
use crate::tree::{at_or_below, group_tree, lemma_at_below, lemma_below_transitive, Node};
use crate::types::{Function, Language};
use crate::walk::{
    all_have, last_found, lemma_gathered, lemma_last_below, lemma_picked, Picker, Walker,
};

verus! {

broadcast use {group_tree, group_lists};

/// Whether a function has the parameters of a node at or below `root`.
pub open spec fn has_params_of_node<'a>(root: Node<'a>, language: Language, f: Function) -> bool {
    exists|d: Node<'a>| #[trigger]
        at_or_below(root, d) && f.params == function_params(d, language)
}

/// [`has_params_of_node`], as a property of functions.
pub open spec fn params_of_node<'a>(root: Node<'a>, language: Language) -> spec_fn(Function) -> bool {
    |f: Function| has_params_of_node(root, language, f)
}

proof fn lemma_go<'a>(root: Node<'a>)
    ensures
        all_have(functions_in(root, Language::Go), params_of_node(root, Language::Go)),
{
    let w = lang::go::Functions;
    let p = params_of_node(root, Language::Go);
    assert forall|c: Node<'a>| at_or_below(root, c) implies all_have(#[trigger] w.yields(c), p) by {
    }
    lemma_gathered(&w, root, p);
}

proof fn lemma_rust<'a>(root: Node<'a>)
    ensures
        all_have(functions_in(root, Language::Rust), params_of_node(root, Language::Rust)),
{
    let w = lang::rust::Functions;
    let p = params_of_node(root, Language::Rust);
    assert forall|c: Node<'a>| at_or_below(root, c) implies all_have(#[trigger] w.yields(c), p) by {
    }
    lemma_gathered(&w, root, p);
}

proof fn lemma_java<'a>(root: Node<'a>)
    ensures
        all_have(functions_in(root, Language::Java), params_of_node(root, Language::Java)),
{
    let w = lang::java::Functions;
    let p = params_of_node(root, Language::Java);
    assert forall|c: Node<'a>| at_or_below(root, c) implies all_have(#[trigger] w.yields(c), p) by {
    }
    lemma_gathered(&w, root, p);
}

proof fn lemma_c<'a>(root: Node<'a>)
    ensures
        all_have(functions_in(root, Language::C), params_of_node(root, Language::C)),
{
    let w = lang::c::Functions;
    let p = params_of_node(root, Language::C);
    assert forall|c: Node<'a>| at_or_below(root, c) implies all_have(#[trigger] w.yields(c), p) by {
    }
    lemma_gathered(&w, root, p);
}

proof fn lemma_cpp<'a>(root: Node<'a>)
    ensures
        all_have(functions_in(root, Language::Cpp), params_of_node(root, Language::Cpp)),
{
    let w = lang::c::CppFunctions;
    let p = params_of_node(root, Language::Cpp);
    assert forall|c: Node<'a>| at_or_below(root, c) implies all_have(#[trigger] w.yields(c), p) by {
    }
    lemma_gathered(&w, root, p);
}

proof fn lemma_ruby<'a>(root: Node<'a>)
    ensures
        all_have(functions_in(root, Language::Ruby), params_of_node(root, Language::Ruby)),
{
    let w = lang::ruby::Functions;
    let p = params_of_node(root, Language::Ruby);
    assert forall|c: Node<'a>| at_or_below(root, c) implies all_have(#[trigger] w.yields(c), p) by {
    }
    lemma_gathered(&w, root, p);
}

proof fn lemma_php<'a>(root: Node<'a>)
    ensures
        all_have(functions_in(root, Language::Php), params_of_node(root, Language::Php)),
{
    let w = lang::php::Functions;
    let p = params_of_node(root, Language::Php);
    assert forall|c: Node<'a>| at_or_below(root, c) implies all_have(#[trigger] w.yields(c), p) by {
    }
    lemma_gathered(&w, root, p);
}

proof fn lemma_kotlin<'a>(root: Node<'a>)
    ensures
        all_have(functions_in(root, Language::Kotlin), params_of_node(root, Language::Kotlin)),
{
    let w = lang::kotlin::Functions;
    let p = params_of_node(root, Language::Kotlin);
    assert forall|c: Node<'a>| at_or_below(root, c) implies all_have(#[trigger] w.yields(c), p) by {
    }
    lemma_gathered(&w, root, p);
}

proof fn lemma_scala<'a>(root: Node<'a>)
    ensures
        all_have(functions_in(root, Language::Scala), params_of_node(root, Language::Scala)),
{
    let w = lang::scala::Functions;
    let p = params_of_node(root, Language::Scala);
    assert forall|c: Node<'a>| at_or_below(root, c) implies all_have(#[trigger] w.yields(c), p) by {
    }
    lemma_gathered(&w, root, p);
}

proof fn lemma_swift<'a>(root: Node<'a>)
    ensures
        all_have(functions_in(root, Language::Swift), params_of_node(root, Language::Swift)),
{
    let w = lang::swift::Functions;
    let p = params_of_node(root, Language::Swift);
    assert forall|c: Node<'a>| at_or_below(root, c) implies all_have(#[trigger] w.yields(c), p) by {
    }
    lemma_gathered(&w, root, p);
}

proof fn lemma_python<'a>(root: Node<'a>)
    ensures
        all_have(functions_in(root, Language::Python), params_of_node(root, Language::Python)),
{
    let w = lang::python::Functions { is_method: false };
    let p = params_of_node(root, Language::Python);
    assert forall|c: Node<'a>| at_or_below(root, c) implies all_have(#[trigger] w.yields(c), p) by {
        lemma_at_below(c, "definition");
        if c.at("definition") is Some {
            lemma_below_transitive(root, c, c.at("definition")->0);
        }
    }
    lemma_gathered(&w, root, p);
}

proof fn lemma_csharp<'a>(root: Node<'a>)
    ensures
        all_have(functions_in(root, Language::CSharp), params_of_node(root, Language::CSharp)),
{
    let w = lang::csharp::Functions;
    let p = params_of_node(root, Language::CSharp);
    assert forall|c: Node<'a>| at_or_below(root, c) implies all_have(#[trigger] w.yields(c), p) by {
    }
    assert forall|c: Node<'a>| (#[trigger] w.enters(c)) matches Some(d) implies at_or_below(
        c,
        w.enters(c)->0,
    ) by {
        lemma_at_below(c, "body");
    }
    lemma_gathered(&w, root, p);
}

proof fn lemma_solidity<'a>(root: Node<'a>)
    ensures
        all_have(functions_in(root, Language::Solidity), params_of_node(root, Language::Solidity)),
{
    let w = lang::solidity::Functions { is_method: false };
    let p = params_of_node(root, Language::Solidity);
    assert forall|c: Node<'a>| at_or_below(root, c) implies all_have(#[trigger] w.yields(c), p) by {
    }
    lemma_gathered(&w, root, p);
}

proof fn lemma_assigned<'a>(root: Node<'a>, n: Node<'a>, luau: bool, language: Language)
    requires
        at_or_below(root, n),
        language == Language::Lua && !luau || language == Language::Luau && luau,
    ensures
        all_have(lang::lua::assigned_function(n, luau), params_of_node(root, language)),
{
    let values = last_found(&lang::lua::Values { luau }, n);
    if values is Some {
        let v = values->0;
        lemma_last_below(&lang::lua::Values { luau }, n, n.arity());
        lemma_below_transitive(root, n, v);
        lemma_first_below(v, "function_definition", 0);
        if first(v, "function_definition") is Some {
            lemma_below_transitive(root, v, first(v, "function_definition")->0);
        }
    }
}

proof fn lemma_lua<'a>(root: Node<'a>, luau: bool, language: Language)
    requires
        language == Language::Lua && !luau || language == Language::Luau && luau,
    ensures
        all_have(functions_in(root, language), params_of_node(root, language)),
{
    let w = lang::lua::Functions { luau };
    let local = lang::lua::LocalFunctions { luau };
    let p = params_of_node(root, language);
    assert forall|c: Node<'a>| at_or_below(root, c) implies all_have(#[trigger] w.yields(c), p) by {
        lemma_assigned(root, c, luau, language);
        assert forall|d: Node<'a>| at_or_below(c, d) implies all_have(
            #[trigger] local.picks(d),
            p,
        ) by {
            lemma_below_transitive(root, c, d);
            lemma_assigned(root, d, luau, language);
        }
        lemma_picked(&local, c, p);
    }
    lemma_gathered(&w, root, p);
}

proof fn lemma_ocaml<'a>(root: Node<'a>)
    ensures
        all_have(functions_in(root, Language::Ocaml), params_of_node(root, Language::Ocaml)),
{
    let w = lang::ocaml::Functions;
    let p = params_of_node(root, Language::Ocaml);
    assert forall|c: Node<'a>| at_or_below(root, c) implies all_have(#[trigger] w.yields(c), p) by {
        let bound = lang::ocaml::Bound { definition: c };
        assert forall|d: Node<'a>| at_or_below(c, d) implies all_have(
            #[trigger] bound.picks(d),
            p,
        ) by {
            lemma_below_transitive(root, c, d);
        }
        lemma_picked(&bound, c, p);
    }
    lemma_gathered(&w, root, p);
}

/// Whether a TypeScript node has the parameters of a declaration exactly where
/// it has any.
pub open spec fn declares_params(d: Node<'_>) -> bool {
    lang::typescript::params(d).len() == 0 ==> lang::typescript::arrow_params(d).len() == 0
}

/// Whether the parameters of a TypeScript function value are all written alike:
/// as those of declarations, or as bare names.
pub open spec fn writes_params_alike(d: Node<'_>) -> bool {
    lang::typescript::params(d).len() > 0 ==> lang::typescript::params(d)
        == lang::typescript::arrow_params(d)
}

/// Whether the parameter lists of a TypeScript tree are those of its grammar:
/// declarations have no bare names, no list mixes bare names with others, and
/// assignments have no parameters.
pub open spec fn has_plain_lists<'a>(root: Node<'a>) -> bool {
    forall|d: Node<'a>| #[trigger]
        at_or_below(root, d) ==> (if d.isa("assignment_expression") {
            function_params(d, Language::TypeScript).len() == 0
        } else if lang::typescript::is_function_value(d) {
            writes_params_alike(d) && (d.at("name") is Some ==> declares_params(d))
        } else {
            declares_params(d)
        })
}

proof fn lemma_value<'a>(root: Node<'a>, n: Node<'a>, field: &str)
    requires
        at_or_below(root, n),
        has_plain_lists(root),
    ensures
        n.at(field) matches Some(v) ==> at_or_below(root, v) && (
        lang::typescript::is_function_value(v) ==> lang::typescript::arrow_params(v)
            == function_params(v, Language::TypeScript)),
{
    lemma_at_below(n, field);
    if n.at(field) is Some {
        lemma_below_transitive(root, n, n.at(field)->0);
        reveal_strlit("assignment_expression");
        reveal_strlit("arrow_function");
        reveal_strlit("function_expression");
        reveal_strlit("function");
        assert("assignment_expression"@.len() == 21);
        assert("arrow_function"@.len() == 14);
        assert("function_expression"@.len() == 19);
        assert("function"@.len() == 8);
    }
}

proof fn lemma_typescript<'a>(root: Node<'a>)
    requires
        has_plain_lists(root),
    ensures
        all_have(
            functions_in(root, Language::TypeScript),
            params_of_node(root, Language::TypeScript),
        ),
{
    let w = lang::typescript::Functions { is_method: false };
    let p = params_of_node(root, Language::TypeScript);
    assert forall|c: Node<'a>| at_or_below(root, c) implies all_have(#[trigger] w.yields(c), p) by {
        lemma_value(root, c, "value");
        lemma_value(root, c, "right");
        if declares_params(c) {
            assert(lang::typescript::params(c) =~= function_params(c, Language::TypeScript));
        }
        if c.isa("assignment_expression") {
            assert(function_params(c, Language::TypeScript) =~= Seq::empty());
        }
        let q = lang::typescript::Declarators { declaration: c };
        assert forall|d: Node<'a>| at_or_below(c, d) implies all_have(#[trigger] q.picks(d), p) by {
            lemma_below_transitive(root, c, d);
            lemma_value(root, d, "value");
        }
        lemma_picked(&q, c, p);
        reveal_strlit("assignment_expression");
        reveal_strlit("function_declaration");
        reveal_strlit("function_signature");
        reveal_strlit("method_definition");
        reveal_strlit("method_signature");
        reveal_strlit("function_expression");
        reveal_strlit("arrow_function");
        reveal_strlit("generator_function");
        reveal_strlit("function");
        assert("assignment_expression"@.len() == 21);
        assert("function_declaration"@.len() == 20);
        assert("function_signature"@.len() == 18);
        assert("method_definition"@.len() == 17);
        assert("method_signature"@.len() == 16);
        assert("function_expression"@.len() == 19);
        assert("arrow_function"@.len() == 14);
        assert("generator_function"@.len() == 18);
        assert("function"@.len() == 8);
    }
    lemma_gathered(&w, root, p);
}

/// Whether the second child of each Elixir definition is its argument list.
pub open spec fn has_plain_heads<'a>(root: Node<'a>) -> bool {
    forall|d: Node<'a>| #[trigger]
        at_or_below(root, d) && lang::elixir::is_def(d) ==> d.nth(1) == first(d, "arguments")
}

proof fn lemma_guarded(n: Node<'_>, i: int, name: Seq<char>)
    requires
        0 <= i,
    ensures
        lang::elixir::guarded_from(n, i, name).1 == match first_from(n, "call", i) {
            Some(call) => lang::elixir::clause_params(call),
            None => Seq::empty(),
        },
    decreases n.arity() - i,
{
    if i < n.arity() {
        let c = n.kid(i);
        lemma_guarded(n, i + 1, name);
        lemma_guarded(n, i + 1, c.txt());
    }
}

proof fn lemma_elixir<'a>(root: Node<'a>)
    requires
        has_plain_heads(root),
    ensures
        all_have(functions_in(root, Language::Elixir), params_of_node(root, Language::Elixir)),
{
    let w = lang::elixir::Functions;
    let p = params_of_node(root, Language::Elixir);
    assert forall|c: Node<'a>| at_or_below(root, c) implies all_have(#[trigger] w.yields(c), p) by {
        if lang::elixir::is_def(c) {
            lemma_first_below(c, "arguments", 0);
            match c.nth(1) {
                Some(args) => match args.nth(0) {
                    Some(arg) => lemma_guarded(arg, 0, Seq::empty()),
                    None => {},
                },
                None => {},
            }
            reveal_strlit("identifier");
            reveal_strlit("call");
            reveal_strlit("binary_operator");
            assert("identifier"@.len() == 10);
            assert("call"@.len() == 4);
            assert("binary_operator"@.len() == 15);
            assert(lang::elixir::head(c).1 =~= lang::elixir::def_params(c));
        }
    }
    lemma_gathered(&w, root, p);
}

/// Every function is reported with the parameters that are found when its node
/// is asked for them.
pub proof fn functions_have_the_params_of_their_nodes<'a>(root: Node<'a>, language: Language)
    requires
        language == Language::TypeScript || language == Language::JavaScript ==> has_plain_lists(
            root,
        ),
        language == Language::Elixir ==> has_plain_heads(root),
    ensures
        all_have(functions_in(root, language), params_of_node(root, language)),
{
    match language {
        Language::Python => lemma_python(root),
        Language::TypeScript => lemma_typescript(root),
        Language::JavaScript => {
            lemma_typescript(root);
            let s = functions_in(root, language);
            assert forall|i: int| 0 <= i < s.len() implies params_of_node(root, language)(
                #[trigger] s[i],
            ) by {
                assert(params_of_node(root, Language::TypeScript)(s[i]));
            }
        },
        Language::Go => lemma_go(root),
        Language::Rust => lemma_rust(root),
        Language::Java => lemma_java(root),
        Language::C => lemma_c(root),
        Language::Cpp => lemma_cpp(root),
        Language::Ruby => lemma_ruby(root),
        Language::Php => lemma_php(root),
        Language::CSharp => lemma_csharp(root),
        Language::Kotlin => lemma_kotlin(root),
        Language::Scala => lemma_scala(root),
        Language::Elixir => lemma_elixir(root),
        Language::Lua => lemma_lua(root, false, language),
        Language::Luau => lemma_lua(root, true, language),
        Language::Swift => lemma_swift(root),
        Language::Ocaml => lemma_ocaml(root),
        Language::Solidity => lemma_solidity(root),
    }
}

} // verus!
