//! What holds of the constants of every file.

use vstd::prelude::*;

use crate::constants;
use crate::extract::constants_in;
use crate::lists::group_lists;
use crate::names::is_constant_name;
use crate::tree::{at_or_below, group_tree, Node};
use crate::types::{Field, Language};
use crate::walk::{all_have, last_found, lemma_picked, picked, Picker};

verus! {

broadcast use {group_tree, group_lists};

/// Whether the constants of a language are told by their spelling.
pub open spec fn told_by_spelling(language: Language) -> bool {
    match language {
        Language::Python | Language::TypeScript | Language::JavaScript | Language::C
        | Language::Cpp | Language::Ruby | Language::CSharp | Language::Scala | Language::Lua
        | Language::Luau | Language::Swift | Language::Ocaml | Language::Elixir => true,
        _ => false,
    }
}

/// Whether a constant is spelled and marked as one.
pub open spec fn is_spelled_as_constant(f: Field) -> bool {
    is_constant_name(f.name) && f.is_constant && f.is_static
}

/// [`is_spelled_as_constant`], as a property of fields.
pub open spec fn spelled() -> spec_fn(Field) -> bool {
    |f: Field| is_spelled_as_constant(f)
}

proof fn lemma_typescript<'a>(root: Node<'a>)
    ensures
        all_have(constants_in(root, Language::TypeScript), spelled()),
{
    let q = constants::typescript::Constants;
    assert forall|c: Node<'a>| all_have(
        #[trigger] constants::typescript::Lexical.picks(c),
        spelled(),
    ) by {
        lemma_picked(&constants::typescript::Declarators, c, spelled());
    }
    assert forall|c: Node<'a>| at_or_below(root, c) implies all_have(
        #[trigger] q.picks(c),
        spelled(),
    ) by {
        assert(all_have(constants::typescript::Lexical.picks(c), spelled()));
        lemma_picked(&constants::typescript::Lexical, c, spelled());
    }
    lemma_picked(&q, root, spelled());
}

proof fn lemma_c<'a>(root: Node<'a>, cpp: bool)
    ensures
        all_have(
            picked(&constants::c::Constants { cpp }, root),
            spelled(),
        ),
{
    let q = constants::c::Constants { cpp };
    assert forall|c: Node<'a>| at_or_below(root, c) implies all_have(
        #[trigger] q.picks(c),
        spelled(),
    ) by {
        lemma_picked(&constants::c::Declarators { declaration: c }, c, spelled());
    }
    lemma_picked(&q, root, spelled());
}

proof fn lemma_lua<'a>(root: Node<'a>)
    ensures
        all_have(constants_in(root, Language::Lua), spelled()),
{
    let q = constants::lua::Constants;
    assert forall|n: Node<'a>| all_have(
        #[trigger] constants::lua::assigned_constants(n),
        spelled(),
    ) by {
        match last_found(&constants::lua::VariableList, n) {
            Some(list) => lemma_picked(
                &constants::lua::Variables { assignment: n },
                list,
                spelled(),
            ),
            None => {},
        }
    }
    assert forall|c: Node<'a>| at_or_below(root, c) implies all_have(
        #[trigger] q.picks(c),
        spelled(),
    ) by {
        lemma_picked(&constants::lua::Locals, c, spelled());
    }
    lemma_picked(&q, root, spelled());
}

proof fn lemma_ocaml<'a>(root: Node<'a>)
    ensures
        all_have(constants_in(root, Language::Ocaml), spelled()),
{
    let q = constants::ocaml::Constants;
    assert forall|c: Node<'a>| at_or_below(root, c) implies all_have(
        #[trigger] q.picks(c),
        spelled(),
    ) by {
        lemma_picked(&constants::ocaml::Bound { definition: c }, c, spelled());
    }
    lemma_picked(&q, root, spelled());
}

proof fn lemma_csharp<'a>(root: Node<'a>)
    ensures
        all_have(constants_in(root, Language::CSharp), spelled()),
{
    assert forall|s: Node<'a>| all_have(
        #[trigger] constants::csharp::Statements.picks(s),
        spelled(),
    ) by {
        let inner = constants::csharp::Declarations { statement: s };
        assert forall|c: Node<'a>| all_have(#[trigger] inner.picks(c), spelled()) by {
            lemma_picked(
                &constants::csharp::Declarators { statement: s, declaration: c },
                c,
                spelled(),
            );
        }
        lemma_picked(&inner, s, spelled());
    }
    let q = constants::csharp::Constants;
    assert forall|c: Node<'a>| at_or_below(root, c) implies all_have(
        #[trigger] q.picks(c),
        spelled(),
    ) by {
        lemma_picked(&constants::csharp::Statements, c, spelled());
    }
    lemma_picked(&q, root, spelled());
}

proof fn lemma_elixir(root: Node<'_>, k: nat)
    ensures
        all_have(constants::elixir::attributes(root, k), spelled()),
    decreases k,
{
    if k > 0 {
        lemma_elixir(root, (k - 1) as nat);
    }
}

/// Where constants are told by their spelling, all that are reported are in
/// upper case letters.
pub proof fn constants_are_spelled_in_upper_case<'a>(root: Node<'a>, language: Language)
    requires
        told_by_spelling(language),
    ensures
        all_have(constants_in(root, language), spelled()),
{
    match language {
        Language::Python => lemma_picked(&constants::python::Constants, root, spelled()),
        Language::TypeScript | Language::JavaScript => lemma_typescript(root),
        Language::C => lemma_c(root, false),
        Language::Cpp => lemma_c(root, true),
        Language::Ruby => lemma_picked(&constants::ruby::Constants, root, spelled()),
        Language::CSharp => lemma_csharp(root),
        Language::Scala => lemma_picked(&constants::scala::Constants, root, spelled()),
        Language::Lua | Language::Luau => lemma_lua(root),
        Language::Swift => lemma_picked(&constants::swift::Constants, root, spelled()),
        Language::Ocaml => lemma_ocaml(root),
        Language::Elixir => lemma_elixir(root, root.arity()),
        _ => {},
    }
}

} // verus!
