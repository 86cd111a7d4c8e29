//! Finer rules of single languages, and of files that are refused.

use vstd::prelude::*;

use crate::error::Refusal;
use crate::extract::{function_params, module_docstring, rust_doc_from};
use crate::files::{base_refusal, file_extension, file_language, refusal, Base, Loaded};
use crate::imports;
use crate::lang;
use crate::laws::doc_comments::{are_lines_before, lemma_lines_before};
use crate::laws::import_texts::{is_csharp_part, path_below};
use crate::laws::reported_fields::{is_last, lemma_last_step};
use crate::laws::reported_functions::word_at;
use crate::laws::reported_signatures::rust_preamble;
use crate::laws::texts::places_are_first;
use crate::lists::group_lists;
use crate::names::{capital_visibility, is_identifier};
use crate::natspec::is_return_name;
use crate::nodes::first;
use crate::paths::lies_below;
use crate::text::{
    ahead_all, begins, has, joined, pieces, place, stripped, stripped_back, stripped_front,
    trimmed, words,
};
use crate::tree::{
    at_or_below, group_tree, lemma_below_index, lemma_below_transitive, lemma_kid_below,
    lemma_kid_order, lemma_under_kid, Node,
};
use crate::types::{import, Language};
use crate::walk::{folded, folded_upto, found, nearest_first, Fold, last_found, picked};

verus! {

broadcast use {group_tree, group_lists};

/// Whether `d` is the first identifier at or below a node.
pub open spec fn is_first_identifier<'a>(n: Node<'a>, d: Node<'a>) -> bool {
    at_or_below(n, d) && d.isa("identifier") && forall|e: Node<'a>| #[trigger]
        at_or_below(n, e) && e.isa("identifier") ==> d.index() <= e.index()
}

/// Whether there is no identifier at or below a node.
pub open spec fn has_no_identifier<'a>(n: Node<'a>) -> bool {
    forall|e: Node<'a>| #[trigger] at_or_below(n, e) ==> !e.isa("identifier")
}

/// The name that a pattern of Elixir binds is its first identifier, at any depth.
pub proof fn elixir_patterns_bind_their_first_identifier<'a>(n: Node<'a>)
    ensures
        lang::elixir::first_identifier(n) matches Some(t) ==> exists|d: Node<'a>| #[trigger]
            is_first_identifier(n, d) && t == d.txt(),
        lang::elixir::first_identifier(n) is None ==> has_no_identifier(n),
    decreases n.rank(), n.arity() + 1,
{
    if n.isa("identifier") {
        assert(at_or_below(n, n));
        assert forall|e: Node<'a>| #[trigger] at_or_below(n, e) && e.isa(
            "identifier",
        ) implies n.index() <= e.index() by {
            lemma_below_index(n, e);
        }
        assert(is_first_identifier(n, n));
    } else {
        lemma_first_identifier(n, n.arity());
        if lang::elixir::first_identifier(n) is None {
            assert forall|e: Node<'a>| #[trigger] at_or_below(n, e) implies !e.isa(
                "identifier",
            ) by {
                if e != n {
                    let i = lemma_under_kid(n, e);
                    assert(has_no_identifier(n.kid(i)));
                }
            }
        } else {
            let t = lang::elixir::first_identifier(n)->0;
            let (i, d) = choose|i: int, d: Node<'a>|
                0 <= i < n.arity() && #[trigger] is_first_identifier(n.kid(i), d) && t == d.txt()
                    && forall|m: int| 0 <= m < i ==> has_no_identifier(#[trigger] n.kid(m));
            lemma_kid_below(n, i);
            lemma_below_transitive(n, n.kid(i), d);
            assert forall|e: Node<'a>| #[trigger] at_or_below(n, e) && e.isa(
                "identifier",
            ) implies d.index() <= e.index() by {
                assert(e != n);
                let j = lemma_under_kid(n, e);
                if j < i {
                    assert(has_no_identifier(n.kid(j)));
                } else if j > i {
                    lemma_kid_order(n, i, j, d);
                    lemma_below_index(n.kid(j), e);
                }
            }
            assert(is_first_identifier(n, d));
        }
    }
}

proof fn lemma_first_identifier<'a>(n: Node<'a>, k: nat)
    requires
        k <= n.arity(),
    ensures
        lang::elixir::first_identifier_from(n, k) matches Some(t) ==> exists|i: int, d: Node<'a>|
            n.arity() - k <= i < n.arity() && #[trigger] is_first_identifier(n.kid(i), d) && t
                == d.txt() && forall|m: int|
                n.arity() - k <= m < i ==> has_no_identifier(#[trigger] n.kid(m)),
        lang::elixir::first_identifier_from(n, k) is None ==> forall|m: int|
            n.arity() - k <= m < n.arity() ==> has_no_identifier(#[trigger] n.kid(m)),
    decreases n.rank(), k,
{
    if k > 0 {
        let c = n.kid(n.arity() - k);
        elixir_patterns_bind_their_first_identifier(c);
        if lang::elixir::first_identifier(c) is Some {
            let t = lang::elixir::first_identifier(c)->0;
            let d = choose|d: Node<'a>| #[trigger] is_first_identifier(c, d) && t == d.txt();
            assert(is_first_identifier(n.kid(n.arity() - k), d));
        } else {
            lemma_first_identifier(n, (k - 1) as nat);
            if lang::elixir::first_identifier_from(n, (k - 1) as nat) is Some {
                let t = lang::elixir::first_identifier_from(n, (k - 1) as nat)->0;
                let (i, d) = choose|i: int, d: Node<'a>|
                    n.arity() - (k - 1) <= i < n.arity() && #[trigger] is_first_identifier(
                        n.kid(i),
                        d,
                    ) && t == d.txt() && forall|m: int|
                        n.arity() - (k - 1) <= m < i ==> has_no_identifier(#[trigger] n.kid(m));
                assert(is_first_identifier(n.kid(i), d));
                assert forall|m: int| n.arity() - k <= m < i implies has_no_identifier(
                    #[trigger] n.kid(m),
                ) by {
                    if m == n.arity() - k {
                    }
                }
            }
        }
    }
}

/// A parameter of Elixir that is matched against a pattern has the name that its right side
/// binds. One with a default has the name on its left.
pub proof fn elixir_matches_bind_a_name(n: Node<'_>)
    ensures
        found(&lang::elixir::MatchOperator, n) is Some ==> (n.at("right") matches Some(right)
            ==> lang::elixir::bound_name(n) == lang::elixir::first_identifier(right)),
        found(&lang::elixir::MatchOperator, n) is None && n.arity() > 0 && n.kid(0).isa("identifier")
            ==> lang::elixir::bound_name(n) == Some(n.kid(0).txt()),
        found(&lang::elixir::MatchOperator, n) is None && n.arity() > 0 && !n.kid(0).isa(
            "identifier",
        ) ==> lang::elixir::bound_name(n) is None,
{
}

/// The parameters that are asked for of an Elixir definition are those of the call that its
/// head is.
pub proof fn elixir_params_are_those_of_the_head(n: Node<'_>, args: Node<'_>)
    requires
        first(n, "arguments") == Some(args),
        args.arity() > 0,
    ensures
        args.kid(0).isa("call") ==> function_params(n, Language::Elixir)
            == lang::elixir::clause_params(args.kid(0)),
        args.kid(0).isa("binary_operator") ==> (first(args.kid(0), "call") matches Some(call)
            ==> function_params(n, Language::Elixir) == lang::elixir::clause_params(call)),
{
    reveal_strlit("call");
    reveal_strlit("binary_operator");
    assert("call"@.len() == 4);
    assert("binary_operator"@.len() == 15);
}

/// Types that a PHP function can return.
pub open spec fn is_php_type(c: Node<'_>) -> bool {
    c.isa("named_type") || c.isa("primitive_type") || c.isa("optional_type") || c.isa("union_type")
        || c.isa("intersection_type") || c.isa("name") || c.isa("qualified_name")
}

/// Whether a type stands at position `k`, just behind a colon.
pub open spec fn is_type_behind_colon(n: Node<'_>, k: int) -> bool {
    0 < k < n.arity() && n.kid(k - 1).isa(":") && is_php_type(n.kid(k))
}

proof fn lemma_php_type(n: Node<'_>, i: int, k: int, colon: bool)
    requires
        0 <= i <= k,
        is_type_behind_colon(n, k),
        colon == (i > 0 && n.kid(i - 1).isa(":")),
        forall|m: int| i <= m < k ==> !#[trigger] is_type_behind_colon(n, m),
    ensures
        lang::php::type_behind_colon(n, i, colon) == Some(n.kid(k).txt()),
    decreases k - i,
{
    reveal_strlit(":");
    reveal_strlit("named_type");
    reveal_strlit("primitive_type");
    reveal_strlit("optional_type");
    reveal_strlit("union_type");
    reveal_strlit("intersection_type");
    reveal_strlit("name");
    reveal_strlit("qualified_name");
    assert(":"@.len() == 1);
    assert("named_type"@.len() == 10);
    assert("primitive_type"@.len() == 14);
    assert("optional_type"@.len() == 13);
    assert("union_type"@.len() == 10);
    assert("intersection_type"@.len() == 17);
    assert("name"@.len() == 4);
    assert("qualified_name"@.len() == 14);
    if i < k {
        assert(!is_type_behind_colon(n, i));
        lemma_php_type(n, i + 1, k, n.kid(i).isa(":"));
    }
}

/// A PHP function without a stated return type has the first type that stands just behind a
/// colon.
pub proof fn php_return_types_may_follow_a_colon(n: Node<'_>, k: int)
    requires
        n.at("return_type") is None,
        is_type_behind_colon(n, k),
        forall|m: int| 0 <= m < k ==> !#[trigger] is_type_behind_colon(n, m),
    ensures
        lang::php::return_type(n) == Some(n.kid(k).txt()),
{
    lemma_php_type(n, 0, k, false);
}

proof fn lemma_no_php_type(n: Node<'_>, i: int, colon: bool)
    requires
        0 <= i,
        colon ==> i > 0 && i - 1 < n.arity() && n.kid(i - 1).isa(":"),
        forall|m: int| 0 <= m < n.arity() ==> !#[trigger] is_type_behind_colon(n, m),
    ensures
        lang::php::type_behind_colon(n, i, colon) is None,
    decreases n.arity() - i,
{
    if i < n.arity() {
        assert(!is_type_behind_colon(n, i));
        lemma_no_php_type(n, i + 1, n.kid(i).isa(":"));
    }
}

/// A PHP function without any type behind a colon has no return type.
pub proof fn php_functions_may_have_no_return_type(n: Node<'_>)
    requires
        n.at("return_type") is None,
        forall|m: int| 0 <= m < n.arity() ==> !#[trigger] is_type_behind_colon(n, m),
    ensures
        lang::php::return_type(n) is None,
{
    lemma_no_php_type(n, 0, false);
}

/// A specifier of Kotlin names its base by a type, or by the first type inside of it.
pub proof fn kotlin_bases_are_types(n: Node<'_>, c: Node<'_>)
    requires
        found(&lang::kotlin::BaseNode, n) == Some(c),
    ensures
        c.isa("type_identifier") ==> lang::kotlin::specified_base(n) == Some(c.txt()),
        c.isa("user_type") || c.isa("constructor_invocation") ==> lang::kotlin::specified_base(n)
            == match found(&lang::kotlin::BaseType, c) {
            Some(t) => Some(t.txt()),
            None => None,
        },
{
    reveal_strlit("type_identifier");
    reveal_strlit("user_type");
    reveal_strlit("constructor_invocation");
    assert("type_identifier"@.len() == 15);
    assert("user_type"@.len() == 9);
    assert("constructor_invocation"@.len() == 22);
}

/// Positions of what a path of OCaml names inside of its module.
pub open spec fn ocaml_leaves<'a>(n: Node<'a>) -> spec_fn(int) -> bool {
    |i: int| n.kid(i).facts().named && !n.kid(i).isa("module_path")
}

proof fn lemma_leaf<'a>(n: Node<'a>, k: nat)
    requires
        k <= n.arity(),
    ensures
        is_last(
            n,
            k as int,
            ocaml_leaves(n),
            folded_upto(&imports::ocaml::PathLeaf, None, n, k),
        ),
    decreases k,
{
    if k > 0 {
        lemma_leaf(n, (k - 1) as nat);
        lemma_last_step(
            n,
            k as int,
            ocaml_leaves(n),
            folded_upto(&imports::ocaml::PathLeaf, None, n, (k - 1) as nat),
        );
    }
}

/// A path of OCaml names its last named child that is no module.
pub proof fn ocaml_paths_name_their_last_child<'a>(n: Node<'a>)
    ensures
        is_last(
            n,
            n.arity() as int,
            ocaml_leaves(n),
            folded(&imports::ocaml::PathLeaf, None, n),
        ),
{
    lemma_leaf(n, n.arity());
}

/// A call of Lua that waits for a child or finds one stands for the child that its string
/// names.
pub proof fn lua_calls_may_name_a_child(
    n: Node<'_>,
    name: Node<'_>,
    method: Node<'_>,
    args: Node<'_>,
    literal: Node<'_>,
)
    requires
        n.isa("function_call"),
        n.at("name") == Some(name),
        name.isa("method_index_expression"),
        name.at("method") == Some(method),
        method.txt() == "WaitForChild"@ || method.txt() == "FindFirstChild"@,
        n.at("arguments") == Some(args),
        first(args, "string") == Some(literal),
    ensures
        imports::lua::module_text(n) == stripped(literal.txt(), "\"'`"@),
{
    reveal_strlit("function_call");
    reveal_strlit("string");
    reveal_strlit("identifier");
    reveal_strlit("dot_index_expression");
    reveal_strlit("bracket_index_expression");
    assert("function_call"@.len() == 13);
    assert("string"@.len() == 6);
    assert("identifier"@.len() == 10);
    assert("dot_index_expression"@.len() == 20);
    assert("bracket_index_expression"@.len() == 24);
}

/// Any other method call of Lua names no module.
pub proof fn lua_other_method_calls_name_nothing(n: Node<'_>, name: Node<'_>, method: Node<'_>)
    requires
        n.at("name") == Some(name),
        name.at("method") == Some(method),
        method.txt() != "WaitForChild"@,
        method.txt() != "FindFirstChild"@,
    ensures
        imports::lua::method_call_path(n).len() == 0,
{
}

/// A bracketed path of Lua keeps its table and its key.
pub proof fn lua_brackets_keep_their_parts(n: Node<'_>, table: Node<'_>, key: Node<'_>)
    requires
        n.isa("bracket_index_expression"),
        n.at("table") == Some(table),
        n.at("field") == Some(key),
        table.isa("identifier"),
        table.txt().len() > 0,
    ensures
        key.isa("string") ==> imports::lua::module_text(n) == table.txt() + "."@ + stripped(
            key.txt(),
            "\"'`"@,
        ),
        !key.isa("string") ==> imports::lua::module_text(n) == table.txt() + "["@ + key.txt()
            + "]"@,
{
    reveal_strlit("string");
    reveal_strlit("identifier");
    reveal_strlit("dot_index_expression");
    reveal_strlit("bracket_index_expression");
    assert("string"@.len() == 6);
    assert("identifier"@.len() == 10);
    assert("dot_index_expression"@.len() == 20);
    assert("bracket_index_expression"@.len() == 24);
    reveal_with_fuel(imports::lua::bracket_path, 2);
    reveal_with_fuel(imports::lua::path_segment, 2);
}

/// A call of `require` of Lua with a string and no brackets imports the module that it names.
pub proof fn lua_requires_may_have_no_brackets(n: Node<'_>, i: int, j: int)
    requires
        0 <= i < j < n.arity(),
        n.kid(i).isa("identifier"),
        n.kid(i).txt() == "require"@,
        n.kid(j).isa("string"),
        forall|m: int|
            0 <= m < n.arity() && m != i && m != j ==> !(#[trigger] n.kid(m)).isa("identifier")
                && !n.kid(m).isa("arguments") && !n.kid(m).isa("string"),
        stripped(n.kid(j).txt(), "\"'`"@).len() > 0,
    ensures
        imports::lua::require_import(n) matches Some(x) && x.module == stripped(
            n.kid(j).txt(),
            "\"'`"@,
        ),
{
    reveal_strlit("identifier");
    reveal_strlit("arguments");
    reveal_strlit("string");
    assert("identifier"@.len() == 10);
    assert("arguments"@.len() == 9);
    assert("string"@.len() == 6);
    let f = imports::lua::RequireParts;
    let start = (false, Seq::<char>::empty());
    lemma_skip(&f, start, n, 0, i as nat);
    lemma_skip(&f, start, n, (i + 1) as nat, j as nat);
    lemma_skip(&f, start, n, (j + 1) as nat, n.arity());
    assert(folded_upto(&f, start, n, (i + 1) as nat) == (true, start.1));
}

proof fn lemma_skip<F: Fold>(
    f: &F,
    start: <F::State as DeepView>::V,
    n: Node<'_>,
    a: nat,
    b: nat,
)
    requires
        a <= b,
        forall|i: int, s: <F::State as DeepView>::V|
            a <= i < b ==> #[trigger] f.step(s, n.kid(i)) == s,
    ensures
        folded_upto(f, start, n, b) == folded_upto(f, start, n, a),
    decreases b - a,
{
    if a < b {
        lemma_skip(f, start, n, a, (b - 1) as nat);
    }
}

/// What a text of PHP loads by a word: what stands behind the first such word, without
/// brackets, semicolon and quotes.
pub open spec fn loaded_by(text: Seq<char>, word: Seq<char>) -> Seq<char> {
    match place(text, word) {
        Some(k) => stripped(
            stripped_back(
                stripped_front(trimmed(text.skip(k + word.len())), "( "@),
                "); "@,
            ),
            "\"'"@,
        ),
        None => Seq::empty(),
    }
}

/// An expression of PHP without a literal loads what stands in its text behind
/// `require_once`, `require`, `include_once` or `include`: the first of these that has
/// something behind it.
pub proof fn php_loads_may_be_read_off_the_text(n: Node<'_>)
    requires
        imports::php::named_file(n).len() == 0,
    ensures
        ({
            let text = n.txt();
            let a = loaded_by(text, "require_once"@);
            let b = loaded_by(text, "require"@);
            let c = loaded_by(text, "include_once"@);
            let d = loaded_by(text, "include"@);
            let file = if a.len() > 0 {
                a
            } else if b.len() > 0 {
                b
            } else if c.len() > 0 {
                c
            } else {
                d
            };
            match imports::php::loaded_file(n) {
                Some(x) => x.module == file && file.len() > 0,
                None => file.len() == 0,
            }
        }),
{
}

/// A parenthesis of PHP names the file of the literal in it.
pub proof fn php_parentheses_name_their_literal(n: Node<'_>, c: Node<'_>, literal: Node<'_>)
    requires
        found(&imports::php::FileName, n) == Some(c),
        c.isa("parenthesized_expression"),
        found(&imports::php::Quoted, c) == Some(literal),
        stripped(literal.txt(), "\"'"@).len() > 0,
    ensures
        imports::php::named_file(n) == stripped(literal.txt(), "\"'"@),
{
    reveal_strlit("parenthesized_expression");
    reveal_strlit("string");
    reveal_strlit("encapsed_string");
    reveal_strlit("binary_expression");
    assert("parenthesized_expression"@.len() == 24);
    assert("string"@.len() == 6);
    assert("encapsed_string"@.len() == 15);
    assert("binary_expression"@.len() == 17);
}

/// A group of a use declaration of PHP is below the name before it.
pub proof fn php_groups_are_below_their_name(n: Node<'_>, i: int, j: int)
    requires
        0 <= i < j < n.arity(),
        n.kid(i).isa("namespace_name") || n.kid(i).isa("qualified_name") || n.kid(i).isa("name"),
        n.kid(j).isa("namespace_use_group"),
        forall|m: int|
            0 <= m < n.arity() && m != i && m != j ==> !(#[trigger] n.kid(m)).isa("namespace_name")
                && !n.kid(m).isa("qualified_name") && !n.kid(m).isa("name") && !n.kid(m).isa(
                "namespace_use_group",
            ),
    ensures
        folded(
            &imports::php::Groups { line: n.top() },
            (Seq::empty(), Seq::empty()),
            n,
        ).1 == imports::php::group_imports(
            n.kid(j),
            n.kid(i).txt(),
            n.top(),
            n.kid(j).arity(),
        ),
{
    reveal_strlit("namespace_name");
    reveal_strlit("qualified_name");
    reveal_strlit("name");
    reveal_strlit("namespace_use_group");
    assert("namespace_name"@.len() == 14);
    assert("qualified_name"@.len() == 14);
    assert("name"@.len() == 4);
    assert("namespace_use_group"@.len() == 19);
    let f = imports::php::Groups { line: n.top() };
    let start = (Seq::<char>::empty(), Seq::<crate::types::Import>::empty());
    lemma_skip(&f, start, n, 0, i as nat);
    lemma_skip(&f, start, n, (i + 1) as nat, j as nat);
    lemma_skip(&f, start, n, (j + 1) as nat, n.arity());
    assert(folded_upto(&f, start, n, (i + 1) as nat) == (n.kid(i).txt(), start.1));
}

/// A member in the braces of a use declaration of Rust: its name, without the alias.
pub open spec fn rust_member(s: Seq<char>) -> Seq<char> {
    let t = trimmed(s);
    match place(t, " as "@) {
        Some(k) => trimmed(t.take(k)),
        None => t,
    }
}

proof fn lemma_members(parts: Seq<Seq<char>>, k: nat, i: int)
    requires
        0 <= i < k <= parts.len(),
        rust_member(parts[i]).len() > 0,
    ensures
        imports::rust::member_names(parts, k).contains(rust_member(parts[i])),
    decreases k,
{
    let before = imports::rust::member_names(parts, (k - 1) as nat);
    let all = imports::rust::member_names(parts, k);
    if i < k - 1 {
        lemma_members(parts, (k - 1) as nat, i);
        let at = choose|at: int| 0 <= at < before.len() && before[at] == rust_member(parts[i]);
        assert(all[at] == rust_member(parts[i]));
    } else {
        assert(all[before.len() as int] == rust_member(parts[i]));
    }
}

/// A use declaration of Rust that is read off its text has the module before its braces,
/// without the `::`, and each member in them.
pub proof fn rust_use_texts_keep_their_members(text: Seq<char>, k: int, i: int)
    requires
        place(text, "{"@) == Some(k),
        0 <= i < pieces(stripped(text.skip(k), "{}"@), ","@).len(),
        rust_member(pieces(stripped(text.skip(k), "{}"@), ","@)[i]).len() > 0,
    ensures
        imports::rust::use_text(text).0 == ahead_all(text.take(k), "::"@),
        imports::rust::use_text(text).1.contains(
            rust_member(pieces(stripped(text.skip(k), "{}"@), ","@)[i]),
        ),
{
    let parts = pieces(stripped(text.skip(k), "{}"@), ","@);
    lemma_members(parts, parts.len(), i);
}

/// Attributes of Rust modules that are for tests.
pub open spec fn rust_test_attributes<'a>() -> spec_fn(Node<'a>) -> bool {
    |c: Node<'a>|
        c.isa("attribute_item") && (lang::rust::attribute_content(c.txt()) matches Some(s) && has(
            s,
            "cfg"@,
        ) && has(s, "test"@))
}

/// What an attribute of Rust says.
pub open spec fn rust_test_attribute<'a>() -> spec_fn(Node<'a>) -> Seq<char> {
    |c: Node<'a>| lang::rust::attribute_content(c.txt())->0
}

/// A module of Rust gives what is in it its own attributes that are for tests, the nearest
/// first.
pub proof fn rust_modules_hand_on_test_attributes<'a>(m: Node<'a>)
    requires
        m.isa("mod_item"),
    ensures
        exists|lines: Seq<Seq<char>>| #[trigger]
            are_lines_before(
                m,
                rust_preamble(),
                rust_test_attributes(),
                rust_test_attribute(),
                lines,
            ) && (place(crate::text::lower(word_at(m, "name")), "test"@) is None
                ==> lang::rust::module_marks(m) == lines.reverse()),
{
    let b = lang::rust::Attributes { tests_only: true };
    lemma_lines_before(&b, m, rust_preamble(), rust_test_attributes(), rust_test_attribute());
    let near = nearest_first(&b, m.left());
    assert(near.reverse().reverse() =~= near);
    assert(are_lines_before(
        m,
        rust_preamble(),
        rust_test_attributes(),
        rust_test_attribute(),
        near.reverse(),
    ));
}

/// The documentation of a Rust file may be a `/*!` comment at its front, as written.
pub proof fn rust_file_docs_may_be_a_block(root: Node<'_>, i: int, k: int)
    requires
        0 <= i <= k < root.arity(),
        root.kid(k).isa("block_comment"),
        begins(root.kid(k).txt(), "/*!"@),
        forall|j: int|
            0 <= j < k ==> (#[trigger] root.kid(j)).isa("line_comment") && !begins(
                root.kid(j).txt(),
                "//!"@,
            ),
    ensures
        rust_doc_from(root, i, Seq::empty()) == Some(root.kid(k).txt()),
        i == 0 ==> module_docstring(root, Language::Rust) == Some(root.kid(k).txt()),
    decreases k - i,
{
    reveal_strlit("line_comment");
    reveal_strlit("block_comment");
    assert("line_comment"@.len() == 12);
    assert("block_comment"@.len() == 13);
    if i < k {
        assert(root.kid(i).isa("line_comment") && !begins(root.kid(i).txt(), "//!"@));
        rust_file_docs_may_be_a_block(root, i + 1, k);
    }
}

/// An attribute before an import of Swift is left out.
pub proof fn swift_attributes_are_left_out(raw: Seq<char>)
    ensures
        begins(trimmed(raw), "@"@) && words(trimmed(raw).skip(1)).len() > 0
            ==> imports::swift::without_attribute(raw) == joined(
            words(trimmed(raw).skip(1)).skip(1),
            " "@,
        ),
        !begins(trimmed(raw), "@"@) ==> imports::swift::without_attribute(raw) == trimmed(raw),
{
    reveal_strlit("@");
    assert("@"@.len() == 1);
}

/// A string of Ruby without content that is required imports its text, without the quotes.
pub proof fn ruby_requires_may_have_no_content(n: Node<'_>, j: int, literal: Node<'_>)
    requires
        0 <= j < n.arity(),
        n.kid(j).isa("argument_list"),
        forall|i: int| 0 <= i < n.arity() && i != j ==> !(#[trigger] n.kid(i)).isa("argument_list"),
        first(n.kid(j), "string") == Some(literal),
        first(literal, "string_content") is None,
    ensures
        folded(&imports::ruby::StringArgument, Seq::empty(), n) == stripped(
            literal.txt(),
            "\"'`"@,
        ),
{
    let f = imports::ruby::StringArgument;
    lemma_skip(&f, Seq::empty(), n, 0, j as nat);
    lemma_skip(&f, Seq::empty(), n, (j + 1) as nat, n.arity());
}

/// The keyword `as:` of a directive of Elixir gives the alias that follows it.
pub proof fn elixir_keywords_may_give_an_alias(pair: Node<'_>, i: int, j: int)
    requires
        0 <= i < j < pair.arity(),
        pair.kid(i).isa("keyword"),
        stripped_back(trimmed(pair.kid(i).txt()), ":"@) == "as"@,
        pair.kid(j).isa("alias"),
        forall|m: int|
            0 <= m < pair.arity() && m != i && m != j ==> !(#[trigger] pair.kid(m)).isa("keyword")
                && !pair.kid(m).isa("alias"),
    ensures
        folded(&imports::elixir::PairParts, (false, None), pair).1 == Some(pair.kid(j).txt()),
{
    reveal_strlit("keyword");
    reveal_strlit("alias");
    assert("keyword"@.len() == 7);
    assert("alias"@.len() == 5);
    let f = imports::elixir::PairParts;
    let start = (false, None::<Seq<char>>);
    lemma_skip(&f, start, pair, 0, i as nat);
    lemma_skip(&f, start, pair, (i + 1) as nat, j as nat);
    lemma_skip(&f, start, pair, (j + 1) as nat, pair.arity());
    assert(folded_upto(&f, start, pair, (i + 1) as nat) == (true, start.1));
}

/// A file is refused for its base path where it or the base path does not exist, each under
/// its own name, or where it does not lie below the base path.
pub proof fn bases_are_checked_in_order(file: Seq<Seq<char>>, base: Base)
    ensures
        base.resolved_file is None ==> base_refusal(file, Some(base)) == Some(
            Refusal::PathNotFound(file),
        ),
        base.resolved_file is Some && base.resolved_base is None ==> base_refusal(file, Some(base))
            == Some(Refusal::PathNotFound(base.path.deep_view())),
        base_refusal(file, None) is None,
{
}

/// A file is refused for the first of these reasons: its base path, that it is missing, that
/// its language is not known, that it was not parsed. Else it is reported.
pub proof fn files_are_refused_in_order(
    file: Seq<Seq<char>>,
    base: Option<Base>,
    hint: Option<Language>,
    loaded: Loaded,
)
    ensures
        base_refusal(file, base) is Some ==> refusal(file, base, hint, loaded) == base_refusal(
            file,
            base,
        ),
        base_refusal(file, base) is None && loaded is Missing ==> refusal(file, base, hint, loaded)
            == Some(Refusal::PathNotFound(file)),
        base_refusal(file, base) is None && !(loaded is Missing) && file_language(file, hint)
            is None ==> refusal(file, base, hint, loaded) == Some(
            Refusal::UnsupportedLanguage(file_extension(file)),
        ),
        base_refusal(file, base) is None && file_language(file, hint) is Some && loaded is Unparsed
            ==> refusal(file, base, hint, loaded) == Some(Refusal::ParseError(file)),
        base_refusal(file, base) is None && file_language(file, hint) is Some && loaded is Parsed
            ==> refusal(file, base, hint, loaded) is None,
{
}

/// A Go or similar name is public where it begins with a capital letter.
pub proof fn capitals_are_public(name: Seq<char>)
    ensures
        name.len() > 0 && 'A' <= name[0] <= 'Z' ==> capital_visibility(name) == Some("public"@),
        name.len() > 0 && (name[0] as u32) < 0x80 && !('A' <= name[0] <= 'Z')
            ==> capital_visibility(name) == Some("private"@),
        name.len() == 0 ==> capital_visibility(name) == Some("private"@),
{
}

/// A text has the shape of a JavaScript identifier exactly where it is one letter, underscore
/// or dollar sign, with more of those and digits behind it.
pub proof fn identifiers_have_a_shape(first: char, rest: Seq<char>)
    ensures
        is_identifier(seq![first] + rest) <==> is_identifier_start(first) && forall|i: int|
            0 <= i < rest.len() ==> is_identifier_start(#[trigger] rest[i]) || '0' <= rest[i]
                <= '9',
        !is_identifier(Seq::empty()),
{
    let s = seq![first] + rest;
    assert(s[0] == first);
    if is_identifier(s) {
        assert forall|i: int| 0 <= i < rest.len() implies is_identifier_start(#[trigger] rest[i])
            || '0' <= rest[i] <= '9' by {
            assert(s[i + 1] == rest[i]);
        }
    }
    if is_identifier_start(first) && forall|i: int|
        0 <= i < rest.len() ==> is_identifier_start(#[trigger] rest[i]) || '0' <= rest[i]
            <= '9' {
        assert forall|i: int| 0 <= i < s.len() implies crate::names::begins_identifier(
            #[trigger] s[i],
        ) || '0' <= s[i] <= '9' by {
            if i > 0 {
                assert(s[i] == rest[i - 1]);
            }
        }
    }
}

/// Characters that can begin an identifier of JavaScript.
pub open spec fn is_identifier_start(c: char) -> bool {
    'a' <= c <= 'z' || 'A' <= c <= 'Z' || c == '_' || c == '$'
}

/// A returned value can have a name of ASCII letters, digits and underscores that begins with
/// a small letter or an underscore.
pub proof fn return_names_have_a_shape(first: char, rest: Seq<char>)
    ensures
        is_return_name(seq![first] + rest) <==> ('a' <= first <= 'z' || first == '_')
            && forall|i: int|
            0 <= i < rest.len() ==> 'a' <= #[trigger] rest[i] <= 'z' || 'A' <= rest[i] <= 'Z' || '0'
                <= rest[i] <= '9' || rest[i] == '_',
        !is_return_name(Seq::empty()),
{
    let s = seq![first] + rest;
    assert(s[0] == first);
    if is_return_name(s) {
        assert forall|i: int| 0 <= i < rest.len() implies 'a' <= #[trigger] rest[i] <= 'z' || 'A'
            <= rest[i] <= 'Z' || '0' <= rest[i] <= '9' || rest[i] == '_' by {
            assert(s[i + 1] == rest[i]);
        }
    }
    if ('a' <= first <= 'z' || first == '_') && forall|i: int|
        0 <= i < rest.len() ==> 'a' <= #[trigger] rest[i] <= 'z' || 'A' <= rest[i] <= 'Z' || '0'
            <= rest[i] <= '9' || rest[i] == '_' {
        assert forall|i: int| 0 <= i < s.len() implies 'a' <= #[trigger] s[i] <= 'z' || 'A' <= s[i]
            <= 'Z' || '0' <= s[i] <= '9' || s[i] == '_' by {
            if i > 0 {
                assert(s[i] == rest[i - 1]);
            }
        }
    }
}

/// A path lies at or below another where it begins with it.
pub proof fn paths_below_others_begin_with_them(path: Seq<Seq<char>>, base: Seq<Seq<char>>)
    ensures
        lies_below(path, base) <==> exists|rest: Seq<Seq<char>>| path == #[trigger] (base + rest),
{
    if lies_below(path, base) {
        assert(path =~= base + path.skip(base.len() as int));
    }
    if exists|rest: Seq<Seq<char>>| path == #[trigger] (base + rest) {
        let rest = choose|rest: Seq<Seq<char>>| path == #[trigger] (base + rest);
        assert(path.take(base.len() as int) =~= base);
    }
}

/// A type of Solidity without an identifier in it is named by its text.
pub proof fn solidity_types_may_be_named_by_their_text(n: Node<'_>)
    requires
        last_found(&lang::solidity::TypeNameNode, n) is None,
    ensures
        lang::solidity::named_type(n) == n.txt(),
{
}

/// A using directive of C# with a `name_equals` gives what stands behind it the name in it.
pub proof fn csharp_usings_may_name_an_alias(n: Node<'_>, e: int, j: int, alias: Node<'_>)
    requires
        0 <= e < j < n.arity(),
        n.kid(e).isa("name_equals"),
        first(n.kid(e), "identifier") == Some(alias),
        n.kid(j).isa("qualified_name") || n.kid(j).isa("identifier") || n.kid(j).isa("name"),
        n.kid(j).txt().len() > 0,
        forall|m: int|
            0 <= m < n.arity() && m != e && m != j ==> !is_csharp_part(#[trigger] n.kid(m)),
    ensures
        imports::csharp::using_import(n) == seq![
            import(
                n.kid(j).txt(),
                Seq::empty(),
                Some(has(n.txt(), "static"@) || has(n.txt(), "global"@)),
                Some(alias.txt()),
                n.top(),
            ),
        ],
{
    reveal_strlit("qualified_name");
    reveal_strlit("identifier");
    reveal_strlit("name");
    reveal_strlit("=");
    reveal_strlit("name_equals");
    assert("qualified_name"@.len() == 14);
    assert("identifier"@.len() == 10);
    assert("name"@.len() == 4);
    assert("="@.len() == 1);
    assert("name_equals"@.len() == 11);
    let f = imports::csharp::UsingParts;
    let start = (Seq::<char>::empty(), None::<Seq<char>>, false);
    lemma_skip(&f, start, n, 0, e as nat);
    lemma_skip(&f, start, n, (e + 1) as nat, j as nat);
    lemma_skip(&f, start, n, (j + 1) as nat, n.arity());
    assert(folded_upto(&f, start, n, (e + 1) as nat) == (
        Seq::<char>::empty(),
        Some(alias.txt()),
        true,
    ));
}

/// A wildcard of Rust takes in all of its path, below the path around it.
pub proof fn rust_wildcards_take_in_their_path(n: Node<'_>, prefix: Seq<char>)
    requires
        n.isa("use_wildcard"),
    ensures
        found(&imports::rust::GlobPath, n) matches Some(c) ==> (c.txt().len() > 0
            ==> imports::rust::use_paths(n, prefix) == seq![(path_below(prefix, c.txt()), "*"@)]),
        found(&imports::rust::GlobPath, n) is None ==> imports::rust::use_paths(n, prefix) == seq![
            (prefix, "*"@),
        ],
{
    reveal_strlit("use_list");
    reveal_strlit("scoped_identifier");
    reveal_strlit("identifier");
    reveal_strlit("scoped_use_list");
    reveal_strlit("use_as_clause");
    reveal_strlit("use_wildcard");
    assert("use_list"@.len() == 8);
    assert("scoped_identifier"@.len() == 17);
    assert("identifier"@.len() == 10);
    assert("scoped_use_list"@.len() == 15);
    assert("use_as_clause"@.len() == 13);
    assert("use_wildcard"@.len() == 12);
}

proof fn lemma_elixir_kinds()
    ensures
        "alias"@ != "dot"@,
        "alias"@ != "keywords"@,
        "dot"@ != "keywords"@,
{
    reveal_strlit("alias");
    reveal_strlit("dot");
    reveal_strlit("keywords");
    assert("alias"@.len() == 5);
    assert("dot"@.len() == 3);
    assert("keywords"@.len() == 8);
}

/// The arguments of a directive of Elixir name a module by their first alias, and give it the
/// alias that their keywords say.
pub proof fn elixir_arguments_may_have_keywords(n: Node<'_>, a: int, w: int)
    requires
        0 <= a < w < n.arity(),
        n.kid(a).isa("alias"),
        n.kid(a).txt().len() > 0,
        n.kid(w).isa("keywords"),
        forall|m: int|
            0 <= m < n.arity() && m != a && m != w ==> !(#[trigger] n.kid(m)).isa("alias")
                && !n.kid(m).isa("dot") && !n.kid(m).isa("keywords"),
    ensures
        folded(&imports::elixir::Arguments, (Seq::empty(), Seq::empty(), None), n) == (
            n.kid(a).txt(),
            Seq::<Seq<char>>::empty(),
            folded(&imports::elixir::AsKeyword, None, n.kid(w)),
        ),
{
    lemma_elixir_kinds();
    let f = imports::elixir::Arguments;
    let start = (Seq::<char>::empty(), Seq::<Seq<char>>::empty(), None::<Seq<char>>);
    lemma_skip(&f, start, n, 0, a as nat);
    lemma_skip(&f, start, n, (a + 1) as nat, w as nat);
    lemma_skip(&f, start, n, (w + 1) as nat, n.arity());
    assert(folded_upto(&f, start, n, (a + 1) as nat) == (n.kid(a).txt(), start.1, start.2));
}

/// The arguments of a directive of Elixir may name several modules by a dotted name with
/// braces.
pub proof fn elixir_arguments_may_have_braces(n: Node<'_>, j: int)
    requires
        0 <= j < n.arity(),
        n.kid(j).isa("dot"),
        forall|m: int|
            0 <= m < n.arity() && m != j ==> !(#[trigger] n.kid(m)).isa("alias") && !n.kid(m).isa(
                "dot",
            ) && !n.kid(m).isa("keywords"),
    ensures
        folded(&imports::elixir::Arguments, (Seq::empty(), Seq::empty(), None), n) == (
            Seq::<char>::empty(),
            imports::elixir::expanded(n.kid(j)),
            None::<Seq<char>>,
        ),
{
    lemma_elixir_kinds();
    let f = imports::elixir::Arguments;
    let start = (Seq::<char>::empty(), Seq::<Seq<char>>::empty(), None::<Seq<char>>);
    lemma_skip(&f, start, n, 0, j as nat);
    lemma_skip(&f, start, n, (j + 1) as nat, n.arity());
}

/// The keywords of a directive of Elixir give the alias of the pair in them.
pub proof fn elixir_keywords_are_pairs(n: Node<'_>, p: int)
    requires
        0 <= p < n.arity(),
        n.kid(p).isa("pair"),
        forall|m: int| 0 <= m < n.arity() && m != p ==> !(#[trigger] n.kid(m)).isa("pair"),
    ensures
        folded(&imports::elixir::AsKeyword, None, n) == folded(
            &imports::elixir::PairParts,
            (false, None),
            n.kid(p),
        ).1,
{
    let f = imports::elixir::AsKeyword;
    let start = None::<Seq<char>>;
    lemma_skip(&f, start, n, 0, p as nat);
    lemma_skip(&f, start, n, (p + 1) as nat, n.arity());
}

/// An impl block of Rust for any other type is for what stands before the first `<` of it.
pub proof fn rust_impls_may_be_for_other_types(n: Node<'_>, t: Node<'_>)
    requires
        n.at("type") == Some(t),
        !t.isa("type_identifier"),
        !t.isa("generic_type"),
        !t.isa("scoped_type_identifier"),
    ensures
        ({
            let name = match place(t.txt(), "<"@) {
                Some(k) => trimmed(t.txt().take(k)),
                None => trimmed(t.txt()),
            };
            lang::rust::impl_type_name(n) == if name.len() == 0 {
                None
            } else {
                Some(name)
            }
        }),
{
    reveal_strlit("<");
    assert("<"@.len() == 1);
    places_are_first(t.txt(), "<"@);
}

/// A parameter of OCaml without a pattern is named by the first value in it, and so is a typed
/// pattern without one.
pub proof fn ocaml_params_may_be_named_by_values(n: Node<'_>)
    ensures
        n.at("pattern") is None ==> lang::ocaml::param_name(n) == match found(
            &lang::ocaml::ValueName,
            n,
        ) {
            Some(v) => Some(v.txt()),
            None => None,
        },
        n.at("pattern") matches Some(p) ==> (p.isa("typed_pattern") && p.at("pattern") is None
            ==> lang::ocaml::param_name(n) == match found(&lang::ocaml::ValueName, p) {
            Some(v) => Some(v.txt()),
            None => None,
        }),
{
}

/// The parameters that are asked for of an OCaml definition are those of its first binding.
pub proof fn ocaml_definitions_have_the_params_of_their_binding(n: Node<'_>)
    requires
        !n.isa("let_binding"),
    ensures
        first(n, "let_binding") matches Some(b) ==> function_params(n, Language::Ocaml) == picked(
            &lang::ocaml::Params,
            b,
        ),
        first(n, "let_binding") is None ==> function_params(n, Language::Ocaml).len() == 0,
{
}

/// A function of C that returns a pointer is named by the declarator behind the `*`.
pub proof fn c_pointer_functions_are_named_by_their_declarators(
    n: Node<'_>,
    d: Node<'_>,
    f: Node<'_>,
    name: Node<'_>,
)
    requires
        n.at("declarator") == Some(d),
        d.isa("pointer_declarator"),
        first(d, "function_declarator") == Some(f),
        f.at("declarator") == Some(name),
    ensures
        lang::c::function_name(n) == lang::c::core_name(name),
        name.isa("identifier") ==> lang::c::function_name(n) == Some(name.txt()),
{
    reveal_strlit("pointer_declarator");
    reveal_strlit("function_declarator");
    assert("pointer_declarator"@.len() == 18);
    assert("function_declarator"@.len() == 19);
}

/// A name of C inside of pointers, references and brackets is the name that they hold.
pub proof fn c_names_are_inside_of_their_declarators(d: Node<'_>, inner: Node<'_>)
    requires
        d.isa("pointer_declarator") || d.isa("reference_declarator") || d.isa(
            "parenthesized_declarator",
        ),
        d.at("declarator") == Some(inner),
    ensures
        lang::c::core_name(d) == lang::c::core_name(inner),
{
    reveal_strlit("identifier");
    reveal_strlit("field_identifier");
    reveal_strlit("destructor_name");
    reveal_strlit("operator_name");
    reveal_strlit("qualified_identifier");
    reveal_strlit("scoped_identifier");
    reveal_strlit("pointer_declarator");
    reveal_strlit("reference_declarator");
    reveal_strlit("parenthesized_declarator");
    assert("identifier"@.len() == 10);
    assert("field_identifier"@.len() == 16);
    assert("destructor_name"@.len() == 15);
    assert("operator_name"@.len() == 13);
    assert("qualified_identifier"@.len() == 20);
    assert("qualified_identifier"@[0] == 'q');
    assert("scoped_identifier"@.len() == 17);
    assert("pointer_declarator"@.len() == 18);
    assert("reference_declarator"@.len() == 20);
    assert("reference_declarator"@[0] == 'r');
    assert("parenthesized_declarator"@.len() == 24);
    reveal_with_fuel(lang::c::core_name, 2);
}

} // verus!
