//! What a report of a file holds, and how files are told apart.

use vstd::prelude::*;

use crate::call_graph::call_graph;
use crate::extract::{
    classes_in, constants_in, function_params, functions_in, module_docstring, module_in,
};
use crate::files::{extension_of, has_tags};
use crate::grammars::{grammar_of, Grammar};
use crate::imports::imports_in;
use crate::lang;
use crate::laws::texts::{places_are_first, stands_at};
use crate::text::{pieces, place};
use crate::tree::Node;
use crate::types::{language_of, Language};
use crate::walk::{gathered, picked};

verus! {

/// A report of a file holds all that is found in it: its documentation, imports,
/// functions, classes, constants and calls.
pub proof fn reports_hold_all_that_is_found(
    root: Node<'_>,
    language: Language,
    path: Seq<Seq<char>>,
    base: Option<Seq<Seq<char>>>,
)
    ensures
        ({
            let report = module_in(root, language, path, base);
            &&& report.language == language
            &&& report.docstring == module_docstring(root, language)
            &&& report.imports == imports_in(root, language)
            &&& report.functions == functions_in(root, language)
            &&& report.classes == classes_in(root, language)
            &&& report.constants == constants_in(root, language)
            &&& report.call_graph == call_graph(root, language, report.functions, report.classes)
            &&& language == Language::Solidity ==> report.modifiers == gathered(
                &lang::solidity::FileModifiers,
                root,
            ) && report.events == gathered(&lang::solidity::FileEvents, root) && report.errors
                == gathered(&lang::solidity::FileErrors, root)
        }),
{
}

proof fn lemma_no_dot(s: Seq<char>)
    requires
        !s.contains('.'),
    ensures
        place(s, seq!['.']) is None,
{
    places_are_first(s, seq!['.']);
    if place(s, seq!['.']) is Some {
        let m = place(s, seq!['.'])->0;
        assert(s.subrange(m, m + 1)[0] == s[m]);
    }
}

proof fn lemma_first_dot(stem: Seq<char>, extension: Seq<char>)
    ensures
        place(stem + seq!['.'] + extension, seq!['.']) matches Some(k) && 0 <= k <= stem.len() && (
        stem.contains('.') <==> k < stem.len()) && (k < stem.len() ==> stem[k] == '.'),
{
    let dot = seq!['.'];
    let name = stem + dot + extension;
    let n = stem.len() as int;
    places_are_first(name, dot);
    assert(name.subrange(n, n + 1) =~= dot);
    assert(stands_at(name, dot, n));
    let k = place(name, dot)->0;
    assert(name.subrange(k, k + 1)[0] == name[k]);
    if k < n {
        assert(stem[k] == '.');
    }
    if stem.contains('.') {
        let m = choose|m: int| 0 <= m < stem.len() && stem[m] == '.';
        assert(name.subrange(m, m + 1) =~= dot);
        assert(stands_at(name, dot, m));
    }
}

proof fn lemma_pieces_of_name(stem: Seq<char>, extension: Seq<char>)
    requires
        !extension.contains('.'),
    ensures
        ({
            let parts = pieces(stem + seq!['.'] + extension, seq!['.']);
            &&& parts.len() > 1
            &&& parts.last() == extension
            &&& stem.contains('.') ==> parts.len() > 2
            &&& !stem.contains('.') ==> parts.len() == 2 && parts[0] == stem
        }),
    decreases stem.len(),
{
    let dot = seq!['.'];
    let name = stem + dot + extension;
    lemma_first_dot(stem, extension);
    let k = place(name, dot)->0;
    let rest = name.skip(k + 1);
    let tail = pieces(rest, dot);
    assert(pieces(name, dot) == seq![name.take(k)] + tail);
    if k == stem.len() {
        assert(rest =~= extension);
        lemma_no_dot(extension);
        assert(tail == seq![extension]);
        assert(name.take(k) =~= stem);
    } else {
        let behind = stem.skip(k + 1);
        assert(rest =~= behind + dot + extension);
        lemma_pieces_of_name(behind, extension);
        assert(pieces(name, dot).last() == tail.last());
    }
}

/// The extension of a file is what stands behind the last dot of its name, unless that is
/// the first character of the name.
pub proof fn extensions_stand_behind_the_last_dot(stem: Seq<char>, extension: Seq<char>)
    requires
        !extension.contains('.'),
    ensures
        stem.len() > 0 ==> extension_of(stem + seq!['.'] + extension) == Some(extension),
        stem.len() == 0 ==> extension_of(stem + seq!['.'] + extension) is None,
        extension_of(extension) is None,
{
    reveal_strlit(".");
    assert("."@ =~= seq!['.']);
    lemma_pieces_of_name(stem, extension);
    lemma_no_dot(extension);
    if stem.contains('.') {
        assert(stem.len() > 0);
    }
}

/// The extensions of the files of each language.
pub open spec fn extensions(language: Language) -> Seq<Seq<char>> {
    match language {
        Language::Python => seq!["py"@, "pyi"@],
        Language::TypeScript => seq!["ts"@, "tsx"@, "mts"@, "cts"@],
        Language::JavaScript => seq!["js"@, "jsx"@, "mjs"@, "cjs"@],
        Language::Go => seq!["go"@],
        Language::Rust => seq!["rs"@],
        Language::Java => seq!["java"@],
        Language::C => seq!["c"@, "h"@],
        Language::Cpp => seq!["cpp"@, "cc"@, "cxx"@, "hpp"@, "hh"@, "hxx"@],
        Language::Ruby => seq!["rb"@],
        Language::Php => seq!["php"@],
        Language::CSharp => seq!["cs"@],
        Language::Kotlin => seq!["kt"@, "kts"@],
        Language::Scala => seq!["scala"@, "sc"@],
        Language::Elixir => seq!["ex"@, "exs"@],
        Language::Lua => seq!["lua"@],
        Language::Luau => seq!["luau"@],
        Language::Swift => seq!["swift"@],
        Language::Ocaml => seq!["ml"@, "mli"@],
        Language::Solidity => seq!["sol"@],
    }
}

proof fn lemma_spellings()
    ensures
        "py"@.len() == 2 && "py"@[0] == 'p' && "py"@[1] == 'y',
        "pyi"@.len() == 3 && "pyi"@[0] == 'p' && "pyi"@[1] == 'y' && "pyi"@[2] == 'i',
        "ts"@.len() == 2 && "ts"@[0] == 't' && "ts"@[1] == 's',
        "tsx"@.len() == 3 && "tsx"@[0] == 't' && "tsx"@[1] == 's' && "tsx"@[2] == 'x',
        "mts"@.len() == 3 && "mts"@[0] == 'm' && "mts"@[1] == 't' && "mts"@[2] == 's',
        "cts"@.len() == 3 && "cts"@[0] == 'c' && "cts"@[1] == 't' && "cts"@[2] == 's',
        "js"@.len() == 2 && "js"@[0] == 'j' && "js"@[1] == 's',
        "jsx"@.len() == 3 && "jsx"@[0] == 'j' && "jsx"@[1] == 's' && "jsx"@[2] == 'x',
        "mjs"@.len() == 3 && "mjs"@[0] == 'm' && "mjs"@[1] == 'j' && "mjs"@[2] == 's',
        "cjs"@.len() == 3 && "cjs"@[0] == 'c' && "cjs"@[1] == 'j' && "cjs"@[2] == 's',
        "go"@.len() == 2 && "go"@[0] == 'g' && "go"@[1] == 'o',
        "rs"@.len() == 2 && "rs"@[0] == 'r' && "rs"@[1] == 's',
        "java"@.len() == 4 && "java"@[0] == 'j' && "java"@[1] == 'a' && "java"@[2] == 'v' && "java"@[3] == 'a',
        "c"@.len() == 1 && "c"@[0] == 'c',
        "h"@.len() == 1 && "h"@[0] == 'h',
        "cpp"@.len() == 3 && "cpp"@[0] == 'c' && "cpp"@[1] == 'p' && "cpp"@[2] == 'p',
        "cc"@.len() == 2 && "cc"@[0] == 'c' && "cc"@[1] == 'c',
        "cxx"@.len() == 3 && "cxx"@[0] == 'c' && "cxx"@[1] == 'x' && "cxx"@[2] == 'x',
        "hpp"@.len() == 3 && "hpp"@[0] == 'h' && "hpp"@[1] == 'p' && "hpp"@[2] == 'p',
        "hh"@.len() == 2 && "hh"@[0] == 'h' && "hh"@[1] == 'h',
        "hxx"@.len() == 3 && "hxx"@[0] == 'h' && "hxx"@[1] == 'x' && "hxx"@[2] == 'x',
        "rb"@.len() == 2 && "rb"@[0] == 'r' && "rb"@[1] == 'b',
        "php"@.len() == 3 && "php"@[0] == 'p' && "php"@[1] == 'h' && "php"@[2] == 'p',
        "cs"@.len() == 2 && "cs"@[0] == 'c' && "cs"@[1] == 's',
        "kt"@.len() == 2 && "kt"@[0] == 'k' && "kt"@[1] == 't',
        "kts"@.len() == 3 && "kts"@[0] == 'k' && "kts"@[1] == 't' && "kts"@[2] == 's',
        "scala"@.len() == 5 && "scala"@[0] == 's' && "scala"@[1] == 'c' && "scala"@[2] == 'a' && "scala"@[3] == 'l' && "scala"@[4] == 'a',
        "sc"@.len() == 2 && "sc"@[0] == 's' && "sc"@[1] == 'c',
        "ex"@.len() == 2 && "ex"@[0] == 'e' && "ex"@[1] == 'x',
        "exs"@.len() == 3 && "exs"@[0] == 'e' && "exs"@[1] == 'x' && "exs"@[2] == 's',
        "lua"@.len() == 3 && "lua"@[0] == 'l' && "lua"@[1] == 'u' && "lua"@[2] == 'a',
        "luau"@.len() == 4 && "luau"@[0] == 'l' && "luau"@[1] == 'u' && "luau"@[2] == 'a' && "luau"@[3] == 'u',
        "swift"@.len() == 5 && "swift"@[0] == 's' && "swift"@[1] == 'w' && "swift"@[2] == 'i' && "swift"@[3] == 'f' && "swift"@[4] == 't',
        "ml"@.len() == 2 && "ml"@[0] == 'm' && "ml"@[1] == 'l',
        "mli"@.len() == 3 && "mli"@[0] == 'm' && "mli"@[1] == 'l' && "mli"@[2] == 'i',
        "sol"@.len() == 3 && "sol"@[0] == 's' && "sol"@[1] == 'o' && "sol"@[2] == 'l',
{
    reveal_strlit("py");
    assert("py"@ =~= seq!['p', 'y']);
    reveal_strlit("pyi");
    assert("pyi"@ =~= seq!['p', 'y', 'i']);
    reveal_strlit("ts");
    assert("ts"@ =~= seq!['t', 's']);
    reveal_strlit("tsx");
    assert("tsx"@ =~= seq!['t', 's', 'x']);
    reveal_strlit("mts");
    assert("mts"@ =~= seq!['m', 't', 's']);
    reveal_strlit("cts");
    assert("cts"@ =~= seq!['c', 't', 's']);
    reveal_strlit("js");
    assert("js"@ =~= seq!['j', 's']);
    reveal_strlit("jsx");
    assert("jsx"@ =~= seq!['j', 's', 'x']);
    reveal_strlit("mjs");
    assert("mjs"@ =~= seq!['m', 'j', 's']);
    reveal_strlit("cjs");
    assert("cjs"@ =~= seq!['c', 'j', 's']);
    reveal_strlit("go");
    assert("go"@ =~= seq!['g', 'o']);
    reveal_strlit("rs");
    assert("rs"@ =~= seq!['r', 's']);
    reveal_strlit("java");
    assert("java"@ =~= seq!['j', 'a', 'v', 'a']);
    reveal_strlit("c");
    assert("c"@ =~= seq!['c']);
    reveal_strlit("h");
    assert("h"@ =~= seq!['h']);
    reveal_strlit("cpp");
    assert("cpp"@ =~= seq!['c', 'p', 'p']);
    reveal_strlit("cc");
    assert("cc"@ =~= seq!['c', 'c']);
    reveal_strlit("cxx");
    assert("cxx"@ =~= seq!['c', 'x', 'x']);
    reveal_strlit("hpp");
    assert("hpp"@ =~= seq!['h', 'p', 'p']);
    reveal_strlit("hh");
    assert("hh"@ =~= seq!['h', 'h']);
    reveal_strlit("hxx");
    assert("hxx"@ =~= seq!['h', 'x', 'x']);
    reveal_strlit("rb");
    assert("rb"@ =~= seq!['r', 'b']);
    reveal_strlit("php");
    assert("php"@ =~= seq!['p', 'h', 'p']);
    reveal_strlit("cs");
    assert("cs"@ =~= seq!['c', 's']);
    reveal_strlit("kt");
    assert("kt"@ =~= seq!['k', 't']);
    reveal_strlit("kts");
    assert("kts"@ =~= seq!['k', 't', 's']);
    reveal_strlit("scala");
    assert("scala"@ =~= seq!['s', 'c', 'a', 'l', 'a']);
    reveal_strlit("sc");
    assert("sc"@ =~= seq!['s', 'c']);
    reveal_strlit("ex");
    assert("ex"@ =~= seq!['e', 'x']);
    reveal_strlit("exs");
    assert("exs"@ =~= seq!['e', 'x', 's']);
    reveal_strlit("lua");
    assert("lua"@ =~= seq!['l', 'u', 'a']);
    reveal_strlit("luau");
    assert("luau"@ =~= seq!['l', 'u', 'a', 'u']);
    reveal_strlit("swift");
    assert("swift"@ =~= seq!['s', 'w', 'i', 'f', 't']);
    reveal_strlit("ml");
    assert("ml"@ =~= seq!['m', 'l']);
    reveal_strlit("mli");
    assert("mli"@ =~= seq!['m', 'l', 'i']);
    reveal_strlit("sol");
    assert("sol"@ =~= seq!['s', 'o', 'l']);
}

/// A file is in a language exactly where its extension is one of those of the language.
pub proof fn languages_are_told_by_extensions(extension: Seq<char>, language: Language)
    ensures
        language_of(extension) == Some(language) <==> extensions(language).contains(extension),
{
    let e = extensions(language);
    lemma_spellings();
    if language_of(extension) == Some(language) {
        if e.len() > 0 && e[0] == extension {
        } else if e.len() > 1 && e[1] == extension {
        } else if e.len() > 2 && e[2] == extension {
        } else if e.len() > 3 && e[3] == extension {
        } else if e.len() > 4 && e[4] == extension {
        } else {
            assert(e[5] == extension);
        }
    }
    if e.contains(extension) {
        let i = choose|i: int| 0 <= i < e.len() && e[i] == extension;
        assert(i == 0 || i == 1 || i == 2 || i == 3 || i == 4 || i == 5);
    }
}

/// No two languages share a grammar but TypeScript and JavaScript, and only those have one
/// for texts with tags.
pub proof fn languages_have_grammars_of_their_own(a: Language, b: Language, tags: bool)
    ensures
        grammar_of(a, tags) == grammar_of(b, tags) ==> a == b || ((a == Language::TypeScript || a
            == Language::JavaScript) && (b == Language::TypeScript || b == Language::JavaScript)),
        grammar_of(a, tags) == Grammar::Tsx <==> tags && (a == Language::TypeScript || a
            == Language::JavaScript),
        grammar_of(a, tags) != Grammar::Tsx ==> grammar_of(a, tags) == grammar_of(a, false),
{
}

/// A file has tags in it where its name ends in `.tsx` or `.jsx`.
pub proof fn tags_are_told_by_extensions(path: Seq<Seq<char>>, stem: Seq<char>)
    requires
        path.len() > 0,
        stem.len() > 0,
    ensures
        path.last() == stem + seq!['.'] + "tsx"@ || path.last() == stem + seq!['.'] + "jsx"@
            ==> has_tags(path),
        path.last() == stem + seq!['.'] + "ts"@ || path.last() == stem + seq!['.'] + "js"@
            ==> !has_tags(path),
{
    lemma_spellings();
    extensions_stand_behind_the_last_dot(stem, "tsx"@);
    extensions_stand_behind_the_last_dot(stem, "jsx"@);
    extensions_stand_behind_the_last_dot(stem, "ts"@);
    extensions_stand_behind_the_last_dot(stem, "js"@);
}

/// The parameters that are asked for of a node are those that are reported of it, in each
/// language.
pub proof fn params_are_asked_for_by_language(n: Node<'_>)
    ensures
        function_params(n, Language::Python) == lang::python::params(n),
        function_params(n, Language::Go) == lang::go::params(n),
        function_params(n, Language::Rust) == lang::rust::params(n),
        function_params(n, Language::Java) == lang::java::params(n),
        function_params(n, Language::C) == lang::c::params(n),
        function_params(n, Language::Cpp) == lang::c::params(n),
        function_params(n, Language::CSharp) == lang::csharp::params(n),
        function_params(n, Language::Kotlin) == lang::kotlin::params(n),
        function_params(n, Language::Scala) == picked(&lang::scala::Params, n),
        function_params(n, Language::Php) == lang::php::params(n),
        function_params(n, Language::Ruby) == lang::ruby::params(n),
        function_params(n, Language::Lua) == lang::lua::params(n, false),
        function_params(n, Language::Luau) == lang::lua::params(n, true),
        function_params(n, Language::Swift) == lang::swift::params(n),
        function_params(n, Language::Solidity) == picked(&lang::solidity::ParamNames, n),
        n.isa("let_binding") ==> function_params(n, Language::Ocaml) == picked(
            &lang::ocaml::Params,
            n,
        ),
        lang::typescript::params(n).len() > 0 ==> function_params(n, Language::TypeScript)
            == lang::typescript::params(n),
        lang::typescript::params(n).len() == 0 ==> function_params(n, Language::TypeScript)
            == lang::typescript::arrow_params(n),
{
}

} // verus!
