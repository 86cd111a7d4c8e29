//! What holds between languages.

use vstd::prelude::*;

use crate::call_graph::{
    callers, calls_at, calls_below, calls_of, calls_of_below, graph_upto, known_names,
};
use crate::extract::{classes_in, constants_in, function_params, functions_in, module_in, Module};
use crate::imports::imports_in;
use crate::tree::{group_tree, Node};
use crate::types::Language;

verus! {

broadcast use group_tree;

proof fn lemma_same_calls_at(n: Node<'_>, known: Seq<Seq<char>>)
    ensures
        calls_at(n, known, Language::TypeScript) == calls_at(n, known, Language::JavaScript),
    decreases n.rank(), n.arity() + 1,
{
    lemma_same_calls_below(n, known, n.arity());
}

proof fn lemma_same_calls_below(n: Node<'_>, known: Seq<Seq<char>>, k: nat)
    ensures
        calls_below(n, known, Language::TypeScript, k) == calls_below(
            n,
            known,
            Language::JavaScript,
            k,
        ),
    decreases n.rank(), k,
{
    if 0 < k && k <= n.arity() {
        lemma_same_calls_below(n, known, (k - 1) as nat);
        lemma_same_calls_at(n.kid(k - 1), known);
    }
}

proof fn lemma_same_calls_of(n: Node<'_>, name: Seq<char>, known: Seq<Seq<char>>)
    ensures
        calls_of(n, name, known, Language::TypeScript) == calls_of(
            n,
            name,
            known,
            Language::JavaScript,
        ),
    decreases n.rank(), n.arity() + 1,
{
    lemma_same_calls_at(n, known);
    lemma_same_calls_of_below(n, name, known, n.arity());
}

proof fn lemma_same_calls_of_below(n: Node<'_>, name: Seq<char>, known: Seq<Seq<char>>, k: nat)
    ensures
        calls_of_below(n, name, known, Language::TypeScript, k) == calls_of_below(
            n,
            name,
            known,
            Language::JavaScript,
            k,
        ),
    decreases n.rank(), k,
{
    if 0 < k && k <= n.arity() {
        lemma_same_calls_of_below(n, name, known, (k - 1) as nat);
        lemma_same_calls_of(n.kid(k - 1), name, known);
    }
}

proof fn lemma_same_graph(
    root: Node<'_>,
    names: Seq<Seq<char>>,
    known: Seq<Seq<char>>,
    k: nat,
)
    ensures
        graph_upto(root, names, known, Language::TypeScript, k) == graph_upto(
            root,
            names,
            known,
            Language::JavaScript,
            k,
        ),
    decreases k,
{
    if k > 0 {
        lemma_same_graph(root, names, known, (k - 1) as nat);
        lemma_same_calls_of(root, names[k - 1], known);
    }
}

/// JavaScript is read as TypeScript is: of one tree the same is reported in
/// both, but for the name of the language.
pub proof fn javascript_is_read_as_typescript(
    root: Node<'_>,
    file_path: Seq<Seq<char>>,
    base_path: Option<Seq<Seq<char>>>,
)
    ensures
        module_in(root, Language::JavaScript, file_path, base_path) == (Module {
            language: Language::JavaScript,
            ..module_in(root, Language::TypeScript, file_path, base_path)
        }),
        function_params(root, Language::JavaScript) == function_params(root, Language::TypeScript),
{
    let functions = functions_in(root, Language::TypeScript);
    let classes = classes_in(root, Language::TypeScript);
    let names = callers(functions, classes);
    lemma_same_graph(root, names, known_names(functions, classes), names.len());
}

/// C and C++ files are searched for headers alike, and Lua and Luau files for
/// modules and constants.
pub proof fn related_languages_share_imports(root: Node<'_>)
    ensures
        imports_in(root, Language::Cpp) == imports_in(root, Language::C),
        imports_in(root, Language::Luau) == imports_in(root, Language::Lua),
        constants_in(root, Language::Luau) == constants_in(root, Language::Lua),
{
}

/// C and OCaml have no classes, the constants of Java all stand in classes, and
/// only Solidity has modifiers, events and errors outside of contracts.
pub proof fn languages_report_only_what_they_have(
    root: Node<'_>,
    language: Language,
    file_path: Seq<Seq<char>>,
    base_path: Option<Seq<Seq<char>>>,
)
    ensures
        ({
            let module = module_in(root, language, file_path, base_path);
            &&& language == Language::C || language == Language::Ocaml ==> module.classes.len() == 0
            &&& language == Language::Java ==> module.constants.len() == 0
            &&& language != Language::Solidity ==> module.modifiers.len() == 0
                && module.events.len() == 0 && module.errors.len() == 0
            &&& language != Language::Python && language != Language::TypeScript && language
                != Language::JavaScript && language != Language::Rust ==> module.docstring is None
        }),
{
}

} // verus!
