//! What holds of every call graph.

use vstd::prelude::*;

use crate::call_graph::{
    call_graph, callees, callers, calls_at, calls_below, calls_of, calls_of_below, graph_upto,
    known_names, noted, CallGraph,
};
use crate::name_map::{names_under, with_one};
use crate::order::{ascending, in_order, lemma_in_order, lemma_total_order};
use crate::tree::{group_tree, Node};
use crate::types::{Class, Function, Language};

verus! {

broadcast use group_tree;

/// Whether one half of a call graph is the inverse of the other.
pub open spec fn mutual(graph: CallGraph) -> bool {
    forall|caller: Seq<char>, callee: Seq<char>|
        #![trigger names_under(graph.calls, caller), names_under(graph.called_by, callee)]
        names_under(graph.calls, caller).contains(callee) <==> names_under(
            graph.called_by,
            callee,
        ).contains(caller)
}

proof fn lemma_noted(
    called_by: Map<Seq<char>, Seq<Seq<char>>>,
    caller: Seq<char>,
    list: Seq<Seq<char>>,
    k: nat,
)
    requires
        k <= list.len(),
        forall|c: Seq<char>| (#[trigger] names_under(called_by, c)).no_duplicates(),
        forall|c: Seq<char>| #[trigger] called_by.contains_key(c) ==> called_by[c].len() > 0,
    ensures
        forall|c: Seq<char>| (#[trigger] names_under(noted(called_by, caller, list, k), c)).no_duplicates(),
        forall|c: Seq<char>| #[trigger]
            noted(called_by, caller, list, k).contains_key(c) ==> noted(
                called_by,
                caller,
                list,
                k,
            )[c].len() > 0,
        forall|c: Seq<char>, x: Seq<char>| #[trigger]
            names_under(noted(called_by, caller, list, k), c).contains(x) <==> names_under(
                called_by,
                c,
            ).contains(x) || (x == caller && list.take(k as int).contains(c)),
    decreases k,
{
    if k == 0 {
        assert(list.take(0) =~= Seq::empty());
    } else {
        lemma_noted(called_by, caller, list, (k - 1) as nat);
        let before = noted(called_by, caller, list, (k - 1) as nat);
        let after = noted(called_by, caller, list, k);
        let key = list[k - 1];
        let under = names_under(before, key);
        assert(list.take(k as int) =~= list.take(k - 1).push(key));
        assert forall|c: Seq<char>| (#[trigger] names_under(after, c)).no_duplicates() by {
            if c == key {
                assert(names_under(before, c).no_duplicates());
            } else {
                assert(names_under(after, c) == names_under(before, c));
            }
        }
        assert forall|c: Seq<char>, x: Seq<char>| #[trigger]
            names_under(after, c).contains(x) <==> names_under(called_by, c).contains(x) || (x
            == caller && list.take(k as int).contains(c)) by {
            let front = list.take(k - 1);
            if c == key {
                assert(list.take(k as int)[k - 1] == key);
                assert(with_one(under, caller).contains(x) <==> under.contains(x) || x
                    == caller) by {
                    if !under.contains(caller) {
                        let longer = under + seq![caller];
                        if under.contains(x) {
                            let i = choose|i: int| 0 <= i < under.len() && under[i] == x;
                            assert(longer[i] == x);
                        }
                        assert(longer[under.len() as int] == caller);
                    }
                }
            } else {
                assert(names_under(after, c) == names_under(before, c));
                if front.contains(c) {
                    let i = choose|i: int| 0 <= i < front.len() && front[i] == c;
                    assert(list.take(k as int)[i] == c);
                }
                if list.take(k as int).contains(c) {
                    let i = choose|i: int| 0 <= i < k && list.take(k as int)[i] == c;
                    assert(front[i] == c);
                }
            }
        }
        assert forall|c: Seq<char>| #[trigger] after.contains_key(c) implies after[c].len() > 0 by {
            if c != key {
                assert(before.contains_key(c));
            } else if under.contains(caller) {
                assert(under.len() > 0);
            }
        }
    }
}

proof fn lemma_graph_upto(
    root: Node<'_>,
    names: Seq<Seq<char>>,
    known: Seq<Seq<char>>,
    language: Language,
    k: nat,
)
    requires
        k <= names.len(),
    ensures
        mutual(graph_upto(root, names, known, language, k)),
        forall|name: Seq<char>| #[trigger]
            graph_upto(root, names, known, language, k).calls.contains_key(name) <==> names.take(
                k as int,
            ).contains(name) && callees(root, name, known, language).len() > 0,
        forall|name: Seq<char>| #[trigger]
            graph_upto(root, names, known, language, k).calls.contains_key(name)
                ==> graph_upto(root, names, known, language, k).calls[name] == callees(
                root,
                name,
                known,
                language,
            ),
        forall|c: Seq<char>|
            (#[trigger] names_under(
                graph_upto(root, names, known, language, k).called_by,
                c,
            )).no_duplicates(),
        forall|c: Seq<char>| #[trigger]
            graph_upto(root, names, known, language, k).called_by.contains_key(c)
                ==> graph_upto(root, names, known, language, k).called_by[c].len() > 0,
    decreases k,
{
    if k == 0 {
        assert(names.take(0) =~= Seq::empty());
    } else {
        lemma_graph_upto(root, names, known, language, (k - 1) as nat);
        let before = graph_upto(root, names, known, language, (k - 1) as nat);
        let after = graph_upto(root, names, known, language, k);
        let name = names[k - 1];
        let list = callees(root, name, known, language);
        let front = names.take(k - 1);
        let all = names.take(k as int);
        assert forall|x: Seq<char>| #[trigger] all.contains(x) <==> front.contains(x) || x
            == name by {
            if all.contains(x) {
                let i = choose|i: int| 0 <= i < all.len() && all[i] == x;
                if i < k - 1 {
                    assert(front[i] == x);
                }
            }
            if front.contains(x) {
                let i = choose|i: int| 0 <= i < front.len() && front[i] == x;
                assert(all[i] == x);
            }
            assert(all[k - 1] == name);
        }
        if list.len() > 0 {
            lemma_noted(before.called_by, name, list, list.len());
            assert(list.take(list.len() as int) =~= list);
            assert forall|caller: Seq<char>, callee: Seq<char>|
                #![trigger names_under(after.calls, caller), names_under(after.called_by, callee)]
                names_under(after.calls, caller).contains(callee) <==> names_under(
                    after.called_by,
                    callee,
                ).contains(caller) by {
                assert(names_under(before.calls, caller).contains(callee) <==> names_under(
                    before.called_by,
                    callee,
                ).contains(caller));
                assert(names_under(after.called_by, callee).contains(caller) <==> names_under(
                    before.called_by,
                    callee,
                ).contains(caller) || (caller == name && list.contains(callee)));
                if caller == name {
                    assert(names_under(after.calls, caller) == list);
                    if before.calls.contains_key(name) {
                        assert(before.calls[name] == list);
                    }
                } else {
                    assert(names_under(after.calls, caller) == names_under(before.calls, caller));
                }
            }
        }
    }
}

/// In every call graph a name is called by exactly the functions that call it.
pub proof fn called_by_is_the_inverse_of_calls(
    root: Node<'_>,
    language: Language,
    functions: Seq<Function>,
    classes: Seq<Class>,
)
    ensures
        mutual(call_graph(root, language, functions, classes)),
{
    let names = callers(functions, classes);
    lemma_graph_upto(
        root,
        names,
        known_names(functions, classes),
        language,
        names.len(),
    );
}

/// The call graph has a list for exactly those functions and methods that call
/// something. Each list names what is called in the definitions of the
/// function, in alphabetical order and each name one time.
pub proof fn calls_list_each_callee_once_in_order(
    root: Node<'_>,
    language: Language,
    functions: Seq<Function>,
    classes: Seq<Class>,
    name: Seq<char>,
)
    ensures
        ({
            let graph = call_graph(root, language, functions, classes);
            let called = calls_of(root, name, known_names(functions, classes), language);
            &&& graph.calls.contains_key(name) <==> callers(functions, classes).contains(name)
                && called.len() > 0
            &&& graph.calls.contains_key(name) ==> ascending(graph.calls[name])
                && graph.calls[name].no_duplicates() && (forall|callee: Seq<char>|
                graph.calls[name].contains(callee) <==> #[trigger] called.contains(callee))
        }),
{
    let names = callers(functions, classes);
    let known = known_names(functions, classes);
    let called = calls_of(root, name, known, language);
    lemma_graph_upto(root, names, known, language, names.len());
    assert(names.take(names.len() as int) =~= names);
    lemma_in_order(called, called.len());
    assert(called.take(called.len() as int) =~= called);
    let list = in_order(called);
    if called.len() > 0 {
        assert(called.contains(called[0]));
        assert(list.contains(called[0]));
    } else {
        assert(list =~= Seq::empty());
    }
    assert forall|i: int, j: int| 0 <= i < j < list.len() implies list[i] != list[j] by {
        lemma_total_order(list[i], list[j]);
    }
}

/// No name has an empty list of callers, and no caller stands in one twice.
pub proof fn callers_are_listed_once(
    root: Node<'_>,
    language: Language,
    functions: Seq<Function>,
    classes: Seq<Class>,
    name: Seq<char>,
)
    ensures
        ({
            let graph = call_graph(root, language, functions, classes);
            graph.called_by.contains_key(name) ==> graph.called_by[name].len() > 0
                && graph.called_by[name].no_duplicates()
        }),
{
    let names = callers(functions, classes);
    let known = known_names(functions, classes);
    lemma_graph_upto(root, names, known, language, names.len());
    let graph = call_graph(root, language, functions, classes);
    assert(names_under(graph.called_by, name).no_duplicates());
}

/// Whether the calls of a language are looked at.
pub open spec fn has_calls(language: Language) -> bool {
    language == Language::Python || language == Language::TypeScript || language
        == Language::JavaScript || language == Language::Go || language == Language::Rust
        || language == Language::Java
}

proof fn lemma_no_calls_at(n: Node<'_>, known: Seq<Seq<char>>, language: Language)
    requires
        !has_calls(language),
    ensures
        calls_at(n, known, language).len() == 0,
    decreases n.rank(), n.arity() + 1,
{
    lemma_no_calls_below(n, known, language, n.arity());
}

proof fn lemma_no_calls_below(n: Node<'_>, known: Seq<Seq<char>>, language: Language, k: nat)
    requires
        !has_calls(language),
    ensures
        calls_below(n, known, language, k).len() == 0,
    decreases n.rank(), k,
{
    if k > 0 && k <= n.arity() {
        lemma_no_calls_below(n, known, language, (k - 1) as nat);
        lemma_no_calls_at(n.kid(k - 1), known, language);
    }
}

proof fn lemma_no_calls_of(
    n: Node<'_>,
    name: Seq<char>,
    known: Seq<Seq<char>>,
    language: Language,
)
    requires
        !has_calls(language),
    ensures
        calls_of(n, name, known, language).len() == 0,
    decreases n.rank(), n.arity() + 1,
{
    lemma_no_calls_at(n, known, language);
    lemma_no_calls_of_below(n, name, known, language, n.arity());
}

proof fn lemma_no_calls_of_below(
    n: Node<'_>,
    name: Seq<char>,
    known: Seq<Seq<char>>,
    language: Language,
    k: nat,
)
    requires
        !has_calls(language),
    ensures
        calls_of_below(n, name, known, language, k).len() == 0,
    decreases n.rank(), k,
{
    if k > 0 && k <= n.arity() {
        lemma_no_calls_of_below(n, name, known, language, (k - 1) as nat);
        lemma_no_calls_of(n.kid(k - 1), name, known, language);
    }
}

/// In a language whose calls are not looked at the call graph is empty.
pub proof fn other_languages_have_no_calls(
    root: Node<'_>,
    language: Language,
    functions: Seq<Function>,
    classes: Seq<Class>,
)
    requires
        !has_calls(language),
    ensures
        call_graph(root, language, functions, classes) == (CallGraph {
            calls: Map::empty(),
            called_by: Map::empty(),
        }),
{
    let names = callers(functions, classes);
    lemma_no_graph(root, names, known_names(functions, classes), language, names.len());
}

proof fn lemma_no_graph(
    root: Node<'_>,
    names: Seq<Seq<char>>,
    known: Seq<Seq<char>>,
    language: Language,
    k: nat,
)
    requires
        !has_calls(language),
    ensures
        graph_upto(root, names, known, language, k) == (CallGraph {
            calls: Map::empty(),
            called_by: Map::empty(),
        }),
    decreases k,
{
    if k > 0 {
        lemma_no_graph(root, names, known, language, (k - 1) as nat);
        lemma_no_calls_of(root, names[k - 1], known, language);
    }
}

} // verus!
