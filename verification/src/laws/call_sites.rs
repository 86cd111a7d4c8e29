//! Which calls of a file stand in its call graph.

use vstd::prelude::*;

use crate::call_graph::{
    call_graph, callers, calls_at, calls_below, calls_of, calls_of_below, known_names, method_names,
};
use crate::laws::calls::{calls_list_each_callee_once_in_order, called_by_is_the_inverse_of_calls};
use crate::name_map::names_under;
use crate::text::{lemma_place_from, pieces, place, place_from};
use crate::tree::{
    at_or_below, group_tree, lemma_below_index, lemma_below_transitive, lemma_kid_below,
    lemma_kid_order, lemma_under_kid, Node,
};
use crate::types::{Class, Function, Language};

verus! {

broadcast use group_tree;

/// What a node calls, as the source has it: the text of the callee of a call.
pub open spec fn called_text(d: Node<'_>, language: Language) -> Option<Seq<char>> {
    let (kind, field) = match language {
        Language::Python => ("call", "function"),
        Language::TypeScript | Language::JavaScript => ("call_expression", "function"),
        Language::Go => ("call_expression", "function"),
        Language::Rust => ("call_expression", "function"),
        Language::Java => ("method_invocation", "name"),
        _ => ("", ""),
    };
    let looked_at = match language {
        Language::Python
        | Language::TypeScript
        | Language::JavaScript
        | Language::Go
        | Language::Rust
        | Language::Java => true,
        _ => false,
    };
    match d.at(field) {
        Some(c) if looked_at && d.isa(kind) => Some(c.txt()),
        _ => None,
    }
}

/// Whether `s` is what stands behind the last dot of a text, or the text where it
/// has no dot.
pub open spec fn is_behind_last_dot(text: Seq<char>, s: Seq<char>) -> bool {
    !s.contains('.') && (text == s || exists|front: Seq<char>| text == #[trigger] (front + seq![
        '.',
    ]) + s)
}

/// Whether `name` is what a call of `text` is listed as: the part behind the last
/// dot where the file declares that name, or else the text.
pub open spec fn is_listed_as(text: Seq<char>, known: Seq<Seq<char>>, name: Seq<char>) -> bool {
    exists|s: Seq<char>| #[trigger]
        is_behind_last_dot(text, s) && name == if known.contains(s) {
            s
        } else {
            text
        }
}

proof fn lemma_no_place(s: Seq<char>, i: int, k: int)
    requires
        0 <= i <= k < s.len(),
        s[k] == '.',
    ensures
        place_from(s, seq!['.'], i) is Some,
    decreases k - i,
{
    if i < k {
        lemma_no_place(s, i + 1, k);
    } else {
        assert(s.skip(i).subrange(0, 1) =~= seq!['.']);
    }
}

proof fn lemma_last_piece(text: Seq<char>)
    ensures
        pieces(text, seq!['.']).len() > 0,
        is_behind_last_dot(text, pieces(text, seq!['.']).last()),
    decreases text.len(),
{
    let dot = seq!['.'];
    lemma_place_from(text, dot, 0);
    match place(text, dot) {
        Some(k) => {
            let rest = text.skip(k + 1);
            lemma_last_piece(rest);
            let s = pieces(rest, dot).last();
            assert(pieces(text, dot).last() == s);
            assert(text.subrange(k, k + 1)[0] == text[k]);
            if rest == s {
                assert(text =~= (text.take(k) + dot) + s);
            } else {
                let front = choose|front: Seq<char>| rest == #[trigger] (front + dot) + s;
                assert(text =~= text.take(k) + dot + rest);
                let whole = text.take(k) + dot + front;
                assert(text =~= (whole + dot) + s);
            }
        },
        None => {
            if text.contains('.') {
                let k = choose|k: int| 0 <= k < text.len() && text[k] == '.';
                lemma_no_place(text, 0, k);
            }
        },
    }
}

/// What stands behind the last dot of a text is one text.
pub proof fn last_parts_are_unique(text: Seq<char>, a: Seq<char>, b: Seq<char>)
    requires
        is_behind_last_dot(text, a),
        is_behind_last_dot(text, b),
    ensures
        a == b,
{
    lemma_shorter_part(text, a, b);
    lemma_shorter_part(text, b, a);
    assert(a =~= text.skip(text.len() - a.len()));
    assert(b =~= text.skip(text.len() - b.len()));
}

proof fn lemma_shorter_part(text: Seq<char>, a: Seq<char>, b: Seq<char>)
    requires
        is_behind_last_dot(text, a),
        is_behind_last_dot(text, b),
    ensures
        a.len() >= b.len(),
{
    if a.len() < b.len() {
        let at = text.len() - a.len() - 1;
        assert(b =~= text.skip(text.len() - b.len()));
        assert(text != a);
        assert(text[at] == '.');
        assert(b[b.len() - a.len() - 1] == '.');
    }
}

/// Whether `ds` are the calls at and below a node, at any depth and also inside
/// of other calls: each one time, in the order of the source.
pub open spec fn lists_calls<'a>(n: Node<'a>, language: Language, ds: Seq<Node<'a>>) -> bool {
    &&& forall|i: int|
        0 <= i < ds.len() ==> at_or_below(n, #[trigger] ds[i]) && called_text(ds[i], language)
            is Some
    &&& forall|i: int, j: int|
        0 <= i < j < ds.len() ==> (#[trigger] ds[i]).index() < (#[trigger] ds[j]).index()
    &&& forall|d: Node<'a>| #[trigger]
        at_or_below(n, d) && called_text(d, language) is Some ==> ds.contains(d)
}

/// Whether `names` are what the calls `ds` are listed as.
pub open spec fn names_calls<'a>(
    ds: Seq<Node<'a>>,
    known: Seq<Seq<char>>,
    language: Language,
    names: Seq<Seq<char>>,
) -> bool {
    names.len() == ds.len() && forall|i: int|
        0 <= i < ds.len() ==> is_listed_as(
            called_text(#[trigger] ds[i], language)->0,
            known,
            names[i],
        )
}

spec fn below_first<'a>(n: Node<'a>, k: nat, d: Node<'a>) -> bool {
    exists|i: int| 0 <= i < k && #[trigger] at_or_below(n.kid(i), d)
}

proof fn collect_below<'a>(n: Node<'a>, known: Seq<Seq<char>>, language: Language, k: nat) -> (ds:
    Seq<Node<'a>>)
    requires
        k <= n.arity(),
    ensures
        names_calls(ds, known, language, calls_below(n, known, language, k)),
        forall|i: int|
            0 <= i < ds.len() ==> below_first(n, k, #[trigger] ds[i]) && called_text(
                ds[i],
                language,
            ) is Some,
        forall|i: int, j: int|
            0 <= i < j < ds.len() ==> (#[trigger] ds[i]).index() < (#[trigger] ds[j]).index(),
        forall|d: Node<'a>|
            below_first(n, k, d) && (#[trigger] called_text(d, language)) is Some ==> ds.contains(
                d,
            ),
    decreases n.rank(), k,
{
    if k == 0 {
        Seq::empty()
    } else {
        let c = n.kid(k - 1);
        let before = collect_below(n, known, language, (k - 1) as nat);
        let behind = collect(c, known, language);
        let ds = before + behind;
        let names = calls_below(n, known, language, k);
        let front = calls_below(n, known, language, (k - 1) as nat);
        assert forall|i: int| 0 <= i < ds.len() implies is_listed_as(
            called_text(#[trigger] ds[i], language)->0,
            known,
            names[i],
        ) by {
            if i < before.len() {
                assert(ds[i] == before[i]);
                assert(names[i] == front[i]);
            } else {
                assert(ds[i] == behind[i - before.len()]);
                assert(names[i] == calls_at(c, known, language)[i - before.len()]);
            }
        }
        assert forall|i: int| 0 <= i < ds.len() implies below_first(n, k, #[trigger] ds[i])
            && called_text(ds[i], language) is Some by {
            if i < before.len() {
                assert(ds[i] == before[i]);
                let x = choose|x: int|
                    0 <= x < k - 1 && #[trigger] at_or_below(n.kid(x), before[i]);
                assert(at_or_below(n.kid(x), ds[i]));
            } else {
                assert(ds[i] == behind[i - before.len()]);
                assert(at_or_below(n.kid(k - 1), ds[i]));
            }
        }
        assert forall|i: int, j: int| 0 <= i < j < ds.len() implies (#[trigger] ds[i]).index() < (
        #[trigger] ds[j]).index() by {
            if j < before.len() {
                assert(ds[i] == before[i] && ds[j] == before[j]);
            } else if i >= before.len() {
                assert(ds[i] == behind[i - before.len()] && ds[j] == behind[j - before.len()]);
            } else {
                assert(ds[i] == before[i] && ds[j] == behind[j - before.len()]);
                let x = choose|x: int|
                    0 <= x < k - 1 && #[trigger] at_or_below(n.kid(x), before[i]);
                lemma_kid_order(n, x, k - 1, before[i]);
                lemma_below_index(c, ds[j]);
            }
        }
        assert forall|d: Node<'a>|
            below_first(n, k, d) && (#[trigger] called_text(d, language)) is Some implies ds.contains(
            d,
        ) by {
            let x = choose|x: int| 0 <= x < k && #[trigger] at_or_below(n.kid(x), d);
            if x < k - 1 {
                assert(below_first(n, (k - 1) as nat, d));
                let at = choose|at: int| 0 <= at < before.len() && before[at] == d;
                assert(ds[at] == d);
            } else {
                let at = choose|at: int| 0 <= at < behind.len() && behind[at] == d;
                assert(ds[before.len() + at] == d);
            }
        }
        ds
    }
}

proof fn collect<'a>(n: Node<'a>, known: Seq<Seq<char>>, language: Language) -> (ds: Seq<Node<'a>>)
    ensures
        lists_calls(n, language, ds),
        names_calls(ds, known, language, calls_at(n, known, language)),
    decreases n.rank(), n.arity() + 1,
{
    let below = collect_below(n, known, language, n.arity());
    let own = match called_text(n, language) {
        Some(text) => {
            reveal_strlit(".");
            assert("."@ =~= seq!['.']);
            lemma_last_piece(text);
            seq![n]
        },
        None => Seq::empty(),
    };
    let ds = own + below;
    let names = calls_at(n, known, language);
    assert(calls_below(n, known, language, n.arity()).len() == below.len());
    assert forall|i: int| 0 <= i < below.len() implies at_or_below(n, #[trigger] below[i])
        && n.index() < below[i].index() by {
        let x = choose|x: int| 0 <= x < n.arity() && #[trigger] at_or_below(n.kid(x), below[i]);
        lemma_kid_below(n, x);
        lemma_below_transitive(n, n.kid(x), below[i]);
        lemma_below_index(n.kid(x), below[i]);
        lemma_below_index(n, n.kid(x));
        crate::tree::lemma_parent_of_kid(n, x);
    }
    assert forall|i: int| 0 <= i < ds.len() implies is_listed_as(
        called_text(#[trigger] ds[i], language)->0,
        known,
        names[i],
    ) by {
        if i >= own.len() {
            assert(ds[i] == below[i - own.len()]);
            assert(names[i] == calls_below(n, known, language, n.arity())[i - own.len()]);
        }
    }
    assert forall|i: int| 0 <= i < ds.len() implies at_or_below(n, #[trigger] ds[i]) && called_text(
        ds[i],
        language,
    ) is Some by {
        if i >= own.len() {
            assert(ds[i] == below[i - own.len()]);
        }
    }
    assert forall|i: int, j: int| 0 <= i < j < ds.len() implies (#[trigger] ds[i]).index() < (
    #[trigger] ds[j]).index() by {
        assert(ds[j] == below[j - own.len()]);
        if i >= own.len() {
            assert(ds[i] == below[i - own.len()]);
        }
    }
    assert forall|d: Node<'a>| #[trigger]
        at_or_below(n, d) && called_text(d, language) is Some implies ds.contains(d) by {
        if d == n {
            assert(ds[0] == n);
        } else {
            let x = lemma_under_kid(n, d);
            assert(below_first(n, n.arity(), d));
            let at = choose|at: int| 0 <= at < below.len() && below[at] == d;
            assert(ds[own.len() + at] == d);
        }
    }
    ds
}

/// The calls that are collected at a node are all calls at and below it, at any
/// depth and also inside of other calls: each one time, in the order of the
/// source, under the name that it is listed as, and nothing else.
pub proof fn all_calls_are_collected<'a>(n: Node<'a>, known: Seq<Seq<char>>, language: Language)
    ensures
        exists|ds: Seq<Node<'a>>| #[trigger]
            lists_calls(n, language, ds) && names_calls(
                ds,
                known,
                language,
                calls_at(n, known, language),
            ),
{
    let ds = collect(n, known, language);
}

/// Whether a node defines the function `name`: as a declaration with that name,
/// or as a variable of that name that is given a function.
pub open spec fn is_definition(d: Node<'_>, name: Seq<char>, language: Language) -> bool {
    let declared = match language {
        Language::Python => d.isa("function_definition"),
        Language::TypeScript | Language::JavaScript => d.isa("function_declaration") || d.isa(
            "method_definition",
        ),
        Language::Go => d.isa("function_declaration") || d.isa("method_declaration"),
        Language::Rust => d.isa("function_item"),
        Language::Java => d.isa("method_declaration"),
        _ => false,
    };
    let given = d.isa("variable_declarator") && (d.at("value") matches Some(v) && (v.isa(
        "arrow_function",
    ) || v.isa("function_expression") || v.isa("function")));
    (d.at("name") matches Some(c) && c.txt() == name) && (declared || given)
}

/// Whether `x` is what some call inside of a definition of `name` is listed as,
/// where the definition stands at or below `n`.
pub open spec fn is_called_in<'a>(
    n: Node<'a>,
    name: Seq<char>,
    known: Seq<Seq<char>>,
    language: Language,
    x: Seq<char>,
) -> bool {
    exists|d: Node<'a>, c: Node<'a>|
        at_or_below(n, d) && is_definition(d, name, language) && #[trigger] at_or_below(d, c)
            && called_text(c, language) is Some && is_listed_as(
            called_text(c, language)->0,
            known,
            x,
        )
}

proof fn lemma_collected<'a>(
    n: Node<'a>,
    known: Seq<Seq<char>>,
    language: Language,
    x: Seq<char>,
)
    ensures
        calls_at(n, known, language).contains(x) <==> exists|c: Node<'a>| #[trigger]
            at_or_below(n, c) && called_text(c, language) is Some && is_listed_as(
                called_text(c, language)->0,
                known,
                x,
            ),
{
    let ds = collect(n, known, language);
    let names = calls_at(n, known, language);
    if names.contains(x) {
        let i = choose|i: int| 0 <= i < names.len() && names[i] == x;
        assert(at_or_below(n, ds[i]));
    }
    if exists|c: Node<'a>| #[trigger]
        at_or_below(n, c) && called_text(c, language) is Some && is_listed_as(
            called_text(c, language)->0,
            known,
            x,
        ) {
        let c = choose|c: Node<'a>| #[trigger]
            at_or_below(n, c) && called_text(c, language) is Some && is_listed_as(
                called_text(c, language)->0,
                known,
                x,
            );
        let text = called_text(c, language)->0;
        let i = choose|i: int| 0 <= i < ds.len() && ds[i] == c;
        assert(is_listed_as(called_text(ds[i], language)->0, known, names[i]));
        let s = choose|s: Seq<char>| #[trigger]
            is_behind_last_dot(text, s) && x == if known.contains(s) {
                s
            } else {
                text
            };
        let t = choose|t: Seq<char>| #[trigger]
            is_behind_last_dot(text, t) && names[i] == if known.contains(t) {
                t
            } else {
                text
            };
        last_parts_are_unique(text, s, t);
        assert(names[i] == x);
    }
}

proof fn lemma_called<'a>(
    n: Node<'a>,
    name: Seq<char>,
    known: Seq<Seq<char>>,
    language: Language,
    x: Seq<char>,
)
    ensures
        calls_of(n, name, known, language).contains(x) <==> is_called_in(
            n,
            name,
            known,
            language,
            x,
        ),
    decreases n.rank(), n.arity() + 1,
{
    if is_definition(n, name, language) {
        lemma_collected(n, known, language, x);
        assert(at_or_below(n, n));
        if is_called_in(n, name, known, language, x) {
            let (d, c) = choose|d: Node<'a>, c: Node<'a>|
                at_or_below(n, d) && is_definition(d, name, language) && #[trigger] at_or_below(
                    d,
                    c,
                ) && called_text(c, language) is Some && is_listed_as(
                    called_text(c, language)->0,
                    known,
                    x,
                );
            lemma_below_transitive(n, d, c);
        }
    } else {
        lemma_called_below(n, name, known, language, n.arity(), x);
        if is_called_in(n, name, known, language, x) {
            let (d, c) = choose|d: Node<'a>, c: Node<'a>|
                at_or_below(n, d) && is_definition(d, name, language) && #[trigger] at_or_below(
                    d,
                    c,
                ) && called_text(c, language) is Some && is_listed_as(
                    called_text(c, language)->0,
                    known,
                    x,
                );
            let i = lemma_under_kid(n, d);
            assert(is_called_in(n.kid(i), name, known, language, x));
        }
        if exists|i: int|
            0 <= i < n.arity() && is_called_in(#[trigger] n.kid(i), name, known, language, x) {
            let i = choose|i: int|
                0 <= i < n.arity() && is_called_in(#[trigger] n.kid(i), name, known, language, x);
            let m = n.kid(i);
            let (d, c) = choose|d: Node<'a>, c: Node<'a>|
                at_or_below(m, d) && is_definition(d, name, language) && #[trigger] at_or_below(
                    d,
                    c,
                ) && called_text(c, language) is Some && is_listed_as(
                    called_text(c, language)->0,
                    known,
                    x,
                );
            lemma_kid_below(n, i);
            lemma_below_transitive(n, m, d);
        }
    }
}

proof fn lemma_called_below<'a>(
    n: Node<'a>,
    name: Seq<char>,
    known: Seq<Seq<char>>,
    language: Language,
    k: nat,
    x: Seq<char>,
)
    requires
        k <= n.arity(),
    ensures
        calls_of_below(n, name, known, language, k).contains(x) <==> exists|i: int|
            0 <= i < k && is_called_in(#[trigger] n.kid(i), name, known, language, x),
    decreases n.rank(), k,
{
    if k > 0 {
        lemma_called_below(n, name, known, language, (k - 1) as nat, x);
        lemma_called(n.kid(k - 1), name, known, language, x);
        let before = calls_of_below(n, name, known, language, (k - 1) as nat);
        let own = calls_of(n.kid(k - 1), name, known, language);
        let all = calls_of_below(n, name, known, language, k);
        if before.contains(x) {
            let i = choose|i: int| 0 <= i < before.len() && before[i] == x;
            assert(all[i] == x);
        }
        if own.contains(x) {
            let i = choose|i: int| 0 <= i < own.len() && own[i] == x;
            assert(all[before.len() + i] == x);
        }
        if all.contains(x) {
            let i = choose|i: int| 0 <= i < all.len() && all[i] == x;
            if i < before.len() {
                assert(before[i] == x);
            } else {
                assert(own[i - before.len()] == x);
            }
        }
    }
}

/// Whether a function or a method of a class has the given name.
pub open spec fn is_declared(
    functions: Seq<Function>,
    classes: Seq<Class>,
    name: Seq<char>,
) -> bool {
    ||| exists|i: int| 0 <= i < functions.len() && (#[trigger] functions[i]).name == name
    ||| exists|i: int, j: int|
        0 <= i < classes.len() && 0 <= j < classes[i].methods.len() && (
        #[trigger] classes[i].methods[j]).name == name
}

proof fn lemma_method_names(classes: Seq<Class>, k: nat, name: Seq<char>)
    requires
        k <= classes.len(),
    ensures
        method_names(classes, k).contains(name) <==> exists|i: int, j: int|
            0 <= i < k && 0 <= j < classes[i].methods.len() && (
            #[trigger] classes[i].methods[j]).name == name,
    decreases k,
{
    if k > 0 {
        lemma_method_names(classes, (k - 1) as nat, name);
        let before = method_names(classes, (k - 1) as nat);
        let all = method_names(classes, k);
        let own = classes[k - 1].methods;
        if all.contains(name) {
            let x = choose|x: int| 0 <= x < all.len() && all[x] == name;
            if x < before.len() {
                assert(before[x] == name);
            } else {
                assert(classes[k - 1].methods[x - before.len()].name == name);
            }
        }
        if before.contains(name) {
            let x = choose|x: int| 0 <= x < before.len() && before[x] == name;
            assert(all[x] == name);
        }
        assert forall|j: int| 0 <= j < own.len() && (
        #[trigger] classes[k - 1].methods[j]).name == name implies all.contains(name) by {
            assert(all[before.len() + j] == name);
        }
    }
}

proof fn lemma_callers(functions: Seq<Function>, classes: Seq<Class>, name: Seq<char>)
    ensures
        callers(functions, classes).contains(name) <==> is_declared(functions, classes, name),
{
    let all = callers(functions, classes);
    let methods = method_names(classes, classes.len());
    lemma_method_names(classes, classes.len(), name);
    if all.contains(name) {
        let x = choose|x: int| 0 <= x < all.len() && all[x] == name;
        if x < functions.len() {
            assert(functions[x].name == name);
        } else {
            assert(methods[x - functions.len()] == name);
        }
    }
    if methods.contains(name) {
        let x = choose|x: int| 0 <= x < methods.len() && methods[x] == name;
        assert(all[functions.len() + x] == name);
    }
    assert forall|i: int| 0 <= i < functions.len() && (
    #[trigger] functions[i]).name == name implies all.contains(name) by {
        assert(all[i] == name);
    }
}

/// A name counts as declared by the file where a function, a method or a class
/// has it.
pub proof fn declared_names_are_known(
    functions: Seq<Function>,
    classes: Seq<Class>,
    name: Seq<char>,
)
    ensures
        known_names(functions, classes).contains(name) <==> is_declared(functions, classes, name)
            || exists|i: int| 0 <= i < classes.len() && (#[trigger] classes[i]).name == name,
{
    let all = known_names(functions, classes);
    let front = callers(functions, classes);
    lemma_callers(functions, classes, name);
    if all.contains(name) {
        let x = choose|x: int| 0 <= x < all.len() && all[x] == name;
        if x < front.len() {
            assert(front[x] == name);
        } else {
            assert(classes[x - front.len()].name == name);
        }
    }
    if front.contains(name) {
        let x = choose|x: int| 0 <= x < front.len() && front[x] == name;
        assert(all[x] == name);
    }
    assert forall|i: int| 0 <= i < classes.len() && (
    #[trigger] classes[i]).name == name implies all.contains(name) by {
        assert(all[front.len() + i] == name);
    }
}

/// In the call graph of a file a function or method calls exactly what the calls
/// inside of its definitions are listed as, at any depth and also inside of other
/// calls. A name that no function or method has calls nothing.
pub proof fn call_graphs_hold_all_calls<'a>(
    root: Node<'a>,
    language: Language,
    functions: Seq<Function>,
    classes: Seq<Class>,
    caller: Seq<char>,
    callee: Seq<char>,
)
    ensures
        ({
            let graph = call_graph(root, language, functions, classes);
            let known = known_names(functions, classes);
            &&& names_under(graph.calls, caller).contains(callee) <==> is_declared(
                functions,
                classes,
                caller,
            ) && is_called_in(root, caller, known, language, callee)
            &&& names_under(graph.called_by, callee).contains(caller) <==> is_declared(
                functions,
                classes,
                caller,
            ) && is_called_in(root, caller, known, language, callee)
        }),
{
    let graph = call_graph(root, language, functions, classes);
    let known = known_names(functions, classes);
    calls_list_each_callee_once_in_order(root, language, functions, classes, caller);
    called_by_is_the_inverse_of_calls(root, language, functions, classes);
    lemma_callers(functions, classes, caller);
    lemma_called(root, caller, known, language, callee);
    let called = calls_of(root, caller, known, language);
    if called.contains(callee) {
        let i = choose|i: int| 0 <= i < called.len() && called[i] == callee;
        assert(called.len() > 0);
    }
    assert(names_under(graph.calls, caller).contains(callee) <==> is_declared(
        functions,
        classes,
        caller,
    ) && called.contains(callee));
    assert(names_under(graph.calls, caller).contains(callee) <==> names_under(
        graph.called_by,
        callee,
    ).contains(caller));
}

} // verus!
