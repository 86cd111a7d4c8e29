//! Nothing that counts is left out of a report, wherever in the file it stands.

use vstd::prelude::*;

use crate::call_graph::calls_at;
use crate::extract::{classes_in, functions_in};
use crate::imports::imports_in;
use crate::laws::call_sites::{
    all_calls_are_collected, called_text, is_listed_as, lists_calls, names_calls,
};
use crate::laws::listing::{
    closed_by, concat, fits, fits_blocks, fits_kids, is_open, lists_kids, lists_nodes, reports_kids,
};
use crate::laws::reported_classes::{
    java_class, java_class_nodes, java_classes_are_reported,
};
use crate::laws::reported_functions::{
    is_under, java_closed, python_classes, python_closed, python_decorators, python_definition,
    python_function, python_functions, python_functions_are_reported, without_at, word_at,
};
use crate::laws::reported_imports;
use crate::laws::reported_imports::{
    imports_this, python_import, python_imports_are_reported, python_module, python_modules,
    python_nodes,
};
use crate::spans::declaration_line;
use crate::tree::{at_or_below, group_tree, Node};
use crate::types::{Import, Language};

verus! {

broadcast use group_tree;

/// Every call at or below a node is collected there, also inside of another call, under a
/// name that it is listed as.
pub proof fn calls_anywhere_are_collected<'a>(
    n: Node<'a>,
    d: Node<'a>,
    known: Seq<Seq<char>>,
    language: Language,
)
    requires
        at_or_below(n, d),
        called_text(d, language) is Some,
    ensures
        exists|i: int|
            0 <= i < calls_at(n, known, language).len() && is_listed_as(
                called_text(d, language)->0,
                known,
                #[trigger] calls_at(n, known, language)[i],
            ),
{
    all_calls_are_collected(n, known, language);
    let ds = choose|ds: Seq<Node<'a>>| #[trigger]
        lists_calls(n, language, ds) && names_calls(
            ds,
            known,
            language,
            calls_at(n, known, language),
        );
    let i = choose|i: int| 0 <= i < ds.len() && ds[i] == d;
    assert(is_listed_as(called_text(ds[i], language)->0, known, calls_at(n, known, language)[i]));
}

/// Every class, interface, enum and record below the root of a Java file is reported, at any
/// depth.
pub proof fn java_classes_anywhere_are_reported<'a>(root: Node<'a>, d: Node<'a>)
    requires
        at_or_below(root, d),
        d != root,
        d.isa("class_declaration") || d.isa("interface_declaration") || d.isa("enum_declaration")
            || d.isa("record_declaration"),
    ensures
        exists|i: int|
            0 <= i < classes_in(root, Language::Java).len() && (#[trigger] classes_in(
                root,
                Language::Java,
            )[i]).name == word_at(d, "name") && classes_in(root, Language::Java)[i].line_number
                == declaration_line(d) && classes_in(root, Language::Java)[i].line_end
                == d.bottom(),
{
    java_classes_are_reported(root);
    let r = classes_in(root, Language::Java);
    let hides = closed_by(java_closed());
    let ds = choose|ds: Seq<Node<'a>>| #[trigger]
        lists_nodes(root, hides, java_class_nodes(), ds) && fits(ds, r, java_class());
    assert(is_open(root, hides, d));
    let i = choose|i: int| 0 <= i < ds.len() && ds[i] == d;
    assert(java_class()(r[i], ds[i]));
}

/// Every function of a Python file with no class and no function above it is reported, at
/// any depth, with the decorators that it has.
pub proof fn python_functions_anywhere_are_reported<'a>(root: Node<'a>, d: Node<'a>)
    requires
        at_or_below(root, d),
        d != root,
        d.isa("function_definition"),
        !is_under(d, python_classes()),
        forall|e: Node<'a>|
            at_or_below(root, e) && #[trigger] at_or_below(e, d) && e != root && e != d
                ==> !e.isa("function_definition") && (e.isa("decorated_definition") ==> e.at(
                "definition",
            ) == Some(d)),
    ensures
        exists|i: int|
            0 <= i < functions_in(root, Language::Python).len() && (#[trigger] functions_in(
                root,
                Language::Python,
            )[i]).name == word_at(d, "name") && functions_in(root, Language::Python)[i].line_number
                == d.top() && functions_in(root, Language::Python)[i].line_end == d.bottom() && (
            d.up() matches Some(p) && p != root && p.isa("decorated_definition") ==> reports_kids(
                d.up()->0,
                python_decorators(),
                without_at(),
                functions_in(root, Language::Python)[i].decorators,
            )),
{
    python_functions_are_reported(root);
    reveal_strlit("function_definition");
    reveal_strlit("decorated_definition");
    reveal_strlit("class_definition");
    assert("function_definition"@.len() == 19);
    assert("decorated_definition"@.len() == 20);
    assert("class_definition"@.len() == 16);
    let r = functions_in(root, Language::Python);
    let hides = closed_by(python_closed());
    let ds = choose|ds: Seq<Node<'a>>| #[trigger]
        lists_nodes(root, hides, python_functions(), ds) && fits(ds, r, python_function());
    let c = if d.up() matches Some(p) && p != root && p.isa("decorated_definition") {
        d.up()->0
    } else {
        d
    };
    let p = d.up()->0;
    crate::tree::lemma_up_index(d);
    assert(at_or_below(p, p));
    assert(at_or_below(p, d));
    assert(at_or_below(root, p));
    if c != d {
        assert(c.at("definition") == Some(d));
    }
    assert(python_definition(c) == Some(d));
    assert(!is_under(c, python_classes())) by {
        if is_under(c, python_classes()) {
            let e = choose|e: Node<'a>| #[trigger]
                at_or_below(e, c) && e != c && python_classes()(e);
            crate::tree::lemma_below_transitive(e, c, d);
            crate::tree::lemma_below_index(e, c);
            crate::tree::lemma_below_index(c, d);
            assert(at_or_below(e, d) && e != d);
        }
    }
    assert(is_open(root, hides, c)) by {
        assert forall|e: Node<'a>|
            at_or_below(root, e) && #[trigger] at_or_below(e, c) && e != root && e != c implies !hides(
            e,
            c,
        ) by {
            crate::tree::lemma_below_transitive(e, c, d);
            crate::tree::lemma_below_index(e, c);
            crate::tree::lemma_below_index(c, d);
            assert(at_or_below(e, d) && e != d);
            if e.isa("decorated_definition") {
                crate::laws::listing::lemma_at_up(e, "definition");
                assert(d.up() == Some(e));
                assert(c == e);
            }
            if e.isa("class_definition") {
                assert(python_classes()(e));
                assert(is_under(d, python_classes()));
            }
        }
    }
    assert(python_functions()(c));
    let i = choose|i: int| 0 <= i < ds.len() && ds[i] == c;
    assert(python_function()(r[i], ds[i]));
}

proof fn lemma_in_concat<V>(blocks: Seq<Seq<V>>, i: int, x: V)
    requires
        0 <= i < blocks.len(),
        blocks[i].contains(x),
    ensures
        concat(blocks).contains(x),
    decreases blocks.len(),
{
    let front = concat(blocks.drop_last());
    let all = concat(blocks);
    if i < blocks.len() - 1 {
        lemma_in_concat(blocks.drop_last(), i, x);
        let at = choose|at: int| 0 <= at < front.len() && front[at] == x;
        assert(all[at] == x);
    } else {
        let at = choose|at: int| 0 <= at < blocks[i].len() && blocks[i][at] == x;
        assert(all[front.len() + at] == x);
    }
}

/// Every module that an `import` statement of Python names is reported, at any depth, under
/// its whole dotted name.
pub proof fn python_modules_anywhere_are_reported<'a>(root: Node<'a>, c: Node<'a>, k: int)
    requires
        at_or_below(root, c),
        c != root,
        c.isa("import_statement"),
        forall|e: Node<'a>|
            at_or_below(root, e) && #[trigger] at_or_below(e, c) && e != root && e != c
                ==> !python_nodes()(e),
        0 <= k < c.arity(),
        c.kid(k).isa("dotted_name"),
    ensures
        exists|i: int|
            0 <= i < imports_in(root, Language::Python).len() && imports_this(
                #[trigger] imports_in(root, Language::Python)[i],
                c.kid(k).txt(),
                Seq::empty(),
                Some(false),
                None,
                c.top(),
            ),
{
    python_imports_are_reported(root);
    let r = imports_in(root, Language::Python);
    let hides = closed_by(reported_imports::python_closed());
    let (ds, blocks) = choose|ds: Seq<Node<'a>>, blocks: Seq<Seq<Import>>|
        lists_nodes(root, hides, python_nodes(), ds) && #[trigger] fits_blocks(
            ds,
            blocks,
            python_import(),
        ) && r == concat(blocks);
    assert(is_open(root, hides, c));
    let at = choose|i: int| 0 <= i < ds.len() && ds[i] == c;
    assert(python_import()(blocks[at], ds[at]));
    let s = blocks[at];
    let ks = choose|ks: Seq<int>| #[trigger]
        lists_kids(c, python_modules(), ks) && fits_kids(c, ks, s, python_module(c.top()));
    assert(python_modules()(c.kid(k)));
    let j = choose|j: int| 0 <= j < ks.len() && ks[j] == k;
    assert(python_module(c.top())(s[j], c.kid(ks[j])));
    assert(s.contains(s[j]));
    lemma_in_concat(blocks, at, s[j]);
    let i = choose|i: int| 0 <= i < r.len() && r[i] == s[j];
    assert(imports_this(r[i], c.kid(k).txt(), Seq::empty(), Some(false), None, c.top()));
}

} // verus!
