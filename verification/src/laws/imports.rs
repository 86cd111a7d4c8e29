//! What holds of the imports of every file.

use vstd::prelude::*;

use crate::imports;
use crate::imports::{in_source_order, on_lines};
use crate::lists::group_lists;
use crate::text::{behind_or_all, pieces, place, stripped_back, stripped_front, trimmed};
use crate::tree::{
    at_or_below, group_tree, is_sound, is_tree, lemma_at_below, lemma_below_lines,
    lemma_below_transitive, lemma_kid_lines, lemma_lines, lemma_root_sound, line_count, Node,
    SyntaxTree,
};
use crate::types::{import, Import, ImportInfo, Language};
use crate::walk::{
    all_have, folded_upto, gathered, gathered_upto, lemma_gathered, lemma_picked, picked,
    picked_upto, Picker, Walker,
};

verus! {

broadcast use {group_tree, group_lists};

/// Whether an import is reported on the first line of a node at or below `root`.
pub open spec fn anchored<'a>(root: Node<'a>, x: Import) -> bool {
    exists|d: Node<'a>| #[trigger] at_or_below(root, d) && x.line == d.top()
}

/// [`anchored`], as a property of imports.
pub open spec fn anchors<'a>(root: Node<'a>) -> spec_fn(Import) -> bool {
    |x: Import| anchored(root, x)
}

/// Whether an import is reported on a given line.
pub open spec fn reported_on(line: u32) -> spec_fn(Import) -> bool {
    |x: Import| x.line == line
}

/// What is told of the imports of a file: each is anchored, and they stand in
/// the order of the source.
spec fn told<'a>(root: Node<'a>, s: Seq<Import>) -> bool {
    all_have(s, anchors(root)) && (is_sound(root) ==> in_source_order(s))
}

proof fn lemma_one_behind_another(a: Seq<Import>, b: Seq<Import>, low: int, mid: int, high: int)
    requires
        in_source_order(a),
        in_source_order(b),
        on_lines(a, low, mid),
        on_lines(b, mid, high),
        low <= mid <= high,
    ensures
        in_source_order(a + b),
        on_lines(a + b, low, high),
{
    let s = a + b;
    assert forall|i: int| 0 <= i < s.len() implies low <= (#[trigger] s[i]).line <= high by {
        if i < a.len() {
            assert(s[i] == a[i]);
        } else {
            assert(s[i] == b[i - a.len()]);
        }
    }
    assert forall|i: int, j: int| 0 <= i < j < s.len() implies (#[trigger] s[i]).line <= (
    #[trigger] s[j]).line by {
        if i < a.len() {
            assert(s[i] == a[i]);
        } else {
            assert(s[i] == b[i - a.len()]);
        }
        if j < a.len() {
            assert(s[j] == a[j]);
        } else {
            assert(s[j] == b[j - a.len()]);
        }
    }
}

/// Whether imports stand in order on the lines of a node.
spec fn well_placed(s: Seq<Import>, c: Node<'_>) -> bool {
    in_source_order(s) && on_lines(s, c.top() as int, c.bottom() as int)
}

proof fn lemma_on_first_line(s: Seq<Import>, c: Node<'_>)
    requires
        all_have(s, reported_on(c.top())),
    ensures
        in_source_order(s),
        on_lines(s, c.top() as int, c.top() as int),
{
    assert forall|i: int| 0 <= i < s.len() implies (#[trigger] s[i]).line == c.top() by {
        assert(reported_on(c.top())(s[i]));
    }
}

/// The last line of the first `k` children, or the first line where there are
/// none.
spec fn end_of(n: Node<'_>, k: nat) -> int {
    if k == 0 {
        n.top() as int
    } else {
        n.kid(k - 1).bottom() as int
    }
}

proof fn lemma_next_kid(n: Node<'_>, k: nat)
    requires
        is_sound(n),
        0 < k <= n.arity(),
    ensures
        is_sound(n.kid(k - 1)),
        n.top() <= end_of(n, (k - 1) as nat) <= n.kid(k - 1).top() <= n.kid(k - 1).bottom()
            <= n.bottom(),
{
    lemma_kid_lines(n, k - 1);
    lemma_lines(n.kid(k - 1));
    if k > 1 {
        lemma_kid_lines(n, k - 2);
        lemma_lines(n.kid(k - 2));
    }
}

proof fn lemma_gathered_in_order<'a, W: Walker<Item = ImportInfo>>(w: &W, n: Node<'a>, k: nat)
    requires
        is_sound(n),
        k <= n.arity(),
        forall|c: Node<'a>| is_sound(c) ==> well_placed(#[trigger] w.yields(c), c),
        forall|c: Node<'a>|
            (#[trigger] w.enters(c)) matches Some(d) ==> at_or_below(c, d) && d.rank() <= c.rank()
                && all_have(w.yields(c), reported_on(c.top())),
    ensures
        in_source_order(gathered_upto(w, n, k)),
        on_lines(gathered_upto(w, n, k), n.top() as int, end_of(n, k)),
    decreases n.rank(), k,
{
    if k > 0 {
        let c = n.kid(k - 1);
        lemma_next_kid(n, k);
        lemma_gathered_in_order(w, n, (k - 1) as nat);
        let before = gathered_upto(w, n, (k - 1) as nat);
        let own = w.yields(c);
        assert(well_placed(own, c));
        match w.enters(c) {
            Some(d) => {
                lemma_below_lines(c, d);
                lemma_on_first_line(own, c);
                lemma_gathered_in_order(w, d, d.arity());
                let below = gathered_upto(w, d, d.arity());
                lemma_lines(d);
                if d.arity() > 0 {
                    lemma_next_kid(d, d.arity());
                }
                assert(on_lines(below, c.top() as int, c.bottom() as int));
                lemma_one_behind_another(
                    own,
                    below,
                    c.top() as int,
                    c.top() as int,
                    c.bottom() as int,
                );
                assert(on_lines(before, n.top() as int, c.top() as int));
                lemma_one_behind_another(
                    before,
                    own + below,
                    n.top() as int,
                    c.top() as int,
                    c.bottom() as int,
                );
            },
            None => {
                assert(own + Seq::<Import>::empty() =~= own);
                assert(on_lines(before, n.top() as int, c.top() as int));
                lemma_one_behind_another(
                    before,
                    own,
                    n.top() as int,
                    c.top() as int,
                    c.bottom() as int,
                );
            },
        }
    }
}

proof fn lemma_picked_in_order<'a, P: Picker<Item = ImportInfo>>(q: &P, n: Node<'a>, k: nat)
    requires
        is_sound(n),
        k <= n.arity(),
        forall|c: Node<'a>| is_sound(c) ==> well_placed(#[trigger] q.picks(c), c),
    ensures
        in_source_order(picked_upto(q, n, k)),
        on_lines(picked_upto(q, n, k), n.top() as int, end_of(n, k)),
    decreases k,
{
    if k > 0 {
        let c = n.kid(k - 1);
        lemma_next_kid(n, k);
        lemma_picked_in_order(q, n, (k - 1) as nat);
        let before = picked_upto(q, n, (k - 1) as nat);
        assert(well_placed(q.picks(c), c));
        assert(on_lines(before, n.top() as int, c.top() as int));
        lemma_one_behind_another(
            before,
            q.picks(c),
            n.top() as int,
            c.top() as int,
            c.bottom() as int,
        );
    }
}

proof fn lemma_picked_well_placed<'a, P: Picker<Item = ImportInfo>>(q: &P, n: Node<'a>)
    requires
        is_sound(n),
        forall|c: Node<'a>| is_sound(c) ==> well_placed(#[trigger] q.picks(c), c),
    ensures
        well_placed(picked(q, n), n),
{
    lemma_picked_in_order(q, n, n.arity());
    lemma_lines(n);
    if n.arity() > 0 {
        lemma_next_kid(n, n.arity());
    }
}

/// What is told where each import is reported on the first line of the node
/// that makes it.
proof fn lemma_told<'a, W: Walker<Item = ImportInfo>>(w: &W, root: Node<'a>)
    requires
        forall|c: Node<'a>| all_have(#[trigger] w.yields(c), reported_on(c.top())),
        forall|c: Node<'a>|
            (#[trigger] w.enters(c)) matches Some(d) ==> at_or_below(c, d) && d.rank() <= c.rank(),
    ensures
        told(root, gathered(w, root)),
{
    assert forall|c: Node<'a>| at_or_below(root, c) implies all_have(
        #[trigger] w.yields(c),
        anchors(root),
    ) by {
        assert forall|i: int| 0 <= i < w.yields(c).len() implies anchors(root)(
            #[trigger] w.yields(c)[i],
        ) by {
            assert(reported_on(c.top())(w.yields(c)[i]));
        }
    }
    lemma_gathered(w, root, anchors(root));
    if is_sound(root) {
        assert forall|c: Node<'a>| is_sound(c) implies well_placed(#[trigger] w.yields(c), c) by {
            lemma_on_first_line(w.yields(c), c);
            lemma_lines(c);
        }
        lemma_gathered_in_order(w, root, root.arity());
    }
}

proof fn lemma_selectors(base: Seq<char>, selectors: Seq<Seq<char>>, line: u32, k: nat)
    ensures
        all_have(
            imports::scala::selector_imports(base, selectors, line, k),
            reported_on(line),
        ),
    decreases k,
{
    if k > 0 {
        lemma_selectors(base, selectors, line, (k - 1) as nat);
    }
}

proof fn lemma_directive(n: Node<'_>, k: nat)
    ensures
        all_have(imports::elixir::directive_imports(n, k), reported_on(n.top())),
    decreases k,
{
    if k > 0 {
        lemma_directive(n, (k - 1) as nat);
    }
}

proof fn lemma_group(n: Node<'_>, prefix: Seq<char>, line: u32, k: nat)
    ensures
        all_have(imports::php::group_imports(n, prefix, line, k), reported_on(line)),
    decreases k,
{
    if k > 0 {
        lemma_group(n, prefix, line, (k - 1) as nat);
    }
}

proof fn lemma_groups(n: Node<'_>, line: u32, k: nat)
    ensures
        all_have(
            folded_upto(&imports::php::Groups { line }, (Seq::empty(), Seq::empty()), n, k).1,
            reported_on(line),
        ),
    decreases k,
{
    if k > 0 {
        lemma_groups(n, line, (k - 1) as nat);
        let before = folded_upto(
            &imports::php::Groups { line },
            (Seq::empty(), Seq::empty()),
            n,
            (k - 1) as nat,
        );
        let c = n.kid(k - 1);
        lemma_group(c, before.0, line, c.arity());
    }
}

proof fn lemma_python<'a>(root: Node<'a>)
    ensures
        told(root, gathered(&imports::python::Imports, root)),
{
    let w = imports::python::Imports;
    assert forall|c: Node<'a>| all_have(#[trigger] w.yields(c), reported_on(c.top())) by {
        let line = reported_on(c.top());
        lemma_picked(&imports::python::Modules { line: c.top() }, c, line);
        lemma_picked(&imports::python::FromAliases { statement: c }, c, line);
    }
    lemma_told(&w, root);
}

proof fn lemma_typescript<'a>(root: Node<'a>)
    ensures
        told(root, gathered(&imports::typescript::Imports, root)),
{
    let w = imports::typescript::Imports;
    lemma_told(&w, root);
}

proof fn lemma_rust<'a>(root: Node<'a>)
    ensures
        told(root, gathered(&imports::rust::Imports, root)),
{
    let w = imports::rust::Imports;
    assert forall|c: Node<'a>| (#[trigger] w.enters(c)) matches Some(d) implies at_or_below(
        c,
        w.enters(c)->0,
    ) by {
        lemma_at_below(c, "body");
    }
    lemma_told(&w, root);
}

proof fn lemma_java<'a>(root: Node<'a>)
    ensures
        told(root, gathered(&imports::java::Imports, root)),
{
    let w = imports::java::Imports;
    lemma_told(&w, root);
}

proof fn lemma_c<'a>(root: Node<'a>)
    ensures
        told(root, gathered(&imports::c::Imports, root)),
{
    let w = imports::c::Imports;
    lemma_told(&w, root);
}

proof fn lemma_ruby<'a>(root: Node<'a>)
    ensures
        told(root, gathered(&imports::ruby::Imports, root)),
{
    let w = imports::ruby::Imports;
    lemma_told(&w, root);
}

proof fn lemma_csharp<'a>(root: Node<'a>)
    ensures
        told(root, gathered(&imports::csharp::Imports, root)),
{
    let w = imports::csharp::Imports;
    lemma_told(&w, root);
}

proof fn lemma_lua<'a>(root: Node<'a>)
    ensures
        told(root, gathered(&imports::lua::Imports, root)),
{
    let w = imports::lua::Imports;
    lemma_told(&w, root);
}

proof fn lemma_kotlin<'a>(root: Node<'a>)
    ensures
        told(root, gathered(&imports::kotlin::Imports, root)),
{
    let w = imports::kotlin::Imports;
    lemma_told(&w, root);
}

proof fn lemma_swift<'a>(root: Node<'a>)
    ensures
        told(root, gathered(&imports::swift::Imports, root)),
{
    let w = imports::swift::Imports;
    lemma_told(&w, root);
}

proof fn lemma_solidity<'a>(root: Node<'a>)
    ensures
        told(root, gathered(&imports::solidity::Imports, root)),
{
    let w = imports::solidity::Imports;
    lemma_told(&w, root);
}

proof fn lemma_scala<'a>(root: Node<'a>)
    ensures
        told(root, gathered(&imports::scala::Imports, root)),
{
    let w = imports::scala::Imports;
    assert forall|c: Node<'a>| all_have(#[trigger] w.yields(c), reported_on(c.top())) by {
        let text = trimmed(behind_or_all(c.txt(), "import "@));
        match place(text, "{"@) {
            Some(k) => {
                let base = stripped_back(text.take(k), "."@);
                let list = trimmed(stripped_back(stripped_front(text.skip(k), "{"@), "}"@));
                let selectors = pieces(list, ","@);
                lemma_selectors(base, selectors, c.top(), selectors.len());
            },
            None => {},
        }
    }
    lemma_told(&w, root);
}

proof fn lemma_elixir<'a>(root: Node<'a>)
    ensures
        told(root, gathered(&imports::elixir::Imports, root)),
{
    let w = imports::elixir::Imports;
    assert forall|c: Node<'a>| all_have(#[trigger] w.yields(c), reported_on(c.top())) by {
        lemma_directive(c, imports::elixir::directive_modules(c).len());
    }
    lemma_told(&w, root);
}

proof fn lemma_ocaml<'a>(root: Node<'a>)
    ensures
        told(root, gathered(&imports::ocaml::Imports, root)),
{
    let w = imports::ocaml::Imports;
    assert forall|c: Node<'a>| all_have(#[trigger] w.yields(c), reported_on(c.top())) by {
        lemma_picked(&imports::ocaml::Bindings { line: c.top() }, c, reported_on(c.top()));
    }
    lemma_told(&w, root);
}

proof fn lemma_php<'a>(root: Node<'a>)
    ensures
        told(root, gathered(&imports::php::Imports, root)),
{
    let w = imports::php::Imports;
    assert forall|c: Node<'a>| all_have(#[trigger] w.yields(c), reported_on(c.top())) by {
        lemma_groups(c, c.top(), c.arity());
        lemma_group(c, Seq::empty(), c.top(), c.arity());
        lemma_picked(&imports::php::StatementLoads { line: c.top() }, c, reported_on(c.top()));
    }
    lemma_told(&w, root);
}

proof fn lemma_anchored_at<'a>(root: Node<'a>, c: Node<'a>, s: Seq<Import>)
    requires
        at_or_below(root, c),
        all_have(s, reported_on(c.top())),
    ensures
        all_have(s, anchors(root)),
{
    assert forall|i: int| 0 <= i < s.len() implies anchors(root)(#[trigger] s[i]) by {
        assert(reported_on(c.top())(s[i]));
    }
}

proof fn lemma_go<'a>(root: Node<'a>)
    ensures
        told(root, gathered(&imports::go::Imports, root)),
{
    let w = imports::go::Imports;
    assert forall|c: Node<'a>| at_or_below(root, c) implies all_have(
        #[trigger] w.yields(c),
        anchors(root),
    ) by {
        assert forall|d: Node<'a>| at_or_below(c, d) implies all_have(
            #[trigger] imports::go::Declared.picks(d),
            anchors(root),
        ) by {
            lemma_below_transitive(root, c, d);
            if d.isa("import_spec") || !d.isa("import_spec_list") {
                lemma_anchored_at(root, d, imports::go::Declared.picks(d));
            } else {
                assert forall|e: Node<'a>| at_or_below(d, e) implies all_have(
                    #[trigger] imports::go::Specs.picks(e),
                    anchors(root),
                ) by {
                    lemma_below_transitive(root, d, e);
                    lemma_anchored_at(root, e, imports::go::Specs.picks(e));
                }
                lemma_picked(&imports::go::Specs, d, anchors(root));
            }
        }
        lemma_picked(&imports::go::Declared, c, anchors(root));
    }
    lemma_gathered(&w, root, anchors(root));
    if is_sound(root) {
        assert forall|s: Node<'a>| is_sound(s) implies well_placed(
            #[trigger] imports::go::Specs.picks(s),
            s,
        ) by {
            lemma_lines(s);
        }
        assert forall|d: Node<'a>| is_sound(d) implies well_placed(
            #[trigger] imports::go::Declared.picks(d),
            d,
        ) by {
            lemma_lines(d);
            lemma_picked_well_placed(&imports::go::Specs, d);
        }
        assert forall|c: Node<'a>| is_sound(c) implies well_placed(#[trigger] w.yields(c), c) by {
            lemma_picked_well_placed(&imports::go::Declared, c);
        }
        lemma_gathered_in_order(&w, root, root.arity());
    }
}

proof fn lemma_all_told<'a>(root: Node<'a>, language: Language)
    ensures
        told(root, imports::imports_in(root, language)),
{
    match language {
        Language::Python => lemma_python(root),
        Language::TypeScript | Language::JavaScript => lemma_typescript(root),
        Language::Go => lemma_go(root),
        Language::Rust => lemma_rust(root),
        Language::Java => lemma_java(root),
        Language::C | Language::Cpp => lemma_c(root),
        Language::Ruby => lemma_ruby(root),
        Language::CSharp => lemma_csharp(root),
        Language::Scala => lemma_scala(root),
        Language::Elixir => lemma_elixir(root),
        Language::Ocaml => lemma_ocaml(root),
        Language::Php => lemma_php(root),
        Language::Lua | Language::Luau => lemma_lua(root),
        Language::Kotlin => lemma_kotlin(root),
        Language::Swift => lemma_swift(root),
        Language::Solidity => lemma_solidity(root),
    }
}

/// Every import is reported on the line on which a node of the file starts.
pub proof fn imports_are_anchored<'a>(root: Node<'a>, language: Language)
    ensures
        all_have(imports::imports_in(root, language), anchors(root)),
{
    lemma_all_told(root, language);
}

/// The imports of a file are reported in the order of the source, on lines of
/// the source, which are numbered from 1.
pub proof fn imports_stand_in_source_order(tree: &SyntaxTree, language: Language)
    requires
        is_tree(tree.text(), tree.nodes()),
    ensures
        in_source_order(imports::imports_in(tree.root(), language)),
        on_lines(
            imports::imports_in(tree.root(), language),
            1,
            line_count(tree.text()) as int,
        ),
{
    let root = tree.root();
    let s = imports::imports_in(root, language);
    lemma_root_sound(tree);
    lemma_all_told(root, language);
    assert forall|i: int| 0 <= i < s.len() implies 1 <= (#[trigger] s[i]).line <= line_count(
        tree.text(),
    ) by {
        assert(anchors(root)(s[i]));
        let d = choose|d: Node<'_>| #[trigger] at_or_below(root, d) && s[i].line == d.top();
        lemma_below_lines(root, d);
        lemma_lines(d);
    }
}

/// Whether an import names a module.
pub open spec fn names_a_module(x: Import) -> bool {
    x.module.len() > 0
}

/// Where an import whose module cannot be told is left out, every import that
/// is reported names a module.
pub proof fn no_import_without_a_module<'a>(root: Node<'a>, language: Language)
    requires
        language == Language::Ruby || language == Language::CSharp || language == Language::Lua
            || language == Language::Luau || language == Language::Swift || language
            == Language::Kotlin || language == Language::Solidity,
    ensures
        all_have(imports::imports_in(root, language), |x: Import| names_a_module(x)),
{
    let p = |x: Import| names_a_module(x);
    match language {
        Language::Ruby => lemma_gathered(&imports::ruby::Imports, root, p),
        Language::CSharp => lemma_gathered(&imports::csharp::Imports, root, p),
        Language::Lua | Language::Luau => lemma_gathered(&imports::lua::Imports, root, p),
        Language::Swift => lemma_gathered(&imports::swift::Imports, root, p),
        Language::Kotlin => lemma_gathered(&imports::kotlin::Imports, root, p),
        Language::Solidity => lemma_gathered(&imports::solidity::Imports, root, p),
        _ => {},
    }
}

/// Whether an import names members of a module exactly where it is written
/// with `from`.
pub open spec fn names_follow_from(x: Import) -> bool {
    match x.is_from {
        Some(true) => x.names.len() > 0,
        Some(false) => x.names.len() == 0,
        None => false,
    }
}

/// In Python an import is either of a whole module, and lists no names, or is
/// written with `from`, and lists at least one.
pub proof fn python_names_follow_from<'a>(root: Node<'a>)
    ensures
        all_have(
            imports::imports_in(root, Language::Python),
            |x: Import| names_follow_from(x),
        ),
{
    let p = |x: Import| names_follow_from(x);
    let w = imports::python::Imports;
    assert forall|c: Node<'a>| at_or_below(root, c) implies all_have(#[trigger] w.yields(c), p) by {
        lemma_picked(&imports::python::Modules { line: c.top() }, c, p);
        lemma_picked(&imports::python::FromAliases { statement: c }, c, p);
    }
    lemma_gathered(&w, root, p);
}

/// In Rust a module whose body is written in place is not imported, and what
/// its body imports is reported.
pub proof fn rust_inline_modules_are_entered(c: Node<'_>)
    requires
        c.isa("mod_item"),
        c.at("body") is Some,
    ensures
        imports::rust::Imports.yields(c).len() == 0,
        imports::rust::Imports.enters(c) == c.at("body"),
{
    reveal_strlit("mod_item");
    reveal_strlit("use_declaration");
    assert("mod_item"@.len() < "use_declaration"@.len());
}

/// In C a header that is named by a macro is left out.
pub proof fn c_headers_named_by_macros_are_left_out(c: Node<'_>, path: Node<'_>)
    requires
        c.at("path") == Some(path),
        !path.isa("system_lib_string"),
        !path.isa("string_literal"),
    ensures
        imports::c::Imports.yields(c).len() == 0,
{
}

/// In TypeScript and JavaScript a call of `require` or `import` with a literal
/// is an import, and what stands inside of the call is looked at too.
pub proof fn called_modules_are_imported(c: Node<'_>, module: Seq<char>)
    requires
        c.isa("call_expression"),
        imports::typescript::required_module(c) == Some(module)
            || imports::typescript::loaded_module(c) == Some(module),
    ensures
        imports::typescript::Imports.yields(c) == seq![
            import(module, Seq::empty(), Some(true), None, c.top()),
        ],
        imports::typescript::Imports.enters(c) == Some(c),
{
    reveal_strlit("call_expression");
    reveal_strlit("import_statement");
    reveal_strlit("export_statement");
    reveal_strlit("identifier");
    reveal_strlit("import");
    assert("call_expression"@.len() < "import_statement"@.len());
    assert("call_expression"@.len() < "export_statement"@.len());
    assert("import"@.len() < "identifier"@.len());
}

/// In TypeScript and JavaScript a call of `require` is no import unless it has
/// one argument, and that is a literal.
pub proof fn other_requires_are_left_out(c: Node<'_>, f: Node<'_>)
    requires
        c.isa("call_expression"),
        c.at("function") == Some(f),
        f.isa("identifier"),
        imports::typescript::argument_list(c) matches Some(args)
            ==> (imports::typescript::only_argument(args) matches Some(a)
            ==> imports::typescript::literal_module(a) is None),
    ensures
        imports::typescript::Imports.yields(c).len() == 0,
{
    reveal_strlit("identifier");
    reveal_strlit("import");
    assert("import"@.len() < "identifier"@.len());
}

/// In Elixir a directive imports each of the modules that it names, in order
/// and all on its line.
pub proof fn elixir_directives_import_each_module(n: Node<'_>, k: nat)
    requires
        k <= imports::elixir::directive_modules(n).len(),
    ensures
        imports::elixir::directive_imports(n, k).len() == k,
        forall|i: int|
            0 <= i < k ==> (#[trigger] imports::elixir::directive_imports(n, k)[i]).module
                == imports::elixir::directive_modules(n)[i] && imports::elixir::directive_imports(
                n,
                k,
            )[i].line == n.top(),
    decreases k,
{
    if k > 0 {
        elixir_directives_import_each_module(n, (k - 1) as nat);
    }
}

} // verus!
