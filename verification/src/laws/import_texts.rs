//! What the statements of a file import, by their texts and their parts.

use vstd::prelude::*;
use vstd::utf8::{
    encode_utf8, encode_utf8_decode_utf8, is_ascii_chars, is_ascii_chars_encode_utf8,
    is_ascii_chars_nat_bound,
};

use crate::imports;
use crate::laws::listing::{lemma_picked_kids, reports_kids};
use crate::laws::texts::{pieces_make_up_the_text, places_are_first, stands_at};
use crate::lists::{by_offset, group_lists, placed};
use crate::nodes::first;
use crate::text::{
    begins, ends, has, joined, pieces, place, stripped, stripped_back, stripped_front, trimmed,
    trimmed_front, words,
};
use crate::tree::{byte_slice, group_tree, Node};
use crate::types::{import, Import};
use crate::walk::{folded, folded_upto, found_from, picked, Fold};

verus! {

broadcast use {group_tree, group_lists};

proof fn lemma_fold_skip<F: Fold>(
    f: &F,
    start: <F::State as DeepView>::V,
    n: Node<'_>,
    a: nat,
    b: nat,
)
    requires
        a <= b,
        forall|i: int, s: <F::State as DeepView>::V|
            a <= i < b ==> #[trigger] f.step(s, n.kid(i)) == s,
    ensures
        folded_upto(f, start, n, b) == folded_upto(f, start, n, a),
    decreases b - a,
{
    if a < b {
        lemma_fold_skip(f, start, n, a, (b - 1) as nat);
    }
}

/// A path of Rust is its module and its last name, with `::` between them.
pub proof fn rust_paths_end_in_a_name(path: Seq<char>)
    ensures
        ({
            let (module, name) = imports::rust::module_and_name(path);
            &&& place(name, "::"@) is None
            &&& has(path, "::"@) ==> path == module + "::"@ + name
            &&& place(path, "::"@) is None ==> module.len() == 0 && name == path
        }),
{
    reveal_strlit("::");
    assert("::"@.len() == 2);
    let sep = "::"@;
    pieces_make_up_the_text(path, sep);
    places_are_first(path, sep);
    let parts = pieces(path, sep);
    assert(place(parts[parts.len() - 1], sep) is None);
    if parts.len() == 1 {
        assert(joined(parts, sep) == parts[0]);
    }
}

/// A path of Rust below another.
pub open spec fn path_below(prefix: Seq<char>, path: Seq<char>) -> Seq<char> {
    if prefix.len() == 0 {
        path
    } else {
        prefix + "::"@ + path
    }
}

proof fn lemma_use_members(
    n: Node<'_>,
    prefix: Seq<char>,
    lists_only: bool,
    k: nat,
    x: (Seq<char>, Seq<char>),
)
    requires
        k <= n.arity(),
    ensures
        imports::rust::use_paths_upto(n, prefix, lists_only, k).contains(x) <==> exists|i: int|
            0 <= i < k && (lists_only ==> (#[trigger] n.kid(i)).isa("use_list"))
                && imports::rust::use_paths(n.kid(i), prefix).contains(x),
    decreases k,
{
    if k > 0 {
        lemma_use_members(n, prefix, lists_only, (k - 1) as nat, x);
        let before = imports::rust::use_paths_upto(n, prefix, lists_only, (k - 1) as nat);
        let all = imports::rust::use_paths_upto(n, prefix, lists_only, k);
        let c = n.kid(k - 1);
        let own = if lists_only && !c.isa("use_list") {
            Seq::empty()
        } else {
            imports::rust::use_paths(c, prefix)
        };
        assert(all == before + own);
        if before.contains(x) {
            let i = choose|i: int| 0 <= i < before.len() && before[i] == x;
            assert(all[i] == x);
        }
        if own.contains(x) {
            let i = choose|i: int| 0 <= i < own.len() && own[i] == x;
            assert(all[before.len() + i] == x);
        }
        if all.contains(x) {
            let i = choose|i: int| 0 <= i < all.len() && all[i] == x;
            if i < before.len() {
                assert(before[i] == x);
            } else {
                assert(own[i - before.len()] == x);
            }
        }
        if exists|i: int|
            0 <= i < k && (lists_only ==> (#[trigger] n.kid(i)).isa("use_list"))
                && imports::rust::use_paths(n.kid(i), prefix).contains(x) {
            let i = choose|i: int|
                0 <= i < k && (lists_only ==> (#[trigger] n.kid(i)).isa("use_list"))
                    && imports::rust::use_paths(n.kid(i), prefix).contains(x);
            if i == k - 1 {
                assert(own.contains(x));
            }
        }
        if own.contains(x) {
            assert(lists_only ==> n.kid(k - 1).isa("use_list"));
        }
    }
}

proof fn lemma_use_kinds()
    ensures
        "use_list"@ != "scoped_identifier"@,
        "use_list"@ != "identifier"@,
        "use_list"@ != "scoped_use_list"@,
        "scoped_use_list"@ != "scoped_identifier"@,
        "scoped_use_list"@ != "identifier"@,
        "use_as_clause"@ != "scoped_identifier"@,
        "use_as_clause"@ != "identifier"@,
        "use_as_clause"@ != "scoped_use_list"@,
        "use_as_clause"@ != "use_list"@,
        "use_wildcard"@ != "scoped_identifier"@,
        "use_wildcard"@ != "identifier"@,
        "use_wildcard"@ != "scoped_use_list"@,
        "use_wildcard"@ != "use_list"@,
        "use_wildcard"@ != "use_as_clause"@,
        "self"@ != "scoped_identifier"@,
        "self"@ != "identifier"@,
        "self"@ != "scoped_use_list"@,
        "self"@ != "use_list"@,
        "self"@ != "use_as_clause"@,
        "self"@ != "use_wildcard"@,
{
    reveal_strlit("use_list");
    reveal_strlit("scoped_identifier");
    reveal_strlit("identifier");
    reveal_strlit("scoped_use_list");
    reveal_strlit("use_as_clause");
    reveal_strlit("use_wildcard");
    reveal_strlit("self");
    assert("use_list"@.len() == 8);
    assert("scoped_identifier"@.len() == 17);
    assert("identifier"@.len() == 10);
    assert("scoped_use_list"@.len() == 15);
    assert("use_as_clause"@.len() == 13);
    assert("use_wildcard"@.len() == 12);
    assert("self"@.len() == 4);
}

/// A use tree of Rust takes in what its leaves name, below the paths around them: a
/// list takes in exactly what its members do, and `*` all of a module.
pub proof fn rust_use_trees_take_in_their_leaves(
    n: Node<'_>,
    prefix: Seq<char>,
    x: (Seq<char>, Seq<char>),
)
    ensures
        n.isa("identifier") || n.isa("scoped_identifier") ==> (imports::rust::use_paths(
            n,
            prefix,
        ).contains(x) <==> x == imports::rust::module_and_name(path_below(prefix, n.txt()))),
        n.isa("use_list") ==> (imports::rust::use_paths(n, prefix).contains(x) <==> exists|i: int|
            0 <= i < n.arity() && imports::rust::use_paths(#[trigger] n.kid(i), prefix).contains(
                x,
            )),
        n.isa("scoped_use_list") ==> (n.at("path") matches Some(p) ==> (imports::rust::use_paths(
            n,
            prefix,
        ).contains(x) <==> exists|i: int|
            0 <= i < n.arity() && (#[trigger] n.kid(i)).isa("use_list")
                && imports::rust::use_paths(n.kid(i), path_below(prefix, p.txt())).contains(x))),
        n.isa("use_as_clause") ==> (n.at("path") matches Some(p) ==> imports::rust::use_paths(
            n,
            prefix,
        ) == imports::rust::use_paths(p, prefix)),
        n.isa("use_wildcard") ==> imports::rust::use_paths(n, prefix).len() == 1
            && imports::rust::use_paths(n, prefix)[0].1 == "*"@,
        n.isa("self") ==> imports::rust::use_paths(n, prefix) == seq![(prefix, "self"@)],
{
    lemma_use_kinds();
    if n.isa("use_list") {
        lemma_use_members(n, prefix, false, n.arity(), x);
        if exists|i: int|
            0 <= i < n.arity() && imports::rust::use_paths(#[trigger] n.kid(i), prefix).contains(
                x,
            ) {
            let i = choose|i: int|
                0 <= i < n.arity() && imports::rust::use_paths(
                    #[trigger] n.kid(i),
                    prefix,
                ).contains(x);
            assert(false ==> n.kid(i).isa("use_list"));
        }
    }
    if n.isa("scoped_use_list") && n.at("path") is Some {
        lemma_use_members(n, path_below(prefix, n.at("path")->0.txt()), true, n.arity(), x);
    }
    if n.isa("identifier") || n.isa("scoped_identifier") {
        let only = imports::rust::module_and_name(path_below(prefix, n.txt()));
        assert(seq![only][0] == only);
        if seq![only].contains(x) {
            let i = choose|i: int| 0 <= i < 1 && seq![only][i] == x;
        }
    }
}

/// A use declaration of Rust is reported with the module of the first thing that it
/// takes in, and with the names of all, in order.
pub proof fn rust_uses_list_all_names(n: Node<'_>)
    ensures
        ({
            let paths = imports::rust::use_paths(n, Seq::empty());
            let (module, names) = imports::rust::use_argument(n);
            paths.len() > 0 ==> module == paths[0].0 && names.len() == paths.len() && forall|i: int|
                0 <= i < paths.len() ==> #[trigger] names[i] == paths[i].1
        }),
{
}

/// Whether an import of TypeScript has a default name that no namespace follows.
pub open spec fn has_default(clause: Node<'_>, k: int) -> bool {
    exists|j: int|
        0 <= j < k && (#[trigger] clause.kid(j)).isa("identifier") && forall|m: int|
            j < m < k ==> !names_namespace(#[trigger] clause.kid(m))
}

/// Whether a part of an import of TypeScript names a namespace.
pub open spec fn names_namespace(c: Node<'_>) -> bool {
    c.isa("namespace_import") && first(c, "identifier") is Some
}

proof fn lemma_default(clause: Node<'_>, k: nat)
    requires
        k <= clause.arity(),
    ensures
        folded_upto(&imports::typescript::IsDefault, false, clause, k) == has_default(
            clause,
            k as int,
        ),
    decreases k,
{
    if k > 0 {
        lemma_default(clause, (k - 1) as nat);
        reveal_strlit("identifier");
        reveal_strlit("namespace_import");
        assert("identifier"@.len() == 10);
        assert("namespace_import"@.len() == 16);
        let c = clause.kid(k - 1);
        if c.isa("identifier") {
            assert(has_default(clause, k as int)) by {
                assert(clause.kid(k - 1).isa("identifier"));
            }
        } else if names_namespace(c) {
            if has_default(clause, k as int) {
                let j = choose|j: int|
                    0 <= j < k && (#[trigger] clause.kid(j)).isa("identifier") && forall|m: int|
                        j < m < k ==> !names_namespace(#[trigger] clause.kid(m));
                assert(!names_namespace(clause.kid(k - 1)));
            }
        } else {
            if has_default(clause, k - 1) {
                let j = choose|j: int|
                    0 <= j < k - 1 && (#[trigger] clause.kid(j)).isa("identifier") && forall|m: int|
                        j < m < k - 1 ==> !names_namespace(#[trigger] clause.kid(m));
                assert(clause.kid(j).isa("identifier"));
            }
            if has_default(clause, k as int) {
                let j = choose|j: int|
                    0 <= j < k && (#[trigger] clause.kid(j)).isa("identifier") && forall|m: int|
                        j < m < k ==> !names_namespace(#[trigger] clause.kid(m));
                assert(clause.kid(j).isa("identifier"));
            }
        }
    }
}

/// An import of TypeScript takes names out of a module unless it has a default name that
/// no namespace follows.
pub proof fn typescript_default_imports_are_told(clause: Node<'_>)
    ensures
        folded(&imports::typescript::IsDefault, false, clause) == has_default(
            clause,
            clause.arity() as int,
        ),
{
    lemma_default(clause, clause.arity());
}

/// A call of Ruby that requires a string imports the content of that string.
pub proof fn ruby_requires_import_their_string(
    n: Node<'_>,
    j: int,
    literal: Node<'_>,
    content: Node<'_>,
)
    requires
        0 <= j < n.arity(),
        n.kid(j).isa("argument_list"),
        forall|i: int| 0 <= i < n.arity() && i != j ==> !(#[trigger] n.kid(i)).isa("argument_list"),
        first(n.kid(j), "string") == Some(literal),
        first(literal, "string_content") == Some(content),
        content.txt().len() > 0,
    ensures
        folded(&imports::ruby::StringArgument, Seq::empty(), n) == content.txt(),
{
    let f = imports::ruby::StringArgument;
    lemma_fold_skip(&f, Seq::empty(), n, 0, j as nat);
    lemma_fold_skip(&f, Seq::empty(), n, (j + 1) as nat, n.arity());
}

/// Whether a child of a using directive of C# is a name.
pub open spec fn is_csharp_name(c: Node<'_>) -> bool {
    c.isa("qualified_name") || c.isa("identifier") || c.isa("name")
}

/// Whether a child of a using directive of C# says something.
pub open spec fn is_csharp_part(c: Node<'_>) -> bool {
    is_csharp_name(c) || c.isa("=") || c.isa("name_equals")
}

proof fn lemma_csharp_kinds(c: Node<'_>)
    ensures
        is_csharp_name(c) ==> !c.isa("=") && !c.isa("name_equals"),
        c.isa("=") ==> !c.isa("name_equals"),
{
    reveal_strlit("qualified_name");
    reveal_strlit("identifier");
    reveal_strlit("name");
    reveal_strlit("=");
    reveal_strlit("name_equals");
    assert("qualified_name"@.len() == 14);
    assert("identifier"@.len() == 10);
    assert("name"@.len() == 4);
    assert("="@.len() == 1);
    assert("name_equals"@.len() == 11);
}

/// A using directive of C# imports the namespace that it names.
pub proof fn csharp_usings_import_their_namespace(n: Node<'_>, j: int)
    requires
        0 <= j < n.arity(),
        is_csharp_name(n.kid(j)),
        n.kid(j).txt().len() > 0,
        forall|i: int| 0 <= i < n.arity() && i != j ==> !is_csharp_part(#[trigger] n.kid(i)),
    ensures
        imports::csharp::using_import(n) == seq![
            import(
                n.kid(j).txt(),
                Seq::empty(),
                Some(has(n.txt(), "static"@) || has(n.txt(), "global"@)),
                None,
                n.top(),
            ),
        ],
{
    let f = imports::csharp::UsingParts;
    let start = (Seq::<char>::empty(), None::<Seq<char>>, false);
    lemma_csharp_kinds(n.kid(j));
    lemma_fold_skip(&f, start, n, 0, j as nat);
    lemma_fold_skip(&f, start, n, (j + 1) as nat, n.arity());
}

/// A using directive of C# with an `=` gives what stands behind it the name before it.
pub proof fn csharp_usings_may_give_an_alias(n: Node<'_>, i: int, e: int, j: int)
    requires
        0 <= i < e < j < n.arity(),
        is_csharp_name(n.kid(i)),
        n.kid(i).txt().len() > 0,
        n.kid(e).isa("="),
        is_csharp_name(n.kid(j)),
        n.kid(j).txt().len() > 0,
        forall|m: int|
            0 <= m < n.arity() && m != i && m != e && m != j ==> !is_csharp_part(
                #[trigger] n.kid(m),
            ),
    ensures
        imports::csharp::using_import(n) == seq![
            import(
                n.kid(j).txt(),
                Seq::empty(),
                Some(has(n.txt(), "static"@) || has(n.txt(), "global"@)),
                Some(n.kid(i).txt()),
                n.top(),
            ),
        ],
{
    let f = imports::csharp::UsingParts;
    let start = (Seq::<char>::empty(), None::<Seq<char>>, false);
    lemma_csharp_kinds(n.kid(i));
    lemma_csharp_kinds(n.kid(e));
    lemma_csharp_kinds(n.kid(j));
    lemma_fold_skip(&f, start, n, 0, i as nat);
    lemma_fold_skip(&f, start, n, (i + 1) as nat, e as nat);
    lemma_fold_skip(&f, start, n, (e + 1) as nat, j as nat);
    lemma_fold_skip(&f, start, n, (j + 1) as nat, n.arity());
    let a = folded_upto(&f, start, n, (i + 1) as nat);
    assert(a == (n.kid(i).txt(), None::<Seq<char>>, false));
    let b = folded_upto(&f, start, n, (e + 1) as nat);
    assert(b == (Seq::<char>::empty(), Some(n.kid(i).txt()), true));
}

/// An import of Scala without braces imports the whole name, or all that is in it where
/// it ends in `._`.
pub proof fn scala_imports_without_braces(text: Seq<char>, line: u32)
    requires
        place(text, "{"@) is None,
    ensures
        forall|base: Seq<char>|
            text == #[trigger] (base + "._"@) ==> imports::scala::text_imports(text, line) == seq![
                import(base, seq!["*"@], Some(true), None, line),
            ],
        !ends(text, "._"@) ==> imports::scala::text_imports(text, line) == seq![
            import(text, Seq::empty(), Some(false), None, line),
        ],
{
    reveal_strlit("._");
    assert("._"@.len() == 2);
    assert forall|base: Seq<char>|
        text == #[trigger] (base + "._"@) implies imports::scala::text_imports(text, line) == seq![
        import(base, seq!["*"@], Some(true), None, line),
    ] by {
        assert(text.subrange(text.len() - 2, text.len() as int) =~= "._"@);
        assert(text.take(text.len() - 2) =~= base);
    }
}

/// A member of a package of Scala.
pub open spec fn scala_member(base: Seq<char>, name: Seq<char>) -> Seq<char> {
    if base.len() == 0 {
        name
    } else {
        base + "."@ + name
    }
}

proof fn lemma_selectors(
    base: Seq<char>,
    selectors: Seq<Seq<char>>,
    line: u32,
    k: nat,
    i: int,
    x: Import,
)
    requires
        0 <= i < k <= selectors.len(),
        imports::scala::selector_import(base, selectors[i], line).contains(x),
    ensures
        imports::scala::selector_imports(base, selectors, line, k).contains(x),
    decreases k,
{
    let before = imports::scala::selector_imports(base, selectors, line, (k - 1) as nat);
    let own = imports::scala::selector_import(base, selectors[k - 1], line);
    let all = imports::scala::selector_imports(base, selectors, line, k);
    if i < k - 1 {
        lemma_selectors(base, selectors, line, (k - 1) as nat, i, x);
        let at = choose|at: int| 0 <= at < before.len() && before[at] == x;
        assert(all[at] == x);
    } else {
        let at = choose|at: int| 0 <= at < own.len() && own[at] == x;
        assert(all[before.len() + at] == x);
    }
}

/// An import of Scala with braces imports each name in them, below the package before
/// them.
pub proof fn scala_imports_with_braces(text: Seq<char>, line: u32, k: int, i: int)
    requires
        place(text, "{"@) == Some(k),
        ({
            let list = trimmed(stripped_back(stripped_front(text.skip(k), "{"@), "}"@));
            let selectors = pieces(list, ","@);
            &&& 0 <= i < selectors.len()
            &&& trimmed(selectors[i]).len() > 0
            &&& trimmed(selectors[i]) != "_"@
            &&& place(trimmed(selectors[i]), "=>"@) is None
        }),
    ensures
        ({
            let list = trimmed(stripped_back(stripped_front(text.skip(k), "{"@), "}"@));
            let name = trimmed(pieces(list, ","@)[i]);
            let base = stripped_back(text.take(k), "."@);
            imports::scala::text_imports(text, line).contains(
                import(scala_member(base, name), Seq::empty(), Some(false), None, line),
            )
        }),
{
    let list = trimmed(stripped_back(stripped_front(text.skip(k), "{"@), "}"@));
    let selectors = pieces(list, ","@);
    let name = trimmed(selectors[i]);
    let base = stripped_back(text.take(k), "."@);
    let x = import(scala_member(base, name), Seq::empty(), Some(false), None, line);
    let own = imports::scala::selector_import(base, selectors[i], line);
    assert(own[0] == x);
    lemma_selectors(base, selectors, line, selectors.len(), i, x);
}

/// A rename in an import of Scala gives the name before `=>` the alias behind it.
pub proof fn scala_renames_give_an_alias(base: Seq<char>, selector: Seq<char>, line: u32)
    requires
        pieces(trimmed(selector), "=>"@).len() == 2,
        trimmed(selector).len() > 0,
        trimmed(pieces(trimmed(selector), "=>"@)[0]) != "_"@,
        trimmed(pieces(trimmed(selector), "=>"@)[1]) != "_"@,
    ensures
        imports::scala::selector_import(base, selector, line) == seq![
            import(
                scala_member(base, trimmed(pieces(trimmed(selector), "=>"@)[0])),
                Seq::empty(),
                Some(false),
                Some(trimmed(pieces(trimmed(selector), "=>"@)[1])),
                line,
            ),
        ],
{
    reveal_strlit("=>");
    assert("=>"@.len() == 2);
    if place(trimmed(selector), "=>"@) is None {
        assert(pieces(trimmed(selector), "=>"@).len() == 1);
    }
}

/// An import of Swift imports the module behind `import`, also where the kind of what is
/// imported stands between.
pub proof fn swift_imports_name_a_module(raw: Seq<char>, module: Seq<char>)
    requires
        !begins(trimmed(raw), "@"@),
        trimmed(stripped_back(module, ";"@)).len() > 0,
    ensures
        words(trimmed(raw)) == seq!["import"@, module] && !is_swift_kind(module)
            ==> imports::swift::text_import(raw) == Some(
            import(trimmed(stripped_back(module, ";"@)), Seq::empty(), None, None, 0),
        ),
        forall|kind: Seq<char>|
            words(trimmed(raw)) == #[trigger] seq!["import"@, kind, module] && is_swift_kind(kind)
                ==> imports::swift::text_import(raw) == Some(
                import(trimmed(stripped_back(module, ";"@)), Seq::empty(), None, None, 0),
            ),
{
    let tokens = words(trimmed(raw));
    if tokens == seq!["import"@, module] {
        assert(tokens[0] == "import"@ && tokens[1] == module);
        assert(imports::swift::behind_import(tokens, 0) == Some(1int));
    }
    assert forall|kind: Seq<char>|
        words(trimmed(raw)) == #[trigger] seq!["import"@, kind, module] && is_swift_kind(
            kind,
        ) implies imports::swift::text_import(raw) == Some(
        import(trimmed(stripped_back(module, ";"@)), Seq::empty(), None, None, 0),
    ) by {
        assert(tokens[0] == "import"@ && tokens[1] == kind && tokens[2] == module);
        assert(imports::swift::behind_import(tokens, 0) == Some(1int));
    }
}

/// Whether a word says what kind of thing an import of Swift is of.
pub open spec fn is_swift_kind(word: Seq<char>) -> bool {
    word == "struct"@ || word == "class"@ || word == "enum"@ || word == "protocol"@ || word
        == "typealias"@ || word == "func"@ || word == "var"@ || word == "let"@
}

/// Whether ` as ` stands at a position of a text, in small or capital letters.
pub open spec fn is_as_at(s: Seq<char>, i: int) -> bool {
    0 <= i && i + 4 <= s.len() && s[i] == ' ' && (s[i + 1] == 'a' || s[i + 1] == 'A') && (s[i + 2]
        == 's' || s[i + 2] == 'S') && s[i + 3] == ' '
}

proof fn lemma_as(s: Seq<char>, i: int, k: int)
    requires
        0 <= i <= k,
        is_as_at(s, k),
        forall|m: int| 0 <= m < k ==> !#[trigger] is_as_at(s, m),
    ensures
        imports::php::as_from(s, i) == Some(k),
    decreases k - i,
{
    if i < k {
        assert(!is_as_at(s, i));
        lemma_as(s, i + 1, k);
    }
}

proof fn lemma_no_as(s: Seq<char>, i: int)
    requires
        0 <= i,
        forall|m: int| 0 <= m < s.len() ==> !#[trigger] is_as_at(s, m),
    ensures
        imports::php::as_from(s, i) is None,
    decreases s.len() - i,
{
    if i < s.len() {
        assert(!is_as_at(s, i));
        lemma_no_as(s, i + 1);
    }
}

/// A clause of a use declaration of PHP names what stands before the first ` as `, and
/// gives it the alias behind.
pub proof fn php_clauses_may_give_an_alias(clause: Seq<char>, k: int)
    requires
        is_as_at(clause, k),
        forall|m: int| 0 <= m < k ==> !#[trigger] is_as_at(clause, m),
    ensures
        imports::php::use_alias(clause) == (
            trimmed(clause.take(k)),
            Some(trimmed(clause.skip(k + 4))),
        ),
{
    lemma_as(clause, 0, k);
}

/// A clause of a use declaration of PHP without ` as ` names the whole text.
pub proof fn php_clauses_name_what_they_use(clause: Seq<char>)
    requires
        forall|m: int| 0 <= m < clause.len() ==> !#[trigger] is_as_at(clause, m),
    ensures
        imports::php::use_alias(clause) == (clause, None::<Seq<char>>),
{
    lemma_no_as(clause, 0);
}

/// A clause in a group of PHP is below the name before the group.
pub proof fn php_groups_have_a_prefix(c: Node<'_>, prefix: Seq<char>, line: u32)
    requires
        c.isa("namespace_use_clause"),
    ensures
        imports::php::clause_import(c, prefix, line).len() == 1,
        imports::php::clause_import(c, prefix, line)[0].module == if prefix.len() == 0 {
            imports::php::use_alias(trimmed(c.txt())).0
        } else {
            prefix + "\\"@ + imports::php::use_alias(trimmed(c.txt())).0
        },
        imports::php::clause_import(c, prefix, line)[0].alias == imports::php::use_alias(
            trimmed(c.txt()),
        ).1,
        imports::php::clause_import(c, prefix, line)[0].line == line,
{
}

/// Whether a child of an expression of PHP can name the file that it loads.
pub open spec fn can_name_file(c: Node<'_>) -> bool {
    c.isa("string") || c.isa("encapsed_string") || c.isa("binary_expression") || c.isa(
        "parenthesized_expression",
    )
}

proof fn lemma_file_name<'a>(n: Node<'a>, i: int, k: int)
    requires
        0 <= i <= k < n.arity(),
        can_name_file(n.kid(k)),
        forall|m: int| 0 <= m < k ==> !can_name_file(#[trigger] n.kid(m)),
    ensures
        found_from(&imports::php::FileName, n, i) == Some(n.kid(k)),
    decreases k - i,
{
    if i < k {
        assert(!can_name_file(n.kid(i)));
        lemma_file_name(n, i + 1, k);
    }
}

/// An expression of PHP that loads a file imports the file that its literal names.
pub proof fn php_loads_import_their_file(n: Node<'_>, k: int)
    requires
        0 <= k < n.arity(),
        n.kid(k).isa("string") || n.kid(k).isa("encapsed_string"),
        forall|m: int| 0 <= m < k ==> !can_name_file(#[trigger] n.kid(m)),
        stripped(n.kid(k).txt(), "\"'"@).len() > 0,
    ensures
        imports::php::loaded_file(n) matches Some(x) && x.module == stripped(
            n.kid(k).txt(),
            "\"'"@,
        ) && x.names.len() == 0,
        n.isa("require_expression") ==> imports::php::loaded_file(n)->0.is_from == Some(true)
            && imports::php::loaded_file(n)->0.alias is None,
        n.isa("require_once_expression") ==> imports::php::loaded_file(n)->0.is_from == Some(true)
            && imports::php::loaded_file(n)->0.alias == Some("once"@),
        n.isa("include_expression") ==> imports::php::loaded_file(n)->0.is_from == Some(false)
            && imports::php::loaded_file(n)->0.alias is None,
        n.isa("include_once_expression") ==> imports::php::loaded_file(n)->0.is_from == Some(false)
            && imports::php::loaded_file(n)->0.alias == Some("once"@),
{
    lemma_file_name(n, 0, k);
    lemma_load_kinds();
}

proof fn lemma_load_kinds()
    ensures
        begins("require_expression"@, "require"@),
        begins("require_once_expression"@, "require"@),
        !begins("include_expression"@, "require"@),
        !begins("include_once_expression"@, "require"@),
        place("require_expression"@, "_once"@) is None,
        has("require_once_expression"@, "_once"@),
        place("include_expression"@, "_once"@) is None,
        has("include_once_expression"@, "_once"@),
{
    reveal_strlit("require_expression");
    reveal_strlit("require_once_expression");
    reveal_strlit("include_expression");
    reveal_strlit("include_once_expression");
    reveal_strlit("require");
    reveal_strlit("_once");
    let r = "require"@;
    let o = "_once"@;
    let a = "require_expression"@;
    let b = "require_once_expression"@;
    let c = "include_expression"@;
    let d = "include_once_expression"@;
    assert(a.subrange(0, 7) =~= r);
    assert(b.subrange(0, 7) =~= r);
    assert(c.subrange(0, 7)[0] == 'i' && r[0] == 'r');
    assert(d.subrange(0, 7)[0] == 'i');
    assert(b.subrange(7, 12) =~= o);
    assert(d.subrange(7, 12) =~= o);
    places_are_first(a, o);
    places_are_first(b, o);
    places_are_first(c, o);
    places_are_first(d, o);
    assert(stands_at(b, o, 7));
    assert(stands_at(d, o, 7));
    assert forall|m: int| !#[trigger] stands_at(a, o, m) by {
        if stands_at(a, o, m) {
            assert(a.subrange(m, m + 5)[0] == a[m] && a.subrange(m, m + 5)[1] == a[m + 1]);
            assert(a[m] == '_' && a[m + 1] == 'o');
            assert(m == 7);
        }
    }
    assert forall|m: int| !#[trigger] stands_at(c, o, m) by {
        if stands_at(c, o, m) {
            assert(c.subrange(m, m + 5)[0] == c[m] && c.subrange(m, m + 5)[1] == c[m + 1]);
            assert(c[m] == '_' && c[m + 1] == 'o');
            assert(m == 7);
        }
    }
}

/// A directive of Elixir has the word that its identifier is and the arguments behind it.
pub proof fn elixir_directives_have_a_word_and_arguments(n: Node<'_>, i: int, j: int)
    requires
        0 <= i < n.arity(),
        0 <= j < n.arity(),
        i < j,
        n.kid(i).isa("identifier"),
        n.kid(j).isa("arguments"),
        forall|m: int|
            0 <= m < n.arity() && m != i && m != j ==> !(#[trigger] n.kid(m)).isa("identifier")
                && !n.kid(m).isa("arguments"),
    ensures
        imports::elixir::directive(n).0 == n.kid(i).txt(),
        imports::elixir::directive(n).1 == folded(
            &imports::elixir::Arguments,
            (Seq::empty(), Seq::empty(), None),
            n.kid(j),
        ),
{
    reveal_strlit("identifier");
    reveal_strlit("arguments");
    assert("identifier"@.len() == 10);
    assert("arguments"@.len() == 9);
    let f = imports::elixir::Directive;
    let start = (
        Seq::<char>::empty(),
        (Seq::<char>::empty(), Seq::<Seq<char>>::empty(), None::<Seq<char>>),
    );
    lemma_fold_skip(&f, start, n, 0, i as nat);
    lemma_fold_skip(&f, start, n, (i + 1) as nat, j as nat);
    lemma_fold_skip(&f, start, n, (j + 1) as nat, n.arity());
    assert(folded_upto(&f, start, n, (i + 1) as nat) == (n.kid(i).txt(), start.1));
}

/// The arguments of a directive of Elixir name the module that is their first alias.
pub proof fn elixir_arguments_name_a_module(n: Node<'_>, j: int)
    requires
        0 <= j < n.arity(),
        n.kid(j).isa("alias"),
        n.kid(j).txt().len() > 0,
        forall|m: int|
            0 <= m < n.arity() && m != j ==> !(#[trigger] n.kid(m)).isa("alias") && !n.kid(m).isa(
                "dot",
            ) && !n.kid(m).isa("keywords"),
    ensures
        folded(&imports::elixir::Arguments, (Seq::empty(), Seq::empty(), None), n) == (
            n.kid(j).txt(),
            Seq::<Seq<char>>::empty(),
            None::<Seq<char>>,
        ),
{
    let f = imports::elixir::Arguments;
    let start = (Seq::<char>::empty(), Seq::<Seq<char>>::empty(), None::<Seq<char>>);
    lemma_fold_skip(&f, start, n, 0, j as nat);
    lemma_fold_skip(&f, start, n, (j + 1) as nat, n.arity());
}

/// Members in the braces of an alias of Elixir.
pub open spec fn elixir_members<'a>() -> spec_fn(Node<'a>) -> bool {
    |c: Node<'a>| c.isa("alias") || c.isa("identifier")
}

/// The text of a node.
pub open spec fn as_written<'a>() -> spec_fn(Seq<char>, Node<'a>) -> bool {
    |s: Seq<char>, c: Node<'a>| s == c.txt()
}

/// An alias of Elixir with braces stands for each member in them, below the module before
/// them.
pub proof fn elixir_braces_expand(n: Node<'_>, a: int, t: int)
    requires
        0 <= a < t < n.arity(),
        n.kid(a).isa("alias"),
        n.kid(a).txt().len() > 0,
        n.kid(t).isa("tuple"),
        forall|m: int|
            0 <= m < n.arity() && m != a && m != t ==> !(#[trigger] n.kid(m)).isa("alias")
                && !n.kid(m).isa("tuple"),
    ensures
        exists|members: Seq<Seq<char>>| #[trigger]
            reports_kids(n.kid(t), elixir_members(), as_written(), members)
                && imports::elixir::expanded(n).len() == members.len() && forall|i: int|
                0 <= i < members.len() ==> #[trigger] imports::elixir::expanded(n)[i] == n.kid(
                    a,
                ).txt() + "."@ + members[i],
{
    let f = imports::elixir::AliasParts;
    let start = (Seq::<char>::empty(), Seq::<Seq<char>>::empty());
    let members = picked(&imports::elixir::TupleMembers, n.kid(t));
    lemma_picked_kids(&imports::elixir::TupleMembers, n.kid(t), elixir_members(), as_written());
    reveal_strlit("alias");
    reveal_strlit("tuple");
    assert("alias"@[0] == 'a');
    assert("tuple"@[0] == 't');
    lemma_fold_skip(&f, start, n, 0, a as nat);
    lemma_fold_skip(&f, start, n, (a + 1) as nat, t as nat);
    lemma_fold_skip(&f, start, n, (t + 1) as nat, n.arity());
    assert(folded_upto(&f, start, n, (a + 1) as nat) == (n.kid(a).txt(), start.1));
    assert(start.1 + members =~= members);
    assert(folded(&f, start, n) == (n.kid(a).txt(), members));
    assert(reports_kids(n.kid(t), elixir_members(), as_written(), members));
}

/// A directive of Elixir names the modules of its braces, or the one module that it has.
pub proof fn elixir_directives_name_modules(n: Node<'_>)
    ensures
        ({
            let (module, several, _alias) = imports::elixir::directive(n).1;
            let modules = imports::elixir::directive_modules(n);
            &&& several.len() > 0 ==> modules == several
            &&& several.len() == 0 && module.len() > 0 ==> modules == seq![module]
            &&& several.len() == 0 && module.len() == 0 ==> modules.len() == 0
        }),
{
}

/// A call of `require` of Lua with a literal imports the module that it names.
pub proof fn lua_requires_import_their_string(n: Node<'_>, i: int, j: int, literal: Node<'_>)
    requires
        0 <= i < j < n.arity(),
        n.kid(i).isa("identifier"),
        n.kid(i).txt() == "require"@,
        n.kid(j).isa("arguments"),
        forall|m: int|
            0 <= m < n.arity() && m != i && m != j ==> !(#[trigger] n.kid(m)).isa("identifier")
                && !n.kid(m).isa("arguments") && !n.kid(m).isa("string"),
        n.kid(j).named_from(0, 0) == Some(literal),
        literal.isa("string"),
        stripped(literal.txt(), "\"'`"@).len() > 0,
    ensures
        imports::lua::require_import(n) matches Some(x) && x.module == stripped(
            literal.txt(),
            "\"'`"@,
        ) && x.names.len() == 0 && x.alias is None && x.is_from is None,
{
    reveal_strlit("identifier");
    reveal_strlit("arguments");
    reveal_strlit("string");
    assert("identifier"@.len() == 10);
    assert("arguments"@.len() == 9);
    assert("string"@.len() == 6);
    let f = imports::lua::RequireParts;
    let start = (false, Seq::<char>::empty());
    lemma_fold_skip(&f, start, n, 0, i as nat);
    lemma_fold_skip(&f, start, n, (i + 1) as nat, j as nat);
    lemma_fold_skip(&f, start, n, (j + 1) as nat, n.arity());
    assert(folded_upto(&f, start, n, (i + 1) as nat) == (true, start.1));
}

proof fn lemma_no_require(n: Node<'_>, k: nat)
    requires
        k <= n.arity(),
        forall|m: int|
            0 <= m < n.arity() ==> !((#[trigger] n.kid(m)).isa("identifier") && n.kid(m).txt()
                == "require"@),
    ensures
        !folded_upto(&imports::lua::RequireParts, (false, Seq::empty()), n, k).0,
    decreases k,
{
    if k > 0 {
        lemma_no_require(n, (k - 1) as nat);
        assert(!(n.kid(k - 1).isa("identifier") && n.kid(k - 1).txt() == "require"@));
    }
}

/// A call of Lua of anything but `require` imports nothing.
pub proof fn lua_other_calls_import_nothing(n: Node<'_>)
    requires
        forall|m: int|
            0 <= m < n.arity() ==> !((#[trigger] n.kid(m)).isa("identifier") && n.kid(m).txt()
                == "require"@),
    ensures
        imports::lua::require_import(n) is None,
{
    lemma_no_require(n, n.arity());
}

/// A dotted path of Lua keeps its parts.
pub proof fn lua_paths_keep_their_parts(n: Node<'_>, table: Node<'_>, field: Node<'_>)
    requires
        n.isa("dot_index_expression"),
        n.at("table") == Some(table),
        n.at("field") == Some(field),
    ensures
        table.isa("identifier") && table.txt().len() > 0 ==> imports::lua::module_text(n)
            == table.txt() + "."@ + field.txt(),
        table.isa("dot_index_expression") && imports::lua::module_text(table).len() > 0
            ==> imports::lua::module_text(n) == imports::lua::module_text(table) + "."@
            + field.txt(),
{
    reveal_strlit("identifier");
    reveal_strlit("dot_index_expression");
    reveal_strlit("string");
    assert("identifier"@.len() == 10);
    assert("dot_index_expression"@.len() == 20);
    assert("string"@.len() == 6);
    reveal_with_fuel(imports::lua::dot_path, 3);
    reveal_with_fuel(imports::lua::path_segment, 3);
}

/// Parts of a module path of OCaml.
pub open spec fn ocaml_parts<'a>() -> spec_fn(Node<'a>) -> bool {
    |c: Node<'a>| c.isa("module_name") || c.isa("module_path")
}

/// A part of a module path of OCaml.
pub open spec fn ocaml_part<'a>() -> spec_fn(Seq<char>, Node<'a>) -> bool {
    |s: Seq<char>, c: Node<'a>|
        s == if c.isa("module_name") {
            c.txt()
        } else {
            imports::ocaml::module_text(c)
        }
}

proof fn collect_modules<'a>(n: Node<'a>, k: nat) -> (ks: Seq<int>)
    requires
        k <= n.arity(),
    ensures
        ({
            let s = imports::ocaml::module_parts(n, k);
            s.len() == ks.len() && forall|i: int|
                0 <= i < s.len() ==> ocaml_part()(#[trigger] s[i], n.kid(ks[i]))
        }),
        forall|i: int|
            0 <= i < ks.len() ==> 0 <= #[trigger] ks[i] < k && ocaml_parts()(n.kid(ks[i])),
        forall|i: int, j: int| 0 <= i < j < ks.len() ==> #[trigger] ks[i] < #[trigger] ks[j],
        forall|i: int| 0 <= i < k && ocaml_parts()(#[trigger] n.kid(i)) ==> ks.contains(i),
    decreases k,
{
    if k == 0 {
        Seq::empty()
    } else {
        let before = collect_modules(n, (k - 1) as nat);
        let s = imports::ocaml::module_parts(n, k);
        let front = imports::ocaml::module_parts(n, (k - 1) as nat);
        if ocaml_parts()(n.kid(k - 1)) {
            let ks = before.push(k - 1);
            assert forall|i: int| 0 <= i < s.len() implies ocaml_part()(
                #[trigger] s[i],
                n.kid(ks[i]),
            ) by {
                if i < before.len() {
                    assert(s[i] == front[i]);
                }
            }
            assert forall|i: int| 0 <= i < k && ocaml_parts()(
                #[trigger] n.kid(i),
            ) implies ks.contains(i) by {
                if i < k - 1 {
                    let at = choose|at: int| 0 <= at < before.len() && before[at] == i;
                    assert(ks[at] == i);
                } else {
                    assert(ks[before.len() as int] == i);
                }
            }
            ks
        } else {
            before
        }
    }
}

/// A module path of OCaml is its parts with dots between them, or its text where it has
/// none.
pub proof fn ocaml_paths_keep_their_parts<'a>(n: Node<'a>)
    ensures
        exists|parts: Seq<Seq<char>>| #[trigger]
            reports_kids(n, ocaml_parts(), ocaml_part(), parts) && imports::ocaml::module_text(n)
                == if parts.len() == 0 {
                n.txt()
            } else {
                joined(parts, "."@)
            },
{
    let ks = collect_modules(n, n.arity());
    let parts = imports::ocaml::module_parts(n, n.arity());
    assert(crate::laws::listing::lists_kids(n, ocaml_parts(), ks));
    assert(crate::laws::listing::fits_kids(n, ks, parts, ocaml_part()));
    assert(reports_kids(n, ocaml_parts(), ocaml_part(), parts));
}

/// A binding of a module of OCaml imports the path that it is bound to, under its name.
pub proof fn ocaml_bindings_import_their_path(n: Node<'_>, i: int, j: int)
    requires
        0 <= i < j < n.arity(),
        n.kid(i).isa("module_name"),
        n.kid(j).isa("module_path"),
        forall|m: int|
            0 <= m < n.arity() && m != i && m != j ==> !(#[trigger] n.kid(m)).isa("module_name")
                && !n.kid(m).isa("module_path"),
    ensures
        folded(&imports::ocaml::BindingParts, (None, None), n) == (
            Some(n.kid(i).txt()),
            Some(imports::ocaml::module_text(n.kid(j))),
        ),
{
    reveal_strlit("module_name");
    reveal_strlit("module_path");
    assert("module_name"@[7] == 'n');
    assert("module_path"@[7] == 'p');
    let f = imports::ocaml::BindingParts;
    let start = (None::<Seq<char>>, None::<Seq<char>>);
    lemma_fold_skip(&f, start, n, 0, i as nat);
    lemma_fold_skip(&f, start, n, (i + 1) as nat, j as nat);
    lemma_fold_skip(&f, start, n, (j + 1) as nat, n.arity());
    assert(folded_upto(&f, start, n, (i + 1) as nat) == (
        Some(n.kid(i).txt()),
        None::<Seq<char>>,
    ));
}

proof fn lemma_between(s: Seq<(usize, Seq<char>)>, low: int, high: int, i: int)
    requires
        0 <= i,
    ensures
        imports::solidity::between(s, low, high, i) matches Some(t) ==> exists|k: int|
            i <= k < s.len() && low < (#[trigger] s[k]).0 < high && t == s[k].1,
        imports::solidity::between(s, low, high, i) is None ==> forall|k: int|
            i <= k < s.len() ==> !(low < (#[trigger] s[k]).0 < high),
    decreases s.len() - i,
{
    if i < s.len() {
        lemma_between(s, low, high, i + 1);
        if low < s[i].0 < high {
        } else if imports::solidity::between(s, low, high, i + 1) is Some {
            let t = imports::solidity::between(s, low, high, i + 1)->0;
            let k = choose|k: int|
                i + 1 <= k < s.len() && low < (#[trigger] s[k]).0 < high && t == s[k].1;
            assert(low < s[k].0 < high);
        }
    }
}

/// A name that Solidity imports is reported with the alias that stands between it and the
/// next name, where there is one.
pub proof fn solidity_names_keep_their_alias(
    names: Seq<(usize, Seq<char>)>,
    aliases: Seq<(usize, Seq<char>)>,
    i: int,
)
    requires
        0 <= i < names.len(),
    ensures
        ({
            let high = if i + 1 < names.len() {
                names[i + 1].0 as int
            } else {
                usize::MAX as int
            };
            let named = imports::solidity::selected(names, aliases)[i];
            &&& imports::solidity::selected(names, aliases).len() == names.len()
            &&& (exists|k: int|
                0 <= k < aliases.len() && names[i].0 < (#[trigger] aliases[k]).0 < high && named
                    == names[i].1 + " as "@ + aliases[k].1) || (named == names[i].1 && forall|k: int|
                0 <= k < aliases.len() ==> !(names[i].0 < (#[trigger] aliases[k]).0 < high))
        }),
{
    let high = if i + 1 < names.len() {
        names[i + 1].0 as int
    } else {
        usize::MAX as int
    };
    lemma_between(aliases, names[i].0 as int, high, 0);
}

/// Whether items stand in the order of their offsets.
pub open spec fn in_offset_order<A>(s: Seq<(usize, A)>) -> bool {
    forall|i: int, j: int| 0 <= i < j < s.len() ==> (#[trigger] s[i]).0 <= (#[trigger] s[j]).0
}

proof fn lemma_placed_in_order<A>(s: Seq<(usize, A)>, x: (usize, A))
    requires
        in_offset_order(s),
    ensures
        in_offset_order(placed(s, x)),
        placed(s, x).to_multiset() =~= s.to_multiset().insert(x),
        placed(s, x).len() == s.len() + 1,
        s.len() > 0 && s.last().0 > x.0 ==> placed(s, x).last() == s.last(),
        forall|i: int| 0 <= i < placed(s, x).len() ==> (#[trigger] placed(s, x)[i]).0 <= x.0 || (
        s.len() > 0 && placed(s, x)[i].0 <= s.last().0),
    decreases s.len(),
{
    broadcast use vstd::seq_lib::group_to_multiset_ensures;

    if s.len() == 0 || s.last().0 <= x.0 {
        let t = s.push(x);
        assert forall|i: int, j: int| 0 <= i < j < t.len() implies (#[trigger] t[i]).0 <= (
        #[trigger] t[j]).0 by {
            if j == s.len() && s.len() > 0 {
                if i < s.len() - 1 {
                    assert(s[i].0 <= s[s.len() - 1].0);
                }
            }
        }
        assert forall|i: int| 0 <= i < t.len() implies (#[trigger] t[i]).0 <= x.0 || (s.len() > 0
            && t[i].0 <= s.last().0) by {
            if i < s.len() - 1 {
                assert(s[i].0 <= s[s.len() - 1].0);
            }
        }
    } else {
        let r = s.drop_last();
        lemma_placed_in_order(r, x);
        let p = placed(r, x);
        let t = p.push(s.last());
        assert forall|i: int| 0 <= i < p.len() implies (#[trigger] p[i]).0 <= s.last().0 by {
            if r.len() > 0 {
                assert(s[r.len() - 1].0 <= s[s.len() - 1].0);
            }
        }
        assert forall|i: int, j: int| 0 <= i < j < t.len() implies (#[trigger] t[i]).0 <= (
        #[trigger] t[j]).0 by {
            if j < p.len() {
                assert(t[i] == p[i] && t[j] == p[j]);
            } else {
                assert(t[i] == p[i]);
            }
        }
        assert(s =~= r.push(s.last()));
        assert(s.to_multiset() =~= r.to_multiset().insert(s.last()));
        assert forall|i: int| 0 <= i < t.len() implies (#[trigger] t[i]).0 <= x.0 || (s.len() > 0
            && t[i].0 <= s.last().0) by {
            if i < p.len() {
                assert(t[i] == p[i]);
            }
        }
    }
}

/// The parts of an import of Solidity are sorted by where they stand, and none is lost or
/// made up.
pub proof fn solidity_parts_are_sorted<A>(s: Seq<(usize, A)>)
    ensures
        in_offset_order(by_offset(s)),
        by_offset(s).to_multiset() =~= s.to_multiset(),
    decreases s.len(),
{
    broadcast use vstd::seq_lib::group_to_multiset_ensures;

    if s.len() > 0 {
        solidity_parts_are_sorted(s.drop_last());
        lemma_placed_in_order(by_offset(s.drop_last()), s.last());
        assert(s =~= s.drop_last().push(s.last()));
    } else {
        assert(by_offset(s) =~= s);
    }
}

/// White space of ASCII.
pub open spec fn is_blank(c: char) -> bool {
    c == ' ' || c == '\t' || c == '\n' || c == '\r' || c as u32 == 0x0c
}

/// Whether the word `as` stands behind a position of a text, with white space around it.
pub open spec fn is_kotlin_as_at(s: Seq<char>, i: int) -> bool {
    0 <= i && i + 4 <= s.len() && is_blank(s[i]) && s[i + 1] == 'a' && s[i + 2] == 's' && is_blank(
        s[i + 3],
    )
}

proof fn lemma_kotlin_as(s: Seq<char>, i: int)
    requires
        is_ascii_chars(s),
    ensures
        imports::kotlin::as_at(encode_utf8(s), i) == is_kotlin_as_at(s, i),
{
    is_ascii_chars_encode_utf8(s);
    is_ascii_chars_nat_bound(s);
    let bytes = encode_utf8(s);
    if 0 <= i && i + 4 <= s.len() {
        assert(bytes[i] == s[i] as u8 && bytes[i + 1] == s[i + 1] as u8 && bytes[i + 2] == s[i
            + 2] as u8 && bytes[i + 3] == s[i + 3] as u8);
        assert(s[i] as nat <= 0x7f && s[i + 1] as nat <= 0x7f && s[i + 2] as nat <= 0x7f && s[i
            + 3] as nat <= 0x7f);
    }
}

proof fn lemma_kotlin_as_from(s: Seq<char>, i: int, k: int)
    requires
        is_ascii_chars(s),
        0 <= i <= k,
        is_kotlin_as_at(s, k),
        forall|m: int| 0 <= m < k ==> !#[trigger] is_kotlin_as_at(s, m),
    ensures
        imports::kotlin::as_from(encode_utf8(s), i) == Some(k),
    decreases k - i,
{
    is_ascii_chars_encode_utf8(s);
    lemma_kotlin_as(s, i);
    if i < k {
        assert(!is_kotlin_as_at(s, i));
        lemma_kotlin_as_from(s, i + 1, k);
    }
}

proof fn lemma_kotlin_no_as(s: Seq<char>, i: int)
    requires
        is_ascii_chars(s),
        0 <= i,
        forall|m: int| !#[trigger] is_kotlin_as_at(s, m),
    ensures
        imports::kotlin::as_from(encode_utf8(s), i) is None,
    decreases s.len() - i,
{
    is_ascii_chars_encode_utf8(s);
    if i < s.len() {
        lemma_kotlin_as(s, i);
        assert(!is_kotlin_as_at(s, i));
        lemma_kotlin_no_as(s, i + 1);
    }
}

proof fn lemma_ascii_slice(s: Seq<char>, a: int, b: int)
    requires
        is_ascii_chars(s),
        0 <= a <= b <= s.len(),
    ensures
        byte_slice(s, a, b) == s.subrange(a, b),
{
    let t = s.subrange(a, b);
    is_ascii_chars_encode_utf8(s);
    assert(is_ascii_chars(t)) by {
        assert forall|i: int| 0 <= i < t.len() implies '\0' <= #[trigger] t[i] <= '\u{7f}' by {
            assert(t[i] == s[a + i]);
        }
    }
    is_ascii_chars_encode_utf8(t);
    assert(encode_utf8(t) =~= encode_utf8(s).subrange(a, b)) by {
        assert forall|i: int| 0 <= i < t.len() implies encode_utf8(t)[i] == encode_utf8(
            s,
        ).subrange(a, b)[i] by {
            assert(t[i] == s[a + i]);
        }
    }
    encode_utf8_decode_utf8(t);
}

/// An import of Kotlin imports the whole path behind `import`, or what stands before the
/// first `as`, under the alias behind it. (Stated of texts of ASCII.)
pub proof fn kotlin_imports_may_give_an_alias(raw: Seq<char>, body: Seq<char>, k: int)
    requires
        is_ascii_chars(body),
        begins(trimmed(raw), "import"@),
        trimmed(trimmed(raw).skip(6)) == body,
    ensures
        is_kotlin_as_at(body, k) && (forall|m: int|
            0 <= m < k ==> !#[trigger] is_kotlin_as_at(body, m)) && trimmed(body.take(k)).len() > 0
            ==> (imports::kotlin::text_import(raw) matches Some(x) && x.module == trimmed(
            body.take(k),
        ) && x.alias == kotlin_alias(body.skip(k))),
        (forall|m: int| !#[trigger] is_kotlin_as_at(body, m)) && trimmed(
            stripped_back(body, ";"@),
        ).len() > 0 ==> (imports::kotlin::text_import(raw) matches Some(x) && x.module == trimmed(
            stripped_back(body, ";"@),
        ) && x.alias is None),
{
    reveal_strlit("import");
    assert("import"@.len() == 6);
    if is_kotlin_as_at(body, k) && (forall|m: int|
        0 <= m < k ==> !#[trigger] is_kotlin_as_at(body, m)) && trimmed(body.take(k)).len() > 0 {
        is_ascii_chars_encode_utf8(body);
        lemma_kotlin_as_from(body, 0, k);
        reveal_strlit("as");
        assert("as"@.len() == 2);
        lemma_ascii_slice(body, 0, k);
        lemma_ascii_slice(body, k, body.len() as int);
        assert(body.subrange(0, k) =~= body.take(k));
        assert(body.subrange(k, body.len() as int) =~= body.skip(k));
    }
    if (forall|m: int| !#[trigger] is_kotlin_as_at(body, m)) && trimmed(
        stripped_back(body, ";"@),
    ).len() > 0 {
        lemma_kotlin_no_as(body, 0);
        if body.len() == 0 {
            assert(stripped_back(body, ";"@) =~= body);
            assert(trimmed(body) =~= body);
        }
    }
}

/// The alias that a clause of Kotlin gives: what stands behind `as`, without a semicolon.
pub open spec fn kotlin_alias(clause: Seq<char>) -> Option<Seq<char>> {
    let t = trimmed_front(clause);
    let name = stripped_back(
        trimmed(
            if begins(t, "as"@) {
                t.skip(2)
            } else {
                t
            },
        ),
        ";"@,
    );
    if name.len() > 0 {
        Some(name)
    } else {
        None
    }
}

} // verus!
