//! Which nodes of a file are reported as its imports, and what is reported of
//! them.

use vstd::prelude::*;

use crate::imports;
use crate::imports::imports_in;
use crate::laws::listing::{
    closed_but_for_bodies, closed_by, has_plain_bodies, is_open, lemma_picked_blocks,
    lemma_picked_kids, lemma_reported_blocks, lemma_reported_in_bodies, reports_blocks,
    reports_kid_blocks, reports_kids,
};
use crate::laws::reported_functions::{lemma_found, txt_at, word_at};
use crate::lists::group_lists;
use crate::nodes::first;
use crate::text::{has, joined, pieces, stripped, trimmed, behind_or_all};
use crate::tree::{group_tree, Node};
use crate::types::{Import, Language};
use crate::walk::{
    folded, folded_upto, found, found_from, last_found, last_upto, picked, Picker, Test, Walker,
};

verus! {

broadcast use {group_tree, group_lists};

/// Whether an import says this.
pub open spec fn imports_this(
    x: Import,
    module: Seq<char>,
    names: Seq<Seq<char>>,
    is_from: Option<bool>,
    alias: Option<Seq<char>>,
    line: u32,
) -> bool {
    x.module == module && x.names == names && x.is_from == is_from && x.alias == alias && x.line
        == line
}

/// Whether a list holds one import, and it says this.
pub open spec fn imports_only(
    s: Seq<Import>,
    module: Seq<char>,
    names: Seq<Seq<char>>,
    is_from: Option<bool>,
    alias: Option<Seq<char>>,
    line: u32,
) -> bool {
    s.len() == 1 && imports_this(s[0], module, names, is_from, alias, line)
}

/// The text of a literal, without the quotes around it.
pub open spec fn literal_text(c: Node<'_>) -> Seq<char> {
    stripped(c.txt(), "\"'`"@)
}

/// Whether `s` is the text of the last child of `n` that `p` accepts, or `start`
/// where there is none.
pub open spec fn is_last_text<'a>(
    n: Node<'a>,
    k: int,
    p: spec_fn(Node<'a>) -> bool,
    start: Seq<char>,
    s: Seq<char>,
) -> bool {
    ||| exists|j: int|
        0 <= j < k && p(#[trigger] n.kid(j)) && s == n.kid(j).txt() && forall|m: int|
            j < m < k ==> !p(#[trigger] n.kid(m))
    ||| s == start && forall|m: int| 0 <= m < k ==> !p(#[trigger] n.kid(m))
}

proof fn lemma_last_step<'a>(
    n: Node<'a>,
    k: int,
    p: spec_fn(Node<'a>) -> bool,
    start: Seq<char>,
    s: Seq<char>,
)
    requires
        0 < k,
        is_last_text(n, k - 1, p, start, s),
    ensures
        p(n.kid(k - 1)) ==> is_last_text(n, k, p, start, n.kid(k - 1).txt()),
        !p(n.kid(k - 1)) ==> is_last_text(n, k, p, start, s),
{
    if p(n.kid(k - 1)) {
        assert(forall|m: int| k - 1 < m < k ==> !p(#[trigger] n.kid(m)));
    } else if exists|j: int|
        0 <= j < k - 1 && p(#[trigger] n.kid(j)) && s == n.kid(j).txt() && forall|m: int|
            j < m < k - 1 ==> !p(#[trigger] n.kid(m)) {
        let j = choose|j: int|
            0 <= j < k - 1 && p(#[trigger] n.kid(j)) && s == n.kid(j).txt() && forall|m: int|
                j < m < k - 1 ==> !p(#[trigger] n.kid(m));
        assert forall|m: int| j < m < k implies !p(#[trigger] n.kid(m)) by {
        }
        assert(p(n.kid(j)));
    } else {
        assert forall|m: int| 0 <= m < k implies !p(#[trigger] n.kid(m)) by {
        }
    }
}

/// Statements of Python that import.
pub open spec fn python_closed<'a>() -> spec_fn(Node<'a>) -> bool {
    |c: Node<'a>| c.isa("import_statement") || c.isa("future_import_statement") || c.isa("import_from_statement")
}

/// Statements of Python that import.
pub open spec fn python_nodes<'a>() -> spec_fn(Node<'a>) -> bool {
    |c: Node<'a>| c.isa("import_statement") || c.isa("future_import_statement") || c.isa("import_from_statement")
}

/// What names a module in `import ..` of Python.
pub open spec fn python_modules<'a>() -> spec_fn(Node<'a>) -> bool {
    |c: Node<'a>| c.isa("dotted_name") || c.isa("aliased_import")
}

/// A module that is imported by `import ..` of Python: the whole dotted name.
pub open spec fn python_module<'a>(line: u32) -> spec_fn(Import, Node<'a>) -> bool {
    |x: Import, c: Node<'a>|
        if c.isa("dotted_name") {
            imports_this(x, c.txt(), Seq::empty(), Some(false), None, line)
        } else {
            imports_this(
                x,
                word_at(c, "name"),
                Seq::empty(),
                Some(false),
                txt_at(c, "alias"),
                line,
            )
        }
}

/// What gets an alias in `from ..` of Python.
pub open spec fn python_aliased<'a>() -> spec_fn(Node<'a>) -> bool {
    |c: Node<'a>| c.isa("aliased_import")
}

/// A name that is imported with an alias by `from ..` of Python.
pub open spec fn python_alias<'a>(module: Seq<char>, line: u32) -> spec_fn(
    Import,
    Node<'a>,
) -> bool {
    |x: Import, c: Node<'a>|
        imports_this(
            x,
            module,
            seq![word_at(c, "name")],
            Some(true),
            txt_at(c, "alias"),
            line,
        )
}

/// What names something in `from __future__ ..` of Python.
pub open spec fn python_future_names<'a>() -> spec_fn(Node<'a>) -> bool {
    |c: Node<'a>| (c.isa("dotted_name") || c.isa("identifier")) && c.txt() != "__future__"@
}

/// What names something in `from ..` of Python: what stands behind the module.
pub open spec fn python_names<'a>(statement: Node<'a>) -> spec_fn(Node<'a>) -> bool {
    |c: Node<'a>|
        {
            let behind = match statement.at("module_name") {
                Some(m) => m.facts().end_byte as usize,
                None => 0,
            };
            ((c.isa("dotted_name") || c.isa("identifier")) && c.facts().start_byte > behind)
                || c.isa("wildcard_import")
        }
}

/// A name that is the text of a node.
pub open spec fn own_text<'a>() -> spec_fn(Seq<char>, Node<'a>) -> bool {
    |s: Seq<char>, c: Node<'a>| s == c.txt()
}

/// A name that is the text of a node, or `*` for all.
pub open spec fn own_text_or_all<'a>() -> spec_fn(Seq<char>, Node<'a>) -> bool {
    |s: Seq<char>, c: Node<'a>|
        s == if c.isa("wildcard_import") {
            "*"@
        } else {
            c.txt()
        }
}

/// What makes up a relative module of Python.
pub open spec fn python_relative<'a>() -> spec_fn(Node<'a>) -> bool {
    |c: Node<'a>| c.isa(".") || c.isa("relative_import") || c.isa("dotted_name")
}

/// A part of a relative module of Python: a dot, or a dotted name.
pub open spec fn python_relative_part<'a>() -> spec_fn(Seq<char>, Node<'a>) -> bool {
    |s: Seq<char>, c: Node<'a>|
        s == if c.isa("dotted_name") {
            c.txt()
        } else {
            "."@
        }
}

/// Whether `module` is what `from ..` of Python imports from.
pub open spec fn is_python_source(c: Node<'_>, module: Seq<char>) -> bool {
    if c.isa("future_import_statement") {
        module == "__future__"@
    } else {
        match c.at("module_name") {
            Some(m) => module == m.txt(),
            None => exists|parts: Seq<Seq<char>>| #[trigger]
                reports_kids(c, python_relative(), python_relative_part(), parts) && module
                    == joined(parts, ""@),
        }
    }
}

/// Whether `names` are the names without an alias that `from ..` of Python imports.
pub open spec fn are_python_names(c: Node<'_>, names: Seq<Seq<char>>) -> bool {
    if c.isa("future_import_statement") {
        reports_kids(c, python_future_names(), own_text(), names)
    } else {
        reports_kids(c, python_names(c), own_text_or_all(), names)
    }
}

/// Whether `s` is what `from ..` of Python imports: an import for each name with an
/// alias, and one for all other names.
pub open spec fn is_python_from(c: Node<'_>, s: Seq<Import>) -> bool {
    exists|module: Seq<char>, aliased: Seq<Import>, names: Seq<Seq<char>>|
        #![trigger is_python_source(c, module), are_python_names(c, names), reports_kids(
            c,
            python_aliased(),
            python_alias(module, c.top()),
            aliased,
        )]
        is_python_source(c, module) && reports_kids(
            c,
            python_aliased(),
            python_alias(module, c.top()),
            aliased,
        ) && are_python_names(c, names) && if names.len() > 0 {
            &&& s.len() == aliased.len() + 1
            &&& s.drop_last() == aliased
            &&& imports_this(s.last(), module, names, Some(true), None, c.top())
        } else {
            s == aliased
        }
}

/// What a statement of Python imports.
pub open spec fn python_import<'a>() -> spec_fn(Seq<Import>, Node<'a>) -> bool {
    |s: Seq<Import>, c: Node<'a>| if c.isa("import_statement") {
            reports_kids(c, python_modules(), python_module(c.top()), s)
        } else {
            is_python_from(c, s)
        }
}

proof fn lemma_python_from<'a>(c: Node<'a>)
    requires
        c.isa("future_import_statement") || c.isa("import_from_statement"),
        !c.isa("import_statement"),
    ensures
        is_python_from(c, imports::python::Imports.yields(c)),
{
    let s = imports::python::Imports.yields(c);
    let module = imports::python::from_module(c);
    let names = imports::python::from_names(c);
    let aliased = picked(&imports::python::FromAliases { statement: c }, c);
    lemma_picked_kids(
        &imports::python::FromAliases { statement: c },
        c,
        python_aliased(),
        python_alias(module, c.top()),
    );
    reveal_strlit("dotted_name");
    reveal_strlit(".");
    reveal_strlit("relative_import");
    reveal_strlit("wildcard_import");
    reveal_strlit("identifier");
    assert("dotted_name"@.len() == 11);
    assert("."@.len() == 1);
    assert("relative_import"@.len() == 15);
    assert("wildcard_import"@.len() == 15);
    assert("identifier"@.len() == 10);
    lemma_picked_kids(
        &imports::python::RelativeParts,
        c,
        python_relative(),
        python_relative_part(),
    );
    assert(is_python_source(c, module));
    lemma_picked_kids(&imports::python::FutureNames, c, python_future_names(), own_text());
    let behind = match c.at("module_name") {
        Some(m) => m.facts().end_byte as usize,
        None => 0,
    };
    lemma_picked_kids(
        &imports::python::FromNames { behind },
        c,
        python_names(c),
        own_text_or_all(),
    );
    assert(are_python_names(c, names));
    if names.len() > 0 {
        assert(s.drop_last() =~= aliased);
    } else {
        assert(s =~= aliased);
    }
}

/// The imports of a Python file are reported each one time, in the order of the source,
/// and nothing else is.
pub proof fn python_imports_are_reported<'a>(root: Node<'a>)
    ensures
        reports_blocks(
            root,
            closed_by(python_closed()),
            python_nodes(),
            python_import(),
            imports_in(root, Language::Python),
        ),
{
    let w = imports::python::Imports;
    assert forall|c: Node<'a>| is_open(root, closed_by(python_closed()), c) implies (python_nodes()(c)
        ==> python_import()(#[trigger] w.yields(c), c)) && (!python_nodes()(c) ==> w.yields(c).len()
        == 0) by {
        reveal_strlit("import_statement");
        reveal_strlit("future_import_statement");
        reveal_strlit("import_from_statement");
        reveal_strlit("dotted_name");
        reveal_strlit("aliased_import");
        assert("dotted_name"@.len() == 11);
        assert("aliased_import"@.len() == 14);
        assert("import_statement"@.len() == 16);
        assert("future_import_statement"@.len() == 23);
        assert("import_from_statement"@.len() == 21);
        lemma_picked_kids(
            &imports::python::Modules { line: c.top() },
            c,
            python_modules(),
            python_module(c.top()),
        );
        if python_nodes()(c) && !c.isa("import_statement") {
            lemma_python_from(c);
        }
    }
    lemma_reported_blocks(&w, root, python_closed(), python_nodes(), python_import());
}

/// Import declarations of Go.
pub open spec fn go_closed<'a>() -> spec_fn(Node<'a>) -> bool {
    |c: Node<'a>| c.isa("import_declaration")
}

/// Import declarations of Go.
pub open spec fn go_nodes<'a>() -> spec_fn(Node<'a>) -> bool {
    |c: Node<'a>| c.isa("import_declaration")
}

/// What an import declaration of Go holds.
pub open spec fn go_parts<'a>() -> spec_fn(Node<'a>) -> bool {
    |c: Node<'a>| c.isa("import_spec") || c.isa("import_spec_list") || c.isa("interpreted_string_literal")
}

/// Imports in a list of Go.
pub open spec fn go_specs<'a>() -> spec_fn(Node<'a>) -> bool {
    |c: Node<'a>| c.isa("import_spec")
}

/// An import of Go: the path without its quotes, and the name that it gets.
pub open spec fn go_spec<'a>() -> spec_fn(Import, Node<'a>) -> bool {
    |x: Import, c: Node<'a>|
        imports_this(
            x,
            match c.at("path") {
                Some(path) => literal_text(path),
                None => Seq::empty(),
            },
            Seq::empty(),
            Some(false),
            txt_at(c, "name"),
            c.top(),
        )
}

/// What a part of an import declaration of Go imports.
pub open spec fn go_part<'a>() -> spec_fn(Seq<Import>, Node<'a>) -> bool {
    |s: Seq<Import>, c: Node<'a>|
        if c.isa("import_spec") {
            s.len() == 1 && go_spec()(s[0], c)
        } else if c.isa("import_spec_list") {
            reports_kids(c, go_specs(), go_spec(), s)
        } else {
            imports_only(s, literal_text(c), Seq::empty(), Some(false), None, c.top())
        }
}

/// What a declaration of Go imports.
pub open spec fn go_import<'a>() -> spec_fn(Seq<Import>, Node<'a>) -> bool {
    |s: Seq<Import>, c: Node<'a>| reports_kid_blocks(c, go_parts(), go_part(), s)
}

/// The imports of a Go file are reported each one time, in the order of the source,
/// and nothing else is.
pub proof fn go_imports_are_reported<'a>(root: Node<'a>)
    ensures
        reports_blocks(
            root,
            closed_by(go_closed()),
            go_nodes(),
            go_import(),
            imports_in(root, Language::Go),
        ),
{
    let w = imports::go::Imports;
    assert forall|c: Node<'a>| is_open(root, closed_by(go_closed()), c) implies (go_nodes()(c)
        ==> go_import()(#[trigger] w.yields(c), c)) && (!go_nodes()(c) ==> w.yields(c).len()
        == 0) by {
        let q = imports::go::Declared;
        assert forall|i: int| 0 <= i < c.arity() && go_parts()(#[trigger] c.kid(i)) implies go_part()(
            q.picks(c.kid(i)),
            c.kid(i),
        ) by {
            lemma_picked_kids(&imports::go::Specs, c.kid(i), go_specs(), go_spec());
        }
        lemma_picked_blocks(&q, c, go_parts(), go_part());
    }
    lemma_reported_blocks(&w, root, go_closed(), go_nodes(), go_import());
}

/// Includes of C.
pub open spec fn c_closed<'a>() -> spec_fn(Node<'a>) -> bool {
    |c: Node<'a>| c.isa("preproc_include")
}

/// Includes of C.
pub open spec fn c_nodes<'a>() -> spec_fn(Node<'a>) -> bool {
    |c: Node<'a>| c.isa("preproc_include")
}

/// What an include of C imports: a header of the system, or one of the project.
pub open spec fn c_import<'a>() -> spec_fn(Seq<Import>, Node<'a>) -> bool {
    |s: Seq<Import>, c: Node<'a>| match c.at("path") {
            Some(path) => if path.isa("system_lib_string") {
                imports_only(
                    s,
                    stripped(path.txt(), "<>"@),
                    Seq::empty(),
                    Some(true),
                    None,
                    c.top(),
                )
            } else if path.isa("string_literal") {
                imports_only(
                    s,
                    stripped(path.txt(), "\""@),
                    Seq::empty(),
                    Some(false),
                    None,
                    c.top(),
                )
            } else {
                s.len() == 0
            },
            None => s.len() == 0,
        }
}

/// The imports of a C file are reported each one time, in the order of the source,
/// and nothing else is.
pub proof fn c_imports_are_reported<'a>(root: Node<'a>)
    ensures
        reports_blocks(
            root,
            closed_by(c_closed()),
            c_nodes(),
            c_import(),
            imports_in(root, Language::C),
        ),
        imports_in(root, Language::Cpp) == imports_in(root, Language::C),
{
    let w = imports::c::Imports;
    assert forall|c: Node<'a>| is_open(root, closed_by(c_closed()), c) implies (c_nodes()(c)
        ==> c_import()(#[trigger] w.yields(c), c)) && (!c_nodes()(c) ==> w.yields(c).len()
        == 0) by {
    }
    lemma_reported_blocks(&w, root, c_closed(), c_nodes(), c_import());
}

/// Imports of Java.
pub open spec fn java_closed<'a>() -> spec_fn(Node<'a>) -> bool {
    |c: Node<'a>| c.isa("import_declaration")
}

/// Imports of Java.
pub open spec fn java_nodes<'a>() -> spec_fn(Node<'a>) -> bool {
    |c: Node<'a>| c.isa("import_declaration")
}

/// Names in an import of Java.
pub open spec fn java_names<'a>() -> spec_fn(Node<'a>) -> bool {
    |c: Node<'a>| c.isa("scoped_identifier") || c.isa("identifier")
}

/// What an import of Java imports: the whole name, with `.*` where all is imported.
pub open spec fn is_java_import(x: Import, c: Node<'_>) -> bool {
    exists|path: Seq<char>| #[trigger]
        is_last_text(c, c.arity() as int, java_names(), Seq::empty(), path) && imports_this(
            x,
            if first(c, "asterisk") is Some {
                path + ".*"@
            } else {
                path
            },
            Seq::empty(),
            Some(first(c, "static") is Some),
            None,
            c.top(),
        )
}

proof fn lemma_java_name(n: Node<'_>, k: nat)
    requires
        k <= n.arity(),
    ensures
        is_last_text(
            n,
            k as int,
            java_names(),
            Seq::empty(),
            folded_upto(&imports::java::LastName, Seq::empty(), n, k),
        ),
    decreases k,
{
    if k > 0 {
        lemma_java_name(n, (k - 1) as nat);
        lemma_last_step(
            n,
            k as int,
            java_names(),
            Seq::empty(),
            folded_upto(&imports::java::LastName, Seq::empty(), n, (k - 1) as nat),
        );
    }
}

/// What an import of Java imports.
pub open spec fn java_import<'a>() -> spec_fn(Seq<Import>, Node<'a>) -> bool {
    |s: Seq<Import>, c: Node<'a>| s.len() == 1 && is_java_import(s[0], c)
}

/// The imports of a Java file are reported each one time, in the order of the source,
/// and nothing else is.
pub proof fn java_imports_are_reported<'a>(root: Node<'a>)
    ensures
        reports_blocks(
            root,
            closed_by(java_closed()),
            java_nodes(),
            java_import(),
            imports_in(root, Language::Java),
        ),
{
    let w = imports::java::Imports;
    assert forall|c: Node<'a>| is_open(root, closed_by(java_closed()), c) implies (java_nodes()(c)
        ==> java_import()(#[trigger] w.yields(c), c)) && (!java_nodes()(c) ==> w.yields(c).len()
        == 0) by {
        lemma_java_name(c, c.arity());
    }
    lemma_reported_blocks(&w, root, java_closed(), java_nodes(), java_import());
}

/// No node of Ruby hides an import.
pub open spec fn ruby_closed<'a>() -> spec_fn(Node<'a>) -> bool {
    |c: Node<'a>| false
}

/// Calls of Ruby.
pub open spec fn ruby_nodes<'a>() -> spec_fn(Node<'a>) -> bool {
    |c: Node<'a>| c.isa("call")
}

/// Identifiers of Ruby.
pub open spec fn ruby_identifiers<'a>() -> spec_fn(Node<'a>) -> bool {
    |c: Node<'a>| c.isa("identifier")
}

proof fn lemma_ruby_name(n: Node<'_>, k: nat)
    requires
        k <= n.arity(),
    ensures
        is_last_text(
            n,
            k as int,
            ruby_identifiers(),
            Seq::empty(),
            folded_upto(&imports::ruby::MethodName, Seq::empty(), n, k),
        ),
    decreases k,
{
    if k > 0 {
        lemma_ruby_name(n, (k - 1) as nat);
        lemma_last_step(
            n,
            k as int,
            ruby_identifiers(),
            Seq::empty(),
            folded_upto(&imports::ruby::MethodName, Seq::empty(), n, (k - 1) as nat),
        );
    }
}

/// Whether a call of Ruby is one of `require` or `require_relative`.
pub open spec fn is_ruby_require(c: Node<'_>) -> bool {
    exists|name: Seq<char>| #[trigger]
        is_last_text(c, c.arity() as int, ruby_identifiers(), Seq::empty(), name) && (name
            == "require"@ || name == "require_relative"@)
}

proof fn lemma_last_texts<'a>(
    n: Node<'a>,
    k: int,
    p: spec_fn(Node<'a>) -> bool,
    start: Seq<char>,
    s: Seq<char>,
    t: Seq<char>,
)
    requires
        is_last_text(n, k, p, start, s),
        is_last_text(n, k, p, start, t),
    ensures
        s == t,
{
    if exists|j: int|
        0 <= j < k && p(#[trigger] n.kid(j)) && s == n.kid(j).txt() && forall|m: int|
            j < m < k ==> !p(#[trigger] n.kid(m)) {
        let j = choose|j: int|
            0 <= j < k && p(#[trigger] n.kid(j)) && s == n.kid(j).txt() && forall|m: int|
                j < m < k ==> !p(#[trigger] n.kid(m));
        assert(p(n.kid(j)));
        let i = choose|i: int|
            0 <= i < k && p(#[trigger] n.kid(i)) && t == n.kid(i).txt() && forall|m: int|
                i < m < k ==> !p(#[trigger] n.kid(m));
        assert(p(n.kid(i)));
    }
}

/// What a call of Ruby imports.
pub open spec fn ruby_import<'a>() -> spec_fn(Seq<Import>, Node<'a>) -> bool {
    |s: Seq<Import>, c: Node<'a>| {
        let argument = folded(&imports::ruby::StringArgument, Seq::empty(), c);
        if is_ruby_require(c) && argument.len() > 0 {
            imports_only(s, argument, Seq::empty(), None, None, c.top())
        } else {
            s.len() == 0
        }
    }
}

/// The imports of a Ruby file are reported each one time, in the order of the source,
/// and nothing else is.
pub proof fn ruby_imports_are_reported<'a>(root: Node<'a>)
    ensures
        reports_blocks(
            root,
            closed_by(ruby_closed()),
            ruby_nodes(),
            ruby_import(),
            imports_in(root, Language::Ruby),
        ),
{
    let w = imports::ruby::Imports;
    assert forall|c: Node<'a>| is_open(root, closed_by(ruby_closed()), c) implies (ruby_nodes()(c)
        ==> ruby_import()(#[trigger] w.yields(c), c)) && (!ruby_nodes()(c) ==> w.yields(c).len()
        == 0) by {
        lemma_ruby_name(c, c.arity());
        let name = folded(&imports::ruby::MethodName, Seq::empty(), c);
        if is_ruby_require(c) {
            let other = choose|name: Seq<char>| #[trigger]
                is_last_text(c, c.arity() as int, ruby_identifiers(), Seq::empty(), name) && (name
                    == "require"@ || name == "require_relative"@);
            lemma_last_texts(
                c,
                c.arity() as int,
                ruby_identifiers(),
                Seq::empty(),
                name,
                other,
            );
        }
    }
    lemma_reported_blocks(&w, root, ruby_closed(), ruby_nodes(), ruby_import());
}

/// Using directives of C#.
pub open spec fn csharp_closed<'a>() -> spec_fn(Node<'a>) -> bool {
    |c: Node<'a>| c.isa("using_directive")
}

/// Using directives of C#.
pub open spec fn csharp_nodes<'a>() -> spec_fn(Node<'a>) -> bool {
    |c: Node<'a>| c.isa("using_directive")
}

/// What a directive of C# imports.
pub open spec fn csharp_import<'a>() -> spec_fn(Seq<Import>, Node<'a>) -> bool {
    |s: Seq<Import>, c: Node<'a>| {
        let parts = folded(&imports::csharp::UsingParts, (Seq::empty(), None, false), c);
        if parts.0.len() > 0 {
            imports_only(
                s,
                parts.0,
                Seq::empty(),
                Some(has(c.txt(), "static"@) || has(c.txt(), "global"@)),
                parts.1,
                c.top(),
            )
        } else {
            s.len() == 0
        }
    }
}

/// The imports of a C# file are reported each one time, in the order of the source,
/// and nothing else is.
pub proof fn csharp_imports_are_reported<'a>(root: Node<'a>)
    ensures
        reports_blocks(
            root,
            closed_by(csharp_closed()),
            csharp_nodes(),
            csharp_import(),
            imports_in(root, Language::CSharp),
        ),
{
    let w = imports::csharp::Imports;
    assert forall|c: Node<'a>| is_open(root, closed_by(csharp_closed()), c) implies (csharp_nodes()(c)
        ==> csharp_import()(#[trigger] w.yields(c), c)) && (!csharp_nodes()(c) ==> w.yields(c).len()
        == 0) by {
    }
    lemma_reported_blocks(&w, root, csharp_closed(), csharp_nodes(), csharp_import());
}

/// Imports of Scala.
pub open spec fn scala_closed<'a>() -> spec_fn(Node<'a>) -> bool {
    |c: Node<'a>| c.isa("import_declaration")
}

/// Imports of Scala.
pub open spec fn scala_nodes<'a>() -> spec_fn(Node<'a>) -> bool {
    |c: Node<'a>| c.isa("import_declaration")
}

/// What an import of Scala imports.
pub open spec fn scala_import<'a>() -> spec_fn(Seq<Import>, Node<'a>) -> bool {
    |s: Seq<Import>, c: Node<'a>| s == imports::scala::text_imports(
            trimmed(behind_or_all(c.txt(), "import "@)),
            c.top(),
        )
}

/// The imports of a Scala file are reported each one time, in the order of the source,
/// and nothing else is.
pub proof fn scala_imports_are_reported<'a>(root: Node<'a>)
    ensures
        reports_blocks(
            root,
            closed_by(scala_closed()),
            scala_nodes(),
            scala_import(),
            imports_in(root, Language::Scala),
        ),
{
    let w = imports::scala::Imports;
    assert forall|c: Node<'a>| is_open(root, closed_by(scala_closed()), c) implies (scala_nodes()(c)
        ==> scala_import()(#[trigger] w.yields(c), c)) && (!scala_nodes()(c) ==> w.yields(c).len()
        == 0) by {
    }
    lemma_reported_blocks(&w, root, scala_closed(), scala_nodes(), scala_import());
}

/// Whether a node of Kotlin is an import.
pub open spec fn is_kotlin_import(c: Node<'_>) -> bool {
    c.isa("import_header") || (c.isa("import") && exists|i: int|
        0 <= i < c.arity() && ((#[trigger] c.kid(i)).isa("qualified_identifier") || c.kid(i).isa(
            "identifier",
        )))
}

/// Imports of Kotlin.
pub open spec fn kotlin_closed<'a>() -> spec_fn(Node<'a>) -> bool {
    |c: Node<'a>| is_kotlin_import(c)
}

/// Imports of Kotlin.
pub open spec fn kotlin_nodes<'a>() -> spec_fn(Node<'a>) -> bool {
    |c: Node<'a>| is_kotlin_import(c)
}

/// What an import of Kotlin imports.
pub open spec fn kotlin_import<'a>() -> spec_fn(Seq<Import>, Node<'a>) -> bool {
    |s: Seq<Import>, c: Node<'a>| match imports::kotlin::text_import(c.txt()) {
            Some(x) => imports_only(s, x.module, x.names, x.is_from, x.alias, c.top()),
            None => s.len() == 0,
        }
}

proof fn lemma_kotlin_import(c: Node<'_>)
    ensures
        imports::kotlin::is_import(c) == is_kotlin_import(c),
{
    lemma_found(&imports::kotlin::ModuleName, c, 0);
    assert forall|i: int| 0 <= i < c.arity() implies imports::kotlin::ModuleName.accepts(
        #[trigger] c.kid(i),
    ) == (c.kid(i).isa("qualified_identifier") || c.kid(i).isa("identifier")) by {
    }
}

/// The imports of a Kotlin file are reported each one time, in the order of the source,
/// and nothing else is.
pub proof fn kotlin_imports_are_reported<'a>(root: Node<'a>)
    ensures
        reports_blocks(
            root,
            closed_by(kotlin_closed()),
            kotlin_nodes(),
            kotlin_import(),
            imports_in(root, Language::Kotlin),
        ),
{
    let w = imports::kotlin::Imports;
    assert forall|c: Node<'a>| is_open(root, closed_by(kotlin_closed()), c) implies (kotlin_nodes()(c)
        ==> kotlin_import()(#[trigger] w.yields(c), c)) && (!kotlin_nodes()(c) ==> w.yields(c).len()
        == 0) by {
        lemma_kotlin_import(c);
    }
    assert forall|c: Node<'a>| is_open(root, closed_by(kotlin_closed()), c) implies #[trigger] w.enters(
        c,
    ) == if kotlin_closed()(c) {
        None
    } else {
        Some(c)
    } by {
        lemma_kotlin_import(c);
    }
    lemma_reported_blocks(&w, root, kotlin_closed(), kotlin_nodes(), kotlin_import());
}

/// Imports of Swift.
pub open spec fn swift_closed<'a>() -> spec_fn(Node<'a>) -> bool {
    |c: Node<'a>| c.isa("import_declaration")
}

/// Imports of Swift.
pub open spec fn swift_nodes<'a>() -> spec_fn(Node<'a>) -> bool {
    |c: Node<'a>| c.isa("import_declaration")
}

/// What an import of Swift imports.
pub open spec fn swift_import<'a>() -> spec_fn(Seq<Import>, Node<'a>) -> bool {
    |s: Seq<Import>, c: Node<'a>| match imports::swift::text_import(c.txt()) {
            Some(x) => imports_only(s, x.module, x.names, x.is_from, x.alias, c.top()),
            None => s.len() == 0,
        }
}

/// The imports of a Swift file are reported each one time, in the order of the source,
/// and nothing else is.
pub proof fn swift_imports_are_reported<'a>(root: Node<'a>)
    ensures
        reports_blocks(
            root,
            closed_by(swift_closed()),
            swift_nodes(),
            swift_import(),
            imports_in(root, Language::Swift),
        ),
{
    let w = imports::swift::Imports;
    assert forall|c: Node<'a>| is_open(root, closed_by(swift_closed()), c) implies (swift_nodes()(c)
        ==> swift_import()(#[trigger] w.yields(c), c)) && (!swift_nodes()(c) ==> w.yields(c).len()
        == 0) by {
    }
    lemma_reported_blocks(&w, root, swift_closed(), swift_nodes(), swift_import());
}

/// Import directives of Solidity.
pub open spec fn solidity_closed<'a>() -> spec_fn(Node<'a>) -> bool {
    |c: Node<'a>| c.isa("import_directive")
}

/// Import directives of Solidity.
pub open spec fn solidity_nodes<'a>() -> spec_fn(Node<'a>) -> bool {
    |c: Node<'a>| c.isa("import_directive")
}

/// What a directive of Solidity imports.
pub open spec fn solidity_import<'a>() -> spec_fn(Seq<Import>, Node<'a>) -> bool {
    |s: Seq<Import>, c: Node<'a>| match c.at("source") {
            Some(source) if literal_text(source).len() > 0 => {
                let names = imports::solidity::filling(c, "import_name");
                let aliases = imports::solidity::filling(c, "alias");
                if names.len() > 0 {
                    imports_only(
                        s,
                        literal_text(source),
                        imports::solidity::selected(names, aliases),
                        None,
                        None,
                        c.top(),
                    )
                } else {
                    imports_only(
                        s,
                        literal_text(source),
                        Seq::empty(),
                        None,
                        if aliases.len() > 0 {
                            Some(aliases[0].1)
                        } else {
                            None
                        },
                        c.top(),
                    )
                }
            },
            _ => s.len() == 0,
        }
}

/// The imports of a Solidity file are reported each one time, in the order of the source,
/// and nothing else is.
pub proof fn solidity_imports_are_reported<'a>(root: Node<'a>)
    ensures
        reports_blocks(
            root,
            closed_by(solidity_closed()),
            solidity_nodes(),
            solidity_import(),
            imports_in(root, Language::Solidity),
        ),
{
    let w = imports::solidity::Imports;
    assert forall|c: Node<'a>| is_open(root, closed_by(solidity_closed()), c) implies (solidity_nodes()(c)
        ==> solidity_import()(#[trigger] w.yields(c), c)) && (!solidity_nodes()(c) ==> w.yields(c).len()
        == 0) by {
    }
    lemma_reported_blocks(&w, root, solidity_closed(), solidity_nodes(), solidity_import());
}

/// Calls of `require` of Lua.
pub open spec fn lua_closed<'a>() -> spec_fn(Node<'a>) -> bool {
    |c: Node<'a>| c.isa("function_call") && imports::lua::require_import(c) is Some
}

/// Calls of `require` of Lua.
pub open spec fn lua_nodes<'a>() -> spec_fn(Node<'a>) -> bool {
    |c: Node<'a>| c.isa("function_call") && imports::lua::require_import(c) is Some
}

/// What a call of Lua imports.
pub open spec fn lua_import<'a>() -> spec_fn(Seq<Import>, Node<'a>) -> bool {
    |s: Seq<Import>, c: Node<'a>| {
        let parts = folded(&imports::lua::RequireParts, (false, Seq::empty()), c);
        parts.0 && parts.1.len() > 0 && imports_only(s, parts.1, Seq::empty(), None, None, c.top())
    }
}

/// The imports of a Lua file are reported each one time, in the order of the source,
/// and nothing else is.
pub proof fn lua_imports_are_reported<'a>(root: Node<'a>)
    ensures
        reports_blocks(
            root,
            closed_by(lua_closed()),
            lua_nodes(),
            lua_import(),
            imports_in(root, Language::Lua),
        ),
        imports_in(root, Language::Luau) == imports_in(root, Language::Lua),
{
    let w = imports::lua::Imports;
    assert forall|c: Node<'a>| is_open(root, closed_by(lua_closed()), c) implies (lua_nodes()(c)
        ==> lua_import()(#[trigger] w.yields(c), c)) && (!lua_nodes()(c) ==> w.yields(c).len()
        == 0) by {
    }
    lemma_reported_blocks(&w, root, lua_closed(), lua_nodes(), lua_import());
}

/// Directives of Elixir that import.
pub open spec fn elixir_closed<'a>() -> spec_fn(Node<'a>) -> bool {
    |c: Node<'a>| c.isa("call") && ({
            let word = imports::elixir::directive(c).0;
            word == "import"@ || word == "alias"@ || word == "require"@ || word == "use"@
        })
}

/// Directives of Elixir that import.
pub open spec fn elixir_nodes<'a>() -> spec_fn(Node<'a>) -> bool {
    |c: Node<'a>| elixir_closed()(c)
}

/// Whether `x` is what a directive of Elixir imports of the module `module`.
pub open spec fn is_elixir_import(
    x: Import,
    word: Seq<char>,
    module: Seq<char>,
    alias: Option<Seq<char>>,
    line: u32,
) -> bool {
    if word == "import"@ || word == "use"@ {
        imports_this(x, module, seq!["*"@], Some(true), None, line)
    } else if word == "alias"@ {
        imports_this(
            x,
            module,
            Seq::empty(),
            Some(false),
            Some(
                match alias {
                    Some(name) => name,
                    None => pieces(module, "."@).last(),
                },
            ),
            line,
        )
    } else {
        imports_this(x, module, Seq::empty(), Some(false), None, line)
    }
}

/// What a directive of Elixir imports: each module that it names.
pub open spec fn elixir_import<'a>() -> spec_fn(Seq<Import>, Node<'a>) -> bool {
    |s: Seq<Import>, c: Node<'a>| {
        let (word, (_module, _several, alias)) = imports::elixir::directive(c);
        let modules = imports::elixir::directive_modules(c);
        s.len() == modules.len() && forall|i: int|
            0 <= i < s.len() ==> is_elixir_import(
                #[trigger] s[i],
                word,
                modules[i],
                if modules.len() == 1 {
                    alias
                } else {
                    None
                },
                c.top(),
            )
    }
}

proof fn lemma_elixir_imports(c: Node<'_>, k: nat)
    requires
        k <= imports::elixir::directive_modules(c).len(),
        elixir_nodes()(c),
    ensures
        ({
            let s = imports::elixir::directive_imports(c, k);
            let modules = imports::elixir::directive_modules(c);
            s.len() == k && forall|i: int|
                0 <= i < s.len() ==> is_elixir_import(
                    #[trigger] s[i],
                    imports::elixir::directive(c).0,
                    modules[i],
                    if modules.len() == 1 {
                        imports::elixir::directive(c).1.2
                    } else {
                        None
                    },
                    c.top(),
                )
        }),
    decreases k,
{
    if k > 0 {
        lemma_elixir_imports(c, (k - 1) as nat);
        reveal_strlit("import");
        reveal_strlit("use");
        reveal_strlit("alias");
        reveal_strlit("require");
        assert("import"@.len() == 6);
        assert("use"@.len() == 3);
        assert("alias"@.len() == 5);
        assert("require"@.len() == 7);
    }
}

/// The imports of a Elixir file are reported each one time, in the order of the source,
/// and nothing else is.
pub proof fn elixir_imports_are_reported<'a>(root: Node<'a>)
    ensures
        reports_blocks(
            root,
            closed_by(elixir_closed()),
            elixir_nodes(),
            elixir_import(),
            imports_in(root, Language::Elixir),
        ),
{
    let w = imports::elixir::Imports;
    assert forall|c: Node<'a>| is_open(root, closed_by(elixir_closed()), c) implies (elixir_nodes()(c)
        ==> elixir_import()(#[trigger] w.yields(c), c)) && (!elixir_nodes()(c) ==> w.yields(c).len()
        == 0) by {
        if elixir_nodes()(c) {
            lemma_elixir_imports(c, imports::elixir::directive_modules(c).len());
        }
    }
    lemma_reported_blocks(&w, root, elixir_closed(), elixir_nodes(), elixir_import());
}

/// Nodes of OCaml below which no import is looked for.
pub open spec fn ocaml_closed<'a>() -> spec_fn(Node<'a>) -> bool {
    |c: Node<'a>| c.isa("open_module") || c.isa("include_module") || ocaml_paths()(c)
}

/// Paths of OCaml that may name a module.
pub open spec fn ocaml_paths<'a>() -> spec_fn(Node<'a>) -> bool {
    |c: Node<'a>| c.isa("value_path") || c.isa("constructor_path") || c.isa("type_constructor_path") || c.isa("field_path")
}

/// Bindings of modules of OCaml.
pub open spec fn ocaml_bindings<'a>() -> spec_fn(Node<'a>) -> bool {
    |c: Node<'a>| c.isa("module_binding")
}

/// Nodes of OCaml that may import.
pub open spec fn ocaml_nodes<'a>() -> spec_fn(Node<'a>) -> bool {
    |c: Node<'a>| ocaml_closed()(c) || c.isa("module_definition")
}

/// What a binding of a module of OCaml imports.
pub open spec fn ocaml_binding<'a>(line: u32) -> spec_fn(Seq<Import>, Node<'a>) -> bool {
    |s: Seq<Import>, c: Node<'a>|
        {
            let parts = folded(&imports::ocaml::BindingParts, (None, None), c);
            match parts.1 {
                Some(target) => imports_only(s, target, Seq::empty(), Some(false), parts.0, line),
                None => s.len() == 0,
            }
        }
}

/// What a node of OCaml imports.
pub open spec fn ocaml_import<'a>() -> spec_fn(Seq<Import>, Node<'a>) -> bool {
    |s: Seq<Import>, c: Node<'a>| if c.isa("open_module") || c.isa("include_module") {
            match first(c, "module_path") {
                Some(path) => imports_only(
                    s,
                    imports::ocaml::module_text(path),
                    seq!["*"@],
                    Some(true),
                    None,
                    c.top(),
                ),
                None => s.len() == 0,
            }
        } else if c.isa("module_definition") {
            reports_kid_blocks(c, ocaml_bindings(), ocaml_binding(c.top()), s)
        } else {
            match c.named_from(0, 0) {
                Some(path) if path.isa("module_path") => {
                    let leaf = folded(&imports::ocaml::PathLeaf, None, c);
                    imports_only(
                        s,
                        imports::ocaml::module_text(path),
                        match leaf {
                            Some(name) => seq![name],
                            None => Seq::empty(),
                        },
                        Some(false),
                        None,
                        c.top(),
                    )
                },
                _ => s.len() == 0,
            }
        }
}

/// The imports of a OCaml file are reported each one time, in the order of the source,
/// and nothing else is.
pub proof fn ocaml_imports_are_reported<'a>(root: Node<'a>)
    ensures
        reports_blocks(
            root,
            closed_by(ocaml_closed()),
            ocaml_nodes(),
            ocaml_import(),
            imports_in(root, Language::Ocaml),
        ),
{
    let w = imports::ocaml::Imports;
    assert forall|c: Node<'a>| is_open(root, closed_by(ocaml_closed()), c) implies (ocaml_nodes()(c)
        ==> ocaml_import()(#[trigger] w.yields(c), c)) && (!ocaml_nodes()(c) ==> w.yields(c).len()
        == 0) by {
        reveal_strlit("open_module");
        reveal_strlit("include_module");
        reveal_strlit("module_definition");
        reveal_strlit("value_path");
        reveal_strlit("constructor_path");
        reveal_strlit("type_constructor_path");
        reveal_strlit("field_path");
        assert("open_module"@.len() == 11);
        assert("include_module"@.len() == 14);
        assert("module_definition"@.len() == 17);
        assert("value_path"@.len() == 10);
        assert("constructor_path"@.len() == 16);
        assert("type_constructor_path"@.len() == 21);
        assert("field_path"@.len() == 10);
        lemma_picked_blocks(
            &imports::ocaml::Bindings { line: c.top() },
            c,
            ocaml_bindings(),
            ocaml_binding(c.top()),
        );
    }
    assert forall|c: Node<'a>| is_open(root, closed_by(ocaml_closed()), c) implies #[trigger] w.enters(
        c,
    ) == if ocaml_closed()(c) {
        None
    } else {
        Some(c)
    } by {
        reveal_strlit("module_definition");
        reveal_strlit("value_path");
        reveal_strlit("constructor_path");
        reveal_strlit("type_constructor_path");
        reveal_strlit("field_path");
        assert("module_definition"@.len() == 17);
        assert("value_path"@.len() == 10);
        assert("constructor_path"@.len() == 16);
        assert("type_constructor_path"@.len() == 21);
        assert("field_path"@.len() == 10);
    }
    lemma_reported_blocks(&w, root, ocaml_closed(), ocaml_nodes(), ocaml_import());
}

/// Expressions of PHP that load a file.
pub open spec fn php_loads<'a>() -> spec_fn(Node<'a>) -> bool {
    |c: Node<'a>| c.isa("require_expression") || c.isa("require_once_expression") || c.isa("include_expression") || c.isa("include_once_expression")
}

/// Nodes of PHP below which no import is looked for.
pub open spec fn php_closed<'a>() -> spec_fn(Node<'a>) -> bool {
    |c: Node<'a>| c.isa("namespace_use_declaration") || c.isa("expression_statement") || php_loads()(c)
}

/// Nodes of PHP that may import.
pub open spec fn php_nodes<'a>() -> spec_fn(Node<'a>) -> bool {
    |c: Node<'a>| php_closed()(c)
}

/// Clauses of a use declaration of PHP.
pub open spec fn php_clauses<'a>() -> spec_fn(Node<'a>) -> bool {
    |c: Node<'a>| c.isa("namespace_use_clause")
}

/// What an expression of PHP that loads a file imports.
pub open spec fn php_load<'a>(line: u32) -> spec_fn(Seq<Import>, Node<'a>) -> bool {
    |s: Seq<Import>, c: Node<'a>|
        match imports::php::loaded_file(c) {
            Some(x) => imports_only(s, x.module, x.names, x.is_from, x.alias, line),
            None => s.len() == 0,
        }
}

/// What a clause of a use declaration of PHP imports: the name, and its alias.
pub open spec fn php_clause<'a>(line: u32) -> spec_fn(Import, Node<'a>) -> bool {
    |x: Import, c: Node<'a>|
        {
            let parts = imports::php::use_alias(trimmed(c.txt()));
            imports_this(x, parts.0, Seq::empty(), Some(true), parts.1, line)
        }
}

proof fn collect_clauses<'a>(c: Node<'a>, k: nat) -> (ks: Seq<int>)
    requires
        k <= c.arity(),
    ensures
        ({
            let s = imports::php::group_imports(c, Seq::empty(), c.top(), k);
            s.len() == ks.len() && forall|i: int|
                0 <= i < s.len() ==> php_clause(c.top())(#[trigger] s[i], c.kid(ks[i]))
        }),
        forall|i: int|
            0 <= i < ks.len() ==> 0 <= #[trigger] ks[i] < k && php_clauses()(c.kid(ks[i])),
        forall|i: int, j: int| 0 <= i < j < ks.len() ==> #[trigger] ks[i] < #[trigger] ks[j],
        forall|i: int| 0 <= i < k && php_clauses()(#[trigger] c.kid(i)) ==> ks.contains(i),
    decreases k,
{
    if k == 0 {
        Seq::empty()
    } else {
        let before = collect_clauses(c, (k - 1) as nat);
        let s = imports::php::group_imports(c, Seq::empty(), c.top(), k);
        let front = imports::php::group_imports(c, Seq::empty(), c.top(), (k - 1) as nat);
        if php_clauses()(c.kid(k - 1)) {
            let ks = before.push(k - 1);
            assert forall|i: int| 0 <= i < s.len() implies php_clause(c.top())(
                #[trigger] s[i],
                c.kid(ks[i]),
            ) by {
                if i < before.len() {
                    assert(s[i] == front[i]);
                }
            }
            assert forall|i: int| 0 <= i < k && php_clauses()(
                #[trigger] c.kid(i),
            ) implies ks.contains(i) by {
                if i < k - 1 {
                    let at = choose|at: int| 0 <= at < before.len() && before[at] == i;
                    assert(ks[at] == i);
                } else {
                    assert(ks[before.len() as int] == i);
                }
            }
            ks
        } else {
            before
        }
    }
}

/// What a node of PHP imports.
pub open spec fn php_import<'a>() -> spec_fn(Seq<Import>, Node<'a>) -> bool {
    |s: Seq<Import>, c: Node<'a>| if c.isa("namespace_use_declaration") {
            if first(c, "namespace_use_group") is Some {
                s == folded(
                    &imports::php::Groups { line: c.top() },
                    (Seq::empty(), Seq::empty()),
                    c,
                ).1
            } else {
                reports_kids(c, php_clauses(), php_clause(c.top()), s)
            }
        } else if c.isa("expression_statement") {
            reports_kid_blocks(c, php_loads(), php_load(c.top()), s)
        } else {
            php_load(c.top())(s, c)
        }
}

/// The imports of a PHP file are reported each one time, in the order of the source,
/// and nothing else is.
pub proof fn php_imports_are_reported<'a>(root: Node<'a>)
    ensures
        reports_blocks(
            root,
            closed_by(php_closed()),
            php_nodes(),
            php_import(),
            imports_in(root, Language::Php),
        ),
{
    let w = imports::php::Imports;
    assert forall|c: Node<'a>| is_open(root, closed_by(php_closed()), c) implies (php_nodes()(c)
        ==> php_import()(#[trigger] w.yields(c), c)) && (!php_nodes()(c) ==> w.yields(c).len()
        == 0) by {
        lemma_picked_blocks(
            &imports::php::StatementLoads { line: c.top() },
            c,
            php_loads(),
            php_load(c.top()),
        );
        let ks = collect_clauses(c, c.arity());
        assert(crate::laws::listing::lists_kids(c, php_clauses(), ks));
    }
    lemma_reported_blocks(&w, root, php_closed(), php_nodes(), php_import());
}

/// Modules of Rust.
pub open spec fn rust_modules<'a>() -> spec_fn(Node<'a>) -> bool {
    |c: Node<'a>| c.isa("mod_item")
}

/// Nodes of Rust below which no import is looked for.
pub open spec fn rust_closed<'a>() -> spec_fn(Node<'a>) -> bool {
    |c: Node<'a>| c.isa("use_declaration") || c.isa("extern_crate_declaration")
}

/// Nodes of Rust that may import.
pub open spec fn rust_nodes<'a>() -> spec_fn(Node<'a>) -> bool {
    |c: Node<'a>| c.isa("use_declaration") || c.isa("mod_item") || c.isa("extern_crate_declaration")
}

/// What a node of Rust imports.
pub open spec fn rust_import<'a>() -> spec_fn(Seq<Import>, Node<'a>) -> bool {
    |s: Seq<Import>, c: Node<'a>| if c.isa("use_declaration") {
            match c.at("argument") {
                Some(arg) => imports_only(
                    s,
                    imports::rust::use_argument(arg).0,
                    imports::rust::use_argument(arg).1,
                    Some(true),
                    None,
                    c.top(),
                ),
                None => s.len() == 0,
            }
        } else if c.isa("mod_item") {
            if c.at("name") is Some && c.at("body") is None {
                imports_only(s, word_at(c, "name"), Seq::empty(), Some(false), None, c.top())
            } else {
                s.len() == 0
            }
        } else {
            if c.at("name") is Some {
                imports_only(
                    s,
                    word_at(c, "name"),
                    Seq::empty(),
                    Some(false),
                    txt_at(c, "alias"),
                    c.top(),
                )
            } else {
                s.len() == 0
            }
        }
}

/// The imports of a Rust file are reported each one time, also those inside of
/// modules that are written in place, in the order of the source, and nothing else
/// is.
pub proof fn rust_imports_are_reported<'a>(root: Node<'a>)
    requires
        has_plain_bodies(root, rust_closed(), rust_modules()),
    ensures
        reports_blocks(
            root,
            closed_but_for_bodies(rust_closed(), rust_modules()),
            rust_nodes(),
            rust_import(),
            imports_in(root, Language::Rust),
        ),
{
    let w = imports::rust::Imports;
    reveal_strlit("mod_item");
    reveal_strlit("use_declaration");
    reveal_strlit("extern_crate_declaration");
    assert("mod_item"@.len() == 8);
    assert("use_declaration"@.len() == 15);
    assert("extern_crate_declaration"@.len() == 24);
    lemma_reported_in_bodies(
        &w,
        root,
        rust_closed(),
        rust_modules(),
        rust_nodes(),
        rust_import(),
    );
}

/// The literal that names a module of TypeScript: a string, or a template without
/// anything to fill in.
pub open spec fn is_ts_literal(a: Node<'_>) -> bool {
    (a.isa("string") || (a.isa("template_string") && first(a, "template_substitution") is None))
        && literal_text(a).len() > 0
}

/// Whether a node is an argument of a call of TypeScript.
pub open spec fn is_ts_argument(a: Node<'_>) -> bool {
    a.facts().named && !a.isa("comment")
}

/// Whether `a` is the first argument of a list of TypeScript.
pub open spec fn is_first_argument(args: Node<'_>, a: Node<'_>) -> bool {
    exists|i: int|
        0 <= i < args.arity() && #[trigger] args.kid(i) == a && is_ts_argument(a) && forall|m: int|
            0 <= m < i ==> !is_ts_argument(#[trigger] args.kid(m))
}

/// Whether `a` is the only argument of a list of TypeScript.
pub open spec fn is_only_argument(args: Node<'_>, a: Node<'_>) -> bool {
    exists|i: int|
        0 <= i < args.arity() && #[trigger] args.kid(i) == a && is_ts_argument(a) && forall|m: int|
            0 <= m < args.arity() && m != i ==> !is_ts_argument(#[trigger] args.kid(m))
}

/// Whether a call of TypeScript loads `module`: by `require` with a literal as its
/// only argument, or by `import` with a literal as its first.
pub open spec fn loads_module(c: Node<'_>, module: Seq<char>) -> bool {
    c.at("function") matches Some(f) && c.at("arguments") matches Some(args) && args.isa(
        "arguments",
    ) && exists|a: Node<'_>|
        #![trigger is_only_argument(args, a)]
        #![trigger is_first_argument(args, a)]
        is_ts_literal(a) && module == literal_text(a) && ((f.isa("identifier") && f.txt()
            == "require"@ && is_only_argument(args, a)) || (f.isa("import") && is_first_argument(
            args,
            a,
        )))
}

proof fn lemma_first_argument<'a>(args: Node<'a>, i: int)
    requires
        0 <= i,
        forall|m: int| 0 <= m < i && m < args.arity() ==> !is_ts_argument(#[trigger] args.kid(m)),
    ensures
        found_from(&imports::typescript::Argument, args, i) matches Some(a) ==> is_first_argument(
            args,
            a,
        ),
        found_from(&imports::typescript::Argument, args, i) is None ==> forall|m: int|
            0 <= m < args.arity() ==> !is_ts_argument(#[trigger] args.kid(m)),
    decreases args.arity() - i,
{
    if i < args.arity() && !is_ts_argument(args.kid(i)) {
        lemma_first_argument(args, i + 1);
    }
}

proof fn lemma_last_argument<'a>(args: Node<'a>, k: nat)
    requires
        k <= args.arity(),
    ensures
        last_upto(&imports::typescript::Argument, args, k) matches Some(a) ==> exists|i: int|
            0 <= i < k && #[trigger] args.kid(i) == a && is_ts_argument(a) && forall|m: int|
                i < m < k ==> !is_ts_argument(#[trigger] args.kid(m)),
        last_upto(&imports::typescript::Argument, args, k) is None ==> forall|m: int|
            0 <= m < k ==> !is_ts_argument(#[trigger] args.kid(m)),
    decreases k,
{
    if k > 0 {
        lemma_last_argument(args, (k - 1) as nat);
        if is_ts_argument(args.kid(k - 1)) {
            assert(forall|m: int| k - 1 < m < k ==> !is_ts_argument(#[trigger] args.kid(m)));
        } else if last_upto(&imports::typescript::Argument, args, (k - 1) as nat) is Some {
            let a = last_upto(&imports::typescript::Argument, args, (k - 1) as nat)->0;
            let i = choose|i: int|
                0 <= i < k - 1 && #[trigger] args.kid(i) == a && is_ts_argument(a) && forall|m: int|
                    i < m < k - 1 ==> !is_ts_argument(#[trigger] args.kid(m));
            assert(args.kid(i) == a);
        }
    }
}

proof fn lemma_only_argument<'a>(args: Node<'a>)
    ensures
        imports::typescript::only_argument(args) matches Some(a) ==> is_only_argument(args, a),
        imports::typescript::only_argument(args) is None ==> forall|a: Node<'a>|
            !#[trigger] is_only_argument(args, a),
        found(&imports::typescript::Argument, args) matches Some(a) ==> forall|b: Node<'a>| #[trigger]
            is_first_argument(args, b) ==> b == a,
        found(&imports::typescript::Argument, args) is None ==> forall|b: Node<'a>|
            !#[trigger] is_first_argument(args, b),
        imports::typescript::only_argument(args) matches Some(a) ==> forall|b: Node<'a>| #[trigger]
            is_only_argument(args, b) ==> b == a,
        found(&imports::typescript::Argument, args) matches Some(a) ==> is_first_argument(args, a),
{
    lemma_first_argument(args, 0);
    lemma_last_argument(args, args.arity());
    let first = found(&imports::typescript::Argument, args);
    let last = last_found(&imports::typescript::Argument, args);
    if first is Some && last is Some {
        let a = first->0;
        let z = last->0;
        let i = choose|i: int|
            0 <= i < args.arity() && #[trigger] args.kid(i) == a && is_ts_argument(a)
                && forall|m: int| 0 <= m < i ==> !is_ts_argument(#[trigger] args.kid(m));
        let j = choose|j: int|
            0 <= j < args.arity() && #[trigger] args.kid(j) == z && is_ts_argument(z)
                && forall|m: int| j < m < args.arity() ==> !is_ts_argument(#[trigger] args.kid(m));
        if i < j {
            crate::tree::lemma_kid_order(args, i, j, a);
        }
        if a.index() == z.index() {
            assert(i == j);
            assert(is_only_argument(args, a));
        } else {
            assert forall|b: Node<'a>| !#[trigger] is_only_argument(args, b) by {
                if is_only_argument(args, b) {
                    let x = choose|x: int|
                        0 <= x < args.arity() && #[trigger] args.kid(x) == b && is_ts_argument(b)
                            && forall|m: int|
                            0 <= m < args.arity() && m != x ==> !is_ts_argument(
                                #[trigger] args.kid(m),
                            );
                    assert(args.kid(i) == a && args.kid(j) == z);
                }
            }
        }
        assert forall|b: Node<'a>| #[trigger] is_first_argument(args, b) implies b == a by {
            let x = choose|x: int|
                0 <= x < args.arity() && #[trigger] args.kid(x) == b && is_ts_argument(b)
                    && forall|m: int| 0 <= m < x ==> !is_ts_argument(#[trigger] args.kid(m));
            assert(args.kid(i) == a);
        }
        assert forall|b: Node<'a>| #[trigger] is_only_argument(args, b) implies b == a by {
            let x = choose|x: int|
                0 <= x < args.arity() && #[trigger] args.kid(x) == b && is_ts_argument(b)
                    && forall|m: int|
                    0 <= m < args.arity() && m != x ==> !is_ts_argument(#[trigger] args.kid(m));
            assert(args.kid(i) == a);
        }
    }
}

/// What names something in a clause of an import of TypeScript.
pub open spec fn ts_clause_parts<'a>() -> spec_fn(Node<'a>) -> bool {
    |c: Node<'a>| c.isa("identifier") || c.isa("named_imports") || c.isa("namespace_import")
}

/// Names in braces of an import of TypeScript.
pub open spec fn ts_specifiers<'a>() -> spec_fn(Node<'a>) -> bool {
    |c: Node<'a>| c.isa("import_specifier") && c.at("name") is Some
}

/// The name that a node has.
pub open spec fn own_name<'a>() -> spec_fn(Seq<char>, Node<'a>) -> bool {
    |s: Seq<char>, c: Node<'a>| s == word_at(c, "name")
}

/// The names that a part of a clause of an import of TypeScript gives.
pub open spec fn ts_clause_names<'a>() -> spec_fn(Seq<Seq<char>>, Node<'a>) -> bool {
    |s: Seq<Seq<char>>, c: Node<'a>|
        if c.isa("identifier") {
            s == seq![c.txt()]
        } else if c.isa("named_imports") {
            reports_kids(c, ts_specifiers(), own_name(), s)
        } else {
            match first(c, "identifier") {
                Some(id) => s == seq!["*"@, id.txt()],
                None => s == seq!["*"@],
            }
        }
}

/// Whether `x` is what an import statement of TypeScript imports.
pub open spec fn is_ts_import(x: Import, c: Node<'_>) -> bool {
    let module = match c.at("source") {
        Some(source) => literal_text(source),
        None => Seq::empty(),
    };
    &&& x.module == module
    &&& x.alias is None
    &&& x.line == c.top()
    &&& match first(c, "import_clause") {
        Some(clause) => {
            &&& reports_kid_blocks(clause, ts_clause_parts(), ts_clause_names(), x.names)
            &&& x.is_from == Some(!folded(&imports::typescript::IsDefault, false, clause))
        },
        None => x.names.len() == 0 && x.is_from == Some(true),
    }
}

proof fn lemma_ts_clause<'a>(clause: Node<'a>)
    ensures
        reports_kid_blocks(
            clause,
            ts_clause_parts(),
            ts_clause_names(),
            picked(&imports::typescript::ClauseNames, clause),
        ),
{
    let q = imports::typescript::ClauseNames;
    assert forall|i: int| 0 <= i < clause.arity() && ts_clause_parts()(
        #[trigger] clause.kid(i),
    ) implies ts_clause_names()(q.picks(clause.kid(i)), clause.kid(i)) by {
        let c = clause.kid(i);
        lemma_picked_kids(&imports::typescript::Specifiers, c, ts_specifiers(), own_name());
        if first(c, "identifier") is Some {
            assert(seq!["*"@] + seq![first(c, "identifier")->0.txt()] =~= seq![
                "*"@,
                first(c, "identifier")->0.txt(),
            ]);
        }
    }
    lemma_picked_blocks(&q, clause, ts_clause_parts(), ts_clause_names());
}

/// Nodes of TypeScript below which no import is looked for.
pub open spec fn typescript_closed<'a>() -> spec_fn(Node<'a>) -> bool {
    |c: Node<'a>| c.isa("import_statement") || c.isa("export_statement")
}

/// Nodes of TypeScript that may import.
pub open spec fn typescript_nodes<'a>() -> spec_fn(Node<'a>) -> bool {
    |c: Node<'a>| c.isa("call_expression") || c.isa("import_statement") || c.isa("export_statement")
}

/// What a node of TypeScript imports.
pub open spec fn typescript_import<'a>() -> spec_fn(Seq<Import>, Node<'a>) -> bool {
    |s: Seq<Import>, c: Node<'a>| if c.isa("call_expression") {
            if exists|module: Seq<char>| #[trigger] loads_module(c, module) {
                s.len() == 1 && loads_module(c, s[0].module) && imports_this(
                    s[0],
                    s[0].module,
                    Seq::empty(),
                    Some(true),
                    None,
                    c.top(),
                )
            } else {
                s.len() == 0
            }
        } else if c.isa("import_statement") {
            s.len() == 1 && is_ts_import(s[0], c)
        } else {
            match c.at("source") {
                Some(source) => imports_only(
                    s,
                    literal_text(source),
                    Seq::empty(),
                    Some(true),
                    None,
                    c.top(),
                ),
                None => s.len() == 0,
            }
        }
}

proof fn lemma_ts_call<'a>(c: Node<'a>)
    requires
        c.isa("call_expression"),
    ensures
        typescript_import()(imports::typescript::Imports.yields(c), c),
{
    let s = imports::typescript::Imports.yields(c);
    reveal_strlit("identifier");
    reveal_strlit("import");
    assert("identifier"@.len() == 10);
    assert("import"@.len() == 6);
    if c.at("function") is Some && c.at("arguments") is Some && c.at("arguments")->0.isa(
        "arguments",
    ) {
        let f = c.at("function")->0;
        let args = c.at("arguments")->0;
        lemma_only_argument(args);
        assert forall|module: Seq<char>| #[trigger] loads_module(c, module) implies s.len() == 1
            && s[0].module == module by {
            let a = choose|a: Node<'_>|
                #![trigger is_only_argument(args, a)]
                #![trigger is_first_argument(args, a)]
                is_ts_literal(a) && module == literal_text(a) && ((f.isa("identifier") && f.txt()
                    == "require"@ && is_only_argument(args, a)) || (f.isa("import")
                    && is_first_argument(args, a)));
        }
        if s.len() > 0 {
            if f.isa("identifier") {
                let a = imports::typescript::only_argument(args)->0;
                assert(is_only_argument(args, a));
            } else {
                let a = found(&imports::typescript::Argument, args)->0;
                assert(is_first_argument(args, a));
            }
            assert(loads_module(c, s[0].module));
        }
    }
}

/// The imports of a TypeScript file are reported each one time, in the order of the source,
/// and nothing else is.
pub proof fn typescript_imports_are_reported<'a>(root: Node<'a>)
    ensures
        reports_blocks(
            root,
            closed_by(typescript_closed()),
            typescript_nodes(),
            typescript_import(),
            imports_in(root, Language::TypeScript),
        ),
        imports_in(root, Language::JavaScript) == imports_in(root, Language::TypeScript),
{
    let w = imports::typescript::Imports;
    assert forall|c: Node<'a>| is_open(root, closed_by(typescript_closed()), c) implies (typescript_nodes()(c)
        ==> typescript_import()(#[trigger] w.yields(c), c)) && (!typescript_nodes()(c) ==> w.yields(c).len()
        == 0) by {
        if c.isa("call_expression") {
            lemma_ts_call(c);
        }
        if first(c, "import_clause") is Some {
            lemma_ts_clause(first(c, "import_clause")->0);
        }
    }
    lemma_reported_blocks(&w, root, typescript_closed(), typescript_nodes(), typescript_import());
}

} // verus!
