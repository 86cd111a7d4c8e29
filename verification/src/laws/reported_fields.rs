//! Which nodes of a file are reported as its constants, and as the fields of its
//! classes.

use vstd::prelude::*;

use crate::constants;
use crate::extract::constants_in;
use crate::lang;
use crate::laws::listing::{
    closed_by, lemma_picked_blocks, lemma_picked_kids, lemma_reported, lists_kids, reports,
    reports_kid_blocks, reports_kids,
};
use crate::laws::reported_functions::{is_ocaml_function, lemma_found, txt_at, word_at};
use crate::lists::group_lists;
use crate::names::{capital_visibility, is_constant_name, underscore_visibility};
use crate::nodes::first;
use crate::text::{begins, has, stripped, stripped_front, trimmed};
use crate::tree::{group_tree, Node};
use crate::types::{Field, Language};
use crate::walk::{folded_upto, found, last_found, picked, Picker, Test};

verus! {

broadcast use {group_tree, group_lists};

/// Whether a field says this.
pub open spec fn is_field(
    f: Field,
    name: Seq<char>,
    place: Node<'_>,
    field_type: Option<Seq<char>>,
    value: Option<Seq<char>>,
) -> bool {
    f.name == name && f.line_number == place.top() && f.line_end == place.bottom() && f.field_type
        == field_type && f.default_value == value
}

/// Whether a field is a constant of a file, and says this.
pub open spec fn is_constant(
    f: Field,
    name: Seq<char>,
    place: Node<'_>,
    field_type: Option<Seq<char>>,
    value: Option<Seq<char>>,
) -> bool {
    is_field(f, name, place, field_type, value) && f.is_static && f.is_constant && f.visibility
        is None
}

/// Whether a list holds one constant that says this, where the name is there and
/// spelled as one, and nothing else.
pub open spec fn is_spelled_constant(
    s: Seq<Field>,
    name: Option<Seq<char>>,
    place: Node<'_>,
    field_type: Option<Seq<char>>,
    value: Option<Seq<char>>,
) -> bool {
    match name {
        Some(name) if is_constant_name(name) => s.len() == 1 && is_constant(
            s[0],
            name,
            place,
            field_type,
            value,
        ),
        _ => s.len() == 0,
    }
}

/// Whether the child at position `j` can be a value: it stands behind what `opens`
/// accepts, and is neither that nor skipped.
pub open spec fn can_be_value(
    opens: spec_fn(int) -> bool,
    skips: spec_fn(int) -> bool,
    j: int,
) -> bool {
    !opens(j) && !skips(j) && exists|i: int| 0 <= i < j && #[trigger] opens(i)
}

/// Whether `v` is the text of the first of the first `k` children that can be a
/// value.
pub open spec fn is_first_value(
    n: Node<'_>,
    k: int,
    opens: spec_fn(int) -> bool,
    skips: spec_fn(int) -> bool,
    v: Option<Seq<char>>,
) -> bool {
    match v {
        Some(t) => exists|j: int|
            0 <= j < k && #[trigger] can_be_value(opens, skips, j) && t == n.kid(j).txt()
                && forall|m: int| 0 <= m < j ==> !#[trigger] can_be_value(opens, skips, m),
        None => forall|m: int| 0 <= m < k ==> !#[trigger] can_be_value(opens, skips, m),
    }
}

/// Whether one of the first `k` positions opens.
pub open spec fn is_opened(opens: spec_fn(int) -> bool, k: int) -> bool {
    exists|i: int| 0 <= i < k && #[trigger] opens(i)
}

pub(crate) proof fn lemma_value_step(
    n: Node<'_>,
    k: int,
    opens: spec_fn(int) -> bool,
    skips: spec_fn(int) -> bool,
    v: Option<Seq<char>>,
)
    requires
        0 < k,
        is_first_value(n, k - 1, opens, skips, v),
    ensures
        is_opened(opens, k) == (is_opened(opens, k - 1) || opens(k - 1)),
        can_be_value(opens, skips, k - 1) == (!opens(k - 1) && !skips(k - 1) && is_opened(
            opens,
            k - 1,
        )),
        is_first_value(
            n,
            k,
            opens,
            skips,
            if v is None && can_be_value(opens, skips, k - 1) {
                Some(n.kid(k - 1).txt())
            } else {
                v
            },
        ),
{
    if is_opened(opens, k - 1) {
        let i = choose|i: int| 0 <= i < k - 1 && #[trigger] opens(i);
        assert(opens(i));
    }
    if is_opened(opens, k) && !opens(k - 1) {
        let i = choose|i: int| 0 <= i < k && #[trigger] opens(i);
        assert(opens(i));
    }
    if v is Some {
        let t = v->0;
        let j = choose|j: int|
            0 <= j < k - 1 && #[trigger] can_be_value(opens, skips, j) && t == n.kid(j).txt()
                && forall|m: int| 0 <= m < j ==> !#[trigger] can_be_value(opens, skips, m);
        assert(can_be_value(opens, skips, j));
    } else if can_be_value(opens, skips, k - 1) {
        assert(is_first_value(n, k, opens, skips, Some(n.kid(k - 1).txt())));
    }
}

/// Positions of children of a kind.
pub open spec fn of_kind<'a>(n: Node<'a>, kind: &str) -> spec_fn(int) -> bool {
    |i: int| n.kid(i).isa(kind)
}

/// Whether `v` is the text of the last of the first `k` children that `p` accepts.
pub open spec fn is_last<'a>(
    n: Node<'a>,
    k: int,
    p: spec_fn(int) -> bool,
    v: Option<Seq<char>>,
) -> bool {
    match v {
        Some(t) => exists|j: int|
            0 <= j < k && #[trigger] p(j) && t == n.kid(j).txt() && forall|m: int|
                j < m < k ==> !#[trigger] p(m),
        None => forall|m: int| 0 <= m < k ==> !#[trigger] p(m),
    }
}

pub(crate) proof fn lemma_last_step<'a>(n: Node<'a>, k: int, p: spec_fn(int) -> bool, v: Option<Seq<char>>)
    requires
        0 < k,
        is_last(n, k - 1, p, v),
    ensures
        is_last(
            n,
            k,
            p,
            if p(k - 1) {
                Some(n.kid(k - 1).txt())
            } else {
                v
            },
        ),
{
    if p(k - 1) {
        assert(forall|m: int| k - 1 < m < k ==> !#[trigger] p(m));
    } else if v is Some {
        let j = choose|j: int|
            0 <= j < k - 1 && #[trigger] p(j) && v->0 == n.kid(j).txt() && forall|m: int|
                j < m < k - 1 ==> !#[trigger] p(m);
        assert(p(j));
    }
}

/// Statements of Python that assign.
pub open spec fn python_assignments<'a>() -> spec_fn(Node<'a>) -> bool {
    |c: Node<'a>| c.isa("expression_statement") && c.arity() > 0 && c.kid(0).isa("assignment")
}

/// The constant that a statement of Python gives.
pub open spec fn python_constant<'a>() -> spec_fn(Seq<Field>, Node<'a>) -> bool {
    |s: Seq<Field>, c: Node<'a>| {
        let a = c.kid(0);
        match a.at("left") {
            Some(left) if left.isa("identifier") => is_spelled_constant(
                s,
                Some(left.txt()),
                a,
                txt_at(a, "type"),
                txt_at(a, "right"),
            ),
            _ => s.len() == 0,
        }
    }
}

/// The constants of a Python file are reported each one time, in the order of the source,
/// and nothing else is.
pub proof fn python_constants_are_reported<'a>(root: Node<'a>)
    ensures
        reports_kid_blocks(root, python_assignments(), python_constant(), constants_in(root, Language::Python)),
{
    let q = constants::python::Constants;
    assert forall|i: int| 0 <= i < root.arity() && python_assignments()(#[trigger] root.kid(i)) implies python_constant()(
        q.picks(root.kid(i)),
        root.kid(i),
    ) by {
        let c = root.kid(i);
    }
    lemma_picked_blocks(&q, root, python_assignments(), python_constant());
}

/// Nodes of Rust below which no constant is looked for.
pub open spec fn rust_leaves<'a>() -> spec_fn(Node<'a>) -> bool {
    |c: Node<'a>| c.isa("const_item") || c.isa("static_item") || c.isa("function_item") || c.isa("impl_item") || c.isa("struct_item")
}

/// Constants and statics of Rust.
pub open spec fn rust_constants<'a>() -> spec_fn(Node<'a>) -> bool {
    |c: Node<'a>| (c.isa("const_item") || c.isa("static_item")) && c.at("name") is Some
}

/// The visibility that a node of Rust states.
pub open spec fn rust_visibility(c: Node<'_>) -> Seq<char> {
    match first(c, "visibility_modifier") {
        Some(m) => if m.txt() == "pub"@ {
            "public"@
        } else {
            m.txt()
        },
        None => "private"@,
    }
}

/// What is reported of a constant or static of Rust.
pub open spec fn rust_constant<'a>() -> spec_fn(Field, Node<'a>) -> bool {
    |f: Field, c: Node<'a>| is_field(f, word_at(c, "name"), c, txt_at(c, "type"), txt_at(c, "value")) && f.is_constant
        && f.is_static == c.isa("static_item") && f.visibility == Some(rust_visibility(c))
}

/// The constants and statics of a Rust file outside of functions and types are
/// reported each one time, in the order of the source, and nothing else is.
pub proof fn rust_constants_are_reported<'a>(root: Node<'a>)
    ensures
        reports(
            root,
            closed_by(rust_leaves()),
            rust_constants(),
            rust_constant(),
            constants_in(root, Language::Rust),
        ),
{
    reveal_strlit("const_item");
    reveal_strlit("static_item");
    assert("const_item"@.len() == 10);
    assert("static_item"@.len() == 11);
    lemma_reported(
        &constants::rust::Constants,
        root,
        rust_leaves(),
        rust_constants(),
        rust_constant(),
    );
}

/// Declarations of constants and variables of Go.
pub open spec fn go_declarations<'a>() -> spec_fn(Node<'a>) -> bool {
    |c: Node<'a>| c.isa("const_declaration") || c.isa("var_declaration")
}

/// Constants of Go.
pub open spec fn go_const_specs<'a>() -> spec_fn(Node<'a>) -> bool {
    |c: Node<'a>| c.isa("const_spec") && c.at("name") is Some
}

/// Variables of Go.
pub open spec fn go_var_specs<'a>() -> spec_fn(Node<'a>) -> bool {
    |c: Node<'a>| c.isa("var_spec") && c.at("name") is Some
}

/// Nodes of Go below which no variable is looked for.
pub open spec fn go_var_leaves<'a>() -> spec_fn(Node<'a>) -> bool {
    |c: Node<'a>| c.isa("var_spec") || !c.isa("var_spec_list")
}

/// What is reported of a constant or variable of Go.
pub open spec fn go_declared<'a>(is_const: bool) -> spec_fn(Field, Node<'a>) -> bool {
    |f: Field, c: Node<'a>| is_field(f, word_at(c, "name"), c, txt_at(c, "type"), txt_at(c, "value")) && f.is_static
        && f.is_constant == is_const && f.visibility == capital_visibility(word_at(c, "name"))
}

/// The constants and variables of a declaration of Go.
pub open spec fn go_constants<'a>() -> spec_fn(Seq<Field>, Node<'a>) -> bool {
    |s: Seq<Field>, c: Node<'a>| if c.isa("const_declaration") {
        reports_kids(c, go_const_specs(), go_declared(true), s)
    } else {
        reports(c, closed_by(go_var_leaves()), go_var_specs(), go_declared(false), s)
    }
}

/// The constants of a Go file are reported each one time, in the order of the source,
/// and nothing else is.
pub proof fn go_constants_are_reported<'a>(root: Node<'a>)
    ensures
        reports_kid_blocks(root, go_declarations(), go_constants(), constants_in(root, Language::Go)),
{
    let q = constants::go::Constants;
    assert forall|i: int| 0 <= i < root.arity() && go_declarations()(#[trigger] root.kid(i)) implies go_constants()(
        q.picks(root.kid(i)),
        root.kid(i),
    ) by {
        let c = root.kid(i);
        lemma_picked_kids(&constants::go::ConstSpecs, c, go_const_specs(), go_declared(true));
        lemma_reported(
            &constants::go::VarSpecs,
            c,
            go_var_leaves(),
            go_var_specs(),
            go_declared(false),
        );
    }
    lemma_picked_blocks(&q, root, go_declarations(), go_constants());
}

/// Declarations of TypeScript with `const`.
pub open spec fn ts_const<'a>() -> spec_fn(Node<'a>) -> bool {
    |c: Node<'a>| c.isa("lexical_declaration") && begins(c.txt(), "const "@)
}

/// Statements of TypeScript that may give constants.
pub open spec fn ts_statements<'a>() -> spec_fn(Node<'a>) -> bool {
    |c: Node<'a>| c.isa("lexical_declaration") || c.isa("export_statement")
}

/// Variables of TypeScript that are spelled as constants.
pub open spec fn ts_declarators<'a>() -> spec_fn(Node<'a>) -> bool {
    |c: Node<'a>| c.isa("variable_declarator") && (c.at("name") matches Some(name) && is_constant_name(name.txt()))
}

/// What is reported of a constant of TypeScript.
pub open spec fn ts_declarator<'a>() -> spec_fn(Field, Node<'a>) -> bool {
    |f: Field, c: Node<'a>| is_constant(f, word_at(c, "name"), c, None, txt_at(c, "value"))
}

/// The constants of a declaration of TypeScript.
pub open spec fn ts_declared<'a>() -> spec_fn(Seq<Field>, Node<'a>) -> bool {
    |s: Seq<Field>, c: Node<'a>| reports_kids(c, ts_declarators(), ts_declarator(), s)
}

/// The constants of a statement of TypeScript.
pub open spec fn ts_constants<'a>() -> spec_fn(Seq<Field>, Node<'a>) -> bool {
    |s: Seq<Field>, c: Node<'a>| if c.isa("lexical_declaration") {
        if begins(c.txt(), "const "@) {
            ts_declared()(s, c)
        } else {
            s.len() == 0
        }
    } else {
        reports_kid_blocks(c, ts_const(), ts_declared(), s)
    }
}

/// The constants of a TypeScript file are reported each one time, in the order of the source,
/// and nothing else is.
pub proof fn typescript_constants_are_reported<'a>(root: Node<'a>)
    ensures
        reports_kid_blocks(root, ts_statements(), ts_constants(), constants_in(root, Language::TypeScript)),
        constants_in(root, Language::JavaScript) == constants_in(root, Language::TypeScript),
{
    let q = constants::typescript::Constants;
    assert forall|i: int| 0 <= i < root.arity() && ts_statements()(#[trigger] root.kid(i)) implies ts_constants()(
        q.picks(root.kid(i)),
        root.kid(i),
    ) by {
        let c = root.kid(i);
        lemma_picked_kids(
            &constants::typescript::Declarators,
            c,
            ts_declarators(),
            ts_declarator(),
        );
        assert forall|j: int| 0 <= j < c.arity() && ts_const()(#[trigger] c.kid(j)) implies ts_declared()(
            constants::typescript::Lexical.picks(c.kid(j)),
            c.kid(j),
        ) by {
            lemma_picked_kids(
                &constants::typescript::Declarators,
                c.kid(j),
                ts_declarators(),
                ts_declarator(),
            );
        }
        lemma_picked_blocks(&constants::typescript::Lexical, c, ts_const(), ts_declared());
    }
    lemma_picked_blocks(&q, root, ts_statements(), ts_constants());
}

proof fn lemma_defined<'a>(n: Node<'a>, k: nat)
    requires
        k <= n.arity(),
    ensures
        is_last(
            n,
            k as int,
            of_kind(n, "identifier"),
            folded_upto(&constants::c::Defined, (None, None), n, k).0,
        ),
        is_last_trimmed(
            n,
            k as int,
            of_kind(n, "preproc_arg"),
            folded_upto(&constants::c::Defined, (None, None), n, k).1,
        ),
    decreases k,
{
    if k > 0 {
        lemma_defined(n, (k - 1) as nat);
        reveal_strlit("identifier");
        reveal_strlit("preproc_arg");
        assert("identifier"@.len() == 10);
        assert("preproc_arg"@.len() == 11);
        let s = folded_upto(&constants::c::Defined, (None, None), n, (k - 1) as nat);
        lemma_last_step(n, k as int, of_kind(n, "identifier"), s.0);
        let v = choose|v: Option<Seq<char>>| #[trigger]
            is_last(n, k - 1, of_kind(n, "preproc_arg"), v) && s.1 == trimmed_text(v);
        lemma_last_step(n, k as int, of_kind(n, "preproc_arg"), v);
        let w = if of_kind(n, "preproc_arg")(k - 1) {
            Some(n.kid(k - 1).txt())
        } else {
            v
        };
        assert(is_last(n, k as int, of_kind(n, "preproc_arg"), w));
        assert(folded_upto(&constants::c::Defined, (None, None), n, k).1 == trimmed_text(w));
    } else {
        assert(is_last(n, 0, of_kind(n, "preproc_arg"), None));
        assert(trimmed_text(None) is None);
    }
}

/// A text without the white space around it.
pub open spec fn trimmed_text(v: Option<Seq<char>>) -> Option<Seq<char>> {
    match v {
        Some(t) => Some(trimmed(t)),
        None => None,
    }
}

/// Whether `v` is the text, without the white space around it, of the last of the
/// first `k` children that `p` accepts.
pub open spec fn is_last_trimmed<'a>(
    n: Node<'a>,
    k: int,
    p: spec_fn(int) -> bool,
    v: Option<Seq<char>>,
) -> bool {
    exists|w: Option<Seq<char>>| #[trigger] is_last(n, k, p, w) && v == trimmed_text(w)
}

/// Nodes of C that may give constants.
pub open spec fn c_statements<'a>() -> spec_fn(Node<'a>) -> bool {
    |c: Node<'a>| c.isa("preproc_def") || c.isa("declaration")
}

/// Whether a declaration of C is one of constants.
pub open spec fn is_c_const(c: Node<'_>, cpp: bool) -> bool {
    exists|i: int|
        0 <= i < c.arity() && (#[trigger] c.kid(i)).isa("type_qualifier") && (c.kid(i).txt()
            == "const"@ || (cpp && c.kid(i).txt() == "constexpr"@))
}

/// Variables of C that are spelled as constants.
pub open spec fn c_declarators<'a>() -> spec_fn(Node<'a>) -> bool {
    |c: Node<'a>|
        c.isa("init_declarator") && (c.at("declarator") matches Some(d) && is_constant_name(
            d.txt(),
        ))
}

/// What is reported of a constant of C.
pub open spec fn c_declarator<'a>(declaration: Node<'a>) -> spec_fn(Field, Node<'a>) -> bool {
    |f: Field, c: Node<'a>| is_constant(
        f,
        word_at(c, "declarator"),
        declaration,
        txt_at(declaration, "type"),
        txt_at(c, "value"),
    )
}

/// Whether `s` is the constant that a `#define` of C gives.
pub open spec fn is_c_define(s: Seq<Field>, c: Node<'_>) -> bool {
    exists|name: Option<Seq<char>>, value: Option<Seq<char>>|
        #![trigger is_last(c, c.arity() as int, of_kind(c, "identifier"), name), is_last_trimmed(
            c,
            c.arity() as int,
            of_kind(c, "preproc_arg"),
            value,
        )]
        is_last(c, c.arity() as int, of_kind(c, "identifier"), name) && is_last_trimmed(
            c,
            c.arity() as int,
            of_kind(c, "preproc_arg"),
            value,
        ) && is_spelled_constant(s, name, c, None, value)
}

/// The constants of a node of C.
pub open spec fn c_constants<'a>(cpp: bool) -> spec_fn(Seq<Field>, Node<'a>) -> bool {
    |s: Seq<Field>, c: Node<'a>| if c.isa("preproc_def") {
        is_c_define(s, c)
    } else if is_c_const(c, cpp) {
        reports_kids(c, c_declarators(), c_declarator(c), s)
    } else {
        s.len() == 0
    }
}

proof fn lemma_c_constants<'a>(root: Node<'a>, cpp: bool)
    ensures
        reports_kid_blocks(
            root,
            c_statements(),
            c_constants(cpp),
            picked(&constants::c::Constants { cpp }, root),
        ),
{
    let q = constants::c::Constants { cpp };
    assert forall|i: int| 0 <= i < root.arity() && c_statements()(
        #[trigger] root.kid(i),
    ) implies c_constants(cpp)(q.picks(root.kid(i)), root.kid(i)) by {
        let c = root.kid(i);
        lemma_defined(c, c.arity());
        let t = constants::c::ConstQualifier { cpp };
        lemma_found(&t, c, 0);
        assert forall|j: int| 0 <= j < c.arity() implies t.accepts(#[trigger] c.kid(j)) == (c.kid(
            j,
        ).isa("type_qualifier") && (c.kid(j).txt() == "const"@ || (cpp && c.kid(j).txt()
            == "constexpr"@))) by {
        }
        lemma_picked_kids(
            &constants::c::Declarators { declaration: c },
            c,
            c_declarators(),
            c_declarator(c),
        );
    }
    lemma_picked_blocks(&q, root, c_statements(), c_constants(cpp));
}

/// The constants of a C or C++ file are reported each one time, in the order of the
/// source, and nothing else is.
pub proof fn c_constants_are_reported<'a>(root: Node<'a>)
    ensures
        reports_kid_blocks(
            root,
            c_statements(),
            c_constants(false),
            constants_in(root, Language::C),
        ),
        reports_kid_blocks(
            root,
            c_statements(),
            c_constants(true),
            constants_in(root, Language::Cpp),
        ),
{
    lemma_c_constants(root, false);
    lemma_c_constants(root, true);
}

/// Positions of names of constants of Ruby: those before the first `=`.
pub open spec fn ruby_names<'a>(n: Node<'a>) -> spec_fn(int) -> bool {
    |i: int| n.kid(i).isa("constant") && !is_opened(of_kind(n, "="), i)
}

/// No position is skipped.
pub open spec fn none_skipped() -> spec_fn(int) -> bool {
    |i: int| false
}

proof fn lemma_sides<'a>(n: Node<'a>, k: nat)
    requires
        k <= n.arity(),
    ensures
        ({
            let s = folded_upto(&constants::ruby::Sides, (None, None, false), n, k);
            &&& s.2 == is_opened(of_kind(n, "="), k as int)
            &&& is_last(n, k as int, ruby_names(n), s.0)
            &&& is_first_value(n, k as int, of_kind(n, "="), none_skipped(), s.1)
        }),
    decreases k,
{
    if k > 0 {
        lemma_sides(n, (k - 1) as nat);
        reveal_strlit("constant");
        reveal_strlit("=");
        assert("constant"@.len() == 8);
        assert("="@.len() == 1);
        let s = folded_upto(&constants::ruby::Sides, (None, None, false), n, (k - 1) as nat);
        lemma_value_step(n, k as int, of_kind(n, "="), none_skipped(), s.1);
        lemma_last_step(n, k as int, ruby_names(n), s.0);
        if s.1 is Some {
            assert(s.2);
        }
    }
}

/// Assignments of Ruby.
pub open spec fn ruby_assignments<'a>() -> spec_fn(Node<'a>) -> bool {
    |c: Node<'a>| c.isa("assignment")
}

/// Whether `s` is the constant that an assignment of Ruby gives.
pub open spec fn is_ruby_constant(s: Seq<Field>, c: Node<'_>) -> bool {
    exists|name: Option<Seq<char>>, value: Option<Seq<char>>|
        #![trigger is_last(c, c.arity() as int, ruby_names(c), name), is_first_value(
            c,
            c.arity() as int,
            of_kind(c, "="),
            none_skipped(),
            value,
        )]
        is_last(c, c.arity() as int, ruby_names(c), name) && is_first_value(
            c,
            c.arity() as int,
            of_kind(c, "="),
            none_skipped(),
            value,
        ) && is_spelled_constant(s, name, c, None, value)
}

/// The constant of an assignment of Ruby.
pub open spec fn ruby_constant<'a>() -> spec_fn(Seq<Field>, Node<'a>) -> bool {
    |s: Seq<Field>, c: Node<'a>| is_ruby_constant(s, c)
}

/// The constants of a Ruby file are reported each one time, in the order of the source,
/// and nothing else is.
pub proof fn ruby_constants_are_reported<'a>(root: Node<'a>)
    ensures
        reports_kid_blocks(root, ruby_assignments(), ruby_constant(), constants_in(root, Language::Ruby)),
{
    let q = constants::ruby::Constants;
    assert forall|i: int| 0 <= i < root.arity() && ruby_assignments()(#[trigger] root.kid(i)) implies ruby_constant()(
        q.picks(root.kid(i)),
        root.kid(i),
    ) by {
        let c = root.kid(i);
        lemma_sides(c, c.arity());
    }
    lemma_picked_blocks(&q, root, ruby_assignments(), ruby_constant());
}

proof fn lemma_initial<'a>(n: Node<'a>, k: nat)
    requires
        k <= n.arity(),
    ensures
        ({
            let s = folded_upto(&constants::csharp::Initial, (false, None), n, k);
            &&& s.0 == is_opened(of_kind(n, "="), k as int)
            &&& is_first_value(n, k as int, of_kind(n, "="), none_skipped(), s.1)
        }),
    decreases k,
{
    if k > 0 {
        lemma_initial(n, (k - 1) as nat);
        let s = folded_upto(&constants::csharp::Initial, (false, None), n, (k - 1) as nat);
        lemma_value_step(n, k as int, of_kind(n, "="), none_skipped(), s.1);
    }
}

/// Variables of C# that are spelled as constants.
pub open spec fn csharp_declarators<'a>() -> spec_fn(Node<'a>) -> bool {
    |c: Node<'a>|
        c.isa("variable_declarator") && (c.at("name") matches Some(name) && is_constant_name(
            name.txt(),
        ))
}

/// What is reported of a constant of C#: the value is what stands behind the `=`.
pub open spec fn csharp_declarator<'a>(
    statement: Node<'a>,
    declaration: Node<'a>,
) -> spec_fn(Field, Node<'a>) -> bool {
    |f: Field, c: Node<'a>|
        is_constant(
            f,
            word_at(c, "name"),
            statement,
            txt_at(declaration, "type"),
            f.default_value,
        ) && is_first_value(
            c,
            c.arity() as int,
            of_kind(c, "="),
            none_skipped(),
            f.default_value,
        )
}

/// Declarations of variables of C#.
pub open spec fn csharp_declarations<'a>() -> spec_fn(Node<'a>) -> bool {
    |c: Node<'a>| c.isa("variable_declaration")
}

/// The constants of a declaration of C#.
pub open spec fn csharp_declaration<'a>(statement: Node<'a>) -> spec_fn(
    Seq<Field>,
    Node<'a>,
) -> bool {
    |s: Seq<Field>, c: Node<'a>|
        reports_kids(c, csharp_declarators(), csharp_declarator(statement, c), s)
}

/// Statements of C# that declare constants.
pub open spec fn csharp_statements<'a>() -> spec_fn(Node<'a>) -> bool {
    |c: Node<'a>|
        c.isa("local_declaration_statement") && exists|i: int|
            0 <= i < c.arity() && (#[trigger] c.kid(i)).isa("modifier") && has(
                c.kid(i).txt(),
                "const"@,
            )
}

/// The constants of a statement of C#.
pub open spec fn csharp_statement<'a>() -> spec_fn(Seq<Field>, Node<'a>) -> bool {
    |s: Seq<Field>, c: Node<'a>|
        reports_kid_blocks(c, csharp_declarations(), csharp_declaration(c), s)
}

/// Statements of C# outside of types.
pub open spec fn csharp_globals<'a>() -> spec_fn(Node<'a>) -> bool {
    |c: Node<'a>| c.isa("global_statement")
}

/// The constants of a statement of C# outside of types.
pub open spec fn csharp_global<'a>() -> spec_fn(Seq<Field>, Node<'a>) -> bool {
    |s: Seq<Field>, c: Node<'a>| reports_kid_blocks(c, csharp_statements(), csharp_statement(), s)
}

proof fn lemma_csharp_declaration<'a>(statement: Node<'a>, c: Node<'a>)
    ensures
        csharp_declaration(statement)(
            constants::csharp::declared_constants(statement, c),
            c,
        ),
{
    let q = constants::csharp::Declarators { statement, declaration: c };
    assert forall|i: int| 0 <= i < c.arity() && csharp_declarators()(
        #[trigger] c.kid(i),
    ) implies q.picks(c.kid(i)).len() == 1 && csharp_declarator(statement, c)(
        q.picks(c.kid(i))[0],
        c.kid(i),
    ) by {
        lemma_initial(c.kid(i), c.kid(i).arity());
    }
    lemma_picked_kids(&q, c, csharp_declarators(), csharp_declarator(statement, c));
}

proof fn lemma_csharp_statement<'a>(c: Node<'a>)
    requires
        csharp_statements()(c),
    ensures
        csharp_statement()(constants::csharp::Statements.picks(c), c),
{
    let t = constants::csharp::ConstModifier;
    lemma_found(&t, c, 0);
    let i = choose|i: int|
        0 <= i < c.arity() && (#[trigger] c.kid(i)).isa("modifier") && has(
            c.kid(i).txt(),
            "const"@,
        );
    assert(t.accepts(c.kid(i)));
    let q = constants::csharp::Declarations { statement: c };
    assert forall|i: int| 0 <= i < c.arity() && csharp_declarations()(
        #[trigger] c.kid(i),
    ) implies csharp_declaration(c)(q.picks(c.kid(i)), c.kid(i)) by {
        lemma_csharp_declaration(c, c.kid(i));
    }
    lemma_picked_blocks(&q, c, csharp_declarations(), csharp_declaration(c));
}

/// The constants of a C# file are reported each one time, in the order of the source,
/// and nothing else is.
pub proof fn csharp_constants_are_reported<'a>(root: Node<'a>)
    ensures
        reports_kid_blocks(root, csharp_globals(), csharp_global(), constants_in(root, Language::CSharp)),
{
    let q = constants::csharp::Constants;
    assert forall|i: int| 0 <= i < root.arity() && csharp_globals()(#[trigger] root.kid(i)) implies csharp_global()(
        q.picks(root.kid(i)),
        root.kid(i),
    ) by {
        let c = root.kid(i);
        let p = constants::csharp::Statements;
        assert forall|j: int| 0 <= j < c.arity() && csharp_statements()(
            #[trigger] c.kid(j),
        ) implies csharp_statement()(p.picks(c.kid(j)), c.kid(j)) by {
            lemma_csharp_statement(c.kid(j));
        }
        assert forall|j: int| 0 <= j < c.arity() && !csharp_statements()(
            #[trigger] c.kid(j),
        ) implies p.picks(c.kid(j)).len() == 0 by {
            lemma_found(&constants::csharp::ConstModifier, c.kid(j), 0);
        }
        lemma_picked_blocks(&p, c, csharp_statements(), csharp_statement());
    }
    lemma_picked_blocks(&q, root, csharp_globals(), csharp_global());
}

/// Positions of identifiers of Scala: the first of them.
pub open spec fn scala_names<'a>(n: Node<'a>) -> spec_fn(int) -> bool {
    |i: int| n.kid(i).isa("identifier") && !is_opened(of_kind(n, "identifier"), i)
}

/// Positions of what is no value of a definition of Scala: its name, and `val`.
pub open spec fn scala_skips<'a>(n: Node<'a>) -> spec_fn(int) -> bool {
    |i: int| scala_names(n)(i) || n.kid(i).isa("val")
}

proof fn lemma_definition<'a>(n: Node<'a>, k: nat)
    requires
        k <= n.arity(),
    ensures
        ({
            let s = folded_upto(&constants::scala::Definition, (None, None, false), n, k);
            &&& s.2 == is_opened(of_kind(n, "="), k as int)
            &&& s.0 is Some <==> is_opened(of_kind(n, "identifier"), k as int)
            &&& is_last(n, k as int, scala_names(n), s.0)
            &&& is_first_value(n, k as int, of_kind(n, "="), scala_skips(n), s.1)
        }),
    decreases k,
{
    if k > 0 {
        lemma_definition(n, (k - 1) as nat);
        reveal_strlit("identifier");
        reveal_strlit("=");
        reveal_strlit("val");
        assert("identifier"@.len() == 10);
        assert("="@.len() == 1);
        assert("val"@.len() == 3);
        let s = folded_upto(
            &constants::scala::Definition,
            (None, None, false),
            n,
            (k - 1) as nat,
        );
        lemma_value_step(n, k as int, of_kind(n, "="), scala_skips(n), s.1);
        lemma_last_step(n, k as int, scala_names(n), s.0);
        lemma_opened(of_kind(n, "identifier"), k as int);
    }
}

pub(crate) proof fn lemma_opened(p: spec_fn(int) -> bool, k: int)
    requires
        0 < k,
    ensures
        is_opened(p, k) == (is_opened(p, k - 1) || p(k - 1)),
{
    if is_opened(p, k - 1) {
        let i = choose|i: int| 0 <= i < k - 1 && #[trigger] p(i);
        assert(p(i));
    }
    if is_opened(p, k) && !p(k - 1) {
        let i = choose|i: int| 0 <= i < k && #[trigger] p(i);
        assert(p(i));
    }
}

/// Definitions of values of Scala.
pub open spec fn scala_definitions<'a>() -> spec_fn(Node<'a>) -> bool {
    |c: Node<'a>| c.isa("val_definition")
}

/// Whether `s` is the constant that a definition of Scala gives.
pub open spec fn is_scala_constant(s: Seq<Field>, c: Node<'_>) -> bool {
    exists|name: Option<Seq<char>>, value: Option<Seq<char>>|
        #![trigger is_last(c, c.arity() as int, scala_names(c), name), is_first_value(
            c,
            c.arity() as int,
            of_kind(c, "="),
            scala_skips(c),
            value,
        )]
        is_last(c, c.arity() as int, scala_names(c), name) && is_first_value(
            c,
            c.arity() as int,
            of_kind(c, "="),
            scala_skips(c),
            value,
        ) && is_spelled_constant(s, name, c, None, value)
}

/// The constant of a definition of Scala.
pub open spec fn scala_constant<'a>() -> spec_fn(Seq<Field>, Node<'a>) -> bool {
    |s: Seq<Field>, c: Node<'a>| is_scala_constant(s, c)
}

/// The constants of a Scala file are reported each one time, in the order of the source,
/// and nothing else is.
pub proof fn scala_constants_are_reported<'a>(root: Node<'a>)
    ensures
        reports_kid_blocks(root, scala_definitions(), scala_constant(), constants_in(root, Language::Scala)),
{
    let q = constants::scala::Constants;
    assert forall|i: int| 0 <= i < root.arity() && scala_definitions()(#[trigger] root.kid(i)) implies scala_constant()(
        q.picks(root.kid(i)),
        root.kid(i),
    ) by {
        let c = root.kid(i);
        lemma_definition(c, c.arity());
    }
    lemma_picked_blocks(&q, root, scala_definitions(), scala_constant());
}

/// Positions of names of PHP.
pub open spec fn php_names<'a>(n: Node<'a>) -> spec_fn(int) -> bool {
    |i: int| n.kid(i).isa("name")
}

proof fn lemma_element<'a>(n: Node<'a>, k: nat)
    requires
        k <= n.arity(),
    ensures
        ({
            let s = folded_upto(&constants::php::Element, (None, None, false), n, k);
            &&& s.2 == is_opened(of_kind(n, "="), k as int)
            &&& is_last(n, k as int, php_names(n), s.0)
            &&& is_first_value(n, k as int, of_kind(n, "="), php_names(n), s.1)
        }),
    decreases k,
{
    if k > 0 {
        lemma_element(n, (k - 1) as nat);
        reveal_strlit("name");
        reveal_strlit("=");
        assert("name"@.len() == 4);
        assert("="@.len() == 1);
        let s = folded_upto(&constants::php::Element, (None, None, false), n, (k - 1) as nat);
        lemma_value_step(n, k as int, of_kind(n, "="), php_names(n), s.1);
        lemma_last_step(n, k as int, php_names(n), s.0);
    }
}

/// Elements of a `const` of PHP.
pub open spec fn php_elements<'a>() -> spec_fn(Node<'a>) -> bool {
    |c: Node<'a>| c.isa("const_element")
}

/// The constant that an element of a `const` of PHP gives.
pub open spec fn php_element<'a>(declaration: Node<'a>) -> spec_fn(Seq<Field>, Node<'a>) -> bool {
    |s: Seq<Field>, c: Node<'a>|
        exists|name: Option<Seq<char>>, value: Option<Seq<char>>|
            #![trigger is_last(c, c.arity() as int, php_names(c), name), is_first_value(
                c,
                c.arity() as int,
                of_kind(c, "="),
                php_names(c),
                value,
            )]
            is_last(c, c.arity() as int, php_names(c), name) && is_first_value(
                c,
                c.arity() as int,
                of_kind(c, "="),
                php_names(c),
                value,
            ) && match name {
                Some(name) => s.len() == 1 && is_constant(s[0], name, declaration, None, value),
                None => s.len() == 0,
            }
}

/// Arguments of a call of PHP.
pub open spec fn php_arguments<'a>() -> spec_fn(Node<'a>) -> bool {
    |c: Node<'a>| c.isa("argument")
}

/// An argument as written.
pub open spec fn as_written<'a>() -> spec_fn(Seq<char>, Node<'a>) -> bool {
    |s: Seq<char>, c: Node<'a>| s == c.txt()
}

/// Calls of `define` of PHP.
pub open spec fn php_defines<'a>() -> spec_fn(Node<'a>) -> bool {
    |c: Node<'a>|
        c.isa("function_call_expression") && word_at(c, "function") == "define"@ && c.at(
            "function",
        ) is Some && c.at("arguments") is Some
}

/// The constant that a call of `define` of PHP gives: the first argument without its
/// quotes, and the second.
pub open spec fn php_define<'a>(statement: Node<'a>) -> spec_fn(Seq<Field>, Node<'a>) -> bool {
    |s: Seq<Field>, c: Node<'a>|
        exists|texts: Seq<Seq<char>>| #[trigger]
            reports_kids(c.at("arguments")->0, php_arguments(), as_written(), texts)
                && if texts.len() > 0 && stripped(texts[0], "'\""@).len() > 0 {
                s.len() == 1 && is_constant(
                    s[0],
                    stripped(texts[0], "'\""@),
                    statement,
                    None,
                    if texts.len() > 1 {
                        Some(texts[1])
                    } else {
                        None
                    },
                )
            } else {
                s.len() == 0
            }
}

/// Statements of PHP that may give constants.
pub open spec fn php_statements<'a>() -> spec_fn(Node<'a>) -> bool {
    |c: Node<'a>| c.isa("const_declaration") || c.isa("expression_statement")
}

/// The constants of a statement of PHP.
pub open spec fn php_constants<'a>() -> spec_fn(Seq<Field>, Node<'a>) -> bool {
    |s: Seq<Field>, c: Node<'a>|
        if c.isa("const_declaration") {
            reports_kid_blocks(c, php_elements(), php_element(c), s)
        } else {
            reports_kid_blocks(c, php_defines(), php_define(c), s)
        }
}

/// The constants of a PHP file are reported each one time, in the order of the source,
/// and nothing else is.
pub proof fn php_constants_are_reported<'a>(root: Node<'a>)
    ensures
        reports_kid_blocks(root, php_statements(), php_constants(), constants_in(root, Language::Php)),
{
    let q = constants::php::Constants;
    assert forall|i: int| 0 <= i < root.arity() && php_statements()(#[trigger] root.kid(i)) implies php_constants()(
        q.picks(root.kid(i)),
        root.kid(i),
    ) by {
        let c = root.kid(i);
        let e = constants::php::Elements { declaration: c };
        assert forall|j: int| 0 <= j < c.arity() && php_elements()(
            #[trigger] c.kid(j),
        ) implies php_element(c)(e.picks(c.kid(j)), c.kid(j)) by {
            lemma_element(c.kid(j), c.kid(j).arity());
        }
        lemma_picked_blocks(&e, c, php_elements(), php_element(c));
        let d = constants::php::Defines { statement: c };
        assert forall|j: int| 0 <= j < c.arity() && php_defines()(
            #[trigger] c.kid(j),
        ) implies php_define(c)(d.picks(c.kid(j)), c.kid(j)) by {
            let args = c.kid(j).at("arguments")->0;
            lemma_picked_kids(
                &constants::php::Arguments,
                args,
                php_arguments(),
                as_written(),
            );
            assert(reports_kids(
                args,
                php_arguments(),
                as_written(),
                picked(&constants::php::Arguments, args),
            ));
        }
        lemma_picked_blocks(&d, c, php_defines(), php_define(c));
    }
    lemma_picked_blocks(&q, root, php_statements(), php_constants());
}

proof fn lemma_values<'a>(n: Node<'a>, k: nat)
    requires
        k <= n.arity(),
    ensures
        is_last(
            n,
            k as int,
            of_kind(n, "expression_list"),
            folded_upto(&constants::lua::Values, None, n, k),
        ),
    decreases k,
{
    if k > 0 {
        lemma_values(n, (k - 1) as nat);
        lemma_last_step(
            n,
            k as int,
            of_kind(n, "expression_list"),
            folded_upto(&constants::lua::Values, None, n, (k - 1) as nat),
        );
    }
}

/// Variables of Lua that are spelled as constants.
pub open spec fn lua_variables<'a>() -> spec_fn(Node<'a>) -> bool {
    |c: Node<'a>| c.isa("identifier") && is_constant_name(c.txt())
}

/// What is reported of a constant of Lua: the value is the text of the list of values.
pub open spec fn lua_variable<'a>(assignment: Node<'a>) -> spec_fn(Field, Node<'a>) -> bool {
    |f: Field, c: Node<'a>|
        is_constant(f, c.txt(), assignment, None, f.default_value) && is_last(
            assignment,
            assignment.arity() as int,
            of_kind(assignment, "expression_list"),
            f.default_value,
        )
}

/// Assignments of Lua.
pub open spec fn lua_assignments<'a>() -> spec_fn(Node<'a>) -> bool {
    |c: Node<'a>| c.isa("assignment_statement")
}

/// The constants of an assignment of Lua.
pub open spec fn lua_assigned<'a>() -> spec_fn(Seq<Field>, Node<'a>) -> bool {
    |s: Seq<Field>, c: Node<'a>|
        match last_found(&constants::lua::VariableList, c) {
            Some(list) => reports_kids(list, lua_variables(), lua_variable(c), s),
            None => s.len() == 0,
        }
}

/// Statements of Lua that may give constants.
pub open spec fn lua_statements<'a>() -> spec_fn(Node<'a>) -> bool {
    |c: Node<'a>| c.isa("assignment_statement") || c.isa("variable_declaration")
}

/// The constants of a statement of Lua.
pub open spec fn lua_constants<'a>() -> spec_fn(Seq<Field>, Node<'a>) -> bool {
    |s: Seq<Field>, c: Node<'a>|
        if c.isa("assignment_statement") {
            lua_assigned()(s, c)
        } else {
            reports_kid_blocks(c, lua_assignments(), lua_assigned(), s)
        }
}

proof fn lemma_lua_assigned<'a>(c: Node<'a>)
    ensures
        lua_assigned()(constants::lua::assigned_constants(c), c),
{
    lemma_values(c, c.arity());
    match last_found(&constants::lua::VariableList, c) {
        Some(list) => lemma_picked_kids(
            &constants::lua::Variables { assignment: c },
            list,
            lua_variables(),
            lua_variable(c),
        ),
        None => {},
    }
}

/// The constants of a Lua file are reported each one time, in the order of the source,
/// and nothing else is.
pub proof fn lua_constants_are_reported<'a>(root: Node<'a>)
    ensures
        reports_kid_blocks(root, lua_statements(), lua_constants(), constants_in(root, Language::Lua)),
        constants_in(root, Language::Luau) == constants_in(root, Language::Lua),
{
    let q = constants::lua::Constants;
    assert forall|i: int| 0 <= i < root.arity() && lua_statements()(#[trigger] root.kid(i)) implies lua_constants()(
        q.picks(root.kid(i)),
        root.kid(i),
    ) by {
        let c = root.kid(i);
        lemma_lua_assigned(c);
        let p = constants::lua::Locals;
        assert forall|j: int| 0 <= j < c.arity() && lua_assignments()(
            #[trigger] c.kid(j),
        ) implies lua_assigned()(p.picks(c.kid(j)), c.kid(j)) by {
            lemma_lua_assigned(c.kid(j));
        }
        lemma_picked_blocks(&p, c, lua_assignments(), lua_assigned());
    }
    lemma_picked_blocks(&q, root, lua_statements(), lua_constants());
}

/// Bindings of OCaml that are no functions and spelled as constants.
pub open spec fn ocaml_bindings<'a>() -> spec_fn(Node<'a>) -> bool {
    |c: Node<'a>|
        c.isa("let_binding") && !is_ocaml_function(c) && (c.at("pattern") matches Some(p)
            && is_constant_name(p.txt()))
}

/// What is reported of a constant of OCaml.
pub open spec fn ocaml_binding<'a>(definition: Node<'a>) -> spec_fn(Field, Node<'a>) -> bool {
    |f: Field, c: Node<'a>|
        is_constant(f, word_at(c, "pattern"), definition, None, txt_at(c, "body"))
}

/// Definitions of OCaml.
pub open spec fn ocaml_definitions<'a>() -> spec_fn(Node<'a>) -> bool {
    |c: Node<'a>| c.isa("value_definition")
}

/// The constants of a definition of OCaml.
pub open spec fn ocaml_constants<'a>() -> spec_fn(Seq<Field>, Node<'a>) -> bool {
    |s: Seq<Field>, c: Node<'a>| reports_kids(c, ocaml_bindings(), ocaml_binding(c), s)
}

/// The constants of a OCaml file are reported each one time, in the order of the source,
/// and nothing else is.
pub proof fn ocaml_constants_are_reported<'a>(root: Node<'a>)
    ensures
        reports_kid_blocks(root, ocaml_definitions(), ocaml_constants(), constants_in(root, Language::Ocaml)),
{
    let q = constants::ocaml::Constants;
    assert forall|i: int| 0 <= i < root.arity() && ocaml_definitions()(#[trigger] root.kid(i)) implies ocaml_constants()(
        q.picks(root.kid(i)),
        root.kid(i),
    ) by {
        let c = root.kid(i);
        let b = constants::ocaml::Bound { definition: c };
        assert forall|j: int| 0 <= j < c.arity() implies is_ocaml_function(#[trigger] c.kid(j))
            == lang::ocaml::is_function(c.kid(j)) by {
            let d = c.kid(j);
            lemma_found(&lang::ocaml::MakesFunction, d, 0);
            assert forall|k: int| 0 <= k < d.arity() implies lang::ocaml::MakesFunction.accepts(
                #[trigger] d.kid(k),
            ) == (d.kid(k).isa("parameter") || d.kid(k).isa("function_expression") || d.kid(k).isa(
                "fun_expression",
            )) by {
            }
        }
        lemma_picked_kids(&b, c, ocaml_bindings(), ocaml_binding(c));
    }
    lemma_picked_blocks(&q, root, ocaml_definitions(), ocaml_constants());
}

/// Constants of Solidity.
pub open spec fn solidity_constants<'a>() -> spec_fn(Node<'a>) -> bool {
    |c: Node<'a>| c.isa("constant_variable_declaration") && c.at("name") is Some
}

/// What is reported of a constant of Solidity.
pub open spec fn solidity_constant<'a>() -> spec_fn(Field, Node<'a>) -> bool {
    |f: Field, c: Node<'a>|
        is_constant(f, word_at(c, "name"), c, txt_at(c, "type"), txt_at(c, "value"))
}

/// The constants of a Solidity file are reported each one time, in the order of the
/// source, and nothing else is.
pub proof fn solidity_constants_are_reported<'a>(root: Node<'a>)
    ensures
        reports_kids(
            root,
            solidity_constants(),
            solidity_constant(),
            constants_in(root, Language::Solidity),
        ),
{
    lemma_picked_kids(
        &lang::solidity::Constants,
        root,
        solidity_constants(),
        solidity_constant(),
    );
}

/// Attributes of modules of Elixir that are spelled as constants.
pub open spec fn elixir_attributes<'a>() -> spec_fn(Node<'a>) -> bool {
    |c: Node<'a>|
        c.isa("unary_operator") && c.at("operator") is Some && word_at(c, "operator") == "@"@ && (
        c.at("operand") matches Some(name) && is_constant_name(name.txt()))
}

/// Whether `r` are the constants of an Elixir file: its attributes at positions `ks`,
/// each with the text of the next child as its value.
pub open spec fn fits_attributes(n: Node<'_>, ks: Seq<int>, r: Seq<Field>) -> bool {
    r.len() == ks.len() && forall|i: int|
        0 <= i < r.len() ==> is_constant(
            #[trigger] r[i],
            word_at(n.kid(ks[i]), "operand"),
            n.kid(ks[i]),
            None,
            if ks[i] + 1 < n.arity() {
                Some(n.kid(ks[i] + 1).txt())
            } else {
                None
            },
        )
}

proof fn collect_attributes<'a>(n: Node<'a>, k: nat) -> (ks: Seq<int>)
    requires
        k <= n.arity(),
    ensures
        fits_attributes(n, ks, constants::elixir::attributes(n, k)),
        forall|i: int|
            0 <= i < ks.len() ==> 0 <= #[trigger] ks[i] < k && elixir_attributes()(n.kid(ks[i])),
        forall|i: int, j: int| 0 <= i < j < ks.len() ==> #[trigger] ks[i] < #[trigger] ks[j],
        forall|i: int| 0 <= i < k && elixir_attributes()(#[trigger] n.kid(i)) ==> ks.contains(i),
    decreases k,
{
    if k == 0 {
        Seq::empty()
    } else {
        let before = collect_attributes(n, (k - 1) as nat);
        let s = constants::elixir::attributes(n, k);
        let front = constants::elixir::attributes(n, (k - 1) as nat);
        if elixir_attributes()(n.kid(k - 1)) {
            let ks = before.push(k - 1);
            assert forall|i: int| 0 <= i < s.len() implies is_constant(
                #[trigger] s[i],
                word_at(n.kid(ks[i]), "operand"),
                n.kid(ks[i]),
                None,
                if ks[i] + 1 < n.arity() {
                    Some(n.kid(ks[i] + 1).txt())
                } else {
                    None
                },
            ) by {
                if i < before.len() {
                    assert(s[i] == front[i]);
                }
            }
            assert forall|i: int| 0 <= i < k && elixir_attributes()(
                #[trigger] n.kid(i),
            ) implies ks.contains(i) by {
                if i < k - 1 {
                    let at = choose|at: int| 0 <= at < before.len() && before[at] == i;
                    assert(ks[at] == i);
                } else {
                    assert(ks[before.len() as int] == i);
                }
            }
            ks
        } else {
            assert(s =~= front);
            before
        }
    }
}

/// The constants of an Elixir file are reported each one time, in the order of the
/// source, and nothing else is.
pub proof fn elixir_constants_are_reported<'a>(root: Node<'a>)
    ensures
        exists|ks: Seq<int>| #[trigger]
            lists_kids(root, elixir_attributes(), ks) && fits_attributes(
                root,
                ks,
                constants_in(root, Language::Elixir),
            ),
{
    let ks = collect_attributes(root, root.arity());
    assert(lists_kids(root, elixir_attributes(), ks));
}

/// A Java file has no constants outside of classes.
pub proof fn java_has_no_constants(root: Node<'_>)
    ensures
        constants_in(root, Language::Java).len() == 0,
{
}

/// Parts of the body of a class of Python that give fields.
pub open spec fn python_members<'a>() -> spec_fn(Node<'a>) -> bool {
    |c: Node<'a>| python_assignments()(c) || (python_init(c) matches Some(f) && f.at("body") is Some)
}

/// The `__init__` that a part of the body of a class of Python is, decorated or not.
pub open spec fn python_init<'a>(c: Node<'a>) -> Option<Node<'a>> {
    let def = if c.isa("decorated_definition") {
        c.at("definition")
    } else if c.isa("function_definition") {
        Some(c)
    } else {
        None
    };
    match def {
        Some(f) if f.isa("function_definition") && f.at("name") is Some && word_at(f, "name")
            == "__init__"@ => Some(f),
        _ => None,
    }
}

/// No node of Python hides a field of `self`.
pub open spec fn python_open<'a>() -> spec_fn(Node<'a>) -> bool {
    |c: Node<'a>| false
}

/// Statements of Python that give `self` a field.
pub open spec fn python_self_fields<'a>() -> spec_fn(Node<'a>) -> bool {
    |c: Node<'a>|
        python_assignments()(c) && (c.kid(0).at("left") matches Some(left) && left.isa("attribute")
            && left.at("object") is Some && word_at(left, "object") == "self"@ && left.at(
            "attribute",
        ) is Some)
}

/// What is reported of a field of `self` of Python.
pub open spec fn python_self_field<'a>() -> spec_fn(Field, Node<'a>) -> bool {
    |f: Field, c: Node<'a>|
        {
            let a = c.kid(0);
            let name = word_at(a.at("left")->0, "attribute");
            &&& is_field(f, name, a, None, txt_at(a, "right"))
            &&& !f.is_static
            &&& !f.is_constant
            &&& f.visibility == underscore_visibility(name)
        }
}

/// The fields that a part of the body of a class of Python gives.
pub open spec fn python_fields<'a>() -> spec_fn(Seq<Field>, Node<'a>) -> bool {
    |s: Seq<Field>, c: Node<'a>|
        if python_assignments()(c) {
            let a = c.kid(0);
            match a.at("left") {
                Some(left) if left.isa("identifier") => {
                    &&& s.len() == 1
                    &&& is_field(s[0], left.txt(), a, txt_at(a, "type"), txt_at(a, "right"))
                    &&& s[0].is_static
                    &&& s[0].is_constant == is_constant_name(left.txt())
                    &&& s[0].visibility == underscore_visibility(left.txt())
                },
                _ => s.len() == 0,
            }
        } else {
            reports(
                python_init(c)->0.at("body")->0,
                closed_by(python_open()),
                python_self_fields(),
                python_self_field(),
                s,
            )
        }
}

/// The fields of a Python class are reported each one time, in the order of the source,
/// and nothing else is: what its body assigns, and what `__init__` gives to `self`.
pub proof fn python_fields_are_reported<'a>(body: Node<'a>)
    ensures
        reports_kid_blocks(
            body,
            python_members(),
            python_fields(),
            picked(&lang::python::ClassFields, body),
        ),
{
    reveal_strlit("expression_statement");
    reveal_strlit("function_definition");
    reveal_strlit("decorated_definition");
    assert("expression_statement"@.len() == 20);
    assert("function_definition"@.len() == 19);
    assert("decorated_definition"@.len() == 20);
    assert("expression_statement"@[0] == 'e');
    assert("decorated_definition"@[0] == 'd');
    let q = lang::python::ClassFields;
    assert forall|i: int| 0 <= i < body.arity() && python_members()(
        #[trigger] body.kid(i),
    ) implies python_fields()(q.picks(body.kid(i)), body.kid(i)) by {
        let c = body.kid(i);
        if !python_assignments()(c) {
            lemma_reported(
                &lang::python::SelfFields,
                python_init(c)->0.at("body")->0,
                python_open(),
                python_self_fields(),
                python_self_field(),
            );
        }
    }
    lemma_picked_blocks(&q, body, python_members(), python_fields());
}

/// Fields of classes of TypeScript that have a name.
pub open spec fn ts_fields<'a>() -> spec_fn(Node<'a>) -> bool {
    |c: Node<'a>|
        (c.isa("public_field_definition") || c.isa("field_definition")) && ts_field_name(c) is Some
}

/// The node that names a field of TypeScript.
pub open spec fn ts_field_name<'a>(c: Node<'a>) -> Option<Node<'a>> {
    match c.at("name") {
        Some(name) => Some(name),
        None => found(&lang::typescript::PropertyName, c),
    }
}

/// What is reported of a field of TypeScript.
pub open spec fn ts_field<'a>() -> spec_fn(Field, Node<'a>) -> bool {
    |f: Field, c: Node<'a>|
        {
            let name = ts_field_name(c)->0.txt();
            let text = c.txt();
            &&& is_field(
                f,
                name,
                c,
                match c.at("type") {
                    Some(t) => Some(trimmed(stripped_front(t.txt(), ":"@))),
                    None => None,
                },
                txt_at(c, "value"),
            )
            &&& f.is_static == begins(text, "static "@)
            &&& f.is_constant == (begins(text, "static "@) && is_constant_name(name))
            &&& f.visibility == Some(
                if has(text, "private "@) {
                    "private"@
                } else if has(text, "protected "@) {
                    "protected"@
                } else {
                    "public"@
                },
            )
        }
}

/// The fields of a TypeScript class are reported each one time, in the order of the
/// source, and nothing else is.
pub proof fn typescript_fields_are_reported<'a>(body: Node<'a>)
    ensures
        reports_kids(body, ts_fields(), ts_field(), picked(&lang::typescript::Fields, body)),
{
    lemma_picked_kids(&lang::typescript::Fields, body, ts_fields(), ts_field());
}

/// Declarations of fields of Java.
pub open spec fn java_field_nodes<'a>() -> spec_fn(Node<'a>) -> bool {
    |c: Node<'a>| c.isa("field_declaration")
}

/// Fields in a declaration of Java.
pub open spec fn java_declarators<'a>() -> spec_fn(Node<'a>) -> bool {
    |c: Node<'a>| c.isa("variable_declarator") && c.at("name") is Some
}

/// What is reported of a field of Java.
pub open spec fn java_field<'a>(declaration: Node<'a>) -> spec_fn(Field, Node<'a>) -> bool {
    |f: Field, c: Node<'a>|
        {
            let text = declaration.txt();
            let name = word_at(c, "name");
            &&& is_field(f, name, declaration, txt_at(declaration, "type"), txt_at(c, "value"))
            &&& f.is_static == has(text, "static "@)
            &&& f.is_constant == (has(text, "static "@) && has(text, "final "@) && is_constant_name(
                name,
            ))
            &&& f.visibility == Some(
                if has(text, "private "@) {
                    "private"@
                } else if has(text, "protected "@) {
                    "protected"@
                } else if has(text, "public "@) {
                    "public"@
                } else {
                    "package"@
                },
            )
        }
}

/// The fields in a declaration of Java.
pub open spec fn java_declared<'a>() -> spec_fn(Seq<Field>, Node<'a>) -> bool {
    |s: Seq<Field>, c: Node<'a>| reports_kids(c, java_declarators(), java_field(c), s)
}

/// The fields of a Java class are reported each one time, in the order of the source,
/// and nothing else is.
pub proof fn java_fields_are_reported<'a>(body: Node<'a>)
    ensures
        reports_kid_blocks(
            body,
            java_field_nodes(),
            java_declared(),
            picked(&lang::java::Fields, body),
        ),
{
    let q = lang::java::Fields;
    assert forall|i: int| 0 <= i < body.arity() && java_field_nodes()(
        #[trigger] body.kid(i),
    ) implies java_declared()(q.picks(body.kid(i)), body.kid(i)) by {
        let c = body.kid(i);
        lemma_picked_kids(
            &lang::java::Declarators { declaration: c },
            c,
            java_declarators(),
            java_field(c),
        );
    }
    lemma_picked_blocks(&q, body, java_field_nodes(), java_declared());
}

/// Lists of fields of Go and Rust.
pub open spec fn field_lists<'a>() -> spec_fn(Node<'a>) -> bool {
    |c: Node<'a>| c.isa("field_declaration_list")
}

/// Declarations of fields of Go.
pub open spec fn go_field_nodes<'a>() -> spec_fn(Node<'a>) -> bool {
    |c: Node<'a>| c.isa("field_declaration")
}

/// Names of fields of Go.
pub open spec fn go_field_names<'a>() -> spec_fn(Node<'a>) -> bool {
    |c: Node<'a>| c.isa("field_identifier")
}

/// What is reported of a field of Go.
pub open spec fn go_field<'a>(declaration: Node<'a>) -> spec_fn(Field, Node<'a>) -> bool {
    |f: Field, c: Node<'a>|
        is_field(f, c.txt(), declaration, txt_at(declaration, "type"), None) && !f.is_static
            && !f.is_constant && f.visibility == capital_visibility(c.txt())
}

/// The fields in a declaration of Go.
pub open spec fn go_declared_fields<'a>() -> spec_fn(Seq<Field>, Node<'a>) -> bool {
    |s: Seq<Field>, c: Node<'a>| reports_kids(c, go_field_names(), go_field(c), s)
}

/// The fields in a list of Go.
pub open spec fn go_field_list<'a>() -> spec_fn(Seq<Field>, Node<'a>) -> bool {
    |s: Seq<Field>, c: Node<'a>| reports_kid_blocks(c, go_field_nodes(), go_declared_fields(), s)
}

proof fn lemma_go_list<'a>(list: Node<'a>)
    ensures
        go_field_list()(picked(&lang::go::FieldList, list), list),
{
    let q = lang::go::FieldList;
    assert forall|i: int| 0 <= i < list.arity() && go_field_nodes()(
        #[trigger] list.kid(i),
    ) implies go_declared_fields()(q.picks(list.kid(i)), list.kid(i)) by {
        let c = list.kid(i);
        lemma_picked_kids(
            &lang::go::FieldNames { declaration: c },
            c,
            go_field_names(),
            go_field(c),
        );
    }
    lemma_picked_blocks(&q, list, go_field_nodes(), go_declared_fields());
}

/// The fields of a Go struct are reported each one time, in the order of the source,
/// also where several share a type, and nothing else is.
pub proof fn go_fields_are_reported<'a>(t: Node<'a>)
    ensures
        reports_kid_blocks(t, field_lists(), go_field_list(), picked(&lang::go::Fields, t)),
{
    let q = lang::go::Fields;
    assert forall|i: int| 0 <= i < t.arity() && field_lists()(
        #[trigger] t.kid(i),
    ) implies go_field_list()(q.picks(t.kid(i)), t.kid(i)) by {
        lemma_go_list(t.kid(i));
    }
    lemma_picked_blocks(&q, t, field_lists(), go_field_list());
}

/// Fields of Rust.
pub open spec fn rust_fields<'a>() -> spec_fn(Node<'a>) -> bool {
    |c: Node<'a>| c.isa("field_declaration") && c.at("name") is Some
}

/// What is reported of a field of Rust.
pub open spec fn rust_field<'a>() -> spec_fn(Field, Node<'a>) -> bool {
    |f: Field, c: Node<'a>|
        is_field(f, word_at(c, "name"), c, txt_at(c, "type"), None) && !f.is_static
            && !f.is_constant && f.visibility == Some(rust_visibility(c))
}

/// The fields in a list of Rust.
pub open spec fn rust_field_list<'a>() -> spec_fn(Seq<Field>, Node<'a>) -> bool {
    |s: Seq<Field>, c: Node<'a>| reports_kids(c, rust_fields(), rust_field(), s)
}

/// The fields of a Rust struct are reported each one time, in the order of the source,
/// and nothing else is.
pub proof fn rust_fields_are_reported<'a>(n: Node<'a>)
    ensures
        reports_kid_blocks(n, field_lists(), rust_field_list(), picked(&lang::rust::Fields, n)),
{
    let q = lang::rust::Fields;
    assert forall|i: int| 0 <= i < n.arity() && field_lists()(
        #[trigger] n.kid(i),
    ) implies rust_field_list()(q.picks(n.kid(i)), n.kid(i)) by {
        lemma_picked_kids(&lang::rust::FieldList, n.kid(i), rust_fields(), rust_field());
    }
    lemma_picked_blocks(&q, n, field_lists(), rust_field_list());
}

/// State variables and constants of Solidity.
pub open spec fn solidity_fields<'a>() -> spec_fn(Node<'a>) -> bool {
    |c: Node<'a>|
        (c.isa("state_variable_declaration") || c.isa("constant_variable_declaration")) && c.at(
            "name",
        ) is Some
}

/// What is reported of a state variable or constant of Solidity.
pub open spec fn solidity_field<'a>() -> spec_fn(Field, Node<'a>) -> bool {
    |f: Field, c: Node<'a>|
        if c.isa("state_variable_declaration") {
            &&& is_field(f, word_at(c, "name"), c, txt_at(c, "type"), txt_at(c, "value"))
            &&& !f.is_static
            &&& f.is_constant == (first(c, "immutable") is Some)
            &&& f.visibility == match c.at("visibility") {
                Some(v) => {
                    let word = trimmed(v.txt());
                    if word == "public"@ || word == "external"@ || word == "internal"@ || word
                        == "private"@ {
                        Some(word)
                    } else {
                        None
                    }
                },
                None => None,
            }
        } else {
            solidity_constant()(f, c)
        }
}

/// The state variables and constants of a Solidity contract are reported each one
/// time, in the order of the source, and nothing else is.
pub proof fn solidity_fields_are_reported<'a>(body: Node<'a>)
    ensures
        reports_kids(
            body,
            solidity_fields(),
            solidity_field(),
            picked(&lang::solidity::BodyFields, body),
        ),
{
    lemma_picked_kids(
        &lang::solidity::BodyFields,
        body,
        solidity_fields(),
        solidity_field(),
    );
}

} // verus!
