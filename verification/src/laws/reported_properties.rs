//! Which properties of Kotlin and Swift files are reported as constants.

use vstd::prelude::*;

use crate::constants;
use crate::extract::constants_in;
use crate::laws::listing::{lemma_picked_blocks, reports_kid_blocks};
use crate::laws::reported_fields::{
    is_constant, is_first_value, is_last, is_opened, lemma_last_step, lemma_opened,
    lemma_value_step, of_kind,
};
use crate::lists::group_lists;
use crate::names::is_constant_name;
use crate::text::has;
use crate::tree::{group_tree, Node};
use crate::types::{Field, Language};
use crate::walk::{folded, folded_upto, Picker};

verus! {

broadcast use {group_tree, group_lists};

/// Positions of identifiers of Kotlin.
pub open spec fn kotlin_names<'a>(n: Node<'a>) -> spec_fn(int) -> bool {
    |i: int| n.kid(i).isa("identifier") || n.kid(i).isa("simple_identifier")
}

/// Positions of what is no value of a property of Kotlin.
pub open spec fn kotlin_skips<'a>(n: Node<'a>) -> spec_fn(int) -> bool {
    |i: int|
        n.kid(i).isa("modifiers") || n.kid(i).isa("val") || n.kid(i).isa("variable_declaration")
}

/// Positions of modifiers of Kotlin with `const` among them.
pub open spec fn kotlin_consts<'a>(n: Node<'a>) -> spec_fn(int) -> bool {
    |i: int| n.kid(i).isa("modifiers") && has(n.kid(i).txt(), "const"@)
}

proof fn lemma_variable<'a>(n: Node<'a>, k: nat)
    requires
        k <= n.arity(),
    ensures
        is_last(
            n,
            k as int,
            kotlin_names(n),
            folded_upto(&constants::kotlin::VariableName, None, n, k),
        ),
    decreases k,
{
    if k > 0 {
        lemma_variable(n, (k - 1) as nat);
        lemma_last_step(
            n,
            k as int,
            kotlin_names(n),
            folded_upto(&constants::kotlin::VariableName, None, n, (k - 1) as nat),
        );
    }
}

proof fn lemma_kotlin_kinds(c: Node<'_>)
    ensures
        c.isa("modifiers") ==> !c.isa("val") && !c.isa("variable_declaration") && !c.isa("="),
        c.isa("val") ==> !c.isa("variable_declaration") && !c.isa("="),
        c.isa("variable_declaration") ==> !c.isa("="),
{
    reveal_strlit("modifiers");
    reveal_strlit("val");
    reveal_strlit("variable_declaration");
    reveal_strlit("=");
    assert("modifiers"@.len() == 9);
    assert("val"@.len() == 3);
    assert("variable_declaration"@.len() == 20);
    assert("="@.len() == 1);
}

proof fn lemma_property<'a>(n: Node<'a>, v: int, k: nat)
    requires
        0 <= v < n.arity(),
        n.kid(v).isa("variable_declaration"),
        forall|i: int|
            0 <= i < n.arity() && i != v ==> !(#[trigger] n.kid(i)).isa("variable_declaration"),
        k <= n.arity(),
    ensures
        ({
            let s = folded_upto(
                &constants::kotlin::Property,
                (None, None, false, false, false),
                n,
                k,
            );
            &&& s.0 == if k <= v {
                None
            } else {
                folded(&constants::kotlin::VariableName, None, n.kid(v))
            }
            &&& is_first_value(n, k as int, of_kind(n, "="), kotlin_skips(n), s.1)
            &&& s.2 == is_opened(of_kind(n, "val"), k as int)
            &&& s.3 == is_opened(kotlin_consts(n), k as int)
            &&& s.4 == is_opened(of_kind(n, "="), k as int)
        }),
    decreases k,
{
    if k > 0 {
        lemma_property(n, v, (k - 1) as nat);
        lemma_kotlin_kinds(n.kid(k - 1));
        let s = folded_upto(
            &constants::kotlin::Property,
            (None, None, false, false, false),
            n,
            (k - 1) as nat,
        );
        lemma_value_step(n, k as int, of_kind(n, "="), kotlin_skips(n), s.1);
        lemma_opened(of_kind(n, "val"), k as int);
        lemma_opened(kotlin_consts(n), k as int);
        lemma_opened(of_kind(n, "="), k as int);
    }
}

/// Properties of Kotlin.
pub open spec fn kotlin_properties<'a>() -> spec_fn(Node<'a>) -> bool {
    |c: Node<'a>| c.isa("property_declaration")
}

/// Whether the one variable of a property stands at position `v`.
pub open spec fn has_variable(c: Node<'_>, v: int) -> bool {
    0 <= v < c.arity() && c.kid(v).isa("variable_declaration") && forall|i: int|
        0 <= i < c.arity() && i != v ==> !(#[trigger] c.kid(i)).isa("variable_declaration")
}

/// Whether `s` is the constant that a property of Kotlin with one variable gives: one with
/// `const`, or one with `val` that is spelled as a constant.
pub open spec fn is_kotlin_constant(s: Seq<Field>, c: Node<'_>, v: int) -> bool {
    let d = c.kid(v);
    exists|name: Option<Seq<char>>, value: Option<Seq<char>>|
        #![trigger is_last(d, d.arity() as int, kotlin_names(d), name), is_first_value(
            c,
            c.arity() as int,
            of_kind(c, "="),
            kotlin_skips(c),
            value,
        )]
        is_last(d, d.arity() as int, kotlin_names(d), name) && is_first_value(
            c,
            c.arity() as int,
            of_kind(c, "="),
            kotlin_skips(c),
            value,
        ) && match name {
            Some(name) if is_opened(kotlin_consts(c), c.arity() as int) || (is_opened(
                of_kind(c, "val"),
                c.arity() as int,
            ) && is_constant_name(name)) => s.len() == 1 && is_constant(s[0], name, c, None, value),
            _ => s.len() == 0,
        }
}

/// What is reported of a property of Kotlin.
pub open spec fn kotlin_property<'a>() -> spec_fn(Seq<Field>, Node<'a>) -> bool {
    |s: Seq<Field>, c: Node<'a>|
        forall|v: int| #[trigger] has_variable(c, v) ==> is_kotlin_constant(s, c, v)
}

/// The constants of a Kotlin file are reported each one time, in the order of the source,
/// and nothing else is.
pub proof fn kotlin_constants_are_reported<'a>(root: Node<'a>)
    ensures
        reports_kid_blocks(
            root,
            kotlin_properties(),
            kotlin_property(),
            constants_in(root, Language::Kotlin),
        ),
{
    let q = constants::kotlin::Constants;
    assert forall|i: int| 0 <= i < root.arity() && kotlin_properties()(
        #[trigger] root.kid(i),
    ) implies kotlin_property()(q.picks(root.kid(i)), root.kid(i)) by {
        let c = root.kid(i);
        assert forall|v: int| #[trigger] has_variable(c, v) implies is_kotlin_constant(
            q.picks(c),
            c,
            v,
        ) by {
            lemma_property(c, v, c.arity());
            lemma_variable(c.kid(v), c.kid(v).arity());
        }
    }
    lemma_picked_blocks(&q, root, kotlin_properties(), kotlin_property());
}

/// Positions of names in a pattern of Swift.
pub open spec fn swift_names<'a>(n: Node<'a>) -> spec_fn(int) -> bool {
    |i: int| n.kid(i).isa("simple_identifier")
}

/// Positions of what is no value of a property of Swift.
pub open spec fn swift_skips<'a>(n: Node<'a>) -> spec_fn(int) -> bool {
    |i: int| n.kid(i).isa("value_binding_pattern") || n.kid(i).isa("pattern")
}

proof fn lemma_pattern<'a>(n: Node<'a>, k: nat)
    requires
        k <= n.arity(),
    ensures
        is_last(
            n,
            k as int,
            swift_names(n),
            folded_upto(&constants::swift::PatternName, None, n, k),
        ),
    decreases k,
{
    if k > 0 {
        lemma_pattern(n, (k - 1) as nat);
        lemma_last_step(
            n,
            k as int,
            swift_names(n),
            folded_upto(&constants::swift::PatternName, None, n, (k - 1) as nat),
        );
    }
}

proof fn lemma_swift_kinds(c: Node<'_>)
    ensures
        c.isa("value_binding_pattern") ==> !c.isa("pattern") && !c.isa("="),
        c.isa("pattern") ==> !c.isa("="),
{
    reveal_strlit("value_binding_pattern");
    reveal_strlit("pattern");
    reveal_strlit("=");
    assert("value_binding_pattern"@.len() == 21);
    assert("pattern"@.len() == 7);
    assert("="@.len() == 1);
}

proof fn lemma_swift_property<'a>(n: Node<'a>, p: int, k: nat)
    requires
        0 <= p < n.arity(),
        n.kid(p).isa("pattern"),
        forall|i: int| 0 <= i < n.arity() && i != p ==> !(#[trigger] n.kid(i)).isa("pattern"),
        k <= n.arity(),
    ensures
        ({
            let s = folded_upto(
                &constants::swift::Property,
                (None, None, false, false),
                n,
                k,
            );
            &&& s.0 == if k <= p {
                None
            } else {
                folded(&constants::swift::PatternName, None, n.kid(p))
            }
            &&& is_first_value(n, k as int, of_kind(n, "="), swift_skips(n), s.1)
            &&& exists|word: Option<Seq<char>>| #[trigger]
                is_last(n, k as int, of_kind(n, "value_binding_pattern"), word) && s.2 == (word
                    == Some("let"@))
            &&& s.3 == is_opened(of_kind(n, "="), k as int)
        }),
    decreases k,
{
    if k > 0 {
        lemma_swift_property(n, p, (k - 1) as nat);
        lemma_swift_kinds(n.kid(k - 1));
        let s = folded_upto(
            &constants::swift::Property,
            (None, None, false, false),
            n,
            (k - 1) as nat,
        );
        let word = choose|word: Option<Seq<char>>| #[trigger]
            is_last(n, k - 1, of_kind(n, "value_binding_pattern"), word) && s.2 == (word == Some(
                "let"@,
            ));
        lemma_last_step(n, k as int, of_kind(n, "value_binding_pattern"), word);
        lemma_value_step(n, k as int, of_kind(n, "="), swift_skips(n), s.1);
        lemma_opened(of_kind(n, "="), k as int);
        let next = if of_kind(n, "value_binding_pattern")(k - 1) {
            Some(n.kid(k - 1).txt())
        } else {
            word
        };
        assert(is_last(n, k as int, of_kind(n, "value_binding_pattern"), next));
    } else {
        assert(is_last(n, 0, of_kind(n, "value_binding_pattern"), None));
    }
}

/// Properties of Swift.
pub open spec fn swift_properties<'a>() -> spec_fn(Node<'a>) -> bool {
    |c: Node<'a>| c.isa("property_declaration")
}

/// Whether the one pattern of a property stands at position `p`.
pub open spec fn has_pattern(c: Node<'_>, p: int) -> bool {
    0 <= p < c.arity() && c.kid(p).isa("pattern") && forall|i: int|
        0 <= i < c.arity() && i != p ==> !(#[trigger] c.kid(i)).isa("pattern")
}

/// Whether `s` is the constant that a property of Swift with one pattern gives: one with
/// `let` that is spelled as a constant.
pub open spec fn is_swift_constant(s: Seq<Field>, c: Node<'_>, p: int) -> bool {
    let d = c.kid(p);
    exists|name: Option<Seq<char>>, value: Option<Seq<char>>, word: Option<Seq<char>>|
        #![trigger is_last(d, d.arity() as int, swift_names(d), name), is_first_value(
            c,
            c.arity() as int,
            of_kind(c, "="),
            swift_skips(c),
            value,
        ), is_last(c, c.arity() as int, of_kind(c, "value_binding_pattern"), word)]
        is_last(d, d.arity() as int, swift_names(d), name) && is_first_value(
            c,
            c.arity() as int,
            of_kind(c, "="),
            swift_skips(c),
            value,
        ) && is_last(c, c.arity() as int, of_kind(c, "value_binding_pattern"), word) && match name {
            Some(name) if word == Some("let"@) && is_constant_name(name) => s.len() == 1
                && is_constant(s[0], name, c, None, value),
            _ => s.len() == 0,
        }
}

/// What is reported of a property of Swift.
pub open spec fn swift_property<'a>() -> spec_fn(Seq<Field>, Node<'a>) -> bool {
    |s: Seq<Field>, c: Node<'a>|
        forall|p: int| #[trigger] has_pattern(c, p) ==> is_swift_constant(s, c, p)
}

/// The constants of a Swift file are reported each one time, in the order of the source,
/// and nothing else is.
pub proof fn swift_constants_are_reported<'a>(root: Node<'a>)
    ensures
        reports_kid_blocks(
            root,
            swift_properties(),
            swift_property(),
            constants_in(root, Language::Swift),
        ),
{
    let q = constants::swift::Constants;
    assert forall|i: int| 0 <= i < root.arity() && swift_properties()(
        #[trigger] root.kid(i),
    ) implies swift_property()(q.picks(root.kid(i)), root.kid(i)) by {
        let c = root.kid(i);
        assert forall|p: int| #[trigger] has_pattern(c, p) implies is_swift_constant(
            q.picks(c),
            c,
            p,
        ) by {
            lemma_swift_property(c, p, c.arity());
            lemma_pattern(c.kid(p), c.kid(p).arity());
        }
    }
    lemma_picked_blocks(&q, root, swift_properties(), swift_property());
}

} // verus!
