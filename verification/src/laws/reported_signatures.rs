//! What single parts of a report say: access words, attributes, and the names in
//! signatures and heads.

use vstd::prelude::*;

use crate::lang;
use crate::laws::doc_comments::{are_lines_before, lemma_lines_before};
use crate::laws::listing::{
    closed_by, lemma_picked_blocks, lemma_picked_kids, lemma_reported_blocks, reports_blocks,
    reports_kid_blocks, reports_kids,
};
use crate::laws::reported_functions::{txt_at, word_at};
use crate::lists::group_lists;
use crate::nodes::first;
use crate::text::{begins, ends, has, lower, stripped_front, trimmed};
use crate::tree::{at_or_below, group_tree, lemma_below_index, Node};
use crate::types::{Field, Function};
use crate::walk::{folded_upto, gathered, nearest_first, picked, Picker, Test, Walker};

verus! {

broadcast use {group_tree, group_lists};

/// The first of some words.
pub open spec fn first_of(words: Seq<Seq<char>>) -> Option<Seq<char>> {
    if words.len() > 0 {
        Some(words[0])
    } else {
        None
    }
}

/// Whether a text is an access word of Java.
pub open spec fn is_java_access(s: Seq<char>) -> bool {
    s == "public"@ || s == "private"@ || s == "protected"@
}

/// Access words of Java among modifiers, by their kind or their text.
pub open spec fn java_words<'a>() -> spec_fn(Node<'a>) -> bool {
    |c: Node<'a>| is_java_access(c.tag()) || is_java_access(c.txt())
}

/// An access word of Java.
pub open spec fn java_word<'a>() -> spec_fn(Seq<char>, Node<'a>) -> bool {
    |s: Seq<char>, c: Node<'a>|
        s == if is_java_access(c.tag()) {
            c.tag()
        } else {
            c.txt()
        }
}

/// Parts of a declaration of Java that state an access.
pub open spec fn java_access<'a>() -> spec_fn(Node<'a>) -> bool {
    |c: Node<'a>| c.isa("modifiers") || is_java_access(c.tag())
}

/// The access words that a part of a declaration of Java states.
pub open spec fn java_stated<'a>() -> spec_fn(Seq<Seq<char>>, Node<'a>) -> bool {
    |s: Seq<Seq<char>>, c: Node<'a>|
        if c.isa("modifiers") {
            reports_kids(c, java_words(), java_word(), s)
        } else {
            s == seq![c.tag()]
        }
}

/// The visibility of a Java method is the first access word that it states.
pub proof fn java_visibility_is_stated<'a>(n: Node<'a>)
    ensures
        exists|words: Seq<Seq<char>>| #[trigger]
            reports_kid_blocks(n, java_access(), java_stated(), words) && lang::java::visibility(n)
                == first_of(words),
{
    let q = lang::java::Access;
    reveal_strlit("modifiers");
    reveal_strlit("public");
    reveal_strlit("private");
    reveal_strlit("protected");
    assert("modifiers"@.len() == 9);
    assert("public"@.len() == 6);
    assert("private"@.len() == 7);
    assert("protected"@.len() == 9);
    assert("modifiers"@[0] == 'm');
    assert("protected"@[0] == 'p');
    assert forall|i: int| 0 <= i < n.arity() && java_access()(#[trigger] n.kid(i)) implies java_stated()(
        q.picks(n.kid(i)),
        n.kid(i),
    ) by {
        lemma_picked_kids(&lang::java::AccessWords, n.kid(i), java_words(), java_word());
    }
    lemma_picked_blocks(&q, n, java_access(), java_stated());
    assert(reports_kid_blocks(n, java_access(), java_stated(), picked(&q, n)));
}

/// Access words of Kotlin.
pub open spec fn kotlin_words<'a>() -> spec_fn(Node<'a>) -> bool {
    |c: Node<'a>|
        {
            let word = trimmed(c.txt());
            word == "public"@ || word == "private"@ || word == "protected"@ || word == "internal"@
        }
}

/// A word without the white space around it.
pub open spec fn bare_word<'a>() -> spec_fn(Seq<char>, Node<'a>) -> bool {
    |s: Seq<char>, c: Node<'a>| s == trimmed(c.txt())
}

/// Modifiers.
pub open spec fn modifier_lists<'a>() -> spec_fn(Node<'a>) -> bool {
    |c: Node<'a>| c.isa("modifiers")
}

/// The access words among modifiers of Kotlin.
pub open spec fn kotlin_stated<'a>() -> spec_fn(Seq<Seq<char>>, Node<'a>) -> bool {
    |s: Seq<Seq<char>>, c: Node<'a>| reports_kids(c, kotlin_words(), bare_word(), s)
}

/// The visibility of a Kotlin function is the first access word among its modifiers.
pub proof fn kotlin_visibility_is_stated<'a>(n: Node<'a>)
    ensures
        exists|words: Seq<Seq<char>>| #[trigger]
            reports_kid_blocks(n, modifier_lists(), kotlin_stated(), words)
                && lang::kotlin::visibility(n) == first_of(words),
{
    let q = lang::kotlin::Access;
    assert forall|i: int| 0 <= i < n.arity() && modifier_lists()(
        #[trigger] n.kid(i),
    ) implies kotlin_stated()(q.picks(n.kid(i)), n.kid(i)) by {
        lemma_picked_kids(&lang::kotlin::AccessWords, n.kid(i), kotlin_words(), bare_word());
    }
    lemma_picked_blocks(&q, n, modifier_lists(), kotlin_stated());
    assert(reports_kid_blocks(n, modifier_lists(), kotlin_stated(), picked(&q, n)));
}

/// Annotations of Kotlin.
pub open spec fn kotlin_annotations<'a>() -> spec_fn(Node<'a>) -> bool {
    |c: Node<'a>| c.isa("annotation")
}

/// An annotation without its `@`.
pub open spec fn kotlin_annotation<'a>() -> spec_fn(Seq<char>, Node<'a>) -> bool {
    |s: Seq<char>, c: Node<'a>| s == stripped_front(c.txt(), "@"@)
}

/// The annotations among modifiers of Kotlin.
pub open spec fn kotlin_annotated<'a>() -> spec_fn(Seq<Seq<char>>, Node<'a>) -> bool {
    |s: Seq<Seq<char>>, c: Node<'a>| reports_kids(c, kotlin_annotations(), kotlin_annotation(), s)
}

/// The annotations of a Kotlin function are listed each one time and in order.
pub proof fn kotlin_annotations_are_listed<'a>(n: Node<'a>)
    ensures
        reports_kid_blocks(
            n,
            modifier_lists(),
            kotlin_annotated(),
            picked(&lang::kotlin::Annotations, n),
        ),
{
    let q = lang::kotlin::Annotations;
    assert forall|i: int| 0 <= i < n.arity() && modifier_lists()(
        #[trigger] n.kid(i),
    ) implies kotlin_annotated()(q.picks(n.kid(i)), n.kid(i)) by {
        lemma_picked_kids(
            &lang::kotlin::ModifierAnnotations,
            n.kid(i),
            kotlin_annotations(),
            kotlin_annotation(),
        );
    }
    lemma_picked_blocks(&q, n, modifier_lists(), kotlin_annotated());
}

/// Access words of Swift.
pub open spec fn swift_words<'a>() -> spec_fn(Node<'a>) -> bool {
    |c: Node<'a>|
        {
            let word = trimmed(c.txt());
            word == "public"@ || word == "open"@ || word == "internal"@ || word == "fileprivate"@
                || word == "private"@
        }
}

/// Parts of a declaration of Swift that may state an access.
pub open spec fn swift_access<'a>() -> spec_fn(Node<'a>) -> bool {
    |c: Node<'a>| c.isa("visibility_modifier") || c.isa("modifiers") || swift_words()(c)
}

/// The access words that a part of a declaration of Swift states: those inside of it,
/// and itself.
pub open spec fn swift_stated<'a>() -> spec_fn(Seq<Seq<char>>, Node<'a>) -> bool {
    |s: Seq<Seq<char>>, c: Node<'a>|
        exists|inner: Seq<Seq<char>>| #[trigger]
            reports_kids(c, swift_words(), bare_word(), inner) && s == (if c.isa(
                "visibility_modifier",
            ) || c.isa("modifiers") {
                inner
            } else {
                Seq::empty()
            }) + (if swift_words()(c) {
                seq![trimmed(c.txt())]
            } else {
                Seq::empty()
            })
}

/// The visibility of a Swift function is the first access word that it states.
pub proof fn swift_visibility_is_stated<'a>(n: Node<'a>)
    ensures
        exists|words: Seq<Seq<char>>| #[trigger]
            reports_kid_blocks(n, swift_access(), swift_stated(), words)
                && lang::swift::visibility(n) == first_of(words),
{
    let q = lang::swift::Access;
    assert forall|i: int| 0 <= i < n.arity() && swift_access()(
        #[trigger] n.kid(i),
    ) implies swift_stated()(q.picks(n.kid(i)), n.kid(i)) by {
        let c = n.kid(i);
        lemma_picked_kids(&lang::swift::AccessWords, c, swift_words(), bare_word());
        assert(reports_kids(c, swift_words(), bare_word(), picked(&lang::swift::AccessWords, c)));
    }
    lemma_picked_blocks(&q, n, swift_access(), swift_stated());
    assert(reports_kid_blocks(n, swift_access(), swift_stated(), picked(&q, n)));
}

/// What may stand among the attributes of a Rust item.
pub open spec fn rust_preamble<'a>() -> spec_fn(Node<'a>) -> bool {
    |c: Node<'a>| c.isa("attribute_item") || c.isa("line_comment") || c.isa("block_comment")
}

/// Attributes of Rust that say something.
pub open spec fn rust_attributes<'a>() -> spec_fn(Node<'a>) -> bool {
    |c: Node<'a>| c.isa("attribute_item") && lang::rust::attribute_content(c.txt()) is Some
}

/// What an attribute of Rust says.
pub open spec fn rust_attribute<'a>() -> spec_fn(Node<'a>) -> Seq<char> {
    |c: Node<'a>| lang::rust::attribute_content(c.txt())->0
}

/// The decorators of a Rust item are the attributes just before it, past comments, the
/// nearest first, and then the marks of the test modules around it.
pub proof fn rust_attributes_come_nearest_first<'a>(n: Node<'a>)
    ensures
        exists|lines: Seq<Seq<char>>| #[trigger]
            are_lines_before(n, rust_preamble(), rust_attributes(), rust_attribute(), lines)
                && lang::rust::attributes(n) == lines.reverse() + lang::rust::enclosing_marks(n),
{
    let b = lang::rust::Attributes { tests_only: false };
    lemma_lines_before(&b, n, rust_preamble(), rust_attributes(), rust_attribute());
    let near = nearest_first(&b, n.left());
    assert(near.reverse().reverse() =~= near);
    assert(are_lines_before(
        n,
        rust_preamble(),
        rust_attributes(),
        rust_attribute(),
        near.reverse(),
    ));
}

/// An attribute of Rust says what stands in its brackets.
pub proof fn rust_attributes_say_what_is_in_brackets(raw: Seq<char>)
    ensures
        ({
            let t = trimmed(raw);
            begins(t, "#["@) && ends(t, "]"@) && t.len() >= 3 ==> ({
                let inner = trimmed(t.subrange(2, t.len() - 1));
                lang::rust::attribute_content(raw) == if inner.len() == 0 {
                    None
                } else {
                    Some(inner)
                }
            })
        }),
{
    let t = trimmed(raw);
    reveal_strlit("#[");
    reveal_strlit("#![");
    reveal_strlit("]");
    assert("#["@ =~= seq!['#', '[']);
    assert("#!["@ =~= seq!['#', '!', '[']);
    assert("]"@ =~= seq![']']);
    if begins(t, "#["@) && ends(t, "]"@) && t.len() >= 3 {
        assert(t.subrange(0, 2)[1] == '[');
        assert(t[1] == '[');
        if begins(t, "#!["@) {
            assert(t.subrange(0, 3)[1] == '!');
        }
        let rest = t.skip(2);
        assert(rest.subrange(rest.len() - 1, rest.len() as int) =~= t.subrange(
            t.len() - 1,
            t.len() as int,
        ));
        assert(rest.take(rest.len() - 1) =~= t.subrange(2, t.len() - 1));
    }
}

/// The mark that a test module of Rust gives to what is in it.
pub open spec fn test_mark(name: Seq<char>) -> Seq<char> {
    "cfg(test)/* via mod "@ + name + " */"@
}

/// Every function inside of a Rust module with `test` in its name is marked as a test.
pub proof fn rust_test_modules_mark_their_functions<'a>(n: Node<'a>, m: Node<'a>)
    requires
        at_or_below(m, n),
        m != n,
        m.isa("mod_item"),
        has(lower(word_at(m, "name")), "test"@),
    ensures
        lang::rust::enclosing_marks(n).contains(test_mark(word_at(m, "name"))),
        lang::rust::attributes(n).contains(test_mark(word_at(m, "name"))),
    decreases n.index(),
{
    let p = n.up()->0;
    crate::tree::lemma_up_index(n);
    let own = lang::rust::module_marks(p);
    let rest = lang::rust::enclosing_marks(p);
    let all = lang::rust::enclosing_marks(n);
    let x = test_mark(word_at(m, "name"));
    if p == m {
        assert(own[0] == x);
        assert(all[0] == x);
    } else {
        rust_test_modules_mark_their_functions(p, m);
        let i = choose|i: int| 0 <= i < rest.len() && rest[i] == x;
        assert(all[own.len() + i] == x);
    }
    let near = nearest_first(&lang::rust::Attributes { tests_only: false }, n.left());
    let i = choose|i: int| 0 <= i < all.len() && all[i] == x;
    assert((near + all)[near.len() + i] == x);
}

/// What is in no Rust module has no marks.
pub proof fn rust_functions_outside_of_modules_have_no_marks<'a>(n: Node<'a>)
    requires
        forall|m: Node<'a>| #[trigger] at_or_below(m, n) && m != n ==> !m.isa("mod_item"),
    ensures
        lang::rust::enclosing_marks(n).len() == 0,
    decreases n.index(),
{
    crate::tree::lemma_up_index(n);
    if n.up() is Some {
        let p = n.up()->0;
        assert(at_or_below(p, p));
        assert(at_or_below(p, n));
        assert forall|m: Node<'a>| #[trigger] at_or_below(m, p) && m != p implies !m.isa(
            "mod_item",
        ) by {
            lemma_below_index(m, p);
            assert(at_or_below(m, n));
        }
        rust_functions_outside_of_modules_have_no_marks(p);
    }
}

/// An impl block of Rust is for the type that it names, without its parameters and its
/// path.
pub proof fn rust_impls_are_for_their_types(n: Node<'_>, t: Node<'_>)
    requires
        n.at("type") == Some(t),
    ensures
        t.isa("type_identifier") ==> lang::rust::impl_type_name(n) == Some(t.txt()),
        t.isa("generic_type") ==> lang::rust::impl_type_name(n) == txt_at(t, "type"),
        t.isa("scoped_type_identifier") ==> lang::rust::impl_type_name(n) == txt_at(t, "name"),
{
    reveal_strlit("type_identifier");
    reveal_strlit("generic_type");
    reveal_strlit("scoped_type_identifier");
    assert("type_identifier"@.len() == 15);
    assert("generic_type"@.len() == 12);
    assert("scoped_type_identifier"@.len() == 22);
}

/// Types of Go that a signature can have as its result.
pub open spec fn is_go_result(c: Node<'_>) -> bool {
    c.isa("type_identifier") || c.isa("qualified_type") || c.isa("pointer_type") || c.isa(
        "slice_type",
    ) || c.isa("map_type") || c.isa("channel_type") || c.isa("function_type") || c.isa(
        "interface_type",
    ) || c.isa("struct_type") || c.isa("parenthesized_type")
}

/// Whether one of the first `k` children of a signature of Go names it, as the last of
/// those that can.
pub open spec fn is_signature_name(n: Node<'_>, k: int, name: Seq<char>) -> bool {
    ||| exists|j: int|
        0 <= j < k && (#[trigger] n.kid(j)).isa("field_identifier") && name == n.kid(j).txt()
            && forall|m: int| j < m < k ==> !(#[trigger] n.kid(m)).isa("field_identifier")
    ||| name.len() == 0 && forall|m: int|
        0 <= m < k ==> !(#[trigger] n.kid(m)).isa("field_identifier")
}

/// Whether one of the first `k` children of a signature of Go is its result, as the
/// last of those that can.
pub open spec fn is_signature_result(n: Node<'_>, k: int, result: Option<Seq<char>>) -> bool {
    match result {
        Some(t) => exists|j: int|
            0 <= j < k && is_go_result(#[trigger] n.kid(j)) && t == n.kid(j).txt() && forall|m: int|
                j < m < k ==> !is_go_result(#[trigger] n.kid(m)),
        None => forall|m: int| 0 <= m < k ==> !is_go_result(#[trigger] n.kid(m)),
    }
}

proof fn lemma_signature(n: Node<'_>, k: nat)
    requires
        k <= n.arity(),
    ensures
        ({
            let s = folded_upto(&lang::go::SignatureParts, (Seq::empty(), None), n, k);
            is_signature_name(n, k as int, s.0) && is_signature_result(n, k as int, s.1)
        }),
    decreases k,
{
    if k > 0 {
        lemma_signature(n, (k - 1) as nat);
        lemma_go_kinds(n.kid(k - 1));
        let s = folded_upto(&lang::go::SignatureParts, (Seq::empty(), None), n, (k - 1) as nat);
        let t = folded_upto(&lang::go::SignatureParts, (Seq::empty(), None), n, k);
        let c = n.kid(k - 1);
        if c.isa("field_identifier") {
            assert(forall|m: int|
                k - 1 < m < k ==> !(#[trigger] n.kid(m)).isa("field_identifier"));
            assert(is_signature_name(n, k as int, t.0));
        } else {
            if exists|j: int|
                0 <= j < k - 1 && (#[trigger] n.kid(j)).isa("field_identifier") && s.0 == n.kid(
                    j,
                ).txt() && forall|m: int|
                    j < m < k - 1 ==> !(#[trigger] n.kid(m)).isa("field_identifier") {
                let j = choose|j: int|
                    0 <= j < k - 1 && (#[trigger] n.kid(j)).isa("field_identifier") && s.0
                        == n.kid(j).txt() && forall|m: int|
                        j < m < k - 1 ==> !(#[trigger] n.kid(m)).isa("field_identifier");
                assert(n.kid(j).isa("field_identifier"));
            }
            assert(is_signature_name(n, k as int, t.0));
        }
        if is_go_result(c) {
            assert(forall|m: int| k - 1 < m < k ==> !is_go_result(#[trigger] n.kid(m)));
            assert(is_signature_result(n, k as int, t.1));
        } else {
            if s.1 is Some {
                let j = choose|j: int|
                    0 <= j < k - 1 && is_go_result(#[trigger] n.kid(j)) && s.1->0 == n.kid(j).txt()
                        && forall|m: int| j < m < k - 1 ==> !is_go_result(#[trigger] n.kid(m));
                assert(is_go_result(n.kid(j)));
            }
            assert(is_signature_result(n, k as int, t.1));
        }
    }
}

proof fn lemma_go_kinds(c: Node<'_>)
    ensures
        is_go_result(c) == lang::go::SingleType.accepts(c),
        is_go_result(c) ==> !c.isa("field_identifier") && !c.isa("parameter_list"),
{
    reveal_strlit("field_identifier");
    reveal_strlit("parameter_list");
    reveal_strlit("type_identifier");
    reveal_strlit("qualified_type");
    reveal_strlit("pointer_type");
    reveal_strlit("slice_type");
    reveal_strlit("map_type");
    reveal_strlit("channel_type");
    reveal_strlit("function_type");
    reveal_strlit("interface_type");
    reveal_strlit("struct_type");
    reveal_strlit("parenthesized_type");
    assert("field_identifier"@.len() == 16);
    assert("parameter_list"@.len() == 14);
    assert("parameter_list"@[2] == 'r');
    assert("type_identifier"@.len() == 15);
    assert("qualified_type"@.len() == 14);
    assert("qualified_type"@[2] == 'a');
    assert("pointer_type"@.len() == 12);
    assert("slice_type"@.len() == 10);
    assert("map_type"@.len() == 8);
    assert("channel_type"@.len() == 12);
    assert("function_type"@.len() == 13);
    assert("interface_type"@.len() == 14);
    assert("interface_type"@[2] == 't');
    assert("struct_type"@.len() == 11);
    assert("parenthesized_type"@.len() == 18);
}

/// Lists of parameters of Go.
pub open spec fn go_param_lists<'a>() -> spec_fn(Node<'a>) -> bool {
    |c: Node<'a>| c.isa("parameter_list")
}

/// Parameters of Go that have a name.
pub open spec fn go_named_params<'a>() -> spec_fn(Node<'a>) -> bool {
    |c: Node<'a>| c.isa("parameter_declaration") && c.at("name") is Some
}

/// The name of a parameter of Go.
pub open spec fn go_named_param<'a>() -> spec_fn(Seq<char>, Node<'a>) -> bool {
    |s: Seq<char>, c: Node<'a>| s == word_at(c, "name")
}

/// The names of parameters in a list of Go.
pub open spec fn go_param_list<'a>() -> spec_fn(Seq<Seq<char>>, Node<'a>) -> bool {
    |s: Seq<Seq<char>>, c: Node<'a>| reports_kids(c, go_named_params(), go_named_param(), s)
}

/// Whether `f` is what is reported of a signature of Go with this name and result.
pub open spec fn is_go_signature(
    f: Function,
    n: Node<'_>,
    name: Seq<char>,
    result: Option<Seq<char>>,
) -> bool {
    &&& f.name == name
    &&& f.line_number == n.top()
    &&& f.line_end == n.bottom()
    &&& f.return_type == match result {
        Some(t) => Some(t),
        None => txt_at(n, "result"),
    }
    &&& reports_kid_blocks(n, go_param_lists(), go_param_list(), f.params)
    &&& f.docstring == lang::go::docstring(n)
    &&& f.is_method
    &&& !f.is_async
    &&& f.decorators.len() == 0
    &&& f.visibility == Some(
        if 'A' <= name[0] <= 'Z' {
            "public"@
        } else {
            "private"@
        },
    )
    &&& f.state_mutability is None
}

/// A signature of a Go interface is reported under its name, with its parameters and its
/// result. One without a name is left out.
pub proof fn go_signatures_are_reported<'a>(n: Node<'a>)
    ensures
        exists|name: Seq<char>, result: Option<Seq<char>>|
            #![trigger is_signature_name(n, n.arity() as int, name), is_signature_result(
                n,
                n.arity() as int,
                result,
            )]
            is_signature_name(n, n.arity() as int, name) && is_signature_result(
                n,
                n.arity() as int,
                result,
            ) && match lang::go::signature_info(n) {
                Some(f) => name.len() > 0 && is_go_signature(f, n, name, result),
                None => name.len() == 0,
            },
{
    lemma_signature(n, n.arity());
    let q = lang::go::SignatureParams;
    assert forall|i: int| 0 <= i < n.arity() && go_param_lists()(
        #[trigger] n.kid(i),
    ) implies go_param_list()(q.picks(n.kid(i)), n.kid(i)) by {
        lemma_picked_kids(
            &lang::go::ListedNames,
            n.kid(i),
            go_named_params(),
            go_named_param(),
        );
    }
    lemma_picked_blocks(&q, n, go_param_lists(), go_param_list());
}

/// Receivers of Go that have a type.
pub open spec fn go_receivers<'a>() -> spec_fn(Node<'a>) -> bool {
    |c: Node<'a>| c.isa("parameter_declaration") && c.at("type") is Some
}

/// A Go method belongs to the type of its first receiver, without the `*` of a pointer.
pub proof fn go_methods_are_for_their_receivers<'a>(n: Node<'a>, list: Node<'a>, i: int)
    requires
        n.at("receiver") == Some(list),
        0 <= i < list.arity(),
        go_receivers()(list.kid(i)),
        forall|m: int| 0 <= m < i ==> !go_receivers()(#[trigger] list.kid(m)),
    ensures
        lang::go::receiver_type(n) == stripped_front(word_at(list.kid(i), "type"), "*"@),
{
    lemma_go_receiver(list, 0, i);
}

proof fn lemma_go_receiver<'a>(list: Node<'a>, k: int, i: int)
    requires
        0 <= k <= i < list.arity(),
        go_receivers()(list.kid(i)),
        forall|m: int| 0 <= m < i ==> !go_receivers()(#[trigger] list.kid(m)),
    ensures
        crate::walk::found_from(&lang::go::TypedReceiver, list, k) == Some(list.kid(i)),
    decreases i - k,
{
    if k < i {
        assert(!go_receivers()(list.kid(k)));
        lemma_go_receiver(list, k + 1, i);
    }
}

/// An Elixir function is named by the call that its head is, and has its parameters.
pub proof fn elixir_heads_are_calls(n: Node<'_>, args: Node<'_>, call: Node<'_>)
    requires
        n.arity() > 1,
        n.kid(1) == args,
        args.isa("arguments"),
        args.arity() > 0,
        args.kid(0) == call,
        call.isa("call"),
        call.arity() > 0,
        call.kid(0).isa("identifier"),
    ensures
        lang::elixir::head(n).0 == call.kid(0).txt(),
        lang::elixir::head(n).1 == lang::elixir::clause_params(call),
{
    reveal_strlit("call");
    reveal_strlit("identifier");
    assert("call"@.len() == 4);
    assert("identifier"@.len() == 10);
}

/// An Elixir function without parameters is named by the identifier that its head is.
pub proof fn elixir_heads_may_be_identifiers(n: Node<'_>, args: Node<'_>)
    requires
        n.arity() > 1,
        n.kid(1) == args,
        args.isa("arguments"),
        args.arity() > 0,
        args.kid(0).isa("identifier"),
    ensures
        lang::elixir::head(n).0 == args.kid(0).txt(),
        lang::elixir::head(n).1.len() == 0,
{
}

/// An Elixir function with a guard is named by the call before the guard, and has its
/// parameters.
pub proof fn elixir_heads_may_have_guards(n: Node<'_>, args: Node<'_>, guarded: Node<'_>)
    requires
        n.arity() > 1,
        n.kid(1) == args,
        args.isa("arguments"),
        args.arity() > 0,
        args.kid(0) == guarded,
        guarded.isa("binary_operator"),
        guarded.arity() > 0,
        guarded.kid(0).isa("call"),
        guarded.kid(0).arity() > 0,
        guarded.kid(0).kid(0).isa("identifier"),
    ensures
        lang::elixir::head(n).0 == guarded.kid(0).kid(0).txt(),
        lang::elixir::head(n).1 == lang::elixir::clause_params(guarded.kid(0)),
{
    reveal_strlit("call");
    reveal_strlit("identifier");
    reveal_strlit("binary_operator");
    assert("call"@.len() == 4);
    assert("identifier"@.len() == 10);
    assert("binary_operator"@.len() == 15);
}

/// The documentation of an Elixir module is its first `@moduledoc`, where it stands
/// before the functions.
pub proof fn elixir_module_docs_come_first(body: Node<'_>, i: int, k: int)
    requires
        0 <= i <= k < body.arity(),
        body.kid(k).isa("call") || body.kid(k).isa("unary_operator"),
        begins(body.kid(k).txt(), "@moduledoc"@),
        trimmed(crate::text::behind_all(body.kid(k).txt(), "@moduledoc"@)).len() > 0,
        forall|j: int|
            0 <= j < k ==> !begins((#[trigger] body.kid(j)).txt(), "@moduledoc"@)
                && !crate::laws::reported_functions::is_elixir_def(body.kid(j)),
    ensures
        lang::elixir::moduledoc_from(body, i) == Some(
            trimmed(crate::text::behind_all(body.kid(k).txt(), "@moduledoc"@)),
        ),
    decreases k - i,
{
    if i < k {
        assert(!begins(body.kid(i).txt(), "@moduledoc"@)
            && !crate::laws::reported_functions::is_elixir_def(body.kid(i)));
        elixir_module_docs_come_first(body, i + 1, k);
    }
}

/// A Lua assignment gives its function the name that its first target has.
pub proof fn lua_functions_are_named_by_their_targets(targets: Node<'_>)
    requires
        targets.arity() > 0,
    ensures
        targets.kid(0).isa("identifier") ==> lang::lua::target_name_from(targets, 0)
            == targets.kid(0).txt(),
        targets.kid(0).isa("dot_index_expression") ==> (targets.kid(0).at("field") matches Some(f)
            ==> lang::lua::target_name_from(targets, 0) == f.txt()),
        targets.kid(0).isa("bracket_index_expression") ==> (targets.kid(0).at("table") matches Some(
            t,
        ) ==> (targets.kid(0).at("field") matches Some(f) ==> (t.txt().len() > 0 && f.txt().len()
            > 0 ==> lang::lua::target_name_from(targets, 0) == t.txt() + "["@ + f.txt() + "]"@))),
{
    reveal_strlit("identifier");
    reveal_strlit("dot_index_expression");
    reveal_strlit("bracket_index_expression");
    assert("identifier"@.len() == 10);
    assert("dot_index_expression"@.len() == 20);
    assert("bracket_index_expression"@.len() == 24);
}

/// No node of Lua hides a field of `self`.
pub open spec fn lua_open<'a>() -> spec_fn(Node<'a>) -> bool {
    |c: Node<'a>| false
}

/// Assignments of Lua with targets.
pub open spec fn lua_self_assignments<'a>() -> spec_fn(Node<'a>) -> bool {
    |c: Node<'a>| c.isa("assignment_statement") && first(c, "variable_list") is Some
}

/// Targets of Lua that are fields of `self`.
pub open spec fn lua_self_targets<'a>() -> spec_fn(Node<'a>) -> bool {
    |c: Node<'a>|
        c.isa("dot_index_expression") && c.at("table") is Some && word_at(c, "table") == "self"@
            && word_at(c, "field").len() > 0
}

/// What is reported of a field that a method of Lua gives to `self`.
pub open spec fn lua_self_field<'a>(assignment: Node<'a>) -> spec_fn(Field, Node<'a>) -> bool {
    |f: Field, c: Node<'a>|
        {
            &&& f.name == word_at(c, "field")
            &&& f.line_number == assignment.top()
            &&& f.line_end == assignment.bottom()
            &&& f.field_type is None
            &&& f.default_value is None
            &&& !f.is_static
            &&& !f.is_constant
            &&& f.visibility is None
        }
}

/// The fields that an assignment of Lua gives to `self`.
pub open spec fn lua_self_assigned<'a>() -> spec_fn(Seq<Field>, Node<'a>) -> bool {
    |s: Seq<Field>, c: Node<'a>|
        reports_kids(first(c, "variable_list")->0, lua_self_targets(), lua_self_field(c), s)
}

/// The fields that a method of Lua gives to `self` are collected each one time, in the
/// order of the source, and nothing else is.
pub proof fn lua_self_fields_are_collected<'a>(n: Node<'a>)
    ensures
        reports_blocks(
            n,
            closed_by(lua_open()),
            lua_self_assignments(),
            lua_self_assigned(),
            gathered(&lang::lua::SelfFields, n),
        ),
{
    let w = lang::lua::SelfFields;
    assert forall|c: Node<'a>| lua_self_assignments()(c) implies lua_self_assigned()(
        #[trigger] w.yields(c),
        c,
    ) by {
        lemma_picked_kids(
            &lang::lua::SelfTargets { assignment: c },
            first(c, "variable_list")->0,
            lua_self_targets(),
            lua_self_field(c),
        );
    }
    lemma_reported_blocks(&w, n, lua_open(), lua_self_assignments(), lua_self_assigned());
}

} // verus!
