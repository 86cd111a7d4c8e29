//! What single parts of a report say: visibilities, return types, the documentation
//! of files, and the lines of declarations.

use vstd::prelude::*;

use crate::extract::{js_doc_from, module_docstring, python_doc_from, rust_doc_from};
use crate::lang;
use crate::laws::listing::{reports_kids, lemma_picked_kids};
use crate::laws::reported_functions::{lemma_found, txt_at, word_at};
use crate::lists::group_lists;
use crate::names::{is_constant_name, js_visibility, underscore_visibility};
use crate::spans::{declaration_line, DeclarationPart};
use crate::text::{begins, behind_all, has, joined, stripped, stripped_front, trimmed};
use crate::tree::{group_tree, Node};
use crate::types::{EventParam, Language, Param};
use crate::walk::{found, found_from, picked, Picker, Test};

verus! {

broadcast use {group_tree, group_lists};

/// Whether `c` is the first child of `n` that `p` accepts.
pub open spec fn is_first_kid<'a>(n: Node<'a>, p: spec_fn(Node<'a>) -> bool, c: Node<'a>) -> bool {
    exists|i: int|
        0 <= i < n.arity() && #[trigger] n.kid(i) == c && p(c) && forall|m: int|
            0 <= m < i ==> !p(#[trigger] n.kid(m))
}

/// Whether `p` accepts no child of `n`.
pub open spec fn no_kid<'a>(n: Node<'a>, p: spec_fn(Node<'a>) -> bool) -> bool {
    forall|m: int| 0 <= m < n.arity() ==> !p(#[trigger] n.kid(m))
}

proof fn lemma_first_from<'a, T: Test>(
    t: &T,
    n: Node<'a>,
    i: int,
    p: spec_fn(Node<'a>) -> bool,
)
    requires
        0 <= i,
        forall|c: Node<'a>| #[trigger] t.accepts(c) == p(c),
        forall|m: int| 0 <= m < i && m < n.arity() ==> !p(#[trigger] n.kid(m)),
    ensures
        found_from(t, n, i) matches Some(c) ==> is_first_kid(n, p, c),
        found_from(t, n, i) is None ==> no_kid(n, p),
    decreases n.arity() - i,
{
    if i < n.arity() {
        assert(t.accepts(n.kid(i)) == p(n.kid(i)));
        if !p(n.kid(i)) {
            lemma_first_from(t, n, i + 1, p);
        }
    }
}

pub(crate) proof fn lemma_first<'a, T: Test>(t: &T, n: Node<'a>, p: spec_fn(Node<'a>) -> bool)
    requires
        forall|c: Node<'a>| #[trigger] t.accepts(c) == p(c),
    ensures
        found(t, n) matches Some(c) ==> is_first_kid(n, p, c),
        found(t, n) is None ==> no_kid(n, p),
{
    lemma_first_from(t, n, 0, p);
}

/// The kinds of what can stand before a declaration without being part of it.
pub open spec fn preamble_kinds() -> Seq<Seq<char>> {
    seq![
        "modifiers"@,
        "annotation"@,
        "marker_annotation"@,
        "single_member_annotation"@,
        "normal_annotation"@,
        "annotation_modifier"@,
        "function_modifier"@,
        "platform_modifier"@,
        "member_modifier"@,
        "inheritance_modifier"@,
        "parameter_modifier"@,
        "reification_modifier"@,
        "visibility_modifier"@,
        "annotations"@,
        "attribute"@,
        "attributes"@,
        "modifier"@,
        "type_modifiers"@,
        "user_type"@,
        "attribute_list"@,
        "block_comment"@,
        "line_comment"@,
        "comment"@,
        "decorator"@,
    ]
}

/// Parts of a declaration proper.
pub open spec fn proper_parts<'a>() -> spec_fn(Node<'a>) -> bool {
    |c: Node<'a>| !preamble_kinds().contains(c.tag())
}

proof fn lemma_preamble(c: Node<'_>)
    ensures
        crate::spans::is_annotation_like(c) == preamble_kinds().contains(c.tag()),
{
    let kinds = preamble_kinds();
    let t = c.tag();
    if kinds.contains(t) {
        let i = choose|i: int| 0 <= i < kinds.len() && kinds[i] == t;
        assert(0 <= i < 24);
    }
    assert(kinds[0] == "modifiers"@);
    assert(kinds[1] == "annotation"@);
    assert(kinds[2] == "marker_annotation"@);
    assert(kinds[3] == "single_member_annotation"@);
    assert(kinds[4] == "normal_annotation"@);
    assert(kinds[5] == "annotation_modifier"@);
    assert(kinds[6] == "function_modifier"@);
    assert(kinds[7] == "platform_modifier"@);
    assert(kinds[8] == "member_modifier"@);
    assert(kinds[9] == "inheritance_modifier"@);
    assert(kinds[10] == "parameter_modifier"@);
    assert(kinds[11] == "reification_modifier"@);
    assert(kinds[12] == "visibility_modifier"@);
    assert(kinds[13] == "annotations"@);
    assert(kinds[14] == "attribute"@);
    assert(kinds[15] == "attributes"@);
    assert(kinds[16] == "modifier"@);
    assert(kinds[17] == "type_modifiers"@);
    assert(kinds[18] == "user_type"@);
    assert(kinds[19] == "attribute_list"@);
    assert(kinds[20] == "block_comment"@);
    assert(kinds[21] == "line_comment"@);
    assert(kinds[22] == "comment"@);
    assert(kinds[23] == "decorator"@);
}

/// A declaration is reported on the line of its first part that is no annotation,
/// modifier, attribute or comment, or on its first line where there is none.
pub proof fn declarations_begin_behind_their_preamble<'a>(n: Node<'a>)
    ensures
        ({
            ||| exists|c: Node<'a>| #[trigger]
                is_first_kid(n, proper_parts(), c) && declaration_line(n) == c.top()
            ||| no_kid(n, proper_parts()) && declaration_line(n) == n.top()
        }),
{
    assert forall|c: Node<'a>| #[trigger] DeclarationPart.accepts(c) == proper_parts()(c) by {
        lemma_preamble(c);
    }
    lemma_first(&DeclarationPart, n, proper_parts());
}

/// Modifiers of C# that state an access.
pub open spec fn csharp_access<'a>() -> spec_fn(Node<'a>) -> bool {
    |c: Node<'a>|
        c.isa("modifier") && (c.txt() == "public"@ || c.txt() == "private"@ || c.txt()
            == "protected"@ || c.txt() == "internal"@)
}

/// The visibility of a C# method is its first modifier that states an access.
pub proof fn csharp_visibility_is_stated<'a>(n: Node<'a>)
    ensures
        found(&lang::csharp::AccessModifier, n) matches Some(c) ==> is_first_kid(
            n,
            csharp_access(),
            c,
        ),
        found(&lang::csharp::AccessModifier, n) is None ==> no_kid(n, csharp_access()),
{
    lemma_first(&lang::csharp::AccessModifier, n, csharp_access());
}

/// Visibilities of Solidity.
pub open spec fn solidity_access<'a>() -> spec_fn(Node<'a>) -> bool {
    |c: Node<'a>|
        {
            let word = trimmed(c.txt());
            c.isa("visibility") && (word == "public"@ || word == "external"@ || word
                == "internal"@ || word == "private"@)
        }
}

/// The visibility of a Solidity function is the first that it states.
pub proof fn solidity_visibility_is_stated<'a>(n: Node<'a>)
    ensures
        lang::solidity::visibility(n) matches Some(word) ==> exists|c: Node<'a>| #[trigger]
            is_first_kid(n, solidity_access(), c) && word == trimmed(c.txt()),
        lang::solidity::visibility(n) is None ==> no_kid(n, solidity_access()),
{
    lemma_first(&lang::solidity::VisibilityNode, n, solidity_access());
}

/// Whether a word is a mutability of Solidity.
pub open spec fn is_mutability_word(s: Seq<char>) -> bool {
    s == "pure"@ || s == "view"@ || s == "payable"@
}

/// What states a mutability in Solidity.
pub open spec fn solidity_mutability<'a>() -> spec_fn(Node<'a>) -> bool {
    |c: Node<'a>|
        (c.isa("state_mutability") && is_mutability_word(trimmed(c.txt()))) || (!c.facts().named
            && is_mutability_word(c.tag()))
}

/// The mutability of a Solidity function is the first that it states.
pub proof fn solidity_mutability_is_stated<'a>(n: Node<'a>)
    ensures
        lang::solidity::state_mutability(n) matches Some(word) ==> is_mutability_word(word)
            && exists|c: Node<'a>| #[trigger]
            is_first_kid(n, solidity_mutability(), c) && (word == trimmed(c.txt()) || word
                == c.tag()),
        lang::solidity::state_mutability(n) is None ==> no_kid(n, solidity_mutability()),
{
    lemma_first(&lang::solidity::MutabilityNode, n, solidity_mutability());
}

/// Words that name a fallback of Solidity.
pub open spec fn solidity_fallback<'a>() -> spec_fn(Node<'a>) -> bool {
    |c: Node<'a>|
        c.isa("fallback") || c.isa("receive") || c.txt() == "fallback"@ || c.txt() == "receive"@
}

/// A fallback of Solidity is named by the first word for one: `fallback` or `receive`.
pub proof fn solidity_fallbacks_are_named<'a>(n: Node<'a>)
    ensures
        lang::solidity::fallback_name(n) == "fallback"@ || lang::solidity::fallback_name(n)
            == "receive"@,
        forall|c: Node<'a>| #[trigger]
            is_first_kid(n, solidity_fallback(), c) && c.isa("receive")
                ==> lang::solidity::fallback_name(n) == "receive"@,
        no_kid(n, solidity_fallback()) ==> lang::solidity::fallback_name(n) == "fallback"@,
{
    lemma_first(&lang::solidity::FallbackWord, n, solidity_fallback());
    reveal_strlit("fallback");
    reveal_strlit("receive");
    assert("fallback"@.len() == 8);
    assert("receive"@.len() == 7);
    assert forall|c: Node<'a>| #[trigger]
        is_first_kid(n, solidity_fallback(), c) && c.isa(
        "receive",
    ) implies lang::solidity::fallback_name(n) == "receive"@ by {
        let i = choose|i: int|
            0 <= i < n.arity() && #[trigger] n.kid(i) == c && solidity_fallback()(c)
                && forall|m: int| 0 <= m < i ==> !solidity_fallback()(#[trigger] n.kid(m));
        let d = found(&lang::solidity::FallbackWord, n)->0;
        let j = choose|j: int|
            0 <= j < n.arity() && #[trigger] n.kid(j) == d && solidity_fallback()(d)
                && forall|m: int| 0 <= m < j ==> !solidity_fallback()(#[trigger] n.kid(m));
        assert(n.kid(i) == c && n.kid(j) == d);
    }
}

/// Parameters of a kind.
pub open spec fn of_kind<'a>(kind: Seq<char>) -> spec_fn(Node<'a>) -> bool {
    |c: Node<'a>| c.tag() == kind
}

/// What is reported of a parameter with its type.
pub open spec fn typed_param<'a>() -> spec_fn(Param, Node<'a>) -> bool {
    |x: Param, c: Node<'a>|
        x.name == word_at(c, "name") && x.type_ == txt_at(c, "type") && x.default_value is None
}

/// The parameters of Solidity modifiers and errors are reported with their types, each
/// one time and in order.
pub proof fn solidity_typed_params_are_listed<'a>(n: Node<'a>, kind: &str)
    ensures
        reports_kids(
            n,
            of_kind(kind@),
            typed_param(),
            picked(&lang::solidity::TypedParams { kind }, n),
        ),
{
    lemma_picked_kids(&lang::solidity::TypedParams { kind }, n, of_kind(kind@), typed_param());
}

/// What is reported of a parameter of an event of Solidity.
pub open spec fn event_param<'a>() -> spec_fn(EventParam, Node<'a>) -> bool {
    |x: EventParam, c: Node<'a>|
        x.name == word_at(c, "name") && x.type_ == word_at(c, "type") && x.indexed == exists|i: int|
            0 <= i < c.arity() && ((#[trigger] c.kid(i)).isa("indexed") || c.kid(i).txt()
                == "indexed"@)
}

/// The parameters of Solidity events are reported with their types and whether they
/// are indexed, each one time and in order.
pub proof fn solidity_event_params_are_listed<'a>(n: Node<'a>)
    ensures
        reports_kids(
            n,
            of_kind("event_parameter"@),
            event_param(),
            picked(&lang::solidity::EventParams, n),
        ),
{
    let q = lang::solidity::EventParams;
    assert forall|i: int| 0 <= i < n.arity() && of_kind("event_parameter"@)(
        #[trigger] n.kid(i),
    ) implies q.picks(n.kid(i)).len() == 1 && event_param()(q.picks(n.kid(i))[0], n.kid(i)) by {
        let c = n.kid(i);
        lemma_found(&lang::solidity::IndexedWord, c, 0);
        assert forall|j: int| 0 <= j < c.arity() implies lang::solidity::IndexedWord.accepts(
            #[trigger] c.kid(j),
        ) == (c.kid(j).isa("indexed") || c.kid(j).txt() == "indexed"@) by {
        }
    }
    lemma_picked_kids(&q, n, of_kind("event_parameter"@), event_param());
}

/// An event of Solidity is anonymous where one of its parts says so.
pub proof fn solidity_anonymous_events_say_so(n: Node<'_>)
    ensures
        lang::solidity::event_info(n).is_anonymous <==> exists|i: int|
            0 <= i < n.arity() && ((#[trigger] n.kid(i)).isa("anonymous") || n.kid(i).txt()
                == "anonymous"@),
{
    lemma_found(&lang::solidity::AnonymousWord, n, 0);
    assert forall|j: int| 0 <= j < n.arity() implies lang::solidity::AnonymousWord.accepts(
        #[trigger] n.kid(j),
    ) == (n.kid(j).isa("anonymous") || n.kid(j).txt() == "anonymous"@) by {
    }
}

/// Parameters of Solidity that have a type.
pub open spec fn returned<'a>() -> spec_fn(Node<'a>) -> bool {
    |c: Node<'a>| c.isa("parameter") && c.at("type") is Some
}

/// The type of a parameter.
pub open spec fn its_type<'a>() -> spec_fn(Seq<char>, Node<'a>) -> bool {
    |s: Seq<char>, c: Node<'a>| s == word_at(c, "type")
}

/// The return type of a Solidity function is the type that it returns, or all of them
/// in brackets.
pub proof fn solidity_returns_all_types<'a>(n: Node<'a>, list: Node<'a>)
    requires
        n.at("return_type") == Some(list),
    ensures
        exists|types: Seq<Seq<char>>| #[trigger]
            reports_kids(list, returned(), its_type(), types) && lang::solidity::return_type(n)
                == if types.len() == 0 {
                None
            } else if types.len() == 1 {
                Some(types[0])
            } else {
                Some("("@ + joined(types, ", "@) + ")"@)
            },
{
    lemma_picked_kids(&lang::solidity::ReturnedTypes, list, returned(), its_type());
    assert(reports_kids(
        list,
        returned(),
        its_type(),
        picked(&lang::solidity::ReturnedTypes, list),
    ));
}

/// A name of a type of Solidity is an identifier, or the last identifier inside of it.
pub proof fn solidity_types_are_named_by_identifiers(n: Node<'_>, c: Node<'_>)
    requires
        crate::walk::last_found(&lang::solidity::TypeNameNode, n) == Some(c),
    ensures
        c.isa("identifier") ==> lang::solidity::named_type(n) == c.txt(),
        !c.isa("identifier") ==> lang::solidity::named_type(n) == lang::solidity::named_type(c),
{
    reveal_with_fuel(lang::solidity::named_type, 2);
    crate::walk::lemma_last_rank(&lang::solidity::TypeNameNode, n);
}

/// A constant is spelled with capital letters, digits and underscores, and at least
/// one letter.
pub proof fn constant_names_are_in_capitals(name: Seq<char>)
    requires
        forall|i: int| 0 <= i < name.len() ==> (#[trigger] name[i]) as u32 <= 0x7f,
    ensures
        is_constant_name(name) <==> (forall|i: int|
            0 <= i < name.len() ==> 'A' <= #[trigger] name[i] <= 'Z' || name[i] == '_' || '0'
                <= name[i] <= '9') && (exists|i: int|
            0 <= i < name.len() && 'A' <= #[trigger] name[i] <= 'Z'),
{
    if is_constant_name(name) {
        let i = choose|i: int| 0 <= i < name.len() && crate::text::letter(#[trigger] name[i]);
        assert('A' <= name[i] <= 'Z');
        assert forall|i: int| 0 <= i < name.len() implies 'A' <= #[trigger] name[i] <= 'Z'
            || name[i] == '_' || '0' <= name[i] <= '9' by {
            assert(crate::text::upper(name[i]) || name[i] == '_' || '0' <= name[i] <= '9');
        }
    } else if (forall|i: int|
        0 <= i < name.len() ==> 'A' <= #[trigger] name[i] <= 'Z' || name[i] == '_' || '0' <= name[i]
            <= '9') && (exists|i: int| 0 <= i < name.len() && 'A' <= #[trigger] name[i] <= 'Z') {
        let i = choose|i: int| 0 <= i < name.len() && 'A' <= #[trigger] name[i] <= 'Z';
        assert(crate::text::letter(name[i]));
        assert forall|i: int| 0 <= i < name.len() implies crate::text::upper(#[trigger] name[i])
            || name[i] == '_' || '0' <= name[i] <= '9' by {
            assert('A' <= name[i] <= 'Z' || name[i] == '_' || '0' <= name[i] <= '9');
        }
    }
}

/// A name with an underscore at its front is private.
pub proof fn underscores_are_private(name: Seq<char>)
    ensures
        name.len() > 0 && name[0] == '_' ==> underscore_visibility(name) == Some("private"@)
            && js_visibility(name) == Some("private"@),
        name.len() == 0 || name[0] != '_' ==> underscore_visibility(name) == Some("public"@)
            && js_visibility(name) is None,
{
    reveal_strlit("_");
    assert("_"@ =~= seq!['_']);
    if name.len() > 0 {
        assert(name.subrange(0, 1) =~= seq![name[0]]);
        assert(name.subrange(0, 1)[0] == name[0]);
    }
}

/// The documentation of a Python file is the first string statement at its front,
/// where only comments and other expressions stand before it.
pub proof fn python_file_docs_come_first(root: Node<'_>, k: int)
    requires
        0 <= k < root.arity(),
        root.kid(k).isa("expression_statement"),
        root.kid(k).arity() > 0,
        root.kid(k).kid(0).isa("string"),
        forall|i: int|
            0 <= i < k ==> (#[trigger] root.kid(i)).isa("comment") || (root.kid(i).isa(
                "expression_statement",
            ) && !(root.kid(i).arity() > 0 && root.kid(i).kid(0).isa("string"))),
    ensures
        module_docstring(root, Language::Python) == Some(
            stripped(root.kid(k).kid(0).txt(), "\"'`"@),
        ),
{
    lemma_python_doc(root, 0, k);
}

proof fn lemma_python_doc(root: Node<'_>, i: int, k: int)
    requires
        0 <= i <= k < root.arity(),
        root.kid(k).isa("expression_statement"),
        root.kid(k).arity() > 0,
        root.kid(k).kid(0).isa("string"),
        forall|i: int|
            0 <= i < k ==> (#[trigger] root.kid(i)).isa("comment") || (root.kid(i).isa(
                "expression_statement",
            ) && !(root.kid(i).arity() > 0 && root.kid(i).kid(0).isa("string"))),
    ensures
        python_doc_from(root, i) == Some(stripped(root.kid(k).kid(0).txt(), "\"'`"@)),
    decreases k - i,
{
    if i < k {
        lemma_python_doc(root, i + 1, k);
        reveal_strlit("comment");
        reveal_strlit("expression_statement");
        assert("comment"@.len() == 7);
        assert("expression_statement"@.len() == 20);
    }
}

/// A Python file has no documentation where a statement stands before any string.
pub proof fn python_files_may_have_no_docs(root: Node<'_>, i: int, k: int)
    requires
        0 <= i <= k <= root.arity(),
        k < root.arity() ==> !root.kid(k).isa("comment") && !root.kid(k).isa(
            "expression_statement",
        ),
        forall|i: int|
            0 <= i < k ==> (#[trigger] root.kid(i)).isa("comment") || (root.kid(i).isa(
                "expression_statement",
            ) && !(root.kid(i).arity() > 0 && root.kid(i).kid(0).isa("string"))),
    ensures
        python_doc_from(root, i) is None,
    decreases k - i,
{
    reveal_strlit("comment");
    reveal_strlit("expression_statement");
    assert("comment"@.len() == 7);
    assert("expression_statement"@.len() == 20);
    if i < k {
        python_files_may_have_no_docs(root, i + 1, k);
    }
}

/// The documentation of a TypeScript or JavaScript file is the first `/**` comment at its
/// front, where only comments stand before it, as written.
pub proof fn js_file_docs_come_first(root: Node<'_>, i: int, k: int)
    requires
        0 <= i <= k < root.arity(),
        forall|i: int|
            0 <= i < k ==> (#[trigger] root.kid(i)).isa("comment") && !begins(
                root.kid(i).txt(),
                "/**"@,
            ),
    ensures
        root.kid(k).isa("comment") && begins(root.kid(k).txt(), "/**"@) ==> js_doc_from(root, i)
            == Some(root.kid(k).txt()),
        !root.kid(k).isa("comment") ==> js_doc_from(root, i) is None,
        module_docstring(root, Language::TypeScript) == js_doc_from(root, 0),
        module_docstring(root, Language::JavaScript) == js_doc_from(root, 0),
    decreases k - i,
{
    if i < k {
        js_file_docs_come_first(root, i + 1, k);
    }
}

/// The lines of the `//!` comments from position `a` to the one before `b`.
pub open spec fn inner_docs(root: Node<'_>, a: int, b: int) -> Seq<Seq<char>> {
    Seq::new(
        (b - a) as nat,
        |i: int| trimmed(behind_all(root.kid(a + i).txt(), "//!"@)),
    )
}

/// Whether the child at a position is a `//!` comment.
pub open spec fn is_inner_doc(root: Node<'_>, i: int) -> bool {
    root.kid(i).isa("line_comment") && begins(root.kid(i).txt(), "//!"@)
}

proof fn lemma_rust_doc(root: Node<'_>, a: int, i: int, b: int)
    requires
        0 <= a <= i <= b <= root.arity(),
        a < b,
        forall|j: int| a <= j < b ==> #[trigger] is_inner_doc(root, j),
        b < root.arity() ==> !is_inner_doc(root, b) && !(root.kid(b).isa("block_comment")
            && begins(root.kid(b).txt(), "/*!"@)),
    ensures
        rust_doc_from(root, i, inner_docs(root, a, i)) == Some(
            joined(inner_docs(root, a, b), "\n"@),
        ),
    decreases b - i,
{
    if i < b {
        lemma_rust_doc(root, a, i + 1, b);
        assert(is_inner_doc(root, i));
        assert(inner_docs(root, a, i) + seq![trimmed(behind_all(root.kid(i).txt(), "//!"@))]
            =~= inner_docs(root, a, i + 1));
    } else {
        assert(inner_docs(root, a, b).len() > 0);
    }
}

proof fn lemma_rust_doc_start(root: Node<'_>, i: int, a: int)
    requires
        0 <= i <= a <= root.arity(),
        forall|j: int|
            0 <= j < a ==> (#[trigger] root.kid(j)).isa("line_comment") && !is_inner_doc(root, j),
    ensures
        rust_doc_from(root, i, Seq::empty()) == rust_doc_from(root, a, Seq::empty()),
    decreases a - i,
{
    if i < a {
        lemma_rust_doc_start(root, i + 1, a);
        assert(root.kid(i).isa("line_comment") && !is_inner_doc(root, i));
        reveal_strlit("line_comment");
        reveal_strlit("block_comment");
        assert("line_comment"@.len() == 12);
        assert("block_comment"@.len() == 13);
    }
}

/// The documentation of a Rust file are the `//!` comments at its front, from top to
/// bottom, where only other line comments stand before them.
pub proof fn rust_file_docs_stand_in_source_order(root: Node<'_>, a: int, b: int)
    requires
        0 <= a < b <= root.arity(),
        forall|j: int|
            0 <= j < a ==> (#[trigger] root.kid(j)).isa("line_comment") && !is_inner_doc(root, j),
        forall|j: int| a <= j < b ==> #[trigger] is_inner_doc(root, j),
        b < root.arity() ==> !is_inner_doc(root, b) && !(root.kid(b).isa("block_comment")
            && begins(root.kid(b).txt(), "/*!"@)),
    ensures
        module_docstring(root, Language::Rust) == Some(joined(inner_docs(root, a, b), "\n"@)),
{
    lemma_rust_doc_start(root, 0, a);
    assert(inner_docs(root, a, a) =~= Seq::empty());
    lemma_rust_doc(root, a, a, b);
}

/// The type behind the colon of a Kotlin function: the first child behind the first
/// `:` that follows the parameters.
pub proof fn kotlin_return_types_follow_the_colon(n: Node<'_>, i: int, p: int, k: int)
    requires
        0 <= i <= p,
        p < k,
        k + 1 < n.arity(),
        n.kid(p).isa("function_value_parameters"),
        n.kid(k).txt() == ":"@,
        forall|j: int| p < j <= k + 1 ==> !(#[trigger] n.kid(j)).isa("function_value_parameters"),
        forall|j: int| 0 <= j < p ==> !(#[trigger] n.kid(j)).isa("function_value_parameters"),
        forall|j: int| p < j < k ==> (#[trigger] n.kid(j)).txt() != ":"@,
        n.kid(k + 1).txt() != ":"@,
    ensures
        lang::kotlin::return_type_from(n, i, false, false) == if n.kid(k + 1).isa("function_body")
            || n.kid(k + 1).isa("{") {
            None
        } else {
            Some(n.kid(k + 1).txt())
        },
    decreases p - i,
{
    if i < p {
        kotlin_return_types_follow_the_colon(n, i + 1, p, k);
    } else {
        lemma_kotlin_colon(n, p + 1, k);
    }
}

proof fn lemma_kotlin_colon(n: Node<'_>, i: int, k: int)
    requires
        0 <= i <= k,
        k + 1 < n.arity(),
        n.kid(k).txt() == ":"@,
        forall|j: int| i <= j <= k + 1 ==> !(#[trigger] n.kid(j)).isa("function_value_parameters"),
        forall|j: int| i <= j < k ==> (#[trigger] n.kid(j)).txt() != ":"@,
        n.kid(k + 1).txt() != ":"@,
    ensures
        lang::kotlin::return_type_from(n, i, true, false) == if n.kid(k + 1).isa("function_body")
            || n.kid(k + 1).isa("{") {
            None
        } else {
            Some(n.kid(k + 1).txt())
        },
    decreases k - i,
{
    if i < k {
        lemma_kotlin_colon(n, i + 1, k);
    } else {
        reveal_with_fuel(lang::kotlin::return_type_from, 3);
        assert(!n.kid(k).isa("function_value_parameters"));
        assert(!n.kid(k + 1).isa("function_value_parameters"));
    }
}

/// The return type of a Scala function is what follows the first `:`, unless that is
/// `=` or `{`.
pub proof fn scala_return_types_follow_the_colon(n: Node<'_>, i: int, k: int)
    requires
        0 <= i <= k,
        k + 1 < n.arity(),
        n.kid(k).txt() == ":"@,
        forall|j: int| 0 <= j < k ==> (#[trigger] n.kid(j)).txt() != ":"@,
        n.kid(k + 1).txt() != ":"@,
        n.kid(k + 1).txt().len() > 0,
    ensures
        lang::scala::return_type_from(n, i, false) == if n.kid(k + 1).txt() == "="@ || n.kid(
            k + 1,
        ).txt() == "{"@ {
            None
        } else {
            Some(n.kid(k + 1).txt())
        },
    decreases k - i,
{
    if i < k {
        assert(n.kid(i).txt() != ":"@);
        scala_return_types_follow_the_colon(n, i + 1, k);
    } else {
        reveal_with_fuel(lang::scala::return_type_from, 3);
    }
}

/// Types that a Swift function can return.
pub open spec fn swift_types<'a>() -> spec_fn(Node<'a>) -> bool {
    |c: Node<'a>|
        c.isa("type_identifier") || c.isa("type_annotation") || c.isa("simple_identifier") || c.isa(
            "user_type",
        ) || c.isa("optional_type") || c.isa("array_type") || c.isa("dictionary_type") || c.isa(
            "tuple_type",
        )
}

/// The return type of a Swift function is the type that follows the first `->`.
pub proof fn swift_return_types_follow_the_arrow(n: Node<'_>, i: int, k: int)
    requires
        0 <= i <= k,
        k + 1 < n.arity(),
        n.kid(k).isa("->") || n.kid(k).txt() == "->"@,
        forall|j: int|
            0 <= j < k ==> !(#[trigger] n.kid(j)).isa("->") && n.kid(j).txt() != "->"@,
        !n.kid(k + 1).isa("->"),
        n.kid(k + 1).txt() != "->"@,
        swift_types()(n.kid(k + 1)),
    ensures
        lang::swift::return_type_from(n, i, false) == Some(n.kid(k + 1).txt()),
    decreases k - i,
{
    if i < k {
        assert(!n.kid(i).isa("->") && n.kid(i).txt() != "->"@);
        swift_return_types_follow_the_arrow(n, i + 1, k);
    } else {
        reveal_with_fuel(lang::swift::return_type_from, 3);
    }
}

/// A function of Swift, Scala, Kotlin or Luau without an arrow or colon has no return
/// type.
pub proof fn functions_may_have_no_return_type(n: Node<'_>, i: int)
    requires
        0 <= i,
        forall|j: int|
            0 <= j < n.arity() ==> !(#[trigger] n.kid(j)).isa("->") && n.kid(j).txt() != "->"@
                && n.kid(j).txt() != ":"@ && !n.kid(j).isa(":"),
    ensures
        lang::swift::return_type_from(n, i, false) is None,
        lang::scala::return_type_from(n, i, false) is None,
        lang::kotlin::return_type_from(n, i, false, false) is None,
        lang::kotlin::return_type_from(n, i, true, false) is None,
        lang::lua::return_type_from(n, i, false, false) is None,
        lang::lua::return_type_from(n, i, true, false) is None,
    decreases n.arity() - i,
{
    if i < n.arity() {
        functions_may_have_no_return_type(n, i + 1);
        assert(!n.kid(i).isa("->") && n.kid(i).txt() != "->"@ && n.kid(i).txt() != ":"@
            && !n.kid(i).isa(":"));
    }
}

/// The return type of a Luau function is what follows the `:` behind the parameters.
pub proof fn luau_return_types_follow_the_colon(n: Node<'_>, i: int, p: int)
    requires
        0 <= i <= p,
        p + 2 < n.arity(),
        n.kid(p).isa("parameters"),
        n.kid(p + 1).isa(":"),
        forall|j: int|
            0 <= j < p ==> !(#[trigger] n.kid(j)).isa("parameters") && !n.kid(j).isa("block")
                && !n.kid(j).isa("end"),
        !n.kid(p + 2).isa("parameters"),
        !n.kid(p + 2).isa(":"),
        !n.kid(p + 2).isa("block"),
        !n.kid(p + 2).isa("end"),
        trimmed(n.kid(p + 2).txt()).len() > 0,
    ensures
        lang::lua::return_type_from(n, i, false, false) == Some(trimmed(n.kid(p + 2).txt())),
    decreases p - i,
{
    reveal_strlit("parameters");
    reveal_strlit(":");
    assert("parameters"@.len() == 10);
    assert(":"@.len() == 1);
    if i < p {
        assert(!n.kid(i).isa("parameters") && !n.kid(i).isa("block") && !n.kid(i).isa("end"));
        luau_return_types_follow_the_colon(n, i + 1, p);
    } else {
        reveal_with_fuel(lang::lua::return_type_from, 4);
    }
}

/// The return type of an OCaml binding is what follows a `:` behind its parameters.
pub proof fn ocaml_return_types_follow_the_colon(n: Node<'_>, i: int, k: int, colon: bool)
    requires
        0 <= i <= k,
        k + 1 < n.arity(),
        n.kid(k).isa(":"),
        forall|j: int|
            i <= j < k ==> !(#[trigger] n.kid(j)).isa(":") && !n.kid(j).isa("="),
        colon ==> i < k && n.kid(i).isa("parameter"),
        !n.kid(k + 1).isa("parameter"),
        !n.kid(k + 1).isa(":"),
        !n.kid(k + 1).isa("="),
        trimmed(n.kid(k + 1).txt()).len() > 0,
    ensures
        lang::ocaml::return_type_from(n, i, colon) == Some(trimmed(n.kid(k + 1).txt())),
    decreases k - i,
{
    reveal_strlit("parameter");
    reveal_strlit(":");
    assert("parameter"@.len() == 9);
    assert(":"@.len() == 1);
    if i < k {
        assert(!n.kid(i).isa(":") && !n.kid(i).isa("="));
        ocaml_return_types_follow_the_colon(n, i + 1, k, false);
    } else {
        reveal_with_fuel(lang::ocaml::return_type_from, 3);
    }
}

/// The return type of a PHP function is the one that it states, without the colon.
pub proof fn php_return_types_are_stated(n: Node<'_>, t: Node<'_>)
    requires
        n.at("return_type") == Some(t),
        trimmed(stripped_front(t.txt(), ":"@)).len() > 0,
    ensures
        lang::php::return_type(n) == Some(trimmed(stripped_front(t.txt(), ":"@))),
{
}

/// The modifiers of a PHP method are one for its access, and `static` and `abstract`
/// where it has them.
pub proof fn php_modifiers_are_stated(text: Seq<char>)
    ensures
        lang::php::modifiers(text).contains("static"@) <==> has(text, "static "@),
        lang::php::modifiers(text).contains("abstract"@) <==> has(text, "abstract "@),
        lang::php::modifiers(text).contains("public"@) <==> begins(text, "public "@) || has(
            text,
            " public "@,
        ),
        begins(text, "private "@) && !has_word(text, "public"@) ==> lang::php::modifiers(
            text,
        ).contains("private"@),
        begins(text, "protected "@) && !has_word(text, "public"@) && !has_word(text, "private"@)
            ==> lang::php::modifiers(text).contains("protected"@),
        lang::php::modifiers(text).len() <= 3,
{
    let m = lang::php::modifiers(text);
    let access = if begins(text, "public "@) || has(text, " public "@) {
        seq!["public"@]
    } else if begins(text, "private "@) || has(text, " private "@) {
        seq!["private"@]
    } else if begins(text, "protected "@) || has(text, " protected "@) {
        seq!["protected"@]
    } else {
        Seq::empty()
    };
    let fixed = if has(text, "static "@) {
        seq!["static"@]
    } else {
        Seq::empty()
    };
    let open = if has(text, "abstract "@) {
        seq!["abstract"@]
    } else {
        Seq::empty()
    };
    assert(m == access + fixed + open);
    reveal_strlit("public");
    reveal_strlit("private");
    reveal_strlit("protected");
    reveal_strlit("static");
    reveal_strlit("abstract");
    reveal_strlit("public ");
    reveal_strlit(" public ");
    reveal_strlit("private ");
    reveal_strlit(" private ");
    assert("public"@.len() == 6);
    assert("private"@.len() == 7);
    assert("protected"@.len() == 9);
    assert("static"@.len() == 6);
    assert("abstract"@.len() == 8);
    assert("static"@[0] == 's');
    assert("public"@[0] == 'p');
    assert("public"@ + seq![' '] =~= "public "@);
    assert(seq![' '] + "public"@ + seq![' '] =~= " public "@);
    assert("private"@ + seq![' '] =~= "private "@);
    assert(seq![' '] + "private"@ + seq![' '] =~= " private "@);
    if access.len() > 0 {
        assert(m[0] == access[0]);
    }
    if fixed.len() > 0 {
        assert(m[access.len() as int] == "static"@);
    }
    if open.len() > 0 {
        assert(m[(access.len() + fixed.len()) as int] == "abstract"@);
    }
    assert forall|x: Seq<char>| #[trigger] m.contains(x) implies access.contains(x)
        || fixed.contains(x) || open.contains(x) by {
        let i = choose|i: int| 0 <= i < m.len() && m[i] == x;
        if i < access.len() {
            assert(access[i] == x);
        } else if i < access.len() + fixed.len() {
            assert(fixed[i - access.len()] == x);
        } else {
            assert(open[i - access.len() - fixed.len()] == x);
        }
    }
}

/// Whether a word stands at the front of a text or inside of it, with blanks around.
pub open spec fn has_word(text: Seq<char>, word: Seq<char>) -> bool {
    begins(text, word + seq![' ']) || has(text, seq![' '] + word + seq![' '])
}

} // verus!
