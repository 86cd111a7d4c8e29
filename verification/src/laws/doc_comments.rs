//! Which comments document a declaration, and in which order their lines stand.

use vstd::prelude::*;

use crate::docs::{block_doc, without_blank_back, without_blank_front};
use crate::lang;
use crate::lists::group_lists;
use crate::text::{
    ahead_all, begins, behind_all, ends, joined, lines_of, stripped, trimmed, trimmed_front,
};
use crate::tree::{group_tree, lemma_kid_of_parent, lemma_parent_of_kid, Node};
use crate::walk::{nearest_first, past, Back, Test};

verus! {

broadcast use {group_tree, group_lists};

/// Whether the children of `p` from position `k` to the one before `m` are all
/// accepted, and the one before them is not.
pub open spec fn is_run<'a>(
    p: Node<'a>,
    m: int,
    passes: spec_fn(Node<'a>) -> bool,
    k: int,
) -> bool {
    &&& 0 <= k <= m
    &&& forall|j: int| k <= j < m ==> passes(#[trigger] p.kid(j))
    &&& k > 0 ==> !passes(p.kid(k - 1))
}

/// Whether `ks` are the positions from `k` to the one before `m` at which `takes`
/// accepts the child of `p`, in the order of the source.
pub open spec fn lists_run<'a>(
    p: Node<'a>,
    k: int,
    m: int,
    takes: spec_fn(Node<'a>) -> bool,
    ks: Seq<int>,
) -> bool {
    &&& forall|i: int| 0 <= i < ks.len() ==> k <= #[trigger] ks[i] < m && takes(p.kid(ks[i]))
    &&& forall|i: int, j: int| 0 <= i < j < ks.len() ==> #[trigger] ks[i] < #[trigger] ks[j]
    &&& forall|j: int| k <= j < m && takes(#[trigger] p.kid(j)) ==> ks.contains(j)
}

/// Whether `lines` are the texts of what `takes` accepts in the run of siblings
/// just before `n` that `passes` accepts: one for each, from top to bottom.
pub open spec fn are_lines_before<'a>(
    n: Node<'a>,
    passes: spec_fn(Node<'a>) -> bool,
    takes: spec_fn(Node<'a>) -> bool,
    text: spec_fn(Node<'a>) -> Seq<char>,
    lines: Seq<Seq<char>>,
) -> bool {
    match n.up() {
        Some(p) => exists|k: int, ks: Seq<int>| #[trigger]
            lists_run(p, k, n.slot() as int, takes, ks) && is_run(p, n.slot() as int, passes, k)
                && lines.len() == ks.len() && forall|i: int|
                0 <= i < lines.len() ==> #[trigger] lines[i] == text(p.kid(ks[i])),
        None => lines.len() == 0,
    }
}

/// The child of `p` just before position `m`.
pub open spec fn sibling_before<'a>(p: Node<'a>, m: nat) -> Option<Node<'a>> {
    if m > 0 {
        Some(p.kid(m - 1))
    } else {
        None
    }
}

proof fn collect_back<'a, B: Back<Item = String>>(
    b: &B,
    p: Node<'a>,
    m: nat,
    passes: spec_fn(Node<'a>) -> bool,
    takes: spec_fn(Node<'a>) -> bool,
    text: spec_fn(Node<'a>) -> Seq<char>,
) -> (res: (int, Seq<int>))
    requires
        m <= p.arity(),
        forall|c: Node<'a>| #[trigger] b.passes(c) == passes(c),
        forall|c: Node<'a>|
            passes(c) ==> #[trigger] b.takes(c) == if takes(c) {
                Some(text(c))
            } else {
                None
            },
    ensures
        is_run(p, m as int, passes, res.0),
        lists_run(p, res.0, m as int, takes, res.1),
        ({
            let s = nearest_first(
                b,
                sibling_before(p, m),
            ).reverse();
            s.len() == res.1.len() && forall|i: int|
                0 <= i < s.len() ==> #[trigger] s[i] == text(p.kid(res.1[i]))
        }),
    decreases m,
{
    if m == 0 {
        assert(nearest_first(b, None::<Node<'a>>) =~= Seq::empty());
        (0, Seq::empty())
    } else {
        let c = p.kid(m - 1);
        lemma_parent_of_kid(p, m - 1);
        assert(c.left() == sibling_before(p, (m - 1) as nat));
        assert(b.passes(c) == passes(c));
        if passes(c) {
            let (k, before) = collect_back(b, p, (m - 1) as nat, passes, takes, text);
            let near = nearest_first(b, Some(c));
            let far = nearest_first(b, c.left());
            assert(b.takes(c) == if takes(c) {
                Some(text(c))
            } else {
                None
            });
            if takes(c) {
                let ks = before.push(m - 1);
                assert(near =~= seq![text(c)] + far);
                assert(near.reverse() =~= far.reverse().push(text(c)));
                assert forall|i: int| 0 <= i < ks.len() implies #[trigger] near.reverse()[i]
                    == text(p.kid(ks[i])) by {
                    if i < before.len() {
                        assert(far.reverse()[i] == text(p.kid(before[i])));
                    }
                }
                assert forall|j: int| k <= j < m && takes(#[trigger] p.kid(j)) implies ks.contains(
                    j,
                ) by {
                    if j < m - 1 {
                        let at = choose|at: int| 0 <= at < before.len() && before[at] == j;
                        assert(ks[at] == j);
                    } else {
                        assert(ks[before.len() as int] == j);
                    }
                }
                (k, ks)
            } else {
                assert(near =~= far);
                (k, before)
            }
        } else {
            assert(nearest_first(b, Some(c)) =~= Seq::empty());
            (m as int, Seq::empty())
        }
    }
}

pub(crate) proof fn lemma_lines_before<'a, B: Back<Item = String>>(
    b: &B,
    n: Node<'a>,
    passes: spec_fn(Node<'a>) -> bool,
    takes: spec_fn(Node<'a>) -> bool,
    text: spec_fn(Node<'a>) -> Seq<char>,
)
    requires
        forall|c: Node<'a>| #[trigger] b.passes(c) == passes(c),
        forall|c: Node<'a>|
            passes(c) ==> #[trigger] b.takes(c) == if takes(c) {
                Some(text(c))
            } else {
                None
            },
    ensures
        are_lines_before(n, passes, takes, text, nearest_first(b, n.left()).reverse()),
{
    lemma_kid_of_parent(n);
    match n.up() {
        Some(p) => {
            let (k, ks) = collect_back(b, p, n.slot(), passes, takes, text);
            assert(n.left() == sibling_before(p, n.slot()));
            assert(lists_run(p, k, n.slot() as int, takes, ks));
        },
        None => {
            assert(nearest_first(b, n.left()) =~= Seq::empty());
        },
    }
}

/// Whether `c` is the nearest sibling before `n` that `skips` does not accept.
pub open spec fn is_nearest<'a>(
    n: Node<'a>,
    skips: spec_fn(Node<'a>) -> bool,
    c: Node<'a>,
) -> bool {
    n.up() matches Some(p) && exists|j: int|
        0 <= j < n.slot() && #[trigger] p.kid(j) == c && !skips(c) && forall|m: int|
            j < m < n.slot() ==> skips(#[trigger] p.kid(m))
}

/// Whether `skips` accepts all siblings before `n`.
pub open spec fn skips_all_before<'a>(n: Node<'a>, skips: spec_fn(Node<'a>) -> bool) -> bool {
    n.up() matches Some(p) ==> forall|m: int| 0 <= m < n.slot() ==> skips(#[trigger] p.kid(m))
}

proof fn lemma_past_from<'a, T: Test>(
    t: &T,
    p: Node<'a>,
    m: nat,
    skips: spec_fn(Node<'a>) -> bool,
)
    requires
        m <= p.arity(),
        forall|c: Node<'a>| #[trigger] t.accepts(c) == skips(c),
    ensures
        past(
            t,
            sibling_before(p, m),
        ) matches Some(c) ==> exists|j: int|
            0 <= j < m && #[trigger] p.kid(j) == c && !skips(c) && forall|x: int|
                j < x < m ==> skips(#[trigger] p.kid(x)),
        past(
            t,
            sibling_before(p, m),
        ) is None ==> forall|x: int| 0 <= x < m ==> skips(#[trigger] p.kid(x)),
    decreases m,
{
    if m > 0 {
        let c = p.kid(m - 1);
        lemma_parent_of_kid(p, m - 1);
        assert(c.left() == sibling_before(p, (m - 1) as nat));
        assert(t.accepts(c) == skips(c));
        if skips(c) {
            lemma_past_from(t, p, (m - 1) as nat, skips);
            if past(t, c.left()) is Some {
                let d = past(t, c.left())->0;
                let j = choose|j: int|
                    0 <= j < m - 1 && #[trigger] p.kid(j) == d && !skips(d) && forall|x: int|
                        j < x < m - 1 ==> skips(#[trigger] p.kid(x));
                assert(p.kid(j) == d);
            }
        } else {
            assert(p.kid(m - 1) == c);
        }
    }
}

proof fn lemma_past<'a, T: Test>(t: &T, n: Node<'a>, skips: spec_fn(Node<'a>) -> bool)
    requires
        forall|c: Node<'a>| #[trigger] t.accepts(c) == skips(c),
    ensures
        past(t, n.left()) matches Some(c) ==> is_nearest(n, skips, c),
        past(t, n.left()) is None ==> skips_all_before(n, skips),
{
    lemma_kid_of_parent(n);
    match n.up() {
        Some(p) => {
            lemma_past_from(t, p, n.slot(), skips);
            assert(n.left() == sibling_before(p, n.slot()));
        },
        None => {},
    }
}

/// Whether `doc` is what some lines make: nothing where there are none, or else the
/// lines, one below the other.
pub open spec fn is_joined(lines: Seq<Seq<char>>, doc: Option<Seq<char>>) -> bool {
    doc == if lines.len() == 0 {
        None
    } else {
        Some(joined(lines, "\n"@))
    }
}

/// Whether `doc` is made of the lines just before `n`, from top to bottom.
pub open spec fn is_doc_of_lines<'a>(
    n: Node<'a>,
    passes: spec_fn(Node<'a>) -> bool,
    takes: spec_fn(Node<'a>) -> bool,
    text: spec_fn(Node<'a>) -> Seq<char>,
    doc: Option<Seq<char>>,
) -> bool {
    exists|lines: Seq<Seq<char>>| #[trigger]
        are_lines_before(n, passes, takes, text, lines) && is_joined(lines, doc)
}

/// The text of a node.
pub open spec fn whole_text<'a>() -> spec_fn(Node<'a>) -> Seq<char> {
    |c: Node<'a>| c.txt()
}

/// The text of a line comment behind its marker and one blank.
pub open spec fn behind_marker<'a>(marker: Seq<char>) -> spec_fn(Node<'a>) -> Seq<char> {
    |c: Node<'a>|
        {
            let rest = c.txt().skip(marker.len() as int);
            if rest.len() > 0 && rest[0] == ' ' {
                rest.skip(1)
            } else {
                rest
            }
        }
}

proof fn lemma_behind_marker(text: Seq<char>, marker: Seq<char>, wide: Seq<char>)
    requires
        begins(text, marker),
        wide == marker + seq![' '],
    ensures
        begins(text, wide) <==> text.skip(marker.len() as int).len() > 0 && text.skip(
            marker.len() as int,
        )[0] == ' ',
        begins(text, wide) ==> text.skip(wide.len() as int) == text.skip(
            marker.len() as int,
        ).skip(1),
{
    let rest = text.skip(marker.len() as int);
    if rest.len() > 0 && rest[0] == ' ' {
        assert(text.subrange(0, wide.len() as int) =~= wide) by {
            assert(text.subrange(0, marker.len() as int) =~= marker);
            assert forall|i: int| 0 <= i < wide.len() implies text[i] == wide[i] by {
                if i < marker.len() {
                    assert(text.subrange(0, marker.len() as int)[i] == marker[i]);
                }
            }
        }
    }
    if begins(text, wide) {
        assert(text.subrange(0, wide.len() as int)[marker.len() as int] == ' ');
        assert(rest[0] == ' ');
        assert(text.skip(wide.len() as int) =~= rest.skip(1));
    }
}

/// Doc comments and attributes of Rust.
pub open spec fn rust_passes<'a>() -> spec_fn(Node<'a>) -> bool {
    |c: Node<'a>| (c.isa("line_comment") && begins(c.txt(), "///"@)) || c.isa("attribute_item")
}

/// Line comments of Rust.
pub open spec fn rust_takes<'a>() -> spec_fn(Node<'a>) -> bool {
    |c: Node<'a>| c.isa("line_comment")
}

/// Attributes of Rust.
pub open spec fn rust_attributes<'a>() -> spec_fn(Node<'a>) -> bool {
    |c: Node<'a>| c.isa("attribute_item")
}

/// The documentation of a Rust item are the `///` comments just before it, from top
/// to bottom, past attributes. Where there is none, it is a `/** .. */` comment that
/// stands nearest, past attributes.
pub proof fn rust_docs_stand_in_source_order<'a>(n: Node<'a>)
    ensures
        ({
            let doc = lang::rust::docstring(n);
            exists|lines: Seq<Seq<char>>| #[trigger]
                are_lines_before(n, rust_passes(), rust_takes(), behind_marker("///"@), lines)
                    && if lines.len() > 0 {
                    doc == Some(joined(lines, "\n"@))
                } else {
                    ||| exists|c: Node<'a>| #[trigger]
                        is_nearest(n, rust_attributes(), c) && c.isa("block_comment") && begins(
                            c.txt(),
                            "/**"@,
                        ) && doc == block_doc(c.txt())
                    ||| doc is None && forall|c: Node<'a>| #[trigger]
                        is_nearest(n, rust_attributes(), c) ==> !(c.isa("block_comment") && begins(
                            c.txt(),
                            "/**"@,
                        ))
                }
        }),
{
    let b = lang::rust::DocLines;
    assert forall|c: Node<'a>| rust_passes()(c) implies #[trigger] b.takes(c) == if rust_takes()(c) {
        Some(behind_marker("///"@)(c))
    } else {
        None
    } by {
        reveal_strlit("///");
        reveal_strlit("/// ");
        reveal_strlit("line_comment");
        reveal_strlit("attribute_item");
        assert("line_comment"@.len() == 12);
        assert("attribute_item"@.len() == 14);
        if c.isa("line_comment") {
            assert("/// "@ =~= "///"@ + seq![' ']);
            lemma_behind_marker(c.txt(), "///"@, "/// "@);
        }
    }
    lemma_lines_before(&b, n, rust_passes(), rust_takes(), behind_marker("///"@));
    lemma_past(&lang::rust::AttributeItem, n, rust_attributes());
    lemma_one_nearest(n, rust_attributes());
    let lines = nearest_first(&b, n.left()).reverse();
    assert(are_lines_before(n, rust_passes(), rust_takes(), behind_marker("///"@), lines));
}

proof fn lemma_one_nearest<'a>(n: Node<'a>, skips: spec_fn(Node<'a>) -> bool)
    ensures
        forall|c: Node<'a>, d: Node<'a>| #[trigger]
            is_nearest(n, skips, c) && #[trigger] is_nearest(n, skips, d) ==> c == d,
        skips_all_before(n, skips) ==> forall|c: Node<'a>| !#[trigger] is_nearest(n, skips, c),
{
    assert forall|c: Node<'a>, d: Node<'a>| #[trigger]
        is_nearest(n, skips, c) && #[trigger] is_nearest(n, skips, d) implies c == d by {
        let p = n.up()->0;
        let i = choose|j: int|
            0 <= j < n.slot() && #[trigger] p.kid(j) == c && !skips(c) && forall|m: int|
                j < m < n.slot() ==> skips(#[trigger] p.kid(m));
        let j = choose|j: int|
            0 <= j < n.slot() && #[trigger] p.kid(j) == d && !skips(d) && forall|m: int|
                j < m < n.slot() ==> skips(#[trigger] p.kid(m));
        assert(p.kid(i) == c && p.kid(j) == d);
        if i < j {
            assert(skips(p.kid(j)));
        } else if j < i {
            assert(skips(p.kid(i)));
        }
    }
}

/// Line comments of Go and C.
pub open spec fn slash_comments<'a>() -> spec_fn(Node<'a>) -> bool {
    |c: Node<'a>| c.isa("comment") && !begins(c.txt(), "/*"@) && begins(c.txt(), "//"@)
}

/// The documentation of a Go declaration is the `/* .. */` comment just before it,
/// or the `//` comments just before it, from top to bottom.
pub proof fn go_docs_stand_in_source_order<'a>(n: Node<'a>)
    ensures
        match n.left() {
            Some(c) if c.isa("comment") && begins(c.txt(), "/*"@) => {
                let inner = trimmed(ahead_all(behind_all(c.txt(), "/*"@), "*/"@));
                lang::go::docstring(n) == if inner.len() == 0 {
                    None
                } else {
                    Some(inner)
                }
            },
            _ => is_doc_of_lines(
                n,
                slash_comments(),
                slash_comments(),
                behind_marker("//"@),
                lang::go::docstring(n),
            ),
        },
{
    let b = lang::go::LineComments;
    assert forall|c: Node<'a>| slash_comments()(c) implies #[trigger] b.takes(c)
        == if slash_comments()(c) {
        Some(behind_marker("//"@)(c))
    } else {
        None
    } by {
        reveal_strlit("//");
        reveal_strlit("// ");
        assert("// "@ =~= "//"@ + seq![' ']);
        lemma_behind_marker(c.txt(), "//"@, "// "@);
    }
    lemma_lines_before(&b, n, slash_comments(), slash_comments(), behind_marker("//"@));
}

/// The documentation of a C or C++ declaration is the `/* .. */` comment just before
/// it, or the `//` comments just before it, from top to bottom, as written.
pub proof fn c_docs_stand_in_source_order<'a>(n: Node<'a>)
    ensures
        match n.left() {
            Some(c) if c.isa("comment") && begins(c.txt(), "/*"@) => lang::c::docstring(n) == Some(
                c.txt(),
            ),
            _ => is_doc_of_lines(
                n,
                slash_comments(),
                slash_comments(),
                whole_text(),
                lang::c::docstring(n),
            ),
        },
{
    lemma_lines_before(
        &lang::c::LineComments,
        n,
        slash_comments(),
        slash_comments(),
        whole_text(),
    );
}

/// Comments.
pub open spec fn plain_comments<'a>() -> spec_fn(Node<'a>) -> bool {
    |c: Node<'a>| c.isa("comment")
}

/// The node of Ruby before which the comments of `n` stand: `n`, or the body that
/// it is the first part of.
pub open spec fn ruby_anchor<'a>(n: Node<'a>) -> Node<'a> {
    match n.up() {
        Some(body) if n.slot() == 0 && body.isa("body_statement") => body,
        _ => n,
    }
}

/// The documentation of a Ruby method, class or module are the comments just before
/// it, from top to bottom, as written.
pub proof fn ruby_docs_stand_in_source_order<'a>(n: Node<'a>)
    ensures
        is_doc_of_lines(
            ruby_anchor(n),
            plain_comments(),
            plain_comments(),
            whole_text(),
            lang::ruby::docstring(n),
        ),
{
    assert(lang::ruby::node_before(n) == ruby_anchor(n).left());
    lemma_lines_before(
        &lang::ruby::Comments,
        ruby_anchor(n),
        plain_comments(),
        plain_comments(),
        whole_text(),
    );
}

/// Doc comments of C#.
pub open spec fn csharp_comments<'a>() -> spec_fn(Node<'a>) -> bool {
    |c: Node<'a>| c.isa("comment") && begins(c.txt(), "///"@)
}

/// The text of a doc comment of C#, without its slashes and the white space.
pub open spec fn csharp_line<'a>() -> spec_fn(Node<'a>) -> Seq<char> {
    |c: Node<'a>| trimmed(behind_all(c.txt(), "///"@))
}

/// The documentation of a C# declaration are the `///` comments just before it, from
/// top to bottom.
pub proof fn csharp_docs_stand_in_source_order<'a>(n: Node<'a>)
    ensures
        is_doc_of_lines(
            n,
            csharp_comments(),
            csharp_comments(),
            csharp_line(),
            lang::csharp::docstring(n),
        ),
{
    lemma_lines_before(
        &lang::csharp::DocLines,
        n,
        csharp_comments(),
        csharp_comments(),
        csharp_line(),
    );
}

/// Attributes of C#.
pub open spec fn csharp_attributes<'a>() -> spec_fn(Node<'a>) -> bool {
    |c: Node<'a>| c.isa("attribute_list")
}

/// The text of an attribute of C#, without its brackets.
pub open spec fn csharp_attribute<'a>() -> spec_fn(Node<'a>) -> Seq<char> {
    |c: Node<'a>|
        crate::text::stripped_back(crate::text::stripped_front(c.txt(), "["@), "]"@)
}

/// The attributes of a C# method are those just before it, from top to bottom.
pub proof fn csharp_attributes_stand_in_source_order<'a>(n: Node<'a>)
    ensures
        are_lines_before(
            n,
            csharp_attributes(),
            csharp_attributes(),
            csharp_attribute(),
            nearest_first(&lang::csharp::Attributes, n.left()).reverse(),
        ),
{
    lemma_lines_before(
        &lang::csharp::Attributes,
        n,
        csharp_attributes(),
        csharp_attributes(),
        csharp_attribute(),
    );
}

/// Comments of Swift.
pub open spec fn swift_comments<'a>() -> spec_fn(Node<'a>) -> bool {
    |c: Node<'a>| c.isa("comment") || c.isa("multiline_comment")
}

/// The text of a comment of Swift without its markers: `///`, or `/**` and `*/`.
pub open spec fn swift_line<'a>() -> spec_fn(Node<'a>) -> Seq<char> {
    |c: Node<'a>|
        {
            let t = trimmed(c.txt());
            if begins(t, "///"@) {
                trimmed(t.skip(3))
            } else if begins(t, "/**"@) && ends(t, "*/"@) {
                if t.len() < 5 {
                    Seq::empty()
                } else {
                    trimmed(t.subrange(3, t.len() - 2))
                }
            } else {
                t
            }
        }
}

/// The documentation of a Swift declaration are the comments just before it, from
/// top to bottom, without their markers.
pub proof fn swift_docs_stand_in_source_order<'a>(n: Node<'a>)
    ensures
        is_doc_of_lines(
            n,
            swift_comments(),
            swift_comments(),
            swift_line(),
            lang::swift::docstring(n),
        ),
{
    reveal_strlit("///");
    assert("///"@.len() == 3);
    lemma_lines_before(
        &lang::swift::Comments,
        n,
        swift_comments(),
        swift_comments(),
        swift_line(),
    );
}

/// Line comments of Solidity that document.
pub open spec fn solidity_comments<'a>() -> spec_fn(Node<'a>) -> bool {
    |c: Node<'a>|
        c.isa("comment") && !begins(trimmed_front(c.txt()), "/**"@) && begins(
            trimmed_front(c.txt()),
            "///"@,
        )
}

/// The text of a line comment of Solidity, behind its slashes and one blank.
pub open spec fn solidity_line<'a>() -> spec_fn(Node<'a>) -> Seq<char> {
    |c: Node<'a>|
        {
            let rest = behind_all(trimmed_front(c.txt()), "///"@);
            if rest.len() > 0 && rest[0] == ' ' {
                rest.skip(1)
            } else {
                rest
            }
        }
}

/// The documentation of a Solidity declaration is the `/** .. */` comment just before
/// it, as written, or the `///` comments just before it, from top to bottom.
pub proof fn solidity_docs_stand_in_source_order<'a>(n: Node<'a>)
    ensures
        match n.left() {
            Some(c) if c.isa("comment") && begins(trimmed_front(c.txt()), "/**"@) =>
                lang::solidity::docstring(n) == Some(c.txt()),
            _ => is_doc_of_lines(
                n,
                solidity_comments(),
                solidity_comments(),
                solidity_line(),
                lang::solidity::docstring(n),
            ),
        },
{
    let b = lang::solidity::DocLines;
    assert forall|c: Node<'a>| solidity_comments()(c) implies #[trigger] b.takes(c)
        == if solidity_comments()(c) {
        Some(solidity_line()(c))
    } else {
        None
    } by {
        let rest = behind_all(trimmed_front(c.txt()), "///"@);
        reveal_strlit(" ");
        assert(" "@ =~= seq![' ']);
        if rest.len() > 0 {
            assert(rest.subrange(0, 1) =~= seq![rest[0]]);
            assert(rest.subrange(0, 1)[0] == rest[0]);
        }
    }
    lemma_lines_before(&b, n, solidity_comments(), solidity_comments(), solidity_line());
}

/// Comments of Lua that follow without a gap and are no directives, and the line
/// above which the next one has to end.
pub open spec fn is_lua_run(p: Node<'_>, m: int, line: int, k: int) -> bool {
    &&& 0 <= k <= m
    &&& forall|j: int| k <= j < m ==> is_lua_comment(p, m, line, j)
    &&& k > 0 ==> !is_lua_comment(p, m, line, k - 1)
}

/// Whether the child at position `j` is a comment of Lua that ends on the line above
/// what follows: the next sibling, or the node at position `m`, on line `line`.
pub open spec fn is_lua_comment(p: Node<'_>, m: int, line: int, j: int) -> bool {
    let c = p.kid(j);
    let below = if j + 1 < m {
        p.kid(j + 1).top() as int
    } else {
        line
    };
    c.isa("comment") && !begins(trimmed_front(c.txt()), "--!"@) && c.bottom() + 1 >= below
}

/// Whether `lines` are the comments of Lua just before `n`, from top to bottom.
pub open spec fn are_lua_lines(n: Node<'_>, lines: Seq<Seq<char>>) -> bool {
    match n.up() {
        Some(p) => exists|k: int| #[trigger]
            is_lua_run(p, n.slot() as int, n.top() as int, k) && lines.len() == n.slot() - k
                && forall|i: int|
                0 <= i < lines.len() ==> #[trigger] lines[i] == lang::lua::comment_text(
                    p.kid(k + i).txt(),
                ),
        None => lines.len() == 0,
    }
}

proof fn collect_lua<'a>(p: Node<'a>, m: nat, line: int) -> (k: int)
    requires
        m <= p.arity(),
    ensures
        is_lua_run(p, m as int, line, k),
        ({
            let s = lang::lua::comments_back(
                sibling_before(p, m),
                line,
            ).reverse();
            s.len() == m - k && forall|i: int|
                0 <= i < s.len() ==> #[trigger] s[i] == lang::lua::comment_text(p.kid(k + i).txt())
        }),
    decreases m,
{
    if m == 0 {
        assert(lang::lua::comments_back(None::<Node<'a>>, line) =~= Seq::empty());
        0
    } else {
        let c = p.kid(m - 1);
        lemma_parent_of_kid(p, m - 1);
        assert(c.left() == sibling_before(p, (m - 1) as nat));
        if is_lua_comment(p, m as int, line, m - 1) {
            let k = collect_lua(p, (m - 1) as nat, c.top() as int);
            let near = lang::lua::comments_back(Some(c), line);
            let far = lang::lua::comments_back(c.left(), c.top() as int);
            assert(near =~= seq![lang::lua::comment_text(c.txt())] + far);
            assert(near.reverse() =~= far.reverse().push(lang::lua::comment_text(c.txt())));
            assert forall|j: int| k <= j < m implies is_lua_comment(p, m as int, line, j) by {
                if j < m - 1 {
                    assert(is_lua_comment(p, m - 1, c.top() as int, j));
                }
            }
            if k > 0 {
                assert(!is_lua_comment(p, m - 1, c.top() as int, k - 1));
            }
            assert forall|i: int| 0 <= i < near.len() implies #[trigger] near.reverse()[i]
                == lang::lua::comment_text(p.kid(k + i).txt()) by {
                if i < far.len() {
                    assert(far.reverse()[i] == lang::lua::comment_text(p.kid(k + i).txt()));
                }
            }
            k
        } else {
            assert(lang::lua::comments_back(Some(c), line) =~= Seq::empty());
            m as int
        }
    }
}

/// The documentation of a Lua function are the comments that stand just before it
/// without a gap, from top to bottom.
pub proof fn lua_docs_stand_in_source_order<'a>(n: Node<'a>)
    ensures
        exists|lines: Seq<Seq<char>>| #[trigger]
            are_lua_lines(n, lines) && is_joined(lines, lang::lua::docstring(n)),
{
    lemma_kid_of_parent(n);
    let lines = lang::lua::comments_back(n.left(), n.top() as int).reverse();
    match n.up() {
        Some(p) => {
            let k = collect_lua(p, n.slot(), n.top() as int);
            assert(n.left() == sibling_before(p, n.slot()));
            assert(is_lua_run(p, n.slot() as int, n.top() as int, k));
        },
        None => {
            assert(lang::lua::comments_back(n.left(), n.top() as int) =~= Seq::empty());
        },
    }
    assert(are_lua_lines(n, lines));
}

/// What may stand between the documentation of a Java declaration and the
/// declaration.
pub open spec fn java_annotations<'a>() -> spec_fn(Node<'a>) -> bool {
    |c: Node<'a>| c.isa("marker_annotation") || c.isa("annotation")
}

/// The documentation of a Java declaration is the `/** .. */` comment that stands
/// nearest before it, past annotations.
pub proof fn java_docs_stand_nearest<'a>(n: Node<'a>)
    ensures
        ({
            let doc = lang::java::docstring(n);
            ||| exists|c: Node<'a>| #[trigger]
                is_nearest(n, java_annotations(), c) && (c.isa("block_comment") || c.isa("comment"))
                    && begins(c.txt(), "/**"@) && doc == block_doc(c.txt())
            ||| doc is None && forall|c: Node<'a>| #[trigger]
                is_nearest(n, java_annotations(), c) ==> !((c.isa("block_comment") || c.isa(
                    "comment",
                )) && begins(c.txt(), "/**"@))
        }),
{
    lemma_past(&lang::java::Annotation, n, java_annotations());
    lemma_one_nearest(n, java_annotations());
}

/// What may stand between the documentation of a Kotlin or Scala declaration and
/// the declaration.
pub open spec fn modifier_nodes<'a>() -> spec_fn(Node<'a>) -> bool {
    |c: Node<'a>| c.isa("modifiers") || c.isa("annotation")
}

/// The documentation of a Kotlin declaration is the `/** .. */` comment that stands
/// nearest before it, past modifiers, as written.
pub proof fn kotlin_docs_stand_nearest<'a>(n: Node<'a>)
    ensures
        ({
            let doc = lang::kotlin::docstring(n);
            ||| exists|c: Node<'a>| #[trigger]
                is_nearest(n, modifier_nodes(), c) && c.isa("multiline_comment") && begins(
                    c.txt(),
                    "/**"@,
                ) && doc == Some(c.txt())
            ||| doc is None && forall|c: Node<'a>| #[trigger]
                is_nearest(n, modifier_nodes(), c) ==> !(c.isa("multiline_comment") && begins(
                    c.txt(),
                    "/**"@,
                ))
        }),
{
    lemma_past(&lang::kotlin::Modifier, n, modifier_nodes());
    lemma_one_nearest(n, modifier_nodes());
}

/// The documentation of a Scala declaration is the `/** .. */` comment that stands
/// nearest before it, past modifiers, as written.
pub proof fn scala_docs_stand_nearest<'a>(n: Node<'a>)
    ensures
        ({
            let doc = lang::scala::docstring(n);
            ||| exists|c: Node<'a>| #[trigger]
                is_nearest(n, modifier_nodes(), c) && (c.isa("comment") || c.isa("block_comment"))
                    && begins(c.txt(), "/**"@) && doc == Some(c.txt())
            ||| doc is None && forall|c: Node<'a>| #[trigger]
                is_nearest(n, modifier_nodes(), c) ==> !((c.isa("comment") || c.isa(
                    "block_comment",
                )) && begins(c.txt(), "/**"@))
        }),
{
    lemma_past(&lang::scala::Modifier, n, modifier_nodes());
    lemma_one_nearest(n, modifier_nodes());
}

/// The documentation of a PHP declaration is the comment just before it, as written.
pub proof fn php_docs_stand_just_before(n: Node<'_>)
    ensures
        lang::php::docstring(n) == match n.left() {
            Some(c) => if c.isa("comment") && (begins(c.txt(), "/*"@) || begins(c.txt(), "//"@)) {
                Some(c.txt())
            } else {
                None
            },
            None => None,
        },
{
}

/// The documentation of a Python function, class or module is the string that its
/// body starts with, without the quotes.
pub proof fn python_docs_start_the_body(n: Node<'_>, body: Node<'_>)
    requires
        n.at("body") == Some(body),
    ensures
        lang::python::docstring(n) == if body.arity() > 0 && body.kid(0).isa("expression_statement")
            && body.kid(0).arity() > 0 && body.kid(0).kid(0).isa("string") {
            Some(stripped(body.kid(0).kid(0).txt(), "\"'`"@))
        } else {
            None
        },
{
}

/// Whether a node of TypeScript can stand around a declaration.
pub open spec fn is_ts_wrapper(p: Node<'_>) -> bool {
    p.isa("export_statement") || p.isa("lexical_declaration") || p.isa("variable_declaration")
        || p.isa("variable_declarator")
}

/// The documentation that stands just before a node of TypeScript.
pub open spec fn ts_doc(n: Node<'_>) -> Option<Seq<char>> {
    match n.left() {
        Some(c) => if c.isa("comment") && begins(c.txt(), "/**"@) {
            block_doc(c.txt())
        } else {
            None
        },
        None => None,
    }
}

/// The documentation of a TypeScript declaration stands just before it, or else
/// before the statement around it, at most two nodes up.
pub proof fn typescript_docs_stand_before_the_statement(n: Node<'_>)
    ensures
        ts_doc(n) is Some ==> lang::typescript::jsdoc(n, 3) == ts_doc(n),
        ts_doc(n) is None ==> match n.up() {
            Some(p) if is_ts_wrapper(p) => {
                &&& ts_doc(p) is Some ==> lang::typescript::jsdoc(n, 3) == ts_doc(p)
                &&& ts_doc(p) is None ==> match p.up() {
                    Some(q) if is_ts_wrapper(q) => lang::typescript::jsdoc(n, 3) == ts_doc(q),
                    _ => lang::typescript::jsdoc(n, 3) is None,
                }
            },
            _ => lang::typescript::jsdoc(n, 3) is None,
        },
{
    reveal_with_fuel(lang::typescript::jsdoc, 4);
}

/// A `@spec` or `@impl` of Elixir.
pub open spec fn is_elixir_note(c: Node<'_>) -> bool {
    (c.isa("call") || c.isa("unary_operator")) && (begins(c.txt(), "@spec"@) || begins(
        c.txt(),
        "@impl"@,
    ))
}

/// What a `@doc` of Elixir says.
pub open spec fn elixir_doc(c: Node<'_>) -> Option<Seq<char>> {
    let doc = trimmed(behind_all(c.txt(), "@doc"@));
    if (c.isa("call") || c.isa("unary_operator")) && begins(c.txt(), "@doc"@) && doc.len() > 0 {
        Some(doc)
    } else {
        None
    }
}

/// The documentation of an Elixir function is the `@doc` before it, past `@spec` and
/// `@impl`, or nothing where anything else stands between.
pub proof fn elixir_docs_stand_nearest(c: Node<'_>)
    ensures
        elixir_doc(c) is Some ==> lang::elixir::doc_at(Some(c)) == elixir_doc(c),
        elixir_doc(c) is None && is_elixir_note(c) ==> lang::elixir::doc_at(Some(c))
            == lang::elixir::doc_at(c.left()),
        elixir_doc(c) is None && !is_elixir_note(c) ==> lang::elixir::doc_at(Some(c)) is None,
        lang::elixir::doc_at(None) is None,
{
}

/// The documentation of an OCaml definition is the nearest `(** .. *)` comment before
/// it, past other comments, without its delimiters.
pub proof fn ocaml_docs_stand_nearest(c: Node<'_>)
    ensures
        ({
            let t = trimmed(c.txt());
            &&& c.isa("comment") && begins(t, "(**"@) ==> lang::ocaml::doc_at(Some(c)) == Some(
                if ends(t.skip(3), "*)"@) {
                    trimmed(t.subrange(3, t.len() - 2))
                } else {
                    trimmed(t)
                },
            )
            &&& c.isa("comment") && !begins(t, "(**"@) ==> lang::ocaml::doc_at(Some(c))
                == lang::ocaml::doc_at(c.left())
            &&& !c.isa("comment") ==> lang::ocaml::doc_at(Some(c)) is None
            &&& lang::ocaml::doc_at(None) is None
        }),
{
    reveal_strlit("(**");
    reveal_strlit("*)");
    let t = trimmed(c.txt());
    assert("(**"@.len() == 3);
    assert("*)"@.len() == 2);
    if begins(t, "(**"@) && ends(t.skip(3), "*)"@) {
        assert(t.skip(3).take(t.skip(3).len() - 2) =~= t.subrange(3, t.len() - 2));
    }
}

/// A line of a block comment, without the white space around it and the `*` and one
/// blank at its front.
pub open spec fn block_line(line: Seq<char>) -> Seq<char> {
    let t = trimmed(line);
    if t.len() > 0 && t[0] == '*' {
        if t.len() > 1 && t[1] == ' ' {
            t.skip(2)
        } else {
            t.skip(1)
        }
    } else {
        t
    }
}

proof fn lemma_block_line(line: Seq<char>)
    ensures
        crate::docs::doc_line(line) == block_line(line),
{
    let t = trimmed(line);
    reveal_strlit("* ");
    reveal_strlit("*");
    assert("* "@ =~= seq!['*', ' ']);
    assert("*"@ =~= seq!['*']);
    if t.len() > 1 {
        assert(t.subrange(0, 2) =~= seq![t[0], t[1]]);
        assert(t.subrange(0, 2)[0] == t[0] && t.subrange(0, 2)[1] == t[1]);
        assert(seq!['*', ' '][0] == '*' && seq!['*', ' '][1] == ' ');
    }
    if t.len() > 0 {
        assert(t.subrange(0, 1) =~= seq![t[0]]);
        assert(t.subrange(0, 1)[0] == t[0]);
    }
}

proof fn lemma_blank_front(s: Seq<Seq<char>>) -> (a: int)
    ensures
        0 <= a <= s.len(),
        without_blank_front(s) == s.skip(a),
        forall|i: int| 0 <= i < a ==> (#[trigger] s[i]).len() == 0,
        a < s.len() ==> s[a].len() > 0,
    decreases s.len(),
{
    if s.len() > 0 && s[0].len() == 0 {
        let a = lemma_blank_front(s.skip(1));
        assert(s.skip(1).skip(a) =~= s.skip(a + 1));
        assert forall|i: int| 0 <= i < a + 1 implies (#[trigger] s[i]).len() == 0 by {
            if i > 0 {
                assert(s.skip(1)[i - 1] == s[i]);
            }
        }
        if a + 1 < s.len() {
            assert(s.skip(1)[a] == s[a + 1]);
        }
        a + 1
    } else {
        assert(s.skip(0) =~= s);
        0
    }
}

proof fn lemma_blank_back(s: Seq<Seq<char>>) -> (b: int)
    ensures
        0 <= b <= s.len(),
        without_blank_back(s) == s.take(b),
        forall|i: int| b <= i < s.len() ==> (#[trigger] s[i]).len() == 0,
        b > 0 ==> s[b - 1].len() > 0,
    decreases s.len(),
{
    if s.len() > 0 && s.last().len() == 0 {
        let b = lemma_blank_back(s.drop_last());
        assert(s.drop_last().take(b) =~= s.take(b));
        assert forall|i: int| b <= i < s.len() implies (#[trigger] s[i]).len() == 0 by {
            if i < s.len() - 1 {
                assert(s.drop_last()[i] == s[i]);
            }
        }
        if b > 0 {
            assert(s.drop_last()[b - 1] == s[b - 1]);
        }
        b
    } else {
        assert(s.take(s.len() as int) =~= s);
        s.len() as int
    }
}

/// Whether `doc` is what the lines of a block comment say: the lines from `a` to the
/// one before `b`, each without its `*`, one below the other. The lines around them
/// are empty, and the first and last of them are not.
pub open spec fn is_block_doc(
    raw: Seq<Seq<char>>,
    a: int,
    b: int,
    doc: Option<Seq<char>>,
) -> bool {
    &&& 0 <= a <= b <= raw.len()
    &&& forall|i: int| 0 <= i < a ==> block_line(#[trigger] raw[i]).len() == 0
    &&& forall|i: int| b <= i < raw.len() ==> block_line(#[trigger] raw[i]).len() == 0
    &&& a < b ==> block_line(raw[a]).len() > 0 && block_line(raw[b - 1]).len() > 0
    &&& doc == if a == b {
        None
    } else {
        Some(joined(Seq::new((b - a) as nat, |i: int| block_line(raw[a + i])), "\n"@))
    }
}

/// A `/** .. */` comment says its lines, each without its `*`, from top to bottom, but
/// for empty ones at the front and at the end.
pub proof fn block_docs_keep_their_lines(text: Seq<char>)
    ensures
        exists|a: int, b: int| #[trigger]
            is_block_doc(
                lines_of(ahead_all(behind_all(text, "/**"@), "*/"@)),
                a,
                b,
                block_doc(text),
            ),
{
    let raw = lines_of(ahead_all(behind_all(text, "/**"@), "*/"@));
    let lines = crate::docs::doc_lines(raw);
    assert forall|i: int| 0 <= i < raw.len() implies #[trigger] lines[i] == block_line(raw[i]) by {
        lemma_block_line(raw[i]);
    }
    let a = lemma_blank_front(lines);
    let rest = lines.skip(a);
    let c = lemma_blank_back(rest);
    let b = a + c;
    let body = without_blank_back(rest);
    assert(body =~= Seq::new((b - a) as nat, |i: int| block_line(raw[a + i]))) by {
        assert forall|i: int| 0 <= i < c implies body[i] == block_line(raw[a + i]) by {
            assert(body[i] == rest[i]);
            assert(rest[i] == lines[a + i]);
        }
    }
    assert forall|i: int| 0 <= i < a implies block_line(#[trigger] raw[i]).len() == 0 by {
        assert(lines[i].len() == 0);
    }
    assert forall|i: int| b <= i < raw.len() implies block_line(#[trigger] raw[i]).len() == 0 by {
        assert(rest[i - a] == lines[i]);
    }
    if a < b {
        assert(lines[a] == block_line(raw[a]));
        assert(rest[c - 1] == lines[b - 1]);
    }
    assert(is_block_doc(raw, a, b, block_doc(text)));
}

} // verus!
