//! What it means that a list reports the nodes of a tree: each node that counts
//! one time, in the order of the source, and nothing else.

use vstd::prelude::*;

use crate::lists::group_lists;
use crate::tree::{
    at_or_below, group_tree, lemma_below_index, lemma_below_transitive, lemma_field_from,
    lemma_kid_below, lemma_kid_order, lemma_parent_of_kid, lemma_under_kid, Node,
};
use crate::walk::{
    gathered, gathered_upto, picked, picked_upto, Picker, Walker,
};

verus! {

broadcast use {group_tree, group_lists};

/// All items of some lists, one list behind the other.
pub open spec fn concat<V>(blocks: Seq<Seq<V>>) -> Seq<V>
    decreases blocks.len(),
{
    if blocks.len() == 0 {
        Seq::empty()
    } else {
        concat(blocks.drop_last()) + blocks.last()
    }
}

/// Whether `d` stands below `root`, and no node between the two hides it.
pub open spec fn is_open<'a>(
    root: Node<'a>,
    hides: spec_fn(Node<'a>, Node<'a>) -> bool,
    d: Node<'a>,
) -> bool {
    at_or_below(root, d) && d != root && forall|e: Node<'a>|
        at_or_below(root, e) && #[trigger] at_or_below(e, d) && e != root && e != d ==> !hides(e, d)
}

/// Whether `ds` are the nodes below `root` that `p` accepts and that no node
/// hides: each one time, in the order of the source.
pub open spec fn lists_nodes<'a>(
    root: Node<'a>,
    hides: spec_fn(Node<'a>, Node<'a>) -> bool,
    p: spec_fn(Node<'a>) -> bool,
    ds: Seq<Node<'a>>,
) -> bool {
    &&& forall|i: int| 0 <= i < ds.len() ==> is_open(root, hides, #[trigger] ds[i]) && p(ds[i])
    &&& forall|i: int, j: int|
        0 <= i < j < ds.len() ==> (#[trigger] ds[i]).index() < (#[trigger] ds[j]).index()
    &&& forall|d: Node<'a>| #[trigger] is_open(root, hides, d) && p(d) ==> ds.contains(d)
}

/// Whether `blocks` has one list for each node of `ds`, as `rel` says.
pub open spec fn fits_blocks<'a, V>(
    ds: Seq<Node<'a>>,
    blocks: Seq<Seq<V>>,
    rel: spec_fn(Seq<V>, Node<'a>) -> bool,
) -> bool {
    blocks.len() == ds.len() && forall|i: int|
        0 <= i < ds.len() ==> rel(#[trigger] blocks[i], ds[i])
}

/// Whether `r` reports the nodes below `root` that `p` accepts and that no node
/// hides, in the order of the source: for each of them a list of items, as `rel`
/// says.
pub open spec fn reports_blocks<'a, V>(
    root: Node<'a>,
    hides: spec_fn(Node<'a>, Node<'a>) -> bool,
    p: spec_fn(Node<'a>) -> bool,
    rel: spec_fn(Seq<V>, Node<'a>) -> bool,
    r: Seq<V>,
) -> bool {
    exists|ds: Seq<Node<'a>>, blocks: Seq<Seq<V>>|
        lists_nodes(root, hides, p, ds) && #[trigger] fits_blocks(ds, blocks, rel) && r == concat(
            blocks,
        )
}

/// Whether `r` has one item for each node of `ds`, as `rel` says.
pub open spec fn fits<'a, V>(
    ds: Seq<Node<'a>>,
    r: Seq<V>,
    rel: spec_fn(V, Node<'a>) -> bool,
) -> bool {
    r.len() == ds.len() && forall|i: int| 0 <= i < r.len() ==> rel(#[trigger] r[i], ds[i])
}

/// Whether `r` reports the nodes below `root` that `p` accepts and that no node
/// hides: one item for each of them, as `rel` says, in the order of the source,
/// and nothing else.
pub open spec fn reports<'a, V>(
    root: Node<'a>,
    hides: spec_fn(Node<'a>, Node<'a>) -> bool,
    p: spec_fn(Node<'a>) -> bool,
    rel: spec_fn(V, Node<'a>) -> bool,
    r: Seq<V>,
) -> bool {
    exists|ds: Seq<Node<'a>>| #[trigger]
        lists_nodes(root, hides, p, ds) && fits(ds, r, rel)
}

/// No node hides another.
pub open spec fn nothing_hides<'a>() -> spec_fn(Node<'a>, Node<'a>) -> bool {
    |e: Node<'a>, d: Node<'a>| false
}

/// Whether `d` is inside of the child that fills the field `body` of `e`.
pub open spec fn in_body<'a>(e: Node<'a>, d: Node<'a>) -> bool {
    e.at("body") matches Some(b) && at_or_below(b, d) && d != b
}

proof fn lemma_concat_add<V>(a: Seq<Seq<V>>, b: Seq<Seq<V>>)
    ensures
        concat(a + b) == concat(a) + concat(b),
    decreases b.len(),
{
    if b.len() == 0 {
        assert(a + b =~= a);
    } else {
        lemma_concat_add(a, b.drop_last());
        assert((a + b).drop_last() =~= a + b.drop_last());
        assert(concat(a) + concat(b.drop_last()) + b.last() =~= concat(a) + (concat(b.drop_last())
            + b.last()));
    }
}

pub(crate) proof fn lemma_concat_ones<V>(blocks: Seq<Seq<V>>)
    requires
        forall|i: int| 0 <= i < blocks.len() ==> (#[trigger] blocks[i]).len() == 1,
    ensures
        concat(blocks).len() == blocks.len(),
        forall|i: int| 0 <= i < blocks.len() ==> #[trigger] concat(blocks)[i] == blocks[i][0],
    decreases blocks.len(),
{
    if blocks.len() > 0 {
        let front = blocks.drop_last();
        assert forall|i: int| 0 <= i < front.len() implies (#[trigger] front[i]).len() == 1 by {
            assert(front[i] == blocks[i]);
        }
        lemma_concat_ones(front);
        assert(blocks[blocks.len() - 1].len() == 1);
        assert forall|i: int| 0 <= i < blocks.len() implies #[trigger] concat(blocks)[i]
            == blocks[i][0] by {
            if i < front.len() {
                assert(concat(front)[i] == front[i][0]);
            }
        }
    }
}

spec fn yields_of<'a, W: Walker>(w: &W, ds: Seq<Node<'a>>) -> Seq<Seq<<W::Item as DeepView>::V>> {
    Seq::new(ds.len(), |i: int| w.yields(ds[i]))
}

/// Whether what is not hidden by a node does not hide from it what stands below.
pub open spec fn lasts<'a>(hides: spec_fn(Node<'a>, Node<'a>) -> bool) -> bool {
    forall|e: Node<'a>, x: Node<'a>, d: Node<'a>|
        #![trigger hides(e, d), at_or_below(x, d)]
        !hides(e, x) && at_or_below(e, x) && e != x && at_or_below(x, d) ==> !hides(e, d)
}

/// What a walk does at a node, held against what is said to be reported.
pub open spec fn walks<'a, W: Walker>(
    w: &W,
    hides: spec_fn(Node<'a>, Node<'a>) -> bool,
    p: spec_fn(Node<'a>) -> bool,
    c: Node<'a>,
) -> bool {
    &&& !p(c) ==> w.yields(c).len() == 0
    &&& match w.enters(c) {
        None => forall|d: Node<'a>| #[trigger] at_or_below(c, d) && d != c ==> hides(c, d),
        Some(b) => {
            &&& at_or_below(c, b)
            &&& b == c || b.up() == Some(c)
            &&& b.rank() <= c.rank()
            &&& forall|d: Node<'a>| #[trigger]
                at_or_below(c, d) && d != c ==> (hides(c, d) <==> !(at_or_below(b, d) && d != b))
            &&& b != c ==> forall|d: Node<'a>| #[trigger]
                at_or_below(b, d) && d != b ==> !hides(b, d)
        },
    }
}

spec fn among<'a>(n: Node<'a>, k: nat, d: Node<'a>) -> bool {
    exists|i: int| 0 <= i < k && #[trigger] at_or_below(n.kid(i), d)
}

proof fn lemma_open_kids<'a>(
    root: Node<'a>,
    hides: spec_fn(Node<'a>, Node<'a>) -> bool,
    c: Node<'a>,
    b: Node<'a>,
    i: int,
)
    requires
        is_open(root, hides, c),
        at_or_below(c, b),
        b == c || b.up() == Some(c),
        0 <= i < b.arity(),
        lasts(hides),
        !hides(c, b.kid(i)),
        b != c ==> !hides(b, b.kid(i)),
    ensures
        is_open(root, hides, b.kid(i)),
{
    let x = b.kid(i);
    lemma_kid_below(b, i);
    lemma_parent_of_kid(b, i);
    lemma_below_transitive(c, b, x);
    lemma_below_transitive(root, c, x);
    lemma_below_index(c, b);
    lemma_below_index(b, x);
    lemma_below_index(root, c);
    assert forall|e: Node<'a>|
        at_or_below(root, e) && #[trigger] at_or_below(e, x) && e != root && e != x implies !hides(
        e,
        x,
    ) by {
        assert(at_or_below(e, b));
        if e != b {
            if b != c {
                assert(at_or_below(e, c));
            }
            if e != c {
                assert(!hides(e, c));
                assert(at_or_below(c, x));
            }
        }
    }
}

proof fn collect<'a, W: Walker>(
    w: &W,
    root: Node<'a>,
    hides: spec_fn(Node<'a>, Node<'a>) -> bool,
    p: spec_fn(Node<'a>) -> bool,
    n: Node<'a>,
    k: nat,
) -> (ds: Seq<Node<'a>>)
    requires
        k <= n.arity(),
        at_or_below(root, n),
        forall|i: int| 0 <= i < n.arity() ==> is_open(root, hides, #[trigger] n.kid(i)),
        forall|c: Node<'a>| is_open(root, hides, c) ==> #[trigger] walks(w, hides, p, c),
        lasts(hides),
    ensures
        gathered_upto(w, n, k) == concat(yields_of(w, ds)),
        forall|i: int|
            0 <= i < ds.len() ==> is_open(root, hides, #[trigger] ds[i]) && p(ds[i]) && among(
                n,
                k,
                ds[i],
            ),
        forall|i: int, j: int|
            0 <= i < j < ds.len() ==> (#[trigger] ds[i]).index() < (#[trigger] ds[j]).index(),
        forall|d: Node<'a>|
            among(n, k, d) && #[trigger] is_open(root, hides, d) && p(d) ==> ds.contains(d),
    decreases n.rank(), k,
{
    if k == 0 {
        let ds = Seq::<Node<'a>>::empty();
        assert(yields_of(w, ds) =~= Seq::empty());
        ds
    } else {
        let c = n.kid(k - 1);
        let before = collect(w, root, hides, p, n, (k - 1) as nat);
        assert(is_open(root, hides, c));
        assert(walks(w, hides, p, c));
        lemma_kid_below(n, k - 1);
        let own = if p(c) {
            seq![c]
        } else {
            Seq::empty()
        };
        let below = match w.enters(c) {
            Some(b) => {
                assert forall|i: int| 0 <= i < b.arity() implies is_open(
                    root,
                    hides,
                    #[trigger] b.kid(i),
                ) by {
                    let x = b.kid(i);
                    lemma_kid_below(b, i);
                    lemma_below_transitive(c, b, x);
                    lemma_below_index(c, b);
                    lemma_below_index(b, x);
                    lemma_parent_of_kid(b, i);
                    assert(at_or_below(c, x) && x != c);
                    assert(at_or_below(b, x) && x != b);
                    lemma_open_kids(root, hides, c, b, i);
                }
                lemma_below_transitive(root, c, b);
                collect(w, root, hides, p, b, b.arity())
            },
            None => Seq::empty(),
        };
        let behind = own + below;
        let ds = before + behind;
        // what is gathered
        assert(yields_of(w, own) =~= if p(c) {
            seq![w.yields(c)]
        } else {
            Seq::empty()
        });
        assert(concat(yields_of(w, own)) =~= w.yields(c)) by {
            reveal_with_fuel(concat, 2);
            if p(c) {
                assert(seq![w.yields(c)].drop_last() =~= Seq::empty());
            } else {
                assert(w.yields(c) =~= Seq::empty());
            }
        }
        if w.enters(c) is None {
            assert(yields_of(w, below) =~= Seq::empty());
        }
        assert(yields_of(w, behind) =~= yields_of(w, own) + yields_of(w, below));
        lemma_concat_add(yields_of(w, own), yields_of(w, below));
        assert(yields_of(w, ds) =~= yields_of(w, before) + yields_of(w, behind));
        lemma_concat_add(yields_of(w, before), yields_of(w, behind));
        // where the nodes stand
        assert forall|i: int| 0 <= i < below.len() implies at_or_below(c, #[trigger] below[i])
            && below[i] != c by {
            let b = w.enters(c)->0;
            let x = choose|x: int| 0 <= x < b.arity() && #[trigger] at_or_below(b.kid(x), below[i]);
            lemma_kid_below(b, x);
            lemma_below_transitive(b, b.kid(x), below[i]);
            lemma_below_transitive(c, b, below[i]);
            lemma_below_index(c, b);
            lemma_below_index(b, b.kid(x));
            lemma_below_index(b.kid(x), below[i]);
            lemma_parent_of_kid(b, x);
        }
        assert forall|i: int| 0 <= i < behind.len() implies at_or_below(c, #[trigger] behind[i])
            && is_open(root, hides, behind[i]) && p(behind[i]) by {
            if i < own.len() {
                assert(behind[i] == c);
            } else {
                assert(behind[i] == below[i - own.len()]);
            }
        }
        assert forall|i: int| 0 <= i < ds.len() implies is_open(root, hides, #[trigger] ds[i])
            && p(ds[i]) && among(n, k, ds[i]) by {
            if i < before.len() {
                assert(ds[i] == before[i]);
                let x = choose|x: int|
                    0 <= x < k - 1 && #[trigger] at_or_below(n.kid(x), before[i]);
                assert(at_or_below(n.kid(x), ds[i]));
            } else {
                assert(ds[i] == behind[i - before.len()]);
                assert(at_or_below(n.kid(k - 1), ds[i]));
            }
        }
        // in order
        assert forall|i: int, j: int| 0 <= i < j < behind.len() implies (
        #[trigger] behind[i]).index() < (#[trigger] behind[j]).index() by {
            assert(behind[j] == below[j - own.len()]);
            if i < own.len() {
                assert(behind[i] == c);
                lemma_below_index(c, behind[j]);
            } else {
                assert(behind[i] == below[i - own.len()]);
            }
        }
        assert forall|i: int, j: int| 0 <= i < j < ds.len() implies (#[trigger] ds[i]).index() < (
        #[trigger] ds[j]).index() by {
            if j < before.len() {
                assert(ds[i] == before[i] && ds[j] == before[j]);
            } else if i >= before.len() {
                assert(ds[i] == behind[i - before.len()] && ds[j] == behind[j - before.len()]);
            } else {
                assert(ds[i] == before[i] && ds[j] == behind[j - before.len()]);
                let x = choose|x: int|
                    0 <= x < k - 1 && #[trigger] at_or_below(n.kid(x), before[i]);
                lemma_kid_order(n, x, k - 1, before[i]);
                lemma_below_index(c, ds[j]);
            }
        }
        // all of them
        assert forall|d: Node<'a>|
            among(n, k, d) && #[trigger] is_open(root, hides, d) && p(d) implies ds.contains(d) by {
            let x = choose|x: int| 0 <= x < k && #[trigger] at_or_below(n.kid(x), d);
            if x < k - 1 {
                assert(among(n, (k - 1) as nat, d));
                let at = choose|at: int| 0 <= at < before.len() && before[at] == d;
                assert(ds[at] == d);
            } else if d == c {
                assert(ds[before.len() as int] == own[0]);
            } else {
                lemma_below_index(root, n);
                lemma_below_index(n, c);
                lemma_below_index(c, d);
                lemma_parent_of_kid(n, k - 1);
                assert(!hides(c, d));
                let b = w.enters(c)->0;
                assert(at_or_below(b, d) && d != b);
                let y = lemma_under_kid(b, d);
                assert(among(b, b.arity(), d));
                let at = choose|at: int| 0 <= at < below.len() && below[at] == d;
                assert(ds[before.len() + own.len() + at] == d);
            }
        }
        ds
    }
}

/// A walk reports what `walks` says of it.
pub(crate) proof fn lemma_blocks<'a, W: Walker>(
    w: &W,
    root: Node<'a>,
    hides: spec_fn(Node<'a>, Node<'a>) -> bool,
    p: spec_fn(Node<'a>) -> bool,
    rel: spec_fn(Seq<<W::Item as DeepView>::V>, Node<'a>) -> bool,
)
    requires
        lasts(hides),
        forall|c: Node<'a>| is_open(root, hides, c) ==> #[trigger] walks(w, hides, p, c),
        forall|c: Node<'a>|
            is_open(root, hides, c) && p(c) ==> rel(#[trigger] w.yields(c), c),
    ensures
        reports_blocks(root, hides, p, rel, gathered(w, root)),
{
    assert forall|i: int| 0 <= i < root.arity() implies is_open(
        root,
        hides,
        #[trigger] root.kid(i),
    ) by {
        let x = root.kid(i);
        lemma_kid_below(root, i);
        lemma_parent_of_kid(root, i);
        lemma_below_index(root, x);
        assert forall|e: Node<'a>|
            at_or_below(root, e) && #[trigger] at_or_below(e, x) && e != root && e
                != x implies !hides(e, x) by {
            assert(at_or_below(e, root));
            lemma_below_index(e, root);
            lemma_below_index(root, e);
        }
    }
    let ds = collect(w, root, hides, p, root, root.arity());
    let blocks = yields_of(w, ds);
    assert forall|d: Node<'a>| #[trigger] is_open(root, hides, d) && p(d) implies ds.contains(
        d,
    ) by {
        let x = lemma_under_kid(root, d);
        assert(among(root, root.arity(), d));
    }
    assert(lists_nodes(root, hides, p, ds));
    assert forall|i: int| 0 <= i < ds.len() implies rel(#[trigger] blocks[i], ds[i]) by {
        assert(is_open(root, hides, ds[i]));
        assert(blocks[i] == w.yields(ds[i]));
    }
    assert(fits_blocks(ds, blocks, rel));
}

/// The lists of one item, as `rel` says.
pub open spec fn ones<'a, V>(rel: spec_fn(V, Node<'a>) -> bool) -> spec_fn(
    Seq<V>,
    Node<'a>,
) -> bool {
    |s: Seq<V>, d: Node<'a>| s.len() == 1 && rel(s[0], d)
}

/// Reports with one item for each node are lists of such items.
pub(crate) proof fn lemma_ones<'a, V>(
    root: Node<'a>,
    hides: spec_fn(Node<'a>, Node<'a>) -> bool,
    p: spec_fn(Node<'a>) -> bool,
    rel: spec_fn(V, Node<'a>) -> bool,
    r: Seq<V>,
)
    requires
        reports_blocks(root, hides, p, ones(rel), r),
    ensures
        reports(root, hides, p, rel, r),
{
    let (ds, blocks) = choose|ds: Seq<Node<'a>>, blocks: Seq<Seq<V>>|
        lists_nodes(root, hides, p, ds) && #[trigger] fits_blocks(ds, blocks, ones(rel)) && r
            == concat(blocks);
    assert forall|i: int| 0 <= i < blocks.len() implies (#[trigger] blocks[i]).len() == 1 by {
        assert(ones(rel)(blocks[i], ds[i]));
    }
    lemma_concat_ones(blocks);
    assert forall|i: int| 0 <= i < r.len() implies rel(#[trigger] r[i], ds[i]) by {
        assert(ones(rel)(blocks[i], ds[i]));
    }
    assert(fits(ds, r, rel));
}

/// Nodes that hide all that stands below them.
pub open spec fn closed_by<'a>(stops: spec_fn(Node<'a>) -> bool) -> spec_fn(
    Node<'a>,
    Node<'a>,
) -> bool {
    |e: Node<'a>, d: Node<'a>| stops(e)
}

/// Nodes that hide all that stands below them, or all but what is in their body.
pub open spec fn closed_but_for_bodies<'a>(
    stops: spec_fn(Node<'a>) -> bool,
    owns: spec_fn(Node<'a>) -> bool,
) -> spec_fn(Node<'a>, Node<'a>) -> bool {
    |e: Node<'a>, d: Node<'a>| stops(e) || (owns(e) && !in_body(e, d))
}

/// Whether no body of a node is itself a node that hides.
pub open spec fn has_plain_bodies<'a>(
    root: Node<'a>,
    stops: spec_fn(Node<'a>) -> bool,
    owns: spec_fn(Node<'a>) -> bool,
) -> bool {
    forall|c: Node<'a>|
        at_or_below(root, c) && owns(c) ==> (#[trigger] c.at("body") matches Some(b) ==> !stops(b)
            && !owns(b))
}

pub(crate) proof fn lemma_reported_blocks<'a, W: Walker>(
    w: &W,
    root: Node<'a>,
    stops: spec_fn(Node<'a>) -> bool,
    p: spec_fn(Node<'a>) -> bool,
    rel: spec_fn(Seq<<W::Item as DeepView>::V>, Node<'a>) -> bool,
)
    requires
        forall|c: Node<'a>| is_open(root, closed_by(stops), c) ==> #[trigger] w.enters(c) == if stops(c) {
            None
        } else {
            Some(c)
        },
        forall|c: Node<'a>|
            is_open(root, closed_by(stops), c) && !p(c) ==> (#[trigger] w.yields(c)).len() == 0,
        forall|c: Node<'a>|
            is_open(root, closed_by(stops), c) && p(c) ==> rel(#[trigger] w.yields(c), c),
    ensures
        reports_blocks(root, closed_by(stops), p, rel, gathered(w, root)),
{
    let hides = closed_by(stops);
    assert forall|c: Node<'a>| is_open(root, hides, c) implies #[trigger] walks(w, hides, p, c) by {
        assert(w.enters(c) == if stops(c) {
            None
        } else {
            Some(c)
        });
        assert(!p(c) ==> w.yields(c).len() == 0);
        assert(at_or_below(c, c));
    }
    lemma_blocks(w, root, hides, p, rel);
}

pub(crate) proof fn lemma_reported<'a, W: Walker>(
    w: &W,
    root: Node<'a>,
    stops: spec_fn(Node<'a>) -> bool,
    p: spec_fn(Node<'a>) -> bool,
    rel: spec_fn(<W::Item as DeepView>::V, Node<'a>) -> bool,
)
    requires
        forall|c: Node<'a>| is_open(root, closed_by(stops), c) ==> #[trigger] w.enters(c) == if stops(c) {
            None
        } else {
            Some(c)
        },
        forall|c: Node<'a>|
            is_open(root, closed_by(stops), c) && !p(c) ==> (#[trigger] w.yields(c)).len() == 0,
        forall|c: Node<'a>|
            is_open(root, closed_by(stops), c) && p(c) ==> (#[trigger] w.yields(c)).len() == 1
                && rel(w.yields(c)[0], c),
    ensures
        reports(root, closed_by(stops), p, rel, gathered(w, root)),
{
    lemma_reported_blocks(w, root, stops, p, ones(rel));
    lemma_ones(root, closed_by(stops), p, rel, gathered(w, root));
}

pub(crate) proof fn lemma_reported_in_bodies<'a, W: Walker>(
    w: &W,
    root: Node<'a>,
    stops: spec_fn(Node<'a>) -> bool,
    owns: spec_fn(Node<'a>) -> bool,
    p: spec_fn(Node<'a>) -> bool,
    rel: spec_fn(Seq<<W::Item as DeepView>::V>, Node<'a>) -> bool,
)
    requires
        has_plain_bodies(root, stops, owns),
        forall|c: Node<'a>|
            is_open(root, closed_but_for_bodies(stops, owns), c) ==> #[trigger] w.enters(c)
                == if stops(c) {
                None
            } else if owns(c) {
                c.at("body")
            } else {
                Some(c)
            },
        forall|c: Node<'a>|
            is_open(root, closed_but_for_bodies(stops, owns), c) && !p(c) ==> (
            #[trigger] w.yields(c)).len() == 0,
        forall|c: Node<'a>|
            is_open(root, closed_but_for_bodies(stops, owns), c) && p(c) ==> rel(
                #[trigger] w.yields(c),
                c,
            ),
    ensures
        reports_blocks(root, closed_but_for_bodies(stops, owns), p, rel, gathered(w, root)),
{
    let hides = closed_but_for_bodies(stops, owns);
    assert(lasts(hides)) by {
        assert forall|e: Node<'a>, x: Node<'a>, d: Node<'a>|
            #![trigger hides(e, d), at_or_below(x, d)]
            !hides(e, x) && at_or_below(e, x) && e != x && at_or_below(x, d) implies !hides(
            e,
            d,
        ) by {
            if owns(e) {
                let b = e.at("body")->0;
                lemma_below_transitive(b, x, d);
                lemma_below_index(b, x);
                lemma_below_index(x, d);
            }
        }
    }
    assert forall|c: Node<'a>| is_open(root, hides, c) implies #[trigger] walks(w, hides, p, c) by {
        assert(w.enters(c) == if stops(c) {
            None
        } else if owns(c) {
            c.at("body")
        } else {
            Some(c)
        });
        assert(!p(c) ==> w.yields(c).len() == 0);
        assert(at_or_below(c, c));
        lemma_at_up(c, "body");
    }
    lemma_blocks(w, root, hides, p, rel);
}

/// The child that fills a field is a child.
pub(crate) proof fn lemma_at_up(n: Node<'_>, name: &str)
    ensures
        n.at(name) matches Some(c) ==> c.up() == Some(n) && at_or_below(n, c) && c != n,
{
    lemma_field_from(n, name@, 0);
    if n.at(name) is Some {
        let k = choose|k: int| 0 <= k < n.arity() && n.at(name)->0 == #[trigger] n.kid(k);
        lemma_kid_below(n, k);
        lemma_parent_of_kid(n, k);
        lemma_below_index(n, n.kid(k));
    }
}

/// Whether `ks` are the positions of the children of `n` that `p` accepts, in
/// order.
pub open spec fn lists_kids<'a>(n: Node<'a>, p: spec_fn(Node<'a>) -> bool, ks: Seq<int>) -> bool {
    &&& forall|i: int| 0 <= i < ks.len() ==> 0 <= #[trigger] ks[i] < n.arity() && p(n.kid(ks[i]))
    &&& forall|i: int, j: int| 0 <= i < j < ks.len() ==> #[trigger] ks[i] < #[trigger] ks[j]
    &&& forall|k: int| 0 <= k < n.arity() && p(#[trigger] n.kid(k)) ==> ks.contains(k)
}

/// Whether `r` has one item for each of the children of `n` at the positions
/// `ks`, as `rel` says.
pub open spec fn fits_kids<'a, V>(
    n: Node<'a>,
    ks: Seq<int>,
    r: Seq<V>,
    rel: spec_fn(V, Node<'a>) -> bool,
) -> bool {
    r.len() == ks.len() && forall|i: int| 0 <= i < r.len() ==> rel(#[trigger] r[i], n.kid(ks[i]))
}

/// Whether `r` reports the children of `n` that `p` accepts: one item for each of
/// them, as `rel` says, in order, and nothing else.
pub open spec fn reports_kids<'a, V>(
    n: Node<'a>,
    p: spec_fn(Node<'a>) -> bool,
    rel: spec_fn(V, Node<'a>) -> bool,
    r: Seq<V>,
) -> bool {
    exists|ks: Seq<int>| #[trigger] lists_kids(n, p, ks) && fits_kids(n, ks, r, rel)
}

/// Whether `blocks` has one list for each of the children of `n` at the positions
/// `ks`, as `rel` says.
pub open spec fn fits_kid_blocks<'a, V>(
    n: Node<'a>,
    ks: Seq<int>,
    blocks: Seq<Seq<V>>,
    rel: spec_fn(Seq<V>, Node<'a>) -> bool,
) -> bool {
    blocks.len() == ks.len() && forall|i: int|
        0 <= i < blocks.len() ==> rel(#[trigger] blocks[i], n.kid(ks[i]))
}

/// Whether `r` reports the children of `n` that `p` accepts, in order: for each of
/// them a list of items, as `rel` says.
pub open spec fn reports_kid_blocks<'a, V>(
    n: Node<'a>,
    p: spec_fn(Node<'a>) -> bool,
    rel: spec_fn(Seq<V>, Node<'a>) -> bool,
    r: Seq<V>,
) -> bool {
    exists|ks: Seq<int>, blocks: Seq<Seq<V>>|
        lists_kids(n, p, ks) && #[trigger] fits_kid_blocks(n, ks, blocks, rel) && r == concat(
            blocks,
        )
}

spec fn picks_of<'a, P: Picker>(q: &P, n: Node<'a>, ks: Seq<int>) -> Seq<
    Seq<<P::Item as DeepView>::V>,
> {
    Seq::new(ks.len(), |i: int| q.picks(n.kid(ks[i])))
}

proof fn collect_kids<'a, P: Picker>(
    q: &P,
    n: Node<'a>,
    p: spec_fn(Node<'a>) -> bool,
    k: nat,
) -> (ks: Seq<int>)
    requires
        k <= n.arity(),
        forall|i: int|
            0 <= i < n.arity() && !p(#[trigger] n.kid(i)) ==> q.picks(n.kid(i)).len() == 0,
    ensures
        picked_upto(q, n, k) == concat(picks_of(q, n, ks)),
        forall|i: int| 0 <= i < ks.len() ==> 0 <= #[trigger] ks[i] < k && p(n.kid(ks[i])),
        forall|i: int, j: int| 0 <= i < j < ks.len() ==> #[trigger] ks[i] < #[trigger] ks[j],
        forall|i: int| 0 <= i < k && p(#[trigger] n.kid(i)) ==> ks.contains(i),
    decreases k,
{
    if k == 0 {
        let ks = Seq::<int>::empty();
        assert(picks_of(q, n, ks) =~= Seq::empty());
        ks
    } else {
        let before = collect_kids(q, n, p, (k - 1) as nat);
        let c = n.kid(k - 1);
        if p(c) {
            let ks = before.push(k - 1);
            assert(picks_of(q, n, ks).drop_last() =~= picks_of(q, n, before));
            assert(picks_of(q, n, ks).last() == q.picks(c));
            assert forall|i: int| 0 <= i < k && p(#[trigger] n.kid(i)) implies ks.contains(i) by {
                if i < k - 1 {
                    let at = choose|at: int| 0 <= at < before.len() && before[at] == i;
                    assert(ks[at] == i);
                } else {
                    assert(ks[before.len() as int] == i);
                }
            }
            ks
        } else {
            assert(q.picks(c) =~= Seq::empty());
            before
        }
    }
}

pub(crate) proof fn lemma_picked_blocks<'a, P: Picker>(
    q: &P,
    n: Node<'a>,
    p: spec_fn(Node<'a>) -> bool,
    rel: spec_fn(Seq<<P::Item as DeepView>::V>, Node<'a>) -> bool,
)
    requires
        forall|i: int|
            0 <= i < n.arity() && !p(#[trigger] n.kid(i)) ==> q.picks(n.kid(i)).len() == 0,
        forall|i: int|
            0 <= i < n.arity() && p(#[trigger] n.kid(i)) ==> rel(q.picks(n.kid(i)), n.kid(i)),
    ensures
        reports_kid_blocks(n, p, rel, picked(q, n)),
{
    let ks = collect_kids(q, n, p, n.arity());
    assert(lists_kids(n, p, ks));
    assert(fits_kid_blocks(n, ks, picks_of(q, n, ks), rel));
}

pub(crate) proof fn lemma_picked_kids<'a, P: Picker>(
    q: &P,
    n: Node<'a>,
    p: spec_fn(Node<'a>) -> bool,
    rel: spec_fn(<P::Item as DeepView>::V, Node<'a>) -> bool,
)
    requires
        forall|i: int|
            0 <= i < n.arity() && !p(#[trigger] n.kid(i)) ==> q.picks(n.kid(i)).len() == 0,
        forall|i: int|
            0 <= i < n.arity() && p(#[trigger] n.kid(i)) ==> q.picks(n.kid(i)).len() == 1 && rel(
                q.picks(n.kid(i))[0],
                n.kid(i),
            ),
    ensures
        reports_kids(n, p, rel, picked(q, n)),
{
    let ks = collect_kids(q, n, p, n.arity());
    let blocks = picks_of(q, n, ks);
    assert forall|i: int| 0 <= i < blocks.len() implies (#[trigger] blocks[i]).len() == 1 by {
        assert(p(n.kid(ks[i])));
    }
    lemma_concat_ones(blocks);
    let r = picked(q, n);
    assert forall|i: int| 0 <= i < r.len() implies rel(#[trigger] r[i], n.kid(ks[i])) by {
        assert(blocks[i] == q.picks(n.kid(ks[i])));
        assert(p(n.kid(ks[i])));
    }
    assert(lists_kids(n, p, ks));
    assert(fits_kids(n, ks, r, rel));
}

} // verus!
