//! Walks over a syntax tree that gather items.

use vstd::prelude::*;

use crate::lists::{push_some, some_seq};
use crate::tree::{
    at_or_below, group_tree, lemma_below_transitive, lemma_kid_below, Node,
};

verus! {

broadcast use group_tree;

/// What a walk does at a node: which items it takes there, and the children
/// of which node it looks at next.
pub trait Walker {
    /// What the walk gathers.
    type Item: DeepView;

    /// The items taken at `c`.
    spec fn yields(&self, c: Node<'_>) -> Seq<<Self::Item as DeepView>::V>;

    /// The node whose children are visited after `c`: `c` or a node below it.
    spec fn enters<'a>(&self, c: Node<'a>) -> Option<Node<'a>>;

    /// Takes the items at `c`, and says where to go on.
    fn visit<'a>(&self, c: Node<'a>, out: &mut Vec<Self::Item>) -> (res: Option<Node<'a>>)
        ensures
            final(out).deep_view() == old(out).deep_view() + self.yields(c),
            res == self.enters(c),
            res matches Some(d) ==> d.rank() <= c.rank(),
    ;
}

/// The items that a walk over the first `k` children of `n` gathers.
pub open spec fn gathered_upto<W: Walker>(w: &W, n: Node<'_>, k: nat) -> Seq<
    <W::Item as DeepView>::V,
>
    decreases n.rank(), k,
{
    if k == 0 || k > n.arity() {
        Seq::empty()
    } else {
        let c = n.kid(k - 1);
        gathered_upto(w, n, (k - 1) as nat) + (w.yields(c) + match w.enters(c) {
            Some(d) if d.rank() <= c.rank() => gathered_upto(w, d, d.arity()),
            _ => Seq::empty(),
        })
    }
}

/// The items that a walk below `n` gathers, in the order of the source.
pub open spec fn gathered<W: Walker>(w: &W, n: Node<'_>) -> Seq<<W::Item as DeepView>::V> {
    gathered_upto(w, n, n.arity())
}

/// Whether all items of a sequence have a property.
pub open spec fn all_have<A>(s: Seq<A>, p: spec_fn(A) -> bool) -> bool {
    forall|i: int| 0 <= i < s.len() ==> p(#[trigger] s[i])
}

proof fn lemma_gathered_upto<'a, W: Walker>(
    w: &W,
    m: Node<'a>,
    n: Node<'a>,
    k: nat,
    p: spec_fn(<W::Item as DeepView>::V) -> bool,
)
    requires
        at_or_below(m, n),
        forall|c: Node<'a>| at_or_below(m, c) ==> all_have(#[trigger] w.yields(c), p),
        forall|c: Node<'a>|
            (#[trigger] w.enters(c)) matches Some(d) ==> at_or_below(c, d) && d.rank() <= c.rank(),
    ensures
        all_have(gathered_upto(w, n, k), p),
    decreases n.rank(), k,
{
    if 0 < k && k <= n.arity() {
        let c = n.kid(k - 1);
        lemma_gathered_upto(w, m, n, (k - 1) as nat, p);
        lemma_kid_below(n, k - 1);
        lemma_below_transitive(m, n, c);
        match w.enters(c) {
            Some(d) => {
                lemma_below_transitive(m, c, d);
                lemma_gathered_upto(w, m, d, d.arity(), p);
            },
            None => {},
        }
    }
}

/// A walk gathers only items that it takes at nodes below the one it starts
/// at: what holds of all of those holds of what is gathered.
pub proof fn lemma_gathered<'a, W: Walker>(
    w: &W,
    n: Node<'a>,
    p: spec_fn(<W::Item as DeepView>::V) -> bool,
)
    requires
        forall|c: Node<'a>| at_or_below(n, c) ==> all_have(#[trigger] w.yields(c), p),
        forall|c: Node<'a>|
            (#[trigger] w.enters(c)) matches Some(d) ==> at_or_below(c, d) && d.rank() <= c.rank(),
    ensures
        all_have(gathered(w, n), p),
{
    lemma_gathered_upto(w, n, n, n.arity(), p);
}

/// Gathers the items below `n`, behind those that are there.
pub fn gather_into<W: Walker>(w: &W, n: Node<'_>, out: &mut Vec<W::Item>)
    ensures
        final(out).deep_view() == old(out).deep_view() + gathered(w, n),
    decreases n.rank(),
{
    let count: usize = n.child_count();
    let mut i: usize = 0;
    let ghost start = out.deep_view();
    assert(start + Seq::empty() =~= start);
    while i < count
        invariant
            count == n.arity(),
            i <= count,
            out.deep_view() == start + gathered_upto(w, n, i as nat),
        decreases count - i,
    {
        let c = n.child(i);
        let ghost before = gathered_upto(w, n, i as nat);
        let ghost below = match w.enters(c) {
            Some(d) if d.rank() <= c.rank() => gathered_upto(w, d, d.arity()),
            _ => Seq::empty(),
        };
        match w.visit(c, out) {
            Some(d) => gather_into(w, d, out),
            None => {
                assert(out.deep_view() =~= start + before + w.yields(c) + below);
            },
        }
        assert(start + before + w.yields(c) + below =~= start + (before + (w.yields(c) + below)));
        i += 1;
        assert(gathered_upto(w, n, i as nat) == before + (w.yields(c) + below));
    }
}

/// Gathers the items below `n`.
pub fn gather<W: Walker>(w: &W, n: Node<'_>) -> (res: Vec<W::Item>)
    ensures
        res.deep_view() == gathered(w, n),
{
    let mut out: Vec<W::Item> = Vec::new();
    gather_into(w, n, &mut out);
    assert(out.deep_view() =~= gathered(w, n));
    out
}

/// What is taken at each child of a node.
pub trait Picker {
    /// What is taken.
    type Item: DeepView;

    /// The items taken at the child `c`.
    spec fn picks(&self, c: Node<'_>) -> Seq<<Self::Item as DeepView>::V>;

    /// Takes the items at the child `c`.
    fn pick(&self, c: Node<'_>, out: &mut Vec<Self::Item>)
        ensures
            final(out).deep_view() == old(out).deep_view() + self.picks(c),
    ;
}

/// The items taken at the first `k` children of `n`.
pub open spec fn picked_upto<P: Picker>(p: &P, n: Node<'_>, k: nat) -> Seq<
    <P::Item as DeepView>::V,
>
    decreases k,
{
    if k == 0 {
        Seq::empty()
    } else {
        picked_upto(p, n, (k - 1) as nat) + p.picks(n.kid(k - 1))
    }
}

/// The items taken at the children of `n`.
pub open spec fn picked<P: Picker>(p: &P, n: Node<'_>) -> Seq<<P::Item as DeepView>::V> {
    picked_upto(p, n, n.arity())
}

proof fn lemma_picked_upto<'a, P: Picker>(
    q: &P,
    n: Node<'a>,
    k: nat,
    p: spec_fn(<P::Item as DeepView>::V) -> bool,
)
    requires
        k <= n.arity(),
        forall|c: Node<'a>| at_or_below(n, c) ==> all_have(#[trigger] q.picks(c), p),
    ensures
        all_have(picked_upto(q, n, k), p),
    decreases k,
{
    if k > 0 {
        lemma_picked_upto(q, n, (k - 1) as nat, p);
        lemma_kid_below(n, k - 1);
    }
}

/// What holds of all that is taken at the children of a node holds of what is
/// picked there.
pub proof fn lemma_picked<'a, P: Picker>(
    q: &P,
    n: Node<'a>,
    p: spec_fn(<P::Item as DeepView>::V) -> bool,
)
    requires
        forall|c: Node<'a>| at_or_below(n, c) ==> all_have(#[trigger] q.picks(c), p),
    ensures
        all_have(picked(q, n), p),
{
    lemma_picked_upto(q, n, n.arity(), p);
}

/// Takes the items at the children of `n`, behind those that are there.
pub fn pick_into<P: Picker>(p: &P, n: Node<'_>, out: &mut Vec<P::Item>)
    ensures
        final(out).deep_view() == old(out).deep_view() + picked(p, n),
{
    let count: usize = n.child_count();
    let mut i: usize = 0;
    let ghost start = out.deep_view();
    assert(start + Seq::empty() =~= start);
    while i < count
        invariant
            count == n.arity(),
            i <= count,
            out.deep_view() == start + picked_upto(p, n, i as nat),
        decreases count - i,
    {
        let c = n.child(i);
        let ghost before = picked_upto(p, n, i as nat);
        p.pick(c, out);
        assert(start + before + p.picks(c) =~= start + (before + p.picks(c)));
        i += 1;
    }
}

/// Takes the items at the children of `n`.
pub fn pick_all<P: Picker>(p: &P, n: Node<'_>) -> (res: Vec<P::Item>)
    ensures
        res.deep_view() == picked(p, n),
{
    let mut out: Vec<P::Item> = Vec::new();
    pick_into(p, n, &mut out);
    assert(out.deep_view() =~= picked(p, n));
    out
}

/// A value carried from child to child.
pub trait Fold {
    /// What is carried.
    type State: DeepView;

    /// The value behind the child `c`, where it was `s` before it.
    spec fn step(&self, s: <Self::State as DeepView>::V, c: Node<'_>) -> <Self::State as DeepView>::V;

    /// Takes the value past the child `c`.
    fn next(&self, s: Self::State, c: Node<'_>) -> (res: Self::State)
        ensures
            res.deep_view() == self.step(s.deep_view(), c),
    ;
}

/// The value behind the first `k` children of `n`.
pub open spec fn folded_upto<F: Fold>(
    f: &F,
    s: <F::State as DeepView>::V,
    n: Node<'_>,
    k: nat,
) -> <F::State as DeepView>::V
    decreases k,
{
    if k == 0 {
        s
    } else {
        f.step(folded_upto(f, s, n, (k - 1) as nat), n.kid(k - 1))
    }
}

/// The value behind all children of `n`.
pub open spec fn folded<F: Fold>(
    f: &F,
    s: <F::State as DeepView>::V,
    n: Node<'_>,
) -> <F::State as DeepView>::V {
    folded_upto(f, s, n, n.arity())
}

/// Takes a value past all children of `n`.
pub fn fold<F: Fold>(f: &F, s: F::State, n: Node<'_>) -> (res: F::State)
    ensures
        res.deep_view() == folded(f, s.deep_view(), n),
{
    let ghost start = s.deep_view();
    let count: usize = n.child_count();
    let mut state = s;
    let mut i: usize = 0;
    while i < count
        invariant
            count == n.arity(),
            i <= count,
            state.deep_view() == folded_upto(f, start, n, i as nat),
        decreases count - i,
    {
        state = f.next(state, n.child(i));
        i += 1;
    }
    state
}

/// A question about a node.
pub trait Test {
    /// Whether the answer is yes.
    spec fn accepts(&self, c: Node<'_>) -> bool;

    /// Asks the question.
    fn test(&self, c: Node<'_>) -> (res: bool)
        ensures
            res == self.accepts(c),
    ;
}

/// The first child at or behind position `i` that the test accepts.
pub open spec fn found_from<'a, T: Test>(t: &T, n: Node<'a>, i: int) -> Option<Node<'a>>
    decreases n.arity() - i,
{
    if i < 0 || i >= n.arity() {
        None
    } else if t.accepts(n.kid(i)) {
        Some(n.kid(i))
    } else {
        found_from(t, n, i + 1)
    }
}

/// The first child that the test accepts.
pub open spec fn found<'a, T: Test>(t: &T, n: Node<'a>) -> Option<Node<'a>> {
    found_from(t, n, 0)
}

/// Finds the first child that the test accepts.
pub fn find_child<'a, T: Test>(t: &T, n: Node<'a>) -> (res: Option<Node<'a>>)
    ensures
        res == found(t, n),
        res matches Some(c) ==> c.rank() < n.rank() && t.accepts(c) && n.top() <= c.top()
            <= n.bottom(),
{
    let count: usize = n.child_count();
    let mut i: usize = 0;
    while i < count
        invariant
            count == n.arity(),
            i <= count,
            found(t, n) == found_from(t, n, i as int),
        decreases count - i,
    {
        let c = n.child(i);
        if t.test(c) {
            return Some(c);
        }
        i += 1;
    }
    None
}

/// Whether the test accepts an ancestor of `n`.
pub open spec fn inside<T: Test>(t: &T, n: Node<'_>) -> bool
    decreases n.index(),
{
    match n.up() {
        Some(p) => t.accepts(p) || inside(t, p),
        None => false,
    }
}

/// Whether the test accepts an ancestor of `n`.
pub fn is_inside<T: Test>(t: &T, n: &Node<'_>) -> (res: bool)
    ensures
        res == inside(t, *n),
{
    let mut current: Node<'_> = *n;
    loop
        invariant
            inside(t, *n) == inside(t, current),
        decreases current.index(),
    {
        match current.parent() {
            Some(p) => {
                if t.test(p) {
                    return true;
                }
                current = p;
            },
            None => return false,
        }
    }
}

/// What is taken from the siblings before a node.
pub trait Back {
    /// What is taken.
    type Item: DeepView;

    /// Whether the look back goes past the sibling `c`.
    spec fn passes(&self, c: Node<'_>) -> bool;

    /// What is taken from the sibling `c` when the look back goes past it.
    spec fn takes(&self, c: Node<'_>) -> Option<<Self::Item as DeepView>::V>;

    /// Whether the look back goes past the sibling `c`.
    fn pass(&self, c: Node<'_>) -> (res: bool)
        ensures
            res == self.passes(c),
    ;

    /// Takes what there is at the sibling `c`.
    fn take(&self, c: Node<'_>) -> (res: Option<Self::Item>)
        requires
            self.passes(c),
        ensures
            res.deep_view() == self.takes(c),
    ;
}

/// What is taken at `p` and before it, the nearest first.
pub open spec fn nearest_first<B: Back>(b: &B, p: Option<Node<'_>>) -> Seq<
    <B::Item as DeepView>::V,
>
    decreases
            match p {
                Some(c) => c.index() + 1,
                None => 0,
            },
{
    match p {
        Some(c) if b.passes(c) => some_seq(b.takes(c)) + nearest_first(b, c.left()),
        _ => Seq::empty(),
    }
}

/// Takes what there is before `n`, the nearest first.
pub fn look_back<B: Back>(b: &B, n: &Node<'_>) -> (res: Vec<B::Item>)
    ensures
        res.deep_view() == nearest_first(b, n.left()),
{
    look_back_from(b, n.prev_sibling())
}

/// Takes what there is at `p` and before it, the nearest first.
pub fn look_back_from<B: Back>(b: &B, p: Option<Node<'_>>) -> (res: Vec<B::Item>)
    ensures
        res.deep_view() == nearest_first(b, p),
{
    let mut res: Vec<B::Item> = Vec::new();
    let mut prev: Option<Node<'_>> = p;
    let ghost all = nearest_first(b, prev);
    assert(res.deep_view() =~= Seq::empty());
    assert(res.deep_view() + nearest_first(b, prev) =~= all);
    loop
        invariant
            res.deep_view() + nearest_first(b, prev) == all,
            all == nearest_first(b, p),
        decreases
                match prev {
                    Some(c) => c.index() + 1,
                    None => 0,
                },
    {
        match prev {
            Some(c) => {
                if !b.pass(c) {
                    assert(res.deep_view() + Seq::empty() =~= res.deep_view());
                    return res;
                }
                let ghost before = res.deep_view();
                push_some(&mut res, b.take(c));
                prev = c.prev_sibling();
                assert(before + some_seq(b.takes(c)) + nearest_first(b, prev) =~= before + (
                some_seq(b.takes(c)) + nearest_first(b, prev)));
            },
            None => {
                assert(res.deep_view() + Seq::empty() =~= res.deep_view());
                return res;
            },
        }
    }
}

/// The sibling at or before `p` that the test does not accept.
pub open spec fn past<'a, T: Test>(t: &T, p: Option<Node<'a>>) -> Option<Node<'a>>
    decreases
            match p {
                Some(c) => c.index() + 1,
                None => 0,
            },
{
    match p {
        Some(c) if t.accepts(c) => past(t, c.left()),
        _ => p,
    }
}

/// The nearest sibling before `n` that the test does not accept.
pub fn skip_back<'a, T: Test>(t: &T, n: &Node<'a>) -> (res: Option<Node<'a>>)
    ensures
        res == past(t, n.left()),
{
    let mut prev: Option<Node<'a>> = n.prev_sibling();
    loop
        invariant
            past(t, n.left()) == past(t, prev),
        decreases
                match prev {
                    Some(c) => c.index() + 1,
                    None => 0,
                },
    {
        match prev {
            Some(c) => {
                if !t.test(c) {
                    return Some(c);
                }
                prev = c.prev_sibling();
            },
            None => return None,
        }
    }
}

/// The last of the first `k` children that the test accepts.
pub open spec fn last_upto<'a, T: Test>(t: &T, n: Node<'a>, k: nat) -> Option<Node<'a>>
    decreases k,
{
    if k == 0 {
        None
    } else if t.accepts(n.kid(k - 1)) {
        Some(n.kid(k - 1))
    } else {
        last_upto(t, n, (k - 1) as nat)
    }
}

/// The last child that the test accepts.
pub open spec fn last_found<'a, T: Test>(t: &T, n: Node<'a>) -> Option<Node<'a>> {
    last_upto(t, n, n.arity())
}

proof fn lemma_last_upto_rank<T: Test>(t: &T, n: Node<'_>, k: nat)
    requires
        k <= n.arity(),
    ensures
        last_upto(t, n, k) matches Some(c) ==> c.rank() < n.rank(),
    decreases k,
{
    if k > 0 {
        lemma_last_upto_rank(t, n, (k - 1) as nat);
    }
}

/// The last child that a test accepts stands behind its parent in the walk.
pub broadcast proof fn lemma_last_rank<T: Test>(t: &T, n: Node<'_>)
    ensures
        #[trigger] last_found(t, n) matches Some(c) ==> c.rank() < n.rank(),
{
    lemma_last_upto_rank(t, n, n.arity());
}

/// The last child that a test accepts stands below its parent.
pub proof fn lemma_last_below<T: Test>(t: &T, n: Node<'_>, k: nat)
    requires
        k <= n.arity(),
    ensures
        last_upto(t, n, k) matches Some(c) ==> at_or_below(n, c) && t.accepts(c),
    decreases k,
{
    if k > 0 {
        lemma_kid_below(n, k - 1);
        lemma_last_below(t, n, (k - 1) as nat);
    }
}

/// Finds the last child that the test accepts.
pub fn find_last_child<'a, T: Test>(t: &T, n: Node<'a>) -> (res: Option<Node<'a>>)
    ensures
        res == last_found(t, n),
        res matches Some(c) ==> c.rank() < n.rank(),
{
    let mut i: usize = n.child_count();
    while i > 0
        invariant
            i <= n.arity(),
            last_found(t, n) == last_upto(t, n, i as nat),
        decreases i,
    {
        let c = n.child(i - 1);
        if t.test(c) {
            return Some(c);
        }
        i -= 1;
    }
    None
}

} // verus!
