//! Names in alphabetical order.

use vstd::prelude::*;

use crate::lists::none;
use crate::text::chars_of;
use crate::tree::same;

verus! {

/// Whether one text comes before another: at the first character in which they
/// differ it has the lesser one, or it ends there.
pub open spec fn comes_before(a: Seq<char>, b: Seq<char>) -> bool
    decreases a.len(),
{
    if b.len() == 0 {
        false
    } else if a.len() == 0 {
        true
    } else if a[0] != b[0] {
        a[0] < b[0]
    } else {
        comes_before(a.skip(1), b.skip(1))
    }
}

/// Whether one text comes before another.
pub fn is_before(a: &str, b: &str) -> (res: bool)
    ensures
        res == comes_before(a@, b@),
{
    let x: Vec<char> = chars_of(a);
    let y: Vec<char> = chars_of(b);
    let mut i: usize = 0;
    assert(x@.skip(0) =~= a@);
    assert(y@.skip(0) =~= b@);
    loop
        invariant
            i <= x.len(),
            i <= y.len(),
            comes_before(a@, b@) == comes_before(x@.skip(i as int), y@.skip(i as int)),
        decreases x.len() - i,
    {
        if i == y.len() {
            return false;
        }
        if i == x.len() {
            return true;
        }
        if x[i] != y[i] {
            return x[i] < y[i];
        }
        assert(x@.skip(i as int).skip(1) =~= x@.skip(i + 1));
        assert(y@.skip(i as int).skip(1) =~= y@.skip(i + 1));
        i += 1;
    }
}

/// Of two texts that differ, exactly one comes before the other.
pub proof fn lemma_total_order(a: Seq<char>, b: Seq<char>)
    ensures
        a != b ==> (comes_before(a, b) <==> !comes_before(b, a)),
        a == b ==> !comes_before(a, b),
    decreases a.len(),
{
    if a.len() > 0 && b.len() > 0 {
        lemma_total_order(a.skip(1), b.skip(1));
        if a[0] == b[0] && a.skip(1) == b.skip(1) {
            assert(a =~= seq![a[0]] + a.skip(1));
            assert(b =~= seq![b[0]] + b.skip(1));
        }
    } else if a.len() == 0 && b.len() == 0 {
        assert(a =~= b);
    }
}

/// What comes before a text also comes before all that the text comes before.
pub proof fn lemma_order_transitive(a: Seq<char>, b: Seq<char>, c: Seq<char>)
    requires
        comes_before(a, b),
        comes_before(b, c),
    ensures
        comes_before(a, c),
    decreases a.len(),
{
    if a.len() > 0 && a[0] == b[0] && b[0] == c[0] {
        lemma_order_transitive(a.skip(1), b.skip(1), c.skip(1));
    }
}

/// Whether each text comes before those behind it.
pub open spec fn ascending(s: Seq<Seq<char>>) -> bool {
    forall|i: int, j: int| 0 <= i < j < s.len() ==> comes_before(#[trigger] s[i], #[trigger] s[j])
}

/// An ascending list with one more text in its place, unless it is there.
pub open spec fn with_in_order(s: Seq<Seq<char>>, x: Seq<char>) -> Seq<Seq<char>>
    decreases s.len(),
{
    if s.len() == 0 || comes_before(s.last(), x) {
        s.push(x)
    } else if s.last() == x {
        s
    } else {
        with_in_order(s.drop_last(), x).push(s.last())
    }
}

/// The first `k` texts in order, each one time.
pub open spec fn in_order_upto(s: Seq<Seq<char>>, k: nat) -> Seq<Seq<char>>
    decreases k,
{
    if k == 0 {
        Seq::empty()
    } else {
        with_in_order(in_order_upto(s, (k - 1) as nat), s[k - 1])
    }
}

/// The texts in order, each one time.
pub open spec fn in_order(s: Seq<Seq<char>>) -> Seq<Seq<char>> {
    in_order_upto(s, s.len())
}

proof fn lemma_with_in_order(s: Seq<Seq<char>>, x: Seq<char>)
    requires
        ascending(s),
    ensures
        ascending(with_in_order(s, x)),
        forall|y: Seq<char>|
            #[trigger] with_in_order(s, x).contains(y) <==> s.contains(y) || y == x,
    decreases s.len(),
{
    let r = with_in_order(s, x);
    if s.len() == 0 || comes_before(s.last(), x) {
        assert forall|i: int, j: int| 0 <= i < j < r.len() implies comes_before(
            #[trigger] r[i],
            #[trigger] r[j],
        ) by {
            assert(r[i] == s[i]);
            if j < s.len() {
                assert(r[j] == s[j]);
            } else if i < s.len() - 1 {
                assert(comes_before(s[i], s[s.len() - 1]));
                lemma_order_transitive(s[i], s.last(), x);
            }
        }
        assert forall|y: Seq<char>| #[trigger] r.contains(y) <==> s.contains(y) || y == x by {
            if s.contains(y) {
                let i = choose|i: int| 0 <= i < s.len() && s[i] == y;
                assert(r[i] == y);
            }
            if y == x {
                assert(r[s.len() as int] == x);
            }
            if r.contains(y) {
                let i = choose|i: int| 0 <= i < r.len() && r[i] == y;
                if i < s.len() {
                    assert(s[i] == y);
                }
            }
        }
    } else if s.last() == x {
        assert(s[s.len() - 1] == x);
    } else {
        let front = s.drop_last();
        assert(ascending(front)) by {
            assert forall|i: int, j: int| 0 <= i < j < front.len() implies comes_before(
                #[trigger] front[i],
                #[trigger] front[j],
            ) by {
                assert(front[i] == s[i]);
                assert(front[j] == s[j]);
            }
        }
        lemma_with_in_order(front, x);
        let inner = with_in_order(front, x);
        lemma_total_order(s.last(), x);
        assert forall|i: int, j: int| 0 <= i < j < r.len() implies comes_before(
            #[trigger] r[i],
            #[trigger] r[j],
        ) by {
            assert(r[i] == inner[i]);
            if j < inner.len() {
                assert(r[j] == inner[j]);
            } else {
                assert(inner.contains(inner[i]));
                if inner[i] != x {
                    let k = choose|k: int| 0 <= k < front.len() && front[k] == inner[i];
                    assert(s[k] == front[k]);
                    assert(comes_before(s[k], s[s.len() - 1]));
                }
            }
        }
        assert forall|y: Seq<char>| #[trigger] r.contains(y) <==> s.contains(y) || y == x by {
            if r.contains(y) {
                let i = choose|i: int| 0 <= i < r.len() && r[i] == y;
                if i < inner.len() {
                    assert(inner[i] == y);
                    assert(inner.contains(y));
                    if y != x {
                        let k = choose|k: int| 0 <= k < front.len() && front[k] == y;
                        assert(s[k] == y);
                    }
                } else {
                    assert(s[s.len() - 1] == y);
                }
            }
            if s.contains(y) {
                let i = choose|i: int| 0 <= i < s.len() && s[i] == y;
                if i < front.len() {
                    assert(front[i] == y);
                    assert(inner.contains(y));
                    let k = choose|k: int| 0 <= k < inner.len() && inner[k] == y;
                    assert(r[k] == y);
                } else {
                    assert(r[r.len() - 1] == y);
                }
            }
            if y == x {
                assert(inner.contains(x));
                let k = choose|k: int| 0 <= k < inner.len() && inner[k] == x;
                assert(r[k] == x);
            }
        }
    }
}

/// Putting texts in order keeps exactly the texts, and makes each come before
/// those behind it.
pub proof fn lemma_in_order(s: Seq<Seq<char>>, k: nat)
    requires
        k <= s.len(),
    ensures
        ascending(in_order_upto(s, k)),
        forall|y: Seq<char>|
            #[trigger] in_order_upto(s, k).contains(y) <==> s.take(k as int).contains(y),
    decreases k,
{
    if k == 0 {
        assert(s.take(0) =~= Seq::empty());
    } else {
        lemma_in_order(s, (k - 1) as nat);
        lemma_with_in_order(in_order_upto(s, (k - 1) as nat), s[k - 1]);
        let front = s.take(k - 1);
        let all = s.take(k as int);
        assert forall|y: Seq<char>| #[trigger] in_order_upto(s, k).contains(y) <==> all.contains(
            y,
        ) by {
            if all.contains(y) {
                let i = choose|i: int| 0 <= i < all.len() && all[i] == y;
                if i < k - 1 {
                    assert(front[i] == y);
                }
            }
            if front.contains(y) {
                let i = choose|i: int| 0 <= i < front.len() && front[i] == y;
                assert(all[i] == y);
            }
            if y == s[k - 1] {
                assert(all[k - 1] == y);
            }
        }
    }
}

proof fn lemma_with_in_order_at(s: Seq<Seq<char>>, x: Seq<char>, j: int)
    requires
        0 <= j <= s.len(),
        j == 0 || comes_before(s[j - 1], x),
        forall|k: int|
            j <= k < s.len() ==> (#[trigger] s[k]) != x && !comes_before(s[k], x),
    ensures
        with_in_order(s, x) == s.insert(j, x),
    decreases s.len(),
{
    if j == s.len() {
        assert(s.insert(j, x) =~= s.push(x));
    } else {
        assert(s.last() == s[s.len() - 1]);
        lemma_with_in_order_at(s.drop_last(), x, j);
        assert(s.drop_last().insert(j, x).push(s.last()) =~= s.insert(j, x));
    }
}

proof fn lemma_with_in_order_there(s: Seq<Seq<char>>, x: Seq<char>, j: int)
    requires
        0 <= j < s.len(),
        s[j] == x,
        forall|k: int| j < k < s.len() ==> (#[trigger] s[k]) != x && !comes_before(s[k], x),
    ensures
        with_in_order(s, x) == s,
    decreases s.len(),
{
    lemma_total_order(x, x);
    assert(s.last() == s[s.len() - 1]);
    if j < s.len() - 1 {
        lemma_with_in_order_there(s.drop_last(), x, j);
        assert(s.drop_last().push(s.last()) =~= s);
    }
}

/// Puts texts in order, each one time.
pub fn sort_and_dedup(list: &Vec<String>) -> (res: Vec<String>)
    ensures
        res.deep_view() == in_order(list.deep_view()),
        ascending(res.deep_view()),
        forall|y: Seq<char>|
            #[trigger] res.deep_view().contains(y) <==> list.deep_view().contains(y),
{
    let ghost all = list.deep_view();
    let mut res: Vec<String> = none();
    let mut i: usize = 0;
    while i < list.len()
        invariant
            i <= list.len(),
            all == list.deep_view(),
            res.deep_view() == in_order_upto(all, i as nat),
        decreases list.len() - i,
    {
        let ghost before = res.deep_view();
        assert(all[i as int] == list@[i as int]@);
        let x: &str = list[i].as_str();
        let mut j: usize = res.len();
        while j > 0 && !is_before(res[j - 1].as_str(), x) && !same(res[j - 1].as_str(), x)
            invariant
                j <= res.len(),
                before == res.deep_view(),
                forall|k: int|
                    j <= k < before.len() ==> (#[trigger] before[k]) != x@ && !comes_before(
                        before[k],
                        x@,
                    ),
            decreases j,
        {
            assert(before[j - 1] == res@[j - 1]@);
            j -= 1;
        }
        if j > 0 {
            assert(before[j - 1] == res@[j - 1]@);
        }
        if j > 0 && same(res[j - 1].as_str(), x) {
            proof {
                lemma_with_in_order_there(before, x@, j - 1);
            }
        } else {
            proof {
                lemma_with_in_order_at(before, x@, j as int);
            }
            res.insert(j, list[i].clone());
            assert(res.deep_view() =~= before.insert(j as int, x@));
        }
        i += 1;
    }
    proof {
        lemma_in_order(all, all.len());
        assert(all.take(all.len() as int) =~= all);
    }
    res
}

} // verus!
