//! Lists whose contents are described by their deep views.

use vstd::prelude::*;

use crate::tree::same;

verus! {

/// An empty list.
pub fn none<T: DeepView>() -> (res: Vec<T>)
    ensures
        res.deep_view() == Seq::<T::V>::empty(),
        res@.len() == 0,
{
    let res: Vec<T> = Vec::new();
    assert(res.deep_view() =~= Seq::<T::V>::empty());
    res
}

/// A list of one item.
pub fn one<T: DeepView>(x: T) -> (res: Vec<T>)
    ensures
        res.deep_view() == seq![x.deep_view()],
        res@.len() == 1,
{
    let mut res: Vec<T> = Vec::new();
    res.push(x);
    assert(res.deep_view() =~= seq![x.deep_view()]);
    res
}

/// Adds an item at the end.
pub fn push<T: DeepView>(list: &mut Vec<T>, x: T)
    ensures
        final(list).deep_view() == old(list).deep_view().push(x.deep_view()),
        final(list)@ == old(list)@.push(x),
{
    list.push(x);
    assert(list.deep_view() =~= old(list).deep_view().push(x.deep_view()));
}

/// Adds the items of `more` at the end.
pub fn extend<T: DeepView>(list: &mut Vec<T>, more: Vec<T>)
    ensures
        final(list).deep_view() == old(list).deep_view() + more.deep_view(),
{
    let ghost added = more.deep_view();
    let mut more = more;
    list.append(&mut more);
    assert(list.deep_view() =~= old(list).deep_view() + added);
}

/// Adds the item at the end, where there is one.
pub fn push_some<T: DeepView>(list: &mut Vec<T>, x: Option<T>)
    ensures
        final(list).deep_view() == old(list).deep_view() + some_seq(x.deep_view()),
{
    match x {
        Some(item) => {
            list.push(item);
            assert(list.deep_view() =~= old(list).deep_view() + seq![item.deep_view()]);
        },
        None => {
            assert(list.deep_view() =~= old(list).deep_view() + Seq::<T::V>::empty());
        },
    }
}

/// The sequence of the item that an option holds.
pub open spec fn some_seq<A>(x: Option<A>) -> Seq<A> {
    match x {
        Some(a) => seq![a],
        None => Seq::empty(),
    }
}

/// Whether a string is among the strings of a list.
pub fn holds(list: &Vec<String>, s: &str) -> (res: bool)
    ensures
        res == list.deep_view().contains(s@),
{
    let mut i: usize = 0;
    while i < list.len()
        invariant
            i <= list.len(),
            forall|k: int| 0 <= k < i ==> list.deep_view()[k] != s@,
        decreases list.len() - i,
    {
        if same(list[i].as_str(), s) {
            assert(list.deep_view()[i as int] == s@);
            return true;
        }
        i += 1;
    }
    false
}

/// A copy of a list of strings.
pub fn copy_strings(list: &Vec<String>) -> (res: Vec<String>)
    ensures
        res.deep_view() == list.deep_view(),
{
    let mut res: Vec<String> = Vec::new();
    let mut i: usize = 0;
    while i < list.len()
        invariant
            i <= list.len(),
            res@.len() == i,
            forall|k: int| 0 <= k < i ==> res@[k]@ == list@[k]@,
        decreases list.len() - i,
    {
        res.push(list[i].clone());
        i += 1;
    }
    assert(res.deep_view() =~= list.deep_view());
    res
}

/// Adds an item at the end.
pub fn emit<T: DeepView>(list: &mut Vec<T>, x: T)
    ensures
        final(list).deep_view() == old(list).deep_view() + seq![x.deep_view()],
{
    list.push(x);
    assert(list.deep_view() =~= old(list).deep_view() + seq![x.deep_view()]);
}

pub broadcast proof fn lemma_add_empty<A>(s: Seq<A>)
    ensures
        #[trigger] (s + Seq::<A>::empty()) == s,
{
    assert(s + Seq::<A>::empty() =~= s);
}

pub broadcast proof fn lemma_empty_add<A>(s: Seq<A>)
    ensures
        #[trigger] (Seq::<A>::empty() + s) == s,
{
    assert(Seq::<A>::empty() + s =~= s);
}

/// How sequences are put together.
pub broadcast group group_lists {
    lemma_add_empty,
    lemma_empty_add,
}

/// The list with an item put behind the last one whose offset is not greater.
pub open spec fn placed<A>(s: Seq<(usize, A)>, x: (usize, A)) -> Seq<(usize, A)>
    decreases s.len(),
{
    if s.len() == 0 || s.last().0 <= x.0 {
        s.push(x)
    } else {
        placed(s.drop_last(), x).push(s.last())
    }
}

/// The items in the order of their offsets, those at one offset in the order
/// in which they come.
pub open spec fn by_offset<A>(s: Seq<(usize, A)>) -> Seq<(usize, A)>
    decreases s.len(),
{
    if s.len() == 0 {
        Seq::empty()
    } else {
        placed(by_offset(s.drop_last()), s.last())
    }
}

proof fn lemma_placed<A>(s: Seq<(usize, A)>, x: (usize, A), j: int)
    requires
        0 <= j <= s.len(),
        j == 0 || s[j - 1].0 <= x.0,
        forall|k: int| j <= k < s.len() ==> (#[trigger] s[k]).0 > x.0,
    ensures
        placed(s, x) == s.insert(j, x),
    decreases s.len(),
{
    if j == s.len() {
        assert(s.insert(j, x) =~= s.push(x));
    } else {
        assert(s.last() == s[s.len() - 1]);
        lemma_placed(s.drop_last(), x, j);
        assert(s.drop_last().insert(j, x).push(s.last()) =~= s.insert(j, x));
    }
}

/// Puts strings in the order of their offsets.
pub fn sort_by_offset(list: Vec<(usize, String)>) -> (res: Vec<(usize, String)>)
    ensures
        res.deep_view() == by_offset(list.deep_view()),
{
    let ghost all = list.deep_view();
    let mut res: Vec<(usize, String)> = Vec::new();
    let mut i: usize = 0;
    assert(res.deep_view() =~= by_offset(all.take(0)));
    while i < list.len()
        invariant
            i <= list.len(),
            all == list.deep_view(),
            res.deep_view() == by_offset(all.take(i as int)),
        decreases list.len() - i,
    {
        let ghost before = res.deep_view();
        let offset: usize = list[i].0;
        let mut j: usize = res.len();
        while j > 0 && res[j - 1].0 > offset
            invariant
                j <= res.len(),
                forall|k: int| j <= k < res.len() ==> (#[trigger] res@[k]).0 > offset,
            decreases j,
        {
            j -= 1;
        }
        let item: (usize, String) = (offset, list[i].1.clone());
        assert(item.deep_view() == all[i as int]);
        proof {
            assert forall|k: int| j <= k < before.len() implies (#[trigger] before[k]).0
                > offset by {
                assert(before[k] == res@[k].deep_view());
            }
            if j > 0 {
                assert(before[j - 1] == res@[j - 1].deep_view());
            }
            lemma_placed(before, item.deep_view(), j as int);
        }
        res.insert(j, item);
        assert(res.deep_view() =~= before.insert(j as int, item.deep_view()));
        i += 1;
        assert(all.take(i as int).drop_last() =~= all.take(i - 1));
    }
    assert(all.take(i as int) =~= all);
    res
}

/// The list from its last item to its first.
pub fn backwards<T: DeepView>(list: Vec<T>) -> (res: Vec<T>)
    ensures
        res.deep_view() == list.deep_view().reverse(),
{
    let ghost all = list@;
    let mut list = list;
    let mut res: Vec<T> = Vec::new();
    while list.len() > 0
        invariant
            list@.len() + res@.len() == all.len(),
            list@ == all.take(list@.len() as int),
            forall|k: int| 0 <= k < res@.len() ==> #[trigger] res@[k] == all[all.len() - 1 - k],
        decreases list.len(),
    {
        match list.pop() {
            Some(x) => {
                assert(list@ =~= all.take(list@.len() as int));
                res.push(x);
            },
            None => {},
        }
    }
    assert(res.deep_view() =~= Seq::new(all.len(), |i: int| all[i].deep_view()).reverse());
    res
}

} // verus!
