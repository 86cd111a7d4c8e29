//! Maps from names to lists of names.

use vstd::prelude::*;

use crate::lists::{copy_strings, emit, group_lists, holds, none};
use crate::tree::same;

verus! {

broadcast use group_lists;

/// A map from names to lists of names.
#[derive(Debug)]
pub struct NameMap {
    entries: Vec<(String, Vec<String>)>,
}

/// The map that the first `k` entries make.
spec fn map_upto(entries: Seq<(Seq<char>, Seq<Seq<char>>)>, k: nat) -> Map<
    Seq<char>,
    Seq<Seq<char>>,
>
    decreases k,
{
    if k == 0 {
        Map::empty()
    } else {
        map_upto(entries, (k - 1) as nat).insert(entries[k - 1].0, entries[k - 1].1)
    }
}

spec fn distinct_keys(entries: Seq<(Seq<char>, Seq<Seq<char>>)>) -> bool {
    forall|i: int, j: int|
        0 <= i < j < entries.len() ==> (#[trigger] entries[i]).0 != (#[trigger] entries[j]).0
}

proof fn lemma_map_upto(entries: Seq<(Seq<char>, Seq<Seq<char>>)>, k: nat)
    requires
        k <= entries.len(),
        distinct_keys(entries),
    ensures
        forall|key: Seq<char>|
            #[trigger] map_upto(entries, k).contains_key(key) <==> exists|i: int|
                0 <= i < k && (#[trigger] entries[i]).0 == key,
        forall|i: int|
            0 <= i < k ==> map_upto(entries, k)[(#[trigger] entries[i]).0] == entries[i].1,
    decreases k,
{
    if k > 0 {
        lemma_map_upto(entries, (k - 1) as nat);
        let m = map_upto(entries, (k - 1) as nat);
        assert forall|key: Seq<char>| #[trigger]
            map_upto(entries, k).contains_key(key) implies exists|i: int|
            0 <= i < k && (#[trigger] entries[i]).0 == key by {
            if key == entries[k - 1].0 {
                assert(entries[k - 1].0 == key);
            } else {
                assert(m.contains_key(key));
            }
        }
    }
}

proof fn lemma_map_update(
    entries: Seq<(Seq<char>, Seq<Seq<char>>)>,
    i: int,
    value: Seq<Seq<char>>,
)
    requires
        0 <= i < entries.len(),
        distinct_keys(entries),
    ensures
        distinct_keys(entries.update(i, (entries[i].0, value))),
        map_upto(entries.update(i, (entries[i].0, value)), entries.len()) == map_upto(
            entries,
            entries.len(),
        ).insert(entries[i].0, value),
{
    let after = entries.update(i, (entries[i].0, value));
    lemma_map_upto(entries, entries.len());
    assert(distinct_keys(after)) by {
        assert forall|a: int, b: int| 0 <= a < b < after.len() implies (#[trigger] after[a]).0 != (
        #[trigger] after[b]).0 by {
            assert(after[a].0 == entries[a].0);
            assert(after[b].0 == entries[b].0);
        }
    }
    lemma_map_upto(after, entries.len());
    let left = map_upto(after, entries.len());
    let right = map_upto(entries, entries.len()).insert(entries[i].0, value);
    assert forall|key: Seq<char>| #[trigger] left.contains_key(key) == right.contains_key(key) by {
        if left.contains_key(key) {
            let j = choose|j: int| 0 <= j < entries.len() && (#[trigger] after[j]).0 == key;
            assert(entries[j].0 == key);
        }
        if right.contains_key(key) {
            let j = choose|j: int| 0 <= j < entries.len() && (#[trigger] entries[j]).0 == key;
            if key == entries[i].0 {
                assert(after[i].0 == key);
            } else {
                assert(after[j].0 == key);
            }
        }
    }
    assert forall|key: Seq<char>| #[trigger] left.contains_key(key) implies left[key]
        == right[key] by {
        let j = choose|j: int| 0 <= j < entries.len() && (#[trigger] after[j]).0 == key;
        assert(left[after[j].0] == after[j].1);
        assert(entries[j].0 == key);
        if j != i {
            if j < i {
                assert(entries[j].0 != entries[i].0);
            } else {
                assert(entries[i].0 != entries[j].0);
            }
        }
    }
    assert(left =~= right);
}

proof fn lemma_map_prefix(
    a: Seq<(Seq<char>, Seq<Seq<char>>)>,
    b: Seq<(Seq<char>, Seq<Seq<char>>)>,
    k: nat,
)
    requires
        k <= a.len(),
        k <= b.len(),
        forall|i: int| 0 <= i < k ==> a[i] == b[i],
    ensures
        map_upto(a, k) == map_upto(b, k),
    decreases k,
{
    if k > 0 {
        lemma_map_prefix(a, b, (k - 1) as nat);
    }
}

impl NameMap {
    #[verifier::type_invariant]
    spec fn well_formed(self) -> bool {
        distinct_keys(self.entries.deep_view())
    }

    /// An empty map.
    pub fn new() -> (res: NameMap)
        ensures
            res.deep_view() == Map::<Seq<char>, Seq<Seq<char>>>::empty(),
    {
        NameMap { entries: none() }
    }

    fn position(&self, key: &str) -> (res: Option<usize>)
        ensures
            res matches Some(k) ==> k < self.entries@.len() && self.entries.deep_view()[k as int].0
                == key@,
            res is None ==> forall|i: int|
                0 <= i < self.entries@.len() ==> (#[trigger] self.entries.deep_view()[i]).0 != key@,
    {
        let ghost all = self.entries.deep_view();
        let mut i: usize = 0;
        while i < self.entries.len()
            invariant
                i <= self.entries.len(),
                all == self.entries.deep_view(),
                forall|k: int| 0 <= k < i ==> (#[trigger] all[k]).0 != key@,
            decreases self.entries.len() - i,
        {
            assert(all[i as int] == self.entries@[i as int].deep_view());
            if same(self.entries[i].0.as_str(), key) {
                return Some(i);
            }
            i += 1;
        }
        None
    }

    /// The names under a key.
    pub fn get(&self, key: &str) -> (res: Option<&Vec<String>>)
        ensures
            res is Some <==> self.deep_view().contains_key(key@),
            res matches Some(list) ==> list.deep_view() == self.deep_view()[key@],
    {
        proof {
            use_type_invariant(self);
            lemma_map_upto(self.entries.deep_view(), self.entries@.len());
        }
        match self.position(key) {
            Some(k) => {
                assert(self.entries.deep_view()[k as int] == self.entries@[k as int].deep_view());
                Some(&self.entries[k].1)
            },
            None => None,
        }
    }

    /// Whether there are names under a key.
    pub fn contains_key(&self, key: &str) -> (res: bool)
        ensures
            res == self.deep_view().contains_key(key@),
    {
        self.get(key).is_some()
    }

    /// The keys, each one time.
    pub fn keys(&self) -> (res: Vec<String>)
        ensures
            res.deep_view().no_duplicates(),
            forall|key: Seq<char>|
                #[trigger] res.deep_view().contains(key) <==> self.deep_view().contains_key(key),
    {
        proof {
            use_type_invariant(self);
            lemma_map_upto(self.entries.deep_view(), self.entries@.len());
        }
        let ghost all = self.entries.deep_view();
        let mut res: Vec<String> = Vec::new();
        let mut i: usize = 0;
        while i < self.entries.len()
            invariant
                i <= self.entries.len(),
                all == self.entries.deep_view(),
                res@.len() == i,
                forall|k: int| 0 <= k < i ==> (#[trigger] res@[k])@ == all[k].0,
            decreases self.entries.len() - i,
        {
            assert(all[i as int] == self.entries@[i as int].deep_view());
            res.push(self.entries[i].0.clone());
            i += 1;
        }
        let ghost names = res.deep_view();
        assert forall|i: int, j: int| 0 <= i < names.len() && 0 <= j < names.len() && i
            != j implies names[i] != names[j] by {
            assert(names[i] == all[i].0);
            assert(names[j] == all[j].0);
            if i < j {
                assert(all[i].0 != all[j].0);
            } else {
                assert(all[j].0 != all[i].0);
            }
        }
        assert forall|key: Seq<char>| #[trigger] names.contains(key) <==> self.deep_view().contains_key(
            key,
        ) by {
            if names.contains(key) {
                let i = choose|i: int| 0 <= i < names.len() && names[i] == key;
                assert(all[i].0 == key);
            }
            if self.deep_view().contains_key(key) {
                let i = choose|i: int| 0 <= i < all.len() && (#[trigger] all[i]).0 == key;
                assert(names[i] == key);
            }
        }
        res
    }

    /// The map with a list of names put under a key.
    pub fn with(self, key: &str, list: Vec<String>) -> (res: NameMap)
        ensures
            res.deep_view() == self.deep_view().insert(key@, list.deep_view()),
    {
        proof {
            use_type_invariant(&self);
        }
        let place = self.position(key);
        let ghost before = self.entries.deep_view();
        let entry: (String, Vec<String>) = (key.to_owned(), list);
        assert(entry.deep_view() == (key@, list.deep_view()));
        let mut entries = self.entries;
        match place {
            Some(k) => {
                proof {
                    lemma_map_update(before, k as int, list.deep_view());
                }
                entries[k] = entry;
                assert(entries.deep_view() =~= before.update(k as int, (key@, list.deep_view())));
            },
            None => {
                entries.push(entry);
                let ghost after = entries.deep_view();
                proof {
                    assert(after =~= before.push((key@, list.deep_view())));
                    lemma_map_prefix(before, after, before.len());
                    assert(distinct_keys(after)) by {
                        assert forall|a: int, b: int| 0 <= a < b < after.len() implies (
                        #[trigger] after[a]).0 != (#[trigger] after[b]).0 by {
                            assert(after[a] == before[a]);
                            if b < before.len() {
                                assert(after[b] == before[b]);
                            }
                        }
                    }
                }
            },
        }
        NameMap { entries }
    }

    /// The map with a name added to those under a key, unless it is among them.
    pub fn with_name(self, key: &str, name: &str) -> (res: NameMap)
        ensures
            res.deep_view() == self.deep_view().insert(
                key@,
                with_one(names_under(self.deep_view(), key@), name@),
            ),
    {
        let mut list: Vec<String> = match self.get(key) {
            Some(found) => copy_strings(found),
            None => none(),
        };
        if !holds(&list, name) {
            emit(&mut list, name.to_owned());
        }
        self.with(key, list)
    }
}

/// The names under a key, none where there is no such key.
pub open spec fn names_under(map: Map<Seq<char>, Seq<Seq<char>>>, key: Seq<char>) -> Seq<Seq<char>> {
    if map.contains_key(key) {
        map[key]
    } else {
        Seq::empty()
    }
}

/// The list with a name added, unless it is there.
pub open spec fn with_one(list: Seq<Seq<char>>, name: Seq<char>) -> Seq<Seq<char>> {
    if list.contains(name) {
        list
    } else {
        list + seq![name]
    }
}

impl Clone for NameMap {
    fn clone(&self) -> (res: NameMap)
        ensures
            res.deep_view() == self.deep_view(),
    {
        proof {
            use_type_invariant(self);
        }
        let ghost all = self.entries.deep_view();
        let mut entries: Vec<(String, Vec<String>)> = none();
        let mut i: usize = 0;
        while i < self.entries.len()
            invariant
                i <= self.entries.len(),
                all == self.entries.deep_view(),
                entries@.len() == i,
                forall|k: int| 0 <= k < i ==> (#[trigger] entries@[k]).deep_view() == all[k],
            decreases self.entries.len() - i,
        {
            assert(all[i as int] == self.entries@[i as int].deep_view());
            let entry: (String, Vec<String>) = (
                self.entries[i].0.clone(),
                copy_strings(&self.entries[i].1),
            );
            assert(entry.deep_view() == all[i as int]);
            entries.push(entry);
            i += 1;
        }
        assert(entries.deep_view() =~= all);
        NameMap { entries }
    }
}

impl DeepView for NameMap {
    type V = Map<Seq<char>, Seq<Seq<char>>>;

    closed spec fn deep_view(&self) -> Map<Seq<char>, Seq<Seq<char>>> {
        map_upto(self.entries.deep_view(), self.entries@.len())
    }
}

} // verus!
