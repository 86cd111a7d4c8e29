//! Paths as lists of their components.

use vstd::prelude::*;

use crate::lists::{copy_strings, none, push};
use crate::tree::same;

verus! {

/// Whether a path lies at or below `base`.
pub open spec fn lies_below(path: Seq<Seq<char>>, base: Seq<Seq<char>>) -> bool {
    base.len() <= path.len() && path.take(base.len() as int) == base
}

/// Whether a path lies at or below `base`.
pub fn is_below(path: &Vec<String>, base: &Vec<String>) -> (res: bool)
    ensures
        res == lies_below(path.deep_view(), base.deep_view()),
{
    if base.len() > path.len() {
        return false;
    }
    let ghost front = path.deep_view().take(base@.len() as int);
    let mut i: usize = 0;
    while i < base.len()
        invariant
            i <= base.len() <= path.len(),
            front == path.deep_view().take(base@.len() as int),
            forall|k: int| 0 <= k < i ==> front[k] == base.deep_view()[k],
        decreases base.len() - i,
    {
        assert(front[i as int] == path@[i as int]@);
        assert(base.deep_view()[i as int] == base@[i as int]@);
        if !same(path[i].as_str(), base[i].as_str()) {
            return false;
        }
        i += 1;
    }
    assert(front =~= base.deep_view());
    true
}

/// A path as seen from `base`: the rest of it behind `base`, or the path where
/// it does not lie below `base`.
pub open spec fn seen_from(path: Seq<Seq<char>>, base: Option<Seq<Seq<char>>>) -> Seq<Seq<char>> {
    match base {
        Some(b) if lies_below(path, b) => path.skip(b.len() as int),
        _ => path,
    }
}

/// A path as seen from `base`.
pub fn relative_path(path: &Vec<String>, base: Option<&Vec<String>>) -> (res: Vec<String>)
    ensures
        res.deep_view() == seen_from(path.deep_view(), base.deep_view()),
{
    match base {
        Some(b) => {
            if !is_below(path, b) {
                return copy_strings(path);
            }
            let mut res: Vec<String> = none();
            let mut i: usize = b.len();
            let ghost rest = path.deep_view().skip(b@.len() as int);
            assert(rest.take(0) =~= Seq::empty());
            while i < path.len()
                invariant
                    b.len() <= i <= path.len(),
                    rest == path.deep_view().skip(b@.len() as int),
                    res.deep_view() == rest.take(i - b@.len()),
                decreases path.len() - i,
            {
                assert(rest[i - b@.len()] == path@[i as int]@);
                push(&mut res, path[i].clone());
                i += 1;
                assert(rest.take(i - b@.len()) =~= rest.take(i - 1 - b@.len()).push(
                    rest[i - 1 - b@.len()],
                ));
            }
            assert(rest.take(i - b@.len()) =~= rest);
            res
        },
        None => copy_strings(path),
    }
}

} // verus!
