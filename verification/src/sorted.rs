//! Paths in order, as `air format --check` lists the files it would change.
use vstd::prelude::*;

use itertools::Itertools;

use crate::path::{lemma_path_order, path_lt, FsPath, PathOrder};

verus! {

/// Compares two paths component by component, for sorting.
pub fn path_ordering(a: &FsPath, b: &FsPath) -> (r: std::cmp::Ordering)
    ensures
        r == std::cmp::Ordering::Less <==> path_lt(a@, b@),
        r == std::cmp::Ordering::Equal <==> a@ == b@,
        r == std::cmp::Ordering::Greater <==> path_lt(b@, a@),
{
    match a.compare(b) {
        PathOrder::Less => std::cmp::Ordering::Less,
        PathOrder::Equal => std::cmp::Ordering::Equal,
        PathOrder::Greater => std::cmp::Ordering::Greater,
    }
}

/// No path comes after the one that follows it.
pub open spec fn sorted_paths(v: Seq<FsPath>) -> bool {
    forall|i: int| 0 <= i < v.len() - 1 ==> !path_lt(#[trigger] v[i + 1]@, v[i]@)
}

/// `Itertools::sorted_unstable_by(path_ordering)`: the same paths, sorted by
/// [path_ordering]. The comparison is a total order ([lemma_path_order]), so the
/// standard library's unstable sort that itertools calls sorts by it.
#[verifier::external_body]
fn itertools_sorted_by_path(paths: Vec<FsPath>) -> (r: Vec<FsPath>)
    ensures
        r@.to_multiset() == paths@.to_multiset(),
        sorted_paths(r@),
{
    paths.into_iter().sorted_unstable_by(path_ordering).collect()
}

/// The paths in order, so that the files that would change are listed in a stable
/// order.
pub fn sorted_changed_paths(paths: Vec<FsPath>) -> (r: Vec<FsPath>)
    ensures
        r@.to_multiset() == paths@.to_multiset(),
        forall|i: int, j: int| 0 <= i < j < r@.len() ==> !path_lt(#[trigger] r@[j]@, #[trigger] r@[i]@),
{
    let r = itertools_sorted_by_path(paths);
    proof {
        lemma_path_order();
        assert forall|i: int, j: int| 0 <= i < j < r@.len() implies !path_lt(
            #[trigger] r@[j]@,
            #[trigger] r@[i]@,
        ) by {
            lemma_sorted_pairwise(r@, i, j);
        }
    }
    r
}

proof fn lemma_sorted_pairwise(v: Seq<FsPath>, i: int, j: int)
    requires
        sorted_paths(v),
        0 <= i < j < v.len(),
    ensures
        !path_lt(v[j]@, v[i]@),
    decreases j - i,
{
    lemma_path_order();
    if j > i + 1 {
        lemma_sorted_pairwise(v, i, j - 1);
        assert(!path_lt(v[(j - 1) + 1]@, v[j - 1]@));
        if path_lt(v[j]@, v[i]@) {
            if v[j]@ != v[j - 1]@ {
                assert(path_lt(v[j - 1]@, v[j]@));
            }
        }
    } else {
        assert(v[i + 1] == v[j]);
    }
}

} // verus!
