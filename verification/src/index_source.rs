//! The lazy source of index groups, provided by the `itertools` crate.

use vstd::prelude::*;
use crate::subsets::index_groups;

verus! {

/// A lazy source of index groups: `itertools::structs::Combinations` over a
/// range of positions. Verus sees nothing inside it; what it will hand out is
/// named by [`pending_groups`].
#[verifier::external_body]
pub struct IndexSource {
    inner: itertools::structs::Combinations<std::ops::Range<usize>>,
}

/// The groups that a source has yet to hand out, in the order in which they
/// will come.
pub uninterp spec fn pending_groups(source: IndexSource) -> Seq<Seq<int>>;

/// The positions held by a vector of indices.
pub open spec fn positions(v: Seq<usize>) -> Seq<int> {
    Seq::new(v.len(), |i: int| v[i] as int)
}

/// `Itertools::combinations` on the range `0..n`, for a group size from one
/// up to `n`: a source that will hand out every group of `k` positions below
/// `n`, each group in increasing order and the groups in lexicographic order.
#[verifier::external_body]
pub(crate) fn start_index_groups(n: usize, k: usize) -> (source: IndexSource)
    requires
        1 <= k <= n,
    ensures
        pending_groups(source) == index_groups(n as nat, k as nat),
{
    IndexSource { inner: itertools::Itertools::combinations(0..n, k) }
}

/// `Iterator::next` of `itertools::structs::Combinations`: hands out the first
/// pending group and leaves the others pending; `None` once none is left.
#[verifier::external_body]
pub(crate) fn next_index_group(source: &mut IndexSource) -> (group: Option<Vec<usize>>)
    ensures
        match group {
            Some(v) => pending_groups(*old(source)).len() > 0
                && positions(v@) == pending_groups(*old(source))[0]
                && pending_groups(*final(source)) == pending_groups(*old(source)).skip(1),
            None => pending_groups(*old(source)).len() == 0
                && pending_groups(*final(source)).len() == 0,
        },
{
    source.inner.next()
}


} // verus!
