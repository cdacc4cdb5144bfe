//! The combination generator: every group of `k` chunks out of a pool, handed
//! out one at a time.

use vstd::prelude::*;
use crate::generate::Chunk;
use crate::index_source::{next_index_group, pending_groups, positions, start_index_groups, IndexSource};
use crate::subsets::{
    binomial, index_groups, is_increasing_within, lemma_groups_complete, lemma_groups_count,
    lemma_groups_ordered, lemma_groups_shape, lemma_lex_less_position, lemma_no_groups_beyond,
    lex_less,
};

verus! {

/// The positions of every group of `k` items out of `n`, in the order in which
/// the groups are handed out. A group size of zero gives no group.
pub open spec fn group_positions(n: nat, k: nat) -> Seq<Seq<int>> {
    if k == 0 {
        Seq::<Seq<int>>::empty()
    } else {
        index_groups(n, k)
    }
}

/// The items of `pool` at the positions `at`, in that order.
pub open spec fn pick<T>(pool: Seq<T>, at: Seq<int>) -> Seq<T> {
    Seq::new(at.len(), |j: int| pool[at[j]])
}

/// One group of items for each group of positions.
pub open spec fn pick_each<T>(pool: Seq<T>, groups: Seq<Seq<int>>) -> Seq<Seq<T>> {
    Seq::new(groups.len(), |i: int| pick(pool, groups[i]))
}

/// Every group of `k` items of `pool`: each keeps the pool's order, and the
/// groups come in lexicographic order of their positions.
pub open spec fn all_groups<T>(pool: Seq<T>, k: nat) -> Seq<Seq<T>> {
    pick_each(pool, group_positions(pool.len(), k))
}

/// Every position in every group lies below `n`.
pub open spec fn positions_below(groups: Seq<Seq<int>>, n: int) -> bool {
    forall|i: int, j: int|
        0 <= i < groups.len() && 0 <= j < groups[i].len() ==> 0 <= #[trigger] groups[i][j] < n
}

/// The groups of a pool of chunks that have not been handed out yet.
pub struct ChunkGroups {
    chunks: Vec<Chunk>,
    source: Option<IndexSource>,
}

impl ChunkGroups {
    /// The chunks that the groups are taken from.
    pub closed spec fn pool(&self) -> Seq<Chunk> {
        self.chunks@
    }

    /// The positions of the groups still to come.
    pub closed spec fn pending(&self) -> Seq<Seq<int>> {
        match self.source {
            Some(source) => pending_groups(source),
            None => Seq::<Seq<int>>::empty(),
        }
    }

    /// Every group still to come lies within the pool.
    pub open spec fn wf(&self) -> bool {
        positions_below(self.pending(), self.pool().len() as int)
    }

    /// The groups still to come, in order.
    pub open spec fn remaining(&self) -> Seq<Seq<Chunk>> {
        pick_each(self.pool(), self.pending())
    }

    /// Hands out the next group, or `None` when every group has been handed out.
    pub fn next_group(&mut self) -> (group: Option<Vec<Chunk>>)
        requires
            old(self).wf(),
        ensures
            final(self).wf(),
            final(self).pool() == old(self).pool(),
            match group {
                Some(g) => old(self).remaining().len() > 0 && g@ == old(self).remaining()[0]
                    && final(self).remaining() == old(self).remaining().skip(1),
                None => old(self).remaining().len() == 0 && final(self).remaining().len() == 0,
            },
    {
        let ghost before = self.pending();
        let next = match &mut self.source {
            Some(source) => next_index_group(source),
            None => None,
        };
        match next {
            None => None,
            Some(at) => {
                proof {
                    assert(self.pending() == before.skip(1));
                    assert forall|i: int, j: int|
                        0 <= i < self.pending().len() && 0 <= j < self.pending()[i].len() implies 0
                        <= #[trigger] self.pending()[i][j] < self.pool().len() by {
                        assert(self.pending()[i] == before[i + 1]);
                        assert(before[i + 1][j] < self.pool().len());
                    }
                    assert(self.remaining() =~= old(self).remaining().skip(1));
                }
                let mut group: Vec<Chunk> = Vec::new();
                let mut j: usize = 0;
                while j < at.len()
                    invariant
                        j <= at.len(),
                        positions(at@) == before[0],
                        before.len() > 0,
                        positions_below(before, self.chunks@.len() as int),
                        group@ == pick(self.chunks@, before[0]).take(j as int),
                    decreases at.len() - j,
                {
                    assert(positions(at@)[j as int] == at@[j as int] as int);
                    assert(0 <= before[0][j as int] < self.chunks@.len());
                    let chunk = self.chunks[at[j]].duplicate();
                    group.push(chunk);
                    j += 1;
                    assert(group@ =~= pick(self.chunks@, before[0]).take(j as int));
                }
                assert(group@ =~= pick(self.chunks@, before[0]));
                Some(group)
            },
        }
    }
}

/// Starts the enumeration of every group of `k` chunks. Where `k` is zero or
/// exceeds the number of chunks there is no group.
pub fn combinations(chunks: Vec<Chunk>, k: usize) -> (groups: ChunkGroups)
    ensures
        groups.wf(),
        groups.pool() == chunks@,
        groups.remaining() == all_groups(chunks@, k as nat),
{
    let source = if 1 <= k && k <= chunks.len() {
        Some(start_index_groups(chunks.len(), k))
    } else {
        None
    };
    let groups = ChunkGroups { chunks, source };
    proof {
        let n = groups.pool().len();
        lemma_groups_shape(0, n as int, k as nat);
        if k > n {
            lemma_no_groups_beyond(0, n as int, k as nat);
        }
        assert(groups.pending() =~= group_positions(n, k as nat));
        assert forall|i: int, j: int|
            0 <= i < groups.pending().len() && 0 <= j < groups.pending()[i].len() implies 0
            <= #[trigger] groups.pending()[i][j] < n by {
            assert(is_increasing_within(groups.pending()[i], 0, n as int));
        }
    }
    groups
}

/// Every group of `k` chunks at once, in the order of the enumeration.
pub fn all_combinations(chunks: Vec<Chunk>, k: usize) -> (all: Vec<Vec<Chunk>>)
    ensures
        all@.len() == all_groups(chunks@, k as nat).len(),
        forall|i: int| 0 <= i < all@.len() ==> (#[trigger] all@[i])@ == all_groups(chunks@, k as nat)[i],
{
    let ghost expected = all_groups(chunks@, k as nat);
    let mut groups = combinations(chunks, k);
    let mut all: Vec<Vec<Chunk>> = Vec::new();
    loop
        invariant
            groups.wf(),
            all@.len() <= expected.len(),
            groups.remaining() == expected.skip(all@.len() as int),
            forall|i: int| 0 <= i < all@.len() ==> (#[trigger] all@[i])@ == expected[i],
        ensures
            all@.len() == expected.len(),
            forall|i: int| 0 <= i < all@.len() ==> (#[trigger] all@[i])@ == expected[i],
        decreases groups.remaining().len(),
    {
        match groups.next_group() {
            None => {
                break ;
            },
            Some(g) => {
                assert(expected.skip(all@.len() as int)[0] == expected[all@.len() as int]);
                assert(expected.skip(all@.len() as int).skip(1) =~= expected.skip(all@.len() as int + 1));
                all.push(g);
            },
        }
    }
    all
}

/// The labels of the chunks of a group, as a set.
pub open spec fn id_set(group: Seq<Chunk>) -> Set<Seq<char>> {
    Set::new(|id: Seq<char>| exists|j: int| 0 <= j < group.len() && group[j].chunk_id@ == id)
}

/// No two chunks of the pool carry the same label.
pub open spec fn ids_differ(pool: Seq<Chunk>) -> bool {
    forall|a: int, b: int| 0 <= a < b < pool.len() ==> pool[a].chunk_id@ != pool[b].chunk_id@
}

/// For a group size from one up to the size of the pool, there are as many
/// groups as there are ways to choose that many items out of the pool.
pub proof fn law_group_count<T>(pool: Seq<T>, k: nat)
    requires
        1 <= k <= pool.len(),
    ensures
        all_groups(pool, k).len() == binomial(pool.len(), k),
{
    lemma_groups_count(0, pool.len() as int, k);
}

/// A group size of zero, or one beyond the size of the pool, gives no group.
pub proof fn law_no_groups<T>(pool: Seq<T>, k: nat)
    requires
        k == 0 || k > pool.len(),
    ensures
        all_groups(pool, k).len() == 0,
{
    if k > 0 {
        lemma_no_groups_beyond(0, pool.len() as int, k);
    }
}

/// Every group has `k` members, taken from increasing positions of the pool:
/// a group keeps the order in which its members stand in the pool.
pub proof fn law_group_shape<T>(pool: Seq<T>, k: nat, i: int)
    requires
        0 <= i < all_groups(pool, k).len(),
    ensures
        all_groups(pool, k)[i].len() == k,
        group_positions(pool.len(), k)[i].len() == k,
        is_increasing_within(group_positions(pool.len(), k)[i], 0, pool.len() as int),
        all_groups(pool, k)[i] == pick(pool, group_positions(pool.len(), k)[i]),
{
    lemma_groups_shape(0, pool.len() as int, k);
}

/// The groups come in lexicographic order of their positions: of two groups,
/// the one handed out first has the smaller position where they first differ.
pub proof fn law_groups_in_order(n: nat, k: nat, i: int, j: int)
    requires
        0 <= i < j < group_positions(n, k).len(),
    ensures
        lex_less(group_positions(n, k)[i], group_positions(n, k)[j]),
{
    lemma_groups_ordered(0, n as int, k);
}

/// Every choice of `k` increasing positions of the pool, for `k` at least
/// one, is the choice of one of the groups.
pub proof fn law_groups_complete(n: nat, k: nat, choice: Seq<int>) -> (i: int)
    requires
        k >= 1,
        choice.len() == k,
        is_increasing_within(choice, 0, n as int),
    ensures
        0 <= i < group_positions(n, k).len(),
        group_positions(n, k)[i] == choice,
{
    lemma_groups_complete(0, n as int, k, choice)
}

/// Where no two chunks of the pool carry one label, no two groups hold the
/// same set of labels.
pub proof fn law_groups_differ(pool: Seq<Chunk>, k: nat, i: int, j: int)
    requires
        ids_differ(pool),
        0 <= i < j < all_groups(pool, k).len(),
    ensures
        id_set(all_groups(pool, k)[i]) != id_set(all_groups(pool, k)[j]),
{
    let n = pool.len();
    let a = group_positions(n, k)[i];
    let b = group_positions(n, k)[j];
    lemma_groups_shape(0, n as int, k);
    lemma_groups_ordered(0, n as int, k);
    let p = lemma_lex_less_position(a, b);
    let first = all_groups(pool, k)[i];
    let second = all_groups(pool, k)[j];
    let id = pool[a[p]].chunk_id@;
    assert(first[p].chunk_id@ == id);
    assert(id_set(first).contains(id));
    if id_set(second).contains(id) {
        let q = choose|q: int| 0 <= q < second.len() && second[q].chunk_id@ == id;
        assert(second[q] == pool[b[q]]);
        assert(0 <= b[q] < n && 0 <= a[p] < n);
        if b[q] < a[p] {
        } else if b[q] > a[p] {
        }
        assert(b[q] == a[p]);
        if q < p {
            assert(b[q] == a[q]);
            assert(a[q] < a[p]);
        } else if q > p {
            assert(b[p] < b[q]);
        }
        assert(false);
    }
}

} // verus!
