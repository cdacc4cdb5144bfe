//! The mathematics of choosing `k` positions out of `n`: the enumeration in
//! lexicographic order, and the facts about it that the rest of the crate
//! relies on.

use vstd::prelude::*;

verus! {

/// The number of ways to choose `k` items out of `n`, by Pascal's rule.
pub open spec fn binomial(n: nat, k: nat) -> nat
    decreases n,
{
    if k == 0 {
        1
    } else if n == 0 {
        0
    } else {
        binomial((n - 1) as nat, (k - 1) as nat) + binomial((n - 1) as nat, k)
    }
}

/// Each group of `rest` with `head` put in front of it.
pub open spec fn with_head(head: int, rest: Seq<Seq<int>>) -> Seq<Seq<int>> {
    Seq::new(rest.len(), |i: int| seq![head] + rest[i])
}

/// All groups of `k` positions taken from `lo..n`, each in increasing order,
/// the groups themselves in lexicographic order.
pub open spec fn groups_from(lo: int, n: int, k: nat) -> Seq<Seq<int>>
    decreases k, n - lo,
{
    if k == 0 {
        seq![Seq::<int>::empty()]
    } else if lo >= n {
        Seq::<Seq<int>>::empty()
    } else {
        with_head(lo, groups_from(lo + 1, n, (k - 1) as nat)) + groups_from(lo + 1, n, k)
    }
}

/// All groups of `k` positions below `n`.
pub open spec fn index_groups(n: nat, k: nat) -> Seq<Seq<int>> {
    groups_from(0, n as int, k)
}

/// `g` holds positions of `lo..n` in strictly increasing order.
pub open spec fn is_increasing_within(g: Seq<int>, lo: int, n: int) -> bool {
    &&& forall|j: int| 0 <= j < g.len() ==> lo <= #[trigger] g[j] < n
    &&& forall|a: int, b: int| 0 <= a < b < g.len() ==> g[a] < g[b]
}

/// `a` comes before `b` in lexicographic order.
pub open spec fn lex_less(a: Seq<int>, b: Seq<int>) -> bool
    decreases a.len(),
{
    if a.len() == 0 || b.len() == 0 {
        a.len() < b.len()
    } else if a[0] != b[0] {
        a[0] < b[0]
    } else {
        lex_less(a.skip(1), b.skip(1))
    }
}

/// There are `binomial(n - lo, k)` groups.
pub proof fn lemma_groups_count(lo: int, n: int, k: nat)
    requires
        lo <= n,
    ensures
        groups_from(lo, n, k).len() == binomial((n - lo) as nat, k),
    decreases k, n - lo,
{
    if k == 0 {
    } else if lo >= n {
    } else {
        lemma_groups_count(lo + 1, n, (k - 1) as nat);
        lemma_groups_count(lo + 1, n, k);
    }
}

/// Every group has `k` positions of `lo..n`, in strictly increasing order.
pub proof fn lemma_groups_shape(lo: int, n: int, k: nat)
    ensures
        forall|i: int|
            0 <= i < groups_from(lo, n, k).len() ==> {
                &&& (#[trigger] groups_from(lo, n, k)[i]).len() == k
                &&& is_increasing_within(groups_from(lo, n, k)[i], lo, n)
            },
    decreases k, n - lo,
{
    if k == 0 {
    } else if lo >= n {
    } else {
        let tails = groups_from(lo + 1, n, (k - 1) as nat);
        let first = with_head(lo, tails);
        let second = groups_from(lo + 1, n, k);
        lemma_groups_shape(lo + 1, n, (k - 1) as nat);
        lemma_groups_shape(lo + 1, n, k);
        assert forall|i: int| 0 <= i < groups_from(lo, n, k).len() implies {
            &&& (#[trigger] groups_from(lo, n, k)[i]).len() == k
            &&& is_increasing_within(groups_from(lo, n, k)[i], lo, n)
        } by {
            let g = groups_from(lo, n, k)[i];
            if i < first.len() {
                let t = tails[i];
                assert(g == seq![lo] + t);
                assert(is_increasing_within(t, lo + 1, n));
                assert forall|j: int| 0 <= j < g.len() implies lo <= #[trigger] g[j] < n by {
                    if j > 0 {
                        assert(g[j] == t[j - 1]);
                    }
                }
                assert forall|a: int, b: int| 0 <= a < b < g.len() implies g[a] < g[b] by {
                    assert(g[b] == t[b - 1]);
                    if a > 0 {
                        assert(g[a] == t[a - 1]);
                    }
                }
            } else {
                assert(g == second[i - first.len()]);
                assert(is_increasing_within(g, lo + 1, n));
            }
        }
    }
}

/// The groups stand in strictly increasing lexicographic order.
pub proof fn lemma_groups_ordered(lo: int, n: int, k: nat)
    ensures
        forall|i: int, j: int|
            0 <= i < j < groups_from(lo, n, k).len() ==> lex_less(
                #[trigger] groups_from(lo, n, k)[i],
                #[trigger] groups_from(lo, n, k)[j],
            ),
    decreases k, n - lo,
{
    if k == 0 {
    } else if lo >= n {
    } else {
        let tails = groups_from(lo + 1, n, (k - 1) as nat);
        let first = with_head(lo, tails);
        let second = groups_from(lo + 1, n, k);
        let all = groups_from(lo, n, k);
        lemma_groups_ordered(lo + 1, n, (k - 1) as nat);
        lemma_groups_ordered(lo + 1, n, k);
        lemma_groups_shape(lo + 1, n, k);
        assert forall|i: int, j: int| 0 <= i < j < all.len() implies lex_less(
            #[trigger] all[i],
            #[trigger] all[j],
        ) by {
            if j < first.len() {
                assert(all[i] == seq![lo] + tails[i]);
                assert(all[j] == seq![lo] + tails[j]);
                assert(all[i].skip(1) =~= tails[i]);
                assert(all[j].skip(1) =~= tails[j]);
                assert(lex_less(tails[i], tails[j]));
            } else if i < first.len() {
                let g = second[j - first.len()];
                assert(all[i] == seq![lo] + tails[i]);
                assert(all[j] == g);
                assert(is_increasing_within(g, lo + 1, n));
                assert(g.len() == k);
                assert(g[0] > lo);
            } else {
                assert(all[i] == second[i - first.len()]);
                assert(all[j] == second[j - first.len()]);
            }
        }
    }
}

/// Every increasing choice of `k` positions from `lo..n` is one of the groups.
pub proof fn lemma_groups_complete(lo: int, n: int, k: nat, g: Seq<int>) -> (i: int)
    requires
        g.len() == k,
        is_increasing_within(g, lo, n),
    ensures
        0 <= i < groups_from(lo, n, k).len(),
        groups_from(lo, n, k)[i] == g,
    decreases k, n - lo,
{
    if k == 0 {
        assert(g =~= Seq::<int>::empty());
        0
    } else {
        assert(lo <= g[0] < n);
        let tails = groups_from(lo + 1, n, (k - 1) as nat);
        let first = with_head(lo, tails);
        if g[0] == lo {
            let t = g.skip(1);
            assert forall|j: int| 0 <= j < t.len() implies lo + 1 <= #[trigger] t[j] < n by {
                assert(t[j] == g[j + 1]);
                assert(g[0] < g[j + 1]);
            }
            assert forall|a: int, b: int| 0 <= a < b < t.len() implies t[a] < t[b] by {
                assert(t[a] == g[a + 1]);
                assert(t[b] == g[b + 1]);
            }
            let i = lemma_groups_complete(lo + 1, n, (k - 1) as nat, t);
            assert(first[i] == seq![lo] + tails[i]);
            assert(seq![lo] + t =~= g);
            i
        } else {
            assert forall|j: int| 0 <= j < g.len() implies lo + 1 <= #[trigger] g[j] < n by {
                if j > 0 {
                    assert(g[0] < g[j]);
                }
            }
            let i = lemma_groups_complete(lo + 1, n, k, g);
            first.len() + i
        }
    }
}

/// Choosing more positions than there are gives no group.
pub proof fn lemma_no_groups_beyond(lo: int, n: int, k: nat)
    requires
        lo <= n,
        k > n - lo,
    ensures
        groups_from(lo, n, k).len() == 0,
    decreases k, n - lo,
{
    if lo < n {
        lemma_no_groups_beyond(lo + 1, n, (k - 1) as nat);
        lemma_no_groups_beyond(lo + 1, n, k);
    }
}

/// Where two sequences of one length stand in lexicographic order, there is a
/// first position at which they differ, and the earlier one is smaller there.
pub proof fn lemma_lex_less_position(a: Seq<int>, b: Seq<int>) -> (p: int)
    requires
        a.len() == b.len(),
        lex_less(a, b),
    ensures
        0 <= p < a.len(),
        a[p] < b[p],
        forall|q: int| 0 <= q < p ==> a[q] == b[q],
    decreases a.len(),
{
    if a[0] != b[0] {
        0
    } else {
        let p = lemma_lex_less_position(a.skip(1), b.skip(1));
        assert(a.skip(1)[p] == a[p + 1]);
        assert(b.skip(1)[p] == b[p + 1]);
        assert forall|q: int| 0 <= q < p + 1 implies a[q] == b[q] by {
            if q > 0 {
                assert(a.skip(1)[q - 1] == a[q]);
                assert(b.skip(1)[q - 1] == b[q]);
            }
        }
        p + 1
    }
}

} // verus!
