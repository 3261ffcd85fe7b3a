//! Stable ranking of positions by descending key.
//!
//! A ranking of `n` positions lists each of them once, a position with a
//! greater key before one with a smaller key, and of two positions with equal
//! keys the lower one first.

use vstd::prelude::*;

verus! {

/// The key of position `i`; positions without a key count as zero.
pub open spec fn key_at(keys: Seq<i64>, i: usize) -> int {
    if i < keys.len() {
        keys[i as int] as int
    } else {
        0
    }
}

/// Position `a` is ranked before position `b`.
pub open spec fn precedes(keys: Seq<i64>, a: usize, b: usize) -> bool {
    key_at(keys, a) > key_at(keys, b) || (key_at(keys, a) == key_at(keys, b) && a < b)
}

/// Where a new position `i` goes into `order`: behind the last position whose
/// key is not smaller.
pub open spec fn insert_point(order: Seq<usize>, keys: Seq<i64>, i: usize) -> int
    decreases order.len(),
{
    if order.len() == 0 {
        0
    } else if key_at(keys, order.last()) >= key_at(keys, i) {
        order.len() as int
    } else {
        insert_point(order.drop_last(), keys, i)
    }
}

/// The ranking of the first `n` positions.
pub open spec fn ranking(keys: Seq<i64>, n: nat) -> Seq<usize>
    decreases n,
{
    if n == 0 {
        Seq::empty()
    } else {
        let order = ranking(keys, (n - 1) as nat);
        order.insert(insert_point(order, keys, (n - 1) as usize), (n - 1) as usize)
    }
}

/// Every two entries of `order` stand in ranked order.
pub open spec fn is_ranked(order: Seq<usize>, keys: Seq<i64>) -> bool {
    forall|a: int, b: int| 0 <= a < b < order.len() ==> precedes(keys, order[a], order[b])
}

/// The insert point splits `order` into keys that are not smaller, then keys
/// that are smaller.
pub proof fn lemma_insert_point(order: Seq<usize>, keys: Seq<i64>, i: usize)
    ensures
        0 <= insert_point(order, keys, i) <= order.len(),
        forall|j: int|
            insert_point(order, keys, i) <= j < order.len() ==> key_at(keys, order[j]) < key_at(
                keys,
                i,
            ),
        insert_point(order, keys, i) > 0 ==> key_at(
            keys,
            order[insert_point(order, keys, i) - 1],
        ) >= key_at(keys, i),
    decreases order.len(),
{
    if order.len() > 0 && key_at(keys, order.last()) < key_at(keys, i) {
        let front = order.drop_last();
        lemma_insert_point(front, keys, i);
        assert forall|j: int| insert_point(order, keys, i) <= j < order.len() implies key_at(
            keys,
            order[j],
        ) < key_at(keys, i) by {
            if j < front.len() {
                assert(front[j] == order[j]);
            }
        }
    }
}

/// A ranking of `n` positions has `n` entries, all below `n`, in ranked
/// order, and holds every position below `n`.
pub proof fn lemma_ranking(keys: Seq<i64>, n: nat)
    requires
        n <= usize::MAX,
    ensures
        ranking(keys, n).len() == n,
        forall|k: int| 0 <= k < n ==> #[trigger] ranking(keys, n)[k] < n,
        is_ranked(ranking(keys, n), keys),
        forall|j: usize| j < n ==> ranking(keys, n).contains(j),
    decreases n,
{
    if n > 0 {
        let m = (n - 1) as nat;
        let i = m as usize;
        let order = ranking(keys, m);
        lemma_ranking(keys, m);
        lemma_insert_point(order, keys, i);
        let p = insert_point(order, keys, i);
        let next = order.insert(p, i);
        assert forall|a: int, b: int| 0 <= a < b < next.len() implies precedes(
            keys,
            next[a],
            next[b],
        ) by {
            if b < p {
            } else if b == p {
                if p > 0 {
                    assert(a == p - 1 || precedes(keys, order[a], order[p - 1]));
                }
            } else if a == p {
                assert(next[b] == order[b - 1]);
            } else if a < p {
                assert(next[b] == order[b - 1]);
            } else {
                assert(next[a] == order[a - 1]);
                assert(next[b] == order[b - 1]);
            }
        }
        assert forall|j: usize| j < n implies next.contains(j) by {
            if j == i {
                assert(next[p] == j);
            } else {
                assert(j < m);
                assert(order.contains(j));
                let k = choose|k: int| 0 <= k < order.len() && order[k] == j;
                if k < p {
                    assert(next[k] == j);
                } else {
                    assert(next[k + 1] == j);
                }
            }
        }
    }
}

/// Keys along a ranking never increase.
pub proof fn lemma_ranking_descends(keys: Seq<i64>, n: nat, a: int, b: int)
    requires
        n <= usize::MAX,
        0 <= a <= b < n,
    ensures
        key_at(keys, ranking(keys, n)[a]) >= key_at(keys, ranking(keys, n)[b]),
{
    lemma_ranking(keys, n);
    if a < b {
        assert(precedes(keys, ranking(keys, n)[a], ranking(keys, n)[b]));
    }
}

fn key_of(keys: &Vec<i64>, i: usize) -> (k: i64)
    ensures
        k == key_at(keys@, i),
{
    if i < keys.len() {
        keys[i]
    } else {
        0
    }
}

/// Ranks the first `n` positions by `keys`.
pub fn rank(keys: &Vec<i64>, n: usize) -> (order: Vec<usize>)
    ensures
        order@ == ranking(keys@, n as nat),
{
    let mut order: Vec<usize> = Vec::new();
    let mut i: usize = 0;
    while i < n
        invariant
            i <= n,
            order@ == ranking(keys@, i as nat),
        decreases n - i,
    {
        let k = key_of(keys, i);
        proof {
            lemma_ranking(keys@, i as nat);
        }
        let mut p: usize = order.len();
        assert(order@.take(p as int) =~= order@);
        while p > 0 && key_of(keys, order[p - 1]) < k
            invariant
                p <= order.len(),
                k == key_at(keys@, i),
                insert_point(order@, keys@, i) == insert_point(order@.take(p as int), keys@, i),
            decreases p,
        {
            assert(order@.take(p as int).drop_last() =~= order@.take(p - 1));
            p -= 1;
        }
        assert(insert_point(order@, keys@, i) == p) by {
            if p > 0 {
                assert(order@.take(p as int).last() == order@[p - 1]);
            }
        }
        order.insert(p, i);
        i += 1;
    }
    order
}

/// The first `limit` entries of the ranking of the first `n` positions.
pub fn rank_top(keys: &Vec<i64>, n: usize, limit: usize) -> (order: Vec<usize>)
    ensures
        order@ == ranking(keys@, n as nat).take(if limit < n { limit as int } else { n as int }),
{
    let mut order = rank(keys, n);
    proof {
        lemma_ranking(keys@, n as nat);
    }
    if limit < n {
        order.truncate(limit);
    } else {
        assert(order@.take(n as int) =~= order@);
    }
    order
}

} // verus!
