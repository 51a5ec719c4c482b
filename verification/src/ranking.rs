//! Stable ranking of items by a two-part key, and selection of the best few.
//!
//! Items are never moved here: a ranking is a sequence of positions into
//! the sequence of keys. An item stands ahead of another when its key
//! outranks the other's, and among items whose keys tie the one that came
//! first stays first.

use vstd::prelude::*;

verus! {

/// The key an item is ranked by: the larger `major` wins, and between equal
/// `major` parts the larger `minor` wins.
#[derive(Clone, Copy, Debug, PartialEq, Eq)]
pub struct RankKey {
    pub major: i128,
    pub minor: i64,
}

impl RankKey {
    /// `self` ranks strictly above `other`.
    pub open spec fn outranks(self, other: RankKey) -> bool {
        self.major > other.major || (self.major == other.major && self.minor > other.minor)
    }

    /// Whether `self` ranks strictly above `other`.
    pub fn beats(&self, other: &RankKey) -> (b: bool)
        ensures
            b == self.outranks(*other),
    {
        self.major > other.major || (self.major == other.major && self.minor > other.minor)
    }
}

/// Item `i` stands ahead of item `j`: its key outranks, or the keys tie and
/// `i` came first. On distinct positions this is a strict total order.
pub open spec fn precedes(keys: Seq<RankKey>, i: int, j: int) -> bool {
    keys[i].outranks(keys[j]) || (!keys[j].outranks(keys[i]) && i < j)
}

/// Every two entries of `order` stand in rank order.
pub open spec fn in_rank_order(keys: Seq<RankKey>, order: Seq<int>) -> bool {
    forall|a: int, b: int|
        #![trigger order[a], order[b]]
        0 <= a < b < order.len() ==> precedes(keys, order[a], order[b])
}

/// `order` lists every position below `n` exactly once.
pub open spec fn is_arrangement(order: Seq<int>, n: nat) -> bool {
    &&& order.len() == n
    &&& forall|k: int| 0 <= k < order.len() ==> 0 <= #[trigger] order[k] < n
    &&& forall|a: int, b: int|
        #![trigger order[a], order[b]]
        0 <= a < b < order.len() ==> order[a] != order[b]
    &&& forall|i: int| 0 <= i < n ==> #[trigger] order.contains(i)
}

/// Where item `i` enters `order`: behind the last entry that it does not
/// outrank.
pub open spec fn slot(keys: Seq<RankKey>, order: Seq<int>, i: int) -> int
    decreases order.len(),
{
    if order.len() > 0 && keys[i].outranks(keys[order.last()]) {
        slot(keys, order.drop_last(), i)
    } else {
        order.len() as int
    }
}

/// The ranking of the first `n` items: each item in turn enters the
/// ranking of those before it at its slot.
pub open spec fn rank_order(keys: Seq<RankKey>, n: nat) -> Seq<int>
    decreases n,
{
    if n == 0 {
        Seq::empty()
    } else {
        let earlier = rank_order(keys, (n - 1) as nat);
        earlier.insert(slot(keys, earlier, n - 1), n - 1)
    }
}

/// The ranking of all items.
pub open spec fn ranking(keys: Seq<RankKey>) -> Seq<int> {
    rank_order(keys, keys.len())
}

/// The first `limit` entries of `order`, or all of it where it is shorter.
pub open spec fn head(order: Seq<int>, limit: nat) -> Seq<int> {
    if limit < order.len() {
        order.take(limit as int)
    } else {
        order
    }
}

/// The `limit` best items in rank order.
pub open spec fn top_ranked(keys: Seq<RankKey>, limit: nat) -> Seq<int> {
    head(ranking(keys), limit)
}

/// Positions held in a `Vec<usize>`, as integers.
pub open spec fn as_ints(positions: Seq<usize>) -> Seq<int> {
    positions.map_values(|p: usize| p as int)
}

/// The slot lies behind every entry that `i` does not outrank and before
/// every entry after it.
pub proof fn lemma_slot_bounds(keys: Seq<RankKey>, order: Seq<int>, i: int)
    ensures
        0 <= slot(keys, order, i) <= order.len(),
        forall|k: int|
            slot(keys, order, i) <= k < order.len() ==> keys[i].outranks(keys[#[trigger] order[k]]),
        slot(keys, order, i) > 0 ==> !keys[i].outranks(keys[order[slot(keys, order, i) - 1]]),
    decreases order.len(),
{
    if order.len() > 0 && keys[i].outranks(keys[order.last()]) {
        let shorter = order.drop_last();
        lemma_slot_bounds(keys, shorter, i);
        assert forall|k: int| slot(keys, order, i) <= k < order.len() implies keys[i].outranks(
            keys[#[trigger] order[k]],
        ) by {
            if k < shorter.len() {
                assert(shorter[k] == order[k]);
            }
        }
        if slot(keys, order, i) > 0 {
            assert(shorter[slot(keys, order, i) - 1] == order[slot(keys, order, i) - 1]);
        }
    }
}

/// A position with the two properties of the slot is the slot.
pub proof fn lemma_slot_found(keys: Seq<RankKey>, order: Seq<int>, i: int, p: int)
    requires
        0 <= p <= order.len(),
        forall|k: int| p <= k < order.len() ==> keys[i].outranks(keys[#[trigger] order[k]]),
        p > 0 ==> !keys[i].outranks(keys[order[p - 1]]),
    ensures
        slot(keys, order, i) == p,
    decreases order.len(),
{
    if p < order.len() {
        let shorter = order.drop_last();
        assert(keys[i].outranks(keys[order[order.len() - 1]]));
        assert forall|k: int| p <= k < shorter.len() implies keys[i].outranks(
            keys[#[trigger] shorter[k]],
        ) by {
            assert(shorter[k] == order[k]);
        }
        if p > 0 {
            assert(shorter[p - 1] == order[p - 1]);
        }
        lemma_slot_found(keys, shorter, i, p);
    }
}

/// In a ranking, no entry before the slot of `i` is outranked by `i`.
proof fn lemma_before_slot(keys: Seq<RankKey>, order: Seq<int>, i: int)
    requires
        in_rank_order(keys, order),
    ensures
        forall|k: int|
            0 <= k < slot(keys, order, i) ==> !keys[i].outranks(keys[#[trigger] order[k]]),
{
    lemma_slot_bounds(keys, order, i);
    let s = slot(keys, order, i);
    assert forall|k: int| 0 <= k < s implies !keys[i].outranks(keys[#[trigger] order[k]]) by {
        if k < s - 1 {
            assert(precedes(keys, order[k], order[s - 1]));
        }
    }
}

/// Entering a new item at its slot keeps a ranking in rank order.
proof fn lemma_enter_keeps_rank_order(keys: Seq<RankKey>, order: Seq<int>, i: int)
    requires
        in_rank_order(keys, order),
        forall|k: int| 0 <= k < order.len() ==> #[trigger] order[k] < i,
    ensures
        in_rank_order(keys, order.insert(slot(keys, order, i), i)),
{
    lemma_slot_bounds(keys, order, i);
    lemma_before_slot(keys, order, i);
    let s = slot(keys, order, i);
    let grown = order.insert(s, i);
    order.insert_ensures(s, i);
    assert forall|a: int, b: int|
        #![trigger grown[a], grown[b]]
        0 <= a < b < grown.len() implies precedes(keys, grown[a], grown[b]) by {
        if b < s {
            assert(grown[a] == order[a] && grown[b] == order[b]);
        } else if b == s {
            assert(grown[a] == order[a]);
        } else if a < s {
            assert(grown[a] == order[a] && grown[b] == order[b - 1]);
            if a < b - 1 {
                assert(precedes(keys, order[a], order[b - 1]));
            }
        } else if a == s {
            assert(grown[b] == order[b - 1]);
        } else {
            assert(grown[a] == order[a - 1] && grown[b] == order[b - 1]);
        }
    }
}

/// Entering item `n` into an arrangement of the positions below `n` gives
/// an arrangement of the positions below `n + 1`.
proof fn lemma_enter_keeps_arrangement(order: Seq<int>, n: nat, s: int)
    requires
        is_arrangement(order, n),
        0 <= s <= order.len(),
    ensures
        is_arrangement(order.insert(s, n as int), n + 1),
{
    let grown = order.insert(s, n as int);
    order.insert_ensures(s, n as int);
    assert forall|k: int| 0 <= k < grown.len() implies 0 <= #[trigger] grown[k] < n + 1 by {
        if k < s {
            assert(grown[k] == order[k]);
        } else if k > s {
            assert(grown[k] == order[k - 1]);
        }
    }
    assert forall|a: int, b: int|
        #![trigger grown[a], grown[b]]
        0 <= a < b < grown.len() implies grown[a] != grown[b] by {
        let x = if a < s {
            a
        } else {
            a - 1
        };
        let y = if b < s {
            b
        } else {
            b - 1
        };
        if a != s && b != s {
            assert(grown[a] == order[x] && grown[b] == order[y]);
        } else if a == s {
            assert(grown[b] == order[y]);
        } else {
            assert(grown[a] == order[x]);
        }
    }
    assert forall|i: int| 0 <= i < n + 1 implies #[trigger] grown.contains(i) by {
        if i == n {
            assert(grown[s] == i);
        } else {
            assert(order.contains(i));
            let k = choose|k: int| 0 <= k < order.len() && order[k] == i;
            if k < s {
                assert(grown[k] == i);
            } else {
                assert(grown[k + 1] == i);
            }
        }
    }
}

/// The ranking of the first `n` items lists each of them once, in rank
/// order.
pub proof fn lemma_rank_order_is_ranking(keys: Seq<RankKey>, n: nat)
    ensures
        is_arrangement(rank_order(keys, n), n),
        in_rank_order(keys, rank_order(keys, n)),
    decreases n,
{
    if n > 0 {
        let earlier = rank_order(keys, (n - 1) as nat);
        lemma_rank_order_is_ranking(keys, (n - 1) as nat);
        lemma_slot_bounds(keys, earlier, n - 1);
        lemma_enter_keeps_rank_order(keys, earlier, n - 1);
        lemma_enter_keeps_arrangement(earlier, (n - 1) as nat, slot(keys, earlier, n - 1));
    }
}

/// The slot of an item depends only on how the keys compare.
proof fn lemma_slot_depends_on_comparisons(
    first: Seq<RankKey>,
    second: Seq<RankKey>,
    order: Seq<int>,
    i: int,
    n: nat,
)
    requires
        0 <= i < n,
        forall|k: int| 0 <= k < order.len() ==> 0 <= #[trigger] order[k] < n,
        forall|a: int, b: int|
            0 <= a < n && 0 <= b < n ==> #[trigger] first[a].outranks(first[b])
                == second[a].outranks(second[b]),
    ensures
        slot(first, order, i) == slot(second, order, i),
    decreases order.len(),
{
    if order.len() > 0 {
        let last = order[order.len() - 1];
        assert(first[i].outranks(first[last]) == second[i].outranks(second[last]));
        let shorter = order.drop_last();
        assert forall|k: int| 0 <= k < shorter.len() implies 0 <= #[trigger] shorter[k] < n by {
            assert(shorter[k] == order[k]);
        }
        lemma_slot_depends_on_comparisons(first, second, shorter, i, n);
    }
}

/// Two lists of keys that compare alike, pair by pair, rank alike.
pub proof fn lemma_ranking_depends_on_comparisons(
    first: Seq<RankKey>,
    second: Seq<RankKey>,
    n: nat,
)
    requires
        forall|a: int, b: int|
            0 <= a < n && 0 <= b < n ==> #[trigger] first[a].outranks(first[b])
                == second[a].outranks(second[b]),
    ensures
        rank_order(first, n) == rank_order(second, n),
    decreases n,
{
    if n > 0 {
        lemma_ranking_depends_on_comparisons(first, second, (n - 1) as nat);
        lemma_rank_order_is_ranking(first, (n - 1) as nat);
        lemma_slot_depends_on_comparisons(
            first,
            second,
            rank_order(first, (n - 1) as nat),
            n - 1,
            n,
        );
    }
}

/// The best `limit` items: there are `min(limit, len)` of them, each a
/// distinct position, they stand in rank order, and every item left out
/// stands behind every item taken.
pub proof fn lemma_top_ranked_is_best(keys: Seq<RankKey>, limit: nat)
    ensures
        top_ranked(keys, limit).len() == if limit < keys.len() {
            limit
        } else {
            keys.len()
        },
        forall|k: int|
            0 <= k < top_ranked(keys, limit).len() ==> 0 <= #[trigger] top_ranked(keys, limit)[k]
                < keys.len(),
        forall|a: int, b: int|
            #![trigger top_ranked(keys, limit)[a], top_ranked(keys, limit)[b]]
            0 <= a < b < top_ranked(keys, limit).len() ==> top_ranked(keys, limit)[a]
                != top_ranked(keys, limit)[b],
        in_rank_order(keys, top_ranked(keys, limit)),
        forall|k: int, j: int|
            #![trigger top_ranked(keys, limit)[k], keys[j]]
            0 <= k < top_ranked(keys, limit).len() && 0 <= j < keys.len() && !top_ranked(
                keys,
                limit,
            ).contains(j) ==> precedes(keys, top_ranked(keys, limit)[k], j),
{
    let all = ranking(keys);
    let top = top_ranked(keys, limit);
    lemma_rank_order_is_ranking(keys, keys.len());
    assert forall|k: int| 0 <= k < top.len() implies top[k] == all[k] by {}
    assert forall|a: int, b: int|
        #![trigger top[a], top[b]]
        0 <= a < b < top.len() implies precedes(keys, top[a], top[b]) by {
        assert(top[a] == all[a] && top[b] == all[b]);
    }
    assert forall|a: int, b: int|
        #![trigger top[a], top[b]]
        0 <= a < b < top.len() implies top[a] != top[b] by {
        assert(top[a] == all[a] && top[b] == all[b]);
    }
    assert forall|k: int, j: int|
        #![trigger top[k], keys[j]]
        0 <= k < top.len() && 0 <= j < keys.len() && !top.contains(j) implies precedes(
        keys,
        top[k],
        j,
    ) by {
        assert(all.contains(j));
        let at = choose|at: int| 0 <= at < all.len() && all[at] == j;
        if at < top.len() {
            assert(top[at] == j);
        }
        assert(top[k] == all[k]);
        assert(precedes(keys, all[k], all[at]));
    }
}

/// A list of every position, each once and in rank order, is the ranking:
/// rank order leaves no choice.
pub proof fn lemma_ranking_is_unique(keys: Seq<RankKey>, order: Seq<int>, n: nat)
    requires
        is_arrangement(order, n),
        in_rank_order(keys, order),
    ensures
        order == rank_order(keys, n),
    decreases n,
{
    if n == 0 {
        assert(order =~= rank_order(keys, n));
    } else {
        let newest = n - 1;
        assert(order.contains(newest));
        let at = choose|at: int| 0 <= at < order.len() && order[at] == newest;
        let rest = order.remove(at);
        order.remove_ensures(at);
        assert forall|k: int| 0 <= k < rest.len() implies 0 <= #[trigger] rest[k] < n - 1 by {
            if k < at {
                assert(rest[k] == order[k]);
            } else {
                assert(rest[k] == order[k + 1]);
            }
        }
        assert forall|a: int, b: int|
            #![trigger rest[a], rest[b]]
            0 <= a < b < rest.len() implies rest[a] != rest[b] && precedes(
            keys,
            rest[a],
            rest[b],
        ) by {
            let x = if a < at {
                a
            } else {
                a + 1
            };
            let y = if b < at {
                b
            } else {
                b + 1
            };
            assert(rest[a] == order[x] && rest[b] == order[y]);
        }
        assert forall|i: int| 0 <= i < n - 1 implies #[trigger] rest.contains(i) by {
            assert(order.contains(i));
            let k = choose|k: int| 0 <= k < order.len() && order[k] == i;
            if k < at {
                assert(rest[k] == i);
            } else {
                assert(rest[k - 1] == i);
            }
        }
        lemma_ranking_is_unique(keys, rest, (n - 1) as nat);
        assert forall|k: int| at <= k < rest.len() implies keys[newest].outranks(
            keys[#[trigger] rest[k]],
        ) by {
            assert(rest[k] == order[k + 1]);
            assert(precedes(keys, order[at], order[k + 1]));
        }
        if at > 0 {
            assert(rest[at - 1] == order[at - 1]);
            assert(precedes(keys, order[at - 1], order[at]));
        }
        lemma_slot_found(keys, rest, newest, at);
        assert(order =~= rest.insert(at, newest));
    }
}

/// Ranking one more item and keeping the first `limit` entries needs only
/// the first `limit` entries of the ranking so far.
proof fn lemma_head_of_next(keys: Seq<RankKey>, n: nat, limit: nat)
    ensures
        head(rank_order(keys, n + 1), limit) == ({
            let kept = head(rank_order(keys, n), limit);
            let p = slot(keys, kept, n as int);
            if p < limit {
                head(kept.insert(p, n as int), limit)
            } else {
                kept
            }
        }),
{
    let i = n as int;
    let all = rank_order(keys, n);
    let kept = head(all, limit);
    let s = slot(keys, all, i);
    lemma_rank_order_is_ranking(keys, n);
    lemma_slot_bounds(keys, all, i);
    lemma_before_slot(keys, all, i);
    all.insert_ensures(s, i);
    assert(rank_order(keys, n + 1) == all.insert(s, i));
    if all.len() <= limit {
        if s >= limit {
            assert(head(all.insert(s, i), limit) =~= kept);
        }
    } else if s >= limit {
        assert forall|k: int| limit <= k < kept.len() implies keys[i].outranks(
            keys[#[trigger] kept[k]],
        ) by {}
        if limit > 0 {
            assert(kept[limit - 1] == all[limit - 1]);
        }
        lemma_slot_found(keys, kept, i, limit as int);
        assert(head(all.insert(s, i), limit) =~= kept);
    } else {
        assert forall|k: int| s <= k < kept.len() implies keys[i].outranks(
            keys[#[trigger] kept[k]],
        ) by {
            assert(kept[k] == all[k]);
        }
        if s > 0 {
            assert(kept[s - 1] == all[s - 1]);
        }
        lemma_slot_found(keys, kept, i, s);
        kept.insert_ensures(s, i);
        assert(head(all.insert(s, i), limit) =~= head(kept.insert(s, i), limit));
    }
}

/// Selects the `limit` best items. The result holds their positions in
/// rank order: best first, and among tied keys the earlier item first.
pub fn rank_top(keys: &Vec<RankKey>, limit: usize) -> (order: Vec<usize>)
    ensures
        as_ints(order@) == top_ranked(keys@, limit as nat),
        order.len() == if limit < keys.len() {
            limit
        } else {
            keys.len()
        },
        forall|k: int| 0 <= k < order.len() ==> #[trigger] order[k] < keys.len(),
{
    let n = keys.len();
    let mut order: Vec<usize> = Vec::new();
    let mut i: usize = 0;
    assert(as_ints(order@) =~= head(rank_order(keys@, 0), limit as nat));
    while i < n
        invariant
            n == keys.len(),
            i <= n,
            as_ints(order@) == head(rank_order(keys@, i as nat), limit as nat),
        decreases n - i,
    {
        proof {
            lemma_rank_order_is_ranking(keys@, i as nat);
        }
        let ghost kept = as_ints(order@);
        let ghost all = rank_order(keys@, i as nat);
        assert(kept.len() == order.len());
        assert(kept == head(all, limit as nat));
        assert forall|k: int| 0 <= k < order.len() implies #[trigger] order[k] < i by {
            assert(kept[k] == order[k] as int);
            assert(kept[k] == all[k]);
        }
        let mut p: usize = order.len();
        while p > 0 && keys[i].beats(&keys[order[p - 1]])
            invariant
                p <= order.len(),
                i < keys.len(),
                forall|k: int| 0 <= k < order.len() ==> #[trigger] order[k] < i,
                forall|k: int|
                    p <= k < order.len() ==> keys@[i as int].outranks(
                        keys@[#[trigger] order@[k] as int],
                    ),
            decreases p,
        {
            p -= 1;
        }
        proof {
            assert forall|k: int| p <= k < kept.len() implies keys@[i as int].outranks(
                keys@[#[trigger] kept[k]],
            ) by {
                assert(kept[k] == order@[k] as int);
            }
            if p > 0 {
                assert(kept[p - 1] == order@[p - 1] as int);
            }
            lemma_slot_found(keys@, kept, i as int, p as int);
            lemma_head_of_next(keys@, i as nat, limit as nat);
        }
        if p < limit {
            order.insert(p, i);
            assert(as_ints(order@) =~= kept.insert(p as int, i as int));
            if order.len() > limit {
                order.pop();
                assert(as_ints(order@) =~= kept.insert(p as int, i as int).take(limit as int));
            }
        }
        i += 1;
    }
    proof {
        lemma_top_ranked_is_best(keys@, limit as nat);
        assert forall|k: int| 0 <= k < order.len() implies #[trigger] order[k] < keys.len() by {
            assert(as_ints(order@)[k] == order[k] as int);
        }
    }
    order
}

} // verus!
