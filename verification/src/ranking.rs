//! Picking the largest items of a list: positions in descending order of
//! size, earlier positions first among equal sizes.

use vstd::prelude::*;

verus! {

/// The sizes of a list, as natural numbers.
pub open spec fn as_sizes(values: Seq<usize>) -> Seq<nat> {
    Seq::new(values.len(), |i: int| values[i] as nat)
}

/// Position `a` is listed before position `b`: it is larger, or as large
/// and earlier.
pub open spec fn precedes(sizes: Seq<nat>, a: int, b: int) -> bool {
    sizes[a] > sizes[b] || (sizes[a] == sizes[b] && a < b)
}

/// `top` lists the position `at`.
pub open spec fn lists(top: Seq<usize>, at: int) -> bool {
    exists|p: int| 0 <= p < top.len() && #[trigger] top[p] == at
}

/// `top` holds the positions of the `count` largest of `sizes` (of all,
/// where there are fewer), each once, in the order of `precedes`.
pub open spec fn is_top_ranking(sizes: Seq<nat>, count: nat, top: Seq<usize>) -> bool {
    &&& top.len() == if count <= sizes.len() { count } else { sizes.len() }
    &&& forall|p: int| 0 <= p < top.len() ==> 0 <= #[trigger] top[p] < sizes.len()
    &&& forall|p: int, q: int|
        0 <= p < q < top.len() ==> precedes(sizes, #[trigger] top[p] as int, #[trigger] top[q] as int)
    &&& forall|at: int, p: int|
        #![trigger lists(top, at), top[p]]
        0 <= at < sizes.len() && 0 <= p < top.len() && !lists(top, at) ==> precedes(
            sizes,
            top[p] as int,
            at,
        )
    &&& sizes.len() <= count ==> forall|at: int| 0 <= at < sizes.len() ==> #[trigger] lists(top, at)
}

/// The ranking of the `count` largest of `sizes`.
pub open spec fn top_ranking(sizes: Seq<nat>, count: nat) -> Seq<usize> {
    choose|top: Seq<usize>| is_top_ranking(sizes, count, top)
}

/// Two rankings of the same sizes agree in their first `upto` entries.
proof fn lemma_rankings_agree(
    sizes: Seq<nat>,
    count: nat,
    one: Seq<usize>,
    other: Seq<usize>,
    upto: int,
)
    requires
        is_top_ranking(sizes, count, one),
        is_top_ranking(sizes, count, other),
        0 <= upto <= one.len(),
    ensures
        forall|j: int| 0 <= j < upto ==> one[j] == other[j],
    decreases upto,
{
    if upto > 0 {
        lemma_rankings_agree(sizes, count, one, other, upto - 1);
        let k = upto - 1;
        if one[k] != other[k] {
            lemma_differing_entry_follows(sizes, count, one, other, k);
            lemma_differing_entry_follows(sizes, count, other, one, k);
        }
    }
}

/// Where two rankings agree before `k` and differ at `k`, the entry of the
/// second precedes that of the first.
proof fn lemma_differing_entry_follows(
    sizes: Seq<nat>,
    count: nat,
    one: Seq<usize>,
    other: Seq<usize>,
    k: int,
)
    requires
        is_top_ranking(sizes, count, one),
        is_top_ranking(sizes, count, other),
        0 <= k < one.len(),
        forall|j: int| 0 <= j < k ==> one[j] == other[j],
        one[k] != other[k],
    ensures
        precedes(sizes, other[k] as int, one[k] as int),
{
    let x = one[k] as int;
    if lists(other, x) {
        let r = choose|p: int| 0 <= p < other.len() && #[trigger] other[p] == x;
        if r < k {
            assert(one[r] == other[r]);
            assert(precedes(sizes, one[r] as int, one[k] as int));
        } else {
            assert(precedes(sizes, other[k] as int, other[r] as int));
        }
    } else {
        assert(precedes(sizes, other[k] as int, x));
    }
}

/// There is one ranking only: what is largest, and in which order, is
/// settled by the sizes and the count.
pub proof fn lemma_ranking_is_unique(
    sizes: Seq<nat>,
    count: nat,
    one: Seq<usize>,
    other: Seq<usize>,
)
    requires
        is_top_ranking(sizes, count, one),
        is_top_ranking(sizes, count, other),
    ensures
        one == other,
        one == top_ranking(sizes, count),
{
    lemma_rankings_agree(sizes, count, one, other, one.len() as int);
    assert(one =~= other);
    let chosen = top_ranking(sizes, count);
    lemma_rankings_agree(sizes, count, one, chosen, one.len() as int);
    assert(one =~= chosen);
}

/// The ranking after one more size has been put at the end of the list:
/// its position goes in at `slot`, and the last entry leaves where the
/// ranking would grow beyond `count`.
pub open spec fn placed(top: Seq<usize>, slot: int, at: usize, count: nat) -> Seq<usize> {
    let grown = top.insert(slot, at);
    if grown.len() > count {
        grown.drop_last()
    } else {
        grown
    }
}

/// Putting the last position in behind every entry that is at least as
/// large, and before the first smaller one, keeps a ranking.
pub proof fn lemma_place_keeps_ranking(sizes: Seq<nat>, count: nat, top: Seq<usize>, slot: int)
    requires
        0 < sizes.len() <= usize::MAX,
        is_top_ranking(sizes.drop_last(), count, top),
        0 <= slot <= top.len(),
        slot < count,
        forall|q: int| 0 <= q < slot ==> sizes[#[trigger] top[q] as int] >= sizes.last(),
        slot < top.len() ==> sizes[top[slot] as int] < sizes.last(),
    ensures
        is_top_ranking(sizes, count, placed(top, slot, (sizes.len() - 1) as usize, count)),
{
    let before = sizes.drop_last();
    let at = (sizes.len() - 1) as usize;
    let grown = top.insert(slot, at);
    let next = placed(top, slot, at, count);
    assert(forall|i: int| 0 <= i < before.len() ==> before[i] == sizes[i]);
    assert forall|q: int| slot <= q < top.len() implies sizes[#[trigger] top[q] as int]
        < sizes.last() by {
        if q > slot {
            assert(precedes(before, top[slot] as int, top[q] as int));
        }
    }
    assert forall|p: int| 0 <= p < next.len() implies 0 <= #[trigger] next[p] < sizes.len() by {
        if p < slot {
            assert(next[p] == top[p]);
        } else if p > slot {
            assert(next[p] == top[p - 1]);
        }
    }
    assert forall|p: int, q: int| 0 <= p < q < next.len() implies precedes(
        sizes,
        #[trigger] next[p] as int,
        #[trigger] next[q] as int,
    ) by {
        let a = if p < slot { p } else { p - 1 };
        let b = if q < slot { q } else { q - 1 };
        if p != slot && q != slot {
            assert(next[p] == top[a] && next[q] == top[b]);
            assert(precedes(before, top[a] as int, top[b] as int));
        } else if p == slot {
            assert(next[q] == top[b]);
        } else {
            assert(next[p] == top[a]);
        }
    }
    assert(next[slot] == at);
    assert(lists(next, at as int));
    assert forall|i: int| 0 <= i < before.len() && lists(top, i) && !lists(next, i) implies top.len()
        == count && i == top.last() by {
        let w = choose|p: int| 0 <= p < top.len() && #[trigger] top[p] == i;
        if w < slot {
            assert(next[w] == i);
        } else if w + 1 < next.len() {
            assert(next[w + 1] == i);
        }
    }
    assert forall|i: int, p: int|
        #![trigger lists(next, i), next[p]]
        0 <= i < sizes.len() && 0 <= p < next.len() && !lists(next, i) implies precedes(
        sizes,
        next[p] as int,
        i,
    ) by {
        let last = top.last();
        assert(top.len() == count) by {
            if !lists(top, i) {
                if before.len() <= count {
                    assert(lists(top, i));
                }
            }
        }
        assert(sizes[last as int] < sizes.last());
        if !lists(top, i) {
            assert(precedes(before, last as int, i));
        }
        if p < slot {
            assert(next[p] == top[p]);
            if lists(top, i) {
                assert(precedes(before, top[p] as int, last as int));
            } else {
                assert(precedes(before, top[p] as int, i));
            }
        } else if p > slot {
            assert(next[p] == top[p - 1]);
            if lists(top, i) {
                assert(precedes(before, top[p - 1] as int, last as int));
            } else {
                assert(precedes(before, top[p - 1] as int, i));
            }
        }
    }
    if sizes.len() <= count {
        assert forall|i: int| 0 <= i < sizes.len() implies #[trigger] lists(next, i) by {
            if i < before.len() {
                assert(lists(top, i));
            }
        }
    }
}

/// Where the ranking is full and no entry is smaller than the last size,
/// the ranking stays as it is.
pub proof fn lemma_full_ranking_stays(sizes: Seq<nat>, count: nat, top: Seq<usize>)
    requires
        0 < sizes.len(),
        is_top_ranking(sizes.drop_last(), count, top),
        top.len() == count,
        forall|q: int| 0 <= q < top.len() ==> sizes[#[trigger] top[q] as int] >= sizes.last(),
    ensures
        is_top_ranking(sizes, count, top),
{
    let before = sizes.drop_last();
    assert(forall|i: int| 0 <= i < before.len() ==> before[i] == sizes[i]);
    assert forall|p: int, q: int| 0 <= p < q < top.len() implies precedes(
        sizes,
        #[trigger] top[p] as int,
        #[trigger] top[q] as int,
    ) by {
        assert(precedes(before, top[p] as int, top[q] as int));
    }
    assert forall|i: int, p: int|
        #![trigger lists(top, i), top[p]]
        0 <= i < sizes.len() && 0 <= p < top.len() && !lists(top, i) implies precedes(
        sizes,
        top[p] as int,
        i,
    ) by {
        if i < before.len() {
            assert(precedes(before, top[p] as int, i));
        }
    }
}

/// Where a size goes into a ranking: behind the last entry that is at
/// least as large.
pub open spec fn slot_for(sizes: Seq<nat>, top: Seq<usize>, size: nat) -> int
    decreases top.len(),
{
    if top.len() == 0 || sizes[top.last() as int] >= size {
        top.len() as int
    } else {
        slot_for(sizes, top.drop_last(), size)
    }
}

/// Every entry before the slot is at least as large as the size, and the
/// entry at the slot is smaller.
proof fn lemma_slot_for(sizes: Seq<nat>, top: Seq<usize>, size: nat)
    requires
        forall|p: int, q: int|
            0 <= p < q < top.len() ==> sizes[#[trigger] top[p] as int] >= sizes[#[trigger] top[q] as int],
    ensures
        0 <= slot_for(sizes, top, size) <= top.len(),
        forall|q: int|
            0 <= q < slot_for(sizes, top, size) ==> sizes[#[trigger] top[q] as int] >= size,
        slot_for(sizes, top, size) < top.len() ==> sizes[top[slot_for(sizes, top, size)] as int]
            < size,
    decreases top.len(),
{
    if top.len() > 0 && sizes[top.last() as int] < size {
        let front = top.drop_last();
        assert forall|p: int, q: int| 0 <= p < q < front.len() implies sizes[#[trigger] front[p] as int]
            >= sizes[#[trigger] front[q] as int] by {
            assert(front[p] == top[p] && front[q] == top[q]);
        }
        lemma_slot_for(sizes, front, size);
        let slot = slot_for(sizes, front, size);
        assert forall|q: int| 0 <= q < slot implies sizes[#[trigger] top[q] as int] >= size by {
            assert(front[q] == top[q]);
        }
        if slot < front.len() {
            assert(front[slot] == top[slot]);
        }
    } else if top.len() > 0 {
        assert forall|q: int| 0 <= q < top.len() implies sizes[#[trigger] top[q] as int]
            >= size by {
            if q < top.len() - 1 {
                assert(sizes[top[q] as int] >= sizes[top[top.len() - 1] as int]);
            }
        }
    }
}

/// Every list that the machine can index has a ranking.
pub proof fn lemma_ranking_exists(sizes: Seq<nat>, count: nat)
    requires
        sizes.len() <= usize::MAX,
    ensures
        is_top_ranking(sizes, count, top_ranking(sizes, count)),
    decreases sizes.len(),
{
    if sizes.len() == 0 {
        assert(is_top_ranking(sizes, count, Seq::<usize>::empty()));
    } else {
        let before = sizes.drop_last();
        lemma_ranking_exists(before, count);
        let top = top_ranking(before, count);
        assert forall|p: int, q: int| 0 <= p < q < top.len() implies sizes[#[trigger] top[p] as int]
            >= sizes[#[trigger] top[q] as int] by {
            assert(precedes(before, top[p] as int, top[q] as int));
        }
        lemma_slot_for(sizes, top, sizes.last());
        let slot = slot_for(sizes, top, sizes.last());
        if slot < count {
            lemma_place_keeps_ranking(sizes, count, top, slot);
        } else {
            lemma_full_ranking_stays(sizes, count, top);
        }
    }
}

/// The positions of the `count` largest sizes, largest first; among equal
/// sizes the earlier position comes first.
pub fn top_by_size(sizes: &Vec<usize>, count: usize) -> (top: Vec<usize>)
    ensures
        is_top_ranking(as_sizes(sizes@), count as nat, top@),
        top@ == top_ranking(as_sizes(sizes@), count as nat),
{
    let ghost all = as_sizes(sizes@);
    let mut top: Vec<usize> = Vec::new();
    let mut at: usize = 0;
    assert(all.take(0).len() == 0);
    while at < sizes.len()
        invariant
            at <= sizes.len(),
            all == as_sizes(sizes@),
            is_top_ranking(all.take(at as int), count as nat, top@),
        decreases sizes.len() - at,
    {
        let size = sizes[at];
        let ghost seen = all.take(at + 1);
        assert(seen.drop_last() == all.take(at as int));
        assert(seen.last() == size);
        let mut slot: usize = 0;
        while slot < top.len() && sizes[top[slot]] >= size
            invariant
                slot <= top.len(),
                at < sizes.len(),
                size == sizes[at as int],
                all == as_sizes(sizes@),
                seen == all.take(at + 1),
                is_top_ranking(all.take(at as int), count as nat, top@),
                forall|q: int| 0 <= q < slot ==> seen[#[trigger] top[q] as int] >= size,
            decreases top.len() - slot,
        {
            slot = slot + 1;
        }
        if slot < count {
            proof {
                lemma_place_keeps_ranking(seen, count as nat, top@, slot as int);
            }
            top.insert(slot, at);
            if top.len() > count {
                top.pop();
            }
        } else {
            proof {
                lemma_full_ranking_stays(seen, count as nat, top@);
            }
        }
        at = at + 1;
    }
    proof {
        assert(all.take(at as int) == all);
        lemma_ranking_is_unique(all, count as nat, top@, top@);
    }
    top
}

} // verus!
