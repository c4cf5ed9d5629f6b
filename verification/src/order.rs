//! The order of the table: descending by rank, and stable.
//!
//! `ordered` says which arrangement a sort produces. The laws below say what
//! that arrangement is: it is descending, it keeps the entries of every rank
//! in the order they had, and it is the only arrangement with both
//! properties. Ranks are integers, so the order is total whatever the
//! readings are.

use crate::network::NetworkView;
use crate::tui::SortingStrategy;
use vstd::prelude::*;

verus! {

/// Whether every entry ranks at least as high as all entries behind it.
pub open spec fn descending(s: Seq<NetworkView>, by: SortingStrategy) -> bool {
    forall|i: int, j: int|
        #![trigger s[i], s[j]]
        0 <= i < j < s.len() ==> s[i].rank(by) >= s[j].rank(by)
}

/// The entries of `s` that rank exactly `rank`, in the order they have in `s`.
pub open spec fn tier(s: Seq<NetworkView>, by: SortingStrategy, rank: int) -> Seq<NetworkView>
    decreases s.len(),
{
    if s.len() == 0 {
        s
    } else if s.last().rank(by) == rank {
        tier(s.drop_last(), by, rank).push(s.last())
    } else {
        tier(s.drop_last(), by, rank)
    }
}

/// Where `x` joins `s`: directly behind the last entry that ranks at least as
/// high as `x`, and in front when there is no such entry.
pub open spec fn slot(s: Seq<NetworkView>, x: NetworkView, by: SortingStrategy) -> int
    decreases s.len(),
{
    if s.len() == 0 {
        0
    } else if s.last().rank(by) >= x.rank(by) {
        s.len() as int
    } else {
        slot(s.drop_last(), x, by)
    }
}

/// The arrangement of `s` by descending rank in which entries of equal rank
/// keep their order: each entry in turn joins the arrangement of the entries
/// before it.
pub open spec fn ordered(s: Seq<NetworkView>, by: SortingStrategy) -> Seq<NetworkView>
    decreases s.len(),
{
    if s.len() == 0 {
        s
    } else {
        let front = ordered(s.drop_last(), by);
        front.insert(slot(front, s.last(), by), s.last())
    }
}

/// The slot lies within the sequence, everything from it on ranks lower than
/// the newcomer, and the entry before it does not.
pub proof fn lemma_slot_divides(s: Seq<NetworkView>, x: NetworkView, by: SortingStrategy)
    ensures
        0 <= slot(s, x, by) <= s.len(),
        forall|k: int| slot(s, x, by) <= k < s.len() ==> (#[trigger] s[k]).rank(by) < x.rank(by),
        slot(s, x, by) > 0 ==> s[slot(s, x, by) - 1].rank(by) >= x.rank(by),
    decreases s.len(),
{
    if s.len() > 0 && s.last().rank(by) < x.rank(by) {
        lemma_slot_divides(s.drop_last(), x, by);
        assert forall|k: int| slot(s, x, by) <= k < s.len() implies (#[trigger] s[k]).rank(by)
            < x.rank(by) by {
            if k < s.len() - 1 {
                assert(s[k] == s.drop_last()[k]);
            }
        }
    }
}

/// A position with the two properties of `lemma_slot_divides` is the slot.
pub proof fn lemma_slot_found(s: Seq<NetworkView>, x: NetworkView, by: SortingStrategy, at: int)
    requires
        0 <= at <= s.len(),
        forall|k: int| at <= k < s.len() ==> (#[trigger] s[k]).rank(by) < x.rank(by),
        at > 0 ==> s[at - 1].rank(by) >= x.rank(by),
    ensures
        slot(s, x, by) == at,
    decreases s.len(),
{
    if s.len() > at {
        let rest = s.drop_last();
        assert forall|k: int| at <= k < rest.len() implies (#[trigger] rest[k]).rank(by) < x.rank(
            by,
        ) by {
            assert(rest[k] == s[k]);
        }
        lemma_slot_found(rest, x, by, at);
    }
}

/// Ordering neither adds nor drops an entry.
pub proof fn lemma_ordered_len(s: Seq<NetworkView>, by: SortingStrategy)
    ensures
        ordered(s, by).len() == s.len(),
    decreases s.len(),
{
    if s.len() > 0 {
        let front = ordered(s.drop_last(), by);
        lemma_ordered_len(s.drop_last(), by);
        lemma_slot_divides(front, s.last(), by);
    }
}

/// Ordering rearranges: every entry occurs as often after as before.
pub proof fn lemma_ordered_permutes(s: Seq<NetworkView>, by: SortingStrategy)
    ensures
        ordered(s, by).to_multiset() == s.to_multiset(),
    decreases s.len(),
{
    if s.len() > 0 {
        let front = ordered(s.drop_last(), by);
        lemma_ordered_permutes(s.drop_last(), by);
        lemma_slot_divides(front, s.last(), by);
        vstd::seq_lib::to_multiset_insert(front, slot(front, s.last(), by), s.last());
        s.drop_last().to_multiset_ensures();
        assert(s.drop_last().push(s.last()) =~= s);
    }
}

/// An entry is in the ordered sequence exactly if it is in the sequence that
/// was ordered.
pub proof fn lemma_ordered_contains(s: Seq<NetworkView>, by: SortingStrategy, x: NetworkView)
    ensures
        ordered(s, by).contains(x) <==> s.contains(x),
{
    lemma_ordered_permutes(s, by);
    s.to_multiset_ensures();
    ordered(s, by).to_multiset_ensures();
    assert(s.contains(x) <==> s.to_multiset().count(x) > 0);
    assert(ordered(s, by).contains(x) <==> ordered(s, by).to_multiset().count(x) > 0);
}

/// A newcomer that joins a descending sequence at its slot leaves it
/// descending.
pub proof fn lemma_join_descending(s: Seq<NetworkView>, x: NetworkView, by: SortingStrategy)
    requires
        descending(s, by),
    ensures
        descending(s.insert(slot(s, x, by), x), by),
{
    let at = slot(s, x, by);
    let all = s.insert(at, x);
    lemma_slot_divides(s, x, by);
    s.insert_ensures(at, x);
    assert forall|i: int, j: int| 0 <= i < j < all.len() implies all[i].rank(by) >= all[j].rank(
        by,
    ) by {
        let before_i = if i < at {
            s[i]
        } else {
            s[i - 1]
        };
        let before_j = if j < at {
            s[j]
        } else {
            s[j - 1]
        };
        if i != at {
            assert(all[i] == before_i) by {
                if i > at {
                    assert(all[(i - 1) + 1] == s[i - 1]);
                }
            }
        }
        if j != at {
            assert(all[j] == before_j) by {
                if j > at {
                    assert(all[(j - 1) + 1] == s[j - 1]);
                }
            }
        }
        if j == at {
            assert(s[i].rank(by) >= x.rank(by)) by {
                if i < at - 1 {
                    assert(s[i].rank(by) >= s[at - 1].rank(by));
                }
            }
        } else if i == at {
            assert(s[j - 1].rank(by) < x.rank(by));
        } else if i < at && j > at {
            assert(s[i].rank(by) >= s[j - 1].rank(by));
        } else if i < at {
            assert(s[i].rank(by) >= s[j].rank(by));
        } else {
            assert(s[i - 1].rank(by) >= s[j - 1].rank(by));
        }
    }
}

/// Sort correctness: the ordered sequence is descending.
pub proof fn lemma_ordered_descending(s: Seq<NetworkView>, by: SortingStrategy)
    ensures
        descending(ordered(s, by), by),
    decreases s.len(),
{
    if s.len() > 0 {
        lemma_ordered_descending(s.drop_last(), by);
        lemma_join_descending(ordered(s.drop_last(), by), s.last(), by);
    }
}

/// Sort correctness, pair by pair: in the ordered sequence each entry ranks
/// at least as high as the one that follows it.
pub proof fn lemma_ordered_neighbours(s: Seq<NetworkView>, by: SortingStrategy, i: int)
    requires
        0 <= i,
        i + 1 < s.len(),
    ensures
        ordered(s, by)[i].rank(by) >= ordered(s, by)[i + 1].rank(by),
{
    lemma_ordered_descending(s, by);
    lemma_ordered_len(s, by);
}

/// The tier of a concatenation is the concatenation of the tiers.
pub proof fn lemma_tier_concat(
    a: Seq<NetworkView>,
    b: Seq<NetworkView>,
    by: SortingStrategy,
    rank: int,
)
    ensures
        tier(a + b, by, rank) == tier(a, by, rank) + tier(b, by, rank),
    decreases b.len(),
{
    if b.len() == 0 {
        assert(a + b =~= a);
        assert(tier(a, by, rank) + tier(b, by, rank) =~= tier(a, by, rank));
    } else {
        lemma_tier_concat(a, b.drop_last(), by, rank);
        assert((a + b).drop_last() =~= a + b.drop_last());
        assert((a + b).last() == b.last());
        if b.last().rank(by) == rank {
            assert((tier(a, by, rank) + tier(b.drop_last(), by, rank)).push(b.last()) =~= tier(
                a,
                by,
                rank,
            ) + tier(b.drop_last(), by, rank).push(b.last()));
        }
    }
}

/// A tier holds entries of the sequence, all of its rank; and every entry of
/// the sequence is in the tier of its rank.
pub proof fn lemma_tier_members(s: Seq<NetworkView>, by: SortingStrategy, rank: int)
    ensures
        tier(s, by, rank).len() <= s.len(),
        forall|i: int|
            0 <= i < tier(s, by, rank).len() ==> (#[trigger] tier(s, by, rank)[i]).rank(by) == rank
                && s.contains(tier(s, by, rank)[i]),
        forall|i: int|
            0 <= i < s.len() && (#[trigger] s[i]).rank(by) == rank ==> tier(s, by, rank).contains(
                s[i],
            ),
    decreases s.len(),
{
    if s.len() > 0 {
        let rest = s.drop_last();
        let t = tier(s, by, rank);
        lemma_tier_members(rest, by, rank);
        assert forall|i: int| 0 <= i < t.len() implies (#[trigger] t[i]).rank(by) == rank
            && s.contains(t[i]) by {
            if i < tier(rest, by, rank).len() {
                let e = tier(rest, by, rank)[i];
                assert(t[i] == e);
                let j = choose|j: int| 0 <= j < rest.len() && rest[j] == e;
                assert(s[j] == e);
            } else {
                assert(t[i] == s[s.len() - 1]);
            }
        }
        assert forall|i: int| 0 <= i < s.len() && (#[trigger] s[i]).rank(by) == rank implies t.contains(
            s[i],
        ) by {
            if i < rest.len() {
                assert(rest[i] == s[i]);
                let j = choose|j: int|
                    0 <= j < tier(rest, by, rank).len() && tier(rest, by, rank)[j] == s[i];
                assert(t[j] == s[i]);
            } else {
                assert(t[t.len() - 1] == s[i]);
            }
        }
    }
}

/// Joining at a position behind which no entry has the newcomer's rank
/// gives every tier what joining at the end gives it.
pub proof fn lemma_insert_keeps_tiers(
    s: Seq<NetworkView>,
    at: int,
    x: NetworkView,
    by: SortingStrategy,
    rank: int,
)
    requires
        0 <= at <= s.len(),
        forall|k: int| at <= k < s.len() ==> (#[trigger] s[k]).rank(by) != x.rank(by),
    ensures
        tier(s.insert(at, x), by, rank) == tier(s.push(x), by, rank),
{
    let head = s.subrange(0, at);
    let tail = s.subrange(at, s.len() as int);
    assert(s =~= head + tail);
    assert(s.insert(at, x) =~= head.push(x) + tail);
    assert(s.push(x).drop_last() =~= s);
    assert(head.push(x).drop_last() =~= head);
    lemma_tier_concat(head, tail, by, rank);
    lemma_tier_concat(head.push(x), tail, by, rank);
    if x.rank(by) == rank {
        lemma_tier_members(tail, by, rank);
        if tier(tail, by, rank).len() > 0 {
            let e = tier(tail, by, rank)[0];
            let j = choose|j: int| 0 <= j < tail.len() && tail[j] == e;
            assert(tail[j] == s[at + j]);
        }
        assert(tier(head, by, rank) + tier(tail, by, rank) =~= tier(head, by, rank));
        assert(tier(head, by, rank).push(x) + tier(tail, by, rank) =~= tier(head, by, rank).push(
            x,
        ));
    }
}

/// Sort stability: the entries of every rank keep the order they had.
pub proof fn lemma_ordered_stable(s: Seq<NetworkView>, by: SortingStrategy, rank: int)
    ensures
        tier(ordered(s, by), by, rank) == tier(s, by, rank),
    decreases s.len(),
{
    if s.len() > 0 {
        let front = ordered(s.drop_last(), by);
        let x = s.last();
        lemma_ordered_stable(s.drop_last(), by, rank);
        lemma_slot_divides(front, x, by);
        lemma_insert_keeps_tiers(front, slot(front, x, by), x, by, rank);
        assert(front.push(x).drop_last() =~= front);
    }
}

/// Without its last entry a sequence loses that entry from the tier of its
/// rank, and nothing from any other tier.
pub proof fn lemma_tier_drop_last(s: Seq<NetworkView>, by: SortingStrategy, rank: int)
    requires
        s.len() > 0,
    ensures
        tier(s.drop_last(), by, rank) == (if s.last().rank(by) == rank {
            tier(s, by, rank).drop_last()
        } else {
            tier(s, by, rank)
        }),
        s.last().rank(by) == rank ==> tier(s, by, rank).len() > 0 && tier(s, by, rank).last()
            == s.last(),
{
    if s.last().rank(by) == rank {
        assert(tier(s.drop_last(), by, rank).push(s.last()).drop_last() =~= tier(
            s.drop_last(),
            by,
            rank,
        ));
    }
}

/// A descending sequence without its last entry is descending.
pub proof fn lemma_descending_drop_last(s: Seq<NetworkView>, by: SortingStrategy)
    requires
        s.len() > 0,
        descending(s, by),
    ensures
        descending(s.drop_last(), by),
{
    let rest = s.drop_last();
    assert forall|i: int, j: int| 0 <= i < j < rest.len() implies rest[i].rank(by) >= rest[j].rank(
        by,
    ) by {
        assert(s[i].rank(by) >= s[j].rank(by));
    }
}

/// In a descending sequence no entry ranks lower than the last.
pub proof fn lemma_last_is_lowest(s: Seq<NetworkView>, by: SortingStrategy, x: NetworkView)
    requires
        descending(s, by),
        s.contains(x),
    ensures
        x.rank(by) >= s.last().rank(by),
{
    let i = choose|i: int| 0 <= i < s.len() && s[i] == x;
    if i < s.len() - 1 {
        assert(s[i].rank(by) >= s[s.len() - 1].rank(by));
    }
}

/// Descending sequences with the same tiers end in the same entry.
pub proof fn lemma_same_last(a: Seq<NetworkView>, b: Seq<NetworkView>, by: SortingStrategy)
    requires
        descending(a, by),
        descending(b, by),
        forall|rank: int| tier(a, by, rank) == tier(b, by, rank),
        a.len() > 0,
    ensures
        b.len() > 0,
        a.last() == b.last(),
{
    let x = a.last();
    let low = x.rank(by);
    lemma_tier_drop_last(a, by, low);
    assert(tier(b, by, low) == tier(a, by, low));
    lemma_tier_members(b, by, low);
    assert(b.len() > 0);
    let y = b.last();
    let high = y.rank(by);
    lemma_tier_drop_last(b, by, high);
    assert(tier(a, by, high) == tier(b, by, high));
    // `a` holds an entry of the rank of `y`, and `b` one of the rank of `x`.
    lemma_tier_members(a, by, high);
    let in_a = tier(a, by, high)[0];
    assert(a.contains(in_a) && in_a.rank(by) == high);
    lemma_last_is_lowest(a, by, in_a);
    let in_b = tier(b, by, low)[0];
    assert(b.contains(in_b) && in_b.rank(by) == low);
    lemma_last_is_lowest(b, by, in_b);
    assert(high == low);
}

/// Descending sequences with the same tiers are the same sequence.
pub proof fn lemma_descending_unique(a: Seq<NetworkView>, b: Seq<NetworkView>, by: SortingStrategy)
    requires
        descending(a, by),
        descending(b, by),
        forall|rank: int| tier(a, by, rank) == tier(b, by, rank),
    ensures
        a == b,
    decreases a.len(),
{
    if a.len() == 0 {
        if b.len() > 0 {
            lemma_tier_drop_last(b, by, b.last().rank(by));
            assert(tier(a, by, b.last().rank(by)).len() == 0);
        }
        assert(a =~= b);
    } else {
        lemma_same_last(a, b, by);
        assert forall|rank: int| tier(a.drop_last(), by, rank) == tier(b.drop_last(), by, rank) by {
            lemma_tier_drop_last(a, by, rank);
            lemma_tier_drop_last(b, by, rank);
            assert(tier(a, by, rank) == tier(b, by, rank));
        }
        lemma_descending_drop_last(a, by);
        lemma_descending_drop_last(b, by);
        lemma_descending_unique(a.drop_last(), b.drop_last(), by);
        assert(a =~= a.drop_last().push(a.last()));
        assert(b =~= b.drop_last().push(b.last()));
    }
}

/// The ordered sequence is the only descending arrangement that keeps every
/// tier of the sequence that was ordered.
pub proof fn lemma_ordered_unique(s: Seq<NetworkView>, t: Seq<NetworkView>, by: SortingStrategy)
    requires
        descending(t, by),
        forall|rank: int| tier(t, by, rank) == tier(s, by, rank),
    ensures
        t == ordered(s, by),
{
    lemma_ordered_descending(s, by);
    assert forall|rank: int| tier(t, by, rank) == tier(ordered(s, by), by, rank) by {
        lemma_ordered_stable(s, by, rank);
    }
    lemma_descending_unique(t, ordered(s, by), by);
}

/// Ordering a sequence that is descending already changes nothing; in
/// particular, ordering twice gives what ordering once gives.
pub proof fn lemma_ordered_settles(s: Seq<NetworkView>, by: SortingStrategy)
    ensures
        descending(s, by) ==> ordered(s, by) == s,
        ordered(ordered(s, by), by) == ordered(s, by),
{
    if descending(s, by) {
        lemma_ordered_unique(s, s, by);
    }
    lemma_ordered_descending(s, by);
    lemma_ordered_unique(ordered(s, by), ordered(s, by), by);
}

} // verus!
