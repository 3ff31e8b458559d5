//! Putting rows in order by a key, highest key first.
//!
//! Rows are handled by their place in a table, so that one sort serves every
//! table. Among rows of equal key the one that stands later in the table
//! comes first.

use vstd::prelude::*;

verus! {

/// Where a key goes into keys that stand highest first: before the first
/// key that is not higher than it.
pub open spec fn slot_for(sorted: Seq<i128>, key: i128) -> int
    decreases sorted.len(),
{
    if sorted.len() == 0 || sorted[0] <= key {
        0
    } else {
        1 + slot_for(sorted.drop_first(), key)
    }
}

/// The keys at some places.
pub open spec fn keys_at(keys: Seq<i128>, places: Seq<usize>) -> Seq<i128> {
    places.map_values(|p: usize| keys[p as int])
}

/// The places `0..keys.len()` in the order of their keys, highest first, a
/// later place before an earlier one of the same key.
pub open spec fn highest_first(keys: Seq<i128>) -> Seq<usize>
    decreases keys.len(),
{
    if keys.len() == 0 {
        Seq::empty()
    } else {
        let rest = highest_first(keys.drop_last());
        rest.insert(slot_for(keys_at(keys, rest), keys.last()), (keys.len() - 1) as usize)
    }
}

/// The slot lies within the sequence or at its end; every key before it is
/// higher, and the key at it, if any, is not.
pub proof fn lemma_slot_for(sorted: Seq<i128>, key: i128)
    ensures
        0 <= slot_for(sorted, key) <= sorted.len(),
        forall|i: int| 0 <= i < slot_for(sorted, key) ==> sorted[i] > key,
        slot_for(sorted, key) < sorted.len() ==> sorted[slot_for(sorted, key)] <= key,
    decreases sorted.len(),
{
    if sorted.len() == 0 || sorted[0] <= key {
    } else {
        let rest = sorted.drop_first();
        lemma_slot_for(rest, key);
        assert forall|i: int| 0 <= i < slot_for(sorted, key) implies sorted[i] > key by {
            if i > 0 {
                assert(rest[i - 1] == sorted[i]);
            }
        }
        if slot_for(rest, key) < rest.len() {
            assert(rest[slot_for(rest, key)] == sorted[slot_for(rest, key) + 1]);
        }
    }
}

/// The order holds every place exactly once, and the keys along it never
/// rise.
pub proof fn law_highest_first_sorts(keys: Seq<i128>)
    requires
        keys.len() <= usize::MAX,
    ensures
        highest_first(keys).len() == keys.len(),
        forall|i: int|
            0 <= i < keys.len() ==> 0 <= (#[trigger] highest_first(keys)[i]) < keys.len(),
        forall|p: usize| p < keys.len() ==> #[trigger] highest_first(keys).contains(p),
        forall|i: int, j: int|
            0 <= i < j < keys.len() ==> (#[trigger] highest_first(keys)[i])
                != (#[trigger] highest_first(keys)[j]),
        forall|i: int, j: int|
            0 <= i < j < keys.len() ==> keys[(#[trigger] highest_first(keys)[i]) as int]
                >= keys[(#[trigger] highest_first(keys)[j]) as int],
    decreases keys.len(),
{
    if keys.len() > 0 {
        let shorter = keys.drop_last();
        law_highest_first_sorts(shorter);
        let rest = highest_first(shorter);
        let last = (keys.len() - 1) as usize;
        let rest_keys = keys_at(keys, rest);
        let slot = slot_for(rest_keys, keys.last());
        lemma_slot_for(rest_keys, keys.last());
        let order = rest.insert(slot, last);
        assert(highest_first(keys) == order);
        assert forall|i: int| 0 <= i < rest.len() implies rest_keys[i] == shorter[rest[i] as int]
            && shorter[rest[i] as int] == keys[rest[i] as int] by {}
        assert forall|p: usize| p < keys.len() implies #[trigger] order.contains(p) by {
            if p == last {
                assert(order[slot] == p);
            } else {
                assert(rest.contains(p));
                let i = choose|i: int| 0 <= i < rest.len() && rest[i] == p;
                if i < slot {
                    assert(order[i] == p);
                } else {
                    assert(order[i + 1] == p);
                }
            }
        }
        assert forall|i: int, j: int| 0 <= i < j < keys.len() implies (#[trigger] order[i]) != (
        #[trigger] order[j]) && keys[order[i] as int] >= keys[order[j] as int] by {
            let a = if i < slot {
                i
            } else {
                i - 1
            };
            let b = if j < slot {
                j
            } else {
                j - 1
            };
            if i == slot {
                assert(order[j] == rest[b]);
                assert(rest_keys[b] == keys[rest[b] as int]);
                if b > slot {
                    assert(keys[rest[slot] as int] >= keys[rest[b] as int]);
                    assert(rest_keys[slot] == keys[rest[slot] as int]);
                }
            } else if j == slot {
                assert(order[i] == rest[a]);
                assert(rest_keys[a] == keys[rest[a] as int]);
            } else {
                assert(order[i] == rest[a]);
                assert(order[j] == rest[b]);
                assert(keys[rest[a] as int] >= keys[rest[b] as int]);
            }
        }
    }
}

/// Puts the places of a table in the order of their keys, highest first.
pub fn order_highest_first(keys: &Vec<i128>) -> (order: Vec<usize>)
    ensures
        order@ == highest_first(keys@),
        order@.len() == keys@.len(),
        forall|i: int| 0 <= i < order@.len() ==> (#[trigger] order@[i]) < keys@.len(),
{
    let mut order: Vec<usize> = Vec::new();
    let mut n: usize = 0;
    assert(keys@.take(0) =~= Seq::empty());
    while n < keys.len()
        invariant
            n <= keys@.len(),
            order@ == highest_first(keys@.take(n as int)),
            order@.len() == n,
            forall|i: int| 0 <= i < order@.len() ==> (#[trigger] order@[i]) < n,
        decreases keys@.len() - n,
    {
        let key = keys[n];
        let ghost prefix = keys@.take(n + 1);
        let ghost rest_keys = keys_at(prefix, order@);
        proof {
            assert(prefix.drop_last() =~= keys@.take(n as int));
            assert(prefix.last() == key);
            lemma_slot_for(rest_keys, key);
        }
        let mut slot: usize = 0;
        assert(rest_keys.skip(0) =~= rest_keys);
        while slot < order.len() && keys[order[slot]] > key
            invariant
                slot <= order@.len(),
                order@.len() == n,
                n < keys@.len(),
                forall|i: int| 0 <= i < order@.len() ==> (#[trigger] order@[i]) < n,
                rest_keys == keys_at(prefix, order@),
                prefix == keys@.take(n + 1),
                slot_for(rest_keys, key) == slot + slot_for(rest_keys.skip(slot as int), key),
            decreases order@.len() - slot,
        {
            proof {
                let tail = rest_keys.skip(slot as int);
                assert(tail[0] == rest_keys[slot as int]);
                assert(rest_keys[slot as int] == prefix[order@[slot as int] as int]);
                assert(tail.drop_first() =~= rest_keys.skip(slot + 1));
            }
            slot = slot + 1;
        }
        proof {
            let tail = rest_keys.skip(slot as int);
            if slot < order@.len() {
                assert(tail[0] == rest_keys[slot as int]);
                assert(rest_keys[slot as int] == prefix[order@[slot as int] as int]);
            }
            assert(slot_for(rest_keys, key) == slot);
        }
        order.insert(slot, n);
        n = n + 1;
    }
    assert(keys@.take(n as int) =~= keys@);
    order
}

} // verus!
