//! Tallies: seconds counted per key, and how two tallies add up.

use crate::table::{Key, Table};
use vstd::prelude::*;

verus! {

/// The seconds that `tally` holds for `id`: zero where it has no entry.
pub open spec fn count<Id>(tally: Map<Id, nat>, id: Id) -> nat {
    if tally.contains_key(id) {
        tally[id]
    } else {
        0
    }
}

/// The entrywise sum of two tallies: an entry for each key that either
/// holds, with the sum of what both hold for it.
pub open spec fn merged<Id>(base: Map<Id, nat>, more: Map<Id, nat>) -> Map<Id, nat> {
    Map::new(
        |id: Id| base.contains_key(id) || more.contains_key(id),
        |id: Id| count(base, id) + count(more, id),
    )
}

/// Every count of `tally` fits a `u32`.
pub open spec fn in_range<Id>(tally: Map<Id, nat>) -> bool {
    forall|id: Id| tally.contains_key(id) ==> #[trigger] tally[id] <= u32::MAX
}

/// The entries of `more` for the first `n` of `ids`.
pub open spec fn first_entries<Id>(more: Map<Id, nat>, ids: Seq<Id>, n: int) -> Map<Id, nat> {
    Map::new(|id: Id| ids.take(n).contains(id), |id: Id| more[id])
}

/// A tally: seconds counted per key.
pub type Tally<K> = Table<K, u32>;

/// The seconds that `tally` holds for `key`.
pub fn seconds<K: Key>(tally: &Tally<K>, key: &K) -> (secs: u32)
    ensures
        secs == count(tally@, key.id()),
{
    match tally.get(key) {
        Some(held) => *held,
        None => 0,
    }
}

/// Adds `secs` seconds to what `tally` holds for `key`.
pub fn add_seconds<K: Key>(tally: &mut Tally<K>, key: &K, secs: u32)
    requires
        count(old(tally)@, key.id()) + secs <= u32::MAX,
    ensures
        final(tally)@ == old(tally)@.insert(
            key.id(),
            (count(old(tally)@, key.id()) + secs) as nat,
        ),
{
    let held = seconds(tally, key);
    tally.insert(key.clone_key(), held + secs);
}

/// Whether each sum of what `base` and `more` hold for a key fits a `u32`.
pub fn sums_fit<K: Key>(base: &Tally<K>, more: &Tally<K>) -> (b: bool)
    ensures
        b == in_range(merged(base@, more@)),
{
    let n = more.len();
    let mut i: usize = 0;
    while i < n
        invariant
            i <= n,
            n == more.ids().len(),
            more.ids_fit(),
            forall|j: int|
                0 <= j < i ==> count(base@, #[trigger] more.ids()[j]) + more@[more.ids()[j]]
                    <= u32::MAX,
        decreases n - i,
    {
        let key = more.key_at(i);
        let held = seconds(base, key);
        let extra = *more.value_at(i);
        if extra > u32::MAX - held {
            proof {
                let id = key.id();
                assert(merged(base@, more@).contains_key(id));
                assert(merged(base@, more@)[id] > u32::MAX);
            }
            return false;
        }
        i += 1;
    }
    proof {
        let sum = merged(base@, more@);
        assert forall|id: K::Id| sum.contains_key(id) implies #[trigger] sum[id] <= u32::MAX by {
            if more@.contains_key(id) {
                assert(more.ids().contains(id));
                let j = choose|j: int| 0 <= j < more.ids().len() && more.ids()[j] == id;
                assert(count(base@, more.ids()[j]) + more@[more.ids()[j]] <= u32::MAX);
            } else {
                base.lemma_value_stored(id);
            }
        }
    }
    true
}

/// Adds to `base`, key by key, what `more` holds.
pub fn absorb<K: Key>(base: &mut Tally<K>, more: &Tally<K>)
    requires
        in_range(merged(old(base)@, more@)),
    ensures
        final(base)@ == merged(old(base)@, more@),
{
    let ghost start = base@;
    let n = more.len();
    let mut i: usize = 0;
    assert(base@ =~= merged(start, first_entries(more@, more.ids(), 0)));
    while i < n
        invariant
            i <= n,
            n == more.ids().len(),
            more.ids_fit(),
            in_range(merged(start, more@)),
            base@ == merged(start, first_entries(more@, more.ids(), i as int)),
        decreases n - i,
    {
        let key = more.key_at(i);
        let extra = *more.value_at(i);
        let ghost id = key.id();
        let ghost ids = more.ids();
        let ghost before = first_entries(more@, ids, i as int);
        let ghost after = first_entries(more@, ids, i + 1);
        proof {
            assert(ids[i as int] == id);
            let done = ids.take(i as int);
            assert(!done.contains(id)) by {
                if done.contains(id) {
                    let j = choose|j: int| 0 <= j < done.len() && done[j] == id;
                    assert(ids[j] == ids[i as int]);
                }
            }
            assert(count(base@, id) == count(start, id));
            assert(merged(start, more@).contains_key(id));
            assert(merged(start, more@)[id] == count(start, id) + extra);
        }
        add_seconds(base, key, extra);
        proof {
            let done = ids.take(i as int);
            let next = ids.take(i + 1);
            assert(next =~= done.push(id));
            assert forall|k: K::Id| after.contains_key(k) <==> (before.contains_key(k) || k
                == id) by {
                if done.contains(k) {
                    let j = choose|j: int| 0 <= j < done.len() && done[j] == k;
                    assert(next[j] == k);
                }
                if next.contains(k) && k != id {
                    let j = choose|j: int| 0 <= j < next.len() && next[j] == k;
                    assert(done[j] == k);
                }
                assert(next[i as int] == id);
            }
            assert(base@ =~= merged(start, after));
        }
        i += 1;
    }
    proof {
        let ids = more.ids();
        assert(ids.take(n as int) =~= ids);
        assert(first_entries(more@, ids, n as int) =~= more@);
    }
}

} // verus!
