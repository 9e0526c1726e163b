//! What holds of merging on every state and every batch.

use crate::http::Batch;
use crate::store::{spec_merge_usage, totals_of, totals_with, user_of, Totals, UserState};
use crate::tally::merged;
use vstd::prelude::*;

verus! {

/// The key-wise sum of two batches of one device.
pub open spec fn batch_sum(first: Batch, second: Batch) -> Batch {
    Batch {
        device: first.device,
        active: merged(first.active, second.active),
        open: merged(first.open, second.open),
    }
}

/// The entrywise sum of two tallies does not depend on their order.
pub proof fn lemma_merged_commutes<Id>(a: Map<Id, nat>, b: Map<Id, nat>)
    ensures
        merged(a, b) == merged(b, a),
{
    assert(merged(a, b) =~= merged(b, a));
}

/// The entrywise sum of three tallies does not depend on how they are
/// grouped.
pub proof fn lemma_merged_associates<Id>(a: Map<Id, nat>, b: Map<Id, nat>, c: Map<Id, nat>)
    ensures
        merged(merged(a, b), c) == merged(a, merged(b, c)),
{
    assert(merged(merged(a, b), c) =~= merged(a, merged(b, c)));
}

/// Adding two batches to totals one after the other gives the same totals in
/// either order.
pub proof fn lemma_totals_with_commutes(totals: Totals, first: Batch, second: Batch)
    ensures
        totals_with(totals_with(totals, first), second) == totals_with(
            totals_with(totals, second),
            first,
        ),
{
    let one = totals_with(totals_with(totals, first), second);
    let other = totals_with(totals_with(totals, second), first);
    assert(one.active =~= other.active);
    assert(one.open =~= other.open);
}

/// Adding two batches to totals one after the other gives what adding their
/// key-wise sum gives.
pub proof fn lemma_totals_with_sum(totals: Totals, first: Batch, second: Batch)
    ensures
        totals_with(totals_with(totals, first), second) == totals_with(
            totals,
            batch_sum(first, second),
        ),
{
    let one = totals_with(totals_with(totals, first), second);
    let other = totals_with(totals, batch_sum(first, second));
    assert(one.active =~= other.active);
    assert(one.open =~= other.open);
}

/// Merging is commutative: two batches, for one account or for two, merged
/// in either order leave the same state.
pub proof fn lemma_merge_usage_commutes(
    store: Map<Seq<char>, UserState>,
    account1: Seq<char>,
    batch1: Batch,
    account2: Seq<char>,
    batch2: Batch,
)
    ensures
        spec_merge_usage(spec_merge_usage(store, account1, batch1), account2, batch2)
            == spec_merge_usage(spec_merge_usage(store, account2, batch2), account1, batch1),
{
    let one = spec_merge_usage(spec_merge_usage(store, account1, batch1), account2, batch2);
    let other = spec_merge_usage(spec_merge_usage(store, account2, batch2), account1, batch1);
    if account1 == account2 {
        let user = user_of(store, account1);
        if batch1.device == batch2.device {
            lemma_totals_with_commutes(totals_of(user, batch1.device), batch1, batch2);
        }
        assert(one[account1].monitor =~= other[account1].monitor);
    }
    assert(one =~= other);
}

/// Merging two batches of one device into one account, one after the other,
/// leaves the state that merging their key-wise sum in one call leaves.
pub proof fn lemma_merge_usage_sum(
    store: Map<Seq<char>, UserState>,
    account: Seq<char>,
    batch1: Batch,
    batch2: Batch,
)
    requires
        batch1.device == batch2.device,
    ensures
        spec_merge_usage(spec_merge_usage(store, account, batch1), account, batch2)
            == spec_merge_usage(store, account, batch_sum(batch1, batch2)),
{
    let one = spec_merge_usage(spec_merge_usage(store, account, batch1), account, batch2);
    let other = spec_merge_usage(store, account, batch_sum(batch1, batch2));
    let user = user_of(store, account);
    lemma_totals_with_sum(totals_of(user, batch1.device), batch1, batch2);
    assert(one[account].monitor =~= other[account].monitor);
    assert(one =~= other);
}

/// The state after three batches were merged, one after the other.
pub open spec fn merge_three(
    store: Map<Seq<char>, UserState>,
    account1: Seq<char>,
    batch1: Batch,
    account2: Seq<char>,
    batch2: Batch,
    account3: Seq<char>,
    batch3: Batch,
) -> Map<Seq<char>, UserState> {
    spec_merge_usage(
        spec_merge_usage(spec_merge_usage(store, account1, batch1), account2, batch2),
        account3,
        batch3,
    )
}

/// Three batches merged into one state in any of the six orders leave the
/// same state.
pub proof fn lemma_merge_usage_any_order(
    store: Map<Seq<char>, UserState>,
    account1: Seq<char>,
    batch1: Batch,
    account2: Seq<char>,
    batch2: Batch,
    account3: Seq<char>,
    batch3: Batch,
)
    ensures
        merge_three(store, account1, batch1, account2, batch2, account3, batch3) == merge_three(
            store,
            account1,
            batch1,
            account3,
            batch3,
            account2,
            batch2,
        ),
        merge_three(store, account1, batch1, account2, batch2, account3, batch3) == merge_three(
            store,
            account2,
            batch2,
            account1,
            batch1,
            account3,
            batch3,
        ),
        merge_three(store, account1, batch1, account2, batch2, account3, batch3) == merge_three(
            store,
            account2,
            batch2,
            account3,
            batch3,
            account1,
            batch1,
        ),
        merge_three(store, account1, batch1, account2, batch2, account3, batch3) == merge_three(
            store,
            account3,
            batch3,
            account1,
            batch1,
            account2,
            batch2,
        ),
        merge_three(store, account1, batch1, account2, batch2, account3, batch3) == merge_three(
            store,
            account3,
            batch3,
            account2,
            batch2,
            account1,
            batch1,
        ),
{
    lemma_merge_usage_commutes(store, account1, batch1, account2, batch2);
    lemma_merge_usage_commutes(store, account1, batch1, account3, batch3);
    lemma_merge_usage_commutes(store, account2, batch2, account3, batch3);
    lemma_merge_usage_commutes(
        spec_merge_usage(store, account1, batch1),
        account2,
        batch2,
        account3,
        batch3,
    );
    lemma_merge_usage_commutes(
        spec_merge_usage(store, account2, batch2),
        account1,
        batch1,
        account3,
        batch3,
    );
    lemma_merge_usage_commutes(
        spec_merge_usage(store, account3, batch3),
        account1,
        batch1,
        account2,
        batch2,
    );
}

} // verus!
