//! Laws that hold across calls and states of the entity store.
//!
//! Each proof function here states one guarantee of the store over the
//! abstract state [`StoreView`]: how identifiers relate across any
//! sequence of successful write operations, what a well-formed state
//! says about identifiers and references, and what a farm that no milk
//! record names sums to. The per-call guarantees they rest on are the
//! `ensures` of the operations in [`crate::store`], and
//! [`EntityStore::lemma_view_wf`] supplies [`view_wf`] for every
//! reachable store.

use vstd::prelude::*;

use crate::entities::MilkRecordView;
use crate::store::{farm_exists, revenue_sum, view_wf, StoreView};

verus! {

/// One successful write operation as seen through its `ensures`: it
/// returned the entity identifier `id` and advanced the shared counter
/// just past it.
pub open spec fn allocation_step(pre: StoreView, post: StoreView, id: u64) -> bool {
    id == pre.next_id && post.next_id == pre.next_id + 1
}

/// Identifiers strictly increase in call order: whatever operations
/// run in between (the counter never decreases), a later successful
/// write returns a strictly larger identifier than an earlier one, so
/// no identifier is ever returned twice.
pub proof fn lemma_ids_strictly_increase(
    s0: StoreView,
    s1: StoreView,
    s2: StoreView,
    s3: StoreView,
    first: u64,
    second: u64,
)
    requires
        allocation_step(s0, s1, first),
        s1.next_id <= s2.next_id,
        allocation_step(s2, s3, second),
    ensures
        second > first,
{
}

/// In a well-formed state every stored identifier is unique: no two
/// entities, of the same type or of different types, share one.
pub proof fn lemma_state_ids_distinct(v: StoreView)
    requires
        view_wf(v),
    ensures
        forall|i: int, j: int|
            0 <= i < v.farms.len() && 0 <= j < v.farms.len() && i != j ==> v.farms[i].id
                != v.farms[j].id,
        forall|i: int, j: int|
            0 <= i < v.animals.len() && 0 <= j < v.animals.len() && i != j ==> v.animals[i].id
                != v.animals[j].id,
        forall|i: int, j: int|
            0 <= i < v.milks.len() && 0 <= j < v.milks.len() && i != j ==> v.milks[i].id
                != v.milks[j].id,
        forall|i: int, j: int|
            0 <= i < v.expenses.len() && 0 <= j < v.expenses.len() && i != j ==> v.expenses[i].id
                != v.expenses[j].id,
        forall|i: int, j: int|
            0 <= i < v.feeds.len() && 0 <= j < v.feeds.len() && i != j ==> v.feeds[i].id
                != v.feeds[j].id,
        forall|i: int, j: int|
            0 <= i < v.farms.len() && 0 <= j < v.animals.len() ==> v.farms[i].id
                != v.animals[j].id,
        forall|i: int, j: int|
            0 <= i < v.farms.len() && 0 <= j < v.milks.len() ==> v.farms[i].id != v.milks[j].id,
{
}

/// Referential integrity of every reachable state: each animal, milk
/// record, expense and feed purchase names a farm that exists in the
/// state.
pub proof fn lemma_referential_integrity(v: StoreView)
    requires
        view_wf(v),
    ensures
        forall|i: int| 0 <= i < v.animals.len() ==> farm_exists(v, v.animals[i].farm_id),
        forall|i: int| 0 <= i < v.milks.len() ==> farm_exists(v, v.milks[i].farm_id),
        forall|i: int| 0 <= i < v.expenses.len() ==> farm_exists(v, v.expenses[i].farm_id),
        forall|i: int| 0 <= i < v.feeds.len() ==> farm_exists(v, v.feeds[i].farm_id),
{
}

/// The revenue total of a farm that no milk record names is zero.
pub proof fn lemma_revenue_sum_no_records(milks: Seq<MilkRecordView>, farm_id: u64)
    requires
        forall|i: int| 0 <= i < milks.len() ==> milks[i].farm_id != farm_id,
    ensures
        revenue_sum(milks, farm_id) == 0,
    decreases milks.len(),
{
    if milks.len() > 0 {
        lemma_revenue_sum_no_records(milks.drop_last(), farm_id);
    }
}

/// A farm identifier that is not yet allocated is named by no milk
/// record, so a freshly created farm starts with zero total revenue:
/// creating a farm from a well-formed state `v` gives it the
/// identifier `v.next_id` and leaves the milk records unchanged, and
/// summing those records for that identifier yields zero.
pub proof fn lemma_fresh_farm_revenue_zero(v: StoreView, farm_id: u64)
    requires
        view_wf(v),
        farm_id >= v.next_id,
    ensures
        forall|i: int| 0 <= i < v.milks.len() ==> v.milks[i].farm_id != farm_id,
        revenue_sum(v.milks, farm_id) == 0,
{
    assert forall|i: int| 0 <= i < v.milks.len() implies v.milks[i].farm_id != farm_id by {
        let k = v.milks[i].farm_id;
        let j = choose|j: int| 0 <= j < v.farms.len() && v.farms[j].id == k;
        assert(v.farms[j].id < v.next_id);
    }
    lemma_revenue_sum_no_records(v.milks, farm_id);
}

} // verus!
