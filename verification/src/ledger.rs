//! What each tracking call does to the stores it holds, as plain functions on
//! those stores. The tracker calls them once it has the locks.

use vstd::prelude::*;
use std::collections::HashMap;
use vstd::std_specs::iter::IteratorSpec;
use crate::estimate::{estimate_type_size, estimated_size};
use crate::model::{
    in_balance, lemma_call_keeps_balance, lemma_live_bytes_split, live_bytes, Call, TrackerModel,
};
use crate::types::{models, AllocationInfo, AllocationModel, MemoryStats};

verus! {

broadcast use vstd::std_specs::hash::group_hash_axioms;

/// The live allocations by address, each record with its texts as characters.
pub open spec fn active_model(active: Map<usize, AllocationInfo>) -> Map<usize, AllocationModel> {
    active.map_values(|a: AllocationInfo| a@)
}

/// The record that `associated` leaves at `ptr`: the one found there with its
/// names replaced, or a new one of the estimated size, made at `now`.
pub open spec fn associated_entry(
    active: Map<usize, AllocationModel>,
    ptr: usize,
    var_name: Seq<char>,
    type_label: Seq<char>,
    now: u128,
) -> AllocationModel {
    if active.contains_key(ptr) {
        AllocationModel {
            ptr: active[ptr].ptr,
            size: active[ptr].size,
            timestamp_alloc: active[ptr].timestamp_alloc,
            var_name: Some(var_name),
            type_label: Some(type_label),
        }
    } else {
        AllocationModel {
            ptr,
            size: estimated_size(type_label),
            timestamp_alloc: now,
            var_name: Some(var_name),
            type_label: Some(type_label),
        }
    }
}

/// The live allocations after a variable and its type were associated with `ptr`.
pub open spec fn associated(
    active: Map<usize, AllocationModel>,
    ptr: usize,
    var_name: Seq<char>,
    type_label: Seq<char>,
    now: u128,
) -> Map<usize, AllocationModel> {
    active.insert(ptr, associated_entry(active, ptr, var_name, type_label, now))
}

/// Every record is found under its own address.
pub open spec fn keyed_by_address(active: Map<usize, AllocationModel>) -> bool {
    forall|p: usize| active.contains_key(p) ==> (#[trigger] active[p]).ptr == p
}

/// `keys` lists every address of `active` once, and `entries` holds the
/// records found under them, in that order.
pub open spec fn enumerates(
    keys: Seq<usize>,
    active: Map<usize, AllocationModel>,
    entries: Seq<AllocationModel>,
) -> bool {
    &&& keys.no_duplicates()
    &&& keys.to_set() == active.dom()
    &&& entries.len() == keys.len()
    &&& forall|i: int| 0 <= i < keys.len() ==> entries[i] == active[#[trigger] keys[i]]
}

/// `entries` holds each record of `active` once, in some order.
pub open spec fn is_snapshot(
    entries: Seq<AllocationModel>,
    active: Map<usize, AllocationModel>,
) -> bool {
    exists|keys: Seq<usize>| enumerates(keys, active, entries)
}

/// Enters an allocation under its address, in place of any record already
/// there, and counts it. Totals that agreed with the live allocations still
/// do, provided the address was not live and the counters have room.
pub fn apply_allocation(
    active: &mut HashMap<usize, AllocationInfo>,
    stats: &mut MemoryStats,
    allocation: AllocationInfo,
)
    ensures
        active_model(final(active)@) == active_model(old(active)@).insert(
            allocation.ptr,
            allocation@,
        ),
        *final(stats) == old(stats).after_allocation(allocation.size),
        in_balance(active_model(old(active)@), *old(stats)) && !active_model(
            old(active)@,
        ).contains_key(allocation.ptr) && old(stats).active_allocations < usize::MAX && old(
            stats,
        ).active_memory + allocation.size <= usize::MAX ==> in_balance(
            active_model(final(active)@),
            *final(stats),
        ),
        keyed_by_address(active_model(old(active)@)) ==> keyed_by_address(
            active_model(final(active)@),
        ),
{
    let ghost before = TrackerModel {
        active: active_model(active@),
        history: Seq::empty(),
        stats: *stats,
    };
    let size = allocation.size;
    active.insert(allocation.ptr, allocation);
    stats.record_allocation(size);
    assert(active_model(active@) =~= before.active.insert(allocation.ptr, allocation@));
    proof {
        let call = Call::Allocation { record: allocation@ };
        if before.balanced() && before.follows(call) {
            lemma_call_keeps_balance(before, call);
        }
    }
}

/// Adds an accepted allocation at the end of the history. What the history
/// held stays as it was.
pub fn append_history(history: &mut Vec<AllocationInfo>, allocation: AllocationInfo)
    ensures
        models(final(history)@) == models(old(history)@).push(allocation@),
{
    history.push(allocation);
    assert(models(history@) =~= models(old(history)@).push(allocation@));
}

/// Removes the record at `ptr`, if there is one, and counts its release.
/// An address that is not tracked changes nothing. Totals that agreed with
/// the live allocations still do.
pub fn apply_deallocation(
    active: &mut HashMap<usize, AllocationInfo>,
    stats: &mut MemoryStats,
    ptr: usize,
)
    ensures
        active_model(final(active)@) == active_model(old(active)@).remove(ptr),
        *final(stats) == if active_model(old(active)@).contains_key(ptr) {
            old(stats).after_deallocation(active_model(old(active)@)[ptr].size)
        } else {
            *old(stats)
        },
        in_balance(active_model(old(active)@), *old(stats)) ==> in_balance(
            active_model(final(active)@),
            *final(stats),
        ),
        keyed_by_address(active_model(old(active)@)) ==> keyed_by_address(
            active_model(final(active)@),
        ),
{
    let ghost before = TrackerModel {
        active: active_model(active@),
        history: Seq::empty(),
        stats: *stats,
    };
    match active.remove(&ptr) {
        Some(allocation) => {
            stats.record_deallocation(allocation.size);
        },
        None => {},
    }
    assert(active_model(active@) =~= before.active.remove(ptr));
    proof {
        let call = Call::Deallocation { ptr };
        if before.balanced() {
            lemma_call_keeps_balance(before, call);
            assert(before.after(call).active =~= before.active.remove(ptr));
        }
    }
}

/// Attaches a variable name and a type to the record at `ptr`. Where no record
/// is there, enters one of the size estimated for the type; the totals do not
/// count it. Where a record is there, the live allocations hold as many
/// bytes as before.
pub fn apply_association(
    active: &mut HashMap<usize, AllocationInfo>,
    ptr: usize,
    var_name: String,
    type_label: String,
)
    ensures
        exists|now: u128|
            active_model(final(active)@) == #[trigger] associated(
                active_model(old(active)@),
                ptr,
                var_name@,
                type_label@,
                now,
            ),
        active_model(old(active)@).dom().finite() && active_model(old(active)@).contains_key(ptr)
            ==> active_model(final(active)@).dom() == active_model(old(active)@).dom()
            && live_bytes(active_model(final(active)@)) == live_bytes(active_model(old(active)@)),
        keyed_by_address(active_model(old(active)@)) ==> keyed_by_address(
            active_model(final(active)@),
        ),
{
    let ghost before = active_model(active@);
    proof {
        if before.dom().finite() && before.contains_key(ptr) {
            let after = associated(before, ptr, var_name@, type_label@, 0);
            lemma_live_bytes_split(before, ptr);
            lemma_live_bytes_split(after, ptr);
            assert(after.remove(ptr) =~= before.remove(ptr));
            assert(after.dom() =~= before.dom());
        }
    }
    match active.remove(&ptr) {
        Some(found) => {
            let renamed = AllocationInfo {
                ptr: found.ptr,
                size: found.size,
                timestamp_alloc: found.timestamp_alloc,
                var_name: Some(var_name),
                type_label: Some(type_label),
            };
            active.insert(ptr, renamed);
            assert(active_model(active@) =~= associated(before, ptr, var_name@, type_label@, 0));
        },
        None => {
            let size = estimate_type_size(type_label.as_str());
            let mut synthetic = AllocationInfo::new(ptr, size);
            synthetic.var_name = Some(var_name);
            synthetic.type_label = Some(type_label);
            let ghost made = synthetic.timestamp_alloc;
            active.insert(ptr, synthetic);
            assert(active_model(active@) =~= associated(before, ptr, var_name@, type_label@, made));
        },
    }
}

/// A copy of every live record, in no particular order. Where every record
/// is found under its own address, no address comes twice.
pub fn snapshot(active: &HashMap<usize, AllocationInfo>) -> (entries: Vec<AllocationInfo>)
    ensures
        is_snapshot(models(entries@), active_model(active@)),
        keyed_by_address(active_model(active@)) ==> forall|i: int, j: int|
            0 <= i < j < entries.len() ==> (#[trigger] entries[i]).ptr != (
            #[trigger] entries[j]).ptr,
{
    let mut entries: Vec<AllocationInfo> = Vec::new();
    let ghost mut keys: Seq<usize> = Seq::empty();
    for key in it: active.keys()
        invariant
            it.seq() == active.keys().remaining(),
            keys == it.seq().unref().take(it.index()),
            entries.len() == it.index(),
            forall|i: int|
                0 <= i < entries.len() ==> (#[trigger] entries[i])@ == active_model(
                    active@,
                )[keys[i]],
    {
        proof {
            assert(it.seq().unref().to_set().contains(*key)) by {
                assert(it.seq().unref()[it.index()] == *key);
            }
            keys = keys.push(*key);
            assert(keys =~= it.seq().unref().take(it.index() + 1));
        }
        match active.get(key) {
            Some(found) => {
                entries.push(found.clone());
            },
            None => {
                assert(false);
            },
        }
    }
    proof {
        let listed = active.keys().remaining();
        assert(keys =~= listed.unref());
        assert(keys.no_duplicates()) by {
            assert forall|i: int, j: int| 0 <= i < keys.len() && 0 <= j < keys.len() && i != j
                implies keys[i] != keys[j] by {
                assert(listed[i] != listed[j]);
            }
        }
        assert(keys.to_set() == active_model(active@).dom()) by {
            assert(active_model(active@).dom() =~= active@.dom());
        }
        assert(models(entries@).len() == keys.len());
        assert forall|i: int| 0 <= i < keys.len() implies models(entries@)[i] == active_model(
            active@,
        )[#[trigger] keys[i]] by {
            assert(models(entries@)[i] == entries[i]@);
        }
        assert(enumerates(keys, active_model(active@), models(entries@)));
        if keyed_by_address(active_model(active@)) {
            assert forall|i: int, j: int| 0 <= i < j < entries.len() implies (
            #[trigger] entries[i]).ptr != (#[trigger] entries[j]).ptr by {
                assert(models(entries@)[i] == active_model(active@)[keys[i]]);
                assert(models(entries@)[j] == active_model(active@)[keys[j]]);
                assert(keys.to_set().contains(keys[i]));
                assert(keys.to_set().contains(keys[j]));
            }
        }
    }
    entries
}

} // verus!
