//! The tracker as it behaves when no call meets a store in use: a state, what
//! each call makes of it, and what holds of every history of calls.

use vstd::prelude::*;
use crate::ledger::{associated, keyed_by_address};
use crate::types::{AllocationModel, MemoryStats};

verus! {

/// The three stores of a tracker.
pub struct TrackerModel {
    pub active: Map<usize, AllocationModel>,
    pub history: Seq<AllocationModel>,
    pub stats: MemoryStats,
}

/// One call of a tracker, with what the call reads from the clock.
pub enum Call {
    /// `track_allocation`, which made `record`.
    Allocation { record: AllocationModel },
    /// `track_deallocation` of `ptr`.
    Deallocation { ptr: usize },
    /// `associate_var`, made at the time `now`.
    Association { ptr: usize, var_name: Seq<char>, type_label: Seq<char>, now: u128 },
}

/// The bytes of all the records of `active` together.
pub open spec fn live_bytes(active: Map<usize, AllocationModel>) -> nat
    decreases active.dom().len(),
    when active.dom().finite()
{
    if active.dom().len() == 0 {
        0
    } else {
        let p = active.dom().choose();
        active[p].size as nat + live_bytes(active.remove(p))
    }
}

/// The totals agree with the live allocations: as many are counted live as
/// there are, and as many bytes as they hold.
pub open spec fn in_balance(active: Map<usize, AllocationModel>, stats: MemoryStats) -> bool {
    &&& active.dom().finite()
    &&& stats.active_allocations == active.dom().len()
    &&& stats.active_memory == live_bytes(active)
}

impl TrackerModel {
    /// A tracker that has seen nothing.
    pub open spec fn empty() -> TrackerModel {
        TrackerModel { active: Map::empty(), history: Seq::empty(), stats: MemoryStats::zero() }
    }

    /// The state after `call`.
    pub open spec fn after(self, call: Call) -> TrackerModel {
        match call {
            Call::Allocation { record } => TrackerModel {
                active: self.active.insert(record.ptr, record),
                history: self.history.push(record),
                stats: self.stats.after_allocation(record.size),
            },
            Call::Deallocation { ptr } => if self.active.contains_key(ptr) {
                TrackerModel {
                    active: self.active.remove(ptr),
                    history: self.history,
                    stats: self.stats.after_deallocation(self.active[ptr].size),
                }
            } else {
                self
            },
            Call::Association { ptr, var_name, type_label, now } => TrackerModel {
                active: associated(self.active, ptr, var_name, type_label, now),
                history: self.history,
                stats: self.stats,
            },
        }
    }

    /// The state after `calls`, made one after the other.
    pub open spec fn after_all(self, calls: Seq<Call>) -> TrackerModel
        decreases calls.len(),
    {
        if calls.len() == 0 {
            self
        } else {
            self.after_all(calls.drop_last()).after(calls.last())
        }
    }

    /// The totals agree with the live allocations.
    pub open spec fn balanced(self) -> bool {
        in_balance(self.active, self.stats)
    }

    /// `call` is one the totals can follow: an allocation at an address that
    /// is not live, which the counters have room for; any deallocation; an
    /// association with a live address.
    pub open spec fn follows(self, call: Call) -> bool {
        match call {
            Call::Allocation { record } => {
                &&& !self.active.contains_key(record.ptr)
                &&& self.stats.active_allocations < usize::MAX
                &&& self.stats.active_memory + record.size <= usize::MAX
            },
            Call::Deallocation { ptr } => true,
            Call::Association { ptr, var_name, type_label, now } => self.active.contains_key(ptr),
        }
    }

    /// Each of `calls` is one the totals can follow, in the state it meets.
    pub open spec fn follows_all(self, calls: Seq<Call>) -> bool
        decreases calls.len(),
    {
        calls.len() == 0 || {
            &&& self.follows_all(calls.drop_last())
            &&& self.after_all(calls.drop_last()).follows(calls.last())
        }
    }
}

/// The bytes of the live allocations are those of any one of them and those
/// of the others.
pub proof fn lemma_live_bytes_split(active: Map<usize, AllocationModel>, ptr: usize)
    requires
        active.dom().finite(),
        active.contains_key(ptr),
    ensures
        live_bytes(active) == active[ptr].size + live_bytes(active.remove(ptr)),
    decreases active.dom().len(),
{
    let p = active.dom().choose();
    if p != ptr {
        lemma_live_bytes_split(active.remove(p), ptr);
        lemma_live_bytes_split(active.remove(ptr), p);
        assert(active.remove(p).remove(ptr) =~= active.remove(ptr).remove(p));
    }
}

/// A tracker that has seen nothing is balanced.
pub proof fn lemma_empty_is_balanced()
    ensures
        TrackerModel::empty().balanced(),
{
}

/// A call that the totals can follow leaves a balanced tracker balanced.
pub proof fn lemma_call_keeps_balance(state: TrackerModel, call: Call)
    requires
        state.balanced(),
        state.follows(call),
    ensures
        state.after(call).balanced(),
{
    match call {
        Call::Allocation { record } => {
            let grown = state.active.insert(record.ptr, record);
            lemma_live_bytes_split(grown, record.ptr);
            assert(grown.remove(record.ptr) =~= state.active);
        },
        Call::Deallocation { ptr } => {
            if state.active.contains_key(ptr) {
                lemma_live_bytes_split(state.active, ptr);
            }
        },
        Call::Association { ptr, var_name, type_label, now } => {
            let renamed = associated(state.active, ptr, var_name, type_label, now);
            lemma_live_bytes_split(state.active, ptr);
            lemma_live_bytes_split(renamed, ptr);
            assert(renamed.remove(ptr) =~= state.active.remove(ptr));
            assert(renamed.dom() =~= state.active.dom());
        },
    }
}

/// Whenever every call is one the totals can follow, the totals agree with
/// the live allocations after the calls as they did before them.
pub proof fn lemma_calls_keep_balance(state: TrackerModel, calls: Seq<Call>)
    requires
        state.balanced(),
        state.follows_all(calls),
    ensures
        state.after_all(calls).balanced(),
    decreases calls.len(),
{
    if calls.len() > 0 {
        lemma_calls_keep_balance(state, calls.drop_last());
        lemma_call_keeps_balance(state.after_all(calls.drop_last()), calls.last());
    }
}

/// Over any history of calls every live record stays under its own address.
pub proof fn lemma_addresses_hold(state: TrackerModel, calls: Seq<Call>)
    requires
        keyed_by_address(state.active),
    ensures
        keyed_by_address(state.after_all(calls).active),
    decreases calls.len(),
{
    if calls.len() > 0 {
        lemma_addresses_hold(state, calls.drop_last());
    }
}

/// Releasing an address that is not live changes nothing.
pub proof fn lemma_unknown_deallocation_changes_nothing(state: TrackerModel, ptr: usize)
    requires
        !state.active.contains_key(ptr),
    ensures
        state.after(Call::Deallocation { ptr }) == state,
{
}

/// Over any history of calls no peak falls, and peaks that were at least the
/// live figures stay so.
pub proof fn lemma_peaks_hold(state: TrackerModel, calls: Seq<Call>)
    ensures
        state.after_all(calls).stats.peak_memory >= state.stats.peak_memory,
        state.after_all(calls).stats.peak_allocations >= state.stats.peak_allocations,
        state.stats.peaks_cover_live() ==> state.after_all(calls).stats.peaks_cover_live(),
    decreases calls.len(),
{
    if calls.len() > 0 {
        lemma_peaks_hold(state, calls.drop_last());
    }
}

/// Over any history of calls the history of allocations only grows at its end.
pub proof fn lemma_history_only_grows(state: TrackerModel, calls: Seq<Call>)
    ensures
        state.history.is_prefix_of(state.after_all(calls).history),
    decreases calls.len(),
{
    if calls.len() > 0 {
        lemma_history_only_grows(state, calls.drop_last());
    }
}

} // verus!
