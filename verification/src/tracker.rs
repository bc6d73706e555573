//! The tracker: three stores, each behind a lock of its own.

use vstd::prelude::*;
use std::collections::HashMap;
use std::sync::Mutex;
use crate::ledger::{
    active_model, append_history, apply_allocation, apply_association, apply_deallocation,
    keyed_by_address, snapshot,
};
use crate::sync::{held, peek};
use crate::types::{
    copy_records, models, AllocationInfo, AllocationModel, MemoryStats, TrackingResult,
    TypeMemoryUsage,
};
use crate::usage::{falls_in_size, is_usage_by_type, memory_by_type, usage_models};

verus! {

/// Records allocations and deallocations as they are reported, and keeps
/// running totals.
///
/// The tracking calls never wait: where a store they need is in use, they
/// leave the event out, so that the program under observation is never held
/// up. Under contention the figures may therefore miss events; without it
/// they are those of `model::TrackerModel`. The reading calls wait for their
/// store, and read it even after a holder faulted.
///
/// Verus sees nothing of what a lock holds. The contracts of the tracking
/// methods therefore say only that they succeed, and those of the reading
/// methods what holds of a store whenever it is read. What each call does to
/// the stores is stated where the stores are plain values: in `ledger`,
/// `usage` and `model`.
pub struct MemoryTracker {
    /// The live allocations, by address.
    active_allocations: Mutex<LiveStore>,
    /// Every allocation that was entered, in the order of entry.
    allocation_history: Mutex<Vec<AllocationInfo>>,
    /// The running totals.
    stats: Mutex<Totals>,
}

/// The live allocations as the tracker keeps them: every record under its
/// own address. Whoever finds the store behind its lock finds it so.
struct LiveStore {
    records: HashMap<usize, AllocationInfo>,
}

impl LiveStore {
    #[verifier::type_invariant]
    spec fn well_keyed(self) -> bool {
        keyed_by_address(active_model(self.records@))
    }

    /// Hands the records out to be changed and keeps none, until `put_back`
    /// returns them. A store is never seen with records half changed.
    fn take_out(&mut self) -> (records: HashMap<usize, AllocationInfo>)
        ensures
            keyed_by_address(active_model(records@)),
    {
        let mut handed = LiveStore { records: HashMap::new() };
        proof {
            use_type_invariant(&*self);
        }
        core::mem::swap(self, &mut handed);
        let LiveStore { records } = handed;
        records
    }

    /// Takes the records back.
    fn put_back(&mut self, records: HashMap<usize, AllocationInfo>)
        requires
            keyed_by_address(active_model(records@)),
    {
        *self = LiveStore { records };
    }
}

/// The running totals as the tracker keeps them: each peak at least the live
/// figure it belongs to. Whoever finds the totals behind their lock finds
/// them so.
struct Totals {
    stats: MemoryStats,
}

impl Totals {
    #[verifier::type_invariant]
    spec fn peaks_cover(self) -> bool {
        self.stats.peaks_cover_live()
    }
}

/// No address comes twice.
pub open spec fn addresses_differ(entries: Seq<AllocationInfo>) -> bool {
    forall|i: int, j: int|
        0 <= i < j < entries.len() ==> (#[trigger] entries[i]).ptr != (#[trigger] entries[j]).ptr
}

impl MemoryTracker {
    /// A tracker that has seen nothing yet.
    pub fn new() -> (tracker: Self) {
        MemoryTracker {
            active_allocations: Mutex::new(LiveStore { records: HashMap::new() }),
            allocation_history: Mutex::new(Vec::new()),
            stats: Mutex::new(Totals { stats: MemoryStats::default() }),
        }
    }

    /// Reports an allocation of `size` bytes at `ptr`.
    ///
    /// The live allocations and the totals change together or not at all. The
    /// history is extended afterwards, if it is free then.
    pub fn track_allocation(&self, ptr: usize, size: usize) -> (r: TrackingResult<()>)
        ensures
            r is Ok,
    {
        let allocation = AllocationInfo::new(ptr, size);
        let entered = match self.active_allocations.try_lock() {
            Ok(mut active) => match self.stats.try_lock() {
                Ok(mut stats) => {
                    let live = held(&mut active);
                    let totals = held(&mut stats);
                    proof {
                        use_type_invariant(&*totals);
                    }
                    let mut records = live.take_out();
                    let mut counted = totals.stats;
                    apply_allocation(&mut records, &mut counted, allocation.clone());
                    live.put_back(records);
                    totals.stats = counted;
                    true
                },
                Err(_) => false,
            },
            Err(_) => false,
        };
        if entered {
            match self.allocation_history.try_lock() {
                Ok(mut history) => {
                    append_history(held(&mut history), allocation);
                },
                Err(_) => {},
            }
        }
        Ok(())
    }

    /// Reports that the allocation at `ptr` was released.
    pub fn track_deallocation(&self, ptr: usize) -> (r: TrackingResult<()>)
        ensures
            r is Ok,
    {
        match self.active_allocations.try_lock() {
            Ok(mut active) => match self.stats.try_lock() {
                Ok(mut stats) => {
                    let live = held(&mut active);
                    let totals = held(&mut stats);
                    proof {
                        use_type_invariant(&*totals);
                    }
                    let mut records = live.take_out();
                    let mut counted = totals.stats;
                    apply_deallocation(&mut records, &mut counted, ptr);
                    live.put_back(records);
                    totals.stats = counted;
                },
                Err(_) => {},
            },
            Err(_) => {},
        }
        Ok(())
    }

    /// Attaches a variable name and a type to the allocation at `ptr`.
    pub fn associate_var(&self, ptr: usize, var_name: String, type_label: String) -> (r:
        TrackingResult<()>)
        ensures
            r is Ok,
    {
        match self.active_allocations.try_lock() {
            Ok(mut active) => {
                let live = held(&mut active);
                let mut records = live.take_out();
                apply_association(&mut records, ptr, var_name, type_label);
                live.put_back(records);
            },
            Err(_) => {},
        }
        Ok(())
    }

    /// The running totals as they stand when the call reads them. Each peak
    /// is at least the live figure it belongs to.
    pub fn get_stats(&self) -> (r: TrackingResult<MemoryStats>)
        ensures
            match r {
                Ok(stats) => stats.peaks_cover_live(),
                Err(_) => false,
            },
    {
        let guard = match self.stats.lock() {
            Ok(guard) => guard,
            Err(poisoned) => poisoned.into_inner(),
        };
        let totals = peek(&guard);
        proof {
            use_type_invariant(totals);
        }
        Ok(totals.stats)
    }

    /// A copy of every live allocation as they stand when the call reads
    /// them, in no particular order. No address comes twice.
    pub fn get_active_allocations(&self) -> (r: TrackingResult<Vec<AllocationInfo>>)
        ensures
            match r {
                Ok(entries) => addresses_differ(entries@),
                Err(_) => false,
            },
    {
        let guard = match self.active_allocations.lock() {
            Ok(guard) => guard,
            Err(poisoned) => poisoned.into_inner(),
        };
        let live = peek(&guard);
        proof {
            use_type_invariant(live);
        }
        let entries = snapshot(&live.records);
        let r: TrackingResult<Vec<AllocationInfo>> = Ok(entries);
        assert(r->Ok_0 == entries);
        r
    }

    /// A copy of the history: the allocations that were entered, oldest first.
    pub fn get_allocation_history(&self) -> (r: TrackingResult<Vec<AllocationInfo>>)
        ensures
            r is Ok,
    {
        let guard = match self.allocation_history.lock() {
            Ok(guard) => guard,
            Err(poisoned) => poisoned.into_inner(),
        };
        Ok(copy_records(peek(&guard)))
    }

    /// The memory in use by type, largest first and each type once: the
    /// figures of `memory_by_type` for the live allocations as they stand
    /// when the call reads them.
    pub fn get_memory_by_type(&self) -> (r: TrackingResult<Vec<TypeMemoryUsage>>)
        ensures
            match r {
                Ok(usage) => {
                    &&& falls_in_size(usage_models(usage@))
                    &&& exists|entries: Seq<AllocationModel>| #[trigger]
                        is_usage_by_type(usage_models(usage@), entries)
                },
                Err(_) => false,
            },
    {
        let entries = {
            let guard = match self.active_allocations.lock() {
                Ok(guard) => guard,
                Err(poisoned) => poisoned.into_inner(),
            };
            snapshot(&peek(&guard).records)
        };
        let usage = memory_by_type(&entries);
        assert(is_usage_by_type(usage_models(usage@), models(entries@)));
        let r: TrackingResult<Vec<TypeMemoryUsage>> = Ok(usage);
        assert(r->Ok_0 == usage);
        r
    }
}

impl Default for MemoryTracker {
    fn default() -> (tracker: Self) {
        MemoryTracker::new()
    }
}

} // verus!
