//! The records the tracker keeps and the figures it derives from them.

use vstd::prelude::*;
use crate::clock::now_millis;

verus! {

/// Why an operation of the tracker failed.
#[derive(Debug, PartialEq, Eq)]
pub enum TrackingError {
    /// The export structure could not be encoded.
    SerializationError(String),
    /// The output file could not be created or written.
    IoError(String),
    /// A lock was left unusable by a holder that faulted.
    LockError(String),
}

pub type TrackingResult<T> = Result<T, TrackingError>;

/// The characters of an optional text.
pub open spec fn text_of(t: Option<String>) -> Option<Seq<char>> {
    match t {
        Some(s) => Some(s@),
        None => None,
    }
}

/// A copy of an optional text.
pub fn copy_text(t: &Option<String>) -> (r: Option<String>)
    ensures
        text_of(r) == text_of(*t),
{
    match t {
        Some(s) => Some(s.clone()),
        None => None,
    }
}

/// What is known of one allocation.
#[derive(Debug, PartialEq, Eq)]
pub struct AllocationInfo {
    /// The address, by which the allocation is identified.
    pub ptr: usize,
    /// The size in bytes: measured for an observed allocation, estimated otherwise.
    pub size: usize,
    /// When the record was made, in milliseconds since the Unix epoch.
    pub timestamp_alloc: u128,
    /// The variable that holds the value, if one was associated.
    pub var_name: Option<String>,
    /// The type of the value, if one was associated.
    pub type_label: Option<String>,
}

/// An allocation record with its texts as character sequences.
pub struct AllocationModel {
    pub ptr: usize,
    pub size: usize,
    pub timestamp_alloc: u128,
    pub var_name: Option<Seq<char>>,
    pub type_label: Option<Seq<char>>,
}

impl View for AllocationInfo {
    type V = AllocationModel;

    open spec fn view(&self) -> AllocationModel {
        AllocationModel {
            ptr: self.ptr,
            size: self.size,
            timestamp_alloc: self.timestamp_alloc,
            var_name: text_of(self.var_name),
            type_label: text_of(self.type_label),
        }
    }
}

impl Clone for AllocationInfo {
    fn clone(&self) -> (r: Self)
        ensures
            r@ == self@,
    {
        AllocationInfo {
            ptr: self.ptr,
            size: self.size,
            timestamp_alloc: self.timestamp_alloc,
            var_name: copy_text(&self.var_name),
            type_label: copy_text(&self.type_label),
        }
    }
}

impl AllocationInfo {
    /// A record of an allocation observed now, with no names attached.
    pub fn new(ptr: usize, size: usize) -> (info: Self)
        ensures
            info.ptr == ptr,
            info.size == size,
            info.var_name is None,
            info.type_label is None,
    {
        AllocationInfo { ptr, size, timestamp_alloc: now_millis(), var_name: None, type_label: None }
    }
}

/// The views of a sequence of records.
pub open spec fn models(infos: Seq<AllocationInfo>) -> Seq<AllocationModel> {
    infos.map_values(|a: AllocationInfo| a@)
}

/// A copy of a list of records.
pub fn copy_records(infos: &Vec<AllocationInfo>) -> (r: Vec<AllocationInfo>)
    ensures
        models(r@) == models(infos@),
{
    let mut r: Vec<AllocationInfo> = Vec::new();
    let mut i: usize = 0;
    while i < infos.len()
        invariant
            i <= infos.len(),
            r.len() == i,
            forall|j: int| 0 <= j < i ==> r[j]@ == infos[j]@,
        decreases infos.len() - i,
    {
        r.push(infos[i].clone());
        i = i + 1;
    }
    assert(models(r@) =~= models(infos@));
    r
}

/// `a + b`, held at the largest `usize`.
pub open spec fn sat_add(a: usize, b: usize) -> usize {
    if a + b > usize::MAX {
        usize::MAX
    } else {
        (a + b) as usize
    }
}

/// `a - b`, held at zero.
pub open spec fn sat_sub(a: usize, b: usize) -> usize {
    if a < b {
        0
    } else {
        (a - b) as usize
    }
}

/// The larger of two counters.
pub open spec fn larger(a: usize, b: usize) -> usize {
    if a > b {
        a
    } else {
        b
    }
}

/// Running totals over everything the tracker has accepted.
#[derive(Clone, Copy, Debug, PartialEq, Eq, Structural)]
pub struct MemoryStats {
    pub total_allocations: usize,
    pub total_deallocations: usize,
    pub total_allocated: usize,
    pub total_deallocated: usize,
    pub active_allocations: usize,
    pub active_memory: usize,
    pub peak_allocations: usize,
    pub peak_memory: usize,
}

impl MemoryStats {
    /// The counters before anything was tracked.
    pub open spec fn zero() -> MemoryStats {
        MemoryStats {
            total_allocations: 0,
            total_deallocations: 0,
            total_allocated: 0,
            total_deallocated: 0,
            active_allocations: 0,
            active_memory: 0,
            peak_allocations: 0,
            peak_memory: 0,
        }
    }

    /// The counters after an allocation of `size` bytes was accepted.
    pub open spec fn after_allocation(self, size: usize) -> MemoryStats {
        let live = sat_add(self.active_allocations, 1);
        let bytes = sat_add(self.active_memory, size);
        MemoryStats {
            total_allocations: sat_add(self.total_allocations, 1),
            total_deallocations: self.total_deallocations,
            total_allocated: sat_add(self.total_allocated, size),
            total_deallocated: self.total_deallocated,
            active_allocations: live,
            active_memory: bytes,
            peak_allocations: larger(self.peak_allocations, live),
            peak_memory: larger(self.peak_memory, bytes),
        }
    }

    /// The counters after a tracked allocation of `size` bytes was released.
    pub open spec fn after_deallocation(self, size: usize) -> MemoryStats {
        MemoryStats {
            total_allocations: self.total_allocations,
            total_deallocations: sat_add(self.total_deallocations, 1),
            total_allocated: self.total_allocated,
            total_deallocated: sat_add(self.total_deallocated, size),
            active_allocations: sat_sub(self.active_allocations, 1),
            active_memory: sat_sub(self.active_memory, size),
            peak_allocations: self.peak_allocations,
            peak_memory: self.peak_memory,
        }
    }

    /// Each peak is at least the live figure it belongs to.
    pub open spec fn peaks_cover_live(self) -> bool {
        &&& self.peak_allocations >= self.active_allocations
        &&& self.peak_memory >= self.active_memory
    }

    /// Counts an accepted allocation of `size` bytes and raises the peaks it
    /// exceeds. No peak falls, and each is at least its live figure afterwards.
    pub fn record_allocation(&mut self, size: usize)
        ensures
            *final(self) == old(self).after_allocation(size),
            final(self).peak_allocations >= old(self).peak_allocations,
            final(self).peak_memory >= old(self).peak_memory,
            old(self).peaks_cover_live() ==> final(self).peaks_cover_live(),
    {
        self.total_allocations = self.total_allocations.saturating_add(1);
        self.total_allocated = self.total_allocated.saturating_add(size);
        self.active_allocations = self.active_allocations.saturating_add(1);
        self.active_memory = self.active_memory.saturating_add(size);
        if self.active_allocations > self.peak_allocations {
            self.peak_allocations = self.active_allocations;
        }
        if self.active_memory > self.peak_memory {
            self.peak_memory = self.active_memory;
        }
    }

    /// Counts the release of a tracked allocation of `size` bytes. The live
    /// figures stop at zero; the peaks stay.
    pub fn record_deallocation(&mut self, size: usize)
        ensures
            *final(self) == old(self).after_deallocation(size),
            final(self).peak_allocations == old(self).peak_allocations,
            final(self).peak_memory == old(self).peak_memory,
            old(self).peaks_cover_live() ==> final(self).peaks_cover_live(),
    {
        self.total_deallocations = self.total_deallocations.saturating_add(1);
        self.total_deallocated = self.total_deallocated.saturating_add(size);
        self.active_allocations = self.active_allocations.saturating_sub(1);
        self.active_memory = self.active_memory.saturating_sub(size);
    }
}

impl Default for MemoryStats {
    fn default() -> (stats: Self)
        ensures
            stats == MemoryStats::zero(),
    {
        MemoryStats {
            total_allocations: 0,
            total_deallocations: 0,
            total_allocated: 0,
            total_deallocated: 0,
            active_allocations: 0,
            active_memory: 0,
            peak_allocations: 0,
            peak_memory: 0,
        }
    }
}

/// The memory held by the live allocations of one type.
#[derive(Debug, PartialEq, Eq)]
pub struct TypeMemoryUsage {
    pub type_label: String,
    pub total_size: usize,
    pub allocation_count: usize,
}

/// A usage figure with its type name as a character sequence.
pub struct UsageModel {
    pub type_label: Seq<char>,
    pub total_size: usize,
    pub allocation_count: usize,
}

impl View for TypeMemoryUsage {
    type V = UsageModel;

    open spec fn view(&self) -> UsageModel {
        UsageModel {
            type_label: self.type_label@,
            total_size: self.total_size,
            allocation_count: self.allocation_count,
        }
    }
}

impl Clone for TypeMemoryUsage {
    fn clone(&self) -> (r: Self)
        ensures
            r@ == self@,
    {
        TypeMemoryUsage {
            type_label: self.type_label.clone(),
            total_size: self.total_size,
            allocation_count: self.allocation_count,
        }
    }
}

} // verus!
