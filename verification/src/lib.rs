//! Tracking of memory allocations: live allocations and running totals kept
//! while a program runs, and summaries of the memory in use by type.

pub mod clock;
pub mod estimate;
pub mod hierarchy;
pub mod ledger;
pub mod model;
pub mod sync;
pub mod text;
pub mod totals;
pub mod tracker;
pub mod types;
pub mod usage;

pub use tracker::MemoryTracker;
pub use types::{AllocationInfo, MemoryStats, TrackingError, TrackingResult, TypeMemoryUsage};
