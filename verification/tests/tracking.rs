use memtrack::tracker::MemoryTracker;
use memtrack::types::{AllocationInfo, MemoryStats, TypeMemoryUsage};

fn usage(label: &str, total_size: usize, allocation_count: usize) -> TypeMemoryUsage {
    TypeMemoryUsage { type_label: String::from(label), total_size, allocation_count }
}

#[test]
fn two_allocations_and_one_release() {
    let tracker = MemoryTracker::new();
    tracker.track_allocation(0x1000, 64).unwrap();
    tracker.track_allocation(0x2000, 128).unwrap();
    tracker.track_deallocation(0x1000).unwrap();
    let stats = tracker.get_stats().unwrap();
    assert_eq!(stats.total_allocations, 2);
    assert_eq!(stats.total_deallocations, 1);
    assert_eq!(stats.active_allocations, 1);
    assert_eq!(stats.active_memory, 128);
    assert_eq!(stats.peak_memory, 192);
    assert_eq!(stats.peak_allocations, 2);
    assert_eq!(stats.total_allocated, 192);
    assert_eq!(stats.total_deallocated, 64);
    let active = tracker.get_active_allocations().unwrap();
    assert_eq!(active.len(), 1);
    assert_eq!(active[0].ptr, 0x2000);
    assert_eq!(active[0].size, 128);
}

#[test]
fn association_with_unknown_address_makes_an_estimated_entry() {
    let tracker = MemoryTracker::new();
    tracker
        .associate_var(0x9999, String::from("v"), String::from("Box<Vec<i32>>"))
        .unwrap();
    let active = tracker.get_active_allocations().unwrap();
    assert_eq!(active.len(), 1);
    assert_eq!(active[0].ptr, 0x9999);
    assert_eq!(active[0].size, 64);
    assert_eq!(active[0].var_name.as_deref(), Some("v"));
    assert_eq!(active[0].type_label.as_deref(), Some("Box<Vec<i32>>"));
    // The totals count observed allocations only.
    assert_eq!(tracker.get_stats().unwrap(), MemoryStats::default());
    assert!(tracker.get_allocation_history().unwrap().is_empty());
}

#[test]
fn two_types_come_largest_first() {
    let tracker = MemoryTracker::new();
    tracker.track_allocation(0x10, 10).unwrap();
    tracker.associate_var(0x10, String::from("s"), String::from("String")).unwrap();
    tracker.track_allocation(0x20, 20).unwrap();
    tracker.associate_var(0x20, String::from("v"), String::from("Vec<i32>")).unwrap();
    let by_type = tracker.get_memory_by_type().unwrap();
    assert_eq!(by_type, vec![usage("Vec<i32>", 20, 1), usage("String", 10, 1)]);
}

#[test]
fn a_new_tracker_is_empty() {
    let tracker = MemoryTracker::new();
    assert_eq!(tracker.get_stats().unwrap(), MemoryStats::default());
    assert!(tracker.get_active_allocations().unwrap().is_empty());
    assert!(tracker.get_allocation_history().unwrap().is_empty());
    assert!(tracker.get_memory_by_type().unwrap().is_empty());
    let other = MemoryTracker::default();
    assert_eq!(other.get_stats().unwrap(), MemoryStats::default());
}

#[test]
fn releasing_an_untracked_address_changes_nothing() {
    let tracker = MemoryTracker::new();
    tracker.track_allocation(0x1000, 64).unwrap();
    let before = tracker.get_stats().unwrap();
    assert!(tracker.track_deallocation(0xdead).is_ok());
    assert_eq!(tracker.get_stats().unwrap(), before);
    assert_eq!(tracker.get_active_allocations().unwrap().len(), 1);
}

#[test]
fn releasing_twice_counts_once() {
    let tracker = MemoryTracker::new();
    tracker.track_allocation(0x1000, 64).unwrap();
    tracker.track_deallocation(0x1000).unwrap();
    tracker.track_deallocation(0x1000).unwrap();
    let stats = tracker.get_stats().unwrap();
    assert_eq!(stats.total_deallocations, 1);
    assert_eq!(stats.total_deallocated, 64);
    assert_eq!(stats.active_allocations, 0);
    assert_eq!(stats.active_memory, 0);
}

#[test]
fn releasing_before_anything_was_tracked_leaves_zeroes() {
    let tracker = MemoryTracker::new();
    tracker.track_deallocation(0x1).unwrap();
    assert_eq!(tracker.get_stats().unwrap(), MemoryStats::default());
}

#[test]
fn peaks_stay_when_memory_is_released() {
    let tracker = MemoryTracker::new();
    let mut last_peak_memory = 0;
    let mut last_peak_allocations = 0;
    for step in 0..20usize {
        if step % 3 == 2 {
            tracker.track_deallocation(step - 1).unwrap();
        } else {
            tracker.track_allocation(step, 10 * (step + 1)).unwrap();
        }
        let stats = tracker.get_stats().unwrap();
        assert!(stats.peak_memory >= last_peak_memory);
        assert!(stats.peak_allocations >= last_peak_allocations);
        assert!(stats.peak_memory >= stats.active_memory);
        assert!(stats.peak_allocations >= stats.active_allocations);
        last_peak_memory = stats.peak_memory;
        last_peak_allocations = stats.peak_allocations;
    }
}

#[test]
fn totals_agree_with_the_live_allocations() {
    let tracker = MemoryTracker::new();
    for ptr in 1..=50usize {
        tracker.track_allocation(ptr, ptr * 8).unwrap();
    }
    for ptr in (1..=50usize).step_by(2) {
        tracker.track_deallocation(ptr).unwrap();
    }
    tracker.associate_var(2, String::from("x"), String::from("Vec<u8>")).unwrap();
    let stats = tracker.get_stats().unwrap();
    let active = tracker.get_active_allocations().unwrap();
    assert_eq!(stats.active_allocations, active.len());
    assert_eq!(stats.active_memory, active.iter().map(|a| a.size).sum::<usize>());
    assert_eq!(active.len(), 25);
}

#[test]
fn history_keeps_released_allocations() {
    let tracker = MemoryTracker::new();
    tracker.track_allocation(0x1000, 64).unwrap();
    tracker.track_allocation(0x2000, 128).unwrap();
    tracker.track_deallocation(0x1000).unwrap();
    let history = tracker.get_allocation_history().unwrap();
    assert_eq!(history.len(), 2);
    assert_eq!((history[0].ptr, history[0].size), (0x1000, 64));
    assert_eq!((history[1].ptr, history[1].size), (0x2000, 128));
    assert_eq!(history[0].var_name, None);
    assert_eq!(history[0].type_label, None);
}

#[test]
fn association_with_a_live_address_keeps_its_size() {
    let tracker = MemoryTracker::new();
    tracker.track_allocation(0x1000, 1000).unwrap();
    tracker
        .associate_var(0x1000, String::from("names"), String::from("Vec<String>"))
        .unwrap();
    let active = tracker.get_active_allocations().unwrap();
    assert_eq!(active.len(), 1);
    assert_eq!(active[0].size, 1000);
    assert_eq!(active[0].var_name.as_deref(), Some("names"));
    assert_eq!(active[0].type_label.as_deref(), Some("Vec<String>"));
    // A second association replaces the first.
    tracker.associate_var(0x1000, String::from("n2"), String::from("String")).unwrap();
    let active = tracker.get_active_allocations().unwrap();
    assert_eq!(active[0].size, 1000);
    assert_eq!(active[0].var_name.as_deref(), Some("n2"));
    assert_eq!(active[0].type_label.as_deref(), Some("String"));
}

#[test]
fn an_address_tracked_twice_is_live_once() {
    let tracker = MemoryTracker::new();
    tracker.track_allocation(0x1000, 10).unwrap();
    tracker.track_allocation(0x1000, 30).unwrap();
    let active = tracker.get_active_allocations().unwrap();
    assert_eq!(active.len(), 1);
    assert_eq!(active[0].size, 30);
    let stats = tracker.get_stats().unwrap();
    assert_eq!(stats.total_allocations, 2);
    assert_eq!(stats.active_allocations, 2);
    assert_eq!(stats.active_memory, 40);
}

#[test]
fn counters_stop_at_the_largest_value() {
    let tracker = MemoryTracker::new();
    tracker.track_allocation(1, usize::MAX).unwrap();
    tracker.track_allocation(2, 5).unwrap();
    let stats = tracker.get_stats().unwrap();
    assert_eq!(stats.active_memory, usize::MAX);
    assert_eq!(stats.total_allocated, usize::MAX);
    assert_eq!(stats.peak_memory, usize::MAX);
    assert_eq!(stats.active_allocations, 2);
    tracker.track_deallocation(1).unwrap();
    tracker.track_deallocation(2).unwrap();
    let stats = tracker.get_stats().unwrap();
    assert_eq!(stats.active_memory, 0);
    assert_eq!(stats.active_allocations, 0);
    assert_eq!(stats.total_deallocated, usize::MAX);
}

#[test]
fn allocations_without_a_type_are_grouped_as_unknown() {
    let tracker = MemoryTracker::new();
    tracker.track_allocation(1, 7).unwrap();
    tracker.track_allocation(2, 8).unwrap();
    let by_type = tracker.get_memory_by_type().unwrap();
    assert_eq!(by_type, vec![usage("Unknown", 15, 2)]);
}

#[test]
fn a_record_is_stamped_with_the_time_of_its_making() {
    let info = AllocationInfo::new(0x40, 16);
    assert_eq!(info.ptr, 0x40);
    assert_eq!(info.size, 16);
    assert_eq!(info.var_name, None);
    assert_eq!(info.type_label, None);
    // Later than the first of January 2020.
    assert!(info.timestamp_alloc > 1_577_836_800_000);
    let copy = info.clone();
    assert_eq!(copy, info);
}
