use memtrack::types::{AllocationInfo, MemoryStats, TypeMemoryUsage};
use memtrack::usage::{group_by_type, memory_by_type, sort_by_size};

fn record(ptr: usize, size: usize, label: Option<&str>) -> AllocationInfo {
    AllocationInfo {
        ptr,
        size,
        timestamp_alloc: 0,
        var_name: None,
        type_label: label.map(String::from),
    }
}

fn usage(label: &str, total_size: usize, allocation_count: usize) -> TypeMemoryUsage {
    TypeMemoryUsage { type_label: String::from(label), total_size, allocation_count }
}

#[test]
fn groups_come_in_order_of_first_appearance() {
    let entries = vec![
        record(1, 5, Some("B")),
        record(2, 7, Some("A")),
        record(3, 1, Some("B")),
        record(4, 2, None),
        record(5, 3, Some("A")),
    ];
    assert_eq!(
        group_by_type(&entries),
        vec![usage("B", 6, 2), usage("A", 10, 2), usage("Unknown", 2, 1)]
    );
}

#[test]
fn largest_group_first() {
    let entries = vec![
        record(1, 5, Some("B")),
        record(2, 7, Some("A")),
        record(3, 1, Some("B")),
        record(4, 2, None),
        record(5, 3, Some("A")),
    ];
    assert_eq!(
        memory_by_type(&entries),
        vec![usage("A", 10, 2), usage("B", 6, 2), usage("Unknown", 2, 1)]
    );
}

#[test]
fn equal_sizes_keep_the_order_of_first_appearance() {
    let entries = vec![
        record(1, 4, Some("first")),
        record(2, 9, Some("big")),
        record(3, 4, Some("second")),
        record(4, 1, Some("third")),
        record(5, 3, Some("third")),
        record(6, 4, None),
    ];
    assert_eq!(
        memory_by_type(&entries),
        vec![
            usage("big", 9, 1),
            usage("first", 4, 1),
            usage("second", 4, 1),
            usage("third", 4, 2),
            usage("Unknown", 4, 1),
        ]
    );
    let reversed: Vec<AllocationInfo> = entries.iter().rev().cloned().collect();
    assert_eq!(
        memory_by_type(&reversed),
        vec![
            usage("big", 9, 1),
            usage("Unknown", 4, 1),
            usage("third", 4, 2),
            usage("second", 4, 1),
            usage("first", 4, 1),
        ]
    );
}

#[test]
fn a_type_named_unknown_shares_the_group_of_the_unnamed() {
    let entries = vec![record(1, 4, None), record(2, 6, Some("Unknown"))];
    assert_eq!(memory_by_type(&entries), vec![usage("Unknown", 10, 2)]);
}

#[test]
fn no_allocations_no_figures() {
    assert_eq!(memory_by_type(&Vec::new()), Vec::<TypeMemoryUsage>::new());
    assert_eq!(sort_by_size(&Vec::new()), Vec::<TypeMemoryUsage>::new());
}

#[test]
fn group_sizes_stop_at_the_largest_value() {
    let entries = vec![
        record(1, usize::MAX - 1, Some("huge")),
        record(2, 5, Some("huge")),
        record(3, usize::MAX, Some("other")),
    ];
    assert_eq!(
        memory_by_type(&entries),
        vec![usage("huge", usize::MAX, 2), usage("other", usize::MAX, 1)]
    );
}

#[test]
fn sorting_is_stable() {
    let groups = vec![
        usage("a", 1, 1),
        usage("b", 3, 1),
        usage("c", 1, 2),
        usage("d", 3, 2),
        usage("e", 2, 1),
        usage("f", 1, 3),
    ];
    assert_eq!(
        sort_by_size(&groups),
        vec![
            usage("b", 3, 1),
            usage("d", 3, 2),
            usage("e", 2, 1),
            usage("a", 1, 1),
            usage("c", 1, 2),
            usage("f", 1, 3),
        ]
    );
}

#[test]
fn sorting_agrees_with_the_stable_sort_of_std() {
    let mut groups = Vec::new();
    let mut seed: usize = 12345;
    for i in 0..200 {
        seed = seed.wrapping_mul(6364136223846793005).wrapping_add(1442695040888963407);
        groups.push(usage(&format!("t{i}"), (seed >> 33) % 17, i));
    }
    let mut expected: Vec<TypeMemoryUsage> = groups.iter().map(|g| g.clone()).collect();
    expected.sort_by(|a, b| b.total_size.cmp(&a.total_size));
    assert_eq!(sort_by_size(&groups), expected);
}

#[test]
fn counters_of_the_totals() {
    let mut stats = MemoryStats::default();
    stats.record_allocation(64);
    stats.record_allocation(128);
    stats.record_deallocation(64);
    assert_eq!(
        stats,
        MemoryStats {
            total_allocations: 2,
            total_deallocations: 1,
            total_allocated: 192,
            total_deallocated: 64,
            active_allocations: 1,
            active_memory: 128,
            peak_allocations: 2,
            peak_memory: 192,
        }
    );
    stats.record_deallocation(500);
    assert_eq!(stats.active_memory, 0);
    assert_eq!(stats.active_allocations, 0);
    stats.record_deallocation(1);
    assert_eq!(stats.active_memory, 0);
    assert_eq!(stats.active_allocations, 0);
    assert_eq!(stats.total_deallocations, 3);
    assert_eq!(stats.peak_memory, 192);
    assert_eq!(stats.peak_allocations, 2);
}
