use std::collections::HashMap;

use memtrack::ledger::{
    append_history, apply_allocation, apply_association, apply_deallocation, snapshot,
};
use memtrack::types::{copy_records, AllocationInfo, MemoryStats};

fn record(ptr: usize, size: usize) -> AllocationInfo {
    AllocationInfo { ptr, size, timestamp_alloc: 7, var_name: None, type_label: None }
}

#[test]
fn an_allocation_enters_the_store_and_the_totals() {
    let mut active = HashMap::new();
    let mut stats = MemoryStats::default();
    apply_allocation(&mut active, &mut stats, record(0x1000, 64));
    apply_allocation(&mut active, &mut stats, record(0x2000, 128));
    assert_eq!(active.len(), 2);
    assert_eq!(active[&0x1000], record(0x1000, 64));
    assert_eq!(active[&0x2000], record(0x2000, 128));
    assert_eq!(stats.active_memory, 192);
    assert_eq!(stats.active_allocations, 2);
    assert_eq!(stats.peak_memory, 192);
}

#[test]
fn a_deallocation_leaves_the_store_and_the_live_totals() {
    let mut active = HashMap::new();
    let mut stats = MemoryStats::default();
    apply_allocation(&mut active, &mut stats, record(0x1000, 64));
    apply_allocation(&mut active, &mut stats, record(0x2000, 128));
    apply_deallocation(&mut active, &mut stats, 0x1000);
    assert_eq!(active.len(), 1);
    assert!(active.contains_key(&0x2000));
    assert_eq!(stats.active_memory, 128);
    assert_eq!(stats.total_deallocated, 64);
    let before = stats;
    apply_deallocation(&mut active, &mut stats, 0x1000);
    apply_deallocation(&mut active, &mut stats, 0x3000);
    assert_eq!(stats, before);
    assert_eq!(active.len(), 1);
}

#[test]
fn an_association_names_a_live_record() {
    let mut active = HashMap::new();
    let mut stats = MemoryStats::default();
    apply_allocation(&mut active, &mut stats, record(0x1000, 64));
    apply_association(&mut active, 0x1000, String::from("v"), String::from("Box<String>"));
    assert_eq!(
        active[&0x1000],
        AllocationInfo {
            ptr: 0x1000,
            size: 64,
            timestamp_alloc: 7,
            var_name: Some(String::from("v")),
            type_label: Some(String::from("Box<String>")),
        }
    );
    assert_eq!(active.len(), 1);
}

#[test]
fn an_association_makes_a_record_of_the_estimated_size() {
    let mut active = HashMap::new();
    apply_association(&mut active, 0x9999, String::from("v"), String::from("Box<Vec<i32>>"));
    apply_association(&mut active, 0x8888, String::from("w"), String::from("Rc<RefCell<u8>>"));
    apply_association(&mut active, 0x7777, String::from("x"), String::from("u64"));
    assert_eq!(active[&0x9999].size, 64);
    assert_eq!(active[&0x9999].ptr, 0x9999);
    assert_eq!(active[&0x8888].size, 72);
    assert_eq!(active[&0x7777].size, 24);
    assert_eq!(active[&0x7777].var_name.as_deref(), Some("x"));
    assert_eq!(active[&0x7777].type_label.as_deref(), Some("u64"));
    assert!(active[&0x7777].timestamp_alloc > 1_577_836_800_000);
}

#[test]
fn a_snapshot_holds_every_record_once() {
    let mut active = HashMap::new();
    let mut stats = MemoryStats::default();
    for ptr in 1..=100usize {
        apply_allocation(&mut active, &mut stats, record(ptr, ptr * 2));
    }
    let mut entries = snapshot(&active);
    assert_eq!(entries.len(), 100);
    entries.sort_by_key(|e| e.ptr);
    for (i, entry) in entries.iter().enumerate() {
        assert_eq!(*entry, record(i + 1, (i + 1) * 2));
    }
    assert!(snapshot(&HashMap::new()).is_empty());
}

#[test]
fn a_copy_of_the_records_equals_them() {
    let records = vec![record(1, 2), record(3, 4)];
    assert_eq!(copy_records(&records), records);
    assert!(copy_records(&Vec::new()).is_empty());
}

#[test]
fn the_history_grows_at_its_end() {
    let mut history = Vec::new();
    append_history(&mut history, record(0x1000, 64));
    append_history(&mut history, record(0x2000, 128));
    append_history(&mut history, record(0x1000, 8));
    assert_eq!(history, vec![record(0x1000, 64), record(0x2000, 128), record(0x1000, 8)]);
}
