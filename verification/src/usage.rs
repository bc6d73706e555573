//! Memory in use by type: the live allocations grouped by the name of their
//! type, largest group first.

use vstd::prelude::*;
use vstd::string::StringExecFns;
use crate::types::{models, sat_add, AllocationInfo, AllocationModel, TypeMemoryUsage, UsageModel};

verus! {

/// The views of a list of usage figures.
pub open spec fn usage_models(usage: Seq<TypeMemoryUsage>) -> Seq<UsageModel> {
    usage.map_values(|u: TypeMemoryUsage| u@)
}

/// The name under which an allocation is grouped: that of its type, or
/// `Unknown` where it has none.
pub open spec fn label_of(a: AllocationModel) -> Seq<char> {
    match a.type_label {
        Some(label) => label,
        None => "Unknown"@,
    }
}

/// `n`, held at the largest `usize`.
pub open spec fn clamp(n: nat) -> usize {
    if n > usize::MAX {
        usize::MAX
    } else {
        n as usize
    }
}

/// The labels of `entries`, each once, in the order in which they first appear.
pub open spec fn labels_in_order(entries: Seq<AllocationModel>) -> Seq<Seq<char>>
    decreases entries.len(),
{
    if entries.len() == 0 {
        Seq::empty()
    } else {
        let before = labels_in_order(entries.drop_last());
        if before.contains(label_of(entries.last())) {
            before
        } else {
            before.push(label_of(entries.last()))
        }
    }
}

/// The bytes of the entries grouped under `label`.
pub open spec fn labelled_bytes(entries: Seq<AllocationModel>, label: Seq<char>) -> nat
    decreases entries.len(),
{
    if entries.len() == 0 {
        0
    } else if label_of(entries.last()) == label {
        labelled_bytes(entries.drop_last(), label) + entries.last().size as nat
    } else {
        labelled_bytes(entries.drop_last(), label)
    }
}

/// The number of the entries grouped under `label`.
pub open spec fn labelled_count(entries: Seq<AllocationModel>, label: Seq<char>) -> nat
    decreases entries.len(),
{
    if entries.len() == 0 {
        0
    } else if label_of(entries.last()) == label {
        labelled_count(entries.drop_last(), label) + 1
    } else {
        labelled_count(entries.drop_last(), label)
    }
}

/// The usage figure of one label: its bytes and its count, each held at the
/// largest `usize`.
pub open spec fn usage_of(entries: Seq<AllocationModel>, label: Seq<char>) -> UsageModel {
    UsageModel {
        type_label: label,
        total_size: clamp(labelled_bytes(entries, label)),
        allocation_count: clamp(labelled_count(entries, label)),
    }
}

/// One usage figure for each label of `entries`, in the order in which the
/// labels first appear.
pub open spec fn groups_of(entries: Seq<AllocationModel>) -> Seq<UsageModel> {
    labels_in_order(entries).map_values(|label: Seq<char>| usage_of(entries, label))
}

/// `order` lists each position of a sequence of length `n` once.
pub open spec fn is_arrangement(order: Seq<int>, n: nat) -> bool {
    &&& order.len() == n
    &&& order.no_duplicates()
    &&& forall|i: int| 0 <= i < order.len() ==> 0 <= #[trigger] order[i] < n
}

/// `sorted` holds the figures of `groups` by falling size, and figures of the
/// same size in the order they have in `groups`; `order[i]` is the place in
/// `groups` of `sorted[i]`.
pub open spec fn arranges(order: Seq<int>, groups: Seq<UsageModel>, sorted: Seq<UsageModel>) -> bool {
    &&& is_arrangement(order, groups.len())
    &&& sorted.len() == groups.len()
    &&& forall|i: int| 0 <= i < sorted.len() ==> #[trigger] sorted[i] == groups[order[i]]
    &&& forall|i: int, j: int|
        0 <= i < j < sorted.len() ==> (#[trigger] sorted[i]).total_size >= (
        #[trigger] sorted[j]).total_size
    &&& forall|i: int, j: int|
        0 <= i < j < sorted.len() && (#[trigger] sorted[i]).total_size == (
        #[trigger] sorted[j]).total_size ==> order[i] < order[j]
}

/// No figure is larger than one before it, and no type is listed twice.
pub open spec fn falls_in_size(usage: Seq<UsageModel>) -> bool {
    &&& forall|i: int, j: int|
        0 <= i < j < usage.len() ==> (#[trigger] usage[i]).total_size >= (
        #[trigger] usage[j]).total_size
    &&& forall|i: int, j: int|
        0 <= i < j < usage.len() ==> (#[trigger] usage[i]).type_label != (
        #[trigger] usage[j]).type_label
}

/// `sorted` is `groups` by falling size, with equal sizes in their first order.
pub open spec fn is_sorted_stably(groups: Seq<UsageModel>, sorted: Seq<UsageModel>) -> bool {
    exists|order: Seq<int>| arranges(order, groups, sorted)
}

/// `usage` is the memory in use by type for the live allocations `entries`:
/// one figure for each label, by falling size, and labels of the same size in
/// the order in which they first appear in `entries`.
pub open spec fn is_usage_by_type(usage: Seq<UsageModel>, entries: Seq<AllocationModel>) -> bool {
    is_sorted_stably(groups_of(entries), usage)
}

/// The figures of the memory in use by type: there is one for each label of
/// the entries and it is that label's; they fall in size; and of two of the
/// same size, the one whose label appears first in the entries comes first.
pub proof fn lemma_usage_is_ordered(usage: Seq<UsageModel>, entries: Seq<AllocationModel>)
    requires
        is_usage_by_type(usage, entries),
    ensures
        usage.len() == labels_in_order(entries).len(),
        forall|i: int|
            0 <= i < usage.len() ==> labels_in_order(entries).contains(
                (#[trigger] usage[i]).type_label,
            ) && usage[i] == usage_of(entries, usage[i].type_label),
        forall|i: int, j: int|
            0 <= i < j < usage.len() ==> (#[trigger] usage[i]).type_label != (
            #[trigger] usage[j]).type_label,
        forall|i: int, j: int|
            0 <= i < j < usage.len() ==> (#[trigger] usage[i]).total_size >= (
            #[trigger] usage[j]).total_size,
        forall|i: int, j: int|
            0 <= i < j < usage.len() && (#[trigger] usage[i]).total_size == (
            #[trigger] usage[j]).total_size ==> exists|a: int, b: int|
                0 <= a < b < labels_in_order(entries).len() && labels_in_order(entries)[a]
                    == usage[i].type_label && labels_in_order(entries)[b] == usage[j].type_label,
{
    let labels = labels_in_order(entries);
    let groups = groups_of(entries);
    let order = choose|order: Seq<int>| arranges(order, groups, usage);
    lemma_labels_distinct(entries);
    assert forall|i: int| 0 <= i < usage.len() implies labels.contains(
        (#[trigger] usage[i]).type_label,
    ) && usage[i] == usage_of(entries, usage[i].type_label) by {
        assert(usage[i] == groups[order[i]]);
        assert(groups[order[i]] == usage_of(entries, labels[order[i]]));
    }
    assert forall|i: int, j: int| 0 <= i < j < usage.len() implies (#[trigger] usage[i]).type_label
        != (#[trigger] usage[j]).type_label by {
        assert(usage[i] == groups[order[i]]);
        assert(usage[j] == groups[order[j]]);
        assert(order[i] != order[j]);
        assert(labels[order[i]] != labels[order[j]]);
    }
    assert forall|i: int, j: int|
        0 <= i < j < usage.len() && (#[trigger] usage[i]).total_size == (
        #[trigger] usage[j]).total_size implies exists|a: int, b: int|
        0 <= a < b < labels.len() && labels[a] == usage[i].type_label && labels[b]
            == usage[j].type_label by {
        assert(usage[i] == groups[order[i]]);
        assert(usage[j] == groups[order[j]]);
        let a = order[i];
        let b = order[j];
        assert(0 <= a < b < labels.len() && labels[a] == usage[i].type_label && labels[b]
            == usage[j].type_label);
    }
}

/// No label is listed twice.
pub proof fn lemma_labels_distinct(entries: Seq<AllocationModel>)
    ensures
        labels_in_order(entries).no_duplicates(),
    decreases entries.len(),
{
    if entries.len() > 0 {
        lemma_labels_distinct(entries.drop_last());
    }
}

/// A label that is not listed has no entries.
pub proof fn lemma_absent_label_is_empty(entries: Seq<AllocationModel>, label: Seq<char>)
    requires
        !labels_in_order(entries).contains(label),
    ensures
        labelled_bytes(entries, label) == 0,
        labelled_count(entries, label) == 0,
    decreases entries.len(),
{
    if entries.len() > 0 {
        let before = labels_in_order(entries.drop_last());
        let last = label_of(entries.last());
        if before.contains(last) {
        } else {
            assert(before.push(last).last() == last);
            assert forall|i: int| 0 <= i < before.len() implies before[i] != label by {
                assert(before.push(last)[i] == before[i]);
            }
        }
        assert(!before.contains(label));
        assert(last != label) by {
            if last == label {
                if before.contains(last) {
                } else {
                    assert(before.push(last)[before.len() as int] == label);
                }
            }
        }
        lemma_absent_label_is_empty(entries.drop_last(), label);
    }
}

/// Adding to a figure held at the bound is adding to the true sum.
proof fn lemma_clamp_add(n: nat, more: usize)
    ensures
        sat_add(clamp(n), more) == clamp((n + more) as nat),
{
}

/// The place of `label` among the figures, if it is there.
fn find_label(groups: &Vec<TypeMemoryUsage>, label: &String) -> (place: Option<usize>)
    ensures
        match place {
            Some(i) => i < groups.len() && groups[i as int].type_label@ == label@,
            None => forall|j: int| 0 <= j < groups.len() ==> groups[j].type_label@ != label@,
        },
{
    let mut i: usize = 0;
    while i < groups.len()
        invariant
            i <= groups.len(),
            forall|j: int| 0 <= j < i ==> groups[j].type_label@ != label@,
        decreases groups.len() - i,
    {
        if groups[i].type_label == *label {
            return Some(i);
        }
        i = i + 1;
    }
    None
}

/// One usage figure for each label of `entries`, in the order in which the
/// labels first appear. Sizes and counts stop at the largest `usize`.
pub fn group_by_type(entries: &Vec<AllocationInfo>) -> (groups: Vec<TypeMemoryUsage>)
    ensures
        usage_models(groups@) == groups_of(models(entries@)),
{
    let mut groups: Vec<TypeMemoryUsage> = Vec::new();
    let mut k: usize = 0;
    assert(usage_models(groups@) =~= groups_of(models(entries@).take(0)));
    while k < entries.len()
        invariant
            k <= entries.len(),
            usage_models(groups@) == groups_of(models(entries@).take(k as int)),
        decreases entries.len() - k,
    {
        let ghost seen = models(entries@).take(k as int);
        let ghost next = models(entries@).take(k + 1);
        let ghost names = labels_in_order(seen);
        let ghost before = groups@;
        proof {
            assert(next.drop_last() =~= seen);
            assert(next.last() == entries[k as int]@);
            lemma_labels_distinct(seen);
            assert(usage_models(groups@).len() == groups.len());
            assert(groups_of(seen).len() == names.len());
            assert forall|j: int| 0 <= j < groups.len() implies groups[j]@ == usage_of(
                seen,
                names[j],
            ) by {
                assert(usage_models(groups@)[j] == groups[j]@);
            }
        }
        let entry = &entries[k];
        let label = match &entry.type_label {
            Some(own) => own.clone(),
            None => String::from_str("Unknown"),
        };
        assert(label@ == label_of(entry@));
        match find_label(&groups, &label) {
            Some(i) => {
                let found = &groups[i];
                let grown = TypeMemoryUsage {
                    type_label: label,
                    total_size: found.total_size.saturating_add(entry.size),
                    allocation_count: found.allocation_count.saturating_add(1),
                };
                proof {
                    assert(names[i as int] == label@);
                    assert(names.contains(label@));
                    lemma_clamp_add(labelled_bytes(seen, label@), entry.size);
                    lemma_clamp_add(labelled_count(seen, label@), 1);
                    assert(grown@ == usage_of(next, label@));
                }
                groups.set(i, grown);
                proof {
                    assert(labels_in_order(next) == names);
                    assert forall|j: int| 0 <= j < groups.len() implies usage_models(groups@)[j]
                        == groups_of(next)[j] by {
                        if j != i {
                            assert(groups[j] == before[j]);
                            assert(names[j] != names[i as int]);
                        }
                    }
                    assert(usage_models(groups@) =~= groups_of(next));
                }
            },
            None => {
                let fresh = TypeMemoryUsage {
                    type_label: label,
                    total_size: entry.size,
                    allocation_count: 1,
                };
                proof {
                    assert(!names.contains(label@)) by {
                        if names.contains(label@) {
                            let j = choose|j: int| 0 <= j < names.len() && names[j] == label@;
                            assert(groups[j]@ == usage_of(seen, names[j]));
                        }
                    }
                    lemma_absent_label_is_empty(seen, label@);
                    assert(fresh@ == usage_of(next, label@));
                    assert(labels_in_order(next) == names.push(label@));
                }
                groups.push(fresh);
                proof {
                    assert forall|j: int| 0 <= j < groups.len() implies usage_models(groups@)[j]
                        == groups_of(next)[j] by {
                        if j < before.len() {
                            assert(groups[j] == before[j]);
                            assert(names.contains(names[j]));
                            assert(names[j] != label@);
                        }
                    }
                    assert(usage_models(groups@) =~= groups_of(next));
                }
            },
        }
        k = k + 1;
    }
    assert(models(entries@).take(entries.len() as int) =~= models(entries@));
    groups
}

/// The figures of `groups` by falling size; figures of the same size keep the
/// order they have in `groups`.
pub fn sort_by_size(groups: &Vec<TypeMemoryUsage>) -> (sorted: Vec<TypeMemoryUsage>)
    ensures
        is_sorted_stably(usage_models(groups@), usage_models(sorted@)),
{
    let mut sorted: Vec<TypeMemoryUsage> = Vec::new();
    let ghost mut order: Seq<int> = Seq::empty();
    let mut n: usize = 0;
    while n < groups.len()
        invariant
            n <= groups.len(),
            sorted.len() == n,
            order.len() == n,
            order.no_duplicates(),
            forall|i: int| 0 <= i < n ==> 0 <= #[trigger] order[i] < n,
            forall|i: int| 0 <= i < n ==> (#[trigger] sorted[i])@ == groups[order[i]]@,
            forall|i: int, j: int|
                0 <= i < j < n ==> (#[trigger] sorted[i]).total_size >= (
                #[trigger] sorted[j]).total_size,
            forall|i: int, j: int|
                0 <= i < j < n && (#[trigger] sorted[i]).total_size == (
                #[trigger] sorted[j]).total_size ==> order[i] < order[j],
        decreases groups.len() - n,
    {
        let size = groups[n].total_size;
        let mut place: usize = 0;
        while place < sorted.len() && sorted[place].total_size >= size
            invariant
                place <= sorted.len(),
                forall|i: int| 0 <= i < place ==> (#[trigger] sorted[i]).total_size >= size,
            decreases sorted.len() - place,
        {
            place = place + 1;
        }
        let ghost before = sorted@;
        let ghost order_before = order;
        let item = groups[n].clone();
        sorted.insert(place, item);
        proof {
            order = order_before.insert(place as int, n as int);
            assert forall|i: int| 0 <= i < n + 1 implies 0 <= #[trigger] order[i] < n + 1 by {
                if i < place {
                    assert(order[i] == order_before[i]);
                } else if i > place {
                    assert(order[i] == order_before[i - 1]);
                }
            }
            assert(order.no_duplicates()) by {
                assert forall|i: int, j: int|
                    0 <= i < order.len() && 0 <= j < order.len() && i != j implies order[i]
                    != order[j] by {
                    let a = if i < place { i } else { i - 1 };
                    let b = if j < place { j } else { j - 1 };
                    if i != place {
                        assert(order[i] == order_before[a]);
                    }
                    if j != place {
                        assert(order[j] == order_before[b]);
                    }
                }
            }
            assert forall|i: int| 0 <= i < n + 1 implies (#[trigger] sorted[i])@
                == groups[order[i]]@ by {
                if i < place {
                    assert(sorted[i] == before[i]);
                } else if i > place {
                    assert(sorted[i] == before[i - 1]);
                }
            }
            assert forall|i: int, j: int| 0 <= i < j < n + 1 implies (#[trigger] sorted[i]).total_size
                >= (#[trigger] sorted[j]).total_size && (sorted[i].total_size
                == sorted[j].total_size ==> order[i] < order[j]) by {
                let a = if i < place { i } else { i - 1 };
                let b = if j < place { j } else { j - 1 };
                if i != place {
                    assert(sorted[i] == before[a]);
                    assert(order[i] == order_before[a]);
                }
                if j != place {
                    assert(sorted[j] == before[b]);
                    assert(order[j] == order_before[b]);
                }
                if i == place {
                    assert(sorted[i]@ == groups[n as int]@);
                    assert(before[place as int].total_size < size);
                    assert(before[place as int].total_size >= before[b].total_size || b == place);
                } else if j == place {
                    assert(sorted[j]@ == groups[n as int]@);
                }
            }
        }
        n = n + 1;
    }
    proof {
        assert forall|i: int| 0 <= i < sorted.len() implies #[trigger] usage_models(sorted@)[i]
            == usage_models(groups@)[order[i]] by {
            assert(usage_models(sorted@)[i] == sorted[i]@);
        }
        assert forall|i: int, j: int| 0 <= i < j < sorted.len() implies (#[trigger] usage_models(
            sorted@,
        )[i]).total_size >= (#[trigger] usage_models(sorted@)[j]).total_size && (usage_models(
            sorted@,
        )[i].total_size == usage_models(sorted@)[j].total_size ==> order[i] < order[j]) by {
            assert(usage_models(sorted@)[i] == sorted[i]@);
            assert(usage_models(sorted@)[j] == sorted[j]@);
        }
        assert(arranges(order, usage_models(groups@), usage_models(sorted@)));
    }
    sorted
}

/// The memory in use by type for the live allocations `entries`: one figure
/// for each type name, with `Unknown` for allocations without one, by falling
/// size. Types that hold the same size come in the order in which they first
/// appear in `entries`.
pub fn memory_by_type(entries: &Vec<AllocationInfo>) -> (usage: Vec<TypeMemoryUsage>)
    ensures
        is_usage_by_type(usage_models(usage@), models(entries@)),
        falls_in_size(usage_models(usage@)),
{
    let groups = group_by_type(entries);
    let usage = sort_by_size(&groups);
    proof {
        lemma_usage_is_ordered(usage_models(usage@), models(entries@));
    }
    usage
}

} // verus!
