//! Each level of the hierarchy holds what the level below it holds together.

use vstd::prelude::*;
use crate::hierarchy::{
    category_bytes, category_names, category_of, hierarchy_of, subcategory_bytes,
    subcategory_names, subcategory_of, subcategory_types, total_bytes, CategoryModel,
    EnhancedModel, HierarchyModel, SubcategoryModel, TypeDetailModel,
};
use crate::types::{AllocationModel, MemoryStats};

verus! {

/// The bytes of a list of types together.
pub open spec fn type_sum(nodes: Seq<TypeDetailModel>) -> nat
    decreases nodes.len(),
{
    if nodes.len() == 0 {
        0
    } else {
        type_sum(nodes.drop_last()) + nodes.last().size_bytes as nat
    }
}

/// The bytes of a list of subcategories together.
pub open spec fn subcategory_sum(nodes: Seq<SubcategoryModel>) -> nat
    decreases nodes.len(),
{
    if nodes.len() == 0 {
        0
    } else {
        subcategory_sum(nodes.drop_last()) + nodes.last().total_size_bytes
    }
}

/// The bytes of a list of categories together.
pub open spec fn category_sum(nodes: Seq<CategoryModel>) -> nat
    decreases nodes.len(),
{
    if nodes.len() == 0 {
        0
    } else {
        category_sum(nodes.drop_last()) + nodes.last().total_size_bytes
    }
}

/// The bytes of the subcategories `names` of `category` together.
pub open spec fn bytes_in_subcategories(
    types: Seq<EnhancedModel>,
    category: Seq<char>,
    names: Seq<Seq<char>>,
) -> nat
    decreases names.len(),
{
    if names.len() == 0 {
        0
    } else {
        bytes_in_subcategories(types, category, names.drop_last()) + subcategory_bytes(
            types,
            category,
            names.last(),
        )
    }
}

/// The bytes of the categories `names` together.
pub open spec fn bytes_in_categories(types: Seq<EnhancedModel>, names: Seq<Seq<char>>) -> nat
    decreases names.len(),
{
    if names.len() == 0 {
        0
    } else {
        bytes_in_categories(types, names.drop_last()) + category_bytes(types, names.last())
    }
}

/// A name is in a list if it is the last one or among those before it.
proof fn lemma_contains_last(names: Seq<Seq<char>>, name: Seq<char>)
    requires
        names.len() > 0,
    ensures
        names.contains(name) <==> names.drop_last().contains(name) || names.last() == name,
{
    let before = names.drop_last();
    if names.contains(name) {
        let i = choose|i: int| 0 <= i < names.len() && names[i] == name;
        if i < before.len() {
            assert(before[i] == name);
        }
    }
    if before.contains(name) {
        let i = choose|i: int| 0 <= i < before.len() && before[i] == name;
        assert(names[i] == name);
    }
    if names.last() == name {
        assert(names[names.len() - 1] == name);
    }
}

/// A list without repetitions has none before its last name, and the last
/// name is not among those before it.
proof fn lemma_distinct_last(names: Seq<Seq<char>>)
    requires
        names.len() > 0,
        names.no_duplicates(),
    ensures
        names.drop_last().no_duplicates(),
        !names.drop_last().contains(names.last()),
{
    let before = names.drop_last();
    assert forall|i: int, j: int| 0 <= i < before.len() && 0 <= j < before.len() && i != j
        implies before[i] != before[j] by {
        assert(names[i] != names[j]);
    }
    if before.contains(names.last()) {
        let i = choose|i: int| 0 <= i < before.len() && before[i] == names.last();
        assert(names[i] == names[names.len() - 1]);
    }
}

/// No subcategory is listed twice.
pub proof fn lemma_subcategories_distinct(types: Seq<EnhancedModel>, category: Seq<char>)
    ensures
        subcategory_names(types, category).no_duplicates(),
    decreases types.len(),
{
    if types.len() > 0 {
        lemma_subcategories_distinct(types.drop_last(), category);
    }
}

/// No category is listed twice.
pub proof fn lemma_categories_distinct(types: Seq<EnhancedModel>)
    ensures
        category_names(types).no_duplicates(),
    decreases types.len(),
{
    if types.len() > 0 {
        lemma_categories_distinct(types.drop_last());
    }
}

/// A subcategory that is not listed holds nothing.
proof fn lemma_unlisted_subcategory(
    types: Seq<EnhancedModel>,
    category: Seq<char>,
    subcategory: Seq<char>,
)
    requires
        !subcategory_names(types, category).contains(subcategory),
    ensures
        subcategory_bytes(types, category, subcategory) == 0,
    decreases types.len(),
{
    if types.len() > 0 {
        let before = subcategory_names(types.drop_last(), category);
        let names = subcategory_names(types, category);
        if names.len() > before.len() {
            assert(names.drop_last() =~= before);
            lemma_contains_last(names, subcategory);
        }
        lemma_unlisted_subcategory(types.drop_last(), category, subcategory);
    }
}

/// A category that is not listed holds nothing.
proof fn lemma_unlisted_category(types: Seq<EnhancedModel>, category: Seq<char>)
    requires
        !category_names(types).contains(category),
    ensures
        category_bytes(types, category) == 0,
    decreases types.len(),
{
    if types.len() > 0 {
        let before = category_names(types.drop_last());
        let names = category_names(types);
        if names.len() > before.len() {
            assert(names.drop_last() =~= before);
            lemma_contains_last(names, category);
        }
        lemma_unlisted_category(types.drop_last(), category);
    }
}

/// What the last type adds to the subcategories `names` of `category`: its
/// size, if it lies in one of them.
proof fn lemma_last_type_in_subcategories(
    types: Seq<EnhancedModel>,
    category: Seq<char>,
    names: Seq<Seq<char>>,
)
    requires
        types.len() > 0,
        names.no_duplicates(),
    ensures
        bytes_in_subcategories(types, category, names) == bytes_in_subcategories(
            types.drop_last(),
            category,
            names,
        ) + if types.last().category == category && names.contains(types.last().subcategory) {
            types.last().total_size as nat
        } else {
            0
        },
    decreases names.len(),
{
    if names.len() > 0 {
        lemma_distinct_last(names);
        lemma_contains_last(names, types.last().subcategory);
        lemma_last_type_in_subcategories(types, category, names.drop_last());
    }
}

/// What the last type adds to the categories `names`: its size, if it lies
/// in one of them.
proof fn lemma_last_type_in_categories(types: Seq<EnhancedModel>, names: Seq<Seq<char>>)
    requires
        types.len() > 0,
        names.no_duplicates(),
    ensures
        bytes_in_categories(types, names) == bytes_in_categories(types.drop_last(), names)
            + if names.contains(types.last().category) {
            types.last().total_size as nat
        } else {
            0
        },
    decreases names.len(),
{
    if names.len() > 0 {
        lemma_distinct_last(names);
        lemma_contains_last(names, types.last().category);
        lemma_last_type_in_categories(types, names.drop_last());
    }
}

/// The subcategories of a category hold together what the category holds.
pub proof fn lemma_subcategories_fill_category(types: Seq<EnhancedModel>, category: Seq<char>)
    ensures
        bytes_in_subcategories(types, category, subcategory_names(types, category))
            == category_bytes(types, category),
    decreases types.len(),
{
    if types.len() > 0 {
        let earlier = types.drop_last();
        let before = subcategory_names(earlier, category);
        let names = subcategory_names(types, category);
        let last = types.last();
        lemma_subcategories_fill_category(earlier, category);
        lemma_subcategories_distinct(earlier, category);
        lemma_last_type_in_subcategories(types, category, before);
        if last.category == category && !before.contains(last.subcategory) {
            assert(names.drop_last() =~= before);
            assert(names.last() == last.subcategory);
            lemma_unlisted_subcategory(earlier, category, last.subcategory);
        }
    }
}

/// The categories hold together what all the types hold.
pub proof fn lemma_categories_fill_total(types: Seq<EnhancedModel>)
    ensures
        bytes_in_categories(types, category_names(types)) == total_bytes(types),
    decreases types.len(),
{
    if types.len() > 0 {
        let earlier = types.drop_last();
        let before = category_names(earlier);
        let names = category_names(types);
        let last = types.last();
        lemma_categories_fill_total(earlier);
        lemma_categories_distinct(earlier);
        lemma_last_type_in_categories(types, before);
        if !before.contains(last.category) {
            assert(names.drop_last() =~= before);
            assert(names.last() == last.category);
            lemma_unlisted_category(earlier, last.category);
        }
    }
}

/// The types listed in a subcategory hold together what the subcategory holds.
pub proof fn lemma_types_fill_subcategory(
    types: Seq<EnhancedModel>,
    active: Seq<AllocationModel>,
    category: Seq<char>,
    subcategory: Seq<char>,
)
    ensures
        type_sum(subcategory_types(types, active, category, subcategory)) == subcategory_bytes(
            types,
            category,
            subcategory,
        ),
    decreases types.len(),
{
    if types.len() > 0 {
        lemma_types_fill_subcategory(types.drop_last(), active, category, subcategory);
        let listed = subcategory_types(types, active, category, subcategory);
        let before = subcategory_types(types.drop_last(), active, category, subcategory);
        if types.last().category == category && types.last().subcategory == subcategory {
            assert(listed.drop_last() =~= before);
        }
    }
}

/// The nodes made of the subcategories `names` hold the bytes of those
/// subcategories.
proof fn lemma_subcategory_nodes(
    types: Seq<EnhancedModel>,
    active: Seq<AllocationModel>,
    category: Seq<char>,
    names: Seq<Seq<char>>,
)
    ensures
        subcategory_sum(
            names.map_values(|s: Seq<char>| subcategory_of(types, active, category, s)),
        ) == bytes_in_subcategories(types, category, names),
    decreases names.len(),
{
    let make = |s: Seq<char>| subcategory_of(types, active, category, s);
    if names.len() > 0 {
        lemma_subcategory_nodes(types, active, category, names.drop_last());
        assert(names.map_values(make).drop_last() =~= names.drop_last().map_values(make));
    }
}

/// The nodes made of the categories `names` hold the bytes of those categories.
proof fn lemma_category_nodes(
    types: Seq<EnhancedModel>,
    active: Seq<AllocationModel>,
    names: Seq<Seq<char>>,
)
    ensures
        category_sum(names.map_values(|c: Seq<char>| category_of(types, active, c)))
            == bytes_in_categories(types, names),
    decreases names.len(),
{
    let make = |c: Seq<char>| category_of(types, active, c);
    if names.len() > 0 {
        lemma_category_nodes(types, active, names.drop_last());
        assert(names.map_values(make).drop_last() =~= names.drop_last().map_values(make));
    }
}

/// The categories add up to the total, the subcategories of each category
/// add up to the category, and the types of each subcategory add up to the
/// subcategory.
pub open spec fn levels_add_up(h: HierarchyModel) -> bool {
    &&& category_sum(h.categories) == h.total_memory_bytes
    &&& forall|i: int|
        0 <= i < h.categories.len() ==> subcategory_sum((#[trigger] h.categories[i]).subcategories)
            == h.categories[i].total_size_bytes
    &&& forall|i: int, j: int|
        0 <= i < h.categories.len() && 0 <= j < h.categories[i].subcategories.len() ==> type_sum(
            (#[trigger] h.categories[i].subcategories[j]).types,
        ) == h.categories[i].subcategories[j].total_size_bytes
}

/// In every hierarchy each level adds up to the level above it.
pub proof fn lemma_levels_add_up(
    types: Seq<EnhancedModel>,
    active: Seq<AllocationModel>,
    stats: MemoryStats,
)
    ensures
        levels_add_up(hierarchy_of(types, active, stats)),
{
    let h = hierarchy_of(types, active, stats);
    lemma_category_nodes(types, active, category_names(types));
    lemma_categories_fill_total(types);
    assert forall|i: int| 0 <= i < h.categories.len() implies subcategory_sum(
        (#[trigger] h.categories[i]).subcategories,
    ) == h.categories[i].total_size_bytes by {
        let c = category_names(types)[i];
        assert(h.categories[i] == category_of(types, active, c));
        lemma_subcategory_nodes(types, active, c, subcategory_names(types, c));
        lemma_subcategories_fill_category(types, c);
    }
    assert forall|i: int, j: int|
        0 <= i < h.categories.len() && 0 <= j < h.categories[i].subcategories.len()
        implies type_sum((#[trigger] h.categories[i].subcategories[j]).types)
        == h.categories[i].subcategories[j].total_size_bytes by {
        let c = category_names(types)[i];
        assert(h.categories[i] == category_of(types, active, c));
        let s = subcategory_names(types, c)[j];
        assert(h.categories[i].subcategories[j] == subcategory_of(types, active, c, s));
        lemma_types_fill_subcategory(types, active, c, s);
    }
}

} // verus!
