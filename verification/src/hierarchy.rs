//! Memory usage arranged by category, subcategory and type.

use vstd::prelude::*;
use crate::text::{contains, is_substring};
use crate::totals::{lemma_levels_add_up, levels_add_up};
use crate::types::{copy_text, models, text_of, AllocationInfo, AllocationModel, MemoryStats};

verus! {

/// The characters of each text of a list.
pub open spec fn texts(names: Seq<String>) -> Seq<Seq<char>> {
    names.map_values(|s: String| s@)
}

/// A copy of a list of texts.
pub fn copy_texts(names: &Vec<String>) -> (r: Vec<String>)
    ensures
        texts(r@) == texts(names@),
{
    let mut r: Vec<String> = Vec::new();
    let mut i: usize = 0;
    while i < names.len()
        invariant
            i <= names.len(),
            r.len() == i,
            forall|j: int| 0 <= j < i ==> r[j]@ == names[j]@,
        decreases names.len() - i,
    {
        r.push(names[i].clone());
        i = i + 1;
    }
    assert(texts(r@) =~= texts(names@));
    r
}

/// Whether `name` is one of `names`.
pub fn texts_contain(names: &Vec<String>, name: &String) -> (found: bool)
    ensures
        found == texts(names@).contains(name@),
{
    let mut i: usize = 0;
    while i < names.len()
        invariant
            i <= names.len(),
            forall|j: int| 0 <= j < i ==> texts(names@)[j] != name@,
        decreases names.len() - i,
    {
        if names[i] == *name {
            assert(texts(names@)[i as int] == name@);
            return true;
        }
        i = i + 1;
    }
    false
}

/// A type with the category it was sorted into and the variables known to hold it.
#[derive(Debug, PartialEq, Eq)]
pub struct EnhancedTypeInfo {
    /// The type's name without its parameters and paths.
    pub simplified_name: String,
    pub category: String,
    pub subcategory: String,
    /// The bytes held by live allocations of the type.
    pub total_size: usize,
    pub allocation_count: usize,
    /// The variables that hold a value of the type; each name counts once.
    pub variable_names: Vec<String>,
}

/// An enriched type with its texts as character sequences.
pub struct EnhancedModel {
    pub simplified_name: Seq<char>,
    pub category: Seq<char>,
    pub subcategory: Seq<char>,
    pub total_size: usize,
    pub allocation_count: usize,
    pub variable_names: Seq<Seq<char>>,
}

impl View for EnhancedTypeInfo {
    type V = EnhancedModel;

    open spec fn view(&self) -> EnhancedModel {
        EnhancedModel {
            simplified_name: self.simplified_name@,
            category: self.category@,
            subcategory: self.subcategory@,
            total_size: self.total_size,
            allocation_count: self.allocation_count,
            variable_names: texts(self.variable_names@),
        }
    }
}

/// The views of a list of enriched types.
pub open spec fn enhanced_models(types: Seq<EnhancedTypeInfo>) -> Seq<EnhancedModel> {
    types.map_values(|t: EnhancedTypeInfo| t@)
}

/// One live allocation, as it is listed under a type.
#[derive(Debug, PartialEq, Eq)]
pub struct AllocationDetail {
    pub variable_name: Option<String>,
    pub size_bytes: usize,
    pub allocation_time: u128,
    pub type_label: Option<String>,
}

pub struct DetailModel {
    pub variable_name: Option<Seq<char>>,
    pub size_bytes: usize,
    pub allocation_time: u128,
    pub type_label: Option<Seq<char>>,
}

impl View for AllocationDetail {
    type V = DetailModel;

    open spec fn view(&self) -> DetailModel {
        DetailModel {
            variable_name: text_of(self.variable_name),
            size_bytes: self.size_bytes,
            allocation_time: self.allocation_time,
            type_label: text_of(self.type_label),
        }
    }
}

pub open spec fn detail_models(details: Seq<AllocationDetail>) -> Seq<DetailModel> {
    details.map_values(|d: AllocationDetail| d@)
}

/// One type of a subcategory, with the live allocations counted to it.
#[derive(Debug, PartialEq, Eq)]
pub struct TypeDetail {
    pub type_label: String,
    pub size_bytes: usize,
    pub allocation_count: usize,
    pub variable_names: Vec<String>,
    pub allocations: Vec<AllocationDetail>,
}

pub struct TypeDetailModel {
    pub type_label: Seq<char>,
    pub size_bytes: usize,
    pub allocation_count: usize,
    pub variable_names: Seq<Seq<char>>,
    pub allocations: Seq<DetailModel>,
}

impl View for TypeDetail {
    type V = TypeDetailModel;

    open spec fn view(&self) -> TypeDetailModel {
        TypeDetailModel {
            type_label: self.type_label@,
            size_bytes: self.size_bytes,
            allocation_count: self.allocation_count,
            variable_names: texts(self.variable_names@),
            allocations: detail_models(self.allocations@),
        }
    }
}

pub open spec fn type_models(types: Seq<TypeDetail>) -> Seq<TypeDetailModel> {
    types.map_values(|t: TypeDetail| t@)
}

/// Whether a live allocation is counted to a type: its variable is one of the
/// type's variables, or the name of its own type contains the type's
/// simplified name. Either is enough. One allocation may be counted to
/// several types, or to none.
pub open spec fn belongs(a: AllocationModel, t: EnhancedModel) -> bool {
    ||| a.var_name is Some && t.variable_names.contains(a.var_name->0)
    ||| a.type_label is Some && is_substring(a.type_label->0, t.simplified_name)
}

/// An allocation as it is listed under a type.
pub open spec fn detail_of(a: AllocationModel) -> DetailModel {
    DetailModel {
        variable_name: a.var_name,
        size_bytes: a.size,
        allocation_time: a.timestamp_alloc,
        type_label: a.type_label,
    }
}

/// The allocations of `active` that are counted to `t`, in their order.
pub open spec fn matched(active: Seq<AllocationModel>, t: EnhancedModel) -> Seq<DetailModel>
    decreases active.len(),
{
    if active.len() == 0 {
        Seq::empty()
    } else if belongs(active.last(), t) {
        matched(active.drop_last(), t).push(detail_of(active.last()))
    } else {
        matched(active.drop_last(), t)
    }
}

/// A type as it is listed in its subcategory.
pub open spec fn type_detail_of(t: EnhancedModel, active: Seq<AllocationModel>) -> TypeDetailModel {
    TypeDetailModel {
        type_label: t.simplified_name,
        size_bytes: t.total_size,
        allocation_count: t.allocation_count,
        variable_names: t.variable_names,
        allocations: matched(active, t),
    }
}

/// Whether `allocation` is counted to `info`.
pub fn allocation_belongs(allocation: &AllocationInfo, info: &EnhancedTypeInfo) -> (r: bool)
    ensures
        r == belongs(allocation@, info@),
{
    let by_variable = match &allocation.var_name {
        Some(var_name) => texts_contain(&info.variable_names, var_name),
        None => false,
    };
    by_variable || match &allocation.type_label {
        Some(own_type) => contains(own_type.as_str(), info.simplified_name.as_str()),
        None => false,
    }
}

/// The live allocations counted to `info`, as they are listed under it.
pub fn matched_allocations(active: &Vec<AllocationInfo>, info: &EnhancedTypeInfo) -> (details: Vec<
    AllocationDetail,
>)
    ensures
        detail_models(details@) == matched(models(active@), info@),
{
    let mut details: Vec<AllocationDetail> = Vec::new();
    let mut i: usize = 0;
    while i < active.len()
        invariant
            i <= active.len(),
            detail_models(details@) == matched(models(active@).take(i as int), info@),
        decreases active.len() - i,
    {
        let ghost seen = models(active@).take(i as int);
        let ghost next = models(active@).take(i + 1);
        assert(next.drop_last() =~= seen);
        assert(next.last() == active[i as int]@);
        if allocation_belongs(&active[i], info) {
            let allocation = &active[i];
            let detail = AllocationDetail {
                variable_name: copy_text(&allocation.var_name),
                size_bytes: allocation.size,
                allocation_time: allocation.timestamp_alloc,
                type_label: copy_text(&allocation.type_label),
            };
            let ghost before = details@;
            details.push(detail);
            assert(detail_models(details@) =~= detail_models(before).push(detail@));
        }
        i = i + 1;
    }
    assert(models(active@).take(active.len() as int) =~= models(active@));
    details
}

/// A type as it is listed in its subcategory, with its allocations.
pub fn type_detail(info: &EnhancedTypeInfo, active: &Vec<AllocationInfo>) -> (detail: TypeDetail)
    ensures
        detail@ == type_detail_of(info@, models(active@)),
{
    TypeDetail {
        type_label: info.simplified_name.clone(),
        size_bytes: info.total_size,
        allocation_count: info.allocation_count,
        variable_names: copy_texts(&info.variable_names),
        allocations: matched_allocations(active, info),
    }
}

/// The types of one subcategory, with what they hold together.
#[derive(Debug, PartialEq, Eq)]
pub struct SubcategoryNode {
    pub name: String,
    pub total_size_bytes: usize,
    pub types: Vec<TypeDetail>,
}

pub struct SubcategoryModel {
    pub name: Seq<char>,
    pub total_size_bytes: nat,
    pub types: Seq<TypeDetailModel>,
}

impl View for SubcategoryNode {
    type V = SubcategoryModel;

    open spec fn view(&self) -> SubcategoryModel {
        SubcategoryModel {
            name: self.name@,
            total_size_bytes: self.total_size_bytes as nat,
            types: type_models(self.types@),
        }
    }
}

pub open spec fn subcategory_models(nodes: Seq<SubcategoryNode>) -> Seq<SubcategoryModel> {
    nodes.map_values(|n: SubcategoryNode| n@)
}

/// The subcategories of one category, with what they hold together.
#[derive(Debug, PartialEq, Eq)]
pub struct CategoryNode {
    pub name: String,
    pub total_size_bytes: usize,
    pub subcategories: Vec<SubcategoryNode>,
}

pub struct CategoryModel {
    pub name: Seq<char>,
    pub total_size_bytes: nat,
    pub subcategories: Seq<SubcategoryModel>,
}

impl View for CategoryNode {
    type V = CategoryModel;

    open spec fn view(&self) -> CategoryModel {
        CategoryModel {
            name: self.name@,
            total_size_bytes: self.total_size_bytes as nat,
            subcategories: subcategory_models(self.subcategories@),
        }
    }
}

pub open spec fn category_models(nodes: Seq<CategoryNode>) -> Seq<CategoryModel> {
    nodes.map_values(|n: CategoryNode| n@)
}

/// Memory usage by category, subcategory and type, under the tracker's totals.
#[derive(Debug, PartialEq, Eq)]
pub struct MemoryHierarchy {
    /// The bytes held by all the types together.
    pub total_memory_bytes: usize,
    pub total_allocations: usize,
    pub active_allocations: usize,
    pub active_memory_bytes: usize,
    pub peak_memory_bytes: usize,
    pub categories: Vec<CategoryNode>,
}

pub struct HierarchyModel {
    pub total_memory_bytes: nat,
    pub total_allocations: usize,
    pub active_allocations: usize,
    pub active_memory_bytes: usize,
    pub peak_memory_bytes: usize,
    pub categories: Seq<CategoryModel>,
}

impl View for MemoryHierarchy {
    type V = HierarchyModel;

    open spec fn view(&self) -> HierarchyModel {
        HierarchyModel {
            total_memory_bytes: self.total_memory_bytes as nat,
            total_allocations: self.total_allocations,
            active_allocations: self.active_allocations,
            active_memory_bytes: self.active_memory_bytes,
            peak_memory_bytes: self.peak_memory_bytes,
            categories: category_models(self.categories@),
        }
    }
}

/// The categories of `types`, each once, in the order in which they first appear.
pub open spec fn category_names(types: Seq<EnhancedModel>) -> Seq<Seq<char>>
    decreases types.len(),
{
    if types.len() == 0 {
        Seq::empty()
    } else {
        let before = category_names(types.drop_last());
        if before.contains(types.last().category) {
            before
        } else {
            before.push(types.last().category)
        }
    }
}

/// The subcategories that occur in `category`, each once, in the order in
/// which they first appear there.
pub open spec fn subcategory_names(types: Seq<EnhancedModel>, category: Seq<char>) -> Seq<
    Seq<char>,
>
    decreases types.len(),
{
    if types.len() == 0 {
        Seq::empty()
    } else {
        let before = subcategory_names(types.drop_last(), category);
        if types.last().category == category && !before.contains(types.last().subcategory) {
            before.push(types.last().subcategory)
        } else {
            before
        }
    }
}

/// The bytes held by all of `types`.
pub open spec fn total_bytes(types: Seq<EnhancedModel>) -> nat
    decreases types.len(),
{
    if types.len() == 0 {
        0
    } else {
        total_bytes(types.drop_last()) + types.last().total_size as nat
    }
}

/// The bytes held by the types of `category`.
pub open spec fn category_bytes(types: Seq<EnhancedModel>, category: Seq<char>) -> nat
    decreases types.len(),
{
    if types.len() == 0 {
        0
    } else if types.last().category == category {
        category_bytes(types.drop_last(), category) + types.last().total_size as nat
    } else {
        category_bytes(types.drop_last(), category)
    }
}

/// The bytes held by the types of `subcategory` within `category`.
pub open spec fn subcategory_bytes(
    types: Seq<EnhancedModel>,
    category: Seq<char>,
    subcategory: Seq<char>,
) -> nat
    decreases types.len(),
{
    if types.len() == 0 {
        0
    } else if types.last().category == category && types.last().subcategory == subcategory {
        subcategory_bytes(types.drop_last(), category, subcategory)
            + types.last().total_size as nat
    } else {
        subcategory_bytes(types.drop_last(), category, subcategory)
    }
}

/// The types of `subcategory` within `category`, in their order, each with
/// the allocations counted to it.
pub open spec fn subcategory_types(
    types: Seq<EnhancedModel>,
    active: Seq<AllocationModel>,
    category: Seq<char>,
    subcategory: Seq<char>,
) -> Seq<TypeDetailModel>
    decreases types.len(),
{
    if types.len() == 0 {
        Seq::empty()
    } else if types.last().category == category && types.last().subcategory == subcategory {
        subcategory_types(types.drop_last(), active, category, subcategory).push(
            type_detail_of(types.last(), active),
        )
    } else {
        subcategory_types(types.drop_last(), active, category, subcategory)
    }
}

/// What the hierarchy shows of one subcategory.
pub open spec fn subcategory_of(
    types: Seq<EnhancedModel>,
    active: Seq<AllocationModel>,
    category: Seq<char>,
    subcategory: Seq<char>,
) -> SubcategoryModel {
    SubcategoryModel {
        name: subcategory,
        total_size_bytes: subcategory_bytes(types, category, subcategory),
        types: subcategory_types(types, active, category, subcategory),
    }
}

/// What the hierarchy shows of one category.
pub open spec fn category_of(
    types: Seq<EnhancedModel>,
    active: Seq<AllocationModel>,
    category: Seq<char>,
) -> CategoryModel {
    CategoryModel {
        name: category,
        total_size_bytes: category_bytes(types, category),
        subcategories: subcategory_names(types, category).map_values(
            |s: Seq<char>| subcategory_of(types, active, category, s),
        ),
    }
}

/// The hierarchy of `types`: every category in the order of first appearance,
/// in it every subcategory in the order of first appearance, in it the types
/// in their order, each with the allocations of `active` counted to it.
pub open spec fn hierarchy_of(
    types: Seq<EnhancedModel>,
    active: Seq<AllocationModel>,
    stats: MemoryStats,
) -> HierarchyModel {
    HierarchyModel {
        total_memory_bytes: total_bytes(types),
        total_allocations: stats.total_allocations,
        active_allocations: stats.active_allocations,
        active_memory_bytes: stats.active_memory,
        peak_memory_bytes: stats.peak_memory,
        categories: category_names(types).map_values(
            |c: Seq<char>| category_of(types, active, c),
        ),
    }
}

/// A prefix of the types holds no more than all of them.
pub proof fn lemma_prefix_bytes(types: Seq<EnhancedModel>, n: int)
    requires
        0 <= n <= types.len(),
    ensures
        total_bytes(types.take(n)) <= total_bytes(types),
    decreases types.len(),
{
    if n == types.len() {
        assert(types.take(n) =~= types);
    } else {
        assert(types.drop_last().take(n) =~= types.take(n));
        lemma_prefix_bytes(types.drop_last(), n);
    }
}

/// A subcategory holds no more than its category, and a category no more
/// than all the types.
pub proof fn lemma_parts_within_whole(
    types: Seq<EnhancedModel>,
    category: Seq<char>,
    subcategory: Seq<char>,
)
    ensures
        subcategory_bytes(types, category, subcategory) <= category_bytes(types, category),
        category_bytes(types, category) <= total_bytes(types),
    decreases types.len(),
{
    if types.len() > 0 {
        lemma_parts_within_whole(types.drop_last(), category, subcategory);
    }
}

/// What `types.take(n + 1)` adds to `types.take(n)`.
proof fn lemma_take_next(types: Seq<EnhancedTypeInfo>, n: int)
    requires
        0 <= n < types.len(),
    ensures
        enhanced_models(types).take(n + 1).drop_last() == enhanced_models(types).take(n),
        enhanced_models(types).take(n + 1).last() == types[n]@,
{
    assert(enhanced_models(types).take(n + 1).drop_last() =~= enhanced_models(types).take(n));
}

/// Taking all of the types leaves none out.
proof fn lemma_take_all(types: Seq<EnhancedTypeInfo>)
    ensures
        enhanced_models(types).take(types.len() as int) == enhanced_models(types),
{
    assert(enhanced_models(types).take(types.len() as int) =~= enhanced_models(types));
}

/// The bytes held by all of `types`, if the sum fits a `usize`.
pub fn total_type_size(types: &Vec<EnhancedTypeInfo>) -> (total: Option<usize>)
    ensures
        match total {
            Some(sum) => sum == total_bytes(enhanced_models(types@)),
            None => total_bytes(enhanced_models(types@)) > usize::MAX,
        },
{
    let mut sum: usize = 0;
    let mut i: usize = 0;
    while i < types.len()
        invariant
            i <= types.len(),
            sum == total_bytes(enhanced_models(types@).take(i as int)),
        decreases types.len() - i,
    {
        proof {
            lemma_take_next(types@, i as int);
        }
        match sum.checked_add(types[i].total_size) {
            Some(next) => {
                sum = next;
            },
            None => {
                proof {
                    lemma_prefix_bytes(enhanced_models(types@), i + 1);
                }
                return None;
            },
        }
        i = i + 1;
    }
    proof {
        lemma_take_all(types@);
    }
    Some(sum)
}

/// The bytes held by all of `types`.
pub fn all_types_size(types: &Vec<EnhancedTypeInfo>) -> (sum: usize)
    requires
        total_bytes(enhanced_models(types@)) <= usize::MAX,
    ensures
        sum == total_bytes(enhanced_models(types@)),
{
    let mut sum: usize = 0;
    let mut i: usize = 0;
    while i < types.len()
        invariant
            i <= types.len(),
            total_bytes(enhanced_models(types@)) <= usize::MAX,
            sum == total_bytes(enhanced_models(types@).take(i as int)),
        decreases types.len() - i,
    {
        proof {
            lemma_take_next(types@, i as int);
            lemma_prefix_bytes(enhanced_models(types@), i + 1);
        }
        sum = sum + types[i].total_size;
        i = i + 1;
    }
    proof {
        lemma_take_all(types@);
    }
    sum
}

/// The categories of `types`, each once, in the order of first appearance.
pub fn distinct_categories(types: &Vec<EnhancedTypeInfo>) -> (names: Vec<String>)
    ensures
        texts(names@) == category_names(enhanced_models(types@)),
{
    let mut names: Vec<String> = Vec::new();
    let mut i: usize = 0;
    assert(texts(names@) =~= Seq::<Seq<char>>::empty());
    while i < types.len()
        invariant
            i <= types.len(),
            texts(names@) == category_names(enhanced_models(types@).take(i as int)),
        decreases types.len() - i,
    {
        proof {
            lemma_take_next(types@, i as int);
        }
        if !texts_contain(&names, &types[i].category) {
            let ghost before = names@;
            names.push(types[i].category.clone());
            assert(texts(names@) =~= texts(before).push(types[i as int].category@));
        }
        i = i + 1;
    }
    proof {
        lemma_take_all(types@);
    }
    names
}

/// The subcategories that occur in `category`, each once, in the order of
/// first appearance.
pub fn distinct_subcategories(types: &Vec<EnhancedTypeInfo>, category: &String) -> (names: Vec<
    String,
>)
    ensures
        texts(names@) == subcategory_names(enhanced_models(types@), category@),
{
    let mut names: Vec<String> = Vec::new();
    let mut i: usize = 0;
    assert(texts(names@) =~= Seq::<Seq<char>>::empty());
    while i < types.len()
        invariant
            i <= types.len(),
            texts(names@) == subcategory_names(
                enhanced_models(types@).take(i as int),
                category@,
            ),
        decreases types.len() - i,
    {
        proof {
            lemma_take_next(types@, i as int);
        }
        if types[i].category == *category && !texts_contain(&names, &types[i].subcategory) {
            let ghost before = names@;
            names.push(types[i].subcategory.clone());
            assert(texts(names@) =~= texts(before).push(types[i as int].subcategory@));
        }
        i = i + 1;
    }
    proof {
        lemma_take_all(types@);
    }
    names
}

/// One subcategory of the hierarchy.
pub fn build_subcategory(
    types: &Vec<EnhancedTypeInfo>,
    active: &Vec<AllocationInfo>,
    category: &String,
    subcategory: String,
) -> (node: SubcategoryNode)
    requires
        total_bytes(enhanced_models(types@)) <= usize::MAX,
    ensures
        node@ == subcategory_of(
            enhanced_models(types@),
            models(active@),
            category@,
            subcategory@,
        ),
{
    let mut listed: Vec<TypeDetail> = Vec::new();
    let mut sum: usize = 0;
    let mut i: usize = 0;
    assert(type_models(listed@) =~= Seq::<TypeDetailModel>::empty());
    while i < types.len()
        invariant
            i <= types.len(),
            total_bytes(enhanced_models(types@)) <= usize::MAX,
            sum == subcategory_bytes(
                enhanced_models(types@).take(i as int),
                category@,
                subcategory@,
            ),
            type_models(listed@) == subcategory_types(
                enhanced_models(types@).take(i as int),
                models(active@),
                category@,
                subcategory@,
            ),
        decreases types.len() - i,
    {
        proof {
            lemma_take_next(types@, i as int);
            lemma_prefix_bytes(enhanced_models(types@), i + 1);
            lemma_parts_within_whole(
                enhanced_models(types@).take(i + 1),
                category@,
                subcategory@,
            );
        }
        if types[i].category == *category && types[i].subcategory == subcategory {
            let detail = type_detail(&types[i], active);
            let ghost before = listed@;
            listed.push(detail);
            assert(type_models(listed@) =~= type_models(before).push(detail@));
            sum = sum + types[i].total_size;
        }
        i = i + 1;
    }
    proof {
        lemma_take_all(types@);
    }
    SubcategoryNode { name: subcategory, total_size_bytes: sum, types: listed }
}

/// The bytes held by the types of `category`.
pub fn category_size(types: &Vec<EnhancedTypeInfo>, category: &String) -> (sum: usize)
    requires
        total_bytes(enhanced_models(types@)) <= usize::MAX,
    ensures
        sum == category_bytes(enhanced_models(types@), category@),
{
    let mut sum: usize = 0;
    let mut i: usize = 0;
    while i < types.len()
        invariant
            i <= types.len(),
            total_bytes(enhanced_models(types@)) <= usize::MAX,
            sum == category_bytes(enhanced_models(types@).take(i as int), category@),
        decreases types.len() - i,
    {
        proof {
            lemma_take_next(types@, i as int);
            lemma_prefix_bytes(enhanced_models(types@), i + 1);
            lemma_parts_within_whole(enhanced_models(types@).take(i + 1), category@, category@);
        }
        if types[i].category == *category {
            sum = sum + types[i].total_size;
        }
        i = i + 1;
    }
    proof {
        lemma_take_all(types@);
    }
    sum
}

/// One category of the hierarchy.
pub fn build_category(
    types: &Vec<EnhancedTypeInfo>,
    active: &Vec<AllocationInfo>,
    category: String,
) -> (node: CategoryNode)
    requires
        total_bytes(enhanced_models(types@)) <= usize::MAX,
    ensures
        node@ == category_of(enhanced_models(types@), models(active@), category@),
{
    let names = distinct_subcategories(types, &category);
    let total = category_size(types, &category);
    let mut nodes: Vec<SubcategoryNode> = Vec::new();
    let mut i: usize = 0;
    while i < names.len()
        invariant
            i <= names.len(),
            total_bytes(enhanced_models(types@)) <= usize::MAX,
            nodes.len() == i,
            forall|j: int|
                0 <= j < i ==> (#[trigger] nodes[j])@ == subcategory_of(
                    enhanced_models(types@),
                    models(active@),
                    category@,
                    names[j]@,
                ),
        decreases names.len() - i,
    {
        let node = build_subcategory(types, active, &category, names[i].clone());
        nodes.push(node);
        i = i + 1;
    }
    proof {
        let expected = subcategory_names(enhanced_models(types@), category@).map_values(
            |s: Seq<char>| subcategory_of(enhanced_models(types@), models(active@), category@, s),
        );
        assert(texts(names@).len() == names.len());
        assert forall|j: int| 0 <= j < nodes.len() implies subcategory_models(nodes@)[j]
            == expected[j] by {
            assert(texts(names@)[j] == names[j]@);
        }
        assert(subcategory_models(nodes@) =~= expected);
    }
    CategoryNode { name: category, total_size_bytes: total, subcategories: nodes }
}

/// Arranges the enriched types by category and subcategory, adds up what each
/// level holds, and lists under each type the live allocations counted to it.
/// Each level adds up to the level above it.
pub fn build_hierarchy(
    types: &Vec<EnhancedTypeInfo>,
    active: &Vec<AllocationInfo>,
    stats: &MemoryStats,
) -> (hierarchy: MemoryHierarchy)
    requires
        total_bytes(enhanced_models(types@)) <= usize::MAX,
    ensures
        hierarchy@ == hierarchy_of(enhanced_models(types@), models(active@), *stats),
        levels_add_up(hierarchy@),
{
    let total = all_types_size(types);
    let names = distinct_categories(types);
    let mut nodes: Vec<CategoryNode> = Vec::new();
    let mut i: usize = 0;
    while i < names.len()
        invariant
            i <= names.len(),
            total_bytes(enhanced_models(types@)) <= usize::MAX,
            nodes.len() == i,
            forall|j: int|
                0 <= j < i ==> (#[trigger] nodes[j])@ == category_of(
                    enhanced_models(types@),
                    models(active@),
                    names[j]@,
                ),
        decreases names.len() - i,
    {
        let node = build_category(types, active, names[i].clone());
        nodes.push(node);
        i = i + 1;
    }
    proof {
        let expected = category_names(enhanced_models(types@)).map_values(
            |c: Seq<char>| category_of(enhanced_models(types@), models(active@), c),
        );
        assert(texts(names@).len() == names.len());
        assert forall|j: int| 0 <= j < nodes.len() implies category_models(nodes@)[j]
            == expected[j] by {
            assert(texts(names@)[j] == names[j]@);
        }
        assert(category_models(nodes@) =~= expected);
        lemma_levels_add_up(enhanced_models(types@), models(active@), *stats);
    }
    MemoryHierarchy {
        total_memory_bytes: total,
        total_allocations: stats.total_allocations,
        active_allocations: stats.active_allocations,
        active_memory_bytes: stats.active_memory,
        peak_memory_bytes: stats.peak_memory,
        categories: nodes,
    }
}

/// The hierarchy of `types`, or `None` where the types together hold more
/// bytes than a `usize` can count.
pub fn checked_hierarchy(
    types: &Vec<EnhancedTypeInfo>,
    active: &Vec<AllocationInfo>,
    stats: &MemoryStats,
) -> (hierarchy: Option<MemoryHierarchy>)
    ensures
        match hierarchy {
            Some(h) => {
                &&& total_bytes(enhanced_models(types@)) <= usize::MAX
                &&& h@ == hierarchy_of(enhanced_models(types@), models(active@), *stats)
                &&& levels_add_up(h@)
            },
            None => total_bytes(enhanced_models(types@)) > usize::MAX,
        },
{
    match total_type_size(types) {
        Some(_) => Some(build_hierarchy(types, active, stats)),
        None => None,
    }
}

} // verus!
