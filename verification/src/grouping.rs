//! Grouping of the rows of the property table: the groups in the order of
//! their priorities and names, the rows of a group in the order of their
//! display priorities and names.

use crate::model::{
    PropertyGroup, PropertyGroupModel, PropertyInformation as Row,
    PropertyInformationModel as RowModel,
};
use crate::projector::{simplified, simplify_value};
use crate::properties::PropertyInformation;
use crate::text::{lemma_lex_lt_total, lemma_lex_lt_transitive, lex_lt, str_lt};
use itertools::Itertools;
use std::cmp::Ordering;
use vstd::prelude::*;

verus! {

/// What tells one group from another: its name and its priority.
#[derive(Debug, PartialEq, Eq)]
pub struct GroupKey {
    pub name: String,
    pub priority: u32,
}

/// What a group key holds.
pub struct GroupKeyModel {
    pub name: Seq<char>,
    pub priority: u32,
}

impl DeepView for GroupKey {
    type V = GroupKeyModel;

    open spec fn deep_view(&self) -> GroupKeyModel {
        GroupKeyModel { name: self.name@, priority: self.priority }
    }
}

impl View for GroupKey {
    type V = GroupKeyModel;

    open spec fn view(&self) -> GroupKeyModel {
        self.deep_view()
    }
}

impl Clone for GroupKey {
    fn clone(&self) -> (r: GroupKey)
        ensures
            r@ == self@,
    {
        GroupKey { name: self.name.clone(), priority: self.priority }
    }
}

/// The order of groups: by priority, and by name among groups of one
/// priority.
pub open spec fn key_lt(a: GroupKeyModel, b: GroupKeyModel) -> bool {
    a.priority < b.priority || (a.priority == b.priority && lex_lt(a.name, b.name))
}

/// The order of the rows of a group: by display priority, and by name
/// among rows of one priority.
pub open spec fn row_lt(a: RowModel, b: RowModel) -> bool {
    a.display_priority < b.display_priority || (a.display_priority == b.display_priority
        && lex_lt(a.name, b.name))
}

/// The order of groups is a strict total order.
pub proof fn lemma_key_order(a: GroupKeyModel, b: GroupKeyModel, c: GroupKeyModel)
    ensures
        !(key_lt(a, b) && key_lt(b, a)),
        a != b ==> key_lt(a, b) || key_lt(b, a),
        key_lt(a, b) && key_lt(b, c) ==> key_lt(a, c),
{
    lemma_lex_lt_total(a.name, b.name);
    if lex_lt(a.name, b.name) && lex_lt(b.name, c.name) {
        lemma_lex_lt_transitive(a.name, b.name, c.name);
    }
}

/// Compares two groups by priority, then by name.
pub fn compare_group_keys(a: &GroupKey, b: &GroupKey) -> (r: Ordering)
    ensures
        (r == Ordering::Less) == key_lt(a@, b@),
        (r == Ordering::Greater) == key_lt(b@, a@),
{
    proof {
        lemma_lex_lt_total(a.name@, b.name@);
    }
    if a.priority < b.priority {
        Ordering::Less
    } else if a.priority > b.priority {
        Ordering::Greater
    } else if str_lt(a.name.as_str(), b.name.as_str()) {
        Ordering::Less
    } else if str_lt(b.name.as_str(), a.name.as_str()) {
        Ordering::Greater
    } else {
        Ordering::Equal
    }
}

/// `Itertools::sorted_by`, collected into a vector: the documentation says
/// that it sorts all elements in ascending order by the given comparison,
/// with the standard library's stable sort. The contract states that the
/// result holds the same keys, each as often as before, and that no key
/// stands before one that sorts before it. The comparison handed over is
/// `compare_group_keys`, which is verified to decide the order `key_lt`.
#[verifier::external_body]
pub(crate) fn sort_group_keys(keys: Vec<GroupKey>) -> (sorted: Vec<GroupKey>)
    ensures
        sorted.deep_view().to_multiset() == keys.deep_view().to_multiset(),
        forall|a: int, b: int|
            0 <= a < b < sorted.len() ==> !key_lt(
                #[trigger] sorted.deep_view()[b],
                #[trigger] sorted.deep_view()[a],
            ),
{
    keys.into_iter().sorted_by(|a, b| compare_group_keys(a, b)).collect()
}

/// A sorted list with one more row: the row stands behind every row that
/// does not sort behind it.
pub open spec fn insert_row(sorted: Seq<RowModel>, row: RowModel) -> Seq<RowModel>
    decreases sorted.len(),
{
    if sorted.len() == 0 {
        seq![row]
    } else if row_lt(row, sorted.last()) {
        insert_row(sorted.drop_last(), row).push(sorted.last())
    } else {
        sorted.push(row)
    }
}

/// The rows in the order of their display priorities and names; rows that
/// agree in both keep the order in which they came.
pub open spec fn sorted_rows(rows: Seq<RowModel>) -> Seq<RowModel>
    decreases rows.len(),
{
    if rows.len() == 0 {
        Seq::empty()
    } else {
        insert_row(sorted_rows(rows.drop_last()), rows.last())
    }
}

/// To insert a row is to put it at the place before which no row sorts
/// behind it, and from which on every row does.
proof fn lemma_insert_row_at(sorted: Seq<RowModel>, row: RowModel, at: int)
    requires
        0 <= at <= sorted.len(),
        forall|k: int| at <= k < sorted.len() ==> row_lt(row, #[trigger] sorted[k]),
        at > 0 ==> !row_lt(row, sorted[at - 1]),
    ensures
        insert_row(sorted, row) == sorted.insert(at, row),
    decreases sorted.len(),
{
    if sorted.len() == 0 {
        assert(sorted.insert(at, row) =~= seq![row]);
    } else if at == sorted.len() {
        assert(sorted.insert(at, row) =~= sorted.push(row));
    } else {
        assert(row_lt(row, sorted[sorted.len() - 1]));
        lemma_insert_row_at(sorted.drop_last(), row, at);
        assert(sorted.insert(at, row) =~= sorted.drop_last().insert(at, row).push(sorted.last()));
    }
}

/// The order of rows is a strict weak order: no two rows sort before each
/// other, the order is transitive, and a row that sorts before another
/// sorts before every third row that does not sort before it.
pub proof fn lemma_row_order(a: RowModel, b: RowModel, c: RowModel)
    ensures
        !(row_lt(a, b) && row_lt(b, a)),
        row_lt(a, b) && row_lt(b, c) ==> row_lt(a, c),
        row_lt(a, c) ==> row_lt(a, b) || row_lt(b, c),
{
    lemma_lex_lt_total(a.name, b.name);
    lemma_lex_lt_total(b.name, c.name);
    if lex_lt(a.name, b.name) && lex_lt(b.name, c.name) {
        lemma_lex_lt_transitive(a.name, b.name, c.name);
    }
    if lex_lt(b.name, a.name) && lex_lt(a.name, c.name) {
        lemma_lex_lt_transitive(b.name, a.name, c.name);
    }
}

/// The place at which a row is inserted into a sorted list: behind the
/// last row that does not sort behind it.
pub open spec fn insert_position(sorted: Seq<RowModel>, row: RowModel) -> int
    decreases sorted.len(),
{
    if sorted.len() == 0 {
        0
    } else if row_lt(row, sorted.last()) {
        insert_position(sorted.drop_last(), row)
    } else {
        sorted.len() as int
    }
}

/// To insert a row is to put it at its place and to leave every other row
/// where it is.
pub proof fn lemma_insert_row(sorted: Seq<RowModel>, row: RowModel)
    ensures
        0 <= insert_position(sorted, row) <= sorted.len(),
        insert_row(sorted, row) == sorted.insert(insert_position(sorted, row), row),
        forall|k: int|
            insert_position(sorted, row) <= k < sorted.len() ==> row_lt(row, #[trigger] sorted[k]),
        insert_position(sorted, row) > 0 ==> !row_lt(
            row,
            sorted[insert_position(sorted, row) - 1],
        ),
    decreases sorted.len(),
{
    if sorted.len() > 0 && row_lt(row, sorted.last()) {
        lemma_insert_row(sorted.drop_last(), row);
    }
    let at = insert_position(sorted, row);
    assert forall|k: int| at <= k < sorted.len() implies row_lt(row, #[trigger] sorted[k]) by {
        if k < sorted.len() - 1 {
            assert(sorted[k] == sorted.drop_last()[k]);
        }
    }
    if at > 0 && sorted.len() > 0 && row_lt(row, sorted.last()) {
        assert(sorted[at - 1] == sorted.drop_last()[at - 1]);
    }
    lemma_insert_row_at(sorted, row, at);
}

/// Whether no row of a list stands before one that sorts before it.
pub open spec fn rows_ordered(rows: Seq<RowModel>) -> bool {
    forall|a: int, b: int| 0 <= a < b < rows.len() ==> !row_lt(#[trigger] rows[b], #[trigger] rows[a])
}

/// Sorted rows are in order, and are the rows that were sorted, each as
/// often as before.
pub proof fn lemma_sorted_rows(rows: Seq<RowModel>)
    ensures
        rows_ordered(sorted_rows(rows)),
        sorted_rows(rows).to_multiset() == rows.to_multiset(),
        sorted_rows(rows).len() == rows.len(),
    decreases rows.len(),
{
    if rows.len() == 0 {
        assert(sorted_rows(rows) =~= rows);
    } else {
        let before = sorted_rows(rows.drop_last());
        let row = rows.last();
        lemma_sorted_rows(rows.drop_last());
        lemma_insert_row(before, row);
        let at = insert_position(before, row);
        let after = before.insert(at, row);
        assert forall|a: int, b: int| 0 <= a < b < after.len() implies !row_lt(
            #[trigger] after[b],
            #[trigger] after[a],
        ) by {
            if a == at {
                lemma_row_order(row, before[b - 1], row);
            } else if b == at {
                lemma_row_order(row, before[at - 1], before[a]);
                if a < at - 1 {
                    assert(!row_lt(before[at - 1], before[a]));
                }
            } else {
                let x = if a < at { a } else { a - 1 };
                let y = if b < at { b } else { b - 1 };
                assert(!row_lt(before[y], before[x]));
            }
        }
        vstd::seq_lib::to_multiset_insert(before, at, row);
        assert(rows =~= rows.drop_last().push(row));
        vstd::seq_lib::to_multiset_build(rows.drop_last(), row);
    }
}

fn row_before(a: &Row, b: &Row) -> (r: bool)
    ensures
        r == row_lt(a@, b@),
{
    a.display_priority < b.display_priority || (a.display_priority == b.display_priority
        && str_lt(a.name.as_str(), b.name.as_str()))
}

/// Sorts the rows of a group by display priority, then by name, keeping
/// the order of rows that agree in both.
pub fn sort_rows(rows: &Vec<Row>) -> (sorted: Vec<Row>)
    ensures
        sorted.deep_view() == sorted_rows(rows.deep_view()),
{
    let mut sorted: Vec<Row> = Vec::new();
    let mut i: usize = 0;
    assert(rows.deep_view().take(0) =~= Seq::empty());
    assert(sorted.deep_view() =~= Seq::empty());
    while i < rows.len()
        invariant
            i <= rows.len(),
            sorted.len() == i,
            sorted.deep_view() == sorted_rows(rows.deep_view().take(i as int)),
        decreases rows.len() - i,
    {
        let row = rows[i].clone();
        let mut at: usize = sorted.len();
        while at > 0 && row_before(&row, &sorted[at - 1])
            invariant
                at <= sorted.len(),
                forall|k: int|
                    at <= k < sorted.len() ==> row_lt(row@, #[trigger] sorted.deep_view()[k]),
            decreases at,
        {
            at -= 1;
        }
        let ghost before = sorted.deep_view();
        proof {
            lemma_insert_row_at(before, row@, at as int);
            assert(rows.deep_view().take(i + 1).drop_last() =~= rows.deep_view().take(i as int));
            assert(rows.deep_view().take(i + 1).last() == row@);
        }
        sorted.insert(at, row);
        assert(sorted.deep_view() =~= before.insert(at as int, row@));
        i += 1;
    }
    assert(rows.deep_view().take(rows.len() as int) =~= rows.deep_view());
    sorted
}

/// The key of the group that a property belongs to.
pub open spec fn key_of(pi: PropertyInformation) -> GroupKeyModel {
    GroupKeyModel { name: pi.group@, priority: pi.group_priority }
}

/// The row that the table shows for a property: its name, the name of its
/// type, its editable value, and its priority.
pub open spec fn row_of(pi: PropertyInformation) -> RowModel {
    RowModel {
        name: pi.name@,
        ty_name: pi.ty_name@,
        value: simplified(pi),
        display_priority: pi.priority as i32,
    }
}

/// The rows of those of the first `count` properties that belong to a
/// group, in the order of the properties.
pub open spec fn rows_of_group(
    properties: Seq<PropertyInformation>,
    key: GroupKeyModel,
    count: int,
) -> Seq<RowModel>
    decreases count,
{
    if count <= 0 {
        Seq::empty()
    } else if key_of(properties[count - 1]) == key {
        rows_of_group(properties, key, count - 1).push(row_of(properties[count - 1]))
    } else {
        rows_of_group(properties, key, count - 1)
    }
}

/// Whether a key is the key of one of the properties.
pub open spec fn occurs(key: GroupKeyModel, properties: Seq<PropertyInformation>) -> bool {
    exists|i: int| 0 <= i < properties.len() && key_of(#[trigger] properties[i]) == key
}

/// Whether `keys` are the groups of the properties, in order: each key is
/// the key of one of the properties, each property's key is among them, and
/// each key sorts before the keys behind it.
pub open spec fn is_group_key_list(
    keys: Seq<GroupKeyModel>,
    properties: Seq<PropertyInformation>,
) -> bool {
    &&& forall|a: int, b: int| 0 <= a < b < keys.len() ==> key_lt(#[trigger] keys[a], #[trigger] keys[b])
    &&& forall|k: int| 0 <= k < keys.len() ==> occurs(#[trigger] keys[k], properties)
    &&& forall|i: int|
        0 <= i < properties.len() ==> keys.contains(key_of(#[trigger] properties[i]))
}

/// The groups of the given keys: each has the name of its key, and the
/// rows of the properties that belong to it, sorted.
pub open spec fn groups_for(
    keys: Seq<GroupKeyModel>,
    properties: Seq<PropertyInformation>,
) -> Seq<PropertyGroupModel> {
    Seq::new(
        keys.len(),
        |k: int|
            PropertyGroupModel {
                group_name: keys[k].name,
                properties: sorted_rows(
                    rows_of_group(properties, keys[k], properties.len() as int),
                ),
            },
    )
}

/// Whether `groups` is the property table of the properties: one group for
/// each group key that occurs among the properties, in the order of the
/// keys, each with the sorted rows of its properties.
pub open spec fn is_grouping(
    groups: Seq<PropertyGroupModel>,
    properties: Seq<PropertyInformation>,
) -> bool {
    exists|keys: Seq<GroupKeyModel>| #[trigger]
        is_group_key_list(keys, properties) && groups == groups_for(keys, properties)
}

/// In a property table the rows of every group are in order, and no group
/// is empty.
pub proof fn lemma_grouping_is_sorted(
    groups: Seq<PropertyGroupModel>,
    properties: Seq<PropertyInformation>,
)
    requires
        is_grouping(groups, properties),
    ensures
        forall|g: int| 0 <= g < groups.len() ==> rows_ordered((#[trigger] groups[g]).properties),
        forall|g: int| 0 <= g < groups.len() ==> (#[trigger] groups[g]).properties.len() > 0,
{
    let keys = choose|keys: Seq<GroupKeyModel>| #[trigger]
        is_group_key_list(keys, properties) && groups == groups_for(keys, properties);
    assert forall|g: int| 0 <= g < groups.len() implies rows_ordered(
        (#[trigger] groups[g]).properties,
    ) && groups[g].properties.len() > 0 by {
        let rows = rows_of_group(properties, keys[g], properties.len() as int);
        lemma_sorted_rows(rows);
        assert(occurs(keys[g], properties));
        let i = choose|i: int| 0 <= i < properties.len() && key_of(#[trigger] properties[i]) == keys[g];
        lemma_rows_of_present_group(properties, keys[g], properties.len() as int, i);
    }
}

/// A group that one of the counted properties belongs to has a row.
proof fn lemma_rows_of_present_group(
    properties: Seq<PropertyInformation>,
    key: GroupKeyModel,
    count: int,
    i: int,
)
    requires
        0 <= i < count <= properties.len(),
        key_of(properties[i]) == key,
    ensures
        rows_of_group(properties, key, count).len() > 0,
    decreases count,
{
    if i < count - 1 {
        lemma_rows_of_present_group(properties, key, count - 1, i);
    }
}

/// Two lists of group keys for the same properties are the same list: the
/// property table of a list of properties is unique.
pub proof fn lemma_group_keys_unique(
    a: Seq<GroupKeyModel>,
    b: Seq<GroupKeyModel>,
    properties: Seq<PropertyInformation>,
)
    requires
        is_group_key_list(a, properties),
        is_group_key_list(b, properties),
    ensures
        a == b,
{
    assert forall|k: GroupKeyModel| a.contains(k) <==> b.contains(k) by {
        if a.contains(k) {
            let x = choose|x: int| 0 <= x < a.len() && a[x] == k;
            assert(occurs(a[x], properties));
        }
        if b.contains(k) {
            let x = choose|x: int| 0 <= x < b.len() && b[x] == k;
            assert(occurs(b[x], properties));
        }
    }
    lemma_strictly_sorted_same_members(a, b);
}

/// Two lists in which each key sorts before the keys behind it, and which
/// have the same members, are the same list.
proof fn lemma_strictly_sorted_same_members(a: Seq<GroupKeyModel>, b: Seq<GroupKeyModel>)
    requires
        forall|x: int, y: int| 0 <= x < y < a.len() ==> key_lt(#[trigger] a[x], #[trigger] a[y]),
        forall|x: int, y: int| 0 <= x < y < b.len() ==> key_lt(#[trigger] b[x], #[trigger] b[y]),
        forall|k: GroupKeyModel| a.contains(k) <==> b.contains(k),
    ensures
        a == b,
    decreases a.len(),
{
    if a.len() == 0 {
        if b.len() > 0 {
            assert(b.contains(b[0]));
        }
        assert(a =~= b);
    } else if b.len() == 0 {
        assert(a.contains(a[0]));
    } else {
        // The last keys are the greatest, and so the same.
        let la = a.last();
        let lb = b.last();
        assert(a.contains(la));
        assert(b.contains(lb));
        let ia = choose|i: int| 0 <= i < a.len() && a[i] == lb;
        let ib = choose|i: int| 0 <= i < b.len() && b[i] == la;
        lemma_key_order(la, lb, la);
        assert(la == lb) by {
            if la != lb {
                if ia < a.len() - 1 {
                    assert(key_lt(a[ia], a[a.len() - 1]));
                }
                if ib < b.len() - 1 {
                    assert(key_lt(b[ib], b[b.len() - 1]));
                }
            }
        }
        let ra = a.drop_last();
        let rb = b.drop_last();
        assert forall|k: GroupKeyModel| ra.contains(k) <==> rb.contains(k) by {
            lemma_key_order(k, la, k);
            if ra.contains(k) {
                let i = choose|i: int| 0 <= i < ra.len() && ra[i] == k;
                assert(key_lt(a[i], a[a.len() - 1]));
                assert(a.contains(k));
                let j = choose|j: int| 0 <= j < b.len() && b[j] == k;
                assert(rb[j] == k);
            }
            if rb.contains(k) {
                let i = choose|i: int| 0 <= i < rb.len() && rb[i] == k;
                assert(key_lt(b[i], b[b.len() - 1]));
                assert(b.contains(k));
                let j = choose|j: int| 0 <= j < a.len() && a[j] == k;
                assert(ra[j] == k);
            }
        }
        assert forall|x: int, y: int| 0 <= x < y < ra.len() implies key_lt(
            #[trigger] ra[x],
            #[trigger] ra[y],
        ) by {
            assert(key_lt(a[x], a[y]));
        }
        assert forall|x: int, y: int| 0 <= x < y < rb.len() implies key_lt(
            #[trigger] rb[x],
            #[trigger] rb[y],
        ) by {
            assert(key_lt(b[x], b[y]));
        }
        lemma_strictly_sorted_same_members(ra, rb);
        assert(a =~= ra.push(la));
        assert(b =~= rb.push(lb));
    }
}

/// The rows gathered for one group.
struct GroupRows {
    key: GroupKey,
    rows: Vec<Row>,
}

/// Whether one of the gathered groups has the given key.
spec fn gathered(groups: Seq<GroupRows>, key: GroupKeyModel) -> bool {
    exists|g: int| 0 <= g < groups.len() && (#[trigger] groups[g]).key@ == key
}

/// The keys of the gathered groups, in order.
spec fn gathered_keys(groups: Seq<GroupRows>) -> Seq<GroupKeyModel> {
    Seq::new(groups.len(), |g: int| groups[g].key@)
}

/// Makes the row that the table shows for a property.
pub fn property_row(pi: &PropertyInformation) -> (row: Row)
    requires
        pi.priority <= i32::MAX,
    ensures
        row@ == row_of(*pi),
{
    Row {
        name: pi.name.clone(),
        ty_name: pi.ty_name.clone(),
        value: simplify_value(pi),
        display_priority: pi.priority as i32,
    }
}

fn find_group(groups: &Vec<GroupRows>, name: &String, priority: u32) -> (r: Option<usize>)
    ensures
        r matches Some(g) ==> g < groups.len() && groups@[g as int].key@ == (GroupKeyModel {
            name: name@,
            priority,
        }),
        r is None ==> !gathered(groups@, GroupKeyModel { name: name@, priority }),
{
    let mut g: usize = 0;
    while g < groups.len()
        invariant
            g <= groups.len(),
            forall|x: int|
                0 <= x < g ==> (#[trigger] groups@[x]).key@ != (GroupKeyModel {
                    name: name@,
                    priority,
                }),
        decreases groups.len() - g,
    {
        if groups[g].key.priority == priority && groups[g].key.name == *name {
            return Some(g);
        }
        g += 1;
    }
    None
}

/// No row belongs to a group whose key none of the properties has.
proof fn lemma_no_rows_of_absent_group(
    properties: Seq<PropertyInformation>,
    key: GroupKeyModel,
    count: int,
)
    requires
        count <= properties.len(),
        forall|p: int| 0 <= p < count ==> key_of(#[trigger] properties[p]) != key,
    ensures
        rows_of_group(properties, key, count) == Seq::<RowModel>::empty(),
    decreases count,
{
    if count > 0 {
        lemma_no_rows_of_absent_group(properties, key, count - 1);
    }
}

fn gather_rows(properties: &Vec<PropertyInformation>) -> (groups: Vec<GroupRows>)
    requires
        forall|i: int| 0 <= i < properties.len() ==> (#[trigger] properties@[i]).priority <= i32::MAX,
    ensures
        forall|g: int|
            0 <= g < groups.len() ==> (#[trigger] groups@[g]).rows.deep_view() == rows_of_group(
                properties@,
                groups@[g].key@,
                properties.len() as int,
            ),
        forall|g: int, h: int|
            0 <= g < h < groups.len() ==> (#[trigger] groups@[g]).key@ != (#[trigger] groups@[h]).key@,
        forall|g: int| 0 <= g < groups.len() ==> occurs((#[trigger] groups@[g]).key@, properties@),
        forall|p: int|
            0 <= p < properties.len() ==> gathered(groups@, key_of(#[trigger] properties@[p])),
{
    let mut groups: Vec<GroupRows> = Vec::new();
    let mut i: usize = 0;
    while i < properties.len()
        invariant
            i <= properties.len(),
            forall|i: int|
                0 <= i < properties.len() ==> (#[trigger] properties@[i]).priority <= i32::MAX,
            forall|g: int|
                0 <= g < groups.len() ==> (#[trigger] groups@[g]).rows.deep_view()
                    == rows_of_group(properties@, groups@[g].key@, i as int),
            forall|g: int, h: int|
                0 <= g < h < groups.len() ==> (#[trigger] groups@[g]).key@ != (
                #[trigger] groups@[h]).key@,
            forall|g: int|
                0 <= g < groups.len() ==> occurs((#[trigger] groups@[g]).key@, properties@),
            forall|p: int| 0 <= p < i ==> gathered(groups@, key_of(#[trigger] properties@[p])),
        decreases properties.len() - i,
    {
        let pi = &properties[i];
        let row = property_row(pi);
        let ghost before = groups@;
        let ghost key = key_of(*pi);
        match find_group(&groups, &pi.group, pi.group_priority) {
            Some(g) => {
                let mut group = groups.remove(g);
                let ghost old_rows = group.rows.deep_view();
                group.rows.push(row);
                assert(group.rows.deep_view() =~= old_rows.push(row@));
                groups.insert(g, group);
                proof {
                    assert(groups@.len() == before.len());
                    assert forall|x: int| 0 <= x < groups.len() implies (#[trigger] groups@[x]).key@
                        == before[x].key@ by {}
                    assert forall|x: int| 0 <= x < groups.len() && x != g implies (
                    #[trigger] groups@[x]).rows == before[x].rows by {}
                    assert forall|p: int| 0 <= p < i + 1 implies gathered(
                        groups@,
                        key_of(#[trigger] properties@[p]),
                    ) by {
                        if p < i {
                            assert(gathered(before, key_of(properties@[p])));
                            let x = choose|x: int|
                                0 <= x < before.len() && (#[trigger] before[x]).key@ == key_of(
                                    properties@[p],
                                );
                            assert(groups@[x].key@ == key_of(properties@[p]));
                        } else {
                            assert(groups@[g as int].key@ == key);
                        }
                    }
                }
            },
            None => {
                proof {
                    assert forall|p: int| 0 <= p < i implies key_of(#[trigger] properties@[p])
                        != key by {
                        assert(gathered(before, key_of(properties@[p])));
                    }
                    lemma_no_rows_of_absent_group(properties@, key, i as int);
                }
                let mut rows: Vec<Row> = Vec::new();
                rows.push(row);
                assert(rows.deep_view() =~= Seq::<RowModel>::empty().push(row@));
                let group = GroupRows {
                    key: GroupKey { name: pi.group.clone(), priority: pi.group_priority },
                    rows,
                };
                groups.push(group);
                proof {
                    assert(occurs(key, properties@));
                    assert forall|p: int| 0 <= p < i + 1 implies gathered(
                        groups@,
                        key_of(#[trigger] properties@[p]),
                    ) by {
                        if p < i {
                            assert(gathered(before, key_of(properties@[p])));
                            let x = choose|x: int|
                                0 <= x < before.len() && (#[trigger] before[x]).key@ == key_of(
                                    properties@[p],
                                );
                            assert(groups@[x].key@ == key_of(properties@[p]));
                        } else {
                            assert(groups@[groups.len() - 1].key@ == key);
                        }
                    }
                    assert forall|g: int, h: int| 0 <= g < h < groups.len() implies (
                    #[trigger] groups@[g]).key@ != (#[trigger] groups@[h]).key@ by {
                        if h == groups.len() - 1 {
                            assert(before[g].key@ != key);
                        }
                    }
                }
            },
        }
        i += 1;
    }
    groups
}

/// Builds the property table of a list of properties: one group for each
/// group key that occurs among them, the groups in the order of their
/// priorities and names, and in each group the rows of its properties in
/// the order of their display priorities and names.
pub fn group_properties(properties: &Vec<PropertyInformation>) -> (groups: Vec<PropertyGroup>)
    requires
        forall|i: int| 0 <= i < properties.len() ==> (#[trigger] properties@[i]).priority <= i32::MAX,
    ensures
        is_grouping(groups.deep_view(), properties@),
{
    let gathered_rows = gather_rows(properties);
    let mut keys: Vec<GroupKey> = Vec::new();
    let mut g: usize = 0;
    while g < gathered_rows.len()
        invariant
            g <= gathered_rows.len(),
            keys.len() == g,
            forall|x: int| 0 <= x < g ==> (#[trigger] keys@[x])@ == gathered_rows@[x].key@,
        decreases gathered_rows.len() - g,
    {
        keys.push(gathered_rows[g].key.clone());
        g += 1;
    }
    let ghost unsorted = keys.deep_view();
    assert(unsorted =~= gathered_keys(gathered_rows@));
    let sorted = sort_group_keys(keys);
    let ghost order = sorted.deep_view();
    proof {
        assert(unsorted.no_duplicates());
        unsorted.lemma_multiset_has_no_duplicates();
        order.lemma_multiset_has_no_duplicates_conv();
        assert forall|k: GroupKeyModel| order.contains(k) <==> unsorted.contains(k) by {
            vstd::seq_lib::to_multiset_contains(order, k);
            vstd::seq_lib::to_multiset_contains(unsorted, k);
        }
        assert forall|a: int, b: int| 0 <= a < b < order.len() implies key_lt(
            #[trigger] order[a],
            #[trigger] order[b],
        ) by {
            lemma_key_order(order[a], order[b], order[a]);
        }
        assert forall|k: int| 0 <= k < order.len() implies occurs(
            #[trigger] order[k],
            properties@,
        ) by {
            assert(order.contains(order[k]));
            let x = choose|x: int| 0 <= x < unsorted.len() && unsorted[x] == order[k];
            assert(occurs(gathered_rows@[x].key@, properties@));
        }
        assert forall|i: int| 0 <= i < properties.len() implies order.contains(
            key_of(#[trigger] properties@[i]),
        ) by {
            assert(gathered(gathered_rows@, key_of(properties@[i])));
            let x = choose|x: int|
                0 <= x < gathered_rows.len() && (#[trigger] gathered_rows@[x]).key@ == key_of(
                    properties@[i],
                );
            assert(unsorted[x] == key_of(properties@[i]));
        }
        assert(is_group_key_list(order, properties@));
    }
    let mut groups: Vec<PropertyGroup> = Vec::new();
    let mut k: usize = 0;
    while k < sorted.len()
        invariant
            k <= sorted.len(),
            groups.len() == k,
            order == sorted.deep_view(),
            forall|key: GroupKeyModel| order.contains(key) ==> gathered(gathered_rows@, key),
            forall|g: int|
                0 <= g < gathered_rows.len() ==> (#[trigger] gathered_rows@[g]).rows.deep_view()
                    == rows_of_group(
                    properties@,
                    gathered_rows@[g].key@,
                    properties.len() as int,
                ),
            forall|x: int|
                0 <= x < k ==> (#[trigger] groups@[x])@ == groups_for(order, properties@)[x],
        decreases sorted.len() - k,
    {
        let key = &sorted[k];
        assert(order.contains(order[k as int]));
        match find_group(&gathered_rows, &key.name, key.priority) {
            Some(g) => {
                let group = PropertyGroup {
                    group_name: key.name.clone(),
                    properties: sort_rows(&gathered_rows[g].rows),
                };
                groups.push(group);
            },
            None => {
                assert(false);
            },
        }
        k += 1;
    }
    proof {
        assert(groups.deep_view() =~= groups_for(order, properties@));
    }
    groups
}

} // verus!
