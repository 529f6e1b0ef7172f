//! The collection differ: brings a table of rows to the content and order
//! of a newer one by the edits of one walk over both, and leaves alone the
//! rows that did not change.

use crate::model::{is_equal_property, same_property, PropertyInformation, PropertyInformationModel};
use crate::text::{
    lemma_lex_lt_irreflexive, lemma_lex_lt_total, lemma_lex_lt_transitive, lex_lt, str_lt,
};
use vstd::prelude::*;

verus! {

/// One edit of a table. An index into the table counts in the table as the
/// edits before this one left it; an index into the newer table names the
/// row to take from it.
#[derive(Clone, Copy, Debug, PartialEq, Eq)]
pub enum Op {
    /// Insert, at the first index, the row that the newer table has at the
    /// second.
    Insert((usize, usize)),
    /// Replace the row at the first index by the row that the newer table
    /// has at the second.
    Copy((usize, usize)),
    /// Append the row that the newer table has at the index.
    PushBack(usize),
    /// Remove the row at the index.
    Remove(usize),
}

/// The edits that bring the rows of `c` from `i` on to the rows of `n` from
/// `j` on, for a table that already agrees with `n` in its first `j` rows.
///
/// The two tables are walked side by side. Where the names of the two rows
/// at hand are the same, the row is replaced if it changed, and both tables
/// move on. Where the old name sorts first, the old row is removed, and the
/// old table moves on. Where the new name sorts first, the new row is
/// inserted, and the new table moves on. What is left of the new table is
/// appended, and what is left of the old one is removed.
pub open spec fn edit_script(
    c: Seq<PropertyInformationModel>,
    n: Seq<PropertyInformationModel>,
    i: int,
    j: int,
) -> Seq<Op>
    decreases c.len() - i + n.len() - j,
{
    if i < 0 || j < 0 || i > c.len() || j > n.len() {
        Seq::empty()
    } else if i == c.len() && j == n.len() {
        Seq::empty()
    } else if j == n.len() {
        seq![Op::Remove(j as usize)] + edit_script(c, n, i + 1, j)
    } else if i == c.len() {
        seq![Op::PushBack(j as usize)] + edit_script(c, n, i, j + 1)
    } else if lex_lt(c[i].name, n[j].name) {
        seq![Op::Remove(j as usize)] + edit_script(c, n, i + 1, j)
    } else if lex_lt(n[j].name, c[i].name) {
        seq![Op::Insert((j as usize, j as usize))] + edit_script(c, n, i, j + 1)
    } else if !same_property(c[i], n[j]) {
        seq![Op::Copy((j as usize, j as usize))] + edit_script(c, n, i + 1, j + 1)
    } else {
        edit_script(c, n, i + 1, j + 1)
    }
}

/// The rows that the walk over `c` from `i` on and `n` from `j` on leaves
/// behind: for each row of `n`, the row of `c` that it was paired with
/// where the two are the same to the table, and the row of `n` itself
/// otherwise.
pub open spec fn merged(
    c: Seq<PropertyInformationModel>,
    n: Seq<PropertyInformationModel>,
    i: int,
    j: int,
) -> Seq<PropertyInformationModel>
    decreases c.len() - i + n.len() - j,
{
    if i < 0 || j < 0 || i > c.len() || j > n.len() {
        Seq::empty()
    } else if i == c.len() && j == n.len() {
        Seq::empty()
    } else if j == n.len() {
        merged(c, n, i + 1, j)
    } else if i == c.len() {
        seq![n[j]] + merged(c, n, i, j + 1)
    } else if lex_lt(c[i].name, n[j].name) {
        merged(c, n, i + 1, j)
    } else if lex_lt(n[j].name, c[i].name) {
        seq![n[j]] + merged(c, n, i, j + 1)
    } else if !same_property(c[i], n[j]) {
        seq![n[j]] + merged(c, n, i + 1, j + 1)
    } else {
        seq![c[i]] + merged(c, n, i + 1, j + 1)
    }
}

/// Whether an edit can be made on a table: its indices lie in the table and
/// in the newer table.
pub open spec fn op_applies(
    cur: Seq<PropertyInformationModel>,
    op: Op,
    n: Seq<PropertyInformationModel>,
) -> bool {
    match op {
        Op::Insert((at, from)) => at <= cur.len() && from < n.len(),
        Op::Copy((at, from)) => at < cur.len() && from < n.len(),
        Op::PushBack(from) => from < n.len(),
        Op::Remove(at) => at < cur.len(),
    }
}

/// A table after one edit.
pub open spec fn apply_op(
    cur: Seq<PropertyInformationModel>,
    op: Op,
    n: Seq<PropertyInformationModel>,
) -> Seq<PropertyInformationModel> {
    match op {
        Op::Insert((at, from)) => cur.insert(at as int, n[from as int]),
        Op::Copy((at, from)) => cur.update(at as int, n[from as int]),
        Op::PushBack(from) => cur.push(n[from as int]),
        Op::Remove(at) => cur.remove(at as int),
    }
}

/// A table after the first `count` of a list of edits, made in order.
pub open spec fn applied(
    cur: Seq<PropertyInformationModel>,
    ops: Seq<Op>,
    n: Seq<PropertyInformationModel>,
    count: int,
) -> Seq<PropertyInformationModel>
    decreases count,
{
    if count <= 0 {
        cur
    } else {
        apply_op(applied(cur, ops, n, count - 1), ops[count - 1], n)
    }
}

/// Whether the first `count` of a list of edits can be made in order: each
/// can be made on the table that the edits before it leave.
pub open spec fn applicable(
    cur: Seq<PropertyInformationModel>,
    ops: Seq<Op>,
    n: Seq<PropertyInformationModel>,
    count: int,
) -> bool
    decreases count,
{
    count <= 0 || (applicable(cur, ops, n, count - 1) && op_applies(
        applied(cur, ops, n, count - 1),
        ops[count - 1],
        n,
    ))
}

/// Edits that can be made up to some count can be made up to any count
/// before it.
pub proof fn lemma_applicable_before(
    cur: Seq<PropertyInformationModel>,
    ops: Seq<Op>,
    n: Seq<PropertyInformationModel>,
    count: int,
    before: int,
)
    requires
        before <= count,
        applicable(cur, ops, n, count),
    ensures
        applicable(cur, ops, n, before),
    decreases count - before,
{
    if before < count && count > 0 {
        lemma_applicable_before(cur, ops, n, count - 1, before);
    }
}

/// To make edits of which `op` is the first is to make `op`, and then the
/// others on what it leaves.
proof fn lemma_applied_first(
    cur: Seq<PropertyInformationModel>,
    op: Op,
    rest: Seq<Op>,
    n: Seq<PropertyInformationModel>,
    count: int,
)
    requires
        0 <= count <= rest.len(),
    ensures
        applied(cur, seq![op] + rest, n, count + 1) == applied(apply_op(cur, op, n), rest, n, count),
        applicable(cur, seq![op] + rest, n, count + 1) == (op_applies(cur, op, n) && applicable(
            apply_op(cur, op, n),
            rest,
            n,
            count,
        )),
    decreases count,
{
    let ops = seq![op] + rest;
    if count == 0 {
        assert(ops[0] == op);
        assert(applied(cur, ops, n, 0) == cur);
        assert(applicable(cur, ops, n, 0));
    } else {
        lemma_applied_first(cur, op, rest, n, count - 1);
        assert(ops[count] == rest[count - 1]);
    }
}

/// The edit script can be made, edit by edit, and brings the table to the
/// rows that the walk leaves behind. `done` is what the table holds before
/// the place of the walk.
pub proof fn lemma_edit_script_applies(
    c: Seq<PropertyInformationModel>,
    n: Seq<PropertyInformationModel>,
    i: int,
    j: int,
    done: Seq<PropertyInformationModel>,
)
    requires
        0 <= i <= c.len(),
        0 <= j <= n.len(),
        done.len() == j,
        n.len() <= usize::MAX,
    ensures
        ({
            let ops = edit_script(c, n, i, j);
            let start = done + c.skip(i);
            &&& applicable(start, ops, n, ops.len() as int)
            &&& applied(start, ops, n, ops.len() as int) == done + merged(c, n, i, j)
        }),
    decreases c.len() - i + n.len() - j,
{
    let ops = edit_script(c, n, i, j);
    let start = done + c.skip(i);
    if i == c.len() && j == n.len() {
        assert(start =~= done + merged(c, n, i, j));
    } else if j == n.len() || (i < c.len() && lex_lt(c[i].name, n[j].name)) {
        let op = Op::Remove(j as usize);
        let rest = edit_script(c, n, i + 1, j);
        lemma_edit_script_applies(c, n, i + 1, j, done);
        assert(apply_op(start, op, n) =~= done + c.skip(i + 1));
        lemma_applied_first(start, op, rest, n, rest.len() as int);
    } else if i == c.len() || lex_lt(n[j].name, c[i].name) {
        let op = if i == c.len() {
            Op::PushBack(j as usize)
        } else {
            Op::Insert((j as usize, j as usize))
        };
        let rest = edit_script(c, n, i, j + 1);
        lemma_edit_script_applies(c, n, i, j + 1, done.push(n[j]));
        assert(apply_op(start, op, n) =~= done.push(n[j]) + c.skip(i));
        lemma_applied_first(start, op, rest, n, rest.len() as int);
        assert(done.push(n[j]) + merged(c, n, i, j + 1) =~= done + merged(c, n, i, j));
    } else if !same_property(c[i], n[j]) {
        let op = Op::Copy((j as usize, j as usize));
        let rest = edit_script(c, n, i + 1, j + 1);
        lemma_edit_script_applies(c, n, i + 1, j + 1, done.push(n[j]));
        assert(apply_op(start, op, n) =~= done.push(n[j]) + c.skip(i + 1));
        lemma_applied_first(start, op, rest, n, rest.len() as int);
        assert(done.push(n[j]) + merged(c, n, i + 1, j + 1) =~= done + merged(c, n, i, j));
    } else {
        lemma_edit_script_applies(c, n, i + 1, j + 1, done.push(c[i]));
        assert(start =~= done.push(c[i]) + c.skip(i + 1));
        assert(done.push(c[i]) + merged(c, n, i + 1, j + 1) =~= done + merged(c, n, i, j));
    }
}

/// What the walk leaves behind has one row for each row of the newer
/// table, in the same order: the newer row itself, or a row of the older
/// table that is the same to the table as the newer row.
pub proof fn lemma_merged_matches_new(
    c: Seq<PropertyInformationModel>,
    n: Seq<PropertyInformationModel>,
    i: int,
    j: int,
)
    requires
        0 <= i <= c.len(),
        0 <= j <= n.len(),
    ensures
        merged(c, n, i, j).len() == n.len() - j,
        forall|k: int|
            0 <= k < n.len() - j ==> {
                ||| #[trigger] merged(c, n, i, j)[k] == n[j + k]
                ||| (same_property(merged(c, n, i, j)[k], n[j + k]) && c.contains(
                    merged(c, n, i, j)[k],
                ))
            },
    decreases c.len() - i + n.len() - j,
{
    if i == c.len() && j == n.len() {
    } else if j == n.len() || (i < c.len() && lex_lt(c[i].name, n[j].name)) {
        lemma_merged_matches_new(c, n, i + 1, j);
    } else if i == c.len() || lex_lt(n[j].name, c[i].name) {
        lemma_merged_matches_new(c, n, i, j + 1);
        let tail = merged(c, n, i, j + 1);
        assert forall|k: int| 0 <= k < n.len() - j implies {
            ||| #[trigger] merged(c, n, i, j)[k] == n[j + k]
            ||| (same_property(merged(c, n, i, j)[k], n[j + k]) && c.contains(
                merged(c, n, i, j)[k],
            ))
        } by {
            if k > 0 {
                assert(merged(c, n, i, j)[k] == tail[k - 1]);
            }
        }
    } else {
        lemma_merged_matches_new(c, n, i + 1, j + 1);
        let tail = merged(c, n, i + 1, j + 1);
        assert forall|k: int| 0 <= k < n.len() - j implies {
            ||| #[trigger] merged(c, n, i, j)[k] == n[j + k]
            ||| (same_property(merged(c, n, i, j)[k], n[j + k]) && c.contains(
                merged(c, n, i, j)[k],
            ))
        } by {
            if k > 0 {
                assert(merged(c, n, i, j)[k] == tail[k - 1]);
            } else {
                assert(c.contains(c[i]));
            }
        }
    }
}

/// Where two tables have, place by place, rows that are the same to the
/// table, there is nothing to edit, and no row is touched.
pub proof fn lemma_no_edits_between_same_tables(
    c: Seq<PropertyInformationModel>,
    n: Seq<PropertyInformationModel>,
    i: int,
)
    requires
        0 <= i <= c.len(),
        c.len() == n.len(),
        forall|k: int| 0 <= k < c.len() ==> same_property(#[trigger] c[k], n[k]),
    ensures
        edit_script(c, n, i, i) == Seq::<Op>::empty(),
        merged(c, n, i, i) == c.skip(i),
    decreases c.len() - i,
{
    if i == c.len() {
        assert(merged(c, n, i, i) =~= c.skip(i));
    } else {
        assert(same_property(c[i], n[i]));
        lemma_lex_lt_irreflexive(c[i].name);
        lemma_no_edits_between_same_tables(c, n, i + 1);
        assert(merged(c, n, i, i) =~= c.skip(i));
    }
}

/// Where there is nothing to edit, the two tables have, place by place,
/// rows that are the same to the table.
pub proof fn lemma_no_edits_means_same_tables(
    c: Seq<PropertyInformationModel>,
    n: Seq<PropertyInformationModel>,
    i: int,
    j: int,
)
    requires
        0 <= i <= c.len(),
        0 <= j <= n.len(),
        edit_script(c, n, i, j) == Seq::<Op>::empty(),
    ensures
        c.len() - i == n.len() - j,
        forall|k: int| 0 <= k < c.len() - i ==> same_property(#[trigger] c[i + k], n[j + k]),
    decreases c.len() - i + n.len() - j,
{
    if i == c.len() && j == n.len() {
    } else if j == n.len() || (i < c.len() && lex_lt(c[i].name, n[j].name)) {
        assert((seq![Op::Remove(j as usize)] + edit_script(c, n, i + 1, j)).len() > 0);
    } else if i == c.len() {
        assert((seq![Op::PushBack(j as usize)] + edit_script(c, n, i, j + 1)).len() > 0);
    } else if lex_lt(n[j].name, c[i].name) {
        assert((seq![Op::Insert((j as usize, j as usize))] + edit_script(c, n, i, j + 1)).len()
            > 0);
    } else if !same_property(c[i], n[j]) {
        assert((seq![Op::Copy((j as usize, j as usize))] + edit_script(c, n, i + 1, j + 1)).len()
            > 0);
    } else {
        lemma_no_edits_means_same_tables(c, n, i + 1, j + 1);
        assert forall|k: int| 0 <= k < c.len() - i implies same_property(
            #[trigger] c[i + k],
            n[j + k],
        ) by {
            if k > 0 {
                assert(same_property(c[(i + 1) + (k - 1)], n[(j + 1) + (k - 1)]));
            }
        }
    }
}

/// A table compared with itself needs no edit, and stays as it is.
pub proof fn lemma_diff_is_idempotent(c: Seq<PropertyInformationModel>)
    ensures
        edit_script(c, c, 0, 0) == Seq::<Op>::empty(),
        merged(c, c, 0, 0) == c,
{
    lemma_no_edits_between_same_tables(c, c, 0);
    assert(c.skip(0) =~= c);
}

/// Whether the rows of a table are in the order of their names, and no
/// name stands twice.
pub open spec fn sorted_by_name(rows: Seq<PropertyInformationModel>) -> bool {
    forall|a: int, b: int|
        0 <= a < b < rows.len() ==> lex_lt((#[trigger] rows[a]).name, (#[trigger] rows[b]).name)
}

/// Between two tables that are sorted by name, the walk pairs each row of
/// the newer table with the row of the older table that has its name: what
/// the walk leaves behind for the newer row is the older row itself where
/// the two are the same to the table, and the newer row where they are
/// not. So a row that did not change is never touched.
pub proof fn lemma_unchanged_rows_stay(
    c: Seq<PropertyInformationModel>,
    n: Seq<PropertyInformationModel>,
    i: int,
    j: int,
    x: int,
    y: int,
)
    requires
        sorted_by_name(c),
        sorted_by_name(n),
        0 <= i <= x < c.len(),
        0 <= j <= y < n.len(),
        c[x].name == n[y].name,
    ensures
        merged(c, n, i, j).len() == n.len() - j,
        merged(c, n, i, j)[y - j] == if same_property(c[x], n[y]) {
            c[x]
        } else {
            n[y]
        },
    decreases c.len() - i + n.len() - j,
{
    lemma_merged_matches_new(c, n, i, j);
    lemma_lex_lt_irreflexive(c[x].name);
    if lex_lt(c[i].name, n[j].name) {
        // The row at hand sorts before every row that is left of the newer
        // table, so it is not the one paired.
        if x == i {
            if y > j {
                lemma_lex_lt_transitive(c[i].name, n[j].name, n[y].name);
            }
        } else {
            lemma_unchanged_rows_stay(c, n, i + 1, j, x, y);
        }
    } else if lex_lt(n[j].name, c[i].name) {
        if y == j {
            if x > i {
                lemma_lex_lt_transitive(n[j].name, c[i].name, c[x].name);
            }
        } else {
            lemma_unchanged_rows_stay(c, n, i, j + 1, x, y);
            assert(merged(c, n, i, j)[y - j] == merged(c, n, i, j + 1)[y - j - 1]);
        }
    } else {
        lemma_lex_lt_total(c[i].name, n[j].name);
        assert(c[i].name == n[j].name);
        if x == i && y == j {
        } else if x == i {
            assert(lex_lt(n[j].name, n[y].name));
        } else if y == j {
            assert(lex_lt(c[i].name, c[x].name));
        } else {
            lemma_unchanged_rows_stay(c, n, i + 1, j + 1, x, y);
            assert(merged(c, n, i, j)[y - j] == merged(c, n, i + 1, j + 1)[y - j - 1]);
        }
    }
}

/// Between two tables that are sorted by name, a row of the newer table
/// whose name the older table does not have comes into the table as it
/// is.
pub proof fn lemma_new_rows_come_in(
    c: Seq<PropertyInformationModel>,
    n: Seq<PropertyInformationModel>,
    y: int,
)
    requires
        0 <= y < n.len(),
        forall|x: int| 0 <= x < c.len() ==> (#[trigger] c[x]).name != n[y].name,
    ensures
        merged(c, n, 0, 0).len() == n.len(),
        merged(c, n, 0, 0)[y] == n[y],
{
    lemma_merged_matches_new(c, n, 0, 0);
    let row = merged(c, n, 0, 0)[y];
    if row != n[y] {
        assert(c.contains(row));
        let x = choose|x: int| 0 <= x < c.len() && c[x] == row;
        assert(c[x].name != n[y].name);
    }
}

/// Whether one of the rows from `from` on has the given name.
pub open spec fn has_name_from(
    rows: Seq<PropertyInformationModel>,
    from: int,
    name: Seq<char>,
) -> bool {
    exists|k: int| from <= k < rows.len() && (#[trigger] rows[k]).name == name
}

/// Whether one of the rows from `from` on has the name of the given row,
/// and is not the same to the table.
pub open spec fn has_changed_from(
    rows: Seq<PropertyInformationModel>,
    from: int,
    row: PropertyInformationModel,
) -> bool {
    exists|k: int|
        from <= k < rows.len() && (#[trigger] rows[k]).name == row.name && !same_property(
            row,
            rows[k],
        )
}

/// How many of the rows of `a` from `i` on have a name that no row of `b`
/// from `j` on has.
pub open spec fn only_in(
    a: Seq<PropertyInformationModel>,
    i: int,
    b: Seq<PropertyInformationModel>,
    j: int,
) -> nat
    decreases a.len() - i,
{
    if i < 0 || i >= a.len() {
        0
    } else if has_name_from(b, j, a[i].name) {
        only_in(a, i + 1, b, j)
    } else {
        1 + only_in(a, i + 1, b, j)
    }
}

/// How many of the rows of `c` from `i` on have changed: a row of `n` from
/// `j` on has their name, and is not the same to the table.
pub open spec fn changed_in(
    c: Seq<PropertyInformationModel>,
    i: int,
    n: Seq<PropertyInformationModel>,
    j: int,
) -> nat
    decreases c.len() - i,
{
    if i < 0 || i >= c.len() {
        0
    } else if has_changed_from(n, j, c[i]) {
        1 + changed_in(c, i + 1, n, j)
    } else {
        changed_in(c, i + 1, n, j)
    }
}

/// A row whose name none of the counted rows has does not count: the
/// counts are the same without it.
proof fn lemma_counts_skip(
    a: Seq<PropertyInformationModel>,
    i: int,
    b: Seq<PropertyInformationModel>,
    j: int,
)
    requires
        0 <= i,
        0 <= j < b.len(),
        forall|x: int| i <= x < a.len() ==> (#[trigger] a[x]).name != b[j].name,
    ensures
        only_in(a, i, b, j) == only_in(a, i, b, j + 1),
        changed_in(a, i, b, j) == changed_in(a, i, b, j + 1),
    decreases a.len() - i,
{
    if i < a.len() {
        lemma_counts_skip(a, i + 1, b, j);
        assert(a[i].name != b[j].name);
        if has_name_from(b, j, a[i].name) {
            let k = choose|k: int| j <= k < b.len() && (#[trigger] b[k]).name == a[i].name;
            assert(j + 1 <= k);
        }
        if has_changed_from(b, j, a[i]) {
            let k = choose|k: int|
                j <= k < b.len() && (#[trigger] b[k]).name == a[i].name && !same_property(
                    a[i],
                    b[k],
                );
            assert(j + 1 <= k);
        }
    }
}

/// A row of another name is not among the rows whose name is looked for.
proof fn lemma_only_in_skip_first(
    a: Seq<PropertyInformationModel>,
    i: int,
    b: Seq<PropertyInformationModel>,
    j: int,
)
    requires
        0 <= i,
        0 <= j < b.len(),
        forall|x: int| i <= x < a.len() ==> (#[trigger] a[x]).name != b[j].name,
    ensures
        only_in(b, j, a, i) == 1 + only_in(b, j + 1, a, i),
{
    if has_name_from(a, i, b[j].name) {
        let k = choose|k: int| i <= k < a.len() && (#[trigger] a[k]).name == b[j].name;
        assert(a[k].name != b[j].name);
    }
}

/// In a table that is sorted by name, a row sorts before every row behind
/// it, and so do all that sort before the row.
proof fn lemma_sorts_before_rest(
    rows: Seq<PropertyInformationModel>,
    from: int,
    name: Seq<char>,
)
    requires
        sorted_by_name(rows),
        0 <= from < rows.len(),
        lex_lt(name, rows[from].name) || name == rows[from].name,
    ensures
        forall|x: int| from < x < rows.len() ==> (#[trigger] rows[x]).name != name,
        lex_lt(name, rows[from].name) ==> forall|x: int|
            from <= x < rows.len() ==> (#[trigger] rows[x]).name != name,
{
    lemma_lex_lt_irreflexive(name);
    assert forall|x: int| from < x < rows.len() implies (#[trigger] rows[x]).name != name by {
        assert(lex_lt(rows[from].name, rows[x].name));
        if lex_lt(name, rows[from].name) {
            lemma_lex_lt_transitive(name, rows[from].name, rows[x].name);
        }
    }
}

/// Between two tables that are sorted by name, the edit script holds no
/// edit but the needed ones: one for each row whose name only the older
/// table has, one for each row whose name only the newer table has, and
/// one for each row that changed.
pub proof fn lemma_edit_script_is_minimal(
    c: Seq<PropertyInformationModel>,
    n: Seq<PropertyInformationModel>,
    i: int,
    j: int,
)
    requires
        sorted_by_name(c),
        sorted_by_name(n),
        0 <= i <= c.len(),
        0 <= j <= n.len(),
    ensures
        edit_script(c, n, i, j).len() == only_in(c, i, n, j) + only_in(n, j, c, i) + changed_in(
            c,
            i,
            n,
            j,
        ),
    decreases c.len() - i + n.len() - j,
{
    if i == c.len() && j == n.len() {
    } else if j == n.len() {
        lemma_edit_script_is_minimal(c, n, i + 1, j);
    } else if i == c.len() {
        lemma_edit_script_is_minimal(c, n, i, j + 1);
    } else if lex_lt(c[i].name, n[j].name) {
        lemma_edit_script_is_minimal(c, n, i + 1, j);
        lemma_sorts_before_rest(n, j, c[i].name);
        // The row is in the older table alone, and is no partner of a
        // newer row.
        lemma_only_in_skip_first(n, j, c, i);
        lemma_counts_skip(n, j, c, i);
        assert(!has_changed_from(n, j, c[i]));
    } else if lex_lt(n[j].name, c[i].name) {
        lemma_edit_script_is_minimal(c, n, i, j + 1);
        lemma_sorts_before_rest(c, i, n[j].name);
        lemma_only_in_skip_first(c, i, n, j);
        lemma_counts_skip(c, i, n, j);
    } else {
        lemma_lex_lt_total(c[i].name, n[j].name);
        lemma_edit_script_is_minimal(c, n, i + 1, j + 1);
        lemma_sorts_before_rest(n, j, c[i].name);
        lemma_sorts_before_rest(c, i, n[j].name);
        // The two rows are partners, and no other row has their name.
        lemma_counts_skip(c, i + 1, n, j);
        lemma_counts_skip(n, j + 1, c, i);
        assert(has_name_from(n, j, c[i].name));
        assert(has_name_from(c, i, n[j].name));
        if !same_property(c[i], n[j]) {
            assert(has_changed_from(n, j, c[i]));
        } else if has_changed_from(n, j, c[i]) {
            let k = choose|k: int|
                j <= k < n.len() && (#[trigger] n[k]).name == c[i].name && !same_property(
                    c[i],
                    n[k],
                );
            assert(k == j);
        }
    }
}

/// Works out the edits that bring one table to another.
pub fn diff_properties(cvg: &Vec<PropertyInformation>, nvg: &Vec<PropertyInformation>) -> (to_do:
    Vec<Op>)
    ensures
        to_do@ == edit_script(cvg.deep_view(), nvg.deep_view(), 0, 0),
{
    let ghost c = cvg.deep_view();
    let ghost n = nvg.deep_view();
    let mut to_do: Vec<Op> = Vec::new();
    let mut i: usize = 0;
    let mut j: usize = 0;
    assert(to_do@ + edit_script(c, n, 0, 0) =~= edit_script(c, n, 0, 0));
    while i < cvg.len() || j < nvg.len()
        invariant
            i <= cvg.len(),
            j <= nvg.len(),
            c == cvg.deep_view(),
            n == nvg.deep_view(),
            to_do@ + edit_script(c, n, i as int, j as int) == edit_script(c, n, 0, 0),
        decreases cvg.len() - i + nvg.len() - j,
    {
        let ghost before = to_do@;
        let ghost here = edit_script(c, n, i as int, j as int);
        if j == nvg.len() {
            to_do.push(Op::Remove(j));
            i += 1;
        } else if i == cvg.len() {
            to_do.push(Op::PushBack(j));
            j += 1;
        } else if str_lt(cvg[i].name.as_str(), nvg[j].name.as_str()) {
            to_do.push(Op::Remove(j));
            i += 1;
        } else if str_lt(nvg[j].name.as_str(), cvg[i].name.as_str()) {
            to_do.push(Op::Insert((j, j)));
            i = i;
            j += 1;
        } else {
            if !is_equal_property(&cvg[i], &nvg[j]) {
                to_do.push(Op::Copy((j, j)));
            }
            i += 1;
            j += 1;
        }
        assert(to_do@ + edit_script(c, n, i as int, j as int) =~= before + here);
    }
    assert(to_do@ + edit_script(c, n, i as int, j as int) =~= to_do@);
    to_do
}

/// Makes a list of edits on a table, in order.
pub fn apply_edits(
    cvg: &mut Vec<PropertyInformation>,
    nvg: &Vec<PropertyInformation>,
    to_do: &Vec<Op>,
)
    requires
        applicable(old(cvg).deep_view(), to_do@, nvg.deep_view(), to_do.len() as int),
    ensures
        final(cvg).deep_view() == applied(
            old(cvg).deep_view(),
            to_do@,
            nvg.deep_view(),
            to_do.len() as int,
        ),
{
    let ghost c = cvg.deep_view();
    let ghost n = nvg.deep_view();
    let mut k: usize = 0;
    while k < to_do.len()
        invariant
            k <= to_do.len(),
            n == nvg.deep_view(),
            applicable(c, to_do@, n, to_do.len() as int),
            cvg.deep_view() == applied(c, to_do@, n, k as int),
        decreases to_do.len() - k,
    {
        proof {
            lemma_applicable_before(c, to_do@, n, to_do.len() as int, k + 1);
        }
        let ghost before = cvg.deep_view();
        match to_do[k] {
            Op::Insert((at, from)) => {
                cvg.insert(at, nvg[from].clone());
            },
            Op::Copy((at, from)) => {
                cvg.set(at, nvg[from].clone());
            },
            Op::PushBack(from) => {
                cvg.push(nvg[from].clone());
            },
            Op::Remove(at) => {
                cvg.remove(at);
            },
        }
        assert(cvg.deep_view() =~= apply_op(before, to_do@[k as int], n));
        k += 1;
    }
}

/// Brings a table of rows to the content and order of a newer one. A row
/// that is the same to the table in both stays as it is, untouched; every
/// other row of the result is the newer table's.
pub fn update_grouped_properties(
    cvg: &mut Vec<PropertyInformation>,
    nvg: &Vec<PropertyInformation>,
)
    ensures
        final(cvg).deep_view() == merged(old(cvg).deep_view(), nvg.deep_view(), 0, 0),
        final(cvg).len() == nvg.len(),
        forall|k: int|
            0 <= k < nvg.len() ==> same_property(
                #[trigger] final(cvg).deep_view()[k],
                nvg.deep_view()[k],
            ),
{
    let to_do = diff_properties(cvg, nvg);
    proof {
        let c = cvg.deep_view();
        let n = nvg.deep_view();
        assert(n.len() == nvg.len());
        lemma_edit_script_applies(c, n, 0, 0, Seq::empty());
        assert(Seq::<PropertyInformationModel>::empty() + c.skip(0) =~= c);
        assert(Seq::<PropertyInformationModel>::empty() + merged(c, n, 0, 0) =~= merged(
            c,
            n,
            0,
            0,
        ));
        lemma_merged_matches_new(c, n, 0, 0);
    }
    apply_edits(cvg, nvg, &to_do);
}

} // verus!
