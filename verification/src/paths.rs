//! Paths as lists of components: their order, their common start, and
//! their text.

use crate::text::{clone_strings, lemma_lex_lt_total, lemma_lex_lt_transitive, lex_lt, str_lt};
use vstd::prelude::*;

verus! {

/// The order of two paths: lexicographic, component by component, by the
/// order of texts.
pub open spec fn path_lt(a: Seq<Seq<char>>, b: Seq<Seq<char>>) -> bool
    decreases a.len(),
{
    if b.len() == 0 {
        false
    } else if a.len() == 0 {
        true
    } else if a[0] != b[0] {
        lex_lt(a[0], b[0])
    } else {
        path_lt(a.drop_first(), b.drop_first())
    }
}

/// Tells whether one path sorts before another.
pub fn path_before(a: &Vec<String>, b: &Vec<String>) -> (r: bool)
    ensures
        r == path_lt(a.deep_view(), b.deep_view()),
{
    let ghost x = a.deep_view();
    let ghost y = b.deep_view();
    let mut i: usize = 0;
    assert(x.skip(0) =~= x);
    assert(y.skip(0) =~= y);
    while i < a.len() && i < b.len()
        invariant
            i <= a.len(),
            i <= b.len(),
            x == a.deep_view(),
            y == b.deep_view(),
            path_lt(x, y) == path_lt(x.skip(i as int), y.skip(i as int)),
        decreases a.len() - i,
    {
        assert(x.skip(i as int).drop_first() =~= x.skip(i + 1));
        assert(y.skip(i as int).drop_first() =~= y.skip(i + 1));
        assert(x.skip(i as int)[0] == x[i as int]);
        assert(y.skip(i as int)[0] == y[i as int]);
        if a[i] != b[i] {
            return str_lt(a[i].as_str(), b[i].as_str());
        }
        i += 1;
    }
    i < b.len()
}

/// The longest start that two paths have in common.
pub open spec fn common_start(a: Seq<Seq<char>>, b: Seq<Seq<char>>) -> Seq<Seq<char>>
    decreases a.len(),
{
    if a.len() == 0 || b.len() == 0 || a[0] != b[0] {
        Seq::empty()
    } else {
        seq![a[0]] + common_start(a.drop_first(), b.drop_first())
    }
}

/// Works out the longest start that two paths have in common.
pub fn common_prefix(a: &Vec<String>, b: &Vec<String>) -> (r: Vec<String>)
    ensures
        r.deep_view() == common_start(a.deep_view(), b.deep_view()),
{
    let ghost x = a.deep_view();
    let ghost y = b.deep_view();
    let mut r: Vec<String> = Vec::new();
    let mut i: usize = 0;
    assert(x.skip(0) =~= x);
    assert(y.skip(0) =~= y);
    assert(r.deep_view() + common_start(x, y) =~= common_start(x, y));
    while i < a.len() && i < b.len() && a[i] == b[i]
        invariant
            i <= a.len(),
            i <= b.len(),
            x == a.deep_view(),
            y == b.deep_view(),
            r.deep_view() + common_start(x.skip(i as int), y.skip(i as int)) == common_start(x, y),
        decreases a.len() - i,
    {
        let ghost before = r.deep_view();
        assert(x.skip(i as int).drop_first() =~= x.skip(i + 1));
        assert(y.skip(i as int).drop_first() =~= y.skip(i + 1));
        assert(x.skip(i as int)[0] == x[i as int]);
        assert(y.skip(i as int)[0] == y[i as int]);
        r.push(a[i].clone());
        assert(r.deep_view() =~= before.push(x[i as int]));
        i += 1;
        assert(r.deep_view() + common_start(x.skip(i as int), y.skip(i as int)) =~= before
            + common_start(x.skip(i - 1), y.skip(i - 1)));
    }
    proof {
        let rest_a = x.skip(i as int);
        let rest_b = y.skip(i as int);
        if i < a.len() && i < b.len() {
            assert(rest_a[0] == x[i as int]);
            assert(rest_b[0] == y[i as int]);
        }
        assert(common_start(rest_a, rest_b) =~= Seq::empty());
        assert(r.deep_view() + Seq::<Seq<char>>::empty() =~= r.deep_view());
    }
    r
}

/// The text of the first `count` components of a path: the components,
/// with a slash between each two.
pub open spec fn joined(path: Seq<Seq<char>>, count: int) -> Seq<char>
    decreases count,
{
    if count <= 0 {
        Seq::empty()
    } else if count == 1 {
        path[0]
    } else {
        joined(path, count - 1) + seq!['/'] + path[count - 1]
    }
}

/// Writes a path as text.
pub fn join(path: &Vec<String>) -> (r: String)
    ensures
        r@ == joined(path.deep_view(), path.len() as int),
{
    let mut r = String::new();
    let mut i: usize = 0;
    while i < path.len()
        invariant
            i <= path.len(),
            r@ == joined(path.deep_view(), i as int),
        decreases path.len() - i,
    {
        let ghost before = r@;
        if i > 0 {
            r.push('/');
        }
        r.append(path[i].as_str());
        i += 1;
        assert(r@ =~= joined(path.deep_view(), i as int)) by {
            if i == 1 {
                assert(before =~= Seq::empty());
                assert(r@ =~= path.deep_view()[0]);
            } else {
                assert(r@ =~= before + seq!['/'] + path.deep_view()[i - 1]);
            }
        }
    }
    r
}

/// An order of places with one more place: the place stands behind every
/// place whose key does not sort behind its own.
pub open spec fn insert_place(order: Seq<int>, keys: Seq<Seq<Seq<char>>>, place: int) -> Seq<int>
    decreases order.len(),
{
    if order.len() == 0 {
        seq![place]
    } else if path_lt(keys[place], keys[order.last()]) {
        insert_place(order.drop_last(), keys, place).push(order.last())
    } else {
        order.push(place)
    }
}

/// The first `count` places of a list of keys in the order of their keys;
/// places whose keys sort alike keep their order.
pub open spec fn sorted_order(keys: Seq<Seq<Seq<char>>>, count: int) -> Seq<int>
    decreases count,
{
    if count <= 0 {
        Seq::empty()
    } else {
        insert_place(sorted_order(keys, count - 1), keys, count - 1)
    }
}

/// To insert a place is to put it where no place before it has a key that
/// sorts behind its own, and every place from there on has one that does.
proof fn lemma_insert_place_at(order: Seq<int>, keys: Seq<Seq<Seq<char>>>, place: int, at: int)
    requires
        0 <= at <= order.len(),
        forall|k: int| at <= k < order.len() ==> path_lt(keys[place], keys[#[trigger] order[k]]),
        at > 0 ==> !path_lt(keys[place], keys[order[at - 1]]),
    ensures
        insert_place(order, keys, place) == order.insert(at, place),
    decreases order.len(),
{
    if order.len() == 0 {
        assert(order.insert(at, place) =~= seq![place]);
    } else if at == order.len() {
        assert(order.insert(at, place) =~= order.push(place));
    } else {
        assert(path_lt(keys[place], keys[order[order.len() - 1]]));
        lemma_insert_place_at(order.drop_last(), keys, place, at);
        assert(order.insert(at, place) =~= order.drop_last().insert(at, place).push(order.last()));
    }
}

/// The order of paths is a strict weak order: no two paths sort before
/// each other, and a path that sorts before another sorts before every
/// third path that does not sort before it.
pub proof fn lemma_path_order(a: Seq<Seq<char>>, b: Seq<Seq<char>>, c: Seq<Seq<char>>)
    ensures
        !(path_lt(a, b) && path_lt(b, a)),
        path_lt(a, c) ==> path_lt(a, b) || path_lt(b, c),
    decreases a.len() + b.len() + c.len(),
{
    if a.len() > 0 && b.len() > 0 {
        lemma_lex_lt_total(a[0], b[0]);
        if a[0] == b[0] {
            if c.len() > 0 {
                if b[0] == c[0] {
                    lemma_path_order(a.drop_first(), b.drop_first(), c.drop_first());
                } else {
                    lemma_path_order(a.drop_first(), b.drop_first(), Seq::empty());
                }
            } else {
                lemma_path_order(a.drop_first(), b.drop_first(), Seq::empty());
            }
        } else if c.len() > 0 {
            lemma_lex_lt_total(b[0], c[0]);
            lemma_lex_lt_total(a[0], c[0]);
            if lex_lt(b[0], a[0]) && lex_lt(a[0], c[0]) {
                lemma_lex_lt_transitive(b[0], a[0], c[0]);
            }
        }
    }
}

/// The place at which a place is inserted into an order: behind the last
/// place whose key does not sort behind its own.
pub open spec fn insert_position(order: Seq<int>, keys: Seq<Seq<Seq<char>>>, place: int) -> int
    decreases order.len(),
{
    if order.len() == 0 {
        0
    } else if path_lt(keys[place], keys[order.last()]) {
        insert_position(order.drop_last(), keys, place)
    } else {
        order.len() as int
    }
}

/// To insert a place is to put it at its position and to leave every other
/// place where it is.
pub proof fn lemma_insert_place(order: Seq<int>, keys: Seq<Seq<Seq<char>>>, place: int)
    ensures
        0 <= insert_position(order, keys, place) <= order.len(),
        insert_place(order, keys, place) == order.insert(
            insert_position(order, keys, place),
            place,
        ),
        forall|k: int|
            insert_position(order, keys, place) <= k < order.len() ==> path_lt(
                keys[place],
                keys[#[trigger] order[k]],
            ),
        insert_position(order, keys, place) > 0 ==> !path_lt(
            keys[place],
            keys[order[insert_position(order, keys, place) - 1]],
        ),
    decreases order.len(),
{
    if order.len() > 0 && path_lt(keys[place], keys[order.last()]) {
        lemma_insert_place(order.drop_last(), keys, place);
    }
    let at = insert_position(order, keys, place);
    assert forall|k: int| at <= k < order.len() implies path_lt(
        keys[place],
        keys[#[trigger] order[k]],
    ) by {
        if k < order.len() - 1 {
            assert(order[k] == order.drop_last()[k]);
        }
    }
    if at > 0 && order.len() > 0 && path_lt(keys[place], keys[order.last()]) {
        assert(order[at - 1] == order.drop_last()[at - 1]);
    }
    lemma_insert_place_at(order, keys, place, at);
}

/// The sorted order of the first `count` places holds each of them once,
/// and no place stands before one whose key sorts before its own; places
/// whose keys sort alike stand in the order in which they came.
pub proof fn lemma_sorted_order(keys: Seq<Seq<Seq<char>>>, count: int)
    requires
        0 <= count <= keys.len(),
    ensures
        sorted_order(keys, count).len() == count,
        forall|k: int| 0 <= k < count ==> 0 <= #[trigger] sorted_order(keys, count)[k] < count,
        sorted_order(keys, count).no_duplicates(),
        forall|a: int, b: int|
            0 <= a < b < count ==> {
                let x = #[trigger] sorted_order(keys, count)[a];
                let y = #[trigger] sorted_order(keys, count)[b];
                !path_lt(keys[y], keys[x]) && (path_lt(keys[x], keys[y]) || x < y)
            },
    decreases count,
{
    if count > 0 {
        lemma_sorted_order(keys, count - 1);
        let before = sorted_order(keys, count - 1);
        let place = count - 1;
        lemma_insert_place(before, keys, place);
        let at = insert_position(before, keys, place);
        let after = before.insert(at, place);
        assert forall|a: int, b: int| 0 <= a < b < count implies {
            let x = #[trigger] after[a];
            let y = #[trigger] after[b];
            !path_lt(keys[y], keys[x]) && (path_lt(keys[x], keys[y]) || x < y)
        } by {
            if a == at {
                lemma_path_order(keys[place], keys[before[b - 1]], keys[place]);
            } else if b == at {
                lemma_path_order(keys[place], keys[before[at - 1]], keys[before[a]]);
                if a < at - 1 {
                    let x = before[a];
                    let y = before[at - 1];
                    assert(!path_lt(keys[y], keys[x]));
                }
                assert(before[a] < place);
            } else {
                let i = if a < at { a } else { a - 1 };
                let j = if b < at { b } else { b - 1 };
                let x = before[i];
                let y = before[j];
                assert(!path_lt(keys[y], keys[x]) && (path_lt(keys[x], keys[y]) || x < y));
            }
        }
        assert forall|a: int, b: int| 0 <= a < after.len() && 0 <= b < after.len() && a
            != b implies after[a] != after[b] by {
            let i = if a < at { a } else { a - 1 };
            let j = if b < at { b } else { b - 1 };
            if a != at && b != at {
                assert(before[i] != before[j]);
            } else if a == at {
                assert(before[j] < place);
            } else {
                assert(before[i] < place);
            }
        }
    }
}

/// The places of an order, as integers.
pub open spec fn places(order: Seq<usize>) -> Seq<int> {
    Seq::new(order.len(), |k: int| order[k] as int)
}

/// Works out the order of the places of a list of keys: by key, and by
/// place among keys that sort alike. Every place of the list stands in the
/// order once.
pub fn sort_order(keys: &Vec<Vec<String>>) -> (order: Vec<usize>)
    ensures
        places(order@) == sorted_order(keys.deep_view(), keys.len() as int),
        order.len() == keys.len(),
        forall|k: int| 0 <= k < order.len() ==> (#[trigger] order@[k]) < keys.len(),
{
    let ghost model = keys.deep_view();
    let mut order: Vec<usize> = Vec::new();
    let mut i: usize = 0;
    assert(places(order@) =~= Seq::empty());
    while i < keys.len()
        invariant
            i <= keys.len(),
            model == keys.deep_view(),
            order.len() == i,
            places(order@) == sorted_order(model, i as int),
            forall|k: int| 0 <= k < order.len() ==> (#[trigger] order@[k]) < i,
        decreases keys.len() - i,
    {
        let mut at: usize = order.len();
        while at > 0 && path_before(&keys[i], &keys[order[at - 1]])
            invariant
                at <= order.len(),
                i < keys.len(),
                model == keys.deep_view(),
                forall|k: int| 0 <= k < order.len() ==> (#[trigger] order@[k]) < i,
                forall|k: int|
                    at <= k < order.len() ==> path_lt(
                        model[i as int],
                        model[#[trigger] places(order@)[k]],
                    ),
            decreases at,
        {
            at -= 1;
            assert(places(order@)[at as int] == order@[at as int]);
        }
        let ghost before = places(order@);
        proof {
            if at > 0 {
                assert(before[at - 1] == order@[at - 1]);
            }
            lemma_insert_place_at(before, model, i as int, at as int);
        }
        order.insert(at, i);
        assert(places(order@) =~= before.insert(at as int, i as int));
        i += 1;
    }
    order
}

/// Copies a path.
pub fn clone_path(path: &Vec<String>) -> (r: Vec<String>)
    ensures
        r.deep_view() == path.deep_view(),
{
    clone_strings(path)
}

} // verus!
