//! Stable sorting: the order in which reports list categories and findings.

use vstd::prelude::*;

use crate::text;

verus! {

/// What an entry of a report is sorted by: first its rank, then `major`, then
/// `minor`.
pub struct SortKey {
    pub rank: u8,
    pub major: String,
    pub minor: String,
}

/// A sort key as plain text.
pub struct SortKeyView {
    pub rank: u8,
    pub major: Seq<char>,
    pub minor: Seq<char>,
}

impl View for SortKey {
    type V = SortKeyView;

    open spec fn view(&self) -> SortKeyView {
        SortKeyView { rank: self.rank, major: self.major@, minor: self.minor@ }
    }
}

/// Whether `a` sorts before `b` or together with it.
pub open spec fn key_le(a: SortKeyView, b: SortKeyView) -> bool {
    if a.rank != b.rank {
        a.rank < b.rank
    } else if a.major != b.major {
        text::text_le(a.major, b.major)
    } else {
        text::text_le(a.minor, b.minor)
    }
}

/// The views of a list of sort keys.
pub open spec fn key_views(keys: Seq<SortKey>) -> Seq<SortKeyView> {
    keys.map_values(|k: SortKey| k@)
}

/// `order` with `x` put behind every entry that sorts before `x` or together
/// with it.
pub open spec fn inserted(keys: Seq<SortKeyView>, order: Seq<int>, x: int) -> Seq<int>
    decreases order.len(),
{
    if order.len() == 0 || key_le(keys[order.last()], keys[x]) {
        order.push(x)
    } else {
        inserted(keys, order.drop_last(), x).push(order.last())
    }
}

/// The first `n` positions of `keys`, sorted by their keys; positions with equal
/// keys stay in order.
pub open spec fn sorted_prefix(keys: Seq<SortKeyView>, n: int) -> Seq<int>
    decreases n,
{
    if n <= 0 {
        Seq::empty()
    } else {
        inserted(keys, sorted_prefix(keys, n - 1), n - 1)
    }
}

/// The positions of `keys`, sorted by their keys; positions with equal keys stay
/// in order.
pub open spec fn sorted_positions(keys: Seq<SortKeyView>) -> Seq<int> {
    sorted_prefix(keys, keys.len() as int)
}

/// Positions as mathematical integers.
pub open spec fn as_ints(order: Seq<usize>) -> Seq<int> {
    order.map_values(|x: usize| x as int)
}

fn le_key(a: &SortKey, b: &SortKey) -> (r: bool)
    ensures
        r == key_le(a@, b@),
{
    if a.rank != b.rank {
        a.rank < b.rank
    } else if a.major != b.major {
        text::le_text(a.major.as_str(), b.major.as_str())
    } else {
        text::le_text(a.minor.as_str(), b.minor.as_str())
    }
}

proof fn lemma_inserted_at(keys: Seq<SortKeyView>, order: Seq<int>, x: int, p: int)
    requires
        0 <= p <= order.len(),
        p == 0 || key_le(keys[order[p - 1]], keys[x]),
        forall|j: int| p <= j < order.len() ==> !key_le(keys[#[trigger] order[j]], keys[x]),
    ensures
        inserted(keys, order, x) == order.insert(p, x),
    decreases order.len(),
{
    if p == order.len() {
        assert(order.insert(p, x) =~= order.push(x));
    } else {
        assert(!key_le(keys[order[order.len() - 1]], keys[x]));
        lemma_inserted_at(keys, order.drop_last(), x, p);
        assert(order.insert(p, x) =~= order.drop_last().insert(p, x).push(order.last()));
    }
}

fn insert_sorted(keys: &Vec<SortKey>, order: &mut Vec<usize>, x: usize)
    requires
        x < keys@.len(),
        forall|j: int| 0 <= j < old(order)@.len() ==> #[trigger] old(order)@[j] < keys@.len(),
    ensures
        as_ints(final(order)@) == inserted(key_views(keys@), as_ints(old(order)@), x as int),
{
    let mut p: usize = order.len();
    while p > 0 && !le_key(&keys[order[p - 1]], &keys[x])
        invariant
            x < keys@.len(),
            p <= order@.len(),
            order@ == old(order)@,
            forall|j: int| 0 <= j < order@.len() ==> #[trigger] order@[j] < keys@.len(),
            forall|j: int|
                p <= j < order@.len() ==> !key_le(
                    key_views(keys@)[#[trigger] as_ints(order@)[j]],
                    key_views(keys@)[x as int],
                ),
        decreases p,
    {
        p = p - 1;
    }
    proof {
        lemma_inserted_at(key_views(keys@), as_ints(order@), x as int, p as int);
    }
    order.insert(p, x);
    assert(as_ints(order@) =~= as_ints(old(order)@).insert(p as int, x as int));
}

/// The positions of `keys`, sorted by their keys; positions with equal keys stay
/// in order.
pub fn sort_positions(keys: &Vec<SortKey>) -> (order: Vec<usize>)
    ensures
        as_ints(order@) == sorted_positions(key_views(keys@)),
        order@.len() == keys@.len(),
        forall|j: int| 0 <= j < order@.len() ==> #[trigger] order@[j] < keys@.len(),
{
    let mut order: Vec<usize> = Vec::new();
    let mut n: usize = 0;
    assert(as_ints(order@) =~= sorted_prefix(key_views(keys@), 0));
    while n < keys.len()
        invariant
            n <= keys@.len(),
            as_ints(order@) == sorted_prefix(key_views(keys@), n as int),
            order@.len() == n,
            forall|j: int| 0 <= j < order@.len() ==> #[trigger] order@[j] < n,
        decreases keys@.len() - n,
    {
        let ghost before = as_ints(order@);
        insert_sorted(keys, &mut order, n);
        proof {
            lemma_inserted_members(key_views(keys@), before, n as int);
            assert(as_ints(order@).len() == n + 1);
            assert forall|j: int| 0 <= j < order@.len() implies #[trigger] order@[j] < n + 1 by {
                let v = as_ints(order@)[j];
                assert(as_ints(order@).contains(v));
                if v != n {
                    assert(before.contains(v));
                    let k = choose|k: int| 0 <= k < before.len() && before[k] == v;
                    assert(before[k] < n);
                }
            }
        }
        n = n + 1;
    }
    order
}

proof fn lemma_inserted_members(keys: Seq<SortKeyView>, order: Seq<int>, x: int)
    ensures
        inserted(keys, order, x).len() == order.len() + 1,
        forall|v: int|
            #[trigger] inserted(keys, order, x).contains(v) <==> order.contains(v) || v == x,
    decreases order.len(),
{
    let result = inserted(keys, order, x);
    if order.len() == 0 || key_le(keys[order.last()], keys[x]) {
        assert forall|v: int| #[trigger] result.contains(v) <==> order.contains(v) || v == x by {
            lemma_push_contains(order, x, v);
        }
    } else {
        let shorter = order.drop_last();
        lemma_inserted_members(keys, shorter, x);
        assert(order =~= shorter.push(order.last()));
        assert forall|v: int| #[trigger] result.contains(v) <==> order.contains(v) || v == x by {
            lemma_push_contains(inserted(keys, shorter, x), order.last(), v);
            lemma_push_contains(shorter, order.last(), v);
        }
    }
}

proof fn lemma_push_contains(s: Seq<int>, x: int, v: int)
    ensures
        s.push(x).contains(v) <==> s.contains(v) || v == x,
{
    if s.contains(v) {
        let k = choose|k: int| 0 <= k < s.len() && s[k] == v;
        assert(s.push(x)[k] == v);
    }
    assert(s.push(x)[s.len() as int] == x);
}

/// Whether entry `a` may stand before entry `b`: its key is less, or the keys are
/// equal and it came first.
pub open spec fn in_order(keys: Seq<SortKeyView>, a: int, b: int) -> bool {
    key_le(keys[a], keys[b]) && (key_le(keys[b], keys[a]) ==> a < b)
}

proof fn lemma_key_order(a: SortKeyView, b: SortKeyView, c: SortKeyView)
    ensures
        key_le(a, b) || key_le(b, a),
        key_le(a, b) && key_le(b, c) ==> key_le(a, c),
{
    text::lemma_text_le_order(a.major, b.major, c.major);
    text::lemma_text_le_order(b.major, c.major, a.major);
    text::lemma_text_le_order(c.major, a.major, b.major);
    text::lemma_text_le_order(a.minor, b.minor, c.minor);
}

proof fn lemma_inserted_ordered(keys: Seq<SortKeyView>, order: Seq<int>, x: int)
    requires
        forall|j: int| 0 <= j < order.len() ==> #[trigger] order[j] < x,
        forall|i: int, j: int| 0 <= i < j < order.len() ==> in_order(keys, order[i], order[j]),
    ensures
        forall|i: int, j: int|
            0 <= i < j < inserted(keys, order, x).len() ==> in_order(
                keys,
                inserted(keys, order, x)[i],
                inserted(keys, order, x)[j],
            ),
    decreases order.len(),
{
    let result = inserted(keys, order, x);
    if order.len() == 0 {
    } else if key_le(keys[order.last()], keys[x]) {
        assert forall|i: int, j: int| 0 <= i < j < result.len() implies in_order(
            keys,
            result[i],
            result[j],
        ) by {
            if j == order.len() {
                lemma_key_order(keys[order[i]], keys[order.last()], keys[x]);
                if i < order.len() - 1 {
                    assert(in_order(keys, order[i], order[order.len() - 1]));
                }
            }
        }
    } else {
        let shorter = order.drop_last();
        let last = order.last();
        lemma_inserted_ordered(keys, shorter, x);
        lemma_inserted_members(keys, shorter, x);
        assert forall|i: int, j: int| 0 <= i < j < result.len() implies in_order(
            keys,
            result[i],
            result[j],
        ) by {
            if j == result.len() - 1 {
                let v = result[i];
                assert(inserted(keys, shorter, x)[i] == v);
                assert(inserted(keys, shorter, x).contains(v));
                if v == x {
                    lemma_key_order(keys[last], keys[x], keys[x]);
                } else {
                    let k = choose|k: int| 0 <= k < shorter.len() && shorter[k] == v;
                    assert(in_order(keys, order[k], order[order.len() - 1]));
                }
            }
        }
    }
}

proof fn lemma_sorted_prefix(keys: Seq<SortKeyView>, n: int)
    requires
        0 <= n <= keys.len(),
    ensures
        sorted_prefix(keys, n).len() == n,
        forall|v: int| #[trigger] sorted_prefix(keys, n).contains(v) <==> 0 <= v < n,
        forall|i: int, j: int|
            0 <= i < j < n ==> in_order(keys, sorted_prefix(keys, n)[i], sorted_prefix(keys, n)[j]),
    decreases n,
{
    if n > 0 {
        let before = sorted_prefix(keys, n - 1);
        lemma_sorted_prefix(keys, n - 1);
        lemma_inserted_members(keys, before, n - 1);
        assert forall|j: int| 0 <= j < before.len() implies #[trigger] before[j] < n - 1 by {
            assert(before.contains(before[j]));
        }
        lemma_inserted_ordered(keys, before, n - 1);
    }
}

/// Sorting lists every position once, in the order of the keys, and keeps
/// positions with equal keys in the order that they came in.
pub proof fn sorting_is_a_stable_permutation(keys: Seq<SortKeyView>)
    ensures
        sorted_positions(keys).len() == keys.len(),
        forall|v: int| #[trigger] sorted_positions(keys).contains(v) <==> 0 <= v < keys.len(),
        sorted_positions(keys).no_duplicates(),
        forall|i: int, j: int|
            0 <= i < j < keys.len() ==> in_order(
                keys,
                sorted_positions(keys)[i],
                sorted_positions(keys)[j],
            ),
{
    lemma_sorted_prefix(keys, keys.len() as int);
    let s = sorted_positions(keys);
    assert forall|i: int, j: int| 0 <= i < s.len() && 0 <= j < s.len() && i != j implies s[i]
        != s[j] by {
        if i < j {
            assert(in_order(keys, s[i], s[j]));
            lemma_key_order(keys[s[i]], keys[s[j]], keys[s[i]]);
        } else {
            assert(in_order(keys, s[j], s[i]));
            lemma_key_order(keys[s[i]], keys[s[j]], keys[s[i]]);
        }
    }
}

} // verus!
