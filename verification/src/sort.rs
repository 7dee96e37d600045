//! Ordering of clipboard items: by a chosen timestamp or copy count, newest
//! or most-copied first, with pinned items grouped at the top or the bottom.

use vstd::prelude::*;
use crate::model::{ClipboardItem, SortBy};

verus! {

broadcast use vstd::seq_lib::group_seq_properties;

/// `s` is ordered by `rank`, lowest rank first.
pub open spec fn rank_sorted<T>(s: Seq<T>, rank: spec_fn(T) -> int) -> bool {
    forall|i: int, j: int| 0 <= i <= j < s.len() ==> rank(s[i]) <= rank(s[j])
}

/// The elements whose rank is `k`.
pub open spec fn rank_class<T>(rank: spec_fn(T) -> int, k: int) -> spec_fn(T) -> bool {
    |x: T| rank(x) == k
}

/// `out` is the stable sort of `inp` by `rank`: it is ordered by rank, and the
/// elements of each rank appear in it exactly as, and in the order, they
/// appear in `inp`.
pub open spec fn is_stable_sort<T>(out: Seq<T>, inp: Seq<T>, rank: spec_fn(T) -> int) -> bool {
    &&& rank_sorted(out, rank)
    &&& forall|k: int| #[trigger] out.filter(rank_class(rank, k)) == inp.filter(rank_class(rank, k))
}

proof fn lemma_map_filter<A, B>(s: Seq<A>, f: spec_fn(A) -> B, p: spec_fn(B) -> bool)
    ensures
        s.map_values(f).filter(p) == s.filter(|a: A| p(f(a))).map_values(f),
    decreases s.len(),
{
    reveal(Seq::filter);
    if s.len() > 0 {
        lemma_map_filter(s.drop_last(), f, p);
        assert(s.map_values(f).drop_last() =~= s.drop_last().map_values(f));
        let q = |a: A| p(f(a));
        if p(f(s.last())) {
            assert(s.filter(q).map_values(f) =~= s.drop_last().filter(q).map_values(f).push(f(s.last())));
        }
    } else {
        assert(s.map_values(f) =~= Seq::<B>::empty());
    }
}

/// A stable sort of values is a stable sort of their views, for a rank that
/// depends on the view only.
pub proof fn lemma_stable_sort_map<A, B>(out: Seq<A>, inp: Seq<A>, f: spec_fn(A) -> B, rank: spec_fn(B) -> int)
    requires
        is_stable_sort(out, inp, |a: A| rank(f(a))),
    ensures
        is_stable_sort(out.map_values(f), inp.map_values(f), rank),
{
    let ra = |a: A| rank(f(a));
    assert forall|i: int, j: int| 0 <= i <= j < out.map_values(f).len() implies rank(out.map_values(f)[i]) <= rank(out.map_values(f)[j]) by {
        assert(ra(out[i]) <= ra(out[j]));
    }
    assert forall|k: int| #[trigger] out.map_values(f).filter(rank_class(rank, k)) == inp.map_values(f).filter(rank_class(rank, k)) by {
        lemma_map_filter(out, f, rank_class(rank, k));
        lemma_map_filter(inp, f, rank_class(rank, k));
        assert(out.filter(rank_class(ra, k)) == inp.filter(rank_class(ra, k)));
        assert((|a: A| rank_class(rank, k)(f(a))) =~= rank_class(ra, k));
    }
}

proof fn lemma_filter_none<T>(s: Seq<T>, p: spec_fn(T) -> bool)
    requires
        forall|i: int| 0 <= i < s.len() ==> !p(s[i]),
    ensures
        s.filter(p) == Seq::<T>::empty(),
    decreases s.len(),
{
    reveal(Seq::filter);
    if s.len() > 0 {
        lemma_filter_none(s.drop_last(), p);
    }
}

proof fn lemma_insert_split<T>(s: Seq<T>, p: int, x: T)
    requires
        0 <= p <= s.len(),
    ensures
        s.insert(p, x) == s.take(p) + seq![x] + s.skip(p),
        s == s.take(p) + s.skip(p),
{
    assert(s.insert(p, x) =~= s.take(p) + seq![x] + s.skip(p));
    assert(s =~= s.take(p) + s.skip(p));
}

/// Two sequences ordered by `rank` that hold the same elements of each rank,
/// in the same order, are equal.
proof fn lemma_sorted_same_classes<T>(a: Seq<T>, b: Seq<T>, rank: spec_fn(T) -> int)
    requires
        rank_sorted(a, rank),
        rank_sorted(b, rank),
        forall|k: int| #[trigger] a.filter(rank_class(rank, k)) == b.filter(rank_class(rank, k)),
    ensures
        a == b,
    decreases a.len() + b.len(),
{
    reveal(Seq::filter);
    if a.len() == 0 || b.len() == 0 {
        if a.len() > 0 {
            let k = rank(a.last());
            assert(a.filter(rank_class(rank, k)) == b.filter(rank_class(rank, k)));
            assert(a.filter(rank_class(rank, k)).len() > 0);
        } else if b.len() > 0 {
            let k = rank(b.last());
            assert(a.filter(rank_class(rank, k)) == b.filter(rank_class(rank, k)));
            assert(b.filter(rank_class(rank, k)).len() > 0);
        }
        assert(a =~= b);
    } else {
        let ra = rank(a.last());
        let rb = rank(b.last());
        if ra < rb {
            lemma_filter_none(a, rank_class(rank, rb));
            assert(a.filter(rank_class(rank, rb)) == b.filter(rank_class(rank, rb)));
            assert(b.filter(rank_class(rank, rb)).len() > 0);
        }
        if rb < ra {
            lemma_filter_none(b, rank_class(rank, ra));
            assert(a.filter(rank_class(rank, ra)) == b.filter(rank_class(rank, ra)));
            assert(a.filter(rank_class(rank, ra)).len() > 0);
        }
        assert(ra == rb);
        let fa = a.drop_last().filter(rank_class(rank, ra));
        let fb = b.drop_last().filter(rank_class(rank, ra));
        assert(a.filter(rank_class(rank, ra)) == b.filter(rank_class(rank, ra)));
        assert(fa.push(a.last()) == fb.push(b.last()));
        assert(fa =~= fa.push(a.last()).drop_last());
        assert(fb =~= fb.push(b.last()).drop_last());
        assert(a.last() == fa.push(a.last()).last());
        assert forall|k: int| #[trigger] a.drop_last().filter(rank_class(rank, k)) == b.drop_last().filter(rank_class(rank, k)) by {
            assert(a.filter(rank_class(rank, k)) == b.filter(rank_class(rank, k)));
        }
        lemma_sorted_same_classes(a.drop_last(), b.drop_last(), rank);
        assert(a =~= a.drop_last().push(a.last()));
        assert(b =~= b.drop_last().push(b.last()));
    }
}

/// A stable sort is determined by its input: two stable sorts of the same
/// sequence by the same rank are equal.
pub proof fn lemma_stable_sort_unique<T>(x: Seq<T>, y: Seq<T>, inp: Seq<T>, rank: spec_fn(T) -> int)
    requires
        is_stable_sort(x, inp, rank),
        is_stable_sort(y, inp, rank),
    ensures
        x == y,
{
    assert forall|k: int| #[trigger] x.filter(rank_class(rank, k)) == y.filter(rank_class(rank, k)) by {
        assert(x.filter(rank_class(rank, k)) == inp.filter(rank_class(rank, k)));
        assert(y.filter(rank_class(rank, k)) == inp.filter(rank_class(rank, k)));
    }
    lemma_sorted_same_classes(x, y, rank);
}

/// Stable sort of `items` by `rank`, where `keys[i]` is the rank of `items[i]`.
pub(crate) fn stable_sort_by_keys<T>(items: Vec<T>, keys: Vec<i128>, Ghost(rank): Ghost<spec_fn(T) -> int>) -> (out: Vec<T>)
    requires
        items@.len() == keys@.len(),
        forall|i: int| 0 <= i < items@.len() ==> keys@[i] as int == rank(items@[i]),
    ensures
        is_stable_sort(out@, items@, rank),
        out@.to_multiset() == items@.to_multiset(),
{
    let ghost input = items@;
    let mut items = items;
    let mut keys = keys;
    let mut out: Vec<T> = Vec::new();
    let mut out_keys: Vec<i128> = Vec::new();
    assert(input.skip(input.len() as int) =~= Seq::<T>::empty());
    assert(input.take(input.len() as int) =~= input);
    while items.len() > 0
        invariant
            items@.len() == keys@.len(),
            items@.len() <= input.len(),
            items@ == input.take(items@.len() as int),
            forall|i: int| 0 <= i < items@.len() ==> keys@[i] as int == rank(items@[i]),
            out@.len() == out_keys@.len(),
            forall|i: int| 0 <= i < out@.len() ==> out_keys@[i] as int == rank(out@[i]),
            rank_sorted(out@, rank),
            forall|k: int| #[trigger] out@.filter(rank_class(rank, k)) == input.skip(items@.len() as int).filter(rank_class(rank, k)),
            out@.to_multiset() == input.skip(items@.len() as int).to_multiset(),
        decreases items@.len(),
    {
        let ghost n = items@.len() as int;
        let ghost old_out = out@;
        let x = items.pop().unwrap();
        let kx = keys.pop().unwrap();
        assert(x == input[n - 1]);
        let mut p: usize = 0;
        while p < out_keys.len() && out_keys[p] < kx
            invariant
                p <= out_keys@.len(),
                out@.len() == out_keys@.len(),
                forall|q: int| 0 <= q < p ==> out_keys@[q] < kx,
            decreases out_keys@.len() - p,
        {
            p = p + 1;
        }
        assert forall|q: int| 0 <= q < p implies rank(old_out[q]) < kx as int by {
            assert(out_keys@[q] < kx);
        }
        assert(p < old_out.len() ==> rank(old_out[p as int]) >= kx as int);
        out.insert(p, x);
        out_keys.insert(p, kx);
        proof {
            let pi = p as int;
            let r = kx as int;
            lemma_insert_split(old_out, pi, x);
            assert(input.skip(n - 1) =~= seq![x] + input.skip(n));
            assert forall|i: int, j: int| 0 <= i <= j < out@.len() implies rank(out@[i]) <= rank(out@[j]) by {
                if i < pi && j > pi {
                    assert(rank(old_out[i]) < r);
                    assert(rank(old_out[j - 1]) >= rank(old_out[pi]));
                } else if i < pi && j == pi {
                    assert(rank(old_out[i]) < r);
                } else if i == pi && j > pi {
                    assert(rank(old_out[j - 1]) >= rank(old_out[pi]));
                } else if i > pi {
                    assert(rank(old_out[i - 1]) <= rank(old_out[j - 1]));
                }
            }
            assert forall|k: int| #[trigger] out@.filter(rank_class(rank, k)) == input.skip(items@.len() as int).filter(rank_class(rank, k)) by {
                let pr = rank_class(rank, k);
                let a = old_out.take(pi);
                let b = old_out.skip(pi);
                Seq::filter_distributes_over_add(a + seq![x], b, pr);
                Seq::filter_distributes_over_add(a, seq![x], pr);
                Seq::filter_distributes_over_add(a, b, pr);
                input.skip(n).lemma_filter_prepend(x, pr);
                b.lemma_filter_prepend(x, pr);
                if k == r {
                    assert forall|i: int| 0 <= i < a.len() implies !pr(a[i]) by {
                        assert(rank(old_out[i]) < r);
                    }
                    lemma_filter_none(a, pr);
                    assert(a.filter(pr) + seq![x].filter(pr) == seq![x].filter(pr));
                    assert(seq![x] + b == seq![x] + b);
                    assert(seq![x].filter(pr) =~= seq![x]) by {
                        reveal(Seq::filter);
                        assert(seq![x].drop_last() =~= Seq::<T>::empty());
                    }
                    assert(out@.filter(pr) =~= seq![x] + b.filter(pr));
                    assert(old_out.filter(pr) =~= b.filter(pr));
                } else {
                    assert(seq![x].filter(pr) =~= Seq::<T>::empty()) by {
                        reveal(Seq::filter);
                        assert(seq![x].drop_last() =~= Seq::<T>::empty());
                    }
                    assert(out@.filter(pr) =~= a.filter(pr) + b.filter(pr));
                }
            }
            vstd::seq_lib::lemma_multiset_commutative(old_out.take(pi) + seq![x], old_out.skip(pi));
            vstd::seq_lib::lemma_multiset_commutative(old_out.take(pi), seq![x]);
            vstd::seq_lib::lemma_multiset_commutative(old_out.take(pi), old_out.skip(pi));
            vstd::seq_lib::lemma_multiset_commutative(seq![x], input.skip(n));
            assert(out@.to_multiset() =~= input.skip(items@.len() as int).to_multiset());
        }
    }
    assert(input.skip(0) =~= input);
    out
}

/// The sort key that `sort_by` selects.
pub open spec fn sort_key(item: ClipboardItem, sort_by: SortBy) -> int {
    match sort_by {
        SortBy::FirstCopiedAt => item.first_copied_at as int,
        SortBy::NumberOfCopies => item.number_of_copies as int,
        SortBy::LastCopiedAt => item.last_copied_at as int,
    }
}

/// Whether the item belongs to the group placed first: the pinned items when
/// `pin_to_top`, the unpinned ones otherwise.
pub open spec fn in_first_group(item: ClipboardItem, pin_to_top: bool) -> bool {
    item.pin.is_some() == pin_to_top
}

/// The position of an item in the order: first group before second, then
/// larger keys first.
pub open spec fn sort_rank(item: ClipboardItem, sort_by: SortBy, pin_to_top: bool) -> int {
    (if in_first_group(item, pin_to_top) { 0int } else { 0x1_0000_0000_0000_0000int }) - sort_key(item, sort_by)
}

pub open spec fn sort_rank_fn(sort_by: SortBy, pin_to_top: bool) -> spec_fn(ClipboardItem) -> int {
    |item: ClipboardItem| sort_rank(item, sort_by, pin_to_top)
}

fn item_rank(item: &ClipboardItem, sort_by: &SortBy, pin_to_top: bool) -> (r: i128)
    ensures
        r as int == sort_rank(*item, *sort_by, pin_to_top),
{
    let key: i128 = match sort_by {
        SortBy::FirstCopiedAt => item.first_copied_at as i128,
        SortBy::NumberOfCopies => item.number_of_copies as i128,
        SortBy::LastCopiedAt => item.last_copied_at as i128,
    };
    let group: i128 = if item.pin.is_some() == pin_to_top { 0 } else { 0x1_0000_0000_0000_0000 };
    group - key
}

/// Sort clipboard items by the given criterion (largest first), with pinned
/// items grouped at the top (`pin_to_top`) or at the bottom. Items that
/// compare equal keep their relative order.
pub fn sort_items(items: Vec<ClipboardItem>, sort_by: SortBy, pin_to_top: bool) -> (sorted: Vec<ClipboardItem>)
    ensures
        is_stable_sort(sorted@, items@, sort_rank_fn(sort_by, pin_to_top)),
        sorted@.to_multiset() == items@.to_multiset(),
        sorted@.len() == items@.len(),
        forall|i: int, j: int| 0 <= i < j < sorted@.len() && in_first_group(sorted@[j], pin_to_top)
            ==> in_first_group(sorted@[i], pin_to_top),
        forall|i: int, j: int| 0 <= i < j < sorted@.len()
            && in_first_group(sorted@[i], pin_to_top) == in_first_group(sorted@[j], pin_to_top)
            ==> sort_key(sorted@[i], sort_by) >= sort_key(sorted@[j], sort_by),
{
    let mut keys: Vec<i128> = Vec::new();
    let mut i: usize = 0;
    while i < items.len()
        invariant
            i <= items@.len(),
            keys@.len() == i,
            forall|j: int| 0 <= j < i ==> keys@[j] as int == sort_rank(items@[j], sort_by, pin_to_top),
        decreases items@.len() - i,
    {
        keys.push(item_rank(&items[i], &sort_by, pin_to_top));
        i = i + 1;
    }
    let ghost rank = sort_rank_fn(sort_by, pin_to_top);
    let ghost inp = items@;
    let sorted = stable_sort_by_keys(items, keys, Ghost(rank));
    proof {
        assert(sorted@.to_multiset().len() == inp.to_multiset().len());
        sorted@.to_multiset_ensures();
        inp.to_multiset_ensures();
        assert forall|i: int, j: int| 0 <= i < j < sorted@.len() && in_first_group(sorted@[j], pin_to_top)
            implies in_first_group(sorted@[i], pin_to_top) by {
            assert(rank(sorted@[i]) <= rank(sorted@[j]));
        }
        assert forall|i: int, j: int| 0 <= i < j < sorted@.len()
            && in_first_group(sorted@[i], pin_to_top) == in_first_group(sorted@[j], pin_to_top)
            implies sort_key(sorted@[i], sort_by) >= sort_key(sorted@[j], sort_by) by {
            assert(rank(sorted@[i]) <= rank(sorted@[j]));
        }
    }
    sorted
}


/// Sorting is idempotent: sorting the result of [`sort_items`] again by the
/// same criterion and pin placement gives it back unchanged.
pub proof fn law_sort_idempotent(
    items: Seq<ClipboardItem>,
    once: Seq<ClipboardItem>,
    twice: Seq<ClipboardItem>,
    sort_by: SortBy,
    pin_to_top: bool,
)
    requires
        is_stable_sort(once, items, sort_rank_fn(sort_by, pin_to_top)),
        is_stable_sort(twice, once, sort_rank_fn(sort_by, pin_to_top)),
    ensures
        twice == once,
{
    let rank = sort_rank_fn(sort_by, pin_to_top);
    assert(is_stable_sort(once, once, rank));
    lemma_stable_sort_unique(twice, once, once, rank);
}

/// Sorting is deterministic: two results of [`sort_items`] on the same items
/// with the same criterion and pin placement are equal.
pub proof fn law_sort_deterministic(
    items: Seq<ClipboardItem>,
    first: Seq<ClipboardItem>,
    second: Seq<ClipboardItem>,
    sort_by: SortBy,
    pin_to_top: bool,
)
    requires
        is_stable_sort(first, items, sort_rank_fn(sort_by, pin_to_top)),
        is_stable_sort(second, items, sort_rank_fn(sort_by, pin_to_top)),
    ensures
        first == second,
{
    lemma_stable_sort_unique(first, second, items, sort_rank_fn(sort_by, pin_to_top));
}

} // verus!
