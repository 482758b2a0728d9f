//! Stable ordering by an integer key, as a specification: the sequence that a stable
//! sort (`slice::sort_by_key`) produces, defined by insertion, with its two defining
//! properties proved (the result is ordered by key, and holds the same items).
use vstd::prelude::*;

verus! {

/// Lexicographic order on key triples.
pub open spec fn key_lt(a: (int, int, int), b: (int, int, int)) -> bool {
    a.0 < b.0 || (a.0 == b.0 && (a.1 < b.1 || (a.1 == b.1 && a.2 < b.2)))
}

pub open spec fn key_le(a: (int, int, int), b: (int, int, int)) -> bool {
    !key_lt(b, a)
}

/// Inserts `x` into `s` before the first item whose key is strictly greater.
pub open spec fn insert_by_key<T>(s: Seq<T>, x: T, key: spec_fn(T) -> (int, int, int)) -> Seq<T>
    decreases s.len(),
{
    if s.len() == 0 {
        seq![x]
    } else if key_lt(key(x), key(s[0])) {
        seq![x] + s
    } else {
        seq![s[0]] + insert_by_key(s.drop_first(), x, key)
    }
}

/// The stable sort of `s` by `key`: items in key order, items with equal keys in their
/// input order.
pub open spec fn stable_sort_by_key<T>(s: Seq<T>, key: spec_fn(T) -> (int, int, int)) -> Seq<T>
    decreases s.len(),
{
    if s.len() == 0 {
        s
    } else {
        insert_by_key(stable_sort_by_key(s.drop_last(), key), s.last(), key)
    }
}

/// `s` is ordered by `key`.
pub open spec fn sorted_by_key<T>(s: Seq<T>, key: spec_fn(T) -> (int, int, int)) -> bool {
    forall|i: int, j: int| 0 <= i < j < s.len() ==> key_le(#[trigger] key(s[i]), #[trigger] key(s[j]))
}

proof fn lemma_insert_by_key<T>(s: Seq<T>, x: T, key: spec_fn(T) -> (int, int, int))
    requires
        sorted_by_key(s, key),
    ensures
        sorted_by_key(insert_by_key(s, x, key), key),
        insert_by_key(s, x, key).to_multiset() == s.to_multiset().insert(x),
        insert_by_key(s, x, key).len() == s.len() + 1,
    decreases s.len(),
{
    broadcast use vstd::seq_lib::group_seq_properties;
    let r = insert_by_key(s, x, key);
    if s.len() == 0 {
        assert(r == seq![x]);
        assert(s =~= Seq::<T>::empty());
    } else if key_lt(key(x), key(s[0])) {
        assert forall|i: int, j: int| 0 <= i < j < r.len() implies key_le(
            #[trigger] key(r[i]),
            #[trigger] key(r[j]),
        ) by {
            if i == 0 {
                assert(r[j] == s[j - 1]);
                if j - 1 > 0 {
                    assert(key_le(key(s[0]), key(s[j - 1])));
                }
            } else {
                assert(r[i] == s[i - 1] && r[j] == s[j - 1]);
            }
        }
        assert(r == seq![x] + s);
        vstd::seq_lib::lemma_multiset_commutative(seq![x], s);
        assert(seq![x].to_multiset() =~= vstd::multiset::Multiset::<T>::empty().insert(x));
    } else {
        let t = s.drop_first();
        assert forall|i: int, j: int| 0 <= i < j < t.len() implies key_le(
            #[trigger] key(t[i]),
            #[trigger] key(t[j]),
        ) by {
            assert(t[i] == s[i + 1] && t[j] == s[j + 1]);
        }
        lemma_insert_by_key(t, x, key);
        let rt = insert_by_key(t, x, key);
        assert(r == seq![s[0]] + rt);
        assert forall|k: int| 0 <= k < rt.len() implies key_le(key(s[0]), #[trigger] key(rt[k])) by {
            assert(rt.to_multiset().count(rt[k]) > 0);
            assert(rt.to_multiset() == t.to_multiset().insert(x));
            if rt[k] != x {
                assert(t.to_multiset().count(rt[k]) > 0);
                assert(t.contains(rt[k]));
                let m = choose|m: int| 0 <= m < t.len() && t[m] == rt[k];
                assert(s[m + 1] == t[m]);
            }
        }
        assert forall|i: int, j: int| 0 <= i < j < r.len() implies key_le(
            #[trigger] key(r[i]),
            #[trigger] key(r[j]),
        ) by {
            if i == 0 {
                assert(r[j] == rt[j - 1]);
            } else {
                assert(r[i] == rt[i - 1] && r[j] == rt[j - 1]);
            }
        }
        vstd::seq_lib::lemma_multiset_commutative(seq![s[0]], rt);
        vstd::seq_lib::lemma_multiset_commutative(seq![s[0]], t);
        assert(s == seq![s[0]] + t);
    }
}

/// The stable sort is ordered by key and is a rearrangement of its input.
pub proof fn lemma_stable_sort_by_key<T>(s: Seq<T>, key: spec_fn(T) -> (int, int, int))
    ensures
        sorted_by_key(stable_sort_by_key(s, key), key),
        stable_sort_by_key(s, key).to_multiset() == s.to_multiset(),
        stable_sort_by_key(s, key).len() == s.len(),
    decreases s.len(),
{
    broadcast use vstd::seq_lib::group_seq_properties;
    if s.len() > 0 {
        lemma_stable_sort_by_key(s.drop_last(), key);
        lemma_insert_by_key(stable_sort_by_key(s.drop_last(), key), s.last(), key);
        assert(s == s.drop_last().push(s.last()));
    }
}


// ───────────────────────────── by an ordering relation ─────────────────────────────

/// `before` is a strict weak order: irreflexive, transitive, and "not after" is transitive.
pub open spec fn strict_weak_order<T>(before: spec_fn(T, T) -> bool) -> bool {
    &&& forall|x: T| !#[trigger] before(x, x)
    &&& forall|x: T, y: T, z: T|
        #[trigger] before(x, y) && #[trigger] before(y, z) ==> before(x, z)
    &&& forall|x: T, y: T, z: T|
        !#[trigger] before(y, x) && !#[trigger] before(z, y) ==> !before(z, x)
}

/// Inserts `x` into `s` before the first item that `x` must precede.
pub open spec fn insert_by<T>(s: Seq<T>, x: T, before: spec_fn(T, T) -> bool) -> Seq<T>
    decreases s.len(),
{
    if s.len() == 0 {
        seq![x]
    } else if before(x, s[0]) {
        seq![x] + s
    } else {
        seq![s[0]] + insert_by(s.drop_first(), x, before)
    }
}

/// The stable sort of `s` for the order `before`.
pub open spec fn stable_sort_by<T>(s: Seq<T>, before: spec_fn(T, T) -> bool) -> Seq<T>
    decreases s.len(),
{
    if s.len() == 0 {
        s
    } else {
        insert_by(stable_sort_by(s.drop_last(), before), s.last(), before)
    }
}

/// No item must precede an earlier one.
pub open spec fn sorted_by<T>(s: Seq<T>, before: spec_fn(T, T) -> bool) -> bool {
    forall|i: int, j: int| 0 <= i < j < s.len() ==> !before(#[trigger] s[j], #[trigger] s[i])
}

/// Position of the first item of `s` that `x` must precede (or `s.len()`).
pub open spec fn insert_position<T>(s: Seq<T>, x: T, before: spec_fn(T, T) -> bool, i: int) -> int
    decreases s.len() - i,
{
    if i < 0 || i >= s.len() {
        s.len() as int
    } else if before(x, s[i]) {
        i
    } else {
        insert_position(s, x, before, i + 1)
    }
}

/// The recursive insertion equals splicing `x` in at its insertion position.
pub proof fn lemma_insert_by_splice<T>(s: Seq<T>, x: T, before: spec_fn(T, T) -> bool)
    ensures
        ({
            let p = insert_position(s, x, before, 0);
            &&& 0 <= p <= s.len()
            &&& insert_by(s, x, before) == s.subrange(0, p) + seq![x] + s.subrange(p, s.len() as int)
        }),
    decreases s.len(),
{
    if s.len() > 0 && !before(x, s[0]) {
        let t = s.drop_first();
        lemma_insert_by_splice(t, x, before);
        lemma_insert_position_shift(s, x, before, 0);
        let p = insert_position(s, x, before, 0);
        assert(insert_position(t, x, before, 0) == p - 1);
        assert(s.subrange(0, p) == seq![s[0]] + t.subrange(0, p - 1));
        assert(s.subrange(p, s.len() as int) == t.subrange(p - 1, t.len() as int));
    } else if s.len() > 0 {
        assert(s.subrange(0, 0) + seq![x] + s.subrange(0, s.len() as int) == seq![x] + s);
    } else {
        assert(s.subrange(0, 0) + seq![x] + s.subrange(0, 0) == seq![x]);
    }
}

proof fn lemma_insert_position_shift<T>(s: Seq<T>, x: T, before: spec_fn(T, T) -> bool, i: int)
    requires
        s.len() > 0,
        0 <= i < s.len(),
        !before(x, s[0]),
    ensures
        insert_position(s, x, before, i + 1) == insert_position(s.drop_first(), x, before, i) + 1,
    decreases s.len() - i,
{
    if i + 1 < s.len() {
        assert(s[i + 1] == s.drop_first()[i]);
        if !before(x, s[i + 1]) {
            lemma_insert_position_shift(s, x, before, i + 1);
        }
    }
}

proof fn lemma_insert_by_sorted<T>(s: Seq<T>, x: T, before: spec_fn(T, T) -> bool)
    requires
        strict_weak_order(before),
        sorted_by(s, before),
    ensures
        sorted_by(insert_by(s, x, before), before),
        insert_by(s, x, before).to_multiset() == s.to_multiset().insert(x),
        insert_by(s, x, before).len() == s.len() + 1,
    decreases s.len(),
{
    broadcast use vstd::seq_lib::group_seq_properties;
    let r = insert_by(s, x, before);
    if s.len() == 0 {
        assert(s =~= Seq::<T>::empty());
    } else if before(x, s[0]) {
        assert forall|i: int, j: int| 0 <= i < j < r.len() implies !before(
            #[trigger] r[j],
            #[trigger] r[i],
        ) by {
            if i == 0 {
                assert(r[j] == s[j - 1]);
                if j - 1 > 0 {
                    assert(!before(s[j - 1], s[0]));
                }
                if before(s[j - 1], x) {
                    assert(before(s[j - 1], s[0]));
                }
            } else {
                assert(r[i] == s[i - 1] && r[j] == s[j - 1]);
            }
        }
        assert(r == seq![x] + s);
        vstd::seq_lib::lemma_multiset_commutative(seq![x], s);
        assert(seq![x].to_multiset() =~= vstd::multiset::Multiset::<T>::empty().insert(x));
    } else {
        let t = s.drop_first();
        assert forall|i: int, j: int| 0 <= i < j < t.len() implies !before(
            #[trigger] t[j],
            #[trigger] t[i],
        ) by {
            assert(t[i] == s[i + 1] && t[j] == s[j + 1]);
        }
        lemma_insert_by_sorted(t, x, before);
        let rt = insert_by(t, x, before);
        assert(r == seq![s[0]] + rt);
        assert forall|k: int| 0 <= k < rt.len() implies !before(#[trigger] rt[k], s[0]) by {
            assert(rt.to_multiset().count(rt[k]) > 0);
            if rt[k] != x {
                assert(t.to_multiset().count(rt[k]) > 0);
                assert(t.contains(rt[k]));
                let m = choose|m: int| 0 <= m < t.len() && t[m] == rt[k];
                assert(s[m + 1] == t[m]);
            }
        }
        assert forall|i: int, j: int| 0 <= i < j < r.len() implies !before(
            #[trigger] r[j],
            #[trigger] r[i],
        ) by {
            if i == 0 {
                assert(r[j] == rt[j - 1]);
            } else {
                assert(r[i] == rt[i - 1] && r[j] == rt[j - 1]);
            }
        }
        vstd::seq_lib::lemma_multiset_commutative(seq![s[0]], rt);
        vstd::seq_lib::lemma_multiset_commutative(seq![s[0]], t);
        assert(s == seq![s[0]] + t);
    }
}

/// For a strict weak order, the stable sort is ordered and is a rearrangement of its
/// input.
pub proof fn lemma_stable_sort_by<T>(s: Seq<T>, before: spec_fn(T, T) -> bool)
    requires
        strict_weak_order(before),
    ensures
        sorted_by(stable_sort_by(s, before), before),
        stable_sort_by(s, before).to_multiset() == s.to_multiset(),
        stable_sort_by(s, before).len() == s.len(),
    decreases s.len(),
{
    broadcast use vstd::seq_lib::group_seq_properties;
    if s.len() > 0 {
        lemma_stable_sort_by(s.drop_last(), before);
        lemma_insert_by_sorted(stable_sort_by(s.drop_last(), before), s.last(), before);
        assert(s == s.drop_last().push(s.last()));
    }
}

} // verus!
