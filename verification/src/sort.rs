//! Stable insertion by an integer key, the order in which timelines and
//! conversation lists are kept.
use vstd::prelude::*;

verus! {

/// `s` with `x` placed after every element whose key is not greater than
/// `x`'s, scanning from the end: where `s` is ordered by the key, the result
/// is too, and `x` follows the elements of equal key.
pub open spec fn sorted_insert<T>(s: Seq<T>, x: T, key: spec_fn(T) -> int) -> Seq<T>
    decreases s.len(),
{
    if s.len() == 0 {
        seq![x]
    } else if key(s.last()) <= key(x) {
        s.push(x)
    } else {
        sorted_insert(s.drop_last(), x, key).push(s.last())
    }
}

/// `s` ordered by the key, elements of equal key in the order they had in
/// `s` (a stable sort).
pub open spec fn stable_sort<T>(s: Seq<T>, key: spec_fn(T) -> int) -> Seq<T>
    decreases s.len(),
{
    if s.len() == 0 {
        s
    } else {
        sorted_insert(stable_sort(s.drop_last(), key), s.last(), key)
    }
}

/// Whether the elements of `s` are in non-decreasing order of the key.
pub open spec fn is_sorted_by<T>(s: Seq<T>, key: spec_fn(T) -> int) -> bool {
    forall|i: int, j: int| 0 <= i <= j < s.len() ==> key(s[i]) <= key(s[j])
}

/// Whether an element's key is `k`.
pub open spec fn key_is<T>(key: spec_fn(T) -> int, k: int) -> spec_fn(T) -> bool {
    |x: T| key(x) == k
}

/// The elements of `s` whose key is `k`, in order.
pub open spec fn with_key<T>(s: Seq<T>, key: spec_fn(T) -> int, k: int) -> Seq<T> {
    s.filter(key_is(key, k))
}

/// Inserting at the place found by scanning from the end is `sorted_insert`.
pub proof fn lemma_sorted_insert_at<T>(s: Seq<T>, x: T, key: spec_fn(T) -> int, p: int)
    requires
        0 <= p <= s.len(),
        forall|j: int| p <= j < s.len() ==> key(#[trigger] s[j]) > key(x),
        p == 0 || key(s[p - 1]) <= key(x),
    ensures
        sorted_insert(s, x, key) == s.insert(p, x),
    decreases s.len(),
{
    if s.len() == 0 {
        assert(s.insert(p, x) =~= seq![x]);
    } else if p == s.len() {
        assert(s.insert(p, x) =~= s.push(x));
    } else {
        assert(key(s[s.len() - 1]) > key(x));
        lemma_sorted_insert_at(s.drop_last(), x, key, p);
        assert(s.drop_last().insert(p, x).push(s.last()) =~= s.insert(p, x));
    }
}

/// `sorted_insert` puts `x` somewhere in `s`, keeping the order of the rest.
pub proof fn lemma_sorted_insert_is_insert<T>(s: Seq<T>, x: T, key: spec_fn(T) -> int)
    ensures
        exists|p: int| 0 <= p <= s.len() && sorted_insert(s, x, key) == s.insert(p, x),
    decreases s.len(),
{
    if s.len() == 0 {
        assert(sorted_insert(s, x, key) == s.insert(0, x)) by {
            assert(s.insert(0, x) =~= seq![x]);
        }
    } else if key(s.last()) <= key(x) {
        assert(sorted_insert(s, x, key) == s.insert(s.len() as int, x)) by {
            assert(s.insert(s.len() as int, x) =~= s.push(x));
        }
    } else {
        lemma_sorted_insert_is_insert(s.drop_last(), x, key);
        let p = choose|p: int|
            0 <= p <= s.drop_last().len() && sorted_insert(s.drop_last(), x, key) == s.drop_last().insert(p, x);
        assert(s.drop_last().insert(p, x).push(s.last()) =~= s.insert(p, x));
    }
}

/// A stable sort keeps the length.
pub proof fn lemma_stable_sort_len<T>(s: Seq<T>, key: spec_fn(T) -> int)
    ensures
        stable_sort(s, key).len() == s.len(),
    decreases s.len(),
{
    if s.len() > 0 {
        lemma_stable_sort_len(s.drop_last(), key);
        lemma_sorted_insert_is_insert(stable_sort(s.drop_last(), key), s.last(), key);
    }
}

/// A stable sort holds the elements it was given: a value is present after
/// the sort when and only when it was before.
pub proof fn lemma_stable_sort_contains<T>(s: Seq<T>, key: spec_fn(T) -> int, y: T)
    ensures
        stable_sort(s, key).contains(y) <==> s.contains(y),
    decreases s.len(),
{
    if s.len() > 0 {
        let rest = stable_sort(s.drop_last(), key);
        lemma_stable_sort_contains(s.drop_last(), key, y);
        lemma_sorted_insert_is_insert(rest, s.last(), key);
        let p = choose|p: int| 0 <= p <= rest.len() && sorted_insert(rest, s.last(), key) == rest.insert(p, s.last());
        let r = rest.insert(p, s.last());
        if r.contains(y) {
            let i = choose|i: int| 0 <= i < r.len() && r[i] == y;
            if i < p {
                assert(rest[i] == y);
                assert(rest.contains(y));
            } else if i > p {
                assert(rest[i - 1] == y);
                assert(rest.contains(y));
            }
            if y != s.last() {
                let k = choose|k: int| 0 <= k < s.drop_last().len() && s.drop_last()[k] == y;
                assert(s[k] == y);
            } else {
                assert(s[s.len() - 1] == y);
            }
        }
        if s.contains(y) {
            let k = choose|k: int| 0 <= k < s.len() && s[k] == y;
            if k == s.len() - 1 {
                assert(r[p] == y);
            } else {
                assert(s.drop_last()[k] == y);
                assert(rest.contains(y));
                let i = choose|i: int| 0 <= i < rest.len() && rest[i] == y;
                if i < p {
                    assert(r[i] == y);
                } else {
                    assert(r[i + 1] == y);
                }
            }
        }
    }
}

/// Whether `proj` takes distinct values on the elements of `s`.
pub open spec fn distinct_by<T, A>(s: Seq<T>, proj: spec_fn(T) -> A) -> bool {
    forall|i: int, j: int| 0 <= i < j < s.len() ==> proj(#[trigger] s[i]) != proj(#[trigger] s[j])
}

/// Inserting an element whose projection is new keeps projections distinct.
pub proof fn lemma_insert_distinct<T, A>(s: Seq<T>, x: T, p: int, proj: spec_fn(T) -> A)
    requires
        0 <= p <= s.len(),
        distinct_by(s, proj),
        forall|i: int| 0 <= i < s.len() ==> proj(#[trigger] s[i]) != proj(x),
    ensures
        distinct_by(s.insert(p, x), proj),
{
    let r = s.insert(p, x);
    assert forall|i: int, j: int| 0 <= i < j < r.len() implies proj(#[trigger] r[i]) != proj(#[trigger] r[j]) by {
        if i < p && j < p {
            assert(r[i] == s[i] && r[j] == s[j]);
        } else if i < p && j == p {
            assert(r[i] == s[i]);
        } else if i < p {
            assert(r[i] == s[i] && r[j] == s[j - 1]);
        } else if i == p {
            assert(r[j] == s[j - 1]);
        } else {
            assert(r[i] == s[i - 1] && r[j] == s[j - 1]);
        }
    }
}

/// A stable sort keeps projections distinct, and takes the same projections.
pub proof fn lemma_stable_sort_distinct<T, A>(s: Seq<T>, key: spec_fn(T) -> int, proj: spec_fn(T) -> A)
    requires
        distinct_by(s, proj),
    ensures
        distinct_by(stable_sort(s, key), proj),
    decreases s.len(),
{
    if s.len() > 0 {
        let init = s.drop_last();
        assert(distinct_by(init, proj)) by {
            assert forall|i: int, j: int| 0 <= i < j < init.len() implies proj(#[trigger] init[i]) != proj(
                #[trigger] init[j],
            ) by {
                assert(init[i] == s[i] && init[j] == s[j]);
            }
        }
        lemma_stable_sort_distinct(init, key, proj);
        let rest = stable_sort(init, key);
        lemma_stable_sort_len(init, key);
        assert forall|i: int| 0 <= i < rest.len() implies proj(#[trigger] rest[i]) != proj(s.last()) by {
            lemma_stable_sort_contains(init, key, rest[i]);
            assert(rest.contains(rest[i]));
            let k = choose|k: int| 0 <= k < init.len() && init[k] == rest[i];
            assert(s[k] == init[k]);
        }
        lemma_sorted_insert_is_insert(rest, s.last(), key);
        let p = choose|p: int| 0 <= p <= rest.len() && sorted_insert(rest, s.last(), key) == rest.insert(p, s.last());
        lemma_insert_distinct(rest, s.last(), p, proj);
    }
}

/// Inserting into an ordered sequence keeps it ordered.
pub proof fn lemma_sorted_insert_sorted<T>(s: Seq<T>, x: T, key: spec_fn(T) -> int)
    requires
        is_sorted_by(s, key),
    ensures
        is_sorted_by(sorted_insert(s, x, key), key),
    decreases s.len(),
{
    if s.len() > 0 && key(s.last()) > key(x) {
        let d = s.drop_last();
        lemma_sorted_insert_sorted(d, x, key);
        lemma_sorted_insert_is_insert(d, x, key);
        let p = choose|p: int| 0 <= p <= d.len() && sorted_insert(d, x, key) == d.insert(p, x);
        let r = sorted_insert(d, x, key);
        assert forall|i: int| 0 <= i < r.len() implies key(#[trigger] r[i]) <= key(s.last()) by {
            if i < p {
                assert(r[i] == s[i]);
            } else if i > p {
                assert(r[i] == s[i - 1]);
            }
        }
    }
}

/// Law: a stable sort orders the sequence by the key.
pub proof fn lemma_stable_sort_sorted<T>(s: Seq<T>, key: spec_fn(T) -> int)
    ensures
        is_sorted_by(stable_sort(s, key), key),
    decreases s.len(),
{
    if s.len() > 0 {
        lemma_stable_sort_sorted(s.drop_last(), key);
        lemma_sorted_insert_sorted(stable_sort(s.drop_last(), key), s.last(), key);
    }
}

proof fn lemma_sorted_insert_with_key<T>(s: Seq<T>, x: T, key: spec_fn(T) -> int, k: int)
    requires
        is_sorted_by(s, key),
    ensures
        with_key(sorted_insert(s, x, key), key, k) == if key(x) == k {
            with_key(s, key, k).push(x)
        } else {
            with_key(s, key, k)
        },
    decreases s.len(),
{
    let f = key_is(key, k);
    if s.len() == 0 {
        Seq::<T>::empty().lemma_filter_push(x, f);
        Seq::<T>::empty().lemma_filter_len(f);
        assert(seq![x] =~= Seq::<T>::empty().push(x));
        assert(Seq::<T>::empty().filter(f) =~= Seq::<T>::empty());
    } else if key(s.last()) <= key(x) {
        s.lemma_filter_push(x, f);
    } else {
        let d = s.drop_last();
        lemma_sorted_insert_with_key(d, x, key, k);
        sorted_insert(d, x, key).lemma_filter_push(s.last(), f);
        d.lemma_filter_push(s.last(), f);
        assert(d.push(s.last()) =~= s);
        if key(x) == k {
            assert(with_key(d, key, k).push(x) =~= with_key(s, key, k).push(x));
        }
    }
}

/// Law: a stable sort keeps the elements of each key in the order they had:
/// for every key value, the elements with that key are the same sequence
/// before and after.
pub proof fn lemma_stable_sort_stable<T>(s: Seq<T>, key: spec_fn(T) -> int, k: int)
    ensures
        with_key(stable_sort(s, key), key, k) == with_key(s, key, k),
    decreases s.len(),
{
    let f = key_is(key, k);
    if s.len() == 0 {
    } else {
        let d = s.drop_last();
        lemma_stable_sort_stable(d, key, k);
        lemma_stable_sort_sorted(d, key);
        lemma_sorted_insert_with_key(stable_sort(d, key), s.last(), key, k);
        d.lemma_filter_push(s.last(), f);
        assert(d.push(s.last()) =~= s);
    }
}

proof fn lemma_sorted_classes_equal<T>(a: Seq<T>, b: Seq<T>, key: spec_fn(T) -> int)
    requires
        is_sorted_by(a, key),
        is_sorted_by(b, key),
        forall|k: int| #[trigger] with_key(a, key, k) == with_key(b, key, k),
    ensures
        a == b,
    decreases a.len() + b.len(),
{
    if a.len() == 0 && b.len() == 0 {
        assert(a =~= b);
        return;
    }
    if a.len() == 0 {
        let k = key(b.last());
        b.lemma_filter_contains(key_is(key, k), b.len() - 1);
        a.lemma_filter_len(key_is(key, k));
        assert(with_key(a, key, k) == with_key(b, key, k));
        assert(false);
    }
    if b.len() == 0 {
        let k = key(a.last());
        a.lemma_filter_contains(key_is(key, k), a.len() - 1);
        b.lemma_filter_len(key_is(key, k));
        assert(with_key(a, key, k) == with_key(b, key, k));
        assert(false);
    }
    let x = a.last();
    let y = b.last();
    let kx = key(x);
    let ky = key(y);
    let a1 = a.drop_last();
    let b1 = b.drop_last();
    assert(a1.push(x) =~= a);
    assert(b1.push(y) =~= b);
    // The last elements have the greatest key of their sequences, and each
    // key class is the same in both, so the greatest keys agree.
    b.lemma_filter_contains(key_is(key, ky), b.len() - 1);
    assert(with_key(a, key, ky) == with_key(b, key, ky));
    a.lemma_filter_contains_rev(key_is(key, ky), y);
    let j = choose|j: int| 0 <= j < a.len() && a[j] == y;
    assert(key(a[j]) <= key(a[a.len() - 1]));
    a.lemma_filter_contains(key_is(key, kx), a.len() - 1);
    assert(with_key(a, key, kx) == with_key(b, key, kx));
    b.lemma_filter_contains_rev(key_is(key, kx), x);
    let i = choose|i: int| 0 <= i < b.len() && b[i] == x;
    assert(key(b[i]) <= key(b[b.len() - 1]));
    assert(kx == ky);
    a1.lemma_filter_push(x, key_is(key, kx));
    b1.lemma_filter_push(y, key_is(key, kx));
    assert(with_key(a, key, kx) == with_key(a1, key, kx).push(x));
    assert(with_key(b, key, kx) == with_key(b1, key, kx).push(y));
    assert(with_key(a1, key, kx).push(x).last() == x);
    assert(with_key(a1, key, kx) =~= with_key(a1, key, kx).push(x).drop_last());
    assert(with_key(b1, key, kx) =~= with_key(b1, key, kx).push(y).drop_last());
    assert forall|k: int| #[trigger] with_key(a1, key, k) == with_key(b1, key, k) by {
        a1.lemma_filter_push(x, key_is(key, k));
        b1.lemma_filter_push(y, key_is(key, k));
        assert(with_key(a, key, k) == with_key(b, key, k));
    }
    lemma_sorted_classes_equal(a1, b1, key);
}

/// Law: a stable sort is the only order of the sequence that is sorted by
/// the key and keeps the elements of each key in the order they had. Any
/// stable sorting algorithm (such as `sort_by` of std) gives this order.
pub proof fn lemma_stable_sort_unique<T>(s: Seq<T>, r: Seq<T>, key: spec_fn(T) -> int)
    requires
        is_sorted_by(r, key),
        forall|k: int| #[trigger] with_key(r, key, k) == with_key(s, key, k),
    ensures
        r == stable_sort(s, key),
{
    lemma_stable_sort_sorted(s, key);
    assert forall|k: int| #[trigger] with_key(r, key, k) == with_key(stable_sort(s, key), key, k) by {
        lemma_stable_sort_stable(s, key, k);
    }
    lemma_sorted_classes_equal(r, stable_sort(s, key), key);
}

/// Law: a stable sort is a permutation: it holds each element as many times as
/// the sequence it sorts.
pub proof fn lemma_stable_sort_permutes<T>(s: Seq<T>, key: spec_fn(T) -> int)
    ensures
        stable_sort(s, key).to_multiset() == s.to_multiset(),
    decreases s.len(),
{
    if s.len() > 0 {
        let d = s.drop_last();
        lemma_stable_sort_permutes(d, key);
        let rest = stable_sort(d, key);
        lemma_sorted_insert_is_insert(rest, s.last(), key);
        let p = choose|p: int| 0 <= p <= rest.len() && sorted_insert(rest, s.last(), key) == rest.insert(p, s.last());
        vstd::seq_lib::to_multiset_insert(rest, p, s.last());
        vstd::seq_lib::to_multiset_build(d, s.last());
        assert(d.push(s.last()) =~= s);
    }
}

} // verus!
