//! Stable ordering by an integer key: the paint order of shapes and edges.
use vstd::prelude::*;

verus! {

/// Items ordered by an integer key, lowest first.
pub trait Keyed {
    spec fn key(&self) -> int;

    fn sort_key(&self) -> (r: i128)
        ensures
            r == self.key(),
    ;
}

/// `s` with `x` placed after every element whose key is at most `x`'s and
/// before the trailing run of elements with a greater key.
pub open spec fn insert_stable<T: Keyed>(s: Seq<T>, x: T) -> Seq<T>
    decreases s.len(),
{
    if s.len() == 0 {
        seq![x]
    } else if s.last().key() <= x.key() {
        s.push(x)
    } else {
        insert_stable(s.drop_last(), x).push(s.last())
    }
}

/// Insertion sort by key: each element in turn goes after the earlier ones
/// whose key is not greater.
pub open spec fn sort_stable<T: Keyed>(s: Seq<T>) -> Seq<T>
    decreases s.len(),
{
    if s.len() == 0 {
        Seq::empty()
    } else {
        insert_stable(sort_stable(s.drop_last()), s.last())
    }
}

/// Whether keys never decrease along `s`.
pub open spec fn sorted_by_key<T: Keyed>(s: Seq<T>) -> bool {
    forall|i: int, j: int| 0 <= i < j < s.len() ==> s[i].key() <= s[j].key()
}

/// The elements of `s` with key `k`, in their order in `s`.
pub open spec fn with_key<T: Keyed>(s: Seq<T>, k: int) -> Seq<T> {
    s.filter(|t: T| t.key() == k)
}

/// Insertion keeps every element: the result is a rearrangement of the input.
pub proof fn lemma_insert_keeps_all<T: Keyed>(s: Seq<T>, x: T)
    ensures
        insert_stable(s, x).to_multiset() == s.to_multiset().insert(x),
        insert_stable(s, x).len() == s.len() + 1,
    decreases s.len(),
{
    broadcast use vstd::seq_lib::group_to_multiset_ensures;
    if s.len() == 0 {
        assert(seq![x] == Seq::<T>::empty().push(x));
    } else if s.last().key() <= x.key() {
    } else {
        lemma_insert_keeps_all(s.drop_last(), x);
        assert(s.drop_last().push(s.last()) == s);
    }
}

/// Sorting keeps every element: the result is a rearrangement of the input.
pub proof fn lemma_sort_keeps_all<T: Keyed>(s: Seq<T>)
    ensures
        sort_stable(s).to_multiset() == s.to_multiset(),
        sort_stable(s).len() == s.len(),
        forall|t: T| sort_stable(s).contains(t) <==> s.contains(t),
    decreases s.len(),
{
    broadcast use vstd::seq_lib::group_to_multiset_ensures;
    if s.len() > 0 {
        lemma_sort_keeps_all(s.drop_last());
        lemma_insert_keeps_all(sort_stable(s.drop_last()), s.last());
        assert(s.drop_last().push(s.last()) == s);
    }
    assert forall|t: T| sort_stable(s).contains(t) <==> s.contains(t) by {
        assert(sort_stable(s).to_multiset().count(t) == s.to_multiset().count(t));
    }
}

proof fn lemma_with_key_single<T: Keyed>(x: T, k: int)
    ensures
        with_key(seq![x], k) == (if x.key() == k { seq![x] } else { Seq::<T>::empty() }),
{
    reveal_with_fuel(Seq::filter, 2);
    assert(seq![x].drop_last() =~= Seq::<T>::empty());
    assert(Seq::<T>::empty().filter(|t: T| t.key() == k) =~= Seq::<T>::empty());
    assert(seq![x].last() == x);
}

proof fn lemma_with_key_push<T: Keyed>(s: Seq<T>, x: T, k: int)
    ensures
        with_key(s.push(x), k) == with_key(s, k) + (if x.key() == k { seq![x] } else { Seq::<T>::empty() }),
{
    Seq::filter_distributes_over_add(s, seq![x], |t: T| t.key() == k);
    assert(s + seq![x] == s.push(x));
    lemma_with_key_single(x, k);
}

/// Insertion adds `x` to the elements of its key after the ones already there.
proof fn lemma_insert_with_key<T: Keyed>(s: Seq<T>, x: T, k: int)
    ensures
        with_key(insert_stable(s, x), k) == with_key(s, k) + (if x.key() == k { seq![x] } else { Seq::<T>::empty() }),
    decreases s.len(),
{
    if s.len() == 0 {
        lemma_with_key_single(x, k);
        assert(with_key(s, k) =~= Seq::<T>::empty()) by {
            reveal(Seq::filter);
        }
    } else if s.last().key() <= x.key() {
        lemma_with_key_push(s, x, k);
    } else {
        let l = s.last();
        let t = s.drop_last();
        lemma_insert_with_key(t, x, k);
        lemma_with_key_push(insert_stable(t, x), l, k);
        lemma_with_key_push(t, l, k);
        assert(t.push(l) == s);
        if x.key() == k {
            assert(with_key(insert_stable(s, x), k) =~= with_key(s, k) + seq![x]);
        } else {
            assert(with_key(insert_stable(s, x), k) =~= with_key(s, k));
        }
    }
}

/// Sorting keeps, for every key, the elements with that key in their original order.
pub proof fn lemma_sort_is_stable<T: Keyed>(s: Seq<T>, k: int)
    ensures
        with_key(sort_stable(s), k) == with_key(s, k),
    decreases s.len(),
{
    if s.len() == 0 {
    } else {
        let t = s.drop_last();
        lemma_sort_is_stable(t, k);
        lemma_insert_with_key(sort_stable(t), s.last(), k);
        lemma_with_key_push(t, s.last(), k);
        assert(t.push(s.last()) == s);
    }
}

proof fn lemma_insert_sorted<T: Keyed>(s: Seq<T>, x: T)
    requires
        sorted_by_key(s),
    ensures
        sorted_by_key(insert_stable(s, x)),
    decreases s.len(),
{
    broadcast use vstd::seq_lib::group_to_multiset_ensures;
    if s.len() == 0 {
    } else if s.last().key() <= x.key() {
        let r = s.push(x);
        assert forall|i: int, j: int| 0 <= i < j < r.len() implies r[i].key() <= r[j].key() by {
            if j == s.len() {
                assert(s[i].key() <= s.last().key());
            }
        }
    } else {
        let l = s.last();
        let t = s.drop_last();
        lemma_insert_sorted(t, x);
        lemma_insert_keeps_all(t, x);
        let m = insert_stable(t, x);
        let r = m.push(l);
        assert forall|i: int, j: int| 0 <= i < j < r.len() implies r[i].key() <= r[j].key() by {
            if j == m.len() {
                assert(m.contains(m[i]));
                assert(m.to_multiset().count(m[i]) > 0);
                assert(t.to_multiset().insert(x).count(m[i]) > 0);
                if m[i] != x {
                    assert(t.to_multiset().count(m[i]) > 0);
                    assert(t.contains(m[i]));
                    let q = choose|q: int| 0 <= q < t.len() && t[q] == m[i];
                    assert(s[q] == t[q]);
                }
            }
        }
    }
}

/// Sorting leaves keys in non-decreasing order.
pub proof fn lemma_sort_is_sorted<T: Keyed>(s: Seq<T>)
    ensures
        sorted_by_key(sort_stable(s)),
    decreases s.len(),
{
    if s.len() > 0 {
        lemma_sort_is_sorted(s.drop_last());
        lemma_insert_sorted(sort_stable(s.drop_last()), s.last());
    }
}

/// Paint order: sorting by key yields a rearrangement of the input in which
/// keys never decrease and elements with equal keys keep their relative order.
pub proof fn lemma_paint_order<T: Keyed>(s: Seq<T>)
    ensures
        sort_stable(s).to_multiset() == s.to_multiset(),
        sorted_by_key(sort_stable(s)),
        forall|k: int| #[trigger] with_key(sort_stable(s), k) == with_key(s, k),
{
    lemma_sort_keeps_all(s);
    lemma_sort_is_sorted(s);
    assert forall|k: int| #[trigger] with_key(sort_stable(s), k) == with_key(s, k) by {
        lemma_sort_is_stable(s, k);
    }
}

proof fn lemma_insert_at<T: Keyed>(s: Seq<T>, x: T, j: int)
    requires
        0 <= j <= s.len(),
        forall|m: int| j <= m < s.len() ==> s[m].key() > x.key(),
        j == 0 || s[j - 1].key() <= x.key(),
    ensures
        insert_stable(s, x) == s.insert(j, x),
    decreases s.len(),
{
    if s.len() == 0 {
        assert(s.insert(j, x) =~= seq![x]);
    } else if j == s.len() {
        assert(s.insert(j, x) =~= s.push(x));
    } else {
        lemma_insert_at(s.drop_last(), x, j);
        assert(s.drop_last().insert(j, x).push(s.last()) =~= s.insert(j, x));
    }
}

/// Places `x` into `v` as `insert_stable` says.
fn insert_into<T: Keyed>(v: &mut Vec<T>, x: T)
    ensures
        final(v)@ == insert_stable(old(v)@, x),
{
    let k = x.sort_key();
    let mut j: usize = v.len();
    while j > 0 && v[j - 1].sort_key() > k
        invariant
            0 <= j <= v.len(),
            k == x.key(),
            forall|m: int| j <= m < v.len() ==> v@[m].key() > x.key(),
        decreases j,
    {
        j = j - 1;
    }
    proof {
        lemma_insert_at(v@, x, j as int);
    }
    v.insert(j, x);
}

/// Sorts by key, keeping the order of elements with equal keys.
pub fn sort_by_key_stable<T: Keyed>(v: Vec<T>) -> (r: Vec<T>)
    ensures
        r@ == sort_stable(v@),
{
    let ghost s = v@;
    let mut rest = v;
    let mut out: Vec<T> = Vec::new();
    let n = rest.len();
    let mut i: usize = 0;
    while i < n
        invariant
            n == s.len(),
            0 <= i <= n,
            rest@ == s.skip(i as int),
            out@ == sort_stable(s.take(i as int)),
        decreases n - i,
    {
        let x = rest.remove(0);
        proof {
            assert(s.take(i as int + 1).drop_last() =~= s.take(i as int));
            assert(s.take(i as int + 1).last() == x);
        }
        insert_into(&mut out, x);
        i = i + 1;
        proof {
            assert(rest@ =~= s.skip(i as int));
        }
    }
    assert(s.take(n as int) =~= s);
    out
}

} // verus!
