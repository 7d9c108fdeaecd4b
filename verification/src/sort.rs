//! Stable sorting of timestamps, and of daily rows by their timestamp.

use vstd::prelude::*;

verus! {

/// A row ordered by a numeric key.
pub trait Keyed: Sized {
    spec fn spec_key(&self) -> u64;

    fn key(&self) -> (k: u64)
        ensures
            k == self.spec_key(),
    ;
}

impl Keyed for u64 {
    open spec fn spec_key(&self) -> u64 {
        *self
    }

    fn key(&self) -> (k: u64) {
        *self
    }
}

impl Keyed for (u64, u64) {
    open spec fn spec_key(&self) -> u64 {
        self.0
    }

    fn key(&self) -> (k: u64) {
        self.0
    }
}

impl Keyed for (u64, u64, u64) {
    open spec fn spec_key(&self) -> u64 {
        self.0
    }

    fn key(&self) -> (k: u64) {
        self.0
    }
}

/// Whether the keys of `s` never decrease.
pub open spec fn sorted_by_key<T: Keyed>(s: Seq<T>) -> bool {
    forall|i: int, j: int| 0 <= i <= j < s.len() ==> s[i].spec_key() <= s[j].spec_key()
}

/// The rows of `s` whose key is `k`, in their order in `s`.
pub open spec fn with_key<T: Keyed>(s: Seq<T>, k: u64) -> Seq<T> {
    s.filter(key_is(k))
}

/// Whether a row's key is `k`.
pub open spec fn key_is<T: Keyed>(k: u64) -> spec_fn(T) -> bool {
    |t: T| t.spec_key() == k
}

/// Whether `r` is `s` sorted by key, rows of equal key keeping their order:
/// `r` is sorted, and for every key it holds the same rows in the same order.
pub open spec fn is_stable_sort_of<T: Keyed>(r: Seq<T>, s: Seq<T>) -> bool {
    &&& sorted_by_key(r)
    &&& forall|k: u64| #[trigger] with_key(r, k) == with_key(s, k)
}

proof fn lemma_filter_none<T>(s: Seq<T>, pred: spec_fn(T) -> bool)
    requires
        forall|i: int| 0 <= i < s.len() ==> !pred(#[trigger] s[i]),
    ensures
        s.filter(pred) == Seq::<T>::empty(),
    decreases s.len(),
{
    reveal(Seq::filter);
    if s.len() > 0 {
        lemma_filter_none(s.drop_last(), pred);
    }
}

/// Sorts `v` by key; rows with equal keys keep their order.
pub fn stable_sort_by_key<T: Keyed + Copy>(v: &Vec<T>) -> (r: Vec<T>)
    ensures
        is_stable_sort_of(r@, v@),
{
    broadcast use Seq::lemma_filter_push, Seq::filter_distributes_over_add;

    let ghost s = v@;
    let mut r: Vec<T> = Vec::new();
    let mut i: usize = 0;
    assert(s.subrange(0, 0) =~= r@);
    while i < v.len()
        invariant
            s == v@,
            i <= v.len(),
            is_stable_sort_of(r@, s.subrange(0, i as int)),
        decreases v.len() - i,
    {
        let x = v[i];
        let kx = x.key();
        let mut p = r.len();
        while p > 0 && r[p - 1].key() > kx
            invariant
                p <= r.len(),
                forall|j: int| p <= j < r.len() ==> r@[j].spec_key() > kx,
            decreases p,
        {
            p = p - 1;
        }
        let ghost old_r = r@;
        r.insert(p, x);
        proof {
            let pre = old_r.subrange(0, p as int);
            let post = old_r.subrange(p as int, old_r.len() as int);
            assert(old_r =~= pre + post);
            assert(r@ =~= pre.push(x) + post);
            assert(s.subrange(0, i + 1) =~= s.subrange(0, i as int).push(x));
            assert forall|k: u64| #[trigger] with_key(r@, k) == with_key(s.subrange(0, i + 1), k) by {
                let pred = key_is::<T>(k);
                assert(with_key(old_r, k) == with_key(s.subrange(0, i as int), k));
                pre.lemma_filter_push(x, pred);
                s.subrange(0, i as int).lemma_filter_push(x, pred);
                Seq::filter_distributes_over_add(pre.push(x), post, pred);
                Seq::filter_distributes_over_add(pre, post, pred);
                if k == kx {
                    lemma_filter_none(post, pred);
                    assert(pre.filter(pred) + post.filter(pred) =~= pre.filter(pred));
                    assert(pre.push(x).filter(pred) + post.filter(pred) =~= pre.filter(pred).push(x));
                } else {
                    assert(pre.push(x).filter(pred) == pre.filter(pred));
                }
            }
            assert forall|a: int, b: int| 0 <= a <= b < r@.len() implies r@[a].spec_key()
                <= r@[b].spec_key() by {
                if p > 0 && a < p {
                    assert(old_r[p - 1].spec_key() <= kx);
                }
            }
        }
        i = i + 1;
    }
    assert(s.subrange(0, s.len() as int) =~= s);
    r
}

/// Whether no two items of `s` share a key.
pub open spec fn keys_distinct<T>(s: Seq<T>, key: spec_fn(T) -> Seq<char>) -> bool {
    forall|i: int, j: int| 0 <= i < j < s.len() ==> key(#[trigger] s[i]) != key(#[trigger] s[j])
}

proof fn lemma_count_two<T>(p: Seq<T>, i: int, j: int)
    requires
        0 <= i < j < p.len(),
        p[i] == p[j],
    ensures
        p.to_multiset().count(p[i]) >= 2,
{
    broadcast use vstd::seq_lib::group_to_multiset_ensures, vstd::multiset::group_multiset_axioms;

    vstd::seq_lib::to_multiset_remove(p, j);
    assert(p.remove(j).contains(p[i])) by {
        assert(p.remove(j)[i] == p[i]);
    }
    assert(p.remove(j).to_multiset().count(p[i]) > 0);
    assert(p.to_multiset().remove(p[j]).count(p[i]) > 0);
    assert(p.to_multiset().count(p[i]) > 0) by {
        assert(p.contains(p[i]));
    }
}

proof fn lemma_distinct_count_one<T>(a: Seq<T>, key: spec_fn(T) -> Seq<char>, x: int)
    requires
        keys_distinct(a, key),
        0 <= x < a.len(),
    ensures
        a.to_multiset().count(a[x]) == 1,
{
    broadcast use vstd::seq_lib::group_to_multiset_ensures, vstd::multiset::group_multiset_axioms;

    vstd::seq_lib::to_multiset_remove(a, x);
    assert(!a.remove(x).contains(a[x])) by {
        if a.remove(x).contains(a[x]) {
            let k = choose|k: int| 0 <= k < a.remove(x).len() && a.remove(x)[k] == a[x];
            if k < x {
                assert(a[k] == a[x]);
            } else {
                assert(a[k + 1] == a[x]);
            }
        }
    }
    assert(a.remove(x).to_multiset().count(a[x]) == 0);
    assert(a.to_multiset().remove(a[x]).count(a[x]) == 0);
    assert(a.to_multiset().count(a[x]) > 0) by {
        assert(a.contains(a[x]));
    }
}

/// Reordering items keeps their keys distinct.
pub proof fn lemma_permutation_keeps_keys_distinct<T>(
    a: Seq<T>,
    p: Seq<T>,
    key: spec_fn(T) -> Seq<char>,
)
    requires
        keys_distinct(a, key),
        p.to_multiset() == a.to_multiset(),
    ensures
        keys_distinct(p, key),
{
    broadcast use vstd::seq_lib::group_to_multiset_ensures, vstd::multiset::group_multiset_axioms;

    assert forall|i: int, j: int| 0 <= i < j < p.len() implies key(#[trigger] p[i]) != key(
        #[trigger] p[j],
    ) by {
        if key(p[i]) == key(p[j]) {
            assert(p.contains(p[i]) && p.contains(p[j]));
            assert(p.to_multiset().count(p[i]) > 0 && p.to_multiset().count(p[j]) > 0);
            assert(a.to_multiset().count(p[i]) > 0 && a.to_multiset().count(p[j]) > 0);
            assert(a.contains(p[i]) && a.contains(p[j]));
            let x = choose|x: int| 0 <= x < a.len() && a[x] == p[i];
            let y = choose|y: int| 0 <= y < a.len() && a[y] == p[j];
            if x == y {
                // one item of `a` stands twice in `p`
                lemma_count_two(p, i, j);
                lemma_distinct_count_one(a, key, x);
            }
        }
    }
}

} // verus!
