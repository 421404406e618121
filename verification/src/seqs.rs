//! Sequence helpers shared by the kernel's indexes: first match, keyed
//! replace-or-append, and the uniqueness of keys.
use vstd::prelude::*;

verus! {

/// Index of the first element of `s` that satisfies `p`, or `-1`.
pub open spec fn find_first<T>(s: Seq<T>, p: spec_fn(T) -> bool) -> int
    decreases s.len(),
{
    if s.len() == 0 {
        -1
    } else {
        let i = find_first(s.drop_last(), p);
        if i >= 0 {
            i
        } else if p(s.last()) {
            s.len() - 1
        } else {
            -1
        }
    }
}

pub proof fn lemma_find_first<T>(s: Seq<T>, p: spec_fn(T) -> bool)
    ensures
        -1 <= find_first(s, p) < s.len(),
        find_first(s, p) >= 0 ==> p(s[find_first(s, p)]),
        forall|j: int| 0 <= j < s.len() && (find_first(s, p) == -1 || j < find_first(s, p)) ==> !p(
            #[trigger] s[j],
        ),
    decreases s.len(),
{
    if s.len() > 0 {
        lemma_find_first(s.drop_last(), p);
        let f = find_first(s, p);
        assert forall|j: int| 0 <= j < s.len() && (f == -1 || j < f) implies !p(#[trigger] s[j]) by {
            if j < s.len() - 1 {
                assert(s.drop_last()[j] == s[j]);
            }
        }
        if f >= 0 && f < s.len() - 1 {
            assert(s.drop_last()[f] == s[f]);
        }
    }
}

/// `find_first` is characterised by: `p` holds at the index and nowhere before.
pub proof fn lemma_find_first_is<T>(s: Seq<T>, p: spec_fn(T) -> bool, i: int)
    requires
        0 <= i < s.len(),
        p(s[i]),
        forall|j: int| 0 <= j < i ==> !p(#[trigger] s[j]),
    ensures
        find_first(s, p) == i,
{
    lemma_find_first(s, p);
}

/// `find_first` is `-1` exactly when no element satisfies `p`.
pub proof fn lemma_find_first_none<T>(s: Seq<T>, p: spec_fn(T) -> bool)
    requires
        forall|j: int| 0 <= j < s.len() ==> !p(#[trigger] s[j]),
    ensures
        find_first(s, p) == -1,
{
    lemma_find_first(s, p);
}

/// An element type of a keyed index; `key_view` is the identity of an entry.
pub trait Keyed: Sized {
    type K;

    spec fn key_view(&self) -> Self::K;

    fn same_key(&self, other: &Self) -> (same: bool)
        ensures
            same == (self.key_view() == other.key_view()),
    ;
}

/// Whether `k` is the key of `x`.
pub open spec fn has_key<T: Keyed>(k: T::K) -> spec_fn(T) -> bool {
    |x: T| x.key_view() == k
}

/// Replace the first entry with the key of `item` by `item`, or append it.
pub open spec fn upserted<T: Keyed>(s: Seq<T>, item: T) -> Seq<T> {
    let i = find_first(s, has_key::<T>(item.key_view()));
    if i >= 0 {
        s.update(i, item)
    } else {
        s.push(item)
    }
}

/// No two entries of `s` share a key.
pub open spec fn keys_unique<T: Keyed>(s: Seq<T>) -> bool {
    forall|i: int, j: int|
        0 <= i < s.len() && 0 <= j < s.len() && i != j ==> #[trigger] s[i].key_view()
            != #[trigger] s[j].key_view()
}

/// Whether some entry of `s` has key `k`.
pub open spec fn contains_key<T: Keyed>(s: Seq<T>, k: T::K) -> bool {
    exists|i: int| 0 <= i < s.len() && #[trigger] s[i].key_view() == k
}

/// Replaces the entry with the key of `item`, or appends `item`.
pub fn upsert_by_key<T: Keyed>(v: &mut Vec<T>, item: T)
    ensures
        final(v)@ == upserted(old(v)@, item),
{
    let n = v.len();
    let mut i: usize = 0;
    while i < n
        invariant
            n == v.len(),
            v@ == old(v)@,
            i <= n,
            forall|j: int| 0 <= j < i ==> !has_key::<T>(item.key_view())(#[trigger] v@[j]),
        decreases n - i,
    {
        if v[i].same_key(&item) {
            proof {
                lemma_find_first_is(old(v)@, has_key::<T>(item.key_view()), i as int);
            }
            v.set(i, item);
            return;
        }
        i = i + 1;
    }
    proof {
        lemma_find_first_none(old(v)@, has_key::<T>(item.key_view()));
    }
    v.push(item);
}

/// Law: replace-or-append keeps keys unique, keeps every other key's entry,
/// and leaves exactly one entry with the new key, which is `item`.
pub proof fn lemma_upsert_keyed<T: Keyed>(s: Seq<T>, item: T)
    requires
        keys_unique(s),
    ensures
        keys_unique(upserted(s, item)),
        contains_key(upserted(s, item), item.key_view()),
        forall|i: int|
            0 <= i < upserted(s, item).len() && #[trigger] upserted(s, item)[i].key_view()
                == item.key_view() ==> upserted(s, item)[i] == item,
        forall|i: int|
            0 <= i < s.len() && s[i].key_view() != item.key_view() ==> #[trigger] contains_key(
                upserted(s, item),
                s[i].key_view(),
            ),
        upserted(s, item).len() == s.len() + (if contains_key(s, item.key_view()) {
            0int
        } else {
            1int
        }),
{
    let p = has_key::<T>(item.key_view());
    lemma_find_first(s, p);
    let i = find_first(s, p);
    let u = upserted(s, item);
    if i >= 0 {
        assert(u[i] == item);
        assert forall|a: int| 0 <= a < s.len() && s[a].key_view() != item.key_view() implies #[trigger] contains_key(
            u,
            s[a].key_view(),
        ) by {
            assert(u[a] == s[a]);
        }
        assert(contains_key(s, item.key_view())) by {
            assert(s[i].key_view() == item.key_view());
        }
    } else {
        assert(u[s.len() as int] == item);
        assert forall|a: int| 0 <= a < s.len() && s[a].key_view() != item.key_view() implies #[trigger] contains_key(
            u,
            s[a].key_view(),
        ) by {
            assert(u[a] == s[a]);
        }
        assert(!contains_key(s, item.key_view())) by {
            if contains_key(s, item.key_view()) {
                let a = choose|a: int| 0 <= a < s.len() && #[trigger] s[a].key_view() == item.key_view();
                assert(!p(s[a]));
            }
        }
    }
}

} // verus!

verus! {

/// Whether no two entries of `v` share a key.
pub fn keys_unique_check<T: Keyed>(v: &Vec<T>) -> (ok: bool)
    ensures
        ok == keys_unique(v@),
{
    let n = v.len();
    let mut i: usize = 0;
    while i < n
        invariant
            n == v@.len(),
            i <= n,
            forall|a: int, b: int|
                0 <= a < i && 0 <= b < n && a != b ==> #[trigger] v@[a].key_view() != #[trigger] v@[b].key_view(),
        decreases n - i,
    {
        let mut j: usize = 0;
        while j < n
            invariant
                n == v@.len(),
                i < n,
                j <= n,
                forall|a: int, b: int|
                    0 <= a < i && 0 <= b < n && a != b ==> #[trigger] v@[a].key_view() != #[trigger] v@[b].key_view(),
                forall|b: int| 0 <= b < j && b != i ==> v@[i as int].key_view() != #[trigger] v@[b].key_view(),
            decreases n - j,
        {
            if j != i && v[i].same_key(&v[j]) {
                proof {
                    assert(v@[i as int].key_view() == v@[j as int].key_view());
                }
                return false;
            }
            j = j + 1;
        }
        i = i + 1;
    }
    true
}

/// Index of the first entry of `v` with the key of `item`.
pub fn find_key_index<T: Keyed>(v: &Vec<T>, item: &T) -> (found: Option<usize>)
    ensures
        match found {
            Some(i) => i as int == find_first(v@, has_key::<T>(item.key_view())) && i < v@.len(),
            None => find_first(v@, has_key::<T>(item.key_view())) == -1,
        },
{
    let n = v.len();
    let mut i: usize = 0;
    while i < n
        invariant
            n == v@.len(),
            i <= n,
            forall|j: int| 0 <= j < i ==> !has_key::<T>(item.key_view())(#[trigger] v@[j]),
        decreases n - i,
    {
        if v[i].same_key(item) {
            proof {
                lemma_find_first_is(v@, has_key::<T>(item.key_view()), i as int);
            }
            return Some(i);
        }
        i = i + 1;
    }
    proof {
        lemma_find_first_none(v@, has_key::<T>(item.key_view()));
    }
    None
}

} // verus!

verus! {

/// One more element of a prefix either joins the kept elements or not.
pub proof fn lemma_filter_take_step<T>(s: Seq<T>, p: spec_fn(T) -> bool, j: int)
    requires
        0 <= j < s.len(),
    ensures
        s.take(j + 1).filter(p) == (if p(s[j]) {
            s.take(j).filter(p).push(s[j])
        } else {
            s.take(j).filter(p)
        }),
{
    reveal(Seq::filter);
    assert(s.take(j + 1).drop_last() =~= s.take(j));
    assert(s.take(j + 1).last() == s[j]);
}

/// Filtering keeps keys unique, and keeps only elements of `s` that satisfy
/// the predicate.
pub proof fn lemma_filter_keyed<T: Keyed>(s: Seq<T>, p: spec_fn(T) -> bool)
    requires
        keys_unique(s),
    ensures
        keys_unique(s.filter(p)),
        forall|i: int|
            0 <= i < s.filter(p).len() ==> p(#[trigger] s.filter(p)[i]) && contains_key(
                s,
                s.filter(p)[i].key_view(),
            ),
    decreases s.len(),
{
    reveal(Seq::filter);
    if s.len() > 0 {
        let d = s.drop_last();
        assert forall|i: int, j: int| 0 <= i < d.len() && 0 <= j < d.len() && i != j implies #[trigger] d[i].key_view()
            != #[trigger] d[j].key_view() by {
            assert(d[i] == s[i] && d[j] == s[j]);
        }
        lemma_filter_keyed(d, p);
        let f = d.filter(p);
        assert forall|i: int| 0 <= i < f.len() implies contains_key(s, #[trigger] f[i].key_view()) by {
            let k = choose|k: int| 0 <= k < d.len() && #[trigger] d[k].key_view() == f[i].key_view();
            assert(s[k] == d[k]);
        }
        if p(s.last()) {
            let g = f.push(s.last());
            assert(s.filter(p) == g);
            assert forall|i: int| 0 <= i < f.len() implies (#[trigger] f[i]).key_view() != s.last().key_view() by {
                let k = choose|k: int| 0 <= k < d.len() && #[trigger] d[k].key_view() == f[i].key_view();
                assert(s[k] == d[k]);
                assert(k != s.len() - 1);
            }
            assert forall|i: int, j: int| 0 <= i < g.len() && 0 <= j < g.len() && i != j implies #[trigger] g[i].key_view()
                != #[trigger] g[j].key_view() by {
                if i < f.len() && j < f.len() {
                    assert(g[i] == f[i] && g[j] == f[j]);
                } else if i < f.len() {
                    assert(g[i] == f[i]);
                } else {
                    assert(g[j] == f[j]);
                }
            }
            assert forall|i: int| 0 <= i < g.len() implies p(#[trigger] g[i]) && contains_key(s, g[i].key_view()) by {
                if i < f.len() {
                    assert(g[i] == f[i]);
                } else {
                    assert(g[i] == s[s.len() - 1]);
                }
            }
        } else {
            assert(s.filter(p) == f);
        }
    }
}

/// Filtering with a predicate that holds everywhere changes nothing.
pub proof fn lemma_filter_all<T>(s: Seq<T>, p: spec_fn(T) -> bool)
    requires
        forall|i: int| 0 <= i < s.len() ==> p(#[trigger] s[i]),
    ensures
        s.filter(p) == s,
    decreases s.len(),
{
    reveal(Seq::filter);
    if s.len() > 0 {
        let d = s.drop_last();
        assert forall|i: int| 0 <= i < d.len() implies p(#[trigger] d[i]) by {
            assert(d[i] == s[i]);
        }
        lemma_filter_all(d, p);
        assert(d.push(s.last()) =~= s);
    }
}

} // verus!
