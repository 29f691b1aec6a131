//! A map from offsets to values that keeps its entries in ascending order
//! of offset, as the register and field tables of a peripheral need.

use vstd::prelude::*;

verus! {

/// Values that can be duplicated with their view kept.
pub trait Duplicate: View + Sized {
    fn duplicate(&self) -> (r: Self)
        ensures
            r@ == self@;
}

/// Whether the keys of `s` rise strictly from first to last.
pub open spec fn keys_increasing<T>(s: Seq<(usize, T)>) -> bool {
    forall|i: int, j: int| 0 <= i < j < s.len() ==> #[trigger] s[i].0 < #[trigger] s[j].0
}

/// The entries of `s` after `v` is stored under `k`: in the place that keeps
/// the keys ascending, in place of an entry with the same key where there is one.
pub open spec fn spec_insert<T>(s: Seq<(usize, T)>, k: usize, v: T) -> Seq<(usize, T)>
    decreases s.len(),
{
    if s.len() == 0 {
        seq![(k, v)]
    } else if k < s[0].0 {
        seq![(k, v)] + s
    } else if k == s[0].0 {
        seq![(k, v)] + s.drop_first()
    } else {
        seq![s[0]] + spec_insert(s.drop_first(), k, v)
    }
}

/// The value stored under `k` in `s`, the first one where several are.
pub open spec fn spec_lookup<T>(s: Seq<(usize, T)>, k: usize) -> Option<T>
    decreases s.len(),
{
    if s.len() == 0 {
        None
    } else if s[0].0 == k {
        Some(s[0].1)
    } else {
        spec_lookup(s.drop_first(), k)
    }
}

/// Whether `s` holds an entry with key `k`.
pub open spec fn has_key<T>(s: Seq<(usize, T)>, k: usize) -> bool {
    exists|i: int| 0 <= i < s.len() && #[trigger] s[i].0 == k
}

/// A map from offsets to values, walked in ascending order of offset.
pub struct OffsetMap<V> {
    entries: Vec<(usize, V)>,
}

impl<V: View> View for OffsetMap<V> {
    type V = Seq<(usize, V::V)>;

    closed spec fn view(&self) -> Seq<(usize, V::V)> {
        self.entries@.map_values(|e: (usize, V)| (e.0, e.1@))
    }
}

proof fn lemma_insert_at<T>(s: Seq<(usize, T)>, k: usize, v: T, i: int)
    requires
        keys_increasing(s),
        0 <= i <= s.len(),
        forall|j: int| 0 <= j < i ==> #[trigger] s[j].0 < k,
        i < s.len() ==> s[i].0 >= k,
    ensures
        i < s.len() && s[i].0 == k ==> spec_insert(s, k, v) == s.take(i) + seq![(k, v)] + s.skip(i + 1),
        !(i < s.len() && s[i].0 == k) ==> spec_insert(s, k, v) == s.take(i) + seq![(k, v)] + s.skip(i),
        keys_increasing(spec_insert(s, k, v)),
    decreases i,
{
    if i == 0 {
        assert(s.take(0) + seq![(k, v)] + s.skip(0) == seq![(k, v)] + s);
        if s.len() > 0 {
            assert(s.take(0) + seq![(k, v)] + s.skip(1) == seq![(k, v)] + s.drop_first());
        }
        let r = spec_insert(s, k, v);
        assert forall|a: int, b: int| 0 <= a < b < r.len() implies #[trigger] r[a].0 < #[trigger] r[b].0 by {
            if a > 0 {
                if s.len() > 0 && k == s[0].0 {
                    assert(r[a] == s[a] && r[b] == s[b]);
                } else {
                    assert(r[a] == s[a - 1] && r[b] == s[b - 1]);
                }
            } else if s.len() > 0 && k == s[0].0 {
                assert(r[b] == s[b]);
            } else {
                assert(r[b] == s[b - 1]);
            }
        }
    } else {
        let t = s.drop_first();
        assert forall|j: int| 0 <= j < i - 1 implies #[trigger] t[j].0 < k by {
            assert(t[j] == s[j + 1]);
            assert(s[j + 1].0 < k);
        }
        lemma_drop_first_increasing(s);
        if i < s.len() {
            assert(t[i - 1] == s[i]);
        }
        lemma_insert_at(t, k, v, i - 1);
        assert(s[0].0 < k);
        assert(s.take(i) == seq![s[0]] + t.take(i - 1));
        assert(s.skip(i) == t.skip(i - 1));
        if i < s.len() {
            assert(s.skip(i + 1) == t.skip(i));
        }
        let r = spec_insert(s, k, v);
        let rt = spec_insert(t, k, v);
        assert(r == seq![s[0]] + rt);
        assert forall|a: int, b: int| 0 <= a < b < r.len() implies #[trigger] r[a].0 < #[trigger] r[b].0 by {
            if a > 0 {
                assert(r[a] == rt[a - 1] && r[b] == rt[b - 1]);
            } else {
                assert(r[b] == rt[b - 1]);
                // every entry of the rest is either an entry of `t` or the new one
                if i - 1 < t.len() && t[i - 1].0 == k {
                    if b - 1 < i - 1 {
                        assert(rt[b - 1] == t[b - 1]);
                    } else if b - 1 == i - 1 {
                    } else {
                        assert(rt[b - 1] == t.skip(i)[b - 1 - i]);
                        assert(t.skip(i)[b - 1 - i] == t[b - 1]);
                    }
                } else {
                    if b - 1 < i - 1 {
                        assert(rt[b - 1] == t[b - 1]);
                    } else if b - 1 == i - 1 {
                    } else {
                        assert(rt[b - 1] == t.skip(i - 1)[b - 1 - i]);
                        assert(t.skip(i - 1)[b - 1 - i] == t[b - 2]);
                    }
                }
            }
        }
    }
}

/// After a value is stored under `k`, `k` finds that value and every other
/// key finds what it found before; the keys stay in ascending order.
pub proof fn lemma_insert_lookup<T>(s: Seq<(usize, T)>, k: usize, v: T, other: usize)
    requires
        keys_increasing(s),
        other != k,
    ensures
        spec_lookup(spec_insert(s, k, v), k) == Some(v),
        spec_lookup(spec_insert(s, k, v), other) == spec_lookup(s, other),
        keys_increasing(spec_insert(s, k, v)),
    decreases s.len(),
{
    if s.len() == 0 {
    } else {
        let t = s.drop_first();
        lemma_drop_first_increasing(s);
        if k < s[0].0 {
            let r = seq![(k, v)] + s;
            assert(r.drop_first() == s);
            assert(r[0] == (k, v));
            assert(spec_insert(s, k, v) == r);
            assert(spec_lookup(r, other) == spec_lookup(r.drop_first(), other));
        } else if k == s[0].0 {
            assert((seq![(k, v)] + t).drop_first() == t);
            assert((seq![(k, v)] + t)[0] == (k, v));
        } else {
            lemma_insert_lookup(t, k, v, other);
            assert((seq![s[0]] + spec_insert(t, k, v)).drop_first() == spec_insert(t, k, v));
            assert((seq![s[0]] + spec_insert(t, k, v))[0] == s[0]);
        }
        lemma_insert_keeps_order(s, k, v);
    }
}

proof fn lemma_drop_first_increasing<T>(s: Seq<(usize, T)>)
    requires
        keys_increasing(s),
        s.len() > 0,
    ensures
        keys_increasing(s.drop_first()),
{
    let t = s.drop_first();
    assert forall|a: int, b: int| 0 <= a < b < t.len() implies #[trigger] t[a].0 < #[trigger] t[b].0 by {
        assert(t[a] == s[a + 1] && t[b] == s[b + 1]);
        assert(s[a + 1].0 < s[b + 1].0);
    }
}

/// Storing a value keeps the keys in ascending order.
pub proof fn lemma_insert_keeps_order<T>(s: Seq<(usize, T)>, k: usize, v: T)
    requires
        keys_increasing(s),
    ensures
        keys_increasing(spec_insert(s, k, v)),
{
    let i = first_not_below(s, k);
    lemma_first_not_below(s, k);
    lemma_insert_at(s, k, v, i);
}

/// The number of leading entries of `s` whose key is below `k`.
spec fn first_not_below<T>(s: Seq<(usize, T)>, k: usize) -> int
    decreases s.len(),
{
    if s.len() == 0 || s[0].0 >= k {
        0
    } else {
        1 + first_not_below(s.drop_first(), k)
    }
}

proof fn lemma_first_not_below<T>(s: Seq<(usize, T)>, k: usize)
    ensures
        0 <= first_not_below(s, k) <= s.len(),
        forall|j: int| 0 <= j < first_not_below(s, k) ==> #[trigger] s[j].0 < k,
        first_not_below(s, k) < s.len() ==> s[first_not_below(s, k)].0 >= k,
    decreases s.len(),
{
    if s.len() > 0 && s[0].0 < k {
        let t = s.drop_first();
        lemma_first_not_below(t, k);
        assert forall|j: int| 0 <= j < first_not_below(s, k) implies #[trigger] s[j].0 < k by {
            if j > 0 {
                assert(s[j] == t[j - 1]);
            }
        }
    }
}

impl<V: View> OffsetMap<V> {
    /// Whether the entries are in strictly ascending order of key.
    pub open spec fn wf(&self) -> bool {
        keys_increasing(self@)
    }

    /// An empty map.
    pub fn new() -> (m: Self)
        ensures
            m@ == Seq::<(usize, V::V)>::empty(),
            m.wf(),
    {
        let m = OffsetMap { entries: Vec::new() };
        assert(m@ =~= Seq::<(usize, V::V)>::empty());
        m
    }

    /// The number of entries.
    pub fn len(&self) -> (n: usize)
        ensures
            n == self@.len(),
    {
        self.entries.len()
    }

    /// The key of the `i`-th entry in ascending order.
    pub fn key_at(&self, i: usize) -> (k: usize)
        requires
            i < self@.len(),
        ensures
            k == self@[i as int].0,
    {
        self.entries[i].0
    }

    /// The value of the `i`-th entry in ascending order of key.
    pub fn value_at(&self, i: usize) -> (v: &V)
        requires
            i < self@.len(),
        ensures
            v@ == self@[i as int].1,
    {
        &self.entries[i].1
    }

    /// Stores `v` under `k`, and gives back the value that `k` held before.
    pub fn insert(&mut self, k: usize, v: V) -> (prev: Option<V>)
        requires
            old(self).wf(),
        ensures
            final(self).wf(),
            final(self)@ == spec_insert(old(self)@, k, v@),
            has_key(old(self)@, k) <==> prev is Some,
            prev matches Some(p) ==> Some(p@) == spec_lookup(old(self)@, k),
    {
        let ghost s = self@;
        let n = self.entries.len();
        let mut i: usize = 0;
        while i < n && self.entries[i].0 < k
            invariant
                n == self.entries.len(),
                s == self@,
                keys_increasing(s),
                0 <= i <= n,
                forall|j: int| 0 <= j < i ==> #[trigger] s[j].0 < k,
            decreases n - i,
        {
            i = i + 1;
        }
        proof {
            lemma_insert_at(s, k, v@, i as int);
        }
        if i < n && self.entries[i].0 == k {
            let (_, prev) = self.entries.remove(i);
            self.entries.insert(i, (k, v));
            proof {
                assert(self@ =~= s.take(i as int) + seq![(k, v@)] + s.skip(i + 1));
                lemma_lookup_at(s, k, i as int);
                assert(has_key(s, k)) by { assert(s[i as int].0 == k); }
            }
            Some(prev)
        } else {
            self.entries.insert(i, (k, v));
            proof {
                assert(self@ =~= s.take(i as int) + seq![(k, v@)] + s.skip(i as int));
                if has_key(s, k) {
                    let j = choose|j: int| 0 <= j < s.len() && #[trigger] s[j].0 == k;
                    if j >= i {
                        assert(s[j].0 >= s[i as int].0);
                    }
                }
            }
            None
        }
    }
}

proof fn lemma_lookup_at<T>(s: Seq<(usize, T)>, k: usize, i: int)
    requires
        0 <= i < s.len(),
        s[i].0 == k,
        forall|j: int| 0 <= j < i ==> #[trigger] s[j].0 < k,
    ensures
        spec_lookup(s, k) == Some(s[i].1),
    decreases i,
{
    if i > 0 {
        let t = s.drop_first();
        assert forall|j: int| 0 <= j < i - 1 implies #[trigger] t[j].0 < k by {
            assert(t[j] == s[j + 1]);
        }
        lemma_lookup_at(t, k, i - 1);
    }
}

impl<V: Duplicate> Clone for OffsetMap<V> {
    /// A copy with the same entries.
    fn clone(&self) -> (r: Self)
        ensures
            r@ == self@,
    {
        let mut entries: Vec<(usize, V)> = Vec::new();
        let n = self.entries.len();
        let mut i: usize = 0;
        while i < n
            invariant
                n == self.entries.len(),
                0 <= i <= n,
                entries@.len() == i,
                forall|j: int| 0 <= j < i ==> (#[trigger] entries@[j]).0 == self.entries@[j].0
                    && entries@[j].1@ == self.entries@[j].1@,
            decreases n - i,
        {
            let k = self.entries[i].0;
            let v = self.entries[i].1.duplicate();
            entries.push((k, v));
            i = i + 1;
        }
        let r = OffsetMap { entries };
        assert(r@ =~= self@);
        r
    }
}

impl<V: Duplicate> Duplicate for OffsetMap<V> {
    fn duplicate(&self) -> (r: Self) {
        self.clone()
    }
}

} // verus!
