//! A small keyed map backed by a vector of entries with pairwise-distinct
//! keys. It is the storage primitive shared by the UTXO caches, the undo
//! stores, the token and transaction-index caches and the mempool indices.

use vstd::prelude::*;

verus! {

/// Keys usable in a [`VecMap`]: plain `Copy` data with a decidable equality
/// that coincides with structural equality.
pub trait MapKey: Sized + Copy {
    fn key_eq(&self, other: &Self) -> (r: bool)
        ensures
            r <==> self == other,
    ;
}

impl MapKey for u64 {
    fn key_eq(&self, other: &Self) -> (r: bool)
        ensures
            r <==> self == other,
    {
        *self == *other
    }
}

/// The mathematical map described by a sequence of key-value entries; later
/// entries shadow earlier ones (a well-formed [`VecMap`] has no duplicates).
pub open spec fn assoc_map<K, V>(s: Seq<(K, V)>) -> Map<K, V>
    decreases s.len(),
{
    if s.len() == 0 {
        Map::empty()
    } else {
        assoc_map(s.drop_last()).insert(s.last().0, s.last().1)
    }
}

/// No two entries of the sequence share a key.
pub open spec fn distinct_keys<K, V>(s: Seq<(K, V)>) -> bool {
    forall|i: int, j: int| 0 <= i < j < s.len() ==> s[i].0 != s[j].0
}

pub proof fn lemma_assoc_map_contains<K, V>(s: Seq<(K, V)>, k: K)
    ensures
        assoc_map(s).dom().contains(k) <==> exists|i: int| 0 <= i < s.len() && s[i].0 == k,
    decreases s.len(),
{
    if s.len() > 0 {
        lemma_assoc_map_contains(s.drop_last(), k);
        if s.last().0 == k {
            assert(s[s.len() - 1].0 == k);
        } else if assoc_map(s).dom().contains(k) {
            let i = choose|i: int| 0 <= i < s.drop_last().len() && s.drop_last()[i].0 == k;
            assert(s[i].0 == k);
        } else if exists|i: int| 0 <= i < s.len() && s[i].0 == k {
            let i = choose|i: int| 0 <= i < s.len() && s[i].0 == k;
            assert(s.drop_last()[i].0 == k);
        }
    }
}

pub proof fn lemma_assoc_map_index<K, V>(s: Seq<(K, V)>, i: int)
    requires
        distinct_keys(s),
        0 <= i < s.len(),
    ensures
        assoc_map(s).dom().contains(s[i].0),
        assoc_map(s)[s[i].0] == s[i].1,
    decreases s.len(),
{
    if i == s.len() - 1 {
        assert(assoc_map(s).dom().contains(s.last().0));
    } else {
        assert(s.drop_last()[i] == s[i]);
        lemma_assoc_map_index(s.drop_last(), i);
        assert(s[s.len() - 1].0 != s[i].0);
    }
}

pub proof fn lemma_assoc_map_len<K, V>(s: Seq<(K, V)>)
    requires
        distinct_keys(s),
    ensures
        assoc_map(s).dom().finite(),
        assoc_map(s).dom().len() == s.len(),
    decreases s.len(),
{
    if s.len() > 0 {
        lemma_assoc_map_len(s.drop_last());
        lemma_assoc_map_contains(s.drop_last(), s.last().0);
    }
}

/// A finite map from `K` to `V`, stored as entries with distinct keys.
pub struct VecMap<K, V> {
    entries: Vec<(K, V)>,
}

impl<K: MapKey, V> VecMap<K, V> {
    /// The abstract map held.
    pub closed spec fn view(&self) -> Map<K, V> {
        assoc_map(self.entries@)
    }

    /// The entries as a sequence, for iteration-order-sensitive callers.
    pub closed spec fn entries_seq(&self) -> Seq<(K, V)> {
        self.entries@
    }

    /// Internal well-formedness: no duplicate keys.
    pub closed spec fn wf(&self) -> bool {
        distinct_keys(self.entries@)
    }

    pub proof fn lemma_view_entries(&self)
        requires
            self.wf(),
        ensures
            self@ == assoc_map(self.entries_seq()),
            distinct_keys(self.entries_seq()),
            self@.dom().finite(),
            self@.dom().len() == self.entries_seq().len(),
    {
        lemma_assoc_map_len(self.entries@);
    }

    pub fn new() -> (r: Self)
        ensures
            r.wf(),
            r@ == Map::<K, V>::empty(),
            r.entries_seq().len() == 0,
    {
        let entries: Vec<(K, V)> = Vec::new();
        VecMap { entries }
    }

    /// Number of keys held.
    pub fn len(&self) -> (r: usize)
        requires
            self.wf(),
        ensures
            r == self@.dom().len(),
            r == self.entries_seq().len(),
    {
        proof {
            lemma_assoc_map_len(self.entries@);
        }
        self.entries.len()
    }

    pub fn is_empty(&self) -> (r: bool)
        requires
            self.wf(),
        ensures
            r <==> self@ == Map::<K, V>::empty(),
    {
        proof {
            lemma_assoc_map_len(self.entries@);
            if self.entries@.len() == 0 {
                assert(self@ =~= Map::<K, V>::empty());
            } else {
                assert(self@.dom().len() != 0);
                assert(Map::<K, V>::empty().dom().len() == 0);
            }
        }
        self.entries.len() == 0
    }

    /// Index of the entry holding `k`, if any.
    fn position(&self, k: &K) -> (r: Option<usize>)
        requires
            self.wf(),
        ensures
            match r {
                Some(i) => i < self.entries_seq().len() && self.entries_seq()[i as int].0 == *k
                    && self@.dom().contains(*k),
                None => !self@.dom().contains(*k),
            },
    {
        let n = self.entries.len();
        let mut i: usize = 0;
        while i < n
            invariant
                self.wf(),
                n == self.entries@.len(),
                forall|j: int| 0 <= j < i ==> self.entries@[j].0 != *k,
            decreases n - i,
        {
            if self.entries[i].0.key_eq(k) {
                proof {
                    lemma_assoc_map_contains(self.entries@, *k);
                }
                return Some(i);
            }
            i = i + 1;
        }
        proof {
            lemma_assoc_map_contains(self.entries@, *k);
        }
        None
    }

    pub fn contains_key(&self, k: &K) -> (r: bool)
        requires
            self.wf(),
        ensures
            r <==> self@.dom().contains(*k),
    {
        self.position(k).is_some()
    }

    pub fn get(&self, k: &K) -> (r: Option<&V>)
        requires
            self.wf(),
        ensures
            match r {
                Some(v) => self@.dom().contains(*k) && *v == self@[*k],
                None => !self@.dom().contains(*k),
            },
    {
        match self.position(k) {
            Some(i) => {
                proof {
                    lemma_assoc_map_index(self.entries@, i as int);
                }
                Some(&self.entries[i].1)
            },
            None => None,
        }
    }

    /// Insert or replace the value under `k`.
    pub fn insert(&mut self, k: K, v: V)
        requires
            old(self).wf(),
        ensures
            final(self).wf(),
            final(self)@ == old(self)@.insert(k, v),
    {
        match self.position(&k) {
            Some(i) => {
                proof {
                    lemma_swap_remove_distinct(self.entries@, i as int);
                }
                let _old = self.entries.swap_remove(i);
                proof {
                    let s = old(self).entries@;
                    let t = self.entries@;
                    lemma_assoc_remove_key(s, t, i as int);
                }
                self.entries.push((k, v));
                proof {
                    assert(self.entries@.drop_last() =~= old(self).entries@.update(
                        i as int,
                        old(self).entries@.last(),
                    ).drop_last());
                    assert(self@ =~= old(self)@.insert(k, v));
                    assert(distinct_keys(self.entries@)) by {
                        lemma_assoc_map_contains(self.entries@.drop_last(), k);
                    }
                }
            },
            None => {
                self.entries.push((k, v));
                proof {
                    assert(self.entries@.drop_last() =~= old(self).entries@);
                    assert(distinct_keys(self.entries@)) by {
                        lemma_assoc_map_contains(old(self).entries@, k);
                    }
                }
            },
        }
    }

    /// Remove the entry under `k` and hand its value out.
    pub fn remove(&mut self, k: &K) -> (r: Option<V>)
        requires
            old(self).wf(),
        ensures
            final(self).wf(),
            final(self)@ == old(self)@.remove(*k),
            match r {
                Some(v) => old(self)@.dom().contains(*k) && v == old(self)@[*k],
                None => !old(self)@.dom().contains(*k),
            },
    {
        match self.position(k) {
            Some(i) => {
                proof {
                    lemma_assoc_map_index(self.entries@, i as int);
                    lemma_swap_remove_distinct(self.entries@, i as int);
                }
                let (_gone_k, gone_v) = self.entries.swap_remove(i);
                proof {
                    let s = old(self).entries@;
                    let t = self.entries@;
                    lemma_assoc_remove_key(s, t, i as int);
                    assert(self@ =~= old(self)@.remove(*k));
                }
                Some(gone_v)
            },
            None => {
                proof {
                    assert(self@ =~= old(self)@.remove(*k));
                }
                None
            },
        }
    }

    /// Hand the entries out as a vector (keys pairwise distinct).
    pub fn into_entries(self) -> (r: Vec<(K, V)>)
        requires
            self.wf(),
        ensures
            r@ == self.entries_seq(),
            distinct_keys(r@),
            assoc_map(r@) == self@,
    {
        self.entries
    }

    /// The keys held, pairwise distinct, covering the whole domain.
    #[verifier::loop_isolation(false)]
    pub fn key_list(&self) -> (r: Vec<K>)
        requires
            self.wf(),
        ensures
            forall|i: int, j: int| 0 <= i < j < r@.len() ==> r@[i] != r@[j],
            forall|i: int| 0 <= i < r@.len() ==> self@.dom().contains(#[trigger] r@[i]),
            forall|k: K|
                #[trigger] self@.dom().contains(k) ==> exists|i: int|
                    0 <= i < r@.len() && r@[i] == k,
    {
        let mut out: Vec<K> = Vec::new();
        let n = self.entries.len();
        let mut i: usize = 0;
        while i < n
            invariant
                i <= n,
                out@.len() == i,
                forall|j: int| 0 <= j < i ==> out@[j] == self.entries@[j].0,
            decreases n - i,
        {
            out.push(self.entries[i].0);
            i = i + 1;
        }
        proof {
            assert forall|j: int| 0 <= j < out@.len() implies self@.dom().contains(
                #[trigger] out@[j],
            ) by {
                lemma_assoc_map_index(self.entries@, j);
            }
            assert forall|k: K| #[trigger] self@.dom().contains(k) implies exists|i2: int|
                0 <= i2 < out@.len() && out@[i2] == k by {
                lemma_assoc_map_contains(self.entries@, k);
                let j = choose|j: int| 0 <= j < self.entries@.len() && self.entries@[j].0 == k;
                assert(out@[j] == k);
            }
        }
        out
    }

    /// Borrow the entries for read-only iteration.
    pub fn entries(&self) -> (r: &Vec<(K, V)>)
        requires
            self.wf(),
        ensures
            r@ == self.entries_seq(),
            distinct_keys(r@),
            assoc_map(r@) == self@,
    {
        &self.entries
    }
}

/// Cache operations that a child layer merges over a parent layer: the
/// child's operation replaces the parent's unless the pair conflicts.
pub trait CacheOp: Sized {
    /// Whether a child operation may not land on this parent operation.
    spec fn conflicts_spec(p: Self, c: Self) -> bool;

    fn conflicts(p: &Self, c: &Self) -> (r: bool)
        ensures
            r == Self::conflicts_spec(*p, *c),
    ;
}

/// No key carries conflicting operations on the two sides.
pub open spec fn ops_mergeable<K, V: CacheOp>(m1: Map<K, V>, m2: Map<K, V>) -> bool {
    forall|k: K|
        m1.dom().contains(k) && m2.dom().contains(k) ==> !V::conflicts_spec(m1[k], m2[k])
}

/// The merged operation maps: the child's operations replace the
/// parent's, keys held on one side only are kept.
pub open spec fn merged_ops<K, V: CacheOp>(m1: Map<K, V>, m2: Map<K, V>) -> Map<K, V> {
    Map::new(
        |k: K| m1.dom().contains(k) || m2.dom().contains(k),
        |k: K|
            if m2.dom().contains(k) {
                m2[k]
            } else {
                m1[k]
            },
    )
}

/// Whether `cur` and `base` agree at `k`.
pub open spec fn same_at<K, V>(cur: Map<K, V>, base: Map<K, V>, k: K) -> bool {
    cur.dom().contains(k) == base.dom().contains(k) && (base.dom().contains(k) ==> cur[k]
        == base[k])
}

impl<K: MapKey, V: CacheOp> VecMap<K, V> {
    /// Merge a child operation map into this one: child operations
    /// replace, a conflicting pair stops the merge and hands the key
    /// back, only keys already walked merged.
    pub fn merge_ops(&mut self, src: VecMap<K, V>) -> (r: Result<(), K>)
        requires
            old(self).wf(),
            src.wf(),
        ensures
            final(self).wf(),
            ops_mergeable(old(self)@, src@) ==> r == Ok::<(), K>(()) && final(self)@ == merged_ops(
                old(self)@,
                src@,
            ),
            r matches Err(k) ==> !ops_mergeable(old(self)@, src@) && old(self)@.dom().contains(k)
                && src@.dom().contains(k) && V::conflicts_spec(old(self)@[k], src@[k]) && same_at(
                final(self)@,
                old(self)@,
                k,
            ),
    {
        let mut items = src.into_entries();
        let n = items.len();
        let ghost full = items@;
        proof {
            assert(full.len() == n);
        }
        let ghost m1 = old(self)@;
        let ghost m2 = src@;
        let mut idx: usize = 0;
        while items.len() > 0
            invariant
                self.wf(),
                full.len() <= usize::MAX,
                idx + items@.len() == full.len(),
                items@ == full.skip(idx as int),
                crate::vecmap::distinct_keys(full),
                m1 == old(self)@,
                m2 == src@,
                m2 == assoc_map(full),
                ops_mergeable(m1, m2) ==> self@ == merged_ops(m1, assoc_map(full.take(idx as int))),
                forall|j: int| idx <= j < full.len() ==> #[trigger] same_at(self@, m1, full[j].0),
            decreases items@.len(),
        {
            let ghost pre = self@;
            let (key, op) = items.remove(0);
            proof {
                assert(full.skip(idx as int)[0] == full[idx as int]);
                assert(items@ =~= full.skip(idx + 1 as int));
                lemma_assoc_map_index(full, idx as int);
                assert(same_at(pre, m1, full[idx as int].0));
            }
            let conflict = match self.get(&key) {
                Some(existing) => V::conflicts(existing, &op),
                None => false,
            };
            if conflict {
                proof {
                    assert(!ops_mergeable(m1, m2)) by {
                        assert(m1.dom().contains(key) && m2.dom().contains(key)
                            && V::conflicts_spec(m1[key], m2[key]));
                    }
                    assert(same_at(self@, m1, key));
                }
                return Err(key);
            }
            self.insert(key, op);
            proof {
                assert(full.take(idx + 1 as int).drop_last() =~= full.take(idx as int));
                let n2 = assoc_map(full.take(idx as int));
                let n2p = assoc_map(full.take(idx + 1 as int));
                assert(n2p == n2.insert(key, m2[key]));
                if ops_mergeable(m1, m2) {
                    assert(self@ =~= merged_ops(m1, n2p)) by {
                        lemma_assoc_map_contains(full.take(idx as int), key);
                    }
                }
                assert forall|j: int| idx + 1 <= j < full.len() implies #[trigger] same_at(
                    self@,
                    m1,
                    full[j].0,
                ) by {
                    assert(full[j].0 != full[idx as int].0);
                    assert(same_at(pre, m1, full[j].0));
                }
            }
            idx = idx + 1;
        }
        proof {
            assert(full.take(idx as int) =~= full);
        }
        Ok(())
    }
}

/// After `swap_remove(i)` on a duplicate-free sequence the keys stay
/// distinct.
proof fn lemma_swap_remove_distinct<K, V>(s: Seq<(K, V)>, i: int)
    requires
        distinct_keys(s),
        0 <= i < s.len(),
    ensures
        distinct_keys(s.update(i, s.last()).drop_last()),
{
}

/// `swap_remove(i)` takes exactly the key at `i` out of the map: `t` is the
/// stored sequence after the call.
proof fn lemma_assoc_remove_key<K, V>(s: Seq<(K, V)>, t: Seq<(K, V)>, i: int)
    requires
        distinct_keys(s),
        0 <= i < s.len(),
        t == s.update(i, s.last()).drop_last(),
    ensures
        assoc_map(t) == assoc_map(s).remove(s[i].0),
{
    let k = s[i].0;
    assert forall|x: K| #[trigger] assoc_map(t).dom().contains(x) implies assoc_map(
        s,
    ).remove(k).dom().contains(x) && assoc_map(t)[x] == assoc_map(s).remove(k)[x] by {
        lemma_assoc_map_contains(t, x);
        let j = choose|j: int| 0 <= j < t.len() && t[j].0 == x;
        lemma_assoc_map_index(t, j);
        if j == i {
            assert(t[j] == s.last());
            lemma_assoc_map_index(s, s.len() - 1);
        } else {
            assert(t[j] == s[j]);
            lemma_assoc_map_index(s, j);
        }
    }
    assert forall|x: K| assoc_map(s).dom().contains(x) && x != k implies #[trigger] assoc_map(
        t,
    ).dom().contains(x) by {
        lemma_assoc_map_contains(s, x);
        let j = choose|j: int| 0 <= j < s.len() && s[j].0 == x;
        lemma_assoc_map_contains(t, x);
        if j == s.len() - 1 {
            if i < s.len() - 1 {
                assert(t[i].0 == x);
            }
        } else {
            assert(t[j].0 == x);
        }
    }
    assert(assoc_map(t) =~= assoc_map(s).remove(k));
}

} // verus!
