//! Composable, invertible deltas over keyed accounting maps.
//!
//! The primitive is a pair `(before, after)` recording the change of one
//! cell. Two deltas on the same cell chain when the first ends where the
//! second begins; the inverse of a delta swaps its two sides.

use vstd::prelude::*;

use crate::vecmap::{MapKey, VecMap};

verus! {

/// Values storable in an accounting cell: plain data with a decidable
/// equality that coincides with structural equality, and a faithful clone.
pub trait DeltaValue: Sized {
    fn value_eq(&self, other: &Self) -> (r: bool)
        ensures
            r <==> self == other,
    ;

    fn value_clone(&self) -> (r: Self)
        ensures
            r == self,
    ;
}

impl DeltaValue for char {
    fn value_eq(&self, other: &Self) -> (r: bool)
        ensures
            r <==> self == other,
    {
        *self == *other
    }

    fn value_clone(&self) -> (r: Self)
        ensures
            r == self,
    {
        *self
    }
}

impl DeltaValue for u128 {
    fn value_eq(&self, other: &Self) -> (r: bool)
        ensures
            r <==> self == other,
    {
        *self == *other
    }

    fn value_clone(&self) -> (r: Self)
        ensures
            r == self,
    {
        *self
    }
}

/// Typed failures of the delta engine.
#[derive(Debug, PartialEq, Eq, Structural, Clone, Copy)]
pub enum DeltaError {
    /// Two deltas on one cell do not chain: the first does not end where
    /// the second begins (for instance a create after a create).
    DeltaChainMismatch,
    /// A delta was applied to a cell whose current data is not the delta's
    /// recorded `before` state.
    DeltaDataMismatch,
}

/// A change of one keyed cell: the data before and the data after.
/// The identity delta has `before == after`; the inverse swaps the sides.
pub struct DataDelta<T> {
    pub before: Option<T>,
    pub after: Option<T>,
}

/// Two deltas chain when the first ends where the second begins.
pub open spec fn chain_valid<T>(d1: DataDelta<T>, d2: DataDelta<T>) -> bool {
    d1.after == d2.before
}

/// The single delta equivalent to applying `d1` and then `d2`.
pub open spec fn combined<T>(d1: DataDelta<T>, d2: DataDelta<T>) -> DataDelta<T> {
    DataDelta { before: d1.before, after: d2.after }
}

/// A delta applies to cell data exactly when the data matches its `before`.
pub open spec fn applies_to<T>(d: DataDelta<T>, data: Option<T>) -> bool {
    d.before == data
}

/// The cell data after applying a delta.
pub open spec fn applied<T>(d: DataDelta<T>, data: Option<T>) -> Option<T> {
    d.after
}

/// The inverse delta: applying it undoes the original.
pub open spec fn inverted<T>(d: DataDelta<T>) -> DataDelta<T> {
    DataDelta { before: d.after, after: d.before }
}

fn opt_clone<T: DeltaValue>(a: &Option<T>) -> (r: Option<T>)
    ensures
        r == *a,
{
    match a {
        None => None,
        Some(x) => Some(x.value_clone()),
    }
}

fn opt_eq<T: DeltaValue>(a: &Option<T>, b: &Option<T>) -> (r: bool)
    ensures
        r <==> *a == *b,
{
    match (a, b) {
        (None, None) => true,
        (Some(x), Some(y)) => x.value_eq(y),
        _ => false,
    }
}

impl<T: DeltaValue> DataDelta<T> {
    pub fn new(before: Option<T>, after: Option<T>) -> (r: Self)
        ensures
            r.before == before,
            r.after == after,
    {
        DataDelta { before, after }
    }

    /// The delta that undoes this one.
    pub fn invert(self) -> (r: Self)
        ensures
            r == inverted(self),
    {
        DataDelta { before: self.after, after: self.before }
    }

    pub fn clone_delta(&self) -> (r: Self)
        ensures
            r == *self,
    {
        DataDelta { before: opt_clone(&self.before), after: opt_clone(&self.after) }
    }
}

/// Combine two deltas on one cell; they must chain.
pub fn combine_delta_data<T: DeltaValue>(d1: DataDelta<T>, d2: DataDelta<T>) -> (r: Result<
    DataDelta<T>,
    DeltaError,
>)
    ensures
        chain_valid(d1, d2) ==> r == Ok::<DataDelta<T>, DeltaError>(combined(d1, d2)),
        !chain_valid(d1, d2) ==> r == Err::<DataDelta<T>, DeltaError>(
            DeltaError::DeltaChainMismatch,
        ),
{
    if opt_eq(&d1.after, &d2.before) {
        Ok(DataDelta { before: d1.before, after: d2.after })
    } else {
        Err(DeltaError::DeltaChainMismatch)
    }
}

/// Apply a delta (or no delta) to the data of one cell; the data must match
/// the delta's recorded origin.
pub fn combine_data_with_delta<T: DeltaValue>(
    data: Option<T>,
    delta: Option<DataDelta<T>>,
) -> (r: Result<Option<T>, DeltaError>)
    ensures
        delta is None ==> r == Ok::<Option<T>, DeltaError>(data),
        delta matches Some(d) ==> (if applies_to(d, data) {
            r == Ok::<Option<T>, DeltaError>(applied(d, data))
        } else {
            r == Err::<Option<T>, DeltaError>(DeltaError::DeltaDataMismatch)
        }),
{
    match delta {
        None => Ok(data),
        Some(d) => {
            if opt_eq(&d.before, &data) {
                Ok(d.after)
            } else {
                Err(DeltaError::DeltaDataMismatch)
            }
        },
    }
}

/// The record needed to reverse one delta merge.
pub struct DataDeltaUndo<T> {
    pub delta: DataDelta<T>,
}

/// Two keyed collections merge when their deltas chain on every shared key.
pub open spec fn collections_mergeable<K, T>(
    m1: Map<K, DataDelta<T>>,
    m2: Map<K, DataDelta<T>>,
) -> bool {
    forall|k: K|
        m1.dom().contains(k) && m2.dom().contains(k) ==> chain_valid(m1[k], m2[k])
}

/// Whether combining a shared key's deltas yields the identity delta,
/// which erases the key as a no-op.
pub open spec fn merge_noop_at<K, T>(
    m1: Map<K, DataDelta<T>>,
    m2: Map<K, DataDelta<T>>,
    k: K,
) -> bool {
    &&& m1.dom().contains(k)
    &&& m2.dom().contains(k)
    &&& chain_valid(m1[k], m2[k])
    &&& combined(m1[k], m2[k]).before == combined(m1[k], m2[k]).after
}

/// The per-key merge of two keyed collections: shared keys chain their
/// deltas, a key held on one side only is copied, and a chain whose net
/// effect is the identity erases the key.
pub open spec fn merged_collections<K, T>(
    m1: Map<K, DataDelta<T>>,
    m2: Map<K, DataDelta<T>>,
) -> Map<K, DataDelta<T>> {
    Map::new(
        |k: K| (m1.dom().contains(k) || m2.dom().contains(k)) && !merge_noop_at(m1, m2, k),
        |k: K|
            if m1.dom().contains(k) && m2.dom().contains(k) {
                combined(m1[k], m2[k])
            } else if m1.dom().contains(k) {
                m1[k]
            } else {
                m2[k]
            },
    )
}

/// Whether `cur` still agrees with `base` at key `k`: same presence and,
/// where present, the same delta.
pub open spec fn untouched_at<K, T>(
    cur: Map<K, DataDelta<T>>,
    base: Map<K, DataDelta<T>>,
    k: K,
) -> bool {
    cur.dom().contains(k) == base.dom().contains(k) && (base.dom().contains(k) ==> cur[k]
        == base[k])
}

/// A mapping from keys to the delta accumulated for each cell.
pub struct DeltaDataCollection<K, T> {
    entries: VecMap<K, DataDelta<T>>,
}

impl<K: MapKey, T: DeltaValue> DeltaDataCollection<K, T> {
    pub closed spec fn view(&self) -> Map<K, DataDelta<T>> {
        self.entries@
    }

    pub closed spec fn wf(&self) -> bool {
        self.entries.wf()
    }

    pub fn new() -> (r: Self)
        ensures
            r.wf(),
            r@ == Map::<K, DataDelta<T>>::empty(),
    {
        DeltaDataCollection { entries: VecMap::new() }
    }

    /// A collection holding one delta under one key.
    pub fn from_element(key: K, delta: DataDelta<T>) -> (r: Self)
        ensures
            r.wf(),
            r@ == Map::<K, DataDelta<T>>::empty().insert(key, delta),
    {
        let mut entries: VecMap<K, DataDelta<T>> = VecMap::new();
        entries.insert(key, delta);
        DeltaDataCollection { entries }
    }

    pub fn get(&self, key: K) -> (r: Option<&DataDelta<T>>)
        requires
            self.wf(),
        ensures
            match r {
                Some(d) => self@.dom().contains(key) && *d == self@[key],
                None => !self@.dom().contains(key),
            },
    {
        self.entries.get(&key)
    }

    /// Merge one delta into the collection under `key`, returning the undo
    /// record that reverses the merge.
    pub fn merge_delta_data_element(&mut self, key: K, delta: DataDelta<T>) -> (r: Result<
        Option<DataDeltaUndo<T>>,
        DeltaError,
    >)
        requires
            old(self).wf(),
        ensures
            final(self).wf(),
            !old(self)@.dom().contains(key) ==> final(self)@ == old(self)@.insert(key, delta)
                && (r matches Ok(u) && u matches Some(u) && u.delta == inverted(delta)),
            old(self)@.dom().contains(key) && chain_valid(old(self)@[key], delta) && combined(
                old(self)@[key],
                delta,
            ).before == combined(old(self)@[key], delta).after ==> final(self)@ == old(
                self,
            )@.remove(key) && (r matches Ok(u) && u matches Some(u) && u.delta == inverted(delta)),
            old(self)@.dom().contains(key) && chain_valid(old(self)@[key], delta) && combined(
                old(self)@[key],
                delta,
            ).before != combined(old(self)@[key], delta).after ==> final(self)@ == old(
                self,
            )@.insert(key, combined(old(self)@[key], delta)) && (r matches Ok(u) && u matches Some(
                u,
            ) && u.delta == inverted(delta)),
            old(self)@.dom().contains(key) && !chain_valid(old(self)@[key], delta) ==> final(self)@
                == old(self)@ && r == Err::<Option<DataDeltaUndo<T>>, DeltaError>(
                DeltaError::DeltaChainMismatch,
            ),
    {
        let undo = DataDeltaUndo { delta: delta.clone_delta().invert() };
        match self.entries.remove(&key) {
            None => {
                self.entries.insert(key, delta);
                proof {
                    assert(self.entries@ =~= old(self)@.insert(key, delta));
                }
                Ok(Some(undo))
            },
            Some(existing) => {
                if opt_eq(&existing.after, &delta.before) {
                    let merged = combine_delta_data(existing, delta);
                    match merged {
                        Ok(m) => {
                            if opt_eq(&m.before, &m.after) {
                                // The chain nets out to the identity: the
                                // key is erased as a no-op.
                                proof {
                                    assert(self.entries@ =~= old(self)@.remove(key));
                                }
                                Ok(Some(undo))
                            } else {
                                self.entries.insert(key, m);
                                proof {
                                    assert(self.entries@ =~= old(self)@.insert(
                                        key,
                                        combined(old(self)@[key], delta),
                                    ));
                                }
                                Ok(Some(undo))
                            }
                        },
                        Err(e) => Err(e),
                    }
                } else {
                    self.entries.insert(key, existing);
                    proof {
                        assert(self.entries@ =~= old(self)@);
                    }
                    Err(DeltaError::DeltaChainMismatch)
                }
            },
        }
    }

    /// Reverse a previously returned merge, by merging its undo record.
    pub fn undo_merge_delta_data_element(&mut self, key: K, undo: DataDeltaUndo<T>) -> (r: Result<
        (),
        DeltaError,
    >)
        requires
            old(self).wf(),
        ensures
            final(self).wf(),
            !old(self)@.dom().contains(key) ==> final(self)@ == old(self)@.insert(key, undo.delta)
                && r == Ok::<(), DeltaError>(()),
            old(self)@.dom().contains(key) && chain_valid(old(self)@[key], undo.delta) && combined(
                old(self)@[key],
                undo.delta,
            ).before == combined(old(self)@[key], undo.delta).after ==> final(self)@ == old(
                self,
            )@.remove(key) && r == Ok::<(), DeltaError>(()),
            old(self)@.dom().contains(key) && chain_valid(old(self)@[key], undo.delta) && combined(
                old(self)@[key],
                undo.delta,
            ).before != combined(old(self)@[key], undo.delta).after ==> final(self)@ == old(
                self,
            )@.insert(key, combined(old(self)@[key], undo.delta)) && r == Ok::<(), DeltaError>(()),
            old(self)@.dom().contains(key) && !chain_valid(old(self)@[key], undo.delta) ==> final(self)@ == old(self)@ && r == Err::<(), DeltaError>(DeltaError::DeltaChainMismatch),
    {
        match self.merge_delta_data_element(key, undo.delta) {
            Ok(_) => Ok(()),
            Err(e) => Err(e),
        }
    }

    /// Merge another collection into this one, key by key. When every
    /// shared key chains, the result is the per-key merge; on the first
    /// key that does not chain, the merge stops with an error and only
    /// keys already walked have been merged.
    pub fn merge_delta_data(&mut self, other: Self) -> (r: Result<(), DeltaError>)
        requires
            old(self).wf(),
            other.wf(),
        ensures
            final(self).wf(),
            collections_mergeable(old(self)@, other@) ==> r == Ok::<(), DeltaError>(()) && final(self)@ == merged_collections(old(self)@, other@),
            r is Err ==> r == Err::<(), DeltaError>(DeltaError::DeltaChainMismatch)
                && !collections_mergeable(old(self)@, other@) && (exists|k: K|
                #![trigger other@.dom().contains(k)]
                old(self)@.dom().contains(k) && other@.dom().contains(k) && !chain_valid(
                    old(self)@[k],
                    other@[k],
                ) && untouched_at(final(self)@, old(self)@, k)),
    {
        let items = other.entries.into_entries();
        let ghost full = items@;
        let ghost m1 = old(self)@;
        let ghost m2 = crate::vecmap::assoc_map(full);
        let n = items.len();
        let mut idx: usize = 0;
        while idx < n
            invariant
                self.wf(),
                n == full.len(),
                idx <= n,
                items@ == full,
                crate::vecmap::distinct_keys(full),
                m1 == old(self)@,
                m2 == other@,
                m2 == crate::vecmap::assoc_map(full),
                collections_mergeable(m1, m2) ==> self@ == merged_collections(
                    m1,
                    crate::vecmap::assoc_map(full.take(idx as int)),
                ),
                forall|j: int|
                    idx <= j < full.len() ==> #[trigger] untouched_at(self@, m1, full[j].0),
            decreases n - idx,
        {
            let key = items[idx].0;
            let d = items[idx].1.clone_delta();
            let ghost pre = self@;
            proof {
                crate::vecmap::lemma_assoc_map_index(full, idx as int);
                assert(untouched_at(pre, m1, full[idx as int].0));
            }
            match self.merge_delta_data_element(key, d) {
                Ok(_) => {
                    proof {
                        assert(full.take(idx + 1 as int).drop_last() =~= full.take(idx as int));
                        let n2 = crate::vecmap::assoc_map(full.take(idx as int));
                        let n2p = crate::vecmap::assoc_map(full.take(idx + 1 as int));
                        assert(n2p == n2.insert(key, m2[key]));
                        if collections_mergeable(m1, m2) {
                            assert(self@ =~= merged_collections(m1, n2p)) by {
                                crate::vecmap::lemma_assoc_map_contains(
                                    full.take(idx as int),
                                    key,
                                );
                            }
                        }
                        assert forall|j: int|
                            idx + 1 <= j < full.len() implies #[trigger] untouched_at(
                            self@,
                            m1,
                            full[j].0,
                        ) by {
                            assert(full[j].0 != full[idx as int].0);
                            assert(untouched_at(pre, m1, full[j].0));
                        }
                    }
                },
                Err(e) => {
                    proof {
                        assert(m2.dom().contains(key) && m2[key] == full[idx as int].1);
                        assert(!collections_mergeable(m1, m2)) by {
                            assert(pre.dom().contains(key));
                            assert(m1.dom().contains(key) && m2.dom().contains(key)
                                && !chain_valid(m1[key], m2[key]));
                        }
                        assert(untouched_at(self@, m1, key));
                    }
                    return Err(e);
                },
            }
            idx = idx + 1;
        }
        proof {
            assert(full.take(n as int) =~= full);
        }
        Ok(())
    }
}

/// Law: applying a delta and then its inverse returns every origin
/// unchanged.
pub proof fn lemma_delta_undo<T>(data: Option<T>, d: DataDelta<T>)
    requires
        applies_to(d, data),
    ensures
        applies_to(inverted(d), applied(d, data)),
        applied(inverted(d), applied(d, data)) == data,
{
}

/// Law: applying two chaining deltas one after the other equals applying
/// their merge, and both sides are defined together.
pub proof fn lemma_delta_associativity_two<T>(data: Option<T>, d1: DataDelta<T>, d2: DataDelta<T>)
    requires
        applies_to(d1, data),
        chain_valid(d1, d2),
    ensures
        applies_to(d2, applied(d1, data)),
        applies_to(combined(d1, d2), data),
        applied(d2, applied(d1, data)) == applied(combined(d1, d2), data),
{
}

/// Law: over three chaining deltas, every parenthesization of data and
/// merges yields one result; an undo chains like any other delta, so the
/// law covers mixed undo placements as well.
pub proof fn lemma_delta_associativity_three<T>(
    data: Option<T>,
    d1: DataDelta<T>,
    d2: DataDelta<T>,
    d3: DataDelta<T>,
)
    requires
        applies_to(d1, data),
        chain_valid(d1, d2),
        chain_valid(d2, d3),
    ensures
        chain_valid(combined(d1, d2), d3),
        chain_valid(d1, combined(d2, d3)),
        applied(d3, applied(d2, applied(d1, data))) == applied(d3, applied(combined(d1, d2), data)),
        applied(d3, applied(d2, applied(d1, data))) == applied(combined(d2, d3), applied(d1, data)),
        applied(d3, applied(d2, applied(d1, data))) == applied(
            combined(combined(d1, d2), d3),
            data,
        ),
        applied(d3, applied(d2, applied(d1, data))) == applied(
            combined(d1, combined(d2, d3)),
            data,
        ),
{
}

} // verus!
