//! The UTXO set and its layered in-memory cache.
//!
//! A cache layer holds, per outpoint, the divergence from its parent view:
//! an output created here (fresh), an output modified with respect to the
//! parent (dirty), or a spend of an output the parent holds. Flushing a
//! child into its parent merges these states cell by cell.

use vstd::prelude::*;

use crate::primitives::{BlockHeight, H256};
use crate::transaction::{OutPoint, TxOutput};
use crate::vecmap::VecMap;

verus! {

/// One unspent output together with where it came from.
#[derive(PartialEq, Eq, Structural, Clone, Copy, Debug)]
pub struct Utxo {
    pub output: TxOutput,
    pub is_block_reward: bool,
    pub source_height: BlockHeight,
}

impl Utxo {
    pub fn new(output: TxOutput, is_block_reward: bool, source_height: BlockHeight) -> (r: Self)
        ensures
            r == (Utxo { output, is_block_reward, source_height }),
    {
        Utxo { output, is_block_reward, source_height }
    }
}

/// The state of one cell of a cache layer.
#[derive(PartialEq, Eq, Structural, Clone, Copy, Debug)]
pub enum UtxoStatus {
    /// Live output created in this layer; no ancestor holds the outpoint.
    Fresh(Utxo),
    /// Live output that diverges from the parent's.
    Dirty(Utxo),
    /// The parent's output is consumed here.
    Spent,
}

/// Failures of the UTXO cache.
#[derive(PartialEq, Eq, Structural, Clone, Copy, Debug)]
pub enum UtxoError {
    /// An output was added over a live entry without leave to overwrite.
    OverwritingUtxo,
    /// A flush found an output created in the child although the parent
    /// already holds one at the same outpoint.
    FreshUtxoAlreadyExists,
    /// A flush found a modification in the child of an output the parent
    /// has already spent.
    UtxoAlreadySpent,
    /// A spend found no live output at the outpoint.
    NoUtxoFound,
}

/// Merge one cell of a child layer into the matching cell of its parent,
/// by the flush table: `p` is the parent's cell, `c` the child's.
/// `Ok(None)` erases the parent's cell.
pub open spec fn merge_status_spec(p: Option<UtxoStatus>, c: UtxoStatus) -> Result<
    Option<UtxoStatus>,
    UtxoError,
> {
    match p {
        None => Ok(Some(c)),
        Some(ps) => match (ps, c) {
            (UtxoStatus::Fresh(_), UtxoStatus::Fresh(_)) => Err(UtxoError::FreshUtxoAlreadyExists),
            (UtxoStatus::Fresh(_), UtxoStatus::Dirty(u)) => Ok(Some(UtxoStatus::Fresh(u))),
            (UtxoStatus::Fresh(_), UtxoStatus::Spent) => Ok(None),
            (UtxoStatus::Dirty(_), UtxoStatus::Fresh(_)) => Err(UtxoError::FreshUtxoAlreadyExists),
            (UtxoStatus::Dirty(_), UtxoStatus::Dirty(u)) => Ok(Some(UtxoStatus::Dirty(u))),
            (UtxoStatus::Dirty(_), UtxoStatus::Spent) => Ok(Some(UtxoStatus::Spent)),
            (UtxoStatus::Spent, UtxoStatus::Fresh(u)) => Ok(Some(UtxoStatus::Dirty(u))),
            (UtxoStatus::Spent, UtxoStatus::Dirty(_)) => Err(UtxoError::UtxoAlreadySpent),
            (UtxoStatus::Spent, UtxoStatus::Spent) => Ok(Some(UtxoStatus::Spent)),
        },
    }
}

/// Law, one cell: flushing through an intermediate layer or flushing the
/// merged layers directly gives the same cell, whenever both orders are
/// defined and the two child layers do not spend the same cell twice (a
/// spend above an already spent cell is refused at spend time, so stacked
/// layers never hold one).
pub proof fn lemma_merge_status_associative(
    p: Option<UtxoStatus>,
    c1: UtxoStatus,
    c2: UtxoStatus,
)
    requires
        !(c1 is Spent && c2 is Spent),
        merge_status_spec(p, c1) is Ok,
        merge_status_spec(merge_status_spec(p, c1).unwrap(), c2) is Ok,
        merge_status_spec(Some(c1), c2) is Ok,
        merge_two_spec(p, merge_status_spec(Some(c1), c2).unwrap()) is Ok,
    ensures
        merge_status_spec(merge_status_spec(p, c1).unwrap(), c2) == merge_two_spec(
            p,
            merge_status_spec(Some(c1), c2).unwrap(),
        ),
{
}

/// Merge an optional child cell into an optional parent cell: an absent
/// child cell leaves the parent's as it is.
pub open spec fn merge_two_spec(p: Option<UtxoStatus>, c: Option<UtxoStatus>) -> Result<
    Option<UtxoStatus>,
    UtxoError,
> {
    match c {
        None => Ok(p),
        Some(cs) => merge_status_spec(p, cs),
    }
}

/// The executable cell merge; it follows `merge_status_spec` exactly.
pub fn merge_status(p: Option<UtxoStatus>, c: UtxoStatus) -> (r: Result<
    Option<UtxoStatus>,
    UtxoError,
>)
    ensures
        r == merge_status_spec(p, c),
{
    match p {
        None => Ok(Some(c)),
        Some(ps) => match (ps, c) {
            (UtxoStatus::Fresh(_), UtxoStatus::Fresh(_)) => Err(UtxoError::FreshUtxoAlreadyExists),
            (UtxoStatus::Fresh(_), UtxoStatus::Dirty(u)) => Ok(Some(UtxoStatus::Fresh(u))),
            (UtxoStatus::Fresh(_), UtxoStatus::Spent) => Ok(None),
            (UtxoStatus::Dirty(_), UtxoStatus::Fresh(_)) => Err(UtxoError::FreshUtxoAlreadyExists),
            (UtxoStatus::Dirty(_), UtxoStatus::Dirty(u)) => Ok(Some(UtxoStatus::Dirty(u))),
            (UtxoStatus::Dirty(_), UtxoStatus::Spent) => Ok(Some(UtxoStatus::Spent)),
            (UtxoStatus::Spent, UtxoStatus::Fresh(u)) => Ok(Some(UtxoStatus::Dirty(u))),
            (UtxoStatus::Spent, UtxoStatus::Dirty(_)) => Err(UtxoError::UtxoAlreadySpent),
            (UtxoStatus::Spent, UtxoStatus::Spent) => Ok(Some(UtxoStatus::Spent)),
        },
    }
}

/// The parent cell a key holds in `m`, or `None`.
pub open spec fn cell_of(m: Map<OutPoint, UtxoStatus>, k: OutPoint) -> Option<UtxoStatus> {
    if m.dom().contains(k) {
        Some(m[k])
    } else {
        None
    }
}

/// Every cell of the child merges into the parent without conflict.
pub open spec fn caches_mergeable(
    m1: Map<OutPoint, UtxoStatus>,
    m2: Map<OutPoint, UtxoStatus>,
) -> bool {
    forall|k: OutPoint| m2.dom().contains(k) ==> merge_status_spec(cell_of(m1, k), m2[k]) is Ok
}

/// The cell the merged layers hold at `k` (assuming the merge is defined).
pub open spec fn merged_cell(
    m1: Map<OutPoint, UtxoStatus>,
    m2: Map<OutPoint, UtxoStatus>,
    k: OutPoint,
) -> Option<UtxoStatus> {
    if m2.dom().contains(k) {
        match merge_status_spec(cell_of(m1, k), m2[k]) {
            Ok(c) => c,
            Err(_) => None,
        }
    } else {
        cell_of(m1, k)
    }
}

/// The map of the merged layers (assuming the merge is defined).
pub open spec fn merged_caches(
    m1: Map<OutPoint, UtxoStatus>,
    m2: Map<OutPoint, UtxoStatus>,
) -> Map<OutPoint, UtxoStatus> {
    Map::new(
        |k: OutPoint| merged_cell(m1, m2, k) is Some,
        |k: OutPoint| merged_cell(m1, m2, k).unwrap(),
    )
}

/// Law: flushing child `c2` into child `c1` and the result into parent
/// `p` equals flushing `c2` into the parent already holding `c1`'s data,
/// whenever both orders are defined.
pub proof fn lemma_flush_commutes(
    p: Map<OutPoint, UtxoStatus>,
    c1: Map<OutPoint, UtxoStatus>,
    c2: Map<OutPoint, UtxoStatus>,
)
    requires
        forall|k: OutPoint|
            c1.dom().contains(k) && c2.dom().contains(k) ==> !(c1[k] is Spent && c2[k] is Spent),
        caches_mergeable(c1, c2),
        caches_mergeable(p, merged_caches(c1, c2)),
        caches_mergeable(p, c1),
        caches_mergeable(merged_caches(p, c1), c2),
    ensures
        merged_caches(merged_caches(p, c1), c2) == merged_caches(p, merged_caches(c1, c2)),
{
    let lhs = merged_caches(merged_caches(p, c1), c2);
    let rhs = merged_caches(p, merged_caches(c1, c2));
    assert forall|k: OutPoint| #[trigger] merged_cell(merged_caches(p, c1), c2, k) == merged_cell(
        p,
        merged_caches(c1, c2),
        k,
    ) by {
        assert(cell_of(merged_caches(p, c1), k) == merged_cell(p, c1, k));
        assert(cell_of(merged_caches(c1, c2), k) == merged_cell(c1, c2, k));
        if c2.dom().contains(k) {
            if c1.dom().contains(k) {
                lemma_merge_status_associative(cell_of(p, k), c1[k], c2[k]);
            }
        }
    }
    assert forall|k: OutPoint| lhs.dom().contains(k) <==> rhs.dom().contains(k) by {
        assert(merged_cell(merged_caches(p, c1), c2, k) == merged_cell(p, merged_caches(c1, c2), k));
    }
    assert forall|k: OutPoint| #[trigger] lhs.dom().contains(k) implies lhs[k] == rhs[k] by {
        assert(merged_cell(merged_caches(p, c1), c2, k) == merged_cell(p, merged_caches(c1, c2), k));
    }
    assert(lhs =~= rhs);
}

/// One overlay layer of the UTXO set: the per-outpoint divergences from
/// the parent view and the best block this layer believes in.
pub struct UtxosCache {
    pub(crate) entries: VecMap<OutPoint, UtxoStatus>,
    pub(crate) best_block: Option<H256>,
}

impl UtxosCache {
    /// The per-outpoint cells this layer holds.
    pub closed spec fn view(&self) -> Map<OutPoint, UtxoStatus> {
        self.entries@
    }

    pub closed spec fn best_block_spec(&self) -> Option<H256> {
        self.best_block
    }

    pub closed spec fn wf(&self) -> bool {
        self.entries.wf()
    }

    pub fn new() -> (r: Self)
        ensures
            r.wf(),
            r@ == Map::<OutPoint, UtxoStatus>::empty(),
            r.best_block_spec() is None,
    {
        UtxosCache { entries: VecMap::new(), best_block: None }
    }

    pub fn set_best_block(&mut self, block_id: H256)
        requires
            old(self).wf(),
        ensures
            final(self).wf(),
            final(self)@ == old(self)@,
            final(self).best_block_spec() == Some(block_id),
    {
        self.best_block = Some(block_id);
    }

    pub fn get_best_block_hash(&self) -> (r: Option<H256>)
        ensures
            r == self.best_block_spec(),
    {
        self.best_block
    }

    /// The cell this layer holds at `outpoint`, if any.
    pub fn status_of(&self, outpoint: &OutPoint) -> (r: Option<UtxoStatus>)
        requires
            self.wf(),
        ensures
            r == cell_of(self@, *outpoint),
    {
        match self.entries.get(outpoint) {
            Some(s) => Some(*s),
            None => None,
        }
    }

    /// Flush a consumed child layer into this one, cell by cell. When
    /// every cell merges, the result is the merged layer; on the first
    /// conflicting cell the flush stops with the conflict's error, the
    /// conflicting cell unchanged.
    pub fn flush_child(&mut self, child: ConsumedUtxoCache) -> (r: Result<(), UtxoError>)
        requires
            old(self).wf(),
            child.cache.wf(),
        ensures
            final(self).wf(),
            caches_mergeable(old(self)@, child.cache@) ==> r == Ok::<(), UtxoError>(()) && final(self)@
                == merged_caches(old(self)@, child.cache@),
            r matches Err(e) ==> !caches_mergeable(old(self)@, child.cache@)
                && flush_conflict_untouched(old(self)@, child.cache@, final(self)@, e),
            final(self).best_block_spec() == (if child.cache.best_block_spec() is Some {
                child.cache.best_block_spec()
            } else {
                old(self).best_block_spec()
            }),
    {
        let ConsumedUtxoCache { cache } = child;
        let UtxosCache { entries, best_block } = cache;
        if let Some(b) = best_block {
            self.best_block = Some(b);
        }
        let items = entries.into_entries();
        let ghost full = items@;
        let ghost m1 = old(self)@;
        let ghost m2 = crate::vecmap::assoc_map(full);
        let n = items.len();
        let mut idx: usize = 0;
        while idx < n
            invariant
                self.wf(),
                n == full.len(),
                idx <= n,
                items@ == full,
                crate::vecmap::distinct_keys(full),
                m1 == old(self)@,
                m2 == child.cache@,
                m2 == crate::vecmap::assoc_map(full),
                self.best_block_spec() == (if child.cache.best_block_spec() is Some {
                    child.cache.best_block_spec()
                } else {
                    old(self).best_block_spec()
                }),
                caches_mergeable(m1, m2) ==> self@ == merged_caches(
                    m1,
                    crate::vecmap::assoc_map(full.take(idx as int)),
                ),
                forall|j: int|
                    idx <= j < full.len() ==> #[trigger] cache_untouched_at(self@, m1, full[j].0),
            decreases n - idx,
        {
            let key = items[idx].0;
            let st = items[idx].1;
            let ghost pre = self@;
            proof {
                crate::vecmap::lemma_assoc_map_index(full, idx as int);
                assert(cache_untouched_at(pre, m1, full[idx as int].0));
            }
            let here = self.status_of(&key);
            match merge_status(here, st) {
                Ok(cell) => {
                    match cell {
                        Some(s) => {
                            self.entries.insert(key, s);
                        },
                        None => {
                            let _ = self.entries.remove(&key);
                        },
                    }
                    proof {
                        assert(full.take(idx + 1 as int).drop_last() =~= full.take(idx as int));
                        let n2 = crate::vecmap::assoc_map(full.take(idx as int));
                        let n2p = crate::vecmap::assoc_map(full.take(idx + 1 as int));
                        assert(n2p == n2.insert(key, m2[key]));
                        if caches_mergeable(m1, m2) {
                            assert(self@ =~= merged_caches(m1, n2p)) by {
                                crate::vecmap::lemma_assoc_map_contains(full.take(idx as int), key);
                            }
                        }
                        assert forall|j: int|
                            idx + 1 <= j < full.len() implies #[trigger] cache_untouched_at(
                            self@,
                            m1,
                            full[j].0,
                        ) by {
                            assert(full[j].0 != full[idx as int].0);
                            assert(cache_untouched_at(pre, m1, full[j].0));
                        }
                    }
                },
                Err(e) => {
                    proof {
                        assert(m2.dom().contains(key) && m2[key] == full[idx as int].1);
                        assert(!caches_mergeable(m1, m2)) by {
                            assert(merge_status_spec(cell_of(m1, key), m2[key]) is Err);
                        }
                        assert(cache_untouched_at(self@, m1, key));
                        assert(flush_conflict_untouched(m1, m2, self@, e));
                    }
                    return Err(e);
                },
            }
            idx = idx + 1;
        }
        proof {
            assert(full.take(n as int) =~= full);
        }
        Ok(())
    }
}

/// On a refused flush some cell conflicts, the error is that cell's,
/// and the parent is unchanged at it.
pub open spec fn flush_conflict_untouched(
    m1: Map<OutPoint, UtxoStatus>,
    m2: Map<OutPoint, UtxoStatus>,
    mf: Map<OutPoint, UtxoStatus>,
    e: UtxoError,
) -> bool {
    exists|k: OutPoint|
        #![trigger m2.dom().contains(k)]
        m2.dom().contains(k) && merge_status_spec(cell_of(m1, k), m2[k]) == Err::<
            Option<UtxoStatus>,
            UtxoError,
        >(e) && cell_of(mf, k) == cell_of(m1, k)
}

/// Whether `cur` still agrees with `base` at key `k`.
pub open spec fn cache_untouched_at(
    cur: Map<OutPoint, UtxoStatus>,
    base: Map<OutPoint, UtxoStatus>,
    k: OutPoint,
) -> bool {
    cell_of(cur, k) == cell_of(base, k)
}

/// A cache layer extracted from its verifier, ready to be flushed.
pub struct ConsumedUtxoCache {
    pub cache: UtxosCache,
}

/// The unspent output held at `k`, or `None`.
pub open spec fn utxo_at(m: Map<OutPoint, Utxo>, k: OutPoint) -> Option<Utxo> {
    if m.dom().contains(k) {
        Some(m[k])
    } else {
        None
    }
}

/// The UTXO set a cache layer presents over its parent's: live cells
/// shadow the parent, spent cells hide it, absent cells pass it through.
pub open spec fn effective_utxos(
    cache: Map<OutPoint, UtxoStatus>,
    parent: Map<OutPoint, Utxo>,
) -> Map<OutPoint, Utxo> {
    Map::new(
        |k: OutPoint|
            match cell_of(cache, k) {
                Some(UtxoStatus::Fresh(_)) => true,
                Some(UtxoStatus::Dirty(_)) => true,
                Some(UtxoStatus::Spent) => false,
                None => parent.dom().contains(k),
            },
        |k: OutPoint|
            match cell_of(cache, k) {
                Some(UtxoStatus::Fresh(u)) => u,
                Some(UtxoStatus::Dirty(u)) => u,
                _ => parent[k],
            },
    )
}

/// Freshness is preserved by any change confined to one cell that does
/// not forge a fresh cell over a known outpoint.
proof fn lemma_fresh_consistent_update(
    old_m: Map<OutPoint, UtxoStatus>,
    new_m: Map<OutPoint, UtxoStatus>,
    parent: Map<OutPoint, Utxo>,
    k0: OutPoint,
)
    requires
        fresh_consistent(old_m, parent),
        forall|k: OutPoint| k != k0 ==> #[trigger] cell_of(new_m, k) == cell_of(old_m, k),
        cell_of(new_m, k0) matches Some(UtxoStatus::Fresh(_)) ==> !parent.dom().contains(k0),
    ensures
        fresh_consistent(new_m, parent),
{
    assert forall|k: OutPoint|
        #[trigger] cell_of(new_m, k) matches Some(UtxoStatus::Fresh(_)) implies !parent.dom().contains(
        k,
    ) by {
        if k != k0 {
            assert(cell_of(new_m, k) == cell_of(old_m, k));
        }
    }
}

/// A fresh cell claims its outpoint is unknown to every ancestor.
pub open spec fn fresh_consistent(
    cache: Map<OutPoint, UtxoStatus>,
    parent: Map<OutPoint, Utxo>,
) -> bool {
    forall|k: OutPoint|
        #[trigger] cell_of(cache, k) matches Some(UtxoStatus::Fresh(_)) ==> !parent.dom().contains(
            k,
        )
}

/// A read-only view of a UTXO set: the storage backend or a cache layer
/// stacked on one.
pub trait UtxosView {
    /// The full set this view presents.
    spec fn utxos(&self) -> Map<OutPoint, Utxo>;

    /// The id of the block this view's set corresponds to.
    spec fn view_best_block(&self) -> Option<H256>;

    /// Internal well-formedness of the view.
    spec fn view_wf(&self) -> bool;

    fn get_utxo_from_view(&self, outpoint: &OutPoint) -> (r: Option<Utxo>)
        requires
            self.view_wf(),
        ensures
            r == utxo_at(self.utxos(), *outpoint),
    ;

    fn view_best_block_id(&self) -> (r: Option<H256>)
        requires
            self.view_wf(),
        ensures
            r == self.view_best_block(),
    ;
}

/// The undo record of one transaction: the outputs its inputs consumed,
/// in input order.
#[derive(PartialEq, Eq, Clone, Debug)]
pub struct TxUndo {
    pub utxos: Vec<Utxo>,
}

impl TxUndo {
    pub fn new(utxos: Vec<Utxo>) -> (r: Self)
        ensures
            r.utxos == utxos,
    {
        TxUndo { utxos }
    }

    pub fn inner(&self) -> (r: &Vec<Utxo>)
        ensures
            r == &self.utxos,
    {
        &self.utxos
    }
}

/// The per-block reversal data: one undo per transaction, in block order,
/// and one for the block reward where it consumed anything.
#[derive(PartialEq, Eq, Clone, Debug)]
pub struct BlockUndo {
    pub reward_undo: Option<TxUndo>,
    pub tx_undos: Vec<TxUndo>,
}

/// The outputs a transaction undo holds.
pub open spec fn tx_undo_view(u: TxUndo) -> Seq<Utxo> {
    u.utxos@
}

/// The abstract content of a block undo: the reward's consumed outputs
/// and each transaction's, in block order.
pub open spec fn block_undo_reward_view(b: BlockUndo) -> Option<Seq<Utxo>> {
    match b.reward_undo {
        None => None,
        Some(u) => Some(u.utxos@),
    }
}

/// The per-transaction consumed outputs a block undo holds.
pub open spec fn block_undo_txs_view(b: BlockUndo) -> Seq<Seq<Utxo>> {
    Seq::new(b.tx_undos@.len(), |i: int| b.tx_undos@[i].utxos@)
}

impl TxUndo {
    /// A faithful copy of this record.
    pub fn clone_tx_undo(&self) -> (r: TxUndo)
        ensures
            r.utxos@ == self.utxos@,
    {
        let mut utxos: Vec<Utxo> = Vec::new();
        let n = self.utxos.len();
        let mut i: usize = 0;
        while i < n
            invariant
                i <= n,
                n == self.utxos@.len(),
                utxos@ == self.utxos@.take(i as int),
            decreases n - i,
        {
            utxos.push(self.utxos[i]);
            proof {
                assert(utxos@ =~= self.utxos@.take(i + 1 as int));
            }
            i = i + 1;
        }
        proof {
            assert(utxos@ =~= self.utxos@);
        }
        TxUndo { utxos }
    }
}

impl BlockUndo {
    /// A faithful copy of this record.
    pub fn clone_undo(&self) -> (r: BlockUndo)
        ensures
            block_undo_reward_view(r) == block_undo_reward_view(*self),
            block_undo_txs_view(r) == block_undo_txs_view(*self),
            r.tx_undos@.len() == self.tx_undos@.len(),
    {
        let reward_undo = match &self.reward_undo {
            None => None,
            Some(u) => Some(u.clone_tx_undo()),
        };
        let mut tx_undos: Vec<TxUndo> = Vec::new();
        let n = self.tx_undos.len();
        let mut i: usize = 0;
        while i < n
            invariant
                i <= n,
                n == self.tx_undos@.len(),
                tx_undos@.len() == i,
                forall|j: int| 0 <= j < i ==> (#[trigger] tx_undos@[j]).utxos@
                    == self.tx_undos@[j].utxos@,
            decreases n - i,
        {
            tx_undos.push(self.tx_undos[i].clone_tx_undo());
            i = i + 1;
        }
        let r = BlockUndo { reward_undo, tx_undos };
        proof {
            assert(block_undo_txs_view(r) =~= block_undo_txs_view(*self));
        }
        r
    }

    pub fn new(reward_undo: Option<TxUndo>, tx_undos: Vec<TxUndo>) -> (r: Self)
        ensures
            r.reward_undo == reward_undo,
            r.tx_undos == tx_undos,
    {
        BlockUndo { reward_undo, tx_undos }
    }

    pub fn tx_undos(&self) -> (r: &Vec<TxUndo>)
        ensures
            r == &self.tx_undos,
    {
        &self.tx_undos
    }
}

/// The authoritative UTXO state: the flat set, the best-block pointer and
/// the per-block undo records.
pub struct UtxoStore {
    utxos: VecMap<OutPoint, Utxo>,
    best_block: Option<H256>,
    undos: VecMap<H256, BlockUndo>,
}

impl UtxoStore {
    pub closed spec fn utxos_map(&self) -> Map<OutPoint, Utxo> {
        self.utxos@
    }

    pub closed spec fn undo_map(&self) -> Map<H256, BlockUndo> {
        self.undos@
    }

    pub closed spec fn best_block_spec(&self) -> Option<H256> {
        self.best_block
    }

    pub closed spec fn wf(&self) -> bool {
        self.utxos.wf() && self.undos.wf()
    }

    pub fn new_empty() -> (r: Self)
        ensures
            r.wf(),
            r.utxos_map() == Map::<OutPoint, Utxo>::empty(),
            r.undo_map() == Map::<H256, BlockUndo>::empty(),
            r.best_block_spec() is None,
    {
        UtxoStore { utxos: VecMap::new(), best_block: None, undos: VecMap::new() }
    }

    pub fn set_utxo(&mut self, outpoint: &OutPoint, entry: Utxo)
        requires
            old(self).wf(),
        ensures
            final(self).wf(),
            final(self).utxos_map() == old(self).utxos_map().insert(*outpoint, entry),
            final(self).undo_map() == old(self).undo_map(),
            final(self).best_block_spec() == old(self).best_block_spec(),
    {
        self.utxos.insert(*outpoint, entry);
    }

    pub fn del_utxo(&mut self, outpoint: &OutPoint)
        requires
            old(self).wf(),
        ensures
            final(self).wf(),
            final(self).utxos_map() == old(self).utxos_map().remove(*outpoint),
            final(self).undo_map() == old(self).undo_map(),
            final(self).best_block_spec() == old(self).best_block_spec(),
    {
        let _ = self.utxos.remove(outpoint);
    }

    pub fn get_utxo(&self, outpoint: &OutPoint) -> (r: Option<Utxo>)
        requires
            self.wf(),
        ensures
            r == utxo_at(self.utxos_map(), *outpoint),
    {
        match self.utxos.get(outpoint) {
            Some(u) => Some(*u),
            None => None,
        }
    }

    pub fn set_best_block_for_utxos(&mut self, block_id: &H256)
        requires
            old(self).wf(),
        ensures
            final(self).wf(),
            final(self).utxos_map() == old(self).utxos_map(),
            final(self).undo_map() == old(self).undo_map(),
            final(self).best_block_spec() == Some(*block_id),
    {
        self.best_block = Some(*block_id);
    }

    pub fn get_best_block_for_utxos(&self) -> (r: Option<H256>)
        ensures
            r == self.best_block_spec(),
    {
        self.best_block
    }

    pub fn set_undo_data(&mut self, id: H256, undo: BlockUndo)
        requires
            old(self).wf(),
        ensures
            final(self).wf(),
            final(self).utxos_map() == old(self).utxos_map(),
            final(self).undo_map() == old(self).undo_map().insert(id, undo),
            final(self).best_block_spec() == old(self).best_block_spec(),
    {
        self.undos.insert(id, undo);
    }

    pub fn del_undo_data(&mut self, id: H256)
        requires
            old(self).wf(),
        ensures
            final(self).wf(),
            final(self).utxos_map() == old(self).utxos_map(),
            final(self).undo_map() == old(self).undo_map().remove(id),
            final(self).best_block_spec() == old(self).best_block_spec(),
    {
        let _ = self.undos.remove(&id);
    }

    pub fn get_undo_data(&self, id: H256) -> (r: Option<&BlockUndo>)
        requires
            self.wf(),
        ensures
            match r {
                Some(u) => self.undo_map().dom().contains(id) && *u == self.undo_map()[id],
                None => !self.undo_map().dom().contains(id),
            },
    {
        self.undos.get(&id)
    }

    /// Write a consumed cache layer down: live fresh cells insert, live
    /// dirty cells overwrite, spent cells delete, and the layer's best
    /// block replaces the pointer when it has one.
    pub fn flush_cache(&mut self, consumed: ConsumedUtxoCache)
        requires
            old(self).wf(),
            consumed.cache.wf(),
        ensures
            final(self).wf(),
            final(self).utxos_map() == effective_utxos(consumed.cache@, old(self).utxos_map()),
            final(self).undo_map() == old(self).undo_map(),
            final(self).best_block_spec() == (if consumed.cache.best_block_spec() is Some {
                consumed.cache.best_block_spec()
            } else {
                old(self).best_block_spec()
            }),
    {
        let ConsumedUtxoCache { cache } = consumed;
        let UtxosCache { entries, best_block } = cache;
        if let Some(b) = best_block {
            self.best_block = Some(b);
        }
        let items = entries.into_entries();
        let ghost full = items@;
        let ghost m1 = old(self).utxos_map();
        let ghost m2 = consumed.cache@;
        let n = items.len();
        let mut idx: usize = 0;
        while idx < n
            invariant
                self.wf(),
                n == full.len(),
                idx <= n,
                items@ == full,
                crate::vecmap::distinct_keys(full),
                m1 == old(self).utxos_map(),
                m2 == consumed.cache@,
                m2 == crate::vecmap::assoc_map(full),
                self.undo_map() == old(self).undo_map(),
                self.best_block_spec() == (if consumed.cache.best_block_spec() is Some {
                    consumed.cache.best_block_spec()
                } else {
                    old(self).best_block_spec()
                }),
                self.utxos_map() == effective_utxos(
                    crate::vecmap::assoc_map(full.take(idx as int)),
                    m1,
                ),
            decreases n - idx,
        {
            let key = items[idx].0;
            let st = items[idx].1;
            let ghost pre = self.utxos_map();
            proof {
                crate::vecmap::lemma_assoc_map_index(full, idx as int);
            }
            match st {
                UtxoStatus::Fresh(u) => {
                    self.utxos.insert(key, u);
                },
                UtxoStatus::Dirty(u) => {
                    self.utxos.insert(key, u);
                },
                UtxoStatus::Spent => {
                    let _ = self.utxos.remove(&key);
                },
            }
            proof {
                assert(full.take(idx + 1 as int).drop_last() =~= full.take(idx as int));
                let n2 = crate::vecmap::assoc_map(full.take(idx as int));
                let n2p = crate::vecmap::assoc_map(full.take(idx + 1 as int));
                assert(n2p == n2.insert(key, m2[key]));
                assert(self.utxos_map() =~= effective_utxos(n2p, m1)) by {
                    crate::vecmap::lemma_assoc_map_contains(full.take(idx as int), key);
                }
            }
            idx = idx + 1;
        }
        proof {
            assert(full.take(n as int) =~= full);
        }
    }
}

impl UtxosView for UtxoStore {
    open spec fn utxos(&self) -> Map<OutPoint, Utxo> {
        self.utxos_map()
    }

    open spec fn view_best_block(&self) -> Option<H256> {
        self.best_block_spec()
    }

    open spec fn view_wf(&self) -> bool {
        self.wf()
    }

    fn get_utxo_from_view(&self, outpoint: &OutPoint) -> (r: Option<Utxo>) {
        self.get_utxo(outpoint)
    }

    fn view_best_block_id(&self) -> (r: Option<H256>) {
        self.get_best_block_for_utxos()
    }
}

/// A cache layer together with the parent view it stacks on, read as one
/// UTXO set.
pub struct LayeredView<'a, V> {
    pub cache: &'a UtxosCache,
    pub parent: &'a V,
}

impl<'a, V: UtxosView> UtxosView for LayeredView<'a, V> {
    open spec fn utxos(&self) -> Map<OutPoint, Utxo> {
        effective_utxos(self.cache@, self.parent.utxos())
    }

    open spec fn view_best_block(&self) -> Option<H256> {
        if self.cache.best_block_spec() is Some {
            self.cache.best_block_spec()
        } else {
            self.parent.view_best_block()
        }
    }

    open spec fn view_wf(&self) -> bool {
        self.cache.wf() && self.parent.view_wf()
    }

    fn get_utxo_from_view(&self, outpoint: &OutPoint) -> (r: Option<Utxo>) {
        match self.cache.status_of(outpoint) {
            Some(UtxoStatus::Fresh(u)) => Some(u),
            Some(UtxoStatus::Dirty(u)) => Some(u),
            Some(UtxoStatus::Spent) => None,
            None => self.parent.get_utxo_from_view(outpoint),
        }
    }

    fn view_best_block_id(&self) -> (r: Option<H256>) {
        match self.cache.get_best_block_hash() {
            Some(b) => Some(b),
            None => self.parent.view_best_block_id(),
        }
    }
}

impl UtxosCache {
    /// Look an outpoint up through this layer and its parent view.
    pub fn get_utxo<V: UtxosView>(&self, parent: &V, outpoint: &OutPoint) -> (r: Option<Utxo>)
        requires
            self.wf(),
            parent.view_wf(),
        ensures
            r == utxo_at(effective_utxos(self@, parent.utxos()), *outpoint),
    {
        match self.status_of(outpoint) {
            Some(UtxoStatus::Fresh(u)) => Some(u),
            Some(UtxoStatus::Dirty(u)) => Some(u),
            Some(UtxoStatus::Spent) => None,
            None => parent.get_utxo_from_view(outpoint),
        }
    }

    pub fn has_utxo<V: UtxosView>(&self, parent: &V, outpoint: &OutPoint) -> (r: bool)
        requires
            self.wf(),
            parent.view_wf(),
        ensures
            r <==> effective_utxos(self@, parent.utxos()).dom().contains(*outpoint),
    {
        self.get_utxo(parent, outpoint).is_some()
    }

    /// Consume the live output at `outpoint`: mark it spent here (or erase
    /// it, where this layer created it) and hand the prior output out as
    /// the undo record for the input. Fails exactly where the effective
    /// view holds no live output.
    pub fn spend_utxo<V: UtxosView>(&mut self, parent: &V, outpoint: &OutPoint) -> (r: Result<
        Utxo,
        UtxoError,
    >)
        requires
            old(self).wf(),
            parent.view_wf(),
            fresh_consistent(old(self)@, parent.utxos()),
        ensures
            final(self).wf(),
            fresh_consistent(final(self)@, parent.utxos()),
            final(self).best_block_spec() == old(self).best_block_spec(),
            utxo_at(effective_utxos(old(self)@, parent.utxos()), *outpoint) is None ==> r == Err::<
                Utxo,
                UtxoError,
            >(UtxoError::NoUtxoFound) && final(self)@ == old(self)@,
            utxo_at(effective_utxos(old(self)@, parent.utxos()), *outpoint) matches Some(u) ==> (r
                == Ok::<Utxo, UtxoError>(u) && final(self)@ == (if cell_of(old(self)@, *outpoint)
                matches Some(UtxoStatus::Fresh(_)) {
                old(self)@.remove(*outpoint)
            } else {
                old(self)@.insert(*outpoint, UtxoStatus::Spent)
            }) && effective_utxos(final(self)@, parent.utxos()) == effective_utxos(
                old(self)@,
                parent.utxos(),
            ).remove(*outpoint)),
    {
        let here = self.status_of(outpoint);
        match here {
            Some(UtxoStatus::Fresh(u)) => {
                let _ = self.entries.remove(outpoint);
                proof {
                    assert(effective_utxos(self@, parent.utxos()) =~= effective_utxos(
                        old(self)@,
                        parent.utxos(),
                    ).remove(*outpoint));
                    lemma_fresh_consistent_update(old(self)@, self@, parent.utxos(), *outpoint);
                }
                Ok(u)
            },
            Some(UtxoStatus::Dirty(u)) => {
                self.entries.insert(*outpoint, UtxoStatus::Spent);
                proof {
                    assert(effective_utxos(self@, parent.utxos()) =~= effective_utxos(
                        old(self)@,
                        parent.utxos(),
                    ).remove(*outpoint));
                    lemma_fresh_consistent_update(old(self)@, self@, parent.utxos(), *outpoint);
                }
                Ok(u)
            },
            Some(UtxoStatus::Spent) => Err(UtxoError::NoUtxoFound),
            None => match parent.get_utxo_from_view(outpoint) {
                Some(u) => {
                    self.entries.insert(*outpoint, UtxoStatus::Spent);
                    proof {
                        assert(effective_utxos(self@, parent.utxos()) =~= effective_utxos(
                            old(self)@,
                            parent.utxos(),
                        ).remove(*outpoint));
                        lemma_fresh_consistent_update(old(self)@, self@, parent.utxos(), *outpoint);
                    }
                    Ok(u)
                },
                None => Err(UtxoError::NoUtxoFound),
            },
        }
    }

    /// Create or overwrite the output at `outpoint`. Without leave to
    /// overwrite, a live output at the outpoint is an error; a spent cell
    /// or an absent one is written, fresh exactly where no ancestor knows
    /// the outpoint.
    pub fn add_utxo<V: UtxosView>(
        &mut self,
        parent: &V,
        outpoint: &OutPoint,
        utxo: Utxo,
        possible_overwrite: bool,
    ) -> (r: Result<(), UtxoError>)
        requires
            old(self).wf(),
            parent.view_wf(),
            fresh_consistent(old(self)@, parent.utxos()),
        ensures
            final(self).wf(),
            fresh_consistent(final(self)@, parent.utxos()),
            final(self).best_block_spec() == old(self).best_block_spec(),
            !possible_overwrite && utxo_at(effective_utxos(old(self)@, parent.utxos()), *outpoint)
                is Some ==> r == Err::<(), UtxoError>(UtxoError::OverwritingUtxo) && final(self)@
                == old(self)@,
            possible_overwrite || utxo_at(effective_utxos(old(self)@, parent.utxos()), *outpoint)
                is None ==> (r == Ok::<(), UtxoError>(()) && final(self)@ == old(self)@.insert(
                *outpoint,
                added_status(old(self)@, parent.utxos(), *outpoint, utxo),
            ) && effective_utxos(final(self)@, parent.utxos()) == effective_utxos(
                old(self)@,
                parent.utxos(),
            ).insert(*outpoint, utxo)),
    {
        let here = self.status_of(outpoint);
        let is_live = match here {
            Some(UtxoStatus::Fresh(_)) => true,
            Some(UtxoStatus::Dirty(_)) => true,
            Some(UtxoStatus::Spent) => false,
            None => parent.get_utxo_from_view(outpoint).is_some(),
        };
        if !possible_overwrite && is_live {
            return Err(UtxoError::OverwritingUtxo);
        }
        let status = match here {
            Some(UtxoStatus::Fresh(_)) => UtxoStatus::Fresh(utxo),
            Some(UtxoStatus::Dirty(_)) => UtxoStatus::Dirty(utxo),
            Some(UtxoStatus::Spent) => UtxoStatus::Dirty(utxo),
            None => {
                if parent.get_utxo_from_view(outpoint).is_some() {
                    UtxoStatus::Dirty(utxo)
                } else {
                    UtxoStatus::Fresh(utxo)
                }
            },
        };
        self.entries.insert(*outpoint, status);
        proof {
            assert(effective_utxos(self@, parent.utxos()) =~= effective_utxos(
                old(self)@,
                parent.utxos(),
            ).insert(*outpoint, utxo));
            lemma_fresh_consistent_update(old(self)@, self@, parent.utxos(), *outpoint);
        }
        Ok(())
    }
}

/// The cell an add writes: an existing cell keeps its freshness, a spent
/// cell revives dirty, a new cell is fresh exactly where no ancestor
/// holds the outpoint.
pub open spec fn added_status(
    cache: Map<OutPoint, UtxoStatus>,
    parent: Map<OutPoint, Utxo>,
    k: OutPoint,
    utxo: Utxo,
) -> UtxoStatus {
    match cell_of(cache, k) {
        Some(UtxoStatus::Fresh(_)) => UtxoStatus::Fresh(utxo),
        Some(UtxoStatus::Dirty(_)) => UtxoStatus::Dirty(utxo),
        Some(UtxoStatus::Spent) => UtxoStatus::Dirty(utxo),
        None => if parent.dom().contains(k) {
            UtxoStatus::Dirty(utxo)
        } else {
            UtxoStatus::Fresh(utxo)
        },
    }
}

} // verus!
