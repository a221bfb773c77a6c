//! The persistent state: one keyed map per logical collection — blocks by
//! id, the height index, the UTXO set with its best-block pointer and
//! per-block undo data, the transaction index and the token data — and
//! the atomic application of a consumed verifier overlay to them.

use vstd::prelude::*;

use crate::block::Block;
use crate::primitives::H256;
use crate::transaction::{OutPoint, OutPointSourceId};
use crate::tx_verifier::{
    BlockUndoEntry, CachedAuxDataOp, CachedInputsOperation, CachedTokenIndexOp,
    TokenAuxiliaryData, TransactionVerifierDelta, TransactionVerifierStorageError,
    TxMainChainIndex,
};
use crate::utxo::{effective_utxos, BlockUndo, Utxo, UtxoError, UtxoStore, UtxosView};
use crate::vecmap::VecMap;

verus! {

/// The block-undo store after a consumed overlay's entries land: fresh
/// entries are written, consumed entries are deleted.
pub open spec fn applied_undos(
    m: Map<H256, BlockUndo>,
    dm: Map<H256, BlockUndoEntry>,
) -> Map<H256, BlockUndo> {
    Map::new(
        |k: H256|
            if dm.dom().contains(k) {
                dm[k].is_fresh
            } else {
                m.dom().contains(k)
            },
        |k: H256|
            if dm.dom().contains(k) {
                dm[k].undo
            } else {
                m[k]
            },
    )
}

/// A value store after write and erase operations land.
pub open spec fn applied_writes<V>(m: Map<H256, V>, dm: Map<H256, Option<V>>) -> Map<H256, V> {
    Map::new(
        |k: H256|
            if dm.dom().contains(k) {
                dm[k] is Some
            } else {
                m.dom().contains(k)
            },
        |k: H256|
            if dm.dom().contains(k) {
                dm[k].unwrap()
            } else {
                m[k]
            },
    )
}

/// The transaction-index store after write and erase operations land.
pub open spec fn applied_index_ops(
    m: Map<OutPointSourceId, TxMainChainIndex>,
    dm: Map<OutPointSourceId, CachedInputsOperation>,
) -> Map<OutPointSourceId, TxMainChainIndex> {
    Map::new(
        |k: OutPointSourceId|
            if dm.dom().contains(k) {
                dm[k] is Write
            } else {
                m.dom().contains(k)
            },
        |k: OutPointSourceId|
            if dm.dom().contains(k) {
                match dm[k] {
                    CachedInputsOperation::Write(v) => v,
                    CachedInputsOperation::Erase => m[k],
                }
            } else {
                m[k]
            },
    )
}

/// The in-memory store of the authoritative chain state.
pub struct Store {
    pub(crate) utxo: UtxoStore,
    pub(crate) tx_index: VecMap<OutPointSourceId, TxMainChainIndex>,
    pub(crate) token_aux: VecMap<H256, TokenAuxiliaryData>,
    pub(crate) token_index: VecMap<H256, H256>,
    pub(crate) blocks: VecMap<H256, Block>,
    pub(crate) height_index: VecMap<u64, H256>,
}

impl Store {
    pub closed spec fn utxos_map(&self) -> Map<OutPoint, Utxo> {
        self.utxo.utxos_map()
    }

    pub closed spec fn undo_map(&self) -> Map<H256, BlockUndo> {
        self.utxo.undo_map()
    }

    pub closed spec fn best_block_spec(&self) -> Option<H256> {
        self.utxo.best_block_spec()
    }

    pub closed spec fn tx_index_map(&self) -> Map<OutPointSourceId, TxMainChainIndex> {
        self.tx_index@
    }

    pub closed spec fn token_aux_map(&self) -> Map<H256, TokenAuxiliaryData> {
        self.token_aux@
    }

    pub closed spec fn token_index_map(&self) -> Map<H256, H256> {
        self.token_index@
    }

    pub closed spec fn blocks_map(&self) -> Map<H256, Block> {
        self.blocks@
    }

    pub closed spec fn heights(&self) -> Map<u64, H256> {
        self.height_index@
    }

    pub closed spec fn wf(&self) -> bool {
        &&& self.utxo.wf()
        &&& self.tx_index.wf()
        &&& self.token_aux.wf()
        &&& self.token_index.wf()
        &&& self.blocks.wf()
        &&& self.height_index.wf()
    }

    pub fn new_empty() -> (r: Result<Self, UtxoError>)
        ensures
            r matches Ok(s) && s.wf() && s.utxos_map() == Map::<OutPoint, Utxo>::empty()
                && s.undo_map() == Map::<H256, BlockUndo>::empty() && s.best_block_spec() is None
                && s.blocks_map() == Map::<H256, Block>::empty() && s.heights()
                == Map::<u64, H256>::empty() && s.tx_index_map() == Map::<
                OutPointSourceId,
                TxMainChainIndex,
            >::empty(),
    {
        Ok(
            Store {
                utxo: UtxoStore::new_empty(),
                tx_index: VecMap::new(),
                token_aux: VecMap::new(),
                token_index: VecMap::new(),
                blocks: VecMap::new(),
                height_index: VecMap::new(),
            },
        )
    }

    pub fn add_utxo(&mut self, outpoint: &OutPoint, entry: Utxo) -> (r: Result<(), UtxoError>)
        requires
            old(self).wf(),
        ensures
            final(self).wf(),
            r is Ok,
            final(self).utxos_map() == old(self).utxos_map().insert(*outpoint, entry),
            unchanged_but_utxos(old(self), final(self)),
            final(self).undo_map() == old(self).undo_map(),
            final(self).best_block_spec() == old(self).best_block_spec(),
    {
        self.utxo.set_utxo(outpoint, entry);
        Ok(())
    }

    pub fn del_utxo(&mut self, outpoint: &OutPoint) -> (r: Result<(), UtxoError>)
        requires
            old(self).wf(),
        ensures
            final(self).wf(),
            r is Ok,
            final(self).utxos_map() == old(self).utxos_map().remove(*outpoint),
            unchanged_but_utxos(old(self), final(self)),
            final(self).undo_map() == old(self).undo_map(),
            final(self).best_block_spec() == old(self).best_block_spec(),
    {
        self.utxo.del_utxo(outpoint);
        Ok(())
    }

    pub fn get_utxo(&self, outpoint: &OutPoint) -> (r: Result<Option<Utxo>, UtxoError>)
        requires
            self.wf(),
        ensures
            r == Ok::<Option<Utxo>, UtxoError>(crate::utxo::utxo_at(self.utxos_map(), *outpoint)),
    {
        Ok(self.utxo.get_utxo(outpoint))
    }

    pub fn set_best_block_for_utxos(&mut self, block_id: &H256) -> (r: Result<(), UtxoError>)
        requires
            old(self).wf(),
        ensures
            final(self).wf(),
            r is Ok,
            final(self).best_block_spec() == Some(*block_id),
            final(self).utxos_map() == old(self).utxos_map(),
            final(self).undo_map() == old(self).undo_map(),
            unchanged_but_utxos(old(self), final(self)),
    {
        self.utxo.set_best_block_for_utxos(block_id);
        Ok(())
    }

    pub fn get_best_block_for_utxos(&self) -> (r: Result<Option<H256>, UtxoError>)
        requires
            self.wf(),
        ensures
            r == Ok::<Option<H256>, UtxoError>(self.best_block_spec()),
    {
        Ok(self.utxo.get_best_block_for_utxos())
    }

    pub fn add_undo_data(&mut self, id: H256, undo: BlockUndo) -> (r: Result<(), UtxoError>)
        requires
            old(self).wf(),
        ensures
            final(self).wf(),
            r is Ok,
            final(self).undo_map() == old(self).undo_map().insert(id, undo),
            final(self).utxos_map() == old(self).utxos_map(),
            final(self).best_block_spec() == old(self).best_block_spec(),
            unchanged_but_utxos(old(self), final(self)),
    {
        self.utxo.set_undo_data(id, undo);
        Ok(())
    }

    pub fn del_undo_data(&mut self, id: H256) -> (r: Result<(), UtxoError>)
        requires
            old(self).wf(),
        ensures
            final(self).wf(),
            r is Ok,
            final(self).undo_map() == old(self).undo_map().remove(id),
            final(self).utxos_map() == old(self).utxos_map(),
            final(self).best_block_spec() == old(self).best_block_spec(),
            unchanged_but_utxos(old(self), final(self)),
    {
        self.utxo.del_undo_data(id);
        Ok(())
    }

    pub fn get_undo_data(&self, id: H256) -> (r: Result<Option<BlockUndo>, UtxoError>)
        requires
            self.wf(),
        ensures
            r matches Ok(o) && (match o {
                Some(u) => self.undo_map().dom().contains(id)
                    && crate::utxo::block_undo_reward_view(u) == crate::utxo::block_undo_reward_view(
                    self.undo_map()[id],
                ) && crate::utxo::block_undo_txs_view(u) == crate::utxo::block_undo_txs_view(
                    self.undo_map()[id],
                ),
                None => !self.undo_map().dom().contains(id),
            }),
    {
        match self.utxo.get_undo_data(id) {
            Some(u) => Ok(Some(u.clone_undo())),
            None => Ok(None),
        }
    }

    pub fn set_block(&mut self, id: H256, block: Block)
        requires
            old(self).wf(),
        ensures
            final(self).wf(),
            final(self).blocks_map() == old(self).blocks_map().insert(id, block),
            final(self).utxos_map() == old(self).utxos_map(),
            final(self).undo_map() == old(self).undo_map(),
            final(self).best_block_spec() == old(self).best_block_spec(),
            final(self).heights() == old(self).heights(),
            final(self).tx_index_map() == old(self).tx_index_map(),
            final(self).token_aux_map() == old(self).token_aux_map(),
            final(self).token_index_map() == old(self).token_index_map(),
    {
        self.blocks.insert(id, block);
    }

    pub fn get_block(&self, id: H256) -> (r: Option<&Block>)
        requires
            self.wf(),
        ensures
            match r {
                Some(b) => self.blocks_map().dom().contains(id) && *b == self.blocks_map()[id],
                None => !self.blocks_map().dom().contains(id),
            },
    {
        self.blocks.get(&id)
    }

    pub fn set_height_id(&mut self, height: u64, id: H256)
        requires
            old(self).wf(),
        ensures
            final(self).wf(),
            final(self).heights() == old(self).heights().insert(height, id),
            final(self).blocks_map() == old(self).blocks_map(),
            final(self).utxos_map() == old(self).utxos_map(),
            final(self).undo_map() == old(self).undo_map(),
            final(self).best_block_spec() == old(self).best_block_spec(),
            final(self).tx_index_map() == old(self).tx_index_map(),
            final(self).token_aux_map() == old(self).token_aux_map(),
            final(self).token_index_map() == old(self).token_index_map(),
    {
        self.height_index.insert(height, id);
    }

    pub fn get_block_id_from_height(&self, height: u64) -> (r: Option<H256>)
        requires
            self.wf(),
        ensures
            self.heights().dom().contains(height) ==> r == Some(self.heights()[height]),
            !self.heights().dom().contains(height) ==> r is None,
    {
        match self.height_index.get(&height) {
            Some(id) => Some(*id),
            None => None,
        }
    }

    /// Apply a consumed verifier overlay: the UTXO changes, the undo
    /// records, the token data and the transaction index land in one
    /// batch.
    pub fn flush_delta(&mut self, delta: TransactionVerifierDelta) -> (r: Result<
        (),
        TransactionVerifierStorageError,
    >)
        requires
            old(self).wf(),
            delta.utxo_cache.cache.wf(),
            delta.utxo_block_undo.wf(),
            delta.token_issuance_cache.wf(),
            delta.tx_index_cache.wf(),
        ensures
            final(self).wf(),
            r is Ok,
            final(self).utxos_map() == effective_utxos(
                delta.utxo_cache.cache@,
                old(self).utxos_map(),
            ),
            final(self).undo_map() == applied_undos(old(self).undo_map(), delta.utxo_block_undo@),
            final(self).tx_index_map() == applied_index_ops(
                old(self).tx_index_map(),
                delta.tx_index_cache@,
            ),
            final(self).best_block_spec() == (if delta.utxo_cache.cache.best_block_spec()
                is Some {
                delta.utxo_cache.cache.best_block_spec()
            } else {
                old(self).best_block_spec()
            }),
            final(self).blocks_map() == old(self).blocks_map(),
            final(self).heights() == old(self).heights(),
    {
        let TransactionVerifierDelta {
            utxo_cache,
            utxo_block_undo,
            pool_deltas: _pool_deltas,
            token_issuance_cache,
            tx_index_cache,
        } = delta;
        self.utxo.flush_cache(utxo_cache);
        // Undo records: fresh entries are written, consumed ones deleted.
        let mut undo_items = utxo_block_undo.into_entries();
        let un = undo_items.len();
        let ghost ufull = undo_items@;
        proof {
            assert(ufull.len() == un);
        }
        let ghost u_m1 = old(self).undo_map();
        let mut ui: usize = 0;
        while undo_items.len() > 0
            invariant
                self.wf(),
                ufull.len() <= usize::MAX,
                ui + undo_items@.len() == ufull.len(),
                undo_items@ == ufull.skip(ui as int),
                crate::vecmap::distinct_keys(ufull),
                u_m1 == old(self).undo_map(),
                crate::vecmap::assoc_map(ufull) == delta.utxo_block_undo@,
                self.undo_map() == applied_undos(u_m1, crate::vecmap::assoc_map(
                    ufull.take(ui as int),
                )),
                self.utxos_map() == effective_utxos(delta.utxo_cache.cache@, old(self).utxos_map()),
                self.best_block_spec() == (if delta.utxo_cache.cache.best_block_spec() is Some {
                    delta.utxo_cache.cache.best_block_spec()
                } else {
                    old(self).best_block_spec()
                }),
                self.tx_index_map() == old(self).tx_index_map(),
                self.token_aux_map() == old(self).token_aux_map(),
                self.token_index_map() == old(self).token_index_map(),
                self.blocks_map() == old(self).blocks_map(),
                self.heights() == old(self).heights(),
            decreases undo_items@.len(),
        {
            let (block_id, entry) = undo_items.remove(0);
            proof {
                assert(ufull.skip(ui as int)[0] == ufull[ui as int]);
                assert(undo_items@ =~= ufull.skip(ui + 1 as int));
                crate::vecmap::lemma_assoc_map_index(ufull, ui as int);
            }
            if entry.is_fresh {
                self.utxo.set_undo_data(block_id, entry.undo);
            } else {
                self.utxo.del_undo_data(block_id);
            }
            proof {
                assert(ufull.take(ui + 1 as int).drop_last() =~= ufull.take(ui as int));
                assert(crate::vecmap::assoc_map(ufull.take(ui + 1 as int))
                    == crate::vecmap::assoc_map(ufull.take(ui as int)).insert(
                    block_id,
                    ufull[ui as int].1,
                ));
                assert(self.undo_map() =~= applied_undos(u_m1, crate::vecmap::assoc_map(
                    ufull.take(ui + 1 as int),
                ))) by {
                    crate::vecmap::lemma_assoc_map_contains(ufull.take(ui as int), block_id);
                }
            }
            ui = ui + 1;
        }
        proof {
            assert(ufull.take(ui as int) =~= ufull);
        }
        // Token data and index: writes land, erases delete.
        let TokenIssuanceCacheParts { aux, index } = token_cache_parts(token_issuance_cache);
        let mut aux_items = aux;
        while aux_items.len() > 0
            invariant
                self.wf(),
                self.utxos_map() == effective_utxos(delta.utxo_cache.cache@, old(self).utxos_map()),
                self.undo_map() == applied_undos(u_m1, delta.utxo_block_undo@),
                u_m1 == old(self).undo_map(),
                self.best_block_spec() == (if delta.utxo_cache.cache.best_block_spec() is Some {
                    delta.utxo_cache.cache.best_block_spec()
                } else {
                    old(self).best_block_spec()
                }),
                self.tx_index_map() == old(self).tx_index_map(),
                self.blocks_map() == old(self).blocks_map(),
                self.heights() == old(self).heights(),
            decreases aux_items@.len(),
        {
            let (token_id, op) = aux_items.remove(0);
            match op {
                CachedAuxDataOp::Write(data) => {
                    self.token_aux.insert(token_id, data);
                },
                CachedAuxDataOp::Erase => {
                    let _ = self.token_aux.remove(&token_id);
                },
            }
        }
        let mut index_items = index;
        while index_items.len() > 0
            invariant
                self.wf(),
                self.utxos_map() == effective_utxos(delta.utxo_cache.cache@, old(self).utxos_map()),
                self.undo_map() == applied_undos(u_m1, delta.utxo_block_undo@),
                u_m1 == old(self).undo_map(),
                self.best_block_spec() == (if delta.utxo_cache.cache.best_block_spec() is Some {
                    delta.utxo_cache.cache.best_block_spec()
                } else {
                    old(self).best_block_spec()
                }),
                self.tx_index_map() == old(self).tx_index_map(),
                self.blocks_map() == old(self).blocks_map(),
                self.heights() == old(self).heights(),
            decreases index_items@.len(),
        {
            let (tx_id, op) = index_items.remove(0);
            match op {
                CachedTokenIndexOp::Write(token_id) => {
                    self.token_index.insert(tx_id, token_id);
                },
                CachedTokenIndexOp::Erase => {
                    let _ = self.token_index.remove(&tx_id);
                },
            }
        }
        // The transaction index.
        let mut idx_items = tx_index_cache.into_ops().into_entries();
        let inn = idx_items.len();
        let ghost ifull = idx_items@;
        proof {
            assert(ifull.len() == inn);
        }
        let ghost i_m1 = self.tx_index_map();
        let mut ii: usize = 0;
        proof {
            assert(i_m1 == old(self).tx_index_map());
        }
        while idx_items.len() > 0
            invariant
                self.wf(),
                ifull.len() <= usize::MAX,
                ii + idx_items@.len() == ifull.len(),
                idx_items@ == ifull.skip(ii as int),
                crate::vecmap::distinct_keys(ifull),
                i_m1 == old(self).tx_index_map(),
                crate::vecmap::assoc_map(ifull) == delta.tx_index_cache@,
                self.tx_index_map() == applied_index_ops(i_m1, crate::vecmap::assoc_map(
                    ifull.take(ii as int),
                )),
                self.utxos_map() == effective_utxos(delta.utxo_cache.cache@, old(self).utxos_map()),
                self.undo_map() == applied_undos(u_m1, delta.utxo_block_undo@),
                u_m1 == old(self).undo_map(),
                self.best_block_spec() == (if delta.utxo_cache.cache.best_block_spec() is Some {
                    delta.utxo_cache.cache.best_block_spec()
                } else {
                    old(self).best_block_spec()
                }),
                self.blocks_map() == old(self).blocks_map(),
                self.heights() == old(self).heights(),
            decreases idx_items@.len(),
        {
            let (key, op) = idx_items.remove(0);
            proof {
                assert(ifull.skip(ii as int)[0] == ifull[ii as int]);
                assert(idx_items@ =~= ifull.skip(ii + 1 as int));
                crate::vecmap::lemma_assoc_map_index(ifull, ii as int);
            }
            match op {
                CachedInputsOperation::Write(v) => {
                    self.tx_index.insert(key, v);
                },
                CachedInputsOperation::Erase => {
                    let _ = self.tx_index.remove(&key);
                },
            }
            proof {
                assert(ifull.take(ii + 1 as int).drop_last() =~= ifull.take(ii as int));
                assert(crate::vecmap::assoc_map(ifull.take(ii + 1 as int))
                    == crate::vecmap::assoc_map(ifull.take(ii as int)).insert(
                    key,
                    ifull[ii as int].1,
                ));
                assert(self.tx_index@ =~= applied_index_ops(i_m1, crate::vecmap::assoc_map(
                    ifull.take(ii + 1 as int),
                ))) by {
                    crate::vecmap::lemma_assoc_map_contains(ifull.take(ii as int), key);
                }
            }
            ii = ii + 1;
        }
        proof {
            assert(ifull.take(ii as int) =~= ifull);
        }
        Ok(())
    }
}

/// The two operation lists of a token cache, handed out for flushing.
pub struct TokenIssuanceCacheParts {
    pub aux: Vec<(H256, CachedAuxDataOp)>,
    pub index: Vec<(H256, CachedTokenIndexOp)>,
}

/// Hand a token cache's operations out as entry lists.
pub fn token_cache_parts(cache: crate::tx_verifier::TokenIssuanceCache) -> (r:
    TokenIssuanceCacheParts)
    requires
        cache.wf(),
{
    let (aux, index) = cache.into_parts();
    TokenIssuanceCacheParts { aux, index }
}

/// What stays untouched when only the UTXO column changes.
pub open spec fn unchanged_but_utxos(a: &Store, b: &Store) -> bool {
    &&& b.tx_index_map() == a.tx_index_map()
    &&& b.token_aux_map() == a.token_aux_map()
    &&& b.token_index_map() == a.token_index_map()
    &&& b.blocks_map() == a.blocks_map()
    &&& b.heights() == a.heights()
}

/// A thin interface over the store exposing its UTXO persistence.
pub struct UtxoDBInterface {
    store: Store,
}

impl UtxoDBInterface {
    pub closed spec fn store_spec(&self) -> Store {
        self.store
    }

    pub closed spec fn wf(&self) -> bool {
        self.store.wf()
    }

    pub fn new(store: Store) -> (r: Self)
        ensures
            r.store_spec() == store,
            r.wf() == store.wf(),
    {
        UtxoDBInterface { store }
    }

    pub fn set_utxo(&mut self, outpoint: &OutPoint, entry: Utxo) -> (r: Result<(), UtxoError>)
        requires
            old(self).wf(),
        ensures
            final(self).wf(),
            r is Ok,
            final(self).store_spec().utxos_map() == old(self).store_spec().utxos_map().insert(
                *outpoint,
                entry,
            ),
            final(self).store_spec().undo_map() == old(self).store_spec().undo_map(),
            final(self).store_spec().best_block_spec() == old(self).store_spec().best_block_spec(),
    {
        self.store.add_utxo(outpoint, entry)
    }

    pub fn del_utxo(&mut self, outpoint: &OutPoint) -> (r: Result<(), UtxoError>)
        requires
            old(self).wf(),
        ensures
            final(self).wf(),
            r is Ok,
            final(self).store_spec().utxos_map() == old(self).store_spec().utxos_map().remove(
                *outpoint,
            ),
            final(self).store_spec().undo_map() == old(self).store_spec().undo_map(),
            final(self).store_spec().best_block_spec() == old(self).store_spec().best_block_spec(),
    {
        self.store.del_utxo(outpoint)
    }

    pub fn get_utxo(&self, outpoint: &OutPoint) -> (r: Result<Option<Utxo>, UtxoError>)
        requires
            self.wf(),
        ensures
            r == Ok::<Option<Utxo>, UtxoError>(
                crate::utxo::utxo_at(self.store_spec().utxos_map(), *outpoint),
            ),
    {
        self.store.get_utxo(outpoint)
    }

    pub fn set_best_block_id(&mut self, block_id: &H256) -> (r: Result<(), UtxoError>)
        requires
            old(self).wf(),
        ensures
            final(self).wf(),
            r is Ok,
            final(self).store_spec().best_block_spec() == Some(*block_id),
            final(self).store_spec().utxos_map() == old(self).store_spec().utxos_map(),
            final(self).store_spec().undo_map() == old(self).store_spec().undo_map(),
    {
        self.store.set_best_block_for_utxos(block_id)
    }

    pub fn get_best_block_id(&self) -> (r: Result<Option<H256>, UtxoError>)
        requires
            self.wf(),
        ensures
            r == Ok::<Option<H256>, UtxoError>(self.store_spec().best_block_spec()),
    {
        self.store.get_best_block_for_utxos()
    }

    pub fn set_undo_data(&mut self, id: H256, undo: BlockUndo) -> (r: Result<(), UtxoError>)
        requires
            old(self).wf(),
        ensures
            final(self).wf(),
            r is Ok,
            final(self).store_spec().undo_map() == old(self).store_spec().undo_map().insert(
                id,
                undo,
            ),
            final(self).store_spec().utxos_map() == old(self).store_spec().utxos_map(),
            final(self).store_spec().best_block_spec() == old(self).store_spec().best_block_spec(),
    {
        self.store.add_undo_data(id, undo)
    }

    pub fn del_undo_data(&mut self, id: H256) -> (r: Result<(), UtxoError>)
        requires
            old(self).wf(),
        ensures
            final(self).wf(),
            r is Ok,
            final(self).store_spec().undo_map() == old(self).store_spec().undo_map().remove(id),
            final(self).store_spec().utxos_map() == old(self).store_spec().utxos_map(),
            final(self).store_spec().best_block_spec() == old(self).store_spec().best_block_spec(),
    {
        self.store.del_undo_data(id)
    }

    pub fn get_undo_data(&self, id: H256) -> (r: Result<Option<BlockUndo>, UtxoError>)
        requires
            self.wf(),
        ensures
            r matches Ok(o) && (match o {
                Some(u) => self.store_spec().undo_map().dom().contains(id)
                    && crate::utxo::block_undo_reward_view(u) == crate::utxo::block_undo_reward_view(
                    self.store_spec().undo_map()[id],
                ) && crate::utxo::block_undo_txs_view(u) == crate::utxo::block_undo_txs_view(
                    self.store_spec().undo_map()[id],
                ),
                None => !self.store_spec().undo_map().dom().contains(id),
            }),
    {
        self.store.get_undo_data(id)
    }
}

/// Read access to persisted UTXO state.
pub trait UtxosStorageRead {
    spec fn stored_utxos(&self) -> Map<OutPoint, Utxo>;

    spec fn stored_undos(&self) -> Map<H256, BlockUndo>;

    spec fn stored_best_block(&self) -> Option<H256>;

    spec fn storage_wf(&self) -> bool;

    fn get_utxo(&self, outpoint: &OutPoint) -> (r: Option<Utxo>)
        requires
            self.storage_wf(),
        ensures
            r == crate::utxo::utxo_at(self.stored_utxos(), *outpoint),
    ;

    fn get_best_block_for_utxos(&self) -> (r: Option<H256>)
        requires
            self.storage_wf(),
        ensures
            r == self.stored_best_block(),
    ;

    fn get_undo_data(&self, id: H256) -> (r: Option<BlockUndo>)
        requires
            self.storage_wf(),
        ensures
            match r {
                Some(u) => self.stored_undos().dom().contains(id)
                    && crate::utxo::block_undo_reward_view(u) == crate::utxo::block_undo_reward_view(
                    self.stored_undos()[id],
                ) && crate::utxo::block_undo_txs_view(u) == crate::utxo::block_undo_txs_view(
                    self.stored_undos()[id],
                ),
                None => !self.stored_undos().dom().contains(id),
            },
    ;
}

/// Write access to persisted UTXO state.
pub trait UtxosStorageWrite: UtxosStorageRead {
    fn set_utxo(&mut self, outpoint: &OutPoint, entry: Utxo)
        requires
            old(self).storage_wf(),
        ensures
            final(self).storage_wf(),
            final(self).stored_utxos() == old(self).stored_utxos().insert(*outpoint, entry),
            final(self).stored_undos() == old(self).stored_undos(),
            final(self).stored_best_block() == old(self).stored_best_block(),
    ;

    fn del_utxo(&mut self, outpoint: &OutPoint)
        requires
            old(self).storage_wf(),
        ensures
            final(self).storage_wf(),
            final(self).stored_utxos() == old(self).stored_utxos().remove(*outpoint),
            final(self).stored_undos() == old(self).stored_undos(),
            final(self).stored_best_block() == old(self).stored_best_block(),
    ;

    fn set_best_block_for_utxos(&mut self, block_id: &H256)
        requires
            old(self).storage_wf(),
        ensures
            final(self).storage_wf(),
            final(self).stored_best_block() == Some(*block_id),
            final(self).stored_utxos() == old(self).stored_utxos(),
            final(self).stored_undos() == old(self).stored_undos(),
    ;

    fn set_undo_data(&mut self, id: H256, undo: BlockUndo)
        requires
            old(self).storage_wf(),
        ensures
            final(self).storage_wf(),
            final(self).stored_undos() == old(self).stored_undos().insert(id, undo),
            final(self).stored_utxos() == old(self).stored_utxos(),
            final(self).stored_best_block() == old(self).stored_best_block(),
    ;

    fn del_undo_data(&mut self, id: H256)
        requires
            old(self).storage_wf(),
        ensures
            final(self).storage_wf(),
            final(self).stored_undos() == old(self).stored_undos().remove(id),
            final(self).stored_utxos() == old(self).stored_utxos(),
            final(self).stored_best_block() == old(self).stored_best_block(),
    ;
}

impl UtxosView for Store {
    open spec fn utxos(&self) -> Map<OutPoint, Utxo> {
        self.utxos_map()
    }

    open spec fn view_best_block(&self) -> Option<H256> {
        self.best_block_spec()
    }

    open spec fn view_wf(&self) -> bool {
        self.wf()
    }

    fn get_utxo_from_view(&self, outpoint: &OutPoint) -> (r: Option<Utxo>) {
        self.utxo.get_utxo(outpoint)
    }

    fn view_best_block_id(&self) -> (r: Option<H256>) {
        self.utxo.get_best_block_for_utxos()
    }
}

impl UtxosStorageRead for Store {
    open spec fn stored_utxos(&self) -> Map<OutPoint, Utxo> {
        self.utxos_map()
    }

    open spec fn stored_undos(&self) -> Map<H256, BlockUndo> {
        self.undo_map()
    }

    open spec fn stored_best_block(&self) -> Option<H256> {
        self.best_block_spec()
    }

    open spec fn storage_wf(&self) -> bool {
        self.wf()
    }

    fn get_utxo(&self, outpoint: &OutPoint) -> (r: Option<Utxo>) {
        self.utxo.get_utxo(outpoint)
    }

    fn get_best_block_for_utxos(&self) -> (r: Option<H256>) {
        self.utxo.get_best_block_for_utxos()
    }

    fn get_undo_data(&self, id: H256) -> (r: Option<BlockUndo>) {
        match self.utxo.get_undo_data(id) {
            Some(u) => Some(u.clone_undo()),
            None => None,
        }
    }
}

impl UtxosStorageWrite for Store {
    fn set_utxo(&mut self, outpoint: &OutPoint, entry: Utxo) {
        self.utxo.set_utxo(outpoint, entry);
    }

    fn del_utxo(&mut self, outpoint: &OutPoint) {
        self.utxo.del_utxo(outpoint);
    }

    fn set_best_block_for_utxos(&mut self, block_id: &H256) {
        self.utxo.set_best_block_for_utxos(block_id);
    }

    fn set_undo_data(&mut self, id: H256, undo: BlockUndo) {
        self.utxo.set_undo_data(id, undo);
    }

    fn del_undo_data(&mut self, id: H256) {
        self.utxo.del_undo_data(id);
    }
}

/// The UTXO database view over any UTXO persistence: calls pass through
/// to the wrapped storage unchanged.
pub struct UtxosDB<S>(pub S);

impl<S: UtxosStorageRead> UtxosStorageRead for UtxosDB<S> {
    open spec fn stored_utxos(&self) -> Map<OutPoint, Utxo> {
        self.0.stored_utxos()
    }

    open spec fn stored_undos(&self) -> Map<H256, BlockUndo> {
        self.0.stored_undos()
    }

    open spec fn stored_best_block(&self) -> Option<H256> {
        self.0.stored_best_block()
    }

    open spec fn storage_wf(&self) -> bool {
        self.0.storage_wf()
    }

    fn get_utxo(&self, outpoint: &OutPoint) -> (r: Option<Utxo>) {
        self.0.get_utxo(outpoint)
    }

    fn get_best_block_for_utxos(&self) -> (r: Option<H256>) {
        self.0.get_best_block_for_utxos()
    }

    fn get_undo_data(&self, id: H256) -> (r: Option<BlockUndo>) {
        self.0.get_undo_data(id)
    }
}

impl<S: UtxosStorageWrite> UtxosStorageWrite for UtxosDB<S> {
    fn set_utxo(&mut self, outpoint: &OutPoint, entry: Utxo) {
        self.0.set_utxo(outpoint, entry)
    }

    fn del_utxo(&mut self, outpoint: &OutPoint) {
        self.0.del_utxo(outpoint)
    }

    fn set_best_block_for_utxos(&mut self, block_id: &H256) {
        self.0.set_best_block_for_utxos(block_id)
    }

    fn set_undo_data(&mut self, id: H256, undo: BlockUndo) {
        self.0.set_undo_data(id, undo)
    }

    fn del_undo_data(&mut self, id: H256) {
        self.0.del_undo_data(id)
    }
}

} // verus!
