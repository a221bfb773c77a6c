//! The hierarchical transaction verifier: a stack of overlays, each
//! carrying a UTXO cache, a block-undo cache, an accounting-delta cache,
//! a token-issuance cache and a transaction-index cache. A child overlay
//! is consumed and flushed into its parent; conflicts are typed errors
//! and leave the conflicting cell unchanged.

use vstd::prelude::*;

use crate::delta::{
    collections_mergeable, merged_collections, DataDelta, DeltaDataCollection, DeltaError,
    DeltaValue,
};
use crate::primitives::{Amount, BlockHeight, H256};
use crate::transaction::{
    Destination, InputWitness, OutPoint, OutPointSourceId, OutputTimeLock, SignedTransaction,
    StakePoolData, Transaction, TxInput, TxOutput,
};
use crate::utxo::{
    caches_mergeable, merged_caches, utxo_at, BlockUndo, ConsumedUtxoCache, TxUndo, Utxo,
    UtxoError, UtxosCache, UtxosView,
};
use crate::vecmap::{merged_ops, ops_mergeable, CacheOp, MapKey, VecMap};

verus! {

/// Failures of the token subsystem.
#[derive(PartialEq, Eq, Structural, Clone, Copy, Debug)]
pub enum TokensError {
    /// Two layers registered an issuance under one token id.
    InvariantBrokenRegisterIssuanceWithDuplicateId(H256),
}

/// Failures of the transaction-index cache.
#[derive(PartialEq, Eq, Structural, Clone, Copy, Debug)]
pub enum TxIndexError {
    /// Two layers wrote an index for one outpoint.
    OutputAlreadyPresentInInputsCache,
}

/// Failures when a consumed overlay is flushed into its parent or into
/// storage.
#[derive(PartialEq, Eq, Structural, Clone, Copy, Debug)]
pub enum TransactionVerifierStorageError {
    /// Two layers recorded undo data for one block.
    DuplicateBlockUndo(H256),
    TokensError(TokensError),
    UtxoError(crate::utxo::UtxoError),
    TxIndexError(TxIndexError),
    AccountingError(DeltaError),
}

/// Where a transaction in the main chain sits: its block and its offset
/// within that block's serialization.
#[derive(PartialEq, Eq, Structural, Clone, Copy, Debug)]
pub struct TxMainChainPosition {
    pub block_id: H256,
    pub byte_offset: u32,
}

impl TxMainChainPosition {
    pub fn new(block_id: H256, byte_offset: u32) -> (r: Self)
        ensures
            r == (TxMainChainPosition { block_id, byte_offset }),
    {
        TxMainChainPosition { block_id, byte_offset }
    }
}

#[derive(PartialEq, Eq, Structural, Clone, Copy, Debug)]
pub enum TxMainChainIndexError {
    InvalidOutputCount,
}

/// The main-chain index entry of one transaction: its position and how
/// many outputs it has.
#[derive(PartialEq, Eq, Structural, Clone, Copy, Debug)]
pub struct TxMainChainIndex {
    pub position: TxMainChainPosition,
    pub output_count: u32,
}

impl TxMainChainIndex {
    pub fn new(position: TxMainChainPosition, output_count: u32) -> (r: Result<
        Self,
        TxMainChainIndexError,
    >)
        ensures
            output_count > 0 ==> r == Ok::<Self, TxMainChainIndexError>(
                TxMainChainIndex { position, output_count },
            ),
            output_count == 0 ==> r == Err::<Self, TxMainChainIndexError>(
                TxMainChainIndexError::InvalidOutputCount,
            ),
    {
        if output_count == 0 {
            Err(TxMainChainIndexError::InvalidOutputCount)
        } else {
            Ok(TxMainChainIndex { position, output_count })
        }
    }
}

/// A pending write or erase of one transaction-index entry.
#[derive(PartialEq, Eq, Structural, Clone, Copy, Debug)]
pub enum CachedInputsOperation {
    Write(TxMainChainIndex),
    Erase,
}

impl CacheOp for CachedInputsOperation {
    /// Two writes for one outpoint conflict; anything else is replaced.
    open spec fn conflicts_spec(p: Self, c: Self) -> bool {
        p is Write && c is Write
    }

    fn conflicts(p: &Self, c: &Self) -> (r: bool) {
        match (p, c) {
            (CachedInputsOperation::Write(_), CachedInputsOperation::Write(_)) => true,
            _ => false,
        }
    }
}

impl MapKey for OutPointSourceId {
    fn key_eq(&self, other: &Self) -> (r: bool)
        ensures
            r <==> self == other,
    {
        *self == *other
    }
}

/// The transaction-index overlay: per outpoint source, the pending
/// operation.
pub struct TxIndexCache {
    ops: VecMap<OutPointSourceId, CachedInputsOperation>,
}

impl TxIndexCache {
    pub closed spec fn view(&self) -> Map<OutPointSourceId, CachedInputsOperation> {
        self.ops@
    }

    pub closed spec fn wf(&self) -> bool {
        self.ops.wf()
    }

    pub fn new() -> (r: Self)
        ensures
            r.wf(),
            r@ == Map::<OutPointSourceId, CachedInputsOperation>::empty(),
    {
        TxIndexCache { ops: VecMap::new() }
    }

    /// A cache holding the given operations, for direct set-up.
    pub fn new_for_test(entries: Vec<(OutPointSourceId, CachedInputsOperation)>) -> (r: Self)
        ensures
            r.wf(),
    {
        let mut ops: VecMap<OutPointSourceId, CachedInputsOperation> = VecMap::new();
        let mut items = entries;
        while items.len() > 0
            invariant
                ops.wf(),
            decreases items@.len(),
        {
            let (k, v) = items.remove(0);
            ops.insert(k, v);
        }
        TxIndexCache { ops }
    }

    pub fn set_op(&mut self, key: OutPointSourceId, op: CachedInputsOperation)
        requires
            old(self).wf(),
        ensures
            final(self).wf(),
            final(self)@ == old(self)@.insert(key, op),
    {
        self.ops.insert(key, op);
    }

    /// Hand the operation map out.
    pub fn into_ops(self) -> (r: VecMap<OutPointSourceId, CachedInputsOperation>)
        ensures
            r@ == self@,
            r.wf() == self.wf(),
    {
        self.ops
    }

    pub fn get_op(&self, key: &OutPointSourceId) -> (r: Option<&CachedInputsOperation>)
        requires
            self.wf(),
        ensures
            match r {
                Some(op) => self@.dom().contains(*key) && *op == self@[*key],
                None => !self@.dom().contains(*key),
            },
    {
        self.ops.get(key)
    }
}

/// The auxiliary data a token issuance registers.
#[derive(PartialEq, Eq, Clone, Debug)]
pub struct TokenAuxiliaryData {
    pub issuance_tx: Transaction,
    pub issuance_block_id: H256,
}

impl TokenAuxiliaryData {
    pub fn new(issuance_tx: Transaction, issuance_block_id: H256) -> (r: Self)
        ensures
            r.issuance_tx == issuance_tx,
            r.issuance_block_id == issuance_block_id,
    {
        TokenAuxiliaryData { issuance_tx, issuance_block_id }
    }

    pub fn issuance_tx(&self) -> (r: &Transaction)
        ensures
            *r == self.issuance_tx,
    {
        &self.issuance_tx
    }
}

/// A pending write or erase of one token's auxiliary data.
#[derive(PartialEq, Eq, Clone, Debug)]
pub enum CachedAuxDataOp {
    Write(TokenAuxiliaryData),
    Erase,
}

impl CacheOp for CachedAuxDataOp {
    /// Registering one token id twice conflicts.
    open spec fn conflicts_spec(p: Self, c: Self) -> bool {
        p is Write && c is Write
    }

    fn conflicts(p: &Self, c: &Self) -> (r: bool) {
        match (p, c) {
            (CachedAuxDataOp::Write(_), CachedAuxDataOp::Write(_)) => true,
            _ => false,
        }
    }
}

/// A pending write or erase of one issuance-tx-to-token-id index cell.
#[derive(PartialEq, Eq, Structural, Clone, Copy, Debug)]
pub enum CachedTokenIndexOp {
    Write(H256),
    Erase,
}

impl CacheOp for CachedTokenIndexOp {
    /// The index tolerates rewrites: the child's operation wins.
    open spec fn conflicts_spec(p: Self, c: Self) -> bool {
        false
    }

    fn conflicts(p: &Self, c: &Self) -> (r: bool) {
        false
    }
}

/// The token-issuance overlay: token id to auxiliary data, and issuance
/// transaction to token id.
pub struct TokenIssuanceCache {
    aux: VecMap<H256, CachedAuxDataOp>,
    index: VecMap<H256, CachedTokenIndexOp>,
}

impl TokenIssuanceCache {
    pub closed spec fn aux_view(&self) -> Map<H256, CachedAuxDataOp> {
        self.aux@
    }

    pub closed spec fn index_view(&self) -> Map<H256, CachedTokenIndexOp> {
        self.index@
    }

    pub closed spec fn wf(&self) -> bool {
        self.aux.wf() && self.index.wf()
    }

    pub fn new() -> (r: Self)
        ensures
            r.wf(),
            r.aux_view() == Map::<H256, CachedAuxDataOp>::empty(),
            r.index_view() == Map::<H256, CachedTokenIndexOp>::empty(),
    {
        TokenIssuanceCache { aux: VecMap::new(), index: VecMap::new() }
    }

    /// A cache holding the given operations, for direct set-up.
    pub fn new_for_test(
        aux_entries: Vec<(H256, CachedAuxDataOp)>,
        index_entries: Vec<(H256, CachedTokenIndexOp)>,
    ) -> (r: Self)
        ensures
            r.wf(),
    {
        let mut aux: VecMap<H256, CachedAuxDataOp> = VecMap::new();
        let mut items = aux_entries;
        while items.len() > 0
            invariant
                aux.wf(),
            decreases items@.len(),
        {
            let (k, v) = items.remove(0);
            aux.insert(k, v);
        }
        let mut index: VecMap<H256, CachedTokenIndexOp> = VecMap::new();
        let mut items2 = index_entries;
        while items2.len() > 0
            invariant
                index.wf(),
            decreases items2@.len(),
        {
            let (k, v) = items2.remove(0);
            index.insert(k, v);
        }
        TokenIssuanceCache { aux, index }
    }

    /// Hand both operation maps out as entry lists.
    pub fn into_parts(self) -> (r: (Vec<(H256, CachedAuxDataOp)>, Vec<(H256, CachedTokenIndexOp)>))
        requires
            self.wf(),
        ensures
            crate::vecmap::distinct_keys(r.0@),
            crate::vecmap::assoc_map(r.0@) == self.aux_view(),
            crate::vecmap::distinct_keys(r.1@),
            crate::vecmap::assoc_map(r.1@) == self.index_view(),
    {
        (self.aux.into_entries(), self.index.into_entries())
    }
}

/// The undo record of one block held by an overlay: fresh where the
/// overlay recorded it (to be written), stale where it was taken from
/// storage and consumed (to be deleted).
#[derive(PartialEq, Eq, Clone, Debug)]
pub struct BlockUndoEntry {
    pub undo: BlockUndo,
    pub is_fresh: bool,
}

impl CacheOp for BlockUndoEntry {
    /// A second fresh undo record for one block conflicts.
    open spec fn conflicts_spec(p: Self, c: Self) -> bool {
        c.is_fresh
    }

    fn conflicts(p: &Self, c: &Self) -> (r: bool) {
        c.is_fresh
    }
}

impl DeltaValue for StakePoolData {
    fn value_eq(&self, other: &Self) -> (r: bool)
        ensures
            r <==> self == other,
    {
        *self == *other
    }

    fn value_clone(&self) -> (r: Self)
        ensures
            r == self,
    {
        *self
    }
}

/// One overlay of the transaction verifier, with its five sub-caches.
pub struct TransactionVerifier {
    pub utxo_cache: UtxosCache,
    pub utxo_block_undo: VecMap<H256, BlockUndoEntry>,
    pub pool_deltas: DeltaDataCollection<H256, StakePoolData>,
    pub token_issuance_cache: TokenIssuanceCache,
    pub tx_index_cache: TxIndexCache,
}

/// The accumulated overlay extracted from a verifier, ready to be
/// flushed into the parent.
pub struct TransactionVerifierDelta {
    pub utxo_cache: ConsumedUtxoCache,
    pub utxo_block_undo: VecMap<H256, BlockUndoEntry>,
    pub pool_deltas: DeltaDataCollection<H256, StakePoolData>,
    pub token_issuance_cache: TokenIssuanceCache,
    pub tx_index_cache: TxIndexCache,
}

impl TransactionVerifier {
    pub open spec fn wf(&self) -> bool {
        &&& self.utxo_cache.wf()
        &&& self.utxo_block_undo.wf()
        &&& self.pool_deltas.wf()
        &&& self.token_issuance_cache.wf()
        &&& self.tx_index_cache.wf()
    }

    /// A fresh overlay holding no divergence yet.
    pub fn new() -> (r: Self)
        ensures
            r.wf(),
            r.utxo_cache@ == Map::<crate::transaction::OutPoint, crate::utxo::UtxoStatus>::empty(),
            r.utxo_block_undo@ == Map::<H256, BlockUndoEntry>::empty(),
            r.pool_deltas@ == Map::<H256, DataDelta<StakePoolData>>::empty(),
            r.tx_index_cache@ == Map::<OutPointSourceId, CachedInputsOperation>::empty(),
    {
        TransactionVerifier {
            utxo_cache: UtxosCache::new(),
            utxo_block_undo: VecMap::new(),
            pool_deltas: DeltaDataCollection::new(),
            token_issuance_cache: TokenIssuanceCache::new(),
            tx_index_cache: TxIndexCache::new(),
        }
    }

    /// A nested overlay whose parent is this verifier. The child starts
    /// empty; its reads cascade through this verifier's view.
    pub fn derive_child(&self) -> (r: TransactionVerifier)
        ensures
            r.wf(),
            r.utxo_cache@ == Map::<crate::transaction::OutPoint, crate::utxo::UtxoStatus>::empty(),
            r.utxo_block_undo@ == Map::<H256, BlockUndoEntry>::empty(),
            r.pool_deltas@ == Map::<H256, DataDelta<StakePoolData>>::empty(),
            r.tx_index_cache@ == Map::<OutPointSourceId, CachedInputsOperation>::empty(),
    {
        TransactionVerifier::new()
    }

    /// Extract the accumulated overlay.
    pub fn consume(self) -> (r: Result<TransactionVerifierDelta, TransactionVerifierStorageError>)
        requires
            self.wf(),
        ensures
            r matches Ok(d) && d.utxo_cache.cache == self.utxo_cache && d.utxo_block_undo
                == self.utxo_block_undo && d.pool_deltas == self.pool_deltas
                && d.token_issuance_cache == self.token_issuance_cache && d.tx_index_cache
                == self.tx_index_cache,
    {
        Ok(
            TransactionVerifierDelta {
                utxo_cache: ConsumedUtxoCache { cache: self.utxo_cache },
                utxo_block_undo: self.utxo_block_undo,
                pool_deltas: self.pool_deltas,
                token_issuance_cache: self.token_issuance_cache,
                tx_index_cache: self.tx_index_cache,
            },
        )
    }

    /// Merge a consumed child overlay into this verifier, sub-cache by
    /// sub-cache. A conflict in any sub-cache stops the flush with its
    /// typed error; the conflicting cell is left unchanged, earlier
    /// sub-caches and cells stay merged.
    pub fn flush_into(&mut self, delta: TransactionVerifierDelta) -> (r: Result<
        (),
        TransactionVerifierStorageError,
    >)
        requires
            old(self).wf(),
            delta.utxo_cache.cache.wf(),
            delta.utxo_block_undo.wf(),
            delta.pool_deltas.wf(),
            delta.token_issuance_cache.wf(),
            delta.tx_index_cache.wf(),
        ensures
            final(self).wf(),
            flushable(*old(self), delta) ==> r == Ok::<(), TransactionVerifierStorageError>(())
                && final(self).utxo_cache@ == merged_caches(
                old(self).utxo_cache@,
                delta.utxo_cache.cache@,
            ) && final(self).utxo_block_undo@ == merged_ops(
                old(self).utxo_block_undo@,
                delta.utxo_block_undo@,
            ) && final(self).pool_deltas@ == merged_collections(
                old(self).pool_deltas@,
                delta.pool_deltas@,
            ) && final(self).tx_index_cache@ == merged_ops(
                old(self).tx_index_cache@,
                delta.tx_index_cache@,
            ) && final(self).token_issuance_cache.aux_view() == merged_ops(
                old(self).token_issuance_cache.aux_view(),
                delta.token_issuance_cache.aux_view(),
            ) && final(self).token_issuance_cache.index_view() == merged_ops(
                old(self).token_issuance_cache.index_view(),
                delta.token_issuance_cache.index_view(),
            ),
            r is Err ==> !flushable(*old(self), delta),
            r matches Err(TransactionVerifierStorageError::UtxoError(ue))
                ==> crate::utxo::flush_conflict_untouched(
                old(self).utxo_cache@,
                delta.utxo_cache.cache@,
                final(self).utxo_cache@,
                ue,
            ),
            r matches Err(TransactionVerifierStorageError::DuplicateBlockUndo(id)) ==> old(
                self,
            ).utxo_block_undo@.dom().contains(id) && delta.utxo_block_undo@.dom().contains(id)
                && delta.utxo_block_undo@[id].is_fresh && crate::vecmap::same_at(
                final(self).utxo_block_undo@,
                old(self).utxo_block_undo@,
                id,
            ),
            r matches Err(TransactionVerifierStorageError::AccountingError(de)) ==> de
                == DeltaError::DeltaChainMismatch && (exists|k: H256|
                #![trigger delta.pool_deltas@.dom().contains(k)]
                old(self).pool_deltas@.dom().contains(k) && delta.pool_deltas@.dom().contains(k)
                    && !crate::delta::chain_valid(old(self).pool_deltas@[k], delta.pool_deltas@[k])
                    && crate::delta::untouched_at(
                    final(self).pool_deltas@,
                    old(self).pool_deltas@,
                    k,
                )),
            r matches Err(
                TransactionVerifierStorageError::TokensError(
                    TokensError::InvariantBrokenRegisterIssuanceWithDuplicateId(tid),
                ),
            ) ==> old(self).token_issuance_cache.aux_view().dom().contains(tid)
                && delta.token_issuance_cache.aux_view().dom().contains(tid)
                && crate::vecmap::same_at(
                final(self).token_issuance_cache.aux_view(),
                old(self).token_issuance_cache.aux_view(),
                tid,
            ),
            r matches Err(TransactionVerifierStorageError::TxIndexError(_)) ==> (exists|
                k: OutPointSourceId,
            |
                #![trigger delta.tx_index_cache@.dom().contains(k)]
                old(self).tx_index_cache@.dom().contains(k) && delta.tx_index_cache@.dom().contains(
                    k,
                ) && old(self).tx_index_cache@[k] is Write && delta.tx_index_cache@[k] is Write
                    && crate::vecmap::same_at(
                    final(self).tx_index_cache@,
                    old(self).tx_index_cache@,
                    k,
                )),
    {
        let TransactionVerifierDelta {
            utxo_cache,
            utxo_block_undo,
            pool_deltas,
            token_issuance_cache,
            tx_index_cache,
        } = delta;
        match self.utxo_cache.flush_child(utxo_cache) {
            Ok(()) => {},
            Err(e) => {
                return Err(TransactionVerifierStorageError::UtxoError(e));
            },
        }
        match self.utxo_block_undo.merge_ops(utxo_block_undo) {
            Ok(()) => {},
            Err(block_id) => {
                return Err(TransactionVerifierStorageError::DuplicateBlockUndo(block_id));
            },
        }
        match self.pool_deltas.merge_delta_data(pool_deltas) {
            Ok(()) => {},
            Err(e) => {
                return Err(TransactionVerifierStorageError::AccountingError(e));
            },
        }
        let TokenIssuanceCache { aux, index } = token_issuance_cache;
        match self.token_issuance_cache.aux.merge_ops(aux) {
            Ok(()) => {},
            Err(token_id) => {
                return Err(
                    TransactionVerifierStorageError::TokensError(
                        TokensError::InvariantBrokenRegisterIssuanceWithDuplicateId(token_id),
                    ),
                );
            },
        }
        match self.token_issuance_cache.index.merge_ops(index) {
            Ok(()) => {},
            Err(_) => {
                return Err(
                    TransactionVerifierStorageError::TxIndexError(
                        TxIndexError::OutputAlreadyPresentInInputsCache,
                    ),
                );
            },
        }
        let TxIndexCache { ops } = tx_index_cache;
        match self.tx_index_cache.ops.merge_ops(ops) {
            Ok(()) => {},
            Err(_) => {
                return Err(
                    TransactionVerifierStorageError::TxIndexError(
                        TxIndexError::OutputAlreadyPresentInInputsCache,
                    ),
                );
            },
        }
        Ok(())
    }
}

/// Failures of consensus checks on a proof-of-stake block.
#[derive(PartialEq, Eq, Structural, Clone, Copy, Debug)]
pub enum SpendStakeError {
    /// The kernel's pool and the pool the reward declares differ.
    StakePoolIdMismatch(H256, H256),
    /// The block reward holds no output to carry the stake.
    NoKernelOutput,
    /// The kernel references an output no stake can be built on.
    WrongOutputType,
    /// A stake was spent without locking the recovered funds for the
    /// chain's decommission maturity.
    DecommissionMaturityViolation,
}

/// Failures when a transaction is connected or disconnected.
#[derive(PartialEq, Eq, Structural, Clone, Copy, Debug)]
pub enum ConnectTransactionError {
    /// An input references an output that is unknown or already spent.
    MissingOutputOrSpent,
    /// The transaction has no inputs.
    MissingTxInputs,
    /// The transaction has no outputs.
    MissingTxOutputs,
    /// A locked output was spent before its lock released it.
    TimeLockViolation,
    /// A witness does not fit the destination of the output it spends.
    SignatureVerificationFailed,
    /// A value sum does not fit the amount type.
    TxFeeTotalCalcFailed,
    /// The outputs carry more than the inputs provide: total input value,
    /// then total output value.
    AttemptToPrintMoney(Amount, Amount),
    /// An output variant only block rewards may carry appeared in a
    /// transaction.
    InvalidOutputTypeInTx,
    /// An output variant only transactions may carry appeared in a block
    /// reward.
    InvalidOutputTypeInReward,
    /// The UTXO set refused an operation.
    UtxoError(crate::utxo::UtxoError),
    /// A disconnect found an input's output already unspent.
    InvariantBrokenAlreadyUnspent,
    /// A disconnect was handed undo data of the wrong shape for the
    /// transaction.
    MissingTxUndo(H256),
    /// No undo data is stored for the block.
    MissingBlockUndo(H256),
    /// A consensus stake check failed.
    SpendStakeError(SpendStakeError),
    /// A flush below this verifier failed.
    TransactionVerifierError(TransactionVerifierStorageError),
    /// A height computation left the representable range.
    BlockHeightArithmeticError,
    /// The storage backend failed.
    StorageError,
}

/// Where a transaction comes from when it is connected: a block of the
/// chain at a known height, or the mempool atop the current best block.
#[derive(PartialEq, Eq, Structural, Clone, Copy, Debug)]
pub enum TransactionSourceForConnect {
    Chain { new_block_height: BlockHeight, block_id: H256 },
    Mempool { current_best_height: BlockHeight },
}

impl TransactionSourceForConnect {
    /// The height the transaction is evaluated at: the block's height, or
    /// the slot right above the best block for a mempool transaction.
    pub open spec fn expected_height(self) -> int {
        match self {
            TransactionSourceForConnect::Chain { new_block_height, .. } =>
                new_block_height.height as int,
            TransactionSourceForConnect::Mempool { current_best_height } =>
                current_best_height.height + 1,
        }
    }

    pub fn expected_height_exec(&self) -> (r: u64)
        requires
            self.expected_height() <= u64::MAX,
        ensures
            r == self.expected_height(),
    {
        match self {
            TransactionSourceForConnect::Chain { new_block_height, .. } => new_block_height.height,
            TransactionSourceForConnect::Mempool { current_best_height } =>
                current_best_height.height + 1,
        }
    }
}

/// The destination that must authorize spending an output.
pub open spec fn output_destination(o: TxOutput) -> Option<Destination> {
    match o {
        TxOutput::Transfer(_, d) => Some(d),
        TxOutput::LockThenTransfer(_, d, _) => Some(d),
        TxOutput::Burn(_) => None,
        TxOutput::CreateStakePool(_, data) => Some(data.staker),
        TxOutput::ProduceBlockFromStake(d, _) => Some(d),
        TxOutput::CreateDelegationId(d, _) => Some(d),
        TxOutput::DelegateStaking(_, _) => None,
    }
}

/// An anyone-can-spend output takes an empty witness; any other
/// destination takes a standard signature.
pub open spec fn witness_matches(o: TxOutput, w: InputWitness) -> bool {
    match output_destination(o) {
        Some(Destination::AnyoneCanSpend) => w is NoSignature,
        None => w is NoSignature,
        Some(_) => w is Standard,
    }
}

/// Whether a timelock releases at the given spend height an output
/// created at the given source height.
pub open spec fn timelock_released(lock: OutputTimeLock, source_height: int, spend_h: int) -> bool {
    match lock {
        OutputTimeLock::UntilHeight(h) => spend_h >= h.height,
        OutputTimeLock::ForBlockCount(c) => spend_h >= source_height + c,
    }
}

/// Whether the output held by a utxo may be consumed at the given
/// height. A locked output needs its lock released and, whatever the
/// lock says, can never be spent in the block that creates it; a stake
/// output likewise never leaves in its creating block.
pub open spec fn spendable_at(u: Utxo, spend_h: int) -> bool {
    match u.output {
        TxOutput::LockThenTransfer(_, _, lock) => timelock_released(
            lock,
            u.source_height.height as int,
            spend_h,
        ) && spend_h > u.source_height.height,
        TxOutput::CreateStakePool(_, _) => spend_h > u.source_height.height,
        TxOutput::ProduceBlockFromStake(_, _) => spend_h > u.source_height.height,
        _ => true,
    }
}

/// Whether a consumed output was a stake (a pool creation or a produced
/// block's stake), whose spend decommissions the pool.
pub open spec fn is_stake_output(o: TxOutput) -> bool {
    o is CreateStakePool || o is ProduceBlockFromStake
}

/// Whether the consumed outputs include a stake.
pub open spec fn spends_stake(spent: Seq<Utxo>) -> bool {
    exists|i: int| 0 <= i < spent.len() && is_stake_output(#[trigger] spent[i].output)
}

/// Whether every output locks its value for at least the decommission
/// maturity, as a stake-spending transaction must.
pub open spec fn outputs_decommission_locked(os: Seq<TxOutput>, maturity: u64) -> bool {
    forall|i: int|
        0 <= i < os.len() ==> ((#[trigger] os[i]) matches TxOutput::LockThenTransfer(
            _,
            _,
            OutputTimeLock::ForBlockCount(c),
        ) && c >= maturity)
}

/// One step of input consumption: the outpoint must be live, released
/// and authorized; the output moves from the set to the spent list.
pub open spec fn spend_step(
    acc: Result<(Map<OutPoint, Utxo>, Seq<Utxo>), ConnectTransactionError>,
    input: TxInput,
    w: InputWitness,
    spend_h: int,
) -> Result<(Map<OutPoint, Utxo>, Seq<Utxo>), ConnectTransactionError> {
    match acc {
        Err(e) => Err(e),
        Ok((m, spent)) => {
            if !m.dom().contains(input.outpoint) {
                Err(ConnectTransactionError::MissingOutputOrSpent)
            } else if !spendable_at(m[input.outpoint], spend_h) {
                Err(ConnectTransactionError::TimeLockViolation)
            } else if !witness_matches(m[input.outpoint].output, w) {
                Err(ConnectTransactionError::SignatureVerificationFailed)
            } else {
                Ok((m.remove(input.outpoint), spent.push(m[input.outpoint])))
            }
        },
    }
}

/// Consume the inputs one after the other, in order; the first failing
/// input decides the error.
pub open spec fn spend_inputs(
    eff: Map<OutPoint, Utxo>,
    inputs: Seq<TxInput>,
    wits: Seq<InputWitness>,
    spend_h: int,
) -> Result<(Map<OutPoint, Utxo>, Seq<Utxo>), ConnectTransactionError>
    decreases inputs.len(),
{
    if inputs.len() == 0 {
        Ok((eff, Seq::empty()))
    } else {
        spend_step(
            spend_inputs(eff, inputs.drop_last(), wits.take(inputs.len() - 1), spend_h),
            inputs.last(),
            wits[inputs.len() - 1],
            spend_h,
        )
    }
}

/// The total value a list of consumed outputs provides.
pub open spec fn sum_values(us: Seq<Utxo>) -> int
    decreases us.len(),
{
    if us.len() == 0 {
        0
    } else {
        sum_values(us.drop_last()) + crate::transaction::output_value(us.last().output)
    }
}

/// The total value a list of outputs carries.
pub open spec fn sum_outputs(os: Seq<TxOutput>) -> int
    decreases os.len(),
{
    if os.len() == 0 {
        0
    } else {
        sum_outputs(os.drop_last()) + crate::transaction::output_value(os.last())
    }
}

/// Transactions may not carry reward-only output variants.
pub open spec fn valid_tx_outputs(os: Seq<TxOutput>) -> bool {
    forall|i: int| 0 <= i < os.len() ==> !(#[trigger] os[i] is ProduceBlockFromStake)
}

/// Which outputs enter the UTXO set when created: value transfers and
/// stakes do, burns and pure accounting declarations do not.
pub open spec fn is_spendable_output(o: TxOutput) -> bool {
    match o {
        TxOutput::Transfer(_, _) => true,
        TxOutput::LockThenTransfer(_, _, _) => true,
        TxOutput::Burn(_) => false,
        TxOutput::CreateStakePool(_, _) => true,
        TxOutput::ProduceBlockFromStake(_, _) => true,
        TxOutput::CreateDelegationId(_, _) => false,
        TxOutput::DelegateStaking(_, _) => false,
    }
}

/// The outpoint of the `i`-th output of a transaction.
pub open spec fn op_of(tx_id: H256, i: int) -> OutPoint {
    OutPoint { source_id: OutPointSourceId::Transaction(tx_id), index: i as u32 }
}

/// Insert the spendable outputs of a transaction from index `idx` on.
pub open spec fn add_outputs_from(
    m: Map<OutPoint, Utxo>,
    tx_id: H256,
    os: Seq<TxOutput>,
    idx: int,
    spend_h: int,
) -> Map<OutPoint, Utxo>
    decreases os.len() - idx,
{
    if idx < 0 || idx >= os.len() {
        m
    } else {
        let m2 = if is_spendable_output(os[idx]) {
            m.insert(
                op_of(tx_id, idx),
                Utxo {
                    output: os[idx],
                    is_block_reward: false,
                    source_height: BlockHeight { height: spend_h as u64 },
                },
            )
        } else {
            m
        };
        add_outputs_from(m2, tx_id, os, idx + 1, spend_h)
    }
}

/// Whether creating the transaction's outputs would overwrite a live
/// output.
pub open spec fn outputs_collide(m: Map<OutPoint, Utxo>, tx_id: H256, os: Seq<TxOutput>) -> bool {
    exists|i: int|
        0 <= i < os.len() && #[trigger] is_spendable_output(os[i]) && m.dom().contains(
            op_of(tx_id, i),
        )
}

/// What a successful connect leaves behind: the new UTXO set, the
/// consumed outputs in input order, and the fee.
pub struct ConnectOutcome {
    pub utxos: Map<OutPoint, Utxo>,
    pub spent: Seq<Utxo>,
    pub fee: int,
}

/// The outcome of connecting one transaction to a UTXO set at a height:
/// the full §verification pipeline, check by check.
pub open spec fn connect_tx_spec(
    eff: Map<OutPoint, Utxo>,
    tx: SignedTransaction,
    tx_id: H256,
    spend_h: int,
    decommission_maturity: u64,
) -> Result<ConnectOutcome, ConnectTransactionError> {
    let ins = crate::transaction::tx_inputs(tx.transaction);
    let outs = crate::transaction::tx_outputs(tx.transaction);
    if ins.len() == 0 {
        Err(ConnectTransactionError::MissingTxInputs)
    } else if outs.len() == 0 {
        Err(ConnectTransactionError::MissingTxOutputs)
    } else if !valid_tx_outputs(outs) {
        Err(ConnectTransactionError::InvalidOutputTypeInTx)
    } else {
        match spend_inputs(eff, ins, tx.witnesses@, spend_h) {
            Err(e) => Err(e),
            Ok((m, spent)) => {
                if spends_stake(spent) && !outputs_decommission_locked(
                    outs,
                    decommission_maturity,
                ) {
                    Err(
                        ConnectTransactionError::SpendStakeError(
                            SpendStakeError::DecommissionMaturityViolation,
                        ),
                    )
                } else if sum_values(spent) > u128::MAX || sum_outputs(outs) > u128::MAX {
                    Err(ConnectTransactionError::TxFeeTotalCalcFailed)
                } else if sum_outputs(outs) > sum_values(spent) {
                    Err(
                        ConnectTransactionError::AttemptToPrintMoney(
                            Amount { atoms: sum_values(spent) as u128 },
                            Amount { atoms: sum_outputs(outs) as u128 },
                        ),
                    )
                } else if outputs_collide(m, tx_id, outs) {
                    Err(ConnectTransactionError::UtxoError(UtxoError::OverwritingUtxo))
                } else {
                    Ok(
                        ConnectOutcome {
                            utxos: add_outputs_from(m, tx_id, outs, 0, spend_h),
                            spent,
                            fee: sum_values(spent) - sum_outputs(outs),
                        },
                    )
                }
            },
        }
    }
}

/// A failed prefix decides the whole input consumption.
proof fn lemma_spend_inputs_err_prefix(
    eff: Map<OutPoint, Utxo>,
    inputs: Seq<TxInput>,
    wits: Seq<InputWitness>,
    spend_h: int,
    i: int,
)
    requires
        0 <= i <= inputs.len(),
        wits.len() == inputs.len(),
        spend_inputs(eff, inputs.take(i), wits.take(i), spend_h) is Err,
    ensures
        spend_inputs(eff, inputs, wits, spend_h) == spend_inputs(
            eff,
            inputs.take(i),
            wits.take(i),
            spend_h,
        ),
    decreases inputs.len() - i,
{
    if i < inputs.len() {
        assert(inputs.take(i + 1).drop_last() =~= inputs.take(i));
        assert((wits.take(i + 1)).take(i) =~= wits.take(i));
        lemma_spend_inputs_err_prefix(eff, inputs, wits, spend_h, i + 1);
    } else {
        assert(inputs.take(i) =~= inputs);
        assert(wits.take(i) =~= wits);
    }
}

/// The shape of a successful input consumption: as many spent outputs as
/// inputs, each taken live from the set at its input's outpoint, the
/// outpoints pairwise distinct, and the remaining set the original less
/// exactly those outpoints.
pub open spec fn spend_shape(
    eff: Map<OutPoint, Utxo>,
    inputs: Seq<TxInput>,
    m: Map<OutPoint, Utxo>,
    spent: Seq<Utxo>,
) -> bool {
    &&& spent.len() == inputs.len()
    &&& (forall|j: int|
        0 <= j < inputs.len() ==> eff.dom().contains(#[trigger] inputs[j].outpoint) && spent[j]
            == eff[inputs[j].outpoint])
    &&& (forall|i: int, j: int|
        0 <= i < j < inputs.len() ==> (#[trigger] inputs[i].outpoint) != (
        #[trigger] inputs[j].outpoint))
    &&& (forall|k: OutPoint|
        #[trigger] m.dom().contains(k) <==> (eff.dom().contains(k) && !inputs_spend(inputs, k)))
    &&& (forall|k: OutPoint| #[trigger] m.dom().contains(k) ==> m[k] == eff[k])
}

/// Whether some input consumes the outpoint.
pub open spec fn inputs_spend(inputs: Seq<TxInput>, k: OutPoint) -> bool {
    exists|j: int| 0 <= j < inputs.len() && (#[trigger] inputs[j].outpoint) == k
}

/// A successful input consumption has the shape above.
proof fn lemma_spend_inputs_ok_shape(
    eff: Map<OutPoint, Utxo>,
    inputs: Seq<TxInput>,
    wits: Seq<InputWitness>,
    spend_h: int,
    m: Map<OutPoint, Utxo>,
    spent: Seq<Utxo>,
)
    requires
        wits.len() == inputs.len(),
        spend_inputs(eff, inputs, wits, spend_h) == Ok::<
            (Map<OutPoint, Utxo>, Seq<Utxo>),
            ConnectTransactionError,
        >((m, spent)),
    ensures
        spend_shape(eff, inputs, m, spent),
    decreases inputs.len(),
{
    if inputs.len() == 0 {
        assert forall|k: OutPoint| #[trigger] m.dom().contains(k) implies (eff.dom().contains(k)
            && !inputs_spend(inputs, k)) by {}
    } else {
        let prefix = inputs.drop_last();
        let wprefix = wits.take(inputs.len() - 1);
        let sub = spend_inputs(eff, prefix, wprefix, spend_h);
        let (m0, sp0) = sub.unwrap();
        lemma_spend_inputs_ok_shape(eff, prefix, wprefix, spend_h, m0, sp0);
        let last_op = inputs.last().outpoint;
        assert(m == m0.remove(last_op));
        assert(spent == sp0.push(m0[last_op]));
        assert forall|j: int| 0 <= j < inputs.len() implies eff.dom().contains(
            #[trigger] inputs[j].outpoint,
        ) && spent[j] == eff[inputs[j].outpoint] by {
            if j < inputs.len() - 1 {
                assert(prefix[j] == inputs[j]);
            } else {
                assert(m0.dom().contains(last_op));
            }
        }
        assert forall|i: int, j: int| 0 <= i < j < inputs.len() implies (
        #[trigger] inputs[i].outpoint) != (#[trigger] inputs[j].outpoint) by {
            if j < inputs.len() - 1 {
                assert(prefix[i] == inputs[i] && prefix[j] == inputs[j]);
            } else {
                assert(prefix[i] == inputs[i]);
                assert(m0.dom().contains(last_op));
                if inputs[i].outpoint == last_op {
                    assert(inputs_spend(prefix, last_op));
                }
            }
        }
        assert forall|k: OutPoint| #[trigger] m.dom().contains(k) <==> (eff.dom().contains(k)
            && !inputs_spend(inputs, k)) by {
            if inputs_spend(prefix, k) {
                assert(inputs_spend(inputs, k)) by {
                    let j = choose|j: int| 0 <= j < prefix.len() && prefix[j].outpoint == k;
                    assert(inputs[j].outpoint == k);
                }
            }
            if k != last_op && inputs_spend(inputs, k) {
                let j = choose|j: int| 0 <= j < inputs.len() && inputs[j].outpoint == k;
                if j < inputs.len() - 1 {
                    assert(prefix[j].outpoint == k);
                    assert(inputs_spend(prefix, k));
                }
            }
        }
    }
}

/// Check one consumed output against its lock and its witness.
fn check_input_spendable(u: &Utxo, w: &InputWitness, spend_h: u64) -> (r: Result<
    (),
    ConnectTransactionError,
>)
    ensures
        !spendable_at(*u, spend_h as int) ==> r == Err::<(), ConnectTransactionError>(
            ConnectTransactionError::TimeLockViolation,
        ),
        spendable_at(*u, spend_h as int) && !witness_matches(u.output, *w) ==> r == Err::<
            (),
            ConnectTransactionError,
        >(ConnectTransactionError::SignatureVerificationFailed),
        spendable_at(*u, spend_h as int) && witness_matches(u.output, *w) ==> r == Ok::<
            (),
            ConnectTransactionError,
        >(()),
{
    let released = match &u.output {
        TxOutput::LockThenTransfer(_, _, lock) => (match lock {
            OutputTimeLock::UntilHeight(h) => spend_h >= h.height,
            OutputTimeLock::ForBlockCount(c) => spend_h as u128 >= u.source_height.height as u128
                + *c as u128,
        }) && spend_h > u.source_height.height,
        TxOutput::CreateStakePool(_, _) => spend_h > u.source_height.height,
        TxOutput::ProduceBlockFromStake(_, _) => spend_h > u.source_height.height,
        _ => true,
    };
    if !released {
        return Err(ConnectTransactionError::TimeLockViolation);
    }
    let anyone = match &u.output {
        TxOutput::Transfer(_, d) => matches!(d, Destination::AnyoneCanSpend),
        TxOutput::LockThenTransfer(_, d, _) => matches!(d, Destination::AnyoneCanSpend),
        TxOutput::Burn(_) => true,
        TxOutput::CreateStakePool(_, data) => matches!(data.staker, Destination::AnyoneCanSpend),
        TxOutput::ProduceBlockFromStake(d, _) => matches!(d, Destination::AnyoneCanSpend),
        TxOutput::CreateDelegationId(d, _) => matches!(d, Destination::AnyoneCanSpend),
        TxOutput::DelegateStaking(_, _) => true,
    };
    let wit_ok = match w {
        InputWitness::NoSignature(_) => anyone,
        InputWitness::Standard(_) => !anyone,
    };
    if !wit_ok {
        return Err(ConnectTransactionError::SignatureVerificationFailed);
    }
    Ok(())
}

impl TransactionVerifier {
    /// Connect a transaction: consume its inputs, run the timelock,
    /// authorization and value checks, create its outputs, record the
    /// undo data under the block (for a chain source), and hand the fee
    /// back. On an error nothing in the verifier has changed, and the
    /// error is exactly what the connect pipeline assigns to the input.
    #[verifier::rlimit(100)]
    #[verifier::loop_isolation(false)]
    pub fn connect_transaction<V: UtxosView>(
        &mut self,
        parent: &V,
        source: &TransactionSourceForConnect,
        tx: &SignedTransaction,
        decommission_maturity: u64,
    ) -> (r: Result<Amount, ConnectTransactionError>)
        requires
            old(self).wf(),
            parent.view_wf(),
            tx.wf(),
            crate::utxo::fresh_consistent(old(self).utxo_cache@, parent.utxos()),
            source.expected_height() <= u64::MAX,
            crate::transaction::tx_outputs(tx.transaction).len() <= u32::MAX,
        ensures
            final(self).wf(),
            crate::utxo::fresh_consistent(final(self).utxo_cache@, parent.utxos()),
            final(self).pool_deltas@ == old(self).pool_deltas@,
            final(self).tx_index_cache@ == old(self).tx_index_cache@,
            final(self).utxo_cache.best_block_spec() == old(self).utxo_cache.best_block_spec(),
            match connect_tx_spec(
                crate::utxo::effective_utxos(old(self).utxo_cache@, parent.utxos()),
                *tx,
                crate::encode::tx_id_spec(tx.transaction),
                source.expected_height(),
                decommission_maturity,
            ) {
                Ok(outcome) => r == Ok::<Amount, ConnectTransactionError>(
                    Amount { atoms: outcome.fee as u128 },
                ) && crate::utxo::effective_utxos(final(self).utxo_cache@, parent.utxos())
                    == outcome.utxos && (match *source {
                    TransactionSourceForConnect::Chain { block_id, .. } => undo_recorded(
                        old(self).utxo_block_undo@,
                        final(self).utxo_block_undo@,
                        block_id,
                        outcome.spent,
                    ),
                    TransactionSourceForConnect::Mempool { .. } => final(self).utxo_block_undo@
                        == old(self).utxo_block_undo@,
                }),
                Err(e) => r == Err::<Amount, ConnectTransactionError>(e) && final(self).utxo_cache@
                    == old(self).utxo_cache@ && final(self).utxo_block_undo@ == old(
                    self,
                ).utxo_block_undo@,
            },
    {
        let ghost eff = crate::utxo::effective_utxos(self.utxo_cache@, parent.utxos());
        let spend_h = source.expected_height_exec();
        let tx_id = tx.transaction.get_id();
        let inputs = tx.inputs();
        let outputs = tx.outputs();
        let n_in = inputs.len();
        let n_out = outputs.len();
        if n_in == 0 {
            return Err(ConnectTransactionError::MissingTxInputs);
        }
        if n_out == 0 {
            return Err(ConnectTransactionError::MissingTxOutputs);
        }
        // Reward-only output variants may not appear in a transaction.
        let mut oi: usize = 0;
        while oi < n_out
            invariant
                oi <= n_out,
                *self == *old(self),
                self.wf(),
                n_out == crate::transaction::tx_outputs(tx.transaction).len(),
                outputs@ == crate::transaction::tx_outputs(tx.transaction),
                forall|i: int|
                    0 <= i < oi ==> !(#[trigger] crate::transaction::tx_outputs(
                        tx.transaction,
                    )[i] is ProduceBlockFromStake),
            decreases n_out - oi,
        {
            if let TxOutput::ProduceBlockFromStake(_, _) = &outputs[oi] {
                return Err(ConnectTransactionError::InvalidOutputTypeInTx);
            }
            oi = oi + 1;
        }
        // Walk the inputs read-only: existence, locks and authorization;
        // nothing is changed yet.
        let ghost wits = tx.witnesses@;
        let mut prevals: Vec<Utxo> = Vec::new();
        let mut i: usize = 0;
        let ghost ins = crate::transaction::tx_inputs(tx.transaction);
        while i < n_in
            invariant
                i <= n_in,
                self.wf(),
                parent.view_wf(),
                tx.wf(),
                *self == *old(self),
                eff == crate::utxo::effective_utxos(self.utxo_cache@, parent.utxos()),
                n_in == ins.len(),
                inputs@ == ins,
                wits == tx.witnesses@,
                ins == crate::transaction::tx_inputs(tx.transaction),
                spend_h == source.expected_height(),
                spend_inputs(eff, ins.take(i as int), wits.take(i as int), spend_h as int) matches Ok(p)
                    && prevals@ == p.1 && spend_shape(eff, ins.take(i as int), p.0, p.1),
            decreases n_in - i,
        {
            let ghost pre = spend_inputs(eff, ins.take(i as int), wits.take(i as int), spend_h as int);
            let ghost m_i = pre.unwrap().0;
            let ghost sp_i = pre.unwrap().1;
            proof {
                assert(ins.take(i + 1 as int).drop_last() =~= ins.take(i as int));
                assert((wits.take(i + 1 as int)).take(i as int) =~= wits.take(i as int));
                assert(ins.take(i + 1 as int).last() == ins[i as int]);
                assert((wits.take(i + 1 as int))[i as int] == wits[i as int]);
            }
            let op = inputs[i].outpoint;
            // A duplicate of an earlier input is already consumed.
            let mut j: usize = 0;
            let mut dup = false;
            while j < i
                invariant
                    j <= i,
                    i < n_in,
                    *self == *old(self),
                    self.wf(),
                    eff == crate::utxo::effective_utxos(self.utxo_cache@, parent.utxos()),
                    n_in == ins.len(),
                    inputs@ == ins,
                    op == ins[i as int].outpoint,
                    dup <==> (exists|t: int| 0 <= t < j && (#[trigger] ins[t].outpoint) == op),
                decreases i - j,
            {
                if inputs[j].outpoint == op {
                    dup = true;
                }
                j = j + 1;
            }
            proof {
                assert(dup <==> inputs_spend(ins.take(i as int), op)) by {
                    if dup {
                        let t = choose|t: int| 0 <= t < i && ins[t].outpoint == op;
                        assert(ins.take(i as int)[t].outpoint == op);
                    }
                    if inputs_spend(ins.take(i as int), op) {
                        let t = choose|t: int|
                            0 <= t < i && (ins.take(i as int))[t].outpoint == op;
                        assert(ins[t].outpoint == op);
                    }
                }
            }
            let found = self.utxo_cache.get_utxo(parent, &op);
            match found {
                None => {
                    proof {
                        assert(!m_i.dom().contains(op));
                        lemma_spend_inputs_err_prefix(eff, ins, wits, spend_h as int, i + 1);
                    }
                    return Err(ConnectTransactionError::MissingOutputOrSpent);
                },
                Some(u) => {
                    if dup {
                        proof {
                            assert(!m_i.dom().contains(op));
                            lemma_spend_inputs_err_prefix(eff, ins, wits, spend_h as int, i + 1);
                        }
                        return Err(ConnectTransactionError::MissingOutputOrSpent);
                    }
                    proof {
                        assert(m_i.dom().contains(op) && m_i[op] == u);
                    }
                    match check_input_spendable(&u, &tx.witnesses[i], spend_h) {
                        Err(e) => {
                            proof {
                                lemma_spend_inputs_err_prefix(
                                    eff,
                                    ins,
                                    wits,
                                    spend_h as int,
                                    i + 1,
                                );
                            }
                            return Err(e);
                        },
                        Ok(()) => {},
                    }
                    proof {
                        assert(witness_matches(u.output, wits[i as int]));
                        assert(spend_inputs(
                            eff,
                            ins.take(i + 1 as int),
                            wits.take(i + 1 as int),
                            spend_h as int,
                        ) == Ok::<(Map<OutPoint, Utxo>, Seq<Utxo>), ConnectTransactionError>(
                            (m_i.remove(op), sp_i.push(u)),
                        ));
                        lemma_spend_inputs_ok_shape(
                            eff,
                            ins.take(i + 1 as int),
                            wits.take(i + 1 as int),
                            spend_h as int,
                            m_i.remove(op),
                            sp_i.push(u),
                        );
                        assert(sp_i.push(u).drop_last() =~= sp_i);
                    }
                    prevals.push(u);
                },
            }
            i = i + 1;
        }
        proof {
            assert(ins.take(n_in as int) =~= ins);
            assert(wits.take(n_in as int) =~= wits);
        }
        let ghost full = spend_inputs(eff, ins, wits, spend_h as int);
        let ghost m_n = full.unwrap().0;
        let ghost sp_n = full.unwrap().1;
        let ghost outs = crate::transaction::tx_outputs(tx.transaction);
        // A stake spend decommissions its pool: every output must then
        // lock its value for at least the maturity distance.
        let mut any_stake = false;
        let mut sk: usize = 0;
        while sk < n_in
            invariant
                sk <= n_in,
                *self == *old(self),
                self.wf(),
                n_in == sp_n.len(),
                prevals@ == sp_n,
                any_stake <==> (exists|t: int|
                    0 <= t < sk && is_stake_output(#[trigger] sp_n[t].output)),
            decreases n_in - sk,
        {
            let staked = match &prevals[sk].output {
                TxOutput::CreateStakePool(_, _) => true,
                TxOutput::ProduceBlockFromStake(_, _) => true,
                _ => false,
            };
            if staked {
                any_stake = true;
            }
            sk = sk + 1;
        }
        proof {
            assert(any_stake <==> spends_stake(sp_n));
        }
        if any_stake {
            let mut dk: usize = 0;
            while dk < n_out
                invariant
                    dk <= n_out,
                    *self == *old(self),
                    self.wf(),
                    n_out == outs.len(),
                    outputs@ == outs,
                    forall|t: int|
                        0 <= t < dk ==> ((#[trigger] outs[t])
                            matches TxOutput::LockThenTransfer(
                            _,
                            _,
                            OutputTimeLock::ForBlockCount(c),
                        ) && c >= decommission_maturity),
                decreases n_out - dk,
            {
                let ok_out = match &outputs[dk] {
                    TxOutput::LockThenTransfer(_, _, OutputTimeLock::ForBlockCount(c)) => *c
                        >= decommission_maturity,
                    _ => false,
                };
                if !ok_out {
                    proof {
                        assert(!outputs_decommission_locked(outs, decommission_maturity));
                    }
                    return Err(
                        ConnectTransactionError::SpendStakeError(
                            SpendStakeError::DecommissionMaturityViolation,
                        ),
                    );
                }
                dk = dk + 1;
            }
            proof {
                assert(outputs_decommission_locked(outs, decommission_maturity));
            }
        }
        // Sum the consumed values.
        let mut in_sum: u128 = 0;
        let mut si: usize = 0;
        while si < n_in
            invariant
                si <= n_in,
                *self == *old(self),
                self.wf(),
                n_in == sp_n.len(),
                prevals@ == sp_n,
                in_sum == sum_values(sp_n.take(si as int)),
            decreases n_in - si,
        {
            proof {
                assert(sp_n.take(si + 1 as int).drop_last() =~= sp_n.take(si as int));
            }
            match in_sum.checked_add(prevals[si].output.value_atoms()) {
                Some(v) => {
                    in_sum = v;
                },
                None => {
                    proof {
                        lemma_sum_values_grows(sp_n);
                    }
                    return Err(ConnectTransactionError::TxFeeTotalCalcFailed);
                },
            }
            si = si + 1;
        }
        proof {
            assert(sp_n.take(n_in as int) =~= sp_n);
        }
        // Sum the outputs.
        let mut out_sum: u128 = 0;
        let mut k: usize = 0;
        while k < n_out
            invariant
                k <= n_out,
                *self == *old(self),
                self.wf(),
                n_out == outs.len(),
                outputs@ == outs,
                out_sum == sum_outputs(outs.take(k as int)),
            decreases n_out - k,
        {
            proof {
                assert(outs.take(k + 1 as int).drop_last() =~= outs.take(k as int));
            }
            match out_sum.checked_add(outputs[k].value_atoms()) {
                Some(s) => {
                    out_sum = s;
                },
                None => {
                    proof {
                        lemma_sum_outputs_grows(outs, k + 1);
                    }
                    return Err(ConnectTransactionError::TxFeeTotalCalcFailed);
                },
            }
            k = k + 1;
        }
        proof {
            assert(outs.take(n_out as int) =~= outs);
        }
        if out_sum > in_sum {
            return Err(
                ConnectTransactionError::AttemptToPrintMoney(
                    Amount { atoms: in_sum },
                    Amount { atoms: out_sum },
                ),
            );
        }
        // Creating the outputs may not overwrite live outputs.
        let mut c: usize = 0;
        while c < n_out
            invariant
                c <= n_out,
                self.wf(),
                parent.view_wf(),
                *self == *old(self),
                n_out == outs.len(),
                n_out <= u32::MAX,
                outputs@ == outs,
                inputs@ == ins,
                n_in == ins.len(),
                eff == crate::utxo::effective_utxos(self.utxo_cache@, parent.utxos()),
                tx_id == crate::encode::tx_id_spec(tx.transaction),
                spend_shape(eff, ins, m_n, sp_n),
                forall|t: int|
                    0 <= t < c ==> !(#[trigger] is_spendable_output(outs[t]) && m_n.dom().contains(
                        op_of(tx_id, t),
                    )),
            decreases n_out - c,
        {
            let spendable = match &outputs[c] {
                TxOutput::Transfer(_, _) => true,
                TxOutput::LockThenTransfer(_, _, _) => true,
                TxOutput::Burn(_) => false,
                TxOutput::CreateStakePool(_, _) => true,
                TxOutput::ProduceBlockFromStake(_, _) => true,
                TxOutput::CreateDelegationId(_, _) => false,
                TxOutput::DelegateStaking(_, _) => false,
            };
            if spendable {
                let op = OutPoint {
                    source_id: OutPointSourceId::Transaction(tx_id),
                    index: c as u32,
                };
                proof {
                    assert(op == op_of(tx_id, c as int));
                }
                let live = self.utxo_cache.get_utxo(parent, &op);
                if live.is_some() {
                    // Live and not consumed by this very transaction.
                    let mut q: usize = 0;
                    let mut among_inputs = false;
                    while q < n_in
                        invariant
                            q <= n_in,
                            *self == *old(self),
                            self.wf(),
                            n_in == ins.len(),
                            inputs@ == ins,
                            among_inputs <==> (exists|t: int|
                                0 <= t < q && (#[trigger] ins[t].outpoint) == op),
                        decreases n_in - q,
                    {
                        if inputs[q].outpoint == op {
                            among_inputs = true;
                        }
                        q = q + 1;
                    }
                    if !among_inputs {
                        proof {
                            assert(eff.dom().contains(op) && !inputs_spend(ins, op));
                            assert(m_n.dom().contains(op));
                            assert(is_spendable_output(outs[c as int]));
                            assert(outputs_collide(m_n, tx_id, outs));
                        }
                        return Err(ConnectTransactionError::UtxoError(UtxoError::OverwritingUtxo));
                    }
                    proof {
                        assert(inputs_spend(ins, op));
                        assert(!m_n.dom().contains(op));
                    }
                }
                proof {
                    if live is None {
                        assert(!m_n.dom().contains(op));
                    }
                }
            }
            c = c + 1;
        }
        proof {
            assert(!outputs_collide(m_n, tx_id, outs));
        }
        // All checks hold; now consume the inputs ...
        let mut spent: Vec<Utxo> = Vec::new();
        let mut s: usize = 0;
        while s < n_in
            invariant
                s <= n_in,
                self.wf(),
                parent.view_wf(),
                crate::utxo::fresh_consistent(self.utxo_cache@, parent.utxos()),
                n_in == ins.len(),
                inputs@ == ins,
                spend_shape(eff, ins, m_n, sp_n),
                spent@ == sp_n.take(s as int),
                crate::utxo::effective_utxos(self.utxo_cache@, parent.utxos())
                    == remove_prefix_ops(eff, ins, s as int),
                self.utxo_block_undo@ == old(self).utxo_block_undo@,
                self.pool_deltas@ == old(self).pool_deltas@,
                self.tx_index_cache@ == old(self).tx_index_cache@,
                self.token_issuance_cache.aux_view() == old(self).token_issuance_cache.aux_view(),
                self.token_issuance_cache.index_view() == old(
                    self,
                ).token_issuance_cache.index_view(),
                self.utxo_cache.best_block_spec() == old(self).utxo_cache.best_block_spec(),
            decreases n_in - s,
        {
            let op = inputs[s].outpoint;
            proof {
                lemma_remove_prefix_contains(eff, ins, s as int);
            }
            let res = self.utxo_cache.spend_utxo(parent, &op);
            match res {
                Ok(u) => {
                    spent.push(u);
                    proof {
                        assert(spent@ =~= sp_n.take(s + 1 as int));
                        assert(crate::utxo::effective_utxos(self.utxo_cache@, parent.utxos())
                            =~= remove_prefix_ops(eff, ins, s + 1 as int));
                    }
                },
                Err(_) => {
                    proof {
                        assert(false);
                    }
                    return Err(ConnectTransactionError::MissingOutputOrSpent);
                },
            }
            s = s + 1;
        }
        proof {
            assert(remove_prefix_ops(eff, ins, n_in as int) =~= m_n) by {
                lemma_remove_prefix_full(eff, ins, m_n, sp_n);
            }
            assert(spent@ =~= sp_n);
        }
        // ... and create the outputs.
        let mut a: usize = 0;
        while a < n_out
            invariant
                a <= n_out,
                self.wf(),
                parent.view_wf(),
                crate::utxo::fresh_consistent(self.utxo_cache@, parent.utxos()),
                n_out == outs.len(),
                n_out <= u32::MAX,
                outputs@ == outs,
                tx_id == crate::encode::tx_id_spec(tx.transaction),
                spend_h == source.expected_height(),
                spend_h <= u64::MAX,
                add_outputs_from(
                    crate::utxo::effective_utxos(self.utxo_cache@, parent.utxos()),
                    tx_id,
                    outs,
                    a as int,
                    spend_h as int,
                ) == add_outputs_from(m_n, tx_id, outs, 0, spend_h as int),
                forall|t: int|
                    a <= t < n_out ==> !(#[trigger] is_spendable_output(outs[t])
                        && crate::utxo::effective_utxos(
                        self.utxo_cache@,
                        parent.utxos(),
                    ).dom().contains(op_of(tx_id, t))),
                self.utxo_block_undo@ == old(self).utxo_block_undo@,
                self.pool_deltas@ == old(self).pool_deltas@,
                self.tx_index_cache@ == old(self).tx_index_cache@,
                self.token_issuance_cache.aux_view() == old(self).token_issuance_cache.aux_view(),
                self.token_issuance_cache.index_view() == old(
                    self,
                ).token_issuance_cache.index_view(),
                self.utxo_cache.best_block_spec() == old(self).utxo_cache.best_block_spec(),
            decreases n_out - a,
        {
            let ghost eff_a = crate::utxo::effective_utxos(self.utxo_cache@, parent.utxos());
            let spendable = match &outputs[a] {
                TxOutput::Transfer(_, _) => true,
                TxOutput::LockThenTransfer(_, _, _) => true,
                TxOutput::Burn(_) => false,
                TxOutput::CreateStakePool(_, _) => true,
                TxOutput::ProduceBlockFromStake(_, _) => true,
                TxOutput::CreateDelegationId(_, _) => false,
                TxOutput::DelegateStaking(_, _) => false,
            };
            if spendable {
                let op = OutPoint {
                    source_id: OutPointSourceId::Transaction(tx_id),
                    index: a as u32,
                };
                let utxo = Utxo {
                    output: outputs[a],
                    is_block_reward: false,
                    source_height: BlockHeight { height: spend_h },
                };
                let res = self.utxo_cache.add_utxo(parent, &op, utxo, false);
                proof {
                    assert(op == op_of(tx_id, a as int));
                    assert(res is Ok);
                    assert forall|t: int|
                        a + 1 <= t < n_out implies !(#[trigger] is_spendable_output(outs[t])
                        && crate::utxo::effective_utxos(
                        self.utxo_cache@,
                        parent.utxos(),
                    ).dom().contains(op_of(tx_id, t))) by {
                        assert(op_of(tx_id, t) != op_of(tx_id, a as int)) by {
                            assert(t as u32 != a as u32) by {
                                assert(0 <= t <= u32::MAX && 0 <= a <= u32::MAX && t != a);
                            }
                        }
                    }
                }
            }
            a = a + 1;
        }
        proof {
            assert(add_outputs_from(
                crate::utxo::effective_utxos(self.utxo_cache@, parent.utxos()),
                tx_id,
                outs,
                n_out as int,
                spend_h as int,
            ) == crate::utxo::effective_utxos(self.utxo_cache@, parent.utxos()));
        }
        // Record the undo data for a chain source.
        match source {
            TransactionSourceForConnect::Chain { block_id, .. } => {
                let existing = self.utxo_block_undo.remove(block_id);
                match existing {
                    Some(mut entry) => {
                        entry.undo.tx_undos.push(TxUndo { utxos: spent });
                        self.utxo_block_undo.insert(*block_id, entry);
                        proof {
                            assert(entry.undo.tx_undos@.drop_last() =~= old(
                                self,
                            ).utxo_block_undo@[*block_id].undo.tx_undos@);
                            assert(entry.undo.tx_undos@.last().utxos@ == sp_n);
                            assert(undo_recorded(
                                old(self).utxo_block_undo@,
                                self.utxo_block_undo@,
                                *block_id,
                                sp_n,
                            ));
                        }
                    },
                    None => {
                        let mut tx_undos: Vec<TxUndo> = Vec::new();
                        tx_undos.push(TxUndo { utxos: spent });
                        let entry = BlockUndoEntry {
                            undo: BlockUndo { reward_undo: None, tx_undos },
                            is_fresh: true,
                        };
                        self.utxo_block_undo.insert(*block_id, entry);
                        proof {
                            assert(entry.undo.tx_undos@.len() == 1);
                            assert(entry.undo.tx_undos@.last().utxos@ == sp_n);
                            assert(undo_recorded(
                                old(self).utxo_block_undo@,
                                self.utxo_block_undo@,
                                *block_id,
                                sp_n,
                            ));
                        }
                    },
                }
            },
            TransactionSourceForConnect::Mempool { .. } => {},
        }
        Ok(Amount { atoms: in_sum - out_sum })
    }
}

impl TransactionVerifier {
    /// Disconnect a transaction: its created outputs leave the set and
    /// the outputs its inputs consumed return, as recorded in the undo.
    /// On an error nothing in the verifier has changed.
    #[verifier::rlimit(100)]
    #[verifier::loop_isolation(false)]
    pub fn disconnect_transaction<V: UtxosView>(
        &mut self,
        parent: &V,
        tx: &SignedTransaction,
        tx_undo: TxUndo,
    ) -> (r: Result<(), ConnectTransactionError>)
        requires
            old(self).wf(),
            parent.view_wf(),
            tx.wf(),
            crate::utxo::fresh_consistent(old(self).utxo_cache@, parent.utxos()),
            crate::transaction::tx_outputs(tx.transaction).len() <= u32::MAX,
        ensures
            final(self).wf(),
            crate::utxo::fresh_consistent(final(self).utxo_cache@, parent.utxos()),
            final(self).pool_deltas@ == old(self).pool_deltas@,
            final(self).tx_index_cache@ == old(self).tx_index_cache@,
            final(self).utxo_block_undo@ == old(self).utxo_block_undo@,
            final(self).utxo_cache.best_block_spec() == old(self).utxo_cache.best_block_spec(),
            match disconnect_tx_spec(
                crate::utxo::effective_utxos(old(self).utxo_cache@, parent.utxos()),
                *tx,
                crate::encode::tx_id_spec(tx.transaction),
                tx_undo.utxos@,
            ) {
                Ok(m) => r == Ok::<(), ConnectTransactionError>(()) && crate::utxo::effective_utxos(
                    final(self).utxo_cache@,
                    parent.utxos(),
                ) == m,
                Err(e) => r == Err::<(), ConnectTransactionError>(e) && final(self).utxo_cache@
                    == old(self).utxo_cache@,
            },
    {
        let ghost eff = crate::utxo::effective_utxos(self.utxo_cache@, parent.utxos());
        let tx_id = tx.transaction.get_id();
        let inputs = tx.inputs();
        let outputs = tx.outputs();
        let n_in = inputs.len();
        let n_out = outputs.len();
        let ghost ins = crate::transaction::tx_inputs(tx.transaction);
        let ghost outs = crate::transaction::tx_outputs(tx.transaction);
        let ghost us = tx_undo.utxos@;
        if tx_undo.utxos.len() != n_in {
            return Err(ConnectTransactionError::MissingTxUndo(tx_id));
        }
        // Every spendable output must still be live.
        let mut c: usize = 0;
        while c < n_out
            invariant
                c <= n_out,
                *self == *old(self),
                forall|t: int|
                    0 <= t < c ==> !(#[trigger] is_spendable_output(outs[t])
                        && !eff.dom().contains(op_of(tx_id, t))),
            decreases n_out - c,
        {
            let spendable = match &outputs[c] {
                TxOutput::Transfer(_, _) => true,
                TxOutput::LockThenTransfer(_, _, _) => true,
                TxOutput::Burn(_) => false,
                TxOutput::CreateStakePool(_, _) => true,
                TxOutput::ProduceBlockFromStake(_, _) => true,
                TxOutput::CreateDelegationId(_, _) => false,
                TxOutput::DelegateStaking(_, _) => false,
            };
            if spendable {
                let op = OutPoint {
                    source_id: OutPointSourceId::Transaction(tx_id),
                    index: c as u32,
                };
                if self.utxo_cache.get_utxo(parent, &op).is_none() {
                    proof {
                        assert(is_spendable_output(outs[c as int]) && !eff.dom().contains(
                            op_of(tx_id, c as int),
                        ));
                    }
                    return Err(ConnectTransactionError::MissingOutputOrSpent);
                }
            }
            c = c + 1;
        }
        let ghost m1 = remove_outputs_from(eff, tx_id, outs, 0);
        proof {
            lemma_remove_outputs_contains(eff, tx_id, outs, 0);
        }
        // No input's outpoint may already be live once the outputs are
        // gone, and no outpoint may be restored twice.
        let mut i: usize = 0;
        while i < n_in
            invariant
                i <= n_in,
                *self == *old(self),
                restore_inputs(m1, ins.take(i as int), us.take(i as int)) matches Ok(mi)
                    && restore_shape(m1, ins.take(i as int), us.take(i as int), mi),
            decreases n_in - i,
        {
            let ghost m_i = restore_inputs(m1, ins.take(i as int), us.take(i as int)).unwrap();
            proof {
                assert(ins.take(i + 1 as int).drop_last() =~= ins.take(i as int));
                assert((us.take(i + 1 as int)).take(i as int) =~= us.take(i as int));
            }
            let op = inputs[i].outpoint;
            let mut dup = false;
            let mut j: usize = 0;
            while j < i
                invariant
                    j <= i,
                    i < n_in,
                    *self == *old(self),
                    op == ins[i as int].outpoint,
                    dup <==> (exists|t: int| 0 <= t < j && (#[trigger] ins[t].outpoint) == op),
                decreases i - j,
            {
                if inputs[j].outpoint == op {
                    dup = true;
                }
                j = j + 1;
            }
            proof {
                assert(dup <==> inputs_spend(ins.take(i as int), op)) by {
                    if dup {
                        let t = choose|t: int| 0 <= t < i && ins[t].outpoint == op;
                        assert(ins.take(i as int)[t].outpoint == op);
                    }
                    if inputs_spend(ins.take(i as int), op) {
                        let t = choose|t: int|
                            0 <= t < i && (ins.take(i as int))[t].outpoint == op;
                        assert(ins[t].outpoint == op);
                    }
                }
            }
            let mut among_outs = false;
            let mut t: usize = 0;
            while t < n_out
                invariant
                    t <= n_out,
                    *self == *old(self),
                    among_outs <==> (exists|q: int|
                        0 <= q < t && #[trigger] is_spendable_output(outs[q]) && op_of(tx_id, q)
                            == op),
                decreases n_out - t,
            {
                let spendable = match &outputs[t] {
                    TxOutput::Transfer(_, _) => true,
                    TxOutput::LockThenTransfer(_, _, _) => true,
                    TxOutput::Burn(_) => false,
                    TxOutput::CreateStakePool(_, _) => true,
                    TxOutput::ProduceBlockFromStake(_, _) => true,
                    TxOutput::CreateDelegationId(_, _) => false,
                    TxOutput::DelegateStaking(_, _) => false,
                };
                if spendable {
                    let top = OutPoint {
                        source_id: OutPointSourceId::Transaction(tx_id),
                        index: t as u32,
                    };
                    if top == op {
                        among_outs = true;
                        proof {
                            assert(is_spendable_output(outs[t as int]) && op_of(tx_id, t as int)
                                == op);
                        }
                    }
                }
                t = t + 1;
            }
            let live = self.utxo_cache.get_utxo(parent, &op).is_some();
            proof {
                assert(m1.dom().contains(op) <==> (live && !among_outs));
                assert(m_i.dom().contains(op) <==> (m1.dom().contains(op) || dup));
            }
            if dup || (live && !among_outs) {
                proof {
                    assert(m_i.dom().contains(op));
                    lemma_restore_inputs_err_prefix(m1, ins, us, i + 1);
                }
                return Err(ConnectTransactionError::InvariantBrokenAlreadyUnspent);
            }
            proof {
                assert(!m_i.dom().contains(op));
                assert(restore_inputs(m1, ins.take(i + 1 as int), us.take(i + 1 as int)) == Ok::<
                    Map<OutPoint, Utxo>,
                    ConnectTransactionError,
                >(m_i.insert(op, us[i as int])));
                lemma_restore_inputs_ok_shape(
                    m1,
                    ins.take(i + 1 as int),
                    us.take(i + 1 as int),
                    m_i.insert(op, us[i as int]),
                );
            }
            i = i + 1;
        }
        proof {
            assert(ins.take(n_in as int) =~= ins);
            assert(us.take(n_in as int) =~= us);
        }
        let ghost m2 = restore_inputs(m1, ins, us).unwrap();
        // All checks hold; the outputs leave the set ...
        let mut rc: usize = 0;
        while rc < n_out
            invariant
                rc <= n_out,
                self.wf(),
                crate::utxo::fresh_consistent(self.utxo_cache@, parent.utxos()),
                remove_outputs_from(
                    crate::utxo::effective_utxos(self.utxo_cache@, parent.utxos()),
                    tx_id,
                    outs,
                    rc as int,
                ) == m1,
                forall|t: int|
                    rc <= t < n_out ==> (#[trigger] is_spendable_output(outs[t])
                        ==> crate::utxo::effective_utxos(
                        self.utxo_cache@,
                        parent.utxos(),
                    ).dom().contains(op_of(tx_id, t))),
                self.utxo_block_undo@ == old(self).utxo_block_undo@,
                self.pool_deltas@ == old(self).pool_deltas@,
                self.tx_index_cache@ == old(self).tx_index_cache@,
                self.token_issuance_cache.aux_view() == old(self).token_issuance_cache.aux_view(),
                self.token_issuance_cache.index_view() == old(
                    self,
                ).token_issuance_cache.index_view(),
                self.utxo_cache.best_block_spec() == old(self).utxo_cache.best_block_spec(),
            decreases n_out - rc,
        {
            let ghost eff_rc = crate::utxo::effective_utxos(self.utxo_cache@, parent.utxos());
            let spendable = match &outputs[rc] {
                TxOutput::Transfer(_, _) => true,
                TxOutput::LockThenTransfer(_, _, _) => true,
                TxOutput::Burn(_) => false,
                TxOutput::CreateStakePool(_, _) => true,
                TxOutput::ProduceBlockFromStake(_, _) => true,
                TxOutput::CreateDelegationId(_, _) => false,
                TxOutput::DelegateStaking(_, _) => false,
            };
            if spendable {
                let op = OutPoint {
                    source_id: OutPointSourceId::Transaction(tx_id),
                    index: rc as u32,
                };
                proof {
                    assert(op == op_of(tx_id, rc as int));
                    assert(crate::utxo::utxo_at(eff_rc, op) is Some);
                }
                let res = self.utxo_cache.spend_utxo(parent, &op);
                proof {
                    assert(res is Ok);
                    assert forall|t: int|
                        rc + 1 <= t < n_out implies (#[trigger] is_spendable_output(outs[t])
                        ==> crate::utxo::effective_utxos(
                        self.utxo_cache@,
                        parent.utxos(),
                    ).dom().contains(op_of(tx_id, t))) by {
                        if is_spendable_output(outs[t]) {
                            assert(op_of(tx_id, t) != op_of(tx_id, rc as int)) by {
                                assert(t as u32 != rc as u32) by {
                                    assert(0 <= t <= u32::MAX && 0 <= rc <= u32::MAX && t != rc);
                                }
                            }
                        }
                    }
                }
            }
            rc = rc + 1;
        }
        // ... and the consumed outputs return.
        let mut ri: usize = 0;
        while ri < n_in
            invariant
                ri <= n_in,
                self.wf(),
                crate::utxo::fresh_consistent(self.utxo_cache@, parent.utxos()),
                restore_inputs(m1, ins.take(ri as int), us.take(ri as int)) == Ok::<
                    Map<OutPoint, Utxo>,
                    ConnectTransactionError,
                >(crate::utxo::effective_utxos(self.utxo_cache@, parent.utxos())),
                self.utxo_block_undo@ == old(self).utxo_block_undo@,
                self.pool_deltas@ == old(self).pool_deltas@,
                self.tx_index_cache@ == old(self).tx_index_cache@,
                self.token_issuance_cache.aux_view() == old(self).token_issuance_cache.aux_view(),
                self.token_issuance_cache.index_view() == old(
                    self,
                ).token_issuance_cache.index_view(),
                self.utxo_cache.best_block_spec() == old(self).utxo_cache.best_block_spec(),
            decreases n_in - ri,
        {
            let ghost eff_ri = crate::utxo::effective_utxos(self.utxo_cache@, parent.utxos());
            proof {
                assert(ins.take(ri + 1 as int).drop_last() =~= ins.take(ri as int));
                assert((us.take(ri + 1 as int)).take(ri as int) =~= us.take(ri as int));
                assert(restore_inputs(m1, ins.take(ri + 1 as int), us.take(ri + 1 as int))
                    is Ok) by {
                    if restore_inputs(m1, ins.take(ri + 1 as int), us.take(ri + 1 as int)) is Err {
                        lemma_restore_inputs_err_prefix(m1, ins, us, ri + 1);
                    }
                }
                assert(!eff_ri.dom().contains(ins[ri as int].outpoint));
            }
            let op = inputs[ri].outpoint;
            let res = self.utxo_cache.add_utxo(parent, &op, tx_undo.utxos[ri], false);
            proof {
                assert(res is Ok);
            }
            ri = ri + 1;
        }
        proof {
            assert(ins.take(n_in as int) =~= ins);
            assert(us.take(n_in as int) =~= us);
        }
        Ok(())
    }
}

/// The undo map records one more transaction's spent outputs under a
/// block: appended to the block's record, or opening a fresh one; other
/// blocks' records are untouched.
pub open spec fn undo_recorded(
    m_old: Map<H256, BlockUndoEntry>,
    m_new: Map<H256, BlockUndoEntry>,
    block_id: H256,
    spent: Seq<Utxo>,
) -> bool {
    &&& (forall|k: H256| k != block_id ==> #[trigger] crate::vecmap::same_at(m_new, m_old, k))
    &&& m_new.dom().contains(block_id)
    &&& m_new[block_id].undo.tx_undos@.len() > 0
    &&& m_new[block_id].undo.tx_undos@.last().utxos@ == spent
    &&& (if m_old.dom().contains(block_id) {
        &&& m_new[block_id].is_fresh == m_old[block_id].is_fresh
        &&& m_new[block_id].undo.reward_undo == m_old[block_id].undo.reward_undo
        &&& m_new[block_id].undo.tx_undos@.drop_last() == m_old[block_id].undo.tx_undos@
    } else {
        &&& m_new[block_id].is_fresh == true
        &&& m_new[block_id].undo.reward_undo is None
        &&& m_new[block_id].undo.tx_undos@.len() == 1
    })
}

/// The set with the outpoints of the first `i` inputs removed.
pub open spec fn remove_prefix_ops(
    eff: Map<OutPoint, Utxo>,
    ins: Seq<TxInput>,
    i: int,
) -> Map<OutPoint, Utxo>
    decreases i,
{
    if i <= 0 {
        eff
    } else {
        remove_prefix_ops(eff, ins, i - 1).remove(ins[i - 1].outpoint)
    }
}

proof fn lemma_remove_prefix_contains(eff: Map<OutPoint, Utxo>, ins: Seq<TxInput>, i: int)
    requires
        0 <= i,
    ensures
        forall|k: OutPoint|
            #[trigger] remove_prefix_ops(eff, ins, i).dom().contains(k) <==> (eff.dom().contains(k)
                && !(exists|t: int| 0 <= t < i && (#[trigger] ins[t].outpoint) == k)),
        forall|k: OutPoint|
            #[trigger] remove_prefix_ops(eff, ins, i).dom().contains(k) ==> remove_prefix_ops(
                eff,
                ins,
                i,
            )[k] == eff[k],
    decreases i,
{
    if i > 0 {
        lemma_remove_prefix_contains(eff, ins, i - 1);
        assert forall|k: OutPoint|
            #[trigger] remove_prefix_ops(eff, ins, i).dom().contains(k) implies (
        eff.dom().contains(k) && !(exists|t: int| 0 <= t < i && (#[trigger] ins[t].outpoint)
            == k)) by {
            assert(remove_prefix_ops(eff, ins, i - 1).dom().contains(k));
            assert(k != ins[i - 1].outpoint);
            if exists|t: int| 0 <= t < i && (#[trigger] ins[t].outpoint) == k {
                let t = choose|t: int| 0 <= t < i && (#[trigger] ins[t].outpoint) == k;
                assert(0 <= t < i - 1);
                assert(exists|t2: int| 0 <= t2 < i - 1 && (#[trigger] ins[t2].outpoint) == k);
                assert(false);
            }
        }
        assert forall|k: OutPoint|
            (eff.dom().contains(k) && !(exists|t: int|
                0 <= t < i && (#[trigger] ins[t].outpoint) == k)) implies #[trigger] remove_prefix_ops(
            eff,
            ins,
            i,
        ).dom().contains(k) by {
            if exists|t: int| 0 <= t < i - 1 && (#[trigger] ins[t].outpoint) == k {
                let t = choose|t: int| 0 <= t < i - 1 && (#[trigger] ins[t].outpoint) == k;
                assert(exists|t2: int| 0 <= t2 < i && (#[trigger] ins[t2].outpoint) == k);
            }
            assert(!(exists|t: int| 0 <= t < i - 1 && (#[trigger] ins[t].outpoint) == k));
            if ins[i - 1].outpoint == k {
                assert(exists|t2: int| 0 <= t2 < i && (#[trigger] ins[t2].outpoint) == k);
            }
            assert(ins[i - 1].outpoint != k);
            assert(remove_prefix_ops(eff, ins, i - 1).dom().contains(k));
        }
        assert forall|k: OutPoint|
            #[trigger] remove_prefix_ops(eff, ins, i).dom().contains(k) implies remove_prefix_ops(
            eff,
            ins,
            i,
        )[k] == eff[k] by {
            assert(remove_prefix_ops(eff, ins, i - 1).dom().contains(k));
        }
    }
}

proof fn lemma_remove_prefix_full(
    eff: Map<OutPoint, Utxo>,
    ins: Seq<TxInput>,
    m: Map<OutPoint, Utxo>,
    sp: Seq<Utxo>,
)
    requires
        spend_shape(eff, ins, m, sp),
    ensures
        remove_prefix_ops(eff, ins, ins.len() as int) =~= m,
{
    lemma_remove_prefix_contains(eff, ins, ins.len() as int);
    assert forall|k: OutPoint|
        remove_prefix_ops(eff, ins, ins.len() as int).dom().contains(k)
            <==> #[trigger] m.dom().contains(k) by {
        assert(inputs_spend(ins, k) <==> (exists|t: int|
            0 <= t < ins.len() && (#[trigger] ins[t].outpoint) == k));
    }
    assert forall|k: OutPoint|
        #[trigger] m.dom().contains(k) implies remove_prefix_ops(eff, ins, ins.len() as int)[k]
        == m[k] by {
        assert(remove_prefix_ops(eff, ins, ins.len() as int).dom().contains(k));
    }
}

/// Sums of consumed outputs only grow with a longer prefix, so once a
/// prefix sum leaves the amount range the whole sum has.
proof fn lemma_sum_values_grows(us: Seq<Utxo>)
    ensures
        forall|i: int| 0 <= i <= us.len() ==> sum_values(us.take(i)) <= sum_values(us),
    decreases us.len(),
{
    if us.len() > 0 {
        lemma_sum_values_grows(us.drop_last());
        assert forall|i: int| 0 <= i <= us.len() implies sum_values(us.take(i)) <= sum_values(
            us,
        ) by {
            if i < us.len() {
                assert(us.take(i) =~= us.drop_last().take(i));
                assert(crate::transaction::output_value(us.last().output) >= 0);
            } else {
                assert(us.take(i) =~= us);
            }
        }
    }
}

proof fn lemma_sum_outputs_grows(os: Seq<TxOutput>, i: int)
    requires
        0 <= i <= os.len(),
    ensures
        sum_outputs(os.take(i)) <= sum_outputs(os),
    decreases os.len() - i,
{
    if i < os.len() {
        lemma_sum_outputs_grows(os, i + 1);
        assert(os.take(i + 1).drop_last() =~= os.take(i));
        assert(crate::transaction::output_value(os.take(i + 1).last()) >= 0);
    } else {
        assert(os.take(i) =~= os);
    }
}

/// Remove the transaction's spendable outputs from the set, from index
/// `idx` on.
pub open spec fn remove_outputs_from(
    m: Map<OutPoint, Utxo>,
    tx_id: H256,
    os: Seq<TxOutput>,
    idx: int,
) -> Map<OutPoint, Utxo>
    decreases os.len() - idx,
{
    if idx < 0 || idx >= os.len() {
        m
    } else {
        let m2 = if is_spendable_output(os[idx]) {
            m.remove(op_of(tx_id, idx))
        } else {
            m
        };
        remove_outputs_from(m2, tx_id, os, idx + 1)
    }
}

/// One step of input restoration: the outpoint must not be live; the
/// recorded output returns to the set.
pub open spec fn restore_step(
    acc: Result<Map<OutPoint, Utxo>, ConnectTransactionError>,
    input: TxInput,
    u: Utxo,
) -> Result<Map<OutPoint, Utxo>, ConnectTransactionError> {
    match acc {
        Err(e) => Err(e),
        Ok(m) => {
            if m.dom().contains(input.outpoint) {
                Err(ConnectTransactionError::InvariantBrokenAlreadyUnspent)
            } else {
                Ok(m.insert(input.outpoint, u))
            }
        },
    }
}

/// Restore the inputs one after the other, in order.
pub open spec fn restore_inputs(
    m: Map<OutPoint, Utxo>,
    ins: Seq<TxInput>,
    us: Seq<Utxo>,
) -> Result<Map<OutPoint, Utxo>, ConnectTransactionError>
    decreases ins.len(),
{
    if ins.len() == 0 {
        Ok(m)
    } else {
        restore_step(
            restore_inputs(m, ins.drop_last(), us.take(ins.len() - 1)),
            ins.last(),
            us[ins.len() - 1],
        )
    }
}

/// The outcome of disconnecting one transaction: its undo data must fit,
/// its created outputs must still be live (they leave the set), and its
/// consumed outputs return.
pub open spec fn disconnect_tx_spec(
    eff: Map<OutPoint, Utxo>,
    tx: SignedTransaction,
    tx_id: H256,
    us: Seq<Utxo>,
) -> Result<Map<OutPoint, Utxo>, ConnectTransactionError> {
    let ins = crate::transaction::tx_inputs(tx.transaction);
    let outs = crate::transaction::tx_outputs(tx.transaction);
    if us.len() != ins.len() {
        Err(ConnectTransactionError::MissingTxUndo(tx_id))
    } else if exists|i: int|
        0 <= i < outs.len() && #[trigger] is_spendable_output(outs[i]) && !eff.dom().contains(
            op_of(tx_id, i),
        ) {
        Err(ConnectTransactionError::MissingOutputOrSpent)
    } else {
        restore_inputs(remove_outputs_from(eff, tx_id, outs, 0), ins, us)
    }
}

/// A failed prefix decides the whole restoration.
proof fn lemma_restore_inputs_err_prefix(
    m: Map<OutPoint, Utxo>,
    ins: Seq<TxInput>,
    us: Seq<Utxo>,
    i: int,
)
    requires
        0 <= i <= ins.len(),
        us.len() == ins.len(),
        restore_inputs(m, ins.take(i), us.take(i)) is Err,
    ensures
        restore_inputs(m, ins, us) == restore_inputs(m, ins.take(i), us.take(i)),
    decreases ins.len() - i,
{
    if i < ins.len() {
        assert(ins.take(i + 1).drop_last() =~= ins.take(i));
        assert((us.take(i + 1)).take(i) =~= us.take(i));
        lemma_restore_inputs_err_prefix(m, ins, us, i + 1);
    } else {
        assert(ins.take(i) =~= ins);
        assert(us.take(i) =~= us);
    }
}

/// The shape of a successful restoration: the outpoints are pairwise
/// distinct, none was live, and the result is the base plus exactly the
/// restored cells.
pub open spec fn restore_shape(
    m: Map<OutPoint, Utxo>,
    ins: Seq<TxInput>,
    us: Seq<Utxo>,
    m2: Map<OutPoint, Utxo>,
) -> bool {
    &&& (forall|j: int| 0 <= j < ins.len() ==> !m.dom().contains(#[trigger] ins[j].outpoint))
    &&& (forall|i: int, j: int|
        0 <= i < j < ins.len() ==> (#[trigger] ins[i].outpoint) != (#[trigger] ins[j].outpoint))
    &&& (forall|k: OutPoint|
        #[trigger] m2.dom().contains(k) <==> (m.dom().contains(k) || inputs_spend(ins, k)))
    &&& (forall|k: OutPoint|
        m.dom().contains(k) && !inputs_spend(ins, k) ==> #[trigger] m2[k] == m[k])
    &&& (forall|j: int| 0 <= j < ins.len() ==> m2[(#[trigger] ins[j].outpoint)] == us[j])
}

proof fn lemma_restore_inputs_ok_shape(
    m: Map<OutPoint, Utxo>,
    ins: Seq<TxInput>,
    us: Seq<Utxo>,
    m2: Map<OutPoint, Utxo>,
)
    requires
        us.len() == ins.len(),
        restore_inputs(m, ins, us) == Ok::<Map<OutPoint, Utxo>, ConnectTransactionError>(m2),
    ensures
        restore_shape(m, ins, us, m2),
    decreases ins.len(),
{
    if ins.len() == 0 {
    } else {
        let prefix = ins.drop_last();
        let uprefix = us.take(ins.len() - 1);
        let sub = restore_inputs(m, prefix, uprefix);
        let m1 = sub.unwrap();
        lemma_restore_inputs_ok_shape(m, prefix, uprefix, m1);
        let last_op = ins.last().outpoint;
        assert(!m1.dom().contains(last_op));
        assert(m2 == m1.insert(last_op, us[ins.len() - 1]));
        assert forall|j: int| 0 <= j < ins.len() implies !m.dom().contains(
            #[trigger] ins[j].outpoint,
        ) by {
            if j < ins.len() - 1 {
                assert(prefix[j] == ins[j]);
            } else {
                if m.dom().contains(last_op) {
                    assert(m1.dom().contains(last_op));
                }
            }
        }
        assert forall|i: int, j: int| 0 <= i < j < ins.len() implies (#[trigger] ins[i].outpoint)
            != (#[trigger] ins[j].outpoint) by {
            if j < ins.len() - 1 {
                assert(prefix[i] == ins[i] && prefix[j] == ins[j]);
            } else {
                assert(prefix[i] == ins[i]);
                if ins[i].outpoint == last_op {
                    assert(inputs_spend(prefix, last_op));
                    assert(m1.dom().contains(last_op));
                }
            }
        }
        assert forall|k: OutPoint| #[trigger] m2.dom().contains(k) <==> (m.dom().contains(k)
            || inputs_spend(ins, k)) by {
            if inputs_spend(prefix, k) {
                let j = choose|j: int| 0 <= j < prefix.len() && prefix[j].outpoint == k;
                assert(ins[j].outpoint == k);
                assert(inputs_spend(ins, k));
            }
            if k != last_op && inputs_spend(ins, k) {
                let j = choose|j: int| 0 <= j < ins.len() && ins[j].outpoint == k;
                if j < ins.len() - 1 {
                    assert(prefix[j].outpoint == k);
                    assert(inputs_spend(prefix, k));
                }
            }
        }
        assert forall|k: OutPoint|
            m.dom().contains(k) && !inputs_spend(ins, k) implies #[trigger] m2[k] == m[k] by {
            assert(!inputs_spend(prefix, k)) by {
                if inputs_spend(prefix, k) {
                    let j = choose|j: int| 0 <= j < prefix.len() && prefix[j].outpoint == k;
                    assert(ins[j].outpoint == k);
                }
            }
            assert(k != last_op);
        }
        assert forall|j: int| 0 <= j < ins.len() implies m2[(#[trigger] ins[j].outpoint)]
            == us[j] by {
            if j < ins.len() - 1 {
                assert(prefix[j] == ins[j]);
                assert(ins[j].outpoint != last_op);
                assert(uprefix[j] == us[j]);
            }
        }
    }
}

/// A restoration of distinct, absent outpoints succeeds.
proof fn lemma_restore_inputs_all_ok(m: Map<OutPoint, Utxo>, ins: Seq<TxInput>, us: Seq<Utxo>)
    requires
        us.len() == ins.len(),
        forall|j: int| 0 <= j < ins.len() ==> !m.dom().contains(#[trigger] ins[j].outpoint),
        forall|i: int, j: int|
            0 <= i < j < ins.len() ==> (#[trigger] ins[i].outpoint) != (#[trigger] ins[j].outpoint),
    ensures
        restore_inputs(m, ins, us) is Ok,
    decreases ins.len(),
{
    if ins.len() > 0 {
        let prefix = ins.drop_last();
        let uprefix = us.take(ins.len() - 1);
        assert forall|j: int| 0 <= j < prefix.len() implies !m.dom().contains(
            #[trigger] prefix[j].outpoint,
        ) by {
            assert(prefix[j] == ins[j]);
        }
        assert forall|i: int, j: int| 0 <= i < j < prefix.len() implies (
        #[trigger] prefix[i].outpoint) != (#[trigger] prefix[j].outpoint) by {
            assert(prefix[i] == ins[i] && prefix[j] == ins[j]);
        }
        lemma_restore_inputs_all_ok(m, prefix, uprefix);
        let m1 = restore_inputs(m, prefix, uprefix).unwrap();
        lemma_restore_inputs_ok_shape(m, prefix, uprefix, m1);
        let last_op = ins.last().outpoint;
        assert(!m1.dom().contains(last_op)) by {
            if inputs_spend(prefix, last_op) {
                let j = choose|j: int| 0 <= j < prefix.len() && prefix[j].outpoint == last_op;
                assert(ins[j].outpoint == last_op);
            }
        }
    }
}

/// The pointwise content of output removal.
proof fn lemma_remove_outputs_contains(
    m: Map<OutPoint, Utxo>,
    tx_id: H256,
    os: Seq<TxOutput>,
    idx: int,
)
    requires
        0 <= idx <= os.len(),
    ensures
        forall|k: OutPoint|
            #[trigger] remove_outputs_from(m, tx_id, os, idx).dom().contains(k) <==> (
            m.dom().contains(k) && !(exists|t: int|
                idx <= t < os.len() && #[trigger] is_spendable_output(os[t]) && op_of(tx_id, t)
                    == k)),
        forall|k: OutPoint|
            #[trigger] remove_outputs_from(m, tx_id, os, idx).dom().contains(
                k,
            ) ==> remove_outputs_from(m, tx_id, os, idx)[k] == m[k],
    decreases os.len() - idx,
{
    if idx < os.len() {
        let m2 = if is_spendable_output(os[idx]) {
            m.remove(op_of(tx_id, idx))
        } else {
            m
        };
        lemma_remove_outputs_contains(m2, tx_id, os, idx + 1);
        assert forall|k: OutPoint|
            #[trigger] remove_outputs_from(m, tx_id, os, idx).dom().contains(k) implies (
        m.dom().contains(k) && !(exists|t: int|
            idx <= t < os.len() && #[trigger] is_spendable_output(os[t]) && op_of(tx_id, t)
                == k)) by {
            assert(remove_outputs_from(m, tx_id, os, idx) == remove_outputs_from(
                m2,
                tx_id,
                os,
                idx + 1,
            ));
            assert(m2.dom().contains(k));
            if exists|t: int|
                idx <= t < os.len() && #[trigger] is_spendable_output(os[t]) && op_of(tx_id, t)
                    == k {
                let t = choose|t: int|
                    idx <= t < os.len() && #[trigger] is_spendable_output(os[t]) && op_of(
                        tx_id,
                        t,
                    ) == k;
                if t == idx {
                    assert(!m2.dom().contains(k));
                } else {
                    assert(exists|t2: int|
                        idx + 1 <= t2 < os.len() && #[trigger] is_spendable_output(os[t2])
                            && op_of(tx_id, t2) == k);
                }
                assert(false);
            }
        }
        assert forall|k: OutPoint|
            (m.dom().contains(k) && !(exists|t: int|
                idx <= t < os.len() && #[trigger] is_spendable_output(os[t]) && op_of(tx_id, t)
                    == k)) implies #[trigger] remove_outputs_from(m, tx_id, os, idx).dom().contains(
            k,
        ) by {
            assert(remove_outputs_from(m, tx_id, os, idx) == remove_outputs_from(
                m2,
                tx_id,
                os,
                idx + 1,
            ));
            if exists|t: int|
                idx + 1 <= t < os.len() && #[trigger] is_spendable_output(os[t]) && op_of(
                    tx_id,
                    t,
                ) == k {
                let t = choose|t: int|
                    idx + 1 <= t < os.len() && #[trigger] is_spendable_output(os[t]) && op_of(
                        tx_id,
                        t,
                    ) == k;
                assert(exists|t2: int|
                    idx <= t2 < os.len() && #[trigger] is_spendable_output(os[t2]) && op_of(
                        tx_id,
                        t2,
                    ) == k);
            }
            if is_spendable_output(os[idx]) && op_of(tx_id, idx) == k {
                assert(exists|t2: int|
                    idx <= t2 < os.len() && #[trigger] is_spendable_output(os[t2]) && op_of(
                        tx_id,
                        t2,
                    ) == k);
            }
            assert(m2.dom().contains(k));
        }
        assert forall|k: OutPoint|
            #[trigger] remove_outputs_from(m, tx_id, os, idx).dom().contains(
                k,
            ) implies remove_outputs_from(m, tx_id, os, idx)[k] == m[k] by {
            assert(remove_outputs_from(m, tx_id, os, idx) == remove_outputs_from(
                m2,
                tx_id,
                os,
                idx + 1,
            ));
            assert(m2.dom().contains(k));
        }
    }
}

/// The pointwise content of output insertion.
proof fn lemma_add_outputs_contains(
    m: Map<OutPoint, Utxo>,
    tx_id: H256,
    os: Seq<TxOutput>,
    idx: int,
    spend_h: int,
)
    requires
        0 <= idx <= os.len(),
        os.len() <= u32::MAX,
    ensures
        forall|k: OutPoint|
            #[trigger] add_outputs_from(m, tx_id, os, idx, spend_h).dom().contains(k) <==> (
            m.dom().contains(k) || (exists|t: int|
                idx <= t < os.len() && #[trigger] is_spendable_output(os[t]) && op_of(tx_id, t)
                    == k)),
        forall|k: OutPoint|
            m.dom().contains(k) && !(exists|t: int|
                idx <= t < os.len() && #[trigger] is_spendable_output(os[t]) && op_of(tx_id, t)
                    == k) ==> #[trigger] add_outputs_from(m, tx_id, os, idx, spend_h)[k] == m[k],
        forall|t: int|
            idx <= t < os.len() && #[trigger] is_spendable_output(os[t]) ==> add_outputs_from(
                m,
                tx_id,
                os,
                idx,
                spend_h,
            )[op_of(tx_id, t)] == (Utxo {
                output: os[t],
                is_block_reward: false,
                source_height: BlockHeight { height: spend_h as u64 },
            }),
    decreases os.len() - idx,
{
    if idx < os.len() {
        let m2 = if is_spendable_output(os[idx]) {
            m.insert(
                op_of(tx_id, idx),
                Utxo {
                    output: os[idx],
                    is_block_reward: false,
                    source_height: BlockHeight { height: spend_h as u64 },
                },
            )
        } else {
            m
        };
        lemma_add_outputs_contains(m2, tx_id, os, idx + 1, spend_h);
        assert forall|k: OutPoint|
            #[trigger] add_outputs_from(m, tx_id, os, idx, spend_h).dom().contains(k) implies (
        m.dom().contains(k) || (exists|t: int|
            idx <= t < os.len() && #[trigger] is_spendable_output(os[t]) && op_of(tx_id, t)
                == k)) by {
            if !m.dom().contains(k) {
                if m2.dom().contains(k) {
                    assert(is_spendable_output(os[idx]) && op_of(tx_id, idx) == k);
                    assert(exists|t: int|
                        idx <= t < os.len() && #[trigger] is_spendable_output(os[t]) && op_of(
                            tx_id,
                            t,
                        ) == k);
                } else {
                    let t = choose|t: int|
                        idx + 1 <= t < os.len() && #[trigger] is_spendable_output(os[t]) && op_of(
                            tx_id,
                            t,
                        ) == k;
                    assert(exists|t2: int|
                        idx <= t2 < os.len() && #[trigger] is_spendable_output(os[t2]) && op_of(
                            tx_id,
                            t2,
                        ) == k);
                }
            }
        }
        assert forall|k: OutPoint|
            (m.dom().contains(k) || (exists|t: int|
                idx <= t < os.len() && #[trigger] is_spendable_output(os[t]) && op_of(tx_id, t)
                    == k)) implies #[trigger] add_outputs_from(m, tx_id, os, idx, spend_h).dom().contains(
            k,
        ) by {
            if !m.dom().contains(k) {
                let t = choose|t: int|
                    idx <= t < os.len() && #[trigger] is_spendable_output(os[t]) && op_of(
                        tx_id,
                        t,
                    ) == k;
                if t == idx {
                    assert(m2.dom().contains(k));
                } else {
                    assert(exists|t2: int|
                        idx + 1 <= t2 < os.len() && #[trigger] is_spendable_output(os[t2])
                            && op_of(tx_id, t2) == k);
                }
            }
        }
        assert forall|k: OutPoint|
            m.dom().contains(k) && !(exists|t: int|
                idx <= t < os.len() && #[trigger] is_spendable_output(os[t]) && op_of(tx_id, t)
                    == k) implies #[trigger] add_outputs_from(m, tx_id, os, idx, spend_h)[k]
            == m[k] by {
            assert(m2.dom().contains(k) && m2[k] == m[k]) by {
                if is_spendable_output(os[idx]) && op_of(tx_id, idx) == k {
                    assert(exists|t: int|
                        idx <= t < os.len() && #[trigger] is_spendable_output(os[t]) && op_of(
                            tx_id,
                            t,
                        ) == k);
                }
            }
            if exists|t: int|
                idx + 1 <= t < os.len() && #[trigger] is_spendable_output(os[t]) && op_of(
                    tx_id,
                    t,
                ) == k {
                let t = choose|t: int|
                    idx + 1 <= t < os.len() && #[trigger] is_spendable_output(os[t]) && op_of(
                        tx_id,
                        t,
                    ) == k;
                assert(exists|t2: int|
                    idx <= t2 < os.len() && #[trigger] is_spendable_output(os[t2]) && op_of(
                        tx_id,
                        t2,
                    ) == k);
            }
        }
        assert forall|t: int|
            idx <= t < os.len() && #[trigger] is_spendable_output(os[t]) implies add_outputs_from(
            m,
            tx_id,
            os,
            idx,
            spend_h,
        )[op_of(tx_id, t)] == (Utxo {
            output: os[t],
            is_block_reward: false,
            source_height: BlockHeight { height: spend_h as u64 },
        }) by {
            if t == idx {
                assert(m2.dom().contains(op_of(tx_id, idx)));
                if exists|t2: int|
                    idx + 1 <= t2 < os.len() && #[trigger] is_spendable_output(os[t2]) && op_of(
                        tx_id,
                        t2,
                    ) == op_of(tx_id, idx) {
                    let t2 = choose|t2: int|
                        idx + 1 <= t2 < os.len() && #[trigger] is_spendable_output(os[t2])
                            && op_of(tx_id, t2) == op_of(tx_id, idx);
                    assert(t2 as u32 == idx as u32);
                    assert(false);
                }
            }
        }
    }
}

/// Law: disconnecting a connected transaction with its recorded undo
/// returns the UTXO set exactly to its pre-connect state.
pub proof fn lemma_connect_disconnect_identity(
    eff: Map<OutPoint, Utxo>,
    tx: SignedTransaction,
    tx_id: H256,
    spend_h: int,
    decommission_maturity: u64,
)
    requires
        tx.wf(),
        crate::transaction::tx_outputs(tx.transaction).len() <= u32::MAX,
        connect_tx_spec(eff, tx, tx_id, spend_h, decommission_maturity) is Ok,
    ensures
        disconnect_tx_spec(
            connect_tx_spec(eff, tx, tx_id, spend_h, decommission_maturity).unwrap().utxos,
            tx,
            tx_id,
            connect_tx_spec(eff, tx, tx_id, spend_h, decommission_maturity).unwrap().spent,
        ) == Ok::<Map<OutPoint, Utxo>, ConnectTransactionError>(eff),
{
    let ins = crate::transaction::tx_inputs(tx.transaction);
    let outs = crate::transaction::tx_outputs(tx.transaction);
    let wits = tx.witnesses@;
    let spend_res = spend_inputs(eff, ins, wits, spend_h);
    let m = spend_res.unwrap().0;
    let spent = spend_res.unwrap().1;
    lemma_spend_inputs_ok_shape(eff, ins, wits, spend_h, m, spent);
    let outcome = connect_tx_spec(eff, tx, tx_id, spend_h, decommission_maturity).unwrap();
    assert(outcome.utxos == add_outputs_from(m, tx_id, outs, 0, spend_h));
    assert(outcome.spent == spent);
    lemma_add_outputs_contains(m, tx_id, outs, 0, spend_h);
    // Every spendable output is live in the post-connect set.
    assert forall|i: int|
        0 <= i < outs.len() && #[trigger] is_spendable_output(outs[i]) implies outcome.utxos.dom().contains(
        op_of(tx_id, i),
    ) by {}
    // Removing them returns the spend result.
    let m1 = remove_outputs_from(outcome.utxos, tx_id, outs, 0);
    lemma_remove_outputs_contains(outcome.utxos, tx_id, outs, 0);
    assert(m1 =~= m) by {
        assert(!outputs_collide(m, tx_id, outs));
        assert forall|k: OutPoint| #[trigger] m1.dom().contains(k) implies m.dom().contains(k)
            && m1[k] == m[k] by {
            assert(outcome.utxos.dom().contains(k));
            if !m.dom().contains(k) {
                let t = choose|t: int|
                    0 <= t < outs.len() && #[trigger] is_spendable_output(outs[t]) && op_of(
                        tx_id,
                        t,
                    ) == k;
                assert(!(exists|t2: int|
                    0 <= t2 < outs.len() && #[trigger] is_spendable_output(outs[t2]) && op_of(
                        tx_id,
                        t2,
                    ) == k));
            }
        }
        assert forall|k: OutPoint| #[trigger] m.dom().contains(k) implies m1.dom().contains(k) by {
            assert(outcome.utxos.dom().contains(k));
            if exists|t: int|
                0 <= t < outs.len() && #[trigger] is_spendable_output(outs[t]) && op_of(tx_id, t)
                    == k {
                let t = choose|t: int|
                    0 <= t < outs.len() && #[trigger] is_spendable_output(outs[t]) && op_of(
                        tx_id,
                        t,
                    ) == k;
                assert(m.dom().contains(op_of(tx_id, t)));
                assert(outputs_collide(m, tx_id, outs));
            }
        }
    }
    // The inputs restore onto the spend result without collision.
    assert forall|j: int| 0 <= j < ins.len() implies !m.dom().contains(
        #[trigger] ins[j].outpoint,
    ) by {
        assert(inputs_spend(ins, ins[j].outpoint));
    }
    lemma_restore_inputs_all_ok(m, ins, spent);
    let m2 = restore_inputs(m, ins, spent).unwrap();
    lemma_restore_inputs_ok_shape(m, ins, spent, m2);
    assert(m2 =~= eff) by {
        assert forall|k: OutPoint| #[trigger] m2.dom().contains(k) implies eff.dom().contains(k)
            && m2[k] == eff[k] by {
            if inputs_spend(ins, k) {
                let j = choose|j: int| 0 <= j < ins.len() && ins[j].outpoint == k;
                assert(m2[ins[j].outpoint] == spent[j]);
                assert(spent[j] == eff[ins[j].outpoint]);
            }
        }
        assert forall|k: OutPoint| #[trigger] eff.dom().contains(k) implies m2.dom().contains(
            k,
        ) by {}
    }
    assert(disconnect_tx_spec(outcome.utxos, tx, tx_id, spent) == Ok::<
        Map<OutPoint, Utxo>,
        ConnectTransactionError,
    >(m2));
}

/// A consumed overlay flushes into a parent without conflict when every
/// sub-cache merges.
pub open spec fn flushable(parent: TransactionVerifier, delta: TransactionVerifierDelta) -> bool {
    &&& caches_mergeable(parent.utxo_cache@, delta.utxo_cache.cache@)
    &&& ops_mergeable(parent.utxo_block_undo@, delta.utxo_block_undo@)
    &&& collections_mergeable(parent.pool_deltas@, delta.pool_deltas@)
    &&& ops_mergeable(
        parent.token_issuance_cache.aux_view(),
        delta.token_issuance_cache.aux_view(),
    )
    &&& ops_mergeable(
        parent.token_issuance_cache.index_view(),
        delta.token_issuance_cache.index_view(),
    )
    &&& ops_mergeable(parent.tx_index_cache@, delta.tx_index_cache@)
}

} // verus!
