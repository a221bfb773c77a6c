//! The block processor: structural checks, the consensus check, the
//! connection of each transaction through a verifier overlay, and the
//! atomic commit of the result together with the block's undo data.

use vstd::prelude::*;

use crate::block::{block_header, block_id_spec, block_transactions, Block, ConsensusData};
use crate::config::ChainConfig;
use crate::consensus::{kernel_pool_of, ConsensusPoSError};
use crate::primitives::{BlockHeight, H256, Time};
use crate::storage::Store;
use crate::transaction::{OutPoint, SignedTransaction};
use crate::tx_verifier::{
    connect_tx_spec, ConnectTransactionError, SpendStakeError, TransactionSourceForConnect,
    TransactionVerifier,
};
use crate::utxo::{utxo_at, Utxo, UtxosView};

verus! {

/// Where a processed block came from.
#[derive(PartialEq, Eq, Structural, Clone, Copy, Debug)]
pub enum BlockSource {
    Local,
    Peer,
}

/// Failures of block processing.
#[derive(PartialEq, Eq, Structural, Clone, Copy, Debug)]
pub enum BlockError {
    /// The block does not extend the current best block.
    PrevBlockNotFound,
    /// The header's Merkle root does not commit to the transactions.
    MerkleRootMismatch,
    /// The header's witness Merkle root does not commit to them.
    WitnessMerkleRootMismatch,
    /// The consensus check refused the block.
    ConsensusVerificationFailed(ConsensusPoSError),
    /// Connecting a transaction failed; the state is unchanged.
    StateUpdateFailed(ConnectTransactionError),
    /// The chain is at the highest representable height.
    BlockHeightArithmeticError,
    /// The block's timestamp lies too far past the current time.
    BlockFromTheFuture,
}

/// The id and height of a block on the main chain.
#[derive(PartialEq, Eq, Structural, Clone, Copy, Debug)]
pub struct BlockIndex {
    pub id: H256,
    pub height: BlockHeight,
}

impl BlockIndex {
    pub fn block_id(&self) -> (r: H256)
        ensures
            r == self.id,
    {
        self.id
    }

    pub fn block_height(&self) -> (r: BlockHeight)
        ensures
            r == self.height,
    {
        self.height
    }
}

/// Connect a list of transactions one after the other; the first failing
/// transaction decides the error.
pub open spec fn connect_txs_fold(
    eff: Map<OutPoint, Utxo>,
    stxs: Seq<SignedTransaction>,
    spend_h: int,
    decommission_maturity: u64,
) -> Result<Map<OutPoint, Utxo>, ConnectTransactionError>
    decreases stxs.len(),
{
    if stxs.len() == 0 {
        Ok(eff)
    } else {
        match connect_txs_fold(eff, stxs.drop_last(), spend_h, decommission_maturity) {
            Err(e) => Err(e),
            Ok(m) => {
                match connect_tx_spec(
                    m,
                    stxs.last(),
                    crate::encode::tx_id_spec(stxs.last().transaction),
                    spend_h,
                    decommission_maturity,
                ) {
                    Err(e) => Err(e),
                    Ok(out) => Ok(out.utxos),
                }
            },
        }
    }
}

/// The UTXO set after a genesis block's outputs enter it directly.
pub open spec fn genesis_fold(eff: Map<OutPoint, Utxo>, txs: Seq<SignedTransaction>) -> Map<
    OutPoint,
    Utxo,
>
    decreases txs.len(),
{
    if txs.len() == 0 {
        eff
    } else {
        crate::tx_verifier::add_outputs_from(
            genesis_fold(eff, txs.drop_last()),
            crate::encode::tx_id_spec(txs.last().transaction),
            crate::transaction::tx_outputs(txs.last().transaction),
            0,
            0,
        )
    }
}

/// A failing prefix decides the whole fold.
pub proof fn lemma_fold_err_prefix(
    eff: Map<OutPoint, Utxo>,
    stxs: Seq<SignedTransaction>,
    spend_h: int,
    decommission_maturity: u64,
    i: int,
)
    requires
        0 <= i <= stxs.len(),
        connect_txs_fold(eff, stxs.take(i), spend_h, decommission_maturity) is Err,
    ensures
        connect_txs_fold(eff, stxs, spend_h, decommission_maturity) == connect_txs_fold(
            eff,
            stxs.take(i),
            spend_h,
            decommission_maturity,
        ),
    decreases stxs.len() - i,
{
    if i < stxs.len() {
        assert(stxs.take(i + 1).drop_last() =~= stxs.take(i));
        lemma_fold_err_prefix(eff, stxs, spend_h, decommission_maturity, i + 1);
    } else {
        assert(stxs.take(i) =~= stxs);
    }
}

/// The root the header must commit to for the transaction list.
pub open spec fn expected_root(b: Block) -> Option<H256> {
    let txs = block_transactions(b);
    if txs.len() == 0 {
        None
    } else {
        Some(crate::block::merkle_root_of(crate::block::signed_tx_ids_of(txs)))
    }
}

/// Whether the header's transaction root commits to the transactions.
pub open spec fn tx_root_ok(b: Block) -> bool {
    block_header(b).tx_merkle_root == expected_root(b)
}

/// Whether the header's witness root commits to the transactions.
pub open spec fn wit_root_ok(b: Block) -> bool {
    block_header(b).witness_merkle_root == expected_root(b)
}

/// Whether the header's roots commit to the transactions.
pub open spec fn merkle_ok(b: Block) -> bool {
    tx_root_ok(b) && wit_root_ok(b)
}

/// Whether the block's timestamp lies within the permitted distance past
/// the current time.
pub open spec fn block_time_ok(b: Block, now: Time, max_offset_secs: u64) -> bool {
    block_header(b).time <= now.secs + max_offset_secs
}

/// Whether a block extends the given best block: the genesis block
/// starts an empty chain, any other block names the best block as its
/// parent.
pub open spec fn extends_best(best: Option<H256>, b: Block) -> bool {
    match (block_header(b).prev_block_hash, best) {
        (None, None) => true,
        (Some(p), Some(q)) => p == q,
        _ => false,
    }
}

/// The outcome of the consensus check on a block, against the stored
/// blocks (for the parent's timestamp) and the UTXO set (for the
/// kernel): no payload passes; a stake payload needs a known parent, a
/// strictly later timestamp, a live kernel, and the kernel's pool equal
/// to the declared pool.
pub open spec fn pos_check_spec(
    blocks: Map<H256, Block>,
    utxos: Map<OutPoint, Utxo>,
    b: Block,
    id: H256,
) -> Result<(), BlockError> {
    match block_header(b).consensus_data_inner {
        ConsensusData::NoData => Ok(()),
        ConsensusData::PoW(_) => Ok(()),
        ConsensusData::PoS(d) => match block_header(b).prev_block_hash {
            None => Err(
                BlockError::ConsensusVerificationFailed(ConsensusPoSError::NoSealedEpochData),
            ),
            Some(p) => {
                if !blocks.dom().contains(p) {
                    Err(
                        BlockError::ConsensusVerificationFailed(
                            ConsensusPoSError::NoSealedEpochData,
                        ),
                    )
                } else if block_header(b).time <= block_header(blocks[p]).time {
                    Err(
                        BlockError::ConsensusVerificationFailed(
                            ConsensusPoSError::PoSBlockTimeStrictOrderInvalid(id),
                        ),
                    )
                } else {
                    match utxo_at(utxos, d.kernel_input.outpoint) {
                        None => Err(
                            BlockError::ConsensusVerificationFailed(
                                ConsensusPoSError::KernelOutpointNotFound,
                            ),
                        ),
                        Some(u) => match kernel_pool_of(u.output) {
                            None => Err(
                                BlockError::ConsensusVerificationFailed(
                                    ConsensusPoSError::SpendStakeError(
                                        SpendStakeError::WrongOutputType,
                                    ),
                                ),
                            ),
                            Some(kp) => {
                                if kp == d.pool_id {
                                    Ok(())
                                } else {
                                    Err(
                                        BlockError::ConsensusVerificationFailed(
                                            ConsensusPoSError::SpendStakeError(
                                                SpendStakeError::StakePoolIdMismatch(kp, d.pool_id),
                                            ),
                                        ),
                                    )
                                }
                            },
                        },
                    }
                }
            },
        },
    }
}

/// The chainstate: the persistent store, the chain configuration, and
/// the height of the best block.
pub struct Chainstate {
    pub chain_config: ChainConfig,
    pub chainstate_storage: Store,
    pub best_height: Option<u64>,
}

impl Chainstate {
    pub open spec fn wf(&self) -> bool {
        &&& self.chainstate_storage.wf()
        &&& self.chain_config.wf()
        &&& (self.best_height is None <==> self.chainstate_storage.best_block_spec() is None)
    }

    /// A chainstate over the given storage; no block, not even the
    /// genesis block, has been processed yet.
    pub fn new_no_genesis(chain_config: ChainConfig, storage: Store) -> (r: Self)
        requires
            chain_config.wf(),
            storage.wf(),
            storage.best_block_spec() is None,
        ensures
            r.wf(),
            r.chain_config == chain_config,
            r.chainstate_storage == storage,
            r.best_height is None,
    {
        Chainstate { chain_config, chainstate_storage: storage, best_height: None }
    }

    pub fn get_best_block_index(&self) -> (r: Option<BlockIndex>)
        requires
            self.wf(),
        ensures
            match r {
                Some(bi) => self.best_height == Some(bi.height.height)
                    && self.chainstate_storage.best_block_spec() == Some(bi.id),
                None => self.best_height is None,
            },
    {
        match self.best_height {
            None => None,
            Some(h) => match self.chainstate_storage.get_best_block_for_utxos() {
                Ok(Some(id)) => Some(BlockIndex { id, height: BlockHeight { height: h } }),
                _ => {
                    proof {
                        assert(false);
                    }
                    None
                },
            },
        }
    }

    pub fn get_block(&self, id: H256) -> (r: Option<&Block>)
        requires
            self.wf(),
        ensures
            match r {
                Some(b) => self.chainstate_storage.blocks_map().dom().contains(id) && *b
                    == self.chainstate_storage.blocks_map()[id],
                None => !self.chainstate_storage.blocks_map().dom().contains(id),
            },
    {
        self.chainstate_storage.get_block(id)
    }

    pub fn get_block_id_from_height(&self, height: &BlockHeight) -> (r: Option<H256>)
        requires
            self.wf(),
        ensures
            self.chainstate_storage.heights().dom().contains(height.height) ==> r == Some(
                self.chainstate_storage.heights()[height.height],
            ),
            !self.chainstate_storage.heights().dom().contains(height.height) ==> r is None,
    {
        self.chainstate_storage.get_block_id_from_height(height.height)
    }

    /// Process a block: structural and consensus checks, connection of
    /// every transaction in order, and an atomic commit of UTXO changes,
    /// undo data, the block itself and the new tip. On an error nothing
    /// has changed; every check owes its exact outcome.
    #[verifier::rlimit(100)]
    #[verifier::loop_isolation(false)]
    pub fn process_block(
        &mut self,
        block: Block,
        _source: BlockSource,
        current_time: Time,
    ) -> (r: Result<(), BlockError>)
        requires
            old(self).wf(),
            forall|j: int|
                0 <= j < block_transactions(block).len() ==> (#[trigger] block_transactions(
                    block,
                )[j]).wf() && crate::transaction::tx_outputs(
                    block_transactions(block)[j].transaction,
                ).len() <= u32::MAX,
            (match old(self).best_height {
                Some(h) => h < u64::MAX - 1,
                None => true,
            }),
        ensures
            final(self).wf(),
            final(self).chain_config == old(self).chain_config,
            r is Err ==> *final(self) == *old(self),
            r is Ok ==> final(self).chainstate_storage.best_block_spec() == Some(
                block_id_spec(block),
            ) && final(self).chainstate_storage.blocks_map().dom().contains(block_id_spec(block))
                && block_header(
                final(self).chainstate_storage.blocks_map()[block_id_spec(block)],
            ) == block_header(block) && block_transactions(
                final(self).chainstate_storage.blocks_map()[block_id_spec(block)],
            ) == block_transactions(block) && (match old(self).best_height {
                Some(h) => final(self).best_height == Some((h + 1) as u64),
                None => final(self).best_height == Some(0u64),
            }),
            r is Ok && block_header(block).prev_block_hash is None ==> final(self).chainstate_storage.utxos_map() == genesis_fold(
                old(self).chainstate_storage.utxos_map(),
                block_transactions(block),
            ),
            r is Ok && block_header(block).prev_block_hash is Some ==> connect_txs_fold(
                old(self).chainstate_storage.utxos_map(),
                block_transactions(block),
                (match old(self).best_height {
                    Some(h) => h + 1,
                    None => 0,
                }),
                old(self).chain_config.decommission_maturity_block_count,
            ) == Ok::<Map<OutPoint, Utxo>, ConnectTransactionError>(
                final(self).chainstate_storage.utxos_map(),
            ),
            !extends_best(old(self).chainstate_storage.best_block_spec(), block) ==> r == Err::<
                (),
                BlockError,
            >(BlockError::PrevBlockNotFound),
            extends_best(old(self).chainstate_storage.best_block_spec(), block) && !block_time_ok(
                block,
                current_time,
                old(self).chain_config.max_future_block_time_offset_secs,
            ) ==> r == Err::<(), BlockError>(BlockError::BlockFromTheFuture),
            extends_best(old(self).chainstate_storage.best_block_spec(), block) && block_time_ok(
                block,
                current_time,
                old(self).chain_config.max_future_block_time_offset_secs,
            ) && !tx_root_ok(block) ==> r == Err::<(), BlockError>(BlockError::MerkleRootMismatch),
            extends_best(old(self).chainstate_storage.best_block_spec(), block) && block_time_ok(
                block,
                current_time,
                old(self).chain_config.max_future_block_time_offset_secs,
            ) && tx_root_ok(block) && !wit_root_ok(block) ==> r == Err::<(), BlockError>(
                BlockError::WitnessMerkleRootMismatch,
            ),
            extends_best(old(self).chainstate_storage.best_block_spec(), block) && block_time_ok(
                block,
                current_time,
                old(self).chain_config.max_future_block_time_offset_secs,
            ) && merkle_ok(block) && pos_check_spec(
                old(self).chainstate_storage.blocks_map(),
                old(self).chainstate_storage.utxos_map(),
                block,
                block_id_spec(block),
            ) is Err ==> r == Err::<(), BlockError>(
                pos_check_spec(
                    old(self).chainstate_storage.blocks_map(),
                    old(self).chainstate_storage.utxos_map(),
                    block,
                    block_id_spec(block),
                ).get_Err_0(),
            ),
            extends_best(old(self).chainstate_storage.best_block_spec(), block) && block_time_ok(
                block,
                current_time,
                old(self).chain_config.max_future_block_time_offset_secs,
            ) && merkle_ok(block) && pos_check_spec(
                old(self).chainstate_storage.blocks_map(),
                old(self).chainstate_storage.utxos_map(),
                block,
                block_id_spec(block),
            ) is Ok && block_header(block).prev_block_hash is None ==> r is Ok,
            extends_best(old(self).chainstate_storage.best_block_spec(), block) && block_time_ok(
                block,
                current_time,
                old(self).chain_config.max_future_block_time_offset_secs,
            ) && merkle_ok(block) && pos_check_spec(
                old(self).chainstate_storage.blocks_map(),
                old(self).chainstate_storage.utxos_map(),
                block,
                block_id_spec(block),
            ) is Ok && block_header(block).prev_block_hash is Some ==> (match connect_txs_fold(
                old(self).chainstate_storage.utxos_map(),
                block_transactions(block),
                (match old(self).best_height {
                    Some(h) => h + 1,
                    None => 0,
                }),
                old(self).chain_config.decommission_maturity_block_count,
            ) {
                Ok(_) => r is Ok,
                Err(e) => r == Err::<(), BlockError>(BlockError::StateUpdateFailed(e)),
            }),
    {
        let id = block.get_id();
        // The block must extend the chain's best block.
        let best = match self.chainstate_storage.get_best_block_for_utxos() {
            Ok(b) => b,
            Err(_) => None,
        };
        let prev_ok = match (block.prev_block_id(), best) {
            (None, None) => true,
            (Some(p), Some(b)) => p == b,
            _ => false,
        };
        if !prev_ok {
            return Err(BlockError::PrevBlockNotFound);
        }
        // The timestamp must not lie past the permitted future window.
        let in_window = match current_time.secs.checked_add(
            self.chain_config.max_future_block_time_offset_secs,
        ) {
            Some(bound) => block.block_time() as u64 <= bound,
            None => true,
        };
        if !in_window {
            return Err(BlockError::BlockFromTheFuture);
        }
        // The header must commit to the transactions.
        let computed = match crate::block::calculate_signed_tx_merkle_root(block.transactions()) {
            Ok(root) => root,
            Err(_) => None,
        };
        if !opt_h256_eq(&computed, &block.merkle_root()) {
            return Err(BlockError::MerkleRootMismatch);
        }
        if !opt_h256_eq(&computed, &block.witness_merkle_root()) {
            return Err(BlockError::WitnessMerkleRootMismatch);
        }
        // The consensus check for a stake block: strict timestamp
        // ordering against the parent, a live kernel, and the kernel's
        // pool matching the declared pool.
        match block.consensus_data() {
            ConsensusData::NoData => {},
            ConsensusData::PoW(_) => {},
            ConsensusData::PoS(pos) => {
                let parent_time = match block.prev_block_id() {
                    None => {
                        return Err(
                            BlockError::ConsensusVerificationFailed(
                                ConsensusPoSError::NoSealedEpochData,
                            ),
                        );
                    },
                    Some(p) => match self.chainstate_storage.get_block(p) {
                        Some(pb) => pb.block_time(),
                        None => {
                            return Err(
                                BlockError::ConsensusVerificationFailed(
                                    ConsensusPoSError::NoSealedEpochData,
                                ),
                            );
                        },
                    },
                };
                match crate::consensus::check_pos_block_time(parent_time, block.block_time(), id) {
                    Ok(()) => {},
                    Err(e) => {
                        return Err(BlockError::ConsensusVerificationFailed(e));
                    },
                }
                let kernel_utxo = match self.chainstate_storage.get_utxo(
                    &pos.kernel_input.outpoint,
                ) {
                    Ok(Some(u)) => u,
                    _ => {
                        return Err(
                            BlockError::ConsensusVerificationFailed(
                                ConsensusPoSError::KernelOutpointNotFound,
                            ),
                        );
                    },
                };
                match crate::consensus::check_stake_kernel_pool(&pos.pool_id, &kernel_utxo) {
                    Ok(_) => {},
                    Err(e) => {
                        return Err(
                            BlockError::ConsensusVerificationFailed(
                                ConsensusPoSError::SpendStakeError(e),
                            ),
                        );
                    },
                }
            },
        }
        let is_genesis = block.prev_block_id().is_none();
        let new_height: u64 = match self.best_height {
            None => 0,
            Some(h) => h + 1,
        };
        let maturity = self.chain_config.decommission_maturity_block_count;
        let Block::V1(body) = block;
        let header = body.header;
        let mut txs = body.transactions;
        let ghost txs0 = txs@;
        if is_genesis {
            // The genesis block's outputs enter the set directly; its
            // inputs consume nothing.
            let n = txs.len();
            let mut rebuilt: Vec<SignedTransaction> = Vec::new();
            let mut i: usize = 0;
            while i < n
                invariant
                    i <= n,
                    self.chainstate_storage.wf(),
                    n - i == txs@.len(),
                    txs@ == txs0.skip(i as int),
                    rebuilt@ == txs0.take(i as int),
                    self.chainstate_storage.utxos_map() == genesis_fold(
                        old(self).chainstate_storage.utxos_map(),
                        txs0.take(i as int),
                    ),
                    self.chainstate_storage.undo_map() == old(
                        self,
                    ).chainstate_storage.undo_map(),
                    self.chainstate_storage.best_block_spec() == old(
                        self,
                    ).chainstate_storage.best_block_spec(),
                    self.chainstate_storage.blocks_map() == old(
                        self,
                    ).chainstate_storage.blocks_map(),
                    self.chainstate_storage.heights() == old(self).chainstate_storage.heights(),
                    self.chainstate_storage.tx_index_map() == old(
                        self,
                    ).chainstate_storage.tx_index_map(),
                    self.chainstate_storage.token_aux_map() == old(
                        self,
                    ).chainstate_storage.token_aux_map(),
                    self.chainstate_storage.token_index_map() == old(
                        self,
                    ).chainstate_storage.token_index_map(),
                    self.best_height == old(self).best_height,
                    self.chain_config == old(self).chain_config,
                decreases n - i,
            {
                let tx = txs.remove(0);
                proof {
                    assert(txs0.skip(i as int)[0] == txs0[i as int]);
                    assert(txs@ =~= txs0.skip(i + 1 as int));
                }
                let tx_id = tx.get_id();
                let outs_vec = tx.transaction.outputs();
                let n_out = outs_vec.len();
                let ghost outs_seq = crate::transaction::tx_outputs(tx.transaction);
                let mut oi: usize = 0;
                while oi < n_out
                    invariant
                        oi <= n_out,
                        n_out == outs_seq.len(),
                        n_out <= u32::MAX,
                        crate::transaction::tx_outputs(tx.transaction) == outs_seq,
                        tx_id == crate::encode::tx_id_spec(tx.transaction),
                        self.chainstate_storage.wf(),
                        crate::tx_verifier::add_outputs_from(
                            self.chainstate_storage.utxos_map(),
                            tx_id,
                            outs_seq,
                            oi as int,
                            0,
                        ) == crate::tx_verifier::add_outputs_from(
                            genesis_fold(
                                old(self).chainstate_storage.utxos_map(),
                                txs0.take(i as int),
                            ),
                            tx_id,
                            outs_seq,
                            0,
                            0,
                        ),
                        self.chainstate_storage.undo_map() == old(
                            self,
                        ).chainstate_storage.undo_map(),
                        self.chainstate_storage.best_block_spec() == old(
                            self,
                        ).chainstate_storage.best_block_spec(),
                        self.chainstate_storage.blocks_map() == old(
                            self,
                        ).chainstate_storage.blocks_map(),
                        self.chainstate_storage.heights() == old(
                            self,
                        ).chainstate_storage.heights(),
                        self.chainstate_storage.tx_index_map() == old(
                            self,
                        ).chainstate_storage.tx_index_map(),
                        self.chainstate_storage.token_aux_map() == old(
                            self,
                        ).chainstate_storage.token_aux_map(),
                        self.chainstate_storage.token_index_map() == old(
                            self,
                        ).chainstate_storage.token_index_map(),
                        self.best_height == old(self).best_height,
                        self.chain_config == old(self).chain_config,
                    decreases n_out - oi,
                {
                    let o = tx.transaction.outputs()[oi];
                    let spendable = match &o {
                        crate::transaction::TxOutput::Transfer(_, _) => true,
                        crate::transaction::TxOutput::LockThenTransfer(_, _, _) => true,
                        crate::transaction::TxOutput::Burn(_) => false,
                        crate::transaction::TxOutput::CreateStakePool(_, _) => true,
                        crate::transaction::TxOutput::ProduceBlockFromStake(_, _) => true,
                        crate::transaction::TxOutput::CreateDelegationId(_, _) => false,
                        crate::transaction::TxOutput::DelegateStaking(_, _) => false,
                    };
                    if spendable {
                        let op = OutPoint {
                            source_id: crate::transaction::OutPointSourceId::Transaction(tx_id),
                            index: oi as u32,
                        };
                        let utxo = Utxo {
                            output: o,
                            is_block_reward: false,
                            source_height: BlockHeight { height: 0 },
                        };
                        let _ = self.chainstate_storage.add_utxo(&op, utxo);
                        proof {
                            assert(op == crate::tx_verifier::op_of(tx_id, oi as int));
                        }
                    }
                    oi = oi + 1;
                }
                proof {
                    assert(txs0.take(i + 1 as int).drop_last() =~= txs0.take(i as int));
                    assert(txs0.take(i + 1 as int).last() == txs0[i as int]);
                }
                rebuilt.push(tx);
                proof {
                    assert(rebuilt@ =~= txs0.take(i + 1 as int));
                }
                i = i + 1;
            }
            proof {
                assert(txs0.take(n as int) =~= txs0);
            }
            let stored = Block::V1(crate::block::BlockV1 { header, transactions: rebuilt });
            let _ = self.chainstate_storage.set_best_block_for_utxos(&id);
            self.chainstate_storage.set_block(id, stored);
            self.chainstate_storage.set_height_id(new_height, id);
            self.best_height = Some(new_height);
            return Ok(());
        }
        // Connect each transaction through a fresh verifier overlay.
        let mut tv = TransactionVerifier::new();
        let source = TransactionSourceForConnect::Chain {
            new_block_height: BlockHeight { height: new_height },
            block_id: id,
        };
        let ghost base = crate::utxo::effective_utxos(
            tv.utxo_cache@,
            self.chainstate_storage.utxos_map(),
        );
        proof {
            assert(base =~= old(self).chainstate_storage.utxos_map());
        }
        let n = txs.len();
        let mut rebuilt: Vec<SignedTransaction> = Vec::new();
        let mut i: usize = 0;
        while i < n
            invariant
                i <= n,
                *self == *old(self),
                self.chainstate_storage.wf(),
                tv.wf(),
                n - i == txs@.len(),
                txs@ == txs0.skip(i as int),
                rebuilt@ == txs0.take(i as int),
                crate::utxo::fresh_consistent(
                    tv.utxo_cache@,
                    self.chainstate_storage.utxos_map(),
                ),
                source == (TransactionSourceForConnect::Chain {
                    new_block_height: BlockHeight { height: new_height },
                    block_id: id,
                }),
                new_height <= u64::MAX,
                maturity == old(self).chain_config.decommission_maturity_block_count,
                connect_txs_fold(base, txs0.take(i as int), new_height as int, maturity) == Ok::<
                    Map<OutPoint, Utxo>,
                    ConnectTransactionError,
                >(
                    crate::utxo::effective_utxos(
                        tv.utxo_cache@,
                        self.chainstate_storage.utxos_map(),
                    ),
                ),
            decreases n - i,
        {
            let tx = txs.remove(0);
            proof {
                assert(txs0.skip(i as int)[0] == txs0[i as int]);
                assert(txs@ =~= txs0.skip(i + 1 as int));
                assert(txs0.take(i + 1 as int).drop_last() =~= txs0.take(i as int));
                assert(txs0.take(i + 1 as int).last() == txs0[i as int]);
            }
            let res = tv.connect_transaction(&self.chainstate_storage, &source, &tx, maturity);
            match res {
                Ok(_fee) => {},
                Err(e) => {
                    proof {
                        assert(connect_txs_fold(
                            base,
                            txs0.take(i + 1 as int),
                            new_height as int,
                            maturity,
                        ) == Err::<Map<OutPoint, Utxo>, ConnectTransactionError>(e));
                        lemma_fold_err_prefix(base, txs0, new_height as int, maturity, i + 1);
                    }
                    return Err(BlockError::StateUpdateFailed(e));
                },
            }
            rebuilt.push(tx);
            proof {
                assert(rebuilt@ =~= txs0.take(i + 1 as int));
            }
            i = i + 1;
        }
        proof {
            assert(txs0.take(n as int) =~= txs0);
        }
        // Commit: UTXO changes and undo data land, then the block itself
        // and the new tip.
        let delta = match tv.consume() {
            Ok(d) => d,
            Err(_) => {
                proof {
                    assert(false);
                }
                return Err(BlockError::StateUpdateFailed(ConnectTransactionError::StorageError));
            },
        };
        match self.chainstate_storage.flush_delta(delta) {
            Ok(()) => {},
            Err(_) => {
                proof {
                    assert(false);
                }
                return Err(BlockError::StateUpdateFailed(ConnectTransactionError::StorageError));
            },
        }
        let stored = Block::V1(crate::block::BlockV1 { header, transactions: rebuilt });
        let _ = self.chainstate_storage.set_best_block_for_utxos(&id);
        self.chainstate_storage.set_block(id, stored);
        self.chainstate_storage.set_height_id(new_height, id);
        self.best_height = Some(new_height);
        Ok(())
    }
}

/// Compare two optional digests.
fn opt_h256_eq(a: &Option<H256>, b: &Option<H256>) -> (r: bool)
    ensures
        r <==> *a == *b,
{
    match (a, b) {
        (None, None) => true,
        (Some(x), Some(y)) => *x == *y,
        _ => false,
    }
}

} // verus!
