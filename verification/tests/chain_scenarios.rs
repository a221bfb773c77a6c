//! Scenario tests over the verifier hierarchy, the storage round trip,
//! timelocks, the stake-kernel check and the mempool admission checks.

use chaincore::block::{Block, ConsensusData, PoSData};
use chaincore::chainstate::{BlockError, BlockSource, Chainstate};
use chaincore::config::create_unit_test_config;
use chaincore::consensus::ConsensusPoSError;
use chaincore::mempool::{check_preliminary_mempool_policy, MempoolPolicyError};
use chaincore::mempool_store::{MempoolStore, TxMempoolEntry};
use chaincore::primitives::{Amount, BlockHeight, H256, Time};
use chaincore::storage::{Store, UtxoDBInterface};
use chaincore::transaction::{
    Destination, InputWitness, OutPoint, OutPointSourceId, OutputTimeLock, SignedTransaction,
    StakePoolData, Transaction, TxInput, TxOutput,
};
use chaincore::tx_verifier::{
    BlockUndoEntry, ConnectTransactionError, SpendStakeError, TransactionVerifier,
    TransactionVerifierStorageError,
};
use chaincore::utxo::{BlockUndo, TxUndo, Utxo, UtxosView};

fn acs() -> Destination {
    Destination::AnyoneCanSpend
}

fn transfer(amount: u128) -> TxOutput {
    TxOutput::Transfer(Amount { atoms: amount }, acs())
}

fn tx_of(inputs: Vec<TxInput>, outputs: Vec<TxOutput>) -> SignedTransaction {
    let wits = inputs.iter().map(|_| InputWitness::NoSignature(None)).collect::<Vec<_>>();
    let tx = Transaction::new(0, inputs, outputs).unwrap();
    SignedTransaction::new(tx, wits).unwrap()
}

fn now() -> Time {
    // At or after the unit-test genesis timestamp, so every block of
    // these scenarios sits within the permitted time window.
    Time::from_secs(1639975460)
}

fn input_of(tx_id: H256, index: u32) -> TxInput {
    TxInput::new(OutPointSourceId::Transaction(tx_id), index)
}

fn genesis() -> Block {
    chaincore::config::create_unit_test_genesis(acs())
}

fn fresh_chainstate() -> Chainstate {
    Chainstate::new_no_genesis(create_unit_test_config(), Store::new_empty().unwrap())
}

fn best_height(cs: &Chainstate) -> u64 {
    cs.get_best_block_index().unwrap().block_height().height
}

#[test]
fn utxo_set_and_conflict_hierarchy() {
    // Two stacked verifiers spend and record undo data for one block id;
    // the duplicate undo is refused on flush, the rest lands in storage.
    let mut store = Store::new_empty().unwrap();
    let op1 = OutPoint::new(OutPointSourceId::Transaction(H256::from_low_u64(1)), 0);
    let utxo1 = Utxo::new(transfer(1000), false, BlockHeight::new(0));
    store.add_utxo(&op1, utxo1).unwrap();
    let block_1_id = H256::from_low_u64(77);
    let block_1_undo = BlockUndo::new(None, vec![TxUndo::new(vec![utxo1])]);
    let block_2_undo = BlockUndo::new(None, vec![]);

    let mut verifier1 = TransactionVerifier::new();
    let spent = verifier1.utxo_cache.spend_utxo(&store, &op1).unwrap();
    assert_eq!(spent, utxo1);
    verifier1
        .utxo_block_undo
        .insert(block_1_id, BlockUndoEntry { undo: block_1_undo, is_fresh: true });

    let mut verifier2 = verifier1.derive_child();
    // The outpoint is already consumed below this layer.
    let view = chaincore::utxo::LayeredView { cache: &verifier1.utxo_cache, parent: &store };
    assert_eq!(
        verifier2.utxo_cache.spend_utxo(&view, &op1),
        Err(chaincore::utxo::UtxoError::NoUtxoFound)
    );
    verifier2
        .utxo_block_undo
        .insert(block_1_id, BlockUndoEntry { undo: block_2_undo, is_fresh: true });

    let consumed2 = verifier2.consume().unwrap();
    assert_eq!(
        verifier1.flush_into(consumed2).unwrap_err(),
        TransactionVerifierStorageError::DuplicateBlockUndo(block_1_id)
    );

    let consumed1 = verifier1.consume().unwrap();
    store.flush_delta(consumed1).unwrap();
    assert_eq!(store.get_utxo(&op1).unwrap(), None);
    assert!(store.get_undo_data(block_1_id).unwrap().is_some());
}

#[test]
fn utxo_db_interface_round_trip() {
    // Write, read, delete through the UTXO persistence interface; the
    // undo data round-trips and the spend reverses bit for bit.
    let mut db = UtxoDBInterface::new(Store::new_empty().unwrap());
    let best: H256 = H256::from_low_u64(5);
    db.set_best_block_id(&best).unwrap();
    assert_eq!(db.get_best_block_id().unwrap(), Some(best));

    let op = OutPoint::new(OutPointSourceId::BlockReward(H256::from_low_u64(9)), 0);
    let utxo = Utxo::new(transfer(42), true, BlockHeight::new(0));
    db.set_utxo(&op, utxo).unwrap();
    assert_eq!(db.get_utxo(&op).unwrap(), Some(utxo));

    let block_id = H256::from_low_u64(6);
    let undo = BlockUndo::new(None, vec![TxUndo::new(vec![utxo])]);
    db.set_undo_data(block_id, undo).unwrap();
    let read_back = db.get_undo_data(block_id).unwrap().unwrap();
    assert_eq!(read_back.tx_undos()[0].inner()[0], utxo);

    // Spend, then restore from the undo: the set returns to its old state.
    db.del_utxo(&op).unwrap();
    assert_eq!(db.get_utxo(&op).unwrap(), None);
    db.set_utxo(&op, read_back.tx_undos()[0].inner()[0]).unwrap();
    assert_eq!(db.get_utxo(&op).unwrap(), Some(utxo));
    db.del_undo_data(block_id).unwrap();
    assert!(db.get_undo_data(block_id).unwrap().is_none());
}

#[test]
fn output_lock_until_height() {
    // A LockThenTransfer until height 10 created at height 1 cannot be
    // spent at heights 2..9 and unlocks at height 10.
    let mut cs = fresh_chainstate();
    let g = genesis();
    let g_id = g.get_id();
    let g_tx_id = g.transactions()[0].get_id();
    cs.process_block(g, BlockSource::Local, now()).unwrap();
    assert_eq!(best_height(&cs), 0);

    let tx1 = tx_of(
        vec![input_of(g_tx_id, 0)],
        vec![
            transfer(100000),
            TxOutput::LockThenTransfer(
                Amount { atoms: 100000 },
                acs(),
                OutputTimeLock::UntilHeight(BlockHeight::new(10)),
            ),
        ],
    );
    let tx1_id = tx1.get_id();
    let b1 = Block::new(vec![tx1], Some(g_id), 2, ConsensusData::NoData).unwrap();
    let mut prev_id = b1.get_id();
    cs.process_block(b1, BlockSource::Local, now()).unwrap();
    assert_eq!(best_height(&cs), 1);

    let locked_input = input_of(tx1_id, 1);
    let mut spend_from = tx1_id;
    for height in 2..10u64 {
        // The locked spend is refused, the best block stays.
        let attempt = tx_of(vec![locked_input], vec![transfer(5000)]);
        let bad = Block::new(vec![attempt], Some(prev_id), height as u32 + 1, ConsensusData::NoData)
            .unwrap();
        assert_eq!(
            cs.process_block(bad, BlockSource::Local, now()).unwrap_err(),
            BlockError::StateUpdateFailed(ConnectTransactionError::TimeLockViolation)
        );
        assert_eq!(best_height(&cs), height - 1);

        // An unlocked spend advances the chain.
        let advance = tx_of(vec![input_of(spend_from, 0)], vec![transfer(1000)]);
        spend_from = advance.get_id();
        let good =
            Block::new(vec![advance], Some(prev_id), height as u32 + 1, ConsensusData::NoData)
                .unwrap();
        prev_id = good.get_id();
        cs.process_block(good, BlockSource::Local, now()).unwrap();
        assert_eq!(best_height(&cs), height);
    }

    // At height 10 the lock releases.
    let unlock = tx_of(vec![locked_input], vec![transfer(5000)]);
    let good = Block::new(vec![unlock], Some(prev_id), 42, ConsensusData::NoData).unwrap();
    cs.process_block(good, BlockSource::Local, now()).unwrap();
    assert_eq!(best_height(&cs), 10);
}

#[test]
fn output_lock_spend_at_same_block() {
    // A locked output can never be spent in the block that creates it;
    // the best block remains the parent.
    let mut cs = fresh_chainstate();
    let g = genesis();
    let g_id = g.get_id();
    let g_tx_id = g.transactions()[0].get_id();
    cs.process_block(g, BlockSource::Local, now()).unwrap();

    let tx1 = tx_of(
        vec![input_of(g_tx_id, 0)],
        vec![
            transfer(100000),
            TxOutput::LockThenTransfer(
                Amount { atoms: 100000 },
                acs(),
                OutputTimeLock::ForBlockCount(10),
            ),
        ],
    );
    let tx2 = tx_of(vec![input_of(tx1.get_id(), 1)], vec![transfer(50000)]);
    let bad = Block::new(vec![tx1, tx2], Some(g_id), 2, ConsensusData::NoData).unwrap();
    assert_eq!(
        cs.process_block(bad, BlockSource::Local, now()).unwrap_err(),
        BlockError::StateUpdateFailed(ConnectTransactionError::TimeLockViolation)
    );
    assert_eq!(best_height(&cs), 0);
}

#[test]
fn mismatched_pools_in_kernel_and_reward() {
    // A stake block whose kernel references one pool but declares another
    // is refused with exactly the two pool ids; the best block stays.
    let mut cs = fresh_chainstate();
    let g = genesis();
    let g_id = g.get_id();
    let g_tx_id = g.transactions()[0].get_id();
    cs.process_block(g, BlockSource::Local, now()).unwrap();

    let pool1 = H256::from_low_u64(101);
    let pool2 = H256::from_low_u64(202);
    let tx1 = tx_of(
        vec![input_of(g_tx_id, 0)],
        vec![TxOutput::CreateStakePool(
            pool1,
            StakePoolData { pledge: Amount { atoms: 90000000000000000 }, staker: acs() },
        )],
    );
    let kernel_outpoint = input_of(tx1.get_id(), 0);
    let b1 = Block::new(vec![tx1], Some(g_id), 2, ConsensusData::NoData).unwrap();
    let b1_id = b1.get_id();
    cs.process_block(b1, BlockSource::Local, now()).unwrap();

    let pos = PoSData { kernel_input: kernel_outpoint, pool_id: pool2, vrf_data: H256::zero() };
    let b2 = Block::new(vec![], Some(b1_id), 3, ConsensusData::PoS(pos)).unwrap();
    assert_eq!(
        cs.process_block(b2, BlockSource::Local, now()).unwrap_err(),
        BlockError::ConsensusVerificationFailed(ConsensusPoSError::SpendStakeError(
            SpendStakeError::StakePoolIdMismatch(pool1, pool2)
        ))
    );
    assert_eq!(best_height(&cs), 1);
}

#[test]
fn duplicate_submission_is_rejected() {
    // The first admission check passes; once the entry is in the pool the
    // same transaction is refused as already present.
    let mut store = MempoolStore::new();
    let stx = tx_of(
        vec![input_of(H256::from_low_u64(1), 0)],
        vec![transfer(900)],
    );
    assert_eq!(check_preliminary_mempool_policy(&store, &stx), Ok(()));

    let fee = Amount { atoms: 100 };
    let entry = TxMempoolEntry {
        encoded_size: stx.encoded_size(),
        tx: stx.clone(),
        fee,
        creation_time: Time::from_secs(1),
        parents: vec![],
        ancestors: vec![],
        descendants: vec![],
        ancestor_score: fee,
        descendant_score: fee,
    };
    store.add_tx(entry).unwrap();
    assert_eq!(
        check_preliminary_mempool_policy(&store, &stx),
        Err(MempoolPolicyError::TransactionAlreadyInMempool)
    );
}

#[test]
fn empty_transaction_is_rejected() {
    let store = MempoolStore::new();
    let no_inputs = tx_of(vec![], vec![transfer(1)]);
    assert_eq!(
        check_preliminary_mempool_policy(&store, &no_inputs),
        Err(MempoolPolicyError::NoInputs)
    );
    let no_outputs = tx_of(vec![input_of(H256::from_low_u64(1), 0)], vec![]);
    assert_eq!(
        check_preliminary_mempool_policy(&store, &no_outputs),
        Err(MempoolPolicyError::NoOutputs)
    );
}


#[test]
fn stake_output_spend_at_same_block() {
    // A stake output can never leave in the block that creates it: the
    // same-block spend fails the timelock gate, the best block stays.
    let mut cs = fresh_chainstate();
    let g = genesis();
    let g_id = g.get_id();
    let g_tx_id = g.transactions()[0].get_id();
    cs.process_block(g, BlockSource::Local, now()).unwrap();

    let pool = H256::from_low_u64(9);
    let tx1 = tx_of(
        vec![input_of(g_tx_id, 0)],
        vec![TxOutput::CreateStakePool(
            pool,
            StakePoolData { pledge: Amount { atoms: 1000 }, staker: acs() },
        )],
    );
    let tx2 = tx_of(
        vec![input_of(tx1.get_id(), 0)],
        vec![TxOutput::LockThenTransfer(
            Amount { atoms: 500 },
            acs(),
            OutputTimeLock::ForBlockCount(2000),
        )],
    );
    let bad = Block::new(vec![tx1, tx2], Some(g_id), 2, ConsensusData::NoData).unwrap();
    assert_eq!(
        cs.process_block(bad, BlockSource::Local, now()).unwrap_err(),
        BlockError::StateUpdateFailed(ConnectTransactionError::TimeLockViolation)
    );
    assert_eq!(best_height(&cs), 0);
}

#[test]
fn zero_count_lock_spend_at_same_block() {
    // Even a zero-block-count lock cannot be consumed in its creating
    // block.
    let mut cs = fresh_chainstate();
    let g = genesis();
    let g_id = g.get_id();
    let g_tx_id = g.transactions()[0].get_id();
    cs.process_block(g, BlockSource::Local, now()).unwrap();

    let tx1 = tx_of(
        vec![input_of(g_tx_id, 0)],
        vec![TxOutput::LockThenTransfer(
            Amount { atoms: 700 },
            acs(),
            OutputTimeLock::ForBlockCount(0),
        )],
    );
    let tx2 = tx_of(vec![input_of(tx1.get_id(), 0)], vec![transfer(600)]);
    let bad = Block::new(vec![tx1, tx2], Some(g_id), 2, ConsensusData::NoData).unwrap();
    assert_eq!(
        cs.process_block(bad, BlockSource::Local, now()).unwrap_err(),
        BlockError::StateUpdateFailed(ConnectTransactionError::TimeLockViolation)
    );
    assert_eq!(best_height(&cs), 0);
}

#[test]
fn decommission_requires_maturity_lock() {
    // Spending a stake must lock every recovered output for at least the
    // decommission maturity; a plain transfer is refused, a long enough
    // lock passes.
    let mut cs = fresh_chainstate();
    let maturity = cs.chain_config.decommission_maturity_block_count;
    let g = genesis();
    let g_id = g.get_id();
    let g_tx_id = g.transactions()[0].get_id();
    cs.process_block(g, BlockSource::Local, now()).unwrap();

    let pool = H256::from_low_u64(11);
    let tx1 = tx_of(
        vec![input_of(g_tx_id, 0)],
        vec![TxOutput::CreateStakePool(
            pool,
            StakePoolData { pledge: Amount { atoms: 1000 }, staker: acs() },
        )],
    );
    let stake_input = input_of(tx1.get_id(), 0);
    let b1 = Block::new(vec![tx1], Some(g_id), 2, ConsensusData::NoData).unwrap();
    let b1_id = b1.get_id();
    cs.process_block(b1, BlockSource::Local, now()).unwrap();

    // Recovered funds not locked: refused.
    let loose = tx_of(vec![stake_input], vec![transfer(900)]);
    let bad = Block::new(vec![loose], Some(b1_id), 3, ConsensusData::NoData).unwrap();
    assert_eq!(
        cs.process_block(bad, BlockSource::Local, now()).unwrap_err(),
        BlockError::StateUpdateFailed(ConnectTransactionError::SpendStakeError(
            SpendStakeError::DecommissionMaturityViolation
        ))
    );
    assert_eq!(best_height(&cs), 1);

    // Locked for the maturity distance: accepted.
    let locked = tx_of(
        vec![stake_input],
        vec![TxOutput::LockThenTransfer(
            Amount { atoms: 900 },
            acs(),
            OutputTimeLock::ForBlockCount(maturity),
        )],
    );
    let good = Block::new(vec![locked], Some(b1_id), 3, ConsensusData::NoData).unwrap();
    cs.process_block(good, BlockSource::Local, now()).unwrap();
    assert_eq!(best_height(&cs), 2);
}

#[test]
fn block_from_the_future_is_rejected() {
    // A block stamped past the permitted window is refused before any
    // state changes.
    let mut cs = fresh_chainstate();
    let offset = cs.chain_config.max_future_block_time_offset_secs;
    let g = genesis();
    let g_id = g.get_id();
    let g_tx_id = g.transactions()[0].get_id();
    cs.process_block(g, BlockSource::Local, now()).unwrap();

    let tx1 = tx_of(vec![input_of(g_tx_id, 0)], vec![transfer(900)]);
    let far = (now().secs + offset + 1) as u32;
    let bad = Block::new(vec![tx1], Some(g_id), far, ConsensusData::NoData).unwrap();
    assert_eq!(
        cs.process_block(bad, BlockSource::Local, now()).unwrap_err(),
        BlockError::BlockFromTheFuture
    );
    assert_eq!(best_height(&cs), 0);
}
