//! The mempool admission policy: the cheap preliminary checks, the relay
//! and rolling fee floors, conflict detection, and the replace-by-fee
//! gates. Each check is a pure function over the store plus a clock value
//! handed in by the caller.

use vstd::prelude::*;

use crate::feerate::{
    Fee, FeeRate, RollingFeeRate, ENABLE_RBF, INCREMENTAL_RELAY_FEE_RATE_ATOMS_PER_KB,
    INCREMENTAL_RELAY_THRESHOLD_ATOMS_PER_KB, MAX_BLOCK_SIZE_BYTES, RELAY_FEE_PER_BYTE,
    ROLLING_FEE_BASE_HALFLIFE_SECS, ROLLING_FEE_DECAY_INTERVAL_SECS,
};
use crate::mempool_store::MempoolStore;
use crate::primitives::{Amount, H256, Time};
use crate::transaction::SignedTransaction;
use crate::tx_verifier::ConnectTransactionError;

verus! {

/// Why the pool refused a transaction.
#[derive(PartialEq, Eq, Structural, Clone, Copy, Debug)]
pub enum MempoolPolicyError {
    NoInputs,
    NoOutputs,
    ExceedsMaxBlockSize,
    TransactionAlreadyInMempool,
    RelayFeeOverflow,
    InsufficientFeesToRelay { tx_fee: Fee, relay_fee: Fee },
    RollingFeeThresholdNotMet { minimum_fee: Fee, tx_fee: Fee },
    FeeOverflow,
    ConflictWithIrreplaceableTransaction,
    ReplacementFeeLowerThanOriginal,
    TransactionFeeLowerThanConflictsWithDescendants,
    ConflictsFeeOverflow,
    AdditionalFeesUnderflow,
    InsufficientFeesToRelayRBF,
    TooManyPotentialReplacements,
    MempoolFull,
    DescendantOfExpiredTransaction,
}

/// Why validating a transaction against the chain failed.
#[derive(PartialEq, Eq, Structural, Clone, Copy, Debug)]
pub enum TxValidationError {
    /// The chain tip moved under the validation too often.
    TipMoved,
}

/// The pool's error: a policy refusal, a validation failure, or a
/// verifier error.
#[derive(PartialEq, Eq, Structural, Clone, Copy, Debug)]
pub enum MempoolError {
    Policy(MempoolPolicyError),
    Validity(TxValidationError),
    TxValidation(ConnectTransactionError),
}

/// Whether a verifier error marks the transaction as a potential orphan:
/// only a missing or spent input does; every other failure is final.
pub fn is_orphan_error(err: &ConnectTransactionError) -> (r: bool)
    ensures
        r <==> *err is MissingOutputOrSpent,
{
    match err {
        ConnectTransactionError::MissingOutputOrSpent => true,
        _ => false,
    }
}

/// The relay fee a transaction of this encoded size owes.
pub fn get_relay_fee(tx: &SignedTransaction) -> (r: Fee)
    ensures
        r.atoms == RELAY_FEE_PER_BYTE * crate::encode::signed_tx_bytes(*tx).len(),
{
    let size = tx.encoded_size();
    proof {
        assert(RELAY_FEE_PER_BYTE * (size as int) == size as int);
    }
    Amount { atoms: size as u128 }
}

/// The cheap checks that run before anything else: at least one input,
/// at least one output, a bounded encoding, and no duplicate.
pub fn check_preliminary_mempool_policy(store: &MempoolStore, tx: &SignedTransaction) -> (r:
    Result<(), MempoolPolicyError>)
    requires
        store.wf(),
        tx.wf(),
    ensures
        crate::transaction::tx_inputs(tx.transaction).len() == 0 ==> r == Err::<
            (),
            MempoolPolicyError,
        >(MempoolPolicyError::NoInputs),
        crate::transaction::tx_inputs(tx.transaction).len() > 0
            && crate::transaction::tx_outputs(tx.transaction).len() == 0 ==> r == Err::<
            (),
            MempoolPolicyError,
        >(MempoolPolicyError::NoOutputs),
        crate::transaction::tx_inputs(tx.transaction).len() > 0
            && crate::transaction::tx_outputs(tx.transaction).len() > 0
            && crate::encode::signed_tx_bytes(*tx).len() > MAX_BLOCK_SIZE_BYTES ==> r == Err::<
            (),
            MempoolPolicyError,
        >(MempoolPolicyError::ExceedsMaxBlockSize),
        crate::transaction::tx_inputs(tx.transaction).len() > 0
            && crate::transaction::tx_outputs(tx.transaction).len() > 0
            && crate::encode::signed_tx_bytes(*tx).len() <= MAX_BLOCK_SIZE_BYTES
            && store@.dom().contains(crate::encode::tx_id_spec(tx.transaction)) ==> r == Err::<
            (),
            MempoolPolicyError,
        >(MempoolPolicyError::TransactionAlreadyInMempool),
        crate::transaction::tx_inputs(tx.transaction).len() > 0
            && crate::transaction::tx_outputs(tx.transaction).len() > 0
            && crate::encode::signed_tx_bytes(*tx).len() <= MAX_BLOCK_SIZE_BYTES
            && !store@.dom().contains(crate::encode::tx_id_spec(tx.transaction)) ==> r == Ok::<
            (),
            MempoolPolicyError,
        >(()),
{
    if tx.inputs().len() == 0 {
        return Err(MempoolPolicyError::NoInputs);
    }
    if tx.outputs().len() == 0 {
        return Err(MempoolPolicyError::NoOutputs);
    }
    if tx.encoded_size() > MAX_BLOCK_SIZE_BYTES {
        return Err(MempoolPolicyError::ExceedsMaxBlockSize);
    }
    let id = tx.get_id();
    if store.contains(&id) {
        return Err(MempoolPolicyError::TransactionAlreadyInMempool);
    }
    Ok(())
}

/// The minimum-relay-fee check: the fee covers the per-byte relay floor.
pub fn pays_minimum_relay_fees(tx_fee: Fee, tx: &SignedTransaction) -> (r: Result<
    (),
    MempoolPolicyError,
>)
    ensures
        tx_fee.atoms >= RELAY_FEE_PER_BYTE * crate::encode::signed_tx_bytes(*tx).len() ==> r
            == Ok::<(), MempoolPolicyError>(()),
        tx_fee.atoms < RELAY_FEE_PER_BYTE * crate::encode::signed_tx_bytes(*tx).len() ==> (
        r matches Err(e) && e matches MempoolPolicyError::InsufficientFeesToRelay {
            tx_fee: tf,
            relay_fee: rf,
        } && tf == tx_fee && rf.atoms == RELAY_FEE_PER_BYTE * crate::encode::signed_tx_bytes(
            *tx,
        ).len()),
{
    let relay_fee = get_relay_fee(tx);
    if tx_fee.atoms >= relay_fee.atoms {
        Ok(())
    } else {
        Err(MempoolPolicyError::InsufficientFeesToRelay { tx_fee, relay_fee })
    }
}

/// The in-pool transactions conflicting with the candidate: for each
/// input, the id of the pool entry already spending its outpoint.
pub fn conflicting_tx_ids(store: &MempoolStore, tx: &SignedTransaction) -> (r: Vec<H256>)
    requires
        store.wf(),
    ensures
        forall|t: int|
            0 <= t < r@.len() ==> store@.dom().contains(#[trigger] r@[t]) && (exists|i: int|
                0 <= i < crate::transaction::tx_inputs(tx.transaction).len()
                    && crate::mempool_store::spends_outpoint(
                    store@[r@[t]],
                    (#[trigger] crate::transaction::tx_inputs(tx.transaction)[i]).outpoint,
                )),
        r@.len() == 0 ==> (forall|i: int, id: H256|
            0 <= i < crate::transaction::tx_inputs(tx.transaction).len()
                && #[trigger] store@.dom().contains(id) ==> !crate::mempool_store::spends_outpoint(
                store@[id],
                (#[trigger] crate::transaction::tx_inputs(tx.transaction)[i]).outpoint,
            )),
        (exists|i: int, id: H256|
            0 <= i < crate::transaction::tx_inputs(tx.transaction).len()
                && #[trigger] store@.dom().contains(id) && crate::mempool_store::spends_outpoint(
                store@[id],
                (#[trigger] crate::transaction::tx_inputs(tx.transaction)[i]).outpoint,
            )) ==> r@.len() > 0,
{
    let mut out: Vec<H256> = Vec::new();
    let inputs = tx.inputs();
    let n = inputs.len();
    let ghost ins = crate::transaction::tx_inputs(tx.transaction);
    let mut i: usize = 0;
    while i < n
        invariant
            i <= n,
            store.wf(),
            n == ins.len(),
            inputs@ == ins,
            forall|t: int|
                0 <= t < out@.len() ==> store@.dom().contains(#[trigger] out@[t]) && (exists|
                    j: int,
                |
                    0 <= j < n && crate::mempool_store::spends_outpoint(
                        store@[out@[t]],
                        (#[trigger] ins[j]).outpoint,
                    )),
            out@.len() == 0 ==> (forall|j: int, id: H256|
                0 <= j < i && #[trigger] store@.dom().contains(id)
                    ==> !crate::mempool_store::spends_outpoint(
                    store@[id],
                    (#[trigger] ins[j]).outpoint,
                )),
            forall|j: int, id: H256|
                0 <= j < i && #[trigger] store@.dom().contains(id)
                    && crate::mempool_store::spends_outpoint(
                    store@[id],
                    (#[trigger] ins[j]).outpoint,
                ) ==> out@.len() > 0,
        decreases n - i,
    {
        let ghost pre_len = out@.len();
        match store.find_conflicting_tx(&inputs[i].outpoint) {
            Some(id) => {
                out.push(id);
                proof {
                    assert(crate::mempool_store::spends_outpoint(
                        store@[id],
                        (ins[i as int]).outpoint,
                    ));
                }
            },
            None => {},
        }
        i = i + 1;
    }
    proof {
        if exists|i2: int, id: H256|
            0 <= i2 < ins.len() && #[trigger] store@.dom().contains(id)
                && crate::mempool_store::spends_outpoint(
                store@[id],
                (#[trigger] ins[i2]).outpoint,
            ) {
            assert(out@.len() > 0);
        }
    }
    out
}

/// Replace-by-fee gate one: every direct conflict must pay strictly less
/// than the replacement.
pub fn pays_more_than_direct_conflicts(
    store: &MempoolStore,
    replacement_fee: Fee,
    conflicts: &Vec<H256>,
) -> (r: Result<(), MempoolPolicyError>)
    requires
        store.wf(),
        forall|i: int| 0 <= i < conflicts@.len() ==> store@.dom().contains(#[trigger] conflicts@[i]),
    ensures
        r is Ok <==> (forall|i: int|
            0 <= i < conflicts@.len() ==> store@[#[trigger] conflicts@[i]].fee.atoms
                < replacement_fee.atoms),
        r is Err ==> r == Err::<(), MempoolPolicyError>(
            MempoolPolicyError::ReplacementFeeLowerThanOriginal,
        ),
    {
    let n = conflicts.len();
    let mut i: usize = 0;
    while i < n
        invariant
            i <= n,
            store.wf(),
            n == conflicts@.len(),
            forall|t: int|
                0 <= t < conflicts@.len() ==> store@.dom().contains(#[trigger] conflicts@[t]),
            forall|t: int|
                0 <= t < i ==> store@[#[trigger] conflicts@[t]].fee.atoms < replacement_fee.atoms,
        decreases n - i,
    {
        match store.get_entry(&conflicts[i]) {
            Some(e) => {
                if e.fee.atoms >= replacement_fee.atoms {
                    return Err(MempoolPolicyError::ReplacementFeeLowerThanOriginal);
                }
            },
            None => {
                proof {
                    assert(false);
                }
            },
        }
        i = i + 1;
    }
    Ok(())
}

/// Replace-by-fee gates three and four: the replacement must pay more
/// than all conflicts together, and the surplus must cover the relay fee
/// of the replacement's own bytes — so an accepted replacement strictly
/// raises the fee paid, by at least the relay floor per byte.
pub fn pays_for_replaced_fees(
    store: &MempoolStore,
    replacement_fee: Fee,
    conflicts_with_descendants: &Vec<H256>,
    tx: &SignedTransaction,
) -> (r: Result<Fee, MempoolPolicyError>)
    requires
        store.wf(),
        forall|i: int|
            0 <= i < conflicts_with_descendants@.len() ==> store@.dom().contains(
                #[trigger] conflicts_with_descendants@[i],
            ),
    ensures
        r matches Ok(total) ==> total.atoms == crate::mempool_store::sum_fees_sat(
            store@,
            conflicts_with_descendants@,
        ) && replacement_fee.atoms > total.atoms && replacement_fee.atoms - total.atoms
            >= RELAY_FEE_PER_BYTE * crate::encode::signed_tx_bytes(*tx).len(),
        replacement_fee.atoms <= crate::mempool_store::sum_fees_sat(
            store@,
            conflicts_with_descendants@,
        ) ==> r == Err::<Fee, MempoolPolicyError>(
            MempoolPolicyError::TransactionFeeLowerThanConflictsWithDescendants,
        ),
        replacement_fee.atoms > crate::mempool_store::sum_fees_sat(
            store@,
            conflicts_with_descendants@,
        ) && replacement_fee.atoms - crate::mempool_store::sum_fees_sat(
            store@,
            conflicts_with_descendants@,
        ) >= RELAY_FEE_PER_BYTE * crate::encode::signed_tx_bytes(*tx).len() ==> r == Ok::<
            Fee,
            MempoolPolicyError,
        >(
            Amount {
                atoms: crate::mempool_store::sum_fees_sat(store@, conflicts_with_descendants@),
            },
        ),
        replacement_fee.atoms > crate::mempool_store::sum_fees_sat(
            store@,
            conflicts_with_descendants@,
        ) && replacement_fee.atoms - crate::mempool_store::sum_fees_sat(
            store@,
            conflicts_with_descendants@,
        ) < RELAY_FEE_PER_BYTE * crate::encode::signed_tx_bytes(*tx).len() ==> r == Err::<
            Fee,
            MempoolPolicyError,
        >(MempoolPolicyError::InsufficientFeesToRelayRBF),
{
    let n = conflicts_with_descendants.len();
    let mut total: u128 = 0;
    let mut i: usize = 0;
    let ghost ids = conflicts_with_descendants@;
    while i < n
        invariant
            i <= n,
            store.wf(),
            n == ids.len(),
            conflicts_with_descendants@ == ids,
            forall|t: int| 0 <= t < ids.len() ==> store@.dom().contains(#[trigger] ids[t]),
            total == crate::mempool_store::sum_fees_sat(store@, ids.take(i as int)),
        decreases n - i,
    {
        proof {
            assert(ids.take(i + 1 as int).drop_last() =~= ids.take(i as int));
        }
        match store.get_entry(&conflicts_with_descendants[i]) {
            Some(e) => {
                total = match total.checked_add(e.fee.atoms) {
                    Some(t) => t,
                    None => u128::MAX,
                };
            },
            None => {
                proof {
                    assert(false);
                }
            },
        }
        i = i + 1;
    }
    proof {
        assert(ids.take(n as int) =~= ids);
    }
    if replacement_fee.atoms <= total {
        return Err(MempoolPolicyError::TransactionFeeLowerThanConflictsWithDescendants);
    }
    let surplus = replacement_fee.atoms - total;
    let relay = get_relay_fee(tx);
    if surplus < relay.atoms {
        return Err(MempoolPolicyError::InsufficientFeesToRelayRBF);
    }
    Ok(Amount { atoms: total })
}

/// The conflict gate with replace-by-fee disabled: any conflict is a
/// refusal.
pub fn check_conflicts_rbf_disabled(store: &MempoolStore, tx: &SignedTransaction) -> (r: Result<
    (),
    MempoolPolicyError,
>)
    requires
        store.wf(),
    ensures
        r is Ok <==> (forall|i: int, id: H256|
            0 <= i < crate::transaction::tx_inputs(tx.transaction).len()
                && #[trigger] store@.dom().contains(id) ==> !crate::mempool_store::spends_outpoint(
                store@[id],
                (#[trigger] crate::transaction::tx_inputs(tx.transaction)[i]).outpoint,
            )),
        r is Err ==> r == Err::<(), MempoolPolicyError>(
            MempoolPolicyError::ConflictWithIrreplaceableTransaction,
        ),
{
    let conflicts = conflicting_tx_ids(store, tx);
    if conflicts.len() == 0 {
        Ok(())
    } else {
        proof {
            let t = 0int;
            assert(store@.dom().contains(conflicts@[t]));
            let j = choose|j: int|
                0 <= j < crate::transaction::tx_inputs(tx.transaction).len()
                    && crate::mempool_store::spends_outpoint(
                    store@[conflicts@[t]],
                    (#[trigger] crate::transaction::tx_inputs(tx.transaction)[j]).outpoint,
                );
            assert(crate::mempool_store::spends_outpoint(
                store@[conflicts@[0]],
                crate::transaction::tx_inputs(tx.transaction)[j].outpoint,
            ));
        }
        Err(MempoolPolicyError::ConflictWithIrreplaceableTransaction)
    }
}

/// The halflife the rolling fee decays with, shortened while the pool is
/// far below its cap.
pub fn rolling_fee_halflife(memory_usage: u128, max_size: u128) -> (r: u64)
    ensures
        memory_usage < max_size / 4 ==> r == ROLLING_FEE_BASE_HALFLIFE_SECS / 4,
        max_size / 4 <= memory_usage && memory_usage < max_size / 2 ==> r
            == ROLLING_FEE_BASE_HALFLIFE_SECS / 2,
        memory_usage >= max_size / 2 ==> r == ROLLING_FEE_BASE_HALFLIFE_SECS,
        r > 0,
{
    if memory_usage < max_size / 4 {
        ROLLING_FEE_BASE_HALFLIFE_SECS / 4
    } else if memory_usage < max_size / 2 {
        ROLLING_FEE_BASE_HALFLIFE_SECS / 2
    } else {
        ROLLING_FEE_BASE_HALFLIFE_SECS
    }
}

/// Read and update the rolling minimum fee rate at `now`: untouched
/// while no block has passed since the last bump or while it is already
/// zero; decayed once per interval otherwise; dropped to zero below the
/// incremental threshold; and floored at the incremental relay rate.
pub fn get_update_min_fee_rate(
    rate: &mut RollingFeeRate,
    now: Time,
    memory_usage: u128,
    max_size: u128,
) -> (r: FeeRate)
    ensures
        !old(rate).block_since_last_rolling_fee_bump
            || old(rate).rolling_minimum_fee_rate.atoms_per_kb == 0 ==> r == old(
            rate,
        ).rolling_minimum_fee_rate && *final(rate) == *old(rate),
        old(rate).block_since_last_rolling_fee_bump
            && old(rate).rolling_minimum_fee_rate.atoms_per_kb > 0 && now.secs <= old(
            rate,
        ).last_rolling_fee_update.secs + ROLLING_FEE_DECAY_INTERVAL_SECS ==> *final(rate) == *old(
            rate,
        ) && r.atoms_per_kb == (if old(rate).rolling_minimum_fee_rate.atoms_per_kb
            > INCREMENTAL_RELAY_FEE_RATE_ATOMS_PER_KB {
            old(rate).rolling_minimum_fee_rate.atoms_per_kb
        } else {
            INCREMENTAL_RELAY_FEE_RATE_ATOMS_PER_KB
        }),
        old(rate).block_since_last_rolling_fee_bump
            && old(rate).rolling_minimum_fee_rate.atoms_per_kb > 0 && now.secs > old(
            rate,
        ).last_rolling_fee_update.secs + ROLLING_FEE_DECAY_INTERVAL_SECS ==> (({
            let decayed = crate::feerate::decayed_rate(
                old(rate).rolling_minimum_fee_rate.atoms_per_kb,
                (now.secs - old(rate).last_rolling_fee_update.secs) as int
                    / rolling_halflife_spec(memory_usage, max_size) as int,
            );
            if decayed < INCREMENTAL_RELAY_THRESHOLD_ATOMS_PER_KB {
                final(rate).rolling_minimum_fee_rate.atoms_per_kb == 0 && r.atoms_per_kb == 0
            } else {
                final(rate).rolling_minimum_fee_rate.atoms_per_kb == decayed && r.atoms_per_kb == (
                if decayed > INCREMENTAL_RELAY_FEE_RATE_ATOMS_PER_KB {
                    decayed
                } else {
                    INCREMENTAL_RELAY_FEE_RATE_ATOMS_PER_KB
                })
            }
        })),
{
    if !rate.block_since_last_rolling_fee_bump() || rate.rolling_minimum_fee_rate().atoms_per_kb
        == 0 {
        return rate.rolling_minimum_fee_rate();
    }
    let past_interval = match rate.last_rolling_fee_update().secs.checked_add(
        ROLLING_FEE_DECAY_INTERVAL_SECS,
    ) {
        Some(t) => now.secs > t,
        None => false,
    };
    if past_interval {
        let halflife = rolling_fee_halflife(memory_usage, max_size);
        let decayed = rate.decay_fee(halflife, now);
        *rate = decayed;
        if rate.rolling_minimum_fee_rate().atoms_per_kb < INCREMENTAL_RELAY_THRESHOLD_ATOMS_PER_KB {
            rate.set_rolling_minimum_fee_rate(FeeRate { atoms_per_kb: 0 });
            return FeeRate { atoms_per_kb: 0 };
        }
    }
    let cur = rate.rolling_minimum_fee_rate();
    if cur.atoms_per_kb > INCREMENTAL_RELAY_FEE_RATE_ATOMS_PER_KB {
        cur
    } else {
        FeeRate { atoms_per_kb: INCREMENTAL_RELAY_FEE_RATE_ATOMS_PER_KB }
    }
}

/// The halflife selection as a value.
pub open spec fn rolling_halflife_spec(memory_usage: u128, max_size: u128) -> u64 {
    if memory_usage < max_size / 4 {
        ROLLING_FEE_BASE_HALFLIFE_SECS / 4
    } else if memory_usage < max_size / 2 {
        ROLLING_FEE_BASE_HALFLIFE_SECS / 2
    } else {
        ROLLING_FEE_BASE_HALFLIFE_SECS
    }
}

/// The rolling-fee check: the fee covers the current rolling minimum for
/// the transaction's size.
pub fn pays_minimum_mempool_fee(
    tx_fee: Fee,
    tx: &SignedTransaction,
    minimum_fee_rate: FeeRate,
) -> (r: Result<(), MempoolPolicyError>)
    ensures
        minimum_fee_rate.atoms_per_kb * crate::encode::signed_tx_bytes(*tx).len() > u128::MAX ==> r
            == Err::<(), MempoolPolicyError>(MempoolPolicyError::FeeOverflow),
        minimum_fee_rate.atoms_per_kb * crate::encode::signed_tx_bytes(*tx).len() <= u128::MAX ==> (
        ({
            let needed = minimum_fee_rate.atoms_per_kb * crate::encode::signed_tx_bytes(*tx).len()
                / 1000;
            if tx_fee.atoms >= needed {
                r == Ok::<(), MempoolPolicyError>(())
            } else {
                r matches Err(e) && e matches MempoolPolicyError::RollingFeeThresholdNotMet {
                    minimum_fee,
                    tx_fee: tf,
                } && minimum_fee.atoms == needed && tf == tx_fee
            }
        })),
{
    let size = tx.encoded_size();
    let minimum_fee = match minimum_fee_rate.compute_fee(size) {
        Some(f) => f,
        None => {
            return Err(MempoolPolicyError::FeeOverflow);
        },
    };
    if tx_fee.atoms >= minimum_fee.atoms {
        Ok(())
    } else {
        Err(MempoolPolicyError::RollingFeeThresholdNotMet { minimum_fee, tx_fee })
    }
}

} // verus!
