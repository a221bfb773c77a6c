//! Consensus checks for proof-of-stake blocks: the stake kernel, strict
//! timestamp ordering, epoch arithmetic and the hash-target comparison.
//! The VRF itself is an opaque cryptographic verifier and is out of
//! scope; what is checked here is the structure around it.

use vstd::prelude::*;

use crate::block::PoSData;
use crate::config::ChainConfig;
use crate::primitives::{BlockHeight, H256};
use crate::transaction::TxOutput;
use crate::tx_verifier::SpendStakeError;
use crate::utxo::Utxo;

verus! {

/// Failures of the proof-of-stake consensus checks.
#[derive(PartialEq, Eq, Structural, Clone, Copy, Debug)]
pub enum ConsensusPoSError {
    /// The block's timestamp is not strictly after its parent's.
    PoSBlockTimeStrictOrderInvalid(H256),
    /// The kernel input references an output the view does not hold.
    KernelOutpointNotFound,
    /// No epoch is sealed yet at this height.
    NoSealedEpochData,
    /// The stake kernel check refused the block.
    SpendStakeError(SpendStakeError),
}

/// The pool an output can stake for, if any.
pub open spec fn kernel_pool_of(o: TxOutput) -> Option<H256> {
    match o {
        TxOutput::CreateStakePool(pool_id, _) => Some(pool_id),
        TxOutput::ProduceBlockFromStake(_, pool_id) => Some(pool_id),
        _ => None,
    }
}

/// Check the stake kernel against the block's declared pool: the kernel
/// must reference a stakeable output, and its pool must be the pool the
/// block declares; the matching pool id is handed back.
pub fn check_stake_kernel_pool(pos_pool_id: &H256, kernel_utxo: &Utxo) -> (r: Result<
    H256,
    SpendStakeError,
>)
    ensures
        match kernel_pool_of(kernel_utxo.output) {
            None => r == Err::<H256, SpendStakeError>(SpendStakeError::WrongOutputType),
            Some(kp) => if kp == *pos_pool_id {
                r == Ok::<H256, SpendStakeError>(kp)
            } else {
                r == Err::<H256, SpendStakeError>(
                    SpendStakeError::StakePoolIdMismatch(kp, *pos_pool_id),
                )
            },
        },
{
    let kernel_pool = match &kernel_utxo.output {
        TxOutput::CreateStakePool(pool_id, _) => *pool_id,
        TxOutput::ProduceBlockFromStake(_, pool_id) => *pool_id,
        _ => {
            return Err(SpendStakeError::WrongOutputType);
        },
    };
    if kernel_pool == *pos_pool_id {
        Ok(kernel_pool)
    } else {
        Err(SpendStakeError::StakePoolIdMismatch(kernel_pool, *pos_pool_id))
    }
}

/// Check strict timestamp ordering: a stake block's timestamp must lie
/// strictly after its parent's.
pub fn check_pos_block_time(parent_time: u32, block_time: u32, block_id: H256) -> (r: Result<
    (),
    ConsensusPoSError,
>)
    ensures
        block_time > parent_time ==> r == Ok::<(), ConsensusPoSError>(()),
        block_time <= parent_time ==> r == Err::<(), ConsensusPoSError>(
            ConsensusPoSError::PoSBlockTimeStrictOrderInvalid(block_id),
        ),
{
    if block_time > parent_time {
        Ok(())
    } else {
        Err(ConsensusPoSError::PoSBlockTimeStrictOrderInvalid(block_id))
    }
}

/// The index of the epoch sealed at the given tip height: the tip's
/// epoch, less the configured distance; none while the chain is younger
/// than that.
pub fn sealed_epoch_index(config: &ChainConfig, tip_height: &BlockHeight) -> (r: Option<u64>)
    requires
        config.wf(),
    ensures
        tip_height.height / config.epoch_length >= config.sealed_epoch_distance_from_tip ==> r
            == Some(
            (tip_height.height / config.epoch_length - config.sealed_epoch_distance_from_tip)
                as u64,
        ),
        tip_height.height / config.epoch_length < config.sealed_epoch_distance_from_tip ==> r
            is None,
{
    let epoch = config.epoch_index_from_height(tip_height);
    if epoch >= config.sealed_epoch_distance_from_tip {
        Some(epoch - config.sealed_epoch_distance_from_tip)
    } else {
        None
    }
}

/// Check the stake hash target: the kernel's hash weighted by the pool's
/// sealed balance must not exceed the difficulty target.
pub fn check_pos_hash_target(hash_value: u128, pool_balance: u128, target: u128) -> (r: bool)
    ensures
        r <==> hash_value * pool_balance <= target,
{
    if pool_balance == 0 {
        return true;
    }
    match hash_value.checked_mul(pool_balance) {
        Some(p) => p <= target,
        None => {
            proof {
                assert(hash_value * pool_balance > u128::MAX >= target);
            }
            false
        },
    }
}

/// The staking rules around a kernel spend: decommissioning a stake must
/// lock the recovered funds for at least the chain's maturity distance.
pub fn check_decommission_maturity(
    config: &ChainConfig,
    lock: &crate::transaction::OutputTimeLock,
) -> (r: bool)
    ensures
        r <==> (lock matches crate::transaction::OutputTimeLock::ForBlockCount(c)
            && c >= config.decommission_maturity_block_count),
{
    match lock {
        crate::transaction::OutputTimeLock::ForBlockCount(c) => *c
            >= config.decommission_maturity_block_count,
        _ => false,
    }
}

} // verus!
