//! Fees and fee rates: atoms per kilobyte, the relay fee floor, and the
//! decaying rolling minimum fee rate raised by evictions.

use vstd::prelude::*;

use crate::primitives::{Amount, Time};

verus! {

/// The fee a transaction pays.
pub type Fee = Amount;

/// The hard cap on the pool's held bytes before eviction starts.
pub const MAX_MEMPOOL_SIZE_BYTES: usize = 300000000;

/// How long an entry may sit in the pool, in seconds.
pub const DEFAULT_MEMPOOL_EXPIRY_SECS: u64 = 1209600;

/// The base halflife of the rolling fee decay, in seconds.
pub const ROLLING_FEE_BASE_HALFLIFE_SECS: u64 = 43200;

/// How often the rolling fee decays, in seconds.
pub const ROLLING_FEE_DECAY_INTERVAL_SECS: u64 = 10;

/// How often an admission retries when the tip moves under it.
pub const MAX_TX_ADDITION_ATTEMPTS: usize = 3;

/// The cap on transactions a replacement may evict.
pub const MAX_BIP125_REPLACEMENT_CANDIDATES: usize = 100;

/// The largest encoded transaction the pool accepts.
pub const MAX_BLOCK_SIZE_BYTES: usize = 1048576;

/// The relay fee demanded per encoded byte, in atoms.
pub const RELAY_FEE_PER_BYTE: u128 = 1;

/// Whether replace-by-fee is enabled; conflicts are rejected while off.
pub const ENABLE_RBF: bool = false;

/// The fee-rate step evictions raise the rolling minimum by, in atoms
/// per kilobyte.
pub const INCREMENTAL_RELAY_FEE_RATE_ATOMS_PER_KB: u128 = 1000;

/// Below this rate the rolling minimum drops to zero, in atoms per
/// kilobyte.
pub const INCREMENTAL_RELAY_THRESHOLD_ATOMS_PER_KB: u128 = 500;

/// A fee rate: atoms per thousand encoded bytes.
#[derive(PartialEq, Eq, Structural, Clone, Copy, Debug, Hash)]
pub struct FeeRate {
    pub atoms_per_kb: u128,
}

/// The fee-rate step evictions raise the rolling minimum by.
pub fn incremental_relay_fee_rate() -> (r: FeeRate)
    ensures
        r.atoms_per_kb == INCREMENTAL_RELAY_FEE_RATE_ATOMS_PER_KB,
{
    FeeRate { atoms_per_kb: INCREMENTAL_RELAY_FEE_RATE_ATOMS_PER_KB }
}

impl FeeRate {
    pub fn new(amount_per_kb: Amount) -> (r: Self)
        ensures
            r.atoms_per_kb == amount_per_kb.atoms,
    {
        FeeRate { atoms_per_kb: amount_per_kb.atoms }
    }

    /// The rate a transaction of this size paid with this total fee.
    pub fn from_total_tx_fee(fee: Fee, tx_size: usize) -> (r: Option<FeeRate>)
        requires
            tx_size > 0,
        ensures
            fee.atoms * 1000 <= u128::MAX ==> (r matches Some(fr) && fr.atoms_per_kb as int
                == fee.atoms * 1000 / (tx_size as int)),
            fee.atoms * 1000 > u128::MAX ==> r is None,
    {
        match fee.atoms.checked_mul(1000) {
            Some(scaled) => Some(FeeRate { atoms_per_kb: scaled / (tx_size as u128) }),
            None => None,
        }
    }

    /// The fee this rate demands of a transaction of the given size.
    pub fn compute_fee(&self, size: usize) -> (r: Option<Fee>)
        ensures
            self.atoms_per_kb * size <= u128::MAX ==> (r matches Some(f) && f.atoms as int
                == self.atoms_per_kb * (size as int) / 1000),
            self.atoms_per_kb * size > u128::MAX ==> r is None,
    {
        match self.atoms_per_kb.checked_mul(size as u128) {
            Some(scaled) => Some(Amount { atoms: scaled / 1000 }),
            None => None,
        }
    }
}

/// The decaying floor on fee rates for newly admitted transactions,
/// raised on eviction and halved every halflife.
#[derive(PartialEq, Eq, Structural, Clone, Copy, Debug)]
pub struct RollingFeeRate {
    pub rolling_minimum_fee_rate: FeeRate,
    pub block_since_last_rolling_fee_bump: bool,
    pub last_rolling_fee_update: Time,
}

impl RollingFeeRate {
    pub fn new(creation_time: Time) -> (r: Self)
        ensures
            r.rolling_minimum_fee_rate.atoms_per_kb == 0,
            r.block_since_last_rolling_fee_bump == false,
            r.last_rolling_fee_update == creation_time,
    {
        RollingFeeRate {
            rolling_minimum_fee_rate: FeeRate { atoms_per_kb: 0 },
            block_since_last_rolling_fee_bump: false,
            last_rolling_fee_update: creation_time,
        }
    }

    pub fn rolling_minimum_fee_rate(&self) -> (r: FeeRate)
        ensures
            r == self.rolling_minimum_fee_rate,
    {
        self.rolling_minimum_fee_rate
    }

    pub fn block_since_last_rolling_fee_bump(&self) -> (r: bool)
        ensures
            r == self.block_since_last_rolling_fee_bump,
    {
        self.block_since_last_rolling_fee_bump
    }

    pub fn last_rolling_fee_update(&self) -> (r: Time)
        ensures
            r == self.last_rolling_fee_update,
    {
        self.last_rolling_fee_update
    }

    pub fn set_rolling_minimum_fee_rate(&mut self, rate: FeeRate)
        ensures
            *final(self) == (RollingFeeRate { rolling_minimum_fee_rate: rate, ..*old(self) }),
    {
        self.rolling_minimum_fee_rate = rate;
    }

    pub fn set_block_since_last_rolling_fee_bump(&mut self, bumped: bool)
        ensures
            *final(self) == (RollingFeeRate {
                block_since_last_rolling_fee_bump: bumped,
                ..*old(self)
            }),
    {
        self.block_since_last_rolling_fee_bump = bumped;
    }

    /// The rate after decaying up to the given time: halved once per
    /// elapsed halflife, the update time moved forward.
    pub fn decay_fee(self, halflife_secs: u64, current_time: Time) -> (r: Self)
        requires
            halflife_secs > 0,
        ensures
            r.rolling_minimum_fee_rate.atoms_per_kb == decayed_rate(
                self.rolling_minimum_fee_rate.atoms_per_kb,
                current_time.secs.checked_sub(self.last_rolling_fee_update.secs).unwrap_or(0)
                    as int / halflife_secs as int,
            ),
            r.last_rolling_fee_update == current_time,
            r.block_since_last_rolling_fee_bump == self.block_since_last_rolling_fee_bump,
    {
        let elapsed = current_time.saturating_sub(self.last_rolling_fee_update);
        let halvings_wide = elapsed / halflife_secs;
        let halvings: u32 = if halvings_wide >= 128 {
            128
        } else {
            halvings_wide as u32
        };
        proof {
            lemma_decayed_high(self.rolling_minimum_fee_rate.atoms_per_kb, halvings_wide as int);
        }
        let new_rate = if halvings >= 128 {
            0
        } else {
            self.rolling_minimum_fee_rate.atoms_per_kb >> halvings
        };
        proof {
            if halvings < 128 {
                lemma_shr_is_decay(self.rolling_minimum_fee_rate.atoms_per_kb, halvings);
            }
        }
        RollingFeeRate {
            rolling_minimum_fee_rate: FeeRate { atoms_per_kb: new_rate },
            block_since_last_rolling_fee_bump: self.block_since_last_rolling_fee_bump,
            last_rolling_fee_update: current_time,
        }
    }
}

/// A rate after the given number of halvings.
pub open spec fn decayed_rate(rate: u128, halvings: int) -> u128
    decreases halvings,
{
    if halvings <= 0 {
        rate
    } else {
        decayed_rate(rate / 2, halvings - 1)
    }
}

/// Enough halvings drive any rate to zero.
proof fn lemma_decayed_high(rate: u128, halvings: int)
    ensures
        halvings >= 128 ==> decayed_rate(rate, halvings) == 0,
    decreases
            (if halvings >= 0 {
                halvings
            } else {
                0
            }),
{
    if halvings == 128 {
        lemma_shr_is_decay(rate / 2, 127);
        assert((rate / 2) >> 127u32 == 0) by (bit_vector);
    } else if halvings > 128 {
        lemma_decayed_high(rate / 2, halvings - 1);
    }
}

/// A right shift by `k < 128` halves `k` times.
proof fn lemma_shr_is_decay(rate: u128, k: u32)
    requires
        k < 128,
    ensures
        rate >> k == decayed_rate(rate, k as int),
    decreases k,
{
    if k == 0 {
        assert(rate >> 0u32 == rate) by (bit_vector);
    } else {
        assert(rate >> k == (rate / 2) >> ((k - 1) as u32)) by (bit_vector)
            requires
                0 < k < 128,
        ;
        lemma_shr_is_decay(rate / 2, (k - 1) as u32);
    }
}

} // verus!
