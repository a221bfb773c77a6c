//! Plain value types shared across the chain: 256-bit identifiers, coin
//! amounts, block heights and wall-clock times.

use vstd::prelude::*;

use crate::vecmap::MapKey;

verus! {

/// A 256-bit identifier or digest, stored as four 64-bit little-endian
/// words (`w0` holds the lowest bytes).
#[derive(PartialEq, Eq, Structural, Clone, Copy, Debug, Hash)]
pub struct H256 {
    pub w0: u64,
    pub w1: u64,
    pub w2: u64,
    pub w3: u64,
}

impl H256 {
    pub fn zero() -> (r: Self)
        ensures
            r == (H256 { w0: 0, w1: 0, w2: 0, w3: 0 }),
    {
        H256 { w0: 0, w1: 0, w2: 0, w3: 0 }
    }

    /// An identifier whose low 64 bits are `n` and whose rest is zero.
    pub fn from_low_u64(n: u64) -> (r: Self)
        ensures
            r == (H256 { w0: n, w1: 0, w2: 0, w3: 0 }),
    {
        H256 { w0: n, w1: 0, w2: 0, w3: 0 }
    }
}

impl MapKey for H256 {
    fn key_eq(&self, other: &Self) -> (r: bool)
        ensures
            r <==> self == other,
    {
        *self == *other
    }
}

/// An amount of coins, counted in atoms.
#[derive(PartialEq, Eq, Structural, Clone, Copy, Debug, Hash)]
pub struct Amount {
    pub atoms: u128,
}

impl Amount {
    pub fn from_atoms(atoms: u128) -> (r: Self)
        ensures
            r.atoms == atoms,
    {
        Amount { atoms }
    }

    pub fn into_atoms(self) -> (r: u128)
        ensures
            r == self.atoms,
    {
        self.atoms
    }

    /// Checked addition: `None` exactly on overflow.
    pub fn checked_add(self, other: Amount) -> (r: Option<Amount>)
        ensures
            self.atoms + other.atoms <= u128::MAX ==> (r matches Some(s) && s.atoms
                == self.atoms + other.atoms),
            self.atoms + other.atoms > u128::MAX ==> r is None,
    {
        match self.atoms.checked_add(other.atoms) {
            Some(s) => Some(Amount { atoms: s }),
            None => None,
        }
    }

    /// Checked subtraction: `None` exactly on underflow.
    pub fn checked_sub(self, other: Amount) -> (r: Option<Amount>)
        ensures
            self.atoms >= other.atoms ==> (r matches Some(s) && s.atoms == self.atoms
                - other.atoms),
            self.atoms < other.atoms ==> r is None,
    {
        if self.atoms >= other.atoms {
            Some(Amount { atoms: self.atoms - other.atoms })
        } else {
            None
        }
    }

    pub fn ge(&self, other: &Amount) -> (r: bool)
        ensures
            r <==> self.atoms >= other.atoms,
    {
        self.atoms >= other.atoms
    }

    pub fn gt(&self, other: &Amount) -> (r: bool)
        ensures
            r <==> self.atoms > other.atoms,
    {
        self.atoms > other.atoms
    }
}

/// The distance of a block from the genesis block.
#[derive(PartialEq, Eq, Structural, Clone, Copy, Debug, Hash)]
pub struct BlockHeight {
    pub height: u64,
}

impl BlockHeight {
    pub fn new(height: u64) -> (r: Self)
        ensures
            r.height == height,
    {
        BlockHeight { height }
    }

    pub fn next_height(self) -> (r: Self)
        requires
            self.height < u64::MAX,
        ensures
            r.height == self.height + 1,
    {
        BlockHeight { height: self.height + 1 }
    }
}

/// A point in time, in seconds since the epoch.
#[derive(PartialEq, Eq, Structural, Clone, Copy, Debug, Hash)]
pub struct Time {
    pub secs: u64,
}

impl Time {
    pub fn from_secs(secs: u64) -> (r: Self)
        ensures
            r.secs == secs,
    {
        Time { secs }
    }

    /// Seconds elapsed since `earlier`, saturating at zero.
    pub fn saturating_sub(self, earlier: Time) -> (r: u64)
        ensures
            self.secs >= earlier.secs ==> r == self.secs - earlier.secs,
            self.secs < earlier.secs ==> r == 0,
    {
        if self.secs >= earlier.secs {
            self.secs - earlier.secs
        } else {
            0
        }
    }
}

} // verus!
