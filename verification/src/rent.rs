//! The rent-exempt minimum balance.
//!
//! An account holding at least this many lamports for its size is exempt
//! from rent. The rate comes from the rent sysvar, read by the caller.

use vstd::prelude::*;

verus! {

/// The rent sysvar's rate.
#[derive(Clone, Copy, Debug)]
pub struct Rent {
    /// Rental rate in lamports per byte.
    pub lamports_per_byte: u64,
}

/// Bytes the runtime charges for on top of an account's data.
pub const ACCOUNT_STORAGE_OVERHEAD: u64 = 128;

/// Largest rate for which the minimum balance of any account is defined.
pub const MAX_LAMPORTS_PER_BYTE: u64 = 1_759_197_129_867;

/// Lamports an account of `data_len` bytes needs to be rent exempt.
pub open spec fn rent_exempt_minimum(rent: Rent, data_len: int) -> int {
    (128 + data_len) * rent.lamports_per_byte
}

impl Rent {
    /// Lamports an account of `data_len` bytes needs to be rent exempt.
    pub fn minimum_balance_unchecked(&self, data_len: usize) -> (r: u64)
        requires
            self.lamports_per_byte <= MAX_LAMPORTS_PER_BYTE,
            data_len <= 10 * 1024 * 1024,
        ensures
            r == rent_exempt_minimum(*self, data_len as int),
    {
        let n: u64 = ACCOUNT_STORAGE_OVERHEAD + data_len as u64;
        assert(n * self.lamports_per_byte <= 10485888 * 1_759_197_129_867) by (nonlinear_arith)
            requires
                n <= 10485888,
                self.lamports_per_byte <= 1_759_197_129_867,
        ;
        n * self.lamports_per_byte
    }
}

} // verus!
