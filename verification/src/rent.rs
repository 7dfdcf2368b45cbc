//! The funding that keeps an account exempt from rent.

use vstd::prelude::*;
use pinocchio::sysvars::rent::Rent;
use pinocchio::sysvars::rent::{
    DEFAULT_BURN_PERCENT, DEFAULT_EXEMPTION_THRESHOLD, DEFAULT_LAMPORTS_PER_BYTE_YEAR,
};

verus! {

/// The bytes that the ledger keeps for an account besides its data.
pub const ACCOUNT_STORAGE_OVERHEAD: u64 = 128;

/// The ledger's default charge, in lamports, for one byte over one year.
pub const LAMPORTS_PER_BYTE_YEAR: u64 = 3480;

/// The years of rent that an exempt account holds by default.
pub const EXEMPTION_YEARS: u64 = 2;

/// The least balance, in lamports, with which an account of `data_len`
/// bytes is exempt from rent under the ledger's default rates.
pub open spec fn minimum_balance(data_len: nat) -> nat {
    (ACCOUNT_STORAGE_OVERHEAD as nat + data_len) * LAMPORTS_PER_BYTE_YEAR as nat
        * EXEMPTION_YEARS as nat
}

/// Calls `pinocchio::sysvars::rent::Rent::minimum_balance` on the rent made
/// of the crate's three default rates. With the default exemption threshold
/// that method multiplies the data length plus 128 by the rate per byte and
/// year, 3480, and then by 2, all in `u64`; `requires` keeps the product in
/// range.
#[verifier::external_body]
pub(crate) fn rent_minimum_balance(data_len: usize) -> (lamports: u64)
    requires
        minimum_balance(data_len as nat) <= u64::MAX,
    ensures
        lamports == minimum_balance(data_len as nat),
{
    let rent = Rent {
        lamports_per_byte_year: DEFAULT_LAMPORTS_PER_BYTE_YEAR,
        exemption_threshold: DEFAULT_EXEMPTION_THRESHOLD,
        burn_percent: DEFAULT_BURN_PERCENT,
    };
    rent.minimum_balance(data_len)
}

} // verus!
