//! The ways in which an invocation fails.

use vstd::prelude::*;

verus! {

/// Why an invocation was refused. Whatever the fault, the ledger commits
/// nothing of the invocation.
#[derive(Clone, Copy, Debug, PartialEq, Eq, Structural)]
pub enum Fault {
    /// The number of accounts handed in is not the number the instruction takes.
    NotEnoughAccountKeys,
    /// An account handed in does not sit at the address derived for its role.
    InvalidAccountData,
    /// The opcode is unknown, or the payload is too short.
    InvalidInstructionData,
    /// The token account holds less than the threshold that is due.
    InsufficientFunds,
    /// The next threshold does not fit in 64 bits.
    Overflow,
    /// No address can be derived from the seed and the program's identity.
    InvalidSeeds,
    /// An account's data ends before the field that is read from it.
    AccountDataTooSmall,
    /// The ledger refused the account creation or the burn, with this code.
    Host(u64),
}

} // verus!
