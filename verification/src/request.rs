//! What an instruction asks of the ledger, and how the invocation is
//! settled once the ledger has answered.

use vstd::prelude::*;
use vstd::slice::slice_to_vec;
use crate::address::{authority_seed, authority_seed_bytes, state_seed, state_seed_bytes};
use crate::fault::Fault;
use crate::state::State;

verus! {

/// The one thing that the ledger has to do for an invocation. Accounts are
/// named by their place among the accounts of the invocation.
#[derive(Clone, Copy, Debug, PartialEq, Eq)]
pub enum Request {
    /// Create the account at place `to`, owned by the program `owner`, with
    /// `space` bytes of data and `lamports` from the account at place `from`.
    /// The seed of the state record and `bump` sign for the new account.
    /// `threshold` is what the record will hold.
    CreateAccount {
        from: usize,
        to: usize,
        lamports: u64,
        space: u64,
        owner: [u8; 32],
        bump: u8,
        threshold: u64,
    },
    /// Burn `amount` tokens of the mint at place `mint` from the token
    /// account at place `account`, on behalf of the account at place
    /// `authority`. The seed of the burn authority and `bump` sign for the
    /// authority. `previous` is the threshold before the one that is burned.
    Burn { account: usize, mint: usize, authority: usize, amount: u64, bump: u8, previous: u64 },
}

impl Request {
    /// The seed that, followed by the bump, signs for the request.
    pub open spec fn seed(self) -> Seq<u8> {
        match self {
            Request::CreateAccount { .. } => state_seed(),
            Request::Burn { .. } => authority_seed(),
        }
    }

    /// The state that the record holds once the ledger has answered the
    /// request with `outcome`.
    pub open spec fn settled(self, outcome: Result<(), u64>) -> Result<State, Fault> {
        match outcome {
            Err(code) => Err(Fault::Host(code)),
            Ok(_) => match self {
                Request::CreateAccount { threshold, .. } => Ok(State::initial(threshold)),
                Request::Burn { amount, previous, .. } => match (State {
                    prev: previous,
                    next: amount,
                }).advanced() {
                    Some(state) => Ok(state),
                    None => Err(Fault::Overflow),
                },
            },
        }
    }

    /// The seed that, followed by the bump, signs for the request.
    pub fn signer_seed(&self) -> (seed: Vec<u8>)
        ensures
            seed@ == self.seed(),
    {
        match self {
            Request::CreateAccount { .. } => {
                let bytes = state_seed_bytes();
                slice_to_vec(bytes.as_slice())
            },
            Request::Burn { .. } => {
                let bytes = authority_seed_bytes();
                slice_to_vec(bytes.as_slice())
            },
        }
    }

    /// Settles the invocation once the ledger has answered the request, and
    /// returns the record to write at the start of the state account's data.
    ///
    /// Where the ledger refused, with a code, the fault is `Host` with that
    /// code, and there is no record. After a creation the record holds the
    /// threshold twice. After a burn it holds the burned threshold as `prev`
    /// and the sum of the two old thresholds as `next`, and the fault is
    /// `Overflow` exactly when that sum does not fit in 64 bits.
    pub fn settle(&self, outcome: Result<(), u64>) -> (result: Result<[u8; 16], Fault>)
        ensures
            match result {
                Ok(record) => (self.settled(outcome) matches Ok(state) && record@
                    == state.record()),
                Err(fault) => self.settled(outcome) == Err::<State, Fault>(fault),
            },
            outcome matches Err(code) ==> result == Err::<[u8; 16], Fault>(Fault::Host(code)),
    {
        match outcome {
            Err(code) => Err(Fault::Host(code)),
            Ok(_) => match self {
                Request::CreateAccount { threshold, .. } => Ok(State::new(*threshold).encode()),
                Request::Burn { amount, previous, .. } => {
                    let before = State { prev: *previous, next: *amount };
                    match before.advance() {
                        Ok(after) => Ok(after.encode()),
                        Err(fault) => Err(fault),
                    }
                },
            },
        }
    }
}

} // verus!
