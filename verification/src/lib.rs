//! Verified core of a ledger program that burns a Fibonacci-growing amount of
//! tokens each time it is invoked.
//!
//! The program keeps one state record of two thresholds. `initialize` sets
//! both to a chosen value; each `swallow` burns the threshold that is due,
//! provided the token account holds that much, and moves the pair one step
//! along the Fibonacci recurrence.
//!
//! - `codec`: little-endian integers.
//! - `state`: the state record, its layout and its recurrence.
//! - `address`: addresses derived for the program.
//! - `rent`: the funding of a new account.
//! - `processor`: the two instructions and their dispatch.
//! - `request`: what an instruction asks of the ledger, and its settlement.
//! - `fault`: the ways in which an invocation fails.

pub mod address;
pub mod codec;
pub mod fault;
pub mod processor;
pub mod rent;
pub mod request;
pub mod state;
