//! The state record: two thresholds that follow the Fibonacci recurrence.

use vstd::prelude::*;
use crate::codec::{le_bytes, le_value, read_u64, write_u64};
use crate::codec::{lemma_decode_encode, lemma_le_bytes_len, lemma_radix_pow_8};
use crate::fault::Fault;

verus! {

/// The number of bytes of a state record.
pub const RECORD_LEN: usize = 16;

/// The two thresholds: `next` is what the next swallow burns, `prev` what
/// the last one burned.
#[derive(Clone, Copy, Debug, PartialEq, Eq, Structural)]
pub struct State {
    pub prev: u64,
    pub next: u64,
}

/// The Fibonacci numbers: 0, 1, 1, 2, 3, 5, ...
pub open spec fn fib(n: nat) -> nat
    decreases n,
{
    if n == 0 {
        0
    } else if n == 1 {
        1
    } else {
        fib((n - 1) as nat) + fib((n - 2) as nat)
    }
}

impl State {
    /// What holds of every state that was initialised and then advanced.
    pub open spec fn well_formed(self) -> bool {
        self.prev <= self.next
    }

    /// The state that an initialisation with `threshold` leaves.
    pub open spec fn initial(threshold: u64) -> State {
        State { prev: threshold, next: threshold }
    }

    /// The state after one swallow, if the new threshold fits in 64 bits.
    pub open spec fn advanced(self) -> Option<State> {
        if self.prev + self.next <= u64::MAX {
            Some(State { prev: self.next, next: (self.prev + self.next) as u64 })
        } else {
            None
        }
    }

    /// The state after `count` swallows, if each of them fits.
    pub open spec fn advanced_by(self, count: nat) -> Option<State>
        decreases count,
    {
        if count == 0 {
            Some(self)
        } else {
            match self.advanced_by((count - 1) as nat) {
                Some(state) => state.advanced(),
                None => None,
            }
        }
    }

    /// The threshold due after `count` swallows, as an unbounded number.
    pub open spec fn next_after(self, count: nat) -> int {
        fib(count) * self.prev + fib(count + 1) * self.next
    }

    /// The record of the state: `prev`, then `next`, each as eight bytes,
    /// least significant first.
    pub open spec fn record(self) -> Seq<u8> {
        le_bytes(self.prev as nat, 8) + le_bytes(self.next as nat, 8)
    }

    /// The state that the first sixteen bytes of `data` hold.
    pub open spec fn of_record(data: Seq<u8>) -> State
        recommends
            data.len() >= RECORD_LEN,
    {
        State {
            prev: le_value(data.subrange(0, 8)) as u64,
            next: le_value(data.subrange(8, 16)) as u64,
        }
    }

    /// The state with both thresholds at `threshold`.
    pub fn new(threshold: u64) -> (state: State)
        ensures
            state == State::initial(threshold),
            state.prev == threshold,
            state.next == threshold,
            state.well_formed(),
    {
        State { prev: threshold, next: threshold }
    }

    /// The state after one swallow: the old `next` becomes `prev`, and the
    /// sum of both the new `next`. Fails with `Overflow` exactly when the sum
    /// does not fit in 64 bits.
    pub fn advance(&self) -> (result: Result<State, Fault>)
        ensures
            match result {
                Ok(state) => self.advanced() == Some(state) && state.prev == self.next
                    && state.next == self.prev + self.next && state.well_formed(),
                Err(fault) => fault == Fault::Overflow && self.prev + self.next > u64::MAX
                    && self.advanced() is None,
            },
    {
        match self.prev.checked_add(self.next) {
            Some(sum) => Ok(State { prev: self.next, next: sum }),
            None => Err(Fault::Overflow),
        }
    }

    /// The sixteen bytes that hold this state.
    pub fn encode(&self) -> (record: [u8; 16])
        ensures
            record@ == self.record(),
    {
        let mut record = [0u8; 16];
        write_u64(&mut record, 0, self.prev);
        write_u64(&mut record, 8, self.next);
        proof {
            lemma_le_bytes_len(self.prev as nat, 8);
            lemma_le_bytes_len(self.next as nat, 8);
            assert(record@ =~= self.record());
        }
        record
    }

    /// Reads a state from the first sixteen bytes of `data`. Fails with
    /// `AccountDataTooSmall` exactly when there are fewer.
    pub fn decode(data: &[u8]) -> (result: Result<State, Fault>)
        ensures
            data@.len() >= RECORD_LEN ==> result == Ok::<State, Fault>(State::of_record(data@)),
            data@.len() < RECORD_LEN ==> result == Err::<State, Fault>(Fault::AccountDataTooSmall),
            result matches Ok(state) ==> state.prev == le_value(data@.subrange(0, 8))
                && state.next == le_value(data@.subrange(8, 16)),
    {
        if data.len() < RECORD_LEN {
            return Err(Fault::AccountDataTooSmall);
        }
        let prev = read_u64(data, 0);
        let next = read_u64(data, 8);
        Ok(State { prev, next })
    }
}

/// A state read back from its own record is the same state, whatever
/// follows the record in the account.
pub proof fn lemma_record_round_trip(state: State, tail: Seq<u8>)
    ensures
        state.record().len() == RECORD_LEN,
        State::of_record(state.record() + tail) == state,
{
    let data = state.record() + tail;
    lemma_le_bytes_len(state.prev as nat, 8);
    lemma_le_bytes_len(state.next as nat, 8);
    assert(data.subrange(0, 8) =~= le_bytes(state.prev as nat, 8));
    assert(data.subrange(8, 16) =~= le_bytes(state.next as nat, 8));
    lemma_decode_encode(state.prev as nat, 8);
    lemma_decode_encode(state.next as nat, 8);
    lemma_radix_pow_8();
}

/// At all times after the initialisation `next` is at least `prev`: the
/// initialisation makes them equal, and no run of swallows undoes it.
pub proof fn lemma_well_formed_always(threshold: u64, count: nat)
    requires
        State::initial(threshold).advanced_by(count) is Some,
    ensures
        State::initial(threshold).advanced_by(count)->0.well_formed(),
{
    if count > 0 {
        let before = State::initial(threshold).advanced_by((count - 1) as nat);
        assert(before is Some);
        assert(before->0.advanced() == State::initial(threshold).advanced_by(count));
    }
}

/// Over any run of successful swallows the thresholds follow the Fibonacci
/// recurrence: each new `prev` is the `next` before it, each new `next` the
/// sum of the two before it.
pub proof fn lemma_swallows_follow_recurrence(start: State, count: nat)
    requires
        start.advanced_by(count + 1) is Some,
    ensures
        start.advanced_by(count) is Some,
        start.advanced_by(count + 1)->0.prev == start.advanced_by(count)->0.next,
        start.advanced_by(count + 1)->0.next == start.advanced_by(count)->0.prev
            + start.advanced_by(count)->0.next,
{
}

/// After `count` successful swallows the thresholds are the Fibonacci
/// numbers seeded at the starting pair.
pub proof fn lemma_swallows_closed_form(start: State, count: nat)
    requires
        start.advanced_by(count) is Some,
    ensures
        start.advanced_by(count)->0.next == start.next_after(count),
        count > 0 ==> start.advanced_by(count)->0.prev == start.next_after((count - 1) as nat),
        count == 0 ==> start.advanced_by(count)->0.prev == start.prev,
    decreases count,
{
    if count == 0 {
        assert(fib(0) == 0 && fib(1) == 1);
        assert(0 * start.prev + 1 * start.next == start.next as int);
    } else {
        let before = (count - 1) as nat;
        lemma_swallows_closed_form(start, before);
        let p = start.prev as int;
        let n = start.next as int;
        if before == 0 {
            assert(fib(0) == 0 && fib(1) == 1 && fib(2) == 1) by {
                reveal_with_fuel(fib, 3);
            }
            assert(1 * p + 1 * n == p + n);
            assert(0 * p + 1 * n == n);
        } else {
            let a = fib((before - 1) as nat) as int;
            let b = fib(before) as int;
            let c = fib(count) as int;
            let d = fib(count + 1) as int;
            assert(c == a + b);
            assert(d == b + c);
            assert((a * p + b * n) + (b * p + c * n) == c * p + d * n) by (nonlinear_arith)
                requires
                    c == a + b,
                    d == b + c,
            ;
        }
    }
}

/// A run of `count` swallows succeeds exactly when the threshold it ends
/// on fits in 64 bits: until then nothing stops the record from advancing.
pub proof fn lemma_swallows_succeed_while_in_range(start: State, count: nat)
    ensures
        start.advanced_by(count) is Some <==> start.next_after(count) <= u64::MAX,
    decreases count,
{
    if count == 0 {
        assert(fib(0) == 0 && fib(1) == 1);
        assert(0 * start.prev + 1 * start.next == start.next as int);
    } else {
        let before = (count - 1) as nat;
        lemma_swallows_succeed_while_in_range(start, before);
        lemma_next_after_grows(start, before);
        if start.advanced_by(before) is Some {
            lemma_swallows_closed_form(start, before);
            lemma_next_after_step(start, before);
        }
    }
}

/// The threshold after one more swallow is the sum of the two before it.
pub proof fn lemma_next_after_step(start: State, count: nat)
    ensures
        count > 0 ==> start.next_after(count + 1) == start.next_after((count - 1) as nat)
            + start.next_after(count),
        count == 0 ==> start.next_after(1) == start.prev + start.next_after(0),
{
    let p = start.prev as int;
    let n = start.next as int;
    if count == 0 {
        assert(fib(0) == 0 && fib(1) == 1 && fib(2) == 1) by {
            reveal_with_fuel(fib, 3);
        }
        assert(1 * p + 1 * n == p + n);
        assert(0 * p + 1 * n == n);
    } else {
        let a = fib((count - 1) as nat) as int;
        let b = fib(count) as int;
        let c = fib(count + 1) as int;
        let d = fib(count + 2) as int;
        assert(c == a + b);
        assert(d == b + c);
        assert((a * p + b * n) + (b * p + c * n) == c * p + d * n) by (nonlinear_arith)
            requires
                c == a + b,
                d == b + c,
        ;
    }
}

/// The thresholds never shrink.
pub proof fn lemma_next_after_grows(start: State, count: nat)
    ensures
        start.next_after(count) <= start.next_after(count + 1),
{
    lemma_next_after_step(start, count);
    if count > 0 {
        let a = fib((count - 1) as nat) as int;
        let b = fib(count) as int;
        let p = start.prev as int;
        let n = start.next as int;
        assert(0 <= a * p + b * n) by (nonlinear_arith)
            requires
                0 <= a,
                0 <= b,
                0 <= p,
                0 <= n,
        ;
    }
}

} // verus!
