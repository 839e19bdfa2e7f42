//! The counter that keyboard callbacks write and the simulation reads.
//!
//! Every mutation is one whole step on the value, so a caller that runs each
//! step under the counter's lock loses no update. The value lives in `u64` and
//! wraps at both ends.

use vstd::prelude::*;

verus! {

/// One mutation of the counter.
#[derive(Clone, Copy, Debug, PartialEq, Eq, Structural)]
pub enum CounterOp {
    Increment,
    Decrement,
}

/// A 64-bit counter, moved by one at a time in either direction.
#[derive(Clone, Copy, Debug)]
pub struct SharedCounter {
    value: u64,
}

/// Number of values a `u64` can take.
pub open spec fn modulus() -> int {
    0x1_0000_0000_0000_0000
}

/// `v` moved by one step of `op`, wrapping at the ends of `u64`.
pub open spec fn stepped(v: u64, op: CounterOp) -> u64 {
    match op {
        CounterOp::Increment => if v == u64::MAX {
            0
        } else {
            (v + 1) as u64
        },
        CounterOp::Decrement => if v == 0 {
            u64::MAX
        } else {
            (v - 1) as u64
        },
    }
}

/// `v` after the steps of `ops`, applied first to last.
pub open spec fn applied(v: u64, ops: Seq<CounterOp>) -> u64
    decreases ops.len(),
{
    if ops.len() == 0 {
        v
    } else {
        stepped(applied(v, ops.drop_last()), ops.last())
    }
}

/// How many steps of `ops` are `op`.
pub open spec fn occurrences(ops: Seq<CounterOp>, op: CounterOp) -> nat
    decreases ops.len(),
{
    if ops.len() == 0 {
        0
    } else {
        occurrences(ops.drop_last(), op) + if ops.last() == op {
            1nat
        } else {
            0nat
        }
    }
}

/// The sum of the deltas of `ops`: increments minus decrements.
pub open spec fn net_delta(ops: Seq<CounterOp>) -> int {
    occurrences(ops, CounterOp::Increment) - occurrences(ops, CounterOp::Decrement)
}

impl View for SharedCounter {
    type V = u64;

    closed spec fn view(&self) -> u64 {
        self.value
    }
}

impl SharedCounter {
    /// A counter at zero.
    pub fn new() -> (counter: SharedCounter)
        ensures
            counter@ == 0,
    {
        SharedCounter { value: 0 }
    }

    /// The current value.
    pub fn get(&self) -> (value: u64)
        ensures
            value == self@,
    {
        self.value
    }

    /// Moves the counter up by one.
    pub fn increment(&mut self)
        ensures
            final(self)@ == stepped(old(self)@, CounterOp::Increment),
    {
        self.value = self.value.wrapping_add(1);
    }

    /// Moves the counter down by one.
    pub fn decrement(&mut self)
        ensures
            final(self)@ == stepped(old(self)@, CounterOp::Decrement),
    {
        self.value = self.value.wrapping_sub(1);
    }

    /// Moves the counter by one step of `op`.
    pub fn apply(&mut self, op: CounterOp)
        ensures
            final(self)@ == stepped(old(self)@, op),
    {
        match op {
            CounterOp::Increment => self.increment(),
            CounterOp::Decrement => self.decrement(),
        }
    }
}

/// No update is lost: whatever the order of the steps, the counter ends at its
/// start plus the number of increments minus the number of decrements, modulo
/// 2^64; where that sum fits in `u64`, it ends at exactly that sum.
pub proof fn lemma_no_lost_updates(start: u64, ops: Seq<CounterOp>)
    ensures
        applied(start, ops) as int == (start + net_delta(ops)) % modulus(),
        0 <= start + net_delta(ops) <= u64::MAX ==> applied(start, ops) as int == start
            + net_delta(ops),
    decreases ops.len(),
{
    if ops.len() > 0 {
        lemma_no_lost_updates(start, ops.drop_last());
    }
}

/// Two runs with the same numbers of increments and decrements end at the
/// same value, however their steps interleave.
pub proof fn lemma_interleaving_is_irrelevant(start: u64, first: Seq<CounterOp>, second: Seq<CounterOp>)
    requires
        occurrences(first, CounterOp::Increment) == occurrences(second, CounterOp::Increment),
        occurrences(first, CounterOp::Decrement) == occurrences(second, CounterOp::Decrement),
    ensures
        applied(start, first) == applied(start, second),
{
    lemma_no_lost_updates(start, first);
    lemma_no_lost_updates(start, second);
}

} // verus!
