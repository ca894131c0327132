//! The in-memory aggregate of calls per endpoint.
//!
//! An aggregator is a plain value. Whoever shares it between tasks wraps it
//! in a lock; holding `&mut UsageStats` is the critical section, so each
//! method below is one atomic step of the aggregate.

use crate::db::ApiEndpoint;
use vstd::prelude::*;

verus! {

/// One count per endpoint.
#[derive(Clone, Copy, Debug, PartialEq, Eq, Structural)]
pub struct Counters {
    pub change_sign: u32,
}

/// The count that follows `n`: one more, held at the largest `u32`.
pub open spec fn saturating_succ(n: nat) -> nat {
    if n < u32::MAX {
        n + 1
    } else {
        n
    }
}

/// `n` held at the largest `u32`.
pub open spec fn saturated(n: nat) -> nat {
    if n <= u32::MAX {
        n
    } else {
        u32::MAX as nat
    }
}

impl View for Counters {
    type V = Map<ApiEndpoint, nat>;

    open spec fn view(&self) -> Map<ApiEndpoint, nat> {
        Map::total(|e: ApiEndpoint| self.count(e))
    }
}

impl Counters {
    /// The count held for `endpoint`.
    pub open spec fn count(self, endpoint: ApiEndpoint) -> nat {
        match endpoint {
            ApiEndpoint::ChangeSign => self.change_sign as nat,
        }
    }

    /// The counters with every count at zero.
    pub open spec fn zero() -> Counters {
        Counters { change_sign: 0 }
    }

    /// The counters after one more call of `endpoint`.
    pub open spec fn incremented(self, endpoint: ApiEndpoint) -> Counters {
        match endpoint {
            ApiEndpoint::ChangeSign => Counters {
                change_sign: saturating_succ(self.change_sign as nat) as u32,
            },
        }
    }

    /// Reads the count held for `endpoint`.
    pub fn get(&self, endpoint: ApiEndpoint) -> (n: u32)
        ensures
            n == self.count(endpoint),
    {
        match endpoint {
            ApiEndpoint::ChangeSign => self.change_sign,
        }
    }
}

impl Default for Counters {
    fn default() -> (c: Counters)
        ensures
            c == Counters::zero(),
    {
        Counters { change_sign: 0 }
    }
}

/// The usage counter aggregator.
#[derive(Debug)]
pub struct UsageStats {
    pub counters: Counters,
}

impl UsageStats {
    /// An aggregator that has seen no call.
    pub fn new() -> (stats: UsageStats)
        ensures
            stats.counters == Counters::zero(),
    {
        UsageStats { counters: Counters { change_sign: 0 } }
    }

    /// Counts one call of `endpoint`. A count that has reached the largest
    /// `u32` stays there.
    pub fn increment(&mut self, endpoint: ApiEndpoint)
        ensures
            final(self).counters == old(self).counters.incremented(endpoint),
    {
        match endpoint {
            ApiEndpoint::ChangeSign => {
                self.counters.change_sign = self.counters.change_sign.saturating_add(1);
            },
        }
    }

    /// Hands out the counts gathered so far and starts again from zero, in
    /// one step.
    pub fn snapshot_and_reset(&mut self) -> (snapshot: Counters)
        ensures
            snapshot == old(self).counters,
            final(self).counters == Counters::zero(),
    {
        let snapshot = self.counters;
        self.counters = Counters { change_sign: 0 };
        snapshot
    }

    /// Starts again from zero without handing anything out.
    pub fn reset(&mut self)
        ensures
            final(self).counters == Counters::zero(),
    {
        self.counters = Counters { change_sign: 0 };
    }
}

impl Default for UsageStats {
    fn default() -> (stats: UsageStats)
        ensures
            stats.counters == Counters::zero(),
    {
        UsageStats::new()
    }
}

/// One step that a holder of the aggregator can take.
pub enum CounterOp {
    Increment(ApiEndpoint),
    SnapshotAndReset,
    Reset,
}

/// The counters that `op` leaves behind.
pub open spec fn step(counters: Counters, op: CounterOp) -> Counters {
    match op {
        CounterOp::Increment(endpoint) => counters.incremented(endpoint),
        CounterOp::SnapshotAndReset => Counters::zero(),
        CounterOp::Reset => Counters::zero(),
    }
}

/// The counters after the steps of `ops`, taken in order from `start`.
pub open spec fn replay(start: Counters, ops: Seq<CounterOp>) -> Counters
    decreases ops.len(),
{
    if ops.len() == 0 {
        start
    } else {
        step(replay(start, ops.drop_last()), ops.last())
    }
}

/// How many calls of `endpoint` stand in `ops` behind its last reset.
pub open spec fn pending(ops: Seq<CounterOp>, endpoint: ApiEndpoint) -> nat
    decreases ops.len(),
{
    if ops.len() == 0 {
        0
    } else {
        match ops.last() {
            CounterOp::Increment(e) => if e == endpoint {
                pending(ops.drop_last(), endpoint) + 1
            } else {
                pending(ops.drop_last(), endpoint)
            },
            CounterOp::SnapshotAndReset => 0,
            CounterOp::Reset => 0,
        }
    }
}

/// Whatever order the steps of a fresh aggregator were taken in, the count it
/// holds for an endpoint, and so the value that the next snapshot hands out,
/// is the number of calls made since the last reset (held at the largest
/// `u32`): none is lost and none is counted twice.
pub proof fn lemma_snapshot_counts_pending_calls(ops: Seq<CounterOp>, endpoint: ApiEndpoint)
    ensures
        replay(Counters::zero(), ops).count(endpoint) == saturated(pending(ops, endpoint)),
    decreases ops.len(),
{
    if ops.len() > 0 {
        lemma_snapshot_counts_pending_calls(ops.drop_last(), endpoint);
    }
}

/// `n` calls of one endpoint on a fresh aggregator leave the count `n` (held
/// at the largest `u32`); the snapshot taken then hands out that count and
/// leaves zero, which is what a second snapshot hands out.
pub proof fn lemma_calls_then_snapshots(endpoint: ApiEndpoint, n: nat)
    ensures
        ({
            let ops = Seq::new(n, |i: int| CounterOp::Increment(endpoint));
            let first = replay(Counters::zero(), ops);
            let second = replay(Counters::zero(), ops.push(CounterOp::SnapshotAndReset));
            &&& first.count(endpoint) == saturated(n)
            &&& second.count(endpoint) == 0
            &&& second == Counters::zero()
        }),
    decreases n,
{
    let ops = Seq::new(n, |i: int| CounterOp::Increment(endpoint));
    lemma_pending_of_calls(endpoint, n);
    lemma_snapshot_counts_pending_calls(ops, endpoint);
    let longer = ops.push(CounterOp::SnapshotAndReset);
    assert(longer.drop_last() =~= ops);
}

proof fn lemma_pending_of_calls(endpoint: ApiEndpoint, n: nat)
    ensures
        pending(Seq::new(n, |i: int| CounterOp::Increment(endpoint)), endpoint) == n,
    decreases n,
{
    if n > 0 {
        let ops = Seq::new(n, |i: int| CounterOp::Increment(endpoint));
        let shorter = Seq::new((n - 1) as nat, |i: int| CounterOp::Increment(endpoint));
        assert(ops.drop_last() =~= shorter);
        lemma_pending_of_calls(endpoint, (n - 1) as nat);
    }
}

} // verus!
