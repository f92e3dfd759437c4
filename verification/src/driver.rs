//! Stopping rules for a benchmark run.
//!
//! A run performs updates in batches and decides after each batch
//! whether to stop: either once the measured wall-clock time exceeds a
//! deadline, or once a fixed number of updates has been performed.  The
//! caller measures the time and performs the updates; this module makes
//! every decision and counts what was done.

use vstd::prelude::*;

verus! {

/// Number of updates a deadline-policy run performs between two looks
/// at the clock.
pub const BATCH_SIZE: u64 = 10_000;

/// Deadline of a one-second benchmark run, in nanoseconds.
pub const DEADLINE_NANOS: u64 = 1_000_000_000;

/// Number of updates a fixed-count benchmark run performs.
pub const FIXED_COUNT: u64 = 10_000_000;

/// When a run stops: once the elapsed wall-clock time exceeds the given
/// number of nanoseconds, or once the given number of updates is done.
#[derive(Clone, Copy, PartialEq, Eq, Structural, Debug)]
pub enum StopPolicy {
    Deadline(u64),
    FixedCount(u64),
}

/// The progress of one run: its policy and how many updates were
/// performed so far.
#[derive(Clone, Copy, PartialEq, Eq, Structural, Debug)]
pub struct Driver {
    pub policy: StopPolicy,
    pub updates: u64,
}

impl Driver {
    /// A deadline-policy run only ever counts whole batches; a
    /// fixed-count run never exceeds its target.
    pub open spec fn wf(self) -> bool {
        match self.policy {
            StopPolicy::Deadline(_) => self.updates % BATCH_SIZE == 0,
            StopPolicy::FixedCount(c) => self.updates <= c,
        }
    }

    /// How many updates the next batch holds: a full batch under a
    /// deadline, the whole remainder under a fixed count.
    pub open spec fn batch_spec(self) -> int {
        match self.policy {
            StopPolicy::Deadline(_) => BATCH_SIZE as int,
            StopPolicy::FixedCount(c) => if self.updates >= c {
                0int
            } else {
                c - self.updates
            },
        }
    }

    /// Whether the run is over.  A deadline-policy run never stops
    /// before its first full batch, so a stopped run has always done at
    /// least `BATCH_SIZE` updates.
    pub open spec fn stop_spec(self, elapsed_nanos: u128) -> bool {
        match self.policy {
            StopPolicy::Deadline(d) => self.updates >= BATCH_SIZE && elapsed_nanos > d as u128,
            StopPolicy::FixedCount(c) => self.updates >= c,
        }
    }

    /// Starts a run: no updates performed yet.
    pub fn new(policy: StopPolicy) -> (r: Self)
        ensures
            r.policy == policy,
            r.updates == 0,
            r.wf(),
    {
        Driver { policy, updates: 0 }
    }

    /// Size of the batch of updates to perform next.
    pub fn next_batch(&self) -> (r: u64)
        requires
            self.wf(),
        ensures
            r == self.batch_spec(),
    {
        match self.policy {
            StopPolicy::Deadline(_) => BATCH_SIZE,
            StopPolicy::FixedCount(c) => if self.updates >= c {
                0
            } else {
                c - self.updates
            },
        }
    }

    /// Counts one completed batch.  Fails, leaving the count unchanged,
    /// exactly when the counter cannot hold another batch.
    pub fn record_batch(&mut self) -> (r: bool)
        requires
            old(self).wf(),
        ensures
            final(self).policy == old(self).policy,
            final(self).wf(),
            r == (old(self).updates + old(self).batch_spec() <= u64::MAX),
            r ==> final(self).updates == old(self).updates + old(self).batch_spec(),
            !r ==> final(self).updates == old(self).updates,
    {
        match self.policy {
            StopPolicy::Deadline(_) => {
                if self.updates <= u64::MAX - BATCH_SIZE {
                    self.updates = self.updates + BATCH_SIZE;
                    true
                } else {
                    false
                }
            },
            StopPolicy::FixedCount(c) => {
                if self.updates < c {
                    self.updates = c;
                }
                true
            },
        }
    }

    /// Decides whether the run is over, given the measured elapsed
    /// time in nanoseconds.
    pub fn should_stop(&self, elapsed_nanos: u128) -> (r: bool)
        requires
            self.wf(),
        ensures
            r == self.stop_spec(elapsed_nanos),
    {
        match self.policy {
            StopPolicy::Deadline(d) => self.updates >= BATCH_SIZE && elapsed_nanos > d as u128,
            StopPolicy::FixedCount(c) => self.updates >= c,
        }
    }
}

/// Law: a deadline-policy run stops only after a positive multiple of
/// the batch size of updates, and only once the measured time exceeds
/// the deadline.
pub proof fn lemma_deadline_stop(d: Driver, elapsed_nanos: u128, deadline: u64)
    requires
        d.wf(),
        d.policy == StopPolicy::Deadline(deadline),
        d.stop_spec(elapsed_nanos),
    ensures
        d.updates >= BATCH_SIZE,
        d.updates % BATCH_SIZE == 0,
        elapsed_nanos > deadline as u128,
{
}

/// Law: a fixed-count run stops exactly at its configured number of
/// updates, never beyond it.
pub proof fn lemma_fixed_count_stop(d: Driver, elapsed_nanos: u128, count: u64)
    requires
        d.wf(),
        d.policy == StopPolicy::FixedCount(count),
        d.stop_spec(elapsed_nanos),
    ensures
        d.updates == count,
{
}

} // verus!
