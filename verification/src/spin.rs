//! A watch on the event loop.
//!
//! When the connection to the compositor dies, waiting for events can return
//! at once, over and over, without an error. The watch tells such a spin from
//! work and stops it.

use vstd::prelude::*;

verus! {

/// A wait shorter than this many nanoseconds counts towards a spin.
pub const FAST_NANOS: u128 = 1_000_000;

/// So many fast waits in a row are still work.
pub const SPIN_LIMIT: u32 = 500;

/// What the event loop does after a wait.
#[derive(Clone, Copy, Debug, PartialEq, Eq, Structural)]
pub enum LoopStep {
    /// Wait again.
    Continue,
    /// Stop, as asked.
    Stop,
    /// Stop: the loop is spinning.
    Abort,
}

/// Counts fast waits.
pub struct SpinWatch {
    /// Fast waits in a row so far.
    pub fast_spins: u32,
}

impl SpinWatch {
    /// The count is within the limit.
    pub open spec fn wf(self) -> bool {
        self.fast_spins <= SPIN_LIMIT
    }

    /// A watch that has seen nothing yet.
    pub fn new() -> (watch: SpinWatch)
        ensures
            watch.fast_spins == 0,
            watch.wf(),
    {
        SpinWatch { fast_spins: 0 }
    }

    /// Notes a wait of `elapsed` nanoseconds, after which the daemon is to
    /// stop if `exit` is set.
    pub fn observe(&mut self, exit: bool, elapsed: u128) -> (step: LoopStep)
        requires
            old(self).wf(),
        ensures
            step == loop_step(old(self).fast_spins, exit, elapsed),
            final(self).fast_spins == if exit {
                old(self).fast_spins as int
            } else {
                run_length(old(self).fast_spins as int, elapsed)
            },
            step is Continue ==> final(self).wf(),
    {
        if exit {
            return LoopStep::Stop;
        }
        if elapsed < FAST_NANOS {
            self.fast_spins += 1;
            if self.fast_spins > SPIN_LIMIT {
                return LoopStep::Abort;
            }
        } else {
            self.fast_spins = 0;
        }
        LoopStep::Continue
    }
}

/// Fast waits in a row after another wait.
pub open spec fn run_length(fast_spins: int, elapsed: u128) -> int {
    if elapsed < FAST_NANOS {
        fast_spins + 1
    } else {
        0
    }
}

/// What follows a wait.
pub open spec fn loop_step(fast_spins: u32, exit: bool, elapsed: u128) -> LoopStep {
    if exit {
        LoopStep::Stop
    } else if run_length(fast_spins as int, elapsed) > SPIN_LIMIT {
        LoopStep::Abort
    } else {
        LoopStep::Continue
    }
}

/// Fast waits in a row at the end of a list of waits.
pub open spec fn final_run(waits: Seq<u128>) -> int
    decreases waits.len(),
{
    if waits.len() == 0 {
        0
    } else {
        run_length(final_run(waits.drop_last()), waits.last())
    }
}

/// The count is exactly the number of fast waits at the end of all waits: each
/// of them is fast, and the wait before them, if there was one, is not.
pub proof fn law_only_unbroken_spins_count(waits: Seq<u128>)
    ensures
        0 <= final_run(waits) <= waits.len(),
        forall|i: int|
            waits.len() - final_run(waits) <= i < waits.len() ==> #[trigger] waits[i] < FAST_NANOS,
        final_run(waits) < waits.len() ==> waits[waits.len() - final_run(waits) - 1] >= FAST_NANOS,
    decreases waits.len(),
{
    if waits.len() > 0 {
        let front = waits.drop_last();
        law_only_unbroken_spins_count(front);
        assert forall|i: int| waits.len() - final_run(waits) <= i < waits.len() implies
            #[trigger] waits[i] < FAST_NANOS by {
            if i < front.len() {
                assert(front[i] == waits[i]);
            }
        }
    }
}

/// A loop that is not asked to stop is stopped as soon as the last five hundred
/// and one waits were all fast, and never before.
pub proof fn law_spins_are_stopped(waits: Seq<u128>)
    requires
        waits.len() > 0,
        final_run(waits.drop_last()) <= SPIN_LIMIT,
    ensures
        loop_step(final_run(waits.drop_last()) as u32, false, waits.last()) is Abort <==> {
            &&& waits.len() > SPIN_LIMIT
            &&& forall|i: int|
                waits.len() - SPIN_LIMIT - 1 <= i < waits.len() ==> #[trigger] waits[i] < FAST_NANOS
        },
{
    law_only_unbroken_spins_count(waits.drop_last());
    law_only_unbroken_spins_count(waits);
    let run = final_run(waits);
    if run <= SPIN_LIMIT && waits.len() > SPIN_LIMIT {
        assert(waits[waits.len() - run - 1] >= FAST_NANOS);
    }
}

/// A wait under a millisecond adds one to the count, any other starts it anew;
/// the loop goes on up to a count of 500, unless it was asked to stop.
pub proof fn law_a_spin_is_five_hundred_fast_waits(fast_spins: u32, exit: bool, elapsed: u128)
    requires
        fast_spins <= 500,
    ensures
        exit ==> loop_step(fast_spins, exit, elapsed) is Stop,
        !exit && elapsed >= 1_000_000 ==> loop_step(fast_spins, exit, elapsed) is Continue,
        !exit && fast_spins < 500 ==> loop_step(fast_spins, exit, elapsed) is Continue,
        !exit && fast_spins == 500 && elapsed < 1_000_000 ==> loop_step(
            fast_spins,
            exit,
            elapsed,
        ) is Abort,
        elapsed < 1_000_000 ==> run_length(fast_spins as int, elapsed) == fast_spins + 1,
        elapsed >= 1_000_000 ==> run_length(fast_spins as int, elapsed) == 0,
{
}

} // verus!
