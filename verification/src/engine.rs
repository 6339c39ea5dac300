//! The run of a probe as a state machine: the program performs an attempt,
//! hands its outcome in, and is told what to do next.

use vstd::prelude::*;

use crate::stats::{lemma_tally_of_push, tally_of, AttemptResult, RunStatistics, Tally};

verus! {

/// How long the program waits between two attempts, in milliseconds.
pub const PAUSE_MS: u64 = 1000;

/// What the program does after an attempt.
#[derive(Clone, Copy, Debug, PartialEq, Eq, Structural)]
pub enum NextAction {
    /// Wait `PAUSE_MS`, then make the next attempt.
    Pause,
    /// Make no further attempt and report the statistics.
    Finish,
}

/// A run as plain numbers: the attempts still owed, whether the run goes on
/// without end, and the tally so far.
pub struct RunState {
    /// Attempts still owed by a bounded run.
    pub remaining: int,
    /// Whether the run goes on until the program is stopped from outside.
    pub continuous: bool,
    /// The statistics of the attempts made so far.
    pub tally: Tally,
}

impl RunState {
    /// A run of `count` attempts, or an endless one, before its first
    /// attempt.
    pub open spec fn start(count: int, continuous: bool) -> RunState {
        RunState { remaining: count, continuous, tally: Tally::empty() }
    }

    /// Whether the run makes no further attempt: it is bounded and owes
    /// none.
    pub open spec fn finished(self) -> bool {
        !self.continuous && self.remaining <= 0
    }

    /// The run after one attempt that came to `outcome`: the outcome is
    /// recorded, and a bounded run owes one attempt less.
    pub open spec fn after_attempt(self, outcome: AttemptResult) -> RunState {
        RunState {
            remaining: if self.continuous {
                self.remaining
            } else {
                self.remaining - 1
            },
            continuous: self.continuous,
            tally: self.tally.record(outcome),
        }
    }

    /// The run after attempts that came to `outcomes`, in order.
    pub open spec fn after_all(self, outcomes: Seq<AttemptResult>) -> RunState
        decreases outcomes.len(),
    {
        if outcomes.len() == 0 {
            self
        } else {
            self.after_all(outcomes.drop_last()).after_attempt(outcomes.last())
        }
    }
}

/// A bounded run makes exactly as many attempts as it was asked for: after
/// fewer outcomes than `count` it is not finished, after `count` outcomes it
/// is, and its tally is then that of all of them.
pub proof fn lemma_bounded_run(count: int, outcomes: Seq<AttemptResult>)
    requires
        outcomes.len() <= count,
    ensures
        !RunState::start(count, false).after_all(outcomes).continuous,
        RunState::start(count, false).after_all(outcomes).remaining == count - outcomes.len(),
        RunState::start(count, false).after_all(outcomes).tally == tally_of(outcomes),
        RunState::start(count, false).after_all(outcomes).finished() <==> outcomes.len() == count,
    decreases outcomes.len(),
{
    lemma_tally_of_push(Seq::empty(), AttemptResult::Timeout);
    if outcomes.len() > 0 {
        lemma_bounded_run(count, outcomes.drop_last());
        lemma_tally_of_push(outcomes.drop_last(), outcomes.last());
        assert(outcomes.drop_last().push(outcomes.last()) =~= outcomes);
    } else {
        assert(outcomes =~= Seq::empty());
    }
}

/// A continuous run never finishes, however many attempts it has made, and
/// its tally is that of all of them.
pub proof fn lemma_continuous_run(count: int, outcomes: Seq<AttemptResult>)
    ensures
        RunState::start(count, true).after_all(outcomes).continuous,
        !RunState::start(count, true).after_all(outcomes).finished(),
        RunState::start(count, true).after_all(outcomes).tally == tally_of(outcomes),
    decreases outcomes.len(),
{
    lemma_tally_of_push(Seq::empty(), AttemptResult::Timeout);
    if outcomes.len() > 0 {
        lemma_continuous_run(count, outcomes.drop_last());
        lemma_tally_of_push(outcomes.drop_last(), outcomes.last());
        assert(outcomes.drop_last().push(outcomes.last()) =~= outcomes);
    } else {
        assert(outcomes =~= Seq::empty());
    }
}

/// A bounded run that is asked for no attempt is finished before it
/// starts: nothing was sent, nothing received, the loss is 0 percent, and
/// there is no round-trip time to report.
pub proof fn lemma_run_without_attempts(count: int)
    requires
        count <= 0,
    ensures
        RunState::start(count, false).finished(),
        RunState::start(count, false).tally.sent == 0,
        RunState::start(count, false).tally.received == 0,
        RunState::start(count, false).tally.loss_percent() == 0,
        RunState::start(count, false).tally.average_ms() is None,
        RunState::start(count, false).tally.fastest_ms() is None,
        RunState::start(count, false).tally.slowest_ms() is None,
{
}

/// A run in progress.
pub struct ProbeRun {
    remaining: i32,
    continuous: bool,
    stats: RunStatistics,
}

impl View for ProbeRun {
    type V = RunState;

    closed spec fn view(&self) -> RunState {
        RunState {
            remaining: self.remaining as int,
            continuous: self.continuous,
            tally: self.stats@,
        }
    }
}

impl ProbeRun {
    /// Starts a run of `count` attempts, or, if `continuous`, one that goes
    /// on whatever `count` is. A bounded run with a `count` of zero or less
    /// is finished at once.
    pub fn start(count: i32, continuous: bool) -> (run: ProbeRun)
        ensures
            run@ == RunState::start(count as int, continuous),
    {
        ProbeRun { remaining: count, continuous, stats: RunStatistics::new() }
    }

    /// Tells whether the run makes no further attempt.
    pub fn is_finished(&self) -> (finished: bool)
        ensures
            finished == self@.finished(),
    {
        !self.continuous && self.remaining <= 0
    }

    /// The statistics of the attempts made so far.
    pub fn statistics(&self) -> (stats: &RunStatistics)
        ensures
            stats@ == self@.tally,
    {
        &self.stats
    }

    /// Takes in the outcome of the attempt that the program just made and
    /// says what comes next: a pause before the next attempt, or the end of
    /// the run after the last attempt of a bounded run.
    pub fn complete_attempt(&mut self, outcome: AttemptResult) -> (next: NextAction)
        requires
            !old(self)@.finished(),
            old(self)@.tally.has_room_for(outcome),
        ensures
            final(self)@ == old(self)@.after_attempt(outcome),
            next == if final(self)@.finished() {
                NextAction::Finish
            } else {
                NextAction::Pause
            },
    {
        self.stats.record(outcome);
        if !self.continuous {
            self.remaining = self.remaining - 1;
        }
        if self.continuous || self.remaining > 0 {
            NextAction::Pause
        } else {
            NextAction::Finish
        }
    }
}

} // verus!
