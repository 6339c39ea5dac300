//! What one attempt came to, and the statistics of a run.

use vstd::prelude::*;

verus! {

/// Nanoseconds in a millisecond: round trips are kept in nanoseconds and
/// reported in whole milliseconds.
pub const NANOS_PER_MILLI: u128 = 1_000_000;

/// What one attempt came to.
#[derive(Clone, Copy, Debug, PartialEq, Eq, Structural)]
pub enum AttemptResult {
    /// Something was received within the timeout; the round trip took this
    /// many nanoseconds.
    Reply(u128),
    /// Nothing was received in time, or sending or receiving failed.
    Timeout,
}

/// The statistics of a run as numbers without bounds.
pub struct Tally {
    /// Attempts made.
    pub sent: nat,
    /// Attempts that were answered.
    pub received: nat,
    /// The shortest round trip in nanoseconds, once there was a reply.
    pub fastest: Option<nat>,
    /// The longest round trip in nanoseconds, once there was a reply.
    pub slowest: Option<nat>,
    /// All round trips together, in nanoseconds.
    pub total: nat,
}

/// The smaller of two numbers.
pub open spec fn lesser(a: nat, b: nat) -> nat {
    if a <= b {
        a
    } else {
        b
    }
}

/// The larger of two numbers.
pub open spec fn greater(a: nat, b: nat) -> nat {
    if a >= b {
        a
    } else {
        b
    }
}

impl Tally {
    /// The tally of a run in which nothing was attempted yet.
    pub open spec fn empty() -> Tally {
        Tally { sent: 0, received: 0, fastest: None, slowest: None, total: 0 }
    }

    /// The tally after one more attempt that came to `outcome`.
    pub open spec fn record(self, outcome: AttemptResult) -> Tally {
        match outcome {
            AttemptResult::Timeout => Tally { sent: self.sent + 1, ..self },
            AttemptResult::Reply(rtt) => Tally {
                sent: self.sent + 1,
                received: self.received + 1,
                fastest: Some(
                    match self.fastest {
                        Some(fastest) => lesser(fastest, rtt as nat),
                        None => rtt as nat,
                    },
                ),
                slowest: Some(
                    match self.slowest {
                        Some(slowest) => greater(slowest, rtt as nat),
                        None => rtt as nat,
                    },
                ),
                total: self.total + rtt as nat,
            },
        }
    }

    /// Whether one more attempt with this outcome still fits the machine
    /// types that hold the statistics: 64 bits for the attempts, 128 for the
    /// total.
    pub open spec fn has_room_for(self, outcome: AttemptResult) -> bool {
        &&& self.sent < u64::MAX
        &&& outcome matches AttemptResult::Reply(rtt) ==> self.total + rtt <= u128::MAX
    }

    /// Attempts that were not answered.
    pub open spec fn lost(self) -> int {
        self.sent - self.received
    }

    /// The share of attempts that were not answered, in whole percent,
    /// rounded down; `0` when nothing was sent.
    pub open spec fn loss_percent(self) -> int {
        if self.sent == 0 {
            0
        } else {
            100 * (self.sent - self.received) / (self.sent as int)
        }
    }

    /// The shortest round trip in whole milliseconds.
    pub open spec fn fastest_ms(self) -> Option<nat> {
        match self.fastest {
            Some(fastest) => Some(fastest / (NANOS_PER_MILLI as nat)),
            None => None,
        }
    }

    /// The longest round trip in whole milliseconds.
    pub open spec fn slowest_ms(self) -> Option<nat> {
        match self.slowest {
            Some(slowest) => Some(slowest / (NANOS_PER_MILLI as nat)),
            None => None,
        }
    }

    /// The average round trip: the total in whole milliseconds, divided by
    /// the number of replies and rounded down.
    pub open spec fn average_ms(self) -> Option<nat> {
        if self.received == 0 {
            None
        } else {
            Some(self.total / (NANOS_PER_MILLI as nat) / self.received)
        }
    }
}

/// The round-trip times of the replies among `outcomes`, in order.
pub open spec fn reply_times(outcomes: Seq<AttemptResult>) -> Seq<nat>
    decreases outcomes.len(),
{
    if outcomes.len() == 0 {
        Seq::empty()
    } else {
        let earlier = reply_times(outcomes.drop_last());
        match outcomes.last() {
            AttemptResult::Reply(rtt) => earlier.push(rtt as nat),
            AttemptResult::Timeout => earlier,
        }
    }
}

/// The sum of `times`.
pub open spec fn sum_of(times: Seq<nat>) -> nat
    decreases times.len(),
{
    if times.len() == 0 {
        0
    } else {
        sum_of(times.drop_last()) + times.last()
    }
}

/// The least of `times`.
pub open spec fn least_of(times: Seq<nat>) -> nat
    recommends
        times.len() > 0,
    decreases times.len(),
{
    if times.len() <= 1 {
        times.last()
    } else {
        lesser(least_of(times.drop_last()), times.last())
    }
}

/// The greatest of `times`.
pub open spec fn greatest_of(times: Seq<nat>) -> nat
    recommends
        times.len() > 0,
    decreases times.len(),
{
    if times.len() <= 1 {
        times.last()
    } else {
        greater(greatest_of(times.drop_last()), times.last())
    }
}

/// The statistics of a run whose attempts came to `outcomes`, in order:
/// how many there were, how many were replies, and the least, the greatest
/// and the sum of the replies' round-trip times.
pub open spec fn tally_of(outcomes: Seq<AttemptResult>) -> Tally {
    let times = reply_times(outcomes);
    Tally {
        sent: outcomes.len(),
        received: times.len(),
        fastest: if times.len() == 0 {
            None
        } else {
            Some(least_of(times))
        },
        slowest: if times.len() == 0 {
            None
        } else {
            Some(greatest_of(times))
        },
        total: sum_of(times),
    }
}

/// Recording attempt after attempt computes the tally of the whole
/// sequence: the tally of `outcomes` followed by `outcome` is the tally of
/// `outcomes` with `outcome` recorded.
pub proof fn lemma_tally_of_push(outcomes: Seq<AttemptResult>, outcome: AttemptResult)
    ensures
        tally_of(outcomes.push(outcome)) == tally_of(outcomes).record(outcome),
        tally_of(Seq::empty()) == Tally::empty(),
{
    assert(outcomes.push(outcome).drop_last() =~= outcomes);
    let times = reply_times(outcomes);
    match outcome {
        AttemptResult::Reply(rtt) => {
            assert(times.push(rtt as nat).drop_last() =~= times);
        },
        AttemptResult::Timeout => {},
    }
}

/// In the tally of any sequence of outcomes no more is received than was
/// sent; the fastest round trip is one of the replies' and none is
/// shorter; the slowest is one of them and none is longer.
pub proof fn lemma_tally_of_extremes(outcomes: Seq<AttemptResult>)
    ensures
        tally_of(outcomes).sent == outcomes.len(),
        tally_of(outcomes).received <= tally_of(outcomes).sent,
        0 <= tally_of(outcomes).loss_percent() <= 100,
        tally_of(outcomes).received > 0 ==> {
            let times = reply_times(outcomes);
            let fastest = tally_of(outcomes).fastest->0;
            let slowest = tally_of(outcomes).slowest->0;
            &&& times.contains(fastest)
            &&& times.contains(slowest)
            &&& forall|i: int| 0 <= i < times.len() ==> fastest <= #[trigger] times[i] <= slowest
        },
{
    lemma_reply_times_len(outcomes);
    let times = reply_times(outcomes);
    if times.len() > 0 {
        lemma_extremes(times);
    }
    let tally = tally_of(outcomes);
    if tally.sent > 0 {
        let lost = tally.sent - tally.received;
        assert(0 <= 100 * lost / (tally.sent as int) <= 100) by (nonlinear_arith)
            requires
                0 <= lost <= tally.sent,
                tally.sent > 0,
        ;
    }
}

/// The average lies between the extremes: in the tally of any sequence of
/// outcomes with a reply, the average in milliseconds is no less than the
/// fastest and no more than the slowest round trip in milliseconds.
pub proof fn lemma_tally_of_average(outcomes: Seq<AttemptResult>)
    requires
        tally_of(outcomes).received > 0,
    ensures
        tally_of(outcomes).fastest_ms()->0 <= tally_of(outcomes).average_ms()->0
            <= tally_of(outcomes).slowest_ms()->0,
{
    let times = reply_times(outcomes);
    lemma_extremes(times);
    lemma_sum_between(times, least_of(times), greatest_of(times));
    let count = times.len() as int;
    let total = sum_of(times) as int;
    let low = least_of(times) as int;
    let high = greatest_of(times) as int;
    assert(low / 1_000_000 <= total / 1_000_000 / count <= high / 1_000_000) by (nonlinear_arith)
        requires
            count > 0,
            0 <= count * low <= total <= count * high,
            0 <= low <= high,
    {
        let a = low / 1_000_000;
        let b = high / 1_000_000;
        assert(count * (1_000_000 * a) <= total);
        assert(1_000_000 * (count * a) <= total);
        assert(count * a <= total / 1_000_000);
        assert(a <= total / 1_000_000 / count);
        assert(high < 1_000_000 * (b + 1));
        assert(total < 1_000_000 * (count * (b + 1)));
        assert(total / 1_000_000 < count * (b + 1));
        assert(total / 1_000_000 / count < b + 1);
    }
}

/// No more replies than outcomes.
proof fn lemma_reply_times_len(outcomes: Seq<AttemptResult>)
    ensures
        reply_times(outcomes).len() <= outcomes.len(),
    decreases outcomes.len(),
{
    if outcomes.len() > 0 {
        lemma_reply_times_len(outcomes.drop_last());
    }
}

/// The least and the greatest of a sequence are members that bound it.
proof fn lemma_extremes(times: Seq<nat>)
    requires
        times.len() > 0,
    ensures
        times.contains(least_of(times)),
        times.contains(greatest_of(times)),
        forall|i: int| 0 <= i < times.len() ==> least_of(times) <= #[trigger] times[i] <= greatest_of(times),
    decreases times.len(),
{
    let last = times.len() - 1;
    if times.len() > 1 {
        let earlier = times.drop_last();
        lemma_extremes(earlier);
        let i = choose|i: int| 0 <= i < earlier.len() && earlier[i] == least_of(earlier);
        assert(times[i] == least_of(earlier));
        let j = choose|j: int| 0 <= j < earlier.len() && earlier[j] == greatest_of(earlier);
        assert(times[j] == greatest_of(earlier));
        assert(times[last] == times.last());
        assert forall|k: int| 0 <= k < times.len() implies least_of(times) <= #[trigger] times[k]
            <= greatest_of(times) by {
            if k < last {
                assert(times[k] == earlier[k]);
            }
        }
    } else {
        assert(times[last] == times.last());
    }
}

/// A sum lies between the count times a lower and times an upper bound of
/// its terms.
proof fn lemma_sum_between(times: Seq<nat>, low: nat, high: nat)
    requires
        forall|i: int| 0 <= i < times.len() ==> low <= #[trigger] times[i] <= high,
    ensures
        times.len() * low <= sum_of(times) <= times.len() * high,
    decreases times.len(),
{
    if times.len() > 0 {
        let earlier = times.drop_last();
        assert forall|i: int| 0 <= i < earlier.len() implies low <= #[trigger] earlier[i] <= high by {
            assert(earlier[i] == times[i]);
        }
        lemma_sum_between(earlier, low, high);
        let n = earlier.len();
        assert(low <= times[times.len() - 1] <= high);
        assert((n + 1) * low == n * low + low && (n + 1) * high == n * high + high)
            by (nonlinear_arith);
    }
}

/// The statistics of a run: attempts sent and answered, and the running
/// least, greatest and total of the round-trip times.
#[derive(Clone, Copy, Debug)]
pub struct RunStatistics {
    sent: u64,
    received: u64,
    fastest: u128,
    slowest: u128,
    total: u128,
}

impl View for RunStatistics {
    type V = Tally;

    closed spec fn view(&self) -> Tally {
        Tally {
            sent: self.sent as nat,
            received: self.received as nat,
            fastest: if self.received == 0 {
                None
            } else {
                Some(self.fastest as nat)
            },
            slowest: if self.received == 0 {
                None
            } else {
                Some(self.slowest as nat)
            },
            total: self.total as nat,
        }
    }
}

impl RunStatistics {
    /// Until the first reply the extremes hold their starting values, and
    /// never is more received than sent.
    #[verifier::type_invariant]
    spec fn consistent(self) -> bool {
        &&& self.received <= self.sent
        &&& self.received == 0 ==> self.fastest == u128::MAX && self.slowest == 0 && self.total == 0
    }

    /// Whether one more attempt with this outcome can be counted.
    pub open spec fn has_room_for(&self, outcome: AttemptResult) -> bool {
        self@.has_room_for(outcome)
    }

    /// The statistics of a run that has not attempted anything yet.
    pub fn new() -> (stats: RunStatistics)
        ensures
            stats@ == Tally::empty(),
            stats@ == tally_of(Seq::empty()),
    {
        RunStatistics { sent: 0, received: 0, fastest: u128::MAX, slowest: 0, total: 0 }
    }

    /// Tells whether `record` may be called with `outcome`.
    pub fn can_record(&self, outcome: AttemptResult) -> (room: bool)
        ensures
            room == self.has_room_for(outcome),
    {
        self.sent < u64::MAX && match outcome {
            AttemptResult::Reply(rtt) => rtt <= u128::MAX - self.total,
            AttemptResult::Timeout => true,
        }
    }

    /// Counts one more attempt: always as sent, and a reply also as
    /// received, with its round-trip time folded into the least, the
    /// greatest and the total.
    pub fn record(&mut self, outcome: AttemptResult)
        requires
            old(self).has_room_for(outcome),
        ensures
            final(self)@ == old(self)@.record(outcome),
            forall|outcomes: Seq<AttemptResult>|
                old(self)@ == tally_of(outcomes) ==> final(self)@ == #[trigger] tally_of(
                    outcomes.push(outcome),
                ),
    {
        proof {
            use_type_invariant(&*self);
            assert forall|outcomes: Seq<AttemptResult>|
                #[trigger] tally_of(outcomes.push(outcome)) == tally_of(outcomes).record(
                    outcome,
                ) by {
                lemma_tally_of_push(outcomes, outcome);
            }
        }
        match outcome {
            AttemptResult::Reply(rtt) => {
                *self = RunStatistics {
                    sent: self.sent + 1,
                    received: self.received + 1,
                    fastest: if rtt < self.fastest {
                        rtt
                    } else {
                        self.fastest
                    },
                    slowest: if rtt > self.slowest {
                        rtt
                    } else {
                        self.slowest
                    },
                    total: self.total + rtt,
                };
            },
            AttemptResult::Timeout => {
                *self = RunStatistics { sent: self.sent + 1, ..*self };
            },
        }
    }

    /// Attempts made.
    pub fn sent(&self) -> (count: u64)
        ensures
            count == self@.sent,
    {
        self.sent
    }

    /// Attempts that were answered.
    pub fn received(&self) -> (count: u64)
        ensures
            count == self@.received,
            count <= self@.sent,
    {
        proof {
            use_type_invariant(self);
        }
        self.received
    }

    /// Attempts that were not answered.
    pub fn lost(&self) -> (count: u64)
        ensures
            count == self@.lost(),
    {
        proof {
            use_type_invariant(self);
        }
        self.sent - self.received
    }

    /// The share of attempts that were not answered, in whole percent,
    /// rounded down; `0` when nothing was sent.
    pub fn loss_percent(&self) -> (percent: u64)
        ensures
            percent == self@.loss_percent(),
            percent <= 100,
    {
        proof {
            use_type_invariant(self);
        }
        if self.sent == 0 {
            0
        } else {
            let lost: u128 = (self.sent - self.received) as u128;
            let sent: u128 = self.sent as u128;
            assert(100 * lost <= 100 * sent);
            assert(100 * lost / (sent as int) <= 100) by (nonlinear_arith)
                requires
                    0 <= 100 * lost <= 100 * sent,
                    sent > 0,
            ;
            (100 * lost / sent) as u64
        }
    }

    /// The shortest round trip in whole milliseconds, once there was a
    /// reply.
    pub fn min_rtt_ms(&self) -> (millis: Option<u128>)
        ensures
            millis is Some <==> self@.received > 0,
            millis matches Some(ms) ==> self@.fastest_ms() == Some(ms as nat),
    {
        if self.received == 0 {
            None
        } else {
            Some(self.fastest / NANOS_PER_MILLI)
        }
    }

    /// The longest round trip in whole milliseconds, once there was a
    /// reply.
    pub fn max_rtt_ms(&self) -> (millis: Option<u128>)
        ensures
            millis is Some <==> self@.received > 0,
            millis matches Some(ms) ==> self@.slowest_ms() == Some(ms as nat),
    {
        if self.received == 0 {
            None
        } else {
            Some(self.slowest / NANOS_PER_MILLI)
        }
    }

    /// The average round trip in whole milliseconds, once there was a
    /// reply: the total in whole milliseconds divided by the number of
    /// replies, rounded down.
    pub fn average_rtt_ms(&self) -> (millis: Option<u128>)
        ensures
            millis is Some <==> self@.received > 0,
            millis matches Some(ms) ==> self@.average_ms() == Some(ms as nat),
    {
        if self.received == 0 {
            None
        } else {
            Some(self.total / NANOS_PER_MILLI / (self.received as u128))
        }
    }
}

} // verus!
