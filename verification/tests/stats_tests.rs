use ring_probe::engine::{NextAction, ProbeRun, PAUSE_MS};
use ring_probe::stats::{AttemptResult, RunStatistics, NANOS_PER_MILLI};

const MS: u128 = 1_000_000;

fn record_all(outcomes: &[AttemptResult]) -> RunStatistics {
    let mut stats = RunStatistics::new();
    for outcome in outcomes {
        assert!(stats.can_record(*outcome));
        stats.record(*outcome);
    }
    stats
}

#[test]
fn statistics_of_three_replies_and_a_timeout() {
    let stats = record_all(&[
        AttemptResult::Reply(10 * MS),
        AttemptResult::Timeout,
        AttemptResult::Reply(30 * MS),
        AttemptResult::Reply(20 * MS),
    ]);
    assert_eq!(stats.sent(), 4);
    assert_eq!(stats.received(), 3);
    assert_eq!(stats.lost(), 1);
    assert_eq!(stats.loss_percent(), 25);
    assert_eq!(stats.min_rtt_ms(), Some(10));
    assert_eq!(stats.max_rtt_ms(), Some(30));
    assert_eq!(stats.average_rtt_ms(), Some(20));
}

#[test]
fn statistics_of_nothing() {
    let stats = RunStatistics::new();
    assert_eq!(stats.sent(), 0);
    assert_eq!(stats.received(), 0);
    assert_eq!(stats.lost(), 0);
    assert_eq!(stats.loss_percent(), 0);
    assert_eq!(stats.min_rtt_ms(), None);
    assert_eq!(stats.max_rtt_ms(), None);
    assert_eq!(stats.average_rtt_ms(), None);
}

#[test]
fn statistics_of_timeouts_only() {
    let stats = record_all(&[AttemptResult::Timeout, AttemptResult::Timeout]);
    assert_eq!(stats.sent(), 2);
    assert_eq!(stats.received(), 0);
    assert_eq!(stats.lost(), 2);
    assert_eq!(stats.loss_percent(), 100);
    assert_eq!(stats.min_rtt_ms(), None);
    assert_eq!(stats.max_rtt_ms(), None);
    assert_eq!(stats.average_rtt_ms(), None);
}

#[test]
fn loss_is_rounded_down() {
    let stats = record_all(&[
        AttemptResult::Timeout,
        AttemptResult::Timeout,
        AttemptResult::Reply(MS),
    ]);
    // 100 * 2 / 3
    assert_eq!(stats.loss_percent(), 66);
    let stats = record_all(&[
        AttemptResult::Timeout,
        AttemptResult::Reply(MS),
        AttemptResult::Reply(MS),
    ]);
    // 100 * 1 / 3
    assert_eq!(stats.loss_percent(), 33);
}

#[test]
fn round_trips_are_reported_in_whole_milliseconds() {
    let stats = record_all(&[AttemptResult::Reply(1_999_999), AttemptResult::Reply(999_999)]);
    assert_eq!(NANOS_PER_MILLI, 1_000_000);
    assert_eq!(stats.min_rtt_ms(), Some(0));
    assert_eq!(stats.max_rtt_ms(), Some(1));
    // the total, 2_999_998 ns, is 2 whole ms; 2 / 2
    assert_eq!(stats.average_rtt_ms(), Some(1));
}

#[test]
fn average_divides_the_total_in_milliseconds() {
    let stats = record_all(&[
        AttemptResult::Reply(10 * MS),
        AttemptResult::Reply(10 * MS),
        AttemptResult::Reply(11 * MS),
    ]);
    // 31 / 3
    assert_eq!(stats.average_rtt_ms(), Some(10));
    assert_eq!(stats.min_rtt_ms(), Some(10));
    assert_eq!(stats.max_rtt_ms(), Some(11));
}

#[test]
fn average_lies_between_the_extremes() {
    let mut stats = RunStatistics::new();
    for i in 0..200u128 {
        let outcome = if i % 7 == 3 {
            AttemptResult::Timeout
        } else {
            AttemptResult::Reply((i * 7919 + 13) % 100_000_007)
        };
        stats.record(outcome);
        if let (Some(low), Some(mid), Some(high)) =
            (stats.min_rtt_ms(), stats.average_rtt_ms(), stats.max_rtt_ms())
        {
            assert!(low <= mid && mid <= high);
        }
        assert!(stats.received() <= stats.sent());
        assert!(stats.loss_percent() <= 100);
        assert_eq!(stats.sent(), (i + 1) as u64);
    }
}

#[test]
fn a_single_reply_is_least_greatest_and_average() {
    let stats = record_all(&[AttemptResult::Reply(42 * MS + 5)]);
    assert_eq!(stats.min_rtt_ms(), Some(42));
    assert_eq!(stats.max_rtt_ms(), Some(42));
    assert_eq!(stats.average_rtt_ms(), Some(42));
    assert_eq!(stats.loss_percent(), 0);
}

#[test]
fn no_room_for_a_total_beyond_128_bits() {
    let stats = record_all(&[AttemptResult::Reply(u128::MAX - 5)]);
    assert!(stats.can_record(AttemptResult::Reply(5)));
    assert!(!stats.can_record(AttemptResult::Reply(6)));
    assert!(stats.can_record(AttemptResult::Timeout));
}

#[test]
fn run_of_three_attempts() {
    let mut run = ProbeRun::start(3, false);
    assert!(!run.is_finished());
    assert_eq!(run.complete_attempt(AttemptResult::Reply(MS)), NextAction::Pause);
    assert!(!run.is_finished());
    assert_eq!(run.complete_attempt(AttemptResult::Reply(2 * MS)), NextAction::Pause);
    assert!(!run.is_finished());
    assert_eq!(run.complete_attempt(AttemptResult::Reply(3 * MS)), NextAction::Finish);
    assert!(run.is_finished());
    assert_eq!(run.statistics().sent(), 3);
    assert_eq!(run.statistics().received(), 3);
    assert_eq!(run.statistics().loss_percent(), 0);
    assert_eq!(run.statistics().average_rtt_ms(), Some(2));
}

#[test]
fn run_of_one_attempt_does_not_pause() {
    let mut run = ProbeRun::start(1, false);
    assert_eq!(run.complete_attempt(AttemptResult::Timeout), NextAction::Finish);
    assert!(run.is_finished());
    assert_eq!(run.statistics().sent(), 1);
    assert_eq!(run.statistics().loss_percent(), 100);
}

#[test]
fn run_without_attempts() {
    for count in [0, -1, i32::MIN] {
        let run = ProbeRun::start(count, false);
        assert!(run.is_finished());
        assert_eq!(run.statistics().sent(), 0);
        assert_eq!(run.statistics().received(), 0);
        assert_eq!(run.statistics().loss_percent(), 0);
        assert_eq!(run.statistics().average_rtt_ms(), None);
    }
}

#[test]
fn continuous_run_goes_on_whatever_the_count() {
    for count in [0, 1, -3] {
        let mut run = ProbeRun::start(count, true);
        for i in 0..10u64 {
            assert!(!run.is_finished());
            assert_eq!(run.complete_attempt(AttemptResult::Timeout), NextAction::Pause);
            assert_eq!(run.statistics().sent(), i + 1);
        }
        assert!(!run.is_finished());
    }
}

#[test]
fn pause_is_one_second() {
    assert_eq!(PAUSE_MS, 1000);
}
