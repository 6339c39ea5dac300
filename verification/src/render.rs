//! The lines that a run reports.

use vstd::prelude::*;
use vstd::string::StringExecFns;

use crate::stats::{AttemptResult, RunStatistics, Tally, NANOS_PER_MILLI};
use crate::text::{decimal, push_decimal};

verus! {

/// The line that opens a run: the target as the user gave it and the
/// payload size.
pub open spec fn banner_text(target: Seq<char>, payload_size: nat) -> Seq<char> {
    "ringing "@ + target + " with "@ + decimal(payload_size) + " bytes of data:"@
}

/// The line for an attempt that was answered after `millis` milliseconds.
pub open spec fn reply_text(target: Seq<char>, payload_size: nat, millis: nat, ttl: nat) -> Seq<
    char,
> {
    "Reply from "@ + target + ": bytes="@ + decimal(payload_size) + " time="@ + decimal(millis)
        + "ms TTL="@ + decimal(ttl)
}

/// The line for an attempt that was not answered.
pub open spec fn timeout_text() -> Seq<char> {
    "Request timed out."@
}

/// The line for one attempt: a reply with its round trip in whole
/// milliseconds, or the timeout line.
pub open spec fn attempt_text(
    target: Seq<char>,
    payload_size: nat,
    ttl: nat,
    outcome: AttemptResult,
) -> Seq<char> {
    match outcome {
        AttemptResult::Reply(rtt) => reply_text(
            target,
            payload_size,
            rtt as nat / (NANOS_PER_MILLI as nat),
            ttl,
        ),
        AttemptResult::Timeout => timeout_text(),
    }
}

/// The line that counts the packets of a run.
pub open spec fn packets_text(tally: Tally) -> Seq<char> {
    "Packets: Sent = "@ + decimal(tally.sent) + ", Received = "@ + decimal(tally.received)
        + ", Lost = "@ + decimal(tally.lost() as nat) + " ("@ + decimal(tally.loss_percent() as nat)
        + "% loss)"@
}

/// The line that sums up the round-trip times; there is none for a run
/// without a reply.
pub open spec fn round_trip_text(tally: Tally) -> Option<Seq<char>> {
    if tally.received == 0 {
        None
    } else {
        Some(
            "Minimum = "@ + decimal(tally.fastest_ms()->0) + "ms, Maximum = "@ + decimal(
                tally.slowest_ms()->0,
            ) + "ms, Average = "@ + decimal(tally.average_ms()->0) + "ms"@,
        )
    }
}

/// Renders the line that opens a run.
pub fn banner(target: &str, payload_size: usize) -> (line: String)
    ensures
        line@ == banner_text(target@, payload_size as nat),
{
    let mut line = String::from_str("ringing ");
    line.append(target);
    line.append(" with ");
    push_decimal(&mut line, payload_size as u128);
    line.append(" bytes of data:");
    line
}

/// Renders the line for one attempt.
pub fn attempt_line(target: &str, payload_size: usize, ttl: u32, outcome: AttemptResult) -> (line:
    String)
    ensures
        line@ == attempt_text(target@, payload_size as nat, ttl as nat, outcome),
{
    match outcome {
        AttemptResult::Reply(rtt) => {
            let mut line = String::from_str("Reply from ");
            line.append(target);
            line.append(": bytes=");
            push_decimal(&mut line, payload_size as u128);
            line.append(" time=");
            push_decimal(&mut line, rtt / NANOS_PER_MILLI);
            line.append("ms TTL=");
            push_decimal(&mut line, ttl as u128);
            line
        },
        AttemptResult::Timeout => String::from_str("Request timed out."),
    }
}

/// Renders the line that counts the packets of a run.
pub fn packets_line(stats: &RunStatistics) -> (line: String)
    ensures
        line@ == packets_text(stats@),
{
    let mut line = String::from_str("Packets: Sent = ");
    push_decimal(&mut line, stats.sent() as u128);
    line.append(", Received = ");
    push_decimal(&mut line, stats.received() as u128);
    line.append(", Lost = ");
    push_decimal(&mut line, stats.lost() as u128);
    line.append(" (");
    push_decimal(&mut line, stats.loss_percent() as u128);
    line.append("% loss)");
    line
}

/// Renders the line that sums up the round-trip times, if the run had a
/// reply.
pub fn round_trip_line(stats: &RunStatistics) -> (line: Option<String>)
    ensures
        line is Some <==> stats@.received > 0,
        match line {
            Some(text) => round_trip_text(stats@) == Some(text@),
            None => round_trip_text(stats@) is None,
        },
{
    match (stats.min_rtt_ms(), stats.max_rtt_ms(), stats.average_rtt_ms()) {
        (Some(fastest), Some(slowest), Some(average)) => {
            let mut line = String::from_str("Minimum = ");
            push_decimal(&mut line, fastest);
            line.append("ms, Maximum = ");
            push_decimal(&mut line, slowest);
            line.append("ms, Average = ");
            push_decimal(&mut line, average);
            line.append("ms");
            Some(line)
        },
        _ => None,
    }
}

} // verus!
