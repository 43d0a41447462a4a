//! Rate limiting of repeated log lines, and the values that the configuration
//! file may hold.
use vstd::prelude::*;

verus! {

/// Minimum time between two repeated log lines, in milliseconds.
pub const LOG_INTERVAL_MS: u64 = 5_000;

/// Whether a repeated log line is due at `now`, the last one having gone out
/// at `last`.
pub open spec fn log_due(last: u64, now: u64) -> bool {
    now >= last + LOG_INTERVAL_MS
}

/// Whether a repeated log line is due at `now`, and the time of the last one
/// afterwards.
pub open spec fn log_step(last: u64, now: u64) -> (bool, u64) {
    if log_due(last, now) { (true, now) } else { (false, last) }
}

/// Whether a repeated log line is due at time `now` (milliseconds since the
/// runtime started), given the time of the last one in `last_scan_log`; when
/// it is, records `now` as the time of the last one.
pub fn should_log(last_scan_log: &mut u64, now: u64) -> (due: bool)
    ensures
        (due, *final(last_scan_log)) == log_step(*old(last_scan_log), now),
{
    if now.saturating_sub(*last_scan_log) >= LOG_INTERVAL_MS {
        *last_scan_log = now;
        true
    } else {
        false
    }
}


/// Repeated log lines are rate limited: when two checks in a row both let a
/// line out, the second comes at least `LOG_INTERVAL_MS` after the first;
/// and once that long has passed since the last line, the next check lets
/// one out.
pub proof fn repeated_lines_spaced(last: u64, now1: u64, now2: u64)
    ensures
        log_step(last, now1).0 && log_step(log_step(last, now1).1, now2).0 ==> now2 >= now1 + LOG_INTERVAL_MS,
        now2 >= log_step(last, now1).1 + LOG_INTERVAL_MS ==> log_step(log_step(last, now1).1, now2).0,
{
}

} // verus!
