//! The estimate of how long a mask takes from frame capture to delivery.

use vstd::prelude::*;

verus! {

/// Nanoseconds in one millisecond.
pub const NANOS_PER_MILLI: u64 = 1_000_000;

/// Nanoseconds in one second.
pub const NANOS_PER_SEC: u64 = 1_000_000_000;

/// Longest round trip that still counts as a measurement (two seconds).
/// Anything above it is taken for the aftermath of a stall.
pub const MAX_MEASURED_LATENCY_NS: u64 = 2_000_000_000;

/// A measurement is used only if it is not negative and not above
/// [`MAX_MEASURED_LATENCY_NS`].
pub open spec fn measurement_accepted(measured_ns: int) -> bool {
    0 <= measured_ns <= MAX_MEASURED_LATENCY_NS
}

/// The estimate that follows `estimate_ns` once `measured_ns` was observed.
///
/// A rejected measurement changes nothing. The first accepted one becomes the
/// estimate. After that the estimate moves a fifth of the way towards each
/// accepted measurement: four parts old, one part new, rounded down.
pub open spec fn ema_after(estimate_ns: int, measured_ns: int) -> int {
    if !measurement_accepted(measured_ns) {
        estimate_ns
    } else if estimate_ns <= 0 {
        measured_ns
    } else {
        (estimate_ns * 4 + measured_ns) / 5
    }
}

/// Feeds one measured round trip into the moving average `ema_ns`.
/// An estimate of zero means that nothing was measured yet.
pub fn update_mask_latency_ema_ns(ema_ns: &mut u64, measured_ns: i64)
    ensures
        *final(ema_ns) == ema_after(*old(ema_ns) as int, measured_ns as int),
        !measurement_accepted(measured_ns as int) ==> *final(ema_ns) == *old(ema_ns),
{
    if measured_ns < 0 || measured_ns as u64 > MAX_MEASURED_LATENCY_NS {
        return ;
    }
    if *ema_ns == 0 {
        *ema_ns = measured_ns as u64;
    } else {
        let blended: u128 = ((*ema_ns as u128) * 4 + (measured_ns as u128)) / 5;
        *ema_ns = blended as u64;
    }
}

/// The measured round trip of a mask captured at `capture_ns` and delivered
/// at `now_ns`; negative if the capture time lies in the future.
pub open spec fn round_trip(now_ns: int, capture_ns: int) -> int {
    now_ns - capture_ns
}

/// Feeds the round trip of a mask captured at `capture_ns` and delivered at
/// `now_ns` into `ema_ns`.
pub fn observe_round_trip(ema_ns: &mut u64, now_ns: u64, capture_ns: u64)
    ensures
        *final(ema_ns) == ema_after(*old(ema_ns) as int, round_trip(now_ns as int, capture_ns as int)),
{
    if capture_ns > now_ns {
        return ;
    }
    let elapsed: u64 = now_ns - capture_ns;
    if elapsed > MAX_MEASURED_LATENCY_NS {
        return ;
    }
    update_mask_latency_ema_ns(ema_ns, elapsed as i64);
}

/// An accepted measurement never moves the estimate outside the span between
/// the old estimate and the measurement.
pub proof fn lemma_ema_stays_between(estimate_ns: int, measured_ns: int)
    requires
        estimate_ns > 0,
        measurement_accepted(measured_ns),
    ensures
        estimate_ns <= measured_ns ==> estimate_ns <= ema_after(estimate_ns, measured_ns) <= measured_ns,
        measured_ns <= estimate_ns ==> measured_ns <= ema_after(estimate_ns, measured_ns) <= estimate_ns,
{
}

/// An estimate within the accepted range stays within it, whatever is
/// measured.
pub proof fn lemma_ema_stays_bounded(estimate_ns: int, measured_ns: int)
    requires
        0 <= estimate_ns <= MAX_MEASURED_LATENCY_NS,
    ensures
        0 <= ema_after(estimate_ns, measured_ns) <= MAX_MEASURED_LATENCY_NS,
{
}

} // verus!
