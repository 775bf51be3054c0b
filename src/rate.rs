//! Per-second rates from two readings of a cumulative counter.
//!
//! Elapsed time is measured in nanoseconds. An elapsed time below
//! `MIN_ELAPSED_NANOS` (zero included, as on a clock that did not advance or
//! went back) is raised to it before dividing. A counter that went down
//! (interface reset, rollover) counts as no traffic: its delta is zero.
//! A rate that does not fit in `u64` saturates at `u64::MAX`.

use vstd::prelude::*;

verus! {

pub const NANOS_PER_SEC: u64 = 1_000_000_000;

/// The smallest elapsed time a rate is divided by: one millisecond.
pub const MIN_ELAPSED_NANOS: u64 = 1_000_000;

pub open spec fn elapsed_spec(previous: u64, now: u64) -> nat {
    if now > previous {
        (now - previous) as nat
    } else {
        0
    }
}

pub open spec fn clamped_elapsed(elapsed: nat) -> nat {
    if elapsed < MIN_ELAPSED_NANOS {
        MIN_ELAPSED_NANOS as nat
    } else {
        elapsed
    }
}

pub open spec fn delta_spec(baseline: u64, current: u64) -> nat {
    if current >= baseline {
        (current - baseline) as nat
    } else {
        0
    }
}

/// `delta` bytes over `elapsed` nanoseconds, in bytes per second, rounded
/// toward zero and saturated at `u64::MAX`.
pub open spec fn rate_spec(delta: nat, elapsed: nat) -> nat {
    let r = delta * (NANOS_PER_SEC as nat) / clamped_elapsed(elapsed);
    if r > u64::MAX {
        u64::MAX as nat
    } else {
        r
    }
}

/// Nanoseconds from `previous` to `now`; zero when the clock did not advance.
pub fn elapsed_nanos(previous: u64, now: u64) -> (r: u64)
    ensures
        r == elapsed_spec(previous, now),
{
    if now > previous {
        now - previous
    } else {
        0
    }
}

/// How far a counter advanced; zero when it went down.
pub fn counter_delta(baseline: u64, current: u64) -> (r: u64)
    ensures
        r == delta_spec(baseline, current),
{
    if current >= baseline {
        current - baseline
    } else {
        0
    }
}

/// Bytes per second for `delta` bytes over `elapsed` nanoseconds.
pub fn rate_per_second(delta: u64, elapsed: u64) -> (r: u64)
    ensures
        r == rate_spec(delta as nat, elapsed as nat),
{
    let e: u64 = if elapsed < MIN_ELAPSED_NANOS {
        MIN_ELAPSED_NANOS
    } else {
        elapsed
    };
    assert((delta as nat) * (NANOS_PER_SEC as nat) <= (u64::MAX as nat) * (NANOS_PER_SEC as nat))
        by (nonlinear_arith);
    let scaled: u128 = (delta as u128) * (NANOS_PER_SEC as u128);
    let q: u128 = scaled / (e as u128);
    if q > u64::MAX as u128 {
        u64::MAX
    } else {
        q as u64
    }
}

/// A rate over at least the minimum elapsed time is the delta over the
/// elapsed seconds, rounded toward zero, as long as it fits in `u64`.
pub proof fn lemma_rate_exact(delta: nat, elapsed: nat)
    requires
        elapsed >= MIN_ELAPSED_NANOS,
        delta * (NANOS_PER_SEC as nat) / elapsed <= u64::MAX,
    ensures
        rate_spec(delta, elapsed) == delta * (NANOS_PER_SEC as nat) / elapsed,
{
}

/// Whatever the elapsed time, zero included, the rate is a finite `u64`.
pub proof fn lemma_rate_bounded(delta: nat, elapsed: nat)
    ensures
        rate_spec(delta, elapsed) <= u64::MAX,
        clamped_elapsed(elapsed) > 0,
{
}

} // verus!
