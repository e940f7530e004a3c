//! Repeated timed runs of a callable, reduced to the fastest run.
use vstd::prelude::*;
use std::time::{Duration, Instant};

verus! {

/// Number of timed runs per benchmark.
pub const TRIALS: usize = 300;

#[verifier::external_type_specification]
#[verifier::external_body]
pub struct ExInstant(Instant);

/// Relies on `Instant::now`: a reading of the monotonic clock.
#[verifier::external_body]
fn now() -> Instant {
    Instant::now()
}

/// Relies on `Instant::elapsed`: the time since `start` was read.
#[verifier::external_body]
fn elapsed(start: &Instant) -> Duration {
    start.elapsed()
}

/// Relies on `Duration::as_nanos`: a duration in whole nanoseconds.
#[verifier::external_body]
fn as_nanos(d: &Duration) -> u128 {
    d.as_nanos()
}

/// The outcome of a benchmark: each run's result and duration, in order,
/// and the shortest duration.
pub struct Benchmark<T> {
    pub results: Vec<T>,
    pub nanos: Vec<u128>,
    pub fastest_nanos: u128,
}

/// The smallest of `times`.
pub fn fastest(times: &[u128]) -> (m: u128)
    requires
        times@.len() > 0,
    ensures
        exists|i: int| 0 <= i < times@.len() && times@[i] == m,
        forall|i: int| 0 <= i < times@.len() ==> m <= times@[i],
{
    let mut m: u128 = times[0];
    let ghost mut at: int = 0;
    for k in 1..times.len()
        invariant
            times@.len() > 0,
            0 <= at < k,
            times@[at] == m,
            forall|i: int| 0 <= i < k ==> m <= times@[i],
    {
        if times[k] < m {
            m = times[k];
            proof {
                at = k as int;
            }
        }
    }
    m
}

/// Calls `f` `TRIALS` times, one after the other, timing each call.
#[inline(never)]
pub fn run_benchmark<F: Fn() -> T, T>(f: F) -> (r: Benchmark<T>)
    requires
        f.requires(()),
    ensures
        r.results@.len() == TRIALS,
        r.nanos@.len() == TRIALS,
        forall|i: int| 0 <= i < TRIALS ==> f.ensures((), #[trigger] r.results@[i]),
        exists|i: int| 0 <= i < TRIALS && r.nanos@[i] == r.fastest_nanos,
        forall|i: int| 0 <= i < TRIALS ==> r.fastest_nanos <= r.nanos@[i],
{
    let mut results: Vec<T> = Vec::with_capacity(TRIALS);
    let mut nanos: Vec<u128> = Vec::with_capacity(TRIALS);
    for k in 0..TRIALS
        invariant
            f.requires(()),
            results@.len() == k,
            nanos@.len() == k,
            forall|i: int| 0 <= i < k ==> f.ensures((), #[trigger] results@[i]),
    {
        let start = now();
        results.push(f());
        let d = elapsed(&start);
        nanos.push(as_nanos(&d));
    }
    let fastest_nanos = fastest(nanos.as_slice());
    Benchmark { results, nanos, fastest_nanos }
}

} // verus!
