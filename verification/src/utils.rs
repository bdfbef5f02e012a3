//! Small shared helpers: the clock, the random source, and a coarse
//! performance logger.

use vstd::prelude::*;

verus! {

/// Relies on chrono's `Utc::now`: current wall-clock time as milliseconds
/// since the Unix epoch. The result depends on the clock, so nothing is
/// promised of it.
#[verifier::external_body]
pub fn now_millis() -> i64 {
    chrono::Utc::now().timestamp_millis()
}

/// Relies on rand's `fill` over `ThreadRng`, a cryptographically secure
/// generator: fills a fresh buffer of the requested length with random
/// bytes. Only the length is promised; the contents depend on the
/// generator's state.
#[verifier::external_body]
pub fn random_bytes(len: usize) -> (r: Vec<u8>)
    ensures
        r@.len() == len,
{
    let mut buf = vec![0u8; len];
    rand::fill(buf.as_mut_slice());
    buf
}

/// Wall-clock stopwatch for coarse performance measurements.
pub struct PerfLog {
    start: i64,
}

impl PerfLog {
    /// Start measuring now.
    pub fn new() -> Self {
        PerfLog { start: now_millis() }
    }

    /// Milliseconds elapsed since `new`, clamped to zero if the clock
    /// moved backwards or started before the epoch. The caller prints it
    /// together with `name`.
    #[allow(unused_variables)]
    pub fn log(self, name: &str) -> (elapsed: i64)
        ensures
            elapsed >= 0,
    {
        let now = now_millis();
        if self.start >= 0 && now >= self.start {
            now - self.start
        } else {
            0
        }
    }
}

} // verus!
