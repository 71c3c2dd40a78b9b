use vstd::prelude::*;

use std::sync::atomic::AtomicU64;
use std::sync::atomic::Ordering;
use std::time::Duration;
use std::time::Instant;

verus! {

/// Monotonic time source (milliseconds since an arbitrary epoch).
pub trait TimeSource: Send + Sync {
    fn now_ms(&self) -> u64;
}

/// Scroll event injection: the only side effect the engine produces.
pub trait ScrollOutput: Send + Sync {
    fn inject_wheel(&self, delta_x: i32, delta_y: i32);
}

#[verifier::external_type_specification]
#[verifier::external_body]
pub struct ExInstant(Instant);

/// The current instant.
///
/// Trusted: `Instant::now`; the value depends on the clock, so nothing is
/// stated of it.
#[verifier::external_body]
fn instant_now() -> Instant {
    Instant::now()
}

/// Time elapsed since `start`.
///
/// Trusted: `Instant::elapsed`; the value depends on the clock, so nothing
/// is stated of it.
#[verifier::external_body]
fn elapsed_since(start: &Instant) -> Duration {
    start.elapsed()
}

/// Whole milliseconds of a duration.
///
/// Trusted: `Duration::as_millis`; durations are opaque here, so nothing is
/// stated of the result.
#[verifier::external_body]
fn whole_millis(d: &Duration) -> u128 {
    d.as_millis()
}

/// System clock backed by the monotonic `Instant`.
pub struct SystemClock {
    epoch: Instant,
}

impl SystemClock {
    /// A clock whose epoch is now.
    pub fn new() -> Self {
        SystemClock { epoch: instant_now() }
    }
}

impl TimeSource for SystemClock {
    fn now_ms(&self) -> u64 {
        let d = elapsed_since(&self.epoch);
        let ms: u128 = whole_millis(&d);
        #[verifier::truncate]
        (ms as u64)
    }
}

/// A controllable time source for deterministic tests.
pub struct MockTime {
    ms: AtomicU64,
}

impl MockTime {
    /// Time starts at 0.
    pub fn new() -> Self {
        MockTime { ms: AtomicU64::new(0) }
    }

    /// Sets the current time.
    pub fn set(&self, ms: u64) {
        self.ms.store(ms, Ordering::SeqCst);
    }

    /// Moves the time forward by `delta` (wrapping).
    pub fn advance(&self, delta: u64) {
        self.ms.fetch_add(delta, Ordering::SeqCst);
    }
}

impl TimeSource for MockTime {
    fn now_ms(&self) -> u64 {
        self.ms.load(Ordering::SeqCst)
    }
}

} // verus!
