//! Sinks: the byte destinations rendered lines are written to.

use vstd::prelude::*;

mod simple_console_output;

pub use simple_console_output::SimpleConsoleOutput;

verus! {

/// A destination for rendered log lines. Implementations must be
/// default-constructible and safe to use from the thread that holds the
/// enclosing [`SharedSink`] lock.
pub trait TacitOutput: core::default::Default + Send + Sync {
    /// Write one rendered line followed by a line terminator; report
    /// whether the write succeeded.
    fn write_line(&mut self, line: &str) -> bool;

    /// Flush buffered output; report whether flushing succeeded.
    fn flush(&mut self) -> bool;
}

/// A sink under reference-counted shared ownership with one
/// mutual-exclusion lock per destination. The lock scope covers exactly
/// one write, so concurrent log lines are never interleaved character by
/// character.
///
/// Relies on `std::sync::Arc` and `parking_lot::Mutex` to hold the sink;
/// Verus does not look inside this struct.
#[verifier::external_body]
#[verifier::reject_recursive_types(O)]
pub struct SharedSink<O: TacitOutput> {
    inner: std::sync::Arc<parking_lot::Mutex<O>>,
}

impl<O: TacitOutput> SharedSink<O> {
    /// Wrap a sink for shared, lock-guarded access.
    ///
    /// Relies on `parking_lot::Mutex::new` and `std::sync::Arc::new`.
    #[verifier::external_body]
    pub fn new(output: O) -> SharedSink<O> {
        SharedSink { inner: std::sync::Arc::new(parking_lot::Mutex::new(output)) }
    }

    /// Write one line to the sink while holding its lock.
    ///
    /// Relies on `parking_lot::Mutex::lock`: the sink is handed the line
    /// under mutual exclusion, and the guard releases the lock when the
    /// write returns. Whether the write succeeds is the sink's affair, so
    /// nothing is stated of the result.
    #[verifier::external_body]
    pub fn write_line(&self, line: &str) -> bool {
        let mut guard = self.inner.lock();
        guard.write_line(line)
    }

    /// Flush the sink while holding its lock.
    ///
    /// Relies on `parking_lot::Mutex::lock`, as `write_line` does.
    #[verifier::external_body]
    pub fn flush(&self) -> bool {
        let mut guard = self.inner.lock();
        guard.flush()
    }
}

} // verus!
