//! Severities and thresholds.
//!
//! An event carries a [`Level`]; a channel filters with a [`LevelFilter`].
//! Thresholds are totally ordered `Off < Error < Warn < Info < Debug < Trace`,
//! where a lower rank is more urgent and `Off` never matches any event.

use vstd::prelude::*;

verus! {

/// Severity of a single log event, from most urgent (`Error`) to most
/// verbose (`Trace`).
#[derive(Clone, Copy, PartialEq, Eq, Structural, Debug)]
pub enum Level {
    Error,
    Warn,
    Info,
    Debug,
    Trace,
}

/// Severity threshold of a channel or of a module override. `Off` means
/// "never matches": a channel whose effective threshold is `Off` drops
/// every event.
#[derive(Clone, Copy, PartialEq, Eq, Structural, Debug)]
pub enum LevelFilter {
    Off,
    Error,
    Warn,
    Info,
    Debug,
    Trace,
}

/// Rank of a severity under the `Off < Error < ... < Trace` order
/// (`Off` itself is not a severity, so ranks start at 1).
pub open spec fn level_rank(l: Level) -> int {
    match l {
        Level::Error => 1,
        Level::Warn => 2,
        Level::Info => 3,
        Level::Debug => 4,
        Level::Trace => 5,
    }
}

/// Rank of a threshold under the `Off < Error < ... < Trace` order.
pub open spec fn filter_rank(f: LevelFilter) -> int {
    match f {
        LevelFilter::Off => 0,
        LevelFilter::Error => 1,
        LevelFilter::Warn => 2,
        LevelFilter::Info => 3,
        LevelFilter::Debug => 4,
        LevelFilter::Trace => 5,
    }
}

/// The upper-case label of a severity, as it appears in rendered lines.
pub open spec fn label_spec(l: Level) -> Seq<char> {
    match l {
        Level::Error => "ERROR"@,
        Level::Warn => "WARN"@,
        Level::Info => "INFO"@,
        Level::Debug => "DEBUG"@,
        Level::Trace => "TRACE"@,
    }
}

impl Level {
    /// Numeric rank of this severity; lower is more urgent.
    pub fn rank(self) -> (r: u8)
        ensures
            r as int == level_rank(self),
    {
        match self {
            Level::Error => 1,
            Level::Warn => 2,
            Level::Info => 3,
            Level::Debug => 4,
            Level::Trace => 5,
        }
    }


    /// Upper-case label of this severity.
    pub fn label(self) -> (r: &'static str)
        ensures
            r@ == label_spec(self),
    {
        match self {
            Level::Error => "ERROR",
            Level::Warn => "WARN",
            Level::Info => "INFO",
            Level::Debug => "DEBUG",
            Level::Trace => "TRACE",
        }
    }
}

impl LevelFilter {
    /// Numeric rank of this threshold; `Off` is 0, `Trace` is 5.
    pub fn rank(self) -> (r: u8)
        ensures
            r as int == filter_rank(self),
    {
        match self {
            LevelFilter::Off => 0,
            LevelFilter::Error => 1,
            LevelFilter::Warn => 2,
            LevelFilter::Info => 3,
            LevelFilter::Debug => 4,
            LevelFilter::Trace => 5,
        }
    }

    /// The less restrictive (higher-ranked) of two thresholds.
    pub fn least_restrictive(self, other: LevelFilter) -> (r: LevelFilter)
        ensures
            filter_rank(r) == if filter_rank(self) >= filter_rank(other) {
                filter_rank(self)
            } else {
                filter_rank(other)
            },
    {
        if self.rank() >= other.rank() {
            self
        } else {
            other
        }
    }
}

/// Whether an event of severity `sev` passes the effective threshold `eff`:
/// `eff` is not `Off` and `sev` is at least as urgent as `eff`.
pub open spec fn passes(eff: LevelFilter, sev: Level) -> bool {
    eff != LevelFilter::Off && level_rank(sev) <= filter_rank(eff)
}

} // verus!
