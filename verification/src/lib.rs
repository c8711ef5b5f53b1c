//! # Tacit
//!
//! A structured-logging core: log events tagged with a severity, an
//! originating module path and a message are filtered per module and
//! rendered into a structured line before being written to a sink.
//!
//! The two main pieces are [`Logger`] (one renderer bound to one sink,
//! with a severity-filtering policy) and [`TacitLogger`] (the dispatcher
//! that fans each event out to every logger that accepts it).

use vstd::prelude::*;

mod event;
mod filter;
mod formatters;
mod level;
mod logger;
mod outputs;
mod properties;

pub use crate::level::Level;
pub use crate::level::LevelFilter;
pub use crate::level::filter_rank;
pub use crate::level::label_spec;
pub use crate::level::level_rank;
pub use crate::level::passes;
pub use crate::event::Event;
pub use crate::filter::ModuleFilter;
pub use crate::filter::entries_view;
pub use crate::filter::first_match;
pub use crate::filter::is_prefix_of;
pub use crate::filter::lookup;
pub use crate::filter::distinct_keys;
pub use crate::filter::sorted_by_len;
pub use crate::formatters::JsonFormatter;
pub use crate::formatters::json_object_text;
pub use crate::formatters::object_entries;
pub use crate::formatters::upsert;
pub use crate::formatters::upsert_all;
pub use crate::formatters::value_model;
pub use crate::formatters::object_model;
pub use crate::formatters::SimpleFormatter;
pub use crate::formatters::TacitFormatter;
pub use crate::formatters::pairs_view;
pub use crate::formatters::lemma_property_shadowing;
pub use crate::formatters::dec_i64;
pub use crate::formatters::join_segments;
pub use crate::formatters::kept_segments;
pub use crate::formatters::segment;
pub use crate::formatters::simple_line;
pub use crate::formatters::simple_value_spec;
pub use crate::properties::FnProperty;
pub use crate::properties::PropValue;
pub use crate::properties::Property;
pub use crate::properties::StaticProperty;
pub use crate::properties::fn_resolves_to;
pub use crate::properties::resolves_to;
pub use crate::logger::EmitOutcome;
pub use crate::logger::Logger;
pub use crate::logger::props_resolution;
pub use crate::outputs::SharedSink;
pub use crate::outputs::SimpleConsoleOutput;
pub use crate::outputs::TacitOutput;
pub use crate::filter::lemma_longest_prefix_wins;
pub use crate::filter::lemma_explicit_blocks_unmatched;
pub use crate::filter::lemma_global_threshold_applies;
pub use crate::filter::lemma_resolve_repeatable;

verus! {

/// Installing a dispatcher failed because one is already installed.
#[derive(Clone, Copy, PartialEq, Eq, Structural, Debug)]
pub struct SetLoggerError {}

/// The process-wide installation state machine: "not yet installed" or
/// "installed". Installation is one-shot; a second attempt fails without
/// disturbing the first. The embedding program owns one value of this for
/// the process (tests may hold their own).
pub struct InstallState {
    installed: bool,
}

impl InstallState {
    /// Whether a dispatcher has been installed.
    pub closed spec fn is_installed(&self) -> bool {
        self.installed
    }

    /// The state before any installation.
    pub fn new() -> (r: InstallState)
        ensures
            !r.is_installed(),
    {
        InstallState { installed: false }
    }

    /// Whether a dispatcher has been installed.
    pub fn installed(&self) -> (r: bool)
        ensures
            r == self.is_installed(),
    {
        self.installed
    }
}

/// The number of loggers that accept an event from `module` at severity
/// `sev`.
pub open spec fn count_accepting<O: TacitOutput, F: TacitFormatter>(
    loggers: Seq<Logger<O, F>>,
    module: Seq<char>,
    sev: Level,
) -> nat
    decreases loggers.len(),
{
    if loggers.len() == 0 {
        0
    } else {
        count_accepting(loggers.drop_last(), module, sev) + if loggers.last().spec_accepts(
            module,
            sev,
        ) {
            1nat
        } else {
            0nat
        }
    }
}

/// The dispatcher: owns the finalized loggers and a cached maximum
/// enabled severity (the least restrictive among them), and fans each
/// event out to every logger that accepts it.
#[verifier::reject_recursive_types(O)]
pub struct TacitLogger<O: TacitOutput, F: TacitFormatter> {
    loggers: Vec<Logger<O, F>>,
    max_level: LevelFilter,
}

impl<O: TacitOutput, F: TacitFormatter> core::default::Default for TacitLogger<O, F> {
    /// A dispatcher with no loggers; its gate starts at `Off`.
    fn default() -> (r: TacitLogger<O, F>)
        ensures
            r.wf(),
            r.spec_loggers().len() == 0,
            r.spec_max_level() == LevelFilter::Off,
    {
        TacitLogger { loggers: Vec::new(), max_level: LevelFilter::Off }
    }
}

/// A dispatcher with no loggers.
pub fn new<O: TacitOutput, F: TacitFormatter>() -> (r: TacitLogger<O, F>)
    ensures
        r.wf(),
        r.spec_loggers().len() == 0,
        r.spec_max_level() == LevelFilter::Off,
{
    TacitLogger::default()
}

impl<O: TacitOutput, F: TacitFormatter> TacitLogger<O, F> {
    /// The registered loggers, in registration order.
    pub closed spec fn spec_loggers(&self) -> Seq<Logger<O, F>> {
        self.loggers@
    }

    /// The cached maximum enabled severity: the least restrictive of the
    /// registered loggers' own maxima.
    pub closed spec fn spec_max_level(&self) -> LevelFilter {
        self.max_level
    }

    /// Well-formed: every registered logger is finalized and well-formed,
    /// and no logger's maximum outranks the cached gate.
    pub open spec fn wf(&self) -> bool {
        forall|i: int|
            0 <= i < self.spec_loggers().len() ==> (#[trigger] self.spec_loggers()[i]).wf()
                && self.spec_loggers()[i].is_finalized() && filter_rank(
                self.spec_loggers()[i].spec_level_filter(),
            ) <= filter_rank(self.spec_max_level())
    }

    /// Whether the cheap global gate lets severity `sev` through at all.
    pub open spec fn spec_enabled(&self, sev: Level) -> bool {
        level_rank(sev) <= filter_rank(self.spec_max_level())
    }

    /// Add a logger to the pile: it is finalized, and its maximum enabled
    /// severity is folded into the dispatcher's cached gate by a
    /// monotonic max.
    pub fn with_logger(self, logger: Logger<O, F>) -> (r: TacitLogger<O, F>)
        requires
            self.wf(),
            logger.wf(),
        ensures
            r.wf(),
            filter_rank(r.spec_max_level()) == if filter_rank(self.spec_max_level()) >= filter_rank(
                logger.spec_level_filter(),
            ) {
                filter_rank(self.spec_max_level())
            } else {
                filter_rank(logger.spec_level_filter())
            },
            r.spec_loggers().len() == self.spec_loggers().len() + 1,
            forall|i: int|
                0 <= i < self.spec_loggers().len() ==> #[trigger] r.spec_loggers()[i]
                    == self.spec_loggers()[i],
            r.spec_loggers().last().is_finalized(),
            r.spec_loggers().last().filter().entries() == logger.filter().entries(),
            r.spec_loggers().last().spec_max_level() == logger.spec_max_level(),
            r.spec_loggers().last().spec_explicit() == logger.spec_explicit(),
            r.spec_loggers().last().spec_ignore_empty() == logger.spec_ignore_empty(),
            r.spec_loggers().last().spec_msg_prop() == logger.spec_msg_prop(),
            r.spec_loggers().last().props() == logger.props(),
            r.spec_loggers().last().spec_formatter() == logger.spec_formatter(),
    {
        let mut this = self;
        let gate = this.max_level.least_restrictive(logger.level_filter());
        this.max_level = gate;
        this.loggers.push(logger.finalize());
        proof {
            assert forall|i: int| 0 <= i < this.spec_loggers().len() implies (
            #[trigger] this.spec_loggers()[i]).wf() && this.spec_loggers()[i].is_finalized()
                && filter_rank(this.spec_loggers()[i].spec_level_filter()) <= filter_rank(
                this.spec_max_level(),
            ) by {
                if i < this.spec_loggers().len() - 1 {
                    assert(this.spec_loggers()[i] == self.spec_loggers()[i]);
                }
            }
        }
        this
    }

    /// Whether the cheap global gate lets severity `sev` through at all.
    pub fn enabled(&self, sev: Level) -> (r: bool)
        ensures
            r == self.spec_enabled(sev),
    {
        sev.rank() <= self.max_level.rank()
    }

    /// The cached maximum enabled severity.
    pub fn max_level(&self) -> (r: LevelFilter)
        ensures
            r == self.spec_max_level(),
    {
        self.max_level
    }

    /// Fan one event out: if the global gate rejects its severity, no
    /// logger is consulted; otherwise every logger is offered the event
    /// in registration order, and each that accepts it renders and
    /// writes. A failure in one logger never stops the others; the number
    /// of loggers that accepted the event is returned.
    pub fn dispatch(&self, event: &Event) -> (n: usize)
        requires
            self.wf(),
        ensures
            !self.spec_enabled(event.level) ==> n == 0,
            self.spec_enabled(event.level) ==> n as nat == count_accepting(
                self.spec_loggers(),
                event.module@,
                event.level,
            ),
    {
        if !self.enabled(event.level) {
            return 0;
        }
        let mut n: usize = 0;
        let mut i: usize = 0;
        proof {
            assert(self.spec_loggers().take(0) =~= Seq::<Logger<O, F>>::empty());
        }
        while i < self.loggers.len()
            invariant
                self.wf(),
                i <= self.spec_loggers().len(),
                n <= i,
                n as nat == count_accepting(
                    self.spec_loggers().take(i as int),
                    event.module@,
                    event.level,
                ),
            decreases self.spec_loggers().len() - i,
        {
            proof {
                assert(self.spec_loggers().take(i as int + 1).drop_last() =~= self.spec_loggers()
                    .take(i as int));
                assert(self.spec_loggers().take(i as int + 1).last() == self.spec_loggers()[
                    i as int
                ]);
            }
            let outcome = self.loggers[i].log(event);
            if !matches!(outcome, EmitOutcome::Filtered) {
                n = n + 1;
            }
            i = i + 1;
        }
        proof {
            assert(self.spec_loggers().take(self.spec_loggers().len() as int)
                =~= self.spec_loggers());
        }
        n
    }

    /// Install this dispatcher as the process-wide log target. The
    /// transition is one-shot: it succeeds exactly when nothing is
    /// installed yet, handing the dispatcher back for the embedding
    /// program to hook up; a second attempt fails with a typed error and
    /// disturbs nothing.
    pub fn log(self, state: &mut InstallState) -> (r: Result<TacitLogger<O, F>, SetLoggerError>)
        ensures
            final(state).is_installed(),
            old(state).is_installed() ==> r is Err,
            !old(state).is_installed() ==> r is Ok && r->Ok_0 == self,
    {
        if state.installed() {
            Err(SetLoggerError {  })
        } else {
            state.installed = true;
            Ok(self)
        }
    }
}

} // verus!

