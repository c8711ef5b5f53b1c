//! A logger binds one renderer to one shared sink and owns a severity
//! policy: a global threshold, per-module overrides, and an explicit-mode
//! flag. It is built with chainable builder calls, finalized, and then
//! used read-only.

use vstd::prelude::*;
use vstd::string::*;

use crate::event::Event;
use crate::filter::ModuleFilter;
use crate::filter::lookup;
use crate::formatters::TacitFormatter;
use crate::formatters::pairs_view;
use crate::level::Level;
use crate::level::LevelFilter;
use crate::level::passes;
use crate::outputs::SharedSink;
use crate::outputs::TacitOutput;
use crate::properties::FnProperty;
use crate::properties::PropValue;
use crate::properties::Property;
use crate::properties::StaticProperty;
use crate::properties::resolves_to;

verus! {

/// The outcome of handing one event to a logger.
#[derive(Clone, Copy, PartialEq, Eq, Structural, Debug)]
pub enum EmitOutcome {
    /// The event did not pass this logger's policy; nothing was rendered
    /// or written.
    Filtered,
    /// The rendered line was handed to the sink, which accepted it.
    Written,
    /// The rendered line was handed to the sink, which reported failure.
    /// The fault stays local to this logger.
    WriteFailed,
}

/// `resolved` is one possible resolution of `props` against an event of
/// severity `lvl`: same names in the same order, each value as the
/// property resolves (computed timestamps vary with the clock).
pub open spec fn props_resolution(
    props: Seq<(String, Property)>,
    lvl: Level,
    resolved: Seq<(Seq<char>, PropValue)>,
) -> bool {
    &&& resolved.len() == props.len()
    &&& forall|i: int|
        0 <= i < props.len() ==> (#[trigger] resolved[i]).0 == props[i].0@ && resolves_to(
            props[i].1,
            lvl,
            resolved[i].1,
        )
}

/// One renderer bound to one shared sink, with this logger's filtering
/// policy and property list.
#[verifier::reject_recursive_types(O)]
pub struct Logger<O: TacitOutput, F: TacitFormatter> {
    output: SharedSink<O>,
    formatter: F,
    msg_prop: String,
    default_props: Vec<(String, Property)>,
    max_level: LevelFilter,
    module_levels: ModuleFilter,
    explicit: bool,
    ignore_empty: bool,
}

impl<O: TacitOutput, F: TacitFormatter> Logger<O, F> {
    /// The global severity threshold.
    pub closed spec fn spec_max_level(&self) -> LevelFilter {
        self.max_level
    }

    /// Whether explicit mode is on: only modules with a registered
    /// override may log at all.
    pub closed spec fn spec_explicit(&self) -> bool {
        self.explicit
    }

    /// Whether null-valued properties are suppressed when rendering.
    pub closed spec fn spec_ignore_empty(&self) -> bool {
        self.ignore_empty
    }

    /// The property name the message is rendered under.
    pub closed spec fn spec_msg_prop(&self) -> Seq<char> {
        self.msg_prop@
    }

    /// The per-module override filter.
    pub closed spec fn filter(&self) -> ModuleFilter {
        self.module_levels
    }

    /// The registered properties, in registration order.
    pub closed spec fn props(&self) -> Seq<(String, Property)> {
        self.default_props@
    }

    /// The renderer.
    pub closed spec fn spec_formatter(&self) -> F {
        self.formatter
    }

    /// Well-formed: the override filter is sorted and duplicate-free.
    pub open spec fn wf(&self) -> bool {
        self.filter().wf()
    }

    /// Whether `finalize` has locked the policy in.
    pub open spec fn is_finalized(&self) -> bool {
        self.filter().is_finalized()
    }

    /// The effective threshold for events from `module`.
    pub open spec fn spec_effective(&self, module: Seq<char>) -> LevelFilter {
        self.filter().effective(module, self.spec_max_level(), self.spec_explicit())
    }

    /// Whether an event from `module` at severity `sev` is accepted: the
    /// effective threshold is not `Off` and `sev` is at least as urgent.
    pub open spec fn spec_accepts(&self, module: Seq<char>, sev: Level) -> bool {
        passes(self.spec_effective(module), sev)
    }

    /// The least restrictive severity this logger could ever accept:
    /// `Trace` under explicit mode (an override may ask for anything),
    /// else the global threshold.
    pub open spec fn spec_level_filter(&self) -> LevelFilter {
        if self.spec_explicit() {
            LevelFilter::Trace
        } else {
            self.spec_max_level()
        }
    }

    /// A logger with the given sink and renderer and the defaults: global
    /// threshold `Info`, empty filter, explicit mode off, message under
    /// `msg`, no properties.
    pub fn new(output: O, formatter: F) -> (r: Logger<O, F>)
        ensures
            r.wf(),
            !r.is_finalized(),
            r.spec_max_level() == LevelFilter::Info,
            !r.spec_explicit(),
            !r.spec_ignore_empty(),
            r.spec_msg_prop() == "msg"@,
            r.props().len() == 0,
            r.filter().entries().len() == 0,
            r.spec_formatter() == formatter,
    {
        Logger {
            output: SharedSink::new(output),
            formatter,
            msg_prop: String::from_str("msg"),
            default_props: Vec::new(),
            max_level: LevelFilter::Info,
            module_levels: ModuleFilter::new(),
            explicit: false,
            ignore_empty: false,
        }
    }

    /// The least restrictive severity this logger could ever accept.
    pub fn level_filter(&self) -> (r: LevelFilter)
        ensures
            r == self.spec_level_filter(),
    {
        if self.explicit {
            LevelFilter::Trace
        } else {
            self.max_level
        }
    }

    /// Set the global severity threshold.
    pub fn set_level_filter(&mut self, level: LevelFilter)
        requires
            !old(self).is_finalized(),
        ensures
            final(self).spec_max_level() == level,
            final(self).spec_explicit() == old(self).spec_explicit(),
            final(self).spec_ignore_empty() == old(self).spec_ignore_empty(),
            final(self).spec_msg_prop() == old(self).spec_msg_prop(),
            final(self).props() == old(self).props(),
            final(self).spec_formatter() == old(self).spec_formatter(),
            final(self).filter() == old(self).filter(),
    {
        self.max_level = level;
    }

    /// Set the global severity threshold; chainable.
    pub fn with_level_filter(self, level: LevelFilter) -> (r: Logger<O, F>)
        requires
            !self.is_finalized(),
        ensures
            r.spec_max_level() == level,
            r.spec_explicit() == self.spec_explicit(),
            r.spec_ignore_empty() == self.spec_ignore_empty(),
            r.spec_msg_prop() == self.spec_msg_prop(),
            r.props() == self.props(),
            r.spec_formatter() == self.spec_formatter(),
            r.filter() == self.filter(),
    {
        let mut this = self;
        this.set_level_filter(level);
        this
    }

    /// Register a minimum severity for a module-path prefix. A prefix
    /// registered twice keeps only the later threshold.
    pub fn set_module_level_filter(&mut self, module: String, level: LevelFilter)
        requires
            old(self).wf(),
            !old(self).is_finalized(),
        ensures
            final(self).wf(),
            !final(self).is_finalized(),
            lookup(final(self).filter().entries(), module@) == Some(level),
            forall|k: Seq<char>|
                k != module@ ==> #[trigger] lookup(final(self).filter().entries(), k) == lookup(
                    old(self).filter().entries(),
                    k,
                ),
            final(self).spec_max_level() == old(self).spec_max_level(),
            final(self).spec_explicit() == old(self).spec_explicit(),
            final(self).spec_ignore_empty() == old(self).spec_ignore_empty(),
            final(self).spec_msg_prop() == old(self).spec_msg_prop(),
            final(self).props() == old(self).props(),
            final(self).spec_formatter() == old(self).spec_formatter(),
    {
        self.module_levels.insert(module, level);
    }

    /// Register a minimum severity for a module-path prefix; chainable.
    pub fn with_module_level_filter(self, module: String, level: LevelFilter) -> (r: Logger<O, F>)
        requires
            self.wf(),
            !self.is_finalized(),
        ensures
            r.wf(),
            !r.is_finalized(),
            lookup(r.filter().entries(), module@) == Some(level),
            forall|k: Seq<char>|
                k != module@ ==> #[trigger] lookup(r.filter().entries(), k) == lookup(
                    self.filter().entries(),
                    k,
                ),
            r.spec_max_level() == self.spec_max_level(),
            r.spec_explicit() == self.spec_explicit(),
            r.spec_ignore_empty() == self.spec_ignore_empty(),
            r.spec_msg_prop() == self.spec_msg_prop(),
            r.props() == self.props(),
            r.spec_formatter() == self.spec_formatter(),
    {
        let mut this = self;
        this.set_module_level_filter(module, level);
        this
    }

    /// Register a computed property.
    pub fn add_fn_prop(&mut self, name: String, prop: FnProperty)
        requires
            !old(self).is_finalized(),
        ensures
            final(self).props() == old(self).props().push((name, Property::Function(prop))),
            final(self).spec_max_level() == old(self).spec_max_level(),
            final(self).spec_explicit() == old(self).spec_explicit(),
            final(self).spec_ignore_empty() == old(self).spec_ignore_empty(),
            final(self).spec_msg_prop() == old(self).spec_msg_prop(),
            final(self).spec_formatter() == old(self).spec_formatter(),
            final(self).filter() == old(self).filter(),
    {
        self.default_props.push((name, Property::Function(prop)));
    }

    /// Register a computed property; chainable.
    pub fn with_fn_prop(self, name: String, prop: FnProperty) -> (r: Logger<O, F>)
        requires
            !self.is_finalized(),
        ensures
            r.props() == self.props().push((name, Property::Function(prop))),
            r.spec_max_level() == self.spec_max_level(),
            r.spec_explicit() == self.spec_explicit(),
            r.spec_ignore_empty() == self.spec_ignore_empty(),
            r.spec_msg_prop() == self.spec_msg_prop(),
            r.spec_formatter() == self.spec_formatter(),
            r.filter() == self.filter(),
    {
        let mut this = self;
        this.add_fn_prop(name, prop);
        this
    }

    /// Register a static property.
    pub fn add_prop(&mut self, name: String, prop: StaticProperty)
        requires
            !old(self).is_finalized(),
        ensures
            final(self).props() == old(self).props().push((name, Property::Static(prop))),
            final(self).spec_max_level() == old(self).spec_max_level(),
            final(self).spec_explicit() == old(self).spec_explicit(),
            final(self).spec_ignore_empty() == old(self).spec_ignore_empty(),
            final(self).spec_msg_prop() == old(self).spec_msg_prop(),
            final(self).spec_formatter() == old(self).spec_formatter(),
            final(self).filter() == old(self).filter(),
    {
        self.default_props.push((name, Property::Static(prop)));
    }

    /// Register a static property; chainable.
    pub fn with_prop(self, name: String, prop: StaticProperty) -> (r: Logger<O, F>)
        requires
            !self.is_finalized(),
        ensures
            r.props() == self.props().push((name, Property::Static(prop))),
            r.spec_max_level() == self.spec_max_level(),
            r.spec_explicit() == self.spec_explicit(),
            r.spec_ignore_empty() == self.spec_ignore_empty(),
            r.spec_msg_prop() == self.spec_msg_prop(),
            r.spec_formatter() == self.spec_formatter(),
            r.filter() == self.filter(),
    {
        let mut this = self;
        this.add_prop(name, prop);
        this
    }

    /// Only log from modules with an explicit module level filter; useful
    /// for quieting down dependencies.
    pub fn explicit_logging(&mut self)
        requires
            !old(self).is_finalized(),
        ensures
            final(self).spec_explicit(),
            final(self).spec_max_level() == old(self).spec_max_level(),
            final(self).spec_ignore_empty() == old(self).spec_ignore_empty(),
            final(self).spec_msg_prop() == old(self).spec_msg_prop(),
            final(self).props() == old(self).props(),
            final(self).spec_formatter() == old(self).spec_formatter(),
            final(self).filter() == old(self).filter(),
    {
        self.explicit = true;
    }

    /// Only log from modules with an explicit module level filter;
    /// chainable.
    pub fn with_explicit_logging(self) -> (r: Logger<O, F>)
        requires
            !self.is_finalized(),
        ensures
            r.spec_explicit(),
            r.spec_max_level() == self.spec_max_level(),
            r.spec_ignore_empty() == self.spec_ignore_empty(),
            r.spec_msg_prop() == self.spec_msg_prop(),
            r.props() == self.props(),
            r.spec_formatter() == self.spec_formatter(),
            r.filter() == self.filter(),
    {
        let mut this = self;
        this.explicit_logging();
        this
    }

    /// Suppress null-valued properties entirely when rendering, instead
    /// of serializing them as empty or null fields.
    pub fn set_ignore_empty(&mut self, flag: bool)
        requires
            !old(self).is_finalized(),
        ensures
            final(self).spec_ignore_empty() == flag,
            final(self).spec_max_level() == old(self).spec_max_level(),
            final(self).spec_explicit() == old(self).spec_explicit(),
            final(self).spec_msg_prop() == old(self).spec_msg_prop(),
            final(self).props() == old(self).props(),
            final(self).spec_formatter() == old(self).spec_formatter(),
            final(self).filter() == old(self).filter(),
    {
        self.ignore_empty = flag;
    }

    /// Suppress null-valued properties when rendering; chainable.
    pub fn with_ignore_empty(self, flag: bool) -> (r: Logger<O, F>)
        requires
            !self.is_finalized(),
        ensures
            r.spec_ignore_empty() == flag,
            r.spec_max_level() == self.spec_max_level(),
            r.spec_explicit() == self.spec_explicit(),
            r.spec_msg_prop() == self.spec_msg_prop(),
            r.props() == self.props(),
            r.spec_formatter() == self.spec_formatter(),
            r.filter() == self.filter(),
    {
        let mut this = self;
        this.set_ignore_empty(flag);
        this
    }

    /// Lock the policy in: after this the logger is read-only and may be
    /// queried and handed to a dispatcher. Calling a builder method after
    /// `finalize` is a programming error, which the builder contracts
    /// refuse.
    pub fn finalize(self) -> (r: Logger<O, F>)
        ensures
            r.is_finalized(),
            r.wf() == self.wf(),
            r.filter().entries() == self.filter().entries(),
            r.spec_max_level() == self.spec_max_level(),
            r.spec_explicit() == self.spec_explicit(),
            r.spec_ignore_empty() == self.spec_ignore_empty(),
            r.spec_msg_prop() == self.spec_msg_prop(),
            r.props() == self.props(),
            r.spec_formatter() == self.spec_formatter(),
    {
        let mut this = self;
        this.module_levels.finalize();
        this
    }

    /// Whether an event from `module` at severity `level` passes this
    /// logger's policy.
    pub fn enabled(&self, module: &str, level: Level) -> (r: bool)
        requires
            self.is_finalized(),
        ensures
            r == self.spec_accepts(module@, level),
    {
        let eff = self.module_levels.resolve(module, self.max_level, self.explicit);
        let eff_rank = eff.rank();
        eff_rank != 0 && level.rank() <= eff_rank
    }

    /// All properties resolved against `event`, in registration order.
    fn resolve_props(&self, event: &Event) -> (r: Vec<(String, StaticProperty)>)
        ensures
            props_resolution(self.props(), event.level, pairs_view(r@)),
    {
        let mut out: Vec<(String, StaticProperty)> = Vec::new();
        let mut i: usize = 0;
        while i < self.default_props.len()
            invariant
                i <= self.default_props@.len(),
                out@.len() == i,
                forall|j: int|
                    0 <= j < i ==> (#[trigger] pairs_view(out@)[j]).0 == self.props()[j].0@
                        && resolves_to(self.props()[j].1, event.level, pairs_view(out@)[j].1),
            decreases self.default_props@.len() - i,
        {
            let name = self.default_props[i].0.clone();
            let value = self.default_props[i].1.resolve(event);
            let ghost prev = out@;
            out.push((name, value));
            proof {
                assert forall|j: int|
                    0 <= j < i + 1 implies (#[trigger] pairs_view(out@)[j]).0 == self.props()[j].0@
                    && resolves_to(self.props()[j].1, event.level, pairs_view(out@)[j].1) by {
                    if j < i {
                        assert(out@[j] == prev[j]);
                        assert((pairs_view(prev)[j]).0 == self.props()[j].0@ && resolves_to(
                            self.props()[j].1,
                            event.level,
                            pairs_view(prev)[j].1,
                        ));
                    } else {
                        assert(out@[j] == (name, value));
                    }
                }
            }
            i = i + 1;
        }
        out
    }

    /// The line this logger renders for `event`: the message under the
    /// message property name, with the registered properties resolved in
    /// order and the event's ad-hoc pairs, in the renderer's format.
    pub fn render_line(&self, event: &Event) -> (line: String)
        ensures
            exists|resolved: Seq<(Seq<char>, PropValue)>|
                #[trigger] props_resolution(self.props(), event.level, resolved) && line@
                    == F::spec_render(
                    self.spec_msg_prop(),
                    event.message@,
                    resolved,
                    pairs_view(event.extras@),
                    self.spec_ignore_empty(),
                ),
    {
        let props = self.resolve_props(event);
        let line = self.formatter.render(
            self.msg_prop.as_str(),
            event.message.as_str(),
            &props,
            &event.extras,
            self.ignore_empty,
        );
        proof {
            assert(props_resolution(self.props(), event.level, pairs_view(props@)) && line@
                == F::spec_render(
                self.spec_msg_prop(),
                event.message@,
                pairs_view(props@),
                pairs_view(event.extras@),
                self.spec_ignore_empty(),
            ));
        }
        line
    }

    /// Hand one event to this logger: if its policy accepts the event,
    /// resolve the properties, render, and write the line to the shared
    /// sink under its lock. An event is filtered if and only if the
    /// policy rejects it; a sink failure stays local to this logger.
    pub fn log(&self, event: &Event) -> (r: EmitOutcome)
        requires
            self.is_finalized(),
        ensures
            (r == EmitOutcome::Filtered) <==> !self.spec_accepts(event.module@, event.level),
    {
        if self.enabled(event.module.as_str(), event.level) {
            let line = self.render_line(event);
            if self.output.write_line(line.as_str()) {
                EmitOutcome::Written
            } else {
                EmitOutcome::WriteFailed
            }
        } else {
            EmitOutcome::Filtered
        }
    }

    /// Flush the shared sink.
    pub fn flush(&self) -> bool {
        self.output.flush()
    }
}

impl<O: TacitOutput, F: TacitFormatter> core::default::Default for Logger<O, F> {
    /// The default logger: default sink and renderer, plus the two
    /// default computed properties `timeStamp` and `level`.
    fn default() -> (r: Logger<O, F>)
        ensures
            r.wf(),
            !r.is_finalized(),
            r.spec_max_level() == LevelFilter::Info,
            !r.spec_explicit(),
            !r.spec_ignore_empty(),
            r.spec_msg_prop() == "msg"@,
            r.filter().entries().len() == 0,
            r.props().len() == 2,
            r.props()[0].0@ == "timeStamp"@,
            r.props()[0].1 == Property::Function(FnProperty::Timestamp),
            r.props()[1].0@ == "level"@,
            r.props()[1].1 == Property::Function(FnProperty::SeverityLabel),
    {
        let mut logger = Logger::<O, F>::new(O::default(), F::default());
        logger.add_fn_prop(String::from_str("timeStamp"), FnProperty::Timestamp);
        logger.add_fn_prop(String::from_str("level"), FnProperty::SeverityLabel);
        logger
    }
}

} // verus!
