//! One log call's payload: severity, originating module path, formatted
//! message, and optional ad-hoc key/value pairs from the call site.

use vstd::prelude::*;

use crate::level::Level;
use crate::properties::StaticProperty;

verus! {

/// Immutable view of one log call. Created once per call, read by every
/// logger that processes it, and dropped afterwards.
pub struct Event {
    /// Severity the call site tagged the event with.
    pub level: Level,
    /// Dot/colon-delimited module path the event originates from.
    pub module: String,
    /// The already-formatted message.
    pub message: String,
    /// Ad-hoc key/value pairs supplied by the call site, in call order.
    pub extras: Vec<(String, StaticProperty)>,
}

impl Event {
    /// An event with no ad-hoc pairs.
    pub fn new(level: Level, module: String, message: String) -> (r: Event)
        ensures
            r.level == level,
            r.module@ == module@,
            r.message@ == message@,
            r.extras@.len() == 0,
    {
        Event { level, module, message, extras: Vec::new() }
    }

    /// The same event with one more ad-hoc pair appended.
    pub fn with_extra(self, name: String, value: StaticProperty) -> (r: Event)
        ensures
            r.level == self.level,
            r.module@ == self.module@,
            r.message@ == self.message@,
            r.extras@ == self.extras@.push((name, value)),
    {
        let mut this = self;
        this.extras.push((name, value));
        this
    }
}

} // verus!
