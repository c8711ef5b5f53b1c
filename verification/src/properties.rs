//! Properties: named values attached to every rendered event.
//!
//! A property is either a value fixed at registration time or a computed
//! one that is evaluated fresh against each event (a timestamp, the
//! severity label). Log entries are made up of a series of properties.

use vstd::prelude::*;

use crate::event::Event;
use crate::level::Level;
use crate::level::label_spec;

verus! {

/// Mathematical model of a property value: a character sequence, an
/// unbounded integer, or null.
pub enum PropValue {
    Str(Seq<char>),
    Num(int),
    Null,
}

/// A property value: a small closed tagged union of string, 64-bit
/// integer, and null.
#[derive(Debug)]
pub enum StaticProperty {
    String(String),
    Number(i64),
    Null,
}

impl View for StaticProperty {
    type V = PropValue;

    open spec fn view(&self) -> PropValue {
        match self {
            StaticProperty::String(s) => PropValue::Str(s@),
            StaticProperty::Number(n) => PropValue::Num(*n as int),
            StaticProperty::Null => PropValue::Null,
        }
    }
}

impl StaticProperty {
    /// An owned copy carrying the same value.
    pub fn duplicate(&self) -> (r: StaticProperty)
        ensures
            r@ == self@,
    {
        match self {
            StaticProperty::String(s) => StaticProperty::String(s.clone()),
            StaticProperty::Number(n) => StaticProperty::Number(*n),
            StaticProperty::Null => StaticProperty::Null,
        }
    }

    /// Whether this value is null.
    pub fn is_null(&self) -> (r: bool)
        ensures
            r == (self@ is Null),
    {
        matches!(self, StaticProperty::Null)
    }
}

impl core::convert::From<String> for StaticProperty {
    fn from(s: String) -> (r: StaticProperty) {
        StaticProperty::String(s)
    }
}

impl vstd::std_specs::convert::FromSpecImpl<String> for StaticProperty {
    open spec fn obeys_from_spec() -> bool {
        true
    }

    open spec fn from_spec(s: String) -> StaticProperty {
        StaticProperty::String(s)
    }
}

impl<'a> core::convert::From<&'a str> for StaticProperty {
    fn from(s: &'a str) -> (r: StaticProperty) {
        StaticProperty::String(s.to_owned())
    }
}

impl<'a> vstd::std_specs::convert::FromSpecImpl<&'a str> for StaticProperty {
    // an owned String cannot be built in spec code, so nothing is
    // claimed of this conversion
    open spec fn obeys_from_spec() -> bool {
        false
    }

    open spec fn from_spec(s: &'a str) -> StaticProperty {
        StaticProperty::Null
    }
}

impl core::convert::From<i64> for StaticProperty {
    fn from(n: i64) -> (r: StaticProperty) {
        StaticProperty::Number(n)
    }
}

impl vstd::std_specs::convert::FromSpecImpl<i64> for StaticProperty {
    open spec fn obeys_from_spec() -> bool {
        true
    }

    open spec fn from_spec(n: i64) -> StaticProperty {
        StaticProperty::Number(n)
    }
}

impl core::convert::From<u32> for StaticProperty {
    fn from(n: u32) -> (r: StaticProperty) {
        StaticProperty::Number(n as i64)
    }
}

impl vstd::std_specs::convert::FromSpecImpl<u32> for StaticProperty {
    open spec fn obeys_from_spec() -> bool {
        true
    }

    open spec fn from_spec(n: u32) -> StaticProperty {
        StaticProperty::Number(n as i64)
    }
}

impl<T> core::convert::From<Option<T>> for StaticProperty where
    StaticProperty: core::convert::From<T>,
 {
    fn from(input: Option<T>) -> (r: StaticProperty) {
        match input {
            Option::None => StaticProperty::Null,
            Option::Some(v) => StaticProperty::from(v),
        }
    }
}

impl<T> vstd::std_specs::convert::FromSpecImpl<Option<T>> for StaticProperty where
    StaticProperty: core::convert::From<T>,
 {
    open spec fn obeys_from_spec() -> bool {
        <StaticProperty as vstd::std_specs::convert::FromSpec<T>>::obeys_from_spec()
    }

    open spec fn from_spec(input: Option<T>) -> StaticProperty {
        match input {
            Option::None => StaticProperty::Null,
            Option::Some(v) => <StaticProperty as vstd::std_specs::convert::FromSpec<T>>::from_spec(
                v,
            ),
        }
    }
}

/// Relies on `chrono::Utc::now` and `chrono::DateTime::to_rfc3339` to read
/// the wall clock and render it as an RFC 3339 timestamp. The result
/// depends on the clock, so nothing is stated of its value.
#[verifier::external_body]
fn now_rfc3339() -> String {
    chrono::Utc::now().to_rfc3339()
}

/// The computed properties the library offers: evaluated fresh against
/// each event, in the logging thread, without blocking.
#[derive(Clone, Copy, Debug)]
pub enum FnProperty {
    /// The wall-clock time of the call, as an RFC 3339 timestamp.
    Timestamp,
    /// The upper-case label of the event's severity.
    SeverityLabel,
}

/// What a computed property may evaluate to against an event of severity
/// `lvl`: a timestamp is some string (the clock decides which), the
/// severity label is exactly the severity's label.
pub open spec fn fn_resolves_to(p: FnProperty, lvl: Level, v: PropValue) -> bool {
    match p {
        FnProperty::Timestamp => v is Str,
        FnProperty::SeverityLabel => v == PropValue::Str(label_spec(lvl)),
    }
}

impl FnProperty {
    /// Evaluate this computed property against an event.
    pub fn eval(&self, event: &Event) -> (r: StaticProperty)
        ensures
            fn_resolves_to(*self, event.level, r@),
    {
        match self {
            FnProperty::Timestamp => StaticProperty::String(now_rfc3339()),
            FnProperty::SeverityLabel => StaticProperty::String(event.level.label().to_owned()),
        }
    }
}

/// The two kinds of properties a logger can carry: a value fixed at
/// registration time, or a computed one evaluated per event.
pub enum Property {
    /// A value fixed when the property was registered.
    Static(StaticProperty),
    /// A computed value, evaluated fresh against each event.
    Function(FnProperty),
}

/// What a property may resolve to against an event of severity `lvl`.
pub open spec fn resolves_to(p: Property, lvl: Level, v: PropValue) -> bool {
    match p {
        Property::Static(s) => v == s@,
        Property::Function(f) => fn_resolves_to(f, lvl, v),
    }
}

impl Property {
    /// Resolve this property against an event: a static property yields
    /// its fixed value, a computed one is evaluated now.
    pub fn resolve(&self, event: &Event) -> (r: StaticProperty)
        ensures
            resolves_to(*self, event.level, r@),
    {
        match self {
            Property::Static(s) => s.duplicate(),
            Property::Function(f) => f.eval(event),
        }
    }
}

} // verus!
