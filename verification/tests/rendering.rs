//! Rendering: the structured-text and object formats, property value
//! conversion, shadowing, and the `ignore_empty` mode.

use tacit::Event;
use tacit::FnProperty;
use tacit::JsonFormatter;
use tacit::Level;
use tacit::Logger;
use tacit::Property;
use tacit::SimpleConsoleOutput;
use tacit::SimpleFormatter;
use tacit::StaticProperty;
use tacit::TacitFormatter;

fn props(pairs: &[(&str, StaticProperty)]) -> Vec<(String, StaticProperty)> {
    pairs
        .iter()
        .map(|(k, v)| {
            (
                k.to_string(),
                match v {
                    StaticProperty::String(s) => StaticProperty::String(s.clone()),
                    StaticProperty::Number(n) => StaticProperty::Number(*n),
                    StaticProperty::Null => StaticProperty::Null,
                },
            )
        })
        .collect()
}

fn s(text: &str) -> StaticProperty {
    StaticProperty::String(text.to_string())
}

#[test]
fn simple_format_matches_the_canonical_line() {
    let f = SimpleFormatter::default();
    let line = f.render(
        "msg",
        "logging a thing",
        &props(&[
            ("timeStamp", s("2021-03-29T15:16:25.683809406+00:00")),
            ("level", s("INFO")),
        ]),
        &Vec::new(),
        false,
    );
    assert_eq!(
        line,
        "timeStamp=\"2021-03-29T15:16:25.683809406+00:00\" level=\"INFO\" msg=\"logging a thing\""
    );
}

#[test]
fn json_format_matches_the_canonical_line() {
    let f = JsonFormatter::default();
    let line = f.render(
        "msg",
        "logging a thing",
        &props(&[
            ("timeStamp", s("2021-03-29T15:49:16.425441203+00:00")),
            ("level", s("INFO")),
        ]),
        &Vec::new(),
        false,
    );
    assert_eq!(
        line,
        "{\"level\":\"INFO\",\"msg\":\"logging a thing\",\"timeStamp\":\"2021-03-29T15:49:16.425441203+00:00\"}"
    );
}

#[test]
fn simple_format_with_no_properties_is_just_the_message() {
    let f = SimpleFormatter::default();
    let line = f.render("msg", "hi", &Vec::new(), &Vec::new(), false);
    assert_eq!(line, "msg=\"hi\"");
}

#[test]
fn simple_format_renders_numbers_unquoted() {
    let f = SimpleFormatter::default();
    let line = f.render(
        "msg",
        "m",
        &props(&[("answer", StaticProperty::Number(42))]),
        &Vec::new(),
        false,
    );
    assert_eq!(line, "answer=42 msg=\"m\"");
}

#[test]
fn simple_value_renders_each_variant() {
    assert_eq!(s("x").simple_value(), "\"x\"");
    assert_eq!(StaticProperty::Number(0).simple_value(), "0");
    assert_eq!(StaticProperty::Number(1234567890123).simple_value(), "1234567890123");
    assert_eq!(StaticProperty::Number(-7).simple_value(), "-7");
    assert_eq!(StaticProperty::Number(i64::MAX).simple_value(), "9223372036854775807");
    assert_eq!(StaticProperty::Number(i64::MIN).simple_value(), "-9223372036854775808");
    assert_eq!(StaticProperty::Null.simple_value(), "");
}

#[test]
fn simple_format_keeps_null_as_empty_value_without_ignore_empty() {
    let f = SimpleFormatter::default();
    let line = f.render(
        "msg",
        "m",
        &props(&[("gone", StaticProperty::Null)]),
        &Vec::new(),
        false,
    );
    assert_eq!(line, "gone= msg=\"m\"");
}

#[test]
fn simple_format_ignore_empty_drops_null_properties() {
    let f = SimpleFormatter::default();
    let line = f.render(
        "msg",
        "m",
        &props(&[("gone", StaticProperty::Null), ("kept", s("v"))]),
        &Vec::new(),
        true,
    );
    assert_eq!(line, "kept=\"v\" msg=\"m\"");
}

#[test]
fn shadowed_property_appears_twice_in_simple_format() {
    // registering ("level", A) then ("level", B): structured text emits
    // both, in that order
    let f = SimpleFormatter::default();
    let line = f.render(
        "msg",
        "m",
        &props(&[("level", s("a")), ("level", s("b"))]),
        &Vec::new(),
        false,
    );
    assert_eq!(line, "level=\"a\" level=\"b\" msg=\"m\"");
}

#[test]
fn shadowed_property_appears_once_in_json_format() {
    // registering ("level", A) then ("level", B): the object holds a
    // single "level" bound to B
    let f = JsonFormatter::default();
    let line = f.render(
        "msg",
        "m",
        &props(&[("level", s("a")), ("level", s("b"))]),
        &Vec::new(),
        false,
    );
    assert_eq!(line, "{\"level\":\"b\",\"msg\":\"m\"}");
}

#[test]
fn json_ignore_empty_omits_null_extra_property_entirely() {
    // {msg: "hi", timeStamp: "T", level: "INFO"} with ignore_empty and a
    // null-valued extra: the extra's key is absent from the output
    let f = JsonFormatter::default();
    let line = f.render(
        "msg",
        "hi",
        &props(&[("timeStamp", s("T")), ("level", s("INFO"))]),
        &props(&[("extra", StaticProperty::Null)]),
        true,
    );
    assert_eq!(line, "{\"level\":\"INFO\",\"msg\":\"hi\",\"timeStamp\":\"T\"}");
}

#[test]
fn json_without_ignore_empty_serializes_null_properties() {
    let f = JsonFormatter::default();
    let line = f.render(
        "msg",
        "m",
        &props(&[("maybe", StaticProperty::Null)]),
        &Vec::new(),
        false,
    );
    assert_eq!(line, "{\"maybe\":null,\"msg\":\"m\"}");
}

#[test]
fn json_event_extras_are_merged_last_and_shadow_defaults() {
    let f = JsonFormatter::default();
    let line = f.render(
        "msg",
        "m",
        &props(&[("level", s("INFO"))]),
        &props(&[("level", s("forced")), ("request", StaticProperty::Number(9))]),
        false,
    );
    assert_eq!(line, "{\"level\":\"forced\",\"msg\":\"m\",\"request\":9}");
}

#[test]
fn json_renders_numbers_as_numbers() {
    let f = JsonFormatter::default();
    let line = f.render(
        "msg",
        "m",
        &props(&[("n", StaticProperty::Number(-12))]),
        &Vec::new(),
        false,
    );
    assert_eq!(line, "{\"msg\":\"m\",\"n\":-12}");
}

#[test]
fn json_value_converts_each_variant() {
    assert_eq!(s("x").json_value(), serde_json::Value::String("x".to_string()));
    assert_eq!(
        StaticProperty::Number(-3).json_value(),
        serde_json::Value::Number(serde_json::Number::from(-3i64))
    );
    assert_eq!(StaticProperty::Null.json_value(), serde_json::Value::Null);
}

#[test]
fn property_resolution_uses_the_event() {
    let event = Event::new(Level::Warn, "app".to_string(), "m".to_string());
    let label = Property::Function(FnProperty::SeverityLabel).simple_value(&event);
    assert_eq!(label, "\"WARN\"");
    let fixed = Property::Static(StaticProperty::Number(5)).simple_value(&event);
    assert_eq!(fixed, "5");
}

#[test]
fn timestamp_property_resolves_to_a_parsable_timestamp() {
    let event = Event::new(Level::Info, "app".to_string(), "m".to_string());
    let v = Property::Function(FnProperty::Timestamp).json_value(&event);
    match v {
        serde_json::Value::String(ts) => {
            assert!(chrono::DateTime::parse_from_rfc3339(&ts).is_ok());
        }
        other => panic!("timestamp resolved to a non-string value: {:?}", other),
    }
}

#[test]
fn render_line_uses_default_properties_and_custom_ones() {
    let logger: Logger<SimpleConsoleOutput, JsonFormatter> = Logger::default();
    let logger = logger
        .with_prop("app".to_string(), s("demo"))
        .finalize();
    let event = Event::new(Level::Info, "app".to_string(), "hello".to_string());
    let line = logger.render_line(&event);
    let parsed: serde_json::Value = serde_json::from_str(&line).unwrap();
    let object = parsed.as_object().unwrap();
    assert_eq!(object.get("msg").unwrap(), &serde_json::Value::String("hello".to_string()));
    assert_eq!(object.get("level").unwrap(), &serde_json::Value::String("INFO".to_string()));
    assert_eq!(object.get("app").unwrap(), &serde_json::Value::String("demo".to_string()));
    assert!(object.get("timeStamp").unwrap().is_string());
}

#[test]
fn render_line_in_simple_format_ends_with_the_message() {
    let logger = Logger::new(SimpleConsoleOutput::default(), SimpleFormatter::default())
        .with_prop("app".to_string(), s("demo"))
        .finalize();
    let event = Event::new(Level::Error, "app".to_string(), "boom".to_string());
    let line = logger.render_line(&event);
    assert_eq!(line, "app=\"demo\" msg=\"boom\"");
}

#[test]
fn static_property_from_conversions() {
    assert!(matches!(StaticProperty::from("x"), StaticProperty::String(v) if v == "x"));
    assert!(matches!(StaticProperty::from("y".to_string()), StaticProperty::String(v) if v == "y"));
    assert!(matches!(StaticProperty::from(5i64), StaticProperty::Number(5)));
    assert!(matches!(StaticProperty::from(7u32), StaticProperty::Number(7)));
    assert!(matches!(StaticProperty::from(Some(5i64)), StaticProperty::Number(5)));
    assert!(matches!(StaticProperty::from(None::<i64>), StaticProperty::Null));
}

#[test]
fn message_property_name_is_configurable_per_render() {
    let f = JsonFormatter::default();
    let line = f.render("message", "m", &Vec::new(), &Vec::new(), false);
    assert_eq!(line, "{\"message\":\"m\"}");
}

#[test]
fn later_property_can_shadow_the_message_in_json() {
    let f = JsonFormatter::default();
    let line = f.render("msg", "original", &props(&[("msg", s("replaced"))]), &Vec::new(), false);
    assert_eq!(line, "{\"msg\":\"replaced\"}");
}
