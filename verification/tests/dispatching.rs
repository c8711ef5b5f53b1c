//! The dispatcher: the cached severity gate, fan-out to accepting
//! loggers, and one-shot installation.

use tacit::EmitOutcome;
use tacit::Event;
use tacit::InstallState;
use tacit::Level;
use tacit::LevelFilter;
use tacit::Logger;
use tacit::SimpleConsoleOutput;
use tacit::SimpleFormatter;
use tacit::TacitLogger;

fn bare_logger() -> Logger<SimpleConsoleOutput, SimpleFormatter> {
    Logger::new(SimpleConsoleOutput::default(), SimpleFormatter::default())
}

#[test]
fn empty_dispatcher_accepts_nothing() {
    let dispatcher: TacitLogger<SimpleConsoleOutput, SimpleFormatter> = tacit::new();
    assert_eq!(dispatcher.max_level(), LevelFilter::Off);
    assert!(!dispatcher.enabled(Level::Error));
    let event = Event::new(Level::Error, "app".to_string(), "m".to_string());
    assert_eq!(dispatcher.dispatch(&event), 0);
}

#[test]
fn gate_is_the_least_restrictive_logger_maximum() {
    // two loggers, one at Error and one at Trace: the cached gate is Trace
    let dispatcher = tacit::new()
        .with_logger(bare_logger().with_level_filter(LevelFilter::Error))
        .with_logger(bare_logger().with_level_filter(LevelFilter::Trace));
    assert_eq!(dispatcher.max_level(), LevelFilter::Trace);
    assert!(dispatcher.enabled(Level::Trace));
}

#[test]
fn info_event_reaches_only_the_permissive_logger() {
    // an Info event passes the Trace logger but not the Error logger
    let strict = bare_logger().with_level_filter(LevelFilter::Error).finalize();
    let lax = bare_logger().with_level_filter(LevelFilter::Trace).finalize();
    assert!(!strict.enabled("app", Level::Info));
    assert!(lax.enabled("app", Level::Info));

    let dispatcher = tacit::new()
        .with_logger(bare_logger().with_level_filter(LevelFilter::Error))
        .with_logger(bare_logger().with_level_filter(LevelFilter::Trace));
    let event = Event::new(Level::Info, "app".to_string(), "m".to_string());
    assert_eq!(dispatcher.dispatch(&event), 1);
}

#[test]
fn gate_short_circuits_below_every_logger() {
    let dispatcher = tacit::new().with_logger(bare_logger().with_level_filter(LevelFilter::Warn));
    let event = Event::new(Level::Debug, "app".to_string(), "m".to_string());
    assert!(!dispatcher.enabled(Level::Debug));
    assert_eq!(dispatcher.dispatch(&event), 0);
}

#[test]
fn explicit_logger_raises_the_gate_to_trace() {
    let dispatcher = tacit::new().with_logger(
        bare_logger().with_level_filter(LevelFilter::Error).with_explicit_logging(),
    );
    assert_eq!(dispatcher.max_level(), LevelFilter::Trace);
}

#[test]
fn accepted_event_is_written_to_the_sink() {
    let logger = bare_logger().finalize();
    let event = Event::new(Level::Info, "app".to_string(), "written by a test".to_string());
    assert_eq!(logger.log(&event), EmitOutcome::Written);
    let rejected = Event::new(Level::Trace, "app".to_string(), "m".to_string());
    assert_eq!(logger.log(&rejected), EmitOutcome::Filtered);
}

#[test]
fn installation_is_one_shot() {
    let mut state = InstallState::new();
    assert!(!state.installed());

    let first: TacitLogger<SimpleConsoleOutput, SimpleFormatter> =
        tacit::new().with_logger(bare_logger());
    let installed = first.log(&mut state);
    assert!(installed.is_ok());
    assert!(state.installed());

    let second: TacitLogger<SimpleConsoleOutput, SimpleFormatter> =
        tacit::new().with_logger(bare_logger());
    let refused = second.log(&mut state);
    assert!(refused.is_err());
    assert!(state.installed());
}

#[test]
fn dispatch_counts_each_accepting_logger() {
    let dispatcher = tacit::new()
        .with_logger(bare_logger().with_level_filter(LevelFilter::Trace))
        .with_logger(bare_logger().with_level_filter(LevelFilter::Debug))
        .with_logger(bare_logger().with_level_filter(LevelFilter::Error));
    let event = Event::new(Level::Debug, "app".to_string(), "m".to_string());
    assert_eq!(dispatcher.dispatch(&event), 2);
}

#[test]
fn module_overrides_apply_per_logger_inside_the_dispatcher() {
    let dispatcher = tacit::new()
        .with_logger(
            bare_logger()
                .with_module_level_filter("app::db".to_string(), LevelFilter::Trace),
        )
        .with_logger(bare_logger().with_level_filter(LevelFilter::Trace));
    let db_event = Event::new(Level::Trace, "app::db::pool".to_string(), "m".to_string());
    assert_eq!(dispatcher.dispatch(&db_event), 2);
    let other_event = Event::new(Level::Trace, "app::web".to_string(), "m".to_string());
    assert_eq!(dispatcher.dispatch(&other_event), 1);
}
