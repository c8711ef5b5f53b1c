//! Severity filtering: global thresholds, per-module overrides, explicit
//! mode, and the edge cases of prefix matching.

use tacit::Level;
use tacit::LevelFilter;
use tacit::Logger;
use tacit::SimpleConsoleOutput;
use tacit::SimpleFormatter;

type TestLogger = Logger<SimpleConsoleOutput, SimpleFormatter>;

fn bare_logger() -> TestLogger {
    Logger::new(SimpleConsoleOutput::default(), SimpleFormatter::default())
}

#[test]
fn default_threshold_is_info() {
    let logger = bare_logger().finalize();
    assert!(logger.enabled("app", Level::Error));
    assert!(logger.enabled("app", Level::Warn));
    assert!(logger.enabled("app", Level::Info));
    assert!(!logger.enabled("app", Level::Debug));
    assert!(!logger.enabled("app", Level::Trace));
}

#[test]
fn debug_under_info_threshold_is_rejected() {
    // global threshold Info, no overrides, explicit off; a Debug event
    // from app::db does not pass
    let logger = bare_logger().finalize();
    assert!(!logger.enabled("app::db", Level::Debug));
}

#[test]
fn longest_prefix_override_wins() {
    // override {"app::db": Trace}; a Debug event from app::db::pool is
    // accepted through the longest matching prefix app::db
    let logger = bare_logger()
        .with_module_level_filter("app::db".to_string(), LevelFilter::Trace)
        .finalize();
    assert!(logger.enabled("app::db::pool", Level::Debug));
    // outside the override the global threshold Info still governs
    assert!(!logger.enabled("app::web", Level::Debug));
}

#[test]
fn explicit_mode_blocks_unmatched_modules() {
    // explicit mode on, override {"mycrate": Trace}; an Error event from
    // reqwest::blocking is rejected: no override matches and explicit
    // mode blocks the default
    let logger = bare_logger()
        .with_module_level_filter("mycrate".to_string(), LevelFilter::Trace)
        .with_explicit_logging()
        .finalize();
    assert!(!logger.enabled("reqwest::blocking", Level::Error));
    assert!(logger.enabled("mycrate::sub", Level::Trace));
}

#[test]
fn explicit_mode_blocks_every_severity() {
    let logger = bare_logger().with_explicit_logging().finalize();
    for level in [Level::Error, Level::Warn, Level::Info, Level::Debug, Level::Trace] {
        assert!(!logger.enabled("anything", level));
    }
}

#[test]
fn no_override_follows_global_threshold_exactly() {
    let logger = bare_logger().with_level_filter(LevelFilter::Warn).finalize();
    assert!(logger.enabled("m", Level::Error));
    assert!(logger.enabled("m", Level::Warn));
    assert!(!logger.enabled("m", Level::Info));
    assert!(!logger.enabled("m", Level::Debug));
    assert!(!logger.enabled("m", Level::Trace));
}

#[test]
fn more_specific_override_beats_shorter_one() {
    let logger = bare_logger()
        .with_module_level_filter("app".to_string(), LevelFilter::Error)
        .with_module_level_filter("app::db".to_string(), LevelFilter::Trace)
        .finalize();
    assert!(logger.enabled("app::db::conn", Level::Trace));
    assert!(!logger.enabled("app::net", Level::Warn));
    assert!(logger.enabled("app::net", Level::Error));
}

#[test]
fn registration_order_of_overrides_is_irrelevant() {
    let a = bare_logger()
        .with_module_level_filter("app".to_string(), LevelFilter::Error)
        .with_module_level_filter("app::db".to_string(), LevelFilter::Trace)
        .finalize();
    let b = bare_logger()
        .with_module_level_filter("app::db".to_string(), LevelFilter::Trace)
        .with_module_level_filter("app".to_string(), LevelFilter::Error)
        .finalize();
    for module in ["app::db::x", "app::net", "other"] {
        for level in [Level::Error, Level::Warn, Level::Info, Level::Debug, Level::Trace] {
            assert_eq!(a.enabled(module, level), b.enabled(module, level));
        }
    }
}

#[test]
fn reregistered_prefix_keeps_later_threshold() {
    let logger = bare_logger()
        .with_module_level_filter("app".to_string(), LevelFilter::Error)
        .with_module_level_filter("app".to_string(), LevelFilter::Trace)
        .finalize();
    assert!(logger.enabled("app::x", Level::Trace));
}

#[test]
fn equal_length_prefixes_each_match_their_own_module() {
    let logger = bare_logger()
        .with_module_level_filter("aa".to_string(), LevelFilter::Error)
        .with_module_level_filter("ab".to_string(), LevelFilter::Trace)
        .finalize();
    assert!(logger.enabled("ab::x", Level::Trace));
    assert!(!logger.enabled("aa::x", Level::Trace));
    assert!(logger.enabled("aa::x", Level::Error));
}

#[test]
fn empty_prefix_matches_every_module() {
    let logger = bare_logger()
        .with_module_level_filter(String::new(), LevelFilter::Error)
        .finalize();
    assert!(logger.enabled("anything::at::all", Level::Error));
    assert!(!logger.enabled("anything::at::all", Level::Warn));
    assert!(logger.enabled("", Level::Error));
}

#[test]
fn empty_module_path_falls_through_to_global() {
    let logger = bare_logger()
        .with_module_level_filter("app".to_string(), LevelFilter::Trace)
        .finalize();
    // the empty path matches no non-empty prefix
    assert!(logger.enabled("", Level::Info));
    assert!(!logger.enabled("", Level::Debug));
}

#[test]
fn prefix_equal_to_full_module_path_matches() {
    let logger = bare_logger()
        .with_module_level_filter("app::db".to_string(), LevelFilter::Debug)
        .finalize();
    assert!(logger.enabled("app::db", Level::Debug));
    assert!(!logger.enabled("app::d", Level::Debug));
}

#[test]
fn off_global_threshold_drops_everything() {
    let logger = bare_logger().with_level_filter(LevelFilter::Off).finalize();
    assert!(!logger.enabled("m", Level::Error));
}

#[test]
fn off_override_silences_a_module() {
    let logger = bare_logger()
        .with_module_level_filter("noisy".to_string(), LevelFilter::Off)
        .finalize();
    assert!(!logger.enabled("noisy::dep", Level::Error));
    assert!(logger.enabled("app", Level::Error));
}

#[test]
fn resolution_is_repeatable_after_finalize() {
    let logger = bare_logger()
        .with_module_level_filter("app::db".to_string(), LevelFilter::Trace)
        .with_module_level_filter("app".to_string(), LevelFilter::Error)
        .finalize();
    let first: Vec<bool> = ["app::db::x", "app::y", "z"]
        .iter()
        .map(|m| logger.enabled(m, Level::Debug))
        .collect();
    for _round in 0..10 {
        let again: Vec<bool> = ["app::db::x", "app::y", "z"]
            .iter()
            .map(|m| logger.enabled(m, Level::Debug))
            .collect();
        assert_eq!(first, again);
    }
}

#[test]
fn level_filter_reports_trace_under_explicit_mode() {
    let logger = bare_logger()
        .with_level_filter(LevelFilter::Error)
        .with_explicit_logging();
    assert_eq!(logger.level_filter(), LevelFilter::Trace);
    let plain = bare_logger().with_level_filter(LevelFilter::Error);
    assert_eq!(plain.level_filter(), LevelFilter::Error);
}
