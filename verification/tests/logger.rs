use fled::{Level, Logger};

#[test]
fn levels_up_to_debug_are_enabled() {
    let logger = Logger;
    assert!(logger.enabled(Level::Error));
    assert!(logger.enabled(Level::Warn));
    assert!(logger.enabled(Level::Info));
    assert!(logger.enabled(Level::Debug));
}

#[test]
fn trace_is_not_enabled() {
    assert!(!Logger.enabled(Level::Trace));
}

#[test]
fn each_level_has_its_prefix() {
    assert_eq!(Level::Error.prefix(), "error");
    assert_eq!(Level::Warn.prefix(), "warn");
    assert_eq!(Level::Info.prefix(), "info");
    assert_eq!(Level::Debug.prefix(), "debug");
    assert_eq!(Level::Trace.prefix(), "trace");
}

#[test]
fn a_line_is_prefix_colon_space_message() {
    let logger = Logger;
    assert_eq!(
        logger.log(Level::Warn, "ignoring extra arguments: a b"),
        Some(String::from("warn: ignoring extra arguments: a b"))
    );
    assert_eq!(
        logger.log(Level::Error, "the game save is too small"),
        Some(String::from("error: the game save is too small"))
    );
    assert_eq!(logger.log(Level::Info, "x"), Some(String::from("info: x")));
    assert_eq!(logger.log(Level::Debug, "y"), Some(String::from("debug: y")));
}

#[test]
fn an_empty_message_keeps_the_prefix() {
    assert_eq!(Logger.log(Level::Info, ""), Some(String::from("info: ")));
}

#[test]
fn trace_records_give_no_line() {
    assert_eq!(Logger.log(Level::Trace, "detail"), None);
}
