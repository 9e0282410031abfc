use coppo::logger::{GlobalLogger, Logger, init_logger};

#[test]
fn test_logger() {
    let logger = Logger::new(false);
    assert!(logger.info("This is an info message").is_some());
    assert!(logger.warn("This is a warning message").is_some());
    let error_line = logger.error("This is an error message");
    assert!(error_line.contains("This is an error message"));
    assert!(logger.success("This is a success message").is_some());
}

#[test]
fn quiet_suppresses_all_but_errors() {
    let quiet = Logger::new(true);
    assert!(quiet.info("info line").is_none());
    assert!(quiet.warn("warn line").is_none());
    assert!(quiet.success("success line").is_none());
    let error_line = quiet.error("error line");
    assert!(error_line.contains("error line"));

    let loud = Logger::new(false);
    assert!(loud.info("info line").is_some());
    assert!(loud.warn("warn line").is_some());
    assert!(loud.success("success line").is_some());
    assert!(loud.error("error line").contains("error line"));
}

#[test]
fn painted_lines_carry_the_message() {
    let logger = Logger::new(false);
    assert!(logger.info("the message").unwrap().contains("the message"));
    assert!(logger.warn("warned").unwrap().contains("warned"));
    assert!(logger.success("made it").unwrap().contains("made it"));
}

#[test]
fn init_logger_first_value_wins() {
    let mut state = GlobalLogger::new();
    assert!(!state.is_quiet());
    init_logger(&mut state, true);
    assert!(state.is_quiet());
    init_logger(&mut state, false);
    assert!(state.is_quiet());

    let mut loud_state = GlobalLogger::new();
    init_logger(&mut loud_state, false);
    assert!(!loud_state.is_quiet());
    init_logger(&mut loud_state, true);
    assert!(!loud_state.is_quiet());
}
