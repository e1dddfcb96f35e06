use boot_services_allocator::logger::{
    AdvancedLogger, LogSink, _log, DEBUG_ERROR, DEBUG_INFO, DEBUG_INIT, DEBUG_VERBOSE, DEBUG_WARN,
};

#[test]
fn init_should_initialize_logger() {
    let mut logger = AdvancedLogger::new();
    logger.init(Some(LogSink::new()));
    assert!(logger.protocol.is_some());
    assert_eq!(logger.level, DEBUG_INFO);
}

#[test]
fn debug_macro_should_log_things() {
    let mut logger = AdvancedLogger::new();
    logger.init(Some(LogSink::new()));

    _log(&mut logger, DEBUG_INIT, format!("{}\n", "This is a DEBUG_INIT test."));
    _log(&mut logger, DEBUG_WARN, format!("This is a {:} test.\n", "DEBUG_WARN"));
    _log(&mut logger, DEBUG_INFO, format!("This {:} a {:} test.\n", "is", "DEBUG_INFO"));
    _log(&mut logger, DEBUG_VERBOSE, format!("This {:} {:} {:} test.\n", "is", "a", "DEBUG_VERBOSE"));
    _log(&mut logger, DEBUG_ERROR, format!("{:}", "This is a DEBUG_ERROR test.\n"));

    let sink = logger.protocol.as_ref().unwrap();
    assert_eq!(sink.written.len(), 5);
    assert_eq!(sink.written[0].level, DEBUG_INIT);
    assert_eq!(sink.written[0].message, "This is a DEBUG_INIT test.\n");
    assert_eq!(sink.written[1].level, DEBUG_WARN);
    assert_eq!(sink.written[1].message, "This is a DEBUG_WARN test.\n");
    assert_eq!(sink.written[2].level, DEBUG_INFO);
    assert_eq!(sink.written[2].message, "This is a DEBUG_INFO test.\n");
    assert_eq!(sink.written[3].level, DEBUG_VERBOSE);
    assert_eq!(sink.written[3].message, "This is a DEBUG_VERBOSE test.\n");
    assert_eq!(sink.written[4].level, DEBUG_ERROR);
    assert_eq!(sink.written[4].message, "This is a DEBUG_ERROR test.\n");
    assert_eq!(logger.level, DEBUG_ERROR);
}

#[test]
fn output_is_discarded_until_initialized() {
    let mut logger = AdvancedLogger::new();
    _log(&mut logger, DEBUG_WARN, format!("dropped"));
    assert!(logger.protocol.is_none());
    assert_eq!(logger.level, DEBUG_WARN);

    logger.init(Some(LogSink::new()));
    _log(&mut logger, DEBUG_INFO, format!("kept"));
    let sink = logger.protocol.as_ref().unwrap();
    assert_eq!(sink.entry_count(), 1);
    assert_eq!(sink.written[0].message, "kept");
}
