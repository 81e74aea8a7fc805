use logos::sink::RecordingSink;
use logos::LogLevel;
use logos::LoggerManager;

/// Render one consumed record the way the original buffer sinks did:
/// a sink prefix, the event, the canonical level name and the message,
/// separated by single spaces, written from the start of a 64-byte buffer.
fn render_into(buffer: &mut [u8; 64], prefix: &str, sink: &RecordingSink) {
    for record in sink.records() {
        let name = record
            .level
            .to_name()
            .expect("Log level must implement conversion to string.");
        let line = format!("{}{} {} {}", prefix, record.event, name, record.message);
        for (i, c) in line.as_bytes().iter().enumerate() {
            buffer[i] = *c;
        }
    }
}

#[test]
fn test_log() {
    let mut buffer_1: [u8; 64] = [0; 64];
    let mut buffer_2: [u8; 64] = [0; 64];
    let sinks = vec![RecordingSink::new(), RecordingSink::new()];
    let mut logger = LoggerManager::new(LogLevel::Debug, sinks);
    logger.log("TestEvent", LogLevel::Debug, "test");
    render_into(&mut buffer_1, "Logger 1: ", &logger.sinks()[0]);
    render_into(&mut buffer_2, "Logger 2: ", &logger.sinks()[1]);
    let buffer_1_expected = "Logger 1: TestEvent DEBUG test".as_bytes();
    let buffer_2_expected = "Logger 2: TestEvent DEBUG test".as_bytes();
    for i in 0..buffer_1_expected.len() {
        assert_eq!(buffer_1_expected[i], buffer_1[i]);
        assert_eq!(buffer_2_expected[i], buffer_2[i]);
    }
    for i in buffer_1_expected.len()..buffer_1.len() {
        assert_eq!(0, buffer_1[i]);
        assert_eq!(0, buffer_2[i]);
    }
}

#[test]
fn test_log_level_hiding() {
    let mut buffer_1: [u8; 64] = [0; 64];
    let sinks = vec![RecordingSink::new()];
    let mut logger = LoggerManager::new(LogLevel::Info, sinks);
    logger.log("TestEvent", LogLevel::Debug, "test");
    render_into(&mut buffer_1, "Logger 1: ", &logger.sinks()[0]);
    assert!(buffer_1.iter().all(|&c| c == 0));
}

#[test]
fn test_print() {
    let sinks = vec![RecordingSink::new(), RecordingSink::new()];
    let mut logger = LoggerManager::new(LogLevel::Debug, sinks);
    logger.log("TestEvent", LogLevel::Debug, "test");
    for record in logger.sinks()[0].records() {
        println!(
            "Log Function 1: {} {} {} ",
            record.event,
            record.level.to_name().unwrap(),
            record.message
        );
    }
    for record in logger.sinks()[1].records() {
        println!(
            "Log Function 2: {} {} {} ",
            record.event,
            record.level.to_name().unwrap(),
            record.message
        );
    }
}

#[test]
fn fan_out_delivers_to_every_sink_in_order() {
    let sinks = vec![RecordingSink::new(), RecordingSink::new()];
    let mut logger = LoggerManager::new(LogLevel::Warning, sinks);
    logger.log("Evt", LogLevel::Debug, "m");
    assert!(logger.sinks()[0].records().is_empty());
    assert!(logger.sinks()[1].records().is_empty());
    logger.log("Evt", LogLevel::Error, "m");
    for sink in logger.sinks() {
        let records = sink.records();
        assert_eq!(records.len(), 1);
        assert_eq!(records[0].event, "Evt");
        assert_eq!(records[0].level, LogLevel::Error);
        assert_eq!(records[0].message, "m");
    }
}

#[test]
fn threshold_boundary_is_inclusive() {
    let sinks = vec![RecordingSink::new()];
    let mut logger = LoggerManager::new(LogLevel::Warning, sinks);
    logger.log("Evt", LogLevel::Warning, "at threshold");
    assert_eq!(logger.sinks()[0].records().len(), 1);
    logger.log("Evt", LogLevel::Notice, "below threshold");
    assert_eq!(logger.sinks()[0].records().len(), 1);
}

#[test]
fn silent_threshold_accepts_nothing() {
    let sinks = vec![RecordingSink::new()];
    let mut logger = LoggerManager::new(LogLevel::Silent, sinks);
    for level in [
        LogLevel::Debug,
        LogLevel::Warning,
        LogLevel::Emergency,
    ] {
        logger.log("Evt", level, "m");
    }
    assert!(logger.sinks()[0].records().is_empty());
    logger.log("Evt", LogLevel::Silent, "m");
    assert_eq!(logger.sinks()[0].records().len(), 1);
}
