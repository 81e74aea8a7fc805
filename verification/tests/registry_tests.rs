use logos::registry::Registry;
use logos::sink::RecordingSink;
use logos::LogError;
use logos::LogLevel;

#[test]
fn initialize_first_wins() {
    let mut registry: Registry<RecordingSink> = Registry::new();
    let first = registry.initialize(LogLevel::Warning, vec![RecordingSink::new()]);
    assert_eq!(first, Ok(()));
    let second = registry.initialize(LogLevel::Debug, vec![
        RecordingSink::new(),
        RecordingSink::new(),
    ]);
    assert_eq!(second, Err(LogError::AlreadyInitialized));
    let manager = registry.current().expect("initialized");
    assert_eq!(manager.level(), LogLevel::Warning);
    assert_eq!(manager.sinks().len(), 1);
}

#[test]
fn absent_before_initialize() {
    let mut registry: Registry<RecordingSink> = Registry::new();
    assert!(registry.current().is_none());
    registry.log("Evt", LogLevel::Emergency, "dropped silently");
    assert!(registry.current().is_none());
    registry
        .initialize(LogLevel::Debug, vec![RecordingSink::new()])
        .expect("first initialization succeeds");
    let manager = registry.current().expect("initialized");
    assert!(manager.sinks()[0].records().is_empty());
}

#[test]
fn fan_out_after_initialize() {
    let mut registry: Registry<RecordingSink> = Registry::new();
    registry
        .initialize(LogLevel::Warning, vec![
            RecordingSink::new(),
            RecordingSink::new(),
        ])
        .expect("first initialization succeeds");
    registry.log("Evt", LogLevel::Debug, "m");
    {
        let manager = registry.current().expect("initialized");
        assert!(manager.sinks()[0].records().is_empty());
        assert!(manager.sinks()[1].records().is_empty());
    }
    registry.log("Evt", LogLevel::Error, "m");
    let manager = registry.current().expect("initialized");
    for sink in manager.sinks() {
        let records = sink.records();
        assert_eq!(records.len(), 1);
        assert_eq!(records[0].event, "Evt");
        assert_eq!(records[0].level, LogLevel::Error);
        assert_eq!(records[0].message, "m");
    }
}
