use logos::loggers::LoggerManager;
use logos::loggers::RecordingMessageSink;

#[test]
fn message_only_fan_out() {
    let sinks = vec![RecordingMessageSink::new(), RecordingMessageSink::new()];
    let mut logger = LoggerManager::new(sinks);
    logger.log("hello");
    logger.log("world");
    for sink in logger.sinks() {
        assert_eq!(sink.messages(), &vec!["hello".to_string(), "world".to_string()]);
    }
}

#[test]
fn message_only_no_sinks_is_a_no_op() {
    let mut logger: LoggerManager<RecordingMessageSink> = LoggerManager::new(Vec::new());
    logger.log("nobody listens");
    assert!(logger.sinks().is_empty());
}
