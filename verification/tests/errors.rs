use iron_spider::errors::EngineError;
use std::io::{Error, ErrorKind};
use std::time::Duration;

#[test]
fn test_error_display() {
    let error = EngineError::spider_error("test_spider", "parsing failed");
    assert_eq!(
        error.to_string(),
        "Spider 'test_spider' error: parsing failed"
    );

    let timeout_error = EngineError::timeout_error("download", Duration::from_secs(30));
    assert_eq!(
        timeout_error.to_string(),
        "Operation 'download' timed out after 30s"
    );
}

#[test]
fn test_error_conversion() {
    let io_error = Error::new(ErrorKind::NotFound, "file not found");
    let engine_error: EngineError = io_error.into();

    match engine_error {
        EngineError::IoError(_) => (),
        _ => panic!("Expected IoError"),
    }
}

#[test]
fn test_helper_methods() {
    let error = EngineError::initialization_error("failed to start");
    match error {
        EngineError::InitializationError(msg) => assert_eq!(msg, "failed to start"),
        _ => panic!("Expected InitializationError"),
    }
}

#[test]
fn error_messages_of_every_plain_kind() {
    assert_eq!(
        EngineError::initialization_error("x").to_string(),
        "Engine initialization failed: x"
    );
    assert_eq!(EngineError::scheduler_error("q").to_string(), "Scheduler error: q");
    assert_eq!(
        EngineError::pipeline_error("p", "bad").to_string(),
        "Pipeline 'p' error: bad"
    );
    assert_eq!(EngineError::downloader_error("d").to_string(), "Downloader error: d");
    assert_eq!(EngineError::configuration_error("c").to_string(), "Configuration error: c");
    assert_eq!(EngineError::thread_error("t").to_string(), "Thread error: t");
    assert_eq!(EngineError::channel_error("ch").to_string(), "Channel communication error: ch");
    assert_eq!(EngineError::shutdown_error("s").to_string(), "Engine shutdown error: s");
    assert_eq!(EngineError::serialization_error("j").to_string(), "Serialization error: j");
}

#[test]
fn error_message_of_wrapped_io_error_starts_with_its_kind() {
    let e: EngineError = Error::new(ErrorKind::Other, "disk full").into();
    assert_eq!(e.to_string(), "IO error: disk full");
}

#[test]
fn timeout_message_uses_duration_debug_text() {
    let e = EngineError::timeout_error("parse", Duration::from_millis(1500));
    assert_eq!(e.to_string(), "Operation 'parse' timed out after 1.5s");
}
