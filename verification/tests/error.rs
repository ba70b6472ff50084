use ratatui_guardian::GuardianError;

#[test]
fn error_messages_name_their_cause() {
    let e = GuardianError::NoData { operation: "compare".to_string() };
    assert_eq!(e.message(), "no data available for compare");
    let e = GuardianError::InvalidConfig { message: "zero budget".to_string() };
    assert_eq!(e.message(), "invalid configuration: zero budget");
    let e = GuardianError::ComparisonFailed { reason: "no widgets".to_string() };
    assert_eq!(e.message(), "comparison failed: no widgets");
}

#[test]
fn io_and_json_error_messages_carry_the_source() {
    let e = GuardianError::Io {
        path: std::path::PathBuf::from("/tmp/guardian.json"),
        source: std::io::Error::new(std::io::ErrorKind::NotFound, "missing"),
    };
    assert_eq!(e.message(), "I/O error on /tmp/guardian.json: missing");
    let source = serde_json::from_str::<serde_json::Value>("{").unwrap_err();
    let expected = format!("JSON error (load): {}", source);
    let e = GuardianError::Json { context: "load".to_string(), source };
    assert_eq!(e.message(), expected);
}
