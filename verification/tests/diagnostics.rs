use lab_runtime::diagnostics::{
    bounded_text, configured_level, drain_target, overflow_delta, parse_level, rotated_file_name,
    rotation_needed, rotation_plan, DiagnosticConfig, DiagnosticConfigError, DiagnosticLevel,
    RecordBuffer, RotationStep, MAX_RECORD_BYTES,
};

#[test]
fn levels_parse_ignoring_ascii_case() {
    assert_eq!(parse_level("debug"), Some(DiagnosticLevel::Debug));
    assert_eq!(parse_level("WaRn"), Some(DiagnosticLevel::Warn));
    assert_eq!(parse_level("TRACE"), Some(DiagnosticLevel::Trace));
    assert_eq!(parse_level("verbose"), None);
    assert_eq!(parse_level("INFO "), None);
    assert_eq!(configured_level(None), (DiagnosticLevel::Info, false));
    assert_eq!(configured_level(Some("error")), (DiagnosticLevel::Error, false));
    assert_eq!(configured_level(Some("loud")), (DiagnosticLevel::Info, true));
}

#[test]
fn production_limits_are_valid_and_bad_limits_are_refused() {
    let config = DiagnosticConfig::production(DiagnosticLevel::Info);
    assert_eq!(config.validate(), Ok(()));
    assert_eq!(config.max_record_bytes, MAX_RECORD_BYTES);
    let mut bad = config;
    bad.max_record_bytes = 15;
    assert_eq!(bad.validate(), Err(DiagnosticConfigError::InvalidBounds));
    let mut bad = config;
    bad.max_file_bytes = 100;
    bad.max_record_bytes = 101;
    assert_eq!(bad.validate(), Err(DiagnosticConfigError::InvalidBounds));
    let mut bad = config;
    bad.queue_records = 0;
    assert!(bad.validate().is_err());
    let mut bad = config;
    bad.retained_file_count = 0;
    assert!(bad.validate().is_err());
    assert_eq!(
        DiagnosticConfigError::InvalidBounds.message(),
        "invalid bounded diagnostic configuration"
    );
}

#[test]
fn records_are_capped_and_marked() {
    let mut record = RecordBuffer::new(32);
    assert_eq!(record.write(b"0123456789"), 10);
    assert_eq!(record.write(b"abcdefghij\n\n"), 12);
    let bytes = record.finish().unwrap();
    assert_eq!(bytes, b"0123456789abcdefg...[truncated]\n".to_vec());
    assert!(bytes.len() <= 32);

    let mut record = RecordBuffer::new(32);
    record.write(b"short");
    assert_eq!(record.finish().unwrap(), b"short\n".to_vec());

    let mut record = RecordBuffer::new(32);
    record.write(b"line\n");
    assert_eq!(record.finish().unwrap(), b"line\n".to_vec());

    let record = RecordBuffer::new(32);
    assert_eq!(record.finish(), None);

    let mut record = RecordBuffer::new(20);
    record.write(b"abcd\n\n\nefg");
    assert_eq!(record.finish().unwrap(), b"abcd...[truncated]\n".to_vec());
}

#[test]
fn rotation_shifts_files_oldest_first() {
    assert_eq!(
        rotation_plan(4),
        vec![
            RotationStep::RemoveRotated(3),
            RotationStep::RenameRotated(2, 3),
            RotationStep::RenameRotated(1, 2),
            RotationStep::RenameActive(1),
        ]
    );
    assert_eq!(
        rotation_plan(2),
        vec![RotationStep::RemoveRotated(1), RotationStep::RenameActive(1)]
    );
    assert_eq!(rotation_plan(1), vec![RotationStep::RemoveActive]);
    assert_eq!(rotated_file_name(3), "lab-runtime.log.3");
    assert!(rotation_needed(500, 13, 512));
    assert!(!rotation_needed(500, 12, 512));
    assert!(!rotation_needed(0, 10_000, 512));
    assert!(rotation_needed(u64::MAX, 1, u64::MAX));
}

#[test]
fn overflow_and_drain_accounting() {
    assert_eq!(overflow_delta(10, 4), Some(6));
    assert_eq!(overflow_delta(4, 4), None);
    assert_eq!(overflow_delta(3, 4), None);
    assert_eq!(drain_target(10, 3), 7);
    assert_eq!(drain_target(2, 3), 0);
    assert_eq!(bounded_text("abcdef", 3), "abc");
    assert_eq!(bounded_text("ab", 3), "ab");
}
