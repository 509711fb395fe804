use mamut::ffi::{FaultInfo, ReportInner, TestState, VerifierErrorCode};

#[test]
fn test_error_code_display() {
    assert_eq!(VerifierErrorCode::Success.to_string(), "OK");
    assert_eq!(VerifierErrorCode::NullPointer.to_string(), "Null pointer");
    assert_eq!(VerifierErrorCode::Internal.to_string(), "Internal error");
}

#[test]
fn error_codes_round_trip_through_numbers() {
    assert_eq!(VerifierErrorCode::Unknown.code(), 255);
    assert_eq!(VerifierErrorCode::from_code(12), VerifierErrorCode::FaultInjected);
    assert_eq!(VerifierErrorCode::from_code(77), VerifierErrorCode::Unknown);
    assert_eq!(VerifierErrorCode::from_code(VerifierErrorCode::Timeout.code()), VerifierErrorCode::Timeout);
    assert!(!FaultInfo::default().active);
}

#[test]
fn test_report_inner_json() {
    let report = ReportInner {
        test_name: "test1".to_string(),
        test_description: Some("A test".to_string()),
        operation_count: 100,
        success_count: 95,
        failure_count: 5,
        duration_ns: 1_000_000_000,
        state: TestState::Completed,
    };

    let json = report.to_json();
    assert!(json.contains("\"test_name\":\"test1\""));
    assert!(json.contains("\"operation_count\":100"));
    assert!(json.contains("\"state\":\"completed\""));
}

#[test]
fn report_json_escapes_texts() {
    let report = ReportInner {
        test_name: "a\"b".to_string(),
        test_description: None,
        operation_count: 1,
        success_count: 1,
        failure_count: 0,
        duration_ns: 0,
        state: TestState::Completed,
    };
    let json = report.to_json();
    assert_eq!(
        json,
        "{\"test_name\":\"a\\\"b\",\"description\":null,\"operation_count\":1,\"success_count\":1,\"failure_count\":0,\"duration_ns\":0,\"state\":\"completed\"}"
    );
    let v: serde_json::Value = serde_json::from_str(&json).unwrap();
    assert_eq!(v["test_name"], serde_json::Value::String("a\"b".to_string()));
    assert_eq!(v["state"], serde_json::Value::String("completed".to_string()));
}

#[test]
fn report_text_shows_milliseconds() {
    let report = ReportInner {
        test_name: "test1".to_string(),
        test_description: Some("A test".to_string()),
        operation_count: 100,
        success_count: 95,
        failure_count: 5,
        duration_ns: 1_234_567,
        state: TestState::Failed,
    };
    assert_eq!(
        report.to_string(),
        "Test Report: test1\nDescription: A test\nOperations: 100 total, 95 success, 5 failed\nDuration: 1.235 ms\nState: Failed\n"
    );
    let quick = ReportInner { test_description: None, duration_ns: 40, state: TestState::Running, ..report };
    assert_eq!(
        quick.to_string(),
        "Test Report: test1\nOperations: 100 total, 95 success, 5 failed\nDuration: 0.000 ms\nState: Running\n"
    );
}
