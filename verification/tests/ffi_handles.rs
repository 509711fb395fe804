use mamut::ffi::{ExecutionMode, FaultTarget, FaultType, OperationStatus, OperationType, TestState, VerifierErrorCode};
use mamut::handles::{ExecOutcome, TestInner, VerifierInner};

#[test]
fn test_verifier_inner_creation() {
    let mut verifier = VerifierInner::new();
    assert!(!verifier.is_shutdown());
    assert_eq!(verifier.allocate_test_id(), 1);
    assert_eq!(verifier.allocate_test_id(), 2);
}

#[test]
fn verifier_with_config_and_registration() {
    assert_eq!(VerifierInner::with_config("").err(), Some("Config path cannot be empty".to_string()));
    let verifier = VerifierInner::with_config("mamut.toml").unwrap();
    let config = verifier.config().unwrap();
    assert_eq!(config.log_level, "info");
    assert_eq!(config.max_concurrent_tests, 4);
    assert_eq!(config.default_timeout_ms, 60000);

    let mut v = VerifierInner::new();
    assert!(v.config().is_none());
    v.register_test(3);
    v.register_test(4);
    v.register_test(3);
    v.unregister_test(3);
    v.unregister_test(9);
    assert!(!v.is_shutdown());
}

fn test(max_operations: u64, faults: bool) -> TestInner {
    TestInner::new(7, "t".to_string(), Some("d".to_string()), max_operations, 0, 42, ExecutionMode::Sequential, false, false, faults)
}

#[test]
fn add_operations_only_during_setup() {
    let mut t = test(0, false);
    assert_eq!(t.add_operation(OperationType::Write, vec![1], vec![2], String::new()), 1);
    assert_eq!(t.add_operation(OperationType::Read, vec![1], vec![], String::new()), 2);
    assert_eq!(t.generate_operations(2, "schema"), Ok(()));
    assert_eq!(t.operation_count(), 4);
    assert_eq!(t.operation(2).id, 3);
    assert_eq!(t.operation(3).key, vec![0u8; 8]);
    assert_eq!(t.start_run(), Ok(4));
    assert_eq!(t.state(), TestState::Running);
    assert_eq!(t.add_operation(OperationType::Read, vec![], vec![], String::new()), -1);
    assert_eq!(t.generate_operations(1, "").err(), Some("Test is not in setup state".to_string()));
    assert_eq!(t.start_run(), Err(VerifierErrorCode::InvalidState));
}

#[test]
fn run_is_cut_to_the_operation_limit() {
    let mut t = test(2, false);
    t.generate_operations(5, "").unwrap();
    assert_eq!(t.start_run(), Ok(2));
    let mut u = test(9, false);
    u.generate_operations(3, "").unwrap();
    assert_eq!(u.start_run(), Ok(3));
}

#[test]
fn run_records_outcomes_and_report_counts() {
    let mut t = test(0, false);
    t.generate_operations(4, "").unwrap();
    t.start_run().unwrap();
    assert_eq!(t.interrupt(false, false), None);
    t.record_skipped(1);
    t.record_outcome(2, ExecOutcome::Returned {
        code: VerifierErrorCode::Success,
        status: OperationStatus::Success,
        value: vec![9],
        error_message: None,
        duration_ns: 5,
    });
    t.record_outcome(3, ExecOutcome::Returned {
        code: VerifierErrorCode::Timeout,
        status: OperationStatus::Success,
        value: vec![9],
        error_message: None,
        duration_ns: 6,
    });
    t.record_outcome(4, ExecOutcome::NoExecutor);
    t.finish_run();
    assert_eq!(t.state(), TestState::Completed);

    let results = t.results();
    assert_eq!(results[0].status, OperationStatus::Skipped);
    assert_eq!(results[1].value, vec![9]);
    assert_eq!(results[2].status, OperationStatus::Failure);
    assert_eq!(results[2].error_message.as_deref(), Some("Executor returned error: Timeout"));
    assert_eq!(results[3].error_message.as_deref(), Some("No executor registered"));

    let report = t.finalize(1_000).unwrap();
    assert_eq!(report.operation_count, 4);
    assert_eq!(report.success_count, 1);
    assert_eq!(report.failure_count, 1);
    assert_eq!(report.duration_ns, 1_000);
    assert_eq!(report.state, TestState::Completed);
    assert_eq!(report.test_description.as_deref(), Some("d"));
}

#[test]
fn cancellation_wins_over_timeout() {
    let mut t = test(0, false);
    t.start_run().unwrap();
    assert_eq!(t.interrupt(true, true), Some(VerifierErrorCode::Cancelled));
    assert_eq!(t.state(), TestState::Cancelled);
    let mut u = test(0, false);
    u.start_run().unwrap();
    assert_eq!(u.interrupt(false, true), Some(VerifierErrorCode::Timeout));
    assert_eq!(u.state(), TestState::Failed);
}

#[test]
fn faults_are_injected_and_cleared_by_id() {
    let mut off = test(0, false);
    assert!(off.inject_fault(FaultType::Crash, FaultTarget::All, 10, 100).is_none());

    let mut t = test(0, true);
    let a = t.inject_fault(FaultType::Crash, FaultTarget::All, 10, 100).unwrap();
    assert_eq!(a.id, 1);
    assert_eq!(a.clear_at_ms, 110);
    assert!(a.active);
    let b = t.inject_fault(FaultType::Crash, FaultTarget::All, 0, 100).unwrap();
    assert_eq!(b.id, 2);
    assert_eq!(b.clear_at_ms, 0);
    assert_eq!(t.active_fault_ids(), vec![1, 2]);

    let cleared = t.clear_fault(1).unwrap();
    assert_eq!(cleared.id, 1);
    assert!(!cleared.active);
    assert_eq!(t.active_fault_ids(), vec![2]);
    assert_eq!(t.clear_fault(1), Err(VerifierErrorCode::InvalidHandle));
}

#[test]
fn placeholder_checks_pass() {
    let t = test(0, false);
    let lin = t.check_linearizability().unwrap();
    assert!(lin.passed);
    assert_eq!(lin.message, "Linearizability check passed (placeholder)");
    assert_eq!(t.check_serializability().unwrap().message, "Serializability check passed (placeholder)");
    assert_eq!(t.check_invariant("x", "y > 0").unwrap().message, "Invariant 'x' check passed (placeholder)");
}
