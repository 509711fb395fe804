use mamut::checker::model::ExpectedResult;
use mamut::checker::result::{CheckResult, CheckStats, CheckStatus, Counterexample, CounterexampleOp, ViolationType};
use mamut::operation::OperationId;
use std::time::Duration;

#[test]
fn test_expected_result() {
    assert!(ExpectedResult::Success.is_ok());
    assert!(ExpectedResult::Any.is_ok());
    assert!(!ExpectedResult::Failure("error".into()).is_ok());

    assert!(ExpectedResult::Failure("error".into()).is_err());
    assert!(!ExpectedResult::Success.is_err());
}

#[test]
fn test_check_result_pass() {
    let result = CheckResult::pass();
    assert!(result.is_pass());
    assert!(!result.is_fail());
    assert!(!result.is_unknown());
}

#[test]
fn test_check_result_fail() {
    let ce = Counterexample::new("test violation".into(), ViolationType::NoLinearization);
    let result = CheckResult::fail(ce);
    assert!(!result.is_pass());
    assert!(result.is_fail());
    assert!(result.counterexample.is_some());
}

#[test]
fn test_check_result_unknown() {
    let result = CheckResult::unknown("timeout".into());
    assert!(!result.is_pass());
    assert!(!result.is_fail());
    assert!(result.is_unknown());
}

#[test]
fn test_check_stats() {
    let mut stats = CheckStats::new();
    stats.record_state();
    stats.record_state();
    stats.record_linearization();
    stats.record_backtrack();
    stats.update_depth(5);

    assert_eq!(stats.states_explored, 2);
    assert_eq!(stats.linearizations_tried, 1);
    assert_eq!(stats.backtracks, 1);
    assert_eq!(stats.max_depth, 5);
}

#[test]
fn check_stats_depth_only_grows() {
    let mut stats = CheckStats::new();
    stats.update_depth(7);
    stats.update_depth(3);
    assert_eq!(stats.max_depth, 7);
    let err = CheckResult::error("boom".into());
    assert!(!err.is_pass() && !err.is_fail() && !err.is_unknown());
}

#[test]
fn test_counterexample_display() {
    let ce = Counterexample::new("Test violation".into(), ViolationType::StaleRead).with_operation(
        CounterexampleOp::new(OperationId(1), "Read(x)".into()).with_expected("42").with_actual("0").with_interval(10, 20),
    );

    let display = ce.to_string();
    assert!(display.contains("Test violation"));
    assert!(display.contains("StaleRead"));
    assert!(display.contains("Read(x)"));
    assert_eq!(
        display,
        "Counterexample: Test violation\n  Type: StaleRead\n  Operations:\n    - OperationId(1): Read(x) (expected: 42, actual: 0) [10-20]\n"
    );
}

#[test]
fn check_status_display() {
    assert_eq!(CheckStatus::Pass.to_string(), "PASS");
    assert_eq!(CheckStatus::Unknown("timeout".into()).to_string(), "UNKNOWN: timeout");
    assert_eq!(CounterexampleOp::new(OperationId(2), "W".into()).to_string(), "OperationId(2): W");
}

#[test]
fn with_operations_appends_after_existing_ones() {
    let ce = Counterexample::new("d".into(), ViolationType::Unknown)
        .with_operation(CounterexampleOp::new(OperationId(1), "a".into()))
        .with_operations(vec![CounterexampleOp::new(OperationId(2), "b".into())]);
    let ids: Vec<OperationId> = ce.operations.iter().map(|o| o.id).collect();
    assert_eq!(ids, vec![OperationId(1), OperationId(2)]);
}

#[test]
fn default_timeouts() {
    assert_eq!(mamut::checker::invariants::InvariantCheckerConfig::new().timeout, Some(Duration::from_secs(30)));
    assert_eq!(mamut::checker::causal::CausalConsistencyConfig::new().timeout, Some(Duration::from_secs(30)));
    assert_eq!(mamut::checker::sequential::SequentialConsistencyConfig::new().timeout, Some(Duration::from_secs(60)));
    assert_eq!(mamut::checker::linearizability::LinearizabilityConfig::new().timeout, Some(Duration::from_secs(30)));
    assert_eq!(mamut::checker::tlaplus::runner::TlcRunner::new("tla2tools.jar").timeout, Duration::from_secs(300));
}
