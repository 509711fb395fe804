use mamut::checker::invariants::{CustomInvariant, Invariant, InvariantChecker, InvariantContext, MaxOperationDuration, ProgramOrderRespected};
use mamut::history::{History, RunId};
use mamut::node::ProcessId;
use mamut::operation::{Operation, OperationId, OVC};
use serde_json::Value;

fn make_op(id: u64, process: u32, ovc: OVC) -> Operation<Value> {
    let mut m = serde_json::Map::new();
    m.insert("id".to_string(), Value::from(id));
    Operation::new(OperationId(id), ProcessId(process), "test", Value::Object(m), ovc)
        .with_completion(Value::Null, ovc.increment())
}

struct AllTestOps;

impl Invariant<Value> for AllTestOps {
    fn name(&self) -> &str {
        "all-test-ops"
    }

    fn holds(&self, ctx: InvariantContext<'_, Value>) -> bool {
        self.check(&ctx).is_ok()
    }

    fn check(&self, ctx: &InvariantContext<'_, Value>) -> Result<(), String> {
        for op in ctx.operations() {
            if op.function != "test" {
                return Err(format!("Operation {:?} is not a test operation", op.id));
            }
        }
        Ok(())
    }
}

#[test]
fn invariant_checker_pass() {
    let mut history = History::new(RunId::new());
    history.push(make_op(1, 1, OVC::new(0)));
    history.push(make_op(2, 1, OVC::new(100)));

    let checker: InvariantChecker<Value> = InvariantChecker::new()
        .with_invariant(ProgramOrderRespected)
        .with_invariant(MaxOperationDuration::new(1000));

    assert!(checker.check(&history).is_pass());
}

#[test]
fn user_invariant_is_consulted() {
    let mut history = History::new(RunId::new());
    history.push(make_op(1, 1, OVC::new(0)));
    history.push(make_op(2, 1, OVC::new(100)));

    let checker: InvariantChecker<Value> = InvariantChecker::new().with_invariant(AllTestOps);
    assert!(checker.check(&history).is_pass());

    let mut bad = History::new(RunId::new());
    bad.push(Operation::new(OperationId(9), ProcessId(1), "other", Value::Null, OVC::new(0)));
    let result = checker.check(&bad);
    assert!(result.is_fail());
}

#[test]
fn max_duration_catches_slow_operations() {
    let mut history = History::new(RunId::new());
    history.push(
        Operation::new(OperationId(1), ProcessId(1), "slow", Value::Null, OVC::new(0))
            .with_completion(Value::Null, OVC::new(5000)),
    );
    let checker: InvariantChecker<Value> = InvariantChecker::new().with_invariant(MaxOperationDuration::new(1000));
    assert!(checker.check(&history).is_fail());
}

#[test]
fn invariant_checker_without_invariants() {
    let history: History<Value> = History::new(RunId::new());
    let checker: InvariantChecker<Value> = InvariantChecker::new();
    assert!(checker.check(&history).is_pass());
}

#[test]
fn test_invariant_context() {
    let mut history = History::new(RunId::new());

    history.push(make_op(1, 1, OVC::new(0)));
    history.push(make_op(2, 2, OVC::new(50)));
    history.push(make_op(3, 1, OVC::new(100)));

    let ctx = InvariantContext::new(&history);

    assert_eq!(ctx.len(), 3);
    assert!(ctx.get_operation(OperationId(1)).is_some());
    assert!(ctx.get_operation(OperationId(99)).is_none());

    let p1_ops = ctx.operations_for_process(ProcessId(1));
    assert_eq!(p1_ops.len(), 2);
    assert_eq!(p1_ops[0].id, OperationId(1));
    assert_eq!(p1_ops[1].id, OperationId(3));

    let p2_ops = ctx.operations_for_process(ProcessId(2));
    assert_eq!(p2_ops.len(), 1);
}

#[test]
fn custom_invariant_closure() {
    let mut history = History::new(RunId::new());
    history.push(make_op(1, 1, OVC::new(0)));
    history.push(make_op(2, 1, OVC::new(100)));

    let all_test_ops = CustomInvariant::new("all-test-ops", |ctx: &InvariantContext<'_, Value>| {
        for op in ctx.operations() {
            if op.function != "test" {
                return Err(format!("Operation {:?} is not a test operation", op.id));
            }
        }
        Ok(())
    })
    .with_description("All operations must be test operations");
    assert_eq!(all_test_ops.name(), "all-test-ops");
    assert_eq!(all_test_ops.description(), "All operations must be test operations");

    let checker: InvariantChecker<Value> = InvariantChecker::new().with_invariant(all_test_ops);
    assert!(checker.check(&history).is_pass());

    let never = CustomInvariant::new("never", |_ctx: &InvariantContext<'_, Value>| Err("broken".to_string()));
    let failing: InvariantChecker<Value> = InvariantChecker::new().with_invariant(never);
    assert!(!failing.check(&history).is_pass());
}

#[test]
fn max_duration_message_names_the_operation() {
    let mut history = History::new(RunId::new());
    history.push(make_op(1, 1, OVC::new(1000)));
    let ctx = InvariantContext::new(&history);
    let r = MaxOperationDuration::new(1).check(&ctx);
    assert_eq!(r, Err("Operation OperationId(1) has OVC timestamp 1001 exceeding expected range".to_string()));
    assert_eq!(ProgramOrderRespected.check(&ctx), Ok(()));
}

#[test]
fn incremental_check_without_invariants_passes() {
    let mut checker: InvariantChecker<Value> = InvariantChecker::new();
    let op = make_op(1, 1, OVC::new(5));
    assert!(checker.check_incremental(&op).is_none());
}

#[test]
fn program_order_reports_out_of_order_process() {
    let mut history = History::new(RunId::new());
    history.push(make_op(1, 1, OVC::new(100)));
    history.push(make_op(2, 1, OVC::new(0)));
    let ctx = InvariantContext::new(&history);
    assert_eq!(
        ProgramOrderRespected.check(&ctx),
        Err("Process ProcessId(1): operation OperationId(1) (OVC 101) should come before OperationId(2) (OVC 1)".to_string())
    );
}

#[test]
fn collect_all_counts_every_failing_invariant() {
    let mut history = History::new(RunId::new());
    history.push(make_op(1, 1, OVC::new(100)));
    history.push(make_op(2, 1, OVC::new(0)));

    let checker: InvariantChecker<Value> = InvariantChecker::new()
        .with_invariant(ProgramOrderRespected)
        .with_invariant(MaxOperationDuration::new(1000))
        .with_invariant(CustomInvariant::new("never", |_ctx: &InvariantContext<'_, Value>| Err("broken".to_string())))
        .with_fail_fast(false);
    let result = checker.check(&history);
    assert!(result.is_fail());
    let ce = result.counterexample.unwrap();
    assert_eq!(ce.description, "2 invariant(s) violated");
    assert_eq!(ce.operations.len(), 2);
}

#[test]
fn fail_fast_names_the_first_violation() {
    let mut history = History::new(RunId::new());
    history.push(make_op(1, 1, OVC::new(0)));
    let checker: InvariantChecker<Value> = InvariantChecker::new()
        .with_invariant(CustomInvariant::new("never", |_ctx: &InvariantContext<'_, Value>| Err("broken".to_string())));
    let result = checker.check(&history);
    assert!(result.is_fail());
    assert_eq!(result.counterexample.unwrap().description, "Invariant 'never' violated: broken");
}
