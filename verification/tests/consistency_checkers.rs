use mamut::checker::causal::{CausalConsistencyChecker, CausalGraph};
use mamut::checker::linearizability::{LinearizabilityChecker, LinearizabilityConfig};
use mamut::checker::model::{ExpectedResult, Model, OperationExtractor};
use mamut::checker::sequential::SequentialConsistencyChecker;
use mamut::history::{History, RunId};
use mamut::node::ProcessId;
use mamut::operation::{Operation, OperationId, OperationPhase, OVC};
use serde_json::Value;
use std::time::Duration;

#[derive(Clone)]
struct RegisterModel;

#[derive(Clone, Debug, PartialEq)]
struct RegisterState(i64);

#[derive(Clone)]
enum RegisterOp {
    Read(i64),
    Write(i64),
}

impl Model for RegisterModel {
    type Op = RegisterOp;
    type State = RegisterState;

    fn init_spec(&self) -> Self::State {
        self.init()
    }

    fn step_spec(&self, state: Self::State, op: Self::Op) -> (Self::State, ExpectedResult) {
        self.step(&state, &op)
    }

    fn can_execute_spec(&self, _state: Self::State, _op: Self::Op) -> bool {
        true
    }

    fn init(&self) -> Self::State {
        RegisterState(0)
    }

    fn step(&self, state: &Self::State, op: &Self::Op) -> (Self::State, ExpectedResult) {
        match op {
            RegisterOp::Read(v) => {
                if *v == state.0 {
                    (state.clone(), ExpectedResult::Success)
                } else {
                    (state.clone(), ExpectedResult::Failure(format!("expected {}, got {}", state.0, v)))
                }
            }
            RegisterOp::Write(v) => (RegisterState(*v), ExpectedResult::Success),
        }
    }

    fn equivalent(&self, s1: &Self::State, s2: &Self::State) -> bool {
        s1 == s2
    }

    fn can_execute(&self, _state: &Self::State, _op: &Self::Op) -> bool {
        true
    }
}

#[derive(Clone)]
struct RegisterExtractor;

impl OperationExtractor<Value> for RegisterExtractor {
    type ModelOp = RegisterOp;

    fn extract_spec(&self, op: Operation<Value>) -> Self::ModelOp {
        self.extract(&op)
    }

    fn validate_spec(&self, op: Operation<Value>, expected: ExpectedResult) -> bool {
        self.validate(&op, &expected)
    }

    fn extract(&self, op: &Operation<Value>) -> Self::ModelOp {
        if op.function == "write" {
            RegisterOp::Write(op.args["value"].as_i64().unwrap_or(0))
        } else if let OperationPhase::Completed { ref result } = op.phase {
            RegisterOp::Read(result.as_i64().unwrap_or(0))
        } else {
            RegisterOp::Read(0)
        }
    }

    fn validate(&self, _op: &Operation<Value>, expected: &ExpectedResult) -> bool {
        matches!(expected, ExpectedResult::Success | ExpectedResult::Any)
    }
}

fn value_arg(value: i64) -> Value {
    let mut m = serde_json::Map::new();
    m.insert("value".to_string(), Value::from(value));
    Value::Object(m)
}

fn make_write_op(id: u64, process: u32, value: i64, ovc: OVC) -> Operation<Value> {
    Operation::new(OperationId(id), ProcessId(process), "write", value_arg(value), ovc)
        .with_completion(Value::Null, ovc.increment())
}

fn make_read_op(id: u64, process: u32, result: i64, ovc: OVC) -> Operation<Value> {
    Operation::new(OperationId(id), ProcessId(process), "read", Value::Object(serde_json::Map::new()), ovc)
        .with_completion(Value::from(result), ovc.increment())
}

#[test]
fn linearizable_sequential_history_passes() {
    let mut history = History::new(RunId::new());
    history.push(make_write_op(1, 1, 1, OVC::new(0)));
    history.push(make_read_op(2, 2, 1, OVC::new(100)));

    let checker = LinearizabilityChecker::new(RegisterModel, RegisterExtractor).with_timeout(Duration::from_secs(5));
    assert!(checker.check(&history).is_pass());
}

#[test]
fn linearizable_concurrent_history_passes() {
    let mut history = History::new(RunId::new());
    history.push(make_write_op(1, 1, 1, OVC::new(0)));
    history.push(make_read_op(2, 2, 1, OVC::new(5)));

    let checker = LinearizabilityChecker::new(RegisterModel, RegisterExtractor).with_timeout(Duration::from_secs(5));
    assert!(checker.check(&history).is_pass());
}

#[test]
fn linearizable_empty_history_passes() {
    let history: History<Value> = History::new(RunId::new());
    let checker = LinearizabilityChecker::new(RegisterModel, RegisterExtractor);
    assert!(checker.check(&history).is_pass());
}

#[test]
fn stale_read_is_not_linearizable() {
    let mut history = History::new(RunId::new());
    history.push(make_write_op(1, 1, 1, OVC::new(0)));
    history.push(make_write_op(2, 1, 2, OVC::new(10)));
    history.push(make_read_op(3, 2, 1, OVC::new(100)));

    let checker = LinearizabilityChecker::new(RegisterModel, RegisterExtractor).with_timeout(Duration::from_secs(5));
    let result = checker.check(&history);
    assert!(result.is_fail());
    assert!(result.counterexample.is_some());
}

#[test]
fn sequential_consistency_simple() {
    let mut history = History::new(RunId::new());
    history.push(make_write_op(1, 1, 42, OVC::new(0)));
    history.push(make_read_op(2, 1, 42, OVC::new(100)));

    let checker = SequentialConsistencyChecker::new(RegisterModel, RegisterExtractor);
    assert!(checker.check(&history).is_pass());
}

#[test]
fn sequential_consistency_multiprocess() {
    let mut history = History::new(RunId::new());
    history.push(make_write_op(1, 1, 1, OVC::new(0)));
    history.push(make_write_op(2, 2, 2, OVC::new(5)));
    history.push(make_read_op(3, 1, 2, OVC::new(100)));

    let checker = SequentialConsistencyChecker::new(RegisterModel, RegisterExtractor);
    assert!(checker.check(&history).is_pass());
}

#[test]
fn sequential_consistency_rejects_impossible_read() {
    let mut history = History::new(RunId::new());
    history.push(make_write_op(1, 1, 1, OVC::new(0)));
    history.push(make_read_op(2, 1, 7, OVC::new(100)));

    let checker = SequentialConsistencyChecker::new(RegisterModel, RegisterExtractor);
    assert!(checker.check(&history).is_fail());
}

fn causal_write(id: u64, process: u32, ovc: OVC) -> Operation<Value> {
    Operation::new(OperationId(id), ProcessId(process), "write", value_arg(id as i64), ovc)
        .with_completion(Value::Null, ovc.increment())
}

fn causal_read(id: u64, process: u32, ovc: OVC) -> Operation<Value> {
    Operation::new(OperationId(id), ProcessId(process), "read", Value::Object(serde_json::Map::new()), ovc)
        .with_completion(Value::from(1), ovc.increment())
}

#[test]
fn causal_consistency_simple() {
    let mut history = History::new(RunId::new());
    history.push(causal_write(1, 1, OVC::new(0)));
    history.push(causal_read(2, 1, OVC::new(100)));

    let checker: CausalConsistencyChecker<Value> = CausalConsistencyChecker::new();
    assert!(checker.check(&history).is_pass());
}

#[test]
fn causal_graph_no_cycle() {
    let mut history: History<Value> = History::new(RunId::new());
    history.push(causal_write(1, 1, OVC::new(0)));
    history.push(causal_write(2, 1, OVC::new(100)));

    let graph = CausalGraph::build(&history);
    assert!(graph.find_cycle().is_none());
    assert!(graph.precedes(OperationId(1), OperationId(2)));
    assert!(!graph.precedes(OperationId(2), OperationId(1)));
}

#[test]
fn causal_empty_history() {
    let history: History<Value> = History::new(RunId::new());
    let checker: CausalConsistencyChecker<Value> = CausalConsistencyChecker::new();
    assert!(checker.check(&history).is_pass());
}

#[test]
fn state_budget_decides_unknown_only_when_too_small() {
    let mut history = History::new(RunId::new());
    history.push(make_write_op(1, 1, 1, OVC::new(0)));
    history.push(make_read_op(2, 2, 1, OVC::new(100)));

    let small = LinearizabilityConfig::new().without_timeout().with_max_states(2);
    let result = LinearizabilityChecker::with_config(RegisterModel, RegisterExtractor, small).check(&history);
    assert!(result.is_unknown());

    let enough = LinearizabilityConfig::new().without_timeout().with_max_states(3);
    let result = LinearizabilityChecker::with_config(RegisterModel, RegisterExtractor, enough).check(&history);
    assert!(result.is_pass());
    assert_eq!(result.stats.states_explored, 3);
}
