use mamut::error::OperationError;
use mamut::history::{History, HistoryMetadata, RunId};
use mamut::named::get_named;
use mamut::node::ProcessId;
use mamut::operation::{Operation, OperationId, OperationPhase, OVC};
use serde_json::Value;

fn object(pairs: &[(&str, Value)]) -> Value {
    let mut m = serde_json::Map::new();
    for (k, v) in pairs {
        m.insert(k.to_string(), v.clone());
    }
    Value::Object(m)
}

#[test]
fn test_operation_id_creation() {
    let id = OperationId::new(42);
    assert_eq!(id.inner(), 42);
    assert_eq!(id.0, 42);
}

#[test]
fn test_operation_id_display() {
    let id = OperationId(123);
    assert_eq!(id.to_string(), "OperationId(123)");
}

#[test]
fn test_operation_id_conversion() {
    let id: OperationId = 100u64.into();
    assert_eq!(id.0, 100);

    let value: u64 = id.into();
    assert_eq!(value, 100);
}

#[test]
fn test_ovc_creation() {
    let ovc = OVC::new(100);
    assert_eq!(ovc.timestamp(), 100);
    assert_eq!(ovc.counter(), 0);

    let ovc = OVC::with_counter(100, 5);
    assert_eq!(ovc.timestamp(), 100);
    assert_eq!(ovc.counter(), 5);
}

#[test]
fn test_ovc_increment() {
    let ovc = OVC::with_counter(100, 5);
    let next = ovc.increment();
    assert_eq!(next.timestamp(), 101);
    assert_eq!(next.counter(), 0);
}

#[test]
fn test_ovc_tick() {
    let ovc = OVC::with_counter(100, 5);
    let next = ovc.tick();
    assert_eq!(next.timestamp(), 100);
    assert_eq!(next.counter(), 6);
}

#[test]
fn test_ovc_merge() {
    let a = OVC::with_counter(100, 5);
    let b = OVC::with_counter(100, 3);
    let merged = a.merge(&b);
    assert_eq!(merged.timestamp(), 100);
    assert_eq!(merged.counter(), 5);

    let c = OVC::with_counter(99, 10);
    let merged = a.merge(&c);
    assert_eq!(merged.timestamp(), 100);
    assert_eq!(merged.counter(), 5);

    let d = OVC::with_counter(101, 1);
    let merged = a.merge(&d);
    assert_eq!(merged.timestamp(), 101);
    assert_eq!(merged.counter(), 1);
}

#[test]
fn test_ovc_happens_before() {
    let a = OVC::with_counter(100, 5);
    let b = OVC::with_counter(101, 0);
    assert!(a.happens_before(&b));
    assert!(!b.happens_before(&a));

    let c = OVC::with_counter(100, 6);
    assert!(a.happens_before(&c));
    assert!(!c.happens_before(&a));
}

#[test]
fn test_ovc_concurrent() {
    let a = OVC::with_counter(100, 5);
    let b = OVC::with_counter(100, 5);
    assert!(!a.concurrent_with(&b));
}

#[test]
fn test_ovc_display() {
    let ovc = OVC::with_counter(100, 5);
    assert_eq!(ovc.to_string(), "OVC(100.5)");
}

#[test]
fn test_operation_phase_terminal() {
    assert!(!OperationPhase::Invoked.is_terminal());
    assert!(OperationPhase::completed(Value::Null).is_terminal());
    assert!(OperationPhase::failed("error", true).is_terminal());
    assert!(OperationPhase::timed_out(100).is_terminal());
    assert!(!OperationPhase::info("test").is_terminal());
}

#[test]
fn test_operation_phase_success() {
    assert!(!OperationPhase::Invoked.is_success());
    assert!(OperationPhase::completed(Value::Null).is_success());
    assert!(!OperationPhase::failed("error", true).is_success());
    assert!(!OperationPhase::timed_out(100).is_success());
}

#[test]
fn test_operation_phase_retryable() {
    assert!(!OperationPhase::Invoked.is_retryable());
    assert!(!OperationPhase::completed(Value::Null).is_retryable());
    assert!(OperationPhase::failed("error", true).is_retryable());
    assert!(!OperationPhase::failed("error", false).is_retryable());
    assert!(OperationPhase::timed_out(100).is_retryable());
}

#[test]
fn test_operation_phase_display() {
    assert_eq!(OperationPhase::Invoked.to_string(), "Invoked");
    assert_eq!(OperationPhase::completed(Value::from(42)).to_string(), "Completed(42)");
    assert_eq!(OperationPhase::failed("oops", true).to_string(), "Failed(oops, retryable=true)");
    assert_eq!(OperationPhase::timed_out(100).to_string(), "TimedOut(deadline=100)");
    assert_eq!(OperationPhase::info("hello").to_string(), "Info(hello)");
}

#[test]
fn test_operation_creation() {
    let op = Operation::new(OperationId(1), ProcessId(0), "get", object(&[("key", Value::from("foo"))]), OVC::new(100));

    assert_eq!(op.id, OperationId(1));
    assert_eq!(op.process, ProcessId(0));
    assert_eq!(op.function, "get");
    assert!(!op.is_complete());
    assert!(!op.is_success());
}

#[test]
fn test_operation_with_completion() {
    let op = Operation::new(OperationId(1), ProcessId(0), "get", object(&[("key", Value::from("foo"))]), OVC::new(100));

    let completed = op.with_completion(Value::from("bar"), OVC::new(101));
    assert!(completed.is_complete());
    assert!(completed.is_success());
    assert_eq!(completed.ovc.timestamp(), 101);
}

#[test]
fn test_operation_with_failure() {
    let op = Operation::new(
        OperationId(1),
        ProcessId(0),
        "put",
        object(&[("key", Value::from("foo")), ("value", Value::from("bar"))]),
        OVC::new(100),
    );

    let failed = op.with_failure("network error", true, OVC::new(101));
    assert!(failed.is_complete());
    assert!(!failed.is_success());
    assert!(failed.phase.is_retryable());
}

#[test]
fn test_operation_with_timeout() {
    let op = Operation::new(OperationId(1), ProcessId(0), "cas", object(&[]), OVC::new(100));

    let timed_out = op.with_timeout(150, OVC::new(151));
    assert!(timed_out.is_complete());
    assert!(!timed_out.is_success());
    assert!(timed_out.phase.is_retryable());
}

#[test]
fn test_operation_map_args() {
    let op = Operation::new(OperationId(1), ProcessId(0), "get", "original", OVC::new(100));

    let mapped = op.map_args(|s| s.to_uppercase());
    assert_eq!(mapped.args, "ORIGINAL");
    assert_eq!(mapped.id, OperationId(1));
}

#[test]
fn test_operation_with_phase() {
    let op = Operation::new(OperationId(1), ProcessId(0), "get", object(&[("key", Value::from("foo"))]), OVC::new(100));

    let completed = op.with_phase(OperationPhase::completed(Value::from("bar")), OVC::new(101));
    assert!(completed.is_complete());
    assert_eq!(completed.args, object(&[("key", Value::from("foo"))]));
}

#[test]
fn test_operation_display() {
    let op = Operation::new(OperationId(1), ProcessId(0), "get", "key1", OVC::new(100));

    let display = op.to_string();
    assert!(display.contains("Op["));
    assert!(display.contains("get"));
    assert!(display.contains("key1"));
    assert_eq!(display, "Op[OperationId(1) @ Process(0)] get(\"key1\") -> Invoked");
}

#[test]
fn test_operation_error_display() {
    let op_id = OperationId(42);

    let err = OperationError::timeout(op_id, 5000);
    assert_eq!(err.to_string(), "operation OperationId(42) timed out after 5000ms");

    let err = OperationError::retryable(op_id, "connection reset");
    assert_eq!(err.to_string(), "retryable error in operation OperationId(42): connection reset");

    let err = OperationError::failed(op_id, "invalid key");
    assert_eq!(err.to_string(), "operation OperationId(42) failed: invalid key");
}

#[test]
fn test_operation_error_is_retryable() {
    let op_id = OperationId(1);

    assert!(OperationError::timeout(op_id, 1000).is_retryable());
    assert!(OperationError::retryable(op_id, "temp").is_retryable());
    assert!(!OperationError::failed(op_id, "perm").is_retryable());
    assert!(!OperationError::Cancelled(op_id).is_retryable());
}

#[test]
fn test_run_id_creation() {
    let id1 = RunId::new();
    let id2 = RunId::new();
    assert_ne!(id1, id2);
}

#[test]
fn test_run_id_parse() {
    let original = RunId::new();
    let parsed = RunId::parse(&original.to_string()).unwrap();
    assert_eq!(original, parsed);
}

#[test]
fn test_run_id_display() {
    let id = RunId::new();
    let display = id.to_string();
    assert_eq!(display.len(), 36);
    assert!(display.contains('-'));
}

#[test]
fn run_id_text_of_a_known_value() {
    let id = RunId::from_u128(0x0123_4567_89ab_cdef_0123_4567_89ab_cdef);
    assert_eq!(id.to_string(), "01234567-89ab-cdef-0123-456789abcdef");
    assert_eq!(RunId::parse("01234567-89ab-cdef-0123-456789abcdef"), Some(id));
    assert_eq!(RunId::parse("not a uuid"), None);
}

#[test]
fn test_history_metadata_builder() {
    let metadata = HistoryMetadata::new(1000)
        .with_name("test")
        .with_end_time(2000)
        .with_num_processes(4)
        .with_num_nodes(2)
        .with_seed(42)
        .with_extra("version", Value::from("1.0"));

    assert_eq!(metadata.name, Some("test".to_string()));
    assert_eq!(metadata.started_at, 1000);
    assert_eq!(metadata.ended_at, Some(2000));
    assert_eq!(metadata.num_processes, 4);
    assert_eq!(metadata.num_nodes, 2);
    assert_eq!(metadata.seed, Some(42));
    assert_eq!(get_named(&metadata.extra, "version"), Some(&Value::from("1.0")));
    assert_eq!(metadata.duration_ms(), Some(1000));
}

#[test]
fn test_history_creation() {
    let run_id = RunId::new();
    let history: History<Value> = History::new(run_id);

    assert_eq!(history.run_id, run_id);
    assert!(history.is_empty());
    assert_eq!(history.len(), 0);
}

#[test]
fn test_history_push_and_iterate() {
    let mut history: History<Value> = History::new(RunId::new());

    for i in 0..3u64 {
        let op = Operation::new(OperationId(i), ProcessId(0), "test", Value::from(i), OVC::new(i));
        history.push(op);
    }

    assert_eq!(history.len(), 3);

    let ids: Vec<_> = history.operations.iter().map(|op| op.id.0).collect();
    assert_eq!(ids, vec![0, 1, 2]);
}

#[test]
fn test_history_operations_by_process() {
    let mut history: History<Value> = History::new(RunId::new());

    for i in 0..6u64 {
        let op = Operation::new(OperationId(i), ProcessId((i % 2) as u32), "test", Value::from(i), OVC::new(i));
        history.push(op);
    }

    let p0_ops = history.operations_by_process(ProcessId(0));
    assert_eq!(p0_ops.len(), 3);

    let p1_ops = history.operations_by_process(ProcessId(1));
    assert_eq!(p1_ops.len(), 3);
}

#[test]
fn test_history_processes() {
    let mut history: History<Value> = History::new(RunId::new());

    for i in 0..6u64 {
        let op = Operation::new(OperationId(i), ProcessId((i % 3) as u32), "test", Value::from(i), OVC::new(i));
        history.push(op);
    }

    let processes = history.processes();
    assert_eq!(processes, vec![ProcessId(0), ProcessId(1), ProcessId(2)]);
}

#[test]
fn test_history_indexing() {
    let mut history: History<Value> = History::new(RunId::new());

    let op = Operation::new(OperationId(42), ProcessId(0), "test", Value::Null, OVC::new(0));
    history.push(op);

    assert_eq!(history.get(0).id, OperationId(42));
}

#[test]
fn test_history_extend() {
    let mut history: History<Value> = History::new(RunId::new());

    let ops = (0..3u64)
        .map(|i| Operation::new(OperationId(i), ProcessId(0), "test", Value::from(i), OVC::new(i)))
        .collect();

    history.extend(ops);
    assert_eq!(history.len(), 3);
}

#[test]
fn test_history_into_iter() {
    let mut history: History<Value> = History::new(RunId::new());

    for i in 0..3u64 {
        let op = Operation::new(OperationId(i), ProcessId(0), "test", Value::from(i), OVC::new(i));
        history.push(op);
    }

    let ops: Vec<_> = history.operations.into_iter().collect();
    assert_eq!(ops.len(), 3);
}
