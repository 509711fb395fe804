use mamut::history::{History, HistoryMetadata, InMemoryHistoryStore, RunId};
use mamut::node::ProcessId;
use mamut::operation::{Operation, OperationId, OVC};
use serde_json::Value;

fn key_x() -> Value {
    let mut m = serde_json::Map::new();
    m.insert("key".to_string(), Value::from("x"));
    Value::Object(m)
}

#[test]
fn test_in_memory_store_append_and_load() {
    let run_id = RunId::new();
    let mut store = InMemoryHistoryStore::<Value>::new(run_id);

    let op = Operation::new(OperationId(1), ProcessId(0), "put", key_x(), OVC::new(100));

    store.append(op.clone());
    assert_eq!(store.len(), 1);

    let history = store.load(run_id).unwrap();
    assert_eq!(history.len(), 1);
    assert_eq!(history.get(0).id, OperationId(1));
}

#[test]
fn test_in_memory_store_run_not_found() {
    let store = InMemoryHistoryStore::<Value>::new(RunId::from_u128(1));
    let other_run = RunId::from_u128(2);

    assert!(store.load(other_run).is_none());
}

#[test]
fn test_in_memory_store_current_run_id() {
    let run_id = RunId::new();
    let store = InMemoryHistoryStore::<Value>::new(run_id);

    assert_eq!(store.current_run_id(), run_id);
    assert_eq!(store.list_runs(), vec![run_id]);
}

#[test]
fn test_in_memory_store_delete() {
    let run_id = RunId::new();
    let mut store = InMemoryHistoryStore::<Value>::new(run_id);

    let op = Operation::new(OperationId(1), ProcessId(0), "test", Value::Null, OVC::new(0));

    store.append(op);
    assert!(!store.is_empty());

    store.delete(run_id);
    assert!(store.is_empty());
}

#[test]
fn store_metadata_is_loaded_with_the_run() {
    let run_id = RunId::from_u128(7);
    let mut store = InMemoryHistoryStore::<Value>::new(run_id);
    store.set_metadata(HistoryMetadata::new(1000).with_name("run"));
    store.delete(RunId::from_u128(8));
    let history = store.load(run_id).unwrap();
    assert_eq!(history.run_id, run_id);
    assert_eq!(history.metadata.started_at, 1000);
    assert_eq!(history.metadata.name.as_deref(), Some("run"));
}

#[test]
fn history_defaults_and_reserve() {
    let mut h: History<Value> = History::default();
    h.reserve(10);
    assert!(h.is_empty());
    let m = HistoryMetadata::default();
    assert_eq!(m.started_at, 0);
    assert!(m.name.is_none());
    assert_ne!(RunId::default(), RunId::default());
}

#[test]
fn new_run_ids_are_version_four() {
    let id = RunId::new();
    assert_eq!((id.0 >> 76) & 0xf, 4);
    assert_eq!((id.0 >> 62) & 0x3, 2);
    assert_ne!(RunId::new(), RunId::new());
}

#[test]
fn run_id_text_is_hyphenated_lower_hex() {
    let id = RunId::from_u128(0x0123456789ABCDEF0123456789ABCDEF);
    assert_eq!(id.to_string(), "01234567-89ab-cdef-0123-456789abcdef");
}
