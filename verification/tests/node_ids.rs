use mamut::node::{NodeId, ProcessId};
use std::collections::HashSet;

#[test]
fn test_node_id_creation() {
    let node = NodeId::new(5);
    assert_eq!(node.inner(), 5);
    assert_eq!(node.0, 5);
}

#[test]
fn node_test_node_id_display() {
    let node = NodeId(42);
    assert_eq!(node.to_string(), "Node(42)");
}

#[test]
fn test_node_id_equality() {
    let a = NodeId(1);
    let b = NodeId(1);
    let c = NodeId(2);
    assert_eq!(a, b);
    assert_ne!(a, c);
}

#[test]
fn test_node_id_ordering() {
    let a = NodeId(1);
    let b = NodeId(2);
    assert!(a < b);
}

#[test]
fn test_node_id_hash() {
    let mut set = HashSet::new();
    set.insert(NodeId(1));
    set.insert(NodeId(2));
    set.insert(NodeId(1));
    assert_eq!(set.len(), 2);
}

#[test]
fn test_node_id_conversion() {
    let node: NodeId = 10u32.into();
    assert_eq!(node.0, 10);

    let value: u32 = node.into();
    assert_eq!(value, 10);
}

#[test]
fn test_process_id_creation() {
    let process = ProcessId::new(5);
    assert_eq!(process.inner(), 5);
    assert_eq!(process.0, 5);
}

#[test]
fn node_test_process_id_display() {
    let process = ProcessId(42);
    assert_eq!(process.to_string(), "Process(42)");
}

#[test]
fn test_process_id_equality() {
    let a = ProcessId(1);
    let b = ProcessId(1);
    let c = ProcessId(2);
    assert_eq!(a, b);
    assert_ne!(a, c);
}

#[test]
fn test_process_id_ordering() {
    let a = ProcessId(1);
    let b = ProcessId(2);
    assert!(a < b);
}

#[test]
fn test_process_id_hash() {
    let mut set = HashSet::new();
    set.insert(ProcessId(1));
    set.insert(ProcessId(2));
    set.insert(ProcessId(1));
    assert_eq!(set.len(), 2);
}

#[test]
fn test_process_id_conversion() {
    let process: ProcessId = 10u32.into();
    assert_eq!(process.0, 10);

    let value: u32 = process.into();
    assert_eq!(value, 10);
}
