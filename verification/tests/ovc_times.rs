use mamut::ovc::controller_time::ControllerTime;
use mamut::ovc::observed_time::{NodeId, ObservedTime};
use std::time::Duration;

#[test]
fn test_from_units() {
    assert_eq!(ControllerTime::from_nanos(1_000).as_nanos(), 1_000);
    assert_eq!(ControllerTime::from_micros(1).as_nanos(), 1_000);
    assert_eq!(ControllerTime::from_millis(1).as_nanos(), 1_000_000);
    assert_eq!(ControllerTime::from_secs(1).as_nanos(), 1_000_000_000);
}

#[test]
fn test_ordering() {
    let t1 = ControllerTime::from_nanos(100);
    let t2 = ControllerTime::from_nanos(200);

    assert!(t1 < t2);
    assert!(t2 > t1);
    assert_eq!(t1, ControllerTime::from_nanos(100));
}

#[test]
fn test_arithmetic() {
    let t1 = ControllerTime::from_nanos(100);
    let t2 = t1 + 50;

    assert_eq!(t2.as_nanos(), 150);
    assert_eq!((t2 - 50).as_nanos(), 100);
    assert_eq!(t2 - t1, 50);
}

#[test]
fn test_saturating_ops() {
    let t = ControllerTime::from_nanos(100);

    assert_eq!(t.saturating_sub(200), ControllerTime::EPOCH());
    assert_eq!(ControllerTime::MAX().saturating_add(1), ControllerTime::MAX());
}

#[test]
fn test_abs_diff() {
    let t1 = ControllerTime::from_nanos(100);
    let t2 = ControllerTime::from_nanos(250);

    assert_eq!(t1.abs_diff(t2), 150);
    assert_eq!(t2.abs_diff(t1), 150);
}

#[test]
fn controller_time_test_display() {
    let t = ControllerTime::from_nanos(1_234_567_890);
    assert_eq!(t.to_string(), "1.234567890s");
}

#[test]
fn test_duration_conversion() {
    let d = Duration::from_secs(5) + Duration::from_nanos(123);
    let t = ControllerTime::from_duration(d);

    assert_eq!(t.as_secs(), 5);
    assert_eq!(t.subsec_nanos(), 123);
    assert_eq!(t.to_duration(), Some(d));
}

#[test]
fn controller_time_checked_ops_at_the_edges() {
    let t = ControllerTime::from_nanos(10);
    assert_eq!(t.checked_sub(11), None);
    assert_eq!(t.checked_sub(10), Some(ControllerTime::EPOCH()));
    assert_eq!(ControllerTime::MAX().checked_add(1), None);
    assert_eq!(t.checked_add(5), Some(ControllerTime::from_nanos(15)));
    assert_eq!(ControllerTime::from_secs(2).as_millis(), 2_000);
    assert_eq!(ControllerTime::from_millis(3).as_micros(), 3_000);
    assert_eq!(ControllerTime::from_nanos(5).to_string(), "0.000000005s");
}

#[test]
fn observed_time_test_basic_creation() {
    let node = NodeId::new(42);
    let obs = ObservedTime::new(1_000_000_000, node);

    assert_eq!(obs.wall_clock_nanos(), 1_000_000_000);
    assert_eq!(obs.node_id(), node);
    assert_eq!(obs.estimated_offset_nanos(), None);
}

#[test]
fn test_with_offset() {
    let node = NodeId::new(1);
    let obs = ObservedTime::with_offset(1_000_000_000, node, 50_000);

    assert_eq!(obs.estimated_offset_nanos(), Some(50_000));
}

#[test]
fn test_estimated_controller_time() {
    let node = NodeId::new(1);

    let obs = ObservedTime::with_offset(2_000_000_000, node, 1_000_000_000);
    let est = obs.estimated_controller_time().unwrap();

    assert_eq!(est.as_nanos(), 1_000_000_000);
}

#[test]
fn test_drift_from() {
    let node = NodeId::new(1);
    let obs = ObservedTime::new(1_000_500_000, node);
    let ct = ControllerTime::from_nanos(1_000_000_000);

    assert_eq!(obs.drift_from(ct), 500_000);
}

#[test]
fn test_partial_ord_same_node() {
    let node = NodeId::new(1);
    let obs1 = ObservedTime::new(100, node);
    let obs2 = ObservedTime::new(200, node);

    assert!(obs1 < obs2);
    assert!(obs2 > obs1);
}

#[test]
fn test_partial_ord_different_nodes() {
    let obs1 = ObservedTime::new(100, NodeId::new(1));
    let obs2 = ObservedTime::new(200, NodeId::new(2));

    assert!(obs1.partial_cmp(&obs2).is_none());
}

#[test]
fn observed_time_test_node_id_display() {
    let node = NodeId::new(42);
    assert_eq!(node.to_string(), "node:42");
}

#[test]
fn observed_time_negative_estimate_is_none() {
    let obs = ObservedTime::with_offset(100, NodeId::new(3), 200);
    assert_eq!(obs.estimated_controller_time(), None);
    let mut obs = obs;
    obs.clear_estimated_offset();
    assert_eq!(obs.estimated_offset_nanos(), None);
    assert_eq!(obs.estimated_controller_time(), None);
}

#[test]
fn observed_time_test_display() {
    let node = NodeId::new(1);
    let obs = ObservedTime::new(1_234_567_890, node);

    assert!(obs.to_string().contains("1.234567890s"));
    assert!(obs.to_string().contains("node:1"));
}

#[test]
fn observed_time_display_exact_forms() {
    assert_eq!(ObservedTime::new(1_234_567_890, NodeId::new(1)).to_string(), "1.234567890s@node:1");
    assert_eq!(ObservedTime::new(-1_500_000_000, NodeId::new(2)).to_string(), "-1.500000000s@node:2");
    assert_eq!(ObservedTime::new(-5, NodeId::new(2)).to_string(), "0.000000005s@node:2");
    assert_eq!(
        ObservedTime::with_offset(1_000_000_000, NodeId::new(5), -12345).to_string(),
        "1.000000000s@node:5 (offset: -12345ns)"
    );
}
