use mamut::ovc::compact::{CompactVectorClock, OVCBatch, OVCCompact};
use mamut::ovc::controller_time::ControllerTime;
use mamut::ovc::fault_context::{FaultSeverity, TimeFaultContext, TimeFaultType};
use mamut::ovc::observed_time::NodeId;
use mamut::ovc::vector_clock::VectorClock;

#[test]
fn test_fault_type_description() {
    assert_eq!(TimeFaultType::ClockSkewBackward.description(), "Clock jumped backward");
    assert!(TimeFaultType::ClockSkewBackward.is_backward_jump());
    assert!(!TimeFaultType::ClockSkewBackward.is_forward_jump());
}

#[test]
fn test_fault_type_compact() {
    for i in 0..=13 {
        let fault_type = TimeFaultType::from_compact(i);
        assert_eq!(fault_type.to_compact(), i);
    }

    assert_eq!(TimeFaultType::from_compact(999), TimeFaultType::Unknown);
}

#[test]
fn test_fault_context_creation() {
    let fault = TimeFaultContext::new(
        TimeFaultType::ClockSkewBackward,
        NodeId::new(1),
        ControllerTime::from_secs(100),
    );

    assert_eq!(fault.fault_type(), TimeFaultType::ClockSkewBackward);
    assert_eq!(fault.affected_node(), NodeId::new(1));
    assert!(!fault.is_injected());
}

#[test]
fn test_fault_context_injected() {
    let fault = TimeFaultContext::injected(
        TimeFaultType::ClockSkewForward,
        NodeId::new(2),
        ControllerTime::from_secs(50),
    );

    assert!(fault.is_injected());
}

#[test]
fn test_fault_context_builder() {
    let fault = TimeFaultContext::new(
        TimeFaultType::ClockDriftFast,
        NodeId::new(1),
        ControllerTime::from_secs(100),
    )
    .with_magnitude_nanos(5_000_000_000)
    .with_severity(FaultSeverity::Error)
    .with_description("Test fault")
    .with_correlation_id(12345);

    assert_eq!(fault.magnitude_nanos(), Some(5_000_000_000));
    assert_eq!(fault.severity(), FaultSeverity::Error);
    assert_eq!(fault.description(), Some("Test fault"));
    assert_eq!(fault.correlation_id(), Some(12345));
}

#[test]
fn test_magnitude_display() {
    let fault = TimeFaultContext::new(
        TimeFaultType::ClockSkewForward,
        NodeId::new(1),
        ControllerTime::from_secs(0),
    )
    .with_magnitude_nanos(5_500_000_000);

    assert_eq!(fault.magnitude_display(), Some("+5s".to_string()));

    let fault_back = fault.clone().with_magnitude_nanos(-100_000_000);
    assert_eq!(fault_back.magnitude_display(), Some("-100ms".to_string()));
}

#[test]
fn test_severity_ordering() {
    assert!(FaultSeverity::Info < FaultSeverity::Warning);
    assert!(FaultSeverity::Warning < FaultSeverity::Error);
    assert!(FaultSeverity::Error < FaultSeverity::Critical);
}

#[test]
fn fault_context_test_display() {
    let fault = TimeFaultContext::new(
        TimeFaultType::NtpSyncFailure,
        NodeId::new(3),
        ControllerTime::from_secs(1000),
    )
    .with_severity(FaultSeverity::Warning);

    let display = fault.to_string();
    assert!(display.contains("WARN"));
    assert!(display.contains("NTP"));
    assert!(display.contains("node:3"));
}

#[test]
fn fault_magnitude_units_and_compact_codes() {
    let base = TimeFaultContext::new(TimeFaultType::ClockFrozen, NodeId::new(1), ControllerTime::from_secs(1));
    assert_eq!(base.magnitude_display(), None);
    assert_eq!(base.clone().with_magnitude_nanos(2_500).magnitude_display(), Some("+2us".to_string()));
    assert_eq!(base.clone().with_magnitude_nanos(-999).magnitude_display(), Some("-999ns".to_string()));
    assert_eq!(base.clone().with_magnitude_nanos(-7).abs_magnitude_nanos(), Some(7));
    assert_eq!(TimeFaultType::ClockSkewBackward.to_compact(), 1);
    assert_eq!(base.to_compact(), TimeFaultType::ClockFrozen.to_compact());
}

#[test]
fn test_compact_vector_clock() {
    let vc = VectorClock::from_iter(vec![(NodeId::new(1), 5), (NodeId::new(3), 10), (NodeId::new(2), 7)]);

    let compact = CompactVectorClock::from_vector_clock(&vc);

    assert_eq!(compact.entries(), &[(1, 5), (2, 7), (3, 10)]);

    let restored = compact.to_vector_clock();
    assert_eq!(vc, restored);
}

#[test]
fn compact_batch_metadata_and_size() {
    let mut batch = OVCBatch::with_capacity(2);
    assert!(batch.is_empty());
    let record = OVCCompact {
        ct: 1_000_000,
        ot: 1_000_500_000,
        node: 1,
        lt: CompactVectorClock::from_vector_clock(&VectorClock::from_iter(vec![(NodeId::new(1), 5), (NodeId::new(2), 3)])),
        earliest_offset: -1_000,
        latest_offset: 1_000,
        conf: 9_500,
        fc: Some(1),
    };
    assert_eq!(record.fault_type(), Some(1));
    assert_eq!(record.uncertainty_offsets(), (-1_000, 1_000));
    assert!(record.estimated_size() < 100);
    batch.push(record.clone());
    batch.push(record);
    batch.set_metadata("test_id", "12345");
    batch.set_metadata("test_id", "6789");
    assert_eq!(batch.len(), 2);
    assert_eq!(batch.get_metadata("test_id"), Some("6789"));
    assert_eq!(batch.get_metadata("other"), None);
}
