use std::cmp::Ordering;

use mamut::ovc::bounds::TimeBounds;
use mamut::ovc::compact::OVCCompact;
use mamut::ovc::controller_time::ControllerTime;
use mamut::ovc::fault_context::{TimeFaultContext, TimeFaultType};
use mamut::ovc::observed_time::{NodeId, ObservedTime};
use mamut::ovc::vector_clock::VectorClock;

fn ct(nanos: u128) -> ControllerTime {
    ControllerTime::from_nanos(nanos)
}

fn bounds(a: u128, b: u128) -> TimeBounds {
    TimeBounds::new(ct(a), ct(b))
}

#[test]
fn time_bounds_basic_creation() {
    let interval = bounds(100, 200);
    assert_eq!(interval.earliest(), ct(100));
    assert_eq!(interval.latest(), ct(200));
}

#[test]
fn test_symmetric_creation() {
    let interval = TimeBounds::symmetric(ct(1000), 100);
    assert_eq!(interval.earliest(), ct(900));
    assert_eq!(interval.latest(), ct(1100));
}

#[test]
fn symmetric_saturates_at_both_ends() {
    let low = TimeBounds::symmetric(ct(50), 100);
    assert_eq!(low.earliest(), ct(0));
    assert_eq!(low.latest(), ct(150));
    let high = TimeBounds::symmetric(ct(u128::MAX - 10), 100);
    assert_eq!(high.latest(), ct(u128::MAX));
}

#[test]
fn time_bounds_exact() {
    let interval = TimeBounds::exact(ct(500));
    assert!(interval.is_exact());
    assert_eq!(interval.width_nanos(), 0);
    assert_eq!(TimeBounds::default(), TimeBounds::exact(ct(0)));
}

#[test]
fn test_width_and_midpoint() {
    let interval = bounds(100, 300);
    assert_eq!(interval.width_nanos(), 200);
    assert_eq!(interval.midpoint(), ct(200));
}

#[test]
fn midpoint_rounds_down_and_does_not_overflow() {
    assert_eq!(bounds(100, 301).midpoint(), ct(200));
    assert_eq!(bounds(u128::MAX - 2, u128::MAX).midpoint(), ct(u128::MAX - 1));
}

#[test]
fn test_contains() {
    let interval = bounds(100, 200);
    assert!(interval.contains(ct(100)));
    assert!(interval.contains(ct(150)));
    assert!(interval.contains(ct(200)));
    assert!(!interval.contains(ct(99)));
    assert!(!interval.contains(ct(201)));
}

#[test]
fn test_overlaps() {
    let a = bounds(100, 200);
    let b = bounds(150, 250);
    let c = bounds(300, 400);
    assert!(a.overlaps(&b));
    assert!(b.overlaps(&a));
    assert!(!a.overlaps(&c));
    assert!(!c.overlaps(&a));
}

#[test]
fn test_must_precede() {
    let a = bounds(100, 200);
    let b = bounds(201, 300);
    let c = bounds(150, 250);
    assert!(a.must_precede(&b));
    assert!(!b.must_precede(&a));
    assert!(!a.must_precede(&c));
}

#[test]
fn test_must_follow() {
    let a = bounds(100, 200);
    let b = bounds(201, 300);
    assert!(b.must_follow(&a));
    assert!(!a.must_follow(&b));
}

#[test]
fn time_bounds_intersection() {
    let a = bounds(100, 200);
    let b = bounds(150, 250);
    let i = a.intersection(&b).unwrap();
    assert_eq!(i.earliest(), ct(150));
    assert_eq!(i.latest(), ct(200));
}

#[test]
fn test_intersection_none() {
    let a = bounds(100, 200);
    let b = bounds(300, 400);
    assert!(a.intersection(&b).is_none());
}

#[test]
fn time_bounds_union() {
    let a = bounds(100, 200);
    let b = bounds(150, 250);
    let u = a.union(&b);
    assert_eq!(u.earliest(), ct(100));
    assert_eq!(u.latest(), ct(250));
    let c = bounds(300, 400);
    let v = a.union(&c);
    assert_eq!(v.earliest(), ct(100));
    assert_eq!(v.latest(), ct(400));
}

#[test]
fn test_expand() {
    let expanded = bounds(100, 200).expand(50);
    assert_eq!(expanded.earliest(), ct(50));
    assert_eq!(expanded.latest(), ct(250));
}

#[test]
fn test_shrink() {
    let interval = bounds(100, 200);
    let shrunk = interval.shrink(20).unwrap();
    assert_eq!(shrunk.earliest(), ct(120));
    assert_eq!(shrunk.latest(), ct(180));
    assert!(interval.shrink(60).is_none());
}

#[test]
fn shrink_to_a_point_and_undo_expand() {
    assert_eq!(bounds(100, 200).shrink(50), Some(bounds(150, 150)));
    assert!(bounds(100, 201).shrink(51).is_none());
    assert_eq!(bounds(100, 200).expand(30).shrink(30), Some(bounds(100, 200)));
}

#[test]
fn test_temporal_order() {
    let a = bounds(100, 200);
    let b = bounds(300, 400);
    let c = bounds(150, 250);
    assert_eq!(a.temporal_order(&b), Some(Ordering::Less));
    assert_eq!(b.temporal_order(&a), Some(Ordering::Greater));
    assert_eq!(a.temporal_order(&c), None);
}

#[test]
fn compact_parts_roundtrip() {
    let controller_time = ControllerTime::from_micros(1_000_000);
    let observed = ObservedTime::new(1_000_500_000_000, NodeId::new(1));
    let vc = VectorClock::from_iter(vec![(NodeId::new(1), 5), (NodeId::new(2), 3)]);
    let b = TimeBounds::new(ControllerTime::from_micros(999_000), ControllerTime::from_micros(1_001_000));
    let compact = OVCCompact::from_parts(controller_time, &observed, &vc, &b, 9_500, None);

    assert_eq!(compact.controller_time_micros(), 1_000_000);
    assert_eq!(compact.uncertainty_offsets(), (-1_000, 1_000));
    assert_eq!(compact.confidence_scaled(), 9_500);
    assert_eq!(compact.to_controller_time().as_micros(), controller_time.as_micros());
    assert_eq!(compact.logical_time().to_vector_clock(), vc);
    let restored = compact.to_bounds();
    assert_eq!(restored.earliest().as_micros(), 999_000);
    assert_eq!(restored.latest().as_micros(), 1_001_000);
    assert_eq!(compact.to_observed_time().wall_clock_nanos(), 1_000_500_000_000);
    assert!(compact.to_fault_context().is_none());
}

#[test]
fn compact_parts_with_fault() {
    let controller_time = ControllerTime::from_micros(1_000_000);
    let observed = ObservedTime::new(1_000_500_000_000, NodeId::new(1));
    let fault = TimeFaultContext::new(TimeFaultType::ClockSkewBackward, NodeId::new(1), controller_time);
    let compact = OVCCompact::from_parts(
        controller_time,
        &observed,
        &VectorClock::new(),
        &TimeBounds::exact(controller_time),
        10_000,
        Some(&fault),
    );
    assert_eq!(compact.fault_type(), Some(1));
    let restored = compact.to_fault_context().unwrap();
    assert_eq!(restored.fault_type(), TimeFaultType::ClockSkewBackward);
    assert_eq!(restored.affected_node(), NodeId::new(1));
}

#[test]
fn compact_parts_negative_observed_time_and_clamped_bounds() {
    let observed = ObservedTime::new(-1_000_000_001, NodeId::new(1));
    let compact = OVCCompact::from_parts(
        ControllerTime::from_micros(1_000_000),
        &observed,
        &VectorClock::new(),
        &TimeBounds::new(ControllerTime::from_nanos(999_999_500), ControllerTime::from_nanos(1_000_000_999)),
        0,
        None,
    );
    // Rounded toward zero, as the division of a negative number.
    assert_eq!(compact.observed_time_micros(), -1_000_000);
    assert_eq!(compact.uncertainty_offsets(), (0, 0));
    assert!(compact.to_observed_time().wall_clock_nanos() < 0);

    let early = OVCCompact::from_parts(
        ControllerTime::from_micros(10),
        &observed,
        &VectorClock::new(),
        &TimeBounds::new(ControllerTime::from_micros(0), ControllerTime::from_micros(10)),
        0,
        None,
    );
    let mut shifted = early.clone();
    shifted.earliest_offset = -20;
    assert_eq!(shifted.to_bounds().earliest(), ControllerTime::from_nanos(0));
}
