use mamut::ovc::observed_time::NodeId;
use mamut::ovc::vector_clock::VectorClock;
use std::cmp::Ordering;

fn node(id: u64) -> NodeId {
    NodeId::new(id)
}

fn clock(pairs: &[(u64, u64)]) -> VectorClock {
    VectorClock::from_iter(pairs.iter().map(|&(n, v)| (node(n), v)).collect())
}

#[test]
fn test_new_clock() {
    let clock = VectorClock::new();
    assert!(clock.is_empty());
    assert_eq!(clock.get(node(1)), 0);
}

#[test]
fn test_increment() {
    let mut clock = VectorClock::new();

    assert_eq!(clock.increment(node(1)), 1);
    assert_eq!(clock.increment(node(1)), 2);
    assert_eq!(clock.increment(node(2)), 1);

    assert_eq!(clock.get(node(1)), 2);
    assert_eq!(clock.get(node(2)), 1);
}

#[test]
fn test_happens_before_simple() {
    let clock_a = clock(&[(1, 1)]);
    let clock_b = clock(&[(1, 2)]);

    assert!(clock_a.happens_before(&clock_b));
    assert!(!clock_b.happens_before(&clock_a));
}

#[test]
fn test_happens_before_multi_node() {
    let clock_a = clock(&[(1, 2), (2, 1)]);
    let clock_b = clock(&[(1, 2), (2, 2)]);

    assert!(clock_a.happens_before(&clock_b));
    assert!(!clock_b.happens_before(&clock_a));
}

#[test]
fn test_happens_before_equal() {
    let clock_a = clock(&[(1, 2)]);
    let clock_b = clock(&[(1, 2)]);

    assert!(!clock_a.happens_before(&clock_b));
    assert!(!clock_b.happens_before(&clock_a));
}

#[test]
fn vector_clock_test_concurrent() {
    let clock_a = clock(&[(1, 2), (2, 1)]);
    let clock_b = clock(&[(1, 1), (2, 2)]);

    assert!(!clock_a.happens_before(&clock_b));
    assert!(!clock_b.happens_before(&clock_a));
    assert!(clock_a.concurrent_with(&clock_b));
}

#[test]
fn test_concurrent_disjoint_nodes() {
    let clock_a = clock(&[(1, 1)]);
    let clock_b = clock(&[(2, 1)]);

    assert!(clock_a.concurrent_with(&clock_b));
}

#[test]
fn test_merge() {
    let mut clock_a = clock(&[(1, 2), (2, 1)]);
    let clock_b = clock(&[(1, 1), (2, 3), (3, 1)]);

    clock_a.merge(&clock_b);

    assert_eq!(clock_a.get(node(1)), 2);
    assert_eq!(clock_a.get(node(2)), 3);
    assert_eq!(clock_a.get(node(3)), 1);
}

#[test]
fn test_merged() {
    let clock_a = clock(&[(1, 2)]);
    let clock_b = clock(&[(2, 3)]);

    let merged = clock_a.merged(&clock_b);

    assert_eq!(merged.get(node(1)), 2);
    assert_eq!(merged.get(node(2)), 3);

    assert_eq!(clock_a.get(node(2)), 0);
    assert_eq!(clock_b.get(node(1)), 0);
}

#[test]
fn test_compare() {
    let a = clock(&[(1, 1)]);
    let b = clock(&[(1, 2)]);
    let c = clock(&[(1, 1)]);
    let d = clock(&[(2, 1)]);

    assert_eq!(a.compare(&b), Some(Ordering::Less));
    assert_eq!(b.compare(&a), Some(Ordering::Greater));
    assert_eq!(a.compare(&c), Some(Ordering::Equal));
    assert_eq!(a.compare(&d), None);
}

#[test]
fn vector_clock_test_partial_ord() {
    let a = clock(&[(1, 1)]);
    let b = clock(&[(1, 2)]);

    assert!(a < b);
    assert!(b > a);
}

#[test]
fn test_sum_and_max() {
    let clock = clock(&[(1, 5), (2, 3), (3, 7)]);

    assert_eq!(clock.sum(), 15);
    assert_eq!(clock.max_value(), 7);
}

#[test]
fn vector_clock_test_display() {
    let clock = clock(&[(1, 2), (2, 3)]);
    let s = clock.to_string();

    assert!(s.starts_with("VC{"));
    assert!(s.ends_with("}"));
    assert!(s.contains("1:2"));
    assert!(s.contains("2:3"));
}

#[test]
fn test_happens_before_with_missing_entries() {
    let clock_a = clock(&[(1, 1)]);
    let clock_b = clock(&[(1, 1), (2, 1)]);

    assert!(clock_a.happens_before(&clock_b));
    assert!(!clock_b.happens_before(&clock_a));
}

#[test]
fn test_empty_clock_happens_before() {
    let empty = VectorClock::new();
    let non_empty = clock(&[(1, 1)]);

    assert!(empty.happens_before(&non_empty));
    assert!(!non_empty.happens_before(&empty));
}

#[test]
fn test_scenario_message_passing() {
    let node_a = node(1);
    let node_b = node(2);

    let mut clock_a = VectorClock::new();
    clock_a.increment(node_a);

    let sent_clock = clock_a.clone();

    let mut clock_b = VectorClock::new();
    clock_b.merge(&sent_clock);
    clock_b.increment(node_b);

    assert!(clock_a.happens_before(&clock_b));

    clock_a.increment(node_a);

    assert!(clock_a.concurrent_with(&clock_b));
}

#[test]
fn vector_clock_merge_is_an_upper_bound() {
    let a = clock(&[(1, 4), (2, 1)]);
    let b = clock(&[(2, 6), (5, 2)]);
    let m = a.merged(&b);
    assert!(a.happens_before(&m));
    assert!(b.happens_before(&m));
    assert_eq!(m.sum(), 12);
    assert!(m.equals(&b.merged(&a)));
}

#[test]
fn clocks_agreeing_on_every_node_are_equal() {
    let a = VectorClock::with_node(node(1), 0);
    let b = VectorClock::new();
    assert_eq!(a.compare(&b), Some(Ordering::Equal));
    assert_eq!(b.compare(&a), Some(Ordering::Equal));
    let c = clock(&[(1, 1)]);
    assert_eq!(a.compare(&c), Some(Ordering::Less));
}
