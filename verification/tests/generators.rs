use mamut::generator::combinators::{child_seed, source_name, ChainCursor, Filter, RoundRobin, Take};
use mamut::generator::context::{ActiveFault, FaultType, GeneratorContext, HistorySummary};
use mamut::generator::error::GeneratorError;
use mamut::generator::generated::{GeneratedOp, OperationMetadata};
use mamut::generator::replay::{RecordedOp, ReplayGenerator, ReplayMode};
use mamut::named::get_named;
use mamut::node::ProcessId;
use std::time::Duration;

#[test]
fn test_active_fault() {
    let fault = ActiveFault::new(FaultType::NetworkPartition, vec![ProcessId::new(1), ProcessId::new(2)], 100)
        .with_end_time(200)
        .with_parameter("partition_id", "p1");

    assert!(fault.affects(ProcessId::new(1)));
    assert!(fault.affects(ProcessId::new(2)));
    assert!(!fault.affects(ProcessId::new(3)));

    assert!(fault.is_active_at(100));
    assert!(fault.is_active_at(150));
    assert!(!fault.is_active_at(200));
    assert!(!fault.is_active_at(99));
}

#[test]
fn test_history_summary() {
    let mut summary = HistorySummary::new();

    summary.record_operation(ProcessId::new(1), true, Some("read"));
    summary.record_operation(ProcessId::new(1), true, Some("write"));
    summary.record_operation(ProcessId::new(2), false, Some("read"));

    assert_eq!(summary.total_operations, 3);
    assert_eq!(summary.successful_operations, 2);
    assert_eq!(summary.failed_operations, 1);
    assert_eq!(summary.operations_for_process(ProcessId::new(1)), 2);
    assert_eq!(summary.operations_of_type("read"), 2);

    let (s, t) = summary.success_fraction();
    assert!((s as f64 / t as f64 - 0.666).abs() < 0.01);

    summary.record_invariant_check(false);
    summary.record_invariant_check(true);
    let (v, c) = summary.violation_fraction();
    assert_eq!(v as f64 / c as f64, 0.5);
}

#[test]
fn history_summary_rates_before_anything() {
    let summary = HistorySummary::default();
    assert_eq!(summary.success_fraction(), (1, 1));
    assert_eq!(summary.violation_fraction(), (0, 1));
    assert_eq!(summary.operations_for_process(ProcessId::new(9)), 0);
    assert_eq!(summary.current_timestamp, 0);
}

#[test]
fn test_generator_context() {
    let mut ctx = GeneratorContext::with_processes(vec![ProcessId::new(1), ProcessId::new(2), ProcessId::new(3)]);

    ctx.add_fault(ActiveFault::new(FaultType::ProcessCrash, vec![ProcessId::new(2)], 0));

    assert!(ctx.is_process_faulted(ProcessId::new(2)));
    assert!(!ctx.is_process_faulted(ProcessId::new(1)));

    let healthy = ctx.healthy_processes();
    assert_eq!(healthy.len(), 2);
    assert!(healthy.contains(&ProcessId::new(1)));
    assert!(healthy.contains(&ProcessId::new(3)));
}

#[test]
fn generator_context_faults_limits_and_custom_data() {
    let mut ctx = GeneratorContext::new();
    ctx.add_fault(ActiveFault::new(FaultType::ClockSkew, vec![ProcessId::new(1)], 0).with_end_time(10));
    ctx.add_fault(ActiveFault::new(FaultType::Custom("x".to_string()), vec![ProcessId::new(1)], 5));
    assert_eq!(ctx.faults_for_process(ProcessId::new(1)).len(), 2);
    ctx.add_fault(ActiveFault::new(FaultType::ClockSkew, vec![ProcessId::new(1)], 100));
    ctx.expire_faults(10);
    assert_eq!(ctx.active_faults().len(), 2);
    assert_eq!(ctx.active_faults()[0].fault_type.to_string(), "Custom(x)");
    ctx.set_custom("k", "v1");
    ctx.set_custom("k", "v2");
    assert_eq!(ctx.get_custom("k"), Some("v2"));
    assert_eq!(ctx.get_custom("z"), None);
    assert!(!ctx.is_at_limit());
    assert_eq!(ctx.remaining_operations(), None);
    ctx.set_max_operations(1);
    ctx.history_mut().record_operation(ProcessId::new(1), true, None);
    assert!(ctx.is_at_limit());
    assert_eq!(ctx.remaining_operations(), Some(0));
    ctx.next_round();
    assert_eq!(ctx.round(), 1);
    ctx.set_model_state_bytes(vec![1, 2, 3]);
    assert_eq!(ctx.model_state_bytes(), Some(&[1u8, 2, 3][..]));
}

#[test]
fn test_operation_metadata() {
    let meta = OperationMetadata::new()
        .with_priority(10)
        .with_tag("critical")
        .with_tag("network")
        .mutating()
        .with_retries(3)
        .with_custom("key", "value");

    assert_eq!(meta.priority, 10);
    assert!(meta.has_tag("critical"));
    assert!(meta.has_tag("network"));
    assert!(!meta.has_tag("other"));
    assert!(meta.may_mutate);
    assert_eq!(meta.retry_count, 3);
    assert_eq!(get_named(&meta.custom, "key"), Some(&"value".to_string()));
}

#[test]
fn test_generated_op() {
    let op = GeneratedOp::new(42i32)
        .with_target(ProcessId::new(1))
        .with_delay(Duration::from_millis(100))
        .with_precondition("state.ready == true")
        .from_generator("random")
        .with_sequence(5);

    assert_eq!(op.value, 42);
    assert_eq!(op.target_process, Some(ProcessId::new(1)));
    assert_eq!(op.delay(), Some(Duration::from_millis(100)));
    assert!(op.has_preconditions());
    assert_eq!(op.source_generator, "random");
    assert_eq!(op.generation_sequence, 5);
}

#[test]
fn test_generated_op_map() {
    let op = GeneratedOp::new(42i32).with_target(ProcessId::new(1)).from_generator("test");

    let mapped = op.map(|v| v.to_string());
    assert_eq!(mapped.value, "42");
    assert_eq!(mapped.target_process, Some(ProcessId::new(1)));
    assert_eq!(mapped.source_generator, "test");
}

#[test]
fn test_effective_target() {
    let default = ProcessId::new(99);

    let with_target = GeneratedOp::new(1).with_target(ProcessId::new(5));
    assert_eq!(with_target.effective_target(default), ProcessId::new(5));

    let without_target = GeneratedOp::new(1);
    assert_eq!(without_target.effective_target(default), default);
}

#[test]
fn generated_op_retarget_and_tags() {
    let meta = OperationMetadata::new().with_tags(&["a", "b"]).idempotent().read_only();
    assert_eq!(meta.tags, vec!["a".to_string(), "b".to_string()]);
    let op = GeneratedOp::for_process(7u8, ProcessId::new(1)).with_metadata(meta).with_sequence(3);
    let moved = op.retarget(ProcessId::new(2));
    assert_eq!(moved.value, 7);
    assert_eq!(moved.target_process, Some(ProcessId::new(2)));
    assert!(moved.metadata.idempotent);
    assert_eq!(moved.generation_sequence, 3);
    assert_eq!(moved.delay(), None);
}

#[test]
fn traits_test_process_id_display() {
    let pid = ProcessId::new(42);
    assert_eq!(pid.to_string(), "Process(42)");
}

#[test]
fn test_generator_error() {
    let err = GeneratorError::Exhausted;
    assert_eq!(err.to_string(), "generator exhausted");

    let err = GeneratorError::NoValidOperation("no rules match".to_string());
    assert!(err.to_string().contains("no valid operation"));
}

fn history() -> Vec<RecordedOp<String>> {
    vec![
        RecordedOp::new(ProcessId::new(1), "op1".to_string(), 0),
        RecordedOp::new(ProcessId::new(2), "op2".to_string(), 1),
        RecordedOp::new(ProcessId::new(1), "op3".to_string(), 2),
        RecordedOp::new(ProcessId::new(2), "op4".to_string(), 3),
    ]
}

#[test]
fn replay_strict_follows_each_process() {
    let mut generator = ReplayGenerator::new(history()).with_mode(ReplayMode::Strict);
    assert_eq!(generator.next_op(ProcessId::new(1)).unwrap().value, "op1");
    assert_eq!(generator.next_op(ProcessId::new(2)).unwrap().value, "op2");
    let op = generator.next_op(ProcessId::new(1)).unwrap();
    assert_eq!(op.value, "op3");
    assert_eq!(op.generation_sequence, 3);
    assert_eq!(op.source_generator, "ReplayGenerator");
    assert!(generator.next_op(ProcessId::new(3)).is_none());
}

#[test]
fn replay_sequential_and_reset() {
    let mut generator = ReplayGenerator::new(history()).with_mode(ReplayMode::Sequential).with_name("r");
    assert_eq!(generator.next_op(ProcessId::new(99)).unwrap().value, "op1");
    assert_eq!(generator.next_op(ProcessId::new(99)).unwrap().value, "op2");
    assert_eq!(generator.remaining_count(), 2);
    generator.reset();
    assert_eq!(generator.remaining_count(), 4);
    assert_eq!(generator.position(), 0);
    assert_eq!(generator.total_operations(), 4);
    assert_eq!(generator.peek().unwrap().value, "op1");
}

#[test]
fn replay_relaxed_takes_any_process() {
    let mut relaxed = ReplayGenerator::new(history()).with_mode(ReplayMode::Relaxed);
    let first = relaxed.next_op(ProcessId::new(3)).unwrap();
    assert_eq!(first.value, "op1");
    assert_eq!(first.target_process, Some(ProcessId::new(1)));
    assert_eq!(relaxed.position(), 1);
    let mut partial = ReplayGenerator::new(history()).with_mode(ReplayMode::Relaxed).allow_partial();
    let op = partial.next_op(ProcessId::new(3)).unwrap();
    assert_eq!(op.value, "op1");
    assert_eq!(op.target_process, Some(ProcessId::new(1)));
}

#[test]
fn take_counts_to_its_limit() {
    let mut take = Take::new((), 2).with_name("t");
    assert_eq!(take.name(), "t");
    assert!(take.can_take());
    take.record_taken();
    take.record_taken();
    assert!(!take.can_take());
    assert_eq!(take.count(), 2);
    assert!(take.is_exhausted_with(false));
    assert_eq!(take.remaining_with(Some(5)), Some(0));
    take.reset_count();
    assert_eq!(take.remaining_with(Some(1)), Some(1));
    assert_eq!(take.remaining_with(None), Some(2));
    let mut limited = Take::new((), 1);
    assert_eq!(limited.hand_on(Some(7u8)), Some(7));
    assert!(!limited.can_take());
    assert_eq!(limited.count(), 1);
    let mut open = Take::new((), 2);
    assert_eq!(open.hand_on(None::<u8>), None);
    assert_eq!(open.count(), 0);
    let filter = Filter::<(), fn(&GeneratedOp<u8>) -> bool, u8>::new((), |_| true).with_max_retries(3);
    assert_eq!(filter.max_retries(), 3);
    assert_eq!(filter.name(), "Filter");
    assert!(filter.keeps_trying(2, false));
    assert!(!filter.keeps_trying(3, false));
    assert!(!filter.keeps_trying(0, true));
}

#[test]
fn combinator_source_names_and_seeds() {
    assert_eq!(source_name("Chain", 2), "Chain[2]");
    assert_eq!(source_name("Interleave", 10), "Interleave[10]");
    assert_eq!(child_seed(5, 3), 8);
    assert_eq!(child_seed(u64::MAX, 2), 1);
}

#[test]
fn chain_cursor_walks_generators_in_order() {
    let mut c = ChainCursor::new(2);
    assert!(c.has_current());
    assert!(!c.is_exhausted(false));
    c.advance();
    assert_eq!(c.current, 1);
    assert!(c.is_exhausted(true));
    assert!(!c.is_exhausted(false));
    c.add();
    assert!(!c.is_exhausted(true));
    assert_eq!(c.remaining(&[Some(1), Some(2), Some(3)]), Some(5));
    assert_eq!(c.remaining(&[None, Some(2), None]), None);
    c.advance();
    c.advance();
    assert!(!c.has_current());
    assert!(c.is_exhausted(false));
    assert_eq!(c.remaining(&[None, None, None]), Some(0));
    c.reset();
    assert_eq!(c.current, 0);
}

#[test]
fn round_robin_turns_wrap_and_skip_when_all_exhausted() {
    let mut r = RoundRobin::new(3);
    assert_eq!(r.start_round(&[false, true, false]), Some(0));
    assert_eq!(r.exhausted_count, 1);
    assert_eq!(r.next_index(), 0);
    assert_eq!(r.next_index(), 1);
    assert_eq!(r.next_index(), 2);
    assert_eq!(r.next_index(), 0);
    assert_eq!(r.start_round(&[true, true, true]), None);
    assert!(r.is_exhausted());
    r.reset();
    assert!(!r.is_exhausted());
    assert_eq!(r.current, 0);
    let mut empty = RoundRobin::new(0);
    assert_eq!(empty.start_round(&[]), None);
    assert!(empty.is_exhausted());
    empty.add();
    assert_eq!(empty.len, 1);
}

#[test]
fn delay_keeps_whole_milliseconds() {
    let op = GeneratedOp::new(1i32).with_delay(Duration::from_micros(2500));
    assert_eq!(op.delay(), Some(Duration::from_millis(2)));
    assert_eq!(GeneratedOp::new(1i32).delay(), None);
}
