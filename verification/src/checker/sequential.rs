//! Sequential consistency checking: some total order of all operations
//! preserves each process's program order and is accepted by the model.
use vstd::prelude::*;
use core::time::Duration;
use std::marker::PhantomData;
use std::time::Instant;
use crate::history::History;
use crate::operation::Operation;
use crate::clock::{now, elapsed, deadline_after, duration_from_secs, duration_of};
use crate::text::{push_str, to_owned_string};
use super::model::{Model, OperationExtractor};
use super::precedence::{program_prev, program_order_matrix};
use super::result::{CheckResult, CheckStats, ViolationType};
use super::search::{SearchCounters, SearchOutcome, orderable, valid_order, search_tree_size};
use super::linearizability::{extract_all, search_all, ids_of, ids_debug_text, unplaced_counterexample};

verus! {

/// The program-order constraints of a history.
pub open spec fn program_order<V>(ops: Seq<Operation<V>>) -> spec_fn(int, int) -> bool {
    |j: int, i: int| 0 <= j < ops.len() && 0 <= i < ops.len() && program_prev(ops, j, i)
}

/// The history is sequentially consistent: some order of all its operations
/// keeps each process's program order and is accepted by the model.
pub open spec fn sequentially_consistent<M: Model, V, E: OperationExtractor<V, ModelOp = M::Op>>(m: M, e: E, ops: Seq<Operation<V>>) -> bool {
    orderable(m, e, ops, program_order(ops))
}

/// What a sequential-consistency check of `ops` may give: Pass only for a
/// sequentially consistent history, Fail only for one that is not, and,
/// with no timeout, Unknown only when a state budget is set below the size
/// of the complete search tree.
pub open spec fn sequential_verdict<M: Model, V, E: OperationExtractor<V, ModelOp = M::Op>>(
    m: M, e: E, ops: Seq<Operation<V>>, no_timeout: bool, max_states: Option<u64>, r: CheckResult,
) -> bool {
    &&& (r.status is Pass ==> sequentially_consistent(m, e, ops))
    &&& (r.status is Fail ==> !sequentially_consistent(m, e, ops))
    &&& (r.status is Pass || r.status is Fail || r.status is Unknown)
    &&& (no_timeout && r.status is Unknown ==> (max_states matches Some(mx)
            && mx < search_tree_size(m, e, ops, program_order(ops), Seq::empty(), m.init_spec())))
}

/// Configuration for the sequential consistency checker.
#[derive(Debug, Clone)]
pub struct SequentialConsistencyConfig {
    /// Maximum time to spend checking.
    pub timeout: Option<Duration>,
    /// Maximum number of states to explore.
    pub max_states: Option<u64>,
}

impl SequentialConsistencyConfig {
    /// The default configuration: 60 s timeout, 100,000,000 states.
    pub fn new() -> (r: Self)
        ensures
            r.timeout == Some(duration_of(60, 0)),
            r.max_states == Some(100_000_000u64),
    {
        SequentialConsistencyConfig { timeout: Some(duration_from_secs(60)), max_states: Some(100_000_000) }
    }
}

impl Default for SequentialConsistencyConfig {
    fn default() -> (r: Self)
        ensures
            r.timeout is Some,
            r.max_states == Some(100_000_000u64),
    {
        SequentialConsistencyConfig::new()
    }
}

/// A sequential consistency checker.
pub struct SequentialConsistencyChecker<M, V, E> {
    /// The sequential specification.
    pub model: M,
    /// Configuration.
    pub config: SequentialConsistencyConfig,
    /// Extractor of model operations.
    pub extractor: E,
    /// The value type of operations.
    pub marker: PhantomData<V>,
}

impl<M: Model, V, E: OperationExtractor<V, ModelOp = M::Op>> SequentialConsistencyChecker<M, V, E> {
    /// A checker with the default configuration.
    pub fn new(model: M, extractor: E) -> (r: Self)
        ensures
            r.model == model && r.extractor == extractor,
            r.config.timeout is Some && r.config.max_states == Some(100_000_000u64),
    {
        SequentialConsistencyChecker { model, config: SequentialConsistencyConfig::new(), extractor, marker: PhantomData }
    }

    /// A checker with the given configuration.
    pub fn with_config(model: M, extractor: E, config: SequentialConsistencyConfig) -> (r: Self)
        ensures
            r.model == model && r.extractor == extractor && r.config == config,
    {
        SequentialConsistencyChecker { model, config, extractor, marker: PhantomData }
    }

    /// Sets the timeout.
    pub fn with_timeout(self, timeout: Duration) -> (r: Self)
        ensures
            r.model == self.model && r.extractor == self.extractor,
            r.config == (SequentialConsistencyConfig { timeout: Some(timeout), ..self.config }),
    {
        let config = SequentialConsistencyConfig { timeout: Some(timeout), ..self.config };
        SequentialConsistencyChecker { config, ..self }
    }
}

impl<M: Model, V: std::fmt::Debug, E: OperationExtractor<V, ModelOp = M::Op>> SequentialConsistencyChecker<M, V, E> {
    /// The checker's name.
    pub fn name(&self) -> (r: &'static str)
        ensures
            r@ == "sequential-consistency"@,
    {
        "sequential-consistency"
    }

    /// What the checker validates.
    pub fn description(&self) -> (r: &'static str)
        ensures
            r@ == "Checks that the history satisfies sequential consistency (preserves program order)"@,
    {
        "Checks that the history satisfies sequential consistency (preserves program order)"
    }

    /// Checks the history for sequential consistency. Pass means a valid
    /// order exists, Fail that none exists, Unknown that the time or state
    /// budget ran out; without a timeout, only a state budget smaller than
    /// the complete search tree gives Unknown.
    pub fn check(&self, history: &History<V>) -> (r: CheckResult)
        ensures
            history.operations@.len() == 0 ==> r.status is Pass,
            r.status is Pass ==> sequentially_consistent(self.model, self.extractor, history.operations@),
            r.status is Fail ==> !sequentially_consistent(self.model, self.extractor, history.operations@),
            r.status is Pass || r.status is Fail || r.status is Unknown,
            self.config.timeout is None && self.config.max_states is None ==> (r.status is Pass || r.status is Fail),
            sequential_verdict(self.model, self.extractor, history.operations@, self.config.timeout is None, self.config.max_states, r),
            history.operations@.len() > 0 ==> r.stats.max_depth <= history.operations@.len(),
            history.operations@.len() > 0 ==> r.stats.num_operations == history.operations@.len(),
            self.config.timeout is None && history.operations@.len() > 0 && (self.config.max_states matches Some(mx)
                && search_tree_size(self.model, self.extractor, history.operations@,
                    program_order(history.operations@), Seq::empty(), self.model.init_spec()) <= mx)
                ==> r.stats.states_explored <= search_tree_size(self.model, self.extractor, history.operations@,
                    program_order(history.operations@), Seq::empty(), self.model.init_spec()),
            r.status is Fail ==> (r.counterexample matches Some(ce)
                && ce.violation_type == ViolationType::ProgramOrderViolation
                && ce.description@ == "No valid sequential ordering found"@
                && ce.operations@.len() == history.operations@.len()
                && forall|i: int| 0 <= i < ce.operations@.len() ==>
                    (#[trigger] ce.operations@[i]).id == history.operations@[i].id),
    {
        let start = now();
        if history.is_empty() {
            proof {
                let empty = Seq::<usize>::empty();
                assert(valid_order(self.model, self.extractor, history.operations@, program_order(history.operations@), empty));
            }
            return CheckResult::pass().with_duration(elapsed(&start));
        }
        let ops = &history.operations;
        let ghost p = program_order(ops@);
        let mops = extract_all(&self.model, &self.extractor, ops);
        let pred = program_order_matrix(ops);
        let deadline: Option<Instant> = match self.config.timeout {
            Some(t) => deadline_after(t),
            None => None,
        };
        let mut counters = SearchCounters { states_explored: 0, linearizations_tried: 0, backtracks: 0, pruned: 0, max_depth: 0 };
        let outcome = search_all(&self.model, &self.extractor, ops, &mops, &pred, Ghost(p), &deadline, self.config.max_states, &mut counters);
        let duration = elapsed(&start);
        let stats = CheckStats {
            num_operations: history.len(),
            states_explored: counters.states_explored,
            linearizations_tried: counters.linearizations_tried,
            max_depth: counters.max_depth as usize,
            backtracks: counters.backtracks,
            pruned: counters.pruned,
            peak_memory_bytes: None,
        };
        match outcome {
            SearchOutcome::Found(order) => {
                let ids = ids_of(ops, &order);
                let mut msg = to_owned_string("Found sequential ordering: ");
                let text = ids_debug_text(&ids);
                push_str(&mut msg, text.as_str());
                proof { assert(orderable(self.model, self.extractor, ops@, p)); }
                CheckResult::pass().with_duration(duration).with_stats(stats).with_diagnostic(msg)
            },
            SearchOutcome::NotFound(partial) => {
                let ce = unplaced_counterexample(ops, &partial, "No valid sequential ordering found", "Ordered ", ViolationType::ProgramOrderViolation);
                CheckResult::fail(ce).with_duration(duration).with_stats(stats)
            },
            SearchOutcome::Timeout => {
                CheckResult::unknown(to_owned_string("Search timed out")).with_duration(duration).with_stats(stats)
            },
            SearchOutcome::MaxStatesReached => {
                CheckResult::unknown(to_owned_string("Maximum states reached")).with_duration(duration).with_stats(stats)
            },
        }
    }
}

} // verus!

verus! {

/// A history that a linearizability check passes is never failed by a
/// sequential-consistency check; with no timeout, and no state budget or
/// one that covers the complete search tree, that check passes it.
pub proof fn law_linearizable_check_passes_sequential<M: Model, V, E: OperationExtractor<V, ModelOp = M::Op>>(
    m: M, e: E, ops: Seq<Operation<V>>, lin_timeout_none: bool, lin_max: Option<u64>, lin_r: CheckResult,
    seq_timeout_none: bool, seq_max: Option<u64>, seq_r: CheckResult,
)
    requires
        super::linearizability::linearizability_verdict(m, e, ops, lin_timeout_none, lin_max, lin_r),
        sequential_verdict(m, e, ops, seq_timeout_none, seq_max, seq_r),
        lin_r.status is Pass,
    ensures
        !(seq_r.status is Fail),
        seq_timeout_none && (seq_max matches Some(mx) ==> search_tree_size(m, e, ops, program_order(ops), Seq::empty(), m.init_spec()) <= mx)
            ==> seq_r.status is Pass,
{
    law_linearizable_implies_sequential(m, e, ops);
}

/// Sequential consistency is weaker than linearizability: every linearizable
/// history is sequentially consistent.
pub proof fn law_linearizable_implies_sequential<M: Model, V, E: OperationExtractor<V, ModelOp = M::Op>>(
    m: M, e: E, ops: Seq<Operation<V>>,
)
    requires
        super::linearizability::linearizable(m, e, ops),
    ensures
        sequentially_consistent(m, e, ops),
{
    let p1 = super::linearizability::linearization_order(ops);
    let p2 = program_order(ops);
    let order = choose|order: Seq<usize>| valid_order(m, e, ops, p1, order);
    assert(super::search::respects(p2, order)) by {
        assert forall|a: int, b: int| 0 <= a < b < order.len() implies !p2(#[trigger] order[b] as int, #[trigger] order[a] as int) by {
            if p2(order[b] as int, order[a] as int) {
                assert(p1(order[b] as int, order[a] as int));
            }
        }
    }
    assert(valid_order(m, e, ops, p2, order));
}

} // verus!
