//! Linearizability checking (Wing-Gong-Luchangco backtracking search).
use vstd::prelude::*;
use core::time::Duration;
use std::marker::PhantomData;
use std::time::Instant;
use crate::history::History;
use crate::operation::{Operation, OperationId, operation_id_text, debug_text};
use crate::clock::{now, elapsed, deadline_after, duration_from_secs, duration_of};
use crate::text::{push_str, empty_string, to_owned_string};
use super::model::{Model, OperationExtractor};
use super::precedence::{must_precede, precedence_matrix};
use super::result::{CheckResult, CheckStats, CheckStatus, Counterexample, CounterexampleOp, ViolationType};
use super::search::{SearchCounters, SearchOutcome, backtrack, orderable, valid_order, replay, search_tree_size};

verus! {

/// `"[OperationId(a), OperationId(b), ...]"`.
pub open spec fn ids_text(ids: Seq<OperationId>) -> Seq<char>
    decreases ids.len(),
{
    if ids.len() == 0 {
        Seq::empty()
    } else if ids.len() == 1 {
        operation_id_text(ids[0])
    } else {
        ids_text(ids.drop_last()) + ", "@ + operation_id_text(ids.last())
    }
}

/// Debug text of a list of operation ids.
pub fn ids_debug_text(ids: &Vec<OperationId>) -> (s: String)
    ensures
        s@ == "["@ + ids_text(ids@) + "]"@,
{
    let mut s = empty_string();
    push_str(&mut s, "[");
    let n = ids.len();
    let mut i: usize = 0;
    while i < n
        invariant
            n == ids@.len(),
            i <= n,
            s@ == "["@ + ids_text(ids@.take(i as int)),
        decreases n - i,
    {
        if i > 0 {
            push_str(&mut s, ", ");
        }
        ids[i].push_text(&mut s);
        proof {
            assert(ids@.take(i as int + 1).drop_last() =~= ids@.take(i as int));
            if i == 0 {
                assert(s@ =~= "["@ + ids_text(ids@.take(1)));
            } else {
                assert(s@ =~= "["@ + ids_text(ids@.take(i as int + 1)));
            }
        }
        i = i + 1;
    }
    assert(ids@.take(n as int) =~= ids@);
    push_str(&mut s, "]");
    s
}

/// The real-time and program-order constraints of a history.
pub open spec fn linearization_order<V>(ops: Seq<Operation<V>>) -> spec_fn(int, int) -> bool {
    |j: int, i: int| 0 <= j < ops.len() && 0 <= i < ops.len() && must_precede(ops, j, i)
}

/// The history is linearizable: some order of all its operations respects
/// the real-time and program-order constraints and is accepted by the model.
pub open spec fn linearizable<M: Model, V, E: OperationExtractor<V, ModelOp = M::Op>>(m: M, e: E, ops: Seq<Operation<V>>) -> bool {
    orderable(m, e, ops, linearization_order(ops))
}

/// What a linearizability check of `ops` may give: Pass only for a
/// linearizable history, Fail only for one that is not, and, with no
/// timeout, Unknown only when a state budget is set below the size of the
/// complete search tree.
pub open spec fn linearizability_verdict<M: Model, V, E: OperationExtractor<V, ModelOp = M::Op>>(
    m: M, e: E, ops: Seq<Operation<V>>, no_timeout: bool, max_states: Option<u64>, r: CheckResult,
) -> bool {
    &&& (r.status is Pass ==> linearizable(m, e, ops))
    &&& (r.status is Fail ==> !linearizable(m, e, ops))
    &&& (r.status is Pass || r.status is Fail || r.status is Unknown)
    &&& (no_timeout && r.status is Unknown ==> (max_states matches Some(mx)
            && mx < search_tree_size(m, e, ops, linearization_order(ops), Seq::empty(), m.init_spec())))
}

/// Configuration for the linearizability checker.
#[derive(Debug, Clone)]
pub struct LinearizabilityConfig {
    /// Maximum time to spend checking (None for no timeout).
    pub timeout: Option<Duration>,
    /// Whether to use parallel search.
    pub parallel: bool,
    /// Number of worker threads for parallel search.
    pub num_workers: usize,
    /// Maximum number of states to explore.
    pub max_states: Option<u64>,
    /// Enable state caching.
    pub enable_caching: bool,
    /// Stop at the first valid linearization.
    pub early_termination: bool,
}

impl LinearizabilityConfig {
    /// The default configuration: 30 s timeout, sequential search with 4
    /// workers configured, 10,000,000 states.
    pub fn new() -> (r: Self)
        ensures
            r.timeout == Some(duration_of(30, 0)),
            !r.parallel,
            r.num_workers == 4,
            r.max_states == Some(10_000_000u64),
            r.enable_caching && r.early_termination,
    {
        LinearizabilityConfig {
            timeout: Some(duration_from_secs(30)),
            parallel: false,
            num_workers: 4,
            max_states: Some(10_000_000),
            enable_caching: true,
            early_termination: true,
        }
    }

    /// Sets the timeout.
    pub fn with_timeout(self, timeout: Duration) -> (r: Self)
        ensures
            r == (LinearizabilityConfig { timeout: Some(timeout), ..self }),
    {
        LinearizabilityConfig { timeout: Some(timeout), ..self }
    }

    /// Disables the timeout.
    pub fn without_timeout(self) -> (r: Self)
        ensures
            r == (LinearizabilityConfig { timeout: None, ..self }),
    {
        LinearizabilityConfig { timeout: None, ..self }
    }

    /// Records that a parallel search with `num_workers` workers is
    /// wanted. The setting is kept in the configuration only: `check`
    /// always searches one candidate order after another, which reaches
    /// the same verdict.
    pub fn with_parallel(self, num_workers: usize) -> (r: Self)
        ensures
            r == (LinearizabilityConfig { parallel: true, num_workers, ..self }),
    {
        LinearizabilityConfig { parallel: true, num_workers, ..self }
    }

    /// Sets the state budget.
    pub fn with_max_states(self, max_states: u64) -> (r: Self)
        ensures
            r == (LinearizabilityConfig { max_states: Some(max_states), ..self }),
    {
        LinearizabilityConfig { max_states: Some(max_states), ..self }
    }

    /// Removes the state budget.
    pub fn without_max_states(self) -> (r: Self)
        ensures
            r == (LinearizabilityConfig { max_states: None, ..self }),
    {
        LinearizabilityConfig { max_states: None, ..self }
    }
}

impl Default for LinearizabilityConfig {
    fn default() -> (r: Self)
        ensures
            r.timeout is Some,
            !r.parallel,
            r.num_workers == 4,
            r.max_states == Some(10_000_000u64),
    {
        LinearizabilityConfig::new()
    }
}

/// Prepared inputs of a search: model operations and the precedence matrix.
pub struct SearchInputs<Op> {
    /// The model operation of each recorded operation.
    pub mops: Vec<Op>,
    /// `pred[j][i]`: operation `j` must precede operation `i`.
    pub pred: Vec<Vec<bool>>,
}

/// Extracts the model operation of every recorded operation.
pub fn extract_all<M: Model, V, E: OperationExtractor<V, ModelOp = M::Op>>(
    model: &M, extractor: &E, ops: &Vec<Operation<V>>,
) -> (r: Vec<M::Op>)
    ensures
        r@.len() == ops@.len(),
        forall|i: int| 0 <= i < ops@.len() ==> r@[i] == extractor.extract_spec(#[trigger] ops@[i]),
{
    let n = ops.len();
    let mut r: Vec<M::Op> = Vec::new();
    let mut i: usize = 0;
    while i < n
        invariant
            n == ops@.len(),
            i <= n,
            r@.len() == i,
            forall|q: int| 0 <= q < i ==> r@[q] == extractor.extract_spec(#[trigger] ops@[q]),
        decreases n - i,
    {
        r.push(extractor.extract(&ops[i]));
        i = i + 1;
    }
    r
}

/// Runs the order search from the empty prefix.
pub fn search_all<M: Model, V, E: OperationExtractor<V, ModelOp = M::Op>>(
    model: &M,
    extractor: &E,
    ops: &Vec<Operation<V>>,
    mops: &Vec<M::Op>,
    pred: &Vec<Vec<bool>>,
    Ghost(p): Ghost<spec_fn(int, int) -> bool>,
    deadline: &Option<Instant>,
    max_states: Option<u64>,
    counters: &mut SearchCounters,
) -> (r: SearchOutcome)
    requires
        mops@.len() == ops@.len(),
        forall|i: int| 0 <= i < ops@.len() ==> mops@[i] == extractor.extract_spec(#[trigger] ops@[i]),
        pred@.len() == ops@.len(),
        forall|j: int| 0 <= j < pred@.len() ==> (#[trigger] pred@[j])@.len() == ops@.len(),
        forall|j: int, i: int| 0 <= j < ops@.len() && 0 <= i < ops@.len() ==> (#[trigger] pred@[j]@[i] <==> p(j, i)),
        forall|j: int, i: int| #[trigger] p(j, i) ==> j != i && 0 <= j < ops@.len() && 0 <= i < ops@.len(),
    ensures
        match r {
            SearchOutcome::Found(order) => valid_order(*model, *extractor, ops@, p, order@),
            SearchOutcome::NotFound(partial) => partial@.len() == 0 && !orderable(*model, *extractor, ops@, p),
            _ => true,
        },
        deadline is None && max_states is None ==> (r is Found || r is NotFound),
        deadline is None && max_states is Some && old(counters).states_explored
            + search_tree_size(*model, *extractor, ops@, p, Seq::empty(), model.init_spec()) <= max_states.unwrap()
            ==> (r is Found || r is NotFound) && final(counters).states_explored
                <= old(counters).states_explored + search_tree_size(*model, *extractor, ops@, p, Seq::empty(), model.init_spec()),
        final(counters).max_depth <= old(counters).max_depth || final(counters).max_depth <= ops@.len(),
{
    let n = ops.len();
    let mut prefix: Vec<usize> = Vec::new();
    let mut done: Vec<bool> = Vec::new();
    let mut i: usize = 0;
    while i < n
        invariant
            n == ops@.len(),
            i <= n,
            done@.len() == i,
            forall|q: int| 0 <= q < i ==> !done@[q],
        decreases n - i,
    {
        done.push(false);
        i = i + 1;
    }
    let state = model.init();
    let r = backtrack(model, extractor, ops, mops, pred, Ghost(p), state, &mut prefix, &mut done, deadline, max_states, counters);
    proof {
        match r {
            SearchOutcome::NotFound(_) => {
                assert forall|order: Seq<usize>| !valid_order(*model, *extractor, ops@, p, order) by {
                    if valid_order(*model, *extractor, ops@, p, order) {
                        assert(order.take(0) =~= Seq::<usize>::empty());
                    }
                }
            },
            _ => {},
        }
    }
    r
}

/// A linearizability checker using the WGL algorithm.
pub struct LinearizabilityChecker<M, V, E> {
    /// The sequential specification.
    pub model: M,
    /// Configuration.
    pub config: LinearizabilityConfig,
    /// Extractor of model operations.
    pub extractor: E,
    /// The value type of operations.
    pub marker: PhantomData<V>,
}

impl<M: Model, V, E: OperationExtractor<V, ModelOp = M::Op>> LinearizabilityChecker<M, V, E> {
    /// A checker with the default configuration.
    pub fn new(model: M, extractor: E) -> (r: Self)
        ensures
            r.model == model && r.extractor == extractor,
            r.config.timeout is Some && r.config.max_states == Some(10_000_000u64) && !r.config.parallel,
    {
        LinearizabilityChecker { model, config: LinearizabilityConfig::new(), extractor, marker: PhantomData }
    }

    /// A checker with the given configuration.
    pub fn with_config(model: M, extractor: E, config: LinearizabilityConfig) -> (r: Self)
        ensures
            r.model == model && r.extractor == extractor && r.config == config,
    {
        LinearizabilityChecker { model, config, extractor, marker: PhantomData }
    }

    /// Sets the timeout.
    pub fn with_timeout(self, timeout: Duration) -> (r: Self)
        ensures
            r.model == self.model && r.extractor == self.extractor,
            r.config == (LinearizabilityConfig { timeout: Some(timeout), ..self.config }),
    {
        let config = self.config.with_timeout(timeout);
        LinearizabilityChecker { config, ..self }
    }

    /// Records that a parallel search with `num_workers` workers is
    /// wanted (see `LinearizabilityConfig::with_parallel`: the search
    /// itself stays sequential).
    pub fn with_parallel(self, num_workers: usize) -> (r: Self)
        ensures
            r.model == self.model && r.extractor == self.extractor,
            r.config == (LinearizabilityConfig { parallel: true, num_workers, ..self.config }),
    {
        let config = self.config.with_parallel(num_workers);
        LinearizabilityChecker { config, ..self }
    }

}

impl<M: Model, V: std::fmt::Debug, E: OperationExtractor<V, ModelOp = M::Op>> LinearizabilityChecker<M, V, E> {
    /// The checker's name.
    pub fn name(&self) -> (r: &'static str)
        ensures
            r@ == "linearizability"@,
    {
        "linearizability"
    }

    /// What the checker validates.
    pub fn description(&self) -> (r: &'static str)
        ensures
            r@ == "Checks that the history can be linearized to satisfy the sequential specification"@,
    {
        "Checks that the history can be linearized to satisfy the sequential specification"
    }

    /// Checks the history for linearizability. Pass means a linearization
    /// exists; Fail means none exists; Unknown means the time or state budget
    /// ran out first. Without a timeout, Unknown comes only from a state
    /// budget smaller than the complete search tree (`search_tree_size`).
    pub fn check(&self, history: &History<V>) -> (r: CheckResult)
        ensures
            history.operations@.len() == 0 ==> r.status is Pass,
            r.status is Pass ==> linearizable(self.model, self.extractor, history.operations@),
            r.status is Fail ==> !linearizable(self.model, self.extractor, history.operations@),
            r.status is Pass || r.status is Fail || r.status is Unknown,
            self.config.timeout is None && self.config.max_states is None ==> (r.status is Pass || r.status is Fail),
            linearizability_verdict(self.model, self.extractor, history.operations@, self.config.timeout is None, self.config.max_states, r),
            history.operations@.len() > 0 ==> r.stats.max_depth <= history.operations@.len(),
            history.operations@.len() > 0 ==> r.stats.num_operations == history.operations@.len(),
            self.config.timeout is None && history.operations@.len() > 0 && (self.config.max_states matches Some(mx)
                && search_tree_size(self.model, self.extractor, history.operations@,
                    linearization_order(history.operations@), Seq::empty(), self.model.init_spec()) <= mx)
                ==> r.stats.states_explored <= search_tree_size(self.model, self.extractor, history.operations@,
                    linearization_order(history.operations@), Seq::empty(), self.model.init_spec()),
            r.status is Fail ==> (r.counterexample matches Some(ce)
                && ce.violation_type == ViolationType::NoLinearization
                && ce.description@ == "No valid linearization found"@
                && ce.operations@.len() == history.operations@.len()
                && forall|i: int| 0 <= i < ce.operations@.len() ==>
                    (#[trigger] ce.operations@[i]).id == history.operations@[i].id
                    && ce.operations@[i].interval == Some((history.operations@[i].ovc.ts(), history.operations@[i].ovc.ts()))),
    {
        let start = now();
        if history.is_empty() {
            proof {
                let empty = Seq::<usize>::empty();
                assert(valid_order(self.model, self.extractor, history.operations@, linearization_order(history.operations@), empty));
            }
            return CheckResult::pass().with_duration(elapsed(&start));
        }
        let ops = &history.operations;
        let ghost p = linearization_order(ops@);
        let mops = extract_all(&self.model, &self.extractor, ops);
        let pred = precedence_matrix(ops);
        let deadline: Option<Instant> = match self.config.timeout {
            Some(t) => deadline_after(t),
            None => None,
        };
        let mut counters = SearchCounters { states_explored: 0, linearizations_tried: 0, backtracks: 0, pruned: 0, max_depth: 0 };
        let outcome = search_all(&self.model, &self.extractor, ops, &mops, &pred, Ghost(p), &deadline, self.config.max_states, &mut counters);
        let duration = elapsed(&start);
        let stats = CheckStats {
            num_operations: history.len(),
            states_explored: counters.states_explored,
            linearizations_tried: counters.linearizations_tried,
            max_depth: counters.max_depth as usize,
            backtracks: counters.backtracks,
            pruned: counters.pruned,
            peak_memory_bytes: None,
        };
        match outcome {
            SearchOutcome::Found(order) => {
                let ids = ids_of(ops, &order);
                let mut msg = to_owned_string("Found linearization: ");
                let text = ids_debug_text(&ids);
                push_str(&mut msg, text.as_str());
                proof { assert(orderable(self.model, self.extractor, ops@, p)); }
                CheckResult::pass().with_duration(duration).with_stats(stats).with_diagnostic(msg)
            },
            SearchOutcome::NotFound(partial) => {
                let ce = unplaced_counterexample(ops, &partial, "No valid linearization found", "Linearized ", ViolationType::NoLinearization);
                CheckResult::fail(ce).with_duration(duration).with_stats(stats)
            },
            SearchOutcome::Timeout => {
                CheckResult::unknown(to_owned_string("Search timed out")).with_duration(duration).with_stats(stats)
            },
            SearchOutcome::MaxStatesReached => {
                CheckResult::unknown(to_owned_string("Maximum states reached")).with_duration(duration).with_stats(stats)
            },
        }
    }
}

/// The operation ids of the given positions.
pub fn ids_of<V>(ops: &Vec<Operation<V>>, order: &Vec<usize>) -> (r: Vec<OperationId>)
    requires
        forall|i: int| 0 <= i < order@.len() ==> #[trigger] order@[i] < ops@.len(),
    ensures
        r@.len() == order@.len(),
        forall|i: int| 0 <= i < order@.len() ==> #[trigger] r@[i] == ops@[order@[i] as int].id,
{
    let n = order.len();
    let mut r: Vec<OperationId> = Vec::new();
    let mut i: usize = 0;
    while i < n
        invariant
            n == order@.len(),
            forall|q: int| 0 <= q < order@.len() ==> #[trigger] order@[q] < ops@.len(),
            i <= n,
            r@.len() == i,
            forall|q: int| 0 <= q < i ==> #[trigger] r@[q] == ops@[order@[q] as int].id,
        decreases n - i,
    {
        r.push(ops[order[i]].id);
        i = i + 1;
    }
    r
}

/// Whether a position occurs in the partial order.
fn placed(partial: &Vec<usize>, x: usize) -> (r: bool)
    ensures
        r == partial@.contains(x),
{
    let n = partial.len();
    let mut i: usize = 0;
    while i < n
        invariant
            n == partial@.len(),
            i <= n,
            forall|q: int| 0 <= q < i ==> partial@[q] != x,
        decreases n - i,
    {
        if partial[i] == x {
            return true;
        }
        i = i + 1;
    }
    false
}

/// Describes a recorded call as `function(args)`, the arguments in their
/// `Debug` text.
pub fn describe_call<V: std::fmt::Debug>(function: &String, args: &V) -> (r: String)
    ensures
        exists|a: Seq<char>| r@ == function@ + "("@ + a + ")"@,
{
    let mut s = empty_string();
    push_str(&mut s, function.as_str());
    push_str(&mut s, "(");
    let a = debug_text(args);
    push_str(&mut s, a.as_str());
    push_str(&mut s, ")");
    assert(s@ == function@ + "("@ + a@ + ")"@);
    s
}

/// A counterexample listing the operations that the partial order did not
/// place, each with its timestamp as interval.
pub fn unplaced_counterexample<V: std::fmt::Debug>(
    ops: &Vec<Operation<V>>, partial: &Vec<usize>, stuck: &str, progress: &str, violation: ViolationType,
) -> (ce: Counterexample)
    ensures
        ce.violation_type == violation,
        ce.suggested_linearization is None,
        partial@.len() == 0 ==> ce.description@ == stuck@,
        partial@.len() == 0 ==> ce.operations@.len() == ops@.len()
            && forall|i: int| 0 <= i < ce.operations@.len() ==>
                (#[trigger] ce.operations@[i]).id == ops@[i].id
                && ce.operations@[i].interval == Some((ops@[i].ovc.ts(), ops@[i].ovc.ts())),
{
    let mut ce = Counterexample::new(to_owned_string(stuck), violation);
    if partial.len() > 0 {
        let mut d = to_owned_string(progress);
        crate::text::push_decimal(&mut d, partial.len() as u128);
        push_str(&mut d, " of ");
        crate::text::push_decimal(&mut d, ops.len() as u128);
        push_str(&mut d, " operations before getting stuck");
        ce.description = d;
    }
    let n = ops.len();
    let mut i: usize = 0;
    while i < n
        invariant
            n == ops@.len(),
            i <= n,
            ce.violation_type == violation,
            ce.suggested_linearization is None,
            partial@.len() == 0 ==> ce.description@ == stuck@,
            partial@.len() == 0 ==> ce.operations@.len() == i
                && forall|q: int| 0 <= q < i ==> (#[trigger] ce.operations@[q]).id == ops@[q].id
                    && ce.operations@[q].interval == Some((ops@[q].ovc.ts(), ops@[q].ovc.ts())),
        decreases n - i,
    {
        if !placed(partial, i) {
            let t = ops[i].ovc.timestamp();
            let desc = describe_call(&ops[i].function, &ops[i].args);
            let op = CounterexampleOp::new(ops[i].id, desc).with_interval(t, t);
            ce = ce.with_operation(op);
        }
        i = i + 1;
    }
    ce
}

} // verus!
