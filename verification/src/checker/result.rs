//! Results of consistency checks: status, counterexamples, violations, statistics.
use vstd::prelude::*;
use core::time::Duration;
use crate::operation::{OperationId, operation_id_text};
use crate::text::{decimal, empty_string, push_decimal, push_str, to_owned_string};

verus! {

/// The status of a consistency check.
#[derive(Debug, Clone, PartialEq)]
pub enum CheckStatus {
    /// The history satisfies the consistency model.
    Pass,
    /// The history violates the consistency model.
    Fail,
    /// The check could not decide (e.g. timeout).
    Unknown(String),
    /// An error occurred during checking.
    Error(String),
}

/// Types of consistency violations.
#[derive(Debug, Clone, Copy, PartialEq, Eq, Structural, Hash)]
pub enum ViolationType {
    /// No valid linearization exists.
    NoLinearization,
    /// Real-time order violated.
    RealTimeOrderViolation,
    /// Program order violated.
    ProgramOrderViolation,
    /// Read returned a value that was never written.
    StaleRead,
    /// Read returned a value from the future.
    FutureRead,
    /// Causal dependency violated.
    CausalityViolation,
    /// Write-write conflict not properly ordered.
    WriteConflict,
    /// Custom invariant violated.
    InvariantViolation,
    /// Model specification violation.
    SpecificationViolation,
    /// Unknown violation type.
    Unknown,
}

/// The name of a violation type (its `Debug` form).
pub open spec fn violation_type_name(v: ViolationType) -> Seq<char> {
    match v {
        ViolationType::NoLinearization => "NoLinearization"@,
        ViolationType::RealTimeOrderViolation => "RealTimeOrderViolation"@,
        ViolationType::ProgramOrderViolation => "ProgramOrderViolation"@,
        ViolationType::StaleRead => "StaleRead"@,
        ViolationType::FutureRead => "FutureRead"@,
        ViolationType::CausalityViolation => "CausalityViolation"@,
        ViolationType::WriteConflict => "WriteConflict"@,
        ViolationType::InvariantViolation => "InvariantViolation"@,
        ViolationType::SpecificationViolation => "SpecificationViolation"@,
        ViolationType::Unknown => "Unknown"@,
    }
}

impl ViolationType {
    /// The name of the violation type.
    pub fn name(&self) -> (r: &'static str)
        ensures
            r@ == violation_type_name(*self),
    {
        match self {
            ViolationType::NoLinearization => "NoLinearization",
            ViolationType::RealTimeOrderViolation => "RealTimeOrderViolation",
            ViolationType::ProgramOrderViolation => "ProgramOrderViolation",
            ViolationType::StaleRead => "StaleRead",
            ViolationType::FutureRead => "FutureRead",
            ViolationType::CausalityViolation => "CausalityViolation",
            ViolationType::WriteConflict => "WriteConflict",
            ViolationType::InvariantViolation => "InvariantViolation",
            ViolationType::SpecificationViolation => "SpecificationViolation",
            ViolationType::Unknown => "Unknown",
        }
    }
}

/// The display form of a status: `PASS`, `FAIL`, `UNKNOWN: <reason>` or
/// `ERROR: <message>`.
pub open spec fn status_text(s: CheckStatus) -> Seq<char> {
    match s {
        CheckStatus::Pass => "PASS"@,
        CheckStatus::Fail => "FAIL"@,
        CheckStatus::Unknown(r) => "UNKNOWN: "@ + r@,
        CheckStatus::Error(m) => "ERROR: "@ + m@,
    }
}

impl CheckStatus {
    /// The display form of the status.
    pub fn to_string(&self) -> (r: String)
        ensures
            r@ == status_text(*self),
    {
        let mut s = empty_string();
        match self {
            CheckStatus::Pass => push_str(&mut s, "PASS"),
            CheckStatus::Fail => push_str(&mut s, "FAIL"),
            CheckStatus::Unknown(r) => {
                push_str(&mut s, "UNKNOWN: ");
                push_str(&mut s, r.as_str());
            },
            CheckStatus::Error(m) => {
                push_str(&mut s, "ERROR: ");
                push_str(&mut s, m.as_str());
            },
        }
        s
    }
}

/// An operation in a counterexample.
#[derive(Debug, Clone)]
pub struct CounterexampleOp {
    /// The operation ID.
    pub id: OperationId,
    /// A description of the operation.
    pub description: String,
    /// The expected value according to the model.
    pub expected: String,
    /// The actual observed value.
    pub actual: String,
    /// The time interval (start, end) of the operation.
    pub interval: Option<(u64, u64)>,
}

impl CounterexampleOp {
    /// A counterexample operation with empty expected/actual values.
    pub fn new(id: OperationId, description: String) -> (r: Self)
        ensures
            r.id == id,
            r.description == description,
            r.expected@ == Seq::<char>::empty(),
            r.actual@ == Seq::<char>::empty(),
            r.interval is None,
    {
        CounterexampleOp { id, description, expected: String::new(), actual: String::new(), interval: None }
    }

    /// Sets the expected value.
    pub fn with_expected(self, expected: &str) -> (r: Self)
        ensures
            r.expected@ == expected@,
            r.id == self.id && r.description == self.description && r.actual == self.actual && r.interval == self.interval,
    {
        CounterexampleOp { expected: to_owned_string(expected), ..self }
    }

    /// Sets the actual value.
    pub fn with_actual(self, actual: &str) -> (r: Self)
        ensures
            r.actual@ == actual@,
            r.id == self.id && r.description == self.description && r.expected == self.expected && r.interval == self.interval,
    {
        CounterexampleOp { actual: to_owned_string(actual), ..self }
    }

    /// Sets the time interval.
    pub fn with_interval(self, start: u64, end: u64) -> (r: Self)
        ensures
            r.interval == Some((start, end)),
            r.id == self.id && r.description == self.description && r.expected == self.expected && r.actual == self.actual,
    {
        CounterexampleOp { interval: Some((start, end)), ..self }
    }
}

/// The display form of a counterexample operation: `<id>: <description>`,
/// then ` (expected: <e>, actual: <a>)` when either is given, then
/// ` [<start>-<end>]` when the interval is.
pub open spec fn ce_op_text(op: CounterexampleOp) -> Seq<char> {
    operation_id_text(op.id) + ": "@ + op.description@
        + (if op.expected@.len() > 0 || op.actual@.len() > 0 {
            " (expected: "@ + op.expected@ + ", actual: "@ + op.actual@ + ")"@
        } else {
            Seq::empty()
        })
        + match op.interval {
            Some((a, b)) => " ["@ + decimal(a as nat) + "-"@ + decimal(b as nat) + "]"@,
            None => Seq::empty(),
        }
}

impl CounterexampleOp {
    /// Appends the display form (see `ce_op_text`).
    pub fn push_text(&self, s: &mut String)
        ensures
            final(s)@ == old(s)@ + ce_op_text(*self),
    {
        let ghost s0 = s@;
        self.id.push_text(s);
        push_str(s, ": ");
        push_str(s, self.description.as_str());
        let ghost s1 = s@;
        if self.expected.as_str().unicode_len() > 0 || self.actual.as_str().unicode_len() > 0 {
            push_str(s, " (expected: ");
            push_str(s, self.expected.as_str());
            push_str(s, ", actual: ");
            push_str(s, self.actual.as_str());
            push_str(s, ")");
        }
        let ghost s2 = s@;
        match self.interval {
            Some((a, b)) => {
                push_str(s, " [");
                push_decimal(s, a as u128);
                push_str(s, "-");
                push_decimal(s, b as u128);
                push_str(s, "]");
            },
            None => {},
        }
        assert(s@ =~= s0 + ce_op_text(*self));
    }

    /// The display form (see `ce_op_text`).
    pub fn to_string(&self) -> (r: String)
        ensures
            r@ == ce_op_text(*self),
    {
        let mut s = empty_string();
        self.push_text(&mut s);
        s
    }
}

/// The lines listing counterexample operations, each `    - <op>`.
pub open spec fn ce_ops_text(ops: Seq<CounterexampleOp>) -> Seq<char>
    decreases ops.len(),
{
    if ops.len() == 0 {
        Seq::empty()
    } else {
        ce_ops_text(ops.drop_last()) + "    - "@ + ce_op_text(ops.last()) + "\n"@
    }
}

/// The display form of a counterexample: its description, type and
/// operations, one per line.
pub open spec fn counterexample_text(ce: Counterexample) -> Seq<char> {
    "Counterexample: "@ + ce.description@ + "\n  Type: "@ + violation_type_name(ce.violation_type)
        + "\n  Operations:\n"@ + ce_ops_text(ce.operations@)
}

/// A counterexample demonstrating a consistency violation.
#[derive(Debug, Clone)]
pub struct Counterexample {
    /// Human-readable description.
    pub description: String,
    /// Operations involved.
    pub operations: Vec<CounterexampleOp>,
    /// The type of violation.
    pub violation_type: ViolationType,
    /// A suggested valid linearization, if one exists.
    pub suggested_linearization: Option<Vec<OperationId>>,
}

impl Counterexample {
    /// A counterexample without operations.
    pub fn new(description: String, violation_type: ViolationType) -> (r: Self)
        ensures
            r.description == description,
            r.violation_type == violation_type,
            r.operations@.len() == 0,
            r.suggested_linearization is None,
    {
        Counterexample { description, operations: Vec::new(), violation_type, suggested_linearization: None }
    }

    /// Appends an operation.
    pub fn with_operation(self, op: CounterexampleOp) -> (r: Self)
        ensures
            r.operations@ == self.operations@.push(op),
            r.description == self.description,
            r.violation_type == self.violation_type,
            r.suggested_linearization == self.suggested_linearization,
    {
        let mut s = self;
        s.operations.push(op);
        s
    }

    /// Adds the operations after those already listed.
    pub fn with_operations(self, ops: Vec<CounterexampleOp>) -> (r: Self)
        ensures
            r.operations@ == self.operations@ + ops@,
            r.description == self.description,
            r.violation_type == self.violation_type,
            r.suggested_linearization == self.suggested_linearization,
    {
        let mut c = self;
        let mut more = ops;
        c.operations.append(&mut more);
        c
    }

    /// The display form (see `counterexample_text`).
    pub fn to_string(&self) -> (r: String)
        ensures
            r@ == counterexample_text(*self),
    {
        let mut s = empty_string();
        push_str(&mut s, "Counterexample: ");
        push_str(&mut s, self.description.as_str());
        push_str(&mut s, "\n  Type: ");
        push_str(&mut s, self.violation_type.name());
        push_str(&mut s, "\n  Operations:\n");
        let ghost head = s@;
        let n = self.operations.len();
        let mut i: usize = 0;
        assert(self.operations@.take(0) =~= Seq::<CounterexampleOp>::empty());
        while i < n
            invariant
                n == self.operations@.len(),
                i <= n,
                s@ == head + ce_ops_text(self.operations@.take(i as int)),
            decreases n - i,
        {
            push_str(&mut s, "    - ");
            self.operations[i].push_text(&mut s);
            push_str(&mut s, "\n");
            proof {
                assert(self.operations@.take(i as int + 1).drop_last() =~= self.operations@.take(i as int));
            }
            i = i + 1;
        }
        assert(self.operations@.take(n as int) =~= self.operations@);
        s
    }

    /// Sets a suggested linearization.
    pub fn with_suggestion(self, linearization: Vec<OperationId>) -> (r: Self)
        ensures
            r.suggested_linearization == Some(linearization),
            r.operations == self.operations,
            r.description == self.description,
            r.violation_type == self.violation_type,
    {
        Counterexample { suggested_linearization: Some(linearization), ..self }
    }
}

/// A specific violation found during checking.
#[derive(Debug, Clone)]
pub struct Violation {
    /// The type of violation.
    pub violation_type: ViolationType,
    /// The operations involved.
    pub operations: Vec<OperationId>,
    /// Why this is a violation.
    pub description: String,
    /// The state at which it was detected.
    pub state_description: Option<String>,
}

impl Violation {
    /// A violation without operations or state.
    pub fn new(violation_type: ViolationType, description: String) -> (r: Self)
        ensures
            r.violation_type == violation_type,
            r.description == description,
            r.operations@.len() == 0,
            r.state_description is None,
    {
        Violation { violation_type, operations: Vec::new(), description, state_description: None }
    }

    /// Sets the involved operations.
    pub fn with_operations(self, ops: Vec<OperationId>) -> (r: Self)
        ensures
            r.operations == ops,
            r.violation_type == self.violation_type,
            r.description == self.description,
            r.state_description == self.state_description,
    {
        Violation { operations: ops, ..self }
    }

    /// Sets the state description.
    pub fn with_state(self, state: String) -> (r: Self)
        ensures
            r.state_description == Some(state),
            r.violation_type == self.violation_type,
            r.description == self.description,
            r.operations == self.operations,
    {
        Violation { state_description: Some(state), ..self }
    }
}

/// Statistics about the checking process.
#[derive(Debug, Clone, Default)]
pub struct CheckStats {
    /// Number of operations in the history.
    pub num_operations: usize,
    /// Number of states explored.
    pub states_explored: u64,
    /// Number of linearizations tried.
    pub linearizations_tried: u64,
    /// Maximum search depth reached.
    pub max_depth: usize,
    /// Number of backtracks.
    pub backtracks: u64,
    /// Number of pruned branches.
    pub pruned: u64,
    /// Peak memory usage in bytes, if tracked.
    pub peak_memory_bytes: Option<usize>,
}

impl CheckStats {
    /// All counters zero.
    pub fn new() -> (r: Self)
        ensures
            r.num_operations == 0 && r.states_explored == 0 && r.linearizations_tried == 0,
            r.max_depth == 0 && r.backtracks == 0 && r.pruned == 0 && r.peak_memory_bytes is None,
    {
        CheckStats {
            num_operations: 0,
            states_explored: 0,
            linearizations_tried: 0,
            max_depth: 0,
            backtracks: 0,
            pruned: 0,
            peak_memory_bytes: None,
        }
    }

    /// Records exploring a state.
    pub fn record_state(&mut self)
        requires
            old(self).states_explored < u64::MAX,
        ensures
            *final(self) == (CheckStats { states_explored: (old(self).states_explored + 1) as u64, ..*old(self) }),
    {
        self.states_explored = self.states_explored + 1;
    }

    /// Records trying a linearization.
    pub fn record_linearization(&mut self)
        requires
            old(self).linearizations_tried < u64::MAX,
        ensures
            *final(self) == (CheckStats { linearizations_tried: (old(self).linearizations_tried + 1) as u64, ..*old(self) }),
    {
        self.linearizations_tried = self.linearizations_tried + 1;
    }

    /// Records a backtrack.
    pub fn record_backtrack(&mut self)
        requires
            old(self).backtracks < u64::MAX,
        ensures
            *final(self) == (CheckStats { backtracks: (old(self).backtracks + 1) as u64, ..*old(self) }),
    {
        self.backtracks = self.backtracks + 1;
    }

    /// Records pruning a branch.
    pub fn record_prune(&mut self)
        requires
            old(self).pruned < u64::MAX,
        ensures
            *final(self) == (CheckStats { pruned: (old(self).pruned + 1) as u64, ..*old(self) }),
    {
        self.pruned = self.pruned + 1;
    }

    /// Raises the maximum depth to `depth` if larger.
    pub fn update_depth(&mut self, depth: usize)
        ensures
            *final(self) == (CheckStats { max_depth: if depth > old(self).max_depth { depth } else { old(self).max_depth }, ..*old(self) }),
    {
        if depth > self.max_depth {
            self.max_depth = depth;
        }
    }
}

/// The result of a consistency check.
#[derive(Debug, Clone)]
pub struct CheckResult {
    /// The overall status.
    pub status: CheckStatus,
    /// Counterexample if the check failed.
    pub counterexample: Option<Counterexample>,
    /// Violations found.
    pub violations: Vec<Violation>,
    /// Time taken.
    pub duration: Option<Duration>,
    /// Diagnostic messages.
    pub diagnostics: Vec<String>,
    /// Statistics.
    pub stats: CheckStats,
}

/// A fresh result with the given status and counterexample and nothing else.
pub open spec fn bare_result(r: CheckResult, status: CheckStatus, ce: Option<Counterexample>) -> bool {
    &&& r.status == status
    &&& r.counterexample == ce
    &&& r.violations@.len() == 0
    &&& r.duration is None
    &&& r.diagnostics@.len() == 0
}

impl CheckResult {
    fn bare(status: CheckStatus, counterexample: Option<Counterexample>) -> (r: Self)
        ensures
            bare_result(r, status, counterexample),
    {
        CheckResult {
            status,
            counterexample,
            violations: Vec::new(),
            duration: None,
            diagnostics: Vec::new(),
            stats: CheckStats::new(),
        }
    }

    /// A passing result.
    pub fn pass() -> (r: Self)
        ensures
            bare_result(r, CheckStatus::Pass, None),
    {
        CheckResult::bare(CheckStatus::Pass, None)
    }

    /// A failing result with a counterexample.
    pub fn fail(counterexample: Counterexample) -> (r: Self)
        ensures
            bare_result(r, CheckStatus::Fail, Some(counterexample)),
    {
        CheckResult::bare(CheckStatus::Fail, Some(counterexample))
    }

    /// An inconclusive result.
    pub fn unknown(reason: String) -> (r: Self)
        ensures
            bare_result(r, CheckStatus::Unknown(reason), None),
    {
        CheckResult::bare(CheckStatus::Unknown(reason), None)
    }

    /// An error result.
    pub fn error(message: String) -> (r: Self)
        ensures
            bare_result(r, CheckStatus::Error(message), None),
    {
        CheckResult::bare(CheckStatus::Error(message), None)
    }

    /// Sets the duration.
    pub fn with_duration(self, duration: Duration) -> (r: Self)
        ensures
            r == (CheckResult { duration: Some(duration), ..self }),
    {
        CheckResult { duration: Some(duration), ..self }
    }

    /// Sets the violations.
    pub fn with_violations(self, violations: Vec<Violation>) -> (r: Self)
        ensures
            r == (CheckResult { violations, ..self }),
    {
        CheckResult { violations, ..self }
    }

    /// Appends a diagnostic message.
    pub fn with_diagnostic(self, message: String) -> (r: Self)
        ensures
            r.diagnostics@ == self.diagnostics@.push(message),
            r.status == self.status && r.counterexample == self.counterexample,
            r.violations == self.violations && r.duration == self.duration && r.stats == self.stats,
    {
        let mut s = self;
        s.diagnostics.push(message);
        s
    }

    /// Sets the statistics.
    pub fn with_stats(self, stats: CheckStats) -> (r: Self)
        ensures
            r == (CheckResult { stats, ..self }),
    {
        CheckResult { stats, ..self }
    }

    /// Whether the status is Pass.
    pub fn is_pass(&self) -> (r: bool)
        ensures
            r == (self.status is Pass),
    {
        match self.status {
            CheckStatus::Pass => true,
            _ => false,
        }
    }

    /// Whether the status is Fail.
    pub fn is_fail(&self) -> (r: bool)
        ensures
            r == (self.status is Fail),
    {
        match self.status {
            CheckStatus::Fail => true,
            _ => false,
        }
    }

    /// Whether the status is Unknown.
    pub fn is_unknown(&self) -> (r: bool)
        ensures
            r == (self.status is Unknown),
    {
        match self.status {
            CheckStatus::Unknown(_) => true,
            _ => false,
        }
    }
}

} // verus!
