//! What generators see while they generate: model state, a summary of the
//! history so far, active faults and the processes there are.
use vstd::prelude::*;
use crate::node::ProcessId;
use crate::named::{named_value, distinct_names, set_named, get_named};
use crate::text::{empty_string, push_str, to_owned_string};

verus! {

/// The kind of a fault active in the system.
#[derive(Debug, Clone, PartialEq, Eq, Hash)]
pub enum FaultType {
    /// A network partition between processes.
    NetworkPartition,
    /// A process crash.
    ProcessCrash,
    /// Message delay.
    MessageDelay,
    /// Message loss.
    MessageLoss,
    /// Clock skew.
    ClockSkew,
    /// A disk failure.
    DiskFailure,
    /// Another kind, by name.
    Custom(String),
}

/// The display form of a fault kind.
pub open spec fn fault_type_text(f: FaultType) -> Seq<char> {
    match f {
        FaultType::NetworkPartition => "NetworkPartition"@,
        FaultType::ProcessCrash => "ProcessCrash"@,
        FaultType::MessageDelay => "MessageDelay"@,
        FaultType::MessageLoss => "MessageLoss"@,
        FaultType::ClockSkew => "ClockSkew"@,
        FaultType::DiskFailure => "DiskFailure"@,
        FaultType::Custom(n) => "Custom("@ + n@ + ")"@,
    }
}

impl FaultType {
    /// The display form of the fault kind.
    pub fn to_string(&self) -> (r: String)
        ensures
            r@ == fault_type_text(*self),
    {
        match self {
            FaultType::NetworkPartition => to_owned_string("NetworkPartition"),
            FaultType::ProcessCrash => to_owned_string("ProcessCrash"),
            FaultType::MessageDelay => to_owned_string("MessageDelay"),
            FaultType::MessageLoss => to_owned_string("MessageLoss"),
            FaultType::ClockSkew => to_owned_string("ClockSkew"),
            FaultType::DiskFailure => to_owned_string("DiskFailure"),
            FaultType::Custom(n) => {
                let mut s = empty_string();
                push_str(&mut s, "Custom(");
                push_str(&mut s, n.as_str());
                push_str(&mut s, ")");
                s
            },
        }
    }
}

/// A fault active in the system.
#[derive(Debug, Clone)]
pub struct ActiveFault {
    /// The kind of fault.
    pub fault_type: FaultType,
    /// The processes it affects.
    pub affected_processes: Vec<ProcessId>,
    /// When it started (logical time).
    pub start_time: u64,
    /// When it ends, if known.
    pub end_time: Option<u64>,
    /// Further parameters, by name.
    pub parameters: Vec<(String, String)>,
}

/// The fault has ended by the time: it has an end and the time is not
/// before it.
pub open spec fn fault_ended_at(f: ActiveFault, time: u64) -> bool {
    match f.end_time {
        Some(end) => time >= end,
        None => false,
    }
}

/// The fault is active at `time`: it has started and not ended.
pub open spec fn fault_active_at(f: ActiveFault, time: u64) -> bool {
    time >= f.start_time && match f.end_time {
        Some(end) => time < end,
        None => true,
    }
}

/// The fault affects `p`.
pub open spec fn fault_affects(f: ActiveFault, p: ProcessId) -> bool {
    f.affected_processes@.contains(p)
}

/// `m2` is `m` with `k` bound to a string whose text is `v`.
pub open spec fn text_updated(m: Seq<(String, String)>, m2: Seq<(String, String)>, k: Seq<char>, v: Seq<char>) -> bool {
    &&& distinct_names(m2)
    &&& named_value(m2, k) matches Some(x) && x@ == v
    &&& forall|q: Seq<char>| q != k ==> #[trigger] named_value(m2, q) == named_value(m, q)
}

impl ActiveFault {
    /// A fault from `start_time` on, with no end and no parameters.
    pub fn new(fault_type: FaultType, affected: Vec<ProcessId>, start_time: u64) -> (r: Self)
        ensures
            r.fault_type == fault_type,
            r.affected_processes == affected,
            r.start_time == start_time,
            r.end_time is None,
            r.parameters@.len() == 0,
    {
        ActiveFault { fault_type, affected_processes: affected, start_time, end_time: None, parameters: Vec::new() }
    }

    /// Sets the end time.
    pub fn with_end_time(self, end_time: u64) -> (r: Self)
        ensures
            r == (ActiveFault { end_time: Some(end_time), ..self }),
    {
        ActiveFault { end_time: Some(end_time), ..self }
    }

    /// Binds a parameter, replacing an earlier binding of the name.
    pub fn with_parameter(self, key: &str, value: &str) -> (r: Self)
        requires
            distinct_names(self.parameters@),
        ensures
            text_updated(self.parameters@, r.parameters@, key@, value@),
            r == (ActiveFault { parameters: r.parameters, ..self }),
    {
        let mut f = self;
        set_named(&mut f.parameters, to_owned_string(key), to_owned_string(value));
        f
    }

    /// Whether the fault affects the process.
    pub fn affects(&self, process: ProcessId) -> (r: bool)
        ensures
            r == fault_affects(*self, process),
    {
        let n = self.affected_processes.len();
        let mut i: usize = 0;
        while i < n
            invariant
                n == self.affected_processes@.len(),
                i <= n,
                forall|j: int| 0 <= j < i ==> self.affected_processes@[j] != process,
            decreases n - i,
        {
            if self.affected_processes[i] == process {
                assert(self.affected_processes@[i as int] == process);
                return true;
            }
            i = i + 1;
        }
        false
    }

    /// Whether the fault is active at the time (see `fault_active_at`).
    pub fn is_active_at(&self, time: u64) -> (r: bool)
        ensures
            r == fault_active_at(*self, time),
    {
        time >= self.start_time && match self.end_time {
            Some(end) => time < end,
            None => true,
        }
    }
}

/// The count recorded for a process: its entry, or 0.
pub open spec fn pid_count(s: Seq<(ProcessId, u64)>, p: ProcessId) -> nat {
    if exists|i: int| 0 <= i < s.len() && (#[trigger] s[i]).0 == p {
        s[choose|i: int| 0 <= i < s.len() && (#[trigger] s[i]).0 == p].1 as nat
    } else {
        0
    }
}

/// No process occurs twice.
pub open spec fn distinct_pids(s: Seq<(ProcessId, u64)>) -> bool {
    forall|i: int, j: int| #![trigger s[i], s[j]] 0 <= i < s.len() && 0 <= j < s.len() && i != j ==> s[i].0 != s[j].0
}

/// The count recorded for a name: its entry, or 0.
pub open spec fn name_count(s: Seq<(String, u64)>, k: Seq<char>) -> nat {
    match named_value(s, k) {
        Some(c) => c as nat,
        None => 0,
    }
}

/// Adds one to the count of `p`.
fn bump_pid(s: &mut Vec<(ProcessId, u64)>, p: ProcessId)
    requires
        distinct_pids(old(s)@),
        pid_count(old(s)@, p) < u64::MAX,
    ensures
        distinct_pids(final(s)@),
        forall|q: ProcessId| #[trigger] pid_count(final(s)@, q) == pid_count(old(s)@, q) + if q == p { 1nat } else { 0nat },
{
    let ghost s0 = s@;
    let n = s.len();
    let mut i: usize = 0;
    while i < n
        invariant
            n == s@.len(),
            s@ == s0,
            s0 == old(s)@,
            distinct_pids(s0),
            pid_count(s0, p) < u64::MAX,
            i <= n,
            forall|j: int| 0 <= j < i ==> (#[trigger] s@[j]).0 != p,
        decreases n - i,
    {
        if s[i].0 == p {
            let c = s[i].1;
            proof {
                assert(s0[i as int].0 == p);
                let k = choose|k: int| 0 <= k < s0.len() && (#[trigger] s0[k]).0 == p;
                if k != i as int {
                    assert(s0[k].0 != s0[i as int].0);
                }
            }
            s.set(i, (p, c + 1));
            proof {
                assert forall|a: int, b: int| #![trigger s@[a], s@[b]] 0 <= a < s@.len() && 0 <= b < s@.len() && a != b
                    implies s@[a].0 != s@[b].0 by {
                    assert(s0[a].0 != s0[b].0);
                }
                assert forall|q: ProcessId| #[trigger] pid_count(s@, q) == pid_count(s0, q) + if q == p { 1nat } else { 0nat } by {
                    if exists|k: int| 0 <= k < s0.len() && (#[trigger] s0[k]).0 == q {
                        let k = choose|k: int| 0 <= k < s0.len() && (#[trigger] s0[k]).0 == q;
                        assert(s@[k].0 == q);
                        let k2 = choose|k2: int| 0 <= k2 < s@.len() && (#[trigger] s@[k2]).0 == q;
                        if k2 != k {
                            assert(s@[k2].0 != s@[k].0);
                        }
                    }
                    if exists|k: int| 0 <= k < s@.len() && (#[trigger] s@[k]).0 == q {
                        let k = choose|k: int| 0 <= k < s@.len() && (#[trigger] s@[k]).0 == q;
                        assert(s0[k].0 == q);
                    }
                }
            }
            return;
        }
        i = i + 1;
    }
    s.push((p, 1));
    proof {
        let last = s@.len() - 1;
        assert forall|a: int, b: int| #![trigger s@[a], s@[b]] 0 <= a < s@.len() && 0 <= b < s@.len() && a != b
            implies s@[a].0 != s@[b].0 by {
            if a < last && b < last {
                assert(s0[a].0 != s0[b].0);
            } else if a < last {
                assert(s@[a] == s0[a]);
            } else {
                assert(s@[b] == s0[b]);
            }
        }
        assert forall|q: ProcessId| #[trigger] pid_count(s@, q) == pid_count(s0, q) + if q == p { 1nat } else { 0nat } by {
            if q == p {
                assert(s@[last].0 == p);
                let k2 = choose|k2: int| 0 <= k2 < s@.len() && (#[trigger] s@[k2]).0 == q;
                if k2 != last {
                    assert(s@[k2] == s0[k2]);
                }
            } else {
                if exists|k: int| 0 <= k < s0.len() && (#[trigger] s0[k]).0 == q {
                    let k = choose|k: int| 0 <= k < s0.len() && (#[trigger] s0[k]).0 == q;
                    assert(s@[k] == s0[k]);
                    let k2 = choose|k2: int| 0 <= k2 < s@.len() && (#[trigger] s@[k2]).0 == q;
                    if k2 != k {
                        assert(s@[k2].0 != s@[k].0);
                    }
                }
                if exists|k: int| 0 <= k < s@.len() && (#[trigger] s@[k]).0 == q {
                    let k = choose|k: int| 0 <= k < s@.len() && (#[trigger] s@[k]).0 == q;
                    assert(k != last);
                    assert(s@[k] == s0[k]);
                }
            }
        }
    }
}

/// Adds one to the count of a name.
fn bump_name(s: &mut Vec<(String, u64)>, k: &str)
    requires
        distinct_names(old(s)@),
        name_count(old(s)@, k@) < u64::MAX,
    ensures
        distinct_names(final(s)@),
        forall|q: Seq<char>| #[trigger] name_count(final(s)@, q) == name_count(old(s)@, q) + if q == k@ { 1nat } else { 0nat },
{
    let c: u64 = match get_named(s, k) {
        Some(c) => *c,
        None => 0,
    };
    set_named(s, to_owned_string(k), c + 1);
}

/// Summary statistics of the history so far.
#[derive(Debug, Clone)]
pub struct HistorySummary {
    /// Operations executed.
    pub total_operations: u64,
    /// Operations that succeeded.
    pub successful_operations: u64,
    /// Operations that failed.
    pub failed_operations: u64,
    /// Operations per process.
    pub operations_per_process: Vec<(ProcessId, u64)>,
    /// Operations per type, for operations with a type.
    pub operation_type_counts: Vec<(String, u64)>,
    /// The current logical time.
    pub current_timestamp: u64,
    /// Invariant checks performed.
    pub invariant_checks: u64,
    /// Invariant violations found.
    pub invariant_violations: u64,
}

impl HistorySummary {
    /// Well formed: no process and no type is counted twice.
    pub open spec fn wf(self) -> bool {
        distinct_pids(self.operations_per_process@) && distinct_names(self.operation_type_counts@)
    }

    /// Nothing recorded yet.
    pub open spec fn is_fresh(self) -> bool {
        &&& self.total_operations == 0
        &&& self.successful_operations == 0
        &&& self.failed_operations == 0
        &&& self.operations_per_process@.len() == 0
        &&& self.operation_type_counts@.len() == 0
        &&& self.current_timestamp == 0
        &&& self.invariant_checks == 0
        &&& self.invariant_violations == 0
    }

    /// An empty summary.
    pub fn new() -> (r: Self)
        ensures
            r.is_fresh(),
            r.wf(),
    {
        HistorySummary {
            total_operations: 0,
            successful_operations: 0,
            failed_operations: 0,
            operations_per_process: Vec::new(),
            operation_type_counts: Vec::new(),
            current_timestamp: 0,
            invariant_checks: 0,
            invariant_violations: 0,
        }
    }

    /// Records an executed operation: one more operation in all, as a
    /// success or a failure, for its process and its type, and one tick
    /// of logical time.
    pub fn record_operation(&mut self, process: ProcessId, success: bool, op_type: Option<&str>)
        requires
            old(self).wf(),
            old(self).total_operations < u64::MAX,
            success ==> old(self).successful_operations < u64::MAX,
            !success ==> old(self).failed_operations < u64::MAX,
            old(self).current_timestamp < u64::MAX,
            pid_count(old(self).operations_per_process@, process) < u64::MAX,
            op_type matches Some(t) ==> name_count(old(self).operation_type_counts@, t@) < u64::MAX,
        ensures
            final(self).wf(),
            final(self).total_operations == old(self).total_operations + 1,
            final(self).successful_operations == old(self).successful_operations + if success { 1int } else { 0int },
            final(self).failed_operations == old(self).failed_operations + if success { 0int } else { 1int },
            forall|q: ProcessId| #[trigger] pid_count(final(self).operations_per_process@, q)
                == pid_count(old(self).operations_per_process@, q) + if q == process { 1nat } else { 0nat },
            forall|t: Seq<char>| #[trigger] name_count(final(self).operation_type_counts@, t)
                == name_count(old(self).operation_type_counts@, t) + if op_type matches Some(o) && o@ == t { 1nat } else { 0nat },
            final(self).current_timestamp == old(self).current_timestamp + 1,
            final(self).invariant_checks == old(self).invariant_checks,
            final(self).invariant_violations == old(self).invariant_violations,
    {
        self.total_operations = self.total_operations + 1;
        if success {
            self.successful_operations = self.successful_operations + 1;
        } else {
            self.failed_operations = self.failed_operations + 1;
        }
        bump_pid(&mut self.operations_per_process, process);
        match op_type {
            Some(t) => bump_name(&mut self.operation_type_counts, t),
            None => {},
        }
        self.current_timestamp = self.current_timestamp + 1;
    }

    /// Records an invariant check, and a violation when it was violated.
    pub fn record_invariant_check(&mut self, violated: bool)
        requires
            old(self).invariant_checks < u64::MAX,
            violated ==> old(self).invariant_violations < u64::MAX,
        ensures
            *final(self) == (HistorySummary {
                invariant_checks: (old(self).invariant_checks + 1) as u64,
                invariant_violations: if violated { (old(self).invariant_violations + 1) as u64 } else { old(self).invariant_violations },
                ..*old(self)
            }),
    {
        self.invariant_checks = self.invariant_checks + 1;
        if violated {
            self.invariant_violations = self.invariant_violations + 1;
        }
    }

    /// The operations recorded for a process.
    pub fn operations_for_process(&self, process: ProcessId) -> (r: u64)
        requires
            distinct_pids(self.operations_per_process@),
        ensures
            r == pid_count(self.operations_per_process@, process),
    {
        let n = self.operations_per_process.len();
        let mut i: usize = 0;
        while i < n
            invariant
                n == self.operations_per_process@.len(),
                distinct_pids(self.operations_per_process@),
                i <= n,
                forall|j: int| 0 <= j < i ==> (#[trigger] self.operations_per_process@[j]).0 != process,
            decreases n - i,
        {
            if self.operations_per_process[i].0 == process {
                proof {
                    let s = self.operations_per_process@;
                    assert(s[i as int].0 == process);
                    let k = choose|k: int| 0 <= k < s.len() && (#[trigger] s[k]).0 == process;
                    if k != i as int {
                        assert(s[k].0 != s[i as int].0);
                    }
                }
                return self.operations_per_process[i].1;
            }
            i = i + 1;
        }
        0
    }

    /// The operations recorded for a type.
    pub fn operations_of_type(&self, op_type: &str) -> (r: u64)
        requires
            distinct_names(self.operation_type_counts@),
        ensures
            r == name_count(self.operation_type_counts@, op_type@),
    {
        match get_named(&self.operation_type_counts, op_type) {
            Some(c) => *c,
            None => 0,
        }
    }

    /// The success rate as a fraction `(successes, operations)`; `(1, 1)`
    /// before any operation.
    pub fn success_fraction(&self) -> (r: (u64, u64))
        ensures
            self.total_operations == 0 ==> r == (1u64, 1u64),
            self.total_operations != 0 ==> r == (self.successful_operations, self.total_operations),
    {
        if self.total_operations == 0 {
            (1, 1)
        } else {
            (self.successful_operations, self.total_operations)
        }
    }

    /// The violation rate as a fraction `(violations, checks)`; `(0, 1)`
    /// before any check.
    pub fn violation_fraction(&self) -> (r: (u64, u64))
        ensures
            self.invariant_checks == 0 ==> r == (0u64, 1u64),
            self.invariant_checks != 0 ==> r == (self.invariant_violations, self.invariant_checks),
    {
        if self.invariant_checks == 0 {
            (0, 1)
        } else {
            (self.invariant_violations, self.invariant_checks)
        }
    }
}

impl Default for HistorySummary {
    fn default() -> (r: Self)
        ensures
            r.is_fresh(),
            r.wf(),
    {
        HistorySummary::new()
    }
}

/// What a generator context holds.
pub struct ContextView {
    /// The model state, serialised.
    pub model_state: Option<Seq<u8>>,
    /// The history summary.
    pub history: HistorySummary,
    /// The active faults, in the order they were added.
    pub active_faults: Seq<ActiveFault>,
    /// The processes there are.
    pub available_processes: Seq<ProcessId>,
    /// Custom data, by name.
    pub custom_data: Seq<(String, String)>,
    /// The current round.
    pub round: u64,
    /// The limit on operations, if any.
    pub max_operations: Option<u64>,
}

/// The runtime context generators see while they generate.
#[derive(Debug, Clone)]
pub struct GeneratorContext {
    model_state: Option<Vec<u8>>,
    history: HistorySummary,
    active_faults: Vec<ActiveFault>,
    available_processes: Vec<ProcessId>,
    custom_data: Vec<(String, String)>,
    round: u64,
    max_operations: Option<u64>,
}

impl View for GeneratorContext {
    type V = ContextView;

    closed spec fn view(&self) -> ContextView {
        ContextView {
            model_state: match self.model_state {
                Some(b) => Some(b@),
                None => None,
            },
            history: self.history,
            active_faults: self.active_faults@,
            available_processes: self.available_processes@,
            custom_data: self.custom_data@,
            round: self.round,
            max_operations: self.max_operations,
        }
    }
}

/// Some active fault affects `p`.
pub open spec fn faulted(faults: Seq<ActiveFault>, p: ProcessId) -> bool {
    exists|i: int| 0 <= i < faults.len() && fault_affects(#[trigger] faults[i], p)
}

impl GeneratorContext {
    /// Well formed: no custom name occurs twice.
    pub open spec fn wf(&self) -> bool {
        distinct_names(self@.custom_data)
    }

    /// An empty context: no state, no history, no faults, no processes.
    pub fn new() -> (r: Self)
        ensures
            r.wf(),
            r@.model_state is None,
            r@.history.is_fresh(),
            r@.history.wf(),
            r@.active_faults.len() == 0,
            r@.available_processes.len() == 0,
            r@.custom_data.len() == 0,
            r@.round == 0,
            r@.max_operations is None,
    {
        GeneratorContext {
            model_state: None,
            history: HistorySummary::new(),
            active_faults: Vec::new(),
            available_processes: Vec::new(),
            custom_data: Vec::new(),
            round: 0,
            max_operations: None,
        }
    }

    /// An empty context with the given processes.
    pub fn with_processes(processes: Vec<ProcessId>) -> (r: Self)
        ensures
            r.wf(),
            r@.model_state is None,
            r@.history.is_fresh(),
            r@.history.wf(),
            r@.active_faults.len() == 0,
            r@.available_processes == processes@,
            r@.custom_data.len() == 0,
            r@.round == 0,
            r@.max_operations is None,
    {
        GeneratorContext { available_processes: processes, ..GeneratorContext::new() }
    }

    /// Stores the serialised model state.
    pub fn set_model_state_bytes(&mut self, state: Vec<u8>)
        ensures
            final(self)@ == (ContextView { model_state: Some(state@), ..old(self)@ }),
    {
        self.model_state = Some(state);
    }

    /// The serialised model state.
    pub fn model_state_bytes(&self) -> (r: Option<&[u8]>)
        ensures
            match self@.model_state {
                Some(b) => r matches Some(x) && x@ == b,
                None => r is None,
            },
    {
        match &self.model_state {
            Some(b) => Some(b.as_slice()),
            None => None,
        }
    }

    /// The history summary.
    pub fn history(&self) -> (r: &HistorySummary)
        ensures
            *r == self@.history,
    {
        &self.history
    }

    /// The history summary, to change it.
    pub fn history_mut(&mut self) -> (r: &mut HistorySummary)
        ensures
            *r == old(self)@.history,
            final(self)@ == (ContextView { history: *final(r), ..old(self)@ }),
    {
        &mut self.history
    }

    /// The active faults.
    pub fn active_faults(&self) -> (r: &[ActiveFault])
        ensures
            r@ == self@.active_faults,
    {
        self.active_faults.as_slice()
    }

    /// Adds an active fault at the end.
    pub fn add_fault(&mut self, fault: ActiveFault)
        ensures
            final(self)@ == (ContextView { active_faults: old(self)@.active_faults.push(fault), ..old(self)@ }),
    {
        self.active_faults.push(fault);
    }

    /// Removes the faults that have ended by `time`, keeping the order of
    /// the others (including those that have not started yet).
    pub fn expire_faults(&mut self, time: u64)
        ensures
            final(self)@ == (ContextView {
                active_faults: old(self)@.active_faults.filter(|f: ActiveFault| !fault_ended_at(f, time)),
                ..old(self)@
            }),
    {
        let ghost orig = self.active_faults@;
        let ghost keep = |f: ActiveFault| !fault_ended_at(f, time);
        let mut rest: Vec<ActiveFault> = Vec::new();
        std::mem::swap(&mut rest, &mut self.active_faults);
        let n = rest.len();
        let mut i: usize = 0;
        assert(orig.take(0).filter(keep) =~= Seq::<ActiveFault>::empty()) by {
            reveal(Seq::filter);
        }
        while i < n
            invariant
                n == orig.len(),
                i <= n,
                rest@ == orig.skip(i as int),
                self.active_faults@ == orig.take(i as int).filter(keep),
                self.model_state == old(self).model_state,
                self.history == old(self).history,
                self.available_processes == old(self).available_processes,
                self.custom_data == old(self).custom_data,
                self.round == old(self).round,
                self.max_operations == old(self).max_operations,
                keep == (|f: ActiveFault| !fault_ended_at(f, time)),
            decreases n - i,
        {
            let f = rest.remove(0);
            proof {
                assert(f == orig[i as int]);
                assert(rest@ =~= orig.skip(i as int + 1));
                assert(orig.take(i as int + 1).drop_last() =~= orig.take(i as int));
                reveal(Seq::filter);
            }
            let ended = match f.end_time {
                Some(end) => time >= end,
                None => false,
            };
            if !ended {
                self.active_faults.push(f);
            }
            i = i + 1;
        }
        assert(orig.take(n as int) =~= orig);
    }

    /// Whether some active fault affects the process.
    pub fn is_process_faulted(&self, process: ProcessId) -> (r: bool)
        ensures
            r == faulted(self@.active_faults, process),
    {
        let n = self.active_faults.len();
        let mut i: usize = 0;
        while i < n
            invariant
                n == self.active_faults@.len(),
                i <= n,
                forall|j: int| 0 <= j < i ==> !fault_affects(#[trigger] self.active_faults@[j], process),
            decreases n - i,
        {
            if self.active_faults[i].affects(process) {
                return true;
            }
            i = i + 1;
        }
        false
    }

    /// The active faults that affect the process, in order.
    pub fn faults_for_process(&self, process: ProcessId) -> (r: Vec<&ActiveFault>)
        ensures
            r@.map_values(|f: &ActiveFault| *f) == self@.active_faults.filter(|f: ActiveFault| fault_affects(f, process)),
    {
        let ghost sel = |f: ActiveFault| fault_affects(f, process);
        let mut out: Vec<&ActiveFault> = Vec::new();
        let n = self.active_faults.len();
        let mut i: usize = 0;
        assert(self.active_faults@.take(0).filter(sel) =~= Seq::<ActiveFault>::empty()) by {
            reveal(Seq::filter);
        }
        while i < n
            invariant
                n == self.active_faults@.len(),
                i <= n,
                sel == (|f: ActiveFault| fault_affects(f, process)),
                out@.map_values(|f: &ActiveFault| *f) == self.active_faults@.take(i as int).filter(sel),
            decreases n - i,
        {
            proof {
                assert(self.active_faults@.take(i as int + 1).drop_last() =~= self.active_faults@.take(i as int));
                reveal(Seq::filter);
            }
            if self.active_faults[i].affects(process) {
                let ghost before = out@;
                out.push(&self.active_faults[i]);
                assert(out@.map_values(|f: &ActiveFault| *f) =~= before.map_values(|f: &ActiveFault| *f).push(self.active_faults@[i as int]));
            }
            i = i + 1;
        }
        assert(self.active_faults@.take(n as int) =~= self.active_faults@);
        out
    }

    /// The processes there are.
    pub fn available_processes(&self) -> (r: &[ProcessId])
        ensures
            r@ == self@.available_processes,
    {
        self.available_processes.as_slice()
    }

    /// The processes that no active fault affects, in order.
    pub fn healthy_processes(&self) -> (r: Vec<ProcessId>)
        ensures
            r@ == self@.available_processes.filter(|p: ProcessId| !faulted(self@.active_faults, p)),
    {
        let ghost sel = |p: ProcessId| !faulted(self@.active_faults, p);
        let mut out: Vec<ProcessId> = Vec::new();
        let n = self.available_processes.len();
        let mut i: usize = 0;
        assert(self.available_processes@.take(0).filter(sel) =~= Seq::<ProcessId>::empty()) by {
            reveal(Seq::filter);
        }
        while i < n
            invariant
                n == self.available_processes@.len(),
                i <= n,
                sel == (|p: ProcessId| !faulted(self@.active_faults, p)),
                out@ == self.available_processes@.take(i as int).filter(sel),
            decreases n - i,
        {
            proof {
                assert(self.available_processes@.take(i as int + 1).drop_last() =~= self.available_processes@.take(i as int));
                reveal(Seq::filter);
            }
            let p = self.available_processes[i];
            if !self.is_process_faulted(p) {
                out.push(p);
            }
            i = i + 1;
        }
        assert(self.available_processes@.take(n as int) =~= self.available_processes@);
        out
    }

    /// Binds custom data, replacing an earlier binding of the name.
    pub fn set_custom(&mut self, key: &str, value: &str)
        requires
            old(self).wf(),
        ensures
            final(self).wf(),
            text_updated(old(self)@.custom_data, final(self)@.custom_data, key@, value@),
            final(self)@ == (ContextView { custom_data: final(self)@.custom_data, ..old(self)@ }),
    {
        set_named(&mut self.custom_data, to_owned_string(key), to_owned_string(value));
    }

    /// Custom data by name.
    pub fn get_custom(&self, key: &str) -> (r: Option<&str>)
        requires
            self.wf(),
        ensures
            match named_value(self@.custom_data, key@) {
                Some(v) => r matches Some(x) && x@ == v@,
                None => r is None,
            },
    {
        match get_named(&self.custom_data, key) {
            Some(v) => Some(v.as_str()),
            None => None,
        }
    }

    /// The current round.
    pub fn round(&self) -> (r: u64)
        ensures
            r == self@.round,
    {
        self.round
    }

    /// Moves to the next round.
    pub fn next_round(&mut self)
        requires
            old(self)@.round < u64::MAX,
        ensures
            final(self)@ == (ContextView { round: (old(self)@.round + 1) as u64, ..old(self)@ }),
    {
        self.round = self.round + 1;
    }

    /// Sets the limit on operations.
    pub fn set_max_operations(&mut self, max: u64)
        ensures
            final(self)@ == (ContextView { max_operations: Some(max), ..old(self)@ }),
    {
        self.max_operations = Some(max);
    }

    /// The limit on operations, if any.
    pub fn max_operations(&self) -> (r: Option<u64>)
        ensures
            r == self@.max_operations,
    {
        self.max_operations
    }

    /// Whether the history has reached the limit on operations.
    pub fn is_at_limit(&self) -> (r: bool)
        ensures
            r == match self@.max_operations {
                Some(max) => self@.history.total_operations >= max,
                None => false,
            },
    {
        match self.max_operations {
            Some(max) => self.history.total_operations >= max,
            None => false,
        }
    }

    /// The operations left before the limit (none below zero).
    pub fn remaining_operations(&self) -> (r: Option<u64>)
        ensures
            r == match self@.max_operations {
                Some(max) => Some(if self@.history.total_operations >= max { 0u64 } else { (max - self@.history.total_operations) as u64 }),
                None => None::<u64>,
            },
    {
        match self.max_operations {
            Some(max) => Some(max.saturating_sub(self.history.total_operations)),
            None => None,
        }
    }
}

impl Default for GeneratorContext {
    fn default() -> (r: Self)
        ensures
            r.wf(),
            r@.model_state is None,
            r@.history.is_fresh(),
            r@.active_faults.len() == 0,
            r@.available_processes.len() == 0,
            r@.custom_data.len() == 0,
            r@.round == 0,
            r@.max_operations is None,
    {
        GeneratorContext::new()
    }
}

} // verus!
