//! The state behind the handles of the C interface: the verifier that
//! hands out test ids, and a test's queue of operations, its results, its
//! faults and its lifecycle. Calling back into C, timing and cancellation
//! flags belong to the caller, which reports what happened to these state
//! machines and does what they decide.
use vstd::prelude::*;
use crate::text::{empty_string, push_str, to_owned_string};
use crate::ffi::{ExecutionMode, FaultInfo, FaultTarget, FaultType, OperationStatus, OperationType, ReportInner, TestState, VerifierErrorCode};

verus! {

/// Configuration of a verifier.
#[derive(Debug, Clone)]
pub struct VerifierConfig {
    /// Log level.
    pub log_level: String,
    /// Maximum concurrent tests.
    pub max_concurrent_tests: usize,
    /// Default timeout in milliseconds.
    pub default_timeout_ms: u64,
}

impl Default for VerifierConfig {
    fn default() -> (r: Self)
        ensures
            r.log_level@.len() == 0,
            r.max_concurrent_tests == 0,
            r.default_timeout_ms == 0,
    {
        VerifierConfig { log_level: empty_string(), max_concurrent_tests: 0, default_timeout_ms: 0 }
    }
}

/// The sequence without the occurrences of `x`.
pub open spec fn without(s: Seq<u64>, x: u64) -> Seq<u64>
    decreases s.len(),
{
    if s.len() == 0 {
        s
    } else if s.last() == x {
        without(s.drop_last(), x)
    } else {
        without(s.drop_last(), x).push(s.last())
    }
}

/// The verification engine's state: the tests it tracks and the next id.
pub struct VerifierInner {
    config: Option<VerifierConfig>,
    active_tests: Vec<u64>,
    next_test_id: u64,
    shutdown: bool,
}

impl VerifierInner {
    /// The id the next test gets.
    pub closed spec fn next_id(self) -> u64 {
        self.next_test_id
    }

    /// The registered tests, in registration order.
    pub closed spec fn tests(self) -> Seq<u64> {
        self.active_tests@
    }

    /// Whether the verifier was shut down.
    pub closed spec fn is_shut(self) -> bool {
        self.shutdown
    }

    /// Whether a configuration was loaded.
    pub closed spec fn has_config(self) -> bool {
        self.config is Some
    }

    /// A verifier with no configuration, no tests, handing out ids from 1.
    pub fn new() -> (r: Self)
        ensures
            r.next_id() == 1,
            r.tests().len() == 0,
            !r.is_shut(),
            !r.has_config(),
    {
        VerifierInner { config: None, active_tests: Vec::new(), next_test_id: 1, shutdown: false }
    }

    /// A verifier with the configuration of the file at `config_path`;
    /// an empty path is an error.
    pub fn with_config(config_path: &str) -> (r: Result<Self, String>)
        ensures
            config_path@.len() == 0 <==> r is Err,
            r matches Err(e) ==> e@ == "Config path cannot be empty"@,
            r matches Ok(v) ==> v.next_id() == 1 && v.tests().len() == 0 && !v.is_shut() && v.has_config(),
    {
        if config_path.unicode_len() == 0 {
            return Err(to_owned_string("Config path cannot be empty"));
        }
        let config = VerifierConfig {
            log_level: to_owned_string("info"),
            max_concurrent_tests: 4,
            default_timeout_ms: 60000,
        };
        Ok(VerifierInner { config: Some(config), active_tests: Vec::new(), next_test_id: 1, shutdown: false })
    }

    /// The loaded configuration, if any.
    pub fn config(&self) -> (r: Option<&VerifierConfig>)
        ensures
            r is Some == self.has_config(),
    {
        match &self.config {
            Some(c) => Some(c),
            None => None,
        }
    }

    /// Whether the verifier was shut down.
    pub fn is_shutdown(&self) -> (r: bool)
        ensures
            r == self.is_shut(),
    {
        self.shutdown
    }

    /// A fresh test id; ids count up from 1, wrapping at the end of the
    /// range.
    pub fn allocate_test_id(&mut self) -> (r: u64)
        ensures
            r == old(self).next_id(),
            final(self).next_id() == (if r == u64::MAX { 0 } else { (r + 1) as u64 }),
            final(self).tests() == old(self).tests(),
            final(self).is_shut() == old(self).is_shut(),
            final(self).has_config() == old(self).has_config(),
    {
        let id = self.next_test_id;
        self.next_test_id = id.wrapping_add(1);
        id
    }

    /// Tracks a test as active.
    pub fn register_test(&mut self, test_id: u64)
        ensures
            final(self).tests() == old(self).tests().push(test_id),
            final(self).next_id() == old(self).next_id(),
            final(self).is_shut() == old(self).is_shut(),
            final(self).has_config() == old(self).has_config(),
    {
        self.active_tests.push(test_id);
    }

    /// Stops tracking a test.
    pub fn unregister_test(&mut self, test_id: u64)
        ensures
            final(self).tests() == without(old(self).tests(), test_id),
            final(self).next_id() == old(self).next_id(),
            final(self).is_shut() == old(self).is_shut(),
            final(self).has_config() == old(self).has_config(),
    {
        let mut kept: Vec<u64> = Vec::new();
        let n = self.active_tests.len();
        let mut i: usize = 0;
        while i < n
            invariant
                n == self.active_tests@.len(),
                i <= n,
                kept@ == without(self.active_tests@.take(i as int), test_id),
            decreases n - i,
        {
            let t = self.active_tests[i];
            if t != test_id {
                kept.push(t);
            }
            assert(self.active_tests@.take(i as int + 1).drop_last() =~= self.active_tests@.take(i as int));
            i = i + 1;
        }
        assert(self.active_tests@.take(n as int) =~= self.active_tests@);
        self.active_tests = kept;
    }
}

impl Default for VerifierInner {
    fn default() -> (r: Self)
        ensures
            r.next_id() == 1,
            r.tests().len() == 0,
            !r.is_shut(),
    {
        VerifierInner::new()
    }
}

/// Unregistering a test leaves no trace of it and keeps the other tests in
/// their order.
pub proof fn law_unregister_removes(s: Seq<u64>, x: u64, y: u64)
    requires
        y != x,
    ensures
        !without(s, x).contains(x),
        without(s, x).contains(y) == s.contains(y),
        without(s.push(y), x) == without(s, x).push(y),
    decreases s.len(),
{
    if s.len() > 0 {
        law_unregister_removes(s.drop_last(), x, y);
        assert(s.drop_last().push(s.last()) == s);
        if without(s, x).contains(y) && !s.contains(y) {
            let k = choose|k: int| 0 <= k < without(s, x).len() && without(s, x)[k] == y;
            if s.last() != x && k == without(s, x).len() - 1 {
                assert(s[s.len() - 1] == y);
            } else {
                assert(without(s.drop_last(), x)[k] == y);
            }
        }
        if s.contains(y) && !without(s, x).contains(y) {
            let k = choose|k: int| 0 <= k < s.len() && s[k] == y;
            if k == s.len() - 1 {
                assert(without(s, x)[without(s, x).len() - 1] == y);
            } else {
                assert(s.drop_last()[k] == y);
                let j = choose|j: int| 0 <= j < without(s.drop_last(), x).len() && without(s.drop_last(), x)[j] == y;
                assert(without(s, x)[j] == y);
            }
        }
        if without(s, x).contains(x) {
            let k = choose|k: int| 0 <= k < without(s, x).len() && without(s, x)[k] == x;
            if s.last() != x && k == without(s, x).len() - 1 {
            } else {
                assert(without(s.drop_last(), x)[k] == x);
            }
        }
    }
    assert(s.push(y).drop_last() =~= s);
}

/// An operation queued in a test, with owned data.
#[derive(Debug, Clone)]
pub struct StoredOperation {
    /// Its id in the test.
    pub id: u64,
    /// Its kind.
    pub op_type: OperationType,
    /// The key.
    pub key: Vec<u8>,
    /// The value.
    pub value: Vec<u8>,
    /// The name of a custom operation.
    pub custom_name: String,
}

/// The result of an executed operation, with owned data.
#[derive(Debug, Clone)]
pub struct StoredOperationResult {
    /// The operation's id.
    pub operation_id: u64,
    /// How it ended.
    pub status: OperationStatus,
    /// The value it returned.
    pub value: Vec<u8>,
    /// The error it reported.
    pub error_message: Option<String>,
    /// How long it took, in nanoseconds.
    pub duration_ns: u64,
}

/// What the executor did with an operation.
#[derive(Debug)]
pub enum ExecOutcome {
    /// No executor is registered.
    NoExecutor,
    /// An executor is registered without a function.
    NoCallback,
    /// The executor returned a code, and filled in a result.
    Returned {
        /// The code it returned.
        code: VerifierErrorCode,
        /// The status it reported.
        status: OperationStatus,
        /// The value it reported.
        value: Vec<u8>,
        /// The error message it reported.
        error_message: Option<String>,
        /// How long the call took, in nanoseconds.
        duration_ns: u64,
    },
}

/// The outcome of a check of a test's history.
#[derive(Debug, Clone)]
pub struct CheckOutcome {
    /// Whether the check passed.
    pub passed: bool,
    /// Its message.
    pub message: String,
}

/// The name of an error code as its variant is written in Rust.
pub open spec fn error_code_name(c: VerifierErrorCode) -> Seq<char> {
    match c {
        VerifierErrorCode::Success => "Ok"@,
        VerifierErrorCode::NullPointer => "NullPointer"@,
        VerifierErrorCode::InvalidHandle => "InvalidHandle"@,
        VerifierErrorCode::InvalidUtf8 => "InvalidUtf8"@,
        VerifierErrorCode::InvalidState => "InvalidState"@,
        VerifierErrorCode::OutOfMemory => "OutOfMemory"@,
        VerifierErrorCode::Io => "Io"@,
        VerifierErrorCode::Timeout => "Timeout"@,
        VerifierErrorCode::Cancelled => "Cancelled"@,
        VerifierErrorCode::InvariantViolation => "InvariantViolation"@,
        VerifierErrorCode::Internal => "Internal"@,
        VerifierErrorCode::InvalidConfig => "InvalidConfig"@,
        VerifierErrorCode::FaultInjected => "FaultInjected"@,
        VerifierErrorCode::Unknown => "Unknown"@,
    }
}

/// The variant name of an error code.
fn error_code_name_str(c: VerifierErrorCode) -> (r: &'static str)
    ensures
        r@ == error_code_name(c),
{
    match c {
        VerifierErrorCode::Success => "Ok",
        VerifierErrorCode::NullPointer => "NullPointer",
        VerifierErrorCode::InvalidHandle => "InvalidHandle",
        VerifierErrorCode::InvalidUtf8 => "InvalidUtf8",
        VerifierErrorCode::InvalidState => "InvalidState",
        VerifierErrorCode::OutOfMemory => "OutOfMemory",
        VerifierErrorCode::Io => "Io",
        VerifierErrorCode::Timeout => "Timeout",
        VerifierErrorCode::Cancelled => "Cancelled",
        VerifierErrorCode::InvariantViolation => "InvariantViolation",
        VerifierErrorCode::Internal => "Internal",
        VerifierErrorCode::InvalidConfig => "InvalidConfig",
        VerifierErrorCode::FaultInjected => "FaultInjected",
        VerifierErrorCode::Unknown => "Unknown",
    }
}

/// The stored result of an operation given what the executor did.
pub open spec fn outcome_result(op_id: u64, o: ExecOutcome) -> (u64, OperationStatus, Seq<u8>, Option<Seq<char>>, u64) {
    match o {
        ExecOutcome::NoExecutor => (op_id, OperationStatus::Skipped, Seq::empty(), Some("No executor registered"@), 0),
        ExecOutcome::NoCallback => (op_id, OperationStatus::Skipped, Seq::empty(), Some("No executor callback"@), 0),
        ExecOutcome::Returned { code, status, value, error_message, duration_ns } =>
            if code == VerifierErrorCode::Success {
                (op_id, status, value@, match error_message { Some(m) => Some(m@), None => None }, duration_ns)
            } else {
                (op_id, OperationStatus::Failure, Seq::empty(),
                    Some("Executor returned error: "@ + error_code_name(code)), duration_ns)
            },
    }
}

/// A stored result as plain values.
pub open spec fn result_view(r: StoredOperationResult) -> (u64, OperationStatus, Seq<u8>, Option<Seq<char>>, u64) {
    (r.operation_id, r.status, r.value@, match r.error_message { Some(m) => Some(m@), None => None }, r.duration_ns)
}

/// The number of results with the given status.
pub open spec fn status_count(s: Seq<StoredOperationResult>, st: OperationStatus) -> nat
    decreases s.len(),
{
    if s.len() == 0 {
        0
    } else {
        status_count(s.drop_last(), st) + if s.last().status == st { 1nat } else { 0nat }
    }
}

/// The ids of a sequence of faults.
pub open spec fn fault_ids(s: Seq<FaultInfo>) -> Seq<u64> {
    s.map_values(|f: FaultInfo| f.id)
}

/// The faults other than the one with the given id.
pub open spec fn faults_without(s: Seq<FaultInfo>, id: u64) -> Seq<FaultInfo>
    decreases s.len(),
{
    if s.len() == 0 {
        s
    } else if s.last().id == id {
        faults_without(s.drop_last(), id)
    } else {
        faults_without(s.drop_last(), id).push(s.last())
    }
}

/// The state of one test: its settings, its queue of operations, the
/// results so far, its active faults and where it is in its lifecycle.
pub struct TestInner {
    id: u64,
    name: String,
    description: Option<String>,
    max_operations: u64,
    timeout_ms: u64,
    seed: u64,
    mode: ExecutionMode,
    verbose: bool,
    check_invariants: bool,
    fault_injection_enabled: bool,
    operations: Vec<StoredOperation>,
    next_op_id: u64,
    results: Vec<StoredOperationResult>,
    active_faults: Vec<FaultInfo>,
    next_fault_id: u64,
    state: TestState,
}

impl TestInner {
    /// The queued operations.
    pub closed spec fn ops(self) -> Seq<StoredOperation> {
        self.operations@
    }

    /// The results so far.
    pub closed spec fn outcomes(self) -> Seq<StoredOperationResult> {
        self.results@
    }

    /// The active faults, in injection order.
    pub closed spec fn faults(self) -> Seq<FaultInfo> {
        self.active_faults@
    }

    /// The id the next operation gets.
    pub closed spec fn next_op(self) -> u64 {
        self.next_op_id
    }

    /// The id the next fault gets.
    pub closed spec fn next_fault(self) -> u64 {
        self.next_fault_id
    }

    /// The lifecycle state.
    pub closed spec fn lifecycle(self) -> TestState {
        self.state
    }

    /// The settings that decide the run: the test's id, the operation
    /// limit, the timeout, and whether faults may be injected.
    pub closed spec fn settings(self) -> (u64, u64, u64, bool) {
        (self.id, self.max_operations, self.timeout_ms, self.fault_injection_enabled)
    }

    /// The execution options: the seed, the mode, verbose logging, and
    /// whether invariants are checked after each operation.
    pub closed spec fn options(self) -> (u64, ExecutionMode, bool, bool) {
        (self.seed, self.mode, self.verbose, self.check_invariants)
    }

    /// The test's name and description.
    pub closed spec fn title(self) -> (Seq<char>, Option<Seq<char>>) {
        (self.name@, match self.description { Some(d) => Some(d@), None => None })
    }

    /// Well-formed: operation ids increase and are below the next id;
    /// fault ids are distinct and below the next fault id.
    pub open spec fn wf(self) -> bool {
        &&& forall|i: int, j: int| 0 <= i < j < self.ops().len() ==> self.ops()[i].id < self.ops()[j].id
        &&& forall|i: int| 0 <= i < self.ops().len() ==> self.ops()[i].id < self.next_op()
        &&& forall|i: int, j: int| 0 <= i < j < self.faults().len() ==> self.faults()[i].id != self.faults()[j].id
        &&& forall|i: int| 0 <= i < self.faults().len() ==> self.faults()[i].id < self.next_fault()
    }

    /// Everything but the lifecycle state is the same.
    pub open spec fn same_data(self, other: TestInner) -> bool {
        &&& self.ops() == other.ops()
        &&& self.outcomes() == other.outcomes()
        &&& self.faults() == other.faults()
        &&& self.next_op() == other.next_op()
        &&& self.next_fault() == other.next_fault()
        &&& self.settings() == other.settings()
        &&& self.title() == other.title()
    }

    /// A test in setup, with nothing queued, no results, no faults, and
    /// ids counting from 1.
    pub fn new(
        id: u64,
        name: String,
        description: Option<String>,
        max_operations: u64,
        timeout_ms: u64,
        seed: u64,
        mode: ExecutionMode,
        verbose: bool,
        check_invariants: bool,
        fault_injection_enabled: bool,
    ) -> (r: Self)
        ensures
            r.wf(),
            r.lifecycle() == TestState::Setup,
            r.ops().len() == 0 && r.outcomes().len() == 0 && r.faults().len() == 0,
            r.next_op() == 1 && r.next_fault() == 1,
            r.settings() == (id, max_operations, timeout_ms, fault_injection_enabled),
            r.options() == (seed, mode, verbose, check_invariants),
            r.title() == (name@, match description { Some(d) => Some(d@), None => None }),
    {
        TestInner {
            id,
            name,
            description,
            max_operations,
            timeout_ms,
            seed,
            mode,
            verbose,
            check_invariants,
            fault_injection_enabled,
            operations: Vec::new(),
            next_op_id: 1,
            results: Vec::new(),
            active_faults: Vec::new(),
            next_fault_id: 1,
            state: TestState::Setup,
        }
    }

    /// The test's id.
    pub fn id(&self) -> (r: u64)
        ensures
            r == self.settings().0,
    {
        self.id
    }

    /// The test's name.
    pub fn name(&self) -> (r: &str)
        ensures
            r@ == self.title().0,
    {
        self.name.as_str()
    }

    /// The random seed.
    pub fn seed(&self) -> (r: u64)
        ensures
            r == self.options().0,
    {
        self.seed
    }

    /// The execution mode.
    pub fn mode(&self) -> (r: ExecutionMode)
        ensures
            r == self.options().1,
    {
        self.mode
    }

    /// Whether verbose logging was asked for.
    pub fn verbose(&self) -> (r: bool)
        ensures
            r == self.options().2,
    {
        self.verbose
    }

    /// Whether invariants are checked after each operation.
    pub fn check_invariants(&self) -> (r: bool)
        ensures
            r == self.options().3,
    {
        self.check_invariants
    }

    /// The timeout in milliseconds; 0 for none.
    pub fn timeout_ms(&self) -> (r: u64)
        ensures
            r == self.settings().2,
    {
        self.timeout_ms
    }

    /// The lifecycle state.
    pub fn state(&self) -> (r: TestState)
        ensures
            r == self.lifecycle(),
    {
        self.state
    }

    /// The id the next queued operation gets.
    pub fn next_operation_id(&self) -> (r: u64)
        ensures
            r == self.next_op(),
    {
        self.next_op_id
    }

    /// The id the next injected fault gets.
    pub fn next_fault_id(&self) -> (r: u64)
        ensures
            r == self.next_fault(),
    {
        self.next_fault_id
    }

    /// The number of queued operations.
    pub fn operation_count(&self) -> (r: usize)
        ensures
            r == self.ops().len(),
    {
        self.operations.len()
    }

    /// The queued operation at index `i`.
    pub fn operation(&self, i: usize) -> (r: &StoredOperation)
        requires
            i < self.ops().len(),
        ensures
            *r == self.ops()[i as int],
    {
        &self.operations[i]
    }

    /// The results so far.
    pub fn results(&self) -> (r: &[StoredOperationResult])
        ensures
            r@ == self.outcomes(),
    {
        self.results.as_slice()
    }

    /// Queues an operation during setup and returns its id; outside setup
    /// nothing is queued and the result is -1.
    pub fn add_operation(&mut self, op_type: OperationType, key: Vec<u8>, value: Vec<u8>, custom_name: String) -> (r: i64)
        requires
            old(self).wf(),
            old(self).next_op() < u64::MAX,
        ensures
            final(self).wf(),
            old(self).lifecycle() != TestState::Setup ==> r == -1 && *final(self) == *old(self),
            old(self).lifecycle() == TestState::Setup ==> {
                &&& r == old(self).next_op() as i64
                &&& final(self).next_op() == old(self).next_op() + 1
                &&& final(self).ops().len() == old(self).ops().len() + 1
                &&& final(self).ops().drop_last() == old(self).ops()
                &&& final(self).ops().last().id == old(self).next_op()
                &&& final(self).ops().last().op_type == op_type
                &&& final(self).ops().last().key@ == key@
                &&& final(self).ops().last().value@ == value@
                &&& final(self).ops().last().custom_name@ == custom_name@
                &&& final(self).outcomes() == old(self).outcomes()
                &&& final(self).faults() == old(self).faults()
                &&& final(self).next_fault() == old(self).next_fault()
                &&& final(self).lifecycle() == old(self).lifecycle()
                &&& final(self).settings() == old(self).settings()
                &&& final(self).title() == old(self).title()
            },
    {
        if self.state != TestState::Setup {
            return -1;
        }
        let id = self.next_op_id;
        self.next_op_id = id + 1;
        self.operations.push(StoredOperation { id, op_type, key, value, custom_name });
        id as i64
    }

    /// Queues `count` reads of an eight-byte zero key during setup; the
    /// schema is not read. Outside setup it is an error.
    pub fn generate_operations(&mut self, count: u64, schema: &str) -> (r: Result<(), String>)
        requires
            old(self).wf(),
            old(self).next_op() + count <= u64::MAX,
        ensures
            final(self).wf(),
            old(self).lifecycle() != TestState::Setup ==> (r matches Err(e) && e@ == "Test is not in setup state"@)
                && *final(self) == *old(self),
            old(self).lifecycle() == TestState::Setup ==> {
                &&& r is Ok
                &&& final(self).ops().len() == old(self).ops().len() + count
                &&& final(self).ops().take(old(self).ops().len() as int) == old(self).ops()
                &&& forall|k: int| 0 <= k < count ==> {
                    let o = #[trigger] final(self).ops()[old(self).ops().len() + k];
                    &&& o.id == old(self).next_op() + k
                    &&& o.op_type == OperationType::Read
                    &&& o.key@ == seq![0u8, 0u8, 0u8, 0u8, 0u8, 0u8, 0u8, 0u8]
                    &&& o.value@.len() == 0
                    &&& o.custom_name@.len() == 0
                }
                &&& final(self).next_op() == old(self).next_op() + count
                &&& final(self).outcomes() == old(self).outcomes()
                &&& final(self).faults() == old(self).faults()
                &&& final(self).lifecycle() == old(self).lifecycle()
                &&& final(self).settings() == old(self).settings()
            },
    {
        if self.state != TestState::Setup {
            return Err(to_owned_string("Test is not in setup state"));
        }
        let ghost start = self.operations@;
        let ghost first = self.next_op_id;
        let ghost pre = *self;
        let mut c: u64 = 0;
        while c < count
            invariant
                pre.wf(),
                self.results == pre.results && self.active_faults == pre.active_faults,
                self.next_fault_id == pre.next_fault_id && self.id == pre.id,
                self.max_operations == pre.max_operations && self.timeout_ms == pre.timeout_ms,
                self.fault_injection_enabled == pre.fault_injection_enabled,
                self.name == pre.name && self.description == pre.description,
                c <= count,
                first + count <= u64::MAX,
                self.next_op_id == first + c,
                self.operations@.len() == start.len() + c,
                self.operations@.take(start.len() as int) == start,
                forall|k: int| 0 <= k < c ==> {
                    let o = #[trigger] self.operations@[start.len() + k];
                    &&& o.id == first + k
                    &&& o.op_type == OperationType::Read
                    &&& o.key@ == seq![0u8, 0u8, 0u8, 0u8, 0u8, 0u8, 0u8, 0u8]
                    &&& o.value@.len() == 0
                    &&& o.custom_name@.len() == 0
                },
                forall|i: int, j: int| 0 <= i < j < self.operations@.len() ==> self.operations@[i].id < self.operations@[j].id,
                forall|i: int| 0 <= i < self.operations@.len() ==> self.operations@[i].id < self.next_op_id,
                self.state == TestState::Setup,
            decreases count - c,
        {
            let id = self.next_op_id;
            self.next_op_id = id + 1;
            let key: Vec<u8> = vec![0u8, 0u8, 0u8, 0u8, 0u8, 0u8, 0u8, 0u8];
            let ghost before = self.operations@;
            self.operations.push(StoredOperation { id, op_type: OperationType::Read, key, value: Vec::new(), custom_name: empty_string() });
            proof {
                assert(self.operations@.take(start.len() as int) =~= before.take(start.len() as int));
                assert forall|k: int| 0 <= k < c + 1 implies {
                    let o = #[trigger] self.operations@[start.len() + k];
                    &&& o.id == first + k
                    &&& o.op_type == OperationType::Read
                    &&& o.key@ == seq![0u8, 0u8, 0u8, 0u8, 0u8, 0u8, 0u8, 0u8]
                    &&& o.value@.len() == 0
                    &&& o.custom_name@.len() == 0
                } by {
                    if k < c {
                        assert(self.operations@[start.len() + k] == before[start.len() + k]);
                    }
                }
            }
            c = c + 1;
        }
        Ok(())
    }

    /// The number of operations a run executes: the queue, cut to the
    /// operation limit when there is one.
    pub open spec fn run_length(self) -> u64 {
        let total = self.ops().len() as u64;
        if self.settings().1 > 0 && self.settings().1 < total { self.settings().1 } else { total }
    }

    /// Starts a run from setup, returning how many operations it executes;
    /// in any other state it is an error and nothing changes.
    pub fn start_run(&mut self) -> (r: Result<u64, VerifierErrorCode>)
        requires
            old(self).wf(),
        ensures
            final(self).wf(),
            old(self).lifecycle() != TestState::Setup ==> r == Err::<u64, VerifierErrorCode>(VerifierErrorCode::InvalidState) && *final(self) == *old(self),
            old(self).lifecycle() == TestState::Setup ==> r == Ok::<u64, VerifierErrorCode>(old(self).run_length())
                && final(self).same_data(*old(self)) && final(self).lifecycle() == TestState::Running,
    {
        if self.state != TestState::Setup {
            return Err(VerifierErrorCode::InvalidState);
        }
        self.state = TestState::Running;
        let total = self.operations.len() as u64;
        if self.max_operations > 0 && self.max_operations < total {
            Ok(self.max_operations)
        } else {
            Ok(total)
        }
    }

    /// Before each operation of a run: a cancellation ends the run as
    /// cancelled, else a timeout ends it as failed; otherwise the run goes
    /// on and nothing changes.
    pub fn interrupt(&mut self, cancelled: bool, timed_out: bool) -> (r: Option<VerifierErrorCode>)
        requires
            old(self).wf(),
        ensures
            final(self).wf(),
            cancelled ==> r == Some(VerifierErrorCode::Cancelled)
                && final(self).same_data(*old(self)) && final(self).lifecycle() == TestState::Cancelled,
            !cancelled && timed_out ==> r == Some(VerifierErrorCode::Timeout)
                && final(self).same_data(*old(self)) && final(self).lifecycle() == TestState::Failed,
            !cancelled && !timed_out ==> r is None && *final(self) == *old(self),
    {
        if cancelled {
            self.state = TestState::Cancelled;
            Some(VerifierErrorCode::Cancelled)
        } else if timed_out {
            self.state = TestState::Failed;
            Some(VerifierErrorCode::Timeout)
        } else {
            None
        }
    }

    /// Records that the pre-operation callback skipped an operation.
    pub fn record_skipped(&mut self, operation_id: u64)
        requires
            old(self).wf(),
        ensures
            final(self).wf(),
            final(self).outcomes() == old(self).outcomes().push(final(self).outcomes().last()),
            result_view(final(self).outcomes().last()) == (operation_id, OperationStatus::Skipped, Seq::<u8>::empty(), None::<Seq<char>>, 0u64),
            final(self).ops() == old(self).ops() && final(self).faults() == old(self).faults(),
            final(self).lifecycle() == old(self).lifecycle(),
            final(self).next_op() == old(self).next_op() && final(self).next_fault() == old(self).next_fault(),
            final(self).settings() == old(self).settings() && final(self).title() == old(self).title(),
    {
        self.results.push(StoredOperationResult {
            operation_id,
            status: OperationStatus::Skipped,
            value: Vec::new(),
            error_message: None,
            duration_ns: 0,
        });
    }

    /// Records what the executor did with an operation (see
    /// `outcome_result`).
    pub fn record_outcome(&mut self, operation_id: u64, outcome: ExecOutcome)
        requires
            old(self).wf(),
        ensures
            final(self).wf(),
            final(self).outcomes() == old(self).outcomes().push(final(self).outcomes().last()),
            result_view(final(self).outcomes().last()) == outcome_result(operation_id, outcome),
            final(self).ops() == old(self).ops() && final(self).faults() == old(self).faults(),
            final(self).lifecycle() == old(self).lifecycle(),
            final(self).next_op() == old(self).next_op() && final(self).next_fault() == old(self).next_fault(),
            final(self).settings() == old(self).settings() && final(self).title() == old(self).title(),
    {
        let ghost o = outcome;
        let result = match outcome {
            ExecOutcome::NoExecutor => StoredOperationResult {
                operation_id,
                status: OperationStatus::Skipped,
                value: Vec::new(),
                error_message: Some(to_owned_string("No executor registered")),
                duration_ns: 0,
            },
            ExecOutcome::NoCallback => StoredOperationResult {
                operation_id,
                status: OperationStatus::Skipped,
                value: Vec::new(),
                error_message: Some(to_owned_string("No executor callback")),
                duration_ns: 0,
            },
            ExecOutcome::Returned { code, status, value, error_message, duration_ns } => {
                if code == VerifierErrorCode::Success {
                    StoredOperationResult { operation_id, status, value, error_message, duration_ns }
                } else {
                    let mut msg = to_owned_string("Executor returned error: ");
                    push_str(&mut msg, error_code_name_str(code));
                    StoredOperationResult {
                        operation_id,
                        status: OperationStatus::Failure,
                        value: Vec::new(),
                        error_message: Some(msg),
                        duration_ns,
                    }
                }
            },
        };
        assert(result_view(result) == outcome_result(operation_id, o));
        self.results.push(result);
    }

    /// Ends a run whose operations all went through.
    pub fn finish_run(&mut self)
        requires
            old(self).wf(),
        ensures
            final(self).wf(),
            final(self).same_data(*old(self)) && final(self).lifecycle() == TestState::Completed,
    {
        self.state = TestState::Completed;
    }

    /// Injects a fault when fault injection is enabled: it gets the next
    /// fault id, is active, and clears `duration_ms` after `now_ms` (never,
    /// shown as 0, for a duration of 0). When disabled nothing changes.
    pub fn inject_fault(&mut self, fault_type: FaultType, target: FaultTarget, duration_ms: u64, now_ms: u64) -> (r: Option<FaultInfo>)
        requires
            old(self).wf(),
            old(self).next_fault() < u64::MAX,
            duration_ms > 0 ==> now_ms + duration_ms <= u64::MAX,
        ensures
            final(self).wf(),
            !old(self).settings().3 ==> r is None && *final(self) == *old(self),
            old(self).settings().3 ==> {
                &&& r == Some(FaultInfo {
                    id: old(self).next_fault(),
                    fault_type,
                    target,
                    injected_at_ms: now_ms,
                    clear_at_ms: if duration_ms > 0 { (now_ms + duration_ms) as u64 } else { 0 },
                    active: true,
                })
                &&& final(self).faults() == old(self).faults().push(r.unwrap())
                &&& final(self).next_fault() == old(self).next_fault() + 1
                &&& final(self).ops() == old(self).ops() && final(self).outcomes() == old(self).outcomes()
                &&& final(self).next_op() == old(self).next_op()
                &&& final(self).lifecycle() == old(self).lifecycle()
                &&& final(self).settings() == old(self).settings() && final(self).title() == old(self).title()
            },
    {
        if !self.fault_injection_enabled {
            return None;
        }
        let id = self.next_fault_id;
        self.next_fault_id = id + 1;
        let clear_at = if duration_ms > 0 { now_ms + duration_ms } else { 0 };
        let info = FaultInfo { id, fault_type, target, injected_at_ms: now_ms, clear_at_ms: clear_at, active: true };
        self.active_faults.push(info);
        Some(info)
    }

    /// Clears the active fault with the given id and returns it, now
    /// inactive; an id no active fault has is an invalid handle.
    pub fn clear_fault(&mut self, fault_id: u64) -> (r: Result<FaultInfo, VerifierErrorCode>)
        requires
            old(self).wf(),
        ensures
            final(self).wf(),
            !fault_ids(old(self).faults()).contains(fault_id) ==> r == Err::<FaultInfo, VerifierErrorCode>(VerifierErrorCode::InvalidHandle)
                && *final(self) == *old(self),
            fault_ids(old(self).faults()).contains(fault_id) ==> {
                &&& r matches Ok(f) && exists|g: FaultInfo| #[trigger] old(self).faults().contains(g) && g.id == fault_id
                    && f == (FaultInfo { active: false, ..g })
                &&& final(self).faults() == faults_without(old(self).faults(), fault_id)
                &&& final(self).ops() == old(self).ops() && final(self).outcomes() == old(self).outcomes()
                &&& final(self).next_op() == old(self).next_op() && final(self).next_fault() == old(self).next_fault()
                &&& final(self).lifecycle() == old(self).lifecycle()
                &&& final(self).settings() == old(self).settings() && final(self).title() == old(self).title()
            },
    {
        let ghost s = self.active_faults@;
        let n = self.active_faults.len();
        let mut found: Option<FaultInfo> = None;
        let mut kept: Vec<FaultInfo> = Vec::new();
        let mut i: usize = 0;
        while i < n
            invariant
                old(self).wf(),
                *self == *old(self),
                n == s.len(),
                s == self.active_faults@,
                i <= n,
                kept@ == faults_without(s.take(i as int), fault_id),
                found is None <==> !fault_ids(s.take(i as int)).contains(fault_id),
                found matches Some(f) ==> f.id == fault_id && s.take(i as int).contains(f),
                forall|k: int| 0 <= k < kept@.len() ==> s.contains(#[trigger] kept@[k]),
            decreases n - i,
        {
            let f = self.active_faults[i];
            proof {
                assert(s.take(i as int + 1).drop_last() =~= s.take(i as int));
                assert(s.take(i as int + 1) =~= s.take(i as int).push(f));
                assert(fault_ids(s.take(i as int + 1)) =~= fault_ids(s.take(i as int)).push(f.id));
                broadcast use vstd::seq_lib::group_seq_properties;
            }
            if f.id == fault_id {
                found = Some(f);
            } else {
                kept.push(f);
            }
            i = i + 1;
        }
        proof {
            assert(s.take(n as int) =~= s);
        }
        match found {
            None => Err(VerifierErrorCode::InvalidHandle),
            Some(f) => {
                proof { lemma_faults_without_keeps(s, fault_id); }
                self.active_faults = kept;
                Ok(FaultInfo { active: false, ..f })
            },
        }
    }

    /// The ids of the active faults, in injection order.
    pub fn active_fault_ids(&self) -> (r: Vec<u64>)
        ensures
            r@ == fault_ids(self.faults()),
    {
        let mut out: Vec<u64> = Vec::new();
        let n = self.active_faults.len();
        let mut i: usize = 0;
        while i < n
            invariant
                n == self.active_faults@.len(),
                i <= n,
                out@ == fault_ids(self.active_faults@.take(i as int)),
            decreases n - i,
        {
            out.push(self.active_faults[i].id);
            assert(fault_ids(self.active_faults@.take(i as int + 1)) =~= fault_ids(self.active_faults@.take(i as int)).push(self.active_faults@[i as int].id));
            i = i + 1;
        }
        assert(self.active_faults@.take(n as int) =~= self.active_faults@);
        out
    }

    /// The linearizability check of the C interface, which passes.
    pub fn check_linearizability(&self) -> (r: Result<CheckOutcome, VerifierErrorCode>)
        ensures
            r matches Ok(c) && c.passed && c.message@ == "Linearizability check passed (placeholder)"@,
    {
        Ok(CheckOutcome { passed: true, message: to_owned_string("Linearizability check passed (placeholder)") })
    }

    /// The serializability check of the C interface, which passes.
    pub fn check_serializability(&self) -> (r: Result<CheckOutcome, VerifierErrorCode>)
        ensures
            r matches Ok(c) && c.passed && c.message@ == "Serializability check passed (placeholder)"@,
    {
        Ok(CheckOutcome { passed: true, message: to_owned_string("Serializability check passed (placeholder)") })
    }

    /// The invariant check of the C interface, which passes without
    /// reading the expression.
    pub fn check_invariant(&self, name: &str, expr: &str) -> (r: Result<CheckOutcome, VerifierErrorCode>)
        ensures
            r matches Ok(c) && c.passed && c.message@ == "Invariant '"@ + name@ + "' check passed (placeholder)"@,
    {
        let mut msg = to_owned_string("Invariant '");
        push_str(&mut msg, name);
        push_str(&mut msg, "' check passed (placeholder)");
        Ok(CheckOutcome { passed: true, message: msg })
    }

    /// The report: the results counted by status, the given duration and
    /// the state.
    pub fn finalize(&self, duration_ns: u64) -> (r: Result<ReportInner, VerifierErrorCode>)
        ensures
            r matches Ok(rep) && {
                &&& rep.test_name@ == self.title().0
                &&& (match rep.test_description { Some(d) => Some(d@), None => None }) == self.title().1
                &&& rep.operation_count == self.outcomes().len()
                &&& rep.success_count == status_count(self.outcomes(), OperationStatus::Success)
                &&& rep.failure_count == status_count(self.outcomes(), OperationStatus::Failure)
                &&& rep.duration_ns == duration_ns
                &&& rep.state == self.lifecycle()
            },
    {
        let n = self.results.len();
        let mut success: u64 = 0;
        let mut failure: u64 = 0;
        let mut i: usize = 0;
        while i < n
            invariant
                n == self.results@.len(),
                i <= n,
                success == status_count(self.results@.take(i as int), OperationStatus::Success),
                failure == status_count(self.results@.take(i as int), OperationStatus::Failure),
                success <= i && failure <= i,
            decreases n - i,
        {
            proof {
                assert(self.results@.take(i as int + 1).drop_last() =~= self.results@.take(i as int));
            }
            if self.results[i].status == OperationStatus::Success {
                success = success + 1;
            } else if self.results[i].status == OperationStatus::Failure {
                failure = failure + 1;
            }
            i = i + 1;
        }
        assert(self.results@.take(n as int) =~= self.results@);
        let description = match &self.description {
            Some(d) => Some(to_owned_string(d.as_str())),
            None => None,
        };
        Ok(ReportInner {
            test_name: to_owned_string(self.name.as_str()),
            test_description: description,
            operation_count: n as u64,
            success_count: success,
            failure_count: failure,
            duration_ns,
            state: self.state,
        })
    }
}

/// Removing a fault keeps the others, in order, with distinct ids below
/// the next id.
proof fn lemma_faults_without_keeps(s: Seq<FaultInfo>, id: u64)
    requires
        forall|i: int, j: int| 0 <= i < j < s.len() ==> s[i].id != s[j].id,
    ensures
        forall|k: int| 0 <= k < faults_without(s, id).len() ==> s.contains(#[trigger] faults_without(s, id)[k]),
        forall|i: int, j: int| 0 <= i < j < faults_without(s, id).len() ==> faults_without(s, id)[i].id != faults_without(s, id)[j].id,
    decreases s.len(),
{
    if s.len() > 0 {
        lemma_faults_without_keeps(s.drop_last(), id);
        let w = faults_without(s.drop_last(), id);
        assert forall|i: int, j: int| 0 <= i < j < faults_without(s, id).len() implies faults_without(s, id)[i].id != faults_without(s, id)[j].id by {
            if j == w.len() && s.last().id != id {
                assert(s.drop_last().contains(w[i]));
                let t = choose|t: int| 0 <= t < s.drop_last().len() && s.drop_last()[t] == w[i];
                assert(s[t] == w[i]);
            } else {
                assert(faults_without(s, id)[i] == w[i] && faults_without(s, id)[j] == w[j]);
            }
        }
        assert forall|k: int| 0 <= k < faults_without(s, id).len() implies s.contains(#[trigger] faults_without(s, id)[k]) by {
            let w = faults_without(s.drop_last(), id);
            if k < w.len() {
                assert(w[k] == faults_without(s, id)[k]);
                let j = choose|j: int| 0 <= j < s.drop_last().len() && s.drop_last()[j] == w[k];
                assert(s[j] == w[k]);
            } else {
                assert(s[s.len() - 1] == faults_without(s, id)[k]);
            }
        }
    }
}

/// The counts of a report never exceed the operations it covers: the
/// successes and failures of a test are among its results.
pub proof fn law_report_counts(s: Seq<StoredOperationResult>)
    ensures
        status_count(s, OperationStatus::Success) + status_count(s, OperationStatus::Failure) <= s.len(),
    decreases s.len(),
{
    if s.len() > 0 {
        law_report_counts(s.drop_last());
    }
}

} // verus!
