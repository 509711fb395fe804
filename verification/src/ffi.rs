//! The plain data of the C interface: error codes, execution modes,
//! operation kinds and statuses, faults, and test reports. The numbers
//! that C sees are given by `code` functions.
use vstd::prelude::*;
use crate::text::{empty_string, push_str, push_char, push_decimal, decimal};

verus! {

/// Error codes of the C interface.
#[derive(Debug, Clone, Copy, PartialEq, Eq, Structural, Hash)]
pub enum VerifierErrorCode {
    /// Success.
    Success,
    /// A null pointer was passed.
    NullPointer,
    /// An invalid handle was passed.
    InvalidHandle,
    /// A string was not UTF-8.
    InvalidUtf8,
    /// The operation is not valid in the current state.
    InvalidState,
    /// Memory ran out.
    OutOfMemory,
    /// An I/O error.
    Io,
    /// A timeout.
    Timeout,
    /// The operation was cancelled.
    Cancelled,
    /// An invariant was violated.
    InvariantViolation,
    /// An internal error.
    Internal,
    /// The configuration is invalid.
    InvalidConfig,
    /// A fault was injected.
    FaultInjected,
    /// Any other error.
    Unknown,
}

/// The number of an error code in C.
pub open spec fn error_code_number(c: VerifierErrorCode) -> u32 {
    match c {
        VerifierErrorCode::Success => 0,
        VerifierErrorCode::NullPointer => 1,
        VerifierErrorCode::InvalidHandle => 2,
        VerifierErrorCode::InvalidUtf8 => 3,
        VerifierErrorCode::InvalidState => 4,
        VerifierErrorCode::OutOfMemory => 5,
        VerifierErrorCode::Io => 6,
        VerifierErrorCode::Timeout => 7,
        VerifierErrorCode::Cancelled => 8,
        VerifierErrorCode::InvariantViolation => 9,
        VerifierErrorCode::Internal => 10,
        VerifierErrorCode::InvalidConfig => 11,
        VerifierErrorCode::FaultInjected => 12,
        VerifierErrorCode::Unknown => 255,
    }
}

/// The display form of an error code.
pub open spec fn error_code_text(c: VerifierErrorCode) -> Seq<char> {
    match c {
        VerifierErrorCode::Success => "OK"@,
        VerifierErrorCode::NullPointer => "Null pointer"@,
        VerifierErrorCode::InvalidHandle => "Invalid handle"@,
        VerifierErrorCode::InvalidUtf8 => "Invalid UTF-8"@,
        VerifierErrorCode::InvalidState => "Invalid state"@,
        VerifierErrorCode::OutOfMemory => "Out of memory"@,
        VerifierErrorCode::Io => "I/O error"@,
        VerifierErrorCode::Timeout => "Timeout"@,
        VerifierErrorCode::Cancelled => "Cancelled"@,
        VerifierErrorCode::InvariantViolation => "Invariant violation"@,
        VerifierErrorCode::Internal => "Internal error"@,
        VerifierErrorCode::InvalidConfig => "Invalid configuration"@,
        VerifierErrorCode::FaultInjected => "Fault injected"@,
        VerifierErrorCode::Unknown => "Unknown error"@,
    }
}

/// The error code of a number; numbers no code has are `Unknown`.
pub open spec fn error_code_of(n: u32) -> VerifierErrorCode {
    if n == 0 { VerifierErrorCode::Success }
    else if n == 1 { VerifierErrorCode::NullPointer }
    else if n == 2 { VerifierErrorCode::InvalidHandle }
    else if n == 3 { VerifierErrorCode::InvalidUtf8 }
    else if n == 4 { VerifierErrorCode::InvalidState }
    else if n == 5 { VerifierErrorCode::OutOfMemory }
    else if n == 6 { VerifierErrorCode::Io }
    else if n == 7 { VerifierErrorCode::Timeout }
    else if n == 8 { VerifierErrorCode::Cancelled }
    else if n == 9 { VerifierErrorCode::InvariantViolation }
    else if n == 10 { VerifierErrorCode::Internal }
    else if n == 11 { VerifierErrorCode::InvalidConfig }
    else if n == 12 { VerifierErrorCode::FaultInjected }
    else { VerifierErrorCode::Unknown }
}

impl VerifierErrorCode {
    /// The number of the code in C.
    pub fn code(&self) -> (r: u32)
        ensures
            r == error_code_number(*self),
    {
        match self {
            VerifierErrorCode::Success => 0,
            VerifierErrorCode::NullPointer => 1,
            VerifierErrorCode::InvalidHandle => 2,
            VerifierErrorCode::InvalidUtf8 => 3,
            VerifierErrorCode::InvalidState => 4,
            VerifierErrorCode::OutOfMemory => 5,
            VerifierErrorCode::Io => 6,
            VerifierErrorCode::Timeout => 7,
            VerifierErrorCode::Cancelled => 8,
            VerifierErrorCode::InvariantViolation => 9,
            VerifierErrorCode::Internal => 10,
            VerifierErrorCode::InvalidConfig => 11,
            VerifierErrorCode::FaultInjected => 12,
            VerifierErrorCode::Unknown => 255,
        }
    }

    /// The code of a number from C (see `error_code_of`).
    pub fn from_code(n: u32) -> (r: Self)
        ensures
            r == error_code_of(n),
    {
        if n == 0 { VerifierErrorCode::Success }
        else if n == 1 { VerifierErrorCode::NullPointer }
        else if n == 2 { VerifierErrorCode::InvalidHandle }
        else if n == 3 { VerifierErrorCode::InvalidUtf8 }
        else if n == 4 { VerifierErrorCode::InvalidState }
        else if n == 5 { VerifierErrorCode::OutOfMemory }
        else if n == 6 { VerifierErrorCode::Io }
        else if n == 7 { VerifierErrorCode::Timeout }
        else if n == 8 { VerifierErrorCode::Cancelled }
        else if n == 9 { VerifierErrorCode::InvariantViolation }
        else if n == 10 { VerifierErrorCode::Internal }
        else if n == 11 { VerifierErrorCode::InvalidConfig }
        else if n == 12 { VerifierErrorCode::FaultInjected }
        else { VerifierErrorCode::Unknown }
    }

    /// The display form of the code.
    pub fn to_string(&self) -> (r: String)
        ensures
            r@ == error_code_text(*self),
    {
        let mut s = empty_string();
        push_str(&mut s, match self {
            VerifierErrorCode::Success => "OK",
            VerifierErrorCode::NullPointer => "Null pointer",
            VerifierErrorCode::InvalidHandle => "Invalid handle",
            VerifierErrorCode::InvalidUtf8 => "Invalid UTF-8",
            VerifierErrorCode::InvalidState => "Invalid state",
            VerifierErrorCode::OutOfMemory => "Out of memory",
            VerifierErrorCode::Io => "I/O error",
            VerifierErrorCode::Timeout => "Timeout",
            VerifierErrorCode::Cancelled => "Cancelled",
            VerifierErrorCode::InvariantViolation => "Invariant violation",
            VerifierErrorCode::Internal => "Internal error",
            VerifierErrorCode::InvalidConfig => "Invalid configuration",
            VerifierErrorCode::FaultInjected => "Fault injected",
            VerifierErrorCode::Unknown => "Unknown error",
        });
        s
    }
}

/// Each code's number gives the code back.
pub proof fn law_error_code_roundtrip(c: VerifierErrorCode)
    ensures
        error_code_of(error_code_number(c)) == c,
{
}

/// Whether a C result holds a value or an error.
#[derive(Debug, Clone, Copy, PartialEq, Eq, Structural)]
pub enum VerifierResultTag {
    /// A value.
    Value,
    /// An error.
    Error,
}

/// How a test executes its operations.
#[derive(Debug, Clone, Copy, PartialEq, Eq, Structural, Hash)]
pub enum ExecutionMode {
    /// One after the other.
    Sequential,
    /// Concurrently.
    Concurrent,
    /// Deterministically, from a seed.
    Deterministic,
}

impl Default for ExecutionMode {
    fn default() -> (r: Self)
        ensures
            r == ExecutionMode::Sequential,
    {
        ExecutionMode::Sequential
    }
}

/// The kind of an operation of the C interface.
#[derive(Debug, Clone, Copy, PartialEq, Eq, Structural, Hash)]
pub enum OperationType {
    /// A read.
    Read,
    /// A write.
    Write,
    /// A delete.
    Delete,
    /// A transaction begins.
    TxnBegin,
    /// A transaction commits.
    TxnCommit,
    /// A transaction aborts.
    TxnAbort,
    /// A barrier.
    Barrier,
    /// Another kind, by name.
    Custom,
}

impl Default for OperationType {
    fn default() -> (r: Self)
        ensures
            r == OperationType::Read,
    {
        OperationType::Read
    }
}

/// The status of an executed operation.
#[derive(Debug, Clone, Copy, PartialEq, Eq, Structural, Hash)]
pub enum OperationStatus {
    /// It succeeded.
    Success,
    /// It failed.
    Failure,
    /// It was skipped.
    Skipped,
    /// It timed out.
    Timeout,
    /// A fault was injected into it.
    FaultInjected,
}

impl Default for OperationStatus {
    fn default() -> (r: Self)
        ensures
            r == OperationStatus::Success,
    {
        OperationStatus::Success
    }
}

/// The kind of an injected fault.
#[derive(Debug, Clone, Copy, PartialEq, Eq, Structural, Hash)]
pub enum FaultType {
    /// No fault.
    NoFault,
    /// A crash.
    Crash,
    /// A network partition.
    NetworkPartition,
    /// A disk error.
    DiskError,
    /// Memory runs out.
    Oom,
    /// A slow CPU.
    SlowCpu,
    /// Clock skew.
    ClockSkew,
    /// Corrupted data.
    DataCorruption,
    /// Dropped messages.
    MessageDrop,
    /// Reordered messages.
    MessageReorder,
    /// Duplicated messages.
    MessageDuplicate,
    /// Delay.
    Delay,
    /// Another kind.
    Custom,
}

impl Default for FaultType {
    fn default() -> (r: Self)
        ensures
            r == FaultType::NoFault,
    {
        FaultType::NoFault
    }
}

/// What an injected fault targets.
#[derive(Debug, Clone, Copy, PartialEq, Eq, Structural, Hash)]
pub enum FaultTarget {
    /// Everything.
    All,
    /// Storage.
    Storage,
    /// The network.
    Network,
    /// Computation.
    Compute,
    /// Memory.
    Memory,
    /// A node.
    Node,
    /// An operation.
    Operation,
}

impl Default for FaultTarget {
    fn default() -> (r: Self)
        ensures
            r == FaultTarget::All,
    {
        FaultTarget::All
    }
}

/// An injected fault, as reported to C.
#[derive(Debug, Clone, Copy, PartialEq, Eq, Structural)]
pub struct FaultInfo {
    /// The fault's identifier.
    pub id: u64,
    /// Its kind.
    pub fault_type: FaultType,
    /// Its target.
    pub target: FaultTarget,
    /// When it was injected, in milliseconds.
    pub injected_at_ms: u64,
    /// When it is cleared, in milliseconds.
    pub clear_at_ms: u64,
    /// Whether it is active.
    pub active: bool,
}

impl Default for FaultInfo {
    fn default() -> (r: Self)
        ensures
            r == (FaultInfo {
                id: 0,
                fault_type: FaultType::NoFault,
                target: FaultTarget::All,
                injected_at_ms: 0,
                clear_at_ms: 0,
                active: false,
            }),
    {
        FaultInfo {
            id: 0,
            fault_type: FaultType::NoFault,
            target: FaultTarget::All,
            injected_at_ms: 0,
            clear_at_ms: 0,
            active: false,
        }
    }
}

/// The lifecycle state of a test.
#[derive(Debug, Clone, Copy, PartialEq, Eq, Structural)]
pub enum TestState {
    /// Being set up.
    Setup,
    /// Running.
    Running,
    /// Completed.
    Completed,
    /// Cancelled.
    Cancelled,
    /// Failed.
    Failed,
}

/// The lower-case name of a test state, as the JSON report has it.
pub open spec fn test_state_json(s: TestState) -> Seq<char> {
    match s {
        TestState::Setup => "setup"@,
        TestState::Running => "running"@,
        TestState::Completed => "completed"@,
        TestState::Cancelled => "cancelled"@,
        TestState::Failed => "failed"@,
    }
}

/// The report of a finished test.
#[derive(Debug, Clone)]
pub struct ReportInner {
    /// The test's name.
    pub test_name: String,
    /// The test's description.
    pub test_description: Option<String>,
    /// Operations executed.
    pub operation_count: u64,
    /// Operations that succeeded.
    pub success_count: u64,
    /// Operations that failed.
    pub failure_count: u64,
    /// How long the test ran, in nanoseconds.
    pub duration_ns: u64,
    /// The test's final state.
    pub state: TestState,
}

/// A hexadecimal digit, lower case.
pub open spec fn hex_digit(d: u32) -> char {
    if d < 10 { (('0' as u32) + d) as char } else { (('a' as u32) + (d - 10)) as char }
}

/// A character as it stands inside a JSON string: quotes, backslashes and
/// control characters escaped.
pub open spec fn json_char(c: char) -> Seq<char> {
    if c == '"' { seq!['\\', '"'] }
    else if c == '\\' { seq!['\\', '\\'] }
    else if c == '\n' { seq!['\\', 'n'] }
    else if c == '\r' { seq!['\\', 'r'] }
    else if c == '\t' { seq!['\\', 't'] }
    else if c == '\x08' { seq!['\\', 'b'] }
    else if c == '\x0c' { seq!['\\', 'f'] }
    else if (c as u32) < 0x20 {
        seq!['\\', 'u', '0', '0', hex_digit((c as u32) / 16), hex_digit((c as u32) % 16)]
    } else { seq![c] }
}

/// A text as it stands inside a JSON string.
pub open spec fn json_escaped(s: Seq<char>) -> Seq<char>
    decreases s.len(),
{
    if s.len() == 0 { Seq::empty() } else { json_escaped(s.drop_last()) + json_char(s.last()) }
}

/// The hexadecimal digit of a value below 16.
fn hex_char(d: u32) -> (c: char)
    requires
        d < 16,
    ensures
        c == hex_digit(d),
{
    if d < 10 {
        proof { assert(0x30 + d <= 0x39); }
        char_of(0x30 + d)
    } else {
        proof { assert(0x61 + d - 10 <= 0x66); }
        char_of(0x61 + (d - 10))
    }
}

/// The character with a code below 0x80.
fn char_of(code: u32) -> (c: char)
    requires
        code < 0x80,
    ensures
        c == code as char,
{
    let b: u8 = code as u8;
    b as char
}

/// Appends `t` escaped for a JSON string.
fn push_json_escaped(s: &mut String, t: &str)
    ensures
        final(s)@ == old(s)@ + json_escaped(t@),
{
    let n = t.unicode_len();
    let mut i: usize = 0;
    while i < n
        invariant
            n == t@.len(),
            i <= n,
            s@ == old(s)@ + json_escaped(t@.take(i as int)),
        decreases n - i,
    {
        let c = t.get_char(i);
        let ghost before = s@;
        if c == '"' {
            push_char(s, '\\');
            push_char(s, '"');
        } else if c == '\\' {
            push_char(s, '\\');
            push_char(s, '\\');
        } else if c == '\n' {
            push_char(s, '\\');
            push_char(s, 'n');
        } else if c == '\r' {
            push_char(s, '\\');
            push_char(s, 'r');
        } else if c == '\t' {
            push_char(s, '\\');
            push_char(s, 't');
        } else if c == '\x08' {
            push_char(s, '\\');
            push_char(s, 'b');
        } else if c == '\x0c' {
            push_char(s, '\\');
            push_char(s, 'f');
        } else if (c as u32) < 0x20 {
            let code = c as u32;
            push_char(s, '\\');
            push_char(s, 'u');
            push_char(s, '0');
            push_char(s, '0');
            push_char(s, hex_char(code / 16));
            push_char(s, hex_char(code % 16));
        } else {
            push_char(s, c);
        }
        proof {
            assert(s@ =~= before + json_char(c));
            assert(t@.take(i as int + 1).drop_last() =~= t@.take(i as int));
            assert(s@ =~= old(s)@ + json_escaped(t@.take(i as int + 1)));
        }
        i = i + 1;
    }
    assert(t@.take(n as int) =~= t@);
}

/// The JSON form of a report, its texts escaped as JSON strings.
pub open spec fn report_json(r: ReportInner) -> Seq<char> {
    "{\"test_name\":\""@ + json_escaped(r.test_name@) + "\",\"description\":"@
        + match r.test_description {
            Some(d) => "\""@ + json_escaped(d@) + "\""@,
            None => "null"@,
        }
        + ",\"operation_count\":"@ + decimal(r.operation_count as nat)
        + ",\"success_count\":"@ + decimal(r.success_count as nat)
        + ",\"failure_count\":"@ + decimal(r.failure_count as nat)
        + ",\"duration_ns\":"@ + decimal(r.duration_ns as nat)
        + ",\"state\":\""@ + test_state_json(r.state) + "\"}"@
}

impl ReportInner {
    /// The JSON form of the report (see `report_json`).
    pub fn to_json(&self) -> (r: String)
        ensures
            r@ == report_json(*self),
    {
        let mut s = empty_string();
        push_str(&mut s, "{\"test_name\":\"");
        push_json_escaped(&mut s, self.test_name.as_str());
        push_str(&mut s, "\",\"description\":");
        match &self.test_description {
            Some(d) => {
                push_str(&mut s, "\"");
                push_json_escaped(&mut s, d.as_str());
                push_str(&mut s, "\"");
            },
            None => push_str(&mut s, "null"),
        }
        push_str(&mut s, ",\"operation_count\":");
        push_decimal(&mut s, self.operation_count as u128);
        push_str(&mut s, ",\"success_count\":");
        push_decimal(&mut s, self.success_count as u128);
        push_str(&mut s, ",\"failure_count\":");
        push_decimal(&mut s, self.failure_count as u128);
        push_str(&mut s, ",\"duration_ns\":");
        push_decimal(&mut s, self.duration_ns as u128);
        push_str(&mut s, ",\"state\":\"");
        push_str(&mut s, match self.state {
            TestState::Setup => "setup",
            TestState::Running => "running",
            TestState::Completed => "completed",
            TestState::Cancelled => "cancelled",
            TestState::Failed => "failed",
        });
        push_str(&mut s, "\"}");
        assert(s@ =~= report_json(*self));
        s
    }
}


/// The display name of a test state.
pub open spec fn test_state_name(s: TestState) -> Seq<char> {
    match s {
        TestState::Setup => "Setup"@,
        TestState::Running => "Running"@,
        TestState::Completed => "Completed"@,
        TestState::Cancelled => "Cancelled"@,
        TestState::Failed => "Failed"@,
    }
}

/// The decimal digit of a value below 10.
pub open spec fn digit_char(d: nat) -> char {
    (('0' as u32) + d) as char
}

/// A number below 1000 written with exactly three digits.
pub open spec fn three_digits(n: nat) -> Seq<char> {
    seq![digit_char(n / 100), digit_char((n / 10) % 10), digit_char(n % 10)]
}

/// A duration in nanoseconds as milliseconds with three decimals, rounded
/// to the nearest microsecond, a half microsecond upwards.
pub open spec fn millis_text(ns: nat) -> Seq<char> {
    let us = (ns + 500) / 1000;
    decimal(us / 1000) + "."@ + three_digits(us % 1000)
}

/// The human-readable form of a report.
pub open spec fn report_text(r: ReportInner) -> Seq<char> {
    "Test Report: "@ + r.test_name@ + "\n"@
        + match r.test_description {
            Some(d) => "Description: "@ + d@ + "\n"@,
            None => Seq::empty(),
        }
        + "Operations: "@ + decimal(r.operation_count as nat) + " total, "@
        + decimal(r.success_count as nat) + " success, "@
        + decimal(r.failure_count as nat) + " failed\n"@
        + "Duration: "@ + millis_text(r.duration_ns as nat) + " ms\n"@
        + "State: "@ + test_state_name(r.state) + "\n"@
}

/// Appends the digit of a value below 10.
fn push_digit(s: &mut String, d: u128)
    requires
        d < 10,
    ensures
        final(s)@ == old(s)@.push(digit_char(d as nat)),
{
    let code: u32 = d as u32;
    proof { assert(0x30 + code < 0x80); }
    push_char(s, char_of(0x30 + code));
}

impl ReportInner {
    /// The human-readable form of the report (see `report_text`).
    pub fn to_string(&self) -> (r: String)
        ensures
            r@ == report_text(*self),
    {
        let mut s = empty_string();
        push_str(&mut s, "Test Report: ");
        push_str(&mut s, self.test_name.as_str());
        push_str(&mut s, "\n");
        match &self.test_description {
            Some(d) => {
                push_str(&mut s, "Description: ");
                push_str(&mut s, d.as_str());
                push_str(&mut s, "\n");
            },
            None => {},
        }
        push_str(&mut s, "Operations: ");
        push_decimal(&mut s, self.operation_count as u128);
        push_str(&mut s, " total, ");
        push_decimal(&mut s, self.success_count as u128);
        push_str(&mut s, " success, ");
        push_decimal(&mut s, self.failure_count as u128);
        push_str(&mut s, " failed\n");
        push_str(&mut s, "Duration: ");
        let us: u128 = (self.duration_ns as u128 + 500) / 1000;
        let frac: u128 = us % 1000;
        let ghost before_ms = s@;
        push_decimal(&mut s, us / 1000);
        push_str(&mut s, ".");
        push_digit(&mut s, frac / 100);
        push_digit(&mut s, (frac / 10) % 10);
        push_digit(&mut s, frac % 10);
        proof {
            assert(s@ =~= before_ms + millis_text(self.duration_ns as nat));
        }
        push_str(&mut s, " ms\n");
        push_str(&mut s, "State: ");
        push_str(&mut s, match self.state {
            TestState::Setup => "Setup",
            TestState::Running => "Running",
            TestState::Completed => "Completed",
            TestState::Cancelled => "Cancelled",
            TestState::Failed => "Failed",
        });
        push_str(&mut s, "\n");
        assert(s@ =~= report_text(*self));
        s
    }
}

} // verus!
