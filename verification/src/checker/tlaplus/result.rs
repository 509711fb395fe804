//! Results of validating a trace against a TLA+ specification with TLC.
use vstd::prelude::*;
use core::time::Duration;
use crate::clock::duration_of;
use super::tla_value::TlaValue;
use crate::named::{named_value, distinct_names, named_updated, set_named, get_named};
use crate::text::{decimal, signed_decimal, push_decimal, push_signed_decimal, push_str, empty_string, to_owned_string};

verus! {

/// The `Debug` text of the duration of `secs` seconds and `nanos`
/// nanoseconds (such as `1.5s` or `250ms`).
pub uninterp spec fn duration_debug(secs: u64, nanos: u32) -> Seq<char>;

/// The `Debug` text of a duration (`format!("{:?}")`).
#[verifier::external_body]
fn duration_debug_text(d: &Duration) -> (r: String)
    ensures
        forall|secs: u64, nanos: u32| nanos < 1_000_000_000 && *d == #[trigger] duration_of(secs, nanos)
            ==> r@ == duration_debug(secs, nanos),
{
    format!("{:?}", d)
}

/// Errors that can occur during TLC execution.
#[derive(Debug)]
pub enum TlcError {
    /// TLC executable not found.
    NotFound { path: String },
    /// Java runtime not found or incompatible.
    JavaError { message: String },
    /// TLC process failed to start; the operating system's message.
    ProcessStart(String),
    /// TLC execution timed out.
    Timeout(Duration),
    /// TLC exited with an error.
    ExitError { code: i32, message: String },
    /// Failed to parse TLC output.
    ParseError(String),
    /// Specification file not found.
    SpecNotFound { path: String },
    /// Trace file not found.
    TraceNotFound { path: String },
    /// Invalid specification.
    InvalidSpec { message: String },
    /// Configuration error.
    ConfigError { message: String },
}

impl TlcError {
    /// The display text. For a timeout, the duration is shown in its
    /// `Debug` form (`duration_debug`).
    pub fn to_string(&self) -> (s: String)
        ensures
            match self {
                TlcError::NotFound { path } => s@ == "TLC not found at path: "@ + path@,
                TlcError::JavaError { message } => s@ == "Java runtime error: "@ + message@,
                TlcError::ProcessStart(m) => s@ == "Failed to start TLC: "@ + m@,
                TlcError::Timeout(d) => "TLC execution timed out after "@.is_prefix_of(s@)
                    && forall|secs: u64, nanos: u32| nanos < 1_000_000_000 && *d == #[trigger] duration_of(secs, nanos)
                        ==> s@ == "TLC execution timed out after "@ + duration_debug(secs, nanos),
                TlcError::ExitError { code, message } => s@ == "TLC exited with code "@ + signed_decimal(*code as int) + ": "@ + message@,
                TlcError::ParseError(m) => s@ == "Failed to parse TLC output: "@ + m@,
                TlcError::SpecNotFound { path } => s@ == "Specification file not found: "@ + path@,
                TlcError::TraceNotFound { path } => s@ == "Trace file not found: "@ + path@,
                TlcError::InvalidSpec { message } => s@ == "Invalid TLA+ specification: "@ + message@,
                TlcError::ConfigError { message } => s@ == "TLC configuration error: "@ + message@,
            },
    {
        let mut s = empty_string();
        match self {
            TlcError::NotFound { path } => {
                push_str(&mut s, "TLC not found at path: ");
                push_str(&mut s, path.as_str());
            },
            TlcError::JavaError { message } => {
                push_str(&mut s, "Java runtime error: ");
                push_str(&mut s, message.as_str());
            },
            TlcError::ProcessStart(m) => {
                push_str(&mut s, "Failed to start TLC: ");
                push_str(&mut s, m.as_str());
            },
            TlcError::Timeout(d) => {
                push_str(&mut s, "TLC execution timed out after ");
                let t = duration_debug_text(d);
                let ghost s0 = s@;
                push_str(&mut s, t.as_str());
                proof {
                    assert(s@.subrange(0, s0.len() as int) =~= s0);
                }
            },
            TlcError::ExitError { code, message } => {
                push_str(&mut s, "TLC exited with code ");
                push_signed_decimal(&mut s, *code as i128);
                push_str(&mut s, ": ");
                push_str(&mut s, message.as_str());
            },
            TlcError::ParseError(m) => {
                push_str(&mut s, "Failed to parse TLC output: ");
                push_str(&mut s, m.as_str());
            },
            TlcError::SpecNotFound { path } => {
                push_str(&mut s, "Specification file not found: ");
                push_str(&mut s, path.as_str());
            },
            TlcError::TraceNotFound { path } => {
                push_str(&mut s, "Trace file not found: ");
                push_str(&mut s, path.as_str());
            },
            TlcError::InvalidSpec { message } => {
                push_str(&mut s, "Invalid TLA+ specification: ");
                push_str(&mut s, message.as_str());
            },
            TlcError::ConfigError { message } => {
                push_str(&mut s, "TLC configuration error: ");
                push_str(&mut s, message.as_str());
            },
        }
        s
    }
}

/// The exit status of TLC.
#[derive(Debug, Clone, Copy, PartialEq, Eq, Structural)]
pub enum TlcExitStatus {
    /// Completed with no violations.
    Success,
    /// A property violation.
    Violation,
    /// A safety violation (invariant or assertion).
    SafetyViolation,
    /// A liveness violation (temporal property).
    LivenessViolation,
    /// A deadlock.
    Deadlock,
    /// A parsing error.
    ParseError,
    /// A semantic error.
    SemanticError,
    /// Interrupted (for example by a timeout).
    Interrupted,
    /// Unknown exit status.
    Unknown(i32),
}

/// The exit status that a TLC exit code stands for.
pub open spec fn exit_status_of(code: i32) -> TlcExitStatus {
    if code == 0 { TlcExitStatus::Success }
    else if code == 10 { TlcExitStatus::SafetyViolation }
    else if code == 11 { TlcExitStatus::Violation }
    else if code == 12 { TlcExitStatus::LivenessViolation }
    else if code == 13 { TlcExitStatus::Deadlock }
    else if code == 14 { TlcExitStatus::ParseError }
    else if code == 15 { TlcExitStatus::SemanticError }
    else { TlcExitStatus::Unknown(code) }
}

/// The display text of an exit status.
pub open spec fn exit_status_text(s: TlcExitStatus) -> Seq<char> {
    match s {
        TlcExitStatus::Success => "Success"@,
        TlcExitStatus::Violation => "Property Violation"@,
        TlcExitStatus::SafetyViolation => "Safety Violation"@,
        TlcExitStatus::LivenessViolation => "Liveness Violation"@,
        TlcExitStatus::Deadlock => "Deadlock"@,
        TlcExitStatus::ParseError => "Parse Error"@,
        TlcExitStatus::SemanticError => "Semantic Error"@,
        TlcExitStatus::Interrupted => "Interrupted"@,
        TlcExitStatus::Unknown(code) => "Unknown (exit code "@ + signed_decimal(code as int) + ")"@,
    }
}

impl TlcExitStatus {
    /// The status of a TLC exit code: 0 success, 10 safety violation, 11
    /// violation, 12 liveness violation, 13 deadlock, 14 parse error, 15
    /// semantic error, anything else unknown.
    pub fn from_exit_code(code: i32) -> (r: Self)
        ensures
            r == exit_status_of(code),
    {
        match code {
            0 => TlcExitStatus::Success,
            10 => TlcExitStatus::SafetyViolation,
            11 => TlcExitStatus::Violation,
            12 => TlcExitStatus::LivenessViolation,
            13 => TlcExitStatus::Deadlock,
            14 => TlcExitStatus::ParseError,
            15 => TlcExitStatus::SemanticError,
            _ => TlcExitStatus::Unknown(code),
        }
    }

    /// Whether this is success.
    pub fn is_success(&self) -> (r: bool)
        ensures
            r == (*self is Success),
    {
        match self {
            TlcExitStatus::Success => true,
            _ => false,
        }
    }

    /// Whether this is a violation: a property, safety or liveness
    /// violation or a deadlock.
    pub fn is_violation(&self) -> (r: bool)
        ensures
            r == (*self is Violation || *self is SafetyViolation || *self is LivenessViolation || *self is Deadlock),
    {
        match self {
            TlcExitStatus::Violation | TlcExitStatus::SafetyViolation | TlcExitStatus::LivenessViolation
            | TlcExitStatus::Deadlock => true,
            _ => false,
        }
    }

    /// Whether this is an error rather than a violation: a parse or
    /// semantic error, an interruption or an unknown status.
    pub fn is_error(&self) -> (r: bool)
        ensures
            r == (*self is ParseError || *self is SemanticError || *self is Interrupted || *self is Unknown),
    {
        match self {
            TlcExitStatus::ParseError | TlcExitStatus::SemanticError | TlcExitStatus::Interrupted
            | TlcExitStatus::Unknown(_) => true,
            _ => false,
        }
    }

    /// The display text.
    pub fn to_string(&self) -> (s: String)
        ensures
            s@ == exit_status_text(*self),
    {
        match self {
            TlcExitStatus::Success => to_owned_string("Success"),
            TlcExitStatus::Violation => to_owned_string("Property Violation"),
            TlcExitStatus::SafetyViolation => to_owned_string("Safety Violation"),
            TlcExitStatus::LivenessViolation => to_owned_string("Liveness Violation"),
            TlcExitStatus::Deadlock => to_owned_string("Deadlock"),
            TlcExitStatus::ParseError => to_owned_string("Parse Error"),
            TlcExitStatus::SemanticError => to_owned_string("Semantic Error"),
            TlcExitStatus::Interrupted => to_owned_string("Interrupted"),
            TlcExitStatus::Unknown(code) => {
                let mut s = to_owned_string("Unknown (exit code ");
                push_signed_decimal(&mut s, *code as i128);
                push_str(&mut s, ")");
                s
            },
        }
    }
}

/// Every exit status is exactly one of success, a violation or an error.
pub proof fn law_exit_status_partition(code: i32)
    ensures
        ({
            let s = exit_status_of(code);
            let success = s is Success;
            let violation = s is Violation || s is SafetyViolation || s is LivenessViolation || s is Deadlock;
            let error = s is ParseError || s is SemanticError || s is Interrupted || s is Unknown;
            (success || violation || error) && !(success && violation) && !(success && error) && !(violation && error)
        }),
{
}

/// Different exit codes are read as different statuses, and only exit
/// code 0 is read as success: a failing run is never taken for a
/// successful one. Exit code 15 alone is a semantic error, 14 alone a
/// parse error.
pub proof fn law_exit_codes_distinct(a: i32, b: i32)
    ensures
        exit_status_of(a) == exit_status_of(b) ==> a == b,
        exit_status_of(a) is Success <==> a == 0,
        exit_status_of(a) is SemanticError <==> a == 15,
        exit_status_of(a) is ParseError <==> a == 14,
        exit_status_of(a) is Deadlock <==> a == 13,
        exit_status_of(a) is SafetyViolation <==> a == 10,
        exit_status_of(a) is Violation <==> a == 11,
        exit_status_of(a) is LivenessViolation <==> a == 12,
        exit_status_of(a) is Unknown <==> !(a == 0 || 10 <= a <= 15),
        !(exit_status_of(a) is Interrupted),
{
}

/// The status of a trace validation.
#[derive(Debug, Clone, PartialEq, Eq)]
pub enum ValidationStatus {
    /// The trace is valid.
    Valid,
    /// The trace violates properties.
    Invalid,
    /// Validation encountered an error.
    Error(String),
    /// Validation timed out.
    Timeout,
    /// Validation was inconclusive.
    Inconclusive(String),
}

impl ValidationStatus {
    /// Whether the trace is valid.
    pub fn is_valid(&self) -> (r: bool)
        ensures
            r == (*self is Valid),
    {
        match self {
            ValidationStatus::Valid => true,
            _ => false,
        }
    }

    /// Whether violations were found.
    pub fn is_invalid(&self) -> (r: bool)
        ensures
            r == (*self is Invalid),
    {
        match self {
            ValidationStatus::Invalid => true,
            _ => false,
        }
    }

    /// Whether validation ended in an error or a timeout.
    pub fn is_error(&self) -> (r: bool)
        ensures
            r == (*self is Error || *self is Timeout),
    {
        match self {
            ValidationStatus::Error(_) | ValidationStatus::Timeout => true,
            _ => false,
        }
    }

    /// The display text.
    pub fn to_string(&self) -> (s: String)
        ensures
            s@ == match self {
                ValidationStatus::Valid => "Valid"@,
                ValidationStatus::Invalid => "Invalid"@,
                ValidationStatus::Error(m) => "Error: "@ + m@,
                ValidationStatus::Timeout => "Timeout"@,
                ValidationStatus::Inconclusive(m) => "Inconclusive: "@ + m@,
            },
    {
        match self {
            ValidationStatus::Valid => to_owned_string("Valid"),
            ValidationStatus::Invalid => to_owned_string("Invalid"),
            ValidationStatus::Error(m) => {
                let mut s = to_owned_string("Error: ");
                push_str(&mut s, m.as_str());
                s
            },
            ValidationStatus::Timeout => to_owned_string("Timeout"),
            ValidationStatus::Inconclusive(m) => {
                let mut s = to_owned_string("Inconclusive: ");
                push_str(&mut s, m.as_str());
                s
            },
        }
    }
}

/// The type of TLA+ property that was violated.
#[derive(Debug, Clone, Copy, PartialEq, Eq, Structural)]
pub enum PropertyType {
    /// A state predicate that must always hold.
    Invariant,
    /// A constraint on state transitions.
    Action,
    /// A temporal property.
    Temporal,
    /// A type invariant.
    TypeInvariant,
    /// A state constraint.
    StateConstraint,
    /// No enabled actions.
    Deadlock,
    /// An assertion failure.
    Assertion,
    /// Unknown property type.
    Unknown,
}

impl PropertyType {
    /// The display text.
    pub fn to_string(&self) -> (s: String)
        ensures
            s@ == match self {
                PropertyType::Invariant => "Invariant"@,
                PropertyType::Action => "Action Property"@,
                PropertyType::Temporal => "Temporal Property"@,
                PropertyType::TypeInvariant => "Type Invariant"@,
                PropertyType::StateConstraint => "State Constraint"@,
                PropertyType::Deadlock => "Deadlock"@,
                PropertyType::Assertion => "Assertion"@,
                PropertyType::Unknown => "Unknown"@,
            },
    {
        match self {
            PropertyType::Invariant => to_owned_string("Invariant"),
            PropertyType::Action => to_owned_string("Action Property"),
            PropertyType::Temporal => to_owned_string("Temporal Property"),
            PropertyType::TypeInvariant => to_owned_string("Type Invariant"),
            PropertyType::StateConstraint => to_owned_string("State Constraint"),
            PropertyType::Deadlock => to_owned_string("Deadlock"),
            PropertyType::Assertion => to_owned_string("Assertion"),
            PropertyType::Unknown => to_owned_string("Unknown"),
        }
    }
}

/// Coverage information from TLC.
#[derive(Debug, Clone)]
pub struct CoverageInfo {
    /// The module name.
    pub module: String,
    /// The action name.
    pub action: String,
    /// Number of times the action was taken.
    pub count: u64,
}

/// A state in a counterexample trace.
#[derive(Debug)]
pub struct CounterexampleState {
    /// The step number (1-indexed, as TLC numbers them).
    pub step: usize,
    /// The action that led to this state.
    pub action: Option<String>,
    /// The variable values, by name.
    pub variables: Vec<(String, TlaValue)>,
    /// Additional annotations from TLC.
    pub annotations: Option<String>,
}

impl CounterexampleState {
    /// Well formed: variable names are distinct.
    pub open spec fn wf(self) -> bool {
        distinct_names(self.variables@)
    }

    /// A state with no action, variables or annotations.
    pub fn new(step: usize) -> (r: Self)
        ensures
            r.wf(),
            r.step == step,
            r.action is None,
            r.variables@.len() == 0,
            r.annotations is None,
    {
        CounterexampleState { step, action: None, variables: Vec::new(), annotations: None }
    }

    /// Sets the action.
    pub fn with_action(self, action: &str) -> (r: Self)
        ensures
            r.action matches Some(a) && a@ == action@,
            r.step == self.step && r.variables == self.variables && r.annotations == self.annotations,
    {
        CounterexampleState { action: Some(to_owned_string(action)), ..self }
    }

    /// Sets a variable's value.
    pub fn with_variable(self, name: &str, value: TlaValue) -> (r: Self)
        requires
            self.wf(),
        ensures
            r.wf(),
            named_updated(self.variables@, r.variables@, name@, value),
            r.step == self.step && r.action == self.action && r.annotations == self.annotations,
    {
        let mut s = self;
        set_named(&mut s.variables, to_owned_string(name), value);
        s
    }

    /// Replaces all variable values.
    pub fn with_variables(self, variables: Vec<(String, TlaValue)>) -> (r: Self)
        ensures
            r.variables == variables,
            r.step == self.step && r.action == self.action && r.annotations == self.annotations,
    {
        CounterexampleState { variables, ..self }
    }

    /// Sets the annotations.
    pub fn with_annotations(self, annotations: &str) -> (r: Self)
        ensures
            r.annotations matches Some(a) && a@ == annotations@,
            r.step == self.step && r.action == self.action && r.variables == self.variables,
    {
        CounterexampleState { annotations: Some(to_owned_string(annotations)), ..self }
    }

    /// A variable's value.
    pub fn get_variable(&self, name: &str) -> (r: Option<&TlaValue>)
        requires
            self.wf(),
        ensures
            match named_value(self.variables@, name@) {
                Some(v) => r matches Some(x) && *x == v,
                None => r is None,
            },
    {
        get_named(&self.variables, name)
    }
}

/// A counterexample trace leading to a violation.
#[derive(Debug)]
pub struct CounterexampleTrace {
    /// The states of the trace.
    pub states: Vec<CounterexampleState>,
    /// The violated property.
    pub violated_property: Option<String>,
    /// Description of the counterexample.
    pub description: Option<String>,
    /// Whether the trace loops back to an earlier state.
    pub is_lasso: bool,
    /// For a lasso, the index where the loop starts.
    pub loop_start: Option<usize>,
}

impl CounterexampleTrace {
    /// A trace of the given states.
    pub fn new(states: Vec<CounterexampleState>) -> (r: Self)
        ensures
            r.states == states,
            r.violated_property is None && r.description is None,
            !r.is_lasso && r.loop_start is None,
    {
        CounterexampleTrace { states, violated_property: None, description: None, is_lasso: false, loop_start: None }
    }

    /// Sets the violated property.
    pub fn with_violated_property(self, property: &str) -> (r: Self)
        ensures
            r.violated_property matches Some(p) && p@ == property@,
            r == (CounterexampleTrace { violated_property: r.violated_property, ..self }),
    {
        CounterexampleTrace { violated_property: Some(to_owned_string(property)), ..self }
    }

    /// Sets the description.
    pub fn with_description(self, description: &str) -> (r: Self)
        ensures
            r.description matches Some(d) && d@ == description@,
            r == (CounterexampleTrace { description: r.description, ..self }),
    {
        CounterexampleTrace { description: Some(to_owned_string(description)), ..self }
    }

    /// Marks the trace as a lasso looping back to `loop_start`.
    pub fn with_lasso(self, loop_start: usize) -> (r: Self)
        ensures
            r == (CounterexampleTrace { is_lasso: true, loop_start: Some(loop_start), ..self }),
    {
        CounterexampleTrace { is_lasso: true, loop_start: Some(loop_start), ..self }
    }

    /// Number of states.
    pub fn len(&self) -> (r: usize)
        ensures
            r == self.states@.len(),
    {
        self.states.len()
    }

    /// No states.
    pub fn is_empty(&self) -> (r: bool)
        ensures
            r == (self.states@.len() == 0),
    {
        self.states.len() == 0
    }

    /// The first state.
    pub fn initial_state(&self) -> (r: Option<&CounterexampleState>)
        ensures
            self.states@.len() == 0 ==> r is None,
            self.states@.len() > 0 ==> (r matches Some(x) && *x == self.states@[0]),
    {
        if self.states.len() == 0 {
            None
        } else {
            Some(&self.states[0])
        }
    }

    /// The last state, where the violation occurs.
    pub fn final_state(&self) -> (r: Option<&CounterexampleState>)
        ensures
            self.states@.len() == 0 ==> r is None,
            self.states@.len() > 0 ==> (r matches Some(x) && *x == self.states@.last()),
    {
        let n = self.states.len();
        if n == 0 {
            None
        } else {
            Some(&self.states[n - 1])
        }
    }
}

/// A property violation found during trace validation.
#[derive(Debug)]
pub struct PropertyViolation {
    /// The type of the violated property.
    pub property_type: PropertyType,
    /// The name of the violated property.
    pub property_name: Option<String>,
    /// A human-readable description.
    pub description: String,
    /// The step where the violation was detected.
    pub step: Option<usize>,
    /// The state at which the violation occurred.
    pub state: Option<CounterexampleState>,
    /// The action that led to the violation.
    pub action: Option<String>,
}

impl PropertyViolation {
    /// A violation with nothing but its type and description.
    pub fn new(property_type: PropertyType, description: &str) -> (r: Self)
        ensures
            r.property_type == property_type,
            r.description@ == description@,
            r.property_name is None && r.step is None && r.state is None && r.action is None,
    {
        PropertyViolation {
            property_type,
            property_name: None,
            description: to_owned_string(description),
            step: None,
            state: None,
            action: None,
        }
    }

    /// Sets the property name.
    pub fn with_name(self, name: &str) -> (r: Self)
        ensures
            r.property_name matches Some(n) && n@ == name@,
            r == (PropertyViolation { property_name: r.property_name, ..self }),
    {
        PropertyViolation { property_name: Some(to_owned_string(name)), ..self }
    }

    /// Sets the step.
    pub fn with_step(self, step: usize) -> (r: Self)
        ensures
            r == (PropertyViolation { step: Some(step), ..self }),
    {
        PropertyViolation { step: Some(step), ..self }
    }

    /// Sets the state.
    pub fn with_state(self, state: CounterexampleState) -> (r: Self)
        ensures
            r == (PropertyViolation { state: Some(state), ..self }),
    {
        PropertyViolation { state: Some(state), ..self }
    }

    /// Sets the action.
    pub fn with_action(self, action: &str) -> (r: Self)
        ensures
            r.action matches Some(a) && a@ == action@,
            r == (PropertyViolation { action: r.action, ..self }),
    {
        PropertyViolation { action: Some(to_owned_string(action)), ..self }
    }
}

/// The result of validating a trace against a TLA+ specification.
#[derive(Debug)]
pub struct ValidationResult {
    /// The overall status.
    pub status: ValidationStatus,
    /// Property violations found.
    pub violations: Vec<PropertyViolation>,
    /// The TLC exit status.
    pub tlc_exit_status: Option<TlcExitStatus>,
    /// Time taken.
    pub duration: Option<Duration>,
    /// Number of states explored.
    pub states_explored: Option<u64>,
    /// Number of distinct states.
    pub distinct_states: Option<u64>,
    /// Counterexample trace of a violation.
    pub counterexample: Option<CounterexampleTrace>,
    /// Raw TLC output.
    pub raw_output: Option<String>,
    /// Diagnostic messages.
    pub diagnostics: Vec<String>,
}

/// A result with the given status, violations and exit status and
/// nothing else.
pub open spec fn plain_result(r: ValidationResult, status: ValidationStatus, n_violations: nat, exit: Option<TlcExitStatus>) -> bool {
    &&& r.status == status
    &&& r.violations@.len() == n_violations
    &&& r.tlc_exit_status == exit
    &&& r.duration is None
    &&& r.states_explored is None && r.distinct_states is None
    &&& r.counterexample is None && r.raw_output is None
    &&& r.diagnostics@.len() == 0
}

impl ValidationResult {
    fn plain(status: ValidationStatus, violations: Vec<PropertyViolation>, exit: Option<TlcExitStatus>) -> (r: Self)
        ensures
            plain_result(r, status, violations@.len(), exit),
            r.violations == violations,
    {
        ValidationResult {
            status,
            violations,
            tlc_exit_status: exit,
            duration: None,
            states_explored: None,
            distinct_states: None,
            counterexample: None,
            raw_output: None,
            diagnostics: Vec::new(),
        }
    }

    /// A valid result with exit status Success.
    pub fn valid() -> (r: Self)
        ensures
            plain_result(r, ValidationStatus::Valid, 0, Some(TlcExitStatus::Success)),
    {
        ValidationResult::plain(ValidationStatus::Valid, Vec::new(), Some(TlcExitStatus::Success))
    }

    /// An invalid result with the given violations.
    pub fn invalid(violations: Vec<PropertyViolation>) -> (r: Self)
        ensures
            plain_result(r, ValidationStatus::Invalid, violations@.len(), None),
            r.violations == violations,
    {
        ValidationResult::plain(ValidationStatus::Invalid, violations, None)
    }

    /// An error result.
    pub fn error(message: &str) -> (r: Self)
        ensures
            r.status matches ValidationStatus::Error(m) && m@ == message@,
            plain_result(r, r.status, 0, None),
    {
        ValidationResult::plain(ValidationStatus::Error(to_owned_string(message)), Vec::new(), None)
    }

    /// A timeout result with exit status Interrupted.
    pub fn timeout() -> (r: Self)
        ensures
            plain_result(r, ValidationStatus::Timeout, 0, Some(TlcExitStatus::Interrupted)),
    {
        ValidationResult::plain(ValidationStatus::Timeout, Vec::new(), Some(TlcExitStatus::Interrupted))
    }

    /// Whether the trace is valid.
    pub fn is_valid(&self) -> (r: bool)
        ensures
            r == (self.status is Valid),
    {
        self.status.is_valid()
    }

    /// Whether violations were found.
    pub fn is_invalid(&self) -> (r: bool)
        ensures
            r == (self.status is Invalid),
    {
        self.status.is_invalid()
    }

    /// Sets the exit status.
    pub fn with_exit_status(self, status: TlcExitStatus) -> (r: Self)
        ensures
            r == (ValidationResult { tlc_exit_status: Some(status), ..self }),
    {
        ValidationResult { tlc_exit_status: Some(status), ..self }
    }

    /// Sets the duration.
    pub fn with_duration(self, duration: Duration) -> (r: Self)
        ensures
            r == (ValidationResult { duration: Some(duration), ..self }),
    {
        ValidationResult { duration: Some(duration), ..self }
    }

    /// Sets the state counts.
    pub fn with_state_counts(self, explored: u64, distinct: u64) -> (r: Self)
        ensures
            r == (ValidationResult { states_explored: Some(explored), distinct_states: Some(distinct), ..self }),
    {
        ValidationResult { states_explored: Some(explored), distinct_states: Some(distinct), ..self }
    }

    /// Sets the counterexample.
    pub fn with_counterexample(self, ce: CounterexampleTrace) -> (r: Self)
        ensures
            r == (ValidationResult { counterexample: Some(ce), ..self }),
    {
        ValidationResult { counterexample: Some(ce), ..self }
    }

    /// Sets the raw output.
    pub fn with_raw_output(self, output: &str) -> (r: Self)
        ensures
            r.raw_output matches Some(o) && o@ == output@,
            r == (ValidationResult { raw_output: r.raw_output, ..self }),
    {
        ValidationResult { raw_output: Some(to_owned_string(output)), ..self }
    }

    /// Appends a diagnostic message.
    pub fn with_diagnostic(self, message: &str) -> (r: Self)
        ensures
            r.diagnostics@.len() == self.diagnostics@.len() + 1,
            forall|i: int| 0 <= i < self.diagnostics@.len() ==> #[trigger] r.diagnostics@[i] == self.diagnostics@[i],
            r.diagnostics@.last()@ == message@,
            r == (ValidationResult { diagnostics: r.diagnostics, ..self }),
    {
        let mut s = self;
        s.diagnostics.push(to_owned_string(message));
        s
    }

    /// The first violation, if any.
    pub fn primary_violation(&self) -> (r: Option<&PropertyViolation>)
        ensures
            self.violations@.len() == 0 ==> r is None,
            self.violations@.len() > 0 ==> (r matches Some(v) && *v == self.violations@[0]),
    {
        if self.violations.len() == 0 {
            None
        } else {
            Some(&self.violations[0])
        }
    }
}

/// Parsed output of a TLC run.
#[derive(Debug)]
pub struct ParsedTlcOutput {
    /// The TLC version.
    pub version: Option<String>,
    /// Start time of the run.
    pub start_time: Option<String>,
    /// End time of the run.
    pub end_time: Option<String>,
    /// Number of states generated.
    pub states_generated: Option<u64>,
    /// Number of distinct states.
    pub distinct_states: Option<u64>,
    /// Number of states left on the queue.
    pub states_left: Option<u64>,
    /// Whether checking completed.
    pub completed: bool,
    /// Errors found.
    pub errors: Vec<String>,
    /// Warnings found.
    pub warnings: Vec<String>,
    /// Coverage information.
    pub coverage: Vec<CoverageInfo>,
    /// Counterexample of a violation.
    pub counterexample: Option<CounterexampleTrace>,
}

impl ParsedTlcOutput {
    /// Empty parsed output.
    pub fn new() -> (r: Self)
        ensures
            r.version is None && r.start_time is None && r.end_time is None,
            r.states_generated is None && r.distinct_states is None && r.states_left is None,
            !r.completed,
            r.errors@.len() == 0 && r.warnings@.len() == 0 && r.coverage@.len() == 0,
            r.counterexample is None,
    {
        ParsedTlcOutput {
            version: None,
            start_time: None,
            end_time: None,
            states_generated: None,
            distinct_states: None,
            states_left: None,
            completed: false,
            errors: Vec::new(),
            warnings: Vec::new(),
            coverage: Vec::new(),
            counterexample: None,
        }
    }
}

impl Default for ParsedTlcOutput {
    fn default() -> (r: Self)
        ensures
            r.version is None && r.start_time is None && r.end_time is None,
            r.states_generated is None && r.distinct_states is None && r.states_left is None,
            !r.completed,
            r.errors@.len() == 0 && r.warnings@.len() == 0 && r.coverage@.len() == 0,
            r.counterexample is None,
    {
        ParsedTlcOutput::new()
    }
}

} // verus!
