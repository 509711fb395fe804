//! Operations recorded in a history: identifiers, logical timestamps,
//! lifecycle phases.
use vstd::prelude::*;
use crate::node::ProcessId;
use crate::text::{decimal, push_decimal, push_str, empty_string, to_owned_string};

verus! {

/// The JSON value type that results of completed operations carry.
#[verifier::external_type_specification]
#[verifier::external_body]
pub struct ExJsonValue(serde_json::Value);

/// `serde_json::Value::clone`: a deep copy; nothing is stated of the copy.
pub assume_specification[ <serde_json::Value as Clone>::clone ](v: &serde_json::Value) -> serde_json::Value;

/// The `Debug` text of a value (`format!("{:?}", v)`); nothing is stated
/// of the text.
#[verifier::external_body]
pub(crate) fn debug_text<V: std::fmt::Debug>(v: &V) -> String {
    format!("{:?}", v)
}

/// The JSON text of a value (`serde_json::Value`'s `Display`); nothing is
/// stated of the text.
#[verifier::external_body]
pub(crate) fn json_text(v: &serde_json::Value) -> String {
    v.to_string()
}

/// The text `true` or `false`.
pub open spec fn bool_text(b: bool) -> Seq<char> {
    if b { "true"@ } else { "false"@ }
}

/// Unique identifier for an operation within a test run.
#[derive(Debug, Clone, Copy, PartialEq, Eq, Structural, Hash, PartialOrd, Ord)]
pub struct OperationId(pub u64);

/// Display form `OperationId(<n>)`.
pub open spec fn operation_id_text(id: OperationId) -> Seq<char> {
    "OperationId("@ + decimal(id.0 as nat) + ")"@
}

impl OperationId {
    /// Creates a new OperationId with the given value.
    pub fn new(id: u64) -> (r: Self)
        ensures
            r.0 == id,
    {
        OperationId(id)
    }

    /// Returns the inner value of the OperationId.
    pub fn inner(self) -> (r: u64)
        ensures
            r == self.0,
    {
        self.0
    }

    /// Appends the display form `OperationId(<n>)` to `s`.
    pub fn push_text(&self, s: &mut String)
        ensures
            final(s)@ == old(s)@ + operation_id_text(*self),
    {
        push_str(s, "OperationId(");
        push_decimal(s, self.0 as u128);
        push_str(s, ")");
    }

    /// The display form `OperationId(<n>)`.
    pub fn to_string(&self) -> (s: String)
        ensures
            s@ == operation_id_text(*self),
    {
        let mut s = empty_string();
        self.push_text(&mut s);
        s
    }
}

impl From<u64> for OperationId {
    fn from(id: u64) -> (r: Self) {
        OperationId(id)
    }
}

impl vstd::std_specs::convert::FromSpecImpl<u64> for OperationId {
    open spec fn obeys_from_spec() -> bool {
        true
    }

    open spec fn from_spec(id: u64) -> Self {
        OperationId(id)
    }
}

impl From<OperationId> for u64 {
    fn from(id: OperationId) -> (r: Self) {
        id.0
    }
}

impl vstd::std_specs::convert::FromSpecImpl<OperationId> for u64 {
    open spec fn obeys_from_spec() -> bool {
        true
    }

    open spec fn from_spec(id: OperationId) -> Self {
        id.0
    }
}

/// Logical timestamp of an operation: a timestamp and a node-local counter,
/// ordered lexicographically.
#[derive(Debug, Clone, Copy, PartialEq, Eq, Structural, Hash, PartialOrd, Ord)]
pub struct OVC {
    timestamp: u64,
    counter: u32,
}

impl OVC {
    /// The timestamp component.
    pub closed spec fn ts(self) -> u64 {
        self.timestamp
    }

    /// The counter component.
    pub closed spec fn ctr(self) -> u32 {
        self.counter
    }

    /// Lexicographic "strictly before" on (timestamp, counter).
    pub open spec fn before(self, other: OVC) -> bool {
        self.ts() < other.ts() || (self.ts() == other.ts() && self.ctr() < other.ctr())
    }

    /// A new OVC with the given timestamp and zero counter.
    pub fn new(timestamp: u64) -> (r: Self)
        ensures
            r.ts() == timestamp,
            r.ctr() == 0,
    {
        OVC { timestamp, counter: 0 }
    }

    /// A new OVC with the given timestamp and counter.
    pub fn with_counter(timestamp: u64, counter: u32) -> (r: Self)
        ensures
            r.ts() == timestamp,
            r.ctr() == counter,
    {
        OVC { timestamp, counter }
    }

    /// The timestamp component.
    pub fn timestamp(&self) -> (r: u64)
        ensures
            r == self.ts(),
    {
        self.timestamp
    }

    /// The counter component.
    pub fn counter(&self) -> (r: u32)
        ensures
            r == self.ctr(),
    {
        self.counter
    }

    /// An OVC causally after this one: next timestamp, zero counter.
    pub fn increment(&self) -> (r: Self)
        requires
            self.ts() < u64::MAX,
        ensures
            r.ts() == self.ts() + 1,
            r.ctr() == 0,
            self.before(r),
    {
        OVC { timestamp: self.timestamp + 1, counter: 0 }
    }

    /// Same timestamp, next counter.
    pub fn tick(&self) -> (r: Self)
        requires
            self.ctr() < u32::MAX,
        ensures
            r.ts() == self.ts(),
            r.ctr() == self.ctr() + 1,
            self.before(r),
    {
        OVC { timestamp: self.timestamp, counter: self.counter + 1 }
    }

    /// The lexicographic maximum of the two.
    pub fn merge(&self, other: &Self) -> (r: Self)
        ensures
            r == (if self.before(*other) { *other } else { *self }),
            !r.before(*self),
            !r.before(*other),
    {
        if self.timestamp > other.timestamp {
            *self
        } else if other.timestamp > self.timestamp {
            *other
        } else {
            let c = if self.counter >= other.counter { self.counter } else { other.counter };
            OVC { timestamp: self.timestamp, counter: c }
        }
    }

    /// True when this OVC is lexicographically before the other.
    pub fn happens_before(&self, other: &Self) -> (r: bool)
        ensures
            r == self.before(*other),
    {
        self.timestamp < other.timestamp
            || (self.timestamp == other.timestamp && self.counter < other.counter)
    }

    /// True when neither is before the other and they differ.
    pub fn concurrent_with(&self, other: &Self) -> (r: bool)
        ensures
            r == (!self.before(*other) && !other.before(*self) && *self != *other),
    {
        !self.happens_before(other) && !other.happens_before(self)
            && !(self.timestamp == other.timestamp && self.counter == other.counter)
    }

    /// Display form `OVC(<timestamp>.<counter>)`.
    pub fn to_string(&self) -> (s: String)
        ensures
            s@ == "OVC("@ + decimal(self.ts() as nat) + "."@ + decimal(self.ctr() as nat) + ")"@,
    {
        let mut s = empty_string();
        push_str(&mut s, "OVC(");
        push_decimal(&mut s, self.timestamp as u128);
        push_str(&mut s, ".");
        push_decimal(&mut s, self.counter as u128);
        push_str(&mut s, ")");
        s
    }
}

impl Default for OVC {
    fn default() -> (r: Self)
        ensures
            r.ts() == 0 && r.ctr() == 0,
    {
        OVC::new(0)
    }
}

/// Lexicographic order on OVCs is a strict order: irreflexive and transitive,
/// and any two distinct OVCs are ordered one way or the other.
pub proof fn ovc_before_is_strict_total(a: OVC, b: OVC, c: OVC)
    ensures
        !a.before(a),
        a.before(b) && b.before(c) ==> a.before(c),
        a != b ==> (a.before(b) || b.before(a)),
        !(a.before(b) && b.before(a)),
{
}

/// The phase of an operation in its lifecycle.
#[derive(Debug, Clone, PartialEq)]
pub enum OperationPhase {
    /// Called but not yet completed.
    Invoked,
    /// Finished successfully with a result.
    Completed { result: serde_json::Value },
    /// Encountered an error.
    Failed { error: String, retryable: bool },
    /// Exceeded its deadline.
    TimedOut { deadline_ct: u64 },
    /// Informational entry.
    Info { message: String },
}

impl OperationPhase {
    /// Completed, Failed and TimedOut are terminal.
    pub fn is_terminal(&self) -> (r: bool)
        ensures
            r == (self is Completed || self is Failed || self is TimedOut),
    {
        match self {
            OperationPhase::Completed { .. } => true,
            OperationPhase::Failed { .. } => true,
            OperationPhase::TimedOut { .. } => true,
            _ => false,
        }
    }

    /// Only Completed is a success.
    pub fn is_success(&self) -> (r: bool)
        ensures
            r == (self is Completed),
    {
        match self {
            OperationPhase::Completed { .. } => true,
            _ => false,
        }
    }

    /// Failed and TimedOut are failures.
    pub fn is_failure(&self) -> (r: bool)
        ensures
            r == (self is Failed || self is TimedOut),
    {
        match self {
            OperationPhase::Failed { .. } => true,
            OperationPhase::TimedOut { .. } => true,
            _ => false,
        }
    }

    /// Failed with `retryable`, or TimedOut.
    pub fn is_retryable(&self) -> (r: bool)
        ensures
            r == (match self {
                OperationPhase::Failed { retryable, .. } => *retryable,
                OperationPhase::TimedOut { .. } => true,
                _ => false,
            }),
    {
        match self {
            OperationPhase::Failed { retryable, .. } => *retryable,
            OperationPhase::TimedOut { .. } => true,
            _ => false,
        }
    }

    /// A Completed phase with the given result.
    pub fn completed(result: serde_json::Value) -> (r: Self)
        ensures
            r == (OperationPhase::Completed { result }),
    {
        OperationPhase::Completed { result }
    }

    /// A Failed phase.
    pub fn failed(error: &str, retryable: bool) -> (r: Self)
        ensures
            r matches OperationPhase::Failed { error: e, retryable: rt } && e@ == error@ && rt == retryable,
    {
        OperationPhase::Failed { error: to_owned_string(error), retryable }
    }

    /// A TimedOut phase.
    pub fn timed_out(deadline_ct: u64) -> (r: Self)
        ensures
            r == (OperationPhase::TimedOut { deadline_ct }),
    {
        OperationPhase::TimedOut { deadline_ct }
    }

    /// The display form: `Invoked`, `Completed(<result as JSON>)`,
    /// `Failed(<error>, retryable=<bool>)`, `TimedOut(deadline=<n>)` or
    /// `Info(<message>)`.
    pub fn to_string(&self) -> (r: String)
        ensures
            match *self {
                OperationPhase::Invoked => r@ == "Invoked"@,
                OperationPhase::Completed { .. } => exists|t: Seq<char>| r@ == "Completed("@ + t + ")"@,
                OperationPhase::Failed { error, retryable } =>
                    r@ == "Failed("@ + error@ + ", retryable="@ + bool_text(retryable) + ")"@,
                OperationPhase::TimedOut { deadline_ct } => r@ == "TimedOut(deadline="@ + decimal(deadline_ct as nat) + ")"@,
                OperationPhase::Info { message } => r@ == "Info("@ + message@ + ")"@,
            },
    {
        let mut s = empty_string();
        match self {
            OperationPhase::Invoked => push_str(&mut s, "Invoked"),
            OperationPhase::Completed { result } => {
                push_str(&mut s, "Completed(");
                let t = json_text(result);
                push_str(&mut s, t.as_str());
                push_str(&mut s, ")");
                assert(s@ == "Completed("@ + t@ + ")"@);
            },
            OperationPhase::Failed { error, retryable } => {
                push_str(&mut s, "Failed(");
                push_str(&mut s, error.as_str());
                push_str(&mut s, ", retryable=");
                push_str(&mut s, if *retryable { "true" } else { "false" });
                push_str(&mut s, ")");
            },
            OperationPhase::TimedOut { deadline_ct } => {
                push_str(&mut s, "TimedOut(deadline=");
                push_decimal(&mut s, *deadline_ct as u128);
                push_str(&mut s, ")");
            },
            OperationPhase::Info { message } => {
                push_str(&mut s, "Info(");
                push_str(&mut s, message.as_str());
                push_str(&mut s, ")");
            },
        }
        s
    }

    /// An Info phase.
    pub fn info(message: &str) -> (r: Self)
        ensures
            r matches OperationPhase::Info { message: m } && m@ == message@,
    {
        OperationPhase::Info { message: to_owned_string(message) }
    }
}

/// An operation recorded in a history.
#[derive(Debug, Clone)]
pub struct Operation<V> {
    /// Unique identifier within the run.
    pub id: OperationId,
    /// The process that executed the operation.
    pub process: ProcessId,
    /// The function or operation name.
    pub function: String,
    /// The operation arguments.
    pub args: V,
    /// The current phase.
    pub phase: OperationPhase,
    /// Logical timestamp.
    pub ovc: OVC,
}

impl<V> Operation<V> {
    /// A new operation in the Invoked phase.
    pub fn new(id: OperationId, process: ProcessId, function: &str, args: V, ovc: OVC) -> (r: Self)
        ensures
            r.id == id,
            r.process == process,
            r.function@ == function@,
            r.args == args,
            r.phase == OperationPhase::Invoked,
            r.ovc == ovc,
    {
        Operation { id, process, function: to_owned_string(function), args, phase: OperationPhase::Invoked, ovc }
    }

    /// True when the phase is terminal.
    pub fn is_complete(&self) -> (r: bool)
        ensures
            r == (self.phase is Completed || self.phase is Failed || self.phase is TimedOut),
    {
        self.phase.is_terminal()
    }

    /// True when the phase is Completed.
    pub fn is_success(&self) -> (r: bool)
        ensures
            r == (self.phase is Completed),
    {
        self.phase.is_success()
    }

    /// The same operation completed with `result` at `ovc`.
    pub fn with_completion(self, result: serde_json::Value, ovc: OVC) -> (r: Self)
        ensures
            r.id == self.id && r.process == self.process && r.function == self.function,
            r.args == self.args,
            r.phase == (OperationPhase::Completed { result }),
            r.ovc == ovc,
    {
        Operation { phase: OperationPhase::Completed { result }, ovc, ..self }
    }

    /// The same operation failed at `ovc`.
    pub fn with_failure(self, error: &str, retryable: bool, ovc: OVC) -> (r: Self)
        ensures
            r.id == self.id && r.process == self.process && r.function == self.function,
            r.args == self.args,
            r.phase matches OperationPhase::Failed { error: e, retryable: rt } && e@ == error@ && rt == retryable,
            r.ovc == ovc,
    {
        Operation { phase: OperationPhase::failed(error, retryable), ovc, ..self }
    }

    /// The same operation with its arguments mapped by `f`.
    pub fn map_args<U, F: FnOnce(V) -> U>(self, f: F) -> (r: Operation<U>)
        requires
            f.requires((self.args,)),
        ensures
            f.ensures((self.args,), r.args),
            r.id == self.id && r.process == self.process && r.function == self.function,
            r.phase == self.phase,
            r.ovc == self.ovc,
    {
        Operation { id: self.id, process: self.process, function: self.function, args: f(self.args), phase: self.phase, ovc: self.ovc }
    }

    /// The display form `Op[<id> @ <process>] <function>(<args>) -> <phase>`,
    /// with the arguments in their `Debug` text.
    pub fn to_string(&self) -> (r: String)
        where V: std::fmt::Debug
        ensures
            exists|a: Seq<char>, p: Seq<char>| r@ == "Op["@ + operation_id_text(self.id) + " @ "@
                + "Process("@ + decimal(self.process.0 as nat) + ")"@ + "] "@ + self.function@ + "("@ + a + ") -> "@ + p,
    {
        let mut s = empty_string();
        push_str(&mut s, "Op[");
        self.id.push_text(&mut s);
        push_str(&mut s, " @ ");
        let pt = self.process.to_string();
        push_str(&mut s, pt.as_str());
        push_str(&mut s, "] ");
        push_str(&mut s, self.function.as_str());
        push_str(&mut s, "(");
        let a = debug_text(&self.args);
        push_str(&mut s, a.as_str());
        push_str(&mut s, ") -> ");
        let ph = self.phase.to_string();
        push_str(&mut s, ph.as_str());
        assert(s@ =~= "Op["@ + operation_id_text(self.id) + " @ "@
                + "Process("@ + decimal(self.process.0 as nat) + ")"@ + "] "@ + self.function@ + "("@ + a@ + ") -> "@ + ph@);
        s
    }

    /// The same operation timed out at `ovc`.
    pub fn with_timeout(self, deadline_ct: u64, ovc: OVC) -> (r: Self)
        ensures
            r.id == self.id && r.process == self.process && r.function == self.function,
            r.args == self.args,
            r.phase == (OperationPhase::TimedOut { deadline_ct }),
            r.ovc == ovc,
    {
        Operation { phase: OperationPhase::TimedOut { deadline_ct }, ovc, ..self }
    }
}

impl<V: Clone> Operation<V> {
    /// A copy with the given phase and OVC.
    pub fn with_phase(&self, phase: OperationPhase, ovc: OVC) -> (r: Self)
        ensures
            r.id == self.id && r.process == self.process && r.function@ == self.function@,
            r.phase == phase,
            r.ovc == ovc,
    {
        Operation {
            id: self.id,
            process: self.process,
            function: self.function.clone(),
            args: self.args.clone(),
            phase,
            ovc,
        }
    }
}

} // verus!
