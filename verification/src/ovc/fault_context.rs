//! Time-fault context: time-related faults injected into or detected in
//! the system under test.
use vstd::prelude::*;
use crate::text::{decimal, push_decimal, push_str, empty_string, to_owned_string};
use super::controller_time::ControllerTime;
use super::observed_time::NodeId;

verus! {

/// Types of time-related faults.
#[derive(Debug, Clone, Copy, PartialEq, Eq, Structural, Hash)]
pub enum TimeFaultType {
    /// Clock jumped forward significantly.
    ClockSkewForward,
    /// Clock jumped backward.
    ClockSkewBackward,
    /// Clock is drifting faster than expected.
    ClockDriftFast,
    /// Clock is drifting slower than expected.
    ClockDriftSlow,
    /// Clock stopped advancing.
    ClockFrozen,
    /// NTP synchronization failure.
    NtpSyncFailure,
    /// Leap second occurred.
    LeapSecond,
    /// Time zone change.
    TimezoneChange,
    /// Daylight saving time transition.
    DstTransition,
    /// Hardware clock failure.
    HardwareClockFailure,
    /// Virtualization-related time anomaly.
    VirtualizationAnomaly,
    /// PTP fault.
    PtpFault,
    /// Clock source switchover.
    ClockSourceChange,
    /// Injected fault for testing.
    InjectedFault,
    /// Unknown or unclassified fault.
    Unknown,
}

/// The compact code of a fault type: its position in the list, 255 for
/// `Unknown`.
pub open spec fn fault_code(t: TimeFaultType) -> u32 {
    match t {
        TimeFaultType::ClockSkewForward => 0,
        TimeFaultType::ClockSkewBackward => 1,
        TimeFaultType::ClockDriftFast => 2,
        TimeFaultType::ClockDriftSlow => 3,
        TimeFaultType::ClockFrozen => 4,
        TimeFaultType::NtpSyncFailure => 5,
        TimeFaultType::LeapSecond => 6,
        TimeFaultType::TimezoneChange => 7,
        TimeFaultType::DstTransition => 8,
        TimeFaultType::HardwareClockFailure => 9,
        TimeFaultType::VirtualizationAnomaly => 10,
        TimeFaultType::PtpFault => 11,
        TimeFaultType::ClockSourceChange => 12,
        TimeFaultType::InjectedFault => 13,
        TimeFaultType::Unknown => 255,
    }
}

/// The human-readable description of a fault type.
pub open spec fn fault_description(t: TimeFaultType) -> Seq<char> {
    match t {
        TimeFaultType::ClockSkewForward => "Clock jumped forward"@,
        TimeFaultType::ClockSkewBackward => "Clock jumped backward"@,
        TimeFaultType::ClockDriftFast => "Clock drifting fast"@,
        TimeFaultType::ClockDriftSlow => "Clock drifting slow"@,
        TimeFaultType::ClockFrozen => "Clock frozen"@,
        TimeFaultType::NtpSyncFailure => "NTP synchronization failure"@,
        TimeFaultType::LeapSecond => "Leap second occurred"@,
        TimeFaultType::TimezoneChange => "Timezone change"@,
        TimeFaultType::DstTransition => "DST transition"@,
        TimeFaultType::HardwareClockFailure => "Hardware clock failure"@,
        TimeFaultType::VirtualizationAnomaly => "Virtualization time anomaly"@,
        TimeFaultType::PtpFault => "PTP fault"@,
        TimeFaultType::ClockSourceChange => "Clock source changed"@,
        TimeFaultType::InjectedFault => "Injected fault"@,
        TimeFaultType::Unknown => "Unknown fault"@,
    }
}

impl TimeFaultType {
    /// A human-readable description of the fault type.
    pub fn description(&self) -> (r: &'static str)
        ensures
            r@ == fault_description(*self),
    {
        match self {
            TimeFaultType::ClockSkewForward => "Clock jumped forward",
            TimeFaultType::ClockSkewBackward => "Clock jumped backward",
            TimeFaultType::ClockDriftFast => "Clock drifting fast",
            TimeFaultType::ClockDriftSlow => "Clock drifting slow",
            TimeFaultType::ClockFrozen => "Clock frozen",
            TimeFaultType::NtpSyncFailure => "NTP synchronization failure",
            TimeFaultType::LeapSecond => "Leap second occurred",
            TimeFaultType::TimezoneChange => "Timezone change",
            TimeFaultType::DstTransition => "DST transition",
            TimeFaultType::HardwareClockFailure => "Hardware clock failure",
            TimeFaultType::VirtualizationAnomaly => "Virtualization time anomaly",
            TimeFaultType::PtpFault => "PTP fault",
            TimeFaultType::ClockSourceChange => "Clock source changed",
            TimeFaultType::InjectedFault => "Injected fault",
            TimeFaultType::Unknown => "Unknown fault",
        }
    }

    /// Whether this is a backward time jump.
    pub fn is_backward_jump(&self) -> (r: bool)
        ensures
            r == (*self is ClockSkewBackward),
    {
        match self {
            TimeFaultType::ClockSkewBackward => true,
            _ => false,
        }
    }

    /// Whether this is a forward time jump.
    pub fn is_forward_jump(&self) -> (r: bool)
        ensures
            r == (*self is ClockSkewForward),
    {
        match self {
            TimeFaultType::ClockSkewForward => true,
            _ => false,
        }
    }

    /// Whether this is clock drift.
    pub fn is_drift(&self) -> (r: bool)
        ensures
            r == (*self is ClockDriftFast || *self is ClockDriftSlow),
    {
        match self {
            TimeFaultType::ClockDriftFast | TimeFaultType::ClockDriftSlow => true,
            _ => false,
        }
    }

    /// Whether this is an injected fault.
    pub fn is_injected(&self) -> (r: bool)
        ensures
            r == (*self is InjectedFault),
    {
        match self {
            TimeFaultType::InjectedFault => true,
            _ => false,
        }
    }

    /// The compact code for storage.
    pub fn to_compact(&self) -> (r: u32)
        ensures
            r == fault_code(*self),
    {
        match self {
            TimeFaultType::ClockSkewForward => 0,
            TimeFaultType::ClockSkewBackward => 1,
            TimeFaultType::ClockDriftFast => 2,
            TimeFaultType::ClockDriftSlow => 3,
            TimeFaultType::ClockFrozen => 4,
            TimeFaultType::NtpSyncFailure => 5,
            TimeFaultType::LeapSecond => 6,
            TimeFaultType::TimezoneChange => 7,
            TimeFaultType::DstTransition => 8,
            TimeFaultType::HardwareClockFailure => 9,
            TimeFaultType::VirtualizationAnomaly => 10,
            TimeFaultType::PtpFault => 11,
            TimeFaultType::ClockSourceChange => 12,
            TimeFaultType::InjectedFault => 13,
            TimeFaultType::Unknown => 255,
        }
    }

    /// The fault type with the given compact code; `Unknown` for a code
    /// that names none.
    pub fn from_compact(value: u32) -> (r: Self)
        ensures
            r == fault_from_code(value),
    {
        match value {
            0 => TimeFaultType::ClockSkewForward,
            1 => TimeFaultType::ClockSkewBackward,
            2 => TimeFaultType::ClockDriftFast,
            3 => TimeFaultType::ClockDriftSlow,
            4 => TimeFaultType::ClockFrozen,
            5 => TimeFaultType::NtpSyncFailure,
            6 => TimeFaultType::LeapSecond,
            7 => TimeFaultType::TimezoneChange,
            8 => TimeFaultType::DstTransition,
            9 => TimeFaultType::HardwareClockFailure,
            10 => TimeFaultType::VirtualizationAnomaly,
            11 => TimeFaultType::PtpFault,
            12 => TimeFaultType::ClockSourceChange,
            13 => TimeFaultType::InjectedFault,
            _ => TimeFaultType::Unknown,
        }
    }

    /// The display text: the description.
    pub fn to_string(&self) -> (s: String)
        ensures
            s@ == fault_description(*self),
    {
        to_owned_string(self.description())
    }
}

/// The fault type named by a compact code; `Unknown` for any other code.
pub open spec fn fault_from_code(v: u32) -> TimeFaultType {
    if v == 0 { TimeFaultType::ClockSkewForward }
    else if v == 1 { TimeFaultType::ClockSkewBackward }
    else if v == 2 { TimeFaultType::ClockDriftFast }
    else if v == 3 { TimeFaultType::ClockDriftSlow }
    else if v == 4 { TimeFaultType::ClockFrozen }
    else if v == 5 { TimeFaultType::NtpSyncFailure }
    else if v == 6 { TimeFaultType::LeapSecond }
    else if v == 7 { TimeFaultType::TimezoneChange }
    else if v == 8 { TimeFaultType::DstTransition }
    else if v == 9 { TimeFaultType::HardwareClockFailure }
    else if v == 10 { TimeFaultType::VirtualizationAnomaly }
    else if v == 11 { TimeFaultType::PtpFault }
    else if v == 12 { TimeFaultType::ClockSourceChange }
    else if v == 13 { TimeFaultType::InjectedFault }
    else { TimeFaultType::Unknown }
}

/// Decoding a fault type's compact code gives the fault type back, and
/// encoding the fault type of a code from 0 to 13 gives the code back.
pub proof fn law_fault_code_roundtrip(t: TimeFaultType, v: u32)
    ensures
        fault_from_code(fault_code(t)) == t,
        v <= 13 ==> fault_code(fault_from_code(v)) == v,
{
}

/// Severity level of a time fault, ordered from Info to Critical.
#[derive(Debug, Clone, Copy, PartialEq, Eq, Structural, PartialOrd, Ord, Hash)]
pub enum FaultSeverity {
    /// No impact on correctness.
    Info,
    /// Potential impact, should be investigated.
    Warning,
    /// Likely correctness impact.
    Error,
    /// Definite correctness impact.
    Critical,
}

/// The display text of a severity.
pub open spec fn severity_text(s: FaultSeverity) -> Seq<char> {
    match s {
        FaultSeverity::Info => "INFO"@,
        FaultSeverity::Warning => "WARN"@,
        FaultSeverity::Error => "ERROR"@,
        FaultSeverity::Critical => "CRITICAL"@,
    }
}

impl FaultSeverity {
    /// The display text `INFO`, `WARN`, `ERROR` or `CRITICAL`.
    pub fn to_string(&self) -> (s: String)
        ensures
            s@ == severity_text(*self),
    {
        match self {
            FaultSeverity::Info => to_owned_string("INFO"),
            FaultSeverity::Warning => to_owned_string("WARN"),
            FaultSeverity::Error => to_owned_string("ERROR"),
            FaultSeverity::Critical => to_owned_string("CRITICAL"),
        }
    }
}

/// The absolute value of a signed magnitude.
pub open spec fn abs_value(n: int) -> nat {
    if n < 0 { (-n) as nat } else { n as nat }
}

/// The display text of a magnitude: its sign, then the absolute value in
/// the largest unit of s, ms, us or ns that it reaches, rounded down.
pub open spec fn magnitude_text(n: int) -> Seq<char> {
    let a = abs_value(n);
    let sign = if n < 0 { "-"@ } else { "+"@ };
    if a >= 1_000_000_000 {
        sign + decimal(a / 1_000_000_000) + "s"@
    } else if a >= 1_000_000 {
        sign + decimal(a / 1_000_000) + "ms"@
    } else if a >= 1_000 {
        sign + decimal(a / 1_000) + "us"@
    } else {
        sign + decimal(a) + "ns"@
    }
}

/// The absolute value of an `i128` as `u128`.
fn unsigned_abs(n: i128) -> (r: u128)
    ensures
        r == abs_value(n as int),
{
    if n < 0 {
        ((-(n + 1)) as u128) + 1
    } else {
        n as u128
    }
}

/// Context about a time-related fault.
#[derive(Debug, Clone, PartialEq, Eq)]
pub struct TimeFaultContext {
    /// The type of fault.
    pub fault_type: TimeFaultType,
    /// The node where the fault was observed.
    pub affected_node: NodeId,
    /// Controller time when the fault was detected.
    pub detection_time: ControllerTime,
    /// Magnitude of the discrepancy in nanoseconds; positive forward.
    pub magnitude_nanos: Option<i128>,
    /// Severity of the fault.
    pub severity: FaultSeverity,
    /// Additional context.
    pub description: Option<String>,
    /// Whether the fault was injected for testing.
    pub injected: bool,
    /// Correlation id linking related faults.
    pub correlation_id: Option<u64>,
}

impl TimeFaultContext {
    /// A fault context with Warning severity, injected exactly when the
    /// fault type is `InjectedFault`.
    pub fn new(fault_type: TimeFaultType, affected_node: NodeId, detection_time: ControllerTime) -> (r: Self)
        ensures
            r.fault_type == fault_type,
            r.affected_node == affected_node,
            r.detection_time == detection_time,
            r.magnitude_nanos is None,
            r.severity == FaultSeverity::Warning,
            r.description is None,
            r.injected == (fault_type is InjectedFault),
            r.correlation_id is None,
    {
        TimeFaultContext {
            fault_type,
            affected_node,
            detection_time,
            magnitude_nanos: None,
            severity: FaultSeverity::Warning,
            description: None,
            injected: fault_type == TimeFaultType::InjectedFault,
            correlation_id: None,
        }
    }

    /// A fault context marked as injected.
    pub fn injected(fault_type: TimeFaultType, affected_node: NodeId, detection_time: ControllerTime) -> (r: Self)
        ensures
            r.fault_type == fault_type,
            r.affected_node == affected_node,
            r.detection_time == detection_time,
            r.magnitude_nanos is None,
            r.severity == FaultSeverity::Warning,
            r.description is None,
            r.injected,
            r.correlation_id is None,
    {
        let mut ctx = Self::new(fault_type, affected_node, detection_time);
        ctx.injected = true;
        ctx
    }

    /// Sets the magnitude.
    pub fn with_magnitude_nanos(self, nanos: i128) -> (r: Self)
        ensures
            r == (TimeFaultContext { magnitude_nanos: Some(nanos), ..self }),
    {
        TimeFaultContext { magnitude_nanos: Some(nanos), ..self }
    }

    /// Sets the severity.
    pub fn with_severity(self, severity: FaultSeverity) -> (r: Self)
        ensures
            r == (TimeFaultContext { severity, ..self }),
    {
        TimeFaultContext { severity, ..self }
    }

    /// Sets the description.
    pub fn with_description(self, description: &str) -> (r: Self)
        ensures
            r.description matches Some(d) && d@ == description@,
            r == (TimeFaultContext { description: r.description, ..self }),
    {
        TimeFaultContext { description: Some(to_owned_string(description)), ..self }
    }

    /// Sets the correlation id.
    pub fn with_correlation_id(self, id: u64) -> (r: Self)
        ensures
            r == (TimeFaultContext { correlation_id: Some(id), ..self }),
    {
        TimeFaultContext { correlation_id: Some(id), ..self }
    }

    /// The fault type.
    pub fn fault_type(&self) -> (r: TimeFaultType)
        ensures
            r == self.fault_type,
    {
        self.fault_type
    }

    /// The affected node.
    pub fn affected_node(&self) -> (r: NodeId)
        ensures
            r == self.affected_node,
    {
        self.affected_node
    }

    /// The detection time.
    pub fn detection_time(&self) -> (r: ControllerTime)
        ensures
            r == self.detection_time,
    {
        self.detection_time
    }

    /// The magnitude in nanoseconds, if known.
    pub fn magnitude_nanos(&self) -> (r: Option<i128>)
        ensures
            r == self.magnitude_nanos,
    {
        self.magnitude_nanos
    }

    /// The severity.
    pub fn severity(&self) -> (r: FaultSeverity)
        ensures
            r == self.severity,
    {
        self.severity
    }

    /// The description, if any.
    pub fn description(&self) -> (r: Option<&str>)
        ensures
            match self.description {
                Some(d) => r matches Some(t) && t@ == d@,
                None => r is None,
            },
    {
        match &self.description {
            Some(d) => Some(d.as_str()),
            None => None,
        }
    }

    /// Whether the fault was injected.
    pub fn is_injected(&self) -> (r: bool)
        ensures
            r == self.injected,
    {
        self.injected
    }

    /// The correlation id, if any.
    pub fn correlation_id(&self) -> (r: Option<u64>)
        ensures
            r == self.correlation_id,
    {
        self.correlation_id
    }

    /// The absolute magnitude in nanoseconds.
    pub fn abs_magnitude_nanos(&self) -> (r: Option<u128>)
        ensures
            match self.magnitude_nanos {
                Some(m) => r == Some(abs_value(m as int) as u128),
                None => r is None,
            },
    {
        match self.magnitude_nanos {
            Some(m) => Some(unsigned_abs(m)),
            None => None,
        }
    }

    /// The magnitude as a signed human-readable duration (`+5s`, `-100ms`).
    pub fn magnitude_display(&self) -> (r: Option<String>)
        ensures
            match self.magnitude_nanos {
                Some(m) => r matches Some(s) && s@ == magnitude_text(m as int),
                None => r is None,
            },
    {
        match self.magnitude_nanos {
            Some(nanos) => {
                let a = unsigned_abs(nanos);
                let mut s = empty_string();
                if nanos < 0 {
                    push_str(&mut s, "-");
                } else {
                    push_str(&mut s, "+");
                }
                if a >= 1_000_000_000 {
                    push_decimal(&mut s, a / 1_000_000_000);
                    push_str(&mut s, "s");
                } else if a >= 1_000_000 {
                    push_decimal(&mut s, a / 1_000_000);
                    push_str(&mut s, "ms");
                } else if a >= 1_000 {
                    push_decimal(&mut s, a / 1_000);
                    push_str(&mut s, "us");
                } else {
                    push_decimal(&mut s, a);
                    push_str(&mut s, "ns");
                }
                Some(s)
            },
            None => None,
        }
    }

    /// The compact code of the fault type.
    pub fn to_compact(&self) -> (r: u32)
        ensures
            r == fault_code(self.fault_type),
    {
        self.fault_type.to_compact()
    }

    /// The display text:
    /// `[<severity>] <description> on <node> at <time>`, then
    /// ` (magnitude: <m>)` when the magnitude is known and ` [INJECTED]`
    /// for an injected fault.
    pub fn to_string(&self) -> (s: String)
        ensures
            s@ == "["@ + severity_text(self.severity) + "] "@ + fault_description(self.fault_type)
                + " on "@ + self.affected_node.display_text() + " at "@ + self.detection_time.display_text()
                + (match self.magnitude_nanos {
                    Some(m) => " (magnitude: "@ + magnitude_text(m as int) + ")"@,
                    None => Seq::<char>::empty(),
                })
                + (if self.injected { " [INJECTED]"@ } else { Seq::<char>::empty() }),
    {
        let mut s = empty_string();
        push_str(&mut s, "[");
        let sev = self.severity.to_string();
        push_str(&mut s, sev.as_str());
        push_str(&mut s, "] ");
        push_str(&mut s, self.fault_type.description());
        push_str(&mut s, " on ");
        let node = self.affected_node.to_string();
        push_str(&mut s, node.as_str());
        push_str(&mut s, " at ");
        let t = self.detection_time.to_string();
        push_str(&mut s, t.as_str());
        let ghost base = s@;
        match self.magnitude_display() {
            Some(m) => {
                push_str(&mut s, " (magnitude: ");
                push_str(&mut s, m.as_str());
                push_str(&mut s, ")");
            },
            None => {},
        }
        let ghost mid = s@;
        if self.injected {
            push_str(&mut s, " [INJECTED]");
        }
        proof {
            assert(mid =~= base + (match self.magnitude_nanos {
                Some(m) => " (magnitude: "@ + magnitude_text(m as int) + ")"@,
                None => Seq::<char>::empty(),
            }));
            assert(s@ =~= mid + (if self.injected { " [INJECTED]"@ } else { Seq::<char>::empty() }));
        }
        s
    }
}

} // verus!
