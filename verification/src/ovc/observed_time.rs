//! Observed time: what a node believes the wall-clock time to be.
use vstd::prelude::*;
use std::cmp::Ordering;
use crate::text::{decimal, signed_decimal, zero_padded, push_char, push_decimal, push_signed_decimal, push_zero_padded, push_str, empty_string};
use super::controller_time::ControllerTime;

verus! {

/// Identifier of a node in the OVC subsystem.
#[derive(Debug, Clone, Copy, PartialEq, Eq, Structural, PartialOrd, Ord, Hash)]
pub struct NodeId(pub u64);

impl NodeId {
    /// A node id.
    pub fn new(id: u64) -> (r: Self)
        ensures
            r.0 == id,
    {
        NodeId(id)
    }

    /// The raw id.
    pub fn as_u64(&self) -> (r: u64)
        ensures
            r == self.0,
    {
        self.0
    }

    /// The display text `node:<id>`.
    pub open spec fn display_text(self) -> Seq<char> {
        "node:"@ + decimal(self.0 as nat)
    }

    /// Display form `node:<id>`.
    pub fn to_string(&self) -> (s: String)
        ensures
            s@ == self.display_text(),
    {
        let mut s = empty_string();
        push_str(&mut s, "node:");
        push_decimal(&mut s, self.0 as u128);
        s
    }
}

impl From<u64> for NodeId {
    fn from(id: u64) -> (r: Self) {
        NodeId(id)
    }
}

impl vstd::std_specs::convert::FromSpecImpl<u64> for NodeId {
    open spec fn obeys_from_spec() -> bool {
        true
    }

    open spec fn from_spec(id: u64) -> Self {
        NodeId(id)
    }
}

impl From<NodeId> for u64 {
    fn from(id: NodeId) -> (r: Self) {
        id.0
    }
}

impl vstd::std_specs::convert::FromSpecImpl<NodeId> for u64 {
    open spec fn obeys_from_spec() -> bool {
        true
    }

    open spec fn from_spec(id: NodeId) -> Self {
        id.0
    }
}

/// A wall-clock observation reported by a node.
#[derive(Debug, Clone, Copy, PartialEq, Eq, Structural, Hash)]
pub struct ObservedTime {
    /// Wall clock time in nanoseconds as reported by the node.
    pub wall_clock_nanos: i128,
    /// The node that made this observation.
    pub node_id: NodeId,
    /// Estimated offset from controller time (positive: node clock ahead).
    pub estimated_offset_nanos: Option<i128>,
}

impl ObservedTime {
    /// An observation without offset estimate.
    pub fn new(wall_clock_nanos: i128, node_id: NodeId) -> (r: Self)
        ensures
            r == (ObservedTime { wall_clock_nanos, node_id, estimated_offset_nanos: None }),
    {
        ObservedTime { wall_clock_nanos, node_id, estimated_offset_nanos: None }
    }

    /// An observation with a known offset.
    pub fn with_offset(wall_clock_nanos: i128, node_id: NodeId, offset_nanos: i128) -> (r: Self)
        ensures
            r == (ObservedTime { wall_clock_nanos, node_id, estimated_offset_nanos: Some(offset_nanos) }),
    {
        ObservedTime { wall_clock_nanos, node_id, estimated_offset_nanos: Some(offset_nanos) }
    }

    /// The same observation with the given offset estimate.
    pub fn with_estimated_offset(self, offset_nanos: i128) -> (r: Self)
        ensures
            r == (ObservedTime { estimated_offset_nanos: Some(offset_nanos), ..self }),
    {
        ObservedTime { estimated_offset_nanos: Some(offset_nanos), ..self }
    }

    /// The raw wall clock time.
    pub fn wall_clock_nanos(&self) -> (r: i128)
        ensures
            r == self.wall_clock_nanos,
    {
        self.wall_clock_nanos
    }

    /// The observing node.
    pub fn node_id(&self) -> (r: NodeId)
        ensures
            r == self.node_id,
    {
        self.node_id
    }

    /// The offset estimate, if known.
    pub fn estimated_offset_nanos(&self) -> (r: Option<i128>)
        ensures
            r == self.estimated_offset_nanos,
    {
        self.estimated_offset_nanos
    }

    /// Wall clock corrected by the offset, when the offset is known and the
    /// corrected time is not negative.
    pub fn estimated_controller_time(&self) -> (r: Option<ControllerTime>)
        requires
            self.estimated_offset_nanos matches Some(o) ==>
                i128::MIN <= self.wall_clock_nanos - o <= i128::MAX,
        ensures
            r == (match self.estimated_offset_nanos {
                None => None,
                Some(o) => if self.wall_clock_nanos - o >= 0 {
                    Some(ControllerTime((self.wall_clock_nanos - o) as u128))
                } else {
                    None
                },
            }),
    {
        match self.estimated_offset_nanos {
            None => None,
            Some(offset) => {
                let corrected = self.wall_clock_nanos - offset;
                if corrected >= 0 {
                    Some(ControllerTime(corrected as u128))
                } else {
                    None
                }
            },
        }
    }

    /// Sets the offset estimate.
    pub fn set_estimated_offset(&mut self, offset_nanos: i128)
        ensures
            *final(self) == (ObservedTime { estimated_offset_nanos: Some(offset_nanos), ..*old(self) }),
    {
        self.estimated_offset_nanos = Some(offset_nanos);
    }

    /// Clears the offset estimate.
    pub fn clear_estimated_offset(&mut self)
        ensures
            *final(self) == (ObservedTime { estimated_offset_nanos: None, ..*old(self) }),
    {
        self.estimated_offset_nanos = None;
    }

    /// Observed minus controller time (positive: observation ahead).
    pub fn drift_from(&self, controller_time: ControllerTime) -> (r: i128)
        requires
            controller_time.0 <= i128::MAX,
            i128::MIN <= self.wall_clock_nanos - controller_time.0,
        ensures
            r == self.wall_clock_nanos - controller_time.0,
    {
        self.wall_clock_nanos - controller_time.0 as i128
    }

    /// Whether both observations come from the same node.
    pub fn same_node(&self, other: &ObservedTime) -> (r: bool)
        ensures
            r == (self.node_id == other.node_id),
    {
        self.node_id.0 == other.node_id.0
    }

    /// The display text `<secs>.<9-digit nanos>s@<node>`, with
    /// ` (offset: <o>ns)` when an offset is estimated; seconds round toward
    /// zero and the nanoseconds are shown without sign.
    pub open spec fn display_text(self) -> Seq<char> {
        signed_decimal(secs_toward_zero(self.wall_clock_nanos as int)) + "."@
            + zero_padded(subsec_magnitude(self.wall_clock_nanos as int), 9) + "s@"@
            + self.node_id.display_text()
            + match self.estimated_offset_nanos {
                Some(o) => " (offset: "@ + signed_decimal(o as int) + "ns)"@,
                None => Seq::<char>::empty(),
            }
    }

    /// Display form `<secs>.<9-digit nanos>s@<node>`, with the offset
    /// estimate when there is one.
    pub fn to_string(&self) -> (s: String)
        ensures
            s@ == self.display_text(),
    {
        let w = self.wall_clock_nanos;
        let m: u128 = if w >= 0 { w as u128 } else { (-(w + 1)) as u128 + 1 };
        let secs: u128 = m / 1_000_000_000;
        let frac: u128 = m % 1_000_000_000;
        let mut s = empty_string();
        if w < 0 && secs > 0 {
            push_char(&mut s, '-');
        }
        push_decimal(&mut s, secs);
        proof {
            assert(s@ =~= signed_decimal(secs_toward_zero(w as int)));
        }
        push_str(&mut s, ".");
        push_zero_padded(&mut s, frac, 9);
        push_str(&mut s, "s@");
        let node = self.node_id.to_string();
        push_str(&mut s, node.as_str());
        match self.estimated_offset_nanos {
            Some(o) => {
                push_str(&mut s, " (offset: ");
                push_signed_decimal(&mut s, o);
                push_str(&mut s, "ns)");
            },
            None => {},
        }
        s
    }
}

/// Whole seconds of a nanosecond reading, rounded toward zero.
pub open spec fn secs_toward_zero(n: int) -> int {
    if n >= 0 { n / 1_000_000_000 } else { -((-n) / 1_000_000_000) }
}

/// The sub-second nanoseconds of a reading, without sign.
pub open spec fn subsec_magnitude(n: int) -> nat {
    if n >= 0 { (n % 1_000_000_000) as nat } else { ((-n) % 1_000_000_000) as nat }
}

/// Observations are ordered by wall clock only when they come from the same node.
pub open spec fn observed_order(a: ObservedTime, b: ObservedTime) -> Option<Ordering> {
    if a.node_id == b.node_id {
        if a.wall_clock_nanos < b.wall_clock_nanos {
            Some(Ordering::Less)
        } else if a.wall_clock_nanos == b.wall_clock_nanos {
            Some(Ordering::Equal)
        } else {
            Some(Ordering::Greater)
        }
    } else {
        None
    }
}

impl PartialOrd for ObservedTime {
    fn partial_cmp(&self, other: &ObservedTime) -> (r: Option<Ordering>) {
        if self.node_id.0 == other.node_id.0 {
            if self.wall_clock_nanos < other.wall_clock_nanos {
                Some(Ordering::Less)
            } else if self.wall_clock_nanos == other.wall_clock_nanos {
                Some(Ordering::Equal)
            } else {
                Some(Ordering::Greater)
            }
        } else {
            None
        }
    }
}

impl vstd::std_specs::cmp::PartialOrdSpecImpl for ObservedTime {
    open spec fn obeys_partial_cmp_spec() -> bool {
        true
    }

    open spec fn partial_cmp_spec(&self, other: &ObservedTime) -> Option<Ordering> {
        observed_order(*self, *other)
    }
}

} // verus!
