//! Identifiers of nodes and processes in the system under test.
use vstd::prelude::*;
use crate::text::{decimal, push_decimal, push_str, empty_string};

verus! {

/// Unique identifier for a node in the distributed system.
#[derive(Debug, Clone, Copy, PartialEq, Eq, Structural, Hash, PartialOrd, Ord)]
pub struct NodeId(pub u32);

impl NodeId {
    /// Creates a new NodeId with the given value.
    pub fn new(id: u32) -> (r: Self)
        ensures
            r.0 == id,
    {
        NodeId(id)
    }

    /// Returns the inner value of the NodeId.
    pub fn inner(self) -> (r: u32)
        ensures
            r == self.0,
    {
        self.0
    }

    /// The display form `Node(<id>)`.
    pub fn to_string(&self) -> (s: String)
        ensures
            s@ == "Node("@ + decimal(self.0 as nat) + ")"@,
    {
        let mut s = empty_string();
        push_str(&mut s, "Node(");
        push_decimal(&mut s, self.0 as u128);
        push_str(&mut s, ")");
        s
    }
}

impl From<u32> for NodeId {
    fn from(id: u32) -> (r: Self) {
        NodeId(id)
    }
}

impl vstd::std_specs::convert::FromSpecImpl<u32> for NodeId {
    open spec fn obeys_from_spec() -> bool {
        true
    }

    open spec fn from_spec(id: u32) -> Self {
        NodeId(id)
    }
}

impl From<NodeId> for u32 {
    fn from(id: NodeId) -> (r: Self) {
        id.0
    }
}

impl vstd::std_specs::convert::FromSpecImpl<NodeId> for u32 {
    open spec fn obeys_from_spec() -> bool {
        true
    }

    open spec fn from_spec(id: NodeId) -> Self {
        id.0
    }
}

/// Unique identifier for a process; each process executes its operations
/// sequentially.
#[derive(Debug, Clone, Copy, PartialEq, Eq, Structural, Hash, PartialOrd, Ord)]
pub struct ProcessId(pub u32);

impl ProcessId {
    /// Creates a new ProcessId with the given value.
    pub fn new(id: u32) -> (r: Self)
        ensures
            r.0 == id,
    {
        ProcessId(id)
    }

    /// Returns the inner value of the ProcessId.
    pub fn inner(self) -> (r: u32)
        ensures
            r == self.0,
    {
        self.0
    }

    /// The display form `Process(<id>)`.
    pub fn to_string(&self) -> (s: String)
        ensures
            s@ == "Process("@ + decimal(self.0 as nat) + ")"@,
    {
        let mut s = empty_string();
        push_str(&mut s, "Process(");
        push_decimal(&mut s, self.0 as u128);
        push_str(&mut s, ")");
        s
    }
}

impl From<u32> for ProcessId {
    fn from(id: u32) -> (r: Self) {
        ProcessId(id)
    }
}

impl vstd::std_specs::convert::FromSpecImpl<u32> for ProcessId {
    open spec fn obeys_from_spec() -> bool {
        true
    }

    open spec fn from_spec(id: u32) -> Self {
        ProcessId(id)
    }
}

impl From<ProcessId> for u32 {
    fn from(id: ProcessId) -> (r: Self) {
        id.0
    }
}

impl vstd::std_specs::convert::FromSpecImpl<ProcessId> for u32 {
    open spec fn obeys_from_spec() -> bool {
        true
    }

    open spec fn from_spec(id: ProcessId) -> Self {
        id.0
    }
}

} // verus!
