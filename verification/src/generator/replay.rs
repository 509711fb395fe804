//! Replay of a recorded history of operations.
use vstd::prelude::*;
use std::collections::VecDeque;
use crate::node::ProcessId;
use crate::text::to_owned_string;
use crate::generator::generated::{GeneratedOp, OperationMetadata};

verus! {

/// A recorded operation.
#[derive(Debug, Clone)]
pub struct RecordedOp<V> {
    /// The process that executed it.
    pub process: ProcessId,
    /// Its value.
    pub value: V,
    /// Its original timestamp.
    pub timestamp: u64,
    /// Its metadata, if recorded.
    pub metadata: Option<OperationMetadata>,
}

impl<V> RecordedOp<V> {
    /// A recorded operation without metadata.
    pub fn new(process: ProcessId, value: V, timestamp: u64) -> (r: Self)
        ensures
            r == (RecordedOp { process, value, timestamp, metadata: None }),
    {
        RecordedOp { process, value, timestamp, metadata: None }
    }

    /// Sets the metadata.
    pub fn with_metadata(self, metadata: OperationMetadata) -> (r: Self)
        ensures
            r == (RecordedOp { metadata: Some(metadata), ..self }),
    {
        RecordedOp { metadata: Some(metadata), ..self }
    }
}

/// `b` is a copy of `a`: the same process, timestamp and metadata, and a
/// clone of the value.
pub open spec fn same_recorded<V: Clone>(a: RecordedOp<V>, b: RecordedOp<V>) -> bool {
    &&& a.process == b.process
    &&& a.timestamp == b.timestamp
    &&& cloned(a.value, b.value)
    &&& match (a.metadata, b.metadata) {
        (Some(x), Some(y)) => y.same_as(x),
        (None, None) => true,
        _ => false,
    }
}

/// A copy of a recorded operation.
fn copy_recorded<V: Clone>(op: &RecordedOp<V>) -> (r: RecordedOp<V>)
    ensures
        same_recorded(*op, r),
{
    RecordedOp {
        process: op.process,
        value: op.value.clone(),
        timestamp: op.timestamp,
        metadata: match &op.metadata {
            Some(m) => Some(m.copy()),
            None => None,
        },
    }
}

/// How recorded operations are matched to the processes that ask.
#[derive(Debug, Clone, Copy, PartialEq, Eq, Structural)]
pub enum ReplayMode {
    /// Only the asking process's own operations, in order.
    Strict,
    /// The next operation regardless of process: the asking process's
    /// next operation when it has one, else the next operation of any
    /// process.
    Relaxed,
    /// The next operation, whichever process recorded it.
    Sequential,
}

impl Default for ReplayMode {
    fn default() -> (r: Self)
        ensures
            r == ReplayMode::Strict,
    {
        ReplayMode::Strict
    }
}

/// The position of the first operation of `p`.
pub open spec fn first_for<V>(ops: Seq<RecordedOp<V>>, p: ProcessId) -> Option<int>
    decreases ops.len(),
{
    if ops.len() == 0 {
        None
    } else if ops[0].process == p {
        Some(0)
    } else {
        match first_for(ops.drop_first(), p) {
            Some(i) => Some(i + 1),
            None => None,
        }
    }
}

/// The first operation of `p` is at `i` when none comes before it.
pub proof fn lemma_first_for<V>(ops: Seq<RecordedOp<V>>, p: ProcessId, i: int)
    requires
        0 <= i < ops.len(),
        ops[i].process == p,
        forall|j: int| 0 <= j < i ==> ops[j].process != p,
    ensures
        first_for(ops, p) == Some(i),
    decreases i,
{
    if i > 0 {
        lemma_first_for(ops.drop_first(), p, i - 1);
    }
}

/// There is no first operation of `p` when `p` has none.
pub proof fn lemma_first_for_none<V>(ops: Seq<RecordedOp<V>>, p: ProcessId)
    requires
        forall|j: int| 0 <= j < ops.len() ==> ops[j].process != p,
    ensures
        first_for(ops, p) is None,
    decreases ops.len(),
{
    if ops.len() > 0 {
        lemma_first_for_none(ops.drop_first(), p);
    }
}

/// What `first_for` finds: an operation of `p` with none of `p` before
/// it, or nothing when `p` has no operation.
proof fn lemma_first_for_found<V>(ops: Seq<RecordedOp<V>>, p: ProcessId)
    ensures
        match first_for(ops, p) {
            Some(i) => 0 <= i < ops.len() && ops[i].process == p
                && forall|j: int| 0 <= j < i ==> (#[trigger] ops[j]).process != p,
            None => forall|j: int| 0 <= j < ops.len() ==> (#[trigger] ops[j]).process != p,
        },
    decreases ops.len(),
{
    if ops.len() > 0 && ops[0].process != p {
        lemma_first_for_found(ops.drop_first(), p);
        let t = ops.drop_first();
        match first_for(t, p) {
            Some(i) => {
                assert forall|j: int| 0 <= j < i + 1 implies (#[trigger] ops[j]).process != p by {
                    if j > 0 {
                        assert(ops[j] == t[j - 1]);
                    }
                }
            },
            None => {
                assert forall|j: int| 0 <= j < ops.len() implies (#[trigger] ops[j]).process != p by {
                    if j > 0 {
                        assert(ops[j] == t[j - 1]);
                    }
                }
            },
        }
    }
}

/// In strict and relaxed replay a process that has recorded operations
/// left is handed its own earliest one. A process with none left gets
/// nothing in strict replay, and in relaxed replay the earliest remaining
/// operation of any process. Sequential replay always hands out the
/// earliest remaining operation.
pub proof fn law_replay_order<V>(v: ReplayView<V>, process: ProcessId)
    ensures
        (v.mode is Strict || v.mode is Relaxed) && (exists|j: int| 0 <= j < v.operations.len() && (#[trigger] v.operations[j]).process == process)
            ==> (replay_index(v, process) matches Some(i) && 0 <= i < v.operations.len()
                && v.operations[i].process == process
                && forall|j: int| 0 <= j < i ==> (#[trigger] v.operations[j]).process != process),
        (forall|j: int| 0 <= j < v.operations.len() ==> (#[trigger] v.operations[j]).process != process) ==> (
            (v.mode is Strict ==> replay_index(v, process) is None)
            && (v.mode is Relaxed ==> replay_index(v, process) == if v.operations.len() > 0 { Some(0int) } else { None })),
        v.mode is Sequential ==> replay_index(v, process) == if v.operations.len() > 0 { Some(0int) } else { None },
{
    lemma_first_for_found(v.operations, process);
}

/// What a replay generator holds.
pub struct ReplayView<V> {
    /// The operations still to replay, in order.
    pub operations: Seq<RecordedOp<V>>,
    /// The history it was made with.
    pub original: Seq<RecordedOp<V>>,
    /// The replay mode.
    pub mode: ReplayMode,
    /// Operations replayed since the start.
    pub position: usize,
    /// The last sequence number handed out.
    pub sequence: u64,
    /// The generator's name.
    pub name: Seq<char>,
    /// Whether replay may go on with another process's operation.
    pub allow_partial: bool,
}

/// The position of the operation to replay next for `process`, if any.
pub open spec fn replay_index<V>(v: ReplayView<V>, process: ProcessId) -> Option<int> {
    match v.mode {
        ReplayMode::Strict => first_for(v.operations, process),
        ReplayMode::Relaxed => if first_for(v.operations, process) is Some {
            first_for(v.operations, process)
        } else if v.operations.len() > 0 {
            Some(0)
        } else {
            None
        },
        ReplayMode::Sequential => if v.operations.len() > 0 {
            Some(0)
        } else {
            None
        },
    }
}

/// A generator that replays a recorded history.
pub struct ReplayGenerator<V> {
    operations: VecDeque<RecordedOp<V>>,
    original: Vec<RecordedOp<V>>,
    mode: ReplayMode,
    position: usize,
    sequence: u64,
    name: String,
    allow_partial: bool,
}

impl<V> View for ReplayGenerator<V> {
    type V = ReplayView<V>;

    closed spec fn view(&self) -> ReplayView<V> {
        ReplayView {
            operations: self.operations@,
            original: self.original@,
            mode: self.mode,
            position: self.position,
            sequence: self.sequence,
            name: self.name@,
            allow_partial: self.allow_partial,
        }
    }
}

impl<V> ReplayGenerator<V> {
    /// Well formed: every operation of the history is replayed or still
    /// to replay, and each replayed one had its sequence number.
    pub open spec fn wf(&self) -> bool {
        &&& self@.position + self@.operations.len() == self@.original.len()
        &&& self@.sequence == self@.position
    }

    /// A generator that replays `operations` strictly, under the name
    /// `ReplayGenerator`.
    pub fn new(operations: Vec<RecordedOp<V>>) -> (r: Self)
        where V: Clone
        ensures
            r.wf(),
            r@.original == operations@,
            r@.operations.len() == operations@.len(),
            forall|i: int| 0 <= i < operations@.len() ==> same_recorded(#[trigger] operations@[i], r@.operations[i]),
            r@.mode == ReplayMode::Strict,
            r@.position == 0,
            r@.sequence == 0,
            r@.name == "ReplayGenerator"@,
            !r@.allow_partial,
    {
        let queue = copy_queue(&operations);
        ReplayGenerator {
            operations: queue,
            original: operations,
            mode: ReplayMode::Strict,
            position: 0,
            sequence: 0,
            name: to_owned_string("ReplayGenerator"),
            allow_partial: false,
        }
    }

    /// Sets the name.
    pub fn with_name(self, name: &str) -> (r: Self)
        ensures
            r@ == (ReplayView { name: name@, ..self@ }),
    {
        ReplayGenerator { name: to_owned_string(name), ..self }
    }

    /// Sets the mode.
    pub fn with_mode(self, mode: ReplayMode) -> (r: Self)
        ensures
            r@ == (ReplayView { mode, ..self@ }),
    {
        ReplayGenerator { mode, ..self }
    }

    /// Allows replay to go on with another process's operation.
    pub fn allow_partial(self) -> (r: Self)
        ensures
            r@ == (ReplayView { allow_partial: true, ..self@ }),
    {
        ReplayGenerator { allow_partial: true, ..self }
    }

    /// The number of operations still to replay.
    pub fn remaining_count(&self) -> (r: usize)
        ensures
            r == self@.operations.len(),
    {
        self.operations.len()
    }

    /// The next operation to replay, without taking it.
    pub fn peek(&self) -> (r: Option<&RecordedOp<V>>)
        ensures
            self@.operations.len() == 0 ==> r is None,
            self@.operations.len() > 0 ==> (r matches Some(x) && *x == self@.operations[0]),
    {
        if self.operations.len() > 0 {
            Some(&self.operations[0])
        } else {
            None
        }
    }

    /// Operations replayed since the start.
    pub fn position(&self) -> (r: usize)
        ensures
            r == self@.position,
    {
        self.position
    }

    /// The number of operations in the history.
    pub fn total_operations(&self) -> (r: usize)
        ensures
            r == self@.original.len(),
    {
        self.original.len()
    }

    /// The generator's name.
    pub fn name(&self) -> (r: &str)
        ensures
            r@ == self@.name,
    {
        self.name.as_str()
    }

    /// Whether nothing is left to replay.
    pub fn is_exhausted(&self) -> (r: bool)
        ensures
            r == (self@.operations.len() == 0),
    {
        self.operations.len() == 0
    }

    /// The position of the first operation of `process`.
    fn find_for(&self, process: ProcessId) -> (r: Option<usize>)
        ensures
            match r {
                Some(k) => first_for(self@.operations, process) == Some(k as int) && k < self@.operations.len(),
                None => first_for(self@.operations, process) is None,
            },
    {
        let n = self.operations.len();
        let mut i: usize = 0;
        while i < n
            invariant
                n == self@.operations.len(),
                i <= n,
                forall|j: int| 0 <= j < i ==> self@.operations[j].process != process,
            decreases n - i,
        {
            if self.operations[i].process == process {
                proof {
                    lemma_first_for(self@.operations, process, i as int);
                }
                return Some(i);
            }
            i = i + 1;
        }
        proof {
            lemma_first_for_none(self@.operations, process);
        }
        None
    }

    /// Replays the next operation for `process` (see `replay_index`): it
    /// leaves the queue and becomes a generated operation for its recorded
    /// process, with its recorded metadata (or the default), the
    /// generator's name and the next sequence number.
    pub fn next_op(&mut self, process: ProcessId) -> (r: Option<GeneratedOp<V>>)
        requires
            old(self).wf(),
        ensures
            final(self).wf(),
            match replay_index(old(self)@, process) {
                None => r is None && final(self)@ == old(self)@,
                Some(i) => {
                    let rec = old(self)@.operations[i];
                    &&& 0 <= i < old(self)@.operations.len()
                    &&& r matches Some(op) && op.value == rec.value
                        && op.target_process == Some(rec.process)
                        && (match rec.metadata {
                            Some(m) => op.metadata == m,
                            None => op.metadata.is_default(),
                        })
                        && op.delay_ms is None
                        && op.preconditions@.len() == 0
                        && op.source_generator@ == old(self)@.name
                        && op.generation_sequence == old(self)@.sequence + 1
                    &&& final(self)@ == (ReplayView {
                        operations: old(self)@.operations.remove(i),
                        position: (old(self)@.position + 1) as usize,
                        sequence: (old(self)@.sequence + 1) as u64,
                        ..old(self)@
                    })
                },
            },
    {
        let idx: Option<usize> = match self.mode {
            ReplayMode::Strict => self.find_for(process),
            ReplayMode::Relaxed => match self.find_for(process) {
                Some(i) => Some(i),
                None => if self.operations.len() > 0 {
                    Some(0)
                } else {
                    None
                },
            },
            ReplayMode::Sequential => if self.operations.len() > 0 {
                Some(0)
            } else {
                None
            },
        };
        match idx {
            None => None,
            Some(i) => match self.operations.remove(i) {
                Some(recorded) => {
                    let total = self.original.len();
                    assert(self.position < total);
                    self.position = self.position + 1;
                    self.sequence = self.sequence + 1;
                    let metadata = match recorded.metadata {
                        Some(m) => m,
                        None => OperationMetadata::new(),
                    };
                    let op = GeneratedOp::new(recorded.value)
                        .with_target(recorded.process)
                        .with_metadata(metadata)
                        .from_generator(self.name.as_str())
                        .with_sequence(self.sequence);
                    Some(op)
                },
                None => None,
            },
        }
    }

    /// Starts the replay over: the whole history is to replay again.
    pub fn reset(&mut self)
        where V: Clone
        requires
            old(self).wf(),
        ensures
            final(self).wf(),
            final(self)@.operations.len() == old(self)@.original.len(),
            forall|i: int| 0 <= i < old(self)@.original.len()
                ==> same_recorded(#[trigger] old(self)@.original[i], final(self)@.operations[i]),
            final(self)@.position == 0,
            final(self)@.sequence == 0,
            final(self)@.original == old(self)@.original,
            final(self)@.mode == old(self)@.mode,
            final(self)@.name == old(self)@.name,
            final(self)@.allow_partial == old(self)@.allow_partial,
    {
        self.operations = copy_queue(&self.original);
        self.position = 0;
        self.sequence = 0;
    }
}

/// A queue of copies of the operations, in order.
fn copy_queue<V: Clone>(ops: &Vec<RecordedOp<V>>) -> (r: VecDeque<RecordedOp<V>>)
    ensures
        r@.len() == ops@.len(),
        forall|i: int| 0 <= i < ops@.len() ==> same_recorded(#[trigger] ops@[i], r@[i]),
{
    let mut q: VecDeque<RecordedOp<V>> = VecDeque::new();
    let n = ops.len();
    let mut i: usize = 0;
    while i < n
        invariant
            n == ops@.len(),
            i <= n,
            q@.len() == i,
            forall|j: int| 0 <= j < i ==> same_recorded(#[trigger] ops@[j], q@[j]),
        decreases n - i,
    {
        let c = copy_recorded(&ops[i]);
        q.push_back(c);
        i = i + 1;
    }
    q
}

} // verus!
