//! Operations as generators produce them, with their metadata.
use vstd::prelude::*;
use core::time::Duration;
use crate::node::ProcessId;
use crate::named::{distinct_names, set_named};
use crate::text::{empty_string, to_owned_string};
use crate::clock::{duration_as_millis, duration_from_millis, duration_of};
use crate::generator::context::text_updated;

verus! {

/// Copies of strings.
pub fn copy_strings(v: &Vec<String>) -> (r: Vec<String>)
    ensures
        r@ == v@,
{
    let mut out: Vec<String> = Vec::new();
    let n = v.len();
    let mut i: usize = 0;
    while i < n
        invariant
            n == v@.len(),
            i <= n,
            out@ == v@.take(i as int),
        decreases n - i,
    {
        out.push(v[i].clone());
        assert(out@ =~= v@.take(i as int + 1));
        i = i + 1;
    }
    assert(v@.take(n as int) =~= v@);
    out
}

/// Copies of pairs of strings.
pub fn copy_string_pairs(v: &Vec<(String, String)>) -> (r: Vec<(String, String)>)
    ensures
        r@ == v@,
{
    let mut out: Vec<(String, String)> = Vec::new();
    let n = v.len();
    let mut i: usize = 0;
    while i < n
        invariant
            n == v@.len(),
            i <= n,
            out@ == v@.take(i as int),
        decreases n - i,
    {
        out.push((v[i].0.clone(), v[i].1.clone()));
        assert(out@ =~= v@.take(i as int + 1));
        i = i + 1;
    }
    assert(v@.take(n as int) =~= v@);
    out
}

/// Metadata of a generated operation.
#[derive(Debug, Clone)]
pub struct OperationMetadata {
    /// Priority (higher is more important).
    pub priority: i32,
    /// The expected duration.
    pub expected_duration: Option<Duration>,
    /// Tags, in the order they were added.
    pub tags: Vec<String>,
    /// The operation may change state.
    pub may_mutate: bool,
    /// The operation is idempotent.
    pub idempotent: bool,
    /// Suggested retries on failure.
    pub retry_count: u32,
    /// Custom metadata, by name.
    pub custom: Vec<(String, String)>,
}

impl OperationMetadata {
    /// The default metadata: priority 0, no duration, no tags, not
    /// mutating, not idempotent, no retries, no custom data.
    pub open spec fn is_default(self) -> bool {
        &&& self.priority == 0
        &&& self.expected_duration is None
        &&& self.tags@.len() == 0
        &&& !self.may_mutate
        &&& !self.idempotent
        &&& self.retry_count == 0
        &&& self.custom@.len() == 0
    }

    /// The default metadata.
    pub fn new() -> (r: Self)
        ensures
            r.is_default(),
    {
        OperationMetadata {
            priority: 0,
            expected_duration: None,
            tags: Vec::new(),
            may_mutate: false,
            idempotent: false,
            retry_count: 0,
            custom: Vec::new(),
        }
    }

    /// The same metadata: equal fields, and equal texts of tags and custom
    /// data.
    pub open spec fn same_as(self, other: Self) -> bool {
        &&& self.priority == other.priority
        &&& self.expected_duration == other.expected_duration
        &&& self.tags@ == other.tags@
        &&& self.may_mutate == other.may_mutate
        &&& self.idempotent == other.idempotent
        &&& self.retry_count == other.retry_count
        &&& self.custom@ == other.custom@
    }

    /// A copy.
    pub fn copy(&self) -> (r: Self)
        ensures
            r.same_as(*self),
    {
        OperationMetadata {
            priority: self.priority,
            expected_duration: match &self.expected_duration {
                Some(d) => Some(d.clone()),
                None => None,
            },
            tags: copy_strings(&self.tags),
            may_mutate: self.may_mutate,
            idempotent: self.idempotent,
            retry_count: self.retry_count,
            custom: copy_string_pairs(&self.custom),
        }
    }

    /// Sets the priority.
    pub fn with_priority(self, priority: i32) -> (r: Self)
        ensures
            r == (OperationMetadata { priority, ..self }),
    {
        OperationMetadata { priority, ..self }
    }

    /// Sets the expected duration.
    pub fn with_expected_duration(self, duration: Duration) -> (r: Self)
        ensures
            r == (OperationMetadata { expected_duration: Some(duration), ..self }),
    {
        OperationMetadata { expected_duration: Some(duration), ..self }
    }

    /// Adds a tag at the end.
    pub fn with_tag(self, tag: &str) -> (r: Self)
        ensures
            r.tags@.len() == self.tags@.len() + 1,
            r.tags@.drop_last() == self.tags@,
            r.tags@.last()@ == tag@,
            r == (OperationMetadata { tags: r.tags, ..self }),
    {
        let mut m = self;
        m.tags.push(to_owned_string(tag));
        m
    }

    /// Adds tags at the end, in order.
    pub fn with_tags(self, tags: &[&str]) -> (r: Self)
        ensures
            r.tags@.len() == self.tags@.len() + tags@.len(),
            r.tags@.take(self.tags@.len() as int) == self.tags@,
            forall|i: int| 0 <= i < tags@.len() ==> (#[trigger] r.tags@[self.tags@.len() + i])@ == tags@[i]@,
            r == (OperationMetadata { tags: r.tags, ..self }),
    {
        let ghost t0 = self.tags@;
        let mut m = self;
        let n = tags.len();
        let mut i: usize = 0;
        while i < n
            invariant
                n == tags@.len(),
                i <= n,
                m.tags@.len() == t0.len() + i,
                m.tags@.take(t0.len() as int) == t0,
                forall|j: int| 0 <= j < i ==> (#[trigger] m.tags@[t0.len() + j])@ == tags@[j]@,
                m == (OperationMetadata { tags: m.tags, ..self }),
            decreases n - i,
        {
            let ghost before = m.tags@;
            m.tags.push(to_owned_string(tags[i]));
            proof {
                assert(m.tags@.take(t0.len() as int) =~= before.take(t0.len() as int));
                assert forall|j: int| 0 <= j < i + 1 implies (#[trigger] m.tags@[t0.len() + j])@ == tags@[j]@ by {
                    if j < i {
                        assert(m.tags@[t0.len() + j] == before[t0.len() + j]);
                    }
                }
            }
            i = i + 1;
        }
        m
    }

    /// Marks the operation as mutating.
    pub fn mutating(self) -> (r: Self)
        ensures
            r == (OperationMetadata { may_mutate: true, ..self }),
    {
        OperationMetadata { may_mutate: true, ..self }
    }

    /// Marks the operation as read-only.
    pub fn read_only(self) -> (r: Self)
        ensures
            r == (OperationMetadata { may_mutate: false, ..self }),
    {
        OperationMetadata { may_mutate: false, ..self }
    }

    /// Marks the operation as idempotent.
    pub fn idempotent(self) -> (r: Self)
        ensures
            r == (OperationMetadata { idempotent: true, ..self }),
    {
        OperationMetadata { idempotent: true, ..self }
    }

    /// Sets the suggested retries.
    pub fn with_retries(self, count: u32) -> (r: Self)
        ensures
            r == (OperationMetadata { retry_count: count, ..self }),
    {
        OperationMetadata { retry_count: count, ..self }
    }

    /// Binds custom metadata, replacing an earlier binding of the name.
    pub fn with_custom(self, key: &str, value: &str) -> (r: Self)
        requires
            distinct_names(self.custom@),
        ensures
            text_updated(self.custom@, r.custom@, key@, value@),
            r == (OperationMetadata { custom: r.custom, ..self }),
    {
        let mut m = self;
        set_named(&mut m.custom, to_owned_string(key), to_owned_string(value));
        m
    }

    /// Whether a tag is present.
    pub fn has_tag(&self, tag: &str) -> (r: bool)
        ensures
            r == exists|i: int| 0 <= i < self.tags@.len() && (#[trigger] self.tags@[i])@ == tag@,
    {
        let n = self.tags.len();
        let mut i: usize = 0;
        while i < n
            invariant
                n == self.tags@.len(),
                i <= n,
                forall|j: int| 0 <= j < i ==> (#[trigger] self.tags@[j])@ != tag@,
            decreases n - i,
        {
            if crate::text_scan::text_eq(self.tags[i].as_str(), tag) {
                assert(self.tags@[i as int]@ == tag@);
                return true;
            }
            i = i + 1;
        }
        false
    }
}

impl Default for OperationMetadata {
    fn default() -> (r: Self)
        ensures
            r.is_default(),
    {
        OperationMetadata::new()
    }
}

/// A generated operation, ready to execute.
#[derive(Debug, Clone)]
pub struct GeneratedOp<V> {
    /// The operation's value.
    pub value: V,
    /// The process to run it (may differ from the requesting one).
    pub target_process: Option<ProcessId>,
    /// Metadata.
    pub metadata: OperationMetadata,
    /// Delay before execution, in milliseconds.
    pub delay_ms: Option<u64>,
    /// Preconditions that must hold, in order.
    pub preconditions: Vec<String>,
    /// The generator that produced it.
    pub source_generator: String,
    /// Its place in the generation order.
    pub generation_sequence: u64,
}

impl<V> GeneratedOp<V> {
    /// An operation with default metadata and nothing else.
    pub fn new(value: V) -> (r: Self)
        ensures
            r.value == value,
            r.target_process is None,
            r.metadata.is_default(),
            r.delay_ms is None,
            r.preconditions@.len() == 0,
            r.source_generator@.len() == 0,
            r.generation_sequence == 0,
    {
        GeneratedOp {
            value,
            target_process: None,
            metadata: OperationMetadata::new(),
            delay_ms: None,
            preconditions: Vec::new(),
            source_generator: empty_string(),
            generation_sequence: 0,
        }
    }

    /// An operation for a process, with default metadata.
    pub fn for_process(value: V, process: ProcessId) -> (r: Self)
        ensures
            r.value == value,
            r.target_process == Some(process),
            r.metadata.is_default(),
            r.delay_ms is None,
            r.preconditions@.len() == 0,
            r.source_generator@.len() == 0,
            r.generation_sequence == 0,
    {
        GeneratedOp {
            value,
            target_process: Some(process),
            metadata: OperationMetadata::new(),
            delay_ms: None,
            preconditions: Vec::new(),
            source_generator: empty_string(),
            generation_sequence: 0,
        }
    }

    /// Sets the target process.
    pub fn with_target(self, process: ProcessId) -> (r: Self)
        ensures
            r == (GeneratedOp { target_process: Some(process), ..self }),
    {
        GeneratedOp { target_process: Some(process), ..self }
    }

    /// Sets the metadata.
    pub fn with_metadata(self, metadata: OperationMetadata) -> (r: Self)
        ensures
            r == (GeneratedOp { metadata, ..self }),
    {
        GeneratedOp { metadata, ..self }
    }

    /// Sets a delay before execution, in whole milliseconds.
    pub fn with_delay(self, delay: Duration) -> (r: Self)
        ensures
            r.delay_ms is Some,
            r == (GeneratedOp { delay_ms: r.delay_ms, ..self }),
            forall|secs: u64, nanos: u32| nanos < 1_000_000_000 && delay == #[trigger] duration_of(secs, nanos)
                ==> r.delay_ms == Some(((secs * 1_000_000_000 + nanos) / 1_000_000) as u64),
    {
        let millis = duration_as_millis(&delay);
        GeneratedOp { delay_ms: Some(#[verifier::truncate] (millis as u64)), ..self }
    }

    /// The delay before execution, if any.
    pub fn delay(&self) -> (r: Option<Duration>)
        ensures
            r is Some <==> self.delay_ms is Some,
            r matches Some(d) ==> d == duration_of(self.delay_ms.unwrap() / 1000,
                ((self.delay_ms.unwrap() % 1000) * 1_000_000) as u32),
    {
        match self.delay_ms {
            Some(ms) => Some(duration_from_millis(ms)),
            None => None,
        }
    }

    /// Adds a precondition at the end.
    pub fn with_precondition(self, condition: &str) -> (r: Self)
        ensures
            r.preconditions@.len() == self.preconditions@.len() + 1,
            r.preconditions@.drop_last() == self.preconditions@,
            r.preconditions@.last()@ == condition@,
            r == (GeneratedOp { preconditions: r.preconditions, ..self }),
    {
        let mut op = self;
        op.preconditions.push(to_owned_string(condition));
        op
    }

    /// Sets the source generator's name.
    pub fn from_generator(self, name: &str) -> (r: Self)
        ensures
            r.source_generator@ == name@,
            r == (GeneratedOp { source_generator: r.source_generator, ..self }),
    {
        GeneratedOp { source_generator: to_owned_string(name), ..self }
    }

    /// Sets the place in the generation order.
    pub fn with_sequence(self, seq: u64) -> (r: Self)
        ensures
            r == (GeneratedOp { generation_sequence: seq, ..self }),
    {
        GeneratedOp { generation_sequence: seq, ..self }
    }

    /// The operation with its value mapped by `f`; all else stays.
    pub fn map<U, F: FnOnce(V) -> U>(self, f: F) -> (r: GeneratedOp<U>)
        requires
            f.requires((self.value,)),
        ensures
            f.ensures((self.value,), r.value),
            r.target_process == self.target_process,
            r.metadata == self.metadata,
            r.delay_ms == self.delay_ms,
            r.preconditions == self.preconditions,
            r.source_generator == self.source_generator,
            r.generation_sequence == self.generation_sequence,
    {
        GeneratedOp {
            value: f(self.value),
            target_process: self.target_process,
            metadata: self.metadata,
            delay_ms: self.delay_ms,
            preconditions: self.preconditions,
            source_generator: self.source_generator,
            generation_sequence: self.generation_sequence,
        }
    }

    /// Whether the operation has preconditions.
    pub fn has_preconditions(&self) -> (r: bool)
        ensures
            r == (self.preconditions@.len() > 0),
    {
        self.preconditions.len() > 0
    }

    /// The target process, or `default` when there is none.
    pub fn effective_target(&self, default: ProcessId) -> (r: ProcessId)
        ensures
            r == match self.target_process {
                Some(p) => p,
                None => default,
            },
    {
        match self.target_process {
            Some(p) => p,
            None => default,
        }
    }

    /// A copy for another target process.
    pub fn retarget(&self, process: ProcessId) -> (r: Self)
        where V: Clone
        ensures
            cloned(self.value, r.value),
            r.target_process == Some(process),
            r.metadata.same_as(self.metadata),
            r.delay_ms == self.delay_ms,
            r.preconditions@ == self.preconditions@,
            r.source_generator@ == self.source_generator@,
            r.generation_sequence == self.generation_sequence,
    {
        GeneratedOp {
            value: self.value.clone(),
            target_process: Some(process),
            metadata: self.metadata.copy(),
            delay_ms: self.delay_ms,
            preconditions: copy_strings(&self.preconditions),
            source_generator: self.source_generator.clone(),
            generation_sequence: self.generation_sequence,
        }
    }
}

} // verus!
