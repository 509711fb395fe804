//! Histories: the operations recorded during a verification run.
use vstd::prelude::*;
use crate::named::{distinct_names, named_updated, set_named};
use crate::node::ProcessId;
use crate::operation::Operation;
use crate::text::to_owned_string;

verus! {

/// A lower-case hexadecimal digit.
pub open spec fn lower_hex_digit(d: nat) -> char {
    if d < 10 { (('0' as u32) + d) as char } else { (('a' as u32) + (d - 10)) as char }
}

/// The last `n` hexadecimal digits of `v`, most significant first.
pub open spec fn hex_digits(v: nat, n: nat) -> Seq<char>
    decreases n,
{
    if n == 0 { Seq::empty() } else { hex_digits(v / 16, (n - 1) as nat).push(lower_hex_digit(v % 16)) }
}

/// The hyphenated text form of a UUID: its 32 lower-case hexadecimal
/// digits in groups of 8, 4, 4, 4 and 12, joined by hyphens.
pub open spec fn uuid_text(value: u128) -> Seq<char> {
    let h = hex_digits(value as nat, 32);
    h.subrange(0, 8) + "-"@ + h.subrange(8, 12) + "-"@ + h.subrange(12, 16) + "-"@
        + h.subrange(16, 20) + "-"@ + h.subrange(20, 32)
}

/// What `uuid::Uuid::parse_str` yields for a text: the UUID's value, or
/// nothing when the text is not a UUID.
pub uninterp spec fn uuid_parse(text: Seq<char>) -> Option<u128>;

/// A fresh random version-4 UUID (`uuid::Uuid::new_v4`), as its 128-bit
/// value: random but for the version nibble, 4, and the two variant bits,
/// `10` (RFC 4122), which `new_v4` sets.
#[verifier::external_body]
fn fresh_uuid() -> (r: u128)
    ensures
        (r >> 76u128) & 0xfu128 == 4,
        (r >> 62u128) & 0x3u128 == 2,
{
    uuid::Uuid::new_v4().as_u128()
}

/// Parses a UUID (`uuid::Uuid::parse_str`), as its 128-bit value.
#[verifier::external_body]
fn parse_uuid(s: &str) -> (r: Option<u128>)
    ensures
        r == uuid_parse(s@),
{
    match uuid::Uuid::parse_str(s) {
        Ok(u) => Some(u.as_u128()),
        Err(_) => None,
    }
}

/// The hyphenated form of a UUID (`Display` of `uuid::Uuid`, lower-case
/// hexadecimal); parsing it gives the UUID back, and it is 36 characters
/// long.
#[verifier::external_body]
fn format_uuid(value: u128) -> (r: String)
    ensures
        r@ == uuid_text(value),
        uuid_parse(r@) == Some(value),
        r@.len() == 36,
{
    uuid::Uuid::from_u128(value).to_string()
}

/// Unique identifier of a verification run (a UUID).
#[derive(Debug, Clone, Copy, PartialEq, Eq, Structural, Hash)]
pub struct RunId(pub u128);

impl RunId {
    /// A new random run identifier: a version-4 UUID of the RFC 4122
    /// variant.
    pub fn new() -> (r: Self)
        ensures
            (r.0 >> 76u128) & 0xfu128 == 4,
            (r.0 >> 62u128) & 0x3u128 == 2,
    {
        RunId(fresh_uuid())
    }

    /// A run identifier from a UUID value.
    pub fn from_u128(value: u128) -> (r: Self)
        ensures
            r.0 == value,
    {
        RunId(value)
    }

    /// The UUID value.
    pub fn as_u128(&self) -> (r: u128)
        ensures
            r == self.0,
    {
        self.0
    }

    /// Parses the text form of a UUID; None when it is not one.
    pub fn parse(s: &str) -> (r: Option<Self>)
        ensures
            r == (match uuid_parse(s@) {
                Some(v) => Some(RunId(v)),
                None => None,
            }),
    {
        match parse_uuid(s) {
            Some(v) => Some(RunId(v)),
            None => None,
        }
    }

    /// The hyphenated text form.
    pub fn to_string(&self) -> (s: String)
        ensures
            s@ == uuid_text(self.0),
            RunId::parse_spec(s@) == Some(*self),
    {
        format_uuid(self.0)
    }

    /// What `parse` returns for a text.
    pub open spec fn parse_spec(text: Seq<char>) -> Option<RunId> {
        match uuid_parse(text) {
            Some(v) => Some(RunId(v)),
            None => None,
        }
    }
}

/// Parsing the text form of a run identifier gives the identifier back.
pub proof fn law_run_id_text_roundtrip(id: RunId, text: Seq<char>)
    requires
        text == uuid_text(id.0),
        uuid_parse(text) == Some(id.0),
    ensures
        RunId::parse_spec(text) == Some(id),
{
}

/// Inserts `p` into a strictly increasing list of process ids, unless present.
#[verifier::spinoff_prover]
fn insert_sorted(out: &mut Vec<ProcessId>, p: ProcessId)
    requires
        forall|a: int, b: int| 0 <= a < b < old(out)@.len() ==> old(out)@[a].0 < old(out)@[b].0,
    ensures
        forall|a: int, b: int| 0 <= a < b < final(out)@.len() ==> final(out)@[a].0 < final(out)@[b].0,
        forall|q: ProcessId| final(out)@.contains(q) <==> (old(out)@.contains(q) || q == p),
{
    let ghost before = out@;
    let mut pos: usize = 0;
    while pos < out.len() && out[pos].0 < p.0
        invariant
            out@ == before,
            pos <= out@.len(),
            forall|a: int| 0 <= a < pos ==> out@[a].0 < p.0,
        decreases out@.len() - pos,
    {
        pos = pos + 1;
    }
    if pos < out.len() && out[pos].0 == p.0 {
        assert(before.contains(p)) by { assert(before[pos as int] == p); }
        assert(out@ == before);
        assert forall|q: ProcessId| out@.contains(q) <==> (before.contains(q) || q == p) by {}
        assert(before == old(out)@);
    } else {
        out.insert(pos, p);
        proof {
            assert forall|a: int, b: int| 0 <= a < b < out@.len() implies out@[a].0 < out@[b].0 by {
                if b < pos {
                    assert(out@[a] == before[a] && out@[b] == before[b]);
                } else if b == pos {
                    assert(out@[a] == before[a]);
                } else if a < pos {
                    assert(out@[a] == before[a] && out@[b] == before[b - 1]);
                    if pos < before.len() {
                        assert(p.0 < before[pos as int].0 || p.0 == before[pos as int].0);
                        if pos as int <= b - 1 && b - 1 > pos {
                            assert(before[pos as int].0 < before[b - 1].0);
                        }
                    }
                } else if a == pos {
                    assert(out@[b] == before[b - 1]);
                    assert(p.0 <= before[pos as int].0);
                    if b - 1 > pos {
                        assert(before[pos as int].0 < before[b - 1].0);
                    }
                } else {
                    assert(out@[a] == before[a - 1] && out@[b] == before[b - 1]);
                }
            }
            assert forall|q: ProcessId| out@.contains(q) <==> (before.contains(q) || q == p) by {
                if out@.contains(q) {
                    let j = choose|j: int| 0 <= j < out@.len() && out@[j] == q;
                    if j < pos {
                        assert(before[j] == q);
                    } else if j > pos {
                        assert(before[j - 1] == q);
                    }
                }
                if before.contains(q) {
                    let j = choose|j: int| 0 <= j < before.len() && before[j] == q;
                    if j < pos {
                        assert(out@[j] == q);
                    } else {
                        assert(out@[j + 1] == q);
                    }
                }
                if q == p {
                    assert(out@[pos as int] == q);
                }
            }
            assert(before == old(out)@);
        }
    }
    assert(forall|q: ProcessId| out@.contains(q) <==> (old(out)@.contains(q) || q == p));
}

/// Metadata about the run that produced a history.
#[derive(Debug, Clone)]
pub struct HistoryMetadata {
    /// Name or description of the test.
    pub name: Option<String>,
    /// Start time (Unix ms).
    pub started_at: u64,
    /// End time (Unix ms).
    pub ended_at: Option<u64>,
    /// Number of processes.
    pub num_processes: u32,
    /// Number of nodes.
    pub num_nodes: u32,
    /// Random seed, if any.
    pub seed: Option<u64>,
    /// Additional metadata, by name.
    pub extra: Vec<(String, serde_json::Value)>,
}

impl HistoryMetadata {
    /// Metadata with the given start time and nothing else.
    pub fn new(started_at: u64) -> (r: Self)
        ensures
            r.name is None && r.started_at == started_at && r.ended_at is None,
            r.num_processes == 0 && r.num_nodes == 0 && r.seed is None,
            r.extra@.len() == 0,
    {
        HistoryMetadata {
            name: None,
            started_at,
            ended_at: None,
            num_processes: 0,
            num_nodes: 0,
            seed: None,
            extra: Vec::new(),
        }
    }

    /// Sets the name.
    pub fn with_name(self, name: &str) -> (r: Self)
        ensures
            r.name matches Some(n) && n@ == name@,
            r.started_at == self.started_at && r.ended_at == self.ended_at && r.seed == self.seed,
            r.num_processes == self.num_processes && r.num_nodes == self.num_nodes,
    {
        HistoryMetadata { name: Some(to_owned_string(name)), ..self }
    }

    /// Sets the end time.
    pub fn with_end_time(self, ended_at: u64) -> (r: Self)
        ensures
            r == (HistoryMetadata { ended_at: Some(ended_at), ..self }),
    {
        HistoryMetadata { ended_at: Some(ended_at), ..self }
    }

    /// Sets the number of processes.
    pub fn with_num_processes(self, num_processes: u32) -> (r: Self)
        ensures
            r == (HistoryMetadata { num_processes, ..self }),
    {
        HistoryMetadata { num_processes, ..self }
    }

    /// Sets the number of nodes.
    pub fn with_num_nodes(self, num_nodes: u32) -> (r: Self)
        ensures
            r == (HistoryMetadata { num_nodes, ..self }),
    {
        HistoryMetadata { num_nodes, ..self }
    }

    /// Sets the seed.
    pub fn with_seed(self, seed: u64) -> (r: Self)
        ensures
            r == (HistoryMetadata { seed: Some(seed), ..self }),
    {
        HistoryMetadata { seed: Some(seed), ..self }
    }

    /// Adds an extra key-value entry.
    pub fn with_extra(self, key: &str, value: serde_json::Value) -> (r: Self)
        requires
            distinct_names(self.extra@),
        ensures
            named_updated(self.extra@, r.extra@, key@, value),
            r.name == self.name && r.started_at == self.started_at && r.ended_at == self.ended_at,
            r.num_processes == self.num_processes && r.num_nodes == self.num_nodes && r.seed == self.seed,
    {
        let mut s = self;
        set_named(&mut s.extra, to_owned_string(key), value);
        s
    }

    /// Run duration in ms when ended (saturating at zero).
    pub fn duration_ms(&self) -> (r: Option<u64>)
        ensures
            r == (match self.ended_at {
                Some(end) => Some(if end >= self.started_at { (end - self.started_at) as u64 } else { 0 }),
                None => None,
            }),
    {
        match self.ended_at {
            Some(end) => Some(end.saturating_sub(self.started_at)),
            None => None,
        }
    }
}

/// A complete history of operations from a verification run.
#[derive(Debug, Clone)]
pub struct History<V> {
    /// The run identifier.
    pub run_id: RunId,
    /// The operations recorded during the run.
    pub operations: Vec<Operation<V>>,
    /// Metadata about the run.
    pub metadata: HistoryMetadata,
}

impl<V> History<V> {
    /// An empty history for the given run.
    pub fn new(run_id: RunId) -> (r: Self)
        ensures
            r.run_id == run_id,
            r.operations@.len() == 0,
            r.metadata.started_at == 0 && r.metadata.name is None,
    {
        History { run_id, operations: Vec::new(), metadata: HistoryMetadata::new(0) }
    }

    /// An empty history with the given metadata.
    pub fn with_metadata(run_id: RunId, metadata: HistoryMetadata) -> (r: Self)
        ensures
            r.run_id == run_id,
            r.operations@.len() == 0,
            r.metadata == metadata,
    {
        History { run_id, operations: Vec::new(), metadata }
    }

    /// A history holding the given operations.
    pub fn from_operations(operations: Vec<Operation<V>>) -> (r: Self)
        ensures
            r.operations == operations,
    {
        History { run_id: RunId::new(), operations, metadata: HistoryMetadata::new(0) }
    }

    /// Number of operations.
    pub fn len(&self) -> (r: usize)
        ensures
            r == self.operations@.len(),
    {
        self.operations.len()
    }

    /// No operations.
    pub fn is_empty(&self) -> (r: bool)
        ensures
            r == (self.operations@.len() == 0),
    {
        self.operations.len() == 0
    }

    /// Appends an operation.
    pub fn push(&mut self, operation: Operation<V>)
        ensures
            final(self).operations@ == old(self).operations@.push(operation),
            final(self).run_id == old(self).run_id,
    {
        self.operations.push(operation);
    }

    /// Appends operations at the end, in order.
    pub fn extend(&mut self, operations: Vec<Operation<V>>)
        ensures
            final(self).operations@ == old(self).operations@ + operations@,
            final(self).run_id == old(self).run_id,
    {
        let mut ops = operations;
        self.operations.append(&mut ops);
    }

    /// The operation at `index`.
    pub fn get(&self, index: usize) -> (r: &Operation<V>)
        requires
            index < self.operations@.len(),
        ensures
            *r == self.operations@[index as int],
    {
        &self.operations[index]
    }

    /// Positions of the operations of `process`, in history order.
    pub fn operations_by_process(&self, process: ProcessId) -> (r: Vec<usize>)
        ensures
            forall|i: int| 0 <= i < r@.len() ==> r@[i] < self.operations@.len()
                && self.operations@[r@[i] as int].process == process,
            forall|i: int, j: int| 0 <= i < j < r@.len() ==> r@[i] < r@[j],
            forall|k: int| 0 <= k < self.operations@.len() && self.operations@[k].process == process
                ==> r@.contains(k as usize),
    {
        let n = self.operations.len();
        let mut out: Vec<usize> = Vec::new();
        let mut i: usize = 0;
        while i < n
            invariant
                n == self.operations@.len(),
                i <= n,
                forall|q: int| 0 <= q < out@.len() ==> out@[q] < i
                    && self.operations@[out@[q] as int].process == process,
                forall|q: int, p: int| 0 <= q < p < out@.len() ==> out@[q] < out@[p],
                forall|k: int| 0 <= k < i && self.operations@[k].process == process ==> out@.contains(k as usize),
            decreases n - i,
        {
            let ghost before = out@;
            if self.operations[i].process.0 == process.0 {
                out.push(i);
                assert(out@[out@.len() - 1] == i);
                assert forall|x: usize| before.contains(x) implies out@.contains(x) by {
                    let j = choose|j: int| 0 <= j < before.len() && before[j] == x;
                    assert(out@[j] == x);
                }
            }
            i = i + 1;
        }
        out
    }

    /// The distinct process ids of the history, in increasing order.
    pub fn processes(&self) -> (r: Vec<ProcessId>)
        ensures
            forall|i: int, j: int| 0 <= i < j < r@.len() ==> r@[i].0 < r@[j].0,
            forall|p: ProcessId| r@.contains(p) <==> exists|k: int| 0 <= k < self.operations@.len() && self.operations@[k].process == p,
    {
        let n = self.operations.len();
        let mut out: Vec<ProcessId> = Vec::new();
        let mut i: usize = 0;
        while i < n
            invariant
                n == self.operations@.len(),
                i <= n,
                forall|a: int, b: int| 0 <= a < b < out@.len() ==> out@[a].0 < out@[b].0,
                forall|p: ProcessId| out@.contains(p) <==> exists|k: int| 0 <= k < i && self.operations@[k].process == p,
            decreases n - i,
        {
            let p = self.operations[i].process;
            let ghost before = out@;
            insert_sorted(&mut out, p);
            assert(forall|q: ProcessId| out@.contains(q) <==> (before.contains(q) || q == p));
            assert forall|q: ProcessId| out@.contains(q) <==> exists|k: int| 0 <= k < i + 1 && self.operations@[k].process == q by {
                assert(before.contains(q) <==> exists|k: int| 0 <= k < i && self.operations@[k].process == q);
                if q == p {
                    assert(self.operations@[i as int].process == q);
                }
                if exists|k: int| 0 <= k < i + 1 && self.operations@[k].process == q {
                    let k = choose|k: int| 0 <= k < i + 1 && self.operations@[k].process == q;
                    if k < i {
                        assert(before.contains(q));
                    }
                }
            }
            i = i + 1;
        }
        out
    }

    /// Removes all operations.
    pub fn clear(&mut self)
        ensures
            final(self).operations@.len() == 0,
            final(self).run_id == old(self).run_id,
    {
        self.operations.clear();
    }

    /// Reserves room for `additional` more operations.
    pub fn reserve(&mut self, additional: usize)
        ensures
            final(self).operations@ == old(self).operations@,
            final(self).run_id == old(self).run_id,
            final(self).metadata == old(self).metadata,
    {
        self.operations.reserve(additional);
    }
}

impl Default for RunId {
    /// A new random run identifier.
    fn default() -> Self {
        RunId::new()
    }
}

impl Default for HistoryMetadata {
    /// Metadata starting at time 0.
    fn default() -> (r: Self)
        ensures
            r.started_at == 0 && r.name is None && r.ended_at is None,
            r.num_processes == 0 && r.num_nodes == 0 && r.seed is None,
            r.extra@.len() == 0,
    {
        HistoryMetadata::new(0)
    }
}

impl<V> Default for History<V> {
    /// An empty history of a new run.
    fn default() -> (r: Self)
        ensures
            r.operations@.len() == 0,
            r.metadata.started_at == 0 && r.metadata.name is None,
    {
        History::new(RunId::new())
    }
}

/// A history store kept in memory: the operations of the current run and
/// the histories of other runs.
pub struct InMemoryHistoryStore<V> {
    run_id: RunId,
    operations: Vec<Operation<V>>,
    metadata: HistoryMetadata,
    histories: Vec<History<V>>,
}

/// The run ids of a sequence of histories.
pub open spec fn history_ids<V>(h: Seq<History<V>>) -> Seq<RunId> {
    h.map_values(|x: History<V>| x.run_id)
}

impl<V> InMemoryHistoryStore<V> {
    /// The current run.
    pub closed spec fn current(self) -> RunId {
        self.run_id
    }

    /// The operations of the current run.
    pub closed spec fn ops(self) -> Seq<Operation<V>> {
        self.operations@
    }

    /// The metadata of the current run.
    pub closed spec fn meta(self) -> HistoryMetadata {
        self.metadata
    }

    /// The stored histories of other runs.
    pub closed spec fn stored(self) -> Seq<History<V>> {
        self.histories@
    }

    /// An empty store for the given run.
    pub fn new(run_id: RunId) -> (r: Self)
        ensures
            r.current() == run_id,
            r.ops().len() == 0,
            r.stored().len() == 0,
            r.meta().started_at == 0 && r.meta().name is None,
    {
        InMemoryHistoryStore { run_id, operations: Vec::new(), metadata: HistoryMetadata::new(0), histories: Vec::new() }
    }

    /// Sets the metadata of the current run.
    pub fn set_metadata(&mut self, metadata: HistoryMetadata)
        ensures
            final(self).meta() == metadata,
            final(self).current() == old(self).current(),
            final(self).ops() == old(self).ops(),
            final(self).stored() == old(self).stored(),
    {
        self.metadata = metadata;
    }

    /// The number of operations in the current run.
    pub fn len(&self) -> (r: usize)
        ensures
            r == self.ops().len(),
    {
        self.operations.len()
    }

    /// Whether the current run has no operations.
    pub fn is_empty(&self) -> (r: bool)
        ensures
            r == (self.ops().len() == 0),
    {
        self.operations.len() == 0
    }

    /// Appends an operation to the current run.
    pub fn append(&mut self, op: Operation<V>)
        ensures
            final(self).ops() == old(self).ops().push(op),
            final(self).current() == old(self).current(),
            final(self).meta() == old(self).meta(),
            final(self).stored() == old(self).stored(),
    {
        self.operations.push(op);
    }

    /// The current run's id.
    pub fn current_run_id(&self) -> (r: RunId)
        ensures
            r == self.current(),
    {
        self.run_id
    }

    /// The stored runs, then the current run.
    pub fn list_runs(&self) -> (r: Vec<RunId>)
        ensures
            r@ == history_ids(self.stored()).push(self.current()),
    {
        let mut out: Vec<RunId> = Vec::new();
        let n = self.histories.len();
        let mut i: usize = 0;
        while i < n
            invariant
                n == self.histories@.len(),
                i <= n,
                out@ == history_ids(self.histories@.take(i as int)),
            decreases n - i,
        {
            out.push(self.histories[i].run_id);
            assert(history_ids(self.histories@.take(i as int + 1)) =~= history_ids(self.histories@.take(i as int)).push(self.histories@[i as int].run_id));
            i = i + 1;
        }
        assert(self.histories@.take(n as int) =~= self.histories@);
        out.push(self.run_id);
        out
    }

    /// Forgets a run: the current run loses its operations; a stored run
    /// is removed; other ids change nothing.
    pub fn delete(&mut self, run_id: RunId)
        ensures
            run_id == old(self).current() ==> final(self).ops().len() == 0 && final(self).stored() == old(self).stored(),
            run_id != old(self).current() ==> final(self).ops() == old(self).ops()
                && final(self).stored() == without_run(old(self).stored(), run_id),
            final(self).current() == old(self).current(),
            final(self).meta() == old(self).meta(),
    {
        if run_id == self.run_id {
            self.operations.clear();
        } else {
            let ghost s = self.histories@;
            let ghost mut j: int = 0;
            let mut i: usize = 0;
            while i < self.histories.len()
                invariant
                    0 <= j <= s.len(),
                    i <= self.histories@.len(),
                    self.histories@.len() - i == s.len() - j,
                    self.histories@.take(i as int) == without_run(s.take(j), run_id),
                    self.histories@.skip(i as int) == s.skip(j),
                    self.run_id == old(self).run_id,
                    self.operations == old(self).operations,
                    self.metadata == old(self).metadata,
                decreases s.len() - j,
            {
                let ghost before = self.histories@;
                proof {
                    assert(before[i as int] == before.skip(i as int)[0]);
                    assert(s.take(j + 1).drop_last() =~= s.take(j));
                    assert(s[j] == s.skip(j)[0]);
                }
                if self.histories[i].run_id == run_id {
                    let _ = self.histories.remove(i);
                    proof {
                        assert(self.histories@.take(i as int) =~= before.take(i as int));
                        assert forall|k: int| 0 <= k < self.histories@.skip(i as int).len() implies
                            #[trigger] self.histories@.skip(i as int)[k] == s.skip(j + 1)[k] by {
                            assert(before.skip(i as int)[k + 1] == s.skip(j)[k + 1]);
                        }
                        assert(self.histories@.skip(i as int) =~= s.skip(j + 1));
                        j = j + 1;
                    }
                } else {
                    proof {
                        assert(self.histories@.take(i as int + 1) =~= before.take(i as int).push(before[i as int]));
                        assert forall|k: int| 0 <= k < self.histories@.skip(i as int + 1).len() implies
                            #[trigger] self.histories@.skip(i as int + 1)[k] == s.skip(j + 1)[k] by {
                            assert(before.skip(i as int)[k + 1] == s.skip(j)[k + 1]);
                        }
                        assert(self.histories@.skip(i as int + 1) =~= s.skip(j + 1));
                        j = j + 1;
                    }
                    i = i + 1;
                }
            }
            proof {
                assert(self.histories@.skip(i as int).len() == 0);
                assert(j == s.len());
                assert(s.take(j) =~= s);
                assert(self.histories@.take(i as int) =~= self.histories@);
            }
        }
    }
}

/// The histories other than those of the given run, in order.
pub open spec fn without_run<V>(s: Seq<History<V>>, id: RunId) -> Seq<History<V>>
    decreases s.len(),
{
    if s.len() == 0 {
        s
    } else if s.last().run_id == id {
        without_run(s.drop_last(), id)
    } else {
        without_run(s.drop_last(), id).push(s.last())
    }
}

/// A deleted run is gone: no history left after deleting a run belongs to
/// it, so loading it afterwards finds nothing.
pub proof fn law_deleted_run_not_found<V>(s: Seq<History<V>>, id: RunId)
    ensures
        !history_ids(without_run(s, id)).contains(id),
    decreases s.len(),
{
    if s.len() > 0 {
        law_deleted_run_not_found(s.drop_last(), id);
        let w = without_run(s.drop_last(), id);
        if s.last().run_id != id {
            assert(history_ids(w.push(s.last())) =~= history_ids(w).push(s.last().run_id));
        }
    }
}

/// What is appended to the current run is read back last, as a clone, by
/// the next load of that run.
pub proof fn law_append_then_load<V: Clone>(
    before: InMemoryHistoryStore<V>,
    after: InMemoryHistoryStore<V>,
    op: Operation<V>,
    loaded: History<V>,
)
    requires
        after.ops() == before.ops().push(op),
        loaded.operations@.len() == after.ops().len(),
        forall|i: int| 0 <= i < loaded.operations@.len() ==> cloned::<Operation<V>>(after.ops()[i], #[trigger] loaded.operations@[i]),
    ensures
        loaded.operations@.len() == before.ops().len() + 1,
        cloned::<Operation<V>>(op, loaded.operations@[before.ops().len() as int]),
        forall|i: int| 0 <= i < before.ops().len() ==> cloned::<Operation<V>>(before.ops()[i], #[trigger] loaded.operations@[i]),
{
    assert(loaded.operations@[before.ops().len() as int] == loaded.operations@[before.ops().len() as int]);
    assert forall|i: int| 0 <= i < before.ops().len() implies cloned::<Operation<V>>(before.ops()[i], #[trigger] loaded.operations@[i]) by {
        assert(after.ops()[i] == before.ops()[i]);
    }
}

impl<V: Clone> InMemoryHistoryStore<V> {
    /// The history of a run: the current run's operations and metadata,
    /// or a copy of a stored history; `None` for a run the store does not
    /// know.
    pub fn load(&self, run_id: RunId) -> (r: Option<History<V>>)
        ensures
            run_id == self.current() ==> (r matches Some(h) && h.run_id == run_id
                && h.operations@.len() == self.ops().len()
                && forall|i: int| 0 <= i < h.operations@.len() ==> cloned::<Operation<V>>(self.ops()[i], #[trigger] h.operations@[i])),
            run_id != self.current() ==> (r is Some <==> history_ids(self.stored()).contains(run_id)),
            run_id != self.current() ==> (r matches Some(h) ==> exists|k: int| 0 <= k < self.stored().len()
                && self.stored()[k].run_id == run_id && #[trigger] cloned::<History<V>>(self.stored()[k], h)),
    {
        if run_id == self.run_id {
            let operations = self.operations.clone();
            let metadata = self.metadata.clone();
            return Some(History { run_id, operations, metadata });
        }
        let n = self.histories.len();
        let mut i: usize = 0;
        while i < n
            invariant
                n == self.histories@.len(),
                i <= n,
                run_id != self.run_id,
                !history_ids(self.histories@.take(i as int)).contains(run_id),
            decreases n - i,
        {
            proof {
                assert(history_ids(self.histories@.take(i as int + 1)) =~= history_ids(self.histories@.take(i as int)).push(self.histories@[i as int].run_id));
                broadcast use vstd::seq_lib::group_seq_properties;
            }
            if self.histories[i].run_id == run_id {
                proof {
                    assert(history_ids(self.histories@)[i as int] == run_id);
                }
                let h = self.histories[i].clone();
                assert(cloned::<History<V>>(self.histories@[i as int], h));
                return Some(h);
            }
            i = i + 1;
        }
        proof {
            assert(self.histories@.take(n as int) =~= self.histories@);
        }
        None
    }
}

} // verus!
