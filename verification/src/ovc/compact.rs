//! Compact, storage-efficient forms of OVC timestamps.
use vstd::prelude::*;
use crate::text::to_owned_string;
use crate::named::{named_value, distinct_names, set_named, get_named};
use super::observed_time::{NodeId, ObservedTime};
use super::controller_time::ControllerTime;
use super::bounds::TimeBounds;
use super::fault_context::{TimeFaultContext, TimeFaultType, FaultSeverity, fault_code, fault_from_code};
use super::vector_clock::{VectorClock, sorted_entries, entries_map, pairs_map, lemma_push_map};

verus! {

/// The entries of a compact clock as (node, counter) pairs.
pub open spec fn compact_pairs(e: Seq<(u64, u64)>) -> Seq<(NodeId, u64)> {
    e.map_values(|p: (u64, u64)| (NodeId(p.0), p.1))
}

/// A vector clock as an array of (node id, counter) pairs.
#[derive(Debug, Clone, PartialEq, Eq)]
pub struct CompactVectorClock {
    /// The (node id, counter) pairs, sorted by node id when made from a
    /// vector clock.
    pub entries: Vec<(u64, u64)>,
}

impl CompactVectorClock {
    /// An empty compact clock.
    pub fn new() -> (r: Self)
        ensures
            r.entries@.len() == 0,
    {
        CompactVectorClock { entries: Vec::new() }
    }

    /// The compact form of a vector clock: its entries sorted by node id.
    pub fn from_vector_clock(vc: &VectorClock) -> (r: Self)
        ensures
            r.entries@ == vc.ordered_entries(),
            sorted_entries(r.entries@),
            entries_map(r.entries@) == vc@,
    {
        let pairs = vc.iter();
        let mut entries: Vec<(u64, u64)> = Vec::new();
        let n = pairs.len();
        let mut i: usize = 0;
        while i < n
            invariant
                n == pairs@.len(),
                n == vc.ordered_entries().len(),
                forall|t: int| 0 <= t < n ==> #[trigger] pairs@[t] == (NodeId(vc.ordered_entries()[t].0), vc.ordered_entries()[t].1),
                i <= n,
                entries@ == vc.ordered_entries().take(i as int),
            decreases n - i,
        {
            let (node, v) = pairs[i];
            entries.push((node.0, v));
            proof {
                assert(entries@ =~= vc.ordered_entries().take(i as int + 1));
            }
            i = i + 1;
        }
        proof {
            assert(entries@ =~= vc.ordered_entries());
        }
        CompactVectorClock { entries }
    }

    /// The vector clock with these entries.
    pub fn to_vector_clock(&self) -> (r: VectorClock)
        ensures
            r@ == pairs_map(compact_pairs(self.entries@)),
    {
        let mut pairs: Vec<(NodeId, u64)> = Vec::new();
        let n = self.entries.len();
        let mut i: usize = 0;
        while i < n
            invariant
                n == self.entries@.len(),
                i <= n,
                pairs@ == compact_pairs(self.entries@.take(i as int)),
            decreases n - i,
        {
            let (node, v) = self.entries[i];
            pairs.push((NodeId(node), v));
            proof {
                assert(pairs@ =~= compact_pairs(self.entries@.take(i as int + 1)));
            }
            i = i + 1;
        }
        proof {
            assert(self.entries@.take(n as int) =~= self.entries@);
        }
        VectorClock::from_iter(pairs)
    }

    /// Number of entries.
    pub fn len(&self) -> (r: usize)
        ensures
            r == self.entries@.len(),
    {
        self.entries.len()
    }

    /// No entries.
    pub fn is_empty(&self) -> (r: bool)
        ensures
            r == (self.entries@.len() == 0),
    {
        self.entries.len() == 0
    }

    /// The entries.
    pub fn entries(&self) -> (r: &[(u64, u64)])
        ensures
            r@ == self.entries@,
    {
        self.entries.as_slice()
    }
}

impl Default for CompactVectorClock {
    fn default() -> (r: Self)
        ensures
            r.entries@.len() == 0,
    {
        CompactVectorClock::new()
    }
}

/// Sorted entries and the (node, counter) pairs made from them describe the
/// same clock.
pub proof fn lemma_compact_pairs_map(s: Seq<(u64, u64)>)
    requires
        sorted_entries(s),
    ensures
        pairs_map(compact_pairs(s)) == entries_map(s),
    decreases s.len(),
{
    if s.len() == 0 {
        assert(entries_map(s) =~= Map::empty());
    } else {
        let t = s.drop_last();
        assert(s == t.push(s.last()));
        lemma_push_map(t, s.last());
        lemma_compact_pairs_map(t);
        assert(compact_pairs(s).drop_last() =~= compact_pairs(t));
    }
}

/// A vector clock survives the trip through its compact form.
pub proof fn law_compact_roundtrip(vc: VectorClock, c: CompactVectorClock)
    requires
        c.entries@ == vc.ordered_entries(),
        sorted_entries(c.entries@),
        entries_map(c.entries@) == vc@,
    ensures
        pairs_map(compact_pairs(c.entries@)) == vc@,
{
    lemma_compact_pairs_map(c.entries@);
}

/// The storage-efficient form of an OVC timestamp.
#[derive(Debug, Clone, PartialEq, Eq)]
pub struct OVCCompact {
    /// Controller time in microseconds.
    pub ct: u64,
    /// Observed time in microseconds.
    pub ot: i64,
    /// Node id of the observed time.
    pub node: u64,
    /// Compact vector clock.
    pub lt: CompactVectorClock,
    /// Earliest uncertainty bound as a microsecond offset from the
    /// controller time.
    pub earliest_offset: i64,
    /// Latest uncertainty bound as a microsecond offset from the
    /// controller time.
    pub latest_offset: i64,
    /// Confidence scaled to 0..=10000.
    pub conf: u16,
    /// Compact fault type, if any.
    pub fc: Option<u32>,
}

impl OVCCompact {
    /// Controller time in microseconds.
    pub fn controller_time_micros(&self) -> (r: u64)
        ensures
            r == self.ct,
    {
        self.ct
    }

    /// Observed time in microseconds.
    pub fn observed_time_micros(&self) -> (r: i64)
        ensures
            r == self.ot,
    {
        self.ot
    }

    /// The node id.
    pub fn node_id(&self) -> (r: u64)
        ensures
            r == self.node,
    {
        self.node
    }

    /// The compact vector clock.
    pub fn logical_time(&self) -> (r: &CompactVectorClock)
        ensures
            r == &self.lt,
    {
        &self.lt
    }

    /// The uncertainty offsets in microseconds.
    pub fn uncertainty_offsets(&self) -> (r: (i64, i64))
        ensures
            r == (self.earliest_offset, self.latest_offset),
    {
        (self.earliest_offset, self.latest_offset)
    }

    /// The confidence scaled to 0..=10000.
    pub fn confidence_scaled(&self) -> (r: u16)
        ensures
            r == self.conf,
    {
        self.conf
    }

    /// The compact fault type, if any.
    pub fn fault_type(&self) -> (r: Option<u32>)
        ensures
            r == self.fc,
    {
        self.fc
    }

    /// Estimated serialized size: 46 bytes plus 16 per clock entry.
    pub fn estimated_size(&self) -> (r: usize)
        requires
            46 + 16 * self.lt.entries@.len() <= usize::MAX,
        ensures
            r == 46 + 16 * self.lt.entries@.len(),
    {
        46 + self.lt.len() * 16
    }
}

/// Nanoseconds to whole microseconds, rounding toward zero.
pub open spec fn micros_toward_zero(n: int) -> int {
    if n >= 0 { n / 1000 } else { -((-n) / 1000) }
}

/// The microsecond offset of a bound from the controller time, rounded
/// toward zero.
pub open spec fn offset_micros(bound: u128, ct: u128) -> int {
    micros_toward_zero(bound - ct)
}

/// A bound rebuilt from the controller time in microseconds and an offset,
/// in nanoseconds, clamped at the epoch.
pub open spec fn bound_from_offset(ct: u64, offset: i64) -> int {
    if ct + offset <= 0 { 0 } else { (ct + offset) * 1000 }
}

/// Whole microseconds of a wall-clock reading, rounded toward zero.
fn wall_micros(w: i128) -> (r: i128)
    ensures
        r == micros_toward_zero(w as int),
{
    if w >= 0 {
        w / 1000
    } else {
        let m: u128 = (-(w + 1)) as u128 + 1;
        let q: u128 = m / 1000;
        -(q as i128)
    }
}

/// The offset of a bound from the controller time, in microseconds.
fn bound_offset(bound: u128, ct: u128) -> (r: i128)
    ensures
        r == offset_micros(bound, ct),
{
    if bound >= ct {
        ((bound - ct) / 1000) as i128
    } else {
        -(((ct - bound) / 1000) as i128)
    }
}

impl OVCCompact {
    /// The compact form of an OVC's parts: times truncated to
    /// microseconds, bounds as offsets from the controller time, the
    /// confidence already scaled to 0..=10000, and the fault's code.
    pub fn from_parts(
        controller_time: ControllerTime,
        observed_time: &ObservedTime,
        logical_time: &VectorClock,
        bounds: &TimeBounds,
        conf: u16,
        fault_context: Option<&TimeFaultContext>,
    ) -> (r: Self)
        ensures
            r.ct == (controller_time.0 / 1000) as u64,
            r.ot == micros_toward_zero(observed_time.wall_clock_nanos as int) as i64,
            r.node == observed_time.node_id.0,
            r.lt.entries@ == logical_time.ordered_entries(),
            entries_map(r.lt.entries@) == logical_time@,
            r.earliest_offset == offset_micros(bounds.lo(), controller_time.0) as i64,
            r.latest_offset == offset_micros(bounds.hi(), controller_time.0) as i64,
            r.conf == conf,
            r.fc == (match fault_context { Some(f) => Some(fault_code(f.fault_type)), None => None }),
    {
        let ct_micros = controller_time.as_micros();
        let ot = wall_micros(observed_time.wall_clock_nanos());
        let e = bound_offset(bounds.earliest().0, controller_time.0);
        let l = bound_offset(bounds.latest().0, controller_time.0);
        let fc = match fault_context {
            Some(f) => Some(f.to_compact()),
            None => None,
        };
        OVCCompact {
            ct: ct_micros as u64,
            ot: ot as i64,
            node: observed_time.node_id().as_u64(),
            lt: CompactVectorClock::from_vector_clock(logical_time),
            earliest_offset: e as i64,
            latest_offset: l as i64,
            conf,
            fc,
        }
    }

    /// The controller time, from microseconds.
    pub fn to_controller_time(&self) -> (r: ControllerTime)
        ensures
            r.0 == self.ct * 1000,
    {
        ControllerTime::from_micros(self.ct as u128)
    }

    /// The observed time, from microseconds, on the recorded node and
    /// without offset estimate.
    pub fn to_observed_time(&self) -> (r: ObservedTime)
        ensures
            r == (ObservedTime { wall_clock_nanos: (self.ot * 1000) as i128, node_id: NodeId(self.node), estimated_offset_nanos: None }),
    {
        ObservedTime::new(self.ot as i128 * 1000, NodeId::new(self.node))
    }

    /// The time bounds, rebuilt from the offsets and clamped at the epoch;
    /// the earliest offset must not exceed the latest.
    pub fn to_bounds(&self) -> (r: TimeBounds)
        requires
            self.earliest_offset <= self.latest_offset,
        ensures
            r.lo() == bound_from_offset(self.ct, self.earliest_offset),
            r.hi() == bound_from_offset(self.ct, self.latest_offset),
    {
        let ct: i128 = self.ct as i128;
        let e: i128 = ct + self.earliest_offset as i128;
        let l: i128 = ct + self.latest_offset as i128;
        let e0: u128 = if e <= 0 { 0 } else { e as u128 };
        let l0: u128 = if l <= 0 { 0 } else { l as u128 };
        TimeBounds::new(ControllerTime::from_micros(e0), ControllerTime::from_micros(l0))
    }

    /// The fault context of the recorded fault code, on the recorded node
    /// at the controller time; the other details are not kept.
    pub fn to_fault_context(&self) -> (r: Option<TimeFaultContext>)
        ensures
            self.fc is None ==> r is None,
            self.fc matches Some(code) ==> (r matches Some(f)
                && f.fault_type == fault_from_code(code)
                && f.affected_node == NodeId(self.node)
                && f.detection_time.0 == self.ct * 1000
                && f.magnitude_nanos is None && f.description is None && f.correlation_id is None
                && f.severity == FaultSeverity::Warning
                && f.injected == (fault_from_code(code) is InjectedFault)),
    {
        match self.fc {
            Some(code) => Some(TimeFaultContext::new(TimeFaultType::from_compact(code), NodeId::new(self.node), self.to_controller_time())),
            None => None,
        }
    }
}

/// At microsecond precision the compact form keeps an OVC's times: the
/// controller time, the observed time and both time bounds come back as
/// they went in, provided the offsets fit the stored widths.
pub proof fn law_compact_times_roundtrip(
    ct: ControllerTime,
    wall: i128,
    b: TimeBounds,
    r: OVCCompact,
)
    requires
        b.wf(),
        ct.0 % 1000 == 0,
        wall % 1000 == 0,
        b.lo() % 1000 == 0,
        b.hi() % 1000 == 0,
        ct.0 / 1000 <= u64::MAX,
        i64::MIN <= micros_toward_zero(wall as int) <= i64::MAX,
        i64::MIN <= offset_micros(b.lo(), ct.0) <= i64::MAX,
        i64::MIN <= offset_micros(b.hi(), ct.0) <= i64::MAX,
        r.ct == (ct.0 / 1000) as u64,
        r.ot == micros_toward_zero(wall as int) as i64,
        r.earliest_offset == offset_micros(b.lo(), ct.0) as i64,
        r.latest_offset == offset_micros(b.hi(), ct.0) as i64,
    ensures
        r.ct * 1000 == ct.0,
        r.ot * 1000 == wall,
        r.earliest_offset <= r.latest_offset,
        bound_from_offset(r.ct, r.earliest_offset) == b.lo(),
        bound_from_offset(r.ct, r.latest_offset) == b.hi(),
{
    assert(r.ct == ct.0 / 1000);
    assert(r.ot == micros_toward_zero(wall as int));
    assert(r.earliest_offset == offset_micros(b.lo(), ct.0));
    assert(r.latest_offset == offset_micros(b.hi(), ct.0));
    assert(r.ct * 1000 == ct.0) by (nonlinear_arith)
        requires r.ct == ct.0 / 1000, ct.0 % 1000 == 0;
    assert(r.ot * 1000 == wall) by (nonlinear_arith)
        requires r.ot == (if wall >= 0 { wall / 1000 } else { -((-wall) / 1000) }), wall % 1000 == 0;
    lemma_offset_exact(b.lo(), ct.0);
    lemma_offset_exact(b.hi(), ct.0);
    let e = offset_micros(b.lo(), ct.0);
    let l = offset_micros(b.hi(), ct.0);
    assert(e <= l) by (nonlinear_arith)
        requires e * 1000 == b.lo() - ct.0, l * 1000 == b.hi() - ct.0, b.lo() <= b.hi();
}

/// A bound and controller time that are whole microseconds differ by
/// exactly their offset.
proof fn lemma_offset_exact(bound: u128, ct: u128)
    requires
        bound % 1000 == 0,
        ct % 1000 == 0,
    ensures
        offset_micros(bound, ct) * 1000 == bound - ct,
{
    let d: int = bound - ct;
    assert(d % 1000 == 0 && (-d) % 1000 == 0) by (nonlinear_arith)
        requires bound % 1000 == 0, ct % 1000 == 0, d == bound - ct;
    assert(micros_toward_zero(d) * 1000 == d) by (nonlinear_arith)
        requires d % 1000 == 0, (-d) % 1000 == 0,
            micros_toward_zero(d) == (if d >= 0 { d / 1000 } else { -((-d) / 1000) });
}

/// The sum of the records' estimated sizes.
pub open spec fn records_size(r: Seq<OVCCompact>) -> int
    decreases r.len(),
{
    if r.len() == 0 {
        0
    } else {
        records_size(r.drop_last()) + 46 + 16 * r.last().lt.entries@.len()
    }
}

/// A batch of compact OVC records with optional string metadata.
#[derive(Debug, Clone)]
pub struct OVCBatch {
    /// The records.
    pub records: Vec<OVCCompact>,
    /// Metadata as (key, value) pairs with distinct keys.
    pub metadata: Option<Vec<(String, String)>>,
}

impl OVCBatch {
    /// The metadata pairs, empty when none were set.
    pub open spec fn meta(self) -> Seq<(String, String)> {
        match self.metadata {
            Some(m) => m@,
            None => Seq::empty(),
        }
    }

    /// Well formed: metadata keys are distinct.
    pub open spec fn wf(self) -> bool {
        distinct_names(self.meta())
    }

    /// An empty batch.
    pub fn new() -> (r: Self)
        ensures
            r.records@.len() == 0,
            r.metadata is None,
    {
        OVCBatch { records: Vec::new(), metadata: None }
    }

    /// An empty batch with room for `capacity` records.
    pub fn with_capacity(capacity: usize) -> (r: Self)
        ensures
            r.records@.len() == 0,
            r.metadata is None,
    {
        OVCBatch { records: Vec::with_capacity(capacity), metadata: None }
    }

    /// Appends a record.
    pub fn push(&mut self, record: OVCCompact)
        ensures
            final(self).records@ == old(self).records@.push(record),
            final(self).metadata == old(self).metadata,
    {
        self.records.push(record);
    }

    /// Number of records.
    pub fn len(&self) -> (r: usize)
        ensures
            r == self.records@.len(),
    {
        self.records.len()
    }

    /// No records.
    pub fn is_empty(&self) -> (r: bool)
        ensures
            r == (self.records@.len() == 0),
    {
        self.records.len() == 0
    }

    /// The records.
    pub fn records(&self) -> (r: &[OVCCompact])
        ensures
            r@ == self.records@,
    {
        self.records.as_slice()
    }

    /// Sets a metadata value, replacing any earlier value of the key.
    pub fn set_metadata(&mut self, key: &str, value: &str)
        requires
            old(self).wf(),
        ensures
            final(self).wf(),
            final(self).records == old(self).records,
            named_value(final(self).meta(), key@) matches Some(v) && v@ == value@,
            forall|k: Seq<char>| k != key@ ==> #[trigger] named_value(final(self).meta(), k) == named_value(old(self).meta(), k),
    {
        let ghost m0 = self.meta();
        let mut m: Vec<(String, String)> = match self.metadata.take() {
            Some(m) => m,
            None => Vec::new(),
        };
        assert(m@ == m0);
        set_named(&mut m, to_owned_string(key), to_owned_string(value));
        self.metadata = Some(m);
    }

    /// The metadata value stored under `key`.
    pub fn get_metadata(&self, key: &str) -> (r: Option<&str>)
        requires
            self.wf(),
        ensures
            match named_value(self.meta(), key@) {
                Some(v) => r matches Some(t) && t@ == v@,
                None => r is None,
            },
    {
        match &self.metadata {
            Some(m) => {
                match get_named(m, key) {
                    Some(v) => Some(v.as_str()),
                    None => None,
                }
            },
            None => None,
        }
    }

    /// Estimated serialized size: the records' sizes plus, for each
    /// metadata pair, the key and value lengths and 16.
    pub fn estimated_size(&self) -> (r: usize)
        requires
            records_size(self.records@) + meta_bytes(self.meta()) <= usize::MAX,
        ensures
            r == records_size(self.records@) + meta_bytes(self.meta()),
    {
        let mut total: usize = 0;
        let n = self.records.len();
        let mut i: usize = 0;
        while i < n
            invariant
                n == self.records@.len(),
                i <= n,
                records_size(self.records@) + meta_bytes(self.meta()) <= usize::MAX,
                total == records_size(self.records@.take(i as int)),
            decreases n - i,
        {
            proof {
                assert(self.records@.take(i as int + 1).drop_last() =~= self.records@.take(i as int));
                lemma_records_size_prefix(self.records@, i as int + 1);
                lemma_meta_bytes_nonneg(self.meta());
            }
            total = total + self.records[i].estimated_size();
            i = i + 1;
        }
        assert(self.records@.take(n as int) =~= self.records@);
        match &self.metadata {
            Some(m) => {
                let k = m.len();
                let mut j: usize = 0;
                while j < k
                    invariant
                        k == m@.len(),
                        m@ == self.meta(),
                        j <= k,
                        records_size(self.records@) + meta_bytes(m@) <= usize::MAX,
                        total == records_size(self.records@) + meta_bytes(m@.take(j as int)),
                    decreases k - j,
                {
                    proof {
                        assert(m@.take(j as int + 1).drop_last() =~= m@.take(j as int));
                        lemma_meta_bytes_prefix(m@, j as int + 1);
                        lemma_records_size_nonneg(self.records@);
                    }
                    total = total + m[j].0.as_str().len() + m[j].1.as_str().len() + 16;
                    j = j + 1;
                }
                assert(m@.take(k as int) =~= m@);
                total
            },
            None => total,
        }
    }
}

/// The bytes that a metadata table adds: each key's and value's UTF-8
/// length plus 16.
pub open spec fn meta_bytes(m: Seq<(String, String)>) -> int
    decreases m.len(),
{
    if m.len() == 0 {
        0
    } else {
        meta_bytes(m.drop_last()) + vstd::utf8::encode_utf8(m.last().0@).len() + vstd::utf8::encode_utf8(m.last().1@).len() + 16
    }
}

proof fn lemma_meta_bytes_nonneg(m: Seq<(String, String)>)
    ensures
        meta_bytes(m) >= 0,
    decreases m.len(),
{
    if m.len() > 0 {
        lemma_meta_bytes_nonneg(m.drop_last());
    }
}

proof fn lemma_meta_bytes_prefix(m: Seq<(String, String)>, j: int)
    requires
        0 <= j <= m.len(),
    ensures
        meta_bytes(m.take(j)) <= meta_bytes(m),
    decreases m.len() - j,
{
    if j < m.len() {
        lemma_meta_bytes_prefix(m, j + 1);
        assert(m.take(j + 1).drop_last() =~= m.take(j));
    } else {
        assert(m.take(j) =~= m);
    }
}

proof fn lemma_records_size_nonneg(r: Seq<OVCCompact>)
    ensures
        records_size(r) >= 0,
    decreases r.len(),
{
    if r.len() > 0 {
        lemma_records_size_nonneg(r.drop_last());
    }
}

proof fn lemma_records_size_prefix(r: Seq<OVCCompact>, j: int)
    requires
        0 <= j <= r.len(),
    ensures
        records_size(r.take(j)) <= records_size(r),
    decreases r.len() - j,
{
    if j < r.len() {
        lemma_records_size_prefix(r, j + 1);
        assert(r.take(j + 1).drop_last() =~= r.take(j));
    } else {
        assert(r.take(j) =~= r);
    }
}

impl Default for OVCBatch {
    fn default() -> (r: Self)
        ensures
            r.records@.len() == 0,
            r.metadata is None,
    {
        OVCBatch::new()
    }
}

} // verus!
