//! Vector clocks: logical time for causality tracking.
use vstd::prelude::*;
use super::observed_time::NodeId;

verus! {

/// Entries sorted by strictly increasing node id.
pub open spec fn sorted_entries(s: Seq<(u64, u64)>) -> bool {
    forall|i: int, j: int| 0 <= i < j < s.len() ==> #[trigger] s[i].0 < #[trigger] s[j].0
}

/// Whether some entry carries node `k`.
pub open spec fn has_node(s: Seq<(u64, u64)>, k: u64) -> bool {
    exists|i: int| 0 <= i < s.len() && #[trigger] s[i].0 == k
}

/// The map from node id to counter that sorted entries describe.
pub open spec fn entries_map(s: Seq<(u64, u64)>) -> Map<u64, u64> {
    Map::new(
        |k: u64| has_node(s, k),
        |k: u64| s[choose|i: int| 0 <= i < s.len() && #[trigger] s[i].0 == k].1,
    )
}

/// The counter of node `k` in a clock map: its entry, or 0 when absent.
pub open spec fn counter_of(m: Map<u64, u64>, k: u64) -> nat {
    if m.dom().contains(k) { m[k] as nat } else { 0 }
}

/// Two clock maps agree on every node's counter (an absent node counts 0).
pub open spec fn same_counters(a: Map<u64, u64>, b: Map<u64, u64>) -> bool {
    forall|k: u64| #[trigger] counter_of(a, k) == counter_of(b, k)
}

/// Happens-before on clock maps: every counter is at most the other's and
/// at least one is strictly smaller.
pub open spec fn clock_before(a: Map<u64, u64>, b: Map<u64, u64>) -> bool {
    &&& forall|k: u64| #[trigger] counter_of(a, k) <= counter_of(b, k)
    &&& exists|k: u64| #[trigger] counter_of(a, k) < counter_of(b, k)
}

/// Component-wise maximum of two clock maps over the union of their nodes.
pub open spec fn clock_merge(a: Map<u64, u64>, b: Map<u64, u64>) -> Map<u64, u64> {
    Map::new(
        |k: u64| a.dom().contains(k) || b.dom().contains(k),
        |k: u64| if counter_of(a, k) >= counter_of(b, k) { counter_of(a, k) as u64 } else { counter_of(b, k) as u64 },
    )
}

/// Sum of the counters of a sequence of entries.
pub open spec fn entries_sum(s: Seq<(u64, u64)>) -> nat
    decreases s.len(),
{
    if s.len() == 0 { 0 } else { entries_sum(s.drop_last()) + (s.last().1 as nat) }
}

/// Largest counter of a sequence of entries (0 when empty).
pub open spec fn entries_max(s: Seq<(u64, u64)>) -> u64
    decreases s.len(),
{
    if s.len() == 0 {
        0
    } else {
        let m = entries_max(s.drop_last());
        if s.last().1 > m { s.last().1 } else { m }
    }
}

proof fn lemma_entry_lookup(s: Seq<(u64, u64)>, i: int)
    requires
        sorted_entries(s),
        0 <= i < s.len(),
    ensures
        entries_map(s).dom().contains(s[i].0),
        entries_map(s)[s[i].0] == s[i].1,
{
    let k = s[i].0;
    assert(has_node(s, k));
    let j = choose|j: int| 0 <= j < s.len() && #[trigger] s[j].0 == k;
    if j < i {
        assert(s[j].0 < s[i].0);
    } else if j > i {
        assert(s[i].0 < s[j].0);
    }
}

pub(crate) proof fn lemma_push_map(s: Seq<(u64, u64)>, x: (u64, u64))
    requires
        sorted_entries(s.push(x)),
    ensures
        entries_map(s.push(x)) == entries_map(s).insert(x.0, x.1),
        sorted_entries(s),
        !entries_map(s).dom().contains(x.0),
{
    let t = s.push(x);
    assert(sorted_entries(s)) by {
        assert forall|i: int, j: int| 0 <= i < j < s.len() implies #[trigger] s[i].0 < #[trigger] s[j].0 by {
            assert(t[i] == s[i] && t[j] == s[j]);
        }
    }
    assert(!has_node(s, x.0)) by {
        if has_node(s, x.0) {
            let i = choose|i: int| 0 <= i < s.len() && #[trigger] s[i].0 == x.0;
            assert(t[i].0 < t[s.len() as int].0);
        }
    }
    assert forall|k: u64| #[trigger] entries_map(t).dom().contains(k) == entries_map(s).insert(x.0, x.1).dom().contains(k) by {
        if has_node(s, k) {
            let i = choose|i: int| 0 <= i < s.len() && #[trigger] s[i].0 == k;
            assert(t[i].0 == k);
        }
        if has_node(t, k) {
            let i = choose|i: int| 0 <= i < t.len() && #[trigger] t[i].0 == k;
            if i < s.len() {
                assert(s[i].0 == k);
            }
        }
        if k == x.0 {
            assert(t[s.len() as int].0 == k);
        }
    }
    assert forall|k: u64| #[trigger] entries_map(t).dom().contains(k) implies entries_map(t)[k] == entries_map(s).insert(x.0, x.1)[k] by {
        let i = choose|i: int| 0 <= i < t.len() && #[trigger] t[i].0 == k;
        lemma_entry_lookup(t, i);
        if i < s.len() {
            assert(s[i] == t[i]);
            lemma_entry_lookup(s, i);
        }
    }
    assert(entries_map(t) =~= entries_map(s).insert(x.0, x.1));
}

proof fn lemma_empty_map(s: Seq<(u64, u64)>)
    requires
        s.len() == 0,
    ensures
        entries_map(s) == Map::<u64, u64>::empty(),
{
    assert(entries_map(s) =~= Map::<u64, u64>::empty());
}

proof fn lemma_take_sorted(s: Seq<(u64, u64)>, n: int)
    requires
        sorted_entries(s),
        0 <= n <= s.len(),
    ensures
        sorted_entries(s.take(n)),
{
    assert forall|i: int, j: int| 0 <= i < j < s.take(n).len() implies #[trigger] s.take(n)[i].0 < #[trigger] s.take(n)[j].0 by {
        assert(s.take(n)[i] == s[i] && s.take(n)[j] == s[j]);
    }
}

/// A vector clock: one counter per node; absent nodes count as zero.
#[derive(Debug, PartialEq, Eq)]
pub struct VectorClock {
    entries: Vec<(u64, u64)>,
}

impl View for VectorClock {
    type V = Map<u64, u64>;

    closed spec fn view(&self) -> Map<u64, u64> {
        entries_map(self.entries@)
    }
}

impl VectorClock {
    /// The clock's entries ordered by node id.
    pub closed spec fn ordered_entries(&self) -> Seq<(u64, u64)> {
        self.entries@
    }

    #[verifier::type_invariant]
    closed spec fn inv(self) -> bool {
        sorted_entries(self.entries@)
    }

    /// An empty clock.
    pub fn new() -> (r: Self)
        ensures
            r@ == Map::<u64, u64>::empty(),
    {
        let r = VectorClock { entries: Vec::new() };
        proof { lemma_empty_map(r.entries@); }
        r
    }

    fn find(&self, k: u64) -> (r: Option<usize>)
        ensures
            match r {
                Some(i) => i < self.entries@.len() && self.entries@[i as int].0 == k,
                None => !self@.dom().contains(k),
            },
    {
        let n = self.entries.len();
        let mut i: usize = 0;
        while i < n
            invariant
                n == self.entries@.len(),
                i <= n,
                forall|j: int| 0 <= j < i ==> self.entries@[j].0 != k,
            decreases n - i,
        {
            if self.entries[i].0 == k {
                return Some(i);
            }
            i = i + 1;
        }
        None
    }

    /// The counter for `node_id` (0 when absent).
    pub fn get(&self, node_id: NodeId) -> (r: u64)
        ensures
            r == counter_of(self@, node_id.0),
    {
        proof { use_type_invariant(self); }
        match self.find(node_id.0) {
            Some(i) => {
                proof { lemma_entry_lookup(self.entries@, i as int); }
                self.entries[i].1
            },
            None => 0,
        }
    }

    /// A clock with a single node set to `value`.
    pub fn with_node(node_id: NodeId, value: u64) -> (r: Self)
        ensures
            r@ == Map::<u64, u64>::empty().insert(node_id.0, value),
    {
        let mut r = VectorClock::new();
        r.put(node_id.0, value);
        r
    }

    /// A clock from (node, value) pairs; a later pair for the same node
    /// replaces an earlier one.
    pub fn from_iter(pairs: Vec<(NodeId, u64)>) -> (r: Self)
        ensures
            r@ == pairs_map(pairs@),
    {
        let mut r = VectorClock::new();
        let n = pairs.len();
        let mut i: usize = 0;
        while i < n
            invariant
                n == pairs@.len(),
                i <= n,
                r@ == pairs_map(pairs@.take(i as int)),
            decreases n - i,
        {
            let (node, value) = pairs[i];
            r.put(node.0, value);
            assert(pairs@.take(i as int + 1).drop_last() =~= pairs@.take(i as int));
            i = i + 1;
        }
        assert(pairs@.take(n as int) =~= pairs@);
        r
    }

    /// Sets the counter of a node; zero removes the node's entry.
    pub fn set(&mut self, node_id: NodeId, value: u64)
        ensures
            final(self)@ == (if value == 0 { old(self)@.remove(node_id.0) } else { old(self)@.insert(node_id.0, value) }),
    {
        if value == 0 {
            self.remove(node_id.0);
        } else {
            self.put(node_id.0, value);
        }
    }

    /// Increments a node's counter (saturating) and returns the new value.
    pub fn increment(&mut self, node_id: NodeId) -> (r: u64)
        ensures
            r == (if counter_of(old(self)@, node_id.0) == u64::MAX { u64::MAX as nat } else { counter_of(old(self)@, node_id.0) + 1 }),
            final(self)@ == old(self)@.insert(node_id.0, r),
    {
        let v = self.get(node_id);
        let nv = v.saturating_add(1);
        self.put(node_id.0, nv);
        nv
    }

    /// Whether some entry carries node `k`.
    fn contains_node(&self, k: u64) -> (r: bool)
        ensures
            r == self@.dom().contains(k),
    {
        match self.find(k) {
            Some(i) => {
                proof { use_type_invariant(self); lemma_entry_lookup(self.entries@, i as int); }
                true
            },
            None => false,
        }
    }

    /// Whether every counter is at most the other clock's.
    pub fn dominated_by(&self, other: &VectorClock) -> (r: bool)
        ensures
            r == (forall|k: u64| #[trigger] counter_of(self@, k) <= counter_of(other@, k)),
    {
        proof { use_type_invariant(self); use_type_invariant(other); }
        let n = self.entries.len();
        let mut i: usize = 0;
        while i < n
            invariant
                n == self.entries@.len(),
                sorted_entries(self.entries@),
                i <= n,
                forall|j: int| 0 <= j < i ==> (self.entries@[j].1 as nat) <= #[trigger] counter_of(other@, self.entries@[j].0),
            decreases n - i,
        {
            let (node, value) = self.entries[i];
            let other_value = other.get(NodeId(node));
            if value > other_value {
                proof {
                    lemma_entry_lookup(self.entries@, i as int);
                    assert(counter_of(self@, node) > counter_of(other@, node));
                }
                return false;
            }
            i = i + 1;
        }
        proof {
            assert forall|k: u64| #[trigger] counter_of(self@, k) <= counter_of(other@, k) by {
                if self@.dom().contains(k) {
                    let q = choose|q: int| 0 <= q < self.entries@.len() && #[trigger] self.entries@[q].0 == k;
                    lemma_entry_lookup(self.entries@, q);
                    assert((self.entries@[q].1 as nat) <= counter_of(other@, self.entries@[q].0));
                }
            }
        }
        true
    }

    /// Happens-before: every counter at most the other's, one strictly smaller.
    pub fn happens_before(&self, other: &VectorClock) -> (r: bool)
        ensures
            r == clock_before(self@, other@),
    {
        proof { use_type_invariant(self); use_type_invariant(other); }
        let mut dominated = false;
        let n = self.entries.len();
        let mut i: usize = 0;
        while i < n
            invariant
                n == self.entries@.len(),
                sorted_entries(self.entries@),
                i <= n,
                forall|j: int| 0 <= j < i ==> (self.entries@[j].1 as nat) <= #[trigger] counter_of(other@, self.entries@[j].0),
                dominated <==> exists|j: int| 0 <= j < i && (self.entries@[j].1 as nat) < #[trigger] counter_of(other@, self.entries@[j].0),
            decreases n - i,
        {
            let (node, value) = self.entries[i];
            let other_value = other.get(NodeId(node));
            if value > other_value {
                proof {
                    lemma_entry_lookup(self.entries@, i as int);
                    assert(counter_of(self@, node) > counter_of(other@, node));
                }
                return false;
            }
            if value < other_value {
                dominated = true;
            }
            i = i + 1;
        }
        let m = other.entries.len();
        let mut j: usize = 0;
        while j < m
            invariant
                m == other.entries@.len(),
                n == self.entries@.len(),
                j <= m,
                sorted_entries(self.entries@),
                sorted_entries(other.entries@),
                forall|q: int| 0 <= q < n ==> (self.entries@[q].1 as nat) <= #[trigger] counter_of(other@, self.entries@[q].0),
                dominated <==> (
                    (exists|q: int| 0 <= q < n && (self.entries@[q].1 as nat) < #[trigger] counter_of(other@, self.entries@[q].0))
                    || (exists|q: int| 0 <= q < j && !self@.dom().contains(#[trigger] other.entries@[q].0) && other.entries@[q].1 > 0)),
            decreases m - j,
        {
            let (node, value) = other.entries[j];
            if !self.contains_node(node) && value > 0 {
                dominated = true;
            }
            j = j + 1;
        }
        proof {
            assert forall|k: u64| #[trigger] counter_of(self@, k) <= counter_of(other@, k) by {
                if self@.dom().contains(k) {
                    let q = choose|q: int| 0 <= q < self.entries@.len() && #[trigger] self.entries@[q].0 == k;
                    lemma_entry_lookup(self.entries@, q);
                    assert((self.entries@[q].1 as nat) <= counter_of(other@, self.entries@[q].0));
                }
            }
            if dominated {
                if exists|q: int| 0 <= q < n && (self.entries@[q].1 as nat) < #[trigger] counter_of(other@, self.entries@[q].0) {
                    let q = choose|q: int| 0 <= q < n && (self.entries@[q].1 as nat) < #[trigger] counter_of(other@, self.entries@[q].0);
                    lemma_entry_lookup(self.entries@, q);
                    assert(counter_of(self@, self.entries@[q].0) < counter_of(other@, self.entries@[q].0));
                } else {
                    let q = choose|q: int| 0 <= q < m && !self@.dom().contains(#[trigger] other.entries@[q].0) && other.entries@[q].1 > 0;
                    lemma_entry_lookup(other.entries@, q);
                    assert(counter_of(self@, other.entries@[q].0) < counter_of(other@, other.entries@[q].0));
                }
            } else {
                assert forall|k: u64| !(#[trigger] counter_of(self@, k) < counter_of(other@, k)) by {
                    if counter_of(self@, k) < counter_of(other@, k) {
                        if self@.dom().contains(k) {
                            let q = choose|q: int| 0 <= q < self.entries@.len() && #[trigger] self.entries@[q].0 == k;
                            lemma_entry_lookup(self.entries@, q);
                            assert((self.entries@[q].1 as nat) < counter_of(other@, self.entries@[q].0));
                        } else {
                            assert(other@.dom().contains(k));
                            let q = choose|q: int| 0 <= q < other.entries@.len() && #[trigger] other.entries@[q].0 == k;
                            lemma_entry_lookup(other.entries@, q);
                            assert(!self@.dom().contains(other.entries@[q].0) && other.entries@[q].1 > 0);
                        }
                    }
                }
            }
        }
        dominated
    }

    /// Neither clock happens-before the other.
    pub fn concurrent_with(&self, other: &VectorClock) -> (r: bool)
        ensures
            r == (!clock_before(self@, other@) && !clock_before(other@, self@)),
    {
        !self.happens_before(other) && !other.happens_before(self)
    }

    /// Component-wise maximum with another clock (receiving a message).
    pub fn merge(&mut self, other: &VectorClock)
        ensures
            final(self)@ == clock_merge(old(self)@, other@),
    {
        proof { use_type_invariant(other); }
        let ghost a = self@;
        let m = other.entries.len();
        let mut j: usize = 0;
        proof {
            lemma_empty_map(other.entries@.take(0));
            assert(clock_merge(a, Map::<u64, u64>::empty()) =~= a);
        }
        while j < m
            invariant
                m == other.entries@.len(),
                j <= m,
                sorted_entries(other.entries@),
                self@ == clock_merge(a, entries_map(other.entries@.take(j as int))),
            decreases m - j,
        {
            let (node, value) = other.entries[j];
            let ghost b = entries_map(other.entries@.take(j as int));
            proof {
                lemma_take_sorted(other.entries@, j as int + 1);
                assert(other.entries@.take(j as int + 1) =~= other.entries@.take(j as int).push((node, value)));
                lemma_push_map(other.entries@.take(j as int), (node, value));
            }
            let current = self.get(NodeId(node));
            let mx = if current >= value { current } else { value };
            self.put(node, mx);
            proof {
                let b2 = entries_map(other.entries@.take(j as int + 1));
                assert(b2 == b.insert(node, value));
                assert(counter_of(self@, node) == mx);
                assert(clock_merge(a, b).insert(node, mx) =~= clock_merge(a, b2));
            }
            j = j + 1;
        }
        assert(other.entries@.take(m as int) =~= other.entries@);
    }

    /// A new clock that is the merge of both.
    pub fn merged(&self, other: &VectorClock) -> (r: VectorClock)
        ensures
            r@ == clock_merge(self@, other@),
    {
        let mut r = self.clone();
        r.merge(other);
        r
    }

    /// Number of nodes with an entry.
    pub fn len(&self) -> (r: usize)
        ensures
            r == self@.dom().len(),
    {
        proof { use_type_invariant(self); lemma_map_len(self.entries@); }
        self.entries.len()
    }

    /// No entries.
    pub fn is_empty(&self) -> (r: bool)
        ensures
            r == (self@.dom().len() == 0),
    {
        self.len() == 0
    }

    /// The (node, value) entries in increasing node order.
    pub fn iter(&self) -> (r: Vec<(NodeId, u64)>)
        ensures
            r@.len() == self.ordered_entries().len(),
            forall|i: int| 0 <= i < r@.len() ==> #[trigger] r@[i] == (NodeId(self.ordered_entries()[i].0), self.ordered_entries()[i].1),
            sorted_entries(self.ordered_entries()),
            entries_map(self.ordered_entries()) == self@,
    {
        proof { use_type_invariant(self); }
        let mut out: Vec<(NodeId, u64)> = Vec::new();
        let n = self.entries.len();
        let mut i: usize = 0;
        while i < n
            invariant
                n == self.entries@.len(),
                i <= n,
                out@.len() == i,
                forall|q: int| 0 <= q < i ==> #[trigger] out@[q] == (NodeId(self.entries@[q].0), self.entries@[q].1),
            decreases n - i,
        {
            out.push((NodeId(self.entries[i].0), self.entries[i].1));
            i = i + 1;
        }
        out
    }

    /// The nodes with an entry, in increasing order.
    pub fn nodes(&self) -> (r: Vec<NodeId>)
        ensures
            r@.len() == self.ordered_entries().len(),
            forall|i: int| 0 <= i < r@.len() ==> #[trigger] r@[i] == NodeId(self.ordered_entries()[i].0),
    {
        let mut out: Vec<NodeId> = Vec::new();
        let n = self.entries.len();
        let mut i: usize = 0;
        while i < n
            invariant
                n == self.entries@.len(),
                i <= n,
                out@.len() == i,
                forall|q: int| 0 <= q < i ==> #[trigger] out@[q] == NodeId(self.entries@[q].0),
            decreases n - i,
        {
            out.push(NodeId(self.entries[i].0));
            i = i + 1;
        }
        out
    }

    /// Sum of all counters.
    pub fn sum(&self) -> (r: u64)
        requires
            entries_sum(self.ordered_entries()) <= u64::MAX,
        ensures
            r == entries_sum(self.ordered_entries()),
    {
        let n = self.entries.len();
        let mut total: u64 = 0;
        let mut i: usize = 0;
        while i < n
            invariant
                n == self.entries@.len(),
                i <= n,
                entries_sum(self.entries@) <= u64::MAX,
                total == entries_sum(self.entries@.take(i as int)),
            decreases n - i,
        {
            assert(self.entries@.take(i as int + 1).drop_last() =~= self.entries@.take(i as int));
            proof { lemma_sum_prefix(self.entries@, i as int + 1); }
            total = total + self.entries[i].1;
            i = i + 1;
        }
        assert(self.entries@.take(n as int) =~= self.entries@);
        total
    }

    /// Largest counter (0 when empty).
    pub fn max_value(&self) -> (r: u64)
        ensures
            r == entries_max(self.ordered_entries()),
    {
        let n = self.entries.len();
        let mut best: u64 = 0;
        let mut i: usize = 0;
        while i < n
            invariant
                n == self.entries@.len(),
                i <= n,
                best == entries_max(self.entries@.take(i as int)),
            decreases n - i,
        {
            assert(self.entries@.take(i as int + 1).drop_last() =~= self.entries@.take(i as int));
            if self.entries[i].1 > best {
                best = self.entries[i].1;
            }
            i = i + 1;
        }
        assert(self.entries@.take(n as int) =~= self.entries@);
        best
    }

    /// Removes all entries.
    pub fn clear(&mut self)
        ensures
            final(self)@ == Map::<u64, u64>::empty(),
    {
        let mut e: Vec<(u64, u64)> = Vec::new();
        std::mem::swap(&mut e, &mut self.entries);
        proof { lemma_empty_map(self.entries@); }
    }

    /// Whether both clocks hold the same entries.
    pub fn equals(&self, other: &VectorClock) -> (r: bool)
        ensures
            r == (self@ == other@),
    {
        proof { use_type_invariant(self); use_type_invariant(other); }
        let n = self.entries.len();
        if n != other.entries.len() {
            proof {
                lemma_map_len(self.entries@);
                lemma_map_len(other.entries@);
            }
            return false;
        }
        let mut i: usize = 0;
        while i < n
            invariant
                n == self.entries@.len(),
                n == other.entries@.len(),
                sorted_entries(self.entries@),
                sorted_entries(other.entries@),
                i <= n,
                forall|q: int| 0 <= q < i ==> self.entries@[q] == other.entries@[q],
            decreases n - i,
        {
            if self.entries[i].0 != other.entries[i].0 || self.entries[i].1 != other.entries[i].1 {
                proof {
                    if self@ == other@ {
                        lemma_sorted_unique(self.entries@, other.entries@, i as int);
                    }
                }
                return false;
            }
            i = i + 1;
        }
        assert(self.entries@ =~= other.entries@);
        true
    }

    /// Index of the first entry whose node is not below `k`.
    fn position(&self, k: u64) -> (r: usize)
        ensures
            r <= self.entries@.len(),
            forall|j: int| 0 <= j < r ==> self.entries@[j].0 < k,
            forall|j: int| r <= j < self.entries@.len() ==> k <= self.entries@[j].0,
    {
        proof { use_type_invariant(self); }
        let n = self.entries.len();
        let mut i: usize = 0;
        while i < n && self.entries[i].0 < k
            invariant
                n == self.entries@.len(),
                sorted_entries(self.entries@),
                i <= n,
                forall|j: int| 0 <= j < i ==> self.entries@[j].0 < k,
            decreases n - i,
        {
            i = i + 1;
        }
        proof {
            if i < n {
                assert forall|j: int| i <= j < n implies k <= self.entries@[j].0 by {
                    if j > i {
                        assert(self.entries@[i as int].0 < self.entries@[j].0);
                    }
                }
            }
        }
        i
    }

    /// Stores `value` for node `k`, keeping an entry even for zero.
    fn put(&mut self, k: u64, value: u64)
        ensures
            final(self)@ == old(self)@.insert(k, value),
    {
        proof { use_type_invariant(&*self); }
        let p = self.position(k);
        let mut entries: Vec<(u64, u64)> = Vec::new();
        std::mem::swap(&mut entries, &mut self.entries);
        let ghost s = entries@;
        if p < entries.len() && entries[p].0 == k {
            entries.set(p, (k, value));
            proof { lemma_update_map(s, p as int, value); }
        } else {
            entries.insert(p, (k, value));
            proof { lemma_insert_map(s, p as int, (k, value)); }
        }
        self.entries = entries;
    }

    /// Removes the entry of node `k`, if any.
    fn remove(&mut self, k: u64)
        ensures
            final(self)@ == old(self)@.remove(k),
    {
        proof { use_type_invariant(&*self); }
        match self.find(k) {
            Some(i) => {
                let mut entries: Vec<(u64, u64)> = Vec::new();
                std::mem::swap(&mut entries, &mut self.entries);
                let ghost s = entries@;
                entries.remove(i);
                proof { lemma_remove_map(s, i as int); }
                self.entries = entries;
            },
            None => {
                assert(self@.remove(k) =~= self@);
            },
        }
    }
}

proof fn lemma_update_map(s: Seq<(u64, u64)>, p: int, v: u64)
    requires
        sorted_entries(s),
        0 <= p < s.len(),
    ensures
        sorted_entries(s.update(p, (s[p].0, v))),
        entries_map(s.update(p, (s[p].0, v))) == entries_map(s).insert(s[p].0, v),
{
    let k = s[p].0;
    let t = s.update(p, (k, v));
    assert(sorted_entries(t)) by {
        assert forall|i: int, j: int| 0 <= i < j < t.len() implies #[trigger] t[i].0 < #[trigger] t[j].0 by {
            assert(t[i].0 == s[i].0 && t[j].0 == s[j].0);
        }
    }
    assert forall|q: u64| #[trigger] has_node(t, q) == has_node(s, q) by {
        if has_node(t, q) {
            let i = choose|i: int| 0 <= i < t.len() && #[trigger] t[i].0 == q;
            assert(s[i].0 == q);
        }
        if has_node(s, q) {
            let i = choose|i: int| 0 <= i < s.len() && #[trigger] s[i].0 == q;
            assert(t[i].0 == q);
        }
    }
    assert forall|q: u64| #[trigger] entries_map(t).dom().contains(q) implies entries_map(t)[q] == entries_map(s).insert(k, v)[q] by {
        let i = choose|i: int| 0 <= i < t.len() && #[trigger] t[i].0 == q;
        lemma_entry_lookup(t, i);
        if i != p {
            lemma_entry_lookup(s, i);
            assert(q != k);
        }
    }
    assert(entries_map(s).dom().contains(k)) by { lemma_entry_lookup(s, p); }
    assert(entries_map(t) =~= entries_map(s).insert(k, v));
}

proof fn lemma_insert_map(s: Seq<(u64, u64)>, p: int, x: (u64, u64))
    requires
        sorted_entries(s),
        0 <= p <= s.len(),
        forall|j: int| 0 <= j < p ==> s[j].0 < x.0,
        forall|j: int| p <= j < s.len() ==> x.0 <= s[j].0,
        !(p < s.len() && s[p].0 == x.0),
    ensures
        sorted_entries(s.insert(p, x)),
        entries_map(s.insert(p, x)) == entries_map(s).insert(x.0, x.1),
{
    let t = s.insert(p, x);
    assert forall|j: int| p <= j < s.len() implies x.0 < s[j].0 by {
        if j > p {
            assert(s[p].0 < s[j].0);
        }
    }
    assert(sorted_entries(t)) by {
        assert forall|i: int, j: int| 0 <= i < j < t.len() implies #[trigger] t[i].0 < #[trigger] t[j].0 by {
            if i < p && j < p {
                assert(t[i] == s[i] && t[j] == s[j]);
            } else if i < p && j == p {
            } else if i < p {
                assert(t[j] == s[j - 1]);
            } else if i == p {
                assert(t[j] == s[j - 1]);
            } else {
                assert(t[i] == s[i - 1] && t[j] == s[j - 1]);
            }
        }
    }
    assert forall|q: u64| #[trigger] has_node(t, q) == (has_node(s, q) || q == x.0) by {
        if has_node(t, q) {
            let i = choose|i: int| 0 <= i < t.len() && #[trigger] t[i].0 == q;
            if i < p {
                assert(s[i].0 == q);
            } else if i > p {
                assert(s[i - 1].0 == q);
            }
        }
        if has_node(s, q) {
            let i = choose|i: int| 0 <= i < s.len() && #[trigger] s[i].0 == q;
            if i < p {
                assert(t[i].0 == q);
            } else {
                assert(t[i + 1].0 == q);
            }
        }
        if q == x.0 {
            assert(t[p].0 == q);
        }
    }
    assert forall|q: u64| #[trigger] entries_map(t).dom().contains(q) implies entries_map(t)[q] == entries_map(s).insert(x.0, x.1)[q] by {
        let i = choose|i: int| 0 <= i < t.len() && #[trigger] t[i].0 == q;
        lemma_entry_lookup(t, i);
        if i < p {
            assert(t[i] == s[i]);
            lemma_entry_lookup(s, i);
        } else if i > p {
            assert(t[i] == s[i - 1]);
            lemma_entry_lookup(s, i - 1);
        }
    }
    assert(entries_map(t) =~= entries_map(s).insert(x.0, x.1));
}

proof fn lemma_remove_map(s: Seq<(u64, u64)>, p: int)
    requires
        sorted_entries(s),
        0 <= p < s.len(),
    ensures
        sorted_entries(s.remove(p)),
        entries_map(s.remove(p)) == entries_map(s).remove(s[p].0),
{
    let t = s.remove(p);
    let k = s[p].0;
    assert(sorted_entries(t)) by {
        assert forall|i: int, j: int| 0 <= i < j < t.len() implies #[trigger] t[i].0 < #[trigger] t[j].0 by {
            if j < p {
                assert(t[i] == s[i] && t[j] == s[j]);
            } else if i < p {
                assert(t[i] == s[i] && t[j] == s[j + 1]);
            } else {
                assert(t[i] == s[i + 1] && t[j] == s[j + 1]);
            }
        }
    }
    assert forall|q: u64| #[trigger] has_node(t, q) == (has_node(s, q) && q != k) by {
        if has_node(t, q) {
            let i = choose|i: int| 0 <= i < t.len() && #[trigger] t[i].0 == q;
            if i < p {
                assert(s[i].0 == q);
                assert(s[i].0 < s[p].0);
            } else {
                assert(s[i + 1].0 == q);
                assert(s[p].0 < s[i + 1].0);
            }
        }
        if has_node(s, q) && q != k {
            let i = choose|i: int| 0 <= i < s.len() && #[trigger] s[i].0 == q;
            if i < p {
                assert(t[i].0 == q);
            } else {
                assert(i != p);
                assert(t[i - 1].0 == q);
            }
        }
    }
    assert forall|q: u64| #[trigger] entries_map(t).dom().contains(q) implies entries_map(t)[q] == entries_map(s).remove(k)[q] by {
        let i = choose|i: int| 0 <= i < t.len() && #[trigger] t[i].0 == q;
        lemma_entry_lookup(t, i);
        if i < p {
            assert(t[i] == s[i]);
            lemma_entry_lookup(s, i);
        } else {
            assert(t[i] == s[i + 1]);
            lemma_entry_lookup(s, i + 1);
        }
    }
    assert(entries_map(t) =~= entries_map(s).remove(k));
}

impl Clone for VectorClock {
    fn clone(&self) -> (r: Self)
        ensures
            r@ == self@,
            r.ordered_entries() == self.ordered_entries(),
    {
        proof { use_type_invariant(self); }
        let mut entries: Vec<(u64, u64)> = Vec::new();
        let n = self.entries.len();
        let mut i: usize = 0;
        while i < n
            invariant
                n == self.entries@.len(),
                i <= n,
                entries@ == self.entries@.take(i as int),
            decreases n - i,
        {
            entries.push(self.entries[i]);
            i = i + 1;
            assert(entries@ =~= self.entries@.take(i as int));
        }
        assert(self.entries@.take(n as int) =~= self.entries@);
        VectorClock { entries }
    }
}

impl Default for VectorClock {
    fn default() -> (r: Self)
        ensures
            r@ == Map::<u64, u64>::empty(),
    {
        VectorClock::new()
    }
}

/// The map built from (node, value) pairs, later pairs winning.
pub open spec fn pairs_map(s: Seq<(NodeId, u64)>) -> Map<u64, u64>
    decreases s.len(),
{
    if s.len() == 0 {
        Map::empty()
    } else {
        pairs_map(s.drop_last()).insert(s.last().0.0, s.last().1)
    }
}

proof fn lemma_sum_prefix(s: Seq<(u64, u64)>, n: int)
    requires
        0 <= n <= s.len(),
    ensures
        entries_sum(s.take(n)) <= entries_sum(s),
    decreases s.len() - n,
{
    if n < s.len() {
        lemma_sum_prefix(s, n + 1);
        assert(s.take(n + 1).drop_last() =~= s.take(n));
    } else {
        assert(s.take(n) =~= s);
    }
}

proof fn lemma_map_len(s: Seq<(u64, u64)>)
    requires
        sorted_entries(s),
    ensures
        entries_map(s).dom().len() == s.len(),
        entries_map(s).dom().finite(),
    decreases s.len(),
{
    if s.len() == 0 {
        lemma_empty_map(s);
    } else {
        let t = s.drop_last();
        assert(s == t.push(s.last()));
        lemma_push_map(t, s.last());
        lemma_map_len(t);
    }
}

/// Two sorted entry sequences describing the same map agree at every index.
proof fn lemma_sorted_unique(s: Seq<(u64, u64)>, t: Seq<(u64, u64)>, i: int)
    requires
        sorted_entries(s),
        sorted_entries(t),
        s.len() == t.len(),
        0 <= i < s.len(),
        forall|q: int| 0 <= q < i ==> s[q] == t[q],
        entries_map(s) == entries_map(t),
    ensures
        s[i] == t[i],
{
    lemma_entry_lookup(s, i);
    lemma_entry_lookup(t, i);
    let ks = s[i].0;
    let kt = t[i].0;
    if ks < kt {
        assert(entries_map(t).dom().contains(ks));
        let q = choose|q: int| 0 <= q < t.len() && #[trigger] t[q].0 == ks;
        if q < i {
            assert(s[q].0 == ks);
            assert(s[q].0 < s[i].0);
        } else if q > i {
            assert(t[i].0 < t[q].0);
        }
    } else if kt < ks {
        assert(entries_map(s).dom().contains(kt));
        let q = choose|q: int| 0 <= q < s.len() && #[trigger] s[q].0 == kt;
        if q < i {
            assert(t[q].0 == kt);
            assert(t[q].0 < t[i].0);
        } else if q > i {
            assert(s[i].0 < s[q].0);
        }
    }
}

proof fn lemma_map_finite(s: Seq<(u64, u64)>)
    requires
        sorted_entries(s),
    ensures
        entries_map(s).dom().finite(),
    decreases s.len(),
{
    if s.len() == 0 {
        lemma_empty_map(s);
    } else {
        let t = s.drop_last();
        assert(s == t.push(s.last()));
        lemma_push_map(t, s.last());
        lemma_map_finite(t);
    }
}

} // verus!

verus! {

/// Happens-before is irreflexive: no clock happens before itself.
pub proof fn law_before_irreflexive(a: Map<u64, u64>)
    ensures
        !clock_before(a, a),
{
}

/// Happens-before is asymmetric.
pub proof fn law_before_asymmetric(a: Map<u64, u64>, b: Map<u64, u64>)
    requires
        clock_before(a, b),
    ensures
        !clock_before(b, a),
{
    let k = choose|k: u64| #[trigger] counter_of(a, k) < counter_of(b, k);
    assert(counter_of(a, k) < counter_of(b, k));
}

/// Happens-before is transitive.
pub proof fn law_before_transitive(a: Map<u64, u64>, b: Map<u64, u64>, c: Map<u64, u64>)
    requires
        clock_before(a, b),
        clock_before(b, c),
    ensures
        clock_before(a, c),
{
    let k = choose|k: u64| #[trigger] counter_of(a, k) < counter_of(b, k);
    assert(counter_of(b, k) <= counter_of(c, k));
    assert forall|q: u64| #[trigger] counter_of(a, q) <= counter_of(c, q) by {
        assert(counter_of(a, q) <= counter_of(b, q));
        assert(counter_of(b, q) <= counter_of(c, q));
    }
    assert(counter_of(a, k) < counter_of(c, k));
}

/// The merge holds, for every node, the larger of the two counters.
pub proof fn law_merge_counter(a: Map<u64, u64>, b: Map<u64, u64>, k: u64)
    ensures
        counter_of(clock_merge(a, b), k) == (if counter_of(a, k) >= counter_of(b, k) { counter_of(a, k) } else { counter_of(b, k) }),
{
}

/// Merging is commutative.
pub proof fn law_merge_commutative(a: Map<u64, u64>, b: Map<u64, u64>)
    ensures
        clock_merge(a, b) == clock_merge(b, a),
{
    assert(clock_merge(a, b) =~= clock_merge(b, a));
}

/// Merging a clock with itself leaves it unchanged.
pub proof fn law_merge_idempotent(a: Map<u64, u64>)
    ensures
        clock_merge(a, a) == a,
{
    assert(clock_merge(a, a) =~= a);
}

/// Merging is associative.
pub proof fn law_merge_associative(a: Map<u64, u64>, b: Map<u64, u64>, c: Map<u64, u64>)
    ensures
        clock_merge(clock_merge(a, b), c) == clock_merge(a, clock_merge(b, c)),
{
    assert(clock_merge(clock_merge(a, b), c) =~= clock_merge(a, clock_merge(b, c)));
}

/// Neither input happens after the merge: each is below or equal to it.
pub proof fn law_merge_upper_bound(a: Map<u64, u64>, b: Map<u64, u64>)
    ensures
        forall|k: u64| #[trigger] counter_of(a, k) <= counter_of(clock_merge(a, b), k),
        forall|k: u64| #[trigger] counter_of(b, k) <= counter_of(clock_merge(a, b), k),
        !clock_before(clock_merge(a, b), a),
        !clock_before(clock_merge(a, b), b),
{
    assert forall|k: u64| #[trigger] counter_of(a, k) <= counter_of(clock_merge(a, b), k) by {
        law_merge_counter(a, b, k);
    }
    assert forall|k: u64| #[trigger] counter_of(b, k) <= counter_of(clock_merge(a, b), k) by {
        law_merge_counter(a, b, k);
    }
    if clock_before(clock_merge(a, b), a) {
        let k = choose|k: u64| #[trigger] counter_of(clock_merge(a, b), k) < counter_of(a, k);
        law_merge_counter(a, b, k);
    }
    if clock_before(clock_merge(a, b), b) {
        let k = choose|k: u64| #[trigger] counter_of(clock_merge(a, b), k) < counter_of(b, k);
        law_merge_counter(a, b, k);
    }
}

/// Incrementing a node's counter (below the maximum) produces a clock that
/// the previous one happens before.
pub proof fn law_increment_advances(a: Map<u64, u64>, k: u64)
    requires
        counter_of(a, k) < u64::MAX,
    ensures
        clock_before(a, a.insert(k, (counter_of(a, k) + 1) as u64)),
{
    let b = a.insert(k, (counter_of(a, k) + 1) as u64);
    assert(counter_of(a, k) < counter_of(b, k));
    assert forall|q: u64| #[trigger] counter_of(a, q) <= counter_of(b, q) by {
        if q != k {
            assert(counter_of(a, q) == counter_of(b, q));
        }
    }
}

/// Message passing: a receiver that merges the sender's clock and then
/// increments its own counter is causally after the sent clock.
pub proof fn law_receive_after_send(sent: Map<u64, u64>, receiver: Map<u64, u64>, k: u64)
    requires
        counter_of(clock_merge(receiver, sent), k) < u64::MAX,
    ensures
        clock_before(sent, clock_merge(receiver, sent).insert(k, (counter_of(clock_merge(receiver, sent), k) + 1) as u64)),
{
    let m = clock_merge(receiver, sent);
    law_merge_upper_bound(receiver, sent);
    law_increment_advances(m, k);
    let n = m.insert(k, (counter_of(m, k) + 1) as u64);
    assert forall|q: u64| #[trigger] counter_of(sent, q) <= counter_of(n, q) by {
        assert(counter_of(sent, q) <= counter_of(m, q));
        assert(counter_of(m, q) <= counter_of(n, q));
    }
    let w = choose|q: u64| #[trigger] counter_of(m, q) < counter_of(n, q);
    assert(counter_of(sent, w) <= counter_of(m, w));
    assert(counter_of(sent, w) < counter_of(n, w));
}

} // verus!
