//! Execution traces for TLA+ validation: clocks, steps and trace files.
use vstd::prelude::*;
use std::cmp::Ordering;
use crate::named::{named_value, distinct_names, named_updated, set_named, get_named, find_name, lemma_named_at};
use crate::text::{decimal, to_owned_string, push_str, push_decimal};
use crate::text_order::{sorted_texts, lists_text, insert_sorted_text};
use crate::json::JsonValue;

verus! {

/// The counter of a process in a clock: its entry, or 0 when absent.
pub open spec fn clock_get(m: Seq<(String, u64)>, k: Seq<char>) -> nat {
    match named_value(m, k) {
        Some(v) => v as nat,
        None => 0,
    }
}

/// Clock `a` happens before clock `b`: no counter of `a` exceeds `b`'s,
/// and some counter is smaller.
pub open spec fn trace_before(a: Seq<(String, u64)>, b: Seq<(String, u64)>) -> bool {
    &&& forall|k: Seq<char>| #[trigger] clock_get(a, k) <= clock_get(b, k)
    &&& exists|k: Seq<char>| #[trigger] clock_get(a, k) < clock_get(b, k)
}

/// Two clocks have the same entries.
pub open spec fn same_entries(a: Seq<(String, u64)>, b: Seq<(String, u64)>) -> bool {
    forall|k: Seq<char>| #[trigger] named_value(a, k) == named_value(b, k)
}

/// A vector clock keyed by process name.
#[derive(Debug, Clone)]
pub struct VectorClock {
    /// The counter of each process, by name.
    pub values: Vec<(String, u64)>,
}

impl VectorClock {
    /// Well formed: process names are distinct.
    pub open spec fn wf(self) -> bool {
        distinct_names(self.values@)
    }

    /// An empty clock.
    pub fn new() -> (r: Self)
        ensures
            r.wf(),
            r.values@.len() == 0,
    {
        VectorClock { values: Vec::new() }
    }

    /// A clock with the given counters.
    pub fn from_map(values: Vec<(String, u64)>) -> (r: Self)
        requires
            distinct_names(values@),
        ensures
            r.wf(),
            r.values == values,
    {
        VectorClock { values }
    }

    /// The counter of a process; 0 when absent.
    pub fn get(&self, process: &str) -> (r: u64)
        requires
            self.wf(),
        ensures
            r == clock_get(self.values@, process@),
    {
        match get_named(&self.values, process) {
            Some(v) => *v,
            None => 0,
        }
    }

    /// Increments a process's counter.
    pub fn increment(&mut self, process: &str)
        requires
            old(self).wf(),
            clock_get(old(self).values@, process@) < u64::MAX,
        ensures
            final(self).wf(),
            clock_get(final(self).values@, process@) == clock_get(old(self).values@, process@) + 1,
            forall|k: Seq<char>| k != process@ ==> #[trigger] named_value(final(self).values@, k) == named_value(old(self).values@, k),
    {
        let v = self.get(process);
        set_named(&mut self.values, to_owned_string(process), v + 1);
    }

    /// Merges another clock: each counter becomes the larger of the two.
    pub fn merge(&mut self, other: &VectorClock)
        requires
            old(self).wf(),
            other.wf(),
        ensures
            final(self).wf(),
            forall|k: Seq<char>| #[trigger] clock_get(final(self).values@, k)
                == if clock_get(old(self).values@, k) >= clock_get(other.values@, k) { clock_get(old(self).values@, k) } else { clock_get(other.values@, k) },
            forall|k: Seq<char>| #[trigger] named_value(final(self).values@, k) is Some
                <==> (named_value(old(self).values@, k) is Some || named_value(other.values@, k) is Some),
    {
        let ghost s0 = self.values@;
        let n = other.values.len();
        let mut i: usize = 0;
        while i < n
            invariant
                n == other.values@.len(),
                other.wf(),
                i <= n,
                distinct_names(self.values@),
                forall|k: Seq<char>| #[trigger] clock_get(self.values@, k)
                    == if (exists|t: int| 0 <= t < i && other.values@[t].0@ == k) {
                        if clock_get(s0, k) >= clock_get(other.values@, k) { clock_get(s0, k) } else { clock_get(other.values@, k) }
                    } else {
                        clock_get(s0, k)
                    },
                forall|k: Seq<char>| #[trigger] named_value(self.values@, k) is Some
                    <==> (named_value(s0, k) is Some || exists|t: int| 0 <= t < i && other.values@[t].0@ == k),
            decreases n - i,
        {
            let ghost before = self.values@;
            let name = &other.values[i].0;
            let value = other.values[i].1;
            let cur = self.get(name.as_str());
            let m = if cur >= value { cur } else { value };
            proof { lemma_named_at(other.values@, i as int); }
            set_named(&mut self.values, to_owned_string(name.as_str()), m);
            proof {
                let kn = other.values@[i as int].0@;
                assert forall|k: Seq<char>| #[trigger] clock_get(self.values@, k)
                    == if (exists|t: int| 0 <= t < i + 1 && other.values@[t].0@ == k) {
                        if clock_get(s0, k) >= clock_get(other.values@, k) { clock_get(s0, k) } else { clock_get(other.values@, k) }
                    } else {
                        clock_get(s0, k)
                    } by {
                    if k == kn {
                        assert(other.values@[i as int].0@ == k);
                        if exists|t: int| 0 <= t < i && other.values@[t].0@ == k {
                            let t = choose|t: int| 0 <= t < i && other.values@[t].0@ == k;
                            assert(other.values@[t].0@ == other.values@[i as int].0@);
                        }
                    } else {
                        assert(clock_get(self.values@, k) == clock_get(before, k));
                        if exists|t: int| 0 <= t < i + 1 && other.values@[t].0@ == k {
                            let t = choose|t: int| 0 <= t < i + 1 && other.values@[t].0@ == k;
                            assert(t != i);
                        }
                    }
                }
                assert forall|k: Seq<char>| #[trigger] named_value(self.values@, k) is Some
                    <==> (named_value(s0, k) is Some || exists|t: int| 0 <= t < i + 1 && other.values@[t].0@ == k) by {
                    if k == kn {
                        assert(other.values@[i as int].0@ == k);
                    } else {
                        if exists|t: int| 0 <= t < i + 1 && other.values@[t].0@ == k {
                            let t = choose|t: int| 0 <= t < i + 1 && other.values@[t].0@ == k;
                            assert(t != i);
                        }
                    }
                }
            }
            i = i + 1;
        }
        proof {
            assert forall|k: Seq<char>| #[trigger] clock_get(self.values@, k)
                == if clock_get(s0, k) >= clock_get(other.values@, k) { clock_get(s0, k) } else { clock_get(other.values@, k) } by {
                if !(exists|t: int| 0 <= t < n && other.values@[t].0@ == k) {
                    assert(named_value(other.values@, k) is None);
                }
            }
            assert forall|k: Seq<char>| #[trigger] named_value(self.values@, k) is Some
                <==> (named_value(s0, k) is Some || named_value(other.values@, k) is Some) by {
                if named_value(other.values@, k) is Some {
                    let t = choose|t: int| 0 <= t < other.values@.len() && (#[trigger] other.values@[t]).0@ == k;
                    assert(other.values@[t].0@ == k);
                }
            }
        }
    }
}

impl VectorClock {
    /// Whether this clock happens before `other`: no counter is larger
    /// and some counter is smaller (absent counters are 0).
    pub fn happens_before(&self, other: &VectorClock) -> (r: bool)
        requires
            self.wf(),
            other.wf(),
        ensures
            r == trace_before(self.values@, other.values@),
    {
        let a = &self.values;
        let b = &other.values;
        let mut less = false;
        let n = a.len();
        let mut i: usize = 0;
        while i < n
            invariant
                n == a@.len(),
                a@ == self.values@,
                self.wf(),
                other.wf(),
                i <= n,
                forall|t: int| 0 <= t < i ==> (#[trigger] a@[t]).1 <= clock_get(other.values@, a@[t].0@),
                less <==> exists|t: int| 0 <= t < i && (#[trigger] a@[t]).1 < clock_get(other.values@, a@[t].0@),
            decreases n - i,
        {
            let v = a[i].1;
            let ov = other.get(a[i].0.as_str());
            if v > ov {
                proof {
                    lemma_named_at(a@, i as int);
                    let k = a@[i as int].0@;
                    assert(!(clock_get(self.values@, k) <= clock_get(other.values@, k)));
                }
                return false;
            }
            if v < ov {
                less = true;
            }
            i = i + 1;
        }
        let ghost less1 = less;
        let m = b.len();
        let mut j: usize = 0;
        while j < m
            invariant
                m == b@.len(),
                b@ == other.values@,
                a@ == self.values@,
                self.wf(),
                other.wf(),
                j <= m,
                less <==> less1 || exists|t: int| 0 <= t < j && named_value(a@, (#[trigger] b@[t]).0@) is None && b@[t].1 > 0,
            decreases m - j,
        {
            let key = to_owned_string(b[j].0.as_str());
            if b[j].1 > 0 {
                match find_name(a, &key) {
                    None => {
                        proof {
                            if named_value(a@, b@[j as int].0@) is Some {
                                let t = choose|t: int| 0 <= t < a@.len() && (#[trigger] a@[t]).0@ == b@[j as int].0@;
                                assert(a@[t].0@ == key@);
                            }
                        }
                        less = true;
                    },
                    Some(_) => {},
                }
            }
            j = j + 1;
        }
        proof {
            assert forall|k: Seq<char>| #[trigger] clock_get(self.values@, k) <= clock_get(other.values@, k) by {
                if named_value(a@, k) is Some {
                    let t = choose|t: int| 0 <= t < a@.len() && (#[trigger] a@[t]).0@ == k;
                    lemma_named_at(a@, t);
                    assert(a@[t].1 <= clock_get(other.values@, a@[t].0@));
                }
            }
            if less {
                if less1 {
                    let t = choose|t: int| 0 <= t < n && (#[trigger] a@[t]).1 < clock_get(other.values@, a@[t].0@);
                    lemma_named_at(a@, t);
                    assert(clock_get(self.values@, a@[t].0@) < clock_get(other.values@, a@[t].0@));
                } else {
                    let t = choose|t: int| 0 <= t < m && named_value(a@, (#[trigger] b@[t]).0@) is None && b@[t].1 > 0;
                    lemma_named_at(b@, t);
                    assert(clock_get(self.values@, b@[t].0@) < clock_get(other.values@, b@[t].0@));
                }
            } else {
                assert forall|k: Seq<char>| !(#[trigger] clock_get(self.values@, k) < clock_get(other.values@, k)) by {
                    if clock_get(self.values@, k) < clock_get(other.values@, k) {
                        let t = choose|t: int| 0 <= t < b@.len() && (#[trigger] b@[t]).0@ == k;
                        lemma_named_at(b@, t);
                        if named_value(a@, k) is Some {
                            let q = choose|q: int| 0 <= q < a@.len() && (#[trigger] a@[q]).0@ == k;
                            lemma_named_at(a@, q);
                            assert(!(a@[q].1 < clock_get(other.values@, a@[q].0@)));
                        } else {
                            assert(named_value(a@, b@[t].0@) is None && b@[t].1 > 0);
                        }
                    }
                }
            }
        }
        less
    }

    /// Whether neither clock happens before the other.
    pub fn concurrent_with(&self, other: &VectorClock) -> (r: bool)
        requires
            self.wf(),
            other.wf(),
        ensures
            r == (!trace_before(self.values@, other.values@) && !trace_before(other.values@, self.values@)),
    {
        !self.happens_before(other) && !other.happens_before(self)
    }

    /// Whether both clocks have the same entries.
    pub fn equals(&self, other: &VectorClock) -> (r: bool)
        requires
            self.wf(),
            other.wf(),
        ensures
            r == same_entries(self.values@, other.values@),
    {
        if self.values.len() != other.values.len() {
            proof {
                if same_entries(self.values@, other.values@) {
                    lemma_same_entries_len(self.values@, other.values@);
                }
            }
            return false;
        }
        let n = self.values.len();
        let mut i: usize = 0;
        while i < n
            invariant
                n == self.values@.len(),
                n == other.values@.len(),
                self.wf(),
                other.wf(),
                i <= n,
                forall|t: int| 0 <= t < i ==> named_value(other.values@, (#[trigger] self.values@[t]).0@) == Some(self.values@[t].1),
            decreases n - i,
        {
            proof { lemma_named_at(self.values@, i as int); }
            match get_named(&other.values, self.values[i].0.as_str()) {
                Some(v) => {
                    if *v != self.values[i].1 {
                        return false;
                    }
                },
                None => {
                    return false;
                },
            }
            i = i + 1;
        }
        proof {
            lemma_same_entries_from_subset(self.values@, other.values@);
        }
        true
    }

    /// Equal, happens-before (Less), happens-after (Greater), or
    /// concurrent (None).
    pub fn partial_cmp(&self, other: &VectorClock) -> (r: Option<Ordering>)
        requires
            self.wf(),
            other.wf(),
        ensures
            r == if same_entries(self.values@, other.values@) { Some(Ordering::Equal) }
                else if trace_before(self.values@, other.values@) { Some(Ordering::Less) }
                else if trace_before(other.values@, self.values@) { Some(Ordering::Greater) }
                else { None },
    {
        if self.equals(other) {
            Some(Ordering::Equal)
        } else if self.happens_before(other) {
            Some(Ordering::Less)
        } else if other.happens_before(self) {
            Some(Ordering::Greater)
        } else {
            None
        }
    }
}

impl Default for VectorClock {
    fn default() -> (r: Self)
        ensures
            r.wf(),
            r.values@.len() == 0,
    {
        VectorClock::new()
    }
}

/// The names of a clock's entries.
pub open spec fn entry_names(a: Seq<(String, u64)>) -> Seq<Seq<char>> {
    a.map_values(|p: (String, u64)| p.0@)
}

/// With distinct names, the names form a set with one member per entry,
/// the names that have a value.
proof fn lemma_name_set(a: Seq<(String, u64)>)
    requires
        distinct_names(a),
    ensures
        entry_names(a).to_set().len() == a.len(),
        entry_names(a).to_set().finite(),
        forall|k: Seq<char>| #[trigger] entry_names(a).to_set().contains(k) <==> named_value(a, k) is Some,
{
    let s = entry_names(a);
    assert(s.no_duplicates()) by {
        assert forall|i: int, j: int| 0 <= i < s.len() && 0 <= j < s.len() && i != j implies s[i] != s[j] by {
            assert(a[i].0@ != a[j].0@);
        }
    }
    s.unique_seq_to_set();
    vstd::seq_lib::seq_to_set_is_finite(s);
    assert forall|k: Seq<char>| #[trigger] s.to_set().contains(k) <==> named_value(a, k) is Some by {
        if s.to_set().contains(k) {
            assert(s.contains(k));
            let i = choose|i: int| 0 <= i < s.len() && s[i] == k;
            assert(a[i].0@ == k);
        }
        if named_value(a, k) is Some {
            let i = choose|i: int| 0 <= i < a.len() && (#[trigger] a[i]).0@ == k;
            assert(s[i] == k);
            assert(s.contains(k));
        }
    }
}

/// Clocks with the same entries have the same number of entries.
proof fn lemma_same_entries_len(a: Seq<(String, u64)>, b: Seq<(String, u64)>)
    requires
        distinct_names(a),
        distinct_names(b),
        same_entries(a, b),
    ensures
        a.len() == b.len(),
{
    lemma_name_set(a);
    lemma_name_set(b);
    assert(entry_names(a).to_set() =~= entry_names(b).to_set()) by {
        assert forall|k: Seq<char>| entry_names(a).to_set().contains(k) <==> entry_names(b).to_set().contains(k) by {
            assert(named_value(a, k) == named_value(b, k));
        }
    }
}

/// Equally long clocks where each entry of `a` is an entry of `b` have
/// the same entries.
proof fn lemma_same_entries_from_subset(a: Seq<(String, u64)>, b: Seq<(String, u64)>)
    requires
        distinct_names(a),
        distinct_names(b),
        a.len() == b.len(),
        forall|t: int| 0 <= t < a.len() ==> named_value(b, (#[trigger] a[t]).0@) == Some(a[t].1),
    ensures
        same_entries(a, b),
{
    lemma_name_set(a);
    lemma_name_set(b);
    let sa = entry_names(a).to_set();
    let sb = entry_names(b).to_set();
    assert(sa.subset_of(sb)) by {
        assert forall|k: Seq<char>| sa.contains(k) implies sb.contains(k) by {
            let t = choose|t: int| 0 <= t < a.len() && (#[trigger] a[t]).0@ == k;
            assert(named_value(b, a[t].0@) == Some(a[t].1));
        }
    }
    vstd::set_lib::lemma_subset_equality(sa, sb);
    assert forall|k: Seq<char>| #[trigger] named_value(a, k) == named_value(b, k) by {
        if named_value(a, k) is Some {
            let t = choose|t: int| 0 <= t < a.len() && (#[trigger] a[t]).0@ == k;
            lemma_named_at(a, t);
        } else {
            assert(!sa.contains(k));
            assert(!sb.contains(k));
        }
    }
}

/// A clock value ordering trace steps.
#[derive(Debug, Clone)]
pub enum TraceClock {
    /// A logical (Lamport) clock.
    Logical(u64),
    /// A vector clock.
    Vector(VectorClock),
    /// A hybrid logical clock.
    Hybrid { physical: u64, logical: u32 },
}

/// Clock `a` happens before clock `b`: by value for logical clocks, by
/// vector order for vector clocks, by (physical, logical) for hybrid
/// clocks; clocks of different kinds are unordered.
pub open spec fn trace_clock_before(a: TraceClock, b: TraceClock) -> bool {
    match (a, b) {
        (TraceClock::Logical(x), TraceClock::Logical(y)) => x < y,
        (TraceClock::Vector(x), TraceClock::Vector(y)) => trace_before(x.values@, y.values@),
        (TraceClock::Hybrid { physical: p1, logical: l1 }, TraceClock::Hybrid { physical: p2, logical: l2 }) =>
            p1 < p2 || (p1 == p2 && l1 < l2),
        _ => false,
    }
}

impl TraceClock {
    /// Well formed: a vector clock's process names are distinct.
    pub open spec fn wf(self) -> bool {
        match self {
            TraceClock::Vector(v) => v.wf(),
            _ => true,
        }
    }

    /// A logical clock.
    pub fn logical(value: u64) -> (r: Self)
        ensures
            r == TraceClock::Logical(value),
    {
        TraceClock::Logical(value)
    }

    /// A vector clock.
    pub fn vector(clock: VectorClock) -> (r: Self)
        ensures
            r == TraceClock::Vector(clock),
    {
        TraceClock::Vector(clock)
    }

    /// A hybrid logical clock.
    pub fn hybrid(physical: u64, logical: u32) -> (r: Self)
        ensures
            r == (TraceClock::Hybrid { physical, logical }),
    {
        TraceClock::Hybrid { physical, logical }
    }

    /// Whether this clock happens before `other`.
    pub fn happens_before(&self, other: &TraceClock) -> (r: bool)
        requires
            self.wf(),
            other.wf(),
        ensures
            r == trace_clock_before(*self, *other),
    {
        match (self, other) {
            (TraceClock::Logical(a), TraceClock::Logical(b)) => *a < *b,
            (TraceClock::Vector(a), TraceClock::Vector(b)) => a.happens_before(b),
            (TraceClock::Hybrid { physical: p1, logical: l1 }, TraceClock::Hybrid { physical: p2, logical: l2 }) =>
                *p1 < *p2 || (*p1 == *p2 && *l1 < *l2),
            _ => false,
        }
    }

    /// The order of two clocks: logical clocks by value, vector clocks by
    /// their partial order, hybrid clocks by (physical, logical); clocks of
    /// different kinds are unordered.
    pub open spec fn order_with(self, other: TraceClock) -> Option<Ordering> {
        match (self, other) {
            (TraceClock::Logical(a), TraceClock::Logical(b)) =>
                Some(if a < b { Ordering::Less } else if a == b { Ordering::Equal } else { Ordering::Greater }),
            (TraceClock::Vector(x), TraceClock::Vector(y)) =>
                if same_entries(x.values@, y.values@) { Some(Ordering::Equal) }
                else if trace_before(x.values@, y.values@) { Some(Ordering::Less) }
                else if trace_before(y.values@, x.values@) { Some(Ordering::Greater) }
                else { None },
            (TraceClock::Hybrid { physical: p1, logical: l1 }, TraceClock::Hybrid { physical: p2, logical: l2 }) =>
                Some(if p1 < p2 || (p1 == p2 && l1 < l2) { Ordering::Less }
                    else if p1 == p2 && l1 == l2 { Ordering::Equal } else { Ordering::Greater }),
            _ => None,
        }
    }

    /// The partial order of two clocks (see `order_with`).
    pub fn partial_cmp(&self, other: &TraceClock) -> (r: Option<Ordering>)
        requires
            self.wf(),
            other.wf(),
        ensures
            r == self.order_with(*other),
    {
        match (self, other) {
            (TraceClock::Logical(a), TraceClock::Logical(b)) =>
                Some(if *a < *b { Ordering::Less } else if *a == *b { Ordering::Equal } else { Ordering::Greater }),
            (TraceClock::Vector(x), TraceClock::Vector(y)) => x.partial_cmp(y),
            (TraceClock::Hybrid { physical: p1, logical: l1 }, TraceClock::Hybrid { physical: p2, logical: l2 }) =>
                Some(if *p1 < *p2 || (*p1 == *p2 && *l1 < *l2) { Ordering::Less }
                    else if *p1 == *p2 && *l1 == *l2 { Ordering::Equal } else { Ordering::Greater }),
            _ => None,
        }
    }

    /// Whether neither clock happens before the other.
    pub fn concurrent_with(&self, other: &TraceClock) -> (r: bool)
        requires
            self.wf(),
            other.wf(),
        ensures
            r == (!trace_clock_before(*self, *other) && !trace_clock_before(*other, *self)),
    {
        !self.happens_before(other) && !other.happens_before(self)
    }

    /// The logical component: a logical clock's value or a hybrid
    /// clock's logical counter.
    pub fn as_logical(&self) -> (r: Option<u64>)
        ensures
            r == match self {
                TraceClock::Logical(v) => Some(*v),
                TraceClock::Hybrid { logical, .. } => Some(*logical as u64),
                TraceClock::Vector(_) => None::<u64>,
            },
    {
        match self {
            TraceClock::Logical(v) => Some(*v),
            TraceClock::Hybrid { logical, .. } => Some(*logical as u64),
            TraceClock::Vector(_) => None,
        }
    }
}

impl Default for TraceClock {
    fn default() -> (r: Self)
        ensures
            r == TraceClock::Logical(0),
    {
        TraceClock::Logical(0)
    }
}

/// A single step of an execution trace.
#[derive(Debug, Clone)]
pub struct TraceStep {
    /// The clock value at this step.
    pub clock: TraceClock,
    /// The action that led to this state.
    pub action: String,
    /// The variable values after this step, by name.
    pub vars: Vec<(String, JsonValue)>,
    /// Parameters of the action, by name.
    pub params: Option<Vec<(String, JsonValue)>>,
    /// Process or node identifier.
    pub process: Option<String>,
    /// Metadata for debugging and analysis, by name.
    pub metadata: Option<Vec<(String, JsonValue)>>,
}

impl TraceStep {
    /// Well formed: the clock is, and variable and parameter names are
    /// distinct.
    pub open spec fn wf(self) -> bool {
        &&& self.clock.wf()
        &&& distinct_names(self.vars@)
        &&& (self.params matches Some(p) ==> distinct_names(p@))
    }

    /// A step with the given clock, action and variables.
    pub fn new(clock: TraceClock, action: &str, vars: Vec<(String, JsonValue)>) -> (r: Self)
        ensures
            r.clock == clock,
            r.action@ == action@,
            r.vars == vars,
            r.params is None && r.process is None && r.metadata is None,
    {
        TraceStep { clock, action: to_owned_string(action), vars, params: None, process: None, metadata: None }
    }

    /// Sets the parameters.
    pub fn with_params(self, params: Vec<(String, JsonValue)>) -> (r: Self)
        ensures
            r == (TraceStep { params: Some(params), ..self }),
    {
        TraceStep { params: Some(params), ..self }
    }

    /// Sets the process identifier.
    pub fn with_process(self, process: &str) -> (r: Self)
        ensures
            r.process matches Some(p) && p@ == process@,
            r == (TraceStep { process: r.process, ..self }),
    {
        TraceStep { process: Some(to_owned_string(process)), ..self }
    }

    /// Sets the metadata.
    pub fn with_metadata(self, metadata: Vec<(String, JsonValue)>) -> (r: Self)
        ensures
            r == (TraceStep { metadata: Some(metadata), ..self }),
    {
        TraceStep { metadata: Some(metadata), ..self }
    }

    /// A variable's value.
    pub fn get_var(&self, name: &str) -> (r: Option<&JsonValue>)
        requires
            distinct_names(self.vars@),
        ensures
            match named_value(self.vars@, name@) {
                Some(v) => r matches Some(x) && *x == v,
                None => r is None,
            },
    {
        get_named(&self.vars, name)
    }

    /// A parameter's value.
    pub fn get_param(&self, name: &str) -> (r: Option<&JsonValue>)
        requires
            self.params matches Some(p) ==> distinct_names(p@),
        ensures
            match self.params {
                Some(p) => match named_value(p@, name@) {
                    Some(v) => r matches Some(x) && *x == v,
                    None => r is None,
                },
                None => r is None,
            },
    {
        match &self.params {
            Some(p) => get_named(p, name),
            None => None,
        }
    }
}

/// Errors of trace files.
#[derive(Debug, Clone)]
pub enum TraceError {
    /// An I/O error; the operating system's message.
    Io(String),
    /// A JSON error at a line; the parser's message.
    Json { line: usize, message: String },
    /// Invalid trace format.
    InvalidFormat(String),
    /// Empty trace file.
    EmptyTrace,
    /// Clock ordering violation.
    ClockOrdering { step: usize, message: String },
}

/// The display text of a trace error.
pub open spec fn trace_error_text(e: TraceError) -> Seq<char> {
    match e {
        TraceError::Io(m) => "I/O error: "@ + m@,
        TraceError::Json { line, message } => "JSON error at line "@ + decimal(line as nat) + ": "@ + message@,
        TraceError::InvalidFormat(m) => "Invalid trace format: "@ + m@,
        TraceError::EmptyTrace => "Trace file is empty"@,
        TraceError::ClockOrdering { step, message } => "Clock ordering violation at step "@ + decimal(step as nat) + ": "@ + message@,
    }
}

impl TraceError {
    /// The display text (see `trace_error_text`).
    pub fn to_string(&self) -> (s: String)
        ensures
            s@ == trace_error_text(*self),
    {
        match self {
            TraceError::Io(m) => {
                let mut s = to_owned_string("I/O error: ");
                push_str(&mut s, m.as_str());
                s
            },
            TraceError::Json { line, message } => {
                let mut s = to_owned_string("JSON error at line ");
                push_decimal(&mut s, *line as u128);
                push_str(&mut s, ": ");
                push_str(&mut s, message.as_str());
                s
            },
            TraceError::InvalidFormat(m) => {
                let mut s = to_owned_string("Invalid trace format: ");
                push_str(&mut s, m.as_str());
                s
            },
            TraceError::EmptyTrace => to_owned_string("Trace file is empty"),
            TraceError::ClockOrdering { step, message } => {
                let mut s = to_owned_string("Clock ordering violation at step ");
                push_decimal(&mut s, *step as u128);
                push_str(&mut s, ": ");
                push_str(&mut s, message.as_str());
                s
            },
        }
    }
}

/// Metadata about a trace file.
#[derive(Debug, Clone)]
pub struct TraceMetadata {
    /// The TLA+ specification of the trace.
    pub spec_name: Option<String>,
    /// Version of the trace format.
    pub version: String,
    /// When the trace was created.
    pub created_at: Option<String>,
    /// Additional properties, by name.
    pub extra: Vec<(String, JsonValue)>,
}

impl TraceMetadata {
    /// Version "1.0" and nothing else.
    pub fn new() -> (r: Self)
        ensures
            r.spec_name is None,
            r.version@ == "1.0"@,
            r.created_at is None,
            r.extra@.len() == 0,
    {
        TraceMetadata { spec_name: None, version: to_owned_string("1.0"), created_at: None, extra: Vec::new() }
    }
}

impl Default for TraceMetadata {
    fn default() -> (r: Self)
        ensures
            r.spec_name is None,
            r.version@ == "1.0"@,
            r.created_at is None,
            r.extra@.len() == 0,
    {
        TraceMetadata::new()
    }
}

/// The step's clock does not go forward from the previous step's: a
/// logical clock that is not greater, or a clock that happens before.
pub open spec fn goes_back(prev: TraceClock, curr: TraceClock) -> bool {
    match (prev, curr) {
        (TraceClock::Logical(a), TraceClock::Logical(b)) => b <= a,
        _ => trace_clock_before(curr, prev),
    }
}

/// `Step <k> has clock <c> which happens before step <k-1>'s clock <p>`,
/// or `... which does not come after ...` for a logical clock that stays.
pub open spec fn ordering_message(k: nat, curr: TraceClock, prev: TraceClock) -> Seq<char> {
    "Step "@ + decimal(k) + " has clock "@ + clock_text(curr)
        + (if trace_clock_before(curr, prev) { " which happens before step "@ } else { " which does not come after step "@ })
        + decimal((k - 1) as nat) + "'s clock "@ + clock_text(prev)
}

/// The entries of a vector clock as `"name": value`, joined by ", ".
pub open spec fn clock_entries_text(s: Seq<(String, u64)>) -> Seq<char>
    decreases s.len(),
{
    if s.len() == 0 {
        Seq::empty()
    } else if s.len() == 1 {
        "\""@ + s[0].0@ + "\": "@ + decimal(s[0].1 as nat)
    } else {
        clock_entries_text(s.drop_last()) + ", "@ + "\""@ + s.last().0@ + "\": "@ + decimal(s.last().1 as nat)
    }
}

/// The text of a clock, in the form of its `Debug` output:
/// `Logical(<v>)`, `Vector(VectorClock { values: {"<p>": <v>, ...} })`
/// with the entries in stored order, or
/// `Hybrid { physical: <p>, logical: <l> }`.
pub open spec fn clock_text(c: TraceClock) -> Seq<char> {
    match c {
        TraceClock::Logical(v) => "Logical("@ + decimal(v as nat) + ")"@,
        TraceClock::Vector(vc) => "Vector(VectorClock { values: {"@ + clock_entries_text(vc.values@) + "} })"@,
        TraceClock::Hybrid { physical, logical } =>
            "Hybrid { physical: "@ + decimal(physical as nat) + ", logical: "@ + decimal(logical as nat) + " }"@,
    }
}

/// Appends the text of a clock (see `clock_text`).
fn push_clock_text(s: &mut String, c: &TraceClock)
    ensures
        final(s)@ == old(s)@ + clock_text(*c),
{
    match c {
        TraceClock::Logical(v) => {
            push_str(s, "Logical(");
            push_decimal(s, *v as u128);
            push_str(s, ")");
            assert(s@ =~= old(s)@ + clock_text(*c));
        },
        TraceClock::Hybrid { physical, logical } => {
            push_str(s, "Hybrid { physical: ");
            push_decimal(s, *physical as u128);
            push_str(s, ", logical: ");
            push_decimal(s, *logical as u128);
            push_str(s, " }");
            assert(s@ =~= old(s)@ + clock_text(*c));
        },
        TraceClock::Vector(vc) => {
            push_str(s, "Vector(VectorClock { values: {");
            let ghost start = s@;
            let n = vc.values.len();
            let mut i: usize = 0;
            while i < n
                invariant
                    n == vc.values@.len(),
                    i <= n,
                    s@ == start + clock_entries_text(vc.values@.take(i as int)),
                decreases n - i,
            {
                let ghost before = s@;
                if i > 0 {
                    push_str(s, ", ");
                }
                let ghost mid = s@;
                push_str(s, "\"");
                push_str(s, vc.values[i].0.as_str());
                push_str(s, "\": ");
                push_decimal(s, vc.values[i].1 as u128);
                proof {
                    let e = vc.values@[i as int];
                    assert(s@ =~= mid + ("\""@ + e.0@ + "\": "@ + decimal(e.1 as nat)));
                    if i > 0 {
                        assert(mid =~= before + ", "@);
                    } else {
                        assert(mid == before);
                    }
                    let t = vc.values@.take(i as int + 1);
                    assert(t.drop_last() =~= vc.values@.take(i as int));
                    assert(t.last() == vc.values@[i as int]);
                    if i == 0 {
                        assert(t.len() == 1 && t[0] == vc.values@[0]);
                        assert(clock_entries_text(vc.values@.take(0)) =~= Seq::<char>::empty());
                        assert(s@ =~= start + clock_entries_text(t));
                    } else {
                        assert(s@ =~= start + clock_entries_text(t));
                    }
                }
                i = i + 1;
            }
            assert(vc.values@.take(n as int) =~= vc.values@);
            push_str(s, "} })");
            assert(s@ =~= old(s)@ + clock_text(*c));
        },
    }
}

/// The steps of `s` that satisfy `f`, in order.
pub open spec fn steps_where(s: Seq<TraceStep>, f: spec_fn(TraceStep) -> bool) -> Seq<TraceStep>
    decreases s.len(),
{
    if s.len() == 0 {
        Seq::empty()
    } else {
        steps_where(s.drop_last(), f) + if f(s.last()) { seq![s.last()] } else { Seq::empty() }
    }
}

/// Some step has the action `t`.
pub open spec fn has_action(s: Seq<TraceStep>, t: Seq<char>) -> bool {
    exists|i: int| 0 <= i < s.len() && #[trigger] s[i].action@ == t
}

/// Some step has a variable named `t`.
pub open spec fn has_variable(s: Seq<TraceStep>, t: Seq<char>) -> bool {
    exists|i: int, j: int| 0 <= i < s.len() && 0 <= j < s[i].vars@.len() && #[trigger] s[i].vars@[j].0@ == t
}

/// A complete trace: its steps and optional metadata.
#[derive(Debug, Clone)]
pub struct TraceFile {
    /// The steps.
    pub steps: Vec<TraceStep>,
    /// Metadata about the trace.
    pub metadata: Option<TraceMetadata>,
}

impl TraceFile {
    /// An empty trace.
    pub fn new() -> (r: Self)
        ensures
            r.steps@.len() == 0,
            r.metadata is None,
    {
        TraceFile { steps: Vec::new(), metadata: None }
    }

    /// A trace of the given steps.
    pub fn from_steps(steps: Vec<TraceStep>) -> (r: Self)
        ensures
            r.steps == steps,
            r.metadata is None,
    {
        TraceFile { steps, metadata: None }
    }

    /// Sets the metadata.
    pub fn with_metadata(self, metadata: TraceMetadata) -> (r: Self)
        ensures
            r.steps == self.steps,
            r.metadata == Some(metadata),
    {
        TraceFile { metadata: Some(metadata), ..self }
    }

    /// Appends a step.
    pub fn push(&mut self, step: TraceStep)
        ensures
            final(self).steps@ == old(self).steps@.push(step),
            final(self).metadata == old(self).metadata,
    {
        self.steps.push(step);
    }

    /// Number of steps.
    pub fn len(&self) -> (r: usize)
        ensures
            r == self.steps@.len(),
    {
        self.steps.len()
    }

    /// No steps.
    pub fn is_empty(&self) -> (r: bool)
        ensures
            r == (self.steps@.len() == 0),
    {
        self.steps.len() == 0
    }

    /// Checks that the clocks go forward: each logical clock is greater
    /// than the previous step's, and no other clock happens before the
    /// previous step's. Reports the first step that does not go forward
    /// (see `ordering_message`).
    pub fn validate_clock_ordering(&self) -> (r: Result<(), TraceError>)
        requires
            forall|i: int| 0 <= i < self.steps@.len() ==> (#[trigger] self.steps@[i]).clock.wf(),
        ensures
            r is Ok <==> forall|i: int| 0 < i < self.steps@.len() ==>
                !goes_back(self.steps@[i - 1].clock, #[trigger] self.steps@[i].clock),
            r matches Err(e) ==> (e matches TraceError::ClockOrdering { step, message }
                && 0 < step < self.steps@.len()
                && goes_back(self.steps@[step - 1].clock, self.steps@[step as int].clock)
                && message@ == ordering_message(step as nat, self.steps@[step as int].clock, self.steps@[step - 1].clock)
                && forall|i: int| 0 < i < step ==> !goes_back(self.steps@[i - 1].clock, #[trigger] self.steps@[i].clock)),
    {
        let n = self.steps.len();
        let mut i: usize = 1;
        while i < n
            invariant
                n == self.steps@.len(),
                1 <= i,
                i <= n || n == 0,
                forall|t: int| 0 <= t < n ==> (#[trigger] self.steps@[t]).clock.wf(),
                forall|t: int| 0 < t < i && t < n ==> !goes_back(self.steps@[t - 1].clock, #[trigger] self.steps@[t].clock),
            decreases n - i,
        {
            let prev = &self.steps[i - 1];
            let curr = &self.steps[i];
            let before = curr.clock.happens_before(&prev.clock);
            let back = match (&prev.clock, &curr.clock) {
                (TraceClock::Logical(a), TraceClock::Logical(b)) => *b <= *a,
                _ => before,
            };
            if back {
                let mut msg = to_owned_string("Step ");
                push_decimal(&mut msg, i as u128);
                push_str(&mut msg, " has clock ");
                push_clock_text(&mut msg, &curr.clock);
                if before {
                    push_str(&mut msg, " which happens before step ");
                } else {
                    push_str(&mut msg, " which does not come after step ");
                }
                push_decimal(&mut msg, (i - 1) as u128);
                push_str(&mut msg, "'s clock ");
                push_clock_text(&mut msg, &prev.clock);
                assert(msg@ =~= ordering_message(i as nat, curr.clock, prev.clock));
                return Err(TraceError::ClockOrdering { step: i, message: msg });
            }
            i = i + 1;
        }
        Ok(())
    }

    /// The distinct action names, sorted.
    pub fn action_names(&self) -> (r: Vec<&str>)
        ensures
            sorted_texts(r@),
            forall|t: Seq<char>| #[trigger] lists_text(r@, t) <==> has_action(self.steps@, t),
    {
        let mut names: Vec<&str> = Vec::new();
        let n = self.steps.len();
        let mut i: usize = 0;
        while i < n
            invariant
                n == self.steps@.len(),
                i <= n,
                sorted_texts(names@),
                forall|t: Seq<char>| #[trigger] lists_text(names@, t) <==> has_action(self.steps@.take(i as int), t),
            decreases n - i,
        {
            insert_sorted_text(&mut names, self.steps[i].action.as_str());
            proof {
                assert forall|t: Seq<char>| #[trigger] lists_text(names@, t) <==> has_action(self.steps@.take(i as int + 1), t) by {
                    let s1 = self.steps@.take(i as int + 1);
                    let s0 = self.steps@.take(i as int);
                    if has_action(s1, t) {
                        let q = choose|q: int| 0 <= q < s1.len() && #[trigger] s1[q].action@ == t;
                        if q < i {
                            assert(s0[q].action@ == t);
                        }
                    }
                    if has_action(s0, t) {
                        let q = choose|q: int| 0 <= q < s0.len() && #[trigger] s0[q].action@ == t;
                        assert(s1[q].action@ == t);
                    }
                    if t == self.steps@[i as int].action@ {
                        assert(s1[i as int].action@ == t);
                    }
                }
            }
            i = i + 1;
        }
        assert(self.steps@.take(n as int) =~= self.steps@);
        names
    }

    /// The distinct variable names over all steps, sorted.
    pub fn variable_names(&self) -> (r: Vec<&str>)
        ensures
            sorted_texts(r@),
            forall|t: Seq<char>| #[trigger] lists_text(r@, t) <==> has_variable(self.steps@, t),
    {
        let mut names: Vec<&str> = Vec::new();
        let n = self.steps.len();
        let mut i: usize = 0;
        while i < n
            invariant
                n == self.steps@.len(),
                i <= n,
                sorted_texts(names@),
                forall|t: Seq<char>| #[trigger] lists_text(names@, t) <==> has_variable(self.steps@.take(i as int), t),
            decreases n - i,
        {
            let vars = &self.steps[i].vars;
            let m = vars.len();
            let mut j: usize = 0;
            while j < m
                invariant
                    n == self.steps@.len(),
                    i < n,
                    vars@ == self.steps@[i as int].vars@,
                    m == vars@.len(),
                    j <= m,
                    sorted_texts(names@),
                    forall|t: Seq<char>| #[trigger] lists_text(names@, t) <==>
                        (has_variable(self.steps@.take(i as int), t) || exists|q: int| 0 <= q < j && #[trigger] vars@[q].0@ == t),
                decreases m - j,
            {
                insert_sorted_text(&mut names, vars[j].0.as_str());
                proof {
                    assert forall|t: Seq<char>| #[trigger] lists_text(names@, t) <==>
                        (has_variable(self.steps@.take(i as int), t) || exists|q: int| 0 <= q < j + 1 && #[trigger] vars@[q].0@ == t) by {
                        if t == vars@[j as int].0@ {
                            assert(vars@[j as int].0@ == t);
                        }
                        if exists|q: int| 0 <= q < j + 1 && #[trigger] vars@[q].0@ == t {
                            let q = choose|q: int| 0 <= q < j + 1 && #[trigger] vars@[q].0@ == t;
                            if q < j {
                                assert(vars@[q].0@ == t);
                            }
                        }
                    }
                }
                j = j + 1;
            }
            proof {
                assert forall|t: Seq<char>| #[trigger] lists_text(names@, t) <==> has_variable(self.steps@.take(i as int + 1), t) by {
                    let s1 = self.steps@.take(i as int + 1);
                    let s0 = self.steps@.take(i as int);
                    if has_variable(s1, t) {
                        let (a, b) = choose|a: int, b: int| 0 <= a < s1.len() && 0 <= b < s1[a].vars@.len() && #[trigger] s1[a].vars@[b].0@ == t;
                        if a < i {
                            assert(s0[a].vars@[b].0@ == t);
                        } else {
                            assert(vars@[b].0@ == t);
                        }
                    }
                    if has_variable(s0, t) {
                        let (a, b) = choose|a: int, b: int| 0 <= a < s0.len() && 0 <= b < s0[a].vars@.len() && #[trigger] s0[a].vars@[b].0@ == t;
                        assert(s1[a].vars@[b].0@ == t);
                    }
                    if exists|q: int| 0 <= q < m && #[trigger] vars@[q].0@ == t {
                        let q = choose|q: int| 0 <= q < m && #[trigger] vars@[q].0@ == t;
                        assert(s1[i as int].vars@[q].0@ == t);
                    }
                }
            }
            i = i + 1;
        }
        assert(self.steps@.take(n as int) =~= self.steps@);
        names
    }

    /// The steps with the given action, in order.
    pub fn filter_by_action(&self, action: &str) -> (r: Vec<&TraceStep>)
        ensures
            r@.len() == steps_where(self.steps@, |s: TraceStep| s.action@ == action@).len(),
            forall|i: int| 0 <= i < r@.len() ==> *(#[trigger] r@[i]) == steps_where(self.steps@, |s: TraceStep| s.action@ == action@)[i],
    {
        let ghost f = |s: TraceStep| s.action@ == action@;
        let key = to_owned_string(action);
        let mut out: Vec<&TraceStep> = Vec::new();
        let n = self.steps.len();
        let mut i: usize = 0;
        while i < n
            invariant
                n == self.steps@.len(),
                i <= n,
                key@ == action@,
                f == (|s: TraceStep| s.action@ == action@),
                out@.len() == steps_where(self.steps@.take(i as int), f).len(),
                forall|t: int| 0 <= t < out@.len() ==> *(#[trigger] out@[t]) == steps_where(self.steps@.take(i as int), f)[t],
            decreases n - i,
        {
            proof {
                assert(self.steps@.take(i as int + 1).drop_last() =~= self.steps@.take(i as int));
            }
            if self.steps[i].action == key {
                out.push(&self.steps[i]);
            }
            i = i + 1;
        }
        assert(self.steps@.take(n as int) =~= self.steps@);
        out
    }

    /// The steps of the given process, in order.
    pub fn filter_by_process(&self, process: &str) -> (r: Vec<&TraceStep>)
        ensures
            r@.len() == steps_where(self.steps@, |s: TraceStep| s.process matches Some(p) && p@ == process@).len(),
            forall|i: int| 0 <= i < r@.len() ==> *(#[trigger] r@[i])
                == steps_where(self.steps@, |s: TraceStep| s.process matches Some(p) && p@ == process@)[i],
    {
        let ghost f = |s: TraceStep| s.process matches Some(p) && p@ == process@;
        let key = to_owned_string(process);
        let mut out: Vec<&TraceStep> = Vec::new();
        let n = self.steps.len();
        let mut i: usize = 0;
        while i < n
            invariant
                n == self.steps@.len(),
                i <= n,
                key@ == process@,
                f == (|s: TraceStep| s.process matches Some(p) && p@ == process@),
                out@.len() == steps_where(self.steps@.take(i as int), f).len(),
                forall|t: int| 0 <= t < out@.len() ==> *(#[trigger] out@[t]) == steps_where(self.steps@.take(i as int), f)[t],
            decreases n - i,
        {
            proof {
                assert(self.steps@.take(i as int + 1).drop_last() =~= self.steps@.take(i as int));
            }
            match &self.steps[i].process {
                Some(p) => {
                    if *p == key {
                        out.push(&self.steps[i]);
                    }
                },
                None => {},
            }
            i = i + 1;
        }
        assert(self.steps@.take(n as int) =~= self.steps@);
        out
    }
}

impl Default for TraceFile {
    fn default() -> (r: Self)
        ensures
            r.steps@.len() == 0,
            r.metadata is None,
    {
        TraceFile::new()
    }
}

/// Hybrid clocks are totally ordered, lexicographically by physical time
/// and then by the logical counter: of two different hybrid clocks exactly
/// one happens before the other, and at equal physical times the smaller
/// logical counter comes first.
pub proof fn law_hybrid_order_total(p1: u64, l1: u32, p2: u64, l2: u32)
    ensures
        ({
            let a = TraceClock::Hybrid { physical: p1, logical: l1 };
            let b = TraceClock::Hybrid { physical: p2, logical: l2 };
            &&& !(trace_clock_before(a, b) && trace_clock_before(b, a))
            &&& (a != b ==> trace_clock_before(a, b) || trace_clock_before(b, a))
            &&& !trace_clock_before(a, a)
            &&& (p1 < p2 ==> trace_clock_before(a, b))
            &&& (p1 == p2 ==> (trace_clock_before(a, b) <==> l1 < l2))
        }),
{
}

/// Happens-before agrees with the partial order: a clock happens before
/// another exactly when comparing them gives `Less`.
pub proof fn law_before_is_less(a: TraceClock, b: TraceClock)
    ensures
        trace_clock_before(a, b) <==> a.order_with(b) == Some(Ordering::Less),
{
    match (a, b) {
        (TraceClock::Vector(x), TraceClock::Vector(y)) => {
            if trace_before(x.values@, y.values@) {
                let k = choose|k: Seq<char>| #[trigger] clock_get(x.values@, k) < clock_get(y.values@, k);
                assert(named_value(x.values@, k) != named_value(y.values@, k));
                assert(!same_entries(x.values@, y.values@));
            }
        },
        _ => {},
    }
}

/// A trace whose hybrid clock keeps its physical time but lowers its
/// logical counter goes back, and clock validation rejects it.
pub proof fn law_hybrid_step_back(p: u64, lo: u32, hi: u32)
    requires
        lo < hi,
    ensures
        goes_back(TraceClock::Hybrid { physical: p, logical: hi }, TraceClock::Hybrid { physical: p, logical: lo }),
        !goes_back(TraceClock::Hybrid { physical: p, logical: lo }, TraceClock::Hybrid { physical: p, logical: hi }),
{
}

} // verus!
