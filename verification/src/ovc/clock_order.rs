//! Partial order and text form of vector clocks.
use vstd::prelude::*;
use std::cmp::Ordering;
use crate::text::{decimal, push_decimal, push_str, empty_string};
use super::vector_clock::{VectorClock, clock_before, same_counters, sorted_entries, entries_map};

verus! {

/// The causal relationship of two clock maps: equal (the same counter on
/// every node), before, after, or concurrent (None).
pub open spec fn clock_relation(a: Map<u64, u64>, b: Map<u64, u64>) -> Option<Ordering> {
    if same_counters(a, b) {
        Some(Ordering::Equal)
    } else if clock_before(a, b) {
        Some(Ordering::Less)
    } else if clock_before(b, a) {
        Some(Ordering::Greater)
    } else {
        None
    }
}

/// Text of the entries `n:v` joined by ", ".
pub open spec fn entries_text(s: Seq<(u64, u64)>) -> Seq<char>
    decreases s.len(),
{
    if s.len() == 0 {
        Seq::empty()
    } else if s.len() == 1 {
        decimal(s[0].0 as nat) + ":"@ + decimal(s[0].1 as nat)
    } else {
        entries_text(s.drop_last()) + ", "@ + decimal(s.last().0 as nat) + ":"@ + decimal(s.last().1 as nat)
    }
}

impl VectorClock {
    /// Equal, happens-before (Less), happens-after (Greater), or concurrent (None).
    pub fn compare(&self, other: &VectorClock) -> (r: Option<Ordering>)
        ensures
            r == clock_relation(self@, other@),
    {
        let le = self.dominated_by(other);
        let ge = other.dominated_by(self);
        if le && ge {
            Some(Ordering::Equal)
        } else if self.happens_before(other) {
            Some(Ordering::Less)
        } else if other.happens_before(self) {
            Some(Ordering::Greater)
        } else {
            None
        }
    }

    /// Display form `VC{n:v, ...}` with entries in increasing node order.
    pub fn to_string(&self) -> (s: String)
        ensures
            s@ == "VC{"@ + entries_text(self.ordered_entries()) + "}"@,
    {
        let entries = self.iter();
        let n = entries.len();
        let mut s = empty_string();
        push_str(&mut s, "VC{");
        let ghost e = self.ordered_entries();
        let mut i: usize = 0;
        while i < n
            invariant
                n == entries@.len(),
                n == e.len(),
                forall|q: int| 0 <= q < n ==> #[trigger] entries@[q] == (super::observed_time::NodeId(e[q].0), e[q].1),
                i <= n,
                s@ == "VC{"@ + entries_text(e.take(i as int)),
            decreases n - i,
        {
            let (node, value) = entries[i];
            let ghost before = s@;
            if i > 0 {
                push_str(&mut s, ", ");
            }
            push_decimal(&mut s, node.0 as u128);
            push_str(&mut s, ":");
            push_decimal(&mut s, value as u128);
            proof {
                assert(e.take(i as int + 1).drop_last() =~= e.take(i as int));
                if i == 0 {
                    assert(e.take(0) =~= Seq::<(u64, u64)>::empty());
                    assert(s@ =~= "VC{"@ + entries_text(e.take(1)));
                } else {
                    assert(s@ =~= "VC{"@ + entries_text(e.take(i as int + 1)));
                }
            }
            i = i + 1;
        }
        assert(e.take(n as int) =~= e);
        push_str(&mut s, "}");
        s
    }
}

impl PartialOrd for VectorClock {
    fn partial_cmp(&self, other: &VectorClock) -> (r: Option<Ordering>) {
        self.compare(other)
    }
}

impl vstd::std_specs::cmp::PartialOrdSpecImpl for VectorClock {
    open spec fn obeys_partial_cmp_spec() -> bool {
        true
    }

    open spec fn partial_cmp_spec(&self, other: &VectorClock) -> Option<Ordering> {
        clock_relation(self@, other@)
    }
}

} // verus!
