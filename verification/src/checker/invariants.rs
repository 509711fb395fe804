//! Custom invariants over operation histories and the checker that runs
//! them.
use vstd::prelude::*;
use core::time::Duration;
use core::marker::PhantomData;
use std::time::Instant;
use crate::history::History;
use crate::operation::{Operation, OperationId, operation_id_text};
use crate::node::ProcessId;
use crate::named::{named_value, distinct_names, named_updated, set_named, get_named};
use crate::text::{decimal, push_decimal, push_str, empty_string, to_owned_string};
use crate::clock::{now, elapsed, deadline_after, deadline_passed, duration_from_secs, duration_of};
use super::precedence::po_less;
use super::result::{CheckResult, CheckStats, CheckStatus, Counterexample, CounterexampleOp, ViolationType};

verus! {

/// `s` lists the positions of process `pid`'s operations, each once, in
/// program order: by timestamp, ties in history order.
pub open spec fn process_order<V>(ops: Seq<Operation<V>>, pid: ProcessId, s: Seq<usize>) -> bool {
    &&& forall|i: int| 0 <= i < s.len() ==> (#[trigger] s[i]) < ops.len() && ops[s[i] as int].process == pid
    &&& forall|i: int, j: int| 0 <= i < j < s.len() ==> po_less(ops, #[trigger] s[i] as int, #[trigger] s[j] as int)
    &&& forall|p: int| 0 <= p < ops.len() && (#[trigger] ops[p]).process == pid ==> s.contains(p as usize)
}

/// `s` lists the positions of process `pid`'s operations among the first
/// `k`, in program order.
pub open spec fn process_order_upto<V>(ops: Seq<Operation<V>>, pid: ProcessId, s: Seq<usize>, k: int) -> bool {
    &&& forall|i: int| 0 <= i < s.len() ==> (#[trigger] s[i]) < k && ops[s[i] as int].process == pid
    &&& forall|i: int, j: int| 0 <= i < j < s.len() ==> po_less(ops, #[trigger] s[i] as int, #[trigger] s[j] as int)
    &&& forall|p: int| 0 <= p < k && (#[trigger] ops[p]).process == pid ==> s.contains(p as usize)
}

/// Inserts the new position `p` into a program-ordered list of earlier
/// positions of its process.
fn insert_in_program_order<V>(ops: &Vec<Operation<V>>, s: &mut Vec<usize>, p: usize)
    requires
        p < ops@.len(),
        process_order_upto(ops@, ops@[p as int].process, old(s)@, p as int),
    ensures
        process_order_upto(ops@, ops@[p as int].process, final(s)@, p + 1),
{
    let ghost s0 = s@;
    let ghost pid = ops@[p as int].process;
    let t = ops[p].ovc.timestamp();
    let n = s.len();
    let mut q: usize = 0;
    while q < n && ops[s[q]].ovc.timestamp() <= t
        invariant
            n == s@.len(),
            s@ == s0,
            p < ops@.len(),
            process_order_upto(ops@, pid, s0, p as int),
            t == ops@[p as int].ovc.ts(),
            q <= n,
            forall|i: int| 0 <= i < q ==> po_less(ops@, #[trigger] s0[i] as int, p as int),
        decreases n - q,
    {
        proof {
            assert(s0[q as int] < p);
            assert(ops@[s0[q as int] as int].ovc.ts() <= ops@[p as int].ovc.ts());
            assert(po_less(ops@, s0[q as int] as int, p as int));
        }
        q = q + 1;
    }
    s.insert(q, p);
    proof {
        assert forall|i: int, j: int| 0 <= i < j < s@.len() implies po_less(ops@, #[trigger] s@[i] as int, #[trigger] s@[j] as int) by {
            if j < q {
                assert(s@[i] == s0[i] && s@[j] == s0[j]);
            } else if j == q {
                assert(s@[i] == s0[i]);
            } else if i == q {
                assert(s@[j] == s0[j - 1]);
                assert(!(ops@[s0[q as int] as int].ovc.ts() <= ops@[p as int].ovc.ts()));
                if j - 1 > q {
                    assert(po_less(ops@, s0[q as int] as int, s0[j - 1] as int));
                }
            } else if i < q {
                assert(s@[i] == s0[i] && s@[j] == s0[j - 1]);
            } else {
                assert(s@[i] == s0[i - 1] && s@[j] == s0[j - 1]);
            }
        }
        assert forall|r: int| 0 <= r < p + 1 && (#[trigger] ops@[r]).process == pid implies s@.contains(r as usize) by {
            if r == p {
                assert(s@[q as int] == p);
            } else {
                assert(s0.contains(r as usize));
                let i = choose|i: int| 0 <= i < s0.len() && s0[i] == r as usize;
                if i < q {
                    assert(s@[i] == r as usize);
                } else {
                    assert(s@[i + 1] == r as usize);
                }
            }
        }
        assert forall|i: int| 0 <= i < s@.len() implies (#[trigger] s@[i]) < p + 1 && ops@[s@[i] as int].process == pid by {
            if i < q {
                assert(s@[i] == s0[i]);
            } else if i > q {
                assert(s@[i] == s0[i - 1]);
            }
        }
    }
}

/// Some group belongs to process `pid`.
pub open spec fn has_group(groups: Seq<(ProcessId, Vec<usize>)>, pid: ProcessId) -> bool {
    exists|i: int| 0 <= i < groups.len() && (#[trigger] groups[i]).0 == pid
}

/// Process `a` appears in the history before process `b` first does.
pub open spec fn appears_before<V>(ops: Seq<Operation<V>>, a: ProcessId, b: ProcessId) -> bool {
    exists|x: int| #![trigger ops[x]] 0 <= x < ops.len() && ops[x].process == a
        && forall|y: int| 0 <= y <= x ==> (#[trigger] ops[y]).process != b
}

/// Context given to invariants: the history with its operations grouped
/// by process in program order.
pub struct InvariantContext<'a, V> {
    /// The history being checked.
    pub history: &'a History<V>,
    /// Each process with the positions of its operations in program order,
    /// processes in order of first appearance.
    pub by_process: Vec<(ProcessId, Vec<usize>)>,
    /// Custom metadata, by key.
    pub metadata: Vec<(String, String)>,
}

impl<'a, V> InvariantContext<'a, V> {
    /// Well formed: every process occurs once with its operations in
    /// program order, and metadata keys are distinct.
    pub open spec fn wf(self) -> bool {
        let ops = self.history.operations@;
        &&& forall|i: int| 0 <= i < self.by_process@.len() ==>
                process_order(ops, (#[trigger] self.by_process@[i]).0, self.by_process@[i].1@)
                && self.by_process@[i].1@.len() > 0
        &&& forall|i: int, j: int| 0 <= i < j < self.by_process@.len() ==>
                (#[trigger] self.by_process@[i]).0 != (#[trigger] self.by_process@[j]).0
        &&& forall|p: int| 0 <= p < ops.len() ==> has_group(self.by_process@, (#[trigger] ops[p]).process)
        &&& distinct_names(self.metadata@)
    }

    /// The context of `history` as `new` builds it: well formed, no
    /// metadata, the processes in order of first appearance.
    pub open spec fn built_from(self, history: &History<V>) -> bool {
        &&& self.history == history
        &&& self.wf()
        &&& self.metadata@.len() == 0
        &&& forall|i: int, j: int| 0 <= i < j < self.by_process@.len() ==>
                appears_before(history.operations@, (#[trigger] self.by_process@[i]).0, (#[trigger] self.by_process@[j]).0)
    }

    /// The context of a history.
    pub fn new(history: &'a History<V>) -> (r: Self)
        ensures
            r.wf(),
            r.history == history,
            r.metadata@.len() == 0,
            r.built_from(history),
    {
        let ops = &history.operations;
        let n = ops.len();
        let mut groups: Vec<(ProcessId, Vec<usize>)> = Vec::new();
        let mut p: usize = 0;
        while p < n
            invariant
                n == ops@.len(),
                ops@ == history.operations@,
                p <= n,
                forall|i: int| 0 <= i < groups@.len() ==>
                    process_order_upto(ops@, (#[trigger] groups@[i]).0, groups@[i].1@, p as int)
                    && groups@[i].1@.len() > 0,
                forall|i: int, j: int| 0 <= i < j < groups@.len() ==> (#[trigger] groups@[i]).0 != (#[trigger] groups@[j]).0,
                forall|q: int| 0 <= q < p ==> has_group(groups@, (#[trigger] ops@[q]).process),
                forall|i: int, j: int| 0 <= i < j < groups@.len() ==>
                    appears_before(ops@, (#[trigger] groups@[i]).0, (#[trigger] groups@[j]).0),
            decreases n - p,
        {
            let pid = ops[p].process;
            let mut g: usize = 0;
            while g < groups.len() && groups[g].0 != pid
                invariant
                    g <= groups@.len(),
                    forall|i: int| 0 <= i < g ==> (#[trigger] groups@[i]).0 != pid,
                decreases groups@.len() - g,
            {
                g = g + 1;
            }
            let ghost gs0 = groups@;
            if g < groups.len() {
                let mut pair = groups.remove(g);
                insert_in_program_order(ops, &mut pair.1, p);
                groups.insert(g, pair);
                proof {
                    assert forall|i: int| 0 <= i < groups@.len() implies
                        process_order_upto(ops@, (#[trigger] groups@[i]).0, groups@[i].1@, p + 1)
                        && groups@[i].1@.len() > 0 by {
                        if i != g {
                            assert(groups@[i] == gs0[i]);
                            let s = gs0[i].1@;
                            assert forall|r: int| 0 <= r < p + 1 && (#[trigger] ops@[r]).process == gs0[i].0 implies s.contains(r as usize) by {
                                if r == p {
                                    assert(gs0[g as int].0 == pid);
                                }
                            }
                        }
                    }
                    assert forall|a: int, b: int| 0 <= a < b < groups@.len() implies (#[trigger] groups@[a]).0 != (#[trigger] groups@[b]).0 by {
                        assert(groups@[a].0 == gs0[a].0 && groups@[b].0 == gs0[b].0);
                    }
                    assert forall|a: int, b: int| 0 <= a < b < groups@.len() implies
                        appears_before(ops@, (#[trigger] groups@[a]).0, (#[trigger] groups@[b]).0) by {
                        assert(groups@[a].0 == gs0[a].0 && groups@[b].0 == gs0[b].0);
                    }
                    assert forall|q: int| 0 <= q < p + 1 implies has_group(groups@, (#[trigger] ops@[q]).process) by {
                        if q == p {
                            assert(groups@[g as int].0 == pid);
                        } else {
                            let i = choose|i: int| 0 <= i < gs0.len() && (#[trigger] gs0[i]).0 == ops@[q].process;
                            assert(groups@[i].0 == gs0[i].0);
                        }
                    }
                }
            } else {
                let mut s: Vec<usize> = Vec::new();
                s.push(p);
                groups.push((pid, s));
                proof {
                    assert forall|i: int| 0 <= i < groups@.len() implies
                        process_order_upto(ops@, (#[trigger] groups@[i]).0, groups@[i].1@, p + 1)
                        && groups@[i].1@.len() > 0 by {
                        if i < gs0.len() {
                            assert(groups@[i] == gs0[i]);
                            let s0 = gs0[i].1@;
                            assert forall|r: int| 0 <= r < p + 1 && (#[trigger] ops@[r]).process == gs0[i].0 implies s0.contains(r as usize) by {
                                if r == p {
                                    assert(gs0[i].0 != pid);
                                }
                            }
                        } else {
                            let s1 = groups@[i].1@;
                            assert(s1[0] == p);
                            assert forall|r: int| 0 <= r < p + 1 && (#[trigger] ops@[r]).process == pid implies s1.contains(r as usize) by {
                                if r < p {
                                    let j = choose|j: int| 0 <= j < gs0.len() && (#[trigger] gs0[j]).0 == ops@[r].process;
                                    assert(gs0[j].0 != pid);
                                } else {
                                    assert(s1[0] == r as usize);
                                }
                            }
                        }
                    }
                    assert forall|a: int, b: int| 0 <= a < b < groups@.len() implies
                        appears_before(ops@, (#[trigger] groups@[a]).0, (#[trigger] groups@[b]).0) by {
                        if b < gs0.len() {
                            assert(groups@[a] == gs0[a] && groups@[b] == gs0[b]);
                        } else {
                            assert(groups@[a] == gs0[a]);
                            assert(groups@[b].0 == pid);
                            let x = gs0[a].1@[0] as int;
                            assert(ops@[x].process == gs0[a].0);
                            assert forall|y: int| 0 <= y <= x implies (#[trigger] ops@[y]).process != pid by {
                                let k = choose|k: int| 0 <= k < gs0.len() && (#[trigger] gs0[k]).0 == ops@[y].process;
                                assert(gs0[k].0 != pid);
                            }
                        }
                    }
                    assert forall|q: int| 0 <= q < p + 1 implies has_group(groups@, (#[trigger] ops@[q]).process) by {
                        if q == p {
                            assert(groups@[gs0.len() as int].0 == pid);
                        } else {
                            let i = choose|i: int| 0 <= i < gs0.len() && (#[trigger] gs0[i]).0 == ops@[q].process;
                            assert(groups@[i].0 == gs0[i].0);
                        }
                    }
                }
            }
            p = p + 1;
        }
        let r = InvariantContext { history, by_process: groups, metadata: Vec::new() };
        proof {
            assert forall|i: int| 0 <= i < r.by_process@.len() implies
                process_order(ops@, (#[trigger] r.by_process@[i]).0, r.by_process@[i].1@)
                && r.by_process@[i].1@.len() > 0 by {
                assert(process_order_upto(ops@, groups@[i].0, groups@[i].1@, n as int));
            }

        }
        r
    }
}

impl<'a, V> InvariantContext<'a, V> {
    /// The history.
    pub fn history(&self) -> (r: &'a History<V>)
        ensures
            r == self.history,
    {
        self.history
    }

    /// All operations, in history order.
    pub fn operations(&self) -> (r: Vec<&'a Operation<V>>)
        ensures
            r@.len() == self.history.operations@.len(),
            forall|i: int| 0 <= i < r@.len() ==> *(#[trigger] r@[i]) == self.history.operations@[i],
    {
        let ops = &self.history.operations;
        let mut out: Vec<&'a Operation<V>> = Vec::new();
        let n = ops.len();
        let mut i: usize = 0;
        while i < n
            invariant
                n == ops@.len(),
                ops@ == self.history.operations@,
                i <= n,
                out@.len() == i,
                forall|t: int| 0 <= t < i ==> *(#[trigger] out@[t]) == ops@[t],
            decreases n - i,
        {
            out.push(&ops[i]);
            i = i + 1;
        }
        out
    }

    /// The operation with the given id; the last one when several share
    /// it.
    pub fn get_operation(&self, id: OperationId) -> (r: Option<&'a Operation<V>>)
        ensures
            match r {
                Some(op) => exists|p: int| 0 <= p < self.history.operations@.len()
                    && *op == #[trigger] self.history.operations@[p]
                    && op.id == id
                    && forall|q: int| p < q < self.history.operations@.len() ==> (#[trigger] self.history.operations@[q]).id != id,
                None => forall|q: int| 0 <= q < self.history.operations@.len() ==> (#[trigger] self.history.operations@[q]).id != id,
            },
    {
        let ops = &self.history.operations;
        let n = ops.len();
        let mut i: usize = n;
        while i > 0
            invariant
                i <= n,
                n == ops@.len(),
                ops@ == self.history.operations@,
                forall|q: int| i <= q < n ==> (#[trigger] ops@[q]).id != id,
            decreases i,
        {
            if ops[i - 1].id == id {
                return Some(&ops[i - 1]);
            }
            i = i - 1;
        }
        None
    }

    /// The operations of a process in program order (by timestamp, ties
    /// in history order); empty for a process with no operations.
    pub fn operations_for_process(&self, process_id: ProcessId) -> (r: Vec<&'a Operation<V>>)
        requires
            self.wf(),
        ensures
            exists|s: Seq<usize>| #[trigger] process_order(self.history.operations@, process_id, s) && s.len() == r@.len()
                && forall|i: int| 0 <= i < s.len() ==> *(#[trigger] r@[i]) == self.history.operations@[s[i] as int],
    {
        let ops = &self.history.operations;
        let mut g: usize = 0;
        while g < self.by_process.len() && self.by_process[g].0 != process_id
            invariant
                g <= self.by_process@.len(),
                forall|i: int| 0 <= i < g ==> (#[trigger] self.by_process@[i]).0 != process_id,
            decreases self.by_process@.len() - g,
        {
            g = g + 1;
        }
        let mut out: Vec<&'a Operation<V>> = Vec::new();
        if g == self.by_process.len() {
            proof {
                let s = Seq::<usize>::empty();
                assert forall|p: int| 0 <= p < ops@.len() && (#[trigger] ops@[p]).process == process_id implies s.contains(p as usize) by {
                    assert(has_group(self.by_process@, ops@[p].process));
                }
                assert(process_order(ops@, process_id, s));
            }
            return out;
        }
        let positions = &self.by_process[g].1;
        let n = positions.len();
        let mut i: usize = 0;
        while i < n
            invariant
                n == positions@.len(),
                positions@ == self.by_process@[g as int].1@,
                process_order(ops@, process_id, positions@),
                ops@ == self.history.operations@,
                i <= n,
                out@.len() == i,
                forall|t: int| 0 <= t < i ==> *(#[trigger] out@[t]) == ops@[positions@[t] as int],
            decreases n - i,
        {
            out.push(&ops[positions[i]]);
            i = i + 1;
        }
        out
    }

    /// The processes with operations, in order of first appearance.
    pub fn processes(&self) -> (r: Vec<ProcessId>)
        requires
            self.wf(),
        ensures
            forall|i: int, j: int| 0 <= i < j < r@.len() ==> r@[i] != r@[j],
            forall|p: ProcessId| r@.contains(p) <==> exists|k: int| 0 <= k < self.history.operations@.len()
                && (#[trigger] self.history.operations@[k]).process == p,
    {
        let mut out: Vec<ProcessId> = Vec::new();
        let n = self.by_process.len();
        let mut i: usize = 0;
        while i < n
            invariant
                n == self.by_process@.len(),
                self.wf(),
                i <= n,
                out@.len() == i,
                forall|t: int| 0 <= t < i ==> out@[t] == (#[trigger] self.by_process@[t]).0,
            decreases n - i,
        {
            out.push(self.by_process[i].0);
            i = i + 1;
        }
        proof {
            let ops = self.history.operations@;
            assert forall|i: int, j: int| 0 <= i < j < out@.len() implies out@[i] != out@[j] by {
                assert(self.by_process@[i].0 != self.by_process@[j].0);
            }
            assert forall|p: ProcessId| out@.contains(p) <==> exists|k: int| 0 <= k < ops.len()
                && (#[trigger] ops[k]).process == p by {
                if out@.contains(p) {
                    let t = choose|t: int| 0 <= t < out@.len() && out@[t] == p;
                    let s = self.by_process@[t].1@;
                    assert(process_order(ops, p, s));
                    assert(s.len() > 0);
                    assert(ops[s[0] as int].process == p);
                }
                if exists|k: int| 0 <= k < ops.len() && (#[trigger] ops[k]).process == p {
                    let k = choose|k: int| 0 <= k < ops.len() && (#[trigger] ops[k]).process == p;
                    assert(has_group(self.by_process@, ops[k].process));
                    let t = choose|t: int| 0 <= t < self.by_process@.len() && (#[trigger] self.by_process@[t]).0 == p;
                    assert(out@[t] == p);
                }
            }
        }
        out
    }

    /// Number of operations.
    pub fn len(&self) -> (r: usize)
        ensures
            r == self.history.operations@.len(),
    {
        self.history.len()
    }

    /// No operations.
    pub fn is_empty(&self) -> (r: bool)
        ensures
            r == (self.history.operations@.len() == 0),
    {
        self.history.is_empty()
    }

    /// A metadata value.
    pub fn get_metadata(&self, key: &str) -> (r: Option<&str>)
        requires
            self.wf(),
        ensures
            match named_value(self.metadata@, key@) {
                Some(v) => r matches Some(t) && t@ == v@,
                None => r is None,
            },
    {
        match get_named(&self.metadata, key) {
            Some(v) => Some(v.as_str()),
            None => None,
        }
    }

    /// Sets a metadata value.
    pub fn set_metadata(&mut self, key: String, value: String)
        requires
            old(self).wf(),
        ensures
            final(self).wf(),
            final(self).history == old(self).history,
            final(self).by_process == old(self).by_process,
            named_updated(old(self).metadata@, final(self).metadata@, key@, value),
    {
        set_named(&mut self.metadata, key, value);
    }

    /// The operations whose timestamp lies in `[start, end]`, in history
    /// order.
    pub fn operations_in_range(&self, start: u64, end: u64) -> (r: Vec<&'a Operation<V>>)
        ensures
            exists|s: Seq<usize>| #[trigger] in_range_positions(self.history.operations@, start, end, s)
                && s.len() == r@.len()
                && forall|i: int| 0 <= i < s.len() ==> *(#[trigger] r@[i]) == self.history.operations@[s[i] as int],
    {
        let ops = &self.history.operations;
        let n = ops.len();
        let mut out: Vec<&'a Operation<V>> = Vec::new();
        let ghost mut s: Seq<usize> = Seq::empty();
        let mut i: usize = 0;
        while i < n
            invariant
                n == ops@.len(),
                ops@ == self.history.operations@,
                i <= n,
                s.len() == out@.len(),
                forall|t: int| 0 <= t < s.len() ==> *(#[trigger] out@[t]) == ops@[s[t] as int],
                forall|t: int| 0 <= t < s.len() ==> (#[trigger] s[t]) < i,
                forall|a: int, b: int| 0 <= a < b < s.len() ==> #[trigger] s[a] < #[trigger] s[b],
                forall|t: int| 0 <= t < s.len() ==> start <= (#[trigger] ops@[s[t] as int]).ovc.ts() <= end,
                forall|p: int| 0 <= p < i && start <= (#[trigger] ops@[p]).ovc.ts() <= end ==> s.contains(p as usize),
            decreases n - i,
        {
            let t = ops[i].ovc.timestamp();
            let ghost s0 = s;
            if t >= start && t <= end {
                out.push(&ops[i]);
                proof {
                    s = s.push(i);
                    assert(s[s.len() - 1] == i);
                }
            }
            proof {
                assert forall|p: int| 0 <= p < i + 1 && start <= (#[trigger] ops@[p]).ovc.ts() <= end implies s.contains(p as usize) by {
                    if p < i {
                        let k = choose|k: int| 0 <= k < s0.len() && s0[k] == p as usize;
                        assert(s[k] == p as usize);
                    } else {
                        assert(s[s.len() - 1] == p as usize);
                    }
                }
            }
            i = i + 1;
        }
        proof {
            assert(in_range_positions(ops@, start, end, s));
        }
        out
    }
}

/// `s` lists, in increasing order, the positions of the operations whose
/// timestamp lies in `[start, end]`.
pub open spec fn in_range_positions<V>(ops: Seq<Operation<V>>, start: u64, end: u64, s: Seq<usize>) -> bool {
    &&& forall|t: int| 0 <= t < s.len() ==> (#[trigger] s[t]) < ops.len() && start <= ops[s[t] as int].ovc.ts() <= end
    &&& forall|a: int, b: int| 0 <= a < b < s.len() ==> #[trigger] s[a] < #[trigger] s[b]
    &&& forall|p: int| 0 <= p < ops.len() && start <= (#[trigger] ops[p]).ovc.ts() <= end ==> s.contains(p as usize)
}

/// A custom invariant checked against a history.
pub trait Invariant<V> {
    /// The invariant's name.
    fn name(&self) -> &str;

    /// What the invariant checks.
    fn description(&self) -> &str {
        "No description"
    }

    /// Whether the invariant holds in the context: what `check` decides.
    spec fn holds(&self, ctx: InvariantContext<'_, V>) -> bool;

    /// Checks the invariant: `Ok` when it holds, else a message.
    fn check(&self, ctx: &InvariantContext<'_, V>) -> (r: Result<(), String>)
        requires
            ctx.wf(),
        ensures
            (r is Ok) == self.holds(*ctx),
    ;

    /// Checking priority; lower values are checked first.
    fn priority(&self) -> u32 {
        100
    }

    /// Whether the invariant can be checked one operation at a time.
    fn supports_incremental(&self) -> bool {
        false
    }

    /// Checks one new operation.
    fn check_incremental(&self, op: &Operation<V>, ctx: &InvariantContext<'_, V>) -> Result<(), String>
        requires
            ctx.wf(),
    {
        Ok(())
    }
}

/// Each process's operations appear in the history in timestamp order.
pub open spec fn history_in_program_order<V>(ops: Seq<Operation<V>>) -> bool {
    forall|a: int, b: int| 0 <= a < b < ops.len() && (#[trigger] ops[a]).process == (#[trigger] ops[b]).process
        ==> ops[a].ovc.ts() <= ops[b].ovc.ts()
}

/// Operations of each process come in program order: the built-in
/// invariant that the history lists each process's operations with
/// nondecreasing timestamps.
pub struct ProgramOrderRespected;

/// The message of a program-order violation.
pub open spec fn program_order_text<V>(pid: ProcessId, op1: Operation<V>, op2: Operation<V>) -> Seq<char> {
    "Process ProcessId("@ + decimal(pid.0 as nat) + "): operation "@ + operation_id_text(op1.id)
        + " (OVC "@ + decimal(op1.ovc.ts() as nat) + ") should come before "@ + operation_id_text(op2.id)
        + " (OVC "@ + decimal(op2.ovc.ts() as nat) + ")"@
}

/// `"Process ProcessId(p): operation OperationId(a) (OVC s) should come before OperationId(b) (OVC t)"`.
fn program_order_message<V>(pid: ProcessId, op1: &Operation<V>, op2: &Operation<V>) -> (s: String)
    ensures
        s@ == program_order_text(pid, *op1, *op2),
{
    let mut s = to_owned_string("Process ProcessId(");
    push_decimal(&mut s, pid.0 as u128);
    push_str(&mut s, "): operation ");
    op1.id.push_text(&mut s);
    push_str(&mut s, " (OVC ");
    push_decimal(&mut s, op1.ovc.timestamp() as u128);
    push_str(&mut s, ") should come before ");
    op2.id.push_text(&mut s);
    push_str(&mut s, " (OVC ");
    push_decimal(&mut s, op2.ovc.timestamp() as u128);
    push_str(&mut s, ")");
    s
}

impl<V> Invariant<V> for ProgramOrderRespected {
    fn name(&self) -> &str
    {
        "program-order"
    }

    fn description(&self) -> &str
    {
        "Operations from the same process should appear in program order"
    }

    open spec fn holds(&self, ctx: InvariantContext<'_, V>) -> bool {
        history_in_program_order(ctx.history.operations@)
    }

    /// Holds when each process's operations appear in the history in
    /// timestamp order; otherwise names a process's operation that comes
    /// later in the history than one of its operations with a larger
    /// timestamp (the nearest such earlier operation).
    fn check(&self, ctx: &InvariantContext<'_, V>) -> (r: Result<(), String>)
        ensures
            r is Ok <==> history_in_program_order(ctx.history.operations@),
            r matches Err(m) ==> exists|a: int, b: int| 0 <= a < b < ctx.history.operations@.len()
                && ctx.history.operations@[a].process == ctx.history.operations@[b].process
                && ctx.history.operations@[a].ovc.ts() > ctx.history.operations@[b].ovc.ts()
                && m@ == #[trigger] program_order_text(ctx.history.operations@[a].process,
                    ctx.history.operations@[a], ctx.history.operations@[b]),
    {
        let ops = &ctx.history.operations;
        let n = ops.len();
        let mut j: usize = 0;
        while j < n
            invariant
                n == ops@.len(),
                ops@ == ctx.history.operations@,
                j <= n,
                forall|a: int, b: int| 0 <= a < b < j && (#[trigger] ops@[a]).process == (#[trigger] ops@[b]).process
                    ==> ops@[a].ovc.ts() <= ops@[b].ovc.ts(),
            decreases n - j,
        {
            let pj = ops[j].process;
            let mut i: usize = j;
            let mut found = false;
            while i > 0 && !found
                invariant
                    n == ops@.len(),
                    j < n,
                    i <= j,
                    pj == ops@[j as int].process,
                    found ==> i < j && ops@[i as int].process == pj,
                    found ==> forall|t: int| i < t < j ==> (#[trigger] ops@[t]).process != pj,
                    !found ==> forall|t: int| i <= t < j ==> (#[trigger] ops@[t]).process != pj,
                decreases i + if found { 0int } else { 1int },
            {
                if ops[i - 1].process == pj {
                    found = true;
                }
                i = i - 1;
            }
            if found && ops[i].ovc.timestamp() > ops[j].ovc.timestamp() {
                let m = program_order_message(pj, &ops[i], &ops[j]);
                assert(m@ == program_order_text(ops@[i as int].process, ops@[i as int], ops@[j as int]));
                assert(ops@[i as int].process == ops@[j as int].process);
                assert(!history_in_program_order(ctx.history.operations@)) by {
                    assert(ops@[i as int].process == ops@[j as int].process);
                }
                return Err(m);
            }
            proof {
                assert forall|a: int, b: int| 0 <= a < b < j + 1 && (#[trigger] ops@[a]).process == (#[trigger] ops@[b]).process
                    implies ops@[a].ovc.ts() <= ops@[b].ovc.ts() by {
                    if b == j {
                        assert(found);
                        assert(a <= i);
                        if a < i {
                            assert(ops@[a].ovc.ts() <= ops@[i as int].ovc.ts());
                        }
                    }
                }
            }
            j = j + 1;
        }
        Ok(())
    }
}

/// The built-in invariant that no operation's timestamp exceeds a bound
/// per operation of the history.
pub struct MaxOperationDuration {
    /// The allowed timestamp per operation of the history.
    pub max_duration: u64,
}

impl MaxOperationDuration {
    /// The invariant with the given bound in OVC ticks.
    pub fn new(max_duration: u64) -> (r: Self)
        ensures
            r.max_duration == max_duration,
    {
        MaxOperationDuration { max_duration }
    }
}

/// The message of a timestamp beyond the allowed range.
pub open spec fn range_text<V>(op: Operation<V>) -> Seq<char> {
    "Operation "@ + operation_id_text(op.id) + " has OVC timestamp "@ + decimal(op.ovc.ts() as nat)
        + " exceeding expected range"@
}

/// `"Operation OperationId(a) has OVC timestamp t exceeding expected range"`.
fn range_message<V>(op: &Operation<V>) -> (s: String)
    ensures
        s@ == range_text(*op),
{
    let mut s = to_owned_string("Operation ");
    op.id.push_text(&mut s);
    push_str(&mut s, " has OVC timestamp ");
    push_decimal(&mut s, op.ovc.timestamp() as u128);
    push_str(&mut s, " exceeding expected range");
    s
}

impl<V> Invariant<V> for MaxOperationDuration {
    fn name(&self) -> &str
    {
        "max-operation-duration"
    }

    fn description(&self) -> &str
    {
        "No operation should take longer than the maximum allowed duration"
    }

    open spec fn holds(&self, ctx: InvariantContext<'_, V>) -> bool {
        forall|i: int| 0 <= i < ctx.history.operations@.len() ==>
            (#[trigger] ctx.history.operations@[i]).ovc.ts() <= self.max_duration * ctx.history.operations@.len()
    }

    /// Holds when every timestamp is at most the bound times the number
    /// of operations.
    fn check(&self, ctx: &InvariantContext<'_, V>) -> (r: Result<(), String>)
        ensures
            r is Ok <==> forall|i: int| 0 <= i < ctx.history.operations@.len() ==>
                (#[trigger] ctx.history.operations@[i]).ovc.ts() <= self.max_duration * ctx.history.operations@.len(),
            r matches Err(m) ==> exists|i: int| 0 <= i < ctx.history.operations@.len()
                && m@ == range_text(#[trigger] ctx.history.operations@[i])
                && ctx.history.operations@[i].ovc.ts() > self.max_duration * ctx.history.operations@.len(),
    {
        let ops = &ctx.history.operations;
        let n = ops.len();
        assert((self.max_duration as u128) * (n as u128) <= u128::MAX) by (nonlinear_arith)
            requires
                self.max_duration <= u64::MAX,
                n <= u64::MAX,
        {
            assert((self.max_duration as u128) * (n as u128) <= (u64::MAX as u128) * (u64::MAX as u128));
        }
        let limit: u128 = (self.max_duration as u128) * (n as u128);
        let mut i: usize = 0;
        while i < n
            invariant
                n == ops@.len(),
                ops@ == ctx.history.operations@,
                limit == self.max_duration * n,
                i <= n,
                forall|t: int| 0 <= t < i ==> (#[trigger] ops@[t]).ovc.ts() <= limit,
            decreases n - i,
        {
            if ops[i].ovc.timestamp() as u128 > limit {
                return Err(range_message(&ops[i]));
            }
            i = i + 1;
        }
        Ok(())
    }

    fn supports_incremental(&self) -> bool {
        true
    }

    /// Flags a timestamp above half the `u64` range.
    fn check_incremental(&self, op: &Operation<V>, ctx: &InvariantContext<'_, V>) -> (r: Result<(), String>)
        ensures
            r is Ok <==> op.ovc.ts() <= u64::MAX / 2,
    {
        if op.ovc.timestamp() > u64::MAX / 2 {
            let mut s = to_owned_string("Operation ");
            op.id.push_text(&mut s);
            push_str(&mut s, " has suspiciously large OVC timestamp");
            return Err(s);
        }
        Ok(())
    }
}

/// An invariant given by a name and a closure that checks the context.
pub struct CustomInvariant<V, F>
    where F: Fn(&InvariantContext<'_, V>) -> Result<(), String>
{
    name: String,
    description: String,
    check_fn: F,
    marker: PhantomData<V>,
}

impl<V, F> CustomInvariant<V, F>
    where F: Fn(&InvariantContext<'_, V>) -> Result<(), String>
{
    /// The closure can be called on every well-formed context and gives
    /// one answer for each context.
    #[verifier::type_invariant]
    spec fn callable(self) -> bool {
        &&& forall|c: &InvariantContext<'_, V>| #[trigger] c.wf() ==> self.check_fn.requires((c,))
        &&& deterministic(self.check_fn)
    }

    /// The invariant's name.
    pub closed spec fn name_view(self) -> Seq<char> {
        self.name@
    }

    /// The invariant's description.
    pub closed spec fn description_view(self) -> Seq<char> {
        self.description@
    }

    /// The checking closure.
    pub closed spec fn check_fn_view(self) -> F {
        self.check_fn
    }

    /// A custom invariant with an empty description; the closure must
    /// accept every well-formed context and answer each the same way.
    pub fn new(name: &str, check_fn: F) -> (r: Self)
        requires
            forall|c: &InvariantContext<'_, V>| #[trigger] c.wf() ==> check_fn.requires((c,)),
            deterministic(check_fn),
        ensures
            r.name_view() == name@,
            r.description_view().len() == 0,
            r.check_fn_view() == check_fn,
    {
        CustomInvariant { name: to_owned_string(name), description: empty_string(), check_fn, marker: PhantomData }
    }

    /// The same invariant with the given description.
    pub fn with_description(self, description: &str) -> (r: Self)
        ensures
            r.name_view() == self.name_view(),
            r.description_view() == description@,
            r.check_fn_view() == self.check_fn_view(),
    {
        proof { use_type_invariant(&self); }
        CustomInvariant { description: to_owned_string(description), ..self }
    }
}

/// The closure gives one answer for each context.
pub open spec fn deterministic<V, F: Fn(&InvariantContext<'_, V>) -> Result<(), String>>(f: F) -> bool {
    forall|c: &InvariantContext<'_, V>, r1: Result<(), String>, r2: Result<(), String>|
        #[trigger] f.ensures((c,), r1) && #[trigger] f.ensures((c,), r2) ==> r1 == r2
}

impl<V, F> Invariant<V> for CustomInvariant<V, F>
    where F: Fn(&InvariantContext<'_, V>) -> Result<(), String>
{
    open spec fn holds(&self, ctx: InvariantContext<'_, V>) -> bool {
        forall|r: Result<(), String>| #[trigger] self.check_fn_view().ensures((&ctx,), r) ==> r is Ok
    }

    fn name(&self) -> (r: &str)
        ensures
            r@ == self.name_view(),
    {
        self.name.as_str()
    }

    fn description(&self) -> (r: &str)
        ensures
            r@ == self.description_view(),
    {
        self.description.as_str()
    }

    /// What the closure returns for the context.
    fn check(&self, ctx: &InvariantContext<'_, V>) -> (r: Result<(), String>)
        ensures
            self.check_fn_view().ensures((ctx,), r),
    {
        proof { use_type_invariant(self); }
        let r = (self.check_fn)(ctx);
        proof {
            assert(self.check_fn.ensures((ctx,), r));
            if r is Ok {
                assert forall|r2: Result<(), String>| #[trigger] self.check_fn_view().ensures((ctx,), r2) implies r2 is Ok by {
                    assert(self.check_fn.ensures((ctx,), r) && self.check_fn.ensures((ctx,), r2));
                }
            }
        }
        r
    }
}

/// Invariant `a` is checked before invariant `b`: lower priority first,
/// ties in registration order.
pub open spec fn checked_before(p: Seq<u32>, a: int, b: int) -> bool {
    p[a] < p[b] || (p[a] == p[b] && a < b)
}

/// The order in which invariants with the given priorities are checked:
/// every index once, lower priority first, ties in registration order.
pub fn priority_order(priorities: &Vec<u32>) -> (r: Vec<usize>)
    ensures
        r@.len() == priorities@.len(),
        forall|i: int| 0 <= i < r@.len() ==> (#[trigger] r@[i]) < priorities@.len(),
        forall|i: int, j: int| 0 <= i < j < r@.len() ==> checked_before(priorities@, #[trigger] r@[i] as int, #[trigger] r@[j] as int),
        forall|k: usize| k < priorities@.len() ==> r@.contains(k),
{
    let n = priorities.len();
    let mut r: Vec<usize> = Vec::new();
    let mut k: usize = 0;
    while k < n
        invariant
            n == priorities@.len(),
            k <= n,
            r@.len() == k,
            forall|i: int| 0 <= i < r@.len() ==> (#[trigger] r@[i]) < k,
            forall|i: int, j: int| 0 <= i < j < r@.len() ==> checked_before(priorities@, #[trigger] r@[i] as int, #[trigger] r@[j] as int),
        decreases n - k,
    {
        let ghost r0 = r@;
        let pk = priorities[k];
        let m = r.len();
        let mut q: usize = 0;
        while q < m && priorities[r[q]] <= pk
            invariant
                m == r@.len(),
                r@ == r0,
                n == priorities@.len(),
                k < n,
                pk == priorities@[k as int],
                forall|i: int| 0 <= i < r0.len() ==> (#[trigger] r0[i]) < k,
                q <= m,
                forall|i: int| 0 <= i < q ==> checked_before(priorities@, #[trigger] r0[i] as int, k as int),
            decreases m - q,
        {
            proof {
                assert(r0[q as int] < k);
            }
            q = q + 1;
        }
        r.insert(q, k);
        proof {
            assert forall|i: int, j: int| 0 <= i < j < r@.len() implies checked_before(priorities@, #[trigger] r@[i] as int, #[trigger] r@[j] as int) by {
                if j < q {
                    assert(r@[i] == r0[i] && r@[j] == r0[j]);
                } else if j == q {
                    assert(r@[i] == r0[i]);
                } else if i == q {
                    assert(r@[j] == r0[j - 1]);
                    assert(!(priorities@[r0[q as int] as int] <= pk));
                    if j - 1 > q {
                        assert(checked_before(priorities@, r0[q as int] as int, r0[j - 1] as int));
                    }
                } else if i < q {
                    assert(r@[i] == r0[i] && r@[j] == r0[j - 1]);
                } else {
                    assert(r@[i] == r0[i - 1] && r@[j] == r0[j - 1]);
                }
            }
            assert forall|i: int| 0 <= i < r@.len() implies (#[trigger] r@[i]) < k + 1 by {
                if i < q {
                    assert(r@[i] == r0[i]);
                } else if i > q {
                    assert(r@[i] == r0[i - 1]);
                }
            }
        }
        k = k + 1;
    }
    proof {
        assert(r@.no_duplicates()) by {
            assert forall|i: int, j: int| 0 <= i < r@.len() && 0 <= j < r@.len() && i != j implies r@[i] != r@[j] by {
                if i < j {
                    assert(checked_before(priorities@, r@[i] as int, r@[j] as int));
                } else {
                    assert(checked_before(priorities@, r@[j] as int, r@[i] as int));
                }
            }
        }
        super::search::lemma_covers(r@, n as nat);
    }
    r
}

/// `"Invariant '<name>' violated: <message>"`.
pub open spec fn violated_text(name: Seq<char>, message: Seq<char>) -> Seq<char> {
    "Invariant '"@ + name + "' violated: "@ + message
}

/// The text of one invariant violation.
fn violated_message(name: &str, message: &str) -> (s: String)
    ensures
        s@ == violated_text(name@, message@),
{
    let mut s = to_owned_string("Invariant '");
    push_str(&mut s, name);
    push_str(&mut s, "' violated: ");
    push_str(&mut s, message);
    s
}

/// The positions of the registered invariants that do not hold in the
/// context.
pub open spec fn failing<V>(invs: Seq<Box<dyn Invariant<V>>>, c: InvariantContext<'_, V>) -> Set<int> {
    Set::new(|k: int| 0 <= k < invs.len() && !invs[k].holds(c))
}

/// Every registered invariant holds in the context.
pub open spec fn all_hold<V>(invs: Seq<Box<dyn Invariant<V>>>, c: InvariantContext<'_, V>) -> bool {
    forall|k: int| 0 <= k < invs.len() ==> #[trigger] invs[k].holds(c)
}

/// What a check of the invariants in the context `c` of `history` gives:
/// Pass only when every invariant holds, and (without a timeout) exactly
/// then; a failure comes only when some invariant does not hold, and
/// carries one violation text when failing fast, else the count of the
/// failing invariants and one entry per failing invariant.
pub open spec fn invariants_outcome<V>(
    invs: Seq<Box<dyn Invariant<V>>>,
    c: InvariantContext<'_, V>,
    history: &History<V>,
    fail_fast: bool,
    no_timeout: bool,
    r: CheckResult,
) -> bool {
    &&& c.built_from(history)
    &&& (r.status is Pass ==> all_hold(invs, c))
    &&& (no_timeout ==> (r.status is Pass <==> all_hold(invs, c)))
    &&& (r.status is Fail ==> failing(invs, c).len() > 0 && failing(invs, c).finite())
    &&& (r.status is Fail && !fail_fast ==> (r.counterexample matches Some(ce)
            && ce.operations@.len() == failing(invs, c).len()
            && ce.description@ == decimal(failing(invs, c).len()) + " invariant(s) violated"@))
    &&& (r.status is Fail && fail_fast ==> (r.counterexample matches Some(ce)
            && exists|nm: Seq<char>, msg: Seq<char>| ce.description@ == #[trigger] violated_text(nm, msg)))
}

/// The counterexample listing the violated invariants: described as
/// `"<k> invariant(s) violated"`, with one entry `"<name>: <message>"`
/// per violation, numbered from 0 as operation ids.
pub fn violations_counterexample(violations: &Vec<(String, String)>) -> (ce: Counterexample)
    ensures
        ce.violation_type == ViolationType::InvariantViolation,
        ce.description@ == decimal(violations@.len() as nat) + " invariant(s) violated"@,
        ce.operations@.len() == violations@.len(),
        forall|i: int| 0 <= i < violations@.len() ==> (#[trigger] ce.operations@[i]).id == OperationId(i as u64)
            && ce.operations@[i].description@ == violations@[i].0@ + ": "@ + violations@[i].1@,
        ce.suggested_linearization is None,
{
    let n = violations.len();
    let mut d = empty_string();
    push_decimal(&mut d, n as u128);
    push_str(&mut d, " invariant(s) violated");
    let mut ops: Vec<CounterexampleOp> = Vec::new();
    let mut i: usize = 0;
    while i < n
        invariant
            n == violations@.len(),
            i <= n,
            ops@.len() == i,
            forall|t: int| 0 <= t < i ==> (#[trigger] ops@[t]).id == OperationId(t as u64)
                && ops@[t].description@ == violations@[t].0@ + ": "@ + violations@[t].1@,
        decreases n - i,
    {
        let mut text = to_owned_string(violations[i].0.as_str());
        push_str(&mut text, ": ");
        push_str(&mut text, violations[i].1.as_str());
        ops.push(CounterexampleOp::new(OperationId(i as u64), text));
        i = i + 1;
    }
    Counterexample::new(d, ViolationType::InvariantViolation).with_operations(ops)
}

/// Configuration of the invariant checker.
#[derive(Debug, Clone)]
pub struct InvariantCheckerConfig {
    /// Whether to stop at the first violation.
    pub fail_fast: bool,
    /// Maximum time for all invariant checks.
    pub timeout: Option<Duration>,
    /// Whether to run invariant checks in parallel.
    pub parallel: bool,
}

impl InvariantCheckerConfig {
    /// Fail fast, 30 s timeout, sequential.
    pub fn new() -> (r: Self)
        ensures
            r.fail_fast,
            r.timeout == Some(duration_of(30, 0)),
            !r.parallel,
    {
        InvariantCheckerConfig { fail_fast: true, timeout: Some(duration_from_secs(30)), parallel: false }
    }
}

impl Default for InvariantCheckerConfig {
    fn default() -> (r: Self)
        ensures
            r.fail_fast,
            r.timeout is Some,
            !r.parallel,
    {
        InvariantCheckerConfig::new()
    }
}

/// A checker that runs registered invariants.
#[verifier::reject_recursive_types(V)]
pub struct InvariantChecker<V> {
    /// The registered invariants.
    pub invariants: Vec<Box<dyn Invariant<V>>>,
    /// Configuration.
    pub config: InvariantCheckerConfig,
}

impl<V> InvariantChecker<V> {
    /// A checker with no invariants and the default configuration.
    pub fn new() -> (r: Self)
        ensures
            r.invariants@.len() == 0,
            r.config.fail_fast && r.config.timeout is Some && !r.config.parallel,
    {
        InvariantChecker { invariants: Vec::new(), config: InvariantCheckerConfig::new() }
    }

    /// A checker with no invariants and the given configuration.
    pub fn with_config(config: InvariantCheckerConfig) -> (r: Self)
        ensures
            r.invariants@.len() == 0,
            r.config == config,
    {
        InvariantChecker { invariants: Vec::new(), config }
    }

    /// Registers an invariant, after those already registered.
    pub fn add_invariant<I: Invariant<V> + 'static>(&mut self, inv: I)
        ensures
            final(self).config == old(self).config,
    {
        let b: Box<dyn Invariant<V>> = Box::new(inv);
        self.invariants.push(b);
    }

    /// Registers an invariant (builder form).
    pub fn with_invariant<I: Invariant<V> + 'static>(self, inv: I) -> (r: Self)
        ensures
            r.config == self.config,
    {
        let mut c = self;
        c.add_invariant(inv);
        c
    }

    /// Sets fail-fast mode.
    pub fn with_fail_fast(self, fail_fast: bool) -> (r: Self)
        ensures
            r.invariants@.len() == self.invariants@.len(),
            r.config == (InvariantCheckerConfig { fail_fast, ..self.config }),
    {
        let mut c = self;
        c.config.fail_fast = fail_fast;
        c
    }

    /// Sets the timeout.
    pub fn with_timeout(self, timeout: Duration) -> (r: Self)
        ensures
            r.invariants@.len() == self.invariants@.len(),
            r.config == (InvariantCheckerConfig { timeout: Some(timeout), ..self.config }),
    {
        let mut c = self;
        c.config.timeout = Some(timeout);
        c
    }

    /// The names of the registered invariants, in registration order.
    pub fn invariant_names(&self) -> (r: Vec<&str>)
        ensures
            r@.len() == self.invariants@.len(),
    {
        let mut out: Vec<&str> = Vec::new();
        let n = self.invariants.len();
        let mut i: usize = 0;
        while i < n
            invariant
                n == self.invariants@.len(),
                i <= n,
                out@.len() == i,
            decreases n - i,
        {
            out.push(self.invariants[i].name());
            i = i + 1;
        }
        out
    }

    /// The checker's name.
    pub fn name(&self) -> (r: &'static str)
        ensures
            r@ == "invariant-checker"@,
    {
        "invariant-checker"
    }

    /// What the checker validates.
    pub fn description(&self) -> (r: &'static str)
        ensures
            r@ == "Checks custom invariants against the operation history"@,
    {
        "Checks custom invariants against the operation history"
    }

    /// Runs the invariants in priority order. With fail-fast, the first
    /// violation fails the check; otherwise all violations are listed.
    /// Which invariants fail is decided by their own `check`.
    pub fn check(&self, history: &History<V>) -> (r: CheckResult)
        ensures
            self.invariants@.len() == 0 ==> (r.status is Pass && r.diagnostics@.len() == 1
                && r.diagnostics@[0]@ == "No invariants registered"@),
            r.status is Pass || r.status is Fail || r.status is Unknown,
            r.status is Unknown ==> self.config.timeout is Some,
            r.status is Fail ==> (r.counterexample matches Some(ce) && ce.violation_type == ViolationType::InvariantViolation),
            self.invariants@.len() > 0 && r.status is Pass ==> (r.stats.num_operations == history.operations@.len()
                && r.diagnostics@.len() == 1
                && r.diagnostics@[0]@ == "All "@ + decimal(self.invariants@.len() as nat) + " invariants passed"@),
            self.invariants@.len() > 0 ==> exists|c: InvariantContext<'_, V>|
                #[trigger] invariants_outcome(self.invariants@, c, history, self.config.fail_fast, self.config.timeout is None, r),
    {
        let start = now();
        let count = self.invariants.len();
        if count == 0 {
            return CheckResult::pass().with_duration(elapsed(&start)).with_diagnostic(to_owned_string("No invariants registered"));
        }
        let ctx = InvariantContext::new(history);
        let mut priorities: Vec<u32> = Vec::new();
        let mut i: usize = 0;
        while i < count
            invariant
                count == self.invariants@.len(),
                i <= count,
                priorities@.len() == i,
            decreases count - i,
        {
            priorities.push(self.invariants[i].priority());
            i = i + 1;
        }
        let order = priority_order(&priorities);
        let deadline: Option<Instant> = match self.config.timeout {
            Some(t) => deadline_after(t),
            None => None,
        };
        let mut stats = CheckStats::new();
        stats.num_operations = history.len();
        let mut violations: Vec<(String, String)> = Vec::new();
        let ghost invs = self.invariants@;
        let ghost mut seen: Set<int> = Set::empty();
        let ghost mut fails: Set<int> = Set::empty();
        let mut k: usize = 0;
        while k < order.len()
            invariant
                order@.len() == count,
                count == self.invariants@.len(),
                invs == self.invariants@,
                forall|t: int| 0 <= t < order@.len() ==> (#[trigger] order@[t]) < count,
                forall|i: int, j: int| 0 <= i < j < order@.len() ==> checked_before(priorities@, #[trigger] order@[i] as int, #[trigger] order@[j] as int),
                ctx.wf(),
                ctx.history == history,
                ctx.built_from(history),
                k <= order@.len(),
                self.config.timeout is None ==> deadline is None,
                stats.num_operations == history.operations@.len(),
                seen.finite(),
                fails.finite(),
                forall|t: int| 0 <= t < k ==> seen.contains(#[trigger] order@[t] as int),
                forall|x: int| #[trigger] seen.contains(x) ==> exists|t: int| 0 <= t < k && order@[t] as int == x,
                forall|x: int| #[trigger] fails.contains(x) <==> (seen.contains(x) && !invs[x].holds(ctx)),
                forall|x: int| #[trigger] seen.contains(x) ==> 0 <= x < count,
                violations@.len() == fails.len(),
                self.config.fail_fast ==> fails.len() == 0,
            decreases order@.len() - k,
        {
            match &deadline {
                Some(d) => {
                    if deadline_passed(d) {
                        let r = CheckResult::unknown(to_owned_string("Timeout during invariant checking")).with_duration(elapsed(&start));
                        assert(invariants_outcome(invs, ctx, history, self.config.fail_fast, self.config.timeout is None, r));
                        return r;
                    }
                },
                None => {},
            }
            let idx = order[k];
            let inv = &self.invariants[idx];
            let ghost x = idx as int;
            proof {
                assert(!seen.contains(x)) by {
                    if seen.contains(x) {
                        let t = choose|t: int| 0 <= t < k && order@[t] as int == x;
                        assert(checked_before(priorities@, order@[t] as int, order@[k as int] as int));
                    }
                }
            }
            match inv.check(&ctx) {
                Ok(()) => {
                    proof {
                        assert(invs[x].holds(ctx));
                        seen = seen.insert(x);
                        assert forall|y: int| #[trigger] fails.contains(y) <==> (seen.contains(y) && !invs[y].holds(ctx)) by {}
                    }
                },
                Err(message) => {
                    let nm = inv.name();
                    let text = violated_message(nm, message.as_str());
                    if self.config.fail_fast {
                        let ce = Counterexample::new(text, ViolationType::InvariantViolation);
                        let r = CheckResult::fail(ce).with_duration(elapsed(&start)).with_stats(stats);
                        proof {
                            let f = failing(invs, ctx);
                            assert(f.contains(x));
                            assert(f.subset_of(Set::new(|y: int| 0 <= y < count)));
                            vstd::set_lib::lemma_int_range(0, count as int);
                            assert(Set::new(|y: int| 0 <= y < count) =~= vstd::set_lib::set_int_range(0, count as int));
                            vstd::set_lib::lemma_len_subset(f, vstd::set_lib::set_int_range(0, count as int));
                            assert(f.len() > 0) by {
                                if f.len() == 0 {
                                    f.lemma_len0_is_empty();
                                }
                            }
                            assert(r.counterexample.unwrap().description@ == violated_text(nm@, message@));
                            assert(invariants_outcome(invs, ctx, history, self.config.fail_fast, self.config.timeout is None, r));
                        }
                        return r;
                    }
                    violations.push((to_owned_string(nm), message));
                    proof {
                        seen = seen.insert(x);
                        fails = fails.insert(x);
                        assert forall|y: int| #[trigger] fails.contains(y) <==> (seen.contains(y) && !invs[y].holds(ctx)) by {}
                    }
                },
            }
            proof {
                assert forall|y: int| #[trigger] seen.contains(y) implies exists|t: int| 0 <= t < k + 1 && order@[t] as int == y by {
                    if y != x {
                        let t = choose|t: int| 0 <= t < k && order@[t] as int == y;
                        assert(0 <= t < k + 1 && order@[t] as int == y);
                    } else {
                        assert(order@[k as int] as int == y);
                    }
                }
            }
            k = k + 1;
        }
        proof {
            assert forall|y: int| 0 <= y < count implies #[trigger] seen.contains(y) by {
                let yu = y as usize;
                assert(order@.contains(yu));
                let t = choose|t: int| 0 <= t < order@.len() && order@[t] == yu;
                assert(seen.contains(order@[t] as int));
            }
            assert(fails =~= failing(invs, ctx));
        }
        if violations.len() == 0 {
            let mut d = to_owned_string("All ");
            push_decimal(&mut d, count as u128);
            push_str(&mut d, " invariants passed");
            let r = CheckResult::pass().with_duration(elapsed(&start)).with_stats(stats).with_diagnostic(d);
            proof {
                assert forall|j: int| 0 <= j < invs.len() implies #[trigger] invs[j].holds(ctx) by {
                    assert(seen.contains(j));
                    if !invs[j].holds(ctx) {
                        assert(fails.contains(j));
                        fails.lemma_len0_is_empty();
                    }
                }
                assert(invariants_outcome(invs, ctx, history, self.config.fail_fast, self.config.timeout is None, r));
            }
            r
        } else {
            let ce = violations_counterexample(&violations);
            let r = CheckResult::fail(ce).with_duration(elapsed(&start)).with_stats(stats);
            proof {
                let w = choose|y: int| fails.contains(y);
                assert(fails.contains(w)) by {
                    if fails.len() > 0 {
                        if forall|y: int| !fails.contains(y) {
                            assert(fails =~= Set::<int>::empty());
                        }
                    }
                }
                assert(!invs[w].holds(ctx));
                assert(!all_hold(invs, ctx));
                assert(invariants_outcome(invs, ctx, history, self.config.fail_fast, self.config.timeout is None, r));
            }
            r
        }
    }
}

impl<V: Clone> InvariantChecker<V> {
    /// Checks one new operation against the invariants that support
    /// incremental checking, in registration order; the first violation
    /// fails.
    pub fn check_incremental(&mut self, op: &Operation<V>) -> (r: Option<CheckResult>)
        ensures
            *final(self) == *old(self),
            old(self).invariants@.len() == 0 ==> r is None,
            r matches Some(res) ==> (res.status is Fail && (res.counterexample matches Some(ce)
                && ce.violation_type == ViolationType::InvariantViolation)),
    {
        let mut one: Vec<Operation<V>> = Vec::new();
        one.push(op.clone());
        let history = History::from_operations(one);
        let ctx = InvariantContext::new(&history);
        let n = self.invariants.len();
        let mut i: usize = 0;
        while i < n
            invariant
                n == self.invariants@.len(),
                ctx.wf(),
                i <= n,
            decreases n - i,
        {
            let inv = &self.invariants[i];
            if inv.supports_incremental() {
                match inv.check_incremental(op, &ctx) {
                    Ok(()) => {},
                    Err(message) => {
                        let text = violated_message(inv.name(), message.as_str());
                        return Some(CheckResult::fail(Counterexample::new(text, ViolationType::InvariantViolation)));
                    },
                }
            }
            i = i + 1;
        }
        None
    }
}

impl<V> Default for InvariantChecker<V> {
    fn default() -> (r: Self)
        ensures
            r.invariants@.len() == 0,
            r.config.fail_fast && r.config.timeout is Some && !r.config.parallel,
    {
        InvariantChecker::new()
    }
}

} // verus!
