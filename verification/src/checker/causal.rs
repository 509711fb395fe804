//! Causal consistency checking over the causal graph of a history.
use vstd::prelude::*;
use core::time::Duration;
use std::marker::PhantomData;
use crate::history::History;
use crate::operation::{Operation, OperationId, OperationPhase, operation_id_text, debug_text, json_text};
use crate::text_scan::contains_str;
use crate::node::ProcessId;
use crate::clock::{now, elapsed, duration_from_secs, duration_of};
use crate::text::{push_str, empty_string, to_owned_string};
use super::precedence::program_predecessor;
use super::precedence::program_prev;
use super::result::{CheckResult, CheckStats, CheckStatus, Counterexample, CounterexampleOp, ViolationType};
use super::linearizability::{describe_call, ids_debug_text};

verus! {

/// `s` is a path of at least one edge in the graph `e`.
pub open spec fn is_path(e: Seq<Vec<bool>>, s: Seq<int>) -> bool {
    &&& s.len() >= 2
    &&& forall|i: int| 0 <= i < s.len() ==> 0 <= #[trigger] s[i] < e.len()
    &&& forall|i: int| 0 <= i < s.len() - 1 ==> #[trigger] e[s[i]]@[s[i + 1]]
}

/// There is a path of at least one edge from `a` to `b`.
pub open spec fn reachable(e: Seq<Vec<bool>>, a: int, b: int) -> bool {
    exists|s: Seq<int>| #[trigger] is_path(e, s) && s[0] == a && s.last() == b
}

/// `c` is a cycle: consecutive nodes are joined by edges, and the last node
/// has an edge back to the first.
pub open spec fn is_cycle(e: Seq<Vec<bool>>, c: Seq<int>) -> bool {
    &&& c.len() >= 1
    &&& forall|i: int| 0 <= i < c.len() ==> 0 <= #[trigger] c[i] < e.len()
    &&& forall|i: int| 0 <= i < c.len() - 1 ==> #[trigger] e[c[i]]@[c[i + 1]]
    &&& e[c.last()]@[c[0]]
}

/// Whether `text` contains `pattern` as a contiguous part.
pub open spec fn contains_text(text: Seq<char>, pattern: Seq<char>) -> bool {
    exists|i: int| 0 <= i <= text.len() - pattern.len() && #[trigger] text.subrange(i, i + pattern.len()) == pattern
}

/// Substring search on strings.
pub fn str_contains(text: &str, pattern: &str) -> (r: bool)
    ensures
        r == contains_text(text@, pattern@),
{
    let t = text.unicode_len();
    let p = pattern.unicode_len();
    if p > t {
        proof {
            assert forall|i: int| !(0 <= i <= text@.len() - pattern@.len() && #[trigger] text@.subrange(i, i + pattern@.len()) == pattern@) by {}
        }
        return false;
    }
    let mut i: usize = 0;
    while i <= t - p
        invariant
            t == text@.len(),
            p == pattern@.len(),
            p <= t,
            i <= t - p + 1,
            forall|q: int| 0 <= q < i ==> #[trigger] text@.subrange(q, q + p) != pattern@,
        decreases t - p + 1 - i,
    {
        let mut j: usize = 0;
        let mut ok = true;
        while j < p
            invariant
                t == text@.len(),
                p == pattern@.len(),
                i <= t - p,
                j <= p,
                ok <==> forall|q: int| 0 <= q < j ==> text@[i + q] == pattern@[q],
            decreases p - j,
        {
            if text.get_char(i + j) != pattern.get_char(j) {
                ok = false;
            }
            j = j + 1;
        }
        if ok {
            assert(text@.subrange(i as int, i + p) =~= pattern@);
            return true;
        }
        proof {
            assert(text@.subrange(i as int, i + p) != pattern@) by {
                if text@.subrange(i as int, i + p) == pattern@ {
                    assert forall|q: int| 0 <= q < p implies text@[i + q] == pattern@[q] by {
                        assert(text@.subrange(i as int, i + p)[q] == text@[i + q]);
                    }
                }
            }
        }
        i = i + 1;
    }
    false
}

/// Whether a write's argument text (its `Debug` text) contains a read's
/// result (its JSON text).
pub fn args_mention_result<V: std::fmt::Debug>(args: &V, result: &serde_json::Value) -> bool {
    let a = debug_text(args);
    let t = json_text(result);
    contains_str(a.as_str(), t.as_str())
}

/// The function name marks a write (`write` or `put`).
pub open spec fn is_write_name(f: Seq<char>) -> bool {
    contains_text(f, "write"@) || contains_text(f, "put"@)
}

/// The function name marks a read (`read` or `get`).
pub open spec fn is_read_name(f: Seq<char>) -> bool {
    contains_text(f, "read"@) || contains_text(f, "get"@)
}

/// A causal edge from `j` to `i`: program order, or logical time between
/// operations with different ids.
pub open spec fn order_edge<V>(ops: Seq<Operation<V>>, j: int, i: int) -> bool {
    program_prev(ops, j, i) || (ops[j].id != ops[i].id && ops[j].ovc.before(ops[i].ovc))
}

/// A possible reads-from edge: a write before a completed read.
pub open spec fn reads_from_candidate<V>(ops: Seq<Operation<V>>, j: int, i: int) -> bool {
    &&& is_write_name(ops[j].function@)
    &&& is_read_name(ops[i].function@)
    &&& ops[i].phase is Completed
    &&& ops[j].ovc.ts() < ops[i].ovc.ts()
}

/// No id occurs twice.
pub open spec fn distinct_ids(s: Seq<OperationId>) -> bool {
    forall|x: int, y: int| #![trigger s[x], s[y]] 0 <= x < s.len() && 0 <= y < s.len() && x != y ==> s[x] != s[y]
}

/// The graph is square over `n` nodes.
pub open spec fn square(e: Seq<Vec<bool>>, n: nat) -> bool {
    &&& e.len() == n
    &&& forall|j: int| 0 <= j < e.len() ==> (#[trigger] e[j])@.len() == n
}

/// The graph has no cycle.
pub open spec fn acyclic(e: Seq<Vec<bool>>) -> bool {
    forall|c: Seq<int>| !#[trigger] is_cycle(e, c)
}

/// A sequence of node indices as integers.
pub open spec fn ints(p: Seq<usize>) -> Seq<int> {
    p.map_values(|v: usize| v as int)
}

/// The causal graph of a history: one node per distinct operation id.
pub struct CausalGraph {
    /// The node ids, in order of first appearance in the history.
    pub nodes: Vec<OperationId>,
    /// The node of each operation of the history, by position.
    pub node_of: Vec<usize>,
    /// `edges[x][y]`: node `x` causally precedes node `y` directly.
    pub edges: Vec<Vec<bool>>,
}

/// Operation `a` causally precedes a different operation `b`: a path of
/// at least one edge leads from `a`'s node to `b`'s node.
pub open spec fn id_precedes(nodes: Seq<OperationId>, e: Seq<Vec<bool>>, a: OperationId, b: OperationId) -> bool {
    &&& a != b
    &&& exists|x: int, y: int| #![trigger nodes[x], nodes[y]]
            0 <= x < nodes.len() && 0 <= y < nodes.len() && nodes[x] == a && nodes[y] == b && reachable(e, x, y)
}

/// `g` is a causal graph of `ops`: its nodes are the ids of `ops`, it has
/// every program-order and logical-time edge, and each further edge is a
/// possible reads-from edge.
pub open spec fn graph_of<V>(ops: Seq<Operation<V>>, g: CausalGraph) -> bool {
    let k = g.nodes@.len();
    &&& g.wf()
    &&& g.node_of@.len() == ops.len()
    &&& forall|p: int| 0 <= p < ops.len() ==> (#[trigger] g.node_of@[p]) < k && g.nodes@[g.node_of@[p] as int] == ops[p].id
    &&& forall|x: usize| x < k ==> #[trigger] g.node_of@.contains(x)
    &&& forall|j: int, i: int| 0 <= j < ops.len() && 0 <= i < ops.len() && order_edge(ops, j, i)
            ==> #[trigger] g.edges@[g.node_of@[j] as int]@[g.node_of@[i] as int]
    &&& forall|x: int, y: int| 0 <= x < k && 0 <= y < k && #[trigger] g.edges@[x]@[y] ==>
            exists|j: int, i: int| #![trigger g.node_of@[j], g.node_of@[i]]
                0 <= j < ops.len() && 0 <= i < ops.len() && g.node_of@[j] == x && g.node_of@[i] == y
                && (order_edge(ops, j, i) || reads_from_candidate(ops, j, i))
}

/// `j` and then `i` are consecutive operations of one process.
pub open spec fn next_in_process<V>(ops: Seq<Operation<V>>, j: int, i: int) -> bool {
    &&& 0 <= j < i < ops.len()
    &&& ops[j].process == ops[i].process
    &&& forall|m: int| j < m < i ==> (#[trigger] ops[m]).process != ops[j].process
}

/// Consecutive operations `j` then `i` of a process, with `j` earlier in
/// logical time, which the causal graph orders the other way round.
pub open spec fn view_violation<V>(ops: Seq<Operation<V>>, g: CausalGraph, j: int, i: int) -> bool {
    &&& next_in_process(ops, j, i)
    &&& ops[j].ovc.ts() < ops[i].ovc.ts()
    &&& id_precedes(g.nodes@, g.edges@, ops[i].id, ops[j].id)
}

/// The position of `id` in `nodes`.
fn index_of_id(nodes: &Vec<OperationId>, id: OperationId) -> (r: Option<usize>)
    ensures
        match r {
            Some(x) => x < nodes@.len() && nodes@[x as int] == id,
            None => forall|x: int| 0 <= x < nodes@.len() ==> nodes@[x] != id,
        },
{
    let mut x: usize = 0;
    while x < nodes.len()
        invariant
            x <= nodes@.len(),
            forall|q: int| 0 <= q < x ==> nodes@[q] != id,
        decreases nodes@.len() - x,
    {
        if nodes[x] == id {
            return Some(x);
        }
        x = x + 1;
    }
    None
}

/// Whether there is a causal edge from position `j` to position `i`.
fn link<V: std::fmt::Debug>(
    ops: &Vec<Operation<V>>, prev: &Vec<Option<usize>>, is_write: &Vec<bool>, is_read: &Vec<bool>, j: usize, i: usize,
) -> (r: bool)
    requires
        j < ops@.len(),
        i < ops@.len(),
        prev@.len() == ops@.len() && is_write@.len() == ops@.len() && is_read@.len() == ops@.len(),
        forall|q: int| 0 <= q < ops@.len() ==> match #[trigger] prev@[q] {
            Some(p) => program_prev(ops@, p as int, q),
            None => forall|p: int| !program_prev(ops@, p, q),
        },
        forall|q: int| 0 <= q < ops@.len() ==> (#[trigger] is_write@[q] == is_write_name(ops@[q].function@)),
        forall|q: int| 0 <= q < ops@.len() ==> (#[trigger] is_read@[q] == is_read_name(ops@[q].function@)),
    ensures
        order_edge(ops@, j as int, i as int) ==> r,
        r ==> order_edge(ops@, j as int, i as int) || reads_from_candidate(ops@, j as int, i as int),
{
    let is_prev = match prev[i] {
        Some(p) => p == j,
        None => false,
    };
    proof {
        match prev@[i as int] {
            Some(p) => {
                if program_prev(ops@, j as int, i as int) && p != j {
                    let a = j as int;
                    let b = p as int;
                    assert(super::precedence::po_candidate(ops@, a, i as int));
                    assert(super::precedence::po_candidate(ops@, b, i as int));
                    if super::precedence::po_less(ops@, a, b) {
                        assert(!super::precedence::po_less(ops@, a, b));
                    } else {
                        assert(super::precedence::po_less(ops@, b, a));
                    }
                }
            },
            None => {},
        }
    }
    if is_prev || (ops[j].id != ops[i].id && ops[j].ovc.happens_before(&ops[i].ovc)) {
        return true;
    }
    if is_write[j] && is_read[i] && ops[j].ovc.timestamp() < ops[i].ovc.timestamp() {
        match &ops[i].phase {
            OperationPhase::Completed { result } => {
                return args_mention_result(&ops[j].args, result);
            },
            _ => {},
        }
    }
    false
}

impl CausalGraph {
    /// Well formed: a square edge matrix over distinct node ids.
    pub open spec fn wf(self) -> bool {
        &&& square(self.edges@, self.nodes@.len())
        &&& distinct_ids(self.nodes@)
    }

    /// The causal graph of a history: program-order edges, logical-time
    /// edges between different operations, and reads-from edges from a
    /// write whose arguments mention a completed read's result.
    #[verifier::spinoff_prover]
    pub fn build<V: std::fmt::Debug>(history: &History<V>) -> (g: CausalGraph)
        ensures
            graph_of(history.operations@, g),
    {
        let ops = &history.operations;
        let n = ops.len();
        let mut nodes: Vec<OperationId> = Vec::new();
        let mut node_of: Vec<usize> = Vec::new();
        let ghost mut first: Seq<int> = Seq::empty();
        let mut p: usize = 0;
        while p < n
            invariant
                n == ops@.len(),
                p <= n,
                node_of@.len() == p,
                first.len() == nodes@.len(),
                distinct_ids(nodes@),
                forall|q: int| 0 <= q < p ==> (#[trigger] node_of@[q]) < nodes@.len() && nodes@[node_of@[q] as int] == ops@[q].id,
                forall|x: int| 0 <= x < nodes@.len() ==> 0 <= #[trigger] first[x] < p && node_of@[first[x]] == x,
            decreases n - p,
        {
            let id = ops[p].id;
            match index_of_id(&nodes, id) {
                Some(x) => {
                    node_of.push(x);
                },
                None => {
                    proof { first = first.push(p as int); }
                    node_of.push(nodes.len());
                    nodes.push(id);
                },
            }
            p = p + 1;
        }
        let k = nodes.len();
        let mut prev: Vec<Option<usize>> = Vec::new();
        let mut is_write: Vec<bool> = Vec::new();
        let mut is_read: Vec<bool> = Vec::new();
        let mut q: usize = 0;
        while q < n
            invariant
                n == ops@.len(),
                q <= n,
                prev@.len() == q && is_write@.len() == q && is_read@.len() == q,
                forall|t: int| 0 <= t < q ==> match #[trigger] prev@[t] {
                    Some(p) => program_prev(ops@, p as int, t),
                    None => forall|p: int| !program_prev(ops@, p, t),
                },
                forall|t: int| 0 <= t < q ==> (#[trigger] is_write@[t] == is_write_name(ops@[t].function@)),
                forall|t: int| 0 <= t < q ==> (#[trigger] is_read@[t] == is_read_name(ops@[t].function@)),
            decreases n - q,
        {
            prev.push(program_predecessor(ops, q));
            let f = ops[q].function.as_str();
            is_write.push(str_contains(f, "write") || str_contains(f, "put"));
            is_read.push(str_contains(f, "read") || str_contains(f, "get"));
            q = q + 1;
        }
        let mut edges: Vec<Vec<bool>> = Vec::new();
        let mut x: usize = 0;
        while x < k
            invariant
                n == ops@.len(),
                k == nodes@.len(),
                node_of@.len() == n,
                forall|q: int| 0 <= q < n ==> (#[trigger] node_of@[q]) < k,
                prev@.len() == n && is_write@.len() == n && is_read@.len() == n,
                forall|t: int| 0 <= t < n ==> match #[trigger] prev@[t] {
                    Some(p) => program_prev(ops@, p as int, t),
                    None => forall|p: int| !program_prev(ops@, p, t),
                },
                forall|t: int| 0 <= t < n ==> (#[trigger] is_write@[t] == is_write_name(ops@[t].function@)),
                forall|t: int| 0 <= t < n ==> (#[trigger] is_read@[t] == is_read_name(ops@[t].function@)),
                x <= k,
                edges@.len() == x,
                forall|a: int| 0 <= a < x ==> (#[trigger] edges@[a])@.len() == k,
                forall|j: int, i: int| 0 <= j < n && 0 <= i < n && node_of@[j] < x && order_edge(ops@, j, i)
                    ==> #[trigger] edges@[node_of@[j] as int]@[node_of@[i] as int],
                forall|a: int, y: int| 0 <= a < x && 0 <= y < k && #[trigger] edges@[a]@[y] ==>
                    exists|j: int, i: int| #![trigger node_of@[j], node_of@[i]]
                        0 <= j < n && 0 <= i < n && node_of@[j] == a && node_of@[i] == y
                        && (order_edge(ops@, j, i) || reads_from_candidate(ops@, j, i)),
            decreases k - x,
        {
            let mut row: Vec<bool> = Vec::new();
            let mut y: usize = 0;
            while y < k
                invariant
                    y <= k,
                    row@.len() == y,
                    forall|t: int| 0 <= t < y ==> !(#[trigger] row@[t]),
                decreases k - y,
            {
                row.push(false);
                y = y + 1;
            }
            let mut j: usize = 0;
            while j < n
                invariant
                    n == ops@.len(),
                    k == nodes@.len(),
                    x < k,
                    node_of@.len() == n,
                    forall|q: int| 0 <= q < n ==> (#[trigger] node_of@[q]) < k,
                    prev@.len() == n && is_write@.len() == n && is_read@.len() == n,
                    forall|t: int| 0 <= t < n ==> match #[trigger] prev@[t] {
                        Some(p) => program_prev(ops@, p as int, t),
                        None => forall|p: int| !program_prev(ops@, p, t),
                    },
                    forall|t: int| 0 <= t < n ==> (#[trigger] is_write@[t] == is_write_name(ops@[t].function@)),
                    forall|t: int| 0 <= t < n ==> (#[trigger] is_read@[t] == is_read_name(ops@[t].function@)),
                    j <= n,
                    row@.len() == k,
                    forall|a: int, i: int| #![trigger order_edge(ops@, a, i)] 0 <= a < j && 0 <= i < n && node_of@[a] == x && order_edge(ops@, a, i)
                        ==> row@[node_of@[i] as int],
                    forall|y: int| 0 <= y < k && #[trigger] row@[y] ==>
                        exists|a: int, i: int| #![trigger node_of@[a], node_of@[i]]
                            0 <= a < n && 0 <= i < n && node_of@[a] == x && node_of@[i] == y
                            && (order_edge(ops@, a, i) || reads_from_candidate(ops@, a, i)),
                decreases n - j,
            {
                if node_of[j] == x {
                    let mut i: usize = 0;
                    while i < n
                        invariant
                            n == ops@.len(),
                            k == nodes@.len(),
                            j < n,
                            node_of@[j as int] == x,
                            node_of@.len() == n,
                            forall|q: int| 0 <= q < n ==> (#[trigger] node_of@[q]) < k,
                            prev@.len() == n && is_write@.len() == n && is_read@.len() == n,
                            forall|t: int| 0 <= t < n ==> match #[trigger] prev@[t] {
                                Some(p) => program_prev(ops@, p as int, t),
                                None => forall|p: int| !program_prev(ops@, p, t),
                            },
                            forall|t: int| 0 <= t < n ==> (#[trigger] is_write@[t] == is_write_name(ops@[t].function@)),
                            forall|t: int| 0 <= t < n ==> (#[trigger] is_read@[t] == is_read_name(ops@[t].function@)),
                            i <= n,
                            row@.len() == k,
                            forall|a: int, c: int| #![trigger order_edge(ops@, a, c)] 0 <= a < j && 0 <= c < n && node_of@[a] == x && order_edge(ops@, a, c)
                                ==> row@[node_of@[c] as int],
                            forall|c: int| 0 <= c < i && order_edge(ops@, j as int, c) ==> #[trigger] row@[node_of@[c] as int],
                            forall|y: int| 0 <= y < k && #[trigger] row@[y] ==>
                                exists|a: int, c: int| #![trigger node_of@[a], node_of@[c]]
                                    0 <= a < n && 0 <= c < n && node_of@[a] == x && node_of@[c] == y
                                    && (order_edge(ops@, a, c) || reads_from_candidate(ops@, a, c)),
                        decreases n - i,
                    {
                        if link(ops, &prev, &is_write, &is_read, j, i) {
                            let ghost r0 = row@;
                            let y = node_of[i];
                            row.set(y, true);
                            proof {
                                assert forall|t: int| 0 <= t < k && #[trigger] row@[t] implies
                                    exists|a: int, c: int| #![trigger node_of@[a], node_of@[c]]
                                        0 <= a < n && 0 <= c < n && node_of@[a] == x && node_of@[c] == t
                                        && (order_edge(ops@, a, c) || reads_from_candidate(ops@, a, c)) by {
                                    if t == y {
                                        assert(node_of@[j as int] == x && node_of@[i as int] == t);
                                    } else {
                                        assert(r0[t]);
                                    }
                                }
                            }
                        }
                        i = i + 1;
                    }
                }
                j = j + 1;
            }
            edges.push(row);
            proof {
                assert(edges@[x as int] == row);
            }
            x = x + 1;
        }
        let g = CausalGraph { nodes, node_of, edges };
        proof {
            assert forall|a: usize| a < k implies #[trigger] g.node_of@.contains(a) by {
                assert(g.node_of@[first[a as int]] == a);
            }
            assert(g.wf());
            assert(forall|j: int, i: int| 0 <= j < n && 0 <= i < n && order_edge(ops@, j, i)
                ==> #[trigger] g.edges@[g.node_of@[j] as int]@[g.node_of@[i] as int]);
            assert forall|x: int, y: int| 0 <= x < k && 0 <= y < k && #[trigger] g.edges@[x]@[y] implies
                exists|j: int, i: int| #![trigger g.node_of@[j], g.node_of@[i]]
                    0 <= j < n && 0 <= i < n && g.node_of@[j] == x && g.node_of@[i] == y
                    && (order_edge(ops@, j, i) || reads_from_candidate(ops@, j, i)) by {
                assert(edges@[x]@[y]);
                let (j, i) = choose|j: int, i: int| #![trigger node_of@[j], node_of@[i]]
                    0 <= j < n && 0 <= i < n && node_of@[j] == x && node_of@[i] == y
                    && (order_edge(ops@, j, i) || reads_from_candidate(ops@, j, i));
                assert(g.node_of@[j] == x && g.node_of@[i] == y);
            }
        }
        g
    }

    /// The path from `queue[0]` to `queue[pos]` along the discovery links.
    fn trace_back(&self, queue: &Vec<usize>, parent: &Vec<usize>, pos: usize) -> (p: Vec<usize>)
        requires
            pos < queue@.len(),
            parent@.len() == queue@.len(),
            forall|q: int| 0 < q < queue@.len() ==> #[trigger] parent@[q] < q
                && self.edges@[queue@[parent@[q] as int] as int]@[queue@[q] as int],
            queue@.no_duplicates(),
        ensures
            p@.len() >= 1,
            p@[0] == queue@[0],
            p@.last() == queue@[pos as int],
            p@.no_duplicates(),
            forall|i: int| 0 <= i < p@.len() ==> #[trigger] queue@.contains(p@[i]),
            forall|i: int| 0 <= i < p@.len() ==> exists|q: int| 0 <= q <= pos && queue@[q] == #[trigger] p@[i],
            forall|i: int| 0 <= i < p@.len() - 1 ==> #[trigger] self.edges@[p@[i] as int]@[p@[i + 1] as int],
        decreases pos,
    {
        if pos == 0 {
            let mut p: Vec<usize> = Vec::new();
            p.push(queue[0]);
            assert(queue@.contains(p@[0]));
            assert(queue@[0] == p@[0]);
            p
        } else {
            let mut p = self.trace_back(queue, parent, parent[pos]);
            let ghost p0 = p@;
            p.push(queue[pos]);
            proof {
                assert forall|i: int| 0 <= i < p@.len() implies #[trigger] queue@.contains(p@[i]) by {
                    if i < p0.len() {
                        assert(queue@.contains(p0[i]));
                    } else {
                        assert(queue@[pos as int] == p@[i]);
                    }
                }
                assert forall|i: int| 0 <= i < p@.len() - 1 implies #[trigger] self.edges@[p@[i] as int]@[p@[i + 1] as int] by {
                    if i < p0.len() - 1 {
                        assert(self.edges@[p0[i] as int]@[p0[i + 1] as int]);
                    } else {
                        assert(p@[i] == queue@[parent@[pos as int] as int]);
                    }
                }
                assert forall|i: int| 0 <= i < p@.len() implies exists|q: int| 0 <= q <= pos && queue@[q] == #[trigger] p@[i] by {
                    if i < p0.len() {
                        let q = choose|q: int| 0 <= q <= parent@[pos as int] && queue@[q] == p0[i];
                        assert(queue@[q] == p@[i]);
                    } else {
                        assert(queue@[pos as int] == p@[i]);
                    }
                }
                assert forall|i: int, j: int| 0 <= i < j < p@.len() implies p@[i] != p@[j] by {
                    if j < p0.len() {
                        assert(p0[i] != p0[j]);
                    } else {
                        let q = choose|q: int| 0 <= q <= parent@[pos as int] && queue@[q] == p0[i];
                        assert(queue@[q] != queue@[pos as int]);
                    }
                }
            }
            p
        }
    }

    /// A path from node `a` whose last node has an edge to node `b`, found
    /// by breadth-first search; `None` when no path of at least one edge
    /// leads from `a` to `b`.
    pub fn path_to(&self, a: usize, b: usize) -> (r: Option<Vec<usize>>)
        requires
            square(self.edges@, self.edges@.len()),
            a < self.edges@.len(),
            b < self.edges@.len(),
        ensures
            match r {
                Some(p) => p@.len() >= 1 && p@[0] == a && p@.no_duplicates() && is_path(self.edges@, ints(p@).push(b as int)),
                None => !reachable(self.edges@, a as int, b as int),
            },
    {
        let n = self.edges.len();
        let ghost e = self.edges@;
        let mut visited: Vec<bool> = Vec::new();
        let mut k: usize = 0;
        while k < n
            invariant
                k <= n,
                visited@.len() == k,
                forall|q: int| 0 <= q < k ==> !visited@[q],
            decreases n - k,
        {
            visited.push(false);
            k = k + 1;
        }
        visited.set(a, true);
        let mut queue: Vec<usize> = Vec::new();
        queue.push(a);
        let mut parent: Vec<usize> = Vec::new();
        parent.push(0);
        let mut head: usize = 0;
        proof {
            assert(queue@[0] == a);
        }
        while head < queue.len()
            invariant
                e == self.edges@,
                square(e, n as nat),
                n == e.len(),
                a < n,
                b < n,
                visited@.len() == n,
                visited@[a as int],
                head <= queue@.len(),
                queue@.len() <= n,
                queue@.len() >= 1,
                queue@[0] == a,
                parent@.len() == queue@.len(),
                queue@.no_duplicates(),
                forall|q: int| 0 <= q < queue@.len() ==> #[trigger] queue@[q] < n && visited@[queue@[q] as int],
                forall|q: int| 0 < q < queue@.len() ==> #[trigger] parent@[q] < q
                    && e[queue@[parent@[q] as int] as int]@[queue@[q] as int],
                forall|v: int| 0 <= v < n && #[trigger] visited@[v] ==> (exists|q: int| head <= q < queue@.len() && queue@[q] == v)
                    || forall|w: int| 0 <= w < n && #[trigger] e[v]@[w] ==> visited@[w] && w != b,
            decreases n - head,
        {
            let cur = queue[head];
            let curpos = head;
            head = head + 1;
            let mut s: usize = 0;
            while s < n
                invariant
                    e == self.edges@,
                    square(e, n as nat),
                    n == e.len(),
                    a < n,
                    b < n,
                    curpos < head,
                    cur == queue@[curpos as int],
                    cur < n,
                    visited@[cur as int],
                    visited@.len() == n,
                    visited@[a as int],
                    s <= n,
                    head <= queue@.len(),
                    queue@.len() <= n,
                    queue@.len() >= 1,
                    queue@[0] == a,
                    parent@.len() == queue@.len(),
                    queue@.no_duplicates(),
                    forall|q: int| 0 <= q < queue@.len() ==> #[trigger] queue@[q] < n && visited@[queue@[q] as int],
                    forall|q: int| 0 < q < queue@.len() ==> #[trigger] parent@[q] < q
                        && e[queue@[parent@[q] as int] as int]@[queue@[q] as int],
                    forall|w: int| 0 <= w < s && #[trigger] e[cur as int]@[w] ==> visited@[w] && w != b,
                    forall|v: int| 0 <= v < n && #[trigger] visited@[v] && v != cur ==> (exists|q: int| head <= q < queue@.len() && queue@[q] == v)
                        || forall|w: int| 0 <= w < n && #[trigger] e[v]@[w] ==> visited@[w] && w != b,
                decreases n - s,
            {
                if self.edges[cur][s] {
                    if s == b {
                        let p = self.trace_back(&queue, &parent, curpos);
                        proof {
                            let t = ints(p@).push(b as int);
                            assert forall|i: int| 0 <= i < t.len() implies 0 <= #[trigger] t[i] < e.len() by {
                                if i < p@.len() {
                                    assert(queue@.contains(p@[i]));
                                }
                            }
                            assert forall|i: int| 0 <= i < t.len() - 1 implies #[trigger] e[t[i]]@[t[i + 1]] by {
                                if i < p@.len() - 1 {
                                    assert(e[p@[i] as int]@[p@[i + 1] as int]);
                                }
                            }
                        }
                        return Some(p);
                    }
                    if !visited[s] {
                        proof {
                            if queue@.len() == n {
                                super::search::lemma_covers(queue@, n as nat);
                                assert(queue@.contains(s));
                            }
                        }
                        let ghost vis0 = visited@;
                        let ghost q0 = queue@;
                        visited.set(s, true);
                        queue.push(s);
                        parent.push(curpos);
                        proof {
                            assert(queue@[queue@.len() - 1] == s);
                            assert forall|v: int| 0 <= v < n && #[trigger] visited@[v] && v != cur implies (exists|q: int| head <= q < queue@.len() && queue@[q] == v)
                                || forall|w: int| 0 <= w < n && #[trigger] e[v]@[w] ==> visited@[w] && w != b by {
                                if v == s {
                                    assert(queue@[queue@.len() - 1] == v);
                                } else {
                                    assert(vis0[v]);
                                    if exists|q: int| head <= q < q0.len() && q0[q] == v {
                                        let q = choose|q: int| head <= q < q0.len() && q0[q] == v;
                                        assert(queue@[q] == v);
                                    }
                                }
                            }
                            assert forall|q: int| 0 < q < queue@.len() implies #[trigger] parent@[q] < q
                                && e[queue@[parent@[q] as int] as int]@[queue@[q] as int] by {
                                if q < q0.len() {
                                    assert(parent@[q] == parent@[q]);
                                }
                            }
                        }
                    }
                }
                s = s + 1;
            }
        }
        proof {
            assert forall|v: int, w: int| #![trigger visited@[v], e[v]@[w]] 0 <= v < e.len() && 0 <= w < e.len() && visited@[v] && e[v]@[w] implies visited@[w] by {}
            assert forall|s: Seq<int>| #[trigger] is_path(e, s) && s[0] == a as int implies s.last() != b as int by {
                let t = s.drop_last();
                let m = s.len() - 2;
                if t.len() >= 2 {
                    assert(is_path(e, t)) by {
                        assert forall|i: int| 0 <= i < t.len() - 1 implies #[trigger] e[t[i]]@[t[i + 1]] by {
                            assert(t[i] == s[i] && t[i + 1] == s[i + 1]);
                        }
                    }
                    lemma_closed_path(e, visited@, t);
                }
                assert(visited@[s[m]]);
                assert(e[s[m]]@[s[m + 1]]);
            }
        }
        None
    }

    /// Whether a path of at least one edge leads from node `a` to a
    /// different node `b`.
    pub fn precedes_at(&self, a: usize, b: usize) -> (r: bool)
        requires
            square(self.edges@, self.edges@.len()),
            a < self.edges@.len(),
            b < self.edges@.len(),
        ensures
            r == (a != b && reachable(self.edges@, a as int, b as int)),
    {
        if a == b {
            return false;
        }
        match self.path_to(a, b) {
            Some(p) => {
                proof {
                    let t = ints(p@).push(b as int);
                    assert(t[0] == a as int);
                }
                true
            },
            None => false,
        }
    }

    /// Whether operation `op1` causally precedes a different operation
    /// `op2`.
    pub fn precedes(&self, op1: OperationId, op2: OperationId) -> (r: bool)
        requires
            self.wf(),
        ensures
            r == id_precedes(self.nodes@, self.edges@, op1, op2),
    {
        if op1 == op2 {
            return false;
        }
        let xa = index_of_id(&self.nodes, op1);
        let xb = index_of_id(&self.nodes, op2);
        match (xa, xb) {
            (Some(x), Some(y)) => {
                let r = self.precedes_at(x, y);
                proof {
                    if !r && id_precedes(self.nodes@, self.edges@, op1, op2) {
                        let (x2, y2) = choose|x2: int, y2: int| #![trigger self.nodes@[x2], self.nodes@[y2]]
                            0 <= x2 < self.nodes@.len() && 0 <= y2 < self.nodes@.len() && self.nodes@[x2] == op1
                            && self.nodes@[y2] == op2 && reachable(self.edges@, x2, y2);
                        assert(self.nodes@[x2] == self.nodes@[x as int]);
                        assert(self.nodes@[y2] == self.nodes@[y as int]);
                    }
                    if r {
                        assert(self.nodes@[x as int] == op1 && self.nodes@[y as int] == op2);
                    }
                }
                r
            },
            _ => false,
        }
    }

    /// A cycle of the graph as operation ids, or `None` when the graph is
    /// acyclic.
    pub fn find_cycle(&self) -> (r: Option<Vec<OperationId>>)
        requires
            self.wf(),
        ensures
            match r {
                Some(c) => c@.no_duplicates() && exists|s: Seq<int>| #[trigger] is_cycle(self.edges@, s) && c@.len() == s.len()
                    && s.no_duplicates() && forall|i: int| 0 <= i < s.len() ==> c@[i] == self.nodes@[#[trigger] s[i]],
                None => acyclic(self.edges@),
            },
    {
        let k = self.nodes.len();
        let ghost e = self.edges@;
        let mut v: usize = 0;
        while v < k
            invariant
                e == self.edges@,
                self.wf(),
                k == self.nodes@.len(),
                v <= k,
                forall|u: int| 0 <= u < v ==> !#[trigger] reachable(e, u, u),
            decreases k - v,
        {
            match self.path_to(v, v) {
                Some(p) => {
                    proof {
                        assert forall|t: int| 0 <= t < p@.len() implies #[trigger] p@[t] < k by {
                            assert(ints(p@).push(v as int)[t] == p@[t] as int);
                        }
                    }
                    let mut ids: Vec<OperationId> = Vec::new();
                    let mut i: usize = 0;
                    while i < p.len()
                        invariant
                            k == self.nodes@.len(),
                            forall|t: int| 0 <= t < p@.len() ==> #[trigger] p@[t] < k,
                            i <= p@.len(),
                            ids@.len() == i,
                            forall|t: int| 0 <= t < i ==> ids@[t] == self.nodes@[#[trigger] ints(p@)[t]],
                        decreases p@.len() - i,
                    {
                        ids.push(self.nodes[p[i]]);
                        i = i + 1;
                    }
                    proof {
                        let s = ints(p@);
                        let t = s.push(v as int);
                        assert forall|q: int| 0 <= q < s.len() implies 0 <= #[trigger] s[q] < e.len() by {
                            assert(t[q] == s[q]);
                        }
                        assert forall|q: int| 0 <= q < s.len() - 1 implies #[trigger] e[s[q]]@[s[q + 1]] by {
                            assert(t[q] == s[q] && t[q + 1] == s[q + 1]);
                        }
                        let m = s.len() - 1;
                        assert(e[t[m]]@[t[m + 1]]);
                        assert(is_cycle(e, s));
                        assert forall|x: int, y: int| 0 <= x < y < s.len() implies s[x] != s[y] by {
                            assert(p@[x] != p@[y]);
                        }
                        assert forall|x: int, y: int| 0 <= x < y < ids@.len() implies ids@[x] != ids@[y] by {
                            assert(s[x] != s[y]);
                            assert(self.nodes@[s[x]] != self.nodes@[s[y]]);
                        }
                    }
                    return Some(ids);
                },
                None => {},
            }
            v = v + 1;
        }
        proof {
            assert forall|c: Seq<int>| !#[trigger] is_cycle(e, c) by {
                if is_cycle(e, c) {
                    let t = c.push(c[0]);
                    assert forall|i: int| 0 <= i < t.len() - 1 implies #[trigger] e[t[i]]@[t[i + 1]] by {
                        if i < c.len() - 1 {
                            assert(t[i] == c[i] && t[i + 1] == c[i + 1]);
                        } else {
                            assert(t[i] == c.last());
                        }
                    }
                    assert(is_path(e, t));
                    assert(reachable(e, c[0], c[0]));
                }
            }
        }
        None
    }
}

/// `"Program order violation: OperationId(a) should come before OperationId(b)"`.
pub open spec fn order_violation_text(a: OperationId, b: OperationId) -> Seq<char> {
    "Program order violation: "@ + operation_id_text(a) + " should come before "@ + operation_id_text(b)
}

/// Configuration for the causal consistency checker.
#[derive(Debug, Clone)]
pub struct CausalConsistencyConfig {
    /// Maximum time for checking.
    pub timeout: Option<Duration>,
    /// Whether to track detailed causality information.
    pub detailed_causality: bool,
}

impl CausalConsistencyConfig {
    /// The default configuration: 30 s timeout, detailed causality.
    pub fn new() -> (r: Self)
        ensures
            r.timeout == Some(duration_of(30, 0)),
            r.detailed_causality,
    {
        CausalConsistencyConfig { timeout: Some(duration_from_secs(30)), detailed_causality: true }
    }
}

impl Default for CausalConsistencyConfig {
    fn default() -> (r: Self)
        ensures
            r.timeout is Some,
            r.detailed_causality,
    {
        CausalConsistencyConfig::new()
    }
}

/// A causal consistency checker.
pub struct CausalConsistencyChecker<V> {
    /// Configuration.
    pub config: CausalConsistencyConfig,
    /// The value type of operations.
    pub marker: PhantomData<V>,
}

impl<V> CausalConsistencyChecker<V> {
    /// A checker with the default configuration.
    pub fn new() -> (r: Self)
        ensures
            r.config.timeout is Some && r.config.detailed_causality,
    {
        CausalConsistencyChecker { config: CausalConsistencyConfig::new(), marker: PhantomData }
    }

    /// A checker with the given configuration.
    pub fn with_config(config: CausalConsistencyConfig) -> (r: Self)
        ensures
            r.config == config,
    {
        CausalConsistencyChecker { config, marker: PhantomData }
    }

    /// Sets the timeout.
    pub fn with_timeout(self, timeout: Duration) -> (r: Self)
        ensures
            r.config == (CausalConsistencyConfig { timeout: Some(timeout), ..self.config }),
    {
        let config = CausalConsistencyConfig { timeout: Some(timeout), ..self.config };
        CausalConsistencyChecker { config, marker: PhantomData }
    }
}

impl<V> Default for CausalConsistencyChecker<V> {
    fn default() -> (r: Self)
        ensures
            r.config.timeout is Some && r.config.detailed_causality,
    {
        CausalConsistencyChecker::new()
    }
}

impl<V: std::fmt::Debug> CausalConsistencyChecker<V> {
    /// The checker's name.
    pub fn name(&self) -> (r: &'static str)
        ensures
            r@ == "causal-consistency"@,
    {
        "causal-consistency"
    }

    /// What the checker validates.
    pub fn description(&self) -> (r: &'static str)
        ensures
            r@ == "Checks that the history satisfies causal consistency"@,
    {
        "Checks that the history satisfies causal consistency"
    }

    /// Checks one process's view: consecutive operations of the process,
    /// the first with the earlier timestamp, must not be ordered the other
    /// way round by the causal graph. Reports the first violation.
    pub fn verify_process_view(&self, history: &History<V>, causal_graph: &CausalGraph, process_id: ProcessId) -> (r: Result<(), Counterexample>)
        requires
            causal_graph.wf(),
        ensures
            r is Ok <==> forall|j: int, i: int| #![trigger view_violation(history.operations@, *causal_graph, j, i)]
                history.operations@[j].process == process_id ==> !view_violation(history.operations@, *causal_graph, j, i),
            r matches Err(ce) ==> exists|j: int, i: int| #![trigger view_violation(history.operations@, *causal_graph, j, i)]
                history.operations@[j].process == process_id
                && view_violation(history.operations@, *causal_graph, j, i)
                && (forall|j2: int, i2: int| #![trigger view_violation(history.operations@, *causal_graph, j2, i2)]
                    history.operations@[j2].process == process_id && view_violation(history.operations@, *causal_graph, j2, i2) ==> i <= i2)
                && ce.violation_type == ViolationType::ProgramOrderViolation
                && ce.description@ == order_violation_text(history.operations@[j].id, history.operations@[i].id)
                && ce.operations@.len() == 2
                && ce.operations@[0].id == history.operations@[j].id
                && ce.operations@[1].id == history.operations@[i].id,
    {
        let ops = &history.operations;
        let n = ops.len();
        let ghost g = *causal_graph;
        let mut last: Option<usize> = None;
        let mut i: usize = 0;
        while i < n
            invariant
                n == ops@.len(),
                ops@ == history.operations@,
                g == *causal_graph,
                causal_graph.wf(),
                i <= n,
                match last {
                    Some(j) => j < i && ops@[j as int].process == process_id
                        && forall|m: int| j < m < i ==> (#[trigger] ops@[m]).process != process_id,
                    None => forall|m: int| 0 <= m < i ==> (#[trigger] ops@[m]).process != process_id,
                },
                forall|j2: int, i2: int| #![trigger view_violation(ops@, g, j2, i2)]
                    i2 < i && ops@[j2].process == process_id ==> !view_violation(ops@, g, j2, i2),
            decreases n - i,
        {
            if ops[i].process == process_id {
                match last {
                    Some(j) => {
                        proof {
                            assert(next_in_process(ops@, j as int, i as int));
                        }
                        if ops[j].ovc.timestamp() < ops[i].ovc.timestamp() && causal_graph.precedes(ops[i].id, ops[j].id) {
                            let mut msg = to_owned_string("Program order violation: ");
                            ops[j].id.push_text(&mut msg);
                            push_str(&mut msg, " should come before ");
                            ops[i].id.push_text(&mut msg);
                            let d1 = describe_call(&ops[j].function, &ops[j].args);
                            let d2 = describe_call(&ops[i].function, &ops[i].args);
                            let ce = Counterexample::new(msg, ViolationType::ProgramOrderViolation)
                                .with_operation(CounterexampleOp::new(ops[j].id, d1))
                                .with_operation(CounterexampleOp::new(ops[i].id, d2));
                            proof {
                                assert(view_violation(ops@, g, j as int, i as int));
                                assert(view_violation(history.operations@, *causal_graph, j as int, i as int));
                                assert(history.operations@[j as int].process == process_id);
                                assert forall|j2: int, i2: int| #![trigger view_violation(ops@, g, j2, i2)]
                                    ops@[j2].process == process_id && view_violation(ops@, g, j2, i2) implies i <= i2 by {}
                            }
                            return Err(ce);
                        }
                        proof {
                            assert forall|j2: int, i2: int| #![trigger view_violation(ops@, g, j2, i2)]
                                i2 <= i && ops@[j2].process == process_id implies !view_violation(ops@, g, j2, i2) by {
                                if i2 == i && view_violation(ops@, g, j2, i2) {
                                    if j2 < j {
                                        assert(ops@[j as int].process != ops@[j2].process);
                                    } else if j2 > j {
                                        assert(ops@[j2].process != process_id);
                                    }
                                }
                            }
                        }
                    },
                    None => {
                        proof {
                            assert forall|j2: int, i2: int| #![trigger view_violation(ops@, g, j2, i2)]
                                i2 <= i && ops@[j2].process == process_id implies !view_violation(ops@, g, j2, i2) by {
                                if i2 == i && view_violation(ops@, g, j2, i2) {
                                    assert(ops@[j2].process != process_id);
                                }
                            }
                        }
                    },
                }
                last = Some(i);
            } else {
                proof {
                    assert forall|j2: int, i2: int| #![trigger view_violation(ops@, g, j2, i2)]
                        i2 <= i && ops@[j2].process == process_id implies !view_violation(ops@, g, j2, i2) by {
                        if i2 == i && view_violation(ops@, g, j2, i2) {
                            assert(ops@[i2].process == ops@[j2].process);
                        }
                    }
                }
            }
            i = i + 1;
        }
        proof {
            assert forall|j2: int, i2: int| #![trigger view_violation(ops@, g, j2, i2)]
                ops@[j2].process == process_id implies !view_violation(ops@, g, j2, i2) by {
                if view_violation(ops@, g, j2, i2) {
                    assert(i2 < n);
                }
            }
        }
        Ok(())
    }
}

/// The outcome of a causal check on a history with causal graph `g`: Pass
/// exactly when the graph is acyclic and no process view is violated; a
/// Fail carries a cycle of the graph or a violated pair of operations.
pub open spec fn causal_outcome<V>(ops: Seq<Operation<V>>, g: CausalGraph, r: CheckResult) -> bool {
    &&& (r.status is Pass) == (acyclic(g.edges@) && forall|j: int, i: int| !#[trigger] view_violation(ops, g, j, i))
    &&& r.status is Fail ==> (r.counterexample matches Some(ce) && (
        (ce.violation_type == ViolationType::CausalityViolation
            && exists|s: Seq<int>| #[trigger] is_cycle(g.edges@, s) && ce.operations@.len() == s.len()
                && forall|i: int| 0 <= i < s.len() ==> ce.operations@[i].id == g.nodes@[#[trigger] s[i]])
        || (ce.violation_type == ViolationType::ProgramOrderViolation && acyclic(g.edges@)
            && exists|j: int, i: int| #[trigger] view_violation(ops, g, j, i) && ce.operations@.len() == 2
                && ce.operations@[0].id == ops[j].id && ce.operations@[1].id == ops[i].id)))
}

impl<V: std::fmt::Debug> CausalConsistencyChecker<V> {
    /// Checks the history for causal consistency: builds its causal graph,
    /// fails on a causal cycle, then checks each process's view.
    pub fn check(&self, history: &History<V>) -> (r: CheckResult)
        ensures
            r.status is Pass || r.status is Fail,
            history.operations@.len() == 0 ==> r.status is Pass,
            exists|g: CausalGraph| #[trigger] graph_of(history.operations@, g) && causal_outcome(history.operations@, g, r),
    {
        let start = now();
        let g = CausalGraph::build(history);
        let ghost ops = history.operations@;
        if history.is_empty() {
            let r = CheckResult::pass().with_duration(elapsed(&start));
            proof {
                assert forall|c: Seq<int>| !#[trigger] is_cycle(g.edges@, c) by {
                    if is_cycle(g.edges@, c) {
                        assert(0 <= c[0] < g.edges@.len());
                    }
                }
                assert(causal_outcome(ops, g, r));
            }
            return r;
        }
        match g.find_cycle() {
            Some(cycle) => {
                let mut msg = to_owned_string("Causal cycle detected: ");
                let text = ids_debug_text(&cycle);
                push_str(&mut msg, text.as_str());
                let mut list: Vec<CounterexampleOp> = Vec::new();
                let mut i: usize = 0;
                while i < cycle.len()
                    invariant
                        i <= cycle@.len(),
                        list@.len() == i,
                        forall|t: int| 0 <= t < i ==> (#[trigger] list@[t]).id == cycle@[t],
                    decreases cycle@.len() - i,
                {
                    list.push(CounterexampleOp::new(cycle[i], to_owned_string("In cycle")));
                    i = i + 1;
                }
                let ce = Counterexample::new(msg, ViolationType::CausalityViolation).with_operations(list);
                let r = CheckResult::fail(ce).with_duration(elapsed(&start));
                proof {
                    let s = choose|s: Seq<int>| #[trigger] is_cycle(g.edges@, s) && cycle@.len() == s.len()
                        && forall|i: int| 0 <= i < s.len() ==> cycle@[i] == g.nodes@[#[trigger] s[i]];
                    assert(!acyclic(g.edges@));
                    assert(causal_outcome(ops, g, r));
                }
                return r;
            },
            None => {},
        }
        let processes = history.processes();
        let mut k: usize = 0;
        while k < processes.len()
            invariant
                ops == history.operations@,
                graph_of(ops, g),
                acyclic(g.edges@),
                k <= processes@.len(),
                forall|t: int, j: int, i: int| #![trigger processes@[t], view_violation(ops, g, j, i)]
                    0 <= t < k && ops[j].process == processes@[t] ==> !view_violation(ops, g, j, i),
            decreases processes@.len() - k,
        {
            match self.verify_process_view(history, &g, processes[k]) {
                Err(ce) => {
                    let r = CheckResult::fail(ce).with_duration(elapsed(&start));
                    proof {
                        assert(causal_outcome(ops, g, r));
                    }
                    return r;
                },
                Ok(()) => {},
            }
            k = k + 1;
        }
        let mut stats = CheckStats::new();
        stats.num_operations = history.len();
        let r = CheckResult::pass().with_duration(elapsed(&start)).with_stats(stats);
        proof {
            assert forall|j: int, i: int| !#[trigger] view_violation(ops, g, j, i) by {
                if view_violation(ops, g, j, i) {
                    assert(processes@.contains(ops[j].process));
                    let t = choose|t: int| 0 <= t < processes@.len() && processes@[t] == ops[j].process;
                    assert(processes@[t] == ops[j].process);
                }
            }
            assert(causal_outcome(ops, g, r));
        }
        r
    }
}

/// A set closed under edges contains every node of a path that starts in it.
proof fn lemma_closed_path(e: Seq<Vec<bool>>, vis: Seq<bool>, s: Seq<int>)
    requires
        is_path(e, s),
        vis.len() == e.len(),
        vis[s[0]],
        forall|v: int, w: int| #![trigger vis[v], e[v]@[w]] 0 <= v < e.len() && 0 <= w < e.len() && vis[v] && e[v]@[w] ==> vis[w],
    ensures
        vis[s.last()],
    decreases s.len(),
{
    if s.len() > 2 {
        let t = s.drop_last();
        assert(is_path(e, t)) by {
            assert forall|i: int| 0 <= i < t.len() - 1 implies #[trigger] e[t[i]]@[t[i + 1]] by {
                assert(t[i] == s[i] && t[i + 1] == s[i + 1]);
            }
        }
        lemma_closed_path(e, vis, t);
        let i = s.len() - 2;
        assert(e[s[i]]@[s[i + 1]]);
        assert(vis[s[i]]);
    } else {
        let i = 0int;
        assert(e[s[i]]@[s[i + 1]]);
    }
}

} // verus!
