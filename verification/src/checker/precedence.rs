//! Ordering constraints between recorded operations: real-time order from
//! logical timestamps and program order within each process.
use vstd::prelude::*;
use crate::operation::Operation;

verus! {

/// Program-order key comparison: by timestamp, then by position in the history.
pub open spec fn po_less<V>(ops: Seq<Operation<V>>, a: int, b: int) -> bool {
    ops[a].ovc.ts() < ops[b].ovc.ts() || (ops[a].ovc.ts() == ops[b].ovc.ts() && a < b)
}

/// `j` and `i` belong to the same process.
pub open spec fn same_process<V>(ops: Seq<Operation<V>>, j: int, i: int) -> bool {
    ops[j].process == ops[i].process
}

/// `j` comes before `i` in `i`'s process, by program-order key.
pub open spec fn po_candidate<V>(ops: Seq<Operation<V>>, j: int, i: int) -> bool {
    0 <= j < ops.len() && same_process(ops, j, i) && po_less(ops, j, i)
}

/// `j` immediately precedes `i` in the program order of their process
/// (operations of a process sorted by timestamp, ties kept in history order).
pub open spec fn program_prev<V>(ops: Seq<Operation<V>>, j: int, i: int) -> bool {
    &&& 0 <= i < ops.len()
    &&& po_candidate(ops, j, i)
    &&& !exists|k: int| #[trigger] po_candidate(ops, k, i) && po_less(ops, j, k)
}

/// Operation `j` must be ordered before operation `i`: its logical timestamp
/// is earlier, or it immediately precedes `i` in program order.
pub open spec fn must_precede<V>(ops: Seq<Operation<V>>, j: int, i: int) -> bool {
    j != i && (ops[j].ovc.before(ops[i].ovc) || program_prev(ops, j, i))
}

/// The program-order predecessor of each operation.
pub fn program_predecessor<V>(ops: &Vec<Operation<V>>, i: usize) -> (r: Option<usize>)
    requires
        i < ops@.len(),
    ensures
        match r {
            Some(j) => program_prev(ops@, j as int, i as int),
            None => forall|j: int| !program_prev(ops@, j, i as int),
        },
{
    let n = ops.len();
    let mut best: Option<usize> = None;
    let mut k: usize = 0;
    while k < n
        invariant
            n == ops@.len(),
            i < n,
            k <= n,
            match best {
                Some(b) => b < k && po_candidate(ops@, b as int, i as int)
                    && forall|q: int| 0 <= q < k && #[trigger] po_candidate(ops@, q, i as int) ==> q == b || po_less(ops@, q, b as int),
                None => forall|q: int| 0 <= q < k ==> !#[trigger] po_candidate(ops@, q, i as int),
            },
        decreases n - k,
    {
        let same = ops[k].process.0 == ops[i].process.0;
        let tk = ops[k].ovc.timestamp();
        let ti = ops[i].ovc.timestamp();
        let less = tk < ti || (tk == ti && k < i);
        if same && less {
            match best {
                Some(b) => {
                    let tb = ops[b].ovc.timestamp();
                    if tb < tk || (tb == tk && b < k) {
                        best = Some(k);
                    }
                },
                None => {
                    best = Some(k);
                },
            }
        }
        k = k + 1;
    }
    proof {
        match best {
            Some(b) => {
                assert forall|q: int| #[trigger] po_candidate(ops@, q, i as int) implies !po_less(ops@, b as int, q) by {
                    if po_less(ops@, b as int, q) {
                        assert(q == b || po_less(ops@, q, b as int));
                    }
                }
            },
            None => {
                assert forall|j: int| !program_prev(ops@, j, i as int) by {
                    if program_prev(ops@, j, i as int) {
                        assert(po_candidate(ops@, j, i as int));
                    }
                }
            },
        }
    }
    best
}

/// The full precedence matrix: `m[j][i]` holds when `j` must precede `i`.
pub fn precedence_matrix<V>(ops: &Vec<Operation<V>>) -> (m: Vec<Vec<bool>>)
    ensures
        m@.len() == ops@.len(),
        forall|j: int| 0 <= j < m@.len() ==> (#[trigger] m@[j])@.len() == ops@.len(),
        forall|j: int, i: int| 0 <= j < ops@.len() && 0 <= i < ops@.len() ==>
            (#[trigger] m@[j]@[i] <==> must_precede(ops@, j, i)),
{
    let n = ops.len();
    let mut prev: Vec<Option<usize>> = Vec::new();
    let mut i: usize = 0;
    while i < n
        invariant
            n == ops@.len(),
            i <= n,
            prev@.len() == i,
            forall|q: int| 0 <= q < i ==> match #[trigger] prev@[q] {
                Some(j) => program_prev(ops@, j as int, q),
                None => forall|j: int| !program_prev(ops@, j, q),
            },
        decreases n - i,
    {
        prev.push(program_predecessor(ops, i));
        i = i + 1;
    }
    let mut m: Vec<Vec<bool>> = Vec::new();
    let mut j: usize = 0;
    while j < n
        invariant
            n == ops@.len(),
            prev@.len() == n,
            forall|q: int| 0 <= q < n ==> match #[trigger] prev@[q] {
                Some(p) => program_prev(ops@, p as int, q),
                None => forall|p: int| !program_prev(ops@, p, q),
            },
            j <= n,
            m@.len() == j,
            forall|a: int| 0 <= a < j ==> (#[trigger] m@[a])@.len() == n,
            forall|a: int, b: int| 0 <= a < j && 0 <= b < n ==> (#[trigger] m@[a]@[b] <==> must_precede(ops@, a, b)),
        decreases n - j,
    {
        let mut row: Vec<bool> = Vec::new();
        let mut i2: usize = 0;
        while i2 < n
            invariant
                n == ops@.len(),
                prev@.len() == n,
                forall|q: int| 0 <= q < n ==> match #[trigger] prev@[q] {
                    Some(p) => program_prev(ops@, p as int, q),
                    None => forall|p: int| !program_prev(ops@, p, q),
                },
                j < n,
                i2 <= n,
                row@.len() == i2,
                forall|b: int| 0 <= b < i2 ==> (#[trigger] row@[b] <==> must_precede(ops@, j as int, b)),
            decreases n - i2,
        {
            let is_prev = match prev[i2] {
                Some(p) => p == j,
                None => false,
            };
            let before = ops[j].ovc.happens_before(&ops[i2].ovc);
            proof {
                match prev@[i2 as int] {
                    Some(p) => {
                        if program_prev(ops@, j as int, i2 as int) && p != j {
                            // two immediate predecessors cannot differ
                            let a = j as int;
                            let b = p as int;
                            assert(po_candidate(ops@, a, i2 as int) && po_candidate(ops@, b, i2 as int));
                            if po_less(ops@, a, b) {
                                assert(!po_less(ops@, a, b));
                            } else {
                                assert(po_less(ops@, b, a));
                            }
                        }
                    },
                    None => {},
                }
            }
            row.push(j != i2 && (before || is_prev));
            i2 = i2 + 1;
        }
        m.push(row);
        j = j + 1;
    }
    m
}

} // verus!

verus! {

/// The program-order matrix: `m[j][i]` holds when `j` immediately precedes
/// `i` in their process.
pub fn program_order_matrix<V>(ops: &Vec<Operation<V>>) -> (m: Vec<Vec<bool>>)
    ensures
        m@.len() == ops@.len(),
        forall|j: int| 0 <= j < m@.len() ==> (#[trigger] m@[j])@.len() == ops@.len(),
        forall|j: int, i: int| 0 <= j < ops@.len() && 0 <= i < ops@.len() ==>
            (#[trigger] m@[j]@[i] <==> program_prev(ops@, j, i)),
{
    let n = ops.len();
    let mut m: Vec<Vec<bool>> = Vec::new();
    let mut j: usize = 0;
    while j < n
        invariant
            n == ops@.len(),
            j <= n,
            m@.len() == j,
            forall|a: int| 0 <= a < j ==> (#[trigger] m@[a])@.len() == n,
            forall|a: int, b: int| 0 <= a < j && 0 <= b < n ==> (#[trigger] m@[a]@[b] <==> program_prev(ops@, a, b)),
        decreases n - j,
    {
        let mut row: Vec<bool> = Vec::new();
        let mut i: usize = 0;
        while i < n
            invariant
                n == ops@.len(),
                j < n,
                i <= n,
                row@.len() == i,
                forall|b: int| 0 <= b < i ==> (#[trigger] row@[b] <==> program_prev(ops@, j as int, b)),
            decreases n - i,
        {
            let prev = program_predecessor(ops, i);
            let is_prev = match prev {
                Some(p) => p == j,
                None => false,
            };
            proof {
                match prev {
                    Some(p) => {
                        if program_prev(ops@, j as int, i as int) && p != j {
                            let a = j as int;
                            let b = p as int;
                            assert(po_candidate(ops@, a, i as int) && po_candidate(ops@, b, i as int));
                            if po_less(ops@, a, b) {
                                assert(!po_less(ops@, a, b));
                            } else {
                                assert(po_less(ops@, b, a));
                            }
                        }
                    },
                    None => {},
                }
            }
            row.push(is_prev);
            i = i + 1;
        }
        m.push(row);
        j = j + 1;
    }
    m
}

} // verus!
