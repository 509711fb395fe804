//! Backtracking search for an order of a history's operations that respects
//! given ordering constraints and that a sequential model accepts.
use vstd::prelude::*;
use std::time::Instant;
use crate::operation::Operation;
use super::model::{Model, OperationExtractor};
use crate::clock::deadline_passed;

verus! {

/// Whether the model accepts operation `op` in state `s`: it may execute it,
/// and the recorded outcome agrees with the model's expected result.
pub open spec fn step_ok<M: Model, V, E: OperationExtractor<V, ModelOp = M::Op>>(m: M, e: E, op: Operation<V>, s: M::State) -> bool {
    m.can_execute_spec(s, e.extract_spec(op)) && e.validate_spec(op, m.step_spec(s, e.extract_spec(op)).1)
}

/// The model state after executing the operations of `order` from `s`, or
/// None when the model rejects one of them.
pub open spec fn replay<M: Model, V, E: OperationExtractor<V, ModelOp = M::Op>>(
    m: M, e: E, ops: Seq<Operation<V>>, s: M::State, order: Seq<usize>,
) -> Option<M::State>
    decreases order.len(),
{
    if order.len() == 0 {
        Some(s)
    } else {
        match replay(m, e, ops, s, order.drop_last()) {
            Some(t) => {
                let op = ops[order.last() as int];
                if step_ok(m, e, op, t) {
                    Some(m.step_spec(t, e.extract_spec(op)).0)
                } else {
                    None
                }
            },
            None => None,
        }
    }
}

/// `order` lists every operation index exactly once.
pub open spec fn is_permutation(order: Seq<usize>, n: nat) -> bool {
    &&& order.len() == n
    &&& order.no_duplicates()
    &&& forall|i: int| 0 <= i < order.len() ==> #[trigger] order[i] < n
}

/// No operation is placed after one that must precede it... stated as: no
/// later element must precede an earlier one.
pub open spec fn respects(pred: spec_fn(int, int) -> bool, order: Seq<usize>) -> bool {
    forall|a: int, b: int| 0 <= a < b < order.len() ==> !pred(#[trigger] order[b] as int, #[trigger] order[a] as int)
}

/// A valid order: a permutation of all operations that respects the
/// constraints and that the model accepts from its initial state.
pub open spec fn valid_order<M: Model, V, E: OperationExtractor<V, ModelOp = M::Op>>(
    m: M, e: E, ops: Seq<Operation<V>>, pred: spec_fn(int, int) -> bool, order: Seq<usize>,
) -> bool {
    &&& is_permutation(order, ops.len())
    &&& respects(pred, order)
    &&& replay(m, e, ops, m.init_spec(), order) is Some
}

/// Some valid order exists.
pub open spec fn orderable<M: Model, V, E: OperationExtractor<V, ModelOp = M::Op>>(
    m: M, e: E, ops: Seq<Operation<V>>, pred: spec_fn(int, int) -> bool,
) -> bool {
    exists|order: Seq<usize>| valid_order(m, e, ops, pred, order)
}

/// Whether operation `x` may come next after `pre`: it is not placed yet
/// and every operation that must precede it is.
pub open spec fn may_follow(p: spec_fn(int, int) -> bool, pre: Seq<usize>, x: int) -> bool {
    &&& !pre.contains(x as usize)
    &&& forall|j: int| #[trigger] p(j, x) ==> pre.contains(j as usize)
}

/// The operations below `k` that may come next after `pre`, in increasing
/// order: the candidates the search tries, in the order it tries them.
pub open spec fn candidates_below(p: spec_fn(int, int) -> bool, pre: Seq<usize>, k: nat) -> Seq<usize>
    decreases k,
{
    if k == 0 {
        Seq::empty()
    } else {
        let s = candidates_below(p, pre, (k - 1) as nat);
        if may_follow(p, pre, k - 1) { s.push((k - 1) as usize) } else { s }
    }
}

/// The number of states of the complete search tree below the prefix
/// `pre`, reached in model state `s`: the prefix itself, and the trees below
/// each candidate that the model accepts next.
pub open spec fn search_tree_size<M: Model, V, E: OperationExtractor<V, ModelOp = M::Op>>(
    m: M, e: E, ops: Seq<Operation<V>>, p: spec_fn(int, int) -> bool, pre: Seq<usize>, s: M::State,
) -> nat
    decreases ops.len() - pre.len() + 1, 0int,
{
    if pre.len() >= ops.len() {
        1
    } else {
        1 + subtree_sizes(m, e, ops, p, pre, s, candidates_below(p, pre, ops.len()))
    }
}

/// The numbers of states of the search trees below `pre` followed by each
/// of `cs` that the model accepts, added up.
pub open spec fn subtree_sizes<M: Model, V, E: OperationExtractor<V, ModelOp = M::Op>>(
    m: M, e: E, ops: Seq<Operation<V>>, p: spec_fn(int, int) -> bool, pre: Seq<usize>, s: M::State, cs: Seq<usize>,
) -> nat
    decreases ops.len() - pre.len(), cs.len(),
{
    if cs.len() == 0 || pre.len() >= ops.len() {
        0
    } else {
        let c = cs.last();
        let op = ops[c as int];
        subtree_sizes(m, e, ops, p, pre, s, cs.drop_last())
            + if step_ok(m, e, op, s) {
                search_tree_size(m, e, ops, p, pre.push(c), m.step_spec(s, e.extract_spec(op)).0)
            } else {
                0
            }
    }
}

/// The subtrees of a prefix of the candidates add up to no more than those
/// of all of them.
proof fn lemma_subtree_sizes_prefix<M: Model, V, E: OperationExtractor<V, ModelOp = M::Op>>(
    m: M, e: E, ops: Seq<Operation<V>>, p: spec_fn(int, int) -> bool, pre: Seq<usize>, s: M::State, cs: Seq<usize>, k: int,
)
    requires
        0 <= k <= cs.len(),
    ensures
        subtree_sizes(m, e, ops, p, pre, s, cs.take(k)) <= subtree_sizes(m, e, ops, p, pre, s, cs),
    decreases cs.len(),
{
    if k < cs.len() {
        assert(cs.drop_last().take(k) =~= cs.take(k));
        lemma_subtree_sizes_prefix(m, e, ops, p, pre, s, cs.drop_last(), k);
    } else {
        assert(cs.take(k) =~= cs);
    }
}

/// The candidates computed from the precedence matrix and the placed flags
/// are those of the constraints and the prefix.
proof fn lemma_candidates_match(
    p: spec_fn(int, int) -> bool, pred: Seq<Vec<bool>>, done: Seq<bool>, pre: Seq<usize>, c: Seq<usize>, k: nat,
)
    requires
        k <= done.len(),
        pred.len() == done.len(),
        forall|j: int| 0 <= j < pred.len() ==> (#[trigger] pred[j])@.len() == done.len(),
        forall|j: int, i: int| 0 <= j < done.len() && 0 <= i < done.len() ==> (#[trigger] pred[j]@[i] <==> p(j, i)),
        forall|j: int, i: int| #[trigger] p(j, i) ==> 0 <= j < done.len() && 0 <= i < done.len(),
        forall|x: int| 0 <= x < done.len() ==> (done[x] <==> pre.contains(x as usize)),
        forall|q: int| 0 <= q < c.len() ==> #[trigger] c[q] < k,
        forall|a: int, b: int| 0 <= a < b < c.len() ==> c[a] < c[b],
        forall|x: usize| c.contains(x) <==> (x < k && !done[x as int]
            && forall|j: int| 0 <= j < done.len() && #[trigger] pred[j]@[x as int] ==> done[j]),
        done.len() <= usize::MAX,
    ensures
        c == candidates_below(p, pre, k),
    decreases k,
{
    if k > 0 {
        let x = (k - 1) as usize;
        let follows = may_follow(p, pre, k - 1);
        let ok = !done[x as int] && forall|j: int| 0 <= j < done.len() && #[trigger] pred[j]@[x as int] ==> done[j];
        assert(follows == ok) by {
            if ok {
                assert forall|j: int| #[trigger] p(j, k - 1) implies pre.contains(j as usize) by {
                    assert(pred[j]@[x as int]);
                }
            }
            if follows {
                assert forall|j: int| 0 <= j < done.len() && #[trigger] pred[j]@[x as int] implies done[j] by {
                    assert(p(j, k - 1));
                }
            }
        }
        let c0 = if ok { c.drop_last() } else { c };
        if ok {
            assert(c.contains(x));
            let q = choose|q: int| 0 <= q < c.len() && c[q] == x;
            if q < c.len() - 1 {
                assert(c[q] < c[c.len() - 1]);
            }
            assert(c.last() == x);
        } else {
            assert(!c.contains(x));
        }
        assert forall|q: int| 0 <= q < c0.len() implies #[trigger] c0[q] < (k - 1) as nat by {
            assert(c0[q] == c[q]);
            if c[q] == x {
                if ok {
                    assert(c[q] < c[c.len() - 1]);
                } else {
                    assert(c.contains(x));
                }
            }
        }
        assert forall|y: usize| c0.contains(y) <==> (y < (k - 1) as nat && !done[y as int]
            && forall|j: int| 0 <= j < done.len() && #[trigger] pred[j]@[y as int] ==> done[j]) by {
            if c0.contains(y) {
                let q = choose|q: int| 0 <= q < c0.len() && c0[q] == y;
                assert(c[q] == y);
                assert(c.contains(y));
            }
            if y < (k - 1) as nat && !done[y as int] && forall|j: int| 0 <= j < done.len() && #[trigger] pred[j]@[y as int] ==> done[j] {
                assert(c.contains(y));
                let q = choose|q: int| 0 <= q < c.len() && c[q] == y;
                if ok && q == c.len() - 1 {
                    assert(false);
                }
                assert(c0[q] == y);
            }
        }
        lemma_candidates_match(p, pred, done, pre, c0, (k - 1) as nat);
        if ok {
            assert(c =~= c0.push(x));
        }
    } else {
        if c.len() > 0 {
            assert(c[0] < 0);
        }
        assert(c =~= Seq::<usize>::empty());
    }
}

/// Outcome of a search.
pub enum SearchOutcome {
    /// A valid order (operation positions).
    Found(Vec<usize>),
    /// No valid order extends the prefix the search started from.
    NotFound(Vec<usize>),
    /// The deadline passed.
    Timeout,
    /// The state budget was exhausted.
    MaxStatesReached,
}

/// Counters of a search.
pub struct SearchCounters {
    /// States explored.
    pub states_explored: u64,
    /// Complete orders reached.
    pub linearizations_tried: u64,
    /// Backtracks.
    pub backtracks: u64,
    /// Candidates pruned by the model.
    pub pruned: u64,
    /// Deepest prefix reached.
    pub max_depth: u64,
}

proof fn lemma_replay_prefix<M: Model, V, E: OperationExtractor<V, ModelOp = M::Op>>(
    m: M, e: E, ops: Seq<Operation<V>>, s: M::State, order: Seq<usize>, k: int,
)
    requires
        0 <= k <= order.len(),
        replay(m, e, ops, s, order) is Some,
    ensures
        replay(m, e, ops, s, order.take(k)) is Some,
    decreases order.len(),
{
    if k < order.len() {
        assert(order.drop_last().take(k) =~= order.take(k));
        lemma_replay_prefix(m, e, ops, s, order.drop_last(), k);
    } else {
        assert(order.take(k) =~= order);
    }
}

/// A duplicate-free sequence of n indices below n contains every index below n.
pub(crate) proof fn lemma_covers(s: Seq<usize>, n: nat)
    requires
        s.len() == n,
        s.no_duplicates(),
        forall|i: int| 0 <= i < s.len() ==> #[trigger] s[i] < n,
    ensures
        forall|k: usize| k < n ==> s.contains(k),
    decreases n,
{
    if n > 0 {
        let top = (n - 1) as usize;
        if s.contains(top) {
            let j = choose|j: int| 0 <= j < s.len() && s[j] == top;
            let t = s.remove(j);
            assert forall|i: int| 0 <= i < t.len() implies #[trigger] t[i] < (n - 1) as nat by {
                if i < j {
                    assert(t[i] == s[i]);
                    assert(s[i] != s[j]);
                } else {
                    assert(t[i] == s[i + 1]);
                    assert(s[i + 1] != s[j]);
                }
            }
            assert(t.no_duplicates()) by {
                assert forall|a: int, b: int| 0 <= a < t.len() && 0 <= b < t.len() && a != b implies t[a] != t[b] by {
                    let sa = if a < j { a } else { a + 1 };
                    let sb = if b < j { b } else { b + 1 };
                    assert(t[a] == s[sa] && t[b] == s[sb]);
                }
            }
            lemma_covers(t, (n - 1) as nat);
            assert forall|k: usize| k < n implies s.contains(k) by {
                if k < n - 1 {
                    assert(t.contains(k));
                    let q = choose|q: int| 0 <= q < t.len() && t[q] == k;
                    if q < j {
                        assert(s[q] == k);
                    } else {
                        assert(s[q + 1] == k);
                    }
                }
            }
        } else {
            let t = s.drop_last();
            assert forall|i: int| 0 <= i < t.len() implies #[trigger] t[i] < (n - 1) as nat by {
                assert(t[i] == s[i]);
                assert(s[i] != top);
            }
            assert(t.no_duplicates());
            lemma_covers(t, (n - 1) as nat);
            let last = s.last();
            assert(last != top);
            assert(last < n - 1);
            assert(t.contains(last));
            let q = choose|q: int| 0 <= q < t.len() && t[q] == last;
            assert(s[q] == s[s.len() - 1]);
        }
    }
}

/// The indices that may come next: not yet placed, with every required
/// predecessor already placed; in increasing order.
pub fn next_candidates(pred: &Vec<Vec<bool>>, done: &Vec<bool>) -> (c: Vec<usize>)
    requires
        pred@.len() == done@.len(),
        forall|j: int| 0 <= j < pred@.len() ==> (#[trigger] pred@[j])@.len() == done@.len(),
    ensures
        forall|q: int| 0 <= q < c@.len() ==> #[trigger] c@[q] < done@.len(),
        forall|a: int, b: int| 0 <= a < b < c@.len() ==> c@[a] < c@[b],
        forall|x: usize| c@.contains(x) <==> (x < done@.len() && !done@[x as int]
            && forall|j: int| 0 <= j < done@.len() && #[trigger] pred@[j]@[x as int] ==> done@[j]),
{
    let n = done.len();
    let mut c: Vec<usize> = Vec::new();
    let mut x: usize = 0;
    while x < n
        invariant
            n == done@.len(),
            pred@.len() == n,
            forall|j: int| 0 <= j < n ==> (#[trigger] pred@[j])@.len() == n,
            x <= n,
            forall|q: int| 0 <= q < c@.len() ==> #[trigger] c@[q] < x,
            forall|a: int, b: int| 0 <= a < b < c@.len() ==> c@[a] < c@[b],
            forall|y: usize| c@.contains(y) <==> (y < x && !done@[y as int]
                && forall|j: int| 0 <= j < n && #[trigger] pred@[j]@[y as int] ==> done@[j]),
        decreases n - x,
    {
        let mut ok = !done[x];
        let mut j: usize = 0;
        while j < n
            invariant
                n == done@.len(),
                pred@.len() == n,
                forall|q: int| 0 <= q < n ==> (#[trigger] pred@[q])@.len() == n,
                x < n,
                j <= n,
                ok <==> (!done@[x as int] && forall|q: int| 0 <= q < j && #[trigger] pred@[q]@[x as int] ==> done@[q]),
            decreases n - j,
        {
            if pred[j][x] && !done[j] {
                ok = false;
            }
            j = j + 1;
        }
        let ghost before = c@;
        if ok {
            c.push(x);
        }
        proof {
            assert forall|y: usize| c@.contains(y) <==> (y < x + 1 && !done@[y as int]
                && forall|q: int| 0 <= q < n && #[trigger] pred@[q]@[y as int] ==> done@[q]) by {
                if c@.contains(y) {
                    let q = choose|q: int| 0 <= q < c@.len() && c@[q] == y;
                    if q < before.len() {
                        assert(before.contains(y));
                    }
                }
                if y < x + 1 && !done@[y as int] && forall|q: int| 0 <= q < n && #[trigger] pred@[q]@[y as int] ==> done@[q] {
                    if y < x {
                        assert(before.contains(y));
                        let q = choose|q: int| 0 <= q < before.len() && before[q] == y;
                        assert(c@[q] == y);
                    } else {
                        assert(c@[c@.len() - 1] == y);
                    }
                }
            }
        }
        x = x + 1;
    }
    c
}

/// Depth-first search for a valid order extending `prefix`, from the model
/// state `state` reached by replaying `prefix`. On return, `prefix` and
/// `done` hold their values at the call. A NotFound outcome means that no
/// valid order starts with `prefix`. With no deadline and a state budget
/// that covers the search tree below `prefix` (`search_tree_size`), the
/// search finishes, counting no more states than that tree has.
pub fn backtrack<M: Model, V, E: OperationExtractor<V, ModelOp = M::Op>>(
    model: &M,
    extractor: &E,
    ops: &Vec<Operation<V>>,
    mops: &Vec<M::Op>,
    pred: &Vec<Vec<bool>>,
    Ghost(p): Ghost<spec_fn(int, int) -> bool>,
    state: M::State,
    prefix: &mut Vec<usize>,
    done: &mut Vec<bool>,
    deadline: &Option<Instant>,
    max_states: Option<u64>,
    counters: &mut SearchCounters,
) -> (r: SearchOutcome)
    requires
        mops@.len() == ops@.len(),
        forall|i: int| 0 <= i < ops@.len() ==> mops@[i] == extractor.extract_spec(#[trigger] ops@[i]),
        pred@.len() == ops@.len(),
        forall|j: int| 0 <= j < pred@.len() ==> (#[trigger] pred@[j])@.len() == ops@.len(),
        forall|j: int, i: int| 0 <= j < ops@.len() && 0 <= i < ops@.len() ==> (#[trigger] pred@[j]@[i] <==> p(j, i)),
        forall|j: int, i: int| #[trigger] p(j, i) ==> j != i && 0 <= j < ops@.len() && 0 <= i < ops@.len(),
        old(done)@.len() == ops@.len(),
        old(prefix)@.len() <= ops@.len(),
        old(prefix)@.no_duplicates(),
        forall|i: int| 0 <= i < old(prefix)@.len() ==> #[trigger] old(prefix)@[i] < ops@.len(),
        forall|x: int| 0 <= x < ops@.len() ==> (old(done)@[x] <==> old(prefix)@.contains(x as usize)),
        respects(p, old(prefix)@),
        forall|a: int, j: int| 0 <= a < old(prefix)@.len() && #[trigger] p(j, old(prefix)@[a] as int) ==>
            exists|b: int| 0 <= b < a && old(prefix)@[b] == j,
        replay(*model, *extractor, ops@, model.init_spec(), old(prefix)@) == Some(state),
    ensures
        final(prefix)@ == old(prefix)@,
        final(done)@ == old(done)@,
        match r {
            SearchOutcome::Found(order) => valid_order(*model, *extractor, ops@, p, order@),
            SearchOutcome::NotFound(partial) => partial@ == old(prefix)@
                && forall|order: Seq<usize>| #[trigger] valid_order(*model, *extractor, ops@, p, order)
                    ==> order.take(old(prefix)@.len() as int) != old(prefix)@,
            _ => true,
        },
        deadline is None && max_states is None ==> (r is Found || r is NotFound),
        deadline is None && max_states is Some && old(counters).states_explored
            + search_tree_size(*model, *extractor, ops@, p, old(prefix)@, state) <= max_states.unwrap()
            ==> (r is Found || r is NotFound) && final(counters).states_explored
                <= old(counters).states_explored + search_tree_size(*model, *extractor, ops@, p, old(prefix)@, state),
        final(counters).max_depth <= old(counters).max_depth || final(counters).max_depth <= ops@.len(),
    decreases ops@.len() - prefix@.len(),
{
    let ghost m = *model;
    let ghost e = *extractor;
    let ghost pre = prefix@;
    let ghost c0 = counters.states_explored as int;
    let ghost tree = search_tree_size(m, e, ops@, p, pre, state);
    let ghost budget_ok = deadline is None && max_states is Some && c0 + tree <= max_states.unwrap();
    let n = ops.len();
    if let Some(d) = deadline {
        if deadline_passed(d) {
            return SearchOutcome::Timeout;
        }
    }
    if let Some(max) = max_states {
        if counters.states_explored >= max {
            return SearchOutcome::MaxStatesReached;
        }
    }
    counters.states_explored = counters.states_explored.wrapping_add(1);
    assert(budget_ok ==> counters.states_explored == c0 + 1);
    let depth = prefix.len() as u64;
    if depth > counters.max_depth {
        counters.max_depth = depth;
    }
    if prefix.len() == n {
        counters.linearizations_tried = counters.linearizations_tried.wrapping_add(1);
        let mut order: Vec<usize> = Vec::new();
        let mut i: usize = 0;
        while i < n
            invariant
                n == prefix@.len(),
                i <= n,
                order@ == prefix@.take(i as int),
            decreases n - i,
        {
            order.push(prefix[i]);
            i = i + 1;
            assert(order@ =~= prefix@.take(i as int));
        }
        assert(order@ =~= prefix@);
        return SearchOutcome::Found(order);
    }
    let candidates = next_candidates(pred, done);
    proof {
        lemma_candidates_match(p, pred@, done@, pre, candidates@, n as nat);
        assert(tree == 1 + subtree_sizes(m, e, ops@, p, pre, state, candidates@));
    }
    if candidates.len() == 0 {
        counters.backtracks = counters.backtracks.wrapping_add(1);
        proof { lemma_no_candidate(m, e, ops@, p, pred@, done@, pre, candidates@); }
        let mut partial: Vec<usize> = Vec::new();
        let k = prefix.len();
        let mut i: usize = 0;
        while i < k
            invariant
                k == prefix@.len(),
                i <= k,
                partial@ == prefix@.take(i as int),
            decreases k - i,
        {
            partial.push(prefix[i]);
            i = i + 1;
            assert(partial@ =~= prefix@.take(i as int));
        }
        assert(partial@ =~= prefix@);
        return SearchOutcome::NotFound(partial);
    }
    let nc = candidates.len();
    let mut ci: usize = 0;
    while ci < nc
        invariant
            n == ops@.len(),
            nc == candidates@.len(),
            ci <= nc,
            done@.len() == n,
            m == *model,
            e == *extractor,
            prefix@ == pre,
            pre == old(prefix)@,
            done@ == old(done)@,
            pre.len() < n,
            mops@.len() == ops@.len(),
            forall|i: int| 0 <= i < ops@.len() ==> mops@[i] == e.extract_spec(#[trigger] ops@[i]),
            pred@.len() == ops@.len(),
            forall|j: int| 0 <= j < pred@.len() ==> (#[trigger] pred@[j])@.len() == ops@.len(),
            forall|j: int, i: int| 0 <= j < ops@.len() && 0 <= i < ops@.len() ==> (#[trigger] pred@[j]@[i] <==> p(j, i)),
            forall|j: int, i: int| #[trigger] p(j, i) ==> j != i && 0 <= j < ops@.len() && 0 <= i < ops@.len(),
            pre.no_duplicates(),
            forall|i: int| 0 <= i < pre.len() ==> #[trigger] pre[i] < ops@.len(),
            forall|x: int| 0 <= x < ops@.len() ==> (done@[x] <==> pre.contains(x as usize)),
            respects(p, pre),
            forall|a: int, j: int| 0 <= a < pre.len() && #[trigger] p(j, pre[a] as int) ==>
                exists|b: int| 0 <= b < a && pre[b] == j,
            replay(m, e, ops@, m.init_spec(), pre) == Some(state),
            candidates@ == candidates_below(p, pre, n as nat),
            tree == 1 + subtree_sizes(m, e, ops@, p, pre, state, candidates@),
            budget_ok == (deadline is None && max_states is Some && c0 + tree <= max_states.unwrap()),
            c0 == old(counters).states_explored,
            counters.max_depth <= old(counters).max_depth || counters.max_depth <= n,
            tree == search_tree_size(m, e, ops@, p, pre, state),
            budget_ok ==> counters.states_explored <= c0 + 1 + subtree_sizes(m, e, ops@, p, pre, state, candidates@.take(ci as int)),
            forall|q: int| 0 <= q < candidates@.len() ==> #[trigger] candidates@[q] < done@.len(),
            forall|x: usize| candidates@.contains(x) <==> (x < done@.len() && !done@[x as int]
                && forall|j: int| 0 <= j < done@.len() && #[trigger] pred@[j]@[x as int] ==> done@[j]),
            forall|order: Seq<usize>| #[trigger] valid_order(m, e, ops@, p, order) && order.take(pre.len() as int) == pre
                ==> !(exists|q: int| 0 <= q < ci && order[pre.len() as int] == candidates@[q]),
        decreases nc - ci,
    {
        let c = candidates[ci];
        let model_op = &mops[c];
        proof {
            let t1 = candidates@.take(ci as int + 1);
            assert(t1.drop_last() =~= candidates@.take(ci as int));
            assert(t1.last() == c);
            lemma_subtree_sizes_prefix(m, e, ops@, p, pre, state, candidates@, ci as int + 1);
        }
        if !model.can_execute(&state, model_op) {
            counters.pruned = counters.pruned.wrapping_add(1);
            proof { lemma_rejected_candidate(m, e, ops@, p, pre, state, c); }
        } else {
            let (new_state, expected) = model.step(&state, model_op);
            if !extractor.validate(&ops[c], &expected) {
                counters.pruned = counters.pruned.wrapping_add(1);
                proof { lemma_rejected_candidate(m, e, ops@, p, pre, state, c); }
            } else {
                proof {
                    assert(candidates@.contains(c)) by { assert(candidates@[ci as int] == c); }
                    assert(!done@[c as int]);
                }
                prefix.push(c);
                done.set(c, true);
                proof {
                    assert(prefix@.len() == pre.len() + 1);
                    assert(prefix@.drop_last() =~= pre);
                    assert(prefix@.no_duplicates()) by {
                        assert(!pre.contains(c));
                    }
                    assert forall|x: int| 0 <= x < ops@.len() implies (done@[x] <==> prefix@.contains(x as usize)) by {
                        if x == c {
                            assert(prefix@[pre.len() as int] == c);
                        } else {
                            if pre.contains(x as usize) {
                                let q = choose|q: int| 0 <= q < pre.len() && pre[q] == x as usize;
                                assert(prefix@[q] == x as usize);
                            }
                            if prefix@.contains(x as usize) {
                                let q = choose|q: int| 0 <= q < prefix@.len() && prefix@[q] == x as usize;
                                assert(pre[q] == x as usize);
                            }
                        }
                    }
                    assert(respects(p, prefix@)) by {
                        assert forall|a: int, b: int| 0 <= a < b < prefix@.len() implies !p(#[trigger] prefix@[b] as int, #[trigger] prefix@[a] as int) by {
                            if b < pre.len() {
                                assert(prefix@[a] == pre[a] && prefix@[b] == pre[b]);
                            } else {
                                assert(prefix@[b] == c);
                                assert(prefix@[a] == pre[a]);
                                if p(c as int, pre[a] as int) {
                                    let q = choose|q: int| 0 <= q < a && pre[q] == c;
                                    assert(pre.contains(c));
                                }
                            }
                        }
                    }
                    assert forall|a: int, j: int| 0 <= a < prefix@.len() && #[trigger] p(j, prefix@[a] as int) implies
                        exists|b: int| 0 <= b < a && prefix@[b] == j by {
                        if a < pre.len() {
                            assert(prefix@[a] == pre[a]);
                            let b = choose|b: int| 0 <= b < a && pre[b] == j;
                            assert(prefix@[b] == j);
                        } else {
                            assert(prefix@[a] == c);
                            assert(pred@[j]@[c as int]);
                            assert(done@[j] || j == c);
                            assert(old(done)@[j]);
                            assert(pre.contains(j as usize));
                            let b = choose|b: int| 0 <= b < pre.len() && pre[b] == j as usize;
                            assert(prefix@[b] == j);
                        }
                    }
                    assert(replay(m, e, ops@, m.init_spec(), prefix@) == Some(new_state));
                }
                let ghost cur = counters.states_explored as int;
                proof {
                    let t1 = candidates@.take(ci as int + 1);
                    assert(subtree_sizes(m, e, ops@, p, pre, state, t1) == subtree_sizes(m, e, ops@, p, pre, state, candidates@.take(ci as int))
                        + search_tree_size(m, e, ops@, p, prefix@, new_state));
                    assert(budget_ok ==> cur + search_tree_size(m, e, ops@, p, prefix@, new_state) <= max_states.unwrap());
                }
                let result = backtrack(model, extractor, ops, mops, pred, Ghost(p), new_state, prefix, done, deadline, max_states, counters);
                assert(budget_ok ==> counters.states_explored <= c0 + 1 + subtree_sizes(m, e, ops@, p, pre, state, candidates@.take(ci as int + 1)));
                prefix.pop();
                done.set(c, false);
                proof {
                    assert(prefix@ =~= pre);
                    assert(done@ =~= old(done)@);
                }
                match result {
                    SearchOutcome::NotFound(_) => {
                        counters.backtracks = counters.backtracks.wrapping_add(1);
                        proof {
                            assert forall|order: Seq<usize>| #[trigger] valid_order(m, e, ops@, p, order) && order.take(pre.len() as int) == pre
                                implies order[pre.len() as int] != c by {
                                if order[pre.len() as int] == c {
                                    assert(order.take(pre.len() as int + 1) =~= pre.push(c));
                                }
                            }
                        }
                    },
                    _ => {
                        assert(budget_ok ==> counters.states_explored <= c0 + tree);
                        return result;
                    },
                }
            }
        }
        ci = ci + 1;
    }
    proof {
        assert(candidates@.take(nc as int) =~= candidates@);
        assert forall|order: Seq<usize>| #[trigger] valid_order(m, e, ops@, p, order)
            implies order.take(pre.len() as int) != pre by {
            if order.take(pre.len() as int) == pre {
                lemma_next_is_candidate(m, e, ops@, p, pred@, done@, pre, order);
                let x = order[pre.len() as int];
                assert(candidates@.contains(x));
                let q = choose|q: int| 0 <= q < candidates@.len() && candidates@[q] == x;
            }
        }
    }
    let mut partial: Vec<usize> = Vec::new();
    let k = prefix.len();
    let mut i: usize = 0;
    while i < k
        invariant
            k == prefix@.len(),
            i <= k,
            partial@ == prefix@.take(i as int),
        decreases k - i,
    {
        partial.push(prefix[i]);
        i = i + 1;
        assert(partial@ =~= prefix@.take(i as int));
    }
    assert(partial@ =~= prefix@);
    SearchOutcome::NotFound(partial)
}

/// In a valid order extending `pre`, the next element is a candidate.
proof fn lemma_next_is_candidate<M: Model, V, E: OperationExtractor<V, ModelOp = M::Op>>(
    m: M, e: E, ops: Seq<Operation<V>>, p: spec_fn(int, int) -> bool,
    pred: Seq<Vec<bool>>, done: Seq<bool>, pre: Seq<usize>, order: Seq<usize>,
)
    requires
        valid_order(m, e, ops, p, order),
        order.take(pre.len() as int) == pre,
        pre.len() < ops.len(),
        done.len() == ops.len(),
        pred.len() == ops.len(),
        forall|j: int| 0 <= j < pred.len() ==> (#[trigger] pred[j])@.len() == ops.len(),
        forall|j: int, i: int| 0 <= j < ops.len() && 0 <= i < ops.len() ==> (#[trigger] pred[j]@[i] <==> p(j, i)),
        forall|x: int| 0 <= x < ops.len() ==> (done[x] <==> pre.contains(x as usize)),
        forall|j: int, i: int| #[trigger] p(j, i) ==> j != i,
        ops.len() <= usize::MAX,
    ensures
        order[pre.len() as int] < done.len(),
        !done[order[pre.len() as int] as int],
        forall|j: int| 0 <= j < done.len() && #[trigger] pred[j]@[order[pre.len() as int] as int] ==> done[j],
{
    let k = pre.len() as int;
    let x = order[k];
    assert(x < ops.len());
    if done[x as int] {
        assert(pre.contains(x));
        let q = choose|q: int| 0 <= q < pre.len() && pre[q] == x;
        assert(order[q] == pre[q]);
        assert(order[q] == order[k]);
    }
    lemma_covers(order, ops.len());
    assert forall|j: int| 0 <= j < done.len() && #[trigger] pred[j]@[x as int] implies done[j] by {
        assert(p(j, x as int));
        let ju = j as usize;
        assert(ju < ops.len());
        assert(order.contains(ju));
        let b = choose|b: int| 0 <= b < order.len() && order[b] == ju;
        assert(order[b] == ju);
        assert(ju as int == j);
        assert(order[b] as int == j);
        if b > k {
            assert(!p(order[b] as int, order[k] as int));
        } else if b == k {
            assert(j == x as int);
        } else {
            assert(order[b] == pre[b]);
            assert(pre.contains(j as usize));
        }
    }
}

/// With no candidate, no valid order extends `pre` (which is shorter than the history).
proof fn lemma_no_candidate<M: Model, V, E: OperationExtractor<V, ModelOp = M::Op>>(
    m: M, e: E, ops: Seq<Operation<V>>, p: spec_fn(int, int) -> bool,
    pred: Seq<Vec<bool>>, done: Seq<bool>, pre: Seq<usize>, cands: Seq<usize>,
)
    requires
        pre.len() < ops.len(),
        done.len() == ops.len(),
        pred.len() == ops.len(),
        forall|j: int| 0 <= j < pred.len() ==> (#[trigger] pred[j])@.len() == ops.len(),
        forall|j: int, i: int| 0 <= j < ops.len() && 0 <= i < ops.len() ==> (#[trigger] pred[j]@[i] <==> p(j, i)),
        forall|x: int| 0 <= x < ops.len() ==> (done[x] <==> pre.contains(x as usize)),
        cands.len() == 0,
        forall|j: int, i: int| #[trigger] p(j, i) ==> j != i,
        ops.len() <= usize::MAX,
        forall|x: usize| cands.contains(x) <==> (x < done.len() && !done[x as int]
            && forall|j: int| 0 <= j < done.len() && #[trigger] pred[j]@[x as int] ==> done[j]),
    ensures
        forall|order: Seq<usize>| #[trigger] valid_order(m, e, ops, p, order) ==> order.take(pre.len() as int) != pre,
{
    assert forall|order: Seq<usize>| #[trigger] valid_order(m, e, ops, p, order) implies order.take(pre.len() as int) != pre by {
        if order.take(pre.len() as int) == pre {
            lemma_next_is_candidate(m, e, ops, p, pred, done, pre, order);
            assert(cands.contains(order[pre.len() as int]));
        }
    }
}

/// A candidate the model rejects starts no valid order extending `pre`.
proof fn lemma_rejected_candidate<M: Model, V, E: OperationExtractor<V, ModelOp = M::Op>>(
    m: M, e: E, ops: Seq<Operation<V>>, p: spec_fn(int, int) -> bool, pre: Seq<usize>, state: M::State, c: usize,
)
    requires
        replay(m, e, ops, m.init_spec(), pre) == Some(state),
        pre.len() < ops.len(),
        !step_ok(m, e, ops[c as int], state),
    ensures
        forall|order: Seq<usize>| #[trigger] valid_order(m, e, ops, p, order) && order.take(pre.len() as int) == pre
            ==> order[pre.len() as int] != c,
{
    assert forall|order: Seq<usize>| #[trigger] valid_order(m, e, ops, p, order) && order.take(pre.len() as int) == pre
        implies order[pre.len() as int] != c by {
        if order[pre.len() as int] == c {
            let k = pre.len() as int;
            assert(k < order.len());
            lemma_replay_prefix(m, e, ops, m.init_spec(), order, k + 1);
            assert(order.take(k + 1).drop_last() =~= pre);
            assert(order.take(k + 1).last() == c);
        }
    }
}

} // verus!
