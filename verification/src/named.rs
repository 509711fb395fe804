//! Lists of named values: (name, value) pairs with distinct names, in the
//! order the names were first given.
use vstd::prelude::*;

verus! {

/// The value stored under a name.
pub open spec fn named_value<T>(m: Seq<(String, T)>, k: Seq<char>) -> Option<T> {
    if exists|i: int| 0 <= i < m.len() && (#[trigger] m[i]).0@ == k {
        Some(m[choose|i: int| 0 <= i < m.len() && (#[trigger] m[i]).0@ == k].1)
    } else {
        None
    }
}

/// No name occurs twice.
pub open spec fn distinct_names<T>(m: Seq<(String, T)>) -> bool {
    forall|i: int, j: int| #![trigger m[i], m[j]] 0 <= i < m.len() && 0 <= j < m.len() && i != j ==> m[i].0@ != m[j].0@
}

/// `m2` is `m` with `k` bound to `v`: a new binding at the end, or the old
/// one replaced in place.
pub open spec fn named_updated<T>(m: Seq<(String, T)>, m2: Seq<(String, T)>, k: Seq<char>, v: T) -> bool {
    &&& distinct_names(m2)
    &&& named_value(m2, k) == Some(v)
    &&& forall|q: Seq<char>| q != k ==> #[trigger] named_value(m2, q) == named_value(m, q)
}

/// The position of the entry named `k`.
pub fn find_name<T>(m: &Vec<(String, T)>, k: &String) -> (r: Option<usize>)
    ensures
        match r {
            Some(i) => i < m@.len() && m@[i as int].0@ == k@,
            None => forall|t: int| 0 <= t < m@.len() ==> (#[trigger] m@[t]).0@ != k@,
        },
{
    let n = m.len();
    let mut i: usize = 0;
    while i < n
        invariant
            n == m@.len(),
            i <= n,
            forall|t: int| 0 <= t < i ==> (#[trigger] m@[t]).0@ != k@,
        decreases n - i,
    {
        if m[i].0 == *k {
            return Some(i);
        }
        i = i + 1;
    }
    None
}

/// With distinct names, the entry at a position is the value of its name.
pub proof fn lemma_named_at<T>(m: Seq<(String, T)>, i: int)
    requires
        distinct_names(m),
        0 <= i < m.len(),
    ensures
        named_value(m, m[i].0@) == Some(m[i].1),
{
    let k = m[i].0@;
    let j = choose|j: int| 0 <= j < m.len() && (#[trigger] m[j]).0@ == k;
    if j != i {
        assert(m[i].0@ != m[j].0@);
    }
}

/// Binds `k` to `v`, replacing an earlier binding of `k` in place.
pub fn set_named<T>(m: &mut Vec<(String, T)>, k: String, v: T)
    requires
        distinct_names(old(m)@),
    ensures
        named_updated(old(m)@, final(m)@, k@, v),
{
    let ghost m0 = m@;
    let ghost kv = k@;
    match find_name(m, &k) {
        Some(i) => {
            m.set(i, (k, v));
            proof {
                assert forall|a: int, b: int| #![trigger m@[a], m@[b]] 0 <= a < m@.len() && 0 <= b < m@.len() && a != b
                    implies m@[a].0@ != m@[b].0@ by {
                    assert(m0[a].0@ != m0[b].0@);
                }
                lemma_named_at(m@, i as int);
                assert forall|q: Seq<char>| q != kv implies #[trigger] named_value(m@, q) == named_value(m0, q) by {
                    if exists|t: int| 0 <= t < m0.len() && (#[trigger] m0[t]).0@ == q {
                        let t = choose|t: int| 0 <= t < m0.len() && (#[trigger] m0[t]).0@ == q;
                        assert(m@[t] == m0[t]);
                    }
                    if exists|t: int| 0 <= t < m@.len() && (#[trigger] m@[t]).0@ == q {
                        let t = choose|t: int| 0 <= t < m@.len() && (#[trigger] m@[t]).0@ == q;
                        assert(m@[t] == m0[t]);
                    }
                }
            }
        },
        None => {
            m.push((k, v));
            proof {
                let last = m@.len() - 1;
                assert forall|a: int, b: int| #![trigger m@[a], m@[b]] 0 <= a < m@.len() && 0 <= b < m@.len() && a != b
                    implies m@[a].0@ != m@[b].0@ by {
                    if a < last && b < last {
                        assert(m0[a].0@ != m0[b].0@);
                    } else if a < last {
                        assert(m@[a] == m0[a]);
                    } else {
                        assert(m@[b] == m0[b]);
                    }
                }
                lemma_named_at(m@, last);
                assert forall|q: Seq<char>| q != kv implies #[trigger] named_value(m@, q) == named_value(m0, q) by {
                    if exists|t: int| 0 <= t < m0.len() && (#[trigger] m0[t]).0@ == q {
                        let t = choose|t: int| 0 <= t < m0.len() && (#[trigger] m0[t]).0@ == q;
                        assert(m@[t] == m0[t]);
                    }
                    if exists|t: int| 0 <= t < m@.len() && (#[trigger] m@[t]).0@ == q {
                        let t = choose|t: int| 0 <= t < m@.len() && (#[trigger] m@[t]).0@ == q;
                        assert(m@[t] == m0[t]);
                    }
                }
            }
        },
    }
}

/// The value stored under `k`.
pub fn get_named<'a, T>(m: &'a Vec<(String, T)>, k: &str) -> (r: Option<&'a T>)
    requires
        distinct_names(m@),
    ensures
        match named_value(m@, k@) {
            Some(v) => r matches Some(x) && *x == v,
            None => r is None,
        },
{
    let key = String::from_str(k);
    match find_name(m, &key) {
        Some(i) => {
            proof { lemma_named_at(m@, i as int); }
            Some(&m[i].1)
        },
        None => None,
    }
}

} // verus!
