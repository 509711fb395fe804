//! The lexicographic order of texts by code point, and sorted lists of
//! distinct texts.
use vstd::prelude::*;

verus! {

/// `a` comes before `b` in lexicographic order by code point.
pub open spec fn text_less(a: Seq<char>, b: Seq<char>) -> bool
    decreases a.len(),
{
    if a.len() == 0 {
        b.len() > 0
    } else if b.len() == 0 {
        false
    } else if a[0] != b[0] {
        (a[0] as int) < (b[0] as int)
    } else {
        text_less(a.drop_first(), b.drop_first())
    }
}

/// The order is irreflexive.
pub proof fn lemma_text_less_irreflexive(a: Seq<char>)
    ensures
        !text_less(a, a),
    decreases a.len(),
{
    if a.len() > 0 {
        lemma_text_less_irreflexive(a.drop_first());
    }
}

/// Two different texts are ordered one way, and only one.
pub proof fn lemma_text_less_total(a: Seq<char>, b: Seq<char>)
    ensures
        a != b ==> text_less(a, b) || text_less(b, a),
        !(text_less(a, b) && text_less(b, a)),
    decreases a.len(),
{
    if a.len() > 0 && b.len() > 0 && a[0] == b[0] {
        lemma_text_less_total(a.drop_first(), b.drop_first());
        if a != b {
            assert(a.drop_first() != b.drop_first()) by {
                if a.drop_first() == b.drop_first() {
                    assert(a =~= seq![a[0]] + a.drop_first());
                    assert(b =~= seq![b[0]] + b.drop_first());
                }
            }
        }
    } else if a.len() == 0 && b.len() == 0 {
        assert(a =~= b);
    }
}

/// The order is transitive.
pub proof fn lemma_text_less_transitive(a: Seq<char>, b: Seq<char>, c: Seq<char>)
    requires
        text_less(a, b),
        text_less(b, c),
    ensures
        text_less(a, c),
    decreases a.len(),
{
    if a.len() > 0 && b.len() > 0 && c.len() > 0 && a[0] == b[0] && b[0] == c[0] {
        lemma_text_less_transitive(a.drop_first(), b.drop_first(), c.drop_first());
    }
}

/// A list of texts in strictly increasing order.
pub open spec fn sorted_texts(s: Seq<&str>) -> bool {
    forall|i: int, j: int| 0 <= i < j < s.len() ==> text_less(#[trigger] s[i]@, #[trigger] s[j]@)
}

/// Some item of the list is the text `t`.
pub open spec fn lists_text(s: Seq<&str>, t: Seq<char>) -> bool {
    exists|i: int| 0 <= i < s.len() && #[trigger] s[i]@ == t
}

/// Whether `a` comes before `b`.
pub fn str_less(a: &str, b: &str) -> (r: bool)
    ensures
        r == text_less(a@, b@),
{
    let n = a.unicode_len();
    let m = b.unicode_len();
    let mut i: usize = 0;
    assert(a@.skip(0) =~= a@ && b@.skip(0) =~= b@);
    while i < n && i < m
        invariant
            n == a@.len(),
            m == b@.len(),
            i <= n,
            i <= m,
            text_less(a@, b@) == text_less(a@.skip(i as int), b@.skip(i as int)),
        decreases n - i,
    {
        let x = a.get_char(i);
        let y = b.get_char(i);
        if x != y {
            proof {
                assert(a@.skip(i as int)[0] == x && b@.skip(i as int)[0] == y);
            }
            return (x as u32) < (y as u32);
        }
        proof {
            assert(a@.skip(i as int).drop_first() =~= a@.skip(i as int + 1));
            assert(b@.skip(i as int).drop_first() =~= b@.skip(i as int + 1));
        }
        i = i + 1;
    }
    i < m
}

/// Adds `x` to a sorted list of distinct texts, keeping it sorted; a text
/// already present is not added again.
pub fn insert_sorted_text<'a>(v: &mut Vec<&'a str>, x: &'a str)
    requires
        sorted_texts(old(v)@),
    ensures
        sorted_texts(final(v)@),
        forall|t: Seq<char>| #[trigger] lists_text(final(v)@, t) <==> (lists_text(old(v)@, t) || t == x@),
{
    let ghost v0 = v@;
    let n = v.len();
    let mut p: usize = 0;
    while p < n && str_less(v[p], x)
        invariant
            n == v@.len(),
            v@ == v0,
            sorted_texts(v0),
            p <= n,
            forall|i: int| 0 <= i < p ==> text_less(#[trigger] v0[i]@, x@),
        decreases n - p,
    {
        p = p + 1;
    }
    if p < n && !str_less(x, v[p]) {
        proof {
            lemma_text_less_total(v0[p as int]@, x@);
            assert forall|t: Seq<char>| #[trigger] lists_text(v@, t) <==> (lists_text(v0, t) || t == x@) by {
                if t == x@ {
                    assert(v@[p as int]@ == t);
                }
            }
        }
        return;
    }
    proof {
        if p < n {
            lemma_text_less_total(v0[p as int]@, x@);
        }
    }
    v.insert(p, x);
    proof {
        assert forall|i: int, j: int| 0 <= i < j < v@.len() implies text_less(#[trigger] v@[i]@, #[trigger] v@[j]@) by {
            if j < p {
                assert(v@[i] == v0[i] && v@[j] == v0[j]);
            } else if j == p {
                assert(v@[i] == v0[i]);
            } else if i == p {
                assert(v@[j] == v0[j - 1]);
                if j - 1 > p {
                    assert(text_less(v0[p as int]@, v0[j - 1]@));
                    lemma_text_less_transitive(x@, v0[p as int]@, v0[j - 1]@);
                }
            } else if i < p {
                assert(v@[i] == v0[i] && v@[j] == v0[j - 1]);
                assert(text_less(v0[i]@, x@));
                if p < n {
                    assert(text_less(v0[i]@, v0[j - 1]@));
                }
            } else {
                assert(v@[i] == v0[i - 1] && v@[j] == v0[j - 1]);
            }
        }
        assert forall|t: Seq<char>| #[trigger] lists_text(v@, t) <==> (lists_text(v0, t) || t == x@) by {
            if exists|i: int| 0 <= i < v@.len() && #[trigger] v@[i]@ == t {
                let i = choose|i: int| 0 <= i < v@.len() && #[trigger] v@[i]@ == t;
                if i < p {
                    assert(v0[i]@ == t);
                } else if i > p {
                    assert(v0[i - 1]@ == t);
                }
            }
            if exists|i: int| 0 <= i < v0.len() && #[trigger] v0[i]@ == t {
                let i = choose|i: int| 0 <= i < v0.len() && #[trigger] v0[i]@ == t;
                if i < p {
                    assert(v@[i]@ == t);
                } else {
                    assert(v@[i + 1]@ == t);
                }
            }
            if t == x@ {
                assert(v@[p as int]@ == t);
            }
        }
    }
}

} // verus!
