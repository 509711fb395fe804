//! Scanning text: whitespace trimming, searching, splitting and number
//! parsing, each as a specification over characters and a verified
//! implementation.
use vstd::prelude::*;

verus! {

/// The Unicode `White_Space` characters (what `char::is_whitespace`
/// accepts).
pub open spec fn is_ws(c: char) -> bool {
    ||| '\u{9}' <= c <= '\u{D}'
    ||| c == ' '
    ||| c == '\u{85}'
    ||| c == '\u{A0}'
    ||| c == '\u{1680}'
    ||| '\u{2000}' <= c <= '\u{200A}'
    ||| c == '\u{2028}'
    ||| c == '\u{2029}'
    ||| c == '\u{202F}'
    ||| c == '\u{205F}'
    ||| c == '\u{3000}'
}

/// Whether a character is whitespace.
pub fn is_whitespace(c: char) -> (r: bool)
    ensures
        r == is_ws(c),
{
    ('\u{9}' <= c && c <= '\u{D}') || c == ' ' || c == '\u{85}' || c == '\u{A0}' || c == '\u{1680}'
        || ('\u{2000}' <= c && c <= '\u{200A}') || c == '\u{2028}' || c == '\u{2029}' || c == '\u{202F}'
        || c == '\u{205F}' || c == '\u{3000}'
}

/// The number of leading whitespace characters.
pub open spec fn lead_ws(s: Seq<char>) -> nat
    decreases s.len(),
{
    if s.len() > 0 && is_ws(s[0]) { 1 + lead_ws(s.drop_first()) } else { 0 }
}

/// The number of trailing whitespace characters.
pub open spec fn trail_ws(s: Seq<char>) -> nat
    decreases s.len(),
{
    if s.len() > 0 && is_ws(s.last()) { 1 + trail_ws(s.drop_last()) } else { 0 }
}

/// `s` without leading and trailing whitespace.
pub open spec fn trim(s: Seq<char>) -> Seq<char> {
    let t = s.skip(lead_ws(s) as int);
    t.take(t.len() - trail_ws(t))
}

pub proof fn lemma_lead_ws(s: Seq<char>)
    ensures
        lead_ws(s) <= s.len(),
        forall|i: int| 0 <= i < lead_ws(s) ==> is_ws(#[trigger] s[i]),
        lead_ws(s) < s.len() ==> !is_ws(s[lead_ws(s) as int]),
    decreases s.len(),
{
    if s.len() > 0 && is_ws(s[0]) {
        lemma_lead_ws(s.drop_first());
        assert forall|i: int| 0 <= i < lead_ws(s) implies is_ws(#[trigger] s[i]) by {
            if i > 0 {
                assert(s[i] == s.drop_first()[i - 1]);
            }
        }
    }
}

pub proof fn lemma_trail_ws(s: Seq<char>)
    ensures
        trail_ws(s) <= s.len(),
        forall|i: int| s.len() - trail_ws(s) <= i < s.len() ==> is_ws(#[trigger] s[i]),
        trail_ws(s) < s.len() ==> !is_ws(s[s.len() - trail_ws(s) - 1]),
    decreases s.len(),
{
    if s.len() > 0 && is_ws(s.last()) {
        lemma_trail_ws(s.drop_last());
        assert forall|i: int| s.len() - trail_ws(s) <= i < s.len() implies is_ws(#[trigger] s[i]) by {
            if i < s.len() - 1 {
                assert(s[i] == s.drop_last()[i]);
            }
        }
    }
}

/// The first leading character that is not whitespace, or the length.
pub proof fn lemma_lead_ws_unique(s: Seq<char>, k: int)
    requires
        0 <= k <= s.len(),
        forall|i: int| 0 <= i < k ==> is_ws(#[trigger] s[i]),
        k < s.len() ==> !is_ws(s[k]),
    ensures
        lead_ws(s) == k,
    decreases s.len(),
{
    if k > 0 {
        assert(is_ws(s[0]));
        assert forall|i: int| 0 <= i < k - 1 implies is_ws(#[trigger] s.drop_first()[i]) by {
            assert(s.drop_first()[i] == s[i + 1]);
        }
        if k < s.len() {
            assert(s.drop_first()[k - 1] == s[k]);
        }
        lemma_lead_ws_unique(s.drop_first(), k - 1);
    } else if s.len() > 0 {
        assert(!is_ws(s[0]));
    }
}

pub proof fn lemma_trail_ws_unique(s: Seq<char>, k: int)
    requires
        0 <= k <= s.len(),
        forall|i: int| s.len() - k <= i < s.len() ==> is_ws(#[trigger] s[i]),
        k < s.len() ==> !is_ws(s[s.len() - k - 1]),
    ensures
        trail_ws(s) == k,
    decreases s.len(),
{
    if k > 0 {
        assert(is_ws(s[s.len() - 1]));
        let t = s.drop_last();
        assert forall|i: int| t.len() - (k - 1) <= i < t.len() implies is_ws(#[trigger] t[i]) by {
            assert(t[i] == s[i]);
        }
        if k < s.len() {
            assert(t[t.len() - (k - 1) - 1] == s[s.len() - k - 1]);
        }
        lemma_trail_ws_unique(t, k - 1);
    } else if s.len() > 0 {
        assert(!is_ws(s.last()));
    }
}

/// `s` without leading and trailing whitespace (`str::trim`).
pub fn trim_str(s: &str) -> (r: &str)
    ensures
        r@ == trim(s@),
{
    let n = s.unicode_len();
    let mut a: usize = 0;
    while a < n && is_whitespace(s.get_char(a))
        invariant
            n == s@.len(),
            a <= n,
            forall|i: int| 0 <= i < a ==> is_ws(#[trigger] s@[i]),
        decreases n - a,
    {
        a = a + 1;
    }
    proof { lemma_lead_ws_unique(s@, a as int); }
    let mut b: usize = n;
    while b > a && is_whitespace(s.get_char(b - 1))
        invariant
            n == s@.len(),
            a <= b <= n,
            forall|i: int| b <= i < n ==> is_ws(#[trigger] s@[i]),
        decreases b,
    {
        b = b - 1;
    }
    proof {
        let t = s@.skip(a as int);
        assert forall|i: int| t.len() - (n - b) <= i < t.len() implies is_ws(#[trigger] t[i]) by {
            assert(t[i] == s@[i + a]);
        }
        if n - b < t.len() {
            assert(t[t.len() - (n - b) - 1] == s@[b - 1]);
        }
        lemma_trail_ws_unique(t, (n - b) as int);
        assert(t.take(t.len() - trail_ws(t)) =~= s@.subrange(a as int, b as int));
    }
    s.substring_char(a, b)
}

/// The position of the first `c` in `s`.
pub open spec fn index_of(s: Seq<char>, c: char) -> Option<int>
    decreases s.len(),
{
    if s.len() == 0 {
        None
    } else if s[0] == c {
        Some(0)
    } else {
        match index_of(s.drop_first(), c) {
            Some(i) => Some(i + 1),
            None => None,
        }
    }
}

/// The first `c` is at `i`: no `c` before it.
pub proof fn lemma_index_of_first(s: Seq<char>, c: char, i: int)
    requires
        0 <= i < s.len(),
        s[i] == c,
        forall|j: int| 0 <= j < i ==> s[j] != c,
    ensures
        index_of(s, c) == Some(i),
    decreases i,
{
    if i > 0 {
        assert forall|j: int| 0 <= j < i - 1 implies s.drop_first()[j] != c by {
            assert(s.drop_first()[j] == s[j + 1]);
        }
        lemma_index_of_first(s.drop_first(), c, i - 1);
    }
}

/// There is no `c` in `s`.
pub proof fn lemma_index_of_none(s: Seq<char>, c: char)
    requires
        forall|j: int| 0 <= j < s.len() ==> s[j] != c,
    ensures
        index_of(s, c) is None,
    decreases s.len(),
{
    if s.len() > 0 {
        assert forall|j: int| 0 <= j < s.len() - 1 implies s.drop_first()[j] != c by {
            assert(s.drop_first()[j] == s[j + 1]);
        }
        lemma_index_of_none(s.drop_first(), c);
    }
}

/// The first position of `c` in `s` (`str::find` of a character, by
/// character position).
pub fn find_char(s: &str, c: char) -> (r: Option<usize>)
    ensures
        match r {
            Some(i) => i < s@.len() && s@[i as int] == c && forall|j: int| 0 <= j < i ==> s@[j] != c,
            None => forall|j: int| 0 <= j < s@.len() ==> s@[j] != c,
        },
        r matches Some(i) ==> index_of(s@, c) == Some(i as int),
        r is None ==> index_of(s@, c) is None,
{
    let n = s.unicode_len();
    let mut i: usize = 0;
    while i < n
        invariant
            n == s@.len(),
            i <= n,
            forall|j: int| 0 <= j < i ==> s@[j] != c,
        decreases n - i,
    {
        if s.get_char(i) == c {
            proof { lemma_index_of_first(s@, c, i as int); }
            return Some(i);
        }
        i = i + 1;
    }
    proof { lemma_index_of_none(s@, c); }
    None
}

/// The position of the first occurrence of `p` in `s`.
pub open spec fn index_of_text(s: Seq<char>, p: Seq<char>) -> Option<int>
    decreases s.len(),
{
    if s.len() < p.len() {
        None
    } else if s.take(p.len() as int) == p {
        Some(0)
    } else if s.len() == 0 {
        None
    } else {
        match index_of_text(s.drop_first(), p) {
            Some(i) => Some(i + 1),
            None => None,
        }
    }
}

/// The first occurrence of `p` is at `i`.
pub proof fn lemma_index_of_text_first(s: Seq<char>, p: Seq<char>, i: int)
    requires
        0 <= i,
        i + p.len() <= s.len(),
        s.subrange(i, i + p.len()) == p,
        forall|j: int| 0 <= j < i ==> #[trigger] s.subrange(j, j + p.len()) != p,
    ensures
        index_of_text(s, p) == Some(i),
    decreases i,
{
    if i > 0 {
        let z: int = 0;
        assert(s.subrange(z, z + p.len()) != p);
        assert(s.take(p.len() as int) =~= s.subrange(z, z + p.len()));
        let t = s.drop_first();
        assert(t.subrange(i - 1, i - 1 + p.len()) =~= s.subrange(i, i + p.len()));
        assert forall|j: int| 0 <= j < i - 1 implies #[trigger] t.subrange(j, j + p.len()) != p by {
            assert(t.subrange(j, j + p.len()) =~= s.subrange(j + 1, j + 1 + p.len()));
        }
        lemma_index_of_text_first(t, p, i - 1);
    } else {
        assert(s.take(p.len() as int) =~= s.subrange(0, p.len() as int));
    }
}

/// `p` does not occur in `s`.
pub proof fn lemma_index_of_text_none(s: Seq<char>, p: Seq<char>)
    requires
        forall|j: int| 0 <= j && j + p.len() <= s.len() ==> #[trigger] s.subrange(j, j + p.len()) != p,
    ensures
        index_of_text(s, p) is None,
    decreases s.len(),
{
    if s.len() >= p.len() {
        let z: int = 0;
        assert(s.subrange(z, z + p.len()) != p);
        assert(s.take(p.len() as int) =~= s.subrange(z, z + p.len()));
        if s.len() > 0 {
            let t = s.drop_first();
            assert forall|j: int| 0 <= j && j + p.len() <= t.len() implies #[trigger] t.subrange(j, j + p.len()) != p by {
                assert(t.subrange(j, j + p.len()) =~= s.subrange(j + 1, j + 1 + p.len()));
            }
            lemma_index_of_text_none(t, p);
        }
    }
}

/// The first position of `p` in `s` (`str::find` of a pattern, by
/// character position).
pub fn find_str(s: &str, p: &str) -> (r: Option<usize>)
    ensures
        match r {
            Some(i) => index_of_text(s@, p@) == Some(i as int),
            None => index_of_text(s@, p@) is None,
        },
{
    let n = s.unicode_len();
    let m = p.unicode_len();
    if m > n {
        proof { lemma_index_of_text_none(s@, p@); }
        return None;
    }
    let mut i: usize = 0;
    while i <= n - m
        invariant
            n == s@.len(),
            m == p@.len(),
            m <= n,
            i <= n - m + 1,
            forall|j: int| 0 <= j < i ==> #[trigger] s@.subrange(j, j + m) != p@,
        decreases n - m + 1 - i,
    {
        let mut k: usize = 0;
        let mut ok = true;
        while k < m
            invariant
                n == s@.len(),
                m == p@.len(),
                i + m <= n,
                k <= m,
                ok <==> forall|q: int| 0 <= q < k ==> s@[i + q] == p@[q],
            decreases m - k,
        {
            if s.get_char(i + k) != p.get_char(k) {
                ok = false;
            }
            k = k + 1;
        }
        if ok {
            assert(s@.subrange(i as int, i + m) =~= p@);
            proof { lemma_index_of_text_first(s@, p@, i as int); }
            return Some(i);
        }
        proof {
            assert(s@.subrange(i as int, i + m) != p@) by {
                if s@.subrange(i as int, i + m) == p@ {
                    assert forall|q: int| 0 <= q < m implies s@[i + q] == p@[q] by {
                        assert(s@.subrange(i as int, i + m)[q] == s@[i + q]);
                    }
                }
            }
        }
        i = i + 1;
    }
    proof { lemma_index_of_text_none(s@, p@); }
    None
}

/// `s` split at every `c`, keeping empty pieces (`str::split` of a
/// character).
pub open spec fn split_at_char(s: Seq<char>, c: char) -> Seq<Seq<char>>
    decreases s.len(),
{
    match index_of(s, c) {
        Some(i) => if 0 <= i < s.len() { seq![s.take(i)] + split_at_char(s.skip(i + 1), c) } else { seq![s] },
        None => seq![s],
    }
}

/// Splits `s` at every `c`.
pub fn split_char<'a>(s: &'a str, c: char) -> (r: Vec<&'a str>)
    ensures
        r@.len() == split_at_char(s@, c).len(),
        forall|i: int| 0 <= i < r@.len() ==> (#[trigger] r@[i])@ == split_at_char(s@, c)[i],
{
    let mut out: Vec<&'a str> = Vec::new();
    let mut rest: &'a str = s;
    let ghost mut done: Seq<Seq<char>> = Seq::empty();
    loop
        invariant
            out@.len() == done.len(),
            forall|i: int| 0 <= i < out@.len() ==> (#[trigger] out@[i])@ == done[i],
            done + split_at_char(rest@, c) == split_at_char(s@, c),
        decreases rest@.len(),
    {
        match find_char(rest, c) {
            Some(i) => {
                let n = rest.unicode_len();
                let head = rest.substring_char(0, i);
                let tail = rest.substring_char(i + 1, n);
                proof {
                    assert(head@ =~= rest@.take(i as int));
                    assert(tail@ =~= rest@.skip(i + 1));
                    assert(split_at_char(rest@, c) == seq![rest@.take(i as int)] + split_at_char(rest@.skip(i + 1), c));
                    done = done.push(head@);
                    assert(done + split_at_char(tail@, c) =~= split_at_char(s@, c));
                }
                out.push(head);
                rest = tail;
            },
            None => {
                proof {
                    assert(split_at_char(rest@, c) == seq![rest@]);
                    done = done.push(rest@);
                }
                out.push(rest);
                assert(done =~= split_at_char(s@, c));
                return out;
            },
        }
    }
}

/// Whether `c` is an ASCII decimal digit.
pub open spec fn is_digit(c: char) -> bool {
    '0' <= c <= '9'
}

/// The value of a string of decimal digits.
pub open spec fn digits_value(s: Seq<char>) -> nat
    decreases s.len(),
{
    if s.len() == 0 { 0 } else { digits_value(s.drop_last()) * 10 + ((s.last() as int) - ('0' as int)) as nat }
}

/// All characters are digits, and there is at least one.
pub open spec fn all_digits(s: Seq<char>) -> bool {
    s.len() > 0 && forall|i: int| 0 <= i < s.len() ==> is_digit(#[trigger] s[i])
}

/// What parsing `s` as an unsigned integer of at most `max` gives
/// (`str::parse` of `u64` or `usize`): an optional `+`, then at least one
/// digit, the value within range.
pub open spec fn parse_unsigned(s: Seq<char>, max: nat) -> Option<nat> {
    let d = if s.len() > 0 && s[0] == '+' { s.drop_first() } else { s };
    if all_digits(d) && digits_value(d) <= max { Some(digits_value(d)) } else { None }
}

/// What parsing `s` as an `i64` gives: an optional sign, then at least
/// one digit, the value within range.
pub open spec fn parse_i64(s: Seq<char>) -> Option<int> {
    if s.len() > 0 && s[0] == '-' {
        let d = s.drop_first();
        if all_digits(d) && digits_value(d) <= 0x8000_0000_0000_0000 { Some(-(digits_value(d) as int)) } else { None }
    } else {
        let d = if s.len() > 0 && s[0] == '+' { s.drop_first() } else { s };
        if all_digits(d) && digits_value(d) <= 0x7fff_ffff_ffff_ffff { Some(digits_value(d) as int) } else { None }
    }
}

proof fn lemma_digits_monotone(s: Seq<char>, i: int)
    requires
        0 <= i <= s.len(),
        forall|k: int| 0 <= k < s.len() ==> is_digit(#[trigger] s[k]),
    ensures
        digits_value(s.take(i)) <= digits_value(s),
    decreases s.len() - i,
{
    if i < s.len() {
        lemma_digits_monotone(s, i + 1);
        assert(s.take(i + 1).drop_last() =~= s.take(i));
        assert(s.take(i + 1)[i] == s[i]);
    } else {
        assert(s.take(i) =~= s);
    }
}

/// The digits of `s` from position `start` on, with their value when it
/// is at most `max`; `None` when one is not a digit, there are none, or
/// the value exceeds `max`.
fn digits_from(s: &str, start: usize, max: u128) -> (r: Option<u128>)
    requires
        start <= s@.len(),
    ensures
        ({
            let d = s@.skip(start as int);
            match r {
                Some(v) => all_digits(d) && v == digits_value(d) && v <= max,
                None => !(all_digits(d) && digits_value(d) <= max),
            }
        }),
{
    let n = s.unicode_len();
    let ghost d = s@.skip(start as int);
    if start == n {
        return None;
    }
    let mut acc: u128 = 0;
    let mut i: usize = start;
    while i < n
        invariant
            n == s@.len(),
            start < n,
            d == s@.skip(start as int),
            start <= i <= n,
            forall|k: int| 0 <= k < i - start ==> is_digit(#[trigger] d[k]),
            acc == digits_value(d.take(i - start)),
            acc <= max,
        decreases n - i,
    {
        let c = s.get_char(i);
        if !('0' <= c && c <= '9') {
            proof { assert(d[i - start] == c); }
            return None;
        }
        proof {
            assert(d[i - start] == c);
            assert(d.take(i - start + 1).drop_last() =~= d.take(i - start));
        }
        let digit: u128 = (c as u32 - '0' as u32) as u128;
        if digit > max || acc > (max - digit) / 10 {
            proof {
                assert(acc * 10 + digit > max) by (nonlinear_arith)
                    requires digit > max || acc > (max - digit) / 10, digit <= 9, acc >= 0;
                if forall|k: int| 0 <= k < d.len() ==> is_digit(#[trigger] d[k]) {
                    lemma_digits_monotone(d, i - start + 1);
                }
            }
            return None;
        }
        assert(acc * 10 + digit <= max) by (nonlinear_arith)
            requires acc <= (max - digit) / 10, digit <= max;
        acc = acc * 10 + digit;
        i = i + 1;
    }
    assert(d.take(n - start) =~= d);
    Some(acc)
}

/// Parses an unsigned integer of at most `max` (`str::parse` of an
/// unsigned type).
pub fn parse_unsigned_str(s: &str, max: u128) -> (r: Option<u128>)
    ensures
        match parse_unsigned(s@, max as nat) {
            Some(v) => r == Some(v as u128),
            None => r is None,
        },
{
    let n = s.unicode_len();
    let start: usize = if n > 0 && s.get_char(0) == '+' { 1 } else { 0 };
    proof {
        assert(s@.skip(start as int) =~= (if s@.len() > 0 && s@[0] == '+' { s@.drop_first() } else { s@ }));
    }
    digits_from(s, start, max)
}

/// Parses a `u64` (`str::parse::<u64>`).
pub fn parse_u64_str(s: &str) -> (r: Option<u64>)
    ensures
        match parse_unsigned(s@, u64::MAX as nat) {
            Some(v) => r == Some(v as u64),
            None => r is None,
        },
{
    match parse_unsigned_str(s, u64::MAX as u128) {
        Some(v) => Some(v as u64),
        None => None,
    }
}

/// Parses a `usize` (`str::parse::<usize>`).
pub fn parse_usize_str(s: &str) -> (r: Option<usize>)
    ensures
        match parse_unsigned(s@, usize::MAX as nat) {
            Some(v) => r == Some(v as usize),
            None => r is None,
        },
{
    match parse_unsigned_str(s, usize::MAX as u128) {
        Some(v) => Some(v as usize),
        None => None,
    }
}

/// Parses an `i64` (`str::parse::<i64>`).
pub fn parse_i64_str(s: &str) -> (r: Option<i64>)
    ensures
        match parse_i64(s@) {
            Some(v) => r == Some(v as i64),
            None => r is None,
        },
{
    let n = s.unicode_len();
    if n > 0 && s.get_char(0) == '-' {
        assert(s@.skip(1) =~= s@.drop_first());
        match digits_from(s, 1, 0x8000_0000_0000_0000u128) {
            Some(v) => {
                if v == 0x8000_0000_0000_0000u128 {
                    Some(i64::MIN)
                } else {
                    Some(-(v as i64))
                }
            },
            None => None,
        }
    } else {
        let start: usize = if n > 0 && s.get_char(0) == '+' { 1 } else { 0 };
        proof {
            assert(s@.skip(start as int) =~= (if s@.len() > 0 && s@[0] == '+' { s@.drop_first() } else { s@ }));
        }
        match digits_from(s, start, 0x7fff_ffff_ffff_ffffu128) {
            Some(v) => Some(v as i64),
            None => None,
        }
    }
}

/// `p` is a prefix of `s`.
pub fn starts_with_str(s: &str, p: &str) -> (r: bool)
    ensures
        r == p@.is_prefix_of(s@),
{
    let n = s.unicode_len();
    let m = p.unicode_len();
    if m > n {
        return false;
    }
    let mut i: usize = 0;
    while i < m
        invariant
            n == s@.len(),
            m == p@.len(),
            m <= n,
            i <= m,
            forall|k: int| 0 <= k < i ==> s@[k] == p@[k],
        decreases m - i,
    {
        if s.get_char(i) != p.get_char(i) {
            return false;
        }
        i = i + 1;
    }
    assert(s@.subrange(0, m as int) =~= p@);
    true
}

/// `s` without the prefix `p`, when `p` is one (`str::strip_prefix`).
pub fn strip_prefix_str<'a>(s: &'a str, p: &str) -> (r: Option<&'a str>)
    ensures
        match r {
            Some(t) => p@.is_prefix_of(s@) && t@ == s@.skip(p@.len() as int),
            None => !p@.is_prefix_of(s@),
        },
{
    if starts_with_str(s, p) {
        let n = s.unicode_len();
        let m = p.unicode_len();
        let t = s.substring_char(m, n);
        assert(t@ =~= s@.skip(m as int));
        Some(t)
    } else {
        None
    }
}

/// `p` occurs in `s`.
pub fn contains_str(s: &str, p: &str) -> (r: bool)
    ensures
        r == (index_of_text(s@, p@) is Some),
{
    match find_str(s, p) {
        Some(_) => true,
        None => false,
    }
}

/// Trimming does not lengthen a text, and trimmed text is part of it.
pub proof fn lemma_trim_len(s: Seq<char>)
    ensures
        trim(s).len() <= s.len(),
        trim(s) == s.subrange(lead_ws(s) as int, (lead_ws(s) + trim(s).len()) as int),
{
    lemma_lead_ws(s);
    let t = s.skip(lead_ws(s) as int);
    lemma_trail_ws(t);
    assert(trim(s) =~= s.subrange(lead_ws(s) as int, (lead_ws(s) + trim(s).len()) as int));
}

/// The position of a found pattern lies within the text.
pub proof fn lemma_index_of_text(s: Seq<char>, p: Seq<char>)
    ensures
        index_of_text(s, p) matches Some(a) ==> 0 <= a && a + p.len() <= s.len() && s.subrange(a, a + p.len()) == p,
    decreases s.len(),
{
    if s.len() >= p.len() && s.take(p.len() as int) != p && s.len() > 0 {
        let t = s.drop_first();
        lemma_index_of_text(t, p);
        if let Some(a) = index_of_text(t, p) {
            assert(s.subrange(a + 1, a + 1 + p.len()) =~= t.subrange(a, a + p.len()));
        }
    } else if s.len() >= p.len() && s.take(p.len() as int) == p {
        assert(s.subrange(0, p.len() as int) =~= s.take(p.len() as int));
    }
}

/// The position of a found character lies within the text.
pub proof fn lemma_index_of(s: Seq<char>, c: char)
    ensures
        index_of(s, c) matches Some(a) ==> 0 <= a < s.len() && s[a] == c,
    decreases s.len(),
{
    if s.len() > 0 && s[0] != c {
        lemma_index_of(s.drop_first(), c);
    }
}

/// Whether two texts are equal.
pub fn text_eq(a: &str, b: &str) -> (r: bool)
    ensures
        r == (a@ == b@),
{
    let n = a.unicode_len();
    if n != b.unicode_len() {
        return false;
    }
    let mut i: usize = 0;
    while i < n
        invariant
            n == a@.len(),
            n == b@.len(),
            i <= n,
            forall|k: int| 0 <= k < i ==> a@[k] == b@[k],
        decreases n - i,
    {
        if a.get_char(i) != b.get_char(i) {
            return false;
        }
        i = i + 1;
    }
    assert(a@ =~= b@);
    true
}

/// `p` is a suffix of `s`.
pub fn ends_with_str(s: &str, p: &str) -> (r: bool)
    ensures
        r == p@.is_suffix_of(s@),
{
    let n = s.unicode_len();
    let m = p.unicode_len();
    if m > n {
        return false;
    }
    let mut i: usize = 0;
    while i < m
        invariant
            n == s@.len(),
            m == p@.len(),
            m <= n,
            i <= m,
            forall|k: int| 0 <= k < i ==> s@[n - m + k] == p@[k],
        decreases m - i,
    {
        if s.get_char(n - m + i) != p.get_char(i) {
            return false;
        }
        i = i + 1;
    }
    assert(s@.subrange(n - m, n as int) =~= p@);
    true
}

/// Every piece of a split is no longer than the text.
pub proof fn lemma_split_lengths(s: Seq<char>, c: char)
    ensures
        forall|i: int| 0 <= i < split_at_char(s, c).len() ==> (#[trigger] split_at_char(s, c)[i]).len() <= s.len(),
        split_at_char(s, c).len() >= 1,
    decreases s.len(),
{
    lemma_index_of(s, c);
    match index_of(s, c) {
        Some(i) => {
            if 0 <= i < s.len() {
                lemma_split_lengths(s.skip(i + 1), c);
                let r = split_at_char(s, c);
                let rest = split_at_char(s.skip(i + 1), c);
                assert forall|k: int| 0 <= k < r.len() implies (#[trigger] r[k]).len() <= s.len() by {
                    if k > 0 {
                        assert(r[k] == rest[k - 1]);
                    }
                }
            }
        },
        None => {},
    }
}

} // verus!
