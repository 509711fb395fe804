//! Running TLC: the runner's settings, the command it builds, and the
//! parsing of TLC's output.
use vstd::prelude::*;
use core::time::Duration;
use crate::text::{decimal, push_char, push_decimal, push_str, empty_string, to_owned_string};
use crate::text_scan::{lemma_lead_ws_unique, lemma_lead_ws, lemma_trail_ws, lemma_trail_ws_unique, trail_ws, find_str, lemma_index_of_text, is_ws, is_whitespace, trim, trim_str, lead_ws, index_of, find_char, parse_unsigned, parse_u64_str,
    parse_usize_str, strip_prefix_str, starts_with_str, lemma_trim_len, lemma_index_of};
use crate::clock::{duration_from_secs, duration_of};
use super::config::{TlcConfig, string_views, texts_are, args_text};
use super::tla_value::{TlaValue, TlaModel, tla_model, tla_parse, tla_parse_defined, parse_tla_value, tla_parsable};
use super::result::{CounterexampleState, CounterexampleTrace, ParsedTlcOutput, PropertyType, PropertyViolation, TlcExitStatus, ValidationResult, ValidationStatus, exit_status_text, plain_result};
use crate::named::{named_value, distinct_names, named_updated, set_named};
use crate::text_scan::{index_of_text, contains_str};

verus! {

/// The number of leading characters that are not whitespace.
pub open spec fn word_len(s: Seq<char>) -> nat
    decreases s.len(),
{
    if s.len() > 0 && !is_ws(s[0]) { 1 + word_len(s.drop_first()) } else { 0 }
}

/// `s` without its commas.
pub open spec fn strip_commas(s: Seq<char>) -> Seq<char>
    decreases s.len(),
{
    if s.len() == 0 {
        Seq::empty()
    } else {
        strip_commas(s.drop_last()) + if s.last() == ',' { Seq::empty() } else { seq![s.last()] }
    }
}

pub proof fn lemma_word_len(s: Seq<char>)
    ensures
        word_len(s) <= s.len(),
        forall|i: int| 0 <= i < word_len(s) ==> !is_ws(#[trigger] s[i]),
        word_len(s) < s.len() ==> is_ws(s[word_len(s) as int]),
    decreases s.len(),
{
    if s.len() > 0 && !is_ws(s[0]) {
        lemma_word_len(s.drop_first());
        assert forall|i: int| 0 <= i < word_len(s) implies !is_ws(#[trigger] s[i]) by {
            if i > 0 {
                assert(s[i] == s.drop_first()[i - 1]);
            }
        }
    }
}

/// The first whitespace-separated word that is a `u64` once its commas
/// are removed.
pub open spec fn first_number(s: Seq<char>) -> Option<u64>
    decreases s.len(),
{
    let t = s.skip(lead_ws(s) as int);
    if t.len() == 0 || lead_ws(s) > s.len() {
        None
    } else {
        let w = t.take(word_len(t) as int);
        match parse_unsigned(strip_commas(w), u64::MAX as nat) {
            Some(v) => Some(v as u64),
            None => {
                proof {
                    lemma_word_len(t);
                }
                if word_len(t) > 0 { first_number(t.skip(word_len(t) as int)) } else { None }
            },
        }
    }
}

/// The word length is the first whitespace position.
pub proof fn lemma_word_len_unique(s: Seq<char>, k: int)
    requires
        0 <= k <= s.len(),
        forall|i: int| 0 <= i < k ==> !is_ws(#[trigger] s[i]),
        k < s.len() ==> is_ws(s[k]),
    ensures
        word_len(s) == k,
    decreases s.len(),
{
    if k > 0 {
        assert forall|i: int| 0 <= i < k - 1 implies !is_ws(#[trigger] s.drop_first()[i]) by {
            assert(s.drop_first()[i] == s[i + 1]);
        }
        if k < s.len() {
            assert(s.drop_first()[k - 1] == s[k]);
        }
        lemma_word_len_unique(s.drop_first(), k - 1);
    }
}

/// The first whitespace-separated word that is a `u64` once its commas
/// are removed (`split_whitespace` and `parse`).
pub fn extract_number(line: &str) -> (r: Option<u64>)
    ensures
        r == first_number(line@),
{
    let n = line.unicode_len();
    let mut p: usize = 0;
    assert(line@.skip(0) =~= line@);
    loop
        invariant
            n == line@.len(),
            p <= n,
            first_number(line@) == first_number(line@.skip(p as int)),
        decreases n - p,
    {
        let ghost s = line@.skip(p as int);
        let mut a: usize = p;
        while a < n && is_whitespace(line.get_char(a))
            invariant
                n == line@.len(),
                p <= a <= n,
                forall|i: int| p <= i < a ==> is_ws(#[trigger] line@[i]),
            decreases n - a,
        {
            a = a + 1;
        }
        proof {
            assert forall|i: int| 0 <= i < a - p implies is_ws(#[trigger] s[i]) by {
                assert(s[i] == line@[p + i]);
            }
            if a < n {
                assert(s[a - p] == line@[a as int]);
            }
            lemma_lead_ws_unique(s, a - p);
            assert(s.skip(lead_ws(s) as int) =~= line@.skip(a as int));
        }
        if a == n {
            return None;
        }
        let ghost t = line@.skip(a as int);
        let mut b: usize = a;
        let mut word = empty_string();
        while b < n && !is_whitespace(line.get_char(b))
            invariant
                n == line@.len(),
                a <= b <= n,
                t == line@.skip(a as int),
                forall|i: int| a <= i < b ==> !is_ws(#[trigger] line@[i]),
                word@ == strip_commas(t.take(b - a)),
            decreases n - b,
        {
            let c = line.get_char(b);
            if c != ',' {
                push_char(&mut word, c);
            }
            proof {
                assert(t.take(b - a + 1).drop_last() =~= t.take(b - a));
                assert(t.take(b - a + 1).last() == c);
            }
            b = b + 1;
        }
        proof {
            assert forall|i: int| 0 <= i < b - a implies !is_ws(#[trigger] t[i]) by {
                assert(t[i] == line@[a + i]);
            }
            if b < n {
                assert(t[b - a] == line@[b as int]);
            }
            lemma_word_len_unique(t, b - a);
            assert(t.skip(b - a) =~= line@.skip(b as int));
        }
        match parse_u64_str(word.as_str()) {
            Some(v) => {
                return Some(v);
            },
            None => {},
        }
        p = b;
    }
}

/// The number of trailing characters that are not whitespace.
pub open spec fn tail_word_len(s: Seq<char>) -> nat
    decreases s.len(),
{
    if s.len() > 0 && !is_ws(s.last()) { 1 + tail_word_len(s.drop_last()) } else { 0 }
}

/// The trailing word length is bounded by the length.
pub proof fn lemma_tail_word_len(s: Seq<char>)
    ensures
        tail_word_len(s) <= s.len(),
    decreases s.len(),
{
    if s.len() > 0 && !is_ws(s.last()) {
        lemma_tail_word_len(s.drop_last());
    }
}

/// The trailing word length is the distance to the last whitespace.
pub proof fn lemma_tail_word_len_unique(s: Seq<char>, k: int)
    requires
        0 <= k <= s.len(),
        forall|i: int| s.len() - k <= i < s.len() ==> !is_ws(#[trigger] s[i]),
        k < s.len() ==> is_ws(s[s.len() - k - 1]),
    ensures
        tail_word_len(s) == k,
    decreases s.len(),
{
    if k > 0 {
        assert(!is_ws(s[s.len() - 1]));
        let t = s.drop_last();
        assert forall|i: int| t.len() - (k - 1) <= i < t.len() implies !is_ws(#[trigger] t[i]) by {
            assert(t[i] == s[i]);
        }
        if k < s.len() {
            assert(t[t.len() - (k - 1) - 1] == s[s.len() - k - 1]);
        }
        lemma_tail_word_len_unique(t, k - 1);
    } else if s.len() > 0 {
        assert(is_ws(s.last()));
    }
}

/// The last whitespace-separated word that is a `u64` once its commas are
/// removed.
pub open spec fn last_number(s: Seq<char>) -> Option<u64>
    decreases s.len(),
{
    proof {
        lemma_trail_ws(s);
    }
    let t = s.take(s.len() - trail_ws(s));
    if t.len() == 0 {
        None
    } else {
        let k = tail_word_len(t);
        proof {
            lemma_tail_word_len(t);
        }
        match parse_unsigned(strip_commas(t.skip(t.len() - k)), u64::MAX as nat) {
            Some(v) => Some(v as u64),
            None => if k > 0 { last_number(t.take(t.len() - k)) } else { None },
        }
    }
}

/// The count that a line gives for `marker`: the last number before the
/// marker's first occurrence.
pub open spec fn count_before(l: Seq<char>, marker: Seq<char>) -> Option<u64> {
    match index_of_text(l, marker) {
        Some(i) => last_number(l.take(i)),
        None => None,
    }
}

/// The last number among the first `end` characters of `line` (see
/// `last_number`).
fn number_before(line: &str, end: usize) -> (r: Option<u64>)
    requires
        end <= line@.len(),
    ensures
        r == last_number(line@.take(end as int)),
{
    let mut q: usize = end;
    loop
        invariant
            end <= line@.len(),
            q <= end,
            last_number(line@.take(end as int)) == last_number(line@.take(q as int)),
        decreases q,
    {
        let ghost s = line@.take(q as int);
        let mut a: usize = q;
        while a > 0 && is_whitespace(line.get_char(a - 1))
            invariant
                q <= line@.len(),
                a <= q,
                forall|i: int| a <= i < q ==> is_ws(#[trigger] line@[i]),
            decreases a,
        {
            a = a - 1;
        }
        proof {
            assert forall|i: int| s.len() - (q - a) <= i < s.len() implies is_ws(#[trigger] s[i]) by {
                assert(s[i] == line@[i]);
            }
            if a > 0 {
                assert(s[s.len() - (q - a) - 1] == line@[a - 1]);
            }
            lemma_trail_ws_unique(s, q - a);
            assert(s.take(s.len() - trail_ws(s)) =~= line@.take(a as int));
        }
        if a == 0 {
            return None;
        }
        let ghost t = line@.take(a as int);
        let mut b: usize = a;
        while b > 0 && !is_whitespace(line.get_char(b - 1))
            invariant
                a <= line@.len(),
                b <= a,
                forall|i: int| b <= i < a ==> !is_ws(#[trigger] line@[i]),
            decreases b,
        {
            b = b - 1;
        }
        proof {
            assert forall|i: int| t.len() - (a - b) <= i < t.len() implies !is_ws(#[trigger] t[i]) by {
                assert(t[i] == line@[i]);
            }
            if b > 0 {
                assert(t[t.len() - (a - b) - 1] == line@[b - 1]);
            }
            lemma_tail_word_len_unique(t, a - b);
        }
        let mut word = empty_string();
        let mut i: usize = b;
        while i < a
            invariant
                a <= line@.len(),
                b <= i <= a,
                word@ == strip_commas(line@.subrange(b as int, i as int)),
            decreases a - i,
        {
            let c = line.get_char(i);
            if c != ',' {
                push_char(&mut word, c);
            }
            proof {
                assert(line@.subrange(b as int, i as int + 1).drop_last() =~= line@.subrange(b as int, i as int));
                assert(line@.subrange(b as int, i as int + 1).last() == c);
            }
            i = i + 1;
        }
        proof {
            assert(t.skip(t.len() - (a - b)) =~= line@.subrange(b as int, a as int));
            assert(t.take(t.len() - (a - b)) =~= line@.take(b as int));
        }
        match parse_u64_str(word.as_str()) {
            Some(v) => {
                return Some(v);
            },
            None => {},
        }
        q = b;
    }
}

/// The count that a line gives for `marker` (see `count_before`).
fn count_for(line: &str, marker: &str) -> (r: Option<u64>)
    ensures
        r == count_before(line@, marker@),
{
    match find_str(line, marker) {
        Some(i) => {
            proof {
                lemma_index_of_text(line@, marker@);
            }
            number_before(line, i)
        },
        None => None,
    }
}

/// The text between the first two double quotes of `s`.
pub open spec fn quoted_text(s: Seq<char>) -> Option<Seq<char>> {
    match index_of(s, '"') {
        Some(a) => match index_of(s.skip(a + 1), '"') {
            Some(b) => Some(s.subrange(a + 1, a + 1 + b)),
            None => None,
        },
        None => None,
    }
}

/// The text between the first two double quotes.
pub fn extract_quoted_string(line: &str) -> (r: Option<String>)
    ensures
        match quoted_text(line@) {
            Some(q) => r matches Some(t) && t@ == q,
            None => r is None,
        },
{
    match find_char(line, '"') {
        Some(a) => {
            let n = line.unicode_len();
            let rest = line.substring_char(a + 1, n);
            assert(rest@ =~= line@.skip(a + 1));
            match find_char(rest, '"') {
                Some(b) => {
                    let q = line.substring_char(a + 1, a + 1 + b);
                    Some(to_owned_string(q))
                },
                None => None,
            }
        },
        None => None,
    }
}

/// What a counterexample state header `State <n>: <action>` gives: the
/// state number, and the action with its angle brackets removed, if any
/// text follows the colon.
pub open spec fn state_header(line: Seq<char>) -> Option<(nat, Option<Seq<char>>)> {
    if !"State "@.is_prefix_of(line) {
        None
    } else {
        let rest = trim(line.skip(6));
        match index_of(rest, ':') {
            None => None,
            Some(c) => match parse_unsigned(rest.take(c), usize::MAX as nat) {
                None => None,
                Some(num) => Some((num, if c + 1 < rest.len() {
                    let a = trim(rest.skip(c + 1));
                    if a.len() > 0 && a[0] == '<' && a.last() == '>' {
                        Some(a.subrange(1, a.len() - 1))
                    } else if a.len() > 0 {
                        Some(a)
                    } else {
                        None
                    }
                } else {
                    None
                })),
            },
        }
    }
}

/// Parses a counterexample state header `State <n>: <action>`.
pub fn parse_state_header(line: &str) -> (r: Option<(usize, Option<String>)>)
    ensures
        match state_header(line@) {
            Some((num, action)) => r matches Some((k, a)) && k == num && match action {
                Some(t) => a matches Some(x) && x@ == t,
                None => a is None,
            },
            None => r is None,
        },
{
    proof { reveal_strlit("State "); }
    let after = match strip_prefix_str(line, "State ") {
        Some(t) => t,
        None => return None,
    };
    let rest = trim_str(after);
    let c = match find_char(rest, ':') {
        Some(c) => c,
        None => return None,
    };
    proof { lemma_index_of(rest@, ':'); }
    let head = rest.substring_char(0, c);
    assert(head@ =~= rest@.take(c as int));
    let num = match parse_usize_str(head) {
        Some(v) => v,
        None => return None,
    };
    let len = rest.unicode_len();
    let action: Option<String> = if c + 1 < len {
        let tail = rest.substring_char(c + 1, len);
        assert(tail@ =~= rest@.skip(c + 1));
        let a = trim_str(tail);
        let m = a.unicode_len();
        if m > 0 && a.get_char(0) == '<' && a.get_char(m - 1) == '>' {
            Some(to_owned_string(a.substring_char(1, m - 1)))
        } else if m > 0 {
            Some(to_owned_string(a))
        } else {
            None
        }
    } else {
        None
    };
    Some((num, action))
}

/// Parsing the value of a variable assignment line is defined.
pub open spec fn assignment_defined(line: Seq<char>) -> bool {
    let t = trim(line);
    "/\\"@.is_prefix_of(t) ==> match index_of(trim(t.skip(2)), '=') {
        Some(e) => tla_parse_defined(trim(trim(t.skip(2)).skip(e + 1))),
        None => true,
    }
}

/// What a variable assignment line `/\ name = value` gives: the trimmed
/// name and the parsed value.
pub open spec fn assignment(line: Seq<char>) -> Option<(Seq<char>, TlaModel)> {
    let t = trim(line);
    if !"/\\"@.is_prefix_of(t) {
        None
    } else {
        let rest = trim(t.skip(2));
        match index_of(rest, '=') {
            Some(e) => Some((trim(rest.take(e)), tla_parse(trim(rest.skip(e + 1))))),
            None => None,
        }
    }
}

/// Parses a variable assignment line `/\ name = value`.
pub fn parse_variable_assignment(line: &str) -> (r: Option<(String, TlaValue)>)
    requires
        assignment_defined(line@),
    ensures
        match assignment(line@) {
            Some((name, v)) => r matches Some((k, x)) && k@ == name && tla_model(x) == v,
            None => r is None,
        },
{
    proof { reveal_strlit("/\\"); }
    let t = trim_str(line);
    let after = match strip_prefix_str(t, "/\\") {
        Some(a) => a,
        None => return None,
    };
    let rest = trim_str(after);
    let e = match find_char(rest, '=') {
        Some(e) => e,
        None => return None,
    };
    proof { lemma_index_of(rest@, '='); }
    let len = rest.unicode_len();
    let name = trim_str(rest.substring_char(0, e));
    assert(rest@.subrange(0, e as int) =~= rest@.take(e as int));
    let value_text = rest.substring_char(e + 1, len);
    assert(value_text@ =~= rest@.skip(e + 1));
    let vt = trim_str(value_text);
    let value = parse_tla_value(vt);
    Some((to_owned_string(name), value))
}

/// The text of an optional string.
pub open spec fn opt_text(o: Option<String>) -> Option<Seq<char>> {
    match o {
        Some(s) => Some(s@),
        None => None,
    }
}

/// The variables of a state as a map from name to value.
pub open spec fn vars_model(v: Seq<(String, TlaValue)>) -> Map<Seq<char>, TlaModel> {
    Map::new(|k: Seq<char>| named_value(v, k) is Some, |k: Seq<char>| tla_model(named_value(v, k).unwrap()))
}

/// The mathematical form of a counterexample state.
pub struct StateModel {
    /// The state number.
    pub step: nat,
    /// The action that led to it.
    pub action: Option<Seq<char>>,
    /// The variable values.
    pub vars: Map<Seq<char>, TlaModel>,
}

/// The mathematical form of a state.
pub open spec fn state_model(s: CounterexampleState) -> StateModel {
    StateModel { step: s.step as nat, action: opt_text(s.action), vars: vars_model(s.variables@) }
}

/// The mathematical forms of states.
pub open spec fn states_model(v: Seq<CounterexampleState>) -> Seq<StateModel> {
    v.map_values(|s: CounterexampleState| state_model(s))
}

/// The mathematical form of a counterexample trace.
pub struct TraceModel {
    /// The states.
    pub states: Seq<StateModel>,
    /// Whether the trace loops back.
    pub is_lasso: bool,
    /// Where the loop starts.
    pub loop_start: Option<nat>,
}

/// The mathematical form of a trace (the parser sets no property or
/// description).
pub open spec fn trace_model(t: CounterexampleTrace) -> TraceModel {
    TraceModel {
        states: states_model(t.states@),
        is_lasso: t.is_lasso,
        loop_start: match t.loop_start { Some(l) => Some(l as nat), None => None },
    }
}

/// What reading TLC's output has found so far.
pub struct TlcParseModel {
    /// The version line.
    pub version: Option<Seq<char>>,
    /// States generated.
    pub generated: Option<u64>,
    /// Distinct states.
    pub distinct: Option<u64>,
    /// States left on the queue.
    pub left: Option<u64>,
    /// Whether checking completed.
    pub completed: bool,
    /// Error lines.
    pub errors: Seq<Seq<char>>,
    /// Warning lines.
    pub warnings: Seq<Seq<char>>,
    /// Whether a counterexample is being read.
    pub in_ce: bool,
    /// The finished states of the counterexample.
    pub states: Seq<StateModel>,
    /// The state being read.
    pub current: Option<StateModel>,
    /// The counterexample found at a loop-back line.
    pub ce: Option<TraceModel>,
}

/// Nothing read yet.
pub open spec fn parse_start() -> TlcParseModel {
    TlcParseModel {
        version: None, generated: None, distinct: None, left: None, completed: false,
        errors: Seq::empty(), warnings: Seq::empty(), in_ce: false, states: Seq::empty(),
        current: None, ce: None,
    }
}

/// `p` occurs in `s`.
pub open spec fn has_text(s: Seq<char>, p: Seq<char>) -> bool {
    index_of_text(s, p) is Some
}

/// A line that starts a counterexample.
pub open spec fn ce_start_line(l: Seq<char>) -> bool {
    has_text(l, "Error: Invariant"@) || has_text(l, "Error: Action property"@)
        || has_text(l, "The following sequence of states"@) || has_text(l, "Error: Temporal"@)
}

/// The counts, completion, errors and warnings that a line adds.
pub open spec fn parse_common(m: TlcParseModel, l: Seq<char>) -> TlcParseModel {
    let m1 = if count_before(l, "states generated"@) is Some { TlcParseModel { generated: count_before(l, "states generated"@), ..m } } else { m };
    let m2 = if count_before(l, "distinct states"@) is Some { TlcParseModel { distinct: count_before(l, "distinct states"@), ..m1 } } else { m1 };
    let m3 = if count_before(l, "left on queue"@) is Some { TlcParseModel { left: count_before(l, "left on queue"@), ..m2 } } else { m2 };
    let m4 = if has_text(l, "Model checking completed"@) { TlcParseModel { completed: true, ..m3 } } else { m3 };
    let m5 = if has_text(l, "Error:"@) || "Error "@.is_prefix_of(l) { TlcParseModel { errors: m4.errors.push(l), ..m4 } } else { m4 };
    if has_text(l, "Warning:"@) { TlcParseModel { warnings: m5.warnings.push(l), ..m5 } } else { m5 }
}

/// The states with the current one, if any, finished.
pub open spec fn finish_current(m: TlcParseModel) -> Seq<StateModel> {
    match m.current {
        Some(c) => m.states.push(c),
        None => m.states,
    }
}

/// Reading one line of TLC's output.
pub open spec fn parse_line(m: TlcParseModel, l: Seq<char>) -> TlcParseModel {
    if "TLC2 Version"@.is_prefix_of(l) || "TLC Version"@.is_prefix_of(l) {
        TlcParseModel { version: Some(l), ..m }
    } else {
        let c = parse_common(m, l);
        if ce_start_line(l) {
            TlcParseModel { in_ce: true, ..c }
        } else if !c.in_ce {
            c
        } else if "State "@.is_prefix_of(l) {
            let st = finish_current(c);
            match state_header(l) {
                Some((num, act)) => TlcParseModel { states: st, current: Some(StateModel { step: num, action: act, vars: Map::empty() }), ..c },
                None => TlcParseModel { states: st, current: None, ..c },
            }
        } else if "/\\"@.is_prefix_of(l) || "  /\\"@.is_prefix_of(l) {
            match (c.current, assignment(l)) {
                (Some(cur), Some((k, v))) => TlcParseModel { current: Some(StateModel { vars: cur.vars.insert(k, v), ..cur }), ..c },
                _ => c,
            }
        } else if l.len() == 0 && c.current is Some {
            c
        } else if has_text(l, "Back to state"@) {
            let st = finish_current(c);
            match first_number(l) {
                Some(n) => TlcParseModel {
                    states: st, current: None, in_ce: false,
                    ce: Some(TraceModel { states: st, is_lasso: true, loop_start: Some(((n as usize) - 1) as nat) }),
                    ..c
                },
                None => TlcParseModel { states: st, current: None, in_ce: false, ..c },
            }
        } else {
            c
        }
    }
}

/// Reading a line is defined: an assignment's value parses, and a
/// loop-back line does not name state 0.
pub open spec fn line_defined(m: TlcParseModel, l: Seq<char>) -> bool {
    let c = parse_common(m, l);
    !("TLC2 Version"@.is_prefix_of(l) || "TLC Version"@.is_prefix_of(l)) && !ce_start_line(l) && c.in_ce ==> {
        &&& (!"State "@.is_prefix_of(l) && ("/\\"@.is_prefix_of(l) || "  /\\"@.is_prefix_of(l)) && c.current is Some
                ==> assignment_defined(l))
        &&& (!"State "@.is_prefix_of(l) && !("/\\"@.is_prefix_of(l) || "  /\\"@.is_prefix_of(l))
                && !(l.len() == 0 && c.current is Some) && has_text(l, "Back to state"@)
                ==> (first_number(l) matches Some(n) ==> (n as usize) != 0))
    }
}

/// Reading the lines in order.
pub open spec fn parse_lines(lines: Seq<Seq<char>>) -> TlcParseModel
    decreases lines.len(),
{
    if lines.len() == 0 { parse_start() } else { parse_line(parse_lines(lines.drop_last()), lines.last()) }
}

/// Reading the lines in order is defined.
pub open spec fn lines_defined(lines: Seq<Seq<char>>) -> bool
    decreases lines.len(),
{
    lines.len() == 0 || (lines_defined(lines.drop_last()) && line_defined(parse_lines(lines.drop_last()), lines.last()))
}

/// The parsed output after all lines: the state being read is finished,
/// and without a loop-back the states read form the counterexample.
pub open spec fn parse_result(m: TlcParseModel) -> TlcParseModel {
    let st = finish_current(m);
    TlcParseModel {
        states: st,
        current: None,
        ce: if st.len() > 0 && m.ce is None { Some(TraceModel { states: st, is_lasso: false, loop_start: None }) } else { m.ce },
        ..m
    }
}

/// Variables with the same names and values in the same order describe
/// the same map.
proof fn lemma_same_vars(a: Seq<(String, TlaValue)>, b: Seq<(String, TlaValue)>)
    requires
        distinct_names(a),
        a.len() == b.len(),
        forall|i: int| 0 <= i < a.len() ==> (#[trigger] b[i]).0@ == a[i].0@ && tla_model(b[i].1) == tla_model(a[i].1),
    ensures
        distinct_names(b),
        vars_model(b) == vars_model(a),
{
    assert forall|i: int, j: int| #![trigger b[i], b[j]] 0 <= i < b.len() && 0 <= j < b.len() && i != j implies b[i].0@ != b[j].0@ by {
        assert(a[i].0@ != a[j].0@);
    }
    assert forall|k: Seq<char>| #[trigger] named_value(b, k) is Some == named_value(a, k) is Some
        && (named_value(a, k) is Some ==> tla_model(named_value(b, k).unwrap()) == tla_model(named_value(a, k).unwrap())) by {
        if named_value(a, k) is Some {
            let i = choose|i: int| 0 <= i < a.len() && (#[trigger] a[i]).0@ == k;
            crate::named::lemma_named_at(a, i);
            assert(b[i].0@ == k);
            crate::named::lemma_named_at(b, i);
        }
        if named_value(b, k) is Some {
            let i = choose|i: int| 0 <= i < b.len() && (#[trigger] b[i]).0@ == k;
            assert(a[i].0@ == k);
        }
    }
    assert(vars_model(b) =~= vars_model(a));
}

/// A deep copy of a state.
fn copy_state(s: &CounterexampleState) -> (r: CounterexampleState)
    requires
        distinct_names(s.variables@),
    ensures
        distinct_names(r.variables@),
        state_model(r) == state_model(*s),
        r.annotations is None,
{
    let mut vars: Vec<(String, TlaValue)> = Vec::new();
    let n = s.variables.len();
    let mut i: usize = 0;
    while i < n
        invariant
            n == s.variables@.len(),
            i <= n,
            vars@.len() == i,
            forall|t: int| 0 <= t < i ==> (#[trigger] vars@[t]).0@ == s.variables@[t].0@
                && tla_model(vars@[t].1) == tla_model(s.variables@[t].1),
        decreases n - i,
    {
        let v = s.variables[i].1.copy();
        vars.push((to_owned_string(s.variables[i].0.as_str()), v));
        i = i + 1;
    }
    proof { lemma_same_vars(s.variables@, vars@); }
    let action = match &s.action {
        Some(a) => Some(to_owned_string(a.as_str())),
        None => None,
    };
    CounterexampleState { step: s.step, action, variables: vars, annotations: None }
}

/// Deep copies of states.
fn copy_states(v: &Vec<CounterexampleState>) -> (r: Vec<CounterexampleState>)
    requires
        forall|i: int| 0 <= i < v@.len() ==> distinct_names((#[trigger] v@[i]).variables@),
    ensures
        states_model(r@) == states_model(v@),
        forall|i: int| 0 <= i < r@.len() ==> distinct_names((#[trigger] r@[i]).variables@),
{
    let mut out: Vec<CounterexampleState> = Vec::new();
    let n = v.len();
    let mut i: usize = 0;
    while i < n
        invariant
            n == v@.len(),
            forall|t: int| 0 <= t < v@.len() ==> distinct_names((#[trigger] v@[t]).variables@),
            i <= n,
            out@.len() == i,
            forall|t: int| 0 <= t < i ==> state_model(#[trigger] out@[t]) == state_model(v@[t]),
            forall|t: int| 0 <= t < i ==> distinct_names((#[trigger] out@[t]).variables@),
        decreases n - i,
    {
        out.push(copy_state(&v[i]));
        i = i + 1;
    }
    assert(states_model(out@) =~= states_model(v@));
    out
}

/// The reader's state while going through TLC's output.
struct TlcReader {
    output: ParsedTlcOutput,
    in_ce: bool,
    states: Vec<CounterexampleState>,
    current: Option<CounterexampleState>,
}

/// The reader's state as a model.
spec fn reader_model(r: TlcReader) -> TlcParseModel {
    TlcParseModel {
        version: opt_text(r.output.version),
        generated: r.output.states_generated,
        distinct: r.output.distinct_states,
        left: r.output.states_left,
        completed: r.output.completed,
        errors: string_views(r.output.errors@),
        warnings: string_views(r.output.warnings@),
        in_ce: r.in_ce,
        states: states_model(r.states@),
        current: match r.current { Some(c) => Some(state_model(c)), None => None },
        ce: match r.output.counterexample { Some(t) => Some(trace_model(t)), None => None },
    }
}

/// What the parser never sets stays empty, and variable names are
/// distinct.
pub open spec fn plain_output(o: ParsedTlcOutput) -> bool {
    &&& o.start_time is None && o.end_time is None
    &&& o.coverage@.len() == 0
    &&& (o.counterexample matches Some(t) ==> t.violated_property is None && t.description is None
        && forall|i: int| 0 <= i < t.states@.len() ==> distinct_names((#[trigger] t.states@[i]).variables@))
}

spec fn reader_wf(r: TlcReader) -> bool {
    &&& plain_output(r.output)
    &&& forall|i: int| 0 <= i < r.states@.len() ==> distinct_names((#[trigger] r.states@[i]).variables@)
    &&& (r.current matches Some(c) ==> distinct_names(c.variables@))
}

/// Records the counts, completion, errors and warnings of a line.
fn read_common(r: &mut TlcReader, line: &str)
    requires
        reader_wf(*old(r)),
    ensures
        reader_wf(*final(r)),
        reader_model(*final(r)) == parse_common(reader_model(*old(r)), line@),
{
    let ghost m0 = reader_model(*r);
    match count_for(line, "states generated") {
        Some(c) => { r.output.states_generated = Some(c); },
        None => {},
    }
    match count_for(line, "distinct states") {
        Some(c) => { r.output.distinct_states = Some(c); },
        None => {},
    }
    match count_for(line, "left on queue") {
        Some(c) => { r.output.states_left = Some(c); },
        None => {},
    }
    if contains_str(line, "Model checking completed") {
        r.output.completed = true;
    }
    let ghost e0 = r.output.errors@;
    if contains_str(line, "Error:") || starts_with_str(line, "Error ") {
        r.output.errors.push(to_owned_string(line));
        assert(string_views(r.output.errors@) =~= string_views(e0).push(line@));
    }
    let ghost w0 = r.output.warnings@;
    if contains_str(line, "Warning:") {
        r.output.warnings.push(to_owned_string(line));
        assert(string_views(r.output.warnings@) =~= string_views(w0).push(line@));
    }
}

/// Finishes the state being read.
fn finish_state(r: &mut TlcReader)
    requires
        reader_wf(*old(r)),
    ensures
        reader_wf(*final(r)),
        reader_model(*final(r)) == (TlcParseModel { states: finish_current(reader_model(*old(r))), current: None, ..reader_model(*old(r)) }),
{
    match r.current.take() {
        Some(c) => { r.states.push(c); },
        None => {},
    }
    assert(states_model(r.states@) =~= finish_current(reader_model(*old(r))));
}

/// Starts a new state at a state header line.
fn read_state_header(r: &mut TlcReader, line: &str)
    requires
        reader_wf(*old(r)),
    ensures
        reader_wf(*final(r)),
        reader_model(*final(r)) == match state_header(line@) {
            Some((num, act)) => TlcParseModel { states: finish_current(reader_model(*old(r))),
                current: Some(StateModel { step: num, action: act, vars: Map::empty() }), ..reader_model(*old(r)) },
            None => TlcParseModel { states: finish_current(reader_model(*old(r))), current: None, ..reader_model(*old(r)) },
        },
{
    finish_state(r);
    match parse_state_header(line) {
        Some((num, act)) => {
            let mut st = CounterexampleState::new(num);
            match act {
                Some(a) => { st = st.with_action(a.as_str()); },
                None => {},
            }
            assert(vars_model(st.variables@) =~= Map::empty());
            r.current = Some(st);
        },
        None => {},
    }
}

/// Records a variable assignment in the state being read.
fn read_assignment(r: &mut TlcReader, line: &str)
    requires
        reader_wf(*old(r)),
        old(r).current is Some ==> assignment_defined(line@),
    ensures
        reader_wf(*final(r)),
        reader_model(*final(r)) == match (reader_model(*old(r)).current, assignment(line@)) {
            (Some(cur), Some((k, v))) => TlcParseModel { current: Some(StateModel { vars: cur.vars.insert(k, v), ..cur }), ..reader_model(*old(r)) },
            _ => reader_model(*old(r)),
        },
{
    match r.current.take() {
        Some(cur) => {
            let mut cur = cur;
            let ghost vm0 = vars_model(cur.variables@);
            match parse_variable_assignment(line) {
                Some((k, v)) => {
                    let ghost kv = k@;
                    let ghost mv = tla_model(v);
                    set_named(&mut cur.variables, k, v);
                    proof {
                        assert(vars_model(cur.variables@) =~= vm0.insert(kv, mv));
                    }
                },
                None => {},
            }
            r.current = Some(cur);
        },
        None => {},
    }
}

/// Ends the counterexample at a loop-back line.
fn read_loop_back(r: &mut TlcReader, line: &str)
    requires
        reader_wf(*old(r)),
        first_number(line@) matches Some(n) ==> (n as usize) != 0,
    ensures
        reader_wf(*final(r)),
        reader_model(*final(r)) == match first_number(line@) {
            Some(n) => TlcParseModel {
                states: finish_current(reader_model(*old(r))), current: None, in_ce: false,
                ce: Some(TraceModel { states: finish_current(reader_model(*old(r))), is_lasso: true, loop_start: Some(((n as usize) - 1) as nat) }),
                ..reader_model(*old(r))
            },
            None => TlcParseModel { states: finish_current(reader_model(*old(r))), current: None, in_ce: false, ..reader_model(*old(r)) },
        },
{
    finish_state(r);
    match extract_number(line) {
        Some(n) => {
            let copies = copy_states(&r.states);
            let trace = CounterexampleTrace::new(copies).with_lasso((n as usize) - 1);
            r.output.counterexample = Some(trace);
        },
        None => {},
    }
    r.in_ce = false;
}

/// Reads one line of TLC's output.
fn read_line(r: &mut TlcReader, line: &str)
    requires
        reader_wf(*old(r)),
        line_defined(reader_model(*old(r)), line@),
    ensures
        reader_wf(*final(r)),
        reader_model(*final(r)) == parse_line(reader_model(*old(r)), line@),
{
    if starts_with_str(line, "TLC2 Version") || starts_with_str(line, "TLC Version") {
        r.output.version = Some(to_owned_string(line));
        return;
    }
    read_common(r, line);
    if contains_str(line, "Error: Invariant") || contains_str(line, "Error: Action property")
        || contains_str(line, "The following sequence of states") || contains_str(line, "Error: Temporal") {
        r.in_ce = true;
        return;
    }
    if !r.in_ce {
        return;
    }
    if starts_with_str(line, "State ") {
        read_state_header(r, line);
        return;
    }
    if starts_with_str(line, "/\\") || starts_with_str(line, "  /\\") {
        read_assignment(r, line);
        return;
    }
    if line.unicode_len() == 0 && r.current.is_some() {
        return;
    }
    if contains_str(line, "Back to state") {
        read_loop_back(r, line);
    }
}

proof fn lemma_lines_defined_at(s: Seq<Seq<char>>, i: int)
    requires
        lines_defined(s),
        0 <= i < s.len(),
    ensures
        line_defined(parse_lines(s.take(i)), s[i]),
    decreases s.len(),
{
    if i == s.len() - 1 {
        assert(s.take(i) =~= s.drop_last());
    } else {
        assert(s.drop_last().take(i) =~= s.take(i));
        assert(s.drop_last()[i] == s[i]);
        lemma_lines_defined_at(s.drop_last(), i);
    }
}

/// The parsed output shows the model's findings.
pub open spec fn parsed_as(o: ParsedTlcOutput, m: TlcParseModel) -> bool {
    &&& opt_text(o.version) == m.version
    &&& o.states_generated == m.generated
    &&& o.distinct_states == m.distinct
    &&& o.states_left == m.left
    &&& o.completed == m.completed
    &&& string_views(o.errors@) == m.errors
    &&& string_views(o.warnings@) == m.warnings
    &&& (match o.counterexample { Some(t) => Some(trace_model(t)), None => None }) == m.ce
}

/// Parses TLC's standard output: version, state counts, completion,
/// error and warning lines, and the counterexample.
pub fn parse_tlc_output(lines: &Vec<String>) -> (r: ParsedTlcOutput)
    requires
        lines_defined(string_views(lines@)),
    ensures
        plain_output(r),
        parsed_as(r, parse_result(parse_lines(string_views(lines@)))),
{
    let ghost ls = string_views(lines@);
    let mut rd = TlcReader { output: ParsedTlcOutput::new(), in_ce: false, states: Vec::new(), current: None };
    proof {
        assert(ls.take(0) =~= Seq::<Seq<char>>::empty());
        assert(states_model(rd.states@) =~= Seq::<StateModel>::empty());
        assert(string_views(rd.output.errors@) =~= Seq::<Seq<char>>::empty());
        assert(string_views(rd.output.warnings@) =~= Seq::<Seq<char>>::empty());
    }
    let n = lines.len();
    let mut i: usize = 0;
    while i < n
        invariant
            n == lines@.len(),
            ls == string_views(lines@),
            lines_defined(ls),
            i <= n,
            reader_wf(rd),
            reader_model(rd) == parse_lines(ls.take(i as int)),
        decreases n - i,
    {
        proof {
            lemma_lines_defined_at(ls, i as int);
            assert(ls[i as int] == lines@[i as int]@);
            assert(ls.take(i as int + 1).drop_last() =~= ls.take(i as int));
        }
        read_line(&mut rd, lines[i].as_str());
        i = i + 1;
    }
    assert(ls.take(n as int) =~= ls);
    finish_state(&mut rd);
    let TlcReader { output, states, .. } = rd;
    let mut output = output;
    if states.len() > 0 && output.counterexample.is_none() {
        output.counterexample = Some(CounterexampleTrace::new(states));
    }
    output
}

/// Whether parsing a variable assignment line is defined (see
/// `assignment_defined`).
pub fn assignment_parsable(line: &str) -> (r: bool)
    ensures
        r == assignment_defined(line@),
{
    proof { reveal_strlit("/\\"); }
    let t = trim_str(line);
    let after = match strip_prefix_str(t, "/\\") {
        Some(a) => a,
        None => return true,
    };
    let rest = trim_str(after);
    let e = match find_char(rest, '=') {
        Some(e) => e,
        None => return true,
    };
    proof { lemma_index_of(rest@, '='); }
    let len = rest.unicode_len();
    let value_text = rest.substring_char(e + 1, len);
    assert(value_text@ =~= rest@.skip(e + 1));
    tla_parsable(trim_str(value_text))
}

/// Whether reading a line after what the reader has read is defined (see
/// `line_defined`).
fn line_parsable(r: &TlcReader, line: &str) -> (b: bool)
    requires
        reader_wf(*r),
    ensures
        b == line_defined(reader_model(*r), line@),
{
    if starts_with_str(line, "TLC2 Version") || starts_with_str(line, "TLC Version") {
        return true;
    }
    if contains_str(line, "Error: Invariant") || contains_str(line, "Error: Action property")
        || contains_str(line, "The following sequence of states") || contains_str(line, "Error: Temporal") {
        return true;
    }
    if !r.in_ce {
        return true;
    }
    if starts_with_str(line, "State ") {
        return true;
    }
    if starts_with_str(line, "/\\") || starts_with_str(line, "  /\\") {
        return r.current.is_none() || assignment_parsable(line);
    }
    if line.unicode_len() == 0 && r.current.is_some() {
        return true;
    }
    if contains_str(line, "Back to state") {
        return match extract_number(line) {
            Some(n) => #[verifier::truncate] (n as usize) != 0,
            None => true,
        };
    }
    true
}

/// Whether parsing TLC's output is defined (see `lines_defined`): whether
/// `parse_tlc_output` and `TlcRunner::tlc_result` may be called on it.
pub fn tlc_output_parsable(lines: &Vec<String>) -> (r: bool)
    ensures
        r == lines_defined(string_views(lines@)),
{
    let ghost ls = string_views(lines@);
    let mut rd = TlcReader { output: ParsedTlcOutput::new(), in_ce: false, states: Vec::new(), current: None };
    proof {
        assert(ls.take(0) =~= Seq::<Seq<char>>::empty());
        assert(states_model(rd.states@) =~= Seq::<StateModel>::empty());
        assert(string_views(rd.output.errors@) =~= Seq::<Seq<char>>::empty());
        assert(string_views(rd.output.warnings@) =~= Seq::<Seq<char>>::empty());
    }
    let n = lines.len();
    let mut i: usize = 0;
    while i < n
        invariant
            n == lines@.len(),
            ls == string_views(lines@),
            i <= n,
            lines_defined(ls.take(i as int)),
            reader_wf(rd),
            reader_model(rd) == parse_lines(ls.take(i as int)),
        decreases n - i,
    {
        proof {
            assert(ls[i as int] == lines@[i as int]@);
            assert(ls.take(i as int + 1).drop_last() =~= ls.take(i as int));
            assert(ls.take(i as int + 1).last() == ls[i as int]);
        }
        if !line_parsable(&rd, lines[i].as_str()) {
            proof {
                if lines_defined(ls) {
                    lemma_lines_defined_at(ls, i as int);
                }
            }
            return false;
        }
        read_line(&mut rd, lines[i].as_str());
        i = i + 1;
    }
    assert(ls.take(n as int) =~= ls);
    true
}

/// The violation a line reports: its property type, description, and
/// the quoted property name for invariants and temporal properties.
pub open spec fn line_violation(l: Seq<char>) -> Option<(PropertyType, Seq<char>, Option<Seq<char>>)> {
    if has_text(l, "Error: Invariant"@) {
        Some((PropertyType::Invariant, l, quoted_text(l)))
    } else if has_text(l, "Error: Temporal"@) {
        Some((PropertyType::Temporal, l, quoted_text(l)))
    } else if has_text(l, "Deadlock reached"@) {
        Some((PropertyType::Deadlock, "Deadlock: no actions enabled"@, None))
    } else if has_text(l, "Assertion failed"@) {
        Some((PropertyType::Assertion, l, None))
    } else {
        None
    }
}

/// The violations the lines report, in order.
pub open spec fn lines_violations(ls: Seq<Seq<char>>) -> Seq<(PropertyType, Seq<char>, Option<Seq<char>>)>
    decreases ls.len(),
{
    if ls.len() == 0 {
        Seq::empty()
    } else {
        lines_violations(ls.drop_last()) + match line_violation(ls.last()) {
            Some(v) => seq![v],
            None => Seq::empty(),
        }
    }
}

/// A line of TLC's output reports a violation: it names a failing
/// invariant or temporal property, a deadlock, or a failed assertion.
pub open spec fn reports_violation(l: Seq<char>) -> bool {
    has_text(l, "Error: Invariant"@) || has_text(l, "Error: Temporal"@)
        || has_text(l, "Deadlock reached"@) || has_text(l, "Assertion failed"@)
}

/// The lines that report a violation, in order.
pub open spec fn violation_lines(ls: Seq<Seq<char>>) -> Seq<Seq<char>> {
    ls.filter(|l: Seq<char>| reports_violation(l))
}

/// Every line reporting a violation yields exactly one violation, and no
/// other line yields any: there are as many violations as such lines.
pub proof fn law_one_violation_per_line(ls: Seq<Seq<char>>)
    ensures
        lines_violations(ls).len() == violation_lines(ls).len(),
    decreases ls.len(),
{
    if ls.len() > 0 {
        law_one_violation_per_line(ls.drop_last());
        reveal(Seq::filter);
        assert(violation_lines(ls) == if reports_violation(ls.last()) {
            violation_lines(ls.drop_last()).push(ls.last())
        } else {
            violation_lines(ls.drop_last())
        });
    }
}

/// A violation reported by line `i` appears among the violations, in the
/// place given by the lines before it: a deadlock line (naming no
/// invariant or temporal property) as a deadlock, an invariant line as a
/// violated invariant described by the line, a temporal-property line as
/// a violated temporal property, an assertion line (naming none of the
/// others) as a failed assertion.
pub proof fn law_violation_of_line(ls: Seq<Seq<char>>, i: int)
    requires
        0 <= i < ls.len(),
        reports_violation(ls[i]),
    ensures
        ({
            let k = violation_lines(ls.take(i)).len();
            let w = lines_violations(ls)[k as int];
            &&& k < lines_violations(ls).len()
            &&& w.1 == (if has_text(ls[i], "Deadlock reached"@) && !has_text(ls[i], "Error: Invariant"@)
                    && !has_text(ls[i], "Error: Temporal"@) { "Deadlock: no actions enabled"@ } else { ls[i] })
            &&& (has_text(ls[i], "Error: Invariant"@) ==> w.0 == PropertyType::Invariant)
            &&& (!has_text(ls[i], "Error: Invariant"@) && has_text(ls[i], "Error: Temporal"@) ==> w.0 == PropertyType::Temporal)
            &&& (!has_text(ls[i], "Error: Invariant"@) && !has_text(ls[i], "Error: Temporal"@)
                    && has_text(ls[i], "Deadlock reached"@) ==> w.0 == PropertyType::Deadlock && w.2 is None)
            &&& (!has_text(ls[i], "Error: Invariant"@) && !has_text(ls[i], "Error: Temporal"@)
                    && !has_text(ls[i], "Deadlock reached"@) ==> w.0 == PropertyType::Assertion && w.2 is None)
        }),
    decreases ls.len(),
{
    if i < ls.len() - 1 {
        law_violation_of_line(ls.drop_last(), i);
        assert(ls.drop_last().take(i) =~= ls.take(i));
        assert(ls.drop_last()[i] == ls[i]);
    } else {
        assert(ls.take(i) =~= ls.drop_last());
        law_one_violation_per_line(ls.drop_last());
    }
}

/// A violation shows the reported type, description and name.
pub open spec fn violation_shows(v: PropertyViolation, w: (PropertyType, Seq<char>, Option<Seq<char>>)) -> bool {
    &&& v.property_type == w.0
    &&& v.description@ == w.1
    &&& opt_text(v.property_name) == w.2
    &&& v.action is None
}

/// A violation carries the step and the state of the counterexample's
/// last state, when there is a counterexample with states, and neither
/// otherwise.
pub open spec fn violation_at_end(v: PropertyViolation, ce: Option<TraceModel>) -> bool {
    match ce {
        Some(t) => if t.states.len() > 0 {
            (v.step matches Some(k) && k as nat == t.states.last().step)
                && (v.state matches Some(st) && state_model(st) == t.states.last())
        } else {
            v.step is None && v.state is None
        },
        None => v.step is None && v.state is None,
    }
}

/// The violations that TLC's output reports; each gets the step and a
/// copy of the counterexample's final state, when there is one.
pub fn extract_violations(lines: &Vec<String>, parsed: &ParsedTlcOutput) -> (r: Vec<PropertyViolation>)
    requires
        plain_output(*parsed),
    ensures
        r@.len() == lines_violations(string_views(lines@)).len(),
        forall|i: int| 0 <= i < r@.len() ==> violation_shows(#[trigger] r@[i], lines_violations(string_views(lines@))[i]),
        forall|i: int| 0 <= i < r@.len() ==> match parsed.counterexample {
            Some(t) => if t.states@.len() > 0 {
                (#[trigger] r@[i]).step == Some(t.states@.last().step)
                    && (r@[i].state matches Some(st) && state_model(st) == state_model(t.states@.last()))
            } else {
                r@[i].step is None && r@[i].state is None
            },
            None => r@[i].step is None && r@[i].state is None,
        },
{
    let ghost ls = string_views(lines@);
    let mut out: Vec<PropertyViolation> = Vec::new();
    let n = lines.len();
    let mut i: usize = 0;
    while i < n
        invariant
            n == lines@.len(),
            ls == string_views(lines@),
            i <= n,
            out@.len() == lines_violations(ls.take(i as int)).len(),
            forall|k: int| 0 <= k < out@.len() ==> violation_shows(#[trigger] out@[k], lines_violations(ls.take(i as int))[k]),
            forall|k: int| 0 <= k < out@.len() ==> (#[trigger] out@[k]).step is None && out@[k].state is None,
        decreases n - i,
    {
        let line = lines[i].as_str();
        proof {
            assert(ls[i as int] == line@);
            assert(ls.take(i as int + 1).drop_last() =~= ls.take(i as int));
        }
        let ghost before = out@;
        if contains_str(line, "Error: Invariant") {
            let v = PropertyViolation::new(PropertyType::Invariant, line);
            match extract_quoted_string(line) {
                Some(name) => { out.push(v.with_name(name.as_str())); },
                None => { out.push(v); },
            }
        } else if contains_str(line, "Error: Temporal") {
            let v = PropertyViolation::new(PropertyType::Temporal, line);
            match extract_quoted_string(line) {
                Some(name) => { out.push(v.with_name(name.as_str())); },
                None => { out.push(v); },
            }
        } else if contains_str(line, "Deadlock reached") {
            out.push(PropertyViolation::new(PropertyType::Deadlock, "Deadlock: no actions enabled"));
        } else if contains_str(line, "Assertion failed") {
            out.push(PropertyViolation::new(PropertyType::Assertion, line));
        }
        proof {
            let lv = lines_violations(ls.take(i as int + 1));
            assert forall|k: int| 0 <= k < out@.len() implies violation_shows(#[trigger] out@[k], lv[k]) by {
                if k < before.len() {
                    assert(out@[k] == before[k]);
                }
            }
        }
        i = i + 1;
    }
    assert(ls.take(n as int) =~= ls);
    match &parsed.counterexample {
        Some(t) => {
            if t.states.len() > 0 {
                let last = &t.states[t.states.len() - 1];
                let ghost before = out@;
                let m = out.len();
                let mut result: Vec<PropertyViolation> = Vec::new();
                let mut k: usize = 0;
                while k < m
                    invariant
                        m == before.len(),
                        forall|j: int| 0 <= j < before.len() ==> violation_shows(#[trigger] before[j], lines_violations(ls)[j]),
                        distinct_names(last.variables@),
                        k <= m,
                        result@.len() == k,
                        forall|j: int| 0 <= j < k ==> violation_shows(#[trigger] result@[j], lines_violations(ls)[j])
                            && result@[j].step == Some(last.step)
                            && (result@[j].state matches Some(st) && state_model(st) == state_model(*last)),
                        out@ == before,
                    decreases m - k,
                {
                    let v = &out[k];
                    let name = match &v.property_name {
                        Some(x) => Some(to_owned_string(x.as_str())),
                        None => None,
                    };
                    let copy = PropertyViolation {
                        property_type: v.property_type,
                        property_name: name,
                        description: to_owned_string(v.description.as_str()),
                        step: Some(last.step),
                        state: Some(copy_state(last)),
                        action: None,
                    };
                    result.push(copy);
                    k = k + 1;
                }
                return result;
            }
            out
        },
        None => out,
    }
}

/// `a` joined with the path component `b` (a `/` in between unless `a`
/// is empty or ends with one).
pub open spec fn path_join(a: Seq<char>, b: Seq<char>) -> Seq<char> {
    if a.len() == 0 { b } else if a.last() == '/' { a + b } else { a + "/"@ + b }
}

/// Appends a path component.
fn join_path(a: &str, b: &str) -> (r: String)
    ensures
        r@ == path_join(a@, b@),
{
    let mut s = to_owned_string(a);
    let n = a.unicode_len();
    if n > 0 && a.get_char(n - 1) != '/' {
        push_str(&mut s, "/");
    }
    push_str(&mut s, b);
    s
}

/// The texts joined with newlines between them.
pub open spec fn join_lines(parts: Seq<Seq<char>>) -> Seq<char>
    decreases parts.len(),
{
    if parts.len() == 0 {
        Seq::empty()
    } else if parts.len() == 1 {
        parts[0]
    } else {
        join_lines(parts.drop_last()) + "\n"@ + parts.last()
    }
}

/// Appends the lines joined with newlines.
fn push_lines(s: &mut String, parts: &Vec<String>)
    ensures
        final(s)@ == old(s)@ + join_lines(string_views(parts@)),
{
    let n = parts.len();
    let mut i: usize = 0;
    while i < n
        invariant
            n == parts@.len(),
            i <= n,
            s@ == old(s)@ + join_lines(string_views(parts@.take(i as int))),
        decreases n - i,
    {
        if i > 0 {
            push_str(s, "\n");
        }
        push_str(s, parts[i].as_str());
        proof {
            let v = string_views(parts@.take(i as int + 1));
            assert(v.drop_last() =~= string_views(parts@.take(i as int)));
            assert(s@ =~= old(s)@ + join_lines(v));
        }
        i = i + 1;
    }
    assert(parts@.take(n as int) =~= parts@);
}

/// A runner of TLC as a subprocess: its settings.
#[derive(Debug, Clone)]
pub struct TlcRunner {
    /// Path to tla2tools.jar.
    pub tla2tools_path: String,
    /// Java home directory.
    pub java_home: Option<String>,
    /// Maximum execution time.
    pub timeout: Duration,
    /// Number of worker threads.
    pub workers: u32,
    /// JVM heap size in megabytes.
    pub heap_size_mb: Option<u32>,
    /// Additional JVM arguments.
    pub jvm_args: Vec<String>,
    /// Additional TLC arguments.
    pub tlc_args: Vec<String>,
    /// Working directory for TLC.
    pub work_dir: Option<String>,
    /// Whether to capture raw output.
    pub capture_output: bool,
}

/// The arguments of the TLC command: heap settings, JVM arguments, the
/// jar, the worker count, the configuration's arguments, the extra TLC
/// arguments, then the specification.
pub open spec fn command_args_text(r: TlcRunner, spec_path: Seq<char>, config: Option<TlcConfig>) -> Seq<Seq<char>> {
    (match r.heap_size_mb {
        Some(h) => seq!["-Xmx"@ + decimal(h as nat) + "m"@, "-Xms"@ + decimal((h / 2) as nat) + "m"@],
        None => Seq::empty(),
    }) + string_views(r.jvm_args@)
        + seq!["-jar"@, r.tla2tools_path@, "-workers"@, decimal(r.workers as nat)]
        + (match config { Some(c) => args_text(c), None => Seq::empty() })
        + string_views(r.tlc_args@)
        + seq![spec_path]
}

/// Appends copies of the strings.
fn push_all(out: &mut Vec<String>, v: &Vec<String>)
    ensures
        string_views(final(out)@) == string_views(old(out)@) + string_views(v@),
{
    let ghost o0 = out@;
    let n = v.len();
    let mut i: usize = 0;
    while i < n
        invariant
            n == v@.len(),
            i <= n,
            out@.len() == o0.len() + i,
            forall|j: int| 0 <= j < o0.len() ==> (#[trigger] out@[j]) == o0[j],
            forall|j: int| 0 <= j < i ==> (#[trigger] out@[o0.len() + j])@ == v@[j]@,
        decreases n - i,
    {
        out.push(to_owned_string(v[i].as_str()));
        i = i + 1;
    }
    proof {
        assert forall|j: int| 0 <= j < out@.len() implies #[trigger] string_views(out@)[j] == (string_views(o0) + string_views(v@))[j] by {
            if j >= o0.len() {
                assert(out@[o0.len() + (j - o0.len())]@ == v@[j - o0.len()]@);
            }
        }
        assert(string_views(out@) =~= string_views(o0) + string_views(v@));
    }
}

impl TlcRunner {
    /// A runner with a 300 s timeout, one worker, no heap size, no extra
    /// arguments, capturing output.
    pub fn new(tla2tools_path: &str) -> (r: Self)
        ensures
            r.tla2tools_path@ == tla2tools_path@,
            r.java_home is None && r.heap_size_mb is None && r.work_dir is None,
            r.workers == 1,
            r.timeout == duration_of(300, 0),
            r.jvm_args@.len() == 0 && r.tlc_args@.len() == 0,
            r.capture_output,
    {
        TlcRunner {
            tla2tools_path: to_owned_string(tla2tools_path),
            java_home: None,
            timeout: duration_from_secs(300),
            workers: 1,
            heap_size_mb: None,
            jvm_args: Vec::new(),
            tlc_args: Vec::new(),
            work_dir: None,
            capture_output: true,
        }
    }

    /// A builder.
    pub fn builder(tla2tools_path: &str) -> (r: TlcRunnerBuilder)
        ensures
            r.runner.tla2tools_path@ == tla2tools_path@,
            r.runner.java_home is None && r.runner.heap_size_mb is None && r.runner.work_dir is None,
            r.runner.workers == 1,
            r.runner.jvm_args@.len() == 0 && r.runner.tlc_args@.len() == 0,
            r.runner.capture_output,
    {
        TlcRunnerBuilder::new(tla2tools_path)
    }

    /// Sets the Java home directory.
    pub fn with_java_home(self, java_home: &str) -> (r: Self)
        ensures
            r.java_home matches Some(h) && h@ == java_home@,
            r == (TlcRunner { java_home: r.java_home, ..self }),
    {
        TlcRunner { java_home: Some(to_owned_string(java_home)), ..self }
    }

    /// Sets the timeout.
    pub fn with_timeout(self, timeout: Duration) -> (r: Self)
        ensures
            r == (TlcRunner { timeout, ..self }),
    {
        TlcRunner { timeout, ..self }
    }

    /// Sets the number of workers.
    pub fn with_workers(self, workers: u32) -> (r: Self)
        ensures
            r == (TlcRunner { workers, ..self }),
    {
        TlcRunner { workers, ..self }
    }

    /// The Java executable: `<java_home>/bin/java`, or `java`.
    pub fn java_path(&self) -> (r: String)
        ensures
            r@ == match self.java_home {
                Some(h) => path_join(path_join(h@, "bin"@), "java"@),
                None => "java"@,
            },
    {
        match &self.java_home {
            Some(h) => {
                let bin = join_path(h.as_str(), "bin");
                join_path(bin.as_str(), "java")
            },
            None => to_owned_string("java"),
        }
    }

    /// The arguments of the TLC command for a specification.
    pub fn command_args(&self, spec_path: &str, config: Option<&TlcConfig>) -> (r: Vec<String>)
        ensures
            texts_are(r@, command_args_text(*self, spec_path@, match config { Some(c) => Some(*c), None => None })),
    {
        let mut args: Vec<String> = Vec::new();
        match self.heap_size_mb {
            Some(h) => {
                let mut a = to_owned_string("-Xmx");
                push_decimal(&mut a, h as u128);
                push_str(&mut a, "m");
                args.push(a);
                let mut b = to_owned_string("-Xms");
                push_decimal(&mut b, (h / 2) as u128);
                push_str(&mut b, "m");
                args.push(b);
            },
            None => {},
        }
        let ghost a0 = string_views(args@);
        push_all(&mut args, &self.jvm_args);
        let ghost a1 = string_views(args@);
        args.push(to_owned_string("-jar"));
        args.push(to_owned_string(self.tla2tools_path.as_str()));
        args.push(to_owned_string("-workers"));
        let mut w = empty_string();
        push_decimal(&mut w, self.workers as u128);
        args.push(w);
        let ghost a2 = string_views(args@);
        assert(a2 =~= a1 + seq!["-jar"@, self.tla2tools_path@, "-workers"@, decimal(self.workers as nat)]);
        match config {
            Some(c) => {
                let ca = c.to_args();
                assert(string_views(ca@) =~= args_text(*c));
                push_all(&mut args, &ca);
            },
            None => {},
        }
        push_all(&mut args, &self.tlc_args);
        let ghost a3 = string_views(args@);
        args.push(to_owned_string(spec_path));
        proof {
            let t = command_args_text(*self, spec_path@, match config { Some(c) => Some(*c), None => None });
            assert(string_views(args@) =~= a3.push(spec_path@));
            assert(string_views(args@) =~= t);
            assert forall|i: int| 0 <= i < args@.len() implies (#[trigger] args@[i])@ == t[i] by {
                assert(string_views(args@)[i] == args@[i]@);
            }
        }
        args
    }
}

/// A builder of TLC runners.
#[derive(Debug, Clone)]
pub struct TlcRunnerBuilder {
    /// The runner being built.
    pub runner: TlcRunner,
}

impl TlcRunnerBuilder {
    /// A builder starting from the default runner.
    pub fn new(tla2tools_path: &str) -> (r: Self)
        ensures
            r.runner.tla2tools_path@ == tla2tools_path@,
            r.runner.java_home is None && r.runner.heap_size_mb is None && r.runner.work_dir is None,
            r.runner.workers == 1,
            r.runner.jvm_args@.len() == 0 && r.runner.tlc_args@.len() == 0,
            r.runner.capture_output,
    {
        TlcRunnerBuilder { runner: TlcRunner::new(tla2tools_path) }
    }

    /// Sets the Java home directory.
    pub fn with_java_home(self, java_home: &str) -> (r: Self)
        ensures
            r.runner.java_home matches Some(h) && h@ == java_home@,
            r.runner == (TlcRunner { java_home: r.runner.java_home, ..self.runner }),
    {
        TlcRunnerBuilder { runner: TlcRunner { java_home: Some(to_owned_string(java_home)), ..self.runner } }
    }

    /// Sets the timeout.
    pub fn with_timeout(self, timeout: Duration) -> (r: Self)
        ensures
            r.runner == (TlcRunner { timeout, ..self.runner }),
    {
        TlcRunnerBuilder { runner: TlcRunner { timeout, ..self.runner } }
    }

    /// Sets the number of workers.
    pub fn with_workers(self, workers: u32) -> (r: Self)
        ensures
            r.runner == (TlcRunner { workers, ..self.runner }),
    {
        TlcRunnerBuilder { runner: TlcRunner { workers, ..self.runner } }
    }

    /// Sets the heap size in megabytes.
    pub fn with_heap_size(self, size_mb: u32) -> (r: Self)
        ensures
            r.runner == (TlcRunner { heap_size_mb: Some(size_mb), ..self.runner }),
    {
        TlcRunnerBuilder { runner: TlcRunner { heap_size_mb: Some(size_mb), ..self.runner } }
    }

    /// Adds a JVM argument.
    pub fn with_jvm_arg(self, arg: &str) -> (r: Self)
        ensures
            string_views(r.runner.jvm_args@) == string_views(self.runner.jvm_args@).push(arg@),
            r.runner == (TlcRunner { jvm_args: r.runner.jvm_args, ..self.runner }),
    {
        let mut b = self;
        b.runner.jvm_args.push(to_owned_string(arg));
        proof {
            assert(string_views(b.runner.jvm_args@) =~= string_views(self.runner.jvm_args@).push(arg@));
        }
        b
    }

    /// Adds a TLC argument.
    pub fn with_tlc_arg(self, arg: &str) -> (r: Self)
        ensures
            string_views(r.runner.tlc_args@) == string_views(self.runner.tlc_args@).push(arg@),
            r.runner == (TlcRunner { tlc_args: r.runner.tlc_args, ..self.runner }),
    {
        let mut b = self;
        b.runner.tlc_args.push(to_owned_string(arg));
        proof {
            assert(string_views(b.runner.tlc_args@) =~= string_views(self.runner.tlc_args@).push(arg@));
        }
        b
    }

    /// Sets the working directory.
    pub fn with_work_dir(self, dir: &str) -> (r: Self)
        ensures
            r.runner.work_dir matches Some(d) && d@ == dir@,
            r.runner == (TlcRunner { work_dir: r.runner.work_dir, ..self.runner }),
    {
        TlcRunnerBuilder { runner: TlcRunner { work_dir: Some(to_owned_string(dir)), ..self.runner } }
    }

    /// Enables or disables output capture.
    pub fn capture_output(self, capture: bool) -> (r: Self)
        ensures
            r.runner == (TlcRunner { capture_output: capture, ..self.runner }),
    {
        TlcRunnerBuilder { runner: TlcRunner { capture_output: capture, ..self.runner } }
    }

    /// The runner.
    pub fn build(self) -> (r: TlcRunner)
        ensures
            r == self.runner,
    {
        self.runner
    }
}

impl TlcRunner {
    /// The validation result of a finished TLC run, from its exit status,
    /// its output lines and how long it took: valid on success; invalid
    /// with the reported violations and the counterexample on a
    /// violation; an error with the error lines for a parse or semantic
    /// error; an error naming the status otherwise.
    pub fn tlc_result(&self, exit_status: TlcExitStatus, stdout_lines: &Vec<String>, stderr_lines: &Vec<String>, duration: Duration) -> (r: ValidationResult)
        requires
            lines_defined(string_views(stdout_lines@)),
        ensures
            ({
                let m = parse_result(parse_lines(string_views(stdout_lines@)));
                let vs = lines_violations(string_views(stdout_lines@));
                &&& (exit_status is Success ==> r.status is Valid && r.violations@.len() == 0 && r.counterexample is None)
                &&& ((exit_status is Violation || exit_status is SafetyViolation || exit_status is LivenessViolation || exit_status is Deadlock)
                    ==> r.status is Invalid && r.violations@.len() == vs.len()
                        && (forall|i: int| 0 <= i < vs.len() ==> violation_shows(#[trigger] r.violations@[i], vs[i]))
                        && (forall|i: int| 0 <= i < vs.len() ==> violation_at_end(#[trigger] r.violations@[i], m.ce))
                        && (match r.counterexample { Some(t) => Some(trace_model(t)), None => None }) == m.ce)
                &&& ((exit_status is ParseError || exit_status is SemanticError)
                    ==> (r.status matches ValidationStatus::Error(msg) && msg@ == join_lines(m.errors)) && r.violations@.len() == 0 && r.counterexample is None)
                &&& ((exit_status is Interrupted || exit_status is Unknown)
                    ==> (r.status matches ValidationStatus::Error(msg) && msg@ == "TLC returned status: "@ + exit_status_text(exit_status))
                        && r.violations@.len() == 0 && r.counterexample is None)
                &&& r.tlc_exit_status == Some(exit_status)
                &&& r.duration == Some(duration)
                &&& (m.generated is Some && m.distinct is Some ==> r.states_explored == m.generated && r.distinct_states == m.distinct)
                &&& (!(m.generated is Some && m.distinct is Some) ==> r.states_explored is None && r.distinct_states is None)
                &&& (self.capture_output ==> (r.raw_output matches Some(o)
                    && o@ == join_lines(string_views(stdout_lines@) + string_views(stderr_lines@))))
                &&& (!self.capture_output ==> r.raw_output is None)
                &&& r.diagnostics@.len() == 0
            }),
    {
        let parsed = parse_tlc_output(stdout_lines);
        let mut result = match exit_status {
            TlcExitStatus::Success => ValidationResult::valid(),
            TlcExitStatus::Violation | TlcExitStatus::SafetyViolation | TlcExitStatus::LivenessViolation
            | TlcExitStatus::Deadlock => {
                let violations = extract_violations(stdout_lines, &parsed);
                proof {
                    if parsed.counterexample is Some {
                        let t = parsed.counterexample.unwrap();
                        if t.states@.len() > 0 {
                            assert(states_model(t.states@).last() == state_model(t.states@.last()));
                        }
                    }
                    assert forall|i: int| 0 <= i < violations@.len() implies
                        violation_at_end(#[trigger] violations@[i], parse_result(parse_lines(string_views(stdout_lines@))).ce) by {
                        if parsed.counterexample is Some {
                            let t = parsed.counterexample.unwrap();
                            if t.states@.len() > 0 {
                                assert(states_model(t.states@).last() == state_model(t.states@.last()));
                            }
                        }
                    }
                }
                let r = ValidationResult::invalid(violations);
                match parsed.counterexample {
                    Some(ce) => r.with_counterexample(ce),
                    None => r,
                }
            },
            TlcExitStatus::ParseError | TlcExitStatus::SemanticError => {
                let mut msg = empty_string();
                push_lines(&mut msg, &parsed.errors);
                ValidationResult::error(msg.as_str())
            },
            _ => {
                let mut msg = to_owned_string("TLC returned status: ");
                let st = exit_status.to_string();
                push_str(&mut msg, st.as_str());
                ValidationResult::error(msg.as_str())
            },
        };
        result = result.with_exit_status(exit_status).with_duration(duration);
        match (parsed.states_generated, parsed.distinct_states) {
            (Some(explored), Some(distinct)) => {
                result = result.with_state_counts(explored, distinct);
            },
            _ => {},
        }
        if self.capture_output {
            let mut all: Vec<String> = Vec::new();
            push_all(&mut all, stdout_lines);
            push_all(&mut all, stderr_lines);
            let mut combined = empty_string();
            push_lines(&mut combined, &all);
            assert(string_views(all@) =~= string_views(stdout_lines@) + string_views(stderr_lines@));
            result = result.with_raw_output(combined.as_str());
        }
        result
    }
}

} // verus!
