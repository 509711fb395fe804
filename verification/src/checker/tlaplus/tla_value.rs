//! Values printed by TLC, and their parser.
use vstd::prelude::*;
use crate::text::to_owned_string;
use crate::text_scan::{lemma_trim_len, lemma_index_of_text, lemma_index_of, lemma_split_lengths, text_eq, starts_with_str, ends_with_str, trim, trim_str, index_of, index_of_text, find_str, split_at_char, split_char, parse_i64, parse_i64_str};

verus! {

/// A TLA+ value as TLC prints it.
#[derive(Debug)]
pub enum TlaValue {
    /// `TRUE` or `FALSE`.
    Bool(bool),
    /// An integer.
    Int(i64),
    /// A string, or text that is no other value.
    Str(String),
    /// A sequence `<< .. >>` or set `{ .. }`, as its items.
    List(Vec<TlaValue>),
    /// A function `[k |-> v, ..]`, as its entries in order.
    Record(Vec<(String, TlaValue)>),
}

/// The mathematical form of a TLA+ value.
pub enum TlaModel {
    /// A boolean.
    Bool(bool),
    /// An integer.
    Int(int),
    /// A string.
    Str(Seq<char>),
    /// A list of values.
    List(Seq<TlaModel>),
    /// Named entries in order.
    Record(Seq<(Seq<char>, TlaModel)>),
}

/// The mathematical form of a value.
pub open spec fn tla_model(v: TlaValue) -> TlaModel
    decreases v, 2int,
{
    match v {
        TlaValue::Bool(b) => TlaModel::Bool(b),
        TlaValue::Int(n) => TlaModel::Int(n as int),
        TlaValue::Str(s) => TlaModel::Str(s@),
        TlaValue::List(items) => TlaModel::List(list_models(items@)),
        TlaValue::Record(fields) => TlaModel::Record(field_models(fields@)),
    }
}

/// The mathematical forms of a list of values.
pub open spec fn list_models(items: Seq<TlaValue>) -> Seq<TlaModel>
    decreases items, 1int,
{
    if items.len() == 0 {
        Seq::empty()
    } else {
        list_models(items.drop_last()).push(tla_model(items.last()))
    }
}

/// The mathematical forms of named entries.
pub open spec fn field_models(fields: Seq<(String, TlaValue)>) -> Seq<(Seq<char>, TlaModel)>
    decreases fields, 1int,
{
    if fields.len() == 0 {
        Seq::empty()
    } else {
        field_models(fields.drop_last()).push((fields.last().0@, tla_model(fields.last().1)))
    }
}

/// Whether parsing the text is defined: a text that starts and ends with
/// a quote must have two characters at least, also inside lists and
/// records.
pub open spec fn tla_parse_defined(s: Seq<char>) -> bool
    decreases s.len(), 2int, 0nat,
{
    let t = trim(s);
    if t.len() > 0 && t[0] == '"' && t.last() == '"' && t != "TRUE"@ && t != "FALSE"@ && parse_i64(t) is None {
        t.len() >= 2
    } else if t.len() >= 4 && t != "TRUE"@ && t != "FALSE"@ && parse_i64(t) is None
        && "<<"@.is_prefix_of(t) && ">>"@.is_suffix_of(t) {
        items_defined(split_at_char(trim(t.subrange(2, t.len() - 2)), ','), (s.len() - 1) as nat)
    } else if t.len() >= 2 && t != "TRUE"@ && t != "FALSE"@ && parse_i64(t) is None && (t[0] == '{' && t.last() == '}') {
        items_defined(split_at_char(trim(t.subrange(1, t.len() - 1)), ','), (s.len() - 1) as nat)
    } else if t.len() >= 2 && t != "TRUE"@ && t != "FALSE"@ && parse_i64(t) is None && (t[0] == '[' && t.last() == ']') {
        fields_defined(split_at_char(trim(t.subrange(1, t.len() - 1)), ','), (s.len() - 1) as nat)
    } else {
        true
    }
}

/// Parsing each part is defined.
pub open spec fn items_defined(parts: Seq<Seq<char>>, n: nat) -> bool
    decreases n, 1int, parts.len(),
{
    if parts.len() == 0 {
        true
    } else {
        items_defined(parts.drop_last(), n) && (parts.last().len() < n ==> tla_parse_defined(parts.last()))
    }
}

/// Parsing each entry's value is defined.
pub open spec fn fields_defined(parts: Seq<Seq<char>>, n: nat) -> bool
    decreases n, 1int, parts.len(),
{
    if parts.len() == 0 {
        true
    } else {
        fields_defined(parts.drop_last(), n) && (parts.last().len() < n ==> match index_of_text(trim(parts.last()), "|->"@) {
            Some(a) => {
                proof {
                    reveal_strlit("|->");
                    lemma_trim_len(parts.last());
                    lemma_index_of_text(trim(parts.last()), "|->"@);
                }
                tla_parse_defined(trim(parts.last()).skip(a + 3))
            },
            None => true,
        })
    }
}

/// What TLC's text of a value parses to: `TRUE`/`FALSE`, an `i64`, a
/// quoted string, `<< .. >>` and `{ .. }` as lists of their
/// comma-separated items, `[k |-> v, ..]` as the entries that have an
/// arrow (when there is one), and anything else as its trimmed text.
pub open spec fn tla_parse(s: Seq<char>) -> TlaModel
    decreases s.len(), 2int, 0nat,
{
    let t = trim(s);
    if t == "TRUE"@ {
        TlaModel::Bool(true)
    } else if t == "FALSE"@ {
        TlaModel::Bool(false)
    } else if parse_i64(t) is Some {
        TlaModel::Int(parse_i64(t).unwrap())
    } else if t.len() > 0 && t[0] == '"' && t.last() == '"' {
        TlaModel::Str(t.subrange(1, t.len() - 1))
    } else if t.len() >= 4 && "<<"@.is_prefix_of(t) && ">>"@.is_suffix_of(t) {
        let inner = trim(t.subrange(2, t.len() - 2));
        if inner.len() == 0 {
            TlaModel::List(Seq::empty())
        } else {
            TlaModel::List(items_parse(split_at_char(inner, ','), (s.len() - 1) as nat))
        }
    } else if t.len() >= 2 && t[0] == '{' && t.last() == '}' {
        let inner = trim(t.subrange(1, t.len() - 1));
        if inner.len() == 0 {
            TlaModel::List(Seq::empty())
        } else {
            TlaModel::List(items_parse(split_at_char(inner, ','), (s.len() - 1) as nat))
        }
    } else if t.len() >= 2 && t[0] == '[' && t.last() == ']' {
        let fields = fields_parse(split_at_char(trim(t.subrange(1, t.len() - 1)), ','), (s.len() - 1) as nat);
        if fields.len() > 0 { TlaModel::Record(fields) } else { TlaModel::Str(t) }
    } else {
        TlaModel::Str(t)
    }
}

/// The values of the parts.
pub open spec fn items_parse(parts: Seq<Seq<char>>, n: nat) -> Seq<TlaModel>
    decreases n, 1int, parts.len(),
{
    if parts.len() == 0 {
        Seq::empty()
    } else {
        items_parse(parts.drop_last(), n) + if parts.last().len() < n { seq![tla_parse(parts.last())] } else { Seq::empty() }
    }
}

/// The entries of the parts that hold an arrow `|->`: the trimmed text
/// before it, and the value after it.
pub open spec fn fields_parse(parts: Seq<Seq<char>>, n: nat) -> Seq<(Seq<char>, TlaModel)>
    decreases n, 1int, parts.len(),
{
    if parts.len() == 0 {
        Seq::empty()
    } else {
        fields_parse(parts.drop_last(), n) + if parts.last().len() < n {
            match index_of_text(trim(parts.last()), "|->"@) {
                Some(a) => {
                    proof {
                        reveal_strlit("|->");
                        lemma_trim_len(parts.last());
                        lemma_index_of_text(trim(parts.last()), "|->"@);
                    }
                    seq![(trim(trim(parts.last()).take(a)), tla_parse(trim(parts.last()).skip(a + 3)))]
                },
                None => Seq::empty(),
            }
        } else {
            Seq::empty()
        }
    }
}

proof fn lemma_items_defined_at(parts: Seq<Seq<char>>, n: nat, i: int)
    requires
        items_defined(parts, n),
        0 <= i < parts.len(),
        parts[i].len() < n,
    ensures
        tla_parse_defined(parts[i]),
    decreases parts.len(),
{
    if i < parts.len() - 1 {
        assert(parts.drop_last()[i] == parts[i]);
        lemma_items_defined_at(parts.drop_last(), n, i);
    }
}

proof fn lemma_fields_defined_at(parts: Seq<Seq<char>>, n: nat, i: int)
    requires
        fields_defined(parts, n),
        0 <= i < parts.len(),
        parts[i].len() < n,
    ensures
        index_of_text(trim(parts[i]), "|->"@) matches Some(a) ==> tla_parse_defined(trim(parts[i]).skip(a + 3)),
    decreases parts.len(),
{
    if i < parts.len() - 1 {
        assert(parts.drop_last()[i] == parts[i]);
        lemma_fields_defined_at(parts.drop_last(), n, i);
    }
}

/// Parses TLC's text of a value.
pub fn parse_tla_value(s: &str) -> (r: TlaValue)
    requires
        tla_parse_defined(s@),
    ensures
        tla_model(r) == tla_parse(s@),
    decreases s@.len(),
{
    let t = trim_str(s);
    proof {
        lemma_trim_len(s@);
        reveal_strlit("TRUE");
        reveal_strlit("FALSE");
        reveal_strlit("<<");
        reveal_strlit(">>");
        reveal_strlit("|->");
    }
    if text_eq(t, "TRUE") {
        return TlaValue::Bool(true);
    }
    if text_eq(t, "FALSE") {
        return TlaValue::Bool(false);
    }
    match parse_i64_str(t) {
        Some(n) => {
            return TlaValue::Int(n);
        },
        None => {},
    }
    let len = t.unicode_len();
    if len > 0 && t.get_char(0) == '"' && t.get_char(len - 1) == '"' {
        return TlaValue::Str(to_owned_string(t.substring_char(1, len - 1)));
    }
    let ghost n = (s@.len() - 1) as nat;
    if starts_with_str(t, "<<") && ends_with_str(t, ">>") {
        proof {
            assert(t@.len() >= 2);
            assert(t@[0] == "<<"@[0] && t@[1] == "<<"@[1]);
            assert(t@[len - 2] == ">>"@[0] && t@[len - 1] == ">>"@[1]);
        }
        assert(len >= 4);
        let inner = trim_str(t.substring_char(2, len - 2));
        proof { lemma_trim_len(t@.subrange(2, len - 2)); }
        if inner.unicode_len() == 0 {
            return TlaValue::List(Vec::new());
        }
        let items = parse_items(inner, Ghost(n));
        return TlaValue::List(items);
    }
    if len > 0 && t.get_char(0) == '{' && t.get_char(len - 1) == '}' {
        let inner = trim_str(t.substring_char(1, len - 1));
        proof { lemma_trim_len(t@.subrange(1, len - 1)); }
        if inner.unicode_len() == 0 {
            return TlaValue::List(Vec::new());
        }
        let items = parse_items(inner, Ghost(n));
        return TlaValue::List(items);
    }
    if len > 0 && t.get_char(0) == '[' && t.get_char(len - 1) == ']' {
        let inner = trim_str(t.substring_char(1, len - 1));
        proof { lemma_trim_len(t@.subrange(1, len - 1)); }
        let fields = parse_fields(inner, Ghost(n));
        if fields.len() > 0 {
            return TlaValue::Record(fields);
        }
        return TlaValue::Str(to_owned_string(t));
    }
    TlaValue::Str(to_owned_string(t))
}

/// Parses each comma-separated part of `inner`.
fn parse_items(inner: &str, Ghost(n): Ghost<nat>) -> (r: Vec<TlaValue>)
    requires
        inner@.len() < n,
        items_defined(split_at_char(inner@, ','), n),
    ensures
        list_models(r@) == items_parse(split_at_char(inner@, ','), n),
    decreases n, 0nat,
{
    let parts = split_char(inner, ',');
    let ghost ps = split_at_char(inner@, ',');
    proof { lemma_split_lengths(inner@, ','); }
    let mut out: Vec<TlaValue> = Vec::new();
    let m = parts.len();
    let mut i: usize = 0;
    while i < m
        invariant
            m == parts@.len(),
            m == ps.len(),
            forall|k: int| 0 <= k < m ==> (#[trigger] parts@[k])@ == ps[k],
            forall|k: int| 0 <= k < ps.len() ==> (#[trigger] ps[k]).len() <= inner@.len(),
            inner@.len() < n,
            items_defined(ps, n),
            i <= m,
            list_models(out@) == items_parse(ps.take(i as int), n),
        decreases m - i,
    {
        proof {
            assert(parts@[i as int]@ == ps[i as int]);
            lemma_items_defined_at(ps, n, i as int);
        }
        let v = parse_tla_value(parts[i]);
        let ghost before = out@;
        out.push(v);
        proof {
            assert(ps.take(i as int + 1).drop_last() =~= ps.take(i as int));
            assert(out@.drop_last() =~= before);
        }
        i = i + 1;
    }
    assert(ps.take(m as int) =~= ps);
    out
}

/// Parses the comma-separated entries `key |-> value` of `inner`.
fn parse_fields(inner: &str, Ghost(n): Ghost<nat>) -> (r: Vec<(String, TlaValue)>)
    requires
        inner@.len() < n,
        fields_defined(split_at_char(inner@, ','), n),
    ensures
        field_models(r@) == fields_parse(split_at_char(inner@, ','), n),
    decreases n, 0nat,
{
    let parts = split_char(inner, ',');
    let ghost ps = split_at_char(inner@, ',');
    proof { lemma_split_lengths(inner@, ','); }
    let mut out: Vec<(String, TlaValue)> = Vec::new();
    let m = parts.len();
    let mut i: usize = 0;
    while i < m
        invariant
            m == parts@.len(),
            m == ps.len(),
            forall|k: int| 0 <= k < m ==> (#[trigger] parts@[k])@ == ps[k],
            forall|k: int| 0 <= k < ps.len() ==> (#[trigger] ps[k]).len() <= inner@.len(),
            inner@.len() < n,
            fields_defined(ps, n),
            i <= m,
            field_models(out@) == fields_parse(ps.take(i as int), n),
        decreases m - i,
    {
        proof {
            assert(parts@[i as int]@ == ps[i as int]);
            lemma_fields_defined_at(ps, n, i as int);
            assert(ps.take(i as int + 1).drop_last() =~= ps.take(i as int));
            reveal_strlit("|->");
        }
        let part = trim_str(parts[i]);
        proof { lemma_trim_len(ps[i as int]); }
        match find_str(part, "|->") {
            Some(a) => {
                proof { lemma_index_of_text(part@, "|->"@); }
                let plen = part.unicode_len();
                let key = trim_str(part.substring_char(0, a));
                let rest = part.substring_char(a + 3, plen);
                assert(rest@ =~= part@.skip(a + 3));
                assert(part@.subrange(0, a as int) =~= part@.take(a as int));
                let v = parse_tla_value(rest);
                let ghost before = out@;
                out.push((to_owned_string(key), v));
                proof {
                    assert(out@.drop_last() =~= before);
                }
            },
            None => {},
        }
        i = i + 1;
    }
    assert(ps.take(m as int) =~= ps);
    out
}

/// Whether parsing the text is defined (see `tla_parse_defined`): whether
/// `parse_tla_value` may be called on it.
pub fn tla_parsable(s: &str) -> (r: bool)
    ensures
        r == tla_parse_defined(s@),
    decreases s@.len(),
{
    let t = trim_str(s);
    proof {
        lemma_trim_len(s@);
        reveal_strlit("TRUE");
        reveal_strlit("FALSE");
        reveal_strlit("<<");
        reveal_strlit(">>");
    }
    if text_eq(t, "TRUE") || text_eq(t, "FALSE") {
        return true;
    }
    if parse_i64_str(t).is_some() {
        return true;
    }
    let len = t.unicode_len();
    if len > 0 && t.get_char(0) == '"' && t.get_char(len - 1) == '"' {
        return len >= 2;
    }
    let ghost n = (s@.len() - 1) as nat;
    if starts_with_str(t, "<<") && ends_with_str(t, ">>") {
        proof {
            assert(t@.len() >= 2);
            assert(t@[0] == "<<"@[0] && t@[1] == "<<"@[1]);
            assert(t@[len - 2] == ">>"@[0] && t@[len - 1] == ">>"@[1]);
        }
        if len >= 4 {
            let inner = trim_str(t.substring_char(2, len - 2));
            proof { lemma_trim_len(t@.subrange(2, len - 2)); }
            return items_parsable(inner, Ghost(n));
        }
    }
    if len > 0 && t.get_char(0) == '{' && t.get_char(len - 1) == '}' && len >= 2 {
        let inner = trim_str(t.substring_char(1, len - 1));
        proof { lemma_trim_len(t@.subrange(1, len - 1)); }
        return items_parsable(inner, Ghost(n));
    }
    if len > 0 && t.get_char(0) == '[' && t.get_char(len - 1) == ']' && len >= 2 {
        let inner = trim_str(t.substring_char(1, len - 1));
        proof { lemma_trim_len(t@.subrange(1, len - 1)); }
        return fields_parsable(inner, Ghost(n));
    }
    true
}

/// Whether parsing each comma-separated part of `inner` is defined.
fn items_parsable(inner: &str, Ghost(n): Ghost<nat>) -> (r: bool)
    requires
        inner@.len() < n,
    ensures
        r == items_defined(split_at_char(inner@, ','), n),
    decreases n, 0nat,
{
    let parts = split_char(inner, ',');
    let ghost ps = split_at_char(inner@, ',');
    proof { lemma_split_lengths(inner@, ','); }
    let m = parts.len();
    let mut i: usize = 0;
    assert(ps.take(0) =~= Seq::<Seq<char>>::empty());
    while i < m
        invariant
            m == parts@.len(),
            m == ps.len(),
            forall|k: int| 0 <= k < m ==> (#[trigger] parts@[k])@ == ps[k],
            forall|k: int| 0 <= k < ps.len() ==> (#[trigger] ps[k]).len() <= inner@.len(),
            inner@.len() < n,
            ps == split_at_char(inner@, ','),
            i <= m,
            items_defined(ps.take(i as int), n),
        decreases m - i,
    {
        proof {
            assert(parts@[i as int]@ == ps[i as int]);
            assert(ps.take(i as int + 1).drop_last() =~= ps.take(i as int));
            assert(ps.take(i as int + 1).last() == ps[i as int]);
        }
        if !tla_parsable(parts[i]) {
            proof {
                assert(ps[i as int].len() < n);
                assert(!tla_parse_defined(ps[i as int]));
                if items_defined(ps, n) {
                    lemma_items_defined_at(ps, n, i as int);
                }
            }
            return false;
        }
        i = i + 1;
    }
    assert(ps.take(m as int) =~= ps);
    true
}

/// Whether parsing the value of each comma-separated entry `key |-> value`
/// of `inner` is defined.
fn fields_parsable(inner: &str, Ghost(n): Ghost<nat>) -> (r: bool)
    requires
        inner@.len() < n,
    ensures
        r == fields_defined(split_at_char(inner@, ','), n),
    decreases n, 0nat,
{
    let parts = split_char(inner, ',');
    let ghost ps = split_at_char(inner@, ',');
    proof { lemma_split_lengths(inner@, ','); }
    let m = parts.len();
    let mut i: usize = 0;
    assert(ps.take(0) =~= Seq::<Seq<char>>::empty());
    while i < m
        invariant
            m == parts@.len(),
            m == ps.len(),
            forall|k: int| 0 <= k < m ==> (#[trigger] parts@[k])@ == ps[k],
            forall|k: int| 0 <= k < ps.len() ==> (#[trigger] ps[k]).len() <= inner@.len(),
            inner@.len() < n,
            ps == split_at_char(inner@, ','),
            i <= m,
            fields_defined(ps.take(i as int), n),
        decreases m - i,
    {
        proof {
            assert(parts@[i as int]@ == ps[i as int]);
            assert(ps.take(i as int + 1).drop_last() =~= ps.take(i as int));
            assert(ps.take(i as int + 1).last() == ps[i as int]);
            reveal_strlit("|->");
        }
        let part = trim_str(parts[i]);
        proof { lemma_trim_len(ps[i as int]); }
        match find_str(part, "|->") {
            Some(a) => {
                proof { lemma_index_of_text(part@, "|->"@); }
                let plen = part.unicode_len();
                let rest = part.substring_char(a + 3, plen);
                assert(rest@ =~= part@.skip(a + 3));
                if !tla_parsable(rest) {
                    proof {
                        assert(ps[i as int].len() < n);
                        assert(trim(ps[i as int]) == part@);
                        if fields_defined(ps, n) {
                            lemma_fields_defined_at(ps, n, i as int);
                        }
                    }
                    return false;
                }
            },
            None => {},
        }
        i = i + 1;
    }
    assert(ps.take(m as int) =~= ps);
    true
}

impl TlaValue {
    /// A deep copy.
    pub fn copy(&self) -> (r: TlaValue)
        ensures
            tla_model(r) == tla_model(*self),
        decreases self, 2int,
    {
        match self {
            TlaValue::Bool(b) => TlaValue::Bool(*b),
            TlaValue::Int(n) => TlaValue::Int(*n),
            TlaValue::Str(t) => TlaValue::Str(to_owned_string(t.as_str())),
            TlaValue::List(items) => TlaValue::List(copy_items(items)),
            TlaValue::Record(fields) => TlaValue::Record(copy_fields(fields)),
        }
    }
}

/// Deep copies of the items.
fn copy_items(items: &Vec<TlaValue>) -> (r: Vec<TlaValue>)
    ensures
        list_models(r@) == list_models(items@),
    decreases items, 1int,
{
    let mut out: Vec<TlaValue> = Vec::new();
    let n = items.len();
    let mut i: usize = 0;
    while i < n
        invariant
            n == items@.len(),
            i <= n,
            list_models(out@) == list_models(items@.take(i as int)),
        decreases n - i,
    {
        proof {
            assert(decreases_to!(items => items@));
            assert(decreases_to!(items@ => items@[i as int]));
        }
        let v = items[i].copy();
        let ghost before = out@;
        out.push(v);
        proof {
            assert(out@.drop_last() =~= before);
            assert(items@.take(i as int + 1).drop_last() =~= items@.take(i as int));
        }
        i = i + 1;
    }
    assert(items@.take(n as int) =~= items@);
    out
}

/// Deep copies of the entries.
fn copy_fields(fields: &Vec<(String, TlaValue)>) -> (r: Vec<(String, TlaValue)>)
    ensures
        field_models(r@) == field_models(fields@),
    decreases fields, 1int,
{
    let mut out: Vec<(String, TlaValue)> = Vec::new();
    let n = fields.len();
    let mut i: usize = 0;
    while i < n
        invariant
            n == fields@.len(),
            i <= n,
            field_models(out@) == field_models(fields@.take(i as int)),
        decreases n - i,
    {
        proof {
            assert(decreases_to!(fields => fields@));
            assert(decreases_to!(fields@ => fields@[i as int]));
            assert(decreases_to!(fields@[i as int] => fields@[i as int].1));
        }
        let v = fields[i].1.copy();
        let k = to_owned_string(fields[i].0.as_str());
        let ghost before = out@;
        out.push((k, v));
        proof {
            assert(out@.drop_last() =~= before);
            assert(fields@.take(i as int + 1).drop_last() =~= fields@.take(i as int));
        }
        i = i + 1;
    }
    assert(fields@.take(n as int) =~= fields@);
    out
}

} // verus!
