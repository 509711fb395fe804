//! JSON values as plain data: what traces and specification bindings read
//! of them.
use vstd::prelude::*;
use crate::text::to_owned_string;
use crate::text_scan::text_eq;

verus! {

/// A JSON value. A number is held as its text, as a serialiser writes it;
/// an object as its entries, in order.
#[derive(Debug, PartialEq, Eq)]
pub enum JsonValue {
    /// `null`.
    Null,
    /// `true` or `false`.
    Bool(bool),
    /// A number, by its text.
    Number(String),
    /// A string.
    String(String),
    /// An array.
    Array(Vec<JsonValue>),
    /// An object: its entries in order.
    Object(Vec<(String, JsonValue)>),
}

/// The mathematical form of a JSON value.
pub enum JsonModel {
    /// `null`.
    Null,
    /// A boolean.
    Bool(bool),
    /// A number, by its text.
    Number(Seq<char>),
    /// A string.
    Str(Seq<char>),
    /// An array.
    Array(Seq<JsonModel>),
    /// An object: its entries in order.
    Object(Seq<(Seq<char>, JsonModel)>),
}

/// The mathematical form of a value.
pub open spec fn json_model(v: JsonValue) -> JsonModel
    decreases v, 2int,
{
    match v {
        JsonValue::Null => JsonModel::Null,
        JsonValue::Bool(b) => JsonModel::Bool(b),
        JsonValue::Number(t) => JsonModel::Number(t@),
        JsonValue::String(t) => JsonModel::Str(t@),
        JsonValue::Array(items) => JsonModel::Array(array_models(items@)),
        JsonValue::Object(fields) => JsonModel::Object(object_models(fields@)),
    }
}

/// The mathematical forms of an array's items.
pub open spec fn array_models(items: Seq<JsonValue>) -> Seq<JsonModel>
    decreases items, 1int,
{
    if items.len() == 0 {
        Seq::empty()
    } else {
        array_models(items.drop_last()).push(json_model(items.last()))
    }
}

/// The mathematical forms of an object's entries.
pub open spec fn object_models(fields: Seq<(String, JsonValue)>) -> Seq<(Seq<char>, JsonModel)>
    decreases fields, 1int,
{
    if fields.len() == 0 {
        Seq::empty()
    } else {
        object_models(fields.drop_last()).push((fields.last().0@, json_model(fields.last().1)))
    }
}

impl View for JsonValue {
    type V = JsonModel;

    open spec fn view(&self) -> JsonModel {
        json_model(*self)
    }
}

/// The forms of an array's items, item by item.
pub proof fn lemma_array_models(items: Seq<JsonValue>)
    ensures
        array_models(items).len() == items.len(),
        forall|i: int| 0 <= i < items.len() ==> #[trigger] array_models(items)[i] == json_model(items[i]),
    decreases items.len(),
{
    if items.len() > 0 {
        lemma_array_models(items.drop_last());
    }
}

/// The forms of an object's entries, entry by entry.
pub proof fn lemma_object_models(fields: Seq<(String, JsonValue)>)
    ensures
        object_models(fields).len() == fields.len(),
        forall|i: int| 0 <= i < fields.len() ==> #[trigger] object_models(fields)[i] == (fields[i].0@, json_model(fields[i].1)),
    decreases fields.len(),
{
    if fields.len() > 0 {
        lemma_object_models(fields.drop_last());
    }
}

/// The value of the first entry named `key`.
pub open spec fn field_of(fields: Seq<(Seq<char>, JsonModel)>, key: Seq<char>) -> Option<JsonModel>
    decreases fields.len(),
{
    if fields.len() == 0 {
        None
    } else if fields[0].0 == key {
        Some(fields[0].1)
    } else {
        field_of(fields.drop_first(), key)
    }
}

/// An object's entry by name; nothing for any other value.
pub open spec fn json_get(m: JsonModel, key: Seq<char>) -> Option<JsonModel> {
    match m {
        JsonModel::Object(fields) => field_of(fields, key),
        _ => None,
    }
}

/// The TLA+ form of a value: `null` becomes the string `NULL`, booleans
/// the strings `TRUE` and `FALSE`, arrays and objects are converted item
/// by item, numbers and strings stay.
pub open spec fn tla_form(m: JsonModel) -> JsonModel
    decreases m, 2int,
{
    match m {
        JsonModel::Null => JsonModel::Str("NULL"@),
        JsonModel::Bool(b) => JsonModel::Str(if b { "TRUE"@ } else { "FALSE"@ }),
        JsonModel::Array(items) => JsonModel::Array(tla_forms(items)),
        JsonModel::Object(fields) => JsonModel::Object(tla_fields(fields)),
        _ => m,
    }
}

/// The TLA+ forms of items.
pub open spec fn tla_forms(items: Seq<JsonModel>) -> Seq<JsonModel>
    decreases items, 1int,
{
    if items.len() == 0 {
        Seq::empty()
    } else {
        tla_forms(items.drop_last()).push(tla_form(items.last()))
    }
}

/// Entries with their values in TLA+ form.
pub open spec fn tla_fields(fields: Seq<(Seq<char>, JsonModel)>) -> Seq<(Seq<char>, JsonModel)>
    decreases fields, 1int,
{
    if fields.len() == 0 {
        Seq::empty()
    } else {
        tla_fields(fields.drop_last()).push((fields.last().0, tla_form(fields.last().1)))
    }
}

/// Converting a value to its TLA+ form a second time changes nothing.
pub proof fn law_tla_form_idempotent(m: JsonModel)
    ensures
        tla_form(tla_form(m)) == tla_form(m),
    decreases m, 2int,
{
    match m {
        JsonModel::Array(items) => lemma_tla_forms_idempotent(items),
        JsonModel::Object(fields) => lemma_tla_fields_idempotent(fields),
        _ => {},
    }
}

/// Items in TLA+ form stay as they are when converted again.
pub proof fn lemma_tla_forms_idempotent(items: Seq<JsonModel>)
    ensures
        tla_forms(tla_forms(items)) == tla_forms(items),
    decreases items, 1int,
{
    if items.len() > 0 {
        lemma_tla_forms_idempotent(items.drop_last());
        law_tla_form_idempotent(items.last());
        let t = tla_forms(items);
        assert(t.drop_last() =~= tla_forms(items.drop_last()));
        assert(tla_forms(t) =~= t);
    }
}

/// Entries in TLA+ form stay as they are when converted again.
pub proof fn lemma_tla_fields_idempotent(fields: Seq<(Seq<char>, JsonModel)>)
    ensures
        tla_fields(tla_fields(fields)) == tla_fields(fields),
    decreases fields, 1int,
{
    if fields.len() > 0 {
        lemma_tla_fields_idempotent(fields.drop_last());
        law_tla_form_idempotent(fields.last().1);
        let t = tla_fields(fields);
        assert(t.drop_last() =~= tla_fields(fields.drop_last()));
        assert(tla_fields(t) =~= t);
    }
}

impl JsonValue {
    /// A deep copy.
    pub fn copy(&self) -> (r: JsonValue)
        ensures
            r@ == self@,
        decreases self, 2int,
    {
        match self {
            JsonValue::Null => JsonValue::Null,
            JsonValue::Bool(b) => JsonValue::Bool(*b),
            JsonValue::Number(t) => JsonValue::Number(to_owned_string(t.as_str())),
            JsonValue::String(t) => JsonValue::String(to_owned_string(t.as_str())),
            JsonValue::Array(items) => JsonValue::Array(copy_items(items)),
            JsonValue::Object(fields) => JsonValue::Object(copy_fields(fields)),
        }
    }

    /// Whether the value is an array.
    pub fn is_array(&self) -> (r: bool)
        ensures
            r == (self@ is Array),
    {
        match self {
            JsonValue::Array(_) => true,
            _ => false,
        }
    }

    /// Whether the value is an object.
    pub fn is_object(&self) -> (r: bool)
        ensures
            r == (self@ is Object),
    {
        match self {
            JsonValue::Object(_) => true,
            _ => false,
        }
    }

    /// An object's entry by name (the first with that name); `None` for
    /// anything but an object.
    pub fn get(&self, key: &str) -> (r: Option<&JsonValue>)
        ensures
            match json_get(self@, key@) {
                Some(m) => r matches Some(x) && x@ == m,
                None => r is None,
            },
    {
        match self {
            JsonValue::Object(fields) => {
                let ghost ms = object_models(fields@);
                proof { lemma_object_models(fields@); }
                let n = fields.len();
                let mut i: usize = 0;
                assert(ms.skip(0) =~= ms);
                while i < n
                    invariant
                        n == fields@.len(),
                        self@ == JsonModel::Object(ms),
                        i <= n,
                        ms == object_models(fields@),
                        ms.len() == n,
                        forall|t: int| 0 <= t < n ==> #[trigger] ms[t] == (fields@[t].0@, json_model(fields@[t].1)),
                        field_of(ms, key@) == field_of(ms.skip(i as int), key@),
                    decreases n - i,
                {
                    assert(ms.skip(i as int)[0] == ms[i as int]);
                    if text_eq(fields[i].0.as_str(), key) {
                        assert(field_of(ms.skip(i as int), key@) == Some(ms[i as int].1));
                        return Some(&fields[i].1);
                    }
                    assert(ms.skip(i as int).drop_first() =~= ms.skip(i as int + 1));
                    i = i + 1;
                }
                assert(ms.skip(n as int).len() == 0);
                None
            },
            _ => None,
        }
    }
}

impl Clone for JsonValue {
    /// A deep copy.
    fn clone(&self) -> (r: Self)
        ensures
            r@ == self@,
    {
        self.copy()
    }
}

/// Deep copies of items.
fn copy_items(items: &Vec<JsonValue>) -> (r: Vec<JsonValue>)
    ensures
        array_models(r@) == array_models(items@),
    decreases items, 1int,
{
    let mut out: Vec<JsonValue> = Vec::new();
    let n = items.len();
    let mut i: usize = 0;
    while i < n
        invariant
            n == items@.len(),
            i <= n,
            array_models(out@) == array_models(items@.take(i as int)),
        decreases n - i,
    {
        proof {
            assert(decreases_to!(items => items@));
            assert(decreases_to!(items@ => items@[i as int]));
        }
        let v = items[i].copy();
        let ghost before = out@;
        out.push(v);
        proof {
            assert(out@.drop_last() =~= before);
            assert(items@.take(i as int + 1).drop_last() =~= items@.take(i as int));
        }
        i = i + 1;
    }
    assert(items@.take(n as int) =~= items@);
    out
}

/// Deep copies of entries.
fn copy_fields(fields: &Vec<(String, JsonValue)>) -> (r: Vec<(String, JsonValue)>)
    ensures
        object_models(r@) == object_models(fields@),
    decreases fields, 1int,
{
    let mut out: Vec<(String, JsonValue)> = Vec::new();
    let n = fields.len();
    let mut i: usize = 0;
    while i < n
        invariant
            n == fields@.len(),
            i <= n,
            object_models(out@) == object_models(fields@.take(i as int)),
        decreases n - i,
    {
        proof {
            assert(decreases_to!(fields => fields@));
            assert(decreases_to!(fields@ => fields@[i as int]));
            assert(decreases_to!(fields@[i as int] => fields@[i as int].1));
        }
        let v = fields[i].1.copy();
        let k = to_owned_string(fields[i].0.as_str());
        let ghost before = out@;
        out.push((k, v));
        proof {
            assert(out@.drop_last() =~= before);
            assert(fields@.take(i as int + 1).drop_last() =~= fields@.take(i as int));
        }
        i = i + 1;
    }
    assert(fields@.take(n as int) =~= fields@);
    out
}

/// The TLA+ form of a value (see `tla_form`).
pub fn json_to_tla(value: &JsonValue) -> (r: JsonValue)
    ensures
        r@ == tla_form(value@),
    decreases value, 2int,
{
    match value {
        JsonValue::Null => JsonValue::String(to_owned_string("NULL")),
        JsonValue::Bool(b) => JsonValue::String(to_owned_string(if *b { "TRUE" } else { "FALSE" })),
        JsonValue::Number(t) => JsonValue::Number(to_owned_string(t.as_str())),
        JsonValue::String(t) => JsonValue::String(to_owned_string(t.as_str())),
        JsonValue::Array(items) => JsonValue::Array(items_to_tla(items)),
        JsonValue::Object(fields) => JsonValue::Object(fields_to_tla(fields)),
    }
}

/// Items in TLA+ form.
fn items_to_tla(items: &Vec<JsonValue>) -> (r: Vec<JsonValue>)
    ensures
        array_models(r@) == tla_forms(array_models(items@)),
    decreases items, 1int,
{
    let mut out: Vec<JsonValue> = Vec::new();
    let n = items.len();
    let mut i: usize = 0;
    while i < n
        invariant
            n == items@.len(),
            i <= n,
            array_models(out@) == tla_forms(array_models(items@.take(i as int))),
        decreases n - i,
    {
        proof {
            assert(decreases_to!(items => items@));
            assert(decreases_to!(items@ => items@[i as int]));
        }
        let v = json_to_tla(&items[i]);
        let ghost before = out@;
        out.push(v);
        proof {
            assert(out@.drop_last() =~= before);
            assert(items@.take(i as int + 1).drop_last() =~= items@.take(i as int));
            assert(array_models(items@.take(i as int + 1)).drop_last() =~= array_models(items@.take(i as int)));
        }
        i = i + 1;
    }
    assert(items@.take(n as int) =~= items@);
    out
}

/// Entries with their values in TLA+ form.
fn fields_to_tla(fields: &Vec<(String, JsonValue)>) -> (r: Vec<(String, JsonValue)>)
    ensures
        object_models(r@) == tla_fields(object_models(fields@)),
    decreases fields, 1int,
{
    let mut out: Vec<(String, JsonValue)> = Vec::new();
    let n = fields.len();
    let mut i: usize = 0;
    while i < n
        invariant
            n == fields@.len(),
            i <= n,
            object_models(out@) == tla_fields(object_models(fields@.take(i as int))),
        decreases n - i,
    {
        proof {
            assert(decreases_to!(fields => fields@));
            assert(decreases_to!(fields@ => fields@[i as int]));
            assert(decreases_to!(fields@[i as int] => fields@[i as int].1));
        }
        let v = json_to_tla(&fields[i].1);
        let k = to_owned_string(fields[i].0.as_str());
        let ghost before = out@;
        out.push((k, v));
        proof {
            assert(out@.drop_last() =~= before);
            assert(fields@.take(i as int + 1).drop_last() =~= fields@.take(i as int));
            assert(object_models(fields@.take(i as int + 1)).drop_last() =~= object_models(fields@.take(i as int)));
        }
        i = i + 1;
    }
    assert(fields@.take(n as int) =~= fields@);
    out
}

} // verus!
