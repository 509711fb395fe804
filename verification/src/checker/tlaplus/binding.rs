//! Bindings between runtime observations and a TLA+ specification: which
//! runtime variable is which TLA+ variable, which operation is which
//! action, and how values are transformed on the way.
use vstd::prelude::*;
use crate::json::{JsonValue, JsonModel, json_get, tla_form, json_to_tla, lemma_object_models, object_models};
use crate::named::{named_value, distinct_names, named_updated, set_named, get_named};
use crate::text::{to_owned_string, push_str, empty_string};
use crate::text_scan::text_eq;
use crate::checker::tlaplus::config::strs_views;

verus! {

/// The identifier of a TLA+ specification.
#[derive(Debug, Clone, PartialEq, Eq, Hash)]
pub struct SpecId(pub String);

impl SpecId {
    /// A specification identifier.
    pub fn new(id: &str) -> (r: Self)
        ensures
            r.0@ == id@,
    {
        SpecId(to_owned_string(id))
    }

    /// The display form: the identifier itself.
    pub fn to_string(&self) -> (r: String)
        ensures
            r@ == self.0@,
    {
        to_owned_string(self.0.as_str())
    }
}

impl From<String> for SpecId {
    fn from(s: String) -> (r: Self) {
        SpecId(s)
    }
}

impl vstd::std_specs::convert::FromSpecImpl<String> for SpecId {
    open spec fn obeys_from_spec() -> bool {
        true
    }

    open spec fn from_spec(s: String) -> Self {
        SpecId(s)
    }
}

/// Errors of binding operations.
#[derive(Debug, Clone, PartialEq, Eq)]
pub enum BindingError {
    /// No variable mapping for a runtime name.
    MissingVariable(String),
    /// No operation mapping for a runtime name.
    MissingOperation(String),
    /// A variable's transformation failed.
    TransformError { variable: String, message: String },
    /// A parameter could not be mapped.
    ParamError { operation: String, param: String, message: String },
    /// A value could not be converted.
    ConversionError(String),
    /// The binding is not consistent.
    InvalidConfig(String),
}

/// The display form of a binding error.
pub open spec fn binding_error_text(e: BindingError) -> Seq<char> {
    match e {
        BindingError::MissingVariable(n) => "Missing variable mapping for '"@ + n@ + "'"@,
        BindingError::MissingOperation(n) => "Missing operation mapping for '"@ + n@ + "'"@,
        BindingError::TransformError { variable, message } =>
            "Variable transform failed for '"@ + variable@ + "': "@ + message@,
        BindingError::ParamError { operation, param, message } =>
            "Parameter mapping failed for operation '"@ + operation@ + "', param '"@ + param@ + "': "@ + message@,
        BindingError::ConversionError(m) => "Value conversion failed: "@ + m@,
        BindingError::InvalidConfig(m) => "Invalid binding configuration: "@ + m@,
    }
}

impl BindingError {
    /// The display form of the error.
    pub fn to_string(&self) -> (r: String)
        ensures
            r@ == binding_error_text(*self),
    {
        let mut s = empty_string();
        match self {
            BindingError::MissingVariable(n) => {
                push_str(&mut s, "Missing variable mapping for '");
                push_str(&mut s, n.as_str());
                push_str(&mut s, "'");
            },
            BindingError::MissingOperation(n) => {
                push_str(&mut s, "Missing operation mapping for '");
                push_str(&mut s, n.as_str());
                push_str(&mut s, "'");
            },
            BindingError::TransformError { variable, message } => {
                push_str(&mut s, "Variable transform failed for '");
                push_str(&mut s, variable.as_str());
                push_str(&mut s, "': ");
                push_str(&mut s, message.as_str());
            },
            BindingError::ParamError { operation, param, message } => {
                push_str(&mut s, "Parameter mapping failed for operation '");
                push_str(&mut s, operation.as_str());
                push_str(&mut s, "', param '");
                push_str(&mut s, param.as_str());
                push_str(&mut s, "': ");
                push_str(&mut s, message.as_str());
            },
            BindingError::ConversionError(m) => {
                push_str(&mut s, "Value conversion failed: ");
                push_str(&mut s, m.as_str());
            },
            BindingError::InvalidConfig(m) => {
                push_str(&mut s, "Invalid binding configuration: ");
                push_str(&mut s, m.as_str());
            },
        }
        s
    }
}

/// Where a variable's value comes from.
#[derive(Debug, Clone, PartialEq, Eq)]
pub enum VariableSource {
    /// The trace step's variables.
    TraceVars,
    /// The trace step's parameters.
    TraceParams,
    /// The trace's metadata.
    TraceMetadata,
    /// Computed from other variables.
    Computed,
    /// A constant.
    Constant(JsonValue),
}

/// A transformation of a variable's value.
#[derive(Debug)]
pub enum VariableTransform {
    /// The value itself.
    Identity,
    /// The TLA+ form of the value.
    JsonToTla,
    /// A field of an object.
    ExtractField(String),
    /// An array, as a TLA+ sequence.
    ArrayToSequence,
    /// An object, as a TLA+ function.
    ObjectToFunction,
    /// An object, as a TLA+ record.
    ObjectToRecord,
    /// A custom expression over `$value`, evaluated elsewhere: the value
    /// is wrapped with the expression.
    Custom(String),
    /// Transformations applied one after the other.
    Chain(Vec<VariableTransform>),
}

/// What a transformation makes of a value, or its error message.
pub open spec fn transform_result(t: VariableTransform, m: JsonModel) -> Result<JsonModel, Seq<char>>
    decreases t, 2int,
{
    match t {
        VariableTransform::Identity => Ok(m),
        VariableTransform::JsonToTla => Ok(tla_form(m)),
        VariableTransform::ExtractField(f) => match json_get(m, f@) {
            Some(x) => Ok(x),
            None => Err("Field '"@ + f@ + "' not found"@),
        },
        VariableTransform::ArrayToSequence => if m is Array {
            Ok(m)
        } else {
            Err("Expected array for sequence conversion"@)
        },
        VariableTransform::ObjectToFunction => if m is Object {
            Ok(m)
        } else {
            Err("Expected object for function conversion"@)
        },
        VariableTransform::ObjectToRecord => if m is Object {
            Ok(m)
        } else {
            Err("Expected object for record conversion"@)
        },
        VariableTransform::Custom(e) => Ok(JsonModel::Object(seq![("_transform"@, JsonModel::Str(e@)), ("_value"@, m)])),
        VariableTransform::Chain(ts) => chain_result(ts@, m),
    }
}

/// What transformations applied in order make of a value: the first
/// error stops the chain.
pub open spec fn chain_result(ts: Seq<VariableTransform>, m: JsonModel) -> Result<JsonModel, Seq<char>>
    decreases ts, 1int,
{
    if ts.len() == 0 {
        Ok(m)
    } else {
        match chain_result(ts.drop_last(), m) {
            Ok(x) => transform_result(ts.last(), x),
            Err(e) => Err(e),
        }
    }
}

/// Once a prefix of a chain fails, the whole chain fails with its error.
pub proof fn lemma_chain_stops(ts: Seq<VariableTransform>, m: JsonModel, k: int)
    requires
        0 <= k <= ts.len(),
        chain_result(ts.take(k), m) is Err,
    ensures
        chain_result(ts, m) == chain_result(ts.take(k), m),
    decreases ts.len(),
{
    if k == ts.len() {
        assert(ts.take(k) =~= ts);
    } else {
        assert(ts.drop_last().take(k) =~= ts.take(k));
        lemma_chain_stops(ts.drop_last(), m, k);
    }
}

impl VariableTransform {
    /// Applies the transformation (see `transform_result`).
    pub fn apply(&self, value: &JsonValue) -> (r: Result<JsonValue, String>)
        ensures
            match transform_result(*self, value@) {
                Ok(m) => r matches Ok(v) && v@ == m,
                Err(e) => r matches Err(s) && s@ == e,
            },
        decreases self, 2int,
    {
        match self {
            VariableTransform::Identity => Ok(value.copy()),
            VariableTransform::JsonToTla => Ok(json_to_tla(value)),
            VariableTransform::ExtractField(field) => match value.get(field.as_str()) {
                Some(v) => Ok(v.copy()),
                None => {
                    let mut s = empty_string();
                    push_str(&mut s, "Field '");
                    push_str(&mut s, field.as_str());
                    push_str(&mut s, "' not found");
                    Err(s)
                },
            },
            VariableTransform::ArrayToSequence => if value.is_array() {
                Ok(value.copy())
            } else {
                Err(to_owned_string("Expected array for sequence conversion"))
            },
            VariableTransform::ObjectToFunction => if value.is_object() {
                Ok(value.copy())
            } else {
                Err(to_owned_string("Expected object for function conversion"))
            },
            VariableTransform::ObjectToRecord => if value.is_object() {
                Ok(value.copy())
            } else {
                Err(to_owned_string("Expected object for record conversion"))
            },
            VariableTransform::Custom(expr) => {
                let mut fields: Vec<(String, JsonValue)> = Vec::new();
                fields.push((to_owned_string("_transform"), JsonValue::String(to_owned_string(expr.as_str()))));
                fields.push((to_owned_string("_value"), value.copy()));
                proof {
                    lemma_object_models(fields@);
                    assert(object_models(fields@) =~= seq![("_transform"@, JsonModel::Str(expr@)), ("_value"@, value@)]);
                }
                Ok(JsonValue::Object(fields))
            },
            VariableTransform::Chain(ts) => apply_chain(ts, value),
        }
    }
}

/// Applies transformations in order, stopping at the first error.
fn apply_chain(ts: &Vec<VariableTransform>, value: &JsonValue) -> (r: Result<JsonValue, String>)
    ensures
        match chain_result(ts@, value@) {
            Ok(m) => r matches Ok(v) && v@ == m,
            Err(e) => r matches Err(s) && s@ == e,
        },
    decreases ts, 1int,
{
    let mut result = value.copy();
    let n = ts.len();
    let mut i: usize = 0;
    assert(ts@.take(0) =~= Seq::<VariableTransform>::empty());
    while i < n
        invariant
            n == ts@.len(),
            i <= n,
            chain_result(ts@.take(i as int), value@) == Ok::<JsonModel, Seq<char>>(result@),
        decreases n - i,
    {
        proof {
            assert(decreases_to!(ts => ts@));
            assert(decreases_to!(ts@ => ts@[i as int]));
            assert(ts@.take(i as int + 1).drop_last() =~= ts@.take(i as int));
        }
        match ts[i].apply(&result) {
            Ok(v) => {
                result = v;
            },
            Err(e) => {
                proof {
                    lemma_chain_stops(ts@, value@, i as int + 1);
                }
                return Err(e);
            },
        }
        i = i + 1;
    }
    assert(ts@.take(n as int) =~= ts@);
    Ok(result)
}

/// A mapping from a runtime variable to a TLA+ variable.
#[derive(Debug)]
pub struct VariableMapping {
    /// The variable's name in the runtime or trace.
    pub runtime_name: String,
    /// The variable's name in the specification.
    pub tla_name: String,
    /// Where the value comes from.
    pub source: VariableSource,
    /// A transformation to apply to the value.
    pub transform: Option<VariableTransform>,
    /// A TLA+ type hint.
    pub tla_type: Option<String>,
    /// A description.
    pub description: Option<String>,
}

/// What a variable mapping makes of a value, or its error message.
pub open spec fn mapping_result(vm: VariableMapping, m: JsonModel) -> Result<JsonModel, Seq<char>> {
    match vm.transform {
        None => Ok(m),
        Some(t) => transform_result(t, m),
    }
}

impl VariableMapping {
    /// A mapping from the trace's variables, with no transformation.
    pub fn new(runtime_name: &str, tla_name: &str) -> (r: Self)
        ensures
            r.runtime_name@ == runtime_name@,
            r.tla_name@ == tla_name@,
            r.source == VariableSource::TraceVars,
            r.transform is None,
            r.tla_type is None,
            r.description is None,
    {
        VariableMapping {
            runtime_name: to_owned_string(runtime_name),
            tla_name: to_owned_string(tla_name),
            source: VariableSource::TraceVars,
            transform: None,
            tla_type: None,
            description: None,
        }
    }

    /// Sets the source.
    pub fn with_source(self, source: VariableSource) -> (r: Self)
        ensures
            r == (VariableMapping { source, ..self }),
    {
        VariableMapping { source, ..self }
    }

    /// Sets the transformation.
    pub fn with_transform(self, transform: VariableTransform) -> (r: Self)
        ensures
            r == (VariableMapping { transform: Some(transform), ..self }),
    {
        VariableMapping { transform: Some(transform), ..self }
    }

    /// Sets the TLA+ type hint.
    pub fn with_tla_type(self, tla_type: &str) -> (r: Self)
        ensures
            r.tla_type matches Some(t) && t@ == tla_type@,
            r == (VariableMapping { tla_type: r.tla_type, ..self }),
    {
        VariableMapping { tla_type: Some(to_owned_string(tla_type)), ..self }
    }

    /// Sets the description.
    pub fn with_description(self, description: &str) -> (r: Self)
        ensures
            r.description matches Some(t) && t@ == description@,
            r == (VariableMapping { description: r.description, ..self }),
    {
        VariableMapping { description: Some(to_owned_string(description)), ..self }
    }

    /// Applies the transformation, if any, to a value; a failure names the
    /// runtime variable.
    pub fn transform(&self, value: &JsonValue) -> (r: Result<JsonValue, BindingError>)
        ensures
            match mapping_result(*self, value@) {
                Ok(m) => r matches Ok(v) && v@ == m,
                Err(e) => r matches Err(BindingError::TransformError { variable, message })
                    && variable@ == self.runtime_name@ && message@ == e,
            },
    {
        match &self.transform {
            None => Ok(value.copy()),
            Some(t) => match t.apply(value) {
                Ok(v) => Ok(v),
                Err(msg) => Err(BindingError::TransformError {
                    variable: to_owned_string(self.runtime_name.as_str()),
                    message: msg,
                }),
            },
        }
    }
}

/// A mapping for one parameter of an action.
#[derive(Debug)]
pub struct ParamMapping {
    /// The name in TLA+ (`None`: the runtime name).
    pub tla_name: Option<String>,
    /// A transformation of the value.
    pub transform: Option<VariableTransform>,
    /// A default value for a missing parameter.
    pub default: Option<JsonValue>,
}

/// A mapping that renames to `t` and does nothing else.
pub open spec fn renames_to(pm: ParamMapping, t: Seq<char>) -> bool {
    &&& pm.tla_name matches Some(n) && n@ == t
    &&& pm.transform is None
    &&& pm.default is None
}

/// The TLA+ name and value of a parameter, or the transformation's error
/// message.
pub open spec fn param_result(pm: ParamMapping, runtime_name: Seq<char>, m: JsonModel) -> Result<(Seq<char>, JsonModel), Seq<char>> {
    let name = match pm.tla_name {
        Some(t) => t@,
        None => runtime_name,
    };
    match pm.transform {
        None => Ok((name, m)),
        Some(t) => match transform_result(t, m) {
            Ok(x) => Ok((name, x)),
            Err(e) => Err(e),
        },
    }
}

impl ParamMapping {
    /// A mapping to the same name.
    pub fn simple(name: &str) -> (r: Self)
        ensures
            renames_to(r, name@),
    {
        ParamMapping { tla_name: Some(to_owned_string(name)), transform: None, default: None }
    }

    /// A mapping to another name.
    pub fn renamed(tla_name: String) -> (r: Self)
        ensures
            r.tla_name == Some(tla_name),
            r.transform is None,
            r.default is None,
    {
        ParamMapping { tla_name: Some(tla_name), transform: None, default: None }
    }

    /// Sets the transformation.
    pub fn with_transform(self, transform: VariableTransform) -> (r: Self)
        ensures
            r == (ParamMapping { transform: Some(transform), ..self }),
    {
        ParamMapping { transform: Some(transform), ..self }
    }

    /// Sets the default value.
    pub fn with_default(self, default: JsonValue) -> (r: Self)
        ensures
            r == (ParamMapping { default: Some(default), ..self }),
    {
        ParamMapping { default: Some(default), ..self }
    }

    /// The TLA+ name and value of a parameter (see `param_result`).
    pub fn apply(&self, runtime_name: &str, value: &JsonValue) -> (r: Result<(String, JsonValue), String>)
        ensures
            match param_result(*self, runtime_name@, value@) {
                Ok((n, m)) => r matches Ok((a, b)) && a@ == n && b@ == m,
                Err(e) => r matches Err(s) && s@ == e,
            },
    {
        let tla_name = match &self.tla_name {
            Some(t) => to_owned_string(t.as_str()),
            None => to_owned_string(runtime_name),
        };
        let transformed = match &self.transform {
            Some(t) => match t.apply(value) {
                Ok(v) => v,
                Err(e) => {
                    return Err(e);
                },
            },
            None => value.copy(),
        };
        Ok((tla_name, transformed))
    }
}

/// The values of a named list, as a map from names.
pub open spec fn named_models(s: Seq<(String, JsonValue)>) -> Map<Seq<char>, JsonModel> {
    Map::new(|k: Seq<char>| named_value(s, k) is Some, |k: Seq<char>| named_value(s, k).unwrap()@)
}

/// Binding a name in a named list binds it in its map.
pub proof fn lemma_named_models_updated(m: Seq<(String, JsonValue)>, m2: Seq<(String, JsonValue)>, k: Seq<char>, v: JsonValue)
    requires
        named_updated(m, m2, k, v),
    ensures
        named_models(m2) == named_models(m).insert(k, v@),
{
    assert(named_models(m2) =~= named_models(m).insert(k, v@));
}

/// The TLA+ parameters that parameter mappings make of runtime
/// parameters, in the mappings' order, or the first failure: the runtime
/// parameter's name and a message. A missing parameter takes its
/// mapping's default, when it has one.
pub open spec fn params_result(pms: Seq<(String, ParamMapping)>, params: Seq<(String, JsonValue)>) -> Result<Map<Seq<char>, JsonModel>, (Seq<char>, Seq<char>)>
    decreases pms.len(),
{
    if pms.len() == 0 {
        Ok(Map::empty())
    } else {
        match params_result(pms.drop_last(), params) {
            Err(e) => Err(e),
            Ok(acc) => {
                let rn = pms.last().0@;
                let found = match named_value(params, rn) {
                    Some(v) => Some(v),
                    None => pms.last().1.default,
                };
                match found {
                    None => Err((rn, "Parameter not found in trace"@)),
                    Some(v) => match param_result(pms.last().1, rn, v@) {
                        Ok((tn, tv)) => Ok(acc.insert(tn, tv)),
                        Err(msg) => Err((rn, msg)),
                    },
                }
            },
        }
    }
}

/// Once a prefix of the mappings fails, all of them fail with its error.
pub proof fn lemma_params_stop(pms: Seq<(String, ParamMapping)>, params: Seq<(String, JsonValue)>, k: int)
    requires
        0 <= k <= pms.len(),
        params_result(pms.take(k), params) is Err,
    ensures
        params_result(pms, params) == params_result(pms.take(k), params),
    decreases pms.len(),
{
    if k == pms.len() {
        assert(pms.take(k) =~= pms);
    } else {
        assert(pms.drop_last().take(k) =~= pms.take(k));
        lemma_params_stop(pms.drop_last(), params, k);
    }
}

/// A mapping from a runtime operation to a TLA+ action.
#[derive(Debug)]
pub struct OperationMapping {
    /// The operation's name in the runtime or trace.
    pub runtime_name: String,
    /// The action's name in the specification.
    pub tla_action: String,
    /// Parameter mappings, by runtime parameter name.
    pub param_mappings: Vec<(String, ParamMapping)>,
    /// A precondition of the action (a TLA+ expression).
    pub precondition: Option<String>,
    /// A description.
    pub description: Option<String>,
}

impl OperationMapping {
    /// A mapping with no parameters.
    pub fn new(runtime_name: &str, tla_action: &str) -> (r: Self)
        ensures
            r.runtime_name@ == runtime_name@,
            r.tla_action@ == tla_action@,
            r.param_mappings@.len() == 0,
            r.precondition is None,
            r.description is None,
    {
        OperationMapping {
            runtime_name: to_owned_string(runtime_name),
            tla_action: to_owned_string(tla_action),
            param_mappings: Vec::new(),
            precondition: None,
            description: None,
        }
    }

    /// Maps a parameter to the same name.
    pub fn with_param(self, name: &str) -> (r: Self)
        requires
            distinct_names(self.param_mappings@),
        ensures
            distinct_names(r.param_mappings@),
            named_value(r.param_mappings@, name@) matches Some(pm) && renames_to(pm, name@),
            forall|q: Seq<char>| q != name@ ==> #[trigger] named_value(r.param_mappings@, q) == named_value(self.param_mappings@, q),
            r == (OperationMapping { param_mappings: r.param_mappings, ..self }),
    {
        let mut m = self;
        set_named(&mut m.param_mappings, to_owned_string(name), ParamMapping::simple(name));
        m
    }

    /// Maps a parameter to another name.
    pub fn with_param_mapping(self, runtime_name: &str, tla_name: &str) -> (r: Self)
        requires
            distinct_names(self.param_mappings@),
        ensures
            distinct_names(r.param_mappings@),
            named_value(r.param_mappings@, runtime_name@) matches Some(pm) && renames_to(pm, tla_name@),
            forall|q: Seq<char>| q != runtime_name@ ==> #[trigger] named_value(r.param_mappings@, q) == named_value(self.param_mappings@, q),
            r == (OperationMapping { param_mappings: r.param_mappings, ..self }),
    {
        let mut m = self;
        set_named(&mut m.param_mappings, to_owned_string(runtime_name), ParamMapping::renamed(to_owned_string(tla_name)));
        m
    }

    /// Maps a parameter as `mapping` says.
    pub fn with_param_transform(self, runtime_name: &str, mapping: ParamMapping) -> (r: Self)
        requires
            distinct_names(self.param_mappings@),
        ensures
            named_updated(self.param_mappings@, r.param_mappings@, runtime_name@, mapping),
            r == (OperationMapping { param_mappings: r.param_mappings, ..self }),
    {
        let mut m = self;
        set_named(&mut m.param_mappings, to_owned_string(runtime_name), mapping);
        m
    }

    /// Sets the precondition.
    pub fn with_precondition(self, precondition: &str) -> (r: Self)
        ensures
            r.precondition matches Some(t) && t@ == precondition@,
            r == (OperationMapping { precondition: r.precondition, ..self }),
    {
        OperationMapping { precondition: Some(to_owned_string(precondition)), ..self }
    }

    /// Sets the description.
    pub fn with_description(self, description: &str) -> (r: Self)
        ensures
            r.description matches Some(t) && t@ == description@,
            r == (OperationMapping { description: r.description, ..self }),
    {
        OperationMapping { description: Some(to_owned_string(description)), ..self }
    }

    /// Maps runtime parameters to TLA+ parameters (see `params_result`); a
    /// failure names the operation and the parameter.
    pub fn map_params(&self, params: &Vec<(String, JsonValue)>) -> (r: Result<Vec<(String, JsonValue)>, BindingError>)
        requires
            distinct_names(params@),
        ensures
            match params_result(self.param_mappings@, params@) {
                Ok(m) => r matches Ok(p) && distinct_names(p@) && named_models(p@) == m,
                Err((param, msg)) => r matches Err(BindingError::ParamError { operation, param: p, message })
                    && operation@ == self.runtime_name@ && p@ == param && message@ == msg,
            },
    {
        let pms = &self.param_mappings;
        let mut result: Vec<(String, JsonValue)> = Vec::new();
        let n = pms.len();
        let mut i: usize = 0;
        assert(pms@.take(0) =~= Seq::<(String, ParamMapping)>::empty());
        assert(named_models(result@) =~= Map::empty());
        while i < n
            invariant
                n == pms@.len(),
                pms@ == self.param_mappings@,
                i <= n,
                distinct_names(params@),
                distinct_names(result@),
                params_result(pms@.take(i as int), params@) == Ok::<Map<Seq<char>, JsonModel>, (Seq<char>, Seq<char>)>(named_models(result@)),
            decreases n - i,
        {
            proof {
                assert(pms@.take(i as int + 1).drop_last() =~= pms@.take(i as int));
                assert(pms@.take(i as int + 1).last() == pms@[i as int]);
            }
            let rn = pms[i].0.as_str();
            let found: Option<&JsonValue> = match get_named(params, rn) {
                Some(v) => Some(v),
                None => match &pms[i].1.default {
                    Some(d) => Some(d),
                    None => None,
                },
            };
            match found {
                None => {
                    proof {
                        assert(params_result(pms@.take(i as int + 1), params@)
                            == Err::<Map<Seq<char>, JsonModel>, (Seq<char>, Seq<char>)>((rn@, "Parameter not found in trace"@)));
                        lemma_params_stop(pms@, params@, i as int + 1);
                    }
                    return Err(BindingError::ParamError {
                        operation: to_owned_string(self.runtime_name.as_str()),
                        param: to_owned_string(rn),
                        message: to_owned_string("Parameter not found in trace"),
                    });
                },
                Some(value) => match pms[i].1.apply(rn, value) {
                    Ok((tla_name, tla_value)) => {
                        let ghost before = result@;
                        let ghost k = tla_name@;
                        let ghost v = tla_value;
                        set_named(&mut result, tla_name, tla_value);
                        proof {
                            lemma_named_models_updated(before, result@, k, v);
                        }
                    },
                    Err(msg) => {
                        proof {
                            assert(params_result(pms@.take(i as int + 1), params@)
                                == Err::<Map<Seq<char>, JsonModel>, (Seq<char>, Seq<char>)>((rn@, msg@)));
                            lemma_params_stop(pms@, params@, i as int + 1);
                        }
                        return Err(BindingError::ParamError {
                            operation: to_owned_string(self.runtime_name.as_str()),
                            param: to_owned_string(rn),
                            message: msg,
                        });
                    },
                },
            }
            i = i + 1;
        }
        assert(pms@.take(n as int) =~= pms@);
        Ok(result)
    }
}

/// How values of a runtime type become TLA+ values.
#[derive(Debug, Clone, PartialEq, Eq)]
pub enum TypeConversion {
    /// The types are compatible.
    Direct,
    /// An integer as a natural number.
    IntToNat,
    /// A string as a model value.
    StringToModelValue,
    /// An enumeration as a set of model values.
    EnumToModelValue(Vec<String>),
    /// A custom conversion function.
    Custom(String),
}

/// A mapping between a runtime type and a TLA+ type.
#[derive(Debug, Clone)]
pub struct TypeMapping {
    /// The runtime type's name.
    pub runtime_type: String,
    /// The TLA+ type expression.
    pub tla_type: String,
    /// How values are converted.
    pub conversion: TypeConversion,
}

impl TypeMapping {
    /// A type mapping.
    pub fn new(runtime_type: &str, tla_type: &str, conversion: TypeConversion) -> (r: Self)
        ensures
            r.runtime_type@ == runtime_type@,
            r.tla_type@ == tla_type@,
            r.conversion == conversion,
    {
        TypeMapping { runtime_type: to_owned_string(runtime_type), tla_type: to_owned_string(tla_type), conversion }
    }
}

/// The runtime names of variable mappings.
pub open spec fn var_runtime_names(ms: Seq<VariableMapping>) -> Seq<Seq<char>> {
    ms.map_values(|m: VariableMapping| m.runtime_name@)
}

/// The TLA+ names of variable mappings.
pub open spec fn var_tla_names(ms: Seq<VariableMapping>) -> Seq<Seq<char>> {
    ms.map_values(|m: VariableMapping| m.tla_name@)
}

/// The runtime names of operation mappings.
pub open spec fn op_runtime_names(ms: Seq<OperationMapping>) -> Seq<Seq<char>> {
    ms.map_values(|m: OperationMapping| m.runtime_name@)
}

/// The TLA+ actions of operation mappings.
pub open spec fn op_tla_actions(ms: Seq<OperationMapping>) -> Seq<Seq<char>> {
    ms.map_values(|m: OperationMapping| m.tla_action@)
}

/// `i` is the first position of `name` among `keys`.
pub open spec fn is_first(keys: Seq<Seq<char>>, name: Seq<char>, i: int) -> bool {
    &&& 0 <= i < keys.len()
    &&& keys[i] == name
    &&& forall|j: int| 0 <= j < i ==> keys[j] != name
}

/// The key at `i` occurs before `i`.
pub open spec fn dup_before(keys: Seq<Seq<char>>, i: int) -> bool {
    exists|j: int| 0 <= j < i && keys[j] == keys[i]
}

/// The first duplicate among variable mappings from position `i` on: a
/// runtime name seen before, else a TLA+ name seen before.
pub open spec fn variable_issue(rn: Seq<Seq<char>>, tn: Seq<Seq<char>>, i: int) -> Option<Seq<char>>
    decreases rn.len() - i,
{
    if i < 0 || i >= rn.len() {
        None
    } else if dup_before(rn, i) {
        Some("Duplicate runtime variable mapping: "@ + rn[i])
    } else if dup_before(tn, i) {
        Some("Duplicate TLA+ variable mapping: "@ + tn[i])
    } else {
        variable_issue(rn, tn, i + 1)
    }
}

/// The first duplicate runtime name among operation mappings from
/// position `i` on.
pub open spec fn operation_issue(on: Seq<Seq<char>>, i: int) -> Option<Seq<char>>
    decreases on.len() - i,
{
    if i < 0 || i >= on.len() {
        None
    } else if dup_before(on, i) {
        Some("Duplicate operation mapping: "@ + on[i])
    } else {
        operation_issue(on, i + 1)
    }
}

/// What is wrong with a binding, if anything: the first duplicate
/// variable mapping, else the first duplicate operation mapping.
pub open spec fn binding_issue(b: SpecBinding) -> Option<Seq<char>> {
    match variable_issue(var_runtime_names(b.variable_mappings@), var_tla_names(b.variable_mappings@), 0) {
        Some(msg) => Some(msg),
        None => operation_issue(op_runtime_names(b.operation_mappings@), 0),
    }
}

/// Whether the key at `i` occurs before `i`.
fn has_dup_before(keys: &Vec<&str>, i: usize) -> (r: bool)
    requires
        i < keys@.len(),
    ensures
        r == dup_before(strs_views(keys@), i as int),
{
    let ghost ks = strs_views(keys@);
    let mut j: usize = 0;
    while j < i
        invariant
            i < keys@.len(),
            ks == strs_views(keys@),
            j <= i,
            forall|t: int| 0 <= t < j ==> ks[t] != ks[i as int],
        decreases i - j,
    {
        if text_eq(keys[j], keys[i]) {
            assert(ks[j as int] == ks[i as int]);
            return true;
        }
        j = j + 1;
    }
    false
}

/// A binding between runtime observations and a TLA+ specification.
#[derive(Debug)]
pub struct SpecBinding {
    /// The specification's identifier.
    pub spec_id: SpecId,
    /// The specification's module name.
    pub module_name: Option<String>,
    /// Mappings of runtime variables to TLA+ variables.
    pub variable_mappings: Vec<VariableMapping>,
    /// Mappings of runtime operations to TLA+ actions.
    pub operation_mappings: Vec<OperationMapping>,
    /// Constants to pass to TLC, by name.
    pub constants: Vec<(String, JsonValue)>,
    /// Type mappings.
    pub type_mappings: Vec<TypeMapping>,
    /// A description.
    pub description: Option<String>,
}

impl SpecBinding {
    /// A binding with no mappings.
    pub fn new(spec_id: &str) -> (r: Self)
        ensures
            r.spec_id.0@ == spec_id@,
            r.module_name is None,
            r.variable_mappings@.len() == 0,
            r.operation_mappings@.len() == 0,
            r.constants@.len() == 0,
            r.type_mappings@.len() == 0,
            r.description is None,
    {
        SpecBinding {
            spec_id: SpecId::new(spec_id),
            module_name: None,
            variable_mappings: Vec::new(),
            operation_mappings: Vec::new(),
            constants: Vec::new(),
            type_mappings: Vec::new(),
            description: None,
        }
    }

    /// Sets the module name.
    pub fn with_module_name(self, name: &str) -> (r: Self)
        ensures
            r.module_name matches Some(t) && t@ == name@,
            r == (SpecBinding { module_name: r.module_name, ..self }),
    {
        SpecBinding { module_name: Some(to_owned_string(name)), ..self }
    }

    /// Adds a variable mapping at the end.
    pub fn with_variable_mapping(self, mapping: VariableMapping) -> (r: Self)
        ensures
            r.variable_mappings@ == self.variable_mappings@.push(mapping),
            r == (SpecBinding { variable_mappings: r.variable_mappings, ..self }),
    {
        let mut b = self;
        b.variable_mappings.push(mapping);
        b
    }

    /// Adds an operation mapping at the end.
    pub fn with_operation_mapping(self, mapping: OperationMapping) -> (r: Self)
        ensures
            r.operation_mappings@ == self.operation_mappings@.push(mapping),
            r == (SpecBinding { operation_mappings: r.operation_mappings, ..self }),
    {
        let mut b = self;
        b.operation_mappings.push(mapping);
        b
    }

    /// Binds a constant, replacing an earlier binding of the name.
    pub fn with_constant(self, name: &str, value: JsonValue) -> (r: Self)
        requires
            distinct_names(self.constants@),
        ensures
            named_updated(self.constants@, r.constants@, name@, value),
            r == (SpecBinding { constants: r.constants, ..self }),
    {
        let mut b = self;
        set_named(&mut b.constants, to_owned_string(name), value);
        b
    }

    /// Adds a type mapping at the end.
    pub fn with_type_mapping(self, mapping: TypeMapping) -> (r: Self)
        ensures
            r.type_mappings@ == self.type_mappings@.push(mapping),
            r == (SpecBinding { type_mappings: r.type_mappings, ..self }),
    {
        let mut b = self;
        b.type_mappings.push(mapping);
        b
    }

    /// Sets the description.
    pub fn with_description(self, description: &str) -> (r: Self)
        ensures
            r.description matches Some(t) && t@ == description@,
            r == (SpecBinding { description: r.description, ..self }),
    {
        SpecBinding { description: Some(to_owned_string(description)), ..self }
    }

    /// The first variable mapping of a runtime name.
    pub fn find_variable_mapping(&self, runtime_name: &str) -> (r: Option<&VariableMapping>)
        ensures
            match r {
                Some(m) => exists|i: int| is_first(var_runtime_names(self.variable_mappings@), runtime_name@, i)
                    && *m == self.variable_mappings@[i],
                None => !var_runtime_names(self.variable_mappings@).contains(runtime_name@),
            },
    {
        let ms = &self.variable_mappings;
        let ghost keys = var_runtime_names(ms@);
        let n = ms.len();
        let mut i: usize = 0;
        while i < n
            invariant
                n == ms@.len(),
                ms@ == self.variable_mappings@,
                keys == var_runtime_names(ms@),
                i <= n,
                forall|j: int| 0 <= j < i ==> keys[j] != runtime_name@,
            decreases n - i,
        {
            if text_eq(ms[i].runtime_name.as_str(), runtime_name) {
                assert(is_first(keys, runtime_name@, i as int));
                return Some(&ms[i]);
            }
            i = i + 1;
        }
        None
    }

    /// The first variable mapping of a TLA+ variable.
    pub fn find_variable_mapping_by_tla(&self, tla_name: &str) -> (r: Option<&VariableMapping>)
        ensures
            match r {
                Some(m) => exists|i: int| is_first(var_tla_names(self.variable_mappings@), tla_name@, i)
                    && *m == self.variable_mappings@[i],
                None => !var_tla_names(self.variable_mappings@).contains(tla_name@),
            },
    {
        let ms = &self.variable_mappings;
        let ghost keys = var_tla_names(ms@);
        let n = ms.len();
        let mut i: usize = 0;
        while i < n
            invariant
                n == ms@.len(),
                ms@ == self.variable_mappings@,
                keys == var_tla_names(ms@),
                i <= n,
                forall|j: int| 0 <= j < i ==> keys[j] != tla_name@,
            decreases n - i,
        {
            if text_eq(ms[i].tla_name.as_str(), tla_name) {
                assert(is_first(keys, tla_name@, i as int));
                return Some(&ms[i]);
            }
            i = i + 1;
        }
        None
    }

    /// The first operation mapping of a runtime operation.
    pub fn find_operation_mapping(&self, runtime_name: &str) -> (r: Option<&OperationMapping>)
        ensures
            match r {
                Some(m) => exists|i: int| is_first(op_runtime_names(self.operation_mappings@), runtime_name@, i)
                    && *m == self.operation_mappings@[i],
                None => !op_runtime_names(self.operation_mappings@).contains(runtime_name@),
            },
    {
        let ms = &self.operation_mappings;
        let ghost keys = op_runtime_names(ms@);
        let n = ms.len();
        let mut i: usize = 0;
        while i < n
            invariant
                n == ms@.len(),
                ms@ == self.operation_mappings@,
                keys == op_runtime_names(ms@),
                i <= n,
                forall|j: int| 0 <= j < i ==> keys[j] != runtime_name@,
            decreases n - i,
        {
            if text_eq(ms[i].runtime_name.as_str(), runtime_name) {
                assert(is_first(keys, runtime_name@, i as int));
                return Some(&ms[i]);
            }
            i = i + 1;
        }
        None
    }

    /// The first operation mapping of a TLA+ action.
    pub fn find_operation_mapping_by_tla(&self, tla_name: &str) -> (r: Option<&OperationMapping>)
        ensures
            match r {
                Some(m) => exists|i: int| is_first(op_tla_actions(self.operation_mappings@), tla_name@, i)
                    && *m == self.operation_mappings@[i],
                None => !op_tla_actions(self.operation_mappings@).contains(tla_name@),
            },
    {
        let ms = &self.operation_mappings;
        let ghost keys = op_tla_actions(ms@);
        let n = ms.len();
        let mut i: usize = 0;
        while i < n
            invariant
                n == ms@.len(),
                ms@ == self.operation_mappings@,
                keys == op_tla_actions(ms@),
                i <= n,
                forall|j: int| 0 <= j < i ==> keys[j] != tla_name@,
            decreases n - i,
        {
            if text_eq(ms[i].tla_action.as_str(), tla_name) {
                assert(is_first(keys, tla_name@, i as int));
                return Some(&ms[i]);
            }
            i = i + 1;
        }
        None
    }

    /// Maps a runtime variable's value: the TLA+ name and the transformed
    /// value, by the first mapping of the name.
    pub fn map_variable(&self, runtime_name: &str, value: &JsonValue) -> (r: Result<(String, JsonValue), BindingError>)
        ensures
            !var_runtime_names(self.variable_mappings@).contains(runtime_name@)
                ==> (r matches Err(BindingError::MissingVariable(n)) && n@ == runtime_name@),
            forall|i: int| #[trigger] is_first(var_runtime_names(self.variable_mappings@), runtime_name@, i) ==>
                match mapping_result(self.variable_mappings@[i], value@) {
                    Ok(m) => r matches Ok((t, v)) && t@ == self.variable_mappings@[i].tla_name@ && v@ == m,
                    Err(e) => r matches Err(BindingError::TransformError { variable, message })
                        && variable@ == runtime_name@ && message@ == e,
                },
    {
        match self.find_variable_mapping(runtime_name) {
            None => Err(BindingError::MissingVariable(to_owned_string(runtime_name))),
            Some(mapping) => {
                let ghost i = choose|i: int| is_first(var_runtime_names(self.variable_mappings@), runtime_name@, i)
                    && *mapping == self.variable_mappings@[i];
                proof {
                    assert forall|j: int| #[trigger] is_first(var_runtime_names(self.variable_mappings@), runtime_name@, j) implies j == i by {
                        if j < i {
                            assert(var_runtime_names(self.variable_mappings@)[j] != runtime_name@);
                        } else if i < j {
                            assert(var_runtime_names(self.variable_mappings@)[i] != runtime_name@);
                        }
                    }
                }
                match mapping.transform(value) {
                    Ok(v) => Ok((to_owned_string(mapping.tla_name.as_str()), v)),
                    Err(e) => Err(e),
                }
            },
        }
    }

    /// Maps a runtime operation: the TLA+ action and parameters, by the
    /// first mapping of the operation.
    pub fn map_operation(&self, runtime_name: &str, params: &Vec<(String, JsonValue)>) -> (r: Result<(String, Vec<(String, JsonValue)>), BindingError>)
        requires
            distinct_names(params@),
        ensures
            !op_runtime_names(self.operation_mappings@).contains(runtime_name@)
                ==> (r matches Err(BindingError::MissingOperation(n)) && n@ == runtime_name@),
            forall|i: int| #[trigger] is_first(op_runtime_names(self.operation_mappings@), runtime_name@, i) ==>
                match params_result(self.operation_mappings@[i].param_mappings@, params@) {
                    Ok(m) => r matches Ok((t, p)) && t@ == self.operation_mappings@[i].tla_action@
                        && distinct_names(p@) && named_models(p@) == m,
                    Err((param, msg)) => r matches Err(BindingError::ParamError { operation, param: p, message })
                        && operation@ == runtime_name@ && p@ == param && message@ == msg,
                },
    {
        match self.find_operation_mapping(runtime_name) {
            None => Err(BindingError::MissingOperation(to_owned_string(runtime_name))),
            Some(mapping) => {
                let ghost i = choose|i: int| is_first(op_runtime_names(self.operation_mappings@), runtime_name@, i)
                    && *mapping == self.operation_mappings@[i];
                proof {
                    assert forall|j: int| #[trigger] is_first(op_runtime_names(self.operation_mappings@), runtime_name@, j) implies j == i by {
                        if j < i {
                            assert(op_runtime_names(self.operation_mappings@)[j] != runtime_name@);
                        } else if i < j {
                            assert(op_runtime_names(self.operation_mappings@)[i] != runtime_name@);
                        }
                    }
                }
                match mapping.map_params(params) {
                    Ok(p) => Ok((to_owned_string(mapping.tla_action.as_str()), p)),
                    Err(e) => Err(e),
                }
            },
        }
    }

    /// The runtime names of the variable mappings, in order.
    fn variable_runtime_names(&self) -> (r: Vec<&str>)
        ensures
            strs_views(r@) == var_runtime_names(self.variable_mappings@),
    {
        let ms = &self.variable_mappings;
        let mut out: Vec<&str> = Vec::new();
        let n = ms.len();
        let mut i: usize = 0;
        while i < n
            invariant
                n == ms@.len(),
                ms@ == self.variable_mappings@,
                i <= n,
                out@.len() == i,
                forall|j: int| 0 <= j < i ==> (#[trigger] out@[j])@ == ms@[j].runtime_name@,
            decreases n - i,
        {
            out.push(ms[i].runtime_name.as_str());
            i = i + 1;
        }
        assert(strs_views(out@) =~= var_runtime_names(ms@));
        out
    }

    /// The runtime names of the operation mappings, in order.
    fn operation_runtime_names(&self) -> (r: Vec<&str>)
        ensures
            strs_views(r@) == op_runtime_names(self.operation_mappings@),
    {
        let ms = &self.operation_mappings;
        let mut out: Vec<&str> = Vec::new();
        let n = ms.len();
        let mut i: usize = 0;
        while i < n
            invariant
                n == ms@.len(),
                ms@ == self.operation_mappings@,
                i <= n,
                out@.len() == i,
                forall|j: int| 0 <= j < i ==> (#[trigger] out@[j])@ == ms@[j].runtime_name@,
            decreases n - i,
        {
            out.push(ms[i].runtime_name.as_str());
            i = i + 1;
        }
        assert(strs_views(out@) =~= op_runtime_names(ms@));
        out
    }

    /// Checks that no runtime variable, TLA+ variable or runtime operation
    /// is mapped twice (see `binding_issue`).
    pub fn validate(&self) -> (r: Result<(), BindingError>)
        ensures
            match binding_issue(*self) {
                None => r is Ok,
                Some(msg) => r matches Err(BindingError::InvalidConfig(s)) && s@ == msg,
            },
    {
        let rns = self.variable_runtime_names();
        let tns = self.tla_variable_names();
        let ghost rn = var_runtime_names(self.variable_mappings@);
        let ghost tn = var_tla_names(self.variable_mappings@);
        let n = rns.len();
        let mut i: usize = 0;
        proof {
            assert(strs_views(tns@) =~= tn);
        }
        while i < n
            invariant
                n == rns@.len(),
                strs_views(rns@) == rn,
                strs_views(tns@) == tn,
                rn.len() == n,
                tn.len() == n,
                rn == var_runtime_names(self.variable_mappings@),
                tn == var_tla_names(self.variable_mappings@),
                i <= n,
                variable_issue(rn, tn, 0) == variable_issue(rn, tn, i as int),
            decreases n - i,
        {
            if has_dup_before(&rns, i) {
                let mut s = empty_string();
                push_str(&mut s, "Duplicate runtime variable mapping: ");
                push_str(&mut s, rns[i]);
                proof {
                    assert(rn[i as int] == rns@[i as int]@);
                    assert(binding_issue(*self) == Some(s@));
                }
                return Err(BindingError::InvalidConfig(s));
            }
            if has_dup_before(&tns, i) {
                let mut s = empty_string();
                push_str(&mut s, "Duplicate TLA+ variable mapping: ");
                push_str(&mut s, tns[i]);
                proof {
                    assert(tn[i as int] == tns@[i as int]@);
                    assert(binding_issue(*self) == Some(s@));
                }
                return Err(BindingError::InvalidConfig(s));
            }
            i = i + 1;
        }
        let ons = self.operation_runtime_names();
        let ghost on = op_runtime_names(self.operation_mappings@);
        let m = ons.len();
        let mut k: usize = 0;
        while k < m
            invariant
                m == ons@.len(),
                strs_views(ons@) == on,
                on.len() == m,
                on == op_runtime_names(self.operation_mappings@),
                k <= m,
                variable_issue(rn, tn, 0) is None,
                rn == var_runtime_names(self.variable_mappings@),
                tn == var_tla_names(self.variable_mappings@),
                operation_issue(on, 0) == operation_issue(on, k as int),
            decreases m - k,
        {
            if has_dup_before(&ons, k) {
                let mut s = empty_string();
                push_str(&mut s, "Duplicate operation mapping: ");
                push_str(&mut s, ons[k]);
                proof {
                    assert(on[k as int] == ons@[k as int]@);
                    assert(binding_issue(*self) == Some(s@));
                }
                return Err(BindingError::InvalidConfig(s));
            }
            k = k + 1;
        }
        Ok(())
    }

    /// The TLA+ names of the variable mappings, in order.
    pub fn tla_variable_names(&self) -> (r: Vec<&str>)
        ensures
            strs_views(r@) == var_tla_names(self.variable_mappings@),
    {
        let ms = &self.variable_mappings;
        let mut out: Vec<&str> = Vec::new();
        let n = ms.len();
        let mut i: usize = 0;
        while i < n
            invariant
                n == ms@.len(),
                ms@ == self.variable_mappings@,
                i <= n,
                out@.len() == i,
                forall|j: int| 0 <= j < i ==> (#[trigger] out@[j])@ == ms@[j].tla_name@,
            decreases n - i,
        {
            out.push(ms[i].tla_name.as_str());
            i = i + 1;
        }
        assert(strs_views(out@) =~= var_tla_names(ms@));
        out
    }

    /// The TLA+ actions of the operation mappings, in order.
    pub fn tla_action_names(&self) -> (r: Vec<&str>)
        ensures
            strs_views(r@) == op_tla_actions(self.operation_mappings@),
    {
        let ms = &self.operation_mappings;
        let mut out: Vec<&str> = Vec::new();
        let n = ms.len();
        let mut i: usize = 0;
        while i < n
            invariant
                n == ms@.len(),
                ms@ == self.operation_mappings@,
                i <= n,
                out@.len() == i,
                forall|j: int| 0 <= j < i ==> (#[trigger] out@[j])@ == ms@[j].tla_action@,
            decreases n - i,
        {
            out.push(ms[i].tla_action.as_str());
            i = i + 1;
        }
        assert(strs_views(out@) =~= op_tla_actions(ms@));
        out
    }
}

} // verus!
