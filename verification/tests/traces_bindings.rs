use mamut::checker::tlaplus::binding::{
    BindingError, OperationMapping, ParamMapping, SpecBinding, VariableMapping, VariableTransform,
};
use mamut::checker::tlaplus::trace::{TraceClock, TraceError, TraceFile, TraceStep, VectorClock};
use mamut::json::JsonValue;
use mamut::named::get_named;

fn num(n: i64) -> JsonValue {
    JsonValue::Number(n.to_string())
}

fn text(s: &str) -> JsonValue {
    JsonValue::String(s.to_string())
}

#[test]
fn test_logical_clock_ordering() {
    let c1 = TraceClock::logical(1);
    let c2 = TraceClock::logical(2);
    let c3 = TraceClock::logical(2);

    assert!(c1.happens_before(&c2));
    assert!(!c2.happens_before(&c1));
    assert!(!c2.happens_before(&c3));
}

#[test]
fn test_vector_clock_ordering() {
    let vc1 = VectorClock::from_map(vec![("A".to_string(), 1), ("B".to_string(), 0)]);
    let vc2 = VectorClock::from_map(vec![("A".to_string(), 1), ("B".to_string(), 1)]);

    assert!(vc1.happens_before(&vc2));
    assert!(!vc2.happens_before(&vc1));

    let vc3 = VectorClock::from_map(vec![("A".to_string(), 2), ("B".to_string(), 0)]);

    assert!(!vc2.happens_before(&vc3));
    assert!(!vc3.happens_before(&vc2));
    assert!(vc2.concurrent_with(&vc3));
}

#[test]
fn test_trace_validation() {
    let trace = TraceFile::from_steps(vec![
        TraceStep::new(TraceClock::logical(1), "A", vec![]),
        TraceStep::new(TraceClock::logical(2), "B", vec![]),
        TraceStep::new(TraceClock::logical(3), "C", vec![]),
    ]);
    assert!(trace.validate_clock_ordering().is_ok());

    let invalid_trace = TraceFile::from_steps(vec![
        TraceStep::new(TraceClock::logical(2), "A", vec![]),
        TraceStep::new(TraceClock::logical(1), "B", vec![]),
    ]);
    assert!(invalid_trace.validate_clock_ordering().is_err());
}

#[test]
fn test_trace_queries() {
    let trace = TraceFile::from_steps(vec![
        TraceStep::new(TraceClock::logical(1), "Write", vec![("x".to_string(), num(1))]).with_process("P1"),
        TraceStep::new(TraceClock::logical(2), "Read", vec![("x".to_string(), num(1))]).with_process("P2"),
        TraceStep::new(TraceClock::logical(3), "Write", vec![("x".to_string(), num(2))]).with_process("P1"),
    ]);

    assert_eq!(trace.action_names(), vec!["Read", "Write"]);
    assert_eq!(trace.variable_names(), vec!["x"]);
    assert_eq!(trace.filter_by_action("Write").len(), 2);
    assert_eq!(trace.filter_by_process("P1").len(), 2);
    assert_eq!(trace.filter_by_process("P2").len(), 1);
}

#[test]
fn trace_step_lookups() {
    let step = TraceStep::new(TraceClock::logical(1), "Write", vec![("x".to_string(), num(42))])
        .with_params(vec![("key".to_string(), text("foo"))]);
    assert_eq!(step.get_var("x"), Some(&num(42)));
    assert_eq!(step.get_var("y"), None);
    assert_eq!(step.get_param("key"), Some(&text("foo")));
}

#[test]
fn test_spec_binding() {
    let binding = SpecBinding::new("KVStore")
        .with_module_name("KVSpec")
        .with_variable_mapping(VariableMapping::new("store", "kv_store"))
        .with_operation_mapping(
            OperationMapping::new("Put", "KVPut").with_param_mapping("key", "k").with_param_mapping("value", "v"),
        )
        .with_constant("MaxKeys", num(100));

    assert_eq!(binding.spec_id.0, "KVStore");
    assert_eq!(binding.module_name, Some("KVSpec".to_string()));
    assert_eq!(binding.variable_mappings.len(), 1);
    assert_eq!(binding.operation_mappings.len(), 1);

    let var_mapping = binding.find_variable_mapping("store").unwrap();
    assert_eq!(var_mapping.tla_name, "kv_store");

    let op_mapping = binding.find_operation_mapping("Put").unwrap();
    assert_eq!(op_mapping.tla_action, "KVPut");
}

#[test]
fn test_variable_transform() {
    let value = JsonValue::Object(vec![
        ("items".to_string(), JsonValue::Array(vec![num(1), num(2), num(3)])),
        ("count".to_string(), num(3)),
    ]);

    let transform = VariableTransform::ExtractField("items".to_string());
    let result = transform.apply(&value).unwrap();
    assert_eq!(result, JsonValue::Array(vec![num(1), num(2), num(3)]));

    let chain = VariableTransform::Chain(vec![
        VariableTransform::ExtractField("items".to_string()),
        VariableTransform::ArrayToSequence,
    ]);
    let result = chain.apply(&value).unwrap();
    assert_eq!(result, JsonValue::Array(vec![num(1), num(2), num(3)]));
}

#[test]
fn variable_transforms_fail_and_convert() {
    let value = JsonValue::Object(vec![("flag".to_string(), JsonValue::Bool(true)), ("none".to_string(), JsonValue::Null)]);
    assert_eq!(
        VariableTransform::ExtractField("missing".to_string()).apply(&value),
        Err("Field 'missing' not found".to_string())
    );
    assert_eq!(
        VariableTransform::ArrayToSequence.apply(&value),
        Err("Expected array for sequence conversion".to_string())
    );
    assert_eq!(VariableTransform::ObjectToRecord.apply(&value), Ok(value.clone()));
    assert_eq!(
        VariableTransform::JsonToTla.apply(&value),
        Ok(JsonValue::Object(vec![("flag".to_string(), text("TRUE")), ("none".to_string(), text("NULL"))]))
    );
    assert_eq!(
        VariableTransform::Custom("$value + 1".to_string()).apply(&num(1)),
        Ok(JsonValue::Object(vec![("_transform".to_string(), text("$value + 1")), ("_value".to_string(), num(1))]))
    );
    let chain = VariableTransform::Chain(vec![VariableTransform::ArrayToSequence, VariableTransform::JsonToTla]);
    assert_eq!(chain.apply(&num(5)), Err("Expected array for sequence conversion".to_string()));
}

#[test]
fn test_operation_mapping() {
    let mapping = OperationMapping::new("Put", "KVPut").with_param_mapping("key", "k").with_param_mapping("value", "v");

    let params = vec![("key".to_string(), text("foo")), ("value".to_string(), num(42))];

    let tla_params = mapping.map_params(&params).unwrap();
    assert_eq!(get_named(&tla_params, "k"), Some(&text("foo")));
    assert_eq!(get_named(&tla_params, "v"), Some(&num(42)));
}

#[test]
fn operation_mapping_reports_missing_parameters() {
    let mapping = OperationMapping::new("Put", "KVPut").with_param("key");
    let err = mapping.map_params(&vec![]).unwrap_err();
    assert_eq!(
        err,
        BindingError::ParamError {
            operation: "Put".to_string(),
            param: "key".to_string(),
            message: "Parameter not found in trace".to_string()
        }
    );
    assert_eq!(
        err.to_string(),
        "Parameter mapping failed for operation 'Put', param 'key': Parameter not found in trace"
    );
    let with_transform = OperationMapping::new("Get", "KVGet")
        .with_param_transform("key", ParamMapping::renamed("k".to_string()).with_transform(VariableTransform::JsonToTla));
    let mapped = with_transform.map_params(&vec![("key".to_string(), JsonValue::Bool(false))]).unwrap();
    assert_eq!(get_named(&mapped, "k"), Some(&text("FALSE")));
}

#[test]
fn test_binding_validation() {
    let binding = SpecBinding::new("Test")
        .with_variable_mapping(VariableMapping::new("a", "tla_a"))
        .with_variable_mapping(VariableMapping::new("b", "tla_b"));
    assert!(binding.validate().is_ok());

    let binding = SpecBinding::new("Test")
        .with_variable_mapping(VariableMapping::new("a", "tla_a"))
        .with_variable_mapping(VariableMapping::new("a", "tla_b"));
    assert!(binding.validate().is_err());

    let binding = SpecBinding::new("Test")
        .with_variable_mapping(VariableMapping::new("a", "tla_x"))
        .with_variable_mapping(VariableMapping::new("b", "tla_x"));
    assert!(binding.validate().is_err());
}

#[test]
fn binding_validation_messages_and_lookups() {
    let binding = SpecBinding::new("Test")
        .with_variable_mapping(VariableMapping::new("a", "tla_x"))
        .with_variable_mapping(VariableMapping::new("b", "tla_x"));
    assert_eq!(
        binding.validate(),
        Err(BindingError::InvalidConfig("Duplicate TLA+ variable mapping: tla_x".to_string()))
    );
    let binding = SpecBinding::new("Test")
        .with_operation_mapping(OperationMapping::new("Put", "A"))
        .with_operation_mapping(OperationMapping::new("Put", "B"));
    assert_eq!(binding.validate(), Err(BindingError::InvalidConfig("Duplicate operation mapping: Put".to_string())));
    assert_eq!(binding.find_operation_mapping("Put").unwrap().tla_action, "A");
    assert_eq!(binding.find_operation_mapping_by_tla("B").unwrap().runtime_name, "Put");
    assert_eq!(binding.tla_action_names(), vec!["A", "B"]);
    assert!(matches!(binding.map_variable("nope", &num(1)), Err(BindingError::MissingVariable(n)) if n == "nope"));
    assert!(matches!(binding.map_operation("Get", &vec![]), Err(BindingError::MissingOperation(n)) if n == "Get"));
    let binding = SpecBinding::new("T")
        .with_variable_mapping(VariableMapping::new("store", "kv").with_transform(VariableTransform::ObjectToFunction));
    assert_eq!(binding.tla_variable_names(), vec!["kv"]);
    assert!(matches!(
        binding.map_variable("store", &num(1)),
        Err(BindingError::TransformError { variable, message }) if variable == "store" && message == "Expected object for function conversion"
    ));
    let (name, value) = binding.map_variable("store", &JsonValue::Object(vec![])).unwrap();
    assert_eq!(name, "kv");
    assert_eq!(value, JsonValue::Object(vec![]));
}

#[test]
fn trace_error_display_texts() {
    assert_eq!(TraceError::Io("denied".to_string()).to_string(), "I/O error: denied");
    assert_eq!(
        TraceError::Json { line: 3, message: "bad".to_string() }.to_string(),
        "JSON error at line 3: bad"
    );
    assert_eq!(TraceError::EmptyTrace.to_string(), "Trace file is empty");
    assert_eq!(
        TraceError::ClockOrdering { step: 2, message: "backwards".to_string() }.to_string(),
        "Clock ordering violation at step 2: backwards"
    );
}

#[test]
fn logical_clocks_must_increase() {
    let same = TraceFile::from_steps(vec![
        TraceStep::new(TraceClock::logical(2), "A", vec![]),
        TraceStep::new(TraceClock::logical(2), "B", vec![]),
    ]);
    match same.validate_clock_ordering() {
        Err(TraceError::ClockOrdering { step, message }) => {
            assert_eq!(step, 1);
            assert_eq!(message, "Step 1 has clock Logical(2) which does not come after step 0's clock Logical(2)");
        },
        other => panic!("unexpected {:?}", other),
    }

    let backwards = TraceFile::from_steps(vec![
        TraceStep::new(TraceClock::logical(2), "A", vec![]),
        TraceStep::new(TraceClock::logical(1), "B", vec![]),
    ]);
    match backwards.validate_clock_ordering() {
        Err(TraceError::ClockOrdering { step, .. }) => assert_eq!(step, 1),
        other => panic!("unexpected {:?}", other),
    }
}

#[test]
fn trace_clocks_are_partially_ordered() {
    assert_eq!(TraceClock::logical(1).partial_cmp(&TraceClock::logical(2)), Some(std::cmp::Ordering::Less));
    assert_eq!(TraceClock::logical(2).partial_cmp(&TraceClock::logical(2)), Some(std::cmp::Ordering::Equal));
    assert_eq!(TraceClock::hybrid(5, 1).partial_cmp(&TraceClock::hybrid(4, 9)), Some(std::cmp::Ordering::Greater));
    assert_eq!(TraceClock::logical(1).partial_cmp(&TraceClock::hybrid(1, 1)), None);
    let a = TraceClock::vector(VectorClock::from_map(vec![("A".to_string(), 1), ("B".to_string(), 0)]));
    let b = TraceClock::vector(VectorClock::from_map(vec![("A".to_string(), 0), ("B".to_string(), 1)]));
    assert_eq!(a.partial_cmp(&b), None);
}

#[test]
fn missing_parameter_takes_the_default() {
    let m = OperationMapping::new("Put", "KVPut").with_param_transform("ttl", ParamMapping::simple("ttl").with_default(num(0)));
    let mapped = m.map_params(&vec![]).unwrap();
    assert_eq!(get_named(&mapped, "ttl"), Some(&num(0)));
}
