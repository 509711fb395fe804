use mamut::checker::tlaplus::config::{generate_trace_checker_module, ConstantValue, TlcConfigBuilder, TlcWorkerConfig};
use mamut::checker::tlaplus::result::{
    CounterexampleState, CounterexampleTrace, PropertyType, PropertyViolation, TlcExitStatus, ValidationResult,
};
use mamut::checker::tlaplus::runner::{
    assignment_parsable, tlc_output_parsable, extract_violations, parse_state_header, parse_tlc_output, parse_variable_assignment, TlcRunnerBuilder,
};
use mamut::checker::tlaplus::tla_value::{parse_tla_value, tla_parsable, TlaValue};
use std::time::Duration;

#[test]
fn test_config_builder() {
    let config = TlcConfigBuilder::new("KVStore")
        .with_init("Init")
        .with_next("Next")
        .with_invariant("TypeInvariant")
        .with_invariant("SafetyInvariant")
        .with_property("Liveness")
        .with_constant_int("MaxKeys", 100)
        .with_model_value_set("Nodes", &["n1", "n2", "n3"])
        .with_workers(4)
        .check_deadlock(true)
        .build();

    assert_eq!(config.spec_name, "KVStore");
    assert_eq!(config.init, Some("Init".to_string()));
    assert_eq!(config.next, Some("Next".to_string()));
    assert_eq!(config.invariants.len(), 2);
    assert_eq!(config.properties.len(), 1);
    assert_eq!(config.workers.num_workers, 4);
}

#[test]
fn test_config_to_cfg_string() {
    let config = TlcConfigBuilder::new("Test")
        .with_init("Init")
        .with_next("Next")
        .with_invariant("Inv")
        .with_constant_int("N", 10)
        .build();

    let cfg = config.to_cfg_string();
    assert!(cfg.contains("INIT Init"));
    assert!(cfg.contains("NEXT Next"));
    assert!(cfg.contains("INVARIANT Inv"));
    assert!(cfg.contains("N = 10"));
}

#[test]
fn test_constant_values() {
    assert_eq!(ConstantValue::Integer(42).to_tla_string(), "42");
    assert_eq!(ConstantValue::Boolean(true).to_tla_string(), "TRUE");
    assert_eq!(ConstantValue::Boolean(false).to_tla_string(), "FALSE");
    assert_eq!(ConstantValue::String("hello".into()).to_tla_string(), "\"hello\"");
    assert_eq!(ConstantValue::ModelValueSet(vec!["a".into(), "b".into()]).to_tla_string(), "{ a, b }");
    assert_eq!(
        ConstantValue::Sequence(vec![ConstantValue::Integer(1), ConstantValue::Integer(2)]).to_tla_string(),
        "<< 1, 2 >>"
    );
}

#[test]
fn constant_values_nest_and_escape() {
    assert_eq!(ConstantValue::Integer(-7).to_tla_string(), "-7");
    assert_eq!(ConstantValue::String("a\"b".into()).to_tla_string(), "\"a\\\"b\"");
    assert_eq!(
        ConstantValue::SetOf(vec![ConstantValue::Sequence(vec![]), ConstantValue::Boolean(true)]).to_tla_string(),
        "{ <<  >>, TRUE }"
    );
}

#[test]
fn test_worker_config() {
    let config = TlcWorkerConfig::new(8).with_heap_size(4096).with_off_heap(true);

    let args = config.to_jvm_args();
    assert!(args.contains(&"-Xmx4096m".to_string()));
    assert!(args.contains(&"-Xms4096m".to_string()));
    assert!(args.contains(&"-XX:+UseG1GC".to_string()));
}

#[test]
fn test_generate_trace_checker() {
    let module = generate_trace_checker_module("KVStoreTrace", "KVStore", "trace_data");
    assert!(module.contains("MODULE KVStoreTrace"));
    assert!(module.contains("EXTENDS KVStore"));
    assert!(module.contains("_trace_index"));
}

#[test]
fn test_tlc_exit_status() {
    assert!(TlcExitStatus::from_exit_code(0).is_success());
    assert!(TlcExitStatus::from_exit_code(10).is_violation());
    assert!(TlcExitStatus::from_exit_code(11).is_violation());
    assert!(TlcExitStatus::from_exit_code(12).is_violation());
    assert!(TlcExitStatus::from_exit_code(13).is_violation());
    assert!(TlcExitStatus::from_exit_code(14).is_error());
    assert!(TlcExitStatus::from_exit_code(99).is_error());
}

#[test]
fn test_validation_result() {
    let result = ValidationResult::valid();
    assert!(result.is_valid());
    assert!(!result.is_invalid());

    let violation = PropertyViolation::new(PropertyType::Invariant, "x must be positive")
        .with_name("PositiveInvariant")
        .with_step(5);
    let result = ValidationResult::invalid(vec![violation]);
    assert!(!result.is_valid());
    assert!(result.is_invalid());
    assert_eq!(result.violations.len(), 1);
}

#[test]
fn test_property_violation() {
    let violation = PropertyViolation::new(PropertyType::Invariant, "x must be positive")
        .with_name("PositiveInvariant")
        .with_step(5)
        .with_action("Decrement");

    assert_eq!(violation.property_type, PropertyType::Invariant);
    assert_eq!(violation.property_name.as_deref(), Some("PositiveInvariant"));
    assert_eq!(violation.step, Some(5));
    assert_eq!(violation.action.as_deref(), Some("Decrement"));
}

#[test]
fn test_counterexample_trace() {
    let state1 = CounterexampleState::new(1).with_variable("x", TlaValue::Int(0));
    let state2 = CounterexampleState::new(2).with_action("Increment").with_variable("x", TlaValue::Int(1));
    let state3 = CounterexampleState::new(3).with_action("Decrement").with_variable("x", TlaValue::Int(0));

    let trace = CounterexampleTrace::new(vec![state1, state2, state3])
        .with_violated_property("PositiveInvariant")
        .with_description("x became zero");

    assert_eq!(trace.len(), 3);
    assert!(!trace.is_lasso);
    assert_eq!(trace.violated_property.as_deref(), Some("PositiveInvariant"));

    let initial = trace.initial_state().unwrap();
    assert_eq!(initial.step, 1);
    assert!(matches!(initial.get_variable("x"), Some(TlaValue::Int(0))));
}

fn ints(v: &TlaValue) -> Vec<i64> {
    match v {
        TlaValue::List(items) => items
            .iter()
            .map(|i| match i {
                TlaValue::Int(n) => *n,
                _ => panic!("not an integer"),
            })
            .collect(),
        _ => panic!("not a list"),
    }
}

#[test]
fn test_parse_tla_value() {
    assert!(matches!(parse_tla_value("TRUE"), TlaValue::Bool(true)));
    assert!(matches!(parse_tla_value("FALSE"), TlaValue::Bool(false)));
    assert!(matches!(parse_tla_value("42"), TlaValue::Int(42)));
    assert!(matches!(parse_tla_value("\"hello\""), TlaValue::Str(s) if s == "hello"));
    assert_eq!(ints(&parse_tla_value("<< 1, 2, 3 >>")), vec![1, 2, 3]);
    assert_eq!(ints(&parse_tla_value("{ 1, 2, 3 }")), vec![1, 2, 3]);
}

#[test]
fn tla_records_and_plain_text() {
    match parse_tla_value("[a |-> 1, b |-> TRUE]") {
        TlaValue::Record(fields) => {
            assert_eq!(fields.len(), 2);
            assert_eq!(fields[0].0, "a");
            assert!(matches!(fields[0].1, TlaValue::Int(1)));
            assert_eq!(fields[1].0, "b");
            assert!(matches!(fields[1].1, TlaValue::Bool(true)));
        }
        _ => panic!("not a record"),
    }
    assert!(matches!(parse_tla_value("  model_value "), TlaValue::Str(s) if s == "model_value"));
}

#[test]
fn test_parse_state_header() {
    assert_eq!(parse_state_header("State 1: <Init>"), Some((1, Some("Init".to_string()))));
    assert_eq!(parse_state_header("State 2: <Next>"), Some((2, Some("Next".to_string()))));
    assert_eq!(parse_state_header("State 3:"), Some((3, None)));
}

#[test]
fn test_parse_variable_assignment() {
    let (name, value) = parse_variable_assignment("/\\ x = 42").unwrap();
    assert_eq!(name, "x");
    assert!(matches!(value, TlaValue::Int(42)));
    let (name, value) = parse_variable_assignment("  /\\ flag = TRUE").unwrap();
    assert_eq!(name, "flag");
    assert!(matches!(value, TlaValue::Bool(true)));
    let (name, value) = parse_variable_assignment("/\\ items = << 1, 2, 3 >>").unwrap();
    assert_eq!(name, "items");
    assert_eq!(ints(&value), vec![1, 2, 3]);
}

#[test]
fn test_parse_tlc_output() {
    let lines = vec![
        "TLC2 Version 2.18".to_string(),
        "Starting...".to_string(),
        "100 states generated, 50 distinct states found".to_string(),
        "Model checking completed. No error has been found.".to_string(),
    ];

    let output = parse_tlc_output(&lines);
    assert!(output.version.is_some());
    assert!(output.completed);
    assert_eq!(output.states_generated, Some(100));
    assert_eq!(output.distinct_states, Some(50));
}

#[test]
fn test_extract_violations() {
    let lines = vec![
        "Error: Invariant \"SafetyInvariant\" is violated.".to_string(),
        "State 1: <Init>".to_string(),
        "/\\ x = 0".to_string(),
    ];

    let parsed = parse_tlc_output(&lines);
    let violations = extract_violations(&lines, &parsed);

    assert_eq!(violations.len(), 1);
    assert_eq!(violations[0].property_type, PropertyType::Invariant);
    assert_eq!(violations[0].property_name, Some("SafetyInvariant".to_string()));
}

#[test]
fn tlc_output_counterexample_states() {
    let lines = vec![
        "Error: Invariant \"Inv\" is violated.".to_string(),
        "State 1: <Init>".to_string(),
        "/\\ x = 0".to_string(),
        "State 2: <Next>".to_string(),
        "/\\ x = 1".to_string(),
    ];
    let parsed = parse_tlc_output(&lines);
    let ce = parsed.counterexample.expect("a counterexample");
    assert_eq!(ce.len(), 2);
    assert_eq!(ce.states[1].action.as_deref(), Some("Next"));
    assert!(matches!(ce.states[1].get_variable("x"), Some(TlaValue::Int(1))));
}

#[test]
fn test_tlc_runner_builder() {
    let runner = TlcRunnerBuilder::new("/path/to/tla2tools.jar")
        .with_timeout(Duration::from_secs(120))
        .with_workers(4)
        .with_heap_size(2048)
        .with_jvm_arg("-XX:+UseG1GC")
        .with_tlc_arg("-deadlock")
        .build();

    assert_eq!(runner.timeout, Duration::from_secs(120));
    assert_eq!(runner.workers, 4);
    assert_eq!(runner.heap_size_mb, Some(2048));
    assert!(runner.jvm_args.contains(&"-XX:+UseG1GC".to_string()));
    assert!(runner.tlc_args.contains(&"-deadlock".to_string()));
}

#[test]
fn parsability_of_values_and_output() {
    assert!(tla_parsable("42"));
    assert!(tla_parsable("\"ok\""));
    assert!(!tla_parsable("\""));
    assert!(!tla_parsable("<< 1, \" >>"));
    assert!(!tla_parsable("[a |-> \"]"));
    assert!(assignment_parsable("/\\ x = 1"));
    assert!(!assignment_parsable("/\\ x = \""));
    let good = vec!["Error: Invariant \"Inv\" is violated.".to_string(), "State 1: <Init>".to_string(), "/\\ x = 0".to_string()];
    assert!(tlc_output_parsable(&good));
    let bad = vec!["Error: Invariant \"Inv\" is violated.".to_string(), "State 1: <Init>".to_string(), "/\\ x = \"".to_string()];
    assert!(!tlc_output_parsable(&bad));
    let back = vec!["Error: Invariant \"Inv\" is violated.".to_string(), "Back to state 0".to_string()];
    assert!(!tlc_output_parsable(&back));
}

#[test]
fn timeout_error_shows_the_duration() {
    let e = mamut::checker::tlaplus::result::TlcError::Timeout(Duration::from_millis(1500));
    assert_eq!(e.to_string(), "TLC execution timed out after 1.5s");
}
