use sem_os_policy::derivation::DerivationError;

#[test]
fn derivation_errors_are_described() {
    assert_eq!(
        DerivationError::FunctionNotFound { ref_name: "f".to_string() }.message(),
        "Derivation function 'f' not found in registry"
    );
    assert_eq!(
        DerivationError::NullRequiredInput { attribute_fqn: "a.b".to_string() }.message(),
        "Required input 'a.b' is null"
    );
    assert_eq!(
        DerivationError::ExecutionFailed { message: "boom".to_string() }.message(),
        "Derivation execution failed: boom"
    );
    assert_eq!(
        DerivationError::StalenessViolation { max_age_seconds: 3600 }.message(),
        "Input data exceeds freshness rule (3600 seconds)"
    );
}

use sem_os_policy::json::JsonValue;
use sem_os_policy::derivation::{
    check_derivation_inputs, derivation_gate, DerivationEvaluationSpec, DerivationInputDef, GateOutcome,
    NullSemantics,
};

fn make_spec(fn_name: &str, null_semantics: NullSemantics) -> DerivationEvaluationSpec {
    DerivationEvaluationSpec {
        inputs: vec![DerivationInputDef { attribute_fqn: "in.val".into(), role: "primary".into(), required: true }],
        null_semantics,
        function_ref: fn_name.into(),
    }
}

fn json(text: &str) -> JsonValue {
    lib_json(&serde_json::from_str(text).unwrap())
}

/// The library's JSON value of a `serde_json` value.
fn lib_json(v: &serde_json::Value) -> JsonValue {
    match v {
        serde_json::Value::Null => JsonValue::Null,
        serde_json::Value::Bool(b) => JsonValue::Bool(*b),
        serde_json::Value::Number(n) => JsonValue::Number(n.to_string()),
        serde_json::Value::String(s) => JsonValue::String(s.clone()),
        serde_json::Value::Array(a) => JsonValue::Array(a.iter().map(lib_json).collect()),
        serde_json::Value::Object(o) => {
            JsonValue::Object(o.iter().map(|(k, x)| (k.clone(), lib_json(x))).collect())
        }
    }
}


#[test]
fn register_and_evaluate() {
    let spec = make_spec("double", NullSemantics::Error);
    let outcome = check_derivation_inputs(&spec, &json(r#"{"in.val": 5}"#), &vec!["double".to_string()]);
    assert_eq!(outcome, Ok(GateOutcome::Call));
}

#[test]
fn function_not_found() {
    let spec = make_spec("missing_fn", NullSemantics::Error);
    let err = check_derivation_inputs(&spec, &json(r#"{"in.val": 1}"#), &vec![]).unwrap_err();
    assert_eq!(err, DerivationError::FunctionNotFound { ref_name: "missing_fn".into() });
}

#[test]
fn null_required_input_error_semantics() {
    let spec = make_spec("noop", NullSemantics::Error);
    let err = check_derivation_inputs(&spec, &json("{}"), &vec!["noop".to_string()]).unwrap_err();
    assert_eq!(err, DerivationError::NullRequiredInput { attribute_fqn: "in.val".into() });
    let null = check_derivation_inputs(&spec, &json(r#"{"in.val": null}"#), &vec!["noop".to_string()]);
    assert!(null.is_err());
}

#[test]
fn null_semantics_decide_the_outcome() {
    let names = vec!["f".to_string()];
    let propagate = make_spec("f", NullSemantics::Propagate);
    assert_eq!(derivation_gate(&propagate, &vec![true], &names), Ok(GateOutcome::NullResult));
    let skip = make_spec("f", NullSemantics::Skip);
    assert_eq!(derivation_gate(&skip, &vec![true], &names), Ok(GateOutcome::NullResult));
    let default = make_spec("g", NullSemantics::Default(json("0")));
    assert_eq!(
        derivation_gate(&default, &vec![true], &names),
        Err(DerivationError::FunctionNotFound { ref_name: "g".into() })
    );
    assert_eq!(derivation_gate(&propagate, &vec![false], &names), Ok(GateOutcome::Call));
    let mut optional = make_spec("f", NullSemantics::Error);
    optional.inputs[0].required = false;
    assert_eq!(derivation_gate(&optional, &vec![true], &names), Ok(GateOutcome::Call));
}

#[test]
fn inputs_that_are_not_an_object_are_absent() {
    let spec = make_spec("f", NullSemantics::Error);
    let names = vec!["f".to_string()];
    assert!(check_derivation_inputs(&spec, &json("[1]"), &names).is_err());
    assert_eq!(check_derivation_inputs(&spec, &json(r#"{"in.val": false}"#), &names), Ok(GateOutcome::Call));
    assert!(check_derivation_inputs(&spec, &json(r#"{"other": 1}"#), &names).is_err());
}
