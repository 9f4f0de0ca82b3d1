use agentos_core::model::{
    ModelAdapterError, ModelId, NoopStructuredOutputRepairPolicy, StructuredOutputFormat,
    StructuredOutputRepairPolicy,
};
use agentos_core::structured::{
    validate_json_schema_subset, validate_json_type, StructuredOutputValidator,
};

fn task_schema() -> serde_json::Value {
    serde_json::from_str(
        r#"{
            "type": "object",
            "required": ["title", "priority"],
            "properties": {
                "title": {"type": "string"},
                "priority": {"type": "integer"},
                "done": {"type": "boolean"}
            }
        }"#,
    )
    .unwrap()
}

fn json(text: &str) -> serde_json::Value {
    serde_json::from_str(text).unwrap()
}

struct StaticRepairPolicy {
    repaired: String,
}

impl StructuredOutputRepairPolicy for StaticRepairPolicy {
    fn repair(
        &self,
        _raw: &str,
        _format: &StructuredOutputFormat,
        _error: &ModelAdapterError,
    ) -> Option<String> {
        Some(self.repaired.clone())
    }
}

#[test]
fn structured_output_validator_accepts_matching_json() {
    let format = StructuredOutputFormat::json_schema("task", task_schema());
    let output = StructuredOutputValidator::new(&format)
        .validate(r#"{"title":"ship","priority":2,"done":false}"#)
        .unwrap();

    assert_eq!(output.value["title"], "ship");
    assert_eq!(output.value["priority"], 2);
}

#[test]
fn structured_output_validator_rejects_malformed_json() {
    let format = StructuredOutputFormat::json_schema("task", task_schema());
    let error = StructuredOutputValidator::new(&format)
        .validate("not json")
        .unwrap_err();

    assert!(matches!(
        error,
        ModelAdapterError::MalformedStructuredOutput(_)
    ));
}

#[test]
fn structured_output_validator_rejects_schema_violation() {
    let format = StructuredOutputFormat::json_schema("task", task_schema());
    let error = StructuredOutputValidator::new(&format)
        .validate(r#"{"title":"ship","priority":"high"}"#)
        .unwrap_err();

    assert!(matches!(
        error,
        ModelAdapterError::StructuredOutputSchemaViolation(_)
    ));
}

#[test]
fn structured_output_validator_uses_repair_policy() {
    let format = StructuredOutputFormat::json_schema("task", task_schema());
    let repair = StaticRepairPolicy {
        repaired: r#"{"title":"ship","priority":1}"#.to_string(),
    };
    let output = StructuredOutputValidator::with_repair_policy(&format, &repair)
        .validate("not json")
        .unwrap();

    assert_eq!(output.value["priority"], 1);
}

#[test]
fn structured_output_validator_returns_typed_repair_failure() {
    let format = StructuredOutputFormat::json_schema("task", task_schema());
    let repair = StaticRepairPolicy {
        repaired: r#"{"title":"ship","priority":"high"}"#.to_string(),
    };
    let error = StructuredOutputValidator::with_repair_policy(&format, &repair)
        .validate("not json")
        .unwrap_err();

    assert!(matches!(
        error,
        ModelAdapterError::StructuredOutputRepairFailed(_)
    ));
}

#[test]
fn schema_violation_names_the_property_and_type() {
    let format = StructuredOutputFormat::json_schema("task", task_schema());
    let error = StructuredOutputValidator::new(&format)
        .validate(r#"{"title":"ship","priority":"high"}"#)
        .unwrap_err();
    assert_eq!(
        error,
        ModelAdapterError::StructuredOutputSchemaViolation("$.priority: expected integer".to_string())
    );
    assert_eq!(
        error.to_string(),
        "structured output schema violation: $.priority: expected integer"
    );
}

#[test]
fn missing_required_property_is_reported_first() {
    let format = StructuredOutputFormat::json_schema("task", task_schema());
    let error = StructuredOutputValidator::new(&format)
        .validate(r#"{"priority":"high"}"#)
        .unwrap_err();
    assert_eq!(
        error,
        ModelAdapterError::StructuredOutputSchemaViolation(
            "$: missing required property `title`".to_string()
        )
    );
}

#[test]
fn root_type_mismatch_is_reported_at_root() {
    assert_eq!(
        validate_json_schema_subset(&json("[1,2]"), &task_schema()),
        Err("$: expected object".to_string())
    );
}

#[test]
fn required_on_non_object_without_type() {
    let schema = json(r#"{"required":["a"]}"#);
    assert_eq!(
        validate_json_schema_subset(&json("3"), &schema),
        Err("$: expected object for required properties".to_string())
    );
    let schema = json(r#"{"properties":{"a":{"type":"string"}}}"#);
    assert_eq!(
        validate_json_schema_subset(&json("3"), &schema),
        Err("$: expected object for properties".to_string())
    );
    assert_eq!(validate_json_schema_subset(&json(r#"{"b":1}"#), &schema), Ok(()));
}

#[test]
fn json_types_are_checked_by_kind() {
    assert_eq!(validate_json_type(&json("2"), "integer", "$"), Ok(()));
    assert_eq!(
        validate_json_type(&json("2.5"), "integer", "$.x"),
        Err("$.x: expected integer".to_string())
    );
    assert_eq!(validate_json_type(&json("2.5"), "number", "$"), Ok(()));
    assert_eq!(validate_json_type(&json("null"), "null", "$"), Ok(()));
    assert_eq!(validate_json_type(&json("true"), "boolean", "$"), Ok(()));
    assert_eq!(validate_json_type(&json("[]"), "array", "$"), Ok(()));
    assert_eq!(
        validate_json_type(&json("{}"), "string", "$"),
        Err("$: expected string".to_string())
    );
    assert_eq!(validate_json_type(&json("{}"), "mystery", "$"), Ok(()));
}

#[test]
fn malformed_output_names_the_format() {
    let format = StructuredOutputFormat::json_schema("task", task_schema());
    let error = StructuredOutputValidator::new(&format)
        .validate("not json")
        .unwrap_err();
    match error {
        ModelAdapterError::MalformedStructuredOutput(m) => assert!(m.starts_with("task: ")),
        other => panic!("unexpected error {:?}", other),
    }
}

#[test]
fn repair_failure_carries_the_second_error_message() {
    let format = StructuredOutputFormat::json_schema("task", task_schema());
    let repair = StaticRepairPolicy {
        repaired: r#"{"title":"ship","priority":"high"}"#.to_string(),
    };
    let error = StructuredOutputValidator::with_repair_policy(&format, &repair)
        .validate("not json")
        .unwrap_err();
    assert_eq!(
        error,
        ModelAdapterError::StructuredOutputRepairFailed(
            "structured output schema violation: $.priority: expected integer".to_string()
        )
    );
}

#[test]
fn noop_repair_keeps_the_first_error() {
    let format = StructuredOutputFormat::json_schema("task", task_schema());
    let noop = NoopStructuredOutputRepairPolicy;
    let error = StructuredOutputValidator::with_repair_policy(&format, &noop)
        .validate(r#"{"title":"ship"}"#)
        .unwrap_err();
    assert_eq!(
        error,
        ModelAdapterError::StructuredOutputSchemaViolation(
            "$: missing required property `priority`".to_string()
        )
    );
}

#[test]
fn adapter_error_messages() {
    assert_eq!(
        ModelAdapterError::ModelNotFound(ModelId::from("m1")).to_string(),
        "model not found: m1"
    );
    assert_eq!(
        ModelAdapterError::UnsupportedModelCapability {
            model_id: ModelId::from("m1"),
            capability: "tools",
        }
        .to_string(),
        "model capability unsupported: m1 does not support tools"
    );
    assert_eq!(ModelAdapterError::RateLimitExceeded.to_string(), "rate limit exceeded");
    assert_eq!(
        ModelAdapterError::HttpError("boom".to_string()).to_string(),
        "HTTP error: boom"
    );
}
