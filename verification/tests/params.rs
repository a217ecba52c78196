use task_runner::errors::AppError;
use task_runner::params::{ParamDefinition, ParamType, TaskParams};
use task_runner::strmap::StrMap;
use task_runner::value::{Value, ValueKind};

#[test]
fn test_param_definition_builder() {
    let param = ParamDefinition::new("test", ParamType::String)
        .required()
        .description("A test parameter");

    assert_eq!(param.name, "test");
    assert!(param.required);
    assert_eq!(param.description, "A test parameter");
}

#[test]
fn test_required_param_missing() {
    let definitions = vec![ParamDefinition::new("required_param", ParamType::String).required()];

    let raw_params: StrMap<Value> = StrMap::new();
    let result = TaskParams::new(definitions, &raw_params);

    assert!(result.is_err());
}

#[test]
fn test_optional_param_with_default() {
    let definitions = vec![
        ParamDefinition::new("optional_param", ParamType::String).default_str("default_value"),
    ];

    let raw_params: StrMap<Value> = StrMap::new();
    let params = TaskParams::new(definitions, &raw_params).unwrap();

    assert_eq!(
        params.get_string("optional_param").unwrap(),
        "default_value"
    );
}

#[test]
fn test_type_validation() {
    let definitions = vec![ParamDefinition::new("bool_param", ParamType::Bool)];

    let mut raw_params: StrMap<Value> = StrMap::new();
    raw_params.insert(
        "bool_param".to_string(),
        Value::String("not a bool".to_string()),
    );

    let result = TaskParams::new(definitions, &raw_params);
    assert!(result.is_err());
}

#[test]
fn test_valid_params() {
    let definitions = vec![
        ParamDefinition::new("name", ParamType::String).required(),
        ParamDefinition::new("age", ParamType::Integer).default_int(0),
        ParamDefinition::new("active", ParamType::Bool).default_bool(true),
    ];

    let mut raw_params: StrMap<Value> = StrMap::new();
    raw_params.insert("name".to_string(), Value::String("John".to_string()));
    raw_params.insert("age".to_string(), Value::Integer(30));

    let params = TaskParams::new(definitions, &raw_params).unwrap();

    assert_eq!(params.get_string("name").unwrap(), "John");
    assert_eq!(params.get_int("age").unwrap(), 30);
    assert_eq!(params.get_bool("active").unwrap(), true);
}

#[test]
fn missing_required_names_the_parameter() {
    let definitions = vec![ParamDefinition::new("x", ParamType::String).required()];
    let raw: StrMap<Value> = StrMap::new();

    let err = TaskParams::validate(&definitions, &raw).unwrap_err();
    assert_eq!(err, AppError::MissingRequired("x".to_string()));
}

#[test]
fn type_mismatch_names_parameter_and_kinds() {
    let definitions = vec![ParamDefinition::new("flag", ParamType::Bool)];
    let mut raw: StrMap<Value> = StrMap::new();
    raw.insert("flag".to_string(), Value::String("not a bool".to_string()));

    let err = TaskParams::validate(&definitions, &raw).unwrap_err();
    assert_eq!(
        err,
        AppError::TypeMismatch("flag".to_string(), ParamType::Bool, ValueKind::String)
    );
}

#[test]
fn default_fallback_fills_missing_optionals() {
    let definitions = vec![
        ParamDefinition::new("name", ParamType::String).required(),
        ParamDefinition::new("age", ParamType::Integer).default_int(0),
        ParamDefinition::new("active", ParamType::Bool).default_bool(true),
    ];

    let mut raw: StrMap<Value> = StrMap::new();
    raw.insert("name".to_string(), Value::String("John".to_string()));
    raw.insert("age".to_string(), Value::Integer(30));

    let params = TaskParams::new(definitions, &raw).unwrap();
    let all = params.all();
    assert_eq!(all.len(), 3);
    assert_eq!(params.get_string("name").unwrap(), "John");
    assert_eq!(params.get_int("age").unwrap(), 30);
    assert_eq!(params.get_bool("active").unwrap(), true);
}

#[test]
fn unknown_keys_are_dropped() {
    let definitions = vec![ParamDefinition::new("a", ParamType::String)];
    let mut raw: StrMap<Value> = StrMap::new();
    raw.insert("a".to_string(), Value::String("x".to_string()));
    raw.insert("b".to_string(), Value::String("y".to_string()));

    let params = TaskParams::new(definitions, &raw).unwrap();
    assert_eq!(params.get_string("a").unwrap(), "x");
    assert!(!params.has("b"));
    assert_eq!(params.all().len(), 1);
}

#[test]
fn empty_schema_accepts_any_bag() {
    let definitions: Vec<ParamDefinition> = Vec::new();
    let mut raw: StrMap<Value> = StrMap::new();
    raw.insert("anything".to_string(), Value::Integer(7));
    raw.insert("else".to_string(), Value::Bool(false));

    let params = TaskParams::new(definitions, &raw).unwrap();
    assert_eq!(params.all().len(), 0);
}

#[test]
fn first_failure_in_schema_order_wins() {
    let definitions = vec![
        ParamDefinition::new("first", ParamType::Integer),
        ParamDefinition::new("second", ParamType::String).required(),
    ];
    let mut raw: StrMap<Value> = StrMap::new();
    raw.insert("first".to_string(), Value::String("oops".to_string()));

    let err = TaskParams::validate(&definitions, &raw).unwrap_err();
    assert_eq!(
        err,
        AppError::TypeMismatch("first".to_string(), ParamType::Integer, ValueKind::String)
    );
}

#[test]
fn duplicate_definition_names_last_wins() {
    let definitions = vec![
        ParamDefinition::new("p", ParamType::String).default_str("one"),
        ParamDefinition::new("p", ParamType::String).default_str("two"),
    ];
    let raw: StrMap<Value> = StrMap::new();

    let params = TaskParams::new(definitions, &raw).unwrap();
    assert_eq!(params.all().len(), 1);
    assert_eq!(params.get_string("p").unwrap(), "two");
}

#[test]
fn optional_without_default_falls_back_to_empty_string() {
    let definitions = vec![ParamDefinition::new("note", ParamType::Integer)];
    let raw: StrMap<Value> = StrMap::new();

    let params = TaskParams::new(definitions, &raw).unwrap();
    assert_eq!(params.get_string("note").unwrap(), "");
    assert_eq!(params.get_int("note"), None);
}

#[test]
fn typed_accessors_reject_other_kinds() {
    let definitions = vec![
        ParamDefinition::new("n", ParamType::Integer),
        ParamDefinition::new("f", ParamType::Float),
        ParamDefinition::new("items", ParamType::Array),
    ];
    let mut raw: StrMap<Value> = StrMap::new();
    raw.insert("n".to_string(), Value::Integer(5));
    raw.insert("f".to_string(), Value::Float(2.5f64.to_bits()));
    raw.insert(
        "items".to_string(),
        Value::Array(vec![Value::Integer(1), Value::Integer(2)]),
    );

    let params = TaskParams::new(definitions, &raw).unwrap();
    assert_eq!(params.get_int("n").unwrap(), 5);
    assert_eq!(params.get_string("n"), None);
    assert_eq!(params.get_bool("n"), None);
    assert_eq!(f64::from_bits(params.get_float_bits("f").unwrap()), 2.5);
    assert_eq!(
        params.get_array("items").unwrap(),
        &vec![Value::Integer(1), Value::Integer(2)]
    );
}

#[test]
fn fallback_accessors_use_caller_default() {
    let definitions = vec![ParamDefinition::new("present", ParamType::String).required()];
    let mut raw: StrMap<Value> = StrMap::new();
    raw.insert("present".to_string(), Value::String("here".to_string()));

    let params = TaskParams::new(definitions, &raw).unwrap();
    assert_eq!(params.get_string_or("present", "fallback"), "here");
    assert_eq!(params.get_string_or("absent", "fallback"), "fallback");
    assert_eq!(params.get_bool_or("absent", true), true);
    assert_eq!(params.get_int_or("absent", -3), -3);
    assert_eq!(params.get_float_bits_or("absent", 9), 9);
}

#[test]
fn required_builder_drops_default() {
    let param = ParamDefinition::new("p", ParamType::String)
        .default_str("d")
        .required();
    assert!(param.required);
    assert!(param.default.is_none());
}

#[test]
fn table_and_timestamp_match_no_declared_type() {
    let definitions = vec![ParamDefinition::new("t", ParamType::String)];
    let mut raw: StrMap<Value> = StrMap::new();
    raw.insert("t".to_string(), Value::Timestamp);

    let err = TaskParams::validate(&definitions, &raw).unwrap_err();
    assert_eq!(
        err,
        AppError::TypeMismatch("t".to_string(), ParamType::String, ValueKind::Timestamp)
    );
}
