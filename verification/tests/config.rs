use task_runner::config::Config;
use task_runner::value::Value;

fn sample_document() -> Value {
    Value::Table(vec![
        (
            "git-tag".to_string(),
            Value::Table(vec![
                ("tag".to_string(), Value::String("v2.0.0".to_string())),
                ("push".to_string(), Value::Bool(true)),
            ]),
        ),
        (
            "title".to_string(),
            Value::String("not a task table".to_string()),
        ),
    ])
}

#[test]
fn table_entries_become_enabled_tasks() {
    let config = Config::from_value(&sample_document());

    let task = config.find_task("git-tag").unwrap();
    assert!(task.enabled);
    assert_eq!(task.params.len(), 2);
    assert_eq!(
        task.params.get("tag"),
        Some(&Value::String("v2.0.0".to_string()))
    );
    assert_eq!(task.params.get("push"), Some(&Value::Bool(true)));
}

#[test]
fn non_table_entries_are_ignored() {
    let config = Config::from_value(&sample_document());
    assert!(config.find_task("title").is_none());
    assert_eq!(config.tasks.len(), 1);
}

#[test]
fn non_table_document_yields_empty_configuration() {
    let config = Config::from_value(&Value::Integer(3));
    assert_eq!(config.tasks.len(), 0);
}

#[test]
fn find_task_misses_unknown_names() {
    let config = Config::from_value(&sample_document());
    assert!(config.find_task("unknown").is_none());
}

#[test]
fn declaration_order_is_preserved() {
    let document = Value::Table(vec![
        ("zeta".to_string(), Value::Table(vec![])),
        ("alpha".to_string(), Value::Table(vec![])),
    ]);
    let config = Config::from_value(&document);

    assert_eq!(config.tasks.len(), 2);
    assert_eq!(config.tasks.key_at(0), "zeta");
    assert_eq!(config.tasks.key_at(1), "alpha");
}

#[test]
fn cloned_values_model_identically() {
    let source = Value::Array(vec![
        Value::String("x".to_string()),
        Value::Table(vec![("k".to_string(), Value::Integer(1))]),
        Value::Float(1.5f64.to_bits()),
    ]);
    let copy = source.clone();
    assert_eq!(copy, source);
}
