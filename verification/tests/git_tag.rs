use task_runner::config::TaskConfig;
use task_runner::errors::AppError;
use task_runner::params::TaskParams;
use task_runner::strmap::StrMap;
use task_runner::task::Task;
use task_runner::tasks::git_tag::GitTagTask;
use task_runner::value::Value;

#[test]
fn identity_and_schema() {
    let task = GitTagTask::new();
    assert_eq!(task.name(), "git-tag");
    assert_eq!(
        task.description(),
        "Creates a tag in the Git repository and optionally pushes it"
    );

    let defs = task.param_definitions();
    assert_eq!(defs.len(), 4);
    assert_eq!(defs[0].name, "tag");
    assert!(defs[0].required);
    assert_eq!(defs[1].name, "message");
    assert!(!defs[1].required);
    assert_eq!(defs[2].name, "push");
    assert_eq!(defs[3].name, "remote");
}

#[test]
fn execute_runs_with_valid_parameters() {
    let task = GitTagTask::new();
    let mut params: StrMap<Value> = StrMap::new();
    params.insert("tag".to_string(), Value::String("v1.2.3".to_string()));
    params.insert(
        "message".to_string(),
        Value::String("release v1.2.3".to_string()),
    );
    params.insert("push".to_string(), Value::Bool(true));

    let config = TaskConfig { enabled: true, params };
    assert!(task.execute(&config).is_ok());
}

#[test]
fn execute_rejects_missing_tag() {
    let task = GitTagTask::new();
    let config = TaskConfig {
        enabled: true,
        params: StrMap::new(),
    };

    let err = task.execute(&config).unwrap_err();
    assert_eq!(err, AppError::MissingRequired("tag".to_string()));
}

#[test]
fn execute_rejects_mistyped_push_flag() {
    let task = GitTagTask::new();
    let mut params: StrMap<Value> = StrMap::new();
    params.insert("tag".to_string(), Value::String("v1".to_string()));
    params.insert("push".to_string(), Value::String("yes".to_string()));

    let config = TaskConfig { enabled: true, params };
    assert!(task.execute(&config).is_err());
}

#[test]
fn run_requires_a_bound_tag() {
    let task = GitTagTask::new();
    let params = TaskParams::new(Vec::new(), &StrMap::new()).unwrap();

    let err = task.run(&params).unwrap_err();
    assert_eq!(err, AppError::Generic("a tag name is required".to_string()));
}
