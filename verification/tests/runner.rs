use task_runner::config::{Config, TaskConfig};
use task_runner::errors::AppError;
use task_runner::registry::TaskError;
use task_runner::runner::TaskRunner;
use task_runner::strmap::StrMap;
use task_runner::tasks::{available_tasks, GitTagFactory, TaskDescriptor};
use task_runner::value::Value;

fn git_tag_params(tag: &str) -> StrMap<Value> {
    let mut params: StrMap<Value> = StrMap::new();
    params.insert("tag".to_string(), Value::String(tag.to_string()));
    params
}

fn config_of(entries: Vec<(&str, StrMap<Value>)>) -> Config {
    let mut tasks: StrMap<TaskConfig> = StrMap::new();
    for (name, params) in entries {
        tasks.insert(name.to_string(), TaskConfig { enabled: true, params });
    }
    Config { tasks }
}

#[test]
fn run_task_executes_a_configured_task() {
    let config = config_of(vec![("git-tag", git_tag_params("v1.0.0"))]);
    let mut runner: TaskRunner<GitTagFactory> = TaskRunner::new(config);
    runner.register_tasks();

    assert!(runner.run_task("git-tag").is_ok());
}

#[test]
fn run_task_reports_unconfigured_names() {
    let config = config_of(vec![]);
    let mut runner: TaskRunner<GitTagFactory> = TaskRunner::new(config);
    runner.register_tasks();

    let err = runner.run_task("git-tag").unwrap_err();
    assert_eq!(err, AppError::NotConfigured("git-tag".to_string()));
}

#[test]
fn run_task_reports_unregistered_names() {
    let config = config_of(vec![("mystery", git_tag_params("v1.0.0"))]);
    let mut runner: TaskRunner<GitTagFactory> = TaskRunner::new(config);
    runner.register_tasks();

    let err = runner.run_task("mystery").unwrap_err();
    assert_eq!(
        err,
        AppError::Registry(TaskError::TaskNotFound(
            "mystery".to_string(),
            vec!["git-tag".to_string()]
        ))
    );
}

#[test]
fn run_task_propagates_validation_failure() {
    let config = config_of(vec![("git-tag", StrMap::new())]);
    let mut runner: TaskRunner<GitTagFactory> = TaskRunner::new(config);
    runner.register_tasks();

    let err = runner.run_task("git-tag").unwrap_err();
    assert_eq!(err, AppError::MissingRequired("tag".to_string()));
}

#[test]
fn run_all_runs_every_configured_task() {
    let config = config_of(vec![
        ("alpha", git_tag_params("v1")),
        ("beta", git_tag_params("v2")),
    ]);
    let mut runner: TaskRunner<GitTagFactory> = TaskRunner::new(config);
    runner.register_manifest(vec![
        TaskDescriptor {
            name: "alpha".to_string(),
            factory: GitTagFactory,
        },
        TaskDescriptor {
            name: "beta".to_string(),
            factory: GitTagFactory,
        },
    ]);

    assert!(runner.run_all().is_ok());
}

#[test]
fn run_all_aborts_at_the_first_failure() {
    let config = config_of(vec![
        ("a", git_tag_params("v1")),
        ("b", StrMap::new()),
        ("c", git_tag_params("v3")),
    ]);
    let mut runner: TaskRunner<GitTagFactory> = TaskRunner::new(config);
    runner.register_manifest(vec![
        TaskDescriptor {
            name: "a".to_string(),
            factory: GitTagFactory,
        },
        TaskDescriptor {
            name: "b".to_string(),
            factory: GitTagFactory,
        },
        TaskDescriptor {
            name: "c".to_string(),
            factory: GitTagFactory,
        },
    ]);

    let err = runner.run_all().unwrap_err();
    assert_eq!(err, AppError::MissingRequired("tag".to_string()));
}

#[test]
fn run_all_on_empty_configuration_succeeds() {
    let config = config_of(vec![]);
    let mut runner: TaskRunner<GitTagFactory> = TaskRunner::new(config);
    runner.register_tasks();

    assert!(runner.run_all().is_ok());
}

#[test]
fn manifest_lists_the_git_tag_task() {
    let manifest = available_tasks();
    assert_eq!(manifest.len(), 1);
    assert_eq!(manifest[0].name, "git-tag");
}
