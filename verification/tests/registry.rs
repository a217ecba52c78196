use task_runner::registry::{TaskError, TaskRegistry};
use task_runner::task::{Task, TaskFactory};
use task_runner::tasks::GitTagFactory;

#[test]
fn registry_round_trip() {
    let mut registry: TaskRegistry<GitTagFactory> = TaskRegistry::new();
    registry.register("git-tag", GitTagFactory);

    let task = registry.get("git-tag").unwrap();
    assert_eq!(task.name(), "git-tag");
}

#[test]
fn unknown_task_name_reports_available_list() {
    let mut registry: TaskRegistry<GitTagFactory> = TaskRegistry::new();
    registry.register("git-tag", GitTagFactory);

    let err = registry.get("does-not-exist").unwrap_err();
    let TaskError::TaskNotFound(requested, available) = err;
    assert_eq!(requested, "does-not-exist");
    assert_eq!(available, vec!["git-tag".to_string()]);
}

#[test]
fn list_tasks_is_sorted() {
    let mut registry: TaskRegistry<GitTagFactory> = TaskRegistry::new();
    registry.register("release", GitTagFactory);
    registry.register("build", GitTagFactory);
    registry.register("deploy", GitTagFactory);

    assert_eq!(
        registry.list_tasks(),
        vec![
            "build".to_string(),
            "deploy".to_string(),
            "release".to_string()
        ]
    );
}

#[test]
fn reregistering_a_name_replaces_the_entry() {
    let mut registry: TaskRegistry<GitTagFactory> = TaskRegistry::new();
    registry.register("git-tag", GitTagFactory);
    registry.register("git-tag", GitTagFactory);

    assert_eq!(registry.list_tasks(), vec!["git-tag".to_string()]);
    assert!(registry.get("git-tag").is_ok());
}

#[test]
fn empty_registry_reports_empty_available_list() {
    let registry: TaskRegistry<GitTagFactory> = TaskRegistry::new();
    let TaskError::TaskNotFound(_, available) = registry.get("anything").unwrap_err();
    assert!(available.is_empty());
}

#[test]
fn factory_product_is_fresh_per_get() {
    let mut registry: TaskRegistry<GitTagFactory> = TaskRegistry::new();
    registry.register("git-tag", GitTagFactory);

    let first = registry.get("git-tag").unwrap();
    let second = registry.get("git-tag").unwrap();
    assert_eq!(first.name(), second.name());
}

#[test]
fn factory_make_matches_task_identity() {
    let task = GitTagFactory.make();
    assert_eq!(task.name(), "git-tag");
    assert!(!task.description().is_empty());
}
