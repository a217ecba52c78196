use task_runner::errors::{AppError, ConfigError};
use task_runner::params::ParamType;
use task_runner::registry::TaskError;
use task_runner::value::ValueKind;

#[test]
fn config_error_messages() {
    let missing = ConfigError::ConfigNotFoundError("tasks.toml".to_string());
    assert_eq!(
        missing.message(),
        "no configuration was found at 'tasks.toml'"
    );

    let broken = ConfigError::ParsingError("unexpected token".to_string());
    assert_eq!(
        broken.message(),
        "the configuration could not be parsed: unexpected token"
    );
}

#[test]
fn app_error_messages() {
    assert_eq!(
        AppError::MissingRequired("x".to_string()).message(),
        "required parameter 'x' was not provided"
    );
    assert_eq!(
        AppError::TypeMismatch("flag".to_string(), ParamType::Bool, ValueKind::String).message(),
        "parameter 'flag' has an invalid type"
    );
    assert_eq!(
        AppError::NotConfigured("deploy".to_string()).message(),
        "task 'deploy' is not configured"
    );
    assert_eq!(AppError::Generic("boom".to_string()).message(), "boom");
    assert_eq!(
        AppError::Config(ConfigError::ParsingError("bad".to_string())).message(),
        "configuration error: the configuration could not be parsed: bad"
    );
}

#[test]
fn task_error_message_joins_available_names() {
    let err = TaskError::TaskNotFound(
        "x".to_string(),
        vec!["build".to_string(), "deploy".to_string()],
    );
    assert_eq!(
        err.message(),
        "task 'x' was not found; available tasks: build, deploy"
    );

    let registry_err = AppError::Registry(TaskError::TaskNotFound(
        "x".to_string(),
        vec!["one".to_string()],
    ));
    assert_eq!(
        registry_err.message(),
        "task 'x' was not found; available tasks: one"
    );
}

#[test]
fn config_error_converts_into_app_error() {
    let err: AppError = ConfigError::ConfigNotFoundError("p".to_string()).into();
    assert_eq!(
        err,
        AppError::Config(ConfigError::ConfigNotFoundError("p".to_string()))
    );
}
