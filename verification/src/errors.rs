//! The failure taxonomy of the framework.
//!
//! Every fallible operation returns a typed error; nothing in the library
//! panics. Configuration errors are fatal to runner construction,
//! validation errors abort a task before its logic runs, registry errors
//! report the requested name together with every registered name, and
//! task-logic failures are opaque descriptions propagated unread.

use vstd::prelude::*;
use vstd::string::StringExecFns;

use crate::params::ParamType;
use crate::registry::{TaskError, TaskErrorModel};
use crate::value::ValueKind;

verus! {

/// A failure while obtaining the configuration: the source was not found,
/// or it was found but could not be parsed.
#[derive(Debug, PartialEq)]
pub enum ConfigError {
    ConfigNotFoundError(String),
    ParsingError(String),
}

/// The model of a [`ConfigError`].
pub enum ConfigErrorModel {
    NotFound(Seq<char>),
    Parse(Seq<char>),
}

impl View for ConfigError {
    type V = ConfigErrorModel;

    open spec fn view(&self) -> ConfigErrorModel {
        match self {
            ConfigError::ConfigNotFoundError(path) => ConfigErrorModel::NotFound(path@),
            ConfigError::ParsingError(detail) => ConfigErrorModel::Parse(detail@),
        }
    }
}

impl ConfigError {
    /// The text of this diagnosis.
    pub open spec fn message_spec(&self) -> Seq<char> {
        match self {
            ConfigError::ConfigNotFoundError(path) => "no configuration was found at '"@ + path@
                + "'"@,
            ConfigError::ParsingError(detail) => "the configuration could not be parsed: "@
                + detail@,
        }
    }

    /// Renders this diagnosis.
    pub fn message(&self) -> (m: String)
        ensures
            m@ == self.message_spec(),
    {
        match self {
            ConfigError::ConfigNotFoundError(path) => {
                let mut m = String::from_str("no configuration was found at '");
                m.append(path.as_str());
                m.append("'");
                m
            },
            ConfigError::ParsingError(detail) => {
                let mut m = String::from_str("the configuration could not be parsed: ");
                m.append(detail.as_str());
                m
            },
        }
    }
}

/// Any failure the framework reports: a configuration error, a parameter
/// validation failure, a missing configuration entry, a registry miss, or
/// an opaque task-logic failure.
#[derive(Debug, PartialEq)]
pub enum AppError {
    /// The configuration source could not be loaded.
    Config(ConfigError),
    /// A required parameter was absent from the raw bag.
    MissingRequired(String),
    /// A parameter was present with the wrong dynamic kind.
    TypeMismatch(String, ParamType, ValueKind),
    /// A task name was not present in the loaded configuration.
    NotConfigured(String),
    /// A task name was not present in the registry.
    Registry(TaskError),
    /// An opaque, task-defined failure.
    Generic(String),
}

/// The model of an [`AppError`].
pub enum ErrorModel {
    Config(ConfigErrorModel),
    MissingRequired(Seq<char>),
    TypeMismatch(Seq<char>, ParamType, ValueKind),
    NotConfigured(Seq<char>),
    Registry(TaskErrorModel),
    Generic(Seq<char>),
}

impl View for AppError {
    type V = ErrorModel;

    open spec fn view(&self) -> ErrorModel {
        match self {
            AppError::Config(e) => ErrorModel::Config(e@),
            AppError::MissingRequired(name) => ErrorModel::MissingRequired(name@),
            AppError::TypeMismatch(name, expected, actual) => ErrorModel::TypeMismatch(
                name@,
                *expected,
                *actual,
            ),
            AppError::NotConfigured(name) => ErrorModel::NotConfigured(name@),
            AppError::Registry(e) => ErrorModel::Registry(e@),
            AppError::Generic(detail) => ErrorModel::Generic(detail@),
        }
    }
}

impl AppError {
    /// The text of this diagnosis.
    pub open spec fn message_spec(&self) -> Seq<char> {
        match self {
            AppError::Config(e) => "configuration error: "@ + e.message_spec(),
            AppError::MissingRequired(name) => "required parameter '"@ + name@
                + "' was not provided"@,
            AppError::TypeMismatch(name, _, _) => "parameter '"@ + name@
                + "' has an invalid type"@,
            AppError::NotConfigured(name) => "task '"@ + name@ + "' is not configured"@,
            AppError::Registry(e) => e.message_spec(),
            AppError::Generic(detail) => detail@,
        }
    }

    /// Renders this diagnosis.
    pub fn message(&self) -> (m: String)
        ensures
            m@ == self.message_spec(),
    {
        match self {
            AppError::Config(e) => {
                let mut m = String::from_str("configuration error: ");
                let inner = e.message();
                m.append(inner.as_str());
                m
            },
            AppError::MissingRequired(name) => {
                let mut m = String::from_str("required parameter '");
                m.append(name.as_str());
                m.append("' was not provided");
                m
            },
            AppError::TypeMismatch(name, _, _) => {
                let mut m = String::from_str("parameter '");
                m.append(name.as_str());
                m.append("' has an invalid type");
                m
            },
            AppError::NotConfigured(name) => {
                let mut m = String::from_str("task '");
                m.append(name.as_str());
                m.append("' is not configured");
                m
            },
            AppError::Registry(e) => e.message(),
            AppError::Generic(detail) => detail.clone(),
        }
    }
}

impl From<ConfigError> for AppError {
    /// A configuration error is reported as the configuration case of the
    /// application error.
    fn from(e: ConfigError) -> (r: AppError) {
        AppError::Config(e)
    }
}

impl vstd::std_specs::convert::FromSpecImpl<ConfigError> for AppError {
    open spec fn obeys_from_spec() -> bool {
        true
    }

    open spec fn from_spec(e: ConfigError) -> AppError {
        AppError::Config(e)
    }
}

} // verus!
