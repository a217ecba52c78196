//! A task that creates a Git tag and optionally pushes it.

use vstd::prelude::*;
use vstd::string::StringExecFns;

use crate::errors::{AppError, ErrorModel};
use crate::params::{def_models, ParamDefModel, ParamDefinition, ParamType, TaskParams};
use crate::report::emit;
use crate::task::Task;
use crate::value::ValueModel;

verus! {

/// Creates a tag in the Git repository and optionally pushes it to a
/// remote.
#[derive(Debug, PartialEq, Eq, Structural)]
pub struct GitTagTask;

impl GitTagTask {
    /// A fresh instance.
    pub fn new() -> (r: Self)
        ensures
            r == (GitTagTask {  }),
    {
        GitTagTask {  }
    }
}

/// The parameter schema of the Git-tag task: a required tag name, an
/// optional message, whether to push (off unless requested), and the
/// remote to push to.
pub open spec fn git_tag_schema() -> Seq<ParamDefModel> {
    seq![
        ParamDefModel {
            name: "tag"@,
            param_type: ParamType::String,
            required: true,
            default: None,
            description: "The name of the tag to create"@,
        },
        ParamDefModel {
            name: "message"@,
            param_type: ParamType::String,
            required: false,
            default: None,
            description: "The tag's annotation message"@,
        },
        ParamDefModel {
            name: "push"@,
            param_type: ParamType::Bool,
            required: false,
            default: Some(ValueModel::Bool(false)),
            description: "Whether to push the tag to the remote"@,
        },
        ParamDefModel {
            name: "remote"@,
            param_type: ParamType::String,
            required: false,
            default: Some(ValueModel::Str("origin"@)),
            description: "The remote to push the tag to"@,
        },
    ]
}

impl Task for GitTagTask {
    open spec fn name_spec(&self) -> Seq<char> {
        "git-tag"@
    }

    open spec fn description_spec(&self) -> Seq<char> {
        "Creates a tag in the Git repository and optionally pushes it"@
    }

    open spec fn schema_spec(&self) -> Seq<ParamDefModel> {
        git_tag_schema()
    }

    /// The logic succeeds exactly when a string tag name is bound; it
    /// only reports progress besides.
    open spec fn run_post(
        &self,
        params: Map<Seq<char>, ValueModel>,
        r: Result<(), ErrorModel>,
    ) -> bool {
        if params.contains_key("tag"@) && params["tag"@] is Str {
            r == Ok::<(), ErrorModel>(())
        } else {
            r == Err::<(), ErrorModel>(ErrorModel::Generic("a tag name is required"@))
        }
    }

    fn name(&self) -> (r: String) {
        String::from_str("git-tag")
    }

    fn description(&self) -> (r: String) {
        String::from_str("Creates a tag in the Git repository and optionally pushes it")
    }

    fn param_definitions(&self) -> (r: Vec<ParamDefinition>) {
        let mut defs: Vec<ParamDefinition> = Vec::new();
        defs.push(
            ParamDefinition::new("tag", ParamType::String).required().description(
                "The name of the tag to create",
            ),
        );
        defs.push(
            ParamDefinition::new("message", ParamType::String).optional().description(
                "The tag's annotation message",
            ),
        );
        defs.push(
            ParamDefinition::new("push", ParamType::Bool).default_bool(false).description(
                "Whether to push the tag to the remote",
            ),
        );
        defs.push(
            ParamDefinition::new("remote", ParamType::String).default_str("origin").description(
                "The remote to push the tag to",
            ),
        );
        proof {
            assert(def_models(defs@) =~= git_tag_schema());
        }
        defs
    }

    fn run(&self, params: &TaskParams) -> (r: Result<(), AppError>) {
        let tag = match params.get_string("tag") {
            Some(t) => t,
            None => {
                return Err(AppError::Generic(String::from_str("a tag name is required")));
            },
        };
        let message = params.get_string("message");
        let push = params.get_bool_or("push", false);
        let remote = params.get_string_or("remote", "origin");

        let mut line = String::from_str("Creating Git tag: ");
        line.append(tag.as_str());
        emit(line.as_str());

        match message {
            Some(msg) => {
                let mut note = String::from_str("Tag message: ");
                note.append(msg.as_str());
                emit(note.as_str());
            },
            None => {},
        }

        if push {
            let mut note = String::from_str("Pushing tag to remote '");
            note.append(remote.as_str());
            note.append("'");
            emit(note.as_str());
        }

        emit("Tag created successfully");
        Ok(())
    }
}

} // verus!
