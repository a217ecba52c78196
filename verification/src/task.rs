//! The task contract: the capability set every task implementation
//! satisfies, and the factory contract the registry stores.

use vstd::prelude::*;

use crate::config::TaskConfig;
use crate::errors::{AppError, ErrorModel};
use crate::params::{def_models, validate_model, ParamDefModel, ParamDefinition, TaskParams};
use crate::value::ValueModel;

verus! {

/// A task execution result, in model terms.
pub open spec fn result_model(r: Result<(), AppError>) -> Result<(), ErrorModel> {
    match r {
        Ok(_) => Ok(()),
        Err(e) => Err(e@),
    }
}

/// A named, independently invokable unit of work.
///
/// A task declares its identity, a human-readable description and a
/// parameter schema; the framework validates configured parameters
/// against the schema and only then enters the task's own logic.
pub trait Task: Sized {
    /// The task's stable unique name, used as the registry key and the
    /// configuration key.
    spec fn name_spec(&self) -> Seq<char>;

    /// The task's description.
    spec fn description_spec(&self) -> Seq<char>;

    /// The task's declared parameter schema.
    spec fn schema_spec(&self) -> Seq<ParamDefModel>;

    /// The outcomes the task's own logic admits for a validated
    /// parameter mapping. Task logic may touch the world, so this is a
    /// relation, not a function: it circumscribes every result the task
    /// may return.
    spec fn run_post(
        &self,
        params: Map<Seq<char>, ValueModel>,
        r: Result<(), ErrorModel>,
    ) -> bool;

    /// The task's name.
    fn name(&self) -> (r: String)
        ensures
            r@ == self.name_spec(),
    ;

    /// The task's description, side-effect free.
    fn description(&self) -> (r: String)
        ensures
            r@ == self.description_spec(),
    ;

    /// The task's parameter schema, as executable definitions.
    fn param_definitions(&self) -> (r: Vec<ParamDefinition>)
        ensures
            def_models(r@) == self.schema_spec(),
    ;

    /// The task's own logic, entered only with validated parameters.
    fn run(&self, params: &TaskParams) -> (r: Result<(), AppError>)
        requires
            params.wf(),
        ensures
            self.run_post(params@, result_model(r)),
    ;

    /// Validates the configured raw parameters against the declared
    /// schema, propagates a validation failure without entering the
    /// task's logic, and on success runs the task.
    fn execute(&self, config: &TaskConfig) -> (r: Result<(), AppError>)
        requires
            config.wf(),
        ensures
            match validate_model(self.schema_spec(), config@.params) {
                Ok(p) => self.run_post(p, result_model(r)),
                Err(e) => r matches Err(err) && err@ == e,
            },
    {
        let defs = self.param_definitions();
        match TaskParams::new(defs, &config.params) {
            Ok(params) => self.run(&params),
            Err(e) => Err(e),
        }
    }
}

/// A pure constructor yielding a fresh instance of one task.
///
/// The registry stores factories, so the runner can instantiate a task
/// per invocation without knowing concrete task types.
pub trait TaskFactory: Sized {
    /// The task type this factory builds.
    type T: Task;

    /// The instance this factory builds: construction is pure, so every
    /// call yields this same value.
    spec fn product(&self) -> Self::T;

    /// Builds a fresh task instance. Construction allocates at most;
    /// task side effects happen only in execution.
    fn make(&self) -> (t: Self::T)
        ensures
            t == self.product(),
    ;
}

} // verus!
