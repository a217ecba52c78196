//! The runner: binds configuration, registry and execution together.
//!
//! The runner looks every configured task up in the registry, validates
//! its parameters through the task's schema, and executes it. Tasks run
//! strictly sequentially, in the configuration's declaration order, and
//! the first failure aborts the remaining batch.

use vstd::prelude::*;

use crate::config::Config;
use crate::errors::{AppError, ErrorModel};
use crate::params::validate_model;
use crate::registry::{TaskErrorModel, TaskRegistry};
use crate::task::{result_model, Task, TaskFactory};
use crate::tasks::{available_tasks, GitTagFactory, TaskDescriptor};

verus! {

/// What invoking one configured task name reports: a distinct failure
/// when the name is not configured, a distinct failure carrying the
/// sorted list of registered names when it is not registered, the first
/// validation failure of its parameters, and otherwise whatever the
/// task's own logic admits.
pub open spec fn step_post<F: TaskFactory>(
    cfg: Config,
    reg: TaskRegistry<F>,
    name: Seq<char>,
    r: Result<(), ErrorModel>,
) -> bool {
    if !cfg.tasks@.contains_key(name) {
        r == Err::<(), ErrorModel>(ErrorModel::NotConfigured(name))
    } else if !reg@.contains_key(name) {
        r == Err::<(), ErrorModel>(
            ErrorModel::Registry(TaskErrorModel::NotFound(name, reg.names())),
        )
    } else {
        let t = reg@[name].product();
        match validate_model(t.schema_spec(), cfg.tasks@[name].params) {
            Ok(p) => t.run_post(p, r),
            Err(e) => r == Err::<(), ErrorModel>(e),
        }
    }
}

/// The registry after registering a manifest's descriptors, in order.
pub open spec fn apply_manifest<F>(
    m: Map<Seq<char>, F>,
    ds: Seq<TaskDescriptor<F>>,
) -> Map<Seq<char>, F>
    decreases ds.len(),
{
    if ds.len() <= 0 {
        m
    } else {
        apply_manifest(m, ds.subrange(0, ds.len() - 1)).insert(
            ds[ds.len() - 1].name@,
            ds[ds.len() - 1].factory,
        )
    }
}

/// The orchestrator: a loaded configuration and a registry of tasks.
pub struct TaskRunner<F> {
    registry: TaskRegistry<F>,
    config: Config,
}

impl<F: TaskFactory> TaskRunner<F> {
    /// The loaded configuration.
    pub closed spec fn config_spec(&self) -> Config {
        self.config
    }

    /// The registry.
    pub closed spec fn registry_spec(&self) -> TaskRegistry<F> {
        self.registry
    }

    /// Both halves are well-formed.
    pub open spec fn wf(&self) -> bool {
        self.config_spec().wf() && self.registry_spec().wf()
    }

    /// A runner over a loaded configuration, starting with an empty
    /// registry.
    pub fn new(config: Config) -> (r: Self)
        requires
            config.wf(),
        ensures
            r.wf(),
            r.config_spec() == config,
            r.registry_spec()@ == Map::<Seq<char>, F>::empty(),
    {
        TaskRunner { registry: TaskRegistry::new(), config }
    }

    /// Registers every descriptor of a manifest, in order: a later
    /// descriptor for the same name replaces an earlier one.
    #[verifier::loop_isolation(false)]
    pub fn register_manifest(&mut self, manifest: Vec<TaskDescriptor<F>>)
        requires
            old(self).wf(),
        ensures
            final(self).wf(),
            final(self).config_spec() == old(self).config_spec(),
            final(self).registry_spec()@ == apply_manifest(
                old(self).registry_spec()@,
                manifest@,
            ),
    {
        let ghost orig = manifest@;
        let ghost m0 = self.registry@;
        let mut rest = manifest;
        let total = rest.len();
        let mut done: usize = 0;
        while rest.len() > 0
            invariant
                self.config == old(self).config,
                self.registry.wf(),
                done <= total,
                done + rest@.len() == total,
                rest@ =~= orig.subrange(done as int, orig.len() as int),
                self.registry@ == apply_manifest(m0, orig.subrange(0, done as int)),
            decreases rest@.len(),
        {
            proof {
                assert(orig.subrange(0, done + 1).subrange(0, done as int) =~= orig.subrange(
                    0,
                    done as int,
                ));
                assert(orig.subrange(0, done + 1)[done as int] == orig[done as int]);
                assert(rest@[0] == orig[done as int]);
            }
            let descriptor = rest.remove(0);
            self.registry.register(descriptor.name.as_str(), descriptor.factory);
            proof {
                assert(rest@ =~= orig.subrange(done + 1, orig.len() as int));
            }
            done += 1;
        }
        proof {
            assert(orig.subrange(0, orig.len() as int) =~= orig);
        }
    }

    /// Runs the task configured under a name: the configuration lookup
    /// and the registry lookup may each fail with its own diagnosis, and
    /// otherwise the task is executed on its configured parameters.
    pub fn run_task(&self, task_name: &str) -> (r: Result<(), AppError>)
        requires
            self.wf(),
        ensures
            step_post(self.config_spec(), self.registry_spec(), task_name@, result_model(r)),
    {
        let task_config = match self.config.find_task(task_name) {
            Some(tc) => tc,
            None => {
                return Err(AppError::NotConfigured(task_name.to_owned()));
            },
        };
        let task = match self.registry.get(task_name) {
            Ok(t) => t,
            Err(e) => {
                return Err(AppError::Registry(e));
            },
        };
        task.execute(task_config)
    }

    /// Runs every configured task, in the configuration's declaration
    /// order. The first failure aborts the batch and is returned: every
    /// task before it completed successfully, and no later task shapes
    /// the outcome.
    #[verifier::loop_isolation(false)]
    pub fn run_all(&self) -> (r: Result<(), AppError>)
        requires
            self.wf(),
        ensures
            r matches Ok(_) ==> forall|i: int|
                0 <= i < self.config_spec().tasks.keys_in_order().len() ==> step_post(
                    self.config_spec(),
                    self.registry_spec(),
                    #[trigger] self.config_spec().tasks.keys_in_order()[i],
                    Ok::<(), ErrorModel>(()),
                ),
            r matches Err(e) ==> exists|k: int|
                #![trigger self.config_spec().tasks.keys_in_order()[k]]
                0 <= k < self.config_spec().tasks.keys_in_order().len() && step_post(
                    self.config_spec(),
                    self.registry_spec(),
                    self.config_spec().tasks.keys_in_order()[k],
                    Err::<(), ErrorModel>(e@),
                ) && (forall|j: int|
                    0 <= j < k ==> step_post(
                        self.config_spec(),
                        self.registry_spec(),
                        #[trigger] self.config_spec().tasks.keys_in_order()[j],
                        Ok::<(), ErrorModel>(()),
                    )),
    {
        let n = self.config.tasks.len();
        let mut i: usize = 0;
        while i < n
            invariant
                i <= n,
                forall|j: int|
                    0 <= j < i ==> step_post(
                        self.config_spec(),
                        self.registry_spec(),
                        #[trigger] self.config_spec().tasks.keys_in_order()[j],
                        Ok::<(), ErrorModel>(()),
                    ),
            decreases n - i,
        {
            let name = self.config.tasks.key_at(i);
            let outcome = self.run_task(name.as_str());
            match outcome {
                Ok(_) => {},
                Err(e) => {
                    return Err(e);
                },
            }
            i += 1;
        }
        Ok(())
    }
}

impl TaskRunner<GitTagFactory> {
    /// Registers every task this crate ships.
    pub fn register_tasks(&mut self)
        requires
            old(self).wf(),
        ensures
            final(self).wf(),
            final(self).config_spec() == old(self).config_spec(),
            final(self).registry_spec()@ == old(self).registry_spec()@.insert(
                "git-tag"@,
                (GitTagFactory {  }),
            ),
    {
        let manifest = available_tasks();
        let ghost ds = manifest@;
        self.register_manifest(manifest);
        proof {
            assert(ds.subrange(0, 0) =~= Seq::<TaskDescriptor<GitTagFactory>>::empty());
            let m0 = old(self).registry_spec()@;
            assert(apply_manifest(m0, ds) == apply_manifest(m0, ds.subrange(0, 0)).insert(
                ds[0].name@,
                ds[0].factory,
            ));
            assert(apply_manifest(m0, ds.subrange(0, 0)) == m0);
            assert(ds[0].name@ == "git-tag"@);
            assert(ds[0].factory == (GitTagFactory {  }));
        }
    }
}

} // verus!
