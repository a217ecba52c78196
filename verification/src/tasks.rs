//! The static manifest of the tasks this crate ships.

pub mod git_tag;

use vstd::prelude::*;
use vstd::string::StringExecFns;

use crate::task::TaskFactory;
use crate::tasks::git_tag::GitTagTask;

verus! {

/// A registrable task: a name and the factory that builds it.
#[derive(Debug)]
pub struct TaskDescriptor<F> {
    pub name: String,
    pub factory: F,
}

/// Builds the Git-tag task.
#[derive(Debug, PartialEq, Eq, Structural, Clone, Copy)]
pub struct GitTagFactory;

impl TaskFactory for GitTagFactory {
    type T = GitTagTask;

    open spec fn product(&self) -> GitTagTask {
        GitTagTask {  }
    }

    fn make(&self) -> (t: GitTagTask)
        ensures
            t == self.product(),
    {
        GitTagTask::new()
    }
}

/// Every task available in this crate, in manifest order.
pub fn available_tasks() -> (r: Vec<TaskDescriptor<GitTagFactory>>)
    ensures
        r@.len() == 1,
        r@[0].name@ == "git-tag"@,
        r@[0].factory == (GitTagFactory {  }),
{
    let mut manifest: Vec<TaskDescriptor<GitTagFactory>> = Vec::new();
    manifest.push(
        TaskDescriptor { name: String::from_str("git-tag"), factory: GitTagFactory {  } },
    );
    manifest
}

} // verus!
