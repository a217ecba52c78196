//! The loaded configuration: a table of task entries.
//!
//! The configuration source (its reading and parsing live outside the
//! library) produces one dynamically typed document value. Every
//! top-level entry of that document whose value is a table is treated as
//! an enabled task, and the nested table is that task's raw parameter
//! bag; any other top-level entry is ignored.

use vstd::prelude::*;

pub use crate::errors::ConfigError;
use crate::strmap::StrMap;
use crate::value::{entry_models, lemma_entry_models, Value, ValueModel};

verus! {

/// The configured invocation of one task: whether it is enabled, and its
/// raw parameter bag.
#[derive(Debug)]
pub struct TaskConfig {
    pub enabled: bool,
    pub params: StrMap<Value>,
}

/// The model of a [`TaskConfig`].
pub struct TaskConfigModel {
    pub enabled: bool,
    pub params: Map<Seq<char>, ValueModel>,
}

impl View for TaskConfig {
    type V = TaskConfigModel;

    open spec fn view(&self) -> TaskConfigModel {
        TaskConfigModel { enabled: self.enabled, params: self.params@ }
    }
}

impl TaskConfig {
    /// The raw bag's keys are unique.
    pub open spec fn wf(&self) -> bool {
        self.params.wf()
    }
}

/// The mapping a table denotes: every pair in order, later pairs winning.
pub open spec fn table_map_of(t: Seq<(Seq<char>, ValueModel)>) -> Map<Seq<char>, ValueModel>
    decreases t.len(),
{
    if t.len() <= 0 {
        Map::empty()
    } else {
        table_map_of(t.subrange(0, t.len() - 1)).insert(t[t.len() - 1].0, t[t.len() - 1].1)
    }
}

/// The task table a document's top-level entries denote: each
/// table-valued entry becomes an enabled task keyed by its name, others
/// are dropped.
pub open spec fn tasks_model_of(es: Seq<(Seq<char>, ValueModel)>) -> Map<Seq<char>, TaskConfigModel>
    decreases es.len(),
{
    if es.len() <= 0 {
        Map::empty()
    } else {
        let rest = tasks_model_of(es.subrange(0, es.len() - 1));
        match es[es.len() - 1].1 {
            ValueModel::Table(t) => rest.insert(
                es[es.len() - 1].0,
                TaskConfigModel { enabled: true, params: table_map_of(t) },
            ),
            _ => rest,
        }
    }
}

/// The task names a document's top-level entries declare, in order:
/// the names of the table-valued entries.
pub open spec fn task_keys_of(es: Seq<(Seq<char>, ValueModel)>) -> Seq<Seq<char>>
    decreases es.len(),
{
    if es.len() <= 0 {
        Seq::empty()
    } else {
        let rest = task_keys_of(es.subrange(0, es.len() - 1));
        match es[es.len() - 1].1 {
            ValueModel::Table(_) => rest.push(es[es.len() - 1].0),
            _ => rest,
        }
    }
}

/// Entry names are pairwise distinct.
pub open spec fn distinct_keys(es: Seq<(Seq<char>, ValueModel)>) -> bool {
    forall|i: int, j: int|
        #![trigger es[i].0, es[j].0]
        0 <= i < j < es.len() ==> es[i].0 != es[j].0
}

/// A name in the modelled task table occurs among the entry names.
proof fn lemma_tasks_model_domain(es: Seq<(Seq<char>, ValueModel)>)
    ensures
        forall|k: Seq<char>|
            #[trigger] tasks_model_of(es).contains_key(k) ==> exists|i: int|
                0 <= i < es.len() && #[trigger] es[i].0 == k,
    decreases es.len(),
{
    if es.len() > 0 {
        let prefix = es.subrange(0, es.len() - 1);
        lemma_tasks_model_domain(prefix);
        assert forall|k: Seq<char>| #[trigger]
            tasks_model_of(es).contains_key(k) implies exists|i: int|
            0 <= i < es.len() && #[trigger] es[i].0 == k by {
            if !(es[es.len() - 1].1 is Table) || k != es[es.len() - 1].0 {
                assert(tasks_model_of(prefix).contains_key(k));
                let i = choose|i: int| 0 <= i < prefix.len() && #[trigger] prefix[i].0 == k;
                assert(es[i].0 == k);
            } else {
                assert(es[es.len() - 1].0 == k);
            }
        }
    }
}

/// The loaded configuration: a mapping from task name to the task's
/// configured invocation, in declaration order.
#[derive(Debug)]
pub struct Config {
    pub tasks: StrMap<TaskConfig>,
}

impl Config {
    /// The task table's keys are unique and every entry's raw bag is
    /// well-formed.
    pub open spec fn wf(&self) -> bool {
        &&& self.tasks.wf()
        &&& forall|i: int|
            0 <= i < self.tasks.value_list().len() ==> (#[trigger] self.tasks.value_list()[i]).wf()
    }

    /// Builds the raw parameter bag a table denotes.
    #[verifier::loop_isolation(false)]
    fn param_bag_of_table(entries: &Vec<(String, Value)>) -> (r: StrMap<Value>)
        ensures
            r.wf(),
            r@ == table_map_of(entry_models(entries@)),
    {
        let ghost em = entry_models(entries@);
        proof {
            lemma_entry_models(entries@);
        }
        let mut out: StrMap<Value> = StrMap::new();
        let mut i: usize = 0;
        while i < entries.len()
            invariant
                out.wf(),
                i <= entries@.len(),
                out@ == table_map_of(em.subrange(0, i as int)),
            decreases entries@.len() - i,
        {
            proof {
                assert(em.subrange(0, i + 1).subrange(0, i as int) =~= em.subrange(0, i as int));
                assert(em.subrange(0, i + 1)[i as int] == em[i as int]);
            }
            let key = entries[i].0.clone();
            let val = entries[i].1.clone();
            out.insert(key, val);
            i += 1;
        }
        proof {
            assert(em.subrange(0, entries@.len() as int) =~= em);
        }
        out
    }

    /// Builds a configuration from a parsed document value: every
    /// top-level entry whose value is a table becomes an enabled task
    /// with that table as its raw parameter bag, in declaration order;
    /// any other top-level entry is ignored, and a document that is not
    /// a table yields an empty configuration.
    #[verifier::loop_isolation(false)]
    pub fn from_value(doc: &Value) -> (r: Config)
        requires
            doc@ matches ValueModel::Table(es) ==> distinct_keys(es),
        ensures
            r.wf(),
            r.tasks@ == match doc@ {
                ValueModel::Table(es) => tasks_model_of(es),
                _ => Map::<Seq<char>, TaskConfigModel>::empty(),
            },
            r.tasks.keys_in_order() == match doc@ {
                ValueModel::Table(es) => task_keys_of(es),
                _ => Seq::<Seq<char>>::empty(),
            },
    {
        let mut tasks: StrMap<TaskConfig> = StrMap::new();
        match doc {
            Value::Table(entries) => {
                let ghost em = entry_models(entries@);
                proof {
                    lemma_entry_models(entries@);
                }
                let mut i: usize = 0;
                while i < entries.len()
                    invariant
                        tasks.wf(),
                        i <= entries@.len(),
                        tasks@ == tasks_model_of(em.subrange(0, i as int)),
                        tasks.keys_in_order() == task_keys_of(em.subrange(0, i as int)),
                        forall|j: int|
                            0 <= j < tasks.value_list().len() ==> (
                            #[trigger] tasks.value_list()[j]).wf(),
                    decreases entries@.len() - i,
                {
                    proof {
                        assert(em.subrange(0, i + 1).subrange(0, i as int) =~= em.subrange(
                            0,
                            i as int,
                        ));
                        assert(em.subrange(0, i + 1)[i as int] == em[i as int]);
                    }
                    match &entries[i].1 {
                        Value::Table(params_entries) => {
                            proof {
                                lemma_tasks_model_domain(em.subrange(0, i as int));
                                assert(!tasks@.contains_key(em[i as int].0)) by {
                                    if tasks@.contains_key(em[i as int].0) {
                                        let j = choose|j: int|
                                            0 <= j < i && #[trigger] em.subrange(0, i as int)[j].0
                                                == em[i as int].0;
                                        assert(em[j].0 == em[i as int].0);
                                    }
                                }
                            }
                            let name = entries[i].0.clone();
                            let params = Self::param_bag_of_table(params_entries);
                            let entry = TaskConfig { enabled: true, params };
                            let ghost prev = tasks.value_list();
                            tasks.insert(name, entry);
                            proof {
                                assert forall|j: int|
                                    0 <= j < tasks.value_list().len() implies (
                                #[trigger] tasks.value_list()[j]).wf() by {
                                    let x = tasks.value_list()[j];
                                    assert(tasks.value_list().contains(x));
                                    if prev.contains(x) {
                                        let j2 = choose|j2: int|
                                            0 <= j2 < prev.len() && prev[j2] == x;
                                        assert(prev[j2].wf());
                                    } else {
                                        assert(x == entry);
                                    }
                                }
                            }
                        },
                        _ => {},
                    }
                    i += 1;
                }
                proof {
                    assert(em.subrange(0, entries@.len() as int) =~= em);
                }
            },
            _ => {},
        }
        Config { tasks }
    }

    /// Looks a task name up in the configuration.
    pub fn find_task(&self, task_name: &str) -> (r: Option<&TaskConfig>)
        requires
            self.wf(),
        ensures
            match r {
                Some(tc) => self.tasks@.contains_key(task_name@) && tc@ == self.tasks@[task_name@]
                    && tc.wf(),
                None => !self.tasks@.contains_key(task_name@),
            },
    {
        let r = self.tasks.get(task_name);
        proof {
            match r {
                Some(tc) => {
                    let j = choose|j: int|
                        0 <= j < self.tasks.value_list().len() && self.tasks.value_list()[j] == *tc;
                    assert(self.tasks.value_list()[j].wf());
                },
                None => {},
            }
        }
        r
    }
}

} // verus!
