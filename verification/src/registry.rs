//! The task registry: a name-indexed catalog of task factories.
//!
//! The catalog keeps its entries sorted by name, so the list of
//! registered names that lookups and diagnostics report is always the
//! same deterministic, alphabetical snapshot.

use vstd::pervasive::VecAdditionalExecFns;
use vstd::prelude::*;
use vstd::string::StringExecFns;

use crate::task::TaskFactory;

verus! {

/// Names are ordered lexicographically by character code point.
pub open spec fn str_le(a: Seq<char>, b: Seq<char>) -> bool
    decreases a.len(),
{
    if a.len() == 0 {
        true
    } else if b.len() == 0 {
        false
    } else if a[0] == b[0] {
        str_le(a.subrange(1, a.len() as int), b.subrange(1, b.len() as int))
    } else {
        a[0] < b[0]
    }
}

/// Strict lexicographic order.
pub open spec fn str_lt(a: Seq<char>, b: Seq<char>) -> bool {
    str_le(a, b) && a != b
}

/// The order is total.
pub proof fn lemma_str_le_total(a: Seq<char>, b: Seq<char>)
    ensures
        str_le(a, b) || str_le(b, a),
    decreases a.len(),
{
    if a.len() > 0 && b.len() > 0 {
        if a[0] == b[0] {
            lemma_str_le_total(a.subrange(1, a.len() as int), b.subrange(1, b.len() as int));
        }
    }
}

/// The order is antisymmetric.
pub proof fn lemma_str_le_antisymmetric(a: Seq<char>, b: Seq<char>)
    requires
        str_le(a, b),
        str_le(b, a),
    ensures
        a == b,
    decreases a.len(),
{
    if a.len() > 0 && b.len() > 0 && a[0] == b[0] {
        let sa = a.subrange(1, a.len() as int);
        let sb = b.subrange(1, b.len() as int);
        lemma_str_le_antisymmetric(sa, sb);
        assert forall|i: int| 0 <= i < a.len() implies a[i] == b[i] by {
            if i > 0 {
                assert(a[i] == sa[i - 1]);
                assert(b[i] == sb[i - 1]);
            }
        }
        assert(a =~= b);
    }
}

/// The order is transitive.
pub proof fn lemma_str_le_transitive(a: Seq<char>, b: Seq<char>, c: Seq<char>)
    requires
        str_le(a, b),
        str_le(b, c),
    ensures
        str_le(a, c),
    decreases a.len(),
{
    if a.len() > 0 && b.len() > 0 && c.len() > 0 && a[0] == b[0] && b[0] == c[0] {
        lemma_str_le_transitive(
            a.subrange(1, a.len() as int),
            b.subrange(1, b.len() as int),
            c.subrange(1, c.len() as int),
        );
    }
}

/// Compares two names in lexicographic order.
#[verifier::loop_isolation(false)]
fn name_le(a: &str, b: &str) -> (r: bool)
    ensures
        r == str_le(a@, b@),
{
    let alen = a.unicode_len();
    let blen = b.unicode_len();
    proof {
        assert(a@.subrange(0, alen as int) =~= a@);
        assert(b@.subrange(0, blen as int) =~= b@);
    }
    let mut i: usize = 0;
    while i < alen && i < blen
        invariant
            i <= alen,
            i <= blen,
            str_le(a@, b@) == str_le(
                a@.subrange(i as int, alen as int),
                b@.subrange(i as int, blen as int),
            ),
        decreases alen - i,
    {
        let ca = a.get_char(i);
        let cb = b.get_char(i);
        let ghost sa = a@.subrange(i as int, alen as int);
        let ghost sb = b@.subrange(i as int, blen as int);
        proof {
            assert(sa[0] == ca);
            assert(sb[0] == cb);
        }
        if ca != cb {
            return ca < cb;
        }
        proof {
            assert(sa.subrange(1, sa.len() as int) =~= a@.subrange(i + 1, alen as int));
            assert(sb.subrange(1, sb.len() as int) =~= b@.subrange(i + 1, blen as int));
        }
        i += 1;
    }
    proof {
        if i >= alen {
            assert(a@.subrange(i as int, alen as int).len() == 0);
        } else {
            assert(b@.subrange(i as int, blen as int).len() == 0);
            assert(a@.subrange(i as int, alen as int).len() > 0);
        }
    }
    alen <= blen
}

/// Compares two names strictly.
fn name_lt(a: &String, b: &String) -> (r: bool)
    ensures
        r == str_lt(a@, b@),
{
    if *a == *b {
        false
    } else {
        name_le(a.as_str(), b.as_str())
    }
}

/// The character sequences of a list of names, in order.
pub open spec fn name_views(s: Seq<String>) -> Seq<Seq<char>> {
    s.map_values(|x: String| x@)
}

/// The names joined with a comma and a space between neighbours.
pub open spec fn joined_names(names: Seq<Seq<char>>) -> Seq<char>
    decreases names.len(),
{
    if names.len() == 0 {
        Seq::empty()
    } else if names.len() == 1 {
        names[0]
    } else {
        joined_names(names.subrange(0, names.len() - 1)) + ", "@ + names[names.len() - 1]
    }
}

/// Joins names for a diagnosis.
fn join_names(names: &Vec<String>) -> (r: String)
    ensures
        r@ == joined_names(name_views(names@)),
{
    let ghost nv = name_views(names@);
    let mut out = String::new();
    let mut i: usize = 0;
    while i < names.len()
        invariant
            i <= names@.len(),
            nv == name_views(names@),
            nv.len() == names@.len(),
            out@ == joined_names(nv.subrange(0, i as int)),
        decreases names@.len() - i,
    {
        proof {
            assert(nv.subrange(0, i + 1).subrange(0, i as int) =~= nv.subrange(0, i as int));
            assert(nv.subrange(0, i + 1)[i as int] == nv[i as int]);
        }
        if i > 0 {
            out.append(", ");
        }
        out.append(names[i].as_str());
        proof {
            if i == 0 {
                assert(out@ =~= joined_names(nv.subrange(0, 1)));
            }
        }
        i += 1;
    }
    proof {
        assert(nv.subrange(0, names@.len() as int) =~= nv);
    }
    out
}

/// A registry lookup failure: the requested name, together with the
/// sorted list of every registered name.
#[derive(Debug, PartialEq)]
pub enum TaskError {
    TaskNotFound(String, Vec<String>),
}

/// The model of a [`TaskError`].
pub enum TaskErrorModel {
    NotFound(Seq<char>, Seq<Seq<char>>),
}

impl View for TaskError {
    type V = TaskErrorModel;

    open spec fn view(&self) -> TaskErrorModel {
        match self {
            TaskError::TaskNotFound(name, available) => TaskErrorModel::NotFound(
                name@,
                name_views(available@),
            ),
        }
    }
}

impl TaskError {
    /// The text of this diagnosis.
    pub open spec fn message_spec(&self) -> Seq<char> {
        match self {
            TaskError::TaskNotFound(name, available) => "task '"@ + name@
                + "' was not found; available tasks: "@ + joined_names(name_views(available@)),
        }
    }

    /// Renders this diagnosis.
    pub fn message(&self) -> (m: String)
        ensures
            m@ == self.message_spec(),
    {
        match self {
            TaskError::TaskNotFound(name, available) => {
                let mut m = String::from_str("task '");
                m.append(name.as_str());
                m.append("' was not found; available tasks: ");
                let joined = join_names(available);
                m.append(joined.as_str());
                m
            },
        }
    }
}


/// The mapping an entry sequence denotes: later entries win.
spec fn reg_map_of<F>(s: Seq<(String, F)>) -> Map<Seq<char>, F>
    decreases s.len(),
{
    if s.len() <= 0 {
        Map::empty()
    } else {
        reg_map_of(s.subrange(0, s.len() - 1)).insert(s[s.len() - 1].0@, s[s.len() - 1].1)
    }
}

/// A key occurring at a position with no later occurrence reads back as
/// that position's factory.
proof fn lemma_reg_map_index<F>(s: Seq<(String, F)>, i: int)
    requires
        0 <= i < s.len(),
        forall|j: int| i < j < s.len() ==> s[j].0@ != s[i].0@,
    ensures
        reg_map_of(s).contains_key(s[i].0@),
        reg_map_of(s)[s[i].0@] == s[i].1,
    decreases s.len(),
{
    if i < s.len() - 1 {
        lemma_reg_map_index(s.subrange(0, s.len() - 1), i);
    }
}

/// The modelled domain is exactly the set of names occurring in the
/// entry sequence.
proof fn lemma_reg_map_domain<F>(s: Seq<(String, F)>)
    ensures
        forall|k: Seq<char>|
            reg_map_of(s).contains_key(k) <==> exists|i: int|
                0 <= i < s.len() && #[trigger] s[i].0@ == k,
    decreases s.len(),
{
    if s.len() > 0 {
        let prefix = s.subrange(0, s.len() - 1);
        lemma_reg_map_domain(prefix);
        assert(forall|i: int| 0 <= i < prefix.len() ==> prefix[i] == s[i]);
        assert forall|k: Seq<char>|
            reg_map_of(s).contains_key(k) implies (exists|i: int|
            0 <= i < s.len() && #[trigger] s[i].0@ == k) by {
            if k != s[s.len() - 1].0@ {
                assert(reg_map_of(prefix).contains_key(k));
                let i = choose|i: int| 0 <= i < prefix.len() && #[trigger] prefix[i].0@ == k;
                assert(s[i].0@ == k);
            } else {
                assert(s[s.len() - 1].0@ == k);
            }
        }
        assert forall|k: Seq<char>|
            (exists|i: int| 0 <= i < s.len() && #[trigger] s[i].0@ == k)
            implies reg_map_of(s).contains_key(k) by {
            let i = choose|i: int| 0 <= i < s.len() && #[trigger] s[i].0@ == k;
            if i < s.len() - 1 {
                assert(prefix[i].0@ == k);
                assert(reg_map_of(prefix).contains_key(k));
            }
        }
    }
}

/// Replacing the factory at a name's last occurrence models as a mapping
/// insertion at that name.
proof fn lemma_reg_map_update<F>(s: Seq<(String, F)>, i: int, key: String, value: F)
    requires
        0 <= i < s.len(),
        s[i].0@ == key@,
        forall|j: int| i < j < s.len() ==> s[j].0@ != key@,
    ensures
        reg_map_of(s.update(i, (key, value))) == reg_map_of(s).insert(key@, value),
    decreases s.len(),
{
    let t = s.update(i, (key, value));
    if i == s.len() - 1 {
        assert(t.subrange(0, t.len() - 1) =~= s.subrange(0, s.len() - 1));
        assert(reg_map_of(t) =~= reg_map_of(s).insert(key@, value));
    } else {
        let prefix = s.subrange(0, s.len() - 1);
        lemma_reg_map_update(prefix, i, key, value);
        assert(t.subrange(0, t.len() - 1) =~= prefix.update(i, (key, value)));
        assert(reg_map_of(t) =~= reg_map_of(s).insert(key@, value));
    }
}

/// Inserting a fresh name at any position models as a mapping insertion.
proof fn lemma_reg_map_insert<F>(s: Seq<(String, F)>, k: int, key: String, value: F)
    requires
        0 <= k <= s.len(),
        forall|j: int| 0 <= j < s.len() ==> s[j].0@ != key@,
    ensures
        reg_map_of(s.insert(k, (key, value))) == reg_map_of(s).insert(key@, value),
    decreases s.len(),
{
    let t = s.insert(k, (key, value));
    if k == s.len() {
        assert(t.subrange(0, t.len() - 1) =~= s);
        assert(t[t.len() - 1] == (key, value));
        assert(reg_map_of(t) =~= reg_map_of(s).insert(key@, value));
    } else {
        let prefix = s.subrange(0, s.len() - 1);
        assert(forall|j: int| 0 <= j < prefix.len() ==> prefix[j] == s[j]);
        lemma_reg_map_insert(prefix, k, key, value);
        assert(t.subrange(0, t.len() - 1) =~= prefix.insert(k, (key, value)));
        assert(t[t.len() - 1] == s[s.len() - 1]);
        assert(reg_map_of(t) =~= reg_map_of(s).insert(key@, value));
    }
}

/// The central catalog of available tasks: a mapping from name to the
/// factory producing the task, kept sorted by name.
#[derive(Debug)]
pub struct TaskRegistry<F> {
    entries: Vec<(String, F)>,
}

impl<F: TaskFactory> View for TaskRegistry<F> {
    type V = Map<Seq<char>, F>;

    closed spec fn view(&self) -> Map<Seq<char>, F> {
        reg_map_of(self.entries@)
    }
}

impl<F: TaskFactory> TaskRegistry<F> {
    /// Entries are strictly sorted by name.
    pub closed spec fn wf(&self) -> bool {
        forall|i: int, j: int|
            #![trigger self.entries@[i].0@, self.entries@[j].0@]
            0 <= i < j < self.entries@.len() ==> str_lt(self.entries@[i].0@, self.entries@[j].0@)
    }

    /// The registered names, alphabetically.
    pub closed spec fn names(&self) -> Seq<Seq<char>> {
        Seq::new(self.entries@.len(), |i: int| self.entries@[i].0@)
    }

    /// The names are sorted and name the mapping's domain exactly.
    pub proof fn lemma_names_sorted(&self)
        requires
            self.wf(),
        ensures
            forall|i: int, j: int|
                0 <= i < j < self.names().len() ==> str_lt(
                    #[trigger] self.names()[i],
                    #[trigger] self.names()[j],
                ),
            forall|k: Seq<char>| self@.contains_key(k) <==> #[trigger] self.names().contains(k),
    {
        lemma_reg_map_domain(self.entries@);
        assert forall|k: Seq<char>|
            self@.contains_key(k) <==> #[trigger] self.names().contains(k) by {
            if self@.contains_key(k) {
                let i = choose|i: int| 0 <= i < self.entries@.len() && self.entries@[i].0@ == k;
                assert(self.names()[i] == k);
            }
            if self.names().contains(k) {
                let i = choose|i: int| 0 <= i < self.names().len() && self.names()[i] == k;
                assert(self.entries@[i].0@ == k);
            }
        }
    }

    /// An empty registry.
    pub fn new() -> (r: Self)
        ensures
            r.wf(),
            r@ == Map::<Seq<char>, F>::empty(),
            r.names() == Seq::<Seq<char>>::empty(),
    {
        let r = TaskRegistry { entries: Vec::new() };
        proof {
            assert(r.names() =~= Seq::<Seq<char>>::empty());
        }
        r
    }

    /// Registers a task under a name, inserting the factory at the
    /// name's place in the alphabetical order. Registering a name again
    /// silently replaces the previous factory.
    #[verifier::loop_isolation(false)]
    pub fn register(&mut self, name: &str, factory: F)
        requires
            old(self).wf(),
        ensures
            final(self).wf(),
            final(self)@ == old(self)@.insert(name@, factory),
    {
        let owned = name.to_owned();
        let ghost orig = self.entries@;
        let mut k: usize = 0;
        while k < self.entries.len() && name_lt(&self.entries[k].0, &owned)
            invariant
                self.entries@ == orig,
                k <= orig.len(),
                forall|j: int| 0 <= j < k ==> str_lt(#[trigger] orig[j].0@, name@),
            decreases orig.len() - k,
        {
            k += 1;
        }
        if k < self.entries.len() && self.entries[k].0 == owned {
            proof {
                lemma_reg_map_update(orig, k as int, owned, factory);
            }
            self.entries.set(k, (owned, factory));
            return;
        }
        proof {
            assert forall|j: int| 0 <= j < orig.len() implies orig[j].0@ != name@ by {
                if j >= k && k < orig.len() {
                    lemma_str_le_total(orig[k as int].0@, name@);
                    if j > k && orig[j].0@ == name@ {
                        lemma_str_le_transitive(name@, orig[k as int].0@, orig[j].0@);
                        lemma_str_le_antisymmetric(name@, orig[k as int].0@);
                    }
                }
            }
            lemma_reg_map_insert(orig, k as int, owned, factory);
        }
        self.entries.insert(k, (owned, factory));
        proof {
            assert forall|i: int, j: int|
                0 <= i < j < self.entries@.len() implies str_lt(
                #[trigger] self.entries@[i].0@,
                #[trigger] self.entries@[j].0@,
            ) by {
                let t = self.entries@;
                if j == k {
                    assert(t[i] == orig[i]);
                    assert(str_lt(orig[i].0@, name@));
                } else if i == k {
                    assert(t[j] == orig[j - 1]);
                    lemma_str_le_total(orig[j - 1].0@, name@);
                    if orig[j - 1].0@ == name@ {
                        assert(false);
                    }
                    if str_le(orig[j - 1].0@, name@) {
                        assert(j - 1 >= k);
                        lemma_str_le_total(orig[k as int].0@, name@);
                        if j - 1 > k {
                            lemma_str_le_transitive(name@, orig[k as int].0@, orig[j - 1].0@);
                        }
                        lemma_str_le_antisymmetric(name@, orig[j - 1].0@);
                    }
                } else if j < k {
                    assert(t[i] == orig[i] && t[j] == orig[j]);
                } else if i > k {
                    assert(t[i] == orig[i - 1] && t[j] == orig[j - 1]);
                } else {
                    assert(t[i] == orig[i] && t[j] == orig[j - 1]);
                    assert(str_lt(orig[i].0@, name@));
                    lemma_str_le_total(orig[j - 1].0@, name@);
                    if orig[j - 1].0@ == name@ {
                        assert(false);
                    }
                    if str_le(orig[j - 1].0@, name@) {
                        lemma_str_le_total(orig[k as int].0@, name@);
                        if j - 1 > k {
                            lemma_str_le_transitive(name@, orig[k as int].0@, orig[j - 1].0@);
                        }
                        lemma_str_le_antisymmetric(name@, orig[j - 1].0@);
                    }
                    lemma_str_le_transitive(orig[i].0@, name@, orig[j - 1].0@);
                    if orig[i].0@ == orig[j - 1].0@ {
                        lemma_str_le_antisymmetric(name@, orig[j - 1].0@);
                    }
                }
            }
        }
    }

    /// Produces a fresh instance of the task registered under a name, or
    /// reports the name together with the sorted list of all registered
    /// names.
    #[verifier::loop_isolation(false)]
    pub fn get(&self, name: &str) -> (r: Result<F::T, TaskError>)
        requires
            self.wf(),
        ensures
            match r {
                Ok(t) => self@.contains_key(name@) && t == self@[name@].product(),
                Err(e) => !self@.contains_key(name@) && e@ == (TaskErrorModel::NotFound(
                    name@,
                    self.names(),
                )),
            },
    {
        let owned = name.to_owned();
        let mut i: usize = 0;
        while i < self.entries.len()
            invariant
                i <= self.entries@.len(),
                forall|j: int| 0 <= j < i ==> self.entries@[j].0@ != name@,
            decreases self.entries@.len() - i,
        {
            if self.entries[i].0 == owned {
                proof {
                    lemma_reg_map_index(self.entries@, i as int);
                }
                return Ok(self.entries[i].1.make());
            }
            i += 1;
        }
        proof {
            lemma_reg_map_domain(self.entries@);
        }
        let available = self.list_tasks();
        Err(TaskError::TaskNotFound(owned, available))
    }

    /// The sorted list of all registered names.
    #[verifier::loop_isolation(false)]
    pub fn list_tasks(&self) -> (r: Vec<String>)
        ensures
            name_views(r@) == self.names(),
    {
        let mut names: Vec<String> = Vec::new();
        let mut i: usize = 0;
        while i < self.entries.len()
            invariant
                i <= self.entries@.len(),
                names@.len() == i,
                forall|j: int| 0 <= j < i ==> #[trigger] names@[j]@ == self.entries@[j].0@,
            decreases self.entries@.len() - i,
        {
            names.push(self.entries[i].0.clone());
            i += 1;
        }
        proof {
            assert(name_views(names@) =~= self.names());
        }
        names
    }
}

impl<F: TaskFactory> Default for TaskRegistry<F> {
    /// An empty registry.
    fn default() -> (r: Self)
        ensures
            r.wf(),
            r@ == Map::<Seq<char>, F>::empty(),
    {
        TaskRegistry::new()
    }
}


/// Registry round trip: after a factory is registered under a name (so
/// the catalog models as the old mapping with that binding inserted, as
/// `register` ensures), looking the name up finds exactly that factory,
/// and `get`'s contract then yields its product — in particular a task
/// whose name is the product's.
pub proof fn lemma_registry_round_trip<F: TaskFactory>(
    before: Map<Seq<char>, F>,
    after: Map<Seq<char>, F>,
    name: Seq<char>,
    factory: F,
)
    requires
        after == before.insert(name, factory),
    ensures
        after.contains_key(name),
        after[name] == factory,
        after[name].product() == factory.product(),
{
}

} // verus!
