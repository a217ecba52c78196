//! An ordered association list from names to values.
//!
//! Raw parameter bags, validated parameter maps and the configuration's
//! task table are all name-keyed mappings whose insertion order matters
//! for diagnostics and execution order. This container keeps entries in
//! insertion order, keeps keys unique, and is modelled by a
//! [`vstd::map::Map`] from character sequences to the values' models.

use vstd::pervasive::VecAdditionalExecFns;
use vstd::prelude::*;

verus! {

/// The mapping denoted by an entry sequence: later entries win.
spec fn map_of<V: View>(s: Seq<(String, V)>) -> Map<Seq<char>, V::V>
    decreases s.len(),
{
    if s.len() <= 0 {
        Map::empty()
    } else {
        map_of(s.subrange(0, s.len() - 1)).insert(s[s.len() - 1].0@, s[s.len() - 1].1@)
    }
}

/// A name-to-value mapping with unique keys, in insertion order.
#[derive(Debug)]
pub struct StrMap<V> {
    entries: Vec<(String, V)>,
}

impl<V: View> View for StrMap<V> {
    type V = Map<Seq<char>, V::V>;

    closed spec fn view(&self) -> Map<Seq<char>, V::V> {
        map_of(self.entries@)
    }
}

impl<V: View> StrMap<V> {
    /// Keys are pairwise distinct.
    pub closed spec fn wf(&self) -> bool {
        forall|i: int, j: int|
            #![trigger self.entries@[i].0@, self.entries@[j].0@]
            0 <= i < j < self.entries@.len() ==> self.entries@[i].0@ != self.entries@[j].0@
    }

    /// The keys, in insertion order.
    pub closed spec fn keys_in_order(&self) -> Seq<Seq<char>> {
        Seq::new(self.entries@.len(), |i: int| self.entries@[i].0@)
    }

    /// The values, in insertion order.
    pub closed spec fn values_in_order(&self) -> Seq<V::V> {
        Seq::new(self.entries@.len(), |i: int| self.entries@[i].1@)
    }

    /// The stored values themselves, in insertion order.
    pub closed spec fn value_list(&self) -> Seq<V> {
        Seq::new(self.entries@.len(), |i: int| self.entries@[i].1)
    }

    /// An empty mapping.
    pub fn new() -> (r: Self)
        ensures
            r.wf(),
            r@ == Map::<Seq<char>, V::V>::empty(),
            r.keys_in_order() == Seq::<Seq<char>>::empty(),
            r.value_list() == Seq::<V>::empty(),
    {
        let r = StrMap { entries: Vec::new() };
        proof {
            assert(r.keys_in_order() =~= Seq::<Seq<char>>::empty());
            assert(r.value_list() =~= Seq::<V>::empty());
        }
        r
    }

    /// The number of entries, which with unique keys is also the size of
    /// the modelled mapping's domain.
    pub fn len(&self) -> (n: usize)
        ensures
            n == self.keys_in_order().len(),
    {
        self.entries.len()
    }

    /// The key at a position of the insertion order.
    pub fn key_at(&self, i: usize) -> (k: &String)
        requires
            i < self.keys_in_order().len(),
        ensures
            k@ == self.keys_in_order()[i as int],
    {
        &self.entries[i].0
    }

    /// The value at a position of the insertion order.
    pub fn value_at(&self, i: usize) -> (v: &V)
        requires
            i < self.keys_in_order().len(),
        ensures
            v@ == self.values_in_order()[i as int],
            v == self.value_list()[i as int],
    {
        &self.entries[i].1
    }

    /// Looks a name up in the mapping.
    #[verifier::loop_isolation(false)]
    pub fn get(&self, key: &str) -> (r: Option<&V>)
        requires
            self.wf(),
        ensures
            match r {
                Some(v) => self@.contains_key(key@) && v@ == self@[key@]
                    && self.value_list().contains(*v),
                None => !self@.contains_key(key@),
            },
    {
        let owned = key.to_owned();
        let mut i: usize = 0;
        while i < self.entries.len()
            invariant
                self.wf(),
                owned@ == key@,
                i <= self.entries@.len(),
                forall|j: int| 0 <= j < i ==> self.entries@[j].0@ != key@,
            decreases self.entries@.len() - i,
        {
            if self.entries[i].0 == owned {
                proof {
                    lemma_map_of_index(self.entries@, i as int);
                    assert(self.value_list()[i as int] == self.entries@[i as int].1);
                }
                return Some(&self.entries[i].1);
            }
            i += 1;
        }
        proof {
            lemma_map_of_domain(self.entries@);
        }
        None
    }

    /// Whether a name is present.
    pub fn contains(&self, key: &str) -> (r: bool)
        requires
            self.wf(),
        ensures
            r == self@.contains_key(key@),
    {
        match self.get(key) {
            Some(_) => true,
            None => false,
        }
    }

    /// Inserts a binding. An existing binding for the same name is
    /// replaced in place; a new name is appended to the insertion order.
    #[verifier::loop_isolation(false)]
    pub fn insert(&mut self, key: String, value: V)
        requires
            old(self).wf(),
        ensures
            final(self).wf(),
            final(self)@ == old(self)@.insert(key@, value@),
            final(self).keys_in_order() == if old(self)@.contains_key(key@) {
                old(self).keys_in_order()
            } else {
                old(self).keys_in_order().push(key@)
            },
            forall|x: V|
                final(self).value_list().contains(x) ==> old(self).value_list().contains(x) || x
                    == value,
    {
        let ghost orig = self.entries@;
        let mut i: usize = 0;
        while i < self.entries.len()
            invariant
                self.wf(),
                self.entries@ == orig,
                i <= orig.len(),
                forall|j: int| 0 <= j < i ==> orig[j].0@ != key@,
            decreases orig.len() - i,
        {
            if self.entries[i].0 == key {
                proof {
                    lemma_map_of_index(orig, i as int);
                    lemma_map_of_update(orig, i as int, key, value);
                }
                self.entries.set(i, (key, value));
                proof {
                    assert(self.keys_in_order() =~= old(self).keys_in_order());
                    assert forall|x: V|
                        self.value_list().contains(x) implies old(self).value_list().contains(x)
                        || x == value by {
                        let j = choose|j: int|
                            0 <= j < self.value_list().len() && self.value_list()[j] == x;
                        if j != i {
                            assert(old(self).value_list()[j] == x);
                        }
                    }
                }
                return;
            }
            i += 1;
        }
        proof {
            lemma_map_of_domain(orig);
        }
        self.entries.push((key, value));
        proof {
            assert(self.entries@.subrange(0, orig.len() as int) =~= orig);
            assert(self.keys_in_order() =~= old(self).keys_in_order().push(key@));
            assert forall|x: V|
                self.value_list().contains(x) implies old(self).value_list().contains(x) || x
                    == value by {
                let j = choose|j: int|
                    0 <= j < self.value_list().len() && self.value_list()[j] == x;
                if j < orig.len() {
                    assert(old(self).value_list()[j] == x);
                }
            }
        }
    }
}

/// A key occurring at a position with no later occurrence reads back as
/// that position's value.
proof fn lemma_map_of_index<V: View>(s: Seq<(String, V)>, i: int)
    requires
        0 <= i < s.len(),
        forall|j: int| i < j < s.len() ==> s[j].0@ != s[i].0@,
    ensures
        map_of(s).contains_key(s[i].0@),
        map_of(s)[s[i].0@] == s[i].1@,
    decreases s.len(),
{
    if i < s.len() - 1 {
        let prefix = s.subrange(0, s.len() - 1);
        lemma_map_of_index(prefix, i);
    }
}

/// Replacing the value at a key's last occurrence models as a mapping
/// insertion at that key.
proof fn lemma_map_of_update<V: View>(s: Seq<(String, V)>, i: int, key: String, value: V)
    requires
        0 <= i < s.len(),
        s[i].0@ == key@,
        forall|j: int| i < j < s.len() ==> s[j].0@ != key@,
    ensures
        map_of(s.update(i, (key, value))) == map_of(s).insert(key@, value@),
    decreases s.len(),
{
    let t = s.update(i, (key, value));
    if i == s.len() - 1 {
        assert(t.subrange(0, t.len() - 1) =~= s.subrange(0, s.len() - 1));
        assert(map_of(t) =~= map_of(s).insert(key@, value@));
    } else {
        let prefix = s.subrange(0, s.len() - 1);
        lemma_map_of_update(prefix, i, key, value);
        assert(t.subrange(0, t.len() - 1) =~= prefix.update(i, (key, value)));
        assert(map_of(t) =~= map_of(s).insert(key@, value@));
    }
}

/// The modelled domain is exactly the set of keys occurring in the entry
/// sequence.
proof fn lemma_map_of_domain<V: View>(s: Seq<(String, V)>)
    ensures
        forall|k: Seq<char>|
            map_of(s).contains_key(k) <==> exists|i: int|
                0 <= i < s.len() && #[trigger] s[i].0@ == k,
    decreases s.len(),
{
    if s.len() > 0 {
        let prefix = s.subrange(0, s.len() - 1);
        lemma_map_of_domain(prefix);
        assert(forall|i: int| 0 <= i < prefix.len() ==> prefix[i] == s[i]);
        assert forall|k: Seq<char>|
            map_of(s).contains_key(k) implies (exists|i: int|
            0 <= i < s.len() && #[trigger] s[i].0@ == k) by {
            if k != s[s.len() - 1].0@ {
                assert(map_of(prefix).contains_key(k));
                let i = choose|i: int| 0 <= i < prefix.len() && #[trigger] prefix[i].0@ == k;
                assert(s[i].0@ == k);
            } else {
                assert(s[s.len() - 1].0@ == k);
            }
        }
        assert forall|k: Seq<char>|
            (exists|i: int| 0 <= i < s.len() && #[trigger] s[i].0@ == k)
            implies map_of(s).contains_key(k) by {
            let i = choose|i: int| 0 <= i < s.len() && #[trigger] s[i].0@ == k;
            if i < s.len() - 1 {
                assert(prefix[i].0@ == k);
                assert(map_of(prefix).contains_key(k));
            }
        }
    }
}

} // verus!
