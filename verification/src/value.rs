//! The dynamically typed value that a configuration source produces.
//!
//! A raw parameter bag maps parameter names to values of this tagged-union
//! type. The validator inspects only the tag of a value; array and table
//! payloads are carried through unchanged.

use vstd::prelude::*;

verus! {

/// An untyped configuration value: the closed tagged union that flows from
/// the configuration source into parameter validation.
///
/// A floating-point value is carried as its IEEE-754 bit pattern: the
/// framework never computes with it, it only tags and moves it, and the
/// bits preserve the value exactly. A timestamp is carried as a bare tag;
/// no declared parameter kind ever matches it, so validation never lets
/// one through into task logic.
#[derive(Debug, PartialEq)]
pub enum Value {
    String(String),
    Bool(bool),
    Integer(i64),
    Float(u64),
    Array(Vec<Value>),
    Table(Vec<(String, Value)>),
    Timestamp,
}

/// The mathematical model of a [`Value`]: strings become sequences of
/// characters, arrays and tables become sequences of modelled children.
pub enum ValueModel {
    Str(Seq<char>),
    Bool(bool),
    Int(i64),
    FloatBits(u64),
    Array(Seq<ValueModel>),
    Table(Seq<(Seq<char>, ValueModel)>),
    Timestamp,
}

/// The model of a value.
pub open spec fn value_model(v: Value) -> ValueModel
    decreases v,
{
    match v {
        Value::String(s) => ValueModel::Str(s@),
        Value::Bool(b) => ValueModel::Bool(b),
        Value::Integer(i) => ValueModel::Int(i),
        Value::Float(bits) => ValueModel::FloatBits(bits),
        Value::Array(items) => ValueModel::Array(value_models(items@)),
        Value::Table(entries) => ValueModel::Table(entry_models(entries@)),
        Value::Timestamp => ValueModel::Timestamp,
    }
}

/// The models of a sequence of values, in order.
pub open spec fn value_models(s: Seq<Value>) -> Seq<ValueModel>
    decreases s,
{
    if s.len() == 0 {
        Seq::empty()
    } else {
        value_models(s.subrange(0, s.len() - 1)).push(value_model(s[s.len() - 1]))
    }
}

/// The models of a sequence of keyed entries, in order.
pub open spec fn entry_models(s: Seq<(String, Value)>) -> Seq<(Seq<char>, ValueModel)>
    decreases s,
{
    if s.len() == 0 {
        Seq::empty()
    } else {
        entry_models(s.subrange(0, s.len() - 1)).push(
            (s[s.len() - 1].0@, value_model(s[s.len() - 1].1)),
        )
    }
}

/// Element-wise reading of [`value_models`].
pub proof fn lemma_value_models(s: Seq<Value>)
    ensures
        value_models(s).len() == s.len(),
        forall|i: int| 0 <= i < s.len() ==> #[trigger] value_models(s)[i] == value_model(s[i]),
    decreases s.len(),
{
    if s.len() > 0 {
        let prefix = s.subrange(0, s.len() - 1);
        lemma_value_models(prefix);
        assert(forall|i: int| 0 <= i < prefix.len() ==> prefix[i] == s[i]);
    }
}

/// Element-wise reading of [`entry_models`].
pub proof fn lemma_entry_models(s: Seq<(String, Value)>)
    ensures
        entry_models(s).len() == s.len(),
        forall|i: int| 0 <= i < s.len() ==> #[trigger] entry_models(s)[i] == (
            s[i].0@,
            value_model(s[i].1),
        ),
    decreases s.len(),
{
    if s.len() > 0 {
        let prefix = s.subrange(0, s.len() - 1);
        lemma_entry_models(prefix);
        assert(forall|i: int| 0 <= i < prefix.len() ==> prefix[i] == s[i]);
    }
}

impl View for Value {
    type V = ValueModel;

    open spec fn view(&self) -> ValueModel {
        value_model(*self)
    }
}

/// The dynamic kind (tag) of a value, as reported in diagnostics.
#[derive(Clone, Copy, Debug, PartialEq, Eq, Structural)]
pub enum ValueKind {
    String,
    Bool,
    Integer,
    Float,
    Array,
    Table,
    Timestamp,
}

/// The tag of a modelled value.
pub open spec fn model_kind(m: ValueModel) -> ValueKind {
    match m {
        ValueModel::Str(_) => ValueKind::String,
        ValueModel::Bool(_) => ValueKind::Bool,
        ValueModel::Int(_) => ValueKind::Integer,
        ValueModel::FloatBits(_) => ValueKind::Float,
        ValueModel::Array(_) => ValueKind::Array,
        ValueModel::Table(_) => ValueKind::Table,
        ValueModel::Timestamp => ValueKind::Timestamp,
    }
}

impl Value {
    /// The dynamic kind of this value.
    pub fn kind(&self) -> (k: ValueKind)
        ensures
            k == model_kind(self@),
    {
        match self {
            Value::String(_) => ValueKind::String,
            Value::Bool(_) => ValueKind::Bool,
            Value::Integer(_) => ValueKind::Integer,
            Value::Float(_) => ValueKind::Float,
            Value::Array(_) => ValueKind::Array,
            Value::Table(_) => ValueKind::Table,
            Value::Timestamp => ValueKind::Timestamp,
        }
    }
}

impl Clone for Value {
    /// A structural copy: the copy models to the same value.
    #[verifier::loop_isolation(false)]
    fn clone(&self) -> (res: Self)
        ensures
            res@ == self@,
        decreases self,
    {
        match self {
            Value::String(s) => Value::String(s.clone()),
            Value::Bool(b) => Value::Bool(*b),
            Value::Integer(i) => Value::Integer(*i),
            Value::Float(bits) => Value::Float(*bits),
            Value::Array(items) => {
                let mut copied: Vec<Value> = Vec::new();
                let mut idx: usize = 0;
                while idx < items.len()
                    invariant
                        idx <= items.len(),
                        copied@.len() == idx,
                        forall|j: int| 0 <= j < idx ==> #[trigger] value_model(copied@[j])
                            == value_model(items@[j]),
                    decreases items.len() - idx,
                {
                    proof {
                        assert(decreases_to!(*self => items@[idx as int])) by {
                            assert(decreases_to!(*self => *items)) by {
                                let ghost whole = *self;
                                assert(whole == Value::Array(*items));
                                assert(decreases_to!(whole => whole->Array_0));
                            }
                            assert(decreases_to!(*items => items@));
                            assert(decreases_to!(items@ => items@[idx as int]));
                        }
                    }
                    copied.push(items[idx].clone());
                    idx += 1;
                }
                proof {
                    lemma_value_models(copied@);
                    lemma_value_models(items@);
                    assert(value_models(copied@) =~= value_models(items@));
                }
                Value::Array(copied)
            },
            Value::Table(entries) => {
                let mut copied: Vec<(String, Value)> = Vec::new();
                let mut idx: usize = 0;
                while idx < entries.len()
                    invariant
                        idx <= entries.len(),
                        copied@.len() == idx,
                        forall|j: int| 0 <= j < idx ==> #[trigger] copied@[j].0@ == entries@[j].0@
                            && value_model(copied@[j].1) == value_model(entries@[j].1),
                    decreases entries.len() - idx,
                {
                    proof {
                        assert(decreases_to!(*self => entries@[idx as int].1)) by {
                            assert(decreases_to!(*self => *entries)) by {
                                let ghost whole = *self;
                                assert(whole == Value::Table(*entries));
                                assert(decreases_to!(whole => whole->Table_0));
                            }
                            assert(decreases_to!(*entries => entries@));
                            assert(decreases_to!(entries@ => entries@[idx as int]));
                            assert(decreases_to!(entries@[idx as int] => entries@[idx as int].1));
                        }
                    }
                    let key = entries[idx].0.clone();
                    let val = entries[idx].1.clone();
                    copied.push((key, val));
                    idx += 1;
                }
                proof {
                    lemma_entry_models(copied@);
                    lemma_entry_models(entries@);
                    assert(entry_models(copied@) =~= entry_models(entries@));
                }
                Value::Table(copied)
            },
            Value::Timestamp => Value::Timestamp,
        }
    }
}

} // verus!
