//! Parameter schemas and validation.
//!
//! A task declares its expected parameters as a list of definitions; the
//! validator turns that schema plus a raw, untyped parameter bag into a
//! typed parameter map, or fails with a precise diagnosis.

use vstd::prelude::*;

use crate::errors::{AppError, ErrorModel};
use crate::strmap::StrMap;
use crate::value::{model_kind, value_models, Value, ValueKind, ValueModel};

verus! {

/// The kind of value a parameter expects.
#[derive(Clone, Copy, Debug, PartialEq, Eq, Structural)]
pub enum ParamType {
    String,
    Bool,
    Integer,
    Float,
    Array,
}

/// Whether a raw value of the given dynamic kind satisfies a declared
/// parameter type. Matching is exact by tag: there is no coercion, and a
/// table or timestamp value satisfies no declared type.
pub open spec fn kind_matches(pt: ParamType, k: ValueKind) -> bool {
    match pt {
        ParamType::String => k == ValueKind::String,
        ParamType::Bool => k == ValueKind::Bool,
        ParamType::Integer => k == ValueKind::Integer,
        ParamType::Float => k == ValueKind::Float,
        ParamType::Array => k == ValueKind::Array,
    }
}

/// The declaration of one expected parameter.
///
/// The builders keep the declaration consistent: marking a parameter
/// required drops any default, and giving it a default makes it optional,
/// so a required parameter never carries a default.
#[derive(Debug, PartialEq)]
pub struct ParamDefinition {
    pub name: String,
    pub param_type: ParamType,
    pub required: bool,
    pub default: Option<Value>,
    pub description: String,
}

/// The model of a [`ParamDefinition`].
pub struct ParamDefModel {
    pub name: Seq<char>,
    pub param_type: ParamType,
    pub required: bool,
    pub default: Option<ValueModel>,
    pub description: Seq<char>,
}

impl View for ParamDefinition {
    type V = ParamDefModel;

    open spec fn view(&self) -> ParamDefModel {
        ParamDefModel {
            name: self.name@,
            param_type: self.param_type,
            required: self.required,
            default: match self.default {
                Some(v) => Some(v@),
                None => None,
            },
            description: self.description@,
        }
    }
}

/// The models of a schema's definitions, in order.
pub open spec fn def_models(s: Seq<ParamDefinition>) -> Seq<ParamDefModel> {
    s.map_values(|d: ParamDefinition| d@)
}

impl ParamDefinition {
    /// A new optional parameter of the given name and type, with no
    /// default and an empty description.
    pub fn new(name: &str, param_type: ParamType) -> (r: Self)
        ensures
            r@ == (ParamDefModel {
                name: name@,
                param_type,
                required: false,
                default: None,
                description: Seq::empty(),
            }),
    {
        ParamDefinition {
            name: name.to_owned(),
            param_type,
            required: false,
            default: None,
            description: String::new(),
        }
    }

    /// Marks the parameter required, dropping any default.
    pub fn required(self) -> (r: Self)
        ensures
            r@ == (ParamDefModel { required: true, default: None, ..self@ }),
    {
        ParamDefinition { required: true, default: None, ..self }
    }

    /// Marks the parameter optional, keeping its default if any.
    pub fn optional(self) -> (r: Self)
        ensures
            r@ == (ParamDefModel { required: false, ..self@ }),
    {
        ParamDefinition { required: false, ..self }
    }

    /// Gives the parameter a string default, making it optional.
    pub fn default_str(self, value: &str) -> (r: Self)
        ensures
            r@ == (ParamDefModel {
                required: false,
                default: Some(ValueModel::Str(value@)),
                ..self@
            }),
    {
        ParamDefinition { required: false, default: Some(Value::String(value.to_owned())), ..self }
    }

    /// Gives the parameter a boolean default, making it optional.
    pub fn default_bool(self, value: bool) -> (r: Self)
        ensures
            r@ == (ParamDefModel {
                required: false,
                default: Some(ValueModel::Bool(value)),
                ..self@
            }),
    {
        ParamDefinition { required: false, default: Some(Value::Bool(value)), ..self }
    }

    /// Gives the parameter an integer default, making it optional.
    pub fn default_int(self, value: i64) -> (r: Self)
        ensures
            r@ == (ParamDefModel {
                required: false,
                default: Some(ValueModel::Int(value)),
                ..self@
            }),
    {
        ParamDefinition { required: false, default: Some(Value::Integer(value)), ..self }
    }

    /// Gives the parameter a floating-point default, written as its
    /// IEEE-754 bit pattern, making it optional.
    pub fn default_float_bits(self, bits: u64) -> (r: Self)
        ensures
            r@ == (ParamDefModel {
                required: false,
                default: Some(ValueModel::FloatBits(bits)),
                ..self@
            }),
    {
        ParamDefinition { required: false, default: Some(Value::Float(bits)), ..self }
    }

    /// Sets the human-readable description.
    pub fn description(self, desc: &str) -> (r: Self)
        ensures
            r@ == (ParamDefModel { description: desc@, ..self@ }),
    {
        ParamDefinition { description: desc.to_owned(), ..self }
    }
}

/// The value validation assigns to one definition against a raw bag, or
/// the diagnosis it fails with: a provided value must match the declared
/// kind exactly, a missing required parameter fails, and a missing
/// optional one falls back to the default or to an empty string.
pub open spec fn def_outcome(d: ParamDefModel, raw: Map<Seq<char>, ValueModel>) -> Result<
    ValueModel,
    ErrorModel,
> {
    if raw.contains_key(d.name) {
        if kind_matches(d.param_type, model_kind(raw[d.name])) {
            Ok(raw[d.name])
        } else {
            Err(ErrorModel::TypeMismatch(d.name, d.param_type, model_kind(raw[d.name])))
        }
    } else if d.required {
        Err(ErrorModel::MissingRequired(d.name))
    } else {
        match d.default {
            Some(v) => Ok(v),
            None => Ok(ValueModel::Str(Seq::empty())),
        }
    }
}

/// What validating a schema against a raw bag yields: a mapping that
/// binds, in schema order, exactly the declared names, or the first
/// failure in schema order. Keys of the raw bag that no definition
/// declares are dropped.
pub open spec fn validate_model(
    defs: Seq<ParamDefModel>,
    raw: Map<Seq<char>, ValueModel>,
) -> Result<Map<Seq<char>, ValueModel>, ErrorModel>
    decreases defs.len(),
{
    if defs.len() <= 0 {
        Ok(Map::empty())
    } else {
        match validate_model(defs.subrange(0, defs.len() - 1), raw) {
            Ok(m) => match def_outcome(defs[defs.len() - 1], raw) {
                Ok(v) => Ok(m.insert(defs[defs.len() - 1].name, v)),
                Err(e) => Err(e),
            },
            Err(e) => Err(e),
        }
    }
}

/// The first failing definition in schema order determines validation's
/// failure, whatever definitions stand after it.
pub proof fn lemma_validate_error(defs: Seq<ParamDefModel>, raw: Map<Seq<char>, ValueModel>, i: int)
    requires
        0 <= i < defs.len(),
        validate_model(defs.subrange(0, i), raw) is Ok,
        def_outcome(defs[i], raw) is Err,
    ensures
        validate_model(defs, raw) == Err::<Map<Seq<char>, ValueModel>, ErrorModel>(
            def_outcome(defs[i], raw)->Err_0,
        ),
    decreases defs.len(),
{
    if i == defs.len() - 1 {
        assert(defs.subrange(0, defs.len() - 1) == defs.subrange(0, i));
    } else {
        let prefix = defs.subrange(0, defs.len() - 1);
        assert(prefix.subrange(0, i) =~= defs.subrange(0, i));
        assert(prefix[i] == defs[i]);
        lemma_validate_error(prefix, raw, i);
    }
}

/// Unknown keys are dropped, and no declared name is skipped: whenever
/// validation succeeds, the resulting mapping binds exactly the declared
/// names — a raw key that no definition declares never appears.
pub proof fn lemma_validated_domain(defs: Seq<ParamDefModel>, raw: Map<Seq<char>, ValueModel>)
    requires
        validate_model(defs, raw) is Ok,
    ensures
        forall|k: Seq<char>|
            validate_model(defs, raw)->Ok_0.contains_key(k) <==> (exists|i: int|
                0 <= i < defs.len() && #[trigger] defs[i].name == k),
    decreases defs.len(),
{
    if defs.len() > 0 {
        let prefix = defs.subrange(0, defs.len() - 1);
        assert(forall|i: int| 0 <= i < prefix.len() ==> prefix[i] == defs[i]);
        lemma_validated_domain(prefix, raw);
        let m = validate_model(prefix, raw)->Ok_0;
        let last = defs[defs.len() - 1];
        let full = validate_model(defs, raw)->Ok_0;
        assert(full == m.insert(last.name, def_outcome(last, raw)->Ok_0));
        assert forall|k: Seq<char>|
            full.contains_key(k) implies (exists|i: int|
            0 <= i < defs.len() && #[trigger] defs[i].name == k) by {
            if k == last.name {
                assert(defs[defs.len() - 1].name == k);
            } else {
                assert(m.contains_key(k));
                let i = choose|i: int| 0 <= i < prefix.len() && #[trigger] prefix[i].name == k;
                assert(defs[i].name == k);
            }
        }
        assert forall|k: Seq<char>|
            (exists|i: int| 0 <= i < defs.len() && #[trigger] defs[i].name == k)
            implies full.contains_key(k) by {
            let i = choose|i: int| 0 <= i < defs.len() && #[trigger] defs[i].name == k;
            if i < defs.len() - 1 {
                assert(prefix[i].name == k);
                assert(m.contains_key(k));
            }
        }
    }
}

/// Validation completeness: when every required definition has a
/// matching, correctly typed entry in the raw bag, and every optional
/// definition that the bag does provide is provided at its declared
/// kind, validation succeeds, and the resulting mapping binds exactly
/// the declared names.
pub proof fn lemma_validation_completeness(
    defs: Seq<ParamDefModel>,
    raw: Map<Seq<char>, ValueModel>,
)
    requires
        forall|i: int|
            #![trigger defs[i]]
            0 <= i < defs.len() ==> (defs[i].required ==> raw.contains_key(defs[i].name)),
        forall|i: int|
            #![trigger defs[i]]
            0 <= i < defs.len() ==> (raw.contains_key(defs[i].name) ==> kind_matches(
                defs[i].param_type,
                model_kind(raw[defs[i].name]),
            )),
    ensures
        validate_model(defs, raw) is Ok,
        forall|k: Seq<char>|
            validate_model(defs, raw)->Ok_0.contains_key(k) <==> (exists|i: int|
                0 <= i < defs.len() && #[trigger] defs[i].name == k),
    decreases defs.len(),
{
    if defs.len() > 0 {
        let prefix = defs.subrange(0, defs.len() - 1);
        assert(forall|i: int| 0 <= i < prefix.len() ==> prefix[i] == defs[i]);
        lemma_validation_completeness(prefix, raw);
        assert(def_outcome(defs[defs.len() - 1], raw) is Ok);
    }
    lemma_validated_domain(defs, raw);
}

/// Checks one provided value against its declared type.
fn validate_type(name: &String, value: &Value, expected: ParamType) -> (r: Result<(), AppError>)
    ensures
        match r {
            Ok(_) => kind_matches(expected, model_kind(value@)),
            Err(e) => !kind_matches(expected, model_kind(value@)) && e@ == (
            ErrorModel::TypeMismatch(name@, expected, model_kind(value@))),
        },
{
    let k = value.kind();
    let matches = match expected {
        ParamType::String => k == ValueKind::String,
        ParamType::Bool => k == ValueKind::Bool,
        ParamType::Integer => k == ValueKind::Integer,
        ParamType::Float => k == ValueKind::Float,
        ParamType::Array => k == ValueKind::Array,
    };
    if matches {
        Ok(())
    } else {
        Err(AppError::TypeMismatch(name.clone(), expected, k))
    }
}

/// The typed, validated parameters of one task execution: a mapping that
/// binds every declared parameter name, and nothing else.
#[derive(Debug)]
pub struct TaskParams {
    definitions: Vec<ParamDefinition>,
    params: StrMap<Value>,
}

impl View for TaskParams {
    type V = Map<Seq<char>, ValueModel>;

    closed spec fn view(&self) -> Map<Seq<char>, ValueModel> {
        self.params@
    }
}

impl TaskParams {
    /// The mapping's keys are unique.
    pub closed spec fn wf(&self) -> bool {
        self.params.wf()
    }

    /// Validates a raw bag against a schema. Each definition, in schema
    /// order, is bound to the provided value (checked against the
    /// declared kind, with no coercion), to the default, or to an
    /// empty-string sentinel; the first missing required parameter or
    /// kind mismatch aborts the whole validation. With duplicate
    /// definition names the last one wins.
    #[verifier::loop_isolation(false)]
    pub fn validate(definitions: &Vec<ParamDefinition>, raw: &StrMap<Value>) -> (r: Result<
        StrMap<Value>,
        AppError,
    >)
        requires
            raw.wf(),
        ensures
            match r {
                Ok(m) => m.wf() && (validate_model(def_models(definitions@), raw@) matches Ok(v)
                    && v == m@),
                Err(e) => (validate_model(def_models(definitions@), raw@) matches Err(f)
                    && f == e@),
            },
    {
        let ghost dm = def_models(definitions@);
        let mut out: StrMap<Value> = StrMap::new();
        let mut i: usize = 0;
        while i < definitions.len()
            invariant
                out.wf(),
                i <= definitions@.len(),
                validate_model(dm.subrange(0, i as int), raw@) matches Ok(v) && v == out@,
            decreases definitions@.len() - i,
        {
            let def = &definitions[i];
            proof {
                assert(dm.subrange(0, i + 1).subrange(0, i as int) =~= dm.subrange(0, i as int));
                assert(dm.subrange(0, i + 1)[i as int] == dm[i as int]);
                assert(dm[i as int] == definitions@[i as int]@);
            }
            match raw.get(def.name.as_str()) {
                Some(v) => {
                    match validate_type(&def.name, v, def.param_type) {
                        Ok(_) => {
                            out.insert(def.name.clone(), v.clone());
                        },
                        Err(e) => {
                            proof {
                                lemma_validate_error(dm, raw@, i as int);
                            }
                            return Err(e);
                        },
                    }
                },
                None => {
                    if def.required {
                        proof {
                            lemma_validate_error(dm, raw@, i as int);
                        }
                        return Err(AppError::MissingRequired(def.name.clone()));
                    } else {
                        let fallback = match &def.default {
                            Some(d) => d.clone(),
                            None => Value::String(String::new()),
                        };
                        out.insert(def.name.clone(), fallback);
                    }
                },
            }
            i += 1;
        }
        proof {
            assert(dm.subrange(0, definitions@.len() as int) =~= dm);
        }
        Ok(out)
    }

    /// Validates a raw bag against a schema and wraps the result.
    pub fn new(definitions: Vec<ParamDefinition>, raw: &StrMap<Value>) -> (r: Result<
        TaskParams,
        AppError,
    >)
        requires
            raw.wf(),
        ensures
            match r {
                Ok(p) => p.wf() && (validate_model(def_models(definitions@), raw@) matches Ok(v)
                    && v == p@),
                Err(e) => (validate_model(def_models(definitions@), raw@) matches Err(f)
                    && f == e@),
            },
    {
        match Self::validate(&definitions, raw) {
            Ok(params) => Ok(TaskParams { definitions, params }),
            Err(e) => Err(e),
        }
    }

    /// The bound string value of a parameter, if it is bound to a string.
    pub fn get_string(&self, key: &str) -> (r: Option<String>)
        requires
            self.wf(),
        ensures
            match r {
                Some(s) => self@.contains_key(key@) && self@[key@] == ValueModel::Str(s@),
                None => !(self@.contains_key(key@) && self@[key@] is Str),
            },
    {
        match self.params.get(key) {
            Some(v) => match v {
                Value::String(s) => Some(s.clone()),
                _ => None,
            },
            None => None,
        }
    }

    /// The bound string value of a parameter, or the given fallback.
    pub fn get_string_or(&self, key: &str, default: &str) -> (r: String)
        requires
            self.wf(),
        ensures
            r@ == if self@.contains_key(key@) && self@[key@] is Str {
                self@[key@]->Str_0
            } else {
                default@
            },
    {
        match self.get_string(key) {
            Some(s) => s,
            None => default.to_owned(),
        }
    }

    /// The bound boolean value of a parameter, if it is bound to a
    /// boolean.
    pub fn get_bool(&self, key: &str) -> (r: Option<bool>)
        requires
            self.wf(),
        ensures
            match r {
                Some(b) => self@.contains_key(key@) && self@[key@] == ValueModel::Bool(b),
                None => !(self@.contains_key(key@) && self@[key@] is Bool),
            },
    {
        match self.params.get(key) {
            Some(v) => match v {
                Value::Bool(b) => Some(*b),
                _ => None,
            },
            None => None,
        }
    }

    /// The bound boolean value of a parameter, or the given fallback.
    pub fn get_bool_or(&self, key: &str, default: bool) -> (r: bool)
        requires
            self.wf(),
        ensures
            r == if self@.contains_key(key@) && self@[key@] is Bool {
                self@[key@]->Bool_0
            } else {
                default
            },
    {
        match self.get_bool(key) {
            Some(b) => b,
            None => default,
        }
    }

    /// The bound integer value of a parameter, if it is bound to an
    /// integer.
    pub fn get_int(&self, key: &str) -> (r: Option<i64>)
        requires
            self.wf(),
        ensures
            match r {
                Some(n) => self@.contains_key(key@) && self@[key@] == ValueModel::Int(n),
                None => !(self@.contains_key(key@) && self@[key@] is Int),
            },
    {
        match self.params.get(key) {
            Some(v) => match v {
                Value::Integer(n) => Some(*n),
                _ => None,
            },
            None => None,
        }
    }

    /// The bound integer value of a parameter, or the given fallback.
    pub fn get_int_or(&self, key: &str, default: i64) -> (r: i64)
        requires
            self.wf(),
        ensures
            r == if self@.contains_key(key@) && self@[key@] is Int {
                self@[key@]->Int_0
            } else {
                default
            },
    {
        match self.get_int(key) {
            Some(n) => n,
            None => default,
        }
    }

    /// The IEEE-754 bit pattern of a parameter's floating-point value, if
    /// it is bound to one.
    pub fn get_float_bits(&self, key: &str) -> (r: Option<u64>)
        requires
            self.wf(),
        ensures
            match r {
                Some(bits) => self@.contains_key(key@) && self@[key@] == ValueModel::FloatBits(
                    bits,
                ),
                None => !(self@.contains_key(key@) && self@[key@] is FloatBits),
            },
    {
        match self.params.get(key) {
            Some(v) => match v {
                Value::Float(bits) => Some(*bits),
                _ => None,
            },
            None => None,
        }
    }

    /// The bit pattern of a parameter's floating-point value, or the
    /// given fallback.
    pub fn get_float_bits_or(&self, key: &str, default: u64) -> (r: u64)
        requires
            self.wf(),
        ensures
            r == if self@.contains_key(key@) && self@[key@] is FloatBits {
                self@[key@]->FloatBits_0
            } else {
                default
            },
    {
        match self.get_float_bits(key) {
            Some(bits) => bits,
            None => default,
        }
    }

    /// The bound array value of a parameter, if it is bound to an array.
    pub fn get_array(&self, key: &str) -> (r: Option<&Vec<Value>>)
        requires
            self.wf(),
        ensures
            match r {
                Some(items) => self@.contains_key(key@) && self@[key@] == ValueModel::Array(
                    value_models(items@),
                ),
                None => !(self@.contains_key(key@) && self@[key@] is Array),
            },
    {
        match self.params.get(key) {
            Some(v) => match v {
                Value::Array(items) => Some(items),
                _ => None,
            },
            None => None,
        }
    }

    /// Whether a parameter is bound.
    pub fn has(&self, key: &str) -> (r: bool)
        requires
            self.wf(),
        ensures
            r == self@.contains_key(key@),
    {
        self.params.contains(key)
    }

    /// The full validated mapping, for dynamic access.
    pub fn all(&self) -> (r: &StrMap<Value>)
        requires
            self.wf(),
        ensures
            r.wf(),
            r@ == self@,
    {
        &self.params
    }
}

} // verus!
