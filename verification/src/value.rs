//! The generic value bridge: a dynamic value as a loosely typed host hands
//! it over, a canonical JSON value as the contract model stores it, and the
//! total, recursive codec between the two.

use vstd::prelude::*;

verus! {

// ---------------------------------------------------------------------------
// Mathematical models
// ---------------------------------------------------------------------------

/// Model of a dynamic host value. A floating-point number is opaque to
/// this library: it is carried as its IEEE-754 bit pattern together with
/// the host's JSON rendering of it, and only routed, never computed on.
#[verifier::ext_equal]
pub enum ValueModel {
    Absent,
    Boolean(bool),
    Integer(i64),
    Float(u64, Seq<char>),
    Text(Seq<char>),
    Sequence(Seq<ValueModel>),
    Mapping(Seq<(Seq<char>, ValueModel)>),
    Opaque(Seq<char>),
}

/// Model of a canonical JSON value. Integer and floating nodes are kept
/// distinct, which is what lets the codec restore the host's
/// integer-versus-float distinction.
#[verifier::ext_equal]
pub enum JsonModel {
    Null,
    Bool(bool),
    Int(i64),
    Float(u64, Seq<char>),
    Text(Seq<char>),
    Array(Seq<JsonModel>),
    Object(Seq<(Seq<char>, JsonModel)>),
}

// ---------------------------------------------------------------------------
// Executable values
// ---------------------------------------------------------------------------

/// A value as the host hands it over: one of the shapes of the fixed
/// taxonomy, or `Opaque`, which stands for a host value of any other kind
/// and carries the host's name for its type.
#[derive(Debug, PartialEq, Eq)]
pub enum DynamicValue {
    Absent,
    Boolean(bool),
    Integer(i64),
    Float(u64, String),
    Text(String),
    Sequence(Vec<DynamicValue>),
    Mapping(Vec<(String, DynamicValue)>),
    Opaque(String),
}

/// A canonical JSON value. Object entries keep their insertion order.
#[derive(Debug, PartialEq, Eq)]
pub enum JsonValue {
    Null,
    Bool(bool),
    Int(i64),
    Float(u64, String),
    Text(String),
    Array(Vec<JsonValue>),
    Object(Vec<(String, JsonValue)>),
}

// ---------------------------------------------------------------------------
// Views
// ---------------------------------------------------------------------------

pub open spec fn value_model(v: DynamicValue) -> ValueModel
    decreases v,
{
    match v {
        DynamicValue::Absent => ValueModel::Absent,
        DynamicValue::Boolean(b) => ValueModel::Boolean(b),
        DynamicValue::Integer(i) => ValueModel::Integer(i),
        DynamicValue::Float(bits, token) => ValueModel::Float(bits, token@),
        DynamicValue::Text(s) => ValueModel::Text(s@),
        DynamicValue::Sequence(items) => ValueModel::Sequence(value_model_seq(items@)),
        DynamicValue::Mapping(entries) => ValueModel::Mapping(value_model_entries(entries@)),
        DynamicValue::Opaque(name) => ValueModel::Opaque(name@),
    }
}

pub open spec fn value_model_seq(s: Seq<DynamicValue>) -> Seq<ValueModel>
    decreases s,
{
    if s.len() == 0 {
        Seq::empty()
    } else {
        seq![value_model(s[0])] + value_model_seq(s.subrange(1, s.len() as int))
    }
}

pub open spec fn value_model_entries(s: Seq<(String, DynamicValue)>) -> Seq<
    (Seq<char>, ValueModel),
>
    decreases s,
{
    if s.len() == 0 {
        Seq::empty()
    } else {
        seq![(s[0].0@, value_model(s[0].1))] + value_model_entries(s.subrange(1, s.len() as int))
    }
}

impl View for DynamicValue {
    type V = ValueModel;

    open spec fn view(&self) -> ValueModel {
        value_model(*self)
    }
}

pub open spec fn json_model(v: JsonValue) -> JsonModel
    decreases v,
{
    match v {
        JsonValue::Null => JsonModel::Null,
        JsonValue::Bool(b) => JsonModel::Bool(b),
        JsonValue::Int(i) => JsonModel::Int(i),
        JsonValue::Float(bits, token) => JsonModel::Float(bits, token@),
        JsonValue::Text(s) => JsonModel::Text(s@),
        JsonValue::Array(items) => JsonModel::Array(json_model_seq(items@)),
        JsonValue::Object(entries) => JsonModel::Object(json_model_entries(entries@)),
    }
}

pub open spec fn json_model_seq(s: Seq<JsonValue>) -> Seq<JsonModel>
    decreases s,
{
    if s.len() == 0 {
        Seq::empty()
    } else {
        seq![json_model(s[0])] + json_model_seq(s.subrange(1, s.len() as int))
    }
}

pub open spec fn json_model_entries(s: Seq<(String, JsonValue)>) -> Seq<(Seq<char>, JsonModel)>
    decreases s,
{
    if s.len() == 0 {
        Seq::empty()
    } else {
        seq![(s[0].0@, json_model(s[0].1))] + json_model_entries(s.subrange(1, s.len() as int))
    }
}

impl View for JsonValue {
    type V = JsonModel;

    open spec fn view(&self) -> JsonModel {
        json_model(*self)
    }
}

// ---------------------------------------------------------------------------
// Index characterizations of the view helpers
// ---------------------------------------------------------------------------

pub proof fn lemma_value_model_seq(s: Seq<DynamicValue>)
    ensures
        value_model_seq(s).len() == s.len(),
        forall|i: int| 0 <= i < s.len() ==> value_model_seq(s)[i] == value_model(s[i]),
    decreases s,
{
    if s.len() > 0 {
        lemma_value_model_seq(s.subrange(1, s.len() as int));
    }
}

pub proof fn lemma_value_model_entries(s: Seq<(String, DynamicValue)>)
    ensures
        value_model_entries(s).len() == s.len(),
        forall|i: int|
            0 <= i < s.len() ==> value_model_entries(s)[i] == (s[i].0@, value_model(s[i].1)),
    decreases s,
{
    if s.len() > 0 {
        lemma_value_model_entries(s.subrange(1, s.len() as int));
    }
}

pub proof fn lemma_json_model_seq(s: Seq<JsonValue>)
    ensures
        json_model_seq(s).len() == s.len(),
        forall|i: int| 0 <= i < s.len() ==> json_model_seq(s)[i] == json_model(s[i]),
    decreases s,
{
    if s.len() > 0 {
        lemma_json_model_seq(s.subrange(1, s.len() as int));
    }
}

pub proof fn lemma_json_model_entries(s: Seq<(String, JsonValue)>)
    ensures
        json_model_entries(s).len() == s.len(),
        forall|i: int|
            0 <= i < s.len() ==> json_model_entries(s)[i] == (s[i].0@, json_model(s[i].1)),
    decreases s,
{
    if s.len() > 0 {
        lemma_json_model_entries(s.subrange(1, s.len() as int));
    }
}

// ---------------------------------------------------------------------------
// Finite floating-point bit patterns
// ---------------------------------------------------------------------------

/// An IEEE-754 double is finite exactly when its exponent bits are not all
/// ones.
pub open spec fn spec_finite_bits(bits: u64) -> bool {
    (bits >> 52) & 0x7ff != 0x7ff
}

pub fn finite_bits(bits: u64) -> (r: bool)
    ensures
        r == spec_finite_bits(bits),
{
    (bits >> 52) & 0x7ff != 0x7ff
}

// ---------------------------------------------------------------------------
// The codec, on models
// ---------------------------------------------------------------------------

/// Canonical JSON form of a dynamic value; the error carries the host's
/// type name of the leftmost value of an unrecognized kind. A non-finite
/// floating value has no JSON form and collapses to a null node.
pub open spec fn to_canon(m: ValueModel) -> Result<JsonModel, Seq<char>>
    decreases m,
{
    match m {
        ValueModel::Absent => Ok(JsonModel::Null),
        ValueModel::Boolean(b) => Ok(JsonModel::Bool(b)),
        ValueModel::Integer(i) => Ok(JsonModel::Int(i)),
        ValueModel::Float(bits, token) => Ok(
            if spec_finite_bits(bits) {
                JsonModel::Float(bits, token)
            } else {
                JsonModel::Null
            },
        ),
        ValueModel::Text(s) => Ok(JsonModel::Text(s)),
        ValueModel::Sequence(items) => match to_canon_seq(items) {
            Ok(a) => Ok(JsonModel::Array(a)),
            Err(e) => Err(e),
        },
        ValueModel::Mapping(entries) => match to_canon_entries(entries) {
            Ok(o) => Ok(JsonModel::Object(o)),
            Err(e) => Err(e),
        },
        ValueModel::Opaque(name) => Err(name),
    }
}

pub open spec fn to_canon_seq(s: Seq<ValueModel>) -> Result<Seq<JsonModel>, Seq<char>>
    decreases s,
{
    if s.len() == 0 {
        Ok(Seq::empty())
    } else {
        match to_canon(s[0]) {
            Err(e) => Err(e),
            Ok(j) => match to_canon_seq(s.subrange(1, s.len() as int)) {
                Err(e) => Err(e),
                Ok(rest) => Ok(seq![j] + rest),
            },
        }
    }
}

pub open spec fn to_canon_entries(s: Seq<(Seq<char>, ValueModel)>) -> Result<
    Seq<(Seq<char>, JsonModel)>,
    Seq<char>,
>
    decreases s,
{
    if s.len() == 0 {
        Ok(Seq::empty())
    } else {
        match to_canon(s[0].1) {
            Err(e) => Err(e),
            Ok(j) => match to_canon_entries(s.subrange(1, s.len() as int)) {
                Err(e) => Err(e),
                Ok(rest) => Ok(seq![(s[0].0, j)] + rest),
            },
        }
    }
}

/// Dynamic form of a canonical JSON value, total: a null node comes back as
/// the absent value, integer and floating nodes keep their distinction.
pub open spec fn from_canon(j: JsonModel) -> ValueModel
    decreases j,
{
    match j {
        JsonModel::Null => ValueModel::Absent,
        JsonModel::Bool(b) => ValueModel::Boolean(b),
        JsonModel::Int(i) => ValueModel::Integer(i),
        JsonModel::Float(bits, token) => ValueModel::Float(bits, token),
        JsonModel::Text(s) => ValueModel::Text(s),
        JsonModel::Array(items) => ValueModel::Sequence(from_canon_seq(items)),
        JsonModel::Object(entries) => ValueModel::Mapping(from_canon_entries(entries)),
    }
}

pub open spec fn from_canon_seq(s: Seq<JsonModel>) -> Seq<ValueModel>
    decreases s,
{
    if s.len() == 0 {
        Seq::empty()
    } else {
        seq![from_canon(s[0])] + from_canon_seq(s.subrange(1, s.len() as int))
    }
}

pub open spec fn from_canon_entries(s: Seq<(Seq<char>, JsonModel)>) -> Seq<
    (Seq<char>, ValueModel),
>
    decreases s,
{
    if s.len() == 0 {
        Seq::empty()
    } else {
        seq![(s[0].0, from_canon(s[0].1))] + from_canon_entries(s.subrange(1, s.len() as int))
    }
}

// ---------------------------------------------------------------------------
// Stepping lemmas for the codec helpers
// ---------------------------------------------------------------------------

pub proof fn lemma_to_canon_seq_step(s: Seq<ValueModel>, i: int)
    requires
        0 <= i <= s.len(),
        to_canon_seq(s.take(i)) is Ok,
    ensures
        i == s.len() ==> to_canon_seq(s) == to_canon_seq(s.take(i)),
        i < s.len() && to_canon(s[i]) is Err ==> to_canon_seq(s) == Err::<
            Seq<JsonModel>,
            Seq<char>,
        >(to_canon(s[i])->Err_0),
        i < s.len() && to_canon(s[i]) is Ok ==> to_canon_seq(s.take(i + 1)) == Ok::<
            Seq<JsonModel>,
            Seq<char>,
        >(to_canon_seq(s.take(i))->Ok_0.push(to_canon(s[i])->Ok_0)),
    decreases s,
{
    if i == s.len() {
        assert(s.take(i) =~= s);
    } else if i == 0 {
        assert(s.take(0) =~= Seq::<ValueModel>::empty());
        if to_canon(s[0]) is Ok {
            assert(s.take(1) =~= seq![s[0]]);
            assert(s.take(1).subrange(1, 1) =~= Seq::<ValueModel>::empty());
            assert(to_canon_seq(s.take(1)) == Ok::<Seq<JsonModel>, Seq<char>>(
                seq![to_canon(s[0])->Ok_0],
            ));
            assert(seq![to_canon(s[0])->Ok_0] =~= Seq::<JsonModel>::empty().push(
                to_canon(s[0])->Ok_0,
            ));
        }
    } else {
        let rest = s.subrange(1, s.len() as int);
        assert(s.take(i)[0] == s[0]);
        assert(s.take(i).subrange(1, i) =~= rest.take(i - 1));
        assert(to_canon(s[0]) is Ok && to_canon_seq(rest.take(i - 1)) is Ok);
        lemma_to_canon_seq_step(rest, i - 1);
        if to_canon(s[i]) is Err {
            assert(rest[i - 1] == s[i]);
        } else {
            assert(rest[i - 1] == s[i]);
            assert(s.take(i + 1)[0] == s[0]);
            assert(s.take(i + 1).subrange(1, i + 1) =~= rest.take(i));
            assert(seq![to_canon(s[0])->Ok_0] + to_canon_seq(rest.take(i - 1))->Ok_0.push(
                to_canon(s[i])->Ok_0,
            ) =~= (seq![to_canon(s[0])->Ok_0] + to_canon_seq(rest.take(i - 1))->Ok_0).push(
                to_canon(s[i])->Ok_0,
            ));
        }
    }
}

pub proof fn lemma_to_canon_entries_step(s: Seq<(Seq<char>, ValueModel)>, i: int)
    requires
        0 <= i <= s.len(),
        to_canon_entries(s.take(i)) is Ok,
    ensures
        i == s.len() ==> to_canon_entries(s) == to_canon_entries(s.take(i)),
        i < s.len() && to_canon(s[i].1) is Err ==> to_canon_entries(s) == Err::<
            Seq<(Seq<char>, JsonModel)>,
            Seq<char>,
        >(to_canon(s[i].1)->Err_0),
        i < s.len() && to_canon(s[i].1) is Ok ==> to_canon_entries(s.take(i + 1)) == Ok::<
            Seq<(Seq<char>, JsonModel)>,
            Seq<char>,
        >(to_canon_entries(s.take(i))->Ok_0.push((s[i].0, to_canon(s[i].1)->Ok_0))),
    decreases s,
{
    if i == s.len() {
        assert(s.take(i) =~= s);
    } else if i == 0 {
        assert(s.take(0) =~= Seq::<(Seq<char>, ValueModel)>::empty());
        if to_canon(s[0].1) is Ok {
            assert(s.take(1) =~= seq![s[0]]);
            assert(s.take(1).subrange(1, 1) =~= Seq::<(Seq<char>, ValueModel)>::empty());
            assert(to_canon_entries(s.take(1)) == Ok::<Seq<(Seq<char>, JsonModel)>, Seq<char>>(
                seq![(s[0].0, to_canon(s[0].1)->Ok_0)],
            ));
            assert(seq![(s[0].0, to_canon(s[0].1)->Ok_0)] =~= Seq::<
                (Seq<char>, JsonModel),
            >::empty().push((s[0].0, to_canon(s[0].1)->Ok_0)));
        }
    } else {
        let rest = s.subrange(1, s.len() as int);
        assert(s.take(i)[0] == s[0]);
        assert(s.take(i).subrange(1, i) =~= rest.take(i - 1));
        assert(to_canon(s[0].1) is Ok && to_canon_entries(rest.take(i - 1)) is Ok);
        lemma_to_canon_entries_step(rest, i - 1);
        if to_canon(s[i].1) is Err {
            assert(rest[i - 1] == s[i]);
        } else {
            assert(rest[i - 1] == s[i]);
            assert(s.take(i + 1)[0] == s[0]);
            assert(s.take(i + 1).subrange(1, i + 1) =~= rest.take(i));
            assert(seq![(s[0].0, to_canon(s[0].1)->Ok_0)] + to_canon_entries(
                rest.take(i - 1),
            )->Ok_0.push((s[i].0, to_canon(s[i].1)->Ok_0)) =~= (seq![
                (s[0].0, to_canon(s[0].1)->Ok_0),
            ] + to_canon_entries(rest.take(i - 1))->Ok_0).push((s[i].0, to_canon(s[i].1)->Ok_0)));
        }
    }
}

pub proof fn lemma_from_canon_seq(s: Seq<JsonModel>)
    ensures
        from_canon_seq(s).len() == s.len(),
        forall|i: int| 0 <= i < s.len() ==> from_canon_seq(s)[i] == from_canon(s[i]),
    decreases s,
{
    if s.len() > 0 {
        lemma_from_canon_seq(s.subrange(1, s.len() as int));
    }
}

pub proof fn lemma_from_canon_entries(s: Seq<(Seq<char>, JsonModel)>)
    ensures
        from_canon_entries(s).len() == s.len(),
        forall|i: int|
            0 <= i < s.len() ==> from_canon_entries(s)[i] == (s[i].0, from_canon(s[i].1)),
    decreases s,
{
    if s.len() > 0 {
        lemma_from_canon_entries(s.subrange(1, s.len() as int));
    }
}

// ---------------------------------------------------------------------------
// Errors
// ---------------------------------------------------------------------------

/// A host value outside the fixed taxonomy cannot be converted; the error
/// names the host's type of the offending value.
#[derive(Debug, PartialEq, Eq)]
pub struct ConversionError {
    pub offending_type: String,
}

impl View for ConversionError {
    type V = Seq<char>;

    open spec fn view(&self) -> Seq<char> {
        self.offending_type@
    }
}

// ---------------------------------------------------------------------------
// The codec, executable
// ---------------------------------------------------------------------------

/// Converts a dynamic value to canonical JSON; total over the fixed
/// taxonomy, and an error exactly on values that hold an opaque node.
#[verifier::loop_isolation(false)]
pub fn to_canonical(v: &DynamicValue) -> (r: Result<JsonValue, ConversionError>)
    ensures
        match r {
            Ok(j) => to_canon(v@) == Ok::<JsonModel, Seq<char>>(j@),
            Err(e) => to_canon(v@) == Err::<JsonModel, Seq<char>>(e@),
        },
    decreases v,
{
    match v {
        DynamicValue::Absent => Ok(JsonValue::Null),
        DynamicValue::Boolean(b) => Ok(JsonValue::Bool(*b)),
        DynamicValue::Integer(i) => Ok(JsonValue::Int(*i)),
        DynamicValue::Float(bits, token) => {
            if finite_bits(*bits) {
                Ok(JsonValue::Float(*bits, token.clone()))
            } else {
                Ok(JsonValue::Null)
            }
        },
        DynamicValue::Text(s) => Ok(JsonValue::Text(s.clone())),
        DynamicValue::Opaque(name) => Err(ConversionError { offending_type: name.clone() }),
        DynamicValue::Sequence(items) => {
            let ghost sm = value_model_seq(items@);
            proof {
                lemma_value_model_seq(items@);
            }
            let mut out: Vec<JsonValue> = Vec::new();
            let mut i: usize = 0;
            while i < items.len()
                invariant
                    i <= items.len(),
                    to_canon_seq(sm.take(i as int)) == Ok::<Seq<JsonModel>, Seq<char>>(
                        json_model_seq(out@),
                    ),
                decreases items.len() - i,
            {
                proof {
                    assert(decreases_to!(*v => *items));
                    assert(decreases_to!(*items => items@[i as int]));
                }
                let sub = to_canonical(&items[i]);
                proof {
                    lemma_to_canon_seq_step(sm, i as int);
                }
                match sub {
                    Ok(j) => {
                        proof {
                            lemma_json_model_seq(out@);
                            lemma_json_model_seq(out@.push(j));
                            assert(out@.push(j).subrange(0, out@.len() as int) =~= out@);
                            assert(json_model_seq(out@.push(j)) =~= json_model_seq(out@).push(j@));
                        }
                        out.push(j);
                    },
                    Err(e) => {
                        return Err(e);
                    },
                }
                i = i + 1;
            }
            proof {
                assert(sm.take(items@.len() as int) =~= sm);
            }
            Ok(JsonValue::Array(out))
        },
        DynamicValue::Mapping(entries) => {
            let ghost sm = value_model_entries(entries@);
            proof {
                lemma_value_model_entries(entries@);
            }
            let mut out: Vec<(String, JsonValue)> = Vec::new();
            let mut i: usize = 0;
            while i < entries.len()
                invariant
                    i <= entries.len(),
                    to_canon_entries(sm.take(i as int)) == Ok::<
                        Seq<(Seq<char>, JsonModel)>,
                        Seq<char>,
                    >(json_model_entries(out@)),
                decreases entries.len() - i,
            {
                proof {
                    assert(decreases_to!(*v => *entries));
                    assert(decreases_to!(*entries => entries@[i as int]));
                    assert(decreases_to!(entries@[i as int] => entries@[i as int].1));
                }
                let sub = to_canonical(&entries[i].1);
                proof {
                    lemma_to_canon_entries_step(sm, i as int);
                }
                match sub {
                    Ok(j) => {
                        let k = entries[i].0.clone();
                        proof {
                            lemma_json_model_entries(out@);
                            lemma_json_model_entries(out@.push((k, j)));
                            assert(out@.push((k, j)).subrange(0, out@.len() as int) =~= out@);
                            assert(json_model_entries(out@.push((k, j))) =~= json_model_entries(
                                out@,
                            ).push((k@, j@)));
                        }
                        out.push((k, j));
                    },
                    Err(e) => {
                        return Err(e);
                    },
                }
                i = i + 1;
            }
            proof {
                assert(sm.take(entries@.len() as int) =~= sm);
            }
            Ok(JsonValue::Object(out))
        },
    }
}

/// Converts a canonical JSON value back to a dynamic value, for returning
/// results to the host. Total.
#[verifier::loop_isolation(false)]
pub fn from_canonical(j: &JsonValue) -> (r: DynamicValue)
    ensures
        r@ == from_canon(j@),
    decreases j,
{
    match j {
        JsonValue::Null => DynamicValue::Absent,
        JsonValue::Bool(b) => DynamicValue::Boolean(*b),
        JsonValue::Int(i) => DynamicValue::Integer(*i),
        JsonValue::Float(bits, token) => DynamicValue::Float(*bits, token.clone()),
        JsonValue::Text(s) => DynamicValue::Text(s.clone()),
        JsonValue::Array(items) => {
            let ghost jm = json_model_seq(items@);
            proof {
                lemma_json_model_seq(items@);
                lemma_from_canon_seq(jm);
            }
            let mut out: Vec<DynamicValue> = Vec::new();
            let mut i: usize = 0;
            while i < items.len()
                invariant
                    i <= items.len(),
                    out@.len() == i,
                    value_model_seq(out@) =~= from_canon_seq(jm).take(i as int),
                decreases items.len() - i,
            {
                proof {
                    assert(decreases_to!(*j => *items));
                    assert(decreases_to!(*items => items@[i as int]));
                }
                let sub = from_canonical(&items[i]);
                proof {
                    lemma_value_model_seq(out@);
                    lemma_value_model_seq(out@.push(sub));
                    assert(out@.push(sub).subrange(0, out@.len() as int) =~= out@);
                    assert(value_model_seq(out@.push(sub)) =~= from_canon_seq(jm).take(
                        i as int + 1,
                    ));
                }
                out.push(sub);
                i = i + 1;
            }
            proof {
                assert(from_canon_seq(jm).take(items@.len() as int) =~= from_canon_seq(jm));
            }
            DynamicValue::Sequence(out)
        },
        JsonValue::Object(entries) => {
            let ghost jm = json_model_entries(entries@);
            proof {
                lemma_json_model_entries(entries@);
                lemma_from_canon_entries(jm);
            }
            let mut out: Vec<(String, DynamicValue)> = Vec::new();
            let mut i: usize = 0;
            while i < entries.len()
                invariant
                    i <= entries.len(),
                    out@.len() == i,
                    value_model_entries(out@) =~= from_canon_entries(jm).take(i as int),
                decreases entries.len() - i,
            {
                proof {
                    assert(decreases_to!(*j => *entries));
                    assert(decreases_to!(*entries => entries@[i as int]));
                    assert(decreases_to!(entries@[i as int] => entries@[i as int].1));
                }
                let sub = from_canonical(&entries[i].1);
                let k = entries[i].0.clone();
                proof {
                    lemma_value_model_entries(out@);
                    lemma_value_model_entries(out@.push((k, sub)));
                    assert(out@.push((k, sub)).subrange(0, out@.len() as int) =~= out@);
                    assert(value_model_entries(out@.push((k, sub))) =~= from_canon_entries(
                        jm,
                    ).take(i as int + 1));
                }
                out.push((k, sub));
                i = i + 1;
            }
            proof {
                assert(from_canon_entries(jm).take(entries@.len() as int) =~= from_canon_entries(
                    jm,
                ));
            }
            DynamicValue::Mapping(out)
        },
    }
}

// ---------------------------------------------------------------------------
// Deep copy
// ---------------------------------------------------------------------------

impl JsonValue {
    /// A deep copy whose model provably equals this value's model.
    #[verifier::loop_isolation(false)]
    pub fn duplicate(&self) -> (r: JsonValue)
        ensures
            r@ == self@,
        decreases self,
    {
        match self {
            JsonValue::Null => JsonValue::Null,
            JsonValue::Bool(b) => JsonValue::Bool(*b),
            JsonValue::Int(i) => JsonValue::Int(*i),
            JsonValue::Float(bits, token) => JsonValue::Float(*bits, token.clone()),
            JsonValue::Text(s) => JsonValue::Text(s.clone()),
            JsonValue::Array(items) => {
                proof {
                    lemma_json_model_seq(items@);
                }
                let mut out: Vec<JsonValue> = Vec::new();
                let mut i: usize = 0;
                while i < items.len()
                    invariant
                        i <= items.len(),
                        out@.len() == i,
                        json_model_seq(out@) =~= json_model_seq(items@).take(i as int),
                    decreases items.len() - i,
                {
                    proof {
                        assert(decreases_to!(*self => *items));
                        assert(decreases_to!(*items => items@[i as int]));
                    }
                    let sub = items[i].duplicate();
                    proof {
                        lemma_json_model_seq(out@);
                        lemma_json_model_seq(out@.push(sub));
                        assert(out@.push(sub).subrange(0, out@.len() as int) =~= out@);
                        assert(json_model_seq(out@.push(sub)) =~= json_model_seq(items@).take(
                            i as int + 1,
                        ));
                    }
                    out.push(sub);
                    i = i + 1;
                }
                proof {
                    assert(json_model_seq(items@).take(items@.len() as int) =~= json_model_seq(
                        items@,
                    ));
                }
                JsonValue::Array(out)
            },
            JsonValue::Object(entries) => {
                proof {
                    lemma_json_model_entries(entries@);
                }
                let mut out: Vec<(String, JsonValue)> = Vec::new();
                let mut i: usize = 0;
                while i < entries.len()
                    invariant
                        i <= entries.len(),
                        out@.len() == i,
                        json_model_entries(out@) =~= json_model_entries(entries@).take(i as int),
                    decreases entries.len() - i,
                {
                    proof {
                        assert(decreases_to!(*self => *entries));
                        assert(decreases_to!(*entries => entries@[i as int]));
                        assert(decreases_to!(entries@[i as int] => entries@[i as int].1));
                    }
                    let sub = entries[i].1.duplicate();
                    let k = entries[i].0.clone();
                    proof {
                        lemma_json_model_entries(out@);
                        lemma_json_model_entries(out@.push((k, sub)));
                        assert(out@.push((k, sub)).subrange(0, out@.len() as int) =~= out@);
                        assert(json_model_entries(out@.push((k, sub))) =~= json_model_entries(
                            entries@,
                        ).take(i as int + 1));
                    }
                    out.push((k, sub));
                    i = i + 1;
                }
                proof {
                    assert(json_model_entries(entries@).take(entries@.len() as int)
                        =~= json_model_entries(entries@));
                }
                JsonValue::Object(out)
            },
        }
    }
}

// ---------------------------------------------------------------------------
// Shape names, for diagnostics
// ---------------------------------------------------------------------------

pub open spec fn spec_shape_name(m: ValueModel) -> Seq<char> {
    match m {
        ValueModel::Absent => "null"@,
        ValueModel::Boolean(_) => "boolean"@,
        ValueModel::Integer(_) => "integer"@,
        ValueModel::Float(_, _) => "float"@,
        ValueModel::Text(_) => "string"@,
        ValueModel::Sequence(_) => "sequence"@,
        ValueModel::Mapping(_) => "mapping"@,
        ValueModel::Opaque(name) => name,
    }
}

impl DynamicValue {
    /// The name of this value's shape, as diagnostics report it; an opaque
    /// value reports the host's type name it carries.
    pub fn shape_name(&self) -> (r: String)
        ensures
            r@ == spec_shape_name(self@),
    {
        match self {
            DynamicValue::Absent => String::from_str("null"),
            DynamicValue::Boolean(_) => String::from_str("boolean"),
            DynamicValue::Integer(_) => String::from_str("integer"),
            DynamicValue::Float(_, _) => String::from_str("float"),
            DynamicValue::Text(_) => String::from_str("string"),
            DynamicValue::Sequence(_) => String::from_str("sequence"),
            DynamicValue::Mapping(_) => String::from_str("mapping"),
            DynamicValue::Opaque(name) => name.clone(),
        }
    }
}

// ---------------------------------------------------------------------------
// The round trip
// ---------------------------------------------------------------------------

/// A value is fully convertible when no part of it is opaque and every
/// floating value in it is finite.
pub open spec fn fully_convertible(m: ValueModel) -> bool
    decreases m,
{
    match m {
        ValueModel::Float(bits, _) => spec_finite_bits(bits),
        ValueModel::Opaque(_) => false,
        ValueModel::Sequence(items) => fully_convertible_seq(items),
        ValueModel::Mapping(entries) => fully_convertible_entries(entries),
        _ => true,
    }
}

pub open spec fn fully_convertible_seq(s: Seq<ValueModel>) -> bool
    decreases s,
{
    s.len() == 0 || (fully_convertible(s[0]) && fully_convertible_seq(
        s.subrange(1, s.len() as int),
    ))
}

pub open spec fn fully_convertible_entries(s: Seq<(Seq<char>, ValueModel)>) -> bool
    decreases s,
{
    s.len() == 0 || (fully_convertible(s[0].1) && fully_convertible_entries(
        s.subrange(1, s.len() as int),
    ))
}

/// Round trip: a fully convertible dynamic value converts to canonical JSON
/// and converts back to the very same value, order of sequence elements and
/// the key sequence of mappings included.
pub proof fn lemma_round_trip(m: ValueModel)
    requires
        fully_convertible(m),
    ensures
        to_canon(m) is Ok,
        from_canon(to_canon(m)->Ok_0) == m,
    decreases m,
{
    match m {
        ValueModel::Sequence(items) => {
            lemma_round_trip_seq(items);
        },
        ValueModel::Mapping(entries) => {
            lemma_round_trip_entries(entries);
        },
        _ => {},
    }
}

pub proof fn lemma_round_trip_seq(items: Seq<ValueModel>)
    requires
        fully_convertible_seq(items),
    ensures
        to_canon_seq(items) is Ok,
        from_canon_seq(to_canon_seq(items)->Ok_0) == items,
    decreases items,
{
    if items.len() == 0 {
        assert(from_canon_seq(to_canon_seq(items)->Ok_0) =~= items);
    } else {
        let rest = items.subrange(1, items.len() as int);
        lemma_round_trip(items[0]);
        lemma_round_trip_seq(rest);
        let whole = to_canon_seq(items)->Ok_0;
        assert(whole == seq![to_canon(items[0])->Ok_0] + to_canon_seq(rest)->Ok_0);
        assert(whole[0] == to_canon(items[0])->Ok_0);
        assert(whole.subrange(1, whole.len() as int) =~= to_canon_seq(rest)->Ok_0);
        assert(from_canon_seq(whole) =~= items);
    }
}

pub proof fn lemma_round_trip_entries(entries: Seq<(Seq<char>, ValueModel)>)
    requires
        fully_convertible_entries(entries),
    ensures
        to_canon_entries(entries) is Ok,
        from_canon_entries(to_canon_entries(entries)->Ok_0) == entries,
    decreases entries,
{
    if entries.len() == 0 {
        assert(from_canon_entries(to_canon_entries(entries)->Ok_0) =~= entries);
    } else {
        let rest = entries.subrange(1, entries.len() as int);
        lemma_round_trip(entries[0].1);
        lemma_round_trip_entries(rest);
        let whole = to_canon_entries(entries)->Ok_0;
        assert(whole == seq![(entries[0].0, to_canon(entries[0].1)->Ok_0)] + to_canon_entries(
            rest,
        )->Ok_0);
        assert(whole[0] == (entries[0].0, to_canon(entries[0].1)->Ok_0));
        assert(whole.subrange(1, whole.len() as int) =~= to_canon_entries(rest)->Ok_0);
        assert(from_canon_entries(whole) =~= entries);
    }
}

} // verus!
