//! The intermediate representation of Avro values.
use vstd::prelude::*;

use crate::schema::{schema_model, Schema, SchemaModel, UnionSchema};

verus! {

/// Represents any valid Avro value.
///
/// Floating-point Avro values are carried as their IEEE 754 bit patterns so
/// that every variant holds plain data; callers that work with native floats
/// convert with `f32::to_bits` / `f32::from_bits` and the 64-bit analogues.
#[derive(Debug, PartialEq)]
pub enum Value {
    /// A `null` Avro value.
    Null,
    /// A `boolean` Avro value.
    Boolean(bool),
    /// An `int` Avro value.
    Int(i32),
    /// A `long` Avro value.
    Long(i64),
    /// A `float` Avro value, as the bit pattern of a 32-bit IEEE 754 number.
    Float(u32),
    /// A `double` Avro value, as the bit pattern of a 64-bit IEEE 754 number.
    Double(u64),
    /// A `bytes` Avro value.
    Bytes(Vec<u8>),
    /// A `string` Avro value.
    String(String),
    /// A `fixed` Avro value. The declared size travels with the bytes so the
    /// value can be validated on its own.
    Fixed(usize, Vec<u8>),
    /// An `enum` Avro value: the symbol together with its position in the
    /// symbols list of its schema.
    Enum(i32, String),
    /// A `union` Avro value: the index of the active alternative and the
    /// value held by it.
    Union(usize, Box<Value>),
    /// An `array` Avro value.
    Array(Vec<Value>),
    /// A `map` Avro value: (key, value) pairs. The encode bridge and the
    /// conversions keep the keys unique; a hand-built mapping is expected to
    /// do the same.
    Mapping(Vec<(String, Value)>),
    /// A `record` Avro value: ordered (field name, value) pairs. The order is
    /// authoritative and must match the schema's field declaration order.
    Record(Vec<(String, Value)>),
}

/// Mathematical model of a [`Value`] tree, used by all contracts.
pub enum ValueModel {
    Null,
    Boolean(bool),
    Int(i32),
    Long(i64),
    Float(u32),
    Double(u64),
    Bytes(Seq<u8>),
    String(Seq<char>),
    Fixed(nat, Seq<u8>),
    Enum(i32, Seq<char>),
    Union(nat, Box<ValueModel>),
    Array(Seq<ValueModel>),
    Mapping(Seq<(Seq<char>, ValueModel)>),
    Record(Seq<(Seq<char>, ValueModel)>),
}

/// The model of a `Value`: the same tree over mathematical sequences.
pub open spec fn value_model(v: Value) -> ValueModel
    decreases v,
{
    match v {
        Value::Null => ValueModel::Null,
        Value::Boolean(b) => ValueModel::Boolean(b),
        Value::Int(i) => ValueModel::Int(i),
        Value::Long(i) => ValueModel::Long(i),
        Value::Float(bits) => ValueModel::Float(bits),
        Value::Double(bits) => ValueModel::Double(bits),
        Value::Bytes(b) => ValueModel::Bytes(b@),
        Value::String(s) => ValueModel::String(s@),
        Value::Fixed(size, b) => ValueModel::Fixed(size as nat, b@),
        Value::Enum(i, s) => ValueModel::Enum(i, s@),
        Value::Union(i, inner) => ValueModel::Union(i as nat, Box::new(value_model(*inner))),
        Value::Array(items) => ValueModel::Array(
            Seq::new(
                items@.len(),
                |i: int|
                    if 0 <= i < items@.len() {
                        value_model(items@[i])
                    } else {
                        ValueModel::Null
                    },
            ),
        ),
        Value::Mapping(entries) => ValueModel::Mapping(
            Seq::new(
                entries@.len(),
                |i: int|
                    if 0 <= i < entries@.len() {
                        (entries@[i].0@, value_model(entries@[i].1))
                    } else {
                        (Seq::empty(), ValueModel::Null)
                    },
            ),
        ),
        Value::Record(fields) => ValueModel::Record(
            Seq::new(
                fields@.len(),
                |i: int|
                    if 0 <= i < fields@.len() {
                        (fields@[i].0@, value_model(fields@[i].1))
                    } else {
                        (Seq::empty(), ValueModel::Null)
                    },
            ),
        ),
    }
}

impl DeepView for Value {
    type V = ValueModel;

    open spec fn deep_view(&self) -> ValueModel {
        value_model(*self)
    }
}

impl Clone for Value {
    /// Deep copy: the copy has the same model as the original.
    #[verifier::loop_isolation(false)]
    fn clone(&self) -> (res: Value)
        ensures
            res.deep_view() == self.deep_view(),
        decreases *self,
    {
        match self {
            Value::Null => Value::Null,
            Value::Boolean(b) => Value::Boolean(*b),
            Value::Int(i) => Value::Int(*i),
            Value::Long(i) => Value::Long(*i),
            Value::Float(bits) => Value::Float(*bits),
            Value::Double(bits) => Value::Double(*bits),
            Value::Bytes(b) => {
                let c = b.clone();
                proof {
                    assert(c@ =~= b@);
                }
                Value::Bytes(c)
            },
            Value::String(s) => Value::String(s.clone()),
            Value::Fixed(n, b) => {
                let c = b.clone();
                proof {
                    assert(c@ =~= b@);
                }
                Value::Fixed(*n, c)
            },
            Value::Enum(i, s) => Value::Enum(*i, s.clone()),
            Value::Union(i, inner) => {
                proof {
                    assert(decreases_to!(*self => **inner));
                }
                Value::Union(*i, Box::new((**inner).clone()))
            },
            Value::Array(items) => {
                let mut out: Vec<Value> = Vec::new();
                let mut i: usize = 0;
                while i < items.len()
                    invariant
                        0 <= i <= items@.len(),
                        out@.len() == i,
                        forall|j: int|
                            0 <= j < i ==> out.deep_view()[j] == value_model(
                                #[trigger] items@[j],
                            ),
                    decreases items@.len() - i,
                {
                    proof {
                        assert(decreases_to!(*self => *items));
                        assert(decreases_to!(*items => items@[i as int]));
                    }
                    let c = items[i].clone();
                    out.push(c);
                    i += 1;
                }
                let res = Value::Array(out);
                proof {
                    assert(value_model(res)->Array_0 =~= value_model(*self)->Array_0);
                }
                res
            },
            Value::Mapping(entries) => {
                let mut out: Vec<(String, Value)> = Vec::new();
                let mut i: usize = 0;
                while i < entries.len()
                    invariant
                        0 <= i <= entries@.len(),
                        out@.len() == i,
                        forall|j: int|
                            0 <= j < i ==> out.deep_view()[j] == (
                                (#[trigger] entries@[j]).0@,
                                value_model(entries@[j].1),
                            ),
                    decreases entries@.len() - i,
                {
                    proof {
                        assert(decreases_to!(*self => *entries));
                        assert(decreases_to!(*entries => entries@[i as int]));
                        assert(decreases_to!(entries@[i as int] => entries@[i as int].1));
                    }
                    let k = entries[i].0.clone();
                    let v = entries[i].1.clone();
                    out.push((k, v));
                    i += 1;
                }
                let res = Value::Mapping(out);
                proof {
                    assert(value_model(res)->Mapping_0 =~= value_model(*self)->Mapping_0);
                }
                res
            },
            Value::Record(fields) => {
                let mut out: Vec<(String, Value)> = Vec::new();
                let mut i: usize = 0;
                while i < fields.len()
                    invariant
                        0 <= i <= fields@.len(),
                        out@.len() == i,
                        forall|j: int|
                            0 <= j < i ==> out.deep_view()[j] == (
                                (#[trigger] fields@[j]).0@,
                                value_model(fields@[j].1),
                            ),
                    decreases fields@.len() - i,
                {
                    proof {
                        assert(decreases_to!(*self => *fields));
                        assert(decreases_to!(*fields => fields@[i as int]));
                        assert(decreases_to!(fields@[i as int] => fields@[i as int].1));
                    }
                    let k = fields[i].0.clone();
                    let v = fields[i].1.clone();
                    out.push((k, v));
                    i += 1;
                }
                let res = Value::Record(out);
                proof {
                    assert(value_model(res)->Record_0 =~= value_model(*self)->Record_0);
                }
                res
            },
        }
    }
}

/// Copies a byte slice into an owned vector.
pub(crate) fn bytes_to_vec(b: &[u8]) -> (r: Vec<u8>)
    ensures
        r@ == b@,
{
    let mut out: Vec<u8> = Vec::new();
    let mut i: usize = 0;
    while i < b.len()
        invariant
            0 <= i <= b@.len(),
            out@ =~= b@.subrange(0, i as int),
        decreases b@.len() - i,
    {
        out.push(b[i]);
        i += 1;
    }
    proof {
        assert(out@ =~= b@);
    }
    out
}

/// Compares two strings by their text.
pub(crate) fn string_eq(a: &String, b: &String) -> (r: bool)
    ensures
        r == (a@ == b@),
{
    a.eq(b)
}

/// Whether `s` is one of the strings in `v`.
fn contains_string(v: &Vec<String>, s: &String) -> (r: bool)
    ensures
        r == v.deep_view().contains(s@),
{
    let mut i: usize = 0;
    while i < v.len()
        invariant
            0 <= i <= v@.len(),
            forall|j: int| 0 <= j < i ==> v.deep_view()[j] != s@,
        decreases v@.len() - i,
    {
        if string_eq(&v[i], s) {
            assert(v.deep_view()[i as int] == s@);
            return true;
        }
        i += 1;
    }
    false
}

/// Whether the value tree `v` conforms structurally to the schema `s`.
///
/// Primitive tags must match exactly; a fixed value matches only on equal
/// declared size; an enum value matches when its stored index selects its own
/// symbol, and a bare string matches an enum schema when it is a listed
/// symbol; a union value matches when the schema has an alternative at the
/// stored index and the inner value conforms to it; arrays and maps match
/// element-wise; a record matches only when it has exactly the declared
/// fields, in declaration order, each conforming to its declared schema.
pub open spec fn valid(v: ValueModel, s: SchemaModel) -> bool
    decreases v,
{
    match (v, s) {
        (ValueModel::Null, SchemaModel::Null) => true,
        (ValueModel::Boolean(_), SchemaModel::Boolean) => true,
        (ValueModel::Int(_), SchemaModel::Int) => true,
        (ValueModel::Long(_), SchemaModel::Long) => true,
        (ValueModel::Float(_), SchemaModel::Float) => true,
        (ValueModel::Double(_), SchemaModel::Double) => true,
        (ValueModel::Bytes(_), SchemaModel::Bytes) => true,
        (ValueModel::String(_), SchemaModel::String) => true,
        (ValueModel::Fixed(n, _), SchemaModel::Fixed { size }) => n == size,
        (ValueModel::String(text), SchemaModel::Enum { symbols }) => symbols.contains(text),
        (ValueModel::Enum(i, symbol), SchemaModel::Enum { symbols }) => 0 <= i && i
            < symbols.len() && symbols[i as int] == symbol,
        (ValueModel::Union(index, inner), SchemaModel::Union(variants)) => index < variants.len()
            && valid(*inner, variants[index as int]),
        (ValueModel::Array(items), SchemaModel::Array(elem)) => forall|i: int|
            0 <= i < items.len() ==> valid(#[trigger] items[i], *elem),
        (ValueModel::Mapping(entries), SchemaModel::Mapping(value)) => forall|i: int|
            0 <= i < entries.len() ==> valid(#[trigger] entries[i].1, *value),
        (ValueModel::Record(pairs), SchemaModel::Record { fields }) => pairs.len() == fields.len()
            && forall|i: int|
            0 <= i < pairs.len() ==> (#[trigger] pairs[i]).0 == fields[i].0 && valid(
                pairs[i].1,
                fields[i].1,
            ),
        _ => false,
    }
}

impl Value {
    /// Validate the value against the given [`Schema`].
    ///
    /// Returns plain compatibility: a mismatch, including a union index the
    /// schema has no alternative for, is simply `false`, never a fault.
    #[verifier::loop_isolation(false)]
    pub fn validate(&self, schema: &Schema) -> (r: bool)
        ensures
            r == valid(self.deep_view(), schema.deep_view()),
        decreases *self,
    {
        match (self, schema) {
            (Value::Null, Schema::Null) => true,
            (Value::Boolean(_), Schema::Boolean) => true,
            (Value::Int(_), Schema::Int) => true,
            (Value::Long(_), Schema::Long) => true,
            (Value::Float(_), Schema::Float) => true,
            (Value::Double(_), Schema::Double) => true,
            (Value::Bytes(_), Schema::Bytes) => true,
            (Value::String(_), Schema::String) => true,
            (Value::Fixed(n, _), Schema::Fixed { size, .. }) => n == size,
            (Value::String(text), Schema::Enum { symbols, .. }) => contains_string(symbols, text),
            (Value::Enum(i, symbol), Schema::Enum { symbols, .. }) => {
                if *i >= 0 && (*i as usize) < symbols.len() {
                    string_eq(&symbols[*i as usize], symbol)
                } else {
                    false
                }
            },
            (Value::Union(index, inner), Schema::Union(u)) => {
                match u.variant_schema(*index) {
                    Some(variant_schema) => inner.validate(variant_schema),
                    None => false,
                }
            },
            (Value::Array(items), Schema::Array(elem)) => {
                let ghost m = value_model(*self)->Array_0;
                let mut i: usize = 0;
                while i < items.len()
                    invariant
                        0 <= i <= items@.len(),
                        forall|j: int| 0 <= j < i ==> valid(#[trigger] m[j], schema_model(**elem)),
                    decreases items@.len() - i,
                {
                    proof {
                        assert(decreases_to!(*self => *items));
                        assert(decreases_to!(*items => items@[i as int]));
                        assert(m[i as int] == value_model(items@[i as int]));
                    }
                    if !items[i].validate(elem) {
                        return false;
                    }
                    i += 1;
                }
                true
            },
            (Value::Mapping(entries), Schema::Mapping(value)) => {
                let ghost m = value_model(*self)->Mapping_0;
                let mut i: usize = 0;
                while i < entries.len()
                    invariant
                        0 <= i <= entries@.len(),
                        forall|j: int|
                            0 <= j < i ==> valid(#[trigger] m[j].1, schema_model(**value)),
                    decreases entries@.len() - i,
                {
                    proof {
                        assert(decreases_to!(*self => *entries));
                        assert(decreases_to!(*entries => entries@[i as int]));
                        assert(decreases_to!(entries@[i as int] => entries@[i as int].1));
                        assert(m[i as int].1 == value_model(entries@[i as int].1));
                    }
                    if !entries[i].1.validate(value) {
                        return false;
                    }
                    i += 1;
                }
                true
            },
            (Value::Record(pairs), Schema::Record { fields, .. }) => {
                if pairs.len() != fields.len() {
                    return false;
                }
                let ghost m = value_model(*self)->Record_0;
                let ghost fm = (schema.deep_view())->Record_fields;
                let mut i: usize = 0;
                while i < pairs.len()
                    invariant
                        0 <= i <= pairs@.len(),
                        pairs@.len() == fields@.len(),
                        forall|j: int|
                            0 <= j < i ==> (#[trigger] m[j]).0 == fm[j].0 && valid(
                                m[j].1,
                                fm[j].1,
                            ),
                    decreases pairs@.len() - i,
                {
                    proof {
                        assert(m[i as int].0 == pairs@[i as int].0@);
                        assert(m[i as int].1 == value_model(pairs@[i as int].1));
                        assert(fm[i as int].0 == fields@[i as int].name@);
                        assert(fm[i as int].1 == schema_model(fields@[i as int].schema));
                    }
                    if !string_eq(&pairs[i].0, &fields[i].name) {
                        return false;
                    }
                    proof {
                        assert(decreases_to!(*self => *pairs));
                        assert(decreases_to!(*pairs => pairs@[i as int]));
                        assert(decreases_to!(pairs@[i as int] => pairs@[i as int].1));
                    }
                    if !pairs[i].1.validate(&fields[i].schema) {
                        return false;
                    }
                    i += 1;
                }
                true
            },
            _ => false,
        }
    }
}

/// Any structure implementing this trait can be turned into an
/// Avro-compatible [`Value`].
pub trait ToAvro: Sized {
    /// The model of the value this converts into.
    spec fn avro_model(&self) -> ValueModel;

    /// Transforms this value into an Avro-compatible [`Value`].
    fn avro(self) -> (r: Value)
        ensures
            r.deep_view() == self.avro_model(),
    ;
}

impl ToAvro for bool {
    open spec fn avro_model(&self) -> ValueModel {
        ValueModel::Boolean(*self)
    }

    fn avro(self) -> (r: Value)
        ensures
            r.deep_view() == self.avro_model(),
    {
        Value::Boolean(self)
    }
}

impl ToAvro for i32 {
    open spec fn avro_model(&self) -> ValueModel {
        ValueModel::Int(*self)
    }

    fn avro(self) -> (r: Value)
        ensures
            r.deep_view() == self.avro_model(),
    {
        Value::Int(self)
    }
}

impl ToAvro for i64 {
    open spec fn avro_model(&self) -> ValueModel {
        ValueModel::Long(*self)
    }

    fn avro(self) -> (r: Value)
        ensures
            r.deep_view() == self.avro_model(),
    {
        Value::Long(self)
    }
}

impl ToAvro for usize {
    open spec fn avro_model(&self) -> ValueModel {
        ValueModel::Long(*self as i64)
    }

    fn avro(self) -> (r: Value)
        ensures
            r.deep_view() == self.avro_model(),
    {
        Value::Long(#[verifier::truncate] (self as i64))
    }
}

impl ToAvro for String {
    open spec fn avro_model(&self) -> ValueModel {
        ValueModel::String(self@)
    }

    fn avro(self) -> (r: Value)
        ensures
            r.deep_view() == self.avro_model(),
    {
        Value::String(self)
    }
}

impl ToAvro for () {
    open spec fn avro_model(&self) -> ValueModel {
        ValueModel::Null
    }

    fn avro(self) -> (r: Value)
        ensures
            r.deep_view() == self.avro_model(),
    {
        Value::Null
    }
}

impl<'a> ToAvro for &'a str {
    open spec fn avro_model(&self) -> ValueModel {
        ValueModel::String(self@)
    }

    fn avro(self) -> (r: Value)
        ensures
            r.deep_view() == self.avro_model(),
    {
        Value::String(self.to_owned())
    }
}

impl<'a> ToAvro for &'a [u8] {
    open spec fn avro_model(&self) -> ValueModel {
        ValueModel::Bytes(self@)
    }

    fn avro(self) -> (r: Value)
        ensures
            r.deep_view() == self.avro_model(),
    {
        Value::Bytes(bytes_to_vec(self))
    }
}

impl<T: ToAvro> ToAvro for Option<T> {
    open spec fn avro_model(&self) -> ValueModel {
        match self {
            None => ValueModel::Union(0, Box::new(ValueModel::Null)),
            Some(v) => ValueModel::Union(1, Box::new(v.avro_model())),
        }
    }

    /// An optional converts by Avro's null-first idiom for unions that
    /// contain null: index 0 marks the absent value, index 1 the present one.
    fn avro(self) -> (r: Value)
        ensures
            r.deep_view() == self.avro_model(),
    {
        match self {
            None => {
                let res = Value::Union(0, Box::new(Value::Null));
                proof {
                    assert(value_model(Value::Null) == ValueModel::Null);
                }
                res
            },
            Some(v) => Value::Union(1, Box::new(v.avro())),
        }
    }
}

impl ToAvro for Value {
    open spec fn avro_model(&self) -> ValueModel {
        self.deep_view()
    }

    fn avro(self) -> (r: Value)
        ensures
            r.deep_view() == self.avro_model(),
    {
        self
    }
}


/// The effect of one converted pair arriving at a mapping under
/// construction: a key already present keeps its position and takes the new
/// value; a new key is appended.
pub open spec fn mapping_upsert(
    entries: Seq<(Seq<char>, ValueModel)>,
    key: Seq<char>,
    v: ValueModel,
) -> Seq<(Seq<char>, ValueModel)>
    decreases entries.len(),
{
    if entries.len() == 0 {
        seq![(key, v)]
    } else if entries[0].0 == key {
        seq![(key, v)] + entries.drop_first()
    } else {
        seq![entries[0]] + mapping_upsert(entries.drop_first(), key, v)
    }
}

/// The mapping a list of (key, value) pairs converts into: the pairs feed in
/// order; a repeated key keeps its first position and takes its last value.
pub open spec fn mapping_from_entries(entries: Seq<(Seq<char>, ValueModel)>) -> Seq<
    (Seq<char>, ValueModel),
>
    decreases entries.len(),
{
    if entries.len() == 0 {
        Seq::empty()
    } else {
        mapping_upsert(
            mapping_from_entries(entries.drop_last()),
            entries.last().0,
            entries.last().1,
        )
    }
}

/// The models of a list of keyed values, pairwise.
pub open spec fn pair_models<T: ToAvro>(entries: Seq<(String, T)>) -> Seq<(Seq<char>, ValueModel)> {
    Seq::new(entries.len(), |i: int| (entries[i].0@, entries[i].1.avro_model()))
}

/// When `key` already stands at position `j`, the upsert is an in-place
/// update there.
proof fn lemma_mapping_upsert_found(
    entries: Seq<(Seq<char>, ValueModel)>,
    key: Seq<char>,
    v: ValueModel,
    j: int,
)
    requires
        0 <= j < entries.len(),
        entries[j].0 == key,
        forall|k: int| 0 <= k < j ==> (#[trigger] entries[k]).0 != key,
    ensures
        mapping_upsert(entries, key, v) =~= entries.update(j, (key, v)),
    decreases j,
{
    if j == 0 {
    } else {
        lemma_mapping_upsert_found(entries.drop_first(), key, v, j - 1);
    }
}

/// When `key` is absent, the upsert appends it.
proof fn lemma_mapping_upsert_absent(
    entries: Seq<(Seq<char>, ValueModel)>,
    key: Seq<char>,
    v: ValueModel,
)
    requires
        forall|k: int| 0 <= k < entries.len() ==> (#[trigger] entries[k]).0 != key,
    ensures
        mapping_upsert(entries, key, v) =~= entries.push((key, v)),
    decreases entries.len(),
{
    if entries.len() == 0 {
    } else {
        lemma_mapping_upsert_absent(entries.drop_first(), key, v);
    }
}

/// First position of `key` among the entries, if it occurs at all.
fn find_key(entries: &Vec<(String, Value)>, key: &String) -> (r: Option<usize>)
    ensures
        match r {
            Some(j) => j < entries@.len() && entries@[j as int].0@ == key@ && forall|k: int|
                0 <= k < j ==> (#[trigger] entries@[k]).0@ != key@,
            None => forall|k: int|
                0 <= k < entries@.len() ==> (#[trigger] entries@[k]).0@ != key@,
        },
{
    let mut j: usize = 0;
    while j < entries.len()
        invariant
            0 <= j <= entries@.len(),
            forall|k: int| 0 <= k < j ==> (#[trigger] entries@[k]).0@ != key@,
        decreases entries@.len() - j,
    {
        if string_eq(&entries[j].0, key) {
            return Some(j);
        }
        j += 1;
    }
    None
}

impl<T: ToAvro> ToAvro for Vec<(String, T)> {
    open spec fn avro_model(&self) -> ValueModel {
        ValueModel::Mapping(mapping_from_entries(pair_models(self@)))
    }

    /// A list of keyed values converts into a `Mapping`: pairs feed in their
    /// list order, and a repeated key keeps its first position and takes its
    /// last value, so the keys of the result are unique.
    #[verifier::loop_isolation(false)]
    fn avro(self) -> (r: Value)
        ensures
            r.deep_view() == self.avro_model(),
    {
        let ghost s0 = self@;
        let ghost ems = pair_models(s0);
        let mut source = self;
        let mut rev: Vec<(String, T)> = Vec::new();
        while source.len() > 0
            invariant
                source@.len() + rev@.len() == s0.len(),
                source@ == s0.take(source@.len() as int),
                forall|j: int| 0 <= j < rev@.len() ==> rev@[j] == s0[s0.len() - 1 - j],
            decreases source@.len(),
        {
            let e = source.pop().unwrap();
            rev.push(e);
            proof {
                assert(source@ =~= s0.take(source@.len() as int));
            }
        }
        let mut out: Vec<(String, Value)> = Vec::new();
        while rev.len() > 0
            invariant
                rev@.len() <= s0.len(),
                forall|j: int| 0 <= j < rev@.len() ==> rev@[j] == s0[s0.len() - 1 - j],
                out.deep_view() == mapping_from_entries(ems.take(s0.len() - rev@.len())),
            decreases rev@.len(),
        {
            let ghost fed = s0.len() - rev@.len();
            let ghost cur = out.deep_view();
            let e = rev.pop().unwrap();
            proof {
                assert(e == s0[fed]);
                assert(ems[fed] == (s0[fed].0@, s0[fed].1.avro_model()));
            }
            let (key, value) = e;
            let encoded = value.avro();
            match find_key(&out, &key) {
                Some(j) => {
                    proof {
                        lemma_mapping_upsert_found(cur, key@, encoded.deep_view(), j as int);
                    }
                    out.set(j, (key, encoded));
                    proof {
                        assert(out.deep_view() =~= cur.update(
                            j as int,
                            (key@, encoded.deep_view()),
                        ));
                    }
                },
                None => {
                    proof {
                        lemma_mapping_upsert_absent(cur, key@, encoded.deep_view());
                    }
                    out.push((key, encoded));
                    proof {
                        assert(out.deep_view() =~= cur.push((key@, encoded.deep_view())));
                    }
                },
            }
            proof {
                assert(ems.take(fed + 1).drop_last() =~= ems.take(fed));
                assert(ems.take(fed + 1).last() == ems[fed]);
            }
        }
        let r = Value::Mapping(out);
        proof {
            assert(ems.take(s0.len() as int) =~= ems);
            assert(value_model(r)->Mapping_0 =~= out.deep_view());
        }
        r
    }
}

/// What putting a value under a field name does to a record's fields: the
/// first field of that name takes the value; a record without the name is
/// left unchanged.
pub open spec fn record_put(
    fields: Seq<(Seq<char>, ValueModel)>,
    name: Seq<char>,
    v: ValueModel,
) -> Seq<(Seq<char>, ValueModel)>
    decreases fields.len(),
{
    if fields.len() == 0 {
        fields
    } else if fields[0].0 == name {
        fields.update(0, (name, v))
    } else {
        seq![fields[0]] + record_put(fields.drop_first(), name, v)
    }
}

/// When `name` first occurs at position `j`, the put is an in-place update
/// there.
proof fn lemma_record_put_found(
    fields: Seq<(Seq<char>, ValueModel)>,
    name: Seq<char>,
    v: ValueModel,
    j: int,
)
    requires
        0 <= j < fields.len(),
        fields[j].0 == name,
        forall|k: int| 0 <= k < j ==> (#[trigger] fields[k]).0 != name,
    ensures
        record_put(fields, name, v) =~= fields.update(j, (name, v)),
    decreases j,
{
    if j == 0 {
    } else {
        lemma_record_put_found(fields.drop_first(), name, v, j - 1);
    }
}

/// When `name` does not occur, the put changes nothing.
proof fn lemma_record_put_absent(fields: Seq<(Seq<char>, ValueModel)>, name: Seq<char>, v: ValueModel)
    requires
        forall|k: int| 0 <= k < fields.len() ==> (#[trigger] fields[k]).0 != name,
    ensures
        record_put(fields, name, v) =~= fields,
    decreases fields.len(),
{
    if fields.len() == 0 {
    } else {
        lemma_record_put_absent(fields.drop_first(), name, v);
    }
}

/// Utility interface to build `Value::Record` values against a record
/// schema.
#[derive(Debug)]
pub struct Record {
    /// The record's fields, ordered as in the schema given at creation; any
    /// unset field holds `Value::Null`.
    pub fields: Vec<(String, Value)>,
}

impl Record {
    /// Create a `Record` matching the given schema, every field still unset.
    ///
    /// Returns `None` when the schema is not a record schema.
    #[verifier::loop_isolation(false)]
    pub fn new(schema: &Schema) -> (r: Option<Record>)
        ensures
            match r {
                Some(rec) => schema.deep_view() matches SchemaModel::Record { fields } && rec.fields.deep_view()
                    == Seq::new(fields.len(), |i: int| (fields[i].0, ValueModel::Null)),
                None => !(schema.deep_view() is Record),
            },
    {
        match schema {
            Schema::Record { fields: schema_fields, .. } => {
                let mut fields: Vec<(String, Value)> = Vec::with_capacity(schema_fields.len());
                let ghost fm = (schema.deep_view())->Record_fields;
                let mut i: usize = 0;
                while i < schema_fields.len()
                    invariant
                        0 <= i <= schema_fields@.len(),
                        fields@.len() == i,
                        forall|j: int|
                            0 <= j < i ==> fields.deep_view()[j] == (
                                (#[trigger] fm[j]).0,
                                ValueModel::Null,
                            ),
                    decreases schema_fields@.len() - i,
                {
                    let name = schema_fields[i].name.clone();
                    fields.push((name, Value::Null));
                    i += 1;
                }
                let rec = Record { fields };
                proof {
                    assert(rec.fields.deep_view() =~= Seq::new(
                        fm.len(),
                        |j: int| (fm[j].0, ValueModel::Null),
                    ));
                }
                Some(rec)
            },
            _ => None,
        }
    }

    /// Put a value, converted through [`ToAvro`], under the given field name.
    ///
    /// Only the first field of that name, as declared in the schema used to
    /// create this record, takes the value; a name the record does not have
    /// changes nothing. No schema validation is performed.
    #[verifier::loop_isolation(false)]
    pub fn put<V: ToAvro>(&mut self, field: &str, value: V)
        ensures
            final(self).fields.deep_view() == record_put(
                old(self).fields.deep_view(),
                field@,
                value.avro_model(),
            ),
    {
        let ghost fields0 = self.fields.deep_view();
        let owned_field = field.to_owned();
        let mut j: usize = 0;
        while j < self.fields.len()
            invariant
                0 <= j <= self.fields@.len(),
                *self == *old(self),
                forall|k: int| 0 <= k < j ==> (#[trigger] fields0[k]).0 != field@,
            decreases self.fields@.len() - j,
        {
            if string_eq(&self.fields[j].0, &owned_field) {
                proof {
                    lemma_record_put_found(fields0, field@, value.avro_model(), j as int);
                }
                let name = self.fields[j].0.clone();
                self.fields.set(j, (name, value.avro()));
                proof {
                    assert(self.fields.deep_view() =~= fields0.update(
                        j as int,
                        (field@, value.avro_model()),
                    ));
                }
                return ;
            }
            j += 1;
        }
        proof {
            lemma_record_put_absent(fields0, field@, value.avro_model());
            assert(self.fields.deep_view() =~= fields0);
        }
    }
}

impl ToAvro for Record {
    open spec fn avro_model(&self) -> ValueModel {
        ValueModel::Record(self.fields.deep_view())
    }

    fn avro(self) -> (r: Value)
        ensures
            r.deep_view() == self.avro_model(),
    {
        let res = Value::Record(self.fields);
        proof {
            assert(value_model(res)->Record_0 =~= self.avro_model()->Record_0);
        }
        res
    }
}

} // verus!


