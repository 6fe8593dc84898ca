//! The encode bridge: every conversion and decision made while a typed value
//! is driven, shape by shape, into one [`Value`] tree. The protocol adapter
//! that walks the typed value lives outside the library and only forwards
//! already-encoded parts to the methods here.
use vstd::prelude::*;

use crate::error::{error, Error, ErrorKind};
use crate::types::{bytes_to_vec, string_eq, value_model, Value, ValueModel};

verus! {

/// Encodes the primitive shapes of the encoding protocol.
#[derive(Debug)]
pub struct Serializer {}

impl Default for Serializer {
    fn default() -> (r: Serializer)
        ensures
            r == (Serializer {  }),
    {
        Serializer {  }
    }
}

impl Clone for Serializer {
    fn clone(&self) -> (r: Serializer)
        ensures
            r == *self,
    {
        Serializer {  }
    }
}

/// Relies on `char::to_string`: the one-character string of the character.
#[verifier::external_body]
fn char_to_string(c: char) -> (r: String)
    ensures
        r@ == seq![c],
{
    c.to_string()
}

impl Serializer {
    /// A boolean encodes as `Boolean`.
    pub fn serialize_bool(&self, v: bool) -> (r: Result<Value, Error>)
        ensures
            r matches Ok(val) && val.deep_view() == ValueModel::Boolean(v),
    {
        Ok(Value::Boolean(v))
    }

    /// An 8-bit signed integer widens into `Int`.
    pub fn serialize_i8(&self, v: i8) -> (r: Result<Value, Error>)
        ensures
            r matches Ok(val) && val.deep_view() == ValueModel::Int(v as i32),
    {
        self.serialize_i32(v as i32)
    }

    /// A 16-bit signed integer widens into `Int`.
    pub fn serialize_i16(&self, v: i16) -> (r: Result<Value, Error>)
        ensures
            r matches Ok(val) && val.deep_view() == ValueModel::Int(v as i32),
    {
        self.serialize_i32(v as i32)
    }

    /// A 32-bit signed integer encodes as `Int`.
    pub fn serialize_i32(&self, v: i32) -> (r: Result<Value, Error>)
        ensures
            r matches Ok(val) && val.deep_view() == ValueModel::Int(v),
    {
        Ok(Value::Int(v))
    }

    /// A 64-bit signed integer encodes as `Long`.
    pub fn serialize_i64(&self, v: i64) -> (r: Result<Value, Error>)
        ensures
            r matches Ok(val) && val.deep_view() == ValueModel::Long(v),
    {
        Ok(Value::Long(v))
    }

    /// An 8-bit unsigned integer widens into `Int`.
    pub fn serialize_u8(&self, v: u8) -> (r: Result<Value, Error>)
        ensures
            r matches Ok(val) && val.deep_view() == ValueModel::Int(v as i32),
    {
        self.serialize_i32(v as i32)
    }

    /// A 16-bit unsigned integer widens into `Int`.
    pub fn serialize_u16(&self, v: u16) -> (r: Result<Value, Error>)
        ensures
            r matches Ok(val) && val.deep_view() == ValueModel::Int(v as i32),
    {
        self.serialize_i32(v as i32)
    }

    /// A 32-bit unsigned integer widens into the smallest sufficient signed
    /// value: `Int` when it fits, `Long` otherwise.
    pub fn serialize_u32(&self, v: u32) -> (r: Result<Value, Error>)
        ensures
            v <= i32::MAX ==> (r matches Ok(val) && val.deep_view() == ValueModel::Int(v as i32)),
            v > i32::MAX ==> (r matches Ok(val) && val.deep_view() == ValueModel::Long(v as i64)),
    {
        if v <= i32::MAX as u32 {
            self.serialize_i32(v as i32)
        } else {
            self.serialize_i64(v as i64)
        }
    }

    /// A 64-bit unsigned integer encodes as `Long` when it fits in the signed
    /// 64-bit range, and fails to encode otherwise.
    pub fn serialize_u64(&self, v: u64) -> (r: Result<Value, Error>)
        ensures
            v <= i64::MAX ==> (r matches Ok(val) && val.deep_view() == ValueModel::Long(v as i64)),
            v > i64::MAX ==> (r matches Err(e) && e.kind_model() matches ErrorKind::Serialization(
                m,
            ) && m@ == "u64 is too large"@),
    {
        if v <= i64::MAX as u64 {
            self.serialize_i64(v as i64)
        } else {
            Err(error(ErrorKind::Serialization(String::from_str("u64 is too large"))))
        }
    }

    /// A single code point encodes as a one-character `String`.
    pub fn serialize_char(&self, v: char) -> (r: Result<Value, Error>)
        ensures
            r matches Ok(val) && val.deep_view() == ValueModel::String(seq![v]),
    {
        Ok(Value::String(char_to_string(v)))
    }

    /// Text encodes as `String`.
    pub fn serialize_str(&self, v: &str) -> (r: Result<Value, Error>)
        ensures
            r matches Ok(val) && val.deep_view() == ValueModel::String(v@),
    {
        Ok(Value::String(v.to_owned()))
    }

    /// A byte slice encodes as `Bytes`.
    pub fn serialize_bytes(&self, v: &[u8]) -> (r: Result<Value, Error>)
        ensures
            r matches Ok(val) && val.deep_view() == ValueModel::Bytes(v@),
    {
        Ok(Value::Bytes(bytes_to_vec(v)))
    }

    /// An absent optional encodes as `Union(0, Null)`, Avro's null-first
    /// convention for optional fields.
    pub fn serialize_none(&self) -> (r: Result<Value, Error>)
        ensures
            r matches Ok(val) && val.deep_view() == ValueModel::Union(
                0,
                Box::new(ValueModel::Null),
            ),
    {
        let res = Value::Union(0, Box::new(Value::Null));
        proof {
            assert(value_model(Value::Null) == ValueModel::Null);
        }
        Ok(res)
    }

    /// A present optional wraps its already-encoded content as `Union(1, _)`.
    pub fn serialize_some(&self, value: Value) -> (r: Result<Value, Error>)
        ensures
            r matches Ok(val) && val.deep_view() == ValueModel::Union(
                1,
                Box::new(value.deep_view()),
            ),
    {
        Ok(Value::Union(1, Box::new(value)))
    }

    /// The unit value encodes as `Null`.
    pub fn serialize_unit(&self) -> (r: Result<Value, Error>)
        ensures
            r matches Ok(val) && val.deep_view() == ValueModel::Null,
    {
        Ok(Value::Null)
    }

    /// A unit struct encodes as `Null`, whatever its name.
    pub fn serialize_unit_struct(&self, _name: &str) -> (r: Result<Value, Error>)
        ensures
            r matches Ok(val) && val.deep_view() == ValueModel::Null,
    {
        self.serialize_unit()
    }

    /// A unit enum variant encodes as `Union(ordinal, Null)`.
    pub fn serialize_unit_variant(&self, index: u32, _variant: &str) -> (r: Result<Value, Error>)
        ensures
            r matches Ok(val) && val.deep_view() == ValueModel::Union(
                index as nat,
                Box::new(ValueModel::Null),
            ),
    {
        let res = Value::Union(index as usize, Box::new(Value::Null));
        proof {
            assert(value_model(Value::Null) == ValueModel::Null);
        }
        Ok(res)
    }

    /// A newtype struct encodes transparently as its already-encoded content.
    pub fn serialize_newtype_struct(&self, _name: &str, value: Value) -> (r: Result<Value, Error>)
        ensures
            r matches Ok(val) && val.deep_view() == value.deep_view(),
    {
        Ok(value)
    }

    /// A newtype enum variant wraps its already-encoded content as
    /// `Union(ordinal, _)`.
    pub fn serialize_newtype_variant(&self, index: u32, value: Value) -> (r: Result<Value, Error>)
        ensures
            r matches Ok(val) && val.deep_view() == ValueModel::Union(
                index as nat,
                Box::new(value.deep_view()),
            ),
    {
        Ok(Value::Union(index as usize, Box::new(value)))
    }

    /// Begin a sequence; its items arrive one by one at the returned
    /// serializer.
    pub fn serialize_seq(&self, len: Option<usize>) -> (r: Result<SeqSerializer, Error>)
        ensures
            r matches Ok(s) && s.items_model() == Seq::<ValueModel>::empty(),
    {
        Ok(SeqSerializer::new(len))
    }

    /// Begin a fixed-arity tuple; encoded exactly like a sequence.
    pub fn serialize_tuple(&self, len: usize) -> (r: Result<SeqSerializer, Error>)
        ensures
            r matches Ok(s) && s.items_model() == Seq::<ValueModel>::empty(),
    {
        self.serialize_seq(Some(len))
    }

    /// Begin a tuple struct; encoded exactly like a sequence.
    pub fn serialize_tuple_struct(&self, _name: &str, len: usize) -> (r: Result<
        SeqSerializer,
        Error,
    >)
        ensures
            r matches Ok(s) && s.items_model() == Seq::<ValueModel>::empty(),
    {
        self.serialize_seq(Some(len))
    }

    /// Begin a tuple enum variant: a sequence that finalizes into
    /// `Union(ordinal, Array)`.
    pub fn serialize_tuple_variant(&self, index: u32, _variant: &str, len: usize) -> (r: Result<
        VariantSeqSerializer,
        Error,
    >)
        ensures
            r matches Ok(s) && s.items_model() == Seq::<ValueModel>::empty() && s.index_model()
                == index as nat,
    {
        Ok(VariantSeqSerializer::new(index as usize, len))
    }

    /// Begin a map; keys and values arrive alternately at the returned
    /// serializer.
    pub fn serialize_map(&self, len: Option<usize>) -> (r: Result<MapSerializer, Error>)
        ensures
            r matches Ok(s) && s.keys_model() == Seq::<(Seq<char>, int)>::empty()
                && s.values_model() == Seq::<ValueModel>::empty(),
    {
        Ok(MapSerializer::new(len))
    }

    /// Begin a struct; named fields arrive one by one at the returned
    /// serializer.
    pub fn serialize_struct(&self, _name: &str, len: usize) -> (r: Result<StructSerializer, Error>)
        ensures
            r matches Ok(s) && s.fields_model() == Seq::<(Seq<char>, ValueModel)>::empty(),
    {
        Ok(StructSerializer::new(len))
    }

    /// Begin a struct enum variant: named fields that finalize into
    /// `Union(ordinal, Record)`.
    pub fn serialize_struct_variant(&self, index: u32, _variant: &str, len: usize) -> (r: Result<
        VariantStructSerializer,
        Error,
    >)
        ensures
            r matches Ok(s) && s.fields_model() == Seq::<(Seq<char>, ValueModel)>::empty()
                && s.index_model() == index as nat,
    {
        Ok(VariantStructSerializer::new(index as usize, len))
    }
}

/// The effect of one key arriving at a map serializer: a later key replaces
/// an earlier equal key in place, otherwise it is appended; either way it
/// points at the value slot `index`.
pub open spec fn upsert_key(keys: Seq<(Seq<char>, int)>, key: Seq<char>, index: int) -> Seq<
    (Seq<char>, int),
>
    decreases keys.len(),
{
    if keys.len() == 0 {
        seq![(key, index)]
    } else if keys[0].0 == key {
        seq![(key, index)] + keys.drop_first()
    } else {
        seq![keys[0]] + upsert_key(keys.drop_first(), key, index)
    }
}

/// The reassembly a map serializer performs when it finalizes: each buffered
/// key paired with the value in its slot; a key whose slot got no value is
/// dropped.
pub open spec fn mapping_end(keys: Seq<(Seq<char>, int)>, values: Seq<ValueModel>) -> Seq<
    (Seq<char>, ValueModel),
>
    decreases keys.len(),
{
    if keys.len() == 0 {
        Seq::empty()
    } else if 0 <= keys[0].1 < values.len() {
        seq![(keys[0].0, values[keys[0].1])] + mapping_end(keys.drop_first(), values)
    } else {
        mapping_end(keys.drop_first(), values)
    }
}

/// When `key` already stands at position `j`, the upsert is an in-place
/// update there.
proof fn lemma_upsert_key_found(keys: Seq<(Seq<char>, int)>, key: Seq<char>, index: int, j: int)
    requires
        0 <= j < keys.len(),
        keys[j].0 == key,
        forall|k: int| 0 <= k < j ==> (#[trigger] keys[k]).0 != key,
    ensures
        upsert_key(keys, key, index) =~= keys.update(j, (key, index)),
    decreases j,
{
    if j == 0 {
    } else {
        lemma_upsert_key_found(keys.drop_first(), key, index, j - 1);
    }
}

/// When `key` is absent, the upsert appends it.
pub(crate) proof fn lemma_upsert_key_absent(keys: Seq<(Seq<char>, int)>, key: Seq<char>, index: int)
    requires
        forall|k: int| 0 <= k < keys.len() ==> (#[trigger] keys[k]).0 != key,
    ensures
        upsert_key(keys, key, index) =~= keys.push((key, index)),
    decreases keys.len(),
{
    if keys.len() == 0 {
    } else {
        lemma_upsert_key_absent(keys.drop_first(), key, index);
    }
}

/// Reassembly over one more buffered key at the end.
pub(crate) proof fn lemma_mapping_end_snoc(
    keys: Seq<(Seq<char>, int)>,
    values: Seq<ValueModel>,
    entry: (Seq<char>, int),
)
    ensures
        mapping_end(keys.push(entry), values) =~= if 0 <= entry.1 < values.len() {
            mapping_end(keys, values).push((entry.0, values[entry.1]))
        } else {
            mapping_end(keys, values)
        },
    decreases keys.len(),
{
    if keys.len() == 0 {
        let empty_keys: Seq<(Seq<char>, int)> = Seq::empty();
        assert(keys.push(entry).drop_first() =~= empty_keys);
        assert(mapping_end(empty_keys, values) =~= Seq::<(Seq<char>, ValueModel)>::empty());
        assert(keys.push(entry)[0] == entry);
    } else {
        assert(keys.push(entry)[0] == keys[0]);
        assert(keys.push(entry).drop_first() =~= keys.drop_first().push(entry));
        lemma_mapping_end_snoc(keys.drop_first(), values, entry);
    }
}

/// Buffers the keys and the already-encoded values of a map until
/// finalization pairs them up.
pub struct MapSerializer {
    indices: Vec<(String, usize)>,
    values: Vec<Value>,
}

impl MapSerializer {
    /// The keys buffered so far, each with the value slot it points at.
    /// Keys are unique: a repeated key replaced the earlier one.
    pub closed spec fn keys_model(&self) -> Seq<(Seq<char>, int)> {
        Seq::new(
            self.indices@.len(),
            |i: int|
                if 0 <= i < self.indices@.len() {
                    (self.indices@[i].0@, self.indices@[i].1 as int)
                } else {
                    (Seq::empty(), 0int)
                },
        )
    }

    /// The encoded values buffered so far, in arrival order.
    pub closed spec fn values_model(&self) -> Seq<ValueModel> {
        self.values.deep_view()
    }

    /// An empty buffer; capacity is reserved when the length is known.
    pub fn new(len: Option<usize>) -> (r: MapSerializer)
        ensures
            r.keys_model() == Seq::<(Seq<char>, int)>::empty(),
            r.values_model() == Seq::<ValueModel>::empty(),
    {
        let (indices, values) = match len {
            Some(len) => (Vec::with_capacity(len), Vec::with_capacity(len)),
            None => (Vec::new(), Vec::new()),
        };
        let r = MapSerializer { indices, values };
        proof {
            assert(r.keys_model() =~= Seq::<(Seq<char>, int)>::empty());
            assert(r.values_model() =~= Seq::<ValueModel>::empty());
        }
        r
    }

    /// Take one encoded key. A key that is not a `String` fails to encode and
    /// leaves the buffer unchanged; a string key points at the next value
    /// slot, replacing an earlier equal key.
    #[verifier::loop_isolation(false)]
    pub fn serialize_key(&mut self, key: Value) -> (r: Result<(), Error>)
        ensures
            final(self).values_model() == old(self).values_model(),
            key.deep_view() matches ValueModel::String(k) ==> r is Ok && final(self).keys_model()
                == upsert_key(old(self).keys_model(), k, old(self).values_model().len() as int),
            !(key.deep_view() is String) ==> final(self).keys_model() == old(self).keys_model()
                && (r matches Err(e) && e.kind_model() matches ErrorKind::Serialization(m) && m@
                == "map key is not a string"@),
    {
        match key {
            Value::String(key_text) => {
                let slot = self.values.len();
                let ghost keys0 = self.keys_model();
                let mut j: usize = 0;
                while j < self.indices.len()
                    invariant
                        0 <= j <= self.indices@.len(),
                        *self == *old(self),
                        keys0 == self.keys_model(),
                        forall|k: int| 0 <= k < j ==> (#[trigger] keys0[k]).0 != key_text@,
                    decreases self.indices@.len() - j,
                {
                    if string_eq(&self.indices[j].0, &key_text) {
                        proof {
                            lemma_upsert_key_found(
                                keys0,
                                key_text@,
                                slot as int,
                                j as int,
                            );
                        }
                        self.indices.set(j, (key_text, slot));
                        proof {
                            assert(self.keys_model() =~= keys0.update(
                                j as int,
                                (key_text@, slot as int),
                            ));
                        }
                        return Ok(());
                    }
                    j += 1;
                }
                proof {
                    lemma_upsert_key_absent(keys0, key_text@, slot as int);
                }
                self.indices.push((key_text, slot));
                proof {
                    assert(self.keys_model() =~= keys0.push((key_text@, slot as int)));
                }
                Ok(())
            },
            _ => Err(error(ErrorKind::Serialization(String::from_str("map key is not a string")))),
        }
    }

    /// Take the encoded value for the most recent key.
    pub fn serialize_value(&mut self, value: Value) -> (r: Result<(), Error>)
        ensures
            r is Ok,
            final(self).keys_model() == old(self).keys_model(),
            final(self).values_model() == old(self).values_model().push(value.deep_view()),
    {
        let ghost keys0 = self.keys_model();
        self.values.push(value);
        proof {
            assert(self.keys_model() =~= keys0);
            assert(self.values_model() =~= old(self).values_model().push(value.deep_view()));
        }
        Ok(())
    }

    /// Finalize: each buffered key paired with the value in its slot becomes
    /// a `Mapping` entry; keys are unique by construction.
    #[verifier::loop_isolation(false)]
    pub fn end(self) -> (r: Result<Value, Error>)
        ensures
            r matches Ok(val) && val.deep_view() == ValueModel::Mapping(
                mapping_end(self.keys_model(), self.values_model()),
            ),
    {
        let mut out: Vec<(String, Value)> = Vec::new();
        let mut i: usize = 0;
        while i < self.indices.len()
            invariant
                0 <= i <= self.indices@.len(),
                out.deep_view() =~= mapping_end(
                    self.keys_model().take(i as int),
                    self.values_model(),
                ),
            decreases self.indices@.len() - i,
        {
            proof {
                assert(self.keys_model().take(i as int + 1) =~= self.keys_model().take(
                    i as int,
                ).push(self.keys_model()[i as int]));
                lemma_mapping_end_snoc(
                    self.keys_model().take(i as int),
                    self.values_model(),
                    self.keys_model()[i as int],
                );
            }
            let index = self.indices[i].1;
            if index < self.values.len() {
                let k = self.indices[i].0.clone();
                let v = self.values[index].clone();
                out.push((k, v));
            }
            i += 1;
        }
        let res = Value::Mapping(out);
        proof {
            assert(self.keys_model().take(self.indices@.len() as int) =~= self.keys_model());
            assert(value_model(res)->Mapping_0 =~= mapping_end(
                self.keys_model(),
                self.values_model(),
            ));
        }
        Ok(res)
    }
}

/// Buffers the already-encoded items of a sequence or tuple.
pub struct SeqSerializer {
    items: Vec<Value>,
}

impl SeqSerializer {
    /// The items buffered so far, in arrival order.
    pub closed spec fn items_model(&self) -> Seq<ValueModel> {
        self.items.deep_view()
    }

    /// An empty buffer; capacity is reserved when the length is known.
    pub fn new(len: Option<usize>) -> (r: SeqSerializer)
        ensures
            r.items_model() == Seq::<ValueModel>::empty(),
    {
        let items = match len {
            Some(len) => Vec::with_capacity(len),
            None => Vec::new(),
        };
        let r = SeqSerializer { items };
        proof {
            assert(r.items_model() =~= Seq::<ValueModel>::empty());
        }
        r
    }

    /// Append one encoded element.
    pub fn serialize_element(&mut self, value: Value) -> (r: Result<(), Error>)
        ensures
            r is Ok,
            final(self).items_model() == old(self).items_model().push(value.deep_view()),
    {
        self.items.push(value);
        proof {
            assert(self.items_model() =~= old(self).items_model().push(value.deep_view()));
        }
        Ok(())
    }

    /// Finalize: the buffered items become an `Array`.
    pub fn end(self) -> (r: Result<Value, Error>)
        ensures
            r matches Ok(val) && val.deep_view() == ValueModel::Array(self.items_model()),
    {
        let res = Value::Array(self.items);
        proof {
            assert(value_model(res)->Array_0 =~= self.items_model());
        }
        Ok(res)
    }
}

/// Buffers the items of a tuple enum variant together with the variant's
/// ordinal.
pub struct VariantSeqSerializer {
    variant_index: usize,
    items: Vec<Value>,
}

impl VariantSeqSerializer {
    /// The items buffered so far, in arrival order.
    pub closed spec fn items_model(&self) -> Seq<ValueModel> {
        self.items.deep_view()
    }

    /// The ordinal of the variant being encoded.
    pub closed spec fn index_model(&self) -> nat {
        self.variant_index as nat
    }

    /// An empty buffer for the variant with the given ordinal.
    pub fn new(variant_index: usize, len: usize) -> (r: VariantSeqSerializer)
        ensures
            r.items_model() == Seq::<ValueModel>::empty(),
            r.index_model() == variant_index as nat,
    {
        let r = VariantSeqSerializer { variant_index, items: Vec::with_capacity(len) };
        proof {
            assert(r.items_model() =~= Seq::<ValueModel>::empty());
        }
        r
    }

    /// Append one encoded positional field.
    pub fn serialize_field(&mut self, value: Value) -> (r: Result<(), Error>)
        ensures
            r is Ok,
            final(self).items_model() == old(self).items_model().push(value.deep_view()),
            final(self).index_model() == old(self).index_model(),
    {
        self.items.push(value);
        proof {
            assert(self.items_model() =~= old(self).items_model().push(value.deep_view()));
        }
        Ok(())
    }

    /// Finalize: the buffered items become `Union(ordinal, Array)`.
    pub fn end(self) -> (r: Result<Value, Error>)
        ensures
            r matches Ok(val) && val.deep_view() == ValueModel::Union(
                self.index_model(),
                Box::new(ValueModel::Array(self.items_model())),
            ),
    {
        let inner = Value::Array(self.items);
        proof {
            assert(value_model(inner)->Array_0 =~= self.items_model());
        }
        Ok(Value::Union(self.variant_index, Box::new(inner)))
    }
}

/// Buffers the already-encoded fields of a struct.
pub struct StructSerializer {
    fields: Vec<(String, Value)>,
}

impl StructSerializer {
    /// The named fields buffered so far, in arrival order.
    pub closed spec fn fields_model(&self) -> Seq<(Seq<char>, ValueModel)> {
        self.fields.deep_view()
    }

    /// An empty buffer with room for the declared number of fields.
    pub fn new(len: usize) -> (r: StructSerializer)
        ensures
            r.fields_model() == Seq::<(Seq<char>, ValueModel)>::empty(),
    {
        let r = StructSerializer { fields: Vec::with_capacity(len) };
        proof {
            assert(r.fields_model() =~= Seq::<(Seq<char>, ValueModel)>::empty());
        }
        r
    }

    /// Append one encoded field under its name.
    pub fn serialize_field(&mut self, name: &str, value: Value) -> (r: Result<(), Error>)
        ensures
            r is Ok,
            final(self).fields_model() == old(self).fields_model().push(
                (name@, value.deep_view()),
            ),
    {
        self.fields.push((name.to_owned(), value));
        proof {
            assert(self.fields_model() =~= old(self).fields_model().push(
                (name@, value.deep_view()),
            ));
        }
        Ok(())
    }

    /// Finalize: the buffered fields become a `Record`, in arrival order.
    pub fn end(self) -> (r: Result<Value, Error>)
        ensures
            r matches Ok(val) && val.deep_view() == ValueModel::Record(self.fields_model()),
    {
        let res = Value::Record(self.fields);
        proof {
            assert(value_model(res)->Record_0 =~= self.fields_model());
        }
        Ok(res)
    }
}

/// Buffers the fields of a struct enum variant together with the variant's
/// ordinal.
pub struct VariantStructSerializer {
    variant_index: usize,
    fields: Vec<(String, Value)>,
}

impl VariantStructSerializer {
    /// The named fields buffered so far, in arrival order.
    pub closed spec fn fields_model(&self) -> Seq<(Seq<char>, ValueModel)> {
        self.fields.deep_view()
    }

    /// The ordinal of the variant being encoded.
    pub closed spec fn index_model(&self) -> nat {
        self.variant_index as nat
    }

    /// An empty buffer for the variant with the given ordinal.
    pub fn new(variant_index: usize, len: usize) -> (r: VariantStructSerializer)
        ensures
            r.fields_model() == Seq::<(Seq<char>, ValueModel)>::empty(),
            r.index_model() == variant_index as nat,
    {
        let r = VariantStructSerializer { variant_index, fields: Vec::with_capacity(len) };
        proof {
            assert(r.fields_model() =~= Seq::<(Seq<char>, ValueModel)>::empty());
        }
        r
    }

    /// Append one encoded field under its name.
    pub fn serialize_field(&mut self, name: &str, value: Value) -> (r: Result<(), Error>)
        ensures
            r is Ok,
            final(self).fields_model() == old(self).fields_model().push(
                (name@, value.deep_view()),
            ),
            final(self).index_model() == old(self).index_model(),
    {
        self.fields.push((name.to_owned(), value));
        proof {
            assert(self.fields_model() =~= old(self).fields_model().push(
                (name@, value.deep_view()),
            ));
        }
        Ok(())
    }

    /// Finalize: the buffered fields become `Union(ordinal, Record)`.
    pub fn end(self) -> (r: Result<Value, Error>)
        ensures
            r matches Ok(val) && val.deep_view() == ValueModel::Union(
                self.index_model(),
                Box::new(ValueModel::Record(self.fields_model())),
            ),
    {
        let inner = Value::Record(self.fields);
        proof {
            assert(value_model(inner)->Record_0 =~= self.fields_model());
        }
        Ok(Value::Union(self.variant_index, Box::new(inner)))
    }
}

} // verus!

