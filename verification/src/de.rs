//! The decode bridge: replaying a [`Value`] tree as the requests of a
//! structured-decoding protocol. The protocol adapter that rebuilds the typed
//! value lives outside the library and only asks the methods here for the
//! matching pieces of the tree.
use vstd::prelude::*;

use vstd::utf8::{encode_utf8, valid_utf8};

use crate::error::{error, Error, ErrorKind};
use crate::types::{value_model, Value, ValueModel};

verus! {

/// Relies on `std::str::from_utf8`: returns the text exactly when the bytes
/// are valid UTF-8, and the bytes are then the text's UTF-8 encoding. A
/// failure is reported as its message.
#[verifier::external_body]
fn utf8_str<'a>(bytes: &'a [u8]) -> (r: Result<&'a str, String>)
    ensures
        r is Ok <==> valid_utf8(bytes@),
        r matches Ok(s) ==> encode_utf8(s@) == bytes@,
{
    std::str::from_utf8(bytes).map_err(|e| e.to_string())
}

/// The tags a shapeless ("any") request accepts: the five unambiguous
/// primitives and null. Every other tag must be requested by its shape.
pub open spec fn plain_primitive(m: ValueModel) -> bool {
    ||| m is Null
    ||| m is Boolean
    ||| m is Int
    ||| m is Long
    ||| m is Float
    ||| m is Double
}

/// What an optional request reads from a value: absent for `Union(0, Null)`,
/// present with the inner value for `Union(1, _)`, and refused otherwise.
pub open spec fn decode_optional(m: ValueModel) -> Option<Option<ValueModel>> {
    match m {
        ValueModel::Union(index, inner) => {
            if index == 0 && *inner == ValueModel::Null {
                Some(None)
            } else if index == 1 {
                Some(Some(*inner))
            } else {
                None
            }
        },
        _ => None,
    }
}

/// Replays one [`Value`] tree.
pub struct Deserializer<'de> {
    input: &'de Value,
}

impl<'de> Deserializer<'de> {
    /// The model of the value being replayed.
    pub closed spec fn input_model(&self) -> ValueModel {
        value_model(*self.input)
    }

    /// Replay the given value.
    pub fn new(input: &'de Value) -> (r: Self)
        ensures
            r.input_model() == input.deep_view(),
    {
        Deserializer { input }
    }

    /// A shapeless request hands the value through only for null and the five
    /// unambiguous primitive tags; every other tag is an error.
    pub fn deserialize_any(&self) -> (r: Result<&'de Value, Error>)
        ensures
            plain_primitive(self.input_model()) ==> (r matches Ok(v) && v.deep_view()
                == self.input_model()),
            !plain_primitive(self.input_model()) ==> (r matches Err(e) && e.kind_model()
                matches ErrorKind::Deserialization(m) && m@ == "incorrect value"@),
    {
        match self.input {
            Value::Null => Ok(self.input),
            Value::Boolean(_) => Ok(self.input),
            Value::Int(_) => Ok(self.input),
            Value::Long(_) => Ok(self.input),
            Value::Float(_) => Ok(self.input),
            Value::Double(_) => Ok(self.input),
            _ => Err(error(ErrorKind::Deserialization(String::from_str("incorrect value")))),
        }
    }

    /// Single-character decoding is unsupported and always fails.
    pub fn deserialize_char(&self) -> (r: Result<(), Error>)
        ensures
            r matches Err(e) && e.kind_model() matches ErrorKind::Deserialization(m) && m@
                == "avro does not support char"@,
    {
        Err(error(ErrorKind::Deserialization(String::from_str("avro does not support char"))))
    }

    /// A text request accepts a `String` directly, or `Bytes` / `Fixed`
    /// through UTF-8 decoding; invalid UTF-8 and every other tag fail.
    pub fn deserialize_str(&self) -> (r: Result<&'de str, Error>)
        ensures
            self.input_model() matches ValueModel::String(t) ==> (r matches Ok(s) && s@ == t),
            (self.input_model() matches ValueModel::Bytes(b) ==> ((valid_utf8(b) ==> (r matches Ok(
                s,
            ) && encode_utf8(s@) == b)) && (!valid_utf8(b) ==> (r matches Err(e) && e.kind_model()
                is Deserialization)))),
            (self.input_model() matches ValueModel::Fixed(_, b) ==> ((valid_utf8(b) ==> (
            r matches Ok(s) && encode_utf8(s@) == b)) && (!valid_utf8(b) ==> (r matches Err(e)
                && e.kind_model() is Deserialization)))),
            !(self.input_model() is String || self.input_model() is Bytes || self.input_model()
                is Fixed) ==> (r matches Err(e) && e.kind_model()
                matches ErrorKind::Deserialization(m) && m@ == "not a string|bytes|fixed"@),
    {
        match self.input {
            Value::String(s) => Ok(s.as_str()),
            Value::Bytes(bytes) => {
                match utf8_str(bytes.as_slice()) {
                    Ok(s) => Ok(s),
                    Err(m) => Err(error(ErrorKind::Deserialization(m))),
                }
            },
            Value::Fixed(_, bytes) => {
                match utf8_str(bytes.as_slice()) {
                    Ok(s) => Ok(s),
                    Err(m) => Err(error(ErrorKind::Deserialization(m))),
                }
            },
            _ => Err(
                error(ErrorKind::Deserialization(String::from_str("not a string|bytes|fixed"))),
            ),
        }
    }

    /// Like [`Self::deserialize_str`], but hands the text out owned.
    pub fn deserialize_string(&self) -> (r: Result<String, Error>)
        ensures
            self.input_model() matches ValueModel::String(t) ==> (r matches Ok(s) && s@ == t),
            (self.input_model() matches ValueModel::Bytes(b) ==> ((valid_utf8(b) ==> (r matches Ok(
                s,
            ) && encode_utf8(s@) == b)) && (!valid_utf8(b) ==> (r matches Err(e) && e.kind_model()
                is Deserialization)))),
            (self.input_model() matches ValueModel::Fixed(_, b) ==> ((valid_utf8(b) ==> (
            r matches Ok(s) && encode_utf8(s@) == b)) && (!valid_utf8(b) ==> (r matches Err(e)
                && e.kind_model() is Deserialization)))),
            !(self.input_model() is String || self.input_model() is Bytes || self.input_model()
                is Fixed) ==> (r matches Err(e) && e.kind_model()
                matches ErrorKind::Deserialization(m) && m@ == "not a string|bytes|fixed"@),
    {
        match self.deserialize_str() {
            Ok(s) => Ok(s.to_owned()),
            Err(e) => Err(e),
        }
    }

    /// A byte-sequence request accepts `Bytes` / `Fixed` directly, or a
    /// `String` as its UTF-8 bytes; every other tag fails.
    pub fn deserialize_bytes(&self) -> (r: Result<&'de [u8], Error>)
        ensures
            self.input_model() matches ValueModel::String(t) ==> (r matches Ok(b) && b@
                == encode_utf8(t)),
            self.input_model() matches ValueModel::Bytes(b0) ==> (r matches Ok(b) && b@ == b0),
            self.input_model() matches ValueModel::Fixed(_, b0) ==> (r matches Ok(b) && b@ == b0),
            !(self.input_model() is String || self.input_model() is Bytes || self.input_model()
                is Fixed) ==> (r matches Err(e) && e.kind_model()
                matches ErrorKind::Deserialization(m) && m@ == "not a string|bytes|fixed"@),
    {
        match self.input {
            Value::String(s) => Ok(s.as_str().as_bytes()),
            Value::Bytes(bytes) => Ok(bytes.as_slice()),
            Value::Fixed(_, bytes) => Ok(bytes.as_slice()),
            _ => Err(
                error(ErrorKind::Deserialization(String::from_str("not a string|bytes|fixed"))),
            ),
        }
    }

    /// Like [`Self::deserialize_bytes`], but hands the bytes out owned.
    pub fn deserialize_byte_buf(&self) -> (r: Result<Vec<u8>, Error>)
        ensures
            self.input_model() matches ValueModel::String(t) ==> (r matches Ok(b) && b@
                == encode_utf8(t)),
            self.input_model() matches ValueModel::Bytes(b0) ==> (r matches Ok(b) && b@ == b0),
            self.input_model() matches ValueModel::Fixed(_, b0) ==> (r matches Ok(b) && b@ == b0),
            !(self.input_model() is String || self.input_model() is Bytes || self.input_model()
                is Fixed) ==> (r matches Err(e) && e.kind_model()
                matches ErrorKind::Deserialization(m) && m@ == "not a string|bytes|fixed"@),
    {
        match self.deserialize_bytes() {
            Ok(b) => Ok(crate::types::bytes_to_vec(b)),
            Err(e) => Err(e),
        }
    }

    /// An optional request accepts only the two-index convention:
    /// `Union(0, Null)` is absent, `Union(1, v)` is present with `v`.
    pub fn deserialize_option(&self) -> (r: Result<Option<&'de Value>, Error>)
        ensures
            decode_optional(self.input_model()) is None ==> (r matches Err(e) && e.kind_model()
                matches ErrorKind::Deserialization(m) && m@ == "not a union"@),
            decode_optional(self.input_model()) matches Some(None) ==> (r matches Ok(o) && o
                is None),
            decode_optional(self.input_model()) matches Some(Some(inner)) ==> (r matches Ok(o)
                && o matches Some(v) && v.deep_view() == inner),
    {
        match self.input {
            Value::Union(index, inner) => {
                if *index == 0 {
                    if let Value::Null = &**inner {
                        Ok(None)
                    } else {
                        Err(error(ErrorKind::Deserialization(String::from_str("not a union"))))
                    }
                } else if *index == 1 {
                    Ok(Some(&**inner))
                } else {
                    Err(error(ErrorKind::Deserialization(String::from_str("not a union"))))
                }
            },
            _ => Err(error(ErrorKind::Deserialization(String::from_str("not a union")))),
        }
    }

    /// A unit request accepts only `Null`.
    pub fn deserialize_unit(&self) -> (r: Result<(), Error>)
        ensures
            self.input_model() is Null ==> r is Ok,
            !(self.input_model() is Null) ==> (r matches Err(e) && e.kind_model()
                matches ErrorKind::Deserialization(m) && m@ == "not a null"@),
    {
        match self.input {
            Value::Null => Ok(()),
            _ => Err(error(ErrorKind::Deserialization(String::from_str("not a null")))),
        }
    }

    /// A unit-struct request accepts only `Null`, whatever its name.
    pub fn deserialize_unit_struct(&self, _name: &str) -> (r: Result<(), Error>)
        ensures
            self.input_model() is Null ==> r is Ok,
            !(self.input_model() is Null) ==> (r matches Err(e) && e.kind_model()
                matches ErrorKind::Deserialization(m) && m@ == "not a null"@),
    {
        self.deserialize_unit()
    }

    /// A newtype-struct request recurses transparently into the same value.
    pub fn deserialize_newtype_struct(&self, _name: &str) -> (r: &'de Value)
        ensures
            r.deep_view() == self.input_model(),
    {
        self.input
    }

    /// A sequence request accepts only an `Array`, whose items are then
    /// handed out one at a time.
    pub fn deserialize_seq(&self) -> (r: Result<SeqDeserializer<'de>, Error>)
        ensures
            self.input_model() matches ValueModel::Array(items) ==> (r matches Ok(d)
                && d.remaining_model() == items),
            !(self.input_model() is Array) ==> (r matches Err(e) && e.kind_model()
                matches ErrorKind::Deserialization(m) && m@ == "not an array"@),
    {
        match self.input {
            Value::Array(items) => {
                let d = SeqDeserializer::new(items);
                proof {
                    assert(d.remaining_model() =~= self.input_model()->Array_0);
                }
                Ok(d)
            },
            _ => Err(error(ErrorKind::Deserialization(String::from_str("not an array")))),
        }
    }

    /// A fixed-arity tuple request is served exactly like a sequence.
    pub fn deserialize_tuple(&self, _len: usize) -> (r: Result<SeqDeserializer<'de>, Error>)
        ensures
            self.input_model() matches ValueModel::Array(items) ==> (r matches Ok(d)
                && d.remaining_model() == items),
            !(self.input_model() is Array) ==> (r matches Err(e) && e.kind_model()
                matches ErrorKind::Deserialization(m) && m@ == "not an array"@),
    {
        self.deserialize_seq()
    }

    /// A tuple-struct request is served exactly like a sequence.
    pub fn deserialize_tuple_struct(&self, _name: &str, _len: usize) -> (r: Result<
        SeqDeserializer<'de>,
        Error,
    >)
        ensures
            self.input_model() matches ValueModel::Array(items) ==> (r matches Ok(d)
                && d.remaining_model() == items),
            !(self.input_model() is Array) ==> (r matches Err(e) && e.kind_model()
                matches ErrorKind::Deserialization(m) && m@ == "not an array"@),
    {
        self.deserialize_seq()
    }

    /// A map request accepts only a `Mapping`; keys and values are then
    /// handed out strictly alternating.
    pub fn deserialize_map(&self) -> (r: Result<MapDeserializer<'de>, Error>)
        ensures
            self.input_model() matches ValueModel::Mapping(entries) ==> (r matches Ok(d)
                && d.remaining_model() == entries && d.pending_model() is None),
            !(self.input_model() is Mapping) ==> (r matches Err(e) && e.kind_model()
                matches ErrorKind::Deserialization(m) && m@ == "not a map"@),
    {
        match self.input {
            Value::Mapping(entries) => {
                let d = MapDeserializer::new(entries);
                proof {
                    assert(d.remaining_model() =~= self.input_model()->Mapping_0);
                }
                Ok(d)
            },
            _ => Err(error(ErrorKind::Deserialization(String::from_str("not a map")))),
        }
    }

    /// A struct request accepts only a `Record`; its fields are then walked
    /// in stored order, each name immediately followed by its value.
    pub fn deserialize_struct(&self, _name: &str) -> (r: Result<StructDeserializer<'de>, Error>)
        ensures
            self.input_model() matches ValueModel::Record(pairs) ==> (r matches Ok(d)
                && d.remaining_model() == pairs && d.pending_model() is None),
            !(self.input_model() is Record) ==> (r matches Err(e) && e.kind_model()
                matches ErrorKind::Deserialization(m) && m@ == "not a record"@),
    {
        match self.input {
            Value::Record(pairs) => {
                let d = StructDeserializer::new(pairs);
                proof {
                    assert(d.remaining_model() =~= self.input_model()->Record_0);
                }
                Ok(d)
            },
            _ => Err(error(ErrorKind::Deserialization(String::from_str("not a record")))),
        }
    }

    /// An enum request accepts only a `Union` whose index falls inside the
    /// caller's variant list; it hands back the index, which selects the
    /// variant name, and the payload.
    pub fn deserialize_enum(&self, n_variants: usize) -> (r: Result<(usize, &'de Value), Error>)
        ensures
            (self.input_model() matches ValueModel::Union(index, inner) ==> {
                &&& index < n_variants ==> (r matches Ok(p) && p.0 == index && p.1.deep_view()
                    == *inner)
                &&& index >= n_variants ==> (r matches Err(e) && e.kind_model()
                    matches ErrorKind::Deserialization(m) && m@ == "enum variant index out of range"@)
            }),
            !(self.input_model() is Union) ==> (r matches Err(e) && e.kind_model()
                matches ErrorKind::Deserialization(m) && m@ == "not an enum"@),
    {
        match self.input {
            Value::Union(index, inner) => {
                if *index < n_variants {
                    Ok((*index, &**inner))
                } else {
                    Err(
                        error(
                            ErrorKind::Deserialization(
                                String::from_str("enum variant index out of range"),
                            ),
                        ),
                    )
                }
            },
            _ => Err(error(ErrorKind::Deserialization(String::from_str("not an enum")))),
        }
    }

    /// An identifier request is served exactly like a text request.
    pub fn deserialize_identifier(&self) -> (r: Result<&'de str, Error>)
        ensures
            self.input_model() matches ValueModel::String(t) ==> (r matches Ok(s) && s@ == t),
            (self.input_model() matches ValueModel::Bytes(b) ==> ((valid_utf8(b) ==> (r matches Ok(
                s,
            ) && encode_utf8(s@) == b)) && (!valid_utf8(b) ==> (r matches Err(e) && e.kind_model()
                is Deserialization)))),
            (self.input_model() matches ValueModel::Fixed(_, b) ==> ((valid_utf8(b) ==> (
            r matches Ok(s) && encode_utf8(s@) == b)) && (!valid_utf8(b) ==> (r matches Err(e)
                && e.kind_model() is Deserialization)))),
            !(self.input_model() is String || self.input_model() is Bytes || self.input_model()
                is Fixed) ==> (r matches Err(e) && e.kind_model()
                matches ErrorKind::Deserialization(m) && m@ == "not a string|bytes|fixed"@),
    {
        self.deserialize_str()
    }

    /// An ignored request succeeds trivially, whatever the value's shape.
    pub fn deserialize_ignored_any(&self) -> (r: Result<(), Error>)
        ensures
            r is Ok,
    {
        Ok(())
    }
}

/// Replays the items of an `Array`, one at a time, on demand.
pub struct SeqDeserializer<'de> {
    items: &'de Vec<Value>,
    pos: usize,
}

impl<'de> SeqDeserializer<'de> {
    #[verifier::type_invariant]
    spec fn wf(&self) -> bool {
        self.pos <= self.items@.len()
    }

    /// The items not yet handed out, in order.
    pub closed spec fn remaining_model(&self) -> Seq<ValueModel> {
        self.items.deep_view().skip(self.pos as int)
    }

    /// Replay the given items.
    pub fn new(items: &'de Vec<Value>) -> (r: Self)
        ensures
            r.remaining_model() == items.deep_view(),
    {
        let r = SeqDeserializer { items, pos: 0 };
        proof {
            assert(r.remaining_model() =~= items.deep_view());
        }
        r
    }

    /// The next item, or a clean end signal when the items are exhausted.
    pub fn next_element(&mut self) -> (r: Option<&'de Value>)
        ensures
            old(self).remaining_model().len() == 0 ==> (r is None && final(self).remaining_model()
                == old(self).remaining_model()),
            old(self).remaining_model().len() > 0 ==> (r matches Some(v) && v.deep_view() == old(
                self,
            ).remaining_model()[0] && final(self).remaining_model() == old(
                self,
            ).remaining_model().drop_first()),
    {
        proof {
            use_type_invariant(&*self);
        }
        if self.pos < self.items.len() {
            let v = &self.items[self.pos];
            self.pos += 1;
            proof {
                assert(self.remaining_model() =~= old(self).remaining_model().drop_first());
                assert(v.deep_view() == old(self).remaining_model()[0]);
            }
            Some(v)
        } else {
            None
        }
    }
}

/// Replays the entries of a `Mapping`: each key is followed by its value, in
/// lockstep. Producing a key caches its value; the next value request
/// consumes the cache; a value request with an empty cache is a protocol
/// violation and fails.
pub struct MapDeserializer<'de> {
    entries: &'de Vec<(String, Value)>,
    pos: usize,
    pending: bool,
}

impl<'de> MapDeserializer<'de> {
    #[verifier::type_invariant]
    spec fn wf(&self) -> bool {
        &&& self.pos <= self.entries@.len()
        &&& self.pending ==> 1 <= self.pos
    }

    /// The entries not yet handed out, in order.
    pub closed spec fn remaining_model(&self) -> Seq<(Seq<char>, ValueModel)> {
        self.entries.deep_view().skip(self.pos as int)
    }

    /// The value cached by the last key request and not yet consumed.
    pub closed spec fn pending_model(&self) -> Option<ValueModel> {
        if self.pending {
            Some(self.entries.deep_view()[self.pos - 1].1)
        } else {
            None
        }
    }

    /// Replay the given entries.
    pub fn new(entries: &'de Vec<(String, Value)>) -> (r: Self)
        ensures
            r.remaining_model() == entries.deep_view(),
            r.pending_model() is None,
    {
        let r = MapDeserializer { entries, pos: 0, pending: false };
        proof {
            assert(r.remaining_model() =~= entries.deep_view());
        }
        r
    }

    /// The next key, or a clean end signal when the entries are exhausted.
    /// Handing out a key caches its value for the next value request.
    pub fn next_key(&mut self) -> (r: Option<&'de String>)
        ensures
            old(self).remaining_model().len() == 0 ==> (r is None && final(self).remaining_model()
                == old(self).remaining_model() && final(self).pending_model() == old(
                self,
            ).pending_model()),
            old(self).remaining_model().len() > 0 ==> (r matches Some(k) && k@ == old(
                self,
            ).remaining_model()[0].0 && final(self).remaining_model() == old(
                self,
            ).remaining_model().drop_first() && final(self).pending_model() == Some(
                old(self).remaining_model()[0].1,
            )),
    {
        proof {
            use_type_invariant(&*self);
        }
        if self.pos < self.entries.len() {
            let k = &self.entries[self.pos].0;
            self.pos += 1;
            self.pending = true;
            proof {
                assert(self.remaining_model() =~= old(self).remaining_model().drop_first());
                assert(k@ == old(self).remaining_model()[0].0);
            }
            Some(k)
        } else {
            None
        }
    }

    /// The value cached by the preceding key request. Requesting a value
    /// without a preceding key request is a protocol violation and fails.
    pub fn next_value(&mut self) -> (r: Result<&'de Value, Error>)
        ensures
            final(self).remaining_model() == old(self).remaining_model(),
            final(self).pending_model() is None,
            old(self).pending_model() matches Some(m) ==> (r matches Ok(v) && v.deep_view() == m),
            old(self).pending_model() is None ==> (r matches Err(e) && e.kind_model()
                matches ErrorKind::Deserialization(msg) && msg@
                == "should not happen - too many values"@),
    {
        proof {
            use_type_invariant(&*self);
        }
        if self.pending {
            self.pending = false;
            let v = &self.entries[self.pos - 1].1;
            Ok(v)
        } else {
            Err(
                error(
                    ErrorKind::Deserialization(
                        String::from_str("should not happen - too many values"),
                    ),
                ),
            )
        }
    }
}

/// Replays the fields of a `Record` in stored order: each field name is
/// followed by its value, in the same lockstep discipline as a map.
pub struct StructDeserializer<'de> {
    fields: &'de Vec<(String, Value)>,
    pos: usize,
    pending: bool,
}

impl<'de> StructDeserializer<'de> {
    #[verifier::type_invariant]
    spec fn wf(&self) -> bool {
        &&& self.pos <= self.fields@.len()
        &&& self.pending ==> 1 <= self.pos
    }

    /// The fields not yet handed out, in stored order.
    pub closed spec fn remaining_model(&self) -> Seq<(Seq<char>, ValueModel)> {
        self.fields.deep_view().skip(self.pos as int)
    }

    /// The value cached by the last field-name request and not yet consumed.
    pub closed spec fn pending_model(&self) -> Option<ValueModel> {
        if self.pending {
            Some(self.fields.deep_view()[self.pos - 1].1)
        } else {
            None
        }
    }

    /// Replay the given fields.
    pub fn new(fields: &'de Vec<(String, Value)>) -> (r: Self)
        ensures
            r.remaining_model() == fields.deep_view(),
            r.pending_model() is None,
    {
        let r = StructDeserializer { fields, pos: 0, pending: false };
        proof {
            assert(r.remaining_model() =~= fields.deep_view());
        }
        r
    }

    /// The next field name, or a clean end signal when the fields are
    /// exhausted. Handing out a name caches its value for the next value
    /// request.
    pub fn next_key(&mut self) -> (r: Option<&'de String>)
        ensures
            old(self).remaining_model().len() == 0 ==> (r is None && final(self).remaining_model()
                == old(self).remaining_model() && final(self).pending_model() == old(
                self,
            ).pending_model()),
            old(self).remaining_model().len() > 0 ==> (r matches Some(k) && k@ == old(
                self,
            ).remaining_model()[0].0 && final(self).remaining_model() == old(
                self,
            ).remaining_model().drop_first() && final(self).pending_model() == Some(
                old(self).remaining_model()[0].1,
            )),
    {
        proof {
            use_type_invariant(&*self);
        }
        if self.pos < self.fields.len() {
            let k = &self.fields[self.pos].0;
            self.pos += 1;
            self.pending = true;
            proof {
                assert(self.remaining_model() =~= old(self).remaining_model().drop_first());
                assert(k@ == old(self).remaining_model()[0].0);
            }
            Some(k)
        } else {
            None
        }
    }

    /// The value cached by the preceding field-name request. Requesting a
    /// value without a preceding name request is a protocol violation and
    /// fails.
    pub fn next_value(&mut self) -> (r: Result<&'de Value, Error>)
        ensures
            final(self).remaining_model() == old(self).remaining_model(),
            final(self).pending_model() is None,
            old(self).pending_model() matches Some(m) ==> (r matches Ok(v) && v.deep_view() == m),
            old(self).pending_model() is None ==> (r matches Err(e) && e.kind_model()
                matches ErrorKind::Deserialization(msg) && msg@
                == "should not happen - too many values"@),
    {
        proof {
            use_type_invariant(&*self);
        }
        if self.pending {
            self.pending = false;
            let v = &self.fields[self.pos - 1].1;
            Ok(v)
        } else {
            Err(
                error(
                    ErrorKind::Deserialization(
                        String::from_str("should not happen - too many values"),
                    ),
                ),
            )
        }
    }
}

/// Replays the payload of a `Union` as one declared enum variant.
pub struct EnumDeserializer<'de> {
    variant_name: &'de str,
    variant_value: &'de Value,
}

impl<'de> EnumDeserializer<'de> {
    /// The model of the selected variant's name.
    pub closed spec fn name_model(&self) -> Seq<char> {
        self.variant_name@
    }

    /// The model of the variant's payload.
    pub closed spec fn payload_model(&self) -> ValueModel {
        value_model(*self.variant_value)
    }

    /// Replay the payload under the selected variant name.
    pub fn new(variant_name: &'de str, variant_value: &'de Value) -> (r: Self)
        ensures
            r.name_model() == variant_name@,
            r.payload_model() == variant_value.deep_view(),
    {
        EnumDeserializer { variant_name, variant_value }
    }

    /// The selected variant's name, offered as the identifier token.
    pub fn variant_name(&self) -> (r: &'de str)
        ensures
            r@ == self.name_model(),
    {
        self.variant_name
    }

    /// A unit variant ignores its payload and always succeeds.
    pub fn unit_variant(&self) -> (r: Result<(), Error>)
        ensures
            r is Ok,
    {
        Ok(())
    }

    /// A positional-fields variant requires an `Array` payload, whose items
    /// are then handed out like a sequence.
    pub fn tuple_variant(&self, _len: usize) -> (r: Result<SeqDeserializer<'de>, Error>)
        ensures
            self.payload_model() matches ValueModel::Array(items) ==> (r matches Ok(d)
                && d.remaining_model() == items),
            !(self.payload_model() is Array) ==> (r matches Err(e) && e.kind_model()
                matches ErrorKind::Deserialization(m) && m@ == "tuple_variant: not an array"@),
    {
        match self.variant_value {
            Value::Array(items) => {
                let d = SeqDeserializer::new(items);
                proof {
                    assert(d.remaining_model() =~= self.payload_model()->Array_0);
                }
                Ok(d)
            },
            _ => Err(
                error(ErrorKind::Deserialization(String::from_str("tuple_variant: not an array"))),
            ),
        }
    }

    /// A named-fields variant requires a `Record` payload, whose fields are
    /// then walked like a struct.
    pub fn struct_variant(&self) -> (r: Result<StructDeserializer<'de>, Error>)
        ensures
            self.payload_model() matches ValueModel::Record(pairs) ==> (r matches Ok(d)
                && d.remaining_model() == pairs && d.pending_model() is None),
            !(self.payload_model() is Record) ==> (r matches Err(e) && e.kind_model()
                matches ErrorKind::Deserialization(m) && m@ == "struct_variant: not a record"@),
    {
        match self.variant_value {
            Value::Record(pairs) => {
                let d = StructDeserializer::new(pairs);
                proof {
                    assert(d.remaining_model() =~= self.payload_model()->Record_0);
                }
                Ok(d)
            },
            _ => Err(
                error(
                    ErrorKind::Deserialization(String::from_str("struct_variant: not a record")),
                ),
            ),
        }
    }
}

} // verus!
