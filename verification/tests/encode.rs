use avro_value::error::ErrorKind;
use avro_value::ser::{MapSerializer, SeqSerializer, Serializer, StructSerializer,
    VariantSeqSerializer, VariantStructSerializer};
use avro_value::types::Value;

#[test]
fn encode_primitives() {
    let s = Serializer::default();
    assert_eq!(s.serialize_bool(true).unwrap(), Value::Boolean(true));
    assert_eq!(s.serialize_i8(-3).unwrap(), Value::Int(-3));
    assert_eq!(s.serialize_i16(300).unwrap(), Value::Int(300));
    assert_eq!(s.serialize_i32(7).unwrap(), Value::Int(7));
    assert_eq!(s.serialize_i64(27).unwrap(), Value::Long(27));
    assert_eq!(s.serialize_u8(255).unwrap(), Value::Int(255));
    assert_eq!(s.serialize_u16(65535).unwrap(), Value::Int(65535));
    assert_eq!(s.serialize_char('x').unwrap(), Value::String("x".to_string()));
    assert_eq!(s.serialize_str("foo").unwrap(), Value::String("foo".to_string()));
    assert_eq!(s.serialize_bytes(&[1, 2, 3]).unwrap(), Value::Bytes(vec![1, 2, 3]));
    assert_eq!(s.serialize_unit().unwrap(), Value::Null);
    assert_eq!(s.serialize_unit_struct("nothing").unwrap(), Value::Null);
}

#[test]
fn encode_unsigned_widening() {
    let s = Serializer::default();
    assert_eq!(s.serialize_u32(5).unwrap(), Value::Int(5));
    assert_eq!(s.serialize_u32(i32::MAX as u32).unwrap(), Value::Int(i32::MAX));
    assert_eq!(
        s.serialize_u32(i32::MAX as u32 + 1).unwrap(),
        Value::Long(i32::MAX as i64 + 1)
    );
    assert_eq!(s.serialize_u32(u32::MAX).unwrap(), Value::Long(u32::MAX as i64));
}

#[test]
fn encode_u64_overflow() {
    let s = Serializer::default();
    assert_eq!(s.serialize_u64(27).unwrap(), Value::Long(27));
    assert_eq!(
        s.serialize_u64(i64::MAX as u64).unwrap(),
        Value::Long(i64::MAX)
    );
    let err = s.serialize_u64(i64::MAX as u64 + 1).unwrap_err();
    match err.into_kind() {
        ErrorKind::Serialization(msg) => assert_eq!(msg, "u64 is too large"),
        other => panic!("unexpected kind: {:?}", other),
    }
    assert!(s.serialize_u64(u64::MAX).is_err());
}

#[test]
fn encode_optional_convention() {
    let s = Serializer::default();
    assert_eq!(
        s.serialize_none().unwrap(),
        Value::Union(0, Box::new(Value::Null))
    );
    let inner = s.serialize_i64(5).unwrap();
    assert_eq!(
        s.serialize_some(inner).unwrap(),
        Value::Union(1, Box::new(Value::Long(5)))
    );
}

#[test]
fn encode_enum_variants() {
    let s = Serializer::default();
    assert_eq!(
        s.serialize_unit_variant(2, "c").unwrap(),
        Value::Union(2, Box::new(Value::Null))
    );
    assert_eq!(
        s.serialize_newtype_variant(1, Value::Long(9)).unwrap(),
        Value::Union(1, Box::new(Value::Long(9)))
    );

    let mut vs: VariantSeqSerializer = s.serialize_tuple_variant(3, "t", 2).unwrap();
    vs.serialize_field(Value::Int(1)).unwrap();
    vs.serialize_field(Value::Int(2)).unwrap();
    assert_eq!(
        vs.end().unwrap(),
        Value::Union(3, Box::new(Value::Array(vec![Value::Int(1), Value::Int(2)])))
    );

    let mut st: VariantStructSerializer = s.serialize_struct_variant(1, "s", 1).unwrap();
    st.serialize_field("x", Value::Boolean(true)).unwrap();
    assert_eq!(
        st.end().unwrap(),
        Value::Union(
            1,
            Box::new(Value::Record(vec![("x".to_string(), Value::Boolean(true))]))
        )
    );
}

#[test]
fn encode_sequence_in_order() {
    let s = Serializer::default();
    let mut seq: SeqSerializer = s.serialize_seq(Some(3)).unwrap();
    seq.serialize_element(Value::Int(1)).unwrap();
    seq.serialize_element(Value::Int(2)).unwrap();
    seq.serialize_element(Value::Int(3)).unwrap();
    assert_eq!(
        seq.end().unwrap(),
        Value::Array(vec![Value::Int(1), Value::Int(2), Value::Int(3)])
    );

    let mut tup: SeqSerializer = s.serialize_tuple(2).unwrap();
    tup.serialize_element(Value::Null).unwrap();
    tup.serialize_element(Value::Boolean(false)).unwrap();
    assert_eq!(
        tup.end().unwrap(),
        Value::Array(vec![Value::Null, Value::Boolean(false)])
    );

    let empty: SeqSerializer = s.serialize_tuple_struct("pair", 0).unwrap();
    assert_eq!(empty.end().unwrap(), Value::Array(vec![]));
}

#[test]
fn encode_newtype_struct_is_transparent() {
    let s = Serializer::default();
    assert_eq!(
        s.serialize_newtype_struct("wrapper", Value::Long(8)).unwrap(),
        Value::Long(8)
    );
}

#[test]
fn encode_struct_scenario() {
    // The struct { a: 27 as 64-bit signed, b: "foo" }, driven field by field.
    let s = Serializer::default();
    let mut st: StructSerializer = s.serialize_struct("Test", 2).unwrap();
    st.serialize_field("a", s.serialize_i64(27).unwrap()).unwrap();
    st.serialize_field("b", s.serialize_str("foo").unwrap()).unwrap();
    let expected = Value::Record(vec![
        ("a".to_string(), Value::Long(27)),
        ("b".to_string(), Value::String("foo".to_string())),
    ]);
    assert_eq!(st.end().unwrap(), expected);
}

#[test]
fn encode_map_key_must_be_string() {
    let s = Serializer::default();
    let mut m: MapSerializer = s.serialize_map(Some(1)).unwrap();
    let err = m.serialize_key(Value::Int(3)).unwrap_err();
    match err.into_kind() {
        ErrorKind::Serialization(msg) => assert_eq!(msg, "map key is not a string"),
        other => panic!("unexpected kind: {:?}", other),
    }
}

#[test]
fn encode_map_pairs_in_order() {
    let s = Serializer::default();
    let mut m: MapSerializer = s.serialize_map(None).unwrap();
    m.serialize_key(Value::String("a".to_string())).unwrap();
    m.serialize_value(Value::Long(1)).unwrap();
    m.serialize_key(Value::String("b".to_string())).unwrap();
    m.serialize_value(Value::Long(2)).unwrap();
    assert_eq!(
        m.end().unwrap(),
        Value::Mapping(vec![
            ("a".to_string(), Value::Long(1)),
            ("b".to_string(), Value::Long(2)),
        ])
    );
}

#[test]
fn encode_map_repeated_key_keeps_last_value() {
    let s = Serializer::default();
    let mut m: MapSerializer = s.serialize_map(None).unwrap();
    m.serialize_key(Value::String("a".to_string())).unwrap();
    m.serialize_value(Value::Long(1)).unwrap();
    m.serialize_key(Value::String("a".to_string())).unwrap();
    m.serialize_value(Value::Long(2)).unwrap();
    assert_eq!(
        m.end().unwrap(),
        Value::Mapping(vec![("a".to_string(), Value::Long(2))])
    );
}

#[test]
fn encode_map_key_without_value_is_dropped() {
    let s = Serializer::default();
    let mut m: MapSerializer = s.serialize_map(None).unwrap();
    m.serialize_key(Value::String("a".to_string())).unwrap();
    m.serialize_value(Value::Long(1)).unwrap();
    m.serialize_key(Value::String("b".to_string())).unwrap();
    assert_eq!(
        m.end().unwrap(),
        Value::Mapping(vec![("a".to_string(), Value::Long(1))])
    );
}

#[test]
fn value_clone_is_deep() {
    let v = Value::Record(vec![
        (
            "a".to_string(),
            Value::Array(vec![Value::Int(1), Value::Union(1, Box::new(Value::Long(2)))]),
        ),
        ("b".to_string(), Value::Bytes(vec![1, 2, 3])),
    ]);
    assert_eq!(v.clone(), v);
}
