use avro_value::json::number_to_value;
use avro_value::schema::{Name, RecordField, Schema};
use avro_value::types::{Record, ToAvro, Value};

fn two_field_schema() -> Schema {
    Schema::Record {
        name: Name::new("Test"),
        fields: vec![
            RecordField {
                name: "a".to_string(),
                schema: Schema::Long,
            },
            RecordField {
                name: "b".to_string(),
                schema: Schema::String,
            },
        ],
    }
}

#[test]
fn record_new_defaults_fields_to_null() {
    let rec = Record::new(&two_field_schema()).unwrap();
    assert_eq!(
        rec.fields,
        vec![
            ("a".to_string(), Value::Null),
            ("b".to_string(), Value::Null),
        ]
    );
}

#[test]
fn record_new_rejects_non_record_schema() {
    assert!(Record::new(&Schema::Long).is_none());
}

#[test]
fn record_put_sets_known_fields_only() {
    let mut rec = Record::new(&two_field_schema()).unwrap();
    rec.put("a", 27i64);
    rec.put("b", "foo");
    rec.put("c", 3i32);
    assert_eq!(
        rec.fields,
        vec![
            ("a".to_string(), Value::Long(27)),
            ("b".to_string(), Value::String("foo".to_string())),
        ]
    );
    let value = rec.avro();
    assert_eq!(
        value,
        Value::Record(vec![
            ("a".to_string(), Value::Long(27)),
            ("b".to_string(), Value::String("foo".to_string())),
        ])
    );
    assert!(value.validate(&two_field_schema()));
}

#[test]
fn to_avro_conversions() {
    assert_eq!(true.avro(), Value::Boolean(true));
    assert_eq!(7i32.avro(), Value::Int(7));
    assert_eq!(27i64.avro(), Value::Long(27));
    assert_eq!(5usize.avro(), Value::Long(5));
    assert_eq!(().avro(), Value::Null);
    assert_eq!("foo".avro(), Value::String("foo".to_string()));
    assert_eq!("foo".to_string().avro(), Value::String("foo".to_string()));
    assert_eq!((&[1u8, 2u8][..]).avro(), Value::Bytes(vec![1, 2]));
    assert_eq!(Value::Int(3).avro(), Value::Int(3));
}

#[test]
fn to_avro_optional_convention() {
    let absent: Option<i32> = None;
    assert_eq!(absent.avro(), Value::Union(0, Box::new(Value::Null)));
    assert_eq!(
        Some(42i64).avro(),
        Value::Union(1, Box::new(Value::Long(42)))
    );
}

#[test]
fn json_number_priority() {
    assert_eq!(number_to_value(Some(5), None, None), Value::Long(5));
    assert_eq!(
        number_to_value(Some(-1), Some(0), Some(0)),
        Value::Long(-1)
    );
    // A number stored as a float has no integer reading.
    let bits = 2.5f64.to_bits();
    assert_eq!(number_to_value(None, Some(bits), None), Value::Double(bits));
    // An integer above the signed 64-bit range still has a float reading
    // beside its unsigned one; the unsigned reading wins and is wrapped.
    let big = i64::MAX as u64 + 1;
    assert_eq!(
        number_to_value(None, Some((big as f64).to_bits()), Some(big)),
        Value::Long(big as i64)
    );
    assert_eq!(
        number_to_value(None, Some((u64::MAX as f64).to_bits()), Some(u64::MAX)),
        Value::Long(u64::MAX as i64)
    );
}

#[test]
fn error_accessors() {
    let err = avro_value::error::error(avro_value::error::ErrorKind::Generic(
        "boom".to_string(),
    ));
    assert!(matches!(
        err.kind(),
        avro_value::error::ErrorKind::Generic(_)
    ));
    match err.into_kind() {
        avro_value::error::ErrorKind::Generic(msg) => assert_eq!(msg, "boom"),
        other => panic!("unexpected kind: {:?}", other),
    }
}

#[test]
fn schema_clone_is_deep() {
    let schema = two_field_schema();
    assert_eq!(schema.clone(), schema);
    let union = avro_value::schema::UnionSchema::new(vec![Schema::Null, Schema::Int]).unwrap();
    assert_eq!(union.clone(), union);
    let enum_schema = Schema::Enum {
        name: Name::new("suit"),
        symbols: vec!["spades".to_string(), "hearts".to_string()],
    };
    assert_eq!(enum_schema.clone(), enum_schema);
    let nested = Schema::Array(Box::new(Schema::Mapping(Box::new(Schema::Long))));
    assert_eq!(nested.clone(), nested);
}

#[test]
fn error_clone_keeps_kind() {
    let err = avro_value::error::error(avro_value::error::ErrorKind::Resolution(
        avro_value::error::ResolutionError::InvalidDefaultValue(serde_json::Value::Null),
    ));
    let copy = err.clone();
    assert!(matches!(
        copy.kind(),
        avro_value::error::ErrorKind::Resolution(
            avro_value::error::ResolutionError::InvalidDefaultValue(_)
        )
    ));
    let err = avro_value::error::error(avro_value::error::ErrorKind::Io("gone".to_string()));
    match err.clone().into_kind() {
        avro_value::error::ErrorKind::Io(msg) => assert_eq!(msg, "gone"),
        other => panic!("unexpected kind: {:?}", other),
    }
}

#[test]
fn keyed_pairs_to_avro_mapping_in_order() {
    let pairs: Vec<(String, i64)> = vec![("a".to_string(), 1), ("b".to_string(), 2)];
    assert_eq!(
        pairs.avro(),
        Value::Mapping(vec![
            ("a".to_string(), Value::Long(1)),
            ("b".to_string(), Value::Long(2)),
        ])
    );
    let empty: Vec<(String, i32)> = vec![];
    assert_eq!(empty.avro(), Value::Mapping(vec![]));
}

#[test]
fn keyed_pairs_to_avro_last_value_wins() {
    let pairs: Vec<(String, &str)> = vec![
        ("a".to_string(), "first"),
        ("b".to_string(), "kept"),
        ("a".to_string(), "last"),
    ];
    assert_eq!(
        pairs.avro(),
        Value::Mapping(vec![
            ("a".to_string(), Value::String("last".to_string())),
            ("b".to_string(), Value::String("kept".to_string())),
        ])
    );
}
