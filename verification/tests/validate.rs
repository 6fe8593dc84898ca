use avro_value::schema::{Name, RecordField, Schema, UnionSchema};
use avro_value::types::Value;

#[test]
fn validate() {
    let value_schema_valid = vec![
        (Value::Int(42), Schema::Int, true),
        (Value::Int(42), Schema::Boolean, false),
        (
            Value::Union(0, Box::new(Value::Null)),
            Schema::Union(UnionSchema::new(vec![Schema::Null, Schema::Int]).unwrap()),
            true,
        ),
        (
            Value::Union(1, Box::new(Value::Int(42))),
            Schema::Union(UnionSchema::new(vec![Schema::Null, Schema::Int]).unwrap()),
            true,
        ),
        (
            Value::Union(0, Box::new(Value::Null)),
            Schema::Union(UnionSchema::new(vec![Schema::Double, Schema::Int]).unwrap()),
            false,
        ),
        (
            Value::Union(3, Box::new(Value::Int(42))),
            Schema::Union(
                UnionSchema::new(vec![
                    Schema::Null,
                    Schema::Double,
                    Schema::String,
                    Schema::Int,
                ])
                .unwrap(),
            ),
            true,
        ),
        (
            Value::Array(vec![Value::Long(42i64)]),
            Schema::Array(Box::new(Schema::Long)),
            true,
        ),
        (
            Value::Array(vec![Value::Boolean(true)]),
            Schema::Array(Box::new(Schema::Long)),
            false,
        ),
        (Value::Record(vec![]), Schema::Null, false),
    ];

    for (value, schema, valid) in value_schema_valid.into_iter() {
        assert_eq!(valid, value.validate(&schema));
    }
}

#[test]
fn validate_fixed() {
    let schema = Schema::Fixed {
        size: 4,
        name: Name::new("some_fixed"),
    };

    assert!(Value::Fixed(4, vec![0, 0, 0, 0]).validate(&schema));
    assert!(!Value::Fixed(5, vec![0, 0, 0, 0, 0]).validate(&schema));
}

#[test]
fn validate_enum() {
    let schema = Schema::Enum {
        name: Name::new("some_enum"),
        symbols: vec![
            "spades".to_string(),
            "hearts".to_string(),
            "diamonds".to_string(),
            "clubs".to_string(),
        ],
    };

    assert!(Value::Enum(0, "spades".to_string()).validate(&schema));
    assert!(Value::String("spades".to_string()).validate(&schema));

    assert!(!Value::Enum(1, "spades".to_string()).validate(&schema));
    assert!(!Value::String("lorem".to_string()).validate(&schema));

    let other_schema = Schema::Enum {
        name: Name::new("some_other_enum"),
        symbols: vec![
            "hearts".to_string(),
            "diamonds".to_string(),
            "clubs".to_string(),
            "spades".to_string(),
        ],
    };

    assert!(!Value::Enum(0, "spades".to_string()).validate(&other_schema));
}

#[test]
fn validate_record() {
    // {
    //    "type": "record",
    //    "fields": [
    //      {"type": "long", "name": "a"},
    //      {"type": "string", "name": "b"}
    //    ]
    // }
    let schema = Schema::Record {
        name: Name::new("some_record"),
        fields: vec![
            RecordField {
                name: "a".to_string(),
                schema: Schema::Long,
            },
            RecordField {
                name: "b".to_string(),
                schema: Schema::String,
            },
        ],
    };

    assert!(Value::Record(vec![
        ("a".to_string(), Value::Long(42i64)),
        ("b".to_string(), Value::String("foo".to_string())),
    ])
    .validate(&schema));

    assert!(!Value::Record(vec![
        ("b".to_string(), Value::String("foo".to_string())),
        ("a".to_string(), Value::Long(42i64)),
    ])
    .validate(&schema));

    assert!(!Value::Record(vec![
        ("a".to_string(), Value::Boolean(false)),
        ("b".to_string(), Value::String("foo".to_string())),
    ])
    .validate(&schema));

    assert!(!Value::Record(vec![
        ("a".to_string(), Value::Long(42i64)),
        ("c".to_string(), Value::String("foo".to_string())),
    ])
    .validate(&schema));

    assert!(!Value::Record(vec![
        ("a".to_string(), Value::Long(42i64)),
        ("b".to_string(), Value::String("foo".to_string())),
        ("c".to_string(), Value::Null),
    ])
    .validate(&schema));
}

#[test]
fn validate_union_out_of_range_index_is_false() {
    let schema = Schema::Union(UnionSchema::new(vec![Schema::Null, Schema::Int]).unwrap());
    assert!(!Value::Union(2, Box::new(Value::Null)).validate(&schema));
    assert!(!Value::Union(5000, Box::new(Value::Int(1))).validate(&schema));
}

#[test]
fn validate_negative_enum_index_is_false() {
    let schema = Schema::Enum {
        name: Name::new("suit"),
        symbols: vec!["spades".to_string()],
    };
    assert!(!Value::Enum(-1, "spades".to_string()).validate(&schema));
}

#[test]
fn validate_map_and_primitive_tags() {
    let schema = Schema::Mapping(Box::new(Schema::Long));
    assert!(Value::Mapping(vec![
        ("a".to_string(), Value::Long(1)),
        ("b".to_string(), Value::Long(2)),
    ])
    .validate(&schema));
    assert!(!Value::Mapping(vec![("a".to_string(), Value::Boolean(true))]).validate(&schema));

    assert!(Value::Null.validate(&Schema::Null));
    assert!(Value::Boolean(true).validate(&Schema::Boolean));
    assert!(Value::Long(1).validate(&Schema::Long));
    assert!(Value::Float(1.5f32.to_bits()).validate(&Schema::Float));
    assert!(Value::Double(2.5f64.to_bits()).validate(&Schema::Double));
    assert!(Value::Bytes(vec![1, 2]).validate(&Schema::Bytes));
    assert!(Value::String("x".to_string()).validate(&Schema::String));
    assert!(!Value::Float(0).validate(&Schema::Double));
}

#[test]
fn union_schema_rejects_nested_union() {
    let inner = UnionSchema::new(vec![Schema::Null, Schema::Int]).unwrap();
    let result = UnionSchema::new(vec![Schema::Long, Schema::Union(inner)]);
    match result {
        Err(e) => assert!(matches!(
            e.kind(),
            avro_value::error::ErrorKind::SchemaParsing(_)
        )),
        Ok(_) => panic!("nested union accepted"),
    }
}

#[test]
fn union_schema_variant_lookup() {
    let u = UnionSchema::new(vec![Schema::Null, Schema::Int]).unwrap();
    assert_eq!(u.variant_schema(0), Some(&Schema::Null));
    assert_eq!(u.variant_schema(1), Some(&Schema::Int));
    assert_eq!(u.variant_schema(2), None);
}
