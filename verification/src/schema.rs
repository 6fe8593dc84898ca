//! The schema model consulted by the validator: a tree describing a type's
//! shape. Parsing schema documents is out of scope; schemas are built by hand.
use vstd::prelude::*;

use crate::error::{error, Error, ErrorKind};

verus! {

/// The name of a named schema (record, enum or fixed).
#[derive(Debug, PartialEq)]
pub struct Name {
    pub name: String,
}

impl Name {
    /// Create a `Name` from its text.
    pub fn new(name: &str) -> (r: Name)
        ensures
            r.name@ == name@,
    {
        Name { name: name.to_owned() }
    }
}

/// One declared field of a record schema: its name and its schema, in
/// declaration order.
#[derive(Debug, PartialEq)]
pub struct RecordField {
    pub name: String,
    pub schema: Schema,
}

/// Describes the shape of a type, as a tree.
#[derive(Debug, PartialEq)]
pub enum Schema {
    /// A `null` schema.
    Null,
    /// A `boolean` schema.
    Boolean,
    /// An `int` (32-bit signed) schema.
    Int,
    /// A `long` (64-bit signed) schema.
    Long,
    /// A `float` (32-bit IEEE 754) schema.
    Float,
    /// A `double` (64-bit IEEE 754) schema.
    Double,
    /// A `bytes` schema.
    Bytes,
    /// A `string` schema.
    String,
    /// A `fixed` schema: a byte block of the declared size.
    Fixed { name: Name, size: usize },
    /// An `enum` schema: the listed symbols, in order.
    Enum { name: Name, symbols: Vec<String> },
    /// A `union` schema: a tagged choice among the listed alternatives.
    Union(UnionSchema),
    /// An `array` schema: every item follows the element schema.
    Array(Box<Schema>),
    /// A `map` schema: string keys, every value follows the value schema.
    Mapping(Box<Schema>),
    /// A `record` schema: named fields in declaration order.
    Record { name: Name, fields: Vec<RecordField> },
}

/// The alternatives of a union schema.
///
/// Built through [`UnionSchema::new`], which upholds Avro's rule that a union
/// may not immediately contain another union.
#[derive(Debug, PartialEq)]
pub struct UnionSchema {
    pub schemas: Vec<Schema>,
}

impl Clone for Name {
    /// The copy carries the same text.
    fn clone(&self) -> (r: Name)
        ensures
            r == *self,
    {
        Name { name: self.name.clone() }
    }
}

impl Clone for RecordField {
    /// The copy has the same name and the same schema model.
    fn clone(&self) -> (r: RecordField)
        ensures
            r.name == self.name,
            r.schema.deep_view() == self.schema.deep_view(),
    {
        RecordField { name: self.name.clone(), schema: self.schema.clone() }
    }
}

impl Clone for UnionSchema {
    /// The copy has the same alternatives, by model.
    fn clone(&self) -> (r: UnionSchema)
        ensures
            r.variants_model() == self.variants_model(),
    {
        let r = UnionSchema { schemas: clone_schemas(&self.schemas) };
        proof {
            assert(r.variants_model() =~= r.schemas.deep_view());
            assert(self.variants_model() =~= self.schemas.deep_view());
        }
        r
    }
}

/// Deep copy of a schema list: the copy has the same models, elementwise.
#[verifier::loop_isolation(false)]
fn clone_schemas(schemas: &Vec<Schema>) -> (r: Vec<Schema>)
    ensures
        r.deep_view() == schemas.deep_view(),
    decreases *schemas,
{
    let mut out: Vec<Schema> = Vec::new();
    let mut i: usize = 0;
    while i < schemas.len()
        invariant
            0 <= i <= schemas@.len(),
            out@.len() == i,
            forall|j: int|
                0 <= j < i ==> out.deep_view()[j] == schema_model(#[trigger] schemas@[j]),
        decreases schemas@.len() - i,
    {
        proof {
            assert(decreases_to!(*schemas => schemas@[i as int]));
        }
        let c = schemas[i].clone();
        out.push(c);
        i += 1;
    }
    proof {
        assert(out.deep_view() =~= schemas.deep_view());
    }
    out
}

impl Clone for Schema {
    /// Deep copy: the copy has the same model as the original.
    #[verifier::loop_isolation(false)]
    fn clone(&self) -> (r: Schema)
        ensures
            r.deep_view() == self.deep_view(),
        decreases *self,
    {
        match self {
            Schema::Null => Schema::Null,
            Schema::Boolean => Schema::Boolean,
            Schema::Int => Schema::Int,
            Schema::Long => Schema::Long,
            Schema::Float => Schema::Float,
            Schema::Double => Schema::Double,
            Schema::Bytes => Schema::Bytes,
            Schema::String => Schema::String,
            Schema::Fixed { name, size } => Schema::Fixed { name: name.clone(), size: *size },
            Schema::Enum { name, symbols } => {
                let mut out: Vec<String> = Vec::new();
                let mut i: usize = 0;
                while i < symbols.len()
                    invariant
                        0 <= i <= symbols@.len(),
                        out@.len() == i,
                        forall|j: int| 0 <= j < i ==> out@[j]@ == (#[trigger] symbols@[j])@,
                    decreases symbols@.len() - i,
                {
                    let c = symbols[i].clone();
                    out.push(c);
                    i += 1;
                }
                let res = Schema::Enum { name: name.clone(), symbols: out };
                proof {
                    assert(schema_model(res)->Enum_symbols =~= symbols.deep_view());
                }
                res
            },
            Schema::Union(u) => {
                proof {
                    assert(decreases_to!(*self => *u));
                    assert(decreases_to!(*u => u.schemas));
                }
                let mut out: Vec<Schema> = Vec::new();
                let mut i: usize = 0;
                while i < u.schemas.len()
                    invariant
                        0 <= i <= u.schemas@.len(),
                        out@.len() == i,
                        forall|j: int|
                            0 <= j < i ==> out.deep_view()[j] == schema_model(
                                #[trigger] u.schemas@[j],
                            ),
                    decreases u.schemas@.len() - i,
                {
                    proof {
                        assert(decreases_to!(u.schemas => u.schemas@[i as int]));
                    }
                    let c = u.schemas[i].clone();
                    out.push(c);
                    i += 1;
                }
                let res = Schema::Union(UnionSchema { schemas: out });
                proof {
                    assert(schema_model(res)->Union_0 =~= schema_model(*self)->Union_0);
                }
                res
            },
            Schema::Array(elem) => {
                proof {
                    assert(decreases_to!(*self => **elem));
                }
                Schema::Array(Box::new((**elem).clone()))
            },
            Schema::Mapping(value) => {
                proof {
                    assert(decreases_to!(*self => **value));
                }
                Schema::Mapping(Box::new((**value).clone()))
            },
            Schema::Record { name, fields } => {
                let mut out: Vec<RecordField> = Vec::new();
                let mut i: usize = 0;
                while i < fields.len()
                    invariant
                        0 <= i <= fields@.len(),
                        out@.len() == i,
                        forall|j: int|
                            0 <= j < i ==> out@[j].name@ == (#[trigger] fields@[j]).name@
                                && out@[j].schema.deep_view() == fields@[j].schema.deep_view(),
                    decreases fields@.len() - i,
                {
                    proof {
                        assert(decreases_to!(*self => *fields));
                        assert(decreases_to!(*fields => fields@[i as int]));
                        assert(decreases_to!(fields@[i as int] => fields@[i as int].schema));
                    }
                    let field_name = fields[i].name.clone();
                    let field_schema = fields[i].schema.clone();
                    out.push(RecordField { name: field_name, schema: field_schema });
                    i += 1;
                }
                let res = Schema::Record { name: name.clone(), fields: out };
                proof {
                    assert(schema_model(res)->Record_fields =~= schema_model(
                        *self,
                    )->Record_fields);
                }
                res
            },
        }
    }
}

/// Mathematical model of a [`Schema`] tree, used by all contracts. Schema
/// names are not part of the model: validation never reads them.
pub enum SchemaModel {
    Null,
    Boolean,
    Int,
    Long,
    Float,
    Double,
    Bytes,
    String,
    Fixed { size: nat },
    Enum { symbols: Seq<Seq<char>> },
    Union(Seq<SchemaModel>),
    Array(Box<SchemaModel>),
    Mapping(Box<SchemaModel>),
    Record { fields: Seq<(Seq<char>, SchemaModel)> },
}

/// The model of a `Schema`: the same tree over mathematical sequences.
pub open spec fn schema_model(s: Schema) -> SchemaModel
    decreases s,
{
    match s {
        Schema::Null => SchemaModel::Null,
        Schema::Boolean => SchemaModel::Boolean,
        Schema::Int => SchemaModel::Int,
        Schema::Long => SchemaModel::Long,
        Schema::Float => SchemaModel::Float,
        Schema::Double => SchemaModel::Double,
        Schema::Bytes => SchemaModel::Bytes,
        Schema::String => SchemaModel::String,
        Schema::Fixed { size, .. } => SchemaModel::Fixed { size: size as nat },
        Schema::Enum { symbols, .. } => SchemaModel::Enum { symbols: symbols.deep_view() },
        Schema::Union(inner) => SchemaModel::Union(
            Seq::new(
                inner.schemas@.len(),
                |i: int|
                    if 0 <= i < inner.schemas@.len() {
                        schema_model(inner.schemas@[i])
                    } else {
                        SchemaModel::Null
                    },
            ),
        ),
        Schema::Array(elem) => SchemaModel::Array(Box::new(schema_model(*elem))),
        Schema::Mapping(value) => SchemaModel::Mapping(Box::new(schema_model(*value))),
        Schema::Record { fields, .. } => SchemaModel::Record {
            fields: Seq::new(
                fields@.len(),
                |i: int|
                    if 0 <= i < fields@.len() {
                        (fields@[i].name@, schema_model(fields@[i].schema))
                    } else {
                        (Seq::empty(), SchemaModel::Null)
                    },
            ),
        },
    }
}

impl DeepView for Schema {
    type V = SchemaModel;

    open spec fn deep_view(&self) -> SchemaModel {
        schema_model(*self)
    }
}

impl UnionSchema {
    /// The alternatives of this union, in order, as a model.
    pub open spec fn variants_model(&self) -> Seq<SchemaModel> {
        schema_model(Schema::Union(*self))->Union_0
    }

    /// Create a union from its alternatives. Fails with a schema-parsing
    /// error exactly when an alternative is itself a union, which Avro
    /// forbids.
    pub fn new(schemas: Vec<Schema>) -> (r: Result<UnionSchema, Error>)
        ensures
            match r {
                Ok(u) => {
                    &&& u.variants_model() == schemas.deep_view()
                    &&& forall|i: int|
                        0 <= i < schemas.deep_view().len() ==> !(schemas.deep_view()[i]
                            is Union)
                },
                Err(e) => {
                    &&& exists|i: int|
                        0 <= i < schemas.deep_view().len() && schemas.deep_view()[i] is Union
                    &&& e.kind_model() is SchemaParsing
                },
            },
    {
        let mut i: usize = 0;
        while i < schemas.len()
            invariant
                0 <= i <= schemas.len(),
                forall|j: int| 0 <= j < i ==> !(schemas.deep_view()[j] is Union),
            decreases schemas.len() - i,
        {
            if let Schema::Union(_) = &schemas[i] {
                assert(schemas.deep_view()[i as int] is Union);
                return Err(
                    error(
                        ErrorKind::SchemaParsing(
                            String::from_str("unions may not directly contain a union"),
                        ),
                    ),
                );
            }
            i += 1;
        }
        let u = UnionSchema { schemas };
        proof {
            assert(u.variants_model() =~= u.schemas.deep_view());
        }
        Ok(u)
    }

    /// The schema of the alternative at `index`, if the union has one there.
    pub fn variant_schema(&self, index: usize) -> (r: Option<&Schema>)
        ensures
            match r {
                Some(s) => index < self.variants_model().len() && s.deep_view()
                    == self.variants_model()[index as int],
                None => index >= self.variants_model().len(),
            },
    {
        if index < self.schemas.len() {
            Some(&self.schemas[index])
        } else {
            None
        }
    }
}

} // verus!
