//! Generic bridge between typed program values and Avro's schema-less
//! intermediate representation.
//!
//! The crate converts arbitrary typed values into a [`types::Value`] tree and
//! back, and validates such trees structurally against a [`schema::Schema`].

pub mod de;
pub mod error;
pub mod json;
pub mod laws;
pub mod schema;
pub mod ser;
pub mod types;
