//! The untyped JSON tree consumed at the crate's edge, used to materialize
//! schema-declared default values: the declaration of its type, and the
//! decision that turns one of its numbers into a library value.
use vstd::prelude::*;

use serde_json::Value as JsonValue;

use crate::types;

verus! {

/// The declared shape of `serde_json::Value`: an opaque untyped tree, carried
/// through the library so that an error can report a schema-declared default
/// value that failed to resolve.
#[verifier::external_type_specification]
#[verifier::external_body]
pub struct ExJsonValue(JsonValue);

/// Relies on `serde_json::Value::clone`: cloning the carried JSON tree when
/// an error holding one is cloned. Nothing is stated of the copy; the tree
/// stays opaque.
pub assume_specification[ <JsonValue as Clone>::clone ](v: &JsonValue) -> JsonValue;

/// The library value a JSON number materializes as, decided from the three
/// readings a JSON number offers (it always admits at least one): a number
/// representable as a 64-bit signed integer becomes `Long`; otherwise an
/// unsigned 64-bit integer is wrapped into `Long`; what is left is a number
/// stored as a 64-bit float, which becomes `Double`, by bits. The integer
/// readings come first because a float reading exists for every number, while
/// only a stored float has no integer reading.
pub fn number_to_value(
    as_long: Option<i64>,
    as_double_bits: Option<u64>,
    as_unsigned: Option<u64>,
) -> (r: types::Value)
    requires
        as_long is Some || as_double_bits is Some || as_unsigned is Some,
    ensures
        as_long matches Some(v) ==> r.deep_view() == types::ValueModel::Long(v),
        as_long is None ==> (as_unsigned matches Some(u) ==> r.deep_view()
            == types::ValueModel::Long(u as i64)),
        as_long is None && as_unsigned is None ==> (as_double_bits matches Some(bits)
            ==> r.deep_view() == types::ValueModel::Double(bits)),
{
    match as_long {
        Some(v) => types::Value::Long(v),
        None => match as_unsigned {
            Some(u) => types::Value::Long(#[verifier::truncate] (u as i64)),
            None => match as_double_bits {
                Some(bits) => types::Value::Double(bits),
                None => vstd::pervasive::unreached(),
            },
        },
    }
}

} // verus!
