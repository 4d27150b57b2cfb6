//! From the values of the document to the plain values of this library.
use crate::replica::{
    value_blob, value_double_bits, value_flag, value_held, value_object_type, value_scalar_kind,
    value_signed, value_text, value_unknown, value_unsigned,
};
use crate::value::{PlainValue, Scalar, ScalarKind};
use vstd::prelude::*;

verus! {

/// The plain value that holds what `v` holds.
pub fn plain_value(v: &automerge::Value<'static>) -> (r: PlainValue)
    ensures
        r@ == value_held(*v),
{
    match value_object_type(v) {
        Some(t) => PlainValue::Object(t),
        None => {
            let kind = value_scalar_kind(v);
            let scalar = match kind {
                Some(ScalarKind::Str) => match value_text(v) {
                    Some(s) => Scalar::Str(s),
                    None => Scalar::Null,
                },
                Some(ScalarKind::Int) => match value_signed(v) {
                    Some(n) => Scalar::Int(n),
                    None => Scalar::Null,
                },
                Some(ScalarKind::Uint) => match value_unsigned(v) {
                    Some(n) => Scalar::Uint(n),
                    None => Scalar::Null,
                },
                Some(ScalarKind::Double) => match value_double_bits(v) {
                    Some(bits) => Scalar::Double(bits),
                    None => Scalar::Null,
                },
                Some(ScalarKind::Boolean) => match value_flag(v) {
                    Some(b) => Scalar::Boolean(b),
                    None => Scalar::Null,
                },
                Some(ScalarKind::Timestamp) => match value_signed(v) {
                    Some(n) => Scalar::Timestamp(n),
                    None => Scalar::Null,
                },
                Some(ScalarKind::Counter) => match value_signed(v) {
                    Some(n) => Scalar::Counter(n),
                    None => Scalar::Null,
                },
                Some(ScalarKind::Bytes) => match value_blob(v) {
                    Some(b) => Scalar::Bytes(b),
                    None => Scalar::Null,
                },
                Some(ScalarKind::Unknown) => match value_unknown(v) {
                    Some((type_code, bytes)) => Scalar::Unknown { type_code, bytes },
                    None => Scalar::Null,
                },
                Some(ScalarKind::Null) => Scalar::Null,
                None => Scalar::Null,
            };
            PlainValue::Scalar(scalar)
        },
    }
}

} // verus!
