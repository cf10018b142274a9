use vstd::prelude::*;
use ciborium::value::Value;

verus! {

/// A dynamic value, as CBOR holds it. Nothing here looks inside one.
#[verifier::external_type_specification]
#[verifier::external_body]
pub struct ExValue(Value);

/// The CBOR bytes of a value, where the encoder gives any.
pub uninterp spec fn cbor_encoding(value: Value) -> Option<Seq<u8>>;

/// The value that the CBOR decoder finds at the front of `bytes`, where it finds one.
pub uninterp spec fn cbor_decoding(bytes: Seq<u8>) -> Option<Value>;

/// `ciborium::ser::into_writer` into an empty vector: the bytes that the
/// encoder wrote for the value, or nothing where it failed. What it writes
/// depends on the value alone.
#[verifier::external_body]
pub(crate) fn cbor_to_vec(value: &Value) -> (r: Option<Vec<u8>>)
    ensures
        match r {
            Some(bytes) => cbor_encoding(*value) == Some(bytes@),
            None => cbor_encoding(*value) is None,
        },
{
    let mut out = Vec::new();
    match ciborium::ser::into_writer(value, &mut out) {
        Ok(()) => Some(out),
        Err(_) => None,
    }
}

/// `ciborium::de::from_reader` on a slice: the value that the decoder found
/// at the front of the bytes, or nothing where it failed. What it finds
/// depends on the bytes alone.
#[verifier::external_body]
pub(crate) fn cbor_from_slice(bytes: &[u8]) -> (r: Option<Value>)
    ensures
        r == cbor_decoding(bytes@),
{
    ciborium::de::from_reader(bytes).ok()
}

} // verus!
