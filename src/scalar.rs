use vstd::prelude::*;
use p256k1::point::{Compressed, Point};
use p256k1::scalar::Scalar;

verus! {

/// A scalar modulo the secp256k1 group order, from `p256k1`.
#[verifier::external_type_specification]
#[verifier::external_body]
pub struct ExScalar(Scalar);

/// Relies on `<p256k1::scalar::Scalar as TryFrom<&[u8]>>::try_from`: it accepts
/// exactly the inputs of 32 bytes, reduced modulo the group order.
#[verifier::external_body]
pub(crate) fn parse_scalar(bytes: &Vec<u8>) -> (r: Option<Scalar>)
    ensures
        r is Some <==> bytes@.len() == 32,
{
    Scalar::try_from(&bytes[..]).ok()
}

/// Relies on `p256k1::scalar::Scalar::to_bytes`: the 32-byte big-endian encoding.
#[verifier::external_body]
pub(crate) fn scalar_bytes(s: &Scalar) -> (r: Vec<u8>)
    ensures
        r@.len() == 32,
{
    s.to_bytes().to_vec()
}

/// A point of the secp256k1 group, from `p256k1`.
#[verifier::external_type_specification]
#[verifier::external_body]
pub struct ExPoint(Point);

/// Whether 33 bytes are the compressed encoding of a curve point.
pub uninterp spec fn point_decodes(bytes: Seq<u8>) -> bool;

/// Relies on `<p256k1::point::Point as TryFrom<&Compressed>>::try_from`: it
/// accepts the encodings whose x coordinate lies on the curve, which depends
/// on the bytes alone.
#[verifier::external_body]
fn decode_compressed(bytes: [u8; 33]) -> (r: Option<Point>)
    ensures
        r is Some <==> point_decodes(bytes@),
{
    Point::try_from(&Compressed::from(bytes)).ok()
}

/// A compressed public key: 33 bytes that decode to a curve point.
pub open spec fn key_decodes(bytes: Seq<u8>) -> bool {
    bytes.len() == 33 && point_decodes(bytes)
}

/// Decodes a compressed public key.
pub fn decode_public_key(bytes: &Vec<u8>) -> (r: Option<Point>)
    ensures
        r is Some <==> key_decodes(bytes@),
{
    if bytes.len() != 33 {
        return None;
    }
    let mut data = [0u8; 33];
    let mut i: usize = 0;
    while i < 33
        invariant
            0 <= i <= 33,
            bytes@.len() == 33,
            forall|j: int| 0 <= j < i ==> data@[j] == bytes@[j],
        decreases 33 - i,
    {
        data[i] = bytes[i];
        i = i + 1;
    }
    assert(data@ =~= bytes@);
    decode_compressed(data)
}

} // verus!
