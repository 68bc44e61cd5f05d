//! Group elements, held as their canonical 32-byte Ristretto encoding.
//!
//! The group arithmetic is curve25519-dalek's.  The contracts here give the
//! encoding of a linear combination of points a name and say nothing of how
//! it is computed.
use vstd::prelude::*;
use crate::scalar::{values, Scalar};

verus! {

/// Whether 32 bytes are the encoding of a group element: what
/// `CompressedRistretto::decompress` accepts.
pub uninterp spec fn is_point_encoding(bytes: Seq<u8>) -> bool;

/// The encoding of `scalars[0] * points[0] + ... + scalars[k-1] * points[k-1]`,
/// each point given by its encoding.
pub uninterp spec fn multiscalar_mul_encoding(scalars: Seq<int>, points: Seq<Seq<u8>>) -> Seq<u8>;

/// A group element.
#[derive(Clone, Copy, Debug, PartialEq, Eq)]
pub struct Point {
    bytes: [u8; 32],
}

impl View for Point {
    type V = Seq<u8>;

    /// The encoding of the element.
    closed spec fn view(&self) -> Seq<u8> {
        self.bytes@
    }
}

impl Point {
    #[verifier::type_invariant]
    pub open spec fn valid(self) -> bool {
        self@.len() == 32 && is_point_encoding(self@)
    }

    /// Points with one encoding are one point.
    pub proof fn lemma_encoding_injective(a: Point, b: Point)
        requires
            a@ == b@,
        ensures
            a == b,
    {
        assert(a.bytes =~= b.bytes);
    }

    /// Decoding what was encoded gives the point back: whatever accepts
    /// exactly the encodings of group elements and keeps their bytes,
    /// accepts the encoding of `p` and decodes it to `p`.
    pub proof fn lemma_round_trip(p: Point, decoded: Option<Point>)
        requires
            p.valid(),
            decoded.is_some() <==> is_point_encoding(p@),
            decoded.is_some() ==> decoded.unwrap()@ == p@,
        ensures
            decoded == Some(p),
    {
        Self::lemma_encoding_injective(decoded.unwrap(), p);
    }

    /// Decodes a group element; `None` where the bytes encode none.
    pub fn from_bytes(bytes: [u8; 32]) -> (r: Option<Point>)
        ensures
            r.is_some() <==> is_point_encoding(bytes@),
            r.is_some() ==> r.unwrap()@ == bytes@,
    {
        if decodes(&bytes) {
            Some(Point { bytes })
        } else {
            None
        }
    }

    pub fn to_bytes(&self) -> (out: [u8; 32])
        ensures
            out@ == self@,
    {
        self.bytes
    }
}

/// The encodings of a sequence of points.
pub open spec fn encodings(points: Seq<Point>) -> Seq<Seq<u8>> {
    Seq::new(points.len(), |i: int| points[i]@)
}

/// Calls `CompressedRistretto::decompress` of curve25519-dalek and says whether
/// it found a group element.
#[verifier::external_body]
fn decodes(bytes: &[u8; 32]) -> (ok: bool)
    ensures
        ok == is_point_encoding(bytes@),
{
    curve25519_dalek::ristretto::CompressedRistretto(*bytes).decompress().is_some()
}

/// Calls `RistrettoPoint::multiscalar_mul` of curve25519-dalek on the decoded
/// points and encodes the sum with `RistrettoPoint::compress`.  The encoding of
/// a group element always decodes again.
#[verifier::external_body]
pub(crate) fn multiscalar_mul(scalars: &Vec<Scalar>, points: &Vec<Point>) -> (r: Point)
    requires
        scalars.len() == points.len(),
    ensures
        r@ == multiscalar_mul_encoding(values(scalars@), encodings(points@)),
        r.valid(),
{
    let s = scalars.iter().map(
        |x| curve25519_dalek::scalar::Scalar::from_bytes_mod_order(x.to_bytes()),
    );
    let p = points.iter().map(
        |x| curve25519_dalek::ristretto::CompressedRistretto(x.bytes).decompress().unwrap(),
    );
    let sum = <curve25519_dalek::ristretto::RistrettoPoint
        as curve25519_dalek::traits::MultiscalarMul>::multiscalar_mul(s, p);
    Point { bytes: sum.compress().to_bytes() }
}

} // verus!
