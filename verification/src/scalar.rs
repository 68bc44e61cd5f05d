//! Scalars: elements of the integers modulo the group order.
//!
//! The arithmetic itself is curve25519-dalek's.  A scalar is held here as its
//! canonical 32-byte encoding, so that contracts can speak of the integer it
//! denotes.
use vstd::prelude::*;
use crate::field::{group_order, lemma_inverse_unique, reduce, lemma_reduce_small};

verus! {

/// The integer that a little-endian byte string denotes.
pub open spec fn le_value(bytes: Seq<u8>) -> int
    decreases bytes.len(),
{
    if bytes.len() == 0 {
        0
    } else {
        bytes[0] + 256 * le_value(bytes.drop_first())
    }
}

/// The `n` bytes that denote `x`, little-endian.
pub open spec fn le_bytes(x: int, n: nat) -> Seq<u8>
    decreases n,
{
    if n == 0 {
        seq![]
    } else {
        seq![(x % 256) as u8] + le_bytes(x / 256, (n - 1) as nat)
    }
}

/// Encoding a decoded byte string gives the byte string back.
pub proof fn lemma_le_bytes_of_value(bytes: Seq<u8>)
    ensures
        le_bytes(le_value(bytes), bytes.len()) == bytes,
        0 <= le_value(bytes),
    decreases bytes.len(),
{
    if bytes.len() > 0 {
        let rest = bytes.drop_first();
        lemma_le_bytes_of_value(rest);
        let v = le_value(bytes);
        assert(v == bytes[0] + 256 * le_value(rest));
        assert(v % 256 == bytes[0] as int && v / 256 == le_value(rest)) by (nonlinear_arith)
            requires
                v == bytes[0] + 256 * le_value(rest),
                0 <= bytes[0] < 256,
                0 <= le_value(rest),
        ;
        assert(seq![bytes[0]] + rest =~= bytes);
    } else {
        assert(le_bytes(0, 0) =~= bytes);
    }
}

/// The inverse of `x` modulo the group order, and zero where `x` has none.
pub open spec fn inverse(x: int) -> int {
    if exists|r: int| is_inverse(x, r) {
        choose|r: int| is_inverse(x, r)
    } else {
        0
    }
}

/// `r` is the reduced residue with `x * r == 1` modulo the group order.
pub open spec fn is_inverse(x: int, r: int) -> bool {
    0 <= r < group_order() && reduce(x * r) == 1
}

/// An element of the integers modulo `group_order()`, held as the 32-byte
/// little-endian encoding of its least non-negative representative.
#[derive(Clone, Copy, Debug, PartialEq, Eq)]
pub struct Scalar {
    bytes: [u8; 32],
}

impl View for Scalar {
    type V = int;

    /// The integer in `0..group_order()` that the scalar denotes.
    closed spec fn view(&self) -> int {
        le_value(self.bytes@)
    }
}

impl Scalar {
    #[verifier::type_invariant]
    pub open spec fn canonical(self) -> bool {
        0 <= self@ < group_order()
    }

    /// The canonical encoding of the scalar: 32 bytes, little-endian.
    pub closed spec fn encoding(&self) -> Seq<u8> {
        self.bytes@
    }

    /// The encoding and the value determine each other.
    pub proof fn lemma_encoding(&self)
        ensures
            self@ == le_value(self.encoding()),
            self.encoding() == le_bytes(self@, 32),
    {
        lemma_le_bytes_of_value(self.bytes@);
    }

    /// Scalars with one encoding are one scalar.
    pub proof fn lemma_encoding_injective(a: Scalar, b: Scalar)
        requires
            a.encoding() == b.encoding(),
        ensures
            a == b,
    {
        assert(a.bytes =~= b.bytes);
    }

    /// Decoding what was encoded gives the scalar back: whatever accepts
    /// exactly the canonical encodings and keeps their bytes, accepts the
    /// encoding of `s` and decodes it to `s`.
    pub proof fn lemma_round_trip(s: Scalar, decoded: Option<Scalar>)
        requires
            s.canonical(),
            decoded.is_some() <==> le_value(s.encoding()) < group_order(),
            decoded.is_some() ==> decoded.unwrap().encoding() == s.encoding(),
        ensures
            decoded == Some(s),
    {
        Self::lemma_encoding_injective(decoded.unwrap(), s);
    }

    pub fn zero() -> (r: Scalar)
        ensures
            r@ == 0,
    {
        scalar_from_u64(0)
    }

    pub fn one() -> (r: Scalar)
        ensures
            r@ == 1,
    {
        scalar_from_u64(1)
    }

    pub fn from_u64(x: u64) -> (r: Scalar)
        ensures
            r@ == x,
    {
        scalar_from_u64(x)
    }

    /// Decodes a scalar, accepting the canonical encodings only.
    pub fn from_canonical_bytes(bytes: [u8; 32]) -> (r: Option<Scalar>)
        ensures
            r.is_some() <==> le_value(bytes@) < group_order(),
            r.is_some() ==> r.unwrap().encoding() == bytes@,
    {
        scalar_from_canonical_bytes(bytes)
    }

    pub fn to_bytes(&self) -> (out: [u8; 32])
        ensures
            out@ == self.encoding(),
    {
        self.bytes
    }

    /// The multiplicative inverse; zero is sent to zero.
    pub fn invert(&self) -> (r: Scalar)
        ensures
            r@ == inverse(self@),
    {
        let r = scalar_invert(self);
        proof {
            use_type_invariant(self);
            use_type_invariant(&r);
            lemma_reduce_small(self@);
            if self@ == 0 {
                assert forall|s: int| !is_inverse(self@, s) by {
                    assert(self@ * s == 0) by (nonlinear_arith)
                        requires
                            self@ == 0,
                    ;
                    lemma_reduce_small(0);
                }
            } else {
                assert(is_inverse(self@, r@));
                lemma_inverse_unique(self@, r@, inverse(self@));
            }
        }
        r
    }
}

/// The values of a sequence of scalars.
pub open spec fn values(v: Seq<Scalar>) -> Seq<int> {
    Seq::new(v.len(), |i: int| v[i]@)
}

/// Calls `Scalar::from(u64)` of curve25519-dalek: the scalar that denotes `x`.
#[verifier::external_body]
fn scalar_from_u64(x: u64) -> (r: Scalar)
    ensures
        r@ == x,
{
    Scalar { bytes: curve25519_dalek::scalar::Scalar::from(x).to_bytes() }
}

/// Calls `Scalar::from_canonical_bytes` of curve25519-dalek, which accepts
/// exactly the encodings of integers below the group order and keeps the
/// bytes as they are.
#[verifier::external_body]
fn scalar_from_canonical_bytes(bytes: [u8; 32]) -> (r: Option<Scalar>)
    ensures
        r.is_some() <==> le_value(bytes@) < group_order(),
        r.is_some() ==> r.unwrap().encoding() == bytes@,
{
    let decoded: Option<curve25519_dalek::scalar::Scalar> =
        curve25519_dalek::scalar::Scalar::from_canonical_bytes(bytes).into();
    decoded.map(|s| Scalar { bytes: s.to_bytes() })
}

/// Calls `Scalar::from_bytes_mod_order_wide` of curve25519-dalek: the 512-bit
/// little-endian integer, reduced modulo the group order.
#[verifier::external_body]
pub(crate) fn scalar_from_wide_bytes(bytes: &[u8; 64]) -> (r: Scalar)
    ensures
        r@ == reduce(le_value(bytes@)),
{
    Scalar { bytes: curve25519_dalek::scalar::Scalar::from_bytes_mod_order_wide(bytes).to_bytes() }
}

/// Calls `Scalar::random` of curve25519-dalek: 64 bytes of the random source,
/// reduced modulo the group order.
#[verifier::external_body]
pub(crate) fn scalar_random(rng: &mut merlin::TranscriptRng) -> (r: Scalar) {
    Scalar { bytes: curve25519_dalek::scalar::Scalar::random(rng).to_bytes() }
}

/// Calls the `+` of curve25519-dalek's `Scalar`: addition modulo the group order.
#[verifier::external_body]
pub(crate) fn scalar_add(a: &Scalar, b: &Scalar) -> (r: Scalar)
    ensures
        r@ == reduce(a@ + b@),
{
    let x = curve25519_dalek::scalar::Scalar::from_bytes_mod_order(a.bytes);
    let y = curve25519_dalek::scalar::Scalar::from_bytes_mod_order(b.bytes);
    Scalar { bytes: (x + y).to_bytes() }
}

/// Calls the `-` of curve25519-dalek's `Scalar`: subtraction modulo the group order.
#[verifier::external_body]
pub(crate) fn scalar_sub(a: &Scalar, b: &Scalar) -> (r: Scalar)
    ensures
        r@ == reduce(a@ - b@),
{
    let x = curve25519_dalek::scalar::Scalar::from_bytes_mod_order(a.bytes);
    let y = curve25519_dalek::scalar::Scalar::from_bytes_mod_order(b.bytes);
    Scalar { bytes: (x - y).to_bytes() }
}

/// Calls the `*` of curve25519-dalek's `Scalar`: multiplication modulo the group order.
#[verifier::external_body]
pub(crate) fn scalar_mul(a: &Scalar, b: &Scalar) -> (r: Scalar)
    ensures
        r@ == reduce(a@ * b@),
{
    let x = curve25519_dalek::scalar::Scalar::from_bytes_mod_order(a.bytes);
    let y = curve25519_dalek::scalar::Scalar::from_bytes_mod_order(b.bytes);
    Scalar { bytes: (x * y).to_bytes() }
}

/// Calls `Scalar::invert` of curve25519-dalek, which raises its argument to the
/// power `group_order() - 2`: the inverse of a nonzero scalar, and zero for zero.
#[verifier::external_body]
fn scalar_invert(a: &Scalar) -> (r: Scalar)
    ensures
        a@ != 0 ==> reduce(a@ * r@) == 1,
        a@ == 0 ==> r@ == 0,
{
    let x = curve25519_dalek::scalar::Scalar::from_bytes_mod_order(a.bytes);
    Scalar { bytes: x.invert().to_bytes() }
}

} // verus!
