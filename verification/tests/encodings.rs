use r1cs_prover::generators::{BulletproofGens, PedersenGens};
use r1cs_prover::point::Point;
use r1cs_prover::scalar::Scalar;
use r1cs_prover::util::{
    exp_iter, extend, inner_product, next_power_of_two, slice, zero_vector, Poly6, VecPoly3,
};

use curve25519_dalek::constants::RISTRETTO_BASEPOINT_POINT;
use curve25519_dalek::ristretto::{CompressedRistretto, RistrettoPoint};
use curve25519_dalek::scalar::Scalar as DalekScalar;

// The group order, little-endian.
const ORDER: [u8; 32] = [
    0xed, 0xd3, 0xf5, 0x5c, 0x1a, 0x63, 0x12, 0x58, 0xd6, 0x9c, 0xf7, 0xa2, 0xde, 0xf9, 0xde, 0x14,
    0x00, 0x00, 0x00, 0x00, 0x00, 0x00, 0x00, 0x00, 0x00, 0x00, 0x00, 0x00, 0x00, 0x00, 0x00, 0x10,
];

fn s(x: u64) -> Scalar {
    Scalar::from_u64(x)
}

fn from_dalek(x: DalekScalar) -> Scalar {
    Scalar::from_canonical_bytes(x.to_bytes()).unwrap()
}

fn to_dalek(x: &Scalar) -> DalekScalar {
    DalekScalar::from_canonical_bytes(x.to_bytes()).unwrap()
}

#[test]
fn scalar_from_u64_is_little_endian() {
    let mut expected = [0u8; 32];
    expected[0] = 0x02;
    expected[1] = 0x01;
    assert_eq!(s(258).to_bytes(), expected);
    assert_eq!(Scalar::zero().to_bytes(), [0u8; 32]);
    assert_eq!(Scalar::one(), s(1));
    let mut max = [0u8; 32];
    for b in max.iter_mut().take(8) {
        *b = 0xff;
    }
    assert_eq!(s(u64::MAX).to_bytes(), max);
}

#[test]
fn scalar_decoding_accepts_canonical_encodings_only() {
    assert!(Scalar::from_canonical_bytes(ORDER).is_none());
    let mut below = ORDER;
    below[0] -= 1;
    let largest = Scalar::from_canonical_bytes(below).unwrap();
    assert_eq!(largest.to_bytes(), below);
    assert!(Scalar::from_canonical_bytes([0xff; 32]).is_none());
    assert_eq!(Scalar::from_canonical_bytes([0u8; 32]), Some(Scalar::zero()));
}

#[test]
fn scalar_round_trip() {
    for x in [0u64, 1, 2, 255, 256, 1 << 40, u64::MAX] {
        let a = s(x);
        assert_eq!(Scalar::from_canonical_bytes(a.to_bytes()), Some(a));
    }
    let big = from_dalek(-DalekScalar::from(5u64));
    assert_eq!(Scalar::from_canonical_bytes(big.to_bytes()), Some(big));
}

#[test]
fn scalar_inverse() {
    assert_eq!(Scalar::zero().invert(), Scalar::zero());
    assert_eq!(Scalar::one().invert(), Scalar::one());
    let seven = s(7);
    let inv = seven.invert();
    assert_ne!(inv, seven);
    assert_eq!(to_dalek(&inv) * DalekScalar::from(7u64), DalekScalar::ONE);
    assert_eq!(inv.invert(), seven);
}

#[test]
fn point_decoding_and_round_trip() {
    let base = RISTRETTO_BASEPOINT_POINT.compress().to_bytes();
    let p = Point::from_bytes(base).unwrap();
    assert_eq!(p.to_bytes(), base);
    assert_eq!(Point::from_bytes(p.to_bytes()), Some(p));
    // the identity is the all-zero encoding
    assert!(Point::from_bytes([0u8; 32]).is_some());
    // not every byte string is an encoding
    assert!(Point::from_bytes([0xff; 32]).is_none());
    let mut odd = [0u8; 32];
    odd[0] = 1;
    assert!(Point::from_bytes(odd).is_none());
}

#[test]
fn pedersen_commitment_is_value_times_base_plus_blinding_times_base() {
    let b = RISTRETTO_BASEPOINT_POINT;
    let b_blinding = RistrettoPoint::from_uniform_bytes(&[9u8; 64]);
    let gens = PedersenGens {
        B: Point::from_bytes(b.compress().to_bytes()).unwrap(),
        B_blinding: Point::from_bytes(b_blinding.compress().to_bytes()).unwrap(),
    };
    let c = gens.commit(&s(5), &s(11));
    let expected = b * DalekScalar::from(5u64) + b_blinding * DalekScalar::from(11u64);
    assert_eq!(c.to_bytes(), expected.compress().to_bytes());
    // the two scalars are not interchangeable
    assert_ne!(gens.commit(&s(11), &s(5)), c);
    // a commitment to zero under zero is the identity
    assert_eq!(gens.commit(&s(0), &s(0)).to_bytes(), [0u8; 32]);
    assert!(CompressedRistretto(c.to_bytes()).decompress().is_some());
}

#[test]
fn bulletproof_gens_hold_two_families_of_one_length() {
    let p = |seed: u8| {
        Point::from_bytes(RistrettoPoint::from_uniform_bytes(&[seed; 64]).compress().to_bytes())
            .unwrap()
    };
    assert!(BulletproofGens::new(vec![p(1), p(2)], vec![p(3)]).is_none());
    let gens = BulletproofGens::new(vec![p(1), p(2), p(3)], vec![p(4), p(5), p(6)]).unwrap();
    assert_eq!(gens.gens_capacity(), 3);
    assert_eq!(gens.G(2), vec![p(1), p(2)]);
    assert_eq!(gens.H(3), vec![p(4), p(5), p(6)]);
    assert_eq!(gens.G(0), vec![]);
    let empty = BulletproofGens::new(vec![], vec![]).unwrap();
    assert_eq!(empty.gens_capacity(), 0);
}

#[test]
fn next_power_of_two_values() {
    let expected = [0usize, 1, 2, 4, 4, 8, 8, 8, 8, 16];
    for (n, p) in expected.iter().enumerate() {
        assert_eq!(next_power_of_two(n), *p);
    }
    assert_eq!(next_power_of_two(1023), 1024);
    assert_eq!(next_power_of_two(1024), 1024);
    assert_eq!(next_power_of_two(1025), 2048);
}

#[test]
fn powers_start_with_one() {
    assert_eq!(exp_iter(&s(3), 0), vec![]);
    assert_eq!(exp_iter(&s(3), 1), vec![s(1)]);
    assert_eq!(exp_iter(&s(3), 5), vec![s(1), s(3), s(9), s(27), s(81)]);
    assert_eq!(exp_iter(&s(0), 3), vec![s(1), s(0), s(0)]);
}

#[test]
fn inner_product_of_vectors() {
    assert_eq!(inner_product(&vec![], &vec![]), s(0));
    let a = vec![s(1), s(2), s(3), s(4)];
    let b = vec![s(2), s(3), s(4), s(5)];
    assert_eq!(inner_product(&a, &b), s(40));
    // reduced modulo the group order: (-1) * 1 + 1 * 1 = 0
    let minus_one = from_dalek(-DalekScalar::ONE);
    assert_eq!(inner_product(&vec![minus_one, s(1)], &vec![s(1), s(1)]), s(0));
}

#[test]
fn vector_helpers() {
    assert_eq!(zero_vector(3), vec![s(0), s(0), s(0)]);
    let mut out = vec![s(1)];
    extend(&mut out, &vec![s(2), s(3)]);
    assert_eq!(out, vec![s(1), s(2), s(3)]);
    assert_eq!(slice(&out, 1, 3), vec![s(2), s(3)]);
    assert_eq!(slice(&out, 2, 2), vec![]);
}

#[test]
fn poly6_is_evaluated_without_a_constant_term() {
    let p = Poly6 { t1: s(1), t2: s(2), t3: s(3), t4: s(4), t5: s(5), t6: s(6) };
    // 2 + 2*4 + 3*8 + 4*16 + 5*32 + 6*64
    assert_eq!(p.eval(&s(2)), s(642));
    assert_eq!(p.eval(&s(0)), s(0));
    assert_eq!(p.eval(&s(1)), s(21));
}

#[test]
fn vec_poly3_evaluation_and_product() {
    let zero = VecPoly3::zero(2);
    assert_eq!(zero.eval(&s(5)), vec![s(0), s(0)]);
    let l = VecPoly3(vec![s(0), s(0)], vec![s(1), s(2)], vec![s(3), s(4)], vec![s(5), s(6)]);
    let r = VecPoly3(vec![s(7), s(8)], vec![s(9), s(10)], vec![s(0), s(0)], vec![s(11), s(12)]);
    // l(2) = 2*l1 + 4*l2 + 8*l3
    assert_eq!(l.eval(&s(2)), vec![s(2 + 12 + 40), s(4 + 16 + 48)]);
    // r(2) = r0 + 2*r1 + 8*r3
    assert_eq!(r.eval(&s(2)), vec![s(7 + 18 + 88), s(8 + 20 + 96)]);
    let t = l.inner_product(&r);
    assert_eq!(t.t1, s(1 * 7 + 2 * 8));
    assert_eq!(t.t2, s((1 * 9 + 2 * 10) + (3 * 7 + 4 * 8)));
    assert_eq!(t.t3, s((3 * 9 + 4 * 10) + (5 * 7 + 6 * 8)));
    assert_eq!(t.t4, s((1 * 11 + 2 * 12) + (5 * 9 + 6 * 10)));
    assert_eq!(t.t5, s(3 * 11 + 4 * 12));
    assert_eq!(t.t6, s(5 * 11 + 6 * 12));
    // with a zero constant term on the left, t(x) is the inner product of l(x) and r(x)
    let x = s(2);
    assert_eq!(t.eval(&x), inner_product(&l.eval(&x), &r.eval(&x)));
}
