use merlin::Transcript;
use r1cs_prover::constraint_system::ConstraintSystem;
use r1cs_prover::errors::R1CSError;
use r1cs_prover::generators::{BulletproofGens, PedersenGens};
use r1cs_prover::point::Point;
use r1cs_prover::prover::ProverCS;
use r1cs_prover::scalar::Scalar;
use r1cs_prover::variable::{Assignment, LinearCombination, Variable};

use curve25519_dalek::constants::RISTRETTO_BASEPOINT_POINT;
use curve25519_dalek::ristretto::RistrettoPoint;
use curve25519_dalek::scalar::Scalar as DalekScalar;

fn point(seed: u8) -> Point {
    let bytes = [seed; 64];
    Point::from_bytes(RistrettoPoint::from_uniform_bytes(&bytes).compress().to_bytes()).unwrap()
}

fn pedersen_gens() -> PedersenGens {
    PedersenGens {
        B: Point::from_bytes(RISTRETTO_BASEPOINT_POINT.compress().to_bytes()).unwrap(),
        B_blinding: point(200),
    }
}

fn bulletproof_gens(capacity: usize) -> BulletproofGens {
    let g = (0..capacity).map(|i| point(i as u8)).collect();
    let h = (0..capacity).map(|i| point(100 + i as u8)).collect();
    BulletproofGens::new(g, h).unwrap()
}

fn scalar(x: u64) -> Scalar {
    Scalar::from_u64(x)
}

fn negated(x: u64) -> Scalar {
    Scalar::from_canonical_bytes((-DalekScalar::from(x)).to_bytes()).unwrap()
}

fn lc(terms: Vec<(Variable, Scalar)>) -> LinearCombination {
    LinearCombination { terms }
}

#[test]
fn flattening_drops_the_constant_term() {
    // One gate 3 * 4 = 12 and the constraint c - 12 = 0, flattened at z = 2.
    let bp_gens = bulletproof_gens(1);
    let pc_gens = pedersen_gens();
    let (mut cs, vars, commitments) =
        ProverCS::new(&bp_gens, &pc_gens, Transcript::new(b"flatten"), vec![], vec![]);
    assert!(vars.is_empty());
    assert!(commitments.is_empty());
    let (a, b, c) = cs
        .assign_multiplier(
            Assignment::Value(scalar(3)),
            Assignment::Value(scalar(4)),
            Assignment::Value(scalar(12)),
        )
        .unwrap();
    assert_eq!(a, Variable::MultiplierLeft(0));
    assert_eq!(b, Variable::MultiplierRight(0));
    assert_eq!(c, Variable::MultiplierOutput(0));
    cs.add_constraint(lc(vec![(c, scalar(1)), (Variable::One, negated(12))]));

    let (w_l, w_r, w_o, w_v) = cs.flattened_constraints(&scalar(2));
    assert_eq!(w_l, vec![scalar(0)]);
    assert_eq!(w_r, vec![scalar(0)]);
    assert_eq!(w_o, vec![scalar(2)]);
    assert!(w_v.is_empty());
}

#[test]
fn flattening_scales_each_constraint_by_its_power() {
    // constraint 0: 5 a_L[0] + 7 v[1];  constraint 1: 3 a_L[0] + 2 a_R[1] + a_L[0]
    // at z = 3: wL[0] = 3*5 + 9*(3+1) = 51, wR[1] = 9*2 = 18, wV[1] = -(3*7) = -21
    let bp_gens = bulletproof_gens(2);
    let pc_gens = pedersen_gens();
    let (mut cs, vars, _) = ProverCS::new(
        &bp_gens,
        &pc_gens,
        Transcript::new(b"flatten"),
        vec![scalar(10), scalar(11)],
        vec![scalar(20), scalar(21)],
    );
    assert_eq!(vars, vec![Variable::Committed(0), Variable::Committed(1)]);
    let (l0, _, _) = cs
        .assign_multiplier(
            Assignment::Value(scalar(1)),
            Assignment::Value(scalar(2)),
            Assignment::Value(scalar(2)),
        )
        .unwrap();
    let (_, r1, _) = cs
        .assign_multiplier(
            Assignment::Value(scalar(3)),
            Assignment::Value(scalar(4)),
            Assignment::Value(scalar(12)),
        )
        .unwrap();
    assert_eq!(r1, Variable::MultiplierRight(1));
    cs.add_constraint(lc(vec![(l0, scalar(5)), (vars[1], scalar(7))]));
    cs.add_constraint(lc(vec![(l0, scalar(3)), (r1, scalar(2)), (l0, scalar(1))]));

    let (w_l, w_r, w_o, w_v) = cs.flattened_constraints(&scalar(3));
    assert_eq!(w_l, vec![scalar(51), scalar(0)]);
    assert_eq!(w_r, vec![scalar(0), scalar(18)]);
    assert_eq!(w_o, vec![scalar(0), scalar(0)]);
    assert_eq!(w_v, vec![scalar(0), negated(21)]);
}

#[test]
fn flattening_without_constraints_is_zero() {
    let bp_gens = bulletproof_gens(1);
    let pc_gens = pedersen_gens();
    let (mut cs, _, _) = ProverCS::new(
        &bp_gens,
        &pc_gens,
        Transcript::new(b"flatten"),
        vec![scalar(1)],
        vec![scalar(2)],
    );
    cs.assign_multiplier(
        Assignment::Value(scalar(1)),
        Assignment::Value(scalar(1)),
        Assignment::Value(scalar(1)),
    )
    .unwrap();
    let (w_l, w_r, w_o, w_v) = cs.flattened_constraints(&scalar(9));
    assert_eq!(w_l, vec![scalar(0)]);
    assert_eq!(w_r, vec![scalar(0)]);
    assert_eq!(w_o, vec![scalar(0)]);
    assert_eq!(w_v, vec![scalar(0)]);
}

#[test]
fn flattened_vectors_satisfy_the_batched_identity() {
    // Constraints without constant terms that hold on the witness:
    //   a_L[0] - v[0] = 0,   a_O[0] - 4 a_R[0] = 0   with 3 * 4 = 12 and v[0] = 3.
    let bp_gens = bulletproof_gens(1);
    let pc_gens = pedersen_gens();
    let (mut cs, vars, _) = ProverCS::new(
        &bp_gens,
        &pc_gens,
        Transcript::new(b"flatten"),
        vec![scalar(3)],
        vec![scalar(77)],
    );
    let (l, r, o) = cs
        .assign_multiplier(
            Assignment::Value(scalar(3)),
            Assignment::Value(scalar(4)),
            Assignment::Value(scalar(12)),
        )
        .unwrap();
    cs.add_constraint(lc(vec![(l, scalar(1)), (vars[0], negated(1))]));
    cs.add_constraint(lc(vec![(o, scalar(1)), (r, negated(3))]));
    let z = DalekScalar::from(123456789u64);
    let (w_l, w_r, w_o, w_v) =
        cs.flattened_constraints(&Scalar::from_canonical_bytes(z.to_bytes()).unwrap());
    let d = |s: &Scalar| DalekScalar::from_canonical_bytes(s.to_bytes()).unwrap();
    let sum = d(&w_l[0]) * DalekScalar::from(3u64)
        + d(&w_r[0]) * DalekScalar::from(4u64)
        + d(&w_o[0]) * DalekScalar::from(12u64)
        - d(&w_v[0]) * DalekScalar::from(3u64);
    assert_eq!(sum, DalekScalar::ZERO);
}

#[test]
fn missing_assignment_is_an_error_and_changes_nothing() {
    let bp_gens = bulletproof_gens(1);
    let pc_gens = pedersen_gens();
    let (mut cs, _, _) =
        ProverCS::new(&bp_gens, &pc_gens, Transcript::new(b"missing"), vec![], vec![]);
    let value = Assignment::Value(scalar(1));
    assert_eq!(
        cs.assign_multiplier(Assignment::Missing, value, value),
        Err(R1CSError::MissingAssignment)
    );
    assert_eq!(
        cs.assign_multiplier(value, Assignment::Missing, value),
        Err(R1CSError::MissingAssignment)
    );
    assert_eq!(
        cs.assign_multiplier(value, value, Assignment::Missing),
        Err(R1CSError::MissingAssignment)
    );
    assert_eq!(
        cs.assign_uncommitted(value, Assignment::Missing),
        Err(R1CSError::MissingAssignment)
    );
    // the next gate is still the first one
    assert_eq!(
        cs.assign_multiplier(value, value, value),
        Ok((
            Variable::MultiplierLeft(0),
            Variable::MultiplierRight(0),
            Variable::MultiplierOutput(0)
        ))
    );
}

#[test]
fn uncommitted_pair_gets_the_product_as_output() {
    let bp_gens = bulletproof_gens(1);
    let pc_gens = pedersen_gens();
    let (mut cs, _, _) =
        ProverCS::new(&bp_gens, &pc_gens, Transcript::new(b"pair"), vec![], vec![]);
    let pair = cs
        .assign_uncommitted(Assignment::Value(scalar(6)), Assignment::Value(scalar(7)))
        .unwrap();
    assert_eq!(pair, (Variable::MultiplierLeft(0), Variable::MultiplierRight(0)));
    cs.add_constraint(lc(vec![(Variable::MultiplierOutput(0), scalar(1))]));
    let (_, _, w_o, _) = cs.flattened_constraints(&scalar(1));
    assert_eq!(w_o, vec![scalar(1)]);
    // the next gate is the second one
    let next = cs
        .assign_uncommitted(Assignment::Value(scalar(1)), Assignment::Value(scalar(1)))
        .unwrap();
    assert_eq!(next, (Variable::MultiplierLeft(1), Variable::MultiplierRight(1)));
}

#[test]
fn assignment_product_is_known_only_where_both_are() {
    let six = Assignment::Value(scalar(6));
    let seven = Assignment::Value(scalar(7));
    match six.mul(seven) {
        Assignment::Value(p) => assert_eq!(p, scalar(42)),
        Assignment::Missing => panic!("product of two values is a value"),
    }
    assert!(matches!(six.mul(Assignment::Missing), Assignment::Missing));
    assert!(matches!(Assignment::Missing.mul(seven), Assignment::Missing));
}
