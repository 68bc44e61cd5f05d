use merlin::Transcript;
use r1cs_prover::constraint_system::ConstraintSystem;
use r1cs_prover::errors::R1CSError;
use r1cs_prover::generators::{BulletproofGens, PedersenGens};
use r1cs_prover::inner_product_proof::InnerProductProof;
use r1cs_prover::point::Point;
use r1cs_prover::prover::{ProverCS, ProverRandomness};
use r1cs_prover::r1cs_proof::R1CSProof;
use r1cs_prover::scalar::Scalar;
use r1cs_prover::transcript::{
    append_u64, challenge_scalar, commit_point, commit_scalar, innerproduct_domain_sep,
    r1cs_domain_sep,
};
use r1cs_prover::variable::{Assignment, LinearCombination, Variable};

use curve25519_dalek::constants::RISTRETTO_BASEPOINT_POINT;
use curve25519_dalek::ristretto::{CompressedRistretto, RistrettoPoint};
use curve25519_dalek::scalar::Scalar as DalekScalar;
use curve25519_dalek::traits::{Identity, MultiscalarMul};

fn raw_point(seed: u8) -> RistrettoPoint {
    RistrettoPoint::from_uniform_bytes(&[seed; 64])
}

fn lib_point(p: &RistrettoPoint) -> Point {
    Point::from_bytes(p.compress().to_bytes()).unwrap()
}

fn group_point(p: &Point) -> RistrettoPoint {
    CompressedRistretto(p.to_bytes()).decompress().unwrap()
}

fn s(x: u64) -> Scalar {
    Scalar::from_u64(x)
}

fn d(x: &Scalar) -> DalekScalar {
    DalekScalar::from_canonical_bytes(x.to_bytes()).unwrap()
}

fn from_dalek(x: DalekScalar) -> Scalar {
    Scalar::from_canonical_bytes(x.to_bytes()).unwrap()
}

fn negated(x: u64) -> Scalar {
    from_dalek(-DalekScalar::from(x))
}

fn value(x: u64) -> Assignment {
    Assignment::Value(s(x))
}

struct Gens {
    b: RistrettoPoint,
    b_blinding: RistrettoPoint,
    g: Vec<RistrettoPoint>,
    h: Vec<RistrettoPoint>,
}

impl Gens {
    fn new(capacity: usize) -> Gens {
        Gens {
            b: RISTRETTO_BASEPOINT_POINT,
            b_blinding: raw_point(200),
            g: (0..capacity).map(|i| raw_point(i as u8)).collect(),
            h: (0..capacity).map(|i| raw_point(100 + i as u8)).collect(),
        }
    }

    fn pedersen(&self) -> PedersenGens {
        PedersenGens { B: lib_point(&self.b), B_blinding: lib_point(&self.b_blinding) }
    }

    fn bulletproof(&self) -> BulletproofGens {
        BulletproofGens::new(
            self.g.iter().map(lib_point).collect(),
            self.h.iter().map(lib_point).collect(),
        )
        .unwrap()
    }
}

/// A circuit: committed openings, gates, and constraints as lists of terms.
struct Circuit {
    v: Vec<u64>,
    v_blinding: Vec<u64>,
    gates: Vec<(u64, u64, u64)>,
    constraints: Vec<Vec<(Variable, Scalar)>>,
}

fn sample_circuit() -> Circuit {
    // v = [3, 4];  gates 3*4=12, 12*2=24, 5*5=25
    Circuit {
        v: vec![3, 4],
        v_blinding: vec![1001, 1002],
        gates: vec![(3, 4, 12), (12, 2, 24), (5, 5, 25)],
        constraints: vec![
            vec![(Variable::MultiplierLeft(0), s(1)), (Variable::Committed(0), negated(1))],
            vec![(Variable::MultiplierRight(0), s(1)), (Variable::Committed(1), negated(1))],
            vec![(Variable::MultiplierOutput(0), s(1)), (Variable::MultiplierLeft(1), negated(1))],
            vec![(Variable::MultiplierOutput(1), s(1)), (Variable::One, negated(24))],
            vec![(Variable::MultiplierRight(1), s(2)), (Variable::One, negated(4))],
        ],
    }
}

fn build<'b>(
    circuit: &Circuit,
    bp_gens: &'b BulletproofGens,
    pc_gens: &'b PedersenGens,
    label: &'static [u8],
) -> (ProverCS<'b>, Vec<Point>) {
    let (mut cs, _, commitments) = ProverCS::new(
        bp_gens,
        pc_gens,
        Transcript::new(label),
        circuit.v.iter().map(|x| s(*x)).collect(),
        circuit.v_blinding.iter().map(|x| s(*x)).collect(),
    );
    for (l, r, o) in &circuit.gates {
        cs.assign_multiplier(value(*l), value(*r), value(*o)).unwrap();
    }
    for terms in &circuit.constraints {
        cs.add_constraint(LinearCombination { terms: terms.clone() });
    }
    (cs, commitments)
}

fn randomness(n: usize, seed: u64) -> ProverRandomness {
    ProverRandomness {
        i_blinding: s(seed + 1),
        o_blinding: s(seed + 2),
        s_blinding: s(seed + 3),
        s_L: (0..n).map(|i| s(seed + 100 + i as u64)).collect(),
        s_R: (0..n).map(|i| s(seed + 200 + i as u64)).collect(),
        t_1_blinding: s(seed + 11),
        t_3_blinding: s(seed + 13),
        t_4_blinding: s(seed + 14),
        t_5_blinding: s(seed + 15),
        t_6_blinding: s(seed + 16),
    }
}

fn absorb_point(t: &mut Transcript, label: &'static [u8], p: &Point) {
    t.append_message(label, &p.to_bytes());
}

fn absorb_scalar(t: &mut Transcript, label: &'static [u8], x: &Scalar) {
    t.append_message(label, &x.to_bytes());
}

fn challenge(t: &mut Transcript, label: &'static [u8]) -> DalekScalar {
    let mut buf = [0u8; 64];
    t.challenge_bytes(label, &mut buf);
    DalekScalar::from_bytes_mod_order_wide(&buf)
}

/// Checks a proof against the commitments and the constraints, with the
/// group and the transcript used directly.
fn verify(
    gens: &Gens,
    label: &'static [u8],
    commitments: &[Point],
    gates: usize,
    constraints: &[Vec<(Variable, Scalar)>],
    proof: &R1CSProof,
) -> bool {
    let m = commitments.len();
    let n = if gates == 0 { 0 } else { gates.next_power_of_two() };
    if proof.ipp_proof.L_vec.len() != proof.ipp_proof.R_vec.len() {
        return false;
    }
    let rounds = proof.ipp_proof.L_vec.len();
    if n > 0 && (1usize << rounds) != n {
        return false;
    }
    if n == 0 && rounds != 0 {
        return false;
    }
    let mut t = Transcript::new(label);
    t.append_message(b"dom-sep", b"r1cs v1");
    t.append_u64(b"m", m as u64);
    for c in commitments {
        absorb_point(&mut t, b"V", c);
    }
    absorb_point(&mut t, b"A_I", &proof.A_I);
    absorb_point(&mut t, b"A_O", &proof.A_O);
    absorb_point(&mut t, b"S", &proof.S);
    let y = challenge(&mut t, b"y");
    let z = challenge(&mut t, b"z");
    absorb_point(&mut t, b"T_1", &proof.T_1);
    absorb_point(&mut t, b"T_3", &proof.T_3);
    absorb_point(&mut t, b"T_4", &proof.T_4);
    absorb_point(&mut t, b"T_5", &proof.T_5);
    absorb_point(&mut t, b"T_6", &proof.T_6);
    let x = challenge(&mut t, b"x");
    absorb_scalar(&mut t, b"t_x", &proof.t_x);
    absorb_scalar(&mut t, b"t_x_blinding", &proof.t_x_blinding);
    absorb_scalar(&mut t, b"e_blinding", &proof.e_blinding);
    let w = challenge(&mut t, b"w");
    t.append_message(b"dom-sep", b"ipp v1");
    t.append_u64(b"n", n as u64);
    let mut u = Vec::new();
    for (l, r) in proof.ipp_proof.L_vec.iter().zip(proof.ipp_proof.R_vec.iter()) {
        absorb_point(&mut t, b"L", l);
        absorb_point(&mut t, b"R", r);
        u.push(challenge(&mut t, b"u"));
    }

    // the flattened constraints, constants included
    let zero = DalekScalar::ZERO;
    let mut w_l = vec![zero; n];
    let mut w_r = vec![zero; n];
    let mut w_o = vec![zero; n];
    let mut w_v = vec![zero; m];
    let mut w_c = zero;
    let mut exp_z = z;
    for terms in constraints {
        for (var, coeff) in terms {
            let c = exp_z * d(coeff);
            match var {
                Variable::MultiplierLeft(i) => w_l[*i] += c,
                Variable::MultiplierRight(i) => w_r[*i] += c,
                Variable::MultiplierOutput(i) => w_o[*i] += c,
                Variable::Committed(j) => w_v[*j] -= c,
                Variable::One => w_c -= c,
            }
        }
        exp_z *= z;
    }

    let y_inv = y.invert();
    let mut y_inv_pow = Vec::new();
    let mut p = DalekScalar::ONE;
    for _ in 0..n {
        y_inv_pow.push(p);
        p *= y_inv;
    }
    let delta: DalekScalar = (0..n).map(|i| y_inv_pow[i] * w_r[i] * w_l[i]).sum();

    let t_x = d(&proof.t_x);
    let t_x_blinding = d(&proof.t_x_blinding);
    let e_blinding = d(&proof.e_blinding);
    let a = d(&proof.ipp_proof.a);
    let b = d(&proof.ipp_proof.b);
    let v_points: Vec<RistrettoPoint> = commitments.iter().map(group_point).collect();

    // the value of t at x is what the commitments to its coefficients say
    let x2 = x * x;
    let mut rhs = gens.b * (x2 * (w_c + delta));
    for j in 0..m {
        rhs += v_points[j] * (x2 * w_v[j]);
    }
    rhs += group_point(&proof.T_1) * x;
    rhs += group_point(&proof.T_3) * (x2 * x);
    rhs += group_point(&proof.T_4) * (x2 * x2);
    rhs += group_point(&proof.T_5) * (x2 * x2 * x);
    rhs += group_point(&proof.T_6) * (x2 * x2 * x2);
    let lhs = gens.b * t_x + gens.b_blinding * t_x_blinding;
    if lhs != rhs {
        return false;
    }

    // t_x is the inner product of the committed l(x) and r(x)
    let mut committed = group_point(&proof.A_I) * x
        + group_point(&proof.A_O) * x2
        + group_point(&proof.S) * (x2 * x)
        - gens.b_blinding * e_blinding
        + gens.b * (w * t_x);
    for i in 0..n {
        committed += gens.g[i] * (x * y_inv_pow[i] * w_r[i]);
        committed += gens.h[i] * (y_inv_pow[i] * (x * w_l[i] + w_o[i]) - DalekScalar::ONE);
    }
    for (j, u_j) in u.iter().enumerate() {
        committed += group_point(&proof.ipp_proof.L_vec[j]) * (u_j * u_j);
        let u_inv = u_j.invert();
        committed += group_point(&proof.ipp_proof.R_vec[j]) * (u_inv * u_inv);
    }
    let mut folded = gens.b * (w * a * b);
    for i in 0..n {
        let mut s_i = DalekScalar::ONE;
        for (j, u_j) in u.iter().enumerate() {
            let bit = (i >> (rounds - 1 - j)) & 1;
            s_i *= if bit == 1 { *u_j } else { u_j.invert() };
        }
        folded += gens.g[i] * (a * s_i);
        folded += gens.h[i] * (b * s_i.invert() * y_inv_pow[i]);
    }
    committed == folded
}

#[test]
fn construction_commits_to_each_value_and_binds_the_transcript() {
    let gens = Gens::new(4);
    let (bp_gens, pc_gens) = (gens.bulletproof(), gens.pedersen());
    let (mut cs, vars, commitments) = ProverCS::new(
        &bp_gens,
        &pc_gens,
        Transcript::new(b"construction"),
        vec![s(3), s(4), s(5)],
        vec![s(30), s(40), s(50)],
    );
    assert_eq!(
        vars,
        vec![Variable::Committed(0), Variable::Committed(1), Variable::Committed(2)]
    );
    assert_eq!(commitments.len(), 3);
    let mut expected = Transcript::new(b"construction");
    expected.append_message(b"dom-sep", b"r1cs v1");
    expected.append_u64(b"m", 3);
    for (i, (v, r)) in [(3u64, 30u64), (4, 40), (5, 50)].iter().enumerate() {
        let c = gens.b * DalekScalar::from(*v) + gens.b_blinding * DalekScalar::from(*r);
        assert_eq!(commitments[i].to_bytes(), c.compress().to_bytes());
        expected.append_message(b"V", c.compress().as_bytes());
    }
    let got = cs.challenge_scalar(b"first");
    assert_eq!(d(&got), challenge(&mut expected, b"first"));
    // a challenge moves the transcript on
    let again = cs.challenge_scalar(b"first");
    assert_ne!(again, got);
    assert_eq!(d(&again), challenge(&mut expected, b"first"));
}

#[test]
fn challenges_depend_on_every_commitment() {
    let gens = Gens::new(1);
    let (bp_gens, pc_gens) = (gens.bulletproof(), gens.pedersen());
    let first = |v: u64, r: u64| {
        let (mut cs, _, commitments) = ProverCS::new(
            &bp_gens,
            &pc_gens,
            Transcript::new(b"binding"),
            vec![s(v)],
            vec![s(r)],
        );
        (commitments[0], cs.challenge_scalar(b"c"))
    };
    let (c0, x0) = first(3, 30);
    let (c1, x1) = first(3, 30);
    let (c2, x2) = first(4, 30);
    let (c3, x3) = first(3, 31);
    assert_eq!((c0, x0), (c1, x1));
    assert_ne!(c0, c2);
    assert_ne!(x0, x2);
    assert_ne!(c0, c3);
    assert_ne!(x0, x3);
}

#[test]
fn transcript_messages_are_merlin_messages() {
    let p = lib_point(&raw_point(7));
    let mut ours = Transcript::new(b"messages");
    let mut theirs = Transcript::new(b"messages");
    r1cs_domain_sep(&mut ours, 5);
    theirs.append_message(b"dom-sep", b"r1cs v1");
    theirs.append_u64(b"m", 5);
    innerproduct_domain_sep(&mut ours, 8);
    theirs.append_message(b"dom-sep", b"ipp v1");
    theirs.append_u64(b"n", 8);
    append_u64(&mut ours, b"k", 0x0102030405060708);
    theirs.append_message(b"k", &[8, 7, 6, 5, 4, 3, 2, 1]);
    commit_point(&mut ours, b"P", &p);
    theirs.append_message(b"P", &p.to_bytes());
    commit_scalar(&mut ours, b"s", &s(258));
    let mut bytes = [0u8; 32];
    bytes[0] = 2;
    bytes[1] = 1;
    theirs.append_message(b"s", &bytes);
    let c = challenge_scalar(&mut ours, b"c");
    assert_eq!(d(&c), challenge(&mut theirs, b"c"));
    // the order of the messages matters
    let mut swapped = Transcript::new(b"messages");
    innerproduct_domain_sep(&mut swapped, 8);
    r1cs_domain_sep(&mut swapped, 5);
    append_u64(&mut swapped, b"k", 0x0102030405060708);
    commit_point(&mut swapped, b"P", &p);
    commit_scalar(&mut swapped, b"s", &s(258));
    assert_ne!(challenge_scalar(&mut swapped, b"c"), c);
}

#[test]
fn proof_of_a_satisfied_circuit_verifies() {
    let gens = Gens::new(4);
    let (bp_gens, pc_gens) = (gens.bulletproof(), gens.pedersen());
    let circuit = sample_circuit();
    let (cs, commitments) = build(&circuit, &bp_gens, &pc_gens, b"sample");
    let (result, _) = cs.prove();
    let proof = result.unwrap();
    // three gates are padded to four: two rounds of the inner-product argument
    assert_eq!(proof.ipp_proof.L_vec.len(), 2);
    assert_eq!(proof.ipp_proof.R_vec.len(), 2);
    assert!(verify(&gens, b"sample", &commitments, 3, &circuit.constraints, &proof));
    // under another label, or for other commitments, the proof is not accepted
    assert!(!verify(&gens, b"other", &commitments, 3, &circuit.constraints, &proof));
    let mut swapped = commitments.clone();
    swapped.swap(0, 1);
    assert!(!verify(&gens, b"sample", &swapped, 3, &circuit.constraints, &proof));
}

#[test]
fn proof_of_a_violated_constraint_does_not_verify() {
    let gens = Gens::new(4);
    let (bp_gens, pc_gens) = (gens.bulletproof(), gens.pedersen());
    let mut circuit = sample_circuit();
    // a_O[1] is 24, not 25
    circuit.constraints[3] =
        vec![(Variable::MultiplierOutput(1), s(1)), (Variable::One, negated(25))];
    let (cs, commitments) = build(&circuit, &bp_gens, &pc_gens, b"sample");
    let proof = cs.prove().0.unwrap();
    assert!(!verify(&gens, b"sample", &commitments, 3, &circuit.constraints, &proof));
}

#[test]
fn proof_of_a_gate_that_does_not_multiply_does_not_verify() {
    let gens = Gens::new(4);
    let (bp_gens, pc_gens) = (gens.bulletproof(), gens.pedersen());
    let mut circuit = sample_circuit();
    circuit.gates[2] = (5, 5, 26);
    let (cs, commitments) = build(&circuit, &bp_gens, &pc_gens, b"sample");
    let proof = cs.prove().0.unwrap();
    assert!(!verify(&gens, b"sample", &commitments, 3, &circuit.constraints, &proof));
}

#[test]
fn padded_and_unpadded_circuits_give_one_proof() {
    let gens = Gens::new(4);
    let (bp_gens, pc_gens) = (gens.bulletproof(), gens.pedersen());
    let circuit = sample_circuit();
    let mut padded = sample_circuit();
    padded.gates.push((0, 0, 0));
    let (cs, commitments) = build(&circuit, &bp_gens, &pc_gens, b"padding");
    let (cs_padded, commitments_padded) = build(&padded, &bp_gens, &pc_gens, b"padding");
    assert_eq!(commitments, commitments_padded);
    let (a, ta) = cs.prove_with_randomness(&randomness(4, 5000));
    let (b, tb) = cs_padded.prove_with_randomness(&randomness(4, 5000));
    let (a, b) = (a.unwrap(), b.unwrap());
    assert_eq!(proof_bytes(&a), proof_bytes(&b));
    assert!(verify(&gens, b"padding", &commitments, 3, &circuit.constraints, &a));
    assert!(verify(&gens, b"padding", &commitments, 4, &circuit.constraints, &b));
    let (mut ta, mut tb) = (ta, tb);
    assert_eq!(challenge(&mut ta, b"after"), challenge(&mut tb, b"after"));
}

fn proof_bytes(p: &R1CSProof) -> Vec<u8> {
    let mut out = Vec::new();
    for point in [&p.A_I, &p.A_O, &p.S, &p.T_1, &p.T_3, &p.T_4, &p.T_5, &p.T_6] {
        out.extend_from_slice(&point.to_bytes());
    }
    for scalar in [&p.t_x, &p.t_x_blinding, &p.e_blinding] {
        out.extend_from_slice(&scalar.to_bytes());
    }
    for point in p.ipp_proof.L_vec.iter().chain(p.ipp_proof.R_vec.iter()) {
        out.extend_from_slice(&point.to_bytes());
    }
    out.extend_from_slice(&p.ipp_proof.a.to_bytes());
    out.extend_from_slice(&p.ipp_proof.b.to_bytes());
    out
}

#[test]
fn proof_is_a_function_of_the_blinding_factors() {
    let gens = Gens::new(4);
    let (bp_gens, pc_gens) = (gens.bulletproof(), gens.pedersen());
    let circuit = sample_circuit();
    let run = |seed: u64| {
        let (cs, commitments) = build(&circuit, &bp_gens, &pc_gens, b"function");
        let proof = cs.prove_with_randomness(&randomness(4, seed)).0.unwrap();
        assert!(verify(&gens, b"function", &commitments, 3, &circuit.constraints, &proof));
        proof
    };
    let a = run(100);
    let b = run(100);
    let c = run(101);
    assert_eq!(proof_bytes(&a), proof_bytes(&b));
    assert_ne!(proof_bytes(&a), proof_bytes(&c));
}

#[test]
fn gate_commitments_and_evaluations_are_as_stated() {
    let gens = Gens::new(2);
    let (bp_gens, pc_gens) = (gens.bulletproof(), gens.pedersen());
    let circuit = Circuit {
        v: vec![],
        v_blinding: vec![],
        gates: vec![(3, 4, 12), (5, 6, 30)],
        constraints: vec![],
    };
    let (cs, _) = build(&circuit, &bp_gens, &pc_gens, b"gates");
    let r = randomness(2, 40);
    let proof = cs.prove_with_randomness(&r).0.unwrap();
    let sc = |x: u64| DalekScalar::from(x);
    let a_i = RistrettoPoint::multiscalar_mul(
        [sc(41), sc(3), sc(5), sc(4), sc(6)],
        [gens.b_blinding, gens.g[0], gens.g[1], gens.h[0], gens.h[1]],
    );
    let a_o = RistrettoPoint::multiscalar_mul(
        [sc(42), sc(12), sc(30)],
        [gens.b_blinding, gens.g[0], gens.g[1]],
    );
    let s_point = RistrettoPoint::multiscalar_mul(
        [sc(43), sc(140), sc(141), sc(240), sc(241)],
        [gens.b_blinding, gens.g[0], gens.g[1], gens.h[0], gens.h[1]],
    );
    assert_eq!(proof.A_I.to_bytes(), a_i.compress().to_bytes());
    assert_eq!(proof.A_O.to_bytes(), a_o.compress().to_bytes());
    assert_eq!(proof.S.to_bytes(), s_point.compress().to_bytes());

    // replay the transcript for x, and check the two blindings
    let mut t = Transcript::new(b"gates");
    t.append_message(b"dom-sep", b"r1cs v1");
    t.append_u64(b"m", 0);
    absorb_point(&mut t, b"A_I", &proof.A_I);
    absorb_point(&mut t, b"A_O", &proof.A_O);
    absorb_point(&mut t, b"S", &proof.S);
    let _y = challenge(&mut t, b"y");
    let _z = challenge(&mut t, b"z");
    absorb_point(&mut t, b"T_1", &proof.T_1);
    absorb_point(&mut t, b"T_3", &proof.T_3);
    absorb_point(&mut t, b"T_4", &proof.T_4);
    absorb_point(&mut t, b"T_5", &proof.T_5);
    absorb_point(&mut t, b"T_6", &proof.T_6);
    let x = challenge(&mut t, b"x");
    let e = x * (sc(41) + x * (sc(42) + x * sc(43)));
    assert_eq!(d(&proof.e_blinding), e);
    // no committed values: the blinding of t_2 is zero
    let tb = x * (sc(51) + x * (sc(0) + x * (sc(53) + x * (sc(54) + x * (sc(55) + x * sc(56))))));
    assert_eq!(d(&proof.t_x_blinding), tb);
}

#[test]
fn two_proofs_of_one_circuit_differ_and_both_verify() {
    let gens = Gens::new(4);
    let (bp_gens, pc_gens) = (gens.bulletproof(), gens.pedersen());
    let circuit = sample_circuit();
    let (cs1, commitments1) = build(&circuit, &bp_gens, &pc_gens, b"twice");
    let (cs2, commitments2) = build(&circuit, &bp_gens, &pc_gens, b"twice");
    assert_eq!(commitments1, commitments2);
    let first = cs1.prove().0.unwrap();
    let second = cs2.prove().0.unwrap();
    assert_ne!(proof_bytes(&first), proof_bytes(&second));
    // what does not depend on the blinding factors is the same
    assert_eq!(first.ipp_proof.L_vec.len(), second.ipp_proof.L_vec.len());
    assert!(verify(&gens, b"twice", &commitments1, 3, &circuit.constraints, &first));
    assert!(verify(&gens, b"twice", &commitments1, 3, &circuit.constraints, &second));
}

#[test]
fn too_few_generators_is_an_error_that_leaves_the_transcript() {
    let gens = Gens::new(3);
    let (bp_gens, pc_gens) = (gens.bulletproof(), gens.pedersen());
    let circuit = sample_circuit();
    // three gates need four bases
    let (cs, commitments) = build(&circuit, &bp_gens, &pc_gens, b"capacity");
    let (result, mut transcript) = cs.prove();
    assert_eq!(result.err(), Some(R1CSError::InvalidGeneratorsLength));
    let mut expected = Transcript::new(b"capacity");
    expected.append_message(b"dom-sep", b"r1cs v1");
    expected.append_u64(b"m", 2);
    for c in &commitments {
        absorb_point(&mut expected, b"V", c);
    }
    assert_eq!(challenge(&mut transcript, b"c"), challenge(&mut expected, b"c"));

    let (cs, _) = build(&circuit, &bp_gens, &pc_gens, b"capacity");
    let (result, _) = cs.prove_with_randomness(&randomness(4, 1));
    assert_eq!(result.err(), Some(R1CSError::InvalidGeneratorsLength));
}

#[test]
fn generators_of_exactly_the_padded_size_suffice() {
    for gates in [1usize, 2, 4] {
        let gens = Gens::new(gates);
        let (bp_gens, pc_gens) = (gens.bulletproof(), gens.pedersen());
        let circuit = Circuit {
            v: vec![6],
            v_blinding: vec![9],
            gates: (0..gates as u64).map(|i| (i + 2, 3, 3 * (i + 2))).collect(),
            constraints: vec![vec![
                (Variable::MultiplierOutput(0), s(1)),
                (Variable::Committed(0), negated(1)),
            ]],
        };
        let (cs, commitments) = build(&circuit, &bp_gens, &pc_gens, b"exact");
        let proof = cs.prove().0.unwrap();
        assert_eq!(1usize << proof.ipp_proof.L_vec.len(), gates);
        assert!(verify(&gens, b"exact", &commitments, gates, &circuit.constraints, &proof));
    }
}

#[test]
fn uncommitted_pair_is_proved_with_the_product_as_output() {
    let gens = Gens::new(1);
    let (bp_gens, pc_gens) = (gens.bulletproof(), gens.pedersen());
    let holds = vec![vec![(Variable::MultiplierOutput(0), s(1)), (Variable::One, negated(42))]];
    let fails = vec![vec![(Variable::MultiplierOutput(0), s(1)), (Variable::One, negated(43))]];
    let (mut cs, _, commitments) =
        ProverCS::new(&bp_gens, &pc_gens, Transcript::new(b"pair"), vec![], vec![]);
    cs.assign_uncommitted(value(6), value(7)).unwrap();
    cs.add_constraint(LinearCombination { terms: holds[0].clone() });
    let proof = cs.prove().0.unwrap();
    assert!(verify(&gens, b"pair", &commitments, 1, &holds, &proof));
    assert!(!verify(&gens, b"pair", &commitments, 1, &fails, &proof));
}

#[test]
fn circuit_without_gates_is_proved_without_rounds() {
    let gens = Gens::new(0);
    let (bp_gens, pc_gens) = (gens.bulletproof(), gens.pedersen());
    let circuit = Circuit {
        v: vec![7],
        v_blinding: vec![70],
        gates: vec![],
        constraints: vec![vec![(Variable::Committed(0), s(1)), (Variable::One, negated(7))]],
    };
    let (cs, commitments) = build(&circuit, &bp_gens, &pc_gens, b"empty");
    let proof = cs.prove().0.unwrap();
    assert!(proof.ipp_proof.L_vec.is_empty());
    assert!(proof.ipp_proof.R_vec.is_empty());
    assert_eq!(proof.ipp_proof.a, s(0));
    assert_eq!(proof.ipp_proof.b, s(0));
    assert_eq!(proof.t_x, s(0));
    assert!(verify(&gens, b"empty", &commitments, 0, &circuit.constraints, &proof));
    // the committed value is 7, not 8
    let wrong = vec![vec![(Variable::Committed(0), s(1)), (Variable::One, negated(8))]];
    assert!(!verify(&gens, b"empty", &commitments, 0, &wrong, &proof));
}

#[test]
fn inner_product_argument_folds_to_one_pair() {
    let gens = Gens::new(4);
    let q = lib_point(&raw_point(250));
    let g: Vec<Point> = gens.g.iter().map(lib_point).collect();
    let h: Vec<Point> = gens.h.iter().map(lib_point).collect();
    let a = vec![s(1), s(2), s(3), s(4)];
    let b = vec![s(5), s(6), s(7), s(8)];
    let ones = vec![s(1); 4];
    let mut t = Transcript::new(b"ipp");
    let proof = InnerProductProof::create(&mut t, &q, &ones, g.clone(), h.clone(), a, b);
    assert_eq!(proof.L_vec.len(), 2);

    // the first cross terms
    let sc = |x: u64| DalekScalar::from(x);
    let qp = group_point(&q);
    let l0 = gens.g[2] * sc(1) + gens.g[3] * sc(2) + gens.h[0] * sc(7) + gens.h[1] * sc(8)
        + qp * sc(1 * 7 + 2 * 8);
    let r0 = gens.g[0] * sc(3) + gens.g[1] * sc(4) + gens.h[2] * sc(5) + gens.h[3] * sc(6)
        + qp * sc(3 * 5 + 4 * 6);
    assert_eq!(proof.L_vec[0].to_bytes(), l0.compress().to_bytes());
    assert_eq!(proof.R_vec[0].to_bytes(), r0.compress().to_bytes());

    // replay the challenges and fold by hand
    let mut replay = Transcript::new(b"ipp");
    replay.append_message(b"dom-sep", b"ipp v1");
    replay.append_u64(b"n", 4);
    absorb_point(&mut replay, b"L", &proof.L_vec[0]);
    absorb_point(&mut replay, b"R", &proof.R_vec[0]);
    let u1 = challenge(&mut replay, b"u");
    absorb_point(&mut replay, b"L", &proof.L_vec[1]);
    absorb_point(&mut replay, b"R", &proof.R_vec[1]);
    let u2 = challenge(&mut replay, b"u");
    let (u1i, u2i) = (u1.invert(), u2.invert());
    let a1 = [sc(1) * u1 + u1i * sc(3), sc(2) * u1 + u1i * sc(4)];
    let b1 = [sc(5) * u1i + u1 * sc(7), sc(6) * u1i + u1 * sc(8)];
    assert_eq!(d(&proof.a), a1[0] * u2 + u2i * a1[1]);
    assert_eq!(d(&proof.b), b1[0] * u2i + u2 * b1[1]);
    // both transcripts end in one state
    assert_eq!(challenge(&mut t, b"end"), challenge(&mut replay, b"end"));

    // the statement P + u^2 L + u^-2 R folds to a*G + b*H + ab*Q
    let mut p = qp * sc(5 + 12 + 21 + 32);
    for i in 0..4 {
        p += gens.g[i] * sc(1 + i as u64) + gens.h[i] * sc(5 + i as u64);
    }
    p += group_point(&proof.L_vec[0]) * (u1 * u1) + group_point(&proof.R_vec[0]) * (u1i * u1i);
    p += group_point(&proof.L_vec[1]) * (u2 * u2) + group_point(&proof.R_vec[1]) * (u2i * u2i);
    let s_of = [u1i * u2i, u1i * u2, u1 * u2i, u1 * u2];
    let (pa, pb) = (d(&proof.a), d(&proof.b));
    let mut folded = qp * (pa * pb);
    for i in 0..4 {
        folded += gens.g[i] * (pa * s_of[i]) + gens.h[i] * (pb * s_of[i].invert());
    }
    assert_eq!(p, folded);
    assert_ne!(p, RistrettoPoint::identity());
}

#[test]
fn inner_product_argument_of_short_vectors() {
    let q = lib_point(&raw_point(250));
    let mut t = Transcript::new(b"ipp");
    let empty = InnerProductProof::create(&mut t, &q, &vec![], vec![], vec![], vec![], vec![]);
    assert!(empty.L_vec.is_empty() && empty.R_vec.is_empty());
    assert_eq!((empty.a, empty.b), (s(0), s(0)));

    let mut t = Transcript::new(b"ipp");
    let one = InnerProductProof::create(
        &mut t,
        &q,
        &vec![s(9)],
        vec![lib_point(&raw_point(1))],
        vec![lib_point(&raw_point(2))],
        vec![s(3)],
        vec![s(4)],
    );
    assert!(one.L_vec.is_empty() && one.R_vec.is_empty());
    assert_eq!((one.a, one.b), (s(3), s(4)));
}
