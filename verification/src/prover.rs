//! The prover's constraint system and the proving algorithm.
use vstd::prelude::*;
use vstd::arithmetic::power::{lemma_pow0, lemma_pow1, lemma_pow_adds, pow};
use vstd::string::StringSliceAdditionalSpecFns;
use crate::constraint_system::ConstraintSystem;
use crate::errors::R1CSError;
use crate::field::{
    congruent, lemma_congruent_mul, lemma_horner_step, lemma_reduce_add, lemma_reduce_mul,
    lemma_reduce_range, lemma_reduce_small, lemma_reduce_sub, reduce,
};
use crate::flatten::{
    flattened, lemma_tracks_end, lemma_tracks_hit, lemma_tracks_skip, lemma_tracks_start,
    settled, tracks, Wire,
};
use crate::generators::{pedersen_commitment, BulletproofGens, PedersenGens};
use crate::inner_product_proof::InnerProductProof;
use crate::point::{encodings, multiscalar_mul, Point};
use crate::protocol::{
    l_poly, proof_of, r_poly, vector_commitment, CircuitModel, RandomnessModel,
};
use crate::r1cs_proof::R1CSProof;
use crate::scalar::{
    inverse, scalar_add, scalar_mul, scalar_random, scalar_sub, values, Scalar,
};
use crate::transcript::{
    build_rng, challenge_scalar, challenge_value, commit_point, commit_scalar, finalize_rng,
    r1cs_domain_sep, rekey_with_witness_bytes, state_after_challenge, state_after_points,
    state_after_r1cs_domain_sep, transcript_state,
};
use crate::util::{
    exp_iter, extend, inner_product, lemma_padded_len, next_power_of_two, padded_len, powers,
    slice, zero_vector, zeros, Poly6, VecPoly3,
};
use crate::variable::{
    lc_in_range, lc_views, var_in_range, Assignment, LinearCombination, Variable,
};

verus! {

/// The blinding factors of one proof.
pub struct ProverRandomness {
    pub i_blinding: Scalar,
    pub o_blinding: Scalar,
    pub s_blinding: Scalar,
    pub s_L: Vec<Scalar>,
    pub s_R: Vec<Scalar>,
    pub t_1_blinding: Scalar,
    pub t_3_blinding: Scalar,
    pub t_4_blinding: Scalar,
    pub t_5_blinding: Scalar,
    pub t_6_blinding: Scalar,
}

impl View for ProverRandomness {
    type V = RandomnessModel;

    open spec fn view(&self) -> RandomnessModel {
        RandomnessModel {
            i_blinding: self.i_blinding@,
            o_blinding: self.o_blinding@,
            s_blinding: self.s_blinding@,
            s_l: values(self.s_L@),
            s_r: values(self.s_R@),
            t_1_blinding: self.t_1_blinding@,
            t_3_blinding: self.t_3_blinding@,
            t_4_blinding: self.t_4_blinding@,
            t_5_blinding: self.t_5_blinding@,
            t_6_blinding: self.t_6_blinding@,
        }
    }
}

/// A constraint system for use by the prover.
///
/// The prover hands the openings `(v, v_blinding)` of the commitments to the
/// inputs of the circuit to [`ProverCS::new`], together with the transcript,
/// which the constraint system owns from then on.  The circuit is built
/// through the [`ConstraintSystem`] interface.  [`ProverCS::prove`] consumes
/// the constraint system and gives the transcript back.
pub struct ProverCS<'b> {
    transcript: merlin::Transcript,
    bp_gens: &'b BulletproofGens,
    pc_gens: &'b PedersenGens,
    constraints: Vec<LinearCombination>,
    a_L: Vec<Scalar>,
    a_R: Vec<Scalar>,
    a_O: Vec<Scalar>,
    v: Vec<Scalar>,
    v_blinding: Vec<Scalar>,
}

impl<'b> View for ProverCS<'b> {
    type V = CircuitModel;

    closed spec fn view(&self) -> CircuitModel {
        CircuitModel {
            pc_gens: *self.pc_gens,
            g: encodings(self.bp_gens.g()),
            h: encodings(self.bp_gens.h()),
            a_l: values(self.a_L@),
            a_r: values(self.a_R@),
            a_o: values(self.a_O@),
            v: values(self.v@),
            v_blinding: values(self.v_blinding@),
            constraints: lc_views(self.constraints@),
            state: transcript_state(self.transcript),
        }
    }
}

/// The variables of `m` committed values, in order.
pub open spec fn committed_variables(m: nat) -> Seq<Variable> {
    Seq::new(m, |i: int| Variable::Committed(i as usize))
}

/// The commitments to the values `v` under the blinding factors `v_blinding`.
pub open spec fn commitments_to(gens: PedersenGens, v: Seq<int>, v_blinding: Seq<int>) -> Seq<
    Seq<u8>,
> {
    Seq::new(v.len(), |i: int| pedersen_commitment(gens, v[i], v_blinding[i]))
}

/// The commitment `blinding * base + <a, g> + <b, h>`.
fn vector_commit(
    blinding: &Scalar,
    base: &Point,
    a: &Vec<Scalar>,
    g: &Vec<Point>,
    b: &Vec<Scalar>,
    h: &Vec<Point>,
) -> (out: Point)
    requires
        a.len() == g.len(),
        b.len() == h.len(),
    ensures
        out@ == vector_commitment(
            blinding@,
            base@,
            values(a@),
            encodings(g@),
            values(b@),
            encodings(h@),
        ),
{
    let mut scalars: Vec<Scalar> = Vec::new();
    scalars.push(*blinding);
    extend(&mut scalars, a);
    extend(&mut scalars, b);
    let mut points: Vec<Point> = Vec::new();
    points.push(*base);
    extend(&mut points, g);
    extend(&mut points, h);
    assert(values(scalars@) =~= seq![blinding@] + values(a@) + values(b@));
    assert(encodings(points@) =~= seq![base@] + encodings(g@) + encodings(h@));
    multiscalar_mul(&scalars, &points)
}

/// The two blinded polynomials of the proof.
fn blinded_polynomials(
    a_L: &Vec<Scalar>,
    a_R: &Vec<Scalar>,
    a_O: &Vec<Scalar>,
    s_L: &Vec<Scalar>,
    s_R: &Vec<Scalar>,
    wL: &Vec<Scalar>,
    wR: &Vec<Scalar>,
    wO: &Vec<Scalar>,
    y: &Scalar,
    exp_y_inv: &Vec<Scalar>,
) -> (out: (VecPoly3, VecPoly3))
    requires
        a_R.len() == a_L.len(),
        a_O.len() == a_L.len(),
        s_L.len() == a_L.len(),
        s_R.len() == a_L.len(),
        wL.len() == a_L.len(),
        wR.len() == a_L.len(),
        wO.len() == a_L.len(),
        values(exp_y_inv@) == powers(inverse(y@), a_L.len() as nat),
    ensures
        out.0@ == l_poly(values(a_L@), values(a_O@), values(s_L@), values(wR@), y@),
        out.1@ == r_poly(values(a_R@), values(s_R@), values(wL@), values(wO@), y@),
{
    let n = a_L.len();
    let mut l1: Vec<Scalar> = Vec::with_capacity(n);
    let mut r0: Vec<Scalar> = Vec::with_capacity(n);
    let mut r1: Vec<Scalar> = Vec::with_capacity(n);
    let mut r3: Vec<Scalar> = Vec::with_capacity(n);
    let mut exp_y = Scalar::one();
    let mut i: usize = 0;
    proof {
        lemma_pow0(y@);
        lemma_reduce_small(1);
        assert(exp_y_inv.len() == n) by {
            assert(values(exp_y_inv@).len() == n);
        }
    }
    while i < n
        invariant
            i <= n,
            n == a_L.len(),
            a_R.len() == n,
            s_R.len() == n,
            wL.len() == n,
            wR.len() == n,
            wO.len() == n,
            exp_y_inv.len() == n,
            values(exp_y_inv@) == powers(inverse(y@), n as nat),
            l1.len() == i,
            r0.len() == i,
            r1.len() == i,
            r3.len() == i,
            exp_y@ == reduce(pow(y@, i as nat)),
            forall|j: int|
                0 <= j < i ==> (#[trigger] l1@[j])@ == reduce(
                    a_L@[j]@ + pow(inverse(y@), j as nat) * wR@[j]@,
                ),
            forall|j: int|
                0 <= j < i ==> (#[trigger] r0@[j])@ == reduce(wO@[j]@ - pow(y@, j as nat)),
            forall|j: int|
                0 <= j < i ==> (#[trigger] r1@[j])@ == reduce(
                    pow(y@, j as nat) * a_R@[j]@ + wL@[j]@,
                ),
            forall|j: int|
                0 <= j < i ==> (#[trigger] r3@[j])@ == reduce(pow(y@, j as nat) * s_R@[j]@),
        decreases n - i,
    {
        let ghost p = pow(y@, i as nat);
        let ghost p_inv = pow(inverse(y@), i as nat);
        proof {
            assert(values(exp_y_inv@)[i as int] == reduce(p_inv));
            lemma_reduce_mul(p_inv, wR@[i as int]@);
            lemma_reduce_add(a_L@[i as int]@, p_inv * wR@[i as int]@);
            lemma_reduce_sub(wO@[i as int]@, p);
            lemma_reduce_mul(p, a_R@[i as int]@);
            lemma_reduce_add(p * a_R@[i as int]@, wL@[i as int]@);
            lemma_reduce_mul(p, s_R@[i as int]@);
            lemma_reduce_mul(p, y@);
            lemma_pow_adds(y@, i as nat, 1);
            lemma_pow1(y@);
        }
        l1.push(scalar_add(&a_L[i], &scalar_mul(&exp_y_inv[i], &wR[i])));
        r0.push(scalar_sub(&wO[i], &exp_y));
        r1.push(scalar_add(&scalar_mul(&exp_y, &a_R[i]), &wL[i]));
        r3.push(scalar_mul(&exp_y, &s_R[i]));
        exp_y = scalar_mul(&exp_y, y);
        i += 1;
    }
    let left = VecPoly3(zero_vector(n), l1, slice(a_O, 0, n), slice(s_L, 0, n));
    let right = VecPoly3(r0, r1, zero_vector(n), r3);
    proof {
        let l = l_poly(values(a_L@), values(a_O@), values(s_L@), values(wR@), y@);
        let r = r_poly(values(a_R@), values(s_R@), values(wL@), values(wO@), y@);
        assert(left@.c1 =~= l.c1);
        assert(left@.c2 =~= l.c2);
        assert(left@.c3 =~= l.c3);
        assert(right@.c0 =~= r.c0);
        assert(right@.c1 =~= r.c1);
        assert(right@.c3 =~= r.c3);
    }
    (left, right)
}

/// Draws the blinding factors of a proof over `n` gates, in the order in
/// which the proof uses them.
fn draw_randomness(rng: &mut merlin::TranscriptRng, n: usize) -> (r: ProverRandomness)
    ensures
        r.s_L.len() == n,
        r.s_R.len() == n,
{
    let i_blinding = scalar_random(rng);
    let o_blinding = scalar_random(rng);
    let s_blinding = scalar_random(rng);
    let s_L = draw_scalars(rng, n);
    let s_R = draw_scalars(rng, n);
    let t_1_blinding = scalar_random(rng);
    let t_3_blinding = scalar_random(rng);
    let t_4_blinding = scalar_random(rng);
    let t_5_blinding = scalar_random(rng);
    let t_6_blinding = scalar_random(rng);
    ProverRandomness {
        i_blinding,
        o_blinding,
        s_blinding,
        s_L,
        s_R,
        t_1_blinding,
        t_3_blinding,
        t_4_blinding,
        t_5_blinding,
        t_6_blinding,
    }
}

fn draw_scalars(rng: &mut merlin::TranscriptRng, n: usize) -> (out: Vec<Scalar>)
    ensures
        out.len() == n,
{
    let mut out: Vec<Scalar> = Vec::with_capacity(n);
    let mut i: usize = 0;
    while i < n
        invariant
            i <= n,
            out.len() == i,
        decreases n - i,
    {
        out.push(scalar_random(rng));
        i += 1;
    }
    out
}

impl<'b> ProverCS<'b> {
    /// Constructs an empty constraint system over the committed values `v`.
    ///
    /// Absorbs the domain separator and a commitment to each value into the
    /// transcript, and returns the constraint system, the variables of the
    /// committed values and the commitments.
    pub fn new(
        bp_gens: &'b BulletproofGens,
        pc_gens: &'b PedersenGens,
        transcript: merlin::Transcript,
        v: Vec<Scalar>,
        v_blinding: Vec<Scalar>,
    ) -> (out: (Self, Vec<Variable>, Vec<Point>))
        requires
            v.len() == v_blinding.len(),
        ensures
            out.0.wf(),
            out.0@ == (CircuitModel {
                pc_gens: *pc_gens,
                g: encodings(bp_gens.g()),
                h: encodings(bp_gens.h()),
                a_l: seq![],
                a_r: seq![],
                a_o: seq![],
                v: values(v@),
                v_blinding: values(v_blinding@),
                constraints: seq![],
                state: state_after_points(
                    state_after_r1cs_domain_sep(transcript_state(transcript), v.len() as u64),
                    "V".spec_bytes(),
                    encodings(out.2@),
                ),
            }),
            out.1@ == committed_variables(v.len() as nat),
            encodings(out.2@) == commitments_to(*pc_gens, values(v@), values(v_blinding@)),
    {
        let m = v.len();
        let mut transcript = transcript;
        r1cs_domain_sep(&mut transcript, m as u64);
        let ghost start = transcript_state(transcript);
        let mut variables: Vec<Variable> = Vec::with_capacity(m);
        let mut commitments: Vec<Point> = Vec::with_capacity(m);
        let mut i: usize = 0;
        assert(encodings(commitments@) =~= seq![]);
        while i < m
            invariant
                i <= m,
                m == v.len() == v_blinding.len(),
                variables.len() == i,
                commitments.len() == i,
                forall|j: int| 0 <= j < i ==> #[trigger] variables@[j] == Variable::Committed(j as usize),
                forall|j: int|
                    0 <= j < i ==> (#[trigger] commitments@[j])@ == pedersen_commitment(
                        *pc_gens,
                        v@[j]@,
                        v_blinding@[j]@,
                    ),
                transcript_state(transcript) == state_after_points(
                    start,
                    "V".spec_bytes(),
                    encodings(commitments@),
                ),
            decreases m - i,
        {
            let ghost before = encodings(commitments@);
            let V = pc_gens.commit(&v[i], &v_blinding[i]);
            commit_point(&mut transcript, "V".as_bytes(), &V);
            commitments.push(V);
            variables.push(Variable::Committed(i));
            proof {
                assert(encodings(commitments@).drop_last() =~= before);
            }
            i += 1;
        }
        let cs = ProverCS {
            pc_gens,
            bp_gens,
            transcript,
            v,
            v_blinding,
            constraints: Vec::new(),
            a_L: Vec::new(),
            a_R: Vec::new(),
            a_O: Vec::new(),
        };
        proof {
            use_type_invariant(bp_gens);
            assert(cs@.a_l =~= seq![]);
            assert(cs@.a_r =~= seq![]);
            assert(cs@.a_o =~= seq![]);
            assert(cs@.constraints =~= seq![]);
            assert(variables@ =~= committed_variables(m as nat));
            assert(encodings(commitments@) =~= commitments_to(
                *pc_gens,
                values(cs.v@),
                values(cs.v_blinding@),
            ));
        }
        (cs, variables, commitments)
    }

    /// Appends gates of zeros until the number of gates is zero or a power
    /// of two.
    fn pad(&mut self)
        requires
            old(self).wf(),
            2 * old(self)@.gates() <= usize::MAX,
        ensures
            final(self).wf(),
            final(self)@ == old(self)@.padded(),
    {
        let target = next_power_of_two(self.a_L.len());
        let zero = Scalar::zero();
        let ghost before = self@;
        proof {
            lemma_padded_len(before.gates());
            assert(before.a_l + zeros(0) =~= before.a_l);
            assert(before.a_r + zeros(0) =~= before.a_r);
            assert(before.a_o + zeros(0) =~= before.a_o);
        }
        while self.a_L.len() < target
            invariant
                self.wf(),
                zero@ == 0,
                before.gates() <= self.a_L.len() <= target,
                self@ == (CircuitModel {
                    a_l: before.a_l + zeros((self.a_L.len() - before.gates()) as nat),
                    a_r: before.a_r + zeros((self.a_L.len() - before.gates()) as nat),
                    a_o: before.a_o + zeros((self.a_L.len() - before.gates()) as nat),
                    ..before
                }),
            decreases target - self.a_L.len(),
        {
            let ghost k = (self.a_L.len() - before.gates()) as nat;
            let ghost prev = self@;
            self.a_L.push(zero);
            self.a_R.push(zero);
            self.a_O.push(zero);
            proof {
                assert(self@.a_l =~= prev.a_l.push(0));
                assert(self@.a_r =~= prev.a_r.push(0));
                assert(self@.a_o =~= prev.a_o.push(0));
                assert(self@.a_l =~= before.a_l + zeros(k + 1));
                assert(self@.a_r =~= before.a_r + zeros(k + 1));
                assert(self@.a_o =~= before.a_o + zeros(k + 1));
                assert forall|q: int| 0 <= q < self@.constraints.len() implies lc_in_range(
                    #[trigger] self@.constraints[q],
                    self@.a_l.len(),
                    self@.v.len(),
                ) by {
                    assert(lc_in_range(prev.constraints[q], prev.a_l.len(), prev.v.len()));
                }
            }
        }
    }

    /// Proves the constraint system with blinding factors drawn from a random
    /// source that is bound to the transcript and to the blinding factors of
    /// the committed values, and seeded with fresh entropy.  Gives the
    /// transcript back with the proof.
    ///
    /// Fails where the generators hold fewer bases than the padded circuit
    /// has gates; the transcript is then as it was.
    pub fn prove(self) -> (out: (Result<R1CSProof, R1CSError>, merlin::Transcript))
        requires
            self.wf(),
            2 * self@.gates() <= usize::MAX,
        ensures
            match out.0 {
                Ok(proof) => {
                    &&& padded_len(self@.gates()) <= self@.g.len()
                    &&& exists|r: RandomnessModel|
                        {
                            &&& r.s_l.len() == padded_len(self@.gates())
                            &&& r.s_r.len() == padded_len(self@.gates())
                            &&& (proof@, transcript_state(out.1)) == #[trigger] proof_of(
                                self@.padded(),
                                r,
                            )
                        }
                },
                Err(e) => {
                    &&& e == R1CSError::InvalidGeneratorsLength
                    &&& self@.g.len() < padded_len(self@.gates())
                    &&& transcript_state(out.1) == self@.state
                },
            },
    {
        let n = next_power_of_two(self.a_L.len());
        if self.bp_gens.gens_capacity() < n {
            return (Err(R1CSError::InvalidGeneratorsLength), self.transcript);
        }
        let mut builder = build_rng(&self.transcript);
        let mut i: usize = 0;
        while i < self.v_blinding.len()
            invariant
                i <= self.v_blinding.len(),
            decreases self.v_blinding.len() - i,
        {
            let witness = self.v_blinding[i].to_bytes();
            builder = rekey_with_witness_bytes(builder, "v_blinding".as_bytes(), witness.as_slice());
            i += 1;
        }
        let mut rng = finalize_rng(builder);
        let randomness = draw_randomness(&mut rng, n);
        let out = self.prove_with_randomness(&randomness);
        proof {
            assert(randomness@.s_l.len() == n);
            assert(randomness@.s_r.len() == n);
        }
        out
    }

    /// Proves the constraint system with the given blinding factors, and
    /// gives the transcript back with the proof.
    ///
    /// The gates are padded with zeros to the next power of two.  Fails where
    /// the generators hold fewer bases than the padded circuit has gates; the
    /// transcript is then as it was.
    pub fn prove_with_randomness(self, randomness: &ProverRandomness) -> (out: (
        Result<R1CSProof, R1CSError>,
        merlin::Transcript,
    ))
        requires
            self.wf(),
            2 * self@.gates() <= usize::MAX,
            randomness.s_L.len() == padded_len(self@.gates()),
            randomness.s_R.len() == padded_len(self@.gates()),
        ensures
            match out.0 {
                Ok(proof) => {
                    &&& padded_len(self@.gates()) <= self@.g.len()
                    &&& (proof@, transcript_state(out.1)) == proof_of(self@.padded(), randomness@)
                },
                Err(e) => {
                    &&& e == R1CSError::InvalidGeneratorsLength
                    &&& self@.g.len() < padded_len(self@.gates())
                    &&& transcript_state(out.1) == self@.state
                },
            },
    {
        let ghost given = self@;
        let mut cs = self;
        cs.pad();
        let ghost c = cs@;
        let n = cs.a_L.len();
        proof {
            lemma_padded_len(given.gates());
        }
        if cs.bp_gens.gens_capacity() < n {
            return (Err(R1CSError::InvalidGeneratorsLength), cs.transcript);
        }
        // Commit to the wires of the gates and to their blinding vectors.

        let G = cs.bp_gens.G(n);
        let H = cs.bp_gens.H(n);
        let no_scalars: Vec<Scalar> = Vec::new();
        let no_points: Vec<Point> = Vec::new();
        proof {
            assert(encodings(G@) =~= c.g.take(n as int));
            assert(encodings(H@) =~= c.h.take(n as int));
            assert(values(no_scalars@) =~= seq![]);
            assert(encodings(no_points@) =~= seq![]);
        }
        let A_I = vector_commit(
            &randomness.i_blinding,
            &cs.pc_gens.B_blinding,
            &cs.a_L,
            &G,
            &cs.a_R,
            &H,
        );
        let A_O = vector_commit(
            &randomness.o_blinding,
            &cs.pc_gens.B_blinding,
            &cs.a_O,
            &G,
            &no_scalars,
            &no_points,
        );
        let S = vector_commit(
            &randomness.s_blinding,
            &cs.pc_gens.B_blinding,
            &randomness.s_L,
            &G,
            &randomness.s_R,
            &H,
        );
        commit_point(&mut cs.transcript, "A_I".as_bytes(), &A_I);
        commit_point(&mut cs.transcript, "A_O".as_bytes(), &A_O);
        commit_point(&mut cs.transcript, "S".as_bytes(), &S);
        let y = challenge_scalar(&mut cs.transcript, "y".as_bytes());
        let z = challenge_scalar(&mut cs.transcript, "z".as_bytes());

        // Build the blinded polynomials and commit to their product.
        let (wL, wR, wO, wV) = cs.flattened_constraints(&z);
        let y_inv = y.invert();
        let exp_y_inv = exp_iter(&y_inv, n);
        proof {
            assert(wL.len() == n) by {
                assert(values(wL@).len() == n);
            }
            assert(wR.len() == n) by {
                assert(values(wR@).len() == n);
            }
            assert(wO.len() == n) by {
                assert(values(wO@).len() == n);
            }
            assert(wV.len() == cs.v_blinding.len()) by {
                assert(values(wV@).len() == c.v.len());
            }
            assert(exp_y_inv.len() == n) by {
                assert(values(exp_y_inv@).len() == n);
            }
        }
        let (l_poly, r_poly) = blinded_polynomials(
            &cs.a_L,
            &cs.a_R,
            &cs.a_O,
            &randomness.s_L,
            &randomness.s_R,
            &wL,
            &wR,
            &wO,
            &y,
            &exp_y_inv,
        );
        let t_poly = l_poly.inner_product(&r_poly);
        let T_1 = cs.pc_gens.commit(&t_poly.t1, &randomness.t_1_blinding);
        let T_3 = cs.pc_gens.commit(&t_poly.t3, &randomness.t_3_blinding);
        let T_4 = cs.pc_gens.commit(&t_poly.t4, &randomness.t_4_blinding);
        let T_5 = cs.pc_gens.commit(&t_poly.t5, &randomness.t_5_blinding);
        let T_6 = cs.pc_gens.commit(&t_poly.t6, &randomness.t_6_blinding);
        commit_point(&mut cs.transcript, "T_1".as_bytes(), &T_1);
        commit_point(&mut cs.transcript, "T_3".as_bytes(), &T_3);
        commit_point(&mut cs.transcript, "T_4".as_bytes(), &T_4);
        commit_point(&mut cs.transcript, "T_5".as_bytes(), &T_5);
        commit_point(&mut cs.transcript, "T_6".as_bytes(), &T_6);
        let x = challenge_scalar(&mut cs.transcript, "x".as_bytes());

        // Evaluate at the challenge.
        let t_2_blinding = inner_product(&wV, &cs.v_blinding);
        let t_blinding_poly = Poly6 {
            t1: randomness.t_1_blinding,
            t2: t_2_blinding,
            t3: randomness.t_3_blinding,
            t4: randomness.t_4_blinding,
            t5: randomness.t_5_blinding,
            t6: randomness.t_6_blinding,
        };
        let t_x = t_poly.eval(&x);
        let t_x_blinding = t_blinding_poly.eval(&x);
        let l_vec = l_poly.eval(&x);
        let r_vec = r_poly.eval(&x);
        let inner = scalar_add(&randomness.o_blinding, &scalar_mul(&x, &randomness.s_blinding));
        let outer = scalar_add(&randomness.i_blinding, &scalar_mul(&x, &inner));
        let e_blinding = scalar_mul(&x, &outer);
        proof {
            let i_b = randomness.i_blinding@;
            let o_b = randomness.o_blinding@;
            let s_b = randomness.s_blinding@;
            lemma_reduce_add(o_b, x@ * s_b);
            lemma_horner_step(i_b, x@, o_b + x@ * s_b);
            lemma_reduce_mul(x@, i_b + x@ * (o_b + x@ * s_b));
        }
        commit_scalar(&mut cs.transcript, "t_x".as_bytes(), &t_x);
        commit_scalar(&mut cs.transcript, "t_x_blinding".as_bytes(), &t_x_blinding);
        commit_scalar(&mut cs.transcript, "e_blinding".as_bytes(), &e_blinding);

        // Compress the opening of `l(x)` and `r(x)` into an inner-product proof.
        let w = challenge_scalar(&mut cs.transcript, "w".as_bytes());
        let w_alone = vec![w];
        let base_alone = vec![cs.pc_gens.B];
        proof {
            assert(values(w_alone@) =~= seq![w@]);
            assert(encodings(base_alone@) =~= seq![cs.pc_gens.B@]);
            assert(l_vec.len() == n) by {
                assert(values(l_vec@).len() == n);
            }
            assert(r_vec.len() == n) by {
                assert(values(r_vec@).len() == n);
            }
        }
        let Q = multiscalar_mul(&w_alone, &base_alone);
        let mut transcript = cs.transcript;
        let ipp_proof = InnerProductProof::create(
            &mut transcript,
            &Q,
            &exp_y_inv,
            G,
            H,
            l_vec,
            r_vec,
        );
        let proof = R1CSProof {
            A_I,
            A_O,
            S,
            T_1,
            T_3,
            T_4,
            T_5,
            T_6,
            t_x,
            t_x_blinding,
            e_blinding,
            ipp_proof,
        };
        (Ok(proof), transcript)
    }

    /// Flattens the constraints with the challenge `z` into the vectors
    /// `(wL, wR, wO, wV)`.
    pub fn flattened_constraints(&self, z: &Scalar) -> (out: (
        Vec<Scalar>,
        Vec<Scalar>,
        Vec<Scalar>,
        Vec<Scalar>,
    ))
        requires
            self.wf(),
        ensures
            ({
                let f = flattened(self@.constraints, z@, self@.gates(), self@.v.len());
                &&& values(out.0@) == f.w_l
                &&& values(out.1@) == f.w_r
                &&& values(out.2@) == f.w_o
                &&& values(out.3@) == f.w_v
            }),
    {
        let n = self.a_L.len();
        let m = self.v.len();
        let mut wL = zero_vector(n);
        let mut wR = zero_vector(n);
        let mut wO = zero_vector(n);
        let mut wV = zero_vector(m);
        let ghost cs = self@.constraints;
        let mut exp_z = *z;
        let mut q: usize = 0;
        proof {
            use_type_invariant(z);
            lemma_reduce_small(z@);
            lemma_pow1(z@);
            lemma_reduce_small(0);
            assert(cs.take(0) =~= seq![]);
            assert(1 * 0 == 0 && (-1) * 0 == 0);
        }
        while q < self.constraints.len()
            invariant
                q <= self.constraints.len(),
                self.wf(),
                cs == self@.constraints,
                n == self.a_L.len(),
                m == self.v.len(),
                wL.len() == n,
                wR.len() == n,
                wO.len() == n,
                wV.len() == m,
                congruent(exp_z@, pow(z@, (q + 1) as nat)),
                settled(values(wL@), Wire::Left, 1, cs.take(q as int), z@),
                settled(values(wR@), Wire::Right, 1, cs.take(q as int), z@),
                settled(values(wO@), Wire::Output, 1, cs.take(q as int), z@),
                settled(values(wV@), Wire::Committed, -1, cs.take(q as int), z@),
            decreases self.constraints.len() - q,
        {
            let lc = &self.constraints[q];
            let mut k: usize = 0;
            proof {
                assert(cs[q as int] == lc@);
                lemma_tracks_start(values(wL@), Wire::Left, 1, cs, z@, q as int);
                lemma_tracks_start(values(wR@), Wire::Right, 1, cs, z@, q as int);
                lemma_tracks_start(values(wO@), Wire::Output, 1, cs, z@, q as int);
                lemma_tracks_start(values(wV@), Wire::Committed, -1, cs, z@, q as int);
            }
            while k < lc.terms.len()
                invariant
                    k <= lc.terms.len(),
                    q < self.constraints.len(),
                    self.wf(),
                    cs == self@.constraints,
                    cs[q as int] == lc@,
                    lc_in_range(lc@, n as nat, m as nat),
                    n == self.a_L.len(),
                    m == self.v.len(),
                    wL.len() == n,
                    wR.len() == n,
                    wO.len() == n,
                    wV.len() == m,
                    congruent(exp_z@, pow(z@, (q + 1) as nat)),
                    tracks(values(wL@), Wire::Left, 1, cs, z@, q as int, k as int),
                    tracks(values(wR@), Wire::Right, 1, cs, z@, q as int, k as int),
                    tracks(values(wO@), Wire::Output, 1, cs, z@, q as int, k as int),
                    tracks(values(wV@), Wire::Committed, -1, cs, z@, q as int, k as int),
                decreases lc.terms.len() - k,
            {
                let var = lc.terms[k].0;
                let coeff = lc.terms[k].1;
                let delta = scalar_mul(&exp_z, &coeff);
                let ghost l0 = values(wL@);
                let ghost r0 = values(wR@);
                let ghost o0 = values(wO@);
                let ghost v0 = values(wV@);
                proof {
                    assert(lc@[k as int] == (var, coeff@));
                    assert(var_in_range(lc@[k as int].0, n as nat, m as nat));
                }
                match var {
                    Variable::MultiplierLeft(i) => {
                        let sum = scalar_add(&wL[i], &delta);
                        wL.set(i, sum);
                        proof {
                            assert(values(wL@) =~= l0.update(i as int, sum@));
                            lemma_tracks_hit(l0, Wire::Left, 1, cs, z@, q as int, k as int, i as int, exp_z@);
                            lemma_tracks_skip(r0, Wire::Right, 1, cs, z@, q as int, k as int);
                            lemma_tracks_skip(o0, Wire::Output, 1, cs, z@, q as int, k as int);
                            lemma_tracks_skip(v0, Wire::Committed, -1, cs, z@, q as int, k as int);
                        }
                    },
                    Variable::MultiplierRight(i) => {
                        let sum = scalar_add(&wR[i], &delta);
                        wR.set(i, sum);
                        proof {
                            assert(values(wR@) =~= r0.update(i as int, sum@));
                            lemma_tracks_skip(l0, Wire::Left, 1, cs, z@, q as int, k as int);
                            lemma_tracks_hit(r0, Wire::Right, 1, cs, z@, q as int, k as int, i as int, exp_z@);
                            lemma_tracks_skip(o0, Wire::Output, 1, cs, z@, q as int, k as int);
                            lemma_tracks_skip(v0, Wire::Committed, -1, cs, z@, q as int, k as int);
                        }
                    },
                    Variable::MultiplierOutput(i) => {
                        let sum = scalar_add(&wO[i], &delta);
                        wO.set(i, sum);
                        proof {
                            assert(values(wO@) =~= o0.update(i as int, sum@));
                            lemma_tracks_skip(l0, Wire::Left, 1, cs, z@, q as int, k as int);
                            lemma_tracks_skip(r0, Wire::Right, 1, cs, z@, q as int, k as int);
                            lemma_tracks_hit(o0, Wire::Output, 1, cs, z@, q as int, k as int, i as int, exp_z@);
                            lemma_tracks_skip(v0, Wire::Committed, -1, cs, z@, q as int, k as int);
                        }
                    },
                    Variable::Committed(j) => {
                        let difference = scalar_sub(&wV[j], &delta);
                        wV.set(j, difference);
                        proof {
                            assert(values(wV@) =~= v0.update(j as int, difference@));
                            lemma_tracks_skip(l0, Wire::Left, 1, cs, z@, q as int, k as int);
                            lemma_tracks_skip(r0, Wire::Right, 1, cs, z@, q as int, k as int);
                            lemma_tracks_skip(o0, Wire::Output, 1, cs, z@, q as int, k as int);
                            lemma_tracks_hit(v0, Wire::Committed, -1, cs, z@, q as int, k as int, j as int, exp_z@);
                        }
                    },
                    Variable::One => {
                        proof {
                            lemma_tracks_skip(l0, Wire::Left, 1, cs, z@, q as int, k as int);
                            lemma_tracks_skip(r0, Wire::Right, 1, cs, z@, q as int, k as int);
                            lemma_tracks_skip(o0, Wire::Output, 1, cs, z@, q as int, k as int);
                            lemma_tracks_skip(v0, Wire::Committed, -1, cs, z@, q as int, k as int);
                        }
                    },
                }
                k += 1;
            }
            proof {
                lemma_tracks_end(values(wL@), Wire::Left, 1, cs, z@, q as int);
                lemma_tracks_end(values(wR@), Wire::Right, 1, cs, z@, q as int);
                lemma_tracks_end(values(wO@), Wire::Output, 1, cs, z@, q as int);
                lemma_tracks_end(values(wV@), Wire::Committed, -1, cs, z@, q as int);
                let p = pow(z@, (q + 1) as nat);
                lemma_congruent_mul(exp_z@, p, z@, z@);
                lemma_reduce_range(exp_z@ * z@);
                lemma_pow_adds(z@, (q + 1) as nat, 1);
                lemma_pow1(z@);
            }
            exp_z = scalar_mul(&exp_z, z);
            q += 1;
        }
        proof {
            assert(cs.take(q as int) =~= cs);
            let f = flattened(cs, z@, n as nat, m as nat);
            assert(values(wL@) =~= f.w_l);
            assert(values(wR@) =~= f.w_r);
            assert(values(wO@) =~= f.w_o);
            assert(values(wV@) =~= f.w_v);
        }
        (wL, wR, wO, wV)
    }
}

impl<'b> ConstraintSystem for ProverCS<'b> {
    open spec fn wf(&self) -> bool {
        self@.well_formed()
    }

    open spec fn multipliers(&self) -> nat {
        self@.gates()
    }

    open spec fn committed(&self) -> nat {
        self@.v.len()
    }

    fn assign_multiplier(&mut self, left: Assignment, right: Assignment, out: Assignment) -> (r:
        Result<(Variable, Variable, Variable), R1CSError>)
        ensures
            match (left, right, out) {
                (Assignment::Value(l), Assignment::Value(r), Assignment::Value(o)) => final(self)@
                    == (CircuitModel {
                    a_l: old(self)@.a_l.push(l@),
                    a_r: old(self)@.a_r.push(r@),
                    a_o: old(self)@.a_o.push(o@),
                    ..old(self)@
                }),
                _ => final(self)@ == old(self)@,
            },
    {
        // Unwrap all three up front, so that a missing value leaves the
        // constraint system as it was.
        let l = match left {
            Assignment::Value(l) => l,
            Assignment::Missing => { return Err(R1CSError::MissingAssignment); },
        };
        let r = match right {
            Assignment::Value(r) => r,
            Assignment::Missing => { return Err(R1CSError::MissingAssignment); },
        };
        let o = match out {
            Assignment::Value(o) => o,
            Assignment::Missing => { return Err(R1CSError::MissingAssignment); },
        };
        self.a_L.push(l);
        self.a_R.push(r);
        self.a_O.push(o);
        proof {
            assert(self@.a_l =~= old(self)@.a_l.push(l@));
            assert(self@.a_r =~= old(self)@.a_r.push(r@));
            assert(self@.a_o =~= old(self)@.a_o.push(o@));
        }
        Ok(
            (
                Variable::MultiplierLeft(self.a_L.len() - 1),
                Variable::MultiplierRight(self.a_R.len() - 1),
                Variable::MultiplierOutput(self.a_O.len() - 1),
            ),
        )
    }

    fn assign_uncommitted(&mut self, val_1: Assignment, val_2: Assignment) -> (r: Result<
        (Variable, Variable),
        R1CSError,
    >)
        ensures
            match (val_1, val_2) {
                (Assignment::Value(l), Assignment::Value(r)) => final(self)@ == (CircuitModel {
                    a_l: old(self)@.a_l.push(l@),
                    a_r: old(self)@.a_r.push(r@),
                    a_o: old(self)@.a_o.push(reduce(l@ * r@)),
                    ..old(self)@
                }),
                _ => final(self)@ == old(self)@,
            },
    {
        let val_3 = val_1.mul(val_2);
        match self.assign_multiplier(val_1, val_2, val_3) {
            Ok((left, right, _)) => Ok((left, right)),
            Err(e) => Err(e),
        }
    }

    fn add_constraint(&mut self, lc: LinearCombination)
        ensures
            final(self)@ == (CircuitModel {
                constraints: old(self)@.constraints.push(lc@),
                ..old(self)@
            }),
    {
        let ghost added = lc@;
        self.constraints.push(lc);
        proof {
            assert(self@.constraints =~= old(self)@.constraints.push(added));
        }
    }

    fn challenge_scalar(&mut self, label: &'static [u8]) -> (c: Scalar)
        ensures
            c@ == challenge_value(old(self)@.state, label@),
            final(self)@ == (CircuitModel {
                state: state_after_challenge(old(self)@.state, label@),
                ..old(self)@
            }),
    {
        challenge_scalar(&mut self.transcript, label)
    }
}

} // verus!
