//! What the prover computes: the proof as a function of the circuit, the
//! transcript and the blinding factors.
use vstd::prelude::*;
use vstd::arithmetic::power::pow;
use vstd::arithmetic::power2::is_pow2;
use vstd::string::StringSliceAdditionalSpecFns;
use crate::field::reduce;
use crate::flatten::flattened;
use crate::generators::{pedersen_commitment, PedersenGens};
use crate::inner_product_proof::inner_product_argument;
use crate::point::multiscalar_mul_encoding;
use crate::r1cs_proof::R1CSProofModel;
use crate::scalar::inverse;
use crate::transcript::{
    challenge_value, state_after_append, state_after_challenge, state_after_scalar,
};
use crate::util::{dot, lemma_padded_len, padded_len, powers, zeros, Poly6Model, VecPoly3Model};
use crate::variable::{lc_in_range, Variable};

verus! {

/// What a prover holds: the generators, the wire values, the constraints,
/// and the state of the transcript.
pub struct CircuitModel {
    pub pc_gens: PedersenGens,
    pub g: Seq<Seq<u8>>,
    pub h: Seq<Seq<u8>>,
    pub a_l: Seq<int>,
    pub a_r: Seq<int>,
    pub a_o: Seq<int>,
    pub v: Seq<int>,
    pub v_blinding: Seq<int>,
    pub constraints: Seq<Seq<(Variable, int)>>,
    pub state: Seq<u8>,
}

/// The blinding factors of one proof.
pub struct RandomnessModel {
    pub i_blinding: int,
    pub o_blinding: int,
    pub s_blinding: int,
    pub s_l: Seq<int>,
    pub s_r: Seq<int>,
    pub t_1_blinding: int,
    pub t_3_blinding: int,
    pub t_4_blinding: int,
    pub t_5_blinding: int,
    pub t_6_blinding: int,
}

impl CircuitModel {
    /// The number of multiplication gates.
    pub open spec fn gates(self) -> nat {
        self.a_l.len()
    }

    /// The three wire vectors have one length, so have the committed values
    /// and their blinding factors, and every constraint speaks of wires that
    /// exist.
    pub open spec fn well_formed(self) -> bool {
        &&& self.a_l.len() == self.a_r.len() == self.a_o.len()
        &&& self.v.len() == self.v_blinding.len()
        &&& self.g.len() == self.h.len()
        &&& forall|q: int|
            0 <= q < self.constraints.len() ==> lc_in_range(
                #[trigger] self.constraints[q],
                self.a_l.len(),
                self.v.len(),
            )
    }

    /// The circuit with gates of zeros appended, up to the next power of two.
    pub open spec fn padded(self) -> CircuitModel {
        let pad = (padded_len(self.gates()) - self.gates()) as nat;
        CircuitModel {
            a_l: self.a_l + zeros(pad),
            a_r: self.a_r + zeros(pad),
            a_o: self.a_o + zeros(pad),
            ..self
        }
    }
}

/// Padding a padded circuit changes nothing: a circuit whose gates were
/// filled up with zeros by hand is proved as the one that was not.
pub proof fn lemma_padding_idempotent(c: CircuitModel)
    requires
        c.well_formed(),
    ensures
        c.padded().well_formed(),
        c.padded().gates() == padded_len(c.gates()),
        c.padded().padded() == c.padded(),
{
    let n = c.gates();
    let p = c.padded();
    lemma_padded_len(n);
    lemma_padded_len(padded_len(n));
    assert(p.a_l + zeros(0) =~= p.a_l);
    assert(p.a_r + zeros(0) =~= p.a_r);
    assert(p.a_o + zeros(0) =~= p.a_o);
    assert forall|q: int| 0 <= q < p.constraints.len() implies lc_in_range(
        #[trigger] p.constraints[q],
        p.a_l.len(),
        p.v.len(),
    ) by {
        assert(lc_in_range(c.constraints[q], c.a_l.len(), c.v.len()));
    }
}

/// A circuit whose number of gates is zero or a power of two is not padded.
pub proof fn lemma_padding_leaves_powers_of_two(c: CircuitModel)
    requires
        c.gates() == 0 || is_pow2(c.gates() as int),
    ensures
        c.padded() == c,
{
    lemma_padded_len(c.gates());
    assert(c.a_l + zeros(0) =~= c.a_l);
    assert(c.a_r + zeros(0) =~= c.a_r);
    assert(c.a_o + zeros(0) =~= c.a_o);
}

/// The encoding of `blinding * base + <a, g> + <b, h>`.
pub open spec fn vector_commitment(
    blinding: int,
    base: Seq<u8>,
    a: Seq<int>,
    g: Seq<Seq<u8>>,
    b: Seq<int>,
    h: Seq<Seq<u8>>,
) -> Seq<u8> {
    multiscalar_mul_encoding(seq![blinding] + a + b, seq![base] + g + h)
}

/// The left polynomial: `(a_l + y^-i * w_r) X + a_o X^2 + s_l X^3`.
pub open spec fn l_poly(
    a_l: Seq<int>,
    a_o: Seq<int>,
    s_l: Seq<int>,
    w_r: Seq<int>,
    y: int,
) -> VecPoly3Model {
    VecPoly3Model {
        c0: zeros(a_l.len()),
        c1: Seq::new(a_l.len(), |i: int| reduce(a_l[i] + pow(inverse(y), i as nat) * w_r[i])),
        c2: a_o,
        c3: s_l,
    }
}

/// The right polynomial: `(w_o - y^i) + (y^i * a_r + w_l) X + y^i * s_r X^3`.
pub open spec fn r_poly(
    a_r: Seq<int>,
    s_r: Seq<int>,
    w_l: Seq<int>,
    w_o: Seq<int>,
    y: int,
) -> VecPoly3Model {
    VecPoly3Model {
        c0: Seq::new(a_r.len(), |i: int| reduce(w_o[i] - pow(y, i as nat))),
        c1: Seq::new(a_r.len(), |i: int| reduce(pow(y, i as nat) * a_r[i] + w_l[i])),
        c2: zeros(a_r.len()),
        c3: Seq::new(a_r.len(), |i: int| reduce(pow(y, i as nat) * s_r[i])),
    }
}

/// The state after the three gate commitments were absorbed.
pub open spec fn state_after_gates(state: Seq<u8>, a_i: Seq<u8>, a_o: Seq<u8>, s: Seq<u8>) -> Seq<u8> {
    state_after_append(
        state_after_append(state_after_append(state, "A_I".spec_bytes(), a_i), "A_O".spec_bytes(), a_o),
        "S".spec_bytes(),
        s,
    )
}

/// The state after the five coefficient commitments were absorbed.
pub open spec fn state_after_coefficients(
    state: Seq<u8>,
    t_1: Seq<u8>,
    t_3: Seq<u8>,
    t_4: Seq<u8>,
    t_5: Seq<u8>,
    t_6: Seq<u8>,
) -> Seq<u8> {
    state_after_append(
        state_after_append(
            state_after_append(
                state_after_append(
                    state_after_append(state, "T_1".spec_bytes(), t_1),
                    "T_3".spec_bytes(),
                    t_3,
                ),
                "T_4".spec_bytes(),
                t_4,
            ),
            "T_5".spec_bytes(),
            t_5,
        ),
        "T_6".spec_bytes(),
        t_6,
    )
}

/// The state after the three evaluations were absorbed.
pub open spec fn state_after_evaluations(
    state: Seq<u8>,
    t_x: int,
    t_x_blinding: int,
    e_blinding: int,
) -> Seq<u8> {
    state_after_scalar(
        state_after_scalar(
            state_after_scalar(state, "t_x".spec_bytes(), t_x),
            "t_x_blinding".spec_bytes(),
            t_x_blinding,
        ),
        "e_blinding".spec_bytes(),
        e_blinding,
    )
}

/// The proof of a circuit whose number of gates is zero or a power of two,
/// made with the given blinding factors, and the state in which it leaves the
/// transcript.
pub open spec fn proof_of(c: CircuitModel, r: RandomnessModel) -> (R1CSProofModel, Seq<u8>) {
    let n = c.gates();
    let g = c.g.take(n as int);
    let h = c.h.take(n as int);
    let base = c.pc_gens.B_blinding@;
    // the gates
    let a_i = vector_commitment(r.i_blinding, base, c.a_l, g, c.a_r, h);
    let a_o = vector_commitment(r.o_blinding, base, c.a_o, g, seq![], seq![]);
    let s = vector_commitment(r.s_blinding, base, r.s_l, g, r.s_r, h);
    let gates = state_after_gates(c.state, a_i, a_o, s);
    let y = challenge_value(gates, "y".spec_bytes());
    let after_y = state_after_challenge(gates, "y".spec_bytes());
    let z = challenge_value(after_y, "z".spec_bytes());
    let after_z = state_after_challenge(after_y, "z".spec_bytes());
    // the polynomials
    let f = flattened(c.constraints, z, n, c.v.len());
    let l = l_poly(c.a_l, c.a_o, r.s_l, f.w_r, y);
    let rp = r_poly(c.a_r, r.s_r, f.w_l, f.w_o, y);
    let t = l.inner_product(rp);
    let t_1 = pedersen_commitment(c.pc_gens, t.t1, r.t_1_blinding);
    let t_3 = pedersen_commitment(c.pc_gens, t.t3, r.t_3_blinding);
    let t_4 = pedersen_commitment(c.pc_gens, t.t4, r.t_4_blinding);
    let t_5 = pedersen_commitment(c.pc_gens, t.t5, r.t_5_blinding);
    let t_6 = pedersen_commitment(c.pc_gens, t.t6, r.t_6_blinding);
    let coefficients = state_after_coefficients(after_z, t_1, t_3, t_4, t_5, t_6);
    let x = challenge_value(coefficients, "x".spec_bytes());
    let after_x = state_after_challenge(coefficients, "x".spec_bytes());
    // the evaluations
    let t_blinding = Poly6Model {
        t1: r.t_1_blinding,
        t2: reduce(dot(f.w_v, c.v_blinding)),
        t3: r.t_3_blinding,
        t4: r.t_4_blinding,
        t5: r.t_5_blinding,
        t6: r.t_6_blinding,
    };
    let t_x = t.eval(x);
    let t_x_blinding = t_blinding.eval(x);
    let e_blinding = reduce(x * (r.i_blinding + x * (r.o_blinding + x * r.s_blinding)));
    let evaluations = state_after_evaluations(after_x, t_x, t_x_blinding, e_blinding);
    let w = challenge_value(evaluations, "w".spec_bytes());
    let after_w = state_after_challenge(evaluations, "w".spec_bytes());
    // the inner product
    let q = multiscalar_mul_encoding(seq![w], seq![c.pc_gens.B@]);
    let (ipp_proof, last) = inner_product_argument(
        after_w,
        q,
        powers(inverse(y), n),
        g,
        h,
        l.eval(x),
        rp.eval(x),
    );
    (
        R1CSProofModel {
            a_i,
            a_o,
            s,
            t_1,
            t_3,
            t_4,
            t_5,
            t_6,
            t_x,
            t_x_blinding,
            e_blinding,
            ipp_proof,
        },
        last,
    )
}

} // verus!
