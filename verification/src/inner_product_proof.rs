//! The inner-product argument: a proof, logarithmic in the length of two
//! vectors, of what their inner product is.
use vstd::prelude::*;
use vstd::arithmetic::power2::is_pow2;
use vstd::string::StringSliceAdditionalSpecFns;
use crate::field::{lemma_reduce_add, reduce};
use crate::point::{encodings, multiscalar_mul, multiscalar_mul_encoding, Point};
use crate::scalar::{inverse, scalar_add, scalar_mul, values, Scalar};
use crate::transcript::{
    challenge_scalar, challenge_value, commit_point, innerproduct_domain_sep, state_after_append,
    state_after_challenge, state_after_innerproduct_domain_sep, transcript_state,
};
use crate::util::{dot, extend, inner_product, slice};

verus! {

/// An inner-product proof: one pair of points per halving of the vectors, and
/// the two scalars that are left.
#[derive(Clone, Debug)]
pub struct InnerProductProof {
    pub L_vec: Vec<Point>,
    pub R_vec: Vec<Point>,
    pub a: Scalar,
    pub b: Scalar,
}

/// An inner-product proof as encodings and values.
pub struct InnerProductModel {
    pub l_vec: Seq<Seq<u8>>,
    pub r_vec: Seq<Seq<u8>>,
    pub a: int,
    pub b: int,
}

impl View for InnerProductProof {
    type V = InnerProductModel;

    open spec fn view(&self) -> InnerProductModel {
        InnerProductModel {
            l_vec: encodings(self.L_vec@),
            r_vec: encodings(self.R_vec@),
            a: self.a@,
            b: self.b@,
        }
    }
}

/// The bases `h`, each scaled by its factor.
pub open spec fn scaled(h: Seq<Seq<u8>>, factors: Seq<int>) -> Seq<Seq<u8>> {
    Seq::new(h.len(), |i: int| multiscalar_mul_encoding(seq![factors[i]], seq![h[i]]))
}

/// The left point of a round: `<a_lo, g_hi> + <b_hi, h_lo> + <a_lo, b_hi> * q`.
pub open spec fn round_l(
    q: Seq<u8>,
    g: Seq<Seq<u8>>,
    h: Seq<Seq<u8>>,
    a: Seq<int>,
    b: Seq<int>,
) -> Seq<u8> {
    let n = a.len() as int / 2;
    multiscalar_mul_encoding(
        a.take(n) + b.skip(n) + seq![reduce(dot(a.take(n), b.skip(n)))],
        g.skip(n) + h.take(n) + seq![q],
    )
}

/// The right point of a round: `<a_hi, g_lo> + <b_lo, h_hi> + <a_hi, b_lo> * q`.
pub open spec fn round_r(
    q: Seq<u8>,
    g: Seq<Seq<u8>>,
    h: Seq<Seq<u8>>,
    a: Seq<int>,
    b: Seq<int>,
) -> Seq<u8> {
    let n = a.len() as int / 2;
    multiscalar_mul_encoding(
        a.skip(n) + b.take(n) + seq![reduce(dot(a.skip(n), b.take(n)))],
        g.take(n) + h.skip(n) + seq![q],
    )
}

/// The state after a round's two points were absorbed.
pub open spec fn state_after_round_points(state: Seq<u8>, l: Seq<u8>, r: Seq<u8>) -> Seq<u8> {
    state_after_append(state_after_append(state, "L".spec_bytes(), l), "R".spec_bytes(), r)
}

/// The folded vector `lo * x + y * hi` of half the length.
pub open spec fn fold_scalars(v: Seq<int>, x: int, y: int) -> Seq<int> {
    let n = v.len() as int / 2;
    Seq::new(n as nat, |i: int| reduce(v[i] * x + y * v[n + i]))
}

/// The folded bases `x * lo + y * hi` of half the length.
pub open spec fn fold_points(p: Seq<Seq<u8>>, x: int, y: int) -> Seq<Seq<u8>> {
    let n = p.len() as int / 2;
    Seq::new(n as nat, |i: int| multiscalar_mul_encoding(seq![x, y], seq![p[i], p[n + i]]))
}

/// The rounds of the argument: the proof, and the state of the transcript
/// after it.  Each round commits to the two cross terms, derives a challenge
/// `u`, and folds the vectors and the bases to half their length with `u` and
/// its inverse.  Of empty vectors the proof is empty, with both scalars zero.
pub open spec fn rounds(
    state: Seq<u8>,
    q: Seq<u8>,
    g: Seq<Seq<u8>>,
    h: Seq<Seq<u8>>,
    a: Seq<int>,
    b: Seq<int>,
) -> (InnerProductModel, Seq<u8>)
    decreases a.len(),
{
    if a.len() == 0 {
        (InnerProductModel { l_vec: seq![], r_vec: seq![], a: 0, b: 0 }, state)
    } else if a.len() == 1 {
        (InnerProductModel { l_vec: seq![], r_vec: seq![], a: a[0], b: b[0] }, state)
    } else {
        let l = round_l(q, g, h, a, b);
        let r = round_r(q, g, h, a, b);
        let absorbed = state_after_round_points(state, l, r);
        let u = challenge_value(absorbed, "u".spec_bytes());
        let u_inv = inverse(u);
        let (rest, last) = rounds(
            state_after_challenge(absorbed, "u".spec_bytes()),
            q,
            fold_points(g, u_inv, u),
            fold_points(h, u, u_inv),
            fold_scalars(a, u, u_inv),
            fold_scalars(b, u_inv, u),
        );
        (
            InnerProductModel {
                l_vec: seq![l] + rest.l_vec,
                r_vec: seq![r] + rest.r_vec,
                a: rest.a,
                b: rest.b,
            },
            last,
        )
    }
}

/// The argument for `<a, b>` over the bases `g` and `h`, the latter scaled by
/// `factors`, with `q` the base of the inner product: the proof, and the state
/// in which it leaves the transcript.
pub open spec fn inner_product_argument(
    state: Seq<u8>,
    q: Seq<u8>,
    factors: Seq<int>,
    g: Seq<Seq<u8>>,
    h: Seq<Seq<u8>>,
    a: Seq<int>,
    b: Seq<int>,
) -> (InnerProductModel, Seq<u8>) {
    rounds(
        state_after_innerproduct_domain_sep(state, a.len() as u64),
        q,
        g,
        scaled(h, factors),
        a,
        b,
    )
}

/// `lo * x + y * hi`, entry by entry, for the two halves of `v`.
fn fold_scalar_vec(v: &Vec<Scalar>, x: &Scalar, y: &Scalar) -> (out: Vec<Scalar>)
    requires
        v.len() % 2 == 0,
    ensures
        out.len() == v.len() / 2,
        values(out@) == fold_scalars(values(v@), x@, y@),
{
    let n = v.len() / 2;
    let mut out: Vec<Scalar> = Vec::with_capacity(n);
    let mut i: usize = 0;
    while i < n
        invariant
            i <= n,
            n == v.len() / 2,
            v.len() % 2 == 0,
            out.len() == i,
            forall|j: int| 0 <= j < i ==> (#[trigger] out@[j])@ == reduce(v@[j]@ * x@ + y@ * v@[n + j]@),
        decreases n - i,
    {
        let lo = scalar_mul(&v[i], x);
        let hi = scalar_mul(y, &v[n + i]);
        proof {
            lemma_reduce_add(v@[i as int]@ * x@, y@ * v@[n + i]@);
        }
        out.push(scalar_add(&lo, &hi));
        i += 1;
    }
    assert(values(out@) =~= fold_scalars(values(v@), x@, y@));
    out
}

/// `x * lo + y * hi`, entry by entry, for the two halves of `p`.
fn fold_point_vec(p: &Vec<Point>, x: &Scalar, y: &Scalar) -> (out: Vec<Point>)
    requires
        p.len() % 2 == 0,
    ensures
        out.len() == p.len() / 2,
        encodings(out@) == fold_points(encodings(p@), x@, y@),
{
    let n = p.len() / 2;
    let mut out: Vec<Point> = Vec::with_capacity(n);
    let scalars = vec![*x, *y];
    assert(values(scalars@) =~= seq![x@, y@]);
    let mut i: usize = 0;
    while i < n
        invariant
            i <= n,
            n == p.len() / 2,
            p.len() % 2 == 0,
            out.len() == i,
            scalars.len() == 2,
            values(scalars@) == seq![x@, y@],
            forall|j: int|
                0 <= j < i ==> (#[trigger] out@[j])@ == multiscalar_mul_encoding(
                    seq![x@, y@],
                    seq![p@[j]@, p@[n + j]@],
                ),
        decreases n - i,
    {
        let pair = vec![p[i], p[n + i]];
        assert(encodings(pair@) =~= seq![p@[i as int]@, p@[n + i]@]);
        out.push(multiscalar_mul(&scalars, &pair));
        i += 1;
    }
    assert(encodings(out@) =~= fold_points(encodings(p@), x@, y@));
    out
}

/// The bases `h`, each scaled by its factor.
fn scale_points(h: &Vec<Point>, factors: &Vec<Scalar>) -> (out: Vec<Point>)
    requires
        h.len() == factors.len(),
    ensures
        out.len() == h.len(),
        encodings(out@) == scaled(encodings(h@), values(factors@)),
{
    let n = h.len();
    let mut out: Vec<Point> = Vec::with_capacity(n);
    let mut i: usize = 0;
    while i < n
        invariant
            i <= n,
            n == h.len() == factors.len(),
            out.len() == i,
            forall|j: int|
                0 <= j < i ==> (#[trigger] out@[j])@ == multiscalar_mul_encoding(
                    seq![factors@[j]@],
                    seq![h@[j]@],
                ),
        decreases n - i,
    {
        let s = vec![factors[i]];
        let p = vec![h[i]];
        assert(values(s@) =~= seq![factors@[i as int]@]);
        assert(encodings(p@) =~= seq![h@[i as int]@]);
        out.push(multiscalar_mul(&s, &p));
        i += 1;
    }
    assert(encodings(out@) =~= scaled(encodings(h@), values(factors@)));
    out
}

/// One cross term: `<a, g> + <b, h> + <a, b> * q`.
fn cross_term(a: &Vec<Scalar>, b: &Vec<Scalar>, g: &Vec<Point>, h: &Vec<Point>, q: &Point) -> (out:
    Point)
    requires
        a.len() == b.len() == g.len() == h.len(),
    ensures
        out@ == multiscalar_mul_encoding(
            values(a@) + values(b@) + seq![reduce(dot(values(a@), values(b@)))],
            encodings(g@) + encodings(h@) + seq![q@],
        ),
{
    let c = inner_product(a, b);
    let mut scalars: Vec<Scalar> = Vec::new();
    extend(&mut scalars, a);
    extend(&mut scalars, b);
    scalars.push(c);
    let mut points: Vec<Point> = Vec::new();
    extend(&mut points, g);
    extend(&mut points, h);
    points.push(*q);
    assert(values(scalars@) =~= values(a@) + values(b@) + seq![c@]);
    assert(encodings(points@) =~= encodings(g@) + encodings(h@) + seq![q@]);
    multiscalar_mul(&scalars, &points)
}

impl InnerProductProof {
    /// Proves what the inner product of `a_vec` and `b_vec` is, over the bases
    /// `G_vec` and `H_vec`, the latter scaled by `Hprime_factors`, extending
    /// the transcript by the messages of the argument.
    pub fn create(
        transcript: &mut merlin::Transcript,
        Q: &Point,
        Hprime_factors: &Vec<Scalar>,
        G_vec: Vec<Point>,
        H_vec: Vec<Point>,
        a_vec: Vec<Scalar>,
        b_vec: Vec<Scalar>,
    ) -> (proof: InnerProductProof)
        requires
            G_vec.len() == a_vec.len(),
            H_vec.len() == a_vec.len(),
            b_vec.len() == a_vec.len(),
            Hprime_factors.len() == a_vec.len(),
            a_vec.len() == 0 || is_pow2(a_vec.len() as int),
        ensures
            (proof@, transcript_state(*final(transcript))) == inner_product_argument(
                transcript_state(*old(transcript)),
                Q@,
                values(Hprime_factors@),
                encodings(G_vec@),
                encodings(H_vec@),
                values(a_vec@),
                values(b_vec@),
            ),
    {
        let n = a_vec.len();
        innerproduct_domain_sep(transcript, n as u64);
        let mut G = G_vec;
        let mut H = scale_points(&H_vec, Hprime_factors);
        let mut a = a_vec;
        let mut b = b_vec;
        let mut L_vec: Vec<Point> = Vec::new();
        let mut R_vec: Vec<Point> = Vec::new();
        let ghost start = transcript_state(*transcript);
        let ghost g0 = encodings(G@);
        let ghost h0 = encodings(H@);
        let ghost a0 = values(a@);
        let ghost b0 = values(b@);
        if n == 0 {
            let zero = Scalar::zero();
            let proof = InnerProductProof { L_vec, R_vec, a: zero, b: zero };
            assert(proof@.l_vec =~= seq![]);
            assert(proof@.r_vec =~= seq![]);
            return proof;
        }
        assert(encodings(L_vec@) =~= seq![]);
        assert(encodings(R_vec@) =~= seq![]);
        while a.len() > 1
            invariant
                a.len() == b.len() == G.len() == H.len(),
                is_pow2(a.len() as int),
                ({
                    let whole = rounds(start, Q@, g0, h0, a0, b0);
                    let rest = rounds(
                        transcript_state(*transcript),
                        Q@,
                        encodings(G@),
                        encodings(H@),
                        values(a@),
                        values(b@),
                    );
                    &&& whole.0.l_vec == encodings(L_vec@) + rest.0.l_vec
                    &&& whole.0.r_vec == encodings(R_vec@) + rest.0.r_vec
                    &&& whole.0.a == rest.0.a
                    &&& whole.0.b == rest.0.b
                    &&& whole.1 == rest.1
                }),
            decreases a.len(),
        {
            proof {
                reveal(is_pow2);
            }
            let len = a.len();
            let half = len / 2;
            let a_lo = slice(&a, 0, half);
            let a_hi = slice(&a, half, len);
            let b_lo = slice(&b, 0, half);
            let b_hi = slice(&b, half, len);
            let G_lo = slice(&G, 0, half);
            let G_hi = slice(&G, half, len);
            let H_lo = slice(&H, 0, half);
            let H_hi = slice(&H, half, len);
            proof {
                assert(values(a_lo@) =~= values(a@).take(half as int));
                assert(values(a_hi@) =~= values(a@).skip(half as int));
                assert(values(b_lo@) =~= values(b@).take(half as int));
                assert(values(b_hi@) =~= values(b@).skip(half as int));
                assert(encodings(G_lo@) =~= encodings(G@).take(half as int));
                assert(encodings(G_hi@) =~= encodings(G@).skip(half as int));
                assert(encodings(H_lo@) =~= encodings(H@).take(half as int));
                assert(encodings(H_hi@) =~= encodings(H@).skip(half as int));
            }
            let L = cross_term(&a_lo, &b_hi, &G_hi, &H_lo, Q);
            let R = cross_term(&a_hi, &b_lo, &G_lo, &H_hi, Q);
            let ghost before = rounds(
                transcript_state(*transcript),
                Q@,
                encodings(G@),
                encodings(H@),
                values(a@),
                values(b@),
            );
            let ghost l_before = encodings(L_vec@);
            let ghost r_before = encodings(R_vec@);
            L_vec.push(L);
            R_vec.push(R);
            commit_point(transcript, "L".as_bytes(), &L);
            commit_point(transcript, "R".as_bytes(), &R);
            let u = challenge_scalar(transcript, "u".as_bytes());
            let u_inv = u.invert();
            let a_next = fold_scalar_vec(&a, &u, &u_inv);
            let b_next = fold_scalar_vec(&b, &u_inv, &u);
            let G_next = fold_point_vec(&G, &u_inv, &u);
            let H_next = fold_point_vec(&H, &u, &u_inv);
            a = a_next;
            b = b_next;
            G = G_next;
            H = H_next;
            proof {
                let rest = rounds(
                    transcript_state(*transcript),
                    Q@,
                    encodings(G@),
                    encodings(H@),
                    values(a@),
                    values(b@),
                );
                assert(before.0.l_vec == seq![L@] + rest.0.l_vec);
                assert(encodings(L_vec@) =~= l_before + seq![L@]);
                assert(encodings(R_vec@) =~= r_before + seq![R@]);
                assert(l_before + (seq![L@] + rest.0.l_vec) =~= (l_before + seq![L@])
                    + rest.0.l_vec);
                assert(r_before + (seq![R@] + rest.0.r_vec) =~= (r_before + seq![R@])
                    + rest.0.r_vec);
            }
        }
        proof {
            reveal(is_pow2);
        }
        let proof = InnerProductProof { L_vec, R_vec, a: a[0], b: b[0] };
        proof {
            assert(proof@.l_vec + Seq::<Seq<u8>>::empty() =~= proof@.l_vec);
            assert(proof@.r_vec + Seq::<Seq<u8>>::empty() =~= proof@.r_vec);
        }
        proof
    }
}

} // verus!
