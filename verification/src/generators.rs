//! The public bases that commitments are made to.
use vstd::prelude::*;
use crate::point::{encodings, multiscalar_mul, multiscalar_mul_encoding, Point};
use crate::scalar::{values, Scalar};

verus! {

/// The two bases of a hiding commitment to one scalar.
#[derive(Clone, Copy, Debug)]
pub struct PedersenGens {
    /// The base of the committed value.
    pub B: Point,
    /// The base of the blinding factor.
    pub B_blinding: Point,
}

/// The encoding of the commitment `value * B + blinding * B_blinding`.
pub open spec fn pedersen_commitment(gens: PedersenGens, value: int, blinding: int) -> Seq<u8> {
    multiscalar_mul_encoding(seq![value, blinding], seq![gens.B@, gens.B_blinding@])
}

impl PedersenGens {
    /// Commits to `value` under `blinding`.
    pub fn commit(&self, value: &Scalar, blinding: &Scalar) -> (c: Point)
        ensures
            c@ == pedersen_commitment(*self, value@, blinding@),
    {
        let scalars = vec![*value, *blinding];
        let points = vec![self.B, self.B_blinding];
        assert(values(scalars@) =~= seq![value@, blinding@]);
        assert(encodings(points@) =~= seq![self.B@, self.B_blinding@]);
        multiscalar_mul(&scalars, &points)
    }
}

/// Two families of bases for vector commitments, of one length.
#[derive(Debug)]
pub struct BulletproofGens {
    G_vec: Vec<Point>,
    H_vec: Vec<Point>,
}

impl BulletproofGens {
    #[verifier::type_invariant]
    pub open spec fn valid(self) -> bool {
        self.g().len() == self.h().len()
    }

    /// The bases of the first family.
    pub closed spec fn g(&self) -> Seq<Point> {
        self.G_vec@
    }

    /// The bases of the second family.
    pub closed spec fn h(&self) -> Seq<Point> {
        self.H_vec@
    }

    /// The number of bases that each family holds.
    pub open spec fn capacity(&self) -> nat {
        self.g().len()
    }

    /// Takes the two families; `None` where their lengths differ.
    pub fn new(G_vec: Vec<Point>, H_vec: Vec<Point>) -> (r: Option<BulletproofGens>)
        ensures
            r.is_some() <==> G_vec.len() == H_vec.len(),
            r.is_some() ==> r.unwrap().g() == G_vec@ && r.unwrap().h() == H_vec@,
    {
        if G_vec.len() == H_vec.len() {
            Some(BulletproofGens { G_vec, H_vec })
        } else {
            None
        }
    }

    pub fn gens_capacity(&self) -> (n: usize)
        ensures
            n == self.capacity(),
    {
        self.G_vec.len()
    }

    /// The first `n` bases of the first family.
    pub fn G(&self, n: usize) -> (out: Vec<Point>)
        requires
            n <= self.capacity(),
        ensures
            out@ == self.g().take(n as int),
    {
        first_points(&self.G_vec, n)
    }

    /// The first `n` bases of the second family.
    pub fn H(&self, n: usize) -> (out: Vec<Point>)
        requires
            n <= self.capacity(),
        ensures
            out@ == self.h().take(n as int),
    {
        proof {
            use_type_invariant(self);
        }
        first_points(&self.H_vec, n)
    }
}

fn first_points(points: &Vec<Point>, n: usize) -> (out: Vec<Point>)
    requires
        n <= points.len(),
    ensures
        out@ == points@.take(n as int),
{
    let mut out: Vec<Point> = Vec::with_capacity(n);
    let mut i: usize = 0;
    while i < n
        invariant
            i <= n <= points.len(),
            out@ == points@.take(i as int),
        decreases n - i,
    {
        out.push(points[i]);
        assert(points@.take(i as int).push(points@[i as int]) =~= points@.take(i + 1));
        i += 1;
    }
    out
}

} // verus!
