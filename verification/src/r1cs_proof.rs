//! The proof that the prover hands out.
use vstd::prelude::*;
use crate::inner_product_proof::{InnerProductModel, InnerProductProof};
use crate::point::Point;
use crate::scalar::Scalar;

verus! {

/// A proof that a constraint system has a satisfying assignment.
#[derive(Clone, Debug)]
pub struct R1CSProof {
    /// Commitment to the left and right inputs of the gates.
    pub A_I: Point,
    /// Commitment to the outputs of the gates.
    pub A_O: Point,
    /// Commitment to the blinding vectors.
    pub S: Point,
    /// Commitments to the coefficients of `t` of degree one and three to six.
    pub T_1: Point,
    pub T_3: Point,
    pub T_4: Point,
    pub T_5: Point,
    pub T_6: Point,
    /// The value of `t` at the challenge `x`.
    pub t_x: Scalar,
    /// The blinding of the commitment to `t_x` that the others imply.
    pub t_x_blinding: Scalar,
    /// The blinding of the commitment to `l(x)` and `r(x)` that the others imply.
    pub e_blinding: Scalar,
    /// The proof that `t_x` is the inner product of `l(x)` and `r(x)`.
    pub ipp_proof: InnerProductProof,
}

/// A proof as encodings and values.
pub struct R1CSProofModel {
    pub a_i: Seq<u8>,
    pub a_o: Seq<u8>,
    pub s: Seq<u8>,
    pub t_1: Seq<u8>,
    pub t_3: Seq<u8>,
    pub t_4: Seq<u8>,
    pub t_5: Seq<u8>,
    pub t_6: Seq<u8>,
    pub t_x: int,
    pub t_x_blinding: int,
    pub e_blinding: int,
    pub ipp_proof: InnerProductModel,
}

impl View for R1CSProof {
    type V = R1CSProofModel;

    open spec fn view(&self) -> R1CSProofModel {
        R1CSProofModel {
            a_i: self.A_I@,
            a_o: self.A_O@,
            s: self.S@,
            t_1: self.T_1@,
            t_3: self.T_3@,
            t_4: self.T_4@,
            t_5: self.T_5@,
            t_6: self.T_6@,
            t_x: self.t_x@,
            t_x_blinding: self.t_x_blinding@,
            e_blinding: self.e_blinding@,
            ipp_proof: self.ipp_proof@,
        }
    }
}

} // verus!
