//! Wires, linear combinations of wires, and optional wire values.
use vstd::prelude::*;
use crate::field::reduce;
use crate::scalar::{scalar_mul, Scalar};

verus! {

/// A reference to one value of the circuit.
#[derive(Clone, Copy, Debug, PartialEq, Eq, Structural)]
pub enum Variable {
    /// A value that was committed to before the circuit was built.
    Committed(usize),
    /// The left input of a multiplication gate.
    MultiplierLeft(usize),
    /// The right input of a multiplication gate.
    MultiplierRight(usize),
    /// The output of a multiplication gate.
    MultiplierOutput(usize),
    /// The constant one.
    One,
}

/// Whether `var` names a wire of a circuit with `n` gates and `m` committed values.
pub open spec fn var_in_range(var: Variable, n: nat, m: nat) -> bool {
    match var {
        Variable::Committed(j) => j < m,
        Variable::MultiplierLeft(i) => i < n,
        Variable::MultiplierRight(i) => i < n,
        Variable::MultiplierOutput(i) => i < n,
        Variable::One => true,
    }
}

/// Whether every term of a linear combination names a wire of the circuit.
pub open spec fn lc_in_range(terms: Seq<(Variable, int)>, n: nat, m: nat) -> bool {
    forall|k: int| 0 <= k < terms.len() ==> var_in_range(#[trigger] terms[k].0, n, m)
}

/// A weighted sum of wires.  A wire may occur in several terms.
#[derive(Clone, Debug)]
pub struct LinearCombination {
    pub terms: Vec<(Variable, Scalar)>,
}

impl View for LinearCombination {
    type V = Seq<(Variable, int)>;

    /// The terms, each with the value of its coefficient.
    open spec fn view(&self) -> Seq<(Variable, int)> {
        Seq::new(self.terms@.len(), |k: int| (self.terms@[k].0, self.terms@[k].1@))
    }
}

impl LinearCombination {
    /// The empty sum.
    pub fn new() -> (lc: LinearCombination)
        ensures
            lc@ == Seq::<(Variable, int)>::empty(),
    {
        let lc = LinearCombination { terms: Vec::new() };
        assert(lc@ =~= Seq::<(Variable, int)>::empty());
        lc
    }

    /// Adds the term `coeff * var`.
    pub fn push(&mut self, var: Variable, coeff: Scalar)
        ensures
            final(self)@ == old(self)@.push((var, coeff@)),
    {
        self.terms.push((var, coeff));
        assert(self@ =~= old(self)@.push((var, coeff@)));
    }
}

/// The views of a list of linear combinations.
pub open spec fn lc_views(constraints: Seq<LinearCombination>) -> Seq<Seq<(Variable, int)>> {
    Seq::new(constraints.len(), |q: int| constraints[q]@)
}

/// The value of a wire, where the prover knows it.
#[derive(Clone, Copy, Debug)]
pub enum Assignment {
    Value(Scalar),
    Missing,
}

impl Assignment {
    /// The product of two wire values: known where both are.
    pub fn mul(self, rhs: Assignment) -> (out: Assignment)
        ensures
            match (self, rhs) {
                (Assignment::Value(a), Assignment::Value(b)) => out matches Assignment::Value(c)
                    && c@ == reduce(a@ * b@),
                _ => out is Missing,
            },
    {
        match (self, rhs) {
            (Assignment::Value(a), Assignment::Value(b)) => Assignment::Value(scalar_mul(&a, &b)),
            _ => Assignment::Missing,
        }
    }
}

} // verus!
