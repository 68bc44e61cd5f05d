//! The interface that circuits are built against.
use vstd::prelude::*;
use crate::errors::R1CSError;
use crate::scalar::Scalar;
use crate::variable::{lc_in_range, Assignment, LinearCombination, Variable};

verus! {

/// A constraint system under construction: multiplication gates and linear
/// constraints over their wires, over committed values and over the constant
/// one.
pub trait ConstraintSystem {
    /// The invariant of the implementation.
    spec fn wf(&self) -> bool;

    /// The number of multiplication gates allocated so far.
    spec fn multipliers(&self) -> nat;

    /// The number of committed values, fixed at construction.
    spec fn committed(&self) -> nat;

    /// Allocates a multiplication gate with the given wire values and returns
    /// its three wires.  Fails, changing nothing, where a value is missing.
    fn assign_multiplier(&mut self, left: Assignment, right: Assignment, out: Assignment) -> (r:
        Result<(Variable, Variable, Variable), R1CSError>)
        requires
            old(self).wf(),
        ensures
            final(self).wf(),
            final(self).committed() == old(self).committed(),
            left is Value && right is Value && out is Value ==> r == Ok::<
                (Variable, Variable, Variable),
                R1CSError,
            >(
                (
                    Variable::MultiplierLeft(old(self).multipliers() as usize),
                    Variable::MultiplierRight(old(self).multipliers() as usize),
                    Variable::MultiplierOutput(old(self).multipliers() as usize),
                ),
            ) && final(self).multipliers() == old(self).multipliers() + 1,
            !(left is Value && right is Value && out is Value) ==> r == Err::<
                (Variable, Variable, Variable),
                R1CSError,
            >(R1CSError::MissingAssignment) && final(self).multipliers() == old(self).multipliers(),
    ;

    /// Allocates a multiplication gate whose output is the product of the two
    /// given values and returns its two input wires.
    fn assign_uncommitted(&mut self, val_1: Assignment, val_2: Assignment) -> (r: Result<
        (Variable, Variable),
        R1CSError,
    >)
        requires
            old(self).wf(),
        ensures
            final(self).wf(),
            final(self).committed() == old(self).committed(),
            val_1 is Value && val_2 is Value ==> r == Ok::<(Variable, Variable), R1CSError>(
                (
                    Variable::MultiplierLeft(old(self).multipliers() as usize),
                    Variable::MultiplierRight(old(self).multipliers() as usize),
                ),
            ) && final(self).multipliers() == old(self).multipliers() + 1,
            !(val_1 is Value && val_2 is Value) ==> r == Err::<(Variable, Variable), R1CSError>(
                R1CSError::MissingAssignment,
            ) && final(self).multipliers() == old(self).multipliers(),
    ;

    /// Registers the constraint that `lc` evaluates to zero.  Whether it does
    /// is not checked.
    fn add_constraint(&mut self, lc: LinearCombination)
        requires
            old(self).wf(),
            lc_in_range(lc@, old(self).multipliers(), old(self).committed()),
        ensures
            final(self).wf(),
            final(self).multipliers() == old(self).multipliers(),
            final(self).committed() == old(self).committed(),
    ;

    /// Derives a challenge from everything that the transcript has absorbed.
    fn challenge_scalar(&mut self, label: &'static [u8]) -> (c: Scalar)
        requires
            old(self).wf(),
        ensures
            final(self).wf(),
            final(self).multipliers() == old(self).multipliers(),
            final(self).committed() == old(self).committed(),
    ;
}

} // verus!
