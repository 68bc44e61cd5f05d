//! The ways in which building or proving a constraint system fails.
use vstd::prelude::*;

verus! {

#[derive(Clone, Copy, Debug, PartialEq, Eq, Structural)]
pub enum R1CSError {
    /// The generators hold fewer bases than the padded circuit has gates.
    InvalidGeneratorsLength,
    /// A gate was given a wire without a value.
    MissingAssignment,
}

} // verus!
