//! Prover side of a zero-knowledge proof system for rank-1 constraint systems.
//!
//! A circuit is a list of multiplication gates and a list of linear
//! constraints over their wires and over values that were committed to in
//! advance.  The prover collects both, flattens the constraints with a
//! transcript challenge, and produces a proof that a satisfying assignment
//! exists.
#![allow(non_snake_case)]

pub mod constraint_system;
pub mod errors;
pub mod field;
pub mod flatten;
pub mod generators;
pub mod inner_product_proof;
pub mod point;
pub mod protocol;
pub mod prover;
pub mod r1cs_proof;
pub mod scalar;
pub mod transcript;
pub mod util;
pub mod variable;
