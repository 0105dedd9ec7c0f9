//! Arithmetic constraint systems for SNARK-style proving.
//!
//! A computation is encoded as a Rank-1 Constraint System (R1CS), the
//! relation `(A·z) ∘ (B·z) = C·z` over sparse matrices, or as a
//! Customizable Constraint System (CCS), which generalizes R1CS to a
//! weighted sum of Hadamard products over any number of matrices.
//! This crate holds the sparse linear-algebra evaluation engine, the
//! satisfiability predicates of both models, and the structural
//! embedding of R1CS into CCS, each with a proved contract.
//!
//! Field arithmetic is not implemented here: it is consumed from the
//! Jubjub scalar field of the `jub-jub` crate through a small trusted
//! layer in [`field`].

pub mod ccs;
pub mod field;
pub mod matrix;
pub mod r1cs;
pub mod wire;

pub use ccs::Ccs;
pub use r1cs::R1cs;

