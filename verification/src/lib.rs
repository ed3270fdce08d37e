//! Prover-side core of an algebraic holographic proof over the BLS12-377
//! scalar field: witness-assignment construction against a precomputed
//! circuit index, prover-state initialization across a batch of circuits,
//! and the selector/combiner algebra that folds per-domain polynomial
//! checks into one global-domain check.

pub mod account;
pub mod domain;
pub mod entropy;
pub mod error;
pub mod field;
pub mod poly;
pub mod r1cs;
pub mod selector;
pub mod state;
pub mod witness;
