//! Cryptographic and algebraic primitives for verifying a transparent,
//! hash-based proof: a hashing layer used for Merkle-tree commitments and
//! public-coin transcripts, and a constraint-evaluation engine that checks,
//! at one out-of-domain point, whether an execution trace satisfies the
//! algebraic constraints of a computation.

pub mod air;
pub mod blake2s;
pub mod digest;
pub mod evaluator;
pub mod felt;
