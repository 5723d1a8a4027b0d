//! The names that most users of the library need.

pub use crate::groth16::Verifier;
pub use crate::poseidon::{
    compute_commitment, compute_nullifier_hash, poseidon_hash2, poseidon_hash4, Fr,
};
pub use crate::transcript::FiatShamirTranscript;
pub use crate::types::{G1Point, G2Point, Proof, ProofJson, VerificationKeyJson, U256};
