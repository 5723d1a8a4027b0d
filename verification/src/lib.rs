//! Groth16 proof verification on BN254 and a Poseidon hash over its scalar
//! field, for proofs and keys as snarkjs writes them.
//!
//! - [`field`], with [`montgomery`], [`wide`] and [`limbs`] below it: the
//!   scalar field, its laws in [`field_laws`].
//! - [`poseidon`]: the permutation of width three and the hashes of two and
//!   four elements, with the parameters in [`poseidon_precomputed`].
//! - [`types`]: 256-bit integers, curve points, proofs and verification
//!   keys, their decimal ingress and their byte layouts; [`decimal`] and
//!   [`bytes`] hold the number formats.
//! - [`groth16`]: the verifier, as the questions it puts to a host that does
//!   the curve arithmetic; [`near_layout`] takes the questions to the layout
//!   of the NEAR host functions.
//! - [`transcript`]: a Keccak-256 Fiat-Shamir transcript.
//! - [`debug`] and [`tooling`]: traces for comparing runs, and the rules of
//!   the command-line front-end.
//!
//! Every function is proved against its contract; the one exception is the
//! call of the Keccak-256 hash, whose contract is taken on trust.

pub mod limbs;
pub mod bytes;
pub mod decimal;
pub mod montgomery;
pub mod field;
pub mod field_laws;
pub mod wide;
pub mod poseidon_precomputed;
pub mod poseidon;
pub mod types;
pub mod groth16;
pub mod near_layout;
pub mod transcript;
pub mod debug;
pub mod tooling;
pub mod prelude;

pub use groth16::Verifier;
pub use poseidon::{compute_commitment, compute_nullifier_hash, poseidon_hash2, poseidon_hash4, Fr};
pub use transcript::FiatShamirTranscript;
pub use types::{G1Point, G2Point, Proof, ProofJson, VerificationKey, VerificationKeyJson, U256};
