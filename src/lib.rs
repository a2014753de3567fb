//! Groth16 proofs over BN254 for circuits described as R1CS: the reader of the
//! binary R1CS container, the constraint adapter, the canonical JSON codec for
//! proofs and verifying keys, and the resolution of JSON signal inputs into a
//! witness-input vector.
pub mod circuit;
pub mod codec;
pub mod curve;
pub mod field;
pub mod inputs;
pub mod json_text;
pub mod r1cs;

pub use circuit::CircomCircuit;
pub use json_text::{proof_to_json, verifying_key_to_json};
