//! A two-player commit/reveal card game whose result is settled by a
//! Groth16 proof over BN254.
//!
//! - `types`: a match record, a proof, a verification key, public inputs.
//! - `game`: each step of a match as a pure function from record to record.
//! - `contract`: the table of matches by session, with the operations on it.
//! - `field`: 32-byte big-endian integers, and G1 point negation.
//! - `groth16`: the public inputs in circuit order and the sides of the
//!   multi-pairing check.
//! - `bn254`: G1 points checked and combined through the Soroban host.

pub mod types;
pub mod game;
pub mod contract;
pub mod field;
pub mod groth16;
pub mod bn254;
