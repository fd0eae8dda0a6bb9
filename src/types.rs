//! The data of a match, of a proof and of its verification key.

use vstd::prelude::*;

verus! {

/// A player's identity: the 32-byte key behind the account or contract address.
pub type PlayerId = [u8; 32];

pub const PHASE_CREATED: u32 = 0;
pub const PHASE_JOINED: u32 = 1;
pub const PHASE_REVEALED: u32 = 2;
pub const PHASE_SETTLED: u32 = 3;

/// One match. Before a second player joins, `player2` equals `player1`; a
/// seed of all zero bytes has not been revealed yet. `winner` is 0 until
/// settlement, then 1 (player1) or 2 (player2).
#[derive(Clone, Copy, Debug)]
pub struct Game {
    pub player1: PlayerId,
    pub player2: PlayerId,
    pub seed_commit1: [u8; 32],
    pub seed_commit2: [u8; 32],
    pub seed1: [u8; 32],
    pub seed2: [u8; 32],
    pub phase: u32,
    pub winner: u32,
}

/// A Groth16 proof over BN254: G1 points are big-endian X || Y (64 bytes),
/// the G2 point is X_c1 || X_c0 || Y_c1 || Y_c0 (128 bytes).
#[derive(Clone, Copy, Debug)]
pub struct Groth16Proof {
    pub pi_a: [u8; 64],
    pub pi_b: [u8; 128],
    pub pi_c: [u8; 64],
}

/// A Groth16 verification key; `ic` has one entry more than there are
/// public inputs.
#[derive(Clone, Debug)]
pub struct VerificationKey {
    pub alpha_g1: [u8; 64],
    pub beta_g2: [u8; 128],
    pub gamma_g2: [u8; 128],
    pub delta_g2: [u8; 128],
    pub ic: Vec<[u8; 64]>,
}

/// The six public inputs of the game circuit, each a 32-byte big-endian
/// field element.
#[derive(Clone, Copy, Debug)]
pub struct PublicInputs {
    pub seed_commit1: [u8; 32],
    pub seed_commit2: [u8; 32],
    pub seed1: [u8; 32],
    pub seed2: [u8; 32],
    pub session_id: [u8; 32],
    pub winner: [u8; 32],
}

/// Why an operation on a match was refused; the match is then unchanged.
#[derive(Copy, Clone, Debug, PartialEq, Eq, Structural)]
pub enum Error {
    GameNotFound,
    GameAlreadyExists,
    NotPlayer,
    InvalidState,
    InvalidProof,
    AlreadyRevealed,
    SeedsNotRevealed,
    GameAlreadySettled,
    InvalidWinner,
    NoVk,
    PublicInputMismatch,
    SelfPlay,
}

} // verus!
