//! The byte-level half of Groth16 verification over BN254: the public
//! inputs in circuit order, and the four (G1, G2) pairs whose pairing
//! product must be one, e(A, B) * e(-alpha, beta) * e(-vk_x, gamma) * e(-C, delta).

use vstd::prelude::*;
use crate::field::{is_g1_negation, negate_g1};
use crate::types::{Groth16Proof, PublicInputs, VerificationKey};

verus! {

/// The number of public inputs of the game circuit.
pub const N_PUBLIC: usize = 6;

/// The public inputs in the order the circuit takes them: seed_commit1,
/// seed_commit2, seed1, seed2, session_id, winner.
pub open spec fn scalars_spec(inputs: PublicInputs) -> Seq<[u8; 32]> {
    seq![inputs.seed_commit1, inputs.seed_commit2, inputs.seed1, inputs.seed2, inputs.session_id, inputs.winner]
}

/// The public inputs as the scalars of the verification equation, in circuit order.
pub fn public_scalars(inputs: &PublicInputs) -> (r: Vec<[u8; 32]>)
    ensures
        r@ == scalars_spec(*inputs),
{
    let r = vec![
        inputs.seed_commit1,
        inputs.seed_commit2,
        inputs.seed1,
        inputs.seed2,
        inputs.session_id,
        inputs.winner,
    ];
    assert(r@ =~= scalars_spec(*inputs));
    r
}

/// `g1` and `g2` are the sides of the multi-pairing check for `proof` under
/// `vk`: (A, -alpha, -vk_x, -C) and (B, beta, gamma, delta).
pub open spec fn is_pairing_sides(
    proof: Groth16Proof,
    vk: VerificationKey,
    vk_x: Seq<u8>,
    g1: Seq<[u8; 64]>,
    g2: Seq<[u8; 128]>,
) -> bool {
    &&& g1.len() == 4
    &&& g1[0] == proof.pi_a
    &&& is_g1_negation(vk.alpha_g1@, g1[1]@)
    &&& is_g1_negation(vk_x, g1[2]@)
    &&& is_g1_negation(proof.pi_c@, g1[3]@)
    &&& g2 == seq![proof.pi_b, vk.beta_g2, vk.gamma_g2, vk.delta_g2]
}

/// The G1 and G2 sides of the multi-pairing check, given
/// vk_x = ic[0] + sum of ic[i + 1] * scalar[i]: the G1 side is
/// (A, -alpha, -vk_x, -C), the G2 side (B, beta, gamma, delta).
pub fn pairing_inputs(proof: &Groth16Proof, vk: &VerificationKey, vk_x: &[u8; 64])
    -> (r: (Vec<[u8; 64]>, Vec<[u8; 128]>))
    ensures
        is_pairing_sides(*proof, *vk, vk_x@, r.0@, r.1@),
{
    let neg_alpha = negate_g1(&vk.alpha_g1);
    let neg_vk_x = negate_g1(vk_x);
    let neg_c = negate_g1(&proof.pi_c);
    let g1 = vec![proof.pi_a, neg_alpha, neg_vk_x, neg_c];
    let g2 = vec![proof.pi_b, vk.beta_g2, vk.gamma_g2, vk.delta_g2];
    assert(g2@ =~= seq![proof.pi_b, vk.beta_g2, vk.gamma_g2, vk.delta_g2]);
    (g1, g2)
}

} // verus!
