//! G1 points checked and combined through the Soroban host: validity of an
//! encoding, and vk_x = ic[0] + sum of ic[i + 1] * input[i].
//!
//! The host traps on a malformed point; every call here is made only on
//! points that `g1_point_ok` has accepted. It also traps when the
//! transaction's budget runs out, which depends on the environment rather
//! than on the arguments.

use soroban_sdk::crypto::bn254::{Bn254G1Affine, Fr};
use soroban_sdk::{BytesN, Env};
use vstd::prelude::*;
use crate::field::{all_zero, be_value, g1_x, g1_y, lt_be, BN254_P};
use crate::groth16::{is_pairing_sides, pairing_inputs, public_scalars, scalars_spec, N_PUBLIC};
use crate::types::{Groth16Proof, PublicInputs, VerificationKey};

verus! {

#[verifier::external_type_specification]
#[verifier::external_body]
pub struct ExEnv(Env);

/// What the host asks of a G1 encoding before it looks at the curve: the two
/// flag bits of the first byte unset, and both coordinates below p.
pub open spec fn g1_encoding_ok(pt: Seq<u8>) -> bool {
    &&& pt.len() == 64
    &&& pt[0] < 64
    &&& be_value(g1_x(pt)) < be_value(BN254_P@)
    &&& be_value(g1_y(pt)) < be_value(BN254_P@)
}

/// The point at infinity (64 zero bytes), or a point on y^2 = x^3 + 3 over
/// the base field.
pub open spec fn g1_on_curve(pt: Seq<u8>) -> bool {
    let p = be_value(BN254_P@) as int;
    let x = be_value(g1_x(pt)) as int;
    let y = be_value(g1_y(pt)) as int;
    all_zero(pt) || (y * y) % p == (x * x * x + 3) % p
}

/// A G1 encoding that the host accepts as a point.
pub open spec fn g1_valid(pt: Seq<u8>) -> bool {
    g1_encoding_ok(pt) && g1_on_curve(pt)
}

/// The sum of two G1 points, as the host encodes it.
pub uninterp spec fn g1_sum(a: Seq<u8>, b: Seq<u8>) -> Seq<u8>;

/// A G1 point times a scalar (32 bytes big-endian, taken modulo r), as the
/// host encodes it.
pub uninterp spec fn g1_scaled(pt: Seq<u8>, scalar: Seq<u8>) -> Seq<u8>;

/// Relies on soroban_sdk's `Bn254::g1_is_on_curve`: for an encoding with its
/// flag bits unset and coordinates below p, the host answers whether it is
/// the point at infinity or lies on the curve.
#[verifier::external_body]
fn g1_is_on_curve(env: &Env, pt: &[u8; 64]) -> (r: bool)
    requires
        g1_encoding_ok(pt@),
    ensures
        r == g1_on_curve(pt@),
{
    env.crypto().bn254().g1_is_on_curve(&Bn254G1Affine::from_array(env, pt))
}

/// Relies on soroban_sdk's `Bn254::g1_add`: the host adds two valid G1
/// points and returns the sum as a valid encoding.
#[verifier::external_body]
fn g1_add(env: &Env, a: &[u8; 64], b: &[u8; 64]) -> (r: [u8; 64])
    requires
        g1_valid(a@),
        g1_valid(b@),
    ensures
        r@ == g1_sum(a@, b@),
        g1_valid(r@),
{
    let pa = Bn254G1Affine::from_array(env, a);
    let pb = Bn254G1Affine::from_array(env, b);
    env.crypto().bn254().g1_add(&pa, &pb).to_array()
}

/// Relies on soroban_sdk's `Bn254::g1_mul` and `Bn254Fr::from_bytes`: the
/// host multiplies a valid G1 point by the scalar, reduced modulo r, and
/// returns the product as a valid encoding.
#[verifier::external_body]
fn g1_mul(env: &Env, pt: &[u8; 64], scalar: &[u8; 32]) -> (r: [u8; 64])
    requires
        g1_valid(pt@),
    ensures
        r@ == g1_scaled(pt@, scalar@),
        g1_valid(r@),
{
    let p = Bn254G1Affine::from_array(env, pt);
    let s = Fr::from_bytes(BytesN::from_array(env, scalar));
    env.crypto().bn254().g1_mul(&p, &s).to_array()
}

/// Whether the 64 bytes encode a G1 point that the host accepts.
pub fn g1_point_ok(env: &Env, pt: &[u8; 64]) -> (r: bool)
    ensures
        r == g1_valid(pt@),
{
    if pt[0] >= 64 {
        return false;
    }
    let mut x: [u8; 32] = [0u8; 32];
    let mut y: [u8; 32] = [0u8; 32];
    let mut i: usize = 0;
    while i < 32
        invariant
            0 <= i <= 32,
            forall|k: int| 0 <= k < i ==> x[k] == pt[k] && y[k] == pt[k + 32],
        decreases 32 - i,
    {
        x[i] = pt[i];
        y[i] = pt[i + 32];
        i = i + 1;
    }
    assert(x@ =~= g1_x(pt@));
    assert(y@ =~= g1_y(pt@));
    if !lt_be(&x, &BN254_P) || !lt_be(&y, &BN254_P) {
        return false;
    }
    g1_is_on_curve(env, pt)
}

/// vk_x after the first `n` public inputs: ic[0] + sum over i < n of
/// ic[i + 1] * scalar[i], added left to right.
pub open spec fn vk_x_spec(ic: Seq<[u8; 64]>, scalars: Seq<[u8; 32]>, n: nat) -> Seq<u8>
    decreases n,
{
    if n == 0 {
        ic[0]@
    } else {
        g1_sum(vk_x_spec(ic, scalars, (n - 1) as nat), g1_scaled(ic[n as int]@, scalars[n - 1]@))
    }
}

/// The key has one `ic` point per public input and one more, all valid.
pub open spec fn ic_ok(ic: Seq<[u8; 64]>) -> bool {
    &&& ic.len() == N_PUBLIC + 1
    &&& forall|i: int| 0 <= i < ic.len() ==> g1_valid(#[trigger] ic[i]@)
}

/// vk_x = ic[0] + sum of ic[i + 1] * input[i] for the inputs in circuit
/// order; `None` when the key's `ic` has the wrong length or a point that is
/// not valid.
pub fn compute_vk_x(env: &Env, vk: &VerificationKey, inputs: &PublicInputs) -> (r: Option<[u8; 64]>)
    ensures
        r is Some <==> ic_ok(vk.ic@),
        r matches Some(v) ==> v@ == vk_x_spec(vk.ic@, scalars_spec(*inputs), N_PUBLIC as nat),
{
    if vk.ic.len() != N_PUBLIC + 1 {
        return None;
    }
    let mut j: usize = 0;
    while j < vk.ic.len()
        invariant
            0 <= j <= vk.ic@.len(),
            forall|k: int| 0 <= k < j ==> g1_valid(#[trigger] vk.ic@[k]@),
        decreases vk.ic@.len() - j,
    {
        if !g1_point_ok(env, &vk.ic[j]) {
            return None;
        }
        j = j + 1;
    }
    let scalars = public_scalars(inputs);
    let mut acc: [u8; 64] = vk.ic[0];
    let mut i: usize = 0;
    while i < N_PUBLIC
        invariant
            0 <= i <= N_PUBLIC,
            ic_ok(vk.ic@),
            scalars@ == scalars_spec(*inputs),
            g1_valid(acc@),
            acc@ == vk_x_spec(vk.ic@, scalars@, i as nat),
        decreases N_PUBLIC - i,
    {
        let term = g1_mul(env, &vk.ic[i + 1], &scalars[i]);
        acc = g1_add(env, &acc, &term);
        i = i + 1;
    }
    Some(acc)
}

/// The sides of the multi-pairing check for `proof` on `inputs` under `vk`,
/// or `None` when the key's `ic` is malformed or alpha, A or C is not a
/// valid G1 point: such a proof cannot verify.
pub fn prepare_pairing(env: &Env, proof: &Groth16Proof, vk: &VerificationKey, inputs: &PublicInputs)
    -> (r: Option<(Vec<[u8; 64]>, Vec<[u8; 128]>)>)
    ensures
        r is Some <==> ic_ok(vk.ic@) && g1_valid(vk.alpha_g1@) && g1_valid(proof.pi_a@) && g1_valid(proof.pi_c@),
        r matches Some(sides) ==> is_pairing_sides(
            *proof, *vk, vk_x_spec(vk.ic@, scalars_spec(*inputs), N_PUBLIC as nat), sides.0@, sides.1@),
{
    let vk_x = match compute_vk_x(env, vk, inputs) {
        Some(v) => v,
        None => return None,
    };
    if !g1_point_ok(env, &vk.alpha_g1) || !g1_point_ok(env, &proof.pi_a) || !g1_point_ok(env, &proof.pi_c) {
        return None;
    }
    Some(pairing_inputs(proof, vk, &vk_x))
}

} // verus!
