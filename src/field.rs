//! 32-byte big-endian unsigned integers and BN254 G1 point negation.

use vstd::prelude::*;

verus! {

/// BN254 base field modulus p, big-endian.
pub const BN254_P: [u8; 32] = [
    0x30, 0x64, 0x4e, 0x72, 0xe1, 0x31, 0xa0, 0x29,
    0xb8, 0x50, 0x45, 0xb6, 0x81, 0x81, 0x58, 0x5d,
    0x97, 0x81, 0x6a, 0x91, 0x68, 0x71, 0xca, 0x8d,
    0x3c, 0x20, 0x8c, 0x16, 0xd8, 0x7c, 0xfd, 0x47,
];

/// The unsigned integer that the bytes `s` encode, most significant first.
pub open spec fn be_value(s: Seq<u8>) -> nat
    decreases s.len(),
{
    if s.len() == 0 {
        0
    } else {
        (s[0] as nat) * pow256((s.len() - 1) as nat) + be_value(s.subrange(1, s.len() as int))
    }
}

/// 256 to the power `n`.
pub open spec fn pow256(n: nat) -> nat
    decreases n,
{
    if n == 0 {
        1
    } else {
        256 * pow256((n - 1) as nat)
    }
}

/// Every byte of `s` is zero.
pub open spec fn all_zero(s: Seq<u8>) -> bool {
    forall|i: int| 0 <= i < s.len() ==> s[i] == 0
}

pub proof fn lemma_pow256_pos(n: nat)
    ensures
        pow256(n) > 0,
    decreases n,
{
    if n > 0 {
        lemma_pow256_pos((n - 1) as nat);
    }
}

/// A value of `n` bytes is below 256^n.
pub proof fn lemma_be_value_bound(s: Seq<u8>)
    ensures
        be_value(s) < pow256(s.len()),
    decreases s.len(),
{
    if s.len() > 0 {
        let n = (s.len() - 1) as nat;
        let rest = s.subrange(1, s.len() as int);
        lemma_be_value_bound(rest);
        lemma_pow256_pos(n);
        let p = pow256(n);
        assert(pow256(s.len()) == 256 * p);
        let b = s[0] as int;
        let r = be_value(rest) as int;
        assert(b * p + r < 256 * p) by (nonlinear_arith)
            requires
                0 <= b <= 255,
                0 <= r < p,
        ;
    }
}

/// Bytes that are all zero encode zero.
pub proof fn lemma_be_value_zero(s: Seq<u8>)
    requires
        all_zero(s),
    ensures
        be_value(s) == 0,
    decreases s.len(),
{
    if s.len() > 0 {
        let rest = s.subrange(1, s.len() as int);
        assert(all_zero(rest));
        lemma_be_value_zero(rest);
    }
}

/// Two byte strings of one length that encode the same value are equal.
pub proof fn lemma_be_value_injective(s: Seq<u8>, t: Seq<u8>)
    requires
        s.len() == t.len(),
        be_value(s) == be_value(t),
    ensures
        s == t,
    decreases s.len(),
{
    if s.len() > 0 {
        let n = (s.len() - 1) as nat;
        let rs = s.subrange(1, s.len() as int);
        let rt = t.subrange(1, t.len() as int);
        lemma_be_value_bound(rs);
        lemma_be_value_bound(rt);
        let p = pow256(n);
        let a = s[0] as int;
        let b = t[0] as int;
        let x = be_value(rs) as int;
        let y = be_value(rt) as int;
        assert(a == b) by (nonlinear_arith)
            requires
                a * p + x == b * p + y,
                0 <= x < p,
                0 <= y < p,
        ;
        lemma_be_value_injective(rs, rt);
        assert(s =~= seq![s[0]] + rs);
        assert(t =~= seq![t[0]] + rt);
    }
}

/// Of two byte strings of one length that agree before index `k`, the one
/// with the smaller byte at `k` encodes the smaller value.
pub proof fn lemma_be_value_first_difference(s: Seq<u8>, t: Seq<u8>, k: int)
    requires
        s.len() == t.len(),
        0 <= k < s.len(),
        forall|i: int| 0 <= i < k ==> s[i] == t[i],
        s[k] < t[k],
    ensures
        be_value(s) < be_value(t),
    decreases k,
{
    let n = (s.len() - 1) as nat;
    let rs = s.subrange(1, s.len() as int);
    let rt = t.subrange(1, t.len() as int);
    if k == 0 {
        lemma_be_value_bound(rs);
        let p = pow256(n);
        let a = s[0] as int;
        let b = t[0] as int;
        let x = be_value(rs) as int;
        let y = be_value(rt) as int;
        assert(a * p + x < b * p + y) by (nonlinear_arith)
            requires
                a + 1 <= b,
                0 <= x < p,
                0 <= y,
        ;
    } else {
        lemma_be_value_first_difference(rs, rt, k - 1);
    }
}

/// Whether `a < b` as 32-byte big-endian integers.
pub fn lt_be(a: &[u8; 32], b: &[u8; 32]) -> (r: bool)
    ensures
        r == (be_value(a@) < be_value(b@)),
{
    let mut i: usize = 0;
    while i < 32
        invariant
            0 <= i <= 32,
            forall|k: int| 0 <= k < i ==> a[k] == b[k],
        decreases 32 - i,
    {
        if a[i] < b[i] {
            proof {
                lemma_be_value_first_difference(a@, b@, i as int);
            }
            return true;
        }
        if a[i] > b[i] {
            proof {
                lemma_be_value_first_difference(b@, a@, i as int);
            }
            return false;
        }
        i = i + 1;
    }
    assert(a@ =~= b@);
    false
}

/// `a - b` on 32-byte big-endian integers, the borrow running from the last
/// byte to the first; the result wraps modulo 2^256 when `a < b`.
pub fn field_sub_be(a: &[u8; 32], b: &[u8; 32]) -> (r: [u8; 32])
    ensures
        be_value(a@) >= be_value(b@) ==> be_value(r@) == be_value(a@) - be_value(b@),
        be_value(a@) < be_value(b@) ==> be_value(r@) == be_value(a@) + pow256(32) - be_value(b@),
        all_zero(b@) ==> r@ == a@,
        a@ == b@ ==> all_zero(r@),
{
    let mut result: [u8; 32] = [0u8; 32];
    let mut borrow: u8 = 0;
    let mut i: usize = 32;
    while i > 0
        invariant
            0 <= i <= 32,
            borrow <= 1,
            result@.len() == 32,
            be_value(result@.subrange(i as int, 32)) + be_value(b@.subrange(i as int, 32))
                == be_value(a@.subrange(i as int, 32)) + borrow * pow256((32 - i) as nat),
            all_zero(b@) ==> borrow == 0 && forall|k: int| i <= k < 32 ==> result[k] == a[k],
            a@ == b@ ==> borrow == 0 && forall|k: int| i <= k < 32 ==> result[k] == 0,
        decreases i,
    {
        let j: usize = i - 1;
        let ghost old_result = result@;
        let ai = a[j] as i32;
        let bi = b[j] as i32 + borrow as i32;
        let new_borrow: u8;
        if ai < bi {
            result[j] = (ai + 256 - bi) as u8;
            new_borrow = 1;
        } else {
            result[j] = (ai - bi) as u8;
            new_borrow = 0;
        }
        proof {
            let n = (31 - j) as nat;
            let p = pow256(n);
            assert(pow256((32 - j) as nat) == 256 * p);
            assert(result@.subrange(j as int, 32) =~= seq![result[j as int]] + old_result.subrange(i as int, 32));
            assert(result@.subrange(j as int, 32).subrange(1, 32 - j) =~= old_result.subrange(i as int, 32));
            assert(a@.subrange(j as int, 32).subrange(1, 32 - j) =~= a@.subrange(i as int, 32));
            assert(b@.subrange(j as int, 32).subrange(1, 32 - j) =~= b@.subrange(i as int, 32));
            let rr = result[j as int] as int;
            let aa = a[j as int] as int;
            let bb = b[j as int] as int;
            let ob = borrow as int;
            let nb = new_borrow as int;
            let vr = be_value(old_result.subrange(i as int, 32)) as int;
            let va = be_value(a@.subrange(i as int, 32)) as int;
            let vb = be_value(b@.subrange(i as int, 32)) as int;
            assert(rr == aa - bb - ob + 256 * nb);
            assert(rr * p + vr + (bb * p + vb) == aa * p + va + nb * (256 * p)) by (nonlinear_arith)
                requires
                    rr == aa - bb - ob + 256 * nb,
                    vr + vb == va + ob * p,
            ;
        }
        borrow = new_borrow;
        i = j;
    }
    proof {
        assert(result@.subrange(0, 32) =~= result@);
        assert(a@.subrange(0, 32) =~= a@);
        assert(b@.subrange(0, 32) =~= b@);
        lemma_be_value_bound(result@);
        lemma_be_value_bound(a@);
        lemma_be_value_bound(b@);
        assert(all_zero(b@) ==> result@ =~= a@);
    }
    result
}

/// The X coordinate of a 64-byte G1 point encoding.
pub open spec fn g1_x(pt: Seq<u8>) -> Seq<u8> {
    pt.subrange(0, 32)
}

/// The Y coordinate of a 64-byte G1 point encoding.
pub open spec fn g1_y(pt: Seq<u8>) -> Seq<u8> {
    pt.subrange(32, 64)
}

/// `r` is the negation of the G1 point `pt`: the point at infinity (Y all
/// zero) goes to 64 zero bytes; any other point (x, y) goes to (x, p - y).
pub open spec fn is_g1_negation(pt: Seq<u8>, r: Seq<u8>) -> bool {
    &&& r.len() == 64
    &&& all_zero(g1_y(pt)) ==> all_zero(r)
    &&& !all_zero(g1_y(pt)) ==> {
        &&& g1_x(r) == g1_x(pt)
        &&& be_value(g1_y(pt)) <= be_value(BN254_P@) ==> be_value(g1_y(r)) == be_value(BN254_P@) - be_value(g1_y(pt))
        &&& be_value(g1_y(pt)) > be_value(BN254_P@) ==> be_value(g1_y(r)) == be_value(BN254_P@) + pow256(32) - be_value(g1_y(pt))
    }
}

/// Whether the 32 bytes are all zero.
pub fn is_zero32(a: &[u8; 32]) -> (r: bool)
    ensures
        r == all_zero(a@),
{
    let mut i: usize = 0;
    while i < 32
        invariant
            0 <= i <= 32,
            forall|k: int| 0 <= k < i ==> a[k] == 0,
        decreases 32 - i,
    {
        if a[i] != 0 {
            return false;
        }
        i = i + 1;
    }
    true
}

/// Negates a G1 point given as big-endian X || Y: (x, y) becomes (x, p - y),
/// and the point at infinity stays 64 zero bytes.
pub fn negate_g1(point: &[u8; 64]) -> (r: [u8; 64])
    ensures
        is_g1_negation(point@, r@),
{
    let mut x: [u8; 32] = [0u8; 32];
    let mut y: [u8; 32] = [0u8; 32];
    let mut i: usize = 0;
    while i < 32
        invariant
            0 <= i <= 32,
            forall|k: int| 0 <= k < i ==> x[k] == point[k] && y[k] == point[k + 32],
        decreases 32 - i,
    {
        x[i] = point[i];
        y[i] = point[i + 32];
        i = i + 1;
    }
    assert(x@ =~= g1_x(point@));
    assert(y@ =~= g1_y(point@));
    if is_zero32(&y) {
        let z: [u8; 64] = [0u8; 64];
        return z;
    }
    let neg_y = field_sub_be(&BN254_P, &y);
    let mut result: [u8; 64] = [0u8; 64];
    let mut j: usize = 0;
    while j < 32
        invariant
            0 <= j <= 32,
            forall|k: int| 0 <= k < j ==> result[k] == x[k] && result[k + 32] == neg_y[k],
        decreases 32 - j,
    {
        result[j] = x[j];
        result[j + 32] = neg_y[j];
        j = j + 1;
    }
    assert(g1_x(result@) =~= x@);
    assert(g1_y(result@) =~= neg_y@);
    result
}

/// Negation of a G1 point is its own inverse: for a Y coordinate that is a
/// field element (below p) and not zero, negating twice gives the point back;
/// the point at infinity, 64 zero bytes, negates to itself.
pub proof fn lemma_negate_g1_involutive(pt: Seq<u8>, once: Seq<u8>, twice: Seq<u8>)
    requires
        pt.len() == 64,
        be_value(g1_y(pt)) < be_value(BN254_P@),
        is_g1_negation(pt, once),
        is_g1_negation(once, twice),
    ensures
        !all_zero(g1_y(pt)) ==> twice == pt,
        all_zero(pt) ==> once == pt,
{
    if !all_zero(g1_y(pt)) {
        let v1 = be_value(g1_y(once));
        assert(v1 > 0);
        if all_zero(g1_y(once)) {
            lemma_be_value_zero(g1_y(once));
        }
        lemma_be_value_injective(g1_y(twice), g1_y(pt));
        assert(twice =~= g1_x(twice) + g1_y(twice));
        assert(pt =~= g1_x(pt) + g1_y(pt));
    }
    if all_zero(pt) {
        assert(all_zero(g1_y(pt)));
        assert(once =~= pt);
    }
}

} // verus!
