//! Non-interactive Σ-protocol transcripts asserting that a commitment
//! opens to a bit, made non-interactive with a Fiat–Shamir challenge.
//!
//! A transcript `(com, a0, a1, c, c0, c1, z0, z1)` is accepted when the
//! challenge `c` is the hash of `(com, a0, a1)` under domain separation,
//! the sub-challenges `c0 + c1` recompose `c`, and the two branch
//! equations `z0*h == a0 + c0*com` and `z1*h == a1 + c1*(com - g)` hold.
//! The prover commits to the noise bit in the blinding slot, `com =
//! Commit(0, bit) = bit*h`, answers the branch for the committed value
//! zero honestly and simulates the other branch.

use vstd::prelude::*;
use crate::numeric::le_val;
use crate::group::group_order;
use crate::group::add_mod;
use crate::group::sub_mod;
use crate::group::mul_mod;
use crate::group::scalar_v;
use crate::group::point_v;
use crate::group::point_enc;
use crate::group::hash_64_of;
use crate::group::scalar_random;
use crate::group::scalar_add;
use crate::group::scalar_sub;
use crate::group::scalar_eq;
use crate::group::scalar_from_u64;
use crate::group::scalar_from_wide_bytes;
use crate::group::sha512_bytes;
use crate::group::basepoint;
use crate::group::point_add;
use crate::group::point_sub;
use crate::group::point_mul;
use crate::group::point_eq;
use crate::group::point_compress;
use crate::algebra::lemma_add_sub_cancel;
use crate::algebra::lemma_mul_mod_dist;
use crate::algebra::lemma_add_mod_small;

verus! {

/// A proof-of-bit transcript.
pub struct ProofOfBit {
    pub com: curve25519_dalek::ristretto::RistrettoPoint,
    pub a0: curve25519_dalek::ristretto::RistrettoPoint,
    pub a1: curve25519_dalek::ristretto::RistrettoPoint,
    pub c: curve25519_dalek::scalar::Scalar,
    pub c0: curve25519_dalek::scalar::Scalar,
    pub c1: curve25519_dalek::scalar::Scalar,
    pub z0: curve25519_dalek::scalar::Scalar,
    pub z1: curve25519_dalek::scalar::Scalar,
}

/// Domain-separation prefix of the challenge hash.
pub open spec fn domain_tag() -> Seq<u8> {
    seq![100u8, 112u8, 98u8, 105u8, 116u8]
}

/// The byte string whose hash is the challenge.
pub open spec fn challenge_input(comb: Seq<u8>, a0b: Seq<u8>, a1b: Seq<u8>) -> Seq<u8> {
    domain_tag() + comb + a0b + a1b
}

/// The Fiat–Shamir challenge determined by the three announcement points.
pub open spec fn challenge_of(cv: nat, a0v: nat, a1v: nat) -> nat {
    le_val(hash_64_of(challenge_input(point_enc(cv), point_enc(a0v), point_enc(a1v))))
        % group_order()
}

/// The verification equations, over the discrete-logarithm model; `h` is
/// the discrete logarithm of the second generator.
pub open spec fn transcript_checks(t: ProofOfBit, h: nat) -> bool {
    &&& scalar_v(t.c) == challenge_of(point_v(t.com), point_v(t.a0), point_v(t.a1))
    &&& add_mod(scalar_v(t.c0), scalar_v(t.c1)) == scalar_v(t.c)
    &&& mul_mod(scalar_v(t.z0), h) == add_mod(point_v(t.a0), mul_mod(scalar_v(t.c0), point_v(t.com)))
    &&& mul_mod(scalar_v(t.z1), h) == add_mod(
        point_v(t.a1),
        mul_mod(scalar_v(t.c1), sub_mod(point_v(t.com), 1)),
    )
}

/// Recomputes the Fiat–Shamir challenge of a transcript's announcements.
fn challenge_scalar(
    com: &curve25519_dalek::ristretto::RistrettoPoint,
    a0: &curve25519_dalek::ristretto::RistrettoPoint,
    a1: &curve25519_dalek::ristretto::RistrettoPoint,
) -> (r: curve25519_dalek::scalar::Scalar)
    ensures
        scalar_v(r) == challenge_of(point_v(*com), point_v(*a0), point_v(*a1)),
        scalar_v(r) < group_order(),
{
    let mut m: Vec<u8> = Vec::new();
    m.push(100u8);
    m.push(112u8);
    m.push(98u8);
    m.push(105u8);
    m.push(116u8);
    let mut comb = point_compress(com);
    m.append(&mut comb);
    let mut a0b = point_compress(a0);
    m.append(&mut a0b);
    let mut a1b = point_compress(a1);
    m.append(&mut a1b);
    proof {
        assert(m@ =~= challenge_input(
            point_enc(point_v(*com)),
            point_enc(point_v(*a0)),
            point_enc(point_v(*a1)),
        ));
    }
    let digest = sha512_bytes(&m);
    scalar_from_wide_bytes(&digest)
}

/// Produces a transcript for the commitment `Commit(0, bit) = bit * h`.
/// The transcript satisfies the verification equations, so an honest
/// participant's proof always verifies.
pub fn create_proof_0(
    bit: u8,
    h: &curve25519_dalek::ristretto::RistrettoPoint,
) -> (t: ProofOfBit)
    requires
        bit <= 1,
        point_v(*h) < group_order(),
    ensures
        point_v(t.com) == mul_mod(bit as nat, point_v(*h)),
        transcript_checks(t, point_v(*h)),
{
    let ghost hv = point_v(*h);
    let bit_scalar = scalar_from_u64(bit as u64);
    let com = point_mul(&bit_scalar, h);
    let w = scalar_random();
    let a0 = point_mul(&w, h);
    let c1 = scalar_random();
    let z1 = scalar_random();
    let g = basepoint();
    let com_minus_g = point_sub(&com, &g);
    let a1 = point_sub(&point_mul(&z1, h), &point_mul(&c1, &com_minus_g));
    let c = challenge_scalar(&com, &a0, &a1);
    let c0 = scalar_sub(&c, &c1);
    let z0 = if bit == 1 {
        scalar_add(&w, &c0)
    } else {
        w
    };
    let t = ProofOfBit { com, a0, a1, c, c0, c1, z0, z1 };
    proof {
        lemma_add_sub_cancel(scalar_v(t.c), scalar_v(t.c1));
        lemma_add_sub_cancel(mul_mod(scalar_v(t.z1), hv),
            mul_mod(scalar_v(t.c1), sub_mod(point_v(t.com), 1)));
        vstd::arithmetic::div_mod::lemma_small_mod(hv, group_order());
        vstd::arithmetic::div_mod::lemma_small_mod(0, group_order());
        if bit == 1 {
            lemma_mul_mod_dist(scalar_v(w), scalar_v(t.c0), hv);
            crate::algebra::lemma_mul_mod_one(hv);
        } else {
            assert(mul_mod(0, hv) == 0);
            assert(point_v(t.com) == 0);
            assert(mul_mod(scalar_v(t.c0), 0) == 0);
            lemma_add_mod_small(mul_mod(scalar_v(w), hv));
        }
    }
    t
}

/// The verifier's acceptance decision: recomputes the challenge and checks
/// the recomposition and the two branch equations.
pub fn verify_bit_proof(
    t: &ProofOfBit,
    h: &curve25519_dalek::ristretto::RistrettoPoint,
) -> (r: bool)
    ensures
        r == transcript_checks(*t, point_v(*h)),
{
    let ch = challenge_scalar(&t.com, &t.a0, &t.a1);
    let ok_challenge = scalar_eq(&ch, &t.c);
    let csum = scalar_add(&t.c0, &t.c1);
    let ok_split = scalar_eq(&csum, &t.c);
    let lhs0 = point_mul(&t.z0, h);
    let rhs0 = point_add(&t.a0, &point_mul(&t.c0, &t.com));
    let ok_branch0 = point_eq(&lhs0, &rhs0);
    let g = basepoint();
    let com_minus_g = point_sub(&t.com, &g);
    let lhs1 = point_mul(&t.z1, h);
    let rhs1 = point_add(&t.a1, &point_mul(&t.c1, &com_minus_g));
    let ok_branch1 = point_eq(&lhs1, &rhs1);
    ok_challenge && ok_split && ok_branch0 && ok_branch1
}

}
