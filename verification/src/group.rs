//! The prime-order group underlying the commitments, with its scalar field.
//!
//! The group is the Ristretto group over Curve25519, supplied by
//! `curve25519_dalek`; it is cyclic of prime order `group_order()` and is
//! generated by the canonical basepoint `g`.  Every group element therefore
//! equals `d * g` for exactly one `d` below the order, and the uninterpreted
//! function [`point_v`] maps each element to that discrete logarithm.
//! Likewise every scalar is kept by the crate in canonical reduced form, and
//! [`scalar_v`] maps it to its value.  The wrappers below state, over those
//! two maps, exactly what the called operations do.

use vstd::prelude::*;
use crate::numeric::le_val;
use crate::numeric::dec_str;
use sha2::Digest;
use curve25519_dalek::traits::Identity;

verus! {

#[verifier::external_type_specification]
#[verifier::external_body]
pub struct ExScalar(curve25519_dalek::scalar::Scalar);

#[verifier::external_type_specification]
#[verifier::external_body]
pub struct ExRistrettoPoint(curve25519_dalek::ristretto::RistrettoPoint);

#[verifier::external_type_specification]
#[verifier::external_body]
pub struct ExBigUint(num_bigint::BigUint);

/// The order of the Ristretto group and of its scalar field:
/// 2^252 + 27742317777372353535851937790883648493, a prime.
pub open spec fn group_order() -> nat {
    7237005577332262213973186563042994240857116359379907606001950938285454250989nat
}

/// The value of a scalar: dalek keeps scalars reduced, so this is the unique
/// representative below `group_order()`.
pub uninterp spec fn scalar_v(s: curve25519_dalek::scalar::Scalar) -> nat;

/// The discrete logarithm of a group element with respect to the canonical
/// basepoint: the unique exponent below `group_order()`.
pub uninterp spec fn point_v(p: curve25519_dalek::ristretto::RistrettoPoint) -> nat;

/// The natural number held by a `BigUint`.
pub uninterp spec fn biguint_v(n: num_bigint::BigUint) -> nat;

/// The 64-byte SHA-512 digest of a byte string.
pub uninterp spec fn hash_64_of(input: Seq<u8>) -> Seq<u8>;

/// The canonical compressed encoding of the group element with discrete
/// logarithm `d`; compression is a function of the element alone.
pub uninterp spec fn point_enc(d: nat) -> Seq<u8>;

/// The discrete logarithm of the element obtained by hashing 64 uniform
/// bytes to the group; the map is a function of the bytes alone.
pub uninterp spec fn uniform_point_of(b: Seq<u8>) -> nat;

pub open spec fn add_mod(a: nat, b: nat) -> nat {
    (a + b) % group_order()
}

pub open spec fn sub_mod(a: nat, b: nat) -> nat {
    (((a as int) - (b as int)) % (group_order() as int)) as nat
}

pub open spec fn mul_mod(a: nat, b: nat) -> nat {
    (a * b) % group_order()
}

/// The discrete logarithm of the Pedersen commitment `x*g + r*h`, where `h`
/// is the discrete logarithm of the second generator.
pub open spec fn pcommit(x: nat, r: nat, h: nat) -> nat {
    (x + h * r) % group_order()
}

/// Relies on `curve25519_dalek::scalar::Scalar::ZERO`.
#[verifier::external_body]
pub(crate) fn scalar_zero() -> (r: curve25519_dalek::scalar::Scalar)
    ensures
        scalar_v(r) == 0,
{
    curve25519_dalek::scalar::Scalar::ZERO
}

/// Relies on `curve25519_dalek::scalar::Scalar::ONE`.
#[verifier::external_body]
pub(crate) fn scalar_one() -> (r: curve25519_dalek::scalar::Scalar)
    ensures
        scalar_v(r) == 1,
{
    curve25519_dalek::scalar::Scalar::ONE
}

/// Relies on `From<u64> for Scalar`: values below 2^64 are below the group
/// order, so the scalar holds exactly `x`.
#[verifier::external_body]
pub(crate) fn scalar_from_u64(x: u64) -> (r: curve25519_dalek::scalar::Scalar)
    ensures
        scalar_v(r) == x as nat,
        scalar_v(r) < group_order(),
{
    curve25519_dalek::scalar::Scalar::from(x)
}

/// Relies on `Add for Scalar`: addition modulo the group order, reduced.
#[verifier::external_body]
pub(crate) fn scalar_add(
    a: &curve25519_dalek::scalar::Scalar,
    b: &curve25519_dalek::scalar::Scalar,
) -> (r: curve25519_dalek::scalar::Scalar)
    ensures
        scalar_v(r) == add_mod(scalar_v(*a), scalar_v(*b)),
        scalar_v(r) < group_order(),
{
    a + b
}

/// Relies on `Sub for Scalar`: subtraction modulo the group order, reduced.
#[verifier::external_body]
pub(crate) fn scalar_sub(
    a: &curve25519_dalek::scalar::Scalar,
    b: &curve25519_dalek::scalar::Scalar,
) -> (r: curve25519_dalek::scalar::Scalar)
    ensures
        scalar_v(r) == sub_mod(scalar_v(*a), scalar_v(*b)),
        scalar_v(r) < group_order(),
{
    a - b
}

/// Relies on `Scalar::random`, which reduces 64 bytes from the operating
/// system's entropy source modulo the group order.  Nothing is promised of
/// the outcome beyond its range.
#[verifier::external_body]
pub(crate) fn scalar_random() -> (r: curve25519_dalek::scalar::Scalar)
    ensures
        scalar_v(r) < group_order(),
{
    curve25519_dalek::scalar::Scalar::random(&mut rand_core::OsRng)
}

/// Relies on `PartialEq for Scalar`: scalars are canonical, so byte equality
/// is value equality.
#[verifier::external_body]
pub(crate) fn scalar_eq(
    a: &curve25519_dalek::scalar::Scalar,
    b: &curve25519_dalek::scalar::Scalar,
) -> (r: bool)
    ensures
        r <==> scalar_v(*a) == scalar_v(*b),
{
    a == b
}

/// Relies on `Scalar::to_bytes`: the canonical 32-byte little-endian
/// encoding of the reduced value.
#[verifier::external_body]
pub(crate) fn scalar_to_bytes(s: &curve25519_dalek::scalar::Scalar) -> (r: Vec<u8>)
    ensures
        r@.len() == 32,
        le_val(r@) == scalar_v(*s),
{
    s.to_bytes().to_vec()
}

/// Relies on `Scalar::from_bytes_mod_order_wide`: reduces a 512-bit
/// little-endian integer modulo the group order.
#[verifier::external_body]
pub(crate) fn scalar_from_wide_bytes(b: &Vec<u8>) -> (r: curve25519_dalek::scalar::Scalar)
    requires
        b@.len() == 64,
    ensures
        scalar_v(r) == le_val(b@) % group_order(),
        scalar_v(r) < group_order(),
{
    let wide: [u8; 64] = b.as_slice().try_into().unwrap();
    curve25519_dalek::scalar::Scalar::from_bytes_mod_order_wide(&wide)
}

/// Relies on `sha2::Sha512::digest`: the 64-byte SHA-512 digest, a function
/// of the input alone.
#[verifier::external_body]
pub(crate) fn sha512_bytes(input: &Vec<u8>) -> (r: Vec<u8>)
    ensures
        r@ == hash_64_of(input@),
        r@.len() == 64,
{
    sha2::Sha512::digest(input.as_slice()).to_vec()
}

/// Relies on `constants::RISTRETTO_BASEPOINT_POINT`, the canonical
/// generator: its discrete logarithm with respect to itself is one.
#[verifier::external_body]
pub(crate) fn basepoint() -> (r: curve25519_dalek::ristretto::RistrettoPoint)
    ensures
        point_v(r) == 1,
{
    curve25519_dalek::constants::RISTRETTO_BASEPOINT_POINT
}

/// Relies on `RistrettoPoint::identity`: the neutral element, of discrete
/// logarithm zero.
#[verifier::external_body]
pub(crate) fn point_identity() -> (r: curve25519_dalek::ristretto::RistrettoPoint)
    ensures
        point_v(r) == 0,
{
    curve25519_dalek::ristretto::RistrettoPoint::identity()
}

/// Relies on `RistrettoPoint::from_uniform_bytes`: a hash-to-group map that
/// depends on the 64 input bytes alone.
#[verifier::external_body]
pub(crate) fn point_from_uniform_bytes(b: &Vec<u8>) -> (r:
    curve25519_dalek::ristretto::RistrettoPoint)
    requires
        b@.len() == 64,
    ensures
        point_v(r) == uniform_point_of(b@),
        point_v(r) < group_order(),
{
    let wide: [u8; 64] = b.as_slice().try_into().unwrap();
    curve25519_dalek::ristretto::RistrettoPoint::from_uniform_bytes(&wide)
}

/// Relies on `Add for RistrettoPoint`: group addition adds discrete
/// logarithms modulo the group order.
#[verifier::external_body]
pub(crate) fn point_add(
    p: &curve25519_dalek::ristretto::RistrettoPoint,
    q: &curve25519_dalek::ristretto::RistrettoPoint,
) -> (r: curve25519_dalek::ristretto::RistrettoPoint)
    ensures
        point_v(r) == add_mod(point_v(*p), point_v(*q)),
        point_v(r) < group_order(),
{
    p + q
}

/// Relies on `Sub for RistrettoPoint`: group subtraction subtracts discrete
/// logarithms modulo the group order.
#[verifier::external_body]
pub(crate) fn point_sub(
    p: &curve25519_dalek::ristretto::RistrettoPoint,
    q: &curve25519_dalek::ristretto::RistrettoPoint,
) -> (r: curve25519_dalek::ristretto::RistrettoPoint)
    ensures
        point_v(r) == sub_mod(point_v(*p), point_v(*q)),
        point_v(r) < group_order(),
{
    p - q
}

/// Relies on `Mul<&RistrettoPoint> for &Scalar`: scalar multiplication
/// multiplies the discrete logarithm by the scalar, modulo the group order.
#[verifier::external_body]
pub(crate) fn point_mul(
    s: &curve25519_dalek::scalar::Scalar,
    p: &curve25519_dalek::ristretto::RistrettoPoint,
) -> (r: curve25519_dalek::ristretto::RistrettoPoint)
    ensures
        point_v(r) == mul_mod(scalar_v(*s), point_v(*p)),
        point_v(r) < group_order(),
{
    s * p
}

/// Relies on `PartialEq for RistrettoPoint`: equality of group elements,
/// which the discrete-logarithm map reflects exactly.
#[verifier::external_body]
pub(crate) fn point_eq(
    p: &curve25519_dalek::ristretto::RistrettoPoint,
    q: &curve25519_dalek::ristretto::RistrettoPoint,
) -> (r: bool)
    ensures
        r <==> point_v(*p) == point_v(*q),
{
    p == q
}

/// Relies on `RistrettoPoint::compress`: the canonical 32-byte encoding, a
/// function of the group element alone.
#[verifier::external_body]
pub(crate) fn point_compress(p: &curve25519_dalek::ristretto::RistrettoPoint) -> (r: Vec<u8>)
    ensures
        r@ == point_enc(point_v(*p)),
        r@.len() == 32,
{
    p.compress().to_bytes().to_vec()
}

/// Relies on `BigUint::from_bytes_le`: reads a little-endian byte string as
/// an unbounded unsigned integer.
#[verifier::external_body]
pub(crate) fn biguint_from_bytes_le(b: &Vec<u8>) -> (r: num_bigint::BigUint)
    ensures
        biguint_v(r) == le_val(b@),
{
    num_bigint::BigUint::from_bytes_le(b.as_slice())
}

/// Relies on `BigUint::to_str_radix` with radix ten: the decimal rendering,
/// without leading zeros and with `"0"` for zero.
#[verifier::external_body]
pub(crate) fn biguint_to_decimal(n: &num_bigint::BigUint) -> (r: String)
    ensures
        r@ == dec_str(biguint_v(*n)),
{
    n.to_str_radix(10)
}

/// Relies on `coinflip::flip`, a fair public coin; nothing is promised of
/// the outcome.
pub assume_specification[ coinflip::flip ]() -> (r: bool);

/// Relies on `rand::random`; nothing is promised of the outcome.
pub assume_specification<T>[ rand::random::<T> ]() -> (r: T)
    where
        rand::distributions::Standard: rand::distributions::Distribution<T>,
;

}
