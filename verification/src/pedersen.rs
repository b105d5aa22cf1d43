//! Pedersen commitments over the group, and the algebra of their sums.
//!
//! `commit(x, r) = x*g + r*h` with `g` the canonical basepoint and `h` a
//! second generator of unknown discrete logarithm.  In the
//! discrete-logarithm model a commitment is `pcommit(x, r, h) = (x + h*r)
//! mod order`, and sums of commitments are governed by the homomorphism
//! lemma below.

use vstd::prelude::*;
use vstd::arithmetic::div_mod::lemma_add_mod_noop;
use vstd::arithmetic::div_mod::lemma_add_mod_noop_right;
use vstd::arithmetic::div_mod::lemma_sub_mod_noop;
use vstd::arithmetic::div_mod::lemma_mul_mod_noop_right;
use vstd::arithmetic::div_mod::lemma_mod_equivalence;
use vstd::arithmetic::div_mod::lemma_small_mod;
use crate::numeric::sum_seq;
use crate::group::group_order;
use crate::group::add_mod;
use crate::group::sub_mod;
use crate::group::mul_mod;
use crate::group::pcommit;
use crate::group::scalar_v;
use crate::group::point_v;
use crate::group::basepoint;
use crate::group::point_add;
use crate::group::point_mul;

verus! {

/// The (unreduced) sum of the discrete logarithms of the commitments
/// `Commit(vals[i], blinds[i])`.
pub open spec fn sum_dlogs(vals: Seq<nat>, blinds: Seq<nat>, h: nat) -> nat
    decreases vals.len(),
{
    if vals.len() == 0 || blinds.len() == 0 {
        0
    } else {
        sum_dlogs(vals.drop_last(), blinds.drop_last(), h) + pcommit(
            vals.last(),
            blinds.last(),
            h,
        )
    }
}

pub proof fn lemma_sum_dlogs_push(vals: Seq<nat>, blinds: Seq<nat>, h: nat, v: nat, b: nat)
    requires
        vals.len() == blinds.len(),
    ensures
        sum_dlogs(vals.push(v), blinds.push(b), h) == sum_dlogs(vals, blinds, h) + pcommit(
            v,
            b,
            h,
        ),
{
    assert(vals.push(v).drop_last() =~= vals);
    assert(blinds.push(b).drop_last() =~= blinds);
}

/// Homomorphism of Pedersen commitments: a sum of commitments is a
/// commitment to the summed values under the summed blindings.  For any
/// value and blinding sequences of one length, the summed discrete
/// logarithms reduce to `pcommit` of the two sums.
pub proof fn lemma_sum_dlogs_total(vals: Seq<nat>, blinds: Seq<nat>, h: nat)
    requires
        vals.len() == blinds.len(),
    ensures
        sum_dlogs(vals, blinds, h) % group_order() == pcommit(sum_seq(vals), sum_seq(blinds), h),
    decreases vals.len(),
{
    let l = group_order();
    if vals.len() == 0 {
        assert(h * 0 == 0) by (nonlinear_arith);
    } else {
        let v = vals.last();
        let b = blinds.last();
        let vs = vals.drop_last();
        let bs = blinds.drop_last();
        lemma_sum_dlogs_total(vs, bs, h);
        let sp = sum_dlogs(vs, bs, h);
        let x = (v + h * b) as int;
        let big = (sum_seq(vs) + h * sum_seq(bs)) as int;
        lemma_add_mod_noop(sp as int, x, l as int);
        lemma_add_mod_noop(big, x, l as int);
        assert(h * (sum_seq(bs) + b) == h * sum_seq(bs) + h * b) by (nonlinear_arith);
    }
}

/// The final soundness identity: committing to `x + sum(cv)` under
/// blinding `r + sum(cb)` yields the same group element as adding the
/// commitment to `(x, r)` and the commitments to `(cv[i], cb[i])`.
pub proof fn lemma_identity_core(x: nat, r: nat, cv: Seq<nat>, cb: Seq<nat>, h: nat)
    requires
        cv.len() == cb.len(),
    ensures
        pcommit(add_mod(x, sum_seq(cv)), add_mod(r, sum_seq(cb)), h) == add_mod(
            (x + h * r) as nat,
            sum_dlogs(cv, cb, h),
        ),
{
    let l = group_order();
    let sv = sum_seq(cv);
    let sb = sum_seq(cb);
    let sd = sum_dlogs(cv, cb, h);
    let xx = (x + sv) as int;
    let bb = (h * (((r + sb) as nat) % l)) as int;
    let bb2 = (h * (r + sb)) as int;
    lemma_mul_mod_noop_right(h as int, (r + sb) as int, l as int);
    lemma_add_mod_noop_right(bb, xx, l as int);
    assert((bb + xx % (l as int)) % (l as int) == (bb + xx) % (l as int));
    lemma_add_mod_noop_right(xx, bb, l as int);
    lemma_add_mod_noop_right(xx, bb2, l as int);
    assert((xx + bb) % (l as int) == (xx + bb2) % (l as int));
    assert(h * (r + sb) == h * r + h * sb) by (nonlinear_arith);
    lemma_add_mod_noop_right((x + h * r) as int, sd as int, l as int);
    lemma_sum_dlogs_total(cv, cb, h);
    lemma_add_mod_noop_right((x + h * r) as int, (sv + h * sb) as int, l as int);
}

/// Equal reduced sums with one common summand force equal small addends.
pub proof fn lemma_mod_add_cancel(a: nat, b: nat, c: nat)
    requires
        a < group_order(),
        b < group_order(),
        add_mod(a, c) == add_mod(b, c),
    ensures
        a == b,
{
    let l = group_order() as int;
    lemma_mod_equivalence((a + c) as int, (b + c) as int, l);
    assert(((a + c) - (b + c)) % l == (a as int - b as int) % l);
    lemma_mod_equivalence(a as int, b as int, l);
    lemma_small_mod(a, group_order());
    lemma_small_mod(b, group_order());
}

/// Reducing the blinding first does not change the commitment.
pub proof fn lemma_pcommit_blind_mod(x: nat, r: nat, h: nat)
    ensures
        pcommit(x, r % group_order(), h) == pcommit(x, r, h),
{
    let l = group_order() as int;
    lemma_mul_mod_noop_right(h as int, r as int, l);
    lemma_add_mod_noop_right(x as int, (h * (r % group_order())) as int, l);
    lemma_add_mod_noop_right(x as int, (h * r) as int, l);
}

/// A commitment to zero under blinding `b` is the `b`-multiple of `h`.
pub proof fn lemma_pcommit_blind_only(b: nat, h: nat)
    ensures
        pcommit(0, b, h) == mul_mod(b, h),
{
    assert(h * b == b * h) by (nonlinear_arith);
}

/// Subtracting a blinding-slot commitment to `nb` from `Commit(1, 1)`
/// yields a commitment to one under the flipped blinding `1 - nb`.
pub proof fn lemma_flip_commit(nb: nat, h: nat)
    requires
        nb <= 1,
        h < group_order(),
    ensures
        sub_mod(pcommit(1, 1, h), mul_mod(nb, h)) == pcommit(1, (1 - nb) as nat, h),
{
    let l = group_order() as int;
    lemma_sub_mod_noop((1 + h * 1) as int, (nb * h) as int, l);
    if nb == 0 {
        assert(nb * h == 0) by (nonlinear_arith)
            requires
                nb == 0,
        ;
    } else {
        assert(nb * h == h) by (nonlinear_arith)
            requires
                nb == 1,
        ;
        assert(((1 + h * 1) - (h as int)) % l == 1int % l);
        lemma_small_mod(1, group_order());
        assert(h * ((1 - nb) as nat) == 0) by (nonlinear_arith)
            requires
                nb == 1,
        ;
    }
}

/// The Pedersen commitment `x*g + r*h`.
pub fn commit(
    x: &curve25519_dalek::scalar::Scalar,
    r: &curve25519_dalek::scalar::Scalar,
    h: &curve25519_dalek::ristretto::RistrettoPoint,
) -> (c: curve25519_dalek::ristretto::RistrettoPoint)
    requires
        scalar_v(*x) < group_order(),
        point_v(*h) < group_order(),
    ensures
        point_v(c) == pcommit(scalar_v(*x), scalar_v(*r), point_v(*h)),
        point_v(c) < group_order(),
{
    let g = basepoint();
    let xg = point_mul(x, &g);
    let rh = point_mul(r, h);
    let c = point_add(&xg, &rh);
    proof {
        let l = group_order();
        let xv = scalar_v(*x);
        let rv = scalar_v(*r);
        let hv = point_v(*h);
        assert(xv * 1 == xv) by (nonlinear_arith);
        lemma_small_mod(xv, l);
        lemma_add_mod_noop_right(xv as int, (rv * hv) as int, l as int);
        assert(rv * hv == hv * rv) by (nonlinear_arith);
    }
    c
}

}
