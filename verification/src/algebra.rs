//! Modular-arithmetic facts about the discrete-logarithm model of the
//! group: how sums and scalar multiples of exponents reduce modulo the
//! group order.

use vstd::prelude::*;
use vstd::arithmetic::div_mod::lemma_add_mod_noop;
use vstd::arithmetic::div_mod::lemma_add_mod_noop_right;
use vstd::arithmetic::div_mod::lemma_mul_mod_noop_left;
use vstd::arithmetic::div_mod::lemma_small_mod;
use crate::group::add_mod;
use crate::group::sub_mod;
use crate::group::mul_mod;
use crate::group::group_order;

verus! {

/// Adding `b` back after subtracting it modulo the order restores `a`.
pub proof fn lemma_add_sub_cancel(a: nat, b: nat)
    requires
        a < group_order(),
    ensures
        add_mod(sub_mod(a, b), b) == a,
{
    let l = group_order() as int;
    lemma_add_mod_noop_right(b as int, a as int - b as int, l);
    assert((b + (a as int - b as int) % l) % l == (b + (a as int - b as int)) % l);
    assert(b + (a as int - b as int) == a as int);
    lemma_small_mod(a, group_order());
    assert((sub_mod(a, b) + b) % group_order() == add_mod(sub_mod(a, b), b));
}

/// Reduced values are fixed by a further reduction.
pub proof fn lemma_add_mod_small(a: nat)
    requires
        a < group_order(),
    ensures
        add_mod(a, 0) == a,
{
    lemma_small_mod(a, group_order());
}

/// One is neutral for reduced multiplication.
pub proof fn lemma_mul_mod_one(h: nat)
    requires
        h < group_order(),
    ensures
        mul_mod(1, h) == h,
{
    lemma_small_mod(h, group_order());
}

/// Multiplication by a fixed exponent distributes over reduced addition.
pub proof fn lemma_mul_mod_dist(a: nat, b: nat, h: nat)
    ensures
        mul_mod(add_mod(a, b), h) == add_mod(mul_mod(a, h), mul_mod(b, h)),
{
    let l = group_order() as int;
    lemma_mul_mod_noop_left((a + b) as int, h as int, l);
    assert((a + b) * h == a * h + b * h) by (nonlinear_arith);
    lemma_add_mod_noop((a * h) as int, (b * h) as int, l);
}

/// Reducing either summand first does not change a reduced sum.
pub proof fn lemma_add_mod_noop_both(a: nat, b: nat)
    ensures
        add_mod(a % group_order(), b % group_order()) == add_mod(a, b),
        add_mod(a % group_order(), b) == add_mod(a, b),
        add_mod(a, b % group_order()) == add_mod(a, b),
{
    let l = group_order() as int;
    lemma_add_mod_noop(a as int, b as int, l);
    lemma_add_mod_noop_right(a as int, b as int, l);
    lemma_add_mod_noop_right(b as int, a as int, l);
}

}
