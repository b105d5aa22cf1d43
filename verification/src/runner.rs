//! The participant session: a state machine that commits input bits,
//! gathers noise in one of two modes, and produces the final soundness
//! evidence.
//!
//! The session moves strictly forward: inputs are committed at creation;
//! the first randomness call chooses the noise mode (unbiased coin-flip
//! XOR, or biased range sampling); the effective noise bits may then be
//! overwritten once (the adversarial surface); the sum step fixes the
//! claimed scalars; and the final step produces the two group elements
//! `lhs = Commit(finalX, finalZ)` and `rhs = comsSum + sum(xorCom)` whose
//! equality is the sole soundness gate.  A transition attempted out of
//! order fails with [`ProtocolError::OutOfOrder`] and changes nothing.

use vstd::prelude::*;
use vstd::arithmetic::div_mod::lemma_small_mod;
use crate::numeric::le_val;
use crate::numeric::dec_str;
use crate::numeric::sum_seq;
use crate::numeric::nat_seq;
use crate::numeric::all_bits;
use crate::numeric::lemma_sum_push;
use crate::group::group_order;
use crate::group::add_mod;
use crate::group::mul_mod;
use crate::group::pcommit;
use crate::group::scalar_v;
use crate::group::point_v;
use crate::group::point_enc;
use crate::group::scalar_zero;
use crate::group::scalar_one;
use crate::group::scalar_from_u64;
use crate::group::scalar_add;
use crate::group::scalar_random;
use crate::group::scalar_to_bytes;
use crate::group::point_identity;
use crate::group::point_from_uniform_bytes;
use crate::group::point_add;
use crate::group::point_sub;
use crate::group::point_eq;
use crate::group::point_compress;
use crate::group::biguint_from_bytes_le;
use crate::group::biguint_to_decimal;
use crate::algebra::lemma_add_mod_noop_both;
use crate::pedersen::commit;
use crate::pedersen::sum_dlogs;
use crate::pedersen::lemma_sum_dlogs_push;
use crate::pedersen::lemma_sum_dlogs_total;
use crate::pedersen::lemma_identity_core;
use crate::pedersen::lemma_mod_add_cancel;
use crate::pedersen::lemma_pcommit_blind_only;
use crate::pedersen::lemma_flip_commit;
use crate::sigma::create_proof_0;
use crate::sigma::verify_bit_proof;

verus! {

/// The phases of one session, entered in order and each at most once.
#[derive(Clone, Copy, Debug, PartialEq, Eq, Structural)]
pub enum SessionState {
    InputsCommitted,
    RangesOpen,
    NoiseCommitted,
    SumComputed,
    FinalCommitted,
}

/// A transition was attempted out of state-machine order.
#[derive(Clone, Copy, Debug, PartialEq, Eq, Structural)]
pub enum ProtocolError {
    OutOfOrder,
}

/// A sequence of bytes, each forced to a bit: one stays one, everything
/// else becomes zero.
pub open spec fn norm01(s: Seq<u8>) -> Seq<nat> {
    s.map_values(|b: u8| if b == 1 { 1nat } else { 0nat })
}

/// A sequence of bytes, each forced to a bit: zero stays zero, everything
/// else becomes one.
pub open spec fn normnz(s: Seq<u8>) -> Seq<nat> {
    s.map_values(|b: u8| if b == 0 { 0nat } else { 1nat })
}

/// The values of a sequence of scalars.
pub open spec fn scalars_v(s: Seq<curve25519_dalek::scalar::Scalar>) -> Seq<nat> {
    s.map_values(|x: curve25519_dalek::scalar::Scalar| scalar_v(x))
}

/// Pointwise exclusive-or of two bit sequences: where the coin `b` is
/// one the bit `a` flips, elsewhere it is kept.
pub open spec fn xor_seq(a: Seq<nat>, b: Seq<nat>) -> Seq<nat> {
    Seq::new(a.len(), |i: int| if b[i] == 1 { (1 - a[i]) as nat } else { a[i] })
}

/// One participant session of the binomial-noise mechanism.
pub struct BinomialRunner {
    /// Second generator, derived from a fixed seed by hash-to-group.
    pub h: curve25519_dalek::ristretto::RistrettoPoint,
    /// `Commit(x[i], r[i])` for each input bit.
    pub input_commitments: Vec<curve25519_dalek::ristretto::RistrettoPoint>,
    /// Sum of the input commitments.
    pub coms_sum: curve25519_dalek::ristretto::RistrettoPoint,
    /// Sum of the input bits, as a scalar.
    pub x_sum: curve25519_dalek::scalar::Scalar,
    /// Sum of the input blindings.
    pub r_sum: curve25519_dalek::scalar::Scalar,
    /// Sum of the input bits, as an integer.
    pub x_count: u64,
    /// Private noise bits (unbiased mode).
    pub private_bits: Vec<u8>,
    /// Commitments to the private noise bits.
    pub private_commits: Vec<curve25519_dalek::ristretto::RistrettoPoint>,
    /// Public coin outcomes, one per noise bit (unbiased mode).
    pub public_bits: Vec<u8>,
    /// Effective noise bits after the public-coin adjustment; the
    /// cheat surface may overwrite them wholesale.
    pub xor_bits: Vec<u8>,
    /// Commitments to the effective noise, never overwritten.
    pub xor_commits: Vec<curve25519_dalek::ristretto::RistrettoPoint>,
    /// Scalar committed on the left of the final identity.
    pub final_x: curve25519_dalek::scalar::Scalar,
    /// Blinding committed on the left of the final identity.
    pub final_z: curve25519_dalek::scalar::Scalar,
    /// `Commit(final_x, final_z)`.
    pub lhs: curve25519_dalek::ristretto::RistrettoPoint,
    /// `coms_sum` plus the sum of the noise commitments.
    pub rhs: curve25519_dalek::ristretto::RistrettoPoint,
    /// Number of accepted range submissions (biased mode).
    pub var_p_in_count: usize,
    /// Declared number of range submissions (biased mode).
    pub var_p_n: i32,
    /// Accepted range bit vectors.
    pub var_p_bits: Vec<Vec<u8>>,
    /// Per-bit commitments of each accepted range.
    pub var_p_coms: Vec<Vec<curve25519_dalek::ristretto::RistrettoPoint>>,
    /// Per-bit blindings of each accepted range.
    pub var_p_randomness: Vec<Vec<curve25519_dalek::scalar::Scalar>>,
    /// Blindings of the index selected from each range.
    pub var_p_randomness_final: Vec<curve25519_dalek::scalar::Scalar>,
    /// Whether the biased mode was chosen.
    pub var_p: bool,
    /// Current phase.
    pub state: SessionState,
    /// Model: the input bits.
    pub x_vals: Ghost<Seq<nat>>,
    /// Model: the input blinding values.
    pub r_vals: Ghost<Seq<nat>>,
    /// Model: the bit selected from each range (biased mode).
    pub sel_vals: Ghost<Seq<nat>>,
}

impl BinomialRunner {
    /// The committed value inside each noise commitment: the public coin
    /// in unbiased mode, the selected range bit in biased mode.
    pub open spec fn committed_vals(self) -> Seq<nat> {
        if self.var_p {
            self.sel_vals@
        } else {
            nat_seq(self.public_bits@)
        }
    }

    /// The blinding inside each noise commitment: the effective noise bit
    /// in unbiased mode, the selected blinding in biased mode.
    pub open spec fn committed_blinds(self) -> Seq<nat> {
        if self.var_p {
            scalars_v(self.var_p_randomness_final@)
        } else {
            xor_seq(nat_seq(self.private_bits@), nat_seq(self.public_bits@))
        }
    }

    /// The effective noise bits still match what was committed: in
    /// unbiased mode they are the committed blindings, in biased mode the
    /// committed values.  Overwriting the noise bits breaks this.
    pub open spec fn noise_consistent(self) -> bool {
        if self.var_p {
            nat_seq(self.xor_bits@) == self.committed_vals()
        } else {
            nat_seq(self.xor_bits@) == self.committed_blinds()
        }
    }

    /// Input aggregates: every commitment opens to its bit, and the three
    /// running sums agree with the model.
    pub open spec fn inputs_wf(self) -> bool {
        let n = self.input_commitments@.len();
        let h = point_v(self.h);
        &&& h < group_order()
        &&& self.x_vals@.len() == n
        &&& self.r_vals@.len() == n
        &&& all_bits(self.x_vals@)
        &&& (forall|i: int| 0 <= i < n ==> self.r_vals@[i] < group_order())
        &&& (forall|i: int|
            0 <= i < n ==> point_v(self.input_commitments@[i]) == pcommit(
                self.x_vals@[i],
                self.r_vals@[i],
                h,
            ))
        &&& self.x_count as nat == sum_seq(self.x_vals@)
        &&& sum_seq(self.x_vals@) <= n
        &&& scalar_v(self.x_sum) == sum_seq(self.x_vals@)
        &&& scalar_v(self.r_sum) == sum_seq(self.r_vals@) % group_order()
        &&& point_v(self.coms_sum) == pcommit(sum_seq(self.x_vals@), sum_seq(self.r_vals@), h)
    }

    /// Noise state: bits are bits, each private commitment is
    /// `Commit(0, bit)`, and each noise commitment opens to its committed
    /// value under its committed blinding.
    pub open spec fn noise_wf(self) -> bool {
        let h = point_v(self.h);
        let cv = self.committed_vals();
        let cb = self.committed_blinds();
        &&& self.private_bits@.len() == self.private_commits@.len()
        &&& all_bits(nat_seq(self.private_bits@))
        &&& all_bits(nat_seq(self.public_bits@))
        &&& all_bits(nat_seq(self.xor_bits@))
        &&& (forall|i: int|
            0 <= i < self.private_commits@.len() ==> point_v(self.private_commits@[i]) == mul_mod(
                nat_seq(self.private_bits@)[i],
                h,
            ))
        &&& (if self.var_p {
            self.public_bits@.len() == 0 && self.private_bits@.len() == 0
        } else {
            self.public_bits@.len() == self.private_bits@.len()
        })
        &&& self.xor_commits@.len() == cv.len()
        &&& cv.len() == cb.len()
        &&& all_bits(cv)
        &&& (forall|i: int| 0 <= i < cb.len() ==> cb[i] < group_order())
        &&& (forall|i: int|
            0 <= i < self.xor_commits@.len() ==> point_v(self.xor_commits@[i]) == pcommit(
                cv[i],
                cb[i],
                h,
            ))
    }

    /// Accepted ranges: rectangular, bits normalised, every per-bit
    /// commitment opens to its bit under its blinding.
    pub open spec fn ranges_wf(self) -> bool {
        let h = point_v(self.h);
        &&& self.var_p_bits@.len() == self.var_p_in_count
        &&& self.var_p_coms@.len() == self.var_p_in_count
        &&& self.var_p_randomness@.len() == self.var_p_in_count
        &&& (forall|j: int| #![trigger self.var_p_bits@[j]]
            0 <= j < self.var_p_bits@.len() ==> {
                &&& self.var_p_bits@[j]@.len() == self.var_p_coms@[j]@.len()
                &&& self.var_p_bits@[j]@.len() == self.var_p_randomness@[j]@.len()
                &&& all_bits(nat_seq(self.var_p_bits@[j]@))
                &&& (forall|i: int| #![trigger self.var_p_randomness@[j]@[i]]
                    0 <= i < self.var_p_randomness@[j]@.len() ==> scalar_v(
                        self.var_p_randomness@[j]@[i],
                    ) < group_order())
                &&& (forall|i: int| #![trigger self.var_p_coms@[j]@[i]]
                    0 <= i < self.var_p_coms@[j]@.len() ==> point_v(self.var_p_coms@[j]@[i])
                        == pcommit(
                        nat_seq(self.var_p_bits@[j]@)[i],
                        scalar_v(self.var_p_randomness@[j]@[i]),
                        point_v(self.h),
                    ))
            })
    }

    /// Phase constraints: what must be empty or set in each state.
    pub open spec fn phase_wf(self) -> bool {
        &&& (self.state == SessionState::InputsCommitted ==> {
            &&& !self.var_p
            &&& self.private_bits@.len() == 0
            &&& self.public_bits@.len() == 0
            &&& self.xor_bits@.len() == 0
            &&& self.xor_commits@.len() == 0
            &&& self.var_p_in_count == 0
            &&& self.var_p_randomness_final@.len() == 0
            &&& self.sel_vals@.len() == 0
        })
        &&& (self.state == SessionState::RangesOpen ==> {
            &&& self.var_p
            &&& self.private_bits@.len() == 0
            &&& self.public_bits@.len() == 0
            &&& self.xor_bits@.len() == 0
            &&& self.xor_commits@.len() == 0
            &&& self.var_p_randomness_final@.len() == 0
            &&& self.sel_vals@.len() == 0
        })
        &&& (!self.var_p ==> {
            &&& self.var_p_in_count == 0
            &&& self.var_p_randomness_final@.len() == 0
            &&& self.sel_vals@.len() == 0
        })
        &&& (self.var_p ==> self.sel_vals@.len() == self.var_p_randomness_final@.len())
    }

    /// After the sum step: the claimed scalars are fixed by the mode's
    /// formula over the current effective noise bits.
    pub open spec fn sum_wf(self) -> bool {
        (self.state == SessionState::SumComputed || self.state == SessionState::FinalCommitted)
            ==> {
            &&& (if self.var_p {
                scalar_v(self.final_x) == add_mod(
                    sum_seq(self.x_vals@),
                    sum_seq(nat_seq(self.xor_bits@)),
                )
            } else {
                scalar_v(self.final_x) == add_mod(
                    sum_seq(self.x_vals@),
                    sum_seq(nat_seq(self.public_bits@)),
                )
            })
            &&& (if self.var_p {
                scalar_v(self.final_z) == add_mod(
                    sum_seq(self.r_vals@),
                    sum_seq(self.committed_blinds()),
                )
            } else {
                scalar_v(self.final_z) == add_mod(
                    sum_seq(self.r_vals@),
                    sum_seq(nat_seq(self.xor_bits@)),
                )
            })
        }
    }

    /// After finalisation: the two sides of the soundness identity.
    pub open spec fn final_wf(self) -> bool {
        self.state == SessionState::FinalCommitted ==> {
            let h = point_v(self.h);
            &&& point_v(self.lhs) == pcommit(scalar_v(self.final_x), scalar_v(self.final_z), h)
            &&& point_v(self.rhs) == add_mod(
                (sum_seq(self.x_vals@) + h * sum_seq(self.r_vals@)) as nat,
                sum_dlogs(self.committed_vals(), self.committed_blinds(), h),
            )
        }
    }

    /// Session well-formedness: holds after creation and is preserved by
    /// every transition.
    pub open spec fn wf(self) -> bool {
        &&& self.inputs_wf()
        &&& self.noise_wf()
        &&& self.ranges_wf()
        &&& self.phase_wf()
        &&& self.sum_wf()
        &&& self.final_wf()
    }
}

/// The decimal wire encoding of a group element: its compressed bytes read
/// as a little-endian integer, rendered in base ten.
pub open spec fn point_decimal(d: nat) -> Seq<char> {
    dec_str(le_val(point_enc(d)))
}

/// The fixed 64-byte seed from which the second generator is derived.
fn h_seed() -> (r: Vec<u8>)
    ensures
        r@.len() == 64,
{
    vec![
        116u8, 104, 105, 115, 32, 105, 115, 32, 97, 110, 111, 116, 104, 101, 114, 32, 115, 101,
        99, 114, 101, 116, 32, 116, 104, 97, 116, 32, 115, 104, 111, 117, 108, 100, 32, 110, 101,
        118, 101, 114, 32, 98, 101, 32, 100, 105, 115, 99, 108, 111, 115, 101, 100, 32, 116, 111,
        32, 97, 110, 121, 111, 110, 101, 32,
    ]
}

impl BinomialRunner {
    /// Creates a session from the raw input bits (one counts as one,
    /// anything else as zero), committing each bit under a fresh uniform
    /// blinding and fixing the three aggregates.
    pub fn new(x: &[u8]) -> (s: BinomialRunner)
        ensures
            s.wf(),
            s.state == SessionState::InputsCommitted,
            !s.var_p,
            s.x_vals@ == norm01(x@),
            s.input_commitments@.len() == x@.len(),
    {
        let seed = h_seed();
        let h = point_from_uniform_bytes(&seed);
        let ghost hv = point_v(h);
        let mut input_commitments: Vec<curve25519_dalek::ristretto::RistrettoPoint> = Vec::new();
        let mut coms_sum = point_identity();
        let mut x_sum = scalar_zero();
        let mut r_sum = scalar_zero();
        let mut x_count: u64 = 0;
        let ghost mut xv: Seq<nat> = Seq::empty();
        let ghost mut rv: Seq<nat> = Seq::empty();
        let mut i: usize = 0;
        while i < x.len()
            invariant
                i <= x@.len(),
                hv == point_v(h),
                hv < group_order(),
                xv.len() == i as nat,
                rv.len() == i as nat,
                input_commitments@.len() == i as nat,
                forall|j: int| 0 <= j < i ==> xv[j] == norm01(x@)[j],
                all_bits(xv),
                forall|j: int| 0 <= j < i ==> rv[j] < group_order(),
                forall|j: int|
                    0 <= j < i ==> point_v(input_commitments@[j]) == pcommit(xv[j], rv[j], hv),
                sum_seq(xv) <= i as nat,
                x_count as nat == sum_seq(xv),
                scalar_v(x_sum) == sum_seq(xv),
                scalar_v(r_sum) == sum_seq(rv) % group_order(),
                point_v(coms_sum) == sum_dlogs(xv, rv, hv) % group_order(),
            decreases x@.len() - i,
        {
            let b: u8 = if x[i] == 1 {
                1
            } else {
                0
            };
            let bs = scalar_from_u64(b as u64);
            let r = scalar_random();
            let com = commit(&bs, &r, &h);
            proof {
                lemma_sum_push(xv, b as nat);
                lemma_sum_push(rv, scalar_v(r));
                lemma_sum_dlogs_push(xv, rv, hv, b as nat, scalar_v(r));
                lemma_small_mod((sum_seq(xv) + b as nat) as nat, group_order());
                lemma_add_mod_noop_both(sum_seq(rv), scalar_v(r));
                lemma_add_mod_noop_both(sum_dlogs(xv, rv, hv), pcommit(b as nat, scalar_v(r), hv));
            }
            x_sum = scalar_add(&x_sum, &bs);
            r_sum = scalar_add(&r_sum, &r);
            coms_sum = point_add(&coms_sum, &com);
            x_count = x_count + b as u64;
            input_commitments.push(com);
            proof {
                xv = xv.push(b as nat);
                rv = rv.push(scalar_v(r));
            }
            i = i + 1;
        }
        proof {
            assert(xv =~= norm01(x@));
            lemma_sum_dlogs_total(xv, rv, hv);
        }
        BinomialRunner {
            h,
            input_commitments,
            coms_sum,
            x_sum,
            r_sum,
            x_count,
            private_bits: Vec::new(),
            private_commits: Vec::new(),
            public_bits: Vec::new(),
            xor_bits: Vec::new(),
            xor_commits: Vec::new(),
            final_x: scalar_zero(),
            final_z: scalar_zero(),
            lhs: point_identity(),
            rhs: point_identity(),
            var_p_in_count: 0,
            var_p_n: 0,
            var_p_bits: Vec::new(),
            var_p_coms: Vec::new(),
            var_p_randomness: Vec::new(),
            var_p_randomness_final: Vec::new(),
            var_p: false,
            state: SessionState::InputsCommitted,
            x_vals: Ghost(xv),
            r_vals: Ghost(rv),
            sel_vals: Ghost(Seq::empty()),
        }
    }

    /// The input commitments, in the decimal wire encoding.
    pub fn get_x_commits(&self) -> (r: Vec<String>)
        ensures
            r@.len() == self.input_commitments@.len(),
            forall|i: int|
                0 <= i < r@.len() ==> r@[i]@ == point_decimal(
                    point_v(self.input_commitments@[i]),
                ),
    {
        point_strings(&self.input_commitments)
    }

    /// The commitments to the private noise bits, in the decimal wire
    /// encoding.
    pub fn get_private_random_commits(&self) -> (r: Vec<String>)
        ensures
            r@.len() == self.private_commits@.len(),
            forall|i: int|
                0 <= i < r@.len() ==> r@[i]@ == point_decimal(point_v(self.private_commits@[i])),
    {
        point_strings(&self.private_commits)
    }

    /// The commitments to the effective noise, in the decimal wire
    /// encoding.
    pub fn get_xor_commits(&self) -> (r: Vec<String>)
        ensures
            r@.len() == self.xor_commits@.len(),
            forall|i: int|
                0 <= i < r@.len() ==> r@[i]@ == point_decimal(point_v(self.xor_commits@[i])),
    {
        point_strings(&self.xor_commits)
    }

    /// The public coin outcomes, one byte per noise bit.
    pub fn get_public_random(&self) -> (r: Vec<u8>)
        ensures
            r@ == self.public_bits@,
    {
        copy_bytes(&self.public_bits)
    }

    /// The effective noise bits, one byte each.
    pub fn get_xor_bits(&self) -> (r: Vec<u8>)
        ensures
            r@ == self.xor_bits@,
    {
        copy_bytes(&self.xor_bits)
    }

    /// The claimed blinding aggregate `final_z`, in the decimal wire
    /// encoding.
    pub fn get_z(&self) -> (r: String)
        ensures
            r@ == dec_str(scalar_v(self.final_z)),
    {
        let bytes = scalar_to_bytes(&self.final_z);
        let bu = biguint_from_bytes_le(&bytes);
        biguint_to_decimal(&bu)
    }

    /// The left side of the soundness identity, in the decimal wire
    /// encoding.
    pub fn get_lhs(&self) -> (r: String)
        ensures
            r@ == point_decimal(point_v(self.lhs)),
    {
        point_string(&self.lhs)
    }

    /// The right side of the soundness identity, in the decimal wire
    /// encoding.
    pub fn get_rhs(&self) -> (r: String)
        ensures
            r@ == point_decimal(point_v(self.rhs)),
    {
        point_string(&self.rhs)
    }
}

/// The decimal wire encoding of one group element.
fn point_string(p: &curve25519_dalek::ristretto::RistrettoPoint) -> (r: String)
    ensures
        r@ == point_decimal(point_v(*p)),
{
    let bytes = point_compress(p);
    let bu = biguint_from_bytes_le(&bytes);
    biguint_to_decimal(&bu)
}

/// The decimal wire encoding of a vector of group elements.
fn point_strings(ps: &Vec<curve25519_dalek::ristretto::RistrettoPoint>) -> (r: Vec<String>)
    ensures
        r@.len() == ps@.len(),
        forall|i: int| 0 <= i < r@.len() ==> r@[i]@ == point_decimal(point_v(ps@[i])),
{
    let mut out: Vec<String> = Vec::new();
    let mut i: usize = 0;
    while i < ps.len()
        invariant
            i <= ps@.len(),
            out@.len() == i as nat,
            forall|j: int| 0 <= j < i ==> out@[j]@ == point_decimal(point_v(ps@[j])),
        decreases ps@.len() - i,
    {
        let s = point_string(&ps[i]);
        out.push(s);
        i = i + 1;
    }
    out
}

/// A copy of a byte vector.
fn copy_bytes(v: &Vec<u8>) -> (r: Vec<u8>)
    ensures
        r@ == v@,
{
    let mut out: Vec<u8> = Vec::new();
    let mut i: usize = 0;
    while i < v.len()
        invariant
            i <= v@.len(),
            out@.len() == i as nat,
            forall|j: int| 0 <= j < i ==> out@[j] == v@[j],
        decreases v@.len() - i,
    {
        out.push(v[i]);
        i = i + 1;
    }
    proof {
        assert(out@ =~= v@);
    }
    out
}

}

verus! {

impl BinomialRunner {
    /// Unbiased noise: records the private noise bits (one counts as one,
    /// anything else as zero), commits each in the blinding slot of a
    /// proof-of-bit transcript, draws a fair public coin per bit, and
    /// derives the effective noise bit and its commitment homomorphically:
    /// where the coin is one the commitment becomes `Commit(1,1) - privCom`
    /// and the bit flips; elsewhere both are kept.  The verifier's verdict
    /// on each transcript is recorded nowhere: the final identity check is
    /// the authoritative gate.
    pub fn input_randomness(&mut self, bits: &[u8]) -> (res: Result<(), ProtocolError>)
        requires
            old(self).wf(),
        ensures
            final(self).wf(),
            old(self).state != SessionState::InputsCommitted ==> res == Err::<
                (),
                ProtocolError,
            >(ProtocolError::OutOfOrder) && *final(self) == *old(self),
            old(self).state == SessionState::InputsCommitted ==> {
                &&& res == Ok::<(), ProtocolError>(())
                &&& final(self).state == SessionState::NoiseCommitted
                &&& !final(self).var_p
                &&& nat_seq(final(self).private_bits@) == norm01(bits@)
                &&& final(self).public_bits@.len() == bits@.len()
                &&& final(self).xor_bits@.len() == bits@.len()
                &&& nat_seq(final(self).xor_bits@) == xor_seq(
                    norm01(bits@),
                    nat_seq(final(self).public_bits@),
                )
                &&& final(self).noise_consistent()
                &&& final(self).x_vals == old(self).x_vals
                &&& final(self).r_vals == old(self).r_vals
                &&& final(self).x_count == old(self).x_count
                &&& final(self).h == old(self).h
                &&& final(self).input_commitments == old(self).input_commitments
            },
    {
        if self.state != SessionState::InputsCommitted {
            return Err(ProtocolError::OutOfOrder);
        }
        let ghost hv = point_v(self.h);
        let one = scalar_one();
        let com_one = commit(&one, &one, &self.h);
        let mut priv_bits: Vec<u8> = Vec::new();
        let mut priv_coms: Vec<curve25519_dalek::ristretto::RistrettoPoint> = Vec::new();
        let mut pub_bits: Vec<u8> = Vec::new();
        let mut eff_bits: Vec<u8> = Vec::new();
        let mut eff_coms: Vec<curve25519_dalek::ristretto::RistrettoPoint> = Vec::new();
        let mut i: usize = 0;
        while i < bits.len()
            invariant
                i <= bits@.len(),
                hv == point_v(self.h),
                hv < group_order(),
                point_v(com_one) == pcommit(1, 1, hv),
                priv_bits@.len() == i as nat,
                priv_coms@.len() == i as nat,
                pub_bits@.len() == i as nat,
                eff_bits@.len() == i as nat,
                eff_coms@.len() == i as nat,
                forall|j: int| 0 <= j < i ==> nat_seq(priv_bits@)[j] == norm01(bits@)[j],
                all_bits(nat_seq(priv_bits@)),
                all_bits(nat_seq(pub_bits@)),
                all_bits(nat_seq(eff_bits@)),
                forall|j: int|
                    0 <= j < i ==> point_v(priv_coms@[j]) == mul_mod(nat_seq(priv_bits@)[j], hv),
                forall|j: int|
                    0 <= j < i ==> nat_seq(eff_bits@)[j] == xor_seq(
                        nat_seq(priv_bits@),
                        nat_seq(pub_bits@),
                    )[j],
                forall|j: int|
                    0 <= j < i ==> point_v(eff_coms@[j]) == pcommit(
                        nat_seq(pub_bits@)[j],
                        nat_seq(eff_bits@)[j],
                        hv,
                    ),
            decreases bits@.len() - i,
        {
            let nb: u8 = if bits[i] == 1 {
                1
            } else {
                0
            };
            let t = create_proof_0(nb, &self.h);
            let _verdict = verify_bit_proof(&t, &self.h);
            let coin = coinflip::flip();
            let pb: u8;
            let ebit: u8;
            let ecom: curve25519_dalek::ristretto::RistrettoPoint;
            if coin {
                pb = 1;
                ebit = 1 - nb;
                ecom = point_sub(&com_one, &t.com);
                proof {
                    lemma_flip_commit(nb as nat, hv);
                }
            } else {
                pb = 0;
                ebit = nb;
                ecom = t.com;
                proof {
                    lemma_pcommit_blind_only(nb as nat, hv);
                }
            }
            let ghost pb0 = priv_bits@;
            let ghost cb0 = pub_bits@;
            let ghost eb0 = eff_bits@;
            priv_bits.push(nb);
            priv_coms.push(t.com);
            pub_bits.push(pb);
            eff_bits.push(ebit);
            eff_coms.push(ecom);
            proof {
                crate::numeric::lemma_nat_seq_push(pb0, nb);
                crate::numeric::lemma_nat_seq_push(cb0, pb);
                crate::numeric::lemma_nat_seq_push(eb0, ebit);
            }
            i = i + 1;
        }
        proof {
            assert(nat_seq(priv_bits@) =~= norm01(bits@));
            assert(nat_seq(eff_bits@) =~= xor_seq(nat_seq(priv_bits@), nat_seq(pub_bits@)));
        }
        self.private_bits = priv_bits;
        self.private_commits = priv_coms;
        self.public_bits = pub_bits;
        self.xor_bits = eff_bits;
        self.xor_commits = eff_coms;
        self.state = SessionState::NoiseCommitted;
        Ok(())
    }

    /// Chooses the biased mode and declares how many range submissions
    /// will follow.
    pub fn rand_p_init(&mut self, n: i32) -> (res: Result<(), ProtocolError>)
        requires
            old(self).wf(),
        ensures
            final(self).wf(),
            old(self).state != SessionState::InputsCommitted ==> res == Err::<
                (),
                ProtocolError,
            >(ProtocolError::OutOfOrder) && *final(self) == *old(self),
            old(self).state == SessionState::InputsCommitted ==> {
                &&& res == Ok::<(), ProtocolError>(())
                &&& final(self).state == SessionState::RangesOpen
                &&& final(self).var_p
                &&& final(self).var_p_n == n
                &&& final(self).x_vals == old(self).x_vals
                &&& final(self).r_vals == old(self).r_vals
                &&& final(self).x_count == old(self).x_count
                &&& final(self).h == old(self).h
                &&& final(self).input_commitments == old(self).input_commitments
            },
    {
        if self.state != SessionState::InputsCommitted {
            return Err(ProtocolError::OutOfOrder);
        }
        self.var_p = true;
        self.var_p_n = n;
        self.state = SessionState::RangesOpen;
        Ok(())
    }

    /// The cheat surface: replaces the effective noise bits wholesale
    /// (one counts as one, anything else as zero) without touching their
    /// commitments.  The final identity check is what catches this.
    pub fn overwrite_xor_bits(&mut self, bits: &[u8]) -> (res: Result<(), ProtocolError>)
        requires
            old(self).wf(),
        ensures
            final(self).wf(),
            old(self).state != SessionState::NoiseCommitted ==> res == Err::<
                (),
                ProtocolError,
            >(ProtocolError::OutOfOrder) && *final(self) == *old(self),
            old(self).state == SessionState::NoiseCommitted ==> {
                &&& res == Ok::<(), ProtocolError>(())
                &&& final(self).state == SessionState::NoiseCommitted
                &&& nat_seq(final(self).xor_bits@) == norm01(bits@)
                &&& final(self).committed_vals() == old(self).committed_vals()
                &&& final(self).committed_blinds() == old(self).committed_blinds()
                &&& final(self).xor_commits == old(self).xor_commits
                &&& final(self).var_p == old(self).var_p
                &&& final(self).x_vals == old(self).x_vals
                &&& final(self).r_vals == old(self).r_vals
                &&& final(self).x_count == old(self).x_count
                &&& final(self).public_bits == old(self).public_bits
                &&& final(self).h == old(self).h
            },
    {
        if self.state != SessionState::NoiseCommitted {
            return Err(ProtocolError::OutOfOrder);
        }
        let mut nb: Vec<u8> = Vec::new();
        let mut i: usize = 0;
        while i < bits.len()
            invariant
                i <= bits@.len(),
                nb@.len() == i as nat,
                forall|j: int| 0 <= j < i ==> nat_seq(nb@)[j] == norm01(bits@)[j],
                all_bits(nat_seq(nb@)),
            decreases bits@.len() - i,
        {
            let b: u8 = if bits[i] == 1 {
                1
            } else {
                0
            };
            let ghost n0 = nb@;
            nb.push(b);
            proof {
                crate::numeric::lemma_nat_seq_push(n0, b);
            }
            i = i + 1;
        }
        proof {
            assert(nat_seq(nb@) =~= norm01(bits@));
        }
        self.xor_bits = nb;
        Ok(())
    }
}

}

verus! {

pub proof fn lemma_scalars_v_push(
    s: Seq<curve25519_dalek::scalar::Scalar>,
    x: curve25519_dalek::scalar::Scalar,
)
    ensures
        scalars_v(s.push(x)) == scalars_v(s).push(scalar_v(x)),
{
    assert(scalars_v(s.push(x)) =~= scalars_v(s).push(scalar_v(x)));
}

impl BinomialRunner {
    /// Biased noise, one range: takes a declared numerator `k`, a declared
    /// length `m` and a bit vector (zero stays zero, anything else counts
    /// as one), commits every bit under a fresh blinding, and accepts the
    /// range exactly when the vector has length `m` and its bits sum to
    /// `k`.  The sum condition is checked algebraically: the commitments
    /// are summed and compared against `Commit(k, sum of blindings)`.
    /// A rejected submission leaves the session unchanged.
    pub fn random_variable_p_input(&mut self, k: u32, m: i32, bits: &[u8]) -> (res: Result<
        bool,
        ProtocolError,
    >)
        requires
            old(self).wf(),
        ensures
            final(self).wf(),
            old(self).state != SessionState::RangesOpen ==> res == Err::<
                bool,
                ProtocolError,
            >(ProtocolError::OutOfOrder) && *final(self) == *old(self),
            old(self).state == SessionState::RangesOpen ==> {
                let accept = m >= 0 && bits@.len() == m && sum_seq(normnz(bits@)) == k as nat;
                &&& res == Ok::<bool, ProtocolError>(accept)
                &&& !accept ==> *final(self) == *old(self)
                &&& accept ==> {
                    &&& final(self).state == SessionState::RangesOpen
                    &&& final(self).var_p_in_count == old(self).var_p_in_count + 1
                    &&& final(self).var_p_bits@.len() == old(self).var_p_bits@.len() + 1
                    &&& nat_seq(final(self).var_p_bits@.last()@) == normnz(bits@)
                    &&& final(self).var_p_n == old(self).var_p_n
                    &&& final(self).x_vals == old(self).x_vals
                    &&& final(self).r_vals == old(self).r_vals
                    &&& final(self).x_count == old(self).x_count
                    &&& final(self).h == old(self).h
                    &&& final(self).input_commitments == old(self).input_commitments
                }
            },
    {
        if self.state != SessionState::RangesOpen {
            return Err(ProtocolError::OutOfOrder);
        }
        if m < 0 {
            return Ok(false);
        }
        if bits.len() != m as usize {
            return Ok(false);
        }
        let ghost hv = point_v(self.h);
        let mut rbits: Vec<u8> = Vec::new();
        let mut rblinds: Vec<curve25519_dalek::scalar::Scalar> = Vec::new();
        let mut rcoms: Vec<curve25519_dalek::ristretto::RistrettoPoint> = Vec::new();
        let mut coms_acc = point_identity();
        let mut blind_acc = scalar_zero();
        let mut i: usize = 0;
        while i < bits.len()
            invariant
                i <= bits@.len(),
                hv == point_v(self.h),
                hv < group_order(),
                rbits@.len() == i as nat,
                rblinds@.len() == i as nat,
                rcoms@.len() == i as nat,
                forall|j: int| 0 <= j < i ==> nat_seq(rbits@)[j] == normnz(bits@)[j],
                all_bits(nat_seq(rbits@)),
                forall|j: int| 0 <= j < i ==> scalar_v(rblinds@[j]) < group_order(),
                forall|j: int|
                    0 <= j < i ==> point_v(rcoms@[j]) == pcommit(
                        nat_seq(rbits@)[j],
                        scalar_v(rblinds@[j]),
                        hv,
                    ),
                scalar_v(blind_acc) == sum_seq(scalars_v(rblinds@)) % group_order(),
                point_v(coms_acc) == sum_dlogs(nat_seq(rbits@), scalars_v(rblinds@), hv)
                    % group_order(),
            decreases bits@.len() - i,
        {
            let nb: u8 = if bits[i] == 0 {
                0
            } else {
                1
            };
            let nb_scalar = scalar_from_u64(nb as u64);
            let r = scalar_random();
            let com = commit(&nb_scalar, &r, &self.h);
            proof {
                crate::numeric::lemma_nat_seq_push(rbits@, nb);
                lemma_scalars_v_push(rblinds@, r);
                lemma_sum_push(scalars_v(rblinds@), scalar_v(r));
                lemma_sum_dlogs_push(
                    nat_seq(rbits@),
                    scalars_v(rblinds@),
                    hv,
                    nb as nat,
                    scalar_v(r),
                );
                lemma_add_mod_noop_both(sum_seq(scalars_v(rblinds@)), scalar_v(r));
                lemma_add_mod_noop_both(
                    sum_dlogs(nat_seq(rbits@), scalars_v(rblinds@), hv),
                    pcommit(nb as nat, scalar_v(r), hv),
                );
            }
            rbits.push(nb);
            rblinds.push(r);
            rcoms.push(com);
            blind_acc = scalar_add(&blind_acc, &r);
            coms_acc = point_add(&coms_acc, &com);
            i = i + 1;
        }
        let k_scalar = scalar_from_u64(k as u64);
        let expected = commit(&k_scalar, &blind_acc, &self.h);
        let eq = point_eq(&coms_acc, &expected);
        proof {
            let bv = nat_seq(rbits@);
            let sv = scalars_v(rblinds@);
            assert(bv =~= normnz(bits@));
            lemma_sum_dlogs_total(bv, sv, hv);
            crate::pedersen::lemma_pcommit_blind_mod(k as nat, sum_seq(sv), hv);
            crate::numeric::lemma_sum_bound(bv);
            if eq {
                lemma_mod_add_cancel(sum_seq(bv), k as nat, (hv * sum_seq(sv)) as nat);
            }
        }
        if !eq {
            return Ok(false);
        }
        self.var_p_bits.push(rbits);
        self.var_p_coms.push(rcoms);
        self.var_p_randomness.push(rblinds);
        self.var_p_in_count = self.var_p_bits.len();
        Ok(true)
    }

    /// Closes the biased-noise phase.  Succeeds exactly when the number of
    /// accepted ranges equals the declared count; then one index is drawn
    /// from each range, and that bit, its commitment and its blinding
    /// become the effective noise.  An empty range contributes a zero bit
    /// with the identity commitment under a zero blinding.
    pub fn random_variable_p_end(&mut self) -> (res: Result<bool, ProtocolError>)
        requires
            old(self).wf(),
        ensures
            final(self).wf(),
            old(self).state != SessionState::RangesOpen ==> res == Err::<
                bool,
                ProtocolError,
            >(ProtocolError::OutOfOrder) && *final(self) == *old(self),
            old(self).state == SessionState::RangesOpen ==> {
                let complete = old(self).var_p_n >= 0 && old(self).var_p_in_count as int == old(
                    self,
                ).var_p_n as int;
                &&& res == Ok::<bool, ProtocolError>(complete)
                &&& !complete ==> *final(self) == *old(self)
                &&& complete ==> {
                    &&& final(self).state == SessionState::NoiseCommitted
                    &&& final(self).var_p
                    &&& final(self).xor_bits@.len() == old(self).var_p_bits@.len()
                    &&& final(self).noise_consistent()
                    &&& (forall|j: int|
                        0 <= j < old(self).var_p_bits@.len() ==> (old(
                            self,
                        ).var_p_bits@[j]@.len() == 0 && nat_seq(final(self).xor_bits@)[j] == 0)
                            || #[trigger] nat_seq(old(self).var_p_bits@[j]@).contains(
                            nat_seq(final(self).xor_bits@)[j],
                        ))
                    &&& final(self).x_vals == old(self).x_vals
                    &&& final(self).r_vals == old(self).r_vals
                    &&& final(self).x_count == old(self).x_count
                    &&& final(self).h == old(self).h
                    &&& final(self).input_commitments == old(self).input_commitments
                }
            },
    {
        if self.state != SessionState::RangesOpen {
            return Err(ProtocolError::OutOfOrder);
        }
        if self.var_p_n < 0 {
            return Ok(false);
        }
        if self.var_p_in_count != self.var_p_n as usize {
            return Ok(false);
        }
        let ghost hv = point_v(self.h);
        let mut eff_bits: Vec<u8> = Vec::new();
        let mut eff_coms: Vec<curve25519_dalek::ristretto::RistrettoPoint> = Vec::new();
        let mut eff_blinds: Vec<curve25519_dalek::scalar::Scalar> = Vec::new();
        let ghost mut sv: Seq<nat> = Seq::empty();
        let mut j: usize = 0;
        while j < self.var_p_bits.len()
            invariant
                j <= self.var_p_bits@.len(),
                self.wf(),
                self.state == SessionState::RangesOpen,
                hv == point_v(self.h),
                hv < group_order(),
                eff_bits@.len() == j as nat,
                eff_coms@.len() == j as nat,
                eff_blinds@.len() == j as nat,
                sv.len() == j as nat,
                all_bits(sv),
                forall|t: int| 0 <= t < j ==> nat_seq(eff_bits@)[t] == sv[t],
                forall|t: int| 0 <= t < j ==> scalar_v(eff_blinds@[t]) < group_order(),
                forall|t: int|
                    0 <= t < j ==> point_v(eff_coms@[t]) == pcommit(
                        sv[t],
                        scalar_v(eff_blinds@[t]),
                        hv,
                    ),
                forall|t: int|
                    0 <= t < j ==> (self.var_p_bits@[t]@.len() == 0 && sv[t] == 0)
                        || #[trigger] nat_seq(self.var_p_bits@[t]@).contains(sv[t]),
            decreases self.var_p_bits@.len() - j,
        {
            let range_len = self.var_p_bits[j].len();
            if range_len == 0 {
                let ghost eb0 = eff_bits@;
                eff_bits.push(0);
                eff_coms.push(point_identity());
                eff_blinds.push(scalar_zero());
                proof {
                    sv = sv.push(0);
                    crate::numeric::lemma_nat_seq_push(eb0, 0);
                    lemma_small_mod(0, group_order());
                    assert(point_v(eff_coms@[j as int]) == pcommit(0, 0, hv));
                }
            } else {
                let rnd: u64 = rand::random::<u64>();
                let ind = (rnd % (range_len as u64)) as usize;
                proof {
                    assert(ind < range_len);
                }
                let b = self.var_p_bits[j][ind];
                let c = self.var_p_coms[j][ind];
                let r = self.var_p_randomness[j][ind];
                let ghost eb0 = eff_bits@;
                eff_bits.push(b);
                eff_coms.push(c);
                eff_blinds.push(r);
                proof {
                    sv = sv.push(b as nat);
                    crate::numeric::lemma_nat_seq_push(eb0, b);
                    assert(c == self.var_p_coms@[j as int]@[ind as int]);
                    assert(r == self.var_p_randomness@[j as int]@[ind as int]);
                    assert(nat_seq(self.var_p_bits@[j as int]@)[ind as int] == b as nat);
                    assert(point_v(c) == pcommit(b as nat, scalar_v(r), hv));
                    assert((ind as int) < self.var_p_bits@[j as int]@.len() && sv[j as int]
                        == nat_seq(self.var_p_bits@[j as int]@)[ind as int]);
                    assert(nat_seq(self.var_p_bits@[j as int]@).contains(sv[j as int]));
                }
            }
            j = j + 1;
        }
        proof {
            assert(nat_seq(eff_bits@) =~= sv);
        }
        self.xor_bits = eff_bits;
        self.xor_commits = eff_coms;
        self.var_p_randomness_final = eff_blinds;
        self.sel_vals = Ghost(sv);
        self.state = SessionState::NoiseCommitted;
        Ok(true)
    }
}

}

verus! {

/// Sums a vector of bits into a machine integer.
fn sum_bits(v: &Vec<u8>) -> (s: u64)
    requires
        all_bits(nat_seq(v@)),
    ensures
        s as nat == sum_seq(nat_seq(v@)),
{
    let mut total: u64 = 0;
    let mut i: usize = 0;
    while i < v.len()
        invariant
            i <= v@.len(),
            all_bits(nat_seq(v@)),
            total as nat == sum_seq(nat_seq(v@.take(i as int))),
            total as nat <= i as nat,
        decreases v@.len() - i,
    {
        let b = v[i];
        proof {
            assert(v@.take(i as int + 1) =~= v@.take(i as int).push(v@[i as int]));
            crate::numeric::lemma_nat_seq_push(v@.take(i as int), v@[i as int]);
            lemma_sum_push(nat_seq(v@.take(i as int)), v@[i as int] as nat);
            assert(nat_seq(v@)[i as int] <= 1);
        }
        total = total + b as u64;
        i = i + 1;
    }
    proof {
        assert(v@.take(v@.len() as int) =~= v@);
    }
    total
}

impl BinomialRunner {
    /// The sum step: fixes the claimed scalars and returns the published
    /// count, the low 64 bits of `xSum + sum(xorBits)`.  In unbiased mode
    /// the identity-checked `final_x` adds the public coins instead (the
    /// composition that aligns with the commitment homomorphism), while
    /// `final_z` adds the effective noise bits; in biased mode `final_x`
    /// adds the effective noise bits and `final_z` the selected blindings.
    pub fn compute_sum(&mut self) -> (res: Result<u64, ProtocolError>)
        requires
            old(self).wf(),
        ensures
            final(self).wf(),
            old(self).state != SessionState::NoiseCommitted ==> res == Err::<
                u64,
                ProtocolError,
            >(ProtocolError::OutOfOrder) && *final(self) == *old(self),
            old(self).state == SessionState::NoiseCommitted ==> {
                &&& res == Ok::<u64, ProtocolError>(
                    ((sum_seq(old(self).x_vals@) + sum_seq(nat_seq(old(self).xor_bits@)))
                        % 0x10000000000000000) as u64,
                )
                &&& final(self).state == SessionState::SumComputed
                &&& final(self).xor_bits == old(self).xor_bits
                &&& final(self).var_p == old(self).var_p
                &&& final(self).committed_vals() == old(self).committed_vals()
                &&& final(self).committed_blinds() == old(self).committed_blinds()
                &&& (final(self).noise_consistent() <==> old(self).noise_consistent())
                &&& final(self).x_vals == old(self).x_vals
                &&& final(self).r_vals == old(self).r_vals
                &&& final(self).x_count == old(self).x_count
                &&& final(self).h == old(self).h
                &&& final(self).xor_commits == old(self).xor_commits
                &&& final(self).input_commitments == old(self).input_commitments
            },
    {
        if self.state != SessionState::NoiseCommitted {
            return Err(ProtocolError::OutOfOrder);
        }
        let xbsum = sum_bits(&self.xor_bits);
        if self.var_p {
            let xb_scalar = scalar_from_u64(xbsum);
            self.final_x = scalar_add(&self.x_sum, &xb_scalar);
            let mut s_sum = scalar_zero();
            let mut i: usize = 0;
            while i < self.var_p_randomness_final.len()
                invariant
                    i <= self.var_p_randomness_final@.len(),
                    scalar_v(s_sum) == sum_seq(
                        scalars_v(self.var_p_randomness_final@.take(i as int)),
                    ) % group_order(),
                decreases self.var_p_randomness_final@.len() - i,
            {
                proof {
                    assert(self.var_p_randomness_final@.take(i as int + 1)
                        =~= self.var_p_randomness_final@.take(i as int).push(
                        self.var_p_randomness_final@[i as int],
                    ));
                    lemma_scalars_v_push(
                        self.var_p_randomness_final@.take(i as int),
                        self.var_p_randomness_final@[i as int],
                    );
                    lemma_sum_push(
                        scalars_v(self.var_p_randomness_final@.take(i as int)),
                        scalar_v(self.var_p_randomness_final@[i as int]),
                    );
                    lemma_add_mod_noop_both(
                        sum_seq(scalars_v(self.var_p_randomness_final@.take(i as int))),
                        scalar_v(self.var_p_randomness_final@[i as int]),
                    );
                }
                let r = self.var_p_randomness_final[i];
                s_sum = scalar_add(&s_sum, &r);
                i = i + 1;
            }
            proof {
                assert(self.var_p_randomness_final@.take(self.var_p_randomness_final@.len() as int)
                    =~= self.var_p_randomness_final@);
            }
            self.final_z = scalar_add(&self.r_sum, &s_sum);
            proof {
                lemma_add_mod_noop_both(sum_seq(self.r_vals@), sum_seq(self.committed_blinds()));
            }
        } else {
            let vsum = sum_bits(&self.public_bits);
            let v_scalar = scalar_from_u64(vsum);
            self.final_x = scalar_add(&self.x_sum, &v_scalar);
            let xb_scalar = scalar_from_u64(xbsum);
            self.final_z = scalar_add(&self.r_sum, &xb_scalar);
            proof {
                lemma_add_mod_noop_both(
                    sum_seq(self.r_vals@),
                    sum_seq(nat_seq(self.xor_bits@)),
                );
            }
        }
        let total: u128 = (self.x_count as u128) + (xbsum as u128);
        let low = (total % 0x10000000000000000u128) as u64;
        self.state = SessionState::SumComputed;
        Ok(low)
    }

    /// The final step: commits the claimed scalars on the left and sums
    /// the input and noise commitments on the right.  The session's
    /// soundness output is the pair; the caller accepts exactly when the
    /// two group elements are equal.
    pub fn commit_pedersons(&mut self) -> (res: Result<(), ProtocolError>)
        requires
            old(self).wf(),
        ensures
            final(self).wf(),
            old(self).state != SessionState::SumComputed ==> res == Err::<
                (),
                ProtocolError,
            >(ProtocolError::OutOfOrder) && *final(self) == *old(self),
            old(self).state == SessionState::SumComputed ==> {
                &&& res == Ok::<(), ProtocolError>(())
                &&& final(self).state == SessionState::FinalCommitted
                &&& final(self).xor_bits == old(self).xor_bits
                &&& final(self).var_p == old(self).var_p
                &&& final(self).committed_vals() == old(self).committed_vals()
                &&& final(self).committed_blinds() == old(self).committed_blinds()
                &&& (final(self).noise_consistent() <==> old(self).noise_consistent())
                &&& final(self).x_vals == old(self).x_vals
                &&& final(self).r_vals == old(self).r_vals
                &&& final(self).h == old(self).h
            },
    {
        if self.state != SessionState::SumComputed {
            return Err(ProtocolError::OutOfOrder);
        }
        let ghost hv = point_v(self.h);
        let ghost cv = self.committed_vals();
        let ghost cb = self.committed_blinds();
        let ghost kx = sum_seq(self.x_vals@);
        let ghost kr = sum_seq(self.r_vals@);
        let new_lhs = commit(&self.final_x, &self.final_z, &self.h);
        let mut acc = point_add(&self.coms_sum, &point_identity());
        proof {
            lemma_small_mod(pcommit(kx, kr, hv), group_order());
            assert(point_v(acc) == add_mod((kx + hv * kr) as nat, sum_dlogs(cv.take(0), cb.take(0), hv)));
        }
        let mut i: usize = 0;
        while i < self.xor_commits.len()
            invariant
                i <= self.xor_commits@.len(),
                hv == point_v(self.h),
                hv < group_order(),
                self.wf(),
                self.state == SessionState::SumComputed,
                cv == self.committed_vals(),
                cb == self.committed_blinds(),
                kx == sum_seq(self.x_vals@),
                kr == sum_seq(self.r_vals@),
                cv.len() == self.xor_commits@.len(),
                cb.len() == self.xor_commits@.len(),
                point_v(acc) == add_mod(
                    (kx + hv * kr) as nat,
                    sum_dlogs(cv.take(i as int), cb.take(i as int), hv),
                ),
            decreases self.xor_commits@.len() - i,
        {
            proof {
                assert(cv.take(i as int + 1) =~= cv.take(i as int).push(cv[i as int]));
                assert(cb.take(i as int + 1) =~= cb.take(i as int).push(cb[i as int]));
                lemma_sum_dlogs_push(cv.take(i as int), cb.take(i as int), hv, cv[i as int], cb[i as int]);
                lemma_add_mod_noop_both(
                    ((kx + hv * kr) as nat + sum_dlogs(cv.take(i as int), cb.take(i as int), hv)) as nat,
                    pcommit(cv[i as int], cb[i as int], hv),
                );
            }
            let c = self.xor_commits[i];
            acc = point_add(&acc, &c);
            i = i + 1;
        }
        proof {
            assert(cv.take(cv.len() as int) =~= cv);
            assert(cb.take(cb.len() as int) =~= cb);
        }
        self.lhs = new_lhs;
        self.rhs = acc;
        self.state = SessionState::FinalCommitted;
        Ok(())
    }
}

/// The boundary case of creation: a session over an empty input vector
/// has zero aggregates, and its commitment sum is the group identity.
pub proof fn lemma_empty_init(s: &BinomialRunner)
    requires
        s.wf(),
        s.x_vals@.len() == 0,
    ensures
        scalar_v(s.x_sum) == 0,
        scalar_v(s.r_sum) == 0,
        point_v(s.coms_sum) == 0,
{
    let h = point_v(s.h);
    assert(s.r_vals@.len() == 0);
    lemma_small_mod(0, group_order());
    assert(h * 0 == 0) by (nonlinear_arith);
}

/// The soundness guarantee of an honest run: when the effective noise
/// bits still match what was committed — no overwrite happened — the two
/// sides of the final identity are equal as group elements, in either
/// noise mode.
pub proof fn lemma_honest_final_equality(s: &BinomialRunner)
    requires
        s.wf(),
        s.state == SessionState::FinalCommitted,
        s.noise_consistent(),
    ensures
        point_v(s.lhs) == point_v(s.rhs),
{
    let h = point_v(s.h);
    let cv = s.committed_vals();
    let cb = s.committed_blinds();
    let x = sum_seq(s.x_vals@);
    let r = sum_seq(s.r_vals@);
    lemma_identity_core(x, r, cv, cb, h);
}

}
