//! The source of chance: a generator that the caller owns and hands on, so
//! that one seed gives one image.

use vstd::prelude::*;
use vstd::arithmetic::power2::{pow2, lemma_pow2_unfold, lemma_pow2_pos, lemma2_to64, lemma2_to64_rest};
use vstd::arithmetic::mul::{lemma_mul_is_associative, lemma_mul_strict_inequality};
use vstd::bits::lemma_u64_shr_is_div;
use crate::scalar::{Scalar, Extended, HIDDEN_BIT, magnitude_units, lemma_one_is_finite};

verus! {

/// The step of the counter.
pub const GAMMA: u64 = 0x9e37_79b9_7f4a_7c15;

/// A counter whose scrambled values are the draws.
#[derive(Clone, Copy, Debug)]
pub struct Rng {
    pub state: u64,
}

/// The counter after one step.
pub open spec fn stepped(state: u64) -> u64 {
    u64::wrapping_add(state, GAMMA)
}

/// The draw that a counter value gives: three rounds of xor with a shift,
/// two of them followed by a multiplication.
pub open spec fn scrambled(state: u64) -> u64 {
    let a = u64::wrapping_mul(state ^ (state >> 30), 0xbf58_476d_1ce4_e5b9);
    let b = u64::wrapping_mul(a ^ (a >> 27), 0x94d0_49bb_1331_11eb);
    b ^ (b >> 31)
}

/// The number in `[0, 1)` that the top 53 bits of a draw give: those bits as
/// a whole number, over 2^53. In units of 2^-1074 that is the whole number
/// times 2^1021.
pub open spec fn unit_of(draw: u64) -> Extended {
    Extended::Finite((draw as int / 2048) * pow2(1021))
}

impl Rng {
    pub fn new(seed: u64) -> (rng: Rng)
        ensures
            rng.state == seed,
    {
        Rng { state: seed }
    }

    /// The next draw: 64 bits.
    pub fn next_u64(&mut self) -> (draw: u64)
        ensures
            final(self).state == stepped(old(self).state),
            draw == scrambled(final(self).state),
    {
        self.state = self.state.wrapping_add(GAMMA);
        let z = self.state;
        let a = (z ^ (z >> 30)).wrapping_mul(0xbf58_476d_1ce4_e5b9);
        let b = (a ^ (a >> 27)).wrapping_mul(0x94d0_49bb_1331_11eb);
        b ^ (b >> 31)
    }

    /// The next draw as a number in `[0, 1)`.
    pub fn next_unit(&mut self) -> (x: Scalar)
        ensures
            final(self).state == stepped(old(self).state),
            x@ == unit_of(scrambled(final(self).state)),
            Scalar::spec_zero().spec_le(x),
            x.spec_lt(Scalar::spec_one()),
    {
        let draw = self.next_u64();
        unit(draw)
    }
}

/// The number in `[0, 1)` that the top 53 bits of `draw` give, exactly.
pub fn unit(draw: u64) -> (x: Scalar)
    ensures
        x@ == unit_of(draw),
        Scalar::spec_zero().spec_le(x),
        x.spec_lt(Scalar::spec_one()),
{
    let k = draw >> 11;
    proof {
        lemma2_to64();
        lemma2_to64_rest();
        lemma_u64_shr_is_div(draw, 11);
        lemma_one_is_finite();
        lemma_pow2_pos(1021);
        assert(k < 0x20_0000_0000_0000);
        assert(pow2(1074) == pow2(1021) * 0x20_0000_0000_0000) by {
            vstd::arithmetic::power2::lemma_pow2_adds(1021, 53);
        }
        assert(k * pow2(1021) < 0x20_0000_0000_0000 * pow2(1021)) by {
            lemma_mul_strict_inequality(k as int, 0x20_0000_0000_0000, pow2(1021) as int);
        }
        assert(0 <= k * pow2(1021)) by (nonlinear_arith)
            requires
                0 <= k,
                0 < pow2(1021),
        ;
    }
    if k == 0 {
        assert(0 * pow2(1021) == 0);
        return Scalar::zero();
    }
    // Double the significand until its hidden bit is set; each doubling
    // takes one from the exponent.
    let mut sig = k;
    let mut e: u64 = 1022;
    let mut i: u64 = 0;
    while sig < HIDDEN_BIT
        invariant
            0 <= i <= 52,
            e == 1022 - i,
            pow2(i as nat) <= sig < 2 * HIDDEN_BIT,
            sig * pow2((e - 1) as nat) == k * pow2(1021),
        decreases 2 * HIDDEN_BIT - sig,
    {
        proof {
            lemma2_to64();
            lemma2_to64_rest();
            if i >= 52 {
                assert(pow2(52) <= sig);
            }
            lemma_pow2_unfold((i + 1) as nat);
            lemma_pow2_unfold((e - 1) as nat);
            lemma_mul_is_associative(sig as int, 2, pow2((e - 2) as nat) as int);
        }
        sig = sig * 2;
        e = e - 1;
        i = i + 1;
    }
    let bits = e * HIDDEN_BIT + (sig - HIDDEN_BIT);
    proof {
        assert(bits as int / (HIDDEN_BIT as int) == e);
        assert(bits as int % (HIDDEN_BIT as int) == sig - HIDDEN_BIT);
        assert(magnitude_units(bits as int) == sig * pow2((e - 1) as nat));
    }
    Scalar::from_bits(bits)
}

/// The encoding of 1e-160: a drawn vector whose squared length is not above
/// this is too short to be scaled to length 1.
pub const SHORTEST_BITS: u64 = 0x1eb6_7e9c_127b_6e74;

/// Whether a vector drawn from the cube around the origin can be scaled to a
/// direction: its squared length is above 1e-160 and at most 1. Keeping
/// those and no others leaves every direction as likely as any other.
pub open spec fn spec_keeps_direction(len_squared: Scalar) -> bool {
    (Scalar { bits: SHORTEST_BITS }).spec_lt(len_squared) && len_squared.spec_le(Scalar::spec_one())
}

#[verifier::when_used_as_spec(spec_keeps_direction)]
pub fn keeps_direction(len_squared: Scalar) -> (r: bool)
    ensures
        r == spec_keeps_direction(len_squared),
{
    Scalar::from_bits(SHORTEST_BITS).lt(len_squared) && len_squared.le(Scalar::one())
}

/// Whether a point drawn from the square around the origin lies on the
/// lens: its squared length is below 1.
pub open spec fn spec_keeps_lens_point(len_squared: Scalar) -> bool {
    len_squared.spec_lt(Scalar::spec_one())
}

#[verifier::when_used_as_spec(spec_keeps_lens_point)]
pub fn keeps_lens_point(len_squared: Scalar) -> (r: bool)
    ensures
        r == spec_keeps_lens_point(len_squared),
{
    len_squared.lt(Scalar::one())
}

} // verus!
