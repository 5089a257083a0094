//! Colours, and the text of a pixel.

use vstd::prelude::*;
use vstd::arithmetic::power2::{pow2, lemma_pow2_pos, lemma2_to64};
use crate::scalar::{Scalar, Extended, lemma_one_is_finite, lemma_rank_orders_values};
use crate::vec3::Vec3;
use crate::interval::Interval;

verus! {

pub type Color = Vec3;

/// The encoding of 0.999, the most light that a channel shows.
pub const INTENSITY_MAX_BITS: u64 = 0x3fef_f7ce_d916_872b;

pub open spec fn spec_white() -> Color {
    Vec3 { e0: Scalar::spec_one(), e1: Scalar::spec_one(), e2: Scalar::spec_one() }
}

/// Full light in every channel.
#[verifier::when_used_as_spec(spec_white)]
pub fn white() -> (c: Color)
    ensures
        c == spec_white(),
{
    Vec3::new(Scalar::one(), Scalar::one(), Scalar::one())
}

/// The range of light that a channel shows: from 0 to 0.999.
pub open spec fn intensity() -> Interval {
    Interval { min: Scalar::spec_zero(), max: Scalar { bits: INTENSITY_MAX_BITS } }
}

/// The byte for a channel: the channel pulled into `intensity`, times 256,
/// cut down to a whole number. There is no gamma in it.
pub open spec fn quantized(channel: Scalar) -> int {
    intensity().spec_clamp(channel).spec_truncate(8)
}

/// The decimal digits of `n`, in ASCII.
pub open spec fn decimal(n: nat) -> Seq<u8>
    decreases n,
{
    if n < 10 {
        seq![(48 + n) as u8]
    } else {
        decimal(n / 10).push((48 + n % 10) as u8)
    }
}

/// The line of a pixel: its three bytes in decimal, a space between them,
/// a line feed behind them.
pub open spec fn pixel_line(pixel_color: Color) -> Seq<u8> {
    decimal(quantized(pixel_color.e0) as nat) + seq![32u8] + decimal(
        quantized(pixel_color.e1) as nat,
    ) + seq![32u8] + decimal(quantized(pixel_color.e2) as nat) + seq![10u8]
}

/// Every byte of a channel is a byte: the clamp leaves nothing at 1 or above
/// and nothing below zero.
pub proof fn lemma_quantized_is_a_byte(channel: Scalar)
    ensures
        0 <= quantized(channel) <= 255,
{
    let top = Scalar { bits: INTENSITY_MAX_BITS };
    let c = intensity().spec_clamp(channel);
    lemma_one_is_finite();
    lemma_rank_orders_values(top, Scalar::spec_one());
    lemma_rank_orders_values(Scalar::spec_zero(), top);
    lemma2_to64();
    lemma_pow2_pos(1074);
    match c@ {
        Extended::Finite(n) => {
            if n > 0 {
                let base = pow2(1074) as int;
                assert(n < base);
                assert(0 <= n * 256 / base <= 255) by (nonlinear_arith)
                    requires
                        0 < n < base,
                ;
            }
        },
        _ => {},
    }
}

/// The byte for a channel.
pub fn quantize(channel: Scalar) -> (q: u8)
    ensures
        q == quantized(channel),
{
    let range = Interval::new(Scalar::zero(), Scalar::from_bits(INTENSITY_MAX_BITS));
    let whole = range.clamp(channel).truncate(8);
    proof {
        lemma_quantized_is_a_byte(channel);
    }
    whole as u8
}

/// Appends the decimal digits of `n`.
pub fn push_decimal(out: &mut Vec<u8>, n: u64)
    ensures
        final(out)@ == old(out)@ + decimal(n as nat),
    decreases n,
{
    if n >= 10 {
        push_decimal(out, n / 10);
    }
    out.push(48 + (n % 10) as u8);
}

/// Appends the line of a pixel to the text of the image.
pub fn write_color(pixel_color: &Color, out: &mut Vec<u8>)
    ensures
        final(out)@ == old(out)@ + pixel_line(*pixel_color),
{
    let ir = quantize(pixel_color.x());
    let ig = quantize(pixel_color.y());
    let ib = quantize(pixel_color.z());
    push_decimal(out, ir as u64);
    out.push(32);
    push_decimal(out, ig as u64);
    out.push(32);
    push_decimal(out, ib as u64);
    out.push(10);
}

/// The number that decimal digits spell.
pub open spec fn decimal_value(digits: Seq<u8>) -> nat
    decreases digits.len(),
{
    if digits.len() == 0 {
        0
    } else {
        (decimal_value(digits.drop_last()) * 10 + (digits.last() - 48)) as nat
    }
}

/// The digits of a number are digits, they spell that number, and they
/// start with a zero only where the number is zero.
pub proof fn lemma_decimal_spells_its_number(n: nat)
    ensures
        decimal(n).len() >= 1,
        forall|i: int| 0 <= i < decimal(n).len() ==> 48 <= #[trigger] decimal(n)[i] <= 57,
        decimal_value(decimal(n)) == n,
        decimal(n)[0] == 48 <==> n == 0,
    decreases n,
{
    if n < 10 {
        let d = decimal(n);
        assert(d.drop_last().len() == 0);
        assert(decimal_value(d.drop_last()) == 0);
    } else {
        lemma_decimal_spells_its_number(n / 10);
        let head = decimal(n / 10);
        let d = decimal(n);
        assert(d == head.push((48 + n % 10) as u8));
        assert(d.drop_last() == head);
        assert(d[0] == head[0]);
    }
}

/// More light never gives a smaller byte.
pub proof fn lemma_quantized_is_monotonic(darker: Scalar, brighter: Scalar)
    requires
        darker.spec_le(brighter),
    ensures
        quantized(darker) <= quantized(brighter),
{
    let top = Scalar { bits: INTENSITY_MAX_BITS };
    let a = intensity().spec_clamp(darker);
    let b = intensity().spec_clamp(brighter);
    lemma_rank_orders_values(Scalar::spec_zero(), top);
    lemma_quantized_is_a_byte(darker);
    lemma_quantized_is_a_byte(brighter);
    lemma_pow2_pos(1074);
    lemma2_to64();
    assert(a.spec_le(b));
    match (a@, b@) {
        (Extended::Finite(m), Extended::Finite(n)) => {
            if m > 0 {
                let base = pow2(1074) as int;
                assert(m * 256 <= n * 256);
                vstd::arithmetic::div_mod::lemma_div_is_ordered(m * 256, n * 256, base);
            }
        },
        _ => {},
    }
}

} // verus!
