//! Real numbers as the tracer stores them: IEEE 754 binary64 values held by
//! their 64-bit encoding.
//!
//! The library never rounds. It compares, negates, clamps and truncates, and
//! each of those is exact, so each is stated here over the number that an
//! encoding stands for. Sums, products, quotients and roots are the caller's
//! business: the caller computes them in hardware and hands the encodings in.

use vstd::prelude::*;
use vstd::arithmetic::power2::{pow2, lemma_pow2_pos, lemma_pow2_strictly_increases, lemma_pow2_unfold};
use vstd::arithmetic::power2::{lemma_pow2_adds, lemma2_to64, lemma2_to64_rest};
use vstd::arithmetic::mul::{lemma_mul_strict_inequality, lemma_mul_inequality, lemma_mul_is_commutative};
use vstd::arithmetic::mul::lemma_mul_is_associative;
use vstd::arithmetic::div_mod::{lemma_div_multiples_vanish, lemma_div_multiples_vanish_quotient, lemma_basic_div};
use vstd::bits::{lemma_u64_shr_is_div, lemma_u64_shl_is_mul, lemma_u64_mul_pow2_le_max_iff_max_shr};

verus! {

/// The sign bit of an encoding.
pub const SIGN_BIT: u64 = 0x8000_0000_0000_0000;

/// The encoding of positive infinity; every larger magnitude is a NaN.
pub const INFINITY_BITS: u64 = 0x7ff0_0000_0000_0000;

/// Two to the 52nd: the number of fractions per exponent, and the hidden bit
/// of a normal significand.
pub const HIDDEN_BIT: u64 = 0x0010_0000_0000_0000;

/// The encoding of 1.
pub const ONE_BITS: u64 = 0x3ff0_0000_0000_0000;

/// What an encoding stands for. Every finite binary64 value is a whole
/// multiple of 2^-1074, so `Finite(n)` is the real number `n * 2^-1074`.
pub enum Extended {
    Nan,
    NegInfinity,
    Finite(int),
    Infinity,
}

impl Extended {
    /// Strictly less, as IEEE 754 compares: false whenever a NaN takes part.
    pub open spec fn lt(self, other: Extended) -> bool {
        match (self, other) {
            (Extended::Finite(a), Extended::Finite(b)) => a < b,
            (Extended::NegInfinity, Extended::Finite(_)) => true,
            (Extended::NegInfinity, Extended::Infinity) => true,
            (Extended::Finite(_), Extended::Infinity) => true,
            _ => false,
        }
    }

    /// Less or equal, as IEEE 754 compares: false whenever a NaN takes part.
    pub open spec fn le(self, other: Extended) -> bool {
        !(self is Nan) && !(other is Nan) && !other.lt(self)
    }

    /// The number with the opposite sign.
    pub open spec fn neg(self) -> Extended {
        match self {
            Extended::Nan => Extended::Nan,
            Extended::NegInfinity => Extended::Infinity,
            Extended::Finite(n) => Extended::Finite(-n),
            Extended::Infinity => Extended::NegInfinity,
        }
    }
}

/// The number, in units of 2^-1074, that a finite magnitude (an encoding
/// without its sign bit) stands for: the significand times two to the
/// exponent, where exponent field 0 holds the subnormals.
pub open spec fn magnitude_units(m: int) -> int {
    let exponent = m / (HIDDEN_BIT as int);
    let fraction = m % (HIDDEN_BIT as int);
    if exponent == 0 {
        fraction
    } else {
        (fraction + HIDDEN_BIT) * pow2((exponent - 1) as nat)
    }
}

/// A binary64 value, held by its encoding.
#[derive(Clone, Copy, Debug)]
pub struct Scalar {
    pub bits: u64,
}

impl View for Scalar {
    type V = Extended;

    open spec fn view(&self) -> Extended {
        if self.is_nan() {
            Extended::Nan
        } else if self.magnitude() == INFINITY_BITS {
            if self.is_negative() {
                Extended::NegInfinity
            } else {
                Extended::Infinity
            }
        } else if self.is_negative() {
            Extended::Finite(-magnitude_units(self.magnitude()))
        } else {
            Extended::Finite(magnitude_units(self.magnitude()))
        }
    }
}

impl Scalar {
    /// The encoding without its sign bit.
    pub open spec fn magnitude(self) -> int {
        if self.bits >= SIGN_BIT {
            self.bits - SIGN_BIT
        } else {
            self.bits as int
        }
    }

    /// Whether the sign bit is set (true of -0, too).
    pub open spec fn is_negative(self) -> bool {
        self.bits >= SIGN_BIT
    }

    /// Not a number: an all-ones exponent over a fraction that is not zero.
    pub open spec fn is_nan(self) -> bool {
        self.magnitude() > INFINITY_BITS
    }

    /// Neither a NaN nor an infinity.
    pub open spec fn is_finite(self) -> bool {
        self.magnitude() < INFINITY_BITS
    }

    /// The magnitude with the sign in front: an integer that is ordered as
    /// the values are (see `lemma_rank_orders_values`).
    pub open spec fn rank(self) -> int {
        if self.is_negative() {
            -self.magnitude()
        } else {
            self.magnitude()
        }
    }

    /// `self < other`, of the numbers that the two stand for.
    pub open spec fn spec_lt(self, other: Scalar) -> bool {
        self@.lt(other@)
    }

    /// `self <= other`, of the numbers that the two stand for.
    pub open spec fn spec_le(self, other: Scalar) -> bool {
        self@.le(other@)
    }

    /// The encoding with its sign bit flipped.
    pub open spec fn spec_neg(self) -> Scalar {
        Scalar {
            bits: if self.bits >= SIGN_BIT {
                (self.bits - SIGN_BIT) as u64
            } else {
                (self.bits + SIGN_BIT) as u64
            },
        }
    }

    /// The encoding with its sign bit cleared.
    pub open spec fn spec_abs(self) -> Scalar {
        Scalar { bits: self.magnitude() as u64 }
    }

    pub open spec fn spec_zero() -> Scalar {
        Scalar { bits: 0 }
    }

    pub open spec fn spec_one() -> Scalar {
        Scalar { bits: ONE_BITS }
    }

    pub open spec fn spec_infinity() -> Scalar {
        Scalar { bits: INFINITY_BITS }
    }

    pub open spec fn spec_neg_infinity() -> Scalar {
        Scalar { bits: 0xfff0_0000_0000_0000 }
    }

    /// The whole part of this number times two to the `k`, as a conversion
    /// to an unsigned integer gives it: zero for a NaN and for what is below
    /// zero, the largest integer for what is too large.
    pub open spec fn spec_truncate(self, k: nat) -> int {
        match self@ {
            Extended::Finite(n) => if n <= 0 {
                0
            } else if n * pow2(k) / (pow2(1074) as int) > u64::MAX {
                u64::MAX as int
            } else {
                n * pow2(k) / (pow2(1074) as int)
            },
            Extended::Infinity => u64::MAX as int,
            _ => 0,
        }
    }

    /// The value with the given encoding.
    pub fn from_bits(bits: u64) -> (r: Scalar)
        ensures
            r.bits == bits,
    {
        Scalar { bits }
    }

    /// The encoding.
    pub fn to_bits(self) -> (bits: u64)
        ensures
            bits == self.bits,
    {
        self.bits
    }

    #[verifier::when_used_as_spec(spec_zero)]
    pub fn zero() -> (r: Scalar)
        ensures
            r == Scalar::spec_zero(),
            r@ == Extended::Finite(0),
    {
        Scalar { bits: 0 }
    }

    #[verifier::when_used_as_spec(spec_one)]
    pub fn one() -> (r: Scalar)
        ensures
            r == Scalar::spec_one(),
    {
        Scalar { bits: ONE_BITS }
    }

    #[verifier::when_used_as_spec(spec_infinity)]
    pub fn infinity() -> (r: Scalar)
        ensures
            r == Scalar::spec_infinity(),
            r@ == Extended::Infinity,
    {
        Scalar { bits: INFINITY_BITS }
    }

    #[verifier::when_used_as_spec(spec_neg_infinity)]
    pub fn neg_infinity() -> (r: Scalar)
        ensures
            r == Scalar::spec_neg_infinity(),
            r@ == Extended::NegInfinity,
    {
        Scalar { bits: 0xfff0_0000_0000_0000 }
    }

    fn magnitude_bits(self) -> (m: u64)
        ensures
            m == self.magnitude(),
    {
        if self.bits >= SIGN_BIT {
            self.bits - SIGN_BIT
        } else {
            self.bits
        }
    }

    /// Whether this is not a number.
    pub fn nan(self) -> (r: bool)
        ensures
            r == self.is_nan(),
            r == (self@ is Nan),
    {
        self.magnitude_bits() > INFINITY_BITS
    }

    /// Whether this is neither a NaN nor an infinity.
    pub fn finite(self) -> (r: bool)
        ensures
            r == self.is_finite(),
            r == (self@ is Finite),
    {
        self.magnitude_bits() < INFINITY_BITS
    }

    /// `self < other`.
    #[verifier::when_used_as_spec(spec_lt)]
    pub fn lt(self, other: Scalar) -> (r: bool)
        ensures
            r == self@.lt(other@),
    {
        if self.nan() || other.nan() {
            return false;
        }
        proof {
            lemma_rank_orders_values(self, other);
        }
        let a = self.magnitude_bits();
        let b = other.magnitude_bits();
        if self.bits >= SIGN_BIT {
            if other.bits >= SIGN_BIT {
                b < a
            } else {
                a != 0 || b != 0
            }
        } else {
            if other.bits >= SIGN_BIT {
                false
            } else {
                a < b
            }
        }
    }

    /// `self <= other`.
    #[verifier::when_used_as_spec(spec_le)]
    pub fn le(self, other: Scalar) -> (r: bool)
        ensures
            r == self@.le(other@),
    {
        if self.nan() || other.nan() {
            return false;
        }
        proof {
            lemma_rank_orders_values(self, other);
        }
        let a = self.magnitude_bits();
        let b = other.magnitude_bits();
        if self.bits >= SIGN_BIT {
            if other.bits >= SIGN_BIT {
                b <= a
            } else {
                true
            }
        } else {
            if other.bits >= SIGN_BIT {
                a == 0 && b == 0
            } else {
                a <= b
            }
        }
    }

    /// `-self`: the same magnitude under the other sign. Exact for every
    /// encoding, the NaNs included.
    #[verifier::when_used_as_spec(spec_neg)]
    pub fn neg(self) -> (r: Scalar)
        ensures
            r == self.spec_neg(),
            r@ == self@.neg(),
            r.magnitude() == self.magnitude(),
    {
        if self.bits >= SIGN_BIT {
            Scalar { bits: self.bits - SIGN_BIT }
        } else {
            Scalar { bits: self.bits + SIGN_BIT }
        }
    }

    /// `self * 2^k`, cut down to a whole number.
    pub fn truncate(self, k: u32) -> (r: u64)
        ensures
            r == self.spec_truncate(k as nat),
    {
        let m = self.magnitude_bits();
        if self.bits >= SIGN_BIT || m > INFINITY_BITS {
            proof {
                if m < INFINITY_BITS && m > 0 {
                    lemma_magnitude_units_increase(0, m as int);
                }
                assert(magnitude_units(0) == 0);
            }
            return 0;
        }
        if m == INFINITY_BITS {
            return u64::MAX;
        }
        let e = m / HIDDEN_BIT;
        let f = m % HIDDEN_BIT;
        let sig = if e == 0 { f } else { f + HIDDEN_BIT };
        let scale = if e == 0 { 0 } else { e - 1 };
        let p = scale + k as u64;
        proof {
            lemma2_to64();
            lemma2_to64_rest();
            assert(pow2(0) == 1);
            assert(magnitude_units(m as int) == sig * pow2(scale as nat));
            lemma_floor_pow2(sig as int, scale as nat, k as nat);
            lemma_pow2_pos(scale as nat);
            assert(sig == 0 ==> sig * pow2(scale as nat) == 0) by (nonlinear_arith);
            assert(sig > 0 ==> sig * pow2(scale as nat) > 0) by (nonlinear_arith)
                requires
                    pow2(scale as nat) > 0,
            ;
            assert(self@ == Extended::Finite(sig * pow2(scale as nat)));
        }
        let ghost whole = (sig * pow2(scale as nat)) * pow2(k as nat) / (pow2(1074) as int);
        if sig == 0 {
            0
        } else if p >= 1074 {
            let l = p - 1074;
            assert(whole == sig * pow2(l as nat));
            if l >= 64 {
                proof {
                    if l > 64 {
                        lemma_pow2_strictly_increases(64, l as nat);
                    }
                    lemma_mul_inequality(1, sig as int, pow2(l as nat) as int);
                    assert(whole > u64::MAX);
                }
                u64::MAX
            } else {
                proof {
                    lemma_u64_mul_pow2_le_max_iff_max_shr(sig, l, u64::MAX);
                }
                if sig <= (u64::MAX >> l) {
                    proof {
                        lemma_u64_shl_is_mul(sig, l);
                    }
                    sig << l
                } else {
                    u64::MAX
                }
            }
        } else {
            let d = 1074 - p;
            assert(whole == (sig as int) / (pow2(d as nat) as int));
            if d >= 64 {
                proof {
                    if d > 64 {
                        lemma_pow2_strictly_increases(64, d as nat);
                    }
                    lemma_basic_div(sig as int, pow2(d as nat) as int);
                    assert(whole == 0);
                }
                0
            } else {
                proof {
                    lemma_u64_shr_is_div(sig, d);
                    lemma_pow2_pos(d as nat);
                    assert(whole <= sig) by (nonlinear_arith)
                        requires
                            whole == (sig as int) / (pow2(d as nat) as int),
                            pow2(d as nat) > 0,
                            sig >= 0,
                    ;
                }
                sig >> d
            }
        }
    }

    /// `|self|`: the same magnitude with the sign bit cleared.
    #[verifier::when_used_as_spec(spec_abs)]
    pub fn abs(self) -> (r: Scalar)
        ensures
            r == self.spec_abs(),
            r@ == (if self@.lt(Extended::Finite(0)) { self@.neg() } else { self@ }),
    {
        proof {
            if self.magnitude() < INFINITY_BITS && self.magnitude() > 0 {
                lemma_magnitude_units_increase(0, self.magnitude());
            }
            assert(magnitude_units(0) == 0);
        }
        Scalar { bits: self.magnitude_bits() }
    }
}


/// A larger finite magnitude stands for a larger number.
pub proof fn lemma_magnitude_units_increase(m1: int, m2: int)
    requires
        0 <= m1 < m2 < INFINITY_BITS,
    ensures
        0 <= magnitude_units(m1) < magnitude_units(m2),
{
    let h = HIDDEN_BIT as int;
    let e1 = m1 / h;
    let f1 = m1 % h;
    let e2 = m2 / h;
    let f2 = m2 % h;
    assert(m1 == h * e1 + f1 && m2 == h * e2 + f2);
    assert(0 <= e1 <= e2 < 2047);
    if e1 == 0 {
        if e2 > 0 {
            lemma_pow2_pos((e2 - 1) as nat);
            lemma_mul_inequality(1, pow2((e2 - 1) as nat) as int, f2 + h);
            lemma_mul_is_commutative(pow2((e2 - 1) as nat) as int, f2 + h);
        }
    } else {
        let lower = pow2((e1 - 1) as nat) as int;
        let upper = pow2((e2 - 1) as nat) as int;
        lemma_pow2_pos((e1 - 1) as nat);
        lemma_pow2_pos((e2 - 1) as nat);
        assert(0 <= (f1 + h) * lower) by (nonlinear_arith)
            requires
                0 <= f1 + h,
                0 < lower,
        ;
        if e1 == e2 {
            lemma_mul_strict_inequality(f1 + h, f2 + h, lower);
        } else {
            // (f1 + h) * lower < 2h * lower = h * pow2(e1) <= h * upper <= (f2 + h) * upper
            lemma_pow2_unfold(e1 as nat);
            let q = pow2(e1 as nat) as int;
            assert(q == 2 * lower);
            if e1 < e2 - 1 {
                lemma_pow2_strictly_increases(e1 as nat, (e2 - 1) as nat);
            }
            assert(q <= upper);
            assert((f1 + h) * lower < (f2 + h) * upper) by (nonlinear_arith)
                requires
                    0 <= f1 < h,
                    0 <= f2 < h,
                    0 < lower,
                    2 * lower <= upper,
            ;
        }
    }
}

/// Ranks are ordered as the values they stand for: comparing two encodings
/// as signed magnitudes compares the numbers.
pub proof fn lemma_rank_orders_values(a: Scalar, b: Scalar)
    requires
        !a.is_nan(),
        !b.is_nan(),
    ensures
        a.spec_lt(b) <==> a.rank() < b.rank(),
        a.spec_le(b) <==> a.rank() <= b.rank(),
{
    let ma = a.magnitude();
    let mb = b.magnitude();
    if ma < INFINITY_BITS && mb < INFINITY_BITS {
        if ma < mb {
            lemma_magnitude_units_increase(ma, mb);
        } else if mb < ma {
            lemma_magnitude_units_increase(mb, ma);
        }
        if 0 < ma {
            lemma_magnitude_units_increase(0, ma);
        }
        if 0 < mb {
            lemma_magnitude_units_increase(0, mb);
        }
        assert(magnitude_units(0) == 0);
    }
}

/// One is a finite number, it lies above zero, and it is 2^1074 units.
pub proof fn lemma_one_is_finite()
    ensures
        Scalar::spec_one()@ == Extended::Finite(pow2(1074) as int),
        Scalar::spec_zero().spec_lt(Scalar::spec_one()),
{
    lemma_rank_orders_values(Scalar::spec_zero(), Scalar::spec_one());
    lemma2_to64_rest();
    lemma_pow2_adds(52, 1022);
    assert(ONE_BITS as int / (HIDDEN_BIT as int) == 1023);
    assert(ONE_BITS as int % (HIDDEN_BIT as int) == 0);
}

/// A significand times a power of two, times two to the `k`, over two to
/// the 1074: the powers cancel, and what is left is a shift of the
/// significand, to the left or to the right.
pub proof fn lemma_floor_pow2(sig: int, scale: nat, k: nat)
    requires
        0 <= sig,
    ensures
        scale + k >= 1074 ==> (sig * pow2(scale)) * pow2(k) / (pow2(1074) as int) == sig * pow2(
            (scale + k - 1074) as nat,
        ),
        scale + k < 1074 ==> (sig * pow2(scale)) * pow2(k) / (pow2(1074) as int) == sig / (pow2(
            (1074 - scale - k) as nat,
        ) as int),
{
    let base = pow2(1074) as int;
    lemma_pow2_pos(1074);
    lemma_pow2_adds(scale, k);
    lemma_mul_is_associative(sig, pow2(scale) as int, pow2(k) as int);
    assert((sig * pow2(scale)) * pow2(k) == sig * pow2(scale + k));
    if scale + k >= 1074 {
        let l = (scale + k - 1074) as nat;
        lemma_pow2_adds(1074, l);
        lemma_mul_is_associative(sig, base, pow2(l) as int);
        lemma_mul_is_commutative(base, pow2(l) as int);
        lemma_mul_is_associative(sig, pow2(l) as int, base);
        lemma_mul_is_commutative(sig * pow2(l), base);
        assert(sig * pow2(scale + k) == base * (sig * pow2(l)));
        lemma_div_multiples_vanish(sig * pow2(l), base);
    } else {
        let d = (1074 - scale - k) as nat;
        let x = pow2(scale + k) as int;
        lemma_pow2_pos(scale + k);
        lemma_pow2_pos(d);
        lemma_pow2_adds(scale + k, d);
        lemma_div_multiples_vanish_quotient(x, sig, pow2(d) as int);
        lemma_mul_is_commutative(x, sig);
    }
}

/// The numbers are in a strict order that no NaN takes part in: nothing is
/// below itself, what is below something below a third is below the third,
/// and of two different numbers one is below the other.
pub proof fn lemma_order_is_strict(a: Scalar, b: Scalar, c: Scalar)
    ensures
        !a.spec_lt(a),
        a.spec_lt(b) && b.spec_lt(c) ==> a.spec_lt(c),
        a.spec_le(b) && b.spec_le(c) ==> a.spec_le(c),
        a.spec_le(b) <==> a.spec_lt(b) || (a@ == b@ && !a.is_nan()),
        !a.is_nan() && !b.is_nan() ==> a.spec_lt(b) || b.spec_lt(a) || a@ == b@,
{
}

/// Negation turns the order round.
pub proof fn lemma_neg_reverses_order(a: Scalar, b: Scalar)
    ensures
        a.spec_lt(b) <==> b.spec_neg().spec_lt(a.spec_neg()),
        a.spec_le(b) <==> b.spec_neg().spec_le(a.spec_neg()),
        a.spec_neg().spec_neg() == a,
{
}

} // verus!
