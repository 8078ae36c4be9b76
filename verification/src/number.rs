//! Script numbers.
//!
//! A script number is a binary64 value. The library holds it by its bit
//! pattern and reads it with whole-number arithmetic only: sign, exponent and
//! fraction, the whole part of the magnitude, and the comparisons and
//! conversions that the operations on clips need. Every result here is exact.
//!
//! Scaling a number by a factor that is no power of two rounds, and is done
//! where the number enters: [`Pixels`], [`Percent`] and [`Fraction`] carry a
//! number together with the scaled whole number that was computed for it.

use vstd::prelude::*;
use vstd::arithmetic::power2::*;
use vstd::arithmetic::div_mod::*;
use crate::depth::wrap32;

verus! {

/// Two to the power 52: the weight of the hidden bit of a significand.
pub const HIDDEN_BIT: u64 = 0x10_0000_0000_0000;

/// Two to the power 63: the sign bit.
pub const SIGN_BIT: u64 = 0x8000_0000_0000_0000;

/// Two to the power 32.
pub const TWO_32: u64 = 0x1_0000_0000;

/// Width of a line of 255 pixels, in twips.
pub const MAX_WIDTH_TWIPS: i32 = 5100;

/// A script number, held by the bit pattern of its binary64 value.
#[derive(Clone, Copy, Debug, PartialEq, Eq)]
pub struct Number {
    pub bits: u64,
}

impl Number {
    /// Whether the sign bit is set.
    pub open spec fn negative(self) -> bool {
        self.bits >= SIGN_BIT
    }

    /// The biased exponent, between 0 and 2047.
    pub open spec fn exponent(self) -> int {
        (self.bits as int / HIDDEN_BIT as int) % 2048
    }

    /// The 52 stored bits of the significand.
    pub open spec fn fraction(self) -> int {
        self.bits as int % HIDDEN_BIT as int
    }

    /// Whether the pattern is not a number.
    pub open spec fn spec_is_nan(self) -> bool {
        self.exponent() == 2047 && self.fraction() != 0
    }

    /// Whether the pattern is neither an infinity nor not a number.
    pub open spec fn spec_is_finite(self) -> bool {
        self.exponent() != 2047
    }

    /// Whether the number is zero, of either sign.
    pub open spec fn spec_is_zero(self) -> bool {
        self.exponent() == 0 && self.fraction() == 0
    }

    /// The significand as a whole number: the stored bits, and the hidden bit
    /// unless the number is subnormal.
    pub open spec fn significand(self) -> int {
        if self.exponent() == 0 {
            self.fraction()
        } else {
            self.fraction() + HIDDEN_BIT
        }
    }

    /// How many binary places of the significand lie behind the point: the
    /// magnitude of a finite number is `significand / 2^places`. A negative
    /// count means that the significand is a whole number to be doubled.
    pub open spec fn places(self) -> int {
        if self.exponent() == 0 {
            1074
        } else {
            1075 - self.exponent()
        }
    }

    /// The whole part of the magnitude of a finite number.
    pub open spec fn magnitude(self) -> int {
        if self.places() <= 0 {
            self.significand() * pow2((-self.places()) as nat)
        } else {
            self.significand() / (pow2(self.places() as nat) as int)
        }
    }

    /// The whole part of a finite number, rounded toward zero.
    pub open spec fn integer_part(self) -> int {
        if self.negative() {
            -self.magnitude()
        } else {
            self.magnitude()
        }
    }

    /// Whether the number is finite and has no fractional part.
    pub open spec fn spec_is_integral(self) -> bool {
        self.spec_is_finite() && (self.places() <= 0 || self.significand() % (pow2(
            self.places() as nat,
        ) as int) == 0)
    }

    /// The whole part reduced modulo 2^32 into the signed 32-bit range; zero
    /// for an infinity and for not a number.
    pub open spec fn spec_wrapping_i32(self) -> int {
        if self.spec_is_finite() {
            wrap32(self.integer_part())
        } else {
            0
        }
    }

    /// Whether the number is at least the whole number `n`, which is not negative.
    pub open spec fn spec_at_least(self, n: int) -> bool {
        if n >= 1 {
            !self.spec_is_nan() && !self.negative() && (!self.spec_is_finite()
                || self.magnitude() >= n)
        } else {
            !self.spec_is_nan() && (!self.negative() || self.spec_is_zero())
        }
    }

    /// Whether the number is zero or less.
    pub open spec fn spec_at_most_zero(self) -> bool {
        !self.spec_is_nan() && (self.negative() || self.spec_is_zero())
    }

    /// The number limited to the range from 0 to 255 and cut to its whole
    /// part, where not a number counts as 255.
    pub open spec fn spec_clamped_byte(self) -> int {
        if self.spec_is_nan() {
            255
        } else if self.negative() {
            0
        } else if !self.spec_is_finite() {
            255
        } else if self.magnitude() >= 255 {
            255
        } else {
            self.magnitude()
        }
    }

    /// The whole part limited to the signed 32-bit range: not a number gives
    /// zero, and an infinity the end of the range on its side.
    pub open spec fn spec_saturating_i32(self) -> int {
        if self.spec_is_nan() {
            0
        } else if !self.spec_is_finite() {
            if self.negative() {
                i32::MIN as int
            } else {
                i32::MAX as int
            }
        } else if self.integer_part() < i32::MIN {
            i32::MIN as int
        } else if self.integer_part() > i32::MAX {
            i32::MAX as int
        } else {
            self.integer_part()
        }
    }

    /// The number with the given bit pattern.
    pub fn from_bits(bits: u64) -> (n: Number)
        ensures
            n.bits == bits,
    {
        Number { bits }
    }

    /// The bit pattern of the number.
    pub fn to_bits(self) -> (bits: u64)
        ensures
            bits == self.bits,
    {
        self.bits
    }

    /// The whole number `value` as a script number. Every 32-bit whole number
    /// is a finite number without fractional part, and is its own whole part.
    pub fn from_i32(value: i32) -> (n: Number)
        ensures
            n.spec_is_integral(),
            n.integer_part() == value,
            n.negative() == (value < 0),
    {
        let negative = value < 0;
        let magnitude: u64 = if negative {
            (-(value as i64)) as u64
        } else {
            value as u64
        };
        if magnitude == 0 {
            let n = Number { bits: 0 };
            proof {
                lemma2_to64();
                lemma2_to64_rest();
                assert(n.exponent() == 0 && n.fraction() == 0);
                assert(n.places() == 1074);
                lemma_pow2_pos(1074);
                assert(0int % (pow2(1074) as int) == 0) by {
                    lemma_small_mod(0, pow2(1074));
                }
                assert(0int / (pow2(1074) as int) == 0) by {
                    lemma_basic_div(0, pow2(1074) as int);
                }
            }
            return n;
        }
        // Normalise: shift the magnitude up until the hidden bit is set.
        let mut significand: u64 = magnitude;
        let mut places: u64 = 0;
        proof {
            lemma2_to64();
            assert(magnitude * pow2(0) == magnitude);
        }
        while significand < HIDDEN_BIT
            invariant
                0 < significand < 2 * HIDDEN_BIT,
                places <= 52,
                significand == magnitude * pow2(places as nat),
                0 < magnitude <= 0x8000_0000,
                significand < HIDDEN_BIT ==> places < 52,
            decreases 2 * HIDDEN_BIT - significand,
        {
            proof {
                lemma_pow2_unfold((places + 1) as nat);
                assert(magnitude * (2 * pow2(places as nat)) == 2 * (magnitude * pow2(
                    places as nat,
                ))) by (nonlinear_arith);
                if places + 1 == 52 && 2 * significand < HIDDEN_BIT {
                    lemma2_to64_rest();
                    assert(magnitude * pow2(52) >= pow2(52)) by (nonlinear_arith)
                        requires
                            magnitude >= 1,
                    ;
                }
            }
            significand = significand * 2;
            places = places + 1;
        }
        let exponent: u64 = 1075 - places;
        let sign: u64 = if negative {
            SIGN_BIT
        } else {
            0
        };
        let n = Number { bits: sign + exponent * HIDDEN_BIT + (significand - HIDDEN_BIT) };
        proof {
            let f = (significand - HIDDEN_BIT) as int;
            let rest = exponent * HIDDEN_BIT + f;
            assert(n.negative() == negative);
            assert(rest / (HIDDEN_BIT as int) == exponent as int && rest % (HIDDEN_BIT as int)
                == f) by {
                lemma_fundamental_div_mod_converse(rest, HIDDEN_BIT as int, exponent as int, f);
            }
            if negative {
                assert(n.bits as int == 2048 * (HIDDEN_BIT as int) + rest);
                assert(n.bits as int / (HIDDEN_BIT as int) == 2048 + exponent && n.bits as int
                    % (HIDDEN_BIT as int) == f) by {
                    lemma_fundamental_div_mod_converse(
                        n.bits as int,
                        HIDDEN_BIT as int,
                        2048 + exponent,
                        f,
                    );
                }
            }
            assert(n.exponent() == exponent);
            assert(n.fraction() == f);
            assert(n.significand() == significand);
            assert(n.places() == places);
            if places == 0 {
                lemma2_to64();
                assert(pow2(0) == 1);
                assert(significand * pow2(0) == significand);
            } else {
                lemma_pow2_pos(places as nat);
                let p = pow2(places as nat) as int;
                assert(significand as int == p * magnitude) by (nonlinear_arith)
                    requires
                        significand as int == magnitude * p,
                ;
                lemma_fundamental_div_mod_converse(significand as int, p, magnitude as int, 0);
            }
        }
        n
    }

    /// Tells whether the pattern is not a number.
    pub fn is_nan(self) -> (r: bool)
        ensures
            r == self.spec_is_nan(),
    {
        (self.bits / HIDDEN_BIT) % 2048 == 2047 && self.bits % HIDDEN_BIT != 0
    }

    /// Tells whether the number is finite.
    pub fn is_finite(self) -> (r: bool)
        ensures
            r == self.spec_is_finite(),
    {
        (self.bits / HIDDEN_BIT) % 2048 != 2047
    }

    /// Tells whether the sign bit is set.
    pub fn is_negative(self) -> (r: bool)
        ensures
            r == self.negative(),
    {
        self.bits >= SIGN_BIT
    }

    /// Tells whether the number is zero or less.
    pub fn at_most_zero(self) -> (r: bool)
        ensures
            r == self.spec_at_most_zero(),
    {
        !self.is_nan() && (self.bits >= SIGN_BIT || self.bits == 0)
    }

    /// The whole part of the magnitude, limited to `cap`.
    fn magnitude_capped(self, cap: u64) -> (m: u64)
        requires
            self.spec_is_finite(),
            cap <= HIDDEN_BIT,
        ensures
            m == if self.magnitude() >= cap {
                cap as int
            } else {
                self.magnitude()
            },
    {
        let exponent: u64 = (self.bits / HIDDEN_BIT) % 2048;
        let fraction: u64 = self.bits % HIDDEN_BIT;
        if exponent >= 1075 {
            proof {
                lemma_pow2_pos((exponent - 1075) as nat);
                lemma_magnitude_of_product(
                    self.significand(),
                    pow2((exponent - 1075) as nat) as int,
                );
            }
            return cap;
        }
        let significand: u64 = if exponent == 0 {
            fraction
        } else {
            fraction + HIDDEN_BIT
        };
        let places: u64 = if exponent == 0 {
            1074
        } else {
            1075 - exponent
        };
        if places >= 53 {
            proof {
                lemma_places_beyond(significand as int, places as nat);
            }
            return 0;
        }
        let divisor = pow2_u64(places);
        let whole = significand / divisor;
        if whole >= cap {
            cap
        } else {
            whole
        }
    }

    /// Tells whether the number is at least the whole number `n`.
    pub fn at_least(self, n: u32) -> (r: bool)
        ensures
            r == self.spec_at_least(n as int),
    {
        if n == 0 {
            !self.is_nan() && self.bits <= SIGN_BIT
        } else if self.is_nan() || self.bits >= SIGN_BIT {
            false
        } else if !self.is_finite() {
            true
        } else {
            self.magnitude_capped(n as u64) == n as u64
        }
    }

    /// Limits the number to the range from 0 to 255 and cuts it to its whole
    /// part; not a number gives 255.
    pub fn clamped_byte(self) -> (b: u8)
        ensures
            b == self.spec_clamped_byte(),
    {
        if self.is_nan() {
            255
        } else if self.bits >= SIGN_BIT {
            0
        } else if !self.is_finite() {
            255
        } else {
            self.magnitude_capped(255) as u8
        }
    }

    /// Converts the number to a signed 32-bit whole number, cutting the
    /// fractional part and limiting the result to the range.
    pub fn to_saturating_i32(self) -> (r: i32)
        ensures
            r == self.spec_saturating_i32(),
    {
        if self.is_nan() {
            0
        } else if !self.is_finite() {
            if self.bits >= SIGN_BIT {
                i32::MIN
            } else {
                i32::MAX
            }
        } else {
            let m = self.magnitude_capped(0x8000_0000);
            if self.bits >= SIGN_BIT {
                if m >= 0x8000_0000 {
                    i32::MIN
                } else {
                    -(m as i32)
                }
            } else {
                if m >= 0x8000_0000 {
                    i32::MAX
                } else {
                    m as i32
                }
            }
        }
    }

    /// Tells whether the number is finite and has no fractional part.
    pub fn is_integral(self) -> (r: bool)
        ensures
            r == self.spec_is_integral(),
    {
        let exponent: u64 = (self.bits / HIDDEN_BIT) % 2048;
        let fraction: u64 = self.bits % HIDDEN_BIT;
        if exponent == 2047 {
            return false;
        }
        if exponent >= 1075 {
            return true;
        }
        let significand: u64 = if exponent == 0 {
            fraction
        } else {
            fraction + HIDDEN_BIT
        };
        let places: u64 = if exponent == 0 {
            1074
        } else {
            1075 - exponent
        };
        if places >= 53 {
            proof {
                lemma_places_beyond(significand as int, places as nat);
            }
            return significand == 0;
        }
        let divisor = pow2_u64(places);
        significand % divisor == 0
    }

    /// Converts the number to a signed 32-bit whole number: the whole part,
    /// reduced modulo 2^32. An infinity and not a number give zero.
    pub fn to_wrapping_i32(self) -> (r: i32)
        ensures
            r == self.spec_wrapping_i32(),
    {
        let exponent: u64 = (self.bits / HIDDEN_BIT) % 2048;
        let fraction: u64 = self.bits % HIDDEN_BIT;
        if exponent == 2047 {
            return 0;
        }
        let significand: u64 = if exponent == 0 {
            fraction
        } else {
            fraction + HIDDEN_BIT
        };
        let low: u64 = if exponent >= 1075 + 32 {
            proof {
                lemma_high_multiple(significand as int, (exponent - 1075) as nat);
            }
            0
        } else if exponent >= 1075 {
            let factor = pow2_u64(exponent - 1075);
            proof {
                lemma_pow2_strictly_increases((exponent - 1075) as nat, 32);
                lemma2_to64();
                assert(significand * factor < 0x20_0000_0000_0000 * 0x1_0000_0000)
                    by (nonlinear_arith)
                    requires
                        significand < 0x20_0000_0000_0000,
                        factor < 0x1_0000_0000,
                ;
            }
            let product: u128 = (significand as u128) * (factor as u128);
            (product % (TWO_32 as u128)) as u64
        } else {
            let places: u64 = if exponent == 0 {
                1074
            } else {
                1075 - exponent
            };
            if places >= 53 {
                proof {
                    lemma_places_beyond(significand as int, places as nat);
                }
                0
            } else {
                let divisor = pow2_u64(places);
                (significand / divisor) % TWO_32
            }
        };
        assert(low == self.magnitude() % (TWO_32 as int));
        let signed: i64 = if self.bits >= SIGN_BIT {
            -(low as i64)
        } else {
            low as i64
        };
        proof {
            lemma_wrap32_congruent(self.magnitude(), self.negative());
        }
        if signed >= 0x8000_0000 {
            (signed - 0x1_0000_0000) as i32
        } else if signed < -0x8000_0000 {
            (signed + 0x1_0000_0000) as i32
        } else {
            signed as i32
        }
    }
}

/// Two to the power `k`, for `k` below 64.
pub fn pow2_u64(k: u64) -> (p: u64)
    requires
        k < 64,
    ensures
        p == pow2(k as nat),
        p >= 1,
{
    let mut p: u64 = 1;
    let mut i: u64 = 0;
    proof {
        lemma2_to64();
    }
    while i < k
        invariant
            i <= k < 64,
            p == pow2(i as nat),
            p >= 1,
        decreases k - i,
    {
        proof {
            lemma_pow2_unfold((i + 1) as nat);
            lemma_pow2_strictly_increases((i + 1) as nat, 64);
            lemma2_to64_rest();
        }
        p = p * 2;
        i = i + 1;
    }
    p
}

/// A number that is not negative, multiplied by a factor of one or more, is
/// at least itself.
proof fn lemma_magnitude_of_product(significand: int, factor: int)
    requires
        factor >= 1,
        significand >= 0,
    ensures
        significand * factor >= significand,
{
    assert(significand * factor >= significand) by (nonlinear_arith)
        requires
            factor >= 1,
            significand >= 0,
    ;
}

/// A significand has no more than 53 bits: divided by two to the power 53 or
/// more, its quotient is zero and its remainder is the significand.
proof fn lemma_places_beyond(significand: int, places: nat)
    requires
        0 <= significand < 0x20_0000_0000_0000,
        places >= 53,
    ensures
        significand / (pow2(places) as int) == 0,
        significand % (pow2(places) as int) == significand,
{
    lemma2_to64_rest();
    if places > 53 {
        lemma_pow2_strictly_increases(53, places);
    }
    lemma_basic_div(significand, pow2(places) as int);
    lemma_small_mod(significand as nat, pow2(places));
}

/// A whole number doubled 32 times or more is a multiple of 2^32.
proof fn lemma_high_multiple(significand: int, doublings: nat)
    requires
        doublings >= 32,
    ensures
        (significand * pow2(doublings)) % 0x1_0000_0000 == 0,
{
    lemma2_to64();
    lemma_pow2_adds((doublings - 32) as nat, 32);
    let rest = pow2((doublings - 32) as nat) as int;
    assert(significand * (rest * 0x1_0000_0000) == (significand * rest) * 0x1_0000_0000)
        by (nonlinear_arith);
    lemma_mod_multiples_basic(significand * rest, 0x1_0000_0000);
}

/// The signed 32-bit reduction of a whole number depends only on its
/// remainder modulo 2^32, also behind a sign.
proof fn lemma_wrap32_congruent(magnitude: int, negative: bool)
    ensures
        wrap32(
            if negative {
                -magnitude
            } else {
                magnitude
            },
        ) == wrap32(
            if negative {
                -(magnitude % 0x1_0000_0000)
            } else {
                magnitude % 0x1_0000_0000
            },
        ),
{
    let m = 0x1_0000_0000int;
    let q = magnitude / m;
    let r = magnitude % m;
    lemma_fundamental_div_mod(magnitude, m);
    if negative {
        assert(-magnitude == m * (-q) + (-r));
        lemma_mod_multiples_vanish(-q, -r, m);
    } else {
        lemma_mod_multiples_vanish(q, r, m);
    }
}

/// A script number read as a length in pixels, with the whole number of
/// twips that the conversion from pixels gave for it.
#[derive(Clone, Copy, Debug, PartialEq, Eq)]
pub struct Pixels {
    pub value: Number,
    pub twips: i32,
}

impl Pixels {
    /// The width in twips of a line of this many pixels: the pixels are
    /// limited to the range from 0 to 255, not a number counting as 255, and
    /// then converted.
    pub open spec fn spec_line_width(self) -> int {
        if self.value.spec_is_nan() || self.value.spec_at_least(255) {
            MAX_WIDTH_TWIPS as int
        } else if self.value.spec_at_most_zero() {
            0
        } else if self.twips < 0 {
            0
        } else if self.twips > MAX_WIDTH_TWIPS {
            MAX_WIDTH_TWIPS as int
        } else {
            self.twips as int
        }
    }

    /// Computes the width in twips of a line of this many pixels.
    pub fn line_width(self) -> (twips: i32)
        ensures
            twips == self.spec_line_width(),
            0 <= twips <= MAX_WIDTH_TWIPS,
    {
        if self.value.is_nan() || self.value.at_least(255) {
            MAX_WIDTH_TWIPS
        } else if self.value.at_most_zero() {
            0
        } else if self.twips < 0 {
            0
        } else if self.twips > MAX_WIDTH_TWIPS {
            MAX_WIDTH_TWIPS
        } else {
            self.twips
        }
    }
}

/// A script number read as a percentage, with the byte that scaling it from
/// the range 0 to 100 onto the range 0 to 255 gave for it.
#[derive(Clone, Copy, Debug, PartialEq, Eq)]
pub struct Percent {
    pub value: Number,
    pub byte: u8,
}

impl Percent {
    /// The opacity byte of this percentage: the percentage is limited to the
    /// range from 0 to 100, not a number counting as 100, and then scaled.
    pub open spec fn spec_alpha(self) -> u8 {
        if self.value.spec_is_nan() || self.value.spec_at_least(100) {
            255
        } else if self.value.spec_at_most_zero() {
            0
        } else {
            self.byte
        }
    }

    /// Computes the opacity byte of this percentage.
    pub fn alpha(self) -> (byte: u8)
        ensures
            byte == self.spec_alpha(),
    {
        if self.value.is_nan() || self.value.at_least(100) {
            255
        } else if self.value.at_most_zero() {
            0
        } else {
            self.byte
        }
    }
}

/// A script number with the 8.8 fixed-point number that the conversion to
/// fixed point gave for it.
#[derive(Clone, Copy, Debug, PartialEq, Eq)]
pub struct Fraction {
    pub value: Number,
    pub fixed: i16,
}

impl Fraction {
    /// The miter limit of this number in 8.8 fixed point: the number is
    /// limited to the range from 0 to 255, not a number counting as 0, and
    /// then converted; the conversion saturates at the largest fixed-point
    /// number.
    pub open spec fn spec_miter_limit(self) -> i16 {
        if self.value.spec_is_nan() || self.value.spec_at_most_zero() {
            0
        } else if self.value.spec_at_least(255) {
            i16::MAX
        } else if self.fixed < 0 {
            0
        } else {
            self.fixed
        }
    }

    /// Computes the miter limit of this number in 8.8 fixed point.
    pub fn miter_limit(self) -> (fixed: i16)
        ensures
            fixed == self.spec_miter_limit(),
            fixed >= 0,
    {
        if self.value.is_nan() || self.value.at_most_zero() {
            0
        } else if self.value.at_least(255) {
            i16::MAX
        } else if self.fixed < 0 {
            0
        } else {
            self.fixed
        }
    }
}

} // verus!
