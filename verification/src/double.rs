//! Double-precision numbers as bit patterns.
//!
//! Configuration values and controls are binary64 numbers. The library never
//! computes with them; it classifies and compares them, and for that the bit
//! pattern is enough: apart from the sign, IEEE 754 orders bit patterns as it
//! orders the numbers they stand for.

use vstd::arithmetic::power2::pow2;
use vstd::prelude::*;

verus! {

/// The weight of the sign bit.
pub const SIGN: u64 = 0x8000_0000_0000_0000;

/// The magnitude of the two infinities; every larger magnitude is not a number.
pub const INFINITE: u64 = 0x7FF0_0000_0000_0000;

/// The number of stored significand values, `2^52`.
pub const SIGNIFICANDS: u64 = 0x10_0000_0000_0000;

/// A binary64 number by its bit pattern.
#[derive(Debug, Clone, Copy, PartialEq, Eq, Structural)]
pub struct Double {
    pub bits: u64,
}

impl Double {
    /// Whether the sign bit is set.
    pub open spec fn negative(self) -> bool {
        self.bits >= SIGN
    }

    /// The bit pattern without its sign bit.
    pub open spec fn magnitude(self) -> int {
        if self.negative() {
            self.bits - SIGN
        } else {
            self.bits as int
        }
    }

    pub open spec fn nan(self) -> bool {
        self.magnitude() > INFINITE
    }

    pub open spec fn finite(self) -> bool {
        self.magnitude() < INFINITE
    }

    /// The rank of a number: the signed magnitude. Both zeros have the rank 0.
    pub open spec fn rank(self) -> int {
        if self.negative() {
            -self.magnitude()
        } else {
            self.magnitude()
        }
    }

    /// `self < other`, false when either is not a number.
    pub open spec fn less(self, other: Double) -> bool {
        !self.nan() && !other.nan() && self.rank() < other.rank()
    }

    /// `self <= other`, false when either is not a number.
    pub open spec fn at_most(self, other: Double) -> bool {
        !self.nan() && !other.nan() && self.rank() <= other.rank()
    }

    /// `self == other` as numbers, false when either is not a number.
    pub open spec fn equals(self, other: Double) -> bool {
        !self.nan() && !other.nan() && self.rank() == other.rank()
    }

    /// Finite and greater than zero.
    pub open spec fn finite_positive(self) -> bool {
        self.finite() && self.rank() > 0
    }

    /// Above zero.
    pub open spec fn positive(self) -> bool {
        !self.nan() && self.rank() > 0
    }

    /// Finite and not below zero.
    pub open spec fn finite_non_negative(self) -> bool {
        self.finite() && self.rank() >= 0
    }

    /// In the half-open interval from zero to one.
    pub open spec fn unit_interval(self) -> bool {
        !self.nan() && 0 <= self.rank() < Self::one_bits()
    }

    /// In the closed interval from zero to one.
    pub open spec fn closed_unit_interval(self) -> bool {
        !self.nan() && 0 <= self.rank() <= Self::one_bits()
    }

    pub open spec fn one_bits() -> int {
        0x3FF0_0000_0000_0000
    }

    /// The biased exponent.
    pub open spec fn exponent(self) -> int {
        self.magnitude() / SIGNIFICANDS as int
    }

    /// The significand with its implicit leading bit.
    pub open spec fn significand(self) -> int {
        SIGNIFICANDS + self.magnitude() % SIGNIFICANDS as int
    }

    /// The integer part of a finite number of at least one:
    /// `significand * 2^(exponent - 1075)`, rounded down.
    pub open spec fn whole(self) -> int {
        if self.exponent() <= 1075 {
            self.significand() / pow2((1075 - self.exponent()) as nat) as int
        } else {
            self.significand() * pow2((self.exponent() - 1075) as nat)
        }
    }

    /// The number as a `usize`: rounded toward zero, zero for what is below one or not
    /// a number, the largest `usize` for what lies beyond.
    pub open spec fn saturated(self) -> int {
        if self.nan() || self.rank() < Self::one_bits() {
            0
        } else if !self.finite() || self.whole() > usize::MAX {
            usize::MAX as int
        } else {
            self.whole()
        }
    }

    /// A whole number.
    pub open spec fn integral(self) -> bool {
        &&& self.finite()
        &&& self.magnitude() == 0 || self.exponent() >= 1075 || (self.exponent() >= 1023
            && self.significand() % pow2((1075 - self.exponent()) as nat) as int == 0)
    }

    /// The number as a `usize`, rounded up: zero for what is not above zero or not a number, the
    /// largest `usize` for what lies beyond.
    pub open spec fn ceiling(self) -> int {
        if self.nan() || self.rank() <= 0 {
            0
        } else if self.rank() < Self::one_bits() {
            1
        } else if self.integral() || self.saturated() == usize::MAX {
            self.saturated()
        } else {
            self.saturated() + 1
        }
    }

    /// The nearest whole number of a finite number of at least one; of two that are as near, the
    /// even one.
    pub open spec fn nearest(self) -> int {
        if self.exponent() >= 1075 {
            self.whole()
        } else {
            let unit = pow2((1075 - self.exponent()) as nat) as int;
            let rest = self.significand() % unit;
            if 2 * rest < unit || (2 * rest == unit && self.whole() % 2 == 0) {
                self.whole()
            } else {
                self.whole() + 1
            }
        }
    }

    /// The number held between one and a bound, and rounded.
    pub open spec fn bounded(self, most: int) -> int {
        if self.rank() < Self::one_bits() {
            1
        } else if !self.finite() || self.whole() >= most {
            most
        } else {
            self.nearest()
        }
    }

    /// The number one.
    pub fn one() -> (out: Double)
        ensures
            out.bits == Self::one_bits(),
            out.finite_positive(),
    {
        Double { bits: 0x3FF0_0000_0000_0000 }
    }

    /// The number zero.
    pub fn zero() -> (out: Double)
        ensures
            out.bits == 0,
            out.finite_non_negative(),
    {
        Double { bits: 0 }
    }

    fn magnitude_bits(self) -> (out: u64)
        ensures
            out == self.magnitude(),
    {
        if self.bits >= SIGN {
            self.bits - SIGN
        } else {
            self.bits
        }
    }

    pub fn is_nan(self) -> (out: bool)
        ensures
            out == self.nan(),
    {
        self.magnitude_bits() > INFINITE
    }

    pub fn is_finite(self) -> (out: bool)
        ensures
            out == self.finite(),
    {
        self.magnitude_bits() < INFINITE
    }

    /// `self < other`.
    pub fn is_less(self, other: Double) -> (out: bool)
        ensures
            out == self.less(other),
    {
        if self.is_nan() || other.is_nan() {
            return false;
        }
        let left: u64 = self.magnitude_bits();
        let right: u64 = other.magnitude_bits();
        if self.bits >= SIGN {
            if other.bits >= SIGN {
                right < left
            } else {
                left > 0 || right > 0
            }
        } else {
            other.bits < SIGN && left < right
        }
    }

    /// `self <= other`.
    pub fn is_at_most(self, other: Double) -> (out: bool)
        ensures
            out == self.at_most(other),
    {
        !self.is_nan() && !other.is_nan() && !other.is_less(self)
    }

    /// `self == other` as numbers.
    pub fn is_equal(self, other: Double) -> (out: bool)
        ensures
            out == self.equals(other),
    {
        self.is_at_most(other) && other.is_at_most(self)
    }

    pub fn is_finite_positive(self) -> (out: bool)
        ensures
            out == self.finite_positive(),
    {
        self.bits < SIGN && 0 < self.bits && self.bits < INFINITE
    }

    pub fn is_finite_non_negative(self) -> (out: bool)
        ensures
            out == self.finite_non_negative(),
    {
        self.bits < INFINITE || self.bits == SIGN
    }

    pub fn is_in_closed_unit_interval(self) -> (out: bool)
        ensures
            out == self.closed_unit_interval(),
    {
        Self::zero().is_at_most(self) && self.is_at_most(Self::one())
    }

    pub fn is_in_unit_interval(self) -> (out: bool)
        ensures
            out == self.unit_interval(),
    {
        self.bits < 0x3FF0_0000_0000_0000 || self.bits == SIGN
    }

    pub fn is_integral(self) -> (out: bool)
        ensures
            out == self.integral(),
    {
        let magnitude: u64 = self.magnitude_bits();
        if magnitude >= INFINITE {
            return false;
        }
        if magnitude == 0 {
            return true;
        }
        let exponent: u64 = magnitude / SIGNIFICANDS;
        if exponent >= 1075 {
            return true;
        }
        if exponent < 1023 {
            return false;
        }
        let significand: u64 = SIGNIFICANDS + magnitude % SIGNIFICANDS;
        let shift: u64 = 1075 - exponent;
        proof {
            vstd::arithmetic::power2::lemma2_to64();
            vstd::arithmetic::power2::lemma_pow2_pos(shift as nat);
            vstd::arithmetic::power2::lemma_pow2_strictly_increases(shift as nat, 64);
            vstd::bits::lemma_u64_shl_is_mul(1, shift);
        }
        let unit: u64 = 1u64 << shift;
        significand % unit == 0
    }

    /// The number as a `usize`: rounded up and kept within range.
    pub fn ceil_to_usize(self) -> (out: usize)
        ensures
            out == self.ceiling(),
    {
        if self.is_nan() || self.is_at_most(Self::zero()) {
            return 0;
        }
        if self.bits < 0x3FF0_0000_0000_0000 {
            return 1;
        }
        let whole: usize = self.to_usize();
        if self.is_integral() || whole == usize::MAX {
            whole
        } else {
            whole + 1
        }
    }

    /// The number held between one and a bound, and rounded to the nearest whole number.
    pub fn round_within(self, most: usize) -> (out: usize)
        requires
            !self.nan(),
            most >= 1,
        ensures
            out == self.bounded(most as int),
            1 <= out <= most,
    {
        if self.is_less(Self::one()) {
            return 1;
        }
        if self.bits >= INFINITE {
            return most;
        }
        let whole: usize = self.to_usize();
        assert(self.exponent() >= 1023);
        proof {
            self.at_least_one();
        }
        if whole >= most {
            return most;
        }
        let exponent: u64 = self.bits / SIGNIFICANDS;
        if exponent >= 1075 {
            return whole;
        }
        let significand: u64 = SIGNIFICANDS + self.bits % SIGNIFICANDS;
        let shift: u64 = 1075 - exponent;
        proof {
            vstd::arithmetic::power2::lemma2_to64();
            vstd::arithmetic::power2::lemma2_to64_rest();
            vstd::arithmetic::power2::lemma_pow2_pos(shift as nat);
            vstd::arithmetic::power2::lemma_pow2_strictly_increases(shift as nat, 53);
            vstd::bits::lemma_u64_shl_is_mul(1, shift);
        }
        let unit: u64 = 1u64 << shift;
        let rest: u64 = significand % unit;
        if 2 * rest < unit || (2 * rest == unit && whole % 2 == 0) {
            whole
        } else {
            whole + 1
        }
    }

    /// A finite number of at least one has a whole part of at least one.
    proof fn at_least_one(self)
        requires
            self.finite(),
            self.rank() >= Self::one_bits(),
        ensures
            self.whole() >= 1,
    {
        vstd::arithmetic::power2::lemma2_to64();
        vstd::arithmetic::power2::lemma2_to64_rest();
        if self.exponent() <= 1075 {
            let shift = (1075 - self.exponent()) as nat;
            vstd::arithmetic::power2::lemma_pow2_pos(shift);
            if shift < 52 {
                vstd::arithmetic::power2::lemma_pow2_strictly_increases(shift, 52);
            }
            let unit = pow2(shift) as int;
            assert(self.significand() / unit >= 1) by (nonlinear_arith)
                requires
                    0 < unit <= self.significand(),
            ;
        } else {
            let shift = (self.exponent() - 1075) as nat;
            vstd::arithmetic::power2::lemma_pow2_pos(shift);
            let unit = pow2(shift) as int;
            assert(self.significand() * unit >= 1) by (nonlinear_arith)
                requires
                    0 < unit,
                    1 <= self.significand(),
            ;
        }
    }

    /// The number as a `usize`: rounded toward zero and kept within range.
    pub fn to_usize(self) -> (out: usize)
        ensures
            out == self.saturated(),
    {
        if self.bits >= INFINITE {
            if self.bits == INFINITE {
                return usize::MAX;
            }
            return 0;
        }
        if self.bits < 0x3FF0_0000_0000_0000 {
            return 0;
        }
        let exponent: u64 = self.bits / SIGNIFICANDS;
        let significand: u64 = SIGNIFICANDS + self.bits % SIGNIFICANDS;
        assert(1023 <= exponent <= 2046);
        if exponent <= 1075 {
            let shift: u64 = 1075 - exponent;
            proof {
                vstd::bits::lemma_u64_shr_is_div(significand, shift);
            }
            let whole: u64 = significand >> shift;
            if whole > usize::MAX as u64 {
                usize::MAX
            } else {
                whole as usize
            }
        } else if exponent <= 1086 {
            let shift: u64 = exponent - 1075;
            proof {
                power_up_to_eleven(shift as nat);
                let p = pow2(shift as nat);
                assert(significand * p <= u64::MAX) by (nonlinear_arith)
                    requires
                        significand < 0x20_0000_0000_0000,
                        0 < p <= 2048,
                ;
                vstd::bits::lemma_u64_shl_is_mul(significand, shift);
            }
            let whole: u64 = significand << shift;
            if whole > usize::MAX as u64 {
                usize::MAX
            } else {
                whole as usize
            }
        } else {
            proof {
                let shift = (exponent - 1075) as nat;
                power_from_twelve(shift);
                let p = pow2(shift);
                assert(significand * p > u64::MAX) by (nonlinear_arith)
                    requires
                        significand >= 0x10_0000_0000_0000,
                        p >= 4096,
                ;
            }
            usize::MAX
        }
    }
}

/// Rounding moves a number by half at most: twice the distance, in units of the last place, is no
/// more than the units that make up one.
pub proof fn rounding_is_nearest(value: Double)
    requires
        value.finite(),
        value.rank() >= Double::one_bits(),
        value.exponent() < 1075,
    ensures
        ({
            let unit = pow2((1075 - value.exponent()) as nat) as int;
            let distance = value.nearest() * unit - value.significand();
            -unit <= 2 * distance <= unit
        }),
{
    let shift = (1075 - value.exponent()) as nat;
    vstd::arithmetic::power2::lemma_pow2_pos(shift);
    let unit = pow2(shift) as int;
    vstd::arithmetic::div_mod::lemma_fundamental_div_mod(value.significand(), unit);
    let whole = value.whole();
    let rest = value.significand() % unit;
    assert(0 <= rest < unit);
    assert(whole * unit == unit * whole) by (nonlinear_arith);
    assert((whole + 1) * unit == unit * whole + unit) by (nonlinear_arith);
}

/// A whole number lies below a number exactly where it lies below its ceiling, in units of the
/// last place.
pub proof fn below_ceiling_is_below(value: Double, whole: int)
    requires
        value.finite(),
        value.rank() >= Double::one_bits(),
        value.exponent() < 1075,
        value.saturated() < usize::MAX,
        whole >= 0,
    ensures
        whole < value.ceiling() <==> whole * pow2((1075 - value.exponent()) as nat) < value.significand(),
{
    let shift = (1075 - value.exponent()) as nat;
    vstd::arithmetic::power2::lemma_pow2_pos(shift);
    let unit = pow2(shift) as int;
    vstd::arithmetic::div_mod::lemma_fundamental_div_mod(value.significand(), unit);
    let floor = value.whole();
    let rest = value.significand() % unit;
    assert(value.significand() == unit * floor + rest && 0 <= rest < unit);
    if whole <= floor - 1 {
        assert(whole * unit <= (floor - 1) * unit) by (nonlinear_arith)
            requires
                whole <= floor - 1,
                unit > 0,
        ;
        assert((floor - 1) * unit == unit * floor - unit) by (nonlinear_arith);
    } else if whole == floor {
        assert(whole * unit == unit * floor) by (nonlinear_arith)
            requires
                whole == floor,
        ;
    } else {
        assert(whole * unit >= (floor + 1) * unit) by (nonlinear_arith)
            requires
                whole >= floor + 1,
                unit > 0,
        ;
        assert((floor + 1) * unit == unit * floor + unit) by (nonlinear_arith);
    }
}

proof fn power_up_to_eleven(e: nat)
    requires
        e <= 11,
    ensures
        0 < pow2(e) <= 2048,
{
    vstd::arithmetic::power2::lemma2_to64();
    vstd::arithmetic::power2::lemma_pow2_pos(e);
    if e < 11 {
        vstd::arithmetic::power2::lemma_pow2_strictly_increases(e, 11);
    }
}

proof fn power_from_twelve(e: nat)
    requires
        e >= 12,
    ensures
        pow2(e) >= 4096,
{
    vstd::arithmetic::power2::lemma2_to64();
    if e > 12 {
        vstd::arithmetic::power2::lemma_pow2_strictly_increases(12, e);
    }
}

/// Bit patterns without a sign order as they stand, those with one in reverse, and any with a sign
/// lies below any without. The two zeros are equal, and what is not a number compares with
/// nothing.
pub proof fn patterns_order_numbers(
    left: Double,
    right: Double,
    less: bool,
    at_most: bool,
    equal: bool,
)
    requires
        call_ensures(Double::is_less, (left, right), less),
        call_ensures(Double::is_at_most, (left, right), at_most),
        call_ensures(Double::is_equal, (left, right), equal),
    ensures
        ({
            let bare = |bits: u64| (bits as int % 0x8000_0000_0000_0000) as int;
            let number = |bits: u64| bare(bits) <= 0x7FF0_0000_0000_0000;
            let ordered = number(left.bits) && number(right.bits);
            let zeros = bare(left.bits) == 0 && bare(right.bits) == 0;
            &&& equal <==> ordered && (left.bits == right.bits || zeros)
            &&& at_most <==> less || equal
            &&& less <==> ordered && !zeros && (if left.bits < 0x8000_0000_0000_0000 {
                right.bits < 0x8000_0000_0000_0000 && left.bits < right.bits
            } else {
                right.bits < 0x8000_0000_0000_0000 || right.bits < left.bits
            })
        }),
{
}

/// Comparing is a strict order: nothing lies below itself, of two numbers one at most lies below
/// the other, and what lies below a lower number lies below the higher.
pub proof fn comparing_is_a_strict_order(
    low: Double,
    middle: Double,
    high: Double,
    first: bool,
    second: bool,
    both: bool,
    back: bool,
)
    requires
        call_ensures(Double::is_less, (low, middle), first),
        call_ensures(Double::is_less, (middle, high), second),
        call_ensures(Double::is_less, (low, high), both),
        call_ensures(Double::is_less, (middle, low), back),
    ensures
        first && second ==> both,
        !(first && back),
        low == middle ==> !first,
{
}

/// The kinds of numbers are intervals of bit patterns.
pub proof fn kinds_are_intervals(
    number: Double,
    nan: bool,
    finite: bool,
    positive: bool,
    non_negative: bool,
    closed: bool,
    half_open: bool,
)
    requires
        call_ensures(Double::is_nan, (number,), nan),
        call_ensures(Double::is_finite, (number,), finite),
        call_ensures(Double::is_finite_positive, (number,), positive),
        call_ensures(Double::is_finite_non_negative, (number,), non_negative),
        call_ensures(Double::is_in_closed_unit_interval, (number,), closed),
        call_ensures(Double::is_in_unit_interval, (number,), half_open),
    ensures
        nan <==> number.bits as int % 0x8000_0000_0000_0000 > 0x7FF0_0000_0000_0000,
        finite <==> (number.bits as int % 0x8000_0000_0000_0000) < 0x7FF0_0000_0000_0000,
        positive <==> 0 < number.bits < 0x7FF0_0000_0000_0000,
        non_negative <==> number.bits < 0x7FF0_0000_0000_0000 || number.bits
            == 0x8000_0000_0000_0000,
        closed <==> number.bits <= 0x3FF0_0000_0000_0000 || number.bits == 0x8000_0000_0000_0000,
        half_open <==> number.bits < 0x3FF0_0000_0000_0000 || number.bits == 0x8000_0000_0000_0000,
{
}

/// Zero and one are the numbers that lie at the ends of the unit interval.
pub proof fn zero_and_one_are_whole(zero: Double, one: Double, none: usize, single: usize)
    requires
        call_ensures(Double::zero, (), zero),
        call_ensures(Double::one, (), one),
        call_ensures(Double::to_usize, (zero,), none),
        call_ensures(Double::to_usize, (one,), single),
    ensures
        zero.bits == 0 && one.bits == 0x3FF0_0000_0000_0000,
        none == 0 && single == 1,
{
    vstd::arithmetic::power2::lemma2_to64();
    vstd::arithmetic::power2::lemma2_to64_rest();
    assert(one.exponent() == 1023 && one.significand() == 0x10_0000_0000_0000);
    assert(pow2(52) == 0x10_0000_0000_0000);
    assert((1075 - one.exponent()) as nat == 52);
    assert(one.whole() == 0x10_0000_0000_0000int / 0x10_0000_0000_0000int);
    assert(one.whole() == 1);
}

/// Whole parts bound a number of at least one from below, ceilings from above, both by less than
/// one. In units of the last place one is `2^(1075 - exponent)`, and the number is its
/// significand.
pub proof fn whole_parts_and_ceilings_enclose(value: Double, floor: usize, ceiling: usize)
    requires
        0x3FF0_0000_0000_0000 <= value.bits < 0x7FF0_0000_0000_0000,
        value.bits as int / 0x10_0000_0000_0000 < 1075,
        call_ensures(Double::to_usize, (value,), floor),
        call_ensures(Double::ceil_to_usize, (value,), ceiling),
    ensures
        ({
            let exponent = value.bits as int / 0x10_0000_0000_0000;
            let significand = 0x10_0000_0000_0000 + value.bits as int % 0x10_0000_0000_0000;
            let unit = pow2((1075 - exponent) as nat) as int;
            &&& 1 <= floor <= ceiling
            &&& floor * unit <= significand
            &&& floor < usize::MAX ==> significand < (floor + 1) * unit && (ceiling - 1) * unit
                < significand <= ceiling * unit
            &&& floor == usize::MAX ==> ceiling == usize::MAX
        }),
{
    vstd::arithmetic::power2::lemma2_to64();
    vstd::arithmetic::power2::lemma2_to64_rest();
    let shift = (1075 - value.exponent()) as nat;
    vstd::arithmetic::power2::lemma_pow2_pos(shift);
    let unit = pow2(shift) as int;
    let significand = value.significand();
    value.at_least_one();
    vstd::arithmetic::div_mod::lemma_fundamental_div_mod(significand, unit);
    let whole = value.whole();
    let rest = significand % unit;
    assert(0 <= rest < unit);
    assert(whole * unit == unit * whole) by (nonlinear_arith);
    assert((whole + 1) * unit == whole * unit + unit) by (nonlinear_arith);
    assert((whole - 1) * unit == whole * unit - unit) by (nonlinear_arith);
    if whole > usize::MAX {
        assert(usize::MAX * unit <= whole * unit) by (nonlinear_arith)
            requires
                whole > usize::MAX,
                unit > 0,
        ;
    }
}

/// What lies between zero and one has the whole part zero and the ceiling one; what is not above
/// zero or not a number has zero for both. Numbers past the last fraction are whole: both are the
/// number, or the largest count where the number is larger.
pub proof fn whole_parts_and_ceilings_outside_fractions(
    value: Double,
    floor: usize,
    ceiling: usize,
)
    requires
        call_ensures(Double::to_usize, (value,), floor),
        call_ensures(Double::ceil_to_usize, (value,), ceiling),
    ensures
        0 < value.bits < 0x3FF0_0000_0000_0000 ==> floor == 0 && ceiling == 1,
        value.bits == 0 || value.bits >= 0x8000_0000_0000_0000 ==> floor == 0 && ceiling == 0,
        0x7FF0_0000_0000_0000 < value.bits ==> floor == 0 && ceiling == 0,
        value.bits == 0x7FF0_0000_0000_0000 ==> floor == usize::MAX && ceiling == usize::MAX,
        value.bits < 0x7FF0_0000_0000_0000 && value.bits as int / 0x10_0000_0000_0000 >= 1075 ==> ({
            let exponent = value.bits as int / 0x10_0000_0000_0000;
            let significand = 0x10_0000_0000_0000 + value.bits as int % 0x10_0000_0000_0000;
            let whole = significand * pow2((exponent - 1075) as nat);
            &&& floor == ceiling
            &&& floor == if whole <= usize::MAX {
                whole
            } else {
                usize::MAX as int
            }
        }),
{
    vstd::arithmetic::power2::lemma2_to64();
    if value.bits < 0x7FF0_0000_0000_0000 && value.exponent() == 1075 {
        assert(pow2(0) == 1);
        assert(value.significand() / 1 == value.significand());
        assert(value.significand() * 1 == value.significand());
    }
}

/// A number is whole exactly where it is zero, where its whole part is its ceiling and both can be
/// counted, or where it is too large for fractions. The sign does not matter, and what is not
/// finite is not whole.
pub proof fn whole_numbers_are_their_ceilings(
    value: Double,
    opposite: Double,
    whole: bool,
    whole_opposite: bool,
    floor: usize,
    ceiling: usize,
)
    requires
        opposite.bits == value.bits + 0x8000_0000_0000_0000,
        call_ensures(Double::is_integral, (value,), whole),
        call_ensures(Double::is_integral, (opposite,), whole_opposite),
        call_ensures(Double::to_usize, (value,), floor),
        call_ensures(Double::ceil_to_usize, (value,), ceiling),
    ensures
        whole == whole_opposite,
        value.bits >= 0x7FF0_0000_0000_0000 ==> !whole,
        value.bits < 0x7FF0_0000_0000_0000 && floor < usize::MAX ==> (whole <==> floor == ceiling),
        value.bits < 0x7FF0_0000_0000_0000 && value.bits as int / 0x10_0000_0000_0000 >= 1075
            ==> whole,
{
    if value.bits < 0x7FF0_0000_0000_0000 && value.bits >= 0x3FF0_0000_0000_0000 {
        value.at_least_one();
    }
}

/// A number held between one and a bound becomes the whole number that is nearest to it: within
/// half, and even where two are as near. Below one it becomes one, past the bound the bound.
pub proof fn rounding_stays_within_half(value: Double, most: usize, out: usize)
    requires
        !value.nan(),
        most >= 1,
        call_ensures(Double::round_within, (value, most), out),
    ensures
        1 <= out <= most,
        value.bits < 0x3FF0_0000_0000_0000 || value.bits >= 0x8000_0000_0000_0000 ==> out == 1,
        value.bits == 0x7FF0_0000_0000_0000 ==> out == most,
        0x3FF0_0000_0000_0000 <= value.bits < 0x7FF0_0000_0000_0000 && value.bits as int
            / 0x10_0000_0000_0000 < 1075 ==> ({
            let exponent = value.bits as int / 0x10_0000_0000_0000;
            let significand = 0x10_0000_0000_0000 + value.bits as int % 0x10_0000_0000_0000;
            let unit = pow2((1075 - exponent) as nat) as int;
            let off = 2 * (out * unit - significand);
            &&& off <= unit
            &&& out < most ==> -unit <= off
            &&& out < most && (off == unit || off == -unit) ==> out % 2 == 0
        }),
        0x3FF0_0000_0000_0000 <= value.bits < 0x7FF0_0000_0000_0000 && value.bits as int
            / 0x10_0000_0000_0000 >= 1075 ==> ({
            let exponent = value.bits as int / 0x10_0000_0000_0000;
            let significand = 0x10_0000_0000_0000 + value.bits as int % 0x10_0000_0000_0000;
            let whole = significand * pow2((exponent - 1075) as nat);
            out == if whole < most {
                whole
            } else {
                most as int
            }
        }),
{
    vstd::arithmetic::power2::lemma2_to64();
    if 0x3FF0_0000_0000_0000 <= value.bits < 0x7FF0_0000_0000_0000 {
        if value.exponent() < 1075 {
            rounding_is_nearest(value);
            let shift = (1075 - value.exponent()) as nat;
            vstd::arithmetic::power2::lemma_pow2_pos(shift);
            let unit = pow2(shift) as int;
            let significand = value.significand();
            vstd::arithmetic::div_mod::lemma_fundamental_div_mod(significand, unit);
            let whole = value.whole();
            assert(0 <= significand % unit < unit);
            assert(whole * unit == unit * whole) by (nonlinear_arith);
            assert((whole + 1) * unit == whole * unit + unit) by (nonlinear_arith);
            if whole >= most {
                assert(most * unit <= whole * unit) by (nonlinear_arith)
                    requires
                        whole >= most,
                        unit > 0,
                ;
            }
        } else if value.exponent() == 1075 {
            assert(pow2(0) == 1);
            assert(value.significand() / 1 == value.significand());
            assert(value.significand() * 1 == value.significand());
        }
    }
}

} // verus!
