//! The arithmetic every cell representation supplies.
//!
//! The arithmetic of a representation is exact within its range: a sum, a
//! difference, a product or a quotient is owed where the result can be
//! represented, and the operands of any other are left out. The neutral
//! value is the additive identity, and the order is total.

use vstd::prelude::*;
use crate::traits::max::Max;

verus! {

/// A scalar that can be stored in a cell of the lattice.
pub trait Numeric: Copy + Max {
    /// The value an accumulation starts from.
    spec fn neutral_spec() -> Self;

    /// The sum of the two values can be represented.
    spec fn plus_fits(self, rhs: Self) -> bool;

    /// The sum of two values.
    spec fn plus_spec(self, rhs: Self) -> Self;

    /// The difference of the two values can be represented.
    spec fn minus_fits(self, rhs: Self) -> bool;

    /// The difference of two values.
    spec fn minus_spec(self, rhs: Self) -> Self;

    /// The product of the two values can be represented.
    spec fn times_fits(self, rhs: Self) -> bool;

    /// The product of two values.
    spec fn times_spec(self, rhs: Self) -> Self;

    /// The divisor is not zero and the quotient can be represented.
    spec fn over_fits(self, rhs: Self) -> bool;

    /// The quotient of two values, rounded toward zero.
    spec fn over_spec(self, rhs: Self) -> Self;

    /// The position of a value in the total order of its representation.
    spec fn rank(self) -> int;

    /// The 8-bit intensity of a value: `value / MAX * 255`, truncated, and 0
    /// for a value below zero.
    spec fn intensity_spec(self) -> u8;

    /// The value an 8-bit intensity scales up to: `level * MAX / 255`, truncated.
    spec fn from_intensity_spec(level: u8) -> Self;

    /// The neutral value leaves every value unchanged under `+` and `-`.
    proof fn lemma_neutral(x: Self)
        ensures
            Self::neutral_spec().plus_fits(x),
            Self::neutral_spec().plus_spec(x) == x,
            x.plus_fits(Self::neutral_spec()),
            x.plus_spec(Self::neutral_spec()) == x,
            x.minus_fits(Self::neutral_spec()),
            x.minus_spec(Self::neutral_spec()) == x,
    ;

    /// Within the range, sums and differences are those of the ranks, and
    /// the neutral value has rank zero.
    proof fn lemma_ranks(x: Self, y: Self)
        ensures
            Self::neutral_spec().rank() == 0,
            x.plus_fits(y) ==> x.plus_spec(y).rank() == x.rank() + y.rank(),
            x.minus_fits(y) ==> x.minus_spec(y).rank() == x.rank() - y.rank(),
    ;

    /// Two values of the same rank are the same value.
    proof fn lemma_rank_injective(x: Self, y: Self)
        ensures
            x.rank() == y.rank() ==> x == y,
    ;

    fn neutral() -> (zero: Self)
        ensures
            zero == Self::neutral_spec(),
    ;

    fn plus(self, rhs: Self) -> (sum: Self)
        requires
            self.plus_fits(rhs),
        ensures
            sum == self.plus_spec(rhs),
    ;

    fn minus(self, rhs: Self) -> (difference: Self)
        requires
            self.minus_fits(rhs),
        ensures
            difference == self.minus_spec(rhs),
    ;

    fn times(self, rhs: Self) -> (product: Self)
        requires
            self.times_fits(rhs),
        ensures
            product == self.times_spec(rhs),
    ;

    fn over(self, rhs: Self) -> (quotient: Self)
        requires
            self.over_fits(rhs),
        ensures
            quotient == self.over_spec(rhs),
    ;

    fn at_least(self, other: Self) -> (holds: bool)
        ensures
            holds == (self.rank() >= other.rank()),
    ;

    fn intensity(self) -> (level: u8)
        ensures
            level == self.intensity_spec(),
    ;

    fn from_intensity(level: u8) -> (value: Self)
        ensures
            value == Self::from_intensity_spec(level),
    ;
}

impl Numeric for u8 {
    open spec fn neutral_spec() -> u8 {
        0
    }

    open spec fn plus_fits(self, rhs: u8) -> bool {
        self + rhs <= u8::MAX
    }

    open spec fn plus_spec(self, rhs: u8) -> u8 {
        (self + rhs) as u8
    }

    open spec fn minus_fits(self, rhs: u8) -> bool {
        rhs <= self
    }

    open spec fn minus_spec(self, rhs: u8) -> u8 {
        (self - rhs) as u8
    }

    open spec fn times_fits(self, rhs: u8) -> bool {
        self * rhs <= u8::MAX
    }

    open spec fn times_spec(self, rhs: u8) -> u8 {
        (self * rhs) as u8
    }

    open spec fn over_fits(self, rhs: u8) -> bool {
        rhs != 0
    }

    open spec fn over_spec(self, rhs: u8) -> u8 {
        (self as int / rhs as int) as u8
    }

    open spec fn rank(self) -> int {
        self as int
    }

    open spec fn intensity_spec(self) -> u8 {
        self
    }

    open spec fn from_intensity_spec(level: u8) -> u8 {
        level
    }

    proof fn lemma_neutral(x: u8) {
    }

    proof fn lemma_ranks(x: u8, y: u8) {
    }

    proof fn lemma_rank_injective(x: u8, y: u8) {
    }

    fn neutral() -> (zero: u8) {
        0
    }

    fn plus(self, rhs: u8) -> (sum: u8) {
        self + rhs
    }

    fn minus(self, rhs: u8) -> (difference: u8) {
        self - rhs
    }

    fn times(self, rhs: u8) -> (product: u8) {
        assert(0 <= self * rhs) by (nonlinear_arith);
        self * rhs
    }

    fn over(self, rhs: u8) -> (quotient: u8) {
        self / rhs
    }

    fn at_least(self, other: u8) -> (holds: bool) {
        self >= other
    }

    fn intensity(self) -> (level: u8) {
        self
    }

    fn from_intensity(level: u8) -> (value: u8) {
        level
    }
}

impl Numeric for u32 {
    open spec fn neutral_spec() -> u32 {
        0
    }

    open spec fn plus_fits(self, rhs: u32) -> bool {
        self + rhs <= u32::MAX
    }

    open spec fn plus_spec(self, rhs: u32) -> u32 {
        (self + rhs) as u32
    }

    open spec fn minus_fits(self, rhs: u32) -> bool {
        rhs <= self
    }

    open spec fn minus_spec(self, rhs: u32) -> u32 {
        (self - rhs) as u32
    }

    open spec fn times_fits(self, rhs: u32) -> bool {
        self * rhs <= u32::MAX
    }

    open spec fn times_spec(self, rhs: u32) -> u32 {
        (self * rhs) as u32
    }

    open spec fn over_fits(self, rhs: u32) -> bool {
        rhs != 0
    }

    open spec fn over_spec(self, rhs: u32) -> u32 {
        (self as int / rhs as int) as u32
    }

    open spec fn rank(self) -> int {
        self as int
    }

    open spec fn intensity_spec(self) -> u8 {
        (self * 255 / (u32::MAX as int)) as u8
    }

    open spec fn from_intensity_spec(level: u8) -> u32 {
        (level * (u32::MAX as int) / 255) as u32
    }

    proof fn lemma_neutral(x: u32) {
    }

    proof fn lemma_ranks(x: u32, y: u32) {
    }

    proof fn lemma_rank_injective(x: u32, y: u32) {
    }

    fn neutral() -> (zero: u32) {
        0
    }

    fn plus(self, rhs: u32) -> (sum: u32) {
        self + rhs
    }

    fn minus(self, rhs: u32) -> (difference: u32) {
        self - rhs
    }

    fn times(self, rhs: u32) -> (product: u32) {
        assert(0 <= self * rhs) by (nonlinear_arith);
        self * rhs
    }

    fn over(self, rhs: u32) -> (quotient: u32) {
        self / rhs
    }

    fn at_least(self, other: u32) -> (holds: bool) {
        self >= other
    }

    fn intensity(self) -> (level: u8) {
        let scaled: u64 = (self as u64) * 255 / 0xFFFF_FFFF;
        scaled as u8
    }

    fn from_intensity(level: u8) -> (value: u32) {
        let scaled: u64 = (level as u64) * 0xFFFF_FFFF / 255;
        scaled as u32
    }
}

impl Numeric for i32 {
    open spec fn neutral_spec() -> i32 {
        0
    }

    open spec fn plus_fits(self, rhs: i32) -> bool {
        i32::MIN <= self + rhs <= i32::MAX
    }

    open spec fn plus_spec(self, rhs: i32) -> i32 {
        (self + rhs) as i32
    }

    open spec fn minus_fits(self, rhs: i32) -> bool {
        i32::MIN <= self - rhs <= i32::MAX
    }

    open spec fn minus_spec(self, rhs: i32) -> i32 {
        (self - rhs) as i32
    }

    open spec fn times_fits(self, rhs: i32) -> bool {
        i32::MIN <= self * rhs <= i32::MAX
    }

    open spec fn times_spec(self, rhs: i32) -> i32 {
        (self * rhs) as i32
    }

    open spec fn over_fits(self, rhs: i32) -> bool {
        rhs != 0 && !(self == i32::MIN && rhs == -1)
    }

    open spec fn over_spec(self, rhs: i32) -> i32 {
        truncated_quotient(self as int, rhs as int) as i32
    }

    open spec fn rank(self) -> int {
        self as int
    }

    open spec fn intensity_spec(self) -> u8 {
        if self <= 0 {
            0
        } else {
            (self * 255 / (i32::MAX as int)) as u8
        }
    }

    open spec fn from_intensity_spec(level: u8) -> i32 {
        (level * (i32::MAX as int) / 255) as i32
    }

    proof fn lemma_neutral(x: i32) {
    }

    proof fn lemma_ranks(x: i32, y: i32) {
    }

    proof fn lemma_rank_injective(x: i32, y: i32) {
    }

    fn neutral() -> (zero: i32) {
        0
    }

    fn plus(self, rhs: i32) -> (sum: i32) {
        self + rhs
    }

    fn minus(self, rhs: i32) -> (difference: i32) {
        self - rhs
    }

    fn times(self, rhs: i32) -> (product: i32) {
        self * rhs
    }

    fn over(self, rhs: i32) -> (quotient: i32) {
        let a: i64 = self as i64;
        let b: i64 = rhs as i64;
        let wide: i64 = if a >= 0 && b > 0 {
            a / b
        } else if a < 0 && b > 0 {
            -((-a) / b)
        } else if a >= 0 {
            -(a / (-b))
        } else {
            (-a) / (-b)
        };
        proof {
            lemma_quotient_within(a as int, b as int);
        }
        wide as i32
    }

    fn at_least(self, other: i32) -> (holds: bool) {
        self >= other
    }

    fn intensity(self) -> (level: u8) {
        if self <= 0 {
            0
        } else {
            let scaled: u64 = (self as u64) * 255 / 0x7FFF_FFFF;
            scaled as u8
        }
    }

    fn from_intensity(level: u8) -> (value: i32) {
        let scaled: u64 = (level as u64) * 0x7FFF_FFFF / 255;
        scaled as i32
    }
}

/// A quotient rounded toward zero is no farther from zero than the dividend.
proof fn lemma_quotient_within(a: int, b: int)
    requires
        b != 0,
    ensures
        a >= 0 ==> -a <= truncated_quotient(a, b) <= a,
        a < 0 ==> a <= truncated_quotient(a, b) <= -a,
{
    let n = if a < 0 { -a } else { a };
    let m = if b < 0 { -b } else { b };
    assert(0 <= n / m <= n) by (nonlinear_arith)
        requires
            0 <= n,
            1 <= m,
    ;
}

/// The quotient of `a` by `b` rounded toward zero, as the machine divides.
pub open spec fn truncated_quotient(a: int, b: int) -> int {
    if a >= 0 && b > 0 {
        a / b
    } else if a < 0 && b > 0 {
        -((-a) / b)
    } else if a >= 0 && b < 0 {
        -(a / (-b))
    } else {
        (-a) / (-b)
    }
}

} // verus!
