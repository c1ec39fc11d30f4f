//! A cell value wrapped for use in the lattice.

use vstd::prelude::*;
use vstd::std_specs::cmp::{PartialEqSpecImpl, PartialOrdSpecImpl};
use vstd::std_specs::convert::FromSpecImpl;
use vstd::std_specs::ops::{AddSpecImpl, DivSpecImpl, MulSpecImpl, SubSpecImpl};
use core::cmp::Ordering;
use crate::traits::max::Max;
use crate::traits::numeric::Numeric;

verus! {

/// A scalar held in a cell of the lattice.
#[derive(Clone, Copy, Debug)]
pub struct LatticeElement<T>(pub T);

impl<T: Max> Max for LatticeElement<T> {
    open spec fn maximum_spec() -> Self {
        LatticeElement(T::maximum_spec())
    }

    fn maximum() -> (top: Self) {
        LatticeElement(T::maximum())
    }
}

impl<T: Numeric> Numeric for LatticeElement<T> {
    open spec fn neutral_spec() -> Self {
        LatticeElement(T::neutral_spec())
    }

    open spec fn plus_fits(self, rhs: Self) -> bool {
        self.0.plus_fits(rhs.0)
    }

    open spec fn plus_spec(self, rhs: Self) -> Self {
        LatticeElement(self.0.plus_spec(rhs.0))
    }

    open spec fn minus_fits(self, rhs: Self) -> bool {
        self.0.minus_fits(rhs.0)
    }

    open spec fn times_fits(self, rhs: Self) -> bool {
        self.0.times_fits(rhs.0)
    }

    open spec fn over_fits(self, rhs: Self) -> bool {
        self.0.over_fits(rhs.0)
    }

    open spec fn minus_spec(self, rhs: Self) -> Self {
        LatticeElement(self.0.minus_spec(rhs.0))
    }

    open spec fn times_spec(self, rhs: Self) -> Self {
        LatticeElement(self.0.times_spec(rhs.0))
    }

    open spec fn over_spec(self, rhs: Self) -> Self {
        LatticeElement(self.0.over_spec(rhs.0))
    }

    open spec fn rank(self) -> int {
        self.0.rank()
    }

    open spec fn intensity_spec(self) -> u8 {
        self.0.intensity_spec()
    }

    open spec fn from_intensity_spec(level: u8) -> Self {
        LatticeElement(T::from_intensity_spec(level))
    }

    proof fn lemma_neutral(x: Self) {
        T::lemma_neutral(x.0);
    }

    proof fn lemma_ranks(x: Self, y: Self) {
        T::lemma_ranks(x.0, y.0);
    }

    proof fn lemma_rank_injective(x: Self, y: Self) {
        T::lemma_rank_injective(x.0, y.0);
    }

    fn neutral() -> (zero: Self) {
        LatticeElement(T::neutral())
    }

    fn plus(self, rhs: Self) -> (sum: Self) {
        LatticeElement(self.0.plus(rhs.0))
    }

    fn minus(self, rhs: Self) -> (difference: Self) {
        LatticeElement(self.0.minus(rhs.0))
    }

    fn times(self, rhs: Self) -> (product: Self) {
        LatticeElement(self.0.times(rhs.0))
    }

    fn over(self, rhs: Self) -> (quotient: Self) {
        LatticeElement(self.0.over(rhs.0))
    }

    fn at_least(self, other: Self) -> (holds: bool) {
        self.0.at_least(other.0)
    }

    fn intensity(self) -> (level: u8) {
        self.0.intensity()
    }

    fn from_intensity(level: u8) -> (value: Self) {
        LatticeElement(T::from_intensity(level))
    }
}

impl<T: Numeric> Default for LatticeElement<T> {
    /// The neutral value of the representation.
    fn default() -> (zero: Self)
        ensures
            zero == Self::neutral_spec(),
    {
        Self::neutral()
    }
}

impl<T> FromSpecImpl<T> for LatticeElement<T> {
    open spec fn obeys_from_spec() -> bool {
        true
    }

    open spec fn from_spec(value: T) -> Self {
        LatticeElement(value)
    }
}

impl<T> From<T> for LatticeElement<T> {
    fn from(value: T) -> (element: Self) {
        LatticeElement(value)
    }
}

impl<T: Numeric> AddSpecImpl for LatticeElement<T> {
    open spec fn obeys_add_spec() -> bool {
        true
    }

    /// The sum can be represented.
    open spec fn add_req(self, rhs: Self) -> bool {
        self.plus_fits(rhs)
    }

    open spec fn add_spec(self, rhs: Self) -> Self {
        self.plus_spec(rhs)
    }
}

impl<T: Numeric> core::ops::Add for LatticeElement<T> {
    type Output = Self;

    fn add(self, value: Self) -> (sum: Self) {
        self.plus(value)
    }
}

impl<T: Numeric> SubSpecImpl for LatticeElement<T> {
    open spec fn obeys_sub_spec() -> bool {
        true
    }

    /// The difference can be represented.
    open spec fn sub_req(self, rhs: Self) -> bool {
        self.minus_fits(rhs)
    }

    open spec fn sub_spec(self, rhs: Self) -> Self {
        self.minus_spec(rhs)
    }
}

impl<T: Numeric> core::ops::Sub for LatticeElement<T> {
    type Output = Self;

    fn sub(self, value: Self) -> (difference: Self) {
        self.minus(value)
    }
}

impl<T: Numeric> MulSpecImpl for LatticeElement<T> {
    open spec fn obeys_mul_spec() -> bool {
        true
    }

    /// The product can be represented.
    open spec fn mul_req(self, rhs: Self) -> bool {
        self.times_fits(rhs)
    }

    open spec fn mul_spec(self, rhs: Self) -> Self {
        self.times_spec(rhs)
    }
}

impl<T: Numeric> core::ops::Mul for LatticeElement<T> {
    type Output = Self;

    fn mul(self, value: Self) -> (product: Self) {
        self.times(value)
    }
}

impl<T: Numeric> DivSpecImpl for LatticeElement<T> {
    open spec fn obeys_div_spec() -> bool {
        true
    }

    /// The divisor is not zero and the quotient can be represented.
    open spec fn div_req(self, rhs: Self) -> bool {
        self.over_fits(rhs)
    }

    open spec fn div_spec(self, rhs: Self) -> Self {
        self.over_spec(rhs)
    }
}

impl<T: Numeric> core::ops::Div for LatticeElement<T> {
    type Output = Self;

    fn div(self, value: Self) -> (quotient: Self) {
        self.over(value)
    }
}

impl<T: Numeric> PartialEqSpecImpl for LatticeElement<T> {
    open spec fn obeys_eq_spec() -> bool {
        true
    }

    open spec fn eq_spec(&self, other: &Self) -> bool {
        *self == *other
    }
}

impl<T: Numeric> PartialEq for LatticeElement<T> {
    fn eq(&self, other: &Self) -> (equal: bool) {
        proof {
            Self::lemma_rank_injective(*self, *other);
        }
        self.at_least(*other) && other.at_least(*self)
    }
}

impl<T: Numeric> PartialOrdSpecImpl for LatticeElement<T> {
    open spec fn obeys_partial_cmp_spec() -> bool {
        true
    }

    /// Elements are ordered by rank, and any two can be compared.
    open spec fn partial_cmp_spec(&self, other: &Self) -> Option<Ordering> {
        if self.rank() < other.rank() {
            Some(Ordering::Less)
        } else if self.rank() > other.rank() {
            Some(Ordering::Greater)
        } else {
            Some(Ordering::Equal)
        }
    }
}

impl<T: Numeric> PartialOrd for LatticeElement<T> {
    fn partial_cmp(&self, other: &Self) -> (order: Option<Ordering>) {
        if !self.at_least(*other) {
            Some(Ordering::Less)
        } else if !other.at_least(*self) {
            Some(Ordering::Greater)
        } else {
            Some(Ordering::Equal)
        }
    }
}

} // verus!
