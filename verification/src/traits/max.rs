//! The largest value of a numeric representation.

use vstd::prelude::*;

verus! {

/// A type with a largest representable value.
pub trait Max: Sized {
    /// The largest value of the type.
    spec fn maximum_spec() -> Self;

    /// Returns the largest value of the type.
    fn maximum() -> (top: Self)
        ensures
            top == Self::maximum_spec(),
    ;
}

impl Max for u8 {
    open spec fn maximum_spec() -> u8 {
        u8::MAX
    }

    fn maximum() -> (top: u8) {
        u8::MAX
    }
}

impl Max for u32 {
    open spec fn maximum_spec() -> u32 {
        u32::MAX
    }

    fn maximum() -> (top: u32) {
        u32::MAX
    }
}

impl Max for i32 {
    open spec fn maximum_spec() -> i32 {
        i32::MAX
    }

    fn maximum() -> (top: i32) {
        i32::MAX
    }
}

} // verus!
