//! The conversions between cells and plain scalars: a cell gives its raw
//! value or its 8-bit intensity, and an 8-bit intensity scales up to a cell.

use vstd::prelude::*;
use vstd::std_specs::convert::FromSpecImpl;
use crate::traits::lattice_element::LatticeElement;
use crate::traits::numeric::Numeric;

verus! {

impl FromSpecImpl<LatticeElement<u32>> for u32 {
    open spec fn obeys_from_spec() -> bool {
        true
    }

    open spec fn from_spec(value: LatticeElement<u32>) -> u32 {
        value.0
    }
}

impl From<LatticeElement<u32>> for u32 {
    fn from(value: LatticeElement<u32>) -> (raw: u32) {
        value.0
    }
}

impl FromSpecImpl<LatticeElement<u8>> for u8 {
    open spec fn obeys_from_spec() -> bool {
        true
    }

    open spec fn from_spec(value: LatticeElement<u8>) -> u8 {
        value.intensity_spec()
    }
}

impl From<LatticeElement<u8>> for u8 {
    fn from(value: LatticeElement<u8>) -> (level: u8) {
        value.intensity()
    }
}

impl FromSpecImpl<LatticeElement<u32>> for u8 {
    open spec fn obeys_from_spec() -> bool {
        true
    }

    open spec fn from_spec(value: LatticeElement<u32>) -> u8 {
        value.intensity_spec()
    }
}

impl From<LatticeElement<u32>> for u8 {
    fn from(value: LatticeElement<u32>) -> (level: u8) {
        value.intensity()
    }
}

impl FromSpecImpl<LatticeElement<i32>> for u8 {
    open spec fn obeys_from_spec() -> bool {
        true
    }

    open spec fn from_spec(value: LatticeElement<i32>) -> u8 {
        value.intensity_spec()
    }
}

impl From<LatticeElement<i32>> for u8 {
    fn from(value: LatticeElement<i32>) -> (level: u8) {
        value.intensity()
    }
}

impl FromSpecImpl<u8> for LatticeElement<u32> {
    open spec fn obeys_from_spec() -> bool {
        true
    }

    open spec fn from_spec(level: u8) -> LatticeElement<u32> {
        LatticeElement::<u32>::from_intensity_spec(level)
    }
}

impl From<u8> for LatticeElement<u32> {
    fn from(level: u8) -> (value: LatticeElement<u32>) {
        LatticeElement::<u32>::from_intensity(level)
    }
}

impl FromSpecImpl<u8> for LatticeElement<i32> {
    open spec fn obeys_from_spec() -> bool {
        true
    }

    open spec fn from_spec(level: u8) -> LatticeElement<i32> {
        LatticeElement::<i32>::from_intensity_spec(level)
    }
}

impl From<u8> for LatticeElement<i32> {
    fn from(level: u8) -> (value: LatticeElement<i32>) {
        LatticeElement::<i32>::from_intensity(level)
    }
}

/// An intensity that was scaled up to a 32-bit unsigned cell comes back
/// unchanged, and the greatest intensity is the greatest cell.
pub proof fn lemma_intensity_round_trip_u32(level: u8)
    ensures
        u32::from_intensity_spec(level).intensity_spec() == level,
        u32::from_intensity_spec(255) == u32::MAX,
        u32::from_intensity_spec(0) == 0,
{
    assert(level * 0xFFFF_FFFF / 255 == level * 0x0101_0101) by (nonlinear_arith)
        requires
            0 <= level <= 255,
    ;
    assert(level * 0x0101_0101 * 255 / 0xFFFF_FFFF == level) by (nonlinear_arith)
        requires
            0 <= level <= 255,
    ;
}

} // verus!
