//! A toroidal two-dimensional lattice: grids of numeric cells whose
//! neighbourhoods wrap around the edges, the aggregate operators built on
//! them, and bundles of four grids that advance together.

use vstd::prelude::*;
use vstd::arithmetic::power::{lemma_pow_increases, pow};

pub mod aggregate_laws;
pub mod error;
pub mod four_channel;
pub mod hasher;
pub mod hood;
pub mod hood_laws;
pub mod matrix_image;
pub mod n_channel;
pub mod raster;
pub mod traits;

pub use matrix_image::{MatrixImage, MatrixImageBuilder};

verus! {

/// The colour channel a grid is drawn into.
#[derive(Clone, Copy, Debug, PartialEq, Eq, PartialOrd, Ord)]
pub enum Channel {
    Red,
    Green,
    Blue,
    Alpha,
}

/// The two neighbourhood shapes of the lattice.
#[derive(Clone, Copy, Debug)]
pub enum Neighborhood {
    /// The diamond of points within a taxicab distance of the centre.
    VonNeumann,
    /// The square block of points within a Chebyshev distance of the centre.
    Moore,
}

impl Neighborhood {
    /// The size that the shape estimates for a neighbourhood of radius `size`.
    ///
    /// For the Von Neumann diamond it is the number of points of the
    /// diamond. For the Moore block it is not: the block holds
    /// `(2 * size + 1)^2` points, see `hood::moore_count`.
    pub open spec fn length_spec(self, size: nat) -> int {
        match self {
            Neighborhood::VonNeumann => (size * size + (1 + size) * (1 + size)) as int,
            Neighborhood::Moore => pow(3, size) - 1,
        }
    }

    /// The estimate `length_spec` for a radius at which it can be computed.
    pub fn length(self, size: usize) -> (estimate: usize)
        requires
            self is VonNeumann ==> size * size + (1 + size) * (1 + size) <= usize::MAX,
            self is Moore ==> pow(3, size as nat) <= usize::MAX,
        ensures
            estimate == self.length_spec(size as nat),
    {
        match self {
            Neighborhood::VonNeumann => {
                assert(size < 1 + size <= (1 + size) * (1 + size)) by (nonlinear_arith)
                    requires
                        0 <= size,
                ;
                assert(0 <= size * size) by (nonlinear_arith);
                size * size + (1 + size) * (1 + size)
            },
            Neighborhood::Moore => {
                let mut power: usize = 1;
                let mut i: usize = 0;
                proof {
                    vstd::arithmetic::power::lemma_pow0(3);
                }
                while i < size
                    invariant
                        i <= size,
                        power == pow(3, i as nat),
                        pow(3, size as nat) <= usize::MAX,
                    decreases size - i,
                {
                    proof {
                        lemma_pow_increases(3, (i + 1) as nat, size as nat);
                        vstd::arithmetic::power::lemma_pow_adds(3, i as nat, 1);
                        vstd::arithmetic::power::lemma_pow1(3);
                    }
                    power = power * 3;
                    i += 1;
                }
                proof {
                    vstd::arithmetic::power::lemma_pow_positive(3, size as nat);
                }
                power - 1
            },
        }
    }
}

} // verus!
