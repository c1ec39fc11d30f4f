//! The shape of a model: an objective to optimise, an exchange network
//! that says how an exchange is valued, and an objective function that
//! values a point against its neighbourhood.

use vstd::prelude::*;
use crate::traits::numeric::Numeric;
use crate::traits::optimal::Optimal;

verus! {

/// A model over a lattice, for its users to implement.
pub trait Model {
    /// What the model optimises.
    type Objective;

    /// What the exchange network is tuned with.
    type Coefficients;

    /// Values the exchanges of the lattice under the coefficients `c`.
    fn exchange_network(&mut self, c: Self::Coefficients) -> &mut Self;

    /// The objective at the point `x`.
    fn optimal_objective(&mut self, x: (u32, u32)) -> Self::Objective;

    /// The objective at the point `x`, searched over the neighbours `hood`.
    fn optimal_objective_with_hood(&mut self, x: (u32, u32), hood: Vec<(u32, u32)>) -> Self::Objective;
}

/// A model whose objective is found by the search for the best peer on a
/// lattice `U` that the model holds.
pub trait OptimalModel<T, U>: Model where T: Numeric, U: Optimal<T> {
    /// The objective of the pair that the point `x` forms with its best peer.
    fn optimal_model(&mut self, x: (u32, u32)) -> Self::Objective;

    /// Advances the lattice that the model holds and hands it out.
    fn optimal_update(&mut self) -> &U;
}

} // verus!
