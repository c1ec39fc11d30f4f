//! The capabilities shared by the lattice types.

pub mod draw;
pub mod from;
pub mod max;
pub mod model;
pub mod numeric;
pub mod optimal;
pub mod lattice_element;
pub mod matrix;

pub use draw::{Draw, DrawMultiChannel};
pub use max::Max;
pub use model::{Model, OptimalModel};
pub use numeric::Numeric;
pub use lattice_element::LatticeElement;
pub use matrix::Matrix;
pub use optimal::Optimal;
