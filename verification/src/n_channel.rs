//! Any number of grids of one shape.

use vstd::prelude::*;
use crate::matrix_image::MatrixImage;

verus! {

/// `N` grids of the same height and width.
#[derive(Debug)]
pub struct NChannelMatrix<T, const N: usize> {
    height: usize,
    width: usize,
    data: [MatrixImage<T>; N],
}

} // verus!
