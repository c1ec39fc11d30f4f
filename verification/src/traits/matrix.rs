//! The accessors of a grid: strict, with no wrapping of coordinates.

use vstd::prelude::*;
use crate::error::MatrixError;
use crate::matrix_image::GridView;

verus! {

/// The point that the cell at place `absolute_point` belongs to.
///
/// A place past the last cell is an `Overflow`; a place whose column or row
/// has no 32-bit coordinate is a `NumericConversionFailure`.
pub open spec fn point_of(width: nat, height: nat, absolute_point: int) -> Result<
    (u32, u32),
    MatrixError,
> {
    if width == 0 || absolute_point / (width as int) >= height {
        Err(MatrixError::Overflow)
    } else if absolute_point % (width as int) > u32::MAX || absolute_point / (width as int)
        > u32::MAX {
        Err(MatrixError::NumericConversionFailure)
    } else {
        Ok(((absolute_point % (width as int)) as u32, (absolute_point / (width as int)) as u32))
    }
}

/// On a grid whose sides have 32-bit values, a place and the point of its
/// cell name each other.
pub proof fn lemma_point_of_place<T>(grid: GridView<T>, point: (u32, u32))
    requires
        grid.wf(),
        grid.contains(point),
    ensures
        point_of(grid.width, grid.height, grid.index_of(point)) == Ok::<(u32, u32), MatrixError>(
            point,
        ),
{
    vstd::arithmetic::div_mod::lemma_fundamental_div_mod_converse(
        grid.index_of(point),
        grid.width as int,
        point.1 as int,
        point.0 as int,
    );
}

/// The place of the cell at `point`, or `Overflow` for a point off the grid
/// or a place that no machine index reaches.
pub open spec fn place_of<T>(grid: GridView<T>, point: (u32, u32)) -> Result<usize, MatrixError> {
    if grid.contains(point) && grid.index_of(point) <= usize::MAX {
        Ok(grid.index_of(point) as usize)
    } else {
        Err(MatrixError::Overflow)
    }
}

/// On a valid grid every point of the grid has a place.
pub proof fn lemma_place_of_point<T>(grid: GridView<T>, point: (u32, u32))
    requires
        grid.wf(),
        grid.contains(point),
    ensures
        place_of(grid, point) == Ok::<usize, MatrixError>(grid.index_of(point) as usize),
        grid.index_of(point) < grid.cells.len(),
{
    grid.lemma_index_in_range(point);
}

/// A grid addressed by points and by places in its row-major cells.
pub trait Matrix<T: Copy> {
    type Data;

    /// What the grid holds.
    spec fn grid(&self) -> GridView<T>;

    /// A copy of the cells.
    fn get_data(&self) -> Self::Data;

    fn get_width(&self) -> (width: usize)
        ensures
            width == self.grid().width,
    ;

    fn get_height(&self) -> (height: usize)
        ensures
            height == self.grid().height,
    ;

    /// Checks that `point` lies on the grid.
    fn check_point_bounds(&self, point: (u32, u32)) -> (r: Result<bool, MatrixError>)
        ensures
            r == (if self.grid().contains(point) {
                Ok::<bool, MatrixError>(true)
            } else {
                Err::<bool, MatrixError>(MatrixError::Overflow)
            }),
    {
        if point.0 as usize >= self.get_width() || point.1 as usize >= self.get_height() {
            Err(MatrixError::Overflow)
        } else {
            Ok(true)
        }
    }

    /// The cell at `point`.
    fn get_point_value(&self, point: (u32, u32)) -> (r: Result<T, MatrixError>)
        ensures
            r == self.grid().get(point),
    ;

    /// The cell at place `absolute_point`.
    fn get_absolute_point_data(&self, absolute_point: usize) -> (value: T)
        requires
            absolute_point < self.grid().cells.len(),
        ensures
            value == self.grid().cells[absolute_point as int],
    ;

    /// The point of the cell at place `absolute_point`.
    fn into_2d_point(&self, absolute_point: usize) -> (r: Result<(u32, u32), MatrixError>)
        ensures
            r == point_of(self.grid().width, self.grid().height, absolute_point as int),
    {
        let width: usize = self.get_width();
        let height: usize = self.get_height();
        if width == 0 {
            return Err(MatrixError::Overflow);
        }
        let x: usize = absolute_point % width;
        let y: usize = absolute_point / width;
        if y >= height {
            Err(MatrixError::Overflow)
        } else if x > u32::MAX as usize || y > u32::MAX as usize {
            Err(MatrixError::NumericConversionFailure)
        } else {
            Ok((x as u32, y as u32))
        }
    }

    /// The place of the cell at `point` in the row-major cells.
    fn into_absolute_point(&self, point: (u32, u32)) -> (r: Result<usize, MatrixError>)
        ensures
            r == place_of(self.grid(), point),
    {
        let width: usize = self.get_width();
        let height: usize = self.get_height();
        if point.0 as usize >= width || point.1 as usize >= height {
            return Err(MatrixError::Overflow);
        }
        assert(0 <= point.1 * width) by (nonlinear_arith);
        match (point.1 as usize).checked_mul(width) {
            Some(rows) => match rows.checked_add(point.0 as usize) {
                Some(place) => Ok(place),
                None => Err(MatrixError::Overflow),
            },
            None => Err(MatrixError::Overflow),
        }
    }

    /// Replaces the cell at `point` by `value`.
    fn edit_point(&mut self, point: (u32, u32), value: T) -> (r: Result<(), MatrixError>)
        ensures
            final(self).grid() == old(self).grid().set(point, value),
            r == (if old(self).grid().contains(point) {
                Ok::<(), MatrixError>(())
            } else {
                Err::<(), MatrixError>(MatrixError::Overflow)
            }),
    ;
}

} // verus!
