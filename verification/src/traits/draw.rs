//! Drawing grids into pictures.

use vstd::prelude::*;
use crate::Channel;
use crate::error::MatrixError;
use crate::matrix_image::{GridView, MatrixImage};
use crate::raster::{
    Canvas,
    Pixel,
    arranged,
    canvas_pixels,
    canvas_size,
    channel_pixel,
    compose,
    compose_arranged,
    composed,
    drawable,
    labels_of,
    layer_views,
};
use crate::traits::matrix::Matrix;
use crate::traits::numeric::Numeric;

verus! {

/// The picture of one grid in one channel: a pixel for each cell, showing
/// the intensity of the cell.
pub open spec fn drawn<T: Numeric>(grid: GridView<T>, color: Channel) -> Seq<Pixel> {
    Seq::new(grid.cells.len(), |i: int| channel_pixel(color, grid.cells[i].intensity_spec()))
}

/// What four grids hold, each of them present.
pub open spec fn all_present<T>(channels: [MatrixImage<T>; 4]) -> Seq<Option<GridView<T>>> {
    Seq::new(4, |k: int| Some(channels@[k]@))
}

/// What up to four grids hold.
pub open spec fn some_present<T>(channels: [Option<MatrixImage<T>>; 4]) -> Seq<Option<GridView<T>>> {
    Seq::new(
        4,
        |k: int|
            match channels@[k] {
                Some(grid) => Some(grid@),
                None => None,
            },
    )
}

/// The grids that are present hold the same number of cells.
pub open spec fn same_length<T>(channels: Seq<Option<GridView<T>>>) -> bool {
    forall|j: int, k: int|
        0 <= j < 4 && 0 <= k < 4 && (#[trigger] channels[j]) is Some && (#[trigger] channels[k]) is Some
            ==> channels[j]->0.cells.len() == channels[k]->0.cells.len()
}

/// The number of grids that are present.
pub open spec fn present_count<T>(channels: Seq<Option<GridView<T>>>) -> int {
    (if channels[0] is Some { 1int } else { 0 }) + (if channels[1] is Some { 1int } else { 0 }) + (
    if channels[2] is Some { 1int } else { 0 }) + (if channels[3] is Some { 1int } else { 0 })
}

/// The number of cells of the first grid that is present.
pub open spec fn first_length<T>(channels: Seq<Option<GridView<T>>>) -> nat {
    if channels[0] is Some {
        channels[0]->0.cells.len()
    } else if channels[1] is Some {
        channels[1]->0.cells.len()
    } else if channels[2] is Some {
        channels[2]->0.cells.len()
    } else if channels[3] is Some {
        channels[3]->0.cells.len()
    } else {
        0
    }
}

/// The number of cells that are drawn from optional grids: the cells of the
/// grids where two or more are present, and none where only one is.
pub open spec fn drawn_length<T>(channels: Seq<Option<GridView<T>>>) -> nat {
    if present_count(channels) >= 2 {
        first_length(channels)
    } else {
        0
    }
}

/// A grid that can be drawn in one channel, or together with others.
pub trait Draw<T: Numeric>: Matrix<T> {
    /// Draws the grid in the channel `color`.
    ///
    /// A grid whose sides no picture can have is a
    /// `NumericConversionFailure`.
    fn draw(&self, color: Channel) -> (r: Result<Canvas, MatrixError>)
        ensures
            !drawable(self.grid().width, self.grid().height) ==> r matches Err(
                MatrixError::NumericConversionFailure,
            ),
            drawable(self.grid().width, self.grid().height) ==> (r matches Ok(canvas)
                && canvas_size(canvas) == (self.grid().width as u32, self.grid().height as u32)
                && canvas_pixels(canvas) == drawn(self.grid(), color)),
    ;

    /// Draws up to four grids into a picture of the sides of this grid. A
    /// colour without a grid is 0 and an alpha without a grid is 255.
    ///
    /// The grids that are present must hold the same number of cells, and
    /// one at least must be present. Nothing is drawn where only one is.
    fn draw_multi_channel(
        &self,
        channels: &[Option<MatrixImage<T>>; 4],
        channel_order: Option<&[Channel; 4]>,
    ) -> (r: Result<Canvas, MatrixError>)
        requires
            same_length(some_present(*channels)),
            present_count(some_present(*channels)) >= 1,
        ensures
            !drawable(self.grid().width, self.grid().height) ==> r matches Err(
                MatrixError::NumericConversionFailure,
            ),
            drawable(self.grid().width, self.grid().height) && drawn_length(
                some_present(*channels),
            ) > self.grid().width * self.grid().height ==> r matches Err(MatrixError::Overflow),
            drawable(self.grid().width, self.grid().height) && drawn_length(
                some_present(*channels),
            ) <= self.grid().width * self.grid().height ==> (r matches Ok(canvas) && canvas_size(
                canvas,
            ) == (self.grid().width as u32, self.grid().height as u32) && canvas_pixels(canvas)
                == composed(
                (self.grid().width * self.grid().height) as nat,
                arranged(some_present(*channels), labels_of(channel_order)),
                drawn_length(some_present(*channels)),
            )),
    ;
}

/// A grid that lends its sides to the picture of four grids.
pub trait DrawMultiChannel<T: Numeric>: Matrix<T> {
    /// Draws four grids into a picture of the sides of this grid, each grid
    /// into the component that its label names.
    ///
    /// The four grids must hold the same number of cells. More cells than
    /// the picture has pixels are an `Overflow`.
    fn draw_multi_channel(
        &self,
        channels: &[MatrixImage<T>; 4],
        channel_order: Option<&[Channel; 4]>,
    ) -> (r: Result<Canvas, MatrixError>)
        requires
            same_length(all_present(*channels)),
        ensures
            !drawable(self.grid().width, self.grid().height) ==> r matches Err(
                MatrixError::NumericConversionFailure,
            ),
            drawable(self.grid().width, self.grid().height) && channels@[0]@.cells.len()
                > self.grid().width * self.grid().height ==> r matches Err(MatrixError::Overflow),
            drawable(self.grid().width, self.grid().height) && channels@[0]@.cells.len()
                <= self.grid().width * self.grid().height ==> (r matches Ok(canvas) && canvas_size(
                canvas,
            ) == (self.grid().width as u32, self.grid().height as u32) && canvas_pixels(canvas)
                == composed(
                (self.grid().width * self.grid().height) as nat,
                arranged(all_present(*channels), labels_of(channel_order)),
                channels@[0]@.cells.len(),
            )),
    ;
}

/// The four grids as layers.
pub(crate) fn layers_of<T>(channels: &[MatrixImage<T>; 4]) -> (layers: [Option<&MatrixImage<T>>; 4])
    ensures
        layer_views(layers) == all_present(*channels),
{
    let layers: [Option<&MatrixImage<T>>; 4] = [
        Some(&channels[0]),
        Some(&channels[1]),
        Some(&channels[2]),
        Some(&channels[3]),
    ];
    assert(layer_views(layers) =~= all_present(*channels));
    layers
}

impl<T: Numeric> Draw<T> for MatrixImage<T> {
    fn draw(&self, color: Channel) -> (r: Result<Canvas, MatrixError>) {
        let layers: [Option<&MatrixImage<T>>; 4] = match color {
            Channel::Red => [Some(self), None, None, None],
            Channel::Green => [None, Some(self), None, None],
            Channel::Blue => [None, None, Some(self), None],
            Channel::Alpha => [None, None, None, Some(self)],
        };
        let length: usize = self.get_data_len();
        let r = compose(self.get_width(), self.get_height(), layers, length);
        proof {
            assert(self@.height * self@.width == self@.width * self@.height) by (nonlinear_arith);
            if r is Ok {
                assert(canvas_pixels(r->Ok_0) =~= drawn(self@, color));
            }
        }
        r
    }

    fn draw_multi_channel(
        &self,
        channels: &[Option<MatrixImage<T>>; 4],
        channel_order: Option<&[Channel; 4]>,
    ) -> (r: Result<Canvas, MatrixError>) {
        let layers: [Option<&MatrixImage<T>>; 4] = [
            channels[0].as_ref(),
            channels[1].as_ref(),
            channels[2].as_ref(),
            channels[3].as_ref(),
        ];
        assert(layer_views(layers) =~= some_present(*channels));
        let mut present: usize = 0;
        let mut first: usize = 0;
        let mut k: usize = 4;
        while k > 0
            invariant
                k <= 4,
                layer_views(layers) == some_present(*channels),
                present == (if k <= 0 && layers@[0] is Some { 1int } else { 0 }) + (if k <= 1
                    && layers@[1] is Some { 1int } else { 0 }) + (if k <= 2 && layers@[2] is Some { 1int } else { 0 })
                    + (if k <= 3 && layers@[3] is Some { 1int } else { 0 }),
                first == (if k <= 0 && layers@[0] is Some {
                    layers@[0]->0@.cells.len()
                } else if k <= 1 && layers@[1] is Some {
                    layers@[1]->0@.cells.len()
                } else if k <= 2 && layers@[2] is Some {
                    layers@[2]->0@.cells.len()
                } else if k <= 3 && layers@[3] is Some {
                    layers@[3]->0@.cells.len()
                } else {
                    0
                }),
            decreases k,
        {
            k -= 1;
            match layers[k] {
                Some(grid) => {
                    present += 1;
                    first = grid.get_data_len();
                },
                None => {},
            }
        }
        proof {
            let views = some_present(*channels);
            assert forall|j: int| 0 <= j < 4 implies (#[trigger] views[j] is Some) == (layers@[j] is Some)
                && (layers@[j] matches Some(grid) ==> views[j]->0 == grid@) by {
                assert(views[j] == layer_views(layers)[j]);
            }
            assert(present == present_count(views));
            assert(first == first_length(views));
        }
        let length: usize = if present >= 2 {
            first
        } else {
            0
        };
        proof {
            let views = some_present(*channels);
            assert forall|j: int| 0 <= j < 4 implies ((#[trigger] layers@[j]) matches Some(grid)
                ==> length <= grid@.cells.len()) by {
                assert(views[j] == layer_views(layers)[j]);
                if layers@[j] is Some && present >= 2 {
                    if views[0] is Some {
                        assert(views[0]->0.cells.len() == views[j]->0.cells.len());
                    } else if views[1] is Some {
                        assert(views[1]->0.cells.len() == views[j]->0.cells.len());
                    } else if views[2] is Some {
                        assert(views[2]->0.cells.len() == views[j]->0.cells.len());
                    } else {
                        assert(views[3]->0.cells.len() == views[j]->0.cells.len());
                    }
                }
            }
        }
        compose_arranged(self.get_width(), self.get_height(), layers, channel_order, length)
    }
}

impl<T: Numeric> DrawMultiChannel<T> for MatrixImage<T> {
    fn draw_multi_channel(
        &self,
        channels: &[MatrixImage<T>; 4],
        channel_order: Option<&[Channel; 4]>,
    ) -> (r: Result<Canvas, MatrixError>) {
        let layers = layers_of(channels);
        let length: usize = channels[0].get_data_len();
        proof {
            let views = all_present(*channels);
            assert forall|j: int| 0 <= j < 4 implies ((#[trigger] layers@[j]) matches Some(grid)
                ==> length <= grid@.cells.len()) by {
                assert(views[j] == layer_views(layers)[j]);
                assert(views[0]->0.cells.len() == views[j]->0.cells.len());
            }
        }
        compose_arranged(self.get_width(), self.get_height(), layers, channel_order, length)
    }
}

} // verus!
