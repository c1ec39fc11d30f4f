//! The picture that grids are drawn into: one pixel of four 8-bit
//! components for each cell.

use vstd::prelude::*;
use vstd::arithmetic::div_mod::{lemma_fundamental_div_mod, lemma_mod_bound};
use crate::Channel;
use crate::error::MatrixError;
use crate::matrix_image::{GridView, MatrixImage};
use crate::traits::matrix::Matrix;
use crate::traits::numeric::Numeric;

verus! {

/// A pixel: red, green, blue and alpha.
pub type Pixel = (u8, u8, u8, u8);

/// An RGBA picture, held in an `image::RgbaImage`.
#[verifier::external_body]
pub struct Canvas {
    image: image::RgbaImage,
}

/// The pixels of a picture, row by row.
pub uninterp spec fn canvas_pixels(canvas: Canvas) -> Seq<Pixel>;

/// The width and the height that a picture was made with.
pub uninterp spec fn canvas_size(canvas: Canvas) -> (u32, u32);

/// Calls `image::RgbaImage::new`: a picture of the given sides whose every
/// pixel is zero in all four components. The outside function panics where
/// the buffer of four bytes a pixel is larger than a vector can be, so such
/// sides are left out.
#[verifier::external_body]
fn blank_canvas(width: u32, height: u32) -> (canvas: Canvas)
    requires
        4 * width * height <= isize::MAX,
    ensures
        canvas_size(canvas) == (width, height),
        canvas_pixels(canvas) == Seq::new((width * height) as nat, |i: int| (0u8, 0u8, 0u8, 0u8)),
{
    Canvas { image: image::RgbaImage::new(width, height) }
}

/// Calls `image::RgbaImage::put_pixel`: the pixel in column `x` of row `y`
/// becomes `pixel` and nothing else changes. The outside function panics for
/// a place off the picture, so such places are left out.
#[verifier::external_body]
fn put_pixel(canvas: &mut Canvas, x: u32, y: u32, pixel: Pixel)
    requires
        x < canvas_size(*old(canvas)).0,
        y < canvas_size(*old(canvas)).1,
    ensures
        canvas_size(*final(canvas)) == canvas_size(*old(canvas)),
        canvas_pixels(*final(canvas)) == canvas_pixels(*old(canvas)).update(
            y * canvas_size(*old(canvas)).0 + x,
            pixel,
        ),
{
    canvas.image.put_pixel(x, y, image::Rgba([pixel.0, pixel.1, pixel.2, pixel.3]));
}

/// Calls `image::RgbaImage::into_raw`: the buffer under the picture, four
/// bytes for each pixel in the order red, green, blue, alpha.
#[verifier::external_body]
fn raw_buffer(canvas: Canvas) -> (bytes: Vec<u8>)
    ensures
        bytes@ == raw_bytes(canvas_pixels(canvas)),
{
    canvas.image.into_raw()
}

/// The `k`-th component of a pixel.
pub open spec fn component(pixel: Pixel, k: int) -> u8 {
    if k == 0 {
        pixel.0
    } else if k == 1 {
        pixel.1
    } else if k == 2 {
        pixel.2
    } else {
        pixel.3
    }
}

/// The bytes of `pixels`, four for each pixel.
pub open spec fn raw_bytes(pixels: Seq<Pixel>) -> Seq<u8> {
    Seq::new(4 * pixels.len(), |i: int| component(pixels[i / 4], i % 4))
}

impl Canvas {
    /// The bytes of the picture, four for each pixel, row by row.
    pub fn into_raw(self) -> (bytes: Vec<u8>)
        ensures
            bytes@ == raw_bytes(canvas_pixels(self)),
    {
        raw_buffer(self)
    }
}

/// The pixel that shows the intensity `level` in the channel `color`: the
/// colours are opaque, and the alpha channel is drawn on black.
pub open spec fn channel_pixel(color: Channel, level: u8) -> Pixel {
    match color {
        Channel::Red => (level, 0, 0, 255),
        Channel::Green => (0, level, 0, 255),
        Channel::Blue => (0, 0, level, 255),
        Channel::Alpha => (0, 0, 0, level),
    }
}

/// A picture of these sides can be made: each side has a 32-bit value and
/// the buffer of four bytes a pixel is no larger than a vector can be.
pub open spec fn drawable(width: nat, height: nat) -> bool {
    width <= u32::MAX && height <= u32::MAX && 4 * width * height <= isize::MAX
}

/// The position of a channel in the order red, green, blue, alpha.
pub open spec fn channel_rank(color: Channel) -> int {
    match color {
        Channel::Red => 0,
        Channel::Green => 1,
        Channel::Blue => 2,
        Channel::Alpha => 3,
    }
}

/// Grid `j` is drawn into an earlier component than grid `i`: its channel
/// comes first, or the channels are the same and `j` was named first.
pub open spec fn comes_before(order: Seq<Channel>, j: int, i: int) -> bool {
    channel_rank(order[j]) < channel_rank(order[i]) || (channel_rank(order[j]) == channel_rank(
        order[i],
    ) && j < i)
}

/// The component that grid `i` is drawn into: the number of grids that come
/// before it.
pub open spec fn slot_of(order: Seq<Channel>, i: int) -> int {
    (if comes_before(order, 0, i) { 1int } else { 0 }) + (if comes_before(order, 1, i) { 1int } else { 0 })
        + (if comes_before(order, 2, i) { 1int } else { 0 }) + (if comes_before(order, 3, i) { 1int } else { 0 })
}

/// The grid that is drawn into component `k`.
pub open spec fn source_of(order: Seq<Channel>, k: int) -> int {
    if slot_of(order, 0) == k {
        0
    } else if slot_of(order, 1) == k {
        1
    } else if slot_of(order, 2) == k {
        2
    } else {
        3
    }
}

/// For each component the grid that is drawn into it: the grids sorted by
/// the channel they are labelled with, grids of one label in the order in
/// which they were named; without labels, the grids as they stand.
pub open spec fn arrangement(order: Option<Seq<Channel>>) -> Seq<int> {
    match order {
        None => seq![0, 1, 2, 3],
        Some(labels) => Seq::new(4, |k: int| source_of(labels, k)),
    }
}

/// The arrangement is a rearrangement of the four grids: every grid is the
/// source of the component that is its slot.
pub proof fn lemma_arrangement_is_permutation(labels: Seq<Channel>, i: int)
    requires
        labels.len() == 4,
        0 <= i < 4,
    ensures
        0 <= slot_of(labels, i) < 4,
        source_of(labels, slot_of(labels, i)) == i,
{
}

/// The labels that the caller gave the four grids, if any.
pub open spec fn labels_of(channel_order: Option<&[Channel; 4]>) -> Option<Seq<Channel>> {
    match channel_order {
        None => None,
        Some(labels) => Some(labels@),
    }
}

/// 1 where grid `j` comes before grid `i`, and 0 where it does not.
fn counts_before(labels: &[Channel; 4], j: usize, i: usize) -> (count: usize)
    requires
        j < 4,
        i < 4,
    ensures
        count == (if comes_before(labels@, j as int, i as int) {
            1int
        } else {
            0
        }),
{
    let left: u8 = rank_of(labels[j]);
    let right: u8 = rank_of(labels[i]);
    if left < right || (left == right && j < i) {
        1
    } else {
        0
    }
}

/// The position of a channel in the order red, green, blue, alpha.
fn rank_of(color: Channel) -> (rank: u8)
    ensures
        rank == channel_rank(color),
{
    match color {
        Channel::Red => 0,
        Channel::Green => 1,
        Channel::Blue => 2,
        Channel::Alpha => 3,
    }
}

/// The component that grid `i` is drawn into.
fn slot(labels: &[Channel; 4], i: usize) -> (place: usize)
    requires
        i < 4,
    ensures
        place == slot_of(labels@, i as int),
        place < 4,
{
    proof {
        lemma_arrangement_is_permutation(labels@, i as int);
    }
    counts_before(labels, 0, i) + counts_before(labels, 1, i) + counts_before(labels, 2, i)
        + counts_before(labels, 3, i)
}

/// For each component of the pixel the grid that is drawn into it.
pub fn arrange(channel_order: Option<&[Channel; 4]>) -> (sources: [usize; 4])
    ensures
        sources@.len() == 4,
        forall|k: int| 0 <= k < 4 ==> #[trigger] sources@[k] == arrangement(labels_of(channel_order))[k],
        forall|k: int| 0 <= k < 4 ==> 0 <= #[trigger] sources@[k] < 4,
{
    match channel_order {
        None => [0, 1, 2, 3],
        Some(labels) => {
            let mut sources: [usize; 4] = [0, 0, 0, 0];
            let first: usize = slot(labels, 0);
            let second: usize = slot(labels, 1);
            let third: usize = slot(labels, 2);
            let fourth: usize = slot(labels, 3);
            proof {
                lemma_arrangement_is_permutation(labels@, 0);
                lemma_arrangement_is_permutation(labels@, 1);
                lemma_arrangement_is_permutation(labels@, 2);
                lemma_arrangement_is_permutation(labels@, 3);
            }
            sources[first] = 0;
            sources[second] = 1;
            sources[third] = 2;
            sources[fourth] = 3;
            sources
        },
    }
}

/// What the four components of a pixel are drawn from: a grid, or nothing.
pub open spec fn layer_views<T>(layers: [Option<&MatrixImage<T>>; 4]) -> Seq<Option<GridView<T>>> {
    Seq::new(
        4,
        |k: int|
            match layers@[k] {
                Some(grid) => Some(grid@),
                None => None,
            },
    )
}

/// The intensity that a layer gives at place `i`; `missing` where there is
/// no grid.
pub open spec fn layer_level<T: Numeric>(layer: Option<GridView<T>>, i: int, missing: u8) -> u8 {
    match layer {
        Some(grid) => grid.cells[i].intensity_spec(),
        None => missing,
    }
}

/// The pixel at place `i`: a missing colour is 0 and a missing alpha is 255.
pub open spec fn composed_pixel<T: Numeric>(layers: Seq<Option<GridView<T>>>, i: int) -> Pixel {
    (
        layer_level(layers[0], i, 0),
        layer_level(layers[1], i, 0),
        layer_level(layers[2], i, 0),
        layer_level(layers[3], i, 255),
    )
}

/// The pixels of a picture of `count` pixels of which the first `length` are
/// drawn from `layers`; the others stay zero.
pub open spec fn composed<T: Numeric>(
    count: nat,
    layers: Seq<Option<GridView<T>>>,
    length: nat,
) -> Seq<Pixel> {
    Seq::new(
        count,
        |i: int|
            if i < length {
                composed_pixel(layers, i)
            } else {
                (0u8, 0u8, 0u8, 0u8)
            },
    )
}

/// The intensity of `layer` at place `i`.
fn level<T: Numeric>(layer: &Option<&MatrixImage<T>>, i: usize, missing: u8) -> (level: u8)
    requires
        layer matches Some(grid) ==> i < grid@.cells.len(),
    ensures
        level == layer_level(
            match *layer {
                Some(grid) => Some(grid@),
                None => None,
            },
            i as int,
            missing,
        ),
{
    match layer {
        Some(grid) => grid.get_absolute_point_data(i).intensity(),
        None => missing,
    }
}

/// Draws the first `length` cells of up to four grids into a picture of
/// `width` by `height` pixels, one grid for each component of the pixel.
///
/// Sides that no picture can have are a `NumericConversionFailure`; more
/// cells than the picture has pixels are an `Overflow`.
pub fn compose<T: Numeric>(
    width: usize,
    height: usize,
    layers: [Option<&MatrixImage<T>>; 4],
    length: usize,
) -> (r: Result<Canvas, MatrixError>)
    requires
        forall|k: int|
            0 <= k < 4 ==> ((#[trigger] layers@[k]) matches Some(grid) ==> length
                <= grid@.cells.len()),
    ensures
        !drawable(width as nat, height as nat) ==> r matches Err(
            MatrixError::NumericConversionFailure,
        ),
        drawable(width as nat, height as nat) && length > width * height ==> r matches Err(
            MatrixError::Overflow,
        ),
        drawable(width as nat, height as nat) && length <= width * height ==> (r matches Ok(canvas)
            && canvas_size(canvas) == (width as u32, height as u32) && canvas_pixels(canvas)
            == composed((width * height) as nat, layer_views(layers), length as nat)),
{
    if width > u32::MAX as usize || height > u32::MAX as usize {
        return Err(MatrixError::NumericConversionFailure);
    }
    assert(0 <= width * height) by (nonlinear_arith);
    assert(4 * width * height == 4 * (width * height)) by (nonlinear_arith);
    assert(isize::MAX < usize::MAX);
    let count: usize = match width.checked_mul(height) {
        Some(count) => count,
        None => {
            return Err(MatrixError::NumericConversionFailure);
        },
    };
    if count > (isize::MAX as usize) / 4 {
        return Err(MatrixError::NumericConversionFailure);
    }
    if length > count {
        return Err(MatrixError::Overflow);
    }
    let ghost views = layer_views(layers);
    let mut canvas = blank_canvas(width as u32, height as u32);
    let mut i: usize = 0;
    while i < length
        invariant
            i <= length <= count,
            count == width * height,
            width <= u32::MAX,
            height <= u32::MAX,
            views == layer_views(layers),
            forall|k: int|
                0 <= k < 4 ==> ((#[trigger] layers@[k]) matches Some(grid) ==> length
                    <= grid@.cells.len()),
            canvas_size(canvas) == (width as u32, height as u32),
            canvas_pixels(canvas) =~= composed(count as nat, views, i as nat),
        decreases length - i,
    {
        proof {
            lemma_fundamental_div_mod(i as int, width as int);
            lemma_mod_bound(i as int, width as int);
            assert(i / width < height) by (nonlinear_arith)
                requires
                    i < width * height,
                    i == width * (i / width) + i % width,
                    0 <= i % width < width,
            ;
            assert(width * (i / width) == (i / width) * width) by (nonlinear_arith);
            assert(layers@[0] == layers[0]);
            assert(layers@[1] == layers[1]);
            assert(layers@[2] == layers[2]);
            assert(layers@[3] == layers[3]);
        }
        let x: usize = i % width;
        let y: usize = i / width;
        let pixel: Pixel = (
            level(&layers[0], i, 0),
            level(&layers[1], i, 0),
            level(&layers[2], i, 0),
            level(&layers[3], i, 255),
        );
        put_pixel(&mut canvas, x as u32, y as u32, pixel);
        i += 1;
    }
    Ok(canvas)
}

/// The layers `channels` arranged by the labels `order`: component `k` is
/// drawn from the grid that the arrangement names for it.
pub open spec fn arranged<T>(
    channels: Seq<Option<GridView<T>>>,
    order: Option<Seq<Channel>>,
) -> Seq<Option<GridView<T>>> {
    Seq::new(4, |k: int| channels[arrangement(order)[k]])
}

/// Draws the first `length` cells of up to four grids into a picture, each
/// grid into the component that its label in `channel_order` names; without
/// labels the grids are red, green, blue and alpha as they stand.
pub fn compose_arranged<T: Numeric>(
    width: usize,
    height: usize,
    channels: [Option<&MatrixImage<T>>; 4],
    channel_order: Option<&[Channel; 4]>,
    length: usize,
) -> (r: Result<Canvas, MatrixError>)
    requires
        forall|k: int|
            0 <= k < 4 ==> ((#[trigger] channels@[k]) matches Some(grid) ==> length
                <= grid@.cells.len()),
    ensures
        !drawable(width as nat, height as nat) ==> r matches Err(
            MatrixError::NumericConversionFailure,
        ),
        drawable(width as nat, height as nat) && length > width * height ==> r matches Err(
            MatrixError::Overflow,
        ),
        drawable(width as nat, height as nat) && length <= width * height ==> (r matches Ok(canvas)
            && canvas_size(canvas) == (width as u32, height as u32) && canvas_pixels(canvas)
            == composed(
            (width * height) as nat,
            arranged(layer_views(channels), labels_of(channel_order)),
            length as nat,
        )),
{
    let sources = arrange(channel_order);
    proof {
        assert(0 <= sources@[0] < 4);
        assert(0 <= sources@[1] < 4);
        assert(0 <= sources@[2] < 4);
        assert(0 <= sources@[3] < 4);
    }
    let layers: [Option<&MatrixImage<T>>; 4] = [
        channels[sources[0]],
        channels[sources[1]],
        channels[sources[2]],
        channels[sources[3]],
    ];
    proof {
        assert forall|k: int| 0 <= k < 4 implies #[trigger] layer_views(layers)[k] == arranged(
            layer_views(channels),
            labels_of(channel_order),
        )[k] by {
            assert(sources@[k] == arrangement(labels_of(channel_order))[k]);
            assert(layers@[k] == channels@[sources@[k] as int]);
        }
        assert(layer_views(layers) =~= arranged(layer_views(channels), labels_of(channel_order)));
        assert forall|k: int| 0 <= k < 4 implies ((#[trigger] layers@[k]) matches Some(grid)
            ==> length <= grid@.cells.len()) by {
            assert(layers@[k] == channels@[sources@[k] as int]);
        }
    }
    compose(width, height, layers, length)
}

} // verus!
