//! Four grids of one shape that advance together.

use vstd::prelude::*;
use vstd::std_specs::cmp::PartialEqSpecImpl;
use crate::Channel;
use crate::Neighborhood;
use crate::error::MatrixError;
use crate::hood::{neighborhood_points, point_count};
use crate::matrix_image::{GridView, MatrixImage, MatrixImageBuilder, cell_products};
use crate::raster::{
    Canvas,
    arranged,
    canvas_pixels,
    canvas_size,
    compose_arranged,
    composed,
    drawable,
    labels_of,
    layer_views,
};
use crate::traits::draw::layers_of;
use crate::traits::matrix::{Matrix, point_of};
use crate::traits::numeric::Numeric;
use crate::traits::optimal::{
    Optimal,
    best_peer,
    best_peer_internal_values,
    best_peer_internal_values_with_coefficients,
    best_peer_with_coefficients,
};

verus! {

/// What a bundle is: the sides it declares and its four channels.
pub ghost struct BundleView<T> {
    pub height: nat,
    pub width: nat,
    pub channels: Seq<GridView<T>>,
}

impl<T> BundleView<T> {
    /// The four channels are valid grids of the sides the bundle declares.
    pub open spec fn wf(self) -> bool {
        &&& self.channels.len() == 4
        &&& forall|i: int|
            0 <= i < 4 ==> {
                &&& (#[trigger] self.channels[i]).wf()
                &&& self.channels[i].height == self.height
                &&& self.channels[i].width == self.width
            }
    }
}

/// What four grids hold, channel by channel.
pub open spec fn channel_views<T>(grids: [MatrixImage<T>; 4]) -> Seq<GridView<T>> {
    Seq::new(4, |i: int| grids@[i]@)
}

/// The four grids share the sides, and so the cell count, of the first.
pub open spec fn same_shape<T>(channels: Seq<GridView<T>>) -> bool {
    forall|i: int|
        1 <= i < 4 ==> {
            &&& (#[trigger] channels[i]).cells.len() == channels[0].cells.len()
            &&& channels[i].width == channels[0].width
            &&& channels[i].height == channels[0].height
        }
}

/// The grid whose every cell is the cell of `grid` times the largest value.
pub open spec fn normalized<T: Numeric>(grid: GridView<T>) -> GridView<T> {
    GridView {
        cells: cell_products(grid.cells, Seq::new(grid.cells.len(), |i: int| T::maximum_spec())),
        ..grid
    }
}

/// What `update_rule_with_coefficients` leaves behind: the bundle that the
/// rule made of the old one under the coefficients `c` stands in its place,
/// and is handed out as well.
pub open spec fn rule_applied_under<T, U, F: Fn(&FourChannelMatrix<T>, U) -> FourChannelMatrix<T>>(
    rule_function: F,
    c: U,
    before: FourChannelMatrix<T>,
    after: FourChannelMatrix<T>,
    returned: FourChannelMatrix<T>,
) -> bool {
    exists|made: FourChannelMatrix<T>| #[trigger]
        call_ensures(rule_function, (&before, c), made) && after@ == made@ && returned@ == made@
}

/// What `update_rule` leaves behind: the bundle that the rule made of the
/// old one stands in its place, and is handed out as well.
pub open spec fn rule_applied<T, F: Fn(&FourChannelMatrix<T>) -> FourChannelMatrix<T>>(
    rule_function: F,
    before: FourChannelMatrix<T>,
    after: FourChannelMatrix<T>,
    returned: FourChannelMatrix<T>,
) -> bool {
    exists|made: FourChannelMatrix<T>| #[trigger]
        call_ensures(rule_function, (&before,), made) && after@ == made@ && returned@ == made@
}

/// A rule that makes of every bundle what the bundle holds.
pub open spec fn is_identity_rule<T, F: Fn(&FourChannelMatrix<T>) -> FourChannelMatrix<T>>(
    rule_function: F,
) -> bool {
    forall|bundle: FourChannelMatrix<T>, made: FourChannelMatrix<T>| #[trigger]
        call_ensures(rule_function, (&bundle,), made) ==> made@ == bundle@
}

/// Applying an identity rule leaves all four channels as they were.
pub proof fn lemma_identity_rule_changes_nothing<
    T,
    F: Fn(&FourChannelMatrix<T>) -> FourChannelMatrix<T>,
>(
    rule_function: F,
    before: FourChannelMatrix<T>,
    after: FourChannelMatrix<T>,
    returned: FourChannelMatrix<T>,
)
    requires
        is_identity_rule(rule_function),
        rule_applied(rule_function, before, after, returned),
    ensures
        after@ == before@,
        returned@ == before@,
{
}

/// Four grids of the same height and width, addressed by channel 0 to 3.
#[derive(Debug)]
pub struct FourChannelMatrix<T> {
    height: usize,
    width: usize,
    data: [MatrixImage<T>; 4],
}

impl<T> View for FourChannelMatrix<T> {
    type V = BundleView<T>;

    closed spec fn view(&self) -> BundleView<T> {
        BundleView {
            height: self.height as nat,
            width: self.width as nat,
            channels: channel_views(self.data),
        }
    }
}

impl<T: Copy> Clone for FourChannelMatrix<T> {
    fn clone(&self) -> (copy: Self)
        ensures
            copy@ == self@,
    {
        let copy = FourChannelMatrix {
            height: self.height,
            width: self.width,
            data: [
                self.data[0].clone(),
                self.data[1].clone(),
                self.data[2].clone(),
                self.data[3].clone(),
            ],
        };
        assert(channel_views(copy.data) =~= channel_views(self.data));
        copy
    }
}

impl<T> Default for FourChannelMatrix<T> {
    /// The bundle of four grids of no cells.
    fn default() -> (bundle: Self)
        ensures
            bundle@.wf(),
            bundle@.height == 0,
            bundle@.width == 0,
            forall|i: int| 0 <= i < 4 ==> (#[trigger] bundle@.channels[i]).cells.len() == 0,
    {
        let bundle = FourChannelMatrix {
            height: 0,
            width: 0,
            data: [
                MatrixImage::default(),
                MatrixImage::default(),
                MatrixImage::default(),
                MatrixImage::default(),
            ],
        };
        proof {
            assert forall|i: int| 0 <= i < 4 implies (#[trigger] bundle@.channels[i])
                == (GridView::<T> { height: 0, width: 0, cells: Seq::empty() }) by {
                assert(bundle@.channels[i] == bundle.data@[i]@);
            }
            assert(bundle@.channels.len() == 4);
            assert forall|i: int| 0 <= i < 4 implies (#[trigger] bundle@.channels[i]).wf() by {
                assert(bundle@.channels[i].cells.len() == 0);
                assert(bundle@.channels[i].height == 0);
                assert(bundle@.channels[i].height * bundle@.channels[i].width == 0)
                    by (nonlinear_arith)
                    requires
                        bundle@.channels[i].height == 0,
                ;
            }
        }
        bundle
    }
}

impl<T: Numeric> PartialEqSpecImpl for FourChannelMatrix<T> {
    open spec fn obeys_eq_spec() -> bool {
        true
    }

    /// Bundles are equal where their sides and their channels are.
    open spec fn eq_spec(&self, other: &Self) -> bool {
        self@ == other@
    }
}

impl<T: Numeric> PartialEq for FourChannelMatrix<T> {
    fn eq(&self, other: &Self) -> (equal: bool) {
        let equal: bool = self.height == other.height && self.width == other.width && self.data[0]
            == other.data[0] && self.data[1] == other.data[1] && self.data[2] == other.data[2]
            && self.data[3] == other.data[3];
        proof {
            if equal {
                assert(channel_views(self.data) =~= channel_views(other.data));
            } else if self.height == other.height && self.width == other.width {
                assert(channel_views(self.data)[0] == self.data@[0]@);
                assert(channel_views(self.data)[1] == self.data@[1]@);
                assert(channel_views(self.data)[2] == self.data@[2]@);
                assert(channel_views(self.data)[3] == self.data@[3]@);
                assert(channel_views(other.data)[0] == other.data@[0]@);
                assert(channel_views(other.data)[1] == other.data@[1]@);
                assert(channel_views(other.data)[2] == other.data@[2]@);
                assert(channel_views(other.data)[3] == other.data@[3]@);
            }
        }
        equal
    }
}

impl<T: Numeric> FourChannelMatrix<T> {
    /// Bundles four grids. The grids must share one shape: a grid whose
    /// height, width or cell count differs from that of the first is a
    /// `ShapeMismatch`.
    pub fn from(value: [MatrixImage<T>; 4]) -> (r: Result<Self, MatrixError>)
        ensures
            same_shape(channel_views(value)) ==> r is Ok,
            !same_shape(channel_views(value)) ==> r == Err::<Self, MatrixError>(
                MatrixError::ShapeMismatch,
            ),
            r matches Ok(bundle) ==> {
                &&& bundle@.wf()
                &&& bundle@.channels == channel_views(value)
                &&& bundle@.height == value@[0]@.height
                &&& bundle@.width == value@[0]@.width
            },
    {
        let height: usize = value[0].get_height();
        let width: usize = value[1].get_width();
        let cells: usize = value[0].get_data_len();
        let ghost channels = channel_views(value);
        assert(channels[0] == value@[0]@);
        let mut i: usize = 1;
        while i < 4
            invariant
                1 <= i <= 4,
                cells == channels[0].cells.len(),
                channels[0].wf(),
                channels == channel_views(value),
                forall|k: int| 1 <= k < i ==> (#[trigger] channels[k]).wf(),
                forall|k: int|
                    1 <= k < i ==> {
                        &&& (#[trigger] channels[k]).cells.len() == channels[0].cells.len()
                        &&& channels[k].width == channels[0].width
                        &&& channels[k].height == channels[0].height
                    },
            decreases 4 - i,
        {
            assert(channels[i as int] == value@[i as int]@);
            assert(channels[0] == value@[0]@);
            let same: bool = cells == value[i].get_data_len() && value[0].get_width()
                == value[i].get_width() && value[0].get_height() == value[i].get_height();
            if !same {
                return Err(MatrixError::ShapeMismatch);
            }
            i += 1;
        }
        proof {
            assert(channels[1] == value@[1]@);
            assert(channels[0] == value@[0]@);
        }
        Ok(FourChannelMatrix { height, width, data: value })
    }

    pub fn get_height(&self) -> (height: &usize)
        ensures
            *height == self@.height,
    {
        &self.height
    }

    pub fn get_width(&self) -> (width: &usize)
        ensures
            *width == self@.width,
    {
        &self.width
    }

    pub fn get_data(self) -> (data: [MatrixImage<T>; 4])
        ensures
            channel_views(data) == self@.channels,
    {
        self.data
    }

    pub fn get_data_ref(&self) -> (data: &[MatrixImage<T>; 4])
        ensures
            channel_views(*data) == self@.channels,
    {
        &self.data
    }

    /// The four grids, for writing. The sides that the bundle declares stay;
    /// whoever replaces a grid keeps its shape.
    pub fn get_data_mut_ref(&mut self) -> (data: &mut [MatrixImage<T>; 4])
        ensures
            channel_views(*data) == old(self)@.channels,
            final(self)@.channels == channel_views(*final(data)),
            final(self)@.height == old(self)@.height,
            final(self)@.width == old(self)@.width,
    {
        &mut self.data
    }

    /// The bundle whose every cell is multiplied by the largest value of the
    /// representation; the sides stay. Every product must be within the range
    /// of the representation.
    pub fn as_normals(&self) -> (scaled: Self)
        requires
            self@.wf(),
            forall|i: int, k: int|
                0 <= i < 4 && 0 <= k < self@.channels[i].cells.len() ==> (
                #[trigger] self@.channels[i].cells[k]).times_fits(T::maximum_spec()),
        ensures
            scaled@ == (BundleView {
                channels: Seq::new(4, |i: int| normalized(self@.channels[i])),
                ..self@
            }),
    {
        proof {
            assert(self@.channels[0].wf());
            assert(self@.channels[1].wf());
            assert(self@.channels[2].wf());
            assert(self@.channels[3].wf());
        }
        let scaled = FourChannelMatrix {
            height: self.height,
            width: self.width,
            data: [
                self.data[0].clone() * self.largest(),
                self.data[1].clone() * self.largest(),
                self.data[2].clone() * self.largest(),
                self.data[3].clone() * self.largest(),
            ],
        };
        proof {
            assert forall|i: int| 0 <= i < 4 implies #[trigger] channel_views(scaled.data)[i]
                == normalized(self@.channels[i]) by {
                assert(Seq::new(self@.channels[i].cells.len(), |k: int| T::maximum_spec()) =~= Seq::new(
                    (self.width * self.height) as nat,
                    |k: int| T::maximum_spec(),
                ));
            }
            assert(channel_views(scaled.data) =~= Seq::new(
                4,
                |i: int| normalized(self@.channels[i]),
            ));
        }
        scaled
    }

    /// The grid of the bundle's cell count whose every cell is the largest
    /// value of the representation.
    fn largest(&self) -> (reference: MatrixImage<T>)
        requires
            self@.wf(),
        ensures
            reference@.cells == Seq::new((self@.width * self@.height) as nat, |k: int| T::maximum_spec()),
    {
        proof {
            assert(self@.channels[0].wf());
            assert(self@.width * self@.height == self@.height * self@.width) by (nonlinear_arith);
        }
        MatrixImageBuilder::<T>::init().with_initial_value(T::maximum()).with_height_and_width(
            self.width,
            self.height,
        ).build()
    }

    /// Checks that `point` lies within the sides that the bundle declares.
    pub fn check_point_bounds(&self, point: (u32, u32)) -> (r: Result<bool, MatrixError>)
        ensures
            r == (if point.0 < self@.width && point.1 < self@.height {
                Ok::<bool, MatrixError>(true)
            } else {
                Err::<bool, MatrixError>(MatrixError::Overflow)
            }),
    {
        if point.0 as usize >= self.width || point.1 as usize >= self.height {
            Err(MatrixError::Overflow)
        } else {
            Ok(true)
        }
    }

    /// The point of the cell at place `absolute_point` of each channel.
    pub fn into_2d_point(&self, absolute_point: usize) -> (r: Result<(u32, u32), MatrixError>)
        ensures
            r == point_of(self@.width, self@.height, absolute_point as int),
    {
        if self.width == 0 {
            return Err(MatrixError::Overflow);
        }
        let x: usize = absolute_point % self.width;
        let y: usize = absolute_point / self.width;
        if y >= self.height {
            Err(MatrixError::Overflow)
        } else if x > u32::MAX as usize || y > u32::MAX as usize {
            Err(MatrixError::NumericConversionFailure)
        } else {
            Ok((x as u32, y as u32))
        }
    }

    /// Draws the four channels into one picture of the sides of the bundle,
    /// each channel into the component that its label in `channel_order`
    /// names; without labels the channels are red, green, blue and alpha.
    ///
    /// The four channels must hold the same number of cells. Sides that no
    /// picture can have are a `NumericConversionFailure`; more cells than
    /// the picture has pixels are an `Overflow`.
    pub fn multi_channel_image(&self, channel_order: Option<&[Channel; 4]>) -> (r: Result<
        Canvas,
        MatrixError,
    >)
        requires
            forall|k: int|
                0 <= k < 4 ==> (#[trigger] self@.channels[k]).cells.len()
                    == self@.channels[0].cells.len(),
        ensures
            !drawable(self@.width, self@.height) ==> r matches Err(
                MatrixError::NumericConversionFailure,
            ),
            drawable(self@.width, self@.height) && self@.channels[0].cells.len() > self@.width
                * self@.height ==> r matches Err(MatrixError::Overflow),
            drawable(self@.width, self@.height) && self@.channels[0].cells.len() <= self@.width
                * self@.height ==> (r matches Ok(canvas) && canvas_size(canvas) == (
                self@.width as u32,
                self@.height as u32,
            ) && canvas_pixels(canvas) == composed(
                (self@.width * self@.height) as nat,
                arranged(Seq::new(4, |k: int| Some(self@.channels[k])), labels_of(channel_order)),
                self@.channels[0].cells.len(),
            )),
    {
        let layers = layers_of(&self.data);
        let length: usize = self.data[0].get_data_len();
        proof {
            assert(layer_views(layers) =~= Seq::new(4, |k: int| Some(self@.channels[k])));
            assert forall|j: int| 0 <= j < 4 implies ((#[trigger] layers@[j]) matches Some(grid)
                ==> length <= grid@.cells.len()) by {
                assert(layer_views(layers)[j] == Some(self@.channels[j]));
                assert(self@.channels[j].cells.len() == self@.channels[0].cells.len());
            }
        }
        compose_arranged(self.width, self.height, layers, channel_order, length)
    }

    /// Advances the bundle by one step: `rule_function` makes the next
    /// bundle of this one, and the four grids are replaced as one.
    pub fn update_rule(&mut self, rule_function: impl Fn(&Self) -> Self) -> (next: Self)
        requires
            call_requires(rule_function, (&*old(self),)),
        ensures
            rule_applied(rule_function, *old(self), *final(self), next),
    {
        let made = rule_function(&*self);
        let next = made.clone();
        *self = made;
        next
    }

    /// As `update_rule`, for a rule that takes the coefficients `c`.
    pub fn update_rule_with_coefficients<U>(
        &mut self,
        rule_function: impl Fn(&Self, U) -> Self,
        c: U,
    ) -> (next: Self)
        requires
            call_requires(rule_function, (&*old(self), c)),
        ensures
            rule_applied_under(rule_function, c, *old(self), *final(self), next),
    {
        let made = rule_function(&*self, c);
        let next = made.clone();
        *self = made;
        next
    }
}

impl<T: Numeric> Optimal<T> for FourChannelMatrix<T> {
    open spec fn searchable(&self, hood_size: usize, hood_type: Neighborhood) -> bool {
        self@.channels[0].addressable() && point_count(hood_size as int, hood_type)
            <= usize::MAX
    }

    open spec fn peers(
        &self,
        self_point: (u32, u32),
        hood_size: usize,
        hood_type: Neighborhood,
    ) -> Seq<(u32, u32)> {
        neighborhood_points(
            self_point,
            hood_size as int,
            hood_type,
            self@.channels[0].width as int,
            self@.channels[0].height as int,
        )
    }

    fn optimal_peer<F: Fn(&Self, (u32, u32), (u32, u32)) -> T>(
        &self,
        self_point: (u32, u32),
        hood_size: usize,
        hood_type: Neighborhood,
        objective: F,
    ) -> (best: Option<((u32, u32), T)>) {
        let hood = self.data[0].get_lattice_neighborhood(self_point, hood_size, hood_type);
        let ghost peers = self.peers(self_point, hood_size, hood_type);
        assert forall|i: int| 0 <= i < hood.len() implies call_requires(
            objective,
            (self, self_point, hood@[i]),
        ) by {
            assert(hood@[i] == peers[i]);
        }
        best_peer(self, self_point, hood, objective)
    }

    fn optimal_peer_internal_values<V, F: Fn(&Self, (u32, u32), (u32, u32)) -> (T, V)>(
        &self,
        self_point: (u32, u32),
        hood_size: usize,
        hood_type: Neighborhood,
        objective: F,
    ) -> (best: Option<((u32, u32), (T, V))>) {
        let hood = self.data[0].get_lattice_neighborhood(self_point, hood_size, hood_type);
        let ghost peers = self.peers(self_point, hood_size, hood_type);
        assert forall|i: int| 0 <= i < hood.len() implies call_requires(
            objective,
            (self, self_point, hood@[i]),
        ) by {
            assert(hood@[i] == peers[i]);
        }
        best_peer_internal_values(self, self_point, hood, objective)
    }

    fn optimal_peer_with_coefficients<U: Copy, F: Fn(&Self, (u32, u32), (u32, u32), U) -> T>(
        &self,
        self_point: (u32, u32),
        hood_size: usize,
        hood_type: Neighborhood,
        objective: F,
        c: U,
    ) -> (best: Option<((u32, u32), T)>) {
        let hood = self.data[0].get_lattice_neighborhood(self_point, hood_size, hood_type);
        let ghost peers = self.peers(self_point, hood_size, hood_type);
        assert forall|i: int| 0 <= i < hood.len() implies call_requires(
            objective,
            (self, self_point, hood@[i], c),
        ) by {
            assert(hood@[i] == peers[i]);
        }
        best_peer_with_coefficients(self, self_point, hood, objective, c)
    }

    fn optimal_peer_internal_values_with_coefficients<U, V, F>(
        &self,
        self_point: (u32, u32),
        hood_size: usize,
        hood_type: Neighborhood,
        objective: F,
        c: &mut U,
    ) -> (best: Option<((u32, u32), (T, V))>) where
        F: for <'a>Fn(&'a Self, (u32, u32), (u32, u32), &'a mut U) -> (T, V),
     {
        let hood = self.data[0].get_lattice_neighborhood(self_point, hood_size, hood_type);
        assert(hood@ == self.peers(self_point, hood_size, hood_type));
        best_peer_internal_values_with_coefficients(self, self_point, hood, objective, c)
    }
}

} // verus!
