//! A grid of cells stored row by row, and the template that builds it.

use vstd::prelude::*;
use vstd::std_specs::cmp::PartialEqSpecImpl;
use crate::Neighborhood;
use crate::error::MatrixError;
use crate::hood::{
    SIDE_LIMIT,
    all_within,
    fits_once,
    lattice_neighborhood,
    neighborhood_points,
    point_count,
};
use crate::hood_laws::{lemma_neighborhood_within, lemma_no_duplicates_exactly_when_fits};
use crate::traits::matrix::{Matrix, lemma_place_of_point};
use crate::traits::max::Max;
use crate::traits::numeric::Numeric;
use crate::traits::optimal::{
    Optimal,
    best_peer,
    best_peer_internal_values,
    best_peer_internal_values_with_coefficients,
    best_peer_with_coefficients,
};

verus! {

/// What a grid is: its two sides and its cells, row by row.
pub ghost struct GridView<T> {
    pub height: nat,
    pub width: nat,
    pub cells: Seq<T>,
}

impl<T> GridView<T> {
    /// The grid holds one cell for each point, and no more cells than a
    /// machine can address.
    pub open spec fn wf(self) -> bool {
        &&& self.cells.len() == self.height * self.width
        &&& self.cells.len() <= usize::MAX
    }

    /// `point` lies on the grid.
    pub open spec fn contains(self, point: (u32, u32)) -> bool {
        point.0 < self.width && point.1 < self.height
    }

    /// The place of `point` in the row-major cells.
    pub open spec fn index_of(self, point: (u32, u32)) -> int {
        point.0 + point.1 * self.width
    }

    /// The cell at `point`, or `Overflow` for a point off the grid.
    pub open spec fn get(self, point: (u32, u32)) -> Result<T, MatrixError> {
        if self.contains(point) {
            Ok(self.cells[self.index_of(point)])
        } else {
            Err(MatrixError::Overflow)
        }
    }

    /// The grid with the cell at `point` replaced; unchanged for a point off
    /// the grid.
    pub open spec fn set(self, point: (u32, u32), value: T) -> Self {
        if self.contains(point) {
            GridView { cells: self.cells.update(self.index_of(point), value), ..self }
        } else {
            self
        }
    }

    /// The cells at `points`, in the order of the points.
    pub open spec fn values_at(self, points: Seq<(u32, u32)>) -> Seq<T> {
        Seq::new(points.len(), |i: int| self.cells[self.index_of(points[i])])
    }

    /// Every column and every row of the grid has a 32-bit coordinate, and
    /// the grid is not empty.
    pub open spec fn addressable(self) -> bool {
        0 < self.width <= SIDE_LIMIT && 0 < self.height <= SIDE_LIMIT
    }

    /// The place of every point of the grid is the place of one of its cells.
    pub proof fn lemma_index_in_range(self, point: (u32, u32))
        requires
            self.wf(),
            self.contains(point),
        ensures
            0 <= self.index_of(point) < self.cells.len(),
    {
        assert(point.0 + point.1 * self.width < self.height * self.width) by (nonlinear_arith)
            requires
                point.0 < self.width,
                point.1 < self.height,
        ;
    }

    /// A cell read after it was written holds the value written.
    pub proof fn lemma_get_after_set(self, point: (u32, u32), value: T)
        requires
            self.wf(),
            self.contains(point),
        ensures
            self.set(point, value).get(point) == Ok::<T, MatrixError>(value),
            self.set(point, value).wf(),
    {
        self.lemma_index_in_range(point);
    }
}

/// A grid of `height` rows and `width` columns, its cells stored row by row.
#[derive(Debug)]
pub struct MatrixImage<T> {
    height: usize,
    width: usize,
    data: Vec<T>,
}

impl<T> View for MatrixImage<T> {
    type V = GridView<T>;

    closed spec fn view(&self) -> GridView<T> {
        GridView { height: self.height as nat, width: self.width as nat, cells: self.data@ }
    }
}

impl<T> MatrixImage<T> {
    /// A grid always holds one cell for each of its points.
    #[verifier::type_invariant]
    pub open spec fn well_formed(self) -> bool {
        self@.wf()
    }

    /// The number of cells, which is always the product of the two sides.
    pub fn get_data_len(&self) -> (count: usize)
        ensures
            count == self@.cells.len(),
            self@.wf(),
    {
        proof {
            use_type_invariant(self);
        }
        self.data.len()
    }
}

/// The values of `values` accumulated from the neutral value, in order.
pub open spec fn total<T: Numeric>(values: Seq<T>) -> T
    decreases values.len(),
{
    if values.len() == 0 {
        T::neutral_spec()
    } else {
        total(values.drop_last()).plus_spec(values.last())
    }
}

/// The discrete Laplacian that adds each value to the running sum and then
/// takes the centre away.
pub open spec fn sum_first_total<T: Numeric>(values: Seq<T>, center: T) -> T
    decreases values.len(),
{
    if values.len() == 0 {
        T::neutral_spec()
    } else {
        sum_first_total(values.drop_last(), center).plus_spec(values.last()).minus_spec(center)
    }
}

/// The discrete Laplacian that takes the centre away from each value and
/// then adds the difference to the running sum.
pub open spec fn sub_first_total<T: Numeric>(values: Seq<T>, center: T) -> T
    decreases values.len(),
{
    if values.len() == 0 {
        T::neutral_spec()
    } else {
        sub_first_total(values.drop_last(), center).plus_spec(values.last().minus_spec(center))
    }
}

/// Every step of the accumulation of `values` stays within the range of the
/// representation.
pub open spec fn total_fits<T: Numeric>(values: Seq<T>) -> bool
    decreases values.len(),
{
    values.len() == 0 || (total_fits(values.drop_last()) && total(values.drop_last()).plus_fits(
        values.last(),
    ))
}

/// Every sum and every difference of the add-first Laplacian stays within
/// the range of the representation.
pub open spec fn sum_first_fits<T: Numeric>(values: Seq<T>, center: T) -> bool
    decreases values.len(),
{
    values.len() == 0 || (sum_first_fits(values.drop_last(), center) && sum_first_total(
        values.drop_last(),
        center,
    ).plus_fits(values.last()) && sum_first_total(values.drop_last(), center).plus_spec(
        values.last(),
    ).minus_fits(center))
}

/// Every difference and every sum of the subtract-first Laplacian stays
/// within the range of the representation.
pub open spec fn sub_first_fits<T: Numeric>(values: Seq<T>, center: T) -> bool
    decreases values.len(),
{
    values.len() == 0 || (sub_first_fits(values.drop_last(), center) && values.last().minus_fits(
        center,
    ) && sub_first_total(values.drop_last(), center).plus_fits(values.last().minus_spec(center)))
}

/// An accumulation that stays within the range does so up to any place.
pub proof fn lemma_total_fits_prefix<T: Numeric>(values: Seq<T>, i: int)
    requires
        total_fits(values),
        0 <= i <= values.len(),
    ensures
        total_fits(values.take(i)),
    decreases values.len(),
{
    if i == values.len() {
        assert(values.take(i) =~= values);
    } else {
        assert(values.take(i) =~= values.drop_last().take(i));
        lemma_total_fits_prefix(values.drop_last(), i);
    }
}

/// An add-first Laplacian that stays within the range does so up to any
/// place.
pub proof fn lemma_sum_first_fits_prefix<T: Numeric>(values: Seq<T>, center: T, i: int)
    requires
        sum_first_fits(values, center),
        0 <= i <= values.len(),
    ensures
        sum_first_fits(values.take(i), center),
    decreases values.len(),
{
    if i == values.len() {
        assert(values.take(i) =~= values);
    } else {
        assert(values.take(i) =~= values.drop_last().take(i));
        lemma_sum_first_fits_prefix(values.drop_last(), center, i);
    }
}

/// A subtract-first Laplacian that stays within the range does so up to any
/// place.
pub proof fn lemma_sub_first_fits_prefix<T: Numeric>(values: Seq<T>, center: T, i: int)
    requires
        sub_first_fits(values, center),
        0 <= i <= values.len(),
    ensures
        sub_first_fits(values.take(i), center),
    decreases values.len(),
{
    if i == values.len() {
        assert(values.take(i) =~= values);
    } else {
        assert(values.take(i) =~= values.drop_last().take(i));
        lemma_sub_first_fits_prefix(values.drop_last(), center, i);
    }
}

/// A copy of `cells`.
pub(crate) fn copy_cells<T: Copy>(cells: &Vec<T>) -> (copy: Vec<T>)
    ensures
        copy@ == cells@,
{
    let mut copy: Vec<T> = Vec::new();
    let mut i: usize = 0;
    while i < cells.len()
        invariant
            i <= cells.len(),
            copy@ =~= cells@.take(i as int),
        decreases cells.len() - i,
    {
        copy.push(cells[i]);
        i += 1;
    }
    copy
}

impl<T: Copy> Clone for MatrixImage<T> {
    fn clone(&self) -> (copy: Self)
        ensures
            copy@ == self@,
    {
        proof {
            use_type_invariant(self);
        }
        MatrixImage { height: self.height, width: self.width, data: copy_cells(&self.data) }
    }
}

impl<T> Default for MatrixImage<T> {
    /// The grid of no cells.
    fn default() -> (grid: Self)
        ensures
            grid@ == (GridView::<T> { height: 0, width: 0, cells: Seq::empty() }),
    {
        MatrixImage { height: 0, width: 0, data: Vec::new() }
    }
}

impl<T: Numeric> PartialEqSpecImpl for MatrixImage<T> {
    open spec fn obeys_eq_spec() -> bool {
        true
    }

    /// Grids are equal where their sides and their cells are.
    open spec fn eq_spec(&self, other: &Self) -> bool {
        self@ == other@
    }
}

impl<T: Numeric> PartialEq for MatrixImage<T> {
    fn eq(&self, other: &Self) -> (equal: bool) {
        if self.height != other.height || self.width != other.width || self.data.len()
            != other.data.len() {
            return false;
        }
        let mut i: usize = 0;
        while i < self.data.len()
            invariant
                i <= self.data.len(),
                self.data.len() == other.data.len(),
                forall|k: int| 0 <= k < i ==> self.data@[k] == other.data@[k],
            decreases self.data.len() - i,
        {
            proof {
                T::lemma_rank_injective(self.data@[i as int], other.data@[i as int]);
            }
            if !(self.data[i].at_least(other.data[i]) && other.data[i].at_least(self.data[i])) {
                return false;
            }
            i += 1;
        }
        assert(self.data@ =~= other.data@);
        true
    }
}

impl<T: Copy> Matrix<T> for MatrixImage<T> {
    type Data = Vec<T>;

    open spec fn grid(&self) -> GridView<T> {
        self@
    }

    fn get_data(&self) -> (data: Vec<T>)
        ensures
            data@ == self@.cells,
    {
        copy_cells(&self.data)
    }

    fn get_width(&self) -> (width: usize) {
        self.width
    }

    fn get_height(&self) -> (height: usize) {
        self.height
    }

    fn get_absolute_point_data(&self, absolute_point: usize) -> (value: T) {
        self.data[absolute_point]
    }

    fn get_point_value(&self, point: (u32, u32)) -> (r: Result<T, MatrixError>) {
        proof {
            use_type_invariant(self);
            if self@.contains(point) {
                lemma_place_of_point(self@, point);
            }
        }
        match self.into_absolute_point(point) {
            Ok(absolute_point) => Ok(self.data[absolute_point]),
            Err(e) => Err(e),
        }
    }

    fn edit_point(&mut self, point: (u32, u32), value: T) -> (r: Result<(), MatrixError>) {
        proof {
            use_type_invariant(&*self);
            if self@.contains(point) {
                lemma_place_of_point(self@, point);
            }
        }
        match self.into_absolute_point(point) {
            Ok(absolute_point) => {
                self.data[absolute_point] = value;
                Ok(())
            },
            Err(e) => Err(e),
        }
    }
}

impl<T: Numeric> MatrixImage<T> {
    /// Enumerates the neighbourhood of `point`: every coordinate is reduced
    /// into the grid by true modulo, so the sequence never leaves the grid,
    /// and it is the same for the same arguments. No point occurs twice
    /// unless the neighbourhood wraps onto itself.
    pub fn get_lattice_neighborhood(
        &self,
        point: (u32, u32),
        distance: usize,
        hood_type: Neighborhood,
    ) -> (points: Vec<(u32, u32)>)
        requires
            self@.addressable(),
            point_count(distance as int, hood_type) <= usize::MAX,
        ensures
            points@ == neighborhood_points(
                point,
                distance as int,
                hood_type,
                self@.width as int,
                self@.height as int,
            ),
            all_within(points@, self@.width as int, self@.height as int),
            points@.no_duplicates() <==> fits_once(
                distance as int,
                hood_type,
                self@.width as int,
                self@.height as int,
            ),
    {
        proof {
            lemma_neighborhood_within(
                point,
                distance as int,
                hood_type,
                self.width as int,
                self.height as int,
            );
            lemma_no_duplicates_exactly_when_fits(
                point,
                distance as int,
                hood_type,
                self.width as int,
                self.height as int,
            );
        }
        lattice_neighborhood(point, distance, hood_type, self.width, self.height)
    }

    /// The sum of the cells of a neighbourhood, accumulated in the order of
    /// its points, and the number of points summed. No sum on the way may
    /// leave the range of the representation.
    pub fn hood_sum(&self, point: (u32, u32), size: usize, hood_type: Neighborhood) -> (r: Result<
        (T, usize),
        MatrixError,
    >)
        requires
            self@.addressable(),
            point_count(size as int, hood_type) <= usize::MAX,
            total_fits(
                self@.values_at(
                    neighborhood_points(
                        point,
                        size as int,
                        hood_type,
                        self@.width as int,
                        self@.height as int,
                    ),
                ),
            ),
        ensures
            r == Ok::<(T, usize), MatrixError>(
                (
                    total(
                        self@.values_at(
                            neighborhood_points(
                                point,
                                size as int,
                                hood_type,
                                self@.width as int,
                                self@.height as int,
                            ),
                        ),
                    ),
                    neighborhood_points(
                        point,
                        size as int,
                        hood_type,
                        self@.width as int,
                        self@.height as int,
                    ).len() as usize,
                ),
            ),
    {
        let neighborhood = self.get_lattice_neighborhood(point, size, hood_type);
        let ghost values = self@.values_at(neighborhood@);
        let mut sum: T = T::neutral();
        let mut i: usize = 0;
        while i < neighborhood.len()
            invariant
                i <= neighborhood.len(),
                all_within(neighborhood@, self@.width as int, self@.height as int),
                values == self@.values_at(neighborhood@),
                total_fits(values),
                sum == total(values.take(i as int)),
            decreases neighborhood.len() - i,
        {
            let hood_point: (u32, u32) = neighborhood[i];
            assert(self@.contains(neighborhood@[i as int]));
            let value: T = match self.get_point_value(hood_point) {
                Ok(value) => value,
                Err(e) => {
                    return Err(e);
                },
            };
            proof {
                assert(values.take(i + 1).drop_last() =~= values.take(i as int));
                lemma_total_fits_prefix(values, i + 1);
            }
            sum = sum.plus(value);
            i += 1;
        }
        proof {
            assert(values.take(i as int) =~= values);
            T::lemma_neutral(sum);
        }
        Ok((sum.minus(T::neutral()), neighborhood.len()))
    }

    /// The discrete Laplacian at `point`: the default ordering, which adds
    /// before it takes the centre away. No sum or difference on the way may
    /// leave the range of the representation.
    pub fn laplace_operator(&self, point: (u32, u32), size: usize, hood_type: Neighborhood) -> (r:
        Result<T, MatrixError>)
        requires
            self@.width <= SIDE_LIMIT,
            self@.height <= SIDE_LIMIT,
            point_count(size as int, hood_type) <= usize::MAX,
            self@.contains(point) ==> sum_first_fits(
                self@.values_at(
                    neighborhood_points(
                        point,
                        size as int,
                        hood_type,
                        self@.width as int,
                        self@.height as int,
                    ),
                ),
                self@.cells[self@.index_of(point)],
            ),
        ensures
            r == (if self@.contains(point) {
                Ok::<T, MatrixError>(
                    sum_first_total(
                        self@.values_at(
                            neighborhood_points(
                                point,
                                size as int,
                                hood_type,
                                self@.width as int,
                                self@.height as int,
                            ),
                        ),
                        self@.cells[self@.index_of(point)],
                    ),
                )
            } else {
                Err::<T, MatrixError>(MatrixError::Overflow)
            }),
    {
        self.sum_first_laplace_operator(point, size, hood_type)
    }

    /// The discrete Laplacian at `point` that folds each neighbour in as
    /// `running = (running + neighbour) - centre`. No sum or difference on
    /// the way may leave the range of the representation.
    pub fn sum_first_laplace_operator(
        &self,
        point: (u32, u32),
        size: usize,
        hood_type: Neighborhood,
    ) -> (r: Result<T, MatrixError>)
        requires
            self@.width <= SIDE_LIMIT,
            self@.height <= SIDE_LIMIT,
            point_count(size as int, hood_type) <= usize::MAX,
            self@.contains(point) ==> sum_first_fits(
                self@.values_at(
                    neighborhood_points(
                        point,
                        size as int,
                        hood_type,
                        self@.width as int,
                        self@.height as int,
                    ),
                ),
                self@.cells[self@.index_of(point)],
            ),
        ensures
            r == (if self@.contains(point) {
                Ok::<T, MatrixError>(
                    sum_first_total(
                        self@.values_at(
                            neighborhood_points(
                                point,
                                size as int,
                                hood_type,
                                self@.width as int,
                                self@.height as int,
                            ),
                        ),
                        self@.cells[self@.index_of(point)],
                    ),
                )
            } else {
                Err::<T, MatrixError>(MatrixError::Overflow)
            }),
    {
        let point_value: T = match self.get_point_value(point) {
            Ok(value) => value,
            Err(e) => {
                return Err(e);
            },
        };
        let neighborhood = self.get_lattice_neighborhood(point, size, hood_type);
        let ghost values = self@.values_at(neighborhood@);
        let mut sum: T = T::neutral();
        let mut i: usize = 0;
        while i < neighborhood.len()
            invariant
                i <= neighborhood.len(),
                all_within(neighborhood@, self@.width as int, self@.height as int),
                values == self@.values_at(neighborhood@),
                sum_first_fits(values, point_value),
                sum == sum_first_total(values.take(i as int), point_value),
            decreases neighborhood.len() - i,
        {
            let hood_point: (u32, u32) = neighborhood[i];
            assert(self@.contains(neighborhood@[i as int]));
            let hood_point_value: T = match self.get_point_value(hood_point) {
                Ok(value) => value,
                Err(e) => {
                    return Err(e);
                },
            };
            proof {
                assert(values.take(i + 1).drop_last() =~= values.take(i as int));
                lemma_sum_first_fits_prefix(values, point_value, i + 1);
            }
            sum = sum.plus(hood_point_value).minus(point_value);
            i += 1;
        }
        proof {
            assert(values.take(i as int) =~= values);
            T::lemma_neutral(sum);
        }
        Ok(sum.minus(T::neutral()))
    }

    /// The discrete Laplacian at `point` that folds each neighbour in as
    /// `running = running + (neighbour - centre)`. No difference or sum on
    /// the way may leave the range of the representation: on unsigned cells
    /// no neighbour may be below the centre.
    pub fn sub_first_laplace_operator(
        &self,
        point: (u32, u32),
        size: usize,
        hood_type: Neighborhood,
    ) -> (r: Result<T, MatrixError>)
        requires
            self@.width <= SIDE_LIMIT,
            self@.height <= SIDE_LIMIT,
            point_count(size as int, hood_type) <= usize::MAX,
            self@.contains(point) ==> sub_first_fits(
                self@.values_at(
                    neighborhood_points(
                        point,
                        size as int,
                        hood_type,
                        self@.width as int,
                        self@.height as int,
                    ),
                ),
                self@.cells[self@.index_of(point)],
            ),
        ensures
            r == (if self@.contains(point) {
                Ok::<T, MatrixError>(
                    sub_first_total(
                        self@.values_at(
                            neighborhood_points(
                                point,
                                size as int,
                                hood_type,
                                self@.width as int,
                                self@.height as int,
                            ),
                        ),
                        self@.cells[self@.index_of(point)],
                    ),
                )
            } else {
                Err::<T, MatrixError>(MatrixError::Overflow)
            }),
    {
        let point_value: T = match self.get_point_value(point) {
            Ok(value) => value,
            Err(e) => {
                return Err(e);
            },
        };
        let neighborhood = self.get_lattice_neighborhood(point, size, hood_type);
        let ghost values = self@.values_at(neighborhood@);
        let mut sum: T = T::neutral();
        let mut i: usize = 0;
        while i < neighborhood.len()
            invariant
                i <= neighborhood.len(),
                all_within(neighborhood@, self@.width as int, self@.height as int),
                values == self@.values_at(neighborhood@),
                sub_first_fits(values, point_value),
                sum == sub_first_total(values.take(i as int), point_value),
            decreases neighborhood.len() - i,
        {
            let hood_point: (u32, u32) = neighborhood[i];
            assert(self@.contains(neighborhood@[i as int]));
            let hood_point_value: T = match self.get_point_value(hood_point) {
                Ok(value) => value,
                Err(e) => {
                    return Err(e);
                },
            };
            proof {
                assert(values.take(i + 1).drop_last() =~= values.take(i as int));
                lemma_sub_first_fits_prefix(values, point_value, i + 1);
            }
            sum = sum.plus(hood_point_value.minus(point_value));
            i += 1;
        }
        proof {
            assert(values.take(i as int) =~= values);
            T::lemma_neutral(sum);
        }
        Ok(sum.minus(T::neutral()))
    }
}

impl<T: Numeric> Optimal<T> for MatrixImage<T> {
    open spec fn searchable(&self, hood_size: usize, hood_type: Neighborhood) -> bool {
        self@.addressable() && point_count(hood_size as int, hood_type) <= usize::MAX
    }

    open spec fn peers(
        &self,
        self_point: (u32, u32),
        hood_size: usize,
        hood_type: Neighborhood,
    ) -> Seq<(u32, u32)> {
        neighborhood_points(
            self_point,
            hood_size as int,
            hood_type,
            self@.width as int,
            self@.height as int,
        )
    }

    fn optimal_peer<F: Fn(&Self, (u32, u32), (u32, u32)) -> T>(
        &self,
        self_point: (u32, u32),
        hood_size: usize,
        hood_type: Neighborhood,
        objective: F,
    ) -> (best: Option<((u32, u32), T)>) {
        let hood = self.get_lattice_neighborhood(self_point, hood_size, hood_type);
        let ghost peers = self.peers(self_point, hood_size, hood_type);
        assert forall|i: int| 0 <= i < hood.len() implies call_requires(
            objective,
            (self, self_point, hood@[i]),
        ) by {
            assert(hood@[i] == peers[i]);
        }
        best_peer(self, self_point, hood, objective)
    }

    fn optimal_peer_internal_values<V, F: Fn(&Self, (u32, u32), (u32, u32)) -> (T, V)>(
        &self,
        self_point: (u32, u32),
        hood_size: usize,
        hood_type: Neighborhood,
        objective: F,
    ) -> (best: Option<((u32, u32), (T, V))>) {
        let hood = self.get_lattice_neighborhood(self_point, hood_size, hood_type);
        let ghost peers = self.peers(self_point, hood_size, hood_type);
        assert forall|i: int| 0 <= i < hood.len() implies call_requires(
            objective,
            (self, self_point, hood@[i]),
        ) by {
            assert(hood@[i] == peers[i]);
        }
        best_peer_internal_values(self, self_point, hood, objective)
    }

    fn optimal_peer_with_coefficients<U: Copy, F: Fn(&Self, (u32, u32), (u32, u32), U) -> T>(
        &self,
        self_point: (u32, u32),
        hood_size: usize,
        hood_type: Neighborhood,
        objective: F,
        c: U,
    ) -> (best: Option<((u32, u32), T)>) {
        let hood = self.get_lattice_neighborhood(self_point, hood_size, hood_type);
        let ghost peers = self.peers(self_point, hood_size, hood_type);
        assert forall|i: int| 0 <= i < hood.len() implies call_requires(
            objective,
            (self, self_point, hood@[i], c),
        ) by {
            assert(hood@[i] == peers[i]);
        }
        best_peer_with_coefficients(self, self_point, hood, objective, c)
    }

    fn optimal_peer_internal_values_with_coefficients<U, V, F>(
        &self,
        self_point: (u32, u32),
        hood_size: usize,
        hood_type: Neighborhood,
        objective: F,
        c: &mut U,
    ) -> (best: Option<((u32, u32), (T, V))>) where
        F: for <'a>Fn(&'a Self, (u32, u32), (u32, u32), &'a mut U) -> (T, V),
     {
        let hood = self.get_lattice_neighborhood(self_point, hood_size, hood_type);
        assert(hood@ == self.peers(self_point, hood_size, hood_type));
        best_peer_internal_values_with_coefficients(self, self_point, hood, objective, c)
    }
}

/// The cells of `left`, each multiplied by the cell of `right` at its place.
pub open spec fn cell_products<T: Numeric>(left: Seq<T>, right: Seq<T>) -> Seq<T> {
    Seq::new(left.len(), |i: int| left[i].times_spec(right[i]))
}

/// The product of two grids is stated by the contract of `mul` itself, over
/// the views of the grids.
impl<T: Numeric> vstd::std_specs::ops::MulSpecImpl for MatrixImage<T> {
    open spec fn obeys_mul_spec() -> bool {
        false
    }

    /// The other grid holds a cell for each cell of this one, and every
    /// product can be represented.
    open spec fn mul_req(self, rhs: Self) -> bool {
        &&& self@.cells.len() <= rhs@.cells.len()
        &&& forall|i: int|
            0 <= i < self@.cells.len() ==> (#[trigger] self@.cells[i]).times_fits(rhs@.cells[i])
    }

    open spec fn mul_spec(self, rhs: Self) -> Self {
        self
    }
}

impl<T: Numeric> core::ops::Mul for MatrixImage<T> {
    type Output = Self;

    /// The grid of the sides of `self` whose every cell is the product of
    /// the cells of the two grids at its place.
    fn mul(self, rhs: Self) -> (product: Self)
        ensures
            product@ == (GridView { cells: cell_products(self@.cells, rhs@.cells), ..self@ }),
    {
        proof {
            use_type_invariant(&self);
        }
        let mut data: Vec<T> = Vec::new();
        let mut i: usize = 0;
        while i < self.data.len()
            invariant
                i <= self.data.len(),
                self.data.len() <= rhs.data.len(),
                forall|k: int|
                    0 <= k < self.data.len() ==> (#[trigger] self.data@[k]).times_fits(rhs.data@[k]),
                data@ =~= cell_products(self.data@, rhs.data@).take(i as int),
            decreases self.data.len() - i,
        {
            data.push(self.data[i].times(rhs.data[i]));
            i += 1;
        }
        assert(data@ =~= cell_products(self.data@, rhs.data@));
        MatrixImage { height: self.height, width: self.width, data }
    }
}

/// The place of the generator in a template that has none.
#[derive(Clone, Copy, Debug, Default)]
pub struct NoGenerator;

/// The template a grid is built from: its sides, the value that fills its
/// cells, and the generator, if there is one, that overwrites them.
///
/// The order in which the template was configured does not matter: what
/// counts is what it holds when the grid is built.
pub struct MatrixImageBuilder<T, G = NoGenerator> {
    initial_value: T,
    height: usize,
    width: usize,
    generator: G,
}

impl<T, G> MatrixImageBuilder<T, G> {
    /// The cells of the template can be counted.
    #[verifier::type_invariant]
    pub closed spec fn countable(self) -> bool {
        self.height * self.width <= usize::MAX
    }

    /// The value that fills the cells.
    pub closed spec fn initial(self) -> T {
        self.initial_value
    }

    /// The number of rows.
    pub closed spec fn rows(self) -> nat {
        self.height as nat
    }

    /// The number of columns.
    pub closed spec fn columns(self) -> nat {
        self.width as nat
    }

    /// The generator that overwrites the cells.
    pub closed spec fn source(self) -> G {
        self.generator
    }
}

impl<T: Numeric> Default for MatrixImageBuilder<T, NoGenerator> {
    /// A template of no cells whose fill value is the neutral value.
    fn default() -> (builder: Self)
        ensures
            builder.initial() == T::neutral_spec(),
            builder.rows() == 0,
            builder.columns() == 0,
    {
        MatrixImageBuilder { initial_value: T::neutral(), height: 0, width: 0, generator: NoGenerator }
    }
}

impl<T: Copy + Max> MatrixImageBuilder<T, NoGenerator> {
    /// A template of no cells whose fill value is the largest value of the
    /// representation.
    pub fn init() -> (builder: Self)
        ensures
            builder.initial() == T::maximum_spec(),
            builder.rows() == 0,
            builder.columns() == 0,
    {
        MatrixImageBuilder {
            initial_value: T::maximum(),
            height: 0,
            width: 0,
            generator: NoGenerator,
        }
    }

    /// A grid of its own, of the sides of the template, every cell set to
    /// the fill value.
    pub fn build(&self) -> (grid: MatrixImage<T>)
        ensures
            grid@ == (GridView::<T> {
                height: self.rows(),
                width: self.columns(),
                cells: Seq::new(self.rows() * self.columns(), |i: int| self.initial()),
            }),
    {
        proof {
            use_type_invariant(self);
        }
        let size: usize = self.height * self.width;
        let mut data: Vec<T> = Vec::new();
        let mut i: usize = 0;
        while i < size
            invariant
                i <= size,
                data@ =~= Seq::new(i as nat, |k: int| self.initial_value),
            decreases size - i,
        {
            data.push(self.initial_value);
            i += 1;
        }
        MatrixImage { height: self.height, width: self.width, data }
    }
}

impl<T: Copy + Max, G> MatrixImageBuilder<T, G> {
    /// Gives the template `height` rows and `width` columns.
    pub fn with_height_and_width(self, height: usize, width: usize) -> (builder: Self)
        requires
            height * width <= usize::MAX,
        ensures
            builder.initial() == self.initial(),
            builder.rows() == height,
            builder.columns() == width,
            builder.source() == self.source(),
    {
        MatrixImageBuilder {
            initial_value: self.initial_value,
            height,
            width,
            generator: self.generator,
        }
    }

    /// Sets the value that fills the cells.
    pub fn with_initial_value(self, value: T) -> (builder: Self)
        ensures
            builder.initial() == value,
            builder.rows() == self.rows(),
            builder.columns() == self.columns(),
            builder.source() == self.source(),
    {
        proof {
            use_type_invariant(&self);
        }
        MatrixImageBuilder {
            initial_value: value,
            height: self.height,
            width: self.width,
            generator: self.generator,
        }
    }

    /// Gives the template a generator: every cell of a grid built from it
    /// is what one call of `generator` returns.
    pub fn with_generator<H: Fn() -> T>(self, generator: H) -> (builder: MatrixImageBuilder<T, H>)
        ensures
            builder.initial() == self.initial(),
            builder.rows() == self.rows(),
            builder.columns() == self.columns(),
            builder.source() == generator,
    {
        proof {
            use_type_invariant(&self);
        }
        MatrixImageBuilder {
            initial_value: self.initial_value,
            height: self.height,
            width: self.width,
            generator,
        }
    }
}

impl<T: Copy + Max, G: Fn() -> T> MatrixImageBuilder<T, G> {
    /// A grid of its own, of the sides of the template, every cell
    /// overwritten, in row-major order, with what one call of the generator
    /// returns.
    pub fn build(&self) -> (grid: MatrixImage<T>)
        requires
            call_requires(self.source(), ()),
        ensures
            grid@.height == self.rows(),
            grid@.width == self.columns(),
            grid@.cells.len() == self.rows() * self.columns(),
            forall|i: int|
                0 <= i < grid@.cells.len() ==> call_ensures(
                    self.source(),
                    (),
                    #[trigger] grid@.cells[i],
                ),
    {
        proof {
            use_type_invariant(self);
        }
        let size: usize = self.height * self.width;
        let mut data: Vec<T> = Vec::new();
        let mut i: usize = 0;
        while i < size
            invariant
                i <= size,
                data.len() == i,
                call_requires(self.generator, ()),
                forall|k: int| 0 <= k < i ==> call_ensures(self.generator, (), #[trigger] data@[k]),
            decreases size - i,
        {
            let value: T = (self.generator)();
            data.push(value);
            i += 1;
        }
        MatrixImage { height: self.height, width: self.width, data }
    }
}

} // verus!
