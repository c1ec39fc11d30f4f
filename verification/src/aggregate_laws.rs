//! What the aggregates are in plain arithmetic: within the range of the
//! representation a neighbourhood sum is the sum of the cells, and the two
//! discrete Laplacians are both the sum of the differences from the centre.

use vstd::prelude::*;
use crate::matrix_image::{
    sub_first_fits,
    sub_first_total,
    sum_first_fits,
    sum_first_total,
    total,
    total_fits,
};
use crate::traits::numeric::Numeric;

verus! {

/// The sum of the ranks of `values`.
pub open spec fn rank_sum<T: Numeric>(values: Seq<T>) -> int
    decreases values.len(),
{
    if values.len() == 0 {
        0
    } else {
        rank_sum(values.drop_last()) + values.last().rank()
    }
}

/// The sum, over `values`, of the rank of the value less the rank of the
/// centre.
pub open spec fn rank_laplacian<T: Numeric>(values: Seq<T>, center: T) -> int
    decreases values.len(),
{
    if values.len() == 0 {
        0
    } else {
        rank_laplacian(values.drop_last(), center) + (values.last().rank() - center.rank())
    }
}

/// An accumulation that stays within the range is the sum of its values.
pub proof fn lemma_total_is_the_sum<T: Numeric>(values: Seq<T>)
    requires
        total_fits(values),
    ensures
        total(values).rank() == rank_sum(values),
    decreases values.len(),
{
    T::lemma_ranks(T::neutral_spec(), T::neutral_spec());
    if values.len() > 0 {
        lemma_total_is_the_sum(values.drop_last());
        T::lemma_ranks(total(values.drop_last()), values.last());
    }
}

/// An add-first Laplacian that stays within the range is the sum of the
/// differences from the centre.
pub proof fn lemma_sum_first_is_the_laplacian<T: Numeric>(values: Seq<T>, center: T)
    requires
        sum_first_fits(values, center),
    ensures
        sum_first_total(values, center).rank() == rank_laplacian(values, center),
    decreases values.len(),
{
    T::lemma_ranks(T::neutral_spec(), T::neutral_spec());
    if values.len() > 0 {
        let before = sum_first_total(values.drop_last(), center);
        lemma_sum_first_is_the_laplacian(values.drop_last(), center);
        T::lemma_ranks(before, values.last());
        T::lemma_ranks(before.plus_spec(values.last()), center);
    }
}

/// A subtract-first Laplacian that stays within the range is the sum of the
/// differences from the centre.
pub proof fn lemma_sub_first_is_the_laplacian<T: Numeric>(values: Seq<T>, center: T)
    requires
        sub_first_fits(values, center),
    ensures
        sub_first_total(values, center).rank() == rank_laplacian(values, center),
    decreases values.len(),
{
    T::lemma_ranks(T::neutral_spec(), T::neutral_spec());
    if values.len() > 0 {
        let before = sub_first_total(values.drop_last(), center);
        lemma_sub_first_is_the_laplacian(values.drop_last(), center);
        T::lemma_ranks(values.last(), center);
        T::lemma_ranks(before, values.last().minus_spec(center));
    }
}

/// Where both orderings stay within the range, the two discrete Laplacians
/// are the same value.
pub proof fn lemma_laplacians_agree<T: Numeric>(values: Seq<T>, center: T)
    requires
        sum_first_fits(values, center),
        sub_first_fits(values, center),
    ensures
        sum_first_total(values, center) == sub_first_total(values, center),
{
    lemma_sum_first_is_the_laplacian(values, center);
    lemma_sub_first_is_the_laplacian(values, center);
    T::lemma_rank_injective(sum_first_total(values, center), sub_first_total(values, center));
}

/// On unsigned 32-bit cells the subtract-first Laplacian stays within the
/// range only where no value is below the centre.
pub proof fn lemma_sub_first_needs_values_above_the_center(values: Seq<u32>, center: u32, i: int)
    requires
        sub_first_fits(values, center),
        0 <= i < values.len(),
    ensures
        values[i] >= center,
    decreases values.len(),
{
    if i < values.len() - 1 {
        lemma_sub_first_needs_values_above_the_center(values.drop_last(), center, i);
    }
}

} // verus!
