//! The neighbourhoods of a point on the torus.
//!
//! A neighbourhood is an ordered sequence of points, each reduced into the
//! grid by true modulo, so that the lattice has no edge.

use vstd::prelude::*;
use vstd::arithmetic::div_mod::{
    lemma_fundamental_div_mod,
    lemma_fundamental_div_mod_converse,
    lemma_mod_bound,
    lemma_mod_equivalence,
    lemma_mod_multiples_vanish,
    lemma_small_mod,
};
use crate::Neighborhood;

verus! {

/// The widest grid side whose every column (or row) has a coordinate.
pub const SIDE_LIMIT: u64 = 0x1_0000_0000;

/// `v` reduced into `[0, m)` by true modulo.
pub open spec fn wrap(v: int, m: int) -> u32 {
    (v % m) as u32
}

/// The number of points the Moore block of radius `d` holds.
pub open spec fn moore_count(d: int) -> int {
    (2 * d + 1) * (2 * d + 1)
}

/// The number of points the Von Neumann diamond of radius `d` holds.
pub open spec fn von_neumann_count(d: int) -> int {
    d * d + (d + 1) * (d + 1)
}

/// The number of points a full neighbourhood of radius `d` holds.
pub open spec fn point_count(d: int, shape: Neighborhood) -> int {
    match shape {
        Neighborhood::VonNeumann => von_neumann_count(d),
        Neighborhood::Moore => moore_count(d),
    }
}

/// The `k`-th point of the Moore block: columns run fastest.
pub open spec fn moore_point(cx: int, cy: int, d: int, w: int, h: int, k: int) -> (u32, u32) {
    (wrap(cx - d + k % (2 * d + 1), w), wrap(cy - d + k / (2 * d + 1), h))
}

/// The Moore block of radius `d` around `(cx, cy)` on a `w` by `h` torus.
pub open spec fn moore_points(cx: int, cy: int, d: int, w: int, h: int) -> Seq<(u32, u32)> {
    Seq::new(moore_count(d) as nat, |k: int| moore_point(cx, cy, d, w, h, k))
}

/// The points one column of one row pair of the diamond contributes: the
/// upper and the lower point, or one point where both rows coincide.
pub open spec fn von_neumann_pair(x: u32, up: u32, down: u32) -> Seq<(u32, u32)> {
    if up != down {
        seq![(x, up), (x, down)]
    } else {
        seq![(x, up)]
    }
}

/// The first `count` columns of the row pair at row offset `yd`.
pub open spec fn von_neumann_row(
    cx: int,
    cy: int,
    d: int,
    w: int,
    h: int,
    yd: int,
    count: nat,
) -> Seq<(u32, u32)>
    decreases count,
{
    if count == 0 {
        Seq::empty()
    } else {
        von_neumann_row(cx, cy, d, w, h, yd, (count - 1) as nat) + von_neumann_pair(
            wrap(cx - yd + (count - 1), w),
            wrap(cy - d + yd, h),
            wrap(cy + d - yd, h),
        )
    }
}

/// The first `rows` row pairs of the diamond, each swept from left to right.
pub open spec fn von_neumann_rows(cx: int, cy: int, d: int, w: int, h: int, rows: nat) -> Seq<
    (u32, u32),
>
    decreases rows,
{
    if rows == 0 {
        Seq::empty()
    } else {
        von_neumann_rows(cx, cy, d, w, h, (rows - 1) as nat) + von_neumann_row(
            cx,
            cy,
            d,
            w,
            h,
            rows - 1,
            (2 * (rows - 1) + 1) as nat,
        )
    }
}

/// The Von Neumann diamond of radius `d` around `(cx, cy)` on a `w` by `h` torus.
pub open spec fn von_neumann_points(cx: int, cy: int, d: int, w: int, h: int) -> Seq<(u32, u32)> {
    von_neumann_rows(cx, cy, d, w, h, (d + 1) as nat)
}

/// The neighbourhood of `point` with radius `d` and the given shape.
pub open spec fn neighborhood_points(
    point: (u32, u32),
    d: int,
    shape: Neighborhood,
    w: int,
    h: int,
) -> Seq<(u32, u32)> {
    match shape {
        Neighborhood::VonNeumann => von_neumann_points(point.0 as int, point.1 as int, d, w, h),
        Neighborhood::Moore => moore_points(point.0 as int, point.1 as int, d, w, h),
    }
}

/// Every point of `points` lies on the `w` by `h` grid.
pub open spec fn all_within(points: Seq<(u32, u32)>, w: int, h: int) -> bool {
    forall|i: int| 0 <= i < points.len() ==> (#[trigger] points[i]).0 < w && points[i].1 < h
}

/// The radii at which a neighbourhood does not wrap onto itself.
pub open spec fn fits_once(d: int, shape: Neighborhood, w: int, h: int) -> bool {
    match shape {
        Neighborhood::VonNeumann => d == 0 || (2 * d + 1 <= w && 2 * d <= h),
        Neighborhood::Moore => 2 * d + 1 <= w && 2 * d + 1 <= h,
    }
}

/// A wrapped coordinate lies on the grid.
pub proof fn lemma_wrap_within(v: int, m: int)
    requires
        0 < m <= SIDE_LIMIT,
    ensures
        wrap(v, m) == v % m,
        0 <= wrap(v, m) < m,
{
    lemma_mod_bound(v, m);
}

/// Two offsets less than one side apart wrap to different coordinates.
pub proof fn lemma_wrap_distinct(a: int, b: int, m: int)
    requires
        0 < m <= SIDE_LIMIT,
        a != b,
        -m < a - b < m,
    ensures
        wrap(a, m) != wrap(b, m),
{
    lemma_wrap_within(a, m);
    lemma_wrap_within(b, m);
    lemma_mod_equivalence(a, b, m);
    if a - b > 0 {
        lemma_small_mod((a - b) as nat, m as nat);
    } else {
        lemma_mod_multiples_vanish(1, a - b, m);
        lemma_small_mod((m + (a - b)) as nat, m as nat);
    }
}

/// The coordinate `c - back + forth` reduced into `[0, m)`.
pub fn wrapped_offset(c: u32, back: usize, forth: usize, m: usize) -> (r: u32)
    requires
        0 < m <= SIDE_LIMIT,
    ensures
        r == wrap(c - back + forth, m as int),
        r < m,
{
    let side: u64 = m as u64;
    let c_part: u64 = (c as u64) % side;
    let back_part: u64 = (back as u64) % side;
    let forth_part: u64 = (forth as u64) % side;
    let total: u64 = c_part + (side - back_part) + forth_part;
    let r: u64 = total % side;
    proof {
        let mi = m as int;
        let q = (c as int) / mi - (back as int) / mi + (forth as int) / mi - 1;
        lemma_fundamental_div_mod(c as int, mi);
        lemma_fundamental_div_mod(back as int, mi);
        lemma_fundamental_div_mod(forth as int, mi);
        assert(mi * q == mi * ((c as int) / mi) - mi * ((back as int) / mi) + mi * ((forth as int)
            / mi) - mi) by (nonlinear_arith)
            requires
                q == (c as int) / mi - (back as int) / mi + (forth as int) / mi - 1,
        ;
        assert(c - back + forth == mi * q + total);
        lemma_mod_multiples_vanish(q, total as int, mi);
        lemma_wrap_within(c - back + forth, mi);
    }
    r as u32
}

/// Enumerates the Moore block of radius `distance` around `point`, row by
/// row and each row from left to right.
pub fn moore_neighborhood(point: (u32, u32), distance: usize, width: usize, height: usize) -> (points:
    Vec<(u32, u32)>)
    requires
        0 < width <= SIDE_LIMIT,
        0 < height <= SIDE_LIMIT,
        moore_count(distance as int) <= usize::MAX,
    ensures
        points@ == moore_points(
            point.0 as int,
            point.1 as int,
            distance as int,
            width as int,
            height as int,
        ),
{
    assert(2 * distance + 1 <= moore_count(distance as int)) by (nonlinear_arith)
        requires
            moore_count(distance as int) == (2 * distance + 1) * (2 * distance + 1),
    ;
    let side: usize = 2 * distance + 1;
    let ghost cx = point.0 as int;
    let ghost cy = point.1 as int;
    let ghost d = distance as int;
    let ghost w = width as int;
    let ghost h = height as int;
    let mut points: Vec<(u32, u32)> = Vec::new();
    let mut y_diff: usize = 0;
    while y_diff < side
        invariant
            0 < width <= SIDE_LIMIT,
            0 < height <= SIDE_LIMIT,
            side == 2 * distance + 1,
            cx == point.0,
            cy == point.1,
            d == distance,
            w == width,
            h == height,
            y_diff <= side,
            points@ =~= Seq::new((y_diff * side) as nat, |k: int| moore_point(cx, cy, d, w, h, k)),
        decreases side - y_diff,
    {
        let y: u32 = wrapped_offset(point.1, distance, y_diff, height);
        let mut x_diff: usize = 0;
        while x_diff < side
            invariant
                0 < width <= SIDE_LIMIT,
                side == 2 * distance + 1,
                cx == point.0,
                cy == point.1,
                d == distance,
                w == width,
                h == height,
                y_diff < side,
                x_diff <= side,
                y == wrap(cy - d + y_diff, h),
                points@ =~= Seq::new(
                    (y_diff * side + x_diff) as nat,
                    |k: int| moore_point(cx, cy, d, w, h, k),
                ),
            decreases side - x_diff,
        {
            let x: u32 = wrapped_offset(point.0, distance, x_diff, width);
            proof {
                lemma_fundamental_div_mod_converse(
                    y_diff * side + x_diff,
                    side as int,
                    y_diff as int,
                    x_diff as int,
                );
            }
            points.push((x, y));
            x_diff += 1;
        }
        assert(y_diff * side + side == (y_diff + 1) * side) by (nonlinear_arith);
        y_diff += 1;
    }
    assert(side * side == moore_count(d));
    points
}

/// Enumerates the Von Neumann diamond of radius `distance` around `point`:
/// for each row offset from 0 to the radius, a span as wide as the offset is
/// deep, on the two rows mirrored about the centre.
pub fn von_neumann_neighborhood(
    point: (u32, u32),
    distance: usize,
    width: usize,
    height: usize,
) -> (points: Vec<(u32, u32)>)
    requires
        0 < width <= SIDE_LIMIT,
        0 < height <= SIDE_LIMIT,
        von_neumann_count(distance as int) <= usize::MAX,
    ensures
        points@ == von_neumann_points(
            point.0 as int,
            point.1 as int,
            distance as int,
            width as int,
            height as int,
        ),
{
    assert(2 * distance + 1 <= von_neumann_count(distance as int)) by (nonlinear_arith)
        requires
            von_neumann_count(distance as int) == distance * distance + (distance + 1) * (distance
                + 1),
    ;
    let ghost cx = point.0 as int;
    let ghost cy = point.1 as int;
    let ghost d = distance as int;
    let ghost w = width as int;
    let ghost h = height as int;
    let mut points: Vec<(u32, u32)> = Vec::new();
    let mut y_diff: usize = 0;
    while y_diff <= distance
        invariant
            0 < width <= SIDE_LIMIT,
            0 < height <= SIDE_LIMIT,
            2 * distance + 1 <= usize::MAX,
            cx == point.0,
            cy == point.1,
            d == distance,
            w == width,
            h == height,
            y_diff <= distance + 1,
            points@ =~= von_neumann_rows(cx, cy, d, w, h, y_diff as nat),
        decreases distance + 1 - y_diff,
    {
        let up: u32 = wrapped_offset(point.1, distance, y_diff, height);
        let down: u32 = wrapped_offset(point.1, y_diff, distance, height);
        let span: usize = 2 * y_diff + 1;
        let mut column: usize = 0;
        while column < span
            invariant
                0 < width <= SIDE_LIMIT,
                cx == point.0,
                cy == point.1,
                d == distance,
                w == width,
                h == height,
                y_diff <= distance,
                span == 2 * y_diff + 1,
                column <= span,
                up == wrap(cy - d + y_diff, h),
                down == wrap(cy + d - y_diff, h),
                points@ =~= von_neumann_rows(cx, cy, d, w, h, y_diff as nat) + von_neumann_row(
                    cx,
                    cy,
                    d,
                    w,
                    h,
                    y_diff as int,
                    column as nat,
                ),
            decreases span - column,
        {
            let x: u32 = wrapped_offset(point.0, y_diff, column, width);
            points.push((x, up));
            if up != down {
                points.push((x, down));
            }
            column += 1;
        }
        y_diff += 1;
    }
    points
}

/// Enumerates the neighbourhood of `point` with the given radius and shape
/// on a `width` by `height` torus.
pub fn lattice_neighborhood(
    point: (u32, u32),
    distance: usize,
    hood_type: Neighborhood,
    width: usize,
    height: usize,
) -> (points: Vec<(u32, u32)>)
    requires
        0 < width <= SIDE_LIMIT,
        0 < height <= SIDE_LIMIT,
        point_count(distance as int, hood_type) <= usize::MAX,
    ensures
        points@ == neighborhood_points(point, distance as int, hood_type, width as int, height as int),
{
    match hood_type {
        Neighborhood::VonNeumann => von_neumann_neighborhood(point, distance, width, height),
        Neighborhood::Moore => moore_neighborhood(point, distance, width, height),
    }
}

} // verus!
