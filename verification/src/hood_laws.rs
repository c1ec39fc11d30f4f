//! What holds of every neighbourhood: its points lie on the grid, it holds
//! the whole diamond or block around its centre, and no point occurs twice
//! exactly where it does not wrap onto itself.

use vstd::prelude::*;
use vstd::arithmetic::div_mod::{
    lemma_fundamental_div_mod,
    lemma_fundamental_div_mod_converse,
    lemma_mod_bound,
    lemma_mod_multiples_vanish,
};
use vstd::seq_lib::lemma_no_dup_in_concat;
use crate::Neighborhood;
use crate::hood::{
    SIDE_LIMIT,
    all_within,
    fits_once,
    lemma_wrap_distinct,
    lemma_wrap_within,
    moore_count,
    moore_points,
    neighborhood_points,
    von_neumann_count,
    von_neumann_pair,
    von_neumann_points,
    von_neumann_row,
    von_neumann_rows,
    wrap,
};

verus! {

/// `p` stands in column `j` of the row pair at row offset `yd`.
pub open spec fn row_hit(
    p: (u32, u32),
    cx: int,
    cy: int,
    d: int,
    w: int,
    h: int,
    yd: int,
    j: int,
) -> bool {
    &&& p.0 == wrap(cx - yd + j, w)
    &&& (p.1 == wrap(cy - d + yd, h) || p.1 == wrap(cy + d - yd, h))
}

/// `p` stands in one of the first `count` columns of the row pair at `yd`.
pub open spec fn in_row(
    p: (u32, u32),
    cx: int,
    cy: int,
    d: int,
    w: int,
    h: int,
    yd: int,
    count: nat,
) -> bool {
    exists|j: int| 0 <= j < count && #[trigger] row_hit(p, cx, cy, d, w, h, yd, j)
}

/// `p` stands in one of the first `rows` row pairs of the diamond.
pub open spec fn in_rows(p: (u32, u32), cx: int, cy: int, d: int, w: int, h: int, rows: nat) -> bool {
    exists|yd: int, j: int|
        0 <= yd < rows && 0 <= j < 2 * yd + 1 && #[trigger] row_hit(p, cx, cy, d, w, h, yd, j)
}

/// Each point of a row pair stands in one of its columns.
proof fn lemma_row_members(cx: int, cy: int, d: int, w: int, h: int, yd: int, count: nat)
    ensures
        forall|i: int|
            0 <= i < von_neumann_row(cx, cy, d, w, h, yd, count).len() ==> in_row(
                #[trigger] von_neumann_row(cx, cy, d, w, h, yd, count)[i],
                cx,
                cy,
                d,
                w,
                h,
                yd,
                count,
            ),
    decreases count,
{
    if count > 0 {
        let before = von_neumann_row(cx, cy, d, w, h, yd, (count - 1) as nat);
        let pair = von_neumann_pair(
            wrap(cx - yd + (count - 1), w),
            wrap(cy - d + yd, h),
            wrap(cy + d - yd, h),
        );
        let row = von_neumann_row(cx, cy, d, w, h, yd, count);
        lemma_row_members(cx, cy, d, w, h, yd, (count - 1) as nat);
        assert forall|i: int| 0 <= i < row.len() implies in_row(
            #[trigger] row[i],
            cx,
            cy,
            d,
            w,
            h,
            yd,
            count,
        ) by {
            if i < before.len() {
                assert(row[i] == before[i]);
                assert(in_row(before[i], cx, cy, d, w, h, yd, (count - 1) as nat));
                let j = choose|j: int|
                    0 <= j < count - 1 && #[trigger] row_hit(before[i], cx, cy, d, w, h, yd, j);
                assert(row_hit(row[i], cx, cy, d, w, h, yd, j));
            } else {
                assert(row[i] == pair[i - before.len()]);
                assert(row_hit(row[i], cx, cy, d, w, h, yd, count - 1));
            }
        }
    }
}

/// Each point of the first `rows` row pairs stands in a column of one of them.
proof fn lemma_rows_members(cx: int, cy: int, d: int, w: int, h: int, rows: nat)
    ensures
        forall|i: int|
            0 <= i < von_neumann_rows(cx, cy, d, w, h, rows).len() ==> in_rows(
                #[trigger] von_neumann_rows(cx, cy, d, w, h, rows)[i],
                cx,
                cy,
                d,
                w,
                h,
                rows,
            ),
    decreases rows,
{
    if rows > 0 {
        let before = von_neumann_rows(cx, cy, d, w, h, (rows - 1) as nat);
        let row = von_neumann_row(cx, cy, d, w, h, rows - 1, (2 * (rows - 1) + 1) as nat);
        let all = von_neumann_rows(cx, cy, d, w, h, rows);
        lemma_rows_members(cx, cy, d, w, h, (rows - 1) as nat);
        lemma_row_members(cx, cy, d, w, h, rows - 1, (2 * (rows - 1) + 1) as nat);
        assert forall|i: int| 0 <= i < all.len() implies in_rows(
            #[trigger] all[i],
            cx,
            cy,
            d,
            w,
            h,
            rows,
        ) by {
            if i < before.len() {
                assert(all[i] == before[i]);
                assert(in_rows(before[i], cx, cy, d, w, h, (rows - 1) as nat));
                let (yd, j) = choose|yd: int, j: int|
                    0 <= yd < rows - 1 && 0 <= j < 2 * yd + 1 && #[trigger] row_hit(
                        before[i],
                        cx,
                        cy,
                        d,
                        w,
                        h,
                        yd,
                        j,
                    );
                assert(row_hit(all[i], cx, cy, d, w, h, yd, j));
            } else {
                assert(all[i] == row[i - before.len()]);
                assert(in_row(
                    row[i - before.len()],
                    cx,
                    cy,
                    d,
                    w,
                    h,
                    rows - 1,
                    (2 * (rows - 1) + 1) as nat,
                ));
                let j = choose|j: int|
                    0 <= j < 2 * (rows - 1) + 1 && #[trigger] row_hit(
                        row[i - before.len()],
                        cx,
                        cy,
                        d,
                        w,
                        h,
                        rows - 1,
                        j,
                    );
                assert(row_hit(all[i], cx, cy, d, w, h, rows - 1, j));
            }
        }
    }
}

/// Every point of a Moore block lies on the grid, and the block holds
/// `(2d + 1)^2` points.
pub proof fn lemma_moore_within(cx: int, cy: int, d: int, w: int, h: int)
    requires
        0 <= d,
        0 < w <= SIDE_LIMIT,
        0 < h <= SIDE_LIMIT,
    ensures
        all_within(moore_points(cx, cy, d, w, h), w, h),
        moore_points(cx, cy, d, w, h).len() == moore_count(d),
{
    let points = moore_points(cx, cy, d, w, h);
    assert(moore_count(d) >= 0) by (nonlinear_arith)
        requires
            moore_count(d) == (2 * d + 1) * (2 * d + 1),
    ;
    assert forall|i: int| 0 <= i < points.len() implies (#[trigger] points[i]).0 < w
        && points[i].1 < h by {
        lemma_wrap_within(cx - d + i % (2 * d + 1), w);
        lemma_wrap_within(cy - d + i / (2 * d + 1), h);
    }
}

/// Every point of a Von Neumann diamond lies on the grid.
pub proof fn lemma_von_neumann_within(cx: int, cy: int, d: int, w: int, h: int)
    requires
        0 <= d,
        0 < w <= SIDE_LIMIT,
        0 < h <= SIDE_LIMIT,
    ensures
        all_within(von_neumann_points(cx, cy, d, w, h), w, h),
{
    let points = von_neumann_points(cx, cy, d, w, h);
    lemma_rows_members(cx, cy, d, w, h, (d + 1) as nat);
    assert forall|i: int| 0 <= i < points.len() implies (#[trigger] points[i]).0 < w
        && points[i].1 < h by {
        assert(in_rows(points[i], cx, cy, d, w, h, (d + 1) as nat));
        let (yd, j) = choose|yd: int, j: int|
            0 <= yd < d + 1 && 0 <= j < 2 * yd + 1 && #[trigger] row_hit(
                points[i],
                cx,
                cy,
                d,
                w,
                h,
                yd,
                j,
            );
        lemma_wrap_within(cx - yd + j, w);
        lemma_wrap_within(cy - d + yd, h);
        lemma_wrap_within(cy + d - yd, h);
    }
}

/// However far the centre and the radius reach past the edge, every point of
/// a neighbourhood lies on the grid.
pub proof fn lemma_neighborhood_within(
    point: (u32, u32),
    d: int,
    shape: Neighborhood,
    w: int,
    h: int,
)
    requires
        0 <= d,
        0 < w <= SIDE_LIMIT,
        0 < h <= SIDE_LIMIT,
    ensures
        all_within(neighborhood_points(point, d, shape, w, h), w, h),
{
    match shape {
        Neighborhood::VonNeumann => lemma_von_neumann_within(
            point.0 as int,
            point.1 as int,
            d,
            w,
            h,
        ),
        Neighborhood::Moore => lemma_moore_within(point.0 as int, point.1 as int, d, w, h),
    }
}

/// A Moore block no wider and no taller than the grid holds no point twice.
pub proof fn lemma_moore_no_duplicates(cx: int, cy: int, d: int, w: int, h: int)
    requires
        0 <= d,
        0 < w <= SIDE_LIMIT,
        0 < h <= SIDE_LIMIT,
        2 * d + 1 <= w,
        2 * d + 1 <= h,
    ensures
        moore_points(cx, cy, d, w, h).no_duplicates(),
{
    let points = moore_points(cx, cy, d, w, h);
    let n = 2 * d + 1;
    assert forall|i: int, j: int|
        0 <= i < points.len() && 0 <= j < points.len() && i != j implies points[i]
        != points[j] by {
        lemma_fundamental_div_mod(i, n);
        lemma_fundamental_div_mod(j, n);
        lemma_mod_bound(i, n);
        lemma_mod_bound(j, n);
        assert(0 <= i / n < n && 0 <= j / n < n) by (nonlinear_arith)
            requires
                0 <= i < n * n,
                0 <= j < n * n,
                n > 0,
                i == n * (i / n) + i % n,
                j == n * (j / n) + j % n,
                0 <= i % n < n,
                0 <= j % n < n,
        ;
        if i % n != j % n {
            lemma_wrap_distinct(cx - d + i % n, cx - d + j % n, w);
        } else {
            assert(i / n != j / n);
            lemma_wrap_distinct(cy - d + i / n, cy - d + j / n, h);
        }
    }
}

/// A row pair no wider than the grid holds no point twice.
proof fn lemma_row_no_duplicates(cx: int, cy: int, d: int, w: int, h: int, yd: int, count: nat)
    requires
        0 < w <= SIDE_LIMIT,
        count <= w,
    ensures
        von_neumann_row(cx, cy, d, w, h, yd, count).no_duplicates(),
    decreases count,
{
    if count > 0 {
        let before = von_neumann_row(cx, cy, d, w, h, yd, (count - 1) as nat);
        let x = wrap(cx - yd + (count - 1), w);
        let pair = von_neumann_pair(x, wrap(cy - d + yd, h), wrap(cy + d - yd, h));
        lemma_row_no_duplicates(cx, cy, d, w, h, yd, (count - 1) as nat);
        lemma_row_members(cx, cy, d, w, h, yd, (count - 1) as nat);
        assert forall|i: int, j: int| 0 <= i < before.len() && 0 <= j < pair.len() implies before[i]
            != pair[j] by {
            assert(in_row(before[i], cx, cy, d, w, h, yd, (count - 1) as nat));
            let c = choose|c: int|
                0 <= c < count - 1 && #[trigger] row_hit(before[i], cx, cy, d, w, h, yd, c);
            lemma_wrap_distinct(cx - yd + c, cx - yd + (count - 1), w);
            assert(pair[j].0 == x);
        }
        lemma_no_dup_in_concat(before, pair);
    }
}

/// The row pairs of a diamond that does not wrap onto itself hold no point
/// twice.
proof fn lemma_rows_no_duplicates(cx: int, cy: int, d: int, w: int, h: int, rows: nat)
    requires
        0 < w <= SIDE_LIMIT,
        0 < h <= SIDE_LIMIT,
        rows <= d + 1,
        2 * d + 1 <= w,
        2 * d <= h,
    ensures
        von_neumann_rows(cx, cy, d, w, h, rows).no_duplicates(),
    decreases rows,
{
    if rows > 0 {
        let yd = rows - 1;
        let before = von_neumann_rows(cx, cy, d, w, h, (rows - 1) as nat);
        let row = von_neumann_row(cx, cy, d, w, h, yd, (2 * yd + 1) as nat);
        lemma_rows_no_duplicates(cx, cy, d, w, h, (rows - 1) as nat);
        lemma_row_no_duplicates(cx, cy, d, w, h, yd, (2 * yd + 1) as nat);
        lemma_rows_members(cx, cy, d, w, h, (rows - 1) as nat);
        lemma_row_members(cx, cy, d, w, h, yd, (2 * yd + 1) as nat);
        assert forall|i: int, j: int| 0 <= i < before.len() && 0 <= j < row.len() implies before[i]
            != row[j] by {
            assert(in_rows(before[i], cx, cy, d, w, h, (rows - 1) as nat));
            assert(in_row(row[j], cx, cy, d, w, h, yd, (2 * yd + 1) as nat));
            let (e, c) = choose|e: int, c: int|
                0 <= e < rows - 1 && 0 <= c < 2 * e + 1 && #[trigger] row_hit(
                    before[i],
                    cx,
                    cy,
                    d,
                    w,
                    h,
                    e,
                    c,
                );
            let k = choose|k: int|
                0 <= k < 2 * yd + 1 && #[trigger] row_hit(row[j], cx, cy, d, w, h, yd, k);
            lemma_wrap_distinct(cy - d + e, cy - d + yd, h);
            lemma_wrap_distinct(cy - d + e, cy + d - yd, h);
            lemma_wrap_distinct(cy + d - e, cy - d + yd, h);
            lemma_wrap_distinct(cy + d - e, cy + d - yd, h);
        }
        lemma_no_dup_in_concat(before, row);
    }
}

/// A Von Neumann diamond that does not wrap onto itself holds no point twice.
pub proof fn lemma_von_neumann_no_duplicates(cx: int, cy: int, d: int, w: int, h: int)
    requires
        0 <= d,
        0 < w <= SIDE_LIMIT,
        0 < h <= SIDE_LIMIT,
        d == 0 || (2 * d + 1 <= w && 2 * d <= h),
    ensures
        von_neumann_points(cx, cy, d, w, h).no_duplicates(),
{
    if d == 0 {
        lemma_row_no_duplicates(cx, cy, d, w, h, 0, 1);
        assert(von_neumann_rows(cx, cy, d, w, h, 0) =~= Seq::empty());
        assert(von_neumann_points(cx, cy, d, w, h) =~= von_neumann_row(cx, cy, d, w, h, 0, 1));
    } else {
        lemma_rows_no_duplicates(cx, cy, d, w, h, (d + 1) as nat);
    }
}

/// A neighbourhood that does not wrap onto itself holds no point twice.
pub proof fn lemma_neighborhood_no_duplicates(
    point: (u32, u32),
    d: int,
    shape: Neighborhood,
    w: int,
    h: int,
)
    requires
        0 <= d,
        0 < w <= SIDE_LIMIT,
        0 < h <= SIDE_LIMIT,
        fits_once(d, shape, w, h),
    ensures
        neighborhood_points(point, d, shape, w, h).no_duplicates(),
{
    match shape {
        Neighborhood::VonNeumann => lemma_von_neumann_no_duplicates(
            point.0 as int,
            point.1 as int,
            d,
            w,
            h,
        ),
        Neighborhood::Moore => lemma_moore_no_duplicates(point.0 as int, point.1 as int, d, w, h),
    }
}

/// The point that lies `dx` columns and `dy` rows from `(cx, cy)` on the torus.
pub open spec fn offset_point(cx: int, cy: int, dx: int, dy: int, w: int, h: int) -> (u32, u32) {
    (wrap(cx + dx, w), wrap(cy + dy, h))
}

/// The distance of an offset from zero.
pub open spec fn magnitude(v: int) -> int {
    if v < 0 {
        -v
    } else {
        v
    }
}

/// A row pair holds the upper and the lower point of each of its columns.
proof fn lemma_row_holds_columns(
    cx: int,
    cy: int,
    d: int,
    w: int,
    h: int,
    yd: int,
    count: nat,
    j: int,
)
    requires
        0 <= j < count,
    ensures
        von_neumann_row(cx, cy, d, w, h, yd, count).contains(
            (wrap(cx - yd + j, w), wrap(cy - d + yd, h)),
        ),
        von_neumann_row(cx, cy, d, w, h, yd, count).contains(
            (wrap(cx - yd + j, w), wrap(cy + d - yd, h)),
        ),
    decreases count,
{
    let before = von_neumann_row(cx, cy, d, w, h, yd, (count - 1) as nat);
    let x = wrap(cx - yd + (count - 1), w);
    let up = wrap(cy - d + yd, h);
    let down = wrap(cy + d - yd, h);
    let pair = von_neumann_pair(x, up, down);
    let row = von_neumann_row(cx, cy, d, w, h, yd, count);
    assert(row == before + pair);
    if j < count - 1 {
        lemma_row_holds_columns(cx, cy, d, w, h, yd, (count - 1) as nat, j);
        let p = (wrap(cx - yd + j, w), up);
        let q = (wrap(cx - yd + j, w), down);
        let a = choose|a: int| 0 <= a < before.len() && before[a] == p;
        let b = choose|b: int| 0 <= b < before.len() && before[b] == q;
        assert(row[a] == p);
        assert(row[b] == q);
    } else {
        assert(row[before.len() as int] == pair[0]);
        if up != down {
            assert(row[before.len() as int + 1] == pair[1]);
        }
    }
}

/// The row pairs hold every point of each of their row pairs.
proof fn lemma_rows_hold_rows(
    cx: int,
    cy: int,
    d: int,
    w: int,
    h: int,
    rows: nat,
    yd: int,
    p: (u32, u32),
)
    requires
        0 <= yd < rows,
        von_neumann_row(cx, cy, d, w, h, yd, (2 * yd + 1) as nat).contains(p),
    ensures
        von_neumann_rows(cx, cy, d, w, h, rows).contains(p),
    decreases rows,
{
    let before = von_neumann_rows(cx, cy, d, w, h, (rows - 1) as nat);
    let row = von_neumann_row(cx, cy, d, w, h, rows - 1, (2 * (rows - 1) + 1) as nat);
    let all = von_neumann_rows(cx, cy, d, w, h, rows);
    assert(all == before + row);
    if yd < rows - 1 {
        lemma_rows_hold_rows(cx, cy, d, w, h, (rows - 1) as nat, yd, p);
        let a = choose|a: int| 0 <= a < before.len() && before[a] == p;
        assert(all[a] == p);
    } else {
        let a = choose|a: int| 0 <= a < row.len() && row[a] == p;
        assert(all[before.len() as int + a] == p);
    }
}

/// The Von Neumann neighbourhood is the filled diamond: it holds the point
/// at every offset whose taxicab distance from the centre is within the
/// radius, the centre among them.
pub proof fn lemma_von_neumann_holds_diamond(
    cx: int,
    cy: int,
    d: int,
    w: int,
    h: int,
    dx: int,
    dy: int,
)
    requires
        0 <= d,
        magnitude(dx) + magnitude(dy) <= d,
    ensures
        von_neumann_points(cx, cy, d, w, h).contains(offset_point(cx, cy, dx, dy, w, h)),
{
    let yd = d - magnitude(dy);
    let j = dx + yd;
    lemma_row_holds_columns(cx, cy, d, w, h, yd, (2 * yd + 1) as nat, j);
    lemma_rows_hold_rows(cx, cy, d, w, h, (d + 1) as nat, yd, offset_point(cx, cy, dx, dy, w, h));
}

/// Every point of the Von Neumann neighbourhood lies at an offset whose
/// taxicab distance from the centre is within the radius.
pub proof fn lemma_von_neumann_within_diamond(cx: int, cy: int, d: int, w: int, h: int, i: int)
    requires
        0 <= d,
        0 <= i < von_neumann_points(cx, cy, d, w, h).len(),
    ensures
        exists|dx: int, dy: int|
            magnitude(dx) + magnitude(dy) <= d && von_neumann_points(cx, cy, d, w, h)[i]
                == #[trigger] offset_point(cx, cy, dx, dy, w, h),
{
    let p = von_neumann_points(cx, cy, d, w, h)[i];
    lemma_rows_members(cx, cy, d, w, h, (d + 1) as nat);
    assert(in_rows(p, cx, cy, d, w, h, (d + 1) as nat));
    let (yd, j) = choose|yd: int, j: int|
        0 <= yd < d + 1 && 0 <= j < 2 * yd + 1 && #[trigger] row_hit(p, cx, cy, d, w, h, yd, j);
    if p.1 == wrap(cy - d + yd, h) {
        assert(p == offset_point(cx, cy, j - yd, yd - d, w, h));
    } else {
        assert(p == offset_point(cx, cy, j - yd, d - yd, w, h));
    }
}

/// The Moore neighbourhood is the full block: it holds the point at every
/// offset of at most the radius in each direction, the centre among them.
pub proof fn lemma_moore_holds_block(cx: int, cy: int, d: int, w: int, h: int, dx: int, dy: int)
    requires
        0 <= d,
        magnitude(dx) <= d,
        magnitude(dy) <= d,
    ensures
        moore_points(cx, cy, d, w, h).contains(offset_point(cx, cy, dx, dy, w, h)),
{
    let n = 2 * d + 1;
    let k = (dy + d) * n + (dx + d);
    vstd::arithmetic::div_mod::lemma_fundamental_div_mod_converse(k, n, dy + d, dx + d);
    assert(0 <= k < n * n) by (nonlinear_arith)
        requires
            k == (dy + d) * n + (dx + d),
            0 <= dy + d < n,
            0 <= dx + d < n,
    ;
    assert(moore_points(cx, cy, d, w, h)[k] == offset_point(cx, cy, dx, dy, w, h));
}

/// The number of points of the first `count` columns of a row pair.
proof fn lemma_row_len(cx: int, cy: int, d: int, w: int, h: int, yd: int, count: nat)
    ensures
        von_neumann_row(cx, cy, d, w, h, yd, count).len() == (if wrap(cy - d + yd, h) != wrap(
            cy + d - yd,
            h,
        ) {
            2 * count
        } else {
            count
        }),
    decreases count,
{
    if count > 0 {
        lemma_row_len(cx, cy, d, w, h, yd, (count - 1) as nat);
    }
}

/// The number of points of the row pairs above and below the centre row of
/// a diamond shorter than the grid is tall.
proof fn lemma_rows_len(cx: int, cy: int, d: int, w: int, h: int, rows: nat)
    requires
        0 < h <= SIDE_LIMIT,
        rows <= d,
        2 * d < h,
    ensures
        von_neumann_rows(cx, cy, d, w, h, rows).len() == 2 * rows * rows,
    decreases rows,
{
    if rows > 0 {
        let yd = rows - 1;
        lemma_rows_len(cx, cy, d, w, h, (rows - 1) as nat);
        lemma_row_len(cx, cy, d, w, h, yd, (2 * yd + 1) as nat);
        lemma_wrap_distinct(cy - d + yd, cy + d - yd, h);
        assert(2 * (rows - 1) * (rows - 1) + 2 * (2 * (rows - 1) + 1) == 2 * rows * rows)
            by (nonlinear_arith);
    }
}

/// A Von Neumann diamond shorter than the grid is tall holds
/// `d^2 + (d + 1)^2` points, the size that the shape estimates for it.
pub proof fn lemma_von_neumann_len(cx: int, cy: int, d: int, w: int, h: int)
    requires
        0 <= d,
        0 < h <= SIDE_LIMIT,
        2 * d < h,
    ensures
        von_neumann_points(cx, cy, d, w, h).len() == von_neumann_count(d),
        von_neumann_count(d) == Neighborhood::VonNeumann.length_spec(d as nat),
{
    lemma_rows_len(cx, cy, d, w, h, d as nat);
    lemma_row_len(cx, cy, d, w, h, d, (2 * d + 1) as nat);
    assert(2 * d * d + (2 * d + 1) == d * d + (d + 1) * (d + 1)) by (nonlinear_arith);
    assert((d + 1) * (d + 1) == (1 + d) * (1 + d)) by (nonlinear_arith);
}

/// Offsets one side apart wrap to the same coordinate.
proof fn lemma_wrap_period(v: int, m: int)
    requires
        0 < m,
    ensures
        wrap(v + m, m) == wrap(v, m),
{
    lemma_mod_multiples_vanish(1, v, m);
}

/// A Moore block wider or taller than the grid holds a point twice.
pub proof fn lemma_moore_repeats(cx: int, cy: int, d: int, w: int, h: int)
    requires
        0 <= d,
        0 < w <= SIDE_LIMIT,
        0 < h <= SIDE_LIMIT,
        2 * d + 1 > w || 2 * d + 1 > h,
    ensures
        !moore_points(cx, cy, d, w, h).no_duplicates(),
{
    let points = moore_points(cx, cy, d, w, h);
    let n = 2 * d + 1;
    assert(n <= n * n) by (nonlinear_arith)
        requires
            n >= 1,
    ;
    if n > w {
        lemma_fundamental_div_mod_converse(0, n, 0, 0);
        lemma_fundamental_div_mod_converse(w, n, 0, w);
        lemma_wrap_period(cx - d, w);
        assert(points[0] == points[w]);
    } else {
        assert(h * n < n * n) by (nonlinear_arith)
            requires
                0 < h < n,
        ;
        lemma_fundamental_div_mod_converse(0, n, 0, 0);
        lemma_fundamental_div_mod_converse(h * n, n, h, 0);
        lemma_wrap_period(cy - d, h);
        assert(points[0] == points[h * n]);
    }
}

/// A row pair whose two rows coincide holds one point for each column.
proof fn lemma_row_single_file(
    cx: int,
    cy: int,
    d: int,
    w: int,
    h: int,
    yd: int,
    count: nat,
    j: int,
)
    requires
        wrap(cy - d + yd, h) == wrap(cy + d - yd, h),
        0 <= j < count,
    ensures
        von_neumann_row(cx, cy, d, w, h, yd, count).len() == count,
        von_neumann_row(cx, cy, d, w, h, yd, count)[j] == (
            wrap(cx - yd + j, w),
            wrap(cy - d + yd, h),
        ),
    decreases count,
{
    lemma_row_len(cx, cy, d, w, h, yd, count);
    lemma_row_len(cx, cy, d, w, h, yd, (count - 1) as nat);
    if j < count - 1 {
        lemma_row_single_file(cx, cy, d, w, h, yd, (count - 1) as nat, j);
    }
}

/// The row pairs begin with the point straight above the centre, and a
/// point of a later row pair stands after the row pairs before it.
proof fn lemma_rows_places(cx: int, cy: int, d: int, w: int, h: int, rows: nat)
    requires
        rows >= 1,
    ensures
        von_neumann_rows(cx, cy, d, w, h, rows).len() >= 1,
        von_neumann_rows(cx, cy, d, w, h, rows)[0] == (wrap(cx, w), wrap(cy - d, h)),
        forall|yd: int, p: (u32, u32)|
            0 <= yd < rows && #[trigger] von_neumann_row(
                cx,
                cy,
                d,
                w,
                h,
                yd,
                (2 * yd + 1) as nat,
            ).contains(p) ==> exists|i: int|
                von_neumann_rows(cx, cy, d, w, h, yd as nat).len() <= i < von_neumann_rows(
                    cx,
                    cy,
                    d,
                    w,
                    h,
                    rows,
                ).len() && von_neumann_rows(cx, cy, d, w, h, rows)[i] == p,
    decreases rows,
{
    let before = von_neumann_rows(cx, cy, d, w, h, (rows - 1) as nat);
    let row = von_neumann_row(cx, cy, d, w, h, rows - 1, (2 * (rows - 1) + 1) as nat);
    let all = von_neumann_rows(cx, cy, d, w, h, rows);
    assert(all == before + row);
    if rows == 1 {
        assert(before.len() == 0);
        let none = von_neumann_row(cx, cy, d, w, h, 0, 0);
        let pair = von_neumann_pair(wrap(cx - 0 + (1 - 1), w), wrap(cy - d + 0, h), wrap(cy + d - 0, h));
        assert(row == none + pair);
        assert(none.len() == 0);
        assert(row[0] == pair[0]);
        assert(all[0] == row[0]);
    } else {
        lemma_rows_places(cx, cy, d, w, h, (rows - 1) as nat);
        assert(all[0] == before[0]);
    }
    assert forall|yd: int, p: (u32, u32)|
        0 <= yd < rows && #[trigger] von_neumann_row(
            cx,
            cy,
            d,
            w,
            h,
            yd,
            (2 * yd + 1) as nat,
        ).contains(p) implies exists|i: int|
        von_neumann_rows(cx, cy, d, w, h, yd as nat).len() <= i < all.len() && all[i] == p by {
        if yd == rows - 1 {
            let a = choose|a: int| 0 <= a < row.len() && row[a] == p;
            assert(all[before.len() as int + a] == p);
        } else {
            let i = choose|i: int|
                von_neumann_rows(cx, cy, d, w, h, yd as nat).len() <= i < before.len() && before[i]
                    == p;
            assert(all[i] == p);
        }
    }
}

/// A Von Neumann diamond wider than the grid, or taller than the grid by
/// more than the row that folds onto itself, holds a point twice.
pub proof fn lemma_von_neumann_repeats(cx: int, cy: int, d: int, w: int, h: int)
    requires
        1 <= d,
        0 < w <= SIDE_LIMIT,
        0 < h <= SIDE_LIMIT,
        2 * d + 1 > w || 2 * d > h,
    ensures
        !von_neumann_points(cx, cy, d, w, h).no_duplicates(),
{
    let all = von_neumann_points(cx, cy, d, w, h);
    if 2 * d + 1 > w {
        let before = von_neumann_rows(cx, cy, d, w, h, d as nat);
        let row = von_neumann_row(cx, cy, d, w, h, d, (2 * d + 1) as nat);
        assert(all == before + row);
        lemma_row_single_file(cx, cy, d, w, h, d, (2 * d + 1) as nat, 0);
        lemma_row_single_file(cx, cy, d, w, h, d, (2 * d + 1) as nat, w);
        lemma_wrap_period(cx - d, w);
        assert(all[before.len() as int] == row[0]);
        assert(all[before.len() as int + w] == row[w]);
    } else {
        let dy = h - d;
        let yd = d - magnitude(dy);
        let p = (wrap(cx, w), wrap(cy - d, h));
        lemma_rows_places(cx, cy, d, w, h, (d + 1) as nat);
        lemma_rows_places(cx, cy, d, w, h, yd as nat);
        lemma_row_holds_columns(cx, cy, d, w, h, yd, (2 * yd + 1) as nat, yd);
        lemma_wrap_period(cy - d, h);
        let row = von_neumann_row(cx, cy, d, w, h, yd, (2 * yd + 1) as nat);
        if dy <= 0 {
            assert(wrap(cy - d + yd, h) == wrap(cy - d + h, h));
        } else {
            assert(wrap(cy + d - yd, h) == wrap(cy - d + h, h));
        }
        assert(row.contains(p));
        let i = choose|i: int|
            von_neumann_rows(cx, cy, d, w, h, yd as nat).len() <= i < all.len() && all[i] == p;
        assert(all[0] == p);
        assert(i != 0);
    }
}

/// A neighbourhood holds no point twice exactly where it does not wrap onto
/// itself.
pub proof fn lemma_no_duplicates_exactly_when_fits(
    point: (u32, u32),
    d: int,
    shape: Neighborhood,
    w: int,
    h: int,
)
    requires
        0 <= d,
        0 < w <= SIDE_LIMIT,
        0 < h <= SIDE_LIMIT,
    ensures
        neighborhood_points(point, d, shape, w, h).no_duplicates() <==> fits_once(d, shape, w, h),
{
    if fits_once(d, shape, w, h) {
        lemma_neighborhood_no_duplicates(point, d, shape, w, h);
    } else {
        match shape {
            Neighborhood::VonNeumann => lemma_von_neumann_repeats(
                point.0 as int,
                point.1 as int,
                d,
                w,
                h,
            ),
            Neighborhood::Moore => lemma_moore_repeats(point.0 as int, point.1 as int, d, w, h),
        }
    }
}

} // verus!
