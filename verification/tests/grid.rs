use matrix_graph::error::MatrixError;
use matrix_graph::traits::{LatticeElement, Matrix};
use matrix_graph::{MatrixImage, MatrixImageBuilder, Neighborhood};
use std::cell::Cell;

fn counting_grid(height: usize, width: usize) -> MatrixImage<u32> {
    let next = Cell::new(0u32);
    MatrixImageBuilder::<u32>::init()
        .with_height_and_width(height, width)
        .with_generator(|| {
            let value = next.get();
            next.set(value + 1);
            value
        })
        .build()
}

#[test]
fn the_builder_fills_with_the_largest_value_by_default() {
    let grid: MatrixImage<u8> = MatrixImageBuilder::init().with_height_and_width(2, 3).build();
    assert_eq!(grid.get_height(), 2);
    assert_eq!(grid.get_width(), 3);
    assert_eq!(grid.get_data(), vec![255u8; 6]);
}

#[test]
fn the_builder_fills_with_the_initial_value() {
    let grid: MatrixImage<i32> = MatrixImageBuilder::init()
        .with_initial_value(-4)
        .with_height_and_width(3, 2)
        .build();
    assert_eq!(grid.get_data(), vec![-4i32; 6]);
}

#[test]
fn an_initial_value_set_after_the_sides_fills_the_cells() {
    let grid: MatrixImage<u8> = MatrixImageBuilder::init()
        .with_height_and_width(2, 2)
        .with_initial_value(7)
        .build();
    assert_eq!(grid.get_data(), vec![7u8; 4]);
    assert_eq!(grid.get_height(), 2);
    assert_eq!(grid.get_width(), 2);
}

#[test]
fn a_generator_given_before_the_sides_fills_the_cells() {
    let next = Cell::new(10u32);
    let grid = MatrixImageBuilder::<u32>::init()
        .with_generator(|| {
            let value = next.get();
            next.set(value + 1);
            value
        })
        .with_initial_value(3)
        .with_height_and_width(2, 2)
        .build();
    assert_eq!(grid.get_data(), vec![10, 11, 12, 13]);
}

#[test]
fn a_generator_overwrites_the_fill_value() {
    let grid = MatrixImageBuilder::<u8>::init()
        .with_height_and_width(1, 3)
        .with_initial_value(9)
        .with_generator(|| 4)
        .build();
    assert_eq!(grid.get_data(), vec![4u8; 3]);
}

#[test]
fn the_generator_is_called_once_for_each_cell_in_row_major_order() {
    let grid = counting_grid(2, 3);
    assert_eq!(grid.get_data(), vec![0, 1, 2, 3, 4, 5]);
    assert_eq!(grid.get_point_value((2, 0)), Ok(2));
    assert_eq!(grid.get_point_value((0, 1)), Ok(3));
}

#[test]
fn each_build_is_a_grid_of_its_own() {
    let builder = MatrixImageBuilder::<u32>::init().with_height_and_width(2, 2);
    let mut first = builder.build();
    let second = builder.build();
    first.edit_point((0, 0), 1).unwrap();
    assert_eq!(second.get_point_value((0, 0)), Ok(u32::MAX));
    assert_eq!(builder.build(), second);
    assert_ne!(first, second);
}

#[test]
fn the_default_grid_holds_no_cell() {
    let grid = MatrixImage::<u32>::default();
    assert_eq!(grid.get_height(), 0);
    assert_eq!(grid.get_width(), 0);
    assert_eq!(grid.get_data_len(), 0);
    assert_eq!(grid, MatrixImageBuilder::<u32>::init().build());
}

#[test]
fn get_after_set_returns_the_value() {
    let mut grid: MatrixImage<LatticeElement<u32>> =
        MatrixImageBuilder::init().with_height_and_width(3, 4).build();
    for y in 0..3u32 {
        for x in 0..4u32 {
            let value = LatticeElement(x * 10 + y);
            assert_eq!(grid.edit_point((x, y), value), Ok(()));
            assert_eq!(grid.get_point_value((x, y)), Ok(value));
        }
    }
    assert_eq!(grid.get_point_value((3, 2)), Ok(LatticeElement(32)));
    assert_eq!(grid.get_absolute_point_data(11), LatticeElement(32));
}

#[test]
fn the_strict_accessors_do_not_wrap() {
    let mut grid = counting_grid(2, 3);
    assert_eq!(grid.get_point_value((3, 0)), Err(MatrixError::Overflow));
    assert_eq!(grid.get_point_value((0, 2)), Err(MatrixError::Overflow));
    assert_eq!(grid.edit_point((3, 1), 9), Err(MatrixError::Overflow));
    assert_eq!(grid.get_data(), vec![0, 1, 2, 3, 4, 5]);
    assert_eq!(grid.check_point_bounds((2, 1)), Ok(true));
    assert_eq!(grid.check_point_bounds((2, 2)), Err(MatrixError::Overflow));
}

#[test]
fn points_and_places_name_each_other() {
    let grid = counting_grid(2, 3);
    assert_eq!(grid.into_absolute_point((2, 1)), Ok(5));
    assert_eq!(grid.into_absolute_point((0, 1)), Ok(3));
    assert_eq!(grid.into_absolute_point((3, 0)), Err(MatrixError::Overflow));
    assert_eq!(grid.into_2d_point(5), Ok((2, 1)));
    assert_eq!(grid.into_2d_point(3), Ok((0, 1)));
    assert_eq!(grid.into_2d_point(6), Err(MatrixError::Overflow));
    assert_eq!(MatrixImage::<u32>::default().into_2d_point(0), Err(MatrixError::Overflow));
}

#[test]
fn a_grid_of_no_rows_has_no_place() {
    let builder = MatrixImageBuilder::<u8>::init().with_height_and_width(0, 5_000_000_000);
    let grid = builder.build();
    assert_eq!(grid.get_width(), 5_000_000_000);
    assert_eq!(grid.get_data_len(), 0);
    assert_eq!(grid.into_2d_point(4_999_999_999), Err(MatrixError::Overflow));
    assert_eq!(grid.into_absolute_point((7, 0)), Err(MatrixError::Overflow));
}

#[test]
fn hood_sum_is_the_sum_over_the_neighborhood() {
    let grid = counting_grid(3, 3);
    assert_eq!(grid.hood_sum((1, 1), 1, Neighborhood::Moore), Ok((36, 9)));
    assert_eq!(grid.hood_sum((1, 1), 1, Neighborhood::VonNeumann), Ok((20, 5)));
    assert_eq!(grid.hood_sum((0, 0), 0, Neighborhood::Moore), Ok((0, 1)));
    for shape in [Neighborhood::Moore, Neighborhood::VonNeumann] {
        for center in [(0u32, 0u32), (2, 1), (7, 7)] {
            let hood = grid.get_lattice_neighborhood(center, 2, shape);
            let expected: u32 = hood.iter().map(|p| grid.get_point_value(*p).unwrap()).sum();
            assert_eq!(grid.hood_sum(center, 2, shape), Ok((expected, hood.len())));
        }
    }
}

#[test]
fn hood_sum_reaches_the_largest_value() {
    let grid: MatrixImage<u32> = MatrixImageBuilder::init().with_height_and_width(5, 5).build();
    assert_eq!(grid.hood_sum((2, 2), 0, Neighborhood::VonNeumann), Ok((u32::MAX, 1)));
    let mut low: MatrixImage<u32> = MatrixImageBuilder::init()
        .with_initial_value(0)
        .with_height_and_width(5, 5)
        .build();
    low.edit_point((2, 1), u32::MAX - 2).unwrap();
    low.edit_point((3, 2), 2).unwrap();
    assert_eq!(low.hood_sum((2, 2), 1, Neighborhood::VonNeumann), Ok((u32::MAX, 5)));
}

fn laplacian_grid<T: Copy + matrix_graph::traits::Numeric>(values: [T; 6]) -> MatrixImage<T> {
    let mut grid: MatrixImage<T> = MatrixImageBuilder::init()
        .with_initial_value(values[0])
        .with_height_and_width(5, 5)
        .build();
    grid.edit_point((2, 2), values[1]).unwrap();
    grid.edit_point((2, 1), values[2]).unwrap();
    grid.edit_point((2, 3), values[3]).unwrap();
    grid.edit_point((1, 2), values[4]).unwrap();
    grid.edit_point((3, 2), values[5]).unwrap();
    grid
}

#[test]
fn the_two_laplacians_diverge_where_a_difference_underflows() {
    let grid = laplacian_grid::<u32>([0, 5, 10, 3, 7, 6]);
    assert_eq!(grid.sum_first_laplace_operator((2, 2), 1, Neighborhood::VonNeumann), Ok(6));
    assert_eq!(grid.laplace_operator((2, 2), 1, Neighborhood::VonNeumann), Ok(6));
    let hood = grid.get_lattice_neighborhood((2, 2), 1, Neighborhood::VonNeumann);
    let center = grid.get_point_value((2, 2)).unwrap();
    let below: Vec<u32> = hood
        .iter()
        .map(|p| grid.get_point_value(*p).unwrap())
        .filter(|value| value.checked_sub(center).is_none())
        .collect();
    assert_eq!(below, vec![3]);
}

#[test]
fn the_two_laplacians_agree_on_unsigned_cells_at_or_above_the_centre() {
    let grid = laplacian_grid::<u32>([0, 3, 10, 3, 7, 6]);
    assert_eq!(grid.sum_first_laplace_operator((2, 2), 1, Neighborhood::VonNeumann), Ok(14));
    assert_eq!(grid.sub_first_laplace_operator((2, 2), 1, Neighborhood::VonNeumann), Ok(14));
}

#[test]
fn the_two_laplacians_agree_on_signed_cells() {
    let grid = laplacian_grid::<i32>([0, 5, 10, 3, 7, 6]);
    assert_eq!(grid.sum_first_laplace_operator((2, 2), 1, Neighborhood::VonNeumann), Ok(6));
    assert_eq!(grid.sub_first_laplace_operator((2, 2), 1, Neighborhood::VonNeumann), Ok(6));
    let wrapped = LatticeElement(6);
    let lattice = laplacian_grid::<LatticeElement<i32>>([
        LatticeElement(0),
        LatticeElement(5),
        LatticeElement(10),
        LatticeElement(3),
        LatticeElement(7),
        LatticeElement(6),
    ]);
    assert_eq!(lattice.laplace_operator((2, 2), 1, Neighborhood::VonNeumann), Ok(wrapped));
}

#[test]
fn a_laplacian_off_the_grid_is_an_overflow() {
    let grid = counting_grid(3, 3);
    assert_eq!(
        grid.laplace_operator((3, 0), 1, Neighborhood::Moore),
        Err(MatrixError::Overflow)
    );
    assert_eq!(
        grid.sum_first_laplace_operator((0, 3), 1, Neighborhood::Moore),
        Err(MatrixError::Overflow)
    );
    assert_eq!(
        grid.sub_first_laplace_operator((9, 9), 1, Neighborhood::Moore),
        Err(MatrixError::Overflow)
    );
    assert_eq!(
        MatrixImage::<u32>::default().laplace_operator((0, 0), 1, Neighborhood::Moore),
        Err(MatrixError::Overflow)
    );
}

#[test]
fn the_product_of_two_grids_is_taken_cell_by_cell() {
    let left = counting_grid(2, 2);
    let right: MatrixImage<u32> = MatrixImageBuilder::init()
        .with_initial_value(3)
        .with_height_and_width(2, 2)
        .build();
    let product = left * right;
    assert_eq!(product.get_data(), vec![0, 3, 6, 9]);
    assert_eq!(product.get_height(), 2);
    let top: MatrixImage<u32> = MatrixImageBuilder::init().with_height_and_width(2, 2).build();
    let mut bits: MatrixImage<u32> = MatrixImageBuilder::init()
        .with_initial_value(0)
        .with_height_and_width(2, 2)
        .build();
    bits.edit_point((1, 0), 1).unwrap();
    assert_eq!((bits * top).get_data(), vec![0, u32::MAX, 0, 0]);
}

#[test]
fn each_failure_has_its_text() {
    assert_eq!(MatrixError::Overflow.message(), "Overflow Image from Matrix");
    assert_eq!(MatrixError::ShapeMismatch.message(), "Matrices should have the same shape");
    assert_eq!(
        MatrixError::NumericConversionFailure.message(),
        "TryFromIntError out of range integral type conversion attempted"
    );
}
