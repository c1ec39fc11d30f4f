use matrix_graph::error::MatrixError;
use matrix_graph::four_channel::FourChannelMatrix;
use matrix_graph::raster::{arrange, compose};
use matrix_graph::traits::{Draw, DrawMultiChannel, LatticeElement, Matrix};
use matrix_graph::Channel::{Alpha, Blue, Green, Red};
use matrix_graph::{MatrixImage, MatrixImageBuilder};

fn grid(values: [u8; 4]) -> MatrixImage<u8> {
    let mut grid: MatrixImage<u8> = MatrixImageBuilder::init().with_height_and_width(2, 2).build();
    for (place, value) in values.iter().enumerate() {
        let point = grid.into_2d_point(place).unwrap();
        grid.edit_point(point, *value).unwrap();
    }
    grid
}

fn four() -> [MatrixImage<u8>; 4] {
    [
        grid([10, 11, 12, 13]),
        grid([20, 21, 22, 23]),
        grid([30, 31, 32, 33]),
        grid([40, 41, 42, 43]),
    ]
}

#[test]
fn a_grid_is_drawn_in_one_channel() {
    let cells = grid([10, 20, 30, 40]);
    assert_eq!(
        cells.draw(Red).unwrap().into_raw(),
        vec![10, 0, 0, 255, 20, 0, 0, 255, 30, 0, 0, 255, 40, 0, 0, 255]
    );
    assert_eq!(
        cells.draw(Green).unwrap().into_raw(),
        vec![0, 10, 0, 255, 0, 20, 0, 255, 0, 30, 0, 255, 0, 40, 0, 255]
    );
    assert_eq!(
        cells.draw(Blue).unwrap().into_raw(),
        vec![0, 0, 10, 255, 0, 0, 20, 255, 0, 0, 30, 255, 0, 0, 40, 255]
    );
    assert_eq!(
        cells.draw(Alpha).unwrap().into_raw(),
        vec![0, 0, 0, 10, 0, 0, 0, 20, 0, 0, 0, 30, 0, 0, 0, 40]
    );
}

#[test]
fn a_cell_is_drawn_at_its_intensity() {
    let mut cells: MatrixImage<LatticeElement<u32>> =
        MatrixImageBuilder::init().with_height_and_width(1, 3).build();
    cells.edit_point((1, 0), LatticeElement(0x8000_0000)).unwrap();
    cells.edit_point((2, 0), LatticeElement(0)).unwrap();
    assert_eq!(
        cells.draw(Blue).unwrap().into_raw(),
        vec![0, 0, 255, 255, 0, 0, 127, 255, 0, 0, 0, 255]
    );
}

#[test]
fn the_rows_of_the_picture_are_the_rows_of_the_grid() {
    let mut cells: MatrixImage<u8> = MatrixImageBuilder::init()
        .with_initial_value(0)
        .with_height_and_width(3, 2)
        .build();
    cells.edit_point((1, 2), 200).unwrap();
    let bytes = cells.draw(Red).unwrap().into_raw();
    assert_eq!(bytes.len(), 24);
    assert_eq!(bytes[4 * 5], 200);
    assert_eq!(bytes.iter().filter(|byte| **byte == 200).count(), 1);
}

#[test]
fn a_grid_of_no_cells_is_a_picture_of_no_pixels() {
    let cells = MatrixImage::<u8>::default();
    assert_eq!(cells.draw(Red).unwrap().into_raw(), Vec::<u8>::new());
}

#[test]
fn a_side_without_a_32_bit_value_is_a_conversion_failure() {
    let wide: MatrixImage<u8> =
        MatrixImageBuilder::init().with_height_and_width(0, 5_000_000_000).build();
    assert_eq!(wide.draw(Green).err(), Some(MatrixError::NumericConversionFailure));
    let tall: MatrixImage<u8> =
        MatrixImageBuilder::init().with_height_and_width(5_000_000_000, 0).build();
    assert_eq!(tall.draw(Green).err(), Some(MatrixError::NumericConversionFailure));
    let channels = [wide.clone(), wide.clone(), wide.clone(), wide.clone()];
    assert_eq!(
        DrawMultiChannel::draw_multi_channel(&wide, &channels, None).err(),
        Some(MatrixError::NumericConversionFailure)
    );
}

#[test]
fn four_grids_are_drawn_as_red_green_blue_and_alpha() {
    let channels = four();
    let picture = DrawMultiChannel::draw_multi_channel(&channels[0], &channels, None).unwrap();
    assert_eq!(
        picture.into_raw(),
        vec![10, 20, 30, 40, 11, 21, 31, 41, 12, 22, 32, 42, 13, 23, 33, 43]
    );
    let labelled =
        DrawMultiChannel::draw_multi_channel(&channels[0], &channels, Some(&[Red, Green, Blue, Alpha]))
            .unwrap();
    assert_eq!(
        labelled.into_raw(),
        vec![10, 20, 30, 40, 11, 21, 31, 41, 12, 22, 32, 42, 13, 23, 33, 43]
    );
}

#[test]
fn each_grid_is_drawn_into_the_channel_of_its_label() {
    let channels = four();
    let picture =
        DrawMultiChannel::draw_multi_channel(&channels[0], &channels, Some(&[Green, Red, Alpha, Blue]))
            .unwrap();
    assert_eq!(
        picture.into_raw(),
        vec![20, 10, 40, 30, 21, 11, 41, 31, 22, 12, 42, 32, 23, 13, 43, 33]
    );
}

#[test]
fn grids_of_one_label_keep_the_order_in_which_they_were_named() {
    assert_eq!(arrange(None), [0, 1, 2, 3]);
    assert_eq!(arrange(Some(&[Red, Green, Blue, Alpha])), [0, 1, 2, 3]);
    assert_eq!(arrange(Some(&[Alpha, Blue, Green, Red])), [3, 2, 1, 0]);
    assert_eq!(arrange(Some(&[Green, Red, Alpha, Blue])), [1, 0, 3, 2]);
    assert_eq!(arrange(Some(&[Blue, Blue, Red, Red])), [2, 3, 0, 1]);
    assert_eq!(arrange(Some(&[Green, Green, Green, Green])), [0, 1, 2, 3]);
    assert_eq!(arrange(Some(&[Alpha, Red, Alpha, Red])), [1, 3, 0, 2]);
}

#[test]
fn more_cells_than_pixels_are_an_overflow() {
    let channels = four();
    let small: MatrixImage<u8> = MatrixImageBuilder::init().with_height_and_width(1, 1).build();
    assert_eq!(
        DrawMultiChannel::draw_multi_channel(&small, &channels, None).err(),
        Some(MatrixError::Overflow)
    );
    let empty = MatrixImage::<u8>::default();
    assert_eq!(
        DrawMultiChannel::draw_multi_channel(&empty, &channels, None).err(),
        Some(MatrixError::Overflow)
    );
}

#[test]
fn pixels_without_cells_stay_zero() {
    let channels = four();
    let large: MatrixImage<u8> = MatrixImageBuilder::init().with_height_and_width(2, 3).build();
    let picture = DrawMultiChannel::draw_multi_channel(&large, &channels, None).unwrap();
    assert_eq!(
        picture.into_raw(),
        vec![
            10, 20, 30, 40, 11, 21, 31, 41, 12, 22, 32, 42, 13, 23, 33, 43, 0, 0, 0, 0, 0, 0, 0, 0
        ]
    );
}

#[test]
fn a_missing_colour_is_black_and_a_missing_alpha_is_opaque() {
    let cells = grid([10, 11, 12, 13]);
    let other = grid([30, 31, 32, 33]);
    let channels = [Some(cells.clone()), None, Some(other), None];
    let picture = Draw::draw_multi_channel(&cells, &channels, None).unwrap();
    assert_eq!(
        picture.into_raw(),
        vec![10, 0, 30, 255, 11, 0, 31, 255, 12, 0, 32, 255, 13, 0, 33, 255]
    );
    let labelled =
        Draw::draw_multi_channel(&cells, &channels, Some(&[Blue, Red, Green, Alpha])).unwrap();
    assert_eq!(
        labelled.into_raw(),
        vec![0, 30, 10, 255, 0, 31, 11, 255, 0, 32, 12, 255, 0, 33, 13, 255]
    );
}

#[test]
fn a_single_optional_grid_draws_nothing() {
    let cells = grid([10, 11, 12, 13]);
    let channels = [None, Some(cells.clone()), None, None];
    let picture = Draw::draw_multi_channel(&cells, &channels, None).unwrap();
    assert_eq!(picture.into_raw(), vec![0u8; 16]);
}

#[test]
fn a_bundle_is_drawn_as_one_picture() {
    let bundle = FourChannelMatrix::from(four()).unwrap();
    assert_eq!(
        bundle.multi_channel_image(None).unwrap().into_raw(),
        vec![10, 20, 30, 40, 11, 21, 31, 41, 12, 22, 32, 42, 13, 23, 33, 43]
    );
    assert_eq!(
        bundle.multi_channel_image(Some(&[Alpha, Blue, Green, Red])).unwrap().into_raw(),
        vec![40, 30, 20, 10, 41, 31, 21, 11, 42, 32, 22, 12, 43, 33, 23, 13]
    );
}

#[test]
fn layers_are_composed_up_to_the_length() {
    let cells = grid([10, 11, 12, 13]);
    let picture = compose(2, 2, [Some(&cells), None, None, Some(&cells)], 3).unwrap();
    assert_eq!(
        picture.into_raw(),
        vec![10, 0, 0, 10, 11, 0, 0, 11, 12, 0, 0, 12, 0, 0, 0, 0]
    );
    assert_eq!(
        compose(1, 2, [Some(&cells), None, None, None], 3).err(),
        Some(MatrixError::Overflow)
    );
}
