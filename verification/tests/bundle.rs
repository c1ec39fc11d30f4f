use matrix_graph::error::MatrixError;
use matrix_graph::four_channel::FourChannelMatrix;
use matrix_graph::traits::{Matrix, Optimal};
use matrix_graph::{MatrixImage, MatrixImageBuilder, Neighborhood};

fn filled(height: usize, width: usize, value: u8) -> MatrixImage<u8> {
    MatrixImageBuilder::<u8>::init()
        .with_initial_value(value)
        .with_height_and_width(height, width)
        .build()
}

fn bundle() -> FourChannelMatrix<u8> {
    FourChannelMatrix::from([filled(2, 3, 0), filled(2, 3, 1), filled(2, 3, 2), filled(2, 3, 3)])
        .unwrap()
}

#[test]
fn four_grids_of_one_shape_make_a_bundle() {
    let bundle = bundle();
    assert_eq!(*bundle.get_height(), 2);
    assert_eq!(*bundle.get_width(), 3);
    assert_eq!(bundle.get_data_ref()[2], filled(2, 3, 2));
    let grids = bundle.get_data();
    assert_eq!(grids[0], filled(2, 3, 0));
    assert_eq!(grids[3], filled(2, 3, 3));
}

#[test]
fn four_grids_of_different_widths_are_a_shape_mismatch() {
    let mixed = FourChannelMatrix::from([
        filled(2, 3, 0),
        filled(2, 4, 0),
        filled(2, 5, 0),
        filled(2, 6, 0),
    ]);
    assert_eq!(mixed.err(), Some(MatrixError::ShapeMismatch));
}

#[test]
fn one_grid_of_another_shape_is_a_shape_mismatch() {
    let taller =
        FourChannelMatrix::from([filled(2, 3, 0), filled(2, 3, 0), filled(2, 3, 0), filled(3, 3, 0)]);
    assert_eq!(taller.err(), Some(MatrixError::ShapeMismatch));
    let turned =
        FourChannelMatrix::from([filled(2, 3, 0), filled(3, 2, 0), filled(2, 3, 0), filled(2, 3, 0)]);
    assert_eq!(turned.err(), Some(MatrixError::ShapeMismatch));
}

#[test]
fn an_identity_rule_leaves_all_four_channels_unchanged() {
    let mut bundle = bundle();
    let before = bundle.clone();
    let next = bundle.update_rule(|current: &FourChannelMatrix<u8>| current.clone());
    assert_eq!(bundle, before);
    assert_eq!(next, before);
}

#[test]
fn a_rule_replaces_the_four_grids_as_one() {
    let mut bundle = bundle();
    let next = bundle.update_rule(|current: &FourChannelMatrix<u8>| {
        let mut made = current.clone();
        for grid in made.get_data_mut_ref() {
            grid.edit_point((1, 1), 9).unwrap();
        }
        made
    });
    for channel in 0..4usize {
        assert_eq!(bundle.get_data_ref()[channel].get_point_value((1, 1)), Ok(9));
        assert_eq!(
            bundle.get_data_ref()[channel].get_point_value((0, 0)),
            Ok(channel as u8)
        );
    }
    assert_eq!(next, bundle);
}

#[test]
fn a_rule_takes_its_coefficients() {
    let mut bundle = bundle();
    let next = bundle.update_rule_with_coefficients(
        |current: &FourChannelMatrix<u8>, value: u8| {
            let mut made = current.clone();
            made.get_data_mut_ref()[2].edit_point((0, 0), value).unwrap();
            made
        },
        77,
    );
    assert_eq!(bundle.get_data_ref()[2].get_point_value((0, 0)), Ok(77));
    assert_eq!(bundle.get_data_ref()[1].get_point_value((0, 0)), Ok(1));
    assert_eq!(next, bundle);
}

#[test]
fn as_normals_multiplies_every_cell_by_the_largest_value() {
    let bits =
        FourChannelMatrix::from([filled(2, 3, 0), filled(2, 3, 1), filled(2, 3, 1), filled(2, 3, 0)])
            .unwrap();
    let scaled = bits.as_normals();
    assert_eq!(*scaled.get_height(), 2);
    assert_eq!(*scaled.get_width(), 3);
    assert_eq!(scaled.get_data_ref()[0], filled(2, 3, 0));
    assert_eq!(scaled.get_data_ref()[1], filled(2, 3, 255));
    assert_eq!(scaled.get_data_ref()[2], filled(2, 3, 255));
    assert_eq!(scaled.get_data_ref()[3], filled(2, 3, 0));
}

#[test]
fn the_bundle_checks_points_against_its_sides() {
    let bundle = bundle();
    assert_eq!(bundle.check_point_bounds((2, 1)), Ok(true));
    assert_eq!(bundle.check_point_bounds((3, 1)), Err(MatrixError::Overflow));
    assert_eq!(bundle.check_point_bounds((0, 2)), Err(MatrixError::Overflow));
    assert_eq!(bundle.into_2d_point(4), Ok((1, 1)));
    assert_eq!(bundle.into_2d_point(6), Err(MatrixError::Overflow));
    assert_eq!(FourChannelMatrix::<u8>::default().into_2d_point(0), Err(MatrixError::Overflow));
}

#[test]
fn the_best_peer_of_a_bundle_is_searched_on_its_first_channel() {
    let mut bundle = bundle();
    bundle.get_data_mut_ref()[1].edit_point((2, 0), 200).unwrap();
    bundle.get_data_mut_ref()[1].edit_point((0, 1), 200).unwrap();
    let best = bundle.optimal_peer(
        (0, 0),
        1,
        Neighborhood::Moore,
        |current: &FourChannelMatrix<u8>, _point: (u32, u32), neighbor: (u32, u32)| {
            current.get_data_ref()[1].get_point_value(neighbor).unwrap()
        },
    );
    let hood = bundle.get_data_ref()[0].get_lattice_neighborhood((0, 0), 1, Neighborhood::Moore);
    let first = hood.iter().rposition(|p| *p == (2, 0)).unwrap();
    let second = hood.iter().rposition(|p| *p == (0, 1)).unwrap();
    assert!(first < second);
    assert_eq!(best, Some(((0, 1), 200)));
    let with_payload = bundle.optimal_peer_internal_values(
        (0, 0),
        1,
        Neighborhood::Moore,
        |_current: &FourChannelMatrix<u8>, _point: (u32, u32), neighbor: (u32, u32)| {
            ((neighbor.0 * 3 + neighbor.1) as u8, neighbor)
        },
    );
    assert_eq!(with_payload, Some(((2, 1), (7, (2, 1)))));
}
