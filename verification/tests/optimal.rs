use matrix_graph::traits::optimal::{last_maximum, last_maximum_value};
use matrix_graph::traits::{Matrix, Optimal};
use matrix_graph::{MatrixImage, MatrixImageBuilder, Neighborhood};

fn flat_grid() -> MatrixImage<u32> {
    MatrixImageBuilder::<u32>::init()
        .with_initial_value(1)
        .with_height_and_width(5, 5)
        .build()
}

fn value_of_the_neighbor(grid: &MatrixImage<u32>, _point: (u32, u32), neighbor: (u32, u32)) -> u32 {
    grid.get_point_value(neighbor).unwrap()
}

#[test]
fn the_greatest_value_wins() {
    let mut grid = flat_grid();
    grid.edit_point((1, 2), 9).unwrap();
    let best = grid.optimal_peer((2, 2), 1, Neighborhood::VonNeumann, value_of_the_neighbor);
    assert_eq!(best, Some(((1, 2), 9)));
}

#[test]
fn of_two_neighbors_tied_at_the_maximum_the_last_wins() {
    let mut grid = flat_grid();
    grid.edit_point((2, 1), 9).unwrap();
    grid.edit_point((3, 2), 9).unwrap();
    let hood = grid.get_lattice_neighborhood((2, 2), 1, Neighborhood::VonNeumann);
    assert_eq!(hood.first(), Some(&(2, 1)));
    assert_eq!(hood.last(), Some(&(3, 2)));
    let best = grid.optimal_peer((2, 2), 1, Neighborhood::VonNeumann, value_of_the_neighbor);
    assert_eq!(best, Some(((3, 2), 9)));
    grid.edit_point((3, 2), 1).unwrap();
    grid.edit_point((2, 3), 9).unwrap();
    let best = grid.optimal_peer((2, 2), 1, Neighborhood::VonNeumann, value_of_the_neighbor);
    assert_eq!(best, Some(((2, 3), 9)));
}

#[test]
fn on_a_flat_grid_the_last_neighbor_wins() {
    let grid = flat_grid();
    let best = grid.optimal_peer((0, 0), 1, Neighborhood::Moore, value_of_the_neighbor);
    assert_eq!(best, Some(((1, 1), 1)));
}

#[test]
fn the_payload_of_the_winner_is_handed_out() {
    let mut grid = flat_grid();
    grid.edit_point((2, 3), 7).unwrap();
    let best = grid.optimal_peer_internal_values(
        (2, 2),
        1,
        Neighborhood::VonNeumann,
        |lattice: &MatrixImage<u32>, _point: (u32, u32), neighbor: (u32, u32)| {
            (lattice.get_point_value(neighbor).unwrap(), neighbor.0 + 10 * neighbor.1)
        },
    );
    assert_eq!(best, Some(((2, 3), (7, 32))));
}

#[test]
fn the_coefficients_reach_the_objective() {
    let grid = flat_grid();
    let best = grid.optimal_peer_with_coefficients(
        (2, 2),
        1,
        Neighborhood::VonNeumann,
        |_lattice: &MatrixImage<u32>, _point: (u32, u32), neighbor: (u32, u32), weight: u32| {
            if neighbor == (1, 2) {
                weight
            } else {
                0
            }
        },
        5,
    );
    assert_eq!(best, Some(((1, 2), 5)));
}

#[test]
fn the_objective_may_change_the_coefficients() {
    let grid = flat_grid();
    let mut calls: u32 = 0;
    let best = grid.optimal_peer_internal_values_with_coefficients(
        (2, 2),
        1,
        Neighborhood::VonNeumann,
        |_lattice: &MatrixImage<u32>, _point: (u32, u32), _neighbor: (u32, u32), seen: &mut u32| {
            *seen += 1;
            (10 - *seen, *seen)
        },
        &mut calls,
    );
    assert_eq!(calls, 5);
    assert_eq!(best, Some(((2, 1), (9, 1))));
}

#[test]
fn a_hood_handed_in_is_searched_as_it_stands() {
    let grid = flat_grid();
    let mut calls: u32 = 0;
    let objective =
        |_lattice: &MatrixImage<u32>, _point: (u32, u32), neighbor: (u32, u32), seen: &mut u32| {
            *seen += 1;
            (neighbor.0, neighbor.1)
        };
    let best = grid.optimal_peer_internal_values_with_coefficients_and_hood(
        (0, 0),
        vec![(4, 0), (1, 1), (4, 3), (2, 2)],
        objective,
        &mut calls,
    );
    assert_eq!(calls, 4);
    assert_eq!(best, Some(((4, 3), (4, 3))));
    let none = grid.optimal_peer_internal_values_with_coefficients_and_hood(
        (0, 0),
        Vec::new(),
        objective,
        &mut calls,
    );
    assert_eq!(none, None);
}

#[test]
fn the_scan_returns_the_last_maximum() {
    assert_eq!(last_maximum::<u32, char>(Vec::new()), None);
    let candidates = vec![
        ((0, 0), (3u32, 'a')),
        ((1, 0), (8, 'b')),
        ((2, 0), (8, 'c')),
        ((3, 0), (2, 'd')),
    ];
    assert_eq!(last_maximum(candidates), Some(((2, 0), (8, 'c'))));
    let signed = vec![((0, 0), (-3i32, ())), ((1, 0), (-8, ())), ((2, 0), (-3, ()))];
    assert_eq!(last_maximum_value(signed), Some(((2, 0), -3)));
}

#[test]
fn a_counting_objective_is_called_once_for_each_neighbor_in_order() {
    let grid: MatrixImage<u32> = MatrixImageBuilder::init().with_height_and_width(5, 5).build();
    let mut c = 0u32;
    let best = grid.optimal_peer_internal_values_with_coefficients(
        (2, 2),
        1,
        Neighborhood::VonNeumann,
        |_lattice: &MatrixImage<u32>, _point: (u32, u32), _neighbor: (u32, u32), c: &mut u32| {
            *c += 1;
            (*c, *c * 10)
        },
        &mut c,
    );
    assert_eq!(best, Some(((3, 2), (5, 50))));
    assert_eq!(c, 5);
}

#[test]
fn an_empty_hood_leaves_the_coefficients() {
    let grid = flat_grid();
    let mut c = 7u32;
    let best = grid.optimal_peer_internal_values_with_coefficients_and_hood(
        (0, 0),
        Vec::new(),
        |_lattice: &MatrixImage<u32>, _point: (u32, u32), _neighbor: (u32, u32), c: &mut u32| {
            *c += 1;
            (*c, ())
        },
        &mut c,
    );
    assert_eq!(best, None);
    assert_eq!(c, 7);
}
