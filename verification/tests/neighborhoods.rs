use matrix_graph::hood::{lattice_neighborhood, moore_neighborhood, von_neumann_neighborhood};
use matrix_graph::{MatrixImage, MatrixImageBuilder, Neighborhood};

fn grid(height: usize, width: usize) -> MatrixImage<u32> {
    MatrixImageBuilder::<u32>::init().with_height_and_width(height, width).build()
}

fn has_duplicates(points: &[(u32, u32)]) -> bool {
    let mut sorted = points.to_vec();
    sorted.sort();
    sorted.windows(2).any(|pair| pair[0] == pair[1])
}

#[test]
fn von_neumann_radius_one_around_the_centre() {
    let hood = grid(5, 5).get_lattice_neighborhood((2, 2), 1, Neighborhood::VonNeumann);
    assert_eq!(hood, vec![(2, 1), (2, 3), (1, 2), (2, 2), (3, 2)]);
}

#[test]
fn von_neumann_radius_one_wraps_at_the_corner() {
    let hood = grid(5, 5).get_lattice_neighborhood((0, 0), 1, Neighborhood::VonNeumann);
    assert_eq!(hood, vec![(0, 4), (0, 1), (4, 0), (0, 0), (1, 0)]);
    assert!(!has_duplicates(&hood));
}

#[test]
fn von_neumann_radius_two_sweeps_row_pairs_from_the_outside_in() {
    let hood = grid(7, 7).get_lattice_neighborhood((3, 3), 2, Neighborhood::VonNeumann);
    assert_eq!(
        hood,
        vec![
            (3, 1),
            (3, 5),
            (2, 2),
            (2, 4),
            (3, 2),
            (3, 4),
            (4, 2),
            (4, 4),
            (1, 3),
            (2, 3),
            (3, 3),
            (4, 3),
            (5, 3)
        ]
    );
}

#[test]
fn moore_radius_one_wraps_at_the_corner() {
    let hood = grid(5, 5).get_lattice_neighborhood((0, 0), 1, Neighborhood::Moore);
    assert_eq!(
        hood,
        vec![(4, 4), (0, 4), (1, 4), (4, 0), (0, 0), (1, 0), (4, 1), (0, 1), (1, 1)]
    );
}

#[test]
fn radius_zero_is_the_centre_alone() {
    let lattice = grid(3, 4);
    assert_eq!(lattice.get_lattice_neighborhood((3, 2), 0, Neighborhood::Moore), vec![(3, 2)]);
    assert_eq!(
        lattice.get_lattice_neighborhood((3, 2), 0, Neighborhood::VonNeumann),
        vec![(3, 2)]
    );
}

#[test]
fn a_centre_off_the_grid_is_wrapped_onto_it() {
    let hood = grid(3, 4).get_lattice_neighborhood((9, 10), 0, Neighborhood::Moore);
    assert_eq!(hood, vec![(1, 1)]);
}

#[test]
fn every_point_lies_on_the_grid_whatever_the_radius() {
    for (height, width) in [(1usize, 1usize), (2, 3), (5, 5), (4, 7)] {
        let lattice = grid(height, width);
        for radius in 0..9usize {
            for shape in [Neighborhood::VonNeumann, Neighborhood::Moore] {
                for center in [(0u32, 0u32), (6, 3), (100, 200), (u32::MAX, u32::MAX)] {
                    let hood = lattice.get_lattice_neighborhood(center, radius, shape);
                    assert!(hood
                        .iter()
                        .all(|p| (p.0 as usize) < width && (p.1 as usize) < height));
                }
            }
        }
    }
}

#[test]
fn no_point_occurs_twice_while_the_neighborhood_fits() {
    let lattice = grid(9, 11);
    for radius in 0..=4usize {
        for center in [(0u32, 0u32), (10, 8), (5, 4)] {
            let moore = lattice.get_lattice_neighborhood(center, radius, Neighborhood::Moore);
            assert_eq!(moore.len(), (2 * radius + 1) * (2 * radius + 1));
            assert!(!has_duplicates(&moore));
            let diamond = lattice.get_lattice_neighborhood(center, radius, Neighborhood::VonNeumann);
            assert_eq!(diamond.len(), radius * radius + (radius + 1) * (radius + 1));
            assert!(!has_duplicates(&diamond));
        }
    }
}

#[test]
fn a_diamond_as_tall_as_twice_its_radius_still_holds_no_point_twice() {
    let hood = grid(2, 3).get_lattice_neighborhood((1, 0), 1, Neighborhood::VonNeumann);
    assert_eq!(hood, vec![(1, 1), (0, 0), (1, 0), (2, 0)]);
    assert!(!has_duplicates(&hood));
}

#[test]
fn a_neighborhood_wider_than_the_grid_repeats_points() {
    let moore = grid(5, 5).get_lattice_neighborhood((2, 2), 3, Neighborhood::Moore);
    assert_eq!(moore.len(), 49);
    assert!(has_duplicates(&moore));
    let diamond = grid(5, 2).get_lattice_neighborhood((0, 2), 1, Neighborhood::VonNeumann);
    assert!(has_duplicates(&diamond));
}

#[test]
fn the_diamond_holds_every_offset_within_the_radius() {
    let hood = grid(9, 9).get_lattice_neighborhood((4, 4), 3, Neighborhood::VonNeumann);
    for dx in -3i64..=3 {
        for dy in -3i64..=3 {
            let inside = dx.abs() + dy.abs() <= 3;
            let point = ((4 + dx) as u32, (4 + dy) as u32);
            assert_eq!(hood.contains(&point), inside);
        }
    }
}

#[test]
fn the_same_arguments_give_the_same_order() {
    let lattice = grid(6, 8);
    let first = lattice.get_lattice_neighborhood((7, 5), 2, Neighborhood::VonNeumann);
    let second = lattice.get_lattice_neighborhood((7, 5), 2, Neighborhood::VonNeumann);
    assert_eq!(first, second);
}

#[test]
fn the_free_generators_agree_with_the_grid() {
    let lattice = grid(4, 6);
    assert_eq!(
        lattice_neighborhood((5, 3), 2, Neighborhood::Moore, 6, 4),
        lattice.get_lattice_neighborhood((5, 3), 2, Neighborhood::Moore)
    );
    assert_eq!(
        moore_neighborhood((5, 3), 1, 6, 4),
        lattice.get_lattice_neighborhood((5, 3), 1, Neighborhood::Moore)
    );
    assert_eq!(
        von_neumann_neighborhood((5, 3), 1, 6, 4),
        lattice.get_lattice_neighborhood((5, 3), 1, Neighborhood::VonNeumann)
    );
}

#[test]
fn length_is_the_estimate_of_each_shape() {
    assert_eq!(Neighborhood::VonNeumann.length(0), 1);
    assert_eq!(Neighborhood::VonNeumann.length(1), 5);
    assert_eq!(Neighborhood::VonNeumann.length(4), 41);
    assert_eq!(Neighborhood::Moore.length(0), 0);
    assert_eq!(Neighborhood::Moore.length(1), 2);
    assert_eq!(Neighborhood::Moore.length(4), 80);
}

#[test]
fn points_repeat_exactly_where_the_neighborhood_wraps_onto_itself() {
    for height in 1..=7usize {
        for width in 1..=7usize {
            let lattice = grid(height, width);
            for radius in 0..=4usize {
                for center in [(0u32, 0u32), (3, 5)] {
                    let moore = lattice.get_lattice_neighborhood(center, radius, Neighborhood::Moore);
                    let block_fits = 2 * radius + 1 <= width && 2 * radius + 1 <= height;
                    assert_eq!(has_duplicates(&moore), !block_fits);
                    let diamond =
                        lattice.get_lattice_neighborhood(center, radius, Neighborhood::VonNeumann);
                    let diamond_fits =
                        radius == 0 || (2 * radius + 1 <= width && 2 * radius <= height);
                    assert_eq!(has_duplicates(&diamond), !diamond_fits);
                }
            }
        }
    }
}
