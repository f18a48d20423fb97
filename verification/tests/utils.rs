use ising_montecarlo::geometry::lattice_geometry::boundary_conditions::BoundaryConditions;
use ising_montecarlo::geometry::utils::{
    chessboard, lattice_to_position, neighbour_position, next_position, position_to_lattice,
    previous_position, Direction,
};

const LATTICE_SIZE: usize = 4;
const DIMENSIONS: usize = 3;

#[test]
fn test_next_position() {
    assert_eq!(next_position(0, 0, LATTICE_SIZE, DIMENSIONS), 1);
    assert_eq!(next_position(16, 2, LATTICE_SIZE, DIMENSIONS), 32);
    assert_eq!(next_position(31, 1, LATTICE_SIZE, DIMENSIONS), 19);
}

#[test]
fn test_previous_position() {
    assert_eq!(previous_position(0, 0, LATTICE_SIZE, DIMENSIONS), 3);
    assert_eq!(previous_position(16, 2, LATTICE_SIZE, DIMENSIONS), 0);
    assert_eq!(previous_position(31, 1, LATTICE_SIZE, DIMENSIONS), 27);
}

#[test]
fn test_position_to_lattice() {
    assert_eq!(position_to_lattice(12, LATTICE_SIZE, DIMENSIONS), [0, 3, 0]);
    assert_eq!(position_to_lattice(1, LATTICE_SIZE, DIMENSIONS), [1, 0, 0]);
    assert_eq!(position_to_lattice(32, LATTICE_SIZE, DIMENSIONS), [0, 0, 2]);
}

#[test]
fn test_chessboard() {
    assert_eq!(chessboard(&[0, 0, 0]), true);
    assert_eq!(chessboard(&[0, 0, 1]), false);
    assert_eq!(chessboard(&[0, 1, 0]), false);
    assert_eq!(chessboard(&[0, 1, 1]), true);
}

#[test]
fn test_lattice_to_position() {
    assert_eq!(lattice_to_position(&[0, 3, 0], LATTICE_SIZE), 12);
    assert_eq!(lattice_to_position(&[1, 0, 0], LATTICE_SIZE), 1);
    assert_eq!(lattice_to_position(&[0, 0, 2], LATTICE_SIZE), 32);
    assert_eq!(lattice_to_position(&[3, 3, 3], LATTICE_SIZE), 63);
    assert_eq!(lattice_to_position(&[2, 1], 3), 5);
    assert_eq!(lattice_to_position(&[], 7), 0);
}

#[test]
fn test_position_round_trip() {
    for (lattice_size, dimensions) in [(4, 3), (3, 2), (1, 4), (5, 1), (2, 5)] {
        let count = usize::pow(lattice_size, dimensions as u32);
        for position in 0..count {
            let coordinates = position_to_lattice(position, lattice_size, dimensions);
            assert_eq!(coordinates.len(), dimensions);
            assert!(coordinates.iter().all(|coordinate| *coordinate < lattice_size));
            assert_eq!(lattice_to_position(&coordinates, lattice_size), position);
        }
    }
}

#[test]
fn test_position_to_lattice_without_axes() {
    assert_eq!(position_to_lattice(5, 4, 0), Vec::<usize>::new());
}

#[test]
fn test_periodic_neighbour_symmetry() {
    for (lattice_size, dimensions) in [(4, 3), (3, 2), (1, 2), (2, 3)] {
        let count = usize::pow(lattice_size, dimensions as u32);
        for position in 0..count {
            for dimension in 0..dimensions {
                let forward = neighbour_position(
                    position,
                    dimension,
                    Direction::Forward,
                    BoundaryConditions::Periodic,
                    lattice_size,
                    dimensions,
                )
                .unwrap();
                assert_eq!(forward, next_position(position, dimension, lattice_size, dimensions));
                assert_eq!(
                    neighbour_position(
                        forward,
                        dimension,
                        Direction::Backward,
                        BoundaryConditions::Periodic,
                        lattice_size,
                        dimensions,
                    ),
                    Some(position)
                );
                let backward = neighbour_position(
                    position,
                    dimension,
                    Direction::Backward,
                    BoundaryConditions::Periodic,
                    lattice_size,
                    dimensions,
                )
                .unwrap();
                assert_eq!(
                    backward,
                    previous_position(position, dimension, lattice_size, dimensions)
                );
                assert_eq!(
                    neighbour_position(
                        backward,
                        dimension,
                        Direction::Forward,
                        BoundaryConditions::Periodic,
                        lattice_size,
                        dimensions,
                    ),
                    Some(position)
                );
            }
        }
    }
}

#[test]
fn test_open_boundary_absence() {
    for (lattice_size, dimensions) in [(4, 3), (3, 2), (1, 2)] {
        let count = usize::pow(lattice_size, dimensions as u32);
        for position in 0..count {
            let coordinates = position_to_lattice(position, lattice_size, dimensions);
            for dimension in 0..dimensions {
                let forward = neighbour_position(
                    position,
                    dimension,
                    Direction::Forward,
                    BoundaryConditions::Open,
                    lattice_size,
                    dimensions,
                );
                let backward = neighbour_position(
                    position,
                    dimension,
                    Direction::Backward,
                    BoundaryConditions::Open,
                    lattice_size,
                    dimensions,
                );
                if coordinates[dimension] == lattice_size - 1 {
                    assert_eq!(forward, None);
                } else {
                    assert_eq!(
                        forward,
                        Some(next_position(position, dimension, lattice_size, dimensions))
                    );
                }
                if coordinates[dimension] == 0 {
                    assert_eq!(backward, None);
                } else {
                    assert_eq!(
                        backward,
                        Some(previous_position(position, dimension, lattice_size, dimensions))
                    );
                }
            }
        }
    }
}

#[test]
fn test_open_neighbours_named() {
    assert_eq!(
        neighbour_position(0, 0, Direction::Backward, BoundaryConditions::Open, 4, 3),
        None
    );
    assert_eq!(
        neighbour_position(63, 0, Direction::Forward, BoundaryConditions::Open, 4, 3),
        None
    );
    assert_eq!(
        neighbour_position(63, 0, Direction::Forward, BoundaryConditions::Periodic, 4, 3),
        Some(60)
    );
    assert_eq!(
        neighbour_position(0, 0, Direction::Forward, BoundaryConditions::Open, 4, 3),
        Some(1)
    );
    assert_eq!(
        neighbour_position(5, 1, Direction::Backward, BoundaryConditions::Open, 4, 3),
        Some(1)
    );
}

#[test]
fn test_neighbours_differ_in_colour() {
    for (lattice_size, dimensions, boundary) in [
        (4, 3, BoundaryConditions::Periodic),
        (2, 2, BoundaryConditions::Periodic),
        (3, 3, BoundaryConditions::Open),
        (4, 2, BoundaryConditions::Open),
    ] {
        let count = usize::pow(lattice_size, dimensions as u32);
        for position in 0..count {
            let colour = chessboard(&position_to_lattice(position, lattice_size, dimensions));
            for dimension in 0..dimensions {
                for direction in [Direction::Forward, Direction::Backward] {
                    if let Some(other) = neighbour_position(
                        position,
                        dimension,
                        direction,
                        boundary,
                        lattice_size,
                        dimensions,
                    ) {
                        let other_colour =
                            chessboard(&position_to_lattice(other, lattice_size, dimensions));
                        assert_ne!(colour, other_colour);
                    }
                }
            }
        }
    }
}

#[test]
fn test_odd_periodic_axis_joins_one_colour() {
    let end = neighbour_position(2, 0, Direction::Forward, BoundaryConditions::Periodic, 3, 1);
    assert_eq!(end, Some(0));
    assert_eq!(chessboard(&position_to_lattice(2, 3, 1)), true);
    assert_eq!(chessboard(&position_to_lattice(0, 3, 1)), true);
}

#[test]
fn test_chessboard_edge_cases() {
    assert_eq!(chessboard(&[]), true);
    assert_eq!(chessboard(&[usize::MAX, usize::MAX]), true);
    assert_eq!(chessboard(&[usize::MAX, usize::MAX, 1]), false);
}
