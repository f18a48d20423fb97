//! What holds of the topology indexer: positions and coordinates name the
//! same sites, steps along an axis can be undone, and neighbours alternate
//! in colour.

use crate::geometry::lattice_geometry::boundary_conditions::BoundaryConditions;
use crate::geometry::utils::{
    addressable,
    checkerboard_colour,
    coordinate_sum,
    lattice_coordinates,
    lattice_index,
    leaves_axis,
    neighbour,
    next_index,
    previous_index,
    site_count,
    stepped_backward,
    stepped_forward,
    valid_coordinates,
    Direction,
};
use vstd::arithmetic::div_mod::{
    lemma_fundamental_div_mod,
    lemma_fundamental_div_mod_converse,
    lemma_multiply_divide_lt,
    lemma_small_mod,
};
use vstd::arithmetic::mul::lemma_mul_is_commutative;
use vstd::arithmetic::power::{lemma_pow0, lemma_pow_increases, pow};
use vstd::prelude::*;

verus! {

/// A power with a positive exponent is the base times the next lower power.
pub proof fn lemma_pow_unfold(base: int, exponent: nat)
    requires
        exponent > 0,
    ensures
        pow(base, exponent) == base * pow(base, (exponent - 1) as nat),
{
    reveal(pow);
}

/// A step along an axis stays on the axis, and wraps only at its ends.
pub proof fn lemma_stepped_in_range(coordinate: usize, lattice_size: usize)
    requires
        coordinate < lattice_size,
    ensures
        stepped_forward(coordinate, lattice_size) == (if coordinate + 1 == lattice_size {
            0
        } else {
            coordinate + 1
        }),
        stepped_backward(coordinate, lattice_size) == (if coordinate == 0 {
            lattice_size - 1
        } else {
            coordinate - 1
        }),
        stepped_forward(coordinate, lattice_size) < lattice_size,
        stepped_backward(coordinate, lattice_size) < lattice_size,
{
    let size = lattice_size as int;
    if coordinate + 1 == lattice_size {
        assert(size % size == 0) by (nonlinear_arith)
            requires
                size > 0,
        ;
    } else {
        lemma_small_mod((coordinate + 1) as nat, lattice_size as nat);
    }
    if coordinate == 0 {
        lemma_small_mod((lattice_size - 1) as nat, lattice_size as nat);
    } else {
        let below = coordinate - 1;
        assert((below + size) % size == below) by (nonlinear_arith)
            requires
                0 <= below < size,
        ;
    }
}

/// A step forward and a step backward undo each other.
pub proof fn lemma_steps_cancel(coordinate: usize, lattice_size: usize)
    requires
        coordinate < lattice_size,
    ensures
        stepped_backward(stepped_forward(coordinate, lattice_size), lattice_size) == coordinate,
        stepped_forward(stepped_backward(coordinate, lattice_size), lattice_size) == coordinate,
{
    lemma_stepped_in_range(coordinate, lattice_size);
    lemma_stepped_in_range(stepped_forward(coordinate, lattice_size), lattice_size);
    lemma_stepped_in_range(stepped_backward(coordinate, lattice_size), lattice_size);
}

/// A position has as many coordinates as the lattice has axes, each on its axis.
pub proof fn lemma_coordinates_in_range(position: usize, lattice_size: usize, dimensions: nat)
    requires
        lattice_size >= 1,
    ensures
        lattice_coordinates(position, lattice_size, dimensions).len() == dimensions,
        valid_coordinates(lattice_coordinates(position, lattice_size, dimensions), lattice_size),
    decreases dimensions,
{
    if dimensions > 0 {
        lemma_coordinates_in_range(position / lattice_size, lattice_size, (dimensions - 1) as nat);
    }
}

/// Valid coordinates name a position of the lattice.
pub proof fn lemma_index_in_range(coordinates: Seq<usize>, lattice_size: usize)
    requires
        lattice_size >= 1,
        valid_coordinates(coordinates, lattice_size),
    ensures
        0 <= lattice_index(coordinates, lattice_size) < pow(
            lattice_size as int,
            coordinates.len(),
        ),
    decreases coordinates.len(),
{
    if coordinates.len() == 0 {
        lemma_pow0(lattice_size as int);
    } else {
        let rest = coordinates.drop_first();
        lemma_index_in_range(rest, lattice_size);
        lemma_pow_unfold(lattice_size as int, coordinates.len());
        let size = lattice_size as int;
        let inner = lattice_index(rest, lattice_size);
        let bound = pow(size, rest.len());
        assert(size * inner <= size * (bound - 1)) by (nonlinear_arith)
            requires
                size >= 1,
                0 <= inner <= bound - 1,
        ;
        assert(size * inner >= 0) by (nonlinear_arith)
            requires
                size >= 1,
                0 <= inner,
        ;
        assert(size * (bound - 1) == size * bound - size) by (nonlinear_arith);
    }
}

/// The coordinates of a position of the lattice name that position again.
pub proof fn lemma_position_round_trip(position: usize, lattice_size: usize, dimensions: usize)
    requires
        lattice_size >= 1,
        position < site_count(lattice_size, dimensions),
    ensures
        lattice_index(lattice_coordinates(position, lattice_size, dimensions as nat), lattice_size)
            == position,
{
    lemma_index_of_coordinates(position, lattice_size, dimensions as nat);
}

proof fn lemma_index_of_coordinates(position: usize, lattice_size: usize, dimensions: nat)
    requires
        lattice_size >= 1,
        position < pow(lattice_size as int, dimensions),
    ensures
        lattice_index(lattice_coordinates(position, lattice_size, dimensions), lattice_size)
            == position,
    decreases dimensions,
{
    let size = lattice_size as int;
    if dimensions == 0 {
        lemma_pow0(size);
    } else {
        let lower = (dimensions - 1) as nat;
        let quotient = position / lattice_size;
        let all = lattice_coordinates(position, lattice_size, dimensions);
        let rest = lattice_coordinates(quotient, lattice_size, lower);
        lemma_pow_unfold(size, dimensions);
        lemma_multiply_divide_lt(position as int, size, pow(size, lower));
        lemma_index_of_coordinates(quotient, lattice_size, lower);
        assert(all.drop_first() =~= rest);
        lemma_fundamental_div_mod(position as int, size);
    }
}

/// The position named by valid coordinates has those coordinates.
pub proof fn lemma_coordinates_round_trip(coordinates: Seq<usize>, lattice_size: usize)
    requires
        lattice_size >= 1,
        valid_coordinates(coordinates, lattice_size),
        pow(lattice_size as int, coordinates.len()) <= usize::MAX,
    ensures
        lattice_coordinates(
            lattice_index(coordinates, lattice_size) as usize,
            lattice_size,
            coordinates.len(),
        ) == coordinates,
    decreases coordinates.len(),
{
    if coordinates.len() > 0 {
        let size = lattice_size as int;
        let rest = coordinates.drop_first();
        lemma_pow_increases(lattice_size as nat, rest.len(), coordinates.len());
        lemma_coordinates_round_trip(rest, lattice_size);
        lemma_index_in_range(coordinates, lattice_size);
        let inner = lattice_index(rest, lattice_size);
        let whole = lattice_index(coordinates, lattice_size);
        lemma_mul_is_commutative(size, inner);
        lemma_fundamental_div_mod_converse(whole, size, inner, coordinates[0] as int);
        let back = lattice_coordinates(whole as usize, lattice_size, coordinates.len());
        assert(back =~= coordinates);
    }
}

/// A step along an axis lands on a position of the lattice whose
/// coordinates are those of the start, changed on that axis alone.
pub proof fn lemma_step_coordinates(
    position: usize,
    dimension: usize,
    lattice_size: usize,
    dimensions: usize,
)
    requires
        addressable(lattice_size, dimensions),
        dimension < dimensions,
    ensures
        0 <= next_index(position, dimension, lattice_size, dimensions) < site_count(
            lattice_size,
            dimensions,
        ),
        0 <= previous_index(position, dimension, lattice_size, dimensions) < site_count(
            lattice_size,
            dimensions,
        ),
        lattice_coordinates(
            next_index(position, dimension, lattice_size, dimensions) as usize,
            lattice_size,
            dimensions as nat,
        ) == lattice_coordinates(position, lattice_size, dimensions as nat).update(
            dimension as int,
            stepped_forward(
                lattice_coordinates(position, lattice_size, dimensions as nat)[dimension as int],
                lattice_size,
            ),
        ),
        lattice_coordinates(
            previous_index(position, dimension, lattice_size, dimensions) as usize,
            lattice_size,
            dimensions as nat,
        ) == lattice_coordinates(position, lattice_size, dimensions as nat).update(
            dimension as int,
            stepped_backward(
                lattice_coordinates(position, lattice_size, dimensions as nat)[dimension as int],
                lattice_size,
            ),
        ),
{
    let here = lattice_coordinates(position, lattice_size, dimensions as nat);
    lemma_coordinates_in_range(position, lattice_size, dimensions as nat);
    let forward = here.update(
        dimension as int,
        stepped_forward(here[dimension as int], lattice_size),
    );
    let backward = here.update(
        dimension as int,
        stepped_backward(here[dimension as int], lattice_size),
    );
    lemma_index_in_range(forward, lattice_size);
    lemma_index_in_range(backward, lattice_size);
    lemma_coordinates_round_trip(forward, lattice_size);
    lemma_coordinates_round_trip(backward, lattice_size);
}

/// On a periodic lattice a step forward followed by a step backward along
/// the same axis, or the other way round, returns to the start.
pub proof fn lemma_periodic_steps_return(
    position: usize,
    dimension: usize,
    lattice_size: usize,
    dimensions: usize,
)
    requires
        addressable(lattice_size, dimensions),
        position < site_count(lattice_size, dimensions),
        dimension < dimensions,
    ensures
        neighbour(
            neighbour(
                position,
                dimension,
                Direction::Forward,
                BoundaryConditions::Periodic,
                lattice_size,
                dimensions,
            )->0,
            dimension,
            Direction::Backward,
            BoundaryConditions::Periodic,
            lattice_size,
            dimensions,
        ) == Some(position),
        neighbour(
            neighbour(
                position,
                dimension,
                Direction::Backward,
                BoundaryConditions::Periodic,
                lattice_size,
                dimensions,
            )->0,
            dimension,
            Direction::Forward,
            BoundaryConditions::Periodic,
            lattice_size,
            dimensions,
        ) == Some(position),
{
    let here = lattice_coordinates(position, lattice_size, dimensions as nat);
    let axis = dimension as int;
    lemma_coordinates_in_range(position, lattice_size, dimensions as nat);
    lemma_step_coordinates(position, dimension, lattice_size, dimensions);
    lemma_steps_cancel(here[axis], lattice_size);
    lemma_position_round_trip(position, lattice_size, dimensions);
    let forward = here.update(axis, stepped_forward(here[axis], lattice_size));
    let backward = here.update(axis, stepped_backward(here[axis], lattice_size));
    assert(forward.update(axis, stepped_backward(forward[axis], lattice_size)) =~= here);
    assert(backward.update(axis, stepped_forward(backward[axis], lattice_size)) =~= here);
}

/// Links are mutual: a site is the forward neighbour of another along an
/// axis exactly where that other is its backward neighbour along the axis.
pub proof fn lemma_links_are_mutual(
    position: usize,
    other: usize,
    dimension: usize,
    boundary: BoundaryConditions,
    lattice_size: usize,
    dimensions: usize,
)
    requires
        addressable(lattice_size, dimensions),
        position < site_count(lattice_size, dimensions),
        other < site_count(lattice_size, dimensions),
        dimension < dimensions,
    ensures
        neighbour(position, dimension, Direction::Forward, boundary, lattice_size, dimensions)
            == Some(other) <==> neighbour(
            other,
            dimension,
            Direction::Backward,
            boundary,
            lattice_size,
            dimensions,
        ) == Some(position),
{
    let axis = dimension as int;
    let here = lattice_coordinates(position, lattice_size, dimensions as nat);
    let there = lattice_coordinates(other, lattice_size, dimensions as nat);
    lemma_coordinates_in_range(position, lattice_size, dimensions as nat);
    lemma_coordinates_in_range(other, lattice_size, dimensions as nat);
    lemma_step_coordinates(position, dimension, lattice_size, dimensions);
    lemma_step_coordinates(other, dimension, lattice_size, dimensions);
    lemma_stepped_in_range(here[axis], lattice_size);
    lemma_stepped_in_range(there[axis], lattice_size);
    lemma_position_round_trip(position, lattice_size, dimensions);
    lemma_position_round_trip(other, lattice_size, dimensions);
    if neighbour(position, dimension, Direction::Forward, boundary, lattice_size, dimensions)
        == Some(other) {
        let forward = here.update(axis, stepped_forward(here[axis], lattice_size));
        assert(forward.update(axis, stepped_backward(forward[axis], lattice_size)) =~= here);
    }
    if neighbour(other, dimension, Direction::Backward, boundary, lattice_size, dimensions)
        == Some(position) {
        let backward = there.update(axis, stepped_backward(there[axis], lattice_size));
        assert(backward.update(axis, stepped_forward(backward[axis], lattice_size)) =~= there);
    }
}

/// On an open lattice a site at the start of an axis has no backward
/// neighbour along it, and a site at the end of an axis has no forward
/// neighbour along it. Every other step has a neighbour, the one that the
/// periodic lattice gives.
pub proof fn lemma_open_boundary(
    position: usize,
    dimension: usize,
    direction: Direction,
    lattice_size: usize,
    dimensions: usize,
)
    requires
        addressable(lattice_size, dimensions),
        position < site_count(lattice_size, dimensions),
        dimension < dimensions,
    ensures
        lattice_coordinates(position, lattice_size, dimensions as nat)[dimension as int] == 0
            ==> neighbour(
            position,
            dimension,
            Direction::Backward,
            BoundaryConditions::Open,
            lattice_size,
            dimensions,
        ) is None,
        lattice_coordinates(position, lattice_size, dimensions as nat)[dimension as int]
            == lattice_size - 1 ==> neighbour(
            position,
            dimension,
            Direction::Forward,
            BoundaryConditions::Open,
            lattice_size,
            dimensions,
        ) is None,
        !leaves_axis(position, dimension, direction, lattice_size, dimensions) ==> neighbour(
            position,
            dimension,
            direction,
            BoundaryConditions::Open,
            lattice_size,
            dimensions,
        ) == neighbour(
            position,
            dimension,
            direction,
            BoundaryConditions::Periodic,
            lattice_size,
            dimensions,
        ),
{
}

/// The colour of a prefix of the coordinates changes with each odd coordinate.
pub proof fn lemma_colour_of_prefix(coordinates: Seq<usize>, k: int)
    requires
        0 <= k < coordinates.len(),
    ensures
        checkerboard_colour(coordinates.take(k + 1)) == (if coordinates[k] % 2 == 1 {
            !checkerboard_colour(coordinates.take(k))
        } else {
            checkerboard_colour(coordinates.take(k))
        }),
{
    assert(coordinates.take(k + 1).drop_last() =~= coordinates.take(k));
}

/// Changing one coordinate changes the sum of the coordinates by as much.
pub proof fn lemma_sum_of_update(coordinates: Seq<usize>, axis: int, coordinate: usize)
    requires
        0 <= axis < coordinates.len(),
    ensures
        coordinate_sum(coordinates.update(axis, coordinate)) == coordinate_sum(coordinates)
            - coordinates[axis] + coordinate,
    decreases coordinates.len(),
{
    let changed = coordinates.update(axis, coordinate);
    if axis == coordinates.len() - 1 {
        assert(changed.drop_last() =~= coordinates.drop_last());
    } else {
        lemma_sum_of_update(coordinates.drop_last(), axis, coordinate);
        assert(changed.drop_last() =~= coordinates.drop_last().update(axis, coordinate));
    }
}

/// Neighbours differ in colour. This holds of every step that stays on its
/// axis, and of a step that wraps around when the axis has an even number
/// of sites. A step that wraps around an axis with an odd number of sites
/// joins two sites of one colour.
pub proof fn lemma_neighbours_differ_in_colour(
    position: usize,
    dimension: usize,
    direction: Direction,
    boundary: BoundaryConditions,
    lattice_size: usize,
    dimensions: usize,
)
    requires
        addressable(lattice_size, dimensions),
        position < site_count(lattice_size, dimensions),
        dimension < dimensions,
        neighbour(position, dimension, direction, boundary, lattice_size, dimensions) is Some,
    ensures
        lattice_size % 2 == 0 || !leaves_axis(
            position,
            dimension,
            direction,
            lattice_size,
            dimensions,
        ) ==> checkerboard_colour(
            lattice_coordinates(
                neighbour(position, dimension, direction, boundary, lattice_size, dimensions)->0,
                lattice_size,
                dimensions as nat,
            ),
        ) != checkerboard_colour(lattice_coordinates(position, lattice_size, dimensions as nat)),
        lattice_size % 2 == 1 && leaves_axis(
            position,
            dimension,
            direction,
            lattice_size,
            dimensions,
        ) ==> checkerboard_colour(
            lattice_coordinates(
                neighbour(position, dimension, direction, boundary, lattice_size, dimensions)->0,
                lattice_size,
                dimensions as nat,
            ),
        ) == checkerboard_colour(lattice_coordinates(position, lattice_size, dimensions as nat)),
{
    let here = lattice_coordinates(position, lattice_size, dimensions as nat);
    let axis = dimension as int;
    lemma_coordinates_in_range(position, lattice_size, dimensions as nat);
    lemma_step_coordinates(position, dimension, lattice_size, dimensions);
    lemma_stepped_in_range(here[axis], lattice_size);
    lemma_sum_of_update(here, axis, stepped_forward(here[axis], lattice_size));
    lemma_sum_of_update(here, axis, stepped_backward(here[axis], lattice_size));
}

} // verus!
