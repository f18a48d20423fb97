//! The topology indexer: linear positions, lattice coordinates, nearest
//! neighbours and the checkerboard colouring.
//!
//! A lattice has `dimensions` axes of `lattice_size` sites each. A site is
//! named either by its position, a number below `lattice_size` to the power
//! `dimensions`, or by its coordinates, the digits of the position in base
//! `lattice_size` with the least significant digit first.

use crate::geometry::lattice_geometry::boundary_conditions::BoundaryConditions;
use crate::geometry::topology::{
    lemma_colour_of_prefix,
    lemma_coordinates_in_range,
    lemma_index_in_range,
    lemma_stepped_in_range,
};
use vstd::arithmetic::power::pow;
use vstd::prelude::*;

verus! {

/// The two ways to walk along an axis.
#[derive(Clone, Copy, Debug, PartialEq, Eq, Structural)]
pub enum Direction {
    Forward,
    Backward,
}

/// The number of sites of the lattice.
pub open spec fn site_count(lattice_size: usize, dimensions: usize) -> int {
    pow(lattice_size as int, dimensions as nat)
}

/// The lattice is not empty and every position fits in a `usize`.
pub open spec fn addressable(lattice_size: usize, dimensions: usize) -> bool {
    lattice_size >= 1 && site_count(lattice_size, dimensions) <= usize::MAX
}

/// The coordinates of a position: repeated remainder and quotient by
/// `lattice_size`, `dimensions` times.
pub open spec fn lattice_coordinates(
    position: usize,
    lattice_size: usize,
    dimensions: nat,
) -> Seq<usize>
    decreases dimensions,
{
    if dimensions == 0 {
        Seq::empty()
    } else {
        seq![position % lattice_size] + lattice_coordinates(
            position / lattice_size,
            lattice_size,
            (dimensions - 1) as nat,
        )
    }
}

/// Every coordinate lies on the axis.
pub open spec fn valid_coordinates(coordinates: Seq<usize>, lattice_size: usize) -> bool {
    forall|k: int| 0 <= k < coordinates.len() ==> #[trigger] coordinates[k] < lattice_size
}

/// The position with the given coordinates: the sum over the axes of the
/// coordinate times `lattice_size` to the power of the axis.
pub open spec fn lattice_index(coordinates: Seq<usize>, lattice_size: usize) -> int
    decreases coordinates.len(),
{
    if coordinates.len() == 0 {
        0
    } else {
        coordinates[0] + lattice_size * lattice_index(coordinates.drop_first(), lattice_size)
    }
}

/// One step forward along an axis, wrapping at the end.
pub open spec fn stepped_forward(coordinate: usize, lattice_size: usize) -> usize {
    ((coordinate + 1) % (lattice_size as int)) as usize
}

/// One step backward along an axis, wrapping at the start.
pub open spec fn stepped_backward(coordinate: usize, lattice_size: usize) -> usize {
    ((coordinate + lattice_size - 1) % (lattice_size as int)) as usize
}

/// The position one step forward along `dimension`, with wrap-around.
pub open spec fn next_index(
    position: usize,
    dimension: usize,
    lattice_size: usize,
    dimensions: usize,
) -> int {
    let here = lattice_coordinates(position, lattice_size, dimensions as nat);
    lattice_index(
        here.update(dimension as int, stepped_forward(here[dimension as int], lattice_size)),
        lattice_size,
    )
}

/// The position one step backward along `dimension`, with wrap-around.
pub open spec fn previous_index(
    position: usize,
    dimension: usize,
    lattice_size: usize,
    dimensions: usize,
) -> int {
    let here = lattice_coordinates(position, lattice_size, dimensions as nat);
    lattice_index(
        here.update(dimension as int, stepped_backward(here[dimension as int], lattice_size)),
        lattice_size,
    )
}

/// A step from `position` along `dimension` leaves the axis at one of its ends.
pub open spec fn leaves_axis(
    position: usize,
    dimension: usize,
    direction: Direction,
    lattice_size: usize,
    dimensions: usize,
) -> bool {
    let here = lattice_coordinates(position, lattice_size, dimensions as nat);
    let coordinate = here[dimension as int];
    match direction {
        Direction::Forward => coordinate + 1 == lattice_size,
        Direction::Backward => coordinate == 0,
    }
}

/// The neighbour of `position` one step along `dimension`. A periodic
/// lattice wraps around; an open lattice has no neighbour past its ends.
pub open spec fn neighbour(
    position: usize,
    dimension: usize,
    direction: Direction,
    boundary: BoundaryConditions,
    lattice_size: usize,
    dimensions: usize,
) -> Option<usize> {
    if boundary == BoundaryConditions::Open && leaves_axis(
        position,
        dimension,
        direction,
        lattice_size,
        dimensions,
    ) {
        None
    } else {
        match direction {
            Direction::Forward => Some(
                next_index(position, dimension, lattice_size, dimensions) as usize,
            ),
            Direction::Backward => Some(
                previous_index(position, dimension, lattice_size, dimensions) as usize,
            ),
        }
    }
}

/// The sum of the coordinates.
pub open spec fn coordinate_sum(coordinates: Seq<usize>) -> int
    decreases coordinates.len(),
{
    if coordinates.len() == 0 {
        0
    } else {
        coordinate_sum(coordinates.drop_last()) + coordinates.last()
    }
}

/// The checkerboard colour of a site: `true` where the coordinates sum to
/// an even number.
pub open spec fn checkerboard_colour(coordinates: Seq<usize>) -> bool {
    coordinate_sum(coordinates) % 2 == 0
}

/// The coordinates of `position`, least significant axis first.
pub fn position_to_lattice(
    position: usize,
    lattice_size: usize,
    dimensions: usize,
) -> (coordinates: Vec<usize>)
    requires
        lattice_size >= 1,
    ensures
        coordinates@ == lattice_coordinates(position, lattice_size, dimensions as nat),
{
    let mut coordinates: Vec<usize> = Vec::new();
    let mut rest: usize = position;
    let mut k: usize = 0;
    while k < dimensions
        invariant
            lattice_size >= 1,
            k <= dimensions,
            coordinates@ + lattice_coordinates(rest, lattice_size, (dimensions - k) as nat)
                == lattice_coordinates(position, lattice_size, dimensions as nat),
        decreases dimensions - k,
    {
        coordinates.push(rest % lattice_size);
        rest = rest / lattice_size;
        k += 1;
    }
    coordinates
}

/// The position with the given coordinates.
pub fn lattice_to_position(lattice_position: &[usize], lattice_size: usize) -> (position: usize)
    requires
        addressable(lattice_size, lattice_position@.len() as usize),
        valid_coordinates(lattice_position@, lattice_size),
    ensures
        position == lattice_index(lattice_position@, lattice_size),
        position < site_count(lattice_size, lattice_position@.len() as usize),
{
    let dimensions = lattice_position.len();
    let mut position: usize = 0;
    let mut k: usize = dimensions;
    while k > 0
        invariant
            k <= dimensions,
            dimensions == lattice_position@.len(),
            addressable(lattice_size, dimensions),
            valid_coordinates(lattice_position@, lattice_size),
            position == lattice_index(
                lattice_position@.subrange(k as int, dimensions as int),
                lattice_size,
            ),
        decreases k,
    {
        proof {
            let longer = lattice_position@.subrange(k - 1, dimensions as int);
            assert(longer.drop_first() =~= lattice_position@.subrange(
                k as int,
                dimensions as int,
            ));
            lemma_index_in_range(longer, lattice_size);
            vstd::arithmetic::power::lemma_pow_increases(
                lattice_size as nat,
                longer.len(),
                dimensions as nat,
            );
            assert(lattice_index(longer, lattice_size) == lattice_position@[k - 1] + lattice_size
                * position);
        }
        k -= 1;
        position = position * lattice_size + lattice_position[k];
    }
    proof {
        assert(lattice_position@.subrange(0, dimensions as int) =~= lattice_position@);
        lemma_index_in_range(lattice_position@, lattice_size);
    }
    position
}

/// The position one step forward along `dimension` on a periodic lattice.
pub fn next_position(
    position: usize,
    dimension: usize,
    lattice_size: usize,
    dimensions: usize,
) -> (next: usize)
    requires
        addressable(lattice_size, dimensions),
        position < site_count(lattice_size, dimensions),
        dimension < dimensions,
    ensures
        next == next_index(position, dimension, lattice_size, dimensions),
        next < site_count(lattice_size, dimensions),
{
    let mut lattice_position = position_to_lattice(position, lattice_size, dimensions);
    proof {
        lemma_coordinates_in_range(position, lattice_size, dimensions as nat);
    }
    let here = lattice_position[dimension];
    let stepped = if here == lattice_size - 1 {
        0
    } else {
        here + 1
    };
    proof {
        lemma_stepped_in_range(here, lattice_size);
    }
    lattice_position[dimension] = stepped;
    lattice_to_position(lattice_position.as_slice(), lattice_size)
}

/// The position one step backward along `dimension` on a periodic lattice.
pub fn previous_position(
    position: usize,
    dimension: usize,
    lattice_size: usize,
    dimensions: usize,
) -> (previous: usize)
    requires
        addressable(lattice_size, dimensions),
        position < site_count(lattice_size, dimensions),
        dimension < dimensions,
    ensures
        previous == previous_index(position, dimension, lattice_size, dimensions),
        previous < site_count(lattice_size, dimensions),
{
    let mut lattice_position = position_to_lattice(position, lattice_size, dimensions);
    proof {
        lemma_coordinates_in_range(position, lattice_size, dimensions as nat);
    }
    let here = lattice_position[dimension];
    let stepped = if here == 0 {
        lattice_size - 1
    } else {
        here - 1
    };
    proof {
        lemma_stepped_in_range(here, lattice_size);
    }
    lattice_position[dimension] = stepped;
    lattice_to_position(lattice_position.as_slice(), lattice_size)
}

/// The neighbour of `position` one step along `dimension`, if the boundary
/// conditions give it one.
pub fn neighbour_position(
    position: usize,
    dimension: usize,
    direction: Direction,
    boundary: BoundaryConditions,
    lattice_size: usize,
    dimensions: usize,
) -> (found: Option<usize>)
    requires
        addressable(lattice_size, dimensions),
        position < site_count(lattice_size, dimensions),
        dimension < dimensions,
    ensures
        found == neighbour(position, dimension, direction, boundary, lattice_size, dimensions),
        found is Some ==> found->0 < site_count(lattice_size, dimensions),
{
    if boundary == BoundaryConditions::Open {
        let lattice_position = position_to_lattice(position, lattice_size, dimensions);
        proof {
            lemma_coordinates_in_range(position, lattice_size, dimensions as nat);
        }
        let here = lattice_position[dimension];
        let at_end = match direction {
            Direction::Forward => here == lattice_size - 1,
            Direction::Backward => here == 0,
        };
        if at_end {
            return None;
        }
    }
    match direction {
        Direction::Forward => Some(next_position(position, dimension, lattice_size, dimensions)),
        Direction::Backward => Some(
            previous_position(position, dimension, lattice_size, dimensions),
        ),
    }
}

/// The checkerboard colour of the site at the given coordinates.
pub fn chessboard(lattice_position: &[usize]) -> (colour: bool)
    ensures
        colour == checkerboard_colour(lattice_position@),
{
    let mut colour = true;
    let mut k: usize = 0;
    while k < lattice_position.len()
        invariant
            k <= lattice_position@.len(),
            colour == checkerboard_colour(lattice_position@.take(k as int)),
        decreases lattice_position@.len() - k,
    {
        proof {
            lemma_colour_of_prefix(lattice_position@, k as int);
        }
        if lattice_position[k] % 2 == 1 {
            colour = !colour;
        }
        k += 1;
    }
    assert(lattice_position@.take(k as int) =~= lattice_position@);
    colour
}

} // verus!
