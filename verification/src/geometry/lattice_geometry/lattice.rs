//! The lattice: an arena of sites wired into a fixed topology.

use crate::field::initialisation::Initialisation;
use crate::field::ising::IsingField;
use crate::geometry::lattice_geometry::boundary_conditions::BoundaryConditions;
use crate::geometry::lattice_geometry::energy::{
    energy_sum,
    lemma_energy_at_bounded,
    lemma_every_bond_counts_twice,
    total_energy,
};
use crate::geometry::lattice_geometry::schedule::{
    after_sweep,
    arena_at,
    lemma_later_decision_unseen,
    trial_decided_by,
    tried,
};
use crate::geometry::site::Site;
use crate::geometry::topology::{
    lemma_coordinates_in_range,
    lemma_pow_unfold,
    lemma_step_coordinates,
};
use crate::geometry::utils::{
    addressable,
    checkerboard_colour,
    lattice_coordinates,
    neighbour,
    next_position,
    previous_position,
    site_count,
    stepped_backward,
    stepped_forward,
    Direction,
};
use crate::settings::Settings;
use vstd::arithmetic::mul::lemma_mul_is_commutative;
use vstd::arithmetic::power::{lemma1_pow, lemma_pow0, lemma_pow_increases, pow};
use vstd::prelude::*;

verus! {

/// Why a lattice could not be made, or a site not be found.
#[derive(Clone, Copy, Debug, PartialEq, Eq, Structural)]
pub enum LatticeError {
    /// The settings ask for a lattice without any axis.
    ZeroDimensions,
    /// The settings ask for axes without any site.
    ZeroLatticeSize,
    /// The settings ask for more sites than can be addressed, or for so
    /// many that an energy would not fit in 64 bits.
    TooLarge,
    /// The position is not below the number of sites.
    OutOfRange,
}

/// Twice the number of links of the lattice fits in an `i64`, and with it
/// every energy.
pub open spec fn energies_fit(lattice_size: usize, dimensions: usize) -> bool {
    2 * (dimensions * site_count(lattice_size, dimensions)) <= i64::MAX
}

/// The reason for which the settings are refused, if they are.
pub open spec fn rejection(settings: Settings) -> Option<LatticeError> {
    if settings.dimensions == 0 {
        Some(LatticeError::ZeroDimensions)
    } else if settings.lattice_size == 0 {
        Some(LatticeError::ZeroLatticeSize)
    } else if site_count(settings.lattice_size, settings.dimensions) > usize::MAX || !energies_fit(
        settings.lattice_size,
        settings.dimensions,
    ) {
        Some(LatticeError::TooLarge)
    } else {
        None
    }
}

/// The site knows its place in the lattice: its position, its coordinates,
/// its colour, and one slot for a link in each direction of each axis.
pub open spec fn placed(site: Site, position: int, lattice_size: usize, dimensions: usize) -> bool {
    &&& site.position == position
    &&& site.lattice_position@ == lattice_coordinates(
        position as usize,
        lattice_size,
        dimensions as nat,
    )
    &&& site.chessboard == checkerboard_colour(site.lattice_position@)
    &&& site.next@.len() == dimensions
    &&& site.previous@.len() == dimensions
}

/// Along each of the first `axes` axes, the forward link of the site leads
/// to its forward neighbour, or is absent where it has none.
pub open spec fn linked_forward(
    site: Site,
    position: int,
    axes: int,
    boundary: BoundaryConditions,
    lattice_size: usize,
    dimensions: usize,
) -> bool {
    forall|axis: int|
        0 <= axis < axes ==> #[trigger] site.next@[axis] == neighbour(
            position as usize,
            axis as usize,
            Direction::Forward,
            boundary,
            lattice_size,
            dimensions,
        )
}

/// Along each of the first `axes` axes, the backward link of the site leads
/// to its backward neighbour, or is absent where it has none.
pub open spec fn linked_backward(
    site: Site,
    position: int,
    axes: int,
    boundary: BoundaryConditions,
    lattice_size: usize,
    dimensions: usize,
) -> bool {
    forall|axis: int|
        0 <= axis < axes ==> #[trigger] site.previous@[axis] == neighbour(
            position as usize,
            axis as usize,
            Direction::Backward,
            boundary,
            lattice_size,
            dimensions,
        )
}

/// The arena is a lattice of the shape and boundary that the settings
/// name: it has one site for each position, each in its place and linked to
/// its neighbours.
pub open spec fn well_formed(sites: Seq<Site>, settings: Settings) -> bool {
    &&& rejection(settings) is None
    &&& sites.len() == site_count(settings.lattice_size, settings.dimensions)
    &&& forall|position: int|
        0 <= position < sites.len() ==> placed(
            #[trigger] sites[position],
            position,
            settings.lattice_size,
            settings.dimensions,
        )
    &&& forall|position: int|
        0 <= position < sites.len() ==> linked_forward(
            #[trigger] sites[position],
            position,
            settings.dimensions as int,
            settings.boundary_conditions,
            settings.lattice_size,
            settings.dimensions,
        )
    &&& forall|position: int|
        0 <= position < sites.len() ==> linked_backward(
            #[trigger] sites[position],
            position,
            settings.dimensions as int,
            settings.boundary_conditions,
            settings.lattice_size,
            settings.dimensions,
        )
}

/// The second site is the first with, perhaps, other links.
pub open spec fn relinked(before: Site, after: Site) -> bool {
    after == (Site { next: after.next, previous: after.previous, ..before })
}

/// The second arena is the first with, perhaps, other spins.
pub open spec fn same_but_spins(before: Seq<Site>, after: Seq<Site>) -> bool {
    &&& after.len() == before.len()
    &&& forall|position: int|
        0 <= position < before.len() ==> #[trigger] after[position] == (Site {
            field: after[position].field,
            ..before[position]
        })
}

/// In a lattice every link leads to a site of the lattice, and the links of
/// a site are few enough for its energy to fit in an `i64`.
pub proof fn lemma_links_of_lattice(sites: Seq<Site>, settings: Settings, position: int)
    requires
        well_formed(sites, settings),
        0 <= position < sites.len(),
    ensures
        sites[position].linked_within(sites.len()),
        sites[position].next@.len() == settings.dimensions,
        sites[position].previous@.len() == settings.dimensions,
        2 * settings.dimensions <= i64::MAX,
{
    let site = sites[position];
    let size = settings.lattice_size;
    let dimensions = settings.dimensions;
    assert forall|axis: int| 0 <= axis < site.next@.len() && (#[trigger] site.next@[axis]) is Some
        implies site.next@[axis]->0 < sites.len() by {
        lemma_step_coordinates(position as usize, axis as usize, size, dimensions);
    }
    assert forall|axis: int|
        0 <= axis < site.previous@.len() && (#[trigger] site.previous@[axis]) is Some
        implies site.previous@[axis]->0 < sites.len() by {
        lemma_step_coordinates(position as usize, axis as usize, size, dimensions);
    }
    let count = site_count(size, dimensions);
    let axes = dimensions as int;
    assert(axes <= axes * count) by (nonlinear_arith)
        requires
            count >= 1,
            axes >= 0,
    ;
}

/// The coordinates of the site to which a link leads.
pub open spec fn coordinates_behind(link: Option<usize>, sites: Seq<Site>) -> Seq<usize> {
    sites[link->0 as int].lattice_position@
}

/// The links of a lattice follow its axes: a forward link leads to the
/// site whose coordinates are those of the source, one step forward on that
/// axis alone, and a backward link likewise one step backward. A periodic
/// lattice has every link; an open lattice lacks exactly those that would
/// leave an axis at one of its ends.
pub proof fn lemma_links_follow_the_axes(
    sites: Seq<Site>,
    settings: Settings,
    position: int,
    axis: int,
)
    requires
        well_formed(sites, settings),
        0 <= position < sites.len(),
        0 <= axis < settings.dimensions,
    ensures
        sites[position].next@[axis] is Some ==> coordinates_behind(
            sites[position].next@[axis],
            sites,
        ) == sites[position].lattice_position@.update(
            axis,
            stepped_forward(sites[position].lattice_position@[axis], settings.lattice_size),
        ),
        sites[position].previous@[axis] is Some ==> coordinates_behind(
            sites[position].previous@[axis],
            sites,
        ) == sites[position].lattice_position@.update(
            axis,
            stepped_backward(sites[position].lattice_position@[axis], settings.lattice_size),
        ),
        sites[position].next@[axis] is None <==> settings.boundary_conditions
            == BoundaryConditions::Open && sites[position].lattice_position@[axis] + 1
            == settings.lattice_size,
        sites[position].previous@[axis] is None <==> settings.boundary_conditions
            == BoundaryConditions::Open && sites[position].lattice_position@[axis] == 0,
{
    lemma_links_of_lattice(sites, settings, position);
    lemma_step_coordinates(
        position as usize,
        axis as usize,
        settings.lattice_size,
        settings.dimensions,
    );
}

/// Changing spins leaves a lattice a lattice.
pub proof fn lemma_spins_keep_well_formed(before: Seq<Site>, after: Seq<Site>, settings: Settings)
    requires
        well_formed(before, settings),
        same_but_spins(before, after),
    ensures
        well_formed(after, settings),
{
}

/// The number of sites, where it fits in a `usize`.
fn count_sites(lattice_size: usize, dimensions: usize) -> (count: Option<usize>)
    requires
        lattice_size >= 1,
    ensures
        match count {
            Some(sites) => sites == site_count(lattice_size, dimensions),
            None => site_count(lattice_size, dimensions) > usize::MAX,
        },
{
    if lattice_size == 1 {
        proof {
            lemma1_pow(dimensions as nat);
        }
        return Some(1);
    }
    let mut sites: usize = 1;
    let mut axis: usize = 0;
    proof {
        lemma_pow0(lattice_size as int);
    }
    while axis < dimensions
        invariant
            lattice_size >= 1,
            axis <= dimensions,
            sites == pow(lattice_size as int, axis as nat),
        decreases dimensions - axis,
    {
        proof {
            lemma_pow_unfold(lattice_size as int, (axis + 1) as nat);
            lemma_pow_increases(lattice_size as nat, (axis + 1) as nat, dimensions as nat);
            lemma_mul_is_commutative(sites as int, lattice_size as int);
        }
        match sites.checked_mul(lattice_size) {
            Some(more) => {
                sites = more;
            },
            None => {
                return None;
            },
        }
        axis += 1;
    }
    Some(sites)
}

/// Whether twice the number of links fits in an `i64`.
fn links_fit(sites: usize, dimensions: usize) -> (fit: bool)
    ensures
        fit == (2 * (dimensions * sites) <= i64::MAX),
{
    match (dimensions as u64).checked_mul(sites as u64) {
        Some(links) => links <= (i64::MAX as u64) / 2,
        None => false,
    }
}

/// Links every site of a periodic lattice to its neighbours: along each
/// axis to the next and to the previous site, around the end of the axis.
fn initalise_periodic_boundary_conditions(
    sites: &mut Vec<Site>,
    lattice_size: usize,
    dimensions: usize,
)
    requires
        addressable(lattice_size, dimensions),
        old(sites)@.len() == site_count(lattice_size, dimensions),
        forall|position: int|
            0 <= position < old(sites)@.len() ==> placed(
                #[trigger] old(sites)@[position],
                position,
                lattice_size,
                dimensions,
            ),
    ensures
        final(sites)@.len() == old(sites)@.len(),
        forall|position: int|
            0 <= position < old(sites)@.len() ==> relinked(
                old(sites)@[position],
                #[trigger] final(sites)@[position],
            ),
        forall|position: int|
            0 <= position < old(sites)@.len() ==> placed(
                #[trigger] final(sites)@[position],
                position,
                lattice_size,
                dimensions,
            ),
        forall|position: int|
            0 <= position < old(sites)@.len() ==> linked_forward(
                #[trigger] final(sites)@[position],
                position,
                dimensions as int,
                BoundaryConditions::Periodic,
                lattice_size,
                dimensions,
            ),
        forall|position: int|
            0 <= position < old(sites)@.len() ==> linked_backward(
                #[trigger] final(sites)@[position],
                position,
                dimensions as int,
                BoundaryConditions::Periodic,
                lattice_size,
                dimensions,
            ),
{
    let count = sites.len();
    let ghost start = sites@;
    let mut i: usize = 0;
    while i < count
        invariant
            i <= count,
            count == sites@.len(),
            count == start.len(),
            addressable(lattice_size, dimensions),
            count == site_count(lattice_size, dimensions),
            forall|position: int|
                0 <= position < count ==> relinked(start[position], #[trigger] sites@[position]),
            forall|position: int|
                0 <= position < count ==> placed(
                    #[trigger] sites@[position],
                    position,
                    lattice_size,
                    dimensions,
                ),
            forall|position: int|
                0 <= position < i ==> linked_forward(
                    #[trigger] sites@[position],
                    position,
                    dimensions as int,
                    BoundaryConditions::Periodic,
                    lattice_size,
                    dimensions,
                ),
            forall|position: int|
                0 <= position < i ==> linked_backward(
                    #[trigger] sites@[position],
                    position,
                    dimensions as int,
                    BoundaryConditions::Periodic,
                    lattice_size,
                    dimensions,
                ),
        decreases count - i,
    {
        let mut d: usize = 0;
        while d < dimensions
            invariant
                i < count,
                d <= dimensions,
                count == sites@.len(),
                count == start.len(),
                addressable(lattice_size, dimensions),
                count == site_count(lattice_size, dimensions),
                forall|position: int|
                    0 <= position < count ==> relinked(
                        start[position],
                        #[trigger] sites@[position],
                    ),
                forall|position: int|
                    0 <= position < count ==> placed(
                        #[trigger] sites@[position],
                        position,
                        lattice_size,
                        dimensions,
                    ),
                forall|position: int|
                    0 <= position < i ==> linked_forward(
                        #[trigger] sites@[position],
                        position,
                        dimensions as int,
                        BoundaryConditions::Periodic,
                        lattice_size,
                        dimensions,
                    ),
                forall|position: int|
                    0 <= position < i ==> linked_backward(
                        #[trigger] sites@[position],
                        position,
                        dimensions as int,
                        BoundaryConditions::Periodic,
                        lattice_size,
                        dimensions,
                    ),
                linked_forward(
                    sites@[i as int],
                    i as int,
                    d as int,
                    BoundaryConditions::Periodic,
                    lattice_size,
                    dimensions,
                ),
                linked_backward(
                    sites@[i as int],
                    i as int,
                    d as int,
                    BoundaryConditions::Periodic,
                    lattice_size,
                    dimensions,
                ),
            decreases dimensions - d,
        {
            // Next site
            let next_pos = next_position(i, d, lattice_size, dimensions);
            sites[i].update_next(d, Some(next_pos));
            // Previous site
            let prev_pos = previous_position(i, d, lattice_size, dimensions);
            sites[i].update_previous(d, Some(prev_pos));
            d += 1;
        }
        i += 1;
    }
}

/// Links every site of an open lattice to its neighbours: along each axis
/// to the next and to the previous site, where the axis has one.
fn initalise_open_boundary_conditions(sites: &mut Vec<Site>, lattice_size: usize, dimensions: usize)
    requires
        addressable(lattice_size, dimensions),
        old(sites)@.len() == site_count(lattice_size, dimensions),
        forall|position: int|
            0 <= position < old(sites)@.len() ==> placed(
                #[trigger] old(sites)@[position],
                position,
                lattice_size,
                dimensions,
            ),
    ensures
        final(sites)@.len() == old(sites)@.len(),
        forall|position: int|
            0 <= position < old(sites)@.len() ==> relinked(
                old(sites)@[position],
                #[trigger] final(sites)@[position],
            ),
        forall|position: int|
            0 <= position < old(sites)@.len() ==> placed(
                #[trigger] final(sites)@[position],
                position,
                lattice_size,
                dimensions,
            ),
        forall|position: int|
            0 <= position < old(sites)@.len() ==> linked_forward(
                #[trigger] final(sites)@[position],
                position,
                dimensions as int,
                BoundaryConditions::Open,
                lattice_size,
                dimensions,
            ),
        forall|position: int|
            0 <= position < old(sites)@.len() ==> linked_backward(
                #[trigger] final(sites)@[position],
                position,
                dimensions as int,
                BoundaryConditions::Open,
                lattice_size,
                dimensions,
            ),
{
    let count = sites.len();
    let ghost start = sites@;
    let mut i: usize = 0;
    while i < count
        invariant
            i <= count,
            count == sites@.len(),
            count == start.len(),
            addressable(lattice_size, dimensions),
            count == site_count(lattice_size, dimensions),
            forall|position: int|
                0 <= position < count ==> relinked(start[position], #[trigger] sites@[position]),
            forall|position: int|
                0 <= position < count ==> placed(
                    #[trigger] sites@[position],
                    position,
                    lattice_size,
                    dimensions,
                ),
            forall|position: int|
                0 <= position < i ==> linked_forward(
                    #[trigger] sites@[position],
                    position,
                    dimensions as int,
                    BoundaryConditions::Open,
                    lattice_size,
                    dimensions,
                ),
            forall|position: int|
                0 <= position < i ==> linked_backward(
                    #[trigger] sites@[position],
                    position,
                    dimensions as int,
                    BoundaryConditions::Open,
                    lattice_size,
                    dimensions,
                ),
        decreases count - i,
    {
        let mut d: usize = 0;
        while d < dimensions
            invariant
                i < count,
                d <= dimensions,
                count == sites@.len(),
                count == start.len(),
                addressable(lattice_size, dimensions),
                count == site_count(lattice_size, dimensions),
                forall|position: int|
                    0 <= position < count ==> relinked(
                        start[position],
                        #[trigger] sites@[position],
                    ),
                forall|position: int|
                    0 <= position < count ==> placed(
                        #[trigger] sites@[position],
                        position,
                        lattice_size,
                        dimensions,
                    ),
                forall|position: int|
                    0 <= position < i ==> linked_forward(
                        #[trigger] sites@[position],
                        position,
                        dimensions as int,
                        BoundaryConditions::Open,
                        lattice_size,
                        dimensions,
                    ),
                forall|position: int|
                    0 <= position < i ==> linked_backward(
                        #[trigger] sites@[position],
                        position,
                        dimensions as int,
                        BoundaryConditions::Open,
                        lattice_size,
                        dimensions,
                    ),
                linked_forward(
                    sites@[i as int],
                    i as int,
                    d as int,
                    BoundaryConditions::Open,
                    lattice_size,
                    dimensions,
                ),
                linked_backward(
                    sites@[i as int],
                    i as int,
                    d as int,
                    BoundaryConditions::Open,
                    lattice_size,
                    dimensions,
                ),
            decreases dimensions - d,
        {
            proof {
                lemma_coordinates_in_range(i, lattice_size, dimensions as nat);
            }
            let here = sites[i].lattice_position[d];
            // Next site: none where the site stands at the end of the axis
            if here == lattice_size - 1 {
                sites[i].update_next(d, None);
            } else {
                let next_pos = next_position(i, d, lattice_size, dimensions);
                sites[i].update_next(d, Some(next_pos));
            }
            // Previous site: none where the site stands at the start of the axis
            if here == 0 {
                sites[i].update_previous(d, None);
            } else {
                let prev_pos = previous_position(i, d, lattice_size, dimensions);
                sites[i].update_previous(d, Some(prev_pos));
            }
            d += 1;
        }
        i += 1;
    }
}

/// One phase of a sweep: a trial on every site of the given colour, in
/// the order of the positions.
fn montecarlo_phase<F: Fn(u64, i64, i64) -> bool>(
    sites: &mut Vec<Site>,
    settings: &Settings,
    colour: bool,
    accept: &F,
    Ghost(start): Ghost<Seq<Site>>,
    Ghost(decided): Ghost<Seq<bool>>,
) -> (decisions: Ghost<Seq<bool>>)
    requires
        well_formed(start, *settings),
        decided.len() == start.len(),
        old(sites)@ == arena_at(start, decided, colour, 0),
        forall|beta: u64, before: i64, after: i64| accept.requires((beta, before, after)),
        forall|position: int|
            0 <= position < start.len() && tried(start, position, colour, 0)
                ==> #[trigger] trial_decided_by(accept, settings.beta, start, decided, position),
    ensures
        decisions@.len() == start.len(),
        final(sites)@ == arena_at(start, decisions@, colour, start.len() as int),
        forall|position: int|
            0 <= position < start.len() && tried(start, position, colour, start.len() as int)
                ==> #[trigger] trial_decided_by(
                accept,
                settings.beta,
                start,
                decisions@,
                position,
            ),
{
    let count = sites.len();
    let ghost mut decisions = decided;
    let mut i: usize = 0;
    while i < count
        invariant
            i <= count,
            count == start.len(),
            well_formed(start, *settings),
            decisions.len() == start.len(),
            sites@ == arena_at(start, decisions, colour, i as int),
            forall|beta: u64, before: i64, after: i64| accept.requires((beta, before, after)),
            forall|position: int|
                0 <= position < start.len() && tried(start, position, colour, i as int)
                    ==> #[trigger] trial_decided_by(
                    accept,
                    settings.beta,
                    start,
                    decisions,
                    position,
                ),
        decreases count - i,
    {
        proof {
            lemma_links_of_lattice(start, *settings, i as int);
        }
        if sites[i].chessboard == colour {
            let accepted = Site::montecarlo_single_site(sites, i, settings, accept);
            proof {
                let earlier = decisions;
                decisions = earlier.update(i as int, accepted);
                assert forall|position: int|
                    0 <= position < start.len() && tried(
                        start,
                        position,
                        colour,
                        i + 1,
                    ) implies #[trigger] trial_decided_by(
                    accept,
                    settings.beta,
                    start,
                    decisions,
                    position,
                ) by {
                    lemma_later_decision_unseen(
                        start,
                        earlier,
                        i as int,
                        accepted,
                        start[position].chessboard,
                        position,
                    );
                    if position != i {
                        assert(trial_decided_by(accept, settings.beta, start, earlier, position));
                    }
                }
            }
        }
        i += 1;
    }
    Ghost(decisions)
}

/// The sites of a lattice and the settings with which it was made.
///
/// The links are set when the lattice is made and stay as they are; only
/// the spins change afterwards.
pub struct Lattice {
    sites: Vec<Site>,
    settings: Settings,
}

impl View for Lattice {
    type V = Seq<Site>;

    /// The sites of the lattice, each at its position.
    closed spec fn view(&self) -> Seq<Site> {
        self.sites@
    }
}

impl Lattice {
    /// The settings with which the lattice was made.
    pub closed spec fn spec_settings(&self) -> Settings {
        self.settings
    }

    /// The sites are wired as the settings say.
    pub open spec fn wf(&self) -> bool {
        well_formed(self@, self.spec_settings())
    }

    /// A lattice of the shape, boundary and start that the settings name.
    ///
    /// Settings without an axis, without a site along the axes, or of a
    /// lattice too large are refused, in this order.
    pub fn new(settings: Settings) -> (made: Result<Lattice, LatticeError>)
        ensures
            match made {
                Ok(lattice) => {
                    &&& rejection(settings) is None
                    &&& lattice.spec_settings() == settings
                    &&& lattice.wf()
                    &&& settings.site_initialisation == Initialisation::Uniform ==> forall|
                        position: int,
                    |
                        0 <= position < lattice@.len() ==> (#[trigger] lattice@[position]).field
                            == IsingField::Up
                },
                Err(error) => rejection(settings) == Some(error),
            },
    {
        if settings.dimensions == 0 {
            return Err(LatticeError::ZeroDimensions);
        }
        if settings.lattice_size == 0 {
            return Err(LatticeError::ZeroLatticeSize);
        }
        let count = match count_sites(settings.lattice_size, settings.dimensions) {
            Some(count) => count,
            None => {
                return Err(LatticeError::TooLarge);
            },
        };
        if !links_fit(count, settings.dimensions) {
            return Err(LatticeError::TooLarge);
        }
        // Initialise the lattice sites
        let mut sites: Vec<Site> = Vec::new();
        let mut i: usize = 0;
        while i < count
            invariant
                i <= count,
                settings.lattice_size >= 1,
                sites@.len() == i,
                forall|position: int|
                    0 <= position < i ==> placed(
                        #[trigger] sites@[position],
                        position,
                        settings.lattice_size,
                        settings.dimensions,
                    ),
                settings.site_initialisation == Initialisation::Uniform ==> forall|position: int|
                    0 <= position < i ==> (#[trigger] sites@[position]).field == IsingField::Up,
            decreases count - i,
        {
            let site = Site::new(
                i,
                settings.site_initialisation,
                settings.lattice_size,
                settings.dimensions,
            );
            sites.push(site);
            i += 1;
        }
        // Link the sites according to the boundary conditions
        match settings.boundary_conditions {
            BoundaryConditions::Periodic => initalise_periodic_boundary_conditions(
                &mut sites,
                settings.lattice_size,
                settings.dimensions,
            ),
            BoundaryConditions::Open => initalise_open_boundary_conditions(
                &mut sites,
                settings.lattice_size,
                settings.dimensions,
            ),
        }
        Ok(Lattice { sites, settings })
    }

    /// The settings with which the lattice was made.
    pub fn settings(&self) -> (settings: &Settings)
        ensures
            *settings == self.spec_settings(),
    {
        &self.settings
    }

    /// The sites of the lattice, each at its position.
    pub fn sites(&self) -> (sites: &Vec<Site>)
        ensures
            sites@ == self@,
    {
        &self.sites
    }

    /// The site at `position`, or an error where the lattice has no such site.
    pub fn get(&self, position: usize) -> (found: Result<&Site, LatticeError>)
        ensures
            match found {
                Ok(site) => position < self@.len() && *site == self@[position as int],
                Err(error) => position >= self@.len() && error == LatticeError::OutOfRange,
            },
    {
        if position < self.sites.len() {
            Ok(&self.sites[position])
        } else {
            Err(LatticeError::OutOfRange)
        }
    }

    /// The site at `position`, to be changed in place, or an error where
    /// the lattice has no such site.
    pub fn get_mut(&mut self, position: usize) -> (found: Result<&mut Site, LatticeError>)
        ensures
            match found {
                Ok(site) => {
                    &&& position < old(self)@.len()
                    &&& *site == old(self)@[position as int]
                    &&& final(self)@ == old(self)@.update(position as int, *final(site))
                    &&& final(self).spec_settings() == old(self).spec_settings()
                },
                Err(error) => {
                    &&& position >= old(self)@.len()
                    &&& error == LatticeError::OutOfRange
                    &&& *final(self) == *old(self)
                },
            },
    {
        if position < self.sites.len() {
            Ok(&mut self.sites[position])
        } else {
            Err(LatticeError::OutOfRange)
        }
    }

    /// A copy of the site at `position` under a new identifier, or an error
    /// where the lattice has no such site.
    pub fn get_site_clone(&self, position: usize) -> (found: Result<Site, LatticeError>)
        ensures
            match found {
                Ok(site) => position < self@.len() && site.same_but_id(self@[position as int]),
                Err(error) => position >= self@.len() && error == LatticeError::OutOfRange,
            },
    {
        if position < self.sites.len() {
            Ok(self.sites[position].clone())
        } else {
            Err(LatticeError::OutOfRange)
        }
    }

    /// The total energy of the lattice: half the sum of the local energies
    /// of its sites, in which every bond is counted from both of its ends.
    pub fn get_energy(&self) -> (energy: i64)
        requires
            self.wf(),
        ensures
            energy == total_energy(self@),
            2 * energy == energy_sum(self@, self@.len() as int),
    {
        let count = self.sites.len();
        let ghost axes = self.settings.dimensions as int;
        let mut sum: i64 = 0;
        let mut i: usize = 0;
        while i < count
            invariant
                i <= count,
                count == self.sites@.len(),
                well_formed(self.sites@, self.settings),
                axes == self.settings.dimensions,
                sum == energy_sum(self.sites@, i as int),
                -(2 * (axes * i)) <= sum <= 2 * (axes * i),
            decreases count - i,
        {
            proof {
                lemma_links_of_lattice(self.sites@, self.settings, i as int);
                lemma_energy_at_bounded(self.sites@, i as int);
                assert(axes * (i + 1) == axes * i + axes) by (nonlinear_arith);
                assert(axes * (i + 1) <= axes * count) by (nonlinear_arith)
                    requires
                        i + 1 <= count,
                        axes >= 0,
                ;
            }
            sum = sum + self.sites[i].local_energy(&self.sites);
            i += 1;
        }
        proof {
            lemma_every_bond_counts_twice(self.sites@, self.settings);
        }
        // Divide by 2 because each interaction is counted twice
        sum / 2
    }

    /// One sweep: a trial on every site of colour `true`, then a trial on
    /// every site of colour `false`.
    ///
    /// The result records, for each position, whether the reversal of the
    /// spin there was accepted. Each decision is one that `accept` gave for
    /// the inverse temperature of the lattice and the energies that the
    /// trial found and proposed; the spins reversed are exactly those whose
    /// reversal was accepted.
    pub fn montecarlo_sweep<F: Fn(u64, i64, i64) -> bool>(&mut self, accept: &F) -> (decisions:
        Ghost<Seq<bool>>)
        requires
            old(self).wf(),
            forall|beta: u64, before: i64, after: i64| accept.requires((beta, before, after)),
        ensures
            final(self).wf(),
            final(self).spec_settings() == old(self).spec_settings(),
            decisions@.len() == old(self)@.len(),
            final(self)@ == after_sweep(old(self)@, decisions@),
            forall|position: int|
                0 <= position < old(self)@.len() ==> #[trigger] trial_decided_by(
                    accept,
                    old(self).spec_settings().beta,
                    old(self)@,
                    decisions@,
                    position,
                ),
    {
        let ghost start = self.sites@;
        let ghost undecided = Seq::new(start.len(), |position: int| false);
        assert(self.sites@ =~= arena_at(start, undecided, true, 0));
        // Monte Carlo sweep for the chessboard sites
        let Ghost(black) = montecarlo_phase(
            &mut self.sites,
            &self.settings,
            true,
            accept,
            Ghost(start),
            Ghost(undecided),
        );
        assert(self.sites@ =~= arena_at(start, black, false, 0));
        // Monte Carlo sweep for the non-chessboard sites
        let Ghost(all) = montecarlo_phase(
            &mut self.sites,
            &self.settings,
            false,
            accept,
            Ghost(start),
            Ghost(black),
        );
        Ghost(all)
    }
}

} // verus!
