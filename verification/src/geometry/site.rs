//! One node of the lattice: its spin, its place and its links.
//!
//! Sites are kept in an arena, a vector in which each site stands at its
//! position. A link is the position of the neighbour in that arena.

use crate::field::initialisation::Initialisation;
use crate::field::ising::{ising_interaction, IsingField};
use crate::field::schema::Field;
use crate::geometry::utils::{
    chessboard,
    checkerboard_colour,
    lattice_coordinates,
    position_to_lattice,
};
use crate::settings::Settings;
use uuid::Uuid;
use vstd::prelude::*;
use vstd::std_specs::cmp::PartialEqSpecImpl;

verus! {

/// `uuid::Uuid`, carried as a value of which nothing is known.
#[verifier::external_type_specification]
#[verifier::external_body]
pub struct ExUuid(uuid::Uuid);

/// A new random identifier, by `Uuid::new_v4`. Nothing is claimed of its value.
#[verifier::external_body]
fn fresh_id() -> (id: Uuid) {
    Uuid::new_v4()
}

/// One node of the lattice.
#[derive(Debug)]
pub struct Site {
    /// Tells this site from every copy of it.
    pub id: Uuid,
    /// Where the site stands in the arena.
    pub position: usize,
    /// The spin of the site.
    pub field: IsingField,
    /// For each axis, the position of the neighbour one step forward.
    pub next: Vec<Option<usize>>,
    /// For each axis, the position of the neighbour one step backward.
    pub previous: Vec<Option<usize>>,
    /// The coordinates of the site, least significant axis first.
    pub lattice_position: Vec<usize>,
    /// The checkerboard colour of the site.
    pub chessboard: bool,
}

/// Links that lead nowhere, one for each axis.
pub open spec fn unlinked(dimensions: usize) -> Seq<Option<usize>> {
    Seq::new(dimensions as nat, |k: int| None::<usize>)
}

/// Every link that is present leads into an arena of `count` sites.
pub open spec fn links_in_range(links: Seq<Option<usize>>, count: nat) -> bool {
    forall|k: int| 0 <= k < links.len() && (#[trigger] links[k]) is Some ==> links[k]->0 < count
}

/// The interaction of a spin with the neighbour behind one link; an absent
/// link contributes nothing.
pub open spec fn link_energy(field: IsingField, link: Option<usize>, sites: Seq<Site>) -> int {
    match link {
        Some(neighbour) => ising_interaction(field, sites[neighbour as int].field),
        None => 0,
    }
}

/// The sum of the interactions of a spin with the neighbours behind the
/// given links.
pub open spec fn links_energy(
    field: IsingField,
    links: Seq<Option<usize>>,
    sites: Seq<Site>,
) -> int
    decreases links.len(),
{
    if links.len() == 0 {
        0
    } else {
        links_energy(field, links.drop_last(), sites) + link_energy(field, links.last(), sites)
    }
}

/// The arena with the spin at `position` reversed.
pub open spec fn flip_site(sites: Seq<Site>, position: int) -> Seq<Site> {
    sites.update(position, sites[position].spec_flipped())
}

/// The local energy of the site at `position` of the arena.
pub open spec fn energy_at(sites: Seq<Site>, position: int) -> int {
    sites[position].spec_local_energy(sites)
}

/// The energy lies between minus and plus the number of links.
pub proof fn lemma_links_energy_bounded(
    field: IsingField,
    links: Seq<Option<usize>>,
    sites: Seq<Site>,
)
    ensures
        -links.len() <= links_energy(field, links, sites) <= links.len(),
    decreases links.len(),
{
    if links.len() > 0 {
        lemma_links_energy_bounded(field, links.drop_last(), sites);
    }
}

fn no_links(dimensions: usize) -> (links: Vec<Option<usize>>)
    ensures
        links@ == unlinked(dimensions),
{
    let mut links: Vec<Option<usize>> = Vec::new();
    let mut k: usize = 0;
    while k < dimensions
        invariant
            k <= dimensions,
            links@ == unlinked(k),
        decreases dimensions - k,
    {
        links.push(None);
        k += 1;
    }
    links
}

fn copy_links(links: &Vec<Option<usize>>) -> (copy: Vec<Option<usize>>)
    ensures
        copy@ == links@,
{
    let mut copy: Vec<Option<usize>> = Vec::new();
    let mut k: usize = 0;
    while k < links.len()
        invariant
            k <= links.len(),
            copy@ == links@.take(k as int),
        decreases links.len() - k,
    {
        copy.push(links[k]);
        k += 1;
    }
    copy
}

fn copy_coordinates(coordinates: &Vec<usize>) -> (copy: Vec<usize>)
    ensures
        copy@ == coordinates@,
{
    let mut copy: Vec<usize> = Vec::new();
    let mut k: usize = 0;
    while k < coordinates.len()
        invariant
            k <= coordinates.len(),
            copy@ == coordinates@.take(k as int),
        decreases coordinates.len() - k,
    {
        copy.push(coordinates[k]);
        k += 1;
    }
    copy
}

fn sum_links(field: IsingField, links: &Vec<Option<usize>>, sites: &Vec<Site>) -> (energy: i64)
    requires
        links_in_range(links@, sites@.len()),
        links@.len() <= i64::MAX,
    ensures
        energy == links_energy(field, links@, sites@),
{
    let mut energy: i64 = 0;
    let mut k: usize = 0;
    while k < links.len()
        invariant
            k <= links.len(),
            links_in_range(links@, sites@.len()),
            links@.len() <= i64::MAX,
            energy == links_energy(field, links@.take(k as int), sites@),
        decreases links.len() - k,
    {
        proof {
            lemma_links_energy_bounded(field, links@.take(k as int), sites@);
            assert(links@.take(k + 1).drop_last() =~= links@.take(k as int));
        }
        match links[k] {
            Some(neighbour) => {
                energy = energy + field.interaction(&sites[neighbour].field);
            },
            None => {},
        }
        k += 1;
    }
    assert(links@.take(k as int) =~= links@);
    energy
}

/// The positions behind the links that are present, in the order of the axes.
pub open spec fn present_links(links: Seq<Option<usize>>) -> Seq<usize>
    decreases links.len(),
{
    if links.len() == 0 {
        Seq::empty()
    } else {
        match links.last() {
            Some(neighbour) => present_links(links.drop_last()).push(neighbour),
            None => present_links(links.drop_last()),
        }
    }
}

fn neighbours_behind(links: &Vec<Option<usize>>) -> (found: Vec<usize>)
    ensures
        found@ == present_links(links@),
{
    let mut found: Vec<usize> = Vec::new();
    let mut k: usize = 0;
    while k < links.len()
        invariant
            k <= links.len(),
            found@ == present_links(links@.take(k as int)),
        decreases links.len() - k,
    {
        proof {
            assert(links@.take(k + 1).drop_last() =~= links@.take(k as int));
        }
        match links[k] {
            Some(neighbour) => {
                found.push(neighbour);
            },
            None => {},
        }
        k += 1;
    }
    assert(links@.take(k as int) =~= links@);
    found
}

fn same_positions(first: &Vec<usize>, second: &Vec<usize>) -> (same: bool)
    ensures
        same == (first@ == second@),
{
    if first.len() != second.len() {
        return false;
    }
    let mut k: usize = 0;
    while k < first.len()
        invariant
            k <= first.len(),
            first.len() == second.len(),
            first@.take(k as int) == second@.take(k as int),
        decreases first.len() - k,
    {
        if first[k] != second[k] {
            return false;
        }
        k += 1;
    }
    assert(first@.take(k as int) =~= first@);
    assert(second@.take(k as int) =~= second@);
    true
}

impl PartialEq for Site {
    fn eq(&self, other: &Self) -> (equal: bool) {
        self.position == other.position && self.field == other.field && same_positions(
            &neighbours_behind(&self.next),
            &neighbours_behind(&other.next),
        ) && same_positions(
            &neighbours_behind(&self.previous),
            &neighbours_behind(&other.previous),
        )
    }
}

impl PartialEqSpecImpl for Site {
    open spec fn obeys_eq_spec() -> bool {
        true
    }

    /// Two sites are equal where they stand at one position, hold one spin
    /// and have the same neighbours forward and the same backward, absent
    /// links left out. Their identifiers play no part.
    open spec fn eq_spec(&self, other: &Site) -> bool {
        &&& self.position == other.position
        &&& self.field == other.field
        &&& present_links(self.next@) == present_links(other.next@)
        &&& present_links(self.previous@) == present_links(other.previous@)
    }
}

impl Clone for Site {
    /// A copy is the same site under a new identifier.
    fn clone(&self) -> (copy: Self)
        ensures
            copy.same_but_id(*self),
    {
        Site {
            id: fresh_id(),
            position: self.position,
            field: self.field,
            next: copy_links(&self.next),
            previous: copy_links(&self.previous),
            lattice_position: copy_coordinates(&self.lattice_position),
            chessboard: self.chessboard,
        }
    }
}

impl Site {
    /// The two sites agree in all but, perhaps, their identifiers.
    pub open spec fn same_but_id(self, other: Site) -> bool {
        &&& self.position == other.position
        &&& self.field == other.field
        &&& self.next@ == other.next@
        &&& self.previous@ == other.previous@
        &&& self.lattice_position@ == other.lattice_position@
        &&& self.chessboard == other.chessboard
    }

    /// The site with its spin reversed.
    pub open spec fn spec_flipped(self) -> Site {
        Site { field: self.field.spec_flipped(), ..self }
    }

    /// Every link of the site leads into an arena of `count` sites.
    pub open spec fn linked_within(self, count: nat) -> bool {
        links_in_range(self.next@, count) && links_in_range(self.previous@, count)
    }

    /// The sum of the interactions of the site with each neighbour to which
    /// it has a link, forward or backward.
    pub open spec fn spec_local_energy(self, sites: Seq<Site>) -> int {
        links_energy(self.field, self.next@, sites) + links_energy(
            self.field,
            self.previous@,
            sites,
        )
    }

    /// A site at `position` of a lattice of the given shape, not yet linked
    /// to any neighbour.
    pub fn new(
        position: usize,
        initialisation: Initialisation,
        lattice_size: usize,
        dimensions: usize,
    ) -> (site: Site)
        requires
            lattice_size >= 1,
        ensures
            site.position == position,
            initialisation == Initialisation::Uniform ==> site.field == IsingField::Up,
            site.next@ == unlinked(dimensions),
            site.previous@ == unlinked(dimensions),
            site.lattice_position@ == lattice_coordinates(
                position,
                lattice_size,
                dimensions as nat,
            ),
            site.chessboard == checkerboard_colour(site.lattice_position@),
    {
        let lattice_position = position_to_lattice(position, lattice_size, dimensions);
        let colour = chessboard(lattice_position.as_slice());
        Site {
            id: fresh_id(),
            position,
            field: IsingField::new(initialisation),
            next: no_links(dimensions),
            previous: no_links(dimensions),
            lattice_position,
            chessboard: colour,
        }
    }

    /// Sets the forward link along `dimension`.
    pub fn update_next(&mut self, dimension: usize, site: Option<usize>)
        requires
            dimension < old(self).next@.len(),
        ensures
            *final(self) == (Site {
                next: final(self).next,
                ..*old(self)
            }),
            final(self).next@ == old(self).next@.update(dimension as int, site),
    {
        self.next[dimension] = site;
    }

    /// Sets the backward link along `dimension`.
    pub fn update_previous(&mut self, dimension: usize, site: Option<usize>)
        requires
            dimension < old(self).previous@.len(),
        ensures
            *final(self) == (Site {
                previous: final(self).previous,
                ..*old(self)
            }),
            final(self).previous@ == old(self).previous@.update(dimension as int, site),
    {
        self.previous[dimension] = site;
    }

    /// Reverses the spin.
    pub fn flip(&mut self)
        ensures
            *final(self) == old(self).spec_flipped(),
    {
        self.field = match self.field {
            IsingField::Up => IsingField::Down,
            IsingField::Down => IsingField::Up,
        };
    }

    /// The local energy of the site among the sites of its arena.
    pub fn local_energy(&self, sites: &Vec<Site>) -> (energy: i64)
        requires
            self.linked_within(sites@.len()),
            self.next@.len() + self.previous@.len() <= i64::MAX,
        ensures
            energy == self.spec_local_energy(sites@),
    {
        proof {
            lemma_links_energy_bounded(self.field, self.next@, sites@);
            lemma_links_energy_bounded(self.field, self.previous@, sites@);
        }
        let forward = sum_links(self.field, &self.next, sites);
        let backward = sum_links(self.field, &self.previous, sites);
        forward + backward
    }

    /// One Metropolis trial on the site at `position` of the arena.
    ///
    /// The spin is reversed, and `accept` is asked once, with the inverse
    /// temperature of the settings and the local energy before and after
    /// the reversal. Where it accepts, the reversal stands and the result is
    /// `true`; where it rejects, the spin is restored and the result is
    /// `false`.
    pub fn montecarlo_single_site<F: Fn(u64, i64, i64) -> bool>(
        sites: &mut Vec<Site>,
        position: usize,
        settings: &Settings,
        accept: &F,
    ) -> (accepted: bool)
        requires
            position < old(sites)@.len(),
            old(sites)@[position as int].linked_within(old(sites)@.len()),
            old(sites)@[position as int].next@.len() + old(sites)@[position as int].previous@.len()
                <= i64::MAX,
            accept.requires(
                (
                    settings.beta,
                    energy_at(old(sites)@, position as int) as i64,
                    energy_at(flip_site(old(sites)@, position as int), position as int) as i64,
                ),
            ),
        ensures
            accept.ensures(
                (
                    settings.beta,
                    energy_at(old(sites)@, position as int) as i64,
                    energy_at(flip_site(old(sites)@, position as int), position as int) as i64,
                ),
                accepted,
            ),
            final(sites)@ == (if accepted {
                flip_site(old(sites)@, position as int)
            } else {
                old(sites)@
            }),
    {
        let local_energy = sites[position].local_energy(sites);
        sites[position].flip();
        let new_local_energy = sites[position].local_energy(sites);
        if accept(settings.beta, local_energy, new_local_energy) {
            true
        } else {
            sites[position].flip();
            false
        }
    }
}

} // verus!
