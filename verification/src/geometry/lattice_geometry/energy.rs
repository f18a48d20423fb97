//! The energy of a whole arena of sites.

use crate::field::ising::{ising_interaction, IsingField};
use crate::geometry::lattice_geometry::lattice::{lemma_links_of_lattice, well_formed};
use crate::geometry::lattice_geometry::sums::{
    column_sum,
    lemma_column_of_column_sums,
    lemma_column_of_none,
    lemma_column_of_one,
    lemma_column_of_row_sums,
    lemma_columns_agree,
    lemma_row_of_none,
    lemma_row_of_one,
    lemma_sum_either_way,
    row_sum,
    sum_by_rows,
};
use crate::geometry::site::{
    energy_at,
    flip_site,
    lemma_links_energy_bounded,
    link_energy,
    links_energy,
    Site,
};
use crate::geometry::topology::lemma_links_are_mutual;
use crate::settings::Settings;
use vstd::prelude::*;

verus! {

/// The sum of the local energies of the first `count` sites.
pub open spec fn energy_sum(sites: Seq<Site>, count: int) -> int
    decreases count,
{
    if count <= 0 {
        0
    } else {
        energy_sum(sites, count - 1) + energy_at(sites, count - 1)
    }
}

/// The total energy: every bond is seen from both of its ends, so the sum
/// of the local energies counts it twice.
pub open spec fn total_energy(sites: Seq<Site>) -> int {
    energy_sum(sites, sites.len() as int) / 2
}

/// The sum, over the first `count` sites, of the interactions along their
/// forward links: every bond once.
pub open spec fn bond_sum(sites: Seq<Site>, count: int) -> int
    decreases count,
{
    if count <= 0 {
        0
    } else {
        bond_sum(sites, count - 1) + links_energy(
            sites[count - 1].field,
            sites[count - 1].next@,
            sites,
        )
    }
}

/// The interaction along the forward link of a site along an axis.
pub open spec fn forward_bond(sites: Seq<Site>, position: int, axis: int) -> int {
    link_energy(sites[position].field, sites[position].next@[axis], sites)
}

/// The interaction along the backward link of a site along an axis.
pub open spec fn backward_bond(sites: Seq<Site>, position: int, axis: int) -> int {
    link_energy(sites[position].field, sites[position].previous@[axis], sites)
}

/// The interaction of the first site with the second where the forward
/// link of the first along the axis leads to the second, and zero elsewhere.
pub open spec fn bond_between(sites: Seq<Site>, axis: int, from: int, to: int) -> int {
    if sites[from].next@[axis] == Some(to as usize) {
        ising_interaction(sites[from].field, sites[to].field)
    } else {
        0
    }
}

/// The local energy of a site is bounded by the number of its links.
pub proof fn lemma_energy_at_bounded(sites: Seq<Site>, position: int)
    ensures
        -(sites[position].next@.len() + sites[position].previous@.len()) <= energy_at(
            sites,
            position,
        ) <= sites[position].next@.len() + sites[position].previous@.len(),
{
    lemma_links_energy_bounded(sites[position].field, sites[position].next@, sites);
    lemma_links_energy_bounded(sites[position].field, sites[position].previous@, sites);
}

/// Reversing the spin of a site twice gives back the arena, and with it
/// the total energy.
pub proof fn lemma_double_flip_restores_energy(sites: Seq<Site>, position: int)
    requires
        0 <= position < sites.len(),
    ensures
        flip_site(flip_site(sites, position), position) == sites,
        total_energy(flip_site(flip_site(sites, position), position)) == total_energy(sites),
{
    assert(flip_site(flip_site(sites, position), position) =~= sites);
}

proof fn lemma_links_energy_is_row_sum(
    field: IsingField,
    links: Seq<Option<usize>>,
    sites: Seq<Site>,
    cell: spec_fn(int, int) -> int,
    row: int,
    count: int,
)
    requires
        0 <= count <= links.len(),
        forall|axis: int|
            0 <= axis < count ==> #[trigger] cell(row, axis) == link_energy(
                field,
                links[axis],
                sites,
            ),
    ensures
        links_energy(field, links.take(count), sites) == row_sum(cell, row, count),
    decreases count,
{
    if count > 0 {
        lemma_links_energy_is_row_sum(field, links, sites, cell, row, count - 1);
        assert(links.take(count).drop_last() =~= links.take(count - 1));
    }
}

proof fn lemma_energy_by_rows(sites: Seq<Site>, settings: Settings, count: int)
    requires
        well_formed(sites, settings),
        0 <= count <= sites.len(),
    ensures
        bond_sum(sites, count) == sum_by_rows(
            |position: int, axis: int| forward_bond(sites, position, axis),
            count,
            settings.dimensions as int,
        ),
        energy_sum(sites, count) == sum_by_rows(
            |position: int, axis: int| forward_bond(sites, position, axis),
            count,
            settings.dimensions as int,
        ) + sum_by_rows(
            |position: int, axis: int| backward_bond(sites, position, axis),
            count,
            settings.dimensions as int,
        ),
    decreases count,
{
    if count > 0 {
        let forward = |position: int, axis: int| forward_bond(sites, position, axis);
        let backward = |position: int, axis: int| backward_bond(sites, position, axis);
        let last = count - 1;
        let site = sites[last];
        lemma_energy_by_rows(sites, settings, last);
        lemma_links_energy_is_row_sum(
            site.field,
            site.next@,
            sites,
            forward,
            last,
            settings.dimensions as int,
        );
        lemma_links_energy_is_row_sum(
            site.field,
            site.previous@,
            sites,
            backward,
            last,
            settings.dimensions as int,
        );
        assert(site.next@.take(settings.dimensions as int) =~= site.next@);
        assert(site.previous@.take(settings.dimensions as int) =~= site.previous@);
    }
}

proof fn lemma_axis_sums_agree(sites: Seq<Site>, settings: Settings, axis: int)
    requires
        well_formed(sites, settings),
        0 <= axis < settings.dimensions,
    ensures
        column_sum(
            |position: int, axis: int| backward_bond(sites, position, axis),
            axis,
            sites.len() as int,
        ) == column_sum(
            |position: int, axis: int| forward_bond(sites, position, axis),
            axis,
            sites.len() as int,
        ),
{
    let forward = |position: int, axis: int| forward_bond(sites, position, axis);
    let backward = |position: int, axis: int| backward_bond(sites, position, axis);
    let between = |from: int, to: int| bond_between(sites, axis, from, to);
    let count = sites.len() as int;
    let size = settings.lattice_size;
    let dimensions = settings.dimensions;
    let boundary = settings.boundary_conditions;
    assert forall|from: int| 0 <= from < count implies #[trigger] forward(from, axis) == row_sum(
        between,
        from,
        count,
    ) by {
        lemma_links_of_lattice(sites, settings, from);
        let link = sites[from].next@[axis];
        match link {
            Some(to) => {
                lemma_row_of_one(between, from, count, to as int);
            },
            None => {
                lemma_row_of_none(between, from, count);
            },
        }
    }
    assert forall|to: int| 0 <= to < count implies #[trigger] backward(to, axis) == column_sum(
        between,
        to,
        count,
    ) by {
        lemma_links_of_lattice(sites, settings, to);
        let link = sites[to].previous@[axis];
        assert forall|from: int| 0 <= from < count implies (sites[from].next@[axis] == Some(
            to as usize,
        ) <==> link == Some(from as usize)) by {
            lemma_links_are_mutual(
                from as usize,
                to as usize,
                axis as usize,
                boundary,
                size,
                dimensions,
            );
        }
        match link {
            Some(from) => {
                lemma_column_of_one(between, to, count, from as int);
            },
            None => {
                lemma_column_of_none(between, to, count);
            },
        }
    }
    lemma_column_of_row_sums(forward, axis, between, count, count);
    lemma_column_of_column_sums(backward, axis, between, count, count);
    lemma_sum_either_way(between, count, count);
}

/// Every bond counts twice: in a lattice the local energies sum to twice
/// the sum of the interactions along the forward links. The sum of the
/// local energies is therefore even, and its half is the energy of the bonds.
pub proof fn lemma_every_bond_counts_twice(sites: Seq<Site>, settings: Settings)
    requires
        well_formed(sites, settings),
    ensures
        energy_sum(sites, sites.len() as int) == 2 * bond_sum(sites, sites.len() as int),
        total_energy(sites) == bond_sum(sites, sites.len() as int),
{
    let forward = |position: int, axis: int| forward_bond(sites, position, axis);
    let backward = |position: int, axis: int| backward_bond(sites, position, axis);
    let count = sites.len() as int;
    let axes = settings.dimensions as int;
    lemma_energy_by_rows(sites, settings, count);
    lemma_sum_either_way(forward, count, axes);
    lemma_sum_either_way(backward, count, axes);
    assert forall|axis: int| 0 <= axis < axes implies #[trigger] column_sum(backward, axis, count)
        == column_sum(forward, axis, count) by {
        lemma_axis_sums_agree(sites, settings, axis);
    }
    lemma_columns_agree(backward, forward, count, axes);
}

} // verus!
