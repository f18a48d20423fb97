//! The order of the trials of a sweep.
//!
//! A sweep has two phases. The first tries every site of colour `true`, the
//! second every site of colour `false`, each in the order of the positions.
//! The outcome of the trials is a sequence of decisions, one for each
//! position: whether the reversal of that spin was accepted.

use crate::field::ising::IsingField;
use crate::geometry::lattice_geometry::boundary_conditions::BoundaryConditions;
use crate::geometry::lattice_geometry::lattice::{lemma_links_of_lattice, well_formed};
use crate::geometry::site::{energy_at, flip_site, links_energy, Site};
use crate::geometry::topology::lemma_neighbours_differ_in_colour;
use crate::geometry::utils::Direction;
use crate::settings::Settings;
use vstd::prelude::*;

verus! {

/// In the phase of the given colour, when that phase has reached
/// `position`, the site at `other` has had its trial.
pub open spec fn tried(sites: Seq<Site>, other: int, colour: bool, position: int) -> bool {
    if sites[other].chessboard == colour {
        other < position
    } else {
        sites[other].chessboard
    }
}

/// The arena when the phase of the given colour has reached `position`:
/// the spin of a site is reversed where its trial is past and was accepted.
pub open spec fn arena_at(
    sites: Seq<Site>,
    decisions: Seq<bool>,
    colour: bool,
    position: int,
) -> Seq<Site> {
    Seq::new(
        sites.len(),
        |other: int|
            if decisions[other] && tried(sites, other, colour, position) {
                sites[other].spec_flipped()
            } else {
                sites[other]
            },
    )
}

/// The arena as the trial of the site at `position` finds it.
pub open spec fn before_trial(sites: Seq<Site>, decisions: Seq<bool>, position: int) -> Seq<Site> {
    arena_at(sites, decisions, sites[position].chessboard, position)
}

/// The arena at the start of the phase of the given colour.
pub open spec fn phase_start(sites: Seq<Site>, decisions: Seq<bool>, colour: bool) -> Seq<Site> {
    arena_at(sites, decisions, colour, 0)
}

/// The arena after the sweep: exactly the accepted reversals are made.
pub open spec fn after_sweep(sites: Seq<Site>, decisions: Seq<bool>) -> Seq<Site> {
    Seq::new(
        sites.len(),
        |other: int|
            if decisions[other] {
                sites[other].spec_flipped()
            } else {
                sites[other]
            },
    )
}

/// The local energy that the trial of the site at `position` finds.
pub open spec fn energy_before(sites: Seq<Site>, decisions: Seq<bool>, position: int) -> int {
    energy_at(before_trial(sites, decisions, position), position)
}

/// The local energy that the trial of the site at `position` proposes.
pub open spec fn energy_proposed(sites: Seq<Site>, decisions: Seq<bool>, position: int) -> int {
    energy_at(flip_site(before_trial(sites, decisions, position), position), position)
}

/// The decision at `position` is one that `accept` can give for the
/// energies of that trial.
pub open spec fn trial_decided_by<F: Fn(u64, i64, i64) -> bool>(
    accept: &F,
    beta: u64,
    sites: Seq<Site>,
    decisions: Seq<bool>,
    position: int,
) -> bool {
    accept.ensures(
        (
            beta,
            energy_before(sites, decisions, position) as i64,
            energy_proposed(sites, decisions, position) as i64,
        ),
        decisions[position],
    )
}

/// A decision that is not yet due at a trial does not change what that
/// trial finds.
pub proof fn lemma_later_decision_unseen(
    sites: Seq<Site>,
    decisions: Seq<bool>,
    later: int,
    decision: bool,
    colour: bool,
    position: int,
)
    requires
        0 <= later < decisions.len(),
        sites.len() == decisions.len(),
        !tried(sites, later, colour, position),
    ensures
        arena_at(sites, decisions.update(later, decision), colour, position) == arena_at(
            sites,
            decisions,
            colour,
            position,
        ),
{
}

/// The lattice can be coloured like a checkerboard: no two neighbours have
/// one colour. This holds where the axes have an even number of sites, and
/// where they are open.
pub open spec fn two_coloured(settings: Settings) -> bool {
    settings.lattice_size % 2 == 0 || settings.boundary_conditions == BoundaryConditions::Open
}

/// The spin of the site to which a link leads.
pub open spec fn spin_behind(link: Option<usize>, sites: Seq<Site>) -> IsingField {
    sites[link->0 as int].field
}

/// Two arenas hold the same spin wherever one of the links leads.
pub open spec fn same_spins_behind(
    links: Seq<Option<usize>>,
    first: Seq<Site>,
    second: Seq<Site>,
) -> bool {
    forall|axis: int|
        0 <= axis < links.len() && (#[trigger] links[axis]) is Some ==> spin_behind(
            links[axis],
            first,
        ) == spin_behind(links[axis], second)
}

/// The energy along links depends on the spins behind them alone.
pub proof fn lemma_energy_reads_linked_spins(
    field: IsingField,
    links: Seq<Option<usize>>,
    first: Seq<Site>,
    second: Seq<Site>,
)
    requires
        same_spins_behind(links, first, second),
    ensures
        links_energy(field, links, first) == links_energy(field, links, second),
    decreases links.len(),
{
    if links.len() > 0 {
        lemma_energy_reads_linked_spins(field, links.drop_last(), first, second);
    }
}

/// The colour of the site to which a link leads.
pub open spec fn colour_behind(link: Option<usize>, sites: Seq<Site>) -> bool {
    sites[link->0 as int].chessboard
}

/// In a lattice that can be coloured like a checkerboard, every neighbour
/// of a site has the other colour.
pub proof fn lemma_links_cross_colours(sites: Seq<Site>, settings: Settings, position: int)
    requires
        well_formed(sites, settings),
        two_coloured(settings),
        0 <= position < sites.len(),
    ensures
        forall|axis: int|
            0 <= axis < settings.dimensions && (#[trigger] sites[position].next@[axis]) is Some
                ==> colour_behind(sites[position].next@[axis], sites)
                != sites[position].chessboard,
        forall|axis: int|
            0 <= axis < settings.dimensions && (#[trigger] sites[position].previous@[axis]) is Some
                ==> colour_behind(sites[position].previous@[axis], sites)
                != sites[position].chessboard,
{
    let size = settings.lattice_size;
    let dimensions = settings.dimensions;
    let boundary = settings.boundary_conditions;
    let site = sites[position];
    lemma_links_of_lattice(sites, settings, position);
    assert forall|axis: int|
        0 <= axis < settings.dimensions && (#[trigger] site.next@[axis]) is Some
        implies colour_behind(site.next@[axis], sites) != site.chessboard by {
        lemma_neighbours_differ_in_colour(
            position as usize,
            axis as usize,
            Direction::Forward,
            boundary,
            size,
            dimensions,
        );
    }
    assert forall|axis: int|
        0 <= axis < settings.dimensions && (#[trigger] site.previous@[axis]) is Some
        implies colour_behind(site.previous@[axis], sites) != site.chessboard by {
        lemma_neighbours_differ_in_colour(
            position as usize,
            axis as usize,
            Direction::Backward,
            boundary,
            size,
            dimensions,
        );
    }
}

/// The trials of a phase are independent: in a lattice that can be coloured
/// like a checkerboard, a trial finds and proposes the energies that it
/// would at the start of its phase, whatever the trials before it in that
/// phase decided. The phase may therefore run in any order, or all at once.
pub proof fn lemma_trials_of_a_phase_are_independent(
    sites: Seq<Site>,
    settings: Settings,
    decisions: Seq<bool>,
    position: int,
)
    requires
        well_formed(sites, settings),
        two_coloured(settings),
        decisions.len() == sites.len(),
        0 <= position < sites.len(),
    ensures
        energy_before(sites, decisions, position) == energy_at(
            phase_start(sites, decisions, sites[position].chessboard),
            position,
        ),
        energy_proposed(sites, decisions, position) == energy_at(
            flip_site(phase_start(sites, decisions, sites[position].chessboard), position),
            position,
        ),
{
    let colour = sites[position].chessboard;
    let found = before_trial(sites, decisions, position);
    let start = phase_start(sites, decisions, colour);
    let site = sites[position];
    lemma_links_of_lattice(sites, settings, position);
    lemma_links_cross_colours(sites, settings, position);
    lemma_energy_reads_linked_spins(site.field, site.next@, found, start);
    lemma_energy_reads_linked_spins(site.field, site.previous@, found, start);
    let turned = site.spec_flipped();
    lemma_energy_reads_linked_spins(
        turned.field,
        site.next@,
        flip_site(found, position),
        flip_site(start, position),
    );
    lemma_energy_reads_linked_spins(
        turned.field,
        site.previous@,
        flip_site(found, position),
        flip_site(start, position),
    );
}

/// Every decision is the one that `rule` gives for the position of the
/// trial and the energies that the trial finds and proposes.
pub open spec fn follows_rule(
    sites: Seq<Site>,
    decisions: Seq<bool>,
    rule: spec_fn(int, int, int) -> bool,
) -> bool {
    forall|position: int|
        0 <= position < sites.len() ==> #[trigger] decisions[position] == rule(
            position,
            energy_before(sites, decisions, position),
            energy_proposed(sites, decisions, position),
        )
}

proof fn lemma_decisions_agree_so_far(
    sites: Seq<Site>,
    first: Seq<bool>,
    second: Seq<bool>,
    rule: spec_fn(int, int, int) -> bool,
    colour: bool,
    position: int,
)
    requires
        first.len() == sites.len(),
        second.len() == sites.len(),
        follows_rule(sites, first, rule),
        follows_rule(sites, second, rule),
        0 <= position <= sites.len(),
    ensures
        forall|other: int|
            0 <= other < sites.len() && tried(sites, other, colour, position) ==> first[other]
                == second[other],
        arena_at(sites, first, colour, position) == arena_at(sites, second, colour, position),
    decreases
            (if colour {
                0
            } else {
                sites.len() + 1
            }) + position,
{
    if position > 0 {
        let last = position - 1;
        lemma_decisions_agree_so_far(sites, first, second, rule, colour, last);
        if sites[last].chessboard == colour {
            assert(before_trial(sites, first, last) == before_trial(sites, second, last));
        }
    } else if !colour {
        lemma_decisions_agree_so_far(sites, first, second, rule, true, sites.len() as int);
    }
}

/// A sweep is determined by its start and its draws: where every decision
/// follows one rule from the position of the trial and the energies that
/// it finds and proposes, two sweeps from one arena take the same
/// decisions and end in the same arena.
pub proof fn lemma_sweep_is_determined(
    sites: Seq<Site>,
    first: Seq<bool>,
    second: Seq<bool>,
    rule: spec_fn(int, int, int) -> bool,
)
    requires
        first.len() == sites.len(),
        second.len() == sites.len(),
        follows_rule(sites, first, rule),
        follows_rule(sites, second, rule),
    ensures
        first == second,
        after_sweep(sites, first) == after_sweep(sites, second),
{
    lemma_decisions_agree_so_far(sites, first, second, rule, false, sites.len() as int);
}

} // verus!
