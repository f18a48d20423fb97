use crate::field::initialisation::Initialisation;
use crate::field::schema::Field;
use vstd::prelude::*;

verus! {

/// A two-state spin.
#[derive(Clone, Copy, Debug, PartialEq, Eq, Structural)]
pub enum IsingField {
    Up,
    Down,
}

/// A fair coin from the thread-local generator of `rand`, by `rand::random::<bool>`.
/// Nothing is claimed of the outcome.
#[verifier::external_body]
fn fair_coin() -> (heads: bool) {
    rand::random::<bool>()
}

impl IsingField {
    /// The opposite spin.
    pub open spec fn spec_flipped(self) -> IsingField {
        match self {
            IsingField::Up => IsingField::Down,
            IsingField::Down => IsingField::Up,
        }
    }

    /// The spin that a coin toss selects: heads is up.
    pub fn from_coin(heads: bool) -> (field: IsingField)
        ensures
            field == (if heads { IsingField::Up } else { IsingField::Down }),
    {
        if heads {
            IsingField::Up
        } else {
            IsingField::Down
        }
    }

    /// A spin chosen by the given policy. A uniform start is always up; a
    /// random start may be either value.
    pub fn new(initialisation: Initialisation) -> (field: IsingField)
        ensures
            initialisation == Initialisation::Uniform ==> field == IsingField::Up,
    {
        match initialisation {
            Initialisation::Random => IsingField::from_coin(fair_coin()),
            Initialisation::Uniform => IsingField::Up,
        }
    }
}

/// Interaction energy of two spins: `1` when aligned, `-1` when opposed.
pub open spec fn ising_interaction(a: IsingField, b: IsingField) -> int {
    if a == b {
        1
    } else {
        -1
    }
}

impl Field<IsingField> for IsingField {
    open spec fn spec_interaction(&self, site: &IsingField) -> int {
        ising_interaction(*self, *site)
    }

    fn interaction(&self, site: &IsingField) -> (energy: i64) {
        match self {
            IsingField::Up => match site {
                IsingField::Up => 1,
                IsingField::Down => -1,
            },
            IsingField::Down => match site {
                IsingField::Up => -1,
                IsingField::Down => 1,
            },
        }
    }
}

} // verus!
