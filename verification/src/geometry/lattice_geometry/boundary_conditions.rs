use vstd::prelude::*;

verus! {

/// What lies past the ends of an axis.
#[derive(Clone, Copy, Debug, PartialEq, Eq, Structural)]
pub enum BoundaryConditions {
    /// The axis closes on itself: the last site is followed by the first.
    Periodic,
    /// The axis ends: the first site has no predecessor, the last no successor.
    Open,
}

} // verus!
