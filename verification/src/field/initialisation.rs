use vstd::prelude::*;

verus! {

/// How the spin of a freshly created site is chosen.
#[derive(Clone, Copy, Debug, PartialEq, Eq, Structural)]
pub enum Initialisation {
    /// Up or down with equal probability, independently for each site.
    Random,
    /// Always up.
    Uniform,
}

} // verus!
