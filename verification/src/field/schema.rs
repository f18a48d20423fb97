use vstd::prelude::*;

verus! {

/// A value that interacts pairwise with values of type `T`.
pub trait Field<T> {
    /// The interaction energy of `self` with `site`.
    spec fn spec_interaction(&self, site: &T) -> int;

    fn interaction(&self, site: &T) -> (energy: i64)
        ensures
            energy == self.spec_interaction(site),
    ;
}

} // verus!
