//! The value carried by a site and the policy by which it is first set.

pub mod initialisation;
pub mod ising;
pub mod schema;
