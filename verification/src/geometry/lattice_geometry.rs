//! The lattice and the conditions at its boundary.

pub mod boundary_conditions;
pub mod energy;
pub mod lattice;
pub mod schedule;
pub mod sums;
