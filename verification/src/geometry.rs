//! Lattice topology, sites and the lattice that owns them.

pub mod lattice_geometry;
pub mod site;
pub mod topology;
pub mod utils;
