//! A classical two-state spin system on a regular lattice, evolved by
//! single-site Metropolis updates on a checkerboard schedule.
//!
//! Sites live in a flat arena and refer to their neighbours by position.
//! Energies are exact integers; the acceptance rule of a trial is supplied
//! by the caller.

pub mod field;
pub mod geometry;
pub mod settings;
