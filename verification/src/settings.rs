//! The configuration of a lattice.

use crate::field::initialisation::Initialisation;
use crate::geometry::lattice_geometry::boundary_conditions::BoundaryConditions;
use vstd::prelude::*;

verus! {

/// The number of axes that a builder gives a lattice.
pub const DIMENSIONS: usize = 2;

/// The number of sites along each axis that a builder gives a lattice.
pub const LATTICE_SIZE: usize = 20;

/// What a lattice is made from.
#[derive(Clone, Copy, Debug, PartialEq, Eq, Structural)]
pub struct Settings {
    /// The number of axes.
    pub dimensions: usize,
    /// The number of sites along each axis.
    pub lattice_size: usize,
    /// The inverse temperature, as the bits of a double-precision number.
    /// It is kept for the acceptance rule and never interpreted here.
    pub beta: u64,
    pub boundary_conditions: BoundaryConditions,
    pub site_initialisation: Initialisation,
}

/// Collects the settings that do not fix the shape of the lattice.
#[derive(Clone, Copy, Debug, PartialEq, Eq, Structural)]
pub struct SettingsBuilder {
    /// The inverse temperature, as the bits of a double-precision number.
    pub beta: u64,
    pub boundary_conditions: BoundaryConditions,
    pub site_initialisation: Initialisation,
}

impl Default for SettingsBuilder {
    fn default() -> (builder: Self)
        ensures
            builder == SettingsBuilder::initial(),
    {
        Self::new()
    }
}

impl SettingsBuilder {
    /// What a builder holds before anything is added: an inverse
    /// temperature of zero, periodic boundaries and a uniform start.
    pub open spec fn initial() -> SettingsBuilder {
        SettingsBuilder {
            beta: 0,
            boundary_conditions: BoundaryConditions::Periodic,
            site_initialisation: Initialisation::Uniform,
        }
    }

    pub fn new() -> (builder: SettingsBuilder)
        ensures
            builder == SettingsBuilder::initial(),
    {
        Self {
            beta: 0,
            boundary_conditions: BoundaryConditions::Periodic,
            site_initialisation: Initialisation::Uniform,
        }
    }

    /// Sets the inverse temperature and returns the builder so changed.
    pub fn add_beta(&mut self, beta: u64) -> (builder: SettingsBuilder)
        ensures
            *final(self) == (SettingsBuilder { beta, ..*old(self) }),
            builder == *final(self),
    {
        self.beta = beta;
        Self {
            beta,
            boundary_conditions: self.boundary_conditions,
            site_initialisation: self.site_initialisation,
        }
    }

    /// Sets the boundary conditions and returns the builder so changed.
    pub fn add_boundary_conditions(&mut self, boundary_conditions: BoundaryConditions) -> (builder:
        SettingsBuilder)
        ensures
            *final(self) == (SettingsBuilder { boundary_conditions, ..*old(self) }),
            builder == *final(self),
    {
        self.boundary_conditions = boundary_conditions;
        Self {
            beta: self.beta,
            boundary_conditions,
            site_initialisation: self.site_initialisation,
        }
    }

    /// Sets the start of the spins and returns the builder so changed.
    pub fn add_site_initialisation(&mut self, site_initialisation: Initialisation) -> (builder:
        SettingsBuilder)
        ensures
            *final(self) == (SettingsBuilder { site_initialisation, ..*old(self) }),
            builder == *final(self),
    {
        self.site_initialisation = site_initialisation;
        Self {
            beta: self.beta,
            boundary_conditions: self.boundary_conditions,
            site_initialisation,
        }
    }

    /// The settings of a lattice of the usual shape with what the builder holds.
    pub fn build(self) -> (settings: Settings)
        ensures
            settings == (Settings {
                dimensions: DIMENSIONS,
                lattice_size: LATTICE_SIZE,
                beta: self.beta,
                boundary_conditions: self.boundary_conditions,
                site_initialisation: self.site_initialisation,
            }),
    {
        Settings {
            dimensions: DIMENSIONS,
            lattice_size: LATTICE_SIZE,
            beta: self.beta,
            boundary_conditions: self.boundary_conditions,
            site_initialisation: self.site_initialisation,
        }
    }
}

} // verus!
