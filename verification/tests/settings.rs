use ising_montecarlo::field::initialisation::Initialisation;
use ising_montecarlo::geometry::lattice_geometry::boundary_conditions::BoundaryConditions;
use ising_montecarlo::settings::{SettingsBuilder, DIMENSIONS, LATTICE_SIZE};

#[test]
fn test_settings_builder_add_beta() {
    let builder = SettingsBuilder::new()
        .add_beta(1.0f64.to_bits())
        .add_boundary_conditions(BoundaryConditions::Periodic)
        .add_site_initialisation(Initialisation::Uniform);
    let settings = builder.build();
    assert_eq!(f64::from_bits(settings.beta), 1.0);
    assert_eq!(settings.boundary_conditions, BoundaryConditions::Periodic);
    assert_eq!(settings.site_initialisation, Initialisation::Uniform);
}

#[test]
fn test_settings_builder() {
    let settings = SettingsBuilder {
        beta: 1.0f64.to_bits(),
        boundary_conditions: BoundaryConditions::Periodic,
        site_initialisation: Initialisation::Uniform,
    }
    .build();
    assert_eq!(settings.dimensions, DIMENSIONS);
    assert_eq!(settings.lattice_size, LATTICE_SIZE);
    assert_eq!(f64::from_bits(settings.beta), 1.0);
    assert_eq!(settings.boundary_conditions, BoundaryConditions::Periodic);
    assert_eq!(settings.site_initialisation, Initialisation::Uniform);
}

#[test]
fn test_settings_builder_starts_empty() {
    let settings = SettingsBuilder::new().build();
    assert_eq!(f64::from_bits(settings.beta), 0.0);
    assert_eq!(settings.boundary_conditions, BoundaryConditions::Periodic);
    assert_eq!(settings.site_initialisation, Initialisation::Uniform);
    assert_eq!(SettingsBuilder::default(), SettingsBuilder::new());
}

#[test]
fn test_settings_builder_keeps_what_was_added() {
    let mut builder = SettingsBuilder::new();
    let returned = builder.add_boundary_conditions(BoundaryConditions::Open);
    assert_eq!(returned, builder);
    let returned = builder.add_site_initialisation(Initialisation::Random);
    assert_eq!(returned, builder);
    let returned = builder.add_beta(0.5f64.to_bits());
    assert_eq!(returned, builder);
    let settings = builder.build();
    assert_eq!(f64::from_bits(settings.beta), 0.5);
    assert_eq!(settings.boundary_conditions, BoundaryConditions::Open);
    assert_eq!(settings.site_initialisation, Initialisation::Random);
    assert_eq!(settings.dimensions, 2);
    assert_eq!(settings.lattice_size, 20);
}
