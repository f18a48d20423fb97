use ising_montecarlo::field::initialisation::Initialisation;
use ising_montecarlo::field::ising::IsingField;
use ising_montecarlo::geometry::lattice_geometry::boundary_conditions::BoundaryConditions;
use ising_montecarlo::geometry::site::Site;
use ising_montecarlo::settings::{Settings, SettingsBuilder};
use rand::Rng;

const LATTICE_SIZE: usize = 4;
const DIMENSIONS: usize = 3;

fn metropolis(beta: u64, local_energy: i64, new_local_energy: i64) -> bool {
    let energy_ratio = (-f64::from_bits(beta) * (new_local_energy - local_energy) as f64).exp();
    if energy_ratio > 1.0 {
        true
    } else {
        rand::rng().random_range(0.0..=1.0) < energy_ratio
    }
}

fn test_settings() -> Settings {
    let mut settings = SettingsBuilder {
        beta: 1.0f64.to_bits(),
        boundary_conditions: BoundaryConditions::Periodic,
        site_initialisation: Initialisation::Uniform,
    }
    .build();
    settings.dimensions = DIMENSIONS;
    settings.lattice_size = LATTICE_SIZE;
    settings
}

#[test]
fn test_site_new() {
    let position = 0;
    let initialisation = Initialisation::Uniform;
    let site = Site::new(position, initialisation.clone(), LATTICE_SIZE, DIMENSIONS);
    assert_eq!(site.position, position);
    assert_eq!(site.field, IsingField::new(initialisation));
}

#[test]
fn site_test_site_new() {
    let position = 0;
    let initialisation = Initialisation::Uniform;
    let site = Site::new(position, initialisation.clone(), LATTICE_SIZE, DIMENSIONS);
    assert_eq!(site.position, position);
    assert_eq!(site.field, IsingField::new(initialisation));
    assert_eq!(site.next, [None; DIMENSIONS]);
    assert_eq!(site.previous, [None; DIMENSIONS]);
}

#[test]
fn test_site_flip() {
    let position = 0;
    let initialisation = Initialisation::Uniform;
    let mut site = Site::new(position, initialisation.clone(), LATTICE_SIZE, DIMENSIONS);
    site.flip();
    assert_eq!(site.field, IsingField::Down);
}

#[test]
fn site_test_site_flip() {
    let position = 0;
    let initialisation = Initialisation::Uniform;
    let mut site = Site::new(position, initialisation.clone(), LATTICE_SIZE, DIMENSIONS);
    site.flip();
    assert_eq!(site.field, IsingField::Down);
    site.flip();
    assert_eq!(site.field, IsingField::Up);
}

#[test]
fn test_site_local_energy() {
    let position = 0;
    let initialisation = Initialisation::Uniform;
    let site = Site::new(position, initialisation.clone(), LATTICE_SIZE, DIMENSIONS);
    assert_eq!(site.local_energy(&Vec::new()) as f64, 0.0);
}

#[test]
fn test_site_montecarlo_single_site() {
    let settings = test_settings();
    let site = Site::new(0, Initialisation::Uniform, LATTICE_SIZE, DIMENSIONS);
    let mut sites = vec![site];
    Site::montecarlo_single_site(&mut sites, 0, &settings, &metropolis);
}

#[test]
fn test_site_new_knows_its_place() {
    let site = Site::new(27, Initialisation::Uniform, LATTICE_SIZE, DIMENSIONS);
    assert_eq!(site.position, 27);
    assert_eq!(site.lattice_position, [3, 2, 1]);
    assert_eq!(site.chessboard, true);
    let site = Site::new(28, Initialisation::Random, LATTICE_SIZE, DIMENSIONS);
    assert_eq!(site.lattice_position, [0, 3, 1]);
    assert_eq!(site.chessboard, true);
    let site = Site::new(1, Initialisation::Random, LATTICE_SIZE, DIMENSIONS);
    assert_eq!(site.chessboard, false);
}

#[test]
fn test_site_update_links() {
    let mut site = Site::new(0, Initialisation::Uniform, LATTICE_SIZE, DIMENSIONS);
    site.update_next(1, Some(4));
    site.update_previous(2, Some(48));
    assert_eq!(site.next, [None, Some(4), None]);
    assert_eq!(site.previous, [None, None, Some(48)]);
    site.update_next(1, None);
    assert_eq!(site.next, [None; DIMENSIONS]);
}

#[test]
fn test_site_clone_takes_new_id() {
    let mut site = Site::new(5, Initialisation::Uniform, LATTICE_SIZE, DIMENSIONS);
    site.update_next(0, Some(6));
    site.flip();
    let copy = site.clone();
    assert_ne!(copy.id, site.id);
    assert_eq!(copy.position, site.position);
    assert_eq!(copy.field, IsingField::Down);
    assert_eq!(copy.next, site.next);
    assert_eq!(copy.previous, site.previous);
    assert_eq!(copy.lattice_position, site.lattice_position);
    assert_eq!(copy.chessboard, site.chessboard);
}

#[test]
fn test_site_ids_differ() {
    let first = Site::new(0, Initialisation::Uniform, LATTICE_SIZE, DIMENSIONS);
    let second = Site::new(0, Initialisation::Uniform, LATTICE_SIZE, DIMENSIONS);
    assert_ne!(first.id, second.id);
}

#[test]
fn test_site_local_energy_counts_present_links() {
    let mut sites = vec![
        Site::new(0, Initialisation::Uniform, 3, 1),
        Site::new(1, Initialisation::Uniform, 3, 1),
        Site::new(2, Initialisation::Uniform, 3, 1),
    ];
    sites[1].update_next(0, Some(2));
    sites[1].update_previous(0, Some(0));
    sites[0].update_next(0, Some(1));
    assert_eq!(sites[1].local_energy(&sites), 2);
    assert_eq!(sites[0].local_energy(&sites), 1);
    assert_eq!(sites[2].local_energy(&sites), 0);
    sites[2].flip();
    assert_eq!(sites[1].local_energy(&sites), 0);
    sites[0].flip();
    assert_eq!(sites[1].local_energy(&sites), -2);
    sites[1].flip();
    assert_eq!(sites[1].local_energy(&sites), 2);
}

#[test]
fn test_single_site_trial_hands_over_the_energies() {
    let mut settings = test_settings();
    settings.beta = 2.5f64.to_bits();
    let mut sites = vec![
        Site::new(0, Initialisation::Uniform, 3, 1),
        Site::new(1, Initialisation::Uniform, 3, 1),
        Site::new(2, Initialisation::Uniform, 3, 1),
    ];
    sites[1].update_next(0, Some(2));
    sites[1].update_previous(0, Some(0));
    let seen = std::cell::Cell::new((0u64, 0i64, 0i64));
    let accepted = Site::montecarlo_single_site(&mut sites, 1, &settings, &|beta, before, after| {
        seen.set((beta, before, after));
        true
    });
    assert!(accepted);
    assert_eq!(seen.get(), (2.5f64.to_bits(), 2, -2));
    assert_eq!(sites[1].field, IsingField::Down);
    let accepted = Site::montecarlo_single_site(&mut sites, 1, &settings, &|beta, before, after| {
        seen.set((beta, before, after));
        false
    });
    assert!(!accepted);
    assert_eq!(seen.get(), (2.5f64.to_bits(), -2, 2));
    assert_eq!(sites[1].field, IsingField::Down);
    assert_eq!(sites[0].field, IsingField::Up);
    assert_eq!(sites[2].field, IsingField::Up);
}

#[test]
fn test_lower_energy_is_always_accepted() {
    let settings = test_settings();
    for _ in 0..200 {
        let mut sites = vec![
            Site::new(0, Initialisation::Uniform, 3, 1),
            Site::new(1, Initialisation::Uniform, 3, 1),
            Site::new(2, Initialisation::Uniform, 3, 1),
        ];
        sites[1].update_next(0, Some(2));
        sites[1].update_previous(0, Some(0));
        assert!(Site::montecarlo_single_site(&mut sites, 1, &settings, &metropolis));
        assert_eq!(sites[1].field, IsingField::Down);
    }
}

#[test]
fn test_zero_beta_has_ratio_one() {
    for (before, after) in [(2, -2), (-2, 2), (0, 0), (6, -6), (-6, 6)] {
        let ratio = (-0.0f64 * (after - before) as f64).exp();
        assert_eq!(ratio, 1.0);
        let _ = metropolis(0.0f64.to_bits(), before, after);
    }
}

#[test]
fn test_site_equality_ignores_the_id() {
    let first = Site::new(3, Initialisation::Uniform, LATTICE_SIZE, DIMENSIONS);
    let second = Site::new(3, Initialisation::Uniform, LATTICE_SIZE, DIMENSIONS);
    assert_ne!(first.id, second.id);
    assert!(first == second);
    assert!(first == first.clone());
}

#[test]
fn test_site_equality_reads_position_spin_and_links() {
    let site = Site::new(3, Initialisation::Uniform, LATTICE_SIZE, DIMENSIONS);
    let elsewhere = Site::new(4, Initialisation::Uniform, LATTICE_SIZE, DIMENSIONS);
    assert!(site != elsewhere);
    let mut turned = site.clone();
    turned.flip();
    assert!(site != turned);
    let mut linked = site.clone();
    linked.update_next(0, Some(0));
    assert!(site != linked);
    let mut linked_back = site.clone();
    linked_back.update_previous(2, Some(51));
    assert!(site != linked_back);
    let mut other = site.clone();
    other.update_next(0, Some(1));
    assert!(linked != other);
    other.update_next(0, Some(0));
    assert!(linked == other);
}

#[test]
fn test_site_equality_leaves_absent_links_out() {
    let mut first = Site::new(3, Initialisation::Uniform, LATTICE_SIZE, DIMENSIONS);
    let mut second = first.clone();
    first.update_next(0, Some(7));
    second.update_next(2, Some(7));
    assert!(first == second);
    second.update_next(1, Some(7));
    assert!(first != second);
}
