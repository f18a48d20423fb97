use ising_montecarlo::field::initialisation::Initialisation;
use ising_montecarlo::field::ising::IsingField;
use ising_montecarlo::field::schema::Field;

#[test]
fn test_ising_field_interaction() {
    let up = IsingField::Up;
    let down = IsingField::Down;
    assert_eq!(up.interaction(&up) as f64, 1.0);
    assert_eq!(up.interaction(&down) as f64, -1.0);
    assert_eq!(down.interaction(&up) as f64, -1.0);
    assert_eq!(down.interaction(&down) as f64, 1.0);
}

#[test]
fn test_ising_field_new() {
    let random = IsingField::new(Initialisation::Random);
    let uniform = IsingField::new(Initialisation::Uniform);
    assert!(random == IsingField::Up || random == IsingField::Down);
    assert_eq!(uniform, IsingField::Up);
}

#[test]
fn test_ising_field_from_coin() {
    assert_eq!(IsingField::from_coin(true), IsingField::Up);
    assert_eq!(IsingField::from_coin(false), IsingField::Down);
}

#[test]
fn test_ising_field_random_gives_both() {
    let mut ups = 0;
    let mut downs = 0;
    for _ in 0..400 {
        match IsingField::new(Initialisation::Random) {
            IsingField::Up => ups += 1,
            IsingField::Down => downs += 1,
        }
    }
    assert!(ups > 0);
    assert!(downs > 0);
}
