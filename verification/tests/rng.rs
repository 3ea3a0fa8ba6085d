use dotlottie::state_machine_engine::rng::{Pcg32, DEFAULT_RNG_SEED};

#[test]
fn same_seed_same_sequence() {
    let mut a = Pcg32::new(42);
    let mut b = Pcg32::new(42);
    for _ in 0..1000 {
        assert_eq!(a.next_u32(), b.next_u32());
    }
}

#[test]
fn different_seeds_diverge() {
    let mut a = Pcg32::new(1);
    let mut b = Pcg32::new(2);
    // Extremely unlikely to match on the first draw for distinct seeds.
    assert_ne!(a.next_u32(), b.next_u32());
}

#[test]
fn known_outputs_for_seed_42() {
    let mut rng = Pcg32::new(42);
    assert_eq!(rng.next_u32(), 1898997482);
    assert_eq!(rng.next_u32(), 1014631766);
    assert_eq!(rng.next_u32(), 4096008554);
}

#[test]
fn known_outputs_for_default_seed() {
    let mut rng = Pcg32::new(DEFAULT_RNG_SEED);
    assert_eq!(rng.next_u32(), 465482994);
    assert_eq!(rng.next_u32(), 3895364073);
    assert_eq!(rng.next_u32(), 1746730475);
}
