//! The pseudo-random source: range bounds, determinism, and variety.
use ray_tracing::rng::Prng;

#[test]
fn draws_stay_in_range() {
    let mut rng = Prng::from_seed(1);
    for _ in 0..200 {
        let d = rng.next_bits(-50, 50);
        assert!((-50..50).contains(&d));
    }
}

#[test]
fn same_seed_same_sequence() {
    let mut a = Prng::from_seed(99);
    let mut b = Prng::from_seed(99);
    for _ in 0..50 {
        assert_eq!(a.next_bits(0, 1000000), b.next_bits(0, 1000000));
    }
}

#[test]
fn draws_actually_vary() {
    let mut rng = Prng::from_seed(3);
    let first = rng.next_bits(0, 1000000);
    let mut saw_other = false;
    for _ in 0..50 {
        if rng.next_bits(0, 1000000) != first {
            saw_other = true;
        }
    }
    assert!(saw_other);
}
