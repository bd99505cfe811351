use pathtrace::rng::{seed_for_worker, RandomSeries};

#[test]
fn xorshift_sequence_from_the_base_seed() {
    let mut series = RandomSeries::new(23528812);
    assert_eq!(series.next_numerator(), 1816797780);
    assert_eq!(series.state, 0xd894_44a9);
    assert_eq!(series.next_numerator(), 672427204);
    assert_eq!(series.next_numerator(), 336670290);
    assert_eq!(series.next_numerator(), 179810655);
    assert_eq!(series.state, 0x156f_62be);
}

#[test]
fn numerator_is_the_top_31_bits() {
    let mut series = RandomSeries::new(1);
    let n = series.next_numerator();
    assert_eq!(n, series.state >> 1);
    assert!(n < 0x8000_0000);
}

#[test]
fn nonzero_state_stays_nonzero() {
    let mut series = RandomSeries::new(23528812);
    for _ in 0..10_000 {
        series.next_numerator();
        assert_ne!(series.state, 0);
    }
}

#[test]
fn worker_seeds_are_nonzero_and_distinct() {
    let base = 23528812;
    let mut seeds = Vec::new();
    for worker in 0..12 {
        let s = seed_for_worker(base, worker);
        assert_ne!(s, 0);
        assert!(!seeds.contains(&s));
        seeds.push(s);
    }
}

#[test]
fn worker_seed_avoids_the_stuck_state() {
    // base ^ (0 * mix) would be zero; the fallback keeps the stream live.
    let s = seed_for_worker(0, 0);
    assert_ne!(s, 0);
    let s2 = seed_for_worker(0x9e37_79b9u32.wrapping_mul(3), 3);
    assert_ne!(s2, 0);
}
