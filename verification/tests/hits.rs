use pathtrace::hit::{resolve_hit, CandidateHit, BACKGROUND_MATERIAL, NO_HIT_T_BITS};

#[test]
fn no_candidates_is_a_background_hit() {
    let h = resolve_hit(&Vec::new());
    assert_eq!(h.material, BACKGROUND_MATERIAL);
    assert_eq!(h.t_bits, NO_HIT_T_BITS);
    assert_eq!(h.t_bits, f32::MAX.to_bits());
    assert!(h.candidate.is_none());
}

#[test]
fn sentinel_is_the_largest_finite_single() {
    assert_eq!(f32::from_bits(NO_HIT_T_BITS), f32::MAX);
}

#[test]
fn positive_singles_order_as_their_bits() {
    let samples = [0.001f32, 0.5, 1.0, 1.5, 2.0, 100.0, 1.0e30];
    for pair in samples.windows(2) {
        assert!(pair[0] < pair[1]);
        assert!(pair[0].to_bits() < pair[1].to_bits());
    }
}

#[test]
fn nearest_candidate_wins() {
    let cands = vec![
        CandidateHit { t_bits: 3.0f32.to_bits(), material: 1 },
        CandidateHit { t_bits: 1.5f32.to_bits(), material: 2 },
        CandidateHit { t_bits: 2.0f32.to_bits(), material: 3 },
    ];
    let h = resolve_hit(&cands);
    assert_eq!(h.candidate, Some(1));
    assert_eq!(h.material, 2);
    assert_eq!(f32::from_bits(h.t_bits), 1.5);
}

#[test]
fn ties_go_to_the_earlier_candidate() {
    let cands = vec![
        CandidateHit { t_bits: 2.0f32.to_bits(), material: 1 },
        CandidateHit { t_bits: 1.0f32.to_bits(), material: 2 },
        CandidateHit { t_bits: 1.0f32.to_bits(), material: 3 },
    ];
    let h = resolve_hit(&cands);
    assert_eq!(h.candidate, Some(1));
    assert_eq!(h.material, 2);
}

#[test]
fn candidate_at_the_sentinel_never_registers() {
    let cands = vec![CandidateHit { t_bits: NO_HIT_T_BITS, material: 4 }];
    let h = resolve_hit(&cands);
    assert_eq!(h.material, BACKGROUND_MATERIAL);
    assert!(h.candidate.is_none());
}

#[test]
fn sphere_seen_from_twice_its_radius() {
    // A sphere of radius r at the origin, viewed from (0, 0, 2r) looking
    // down -z: the nearer quadratic root is t = r, the normal (0, 0, 1).
    // The front end solves the quadratic; the verified core must keep that
    // candidate over a farther one (the exit point at t = 3r).
    let r = 1.0f32;
    let cands = vec![
        CandidateHit { t_bits: (3.0 * r).to_bits(), material: 2 },
        CandidateHit { t_bits: r.to_bits(), material: 2 },
    ];
    let h = resolve_hit(&cands);
    assert_eq!(h.candidate, Some(1));
    assert_eq!(f32::from_bits(h.t_bits), r);
}
