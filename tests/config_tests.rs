use dusk_consensus::config::{
    is_emergency_iter, next_timeout, quorum_threshold, CONSENSUS_MAX_ITER, CONSENSUS_MAX_STEP,
    CONSENSUS_MAX_TIMEOUT_MS, CONSENSUS_TIMEOUT_MS, RATIFICATION_COMMITTEE_SIZE,
    VALIDATION_COMMITTEE_SIZE,
};

#[test]
fn quorum_threshold_of_committees() {
    assert_eq!(quorum_threshold(VALIDATION_COMMITTEE_SIZE), 43);
    assert_eq!(quorum_threshold(RATIFICATION_COMMITTEE_SIZE), 43);
    assert_eq!(quorum_threshold(4), 3);
    assert_eq!(quorum_threshold(1), 1);
    assert_eq!(quorum_threshold(100), 67);
    assert_eq!(quorum_threshold(0), 0);
}

#[test]
fn timeout_doubles_up_to_the_cap() {
    assert_eq!(next_timeout(CONSENSUS_TIMEOUT_MS), 10_000);
    let mut t = CONSENSUS_TIMEOUT_MS;
    let mut seen = Vec::new();
    for _ in 0..5 {
        t = next_timeout(t);
        seen.push(t);
    }
    assert_eq!(seen, vec![10_000, 20_000, 40_000, 60_000, 60_000]);
    assert_eq!(next_timeout(CONSENSUS_MAX_TIMEOUT_MS), CONSENSUS_MAX_TIMEOUT_MS);
    assert_eq!(next_timeout(u64::MAX), CONSENSUS_MAX_TIMEOUT_MS);
}

#[test]
fn timeout_after_k_misses_is_capped_power_of_two() {
    for k in 0u32..10 {
        let mut t = CONSENSUS_TIMEOUT_MS;
        for _ in 0..k {
            t = next_timeout(t);
        }
        let expected = std::cmp::min(CONSENSUS_TIMEOUT_MS * 2u64.pow(k), CONSENSUS_MAX_TIMEOUT_MS);
        assert_eq!(t, expected);
    }
}

#[test]
fn emergency_mode_from_iteration_ten() {
    assert!(!is_emergency_iter(0));
    assert!(!is_emergency_iter(9));
    assert!(is_emergency_iter(10));
    assert!(is_emergency_iter(70));
    assert_eq!(CONSENSUS_MAX_ITER as u32 * 3, CONSENSUS_MAX_STEP as u32);
}
