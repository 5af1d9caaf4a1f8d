use dusk_consensus::license::{verifier_data_license_circuit, VerifierData, LICENSE_CIRCUIT_ID};
use dusk_consensus::types::{Attestation, RatificationResult, StepVotes, Vote};
use dusk_consensus::votes::{
    committee_members, count_seats, verify_attestation, verify_step_votes, vote_eq, AddVote,
    StepVotesRegistry,
};

fn key(n: u8) -> [u8; 96] {
    [n; 96]
}

/// 64 seats shared equally by four provisioners.
fn equal_committee() -> Vec<[u8; 96]> {
    (0..64).map(|i| key((i % 4) as u8 + 1)).collect()
}

#[test]
fn four_equal_provisioners_reach_quorum_with_three_votes() {
    let mut reg = StepVotesRegistry::new(equal_committee());
    let v = Vote::Valid([9u8; 32]);
    assert_eq!(reg.seats(&key(1)), 16);
    assert_eq!(reg.add_step_vote(key(1), v), AddVote::Pending);
    assert_eq!(reg.add_step_vote(key(2), v), AddVote::Pending);
    assert_eq!(reg.tally(&v), 32);
    assert!(!reg.has_quorum(&v));
    assert_eq!(reg.add_step_vote(key(3), v), AddVote::Quorum);
    assert_eq!(reg.add_step_vote(key(4), v), AddVote::Quorum);
    assert_eq!(reg.tally(&v), 64);
    assert!(reg.has_quorum(&v));
}

#[test]
fn a_member_counts_once() {
    let mut reg = StepVotesRegistry::new(equal_committee());
    let v = Vote::Valid([9u8; 32]);
    assert_eq!(reg.add_step_vote(key(1), v), AddVote::Pending);
    assert_eq!(reg.add_step_vote(key(1), v), AddVote::Duplicate);
    assert_eq!(reg.add_step_vote(key(1), v), AddVote::Duplicate);
    assert_eq!(reg.tally(&v), 16);
    assert_eq!(reg.signers.len(), 1);
}

#[test]
fn conflicting_votes_are_equivocation() {
    let mut reg = StepVotesRegistry::new(equal_committee());
    let v = Vote::Valid([9u8; 32]);
    let w = Vote::Invalid([9u8; 32]);
    reg.add_step_vote(key(2), v);
    assert_eq!(reg.add_step_vote(key(2), w), AddVote::Equivocation(v));
    assert_eq!(reg.tally(&w), 0);
    assert_eq!(reg.tally(&v), 16);
}

#[test]
fn outsiders_are_not_counted() {
    let mut reg = StepVotesRegistry::new(equal_committee());
    assert_eq!(reg.add_step_vote(key(9), Vote::NoCandidate), AddVote::NotCommitteeMember);
    assert!(reg.signers.is_empty());
}

#[test]
fn no_candidate_quorum() {
    let mut reg = StepVotesRegistry::new(equal_committee());
    for k in 1..=3 {
        reg.add_step_vote(key(k), Vote::NoCandidate);
    }
    assert!(reg.has_quorum(&Vote::NoCandidate));
    assert!(!reg.has_quorum(&Vote::NoQuorum));
}

#[test]
fn votes_compare_by_kind_and_hash() {
    assert!(vote_eq(&Vote::Valid([1u8; 32]), &Vote::Valid([1u8; 32])));
    assert!(!vote_eq(&Vote::Valid([1u8; 32]), &Vote::Valid([2u8; 32])));
    assert!(!vote_eq(&Vote::Valid([1u8; 32]), &Vote::Invalid([1u8; 32])));
    assert!(vote_eq(&Vote::NoQuorum, &Vote::NoQuorum));
}

#[test]
fn license_verifier_data_is_found_by_id() {
    let keys = vec![
        VerifierData { circuit_id: [0u8; 32], data: vec![1, 2, 3] },
        VerifierData { circuit_id: LICENSE_CIRCUIT_ID, data: vec![4, 5] },
        VerifierData { circuit_id: LICENSE_CIRCUIT_ID, data: vec![6] },
    ];
    assert_eq!(verifier_data_license_circuit(&keys), Some(&vec![4, 5]));
    assert_eq!(verifier_data_license_circuit(&keys[..1].to_vec()), None);
    assert_eq!(LICENSE_CIRCUIT_ID[0], 0xb4);
    assert_eq!(LICENSE_CIRCUIT_ID[31], 0xdb);
}

#[test]
fn members_are_listed_once_in_order_of_first_seat() {
    let committee = vec![key(3), key(1), key(3), key(2), key(1)];
    assert_eq!(committee_members(&committee), vec![key(3), key(1), key(2)]);
    assert_eq!(count_seats(&committee, &key(3)), 2);
    assert_eq!(count_seats(&committee, &key(7)), 0);
    assert!(committee_members(&vec![]).is_empty());
}

#[test]
fn step_votes_verify_with_a_quorum_of_seats() {
    let committee = equal_committee();
    let sv = |bitset| StepVotes { bitset, aggregate_signature: [5u8; 48] };
    // Members are 1, 2, 3, 4 (16 seats each); 43 seats are needed.
    assert!(!verify_step_votes(&sv(0b0011), &committee, true));
    assert!(verify_step_votes(&sv(0b0111), &committee, true));
    assert!(verify_step_votes(&sv(0b1111), &committee, true));
    assert!(!verify_step_votes(&sv(0b1111), &committee, false));
    // Bits past the members mark nobody.
    assert!(!verify_step_votes(&sv(0b1111_0011), &committee, true));
    assert!(!verify_step_votes(&sv(0), &committee, true));
}

#[test]
fn attestation_needs_both_quorums() {
    let committee = equal_committee();
    let att = Attestation {
        result: RatificationResult::Success(Vote::Valid([9u8; 32])),
        validation: StepVotes { bitset: 0b1110, aggregate_signature: [1u8; 48] },
        ratification: StepVotes { bitset: 0b0001, aggregate_signature: [2u8; 48] },
    };
    assert!(!verify_attestation(&att, &committee, &committee, true, true));
    let att = Attestation {
        ratification: StepVotes { bitset: 0b1011, aggregate_signature: [2u8; 48] },
        ..att
    };
    assert!(verify_attestation(&att, &committee, &committee, true, true));
    assert!(!verify_attestation(&att, &committee, &committee, true, false));
}

#[test]
fn weighted_members_reach_quorum_by_seats() {
    // One member with 43 of 64 seats holds a quorum alone.
    let committee: Vec<[u8; 96]> = (0..64).map(|i| if i < 43 { key(1) } else { key(2) }).collect();
    let sv = StepVotes { bitset: 0b01, aggregate_signature: [0u8; 48] };
    assert!(verify_step_votes(&sv, &committee, true));
    let sv = StepVotes { bitset: 0b10, aggregate_signature: [0u8; 48] };
    assert!(!verify_step_votes(&sv, &committee, true));
}
