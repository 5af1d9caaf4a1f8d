use dusk_consensus::config::{CONSENSUS_MAX_ITER, CONSENSUS_MAX_TIMEOUT_MS};
use dusk_consensus::consensus::{
    route, spin_chunk, spin_time_left, step_of, Consensus, MsgRegistry, NextStep, Phase, Route,
    StepDecision,
};
use dusk_consensus::proposal::{
    verify_candidate_msg, verify_stateless, Candidate, ConsensusError, ConsensusHeader,
    GetResource, Message, Payload, ProposalHandler, RoundCommittees, StepOutcome, Topics,
    MAX_BLOCK_SIZE, MAX_NUMBER_OF_FAULTS, MAX_NUMBER_OF_TRANSACTIONS,
};
use dusk_consensus::types::{Attestation, Header, RatificationResult, StepVotes, Vote};

fn header(round: u64, iteration: u8) -> ConsensusHeader {
    ConsensusHeader { prev_block_hash: [3u8; 32], round, iteration }
}

fn msg(round: u64, iteration: u8, topic: Topics) -> Message {
    Message { header: header(round, iteration), payload: Payload::Other(topic) }
}

fn candidate() -> Candidate {
    Candidate {
        consensus_header: header(10, 0),
        signer: [1u8; 96],
        header: Header {
            height: 10,
            iteration: 0,
            hash: [4u8; 32],
            prev_block_hash: [3u8; 32],
            state_hash: [5u8; 32],
            att: Attestation::missing(),
        },
        tx_root: [6u8; 32],
        fault_root: [8u8; 32],
        tx_count: 3,
        fault_count: 1,
        size: Some(2048),
        computed_tx_root: [6u8; 32],
        computed_fault_root: [8u8; 32],
        signature_valid: true,
    }
}

#[test]
fn valid_candidate_passes() {
    assert_eq!(verify_candidate_msg(&candidate(), &[1u8; 96]), Ok(()));
    let committees = RoundCommittees { generators: vec![[1u8; 96]] };
    assert_eq!(verify_stateless(&candidate(), &committees), Ok(()));
    assert_eq!(committees.get_generator(0), Some([1u8; 96]));
    assert_eq!(committees.get_generator(1), None);
}

#[test]
fn candidate_errors_in_order() {
    let gen = [1u8; 96];
    assert_eq!(verify_candidate_msg(&candidate(), &[2u8; 96]), Err(ConsensusError::NotCommitteeMember));

    let mut c = candidate();
    c.size = None;
    c.signature_valid = false;
    assert_eq!(verify_candidate_msg(&c, &gen), Err(ConsensusError::UnknownBlockSize));

    let mut c = candidate();
    c.size = Some(MAX_BLOCK_SIZE + 1);
    c.signature_valid = false;
    assert_eq!(verify_candidate_msg(&c, &gen), Err(ConsensusError::InvalidBlockSize(MAX_BLOCK_SIZE + 1)));
    c.size = Some(MAX_BLOCK_SIZE);
    assert_eq!(verify_candidate_msg(&c, &gen), Err(ConsensusError::InvalidSignature));

    let mut c = candidate();
    c.consensus_header.prev_block_hash = [9u8; 32];
    c.tx_count = MAX_NUMBER_OF_TRANSACTIONS + 1;
    assert_eq!(verify_candidate_msg(&c, &gen), Err(ConsensusError::InvalidBlockHash));

    let mut c = candidate();
    c.tx_count = MAX_NUMBER_OF_TRANSACTIONS + 1;
    assert_eq!(
        verify_candidate_msg(&c, &gen),
        Err(ConsensusError::TooManyTransactions(MAX_NUMBER_OF_TRANSACTIONS + 1))
    );
    c.tx_count = MAX_NUMBER_OF_TRANSACTIONS;
    c.computed_tx_root = [0u8; 32];
    assert_eq!(verify_candidate_msg(&c, &gen), Err(ConsensusError::InvalidBlock));

    let mut c = candidate();
    c.fault_count = MAX_NUMBER_OF_FAULTS + 1;
    assert_eq!(
        verify_candidate_msg(&c, &gen),
        Err(ConsensusError::TooManyFaults(MAX_NUMBER_OF_FAULTS + 1))
    );
    c.fault_count = MAX_NUMBER_OF_FAULTS;
    c.computed_fault_root = [0u8; 32];
    assert_eq!(verify_candidate_msg(&c, &gen), Err(ConsensusError::InvalidBlock));
}

#[test]
fn proposal_handler_collects_candidates() {
    let mut handler = ProposalHandler::new();
    let m = Message { header: header(10, 0), payload: Payload::Candidate(candidate()) };
    assert_eq!(handler.collect(m), Ok((StepOutcome::Ready(m), candidate())));
    assert_eq!(handler.collect_from_past(m), Ok((StepOutcome::Ready(m), candidate())));
    let other = msg(10, 0, Topics::Validation);
    assert_eq!(handler.collect(other), Err(ConsensusError::InvalidMsgType));
    assert_eq!(ProposalHandler::unwrap_msg(&other), Err(ConsensusError::InvalidMsgType));
    let committees = RoundCommittees { generators: vec![[1u8; 96]] };
    assert_eq!(handler.verify(&m, &committees), Ok(()));
    assert_eq!(handler.verify(&other, &committees), Err(ConsensusError::InvalidMsgType));
}

#[test]
fn timeout_requests_candidate_in_emergency_mode() {
    let handler = ProposalHandler::new();
    assert_eq!(handler.handle_timeout(10, [3u8; 32], 9), None);
    assert_eq!(
        handler.handle_timeout(10, [3u8; 32], 10),
        Some(GetResource { candidate_of: header(10, 10), ttl: u64::MAX, hops_limit: 0 })
    );
}

#[test]
fn routing_of_messages() {
    assert_eq!(route(7, 0, 10, 2), Route::Drop);
    assert_eq!(route(8, 0, 10, 2), Route::Drop);
    assert_eq!(route(9, 5, 10, 2), Route::Past);
    assert_eq!(route(10, 1, 10, 2), Route::Past);
    assert_eq!(route(10, 2, 10, 2), Route::Current);
    assert_eq!(route(10, 3, 10, 2), Route::Future);
    assert_eq!(route(11, 0, 10, 2), Route::Future);
    assert_eq!(route(0, 0, 0, 0), Route::Current);
}

#[test]
fn future_messages_are_replayed_in_order() {
    let mut reg = MsgRegistry::new();
    let a = msg(11, 0, Topics::Candidate);
    let b = msg(11, 1, Topics::Validation);
    let c = msg(11, 0, Topics::Validation);
    let d = msg(12, 0, Topics::Quorum);
    reg.put(11, 0, a);
    reg.put(11, 1, b);
    reg.put(11, 0, c);
    reg.put(12, 0, d);
    assert_eq!(reg.drain_msg_by_round_iter(11, 0), vec![a, c]);
    assert!(reg.drain_msg_by_round_iter(11, 0).is_empty());
    reg.remove_msgs_by_round(11);
    assert_eq!(reg.entries.len(), 1);
    assert_eq!(reg.drain_msg_by_round_iter(12, 0), vec![d]);
    assert!(reg.entries.is_empty());
}

#[test]
fn steps_are_numbered_three_per_iteration() {
    assert_eq!(step_of(0, Phase::Proposal), 0);
    assert_eq!(step_of(0, Phase::Ratification), 2);
    assert_eq!(step_of(1, Phase::Validation), 4);
    assert_eq!(step_of(70, Phase::Ratification), 212);
    assert_eq!(step_of(71, Phase::Proposal), 213);
    assert_eq!(step_of(255, Phase::Ratification), 213);
}

fn quorum_msg(round: u64, iteration: u8, result: RatificationResult) -> Message {
    let sv = StepVotes { bitset: 0b1111, aggregate_signature: [1u8; 48] };
    Message {
        header: header(round, iteration),
        payload: Payload::Quorum(Attestation { result, validation: sv, ratification: sv }),
    }
}

const CONTINUE: StepDecision = StepDecision { forward_quorum: false, next: NextStep::Continue };

#[test]
fn missed_proposal_doubles_its_timeout() {
    let mut c = Consensus::new(10, Consensus::default_timeouts());
    assert_eq!(c.step_deadline(), 5_000);
    c.on_step_timeout();
    assert_eq!(c.base_timeouts, [10_000, 5_000, 5_000]);
    assert_eq!(c.on_step_done(None), CONTINUE);
    assert_eq!(c.phase, Phase::Validation);
    assert_eq!(c.step_deadline(), 5_000);
    assert_eq!(c.on_step_done(Some(msg(10, 0, Topics::Validation))), CONTINUE);
    let failed = quorum_msg(10, 0, RatificationResult::Fail(Vote::NoCandidate));
    assert_eq!(
        c.on_step_done(Some(failed)),
        StepDecision { forward_quorum: true, next: NextStep::Continue }
    );
    assert_eq!((c.iter, c.phase), (1, Phase::Proposal));
    assert_eq!(c.step_deadline(), 10_000);
    for _ in 0..10 {
        c.on_step_timeout();
    }
    assert_eq!(c.step_deadline(), CONSENSUS_MAX_TIMEOUT_MS);
}

#[test]
fn success_quorum_ends_the_round() {
    let mut c = Consensus::new(10, Consensus::default_timeouts());
    c.on_step_done(None);
    c.on_step_done(None);
    let won = quorum_msg(10, 0, RatificationResult::Success(Vote::Valid([4u8; 32])));
    assert_eq!(
        c.on_step_done(Some(won)),
        StepDecision { forward_quorum: true, next: NextStep::RoundWon }
    );
    assert_eq!((c.iter, c.phase), (0, Phase::Ratification));
}

#[test]
fn base_timeouts_are_capped() {
    let c = Consensus::new(1, [100_000, 5_000, 60_001]);
    assert_eq!(c.base_timeouts, [60_000, 5_000, 60_000]);
    assert_eq!(c.step_deadline(), 60_000);
}

#[test]
fn round_is_exhausted_after_the_last_iteration() {
    let mut c = Consensus::new(3, Consensus::default_timeouts());
    let mut decisions = 0;
    loop {
        let d = c.on_step_done(None);
        decisions += 1;
        if d.next == NextStep::Exhausted {
            assert!(!d.forward_quorum);
            break;
        }
    }
    assert_eq!(decisions, 3 * CONSENSUS_MAX_ITER as usize);
    assert_eq!(c.iter, CONSENSUS_MAX_ITER - 1);
}

#[test]
fn quorum_of_the_last_iteration_is_forwarded() {
    let mut c = Consensus::new(3, Consensus::default_timeouts());
    while !(c.iter == CONSENSUS_MAX_ITER - 1 && c.phase == Phase::Ratification) {
        c.on_step_done(None);
    }
    let failed = quorum_msg(3, CONSENSUS_MAX_ITER - 1, RatificationResult::Fail(Vote::NoQuorum));
    assert_eq!(
        c.on_step_done(Some(failed)),
        StepDecision { forward_quorum: true, next: NextStep::Exhausted }
    );
    let won = quorum_msg(3, CONSENSUS_MAX_ITER - 1, RatificationResult::Success(Vote::Valid([4u8; 32])));
    assert_eq!(
        c.on_step_done(Some(won)),
        StepDecision { forward_quorum: true, next: NextStep::RoundWon }
    );
}

#[test]
fn spin_countdown_intervals() {
    assert_eq!(spin_chunk(7_200), 900);
    assert_eq!(spin_chunk(3_600), 600);
    assert_eq!(spin_chunk(1_801), 600);
    assert_eq!(spin_chunk(1_800), 300);
    assert_eq!(spin_chunk(301), 300);
    assert_eq!(spin_chunk(300), 30);
    assert_eq!(spin_chunk(61), 30);
    assert_eq!(spin_chunk(60), 1);
    assert_eq!(spin_chunk(0), 1);
    assert_eq!(spin_time_left(0, 100), None);
    assert_eq!(spin_time_left(100, 100), None);
    assert_eq!(spin_time_left(150, 100), Some(50));
}
