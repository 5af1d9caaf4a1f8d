use vstd::prelude::*;
use crate::committee::{Provisioner, lemma_committee_deterministic, spec_drawn};
use crate::config::{is_emergency_iter, spec_is_emergency_iter};
use crate::types::{Attestation, BlockHash, Header, bytes_eq};

verus! {

/// Largest serialized size of a candidate block, in bytes.
pub const MAX_BLOCK_SIZE: usize = 1048576;

/// Most transactions in a block.
pub const MAX_NUMBER_OF_TRANSACTIONS: usize = 1000;

/// Most faults in a block.
pub const MAX_NUMBER_OF_FAULTS: usize = 100;

/// Bytes of a BLS public key.
pub type PublicKeyBytes = [u8; 96];

/// Errors of the consensus protocol.
#[derive(Clone, Copy, Debug, PartialEq, Eq, Structural)]
pub enum ConsensusError {
    InvalidMsgType,
    NotCommitteeMember,
    InvalidSignature,
    InvalidBlock,
    InvalidBlockHash,
    InvalidBlockSize(usize),
    TooManyTransactions(usize),
    TooManyFaults(usize),
    UnknownBlockSize,
    Canceled(u64),
    NotReady,
}

/// Round, iteration and previous block of a consensus message.
#[derive(Clone, Copy, Debug, PartialEq, Eq)]
pub struct ConsensusHeader {
    pub prev_block_hash: BlockHash,
    pub round: u64,
    pub iteration: u8,
}

/// A candidate block proposed by the generator of an iteration, with what
/// the caller computed of it: its serialized size, the Merkle roots of its
/// transaction and fault digests, and the check of the signature.
#[derive(Clone, Copy, Debug, PartialEq, Eq)]
pub struct Candidate {
    pub consensus_header: ConsensusHeader,
    pub signer: PublicKeyBytes,
    pub header: Header,
    pub tx_root: BlockHash,
    pub fault_root: BlockHash,
    pub tx_count: usize,
    pub fault_count: usize,
    /// Serialized size, `None` when it cannot be computed.
    pub size: Option<usize>,
    pub computed_tx_root: BlockHash,
    pub computed_fault_root: BlockHash,
    pub signature_valid: bool,
}

/// Topic of a consensus message.
#[derive(Clone, Copy, Debug, PartialEq, Eq, Structural)]
pub enum Topics {
    Candidate,
    Validation,
    Ratification,
    Quorum,
    GetResource,
    Block,
    Unknown,
}

/// Payload of a consensus message.
#[derive(Clone, Copy, Debug, PartialEq, Eq)]
pub enum Payload {
    Candidate(Candidate),
    /// A quorum: the attestation of an iteration's outcome.
    Quorum(Attestation),
    Other(Topics),
}

/// A consensus message.
#[derive(Clone, Copy, Debug, PartialEq, Eq)]
pub struct Message {
    pub header: ConsensusHeader,
    pub payload: Payload,
}

/// A request for a candidate block of a given round and iteration,
/// forwarded by peers.
#[derive(Clone, Copy, Debug, PartialEq, Eq)]
pub struct GetResource {
    pub candidate_of: ConsensusHeader,
    pub ttl: u64,
    pub hops_limit: u16,
}

/// The first check that a candidate fails, in the order they are made.
pub open spec fn spec_candidate_check(p: Candidate, expected_generator: PublicKeyBytes) -> Result<
    (),
    ConsensusError,
> {
    if p.signer != expected_generator {
        Err(ConsensusError::NotCommitteeMember)
    } else if p.size is None {
        Err(ConsensusError::UnknownBlockSize)
    } else if p.size->0 > MAX_BLOCK_SIZE {
        Err(ConsensusError::InvalidBlockSize(p.size->0))
    } else if !p.signature_valid {
        Err(ConsensusError::InvalidSignature)
    } else if p.consensus_header.prev_block_hash != p.header.prev_block_hash {
        Err(ConsensusError::InvalidBlockHash)
    } else if p.tx_count > MAX_NUMBER_OF_TRANSACTIONS {
        Err(ConsensusError::TooManyTransactions(p.tx_count))
    } else if p.computed_tx_root != p.tx_root {
        Err(ConsensusError::InvalidBlock)
    } else if p.fault_count > MAX_NUMBER_OF_FAULTS {
        Err(ConsensusError::TooManyFaults(p.fault_count))
    } else if p.computed_fault_root != p.fault_root {
        Err(ConsensusError::InvalidBlock)
    } else {
        Ok(())
    }
}

/// Checks a candidate without any state: signed by the expected generator,
/// within the size limit, validly signed, built on the previous block of
/// its consensus header, within the transaction and fault limits, and with
/// matching transaction and fault roots.
pub fn verify_candidate_msg(p: &Candidate, expected_generator: &PublicKeyBytes) -> (r: Result<
    (),
    ConsensusError,
>)
    ensures
        r == spec_candidate_check(*p, *expected_generator),
{
    if !bytes_eq(expected_generator, &p.signer) {
        return Err(ConsensusError::NotCommitteeMember);
    }
    let candidate_size = match p.size {
        Some(s) => s,
        None => {
            return Err(ConsensusError::UnknownBlockSize);
        },
    };
    if candidate_size > MAX_BLOCK_SIZE {
        return Err(ConsensusError::InvalidBlockSize(candidate_size));
    }
    if !p.signature_valid {
        return Err(ConsensusError::InvalidSignature);
    }
    if !bytes_eq(&p.consensus_header.prev_block_hash, &p.header.prev_block_hash) {
        return Err(ConsensusError::InvalidBlockHash);
    }
    if p.tx_count > MAX_NUMBER_OF_TRANSACTIONS {
        return Err(ConsensusError::TooManyTransactions(p.tx_count));
    }
    if !bytes_eq(&p.computed_tx_root, &p.tx_root) {
        return Err(ConsensusError::InvalidBlock);
    }
    if p.fault_count > MAX_NUMBER_OF_FAULTS {
        return Err(ConsensusError::TooManyFaults(p.fault_count));
    }
    if !bytes_eq(&p.computed_fault_root, &p.fault_root) {
        return Err(ConsensusError::InvalidBlock);
    }
    Ok(())
}

/// The generators of the iterations of a round, by iteration, as far as
/// their committees have been drawn.
pub struct RoundCommittees {
    pub generators: Vec<PublicKeyBytes>,
}

impl RoundCommittees {
    /// The generator of an iteration, if its committee has been drawn.
    pub fn get_generator(&self, iteration: u8) -> (r: Option<PublicKeyBytes>)
        ensures
            r == (if (iteration as int) < self.generators@.len() {
                Some(self.generators@[iteration as int])
            } else {
                None
            }),
    {
        if (iteration as usize) < self.generators.len() {
            Some(self.generators[iteration as usize])
        } else {
            None
        }
    }
}

/// Checks a candidate against the generator of its iteration, whose
/// committee must have been drawn.
pub fn verify_stateless(c: &Candidate, round_committees: &RoundCommittees) -> (r: Result<
    (),
    ConsensusError,
>)
    requires
        (c.header.iteration as int) < round_committees.generators@.len(),
    ensures
        r == spec_candidate_check(*c, round_committees.generators@[c.header.iteration as int]),
{
    let generator = round_committees.generators[c.header.iteration as usize];
    verify_candidate_msg(c, &generator)
}

/// Committee determinism in candidate checks: two nodes that drew the
/// generator of an iteration from the same provisioners, in the same order,
/// with the same score, judge every candidate of that iteration alike.
pub proof fn lemma_stateless_check_deterministic(
    c: Candidate,
    ps: Seq<Provisioner>,
    score: u128,
    rc1: RoundCommittees,
    rc2: RoundCommittees,
)
    requires
        (c.header.iteration as int) < rc1.generators@.len(),
        (c.header.iteration as int) < rc2.generators@.len(),
        spec_drawn(ps, score, rc1.generators@[c.header.iteration as int]),
        spec_drawn(ps, score, rc2.generators@[c.header.iteration as int]),
    ensures
        spec_candidate_check(c, rc1.generators@[c.header.iteration as int]) == spec_candidate_check(
            c,
            rc2.generators@[c.header.iteration as int],
        ),
{
    lemma_committee_deterministic(
        ps,
        score,
        rc1.generators@[c.header.iteration as int],
        rc2.generators@[c.header.iteration as int],
    );
}

/// What a step handler made of a message.
#[derive(Clone, Copy, Debug, PartialEq, Eq)]
pub enum StepOutcome {
    /// More messages are needed.
    Pending,
    /// The step has its result, to hand to the next step.
    Ready(Message),
}

/// Handler of the proposal step: it accepts the candidate of the
/// iteration's generator.
pub struct ProposalHandler {}

impl ProposalHandler {
    pub fn new() -> (r: ProposalHandler) {
        ProposalHandler {  }
    }

    /// The candidate that a message carries.
    pub fn unwrap_msg(msg: &Message) -> (r: Result<Candidate, ConsensusError>)
        ensures
            match msg.payload {
                Payload::Candidate(c) => r == Ok::<Candidate, ConsensusError>(c),
                _ => r == Err::<Candidate, ConsensusError>(
                    ConsensusError::InvalidMsgType,
                ),
            },
    {
        match msg.payload {
            Payload::Candidate(c) => Ok(c),
            _ => Err(ConsensusError::InvalidMsgType),
        }
    }

    /// Checks a message of the proposal step against the generator of its
    /// iteration, whose committee must have been drawn.
    pub fn verify(&self, msg: &Message, round_committees: &RoundCommittees) -> (r: Result<
        (),
        ConsensusError,
    >)
        requires
            msg.payload matches Payload::Candidate(c) ==> (c.header.iteration as int)
                < round_committees.generators@.len(),
        ensures
            match msg.payload {
                Payload::Candidate(c) => r == spec_candidate_check(
                    c,
                    round_committees.generators@[c.header.iteration as int],
                ),
                _ => r == Err::<(), ConsensusError>(ConsensusError::InvalidMsgType),
            },
    {
        let p = match Self::unwrap_msg(msg) {
            Ok(p) => p,
            Err(e) => {
                return Err(e);
            },
        };
        verify_stateless(&p, round_committees)
    }

    /// Collects a candidate: the step is ready with the message, and the
    /// candidate (returned) is to be stored.
    pub fn collect(&mut self, msg: Message) -> (r: Result<(StepOutcome, Candidate), ConsensusError>)
        ensures
            match msg.payload {
                Payload::Candidate(c) => r matches Ok((StepOutcome::Ready(m), s)) && m == msg && s
                    == c,
                _ => r == Err::<(StepOutcome, Candidate), ConsensusError>(
                    ConsensusError::InvalidMsgType,
                ),
            },
    {
        match Self::unwrap_msg(&msg) {
            Ok(p) => Ok((StepOutcome::Ready(msg), p)),
            Err(e) => Err(e),
        }
    }

    /// Collects a candidate of a past iteration, as `collect` does.
    pub fn collect_from_past(&mut self, msg: Message) -> (r: Result<
        (StepOutcome, Candidate),
        ConsensusError,
    >)
        ensures
            match msg.payload {
                Payload::Candidate(c) => r matches Ok((StepOutcome::Ready(m), s)) && m == msg && s
                    == c,
                _ => r == Err::<(StepOutcome, Candidate), ConsensusError>(
                    ConsensusError::InvalidMsgType,
                ),
            },
    {
        self.collect(msg)
    }

    /// On a step timeout in emergency mode, requests the candidate of the
    /// iteration from the peers, since it may have been missed.
    pub fn handle_timeout(&self, round: u64, prev_block_hash: BlockHash, curr_iteration: u8) -> (r:
        Option<GetResource>)
        ensures
            spec_is_emergency_iter(curr_iteration) ==> r == Some(
                GetResource {
                    candidate_of: ConsensusHeader {
                        prev_block_hash,
                        round,
                        iteration: curr_iteration,
                    },
                    ttl: u64::MAX,
                    hops_limit: 0,
                },
            ),
            !spec_is_emergency_iter(curr_iteration) ==> r is None,
    {
        if is_emergency_iter(curr_iteration) {
            return Some(
                GetResource {
                    candidate_of: ConsensusHeader {
                        prev_block_hash,
                        round,
                        iteration: curr_iteration,
                    },
                    ttl: u64::MAX,
                    hops_limit: 0,
                },
            );
        }
        None
    }
}

} // verus!
