use vstd::prelude::*;

verus! {

/// A 32-byte block hash.
pub type BlockHash = [u8; 32];

/// Compares two byte arrays of the same length.
pub fn bytes_eq<const N: usize>(a: &[u8; N], b: &[u8; N]) -> (r: bool)
    ensures
        r == (*a == *b),
{
    let mut i: usize = 0;
    while i < N
        invariant
            0 <= i <= N,
            forall|j: int| 0 <= j < i ==> a[j] == b[j],
        decreases N - i,
    {
        if a[i] != b[i] {
            assert(!(a@ =~= b@));
            return false;
        }
        i = i + 1;
    }
    assert(*a =~= *b);
    true
}

/// Tells whether every byte of an array is zero.
pub fn bytes_all_zero<const N: usize>(a: &[u8; N]) -> (r: bool)
    ensures
        r == (forall|j: int| 0 <= j < N ==> a[j] == 0),
{
    let mut i: usize = 0;
    while i < N
        invariant
            0 <= i <= N,
            forall|j: int| 0 <= j < i ==> a[j] == 0,
        decreases N - i,
    {
        if a[i] != 0 {
            return false;
        }
        i = i + 1;
    }
    true
}

/// A network peer address: an IP address (IPv4 addresses mapped into the
/// IPv6 space) and a port.
#[derive(Clone, Copy, Debug, PartialEq, Eq, Structural)]
pub struct PeerAddr {
    pub ip: u128,
    pub port: u16,
}

/// A vote of a committee member.
#[derive(Clone, Copy, Debug, PartialEq, Eq)]
pub enum Vote {
    NoCandidate,
    Valid(BlockHash),
    Invalid(BlockHash),
    NoQuorum,
}

/// Outcome of the ratification step of an iteration.
#[derive(Clone, Copy, Debug, PartialEq, Eq)]
pub enum RatificationResult {
    Success(Vote),
    Fail(Vote),
}

/// Aggregated votes of one step: the committee members who signed (one bit
/// per member) and their aggregated signature.
#[derive(Clone, Copy, Debug, PartialEq, Eq)]
pub struct StepVotes {
    pub bitset: u64,
    pub aggregate_signature: [u8; 48],
}

/// Proof that a block was chosen: the outcome with the validation and
/// ratification quorums behind it.
#[derive(Clone, Copy, Debug, PartialEq, Eq)]
pub struct Attestation {
    pub result: RatificationResult,
    pub validation: StepVotes,
    pub ratification: StepVotes,
}

impl StepVotes {
    pub open spec fn spec_is_empty(&self) -> bool {
        self.bitset == 0 && forall|j: int| 0 <= j < 48 ==> self.aggregate_signature[j] == 0
    }

    /// Step votes with no signer.
    pub fn empty() -> (r: StepVotes)
        ensures
            r.spec_is_empty(),
    {
        StepVotes { bitset: 0, aggregate_signature: [0u8; 48] }
    }

    pub fn is_empty(&self) -> (r: bool)
        ensures
            r == self.spec_is_empty(),
    {
        self.bitset == 0 && bytes_all_zero(&self.aggregate_signature)
    }
}

impl Attestation {
    /// The attestation that a block has before any quorum was attached to it.
    pub open spec fn spec_is_missing(&self) -> bool {
        &&& self.result matches RatificationResult::Fail(Vote::NoCandidate)
        &&& self.validation.spec_is_empty()
        &&& self.ratification.spec_is_empty()
    }

    /// An attestation that carries no quorum.
    pub fn missing() -> (r: Attestation)
        ensures
            r.spec_is_missing(),
    {
        Attestation {
            result: RatificationResult::Fail(Vote::NoCandidate),
            validation: StepVotes::empty(),
            ratification: StepVotes::empty(),
        }
    }

    /// Tells whether no quorum is attached.
    pub fn is_missing(&self) -> (r: bool)
        ensures
            r == self.spec_is_missing(),
    {
        match self.result {
            RatificationResult::Fail(Vote::NoCandidate) => {
                self.validation.is_empty() && self.ratification.is_empty()
            },
            _ => false,
        }
    }

    /// The hash of the winning block, if the attestation is a success over a
    /// valid block.
    pub open spec fn spec_winner(&self) -> Option<BlockHash> {
        match self.result {
            RatificationResult::Success(Vote::Valid(h)) => Some(h),
            _ => None,
        }
    }

    pub fn winner(&self) -> (r: Option<BlockHash>)
        ensures
            r == self.spec_winner(),
    {
        match self.result {
            RatificationResult::Success(Vote::Valid(h)) => Some(h),
            _ => None,
        }
    }
}

/// The parts of a block header that the chain logic reads.
#[derive(Clone, Copy, Debug, PartialEq, Eq)]
pub struct Header {
    pub height: u64,
    pub iteration: u8,
    pub hash: BlockHash,
    pub prev_block_hash: BlockHash,
    pub state_hash: BlockHash,
    pub att: Attestation,
}

} // verus!
