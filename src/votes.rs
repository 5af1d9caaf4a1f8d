use vstd::prelude::*;
use crate::config::{quorum_threshold, spec_quorum_threshold};
use crate::proposal::PublicKeyBytes;
use crate::types::{Attestation, StepVotes, Vote, bytes_eq};

verus! {

/// Compares two votes.
pub fn vote_eq(a: &Vote, b: &Vote) -> (r: bool)
    ensures
        r == (*a == *b),
{
    match (a, b) {
        (Vote::NoCandidate, Vote::NoCandidate) => true,
        (Vote::NoQuorum, Vote::NoQuorum) => true,
        (Vote::Valid(x), Vote::Valid(y)) => bytes_eq(x, y),
        (Vote::Invalid(x), Vote::Invalid(y)) => bytes_eq(x, y),
        _ => false,
    }
}

/// Seats that a provisioner holds in a committee.
pub open spec fn spec_seats(committee: Seq<PublicKeyBytes>, key: PublicKeyBytes) -> nat
    decreases committee.len(),
{
    if committee.len() == 0 {
        0
    } else {
        spec_seats(committee.drop_last(), key) + if committee.last() == key {
            1nat
        } else {
            0nat
        }
    }
}

/// Seats of the signers that cast `v`.
pub open spec fn spec_tally(
    committee: Seq<PublicKeyBytes>,
    signers: Seq<(PublicKeyBytes, Vote)>,
    v: Vote,
) -> nat
    decreases signers.len(),
{
    if signers.len() == 0 {
        0
    } else {
        spec_tally(committee, signers.drop_last(), v) + if signers.last().1 == v {
            spec_seats(committee, signers.last().0)
        } else {
            0nat
        }
    }
}

/// Whether the signers that cast `v` hold a quorum of the committee's seats.
pub open spec fn spec_has_quorum(
    committee: Seq<PublicKeyBytes>,
    signers: Seq<(PublicKeyBytes, Vote)>,
    v: Vote,
) -> bool {
    spec_tally(committee, signers, v) >= spec_quorum_threshold(committee.len())
}

/// Seats of a provisioner in a committee.
pub fn count_seats(committee: &Vec<PublicKeyBytes>, key: &PublicKeyBytes) -> (r: usize)
    ensures
        r == spec_seats(committee@, *key),
        r <= committee@.len(),
{
    let mut n: usize = 0;
    let mut i: usize = 0;
    while i < committee.len()
        invariant
            0 <= i <= committee@.len(),
            n == spec_seats(committee@.subrange(0, i as int), *key),
            n <= i,
        decreases committee@.len() - i,
    {
        assert(committee@.subrange(0, i + 1).drop_last() =~= committee@.subrange(0, i as int));
        if bytes_eq(&committee[i], key) {
            n = n + 1;
        }
        i = i + 1;
    }
    assert(committee@.subrange(0, committee@.len() as int) =~= committee@);
    n
}

/// The distinct members of a committee, in the order of their first seat.
pub open spec fn spec_members(committee: Seq<PublicKeyBytes>) -> Seq<PublicKeyBytes>
    decreases committee.len(),
{
    if committee.len() == 0 {
        Seq::empty()
    } else {
        let m = spec_members(committee.drop_last());
        if m.contains(committee.last()) {
            m
        } else {
            m.push(committee.last())
        }
    }
}

/// No member is listed twice.
pub proof fn lemma_members_distinct(committee: Seq<PublicKeyBytes>)
    ensures
        spec_members(committee).no_duplicates(),
    decreases committee.len(),
{
    if committee.len() > 0 {
        let m = spec_members(committee.drop_last());
        lemma_members_distinct(committee.drop_last());
        if !m.contains(committee.last()) {
            let r = m.push(committee.last());
            assert forall|a: int, b: int|
                0 <= a < r.len() && 0 <= b < r.len() && a != b implies r[a] != r[b] by {
                if a < m.len() && b < m.len() {
                } else if a < m.len() {
                    assert(m[a] == r[a]);
                } else {
                    assert(m[b] == r[b]);
                }
            }
        }
    }
}

/// Lists the distinct members of a committee, in the order of their first
/// seat.
pub fn committee_members(committee: &Vec<PublicKeyBytes>) -> (r: Vec<PublicKeyBytes>)
    ensures
        r@ == spec_members(committee@),
        r@.len() <= committee@.len(),
{
    let mut members: Vec<PublicKeyBytes> = Vec::new();
    let mut i: usize = 0;
    while i < committee.len()
        invariant
            0 <= i <= committee@.len(),
            members@ == spec_members(committee@.subrange(0, i as int)),
            members@.len() <= i,
        decreases committee@.len() - i,
    {
        let ghost pre = committee@.subrange(0, i as int);
        assert(committee@.subrange(0, i + 1).drop_last() =~= pre);
        let key = committee[i];
        let mut j: usize = 0;
        let mut found = false;
        while j < members.len()
            invariant
                0 <= j <= members@.len(),
                found == exists|a: int| 0 <= a < j && members@[a] == key,
            decreases members@.len() - j,
        {
            if bytes_eq(&members[j], &key) {
                found = true;
            }
            j = j + 1;
        }
        if !found {
            members.push(key);
        }
        i = i + 1;
    }
    assert(committee@.subrange(0, committee@.len() as int) =~= committee@);
    members
}

/// Whether a signer bitset marks member `i`.
pub open spec fn spec_signed(bitset: u64, i: int) -> bool {
    (bitset >> (i as u64)) & 1u64 == 1u64
}

/// Seats of the first `n` members that a signer bitset marks.
pub open spec fn spec_bitset_tally(
    committee: Seq<PublicKeyBytes>,
    members: Seq<PublicKeyBytes>,
    bitset: u64,
    n: int,
) -> nat
    decreases n,
{
    if n <= 0 {
        0
    } else {
        spec_bitset_tally(committee, members, bitset, n - 1) + if spec_signed(bitset, n - 1) {
            spec_seats(committee, members[n - 1])
        } else {
            0nat
        }
    }
}

/// How many members a bitset can mark.
pub open spec fn spec_marked_len(members: Seq<PublicKeyBytes>) -> int {
    if members.len() < 64 {
        members.len() as int
    } else {
        64
    }
}

/// Checks aggregated step votes against a committee: the members marked in
/// the bitset (distinct members, in the order of their first seat) must hold
/// a quorum of the seats, and the aggregated signature, checked by the
/// caller, must be valid.
pub fn verify_step_votes(sv: &StepVotes, committee: &Vec<PublicKeyBytes>, signature_valid: bool) -> (r:
    bool)
    requires
        committee@.len() <= usize::MAX / 100,
    ensures
        r == spec_step_votes_verify(*sv, committee@, signature_valid),
{
    let members = committee_members(committee);
    let n: usize = if members.len() < 64 {
        members.len()
    } else {
        64
    };
    let mut t: u128 = 0;
    let mut i: usize = 0;
    while i < n
        invariant
            0 <= i <= n,
            n == spec_marked_len(members@),
            n <= members@.len(),
            n <= 64,
            t == spec_bitset_tally(committee@, members@, sv.bitset, i as int),
            t <= i * 0x1_0000_0000_0000_0000,
            committee@.len() <= usize::MAX / 100,
        decreases n - i,
    {
        if (sv.bitset >> (i as u64)) & 1u64 == 1u64 {
            let seats = count_seats(committee, &members[i]);
            t = t + seats as u128;
        }
        i = i + 1;
    }
    let q = quorum_threshold(committee.len());
    let ok = t >= q as u128;
    signature_valid && ok
}

/// Whether step votes verify against a committee, the aggregated signature
/// being valid or not.
pub open spec fn spec_step_votes_verify(
    sv: StepVotes,
    committee: Seq<PublicKeyBytes>,
    signature_valid: bool,
) -> bool {
    signature_valid && spec_bitset_tally(
        committee,
        spec_members(committee),
        sv.bitset,
        spec_marked_len(spec_members(committee)),
    ) >= spec_quorum_threshold(committee.len())
}

/// Checks an attestation: both its validation and its ratification votes
/// must carry a quorum of their committees with valid aggregated signatures
/// (checked by the caller).
pub fn verify_attestation(
    att: &Attestation,
    validation_committee: &Vec<PublicKeyBytes>,
    ratification_committee: &Vec<PublicKeyBytes>,
    validation_signature_valid: bool,
    ratification_signature_valid: bool,
) -> (r: bool)
    requires
        validation_committee@.len() <= usize::MAX / 100,
        ratification_committee@.len() <= usize::MAX / 100,
    ensures
        r == (spec_step_votes_verify(
            att.validation,
            validation_committee@,
            validation_signature_valid,
        ) && spec_step_votes_verify(
            att.ratification,
            ratification_committee@,
            ratification_signature_valid,
        )),
{
    verify_step_votes(&att.validation, validation_committee, validation_signature_valid)
        && verify_step_votes(&att.ratification, ratification_committee, ratification_signature_valid)
}

/// Outcome of adding a vote.
#[derive(Clone, Copy, Debug, PartialEq, Eq)]
pub enum AddVote {
    /// The signer holds no seat in the committee: the vote is dropped.
    NotCommitteeMember,
    /// The signer already cast this vote: nothing changes.
    Duplicate,
    /// The signer already cast another vote, given here: evidence of a
    /// fault; the new vote is not counted.
    Equivocation(Vote),
    /// Counted; no quorum yet for the vote.
    Pending,
    /// Counted; the vote has a quorum.
    Quorum,
}

/// Votes of one step of one iteration: the committee's seats and the
/// members that signed, each once, with their vote.
pub struct StepVotesRegistry {
    pub committee: Vec<PublicKeyBytes>,
    pub signers: Vec<(PublicKeyBytes, Vote)>,
}

impl StepVotesRegistry {
    /// The members that signed, with their vote, in the order they came.
    pub open spec fn signers(&self) -> Seq<(PublicKeyBytes, Vote)> {
        self.signers@
    }

    /// Every signer holds a seat and signed once.
    pub open spec fn wf(&self) -> bool {
        &&& self.committee@.len() <= usize::MAX / 100
        &&& forall|i: int, j: int|
            0 <= i < j < self.signers().len() ==> self.signers()[i].0 != self.signers()[j].0
        &&& forall|i: int|
            0 <= i < self.signers().len() ==> spec_seats(self.committee@, #[trigger] self.signers()[i].0) > 0
    }

    /// No vote yet.
    pub fn new(committee: Vec<PublicKeyBytes>) -> (r: StepVotesRegistry)
        requires
            committee@.len() <= usize::MAX / 100,
        ensures
            r.wf(),
            r.committee@ == committee@,
            r.signers() == Seq::<(PublicKeyBytes, Vote)>::empty(),
    {
        StepVotesRegistry { committee, signers: Vec::new() }
    }

    /// Seats of a provisioner in the committee.
    pub fn seats(&self, key: &PublicKeyBytes) -> (r: usize)
        ensures
            r == spec_seats(self.committee@, *key),
    {
        count_seats(&self.committee, key)
    }

    /// Seats of the members that cast `v`.
    pub fn tally(&self, v: &Vote) -> (r: u128)
        ensures
            r == spec_tally(self.committee@, self.signers(), *v),
    {
        let mut t: u128 = 0;
        let mut i: usize = 0;
        while i < self.signers.len()
            invariant
                0 <= i <= self.signers@.len(),
                t == spec_tally(self.committee@, self.signers@.subrange(0, i as int), *v),
                t <= i * 0x1_0000_0000_0000_0000,
            decreases self.signers@.len() - i,
        {
            assert(self.signers@.subrange(0, i + 1).drop_last() =~= self.signers@.subrange(
                0,
                i as int,
            ));
            let (k, sv) = self.signers[i];
            if vote_eq(&sv, v) {
                let n = self.seats(&k);
                t = t + n as u128;
            }
            i = i + 1;
        }
        assert(self.signers@.subrange(0, self.signers@.len() as int) =~= self.signers@);
        t
    }

    /// Whether the members that cast `v` hold a quorum of the seats.
    pub fn has_quorum(&self, v: &Vote) -> (r: bool)
        requires
            self.wf(),
        ensures
            r == spec_has_quorum(self.committee@, self.signers(), *v),
    {
        let t = self.tally(v);
        let q = quorum_threshold(self.committee.len());
        t >= q as u128
    }

    /// Adds the vote of `signer`. A member's vote counts once, with its
    /// seats; a second, different vote of the same member is reported as
    /// equivocation and not counted.
    pub fn add_step_vote(&mut self, signer: PublicKeyBytes, vote: Vote) -> (r: AddVote)
        requires
            old(self).wf(),
        ensures
            final(self).wf(),
            final(self).committee@ == old(self).committee@,
            spec_seats(old(self).committee@, signer) == 0 ==> r is NotCommitteeMember
                && final(self).signers() == old(self).signers(),
            spec_seats(old(self).committee@, signer) > 0 ==> match r {
                AddVote::Duplicate => final(self).signers() == old(self).signers() && exists|i: int|
                    0 <= i < old(self).signers().len() && old(self).signers()[i] == (signer, vote),
                AddVote::Equivocation(prev) => final(self).signers() == old(self).signers() && prev
                    != vote && exists|i: int|
                    0 <= i < old(self).signers().len() && old(self).signers()[i] == (signer, prev),
                AddVote::Pending => final(self).signers() == old(self).signers().push(
                    (signer, vote),
                ) && !spec_has_quorum(final(self).committee@, final(self).signers(), vote),
                AddVote::Quorum => final(self).signers() == old(self).signers().push(
                    (signer, vote),
                ) && spec_has_quorum(final(self).committee@, final(self).signers(), vote),
                AddVote::NotCommitteeMember => false,
            },
            (forall|i: int|
                0 <= i < old(self).signers().len() ==> old(self).signers()[i].0 != signer)
                && spec_seats(old(self).committee@, signer) > 0 ==> final(self).signers()
                == old(self).signers().push((signer, vote)),
    {
        if self.seats(&signer) == 0 {
            return AddVote::NotCommitteeMember;
        }
        let mut i: usize = 0;
        while i < self.signers.len()
            invariant
                self.signers@ == old(self).signers@,
                self.committee@ == old(self).committee@,
                old(self).wf(),
                spec_seats(self.committee@, signer) > 0,
                0 <= i <= self.signers@.len(),
                forall|j: int| 0 <= j < i ==> self.signers@[j].0 != signer,
            decreases self.signers@.len() - i,
        {
            let (k, prev) = self.signers[i];
            if bytes_eq(&k, &signer) {
                assert(self.signers@[i as int] == (k, prev));
                if vote_eq(&prev, &vote) {
                    assert(old(self).signers()[i as int] == (signer, vote));
                    return AddVote::Duplicate;
                }
                assert(old(self).signers()[i as int] == (signer, prev));
                return AddVote::Equivocation(prev);
            }
            i = i + 1;
        }
        self.signers.push((signer, vote));
        assert forall|a: int, b: int|
            0 <= a < b < self.signers@.len() implies self.signers@[a].0 != self.signers@[b].0 by {
            if b < self.signers@.len() - 1 {
                assert(self.signers@[a] == old(self).signers()[a]);
                assert(self.signers@[b] == old(self).signers()[b]);
            } else {
                assert(self.signers@[a] == old(self).signers()[a]);
                assert(old(self).signers()[a].0 != signer);
            }
        }
        assert forall|a: int| 0 <= a < self.signers@.len() implies spec_seats(
            self.committee@,
            #[trigger] self.signers@[a].0,
        ) > 0 by {
            if a < self.signers@.len() - 1 {
                assert(self.signers@[a] == old(self).signers()[a]);
                assert(spec_seats(old(self).committee@, old(self).signers()[a].0) > 0);
            }
        }
        if self.has_quorum(&vote) {
            AddVote::Quorum
        } else {
            AddVote::Pending
        }
    }
}

/// Quorum correctness: a vote has a quorum exactly when the members that
/// cast it, each counted once with its seats, hold at least the ceiling of
/// 0.67 times the committee's seats; a signature adds the seats of its
/// signer to the tally of its vote only. Step votes verify exactly when the
/// distinct members marked in their bitset hold that many seats and the
/// aggregated signature is valid.
pub proof fn lemma_quorum_correctness(
    committee: Seq<PublicKeyBytes>,
    signers: Seq<(PublicKeyBytes, Vote)>,
    v: Vote,
    signer: PublicKeyBytes,
    w: Vote,
)
    ensures
        spec_has_quorum(committee, signers, v) <==> 100 * spec_tally(committee, signers, v) >= 67
            * committee.len(),
        spec_tally(committee, signers.push((signer, w)), v) == spec_tally(committee, signers, v) + (
        if w == v {
            spec_seats(committee, signer)
        } else {
            0nat
        }),
        spec_members(committee).no_duplicates(),
        forall|sv: StepVotes, ok: bool|
            spec_step_votes_verify(sv, committee, ok) <==> ok && 100 * spec_bitset_tally(
                committee,
                spec_members(committee),
                sv.bitset,
                spec_marked_len(spec_members(committee)),
            ) >= 67 * committee.len(),
{
    lemma_members_distinct(committee);
    let s = signers.push((signer, w));
    assert(s.drop_last() =~= signers);
    let t = spec_tally(committee, signers, v);
    let n = committee.len();
    let q = spec_quorum_threshold(n);
    assert(100 * q >= 67 * n);
    assert(100 * q < 67 * n + 100);
}

} // verus!
