use vstd::prelude::*;
use crate::config::{
    CONSENSUS_MAX_ITER, CONSENSUS_MAX_STEP, CONSENSUS_MAX_TIMEOUT_MS, CONSENSUS_TIMEOUT_MS,
    lemma_pow2_positive, lemma_timeout_monotonicity, min_nat, next_timeout, pow2,
    spec_next_timeout, spec_timeout_after,
};
use crate::proposal::{Message, Payload};
use crate::types::Attestation;

verus! {

/// The three steps of an iteration, in order.
#[derive(Clone, Copy, Debug, PartialEq, Eq, Structural)]
pub enum Phase {
    Proposal,
    Validation,
    Ratification,
}

pub open spec fn spec_phase_index(p: Phase) -> nat {
    match p {
        Phase::Proposal => 0,
        Phase::Validation => 1,
        Phase::Ratification => 2,
    }
}

/// Position of a step within its iteration.
pub fn phase_index(p: Phase) -> (r: usize)
    ensures
        r == spec_phase_index(p),
{
    match p {
        Phase::Proposal => 0,
        Phase::Validation => 1,
        Phase::Ratification => 2,
    }
}

/// The step number of a phase of an iteration: three steps per iteration,
/// capped at `CONSENSUS_MAX_STEP`.
pub open spec fn spec_step(iter: u8, p: Phase) -> u8 {
    let s = 3 * iter + spec_phase_index(p);
    if s < CONSENSUS_MAX_STEP {
        s as u8
    } else {
        CONSENSUS_MAX_STEP
    }
}

pub fn step_of(iter: u8, p: Phase) -> (r: u8)
    ensures
        r == spec_step(iter, p),
{
    let s: u64 = 3 * iter as u64 + phase_index(p) as u64;
    if s < CONSENSUS_MAX_STEP as u64 {
        s as u8
    } else {
        CONSENSUS_MAX_STEP
    }
}

/// How long to wait before printing the countdown again, in seconds, when
/// `to_wait` seconds remain before consensus may start: every 15 minutes
/// above an hour, every 10 minutes above half an hour, every 5 minutes above
/// 5 minutes, every 30 seconds above a minute, then every second.
pub open spec fn spec_spin_chunk(to_wait: u64) -> u64 {
    if to_wait > 3600 {
        900
    } else if to_wait > 1800 {
        600
    } else if to_wait > 300 {
        300
    } else if to_wait > 60 {
        30
    } else {
        1
    }
}

pub fn spin_chunk(to_wait: u64) -> (r: u64)
    ensures
        r == spec_spin_chunk(to_wait),
{
    if to_wait > 3600 {
        900
    } else if to_wait > 1800 {
        600
    } else if to_wait > 300 {
        300
    } else if to_wait > 60 {
        30
    } else {
        1
    }
}

/// Time left before consensus may start, in seconds, given the configured
/// start time (UNIX seconds, 0 when unset) and the time now: `None` when it
/// may start at once.
pub fn spin_time_left(spin_time: u64, now: u64) -> (r: Option<u64>)
    ensures
        spin_time == 0 || spin_time <= now ==> r is None,
        spin_time != 0 && spin_time > now ==> r == Some((spin_time - now) as u64),
{
    if spin_time == 0 || spin_time <= now {
        None
    } else {
        Some(spin_time - now)
    }
}

/// Where a message goes, given the round and iteration the node is in.
#[derive(Clone, Copy, Debug, PartialEq, Eq, Structural)]
pub enum Route {
    /// Too old: dropped.
    Drop,
    /// Of an earlier iteration of this round, or of the previous round:
    /// handled as a past message.
    Past,
    /// Of the current iteration.
    Current,
    /// Of a later round or iteration: kept until its time comes.
    Future,
}

pub open spec fn spec_route(msg_round: u64, msg_iter: u8, round: u64, iter: u8) -> Route {
    if msg_round + 1 < round {
        Route::Drop
    } else if msg_round < round {
        Route::Past
    } else if msg_round > round {
        Route::Future
    } else if msg_iter < iter {
        Route::Past
    } else if msg_iter > iter {
        Route::Future
    } else {
        Route::Current
    }
}

/// Routes a message of round `msg_round` and iteration `msg_iter`: messages
/// older than the previous round are dropped, those of a later round or
/// iteration are kept for later.
pub fn route(msg_round: u64, msg_iter: u8, round: u64, iter: u8) -> (r: Route)
    ensures
        r == spec_route(msg_round, msg_iter, round, iter),
{
    if msg_round < round && round - msg_round > 1 {
        Route::Drop
    } else if msg_round < round {
        Route::Past
    } else if msg_round > round {
        Route::Future
    } else if msg_iter < iter {
        Route::Past
    } else if msg_iter > iter {
        Route::Future
    } else {
        Route::Current
    }
}

/// A message kept for a later round and iteration.
#[derive(Clone, Copy, Debug, PartialEq, Eq)]
pub struct Stashed {
    pub round: u64,
    pub iteration: u8,
    pub msg: Message,
}

/// The messages kept for `round` and `iter`, in the order they came.
pub open spec fn spec_stashed(s: Seq<Stashed>, round: u64, iter: u8) -> Seq<Message>
    decreases s.len(),
{
    if s.len() == 0 {
        Seq::empty()
    } else {
        let before = spec_stashed(s.drop_last(), round, iter);
        if s.last().round == round && s.last().iteration == iter {
            before.push(s.last().msg)
        } else {
            before
        }
    }
}

/// The entries that are not for `round` and `iter`.
pub open spec fn spec_others(s: Seq<Stashed>, round: u64, iter: u8) -> Seq<Stashed>
    decreases s.len(),
{
    if s.len() == 0 {
        Seq::empty()
    } else {
        let before = spec_others(s.drop_last(), round, iter);
        if s.last().round == round && s.last().iteration == iter {
            before
        } else {
            before.push(s.last())
        }
    }
}

/// The entries of rounds other than `round`.
pub open spec fn spec_without_round(s: Seq<Stashed>, round: u64) -> Seq<Stashed>
    decreases s.len(),
{
    if s.len() == 0 {
        Seq::empty()
    } else {
        let before = spec_without_round(s.drop_last(), round);
        if s.last().round == round {
            before
        } else {
            before.push(s.last())
        }
    }
}

/// Messages read ahead of their round or iteration, kept until the node
/// gets there.
pub struct MsgRegistry {
    pub entries: Vec<Stashed>,
}

impl MsgRegistry {
    pub fn new() -> (r: MsgRegistry)
        ensures
            r.entries@ == Seq::<Stashed>::empty(),
    {
        MsgRegistry { entries: Vec::new() }
    }

    /// Keeps a message for `round` and `iteration`.
    pub fn put(&mut self, round: u64, iteration: u8, msg: Message)
        ensures
            final(self).entries@ == old(self).entries@.push(Stashed { round, iteration, msg }),
    {
        self.entries.push(Stashed { round, iteration, msg });
    }

    /// Hands out, in the order they came, the messages kept for `round` and
    /// `iteration`, and forgets them.
    pub fn drain_msg_by_round_iter(&mut self, round: u64, iteration: u8) -> (r: Vec<Message>)
        ensures
            r@ == spec_stashed(old(self).entries@, round, iteration),
            final(self).entries@ == spec_others(old(self).entries@, round, iteration),
    {
        let mut out: Vec<Message> = Vec::new();
        let mut rest: Vec<Stashed> = Vec::new();
        let mut i: usize = 0;
        while i < self.entries.len()
            invariant
                0 <= i <= self.entries@.len(),
                out@ == spec_stashed(self.entries@.subrange(0, i as int), round, iteration),
                rest@ == spec_others(self.entries@.subrange(0, i as int), round, iteration),
            decreases self.entries@.len() - i,
        {
            assert(self.entries@.subrange(0, i + 1).drop_last() =~= self.entries@.subrange(
                0,
                i as int,
            ));
            let e = self.entries[i];
            if e.round == round && e.iteration == iteration {
                out.push(e.msg);
            } else {
                rest.push(e);
            }
            i = i + 1;
        }
        assert(self.entries@.subrange(0, self.entries@.len() as int) =~= self.entries@);
        self.entries = rest;
        out
    }

    /// Forgets every message kept for `round`.
    pub fn remove_msgs_by_round(&mut self, round: u64)
        ensures
            final(self).entries@ == spec_without_round(old(self).entries@, round),
    {
        let mut rest: Vec<Stashed> = Vec::new();
        let mut i: usize = 0;
        while i < self.entries.len()
            invariant
                0 <= i <= self.entries@.len(),
                rest@ == spec_without_round(self.entries@.subrange(0, i as int), round),
            decreases self.entries@.len() - i,
        {
            assert(self.entries@.subrange(0, i + 1).drop_last() =~= self.entries@.subrange(
                0,
                i as int,
            ));
            let e = self.entries[i];
            if e.round != round {
                rest.push(e);
            }
            i = i + 1;
        }
        assert(self.entries@.subrange(0, self.entries@.len() as int) =~= self.entries@);
        self.entries = rest;
    }
}

/// Message routing: a message of a later round is kept, not handled; once
/// the node reaches that round and iteration, draining the registry hands it
/// out after the messages kept before it; a message older than the previous
/// round is dropped.
pub proof fn lemma_future_message_replayed(
    entries: Seq<Stashed>,
    msg: Message,
    msg_round: u64,
    msg_iter: u8,
    round: u64,
    iter: u8,
)
    ensures
        msg_round > round ==> spec_route(msg_round, msg_iter, round, iter) == Route::Future,
        msg_round + 1 < round ==> spec_route(msg_round, msg_iter, round, iter) == Route::Drop,
        spec_stashed(
            entries.push(Stashed { round: msg_round, iteration: msg_iter, msg }),
            msg_round,
            msg_iter,
        ) == spec_stashed(entries, msg_round, msg_iter).push(msg),
{
    let s = entries.push(Stashed { round: msg_round, iteration: msg_iter, msg });
    assert(s.drop_last() =~= entries);
}

/// The state of one consensus round: the iteration and step reached, and
/// the base timeout of each step, which doubles on each missed deadline.
pub struct Consensus {
    pub round: u64,
    pub iter: u8,
    pub phase: Phase,
    /// Base timeout of each step, in milliseconds, by phase index.
    pub base_timeouts: [u64; 3],
}

/// What the round does after a step.
#[derive(Clone, Copy, Debug, PartialEq, Eq, Structural)]
pub enum NextStep {
    /// Run the next step.
    Continue,
    /// A quorum elected a block: the round ends.
    RoundWon,
    /// Every iteration ran without a winner: the round ends.
    Exhausted,
}

/// The decision after a step: whether to hand the step's quorum to the
/// chain (before anything else), and what the round does next.
#[derive(Clone, Copy, Debug, PartialEq, Eq, Structural)]
pub struct StepDecision {
    pub forward_quorum: bool,
    pub next: NextStep,
}

/// The attestation of a step's outcome, when the outcome is a quorum.
pub open spec fn spec_quorum_of(out: Option<Message>) -> Option<Attestation> {
    match out {
        Some(m) => match m.payload {
            Payload::Quorum(a) => Some(a),
            _ => None,
        },
        None => None,
    }
}

/// A base timeout capped at the maximum.
pub open spec fn spec_capped(t: u64) -> u64 {
    if t < CONSENSUS_MAX_TIMEOUT_MS {
        t
    } else {
        CONSENSUS_MAX_TIMEOUT_MS
    }
}

impl Consensus {
    pub open spec fn wf(&self) -> bool {
        &&& self.iter < CONSENSUS_MAX_ITER
        &&& forall|i: int| 0 <= i < 3 ==> self.base_timeouts@[i] <= CONSENSUS_MAX_TIMEOUT_MS
    }

    /// A round that starts at iteration 0 with the given base timeouts,
    /// each capped at `CONSENSUS_MAX_TIMEOUT_MS`.
    pub fn new(round: u64, base_timeouts: [u64; 3]) -> (r: Consensus)
        ensures
            r.wf(),
            r.round == round,
            r.iter == 0,
            r.phase == Phase::Proposal,
            forall|i: int| 0 <= i < 3 ==> r.base_timeouts@[i] == spec_capped(base_timeouts@[i]),
    {
        let mut t = base_timeouts;
        let mut i: usize = 0;
        while i < 3
            invariant
                0 <= i <= 3,
                forall|j: int| 0 <= j < i ==> t@[j] == spec_capped(base_timeouts@[j]),
                forall|j: int| i <= j < 3 ==> t@[j] == base_timeouts@[j],
            decreases 3 - i,
        {
            if t[i] > CONSENSUS_MAX_TIMEOUT_MS {
                t[i] = CONSENSUS_MAX_TIMEOUT_MS;
            }
            i = i + 1;
        }
        Consensus { round, iter: 0, phase: Phase::Proposal, base_timeouts: t }
    }

    /// The base timeouts of a fresh round.
    pub fn default_timeouts() -> (r: [u64; 3])
        ensures
            r@ == seq![CONSENSUS_TIMEOUT_MS, CONSENSUS_TIMEOUT_MS, CONSENSUS_TIMEOUT_MS],
    {
        let r = [CONSENSUS_TIMEOUT_MS, CONSENSUS_TIMEOUT_MS, CONSENSUS_TIMEOUT_MS];
        assert(r@ =~= seq![CONSENSUS_TIMEOUT_MS, CONSENSUS_TIMEOUT_MS, CONSENSUS_TIMEOUT_MS]);
        r
    }

    /// The deadline of the current step, in milliseconds.
    pub fn step_deadline(&self) -> (r: u64)
        requires
            self.wf(),
        ensures
            r == self.base_timeouts@[spec_phase_index(self.phase) as int],
            r <= CONSENSUS_MAX_TIMEOUT_MS,
    {
        self.base_timeouts[phase_index(self.phase)]
    }

    /// Records that the current step missed its deadline: its base timeout
    /// doubles, capped at the maximum, for the next iterations.
    pub fn on_step_timeout(&mut self)
        requires
            old(self).wf(),
        ensures
            final(self).wf(),
            final(self).round == old(self).round,
            final(self).iter == old(self).iter,
            final(self).phase == old(self).phase,
            final(self).base_timeouts@ == old(self).base_timeouts@.update(
                spec_phase_index(old(self).phase) as int,
                spec_next_timeout(
                    old(self).base_timeouts@[spec_phase_index(old(self).phase) as int] as nat,
                ) as u64,
            ),
    {
        let i = phase_index(self.phase);
        let t = next_timeout(self.base_timeouts[i]);
        self.base_timeouts[i] = t;
    }

    /// Moves on after a step whose result (if any) is `out`. A quorum is
    /// handed to the chain first, whatever follows; one that elects a block
    /// ends the round. Otherwise the next step runs: after the ratification
    /// step the next iteration starts, and after the last iteration the
    /// round is exhausted.
    pub fn on_step_done(&mut self, out: Option<Message>) -> (r: StepDecision)
        requires
            old(self).wf(),
        ensures
            final(self).wf(),
            final(self).round == old(self).round,
            final(self).base_timeouts == old(self).base_timeouts,
            r.forward_quorum == spec_quorum_of(out) is Some,
            (spec_quorum_of(out) matches Some(a) && a.spec_winner() is Some) ==> r.next
                == NextStep::RoundWon && final(self).iter == old(self).iter && final(self).phase
                == old(self).phase,
            !(spec_quorum_of(out) matches Some(a) && a.spec_winner() is Some) ==> {
                &&& old(self).phase == Phase::Proposal ==> r.next == NextStep::Continue
                    && final(self).phase == Phase::Validation && final(self).iter == old(self).iter
                &&& old(self).phase == Phase::Validation ==> r.next == NextStep::Continue
                    && final(self).phase == Phase::Ratification && final(self).iter
                    == old(self).iter
                &&& old(self).phase == Phase::Ratification && old(self).iter + 1
                    < CONSENSUS_MAX_ITER ==> r.next == NextStep::Continue && final(self).phase
                    == Phase::Proposal && final(self).iter == old(self).iter + 1
                &&& old(self).phase == Phase::Ratification && old(self).iter + 1
                    >= CONSENSUS_MAX_ITER ==> r.next == NextStep::Exhausted && final(self).iter
                    == old(self).iter && final(self).phase == old(self).phase
            },
    {
        let quorum = match out {
            Some(m) => match m.payload {
                Payload::Quorum(a) => Some(a),
                _ => None,
            },
            None => None,
        };
        let forward_quorum = quorum.is_some();
        if let Some(a) = quorum {
            if a.winner().is_some() {
                return StepDecision { forward_quorum, next: NextStep::RoundWon };
            }
        }
        match self.phase {
            Phase::Proposal => {
                self.phase = Phase::Validation;
            },
            Phase::Validation => {
                self.phase = Phase::Ratification;
            },
            Phase::Ratification => {
                if self.iter + 1 >= CONSENSUS_MAX_ITER {
                    return StepDecision { forward_quorum, next: NextStep::Exhausted };
                }
                self.iter = self.iter + 1;
                self.phase = Phase::Proposal;
            },
        }
        StepDecision { forward_quorum, next: NextStep::Continue }
    }
}

/// Timeout escalation of a round: whatever base timeout a step starts the
/// round with, after `k` consecutive missed deadlines its deadline is
/// `min(base * 2^k, CONSENSUS_MAX_TIMEOUT_MS)`.
pub proof fn lemma_round_deadline(base: nat, k: nat)
    ensures
        spec_timeout_after(min_nat(base, CONSENSUS_MAX_TIMEOUT_MS as nat), k) == min_nat(
            base * pow2(k),
            CONSENSUS_MAX_TIMEOUT_MS as nat,
        ),
{
    if base <= CONSENSUS_MAX_TIMEOUT_MS {
        lemma_timeout_monotonicity(base, k);
    } else {
        lemma_timeout_monotonicity(CONSENSUS_MAX_TIMEOUT_MS as nat, k);
        lemma_pow2_positive(k);
        assert(base * pow2(k) >= base) by (nonlinear_arith)
            requires
                pow2(k) >= 1,
        ;
        assert(CONSENSUS_MAX_TIMEOUT_MS * pow2(k) >= CONSENSUS_MAX_TIMEOUT_MS) by (nonlinear_arith)
            requires
                pow2(k) >= 1,
        ;
    }
}

} // verus!
