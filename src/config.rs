use vstd::prelude::*;

verus! {

/// Maximum number of steps the consensus runs in a single round.
pub const CONSENSUS_MAX_STEP: u8 = 213;

/// Maximum number of iterations the consensus runs in a single round.
pub const CONSENSUS_MAX_ITER: u8 = 71;

/// Quorum threshold, in percent of the committee size.
pub const CONSENSUS_QUORUM_THRESHOLD_PERCENT: u64 = 67;

/// Initial step timeout in milliseconds.
pub const CONSENSUS_TIMEOUT_MS: u64 = 5000;

/// Maximum step timeout in milliseconds.
pub const CONSENSUS_MAX_TIMEOUT_MS: u64 = 60000;

/// Committee size of the proposal step (its sole member is the generator).
pub const PROPOSAL_COMMITTEE_SIZE: usize = 1;

/// Committee size of the validation step.
pub const VALIDATION_COMMITTEE_SIZE: usize = 64;

/// Committee size of the ratification step.
pub const RATIFICATION_COMMITTEE_SIZE: usize = 64;

/// Artificial delay at the start of each iteration, in milliseconds.
pub const CONSENSUS_DELAY_MS: u64 = 1000;

/// Default gas limit of a block.
pub const DEFAULT_BLOCK_GAS_LIMIT: u64 = 5000000000;

/// From this iteration on, the node runs in emergency mode.
pub const RELAX_ITERATION_THRESHOLD: u8 = 10;

pub open spec fn spec_is_emergency_iter(iter: u8) -> bool {
    iter >= RELAX_ITERATION_THRESHOLD
}

/// Tells whether an iteration runs in emergency mode.
pub fn is_emergency_iter(iter: u8) -> (r: bool)
    ensures
        r == spec_is_emergency_iter(iter),
{
    iter >= RELAX_ITERATION_THRESHOLD
}

/// Number of signers needed for a quorum in a committee of `size` members:
/// the ceiling of 0.67 times the size.
pub open spec fn spec_quorum_threshold(size: nat) -> nat {
    ((CONSENSUS_QUORUM_THRESHOLD_PERCENT * size + 99) / 100) as nat
}

/// Computes the quorum threshold of a committee of `size` members.
pub fn quorum_threshold(size: usize) -> (r: usize)
    requires
        size <= usize::MAX / 100,
    ensures
        r as nat == spec_quorum_threshold(size as nat),
        100 * r >= 67 * size,
        100 * (r - 1) < 67 * size || r == 0,
{
    let r = (CONSENSUS_QUORUM_THRESHOLD_PERCENT as usize * size + 99) / 100;
    r
}

/// The step timeout after one more timeout: doubled, capped at the maximum.
pub open spec fn spec_next_timeout(t: nat) -> nat {
    if 2 * t < CONSENSUS_MAX_TIMEOUT_MS {
        2 * t
    } else {
        CONSENSUS_MAX_TIMEOUT_MS as nat
    }
}

/// The step timeout after `k` consecutive timeouts, starting from `base`.
pub open spec fn spec_timeout_after(base: nat, k: nat) -> nat
    decreases k,
{
    if k == 0 {
        base
    } else {
        spec_next_timeout(spec_timeout_after(base, (k - 1) as nat))
    }
}

pub open spec fn pow2(k: nat) -> nat
    decreases k,
{
    if k == 0 {
        1
    } else {
        2 * pow2((k - 1) as nat)
    }
}

pub open spec fn min_nat(a: nat, b: nat) -> nat {
    if a < b {
        a
    } else {
        b
    }
}

/// Doubles a step timeout on a missed deadline, capped at
/// `CONSENSUS_MAX_TIMEOUT_MS`.
pub fn next_timeout(t: u64) -> (r: u64)
    ensures
        r as nat == spec_next_timeout(t as nat),
{
    if t < CONSENSUS_MAX_TIMEOUT_MS / 2 + 1 && 2 * t < CONSENSUS_MAX_TIMEOUT_MS {
        2 * t
    } else {
        CONSENSUS_MAX_TIMEOUT_MS
    }
}

pub proof fn lemma_pow2_positive(k: nat)
    ensures
        pow2(k) >= 1,
    decreases k,
{
    if k > 0 {
        lemma_pow2_positive((k - 1) as nat);
    }
}

/// After `k` consecutive step timeouts the deadline of a step whose base
/// timeout is at most the maximum equals `min(base * 2^k, max)`.
pub proof fn lemma_timeout_monotonicity(base: nat, k: nat)
    requires
        base <= CONSENSUS_MAX_TIMEOUT_MS,
    ensures
        spec_timeout_after(base, k) == min_nat(base * pow2(k), CONSENSUS_MAX_TIMEOUT_MS as nat),
    decreases k,
{
    if k == 0 {
        assert(base * pow2(k) == base) by (nonlinear_arith)
            requires
                pow2(k) == 1,
        ;
    } else {
        let j = (k - 1) as nat;
        lemma_timeout_monotonicity(base, j);
        lemma_pow2_positive(j);
        let p = base * pow2(j);
        assert(base * pow2(k) == 2 * p) by (nonlinear_arith)
            requires
                pow2(k) == 2 * pow2(j),
                p == base * pow2(j),
        ;
        assert(spec_timeout_after(base, k) == spec_next_timeout(spec_timeout_after(base, j)));
    }
}

} // verus!
