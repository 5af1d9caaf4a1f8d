use vstd::prelude::*;
use std::collections::HashMap;
use crate::cache::{AttestationCache, HashSet32, spec_expiry_from};
use crate::proposal::PublicKeyBytes;
use crate::types::{Attestation, BlockHash, Header, PeerAddr, bytes_eq};
use crate::votes::{spec_step_votes_verify, verify_attestation};

verus! {

broadcast use vstd::std_specs::hash::group_hash_axioms;

/// Most blocks requested from a peer in one sync-up, and the bound of the
/// pool of blocks received ahead of the tip.
pub const MAX_BLOCKS_TO_REQUEST: u64 = 50;

/// Time without progress after which a sync-up attempt expires, in
/// milliseconds.
pub const EXPIRY_TIMEOUT_MS: u64 = 5000;

/// Time a presync stays pending, in milliseconds.
pub const PRESYNC_TIMEOUT_MS: u64 = 10000;

/// Hop limit of a flood request for a candidate block.
pub const DEFAULT_HOPS_LIMIT: u16 = 16;

/// Hop limit of a flood request for blocks missing in a sync-up.
pub const MISSING_BLOCKS_HOPS_LIMIT: u16 = 8;

/// Expired sync-up attempts allowed before giving up.
pub const OUT_OF_SYNC_ATTEMPTS: u8 = 3;

/// What the caller performs for the state machine, in order.
#[derive(Debug, PartialEq, Eq)]
pub enum Action {
    /// Accept the block (the flag enables consensus on the new tip).
    AcceptBlock(Header, bool),
    /// Accept the successor of the tip with consensus enabled, then report
    /// whether finalization advanced with `SimpleFSM::on_successor_accepted`.
    AcceptSuccessor(Header),
    /// Revert to the parent of the local block `local_hash`, then report the
    /// outcome with `SimpleFSM::on_fork_recovery_done`.
    RevertFork { local_hash: BlockHash, remote: Header },
    /// Reset the stalled-chain detector to the header of the new tip.
    ResetStallDetector(Header),
    /// Revert the tip `local` to the state of the parent of `remote`, then
    /// report the outcome with `SimpleFSM::on_fallback_done`.
    Fallback { local: Header, remote: Header },
    /// Send our block to a peer.
    SendBlock { block: Header, to: PeerAddr },
    /// Ask a peer for the block at a height.
    RequestBlockByHeight { height: u64, peer: PeerAddr },
    /// Ask a peer for the blocks that follow `locator`.
    GetBlocks { locator: BlockHash, peer: PeerAddr },
    /// Flood-request the blocks at the given heights.
    FloodRequestBlocks { heights: Vec<u64>, hops: u16 },
    /// Flood-request the candidate block with the given hash.
    FloodRequestCandidate { hash: BlockHash, hops: u16 },
    /// Restart the consensus task on the current tip.
    RestartConsensus,
}

/// A pending check that a peer far ahead of us holds a valid successor of
/// our tip, before syncing from it.
#[derive(Clone, Copy, Debug, PartialEq, Eq)]
pub struct PresyncInfo {
    pub peer_addr: PeerAddr,
    pub start_height: u64,
    pub target_blk: Header,
    pub expiry: u64,
}

pub open spec fn spec_deadline(now: u64, span: u64) -> u64 {
    if now as int + span as int <= u64::MAX as int {
        (now + span) as u64
    } else {
        u64::MAX
    }
}

impl PresyncInfo {
    /// A presync towards `target_blk`, from `start_height`, that expires
    /// `PRESYNC_TIMEOUT_MS` after `now`.
    pub fn new(peer_addr: PeerAddr, target_blk: Header, start_height: u64, now: u64) -> (r:
        PresyncInfo)
        ensures
            r.peer_addr == peer_addr,
            r.target_blk == target_blk,
            r.start_height == start_height,
            r.expiry == spec_deadline(now, PRESYNC_TIMEOUT_MS),
    {
        PresyncInfo {
            peer_addr,
            target_blk,
            start_height,
            expiry: now.saturating_add(PRESYNC_TIMEOUT_MS),
        }
    }

    pub fn start_height(&self) -> (r: u64)
        ensures
            r == self.start_height,
    {
        self.start_height
    }
}

/// What the caller looked up in its ledger about a block at or below the
/// tip before handing it to the in-sync state.
#[derive(Clone, Copy, Debug, PartialEq, Eq)]
pub struct LedgerFacts {
    /// The ledger holds a block with the remote block's hash.
    pub remote_known: bool,
    /// The ledger holds the remote block's parent.
    pub prev_known: bool,
    /// Height of the latest finalized block.
    pub finalized_height: u64,
    /// Our block at the remote block's height, if the ledger has one.
    pub local_at_height: Option<Header>,
}

/// State while the node follows the network tip.
pub struct InSyncImpl {
    pub presync: Option<PresyncInfo>,
}

/// Whether `h` is the successor height of `tip`.
pub open spec fn is_next(h: u64, tip: u64) -> bool {
    h as int == tip as int + 1
}

pub open spec fn same_peer(a: Option<PeerAddr>, b: PeerAddr) -> bool {
    a == Some(b)
}

/// The block of ours that a remote block at or below the tip competes with.
pub open spec fn spec_local_rival(remote: Header, tip: Header, facts: LedgerFacts) -> Option<
    Header,
> {
    if remote.height == tip.height {
        Some(tip)
    } else {
        facts.local_at_height
    }
}

/// Whether a remote block at or below the tip is worth comparing with ours:
/// not ours, above the finalized block, and its parent in our chain.
pub open spec fn spec_rival_admissible(remote: Header, tip: Header, facts: LedgerFacts) -> bool {
    &&& if remote.height == tip.height {
        remote.hash != tip.hash
    } else {
        !facts.remote_known
    }
    &&& remote.height > facts.finalized_height
    &&& facts.prev_known
}

/// What the in-sync state does with a block at or below the tip.
pub open spec fn spec_rival_actions(
    remote: Header,
    tip: Header,
    facts: LedgerFacts,
    source: Option<PeerAddr>,
) -> Seq<Action> {
    if !spec_rival_admissible(remote, tip, facts) {
        Seq::empty()
    } else {
        match spec_local_rival(remote, tip, facts) {
            None => Seq::empty(),
            Some(local) => if remote.iteration < local.iteration {
                seq![Action::Fallback { local, remote }]
            } else if remote.iteration > local.iteration {
                match source {
                    Some(p) => seq![Action::SendBlock { block: local, to: p }],
                    None => Seq::empty(),
                }
            } else {
                Seq::empty()
            },
        }
    }
}

/// What the in-sync state does with a block: the actions, the target and
/// peer to sync from when the block completes a presync, and the presync
/// that stays pending.
pub open spec fn spec_in_sync_block(
    presync: Option<PresyncInfo>,
    remote: Header,
    source: Option<PeerAddr>,
    tip: Header,
    facts: LedgerFacts,
    now: u64,
) -> (Seq<Action>, Option<(Header, PeerAddr)>, Option<PresyncInfo>) {
    if remote.height <= tip.height {
        (spec_rival_actions(remote, tip, facts, source), None, presync)
    } else if is_next(remote.height, tip.height) {
        match presync {
            Some(p) => if same_peer(source, p.peer_addr) && is_next(remote.height, p.start_height) {
                (seq![Action::AcceptSuccessor(remote)], Some((p.target_blk, p.peer_addr)), None)
            } else {
                (seq![Action::AcceptSuccessor(remote)], None, presync)
            },
            None => (seq![Action::AcceptSuccessor(remote)], None, presync),
        }
    } else {
        match source {
            None => (Seq::empty(), None, presync),
            Some(p) => (
                seq![Action::RequestBlockByHeight { height: (tip.height + 1) as u64, peer: p }],
                None,
                if presync is None {
                    Some(
                        PresyncInfo {
                            peer_addr: p,
                            start_height: tip.height,
                            target_blk: remote,
                            expiry: spec_deadline(now, PRESYNC_TIMEOUT_MS),
                        },
                    )
                } else {
                    presync
                },
            ),
        }
    }
}

impl InSyncImpl {
    pub fn new() -> (r: InSyncImpl)
        ensures
            r.presync is None,
    {
        InSyncImpl { presync: None }
    }

    /// Handles a block in the in-sync state. Returns the actions to perform
    /// and, when the block completes a presync, the target block and peer
    /// to sync from.
    ///
    /// - A block at or below the tip is compared with ours at its height: a
    ///   lower iteration wins and triggers a fallback; a higher one gets our
    ///   block sent back to its source.
    /// - The successor of the tip is accepted.
    /// - A block further ahead starts a presync with its source and asks it
    ///   for the successor of our tip.
    pub fn on_block_event(
        &mut self,
        remote: Header,
        source: Option<PeerAddr>,
        tip: Header,
        facts: LedgerFacts,
        now: u64,
    ) -> (r: (Vec<Action>, Option<(Header, PeerAddr)>))
        ensures
            (r.0@, r.1, final(self).presync) == spec_in_sync_block(
                old(self).presync,
                remote,
                source,
                tip,
                facts,
                now,
            ),
    {
        let mut actions: Vec<Action> = Vec::new();
        if remote.height <= tip.height {
            let admissible = if remote.height == tip.height {
                !bytes_eq(&remote.hash, &tip.hash)
            } else {
                !facts.remote_known
            } && remote.height > facts.finalized_height && facts.prev_known;
            if admissible {
                let local = if remote.height == tip.height {
                    Some(tip)
                } else {
                    facts.local_at_height
                };
                if let Some(local) = local {
                    if remote.iteration < local.iteration {
                        actions.push(Action::Fallback { local, remote });
                    } else if remote.iteration > local.iteration {
                        if let Some(p) = source {
                            actions.push(Action::SendBlock { block: local, to: p });
                        }
                    }
                }
            }
            return (actions, None);
        }
        if remote.height - tip.height == 1 {
            actions.push(Action::AcceptSuccessor(remote));
            if let Some(src) = source {
                if let Some(p) = self.presync {
                    if src == p.peer_addr && p.start_height < u64::MAX && remote.height
                        == p.start_height + 1 {
                        self.presync = None;
                        return (actions, Some((p.target_blk, p.peer_addr)));
                    }
                }
            }
            return (actions, None);
        }
        if let Some(p) = source {
            if self.presync.is_none() {
                self.presync = Some(PresyncInfo::new(p, remote, tip.height, now));
            }
            actions.push(Action::RequestBlockByHeight { height: tip.height + 1, peer: p });
        }
        (actions, None)
    }

    /// Enters the state with the block that ended the sync-up: it is
    /// accepted if it is the successor of the tip.
    pub fn on_entering(&mut self, blk: Header, tip_height: u64) -> (r: Vec<Action>)
        ensures
            final(self).presync == old(self).presync,
            r@ == (if is_next(blk.height, tip_height) {
                seq![Action::AcceptBlock(blk, true)]
            } else {
                Seq::empty()
            }),
    {
        let mut actions: Vec<Action> = Vec::new();
        if blk.height > tip_height && blk.height - tip_height == 1 {
            actions.push(Action::AcceptBlock(blk, true));
        }
        actions
    }

    /// Drops a presync that has expired at `now`.
    pub fn on_heartbeat(&mut self, now: u64) -> (r: bool)
        ensures
            !r,
            match old(self).presync {
                Some(p) => if p.expiry <= now {
                    final(self).presync is None
                } else {
                    final(self).presync == old(self).presync
                },
                None => final(self).presync is None,
            },
    {
        if let Some(p) = self.presync {
            if p.expiry <= now {
                self.presync = None;
            }
        }
        false
    }
}

/// Blocks received ahead of the tip while syncing, keyed by height: each
/// block sits at its own height.
pub open spec fn pool_wf(pool: Map<u64, Header>) -> bool {
    forall|h: u64| #[trigger] pool.contains_key(h) ==> pool[h].height == h
}

pub open spec fn pool_has(pool: Map<u64, Header>, h: u64) -> bool {
    pool.contains_key(h)
}

/// The block at height `h` of a pool, if any.
pub open spec fn pool_get(pool: Map<u64, Header>, h: u64) -> Option<Header> {
    if pool.contains_key(h) {
        Some(pool[h])
    } else {
        None
    }
}

/// Number of consecutive heights after `from`, up to `end`, that a pool
/// holds.
pub open spec fn spec_run_len(pool: Map<u64, Header>, from: u64, end: u64) -> nat
    decreases end - from,
{
    if from >= end {
        0
    } else if pool_has(pool, (from + 1) as u64) {
        1 + spec_run_len(pool, (from + 1) as u64, end)
    } else {
        0
    }
}

/// The height of the tip after the actions are performed, starting from a
/// tip at `tip_height`.
pub open spec fn spec_height_after(tip_height: int, actions: Seq<Action>) -> int
    decreases actions.len(),
{
    if actions.len() == 0 {
        tip_height
    } else {
        let before = spec_height_after(tip_height, actions.drop_last());
        match actions.last() {
            Action::AcceptBlock(h, _) => h.height as int,
            Action::AcceptSuccessor(h) => h.height as int,
            Action::Fallback { remote, .. } => remote.height as int,
            Action::RevertFork { remote, .. } => remote.height as int,
            _ => before,
        }
    }
}

/// The tip after the actions are performed, starting from `tip`, when every
/// acceptance succeeds.
pub open spec fn spec_tip_after(tip: Header, actions: Seq<Action>) -> Header
    decreases actions.len(),
{
    if actions.len() == 0 {
        tip
    } else {
        let before = spec_tip_after(tip, actions.drop_last());
        match actions.last() {
            Action::AcceptBlock(h, _) => h,
            Action::AcceptSuccessor(h) => h,
            _ => before,
        }
    }
}

/// Actions that only accept blocks at consecutive heights above the tip,
/// the k-th action at height `tip_height + 1 + k`, and never revert.
pub open spec fn only_forward(tip_height: u64, actions: Seq<Action>) -> bool {
    forall|k: int|
        0 <= k < actions.len() ==> match #[trigger] actions[k] {
            Action::AcceptBlock(h, _) => h.height == tip_height + 1 + k,
            Action::AcceptSuccessor(h) => h.height == tip_height + 1 + k,
            Action::Fallback { .. } => false,
            Action::RevertFork { .. } => false,
            _ => true,
        }
}

/// The out-of-sync state never lowers the tip: actions that only accept
/// blocks at consecutive heights above the tip leave it at least as high.
pub proof fn lemma_sync_monotonic(tip_height: u64, actions: Seq<Action>)
    requires
        only_forward(tip_height, actions),
    ensures
        spec_height_after(tip_height as int, actions) >= tip_height,
    decreases actions.len(),
{
    if actions.len() > 0 {
        let init = actions.drop_last();
        assert(only_forward(tip_height, init)) by {
            assert forall|k: int| 0 <= k < init.len() implies match #[trigger] init[k] {
                Action::AcceptBlock(h, _) => h.height == tip_height + 1 + k,
                Action::AcceptSuccessor(h) => h.height == tip_height + 1 + k,
                Action::Fallback { .. } => false,
                Action::RevertFork { .. } => false,
                _ => true,
            } by {
                assert(init[k] == actions[k]);
            }
        }
        lemma_sync_monotonic(tip_height, init);
        let k = actions.len() - 1;
        assert(actions[k] == actions.last());
    }
}

/// The actions of the out-of-sync state on the successor `blk` of the tip:
/// accept it, then the consecutive blocks of the pool up to `end`, then
/// restart consensus if `end` is reached.
pub open spec fn spec_drain(pool: Map<u64, Header>, blk: Header, end: u64) -> Seq<Action> {
    let n = spec_run_len(pool, blk.height, end);
    let accepts = seq![Action::AcceptBlock(blk, false)] + Seq::new(
        n,
        |k: int| Action::AcceptBlock(pool_get(pool, (blk.height + 1 + k) as u64)->0, false),
    );
    if blk.height + n >= end {
        accepts.push(Action::RestartConsensus)
    } else {
        accepts
    }
}

/// The actions of the out-of-sync state on a block, and whether it goes
/// back to the in-sync state.
pub open spec fn spec_out_of_sync_block(
    pool: Map<u64, Header>,
    end: u64,
    start_time: u64,
    blk: Header,
    tip_height: u64,
    now: u64,
) -> (Seq<Action>, bool) {
    if spec_expired(start_time, now) {
        (seq![Action::RestartConsensus], true)
    } else if blk.height <= tip_height {
        (Seq::empty(), false)
    } else if is_next(blk.height, tip_height) {
        (
            spec_drain(pool, blk, end),
            blk.height + spec_run_len(pool, blk.height, end) >= end,
        )
    } else {
        (Seq::empty(), false)
    }
}

/// State while the node downloads missing blocks from a peer.
pub struct OutOfSyncImpl {
    /// Heights to reach: from the tip at entry to the last requested.
    pub range: (u64, u64),
    /// Start of the current attempt, in milliseconds.
    pub start_time: u64,
    /// Blocks received ahead of the tip, by height (at most
    /// `MAX_BLOCKS_TO_REQUEST`).
    pub pool: HashMap<u64, Header>,
    pub peer_addr: PeerAddr,
    pub attempts: u8,
}

/// Whether an attempt started at `start` has expired at `now`.
pub open spec fn spec_expired(start: u64, now: u64) -> bool {
    spec_deadline(start, EXPIRY_TIMEOUT_MS) <= now
}

pub open spec fn is_accept_of(a: Action, h: Header) -> bool {
    a == Action::AcceptBlock(h, false)
}

/// Heights from `from` to `to`, both included, that a pool lacks.
pub open spec fn spec_missing(pool: Map<u64, Header>, from: int, to: int) -> Seq<u64>
    decreases to - from + 1,
{
    if to < from {
        Seq::empty()
    } else if pool_has(pool, to as u64) {
        spec_missing(pool, from, to - 1)
    } else {
        spec_missing(pool, from, to - 1).push(to as u64)
    }
}

/// What the out-of-sync state does on a heartbeat at `now`: the actions
/// `r0` and whether it goes back to the in-sync state, `r1`.
pub open spec fn out_of_sync_heartbeat_post(o: OutOfSyncImpl, now: u64, r0: Seq<Action>, r1: bool)
    -> bool {
    let missing = spec_missing(o.pool@, o.range.0 + 1, o.range.1 as int);
    if !spec_expired(o.start_time, now) {
        r0 == Seq::<Action>::empty() && !r1
    } else if o.attempts == 0 {
        r0 == seq![Action::RestartConsensus] && r1
    } else {
        &&& !r1
        &&& missing.len() == 0 ==> r0 == Seq::<Action>::empty()
        &&& missing.len() > 0 ==> r0.len() == 1 && match r0[0] {
            Action::FloodRequestBlocks { heights, hops } => heights@ == missing && hops
                == MISSING_BLOCKS_HOPS_LIMIT,
            _ => false,
        }
    }
}

impl OutOfSyncImpl {
    pub open spec fn wf(&self) -> bool {
        &&& pool_wf(self.pool@)
        &&& self.pool@.len() <= MAX_BLOCKS_TO_REQUEST
    }

    /// A fresh out-of-sync state whose first attempt starts at `now`.
    pub fn new(now: u64) -> (r: OutOfSyncImpl)
        ensures
            r.wf(),
            r.range == (0u64, 0u64),
            r.start_time == now,
            r.pool@ == Map::<u64, Header>::empty(),
            r.attempts == OUT_OF_SYNC_ATTEMPTS,
            r.peer_addr == (PeerAddr { ip: 0xffff7f000001, port: 8000 }),
    {
        OutOfSyncImpl {
            range: (0, 0),
            start_time: now,
            pool: HashMap::new(),
            peer_addr: PeerAddr { ip: 0xffff7f000001, port: 8000 },
            attempts: OUT_OF_SYNC_ATTEMPTS,
        }
    }

    /// Enters the state: syncs from `tip` towards `target` (at most
    /// `MAX_BLOCKS_TO_REQUEST` blocks), asks `peer` for the blocks after our
    /// tip, and keeps `target` in the pool.
    pub fn on_entering(&mut self, target: Header, peer: PeerAddr, tip: Header) -> (r: Vec<Action>)
        ensures
            final(self).wf(),
            final(self).range == (tip.height, if tip.height as int + MAX_BLOCKS_TO_REQUEST as int
                <= target.height as int {
                (tip.height + MAX_BLOCKS_TO_REQUEST) as u64
            } else {
                target.height
            }),
            final(self).pool@ == Map::<u64, Header>::empty().insert(target.height, target),
            final(self).peer_addr == peer,
            final(self).start_time == old(self).start_time,
            final(self).attempts == old(self).attempts,
            r@ == seq![Action::GetBlocks { locator: tip.hash, peer }],
    {
        let end = if tip.height <= u64::MAX - MAX_BLOCKS_TO_REQUEST && tip.height
            + MAX_BLOCKS_TO_REQUEST <= target.height {
            tip.height + MAX_BLOCKS_TO_REQUEST
        } else {
            target.height
        };
        self.range = (tip.height, end);
        let mut actions: Vec<Action> = Vec::new();
        actions.push(Action::GetBlocks { locator: tip.hash, peer });
        self.pool = HashMap::new();
        self.pool.insert(target.height, target);
        assert(self.pool@.dom() =~= set![target.height]);
        self.peer_addr = peer;
        actions
    }

    /// Leaves the state.
    pub fn on_exiting(&mut self)
        ensures
            final(self).wf(),
            final(self).pool@ == Map::<u64, Header>::empty(),
            final(self).range == old(self).range,
            final(self).peer_addr == old(self).peer_addr,
    {
        self.pool = HashMap::new();
    }

    /// Handles a block while syncing. Returns the actions to perform and
    /// whether to go back to the in-sync state.
    ///
    /// - An expired attempt restarts consensus and ends the sync-up.
    /// - A block at or below the tip is ignored.
    /// - The successor of the tip is accepted, followed by the consecutive
    ///   blocks of the pool up to the end of the range; reaching the end
    ///   restarts consensus and ends the sync-up.
    /// - Any other block is kept in the pool while it has room.
    pub fn on_block_event(
        &mut self,
        blk: Header,
        source: Option<PeerAddr>,
        tip_height: u64,
        now: u64,
    ) -> (r: (Vec<Action>, bool))
        requires
            old(self).wf(),
        ensures
            final(self).wf(),
            final(self).range == old(self).range,
            final(self).peer_addr == old(self).peer_addr,
            final(self).attempts == old(self).attempts,
            only_forward(tip_height, r.0@),
            (r.0@, r.1) == spec_out_of_sync_block(
                old(self).pool@,
                old(self).range.1,
                old(self).start_time,
                blk,
                tip_height,
                now,
            ),
            spec_expired(old(self).start_time, now) ==> r.0@ == seq![Action::RestartConsensus]
                && r.1 && final(self).pool@ == old(self).pool@,
            !spec_expired(old(self).start_time, now) && blk.height <= tip_height ==> r.0@
                == Seq::<Action>::empty() && !r.1 && final(self).pool@
                == old(self).pool@,
            !spec_expired(old(self).start_time, now) && is_next(blk.height, tip_height) ==> {
                let n = spec_run_len(old(self).pool@, blk.height, old(self).range.1);
                let last = blk.height + n;
                let done = last >= old(self).range.1;
                &&& r.1 == done
                &&& r.0@.len() == 1 + n + (if done {
                    1int
                } else {
                    0int
                })
                &&& is_accept_of(r.0@[0], blk)
                &&& forall|k: int|
                    1 <= k <= n ==> is_accept_of(
                        #[trigger] r.0@[k],
                        pool_get(old(self).pool@, (blk.height + k) as u64)->0,
                    )
                &&& done ==> r.0@[n + 1int] == Action::RestartConsensus
                &&& final(self).pool@ == old(self).pool@
                &&& final(self).start_time == (if same_peer(source, old(self).peer_addr) {
                    now
                } else {
                    old(self).start_time
                })
            },
            !spec_expired(old(self).start_time, now) && blk.height > tip_height + 1 ==> {
                &&& r.0@ == Seq::<Action>::empty()
                &&& !r.1
                &&& old(self).pool@.len() < MAX_BLOCKS_TO_REQUEST ==> final(self).pool@ == old(
                    self,
                ).pool@.insert(blk.height, blk)
                &&& old(self).pool@.len() >= MAX_BLOCKS_TO_REQUEST ==> final(self).pool@
                    == old(self).pool@
            },
            !spec_expired(old(self).start_time, now) && !is_next(blk.height, tip_height)
                ==> final(self).start_time == old(self).start_time,
    {
        let mut actions: Vec<Action> = Vec::new();
        if self.start_time.saturating_add(EXPIRY_TIMEOUT_MS) <= now {
            actions.push(Action::RestartConsensus);
            return (actions, true);
        }
        if blk.height <= tip_height {
            return (actions, false);
        }
        if blk.height - tip_height == 1 {
            actions.push(Action::AcceptBlock(blk, false));
            if let Some(src) = source {
                if src == self.peer_addr {
                    self.start_time = now;
                }
            }
            let end = self.range.1;
            let mut h: u64 = blk.height;
            let ghost n = spec_run_len(self.pool@, blk.height, end);
            while h < end
                invariant
                    pool_wf(self.pool@),
                    is_next(blk.height, tip_height),
                    only_forward(tip_height, actions@),
                    blk.height <= h,
                    h as int + spec_run_len(self.pool@, h, end) == blk.height + n,
                    actions@.len() == 1 + (h - blk.height),
                    is_accept_of(actions@[0], blk),
                    forall|k: int|
                        1 <= k <= h - blk.height ==> is_accept_of(
                            #[trigger] actions@[k],
                            pool_get(self.pool@, (blk.height + k) as u64)->0,
                        ),
                ensures
                    spec_run_len(self.pool@, h, end) == 0,
                    h as int + spec_run_len(self.pool@, h, end) == blk.height + n,
                    actions@.len() == 1 + (h - blk.height),
                    is_accept_of(actions@[0], blk),
                    forall|k: int|
                        1 <= k <= h - blk.height ==> is_accept_of(
                            #[trigger] actions@[k],
                            pool_get(self.pool@, (blk.height + k) as u64)->0,
                        ),
                    only_forward(tip_height, actions@),
                decreases end - h,
            {
                match self.pool.get(&(h + 1)) {
                    Some(b) => {
                        assert(spec_run_len(self.pool@, h, end) == 1 + spec_run_len(
                            self.pool@,
                            (h + 1) as u64,
                            end,
                        ));
                        let ghost before = actions@;
                        actions.push(Action::AcceptBlock(*b, false));
                        assert forall|k: int| 0 <= k < actions@.len() implies match #[trigger] actions@[k] {
                            Action::AcceptBlock(x, _) => x.height == tip_height + 1 + k,
                            Action::AcceptSuccessor(x) => x.height == tip_height + 1 + k,
                            Action::Fallback { .. } => false,
                            Action::RevertFork { .. } => false,
                            _ => true,
                        } by {
                            if k < before.len() {
                                assert(actions@[k] == before[k]);
                            }
                        }
                        h = h + 1;
                    },
                    None => {
                        assert(spec_run_len(self.pool@, h, end) == 0);
                        break;
                    },
                }
            }
            proof {
                let n = spec_run_len(self.pool@, blk.height, end);
                let pre = seq![Action::AcceptBlock(blk, false)] + Seq::new(
                    n,
                    |k: int| Action::AcceptBlock(pool_get(self.pool@, (blk.height + 1 + k) as u64)->0, false),
                );
                assert(actions@ =~= pre) by {
                    assert forall|k: int| 0 <= k < actions@.len() implies actions@[k] == pre[k] by {
                        if k >= 1 {
                            assert(is_accept_of(actions@[k], pool_get(self.pool@, (blk.height + k) as u64)->0));
                            assert(pre[k] == Action::AcceptBlock(pool_get(self.pool@, (blk.height + 1 + (k - 1)) as u64)->0, false));
                        }
                    }
                }
            }
            if h >= end {
                let ghost before = actions@;
                actions.push(Action::RestartConsensus);
                assert forall|k: int| 0 <= k < actions@.len() implies match #[trigger] actions@[k] {
                    Action::AcceptBlock(x, _) => x.height == tip_height + 1 + k,
                    Action::AcceptSuccessor(x) => x.height == tip_height + 1 + k,
                    Action::Fallback { .. } => false,
                    Action::RevertFork { .. } => false,
                    _ => true,
                } by {
                    if k < before.len() {
                        assert(actions@[k] == before[k]);
                    }
                }
                return (actions, true);
            }
            return (actions, false);
        }
        if self.pool.len() < MAX_BLOCKS_TO_REQUEST as usize {
            self.pool.insert(blk.height, blk);
            assert(self.pool@.dom() =~= old(self).pool@.dom().insert(blk.height));
        }
        (actions, false)
    }

    /// Handles a heartbeat while syncing. Returns the actions to perform and
    /// whether to go back to the in-sync state.
    ///
    /// When the attempt has expired: with no attempt left, consensus restarts
    /// and the sync-up ends; otherwise the heights of the range that the pool
    /// lacks are flood-requested and a new attempt starts at `now`.
    pub fn on_heartbeat(&mut self, now: u64) -> (r: (Vec<Action>, bool))
        requires
            old(self).wf(),
        ensures
            final(self).wf(),
            final(self).pool@ == old(self).pool@,
            final(self).range == old(self).range,
            final(self).peer_addr == old(self).peer_addr,
            out_of_sync_heartbeat_post(*old(self), now, r.0@, r.1),
            !spec_expired(old(self).start_time, now) ==> final(self).start_time
                == old(self).start_time && final(self).attempts == old(self).attempts,
            spec_expired(old(self).start_time, now) && old(self).attempts > 0
                ==> final(self).start_time == now && final(self).attempts == old(self).attempts - 1,
    {
        let mut actions: Vec<Action> = Vec::new();
        if self.start_time.saturating_add(EXPIRY_TIMEOUT_MS) > now {
            return (actions, false);
        }
        if self.attempts == 0 {
            actions.push(Action::RestartConsensus);
            return (actions, true);
        }
        let from: u128 = self.range.0 as u128 + 1;
        let to: u128 = self.range.1 as u128;
        let mut heights: Vec<u64> = Vec::new();
        let mut h: u128 = from;
        while h <= to
            invariant
                pool_wf(self.pool@),
                from <= h,
                h <= to + 1 || h == from,
                to <= u64::MAX,
                heights@ == spec_missing(self.pool@, from as int, h - 1),
            decreases to + 1 - h,
        {
            if !self.pool.contains_key(&(h as u64)) {
                heights.push(h as u64);
            }
            h = h + 1;
        }
        assert(heights@ == spec_missing(self.pool@, from as int, to as int));
        if heights.len() > 0 {
            actions.push(Action::FloodRequestBlocks { heights, hops: MISSING_BLOCKS_HOPS_LIMIT });
        }
        self.start_time = now;
        self.attempts = self.attempts - 1;
        (actions, false)
    }
}

/// The two states of the chain state machine.
pub enum State {
    InSync(InSyncImpl),
    OutOfSync(OutOfSyncImpl),
}

/// What the stalled-chain detector reports after a block was received.
#[derive(Clone, Copy, Debug, PartialEq, Eq)]
pub enum StallState {
    Running,
    /// No block accepted for too long at this height.
    Stalled(u64),
    /// Stalled on a branch: our block with this hash lost to the remote one.
    StalledOnFork(BlockHash, Header),
}

/// What to do with a quorum message.
#[derive(Debug, PartialEq, Eq)]
pub enum QuorumOutcome {
    /// Nothing to do.
    Ignore,
    /// Perform these actions (the candidate is requested from the network).
    Request(Vec<Action>),
    /// Look the candidate with this hash up locally, then hand it to
    /// `SimpleFSM::on_quorum_candidate`, or to
    /// `SimpleFSM::flood_request_block` when it is missing.
    FetchCandidate(BlockHash),
}

/// The block with `att` attached when it has none, from the cache.
pub open spec fn spec_attach(blk: Header, cache: Map<BlockHash, (Attestation, u64)>) -> Option<
    Header,
> {
    if blk.att.spec_is_missing() {
        if cache.contains_key(blk.hash) {
            Some(Header { att: cache[blk.hash].0, ..blk })
        } else {
            None
        }
    } else {
        Some(blk)
    }
}

/// The cache with the entries expired at `now` dropped.
pub open spec fn spec_pruned(cache: Map<BlockHash, (Attestation, u64)>, now: u64) -> Map<
    BlockHash,
    (Attestation, u64),
> {
    cache.restrict(cache.dom().filter(|k: BlockHash| cache[k].1 > now))
}

/// The actions that complete a fallback, by whether the revert succeeded.
pub open spec fn spec_fallback_done(remote: Header, reverted: bool) -> Seq<Action> {
    if reverted {
        seq![Action::AcceptBlock(remote, true)]
    } else {
        Seq::empty()
    }
}

/// The blacklist after a fallback from `local`, by whether the revert
/// succeeded.
pub open spec fn spec_blacklist_after_fallback(
    blacklist: Set<BlockHash>,
    local: Header,
    reverted: bool,
) -> Set<BlockHash> {
    if reverted {
        blacklist.insert(local.hash)
    } else {
        blacklist
    }
}

/// The quorum message's winner, when the node has to act on it: a block
/// further ahead than the successor of the tip is requested; the successor,
/// or a rival of the tip, is looked up locally.
pub open spec fn spec_quorum_route(winner: Option<BlockHash>, round: u64, tip: Header) -> int {
    match winner {
        None => 0,
        Some(h) => if round > tip.height + 1 {
            1
        } else if round == tip.height + 1 || (round == tip.height && h != tip.hash) {
            2
        } else {
            0
        },
    }
}

/// What `SimpleFSM::on_block_event` does: `o` and `f` are the machine
/// before and after, `r0` and `r1` the block and actions it returns.
pub open spec fn block_event_post(
    o: SimpleFSM,
    f: SimpleFSM,
    blk: Header,
    source: Option<PeerAddr>,
    tip: Header,
    facts: LedgerFacts,
    now: u64,
    r0: Option<Header>,
    r1: Seq<Action>,
) -> bool {
    &&& f.wf()
    &&& f.blacklisted_blocks@ == o.blacklisted_blocks@
    &&& f.fallback_count == o.fallback_count
    &&& f.revert_count == o.revert_count
    &&& o.blacklisted_blocks@.contains(blk.hash) ==> {
        &&& r0 is None
        &&& r1 == Seq::<Action>::empty()
        &&& f.curr == o.curr
        &&& f.attestations_cache@ == o.attestations_cache@
    }
    &&& !o.blacklisted_blocks@.contains(blk.hash) ==> {
        &&& r0 == spec_attach(blk, o.attestations_cache@)
        &&& f.attestations_cache@ == spec_pruned(
            o.attestations_cache@,
            now,
        ).remove(blk.hash)
        &&& r0 is None ==> r1 == Seq::<Action>::empty() && f.curr == o.curr
    }
    &&& !o.blacklisted_blocks@.contains(blk.hash) && r0 is Some ==> {
        let b = r0->0;
        match o.curr {
            State::InSync(i) => {
                let (acts, switch, pre) = spec_in_sync_block(
                    i.presync,
                    b,
                    source,
                    tip,
                    facts,
                    now,
                );
                match switch {
                    None => r1 == acts && f.curr == State::InSync(
                        InSyncImpl { presync: pre },
                    ),
                    Some((target, peer)) => {
                        &&& r1 == acts + seq![Action::GetBlocks { locator: tip.hash, peer }]
                        &&& (f.curr matches State::OutOfSync(n) && n.range == (
                            tip.height,
                            if tip.height as int + MAX_BLOCKS_TO_REQUEST as int
                                <= target.height as int {
                                (tip.height + MAX_BLOCKS_TO_REQUEST) as u64
                            } else {
                                target.height
                            },
                        ) && n.pool@ == Map::<u64, Header>::empty().insert(
                            target.height,
                            target,
                        ) && n.peer_addr == peer && n.start_time
                            == now && n.attempts == OUT_OF_SYNC_ATTEMPTS)
                    },
                }
            },
            State::OutOfSync(s) => {
                let (acts, back) = spec_out_of_sync_block(
                    s.pool@,
                    s.range.1,
                    s.start_time,
                    b,
                    tip.height,
                    now,
                );
                let entry_tip = spec_height_after(tip.height as int, acts);
                &&& back ==> f.curr == State::InSync(InSyncImpl { presync: None })
                &&& back ==> r1 == acts + (if b.height as int == entry_tip + 1 {
                    seq![Action::AcceptBlock(b, true)]
                } else {
                    Seq::empty()
                })
                &&& !back ==> r1 == acts
                &&& !back ==> (f.curr matches State::OutOfSync(n) && n.range == s.range
                    && n.peer_addr == s.peer_addr && n.attempts == s.attempts)
            },
        }
    }
}

/// What is needed to check a quorum's attestation: the committees of its
/// validation and ratification steps, and whether their aggregated
/// signatures are valid (checked by the caller).
pub struct QuorumEvidence {
    pub validation_committee: Vec<PublicKeyBytes>,
    pub ratification_committee: Vec<PublicKeyBytes>,
    pub validation_signature_valid: bool,
    pub ratification_signature_valid: bool,
}

impl QuorumEvidence {
    /// Committees small enough for their quorum threshold to be computed.
    pub open spec fn wf(&self) -> bool {
        &&& self.validation_committee@.len() <= usize::MAX / 100
        &&& self.ratification_committee@.len() <= usize::MAX / 100
    }
}

/// Whether an attestation verifies: both its steps carry a quorum of their
/// committees with valid aggregated signatures.
pub open spec fn spec_att_verifies(att: Attestation, ev: QuorumEvidence) -> bool {
    &&& spec_step_votes_verify(
        att.validation,
        ev.validation_committee@,
        ev.validation_signature_valid,
    )
    &&& spec_step_votes_verify(
        att.ratification,
        ev.ratification_committee@,
        ev.ratification_signature_valid,
    )
}

/// How a quorum message is handled: 0 ignored, 1 its candidate requested
/// from the network, 2 its candidate looked up locally. A quorum whose
/// attestation does not verify is ignored.
pub open spec fn spec_checked_route(att: Attestation, ev: QuorumEvidence, round: u64, tip: Header)
    -> int {
    if spec_att_verifies(att, ev) {
        spec_quorum_route(att.spec_winner(), round, tip)
    } else {
        0
    }
}

/// The chain state machine: follows the network tip, syncs up when behind,
/// and falls back to a better block at the tip's height.
pub struct SimpleFSM {
    pub curr: State,
    /// Blocks that must not be accepted again, after a fallback or a fork
    /// recovery replaced them.
    pub blacklisted_blocks: HashSet32,
    /// Attestations of quorums whose candidate block is awaited.
    pub attestations_cache: AttestationCache,
    /// Number of successful fallbacks.
    pub fallback_count: u64,
    /// Number of successful fork recoveries.
    pub revert_count: u64,
}

impl SimpleFSM {
    pub open spec fn wf(&self) -> bool {
        &&& self.attestations_cache.wf()
        &&& match self.curr {
            State::OutOfSync(o) => o.wf(),
            State::InSync(_) => true,
        }
    }

    /// A state machine in the in-sync state, with nothing blacklisted or
    /// cached.
    pub fn new() -> (r: SimpleFSM)
        ensures
            r.wf(),
            r.curr matches State::InSync(i) && i.presync is None,
            r.blacklisted_blocks@ == Set::<BlockHash>::empty(),
            r.attestations_cache@ == Map::<BlockHash, (Attestation, u64)>::empty(),
            r.fallback_count == 0,
            r.revert_count == 0,
    {
        SimpleFSM {
            curr: State::InSync(InSyncImpl::new()),
            blacklisted_blocks: HashSet32::new(),
            attestations_cache: AttestationCache::new(),
            fallback_count: 0,
            revert_count: 0,
        }
    }

    /// After a failed consensus run the consensus task is restarted.
    pub fn on_failed_consensus(&self) -> (r: Vec<Action>)
        ensures
            r@ == seq![Action::RestartConsensus],
    {
        let mut actions: Vec<Action> = Vec::new();
        actions.push(Action::RestartConsensus);
        actions
    }

    /// Gives a block that has no attestation the one cached for it; returns
    /// `None` when none is cached. Drops the expired entries and the entry
    /// of the block.
    pub fn attach_att_if_needed(&mut self, blk: Header, now: u64) -> (r: Option<Header>)
        requires
            old(self).wf(),
        ensures
            final(self).wf(),
            r == spec_attach(blk, old(self).attestations_cache@),
            final(self).attestations_cache@ == spec_pruned(old(self).attestations_cache@, now).remove(
                blk.hash,
            ),
            final(self).curr == old(self).curr,
            final(self).blacklisted_blocks@ == old(self).blacklisted_blocks@,
            final(self).fallback_count == old(self).fallback_count,
            final(self).revert_count == old(self).revert_count,
    {
        let r = if blk.att.is_missing() {
            match self.attestations_cache.get(&blk.hash) {
                Some(att) => Some(Header { att, ..blk }),
                None => None,
            }
        } else {
            Some(blk)
        };
        self.attestations_cache.prune(now);
        self.attestations_cache.remove(&blk.hash);
        r
    }

    /// Caches the attestation of a quorum whose candidate is missing, with
    /// a fresh expiry, and flood-requests the candidate.
    pub fn flood_request_block(&mut self, hash: BlockHash, att: Attestation, now: u64) -> (r: Vec<
        Action,
    >)
        requires
            old(self).wf(),
        ensures
            final(self).wf(),
            final(self).curr == old(self).curr,
            final(self).blacklisted_blocks@ == old(self).blacklisted_blocks@,
            final(self).fallback_count == old(self).fallback_count,
            final(self).revert_count == old(self).revert_count,
            r@ == seq![Action::FloodRequestCandidate { hash, hops: DEFAULT_HOPS_LIMIT }],
            final(self).attestations_cache@ == old(self).attestations_cache@.insert(
                hash,
                (att, spec_expiry_from(now)),
            ),
    {
        let mut actions: Vec<Action> = Vec::new();
        self.attestations_cache.insert(hash, att, now);
        actions.push(Action::FloodRequestCandidate { hash, hops: DEFAULT_HOPS_LIMIT });
        actions
    }

    /// Handles a quorum message of round `round` carrying `att`. Only a
    /// successful quorum over a valid block, whose attestation verifies
    /// against `evidence`, counts: a block further ahead
    /// than the successor of the tip is requested from the network; the
    /// successor of the tip, or a rival of the tip at its height, is to be
    /// looked up locally. Expired cache entries are dropped first.
    pub fn on_quorum_msg(
        &mut self,
        att: Attestation,
        evidence: &QuorumEvidence,
        round: u64,
        tip: Header,
        now: u64,
    ) -> (r: QuorumOutcome)
        requires
            old(self).wf(),
            evidence.wf(),
        ensures
            final(self).wf(),
            final(self).curr == old(self).curr,
            final(self).blacklisted_blocks@ == old(self).blacklisted_blocks@,
            final(self).fallback_count == old(self).fallback_count,
            final(self).revert_count == old(self).revert_count,
            spec_checked_route(att, *evidence, round, tip) == 0 ==> r is Ignore
                && final(self).attestations_cache@ == spec_pruned(old(self).attestations_cache@, now),
            spec_checked_route(att, *evidence, round, tip) == 2 ==> r == QuorumOutcome::FetchCandidate(
                att.spec_winner()->0,
            ) && final(self).attestations_cache@ == spec_pruned(old(self).attestations_cache@, now),
            spec_checked_route(att, *evidence, round, tip) == 1 ==> {
                let pruned = spec_pruned(old(self).attestations_cache@, now);
                let h = att.spec_winner()->0;
                &&& r is Request
                &&& r->Request_0@ == seq![
                    Action::FloodRequestCandidate { hash: h, hops: DEFAULT_HOPS_LIMIT },
                ]
                &&& final(self).attestations_cache@ == pruned.insert(
                    h,
                    (att, spec_expiry_from(now)),
                )
            },
    {
        self.attestations_cache.prune(now);
        if !verify_attestation(
            &att,
            &evidence.validation_committee,
            &evidence.ratification_committee,
            evidence.validation_signature_valid,
            evidence.ratification_signature_valid,
        ) {
            return QuorumOutcome::Ignore;
        }
        match att.winner() {
            Some(hash) => {
                if round > tip.height && round - tip.height > 1 {
                    let actions = self.flood_request_block(hash, att, now);
                    QuorumOutcome::Request(actions)
                } else if (round > tip.height && round - tip.height == 1) || (round == tip.height
                    && !bytes_eq(&hash, &tip.hash)) {
                    QuorumOutcome::FetchCandidate(hash)
                } else {
                    QuorumOutcome::Ignore
                }
            },
            None => QuorumOutcome::Ignore,
        }
    }

    /// Handles a block received from the network, from a quorum, or from
    /// the local consensus. Returns the block with its attestation, unless
    /// it is blacklisted or lacks an attestation that the cache cannot
    /// supply, and the actions to perform.
    ///
    /// The current state decides what to do with the block; the in-sync
    /// state hands over to the out-of-sync state when a presync completes,
    /// syncing from `tip`, and the out-of-sync state hands back when the
    /// sync-up ends.
    pub fn on_block_event(
        &mut self,
        blk: Header,
        source: Option<PeerAddr>,
        tip: Header,
        facts: LedgerFacts,
        now: u64,
    ) -> (r: (Option<Header>, Vec<Action>))
        requires
            old(self).wf(),
        ensures
            block_event_post(*old(self), *final(self), blk, source, tip, facts, now, r.0, r.1@),
    {
        if self.blacklisted_blocks.contains(&blk.hash) {
            return (None, Vec::new());
        }
        let attached = self.attach_att_if_needed(blk, now);
        let b = match attached {
            Some(b) => b,
            None => {
                return (None, Vec::new());
            },
        };
        let mut curr = State::InSync(InSyncImpl::new());
        std::mem::swap(&mut self.curr, &mut curr);
        match curr {
            State::InSync(mut i) => {
                let (mut acts, switch) = i.on_block_event(b, source, tip, facts, now);
                match switch {
                    Some((target, peer)) => {
                        let mut next = OutOfSyncImpl::new(now);
                        let mut entering = next.on_entering(target, peer, tip);
                        acts.append(&mut entering);
                        self.curr = State::OutOfSync(next);
                    },
                    None => {
                        self.curr = State::InSync(i);
                    },
                }
                (Some(b), acts)
            },
            State::OutOfSync(mut o) => {
                let (mut acts, back) = o.on_block_event(b, source, tip.height, now);
                if back {
                    o.on_exiting();
                    let mut next = InSyncImpl::new();
                    let entry_tip = height_after(tip.height, &acts);
                    let mut entering = next.on_entering(b, entry_tip);
                    acts.append(&mut entering);
                    self.curr = State::InSync(next);
                } else {
                    self.curr = State::OutOfSync(o);
                }
                (Some(b), acts)
            },
        }
    }

    /// Completes a fallback from our block `local` to `remote`: when the
    /// revert succeeded, `local` is blacklisted, the fallback counted, and
    /// `remote` accepted; otherwise nothing changes.
    pub fn on_fallback_done(&mut self, local: Header, remote: Header, reverted: bool) -> (r: Vec<
        Action,
    >)
        requires
            old(self).wf(),
        ensures
            final(self).wf(),
            r@ == spec_fallback_done(remote, reverted),
            final(self).curr == old(self).curr,
            final(self).attestations_cache@ == old(self).attestations_cache@,
            final(self).revert_count == old(self).revert_count,
            final(self).blacklisted_blocks@ == spec_blacklist_after_fallback(
                old(self).blacklisted_blocks@,
                local,
                reverted,
            ),
            reverted ==> final(self).fallback_count as int == if old(self).fallback_count
                < u64::MAX {
                old(self).fallback_count + 1
            } else {
                u64::MAX as int
            },
            !reverted ==> final(self).fallback_count == old(self).fallback_count,
    {
        let mut actions: Vec<Action> = Vec::new();
        if reverted {
            self.fallback_count = self.fallback_count.saturating_add(1);
            self.blacklisted_blocks.insert(local.hash);
            actions.push(Action::AcceptBlock(remote, true));
        }
        actions
    }

    /// Reports the outcome of accepting the successor of the tip in the
    /// in-sync state: once finalization advanced, the blacklist is cleared.
    pub fn on_successor_accepted(&mut self, finalized: bool)
        requires
            old(self).wf(),
        ensures
            final(self).wf(),
            final(self).curr == old(self).curr,
            final(self).attestations_cache@ == old(self).attestations_cache@,
            final(self).fallback_count == old(self).fallback_count,
            final(self).revert_count == old(self).revert_count,
            finalized ==> final(self).blacklisted_blocks@ == Set::<BlockHash>::empty(),
            !finalized ==> final(self).blacklisted_blocks@ == old(self).blacklisted_blocks@,
    {
        if finalized {
            self.blacklisted_blocks.clear();
        }
    }

    /// Handles the candidate block that a quorum message pointed at, once
    /// looked up locally: if the quorum's attestation verifies against
    /// `evidence`, the candidate gets it and goes through `on_block_event`;
    /// otherwise it is ignored.
    pub fn on_quorum_candidate(
        &mut self,
        candidate: Header,
        att: Attestation,
        evidence: &QuorumEvidence,
        source: Option<PeerAddr>,
        tip: Header,
        facts: LedgerFacts,
        now: u64,
    ) -> (r: (Option<Header>, Vec<Action>))
        requires
            old(self).wf(),
            evidence.wf(),
        ensures
            !spec_att_verifies(att, *evidence) ==> r.0 is None && r.1@ == Seq::<Action>::empty()
                && *final(self) == *old(self),
            spec_att_verifies(att, *evidence) ==> block_event_post(
                *old(self),
                *final(self),
                Header { att, ..candidate },
                source,
                tip,
                facts,
                now,
                r.0,
                r.1@,
            ),
    {
        if !verify_attestation(
            &att,
            &evidence.validation_committee,
            &evidence.ratification_committee,
            evidence.validation_signature_valid,
            evidence.ratification_signature_valid,
        ) {
            return (None, Vec::new());
        }
        let blk = Header { att, ..candidate };
        self.on_block_event(blk, source, tip, facts, now)
    }

    /// Handles a heartbeat: an expired presync is dropped; an expired
    /// sync-up attempt is retried, or ends the sync-up once no attempt is
    /// left.
    pub fn on_heartbeat_event(&mut self, now: u64) -> (r: Vec<Action>)
        requires
            old(self).wf(),
        ensures
            final(self).wf(),
            final(self).attestations_cache@ == old(self).attestations_cache@,
            final(self).blacklisted_blocks@ == old(self).blacklisted_blocks@,
            final(self).fallback_count == old(self).fallback_count,
            final(self).revert_count == old(self).revert_count,
            match old(self).curr {
                State::InSync(i) => {
                    &&& r@ == Seq::<Action>::empty()
                    &&& (final(self).curr matches State::InSync(n) && match i.presync {
                        Some(p) => if p.expiry <= now {
                            n.presync is None
                        } else {
                            n.presync == i.presync
                        },
                        None => n.presync is None,
                    })
                },
                State::OutOfSync(o) => exists|back: bool|
                    {
                        &&& out_of_sync_heartbeat_post(o, now, r@, back)
                        &&& back ==> final(self).curr == State::InSync(InSyncImpl { presync: None })
                        &&& !back ==> (final(self).curr matches State::OutOfSync(n) && n.range
                            == o.range && n.peer_addr == o.peer_addr && n.pool@ == o.pool@)
                    },
            },
    {
        let mut curr = State::InSync(InSyncImpl::new());
        std::mem::swap(&mut self.curr, &mut curr);
        match curr {
            State::InSync(mut i) => {
                i.on_heartbeat(now);
                self.curr = State::InSync(i);
                Vec::new()
            },
            State::OutOfSync(mut o) => {
                let (acts, back) = o.on_heartbeat(now);
                if back {
                    o.on_exiting();
                    self.curr = State::InSync(InSyncImpl::new());
                } else {
                    self.curr = State::OutOfSync(o);
                }
                acts
            },
        }
    }

    /// Acts on what the stalled-chain detector reports: a stall on a fork
    /// reverts our diverged block; a plain stall clears the blacklist so
    /// that rejected blocks can be considered again.
    pub fn on_stall_state(&mut self, stall: StallState) -> (r: Vec<Action>)
        requires
            old(self).wf(),
        ensures
            final(self).wf(),
            final(self).curr == old(self).curr,
            final(self).attestations_cache@ == old(self).attestations_cache@,
            final(self).fallback_count == old(self).fallback_count,
            final(self).revert_count == old(self).revert_count,
            match stall {
                StallState::Running => r@ == Seq::<Action>::empty()
                    && final(self).blacklisted_blocks@ == old(self).blacklisted_blocks@,
                StallState::Stalled(_) => r@ == Seq::<Action>::empty()
                    && final(self).blacklisted_blocks@ == Set::<BlockHash>::empty(),
                StallState::StalledOnFork(local_hash, remote) => r@ == seq![
                    Action::RevertFork { local_hash, remote },
                ] && final(self).blacklisted_blocks@ == old(self).blacklisted_blocks@,
            },
    {
        let mut actions: Vec<Action> = Vec::new();
        match stall {
            StallState::Running => {},
            StallState::Stalled(_) => {
                self.blacklisted_blocks.clear();
            },
            StallState::StalledOnFork(local_hash, remote) => {
                actions.push(Action::RevertFork { local_hash, remote });
            },
        }
        actions
    }

    /// Completes the recovery from a fork: when the revert succeeded, the
    /// revert is counted, `remote` accepted, our diverged block blacklisted,
    /// and the stalled-chain detector reset; otherwise nothing changes.
    pub fn on_fork_recovery_done(
        &mut self,
        local_hash: BlockHash,
        remote: Header,
        reverted: bool,
    ) -> (r: Vec<Action>)
        requires
            old(self).wf(),
        ensures
            final(self).wf(),
            final(self).curr == old(self).curr,
            final(self).attestations_cache@ == old(self).attestations_cache@,
            final(self).fallback_count == old(self).fallback_count,
            reverted ==> r@ == seq![
                Action::AcceptBlock(remote, true),
                Action::ResetStallDetector(remote),
            ],
            reverted ==> final(self).blacklisted_blocks@ == old(self).blacklisted_blocks@.insert(
                local_hash,
            ),
            reverted ==> final(self).revert_count as int == if old(self).revert_count < u64::MAX {
                old(self).revert_count + 1
            } else {
                u64::MAX as int
            },
            !reverted ==> r@ == Seq::<Action>::empty() && final(self).blacklisted_blocks@ == old(
                self,
            ).blacklisted_blocks@ && final(self).revert_count == old(self).revert_count,
    {
        let mut actions: Vec<Action> = Vec::new();
        if reverted {
            self.revert_count = self.revert_count.saturating_add(1);
            actions.push(Action::AcceptBlock(remote, true));
            self.blacklisted_blocks.insert(local_hash);
            actions.push(Action::ResetStallDetector(remote));
        }
        actions
    }
}

/// The height of the tip after the actions, starting from `tip_height`.
pub fn height_after(tip_height: u64, actions: &Vec<Action>) -> (r: u64)
    ensures
        r as int == spec_height_after(tip_height as int, actions@),
{
    let mut cur: u64 = tip_height;
    let mut i: usize = 0;
    while i < actions.len()
        invariant
            0 <= i <= actions@.len(),
            cur as int == spec_height_after(tip_height as int, actions@.subrange(0, i as int)),
        decreases actions@.len() - i,
    {
        assert(actions@.subrange(0, i + 1).drop_last() =~= actions@.subrange(0, i as int));
        match &actions[i] {
            Action::AcceptBlock(h, _) => {
                cur = h.height;
            },
            Action::AcceptSuccessor(h) => {
                cur = h.height;
            },
            Action::Fallback { remote, .. } => {
                cur = remote.height;
            },
            Action::RevertFork { remote, .. } => {
                cur = remote.height;
            },
            _ => {},
        }
        i = i + 1;
    }
    assert(actions@.subrange(0, actions@.len() as int) =~= actions@);
    cur
}

/// Fallback: in the in-sync state, a remote block at the tip's height with
/// a lower iteration and the same parent, above the finalized block, makes
/// the tip fall back to it. Once the revert succeeds the tip is the remote
/// block, and the blacklist is the former one with the former tip's hash
/// added.
pub proof fn lemma_fallback_correctness(
    presync: Option<PresyncInfo>,
    remote: Header,
    source: Option<PeerAddr>,
    tip: Header,
    facts: LedgerFacts,
    now: u64,
    blacklist: Set<BlockHash>,
)
    requires
        remote.height == tip.height,
        remote.iteration < tip.iteration,
        remote.hash != tip.hash,
        remote.prev_block_hash == tip.prev_block_hash,
        facts.prev_known,
        facts.finalized_height < tip.height,
    ensures
        spec_in_sync_block(presync, remote, source, tip, facts, now).0 == seq![
            Action::Fallback { local: tip, remote },
        ],
        spec_in_sync_block(presync, remote, source, tip, facts, now).1 is None,
        spec_tip_after(tip, spec_fallback_done(remote, true)).hash == remote.hash,
        spec_blacklist_after_fallback(blacklist, tip, true).contains(tip.hash),
        spec_blacklist_after_fallback(blacklist, tip, true).remove(tip.hash) == blacklist.remove(
            tip.hash,
        ),
{
    let acts = spec_fallback_done(remote, true);
    assert(acts.drop_last() =~= Seq::<Action>::empty());
    assert(blacklist.insert(tip.hash).remove(tip.hash) =~= blacklist.remove(tip.hash));
    assert(spec_tip_after(tip, acts) == remote);
}

} // verus!
