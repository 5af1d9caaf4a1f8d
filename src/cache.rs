use vstd::prelude::*;
use crate::types::{Attestation, BlockHash, bytes_eq};

verus! {

/// How long a cached attestation stays, in milliseconds.
pub const ATT_CACHE_EXPIRY_MS: u64 = 60000;

/// A cached attestation and the time (in milliseconds of the caller's
/// monotonic clock) at which it expires.
#[derive(Clone, Copy, Debug)]
pub struct CacheEntry {
    pub hash: BlockHash,
    pub att: Attestation,
    pub expiry: u64,
}

/// Attestations received in quorum messages whose candidate block is not yet
/// known, keyed by block hash.
pub struct AttestationCache {
    entries: Vec<CacheEntry>,
    contents: Ghost<Map<BlockHash, (Attestation, u64)>>,
}

/// The expiry of an attestation cached at `now`.
pub open spec fn spec_expiry_from(now: u64) -> u64 {
    if now as int + ATT_CACHE_EXPIRY_MS as int <= u64::MAX as int {
        (now + ATT_CACHE_EXPIRY_MS) as u64
    } else {
        u64::MAX
    }
}

impl View for AttestationCache {
    type V = Map<BlockHash, (Attestation, u64)>;

    closed spec fn view(&self) -> Map<BlockHash, (Attestation, u64)> {
        self.contents@
    }
}

impl AttestationCache {
    pub closed spec fn wf(&self) -> bool {
        &&& forall|i: int, j: int|
            0 <= i < j < self.entries@.len() ==> self.entries@[i].hash != self.entries@[j].hash
        &&& forall|i: int|
            0 <= i < self.entries@.len() ==> #[trigger] self.contents@.contains_key(
                self.entries@[i].hash,
            ) && self.contents@[self.entries@[i].hash] == (
                self.entries@[i].att,
                self.entries@[i].expiry,
            )
        &&& forall|h: BlockHash|
            #[trigger] self.contents@.contains_key(h) ==> exists|i: int|
                0 <= i < self.entries@.len() && self.entries@[i].hash == h
    }

    /// An empty cache.
    pub fn new() -> (r: AttestationCache)
        ensures
            r.wf(),
            r@ == Map::<BlockHash, (Attestation, u64)>::empty(),
    {
        AttestationCache { entries: Vec::new(), contents: Ghost(Map::empty()) }
    }

    /// Number of cached attestations.
    pub fn len(&self) -> (r: usize)
        requires
            self.wf(),
        ensures
            r == self@.len(),
    {
        proof {
            self.lemma_len();
        }
        self.entries.len()
    }

    proof fn lemma_len(&self)
        requires
            self.wf(),
        ensures
            self@.len() == self.entries@.len(),
            self@.dom().finite(),
    {
        let keys = self.entries@.map_values(|e: CacheEntry| e.hash);
        assert(keys.no_duplicates()) by {
            assert forall|i: int, j: int|
                0 <= i < keys.len() && 0 <= j < keys.len() && i != j implies keys[i]
                != keys[j] by {
                if i < j {
                } else {
                }
            }
        }
        assert(self@.dom() =~= keys.to_set()) by {
            assert forall|h: BlockHash| self@.dom().contains(h) implies keys.to_set().contains(
                h,
            ) by {
                let i = choose|i: int| 0 <= i < self.entries@.len() && self.entries@[i].hash == h;
                assert(keys[i] == h);
            }
            assert forall|h: BlockHash| keys.to_set().contains(h) implies self@.dom().contains(
                h,
            ) by {
                let i = choose|i: int| 0 <= i < keys.len() && keys[i] == h;
                assert(self.contents@.contains_key(self.entries@[i].hash));
            }
        }
        keys.unique_seq_to_set();
    }

    /// Position of the entry for `h`, if any.
    fn find(&self, h: &BlockHash) -> (r: Option<usize>)
        requires
            self.wf(),
        ensures
            match r {
                Some(i) => i < self.entries@.len() && self.entries@[i as int].hash == *h,
                None => !self@.contains_key(*h),
            },
    {
        let mut i: usize = 0;
        while i < self.entries.len()
            invariant
                self.wf(),
                0 <= i <= self.entries@.len(),
                forall|j: int| 0 <= j < i ==> self.entries@[j].hash != *h,
            decreases self.entries@.len() - i,
        {
            if bytes_eq(&self.entries[i].hash, h) {
                return Some(i);
            }
            i = i + 1;
        }
        None
    }

    /// Tells whether an attestation is cached for `h`.
    pub fn contains(&self, h: &BlockHash) -> (r: bool)
        requires
            self.wf(),
        ensures
            r == self@.contains_key(*h),
    {
        match self.find(h) {
            Some(i) => {
                assert(self.contents@.contains_key(self.entries@[i as int].hash));
                true
            },
            None => false,
        }
    }

    /// The attestation cached for `h`, if any.
    pub fn get(&self, h: &BlockHash) -> (r: Option<Attestation>)
        requires
            self.wf(),
        ensures
            r == (if self@.contains_key(*h) {
                Some(self@[*h].0)
            } else {
                None
            }),
    {
        match self.find(h) {
            Some(i) => {
                assert(self.contents@.contains_key(self.entries@[i as int].hash));
                Some(self.entries[i].att)
            },
            None => None,
        }
    }

    /// Caches `att` for `h`, replacing any earlier entry for `h`; the entry
    /// expires `ATT_CACHE_EXPIRY_MS` after `now`.
    pub fn insert(&mut self, h: BlockHash, att: Attestation, now: u64)
        requires
            old(self).wf(),
        ensures
            final(self).wf(),
            final(self)@ == old(self)@.insert(h, (att, spec_expiry_from(now))),
    {
        let expiry = now.saturating_add(ATT_CACHE_EXPIRY_MS);
        let entry = CacheEntry { hash: h, att, expiry };
        let ghost m = self.contents@.insert(h, (att, expiry));
        let ghost old_entries = self.entries@;
        let ghost pos: int;
        match self.find(&h) {
            Some(i) => {
                self.entries.set(i, entry);
                proof {
                    pos = i as int;
                }
            },
            None => {
                self.entries.push(entry);
                proof {
                    pos = old_entries.len() as int;
                }
            },
        }
        self.contents = Ghost(m);
        assert(self.entries@[pos].hash == h);
        assert forall|k: BlockHash| #[trigger] self.contents@.contains_key(k) implies exists|
            i: int,
        | 0 <= i < self.entries@.len() && self.entries@[i].hash == k by {
            if k == h {
                assert(self.entries@[pos].hash == h);
            } else {
                assert(old(self).contents@.contains_key(k));
                let i = choose|i: int| 0 <= i < old_entries.len() && old_entries[i].hash == k;
                assert(i != pos);
                assert(self.entries@[i] == old_entries[i]);
            }
        }
        assert forall|a: int|
            0 <= a < self.entries@.len() implies #[trigger] self.contents@.contains_key(
            self.entries@[a].hash,
        ) && self.contents@[self.entries@[a].hash] == (
            self.entries@[a].att,
            self.entries@[a].expiry,
        ) by {
            if a != pos {
                assert(self.entries@[a] == old_entries[a]);
                assert(old(self).contents@.contains_key(old_entries[a].hash));
            }
        }
        assert forall|a: int, b: int|
            0 <= a < b < self.entries@.len() implies self.entries@[a].hash
            != self.entries@[b].hash by {
            if a != pos && b != pos {
                assert(self.entries@[a] == old_entries[a]);
                assert(self.entries@[b] == old_entries[b]);
            } else if a == pos {
                assert(self.entries@[b] == old_entries[b]);
                if pos < old_entries.len() {
                    assert(old_entries[pos].hash == h);
                } else {
                    assert(old(self).contents@.contains_key(old_entries[b].hash));
                }
            } else {
                assert(self.entries@[a] == old_entries[a]);
                if pos < old_entries.len() {
                    assert(old_entries[pos].hash == h);
                } else {
                    assert(old(self).contents@.contains_key(old_entries[a].hash));
                }
            }
        }
    }

    /// Drops the entry for `h`, if any.
    pub fn remove(&mut self, h: &BlockHash)
        requires
            old(self).wf(),
        ensures
            final(self).wf(),
            final(self)@ == old(self)@.remove(*h),
    {
        match self.find(h) {
            Some(i) => {
                let ghost old_entries = self.entries@;
                self.entries.remove(i);
                self.contents = Ghost(self.contents@.remove(*h));
                assert forall|k: BlockHash| #[trigger] self.contents@.contains_key(k) implies exists|
                    j: int,
                | 0 <= j < self.entries@.len() && self.entries@[j].hash == k by {
                    let j = choose|j: int|
                        0 <= j < old_entries.len() && old_entries[j].hash == k;
                    if j < i {
                        assert(self.entries@[j] == old_entries[j]);
                    } else {
                        assert(self.entries@[j - 1] == old_entries[j]);
                    }
                }
                assert forall|a: int, b: int|
                    0 <= a < b < self.entries@.len() implies self.entries@[a].hash
                    != self.entries@[b].hash by {
                    let oa = if a < i {
                        a
                    } else {
                        a + 1
                    };
                    let ob = if b < i {
                        b
                    } else {
                        b + 1
                    };
                    assert(self.entries@[a] == old_entries[oa]);
                    assert(self.entries@[b] == old_entries[ob]);
                }
                assert forall|a: int| 0 <= a < self.entries@.len() implies #[trigger] self.contents@.contains_key(
                    self.entries@[a].hash,
                ) && self.contents@[self.entries@[a].hash] == (
                    self.entries@[a].att,
                    self.entries@[a].expiry,
                ) by {
                    let oa = if a < i {
                        a
                    } else {
                        a + 1
                    };
                    assert(self.entries@[a] == old_entries[oa]);
                    assert(old_entries[oa].hash != old_entries[i as int].hash);
                    assert(old(self).contents@.contains_key(old_entries[oa].hash));
                }
            },
            None => {
                assert(self.contents@.remove(*h) =~= self.contents@);
            },
        }
    }

    /// Drops every entry that has expired at `now`: an entry stays only while
    /// its expiry lies after `now`.
    pub fn prune(&mut self, now: u64)
        requires
            old(self).wf(),
        ensures
            final(self).wf(),
            final(self)@ == old(self)@.restrict(
                old(self)@.dom().filter(|k: BlockHash| old(self)@[k].1 > now),
            ),
    {
        let ghost target = self.contents@.restrict(
            self.contents@.dom().filter(|k: BlockHash| self.contents@[k].1 > now),
        );
        let ghost old_entries = self.entries@;
        let mut kept: Vec<CacheEntry> = Vec::new();
        let ghost mut idx: Seq<int> = Seq::empty();
        let ghost mut pos: Map<int, int> = Map::empty();
        let mut i: usize = 0;
        while i < self.entries.len()
            invariant
                self.wf(),
                self.entries@ == old_entries,
                0 <= i <= old_entries.len(),
                kept@.len() == idx.len(),
                forall|a: int|
                    #![trigger idx[a]]
                    0 <= a < kept@.len() ==> 0 <= idx[a] < i && kept@[a] == old_entries[idx[a]]
                        && old_entries[idx[a]].expiry > now,
                forall|a: int, b: int| 0 <= a < b < idx.len() ==> idx[a] < idx[b],
                forall|o: int|
                    #![trigger old_entries[o]]
                    0 <= o < i && old_entries[o].expiry > now ==> pos.contains_key(o) && 0
                        <= pos[o] < kept@.len() && kept@[pos[o]] == old_entries[o],
            decreases old_entries.len() - i,
        {
            let e = self.entries[i];
            if e.expiry > now {
                let ghost prev_kept = kept@;
                let ghost prev_idx = idx;
                proof {
                    pos = pos.insert(i as int, kept@.len() as int);
                    idx = idx.push(i as int);
                }
                kept.push(e);
                assert forall|a: int|
                    #![trigger idx[a]]
                    0 <= a < kept@.len() implies 0 <= idx[a] < i + 1 && kept@[a]
                        == old_entries[idx[a]] && old_entries[idx[a]].expiry > now by {
                    if a < prev_kept.len() {
                        assert(kept@[a] == prev_kept[a]);
                        assert(idx[a] == prev_idx[a]);
                    } else {
                        assert(kept@[a] == e);
                        assert(idx[a] == i as int);
                        assert(e == old_entries[i as int]);
                    }
                }
                assert forall|a: int, b: int| 0 <= a < b < idx.len() implies idx[a] < idx[b] by {
                    if b < prev_idx.len() {
                        assert(idx[a] == prev_idx[a]);
                        assert(idx[b] == prev_idx[b]);
                    } else {
                        assert(prev_kept[a] == kept@[a]);
                        assert(idx[a] == prev_idx[a]);
                    }
                }
            }
            i = i + 1;
        }
        self.entries = kept;
        self.contents = Ghost(target);
        assert forall|a: int, b: int|
            0 <= a < b < self.entries@.len() implies self.entries@[a].hash
            != self.entries@[b].hash by {
            assert(self.entries@[a] == old_entries[idx[a]]);
            assert(self.entries@[b] == old_entries[idx[b]]);
        }
        assert forall|a: int| 0 <= a < self.entries@.len() implies #[trigger] self.contents@.contains_key(
            self.entries@[a].hash,
        ) && self.contents@[self.entries@[a].hash] == (
            self.entries@[a].att,
            self.entries@[a].expiry,
        ) by {
            assert(self.entries@[a] == old_entries[idx[a]]);
            assert(old(self).contents@.contains_key(old_entries[idx[a]].hash));
        }
        assert forall|k: BlockHash| #[trigger] self.contents@.contains_key(k) implies exists|
            a: int,
        | 0 <= a < self.entries@.len() && self.entries@[a].hash == k by {
            let o = choose|o: int| 0 <= o < old_entries.len() && old_entries[o].hash == k;
            assert(old(self).contents@.contains_key(old_entries[o].hash));
            assert(old_entries[o].expiry > now);
            assert(self.entries@[pos[o]] == old_entries[o]);
        }
    }
}

/// Inserting the same attestation for the same block twice leaves one entry
/// for that block, whose expiry is the one set by the second insertion.
pub proof fn lemma_cache_insert_idempotent(
    c: AttestationCache,
    h: BlockHash,
    att: Attestation,
    t1: u64,
    t2: u64,
)
    ensures
        c@.insert(h, (att, spec_expiry_from(t1))).insert(h, (att, spec_expiry_from(t2))) == c@.insert(
            h,
            (att, spec_expiry_from(t2)),
        ),
        c@.insert(h, (att, spec_expiry_from(t1))).insert(
            h,
            (att, spec_expiry_from(t2)),
        ).dom() == c@.dom().insert(h),
{
    assert(c@.insert(h, (att, spec_expiry_from(t1))).insert(h, (att, spec_expiry_from(t2)))
        =~= c@.insert(h, (att, spec_expiry_from(t2))));
}

/// A set of block hashes, such as the blocks that must not be accepted again.
pub struct HashSet32 {
    hashes: Vec<BlockHash>,
}

impl View for HashSet32 {
    type V = Set<BlockHash>;

    closed spec fn view(&self) -> Set<BlockHash> {
        self.hashes@.to_set()
    }
}

impl HashSet32 {
    /// An empty set.
    pub fn new() -> (r: HashSet32)
        ensures
            r@ == Set::<BlockHash>::empty(),
    {
        let r = HashSet32 { hashes: Vec::new() };
        assert(r@ =~= Set::<BlockHash>::empty());
        r
    }

    /// Membership test.
    pub fn contains(&self, h: &BlockHash) -> (r: bool)
        ensures
            r == self@.contains(*h),
    {
        let mut i: usize = 0;
        while i < self.hashes.len()
            invariant
                0 <= i <= self.hashes@.len(),
                forall|j: int| 0 <= j < i ==> self.hashes@[j] != *h,
            decreases self.hashes@.len() - i,
        {
            if bytes_eq(&self.hashes[i], h) {
                assert(self.hashes@.contains(*h));
                return true;
            }
            i = i + 1;
        }
        false
    }

    /// Adds a hash.
    pub fn insert(&mut self, h: BlockHash)
        ensures
            final(self)@ == old(self)@.insert(h),
    {
        if !self.contains(&h) {
            self.hashes.push(h);
            assert(self.hashes@ == old(self).hashes@.push(h));
            assert(self@ =~= old(self)@.insert(h)) by {
                assert forall|k: BlockHash| self@.contains(k) implies old(self)@.insert(h).contains(
                    k,
                ) by {
                    let j = choose|j: int| 0 <= j < self.hashes@.len() && self.hashes@[j] == k;
                    if j < old(self).hashes@.len() {
                        assert(old(self).hashes@[j] == k);
                    }
                }
                assert forall|k: BlockHash| old(self)@.insert(h).contains(k) implies self@.contains(
                    k,
                ) by {
                    if k == h {
                        assert(self.hashes@[self.hashes@.len() - 1] == h);
                    } else {
                        let j = choose|j: int|
                            0 <= j < old(self).hashes@.len() && old(self).hashes@[j] == k;
                        assert(self.hashes@[j] == k);
                    }
                }
            }
        } else {
            assert(old(self)@.insert(h) =~= old(self)@);
        }
    }

    /// Removes every hash.
    pub fn clear(&mut self)
        ensures
            final(self)@ == Set::<BlockHash>::empty(),
    {
        self.hashes = Vec::new();
        assert(self@ =~= Set::<BlockHash>::empty());
    }
}

} // verus!
