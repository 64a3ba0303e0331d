//! Pending block buffer: ordered blocks waiting for commit, keyed by the
//! `(epoch, round)` of their ordered proof, with an optional attached
//! commit decision. The buffer is kept strictly sorted by key, holds at
//! most `max_pending` entries, and supports re-verification on epoch
//! rollover, prefix removal on commit, and an in-order drain.

use vstd::prelude::*;

use crate::types::{
    key_le, key_lt, signature_valid, structurally_valid, BlockInfo, EpochState, EpochStateV,
    LedgerInfo, LedgerInfoV, OrderedBlock, OrderedBlockV,
};

verus! {

/// Mathematical model of one buffered entry.
pub struct PendingEntryV {
    pub block: OrderedBlockV,
    pub verified: bool,
    pub commit_decision: Option<LedgerInfoV>,
}

impl PendingEntryV {
    /// The epoch of the entry's key (the ordered proof's epoch).
    pub open spec fn epoch(self) -> u64 {
        self.block.ordered_proof.commit_info.epoch
    }

    /// The round of the entry's key (the ordered proof's round).
    pub open spec fn round(self) -> u64 {
        self.block.ordered_proof.commit_info.round
    }
}

/// One buffered ordered block: the block run, whether its ordered proof
/// has been verified under the epoch of the block, and the commit
/// decision attached to it, if one has arrived.
#[derive(Debug)]
pub struct PendingEntry {
    pub block: OrderedBlock,
    pub verified: bool,
    pub commit_decision: Option<LedgerInfo>,
}

impl View for PendingEntry {
    type V = PendingEntryV;

    open spec fn view(&self) -> PendingEntryV {
        PendingEntryV {
            block: self.block@,
            verified: self.verified,
            commit_decision: match self.commit_decision {
                Some(ref d) => Some(d@),
                None => None,
            },
        }
    }
}

impl PendingEntry {
    /// The epoch of the entry's key.
    pub fn epoch(&self) -> (r: u64)
        ensures
            r == self@.epoch(),
    {
        self.block.ordered_proof.commit_info.epoch
    }

    /// The round of the entry's key.
    pub fn round(&self) -> (r: u64)
        ensures
            r == self@.round(),
    {
        self.block.ordered_proof.commit_info.round
    }

    /// An independent copy with the same content.
    pub fn duplicate(&self) -> (r: PendingEntry)
        ensures
            r@ == self@,
    {
        let commit_decision = match &self.commit_decision {
            Some(d) => Some(d.duplicate()),
            None => None,
        };
        PendingEntry { block: self.block.duplicate(), verified: self.verified, commit_decision }
    }
}

/// Strict sortedness by `(epoch, round)` key.
pub open spec fn entries_sorted(s: Seq<PendingEntryV>) -> bool {
    forall|i: int, j: int|
        0 <= i < j < s.len() ==> key_lt(
            (#[trigger] s[i]).epoch(),
            s[i].round(),
            (#[trigger] s[j]).epoch(),
            s[j].round(),
        )
}

/// Whether some entry of `s` has key `(epoch, round)`.
pub open spec fn has_key(s: Seq<PendingEntryV>, epoch: u64, round: u64) -> bool {
    exists|i: int| 0 <= i < s.len() && (#[trigger] s[i]).epoch() == epoch && s[i].round() == round
}

/// Whether an entry survives re-verification under epoch state `es`:
/// future-epoch entries are kept for later, entries of `es`'s own epoch
/// are kept exactly when their ordered proof's signature is valid under
/// `es`, and entries of earlier epochs are discarded.
pub open spec fn keep_under(e: PendingEntryV, es: EpochStateV) -> bool {
    e.epoch() > es.epoch || (e.epoch() == es.epoch && signature_valid(
        e.block.ordered_proof.signers,
        es.validators,
    ))
}

/// What re-verification under `es` makes of a surviving entry: entries of
/// `es`'s own epoch are promoted to verified.
pub open spec fn promote_under(e: PendingEntryV, es: EpochStateV) -> PendingEntryV {
    PendingEntryV {
        block: e.block,
        verified: if e.epoch() == es.epoch {
            true
        } else {
            e.verified
        },
        commit_decision: e.commit_decision,
    }
}

/// Ordered-by-key buffer of pending ordered blocks.
#[derive(Debug)]
pub struct PendingBlocks {
    pub entries: Vec<PendingEntry>,
    pub max_pending: usize,
}

impl View for PendingBlocks {
    type V = Seq<PendingEntryV>;

    open spec fn view(&self) -> Seq<PendingEntryV> {
        self.entries@.map_values(|e: PendingEntry| e@)
    }
}

impl PendingBlocks {
    /// Entries are strictly sorted by key and structurally valid.
    pub open spec fn wf(self) -> bool {
        &&& entries_sorted(self@)
        &&& forall|i: int| 0 <= i < self@.len() ==> structurally_valid((#[trigger] self@[i]).block)
    }

    /// An empty buffer with the given depth bound.
    pub fn new(max_pending: usize) -> (r: PendingBlocks)
        ensures
            r.wf(),
            r@.len() == 0,
            r.max_pending == max_pending,
    {
        let r = PendingBlocks { entries: Vec::new(), max_pending };
        proof {
            assert(r@ =~= Seq::<PendingEntryV>::empty());
        }
        r
    }

    /// How many entries are buffered.
    pub fn num_entries(&self) -> (r: usize)
        ensures
            r == self@.len(),
    {
        self.entries.len()
    }

    /// The last block of the highest-keyed entry, if any.
    pub fn get_last_pending_block(&self) -> (r: Option<BlockInfo>)
        requires
            self.wf(),
        ensures
            r == if self@.len() > 0 {
                Some(self@.last().block.last())
            } else {
                None::<BlockInfo>
            },
    {
        if self.entries.len() == 0 {
            None
        } else {
            let e = &self.entries[self.entries.len() - 1];
            assert(e@ == self@.last());
            Some(e.block.last_block())
        }
    }

    /// The index of the entry with key `(epoch, round)`, if present.
    pub fn find_entry(&self, epoch: u64, round: u64) -> (r: Option<usize>)
        ensures
            match r {
                Some(i) => i < self@.len() && self@[i as int].epoch() == epoch
                    && self@[i as int].round() == round,
                None => !has_key(self@, epoch, round),
            },
    {
        let mut i: usize = 0;
        while i < self.entries.len()
            invariant
                i <= self.entries.len(),
                forall|j: int|
                    0 <= j < i ==> !((#[trigger] self@[j]).epoch() == epoch && self@[j].round()
                        == round),
            decreases self.entries.len() - i,
        {
            let e = &self.entries[i];
            assert(e@ == self@[i as int]);
            if e.epoch() == epoch && e.round() == round {
                return Some(i);
            }
            i = i + 1;
        }
        None
    }

    /// A reference to the entry at index `i`.
    pub fn entry_at(&self, i: usize) -> (r: &PendingEntry)
        requires
            i < self@.len(),
        ensures
            r@ == self@[i as int],
    {
        let r = &self.entries[i];
        assert(r@ == self@[i as int]);
        r
    }

    /// The entry at `(epoch, round)`, only if its proof has been
    /// verified.
    pub fn get_verified_pending_block(&self, epoch: u64, round: u64) -> (r: Option<
        &PendingEntry,
    >)
        requires
            self.wf(),
        ensures
            (match r {
                Some(e) => e@.epoch() == epoch && e@.round() == round && e@.verified && exists|
                    i: int,
                | 0 <= i < self@.len() && #[trigger] self@[i] == e@,
                None => !(exists|i: int|
                    0 <= i < self@.len() && (#[trigger] self@[i]).epoch() == epoch
                        && self@[i].round() == round && self@[i].verified),
            }),
    {
        let found = self.find_entry(epoch, round);
        match found {
            Some(i) => {
                let e = self.entry_at(i);
                if e.verified {
                    proof {
                        assert(self@[i as int] == e@);
                    }
                    Some(e)
                } else {
                    proof {
                        // Keys are strictly sorted, so no other entry
                        // carries this key, let alone a verified one.
                        if exists|j: int|
                            0 <= j < self@.len() && (#[trigger] self@[j]).epoch() == epoch
                                && self@[j].round() == round && self@[j].verified {
                            let j = choose|j: int|
                                0 <= j < self@.len() && (#[trigger] self@[j]).epoch() == epoch
                                    && self@[j].round() == round && self@[j].verified;
                            if j != i as int {
                                let lo = if j < i as int { j } else { i as int };
                                let hi = if j < i as int { i as int } else { j };
                                assert(key_lt(
                                    self@[lo].epoch(),
                                    self@[lo].round(),
                                    self@[hi].epoch(),
                                    self@[hi].round(),
                                ));
                            }
                            assert(false);
                        }
                    }
                    None
                }
            },
            None => None,
        }
    }

    /// Inserts an ordered block keyed by its ordered proof. Idempotent on
    /// key: an existing entry is replaced only when the incoming one
    /// raises `verified` from false to true (the replacement starts with
    /// no commit decision). A fresh key is inserted at its sorted
    /// position, unless the buffer already holds `max_pending` entries,
    /// in which case the incoming block is dropped.
    pub fn insert_ordered_block(&mut self, block: OrderedBlock, verified: bool)
        requires
            old(self).wf(),
            structurally_valid(block@),
        ensures
            final(self).wf(),
            final(self).max_pending == old(self).max_pending,
            ({
                let epoch = block@.ordered_proof.commit_info.epoch;
                let round = block@.ordered_proof.commit_info.round;
                let entry = PendingEntryV {
                    block: block@,
                    verified: verified,
                    commit_decision: None::<LedgerInfoV>,
                };
                if has_key(old(self)@, epoch, round) {
                    exists|i: int|
                        0 <= i < old(self)@.len() && (#[trigger] old(self)@[i]).epoch() == epoch
                            && old(self)@[i].round() == round && final(self)@ == (
                        if !old(self)@[i].verified && verified {
                            old(self)@.update(i, entry)
                        } else {
                            old(self)@
                        })
                } else if old(self)@.len() < old(self).max_pending {
                    exists|i: int|
                        0 <= i <= old(self)@.len() && final(self)@ == old(self)@.insert(i, entry)
                } else {
                    final(self)@ == old(self)@
                }
            }),
            (old(self)@.len() < old(self).max_pending && (old(self)@.len() == 0 || key_lt(
                old(self)@.last().epoch(),
                old(self)@.last().round(),
                block@.ordered_proof.commit_info.epoch,
                block@.ordered_proof.commit_info.round,
            ))) ==> final(self)@ == old(self)@.push(
                PendingEntryV { block: block@, verified: verified, commit_decision: None },
            ),
    {
        let epoch = block.ordered_proof.commit_info.epoch;
        let round = block.ordered_proof.commit_info.round;
        let n = self.entries.len();
        let mut i: usize = 0;
        while i < n
            invariant
                n == self.entries@.len(),
                i <= n,
                forall|j: int|
                    0 <= j < i ==> key_lt(
                        (#[trigger] self@[j]).epoch(),
                        self@[j].round(),
                        epoch,
                        round,
                    ),
            ensures
                n == self.entries@.len(),
                i <= n,
                forall|j: int|
                    0 <= j < i ==> key_lt(
                        (#[trigger] self@[j]).epoch(),
                        self@[j].round(),
                        epoch,
                        round,
                    ),
                i < n ==> !key_lt(self@[i as int].epoch(), self@[i as int].round(), epoch, round),
            decreases n - i,
        {
            let e = &self.entries[i];
            assert(e@ == self@[i as int]);
            if !(e.epoch() < epoch || (e.epoch() == epoch && e.round() < round)) {
                break ;
            }
            i = i + 1;
        }
        let entry_new = PendingEntry { block, verified, commit_decision: None };
        if i < self.entries.len() && self.entries[i].block.ordered_proof.commit_info.epoch == epoch
            && self.entries[i].block.ordered_proof.commit_info.round == round {
            // Existing entry at this key
            assert(self@[i as int].epoch() == epoch && self@[i as int].round() == round);
            if !self.entries[i].verified && verified {
                let ghost pre = self@;
                let _old_entry = self.entries.remove(i);
                self.entries.insert(i, entry_new);
                proof {
                    assert(self@ =~= pre.update(
                        i as int,
                        PendingEntryV { block: block@, verified, commit_decision: None },
                    ));
                }
            }
        } else {
            // Fresh key
            proof {
                // Entries past the scan point have strictly larger keys.
                assert forall|j: int|
                    i <= j < self@.len() implies key_lt(
                    epoch,
                    round,
                    (#[trigger] self@[j]).epoch(),
                    self@[j].round(),
                ) by {
                    if j == i {
                        assert(!(self@[j].epoch() < epoch || (self@[j].epoch() == epoch
                            && self@[j].round() < round)));
                        assert(!(self@[j].epoch() == epoch && self@[j].round() == round));
                    } else {
                        assert(key_lt(
                            self@[i as int].epoch(),
                            self@[i as int].round(),
                            self@[j].epoch(),
                            self@[j].round(),
                        ));
                        assert(!(self@[i as int].epoch() < epoch || (self@[i as int].epoch()
                            == epoch && self@[i as int].round() < round)));
                        assert(!(self@[i as int].epoch() == epoch && self@[i as int].round()
                            == round));
                    }
                }
                assert(!has_key(self@, epoch, round));
            }
            if self.entries.len() < self.max_pending {
                let ghost pre = self@;
                self.entries.insert(i, entry_new);
                proof {
                    assert(self@ =~= pre.insert(
                        i as int,
                        PendingEntryV { block: block@, verified, commit_decision: None },
                    ));
                    if pre.len() == 0 || key_lt(
                        pre.last().epoch(),
                        pre.last().round(),
                        epoch,
                        round,
                    ) {
                        assert(i == pre.len());
                        assert(self@ =~= pre.push(
                            PendingEntryV { block: block@, verified, commit_decision: None },
                        ));
                    }
                }
            }
        }
    }

    /// Attaches a commit decision to the entry keyed by the decision's
    /// `(epoch, round)`; a no-op when no entry has that key.
    pub fn update_commit_decision(&mut self, decision: &LedgerInfo)
        requires
            old(self).wf(),
        ensures
            final(self).wf(),
            final(self).max_pending == old(self).max_pending,
            ({
                let epoch = decision@.commit_info.epoch;
                let round = decision@.commit_info.round;
                if has_key(old(self)@, epoch, round) {
                    exists|i: int|
                        0 <= i < old(self)@.len() && (#[trigger] old(self)@[i]).epoch() == epoch
                            && old(self)@[i].round() == round && final(self)@ == old(
                            self,
                        )@.update(
                            i,
                            PendingEntryV {
                                block: old(self)@[i].block,
                                verified: old(self)@[i].verified,
                                commit_decision: Some(decision@),
                            },
                        )
                } else {
                    final(self)@ == old(self)@
                }
            }),
    {
        let epoch = decision.commit_info.epoch;
        let round = decision.commit_info.round;
        let found = self.find_entry(epoch, round);
        match found {
            Some(i) => {
                let ghost pre = self@;
                let e = self.entries.remove(i);
                let updated = PendingEntry {
                    block: e.block,
                    verified: e.verified,
                    commit_decision: Some(decision.duplicate()),
                };
                self.entries.insert(i, updated);
                proof {
                    assert(self@ =~= pre.update(
                        i as int,
                        PendingEntryV {
                            block: pre[i as int].block,
                            verified: pre[i as int].verified,
                            commit_decision: Some(decision@),
                        },
                    ));
                }
            },
            None => {},
        }
    }

    /// Removes every entry whose key is at most `(epoch, round)` — with
    /// the buffer sorted, a prefix.
    pub fn remove_blocks_for_commit(&mut self, epoch: u64, round: u64)
        requires
            old(self).wf(),
        ensures
            final(self).wf(),
            final(self).max_pending == old(self).max_pending,
            exists|c: int|
                0 <= c <= old(self)@.len() && final(self)@ == old(self)@.subrange(
                    c,
                    old(self)@.len() as int,
                ) && (forall|j: int|
                    0 <= j < c ==> key_le(
                        (#[trigger] old(self)@[j]).epoch(),
                        old(self)@[j].round(),
                        epoch,
                        round,
                    )) && (forall|j: int|
                    c <= j < old(self)@.len() ==> key_lt(
                        epoch,
                        round,
                        (#[trigger] old(self)@[j]).epoch(),
                        old(self)@[j].round(),
                    )),
            forall|j: int|
                0 <= j < final(self)@.len() ==> key_lt(
                    epoch,
                    round,
                    (#[trigger] final(self)@[j]).epoch(),
                    final(self)@[j].round(),
                ),
    {
        let n = self.entries.len();
        let mut c: usize = 0;
        while c < n
            invariant
                n == self.entries@.len(),
                c <= n,
                forall|j: int|
                    0 <= j < c ==> key_le(
                        (#[trigger] self@[j]).epoch(),
                        self@[j].round(),
                        epoch,
                        round,
                    ),
            ensures
                c <= n,
                forall|j: int|
                    0 <= j < c ==> key_le(
                        (#[trigger] self@[j]).epoch(),
                        self@[j].round(),
                        epoch,
                        round,
                    ),
                c < n ==> !key_le(self@[c as int].epoch(), self@[c as int].round(), epoch, round),
                n == self.entries@.len(),
            decreases n - c,
        {
            let e = &self.entries[c];
            assert(e@ == self@[c as int]);
            if !(e.epoch() < epoch || (e.epoch() == epoch && e.round() <= round)) {
                break ;
            }
            c = c + 1;
        }
        let ghost pre = self@;
        let tail = self.entries.split_off(c);
        self.entries = tail;
        proof {
            assert(self@ =~= pre.subrange(c as int, pre.len() as int));
            assert forall|j: int|
                c as int <= j < pre.len() implies key_lt(
                epoch,
                round,
                (#[trigger] pre[j]).epoch(),
                pre[j].round(),
            ) by {
                if j == c as int {
                    assert(!key_le(pre[j].epoch(), pre[j].round(), epoch, round));
                } else {
                    assert(key_lt(
                        pre[c as int].epoch(),
                        pre[c as int].round(),
                        pre[j].epoch(),
                        pre[j].round(),
                    ));
                    assert(!key_le(pre[c as int].epoch(), pre[c as int].round(), epoch, round));
                }
            }
        }
    }

    /// Re-verifies the buffer for a new epoch: entries of the new epoch
    /// are promoted when their ordered proof verifies and discarded when
    /// it does not; future-epoch entries are kept untouched; entries of
    /// earlier epochs are discarded.
    pub fn verify_pending_blocks(&mut self, es: &EpochState)
        requires
            old(self).wf(),
        ensures
            final(self).wf(),
            final(self).max_pending == old(self).max_pending,
            final(self)@ == old(self)@.filter(|e: PendingEntryV| keep_under(e, es@)).map_values(
                |e: PendingEntryV| promote_under(e, es@),
            ),
            forall|i: int|
                0 <= i < final(self)@.len() ==> ((#[trigger] final(self)@[i]).epoch() == es@.epoch
                    ==> final(self)@[i].verified),
    {
        let ghost pred = |e: PendingEntryV| keep_under(e, es@);
        let ghost f = |e: PendingEntryV| promote_under(e, es@);
        let n = self.entries.len();
        let mut kept: Vec<PendingEntry> = Vec::new();
        proof {
            reveal(Seq::filter);
            assert(self@.take(0) =~= Seq::<PendingEntryV>::empty());
            assert(kept@.map_values(|e: PendingEntry| e@) =~= self@.take(0).filter(pred).map_values(
                f,
            ));
        }
        let mut i: usize = 0;
        while i < n
            invariant
                n == self.entries@.len(),
                i <= n,
                old(self).wf(),
                old(self)@ == self@,
                pred == (|e: PendingEntryV| keep_under(e, es@)),
                f == (|e: PendingEntryV| promote_under(e, es@)),
                kept@.map_values(|e: PendingEntry| e@) == self@.take(i as int).filter(
                    pred,
                ).map_values(f),
                entries_sorted(kept@.map_values(|e: PendingEntry| e@)),
                forall|p: int|
                    0 <= p < kept@.len() ==> structurally_valid(((#[trigger] kept@[p])@).block),
                kept@.len() > 0 ==> i > 0 && key_le(
                    kept@.map_values(|e: PendingEntry| e@).last().epoch(),
                    kept@.map_values(|e: PendingEntry| e@).last().round(),
                    self@[i - 1].epoch(),
                    self@[i - 1].round(),
                ),
            decreases n - i,
        {
            let ghost prev = kept@.map_values(|e: PendingEntry| e@);
            let ghost prefix = self@.take(i as int);
            let ghost next_prefix = self@.take(i as int + 1);
            proof {
                reveal(Seq::filter);
                assert(next_prefix.drop_last() =~= prefix);
                assert(next_prefix.last() == self@[i as int]);
            }
            let e = &self.entries[i];
            assert(e@ == self@[i as int]);
            let keep: bool = if e.epoch() > es.epoch {
                true
            } else if e.epoch() == es.epoch {
                es.verify_signature(&e.block.ordered_proof.signers)
            } else {
                false
            };
            assert(keep == keep_under(e@, es@));
            if keep {
                let promoted_verified: bool = if e.epoch() == es.epoch {
                    true
                } else {
                    e.verified
                };
                let copy = PendingEntry {
                    block: e.block.duplicate(),
                    verified: promoted_verified,
                    commit_decision: match &e.commit_decision {
                        Some(d) => Some(d.duplicate()),
                        None => None,
                    },
                };
                assert(copy@ == promote_under(e@, es@));
                kept.push(copy);
                proof {
                    let kview = kept@.map_values(|en: PendingEntry| en@);
                    assert(kview =~= prev.push(promote_under(self@[i as int], es@)));
                    assert(next_prefix.filter(pred) =~= prefix.filter(pred).push(
                        self@[i as int],
                    ));
                    assert(next_prefix.filter(pred).map_values(f) =~= prefix.filter(
                        pred,
                    ).map_values(f).push(f(self@[i as int])));
                    // The pushed entry's key tops every key already kept.
                    assert forall|p: int| 0 <= p < prev.len() implies key_lt(
                        (#[trigger] prev[p]).epoch(),
                        prev[p].round(),
                        self@[i as int].epoch(),
                        self@[i as int].round(),
                    ) by {
                        assert(key_le(
                            prev.last().epoch(),
                            prev.last().round(),
                            self@[i as int - 1].epoch(),
                            self@[i as int - 1].round(),
                        ));
                        assert(key_lt(
                            self@[i as int - 1].epoch(),
                            self@[i as int - 1].round(),
                            self@[i as int].epoch(),
                            self@[i as int].round(),
                        ));
                        if p < prev.len() - 1 {
                            assert(key_lt(
                                prev[p].epoch(),
                                prev[p].round(),
                                prev.last().epoch(),
                                prev.last().round(),
                            ));
                        }
                    }
                    assert(entries_sorted(kview));
                }
            } else {
                proof {
                    assert(next_prefix.filter(pred) =~= prefix.filter(pred));
                    if kept@.len() > 0 {
                        assert(key_lt(
                            self@[i as int - 1].epoch(),
                            self@[i as int - 1].round(),
                            self@[i as int].epoch(),
                            self@[i as int].round(),
                        ));
                    }
                }
            }
            i = i + 1;
        }
        proof {
            assert(self@.take(n as int) =~= self@);
        }
        self.entries = kept;
        proof {
            assert(self@ == old(self)@.filter(pred).map_values(f));
        }
    }

    /// Copies of all verified entries, in key order.
    pub fn get_all_verified_pending_blocks(&self) -> (r: Vec<PendingEntry>)
        ensures
            r@.map_values(|e: PendingEntry| e@) == self@.filter(|e: PendingEntryV| e.verified),
    {
        let ghost pred = |e: PendingEntryV| e.verified;
        let mut out: Vec<PendingEntry> = Vec::new();
        proof {
            reveal(Seq::filter);
            assert(self@.take(0) =~= Seq::<PendingEntryV>::empty());
            assert(out@.map_values(|e: PendingEntry| e@) =~= self@.take(0).filter(pred));
        }
        let mut i: usize = 0;
        while i < self.entries.len()
            invariant
                i <= self.entries@.len(),
                pred == (|e: PendingEntryV| e.verified),
                out@.map_values(|e: PendingEntry| e@) == self@.take(i as int).filter(pred),
            decreases self.entries@.len() - i,
        {
            let ghost prev = out@.map_values(|e: PendingEntry| e@);
            let ghost prefix = self@.take(i as int);
            let ghost next_prefix = self@.take(i as int + 1);
            proof {
                reveal(Seq::filter);
                assert(next_prefix.drop_last() =~= prefix);
                assert(next_prefix.last() == self@[i as int]);
            }
            let e = &self.entries[i];
            assert(e@ == self@[i as int]);
            if e.verified {
                let copy = e.duplicate();
                out.push(copy);
                proof {
                    assert(out@.map_values(|en: PendingEntry| en@) =~= prev.push(self@[i as int]));
                    assert(next_prefix.filter(pred) =~= prefix.filter(pred).push(self@[i as int]));
                }
            } else {
                proof {
                    assert(next_prefix.filter(pred) =~= prefix.filter(pred));
                }
            }
            i = i + 1;
        }
        proof {
            assert(self@.take(self.entries@.len() as int) =~= self@);
        }
        out
    }
}


/// Every element of a filtered sequence occurs in the original.
pub proof fn lemma_filter_member(s: Seq<PendingEntryV>, pred: spec_fn(PendingEntryV) -> bool, i: int)
    requires
        0 <= i < s.filter(pred).len(),
    ensures
        exists|j: int| 0 <= j < s.len() && s[j] == s.filter(pred)[i],
    decreases s.len(),
{
    reveal(Seq::filter);
    if s.len() > 0 {
        let butlast = s.drop_last();
        if pred(s.last()) {
            if i < s.filter(pred).len() - 1 {
                lemma_filter_member(butlast, pred, i);
                let j = choose|j: int|
                    0 <= j < butlast.len() && butlast[j] == butlast.filter(pred)[i];
                assert(s[j] == s.filter(pred)[i]);
            } else {
                assert(s[s.len() - 1] == s.filter(pred)[i]);
            }
        } else {
            lemma_filter_member(butlast, pred, i);
            let j = choose|j: int| 0 <= j < butlast.len() && butlast[j] == butlast.filter(pred)[i];
            assert(s[j] == s.filter(pred)[i]);
        }
    }
}

} // verus!
