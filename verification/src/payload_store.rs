//! Payload store (block id -> transaction payload): supports insertion,
//! an existence test over a run of blocks, and bulk removal on commit.

use vstd::prelude::*;

use crate::types::{copy_u64s, BlockInfo};

verus! {

/// Mathematical model of one stored payload.
pub struct PayloadData {
    pub transactions: Seq<u64>,
    pub limit: Option<u64>,
}

/// One stored payload, keyed by the id of the block it belongs to.
#[derive(Debug)]
pub struct StoredPayload {
    pub id: u64,
    pub transactions: Vec<u64>,
    pub limit: Option<u64>,
}

/// The payload carried by one stored entry.
pub open spec fn entry_data(e: StoredPayload) -> PayloadData {
    PayloadData { transactions: e.transactions@, limit: e.limit }
}

/// The payload stored under `id`, scanning from the back (entries carry
/// pairwise distinct ids, so at most one matches).
pub open spec fn lookup(s: Seq<StoredPayload>, id: u64) -> Option<PayloadData>
    decreases s.len(),
{
    if s.len() == 0 {
        None
    } else if s.last().id == id {
        Some(entry_data(s.last()))
    } else {
        lookup(s.drop_last(), id)
    }
}

/// `lookup` finds something under `id` exactly when some entry carries `id`.
pub proof fn lemma_lookup_exists(s: Seq<StoredPayload>, id: u64)
    ensures
        lookup(s, id) is Some <==> exists|j: int| 0 <= j < s.len() && s[j].id == id,
    decreases s.len(),
{
    if s.len() > 0 {
        lemma_lookup_exists(s.drop_last(), id);
        if s.last().id == id {
        } else if exists|j: int| 0 <= j < s.len() && s[j].id == id {
            let j = choose|j: int| 0 <= j < s.len() && s[j].id == id;
            assert(s.drop_last()[j] == s[j]);
        }
    }
}

/// Whether some block in `blocks` has id `id`.
pub open spec fn id_in_blocks(blocks: Seq<BlockInfo>, id: u64) -> bool {
    exists|i: int| 0 <= i < blocks.len() && blocks[i].id == id
}

/// Whether some block in `blocks` has id `id` (executable form).
pub fn blocks_contain_id(blocks: &Vec<BlockInfo>, id: u64) -> (r: bool)
    ensures
        r == id_in_blocks(blocks@, id),
{
    let mut i: usize = 0;
    while i < blocks.len()
        invariant
            i <= blocks.len(),
            forall|j: int| 0 <= j < i ==> blocks@[j].id != id,
        decreases blocks.len() - i,
    {
        if blocks[i].id == id {
            return true;
        }
        i = i + 1;
    }
    false
}

/// Indexed store of block id -> transaction payload. Payloads arrive
/// independently of the ordered blocks that reference them; committed
/// blocks' payloads are removed in bulk.
#[derive(Debug)]
pub struct PayloadStore {
    pub entries: Vec<StoredPayload>,
}

impl PayloadStore {
    /// Entries carry pairwise distinct block ids.
    pub open spec fn wf(self) -> bool {
        forall|p: int, q: int|
            0 <= p < q < self.entries@.len() ==> self.entries@[p].id != self.entries@[q].id
    }

    /// The payload stored for block id `id`, if any.
    pub open spec fn spec_get(self, id: u64) -> Option<PayloadData> {
        lookup(self.entries@, id)
    }

    /// Whether a payload is stored for block id `id`.
    pub open spec fn contains_id(self, id: u64) -> bool {
        self.spec_get(id) is Some
    }

    /// How many payloads are stored.
    pub open spec fn spec_len(self) -> nat {
        self.entries@.len()
    }

    /// An empty store.
    pub fn new() -> (r: PayloadStore)
        ensures
            r.wf(),
            r.spec_len() == 0,
            forall|id: u64| r.spec_get(id) is None,
    {
        PayloadStore { entries: Vec::new() }
    }

    /// How many payloads are stored.
    pub fn num_payloads(&self) -> (r: usize)
        ensures
            r == self.spec_len(),
    {
        self.entries.len()
    }

    /// Whether a payload is stored for block id `id`.
    pub fn payload_exists(&self, id: u64) -> (r: bool)
        ensures
            r == self.contains_id(id),
    {
        let mut i: usize = 0;
        while i < self.entries.len()
            invariant
                i <= self.entries.len(),
                forall|j: int| 0 <= j < i ==> self.entries@[j].id != id,
            decreases self.entries.len() - i,
        {
            if self.entries[i].id == id {
                proof {
                    lemma_lookup_exists(self.entries@, id);
                }
                return true;
            }
            i = i + 1;
        }
        proof {
            lemma_lookup_exists(self.entries@, id);
        }
        false
    }

    /// Whether every block of `blocks` has its payload stored.
    pub fn all_payloads_exist(&self, blocks: &Vec<BlockInfo>) -> (r: bool)
        ensures
            r == forall|i: int|
                0 <= i < blocks@.len() ==> self.contains_id(#[trigger] blocks@[i].id),
    {
        let mut i: usize = 0;
        while i < blocks.len()
            invariant
                i <= blocks.len(),
                forall|j: int| 0 <= j < i ==> self.contains_id(#[trigger] blocks@[j].id),
            decreases blocks.len() - i,
        {
            if !self.payload_exists(blocks[i].id) {
                return false;
            }
            i = i + 1;
        }
        true
    }

    /// Stores `transactions` and `limit` as the payload of `block`,
    /// replacing any payload previously stored under the same block id.
    pub fn insert_block_payload(
        &mut self,
        block: BlockInfo,
        transactions: Vec<u64>,
        limit: Option<u64>,
    )
        requires
            old(self).wf(),
        ensures
            final(self).wf(),
            final(self).spec_get(block.id) == Some(
                PayloadData { transactions: transactions@, limit: limit },
            ),
            forall|k: u64| k != block.id ==> final(self).spec_get(k) == old(self).spec_get(k),
    {
        let single = block_as_vec(block);
        self.remove_blocks(&single);
        let ghost mid = *self;
        proof {
            assert(single@[0].id == block.id);
            assert(id_in_blocks(single@, block.id));
            assert(mid.spec_get(block.id) is None);
            lemma_lookup_exists(mid.entries@, block.id);
        }
        self.entries.push(StoredPayload { id: block.id, transactions, limit });
        proof {
            assert(self.entries@.last().id == block.id);
            assert(self.entries@.drop_last() =~= mid.entries@);
            assert forall|k: u64| k != block.id implies self.spec_get(k) == old(self).spec_get(
                k,
            ) by {
                assert(lookup(self.entries@, k) == lookup(self.entries@.drop_last(), k));
                assert(lookup(self.entries@.drop_last(), k) == lookup(mid.entries@, k));
                assert(!id_in_blocks(single@, k)) by {
                    if id_in_blocks(single@, k) {
                        let w = choose|w: int| 0 <= w < single@.len() && single@[w].id == k;
                        assert(single@[0].id == block.id);
                    }
                }
                assert(mid.spec_get(k) == old(self).spec_get(k));
            }
        }
    }

    /// Removes the payloads of all blocks in `blocks`.
    pub fn remove_blocks(&mut self, blocks: &Vec<BlockInfo>)
        requires
            old(self).wf(),
        ensures
            final(self).wf(),
            forall|k: u64|
                final(self).spec_get(k) == if id_in_blocks(blocks@, k) {
                    None::<PayloadData>
                } else {
                    old(self).spec_get(k)
                },
    {
        let n = self.entries.len();
        let mut kept: Vec<StoredPayload> = Vec::new();
        let mut i: usize = 0;
        while i < n
            invariant
                n == self.entries@.len(),
                old(self).entries@ == self.entries@,
                old(self).wf(),
                i <= n,
                forall|p: int, q: int| 0 <= p < q < kept@.len() ==> kept@[p].id != kept@[q].id,
                forall|k: u64|
                    lookup(kept@, k) == if id_in_blocks(blocks@, k) {
                        None::<PayloadData>
                    } else {
                        lookup(self.entries@.take(i as int), k)
                    },
            decreases n - i,
        {
            let ghost prev_kept = kept@;
            let ghost prefix = self.entries@.take(i as int);
            let ghost next_prefix = self.entries@.take(i as int + 1);
            proof {
                assert(next_prefix.drop_last() =~= prefix);
                assert(next_prefix.last() == self.entries@[i as int]);
            }
            let e = &self.entries[i];
            if !blocks_contain_id(blocks, e.id) {
                let copy = StoredPayload {
                    id: e.id,
                    transactions: copy_u64s(&e.transactions),
                    limit: e.limit,
                };
                proof {
                    // The pushed id is fresh in `kept`: the original ids are
                    // pairwise distinct, so the prefix seen so far lacks it.
                    assert(lookup(prefix, self.entries@[i as int].id) is None) by {
                        lemma_lookup_exists(prefix, self.entries@[i as int].id);
                        if exists|j: int|
                            0 <= j < prefix.len() && prefix[j].id == self.entries@[i as int].id {
                            let j = choose|j: int|
                                0 <= j < prefix.len() && prefix[j].id
                                    == self.entries@[i as int].id;
                            assert(self.entries@[j].id == self.entries@[i as int].id);
                        }
                    }
                    lemma_lookup_exists(prev_kept, self.entries@[i as int].id);
                    assert(entry_data(copy) == entry_data(self.entries@[i as int]));
                }
                kept.push(copy);
                proof {
                    assert(kept@.drop_last() =~= prev_kept);
                    assert forall|k: u64|
                        lookup(kept@, k) == (if id_in_blocks(blocks@, k) {
                            None::<PayloadData>
                        } else {
                            lookup(next_prefix, k)
                        }) by {
                        if k == self.entries@[i as int].id {
                        } else {
                            assert(lookup(kept@, k) == lookup(prev_kept, k));
                        }
                    }
                }
            } else {
                proof {
                    assert forall|k: u64|
                        lookup(kept@, k) == (if id_in_blocks(blocks@, k) {
                            None::<PayloadData>
                        } else {
                            lookup(next_prefix, k)
                        }) by {
                        if !id_in_blocks(blocks@, k) {
                            assert(next_prefix.last().id != k);
                        }
                    }
                }
            }
            i = i + 1;
        }
        proof {
            assert(self.entries@.take(n as int) =~= self.entries@);
        }
        self.entries = kept;
    }
}

/// Wraps one block in a vector.
fn block_as_vec(block: BlockInfo) -> (r: Vec<BlockInfo>)
    ensures
        r@ == seq![block],
{
    let mut r: Vec<BlockInfo> = Vec::new();
    r.push(block);
    assert(r@ =~= seq![block]);
    r
}

} // verus!
