//! Core data model: block metadata, ledger infos (commit proofs), ordered
//! blocks, block payloads, and the per-epoch verifier state.
//!
//! Identifiers (block ids, validator ids, transaction ids) are opaque
//! handles, carried as plain integers. An aggregated signature is modelled
//! as the strictly increasing list of validator ids that signed; it is
//! valid under a verifier when every signer is a known validator and the
//! signers form a strict two-thirds majority of the validator set.

use vstd::prelude::*;

verus! {

/// Metadata of a single block: where it sits in the chain and who its
/// parent is.
#[derive(Clone, Copy, Debug, PartialEq, Eq, Structural)]
pub struct BlockInfo {
    pub epoch: u64,
    pub round: u64,
    pub id: u64,
    pub parent_id: u64,
    pub timestamp_usecs: u64,
}

/// Lexicographic order on `(epoch, round)` positions: strictly less.
pub open spec fn key_lt(e1: u64, r1: u64, e2: u64, r2: u64) -> bool {
    e1 < e2 || (e1 == e2 && r1 < r2)
}

/// Lexicographic order on `(epoch, round)` positions: less or equal.
pub open spec fn key_le(e1: u64, r1: u64, e2: u64, r2: u64) -> bool {
    e1 < e2 || (e1 == e2 && r1 <= r2)
}

/// Compares two `(epoch, round)` positions lexicographically (strict).
pub fn exec_key_lt(e1: u64, r1: u64, e2: u64, r2: u64) -> (r: bool)
    ensures
        r == key_lt(e1, r1, e2, r2),
{
    e1 < e2 || (e1 == e2 && r1 < r2)
}

/// Compares two `(epoch, round)` positions lexicographically (non-strict).
pub fn exec_key_le(e1: u64, r1: u64, e2: u64, r2: u64) -> (r: bool)
    ensures
        r == key_le(e1, r1, e2, r2),
{
    e1 < e2 || (e1 == e2 && r1 <= r2)
}

/// Mathematical model of a [`LedgerInfo`].
pub struct LedgerInfoV {
    pub commit_info: BlockInfo,
    pub signers: Seq<u64>,
}

/// A signed ledger summary: the committed (or ordered) block it speaks of,
/// plus the validators whose aggregated signature backs it. Used both as a
/// commit proof and as the observer's root.
#[derive(Debug)]
pub struct LedgerInfo {
    pub commit_info: BlockInfo,
    pub signers: Vec<u64>,
}

impl View for LedgerInfo {
    type V = LedgerInfoV;

    open spec fn view(&self) -> LedgerInfoV {
        LedgerInfoV { commit_info: self.commit_info, signers: self.signers@ }
    }
}

impl LedgerInfo {
    /// Builds a ledger info over the given block, signed by the given
    /// validators.
    pub fn new(commit_info: BlockInfo, signers: Vec<u64>) -> (r: LedgerInfo)
        ensures
            r@.commit_info == commit_info,
            r@.signers == signers@,
    {
        LedgerInfo { commit_info, signers }
    }

    /// The epoch of the block this ledger info speaks of.
    pub fn epoch(&self) -> (r: u64)
        ensures
            r == self@.commit_info.epoch,
    {
        self.commit_info.epoch
    }

    /// The round of the block this ledger info speaks of.
    pub fn round(&self) -> (r: u64)
        ensures
            r == self@.commit_info.round,
    {
        self.commit_info.round
    }

    /// An independent copy with the same content.
    pub fn duplicate(&self) -> (r: LedgerInfo)
        ensures
            r@ == self@,
    {
        let mut signers: Vec<u64> = Vec::new();
        let mut i: usize = 0;
        while i < self.signers.len()
            invariant
                i <= self.signers.len(),
                signers@ == self.signers@.take(i as int),
            decreases self.signers.len() - i,
        {
            signers.push(self.signers[i]);
            assert(signers@ =~= self.signers@.take(i as int + 1));
            i = i + 1;
        }
        assert(signers@ =~= self.signers@);
        LedgerInfo { commit_info: self.commit_info, signers }
    }
}

/// A sequence of integers is strictly increasing.
pub open spec fn strictly_increasing(s: Seq<u64>) -> bool {
    forall|i: int, j: int| 0 <= i < j < s.len() ==> s[i] < s[j]
}

/// Mathematical model of an [`EpochState`].
pub struct EpochStateV {
    pub epoch: u64,
    pub validators: Seq<u64>,
}

/// The verification state of one epoch: the epoch number and the validator
/// set whose aggregated signatures are accepted during it. The validator
/// ids are kept strictly increasing.
#[derive(Debug)]
pub struct EpochState {
    pub epoch: u64,
    pub validators: Vec<u64>,
}

impl View for EpochState {
    type V = EpochStateV;

    open spec fn view(&self) -> EpochStateV {
        EpochStateV { epoch: self.epoch, validators: self.validators@ }
    }
}

/// An epoch state is well formed when its validator ids are strictly
/// increasing (so each validator appears once).
pub open spec fn epoch_state_wf(es: EpochStateV) -> bool {
    strictly_increasing(es.validators)
}

/// An aggregated signature, modelled as the list of signer ids, is valid
/// under a validator set when the signers are strictly increasing (each
/// signs once), every signer belongs to the set, and the signers form a
/// strict two-thirds majority of the set.
pub open spec fn signature_valid(signers: Seq<u64>, validators: Seq<u64>) -> bool {
    &&& strictly_increasing(signers)
    &&& forall|i: int| 0 <= i < signers.len() ==> validators.contains(#[trigger] signers[i])
    &&& 3 * signers.len() > 2 * validators.len()
}

/// Copies a vector of integers.
pub fn copy_u64s(v: &Vec<u64>) -> (r: Vec<u64>)
    ensures
        r@ == v@,
{
    let mut r: Vec<u64> = Vec::new();
    let mut i: usize = 0;
    while i < v.len()
        invariant
            i <= v.len(),
            r@ == v@.take(i as int),
        decreases v.len() - i,
    {
        r.push(v[i]);
        assert(r@ =~= v@.take(i as int + 1));
        i = i + 1;
    }
    assert(r@ =~= v@);
    r
}

/// Whether `x` occurs in `v`.
pub fn contains_u64(v: &Vec<u64>, x: u64) -> (r: bool)
    ensures
        r == v@.contains(x),
{
    let mut i: usize = 0;
    while i < v.len()
        invariant
            i <= v.len(),
            forall|j: int| 0 <= j < i ==> v@[j] != x,
        decreases v.len() - i,
    {
        if v[i] == x {
            return true;
        }
        i = i + 1;
    }
    false
}

impl EpochState {
    /// Builds an epoch state.
    pub fn new(epoch: u64, validators: Vec<u64>) -> (r: EpochState)
        ensures
            r@.epoch == epoch,
            r@.validators == validators@,
    {
        EpochState { epoch, validators }
    }

    /// An independent copy with the same content.
    pub fn duplicate(&self) -> (r: EpochState)
        ensures
            r@ == self@,
    {
        let mut validators: Vec<u64> = Vec::new();
        let mut i: usize = 0;
        while i < self.validators.len()
            invariant
                i <= self.validators.len(),
                validators@ == self.validators@.take(i as int),
            decreases self.validators.len() - i,
        {
            validators.push(self.validators[i]);
            assert(validators@ =~= self.validators@.take(i as int + 1));
            i = i + 1;
        }
        assert(validators@ =~= self.validators@);
        EpochState { epoch: self.epoch, validators }
    }

    /// Checks an aggregated signature under this epoch's validator set:
    /// strictly increasing signers, all of them validators, forming a
    /// strict two-thirds majority.
    pub fn verify_signature(&self, signers: &Vec<u64>) -> (r: bool)
        ensures
            r == signature_valid(signers@, self@.validators),
    {
        // Strictly increasing signer list
        let mut i: usize = 1;
        while i < signers.len()
            invariant
                1 <= i || signers@.len() == 0,
                i <= signers.len() || signers@.len() == 0,
                forall|p: int, q: int| 0 <= p < q < i ==> signers@[p] < signers@[q],
            decreases signers.len() - i,
        {
            if signers[i - 1] >= signers[i] {
                return false;
            }
            i = i + 1;
        }
        // Every signer is a validator
        let mut j: usize = 0;
        while j < signers.len()
            invariant
                j <= signers.len(),
                forall|p: int| 0 <= p < j ==> self.validators@.contains(#[trigger] signers@[p]),
            decreases signers.len() - j,
        {
            if !contains_u64(&self.validators, signers[j]) {
                return false;
            }
            j = j + 1;
        }
        // Strict two-thirds majority
        3 * (signers.len() as u128) > 2 * (self.validators.len() as u128)
    }
}

/// Mathematical model of an [`OrderedBlock`].
pub struct OrderedBlockV {
    pub blocks: Seq<BlockInfo>,
    pub ordered_proof: LedgerInfoV,
}

/// A non-empty run of blocks that passed ordering consensus, together with
/// an ordered proof: a ledger info over the last block of the run.
#[derive(Debug)]
pub struct OrderedBlock {
    pub blocks: Vec<BlockInfo>,
    pub ordered_proof: LedgerInfo,
}

impl View for OrderedBlock {
    type V = OrderedBlockV;

    open spec fn view(&self) -> OrderedBlockV {
        OrderedBlockV { blocks: self.blocks@, ordered_proof: self.ordered_proof@ }
    }
}

impl OrderedBlockV {
    /// The first block of the run.
    pub open spec fn first(self) -> BlockInfo {
        self.blocks[0]
    }

    /// The last block of the run.
    pub open spec fn last(self) -> BlockInfo {
        self.blocks[self.blocks.len() - 1]
    }

    /// The epoch of the ordered proof.
    pub open spec fn epoch(self) -> u64 {
        self.ordered_proof.commit_info.epoch
    }

    /// The round of the ordered proof.
    pub open spec fn round(self) -> u64 {
        self.ordered_proof.commit_info.round
    }
}

/// Structural validity of an ordered block: it is non-empty, the blocks
/// form a contiguous parent chain within one epoch with strictly
/// increasing rounds, and the ordered proof speaks of the last block.
pub open spec fn structurally_valid(ob: OrderedBlockV) -> bool {
    &&& ob.blocks.len() > 0
    &&& forall|i: int|
        0 < i < ob.blocks.len() ==> (#[trigger] ob.blocks[i]).parent_id == ob.blocks[i - 1].id
            && ob.blocks[i].epoch == ob.blocks[i - 1].epoch && ob.blocks[i].round > ob.blocks[i
            - 1].round
    &&& ob.ordered_proof.commit_info == ob.blocks[ob.blocks.len() - 1]
}

impl OrderedBlock {
    /// Builds an ordered block.
    pub fn new(blocks: Vec<BlockInfo>, ordered_proof: LedgerInfo) -> (r: OrderedBlock)
        ensures
            r@.blocks == blocks@,
            r@.ordered_proof == ordered_proof@,
    {
        OrderedBlock { blocks, ordered_proof }
    }

    /// The first block of the run.
    pub fn first_block(&self) -> (r: BlockInfo)
        requires
            self@.blocks.len() > 0,
        ensures
            r == self@.first(),
    {
        self.blocks[0]
    }

    /// The last block of the run.
    pub fn last_block(&self) -> (r: BlockInfo)
        requires
            self@.blocks.len() > 0,
        ensures
            r == self@.last(),
    {
        self.blocks[self.blocks.len() - 1]
    }

    /// An independent copy with the same content.
    pub fn duplicate(&self) -> (r: OrderedBlock)
        ensures
            r@ == self@,
    {
        let mut blocks: Vec<BlockInfo> = Vec::new();
        let mut i: usize = 0;
        while i < self.blocks.len()
            invariant
                i <= self.blocks.len(),
                blocks@ == self.blocks@.take(i as int),
            decreases self.blocks.len() - i,
        {
            blocks.push(self.blocks[i]);
            assert(blocks@ =~= self.blocks@.take(i as int + 1));
            i = i + 1;
        }
        assert(blocks@ =~= self.blocks@);
        let r = OrderedBlock { blocks, ordered_proof: self.ordered_proof.duplicate() };
        assert(r@ =~= self@);
        r
    }

    /// Structural verification: non-empty, contiguous parent chain within
    /// one epoch with strictly increasing rounds, and an ordered proof
    /// that speaks of the last block.
    pub fn verify_ordered_blocks(&self) -> (r: bool)
        ensures
            r == structurally_valid(self@),
    {
        if self.blocks.len() == 0 {
            return false;
        }
        let mut i: usize = 1;
        while i < self.blocks.len()
            invariant
                1 <= i,
                self.blocks@.len() > 0,
                forall|p: int|
                    0 < p < i ==> (#[trigger] self.blocks@[p]).parent_id == self.blocks@[p - 1].id
                        && self.blocks@[p].epoch == self.blocks@[p - 1].epoch
                        && self.blocks@[p].round > self.blocks@[p - 1].round,
            decreases self.blocks.len() - i,
        {
            let prev = self.blocks[i - 1];
            let cur = self.blocks[i];
            if cur.parent_id != prev.id || cur.epoch != prev.epoch || cur.round <= prev.round {
                return false;
            }
            i = i + 1;
        }
        let last = self.blocks[self.blocks.len() - 1];
        self.ordered_proof.commit_info == last
    }
}

/// Mathematical model of a [`BlockPayload`].
pub struct BlockPayloadV {
    pub block: BlockInfo,
    pub transactions: Seq<u64>,
    pub limit: Option<u64>,
}

/// A block's transaction payload, delivered independently of the ordered
/// block that references it.
#[derive(Debug)]
pub struct BlockPayload {
    pub block: BlockInfo,
    pub transactions: Vec<u64>,
    pub limit: Option<u64>,
}

impl View for BlockPayload {
    type V = BlockPayloadV;

    open spec fn view(&self) -> BlockPayloadV {
        BlockPayloadV {
            block: self.block,
            transactions: self.transactions@,
            limit: self.limit,
        }
    }
}

} // verus!
