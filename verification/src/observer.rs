//! The observer core: a state machine owning the payload store, the
//! pending block buffer, the root, the active subscription and the sync
//! handle. Inbound messages, sync notifications and progress ticks come
//! in as plain values; the effects the host must perform — finalizing
//! blocks, forwarding commit decisions, starting or aborting a sync job,
//! unsubscribing — come back out as [`Action`] values in order.

use vstd::prelude::*;

use crate::config::ObserverConfig;
use crate::errors::ObserverError;
use crate::metrics::ObserverMetrics;
use crate::payload_store::{PayloadData, PayloadStore};
use crate::pending_blocks::{has_key, PendingBlocks, PendingEntry, PendingEntryV};
use crate::subscription::{
    ranked_candidate_list, sort_peers_for_subscription, PeerInfo, Subscription,
};
use crate::types::{
    epoch_state_wf, key_le, key_lt, signature_valid, structurally_valid, BlockInfo, BlockPayload,
    EpochState, LedgerInfo, LedgerInfoV, OrderedBlock, OrderedBlockV,
};

verus! {

/// A direct-send message from the subscribed peer.
#[derive(Debug)]
pub enum DirectSendMessage {
    OrderedBlockMsg(OrderedBlock),
    CommitDecisionMsg(LedgerInfo),
    BlockPayloadMsg(BlockPayload),
}

/// Mathematical model of an [`Action`].
pub enum ActionV {
    FinalizeOrderedBlock(OrderedBlockV),
    ForwardCommitDecision(LedgerInfoV),
    StartSync(LedgerInfoV),
    AbortPriorSync,
    SendUnsubscribe(u64),
}

/// An effect the host must perform, in the order emitted: hand an
/// ordered block to the execution client, forward a commit decision,
/// spawn a sync job toward a target, abort the previous sync job, or
/// send an unsubscribe request to a peer.
#[derive(Debug)]
pub enum Action {
    FinalizeOrderedBlock(OrderedBlock),
    ForwardCommitDecision(LedgerInfo),
    StartSync(LedgerInfo),
    AbortPriorSync,
    SendUnsubscribe(u64),
}

impl View for Action {
    type V = ActionV;

    open spec fn view(&self) -> ActionV {
        match self {
            Action::FinalizeOrderedBlock(ob) => ActionV::FinalizeOrderedBlock(ob@),
            Action::ForwardCommitDecision(li) => ActionV::ForwardCommitDecision(li@),
            Action::StartSync(li) => ActionV::StartSync(li@),
            Action::AbortPriorSync => ActionV::AbortPriorSync,
            Action::SendUnsubscribe(p) => ActionV::SendUnsubscribe(*p),
        }
    }
}

/// The views of a list of actions, in order.
pub open spec fn actions_view(v: Seq<Action>) -> Seq<ActionV> {
    v.map_values(|a: Action| a@)
}

/// Each entry's first block is the child of the previous entry's last
/// block.
pub open spec fn entries_parent_chained(s: Seq<PendingEntryV>) -> bool {
    forall|i: int|
        0 < i < s.len() ==> (#[trigger] s[i]).block.first().parent_id == s[i - 1].block.last().id
}

/// The actions a drain of `s` emits, in order: each entry's block is
/// finalized, followed by its commit decision when one is attached.
pub open spec fn drain_actions(s: Seq<PendingEntryV>) -> Seq<ActionV>
    decreases s.len(),
{
    if s.len() == 0 {
        Seq::empty()
    } else {
        drain_actions(s.drop_last()) + (match s.last().commit_decision {
            Some(d) => seq![
                ActionV::FinalizeOrderedBlock(s.last().block),
                ActionV::ForwardCommitDecision(d),
            ],
            None => seq![ActionV::FinalizeOrderedBlock(s.last().block)],
        })
    }
}

/// Emits the drain actions for the given entries, in order.
fn drain_entries(entries: &Vec<PendingEntry>) -> (actions: Vec<Action>)
    ensures
        actions_view(actions@) == drain_actions(entries@.map_values(|e: PendingEntry| e@)),
{
    let mut actions: Vec<Action> = Vec::new();
    proof {
        assert(entries@.map_values(|e: PendingEntry| e@).take(0) =~= Seq::<PendingEntryV>::empty());
        assert(actions_view(actions@) =~= Seq::<ActionV>::empty());
    }
    let mut i: usize = 0;
    while i < entries.len()
        invariant
            i <= entries@.len(),
            actions_view(actions@) == drain_actions(
                entries@.map_values(|e: PendingEntry| e@).take(i as int),
            ),
        decreases entries@.len() - i,
    {
        let ghost views = entries@.map_values(|e: PendingEntry| e@);
        let ghost prev = actions_view(actions@);
        proof {
            assert(views.take(i as int + 1).drop_last() =~= views.take(i as int));
            assert(views.take(i as int + 1).last() == views[i as int]);
        }
        let e = &entries[i];
        assert(e@ == views[i as int]);
        actions.push(Action::FinalizeOrderedBlock(e.block.duplicate()));
        match &e.commit_decision {
            Some(d) => {
                actions.push(Action::ForwardCommitDecision(d.duplicate()));
                proof {
                    assert(actions_view(actions@) =~= prev + seq![
                        ActionV::FinalizeOrderedBlock(views[i as int].block),
                        ActionV::ForwardCommitDecision(views[i as int].commit_decision.unwrap()),
                    ]);
                }
            },
            None => {
                proof {
                    assert(actions_view(actions@) =~= prev + seq![
                        ActionV::FinalizeOrderedBlock(views[i as int].block),
                    ]);
                }
            },
        }
        i = i + 1;
    }
    proof {
        assert(entries@.map_values(|e: PendingEntry| e@).take(entries@.len() as int)
            =~= entries@.map_values(|e: PendingEntry| e@));
    }
    actions
}

/// Checks that the notified epoch and round match the current root.
pub fn check_root_epoch_and_round(root: &LedgerInfo, epoch: u64, round: u64) -> (r: bool)
    ensures
        r == (root@.commit_info.epoch == epoch && root@.commit_info.round == round),
{
    root.commit_info.epoch == epoch && root.commit_info.round == round
}

/// Everything the host needs to start a new epoch on the execution
/// client, beside the installed epoch state itself.
#[derive(Clone, Copy, Debug, PartialEq, Eq, Structural)]
pub struct EpochStartSetup {
    pub epoch: u64,
    pub consensus_config: crate::reconfig::ConsensusConfig,
    pub execution_config: crate::reconfig::ExecutionConfig,
    pub randomness_config: crate::reconfig::RandomnessConfig,
    pub payload_manager: crate::reconfig::PayloadManagerKind,
}

/// The outcome of a sync-completion notification: stale notifications
/// are ignored; a completion beyond the installed epoch needs the host
/// to end the epoch and deliver the next reconfiguration; a completion
/// within it drains the buffer.
#[derive(Debug)]
pub enum SyncNotificationOutcome {
    Ignored,
    EpochChangeRequired,
    Completed(Vec<Action>),
}

/// What a progress tick decided: the unsubscribe to fire, if a
/// subscription was terminated, and the ranked candidate list to walk
/// with subscribe requests, if a new subscription is needed.
#[derive(Debug)]
pub struct TickOutcome {
    pub actions: Vec<Action>,
    pub candidates: Option<Vec<PeerInfo>>,
}

/// What becomes of an inbound subscription request from a downstream
/// peer: the observer never answers it itself.
#[derive(Clone, Copy, Debug, PartialEq, Eq, Structural)]
pub enum RequestOutcome {
    /// The request cannot be answered (no response channel) or there is
    /// no publisher to serve it.
    Dropped,
    /// The request goes to the publisher collaborator verbatim.
    ForwardToPublisher,
}

/// The first health failure of a subscription against a snapshot of the
/// clock, the local storage version and the connected peers — checked in
/// order: connectedness, timeout, storage progress, peer optimality.
pub open spec fn spec_health_failure(
    s: Subscription,
    now_ms: u64,
    db_version: u64,
    peers: Seq<PeerInfo>,
) -> Option<ObserverError> {
    if !crate::subscription::spec_peer_connected(peers, s.peer_id) {
        Some(ObserverError::SubscriptionDisconnected)
    } else if now_ms - s.last_message_time_ms > s.config.subscription_timeout_ms {
        Some(ObserverError::SubscriptionTimeout)
    } else if db_version <= s.highest_synced_version && now_ms - s.last_progress_check_time_ms
        >= s.config.db_progress_check_interval_ms {
        Some(ObserverError::SubscriptionProgressStopped)
    } else if ({
        let me = peers.filter(|q: PeerInfo| q.peer_id == s.peer_id);
        me.len() == 0 || crate::subscription::better_ranked_count(peers, me[0])
            >= s.config.max_concurrent_subscriptions
    }) {
        Some(ObserverError::SubscriptionSuboptimal)
    } else {
        None
    }
}

/// What a healthy tick leaves of the subscription: an advanced storage
/// version refreshes the progress sample.
pub open spec fn spec_subscription_after_health(
    s: Subscription,
    now_ms: u64,
    db_version: u64,
) -> Subscription {
    if db_version > s.highest_synced_version {
        Subscription {
            highest_synced_version: db_version,
            last_progress_check_time_ms: now_ms,
            ..s
        }
    } else {
        s
    }
}

/// The kind of a direct-send message, for the received-message counters.
pub open spec fn spec_message_kind(m: DirectSendMessage) -> crate::metrics::MessageKind {
    match m {
        DirectSendMessage::OrderedBlockMsg(_) => crate::metrics::MessageKind::OrderedBlockKind,
        DirectSendMessage::CommitDecisionMsg(_) => crate::metrics::MessageKind::CommitDecisionKind,
        DirectSendMessage::BlockPayloadMsg(_) => crate::metrics::MessageKind::BlockPayloadKind,
    }
}

/// Everything processing a block payload does to a state: the payload is
/// stored under its block id and nothing else moves.
pub open spec fn block_payload_outcome(
    pre: ConsensusObserver,
    post: ConsensusObserver,
    payload: crate::types::BlockPayloadV,
) -> bool {
    &&& post.wf()
    &&& post.payload_store.spec_get(payload.block.id) == Some(
        PayloadData { transactions: payload.transactions, limit: payload.limit },
    )
    &&& forall|k: u64|
        k != payload.block.id ==> post.payload_store.spec_get(k) == pre.payload_store.spec_get(k)
    &&& post.config == pre.config
    &&& post.epoch_state == pre.epoch_state
    &&& post.root == pre.root
    &&& post.pending_blocks == pre.pending_blocks
    &&& post.sync_target == pre.sync_target
    &&& post.active_subscription == pre.active_subscription
    &&& post.metrics == pre.metrics
    &&& (pre.chained() ==> post.chained())
}

/// Everything processing an ordered block does to a state: structural
/// and proof verification, the parent-chain gate, buffering, and the
/// immediate finalize when verified outside sync mode.
pub open spec fn ordered_block_outcome(
    pre: ConsensusObserver,
    post: ConsensusObserver,
    ob: OrderedBlockV,
    acts: Seq<ActionV>,
) -> bool {
    &&& post.wf()
    &&& post.config == pre.config
    &&& post.epoch_state == pre.epoch_state
    &&& post.root == pre.root
    &&& post.payload_store == pre.payload_store
    &&& post.sync_target == pre.sync_target
    &&& post.active_subscription == pre.active_subscription
    &&& post.metrics == pre.metrics
    &&& (pre.chained() ==> post.chained())
    &&& ({
        let cur = pre.spec_current_epoch();
        let sig_ok = signature_valid(ob.ordered_proof.signers, pre.spec_validators());
        let lk = pre.spec_last_known_block();
        let verified = ob.ordered_proof.commit_info.epoch == cur && sig_ok;
        let accepted = structurally_valid(ob) && !(ob.ordered_proof.commit_info.epoch == cur
            && !sig_ok) && ob.first().parent_id == lk.id && key_lt(
            lk.epoch,
            lk.round,
            ob.ordered_proof.commit_info.epoch,
            ob.ordered_proof.commit_info.round,
        );
        &&& (!accepted ==> post.pending_blocks@ == pre.pending_blocks@ && acts
            == Seq::<ActionV>::empty())
        &&& (accepted ==> {
            let entry = PendingEntryV {
                block: ob,
                verified: verified,
                commit_decision: None::<LedgerInfoV>,
            };
            &&& (pre.pending_blocks@.len() < pre.config.max_pending_blocks
                ==> post.pending_blocks@ == pre.pending_blocks@.push(entry))
            &&& (pre.pending_blocks@.len() >= pre.config.max_pending_blocks
                ==> post.pending_blocks@ == pre.pending_blocks@)
            &&& (verified && !pre.in_sync_mode() ==> acts == seq![
                ActionV::FinalizeOrderedBlock(ob),
            ])
            &&& (!(verified && !pre.in_sync_mode()) ==> acts == Seq::<ActionV>::empty())
        })
    })
}

/// Everything processing a commit decision does to a state: signature
/// verification, the attach-and-forward of a decision whose verified
/// entry has all payloads, the leap into sync mode, or nothing.
pub open spec fn commit_decision_outcome(
    pre: ConsensusObserver,
    post: ConsensusObserver,
    cd: LedgerInfoV,
    acts: Seq<ActionV>,
) -> bool {
    &&& post.wf()
    &&& post.config == pre.config
    &&& post.epoch_state == pre.epoch_state
    &&& post.payload_store == pre.payload_store
    &&& post.active_subscription == pre.active_subscription
    &&& post.metrics == pre.metrics
    &&& (pre.chained() ==> post.chained())
    &&& key_le(
        pre.root@.commit_info.epoch,
        pre.root@.commit_info.round,
        post.root@.commit_info.epoch,
        post.root@.commit_info.round,
    )
    &&& ({
        let cur = pre.spec_current_epoch();
        let sig_ok = signature_valid(cd.signers, pre.spec_validators());
        let lk = pre.spec_last_known_block();
        let drop_invalid = cd.commit_info.epoch == cur && !sig_ok;
        let attach = cd.commit_info.epoch == cur && sig_ok && pre.spec_attachable(cd);
        let leap = !drop_invalid && !attach && key_lt(
            lk.epoch,
            lk.round,
            cd.commit_info.epoch,
            cd.commit_info.round,
        );
        let unchanged = post.root == pre.root && post.pending_blocks@ == pre.pending_blocks@
            && post.sync_target == pre.sync_target;
        &&& (drop_invalid ==> unchanged && acts == Seq::<ActionV>::empty())
        &&& (attach ==> (exists|i: int|
            #![trigger pre.pending_blocks@[i]]
            {
                let buf = pre.pending_blocks@;
                0 <= i < buf.len() && buf[i].epoch() == cd.commit_info.epoch && buf[i].round()
                    == cd.commit_info.round && post.pending_blocks@ == buf.update(
                    i,
                    PendingEntryV {
                        block: buf[i].block,
                        verified: buf[i].verified,
                        commit_decision: Some(cd),
                    },
                )
            }) && post.root == pre.root && post.sync_target == pre.sync_target && acts == (
        if pre.in_sync_mode() {
            Seq::<ActionV>::empty()
        } else {
            seq![ActionV::ForwardCommitDecision(cd)]
        }))
        &&& (leap ==> post.root@ == cd && key_lt(
            pre.root@.commit_info.epoch,
            pre.root@.commit_info.round,
            cd.commit_info.epoch,
            cd.commit_info.round,
        ) && post.pending_blocks@.len() == 0 && post.sync_target == Some(
            SyncTarget { epoch: cd.commit_info.epoch, round: cd.commit_info.round },
        ) && acts == (if pre.in_sync_mode() {
            seq![ActionV::StartSync(cd), ActionV::AbortPriorSync]
        } else {
            seq![ActionV::StartSync(cd)]
        }))
        &&& (!drop_invalid && !attach && !leap ==> unchanged && acts == Seq::<ActionV>::empty())
    })
}

/// The `(epoch, round)` a running sync job is catching up to. Its
/// presence is what "sync mode" means; replacing it aborts the prior job.
#[derive(Clone, Copy, Debug, PartialEq, Eq, Structural)]
pub struct SyncTarget {
    pub epoch: u64,
    pub round: u64,
}

/// The observer core state machine.
#[derive(Debug)]
pub struct ConsensusObserver {
    /// The observer's configuration.
    pub config: ObserverConfig,
    /// The verification state of the current epoch; absent until the
    /// first reconfiguration notification is processed.
    pub epoch_state: Option<EpochState>,
    /// The latest committed ledger info known locally; monotonic in
    /// `(epoch, round)`.
    pub root: LedgerInfo,
    /// Block transaction payloads, keyed by block id.
    pub payload_store: PayloadStore,
    /// Ordered blocks waiting for commit, sorted by `(epoch, round)`.
    pub pending_blocks: PendingBlocks,
    /// The running sync job's target; present exactly in sync mode.
    pub sync_target: Option<SyncTarget>,
    /// The one active upstream subscription, if any.
    pub active_subscription: Option<Subscription>,
    /// Subscription metrics.
    pub metrics: ObserverMetrics,
}

impl ConsensusObserver {
    /// The epoch state has been installed.
    pub open spec fn epoch_ready(self) -> bool {
        self.epoch_state is Some
    }

    /// A sync job is running.
    pub open spec fn in_sync_mode(self) -> bool {
        self.sync_target is Some
    }

    /// The installed epoch.
    pub open spec fn spec_current_epoch(self) -> u64 {
        match self.epoch_state {
            Some(es) => es@.epoch,
            None => 0,
        }
    }

    /// The installed epoch's validator set.
    pub open spec fn spec_validators(self) -> Seq<u64> {
        match self.epoch_state {
            Some(es) => es@.validators,
            None => Seq::empty(),
        }
    }

    /// The last known block: the last block of the highest-keyed pending
    /// entry, or the root's commit info when nothing is pending.
    pub open spec fn spec_last_known_block(self) -> BlockInfo {
        if self.pending_blocks@.len() > 0 {
            self.pending_blocks@.last().block.last()
        } else {
            self.root@.commit_info
        }
    }

    /// The state invariant: the component stores are well formed and
    /// share the configured depth bound; the installed epoch state is
    /// well formed; every pending entry sits strictly above the root;
    /// the root's epoch is at most the installed epoch unless a sync job
    /// is moving the root ahead; and an entry is verified exactly when
    /// it belongs to the installed epoch — a verified entry's proof was
    /// checked under that epoch's validator set, while entries of other
    /// epochs wait unverified.
    pub open spec fn wf(self) -> bool {
        &&& self.payload_store.wf()
        &&& self.pending_blocks.wf()
        &&& self.pending_blocks.max_pending == self.config.max_pending_blocks
        &&& match self.epoch_state {
            Some(es) => epoch_state_wf(es@),
            None => true,
        }
        &&& forall|i: int|
            0 <= i < self.pending_blocks@.len() ==> key_lt(
                self.root@.commit_info.epoch,
                self.root@.commit_info.round,
                (#[trigger] self.pending_blocks@[i]).epoch(),
                self.pending_blocks@[i].round(),
            )
        &&& match self.epoch_state {
            Some(es) => self.root@.commit_info.epoch <= es@.epoch || self.sync_target is Some,
            None => true,
        }
        &&& forall|i: int|
            0 <= i < self.pending_blocks@.len() ==> ((#[trigger] self.pending_blocks@[i]).verified
                ==> (self.epoch_state is Some && self.pending_blocks@[i].epoch()
                == self.spec_current_epoch() && signature_valid(
                self.pending_blocks@[i].block.ordered_proof.signers,
                self.spec_validators(),
            )))
        &&& forall|i: int|
            0 <= i < self.pending_blocks@.len() ==> (!(#[trigger] self.pending_blocks@[i]).verified
                ==> (self.epoch_state is Some ==> self.pending_blocks@[i].epoch()
                != self.spec_current_epoch()))
    }

    /// The pending buffer forms one parent chain anchored at the root:
    /// each entry's first block is the child of the previous entry's
    /// last block, and the first entry's first block is the child of the
    /// root's block.
    pub open spec fn chained(self) -> bool {
        &&& entries_parent_chained(self.pending_blocks@)
        &&& self.pending_blocks@.len() > 0 ==> self.pending_blocks@[0].block.first().parent_id
            == self.root@.commit_info.id
    }

    /// A fresh observer over the latest ledger info read from storage.
    pub fn new(config: ObserverConfig, root: LedgerInfo) -> (r: ConsensusObserver)
        ensures
            r.wf(),
            r.chained(),
            r.config == config,
            (r.epoch_state is None),
            r.root@ == root@,
            r.pending_blocks@.len() == 0,
            r.payload_store.spec_len() == 0,
            forall|id: u64| r.payload_store.spec_get(id) is None,
            (r.sync_target is None),
            (r.active_subscription is None),
            r.metrics == (ObserverMetrics {
                active_subscriptions: 0,
                created_subscriptions: 0,
                terminated_disconnected: 0,
                terminated_timeout: 0,
                terminated_progress_stopped: 0,
                terminated_suboptimal: 0,
                received_ordered_blocks: 0,
                received_commit_decisions: 0,
                received_block_payloads: 0,
            }),
    {
        ConsensusObserver {
            config,
            epoch_state: None,
            root,
            payload_store: PayloadStore::new(),
            pending_blocks: PendingBlocks::new(config.max_pending_blocks),
            sync_target: None,
            active_subscription: None,
            metrics: ObserverMetrics::new(),
        }
    }

    /// The installed epoch state. Callers must not ask before the first
    /// epoch has started.
    pub fn get_epoch_state(&self) -> (r: &EpochState)
        requires
            self.epoch_ready(),
        ensures
            r@.epoch == self.spec_current_epoch(),
            r@.validators == self.spec_validators(),
    {
        match &self.epoch_state {
            Some(es) => es,
            None => {
                proof {
                    assert(false);
                }
                unreached()
            },
        }
    }

    /// The last known block: the last pending block, or the root's
    /// commit info when nothing is pending.
    pub fn get_last_block(&self) -> (r: BlockInfo)
        requires
            self.pending_blocks.wf(),
        ensures
            r == self.spec_last_known_block(),
    {
        match self.pending_blocks.get_last_pending_block() {
            Some(b) => b,
            None => self.root.commit_info,
        }
    }

    /// Stores an incoming block payload. Payload contents are accepted
    /// from the subscribed peer as delivered; verification of payloads
    /// is a host-side hook.
    pub fn process_block_payload(&mut self, payload: BlockPayload)
        requires
            old(self).wf(),
        ensures
            block_payload_outcome(*old(self), *final(self), payload@),
    {
        self.payload_store.insert_block_payload(
            payload.block,
            payload.transactions,
            payload.limit,
        );
    }

    /// Handles an incoming ordered block: structural verification, proof
    /// verification under the current epoch (future-epoch blocks are
    /// buffered unverified), the parent-chain gate against the last
    /// known block (the key must advance past it; blocks that do not are
    /// dropped as out of order), insertion into the pending buffer, and
    /// — when the proof verified and no sync job is running — immediate
    /// finalization.
    pub fn process_ordered_block(&mut self, ordered_block: OrderedBlock) -> (actions: Vec<Action>)
        requires
            old(self).wf(),
            old(self).epoch_ready(),
        ensures
            ordered_block_outcome(*old(self), *final(self), ordered_block@, actions_view(actions@)),
    {
        let actions: Vec<Action> = Vec::new();
        proof {
            assert(actions_view(actions@) =~= Seq::<ActionV>::empty());
        }
        // Structural verification
        if !ordered_block.verify_ordered_blocks() {
            return actions;
        }
        // Proof verification under the current epoch
        let proof_epoch = ordered_block.ordered_proof.commit_info.epoch;
        let (cur_epoch, sig_ok) = match &self.epoch_state {
            Some(es) => (es.epoch, es.verify_signature(&ordered_block.ordered_proof.signers)),
            None => (0, false),
        };
        let verified = proof_epoch == cur_epoch && sig_ok;
        if proof_epoch == cur_epoch && !sig_ok {
            return actions;
        }
        // Parent chain gate: the block must extend the last known block
        let last_block = self.get_last_block();
        let proof_round = ordered_block.ordered_proof.commit_info.round;
        if !(ordered_block.first_block().parent_id == last_block.id && crate::types::exec_key_lt(
            last_block.epoch,
            last_block.round,
            proof_epoch,
            proof_round,
        )) {
            return actions;
        }
        // Insert into the pending buffer
        let ghost pre = *self;
        proof {
            // Every buffered key sits below the incoming key, so the key
            // is fresh and, capacity allowing, the insert appends.
            assert forall|i: int| 0 <= i < self.pending_blocks@.len() implies key_lt(
                (#[trigger] self.pending_blocks@[i]).epoch(),
                self.pending_blocks@[i].round(),
                proof_epoch,
                proof_round,
            ) by {
                let n = self.pending_blocks@.len();
                assert(self.pending_blocks@.last().epoch() == last_block.epoch
                    && self.pending_blocks@.last().round() == last_block.round);
                if i < n - 1 {
                    assert(key_lt(
                        self.pending_blocks@[i].epoch(),
                        self.pending_blocks@[i].round(),
                        self.pending_blocks@[n - 1].epoch(),
                        self.pending_blocks@[n - 1].round(),
                    ));
                }
            }
            assert(!has_key(self.pending_blocks@, proof_epoch, proof_round));
        }
        self.pending_blocks.insert_ordered_block(ordered_block.duplicate(), verified);
        proof {
            if pre.pending_blocks@.len() < pre.config.max_pending_blocks {
                assert(self.pending_blocks@ == pre.pending_blocks@.push(
                    PendingEntryV {
                        block: ordered_block@,
                        verified: verified,
                        commit_decision: None,
                    },
                ));
            } else {
                assert(self.pending_blocks@ == pre.pending_blocks@);
            }
            // The invariant survives: the fresh entry sits above the root.
            assert forall|i: int| 0 <= i < self.pending_blocks@.len() implies key_lt(
                self.root@.commit_info.epoch,
                self.root@.commit_info.round,
                (#[trigger] self.pending_blocks@[i]).epoch(),
                self.pending_blocks@[i].round(),
            ) by {
                if i < pre.pending_blocks@.len() {
                    assert(self.pending_blocks@[i] == pre.pending_blocks@[i]);
                } else {
                    if pre.pending_blocks@.len() > 0 {
                        let m = pre.pending_blocks@.len() - 1;
                        assert(key_lt(
                            self.root@.commit_info.epoch,
                            self.root@.commit_info.round,
                            pre.pending_blocks@[m].epoch(),
                            pre.pending_blocks@[m].round(),
                        ));
                    }
                }
            }
        }
        // Finalize right away when verified and not syncing
        let mut actions = actions;
        if verified && self.sync_target.is_none() {
            actions.push(Action::FinalizeOrderedBlock(ordered_block));
            proof {
                assert(actions_view(actions@) =~= seq![
                    ActionV::FinalizeOrderedBlock(ordered_block@),
                ]);
            }
        }
        actions
    }

    /// Whether a verified pending entry sits at the decision's key with
    /// every payload of its blocks present in the payload store.
    pub open spec fn spec_attachable(self, cd: LedgerInfoV) -> bool {
        exists|i: int|
            0 <= i < self.pending_blocks@.len() && (#[trigger] self.pending_blocks@[i]).epoch()
                == cd.commit_info.epoch && self.pending_blocks@[i].round() == cd.commit_info.round
                && self.pending_blocks@[i].verified && self.spec_all_payloads_present(
                self.pending_blocks@[i].block.blocks,
            )
    }

    /// Every block of `blocks` has its payload stored.
    pub open spec fn spec_all_payloads_present(self, blocks: Seq<BlockInfo>) -> bool {
        forall|j: int|
            0 <= j < blocks.len() ==> self.payload_store.contains_id(#[trigger] blocks[j].id)
    }

    /// Handles an incoming commit decision. A decision of the current
    /// epoch is signature-checked and dropped if invalid. A checked
    /// decision attaches to the verified pending entry at its key when
    /// that entry's payloads are all present, and — outside sync mode —
    /// is forwarded to the execution client. A decision that cannot be
    /// attached and sits above the last known block starts a sync job:
    /// the root jumps to the decision, the buffer is pruned, the new
    /// job is spawned and any prior one aborted.
    #[verifier::rlimit(100)]
    pub fn process_commit_decision(&mut self, commit_decision: LedgerInfo) -> (actions: Vec<
        Action,
    >)
        requires
            old(self).wf(),
            old(self).epoch_ready(),
        ensures
            commit_decision_outcome(
                *old(self),
                *final(self),
                commit_decision@,
                actions_view(actions@),
            ),
    {
        let mut actions: Vec<Action> = Vec::new();
        proof {
            assert(actions_view(actions@) =~= Seq::<ActionV>::empty());
        }
        let cd_epoch = commit_decision.commit_info.epoch;
        let cd_round = commit_decision.commit_info.round;
        let (cur_epoch, sig_ok) = match &self.epoch_state {
            Some(es) => (es.epoch, es.verify_signature(&commit_decision.signers)),
            None => (0, false),
        };
        if cd_epoch == cur_epoch {
            // Verify the commit decision's signature
            if !sig_ok {
                return actions;
            }
            // Try to attach the decision to a verified pending entry
            let found = self.pending_blocks.find_entry(cd_epoch, cd_round);
            let attach = match found {
                Some(i) => {
                    let entry = self.pending_blocks.entry_at(i);
                    entry.verified && self.payload_store.all_payloads_exist(&entry.block.blocks)
                },
                None => false,
            };
            proof {
                // The buffer's keys are strictly sorted, so the entry at
                // the decision's key is unique and the scan's verdict
                // matches the specification.
                if attach {
                    assert(self.spec_attachable(commit_decision@));
                } else {
                    if self.spec_attachable(commit_decision@) {
                        let w = choose|w: int|
                            0 <= w < self.pending_blocks@.len() && (
                            #[trigger] self.pending_blocks@[w]).epoch() == cd_epoch
                                && self.pending_blocks@[w].round() == cd_round
                                && self.pending_blocks@[w].verified
                                && self.spec_all_payloads_present(
                                self.pending_blocks@[w].block.blocks,
                            );
                        match found {
                            Some(i) => {
                                if w != i as int {
                                    assert(key_lt(
                                        self.pending_blocks@[if w < i as int {
                                            w
                                        } else {
                                            i as int
                                        }].epoch(),
                                        self.pending_blocks@[if w < i as int {
                                            w
                                        } else {
                                            i as int
                                        }].round(),
                                        self.pending_blocks@[if w < i as int {
                                            i as int
                                        } else {
                                            w
                                        }].epoch(),
                                        self.pending_blocks@[if w < i as int {
                                            i as int
                                        } else {
                                            w
                                        }].round(),
                                    ));
                                }
                                assert(false);
                            },
                            None => {
                                assert(has_key(self.pending_blocks@, cd_epoch, cd_round));
                                assert(false);
                            },
                        }
                    }
                }
            }
            if attach {
                let ghost cdv = commit_decision@;
                self.pending_blocks.update_commit_decision(&commit_decision);
                if self.sync_target.is_none() {
                    actions.push(Action::ForwardCommitDecision(commit_decision));
                    proof {
                        assert(actions_view(actions@) =~= seq![
                            ActionV::ForwardCommitDecision(cdv),
                        ]);
                    }
                }
                return actions;
            }
        }
        // No attach: a decision above the last known block starts a sync
        let last_block = self.get_last_block();
        if crate::types::exec_key_lt(last_block.epoch, last_block.round, cd_epoch, cd_round) {
            let ghost pre = *self;
            self.root = commit_decision.duplicate();
            self.pending_blocks.remove_blocks_for_commit(cd_epoch, cd_round);
            proof {
                // The decision's key tops every buffered key, so the
                // prune empties the buffer.
                if self.pending_blocks@.len() > 0 {
                    let n = pre.pending_blocks@.len() as int;
                    let c = choose|c: int|
                        0 <= c <= n && self.pending_blocks@ == pre.pending_blocks@.subrange(c, n)
                            && (forall|j: int|
                            0 <= j < c ==> key_le(
                                (#[trigger] pre.pending_blocks@[j]).epoch(),
                                pre.pending_blocks@[j].round(),
                                cd_epoch,
                                cd_round,
                            )) && (forall|j: int|
                            c <= j < n ==> key_lt(
                                cd_epoch,
                                cd_round,
                                (#[trigger] pre.pending_blocks@[j]).epoch(),
                                pre.pending_blocks@[j].round(),
                            ));
                    assert(c < n);
                    assert(key_lt(
                        cd_epoch,
                        cd_round,
                        pre.pending_blocks@[c].epoch(),
                        pre.pending_blocks@[c].round(),
                    ));
                    // Yet every buffered key sat at or below the last
                    // known block, which the decision strictly tops.
                    assert(pre.pending_blocks@[n - 1].epoch() == last_block.epoch
                        && pre.pending_blocks@[n - 1].round() == last_block.round);
                    if c < n - 1 {
                        assert(key_lt(
                            pre.pending_blocks@[c].epoch(),
                            pre.pending_blocks@[c].round(),
                            pre.pending_blocks@[n - 1].epoch(),
                            pre.pending_blocks@[n - 1].round(),
                        ));
                    }
                    assert(false);
                }
                // The decision also strictly tops the old root: the last
                // known block sits at or above the root and below the
                // decision.
                assert(key_lt(
                    pre.root@.commit_info.epoch,
                    pre.root@.commit_info.round,
                    cd_epoch,
                    cd_round,
                )) by {
                    if pre.pending_blocks@.len() > 0 {
                        let m = pre.pending_blocks@.len() as int;
                        assert(pre.pending_blocks@[m - 1].epoch() == last_block.epoch
                            && pre.pending_blocks@[m - 1].round() == last_block.round);
                        assert(key_lt(
                            pre.root@.commit_info.epoch,
                            pre.root@.commit_info.round,
                            pre.pending_blocks@[m - 1].epoch(),
                            pre.pending_blocks@[m - 1].round(),
                        ));
                    }
                }
            }
            let had_prior = self.sync_target.is_some();
            self.sync_target = Some(SyncTarget { epoch: cd_epoch, round: cd_round });
            let ghost cdv = commit_decision@;
            actions.push(Action::StartSync(commit_decision));
            if had_prior {
                actions.push(Action::AbortPriorSync);
                proof {
                    assert(actions_view(actions@) =~= seq![
                        ActionV::StartSync(cdv),
                        ActionV::AbortPriorSync,
                    ]);
                }
            } else {
                proof {
                    assert(actions_view(actions@) =~= seq![ActionV::StartSync(cdv)]);
                }
            }
            return actions;
        }
        actions
    }


    /// The commit callback, invoked by the execution client after a
    /// commit: removes the committed blocks' payloads, prunes the
    /// pending buffer up to the committed ledger info, and moves the
    /// root forward — only within the root's own epoch and only to a
    /// higher round, so the root never races backwards against a
    /// concurrent state sync.
    pub fn process_commit_callback(
        &mut self,
        committed_blocks: &Vec<BlockInfo>,
        ledger_info: LedgerInfo,
    )
        requires
            old(self).wf(),
        ensures
            final(self).wf(),
            final(self).config == old(self).config,
            final(self).epoch_state == old(self).epoch_state,
            final(self).sync_target == old(self).sync_target,
            final(self).active_subscription == old(self).active_subscription,
            final(self).metrics == old(self).metrics,
            forall|k: u64|
                final(self).payload_store.spec_get(k) == (if crate::payload_store::id_in_blocks(
                    committed_blocks@,
                    k,
                ) {
                    None::<PayloadData>
                } else {
                    old(self).payload_store.spec_get(k)
                }),
            exists|c: int|
                0 <= c <= old(self).pending_blocks@.len() && final(self).pending_blocks@ == old(self).pending_blocks@.subrange(c, old(self).pending_blocks@.len() as int) && (forall|
                    j: int,
                |
                    0 <= j < c ==> key_le(
                        (#[trigger] old(self).pending_blocks@[j]).epoch(),
                        old(self).pending_blocks@[j].round(),
                        ledger_info@.commit_info.epoch,
                        ledger_info@.commit_info.round,
                    )) && (forall|j: int|
                    c <= j < old(self).pending_blocks@.len() ==> key_lt(
                        ledger_info@.commit_info.epoch,
                        ledger_info@.commit_info.round,
                        (#[trigger] old(self).pending_blocks@[j]).epoch(),
                        old(self).pending_blocks@[j].round(),
                    )),
            final(self).root@ == (if ledger_info@.commit_info.epoch == old(self).root@.commit_info.epoch && ledger_info@.commit_info.round > old(self).root@.commit_info.round {
                ledger_info@
            } else {
                old(self).root@
            }),
            key_le(
                old(self).root@.commit_info.epoch,
                old(self).root@.commit_info.round,
                final(self).root@.commit_info.epoch,
                final(self).root@.commit_info.round,
            ),
            old(self).chained() ==> entries_parent_chained(final(self).pending_blocks@),
    {
        let li_epoch = ledger_info.commit_info.epoch;
        let li_round = ledger_info.commit_info.round;
        // Remove the committed blocks' payloads
        self.payload_store.remove_blocks(committed_blocks);
        // Remove the committed blocks from the pending buffer
        let ghost pre_pending = self.pending_blocks@;
        self.pending_blocks.remove_blocks_for_commit(li_epoch, li_round);
        proof {
            let n = pre_pending.len() as int;
            let c = choose|c: int|
                0 <= c <= n && self.pending_blocks@ == pre_pending.subrange(c, n) && (forall|
                    j: int,
                |
                    0 <= j < c ==> key_le(
                        (#[trigger] pre_pending[j]).epoch(),
                        pre_pending[j].round(),
                        li_epoch,
                        li_round,
                    )) && (forall|j: int|
                    c <= j < n ==> key_lt(
                        li_epoch,
                        li_round,
                        (#[trigger] pre_pending[j]).epoch(),
                        pre_pending[j].round(),
                    ));
            assert forall|i: int| 0 <= i < self.pending_blocks@.len() implies self.pending_blocks@[i]
                == pre_pending[c + i] by {}
        }
        // Move the root forward within its own epoch
        if li_epoch == self.root.commit_info.epoch && li_round > self.root.commit_info.round {
            self.root = ledger_info;
        }
    }

    /// Handles a sync-completion notification for `(epoch, round)`.
    /// A notification that does not match the current root is stale and
    /// ignored. A matching one that crossed into a later epoch asks the
    /// host to end the epoch and deliver the next reconfiguration (see
    /// [`Self::complete_epoch_change`]). Otherwise the sync handle is
    /// dropped and every verified pending entry is drained to the
    /// execution client in key order, decisions included.
    pub fn process_sync_notification(&mut self, epoch: u64, round: u64) -> (r:
        SyncNotificationOutcome)
        requires
            old(self).wf(),
            old(self).epoch_ready(),
        ensures
            final(self).wf(),
            final(self).config == old(self).config,
            final(self).epoch_state == old(self).epoch_state,
            final(self).root == old(self).root,
            final(self).payload_store == old(self).payload_store,
            final(self).pending_blocks == old(self).pending_blocks,
            final(self).active_subscription == old(self).active_subscription,
            final(self).metrics == old(self).metrics,
            ({
                let matches_root = old(self).root@.commit_info.epoch == epoch && old(self).root@.commit_info.round == round;
                let cur = old(self).spec_current_epoch();
                &&& (!matches_root ==> (r is Ignored) && final(self).sync_target == old(self).sync_target)
                &&& (matches_root && epoch > cur ==> (r is EpochChangeRequired) && final(self).sync_target == old(self).sync_target)
                &&& (matches_root && epoch <= cur ==> (final(self).sync_target is None) && (
                r matches SyncNotificationOutcome::Completed(acts) && actions_view(acts@)
                    == drain_actions(
                    old(self).pending_blocks@.filter(|e: PendingEntryV| e.verified),
                )))
                &&& (matches_root && epoch == cur ==> verified_prefix(final(self).pending_blocks@))
            }),
    {
        // Stale notifications no longer match the root
        if !check_root_epoch_and_round(&self.root, epoch, round) {
            return SyncNotificationOutcome::Ignored;
        }
        // A completion beyond the installed epoch first needs a rollover
        let cur_epoch = match &self.epoch_state {
            Some(es) => es.epoch,
            None => 0,
        };
        if epoch > cur_epoch {
            return SyncNotificationOutcome::EpochChangeRequired;
        }
        // Drop the sync handle and drain the buffered blocks
        self.sync_target = None;
        proof {
            // Completing at the installed epoch, the verified entries
            // lead the buffer: every buffered key tops the root, whose
            // epoch is the installed one, so entries below a verified
            // (installed-epoch) entry are of the installed epoch too —
            // and entries of the installed epoch are verified.
            if epoch == cur_epoch {
                assert forall|i: int, j: int|
                    0 <= i < j < self.pending_blocks@.len() && (
                #[trigger] self.pending_blocks@[j]).verified implies (
                #[trigger] self.pending_blocks@[i]).verified by {
                    assert(self.pending_blocks@[j].epoch() == cur_epoch);
                    assert(key_lt(
                        self.root@.commit_info.epoch,
                        self.root@.commit_info.round,
                        self.pending_blocks@[i].epoch(),
                        self.pending_blocks@[i].round(),
                    ));
                    assert(key_lt(
                        self.pending_blocks@[i].epoch(),
                        self.pending_blocks@[i].round(),
                        self.pending_blocks@[j].epoch(),
                        self.pending_blocks@[j].round(),
                    ));
                    assert(self.pending_blocks@[i].epoch() == cur_epoch);
                }
            }
        }
        let drained = self.pending_blocks.get_all_verified_pending_blocks();
        let actions = drain_entries(&drained);
        SyncNotificationOutcome::Completed(actions)
    }

    /// Installs the first epoch a reconfiguration notification opens:
    /// the epoch state is set and the on-chain configs are decoded with
    /// defaulting, choosing the payload manager variant for the epoch.
    /// It is the startup half of epoch installation, before anything
    /// was buffered; rollovers go through
    /// [`Self::complete_epoch_change`].
    pub fn wait_for_epoch_start(&mut self, payload: &crate::reconfig::OnChainConfigPayload) -> (
        setup: EpochStartSetup)
        requires
            old(self).wf(),
            (payload.validator_set is Some),
            (match payload.validator_set {
                Some(ref v) => crate::types::strictly_increasing(v@),
                None => false,
            }),
            payload.epoch >= old(self).root@.commit_info.epoch,
            old(self).pending_blocks@.len() == 0,
        ensures
            final(self).wf(),
            final(self).config == old(self).config,
            final(self).root == old(self).root,
            final(self).payload_store == old(self).payload_store,
            final(self).pending_blocks == old(self).pending_blocks,
            final(self).sync_target == old(self).sync_target,
            final(self).active_subscription == old(self).active_subscription,
            final(self).metrics == old(self).metrics,
            final(self).spec_current_epoch() == payload.epoch,
            final(self).epoch_ready(),
            Some(final(self).spec_validators()) == (match payload.validator_set {
                Some(ref v) => Some(v@),
                None => None,
            }),
            setup == (EpochStartSetup {
                epoch: payload.epoch,
                consensus_config: (match payload.consensus_config {
                    Some(c) => c,
                    None => crate::reconfig::ConsensusConfig { quorum_store_enabled: true },
                }),
                execution_config: (match payload.execution_config {
                    Some(c) => c,
                    None => crate::reconfig::ExecutionConfig { version: 1 },
                }),
                randomness_config: crate::reconfig::spec_randomness_of(payload.randomness_config),
                payload_manager: (if (match payload.consensus_config {
                    Some(c) => c.quorum_store_enabled,
                    None => true,
                }) {
                    crate::reconfig::PayloadManagerKind::QuorumStoreBacked
                } else {
                    crate::reconfig::PayloadManagerKind::DirectMempool
                }),
            }),
    {
        let (epoch_state, consensus_config, execution_config, randomness_config) =
            crate::reconfig::extract_on_chain_configs(payload);
        self.epoch_state = Some(epoch_state);
        let payload_manager = crate::reconfig::choose_payload_manager(&consensus_config);
        EpochStartSetup {
            epoch: payload.epoch,
            consensus_config,
            execution_config,
            randomness_config,
            payload_manager,
        }
    }

    /// Finishes a sync completion that crossed an epoch boundary, after
    /// the host has ended the old epoch and received the next
    /// reconfiguration notification: the new epoch is installed, the
    /// buffered entries are re-verified under it (promoted or
    /// discarded), the sync handle is dropped, and every verified entry
    /// is drained to the execution client in key order.
    pub fn complete_epoch_change(&mut self, payload: &crate::reconfig::OnChainConfigPayload) -> (r:
        (EpochStartSetup, Vec<Action>))
        requires
            old(self).wf(),
            old(self).epoch_ready(),
            old(self).root@.commit_info.epoch > old(self).spec_current_epoch(),
            (payload.validator_set is Some),
            (match payload.validator_set {
                Some(ref v) => crate::types::strictly_increasing(v@),
                None => false,
            }),
            payload.epoch >= old(self).root@.commit_info.epoch,
        ensures
            final(self).wf(),
            final(self).config == old(self).config,
            final(self).root == old(self).root,
            final(self).payload_store == old(self).payload_store,
            final(self).active_subscription == old(self).active_subscription,
            final(self).metrics == old(self).metrics,
            (final(self).sync_target is None),
            final(self).epoch_ready(),
            final(self).spec_current_epoch() == payload.epoch,
            Some(final(self).spec_validators()) == (match payload.validator_set {
                Some(ref v) => Some(v@),
                None => None,
            }),
            final(self).pending_blocks@ == old(self).pending_blocks@.filter(
                |e: PendingEntryV|
                    crate::pending_blocks::keep_under(
                        e,
                        crate::types::EpochStateV {
                            epoch: payload.epoch,
                            validators: final(self).spec_validators(),
                        },
                    ),
            ).map_values(
                |e: PendingEntryV|
                    crate::pending_blocks::promote_under(
                        e,
                        crate::types::EpochStateV {
                            epoch: payload.epoch,
                            validators: final(self).spec_validators(),
                        },
                    ),
            ),
            actions_view(r.1@) == drain_actions(
                final(self).pending_blocks@.filter(|e: PendingEntryV| e.verified),
            ),
            verified_prefix(final(self).pending_blocks@),
            r.0 == (EpochStartSetup {
                epoch: payload.epoch,
                consensus_config: (match payload.consensus_config {
                    Some(c) => c,
                    None => crate::reconfig::ConsensusConfig { quorum_store_enabled: true },
                }),
                execution_config: (match payload.execution_config {
                    Some(c) => c,
                    None => crate::reconfig::ExecutionConfig { version: 1 },
                }),
                randomness_config: crate::reconfig::spec_randomness_of(payload.randomness_config),
                payload_manager: (if (match payload.consensus_config {
                    Some(c) => c.quorum_store_enabled,
                    None => true,
                }) {
                    crate::reconfig::PayloadManagerKind::QuorumStoreBacked
                } else {
                    crate::reconfig::PayloadManagerKind::DirectMempool
                }),
            }),
    {
        proof {
            // No buffered entry can be verified here: a verified entry's
            // epoch equals the installed epoch, yet every buffered key
            // sits above the root, whose epoch the installed one is
            // strictly below.
            assert forall|i: int|
                0 <= i < self.pending_blocks@.len() implies !(
            #[trigger] self.pending_blocks@[i]).verified by {
                if self.pending_blocks@[i].verified {
                    assert(key_lt(
                        self.root@.commit_info.epoch,
                        self.root@.commit_info.round,
                        self.pending_blocks@[i].epoch(),
                        self.pending_blocks@[i].round(),
                    ));
                }
            }
        }
        // Install the new epoch's state and decoded configs
        let (epoch_state, consensus_config, execution_config, randomness_config) =
            crate::reconfig::extract_on_chain_configs(payload);
        self.epoch_state = Some(epoch_state);
        let payload_manager = crate::reconfig::choose_payload_manager(&consensus_config);
        let setup = EpochStartSetup {
            epoch: payload.epoch,
            consensus_config,
            execution_config,
            randomness_config,
            payload_manager,
        };
        let ghost mid = *self;
        // Re-verify the buffered entries under the new epoch
        match &self.epoch_state {
            Some(es) => {
                self.pending_blocks.verify_pending_blocks(es);
            },
            None => {},
        }
        proof {
            let esv = crate::types::EpochStateV {
                epoch: payload.epoch,
                validators: self.spec_validators(),
            };
            let pred = |e: PendingEntryV| crate::pending_blocks::keep_under(e, esv);
            let f = |e: PendingEntryV| crate::pending_blocks::promote_under(e, esv);
            assert(self.pending_blocks@ == mid.pending_blocks@.filter(pred).map_values(f));
            // Keys are untouched by promotion, and every survivor comes
            // from the old buffer, so each still sits above the root and
            // each verified survivor was checked under the new epoch.
            assert forall|i: int| 0 <= i < self.pending_blocks@.len() implies key_lt(
                self.root@.commit_info.epoch,
                self.root@.commit_info.round,
                (#[trigger] self.pending_blocks@[i]).epoch(),
                self.pending_blocks@[i].round(),
            ) && ((#[trigger] self.pending_blocks@[i]).verified ==> (self.pending_blocks@[i].epoch()
                == self.spec_current_epoch() && crate::types::signature_valid(
                self.pending_blocks@[i].block.ordered_proof.signers,
                self.spec_validators(),
            ))) && (!self.pending_blocks@[i].verified ==> self.pending_blocks@[i].epoch()
                != self.spec_current_epoch()) by {
                crate::pending_blocks::lemma_filter_member(mid.pending_blocks@, pred, i);
                let j = choose|j: int|
                    0 <= j < mid.pending_blocks@.len() && mid.pending_blocks@[j]
                        == mid.pending_blocks@.filter(pred)[i];
                mid.pending_blocks@.lemma_filter_pred(pred, i);
                assert(self.pending_blocks@[i] == f(mid.pending_blocks@[j]));
                assert(key_lt(
                    mid.root@.commit_info.epoch,
                    mid.root@.commit_info.round,
                    mid.pending_blocks@[j].epoch(),
                    mid.pending_blocks@[j].round(),
                ));
            }
        }
        proof {
            // Survivors are verified exactly when they belong to the new
            // epoch, and the keys are sorted, so the verified entries
            // lead the buffer.
            let esv = crate::types::EpochStateV {
                epoch: payload.epoch,
                validators: self.spec_validators(),
            };
            let pred = |e: PendingEntryV| crate::pending_blocks::keep_under(e, esv);
            assert forall|i: int, j: int|
                0 <= i < j < self.pending_blocks@.len() && (
            #[trigger] self.pending_blocks@[j]).verified implies (
            #[trigger] self.pending_blocks@[i]).verified by {
                crate::pending_blocks::lemma_filter_member(mid.pending_blocks@, pred, i);
                mid.pending_blocks@.lemma_filter_pred(pred, i);
                crate::pending_blocks::lemma_filter_member(mid.pending_blocks@, pred, j);
                mid.pending_blocks@.lemma_filter_pred(pred, j);
                assert(key_lt(
                    self.pending_blocks@[i].epoch(),
                    self.pending_blocks@[i].round(),
                    self.pending_blocks@[j].epoch(),
                    self.pending_blocks@[j].round(),
                ));
                assert(self.pending_blocks@[j].epoch() == esv.epoch);
                assert(self.pending_blocks@[i].epoch() >= esv.epoch);
            }
        }
        // Drop the sync handle and drain the verified entries
        self.sync_target = None;
        let drained = self.pending_blocks.get_all_verified_pending_blocks();
        let actions = drain_entries(&drained);
        (setup, actions)
    }

    /// The periodic progress tick. With a subscription active, its four
    /// health checks run in order; the first failure terminates it: an
    /// unsubscribe is fired at the peer, the termination metric is
    /// bumped under the failure's label, and a ranked candidate list —
    /// excluding the terminated peer and everyone subscribed to us, at
    /// most `max_concurrent_subscriptions` long — is returned for the
    /// host to walk. Without a subscription (or after a termination),
    /// the candidate list alone is returned.
    pub fn process_progress_tick(
        &mut self,
        now_ms: u64,
        db_version: u64,
        connected_peers: &Vec<PeerInfo>,
        subscribers_to_us: &Vec<u64>,
    ) -> (r: TickOutcome)
        requires
            old(self).wf(),
            (match old(self).active_subscription {
                Some(s) => now_ms >= s.last_message_time_ms && now_ms
                    >= s.last_progress_check_time_ms,
                None => true,
            }),
            forall|i: int, j: int|
                0 <= i < j < connected_peers@.len() ==> (#[trigger] connected_peers@[i]).peer_id
                    != (#[trigger] connected_peers@[j]).peer_id,
        ensures
            final(self).wf(),
            final(self).config == old(self).config,
            final(self).epoch_state == old(self).epoch_state,
            final(self).root == old(self).root,
            final(self).payload_store == old(self).payload_store,
            final(self).pending_blocks == old(self).pending_blocks,
            final(self).sync_target == old(self).sync_target,
            (match old(self).active_subscription {
                None => {
                    &&& (final(self).active_subscription is None)
                    &&& final(self).metrics == old(self).metrics
                    &&& actions_view(r.actions@) == Seq::<ActionV>::empty()
                    &&& (r.candidates matches Some(c) && ranked_candidate_list(
                        c@,
                        connected_peers@,
                        None,
                        subscribers_to_us@,
                        old(self).config.max_concurrent_subscriptions,
                    ))
                },
                Some(s) => {
                    match spec_health_failure(s, now_ms, db_version, connected_peers@) {
                        Some(e) => {
                            &&& (final(self).active_subscription is None)
                            &&& final(self).metrics
                                == crate::metrics::spec_after_termination(old(self).metrics, e)
                            &&& actions_view(r.actions@) == seq![
                                ActionV::SendUnsubscribe(s.peer_id),
                            ]
                            &&& (r.candidates matches Some(c) && ranked_candidate_list(
                                c@,
                                connected_peers@,
                                Some(s.peer_id),
                                subscribers_to_us@,
                                old(self).config.max_concurrent_subscriptions,
                            ))
                        },
                        None => {
                            &&& final(self).active_subscription == Some(
                                spec_subscription_after_health(s, now_ms, db_version),
                            )
                            &&& final(self).metrics == old(self).metrics
                            &&& actions_view(r.actions@) == Seq::<ActionV>::empty()
                            &&& (r.candidates is None)
                        },
                    }
                },
            }),
    {
        let mut actions: Vec<Action> = Vec::new();
        proof {
            assert(actions_view(actions@) =~= Seq::<ActionV>::empty());
        }
        match self.active_subscription {
            Some(mut sub) => {
                // Run the four health checks in order
                let failure: Option<ObserverError> = if !crate::subscription::peers_contain(
                    connected_peers,
                    sub.peer_id,
                ) {
                    Some(ObserverError::SubscriptionDisconnected)
                } else {
                    match sub.check_subscription_timeout(now_ms) {
                        Err(e) => Some(e),
                        Ok(_) => match sub.check_syncing_progress(now_ms, db_version) {
                            Err(e) => Some(e),
                            Ok(_) => match sub.check_subscription_peer_optimality(
                                connected_peers,
                            ) {
                                Err(e) => Some(e),
                                Ok(_) => None,
                            },
                        },
                    }
                };
                match failure {
                    Some(e) => {
                        // Terminate: unsubscribe, clear, count the label
                        self.active_subscription = None;
                        self.metrics.record_subscription_terminated(e);
                        actions.push(Action::SendUnsubscribe(sub.peer_id));
                        proof {
                            assert(actions_view(actions@) =~= seq![
                                ActionV::SendUnsubscribe(sub.peer_id),
                            ]);
                        }
                        let candidates = sort_peers_for_subscription(
                            connected_peers,
                            Some(sub.peer_id),
                            subscribers_to_us,
                            self.config.max_concurrent_subscriptions,
                        );
                        TickOutcome { actions, candidates: Some(candidates) }
                    },
                    None => {
                        // Healthy: keep it, with the refreshed sample
                        self.active_subscription = Some(sub);
                        TickOutcome { actions, candidates: None }
                    },
                }
            },
            None => {
                let candidates = sort_peers_for_subscription(
                    connected_peers,
                    None,
                    subscribers_to_us,
                    self.config.max_concurrent_subscriptions,
                );
                TickOutcome { actions, candidates: Some(candidates) }
            },
        }
    }

    /// Installs the subscription a peer's acknowledgement creates: the
    /// host walks the candidate list with subscribe requests and calls
    /// this on the first acknowledgement. There is never more than one
    /// subscription: one must not be active.
    pub fn install_subscription(&mut self, peer_id: u64, now_ms: u64, db_version: u64)
        requires
            old(self).wf(),
            (old(self).active_subscription is None),
        ensures
            final(self).wf(),
            final(self).config == old(self).config,
            final(self).epoch_state == old(self).epoch_state,
            final(self).root == old(self).root,
            final(self).payload_store == old(self).payload_store,
            final(self).pending_blocks == old(self).pending_blocks,
            final(self).sync_target == old(self).sync_target,
            final(self).active_subscription == Some(
                Subscription {
                    config: old(self).config,
                    peer_id: peer_id,
                    created_at_ms: now_ms,
                    last_message_time_ms: now_ms,
                    last_progress_check_time_ms: now_ms,
                    highest_synced_version: db_version,
                },
            ),
            final(self).metrics == crate::metrics::spec_after_creation(old(self).metrics),
    {
        let sub = Subscription::new(self.config, peer_id, now_ms, db_version);
        self.active_subscription = Some(sub);
        self.metrics.record_subscription_created();
    }

    /// Dispatches a direct-send message. A message from anyone but the
    /// subscribed peer is answered with an unsubscribe request and
    /// dropped. From the subscribed peer, the subscription's receipt
    /// time is refreshed, the received-message counter is bumped under
    /// the message's label, and the message is processed by kind: the
    /// final state and the emitted actions are exactly those of the
    /// per-kind handler. Whatever the kind, the root only moves
    /// forward, the buffer chain is preserved, and in sync mode nothing
    /// is finalized or forwarded.
    #[verifier::rlimit(100)]
    pub fn process_direct_send_message(
        &mut self,
        sender: u64,
        now_ms: u64,
        message: DirectSendMessage,
    ) -> (actions: Vec<Action>)
        requires
            old(self).wf(),
            old(self).epoch_ready(),
        ensures
            final(self).wf(),
            final(self).epoch_ready(),
            final(self).config == old(self).config,
            final(self).epoch_state == old(self).epoch_state,
            key_le(
                old(self).root@.commit_info.epoch,
                old(self).root@.commit_info.round,
                final(self).root@.commit_info.epoch,
                final(self).root@.commit_info.round,
            ),
            old(self).chained() ==> final(self).chained(),
            (match old(self).active_subscription {
                None => final(self).active_subscription == old(self).active_subscription
                    && final(self).root == old(self).root && final(self).pending_blocks == old(self).pending_blocks && final(self).payload_store == old(self).payload_store && final(self).sync_target == old(self).sync_target && final(self).metrics == old(self).metrics
                    && actions_view(actions@) == seq![ActionV::SendUnsubscribe(sender)],
                Some(sub) => {
                    if sub.peer_id != sender {
                        final(self).active_subscription == old(self).active_subscription && final(self).root == old(self).root && final(self).pending_blocks == old(self).pending_blocks && final(self).payload_store == old(self).payload_store
                            && final(self).sync_target == old(self).sync_target && final(self).metrics == old(self).metrics && actions_view(
                            actions@,
                        ) == seq![ActionV::SendUnsubscribe(sender)]
                    } else {
                        ({
                            let mid = ConsensusObserver {
                                active_subscription: Some(
                                    Subscription { last_message_time_ms: now_ms, ..sub },
                                ),
                                metrics: crate::metrics::spec_after_message_received(
                                    old(self).metrics,
                                    spec_message_kind(message),
                                ),
                                ..*old(self)
                            };
                            match message {
                                DirectSendMessage::OrderedBlockMsg(ob) => ordered_block_outcome(
                                    mid,
                                    *final(self),
                                    ob@,
                                    actions_view(actions@),
                                ),
                                DirectSendMessage::CommitDecisionMsg(cd) => commit_decision_outcome(
                                    mid,
                                    *final(self),
                                    cd@,
                                    actions_view(actions@),
                                ),
                                DirectSendMessage::BlockPayloadMsg(p) => block_payload_outcome(
                                    mid,
                                    *final(self),
                                    p@,
                                ) && actions_view(actions@) == Seq::<ActionV>::empty(),
                            }
                        })
                    }
                },
            }),
            old(self).in_sync_mode() ==> forall|i: int|
                0 <= i < actions@.len() ==> !((#[trigger] actions_view(actions@)[i])
                    is FinalizeOrderedBlock) && !(actions_view(actions@)[i]
                    is ForwardCommitDecision),
    {
        // Verify the message comes from the subscribed peer
        match self.active_subscription {
            Some(mut sub) => {
                if sub.peer_id != sender {
                    let mut actions: Vec<Action> = Vec::new();
                    actions.push(Action::SendUnsubscribe(sender));
                    proof {
                        assert(actions_view(actions@) =~= seq![ActionV::SendUnsubscribe(sender)]);
                    }
                    return actions;
                }
                sub.record_message_receipt(now_ms);
                self.active_subscription = Some(sub);
            },
            None => {
                let mut actions: Vec<Action> = Vec::new();
                actions.push(Action::SendUnsubscribe(sender));
                proof {
                    assert(actions_view(actions@) =~= seq![ActionV::SendUnsubscribe(sender)]);
                }
                return actions;
            },
        }
        // Count the received message under its kind's label
        let kind = match &message {
            DirectSendMessage::OrderedBlockMsg(_) => crate::metrics::MessageKind::OrderedBlockKind,
            DirectSendMessage::CommitDecisionMsg(_) => crate::metrics::MessageKind::CommitDecisionKind,
            DirectSendMessage::BlockPayloadMsg(_) => crate::metrics::MessageKind::BlockPayloadKind,
        };
        proof {
            assert(kind == spec_message_kind(message));
        }
        self.metrics.record_message_received(kind);
        let ghost mid = *self;
        // Process the message by kind
        let actions = match message {
            DirectSendMessage::OrderedBlockMsg(ordered_block) => self.process_ordered_block(
                ordered_block,
            ),
            DirectSendMessage::CommitDecisionMsg(commit_decision) => self.process_commit_decision(
                commit_decision,
            ),
            DirectSendMessage::BlockPayloadMsg(payload) => {
                self.process_block_payload(payload);
                let empty: Vec<Action> = Vec::new();
                proof {
                    assert(actions_view(empty@) =~= Seq::<ActionV>::empty());
                }
                empty
            },
        };
        proof {
            if mid.in_sync_mode() {
                assert forall|i: int| 0 <= i < actions@.len() implies !((
                #[trigger] actions_view(actions@)[i]) is FinalizeOrderedBlock) && !(actions_view(
                    actions@,
                )[i] is ForwardCommitDecision) by {
                    let av = actions_view(actions@);
                    if kind == crate::metrics::MessageKind::OrderedBlockKind || kind
                        == crate::metrics::MessageKind::BlockPayloadKind {
                        assert(av.len() == 0);
                    } else {
                        // A commit decision in sync mode emits at most a
                        // sync start and the abort of the prior job.
                        if av.len() != 0 {
                            assert(av[0] is StartSync);
                            if av.len() == 2 {
                                assert(av[1] is AbortPriorSync);
                            }
                        }
                    }
                }
            }
        }
        actions
    }

    /// Classifies an inbound subscription request from a downstream
    /// peer: forwarded verbatim to the publisher collaborator when one
    /// is enabled and the request can be answered, dropped otherwise.
    pub fn process_request_message(&self, has_response_sender: bool) -> (r: RequestOutcome)
        ensures
            r == (if has_response_sender && self.config.publisher_enabled {
                RequestOutcome::ForwardToPublisher
            } else {
                RequestOutcome::Dropped
            }),
    {
        if has_response_sender && self.config.publisher_enabled {
            RequestOutcome::ForwardToPublisher
        } else {
            RequestOutcome::Dropped
        }
    }
}

/// Verified entries form a prefix of the buffer: nothing verified sits
/// after an unverified entry.
pub open spec fn verified_prefix(s: Seq<PendingEntryV>) -> bool {
    forall|i: int, j: int|
        0 <= i < j < s.len() && (#[trigger] s[j]).verified ==> (#[trigger] s[i]).verified
}

/// Filtering with a prefix-closed predicate keeps the initial run: the
/// survivors are exactly the sequence's first elements.
pub proof fn lemma_prefix_filter(s: Seq<PendingEntryV>, pred: spec_fn(PendingEntryV) -> bool)
    requires
        forall|i: int, j: int| 0 <= i < j < s.len() && pred(#[trigger] s[j]) ==> pred(#[trigger] s[i]),
    ensures
        s.filter(pred).len() <= s.len(),
        forall|i: int| 0 <= i < s.filter(pred).len() ==> s.filter(pred)[i] == s[i],
    decreases s.len(),
{
    reveal(Seq::filter);
    if s.len() > 0 {
        let butlast = s.drop_last();
        assert(forall|i: int, j: int|
            0 <= i < j < butlast.len() && pred(#[trigger] butlast[j]) ==> pred(
                #[trigger] butlast[i],
            ));
        lemma_prefix_filter(butlast, pred);
        if pred(s.last()) {
            // The whole sequence satisfies the predicate.
            assert forall|i: int| 0 <= i < butlast.len() implies pred(butlast[i]) by {
                assert(s[i] == butlast[i]);
                assert(pred(s[s.len() - 1]));
            }
            lemma_filter_all_entries(butlast, pred);
            assert(s.filter(pred) == butlast.push(s.last()));
            assert(s.filter(pred) =~= s);
        }
        assert forall|i: int| 0 <= i < s.filter(pred).len() implies s.filter(pred)[i] == s[i] by {
            if pred(s.last()) {
                assert(s.filter(pred) =~= s);
            } else {
                assert(s.filter(pred) == butlast.filter(pred));
                assert(butlast.filter(pred)[i] == butlast[i]);
                assert(butlast[i] == s[i]);
            }
        }
    }
}

/// Filtering keeps everything when every element satisfies the predicate.
pub proof fn lemma_filter_all_entries(s: Seq<PendingEntryV>, pred: spec_fn(PendingEntryV) -> bool)
    requires
        forall|i: int| 0 <= i < s.len() ==> pred(#[trigger] s[i]),
    ensures
        s.filter(pred) == s,
    decreases s.len(),
{
    reveal(Seq::filter);
    if s.len() > 0 {
        let butlast = s.drop_last();
        assert forall|i: int| 0 <= i < butlast.len() implies pred(butlast[i]) by {
            assert(s[i] == butlast[i]);
        }
        lemma_filter_all_entries(butlast, pred);
        assert(s.filter(pred) =~= s);
    }
}

/// Every block handed over by a drain extends the chain: with the buffer
/// chained from the root and its verified entries forming a prefix, the
/// drained entries are consecutive, each one's first block the child of
/// the previous one's last block, and the first one the child of the
/// root's block.
pub proof fn lemma_drain_parent_chain(s: ConsensusObserver, drained: Seq<PendingEntryV>)
    requires
        s.wf(),
        s.chained(),
        verified_prefix(s.pending_blocks@),
        drained == s.pending_blocks@.filter(|e: PendingEntryV| e.verified),
    ensures
        forall|i: int|
            0 < i < drained.len() ==> (#[trigger] drained[i]).block.first().parent_id == drained[i
                - 1].block.last().id,
        drained.len() > 0 ==> drained[0].block.first().parent_id == s.root@.commit_info.id,
{
    let pred = |e: PendingEntryV| e.verified;
    lemma_prefix_filter(s.pending_blocks@, pred);
    assert forall|i: int|
        0 < i < drained.len() implies (#[trigger] drained[i]).block.first().parent_id == drained[i
        - 1].block.last().id by {
        assert(drained[i] == s.pending_blocks@[i]);
        assert(drained[i - 1] == s.pending_blocks@[i - 1]);
    }
}

/// The blocks that a sequence of actions finalizes, in order.
pub open spec fn finalized_blocks_of(acts: Seq<ActionV>) -> Seq<OrderedBlockV>
    decreases acts.len(),
{
    if acts.len() == 0 {
        Seq::empty()
    } else {
        finalized_blocks_of(acts.drop_last()) + (match acts.last() {
            ActionV::FinalizeOrderedBlock(b) => seq![b],
            _ => Seq::empty(),
        })
    }
}

/// Finalized blocks accumulate over concatenation.
pub proof fn lemma_finalized_blocks_append(a: Seq<ActionV>, b: Seq<ActionV>)
    ensures
        finalized_blocks_of(a + b) == finalized_blocks_of(a) + finalized_blocks_of(b),
    decreases b.len(),
{
    if b.len() == 0 {
        assert(a + b =~= a);
        assert(finalized_blocks_of(b) =~= Seq::<OrderedBlockV>::empty());
        assert(finalized_blocks_of(a) + finalized_blocks_of(b) =~= finalized_blocks_of(a));
    } else {
        lemma_finalized_blocks_append(a, b.drop_last());
        assert((a + b).drop_last() =~= a + b.drop_last());
        assert((a + b).last() == b.last());
        match b.last() {
            ActionV::FinalizeOrderedBlock(blk) => {
                assert(finalized_blocks_of(a + b) =~= finalized_blocks_of(a)
                    + finalized_blocks_of(b));
            },
            _ => {
                assert(finalized_blocks_of(a + b) =~= finalized_blocks_of(a)
                    + finalized_blocks_of(b));
            },
        }
    }
}

/// Drain completeness: draining emits exactly one finalize per entry, in
/// the entries' order.
pub proof fn lemma_drain_completeness(entries: Seq<PendingEntryV>)
    ensures
        finalized_blocks_of(drain_actions(entries)) == entries.map_values(
            |e: PendingEntryV| e.block,
        ),
    decreases entries.len(),
{
    if entries.len() == 0 {
        assert(finalized_blocks_of(drain_actions(entries)) =~= entries.map_values(
            |e: PendingEntryV| e.block,
        ));
    } else {
        let butlast = entries.drop_last();
        lemma_drain_completeness(butlast);
        let tail = (match entries.last().commit_decision {
            Some(d) => seq![
                ActionV::FinalizeOrderedBlock(entries.last().block),
                ActionV::ForwardCommitDecision(d),
            ],
            None => seq![ActionV::FinalizeOrderedBlock(entries.last().block)],
        });
        lemma_finalized_blocks_append(drain_actions(butlast), tail);
        let fin1 = seq![ActionV::FinalizeOrderedBlock(entries.last().block)];
        assert(fin1.drop_last() =~= Seq::<ActionV>::empty());
        assert(finalized_blocks_of(Seq::<ActionV>::empty()) =~= Seq::<OrderedBlockV>::empty());
        assert(finalized_blocks_of(fin1) =~= seq![entries.last().block]);
        match entries.last().commit_decision {
            Some(d) => {
                assert(tail.drop_last() =~= fin1);
                assert(finalized_blocks_of(tail) =~= seq![entries.last().block]);
            },
            None => {
                assert(tail =~= fin1);
                assert(finalized_blocks_of(tail) =~= seq![entries.last().block]);
            },
        }
        assert(finalized_blocks_of(drain_actions(entries)) =~= entries.map_values(
            |e: PendingEntryV| e.block,
        ));
    }
}

/// Verify-or-drop: in a well-formed state every entry a drain would take
/// is verified, of the installed epoch, and carries a proof whose
/// signature holds under the installed validator set.
pub proof fn lemma_drained_entries_checked(s: ConsensusObserver, drained: Seq<PendingEntryV>)
    requires
        s.wf(),
        drained == s.pending_blocks@.filter(|e: PendingEntryV| e.verified),
    ensures
        forall|i: int|
            0 <= i < drained.len() ==> (#[trigger] drained[i]).verified && (s.epoch_state is Some)
                && drained[i].epoch() == s.spec_current_epoch() && crate::types::signature_valid(
                drained[i].block.ordered_proof.signers,
                s.spec_validators(),
            ),
{
    let pred = |e: PendingEntryV| e.verified;
    assert forall|i: int|
        0 <= i < drained.len() implies (#[trigger] drained[i]).verified && (s.epoch_state is Some)
        && drained[i].epoch() == s.spec_current_epoch() && crate::types::signature_valid(
        drained[i].block.ordered_proof.signers,
        s.spec_validators(),
    ) by {
        crate::pending_blocks::lemma_filter_member(s.pending_blocks@, pred, i);
        s.pending_blocks@.lemma_filter_pred(pred, i);
        let j = choose|j: int|
            0 <= j < s.pending_blocks@.len() && s.pending_blocks@[j] == s.pending_blocks@.filter(
                pred,
            )[i];
    }
}

/// How many subscriptions a state holds: zero or one, never more — the
/// state has a single slot for it.
pub open spec fn subscription_count(s: ConsensusObserver) -> nat {
    match s.active_subscription {
        Some(_) => 1nat,
        None => 0nat,
    }
}

/// At every observable instant there is at most one subscription.
pub proof fn lemma_at_most_one_subscription(s: ConsensusObserver)
    ensures
        subscription_count(s) <= 1,
{
}

/// Root movements compose: each handler moves the root forward in the
/// `(epoch, round)` order, so any sequence of them does too.
pub proof fn lemma_root_monotonicity(e1: u64, r1: u64, e2: u64, r2: u64, e3: u64, r3: u64)
    requires
        key_le(e1, r1, e2, r2),
        key_le(e2, r2, e3, r3),
    ensures
        key_le(e1, r1, e3, r3),
{
}

/// No two completion notifications for different targets are both
/// honored: honoring one means it matches the root exactly, and
/// honoring does not move the root.
pub proof fn lemma_sync_completions_exclusive(
    s1: ConsensusObserver,
    s2: ConsensusObserver,
    e1: u64,
    r1: u64,
    e2: u64,
    r2: u64,
)
    requires
        s1.root@.commit_info.epoch == e1,
        s1.root@.commit_info.round == r1,
        s2.root@.commit_info.epoch == e2,
        s2.root@.commit_info.round == r2,
        s2.root@ == s1.root@,
    ensures
        e1 == e2 && r1 == r2,
{
}

} // verus!