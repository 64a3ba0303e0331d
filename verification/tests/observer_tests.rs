//! End-to-end scenarios against the observer core state machine.

use consensus_observer::config::ObserverConfig;
use consensus_observer::observer::{
    Action, ConsensusObserver, DirectSendMessage, RequestOutcome, SyncNotificationOutcome,
};
use consensus_observer::reconfig::{OnChainConfigPayload, PayloadManagerKind};
use consensus_observer::subscription::PeerInfo;
use consensus_observer::types::{BlockInfo, BlockPayload, LedgerInfo, OrderedBlock};

fn config() -> ObserverConfig {
    ObserverConfig {
        observer_enabled: true,
        publisher_enabled: true,
        network_request_timeout_ms: 1000,
        subscription_timeout_ms: 5000,
        progress_check_interval_ms: 100,
        db_progress_check_interval_ms: 2000,
        max_concurrent_subscriptions: 2,
        max_pending_blocks: 10,
    }
}

fn block(epoch: u64, round: u64, id: u64, parent_id: u64) -> BlockInfo {
    BlockInfo { epoch, round, id, parent_id, timestamp_usecs: 0 }
}

fn signed(info: BlockInfo) -> LedgerInfo {
    LedgerInfo::new(info, vec![1, 2, 3])
}

fn ordered(info: BlockInfo) -> OrderedBlock {
    OrderedBlock::new(vec![info], signed(info))
}

fn reconfig_payload(epoch: u64) -> OnChainConfigPayload {
    OnChainConfigPayload {
        epoch,
        validator_set: Some(vec![1, 2, 3, 4]),
        consensus_config: None,
        execution_config: None,
        randomness_config: None,
    }
}

/// A fresh observer at root (5, 10) with epoch 5 installed.
fn observer_at_epoch_five() -> ConsensusObserver {
    let root = signed(block(5, 10, 100, 99));
    let mut observer = ConsensusObserver::new(config(), root);
    let setup = observer.wait_for_epoch_start(&reconfig_payload(5));
    assert_eq!(setup.epoch, 5);
    assert_eq!(setup.payload_manager, PayloadManagerKind::QuorumStoreBacked);
    observer
}

#[test]
fn happy_path_finalizes_and_commits() {
    let mut observer = observer_at_epoch_five();
    let b1 = block(5, 11, 101, 100);
    // Payload first
    observer.process_block_payload(BlockPayload {
        block: b1,
        transactions: vec![7, 8],
        limit: None,
    });
    // The ordered block verifies and goes straight to execution
    let actions = observer.process_ordered_block(ordered(b1));
    assert_eq!(actions.len(), 1);
    assert!(matches!(actions[0], Action::FinalizeOrderedBlock(_)));
    // The commit callback moves the root and empties the stores
    observer.process_commit_callback(&vec![b1], signed(b1));
    assert_eq!(observer.root.commit_info.epoch, 5);
    assert_eq!(observer.root.commit_info.round, 11);
    assert_eq!(observer.payload_store.num_payloads(), 0);
    assert_eq!(observer.pending_blocks.num_entries(), 0);
}

#[test]
fn out_of_order_payload_neither_attaches_nor_refinalizes() {
    let mut observer = observer_at_epoch_five();
    let b1 = block(5, 11, 101, 100);
    // The ordered block arrives before its payload: it verifies and is
    // finalized on the spot (payloads gate only the decision path)
    let actions = observer.process_ordered_block(ordered(b1));
    assert_eq!(actions.len(), 1);
    assert!(observer.pending_blocks.entry_at(0).verified);
    // The commit decision finds the payload missing: it neither
    // attaches nor forwards, and (5, 11) does not top the last known
    // block, so no sync starts either
    let actions = observer.process_commit_decision(signed(b1));
    assert!(actions.is_empty());
    assert!(observer.pending_blocks.entry_at(0).commit_decision.is_none());
    assert_eq!(observer.root.commit_info.round, 10);
    // The payload arriving later is recorded, nothing more
    observer.process_block_payload(BlockPayload { block: b1, transactions: vec![7], limit: None });
    assert!(observer.payload_store.payload_exists(101));
    assert!(observer.pending_blocks.entry_at(0).commit_decision.is_none());
    // A decision arriving once the payload is present attaches and is
    // forwarded
    let actions = observer.process_commit_decision(signed(b1));
    assert_eq!(actions.len(), 1);
    assert!(matches!(actions[0], Action::ForwardCommitDecision(_)));
    assert!(observer.pending_blocks.entry_at(0).commit_decision.is_some());
}

#[test]
fn future_epoch_blocks_are_buffered_unverified() {
    let mut observer = observer_at_epoch_five();
    // Chains onto the root but belongs to the next epoch: its proof
    // cannot be checked yet, so it waits in the buffer
    let b = block(6, 1, 200, 100);
    let actions = observer.process_ordered_block(ordered(b));
    assert!(actions.is_empty());
    assert_eq!(observer.pending_blocks.num_entries(), 1);
    assert!(!observer.pending_blocks.entry_at(0).verified);
}

#[test]
fn stale_keys_are_dropped_as_out_of_order() {
    let mut observer = observer_at_epoch_five();
    // The parent id happens to match, but the key does not advance past
    // the last known block
    let stale = block(5, 10, 101, 100);
    let actions = observer.process_ordered_block(ordered(stale));
    assert!(actions.is_empty());
    assert_eq!(observer.pending_blocks.num_entries(), 0);
}

#[test]
fn parent_mismatch_drops_the_block() {
    let mut observer = observer_at_epoch_five();
    let stray = block(5, 11, 101, 999);
    let actions = observer.process_ordered_block(ordered(stray));
    assert!(actions.is_empty());
    assert_eq!(observer.pending_blocks.num_entries(), 0);
}

#[test]
fn invalid_signature_drops_the_block() {
    let mut observer = observer_at_epoch_five();
    let b1 = block(5, 11, 101, 100);
    // Two signers out of four: below the quorum
    let ob = OrderedBlock::new(vec![b1], LedgerInfo::new(b1, vec![1, 2]));
    let actions = observer.process_ordered_block(ob);
    assert!(actions.is_empty());
    assert_eq!(observer.pending_blocks.num_entries(), 0);
}

#[test]
fn leap_forward_starts_state_sync_and_rolls_the_epoch() {
    let mut observer = observer_at_epoch_five();
    // A commit decision at (6, 3): unverifiable now (future epoch), no
    // pending match, above the last known block
    let cd = signed(block(6, 3, 200, 199));
    let actions = observer.process_commit_decision(cd);
    assert_eq!(actions.len(), 1);
    assert!(matches!(actions[0], Action::StartSync(_)));
    assert!(observer.sync_target.is_some());
    assert_eq!(observer.root.commit_info.epoch, 6);
    assert_eq!(observer.root.commit_info.round, 3);
    // Completion at (6, 3) crosses an epoch boundary
    let outcome = observer.process_sync_notification(6, 3);
    assert!(matches!(outcome, SyncNotificationOutcome::EpochChangeRequired));
    // The host ends the epoch, fetches the reconfiguration, and hands
    // it back; the drain is empty
    let (setup, actions) = observer.complete_epoch_change(&reconfig_payload(6));
    assert_eq!(setup.epoch, 6);
    assert!(actions.is_empty());
    assert!(observer.sync_target.is_none());
    assert_eq!(observer.get_epoch_state().epoch, 6);
    assert_eq!(observer.root.commit_info.epoch, 6);
    assert_eq!(observer.root.commit_info.round, 3);
}

#[test]
fn epoch_rollover_promotes_and_drains_buffered_blocks() {
    let mut observer = observer_at_epoch_five();
    // Enter sync mode toward (6, 1)
    let target = block(6, 1, 200, 100);
    let actions = observer.process_commit_decision(signed(target));
    assert_eq!(actions.len(), 1);
    assert!(observer.sync_target.is_some());
    // While syncing, the upstream keeps sending: a block of epoch 6
    // chains onto the target and is buffered unverified
    let b = block(6, 2, 201, 200);
    let actions = observer.process_ordered_block(ordered(b));
    assert!(actions.is_empty(), "no finalize while in sync mode");
    assert_eq!(observer.pending_blocks.num_entries(), 1);
    assert!(!observer.pending_blocks.entry_at(0).verified);
    // Sync completes; the rollover re-verifies the buffer and drains it
    let outcome = observer.process_sync_notification(6, 1);
    assert!(matches!(outcome, SyncNotificationOutcome::EpochChangeRequired));
    let (_setup, actions) = observer.complete_epoch_change(&reconfig_payload(6));
    assert_eq!(actions.len(), 1);
    match &actions[0] {
        Action::FinalizeOrderedBlock(ob) => {
            assert_eq!(ob.blocks[0].round, 2);
            assert_eq!(ob.blocks[0].epoch, 6);
        },
        other => panic!("expected a finalize, got {:?}", other),
    }
    assert!(observer.pending_blocks.entry_at(0).verified);
    assert!(observer.sync_target.is_none());
}

#[test]
fn a_newer_sync_target_aborts_the_prior_job() {
    let mut observer = observer_at_epoch_five();
    observer.process_commit_decision(signed(block(6, 3, 200, 199)));
    assert!(observer.sync_target.is_some());
    // A fresher decision supersedes the running job: the spawn comes
    // first, the abort of the prior job second
    let actions = observer.process_commit_decision(signed(block(7, 1, 300, 299)));
    assert_eq!(actions.len(), 2);
    assert!(matches!(actions[0], Action::StartSync(_)));
    assert!(matches!(actions[1], Action::AbortPriorSync));
    // The stale job's completion no longer matches the root
    let outcome = observer.process_sync_notification(6, 3);
    assert!(matches!(outcome, SyncNotificationOutcome::Ignored));
}

#[test]
fn commit_callbacks_move_the_root_monotonically() {
    let mut observer = observer_at_epoch_five();
    // A different epoch: logged and ignored
    observer.process_commit_callback(&vec![], signed(block(6, 1, 300, 299)));
    assert_eq!(observer.root.commit_info.round, 10);
    assert_eq!(observer.root.commit_info.epoch, 5);
    // A lower round: ignored
    observer.process_commit_callback(&vec![], signed(block(5, 9, 90, 89)));
    assert_eq!(observer.root.commit_info.round, 10);
    // A higher round of the same epoch: the root advances
    observer.process_commit_callback(&vec![], signed(block(5, 12, 102, 101)));
    assert_eq!(observer.root.commit_info.round, 12);
}

#[test]
fn unhealthy_subscription_is_replaced() {
    let mut observer = observer_at_epoch_five();
    observer.install_subscription(1, 1000, 50);
    assert_eq!(observer.metrics.created_subscriptions, 1);
    assert_eq!(observer.metrics.active_subscriptions, 1);
    // Peer 1 disconnects between ticks: the tick terminates the
    // subscription and offers ranked candidates excluding peer 1
    let connected = vec![
        PeerInfo { peer_id: 2, validator_distance: 1, latency_us: 10 },
        PeerInfo { peer_id: 3, validator_distance: 1, latency_us: 5 },
    ];
    let outcome = observer.process_progress_tick(1100, 50, &connected, &vec![]);
    assert_eq!(outcome.actions.len(), 1);
    assert!(matches!(outcome.actions[0], Action::SendUnsubscribe(1)));
    assert_eq!(observer.metrics.terminated_disconnected, 1);
    assert_eq!(observer.metrics.active_subscriptions, 0);
    assert!(observer.active_subscription.is_none());
    let candidates = outcome.candidates.expect("candidates expected");
    let ids: Vec<u64> = candidates.iter().map(|p| p.peer_id).collect();
    assert_eq!(ids, vec![3, 2]);
    // The host walks the list; the first acknowledgement installs
    observer.install_subscription(3, 1100, 50);
    assert_eq!(observer.active_subscription.unwrap().peer_id, 3);
    assert_eq!(observer.metrics.created_subscriptions, 2);
    assert_eq!(observer.metrics.active_subscriptions, 1);
}

#[test]
fn a_healthy_subscription_survives_the_tick() {
    let mut observer = observer_at_epoch_five();
    observer.install_subscription(1, 1000, 50);
    let connected = vec![PeerInfo { peer_id: 1, validator_distance: 0, latency_us: 1 }];
    let outcome = observer.process_progress_tick(1100, 51, &connected, &vec![]);
    assert!(outcome.actions.is_empty());
    assert!(outcome.candidates.is_none());
    let sub = observer.active_subscription.unwrap();
    assert_eq!(sub.peer_id, 1);
    assert_eq!(sub.highest_synced_version, 51);
}

#[test]
fn messages_from_strangers_get_an_unsubscribe() {
    let mut observer = observer_at_epoch_five();
    observer.install_subscription(1, 1000, 50);
    let b1 = block(5, 11, 101, 100);
    let actions = observer.process_direct_send_message(
        9,
        1200,
        DirectSendMessage::OrderedBlockMsg(ordered(b1)),
    );
    assert_eq!(actions.len(), 1);
    assert!(matches!(actions[0], Action::SendUnsubscribe(9)));
    assert_eq!(observer.pending_blocks.num_entries(), 0);
    // From the subscribed peer the same message lands
    let actions = observer.process_direct_send_message(
        1,
        1300,
        DirectSendMessage::OrderedBlockMsg(ordered(b1)),
    );
    assert_eq!(actions.len(), 1);
    assert!(matches!(actions[0], Action::FinalizeOrderedBlock(_)));
    assert_eq!(observer.active_subscription.unwrap().last_message_time_ms, 1300);
    // The stranger's message was not counted; the peer's was
    assert_eq!(observer.metrics.received_ordered_blocks, 1);
    assert_eq!(observer.pending_blocks.num_entries(), 1);
}

#[test]
fn the_dispatcher_lands_each_message_kind() {
    let mut observer = observer_at_epoch_five();
    observer.install_subscription(1, 1000, 50);
    let b1 = block(5, 11, 101, 100);
    // A payload through the dispatcher lands in the payload store
    let actions = observer.process_direct_send_message(
        1,
        1100,
        DirectSendMessage::BlockPayloadMsg(BlockPayload {
            block: b1,
            transactions: vec![7, 8],
            limit: None,
        }),
    );
    assert!(actions.is_empty());
    assert!(observer.payload_store.payload_exists(101));
    assert_eq!(observer.metrics.received_block_payloads, 1);
    // An ordered block through the dispatcher is buffered and finalized
    let actions = observer.process_direct_send_message(
        1,
        1200,
        DirectSendMessage::OrderedBlockMsg(ordered(b1)),
    );
    assert_eq!(actions.len(), 1);
    assert!(matches!(actions[0], Action::FinalizeOrderedBlock(_)));
    assert_eq!(observer.pending_blocks.num_entries(), 1);
    assert_eq!(observer.metrics.received_ordered_blocks, 1);
    // A commit decision through the dispatcher attaches and forwards
    let actions = observer.process_direct_send_message(
        1,
        1300,
        DirectSendMessage::CommitDecisionMsg(signed(b1)),
    );
    assert_eq!(actions.len(), 1);
    assert!(matches!(actions[0], Action::ForwardCommitDecision(_)));
    assert!(observer.pending_blocks.entry_at(0).commit_decision.is_some());
    assert_eq!(observer.metrics.received_commit_decisions, 1);
}

#[test]
fn subscription_requests_forward_only_with_a_publisher() {
    let observer = observer_at_epoch_five();
    assert_eq!(
        observer.process_request_message(true),
        RequestOutcome::ForwardToPublisher
    );
    assert_eq!(observer.process_request_message(false), RequestOutcome::Dropped);
    let mut no_publisher = config();
    no_publisher.publisher_enabled = false;
    let root = signed(block(5, 10, 100, 99));
    let observer = ConsensusObserver::new(no_publisher, root);
    assert_eq!(observer.process_request_message(true), RequestOutcome::Dropped);
}

#[test]
fn forwarding_only_mode_follows_the_config() {
    let mut cfg = config();
    cfg.observer_enabled = false;
    assert!(cfg.publisher_forwarding_only());
    cfg.observer_enabled = true;
    assert!(!cfg.publisher_forwarding_only());
}

#[test]
fn drains_forward_attached_decisions_after_the_finalize() {
    let mut observer = observer_at_epoch_five();
    let b1 = block(5, 11, 101, 100);
    observer.process_block_payload(BlockPayload { block: b1, transactions: vec![7], limit: None });
    observer.process_ordered_block(ordered(b1));
    observer.process_commit_decision(signed(b1));
    // A completion notification matching the root drains the buffer:
    // the finalize comes first, the attached decision after it
    let outcome = observer.process_sync_notification(5, 10);
    match outcome {
        SyncNotificationOutcome::Completed(actions) => {
            assert_eq!(actions.len(), 2);
            assert!(matches!(actions[0], Action::FinalizeOrderedBlock(_)));
            assert!(matches!(actions[1], Action::ForwardCommitDecision(_)));
        },
        other => panic!("expected a drain, got {:?}", other),
    }
    assert!(observer.sync_target.is_none());
}
