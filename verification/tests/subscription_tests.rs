//! Subscription health checks, peer ranking, and error labels.

use consensus_observer::config::ObserverConfig;
use consensus_observer::errors::ObserverError;
use consensus_observer::metrics::saturating_inc;
use consensus_observer::subscription::{
    peers_contain, sort_peers_by_distance_and_latency, sort_peers_for_subscription,
    subscribe_request_accepted, PeerInfo, PeerResponse, Subscription,
};

fn config() -> ObserverConfig {
    ObserverConfig {
        observer_enabled: true,
        publisher_enabled: true,
        network_request_timeout_ms: 1000,
        subscription_timeout_ms: 5000,
        progress_check_interval_ms: 100,
        db_progress_check_interval_ms: 2000,
        max_concurrent_subscriptions: 2,
        max_pending_blocks: 10,
    }
}

fn peer(peer_id: u64, validator_distance: u64, latency_us: u64) -> PeerInfo {
    PeerInfo { peer_id, validator_distance, latency_us }
}

#[test]
fn peers_sort_by_distance_then_latency_then_id() {
    let sorted = sort_peers_by_distance_and_latency(vec![
        peer(9, 2, 1),
        peer(4, 1, 50),
        peer(7, 1, 10),
        peer(2, 1, 10),
    ]);
    let ids: Vec<u64> = sorted.iter().map(|p| p.peer_id).collect();
    // Distance first; equal distance by latency; full ties by peer id.
    assert_eq!(ids, vec![2, 7, 4, 9]);
}

#[test]
fn candidate_selection_excludes_prior_peer_and_subscribers() {
    let connected = vec![peer(1, 0, 5), peer(2, 1, 5), peer(3, 1, 9)];
    let candidates = sort_peers_for_subscription(&connected, Some(1), &vec![3], 10);
    let ids: Vec<u64> = candidates.iter().map(|p| p.peer_id).collect();
    assert_eq!(ids, vec![2]);
}

#[test]
fn candidate_walk_is_capped() {
    let connected = vec![peer(4, 1, 40), peer(2, 1, 20), peer(3, 1, 30), peer(1, 1, 10)];
    // Only the best two candidates are attempted
    let candidates = sort_peers_for_subscription(&connected, None, &vec![], 2);
    let ids: Vec<u64> = candidates.iter().map(|p| p.peer_id).collect();
    assert_eq!(ids, vec![1, 2]);
    // A zero cap yields no candidates at all
    let none = sort_peers_for_subscription(&connected, None, &vec![], 0);
    assert!(none.is_empty());
}

#[test]
fn timeout_check_uses_the_configured_window() {
    let sub = Subscription::new(config(), 1, 1000, 50);
    assert!(sub.check_subscription_timeout(6000).is_ok());
    assert_eq!(
        sub.check_subscription_timeout(6001),
        Err(ObserverError::SubscriptionTimeout)
    );
}

#[test]
fn progress_check_needs_the_version_to_advance() {
    let mut sub = Subscription::new(config(), 1, 1000, 50);
    // Within the sampling interval: not judged yet
    assert!(sub.check_syncing_progress(2999, 50).is_ok());
    // Interval elapsed without an advance: stalled
    assert_eq!(
        sub.check_syncing_progress(3000, 50),
        Err(ObserverError::SubscriptionProgressStopped)
    );
    // An advance refreshes the sample
    assert!(sub.check_syncing_progress(3000, 51).is_ok());
    assert!(sub.check_syncing_progress(4999, 51).is_ok());
    assert_eq!(
        sub.check_syncing_progress(5000, 51),
        Err(ObserverError::SubscriptionProgressStopped)
    );
}

#[test]
fn optimality_check_needs_the_peer_in_the_top_window() {
    // Top-2 window (max_concurrent_subscriptions = 2)
    let sub = Subscription::new(config(), 9, 1000, 50);
    let two_better = vec![peer(1, 0, 1), peer(2, 0, 2), peer(9, 1, 1)];
    assert_eq!(
        sub.check_subscription_peer_optimality(&two_better),
        Err(ObserverError::SubscriptionSuboptimal)
    );
    let one_better = vec![peer(1, 0, 1), peer(9, 1, 1), peer(3, 2, 1)];
    assert!(sub.check_subscription_peer_optimality(&one_better).is_ok());
    // Not even connected: suboptimal
    assert_eq!(
        sub.check_subscription_peer_optimality(&vec![peer(1, 0, 1)]),
        Err(ObserverError::SubscriptionSuboptimal)
    );
}

#[test]
fn message_receipts_refresh_the_timeout_clock() {
    let mut sub = Subscription::new(config(), 1, 1000, 50);
    sub.record_message_receipt(7000);
    assert!(sub.check_subscription_timeout(12000).is_ok());
    assert_eq!(
        sub.check_subscription_timeout(12001),
        Err(ObserverError::SubscriptionTimeout)
    );
}

#[test]
fn connectivity_scan_finds_peers_by_id() {
    let peers = vec![peer(1, 0, 1), peer(2, 0, 2)];
    assert!(peers_contain(&peers, 1));
    assert!(!peers_contain(&peers, 3));
}

#[test]
fn only_a_subscribe_ack_accepts_a_subscribe_request() {
    assert!(subscribe_request_accepted(&PeerResponse::SubscribeAck));
    assert!(!subscribe_request_accepted(&PeerResponse::UnsubscribeAck));
    assert!(!subscribe_request_accepted(&PeerResponse::Unexpected));
}

#[test]
fn counters_stop_at_their_ceiling() {
    assert_eq!(saturating_inc(5), 6);
    assert_eq!(saturating_inc(0), 1);
    assert_eq!(saturating_inc(u64::MAX), u64::MAX);
}

#[test]
fn error_labels_name_each_kind() {
    assert_eq!(
        ObserverError::SubscriptionDisconnected.label(),
        "subscription_disconnected"
    );
    assert_eq!(ObserverError::SubscriptionTimeout.label(), "subscription_timeout");
    assert_eq!(
        ObserverError::SubscriptionProgressStopped.label(),
        "subscription_progress_stopped"
    );
    assert_eq!(
        ObserverError::SubscriptionSuboptimal.label(),
        "subscription_suboptimal"
    );
    assert_eq!(ObserverError::InvalidMessage.label(), "invalid_message");
    assert_eq!(ObserverError::UnexpectedSender.label(), "unexpected_sender");
    assert_eq!(ObserverError::RpcError.label(), "rpc_error");
    assert_eq!(ObserverError::UnexpectedResponse.label(), "unexpected_response");
}
