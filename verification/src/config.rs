//! Observer configuration: mode switches, timeouts and depth bounds.

use vstd::prelude::*;

verus! {

/// The observer's configuration.
#[derive(Clone, Copy, Debug, PartialEq, Eq, Structural)]
pub struct ObserverConfig {
    /// When false while the publisher is enabled, the node only forwards
    /// inbound subscription requests.
    pub observer_enabled: bool,
    /// Enables forwarding of inbound subscription requests.
    pub publisher_enabled: bool,
    /// Timeout of outbound subscribe / unsubscribe requests, in ms.
    pub network_request_timeout_ms: u64,
    /// Maximum silence on an active subscription, in ms.
    pub subscription_timeout_ms: u64,
    /// Period of the progress tick, in ms.
    pub progress_check_interval_ms: u64,
    /// Minimum spacing of storage progress samples, in ms.
    pub db_progress_check_interval_ms: u64,
    /// Cap on the candidate-peer walk, and the top-K window a subscribed
    /// peer must stay within to remain optimal.
    pub max_concurrent_subscriptions: u64,
    /// Depth bound of the pending block buffer.
    pub max_pending_blocks: usize,
}

impl ObserverConfig {
    /// The node forwards subscription requests only, with the observer
    /// itself disabled.
    pub open spec fn spec_publisher_forwarding_only(self) -> bool {
        self.publisher_enabled && !self.observer_enabled
    }

    /// The node forwards subscription requests only, with the observer
    /// itself disabled.
    pub fn publisher_forwarding_only(&self) -> (r: bool)
        ensures
            r == self.spec_publisher_forwarding_only(),
    {
        self.publisher_enabled && !self.observer_enabled
    }
}

} // verus!
