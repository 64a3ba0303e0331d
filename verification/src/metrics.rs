//! Observer metrics: a gauge of active subscriptions, counters of
//! created and terminated subscriptions (the latter keyed by error
//! kind), and counters of received messages keyed by message kind.

use vstd::prelude::*;

use crate::errors::ObserverError;

verus! {

/// The observer's metric registry.
#[derive(Clone, Copy, Debug, PartialEq, Eq, Structural)]
pub struct ObserverMetrics {
    /// Gauge: number of active subscriptions (zero or one).
    pub active_subscriptions: u64,
    /// Counter: subscriptions created.
    pub created_subscriptions: u64,
    /// Counter: terminations labelled `subscription_disconnected`.
    pub terminated_disconnected: u64,
    /// Counter: terminations labelled `subscription_timeout`.
    pub terminated_timeout: u64,
    /// Counter: terminations labelled `subscription_progress_stopped`.
    pub terminated_progress_stopped: u64,
    /// Counter: terminations labelled `subscription_suboptimal`.
    pub terminated_suboptimal: u64,
    /// Counter: ordered blocks received from the subscribed peer.
    pub received_ordered_blocks: u64,
    /// Counter: commit decisions received from the subscribed peer.
    pub received_commit_decisions: u64,
    /// Counter: block payloads received from the subscribed peer.
    pub received_block_payloads: u64,
}

/// The kind of a direct-send message, as the received-message counters
/// label it.
#[derive(Clone, Copy, Debug, PartialEq, Eq, Structural)]
pub enum MessageKind {
    OrderedBlockKind,
    CommitDecisionKind,
    BlockPayloadKind,
}

/// A counter bump that stops at the counter's ceiling.
pub open spec fn spec_inc(x: u64) -> u64 {
    if x < u64::MAX {
        (x + 1) as u64
    } else {
        x
    }
}

/// What the registry looks like after a subscription was created.
pub open spec fn spec_after_creation(m: ObserverMetrics) -> ObserverMetrics {
    ObserverMetrics {
        active_subscriptions: 1,
        created_subscriptions: spec_inc(m.created_subscriptions),
        ..m
    }
}

/// What the registry looks like after a termination labelled by `e`.
pub open spec fn spec_after_termination(m: ObserverMetrics, e: ObserverError) -> ObserverMetrics {
    let cleared = ObserverMetrics { active_subscriptions: 0, ..m };
    match e {
        ObserverError::SubscriptionDisconnected => ObserverMetrics {
            terminated_disconnected: spec_inc(m.terminated_disconnected),
            ..cleared
        },
        ObserverError::SubscriptionTimeout => ObserverMetrics {
            terminated_timeout: spec_inc(m.terminated_timeout),
            ..cleared
        },
        ObserverError::SubscriptionProgressStopped => ObserverMetrics {
            terminated_progress_stopped: spec_inc(m.terminated_progress_stopped),
            ..cleared
        },
        ObserverError::SubscriptionSuboptimal => ObserverMetrics {
            terminated_suboptimal: spec_inc(m.terminated_suboptimal),
            ..cleared
        },
        _ => cleared,
    }
}

/// What the registry looks like after a message of kind `k` was
/// received from the subscribed peer.
pub open spec fn spec_after_message_received(m: ObserverMetrics, k: MessageKind) -> ObserverMetrics {
    match k {
        MessageKind::OrderedBlockKind => ObserverMetrics {
            received_ordered_blocks: spec_inc(m.received_ordered_blocks),
            ..m
        },
        MessageKind::CommitDecisionKind => ObserverMetrics {
            received_commit_decisions: spec_inc(m.received_commit_decisions),
            ..m
        },
        MessageKind::BlockPayloadKind => ObserverMetrics {
            received_block_payloads: spec_inc(m.received_block_payloads),
            ..m
        },
    }
}

/// A counter bump that stops at the counter's ceiling.
pub fn saturating_inc(x: u64) -> (r: u64)
    ensures
        r == spec_inc(x),
{
    if x < u64::MAX {
        x + 1
    } else {
        x
    }
}

impl ObserverMetrics {
    /// A zeroed registry.
    pub fn new() -> (r: ObserverMetrics)
        ensures
            r == (ObserverMetrics {
                active_subscriptions: 0,
                created_subscriptions: 0,
                terminated_disconnected: 0,
                terminated_timeout: 0,
                terminated_progress_stopped: 0,
                terminated_suboptimal: 0,
                received_ordered_blocks: 0,
                received_commit_decisions: 0,
                received_block_payloads: 0,
            }),
    {
        ObserverMetrics {
            active_subscriptions: 0,
            created_subscriptions: 0,
            terminated_disconnected: 0,
            terminated_timeout: 0,
            terminated_progress_stopped: 0,
            terminated_suboptimal: 0,
            received_ordered_blocks: 0,
            received_commit_decisions: 0,
            received_block_payloads: 0,
        }
    }

    /// Records a message received from the subscribed peer, counted
    /// under its kind's label.
    pub fn record_message_received(&mut self, k: MessageKind)
        ensures
            *final(self) == spec_after_message_received(*old(self), k),
    {
        match k {
            MessageKind::OrderedBlockKind => {
                self.received_ordered_blocks = saturating_inc(self.received_ordered_blocks);
            },
            MessageKind::CommitDecisionKind => {
                self.received_commit_decisions = saturating_inc(self.received_commit_decisions);
            },
            MessageKind::BlockPayloadKind => {
                self.received_block_payloads = saturating_inc(self.received_block_payloads);
            },
        }
    }

    /// Records a created subscription: the gauge goes to one and the
    /// creation counter is bumped.
    pub fn record_subscription_created(&mut self)
        ensures
            *final(self) == spec_after_creation(*old(self)),
    {
        self.active_subscriptions = 1;
        self.created_subscriptions = saturating_inc(self.created_subscriptions);
    }

    /// Records a terminated subscription: the gauge goes to zero and the
    /// counter of the given error kind is bumped.
    pub fn record_subscription_terminated(&mut self, e: ObserverError)
        ensures
            *final(self) == spec_after_termination(*old(self), e),
    {
        self.active_subscriptions = 0;
        match e {
            ObserverError::SubscriptionDisconnected => {
                self.terminated_disconnected = saturating_inc(self.terminated_disconnected);
            },
            ObserverError::SubscriptionTimeout => {
                self.terminated_timeout = saturating_inc(self.terminated_timeout);
            },
            ObserverError::SubscriptionProgressStopped => {
                self.terminated_progress_stopped = saturating_inc(
                    self.terminated_progress_stopped,
                );
            },
            ObserverError::SubscriptionSuboptimal => {
                self.terminated_suboptimal = saturating_inc(self.terminated_suboptimal);
            },
            _ => {},
        }
    }
}

} // verus!
