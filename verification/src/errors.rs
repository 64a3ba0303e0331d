//! The observer's error taxonomy: every runtime error is recovered
//! locally, and the kinds below label the recovery in metrics and logs.

use vstd::prelude::*;

verus! {

/// Why a subscription was terminated or a message dropped.
#[derive(Clone, Copy, Debug, PartialEq, Eq, Structural)]
pub enum ObserverError {
    /// The subscribed peer is no longer in the connected set.
    SubscriptionDisconnected,
    /// No message arrived within the subscription timeout window.
    SubscriptionTimeout,
    /// The local storage version has stopped advancing.
    SubscriptionProgressStopped,
    /// The subscribed peer's ranking dropped out of the top window.
    SubscriptionSuboptimal,
    /// Structural or signature verification failed on an inbound message.
    InvalidMessage,
    /// A direct-send message arrived from a peer that is not the active
    /// subscription.
    UnexpectedSender,
    /// An outbound request failed.
    RpcError,
    /// An outbound request was answered with the wrong response variant.
    UnexpectedResponse,
}

/// The metric label of each error kind.
pub open spec fn spec_error_label(e: ObserverError) -> Seq<char> {
    match e {
        ObserverError::SubscriptionDisconnected => "subscription_disconnected"@,
        ObserverError::SubscriptionTimeout => "subscription_timeout"@,
        ObserverError::SubscriptionProgressStopped => "subscription_progress_stopped"@,
        ObserverError::SubscriptionSuboptimal => "subscription_suboptimal"@,
        ObserverError::InvalidMessage => "invalid_message"@,
        ObserverError::UnexpectedSender => "unexpected_sender"@,
        ObserverError::RpcError => "rpc_error"@,
        ObserverError::UnexpectedResponse => "unexpected_response"@,
    }
}

impl ObserverError {
    /// The metric label of this error kind.
    pub fn label(&self) -> (r: &'static str)
        ensures
            r@ == spec_error_label(*self),
    {
        match self {
            ObserverError::SubscriptionDisconnected => "subscription_disconnected",
            ObserverError::SubscriptionTimeout => "subscription_timeout",
            ObserverError::SubscriptionProgressStopped => "subscription_progress_stopped",
            ObserverError::SubscriptionSuboptimal => "subscription_suboptimal",
            ObserverError::InvalidMessage => "invalid_message",
            ObserverError::UnexpectedSender => "unexpected_sender",
            ObserverError::RpcError => "rpc_error",
            ObserverError::UnexpectedResponse => "unexpected_response",
        }
    }
}

} // verus!
