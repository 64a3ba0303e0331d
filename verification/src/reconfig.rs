//! Reconfiguration adapter: decodes the on-chain config bundle that opens
//! an epoch — validator set, consensus config, execution config and
//! randomness config — defaulting each optional piece that is missing or
//! fails to convert. The validator set is required: reconfiguration
//! without validators is unrecoverable, so callers must check for it.

use vstd::prelude::*;

use crate::types::{copy_u64s, EpochState};

verus! {

/// On-chain consensus configuration, as the observer reads it.
#[derive(Clone, Copy, Debug, PartialEq, Eq, Structural)]
pub struct ConsensusConfig {
    /// Whether block payloads travel through the quorum store.
    pub quorum_store_enabled: bool,
}

impl ConsensusConfig {
    /// The default used when the on-chain config cannot be read: the
    /// quorum store is on.
    pub fn default_if_missing() -> (r: ConsensusConfig)
        ensures
            r == (ConsensusConfig { quorum_store_enabled: true }),
    {
        ConsensusConfig { quorum_store_enabled: true }
    }
}

/// On-chain execution configuration, carried through to the execution
/// client as a versioned value.
#[derive(Clone, Copy, Debug, PartialEq, Eq, Structural)]
pub struct ExecutionConfig {
    pub version: u64,
}

impl ExecutionConfig {
    /// The default used when the on-chain config is missing.
    pub fn default_if_missing() -> (r: ExecutionConfig)
        ensures
            r == (ExecutionConfig { version: 1 }),
    {
        ExecutionConfig { version: 1 }
    }
}

/// On-chain randomness configuration, as the observer reads it.
#[derive(Clone, Copy, Debug, PartialEq, Eq, Structural)]
pub struct RandomnessConfig {
    pub enabled: bool,
}

impl RandomnessConfig {
    /// The default used when the on-chain config is missing or does not
    /// convert: randomness is off.
    pub fn default_if_missing() -> (r: RandomnessConfig)
        ensures
            r == (RandomnessConfig { enabled: false }),
    {
        RandomnessConfig { enabled: false }
    }
}

/// The randomness config as it appears on the wire: it may fail to
/// convert into [`RandomnessConfig`] even when present.
#[derive(Clone, Copy, Debug, PartialEq, Eq, Structural)]
pub struct RandomnessConfigWire {
    /// Whether the wire value converts into a known config shape.
    pub convertible: bool,
    pub enabled: bool,
}

/// One reconfiguration notification: the new epoch and the decoded
/// on-chain config bundle, each piece possibly absent.
#[derive(Debug)]
pub struct OnChainConfigPayload {
    pub epoch: u64,
    pub validator_set: Option<Vec<u64>>,
    pub consensus_config: Option<ConsensusConfig>,
    pub execution_config: Option<ExecutionConfig>,
    pub randomness_config: Option<RandomnessConfigWire>,
}

/// What the randomness wire value decodes to: the converted value when
/// present and convertible, the default otherwise.
pub open spec fn spec_randomness_of(w: Option<RandomnessConfigWire>) -> RandomnessConfig {
    match w {
        Some(wire) => if wire.convertible {
            RandomnessConfig { enabled: wire.enabled }
        } else {
            RandomnessConfig { enabled: false }
        },
        None => RandomnessConfig { enabled: false },
    }
}

/// Extracts the epoch state and the three on-chain configs from a
/// reconfiguration notification, defaulting every piece but the
/// validator set, which must be present.
pub fn extract_on_chain_configs(payload: &OnChainConfigPayload) -> (r: (
    EpochState,
    ConsensusConfig,
    ExecutionConfig,
    RandomnessConfig,
))
    requires
        payload.validator_set is Some,
    ensures
        r.0@.epoch == payload.epoch,
        Some(r.0@.validators) == match payload.validator_set {
            Some(ref v) => Some(v@),
            None => None,
        },
        r.1 == match payload.consensus_config {
            Some(c) => c,
            None => ConsensusConfig { quorum_store_enabled: true },
        },
        r.2 == match payload.execution_config {
            Some(c) => c,
            None => ExecutionConfig { version: 1 },
        },
        r.3 == spec_randomness_of(payload.randomness_config),
{
    let validators = match &payload.validator_set {
        Some(v) => copy_u64s(v),
        None => {
            // Unreachable: the validator set is required.
            Vec::new()
        },
    };
    let epoch_state = EpochState::new(payload.epoch, validators);
    let consensus_config = match payload.consensus_config {
        Some(c) => c,
        None => ConsensusConfig::default_if_missing(),
    };
    let execution_config = match payload.execution_config {
        Some(c) => c,
        None => ExecutionConfig::default_if_missing(),
    };
    let randomness_config = match payload.randomness_config {
        Some(w) => if w.convertible {
            RandomnessConfig { enabled: w.enabled }
        } else {
            RandomnessConfig::default_if_missing()
        },
        None => RandomnessConfig::default_if_missing(),
    };
    (epoch_state, consensus_config, execution_config, randomness_config)
}

/// Which payload manager an epoch runs with: backed by the observer's
/// payload store when the quorum store is on, a mempool pass-through
/// otherwise.
#[derive(Clone, Copy, Debug, PartialEq, Eq, Structural)]
pub enum PayloadManagerKind {
    QuorumStoreBacked,
    DirectMempool,
}

/// Chooses the payload manager variant for a new epoch.
pub fn choose_payload_manager(consensus_config: &ConsensusConfig) -> (r: PayloadManagerKind)
    ensures
        r == if consensus_config.quorum_store_enabled {
            PayloadManagerKind::QuorumStoreBacked
        } else {
            PayloadManagerKind::DirectMempool
        },
{
    if consensus_config.quorum_store_enabled {
        PayloadManagerKind::QuorumStoreBacked
    } else {
        PayloadManagerKind::DirectMempool
    }
}

} // verus!
