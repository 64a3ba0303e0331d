//! A passive consensus follower ("observer"): it subscribes to one upstream
//! peer, tracks the committed block stream, and replays it into a local
//! execution pipeline. The core is a pure state machine: network messages,
//! sync notifications and progress ticks come in as plain values, and the
//! effects the host must perform come back out as action values.

pub mod config;
pub mod errors;
pub mod metrics;
pub mod observer;
pub mod payload_store;
pub mod pending_blocks;
pub mod reconfig;
pub mod subscription;
pub mod types;
