//! Execution core of a host-resident command daemon: envelope sequencing and
//! replay, the job registry, the consent pipeline (session, policy, approval)
//! and the decisions of the job executor, with machine-checked contracts.

pub mod text;
pub mod wire;
pub mod outbox;
pub mod table;
pub mod registry;
pub mod config;
pub mod policy;
pub mod session;
pub mod approval;
pub mod executor;
pub mod pipeline;
pub mod browser;
pub mod framing;
pub mod store;
pub mod identity;
pub mod gateway;
pub mod display;
