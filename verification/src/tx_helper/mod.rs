//! Transactions that run in a helper process with the rights to change the system.

pub mod boot;
pub mod environment;
pub mod events;
pub mod ipc;
pub mod lock;
pub mod parent;
pub mod plan;
pub mod throttle;
pub mod transaction;
