//! Event-coordination core of a multi-shard gateway client: the shard
//! readiness barrier, the history of tracked replies, the reaction-gated
//! confirmation workflow and the command middleware decisions.

pub mod readiness;

pub mod history;
pub mod confirm;
pub mod middleware;
pub mod handler;
