//! The message-driven core of the gateway: the wire schema of inbound
//! payment events, the topology the broker must carry before consumption
//! starts, a model of the broker state the pipeline relies on, and the
//! per-delivery processing and acknowledgment decisions.

pub mod broker;
pub mod config;
pub mod payment;
pub mod schema;
pub mod topology;
