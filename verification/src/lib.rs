//! Verified core of a message-driven payment ingestion gateway.
//!
//! Payment events arrive over a message broker, are decoded into a wire
//! request, normalized into a creation command, handed to the domain
//! capability, and finally acknowledged or routed to a dead-letter queue.
//! The modules here hold the decision logic of that pipeline together with
//! a model of the broker state it relies on; the unverified binary around
//! the library performs the actual network calls.

pub mod amqp;
pub mod category;
pub mod payments;
pub mod user;
