//! Request shapes of the payment endpoints, among them the creation command
//! that the gateway's message pipeline produces.

pub mod schema;
