//! Request shapes of the category endpoints that sit beside the gateway.

pub mod schema;
