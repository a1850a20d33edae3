//! Request shapes of the user endpoints that sit beside the gateway.

pub mod schema;
