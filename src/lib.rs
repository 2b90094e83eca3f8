//! Decoding of a contract's event feed into entity events, the write
//! requests that propagate them, and the entity store that executes those
//! requests while keeping each child attached to at most one parent.

pub mod config;
pub mod envelope;
pub mod errors;
pub mod events;
pub mod model;
pub mod mutation;
pub mod pipeline;
pub mod server_config;
pub mod store;
