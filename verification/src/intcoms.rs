//! Communication between the plugins and the running database server.

pub mod client;
pub mod types;
