//! Bootstrap layer of a peer-to-peer mesh: which peers are known, which
//! connections may be attempted, and how the actors around them decide.

pub mod con;
pub mod config;
pub mod id;
pub mod laws;
pub mod msg;
pub mod orchestrator;
pub mod sig;
pub mod state;
