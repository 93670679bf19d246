//! The pseudo terminal that the agent's process runs in.

pub mod config;
pub mod mcp;
pub mod session;
pub mod submit;
