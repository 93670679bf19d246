//! Driving an interactive session of a coding agent through a pseudo terminal.

pub mod error;
pub mod ident;
pub mod json;
pub mod os_text;
pub mod pty;
pub mod session;
pub mod terminal;
pub mod text;
