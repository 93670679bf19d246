//! Sessions: what a turn reads off the screen and the transcript, and what it does.

pub mod manager;
pub mod options;
pub mod permission;
pub mod screen;
pub mod startup;
pub mod transcript;
pub mod turn;
