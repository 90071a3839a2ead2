//! Verified core of a bidirectional sync between a local beads issue tracker
//! and monday.com boards.

pub mod text;
pub mod search;
pub mod clock;
pub mod sync;
pub mod config;
pub mod beads;
pub mod api;
pub mod commands;
