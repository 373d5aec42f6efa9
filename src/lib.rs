//! Verified core of a group chat bot that tallies a daily "late" vote.
//!
//! The library holds the parts with real invariants: per-user sliding-window
//! admission control, the per-day vote aggregate and its store, the milestone
//! rule, command recognition, and the configuration the bot starts from.
pub mod commands;
pub mod config;
pub mod milestone;
mod seqs;
pub mod security;
pub mod store;
pub mod votes;
