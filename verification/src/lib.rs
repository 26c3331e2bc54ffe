//! Rolling-window validator monitoring core.
//!
//! Watches a finalized-block stream for a fixed set of validator stashes and
//! keeps bounded per-session statistics: how many blocks each watched
//! validator authored in each of the last few sessions, and whether it was a
//! parachain validator in each of them.  Records are pruned in lockstep with
//! session advancement, so memory stays bounded over an unbounded run.

pub mod account;
pub mod authority;
pub mod config;
pub mod errors;
pub mod hooks;
pub mod identity;
pub mod matrix;
pub mod para;
pub mod report;
pub mod session_map;
pub mod validator;

pub use account::AccountId;
