//! An offline, append-only mirror of remote mail folders into a local
//! maildir store: the decisions of the synchronisation engine, verified.
use vstd::prelude::*;

pub mod account;
pub mod flags;
pub mod config;
pub mod delta;
pub mod mailbox;
pub mod maildir;
pub mod message;

verus! {

} // verus!
