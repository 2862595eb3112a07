//! Tracks files and directories for backup: content fingerprints, a registry of
//! tracked paths, and the decisions of a synchronisation run, all stated over
//! plain values and proved.

pub mod decimal;
pub mod digest;
pub mod error;
pub mod handlers;
pub mod helpers;
pub mod hex;
pub mod paths;
pub mod structs;
pub mod time;
pub mod tree;
