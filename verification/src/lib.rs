//! Tagged-response correlation core for an IMAP-style client.
//!
//! A client sends a command under a unique tag; the server answers with
//! untagged informational lines followed by one tagged completion line.
//! This crate classifies each received record as belonging to the in-flight
//! command or not, stops exactly at the matching completion, folds the
//! in-scope records into typed command results, and diverts everything else
//! to a side channel for unilateral server notifications.

pub mod name;
pub mod quota;
pub mod response;
pub mod sink;
