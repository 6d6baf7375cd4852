//! A verified core for tailing a growing log file.
//!
//! The library models the lifecycle of a single watched file as a state
//! machine: every decision the tailer makes (when to keep draining, when to
//! back off and poll, when to treat the file as rotated, how to cut emitted
//! chunks out of the byte stream) is an ordinary function with a contract.
//! The surrounding process performs the file reads, metadata probes and
//! sleeps, and feeds their outcomes back in as events.

use vstd::prelude::*;

pub mod builder;
pub mod errors;
pub mod laws;
pub mod reader;
pub mod watcher;

verus! {

/// How the watcher cuts newly appended bytes into emitted chunks.
#[derive(Debug, Clone, Copy, PartialEq, Eq, Structural)]
pub enum LogReaderMode {
    /// Everything read in one poll becomes one chunk.
    ReadToEnd,
    /// One newline-terminated line per chunk, with a forced flush once an
    /// unterminated line reaches the cap.
    NextLine,
}

} // verus!
