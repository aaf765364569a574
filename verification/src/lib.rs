//! A verified core for a line-oriented file-transfer protocol.
//!
//! The library holds the per-connection protocol engine: command
//! parsing, root-contained path resolution, and the framing rules for
//! uploads and downloads.  All socket and filesystem work is left to
//! the embedding program, which drives a [`session::Session`] with the
//! lines it reads and the filesystem facts it gathers.

pub mod command;
pub mod laws;
pub mod resolve;
pub mod session;
pub mod text;
