//! miniSFTP core: a verified connection-lifecycle state machine and a
//! resumable, cancellable transfer engine for an SFTP client.
//!
//! The library holds the decision logic: lifecycle transitions, the
//! skip/resume/overwrite pre-flight decision, the chunked transfer state
//! machine with progress and cancellation, directory-listing construction,
//! and the formatting and path helpers. The network itself (SSH transport,
//! SFTP requests) is driven by the surrounding application, which feeds
//! events into these state machines.

pub mod commands;
pub mod config;
pub mod error;
pub mod session;
pub mod sftp;
pub mod state;
pub mod utils;
