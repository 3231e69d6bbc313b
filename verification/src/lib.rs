//! Synchronization engine for named save directories.
//!
//! A save is a local directory kept in sync with a remote store through a
//! file-transfer session.  Divergence is resolved with a coarse logical
//! clock: the greatest file-modification time found under the directory.
//! The engine packs a directory into a compressed archive, publishes it
//! beside a small descriptor carrying the clock, and downloads and unpacks
//! the remote pair when the remote copy is newer.
//!
//! The crate verifies the decision logic: clock derivation, the descriptor
//! format, archive packing and unpacking, the reconciliation state machine,
//! and the bookkeeping of the worker pool that runs jobs.  Callers perform
//! the filesystem and network transfers the state machine asks for and feed
//! the outcomes back as events.

pub mod archive;
pub mod clock;
pub mod config;
pub mod descriptor;
pub mod errors;
pub mod names;
pub mod pool;
pub mod reconcile;
