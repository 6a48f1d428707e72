//! A local directory watcher that mirrors file changes to a remote host.
//!
//! The library holds the verified core of the watcher: the snapshot store of
//! last-observed file metadata, the per-cycle change-detection and
//! transfer-dispatch logic, the exact text of the transfer commands, and the
//! validation of command-line arguments.  Reading the directory, spawning the
//! transfer session, and sleeping between polling cycles are left to the
//! surrounding program, which hands the library plain values.

pub mod args;
pub mod bytes;
pub mod command;
pub mod snapshot;
pub mod watch;
