//! Client-side convergence checking for an eventually-consistent package
//! repository service.
//!
//! After an artifact is uploaded, the service propagates it to download
//! mirrors asynchronously and, for Debian and RPM repositories, rebuilds
//! derived index metadata. This crate holds the logic a client needs to
//! decide, probe by probe, whether propagation and indexation have caught
//! up with a specific upload identified by its content checksum: a
//! cancellable polling state machine, the per-probe check functions for
//! download availability and for Debian and RPM index scans, and the
//! checksum, hex and path plumbing they rest on.
//!
//! The crate performs no I/O itself. A caller issues the HTTP probes,
//! feeds each response to the check functions here, and drives the polling
//! state machine with the outcomes.

pub mod bytes;
pub mod checksum;
pub mod content;
pub mod debian;
pub mod dispatch;
pub mod errors;
pub mod package;
pub mod path;
pub mod poll;
pub mod repository;
pub mod rpm;
