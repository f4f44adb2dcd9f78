//! Timevault: identity-bound daily snapshots onto enrolled backup disks.
//!
//! This crate holds the decision logic of the backup orchestrator: catalog
//! validation, disk selection and identity checks, snapshot retention and
//! seeding plans, the file-synchronizer command line, job locking decisions,
//! the pristine-file cache, and the parsers for the kernel tables it reads.
//! Every step that touches the filesystem or spawns a process is performed by
//! the caller, who hands the observed values to the functions here.

pub mod text;
pub mod names;
pub mod error;
pub mod types;
pub mod calendar;
pub mod config;
pub mod fs_type;
pub mod identity;
pub mod disk;
pub mod mounts;
pub mod snapshot;
pub mod lock;
pub mod plan;
pub mod pristine;
pub mod discovery;
pub mod admin;
pub mod cli;
pub mod command;
