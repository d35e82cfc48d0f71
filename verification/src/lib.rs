//! Locates an installed application's data directory from a package
//! manager's library index.
//!
//! The library resolves the package manager's install root from a value read
//! out of the platform configuration store, scans the brace-delimited
//! `libraryfolders.vdf` index for the storage volume that lists a target
//! application id, joins that volume with the application's fixed subfolder,
//! and decides whether the result may be handed on, given whether the
//! directory was found on disk. All reading of the registry, the filesystem
//! and the network is left to the caller; every decision on the values read
//! is made, and proved, here.

pub mod errors;
pub mod laws;
pub mod locate;
pub mod scan;
