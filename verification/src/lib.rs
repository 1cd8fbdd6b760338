//! A verified core for a desktop self-update pipeline.
//!
//! The crate covers the logic of an application updater: comparing release
//! versions, validating a release manifest, selecting the asset for the
//! running platform, verifying artifact authenticity against a trusted key,
//! tracking download progress, and driving the staged, atomic install as a
//! state machine. All I/O (network transport, filesystem, UI events) is left
//! to a thin host layer that feeds plain values in and carries actions out.

pub mod download;
pub mod errors;
pub mod install;
pub mod manifest;
pub mod orchestrator;
pub mod select;
pub mod signature;
pub mod version;
