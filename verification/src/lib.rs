//! Locate an OpenVINO shared library on disk.
//!
//! OpenVINO has no single canonical install location: the official installer,
//! a from-source build tree and ad-hoc environment configuration all place the
//! libraries differently, and every operating system decorates library file
//! names in its own way. This crate implements the resolution policy: given a
//! logical library name, it derives the platform file name, generates an
//! ordered list of candidate paths from an environment snapshot and the
//! platform's conventions, and selects the first candidate that exists as a
//! regular file.
//!
//! The crate is pure: callers take a snapshot of the relevant environment
//! variables ([`EnvSnapshot`]) and of the relevant filesystem facts
//! ([`FsState`]) and pass both to [`find`]. The search order, the platform
//! convention tables and the selection rule are all verified against the
//! specification functions in these modules.

pub mod pathname;
pub mod platform;
pub mod resolve;
