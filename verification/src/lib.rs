//! Core of a small personal audio-library server: a catalog built by a
//! recursive directory scan.
//!
//! The scanner works on a pure in-memory picture of the directory tree
//! ([`fstree::FsEntry`]); the host program enumerates the real file system,
//! reads audio tags, and hands both over as plain values.  Everything the
//! catalog promises — global index assignment, folder counts and start
//! offsets, the metadata fallback policy, and the serialized artifacts —
//! is stated in contracts and verified.

pub mod catalog;
pub mod control;
pub mod fstree;
pub mod metadata;
pub mod scan;
pub mod serialize;
