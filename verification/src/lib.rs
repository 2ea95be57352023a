//! Core logic of a folder-cleanup assistant.
//!
//! The library works on an in-memory snapshot of a directory subtree
//! ([`snapshot::Entry`]): the host reads the filesystem into a snapshot,
//! calls the verified operations here (sizing, depth-bounded tree building,
//! flat listing, counting, classification, batch-delete bookkeeping), and
//! performs the actual filesystem mutations itself.

pub mod classify;
pub mod laws;
pub mod listing;
pub mod metadata;
pub mod mutation;
pub mod order;
pub mod paths;
pub mod preview;
pub mod snapshot;
pub mod sorting;
pub mod tree;
