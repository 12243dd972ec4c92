//! Core of a disk-usage utility: compute the total storage footprint of a
//! set of filesystem root paths, summing per-entry sizes while counting
//! files referenced by multiple hard links only once, and collecting
//! recoverable per-entry failures instead of aborting.
//!
//! The walk is specified over a snapshot of the tree ([`walk::FsTree`]):
//! each node records the outcome of the metadata lookup and, for
//! directories, the outcome of listing the children. The walker turns a
//! snapshot into a stream of messages and the aggregator folds the stream
//! into a total and an error list; both are verified against those
//! specifications, and the aggregation is proved independent of the order
//! in which messages arrive.

pub mod aggregate;
mod filesize;
pub mod laws;
mod metadata;
mod unique_id;
pub mod walk;

pub use crate::filesize::FilesizeType;
pub use crate::metadata::EntryMetadata;
pub use crate::unique_id::generate_unique_id;
pub use crate::unique_id::spec_unique_id;
pub use crate::unique_id::UniqueID;
pub use crate::walk::Error;
pub use crate::walk::Walk;
