//! Transfer of files that exceed an object service's per-object size limit.
//!
//! A file is cut into parts no larger than the limit, each part is stored as an
//! object of its own, and a small manifest object records the file's name and
//! the parts' identifiers in order. The file is rebuilt by reading the manifest
//! and joining the parts in the order it lists them.

pub mod bytes;
pub mod decimal;
pub mod download;
pub mod error;
pub mod headers;
pub mod instance;
pub mod laws;
pub mod manifest;
pub mod naming;
pub mod rate_limit;
pub mod split;
pub mod upload;
