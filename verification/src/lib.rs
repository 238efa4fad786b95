//! Converts a batch of uploaded images to one target format and packs the
//! results into a single ZIP archive.
//!
//! The crate is the verified core of an upload service: it validates the
//! requested format, derives the name of every archive entry, runs the image
//! codec and the archive writer behind stated contracts, and builds the
//! response that carries the archive.

pub mod archive;
pub mod batch;
pub mod codec;
pub mod convert;
pub mod error;
pub mod format;
pub mod response;
pub mod routes;
pub mod upload;
