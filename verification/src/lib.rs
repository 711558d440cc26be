//! Incremental builder for RIFF-family container files.
//!
//! A RIFF file is a recursive, self-describing binary envelope: a tree of
//! chunks, each carrying a 4-byte identifier, a 32-bit little-endian declared
//! payload length, an optional 4-byte form-type tag, and a payload that is
//! either raw bytes or a list of child chunks. This crate assembles such a
//! tree chunk by chunk, keeps the recursive length bookkeeping exact
//! (including the word-alignment pad byte after odd-length raw payloads), and
//! serializes the finished tree depth-first into the exact byte layout of the
//! format.

pub mod builder;
pub mod error;
pub mod fourcc;

pub use crate::builder::riff::ChunkBuilder;
pub use crate::builder::riff::ChunkData;
pub use crate::builder::riff::RiffBuilder;
pub use crate::error::RiffError;
pub use crate::error::RiffResult;
pub use crate::fourcc::FourCC;
