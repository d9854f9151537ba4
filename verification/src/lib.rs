//! Content-addressed staging directories for worker source files.
//!
//! A staging directory is a folder whose path is derived from a language
//! name and the blake3 hash of a source file's bytes, so that identical
//! content always maps to the same folder. This crate holds the verified
//! path and hash computations; the filesystem operations that materialize
//! the folders live with the caller.

pub mod hashing;
pub mod staging;

pub use staging::Data;
