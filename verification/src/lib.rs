//! Verified core of a local disk-image server.
//!
//! A directory of raw `qcow2` images is prepared once into an immutable
//! store: each image is zstd-compressed into an artifact and content-hashed
//! with SHA-256. A small router then answers requests against that store and
//! a process-lifetime random version token.

pub mod hexstr;
pub mod outside;
pub mod image;
pub mod store;
pub mod server;
pub mod laws;
