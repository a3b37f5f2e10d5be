//! A small object-storage client core: listing, uploading and downloading
//! named objects in a bucket.
//!
//! The library holds the verified logic: request planning and validation,
//! key and path handling, content-type inference, chunked body assembly,
//! and an in-memory store that models the service's semantics for tests.
//! The network and filesystem edges live outside the library.

pub mod chunks;
pub mod config;
pub mod content_type;
pub mod errors;
pub mod laws;
pub mod paths;
pub mod store;
pub mod transfer;
