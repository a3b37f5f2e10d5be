//! Error taxonomy for client construction and transfers.
//!
//! Every validation error is produced before any request is issued; network
//! and filesystem failures during a transfer are carried through as messages.

use vstd::prelude::*;

verus! {

/// A client could not be constructed from its configuration.
#[derive(Debug, PartialEq, Eq)]
pub enum ConfigError {
    /// A required environment value was absent; the payload names the
    /// missing variable.
    MissingCredential(String),
}

/// A transfer operation failed.
#[derive(Debug, PartialEq, Eq)]
pub enum TransferError {
    /// The local upload source path does not exist.
    NotFound,
    /// The download destination is missing or not a directory.
    InvalidDestination,
    /// Joining the key with the destination directory yields no usable
    /// parent path.
    InvalidKey,
    /// The storage service request failed; carries the underlying message.
    Network(String),
    /// A local filesystem read or write failed during streaming.
    Io(String),
}

} // verus!
