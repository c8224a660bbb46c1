//! Errors of the snapshot service.

use vstd::prelude::*;

use crate::hash::H256;

verus! {

/// The kinds of file system error that the service tells apart.
#[derive(Clone, Copy, PartialEq, Eq, Structural, Debug)]
pub enum IoErrorKind {
    /// The entity was not found.
    NotFound,
    /// The entity exists already.
    AlreadyExists,
    /// Any other kind.
    Other,
}

/// A file system error.
#[derive(PartialEq, Eq, Debug)]
pub struct IoError {
    /// What kind of error this is.
    pub kind: IoErrorKind,
    /// The message that came with it.
    pub message: String,
}

/// An error of the snapshot service.
#[derive(PartialEq, Eq, Debug)]
pub enum Error {
    /// The file system refused.
    StdIo(IoError),
    /// The database refused, with this message.
    Util(String),
    /// The restored state has this root, which is not the one that the manifest names.
    InvalidStateRoot(H256),
    /// Any other part of the client refused: decompression, a rebuilder, a snapshot reader or
    /// writer, the client's own snapshotting or its database.
    Client(String),
}

} // verus!
