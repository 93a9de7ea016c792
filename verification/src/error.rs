//! The error taxonomy of the file subsystem.
//!
//! Every operation returns an error value rather than panicking; all
//! errors are recoverable at the call site.

use vstd::prelude::*;

verus! {

/// The kind of failure a file-subsystem operation can report.
#[derive(Clone, Copy, Debug, PartialEq, Eq, Structural)]
pub enum VfsError {
    /// The open-file table has not been initialized yet.
    TableUninitialized,
    /// The mount registry has never had a mount created.
    RegistryUninitialized,
    /// A descriptor does not name an entry of the open-file table.
    InvalidDescriptor,
    /// A node's mount identifier is not registered.
    InvalidMount,
    /// A path could not be resolved to a node, even with creation allowed.
    PathNotCreatable,
    /// A storage slot number is unknown to the backend.
    NotFound,
    /// A slot holds a directory or a link where regular content was expected.
    TypeMismatch,
    /// A caller-supplied memory region resolved to a null address.
    /// The library itself never returns this; it is reserved for the
    /// unverified callers that translate raw regions into slices.
    NullBuffer,
}

impl VfsError {
    /// A human-readable description, for a diagnostic sink.
    pub fn message(&self) -> (r: &'static str)
        ensures
            r@.len() > 0,
    {
        proof {
            reveal_strlit("Open File Table not initialized!");
            reveal_strlit("Mount registry not initialized!");
            reveal_strlit("Invalid file descriptor!");
            reveal_strlit("Invalid mountpoint id!");
            reveal_strlit("Unable to create file, check your path!");
            reveal_strlit("The specified iNode does not exist!");
            reveal_strlit("Trying to read data from a directory or a link!");
            reveal_strlit("A supplied buffer resolved to a null pointer!");
        }
        match self {
            VfsError::TableUninitialized => "Open File Table not initialized!",
            VfsError::RegistryUninitialized => "Mount registry not initialized!",
            VfsError::InvalidDescriptor => "Invalid file descriptor!",
            VfsError::InvalidMount => "Invalid mountpoint id!",
            VfsError::PathNotCreatable => "Unable to create file, check your path!",
            VfsError::NotFound => "The specified iNode does not exist!",
            VfsError::TypeMismatch => "Trying to read data from a directory or a link!",
            VfsError::NullBuffer => "A supplied buffer resolved to a null pointer!",
        }
    }
}

} // verus!
