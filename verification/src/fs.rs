//! The storage-backend capability: the interface any storage engine
//! implements. The in-memory backend is the reference implementation;
//! future persistent backends satisfy the same three-operation contract.

use vstd::prelude::*;

use crate::error::VfsError;
use crate::tmpfs::{slot_read, slot_write, SlotView};

verus! {

/// Holds when an executable read result agrees with a modelled one.
pub open spec fn read_agrees(r: Result<Vec<u8>, VfsError>, m: Result<Seq<u8>, VfsError>) -> bool {
    match (r, m) {
        (Ok(v), Ok(s)) => v@ == s,
        (Err(e), Err(f)) => e == f,
        _ => false,
    }
}

/// A storage backend: numbered slots of content, read and written as
/// whole byte sequences, with new slots allocated on demand.
pub trait Filesystem: Sized {
    /// The model of the backend: the sequence of its slots.
    spec fn view_slots(&self) -> Seq<SlotView>;

    /// Returns up to `size` bytes of the slot's regular content;
    /// `TypeMismatch` for a directory or link slot, `NotFound` for an
    /// unknown slot number.
    fn read(&self, inode: u64, size: u64) -> (r: Result<Vec<u8>, VfsError>)
        ensures
            read_agrees(r, slot_read(self.view_slots(), inode as int, size as int)),
    ;

    /// Replaces the slot's entire content with exactly `data`;
    /// `NotFound` for an unknown slot number.
    fn write(&mut self, inode: u64, data: &[u8]) -> (r: Result<u64, VfsError>)
        ensures
            final(self).view_slots() == slot_write(old(self).view_slots(), inode as int, data@),
            r == if (inode as int) < old(self).view_slots().len() {
                Ok::<u64, VfsError>(data@.len() as u64)
            } else {
                Err::<u64, VfsError>(VfsError::NotFound)
            },
    ;

    /// Allocates a new regular-content slot initialized with `data` and
    /// returns its number: the count of slots before the allocation.
    fn add_node(&mut self, data: Vec<u8>) -> (r: u64)
        requires
            old(self).view_slots().len() < u64::MAX,
        ensures
            r == old(self).view_slots().len(),
            final(self).view_slots() == old(self).view_slots().push(SlotView::Regular(data@)),
    ;
}

} // verus!
