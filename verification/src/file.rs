//! File handles and the open-file table. A handle is an opened,
//! immutable binding to one node of the name-space tree; its position
//! in the table at insertion time is the file descriptor, stable for
//! process lifetime — there is no close and no slot reuse.

use vstd::prelude::*;

use crate::error::VfsError;
use crate::fs::read_agrees;
use crate::mountpoint::{reg_read, reg_write};
use crate::vfs::{get_vfs_node, resolve_at, split_spec};
use crate::Vfs;

verus! {

/// An opened binding to one node of the name-space tree, by arena
/// position. Nodes are never removed, so the binding stays valid for
/// process lifetime.
pub struct File {
    pub vfs_node: usize,
}

/// One entry of the open-file table, owning one file handle.
pub struct OFTEntry {
    pub file: File,
}

/// Initializes the open-file table, empty. Called exactly once at
/// boot.
pub fn init_oft(vfs: &mut Vfs)
    requires
        old(vfs).wf(),
        !old(vfs).has_oft(),
    ensures
        final(vfs).wf(),
        final(vfs).has_oft(),
        final(vfs).oft_view() == Seq::<usize>::empty(),
        final(vfs).has_tree() == old(vfs).has_tree(),
        final(vfs).tree_view() == old(vfs).tree_view(),
        final(vfs).reg_view() == old(vfs).reg_view(),
{
    vfs.oft = Some(Vec::new());
    proof {
        assert(vfs.oft_view() =~= Seq::<usize>::empty());
    }
}

impl File {
    /// Opens a path, creating its last segment if it is missing:
    /// resolves the path, wraps the node in a new handle, appends it
    /// to the open-file table and returns its position as the
    /// descriptor. A path that still resolves to nothing is not
    /// creatable; resolution happens before the table is consulted, so
    /// an uninitialized table is reported only after it.
    pub fn open(vfs: &mut Vfs, path: &str) -> (r: Result<u64, VfsError>)
        requires
            old(vfs).wf(),
            old(vfs).can_alloc(),
        ensures
            final(vfs).wf(),
            ({
                let segs = split_spec(path@);
                if !old(vfs).has_tree() || segs.len() <= 1 {
                    &&& r == Err::<u64, VfsError>(VfsError::PathNotCreatable)
                    &&& *final(vfs) == *old(vfs)
                } else {
                    let (ts1, reg1, f) = resolve_at(
                        old(vfs).tree_view(),
                        old(vfs).reg_view(),
                        0,
                        segs,
                        1,
                        true,
                    );
                    &&& final(vfs).tree_view() == ts1
                    &&& final(vfs).reg_view() == reg1
                    &&& final(vfs).has_tree()
                    &&& final(vfs).has_oft() == old(vfs).has_oft()
                    &&& match f {
                        None => {
                            &&& r == Err::<u64, VfsError>(VfsError::PathNotCreatable)
                            &&& final(vfs).oft_view() == old(vfs).oft_view()
                        },
                        Some(c) => {
                            if old(vfs).has_oft() {
                                &&& r == Ok::<u64, VfsError>(old(vfs).oft_view().len() as u64)
                                &&& final(vfs).oft_view() == old(vfs).oft_view().push(c)
                            } else {
                                &&& r == Err::<u64, VfsError>(VfsError::TableUninitialized)
                                &&& final(vfs).oft_view() == old(vfs).oft_view()
                            }
                        },
                    }
                }
            }),
    {
        let node_idx = match get_vfs_node(vfs, path, true) {
            Err(e) => {
                proof {
                    assert(false);
                }
                return Err(e);
            },
            Ok(None) => {
                return Err(VfsError::PathNotCreatable);
            },
            Ok(Some(idx)) => idx,
        };
        match &mut vfs.oft {
            None => Err(VfsError::TableUninitialized),
            Some(oft) => {
                let fd = oft.len() as u64;
                oft.push(OFTEntry { file: File { vfs_node: node_idx } });
                proof {
                    assert(vfs.oft_view() =~= old(vfs).oft_view().push(node_idx));
                }
                Ok(fd)
            },
        }
    }

    /// Reads up to `count` bytes from the file behind a descriptor:
    /// everything the slot stores, clamped to `count` — never padded.
    pub fn read(vfs: &Vfs, fd: u64, count: u64) -> (r: Result<Vec<u8>, VfsError>)
        requires
            vfs.wf(),
        ensures
            ({
                if !vfs.has_oft() {
                    r == Err::<Vec<u8>, VfsError>(VfsError::TableUninitialized)
                } else if fd as int >= vfs.oft_view().len() {
                    r == Err::<Vec<u8>, VfsError>(VfsError::InvalidDescriptor)
                } else {
                    let nd = vfs.tree_view()[vfs.oft_view()[fd as int] as int].node;
                    read_agrees(
                        r,
                        reg_read(
                            vfs.reg_view(),
                            nd.mountpoint_id as int,
                            nd.inode as int,
                            count as int,
                        ),
                    )
                }
            }),
    {
        let oft = match &vfs.oft {
            Some(x) => x,
            None => {
                return Err(VfsError::TableUninitialized);
            },
        };
        if fd >= oft.len() as u64 {
            return Err(VfsError::InvalidDescriptor);
        }
        let idx = oft[fd as usize].file.vfs_node;
        match &vfs.root {
            None => {
                proof {
                    assert(false);
                }
                Err(VfsError::PathNotCreatable)
            },
            Some(tree) => tree.nodes[idx].read(&vfs.registry, count),
        }
    }

    /// Writes the first `count` bytes of `data` to the file behind a
    /// descriptor, replacing the slot's entire content; `count == 0`
    /// is a no-op returning 0 without touching the backend. An invalid
    /// descriptor changes nothing.
    pub fn write(vfs: &mut Vfs, fd: u64, data: &[u8], count: u64) -> (r: Result<u64, VfsError>)
        requires
            old(vfs).wf(),
            count as int <= data@.len(),
        ensures
            final(vfs).wf(),
            final(vfs).tree_view() == old(vfs).tree_view(),
            final(vfs).oft_view() == old(vfs).oft_view(),
            final(vfs).has_tree() == old(vfs).has_tree(),
            final(vfs).has_oft() == old(vfs).has_oft(),
            ({
                if !old(vfs).has_oft() {
                    &&& r == Err::<u64, VfsError>(VfsError::TableUninitialized)
                    &&& *final(vfs) == *old(vfs)
                } else if fd as int >= old(vfs).oft_view().len() {
                    &&& r == Err::<u64, VfsError>(VfsError::InvalidDescriptor)
                    &&& *final(vfs) == *old(vfs)
                } else if count == 0 {
                    &&& r == Ok::<u64, VfsError>(0)
                    &&& *final(vfs) == *old(vfs)
                } else {
                    let nd = old(vfs).tree_view()[old(vfs).oft_view()[fd as int] as int].node;
                    (final(vfs).reg_view(), r) == reg_write(
                        old(vfs).reg_view(),
                        nd.mountpoint_id as int,
                        nd.inode as int,
                        data@.take(count as int),
                    )
                }
            }),
    {
        let oft = match &vfs.oft {
            Some(x) => x,
            None => {
                return Err(VfsError::TableUninitialized);
            },
        };
        if fd >= oft.len() as u64 {
            return Err(VfsError::InvalidDescriptor);
        }
        let idx = oft[fd as usize].file.vfs_node;
        if count == 0 {
            return Ok(0);
        }
        let dlen = data.len();
        proof {
            assert(count <= dlen as u64);
        }
        let mut content: Vec<u8> = Vec::new();
        let mut i: usize = 0;
        let take = count as usize;
        while i < take
            invariant
                i <= take,
                take <= data@.len(),
                content@ == data@.take(i as int),
            decreases take - i,
        {
            let b = data[i];
            content.push(b);
            proof {
                assert(content@ =~= data@.take(i + 1 as int));
            }
            i = i + 1;
        }
        match &vfs.root {
            None => {
                proof {
                    assert(false);
                }
                Err(VfsError::PathNotCreatable)
            },
            Some(tree) => {
                let r = tree.nodes[idx].write(&mut vfs.registry, content.as_slice());
                proof {
                    assert(content@ == data@.take(count as int));
                }
                r
            },
        }
    }
}

} // verus!
