//! The mount registry: a process-wide, append-only binding from mount
//! identifiers to backend instances. Identifiers are assigned
//! monotonically from 0 and are never reused, so an identifier once
//! observed stays valid forever.

use vstd::prelude::*;

use crate::error::VfsError;
use crate::fs::{read_agrees, Filesystem};
use crate::tmpfs::{slot_read, slot_write, DataType, SlotView, TmpFS};

verus! {

/// One registered mount: an identifier bound to a backend instance.
pub struct MountPoint {
    pub id: u64,
    pub fs: TmpFS,
}

impl MountPoint {
    /// Reads through this mount's backend.
    pub fn read(&self, inode: u64, size: u64) -> (r: Result<Vec<u8>, VfsError>)
        ensures
            read_agrees(r, slot_read(self.fs.slots(), inode as int, size as int)),
    {
        self.fs.read(inode, size)
    }

    /// Writes through this mount's backend.
    pub fn write(&mut self, inode: u64, data: &[u8]) -> (r: Result<u64, VfsError>)
        ensures
            final(self).id == old(self).id,
            final(self).fs.slots() == slot_write(old(self).fs.slots(), inode as int, data@),
            r == if (inode as int) < old(self).fs.slots().len() {
                Ok::<u64, VfsError>(data@.len() as u64)
            } else {
                Err::<u64, VfsError>(VfsError::NotFound)
            },
    {
        self.fs.write(inode, data)
    }
}

/// What looking a mount identifier up in the registry yields.
pub open spec fn reg_lookup(reg: Seq<Seq<SlotView>>, id: int) -> Result<Option<int>, VfsError> {
    if reg.len() == 0 {
        Err(VfsError::RegistryUninitialized)
    } else if 0 <= id < reg.len() {
        Ok(Some(id))
    } else {
        Ok(None)
    }
}

/// What reading through a mount of the registry returns.
pub open spec fn reg_read(reg: Seq<Seq<SlotView>>, id: int, inode: int, size: int) -> Result<
    Seq<u8>,
    VfsError,
> {
    if reg.len() == 0 {
        Err(VfsError::RegistryUninitialized)
    } else if 0 <= id < reg.len() {
        slot_read(reg[id], inode, size)
    } else {
        Err(VfsError::InvalidMount)
    }
}

/// What writing through a mount of the registry leaves behind, and what
/// it returns.
pub open spec fn reg_write(reg: Seq<Seq<SlotView>>, id: int, inode: int, data: Seq<u8>) -> (Seq<
    Seq<SlotView>,
>, Result<u64, VfsError>) {
    if reg.len() == 0 {
        (reg, Err(VfsError::RegistryUninitialized))
    } else if 0 <= id < reg.len() {
        if 0 <= inode < reg[id].len() {
            (reg.update(id, slot_write(reg[id], inode, data)), Ok(data.len() as u64))
        } else {
            (reg, Err(VfsError::NotFound))
        }
    } else {
        (reg, Err(VfsError::InvalidMount))
    }
}

/// What allocating a fresh empty slot through a mount of the registry
/// leaves behind, and the new slot's number.
pub open spec fn reg_alloc(reg: Seq<Seq<SlotView>>, id: int) -> (Seq<Seq<SlotView>>, Result<
    u64,
    VfsError,
>) {
    if reg.len() == 0 {
        (reg, Err(VfsError::RegistryUninitialized))
    } else if 0 <= id < reg.len() {
        (
            reg.update(id, reg[id].push(SlotView::Regular(Seq::empty()))),
            Ok(reg[id].len() as u64),
        )
    } else {
        (reg, Err(VfsError::InvalidMount))
    }
}

/// The registry of mounts. Append-only: there is no unmount.
pub struct MountRegistry {
    mounts: Vec<MountPoint>,
}

impl MountRegistry {
    /// The model of the registry: each mount's slots, indexed by mount
    /// identifier.
    pub closed spec fn mounts_view(&self) -> Seq<Seq<SlotView>> {
        self.mounts@.map_values(|m: MountPoint| m.fs.slots())
    }

    /// Well-formed: the identifier of each mount is its position, so
    /// identifiers are unique and monotonic from 0.
    pub closed spec fn wf(&self) -> bool {
        forall|i: int| 0 <= i < self.mounts@.len() ==> #[trigger] self.mounts@[i].id == i as u64
    }

    /// A registry with no mounts yet.
    pub fn new() -> (r: Self)
        ensures
            r.wf(),
            r.mounts_view() == Seq::<Seq<SlotView>>::empty(),
    {
        let r = Self { mounts: Vec::new() };
        proof {
            assert(r.mounts_view() =~= Seq::<Seq<SlotView>>::empty());
        }
        r
    }

    /// Reads `size` bytes of slot `inode` through mount `id`.
    pub fn read_through(&self, id: u64, inode: u64, size: u64) -> (r: Result<Vec<u8>, VfsError>)
        requires
            self.wf(),
        ensures
            read_agrees(r, reg_read(self.mounts_view(), id as int, inode as int, size as int)),
    {
        match MountPoint::get_mountpoint_by_id(self, id) {
            Err(e) => Err(e),
            Ok(None) => Err(VfsError::InvalidMount),
            Ok(Some(i)) => self.mounts[i].read(inode, size),
        }
    }

    /// Replaces the content of slot `inode` through mount `id`.
    pub fn write_through(&mut self, id: u64, inode: u64, data: &[u8]) -> (r: Result<
        u64,
        VfsError,
    >)
        requires
            old(self).wf(),
        ensures
            final(self).wf(),
            (final(self).mounts_view(), r) == reg_write(
                old(self).mounts_view(),
                id as int,
                inode as int,
                data@,
            ),
    {
        match MountPoint::get_mountpoint_by_id(self, id) {
            Err(e) => Err(e),
            Ok(None) => Err(VfsError::InvalidMount),
            Ok(Some(i)) => {
                let m = &mut self.mounts[i];
                let r = m.write(inode, data);
                proof {
                    if (inode as int) < old(self).mounts_view()[id as int].len() {
                        assert(self.mounts_view() =~= old(self).mounts_view().update(
                            id as int,
                            slot_write(old(self).mounts_view()[id as int], inode as int, data@),
                        ));
                    } else {
                        assert(self.mounts_view() =~= old(self).mounts_view());
                    }
                }
                r
            }
        }
    }

    /// Allocates a fresh empty regular slot through mount `id` and
    /// returns its number.
    pub fn alloc_through(&mut self, id: u64) -> (r: Result<u64, VfsError>)
        requires
            old(self).wf(),
            (id as int) < old(self).mounts_view().len() ==> old(self).mounts_view()[id as int].len()
                < u64::MAX,
        ensures
            final(self).wf(),
            (final(self).mounts_view(), r) == reg_alloc(old(self).mounts_view(), id as int),
    {
        match MountPoint::get_mountpoint_by_id(self, id) {
            Err(e) => Err(e),
            Ok(None) => Err(VfsError::InvalidMount),
            Ok(Some(i)) => {
                let content: Vec<u8> = Vec::new();
                let ghost c = content@;
                let m = &mut self.mounts[i];
                let inode = m.fs.add_node(DataType::Regular(content));
                proof {
                    assert(c =~= Seq::<u8>::empty());
                    assert(self.mounts_view() =~= old(self).mounts_view().update(
                        id as int,
                        old(self).mounts_view()[id as int].push(
                            SlotView::Regular(Seq::empty()),
                        ),
                    ));
                }
                Ok(inode)
            }
        }
    }
}

impl MountPoint {
    /// Creates a new mount for the given backend, registering it and
    /// returning its identifier.
    pub fn new(registry: &mut MountRegistry, fs: TmpFS) -> (id: u64)
        requires
            old(registry).wf(),
            old(registry).mounts_view().len() < u64::MAX,
        ensures
            final(registry).wf(),
            id == old(registry).mounts_view().len(),
            final(registry).mounts_view() == old(registry).mounts_view().push(fs.slots()),
    {
        let id = registry.mounts.len() as u64;
        let ghost s = fs.slots();
        registry.mounts.push(MountPoint { id, fs });
        proof {
            assert(registry.mounts_view() =~= old(registry).mounts_view().push(s));
        }
        id
    }

    /// Looks a mount identifier up: an error if no mount was ever
    /// created, otherwise the position of the mount with that
    /// identifier, or nothing for an unknown identifier.
    pub fn get_mountpoint_by_id(registry: &MountRegistry, id: u64) -> (r: Result<
        Option<usize>,
        VfsError,
    >)
        requires
            registry.wf(),
        ensures
            match r {
                Ok(Some(i)) => reg_lookup(registry.mounts_view(), id as int) == Ok::<
                    Option<int>,
                    VfsError,
                >(Some(i as int)),
                Ok(None) => reg_lookup(registry.mounts_view(), id as int) == Ok::<
                    Option<int>,
                    VfsError,
                >(None::<int>),
                Err(e) => reg_lookup(registry.mounts_view(), id as int) == Err::<
                    Option<int>,
                    VfsError,
                >(e),
            },
    {
        let n = registry.mounts.len();
        if n == 0 {
            return Err(VfsError::RegistryUninitialized);
        }
        let mut i: usize = 0;
        while i < n
            invariant
                registry.wf(),
                n == registry.mounts_view().len(),
                i <= n,
                forall|j: int| 0 <= j < i ==> #[trigger] registry.mounts@[j].id != id,
            decreases n - i,
        {
            if registry.mounts[i].id == id {
                return Ok(Some(i));
            }
            i = i + 1;
        }
        proof {
            if (id as int) < registry.mounts@.len() {
                assert(registry.mounts@[id as int].id == id);
            }
        }
        Ok(None)
    }
}

} // verus!
