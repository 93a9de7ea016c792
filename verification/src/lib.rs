//! An in-memory virtual file system: a hierarchical name space bound
//! to pluggable storage backends, a mount registry, and an open-file
//! table that hands out descriptors.
//!
//! The whole subsystem is one explicit state value, [`Vfs`]; callers
//! that need process-wide shared state wrap it in a lock of their
//! choosing outside this crate and initialize it exactly once at boot,
//! before any open, read or write.

use vstd::prelude::*;

pub mod error;
pub mod file;
pub mod fs;
pub mod mountpoint;
pub mod tmpfs;
pub mod vfs;

use crate::file::{init_oft, OFTEntry};
use crate::mountpoint::MountRegistry;
use crate::tmpfs::SlotView;
use crate::vfs::{init_vfs, tree_wf, NodeView, VFSTree};

verus! {

/// The state of the whole file subsystem: the mount registry, the
/// name-space tree (absent until boot wiring), and the open-file
/// table (absent until boot wiring).
pub struct Vfs {
    pub registry: MountRegistry,
    pub root: Option<VFSTree>,
    pub oft: Option<Vec<OFTEntry>>,
}

impl Vfs {
    /// The model of the registry: each mount's slots, by identifier.
    pub open spec fn reg_view(&self) -> Seq<Seq<SlotView>> {
        self.registry.mounts_view()
    }

    /// Whether the name-space tree has been seeded.
    pub open spec fn has_tree(&self) -> bool {
        self.root is Some
    }

    /// The model of the name-space tree: its node arena.
    pub open spec fn tree_view(&self) -> Seq<NodeView> {
        match self.root {
            Some(t) => t@,
            None => Seq::empty(),
        }
    }

    /// Whether the open-file table has been initialized.
    pub open spec fn has_oft(&self) -> bool {
        self.oft is Some
    }

    /// The model of the open-file table: for each descriptor, the
    /// arena position of the node it references.
    pub open spec fn oft_view(&self) -> Seq<usize> {
        match self.oft {
            Some(v) => v@.map_values(|e: OFTEntry| e.file.vfs_node),
            None => Seq::empty(),
        }
    }

    /// Well-formedness of the whole subsystem: the registry is sound,
    /// the tree (once seeded) is sound against the registry, and every
    /// open descriptor references a non-root node of the tree.
    pub open spec fn wf(&self) -> bool {
        &&& self.registry.wf()
        &&& (self.has_tree() ==> tree_wf(self.tree_view(), self.reg_view()))
        &&& (forall|k: int|
            0 <= k < self.oft_view().len() ==> self.has_tree() && 0 < (
            #[trigger] self.oft_view()[k] as int) < self.tree_view().len())
    }

    /// The mount the root of the tree is bound to.
    pub open spec fn root_mount(&self) -> int {
        self.tree_view()[0].node.mountpoint_id as int
    }

    /// There is room for one more slot on the root's mount — always
    /// true in practice, stated to rule the boundary out.
    pub open spec fn can_alloc(&self) -> bool {
        self.has_tree() ==> self.reg_view()[self.root_mount()].len() < u64::MAX
    }

    /// A subsystem with nothing wired yet: no mounts, no tree, no
    /// open-file table.
    pub fn new() -> (r: Self)
        ensures
            r.wf(),
            !r.has_tree(),
            !r.has_oft(),
            r.reg_view() == Seq::<Seq<SlotView>>::empty(),
    {
        let r = Vfs { registry: MountRegistry::new(), root: None, oft: None };
        proof {
            assert(r.oft_view() =~= Seq::<usize>::empty());
        }
        r
    }
}

/// Boot wiring, called exactly once before any other operation: mounts
/// the reference backend, seeds the tree root bound to that mount's
/// root slot, and initializes the open-file table.
pub fn init(vfs: &mut Vfs)
    requires
        old(vfs).wf(),
        !old(vfs).has_tree(),
        !old(vfs).has_oft(),
        old(vfs).reg_view().len() < u64::MAX,
    ensures
        final(vfs).wf(),
        final(vfs).has_tree(),
        final(vfs).has_oft(),
        final(vfs).oft_view() == Seq::<usize>::empty(),
        final(vfs).reg_view() == old(vfs).reg_view().push(seq![SlotView::Directory]),
        final(vfs).tree_view() == seq![
            NodeView {
                name: Seq::empty(),
                parent: None,
                children: Seq::empty(),
                node: crate::vfs::Node {
                    inode: 0,
                    mountpoint_id: old(vfs).reg_view().len() as u64,
                },
            },
        ],
{
    init_vfs(vfs);
    init_oft(vfs);
}

} // verus!
