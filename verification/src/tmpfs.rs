//! The in-memory reference backend.
//!
//! It keeps an append-only collection of storage slots, indexed by slot
//! number: 0-based, contiguous, in insertion order. Slot numbers are
//! derived from the collection length, so each backend instance owns a
//! dense private numbering space.

use vstd::prelude::*;

use crate::error::VfsError;
use crate::fs::Filesystem;

verus! {

/// What one storage slot holds.
pub enum DataType {
    /// Regular content: a raw byte sequence.
    Regular(Vec<u8>),
    /// A directory: named sub-entries. The name-space tree does not
    /// consult these; they are retained for future backends.
    Directory(Vec<DirType>),
    /// A link: a byte sequence interpreted as a target.
    Link(Vec<u8>),
}

/// One named entry of a directory slot.
pub struct DirType {
    pub name: String,
    pub inode: u64,
    pub entry_type: DataType,
}

impl DirType {
    pub fn new(name: String, inode: u64, entry_type: DataType) -> (r: Self)
        ensures
            r.name == name,
            r.inode == inode,
            r.entry_type == entry_type,
    {
        Self { name, inode, entry_type }
    }
}

/// One storage slot of the in-memory backend.
pub struct Node {
    pub data_type: DataType,
}

impl Node {
    pub fn new(data_type: DataType) -> (r: Self)
        ensures
            r.data_type == data_type,
    {
        Self { data_type }
    }
}

/// The mathematical model of one slot: its tag, and its bytes where it
/// holds regular content. Directory entries are invisible to the model
/// because no operation of the subsystem reads them.
pub enum SlotView {
    Regular(Seq<u8>),
    Directory,
    Link,
}

/// The model of one slot value.
pub open spec fn slot_view(n: Node) -> SlotView {
    match n.data_type {
        DataType::Regular(data) => SlotView::Regular(data@),
        DataType::Directory(_) => SlotView::Directory,
        DataType::Link(_) => SlotView::Link,
    }
}

/// What reading `size` bytes from slot `inode` of a backend returns:
/// the slot's regular content, clamped to the lesser of `size` and the
/// stored length — never padded, never an error for a large `size`.
pub open spec fn slot_read(slots: Seq<SlotView>, inode: int, size: int) -> Result<Seq<u8>, VfsError> {
    if 0 <= inode < slots.len() {
        match slots[inode] {
            SlotView::Regular(data) => if size < data.len() {
                Ok(data.take(size))
            } else {
                Ok(data)
            },
            SlotView::Directory => Err(VfsError::TypeMismatch),
            SlotView::Link => Err(VfsError::TypeMismatch),
        }
    } else {
        Err(VfsError::NotFound)
    }
}

/// What writing `data` to slot `inode` leaves behind: the slot's entire
/// content is replaced with exactly `data` — regular content, whatever
/// the slot held before.
pub open spec fn slot_write(slots: Seq<SlotView>, inode: int, data: Seq<u8>) -> Seq<SlotView> {
    if 0 <= inode < slots.len() {
        slots.update(inode, SlotView::Regular(data))
    } else {
        slots
    }
}

/// Round trip: writing any byte sequence to a known slot, then
/// reading it back at its own length, yields exactly that sequence.
pub proof fn lemma_write_read_roundtrip(slots: Seq<SlotView>, inode: int, data: Seq<u8>)
    requires
        0 <= inode < slots.len(),
    ensures
        slot_read(slot_write(slots, inode, data), inode, data.len() as int) == Ok::<
            Seq<u8>,
            VfsError,
        >(data),
{
}

/// Overwriting truncates: after a shorter sequence replaces a longer
/// one, a read of any size at least the new length returns exactly the
/// new content — never remnants of the old.
pub proof fn lemma_overwrite_truncates(
    slots: Seq<SlotView>,
    inode: int,
    first: Seq<u8>,
    second: Seq<u8>,
    size: int,
)
    requires
        0 <= inode < slots.len(),
        size >= second.len(),
    ensures
        slot_read(slot_write(slot_write(slots, inode, first), inode, second), inode, size) == Ok::<
            Seq<u8>,
            VfsError,
        >(second),
{
    assert(slot_write(slot_write(slots, inode, first), inode, second)[inode] == SlotView::Regular(
        second,
    ));
}

/// Reading more than is stored never errors and never pads: it returns
/// exactly the stored content.
pub proof fn lemma_read_no_pad(slots: Seq<SlotView>, inode: int, content: Seq<u8>, size: int)
    requires
        0 <= inode < slots.len(),
        slots[inode] == SlotView::Regular(content),
        size >= content.len(),
    ensures
        slot_read(slots, inode, size) == Ok::<Seq<u8>, VfsError>(content),
{
}

/// The in-memory backend: an append-only collection of slots.
pub struct TmpFS {
    max_size: u64,
    nodes: Vec<Node>,
}

impl TmpFS {
    /// The model of the backend: the sequence of its slots.
    pub closed spec fn slots(&self) -> Seq<SlotView> {
        self.nodes@.map_values(|n: Node| slot_view(n))
    }

    /// A fresh backend with no slots. `max_size` is a capacity hint
    /// that the current operations do not enforce.
    pub fn new(max_size: u64) -> (r: Self)
        ensures
            r.slots() == Seq::<SlotView>::empty(),
    {
        let r = Self { max_size, nodes: Vec::new() };
        proof {
            assert(r.slots() =~= Seq::<SlotView>::empty());
        }
        r
    }

    /// Appends a slot holding the given value and returns its number,
    /// which is the count of slots before the append.
    pub fn add_node(&mut self, data_type: DataType) -> (r: u64)
        requires
            old(self).slots().len() < u64::MAX,
        ensures
            r == old(self).slots().len(),
            final(self).slots() == old(self).slots().push(slot_view(Node { data_type })),
    {
        let ghost n = data_type;
        let inode = self.nodes.len() as u64;
        let node = Node::new(data_type);
        self.nodes.push(node);
        proof {
            assert(self.slots() =~= old(self).slots().push(slot_view(Node { data_type: n })));
        }
        inode
    }
}

impl Filesystem for TmpFS {
    open spec fn view_slots(&self) -> Seq<SlotView> {
        self.slots()
    }

    fn read(&self, inode: u64, size: u64) -> (r: Result<Vec<u8>, VfsError>) {
        let n = self.nodes.len();
        if inode >= n as u64 {
            return Err(VfsError::NotFound);
        }
        let node = &self.nodes[inode as usize];
        match &node.data_type {
            DataType::Regular(data) => {
                let stored = data.len();
                let take = if size < stored as u64 { size as usize } else { stored };
                let mut out: Vec<u8> = Vec::new();
                let mut i: usize = 0;
                while i < take
                    invariant
                        i <= take,
                        take <= data@.len(),
                        out@ == data@.take(i as int),
                    decreases take - i,
                {
                    let b = data[i];
                    out.push(b);
                    proof {
                        assert(out@ =~= data@.take(i + 1 as int));
                    }
                    i = i + 1;
                }
                proof {
                    if size as int >= data@.len() {
                        assert(data@.take(data@.len() as int) =~= data@);
                    }
                }
                Ok(out)
            }
            DataType::Directory(_) => Err(VfsError::TypeMismatch),
            DataType::Link(_) => Err(VfsError::TypeMismatch),
        }
    }

    fn write(&mut self, inode: u64, data: &[u8]) -> (r: Result<u64, VfsError>) {
        let n = self.nodes.len();
        if inode >= n as u64 {
            return Err(VfsError::NotFound);
        }
        let mut content: Vec<u8> = Vec::new();
        let mut i: usize = 0;
        let len = data.len();
        while i < len
            invariant
                i <= len,
                len == data@.len(),
                content@ == data@.take(i as int),
            decreases len - i,
        {
            let b = data[i];
            content.push(b);
            proof {
                assert(content@ =~= data@.take(i + 1 as int));
            }
            i = i + 1;
        }
        proof {
            assert(content@ =~= data@);
        }
        let node = Node::new(DataType::Regular(content));
        self.nodes.set(inode as usize, node);
        proof {
            assert(self.slots() =~= slot_write(old(self).slots(), inode as int, data@));
        }
        Ok(len as u64)
    }

    fn add_node(&mut self, data: Vec<u8>) -> (r: u64) {
        let ghost d = data@;
        let r = self.add_node(DataType::Regular(data));
        proof {
            assert(self.slots() =~= old(self).slots().push(SlotView::Regular(d)));
        }
        r
    }
}

} // verus!
