//! The name-space tree: a hierarchy of named nodes, each bound to a
//! storage locator (mount identifier, slot number). Nodes are created
//! lazily during path resolution and never removed. The tree owns its
//! nodes in one arena; a node names its children and its parent by
//! arena position, the parent link being a non-owning back-reference
//! reserved for future upward traversal.

use vstd::prelude::*;

use crate::error::VfsError;
use crate::fs::read_agrees;
use crate::mountpoint::{reg_alloc, reg_read, reg_write, MountPoint, MountRegistry};
use crate::tmpfs::{DataType, SlotView, TmpFS};
use crate::Vfs;

verus! {

/// A storage locator: which mount, and which slot of its backend.
#[derive(Clone, Copy, Debug, PartialEq, Eq, Structural)]
pub struct Node {
    pub inode: u64,
    pub mountpoint_id: u64,
}

/// One node of the name-space tree: a path component bound to a
/// storage locator.
pub struct VFSNode {
    pub name: String,
    pub parent: Option<usize>,
    pub children: Vec<usize>,
    pub node: Node,
}

/// The mathematical model of one tree node.
#[verifier::ext_equal]
pub struct NodeView {
    pub name: Seq<char>,
    pub parent: Option<usize>,
    pub children: Seq<usize>,
    pub node: Node,
}

impl View for VFSNode {
    type V = NodeView;

    open spec fn view(&self) -> NodeView {
        NodeView {
            name: self.name@,
            parent: self.parent,
            children: self.children@,
            node: self.node,
        }
    }
}

/// The name-space tree itself: the arena of its nodes, position 0
/// holding the root.
pub struct VFSTree {
    pub nodes: Vec<VFSNode>,
}

impl View for VFSTree {
    type V = Seq<NodeView>;

    open spec fn view(&self) -> Seq<NodeView> {
        self.nodes@.map_values(|n: VFSNode| n@)
    }
}

/// The arena position of the first child of `cs` whose name is `name`,
/// scanning `cs` in order. A position outside the arena never matches.
pub open spec fn find_child(ts: Seq<NodeView>, cs: Seq<usize>, name: Seq<char>) -> Option<usize>
    decreases cs.len(),
{
    if cs.len() == 0 {
        None
    } else if (cs[0] as int) < ts.len() && ts[cs[0] as int].name == name {
        Some(cs[0])
    } else {
        find_child(ts, cs.drop_first(), name)
    }
}

/// A locator that points into the registry: the mount is live and the
/// slot is known to its backend.
pub open spec fn node_valid(n: Node, reg: Seq<Seq<SlotView>>) -> bool {
    &&& (n.mountpoint_id as int) < reg.len()
    &&& (n.inode as int) < reg[n.mountpoint_id as int].len()
}

/// A locator whose slot holds regular content.
pub open spec fn node_regular(n: Node, reg: Seq<Seq<SlotView>>) -> bool {
    node_valid(n, reg) && reg[n.mountpoint_id as int][n.inode as int] is Regular
}

/// Well-formedness of a tree against the registry: there is exactly one
/// root, with empty name and no parent; every node's locator points
/// into the registry, and every node but the root is bound to a slot of
/// regular content; all nodes live on the root's mount; a child link
/// stays inside the arena and points strictly deeper than its parent,
/// so walks go forward and never revisit the root; and a node never
/// has two children with the same name.
pub open spec fn tree_wf(ts: Seq<NodeView>, reg: Seq<Seq<SlotView>>) -> bool {
    &&& ts.len() >= 1
    &&& ts[0].name.len() == 0
    &&& ts[0].parent is None
    &&& (forall|n: int| 0 <= n < ts.len() ==> node_valid((#[trigger] ts[n]).node, reg))
    &&& (forall|n: int| 1 <= n < ts.len() ==> node_regular((#[trigger] ts[n]).node, reg))
    &&& (forall|n: int|
        0 <= n < ts.len() ==> (#[trigger] ts[n]).node.mountpoint_id == ts[0].node.mountpoint_id)
    &&& (forall|n: int, k: int|
        0 <= n < ts.len() && 0 <= k < ts[n].children.len() ==> n < (
        #[trigger] ts[n].children[k] as int) < ts.len())
    &&& (forall|n: int, k1: int, k2: int|
        0 <= n < ts.len() && 0 <= k1 < k2 < ts[n].children.len() ==> ts[(
        #[trigger] ts[n].children[k1]) as int].name != ts[(#[trigger] ts[n].children[k2]) as int].name)
}

/// What resolving the path segments `segs`, from segment `i` at node
/// `n`, leaves behind and yields: the tree, the registry's slots, and
/// the arena position of the resolved node, if any. On reaching the
/// last segment, a missing child with a non-empty name is created when
/// `create` holds: a fresh empty slot is allocated on the node's mount
/// and a new leaf bound to it is appended. A missing child anywhere
/// else ends the walk with nothing, whatever `create` says.
pub open spec fn resolve_at(
    ts: Seq<NodeView>,
    reg: Seq<Seq<SlotView>>,
    n: int,
    segs: Seq<Seq<char>>,
    i: int,
    create: bool,
) -> (Seq<NodeView>, Seq<Seq<SlotView>>, Option<usize>)
    decreases segs.len() - i,
{
    if !(1 <= i && i < segs.len() && 0 <= n < ts.len()) {
        (ts, reg, None)
    } else {
        match find_child(ts, ts[n].children, segs[i]) {
            Some(c) => {
                if i == segs.len() - 1 {
                    (ts, reg, Some(c))
                } else {
                    resolve_at(ts, reg, c as int, segs, i + 1, create)
                }
            },
            None => {
                if i == segs.len() - 1 && segs[i].len() > 0 && create {
                    let m = ts[n].node.mountpoint_id as int;
                    let child = NodeView {
                        name: segs[i],
                        parent: Some(n as usize),
                        children: Seq::empty(),
                        node: Node {
                            inode: reg[m].len() as u64,
                            mountpoint_id: ts[n].node.mountpoint_id,
                        },
                    };
                    (
                        ts.update(
                            n,
                            NodeView { children: ts[n].children.push(ts.len() as usize), ..ts[n] },
                        ).push(child),
                        reg.update(m, reg[m].push(SlotView::Regular(Seq::empty()))),
                        Some(ts.len() as usize),
                    )
                } else {
                    (ts, reg, None)
                }
            },
        }
    }
}

impl VFSTree {
    /// Scans the children of node `parent` for one with the given name
    /// and returns its arena position.
    pub fn has_child(&self, parent: usize, name: &str) -> (r: Option<usize>)
        requires
            parent < self@.len(),
        ensures
            r == find_child(self@, self@[parent as int].children, name@),
    {
        let cs = &self.nodes[parent].children;
        let n = cs.len();
        proof {
            assert(self@[parent as int] == self.nodes@[parent as int]@);
            assert(cs@.skip(0) =~= cs@);
        }
        let mut i: usize = 0;
        while i < n
            invariant
                i <= n,
                parent < self@.len(),
                cs == self.nodes@[parent as int].children,
                n == cs@.len(),
                find_child(self@, self@[parent as int].children, name@) == find_child(
                    self@,
                    cs@.skip(i as int),
                    name@,
                ),
            decreases n - i,
        {
            let c = cs[i];
            proof {
                assert(cs@.skip(i as int)[0] == cs@[i as int]);
                assert(cs@.skip(i as int).drop_first() =~= cs@.skip(i + 1 as int));
            }
            if c < self.nodes.len() {
                if str_eq(self.nodes[c].name.as_str(), name) {
                    return Some(c);
                }
            }
            i = i + 1;
        }
        proof {
            assert(cs@.skip(n as int) =~= Seq::<usize>::empty());
        }
        None
    }

    /// Allocates a fresh empty slot on the mount of node `parent` and
    /// appends a new child of `parent` bound to it, returning the
    /// child's arena position. Fails if the parent's mount identifier
    /// is not registered.
    pub fn add_child(&mut self, parent: usize, registry: &mut MountRegistry, name: &str) -> (r:
        Result<usize, VfsError>)
        requires
            parent < old(self)@.len(),
            old(registry).wf(),
            ({
                let m = old(self)@[parent as int].node.mountpoint_id as int;
                m < old(registry).mounts_view().len() ==> old(registry).mounts_view()[m].len()
                    < u64::MAX
            }),
        ensures
            final(registry).wf(),
            ({
                let m = old(self)@[parent as int].node.mountpoint_id as int;
                let reg0 = old(registry).mounts_view();
                let (reg1, alloc_r) = reg_alloc(reg0, m);
                match r {
                    Ok(idx) => {
                        &&& idx == old(self)@.len()
                        &&& alloc_r is Ok
                        &&& final(registry).mounts_view() == reg1
                        &&& final(self)@ == old(self)@.update(
                            parent as int,
                            NodeView {
                                children: old(self)@[parent as int].children.push(idx),
                                ..old(self)@[parent as int]
                            },
                        ).push(
                            NodeView {
                                name: name@,
                                parent: Some(parent),
                                children: Seq::empty(),
                                node: Node {
                                    inode: reg0[m].len() as u64,
                                    mountpoint_id: old(self)@[parent as int].node.mountpoint_id,
                                },
                            },
                        )
                    },
                    Err(e) => {
                        &&& alloc_r == Err::<u64, VfsError>(e)
                        &&& final(registry).mounts_view() == reg0
                        &&& final(self)@ == old(self)@
                    },
                }
            }),
    {
        let mountpoint_id = self.nodes[parent].node.mountpoint_id;
        match registry.alloc_through(mountpoint_id) {
            Err(e) => Err(e),
            Ok(inode) => {
                let idx = self.nodes.len();
                let child = VFSNode {
                    name: name.to_owned(),
                    parent: Some(parent),
                    children: Vec::new(),
                    node: Node { inode, mountpoint_id },
                };
                let ghost cv = child@;
                self.nodes.push(child);
                let p = &mut self.nodes[parent];
                p.children.push(idx);
                proof {
                    assert(cv.children =~= Seq::<usize>::empty());
                    assert(self@ =~~= old(self)@.update(
                        parent as int,
                        NodeView {
                            children: old(self)@[parent as int].children.push(idx),
                            ..old(self)@[parent as int]
                        },
                    ).push(cv));
                }
                Ok(idx)
            }
        }
    }
}

/// A child that `find_child` finds lies inside the arena and never at
/// the root.
pub proof fn lemma_find_child_in_range(ts: Seq<NodeView>, cs: Seq<usize>, name: Seq<char>)
    requires
        forall|k: int| 0 <= k < cs.len() ==> 0 < (#[trigger] cs[k] as int) < ts.len(),
    ensures
        match find_child(ts, cs, name) {
            Some(c) => 0 < c < ts.len() && cs.contains(c) && ts[c as int].name == name,
            None => forall|k: int|
                0 <= k < cs.len() ==> ts[(#[trigger] cs[k]) as int].name != name,
        },
    decreases cs.len(),
{
    if cs.len() > 0 {
        let rest = cs.drop_first();
        assert(forall|k: int| 0 <= k < rest.len() ==> #[trigger] rest[k] == cs[k + 1]);
        assert(0 < (cs[0] as int) < ts.len());
        lemma_find_child_in_range(ts, rest, name);
        if (cs[0] as int) < ts.len() && ts[cs[0] as int].name == name {
            assert(find_child(ts, cs, name) == Some(cs[0]));
            assert(cs.contains(cs[0]));
        } else {
            assert(find_child(ts, cs, name) == find_child(ts, rest, name));
            match find_child(ts, rest, name) {
                Some(c) => {
                    assert(rest.contains(c));
                    let k = choose|k: int| 0 <= k < rest.len() && rest[k] == c;
                    assert(cs[k + 1] == c);
                    assert(cs.contains(c));
                },
                None => {
                    assert(forall|k: int|
                        1 <= k < cs.len() ==> ts[(#[trigger] cs[k]) as int].name != name) by {
                        assert(forall|k: int|
                            0 <= k < rest.len() ==> ts[(#[trigger] rest[k]) as int].name != name);
                        assert(forall|k: int| 1 <= k < cs.len() ==> cs[k] == rest[k - 1]);
                    }
                },
            }
        }
    }
}

/// `find_child` sees only the names of the positions it scans: a
/// larger arena that keeps those names gives the same answer.
pub proof fn lemma_find_child_stable(
    ts: Seq<NodeView>,
    ts1: Seq<NodeView>,
    cs: Seq<usize>,
    name: Seq<char>,
)
    requires
        ts1.len() >= ts.len(),
        forall|q: int| 0 <= q < ts.len() ==> ts1[q].name == (#[trigger] ts[q]).name,
        forall|k: int| 0 <= k < cs.len() ==> 0 < (#[trigger] cs[k] as int) < ts.len(),
    ensures
        find_child(ts1, cs, name) == find_child(ts, cs, name),
    decreases cs.len(),
{
    if cs.len() > 0 {
        assert(forall|k: int|
            0 <= k < cs.drop_first().len() ==> #[trigger] cs.drop_first()[k] == cs[k + 1]);
        lemma_find_child_stable(ts, ts1, cs.drop_first(), name);
    }
}

/// Resolution preserves well-formedness and never disturbs what is
/// already there: the registry keeps every mount and every stored
/// slot, existing nodes keep their names and locators, and a walk that
/// yields nothing changes nothing at all.
pub proof fn lemma_resolve_at_preserves(
    ts: Seq<NodeView>,
    reg: Seq<Seq<SlotView>>,
    n: int,
    segs: Seq<Seq<char>>,
    i: int,
    create: bool,
)
    requires
        tree_wf(ts, reg),
        ts.len() <= usize::MAX,
        reg[ts[0].node.mountpoint_id as int].len() < u64::MAX,
        0 <= n < ts.len(),
        1 <= i,
    ensures
        ({
            let (ts1, reg1, f) = resolve_at(ts, reg, n, segs, i, create);
            &&& tree_wf(ts1, reg1)
            &&& reg1.len() == reg.len()
            &&& ts1[0].node == ts[0].node
            &&& ts1.len() <= ts.len() + 1
            &&& (forall|m: int| 0 <= m < reg.len() ==> (#[trigger] reg1[m]).len() >= reg[m].len())
            &&& (forall|m: int, j: int|
                0 <= m < reg.len() && 0 <= j < reg[m].len() ==> #[trigger] reg1[m][j] == reg[m][j])
            &&& ts1.len() >= ts.len()
            &&& (forall|q: int|
                0 <= q < ts.len() ==> (#[trigger] ts1[q]).node == ts[q].node && ts1[q].name
                    == ts[q].name)
            &&& (forall|q: int|
                0 <= q < n ==> (#[trigger] ts1[q]).children == ts[q].children)
            &&& match f {
                Some(c) => 0 < c < ts1.len(),
                None => ts1 == ts && reg1 == reg,
            }
        }),
    decreases segs.len() - i,
{
    if 1 <= i && i < segs.len() && 0 <= n < ts.len() {
        lemma_find_child_in_range(ts, ts[n].children, segs[i]);
        match find_child(ts, ts[n].children, segs[i]) {
            Some(c) => {
                if i < segs.len() - 1 {
                    lemma_resolve_at_preserves(ts, reg, c as int, segs, i + 1, create);
                }
            },
            None => {
                if i == segs.len() - 1 && segs[i].len() > 0 && create {
                    let m = ts[n].node.mountpoint_id as int;
                    let child = NodeView {
                        name: segs[i],
                        parent: Some(n as usize),
                        children: Seq::empty(),
                        node: Node {
                            inode: reg[m].len() as u64,
                            mountpoint_id: ts[n].node.mountpoint_id,
                        },
                    };
                    let cidx = ts.len() as usize;
                    let ts1 = ts.update(
                        n,
                        NodeView { children: ts[n].children.push(cidx), ..ts[n] },
                    ).push(child);
                    let reg1 = reg.update(m, reg[m].push(SlotView::Regular(Seq::empty())));
                    assert(m == ts[0].node.mountpoint_id as int);
                    assert(reg[m].len() < u64::MAX);
                    assert(child.node.inode as int == reg[m].len());
                    assert(cidx as int == ts.len());
                    assert(forall|q: int| 0 <= q < ts.len() && q != n ==> ts1[q] == #[trigger] ts[q]);
                    assert(ts1[n].children == ts[n].children.push(cidx));
                    assert(ts1[cidx as int] == child);
                    assert(forall|k: int|
                        0 <= k < ts[n].children.len() ==> #[trigger] ts1[n].children[k]
                            == ts[n].children[k]);
                    assert(node_regular(child.node, reg1));
                    assert(forall|q: int|
                        0 <= q < ts1.len() ==> node_valid((#[trigger] ts1[q]).node, reg1));
                    assert(forall|k: int|
                        0 <= k < ts[n].children.len() ==> ts[(#[trigger] ts[n].children[k]) as int].name
                            != segs[i]);
                    assert forall|q: int, k1: int, k2: int|
                        0 <= q < ts1.len() && 0 <= k1 < k2 < ts1[q].children.len() implies ts1[(
                        #[trigger] ts1[q].children[k1]) as int].name != ts1[(
                        #[trigger] ts1[q].children[k2]) as int].name by {
                        if q == n {
                            if k2 == ts[n].children.len() {
                                assert(ts1[q].children[k2] == cidx);
                                assert(ts1[q].children[k1] == ts[n].children[k1]);
                                assert((ts[n].children[k1] as int) < ts.len());
                                assert(ts1[(ts[n].children[k1]) as int].name == ts[(
                                ts[n].children[k1]) as int].name);
                            } else {
                                assert(ts1[q].children[k1] == ts[n].children[k1]);
                                assert(ts1[q].children[k2] == ts[n].children[k2]);
                            }
                        } else {
                            assert(ts1[q].children == ts[q].children);
                        }
                    }
                    assert(tree_wf(ts1, reg1));
                }
            },
        }
    }
}

/// Resolving a path that was just successfully resolved with creation
/// allowed finds the very same node again, without changing the tree
/// or the registry — opening a path twice reaches one underlying node,
/// whether the first resolution found it or created it.
pub proof fn lemma_resolve_at_idempotent(
    ts: Seq<NodeView>,
    reg: Seq<Seq<SlotView>>,
    n: int,
    segs: Seq<Seq<char>>,
    i: int,
    create2: bool,
)
    requires
        tree_wf(ts, reg),
        ts.len() <= usize::MAX,
        reg[ts[0].node.mountpoint_id as int].len() < u64::MAX,
        0 <= n < ts.len(),
        1 <= i,
        resolve_at(ts, reg, n, segs, i, true).2 is Some,
    ensures
        ({
            let (ts1, reg1, f) = resolve_at(ts, reg, n, segs, i, true);
            resolve_at(ts1, reg1, n, segs, i, create2) == (ts1, reg1, f)
        }),
    decreases segs.len() - i,
{
    let (ts1, reg1, f) = resolve_at(ts, reg, n, segs, i, true);
    lemma_resolve_at_preserves(ts, reg, n, segs, i, true);
    lemma_find_child_in_range(ts, ts[n].children, segs[i]);
    match find_child(ts, ts[n].children, segs[i]) {
        Some(c) => {
            if i == segs.len() - 1 {
            } else {
                lemma_resolve_at_preserves(ts, reg, c as int, segs, i + 1, true);
                assert(ts1[n].children == ts[n].children);
                lemma_find_child_stable(ts, ts1, ts[n].children, segs[i]);
                assert(find_child(ts1, ts1[n].children, segs[i]) == Some(c));
                lemma_resolve_at_idempotent(ts, reg, c as int, segs, i + 1, create2);
            }
        },
        None => {
            let child_idx = ts.len() as usize;
            assert(ts1[n].children == ts[n].children.push(child_idx));
            assert(ts1.len() >= ts.len());
            assert(forall|q: int| 0 <= q < ts.len() ==> (#[trigger] ts1[q]).name == ts[q].name);
            lemma_find_child_stable(ts, ts1, ts[n].children, segs[i]);
            assert(find_child(ts1, ts[n].children, segs[i]) is None);
            assert(ts1[child_idx as int].name == segs[i]);
            lemma_find_child_push(ts1, ts[n].children, child_idx, segs[i]);
            assert(find_child(ts1, ts1[n].children, segs[i]) == Some(child_idx));
        },
    }
}

/// Opening one path twice: the first resolution from the root may
/// create the missing leaf; the second finds that very node and
/// changes neither the tree nor the registry. Each open then appends
/// one table entry for the node, so the two calls hand out two
/// distinct descriptors that reference one underlying node.
pub proof fn lemma_open_same_path_twice(
    ts: Seq<NodeView>,
    reg: Seq<Seq<SlotView>>,
    segs: Seq<Seq<char>>,
)
    requires
        tree_wf(ts, reg),
        ts.len() <= usize::MAX,
        reg[ts[0].node.mountpoint_id as int].len() < u64::MAX,
        resolve_at(ts, reg, 0, segs, 1, true).2 is Some,
    ensures
        ({
            let (ts1, reg1, f1) = resolve_at(ts, reg, 0, segs, 1, true);
            resolve_at(ts1, reg1, 0, segs, 1, true) == (ts1, reg1, f1)
        }),
{
    lemma_resolve_at_idempotent(ts, reg, 0, segs, 1, true);
}

/// Appending one more position to a scan that found nothing makes the
/// scan find exactly that position, provided its node bears the name.
proof fn lemma_find_child_push(ts: Seq<NodeView>, cs: Seq<usize>, c: usize, name: Seq<char>)
    requires
        find_child(ts, cs, name) is None,
        (c as int) < ts.len(),
        ts[c as int].name == name,
    ensures
        find_child(ts, cs.push(c), name) == Some(c),
    decreases cs.len(),
{
    if cs.len() == 0 {
        assert(cs.push(c)[0] == c);
        assert(cs.push(c).len() == 1);
    } else {
        assert(cs.push(c)[0] == cs[0]);
        assert(cs.push(c).drop_first() =~= cs.drop_first().push(c));
        lemma_find_child_push(ts, cs.drop_first(), c, name);
    }
}

/// Whether the chain of intermediate segments — all but the last — can
/// be walked from node `n`.
pub open spec fn chain_exists(ts: Seq<NodeView>, n: int, segs: Seq<Seq<char>>, i: int) -> bool
    decreases segs.len() - i,
{
    if i >= segs.len() - 1 {
        true
    } else if !(0 <= n < ts.len()) {
        false
    } else {
        match find_child(ts, ts[n].children, segs[i]) {
            None => false,
            Some(c) => chain_exists(ts, c as int, segs, i + 1),
        }
    }
}

/// A walk whose intermediate chain is broken yields nothing and
/// changes nothing, whatever the creation flag says: intermediate
/// nodes are never auto-created.
pub proof fn lemma_missing_intermediate(
    ts: Seq<NodeView>,
    reg: Seq<Seq<SlotView>>,
    n: int,
    segs: Seq<Seq<char>>,
    i: int,
    create: bool,
)
    requires
        1 <= i,
        !chain_exists(ts, n, segs, i),
    ensures
        resolve_at(ts, reg, n, segs, i, create) == (ts, reg, None::<usize>),
    decreases segs.len() - i,
{
    if 1 <= i && i < segs.len() && 0 <= n < ts.len() {
        match find_child(ts, ts[n].children, segs[i]) {
            Some(c) => {
                lemma_missing_intermediate(ts, reg, c as int, segs, i + 1, create);
            },
            None => {},
        }
    }
}

impl VFSTree {
    /// Walks the path segments from the root, segment by segment: the
    /// leading segment is implicitly the root and is not looked up.
    /// On the last segment a missing child with a non-empty name is
    /// created when `create` holds; a missing child anywhere else
    /// yields nothing, whatever `create` says — intermediate nodes are
    /// never auto-created.
    pub fn resolve(&mut self, registry: &mut MountRegistry, segs: &Vec<String>, create: bool) -> (r:
        Result<Option<usize>, VfsError>)
        requires
            old(registry).wf(),
            tree_wf(old(self)@, old(registry).mounts_view()),
            2 <= segs@.len(),
            old(registry).mounts_view()[old(self)@[0].node.mountpoint_id as int].len()
                < u64::MAX,
        ensures
            final(registry).wf(),
            ({
                let (ts1, reg1, f) = resolve_at(
                    old(self)@,
                    old(registry).mounts_view(),
                    0,
                    segs@.map_values(|s: String| s@),
                    1,
                    create,
                );
                &&& final(self)@ == ts1
                &&& final(registry).mounts_view() == reg1
                &&& r == Ok::<Option<usize>, VfsError>(f)
                &&& (f is None ==> *final(self) == *old(self) && *final(registry) == *old(
                    registry,
                ))
            }),
    {
        let ghost ts0 = self@;
        let ghost reg0 = registry.mounts_view();
        let ghost sv = segs@.map_values(|s: String| s@);
        let mut n: usize = 0;
        let mut i: usize = 1;
        loop
            invariant
                *self == *old(self),
                *registry == *old(registry),
                ts0 == old(self)@,
                reg0 == old(registry).mounts_view(),
                registry.wf(),
                tree_wf(self@, registry.mounts_view()),
                registry.mounts_view()[self@[0].node.mountpoint_id as int].len() < u64::MAX,
                2 <= segs@.len(),
                sv == segs@.map_values(|s: String| s@),
                1 <= i < segs@.len(),
                (n as int) < self@.len(),
                self@[n as int].node.mountpoint_id == self@[0].node.mountpoint_id,
                resolve_at(ts0, reg0, 0, sv, 1, create) == resolve_at(
                    self@,
                    registry.mounts_view(),
                    n as int,
                    sv,
                    i as int,
                    create,
                ),
            decreases segs@.len() - i,
        {
            let name = &segs[i];
            proof {
                assert(sv[i as int] == segs@[i as int]@);
            }
            let last = i == segs.len() - 1;
            match self.has_child(n, name.as_str()) {
                Some(c) => {
                    proof {
                        lemma_find_child_in_range(self@, self@[n as int].children, name@);
                    }
                    if last {
                        proof {
                            assert(resolve_at(
                                self@,
                                registry.mounts_view(),
                                n as int,
                                sv,
                                i as int,
                                create,
                            ) == (self@, registry.mounts_view(), Some(c)));
                        }
                        return Ok(Some(c));
                    }
                    proof {
                        assert(resolve_at(
                            self@,
                            registry.mounts_view(),
                            n as int,
                            sv,
                            i as int,
                            create,
                        ) == resolve_at(
                            self@,
                            registry.mounts_view(),
                            c as int,
                            sv,
                            i + 1 as int,
                            create,
                        ));
                    }
                    n = c;
                    i = i + 1;
                },
                None => {
                    let ghost ts_a = self@;
                    let ghost reg_a = registry.mounts_view();
                    if last && !name.as_str().is_empty() && create {
                        match self.add_child(n, registry, name.as_str()) {
                            Ok(idx) => {
                                proof {
                                    let (ts1, reg1, f) = resolve_at(
                                        ts_a,
                                        reg_a,
                                        n as int,
                                        sv,
                                        i as int,
                                        create,
                                    );
                                    assert(self@ =~~= ts1);
                                    assert(registry.mounts_view() =~~= reg1);
                                    assert(f == Some(idx));
                                }
                                return Ok(Some(idx));
                            },
                            Err(e) => {
                                proof {
                                    assert(false);
                                }
                                return Err(e);
                            },
                        }
                    }
                    proof {
                        assert(resolve_at(ts_a, reg_a, n as int, sv, i as int, create) == (
                            ts_a,
                            reg_a,
                            None::<usize>,
                        ));
                    }
                    return Ok(None);
                },
            }
        }
    }
}

impl VFSNode {
    /// Reads up to `size` bytes of this node's slot through its mount.
    pub fn read(&self, registry: &MountRegistry, size: u64) -> (r: Result<Vec<u8>, VfsError>)
        requires
            registry.wf(),
        ensures
            read_agrees(
                r,
                reg_read(
                    registry.mounts_view(),
                    self.node.mountpoint_id as int,
                    self.node.inode as int,
                    size as int,
                ),
            ),
    {
        registry.read_through(self.node.mountpoint_id, self.node.inode, size)
    }

    /// Replaces this node's slot content with `data` through its mount.
    pub fn write(&self, registry: &mut MountRegistry, data: &[u8]) -> (r: Result<u64, VfsError>)
        requires
            old(registry).wf(),
        ensures
            final(registry).wf(),
            (final(registry).mounts_view(), r) == reg_write(
                old(registry).mounts_view(),
                self.node.mountpoint_id as int,
                self.node.inode as int,
                data@,
            ),
    {
        registry.write_through(self.node.mountpoint_id, self.node.inode, data)
    }
}

/// Seeds the name-space tree: creates the reference backend with a
/// directory slot for the root, mounts it, and binds the tree root to
/// (that mount, that slot).
pub fn init_vfs(vfs: &mut Vfs)
    requires
        old(vfs).wf(),
        !old(vfs).has_tree(),
        old(vfs).reg_view().len() < u64::MAX,
    ensures
        final(vfs).wf(),
        final(vfs).has_tree(),
        final(vfs).has_oft() == old(vfs).has_oft(),
        final(vfs).oft_view() == old(vfs).oft_view(),
        final(vfs).reg_view() == old(vfs).reg_view().push(seq![SlotView::Directory]),
        final(vfs).tree_view() == seq![
            NodeView {
                name: Seq::empty(),
                parent: None,
                children: Seq::empty(),
                node: Node { inode: 0, mountpoint_id: old(vfs).reg_view().len() as u64 },
            },
        ],
{
    let mut tmpfs = TmpFS::new(100);
    let inode = tmpfs.add_node(DataType::Directory(Vec::new()));
    let ghost fs_slots = tmpfs.slots();
    let mountpoint_id = MountPoint::new(&mut vfs.registry, tmpfs);
    let mut nodes: Vec<VFSNode> = Vec::new();
    nodes.push(
        VFSNode {
            name: String::new(),
            parent: None,
            children: Vec::new(),
            node: Node { inode, mountpoint_id },
        },
    );
    let ghost nv = nodes@[0]@;
    vfs.root = Some(VFSTree { nodes });
    proof {
        assert(fs_slots =~= seq![SlotView::Directory]);
        assert(nv.children =~= Seq::<usize>::empty());
        assert(vfs.tree_view() =~~= seq![
            NodeView {
                name: Seq::empty(),
                parent: None,
                children: Seq::empty(),
                node: Node { inode: 0, mountpoint_id: old(vfs).reg_view().len() as u64 },
            },
        ]);
        assert(vfs.oft_view() == old(vfs).oft_view());
    }
}

/// Resolves a `/`-delimited path against the tree. The first segment
/// — everything before the first delimiter — stands for the root and
/// is not looked up, so a path without a delimiter, and the bare root
/// path itself, resolve to nothing without error. With `create`, a
/// missing last segment with a non-empty name is created as a child of
/// the node reached; a missing intermediate segment ends the walk with
/// nothing, whatever `create` says.
pub fn get_vfs_node(vfs: &mut Vfs, path: &str, create: bool) -> (r: Result<Option<usize>, VfsError>)
    requires
        old(vfs).wf(),
        old(vfs).can_alloc(),
    ensures
        final(vfs).wf(),
        final(vfs).has_oft() == old(vfs).has_oft(),
        final(vfs).oft_view() == old(vfs).oft_view(),
        final(vfs).has_tree() == old(vfs).has_tree(),
        ({
            let segs = split_spec(path@);
            if !old(vfs).has_tree() || segs.len() <= 1 {
                &&& r == Ok::<Option<usize>, VfsError>(None)
                &&& *final(vfs) == *old(vfs)
            } else {
                let (ts1, reg1, f) = resolve_at(
                    old(vfs).tree_view(),
                    old(vfs).reg_view(),
                    0,
                    segs,
                    1,
                    create,
                );
                &&& final(vfs).tree_view() == ts1
                &&& final(vfs).reg_view() == reg1
                &&& r == Ok::<Option<usize>, VfsError>(f)
                &&& match f {
                    Some(c) => 0 < c < ts1.len(),
                    None => *final(vfs) == *old(vfs),
                }
            }
        }),
{
    let segs = split_path(path);
    if segs.len() <= 1 {
        return Ok(None);
    }
    let mut tree = match vfs.root.take() {
        None => {
            return Ok(None);
        },
        Some(t) => t,
    };
    let n_nodes = tree.nodes.len();
    proof {
        assert(old(vfs).tree_view().len() == n_nodes);
        lemma_resolve_at_preserves(
            old(vfs).tree_view(),
            old(vfs).reg_view(),
            0,
            segs@.map_values(|s: String| s@),
            1,
            create,
        );
    }
    let r = tree.resolve(&mut vfs.registry, &segs, create);
    vfs.root = Some(tree);
    proof {
        let segs_s = split_spec(path@);
        let (ts1, reg1, f) = resolve_at(
            old(vfs).tree_view(),
            old(vfs).reg_view(),
            0,
            segs_s,
            1,
            create,
        );
        assert(segs@.map_values(|s: String| s@) == segs_s);
        assert(vfs.tree_view() == ts1);
        assert(vfs.reg_view() == reg1);
        assert(vfs.oft_view() == old(vfs).oft_view());
        assert(tree_wf(ts1, reg1));
        assert(vfs.wf());
    }
    r
}

/// The position of the first path delimiter of `s`, or `s.len()` if
/// there is none.
pub open spec fn first_delim(s: Seq<char>) -> nat
    decreases s.len(),
{
    if s.len() == 0 {
        0
    } else if s[0] == '/' {
        0
    } else {
        1 + first_delim(s.drop_first())
    }
}

/// The segments of `s`: the (possibly empty) stretches between its
/// path delimiters. A string without a delimiter is one segment.
pub open spec fn split_spec(s: Seq<char>) -> Seq<Seq<char>>
    decreases s.len(),
{
    let d = first_delim(s);
    if d >= s.len() {
        seq![s]
    } else {
        seq![s.take(d as int)].add(split_spec(s.skip(d + 1int)))
    }
}

/// `first_delim` names the position of the first delimiter: no
/// delimiter stands before position `k`, and either `k` holds one or
/// `k` is the end.
proof fn lemma_first_delim_at(s: Seq<char>, k: int)
    requires
        0 <= k <= s.len(),
        forall|j: int| 0 <= j < k ==> s[j] != '/',
        k < s.len() ==> s[k] == '/',
    ensures
        first_delim(s) == k,
    decreases k,
{
    if k == 0 {
        if s.len() > 0 {
            assert(s[0] == '/');
        }
    } else {
        assert(s[0] != '/');
        assert(forall|j: int| 0 <= j < k - 1 ==> s.drop_first()[j] == s[j + 1]);
        lemma_first_delim_at(s.drop_first(), k - 1);
    }
}

/// Splits a path into its `/`-delimited segments.
pub fn split_path(path: &str) -> (segs: Vec<String>)
    ensures
        segs@.map_values(|s: String| s@) == split_spec(path@),
{
    let n = path.unicode_len();
    let mut segs: Vec<String> = Vec::new();
    proof {
        assert(path@.skip(0) =~= path@);
        assert(segs@.map_values(|s: String| s@).add(split_spec(path@)) =~= split_spec(path@));
    }
    let mut start: usize = 0;
    let mut i: usize = 0;
    while i < n
        invariant
            start <= i <= n,
            n == path@.len(),
            forall|j: int| start <= j < i ==> path@[j] != '/',
            split_spec(path@) == segs@.map_values(|s: String| s@).add(
                split_spec(path@.skip(start as int)),
            ),
        decreases n - i,
    {
        if path.get_char(i) == '/' {
            let seg = path.substring_char(start, i).to_owned();
            let ghost segs0 = segs@;
            segs.push(seg);
            proof {
                let tail = path@.skip(start as int);
                assert(forall|j: int| 0 <= j < i - start ==> tail[j] == path@[j + start]);
                assert(tail[i - start] == path@[i as int]);
                lemma_first_delim_at(tail, i - start);
                assert(tail.take(i - start) =~= path@.subrange(start as int, i as int));
                assert(tail.skip(i - start + 1) =~= path@.skip(i + 1 as int));
                assert(split_spec(tail) == seq![tail.take(i - start)].add(
                    split_spec(path@.skip(i + 1 as int)),
                ));
                assert(segs@.map_values(|s: String| s@) =~= segs0.map_values(|s: String| s@).push(
                    path@.subrange(start as int, i as int),
                ));
                assert(segs0.map_values(|s: String| s@).add(
                    seq![tail.take(i - start)].add(split_spec(path@.skip(i + 1 as int))),
                ) =~= segs@.map_values(|s: String| s@).add(split_spec(path@.skip(i + 1 as int))));
            }
            start = i + 1;
        }
        i = i + 1;
    }
    let seg = path.substring_char(start, n).to_owned();
    let ghost segs0 = segs@;
    segs.push(seg);
    proof {
        let tail = path@.skip(start as int);
        assert(forall|j: int| 0 <= j < n - start ==> tail[j] == path@[j + start]);
        lemma_first_delim_at(tail, n - start);
        assert(tail =~= path@.subrange(start as int, n as int));
        assert(split_spec(tail) == seq![tail]);
        assert(segs@.map_values(|s: String| s@) =~= segs0.map_values(|s: String| s@).push(
            path@.subrange(start as int, n as int),
        ));
        assert(segs0.map_values(|s: String| s@).add(seq![tail]) =~= segs@.map_values(
            |s: String| s@,
        ));
    }
    segs
}

/// Compares two string slices character by character.
fn str_eq(a: &str, b: &str) -> (r: bool)
    ensures
        r == (a@ == b@),
{
    let n = a.unicode_len();
    if n != b.unicode_len() {
        proof {
            assert(a@ != b@) by {
                if a@ == b@ {
                    assert(a@.len() == b@.len());
                }
            }
        }
        return false;
    }
    let mut i: usize = 0;
    while i < n
        invariant
            i <= n,
            n == a@.len(),
            n == b@.len(),
            forall|j: int| 0 <= j < i ==> a@[j] == b@[j],
        decreases n - i,
    {
        if a.get_char(i) != b.get_char(i) {
            return false;
        }
        i = i + 1;
    }
    proof {
        assert(a@ =~= b@);
    }
    true
}

} // verus!
