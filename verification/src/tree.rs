//! The display tree.
//!
//! Nodes live in an arena and are named by their index, which never changes.
//! A node knows its parent and the depth it is stored under; a parent keeps a
//! list of its children in ascending order of depth. The two are kept
//! consistent: a child is listed by its parent exactly once, under its own
//! depth, and no two children of one parent share a depth. A node is always
//! created after its parent, so the parent's index is the smaller one.

use vstd::prelude::*;
use crate::geometry::{lemma_compose_identity, ColorTransform, Matrix, Rectangle};
use crate::style::PathState;
use crate::text::{decimal, spec_decimal};
use crate::timeline::Timeline;

verus! {

/// The name of a node: its index in the arena.
pub type NodeId = usize;

/// What kind of object a node is.
#[derive(Clone, Copy, Debug, PartialEq, Eq)]
pub enum NodeKind {
    Clip,
    Text,
}

/// One entry of a parent's list of children.
#[derive(Clone, Copy, Debug, PartialEq, Eq)]
pub struct Child {
    pub depth: i32,
    pub node: NodeId,
}

/// A node of the display tree.
#[derive(Debug)]
pub struct Node {
    pub parent: Option<NodeId>,
    pub depth: i32,
    pub children: Vec<Child>,
    pub kind: NodeKind,
    pub name: String,
    pub content: Option<u16>,
    pub matrix: Matrix,
    pub color_transform: ColorTransform,
    pub bounds: Rectangle,
    pub timeline: Timeline,
    pub drawing: PathState,
}

/// Where a node hangs: its parent, if it has one, and its depth.
pub struct Link {
    pub parent: Option<NodeId>,
    pub depth: i32,
}

/// The display tree: an arena of nodes.
#[derive(Debug)]
pub struct DisplayTree {
    pub nodes: Vec<Node>,
}

/// The links after node `c` has been taken from its parent.
pub open spec fn links_detached(links: Seq<Link>, c: int) -> Seq<Link> {
    Seq::new(
        links.len(),
        |i: int|
            if i == c {
                Link { parent: None, depth: links[i].depth }
            } else {
                links[i]
            },
    )
}

/// The links after node `c` has been put under `p` at depth `d`: a child
/// that `p` had at that depth leaves the tree.
pub open spec fn links_placed(links: Seq<Link>, p: NodeId, c: int, d: i32) -> Seq<Link> {
    Seq::new(
        links.len(),
        |i: int|
            if i == c {
                Link { parent: Some(p), depth: d }
            } else if links[i].parent == Some(p) && links[i].depth == d {
                Link { parent: None, depth: links[i].depth }
            } else {
                links[i]
            },
    )
}

/// The links after node `c` has moved to depth `d` under its parent: a
/// sibling that was at that depth takes the depth that `c` had.
pub open spec fn links_swapped(links: Seq<Link>, c: int, d: i32) -> Seq<Link> {
    Seq::new(
        links.len(),
        |i: int|
            if i == c {
                Link { parent: links[i].parent, depth: d }
            } else if links[i].parent == links[c].parent && links[c].parent is Some
                && links[i].depth == d {
                Link { parent: links[i].parent, depth: links[c].depth }
            } else {
                links[i]
            },
    )
}

/// Whether two nodes differ in nothing but where they hang and which
/// children they list.
pub open spec fn same_content(before: Node, after: Node) -> bool {
    after == (Node {
        parent: after.parent,
        depth: after.depth,
        children: after.children,
        ..before
    })
}

/// The highest depth among the nodes that hang under `p`, if there is one.
pub open spec fn spec_highest_depth(links: Seq<Link>, p: NodeId, highest: Option<i32>) -> bool {
    match highest {
        Some(d) => {
            &&& exists|c: int| 0 <= c < links.len() && links[c].parent == Some(p) && links[c].depth == d
            &&& forall|c: int|
                0 <= c < links.len() && links[c].parent == Some(p) ==> links[c].depth <= d
        },
        None => forall|c: int| 0 <= c < links.len() ==> links[c].parent != Some(p),
    }
}

/// The node under `p` at depth `d`, if there is one.
pub open spec fn spec_child_at(links: Seq<Link>, p: NodeId, d: i32, found: Option<NodeId>) -> bool {
    match found {
        Some(c) => c < links.len() && links[c as int].parent == Some(p) && links[c as int].depth == d,
        None => forall|c: int|
            0 <= c < links.len() ==> !(links[c].parent == Some(p) && links[c].depth == d),
    }
}

/// The links after every child of `p` has been taken from it.
pub open spec fn links_orphaned(links: Seq<Link>, p: NodeId) -> Seq<Link> {
    Seq::new(
        links.len(),
        |i: int|
            if links[i].parent == Some(p) {
                Link { parent: None, depth: links[i].depth }
            } else {
                links[i]
            },
    )
}

/// The node without parent that is reached from `c` by going from child to parent.
pub open spec fn spec_root(links: Seq<Link>, c: NodeId) -> NodeId
    decreases c,
{
    if c < links.len() {
        match links[c as int].parent {
            Some(p) => if p < c {
                spec_root(links, p)
            } else {
                c
            },
            None => c,
        }
    } else {
        c
    }
}

impl DisplayTree {
    /// Whether `id` names a node of the tree.
    pub open spec fn has(&self, id: int) -> bool {
        0 <= id < self.nodes@.len()
    }

    /// The list of children of `p`.
    pub open spec fn kids(&self, p: int) -> Seq<Child> {
        self.nodes@[p].children@
    }

    /// Where every node hangs.
    pub open spec fn links(&self) -> Seq<Link> {
        Seq::new(
            self.nodes@.len(),
            |i: int| Link { parent: self.nodes@[i].parent, depth: self.nodes@[i].depth },
        )
    }

    /// Whether entry `k` of the list of `p` names a node that hangs under `p`
    /// at the depth of the entry.
    pub open spec fn entry_ok(&self, p: int, k: int) -> bool {
        let e = self.kids(p)[k];
        &&& e.node < self.nodes@.len()
        &&& self.nodes@[e.node as int].parent matches Some(parent)
        &&& parent == p
        &&& self.nodes@[e.node as int].depth == e.depth
    }

    /// Whether the list of `p` is in strictly ascending order of depth.
    pub open spec fn sorted(&self, p: int) -> bool {
        forall|j: int, k: int|
            0 <= j < k < self.kids(p).len() ==> self.kids(p)[j].depth < self.kids(p)[k].depth
    }

    /// Whether entry `k` of the list of the parent `p` names the node `c`.
    pub open spec fn lists(&self, p: int, k: int, c: int) -> bool {
        0 <= k < self.kids(p).len() && self.kids(p)[k].node == c
    }

    /// Whether `c` is listed by its parent, which is an older node.
    pub open spec fn listed(&self, c: int) -> bool {
        match self.nodes@[c].parent {
            Some(p) => p < c && exists|k: int| self.lists(p as int, k, c),
            None => true,
        }
    }

    /// The invariant of the tree.
    pub open spec fn wf(&self) -> bool {
        &&& forall|p: int, k: int|
            self.has(p) && 0 <= k < self.kids(p).len() ==> #[trigger] self.entry_ok(p, k)
        &&& forall|p: int| self.has(p) ==> #[trigger] self.sorted(p)
        &&& forall|c: int| self.has(c) ==> #[trigger] self.listed(c)
    }

    /// Whether the nodes of `self` are those of `before`, up to where they
    /// hang and which children they list.
    pub open spec fn keeps_content_of(&self, before: &DisplayTree) -> bool {
        &&& self.nodes@.len() == before.nodes@.len()
        &&& forall|i: int|
            0 <= i < before.nodes@.len() ==> same_content(
                #[trigger] before.nodes@[i],
                self.nodes@[i],
            )
    }

    /// The transform `acc` followed by the way from `node` up to its root:
    /// the matrix of `node` is put in front of `acc`, then the matrix of its
    /// parent in front of that, and so on to the node without parent.
    pub open spec fn spec_chain(&self, node: Option<NodeId>, acc: Matrix) -> Matrix
        decreases
            (match node {
                Some(n) => n + 1,
                None => 0,
            }),
    {
        match node {
            Some(n) => if n < self.nodes@.len() {
                match self.nodes@[n as int].parent {
                    Some(p) => if p < n {
                        self.spec_chain(Some(p), self.nodes@[n as int].matrix.spec_compose(acc))
                    } else {
                        self.nodes@[n as int].matrix.spec_compose(acc)
                    },
                    None => self.nodes@[n as int].matrix.spec_compose(acc),
                }
            } else {
                acc
            },
            None => acc,
        }
    }

    /// The transform from the space of node `c` to the space of its root.
    pub open spec fn spec_local_to_global_matrix(&self, c: NodeId) -> Matrix {
        self.spec_chain(Some(c), Matrix::spec_identity())
    }

    /// For a node without parent the transform to the space of its root is
    /// its own matrix.
    pub proof fn lemma_root_matrix(&self, c: NodeId)
        requires
            c < self.nodes@.len(),
            self.nodes@[c as int].parent is None,
        ensures
            self.spec_local_to_global_matrix(c) == self.nodes@[c as int].matrix,
    {
        lemma_compose_identity(self.nodes@[c as int].matrix);
    }

    /// Whether `self` has the nodes of `before`, each hanging where it hung
    /// and listing the children it listed.
    pub open spec fn same_structure(&self, before: &DisplayTree) -> bool {
        &&& self.nodes@.len() == before.nodes@.len()
        &&& forall|i: int|
            0 <= i < before.nodes@.len() ==> {
                &&& (#[trigger] self.nodes@[i]).parent == before.nodes@[i].parent
                &&& self.nodes@[i].depth == before.nodes@[i].depth
                &&& self.nodes@[i].children@ == before.nodes@[i].children@
            }
    }

    /// Whether `self` differs from `before` in the node `c` at most.
    pub open spec fn only_changed(&self, before: &DisplayTree, c: int) -> bool {
        &&& self.nodes@.len() == before.nodes@.len()
        &&& forall|i: int|
            0 <= i < before.nodes@.len() && i != c ==> #[trigger] self.nodes@[i]
                == before.nodes@[i]
    }

    /// A tree stays well formed while its nodes hang where they hung and
    /// list the children they listed.
    pub proof fn lemma_same_structure(&self, before: &DisplayTree)
        requires
            before.wf(),
            self.same_structure(before),
        ensures
            self.wf(),
            self.links() == before.links(),
    {
        assert(self.links() =~= before.links());
        assert forall|p: int, k: int|
            self.has(p) && 0 <= k < self.kids(p).len() implies #[trigger] self.entry_ok(p, k) by {
            assert(self.nodes@[p].children@ == before.nodes@[p].children@);
            assert(before.entry_ok(p, k));
            let e = before.kids(p)[k];
            assert(self.nodes@[e.node as int].parent == before.nodes@[e.node as int].parent);
        }
        assert forall|p: int| self.has(p) implies #[trigger] self.sorted(p) by {
            assert(before.sorted(p));
            assert(self.nodes@[p].children@ == before.nodes@[p].children@);
            assert forall|j: int, k: int| 0 <= j < k < self.kids(p).len() implies self.kids(
                p,
            )[j].depth < self.kids(p)[k].depth by {
                assert(before.kids(p)[j].depth < before.kids(p)[k].depth);
            }
        }
        assert forall|c: int| self.has(c) implies #[trigger] self.listed(c) by {
            assert(before.listed(c));
            assert(self.nodes@[c].parent == before.nodes@[c].parent);
            if let Some(p) = before.nodes@[c].parent {
                let k = choose|k: int| before.lists(p as int, k, c);
                assert(self.nodes@[p as int].children@ == before.nodes@[p as int].children@);
                assert(self.lists(p as int, k, c));
            }
        }
    }

    /// A tree stays well formed while one of its nodes changes in nothing
    /// but what it holds: every node hangs where it hung.
    pub proof fn lemma_node_changed(&self, before: &DisplayTree, c: int)
        requires
            before.wf(),
            before.has(c),
            self.only_changed(before, c),
            self.nodes@[c].parent == before.nodes@[c].parent,
            self.nodes@[c].depth == before.nodes@[c].depth,
            self.nodes@[c].children@ == before.nodes@[c].children@,
        ensures
            self.wf(),
            self.links() == before.links(),
    {
        assert(self.same_structure(before)) by {
            assert forall|i: int| 0 <= i < before.nodes@.len() implies {
                &&& (#[trigger] self.nodes@[i]).parent == before.nodes@[i].parent
                &&& self.nodes@[i].depth == before.nodes@[i].depth
                &&& self.nodes@[i].children@ == before.nodes@[i].children@
            } by {}
        }
        self.lemma_same_structure(before);
    }

    /// A tree without nodes.
    pub fn new() -> (tree: DisplayTree)
        ensures
            tree.wf(),
            tree.nodes@.len() == 0,
    {
        DisplayTree { nodes: Vec::new() }
    }

    /// The number of nodes that were ever created.
    pub fn len(&self) -> (n: usize)
        ensures
            n == self.nodes@.len(),
    {
        self.nodes.len()
    }

    /// Adds a node that hangs nowhere and has no children, and returns its name.
    pub fn add_node(
        &mut self,
        kind: NodeKind,
        name: String,
        content: Option<u16>,
        bounds: Rectangle,
        timeline: Timeline,
    ) -> (id: NodeId)
        requires
            old(self).wf(),
        ensures
            final(self).wf(),
            id == old(self).nodes@.len(),
            final(self).nodes@.len() == id + 1,
            forall|i: int| 0 <= i < id ==> final(self).nodes@[i] == old(self).nodes@[i],
            final(self).nodes@[id as int].parent is None,
            final(self).nodes@[id as int].depth == 0,
            final(self).nodes@[id as int].children@.len() == 0,
            final(self).nodes@[id as int].kind == kind,
            final(self).nodes@[id as int].name == name,
            final(self).nodes@[id as int].content == content,
            final(self).nodes@[id as int].matrix == Matrix::spec_identity(),
            final(self).nodes@[id as int].color_transform == ColorTransform::spec_identity(),
            final(self).nodes@[id as int].bounds == bounds,
            final(self).nodes@[id as int].timeline == timeline,
            final(self).nodes@[id as int].drawing@ == PathState::spec_blank(),
    {
        let id = self.nodes.len();
        let node = Node {
            parent: None,
            depth: 0,
            children: Vec::new(),
            kind,
            name,
            content,
            matrix: Matrix::identity(),
            color_transform: ColorTransform::identity(),
            bounds,
            timeline,
            drawing: PathState::new(),
        };
        self.nodes.push(node);
        proof {
            let old_tree = *old(self);
            assert forall|p: int, k: int|
                self.has(p) && 0 <= k < self.kids(p).len() implies #[trigger] self.entry_ok(
                p,
                k,
            ) by {
                assert(old_tree.entry_ok(p, k));
            }
            assert forall|p: int| self.has(p) implies #[trigger] self.sorted(p) by {
                if p < id {
                    assert(old_tree.sorted(p));
                    assert(self.kids(p) == old_tree.kids(p));
                } else {
                    assert(self.kids(p).len() == 0);
                }
            }
            assert forall|c: int| self.has(c) implies #[trigger] self.listed(c) by {
                if c < id {
                    assert(old_tree.listed(c));
                    if let Some(p) = old_tree.nodes@[c].parent {
                        let k = choose|k: int| old_tree.lists(p as int, k, c);
                        assert(self.lists(p as int, k, c));
                    }
                }
            }
        }
        id
    }

    /// Tells whether the list of `p` is in order and names children of `p` only.
    fn list_is_sound(&self, p: NodeId) -> (ok: bool)
        requires
            p < self.nodes@.len(),
        ensures
            ok == (self.sorted(p as int) && forall|k: int|
                0 <= k < self.kids(p as int).len() ==> #[trigger] self.entry_ok(p as int, k)),
    {
        let children = &self.nodes[p].children;
        let mut k: usize = 0;
        while k < children.len()
            invariant
                p < self.nodes@.len(),
                children@ == self.kids(p as int),
                k <= children@.len(),
                forall|i: int, j: int| 0 <= i < j < k ==> children@[i].depth < children@[j].depth,
                forall|j: int| 0 <= j < k ==> #[trigger] self.entry_ok(p as int, j),
            decreases children@.len() - k,
        {
            let e = children[k];
            let names_child = e.node < self.nodes.len() && self.nodes[e.node].depth == e.depth
                && match self.nodes[e.node].parent {
                Some(q) => q == p,
                None => false,
            };
            if !names_child {
                proof {
                    assert(!self.entry_ok(p as int, k as int));
                }
                return false;
            }
            if k > 0 && children[k - 1].depth >= e.depth {
                proof {
                    assert(!(self.kids(p as int)[k - 1].depth < self.kids(p as int)[k as int].depth));
                }
                return false;
            }
            proof {
                assert forall|i: int, j: int| 0 <= i < j < k + 1 implies children@[i].depth
                    < children@[j].depth by {
                    if j == k && i < k - 1 {
                        assert(children@[i].depth < children@[k - 1].depth);
                    }
                }
            }
            k = k + 1;
        }
        true
    }

    /// Tells whether the node `c` is listed by its parent, which is an older
    /// node, given that all lists are sound.
    fn is_listed(&self, c: NodeId) -> (ok: bool)
        requires
            c < self.nodes@.len(),
            forall|p: int| self.has(p) ==> #[trigger] self.sorted(p),
            forall|p: int, k: int|
                self.has(p) && 0 <= k < self.kids(p).len() ==> #[trigger] self.entry_ok(p, k),
        ensures
            ok == self.listed(c as int),
    {
        match self.nodes[c].parent {
            Some(p) => {
                if p >= c {
                    return false;
                }
                proof {
                    assert(self.sorted(p as int));
                }
                let d = self.nodes[c].depth;
                let idx = self.find_slot(p, d);
                let found = idx < self.nodes[p].children.len() && self.nodes[p].children[idx].node
                    == c;
                proof {
                    if found {
                        assert(self.lists(p as int, idx as int, c as int));
                    } else {
                        assert forall|k: int| !self.lists(p as int, k, c as int) by {
                            if self.lists(p as int, k, c as int) {
                                assert(self.entry_ok(p as int, k));
                                if k < idx {
                                    assert(self.kids(p as int)[k].depth < d);
                                } else {
                                    assert(self.kids(p as int)[idx as int].depth >= d);
                                }
                            }
                        }
                    }
                }
                found
            },
            None => true,
        }
    }

    /// Tells whether the tree is well formed.
    pub fn is_well_formed(&self) -> (ok: bool)
        ensures
            ok == self.wf(),
    {
        let mut p: usize = 0;
        while p < self.nodes.len()
            invariant
                p <= self.nodes@.len(),
                forall|q: int| 0 <= q < p ==> #[trigger] self.sorted(q),
                forall|q: int, k: int|
                    0 <= q < p && 0 <= k < self.kids(q).len() ==> #[trigger] self.entry_ok(q, k),
            decreases self.nodes@.len() - p,
        {
            if !self.list_is_sound(p) {
                proof {
                    if self.sorted(p as int) {
                        let k = choose|k: int|
                            0 <= k < self.kids(p as int).len() && !self.entry_ok(p as int, k);
                        assert(!self.entry_ok(p as int, k));
                    }
                }
                return false;
            }
            p = p + 1;
        }
        let mut c: usize = 0;
        while c < self.nodes.len()
            invariant
                c <= self.nodes@.len(),
                forall|q: int| self.has(q) ==> #[trigger] self.sorted(q),
                forall|q: int, k: int|
                    self.has(q) && 0 <= k < self.kids(q).len() ==> #[trigger] self.entry_ok(q, k),
                forall|i: int| 0 <= i < c ==> #[trigger] self.listed(i),
            decreases self.nodes@.len() - c,
        {
            if !self.is_listed(c) {
                return false;
            }
            c = c + 1;
        }
        true
    }

    /// The parent of a node.
    pub fn parent(&self, c: NodeId) -> (p: Option<NodeId>)
        requires
            self.wf(),
            c < self.nodes@.len(),
        ensures
            p == self.nodes@[c as int].parent,
            p matches Some(q) ==> q < c,
    {
        proof {
            assert(self.listed(c as int));
        }
        self.nodes[c].parent
    }

    /// The depth a node is stored under.
    pub fn depth(&self, c: NodeId) -> (d: i32)
        requires
            c < self.nodes@.len(),
        ensures
            d == self.nodes@[c as int].depth,
    {
        self.nodes[c].depth
    }

    /// The first position in the list of `p` whose depth is not below `d`,
    /// found by halving the list.
    fn find_slot(&self, p: NodeId, d: i32) -> (idx: usize)
        requires
            p < self.nodes@.len(),
            self.sorted(p as int),
        ensures
            idx <= self.kids(p as int).len(),
            forall|j: int| 0 <= j < idx ==> self.kids(p as int)[j].depth < d,
            forall|j: int| idx <= j < self.kids(p as int).len() ==> self.kids(p as int)[j].depth >= d,
    {
        let children = &self.nodes[p].children;
        let mut low: usize = 0;
        let mut high: usize = children.len();
        proof {
            assert(children@ == self.kids(p as int));
        }
        while low < high
            invariant
                low <= high <= children@.len(),
                forall|j: int, k: int|
                    0 <= j < k < children@.len() ==> children@[j].depth < children@[k].depth,
                forall|j: int| 0 <= j < low ==> children@[j].depth < d,
                forall|j: int| high <= j < children@.len() ==> children@[j].depth >= d,
            decreases high - low,
        {
            let middle = low + (high - low) / 2;
            if children[middle].depth < d {
                low = middle + 1;
            } else {
                high = middle;
            }
        }
        low
    }

    /// In a well-formed tree a node is listed by its parent at one position
    /// only, and under its own depth.
    pub proof fn lemma_position(&self, c: int) -> (k: int)
        requires
            self.wf(),
            self.has(c),
            self.nodes@[c].parent is Some,
        ensures
            self.lists(self.nodes@[c].parent->0 as int, k, c),
            self.kids(self.nodes@[c].parent->0 as int)[k].depth == self.nodes@[c].depth,
            self.nodes@[c].parent->0 < c,
            forall|j: int|
                0 <= j < self.kids(self.nodes@[c].parent->0 as int).len() && self.kids(
                    self.nodes@[c].parent->0 as int,
                )[j].depth == self.nodes@[c].depth ==> j == k,
    {
        let p = self.nodes@[c].parent->0 as int;
        assert(self.listed(c));
        let k = choose|k: int| self.lists(p, k, c);
        assert(self.entry_ok(p, k));
        assert(self.sorted(p));
        k
    }

    /// In a well-formed tree two children of one parent at one depth are the
    /// same node.
    pub proof fn lemma_depth_unique(&self, a: int, b: int)
        requires
            self.wf(),
            self.has(a),
            self.has(b),
            self.nodes@[a].parent is Some,
            self.nodes@[a].parent == self.nodes@[b].parent,
            self.nodes@[a].depth == self.nodes@[b].depth,
        ensures
            a == b,
    {
        let ka = self.lemma_position(a);
        let kb = self.lemma_position(b);
    }

    /// The highest depth among the children of `p`.
    pub fn highest_depth(&self, p: NodeId) -> (highest: Option<i32>)
        requires
            self.wf(),
            p < self.nodes@.len(),
        ensures
            spec_highest_depth(self.links(), p, highest),
    {
        let n = self.nodes[p].children.len();
        if n == 0 {
            proof {
                assert forall|c: int| 0 <= c < self.links().len() implies self.links()[c].parent
                    != Some(p) by {
                    if self.nodes@[c].parent == Some(p) {
                        let k = self.lemma_position(c);
                    }
                }
            }
            None
        } else {
            let top = self.nodes[p].children[n - 1];
            proof {
                assert(self.entry_ok(p as int, n - 1));
                assert(self.sorted(p as int));
                let links = self.links();
                assert(links[top.node as int].parent == Some(p) && links[top.node as int].depth
                    == top.depth);
                assert forall|c: int| 0 <= c < links.len() && links[c].parent == Some(
                    p,
                ) implies links[c].depth <= top.depth by {
                    let k = self.lemma_position(c);
                }
            }
            Some(top.depth)
        }
    }

    /// The child of `p` at depth `d`.
    pub fn child_at(&self, p: NodeId, d: i32) -> (found: Option<NodeId>)
        requires
            self.wf(),
            p < self.nodes@.len(),
        ensures
            spec_child_at(self.links(), p, d, found),
    {
        let idx = self.find_slot(p, d);
        if idx < self.nodes[p].children.len() && self.nodes[p].children[idx].depth == d {
            proof {
                assert(self.entry_ok(p as int, idx as int));
            }
            Some(self.nodes[p].children[idx].node)
        } else {
            proof {
                assert(self.sorted(p as int));
                assert forall|c: int| 0 <= c < self.links().len() implies !(self.links()[c].parent
                    == Some(p) && self.links()[c].depth == d) by {
                    if self.nodes@[c].parent == Some(p) && self.nodes@[c].depth == d {
                        let k = self.lemma_position(c);
                    }
                }
            }
            None
        }
    }

    /// The children of `p`, in ascending order of depth: every node that
    /// hangs under `p`, once, the lowest first.
    pub fn children(&self, p: NodeId) -> (list: Vec<NodeId>)
        requires
            self.wf(),
            p < self.nodes@.len(),
        ensures
            list@.len() == self.kids(p as int).len(),
            forall|k: int| 0 <= k < list@.len() ==> list@[k] == self.kids(p as int)[k].node,
            forall|k: int|
                0 <= k < list@.len() ==> (#[trigger] list@[k]) < self.nodes@.len()
                    && self.nodes@[list@[k] as int].parent == Some(p),
            forall|j: int, k: int|
                0 <= j < k < list@.len() ==> self.nodes@[list@[j] as int].depth
                    < self.nodes@[list@[k] as int].depth,
            forall|c: int|
                0 <= c < self.nodes@.len() && self.nodes@[c].parent == Some(p) ==> list@.contains(
                    c as usize,
                ),
    {
        let children = &self.nodes[p].children;
        let mut list: Vec<NodeId> = Vec::new();
        let mut k: usize = 0;
        while k < children.len()
            invariant
                k <= children@.len(),
                list@.len() == k,
                forall|j: int| 0 <= j < k ==> list@[j] == children@[j].node,
            decreases children@.len() - k,
        {
            list.push(children[k].node);
            k = k + 1;
        }
        proof {
            assert(self.sorted(p as int));
            assert forall|k: int| 0 <= k < list@.len() implies (#[trigger] list@[k])
                < self.nodes@.len() && self.nodes@[list@[k] as int].parent == Some(p) by {
                assert(self.entry_ok(p as int, k));
            }
            assert forall|j: int, k: int| 0 <= j < k < list@.len() implies self.nodes@[list@[j] as int].depth
                < self.nodes@[list@[k] as int].depth by {
                assert(self.entry_ok(p as int, j));
                assert(self.entry_ok(p as int, k));
            }
            assert forall|c: int|
                0 <= c < self.nodes@.len() && self.nodes@[c].parent == Some(p) implies list@.contains(
                c as usize,
            ) by {
                let k = self.lemma_position(c);
                assert(list@[k] == c as usize);
            }
        }
        list
    }

    /// The root of the tree that `c` hangs in.
    pub fn root(&self, c: NodeId) -> (r: NodeId)
        requires
            self.wf(),
            c < self.nodes@.len(),
        ensures
            r == spec_root(self.links(), c),
            r <= c,
            self.nodes@[r as int].parent is None,
    {
        let mut r = c;
        loop
            invariant
                self.wf(),
                r <= c < self.nodes@.len(),
                spec_root(self.links(), r) == spec_root(self.links(), c),
            decreases r,
        {
            proof {
                assert(self.listed(r as int));
            }
            match self.nodes[r].parent {
                Some(p) => {
                    r = p;
                },
                None => {
                    return r;
                },
            }
        }
    }

    /// Computes the transform from the space of node `c` to the space of its root.
    pub fn local_to_global_matrix(&self, c: NodeId) -> (m: Matrix)
        requires
            self.wf(),
            c < self.nodes@.len(),
        ensures
            m == self.spec_local_to_global_matrix(c),
    {
        let mut acc = Matrix::identity();
        let mut n = c;
        loop
            invariant
                self.wf(),
                n <= c < self.nodes@.len(),
                self.spec_chain(Some(n), acc) == self.spec_local_to_global_matrix(c),
            decreases n,
        {
            proof {
                assert(self.listed(n as int));
            }
            acc = self.nodes[n].matrix.compose(&acc);
            match self.nodes[n].parent {
                Some(p) => {
                    n = p;
                },
                None => {
                    return acc;
                },
            }
        }
    }

    /// The path of a node: the path of its parent, a dot and its own name;
    /// for a node without parent, the word `_level` and its depth.
    pub open spec fn spec_path(&self, c: NodeId) -> Seq<char>
        decreases c,
    {
        if c < self.nodes@.len() {
            match self.nodes@[c as int].parent {
                Some(p) => if p < c {
                    self.spec_path(p) + "."@ + self.nodes@[c as int].name@
                } else {
                    Seq::empty()
                },
                None => "_level"@ + spec_decimal(self.nodes@[c as int].depth as int),
            }
        } else {
            Seq::empty()
        }
    }

    /// Writes the path of a node.
    pub fn path(&self, c: NodeId) -> (text: String)
        requires
            self.wf(),
            c < self.nodes@.len(),
        ensures
            text@ == self.spec_path(c),
        decreases c,
    {
        proof {
            assert(self.listed(c as int));
        }
        match self.nodes[c].parent {
            Some(p) => {
                let mut text = self.path(p);
                text.append(".");
                text.append(self.nodes[c].name.as_str());
                text
            },
            None => {
                let mut text = String::from_str("_level");
                let number = decimal(self.nodes[c].depth);
                text.append(number.as_str());
                text
            },
        }
    }

    /// Takes every child of `p` from it. The children keep their depth and
    /// everything else they hold.
    pub fn detach_children(&mut self, p: NodeId)
        requires
            old(self).wf(),
            p < old(self).nodes@.len(),
        ensures
            final(self).wf(),
            final(self).keeps_content_of(old(self)),
            final(self).links() == links_orphaned(old(self).links(), p),
            final(self).kids(p as int).len() == 0,
    {
        let ghost before = *old(self);
        while self.nodes[p].children.len() > 0
            invariant
                self.wf(),
                p < self.nodes@.len(),
                self.keeps_content_of(&before),
                forall|i: int|
                    0 <= i < before.nodes@.len() ==> (#[trigger] self.links()[i]).depth
                        == before.links()[i].depth,
                forall|i: int|
                    0 <= i < before.nodes@.len() ==> (#[trigger] self.links()[i]).parent
                        == before.links()[i].parent || (self.links()[i].parent is None
                        && before.links()[i].parent == Some(p)),
            decreases self.kids(p as int).len(),
        {
            let last = self.nodes[p].children.len() - 1;
            let child = self.nodes[p].children[last].node;
            let ghost mid = *self;
            proof {
                assert(self.entry_ok(p as int, last as int));
                assert(self.sorted(p as int));
            }
            self.detach(child);
            proof {
                assert forall|i: int| 0 <= i < before.nodes@.len() implies same_content(
                    #[trigger] before.nodes@[i],
                    self.nodes@[i],
                ) by {
                    assert(same_content(before.nodes@[i], mid.nodes@[i]));
                    assert(same_content(mid.nodes@[i], self.nodes@[i]));
                }
                assert forall|i: int| 0 <= i < before.nodes@.len() implies (
                #[trigger] self.links()[i]).depth == before.links()[i].depth by {
                    assert(mid.links()[i].depth == before.links()[i].depth);
                }
                assert forall|i: int| 0 <= i < before.nodes@.len() implies (
                #[trigger] self.links()[i]).parent == before.links()[i].parent || (
                self.links()[i].parent is None && before.links()[i].parent == Some(p)) by {
                    assert(mid.links()[i].parent == before.links()[i].parent || (
                    mid.links()[i].parent is None && before.links()[i].parent == Some(p)));
                }
            }
        }
        proof {
            assert forall|i: int| 0 <= i < before.nodes@.len() implies self.links()[i]
                == links_orphaned(before.links(), p)[i] by {
                if self.nodes@[i].parent == Some(p) {
                    let k = self.lemma_position(i);
                }
                assert(self.links()[i].depth == before.links()[i].depth);
                assert(self.links()[i].parent == before.links()[i].parent || (
                self.links()[i].parent is None && before.links()[i].parent == Some(p)));
            }
            assert(self.links() =~= links_orphaned(before.links(), p));
        }
    }

    /// Takes node `c` from its parent. Its place in the arena, its depth and
    /// everything else it holds stay.
    pub fn detach(&mut self, c: NodeId)
        requires
            old(self).wf(),
            c < old(self).nodes@.len(),
            old(self).nodes@[c as int].parent is Some,
        ensures
            final(self).wf(),
            final(self).keeps_content_of(old(self)),
            final(self).links() == links_detached(old(self).links(), c as int),
            final(self).kids(old(self).nodes@[c as int].parent->0 as int).len() + 1 == old(
                self,
            ).kids(old(self).nodes@[c as int].parent->0 as int).len(),
    {
        let p = self.nodes[c].parent.unwrap();
        let d = self.nodes[c].depth;
        let ghost k0 = self.lemma_position(c as int);
        proof {
            assert(self.sorted(p as int));
        }
        let k = self.find_slot(p, d);
        proof {
            if k < self.kids(p as int).len() {
                assert(self.kids(p as int)[k as int].depth >= d);
            }
            assert(k == k0);
        }
        self.nodes[p].children.remove(k);
        self.nodes[c].parent = None;
        proof {
            let before = *old(self);
            assert(self.links() =~= links_detached(before.links(), c as int));
            assert forall|q: int, j: int|
                self.has(q) && 0 <= j < self.kids(q).len() implies #[trigger] self.entry_ok(
                q,
                j,
            ) by {
                if q == p {
                    let jj = if j < k {
                        j
                    } else {
                        j + 1
                    };
                    assert(self.kids(q)[j] == before.kids(q)[jj]);
                    assert(before.entry_ok(q, jj));
                    assert(before.kids(q)[jj].node != c);
                } else {
                    assert(self.kids(q) == before.kids(q));
                    assert(before.entry_ok(q, j));
                }
            }
            assert forall|q: int| self.has(q) implies #[trigger] self.sorted(q) by {
                assert(before.sorted(q));
                if q == p {
                    assert forall|i: int, j: int| 0 <= i < j < self.kids(q).len() implies self.kids(
                        q,
                    )[i].depth < self.kids(q)[j].depth by {
                        let ii = if i < k {
                            i
                        } else {
                            i + 1
                        };
                        let jj = if j < k {
                            j
                        } else {
                            j + 1
                        };
                        assert(self.kids(q)[i] == before.kids(q)[ii]);
                        assert(self.kids(q)[j] == before.kids(q)[jj]);
                    }
                } else {
                    assert(self.kids(q) == before.kids(q));
                }
            }
            assert forall|i: int| self.has(i) implies #[trigger] self.listed(i) by {
                assert(before.listed(i));
                if i != c {
                    if let Some(q) = before.nodes@[i].parent {
                        let j = choose|j: int| before.lists(q as int, j, i);
                        if q == p {
                            let jj = if j < k {
                                j
                            } else {
                                j - 1
                            };
                            assert(self.kids(q as int)[jj] == before.kids(q as int)[j]);
                            assert(self.lists(q as int, jj, i));
                        } else {
                            assert(self.kids(q as int) == before.kids(q as int));
                            assert(self.lists(q as int, j, i));
                        }
                    }
                }
            }
        }
    }

    /// Puts the loose node `c` into the free slot `idx` of the list of `p`.
    fn insert_child(&mut self, p: NodeId, c: NodeId, d: i32, idx: usize)
        requires
            old(self).wf(),
            p < c < old(self).nodes@.len(),
            old(self).nodes@[c as int].parent is None,
            idx <= old(self).kids(p as int).len(),
            forall|j: int| 0 <= j < idx ==> old(self).kids(p as int)[j].depth < d,
            forall|j: int|
                idx <= j < old(self).kids(p as int).len() ==> old(self).kids(p as int)[j].depth > d,
        ensures
            final(self).wf(),
            final(self).keeps_content_of(old(self)),
            final(self).links() == links_placed(old(self).links(), p, c as int, d),
    {
        let ghost before = *old(self);
        self.nodes[p].children.insert(idx, Child { depth: d, node: c });
        self.nodes[c].parent = Some(p);
        self.nodes[c].depth = d;
        proof {
            assert forall|i: int| 0 <= i < before.nodes@.len() implies self.links()[i]
                == links_placed(before.links(), p, c as int, d)[i] by {
                if i != c && before.nodes@[i].parent == Some(p) && before.nodes@[i].depth == d {
                    let ki = before.lemma_position(i);
                }
            }
            assert(self.links() =~= links_placed(before.links(), p, c as int, d));
            assert forall|q: int, j: int|
                self.has(q) && 0 <= j < self.kids(q).len() implies #[trigger] self.entry_ok(
                q,
                j,
            ) by {
                if q == p {
                    if j != idx {
                        let jj = if j < idx {
                            j
                        } else {
                            j - 1
                        };
                        assert(self.kids(q)[j] == before.kids(q)[jj]);
                        assert(before.entry_ok(q, jj));
                    }
                } else {
                    assert(self.kids(q) == before.kids(q));
                    assert(before.entry_ok(q, j));
                }
            }
            assert forall|q: int| self.has(q) implies #[trigger] self.sorted(q) by {
                assert(before.sorted(q));
                if q == p {
                    assert forall|i: int, j: int| 0 <= i < j < self.kids(q).len() implies self.kids(
                        q,
                    )[i].depth < self.kids(q)[j].depth by {
                        let ii = if i < idx {
                            i
                        } else {
                            i - 1
                        };
                        let jj = if j < idx {
                            j
                        } else {
                            j - 1
                        };
                        if i != idx {
                            assert(self.kids(q)[i] == before.kids(q)[ii]);
                        }
                        if j != idx {
                            assert(self.kids(q)[j] == before.kids(q)[jj]);
                        }
                    }
                } else {
                    assert(self.kids(q) == before.kids(q));
                }
            }
            assert forall|i: int| self.has(i) implies #[trigger] self.listed(i) by {
                assert(before.listed(i));
                if i == c {
                    assert(self.lists(p as int, idx as int, i));
                } else if let Some(q) = before.nodes@[i].parent {
                    let j = choose|j: int| before.lists(q as int, j, i);
                    if q == p {
                        let jj = if j < idx {
                            j
                        } else {
                            j + 1
                        };
                        assert(self.kids(q as int)[jj] == before.kids(q as int)[j]);
                        assert(self.lists(q as int, jj, i));
                    } else {
                        assert(self.kids(q as int) == before.kids(q as int));
                        assert(self.lists(q as int, j, i));
                    }
                }
            }
        }
    }

    /// Puts the loose node `c` into the slot `idx` of the list of `p`, which
    /// holds another child at the same depth; that child leaves the tree.
    fn replace_child(&mut self, p: NodeId, c: NodeId, d: i32, idx: usize)
        requires
            old(self).wf(),
            p < c < old(self).nodes@.len(),
            old(self).nodes@[c as int].parent is None,
            idx < old(self).kids(p as int).len(),
            old(self).kids(p as int)[idx as int].depth == d,
        ensures
            final(self).wf(),
            final(self).keeps_content_of(old(self)),
            final(self).links() == links_placed(old(self).links(), p, c as int, d),
    {
        let ghost before = *old(self);
        let displaced = self.nodes[p].children[idx].node;
        proof {
            assert(before.entry_ok(p as int, idx as int));
            assert(before.sorted(p as int));
        }
        self.nodes[displaced].parent = None;
        self.nodes[p].children.set(idx, Child { depth: d, node: c });
        self.nodes[c].parent = Some(p);
        self.nodes[c].depth = d;
        proof {
            assert forall|i: int| 0 <= i < before.nodes@.len() implies self.links()[i]
                == links_placed(before.links(), p, c as int, d)[i] by {
                if i != c && before.nodes@[i].parent == Some(p) && before.nodes@[i].depth == d {
                    let ki = before.lemma_position(i);
                }
            }
            assert(self.links() =~= links_placed(before.links(), p, c as int, d));
            assert forall|q: int, j: int|
                self.has(q) && 0 <= j < self.kids(q).len() implies #[trigger] self.entry_ok(
                q,
                j,
            ) by {
                if q == p {
                    if j != idx {
                        assert(self.kids(q)[j] == before.kids(q)[j]);
                        assert(before.entry_ok(q, j));
                        assert(before.kids(q)[j].depth != d);
                    }
                } else {
                    assert(self.kids(q) == before.kids(q));
                    assert(before.entry_ok(q, j));
                }
            }
            assert forall|q: int| self.has(q) implies #[trigger] self.sorted(q) by {
                assert(before.sorted(q));
                if q == p {
                    assert forall|i: int, j: int| 0 <= i < j < self.kids(q).len() implies self.kids(
                        q,
                    )[i].depth < self.kids(q)[j].depth by {
                        assert(self.kids(q)[i].depth == before.kids(q)[i].depth);
                        assert(self.kids(q)[j].depth == before.kids(q)[j].depth);
                    }
                } else {
                    assert(self.kids(q) == before.kids(q));
                }
            }
            assert forall|i: int| self.has(i) implies #[trigger] self.listed(i) by {
                assert(before.listed(i));
                if i == c {
                    assert(self.lists(p as int, idx as int, i));
                } else if i == displaced {
                } else if let Some(q) = before.nodes@[i].parent {
                    let j = choose|j: int| before.lists(q as int, j, i);
                    if q == p {
                        assert(self.kids(q as int)[j] == before.kids(q as int)[j]);
                    } else {
                        assert(self.kids(q as int) == before.kids(q as int));
                    }
                    assert(self.lists(q as int, j, i));
                }
            }
        }
    }

    /// Puts the loose node `c` under `p` at depth `d`. A child that `p` had
    /// at that depth is displaced: it leaves the tree.
    pub fn place(&mut self, p: NodeId, c: NodeId, d: i32)
        requires
            old(self).wf(),
            p < c < old(self).nodes@.len(),
            old(self).nodes@[c as int].parent is None,
        ensures
            final(self).wf(),
            final(self).keeps_content_of(old(self)),
            final(self).links() == links_placed(old(self).links(), p, c as int, d),
    {
        proof {
            assert(self.sorted(p as int));
        }
        let idx = self.find_slot(p, d);
        if idx < self.nodes[p].children.len() && self.nodes[p].children[idx].depth == d {
            self.replace_child(p, c, d, idx);
        } else {
            self.insert_child(p, c, d, idx);
        }
    }

    /// Moves the child `c` to depth `d` under its parent. A sibling that was
    /// at that depth takes the depth that `c` had; no other node is touched.
    pub fn swap_child_to_depth(&mut self, c: NodeId, d: i32)
        requires
            old(self).wf(),
            c < old(self).nodes@.len(),
            old(self).nodes@[c as int].parent is Some,
            old(self).nodes@[c as int].depth != d,
        ensures
            final(self).wf(),
            final(self).keeps_content_of(old(self)),
            final(self).links() == links_swapped(old(self).links(), c as int, d),
    {
        let p = self.nodes[c].parent.unwrap();
        let own = self.nodes[c].depth;
        let ghost before = *old(self);
        let ghost k0 = before.lemma_position(c as int);
        proof {
            assert(before.sorted(p as int));
        }
        let k = self.find_slot(p, own);
        let idx = self.find_slot(p, d);
        proof {
            if k < self.kids(p as int).len() {
                assert(self.kids(p as int)[k as int].depth >= own);
            }
            assert(k == k0);
        }
        let occupied = idx < self.nodes[p].children.len() && self.nodes[p].children[idx].depth
            == d;
        if occupied {
            let other = self.nodes[p].children[idx].node;
            proof {
                assert(before.entry_ok(p as int, idx as int));
                assert(before.entry_ok(p as int, k as int));
            }
            self.nodes[p].children.set(k, Child { depth: own, node: other });
            self.nodes[p].children.set(idx, Child { depth: d, node: c });
            self.nodes[other].depth = own;
            self.nodes[c].depth = d;
            proof {
                assert forall|i: int| 0 <= i < before.nodes@.len() implies self.links()[i]
                    == links_swapped(before.links(), c as int, d)[i] by {
                    if i != c && before.nodes@[i].parent == Some(p) && before.nodes@[i].depth
                        == d {
                        let ki = before.lemma_position(i);
                    }
                }
                assert(self.links() =~= links_swapped(before.links(), c as int, d));
                assert forall|q: int, j: int|
                    self.has(q) && 0 <= j < self.kids(q).len() implies #[trigger] self.entry_ok(
                    q,
                    j,
                ) by {
                    assert(before.entry_ok(q, j));
                    if q == p && j != k && j != idx {
                        assert(self.kids(q)[j] == before.kids(q)[j]);
                    }
                    if q != p {
                        assert(self.kids(q) == before.kids(q));
                    }
                }
                assert forall|q: int| self.has(q) implies #[trigger] self.sorted(q) by {
                    assert(before.sorted(q));
                    if q == p {
                        assert forall|i: int, j: int|
                            0 <= i < j < self.kids(q).len() implies self.kids(q)[i].depth
                            < self.kids(q)[j].depth by {
                            assert(self.kids(q)[i].depth == before.kids(q)[i].depth);
                            assert(self.kids(q)[j].depth == before.kids(q)[j].depth);
                        }
                    } else {
                        assert(self.kids(q) == before.kids(q));
                    }
                }
                assert forall|i: int| self.has(i) implies #[trigger] self.listed(i) by {
                    assert(before.listed(i));
                    if i == c {
                        assert(self.lists(p as int, idx as int, i));
                    } else if i == other {
                        assert(self.lists(p as int, k as int, i));
                    } else if let Some(q) = self.nodes@[i].parent {
                        let j = choose|j: int| before.lists(q as int, j, i);
                        if q == p {
                            assert(self.kids(q as int)[j] == before.kids(q as int)[j]);
                        } else {
                            assert(self.kids(q as int) == before.kids(q as int));
                        }
                        assert(self.lists(q as int, j, i));
                    }
                }
            }
        } else {
            self.detach(c);
            proof {
                assert(self.links()[p as int] == before.links()[p as int]);
                assert(self.links()[c as int].parent is None);
            }
            self.place(p, c, d);
            proof {
                let mid = links_detached(before.links(), c as int);
                assert forall|i: int| 0 <= i < before.nodes@.len() implies links_placed(
                    mid,
                    p,
                    c as int,
                    d,
                )[i] == links_swapped(before.links(), c as int, d)[i] by {
                    if i != c && before.nodes@[i].parent == Some(p) && before.nodes@[i].depth
                        == d {
                        let ki = before.lemma_position(i);
                    }
                }
                assert(self.links() =~= links_swapped(before.links(), c as int, d));
                assert forall|i: int| 0 <= i < before.nodes@.len() implies same_content(
                    #[trigger] before.nodes@[i],
                    self.nodes@[i],
                ) by {}
            }
        }
    }
}

} // verus!
