//! A generic tree held in an arena: nodes are addressed by index, every
//! node records its parent and its children in insertion order, and a
//! full traversal yields explicit enter and exit edges in depth-first
//! order.
//!
//! The arena keeps children strictly after their parent, so every walk
//! down the tree strictly increases the index; this is what makes the
//! traversal and the layout pass terminate.

use vstd::prelude::*;

verus! {

/// One arena slot: a payload, the parent's index, and the children's
/// indices in insertion order.
#[derive(Debug)]
pub struct TreeSlot<T> {
    /// The node's payload.
    pub data: T,
    /// The parent's index; `None` only for the root.
    pub parent: Option<usize>,
    /// The children's indices, in insertion order.
    pub children: Vec<usize>,
}

/// One step of a depth-first traversal: a node is entered before all of
/// its descendants' edges and exited after them.
#[derive(Debug, Clone, Copy, PartialEq, Eq, Structural)]
pub enum NodeEdge {
    /// The traversal enters the node with this index.
    Start(usize),
    /// The traversal leaves the node with this index.
    End(usize),
}

/// A tree in an arena.  Node 0 is the root.
#[derive(Debug)]
pub struct Tree<T> {
    /// The arena, indexed by node index.
    pub nodes: Vec<TreeSlot<T>>,
}

impl<T> Tree<T> {
    /// The arena is a tree rooted at node 0: every other node names a
    /// parent that precedes it and is named among that parent's children;
    /// children name their parent back, follow it in the arena, and are
    /// listed in strictly increasing order.
    pub open spec fn wf(self) -> bool {
        &&& 1 <= self.nodes.len()
        &&& self.nodes[0].parent is None
        &&& forall|n: int|
            1 <= n < self.nodes.len() ==> ((#[trigger] self.nodes[n].parent) matches Some(p)
                && 0 <= p < n && self.nodes[p as int].children@.contains(n as usize))
        &&& forall|n: int, i: int|
            0 <= n < self.nodes.len() && 0 <= i < self.nodes[n].children@.len() ==> n < (
            #[trigger] self.nodes[n].children@[i]) as int && (self.nodes[n].children@[i] as int)
                < self.nodes.len() && self.nodes[self.nodes[n].children@[i] as int].parent == Some(
                n as usize,
            )
        &&& forall|n: int, i: int, j: int|
            0 <= n < self.nodes.len() && 0 <= i < j < self.nodes[n].children@.len() ==> (
            #[trigger] self.nodes[n].children@[i]) < (#[trigger] self.nodes[n].children@[j])
    }

    /// A tree of one root node carrying `data`.
    pub fn new(data: T) -> (t: Self)
        ensures
            t.nodes.len() == 1,
            t.nodes[0].data == data,
            t.nodes[0].parent is None,
            t.nodes[0].children@ == Seq::<usize>::empty(),
            t.wf(),
    {
        let mut nodes: Vec<TreeSlot<T>> = Vec::new();
        nodes.push(TreeSlot { data, parent: None, children: Vec::new() });
        let t = Tree { nodes };
        proof {
            assert(t.nodes[0].children@ =~= Seq::<usize>::empty());
        }
        t
    }

    /// The number of nodes.
    pub fn len(&self) -> (n: usize)
        ensures
            n == self.nodes.len(),
    {
        self.nodes.len()
    }

    /// Append a new node carrying `data` as the last child of `parent`;
    /// the new node's index is handed back.
    pub fn append(&mut self, parent: usize, data: T) -> (c: usize)
        requires
            old(self).wf(),
            parent < old(self).nodes.len(),
            old(self).nodes.len() < usize::MAX,
        ensures
            c == old(self).nodes.len(),
            final(self).nodes.len() == old(self).nodes.len() + 1,
            final(self).nodes[c as int].data == data,
            final(self).nodes[c as int].parent == Some(parent),
            final(self).nodes[c as int].children@ == Seq::<usize>::empty(),
            final(self).nodes[parent as int].children@ == old(self).nodes[parent as int].children@
                .push(c),
            final(self).nodes[parent as int].data == old(self).nodes[parent as int].data,
            final(self).nodes[parent as int].parent == old(self).nodes[parent as int].parent,
            forall|m: int|
                0 <= m < old(self).nodes.len() && m != parent ==> final(self).nodes[m] == old(
                    self,
                ).nodes[m],
            final(self).wf(),
    {
        let c = self.nodes.len();
        let slot = &mut self.nodes[parent];
        slot.children.push(c);
        self.nodes.push(TreeSlot { data, parent: Some(parent), children: Vec::new() });
        proof {
            let new = *self;
            let old_t = *old(self);
            assert(new.nodes[c as int].children@ =~= Seq::<usize>::empty());
            assert forall|n: int|
                1 <= n < new.nodes.len() implies ((#[trigger] new.nodes[n].parent) matches Some(p)
                && 0 <= p < n && new.nodes[p as int].children@.contains(n as usize)) by {
                if n < c {
                    match old_t.nodes[n].parent {
                        Some(p) => {
                            let q = p as int;
                            assert(old_t.nodes[q].children@.contains(n as usize));
                            let i = choose|i: int|
                                0 <= i < old_t.nodes[q].children@.len() && old_t.nodes[
                                    q].children@[i] == n as usize;
                            assert(new.nodes[q].children@[i] == n as usize);
                            assert(new.nodes[q].children@.contains(n as usize));
                        },
                        None => {
                            assert(false);
                        },
                    }
                } else {
                    assert(new.nodes[n].parent == Some(parent));
                    assert(new.nodes[parent as int].children@.last() == c as usize);
                    assert(new.nodes[parent as int].children@.contains(c as usize));
                }
            }
            assert forall|n: int, i: int|
                0 <= n < new.nodes.len() && 0 <= i < new.nodes[n].children@.len() implies n < (
            #[trigger] new.nodes[n].children@[i]) as int && (new.nodes[n].children@[i] as int)
                < new.nodes.len() && new.nodes[new.nodes[n].children@[i] as int].parent == Some(
                n as usize,
            ) by {
                if n == parent {
                    if i < old_t.nodes[n].children@.len() {
                        assert(old_t.nodes[n].children@[i] == new.nodes[n].children@[i]);
                    }
                } else if n < c {
                    assert(new.nodes[n].children@ == old_t.nodes[n].children@);
                }
            }
        }
        c
    }

    /// The payload of the node at `n`.
    pub fn get(&self, n: usize) -> (r: &T)
        requires
            n < self.nodes.len(),
        ensures
            *r == self.nodes[n as int].data,
    {
        &self.nodes[n].data
    }

    /// The payload of the node at `n`, for mutation.
    pub fn get_mut(&mut self, n: usize) -> (r: &mut T)
        requires
            n < old(self).nodes.len(),
        ensures
            *r == old(self).nodes[n as int].data,
            final(self).nodes@ == old(self).nodes@.update(
                n as int,
                TreeSlot {
                    data: *final(r),
                    parent: old(self).nodes[n as int].parent,
                    children: old(self).nodes[n as int].children,
                },
            ),
    {
        let slot = &mut self.nodes[n];
        &mut slot.data
    }

    /// The parent of the node at `n`; `None` only for the root.
    pub fn parent(&self, n: usize) -> (r: Option<usize>)
        requires
            n < self.nodes.len(),
        ensures
            r == self.nodes[n as int].parent,
    {
        self.nodes[n].parent
    }

    /// The children of the node at `n`, in insertion order.
    pub fn children(&self, n: usize) -> (r: &Vec<usize>)
        requires
            n < self.nodes.len(),
        ensures
            r@ == self.nodes[n as int].children@,
    {
        &self.nodes[n].children
    }

    /// The depth-first edge sequence of the subtree rooted at `n`: the
    /// node is entered, each child's subtree follows in order, and the
    /// node is exited.
    pub open spec fn edges_from(self, n: int) -> Seq<NodeEdge>
        decreases self.nodes.len() - n, 1int, 0int,
        when 0 <= n < self.nodes.len()
    {
        seq![NodeEdge::Start(n as usize)] + self.edges_of_children(n, 0) + seq![
            NodeEdge::End(n as usize),
        ]
    }

    /// The edge sequences of the children of `n` from the `i`-th child
    /// on, concatenated.
    pub open spec fn edges_of_children(self, n: int, i: int) -> Seq<NodeEdge>
        decreases self.nodes.len() - n, 0int, self.nodes[n].children@.len() - i,
        when 0 <= n < self.nodes.len()
    {
        if i < 0 || i >= self.nodes[n].children@.len() {
            Seq::empty()
        } else if !(n < self.nodes[n].children@[i] && (self.nodes[n].children@[i] as int)
            < self.nodes.len()) {
            Seq::empty()
        } else {
            self.edges_from(self.nodes[n].children@[i] as int) + self.edges_of_children(n, i + 1)
        }
    }

    /// Collect the edge sequence of the subtree rooted at `n` onto `out`.
    fn traverse_from(&self, n: usize, out: &mut Vec<NodeEdge>)
        requires
            self.wf(),
            n < self.nodes.len(),
        ensures
            final(out)@ == old(out)@ + self.edges_from(n as int),
        decreases self.nodes.len() - n,
    {
        out.push(NodeEdge::Start(n));
        let k = self.nodes[n].children.len();
        let mut i: usize = 0;
        let ghost out0 = out@;
        while i < k
            invariant
                self.wf(),
                (n as int) < self.nodes.len(),
                i <= k,
                k == self.nodes[n as int].children@.len(),
                out0 == old(out)@ + seq![NodeEdge::Start(n)],
                out0 + self.edges_of_children(n as int, 0) == out@ + self.edges_of_children(
                    n as int,
                    i as int,
                ),
            decreases k - i,
        {
            let c = self.nodes[n].children[i];
            proof {
                assert(self.edges_of_children(n as int, i as int) == self.edges_from(c as int)
                    + self.edges_of_children(n as int, i + 1));
            }
            self.traverse_from(c, out);
            proof {
                assert(out0 + self.edges_of_children(n as int, 0) =~= out@
                    + self.edges_of_children(n as int, i + 1));
            }
            i += 1;
        }
        proof {
            assert(self.edges_of_children(n as int, k as int) =~= Seq::<NodeEdge>::empty());
            assert(out0 + self.edges_of_children(n as int, 0) =~= out@);
        }
        out.push(NodeEdge::End(n));
        proof {
            assert(out@ =~= old(out)@ + self.edges_from(n as int));
        }
    }

    /// The full traversal of the tree: a finite sequence of enter and
    /// exit edges in depth-first order, the root entered first and exited
    /// last.
    pub fn traverse(&self) -> (out: Vec<NodeEdge>)
        requires
            self.wf(),
        ensures
            out@ == self.edges_from(0),
    {
        let mut out: Vec<NodeEdge> = Vec::new();
        self.traverse_from(0, &mut out);
        proof {
            assert(out@ =~= self.edges_from(0));
        }
        out
    }
}

/// The index an edge speaks of.
pub open spec fn edge_index(e: NodeEdge) -> int {
    match e {
        NodeEdge::Start(x) => x as int,
        NodeEdge::End(x) => x as int,
    }
}

impl<T> Tree<T> {
    /// Every edge of the subtree rooted at `n` speaks of a node between
    /// `n` and the end of the arena.
    pub proof fn lemma_edges_in_range(self, n: int)
        requires
            self.wf(),
            0 <= n < self.nodes.len(),
        ensures
            forall|k: int|
                0 <= k < self.edges_from(n).len() ==> n <= edge_index(
                    #[trigger] self.edges_from(n)[k],
                ) < self.nodes.len(),
        decreases self.nodes.len() - n, 1int, 0int,
    {
        self.lemma_child_edges_in_range(n, 0);
        let es = self.edges_from(n);
        let mid = self.edges_of_children(n, 0);
        assert forall|k: int|
            0 <= k < es.len() implies n <= edge_index(#[trigger] es[k]) < self.nodes.len() by {
            if 0 < k < 1 + mid.len() {
                assert(es[k] == mid[k - 1]);
            }
        }
    }

    /// Every edge of the child subtrees of `n` from the `i`-th child on
    /// speaks of a node strictly after `n` and inside the arena.
    pub proof fn lemma_child_edges_in_range(self, n: int, i: int)
        requires
            self.wf(),
            0 <= n < self.nodes.len(),
        ensures
            forall|k: int|
                0 <= k < self.edges_of_children(n, i).len() ==> n < edge_index(
                    #[trigger] self.edges_of_children(n, i)[k],
                ) < self.nodes.len(),
        decreases self.nodes.len() - n, 0int, self.nodes[n].children@.len() - i,
    {
        if 0 <= i < self.nodes[n].children@.len() {
            let c = self.nodes[n].children@[i] as int;
            assert(n < c < self.nodes.len());
            self.lemma_edges_in_range(c);
            self.lemma_child_edges_in_range(n, i + 1);
            let es = self.edges_of_children(n, i);
            let head = self.edges_from(c);
            let tail = self.edges_of_children(n, i + 1);
            assert forall|k: int|
                0 <= k < es.len() implies n < edge_index(#[trigger] es[k])
                < self.nodes.len() by {
                if k < head.len() {
                    assert(es[k] == head[k]);
                } else {
                    assert(es[k] == tail[k - head.len()]);
                }
            }
        }
    }
}

} // verus!
