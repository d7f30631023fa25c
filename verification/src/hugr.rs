//! The hierarchical port graph: nodes carrying operations, a parent/child
//! tree overlaying them, and directed edges between node ports.
//!
//! The store is deliberately a plain representation — a vector of nodes with
//! parent links, and a vector of edges — rather than a dedicated graph
//! structure: the validator's specifications quantify over the whole
//! structure, so every part of it is held as values the specifications can
//! speak of directly.  The graph is mutated through the small interface here
//! and validated on demand, not incrementally; see [`crate::validate`].

use vstd::prelude::*;
use crate::extension_set::ExtensionSet;
use crate::ops::{wf_op, OpType};

verus! {

/// A node of the graph, named by its index.
pub type Node = usize;

/// The operation assigned to a node, together with the extension
/// requirements already present at its inputs — `None` until inference has
/// resolved them.
#[derive(Debug)]
pub struct NodeType {
    /// The operation.
    pub op: OpType,
    /// The extensions required at the node's inputs, if resolved.
    pub input_extensions: Option<ExtensionSet>,
}

impl NodeType {
    /// A node whose inputs carry the given requirements.
    pub fn new(op: OpType, input_extensions: ExtensionSet) -> (r: NodeType)
        ensures
            r.op == op,
            r.input_extensions matches Some(es) && es == input_extensions,
    {
        NodeType { op, input_extensions: Some(input_extensions) }
    }

    /// A node whose inputs carry no requirements at all.
    pub fn new_pure(op: OpType) -> (r: NodeType)
        ensures
            r.op == op,
            r.input_extensions matches Some(es) && es@ == Set::<
                crate::extension_set::ExtItemSpec,
            >::empty(),
    {
        NodeType { op, input_extensions: Some(ExtensionSet::new()) }
    }

    /// A node whose input requirements are left for inference to resolve.
    pub fn new_open(op: OpType) -> (r: NodeType)
        ensures
            r.op == op,
            r.input_extensions is None,
    {
        NodeType { op, input_extensions: None }
    }
}

/// The stored state of one live node.
#[derive(Debug)]
pub struct NodeData {
    /// The node's operation and resolved requirements.
    pub nt: NodeType,
    /// The node's parent in the hierarchy, if any.
    pub parent: Option<Node>,
}

/// A directed edge between two node ports, or a pure ordering edge.
#[derive(Copy, Clone, Debug, PartialEq, Eq, Structural)]
pub struct EdgeData {
    /// The source node.
    pub src: Node,
    /// The offset among the source's output ports; ignored for order edges.
    pub src_port: usize,
    /// The target node.
    pub tgt: Node,
    /// The offset among the target's input ports; ignored for order edges.
    pub tgt_port: usize,
    /// Whether the edge carries no value and encodes ordering only.
    pub order: bool,
}

/// The hierarchical port graph.
#[derive(Debug)]
pub struct Hugr {
    /// The designated root node.
    pub root: Node,
    /// The nodes; a removed node leaves a `None` behind.
    pub nodes: Vec<Option<NodeData>>,
    /// The edges.
    pub edges: Vec<EdgeData>,
}

/// Whether a node index names a live node.
pub open spec fn live(h: Hugr, n: int) -> bool {
    0 <= n < h.nodes@.len() && h.nodes@[n] is Some
}

/// The data of a live node.
pub open spec fn node_of(h: Hugr, n: int) -> NodeData {
    h.nodes@[n]->Some_0
}

/// Every operation in the graph is well-formed.
pub open spec fn wf_hugr(h: Hugr) -> bool {
    forall|n: int| live(h, n) ==> wf_op(#[trigger] node_of(h, n).nt.op)
}

/// Whether `c` is a live child of `p`.
pub open spec fn is_child(h: Hugr, p: int, c: int) -> bool {
    live(h, c) && (node_of(h, c).parent matches Some(q) && q == p)
}

/// The children of `p` among the first `k` node slots, in ascending index
/// order.
pub open spec fn children_upto(h: Hugr, p: int, k: int) -> Seq<int>
    decreases k,
{
    if k <= 0 {
        Seq::empty()
    } else if is_child(h, p, k - 1) {
        children_upto(h, p, k - 1).push(k - 1)
    } else {
        children_upto(h, p, k - 1)
    }
}

/// The children of `p`, in ascending index order.
pub open spec fn children_of(h: Hugr, p: int) -> Seq<int> {
    children_upto(h, p, h.nodes@.len() as int)
}

impl Hugr {
    /// Create a new graph holding a single root node.
    pub fn new(root_type: NodeType) -> (r: Hugr)
        ensures
            r.root == 0,
            r.nodes@.len() == 1,
            live(r, 0),
            node_of(r, 0).nt == root_type,
            node_of(r, 0).parent is None,
            r.edges@.len() == 0,
            wf_op(root_type.op) ==> wf_hugr(r),
    {
        let mut nodes: Vec<Option<NodeData>> = Vec::new();
        nodes.push(Some(NodeData { nt: root_type, parent: None }));
        Hugr { root: 0, nodes, edges: Vec::new() }
    }

    /// The designated root node.
    pub fn root(&self) -> (r: Node)
        ensures
            r == self.root,
    {
        self.root
    }

    /// The number of live nodes is at most this.
    pub fn node_slots(&self) -> (r: usize)
        ensures
            r == self.nodes@.len(),
    {
        self.nodes.len()
    }

    /// Add a parentless node to the graph.
    pub fn add_node(&mut self, nt: NodeType) -> (r: Node)
        ensures
            r == old(self).nodes@.len(),
            final(self).nodes@ == old(self).nodes@.push(
                Some(NodeData { nt, parent: None }),
            ),
            final(self).root == old(self).root,
            final(self).edges == old(self).edges,
            wf_hugr(*old(self)) && wf_op(nt.op) ==> wf_hugr(*final(self)),
    {
        let idx = self.nodes.len();
        self.nodes.push(Some(NodeData { nt, parent: None }));
        proof {
            if wf_hugr(*old(self)) && wf_op(node_of(*self, idx as int).nt.op) {
                assert forall|n: int| live(*self, n) implies wf_op(
                    #[trigger] node_of(*self, n).nt.op,
                ) by {
                    if n < idx {
                        assert(live(*old(self), n));
                        assert(node_of(*self, n) == node_of(*old(self), n));
                    }
                }
            }
        }
        idx
    }

    /// Add a node with the given parent.
    pub fn add_node_with_parent(&mut self, parent: Node, nt: NodeType) -> (r: Node)
        ensures
            r == old(self).nodes@.len(),
            final(self).nodes@ == old(self).nodes@.push(
                Some(NodeData { nt, parent: Some(parent) }),
            ),
            final(self).root == old(self).root,
            final(self).edges == old(self).edges,
            wf_hugr(*old(self)) && wf_op(nt.op) ==> wf_hugr(*final(self)),
    {
        let idx = self.nodes.len();
        self.nodes.push(Some(NodeData { nt, parent: Some(parent) }));
        proof {
            if wf_hugr(*old(self)) && wf_op(node_of(*self, idx as int).nt.op) {
                assert forall|n: int| live(*self, n) implies wf_op(
                    #[trigger] node_of(*self, n).nt.op,
                ) by {
                    if n < idx {
                        assert(live(*old(self), n));
                        assert(node_of(*self, n) == node_of(*old(self), n));
                    }
                }
            }
        }
        idx
    }

    /// Set the parent of a node.  A node that does not exist is left alone.
    pub fn set_parent(&mut self, node: Node, parent: Node)
        ensures
            live(*old(self), node as int) ==> final(self).nodes@ == old(self).nodes@.update(
                node as int,
                Some(
                    NodeData {
                        nt: node_of(*old(self), node as int).nt,
                        parent: Some(parent),
                    },
                ),
            ),
            !live(*old(self), node as int) ==> final(self).nodes@ == old(self).nodes@,
            final(self).root == old(self).root,
            final(self).edges == old(self).edges,
            wf_hugr(*old(self)) ==> wf_hugr(*final(self)),
    {
        if node < self.nodes.len() {
            let nd = self.nodes[node].take();
            match nd {
                Some(d) => {
                    self.nodes.set(node, Some(NodeData { nt: d.nt, parent: Some(parent) }));
                    proof {
                        assert(self.nodes@ =~= old(self).nodes@.update(
                            node as int,
                            Some(
                                NodeData {
                                    nt: node_of(*old(self), node as int).nt,
                                    parent: Some(parent),
                                },
                            ),
                        ));
                        if wf_hugr(*old(self)) {
                            assert forall|n: int| live(*self, n) implies wf_op(
                                #[trigger] node_of(*self, n).nt.op,
                            ) by {
                                if n != node {
                                    assert(node_of(*self, n) == node_of(*old(self), n));
                                    assert(live(*old(self), n));
                                } else {
                                    assert(live(*old(self), n));
                                }
                            }
                        }
                    }
                },
                None => {
                    self.nodes.set(node, None);
                    proof {
                        assert(self.nodes@ =~= old(self).nodes@);
                        if wf_hugr(*old(self)) {
                            assert forall|n: int| live(*self, n) implies wf_op(
                                #[trigger] node_of(*self, n).nt.op,
                            ) by {
                                assert(live(*old(self), n));
                                assert(node_of(*self, n) == node_of(*old(self), n));
                            }
                        }
                    }
                },
            }
        }
    }

    /// Replace a node's operation and annotation.  A node that does not
    /// exist is left alone.
    pub fn replace_op(&mut self, node: Node, nt: NodeType)
        ensures
            live(*old(self), node as int) ==> final(self).nodes@ == old(self).nodes@.update(
                node as int,
                Some(
                    NodeData {
                        nt,
                        parent: node_of(*old(self), node as int).parent,
                    },
                ),
            ),
            !live(*old(self), node as int) ==> final(self).nodes@ == old(self).nodes@,
            final(self).root == old(self).root,
            final(self).edges == old(self).edges,
            wf_hugr(*old(self)) && wf_op(nt.op) ==> wf_hugr(*final(self)),
    {
        if node < self.nodes.len() {
            let nd = self.nodes[node].take();
            match nd {
                Some(d) => {
                    self.nodes.set(node, Some(NodeData { nt, parent: d.parent }));
                    proof {
                        assert(self.nodes@ =~= old(self).nodes@.update(
                            node as int,
                            Some(
                                NodeData {
                                    nt: node_of(*self, node as int).nt,
                                    parent: node_of(*old(self), node as int).parent,
                                },
                            ),
                        ));
                        if wf_hugr(*old(self)) && wf_op(node_of(*self, node as int).nt.op) {
                            assert forall|n: int| live(*self, n) implies wf_op(
                                #[trigger] node_of(*self, n).nt.op,
                            ) by {
                                if n != node {
                                    assert(node_of(*self, n) == node_of(*old(self), n));
                                    assert(live(*old(self), n));
                                }
                            }
                        }
                    }
                },
                None => {
                    self.nodes.set(node, None);
                    proof {
                        assert(self.nodes@ =~= old(self).nodes@);
                        if wf_hugr(*old(self)) {
                            assert forall|n: int| live(*self, n) implies wf_op(
                                #[trigger] node_of(*self, n).nt.op,
                            ) by {
                                assert(live(*old(self), n));
                                assert(node_of(*self, n) == node_of(*old(self), n));
                            }
                        }
                    }
                },
            }
        }
    }

    /// Remove a node; the slot is left empty and edges are kept as they are.
    pub fn remove_node(&mut self, node: Node)
        ensures
            node < old(self).nodes@.len() ==> final(self).nodes@ == old(self).nodes@.update(
                node as int,
                None,
            ),
            node >= old(self).nodes@.len() ==> *final(self) == *old(self),
            final(self).root == old(self).root,
            final(self).edges == old(self).edges,
            wf_hugr(*old(self)) ==> wf_hugr(*final(self)),
    {
        if node < self.nodes.len() {
            self.nodes.set(node, None);
            proof {
                if wf_hugr(*old(self)) {
                    assert forall|n: int| live(*self, n) implies wf_op(
                        #[trigger] node_of(*self, n).nt.op,
                    ) by {
                        assert(node_of(*self, n) == node_of(*old(self), n));
                        assert(live(*old(self), n));
                    }
                }
            }
        }
    }

    /// Connect two nodes at the given value ports.
    pub fn connect(&mut self, src: Node, src_port: usize, tgt: Node, tgt_port: usize)
        ensures
            final(self).edges@ == old(self).edges@.push(
                EdgeData { src, src_port, tgt, tgt_port, order: false },
            ),
            final(self).nodes == old(self).nodes,
            final(self).root == old(self).root,
            wf_hugr(*old(self)) ==> wf_hugr(*final(self)),
    {
        self.edges.push(EdgeData { src, src_port, tgt, tgt_port, order: false });
        proof {
            if wf_hugr(*old(self)) {
                assert forall|n: int| live(*self, n) implies wf_op(
                    #[trigger] node_of(*self, n).nt.op,
                ) by {
                    assert(live(*old(self), n));
                    assert(node_of(*self, n) == node_of(*old(self), n));
                }
            }
        }
    }

    /// Add a pure ordering edge between two nodes.
    pub fn add_other_edge(&mut self, src: Node, tgt: Node)
        ensures
            final(self).edges@ == old(self).edges@.push(
                EdgeData { src, src_port: 0, tgt, tgt_port: 0, order: true },
            ),
            final(self).nodes == old(self).nodes,
            final(self).root == old(self).root,
            wf_hugr(*old(self)) ==> wf_hugr(*final(self)),
    {
        self.edges.push(EdgeData { src, src_port: 0, tgt, tgt_port: 0, order: true });
        proof {
            if wf_hugr(*old(self)) {
                assert forall|n: int| live(*self, n) implies wf_op(
                    #[trigger] node_of(*self, n).nt.op,
                ) by {
                    assert(live(*old(self), n));
                    assert(node_of(*self, n) == node_of(*old(self), n));
                }
            }
        }
    }

    /// The parent of a node, if it exists and has one.
    pub fn get_parent(&self, node: Node) -> (r: Option<Node>)
        ensures
            match r {
                Some(p) => live(*self, node as int) && node_of(*self, node as int).parent
                    == Some(p),
                None => !live(*self, node as int) || node_of(*self, node as int).parent
                    is None,
            },
    {
        if node < self.nodes.len() {
            match &self.nodes[node] {
                Some(d) => d.parent,
                None => None,
            }
        } else {
            None
        }
    }

    /// The children of a node, in ascending index order.
    pub fn children(&self, parent: Node) -> (r: Vec<Node>)
        ensures
            r@.len() == children_of(*self, parent as int).len(),
            forall|k: int| 0 <= k < r@.len() ==> #[trigger] r@[k] as int == children_of(
                *self,
                parent as int,
            )[k],
            forall|k: int| 0 <= k < r@.len() ==> live(*self, #[trigger] r@[k] as int) && node_of(
                *self,
                r@[k] as int,
            ).parent == Some(parent),
            forall|n: int| live(*self, n) && node_of(*self, n).parent == Some(parent)
                ==> exists|k: int| 0 <= k < r@.len() && r@[k] == n,
            forall|k1: int, k2: int| 0 <= k1 < k2 < r@.len() ==> r@[k1] < r@[k2],
    {
        let mut out: Vec<Node> = Vec::new();
        let mut i: usize = 0;
        while i < self.nodes.len()
            invariant
                i <= self.nodes@.len(),
                out@.len() == children_upto(*self, parent as int, i as int).len(),
                forall|k: int| 0 <= k < out@.len() ==> #[trigger] out@[k] as int == children_upto(
                    *self,
                    parent as int,
                    i as int,
                )[k],
                forall|k: int| 0 <= k < out@.len() ==> live(*self, #[trigger] out@[k] as int)
                    && node_of(*self, out@[k] as int).parent == Some(parent) && out@[k] < i,
                forall|n: int| 0 <= n < i && live(*self, n) && node_of(*self, n).parent == Some(
                    parent,
                ) ==> exists|k: int| 0 <= k < out@.len() && out@[k] == n,
                forall|k1: int, k2: int| 0 <= k1 < k2 < out@.len() ==> out@[k1] < out@[k2],
            decreases self.nodes@.len() - i,
        {
            match &self.nodes[i] {
                Some(d) => {
                    match d.parent {
                        Some(p) => {
                            if p == parent {
                                let ghost pre = out@;
                                out.push(i);
                                proof {
                                    assert forall|n: int|
                                        0 <= n < i + 1 && live(*self, n) && node_of(
                                            *self,
                                            n,
                                        ).parent == Some(parent) implies exists|k: int|
                                        0 <= k < out@.len() && out@[k] == n by {
                                        if n < i {
                                            let k = choose|k: int|
                                                0 <= k < pre.len() && pre[k] == n;
                                            assert(out@[k] == n);
                                        } else {
                                            assert(out@[out@.len() - 1] == n);
                                        }
                                    }
                                }
                            }
                        },
                        None => {},
                    }
                },
                None => {},
            }
            i += 1;
        }
        out
    }

    /// The input and output boundary children of a dataflow parent: its
    /// first and second children, when it has at least two.
    pub fn get_io(&self, parent: Node) -> (r: Option<(Node, Node)>)
        ensures
            (r is Some) == (children_of(*self, parent as int).len() >= 2),
            r matches Some((a, b)) ==> a as int == children_of(*self, parent as int)[0] && b
                as int == children_of(*self, parent as int)[1] && live(*self, a as int) && live(
                *self,
                b as int,
            ) && node_of(*self, a as int).parent == Some(parent) && node_of(
                *self,
                b as int,
            ).parent == Some(parent),
    {
        let cs = self.children(parent);
        if cs.len() >= 2 {
            Some((cs[0], cs[1]))
        } else {
            None
        }
    }

    /// The operation of a node, when it is live.
    pub fn get_optype(&self, node: Node) -> (r: Option<&OpType>)
        ensures
            (r is Some) == live(*self, node as int),
            r matches Some(op) ==> *op == node_of(*self, node as int).nt.op,
    {
        if node < self.nodes.len() {
            match &self.nodes[node] {
                Some(d) => Some(&d.nt.op),
                None => None,
            }
        } else {
            None
        }
    }

    /// Whether edge `e` is a static edge into the given node: a non-order
    /// edge out of a live constant or function definition or declaration.
    pub open spec fn static_edge_into(self, e: int, node: int) -> bool {
        &&& 0 <= e < self.edges@.len()
        &&& !self.edges@[e].order
        &&& self.edges@[e].tgt == node
        &&& live(self, self.edges@[e].src as int)
        &&& node_of(self, self.edges@[e].src as int).nt.op.static_source_spec()
    }

    /// The static source feeding a node's static input, if a static edge
    /// targets the node: the source of the first such edge.
    pub fn static_source(&self, node: Node) -> (r: Option<Node>)
        ensures
            (r is Some) == exists|e: int| #[trigger] self.static_edge_into(e, node as int),
            r matches Some(s) ==> exists|e: int|
                #[trigger] self.static_edge_into(e, node as int) && self.edges@[e].src == s,
    {
        let mut i: usize = 0;
        while i < self.edges.len()
            invariant
                i <= self.edges@.len(),
                forall|e: int| 0 <= e < i ==> !#[trigger] self.static_edge_into(e, node as int),
            decreases self.edges@.len() - i,
        {
            let e = self.edges[i];
            if !e.order && e.tgt == node {
                let src_live = e.src < self.nodes.len();
                if src_live {
                    match &self.nodes[e.src] {
                        Some(d) => {
                            if d.nt.op.is_static_source() {
                                proof {
                                    assert(self.static_edge_into(i as int, node as int));
                                }
                                return Some(e.src);
                            }
                        },
                        None => {},
                    }
                }
            }
            proof {
                assert(!self.static_edge_into(i as int, node as int));
            }
            i += 1;
        }
        None
    }
}

} // verus!
