//! The structural validator: a single pass over the hierarchy that either
//! accepts the graph or reports the first violation found.  It never repairs
//! the graph.

use vstd::prelude::*;
use crate::extension::ExtensionRegistry;
use crate::extension_set::{ExtItemSpec, ExtensionSet};
use crate::hugr::{live, node_of, wf_hugr, Hugr, Node};
use crate::ops::{wf_op, OpClass, OpType};
use crate::types::row_eq;

verus! {

/// A structural fault in the graph.  Every error carries the offending
/// nodes; propagation is always immediate return.
#[derive(Debug)]
pub enum ValidationError {
    /// A node other than the designated root has no parent.
    NoParent {
        /// The rootless node.
        node: Node,
    },
    /// The designated root has a parent, or does not exist.
    RootNotRoot {
        /// The node found at the root position.
        node: Node,
    },
    /// A container operation has no children.
    ContainerWithoutChildren {
        /// The childless container.
        node: Node,
    },
    /// A leaf operation has children.
    NonContainerWithChildren {
        /// The node wrongly having children.
        node: Node,
    },
    /// A child's operation is not allowed under its parent's.
    InvalidParentOp {
        /// The parent.
        parent: Node,
        /// The offending child.
        child: Node,
    },
    /// A dataflow container's first children are not an input boundary
    /// followed by an output boundary.
    InvalidInitialChild {
        /// The container.
        parent: Node,
    },
    /// A boundary child's row does not match the container's.
    IOSignatureMismatch {
        /// The container.
        parent: Node,
        /// The offending boundary child.
        child: Node,
    },
    /// An input or output boundary node appears after the first two
    /// children.
    InternalIOChildren {
        /// The container.
        parent: Node,
        /// The offending child.
        child: Node,
    },
    /// An exit block appears anywhere but as the second child.
    InternalExitChildren {
        /// The container.
        parent: Node,
        /// The offending child.
        child: Node,
    },
    /// A control-flow edge's branch row does not match its successor's
    /// declared inputs.
    CFGEdgeSignatureMismatch {
        /// The container.
        parent: Node,
    },
    /// A declared port is not connected.
    UnconnectedPort {
        /// The node with the unconnected port.
        node: Node,
        /// The offset of the port among the node's inputs.
        port: usize,
        /// The type the port carries.
        ty: crate::types::Type,
    },
    /// An edge names a missing node or port, or its two port types differ.
    EdgeMismatch {
        /// The index of the offending edge.
        edge: usize,
    },
    /// The subgraph of one sibling scope induced by value and control-flow
    /// edges has a cycle.
    NotADag {
        /// The scope's parent node.
        parent: Node,
    },
    /// A value edge crosses nesting levels without an accompanying order
    /// edge between the relevant siblings.
    MissingOrderEdge {
        /// The target of the crossing edge.
        node: Node,
    },
    /// A value edge targets a function definition or declaration directly.
    ValueEdgeIntoFunc {
        /// The function node wrongly targeted.
        func: Node,
    },
    /// An edge's target requires strictly more extensions than its source
    /// supplies.
    TgtExceedsSrcExtensionsAtPort {
        /// The source node.
        from: Node,
        /// The target node.
        to: Node,
    },
    /// An edge's source supplies strictly more extensions than its target
    /// accepts.
    SrcExceedsTgtExtensionsAtPort {
        /// The source node.
        from: Node,
        /// The target node.
        to: Node,
    },
    /// A container's declared delta does not equal what its body makes
    /// visible at its boundary.
    ParentIOExtensionMismatch {
        /// The container.
        parent: Node,
        /// The boundary child where the mismatch shows.
        child: Node,
    },
    /// Inference found no stable requirement assignment for this node
    /// within its bound: the constraints around it are contradictory or
    /// cannot be resolved.
    ExtensionsNotInferred {
        /// The node whose requirements could not be resolved.
        node: Node,
    },
    /// A type in a node's signature failed validation against the registry
    /// and the declarations in scope.
    SignatureError {
        /// The node whose signature is at fault.
        node: Node,
        /// The underlying fault.
        cause: crate::extension::SignatureError,
    },
}

// ------------------------------------------------------------------
// What acceptance guarantees
// ------------------------------------------------------------------
/// Exactly one node has no parent, and it is the designated root.
pub open spec fn roots_ok(h: Hugr) -> bool {
    live(h, h.root as int) && node_of(h, h.root as int).parent is None && (forall|n: int|
        live(h, n) && n != h.root ==> (#[trigger] node_of(h, n).parent) is Some)
}

/// The extension requirements present at a node's inputs, empty until
/// resolved.
pub open spec fn inset(h: Hugr, n: int) -> Set<ExtItemSpec> {
    match node_of(h, n).nt.input_extensions {
        Some(es) => es@,
        None => Set::empty(),
    }
}

/// The extension requirements a node's outputs carry: its inputs' plus its
/// operation's delta.
pub open spec fn outset(h: Hugr, n: int) -> Set<ExtItemSpec> {
    inset(h, n).union(node_of(h, n).nt.op.delta_spec())
}

/// Whether an edge is a value edge to be type- and extension-checked: not an
/// ordering edge, and not out of a static source.
pub open spec fn value_edge(h: Hugr, e: int) -> bool {
    &&& 0 <= e < h.edges@.len()
    &&& !h.edges@[e].order
    &&& live(h, h.edges@[e].src as int)
    &&& !node_of(h, h.edges@[e].src as int).nt.op.static_source_spec()
    &&& !node_of(h, h.edges@[e].src as int).nt.op.is_cf_node_spec()
}

/// A control-flow edge agrees in shape: the predecessor is a basic block,
/// the successor a block or exit block, the branch exists, and the branch
/// row equals the successor's declared inputs exactly.
pub open spec fn cf_edge_ok(h: Hugr, e: int) -> bool {
    let ed = h.edges@[e];
    let sop = node_of(h, ed.src as int).nt.op;
    let top = node_of(h, ed.tgt as int).nt.op;
    &&& sop is DFB
    &&& top.is_cf_node_spec()
    &&& ed.src_port < sop->tuple_sum_rows@.len()
    &&& crate::types::rows_view(sop->tuple_sum_rows)[ed.src_port as int] + crate::types::row_view(
        sop->other_outputs,
    ) == top.cf_input_row_spec()
}

/// Every edge joins live nodes at in-range ports, the two ends of every
/// value edge agree in exact element type, and every control-flow edge
/// matches its successor's declared row.
pub open spec fn edges_ok(h: Hugr) -> bool {
    forall|e: int| 0 <= e < h.edges@.len() && !(#[trigger] h.edges@[e]).order ==> {
        let ed = h.edges@[e];
        &&& live(h, ed.src as int)
        &&& live(h, ed.tgt as int)
        &&& (value_edge(h, e) ==> {
            let srow = node_of(h, ed.src as int).nt.op.out_row_spec();
            let trow = node_of(h, ed.tgt as int).nt.op.in_row_spec();
            &&& ed.src_port < srow.len()
            &&& ed.tgt_port < trow.len()
            &&& srow[ed.src_port as int] == trow[ed.tgt_port as int]
        })
        &&& (node_of(h, ed.src as int).nt.op.is_cf_node_spec() ==> cf_edge_ok(h, e))
    }
}

/// Along every value edge, the requirements at the target's inputs equal
/// exactly the requirements the source's outputs carry.
pub open spec fn exts_ok(h: Hugr) -> bool {
    forall|e: int| #[trigger] value_edge(h, e) ==> live(h, h.edges@[e].tgt as int) && outset(
        h,
        h.edges@[e].src as int,
    ) == inset(h, h.edges@[e].tgt as int)
}

/// Every declared value input port of every non-root live node is fed by
/// some edge.
/// Some edge feeds the given input port.
pub open spec fn port_fed(h: Hugr, n: int, p: int) -> bool {
    exists|e: int|
        0 <= e < h.edges@.len() && !(#[trigger] h.edges@[e]).order && h.edges@[e].tgt == n
            && h.edges@[e].tgt_port == p
}

pub open spec fn ports_ok(h: Hugr) -> bool {
    forall|n: int, p: int|
        live(h, n) && n != h.root && 0 <= p < node_of(h, n).nt.op.in_row_spec().len()
            ==> #[trigger] port_fed(h, n, p)
}

/// At every dataflow container's boundary, the input child carries exactly
/// the container's own input requirements, and the output child carries
/// them plus the container's declared delta.
pub open spec fn parent_io_ok(h: Hugr) -> bool {
    forall|n: int|
        live(h, n) && (#[trigger] node_of(h, n).nt.op).class_spec() == OpClass::DataflowContainer
            && crate::hugr::children_of(h, n).len() >= 2 ==> {
            let cs = crate::hugr::children_of(h, n);
            &&& inset(h, cs[0]) == inset(h, n)
            &&& inset(h, cs[1]) == inset(h, n).union(node_of(h, n).nt.op.delta_spec())
        }
}

/// The parameters declared by the nearest enclosing function definition,
/// walking up at most `fuel` steps of the hierarchy; empty when there is
/// none or the chain is broken.
pub open spec fn scope_params_spec(h: Hugr, n: int, fuel: int) -> Seq<crate::types::TypeParamSpec>
    decreases fuel,
{
    if fuel <= 0 {
        Seq::empty()
    } else {
        match node_of(h, n).parent {
            None => Seq::empty(),
            Some(p) => if !live(h, p as int) {
                Seq::empty()
            } else if node_of(h, p as int).nt.op is FuncDefn {
                crate::types::params_view(node_of(h, p as int).nt.op->FuncDefn_signature.params)
            } else {
                scope_params_spec(h, p as int, fuel - 1)
            },
        }
    }
}

/// A node's signature is valid against the registry: a function definition
/// or declaration's scheme validates against the parameters of the nearest
/// enclosing definition; a constant's type validates against no declarations
/// at all, so constants are always monomorphic; and every other operation's
/// concrete port types validate, with row variables refused.
pub open spec fn node_sig_ok(h: Hugr, n: int, reg: ExtensionRegistry) -> bool {
    let decls = scope_params_spec(h, n, h.nodes@.len() as int);
    match node_of(h, n).nt.op {
        OpType::FuncDefn { signature, .. } => crate::type_check::valid_poly(
            crate::types::poly_view(signature),
            reg,
            decls,
        ),
        OpType::FuncDecl { signature, .. } => crate::type_check::valid_poly(
            crate::types::poly_view(signature),
            reg,
            decls,
        ),
        OpType::Const(c) => crate::type_check::valid_type(
            crate::types::type_view(c.datatype),
            false,
            reg,
            Seq::empty(),
        ),
        op => (forall|i: int|
            0 <= i < op.in_row_spec().len() ==> crate::type_check::valid_type(
                #[trigger] op.in_row_spec()[i],
                false,
                reg,
                decls,
            )) && (forall|i: int|
            0 <= i < op.out_row_spec().len() ==> crate::type_check::valid_type(
                #[trigger] op.out_row_spec()[i],
                false,
                reg,
                decls,
            )),
    }
}

/// Every node's signature is valid against the registry and the
/// declarations in scope.
pub open spec fn sigs_ok(h: Hugr, reg: ExtensionRegistry) -> bool {
    forall|n: int| live(h, n) ==> #[trigger] node_sig_ok(h, n, reg)
}

/// Whether a node sits in a control-flow container's scope, where blocks
/// may loop.
pub open spec fn scope_exempt(h: Hugr, n: int) -> bool {
    node_of(h, n).parent matches Some(p) && live(h, p as int) && node_of(
        h,
        p as int,
    ).nt.op.class_spec() == OpClass::CfgContainer
}

/// Edge `e` is a same-scope data or control dependency into node `m`: not
/// an ordering edge, source and target live, sharing a parent, and not a
/// self-loop on the same node.
pub open spec fn scope_pred(h: Hugr, e: int, m: int) -> bool {
    &&& 0 <= e < h.edges@.len()
    &&& !h.edges@[e].order
    &&& h.edges@[e].tgt == m
    &&& h.edges@[e].src != m
    &&& live(h, h.edges@[e].src as int)
    &&& live(h, m)
    &&& node_of(h, h.edges@[e].src as int).parent == node_of(h, m).parent
}

/// Every sibling scope of a dataflow region is acyclic: every nonempty set
/// of its live nodes has a member with no same-scope dependency from within
/// the set.
pub open spec fn dag_ok(h: Hugr) -> bool {
    forall|s: Set<int>|
        #![trigger s.is_empty()]
        ((forall|m: int| #[trigger] s.contains(m) ==> live(h, m) && !scope_exempt(h, m))
            && !s.is_empty()) ==> exists|m: int|
            s.contains(m) && !exists|e: int|
                #[trigger] scope_pred(h, e, m) && s.contains(h.edges@[e].src as int)
}

/// A set of live nodes in which every member has a same-scope dependency
/// from another member breaks acyclicity.
pub proof fn lemma_stuck_set_breaks_dag(h: Hugr, s: Set<int>, witness: int, done: Seq<bool>)
    requires
        s == Set::new(
            |m: int| 0 <= m < h.nodes@.len() && !done[m] && live(h, m) && !scope_exempt(h, m),
        ),
        s.contains(witness),
        forall|m: int| s.contains(m) ==> exists|e: int|
            #[trigger] scope_pred(h, e, m) && !done[h.edges@[e].src as int],
    ensures
        !dag_ok(h),
{
    assert(!s.is_empty()) by {
        assert(s.contains(witness));
    }
    assert forall|m: int| #[trigger] s.contains(m) implies live(h, m) && !scope_exempt(h, m) by {}
    if dag_ok(h) {
        let m = choose|m: int|
            s.contains(m) && !exists|e: int|
                #[trigger] scope_pred(h, e, m) && s.contains(h.edges@[e].src as int);
        let e = choose|e: int| #[trigger] scope_pred(h, e, m) && !done[h.edges@[e].src as int];
        let src = h.edges@[e].src as int;
        assert(live(h, src));
        assert(node_of(h, src).parent == node_of(h, m).parent);
        assert(!scope_exempt(h, src));
        assert(0 <= src < h.nodes@.len());
        assert(s.contains(src));
        assert(scope_pred(h, e, m) && s.contains(h.edges@[e].src as int));
    }
}

/// The number of unreleased slots among the first `k`.
pub open spec fn count_undone(done: Seq<bool>, k: int) -> int
    decreases k,
{
    if k <= 0 {
        0
    } else {
        count_undone(done, k - 1) + if done[k - 1] {
            0int
        } else {
            1int
        }
    }
}

/// The count of unreleased slots is never negative.
pub proof fn lemma_count_undone_nonneg(done: Seq<bool>, k: int)
    ensures
        count_undone(done, k) >= 0,
    decreases k,
{
    if k > 0 {
        lemma_count_undone_nonneg(done, k - 1);
    }
}

/// Releasing one unreleased slot lowers the count by one.
pub proof fn lemma_count_undone_update(done: Seq<bool>, i: int, k: int)
    requires
        0 <= i < done.len(),
        !done[i],
        k <= done.len(),
    ensures
        count_undone(done.update(i, true), k) == count_undone(done, k) - if i < k {
            1int
        } else {
            0int
        },
    decreases k,
{
    if k > 0 {
        lemma_count_undone_update(done, i, k - 1);
    }
}

/// Containers have children and leaves have none.
pub open spec fn containers_ok(h: Hugr) -> bool {
    forall|n: int| live(h, n) ==> {
        let cls = (#[trigger] node_of(h, n).nt.op).class_spec();
        &&& ((cls == OpClass::DataflowContainer || cls == OpClass::CfgContainer) ==> exists|c: int|
            live(h, c) && (#[trigger] node_of(h, c).parent) == Some(n as usize))
        &&& (cls == OpClass::Leaf ==> !exists|c: int|
            live(h, c) && (#[trigger] node_of(h, c).parent) == Some(n as usize))
    }
}

impl Hugr {
    /// Check that every node but the designated root has a parent, and the
    /// root has none.
    fn check_roots(&self) -> (r: Result<(), ValidationError>)
        ensures
            (r is Ok) == roots_ok(*self),
            r matches Err(e) ==> (e is NoParent || e is RootNotRoot),
            r matches Err(ValidationError::NoParent { node }) ==> live(*self, node as int)
                && node_of(*self, node as int).parent is None && node != self.root,
            r matches Err(ValidationError::RootNotRoot { node }) ==> node == self.root && !(
            live(*self, self.root as int) && node_of(*self, self.root as int).parent is None),
    {
        if self.root >= self.nodes.len() {
            return Err(ValidationError::RootNotRoot { node: self.root });
        }
        match &self.nodes[self.root] {
            Some(d) => {
                if d.parent.is_some() {
                    return Err(ValidationError::RootNotRoot { node: self.root });
                }
            },
            None => {
                return Err(ValidationError::RootNotRoot { node: self.root });
            },
        }
        let mut i: usize = 0;
        while i < self.nodes.len()
            invariant
                i <= self.nodes@.len(),
                live(*self, self.root as int),
                node_of(*self, self.root as int).parent is None,
                forall|n: int| 0 <= n < i && live(*self, n) && n != self.root ==> (
                #[trigger] node_of(*self, n).parent) is Some,
            decreases self.nodes@.len() - i,
        {
            if i != self.root {
                match &self.nodes[i] {
                    Some(d) => {
                        if d.parent.is_none() {
                            return Err(ValidationError::NoParent { node: i });
                        }
                    },
                    None => {},
                }
            }
            i += 1;
        }
        Ok(())
    }

    /// Check every edge: live endpoints, ports in range, and exact type
    /// agreement on value edges.
    fn check_edges(&self) -> (r: Result<(), ValidationError>)
        requires
            wf_hugr(*self),
        ensures
            (r is Ok) == edges_ok(*self),
            r matches Err(e) ==> (e is EdgeMismatch || e is CFGEdgeSignatureMismatch),
    {
        let mut i: usize = 0;
        while i < self.edges.len()
            invariant
                wf_hugr(*self),
                i <= self.edges@.len(),
                forall|e: int| 0 <= e < i && !(#[trigger] self.edges@[e]).order ==> {
                    let ed = self.edges@[e];
                    &&& live(*self, ed.src as int)
                    &&& live(*self, ed.tgt as int)
                    &&& (value_edge(*self, e) ==> {
                        let srow = node_of(*self, ed.src as int).nt.op.out_row_spec();
                        let trow = node_of(*self, ed.tgt as int).nt.op.in_row_spec();
                        &&& ed.src_port < srow.len()
                        &&& ed.tgt_port < trow.len()
                        &&& srow[ed.src_port as int] == trow[ed.tgt_port as int]
                    })
                    &&& (node_of(*self, ed.src as int).nt.op.is_cf_node_spec() ==> cf_edge_ok(
                        *self,
                        e,
                    ))
                },
            decreases self.edges@.len() - i,
        {
            let ed = self.edges[i];
            if !ed.order {
                let src_op = match self.get_optype(ed.src) {
                    Some(op) => op,
                    None => {
                        return Err(ValidationError::EdgeMismatch { edge: i });
                    },
                };
                if self.get_optype(ed.tgt).is_none() {
                    return Err(ValidationError::EdgeMismatch { edge: i });
                }
                if src_op.is_cf_node() {
                    // A control-flow edge between blocks: the predecessor's
                    // chosen branch row must match the successor's declared
                    // inputs exactly.
                    proof {
                        assert(wf_op(node_of(*self, ed.src as int).nt.op));
                        assert(wf_op(node_of(*self, ed.tgt as int).nt.op));
                    }
                    let branch_row = match src_op.cf_branch_row(ed.src_port) {
                        Some(row) => row,
                        None => {
                            return Err(ValidationError::EdgeMismatch { edge: i });
                        },
                    };
                    let tgt_op = match self.get_optype(ed.tgt) {
                        Some(op) => op,
                        None => {
                            return Err(ValidationError::EdgeMismatch { edge: i });
                        },
                    };
                    let tgt_row = match tgt_op.cf_input_row() {
                        Some(row) => row,
                        None => {
                            return Err(ValidationError::EdgeMismatch { edge: i });
                        },
                    };
                    if !row_eq(&branch_row, &tgt_row) {
                        let parent = match self.get_parent(ed.src) {
                            Some(p) => p,
                            None => self.root,
                        };
                        return Err(ValidationError::CFGEdgeSignatureMismatch { parent });
                    }
                } else if !src_op.is_static_source() {
                    let srow = src_op.out_row();
                    let tgt_op = match self.get_optype(ed.tgt) {
                        Some(op) => op,
                        None => {
                            return Err(ValidationError::EdgeMismatch { edge: i });
                        },
                    };
                    let trow = tgt_op.in_row();
                    proof {
                        crate::types::lemma_row_view(srow);
                        crate::types::lemma_row_view(trow);
                    }
                    if ed.src_port >= srow.len() || ed.tgt_port >= trow.len() {
                        return Err(ValidationError::EdgeMismatch { edge: i });
                    }
                    if !crate::types::type_eq(&srow[ed.src_port], &trow[ed.tgt_port]) {
                        return Err(ValidationError::EdgeMismatch { edge: i });
                    }
                }
            }
            i += 1;
        }
        Ok(())
    }

    /// Check that along every value edge the target's requirements equal
    /// exactly what the source's outputs carry: the target may not demand
    /// more, and the source may not supply more.
    fn check_extensions(&self) -> (r: Result<(), ValidationError>)
        ensures
            (r is Ok) ==> exts_ok(*self),
            r matches Err(e) ==> (e is TgtExceedsSrcExtensionsAtPort
                || e is SrcExceedsTgtExtensionsAtPort || e is EdgeMismatch),
            (r matches Err(e) && (e is TgtExceedsSrcExtensionsAtPort
                || e is SrcExceedsTgtExtensionsAtPort)) ==> !exts_ok(*self),
            r matches Err(ValidationError::EdgeMismatch { edge }) ==> !edges_ok(*self),
            r matches Err(ValidationError::TgtExceedsSrcExtensionsAtPort { from, to }) ==> exists|
                e: int,
            |
                value_edge(*self, e) && (#[trigger] self.edges@[e]).src == from
                    && self.edges@[e].tgt == to,
            r matches Err(ValidationError::SrcExceedsTgtExtensionsAtPort { from, to }) ==> exists|
                e: int,
            |
                value_edge(*self, e) && (#[trigger] self.edges@[e]).src == from
                    && self.edges@[e].tgt == to,
    {
        let mut i: usize = 0;
        while i < self.edges.len()
            invariant
                i <= self.edges@.len(),
                forall|e: int| 0 <= e < i && #[trigger] value_edge(*self, e) ==> live(
                    *self,
                    self.edges@[e].tgt as int,
                ) && outset(*self, self.edges@[e].src as int) == inset(
                    *self,
                    self.edges@[e].tgt as int,
                ),
            decreases self.edges@.len() - i,
        {
            let ed = self.edges[i];
            if !ed.order && ed.src < self.nodes.len() && ed.tgt < self.nodes.len() {
                let src_live = self.get_optype(ed.src).is_some();
                let tgt_live = self.get_optype(ed.tgt).is_some();
                if src_live {
                    let src_static = match self.get_optype(ed.src) {
                        Some(op) => op.is_static_source() || op.is_cf_node(),
                        None => true,
                    };
                    if !src_static {
                        if !tgt_live {
                            return Err(ValidationError::EdgeMismatch { edge: i });
                        }
                        let src_in = match &self.nodes[ed.src] {
                            Some(d) => match &d.nt.input_extensions {
                                Some(es) => es.clone(),
                                None => ExtensionSet::new(),
                            },
                            None => ExtensionSet::new(),
                        };
                        let src_delta = match self.get_optype(ed.src) {
                            Some(op) => op.delta(),
                            None => ExtensionSet::new(),
                        };
                        let src_out = src_in.union(&src_delta);
                        let tgt_in = match &self.nodes[ed.tgt] {
                            Some(d) => match &d.nt.input_extensions {
                                Some(es) => es.clone(),
                                None => ExtensionSet::new(),
                            },
                            None => ExtensionSet::new(),
                        };
                        proof {
                            assert(src_out@ == outset(*self, ed.src as int));
                            assert(tgt_in@ == inset(*self, ed.tgt as int));
                        }
                        if !src_out.is_superset(&tgt_in) {
                            proof {
                                assert(value_edge(*self, i as int));
                            }
                            return Err(ValidationError::TgtExceedsSrcExtensionsAtPort {
                                from: ed.src,
                                to: ed.tgt,
                            });
                        }
                        if !src_out.is_subset(&tgt_in) {
                            proof {
                                assert(value_edge(*self, i as int));
                            }
                            return Err(ValidationError::SrcExceedsTgtExtensionsAtPort {
                                from: ed.src,
                                to: ed.tgt,
                            });
                        }
                        proof {
                            assert(src_out@ =~= tgt_in@);
                        }
                    }
                }
            } else if !ed.order {
                return Err(ValidationError::EdgeMismatch { edge: i });
            }
            i += 1;
        }
        Ok(())
    }
}

impl Hugr {
    /// Check the children-shape rules: containers have children, leaves have
    /// none, module children are definitions and declarations, dataflow
    /// containers start with an input and an output boundary matching the
    /// container's rows, and a control-flow container has its single exit
    /// block second.
    fn check_children(&self) -> (r: Result<(), ValidationError>)
        requires
            wf_hugr(*self),
        ensures
            (r is Ok) ==> containers_ok(*self),
            r matches Err(e) ==> (e is ContainerWithoutChildren || e is NonContainerWithChildren
                || e is InvalidParentOp || e is InvalidInitialChild || e is IOSignatureMismatch
                || e is InternalIOChildren || e is InternalExitChildren),
            r matches Err(ValidationError::ContainerWithoutChildren { node }) ==> live(
                *self,
                node as int,
            ) && crate::hugr::children_of(*self, node as int).len() == 0 && (node_of(
                *self,
                node as int,
            ).nt.op.class_spec() == OpClass::DataflowContainer || node_of(
                *self,
                node as int,
            ).nt.op.class_spec() == OpClass::CfgContainer),
            r matches Err(ValidationError::NonContainerWithChildren { node }) ==> live(
                *self,
                node as int,
            ) && node_of(*self, node as int).nt.op.class_spec() == OpClass::Leaf
                && crate::hugr::children_of(*self, node as int).len() > 0,
            r matches Err(ValidationError::IOSignatureMismatch { parent, child }) ==>
                crate::hugr::is_child(*self, parent as int, child as int),
            r matches Err(ValidationError::InternalIOChildren { parent, child }) ==>
                crate::hugr::is_child(*self, parent as int, child as int) && (node_of(
                *self,
                child as int,
            ).nt.op is Input || node_of(*self, child as int).nt.op is Output),
            r matches Err(ValidationError::InternalExitChildren { parent, child }) ==>
                crate::hugr::is_child(*self, parent as int, child as int) && node_of(
                *self,
                child as int,
            ).nt.op is Exit,
            r matches Err(ValidationError::InvalidParentOp { parent, child }) ==>
                crate::hugr::is_child(*self, parent as int, child as int),
            r matches Err(ValidationError::InvalidInitialChild { parent }) ==> live(
                *self,
                parent as int,
            ),
    {
        let n_slots = self.node_slots();
        let mut i: usize = 0;
        while i < n_slots
            invariant
                wf_hugr(*self),
                n_slots == self.nodes@.len(),
                i <= n_slots,
                forall|n: int| 0 <= n < i && live(*self, n) ==> {
                    let cls = (#[trigger] node_of(*self, n).nt.op).class_spec();
                    &&& ((cls == OpClass::DataflowContainer || cls == OpClass::CfgContainer)
                        ==> exists|c: int|
                        live(*self, c) && (#[trigger] node_of(*self, c).parent) == Some(
                            n as usize,
                        ))
                    &&& (cls == OpClass::Leaf ==> !exists|c: int|
                        live(*self, c) && (#[trigger] node_of(*self, c).parent) == Some(
                            n as usize,
                        ))
                },
            decreases n_slots - i,
        {
            let op_class = match self.get_optype(i) {
                Some(op) => op.class(),
                None => {
                    i += 1;
                    continue ;
                },
            };
            let cs = self.children(i);
            proof {
                if cs@.len() > 0 {
                    assert(live(*self, cs@[0] as int) && node_of(*self, cs@[0] as int).parent
                        == Some(i));
                }
            }
            match op_class {
                OpClass::Leaf => {
                    if cs.len() > 0 {
                        return Err(ValidationError::NonContainerWithChildren { node: i });
                    }
                    proof {
                        assert forall|c: int|
                            !(live(*self, c) && (#[trigger] node_of(*self, c).parent) == Some(
                                i,
                            )) by {
                            if live(*self, c) && node_of(*self, c).parent == Some(i) {
                                let k = choose|k: int| 0 <= k < cs@.len() && cs@[k] == c;
                            }
                        }
                    }
                },
                OpClass::Module => {
                    let mut k: usize = 0;
                    while k < cs.len()
                        invariant
                            wf_hugr(*self),
                            k <= cs@.len(),
                            live(*self, i as int),
                            forall|j: int| 0 <= j < cs@.len() ==> live(
                                *self,
                                #[trigger] cs@[j] as int,
                            ) && crate::hugr::is_child(*self, i as int, cs@[j] as int),
                        decreases cs@.len() - k,
                    {
                        let allowed = match self.get_optype(cs[k]) {
                            Some(op) => matches!(
                                op,
                                OpType::FuncDefn { .. } | OpType::FuncDecl { .. } | OpType::Const(
                                    _,
                                ) | OpType::Module
                            ),
                            None => false,
                        };
                        if !allowed {
                            return Err(ValidationError::InvalidParentOp {
                                parent: i,
                                child: cs[k],
                            });
                        }
                        k += 1;
                    }
                },
                OpClass::DataflowContainer => {
                    if cs.len() == 0 {
                        return Err(ValidationError::ContainerWithoutChildren { node: i });
                    }
                    let exp = self.container_rows(i);
                    let (exp_in, exp_out) = match exp {
                        Some(rows) => rows,
                        None => {
                            return Err(ValidationError::InvalidInitialChild { parent: i });
                        },
                    };
                    if cs.len() < 2 {
                        return Err(ValidationError::InvalidInitialChild { parent: i });
                    }
                    match self.get_optype(cs[0]) {
                        Some(OpType::Input { types }) => {
                            if !row_eq(types, &exp_in) {
                                return Err(ValidationError::IOSignatureMismatch {
                                    parent: i,
                                    child: cs[0],
                                });
                            }
                        },
                        _ => {
                            return Err(ValidationError::InvalidInitialChild { parent: i });
                        },
                    }
                    match self.get_optype(cs[1]) {
                        Some(OpType::Output { types }) => {
                            if !row_eq(types, &exp_out) {
                                return Err(ValidationError::IOSignatureMismatch {
                                    parent: i,
                                    child: cs[1],
                                });
                            }
                        },
                        _ => {
                            return Err(ValidationError::InvalidInitialChild { parent: i });
                        },
                    }
                    let mut k: usize = 2;
                    while k < cs.len()
                        invariant
                            wf_hugr(*self),
                            2 <= k <= cs@.len(),
                            live(*self, i as int),
                            forall|j: int| 0 <= j < cs@.len() ==> live(
                                *self,
                                #[trigger] cs@[j] as int,
                            ) && crate::hugr::is_child(*self, i as int, cs@[j] as int),
                        decreases cs@.len() - k,
                    {
                        let internal_io = match self.get_optype(cs[k]) {
                            Some(op) => matches!(
                                op,
                                OpType::Input { .. } | OpType::Output { .. }
                            ),
                            None => false,
                        };
                        if internal_io {
                            return Err(ValidationError::InternalIOChildren {
                                parent: i,
                                child: cs[k],
                            });
                        }
                        k += 1;
                    }
                },
                OpClass::CfgContainer => {
                    if cs.len() == 0 {
                        return Err(ValidationError::ContainerWithoutChildren { node: i });
                    }
                    if cs.len() < 2 {
                        return Err(ValidationError::InvalidInitialChild { parent: i });
                    }
                    let mut k: usize = 0;
                    while k < cs.len()
                        invariant
                            wf_hugr(*self),
                            k <= cs@.len(),
                            live(*self, i as int),
                            forall|j: int| 0 <= j < cs@.len() ==> live(
                                *self,
                                #[trigger] cs@[j] as int,
                            ) && crate::hugr::is_child(*self, i as int, cs@[j] as int),
                        decreases cs@.len() - k,
                    {
                        let is_exit = match self.get_optype(cs[k]) {
                            Some(op) => matches!(op, OpType::Exit { .. }),
                            None => false,
                        };
                        let is_dfb = match self.get_optype(cs[k]) {
                            Some(op) => matches!(op, OpType::DFB { .. }),
                            None => false,
                        };
                        if k == 1 {
                            if !is_exit {
                                return Err(ValidationError::InvalidInitialChild { parent: i });
                            }
                        } else {
                            if is_exit {
                                return Err(ValidationError::InternalExitChildren {
                                    parent: i,
                                    child: cs[k],
                                });
                            }
                            if !is_dfb {
                                return Err(ValidationError::InvalidParentOp {
                                    parent: i,
                                    child: cs[k],
                                });
                            }
                        }
                        k += 1;
                    }
                },
            }
            i += 1;
        }
        Ok(())
    }

    /// The rows a dataflow container hands its input boundary and expects of
    /// its output boundary, if its operation declares them.
    fn container_rows(&self, n: Node) -> (r: Option<(crate::types::TypeRow, crate::types::TypeRow)>)
        requires
            wf_hugr(*self),
        ensures
            r matches Some(rows) ==> crate::types::wf_row(rows.0) && crate::types::wf_row(rows.1),
    {
        let op = match self.get_optype(n) {
            Some(op) => op,
            None => {
                return None;
            },
        };
        proof {
            assert(wf_op(node_of(*self, n as int).nt.op));
        }
        match op {
            OpType::FuncDefn { signature, .. } => Some(
                (
                    crate::types::clone_row(&signature.body.input),
                    crate::types::clone_row(&signature.body.output),
                ),
            ),
            OpType::DFG { signature } => Some(
                (
                    crate::types::clone_row(&signature.input),
                    crate::types::clone_row(&signature.output),
                ),
            ),
            OpType::DFB { inputs, tuple_sum_rows, other_outputs, .. } => {
                let mut out: crate::types::TypeRow = Vec::new();
                let mut variants: Vec<crate::types::TypeRow> = Vec::new();
                let mut k: usize = 0;
                while k < tuple_sum_rows.len()
                    invariant
                        crate::types::wf_rows(*tuple_sum_rows),
                        k <= tuple_sum_rows@.len(),
                        crate::types::wf_rows(variants),
                    decreases tuple_sum_rows@.len() - k,
                {
                    proof {
                        assert forall|j: int|
                            0 <= j < tuple_sum_rows@[k as int]@.len() implies crate::types::wf_type(
                            #[trigger] tuple_sum_rows@[k as int]@[j],
                        ) by {}
                    }
                    let row = crate::types::clone_row(&tuple_sum_rows[k]);
                    let ghost pre = variants;
                    variants.push(row);
                    proof {
                        assert forall|i0: int, j0: int|
                            0 <= i0 < variants@.len() && 0 <= j0
                                < variants@[i0]@.len() implies crate::types::wf_type(
                            #[trigger] variants@[i0]@[j0],
                        ) by {
                            if i0 < pre@.len() {
                                assert(crate::types::wf_type(pre@[i0]@[j0]));
                            } else {
                                assert(crate::types::wf_row(variants@[i0]));
                            }
                        }
                    }
                    k += 1;
                }
                let sum = crate::types::Type::new_sum(variants);
                out.push(sum);
                let mut rest = crate::types::clone_row(other_outputs);
                let ghost outg = out;
                out.append(&mut rest);
                proof {
                    assert forall|j: int| 0 <= j < out@.len() implies crate::types::wf_type(
                        #[trigger] out@[j],
                    ) by {
                        if j == 0 {
                            assert(out@[j] == outg@[0]);
                        }
                    }
                }
                Some((crate::types::clone_row(inputs), out))
            },
            OpType::Exit { cfg_outputs } => Some(
                (crate::types::clone_row(cfg_outputs), Vec::new()),
            ),
            _ => None,
        }
    }

    /// Check that within every sibling scope of a dataflow region the
    /// subgraph induced by value and control-flow edges is acyclic, by
    /// releasing nodes with no unprocessed same-scope predecessor until
    /// nothing changes.  Ordering edges are explicit sequencing, not data
    /// dependency, and are excluded; blocks inside a control-flow container
    /// may loop.
    fn check_dag(&self) -> (r: Result<(), ValidationError>)
        ensures
            r is Err ==> !dag_ok(*self),
            r matches Err(e) ==> e is NotADag,
    {
        let n_slots = self.node_slots();
        let mut done: Vec<bool> = Vec::new();
        let mut i: usize = 0;
        while i < n_slots
            invariant
                i <= n_slots,
                done@.len() == i,
            decreases n_slots - i,
        {
            done.push(false);
            i += 1;
        }
        loop
            invariant
                done@.len() == n_slots,
                n_slots == self.nodes@.len(),
            ensures
                done@.len() == n_slots,
                n_slots == self.nodes@.len(),
                forall|m: int|
                    0 <= m < n_slots && !done@[m] && live(*self, m) && !scope_exempt(*self, m)
                        ==> exists|e: int|
                        #[trigger] scope_pred(*self, e, m) && !done@[self.edges@[e].src as int],
            decreases count_undone(done@, n_slots as int),
        {
            let ghost pre_count = count_undone(done@, n_slots as int);
            let mut released: usize = 0;
            let mut n: usize = 0;
            while n < n_slots
                invariant
                    done@.len() == n_slots,
                    n_slots == self.nodes@.len(),
                    n <= n_slots,
                    released <= n,
                    count_undone(done@, n_slots as int) == pre_count - released,
                    released == 0 ==> forall|m: int|
                        0 <= m < n && !done@[m] && live(*self, m) && !scope_exempt(*self, m)
                            ==> exists|e: int|
                            #[trigger] scope_pred(*self, e, m) && !done@[self.edges@[e].src as int],
                decreases n_slots - n,
            {
                if !done[n] && self.get_optype(n).is_some() {
                    let in_cfg_scope = match self.get_parent(n) {
                        Some(p) => match self.get_optype(p) {
                            Some(op) => op.class() == OpClass::CfgContainer,
                            None => false,
                        },
                        None => false,
                    };
                    if in_cfg_scope {
                        proof {
                            assert(scope_exempt(*self, n as int));
                            lemma_count_undone_update(done@, n as int, n_slots as int);
                        }
                        done.set(n, true);
                        released += 1;
                    } else {
                        let mut blocked = false;
                        let ghost mut witness: int = 0;
                        let mut e: usize = 0;
                        while e < self.edges.len()
                            invariant
                                done@.len() == n_slots,
                                n_slots == self.nodes@.len(),
                                n < n_slots,
                                live(*self, n as int),
                                e <= self.edges@.len(),
                                blocked ==> scope_pred(*self, witness, n as int) && !done@[
                                    self.edges@[witness].src as int
                                ],
                                !blocked ==> forall|k: int|
                                    0 <= k < e && #[trigger] scope_pred(*self, k, n as int)
                                        ==> done@[self.edges@[k].src as int],
                            decreases self.edges@.len() - e,
                        {
                            let ed = self.edges[e];
                            if !ed.order && ed.tgt == n && ed.src < n_slots && !done[ed.src]
                                && ed.src != n {
                                let same_scope = match (
                                    self.get_parent(ed.src),
                                    self.get_parent(n),
                                ) {
                                    (Some(a), Some(b)) => a == b,
                                    (None, None) => true,
                                    _ => false,
                                };
                                if same_scope && self.get_optype(ed.src).is_some() {
                                    proof {
                                        assert(scope_pred(*self, e as int, n as int));
                                        witness = e as int;
                                    }
                                    blocked = true;
                                }
                            }
                            e += 1;
                        }
                        if !blocked {
                            proof {
                                lemma_count_undone_update(done@, n as int, n_slots as int);
                            }
                            done.set(n, true);
                            released += 1;
                        }
                    }
                }
                n += 1;
            }
            if released == 0 {
                break ;
            }
            proof {
                lemma_count_undone_nonneg(done@, n_slots as int);
            }
        }
        // At the fixed point, every unreleased live node of a dataflow scope
        // has an unreleased same-scope predecessor: the unreleased nodes
        // form a set with no minimal element, so none may remain.
        let ghost stuck = Set::new(
            |m: int| 0 <= m < n_slots && !done@[m] && live(*self, m) && !scope_exempt(*self, m),
        );
        let mut n: usize = 0;
        while n < n_slots
            invariant
                done@.len() == n_slots,
                n_slots == self.nodes@.len(),
                n <= n_slots,
                stuck == Set::new(
                    |m: int| 0 <= m < n_slots && !done@[m] && live(*self, m) && !scope_exempt(
                        *self,
                        m,
                    ),
                ),
                forall|m: int|
                    0 <= m < n_slots && !done@[m] && live(*self, m) && !scope_exempt(*self, m)
                        ==> exists|e: int|
                        #[trigger] scope_pred(*self, e, m) && !done@[self.edges@[e].src as int],
            decreases n_slots - n,
        {
            if !done[n] && self.get_optype(n).is_some() {
                let in_cfg_scope = match self.get_parent(n) {
                    Some(p) => match self.get_optype(p) {
                        Some(op) => op.class() == OpClass::CfgContainer,
                        None => false,
                    },
                    None => false,
                };
                if !in_cfg_scope {
                    proof {
                        assert(stuck.contains(n as int));
                        assert forall|m: int| stuck.contains(m) implies exists|e: int|
                            #[trigger] scope_pred(*self, e, m) && !done@[self.edges@[e].src
                                as int] by {}
                        lemma_stuck_set_breaks_dag(*self, stuck, n as int, done@);
                    }
                    let parent = match self.get_parent(n) {
                        Some(p) => p,
                        None => self.root,
                    };
                    return Err(ValidationError::NotADag { parent });
                }
            }
            n += 1;
        }
        Ok(())
    }

    /// Check the rules on edges whose endpoints are not siblings: the
    /// target's chain of ancestors must reach a sibling of the source
    /// without passing a function definition or declaration, and an explicit
    /// ordering edge from the source to that sibling must exist.
    fn check_nonlocal(&self) -> (r: Result<(), ValidationError>)
        ensures
            r matches Err(e) ==> (e is MissingOrderEdge || e is ValueEdgeIntoFunc),
            r matches Err(ValidationError::MissingOrderEdge { node }) ==> exists|e: int|
                0 <= e < self.edges@.len() && !(#[trigger] self.edges@[e]).order
                    && self.edges@[e].tgt == node,
            r matches Err(ValidationError::ValueEdgeIntoFunc { func }) ==> (live(
                *self,
                func as int,
            ) && (node_of(*self, func as int).nt.op is FuncDefn || node_of(
                *self,
                func as int,
            ).nt.op is FuncDecl)) || (exists|e: int|
                0 <= e < self.edges@.len() && !(#[trigger] self.edges@[e]).order
                    && self.edges@[e].tgt == func),
    {
        let n_slots = self.node_slots();
        let mut i: usize = 0;
        while i < self.edges.len()
            invariant
                n_slots == self.nodes@.len(),
                i <= self.edges@.len(),
            decreases self.edges@.len() - i,
        {
            let ed = self.edges[i];
            let mut skip = ed.order;
            if !skip {
                match self.get_optype(ed.src) {
                    Some(op) => {
                        if op.is_static_source() {
                            skip = true;
                        }
                    },
                    None => {
                        skip = true;
                    },
                }
            }
            if !skip {
                let src_parent = self.get_parent(ed.src);
                let tgt_parent = self.get_parent(ed.tgt);
                let local = match (src_parent, tgt_parent) {
                    (Some(a), Some(b)) => a == b,
                    (None, None) => true,
                    _ => false,
                };
                if !local {
                    let mut cur: usize = ed.tgt;
                    let mut steps: usize = 0;
                    let mut found: Option<usize> = None;
                    let mut hit_func = false;
                    while steps < n_slots && found.is_none() && !hit_func
                        invariant
                            n_slots == self.nodes@.len(),
                            steps <= n_slots,
                        decreases n_slots - steps,
                    {
                        let is_func = match self.get_optype(cur) {
                            Some(op) => matches!(
                                op,
                                OpType::FuncDefn { .. } | OpType::FuncDecl { .. }
                            ),
                            None => false,
                        };
                        if is_func {
                            hit_func = true;
                        } else {
                            match self.get_parent(cur) {
                                Some(p) => {
                                    let pp = self.get_parent(p);
                                    let same = match (src_parent, pp) {
                                        (Some(a), Some(b)) => a == b,
                                        (None, None) => true,
                                        _ => false,
                                    };
                                    let direct = match src_parent {
                                        Some(a) => a == p,
                                        None => false,
                                    };
                                    if same || direct {
                                        found = Some(if direct {
                                            cur
                                        } else {
                                            p
                                        });
                                    } else {
                                        cur = p;
                                    }
                                },
                                None => {
                                    hit_func = true;
                                },
                            }
                        }
                        steps += 1;
                    }
                    match found {
                        Some(anc) => {
                            // The edge may not land inside a function
                            // definition or declaration, however it is
                            // ordered.
                            let anc_is_func = match self.get_optype(anc) {
                                Some(op) => matches!(
                                    op,
                                    OpType::FuncDefn { .. } | OpType::FuncDecl { .. }
                                ),
                                None => false,
                            };
                            if anc_is_func {
                                return Err(ValidationError::ValueEdgeIntoFunc { func: anc });
                            }
                            let mut has_order = false;
                            let mut e: usize = 0;
                            while e < self.edges.len()
                                invariant
                                    e <= self.edges@.len(),
                                decreases self.edges@.len() - e,
                            {
                                let oe = self.edges[e];
                                if oe.order && oe.src == ed.src && oe.tgt == anc {
                                    has_order = true;
                                }
                                e += 1;
                            }
                            if !has_order {
                                return Err(ValidationError::MissingOrderEdge { node: ed.tgt });
                            }
                        },
                        None => {
                            if hit_func {
                                return Err(ValidationError::ValueEdgeIntoFunc { func: ed.tgt });
                            }
                            return Err(ValidationError::MissingOrderEdge { node: ed.tgt });
                        },
                    }
                }
            }
            i += 1;
        }
        Ok(())
    }

    /// Check that every declared value input port of every non-root node is
    /// fed by an edge.
    fn check_ports(&self) -> (r: Result<(), ValidationError>)
        requires
            wf_hugr(*self),
        ensures
            (r is Ok) == ports_ok(*self),
            r matches Err(e) ==> e is UnconnectedPort,
            r matches Err(ValidationError::UnconnectedPort { node, port, ty }) ==> live(
                *self,
                node as int,
            ) && node != self.root && port < node_of(*self, node as int).nt.op.in_row_spec().len()
                && !port_fed(*self, node as int, port as int) && crate::types::type_view(ty)
                == node_of(*self, node as int).nt.op.in_row_spec()[port as int],
    {
        let n_slots = self.node_slots();
        let mut n: usize = 0;
        while n < n_slots
            invariant
                wf_hugr(*self),
                n_slots == self.nodes@.len(),
                n <= n_slots,
                forall|m: int, p: int|
                    0 <= m < n && live(*self, m) && m != self.root && 0 <= p < node_of(
                        *self,
                        m,
                    ).nt.op.in_row_spec().len() ==> #[trigger] port_fed(*self, m, p),
            decreases n_slots - n,
        {
            if n != self.root {
                match self.get_optype(n) {
                    Some(op) => {
                        proof {
                            assert(wf_op(node_of(*self, n as int).nt.op));
                        }
                        let in_row = op.in_row();
                        proof {
                            crate::types::lemma_row_view(in_row);
                        }
                        let mut p: usize = 0;
                        while p < in_row.len()
                            invariant
                                wf_hugr(*self),
                                n_slots == self.nodes@.len(),
                                n < n_slots,
                                live(*self, n as int),
                                n != self.root,
                                crate::types::row_view(in_row) == node_of(
                                    *self,
                                    n as int,
                                ).nt.op.in_row_spec(),
                                in_row@.len() == node_of(
                                    *self,
                                    n as int,
                                ).nt.op.in_row_spec().len(),
                                p <= in_row@.len(),
                                forall|q: int| 0 <= q < p ==> #[trigger] port_fed(
                                    *self,
                                    n as int,
                                    q,
                                ),
                            decreases in_row@.len() - p,
                        {
                            let mut connected = false;
                            let mut e: usize = 0;
                            while e < self.edges.len()
                                invariant
                                    e <= self.edges@.len(),
                                    connected ==> port_fed(*self, n as int, p as int),
                                    !connected ==> forall|k: int|
                                        0 <= k < e ==> !(!(#[trigger] self.edges@[k]).order
                                            && self.edges@[k].tgt == n && self.edges@[k].tgt_port
                                            == p),
                                decreases self.edges@.len() - e,
                            {
                                let ed = self.edges[e];
                                if !ed.order && ed.tgt == n && ed.tgt_port == p {
                                    connected = true;
                                    proof {
                                        assert(0 <= e < self.edges@.len() && !self.edges@[
                                            e as int
                                        ].order && self.edges@[e as int].tgt == n && self.edges@[
                                            e as int
                                        ].tgt_port == p);
                                    }
                                }
                                e += 1;
                            }
                            if !connected {
                                proof {
                                    crate::types::lemma_row_view(in_row);
                                    assert(!port_fed(*self, n as int, p as int));
                                    assert(0 <= p < node_of(
                                        *self,
                                        n as int,
                                    ).nt.op.in_row_spec().len());
                                }
                                let ty = in_row[p].clone();
                                return Err(ValidationError::UnconnectedPort {
                                    node: n,
                                    port: p,
                                    ty,
                                });
                            }
                            p += 1;
                        }
                        proof {
                            crate::types::lemma_row_view(in_row);
                        }
                    },
                    None => {},
                }
            }
            n += 1;
        }
        Ok(())
    }

    /// Check every node's signature types against the registry and the
    /// parameters of the nearest enclosing polymorphic function: free or
    /// ill-kinded variables, unresolved custom types and stale bounds are
    /// reported, row variables may not stand as concrete port types, and a
    /// constant's type is checked against no declarations at all, so
    /// constants are always monomorphic.
    fn check_signatures(&self, reg: &ExtensionRegistry) -> (r: Result<(), ValidationError>)
        requires
            wf_hugr(*self),
        ensures
            (r is Ok) == sigs_ok(*self, *reg),
            r matches Err(e) ==> (e matches ValidationError::SignatureError { node, cause }
                && live(*self, node as int) && !node_sig_ok(*self, node as int, *reg)),
    {
        let n_slots = self.node_slots();
        let mut n: usize = 0;
        while n < n_slots
            invariant
                wf_hugr(*self),
                n_slots == self.nodes@.len(),
                n <= n_slots,
                forall|m: int| 0 <= m < n && live(*self, m) ==> #[trigger] node_sig_ok(
                    *self,
                    m,
                    *reg,
                ),
            decreases n_slots - n,
        {
            match self.get_optype(n) {
                Some(op) => {
                    proof {
                        assert(wf_op(node_of(*self, n as int).nt.op));
                    }
                    let decls = self.enclosing_params(n);
                    proof {
                        assert(crate::types::wf_params(decls));
                    }
                    match op {
                        OpType::FuncDefn { signature, .. } => {
                            proof {
                                assert(node_of(*self, n as int).nt.op == *op);
                                assert(node_of(*self, n as int).nt.op->FuncDefn_signature
                                    == *signature);
                            }
                            match signature.validate(reg, &decls) {
                                Ok(()) => {},
                                Err(cause) => {
                                    proof {
                                        assert(!crate::type_check::valid_poly(
                                            crate::types::poly_view(
                                                node_of(*self, n as int).nt.op->FuncDefn_signature,
                                            ),
                                            *reg,
                                            scope_params_spec(
                                                *self,
                                                n as int,
                                                self.nodes@.len() as int,
                                            ),
                                        ));
                                        assert(!node_sig_ok(*self, n as int, *reg));
                                    }
                                    return Err(ValidationError::SignatureError { node: n, cause });
                                },
                            }
                        },
                        OpType::FuncDecl { signature, .. } => {
                            proof {
                                assert(node_of(*self, n as int).nt.op == *op);
                                assert(node_of(*self, n as int).nt.op->FuncDecl_signature
                                    == *signature);
                            }
                            match signature.validate(reg, &decls) {
                                Ok(()) => {},
                                Err(cause) => {
                                    proof {
                                        assert(!crate::type_check::valid_poly(
                                            crate::types::poly_view(
                                                node_of(*self, n as int).nt.op->FuncDecl_signature,
                                            ),
                                            *reg,
                                            scope_params_spec(
                                                *self,
                                                n as int,
                                                self.nodes@.len() as int,
                                            ),
                                        ));
                                        assert(!node_sig_ok(*self, n as int, *reg));
                                    }
                                    return Err(ValidationError::SignatureError { node: n, cause });
                                },
                            }
                        },
                        OpType::Const(c) => {
                            let no_decls: Vec<crate::types::TypeParam> = Vec::new();
                            proof {
                                crate::types::lemma_params_view(no_decls);
                                assert(crate::types::params_view(no_decls)
                                    =~= Seq::<crate::types::TypeParamSpec>::empty());
                            }
                            match c.datatype.validate(false, reg, &no_decls) {
                                Ok(()) => {},
                                Err(cause) => {
                                    proof {
                                        assert(node_of(*self, n as int).nt.op->Const_0 == *c);
                                        assert(!crate::type_check::valid_type(
                                            crate::types::type_view(
                                                node_of(*self, n as int).nt.op->Const_0.datatype,
                                            ),
                                            false,
                                            *reg,
                                            Seq::empty(),
                                        ));
                                        assert(!node_sig_ok(*self, n as int, *reg));
                                    }
                                    return Err(ValidationError::SignatureError { node: n, cause });
                                },
                            }
                        },
                        _ => {
                            let in_row = op.in_row();
                            proof {
                                crate::types::lemma_row_view(in_row);
                                assert forall|i: int| 0 <= i < in_row@.len() implies #[trigger]
                                crate::types::type_view(in_row@[i]) == node_of(
                                    *self,
                                    n as int,
                                ).nt.op.in_row_spec()[i] by {}
                            }
                            match crate::type_check::validate_concrete_row(&in_row, reg, &decls) {
                                Ok(()) => {},
                                Err(cause) => {
                                    proof {
                                        let i = choose|i: int|
                                            0 <= i < in_row@.len()
                                                && !crate::type_check::valid_type(
                                                crate::types::type_view(in_row@[i]),
                                                false,
                                                *reg,
                                                crate::types::params_view(decls),
                                            );
                                        assert(!crate::type_check::valid_type(
                                            node_of(*self, n as int).nt.op.in_row_spec()[i],
                                            false,
                                            *reg,
                                            scope_params_spec(
                                                *self,
                                                n as int,
                                                self.nodes@.len() as int,
                                            ),
                                        ));
                                        assert(!node_sig_ok(*self, n as int, *reg));
                                    }
                                    return Err(ValidationError::SignatureError { node: n, cause });
                                },
                            }
                            let out_row = op.out_row();
                            proof {
                                crate::types::lemma_row_view(out_row);
                                assert forall|i: int| 0 <= i < out_row@.len() implies #[trigger]
                                crate::types::type_view(out_row@[i]) == node_of(
                                    *self,
                                    n as int,
                                ).nt.op.out_row_spec()[i] by {}
                            }
                            match crate::type_check::validate_concrete_row(&out_row, reg, &decls) {
                                Ok(()) => {},
                                Err(cause) => {
                                    proof {
                                        let i = choose|i: int|
                                            0 <= i < out_row@.len()
                                                && !crate::type_check::valid_type(
                                                crate::types::type_view(out_row@[i]),
                                                false,
                                                *reg,
                                                crate::types::params_view(decls),
                                            );
                                        assert(!crate::type_check::valid_type(
                                            node_of(*self, n as int).nt.op.out_row_spec()[i],
                                            false,
                                            *reg,
                                            scope_params_spec(
                                                *self,
                                                n as int,
                                                self.nodes@.len() as int,
                                            ),
                                        ));
                                        assert(!node_sig_ok(*self, n as int, *reg));
                                    }
                                    return Err(ValidationError::SignatureError { node: n, cause });
                                },
                            }
                            proof {
                                assert(node_sig_ok(*self, n as int, *reg));
                            }
                        },
                    }
                },
                None => {},
            }
            n += 1;
        }
        Ok(())
    }

    /// The parameters declared by the nearest enclosing function definition,
    /// walking up the hierarchy; empty when there is none (or the chain is
    /// broken).
    fn enclosing_params(&self, node: Node) -> (r: Vec<crate::types::TypeParam>)
        requires
            wf_hugr(*self),
            live(*self, node as int),
        ensures
            crate::types::wf_params(r),
            crate::types::params_view(r) == scope_params_spec(
                *self,
                node as int,
                self.nodes@.len() as int,
            ),
    {
        let n_slots = self.node_slots();
        let mut cur = node;
        let mut steps: usize = 0;
        while steps < n_slots
            invariant
                wf_hugr(*self),
                n_slots == self.nodes@.len(),
                steps <= n_slots,
                live(*self, cur as int),
                scope_params_spec(*self, node as int, n_slots as int) == scope_params_spec(
                    *self,
                    cur as int,
                    n_slots - steps,
                ),
            decreases n_slots - steps,
        {
            match self.get_parent(cur) {
                Some(p) => {
                    match self.get_optype(p) {
                        Some(OpType::FuncDefn { signature, .. }) => {
                            proof {
                                assert(wf_op(node_of(*self, p as int).nt.op));
                            }
                            let ps = crate::types::clone_params(&signature.params);
                            return ps;
                        },
                        Some(_) => {
                            cur = p;
                        },
                        None => {
                            let empty: Vec<crate::types::TypeParam> = Vec::new();
                            proof {
                                crate::types::lemma_params_view(empty);
                                assert(crate::types::params_view(empty)
                                    =~= Seq::<crate::types::TypeParamSpec>::empty());
                            }
                            return empty;
                        },
                    }
                },
                None => {
                    let empty: Vec<crate::types::TypeParam> = Vec::new();
                    proof {
                        crate::types::lemma_params_view(empty);
                        assert(crate::types::params_view(empty)
                            =~= Seq::<crate::types::TypeParamSpec>::empty());
                    }
                    return empty;
                },
            }
            steps += 1;
        }
        let empty: Vec<crate::types::TypeParam> = Vec::new();
        proof {
            crate::types::lemma_params_view(empty);
            assert(crate::types::params_view(empty)
                =~= Seq::<crate::types::TypeParamSpec>::empty());
        }
        empty
    }

    /// Check the extension deltas at every container boundary: the input
    /// boundary carries the container's own input requirements, and the
    /// output boundary carries them plus the container's declared delta.
    fn check_parent_io_extensions(&self) -> (r: Result<(), ValidationError>)
        requires
            wf_hugr(*self),
        ensures
            (r is Ok) == parent_io_ok(*self),
            r matches Err(e) ==> e is ParentIOExtensionMismatch,
    {
        let n_slots = self.node_slots();
        let mut n: usize = 0;
        while n < n_slots
            invariant
                wf_hugr(*self),
                n_slots == self.nodes@.len(),
                n <= n_slots,
                forall|m: int|
                    0 <= m < n && live(*self, m) && (#[trigger] node_of(
                        *self,
                        m,
                    ).nt.op).class_spec() == OpClass::DataflowContainer && crate::hugr::children_of(
                        *self,
                        m,
                    ).len() >= 2 ==> {
                        let cs = crate::hugr::children_of(*self, m);
                        &&& inset(*self, cs[0]) == inset(*self, m)
                        &&& inset(*self, cs[1]) == inset(*self, m).union(
                            node_of(*self, m).nt.op.delta_spec(),
                        )
                    },
            decreases n_slots - n,
        {
            let is_df = match self.get_optype(n) {
                Some(op) => op.class() == OpClass::DataflowContainer,
                None => false,
            };
            if is_df {
                let cs = self.children(n);
                if cs.len() >= 2 {
                    let parent_in = match &self.nodes[n] {
                        Some(d) => match &d.nt.input_extensions {
                            Some(es) => es.clone(),
                            None => ExtensionSet::new(),
                        },
                        None => ExtensionSet::new(),
                    };
                    let delta = match self.get_optype(n) {
                        Some(op) => op.delta(),
                        None => ExtensionSet::new(),
                    };
                    let parent_out = parent_in.union(&delta);
                    let parent_in2 = match &self.nodes[n] {
                        Some(d) => match &d.nt.input_extensions {
                            Some(es) => es.clone(),
                            None => ExtensionSet::new(),
                        },
                        None => ExtensionSet::new(),
                    };
                    let in_child = cs[0];
                    let out_child = cs[1];
                    let in_set = match &self.nodes[in_child] {
                        Some(d) => match &d.nt.input_extensions {
                            Some(es) => es.clone(),
                            None => ExtensionSet::new(),
                        },
                        None => ExtensionSet::new(),
                    };
                    let out_set = match &self.nodes[out_child] {
                        Some(d) => match &d.nt.input_extensions {
                            Some(es) => es.clone(),
                            None => ExtensionSet::new(),
                        },
                        None => ExtensionSet::new(),
                    };
                    proof {
                        assert(in_set@ == inset(*self, crate::hugr::children_of(*self, n as int)[0]));
                        assert(out_set@ == inset(*self, crate::hugr::children_of(*self, n as int)[1]));
                        assert(parent_in2@ == inset(*self, n as int));
                        assert(parent_out@ == inset(*self, n as int).union(
                            node_of(*self, n as int).nt.op.delta_spec(),
                        ));
                    }
                    if !in_set.set_eq(&parent_in2) {
                        return Err(ValidationError::ParentIOExtensionMismatch {
                            parent: n,
                            child: in_child,
                        });
                    }
                    if !out_set.set_eq(&parent_out) {
                        return Err(ValidationError::ParentIOExtensionMismatch {
                            parent: n,
                            child: out_child,
                        });
                    }
                    proof {
                        assert(in_set@ =~= parent_in2@);
                        assert(out_set@ =~= parent_out@);
                    }
                }
            }
            n += 1;
        }
        Ok(())
    }

    /// Check the validity of the whole graph against a registry: global
    /// invariants first, then children shapes, ports and edges, the cycle
    /// check, the rules on nesting-crossing edges, extension requirements,
    /// and every node's signature.  Fail-fast: the first violation found is
    /// returned, and the graph is never repaired.
    ///
    /// Acceptance guarantees every property listed below; every rejection
    /// names a violation of the kind its error variant describes.  The
    /// children-shape rules beyond [`containers_ok`], the acyclicity of an
    /// accepted graph, and the rules on nesting-crossing edges are enforced
    /// by the checks but not yet captured by an acceptance property here.
    pub fn validate(&self, registry: &ExtensionRegistry) -> (r: Result<(), ValidationError>)
        requires
            wf_hugr(*self),
        ensures
            (r is Ok) ==> roots_ok(*self),
            (r is Ok) ==> containers_ok(*self),
            (r is Ok) ==> edges_ok(*self),
            (r is Ok) ==> exts_ok(*self),
            (r is Ok) ==> ports_ok(*self),
            (r is Ok) ==> parent_io_ok(*self),
            (r is Ok) ==> sigs_ok(*self, *registry),
            r matches Err(e) ==> !(e is ExtensionsNotInferred),
            r matches Err(ValidationError::NoParent { node }) ==> live(*self, node as int)
                && node_of(*self, node as int).parent is None && node != self.root,
            r matches Err(ValidationError::RootNotRoot { node }) ==> node == self.root && !(
            live(*self, self.root as int) && node_of(*self, self.root as int).parent is None),
            r matches Err(e) ==> ((e is EdgeMismatch || e is CFGEdgeSignatureMismatch)
                ==> !edges_ok(*self)),
            r matches Err(e) ==> (e is UnconnectedPort ==> !ports_ok(*self)),
            r matches Err(e) ==> ((e is TgtExceedsSrcExtensionsAtPort
                || e is SrcExceedsTgtExtensionsAtPort) ==> !exts_ok(*self)),
            r matches Err(e) ==> (e is NotADag ==> !dag_ok(*self)),
            r matches Err(e) ==> (e is ParentIOExtensionMismatch ==> !parent_io_ok(*self)),
            r matches Err(ValidationError::SignatureError { node, cause }) ==> live(
                *self,
                node as int,
            ) && !node_sig_ok(*self, node as int, *registry),
            r matches Err(ValidationError::ContainerWithoutChildren { node }) ==> live(
                *self,
                node as int,
            ) && crate::hugr::children_of(*self, node as int).len() == 0 && (node_of(
                *self,
                node as int,
            ).nt.op.class_spec() == OpClass::DataflowContainer || node_of(
                *self,
                node as int,
            ).nt.op.class_spec() == OpClass::CfgContainer),
            r matches Err(ValidationError::NonContainerWithChildren { node }) ==> live(
                *self,
                node as int,
            ) && node_of(*self, node as int).nt.op.class_spec() == OpClass::Leaf
                && crate::hugr::children_of(*self, node as int).len() > 0,
            r matches Err(ValidationError::InternalExitChildren { parent, child }) ==>
                crate::hugr::is_child(*self, parent as int, child as int) && node_of(
                *self,
                child as int,
            ).nt.op is Exit,
            r matches Err(ValidationError::InternalIOChildren { parent, child }) ==>
                crate::hugr::is_child(*self, parent as int, child as int) && (node_of(
                *self,
                child as int,
            ).nt.op is Input || node_of(*self, child as int).nt.op is Output),
            r matches Err(ValidationError::IOSignatureMismatch { parent, child }) ==>
                crate::hugr::is_child(*self, parent as int, child as int),
            r matches Err(ValidationError::InvalidParentOp { parent, child }) ==>
                crate::hugr::is_child(*self, parent as int, child as int),
            r matches Err(ValidationError::MissingOrderEdge { node }) ==> exists|e: int|
                0 <= e < self.edges@.len() && !(#[trigger] self.edges@[e]).order
                    && self.edges@[e].tgt == node,
            r matches Err(ValidationError::InvalidInitialChild { parent }) ==> live(
                *self,
                parent as int,
            ),
            r matches Err(ValidationError::ValueEdgeIntoFunc { func }) ==> (live(
                *self,
                func as int,
            ) && (node_of(*self, func as int).nt.op is FuncDefn || node_of(
                *self,
                func as int,
            ).nt.op is FuncDecl)) || (exists|e: int|
                0 <= e < self.edges@.len() && !(#[trigger] self.edges@[e]).order
                    && self.edges@[e].tgt == func),
    {
        self.check_roots()?;
        self.check_children()?;
        self.check_edges()?;
        self.check_ports()?;
        self.check_dag()?;
        self.check_nonlocal()?;
        self.check_extensions()?;
        self.check_parent_io_extensions()?;
        self.check_signatures(registry)?;
        Ok(())
    }

    /// Run extension inference to completion, bake the results into the
    /// graph, then run the full validation pass.
    pub fn update_validate(&mut self, registry: &ExtensionRegistry) -> (r: Result<
        (),
        ValidationError,
    >)
        requires
            wf_hugr(*old(self)),
        ensures
            wf_hugr(*final(self)),
            (r is Ok) ==> roots_ok(*final(self)) && containers_ok(*final(self)) && edges_ok(
                *final(self),
            ) && exts_ok(*final(self)) && ports_ok(*final(self)) && parent_io_ok(*final(self))
                && sigs_ok(*final(self), *registry),
            (r is Ok) ==> forall|n: int|
                live(*old(self), n) && (#[trigger] node_of(
                    *old(self),
                    n,
                ).nt.input_extensions) is None ==> inset(*final(self), n)
                    == crate::infer::recomputed_spec(*final(self), n),
            r matches Err(ValidationError::ExtensionsNotInferred { node }) ==> live(
                *final(self),
                node as int,
            ) && inset(*final(self), node as int) != crate::infer::recomputed_spec(
                *final(self),
                node as int,
            ),
            r matches Err(ValidationError::NoParent { node }) ==> live(*final(self), node as int)
                && node_of(*final(self), node as int).parent is None && node != final(self).root,
            r matches Err(ValidationError::RootNotRoot { node }) ==> node == final(self).root
                && !(live(*final(self), final(self).root as int) && node_of(
                *final(self),
                final(self).root as int,
            ).parent is None),
            r matches Err(e) ==> ((e is EdgeMismatch || e is CFGEdgeSignatureMismatch)
                ==> !edges_ok(*final(self))),
            r matches Err(e) ==> (e is UnconnectedPort ==> !ports_ok(*final(self))),
            r matches Err(e) ==> ((e is TgtExceedsSrcExtensionsAtPort
                || e is SrcExceedsTgtExtensionsAtPort) ==> !exts_ok(*final(self))),
            r matches Err(e) ==> (e is NotADag ==> !dag_ok(*final(self))),
            r matches Err(e) ==> (e is ParentIOExtensionMismatch ==> !parent_io_ok(
                *final(self),
            )),
            r matches Err(ValidationError::SignatureError { node, cause }) ==> live(
                *final(self),
                node as int,
            ) && !node_sig_ok(*final(self), node as int, *registry),
            r matches Err(ValidationError::ContainerWithoutChildren { node }) ==> live(
                *final(self),
                node as int,
            ) && crate::hugr::children_of(*final(self), node as int).len() == 0,
            r matches Err(ValidationError::NonContainerWithChildren { node }) ==> live(
                *final(self),
                node as int,
            ) && node_of(*final(self), node as int).nt.op.class_spec() == OpClass::Leaf
                && crate::hugr::children_of(*final(self), node as int).len() > 0,
            r matches Err(ValidationError::InternalExitChildren { parent, child }) ==>
                crate::hugr::is_child(*final(self), parent as int, child as int),
            r matches Err(ValidationError::InternalIOChildren { parent, child }) ==>
                crate::hugr::is_child(*final(self), parent as int, child as int),
            r matches Err(ValidationError::IOSignatureMismatch { parent, child }) ==>
                crate::hugr::is_child(*final(self), parent as int, child as int),
            r matches Err(ValidationError::InvalidParentOp { parent, child }) ==>
                crate::hugr::is_child(*final(self), parent as int, child as int),
            r matches Err(ValidationError::InvalidInitialChild { parent }) ==> live(
                *final(self),
                parent as int,
            ),
            r matches Err(ValidationError::MissingOrderEdge { node }) ==> exists|e: int|
                0 <= e < final(self).edges@.len() && !(#[trigger] final(self).edges@[e]).order
                    && final(self).edges@[e].tgt == node,
            r matches Err(ValidationError::ValueEdgeIntoFunc { func }) ==> (live(
                *final(self),
                func as int,
            ) && (node_of(*final(self), func as int).nt.op is FuncDefn || node_of(
                *final(self),
                func as int,
            ).nt.op is FuncDecl)) || (exists|e: int|
                0 <= e < final(self).edges@.len() && !(#[trigger] final(self).edges@[e]).order
                    && final(self).edges@[e].tgt == func),
    {
        match self.infer_extensions() {
            Ok(()) => {},
            Err(e) => {
                return Err(e);
            },
        }
        self.validate(registry)
    }
}

} // verus!

