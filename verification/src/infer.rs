//! Extension-requirement inference: compute, for nodes whose requirement
//! sets are not explicitly annotated, an assignment consistent with the
//! edges and boundaries around them, and bake it onto the graph.
//!
//! The solver is an explicit worklist over an otherwise-immutable snapshot:
//! each round recomputes every unresolved node's set from its neighbours,
//! and the rounds are bounded by the number of nodes, enough for the
//! requirements to flow along any simple path.  A final pass verifies that
//! the assignment is a fixed point of the propagation step; inference fails
//! when it is not, so a contradictory or unresolvable neighbourhood is
//! reported rather than silently frozen.  Annotations already present are
//! never touched, and inference runs as a whole phase strictly before any
//! dependent validation pass.

use vstd::prelude::*;
use crate::extension_set::{ExtItemSpec, ExtensionSet};
use crate::hugr::{live, node_of, wf_hugr, Hugr, NodeData, NodeType};
use crate::ops::OpType;
use crate::validate::{inset, outset, ValidationError};

verus! {

/// An edge whose source's requirements flow into the given node: not an
/// ordering edge, not out of a static source, targeting the node.
pub open spec fn feeding_edge(h: Hugr, e: int, n: int) -> bool {
    &&& 0 <= e < h.edges@.len()
    &&& !h.edges@[e].order
    &&& h.edges@[e].tgt == n
    &&& live(h, h.edges@[e].src as int)
    &&& !node_of(h, h.edges@[e].src as int).nt.op.static_source_spec()
}

/// The union, over the first `k` edges that feed the node, of what their
/// sources' outputs carry.
pub open spec fn infer_union(h: Hugr, n: int, k: int) -> Set<ExtItemSpec>
    decreases k,
{
    if k <= 0 {
        Set::empty()
    } else if feeding_edge(h, k - 1, n) {
        infer_union(h, n, k - 1).union(outset(h, h.edges@[k - 1].src as int))
    } else {
        infer_union(h, n, k - 1)
    }
}

/// The requirements present at a node's parent's inputs, empty when it has
/// no live parent.
pub open spec fn parent_inset(h: Hugr, n: int) -> Set<ExtItemSpec> {
    match node_of(h, n).parent {
        Some(p) => if live(h, p as int) {
            inset(h, p as int)
        } else {
            Set::empty()
        },
        None => Set::empty(),
    }
}

/// The set the propagation step assigns a node: an input boundary carries
/// its parent's set; a node with incoming edges carries the union of what
/// their sources' outputs carry; any other node carries its parent's set.
pub open spec fn recomputed_spec(h: Hugr, n: int) -> Set<ExtItemSpec> {
    if node_of(h, n).nt.op is Input {
        parent_inset(h, n)
    } else if exists|e: int| feeding_edge(h, e, n) {
        infer_union(h, n, h.edges@.len() as int)
    } else {
        parent_inset(h, n)
    }
}

impl Hugr {
    /// One node's recomputed requirement set: the union over its incoming
    /// value edges of what their sources' outputs carry, or its parent's
    /// set when it has no incoming edge or is an input boundary.
    fn recompute_set(&self, n: usize) -> (r: ExtensionSet)
        requires
            live(*self, n as int),
        ensures
            r@ == recomputed_spec(*self, n as int),
    {
        let is_input = match self.get_optype(n) {
            Some(op) => matches!(op, OpType::Input { .. }),
            None => false,
        };
        let parent_set = match self.get_parent(n) {
            Some(p) => {
                if p < self.nodes.len() {
                    match &self.nodes[p] {
                        Some(d) => match &d.nt.input_extensions {
                            Some(es) => es.clone(),
                            None => ExtensionSet::new(),
                        },
                        None => ExtensionSet::new(),
                    }
                } else {
                    ExtensionSet::new()
                }
            },
            None => ExtensionSet::new(),
        };
        proof {
            assert(parent_set@ == parent_inset(*self, n as int));
        }
        if is_input {
            return parent_set;
        }
        let mut acc = ExtensionSet::new();
        let mut any = false;
        let mut e: usize = 0;
        while e < self.edges.len()
            invariant
                live(*self, n as int),
                e <= self.edges@.len(),
                acc@ == infer_union(*self, n as int, e as int),
                any == exists|k: int| 0 <= k < e && feeding_edge(*self, k, n as int),
            decreases self.edges@.len() - e,
        {
            let ed = self.edges[e];
            if !ed.order && ed.tgt == n && ed.src < self.nodes.len() {
                let src_static = match self.get_optype(ed.src) {
                    Some(op) => op.is_static_source(),
                    None => true,
                };
                if !src_static {
                    proof {
                        assert(feeding_edge(*self, e as int, n as int));
                    }
                    let src_in = match &self.nodes[ed.src] {
                        Some(d) => match &d.nt.input_extensions {
                            Some(es) => es.clone(),
                            None => ExtensionSet::new(),
                        },
                        None => ExtensionSet::new(),
                    };
                    let src_delta = match self.get_optype(ed.src) {
                        Some(op) => op.delta(),
                        None => ExtensionSet::new(),
                    };
                    proof {
                        assert(src_in@ == inset(*self, ed.src as int));
                        assert(src_delta@ == node_of(*self, ed.src as int).nt.op.delta_spec());
                    }
                    acc = acc.union(&src_in).union(&src_delta);
                    any = true;
                    proof {
                        assert(acc@ =~= infer_union(*self, n as int, e + 1));
                    }
                } else {
                    proof {
                        assert(!feeding_edge(*self, e as int, n as int));
                    }
                }
            } else {
                proof {
                    assert(!feeding_edge(*self, e as int, n as int));
                }
            }
            e += 1;
        }
        if any {
            acc
        } else {
            parent_set
        }
    }

    /// Compute requirement sets for every node whose annotation is missing,
    /// and write them onto the graph.  Annotations already present are never
    /// changed, nor is any operation, parent or edge; afterwards every live
    /// node carries an annotation.  On success the assignment is a fixed
    /// point of the propagation step: every node left open carries exactly
    /// its recomputed set.  Failure names a node whose requirements did not
    /// stabilize within the bound.
    pub fn infer_extensions(&mut self) -> (r: Result<(), ValidationError>)
        ensures
            final(self).nodes@.len() == old(self).nodes@.len(),
            final(self).root == old(self).root,
            final(self).edges == old(self).edges,
            forall|n: int| live(*old(self), n) ==> live(*final(self), n) && node_of(
                *final(self),
                n,
            ).nt.op == node_of(*old(self), n).nt.op && node_of(*final(self), n).parent == node_of(
                *old(self),
                n,
            ).parent,
            forall|n: int| !live(*old(self), n) ==> final(self).nodes@[n] == old(self).nodes@[n]
                || !(0 <= n < old(self).nodes@.len()),
            forall|n: int| live(*old(self), n) && (#[trigger] node_of(
                *old(self),
                n,
            ).nt.input_extensions) is Some ==> node_of(*final(self), n).nt.input_extensions
                == node_of(*old(self), n).nt.input_extensions,
            forall|n: int| live(*old(self), n) ==> (#[trigger] node_of(
                *final(self),
                n,
            ).nt.input_extensions) is Some,
            wf_hugr(*old(self)) ==> wf_hugr(*final(self)),
            r is Ok ==> forall|n: int|
                live(*old(self), n) && (#[trigger] node_of(
                    *old(self),
                    n,
                ).nt.input_extensions) is None ==> inset(*final(self), n) == recomputed_spec(
                    *final(self),
                    n,
                ),
            r matches Err(e) ==> e is ExtensionsNotInferred,
            r matches Err(ValidationError::ExtensionsNotInferred { node }) ==> live(
                *final(self),
                node as int,
            ) && inset(*final(self), node as int) != recomputed_spec(*final(self), node as int),
    {
        let ghost orig = *self;
        let n_slots = self.node_slots();
        let mut resolved: Vec<bool> = Vec::new();
        let mut i: usize = 0;
        while i < n_slots
            invariant
                *self == orig,
                n_slots == self.nodes@.len(),
                i <= n_slots,
                resolved@.len() == i,
                forall|n: int| 0 <= n < i ==> resolved@[n] == (live(orig, n) && node_of(
                    orig,
                    n,
                ).nt.input_extensions is Some),
            decreases n_slots - i,
        {
            let is_resolved = match self.get_optype(i) {
                Some(_) => match &self.nodes[i] {
                    Some(d) => d.nt.input_extensions.is_some(),
                    None => false,
                },
                None => false,
            };
            resolved.push(is_resolved);
            i += 1;
        }
        let mut round: usize = 0;
        while round < n_slots
            invariant
                unchanged_but_annotations(orig, *self),
                n_slots == self.nodes@.len(),
                resolved@.len() == n_slots,
                forall|n: int| 0 <= n < n_slots ==> resolved@[n] == (live(orig, n) && (
                #[trigger] node_of(orig, n).nt.input_extensions) is Some),
                forall|n: int| live(orig, n) && (#[trigger] node_of(
                    orig,
                    n,
                ).nt.input_extensions) is Some ==> node_of(*self, n).nt.input_extensions
                    == node_of(orig, n).nt.input_extensions,
                round > 0 ==> forall|n: int| live(orig, n) ==> (#[trigger] node_of(
                    *self,
                    n,
                ).nt.input_extensions) is Some,
            decreases n_slots - round,
        {
            let mut n: usize = 0;
            while n < n_slots
                invariant
                    unchanged_but_annotations(orig, *self),
                    n_slots == self.nodes@.len(),
                    resolved@.len() == n_slots,
                    n <= n_slots,
                    forall|m: int| 0 <= m < n_slots ==> resolved@[m] == (live(orig, m) && (
                    #[trigger] node_of(orig, m).nt.input_extensions) is Some),
                    forall|m: int| live(orig, m) && (#[trigger] node_of(
                        orig,
                        m,
                    ).nt.input_extensions) is Some ==> node_of(*self, m).nt.input_extensions
                        == node_of(orig, m).nt.input_extensions,
                    forall|m: int| 0 <= m < n && live(orig, m) ==> (#[trigger] node_of(
                        *self,
                        m,
                    ).nt.input_extensions) is Some,
                    round > 0 ==> forall|m: int| live(orig, m) ==> (#[trigger] node_of(
                        *self,
                        m,
                    ).nt.input_extensions) is Some,
                decreases n_slots - n,
            {
                if !resolved[n] {
                    let alive = self.get_optype(n).is_some();
                    if alive {
                        let new_set = self.recompute_set(n);
                        let ghost pre = *self;
                        self.write_annotation(n, new_set);
                        proof {
                            assert(live(pre, n as int));
                            assert forall|m: int| live(orig, m) implies live(*self, m) && (
                            #[trigger] node_of(*self, m)).nt.op == node_of(orig, m).nt.op
                                && node_of(*self, m).parent == node_of(orig, m).parent by {
                                if m != n {
                                    assert(node_of(*self, m) == node_of(pre, m));
                                }
                            }
                            assert forall|m: int|
                                live(orig, m) && (#[trigger] node_of(
                                    orig,
                                    m,
                                ).nt.input_extensions) is Some implies node_of(
                                *self,
                                m,
                            ).nt.input_extensions == node_of(orig, m).nt.input_extensions by {
                                if m != n {
                                    assert(node_of(*self, m) == node_of(pre, m));
                                } else {
                                    assert(!resolved@[m]);
                                }
                            }
                            assert forall|m: int|
                                live(orig, m) && (node_of(
                                    pre,
                                    m,
                                ).nt.input_extensions is Some || m == n) implies (
                            #[trigger] node_of(*self, m).nt.input_extensions) is Some by {
                                if m != n {
                                    assert(node_of(*self, m) == node_of(pre, m));
                                }
                            }
                        }
                    } else {
                        proof {
                            assert(!live(orig, n as int));
                        }
                    }
                } else {
                    proof {
                        if live(orig, n as int) {
                            assert(node_of(*self, n as int).nt.input_extensions == node_of(
                                orig,
                                n as int,
                            ).nt.input_extensions);
                        }
                    }
                }
                n += 1;
            }
            round += 1;
        }
        proof {
            if n_slots == 0 {
                assert forall|n: int| live(orig, n) implies (#[trigger] node_of(
                    *self,
                    n,
                ).nt.input_extensions) is Some by {}
            }
        }
        // Verify that the assignment is a fixed point of the propagation
        // step: any node still disagreeing with its recomputed set could
        // not be resolved.
        let ghost fin = *self;
        let mut n: usize = 0;
        while n < n_slots
            invariant
                orig == *old(self),
                *self == fin,
                unchanged_but_annotations(orig, *self),
                n_slots == self.nodes@.len(),
                resolved@.len() == n_slots,
                n <= n_slots,
                forall|m: int| 0 <= m < n_slots ==> resolved@[m] == (live(orig, m) && (
                #[trigger] node_of(orig, m).nt.input_extensions) is Some),
                forall|m: int| live(orig, m) && (#[trigger] node_of(
                    orig,
                    m,
                ).nt.input_extensions) is Some ==> node_of(*self, m).nt.input_extensions
                    == node_of(orig, m).nt.input_extensions,
                forall|m: int| live(orig, m) ==> (#[trigger] node_of(
                    *self,
                    m,
                ).nt.input_extensions) is Some,
                forall|m: int|
                    0 <= m < n && live(orig, m) && !(#[trigger] node_of(
                        orig,
                        m,
                    ).nt.input_extensions is Some) ==> inset(*self, m) == recomputed_spec(
                        *self,
                        m,
                    ),
            decreases n_slots - n,
        {
            if !resolved[n] {
                let alive = self.get_optype(n).is_some();
                if alive {
                    let want = self.recompute_set(n);
                    let have = match &self.nodes[n] {
                        Some(d) => match &d.nt.input_extensions {
                            Some(es) => es.clone(),
                            None => ExtensionSet::new(),
                        },
                        None => ExtensionSet::new(),
                    };
                    proof {
                        assert(have@ == inset(*self, n as int));
                    }
                    if !have.set_eq(&want) {
                        return Err(ValidationError::ExtensionsNotInferred { node: n });
                    }
                }
            }
            n += 1;
        }
        Ok(())
    }

    /// Overwrite one live node's annotation, leaving everything else alone.
    fn write_annotation(&mut self, n: usize, es: ExtensionSet)
        ensures
            final(self).root == old(self).root,
            final(self).edges == old(self).edges,
            final(self).nodes@.len() == old(self).nodes@.len(),
            live(*old(self), n as int) ==> final(self).nodes@ == old(self).nodes@.update(
                n as int,
                Some(
                    NodeData {
                        nt: NodeType {
                            op: node_of(*old(self), n as int).nt.op,
                            input_extensions: Some(es),
                        },
                        parent: node_of(*old(self), n as int).parent,
                    },
                ),
            ),
            !live(*old(self), n as int) ==> final(self).nodes@ == old(self).nodes@,
    {
        if n < self.nodes.len() {
            let nd = self.nodes[n].take();
            match nd {
                Some(d) => {
                    self.nodes.set(
                        n,
                        Some(
                            NodeData {
                                nt: NodeType { op: d.nt.op, input_extensions: Some(es) },
                                parent: d.parent,
                            },
                        ),
                    );
                    proof {
                        assert(self.nodes@ =~= old(self).nodes@.update(
                            n as int,
                            Some(
                                NodeData {
                                    nt: NodeType {
                                        op: node_of(*old(self), n as int).nt.op,
                                        input_extensions: Some(
                                            node_of(*self, n as int).nt.input_extensions->Some_0,
                                        ),
                                    },
                                    parent: node_of(*old(self), n as int).parent,
                                },
                            ),
                        ));
                    }
                },
                None => {
                    self.nodes.set(n, None);
                    proof {
                        assert(self.nodes@ =~= old(self).nodes@);
                    }
                },
            }
        }
    }
}

/// Everything but the annotations is the same in the two graphs, and no
/// annotation was removed.
pub open spec fn unchanged_but_annotations(a: Hugr, b: Hugr) -> bool {
    &&& b.nodes.len() == a.nodes.len()
    &&& b.root == a.root
    &&& b.edges == a.edges
    &&& forall|n: int| live(a, n) ==> live(b, n) && (#[trigger] node_of(b, n)).nt.op == node_of(
        a,
        n,
    ).nt.op && node_of(b, n).parent == node_of(a, n).parent
    &&& forall|n: int| !live(a, n) && 0 <= n < a.nodes@.len() ==> (#[trigger] b.nodes@[n]) == a.nodes@[n]
    &&& forall|n: int| live(a, n) ==> ((#[trigger] node_of(a, n).nt.input_extensions) is Some
        ==> node_of(b, n).nt.input_extensions is Some)
}

} // verus!
