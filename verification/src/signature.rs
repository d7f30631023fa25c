//! Concrete signatures: the ports a node offers, and the function type that
//! describes them.

use vstd::prelude::*;
use crate::extension_set::{ExtItemSpec, ExtensionSet};
use crate::types::{
    functype_view, lemma_row_view, row_view, type_view, wf_functype, wf_row, wf_type, FuncTypeSpec,
    FunctionType, PolyFuncType, Type, TypeRow, TypeSpec,
};

verus! {

/// The direction of a port: into or out of a node.
#[derive(Copy, Clone, Debug, PartialEq, Eq, Hash, Structural)]
pub enum Direction {
    /// An input port.
    Incoming,
    /// An output port.
    Outgoing,
}

/// A connection point on a node: a direction and an offset among the node's
/// ports of that direction.
#[derive(Copy, Clone, Debug, PartialEq, Eq, Hash, Structural)]
pub struct Port {
    /// Whether the port takes or produces values.
    pub direction: Direction,
    /// The position among the node's ports of this direction.
    pub offset: usize,
}

impl Port {
    /// Make a port from a direction and an offset.
    pub fn new(direction: Direction, offset: usize) -> (r: Port)
        ensures
            r.direction == direction,
            r.offset == offset,
    {
        Port { direction, offset }
    }
}

impl FunctionType {
    /// Create a new signature with the given inputs and outputs and no added
    /// extension requirements.
    pub fn new(input: TypeRow, output: TypeRow) -> (r: FunctionType)
        ensures
            functype_view(r) == (FuncTypeSpec {
                input: row_view(input),
                output: row_view(output),
                exts: Set::<ExtItemSpec>::empty(),
            }),
            wf_row(input) && wf_row(output) ==> wf_functype(r),
    {
        let r = FunctionType { input, output, extension_reqs: ExtensionSet::new() };
        proof {
            assert(functype_view(r) =~= FuncTypeSpec {
                input: row_view(r.input),
                output: row_view(r.output),
                exts: Set::<ExtItemSpec>::empty(),
            });
        }
        r
    }

    /// Create a new signature with the same input and output types: the
    /// signature of an endomorphic function.
    pub fn new_endo(row: TypeRow) -> (r: FunctionType)
        ensures
            functype_view(r) == (FuncTypeSpec {
                input: row_view(row),
                output: row_view(row),
                exts: Set::<ExtItemSpec>::empty(),
            }),
            wf_row(row) ==> wf_functype(r),
    {
        let copy = crate::types::clone_row(&row);
        FunctionType::new(copy, row)
    }

    /// Builder method: add extension requirements to a signature.
    pub fn with_extension_delta(self, rs: ExtensionSet) -> (r: FunctionType)
        ensures
            functype_view(r) == (FuncTypeSpec {
                input: functype_view(self).input,
                output: functype_view(self).output,
                exts: functype_view(self).exts.union(rs@),
            }),
            wf_functype(self) ==> wf_functype(r),
    {
        let FunctionType { input, output, extension_reqs } = self;
        let r = FunctionType { input, output, extension_reqs: extension_reqs.union(&rs) };
        r
    }

    /// Report whether the signature has no ports at all.
    pub fn is_empty(&self) -> (r: bool)
        ensures
            r == (functype_view(*self).input.len() == 0 && functype_view(*self).output.len() == 0),
    {
        proof {
            lemma_row_view(self.input);
            lemma_row_view(self.output);
        }
        self.input.len() == 0 && self.output.len() == 0
    }

    /// Returns the number of ports for the given direction.
    pub fn port_count(&self, dir: Direction) -> (r: usize)
        ensures
            dir == Direction::Incoming ==> r == functype_view(*self).input.len(),
            dir == Direction::Outgoing ==> r == functype_view(*self).output.len(),
    {
        proof {
            lemma_row_view(self.input);
            lemma_row_view(self.output);
        }
        match dir {
            Direction::Incoming => self.input.len(),
            Direction::Outgoing => self.output.len(),
        }
    }

    /// Returns the number of input ports.
    pub fn input_count(&self) -> (r: usize)
        ensures
            r == functype_view(*self).input.len(),
    {
        self.port_count(Direction::Incoming)
    }

    /// Returns the number of output ports.
    pub fn output_count(&self) -> (r: usize)
        ensures
            r == functype_view(*self).output.len(),
    {
        self.port_count(Direction::Outgoing)
    }

    /// Returns the row of types for the given direction.
    pub fn types(&self, dir: Direction) -> (r: &TypeRow)
        ensures
            dir == Direction::Incoming ==> row_view(*r) == functype_view(*self).input,
            dir == Direction::Outgoing ==> row_view(*r) == functype_view(*self).output,
            dir == Direction::Incoming ==> *r == self.input,
            dir == Direction::Outgoing ==> *r == self.output,
    {
        match dir {
            Direction::Incoming => &self.input,
            Direction::Outgoing => &self.output,
        }
    }

    /// Returns the input row.
    pub fn input(&self) -> (r: &TypeRow)
        ensures
            row_view(*r) == functype_view(*self).input,
            *r == self.input,
    {
        self.types(Direction::Incoming)
    }

    /// Returns the input row.
    pub fn input_types(&self) -> (r: &TypeRow)
        ensures
            row_view(*r) == functype_view(*self).input,
            *r == self.input,
    {
        self.types(Direction::Incoming)
    }

    /// Returns the output row.
    pub fn output(&self) -> (r: &TypeRow)
        ensures
            row_view(*r) == functype_view(*self).output,
            *r == self.output,
    {
        self.types(Direction::Outgoing)
    }

    /// Returns the output row.
    pub fn output_types(&self) -> (r: &TypeRow)
        ensures
            row_view(*r) == functype_view(*self).output,
            *r == self.output,
    {
        self.types(Direction::Outgoing)
    }

    /// Returns the type of the value port at the given offset and direction,
    /// or `None` when the offset is out of bounds.
    pub fn port_type(&self, port: Port) -> (r: Option<&Type>)
        ensures
            ({
                let row = if port.direction == Direction::Incoming {
                    functype_view(*self).input
                } else {
                    functype_view(*self).output
                };
                &&& (r is Some) == (port.offset < row.len())
                &&& r matches Some(t) ==> type_view(*t) == row[port.offset as int]
                &&& r matches Some(t) ==> (wf_functype(*self) ==> wf_type(*t))
            }),
    {
        match port.direction {
            Direction::Incoming => self.in_port_type(port.offset),
            Direction::Outgoing => self.out_port_type(port.offset),
        }
    }

    /// Returns the type of the value input port at the given offset, or
    /// `None` when it is out of bounds.
    pub fn in_port_type(&self, offset: usize) -> (r: Option<&Type>)
        ensures
            (r is Some) == (offset < functype_view(*self).input.len()),
            r matches Some(t) ==> type_view(*t) == functype_view(*self).input[offset as int],
            r matches Some(t) ==> (wf_functype(*self) ==> wf_type(*t)),
    {
        proof {
            lemma_row_view(self.input);
        }
        if offset < self.input.len() {
            Some(&self.input[offset])
        } else {
            None
        }
    }

    /// Returns the type of the value output port at the given offset, or
    /// `None` when it is out of bounds.
    pub fn out_port_type(&self, offset: usize) -> (r: Option<&Type>)
        ensures
            (r is Some) == (offset < functype_view(*self).output.len()),
            r matches Some(t) ==> type_view(*t) == functype_view(*self).output[offset as int],
            r matches Some(t) ==> (wf_functype(*self) ==> wf_type(*t)),
    {
        proof {
            lemma_row_view(self.output);
        }
        if offset < self.output.len() {
            Some(&self.output[offset])
        } else {
            None
        }
    }

    /// Returns the ports of the signature for the given direction, in order.
    pub fn ports(&self, dir: Direction) -> (r: Vec<Port>)
        ensures
            ({
                let row = if dir == Direction::Incoming {
                    functype_view(*self).input
                } else {
                    functype_view(*self).output
                };
                &&& r@.len() == row.len()
                &&& forall|i: int| 0 <= i < r@.len() ==> r@[i] == (Port {
                    direction: dir,
                    offset: i as usize,
                })
            }),
    {
        let n = self.port_count(dir);
        let mut out: Vec<Port> = Vec::new();
        let mut i: usize = 0;
        while i < n
            invariant
                i <= n,
                out@.len() == i,
                forall|j: int| 0 <= j < i ==> out@[j] == (Port {
                    direction: dir,
                    offset: j as usize,
                }),
            decreases n - i,
        {
            out.push(Port { direction: dir, offset: i });
            i += 1;
        }
        out
    }

    /// Returns the incoming ports of the signature, in order.
    pub fn input_ports(&self) -> (r: Vec<Port>)
        ensures
            r@.len() == functype_view(*self).input.len(),
            forall|i: int| 0 <= i < r@.len() ==> r@[i] == (Port {
                direction: Direction::Incoming,
                offset: i as usize,
            }),
    {
        self.ports(Direction::Incoming)
    }

    /// Returns the outgoing ports of the signature, in order.
    pub fn output_ports(&self) -> (r: Vec<Port>)
        ensures
            r@.len() == functype_view(*self).output.len(),
            forall|i: int| 0 <= i < r@.len() ==> r@[i] == (Port {
                direction: Direction::Outgoing,
                offset: i as usize,
            }),
    {
        self.ports(Direction::Outgoing)
    }
}

impl PolyFuncType {
    /// Wrap parameters and a body into a polymorphic function type, without
    /// validating it.
    pub fn new(params: Vec<crate::types::TypeParam>, body: FunctionType) -> (r: PolyFuncType)
        ensures
            crate::types::poly_view(r) == (crate::types::PolyFuncSpec {
                params: crate::types::params_view(params),
                body: functype_view(body),
            }),
            crate::types::wf_params(params) && wf_functype(body) ==> crate::types::wf_poly(r),
    {
        PolyFuncType { params, body }
    }

    /// The declared parameters.
    pub fn params(&self) -> (r: &Vec<crate::types::TypeParam>)
        ensures
            *r == self.params,
    {
        &self.params
    }

    /// The body of the scheme.
    pub fn body(&self) -> (r: &FunctionType)
        ensures
            *r == self.body,
    {
        &self.body
    }
}

} // verus!
