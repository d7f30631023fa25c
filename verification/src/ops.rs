//! The operations a node can carry, and their signatures.

use vstd::prelude::*;
use crate::extension::Const;
use crate::extension_set::{ExtItemSpec, ExtensionId, ExtensionSet};
use crate::types::{
    clone_row, functype_view, lemma_row_view, row_view, type_view, wf_functype, wf_poly, wf_row,
    wf_type, FunctionType, PolyFuncType, Type, TypeRow, TypeSpec,
};

verus! {

/// The operation assigned to a node: a closed union, exhaustively matched by
/// every consumer.
#[derive(Debug)]
pub enum OpType {
    /// The root of a module.
    Module,
    /// A function definition: a dataflow container with a polymorphic
    /// signature.
    FuncDefn {
        /// The function's name.
        name: String,
        /// The declared signature.
        signature: PolyFuncType,
    },
    /// An external function declaration, with no body.
    FuncDecl {
        /// The function's name.
        name: String,
        /// The declared signature.
        signature: PolyFuncType,
    },
    /// The input boundary of a dataflow container; its outputs are the
    /// container's inputs.
    Input {
        /// The types handed into the container.
        types: TypeRow,
    },
    /// The output boundary of a dataflow container; its inputs are the
    /// container's outputs.
    Output {
        /// The types handed out of the container.
        types: TypeRow,
    },
    /// A plain dataflow container.
    DFG {
        /// The container's signature.
        signature: FunctionType,
    },
    /// A control-flow container of basic blocks.
    CFG {
        /// The container's signature.
        signature: FunctionType,
    },
    /// A basic block: a dataflow container whose outputs choose a successor.
    DFB {
        /// The row handed to the block.
        inputs: TypeRow,
        /// One row per successor branch.
        tuple_sum_rows: Vec<TypeRow>,
        /// Outputs passed to every successor.
        other_outputs: TypeRow,
        /// The extensions the block's body adds.
        extension_delta: ExtensionSet,
    },
    /// The exit block of a control-flow container.
    Exit {
        /// The row the container hands out.
        cfg_outputs: TypeRow,
    },
    /// A constant definition, connected to its users by static edges.
    Const(Const),
    /// Load a constant for use as a value.
    LoadConstant {
        /// The type of the constant.
        datatype: Type,
    },
    /// A no-op: passes its input through.
    Noop {
        /// The type of the edges through the no-op.
        ty: Type,
    },
    /// Add an extension requirement to the wires passed through, without
    /// changing the values.
    Lift {
        /// The types of the edges.
        type_row: TypeRow,
        /// The extension added to the inputs' requirements.
        new_extension: ExtensionId,
    },
    /// An operation that an extension defines, with its computed signature.
    CustomOp {
        /// The defining extension.
        extension: ExtensionId,
        /// The operation's name.
        name: String,
        /// The concrete signature.
        signature: FunctionType,
    },
}

/// Classification of an operation, deciding the shape rules its node and
/// children must meet.
#[derive(Copy, Clone, Debug, PartialEq, Eq, Structural)]
pub enum OpClass {
    /// The module root: may only contain definitions and declarations.
    Module,
    /// A dataflow container: function definition, plain block, or basic
    /// block.
    DataflowContainer,
    /// A control-flow container of basic blocks.
    CfgContainer,
    /// A leaf: must have no children.
    Leaf,
}

impl OpType {
    /// The classification of the operation.
    pub open spec fn class_spec(self) -> OpClass {
        match self {
            OpType::Module => OpClass::Module,
            OpType::FuncDefn { .. } => OpClass::DataflowContainer,
            OpType::DFG { .. } => OpClass::DataflowContainer,
            OpType::DFB { .. } => OpClass::DataflowContainer,
            OpType::CFG { .. } => OpClass::CfgContainer,
            _ => OpClass::Leaf,
        }
    }

    /// Report the classification of the operation.
    pub fn class(&self) -> (r: OpClass)
        ensures
            r == self.class_spec(),
    {
        match self {
            OpType::Module => OpClass::Module,
            OpType::FuncDefn { .. } => OpClass::DataflowContainer,
            OpType::DFG { .. } => OpClass::DataflowContainer,
            OpType::DFB { .. } => OpClass::DataflowContainer,
            OpType::CFG { .. } => OpClass::CfgContainer,
            _ => OpClass::Leaf,
        }
    }

    /// The value-input row of the operation, as a model.
    pub open spec fn in_row_spec(self) -> Seq<TypeSpec> {
        match self {
            OpType::Input { .. } => Seq::empty(),
            OpType::Output { types } => row_view(types),
            OpType::DFG { signature } => functype_view(signature).input,
            OpType::CFG { signature } => functype_view(signature).input,
            OpType::Noop { ty } => seq![type_view(ty)],
            OpType::Lift { type_row, .. } => row_view(type_row),
            OpType::CustomOp { signature, .. } => functype_view(signature).input,
            _ => Seq::empty(),
        }
    }

    /// The value-output row of the operation, as a model.
    pub open spec fn out_row_spec(self) -> Seq<TypeSpec> {
        match self {
            OpType::Input { types } => row_view(types),
            OpType::Output { .. } => Seq::empty(),
            OpType::DFG { signature } => functype_view(signature).output,
            OpType::CFG { signature } => functype_view(signature).output,
            OpType::LoadConstant { datatype } => seq![type_view(datatype)],
            OpType::Noop { ty } => seq![type_view(ty)],
            OpType::Lift { type_row, .. } => row_view(type_row),
            OpType::CustomOp { signature, .. } => functype_view(signature).output,
            _ => Seq::empty(),
        }
    }

    /// The extensions the operation's execution adds beyond its inputs'.
    pub open spec fn delta_spec(self) -> Set<ExtItemSpec> {
        match self {
            OpType::Lift { new_extension, .. } => Set::empty().insert(
                ExtItemSpec::Ext(new_extension@),
            ),
            OpType::CustomOp { signature, .. } => signature.extension_reqs@,
            OpType::DFG { signature } => signature.extension_reqs@,
            OpType::CFG { signature } => signature.extension_reqs@,
            OpType::DFB { extension_delta, .. } => extension_delta@,
            _ => Set::empty(),
        }
    }

    /// The value-input row of the operation.
    pub fn in_row(&self) -> (r: TypeRow)
        requires
            wf_op(*self),
        ensures
            row_view(r) == self.in_row_spec(),
            wf_row(r),
    {
        let r = match self {
            OpType::Output { types } => clone_row(types),
            OpType::DFG { signature } => clone_row(&signature.input),
            OpType::CFG { signature } => clone_row(&signature.input),
            OpType::Noop { ty } => {
                let mut v: TypeRow = Vec::new();
                v.push(ty.clone());
                v
            },
            OpType::Lift { type_row, .. } => clone_row(type_row),
            OpType::CustomOp { signature, .. } => clone_row(&signature.input),
            _ => Vec::new(),
        };
        proof {
            lemma_row_view(r);
            assert(row_view(r) =~= self.in_row_spec());
        }
        r
    }

    /// The value-output row of the operation.
    pub fn out_row(&self) -> (r: TypeRow)
        requires
            wf_op(*self),
        ensures
            row_view(r) == self.out_row_spec(),
            wf_row(r),
    {
        let r = match self {
            OpType::Input { types } => clone_row(types),
            OpType::DFG { signature } => clone_row(&signature.output),
            OpType::CFG { signature } => clone_row(&signature.output),
            OpType::LoadConstant { datatype } => {
                let mut v: TypeRow = Vec::new();
                v.push(datatype.clone());
                v
            },
            OpType::Noop { ty } => {
                let mut v: TypeRow = Vec::new();
                v.push(ty.clone());
                v
            },
            OpType::Lift { type_row, .. } => clone_row(type_row),
            OpType::CustomOp { signature, .. } => clone_row(&signature.output),
            _ => Vec::new(),
        };
        proof {
            lemma_row_view(r);
            assert(row_view(r) =~= self.out_row_spec());
        }
        r
    }

    /// The extensions the operation's execution adds.
    pub fn delta(&self) -> (r: ExtensionSet)
        ensures
            r@ == self.delta_spec(),
    {
        match self {
            OpType::Lift { new_extension, .. } => ExtensionSet::singleton(new_extension),
            OpType::CustomOp { signature, .. } => signature.extension_reqs.clone(),
            OpType::DFG { signature } => signature.extension_reqs.clone(),
            OpType::CFG { signature } => signature.extension_reqs.clone(),
            OpType::DFB { extension_delta, .. } => extension_delta.clone(),
            _ => ExtensionSet::new(),
        }
    }

    /// Whether the node's single output is a static port (a constant or a
    /// function definition or declaration).
    pub open spec fn static_source_spec(self) -> bool {
        match self {
            OpType::Const(_) | OpType::FuncDefn { .. } | OpType::FuncDecl { .. } => true,
            _ => false,
        }
    }

    /// Report whether the node's output is a static port.
    pub fn is_static_source(&self) -> (r: bool)
        ensures
            r == self.static_source_spec(),
    {
        matches!(self, OpType::Const(_) | OpType::FuncDefn { .. } | OpType::FuncDecl { .. })
    }
}

/// Well-formedness of the types an operation carries.
pub open spec fn wf_op(op: OpType) -> bool {
    match op {
        OpType::Module => true,
        OpType::FuncDefn { signature, .. } => wf_poly(signature),
        OpType::FuncDecl { signature, .. } => wf_poly(signature),
        OpType::Input { types } => wf_row(types),
        OpType::Output { types } => wf_row(types),
        OpType::DFG { signature } => wf_functype(signature),
        OpType::CFG { signature } => wf_functype(signature),
        OpType::DFB { inputs, tuple_sum_rows, other_outputs, .. } => wf_row(inputs)
            && crate::types::wf_rows(tuple_sum_rows) && wf_row(other_outputs),
        OpType::Exit { cfg_outputs } => wf_row(cfg_outputs),
        OpType::Const(c) => wf_type(c.datatype),
        OpType::LoadConstant { datatype } => wf_type(datatype),
        OpType::Noop { ty } => wf_type(ty),
        OpType::Lift { type_row, .. } => wf_row(type_row),
        OpType::CustomOp { signature, .. } => wf_functype(signature),
    }
}

impl OpType {
    /// Whether the operation is a basic block or exit block, joined by
    /// control-flow edges rather than value edges.
    pub open spec fn is_cf_node_spec(self) -> bool {
        self is DFB || self is Exit
    }

    /// Report whether the operation is a control-flow block.
    pub fn is_cf_node(&self) -> (r: bool)
        ensures
            r == self.is_cf_node_spec(),
    {
        matches!(self, OpType::DFB { .. } | OpType::Exit { .. })
    }

    /// The row a basic block's given branch carries: the chosen variant's
    /// row followed by the outputs common to every successor.
    pub fn cf_branch_row(&self, branch: usize) -> (r: Option<TypeRow>)
        requires
            wf_op(*self),
        ensures
            (r is Some) == (self matches OpType::DFB { tuple_sum_rows, .. } && branch
                < tuple_sum_rows@.len()),
            r matches Some(row) ==> wf_row(row) && (self matches OpType::DFB {
                tuple_sum_rows,
                other_outputs,
                ..
            } && row_view(row) == crate::types::rows_view(*tuple_sum_rows)[branch as int]
                + row_view(*other_outputs)),
    {
        match self {
            OpType::DFB { tuple_sum_rows, other_outputs, .. } => {
                proof {
                    crate::types::lemma_rows_view(*tuple_sum_rows);
                }
                if branch < tuple_sum_rows.len() {
                    proof {
                        assert forall|j: int|
                            0 <= j < tuple_sum_rows@[branch as int]@.len() implies wf_type(
                            #[trigger] tuple_sum_rows@[branch as int]@[j],
                        ) by {}
                    }
                    let mut row = clone_row(&tuple_sum_rows[branch]);
                    let mut rest = clone_row(other_outputs);
                    let ghost pre = row;
                    let ghost restg = rest;
                    row.append(&mut rest);
                    proof {
                        lemma_row_view(row);
                        lemma_row_view(pre);
                        lemma_row_view(restg);
                        assert(row_view(row) =~= crate::types::rows_view(*tuple_sum_rows)[
                            branch as int
                        ] + row_view(*other_outputs));
                        assert forall|j: int| 0 <= j < row@.len() implies wf_type(
                            #[trigger] row@[j],
                        ) by {
                            if j < pre@.len() {
                                assert(wf_type(pre@[j]));
                            } else {
                                assert(wf_type(restg@[j - pre@.len()]));
                            }
                        }
                    }
                    Some(row)
                } else {
                    None
                }
            },
            _ => None,
        }
    }

    /// The row a control-flow block accepts from its predecessors.
    pub fn cf_input_row(&self) -> (r: Option<TypeRow>)
        requires
            wf_op(*self),
        ensures
            (r is Some) == self.is_cf_node_spec(),
            r matches Some(row) ==> wf_row(row) && row_view(row) == self.cf_input_row_spec(),
    {
        match self {
            OpType::DFB { inputs, .. } => Some(clone_row(inputs)),
            OpType::Exit { cfg_outputs } => Some(clone_row(cfg_outputs)),
            _ => None,
        }
    }

    /// The model of the row a control-flow block accepts.
    pub open spec fn cf_input_row_spec(self) -> Seq<TypeSpec> {
        match self {
            OpType::DFB { inputs, .. } => row_view(inputs),
            OpType::Exit { cfg_outputs } => row_view(cfg_outputs),
            _ => Seq::empty(),
        }
    }
}


} // verus!
