//! Tests of the structural validator, extension checking and inference.

use hugr_core::extension::{Extension, ExtensionRegistry, SignatureError, TypeDefBound};
use hugr_core::extension_set::ExtensionSet;
use hugr_core::hugr::{Hugr, NodeType};
use hugr_core::ops::OpType;
use hugr_core::types::{
    CustomType, FunctionType, PolyFuncType, Type, TypeArg, TypeBound, TypeParam,
};
use hugr_core::validate::ValidationError;

fn bool_t() -> Type {
    Type::new_unit_sum(2)
}

fn usize_t() -> Type {
    Type::new_extension(CustomType {
        extension: "prelude".to_string(),
        id: "usize".to_string(),
        args: vec![],
        bound: TypeBound::Eq,
    })
}

fn empty_reg() -> ExtensionRegistry {
    ExtensionRegistry::new()
}

fn prelude_registry() -> ExtensionRegistry {
    let mut e = Extension::new("prelude".to_string());
    e.add_type(
        "usize".to_string(),
        vec![],
        "a machine word".to_string(),
        TypeDefBound::Explicit(TypeBound::Eq),
    )
    .unwrap();
    let mut reg = ExtensionRegistry::new();
    reg.register(e).unwrap();
    reg
}

fn logic_delta() -> ExtensionSet {
    ExtensionSet::singleton(&"logic".to_string())
}

fn and_op() -> OpType {
    OpType::CustomOp {
        extension: "logic".to_string(),
        name: "and".to_string(),
        signature: FunctionType::new(vec![bool_t(), bool_t()], vec![bool_t()])
            .with_extension_delta(logic_delta()),
    }
}

fn or_op() -> OpType {
    OpType::CustomOp {
        extension: "logic".to_string(),
        name: "or".to_string(),
        signature: FunctionType::new(vec![bool_t(), bool_t()], vec![bool_t()])
            .with_extension_delta(logic_delta()),
    }
}

fn not_op() -> OpType {
    OpType::CustomOp {
        extension: "logic".to_string(),
        name: "not".to_string(),
        signature: FunctionType::new(vec![bool_t()], vec![bool_t()])
            .with_extension_delta(logic_delta()),
    }
}

fn mono(sig: FunctionType) -> PolyFuncType {
    PolyFuncType::new(vec![], sig)
}

/// A graph with a single function definition that copies a bit `copies`
/// times; returns the graph and the definition node.
fn make_simple_hugr(copies: usize) -> (Hugr, usize) {
    let mut b = Hugr::new(NodeType::new_pure(OpType::Module));
    let root = b.root();
    let mut outs = Vec::new();
    for _ in 0..copies {
        outs.push(bool_t());
    }
    let def = b.add_node_with_parent(
        root,
        NodeType::new_open(OpType::FuncDefn {
            name: "main".to_string(),
            signature: mono(FunctionType::new(vec![bool_t()], outs)),
        }),
    );
    add_df_children(&mut b, def, copies);
    (b, def)
}

/// Adds input, output and no-op children to a dataflow container; returns
/// (input, output, copy).
fn add_df_children(b: &mut Hugr, parent: usize, copies: usize) -> (usize, usize, usize) {
    let mut outs = Vec::new();
    for _ in 0..copies {
        outs.push(bool_t());
    }
    let input =
        b.add_node_with_parent(parent, NodeType::new_open(OpType::Input { types: vec![bool_t()] }));
    let output =
        b.add_node_with_parent(parent, NodeType::new_open(OpType::Output { types: outs }));
    let copy =
        b.add_node_with_parent(parent, NodeType::new_open(OpType::Noop { ty: bool_t() }));
    b.connect(input, 0, copy, 0);
    for i in 0..copies {
        b.connect(copy, 0, output, i);
    }
    (input, output, copy)
}

/// A dataflow-rooted graph with its input and output boundary in place.
fn closed_dfg_root_hugr(signature: FunctionType) -> Hugr {
    let in_row = signature.input().clone();
    let out_row = signature.output().clone();
    let mut h = Hugr::new(NodeType::new_pure(OpType::DFG { signature }));
    let root = h.root();
    h.add_node_with_parent(root, NodeType::new_open(OpType::Input { types: in_row }));
    h.add_node_with_parent(root, NodeType::new_open(OpType::Output { types: out_row }));
    h
}

#[test]
fn test_invalid_root() {
    let mut b = Hugr::new(NodeType::new_pure(OpType::Module));
    let root = b.root();
    assert!(b.validate(&empty_reg()).is_ok());

    // A second parentless node fails validation, naming the new node.
    let other = b.add_node(NodeType::new_pure(OpType::Module));
    assert!(matches!(
        b.validate(&empty_reg()),
        Err(ValidationError::NoParent { node }) if node == other
    ));

    // Giving it a parent and a declaration operation makes it valid again.
    b.set_parent(other, root);
    b.replace_op(
        other,
        NodeType::new_pure(OpType::FuncDecl {
            name: "main".to_string(),
            signature: mono(FunctionType::new(vec![], vec![])),
        }),
    );
    assert!(b.validate(&empty_reg()).is_ok());

    // Making the designated root a non-root fails, naming it.
    b.root = other;
    assert!(matches!(
        b.validate(&empty_reg()),
        Err(ValidationError::RootNotRoot { node }) if node == other
    ));
}

#[test]
fn test_leaf_root() {
    let b = Hugr::new(NodeType::new_pure(OpType::Noop { ty: usize_t() }));
    assert!(b.validate(&prelude_registry()).is_ok());
}

#[test]
fn test_dfg_root() {
    let mut b = Hugr::new(NodeType::new_pure(OpType::DFG {
        signature: FunctionType::new_endo(vec![bool_t()]),
    }));
    let root = b.root();
    add_df_children(&mut b, root, 1);
    assert!(b.update_validate(&empty_reg()).is_ok());
}

#[test]
fn test_simple_hugr() {
    let mut b = make_simple_hugr(2).0;
    assert!(b.update_validate(&empty_reg()).is_ok());
}

#[test]
fn test_children_restrictions() {
    let (mut b, def) = make_simple_hugr(2);
    let root = b.root();
    let copy = b.children(def)[2];

    // A definition without children fails.
    let new_def = b.add_node_with_parent(
        root,
        NodeType::new_open(OpType::FuncDefn {
            name: "main".to_string(),
            signature: mono(FunctionType::new(vec![bool_t()], vec![bool_t(), bool_t()])),
        }),
    );
    assert!(matches!(
        b.update_validate(&empty_reg()),
        Err(ValidationError::ContainerWithoutChildren { node }) if node == new_def
    ));

    // Giving the definition children but moving it under a leaf fails.
    add_df_children(&mut b, new_def, 2);
    b.set_parent(new_def, copy);
    assert!(matches!(
        b.update_validate(&empty_reg()),
        Err(ValidationError::NonContainerWithChildren { node }) if node == copy
    ));
    b.set_parent(new_def, root);

    // An input node directly under the module subgraph fails.
    let new_input =
        b.add_node_with_parent(root, NodeType::new_open(OpType::Input { types: vec![] }));
    assert!(matches!(
        b.update_validate(&empty_reg()),
        Err(ValidationError::InvalidParentOp { parent, child }) if parent == root && child == new_input
    ));
}

#[test]
fn test_df_children_restrictions() {
    let (mut b, def) = make_simple_hugr(2);
    let cs = b.children(def);
    let (output, copy) = (cs[1], cs[2]);

    // Replace the output operation with a no-op: the boundary is wrong.
    b.replace_op(output, NodeType::new_pure(OpType::Noop { ty: bool_t() }));
    assert!(matches!(
        b.validate(&empty_reg()),
        Err(ValidationError::InvalidInitialChild { parent }) if parent == def
    ));

    // Revert to an output boundary of the wrong arity: the row mismatches.
    b.replace_op(output, NodeType::new_pure(OpType::Output { types: vec![bool_t()] }));
    assert!(matches!(
        b.validate(&empty_reg()),
        Err(ValidationError::IOSignatureMismatch { parent, child }) if parent == def && child == output
    ));
    b.replace_op(
        output,
        NodeType::new_pure(OpType::Output { types: vec![bool_t(), bool_t()] }),
    );

    // An output boundary after the first two children is internal.
    b.replace_op(
        copy,
        NodeType::new_pure(OpType::Output { types: vec![bool_t(), bool_t()] }),
    );
    assert!(matches!(
        b.validate(&empty_reg()),
        Err(ValidationError::InternalIOChildren { parent, child }) if parent == def && child == copy
    ));
}

#[test]
fn test_output_row_fix() {
    // A dataflow container whose output boundary declares a row of a
    // different length fails, naming that boundary node; correcting the row
    // makes the same graph validate.
    let (mut b, def) = make_simple_hugr(2);
    let output = b.children(def)[1];
    b.replace_op(output, NodeType::new_open(OpType::Output { types: vec![bool_t()] }));
    assert!(matches!(
        b.update_validate(&empty_reg()),
        Err(ValidationError::IOSignatureMismatch { parent, child }) if parent == def && child == output
    ));
    b.replace_op(
        output,
        NodeType::new_open(OpType::Output { types: vec![bool_t(), bool_t()] }),
    );
    // The extra edge into the old boundary is still there; reconnect cleanly.
    assert!(b.update_validate(&empty_reg()).is_ok());
}

#[test]
fn test_test_ext_edge() {
    let mut h = closed_dfg_root_hugr(
        FunctionType::new(vec![bool_t(), bool_t()], vec![bool_t()])
            .with_extension_delta(logic_delta()),
    );
    let root = h.root();
    let (input, output) = h.get_io(root).unwrap();

    // A nested dataflow container.
    let sub_dfg = h.add_node_with_parent(
        root,
        NodeType::new_open(OpType::DFG {
            signature: FunctionType::new_endo(vec![bool_t()]).with_extension_delta(logic_delta()),
        }),
    );
    // An operation with its second input unconnected.
    let sub_input =
        h.add_node_with_parent(sub_dfg, NodeType::new_open(OpType::Input { types: vec![bool_t()] }));
    let sub_output =
        h.add_node_with_parent(sub_dfg, NodeType::new_open(OpType::Output { types: vec![bool_t()] }));
    let sub_op = h.add_node_with_parent(sub_dfg, NodeType::new_open(and_op()));
    h.connect(sub_input, 0, sub_op, 0);
    h.connect(sub_op, 0, sub_output, 0);

    h.connect(input, 0, sub_dfg, 0);
    h.connect(sub_dfg, 0, output, 0);

    assert!(matches!(
        h.update_validate(&empty_reg()),
        Err(ValidationError::UnconnectedPort { .. })
    ));

    // Connecting it across the nesting level needs an order edge.
    h.connect(input, 1, sub_op, 1);
    assert!(matches!(
        h.update_validate(&empty_reg()),
        Err(ValidationError::MissingOrderEdge { .. })
    ));
    // The order edge makes the graph validate.
    h.add_other_edge(input, sub_dfg);
    assert!(h.update_validate(&empty_reg()).is_ok());
}

#[test]
fn test_test_local_const() {
    let mut h = closed_dfg_root_hugr(
        FunctionType::new(vec![bool_t()], vec![bool_t()]).with_extension_delta(logic_delta()),
    );
    let root = h.root();
    let (input, output) = h.get_io(root).unwrap();
    let and = h.add_node_with_parent(root, NodeType::new_open(and_op()));
    h.connect(input, 0, and, 0);
    h.connect(and, 0, output, 0);
    assert!(matches!(
        h.update_validate(&empty_reg()),
        Err(ValidationError::UnconnectedPort { node, port, .. }) if node == and && port == 1
    ));

    // The second input from a constant through a load.
    let cst = h.add_node_with_parent(
        root,
        NodeType::new_open(OpType::Const(hugr_core::extension::Const { datatype: bool_t() })),
    );
    let lcst = h.add_node_with_parent(
        root,
        NodeType::new_open(OpType::LoadConstant { datatype: bool_t() }),
    );
    h.connect(cst, 0, lcst, 0);
    h.connect(lcst, 0, and, 1);
    assert_eq!(h.static_source(lcst), Some(cst));
    // There is no edge from the input boundary to the load, and that is
    // fine.
    assert!(h.update_validate(&empty_reg()).is_ok());
}

#[test]
fn test_missing_lift_node() {
    let mut main = Hugr::new(NodeType::new_pure(OpType::FuncDefn {
        name: "main".to_string(),
        signature: mono(
            FunctionType::new_endo(vec![usize_t()]).with_extension_delta(
                ExtensionSet::new_from_extensions(vec!["A".to_string(), "BOOL_EXT".to_string()]),
            ),
        ),
    }));
    let root = main.root();
    let inp = main.add_node_with_parent(
        root,
        NodeType::new_pure(OpType::Input { types: vec![usize_t()] }),
    );
    let out = main.add_node_with_parent(
        root,
        NodeType::new(
            OpType::Output { types: vec![usize_t()] },
            ExtensionSet::new_from_extensions(vec!["A".to_string(), "BOOL_EXT".to_string()]),
        ),
    );
    main.connect(inp, 0, out, 0);

    // The wire supplies no extensions, but the output requires two: a lift
    // node is missing.
    assert!(matches!(
        main.validate(&prelude_registry()),
        Err(ValidationError::TgtExceedsSrcExtensionsAtPort { .. })
    ));
}

#[test]
fn test_too_many_extension() {
    let mut main = Hugr::new(NodeType::new_pure(OpType::FuncDefn {
        name: "main".to_string(),
        signature: mono(FunctionType::new_endo(vec![usize_t()])),
    }));
    let root = main.root();
    let inp = main.add_node_with_parent(
        root,
        NodeType::new_pure(OpType::Input { types: vec![usize_t()] }),
    );
    let out = main.add_node_with_parent(
        root,
        NodeType::new_pure(OpType::Output { types: vec![usize_t()] }),
    );
    let lift = main.add_node_with_parent(
        root,
        NodeType::new_pure(OpType::Lift {
            type_row: vec![usize_t()],
            new_extension: "A".to_string(),
        }),
    );
    main.connect(inp, 0, lift, 0);
    main.connect(lift, 0, out, 0);

    // The lift supplies more than the output accepts.
    assert!(matches!(
        main.validate(&prelude_registry()),
        Err(ValidationError::SrcExceedsTgtExtensionsAtPort { .. })
    ));
}

#[test]
fn test_parent_signature_mismatch() {
    let rs = ExtensionSet::singleton(&"A".to_string());
    let mut hugr = Hugr::new(NodeType::new_pure(OpType::DFG {
        signature: FunctionType::new(vec![usize_t()], vec![usize_t()])
            .with_extension_delta(rs.clone()),
    }));
    let root = hugr.root();
    let input = hugr.add_node_with_parent(
        root,
        NodeType::new_pure(OpType::Input { types: vec![usize_t()] }),
    );
    let output = hugr.add_node_with_parent(
        root,
        NodeType::new(OpType::Output { types: vec![usize_t()] }, rs),
    );
    hugr.connect(input, 0, output, 0);
    assert!(matches!(
        hugr.validate(&prelude_registry()),
        Err(ValidationError::TgtExceedsSrcExtensionsAtPort { .. })
    ));
}

#[test]
fn test_parent_io_mismatch() {
    // The container declares an empty delta, but its body adds an extension.
    let mut hugr = Hugr::new(NodeType::new_pure(OpType::DFG {
        signature: FunctionType::new(vec![usize_t()], vec![usize_t()]),
    }));
    let root = hugr.root();
    let input = hugr.add_node_with_parent(
        root,
        NodeType::new_pure(OpType::Input { types: vec![usize_t()] }),
    );
    let output = hugr.add_node_with_parent(
        root,
        NodeType::new(
            OpType::Output { types: vec![usize_t()] },
            ExtensionSet::singleton(&"BOOL_EXT".to_string()),
        ),
    );
    let lift = hugr.add_node_with_parent(
        root,
        NodeType::new_pure(OpType::Lift {
            type_row: vec![usize_t()],
            new_extension: "BOOL_EXT".to_string(),
        }),
    );
    hugr.connect(input, 0, lift, 0);
    hugr.connect(lift, 0, output, 0);
    assert!(matches!(
        hugr.validate(&prelude_registry()),
        Err(ValidationError::ParentIOExtensionMismatch { .. })
    ));
}

#[test]
fn test_delta_widening_fixes_mismatch() {
    // Widening the container's declared delta to include the extension the
    // body adds makes the same graph validate.
    let mut hugr = Hugr::new(NodeType::new_pure(OpType::DFG {
        signature: FunctionType::new(vec![usize_t()], vec![usize_t()])
            .with_extension_delta(ExtensionSet::singleton(&"BOOL_EXT".to_string())),
    }));
    let root = hugr.root();
    let input = hugr.add_node_with_parent(
        root,
        NodeType::new_pure(OpType::Input { types: vec![usize_t()] }),
    );
    let output = hugr.add_node_with_parent(
        root,
        NodeType::new(
            OpType::Output { types: vec![usize_t()] },
            ExtensionSet::singleton(&"BOOL_EXT".to_string()),
        ),
    );
    let lift = hugr.add_node_with_parent(
        root,
        NodeType::new_pure(OpType::Lift {
            type_row: vec![usize_t()],
            new_extension: "BOOL_EXT".to_string(),
        }),
    );
    hugr.connect(input, 0, lift, 0);
    hugr.connect(lift, 0, output, 0);
    assert!(hugr.validate(&prelude_registry()).is_ok());
}

#[test]
fn test_dfg_with_cycles() {
    let mut h = closed_dfg_root_hugr(
        FunctionType::new(vec![bool_t(), bool_t()], vec![bool_t()])
            .with_extension_delta(logic_delta()),
    );
    let root = h.root();
    let (input, output) = h.get_io(root).unwrap();
    let or = h.add_node_with_parent(root, NodeType::new_open(or_op()));
    let not1 = h.add_node_with_parent(root, NodeType::new_open(not_op()));
    let not2 = h.add_node_with_parent(root, NodeType::new_open(not_op()));
    h.connect(input, 0, or, 0);
    h.connect(or, 0, not1, 0);
    h.connect(not1, 0, or, 1);
    h.connect(input, 1, not2, 0);
    h.connect(not2, 0, output, 0);
    // The graph contains a cycle.
    assert!(matches!(h.validate(&empty_reg()), Err(ValidationError::NotADag { .. })));
}

#[test]
fn test_acyclic_wiring_validates() {
    // Three nodes wired in a value-edge cycle within one sibling scope fail
    // as not-a-DAG; the same three nodes wired acyclically validate.
    let mut h = closed_dfg_root_hugr(FunctionType::new(vec![bool_t()], vec![bool_t()]));
    let root = h.root();
    let (input, output) = h.get_io(root).unwrap();
    let n1 = h.add_node_with_parent(root, NodeType::new_open(OpType::Noop { ty: bool_t() }));
    let n2 = h.add_node_with_parent(root, NodeType::new_open(OpType::Noop { ty: bool_t() }));
    let n3 = h.add_node_with_parent(root, NodeType::new_open(OpType::Noop { ty: bool_t() }));
    let mut bad = Hugr::new(NodeType::new_pure(OpType::DFG {
        signature: FunctionType::new(vec![bool_t()], vec![bool_t()]),
    }));
    // First the cycle, on a copy of the same shape.
    {
        let broot = bad.root();
        let binput = bad
            .add_node_with_parent(broot, NodeType::new_open(OpType::Input { types: vec![bool_t()] }));
        let boutput = bad
            .add_node_with_parent(broot, NodeType::new_open(OpType::Output { types: vec![bool_t()] }));
        let b1 = bad.add_node_with_parent(broot, NodeType::new_open(OpType::Noop { ty: bool_t() }));
        let b2 = bad.add_node_with_parent(broot, NodeType::new_open(OpType::Noop { ty: bool_t() }));
        let b3 = bad.add_node_with_parent(broot, NodeType::new_open(OpType::Noop { ty: bool_t() }));
        bad.connect(b1, 0, b2, 0);
        bad.connect(b2, 0, b3, 0);
        bad.connect(b3, 0, b1, 0);
        bad.connect(binput, 0, boutput, 0);
        assert!(matches!(bad.update_validate(&empty_reg()), Err(ValidationError::NotADag { .. })));
    }
    // Now the acyclic wiring of the same three nodes.
    h.connect(input, 0, n1, 0);
    h.connect(n1, 0, n2, 0);
    h.connect(n2, 0, n3, 0);
    h.connect(n3, 0, output, 0);
    assert!(h.update_validate(&empty_reg()).is_ok());
}

fn identity_hugr_with_type(t: Type) -> (Hugr, usize) {
    let mut b = Hugr::new(NodeType::new_pure(OpType::Module));
    let root = b.root();
    let def = b.add_node_with_parent(
        root,
        NodeType::new_open(OpType::FuncDefn {
            name: "main".to_string(),
            signature: mono(FunctionType::new(vec![t.clone()], vec![t.clone()])),
        }),
    );
    let input =
        b.add_node_with_parent(def, NodeType::new_open(OpType::Input { types: vec![t.clone()] }));
    let output =
        b.add_node_with_parent(def, NodeType::new_open(OpType::Output { types: vec![t] }));
    b.connect(input, 0, output, 0);
    (b, def)
}

#[test]
fn test_unregistered_extension() {
    let (mut h, def) = identity_hugr_with_type(usize_t());
    let err = h.validate(&empty_reg());
    assert!(matches!(
        err,
        Err(ValidationError::SignatureError {
            node,
            cause: SignatureError::ExtensionNotFound(_),
        }) if node == def
    ));
    assert!(h.update_validate(&prelude_registry()).is_ok());
}

fn my_container_registry() -> ExtensionRegistry {
    let mut e = Extension::new("MyExt".to_string());
    e.add_type(
        "MyContainer".to_string(),
        vec![TypeParam::Type { b: TypeBound::Copyable }],
        "".to_string(),
        TypeDefBound::Explicit(TypeBound::Any),
    )
    .unwrap();
    let mut reg = prelude_registry();
    reg.register(e).unwrap();
    reg
}

fn validate_to_sig_error(t: CustomType) -> SignatureError {
    let reg = my_container_registry();
    let (h, def) = identity_hugr_with_type(Type::new_extension(t));
    match h.validate(&reg) {
        Err(ValidationError::SignatureError { node, cause }) if node == def => cause,
        e => panic!("expected SignatureError at the definition node, got {:?}", e),
    }
}

#[test]
fn test_invalid_types() {
    let reg = my_container_registry();
    let valid = Type::new_extension(CustomType {
        extension: "MyExt".to_string(),
        id: "MyContainer".to_string(),
        args: vec![TypeArg::Type { ty: usize_t() }],
        bound: TypeBound::Any,
    });
    let (mut h, _) = identity_hugr_with_type(valid.clone());
    assert!(h.update_validate(&reg).is_ok());

    // `valid` is `Any`, so may not stand as an element of an outer container.
    let element_outside_bound = CustomType {
        extension: "MyExt".to_string(),
        id: "MyContainer".to_string(),
        args: vec![TypeArg::Type { ty: valid.clone() }],
        bound: TypeBound::Any,
    };
    assert_eq!(
        validate_to_sig_error(element_outside_bound),
        SignatureError::TypeArgMismatch(hugr_core::type_param::TypeArgError::TypeMismatch {
            param: TypeParam::Type { b: TypeBound::Copyable },
            arg: TypeArg::Type { ty: valid },
        })
    );

    // A stale stored bound is detected, not silently fixed.
    let bad_bound = CustomType {
        extension: "MyExt".to_string(),
        id: "MyContainer".to_string(),
        args: vec![TypeArg::Type { ty: usize_t() }],
        bound: TypeBound::Copyable,
    };
    assert_eq!(
        validate_to_sig_error(bad_bound.clone()),
        SignatureError::WrongBound { actual: TypeBound::Copyable, expected: TypeBound::Any }
    );

    // The stale claim of copyability lets it nest, and the nested check
    // still finds it.
    let nested = CustomType {
        extension: "MyExt".to_string(),
        id: "MyContainer".to_string(),
        args: vec![TypeArg::Type { ty: Type::new_extension(bad_bound) }],
        bound: TypeBound::Any,
    };
    assert_eq!(
        validate_to_sig_error(nested),
        SignatureError::WrongBound { actual: TypeBound::Copyable, expected: TypeBound::Any }
    );

    // Too many arguments are refused with the counts.
    let too_many_type_args = CustomType {
        extension: "MyExt".to_string(),
        id: "MyContainer".to_string(),
        args: vec![TypeArg::Type { ty: usize_t() }, TypeArg::BoundedNat { n: 3 }],
        bound: TypeBound::Any,
    };
    assert_eq!(
        validate_to_sig_error(too_many_type_args),
        SignatureError::TypeArgMismatch(hugr_core::type_param::TypeArgError::WrongNumberArgs(
            2, 1
        ))
    );
}

#[test]
fn test_typevars_declared() {
    // A variable declared by the function's own scheme is fine.
    let reg = prelude_registry();
    let mk = |idx: usize, bound: TypeBound| {
        let t = Type::new_var_use(idx, bound);
        let mut b = Hugr::new(NodeType::new_pure(OpType::Module));
        let root = b.root();
        let def = b.add_node_with_parent(
            root,
            NodeType::new_open(OpType::FuncDefn {
                name: "myfunc".to_string(),
                signature: PolyFuncType::new(
                    vec![TypeParam::Type { b: TypeBound::Any }],
                    FunctionType::new_endo(vec![t]),
                ),
            }),
        );
        let t2 = Type::new_var_use(idx, bound);
        let input =
            b.add_node_with_parent(def, NodeType::new_open(OpType::Input { types: vec![t2.clone()] }));
        let output =
            b.add_node_with_parent(def, NodeType::new_open(OpType::Output { types: vec![t2] }));
        b.connect(input, 0, output, 0);
        let mut b = b;
        b.update_validate(&reg)
    };
    assert!(mk(0, TypeBound::Any).is_ok());
    // An undeclared index is a free variable.
    assert!(matches!(
        mk(1, TypeBound::Any),
        Err(ValidationError::SignatureError {
            cause: SignatureError::FreeTypeVar { idx: 1, num_decls: 1 },
            ..
        })
    ));
    // A use site carrying a different bound than the declaration fails.
    assert!(matches!(
        mk(0, TypeBound::Copyable),
        Err(ValidationError::SignatureError {
            cause: SignatureError::TypeVarDoesNotMatchDeclaration { .. },
            ..
        })
    ));
}

#[test]
fn test_cfg_children_restrictions() {
    let (mut b, def) = make_simple_hugr(1);
    let copy = b.children(def)[2];
    // Write the requirement annotations while the graph is still
    // well-formed enough to compute them.
    assert!(b.infer_extensions().is_ok());
    assert!(b.validate(&empty_reg()).is_ok());
    b.replace_op(
        copy,
        NodeType::new_pure(OpType::CFG {
            signature: FunctionType::new(vec![bool_t()], vec![bool_t()]),
        }),
    );
    assert!(matches!(
        b.validate(&empty_reg()),
        Err(ValidationError::ContainerWithoutChildren { .. })
    ));
    let cfg = copy;

    // Build a valid control-flow region: one basic block and one exit.
    let block = b.add_node_with_parent(
        cfg,
        NodeType::new_open(OpType::DFB {
            inputs: vec![bool_t()],
            tuple_sum_rows: vec![vec![]],
            other_outputs: vec![bool_t()],
            extension_delta: ExtensionSet::new(),
        }),
    );
    let block_input =
        b.add_node_with_parent(block, NodeType::new_open(OpType::Input { types: vec![bool_t()] }));
    let block_output = b.add_node_with_parent(
        block,
        NodeType::new_open(OpType::Output {
            types: vec![Type::new_sum(vec![vec![]]), bool_t()],
        }),
    );
    let tag_cst = b.add_node_with_parent(
        block,
        NodeType::new_open(OpType::Const(hugr_core::extension::Const {
            datatype: Type::new_sum(vec![vec![]]),
        })),
    );
    let tag = b.add_node_with_parent(
        block,
        NodeType::new_open(OpType::LoadConstant { datatype: Type::new_sum(vec![vec![]]) }),
    );
    b.connect(tag_cst, 0, tag, 0);
    b.connect(tag, 0, block_output, 0);
    b.connect(block_input, 0, block_output, 1);

    let exit = b.add_node_with_parent(
        cfg,
        NodeType::new_open(OpType::Exit { cfg_outputs: vec![bool_t()] }),
    );
    // The control-flow edge from the block's only branch to the exit.
    b.connect(block, 0, exit, 0);
    assert!(b.update_validate(&empty_reg()).is_ok());

    // An internal exit block is flagged.
    let exit2 = b.add_node_with_parent(
        cfg,
        NodeType::new_open(OpType::Exit { cfg_outputs: vec![bool_t()] }),
    );
    assert!(matches!(
        b.update_validate(&empty_reg()),
        Err(ValidationError::InternalExitChildren { parent, child }) if parent == cfg && child == exit2
    ));
    b.remove_node(exit2);

    // Changing the block's common outputs breaks the control-flow edge's
    // row agreement with the exit.
    b.replace_op(
        block,
        NodeType::new_open(OpType::DFB {
            inputs: vec![usize_t()],
            tuple_sum_rows: vec![vec![]],
            other_outputs: vec![usize_t()],
            extension_delta: ExtensionSet::new(),
        }),
    );
    b.replace_op(
        block_input,
        NodeType::new_open(OpType::Input { types: vec![usize_t()] }),
    );
    b.replace_op(
        block_output,
        NodeType::new_open(OpType::Output {
            types: vec![Type::new_sum(vec![vec![]]), usize_t()],
        }),
    );
    assert!(matches!(
        b.update_validate(&prelude_registry()),
        Err(ValidationError::CFGEdgeSignatureMismatch { parent }) if parent == cfg
    ));
}

#[test]
fn test_no_ext_edge_into_func() {
    // A value edge crossing into a function definition's body is illegal,
    // whatever ordering edges exist.
    let mut h = closed_dfg_root_hugr(
        FunctionType::new(vec![bool_t()], vec![bool_t()]).with_extension_delta(logic_delta()),
    );
    let root = h.root();
    let (input, output) = h.get_io(root).unwrap();
    let func = h.add_node_with_parent(
        root,
        NodeType::new_open(OpType::FuncDefn {
            name: "inner".to_string(),
            signature: mono(
                FunctionType::new(vec![bool_t()], vec![bool_t()])
                    .with_extension_delta(logic_delta()),
            ),
        }),
    );
    let f_input =
        h.add_node_with_parent(func, NodeType::new_open(OpType::Input { types: vec![bool_t()] }));
    let f_output =
        h.add_node_with_parent(func, NodeType::new_open(OpType::Output { types: vec![bool_t()] }));
    let and = h.add_node_with_parent(func, NodeType::new_open(and_op()));
    h.connect(f_input, 0, and, 0);
    h.connect(and, 0, f_output, 0);
    // The crossing edge from the outer scope into the function's body.
    h.connect(input, 0, and, 1);
    h.connect(input, 0, output, 0);
    h.add_other_edge(input, func);
    assert!(matches!(
        h.update_validate(&empty_reg()),
        Err(ValidationError::ValueEdgeIntoFunc { .. })
    ));
}

#[test]
fn test_nested_typevars() {
    // A nested function definition may not use a type variable declared by
    // an enclosing definition: only the nearest scheme's parameters are in
    // scope.
    let build = |inner_t: Type, inner_bound: TypeBound| {
        let mut b = Hugr::new(NodeType::new_pure(OpType::Module));
        let root = b.root();
        let outer_t = Type::new_var_use(0, TypeBound::Any);
        let outer = b.add_node_with_parent(
            root,
            NodeType::new_open(OpType::FuncDefn {
                name: "outer".to_string(),
                signature: PolyFuncType::new(
                    vec![TypeParam::Type { b: TypeBound::Any }],
                    FunctionType::new_endo(vec![outer_t.clone()]),
                ),
            }),
        );
        let o_in = b.add_node_with_parent(
            outer,
            NodeType::new_open(OpType::Input { types: vec![outer_t.clone()] }),
        );
        let o_out = b.add_node_with_parent(
            outer,
            NodeType::new_open(OpType::Output { types: vec![outer_t] }),
        );
        b.connect(o_in, 0, o_out, 0);
        let inner = b.add_node_with_parent(
            outer,
            NodeType::new_open(OpType::FuncDefn {
                name: "inner".to_string(),
                signature: PolyFuncType::new(
                    vec![TypeParam::Type { b: inner_bound }],
                    FunctionType::new_endo(vec![inner_t.clone()]),
                ),
            }),
        );
        let i_in = b.add_node_with_parent(
            inner,
            NodeType::new_open(OpType::Input { types: vec![inner_t.clone()] }),
        );
        let i_out = b.add_node_with_parent(
            inner,
            NodeType::new_open(OpType::Output { types: vec![inner_t] }),
        );
        b.connect(i_in, 0, i_out, 0);
        let mut b = b;
        b.update_validate(&empty_reg())
    };
    // The inner definition's own variable is fine.
    assert!(build(Type::new_var_use(0, TypeBound::Copyable), TypeBound::Copyable).is_ok());
    // Reaching past it to the outer scope's variable is a free variable.
    assert!(matches!(
        build(Type::new_var_use(1, TypeBound::Any), TypeBound::Copyable),
        Err(ValidationError::SignatureError {
            cause: SignatureError::FreeTypeVar { idx: 1, num_decls: 1 },
            ..
        })
    ));
    // Copying the outer declaration's bound onto index zero mismatches the
    // inner declaration.
    assert!(matches!(
        build(Type::new_var_use(0, TypeBound::Any), TypeBound::Copyable),
        Err(ValidationError::SignatureError {
            cause: SignatureError::TypeVarDoesNotMatchDeclaration { .. },
            ..
        })
    ));
}

#[test]
fn test_extensions_mismatch() {
    // Two wires carrying different single requirements are both wired into
    // an output that requires their union: each edge alone falls short.
    let all_rs = ExtensionSet::new_from_extensions(vec!["A".to_string(), "BOOL_EXT".to_string()]);
    let mut main = Hugr::new(NodeType::new_pure(OpType::FuncDefn {
        name: "main".to_string(),
        signature: mono(
            FunctionType::new_endo(vec![usize_t(), usize_t()]).with_extension_delta(all_rs.clone()),
        ),
    }));
    let root = main.root();
    let inp = main.add_node_with_parent(
        root,
        NodeType::new_pure(OpType::Input { types: vec![usize_t(), usize_t()] }),
    );
    let out = main.add_node_with_parent(
        root,
        NodeType::new(OpType::Output { types: vec![usize_t(), usize_t()] }, all_rs),
    );
    let lift_a = main.add_node_with_parent(
        root,
        NodeType::new_pure(OpType::Lift {
            type_row: vec![usize_t()],
            new_extension: "A".to_string(),
        }),
    );
    let lift_b = main.add_node_with_parent(
        root,
        NodeType::new_pure(OpType::Lift {
            type_row: vec![usize_t()],
            new_extension: "BOOL_EXT".to_string(),
        }),
    );
    main.connect(inp, 0, lift_a, 0);
    main.connect(inp, 1, lift_b, 0);
    main.connect(lift_a, 0, out, 0);
    main.connect(lift_b, 0, out, 1);
    assert!(matches!(
        main.validate(&prelude_registry()),
        Err(ValidationError::TgtExceedsSrcExtensionsAtPort { .. })
    ));
}

#[test]
fn test_no_polymorphic_consts() {
    // A constant whose type mentions a type variable is rejected: constants
    // are monomorphic, whatever scheme encloses them.
    let mut h = closed_dfg_root_hugr(FunctionType::new(vec![bool_t()], vec![bool_t()]));
    let root = h.root();
    let (input, output) = h.get_io(root).unwrap();
    h.connect(input, 0, output, 0);
    let cst = h.add_node_with_parent(
        root,
        NodeType::new_open(OpType::Const(hugr_core::extension::Const {
            datatype: Type::new_var_use(0, TypeBound::Copyable),
        })),
    );
    assert!(matches!(
        h.update_validate(&empty_reg()),
        Err(ValidationError::SignatureError {
            node,
            cause: SignatureError::FreeTypeVar { idx: 0, num_decls: 0 },
        }) if node == cst
    ));
}
