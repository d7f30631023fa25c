//! Tests of the type algebra, kind checking and polymorphic instantiation.

use hugr_core::extension::{Extension, ExtensionRegistry, SignatureError, TypeDef, TypeDefBound};
use hugr_core::signature::{Direction, Port};
use hugr_core::type_param::TypeArgError;
use hugr_core::extension_set::ExtensionSet;
use hugr_core::types::{
    AliasDecl, CustomType, FunctionType, PolyFuncType, SumType, Type, TypeArg, TypeBound,
    TypeParam, UpperBound,
};

fn usize_t() -> Type {
    Type::new_extension(CustomType {
        extension: "prelude".to_string(),
        id: "usize".to_string(),
        args: vec![],
        bound: TypeBound::Eq,
    })
}

fn prelude_registry() -> ExtensionRegistry {
    let mut e = Extension::new("prelude".to_string());
    e.add_type(
        "usize".to_string(),
        vec![],
        "a machine word".to_string(),
        TypeDefBound::Explicit(TypeBound::Eq),
    )
    .unwrap();
    e.add_type(
        "array".to_string(),
        vec![
            TypeParam::Type { b: TypeBound::Any },
            TypeParam::max_nat(),
        ],
        "element and size".to_string(),
        TypeDefBound::Explicit(TypeBound::Any),
    )
    .unwrap();
    let mut reg = ExtensionRegistry::new();
    reg.register(e).unwrap();
    reg
}

fn list_registry() -> ExtensionRegistry {
    let mut e = Extension::new("collections".to_string());
    e.add_type(
        "List".to_string(),
        vec![TypeParam::Type { b: TypeBound::Any }],
        "a list of elements".to_string(),
        TypeDefBound::Explicit(TypeBound::Any),
    )
    .unwrap();
    let mut reg = ExtensionRegistry::new();
    reg.register(e).unwrap();
    reg
}

fn get_type<'a>(reg: &'a ExtensionRegistry, ext: &str, name: &str) -> &'a TypeDef {
    reg.get(&ext.to_string())
        .unwrap()
        .get_type(&name.to_string())
        .unwrap()
}

fn id_fn(t: Type) -> FunctionType {
    FunctionType::new(vec![t.clone()], vec![t])
}

#[test]
fn typebound_union_laws() {
    let bounds = [TypeBound::Eq, TypeBound::Copyable, TypeBound::Any];
    for a in bounds {
        assert_eq!(a.union(a), a);
        assert_eq!(a.union(TypeBound::Any), TypeBound::Any);
        assert_eq!(TypeBound::Any.union(a), TypeBound::Any);
        assert_eq!(a.union(TypeBound::Eq), a);
        assert_eq!(TypeBound::Eq.union(a), a);
        for b in bounds {
            assert_eq!(a.union(b), b.union(a));
            for c in bounds {
                assert_eq!(a.union(b).union(c), a.union(b.union(c)));
            }
        }
    }
}

#[test]
fn types_sum_construct() {
    let pred1 = Type::new_sum(vec![vec![], vec![]]);
    let pred2 = Type::new_unit_sum(2);
    assert_eq!(pred1, pred2);
}

#[test]
fn sum_unit_form() {
    // An all-empty-row list of length at most 255 gives the unit form, and
    // each variant row equals the general form's.
    let s = SumType::new(vec![vec![], vec![], vec![]]);
    assert!(matches!(s, SumType::Unit { size: 3 }));
    assert_eq!(s.num_variants(), 3);
    for tag in 0..3 {
        let row = s.get_variant(tag).unwrap();
        assert_eq!(row.len(), 0);
    }
    assert!(s.get_variant(3).is_none());
    // A nonempty row forces the general form.
    let g = SumType::new(vec![vec![usize_t()]]);
    assert!(matches!(g, SumType::General { .. }));
    assert_eq!(g.num_variants(), 1);
    assert_eq!(g.get_variant(0).unwrap(), vec![usize_t()]);
    let tup = g.as_tuple().unwrap();
    assert_eq!(tup, vec![usize_t()]);
}

#[test]
fn types_construct() {
    let t: Type = Type::new_tuple(vec![
        usize_t(),
        Type::new_function(PolyFuncType::new(vec![], FunctionType::new_endo(vec![]))),
        Type::new_extension(CustomType {
            extension: "my_extension".to_string(),
            id: "my_custom".to_string(),
            args: vec![],
            bound: TypeBound::Copyable,
        }),
        Type::new_alias(AliasDecl { name: "my_alias".to_string(), bound: TypeBound::Eq }),
    ]);
    assert_eq!(t.least_upper_bound(), TypeBound::Copyable);
    assert!(t.copyable());
    assert!(!t.is_row_var());
}

#[test]
fn test_function_type() {
    let f_type = FunctionType::new(vec![Type::new_unit_sum(1)], vec![Type::new_unit_sum(1)]);
    assert_eq!(f_type.input_count(), 1);
    assert_eq!(f_type.output_count(), 1);
    assert_eq!(f_type.input_types(), &vec![Type::new_unit_sum(1)]);
    let pt = f_type.port_type(Port::new(Direction::Incoming, 0)).unwrap();
    assert_eq!(pt, &Type::new_unit_sum(1));
    assert!(f_type.port_type(Port::new(Direction::Incoming, 1)).is_none());
    assert_eq!(f_type.input_ports().len(), 1);
    assert_eq!(f_type.output_ports().len(), 1);
    assert!(!f_type.is_empty());
}

fn new_array(reg: &ExtensionRegistry, ty: Type, s: TypeArg) -> Type {
    let array_def = get_type(reg, "prelude", "array");
    Type::new_extension(array_def.instantiate(vec![TypeArg::Type { ty }, s]).unwrap())
}

const USIZE_N: u64 = 3;

#[test]
fn test_instantiate() {
    let reg = prelude_registry();
    // A scheme over an element type and a size: an array handed in, one
    // element handed out.
    let array_max = PolyFuncType::new(
        vec![TypeParam::Type { b: TypeBound::Any }, TypeParam::max_nat()],
        FunctionType::new(
            vec![new_array(
                &reg,
                Type::new_var_use(0, TypeBound::Any),
                TypeArg::new_var_use(1, TypeParam::max_nat()),
            )],
            vec![Type::new_var_use(0, TypeBound::Any)],
        ),
    );
    let concrete = FunctionType::new(
        vec![new_array(&reg, usize_t(), TypeArg::BoundedNat { n: USIZE_N })],
        vec![usize_t()],
    );
    let actual = array_max
        .instantiate(&vec![
            TypeArg::Type { ty: usize_t() },
            TypeArg::BoundedNat { n: USIZE_N },
        ])
        .unwrap();
    assert_eq!(actual.params(), &vec![]);
    assert_eq!(actual.body(), &concrete);

    // Partial application: the remaining parameter is renumbered downward.
    let partial = PolyFuncType::new(
        vec![TypeParam::max_nat()],
        FunctionType::new(
            vec![new_array(&reg, usize_t(), TypeArg::new_var_use(0, TypeParam::max_nat()))],
            vec![usize_t()],
        ),
    );
    let res = array_max.instantiate(&vec![TypeArg::Type { ty: usize_t() }]).unwrap();
    assert_eq!(res, partial);
}

#[test]
fn poly_func_test_mismatched_args() {
    let reg = prelude_registry();
    let ar_def = get_type(&reg, "prelude", "array");
    let typarams = [TypeParam::Type { b: TypeBound::Any }, TypeParam::max_nat()];
    let tyvar = TypeArg::new_var_use(0, typarams[0].clone());
    let szvar = TypeArg::new_var_use(1, typarams[1].clone());

    // Valid scheme.
    let good_array =
        Type::new_extension(ar_def.instantiate(vec![tyvar.clone(), szvar.clone()]).unwrap());
    let good_ts =
        PolyFuncType::new_validated(typarams.to_vec(), id_fn(good_array), &reg).unwrap();

    // Sanity check: good arguments are accepted.
    good_ts
        .instantiate_all(&vec![
            TypeArg::Type { ty: usize_t() },
            TypeArg::BoundedNat { n: 5 },
        ])
        .unwrap();

    // Swapped arguments are rejected, naming the first mismatch.
    let wrong_args = good_ts.instantiate_all(&vec![
        TypeArg::BoundedNat { n: 5 },
        TypeArg::Type { ty: usize_t() },
    ]);
    assert_eq!(
        wrong_args,
        Err(SignatureError::TypeArgMismatch(TypeArgError::TypeMismatch {
            param: typarams[0].clone(),
            arg: TypeArg::BoundedNat { n: 5 },
        }))
    );

    // A scheme whose body already holds badly-kinded arguments is refused.
    let arg_err = SignatureError::TypeArgMismatch(TypeArgError::TypeMismatch {
        param: typarams[0].clone(),
        arg: szvar.clone(),
    });
    assert_eq!(ar_def.instantiate(vec![szvar.clone(), tyvar.clone()]), Err(arg_err.clone()));
    let bad_array = Type::new_extension(CustomType {
        extension: "prelude".to_string(),
        id: "array".to_string(),
        args: vec![szvar, tyvar],
        bound: TypeBound::Any,
    });
    let bad_ts = PolyFuncType::new_validated(typarams.to_vec(), id_fn(bad_array), &reg);
    assert_eq!(bad_ts.err(), Some(arg_err));
}

#[test]
fn poly_func_test_misused_variables() {
    // The variable in the arguments carries a bound different from each
    // tried declaration.
    let reg = list_registry();
    let list_def = get_type(&reg, "collections", "List");
    let tv = TypeArg::new_var_use(0, TypeParam::Type { b: TypeBound::Copyable });
    let body_type = id_fn(Type::new_extension(list_def.instantiate(vec![tv]).unwrap()));
    for decl in [
        TypeParam::Extensions,
        TypeParam::List { param: Box::new(TypeParam::max_nat()) },
        TypeParam::Opaque {
            ty: CustomType {
                extension: "prelude".to_string(),
                id: "usize".to_string(),
                args: vec![],
                bound: TypeBound::Eq,
            },
        },
        TypeParam::Tuple {
            params: vec![TypeParam::Type { b: TypeBound::Any }, TypeParam::max_nat()],
        },
    ] {
        let invalid_ts =
            PolyFuncType::new_validated(vec![decl.clone()], body_type.clone(), &reg);
        assert_eq!(
            invalid_ts.err(),
            Some(SignatureError::TypeVarDoesNotMatchDeclaration {
                cached: TypeParam::Type { b: TypeBound::Copyable },
                actual: decl,
            })
        );
    }
    // A variable that was never declared at all.
    let invalid_ts = PolyFuncType::new_validated(vec![], body_type, &reg);
    assert_eq!(
        invalid_ts.err(),
        Some(SignatureError::FreeTypeVar { idx: 0, num_decls: 0 })
    );
}

fn decl_accepts_rejects_var(
    bound: TypeParam,
    accepted: &[TypeParam],
    rejected: &[TypeParam],
) {
    let mut e = Extension::new("my_ext".to_string());
    e.add_type(
        "MyType".to_string(),
        vec![bound.clone()],
        "".to_string(),
        TypeDefBound::Explicit(TypeBound::Any),
    )
    .unwrap();
    let mut reg = ExtensionRegistry::new();
    reg.register(e).unwrap();
    for decl in accepted {
        let ts = PolyFuncType::new_validated(
            vec![decl.clone()],
            id_fn(Type::new_extension(CustomType {
                extension: "my_ext".to_string(),
                id: "MyType".to_string(),
                args: vec![TypeArg::new_var_use(0, decl.clone())],
                bound: TypeBound::Any,
            })),
            &reg,
        );
        assert!(ts.is_ok());
    }
    for decl in rejected {
        let ts = PolyFuncType::new_validated(
            vec![decl.clone()],
            id_fn(Type::new_extension(CustomType {
                extension: "my_ext".to_string(),
                id: "MyType".to_string(),
                args: vec![TypeArg::new_var_use(0, decl.clone())],
                bound: TypeBound::Any,
            })),
            &reg,
        );
        assert_eq!(
            ts.err(),
            Some(SignatureError::TypeArgMismatch(TypeArgError::TypeMismatch {
                param: bound.clone(),
                arg: TypeArg::new_var_use(0, decl.clone()),
            }))
        );
    }
}

#[test]
fn poly_func_test_bound_covariance() {
    decl_accepts_rejects_var(
        TypeParam::Type { b: TypeBound::Copyable },
        &[
            TypeParam::Type { b: TypeBound::Copyable },
            TypeParam::Type { b: TypeBound::Eq },
        ],
        &[TypeParam::Type { b: TypeBound::Any }],
    );
    let list_of_tys = |b: TypeBound| TypeParam::List {
        param: Box::new(TypeParam::Type { b }),
    };
    decl_accepts_rejects_var(
        list_of_tys(TypeBound::Copyable),
        &[list_of_tys(TypeBound::Copyable), list_of_tys(TypeBound::Eq)],
        &[list_of_tys(TypeBound::Any)],
    );
    decl_accepts_rejects_var(
        TypeParam::max_nat(),
        &[TypeParam::bounded_nat(5)],
        &[],
    );
    decl_accepts_rejects_var(
        TypeParam::bounded_nat(10),
        &[TypeParam::bounded_nat(5)],
        &[TypeParam::max_nat()],
    );
    // Covariance of natural-number bounds directly.
    assert!(matches!(
        TypeParam::bounded_nat(5),
        TypeParam::BoundedNat { bound: UpperBound::UpTo(5) }
    ));
}

fn new_pf1(param: TypeParam, input: Type, output: Type) -> PolyFuncType {
    PolyFuncType::new(vec![param], FunctionType::new(vec![input], vec![output]))
}

#[test]
fn substitute_under_binder() {
    // The scheme: forall A. A -> (forall C. C -> List((C, A))).
    let reg = list_registry();
    let list_def = get_type(&reg, "collections", "List");
    let list_of_tup = |t1: Type, t2: Type| {
        Type::new_extension(
            list_def
                .instantiate(vec![TypeArg::Type { ty: Type::new_tuple(vec![t1, t2]) }])
                .unwrap(),
        )
    };
    let pf = PolyFuncType::new(
        vec![TypeParam::Type { b: TypeBound::Any }],
        FunctionType::new(
            vec![Type::new_var_use(0, TypeBound::Any)],
            vec![Type::new_function(new_pf1(
                TypeParam::Type { b: TypeBound::Copyable },
                Type::new_var_use(0, TypeBound::Copyable),
                list_of_tup(
                    Type::new_var_use(0, TypeBound::Copyable),
                    // The outer variable, renumbered past the inner binder.
                    Type::new_var_use(1, TypeBound::Any),
                ),
            ))],
        ),
    );

    // Substitute in a free variable from an enclosing scope: under the inner
    // binder it must come out renumbered, while the inner variable stays.
    let free_idx = 3;
    let tp_eq = TypeParam::Type { b: TypeBound::Eq };
    let res = pf
        .instantiate_all(&vec![TypeArg::new_var_use(free_idx, tp_eq.clone())])
        .unwrap();
    assert_eq!(
        res,
        FunctionType::new(
            vec![Type::new_var_use(free_idx, TypeBound::Eq)],
            vec![Type::new_function(new_pf1(
                TypeParam::Type { b: TypeBound::Copyable },
                Type::new_var_use(0, TypeBound::Copyable),
                list_of_tup(
                    Type::new_var_use(0, TypeBound::Copyable),
                    Type::new_var_use(free_idx + 1, TypeBound::Eq),
                ),
            ))],
        )
    );
}

#[test]
fn test_type_apply_nested() {
    let reg = prelude_registry();
    let inner_var = Type::new_var_use(0, TypeBound::Any);
    // forall A. (array(A, <free natural>) -> A), under an outer forall N.
    let inner = PolyFuncType::new(
        vec![TypeParam::Type { b: TypeBound::Any }],
        FunctionType::new(
            vec![new_array(
                &reg,
                inner_var.clone(),
                TypeArg::new_var_use(1, TypeParam::max_nat()),
            )],
            vec![inner_var.clone()],
        ),
    );
    let outer = PolyFuncType::new(
        vec![TypeParam::max_nat()],
        FunctionType::new(vec![], vec![Type::new_function(inner)]),
    );

    // The substitution must land on the outer variable, not the inner one.
    let outer_applied = FunctionType::new(
        vec![],
        vec![Type::new_function(PolyFuncType::new(
            vec![TypeParam::Type { b: TypeBound::Any }],
            FunctionType::new(
                vec![new_array(&reg, inner_var.clone(), TypeArg::BoundedNat { n: 5 })],
                vec![inner_var.clone()],
            ),
        ))],
    );
    let res = outer.instantiate_all(&vec![TypeArg::BoundedNat { n: 5 }]).unwrap();
    assert_eq!(res, outer_applied);
}

#[test]
fn empty_substitution_is_identity() {
    // Substitution with an empty argument list leaves a zero-parameter
    // scheme's body unchanged.
    let reg = prelude_registry();
    let body = FunctionType::new(
        vec![usize_t(), Type::new_unit_sum(2)],
        vec![new_array(&reg, usize_t(), TypeArg::BoundedNat { n: 4 })],
    );
    let pf = PolyFuncType::new_validated(vec![], body.clone(), &reg).unwrap();
    let res = pf.instantiate_all(&vec![]).unwrap();
    assert_eq!(res, body);
}

#[test]
fn closed_instantiation_leaves_no_variables() {
    // Instantiating a closed scheme with closed arguments leaves no
    // variable of the instantiated scope in the result.
    let reg = prelude_registry();
    let scheme = PolyFuncType::new_validated(
        vec![TypeParam::Type { b: TypeBound::Any }, TypeParam::max_nat()],
        FunctionType::new(
            vec![new_array(
                &reg,
                Type::new_var_use(0, TypeBound::Any),
                TypeArg::new_var_use(1, TypeParam::max_nat()),
            )],
            vec![Type::new_var_use(0, TypeBound::Any)],
        ),
        &reg,
    )
    .unwrap();
    let res = scheme
        .instantiate_all(&vec![
            TypeArg::Type { ty: usize_t() },
            TypeArg::BoundedNat { n: 7 },
        ])
        .unwrap();
    // The result must validate against zero declarations: no free variables.
    let closed = PolyFuncType::new_validated(vec![], res, &reg);
    assert!(closed.is_ok());
}

#[test]
fn test_float_ops_extension() {
    let r = hugr_core::float_ops::extension();
    assert_eq!(r.name(), &"arithmetic.float".to_string());
    assert_eq!(r.types.len(), 0);
    assert_eq!(r.operations.len(), 16);
    for op in &r.operations {
        assert!(op.name.starts_with('f'));
    }
    // The computed signatures have the advertised shapes.
    let feq = r
        .instantiate_extension_op(&"feq".to_string(), &vec![])
        .unwrap();
    assert_eq!(feq.input_count(), 2);
    assert_eq!(feq.output_count(), 1);
    assert_eq!(feq.output_types()[0], hugr_core::float_ops::bool_t());
    let fadd = r
        .instantiate_extension_op(&"fadd".to_string(), &vec![])
        .unwrap();
    assert_eq!(fadd.input_count(), 2);
    assert_eq!(fadd.output_types()[0], hugr_core::float_ops::float64_type());
    assert!(r
        .instantiate_extension_op(&"missing".to_string(), &vec![])
        .is_err());
}

#[test]
fn bound_from_params() {
    // A definition computing its bound from a parameter takes the least
    // upper bound of the type arguments at the listed positions.
    let mut e = Extension::new("wrap".to_string());
    e.add_type(
        "Box".to_string(),
        vec![TypeParam::Type { b: TypeBound::Any }],
        "one element".to_string(),
        TypeDefBound::FromParams(vec![0]),
    )
    .unwrap();
    let mut reg = ExtensionRegistry::new();
    reg.register(e).unwrap();
    let box_def = get_type(&reg, "wrap", "Box");
    let of_usize = box_def.instantiate(vec![TypeArg::Type { ty: usize_t() }]).unwrap();
    assert_eq!(of_usize.bound, TypeBound::Eq);
    let of_fun = box_def
        .instantiate(vec![TypeArg::Type {
            ty: Type::new_function(PolyFuncType::new(vec![], FunctionType::new_endo(vec![]))),
        }])
        .unwrap();
    assert_eq!(of_fun.bound, TypeBound::Copyable);
}

#[test]
fn extension_set_operations() {
    let a = ExtensionSet::singleton(&"A".to_string());
    let mut ab = ExtensionSet::new();
    ab.insert(&"A".to_string());
    ab.insert(&"B".to_string());
    assert!(a.is_subset(&ab));
    assert!(ab.is_superset(&a));
    assert!(!ab.is_subset(&a));
    let union = a.clone().union(&ab);
    assert!(union == ab);
    let missing = a.missing_from(&ab);
    assert!(missing.contains(&"B".to_string()));
    assert!(!missing.contains(&"A".to_string()));
    assert!(ExtensionSet::new().is_empty());
    assert!(!ab.is_empty());
    let tv = ExtensionSet::type_var(2);
    assert!(!tv.contains(&"A".to_string()));
}

#[test]
fn row_variable_expansion() {
    // A row variable expands to the flattening of its list argument: the
    // only construct producing a variable-length result.
    let scheme = PolyFuncType::new(
        vec![TypeParam::new_list(TypeBound::Any)],
        FunctionType::new(
            vec![Type::new_row_var_use(0, TypeBound::Any)],
            vec![Type::new_row_var_use(0, TypeBound::Any)],
        ),
    );
    let args = vec![TypeArg::Sequence {
        elems: vec![
            TypeArg::Type { ty: usize_t() },
            TypeArg::Type { ty: Type::new_unit_sum(2) },
        ],
    }];
    let res = scheme.instantiate_all(&args).unwrap();
    assert_eq!(
        res,
        FunctionType::new(
            vec![usize_t(), Type::new_unit_sum(2)],
            vec![usize_t(), Type::new_unit_sum(2)],
        )
    );
    // An empty list argument expands to an empty row.
    let res = scheme
        .instantiate_all(&vec![TypeArg::Sequence { elems: vec![] }])
        .unwrap();
    assert_eq!(res, FunctionType::new(vec![], vec![]));
}
