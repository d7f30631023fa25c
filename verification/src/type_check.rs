//! Validation of types against a registry and a variable scope.
//!
//! A type-system value may be built freely; validating it against an
//! extension registry and the declarations in scope is a separate, explicit
//! step that must precede trusting its cached bounds and shapes.

use vstd::prelude::*;
use crate::extension::{
    def_bound_spec, find_ext, find_typedef, Extension, ExtensionRegistry, SignatureError,
};
use crate::extension_set::{lemma_members_contains, ExtItem, ExtItemSpec, ExtensionSet};
use crate::type_param::{args_fit, check_type_args};
use crate::types::param_eq;
use crate::types::{
    args_view, arg_view, custom_view, functype_view, lemma_args_view, lemma_params_view,
    lemma_row_view, lemma_rows_view, param_view, params_view, poly_view, row_view, rows_view,
    type_view, wf_arg, wf_args, wf_custom, wf_functype, wf_param, wf_params, wf_poly, wf_row,
    wf_rows, wf_type, CustomType, CustomTypeSpec, FuncTypeSpec, FunctionType, PolyFuncSpec,
    PolyFuncType, SumType, SumTypeSpec, Type, TypeArg, TypeArgSpec, TypeEnum, TypeParam,
    TypeParamSpec, TypeRow, TypeSpec,
};

verus! {

// ------------------------------------------------------------------
// What it means to be valid
// ------------------------------------------------------------------
/// A type is valid against a registry and a scope when every variable use
/// matches its declaration, row variables appear only where allowed, and
/// every custom type resolves in the registry to a definition whose
/// parameters its arguments fit, with the stored bound equal to the computed
/// one.
pub open spec fn valid_type(
    t: TypeSpec,
    allow_rv: bool,
    reg: ExtensionRegistry,
    decls: Seq<TypeParamSpec>,
) -> bool
    decreases t, 1int,
{
    match t {
        TypeSpec::Extension(c) => valid_custom(c, reg, decls),
        TypeSpec::Alias(_, _) => true,
        TypeSpec::Function(pf) => valid_poly(*pf, reg, decls),
        TypeSpec::Variable(i, b) => i < decls.len() && decls[i as int] == TypeParamSpec::Type(b),
        TypeSpec::RowVariable(i, b) => allow_rv && i < decls.len() && decls[i as int]
            == TypeParamSpec::List(Box::new(TypeParamSpec::Type(b))),
        TypeSpec::Sum(SumTypeSpec::Unit(_)) => true,
        TypeSpec::Sum(SumTypeSpec::General(rows)) => valid_rows(
            rows,
            reg,
            decls,
            rows.len() as int,
        ),
    }
}

/// The first `n` rows are valid; row variables are allowed inside rows.
pub open spec fn valid_rows(
    rows: Seq<Seq<TypeSpec>>,
    reg: ExtensionRegistry,
    decls: Seq<TypeParamSpec>,
    n: int,
) -> bool
    decreases rows, n,
{
    n <= 0 || n > rows.len() || (valid_rows(rows, reg, decls, n - 1) && valid_row(
        rows[n - 1],
        reg,
        decls,
        rows[n - 1].len() as int,
    ))
}

/// The first `n` types of a row are valid; each may be a row variable.
pub open spec fn valid_row(
    row: Seq<TypeSpec>,
    reg: ExtensionRegistry,
    decls: Seq<TypeParamSpec>,
    n: int,
) -> bool
    decreases row, n,
{
    n <= 0 || n > row.len() || (valid_row(row, reg, decls, n - 1) && valid_type(
        row[n - 1],
        true,
        reg,
        decls,
    ))
}

/// A custom type is valid: its arguments are valid, its extension and
/// definition resolve, the arguments fit the declared parameters, and the
/// stored bound equals the one the definition computes.
pub open spec fn valid_custom(
    c: CustomTypeSpec,
    reg: ExtensionRegistry,
    decls: Seq<TypeParamSpec>,
) -> bool
    decreases c, 1int,
{
    valid_args(c.args, reg, decls, c.args.len() as int) && match find_ext(
        reg.extensions@,
        c.extension,
    ) {
        None => false,
        Some(e) => match find_typedef(e.types@, c.id) {
            None => false,
            Some(def) => args_fit(c.args, params_view(def.params)) && c.bound == def_bound_spec(
                def.bound,
                c.args,
            ),
        },
    }
}

/// The first `n` arguments are valid.
pub open spec fn valid_args(
    v: Seq<TypeArgSpec>,
    reg: ExtensionRegistry,
    decls: Seq<TypeParamSpec>,
    n: int,
) -> bool
    decreases v, n,
{
    n <= 0 || n > v.len() || (valid_args(v, reg, decls, n - 1) && valid_arg(
        v[n - 1],
        reg,
        decls,
    ))
}

/// One argument is valid.
pub open spec fn valid_arg(
    a: TypeArgSpec,
    reg: ExtensionRegistry,
    decls: Seq<TypeParamSpec>,
) -> bool
    decreases a, 1int,
{
    match a {
        TypeArgSpec::Type(t) => valid_type(t, true, reg, decls),
        TypeArgSpec::BoundedNat(_) => true,
        TypeArgSpec::Sequence(elems) => valid_args(elems, reg, decls, elems.len() as int),
        TypeArgSpec::Extensions(es) => valid_set(es, decls),
        TypeArgSpec::Variable(i, cached) => i < decls.len() && decls[i as int] == cached,
    }
}

/// An extension set is valid when every type-variable member was declared
/// with the `Extensions` kind.
pub open spec fn valid_set(es: Set<ExtItemSpec>, decls: Seq<TypeParamSpec>) -> bool {
    forall|x: ExtItemSpec| es.contains(x) ==> match x {
        ExtItemSpec::Ext(_) => true,
        ExtItemSpec::Var(i) => i < decls.len() && decls[i as int] == TypeParamSpec::Extensions,
    }
}

/// A function type is valid; its rows may contain row variables, since a
/// function value may be passed around without knowing its arity.
pub open spec fn valid_functype(
    f: FuncTypeSpec,
    reg: ExtensionRegistry,
    decls: Seq<TypeParamSpec>,
) -> bool
    decreases f, 1int,
{
    valid_row(f.input, reg, decls, f.input.len() as int) && valid_row(
        f.output,
        reg,
        decls,
        f.output.len() as int,
    ) && valid_set(f.exts, decls)
}

/// A polymorphic function type is valid: its body is valid against its own
/// parameters, at the lowest indices, followed by the enclosing scope's.
pub open spec fn valid_poly(
    p: PolyFuncSpec,
    reg: ExtensionRegistry,
    decls: Seq<TypeParamSpec>,
) -> bool
    decreases p, 1int,
{
    valid_functype(p.body, reg, p.params + decls)
}

/// The prefix form of row validity says the same as the pointwise one.
pub proof fn lemma_valid_row(
    row: Seq<TypeSpec>,
    reg: ExtensionRegistry,
    decls: Seq<TypeParamSpec>,
    n: int,
)
    requires
        0 <= n <= row.len(),
    ensures
        valid_row(row, reg, decls, n) == (forall|i: int|
            0 <= i < n ==> valid_type(#[trigger] row[i], true, reg, decls)),
    decreases n,
{
    if n > 0 {
        lemma_valid_row(row, reg, decls, n - 1);
    }
}

/// The prefix form of rows validity says the same as the pointwise one.
pub proof fn lemma_valid_rows(
    rows: Seq<Seq<TypeSpec>>,
    reg: ExtensionRegistry,
    decls: Seq<TypeParamSpec>,
    n: int,
)
    requires
        0 <= n <= rows.len(),
    ensures
        valid_rows(rows, reg, decls, n) == (forall|i: int|
            0 <= i < n ==> valid_row(#[trigger] rows[i], reg, decls, rows[i].len() as int)),
    decreases n,
{
    if n > 0 {
        lemma_valid_rows(rows, reg, decls, n - 1);
    }
}

/// The prefix form of argument validity says the same as the pointwise one.
pub proof fn lemma_valid_args(
    v: Seq<TypeArgSpec>,
    reg: ExtensionRegistry,
    decls: Seq<TypeParamSpec>,
    n: int,
)
    requires
        0 <= n <= v.len(),
    ensures
        valid_args(v, reg, decls, n) == (forall|i: int|
            0 <= i < n ==> valid_arg(#[trigger] v[i], reg, decls)),
    decreases n,
{
    if n > 0 {
        lemma_valid_args(v, reg, decls, n - 1);
    }
}

// ------------------------------------------------------------------
// Executable checks
// ------------------------------------------------------------------
/// Check that a variable use at the given index matches its declaration:
/// out of range is a free variable, and the kind carried at the use site
/// must equal the declared kind exactly, since the use-site copy just
/// mirrors the declaration.
pub fn check_typevar_decl(
    decls: &Vec<TypeParam>,
    idx: usize,
    cached_decl: &TypeParam,
) -> (r: Result<(), SignatureError>)
    ensures
        (r is Ok) == (idx < decls@.len() && params_view(*decls)[idx as int] == param_view(
            *cached_decl,
        )),
        idx >= decls@.len() ==> (r matches Err(e) && (e matches SignatureError::FreeTypeVar {
            idx: i,
            num_decls,
        } && i == idx && num_decls == decls@.len())),
        idx < decls@.len() && params_view(*decls)[idx as int] != param_view(*cached_decl) ==> (
        r matches Err(e) && (e matches SignatureError::TypeVarDoesNotMatchDeclaration {
            cached,
            actual,
        } && param_view(cached) == param_view(*cached_decl) && param_view(actual) == params_view(
            *decls,
        )[idx as int])),
{
    proof {
        lemma_params_view(*decls);
    }
    if idx >= decls.len() {
        return Err(SignatureError::FreeTypeVar { idx, num_decls: decls.len() });
    }
    if param_eq(&decls[idx], cached_decl) {
        Ok(())
    } else {
        Err(SignatureError::TypeVarDoesNotMatchDeclaration {
            cached: cached_decl.clone(),
            actual: decls[idx].clone(),
        })
    }
}

impl CustomType {
    /// Check the custom type against the registry and the declarations in
    /// scope: the arguments are valid, the owning extension and definition
    /// resolve, the arguments fit the declared parameters, and the stored
    /// bound equals the computed one — a consistency check against a cache,
    /// so stale caches are detected rather than silently fixed.
    pub fn validate(&self, reg: &ExtensionRegistry, var_decls: &Vec<TypeParam>) -> (r: Result<
        (),
        SignatureError,
    >)
        requires
            wf_custom(*self),
        ensures
            (r is Ok) == valid_custom(custom_view(*self), *reg, params_view(*var_decls)),
            valid_args(
                custom_view(*self).args,
                *reg,
                params_view(*var_decls),
                custom_view(*self).args.len() as int,
            ) ==> {
                let cv = custom_view(*self);
                &&& (find_ext(reg.extensions@, cv.extension) is None ==> (r matches Err(e) && (
                e matches SignatureError::ExtensionNotFound(x) && x@ == cv.extension)))
                &&& (find_ext(reg.extensions@, cv.extension) matches Some(ext) ==> {
                    &&& (find_typedef(ext.types@, cv.id) is None ==> (r matches Err(e) && (
                    e matches SignatureError::ExtensionTypeNotFound { exn, typ } && exn@
                        == cv.extension && typ@ == cv.id)))
                    &&& (find_typedef(ext.types@, cv.id) matches Some(def) ==> {
                        &&& (!args_fit(cv.args, params_view(def.params)) ==> (r matches Err(e)
                            && (e matches SignatureError::TypeArgMismatch(inner)
                            && crate::type_param::args_report_ok(
                            inner,
                            cv.args,
                            params_view(def.params),
                        ))))
                        &&& (args_fit(cv.args, params_view(def.params)) && cv.bound
                            != crate::extension::def_bound_spec(def.bound, cv.args) ==> (
                        r matches Err(e) && (e matches SignatureError::WrongBound {
                            actual,
                            expected,
                        } && actual == cv.bound && expected == crate::extension::def_bound_spec(
                            def.bound,
                            cv.args,
                        ))))
                    })
                })
            },
        decreases self,
    {
        proof {
            lemma_args_view(self.args);
            assert(custom_view(*self) == CustomTypeSpec {
                extension: self.extension@,
                id: self.id@,
                args: args_view(self.args),
                bound: self.bound,
            });
        }
        validate_args(&self.args, reg, var_decls)?;
        let ext = match reg.get(&self.extension) {
            Some(e) => e,
            None => {
                return Err(SignatureError::ExtensionNotFound(self.extension.clone()));
            },
        };
        let def = match ext.get_type(&self.id) {
            Some(d) => d,
            None => {
                return Err(SignatureError::ExtensionTypeNotFound {
                    exn: self.extension.clone(),
                    typ: self.id.clone(),
                });
            },
        };
        match check_type_args(&self.args, &def.params) {
            Ok(()) => {},
            Err(e) => {
                return Err(SignatureError::TypeArgMismatch(e));
            },
        }
        let expected = def.compute_bound(&self.args);
        if self.bound != expected {
            return Err(SignatureError::WrongBound { actual: self.bound, expected });
        }
        Ok(())
    }
}

impl Type {
    /// Check all variables used in the type against the declarations in
    /// scope, rejecting row variables where `allow_row_vars` is false, and
    /// check every nested custom type against the registry.
    pub fn validate(
        &self,
        allow_row_vars: bool,
        extension_registry: &ExtensionRegistry,
        var_decls: &Vec<TypeParam>,
    ) -> (r: Result<(), SignatureError>)
        requires
            wf_type(*self),
        ensures
            (r is Ok) == valid_type(
                type_view(*self),
                allow_row_vars,
                *extension_registry,
                params_view(*var_decls),
            ),
            type_view(*self) matches TypeSpec::RowVariable(i, b) ==> (!allow_row_vars ==> (
            r matches Err(e) && (e matches SignatureError::RowVarWhereTypeExpected { idx } && idx
                as nat == i))),
            type_view(*self) matches TypeSpec::Variable(i, b) ==> (i >= params_view(
                *var_decls,
            ).len() ==> (r matches Err(e) && (e matches SignatureError::FreeTypeVar {
                idx,
                num_decls,
            } && idx as nat == i && num_decls == var_decls@.len()))),
            type_view(*self) matches TypeSpec::Variable(i, b) ==> (i < params_view(
                *var_decls,
            ).len() && params_view(*var_decls)[i as int] != TypeParamSpec::Type(b) ==> (
            r matches Err(e) && (e matches SignatureError::TypeVarDoesNotMatchDeclaration {
                cached,
                actual,
            } && param_view(cached) == TypeParamSpec::Type(b) && param_view(actual) == params_view(
                *var_decls,
            )[i as int]))),
        decreases self,
    {
        proof {
            lemma_params_view(*var_decls);
            reveal_with_fuel(valid_type, 2);
        }
        match &self.e {
            TypeEnum::Extension(c) => {
                proof {
                    assert(type_view(*self) == TypeSpec::Extension(custom_view(*c)));
                }
                let r = c.validate(extension_registry, var_decls);
                proof {
                    assert((r is Ok) == valid_type(
                        type_view(*self),
                        allow_row_vars,
                        *extension_registry,
                        params_view(*var_decls),
                    ));
                }
                r
            },
            TypeEnum::Alias(a) => {
                proof {
                    assert(type_view(*self) == TypeSpec::Alias(a.name@, a.bound));
                }
                Ok(())
            },
            TypeEnum::Function(pf) => {
                proof {
                    assert(type_view(*self) == TypeSpec::Function(
                        Box::new(poly_view(**pf)),
                    ));
                }
                let r = pf.validate(extension_registry, var_decls);
                proof {
                    assert((r is Ok) == valid_type(
                        type_view(*self),
                        allow_row_vars,
                        *extension_registry,
                        params_view(*var_decls),
                    ));
                }
                r
            },
            TypeEnum::Variable(idx, b) => {
                proof {
                    assert(param_view(TypeParam::Type { b: *b }) == TypeParamSpec::Type(*b));
                    assert(type_view(*self) == TypeSpec::Variable(*idx as nat, *b));
                }
                let r = check_typevar_decl(var_decls, *idx, &TypeParam::Type { b: *b });
                proof {
                    assert((r is Ok) == valid_type(
                        type_view(*self),
                        allow_row_vars,
                        *extension_registry,
                        params_view(*var_decls),
                    ));
                }
                r
            },
            TypeEnum::RowVariable(idx, b) => {
                proof {
                    assert(type_view(*self) == TypeSpec::RowVariable(*idx as nat, *b));
                }
                if allow_row_vars {
                    let r = check_typevar_decl(
                        var_decls,
                        *idx,
                        &TypeParam::new_list(*b),
                    );
                    proof {
                        assert(param_view(TypeParam::Type { b: *b }) == TypeParamSpec::Type(*b));
                    }
                    match r {
                        Ok(()) => Ok(()),
                        Err(e) => Err(e),
                    }
                } else {
                    Err(SignatureError::RowVarWhereTypeExpected { idx: *idx })
                }
            },
            TypeEnum::Sum(SumType::Unit { size }) => {
                proof {
                    assert(type_view(*self) == TypeSpec::Sum(SumTypeSpec::Unit(*size as nat)));
                }
                Ok(())
            },
            TypeEnum::Sum(SumType::General { rows }) => {
                proof {
                    lemma_rows_view(*rows);
                    assert(type_view(*self) == TypeSpec::Sum(
                        SumTypeSpec::General(rows_view(*rows)),
                    ));
                }
                let r = validate_rows(rows, extension_registry, var_decls);
                proof {
                    assert((r is Ok) == valid_type(
                        type_view(*self),
                        allow_row_vars,
                        *extension_registry,
                        params_view(*var_decls),
                    ));
                }
                r
            },
        }
    }
}

/// Validate every row of a list of rows; elements may be row variables.
pub fn validate_rows(
    rows: &Vec<TypeRow>,
    reg: &ExtensionRegistry,
    var_decls: &Vec<TypeParam>,
) -> (r: Result<(), SignatureError>)
    requires
        wf_rows(*rows),
    ensures
        (r is Ok) == valid_rows(rows_view(*rows), *reg, params_view(*var_decls), rows@.len() as int),
    decreases rows,
{
    let ghost vm = rows_view(*rows);
    proof {
        lemma_rows_view(*rows);
    }
    let mut i: usize = 0;
    while i < rows.len()
        invariant
            wf_rows(*rows),
            i <= rows@.len(),
            vm == rows_view(*rows),
            vm.len() == rows@.len(),
            forall|j: int| 0 <= j < rows@.len() ==> vm[j] == row_view(rows@[j]),
            valid_rows(vm, *reg, params_view(*var_decls), i as int),
        decreases rows@.len() - i,
    {
        proof {
            assert forall|k: int| 0 <= k < rows@[i as int]@.len() implies wf_type(
                #[trigger] rows@[i as int]@[k],
            ) by {}
            lemma_row_view(rows@[i as int]);
        }
        match validate_row(&rows[i], reg, var_decls) {
            Ok(()) => {},
            Err(e) => {
                proof {
                    lemma_valid_rows(vm, *reg, params_view(*var_decls), vm.len() as int);
                    assert(!valid_row(vm[i as int], *reg, params_view(*var_decls), vm[i as int].len() as int));
                }
                return Err(e);
            },
        }
        i += 1;
    }
    Ok(())
}

/// Validate every type of a row; elements may be row variables.
pub fn validate_row(
    row: &TypeRow,
    reg: &ExtensionRegistry,
    var_decls: &Vec<TypeParam>,
) -> (r: Result<(), SignatureError>)
    requires
        wf_row(*row),
    ensures
        (r is Ok) == valid_row(row_view(*row), *reg, params_view(*var_decls), row@.len() as int),
    decreases row,
{
    let ghost vm = row_view(*row);
    proof {
        lemma_row_view(*row);
    }
    let mut i: usize = 0;
    while i < row.len()
        invariant
            wf_row(*row),
            i <= row@.len(),
            vm == row_view(*row),
            vm.len() == row@.len(),
            forall|j: int| 0 <= j < row@.len() ==> vm[j] == type_view(row@[j]),
            valid_row(vm, *reg, params_view(*var_decls), i as int),
        decreases row@.len() - i,
    {
        match row[i].validate(true, reg, var_decls) {
            Ok(()) => {},
            Err(e) => {
                proof {
                    lemma_valid_row(vm, *reg, params_view(*var_decls), vm.len() as int);
                    assert(!valid_type(vm[i as int], true, *reg, params_view(*var_decls)));
                }
                return Err(e);
            },
        }
        i += 1;
    }
    Ok(())
}

/// Validate every argument of a list.
pub fn validate_args(
    v: &Vec<TypeArg>,
    reg: &ExtensionRegistry,
    var_decls: &Vec<TypeParam>,
) -> (r: Result<(), SignatureError>)
    requires
        wf_args(*v),
    ensures
        (r is Ok) == valid_args(args_view(*v), *reg, params_view(*var_decls), v@.len() as int),
    decreases v,
{
    let ghost vm = args_view(*v);
    proof {
        lemma_args_view(*v);
    }
    let mut i: usize = 0;
    while i < v.len()
        invariant
            wf_args(*v),
            i <= v@.len(),
            vm == args_view(*v),
            vm.len() == v@.len(),
            forall|j: int| 0 <= j < v@.len() ==> vm[j] == arg_view(v@[j]),
            valid_args(vm, *reg, params_view(*var_decls), i as int),
        decreases v@.len() - i,
    {
        match validate_arg(&v[i], reg, var_decls) {
            Ok(()) => {},
            Err(e) => {
                proof {
                    lemma_valid_args(vm, *reg, params_view(*var_decls), vm.len() as int);
                    assert(!valid_arg(vm[i as int], *reg, params_view(*var_decls)));
                }
                return Err(e);
            },
        }
        i += 1;
    }
    Ok(())
}

/// Validate one argument.
pub fn validate_arg(
    a: &TypeArg,
    reg: &ExtensionRegistry,
    var_decls: &Vec<TypeParam>,
) -> (r: Result<(), SignatureError>)
    requires
        wf_arg(*a),
    ensures
        (r is Ok) == valid_arg(arg_view(*a), *reg, params_view(*var_decls)),
    decreases a,
{
    proof {
        reveal_with_fuel(valid_arg, 2);
    }
    match a {
        TypeArg::Type { ty } => {
            proof {
                assert(arg_view(*a) == TypeArgSpec::Type(type_view(*ty)));
            }
            let r = ty.validate(true, reg, var_decls);
            proof {
                assert((r is Ok) == valid_arg(arg_view(*a), *reg, params_view(*var_decls)));
            }
            r
        },
        TypeArg::BoundedNat { n } => {
            proof {
                assert(arg_view(*a) == TypeArgSpec::BoundedNat(*n));
            }
            Ok(())
        },
        TypeArg::Sequence { elems } => {
            proof {
                crate::types::lemma_wf_arg_sequence(*elems);
                lemma_args_view(*elems);
                assert(arg_view(*a) == TypeArgSpec::Sequence(args_view(*elems)));
            }
            let r = validate_args(elems, reg, var_decls);
            proof {
                assert((r is Ok) == valid_arg(arg_view(*a), *reg, params_view(*var_decls)));
            }
            r
        },
        TypeArg::Extensions { es } => {
            proof {
                assert(arg_view(*a) == TypeArgSpec::Extensions(es@));
            }
            let r = es.validate(var_decls);
            proof {
                assert((r is Ok) == valid_arg(arg_view(*a), *reg, params_view(*var_decls)));
            }
            r
        },
        TypeArg::Variable { idx, cached_decl } => {
            proof {
                assert(arg_view(*a) == TypeArgSpec::Variable(
                    *idx as nat,
                    param_view(*cached_decl),
                ));
            }
            let r = check_typevar_decl(var_decls, *idx, cached_decl);
            proof {
                lemma_params_view(*var_decls);
                assert((r is Ok) == valid_arg(arg_view(*a), *reg, params_view(*var_decls)));
            }
            r
        },
    }
}

impl ExtensionSet {
    /// Check that every type-variable member of the set was declared with
    /// the `Extensions` kind.
    pub fn validate(&self, params: &Vec<TypeParam>) -> (r: Result<(), SignatureError>)
        ensures
            (r is Ok) == valid_set(self@, params_view(*params)),
    {
        proof {
            lemma_params_view(*params);
            assert(param_view(TypeParam::Extensions) == TypeParamSpec::Extensions);
        }
        let mut i: usize = 0;
        while i < self.items.len()
            invariant
                i <= self.items@.len(),
                param_view(TypeParam::Extensions) == TypeParamSpec::Extensions,
                params_view(*params).len() == params@.len(),
                forall|j: int| 0 <= j < i ==> match #[trigger] self.items@[j]@ {
                    ExtItemSpec::Ext(_) => true,
                    ExtItemSpec::Var(k) => k < params_view(*params).len() && params_view(*params)[
                        k as int
                    ] == TypeParamSpec::Extensions,
                },
            decreases self.items@.len() - i,
        {
            match &self.items[i] {
                ExtItem::Ext(id) => {
                    proof {
                        assert(self.items@[i as int]@ == ExtItemSpec::Ext(id@));
                    }
                },
                ExtItem::Var(idx) => {
                    proof {
                        assert(self.items@[i as int]@ == ExtItemSpec::Var(*idx as nat));
                    }
                    match check_typevar_decl(params, *idx, &TypeParam::Extensions) {
                        Ok(()) => {},
                        Err(e) => {
                            proof {
                                lemma_members_contains(self.items@, i as int);
                                assert(self@.contains(self.items@[i as int]@));
                                assert(self.items@[i as int]@ == ExtItemSpec::Var(*idx as nat));
                            }
                            return Err(e);
                        },
                    }
                },
            }
            i += 1;
        }
        proof {
            assert forall|x: ExtItemSpec| self@.contains(x) implies match x {
                ExtItemSpec::Ext(_) => true,
                ExtItemSpec::Var(k) => k < params_view(*params).len() && params_view(*params)[
                    k as int
                ] == TypeParamSpec::Extensions,
            } by {
                let j = choose|j: int| 0 <= j < self.items@.len() && self.items@[j]@ == x;
                assert(0 <= j < self.items@.len());
            }
        }
        Ok(())
    }
}

impl FunctionType {
    /// Validate a function type; its rows may contain row variables.
    pub fn validate(
        &self,
        extension_registry: &ExtensionRegistry,
        var_decls: &Vec<TypeParam>,
    ) -> (r: Result<(), SignatureError>)
        requires
            wf_functype(*self),
        ensures
            (r is Ok) == valid_functype(
                functype_view(*self),
                *extension_registry,
                params_view(*var_decls),
            ),
        decreases self,
    {
        proof {
            reveal_with_fuel(valid_functype, 2);
            lemma_row_view(self.input);
            lemma_row_view(self.output);
            assert(functype_view(*self) == FuncTypeSpec {
                input: row_view(self.input),
                output: row_view(self.output),
                exts: self.extension_reqs@,
            });
        }
        validate_row(&self.input, extension_registry, var_decls)?;
        validate_row(&self.output, extension_registry, var_decls)?;
        self.extension_reqs.validate(var_decls)
    }
}

impl PolyFuncType {
    /// Validate a polymorphic function type against the enclosing scope's
    /// declarations: the body is checked against this scheme's own
    /// parameters, at the lowest indices, followed by the enclosing ones.
    pub fn validate(
        &self,
        reg: &ExtensionRegistry,
        external_var_decls: &Vec<TypeParam>,
    ) -> (r: Result<(), SignatureError>)
        requires
            wf_poly(*self),
        ensures
            (r is Ok) == valid_poly(poly_view(*self), *reg, params_view(*external_var_decls)),
        decreases self,
    {
        let mut all = crate::types::clone_params(&self.params);
        let mut i: usize = 0;
        proof {
            lemma_params_view(*external_var_decls);
            lemma_params_view(self.params);
            lemma_params_view(all);
        }
        while i < external_var_decls.len()
            invariant
                i <= external_var_decls@.len(),
                wf_poly(*self),
                all@.len() == self.params@.len() + i,
                forall|j: int| 0 <= j < self.params@.len() ==> param_view(#[trigger] all@[j])
                    == params_view(self.params)[j],
                forall|j: int| 0 <= j < i ==> param_view(
                    #[trigger] all@[self.params@.len() + j],
                ) == params_view(*external_var_decls)[j],
            decreases external_var_decls@.len() - i,
        {
            proof {
                lemma_params_view(*external_var_decls);
            }
            all.push(external_var_decls[i].clone());
            proof {
                lemma_params_view(all);
            }
            i += 1;
        }
        proof {
            reveal_with_fuel(valid_poly, 2);
            lemma_params_view(all);
            lemma_params_view(self.params);
            lemma_params_view(*external_var_decls);
            assert(params_view(all).len() == self.params@.len() + external_var_decls@.len());
            assert forall|j: int| 0 <= j < params_view(all).len() implies params_view(all)[j] == (
            params_view(self.params) + params_view(*external_var_decls))[j] by {
                if j < self.params@.len() {
                    assert(param_view(all@[j]) == params_view(self.params)[j]);
                } else {
                    let k = j - self.params@.len();
                    assert(param_view(all@[self.params@.len() + k]) == params_view(
                        *external_var_decls,
                    )[k]);
                }
            }
            assert(params_view(all) =~= params_view(self.params) + params_view(
                *external_var_decls,
            ));
            assert(poly_view(*self).body == functype_view(self.body));
            assert(poly_view(*self).params == params_view(self.params));
        }
        self.body.validate(reg, &all)
    }

    /// Create a new polymorphic function type, validating it against the
    /// registry: all types in the scheme must be well-formed, and every
    /// variable in the body declared by a parameter that guarantees it fits.
    /// This succeeds only for outermost schemes, with no free variables.
    pub fn new_validated(
        params: Vec<TypeParam>,
        body: FunctionType,
        extension_registry: &ExtensionRegistry,
    ) -> (r: Result<PolyFuncType, SignatureError>)
        requires
            wf_params(params),
            wf_functype(body),
        ensures
            (r is Ok) == valid_functype(
                functype_view(body),
                *extension_registry,
                params_view(params),
            ),
            r matches Ok(p) ==> poly_view(p) == (PolyFuncSpec {
                params: params_view(params),
                body: functype_view(body),
            }) && wf_poly(p),
    {
        let ghost pg = params;
        let ghost bg = body;
        let pf = PolyFuncType { params, body };
        let empty: Vec<TypeParam> = Vec::new();
        proof {
            lemma_params_view(empty);
            lemma_params_view(pf.params);
            assert(params_view(empty) =~= Seq::<TypeParamSpec>::empty());
            assert(params_view(pf.params) + params_view(empty) =~= params_view(pf.params));
        }
        match pf.validate(extension_registry, &empty) {
            Ok(()) => Ok(pf),
            Err(e) => Err(e),
        }
    }
}

/// Validate every type of a row of concrete port types: row variables are
/// rejected here, since a port must be a single type once instantiated.
pub fn validate_concrete_row(
    row: &TypeRow,
    reg: &ExtensionRegistry,
    var_decls: &Vec<TypeParam>,
) -> (r: Result<(), SignatureError>)
    requires
        wf_row(*row),
    ensures
        (r is Ok) == (forall|i: int|
            0 <= i < row@.len() ==> valid_type(
                type_view(#[trigger] row@[i]),
                false,
                *reg,
                params_view(*var_decls),
            )),
{
    let mut i: usize = 0;
    while i < row.len()
        invariant
            wf_row(*row),
            i <= row@.len(),
            forall|j: int| 0 <= j < i ==> valid_type(
                type_view(#[trigger] row@[j]),
                false,
                *reg,
                params_view(*var_decls),
            ),
        decreases row@.len() - i,
    {
        match row[i].validate(false, reg, var_decls) {
            Ok(()) => {},
            Err(e) => {
                proof {
                    assert(!valid_type(
                        type_view(row@[i as int]),
                        false,
                        *reg,
                        params_view(*var_decls),
                    ));
                }
                return Err(e);
            },
        }
        i += 1;
    }
    Ok(())
}


} // verus!
