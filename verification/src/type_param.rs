//! Kind and argument compatibility: does a concrete argument fit the kind a
//! generic site declared?
//!
//! Compatibility is structural and covariant in bound: an argument of kind
//! `Type(Eq)` satisfies a parameter of kind `Type(Any)`, not vice versa.

use vstd::prelude::*;
use crate::types::{
    arg_view, args_view, bound_spec, lemma_args_view, lemma_params_view, lemma_wf_args_upto,
    param_view, params_view, wf_arg, wf_param, Type, TypeArg, TypeArgSpec, TypeBound, TypeParam,
    TypeParamSpec, UpperBound,
};

verus! {

/// An error in matching a type argument against a declared kind.
#[derive(Debug)]
pub enum TypeArgError {
    /// A different number of arguments was given than the site declares:
    /// how many were given, and how many are declared.
    WrongNumberArgs(usize, usize),
    /// An argument does not fit the kind it was supplied for.
    TypeMismatch {
        /// The declared kind.
        param: TypeParam,
        /// The offending argument.
        arg: TypeArg,
    },
}

impl Clone for TypeArgError {
    fn clone(&self) -> (r: Self)
        ensures
            arg_error_view_eq(r, *self),
    {
        match self {
            TypeArgError::WrongNumberArgs(a, b) => TypeArgError::WrongNumberArgs(*a, *b),
            TypeArgError::TypeMismatch { param, arg } => TypeArgError::TypeMismatch {
                param: param.clone(),
                arg: arg.clone(),
            },
        }
    }
}

/// Whether two kind-checking errors say the same thing.
pub open spec fn arg_error_view_eq(a: TypeArgError, b: TypeArgError) -> bool {
    match (a, b) {
        (TypeArgError::WrongNumberArgs(x1, y1), TypeArgError::WrongNumberArgs(x2, y2)) => x1 == x2
            && y1 == y2,
        (
            TypeArgError::TypeMismatch { param: p1, arg: a1 },
            TypeArgError::TypeMismatch { param: p2, arg: a2 },
        ) => param_view(p1) == param_view(p2) && arg_view(a1) == arg_view(a2),
        _ => false,
    }
}

impl PartialEq for TypeArgError {
    fn eq(&self, other: &Self) -> (r: bool) {
        match (self, other) {
            (TypeArgError::WrongNumberArgs(x1, y1), TypeArgError::WrongNumberArgs(x2, y2)) => x1
                == x2 && y1 == y2,
            (
                TypeArgError::TypeMismatch { param: p1, arg: a1 },
                TypeArgError::TypeMismatch { param: p2, arg: a2 },
            ) => crate::types::param_eq(p1, p2) && crate::types::arg_eq(a1, a2),
            _ => false,
        }
    }
}

impl vstd::std_specs::cmp::PartialEqSpecImpl for TypeArgError {
    open spec fn obeys_eq_spec() -> bool {
        true
    }

    open spec fn eq_spec(&self, other: &Self) -> bool {
        arg_error_view_eq(*self, *other)
    }
}

impl Eq for TypeArgError {

}

// ------------------------------------------------------------------
// Kind containment and argument fit, over the models
// ------------------------------------------------------------------
/// Report whether a variable declared with kind `decl` can be used where
/// kind `outer` is expected: every argument fitting `decl` also fits
/// `outer`.
pub open spec fn param_contains(outer: TypeParamSpec, decl: TypeParamSpec) -> bool
    decreases outer, 0int,
{
    match (outer, decl) {
        (TypeParamSpec::Type(b1), TypeParamSpec::Type(b2)) => b2.rank() <= b1.rank(),
        (TypeParamSpec::BoundedNat(u1), TypeParamSpec::BoundedNat(u2)) => u1.contains_spec(u2),
        (TypeParamSpec::List(x), TypeParamSpec::List(y)) => param_contains(*x, *y),
        (TypeParamSpec::Tuple(xs), TypeParamSpec::Tuple(ys)) => xs.len() == ys.len()
            && params_contain_zip_upto(xs, ys, xs.len() as int),
        (TypeParamSpec::Extensions, TypeParamSpec::Extensions) => true,
        (TypeParamSpec::Opaque(c1), TypeParamSpec::Opaque(c2)) => c1 == c2,
        _ => false,
    }
}

/// Pointwise kind containment over the first `n` components.
pub open spec fn params_contain_zip_upto(
    xs: Seq<TypeParamSpec>,
    ys: Seq<TypeParamSpec>,
    n: int,
) -> bool
    decreases xs, n,
{
    n <= 0 || n > xs.len() || n > ys.len() || (params_contain_zip_upto(xs, ys, n - 1)
        && param_contains(xs[n - 1], ys[n - 1]))
}

/// The prefix form of pointwise kind containment says the same as the
/// quantified one.
pub proof fn lemma_params_contain_zip_upto(xs: Seq<TypeParamSpec>, ys: Seq<TypeParamSpec>, n: int)
    requires
        0 <= n <= xs.len(),
        0 <= n <= ys.len(),
    ensures
        params_contain_zip_upto(xs, ys, n) == (forall|i: int|
            0 <= i < n ==> param_contains(#[trigger] xs[i], ys[i])),
    decreases n,
{
    if n > 0 {
        lemma_params_contain_zip_upto(xs, ys, n - 1);
    }
}

/// Report whether an argument fits a declared kind.
pub open spec fn arg_fits(a: TypeArgSpec, p: TypeParamSpec) -> bool
    decreases a, 0int,
{
    match a {
        TypeArgSpec::Variable(_, cached) => param_contains(p, cached),
        TypeArgSpec::Type(t) => match p {
            TypeParamSpec::Type(b) => bound_spec(t).rank() <= b.rank(),
            TypeParamSpec::List(inner) => match t {
                crate::types::TypeSpec::RowVariable(_, b) => match *inner {
                    TypeParamSpec::Type(b2) => b.rank() <= b2.rank(),
                    _ => false,
                },
                _ => false,
            },
            _ => false,
        },
        TypeArgSpec::BoundedNat(n) => match p {
            TypeParamSpec::BoundedNat(u) => u.admits(n),
            _ => false,
        },
        TypeArgSpec::Sequence(elems) => match p {
            TypeParamSpec::List(inner) => args_fit_list_upto(elems, *inner, elems.len() as int),
            TypeParamSpec::Tuple(ps) => elems.len() == ps.len() && args_fit_zip_upto(
                elems,
                ps,
                elems.len() as int,
            ),
            _ => false,
        },
        TypeArgSpec::Extensions(_) => p is Extensions,
    }
}

/// Fit of the first `n` elements of a list against one element kind.
pub open spec fn args_fit_list_upto(elems: Seq<TypeArgSpec>, p: TypeParamSpec, n: int) -> bool
    decreases elems, n,
{
    n <= 0 || n > elems.len() || (args_fit_list_upto(elems, p, n - 1) && arg_fits(elems[n - 1], p))
}

/// Pointwise fit of the first `n` elements of a list against a tuple's
/// component kinds.
pub open spec fn args_fit_zip_upto(
    elems: Seq<TypeArgSpec>,
    ps: Seq<TypeParamSpec>,
    n: int,
) -> bool
    decreases elems, n,
{
    n <= 0 || n > elems.len() || n > ps.len() || (args_fit_zip_upto(elems, ps, n - 1) && arg_fits(
        elems[n - 1],
        ps[n - 1],
    ))
}

/// The prefix form of a list fit says the same as the quantified one.
pub proof fn lemma_args_fit_list_upto(elems: Seq<TypeArgSpec>, p: TypeParamSpec, n: int)
    requires
        0 <= n <= elems.len(),
    ensures
        args_fit_list_upto(elems, p, n) == (forall|i: int|
            0 <= i < n ==> arg_fits(#[trigger] elems[i], p)),
    decreases n,
{
    if n > 0 {
        lemma_args_fit_list_upto(elems, p, n - 1);
    }
}

/// The prefix form of a tuple fit says the same as the quantified one.
pub proof fn lemma_args_fit_zip_upto(elems: Seq<TypeArgSpec>, ps: Seq<TypeParamSpec>, n: int)
    requires
        0 <= n <= elems.len(),
        0 <= n <= ps.len(),
    ensures
        args_fit_zip_upto(elems, ps, n) == (forall|i: int|
            0 <= i < n ==> arg_fits(#[trigger] elems[i], ps[i])),
    decreases n,
{
    if n > 0 {
        lemma_args_fit_zip_upto(elems, ps, n - 1);
    }
}

/// Report whether an argument list fits a declared parameter list: the same
/// number of arguments as parameters, each fitting pointwise.
pub open spec fn args_fit(args: Seq<TypeArgSpec>, params: Seq<TypeParamSpec>) -> bool {
    args.len() == params.len() && (forall|i: int|
        0 <= i < args.len() ==> arg_fits(#[trigger] args[i], params[i]))
}

/// The argument at position `i` is the first that does not fit its
/// parameter.
pub open spec fn first_unfit(args: Seq<TypeArgSpec>, params: Seq<TypeParamSpec>, i: int) -> bool {
    &&& 0 <= i < args.len()
    &&& i < params.len()
    &&& !arg_fits(args[i], params[i])
    &&& forall|j: int| 0 <= j < i ==> arg_fits(#[trigger] args[j], params[j])
}

/// A kind-checking error correctly reports a mismatch of `a` against `p`:
/// a reported pair really mismatches, reported arities really differ, and
/// when the argument is not a list, the reported pair is this very pair.
pub open spec fn arg_report_ok(e: TypeArgError, a: TypeArgSpec, p: TypeParamSpec) -> bool {
    &&& (e matches TypeArgError::TypeMismatch { param, arg } ==> !arg_fits(
        arg_view(arg),
        param_view(param),
    ))
    &&& (e matches TypeArgError::WrongNumberArgs(x, y) ==> x != y)
    &&& (!(a is Sequence) ==> (e matches TypeArgError::TypeMismatch { param, arg }
        && param_view(param) == p && arg_view(arg) == a))
}

/// A kind-checking error correctly reports why an argument list does not
/// fit a parameter list: differing arities are reported with both counts,
/// and otherwise the first unfitting argument is reported, with the exact
/// pair whenever that argument is not a list.
pub open spec fn args_report_ok(
    e: TypeArgError,
    args: Seq<TypeArgSpec>,
    params: Seq<TypeParamSpec>,
) -> bool {
    &&& (e matches TypeArgError::TypeMismatch { param, arg } ==> !arg_fits(
        arg_view(arg),
        param_view(param),
    ))
    &&& (e matches TypeArgError::WrongNumberArgs(x, y) ==> x != y)
    &&& (args.len() != params.len() ==> (e matches TypeArgError::WrongNumberArgs(x, y) && x
        == args.len() && y == params.len()))
    &&& (args.len() == params.len() ==> exists|i: int|
        #[trigger] first_unfit(args, params, i) && arg_report_ok(e, args[i], params[i]))
}

// ------------------------------------------------------------------
// Executable checks
// ------------------------------------------------------------------
/// Report whether a variable declared with kind `decl` can be used where
/// `self` is expected.
pub fn param_contains_check(outer: &TypeParam, decl: &TypeParam) -> (r: bool)
    ensures
        r == param_contains(param_view(*outer), param_view(*decl)),
    decreases outer,
{
    match outer {
        TypeParam::Type { b: b1 } => match decl {
            TypeParam::Type { b: b2 } => b1.contains(*b2),
            _ => false,
        },
        TypeParam::BoundedNat { bound: u1 } => match decl {
            TypeParam::BoundedNat { bound: u2 } => match (u1, u2) {
                (UpperBound::Unbounded, _) => true,
                (UpperBound::UpTo(_), UpperBound::Unbounded) => false,
                (UpperBound::UpTo(i), UpperBound::UpTo(j)) => *j <= *i,
            },
            _ => false,
        },
        TypeParam::List { param: x } => match decl {
            TypeParam::List { param: y } => param_contains_check(x, y),
            _ => false,
        },
        TypeParam::Tuple { params: xs } => match decl {
            TypeParam::Tuple { params: ys } => {
                proof {
                    lemma_params_view(*xs);
                    lemma_params_view(*ys);
                }
                if xs.len() != ys.len() {
                    return false;
                }
                proof {
                    lemma_params_contain_zip_upto(
                        params_view(*xs),
                        params_view(*ys),
                        xs@.len() as int,
                    );
                }
                let mut i: usize = 0;
                while i < xs.len()
                    invariant
                        *outer == (TypeParam::Tuple { params: *xs }),
                        *decl == (TypeParam::Tuple { params: *ys }),
                        i <= xs@.len(),
                        xs@.len() == ys@.len(),
                        params_view(*xs).len() == xs@.len(),
                        params_view(*ys).len() == ys@.len(),
                        forall|j: int| 0 <= j < xs@.len() ==> params_view(*xs)[j] == param_view(
                            xs@[j],
                        ),
                        forall|j: int| 0 <= j < ys@.len() ==> params_view(*ys)[j] == param_view(
                            ys@[j],
                        ),
                        forall|j: int| 0 <= j < i ==> param_contains(
                            #[trigger] params_view(*xs)[j],
                            params_view(*ys)[j],
                        ),
                    decreases xs@.len() - i,
                {
                    if !param_contains_check(&xs[i], &ys[i]) {
                        proof {
                            lemma_params_contain_zip_upto(
                                params_view(*xs),
                                params_view(*ys),
                                xs@.len() as int,
                            );
                            assert(!param_contains(
                                params_view(*xs)[i as int],
                                params_view(*ys)[i as int],
                            ));
                        }
                        return false;
                    }
                    proof {
                        assert(param_contains(
                            params_view(*xs)[i as int],
                            params_view(*ys)[i as int],
                        ));
                    }
                    i += 1;
                }
                proof {
                    lemma_params_contain_zip_upto(
                        params_view(*xs),
                        params_view(*ys),
                        xs@.len() as int,
                    );
                }
                true
            },
            _ => false,
        },
        TypeParam::Extensions => matches!(decl, TypeParam::Extensions),
        TypeParam::Opaque { ty: c1 } => match decl {
            TypeParam::Opaque { ty: c2 } => crate::types::custom_eq(c1, c2),
            _ => false,
        },
    }
}

/// Check a concrete argument against a declared kind, failing with the
/// offending pair on mismatch.  Succeeds exactly when the argument fits the
/// kind.
pub fn check_type_arg(arg: &TypeArg, param: &TypeParam) -> (r: Result<(), TypeArgError>)
    requires
        wf_arg(*arg),
    ensures
        (r is Ok) == arg_fits(arg_view(*arg), param_view(*param)),
        r matches Err(e) ==> arg_report_ok(e, arg_view(*arg), param_view(*param)),
    decreases arg,
{
    match arg {
        TypeArg::Variable { idx: _, cached_decl } => {
            if param_contains_check(param, cached_decl) {
                Ok(())
            } else {
                Err(TypeArgError::TypeMismatch { param: param.clone(), arg: arg.clone() })
            }
        },
        TypeArg::Type { ty } => match param {
            TypeParam::Type { b } => {
                if b.contains(ty.least_upper_bound()) {
                    Ok(())
                } else {
                    Err(TypeArgError::TypeMismatch { param: param.clone(), arg: arg.clone() })
                }
            },
            TypeParam::List { param: inner } => {
                // A row variable, declared with a list-of-types kind, may
                // stand for a whole list argument, covariantly in bound.
                let fits = match (&ty.e, &**inner) {
                    (crate::types::TypeEnum::RowVariable(_, b), TypeParam::Type { b: b2 }) => {
                        proof {
                            assert(crate::types::type_view(*ty) == crate::types::TypeSpec::RowVariable(
                                ty.e->RowVariable_0 as nat,
                                ty.e->RowVariable_1,
                            ));
                            assert(param_view(**inner) == TypeParamSpec::Type(*b2));
                        }
                        b2.contains(*b)
                    },
                    _ => false,
                };
                if fits {
                    Ok(())
                } else {
                    Err(TypeArgError::TypeMismatch { param: param.clone(), arg: arg.clone() })
                }
            },
            _ => Err(TypeArgError::TypeMismatch { param: param.clone(), arg: arg.clone() }),
        },
        TypeArg::BoundedNat { n } => match param {
            TypeParam::BoundedNat { bound } => match bound {
                UpperBound::Unbounded => Ok(()),
                UpperBound::UpTo(i) => if *n < *i {
                    Ok(())
                } else {
                    Err(TypeArgError::TypeMismatch { param: param.clone(), arg: arg.clone() })
                },
            },
            _ => Err(TypeArgError::TypeMismatch { param: param.clone(), arg: arg.clone() }),
        },
        TypeArg::Sequence { elems } => match param {
            TypeParam::List { param: inner } => {
                proof {
                    lemma_args_view(*elems);
                    lemma_args_fit_list_upto(
                        args_view(*elems),
                        param_view(**inner),
                        elems@.len() as int,
                    );
                    lemma_wf_args_upto(*elems, elems@.len() as int);
                }
                let mut i: usize = 0;
                while i < elems.len()
                    invariant
                        wf_arg(*arg),
                        *arg == (TypeArg::Sequence { elems: *elems }),
                        *param == (TypeParam::List { param: *inner }),
                        i <= elems@.len(),
                        args_view(*elems).len() == elems@.len(),
                        forall|j: int| 0 <= j < elems@.len() ==> args_view(*elems)[j] == arg_view(
                            elems@[j],
                        ),
                        forall|j: int| 0 <= j < i ==> arg_fits(
                            #[trigger] args_view(*elems)[j],
                            param_view(**inner),
                        ),
                    decreases elems@.len() - i,
                {
                    proof {
                        lemma_wf_args_upto(*elems, elems@.len() as int);
                        assert(wf_arg(elems@[i as int]));
                    }
                    let res = check_type_arg(&elems[i], inner);
                    if res.is_err() {
                        proof {
                            lemma_args_fit_list_upto(
                                args_view(*elems),
                                param_view(**inner),
                                elems@.len() as int,
                            );
                            assert(!arg_fits(args_view(*elems)[i as int], param_view(**inner)));
                        }
                        return res;
                    }
                    proof {
                        assert(arg_fits(args_view(*elems)[i as int], param_view(**inner)));
                    }
                    i += 1;
                }
                proof {
                    lemma_args_fit_list_upto(
                        args_view(*elems),
                        param_view(**inner),
                        elems@.len() as int,
                    );
                }
                Ok(())
            },
            TypeParam::Tuple { params } => {
                proof {
                    lemma_args_view(*elems);
                    lemma_params_view(*params);
                }
                if elems.len() != params.len() {
                    return Err(TypeArgError::WrongNumberArgs(elems.len(), params.len()));
                }
                let mut i: usize = 0;
                while i < elems.len()
                    invariant
                        wf_arg(*arg),
                        *arg == (TypeArg::Sequence { elems: *elems }),
                        *param == (TypeParam::Tuple { params: *params }),
                        i <= elems@.len(),
                        elems@.len() == params@.len(),
                        args_view(*elems).len() == elems@.len(),
                        params_view(*params).len() == params@.len(),
                        forall|j: int| 0 <= j < elems@.len() ==> args_view(*elems)[j] == arg_view(
                            elems@[j],
                        ),
                        forall|j: int| 0 <= j < params@.len() ==> params_view(*params)[j]
                            == param_view(params@[j]),
                        forall|j: int| 0 <= j < i ==> arg_fits(
                            #[trigger] args_view(*elems)[j],
                            params_view(*params)[j],
                        ),
                    decreases elems@.len() - i,
                {
                    proof {
                        lemma_wf_args_upto(*elems, elems@.len() as int);
                        assert(wf_arg(elems@[i as int]));
                    }
                    let res = check_type_arg(&elems[i], &params[i]);
                    if res.is_err() {
                        proof {
                            lemma_args_fit_zip_upto(
                                args_view(*elems),
                                params_view(*params),
                                elems@.len() as int,
                            );
                            assert(!arg_fits(
                                args_view(*elems)[i as int],
                                params_view(*params)[i as int],
                            ));
                        }
                        return res;
                    }
                    proof {
                        assert(arg_fits(
                            args_view(*elems)[i as int],
                            params_view(*params)[i as int],
                        ));
                    }
                    i += 1;
                }
                proof {
                    lemma_args_fit_zip_upto(
                        args_view(*elems),
                        params_view(*params),
                        elems@.len() as int,
                    );
                }
                Ok(())
            },
            _ => Err(TypeArgError::TypeMismatch { param: param.clone(), arg: arg.clone() }),
        },
        TypeArg::Extensions { es: _ } => match param {
            TypeParam::Extensions => Ok(()),
            _ => Err(TypeArgError::TypeMismatch { param: param.clone(), arg: arg.clone() }),
        },
    }
}

/// Check a list of arguments against the declared parameters: the arity
/// first, then each argument pointwise, failing fast.  Succeeds exactly when
/// the whole list fits.
pub fn check_type_args(args: &Vec<TypeArg>, params: &Vec<TypeParam>) -> (r: Result<
    (),
    TypeArgError,
>)
    requires
        crate::types::wf_args(*args),
    ensures
        (r is Ok) == args_fit(args_view(*args), params_view(*params)),
        r matches Err(e) ==> args_report_ok(e, args_view(*args), params_view(*params)),
{
    proof {
        lemma_args_view(*args);
        lemma_params_view(*params);
    }
    if args.len() != params.len() {
        return Err(TypeArgError::WrongNumberArgs(args.len(), params.len()));
    }
    let mut i: usize = 0;
    while i < args.len()
        invariant
            crate::types::wf_args(*args),
            i <= args@.len(),
            args@.len() == params@.len(),
            args_view(*args).len() == args@.len(),
            params_view(*params).len() == params@.len(),
            forall|j: int| 0 <= j < args@.len() ==> args_view(*args)[j] == arg_view(args@[j]),
            forall|j: int| 0 <= j < params@.len() ==> params_view(*params)[j] == param_view(
                params@[j],
            ),
            forall|j: int| 0 <= j < i ==> arg_fits(
                #[trigger] args_view(*args)[j],
                params_view(*params)[j],
            ),
        decreases args@.len() - i,
    {
        let res = check_type_arg(&args[i], &params[i]);
        if res.is_err() {
            proof {
                assert(!arg_fits(args_view(*args)[i as int], params_view(*params)[i as int]));
                assert(first_unfit(args_view(*args), params_view(*params), i as int));
            }
            return res;
        }
        proof {
            assert(arg_fits(args_view(*args)[i as int], params_view(*params)[i as int]));
        }
        i += 1;
    }
    Ok(())
}

impl TypeParam {
    /// The kind of an unbounded natural-number parameter.
    pub fn max_nat() -> (r: TypeParam)
        ensures
            param_view(r) == TypeParamSpec::BoundedNat(UpperBound::Unbounded),
            wf_param(r),
    {
        TypeParam::BoundedNat { bound: UpperBound::Unbounded }
    }

    /// The kind of a natural-number parameter strictly below `n`.
    pub fn bounded_nat(n: u64) -> (r: TypeParam)
        requires
            n > 0,
        ensures
            param_view(r) == TypeParamSpec::BoundedNat(UpperBound::UpTo(n)),
            wf_param(r),
    {
        TypeParam::BoundedNat { bound: UpperBound::UpTo(n) }
    }

    /// The kind of a variable-length list of types of the given bound: the
    /// kind a row variable is declared with.
    pub fn new_list(b: TypeBound) -> (r: TypeParam)
        ensures
            param_view(r) == TypeParamSpec::List(Box::new(TypeParamSpec::Type(b))),
            wf_param(r),
    {
        proof {
            assert(param_view(TypeParam::Type { b }) == TypeParamSpec::Type(b));
            assert(wf_param(TypeParam::Type { b }));
        }
        TypeParam::List { param: Box::new(TypeParam::Type { b }) }
    }
}

impl TypeArg {
    /// New use of a type variable with the given index, declared with the
    /// given kind.  A variable of type kind becomes a `Type` argument holding
    /// a variable use; one of list-of-types kind becomes a `Type` argument
    /// holding a row-variable use; any other kind is kept as a variable
    /// argument with its declared kind cached.
    pub fn new_var_use(idx: usize, decl: TypeParam) -> (r: TypeArg)
        ensures
            wf_param(decl) ==> wf_arg(r),
            arg_view(r) == new_var_use_spec(idx as nat, param_view(decl)),
    {
        match decl {
            TypeParam::Type { b } => {
                proof {
                    assert(param_view(TypeParam::Type { b }) == TypeParamSpec::Type(b));
                }
                TypeArg::Type { ty: Type::new_var_use(idx, b) }
            },
            TypeParam::List { param } => {
                match *param {
                    TypeParam::Type { b } => {
                        proof {
                            assert(param_view(TypeParam::Type { b }) == TypeParamSpec::Type(b));
                        }
                        TypeArg::Type { ty: Type::new_row_var_use(idx, b) }
                    },
                    other => {
                        let ghost og = other;
                        let r = TypeArg::Variable {
                            idx,
                            cached_decl: TypeParam::List { param: Box::new(other) },
                        };
                        proof {
                            assert(param_view(TypeParam::List { param: Box::new(og) })
                                == TypeParamSpec::List(Box::new(param_view(og))));
                        }
                        r
                    },
                }
            },
            other => TypeArg::Variable { idx, cached_decl: other },
        }
    }
}

/// What [`TypeArg::new_var_use`] builds: the shape of a variable use of the
/// given kind.
pub open spec fn new_var_use_spec(idx: nat, decl: TypeParamSpec) -> TypeArgSpec {
    match decl {
        TypeParamSpec::Type(b) => TypeArgSpec::Type(crate::types::TypeSpec::Variable(idx, b)),
        TypeParamSpec::List(inner) => match *inner {
            TypeParamSpec::Type(b) => TypeArgSpec::Type(
                crate::types::TypeSpec::RowVariable(idx, b),
            ),
            other => TypeArgSpec::Variable(idx, TypeParamSpec::List(Box::new(other))),
        },
        other => TypeArgSpec::Variable(idx, other),
    }
}


} // verus!
