//! Substitution and polymorphic instantiation.
//!
//! A substitution is a finite list of arguments, one per declared parameter
//! of the scheme being instantiated.  Applying it to a type replaces each
//! variable by its argument; a row variable is replaced by the flattening of
//! its list argument, the only construct that produces a variable-length
//! result.  Entering a nested scheme shifts the indices, so that the inner
//! scope's own parameters keep the lowest indices: the depth parameter
//! threaded through every function below does that bookkeeping, and an
//! argument spliced in under `depth` binders has its free variables raised
//! by `depth`.

use vstd::prelude::*;
use crate::extension::SignatureError;
use crate::extension_set::{lemma_members_contains, members_of, ExtItem, ExtItemSpec, ExtensionSet};
use crate::types::{
    arg_view, args_view, custom_view, enum_view, functype_view, lemma_args_view, lemma_row_view,
    lemma_rows_view, param_view, params_view, poly_view, row_view, rows_view, sum_view, type_view,
    wf_arg, wf_args, wf_custom, wf_enum, wf_functype, wf_param, wf_params, wf_poly, wf_row,
    wf_rows, wf_sum, wf_type, AliasDecl, CustomType, CustomTypeSpec, FuncTypeSpec, FunctionType,
    PolyFuncSpec, PolyFuncType, SumType, SumTypeSpec, Type, TypeArg, TypeArgSpec, TypeEnum,
    TypeParam, TypeParamSpec, TypeRow, TypeSpec,
};

verus! {

// ------------------------------------------------------------------
// Shifting: raise free variable indices
// ------------------------------------------------------------------
/// Raise by `delta` the index of every variable at index `cutoff` or above.
pub open spec fn shift_type_spec(t: TypeSpec, delta: nat, cutoff: nat) -> TypeSpec
    decreases t, 0int,
{
    match t {
        TypeSpec::Extension(c) => TypeSpec::Extension(shift_custom_spec(c, delta, cutoff)),
        TypeSpec::Alias(n, b) => TypeSpec::Alias(n, b),
        TypeSpec::Function(pf) => TypeSpec::Function(
            Box::new(shift_poly_spec(*pf, delta, cutoff)),
        ),
        TypeSpec::Variable(i, b) => if i >= cutoff {
            TypeSpec::Variable((i + delta) as nat, b)
        } else {
            t
        },
        TypeSpec::RowVariable(i, b) => if i >= cutoff {
            TypeSpec::RowVariable((i + delta) as nat, b)
        } else {
            t
        },
        TypeSpec::Sum(SumTypeSpec::Unit(n)) => t,
        TypeSpec::Sum(SumTypeSpec::General(rows)) => TypeSpec::Sum(
            SumTypeSpec::General(shift_rows_spec(rows, delta, cutoff, rows.len() as int)),
        ),
    }
}

/// Shift the first `n` rows of a list of rows.
pub open spec fn shift_rows_spec(
    rows: Seq<Seq<TypeSpec>>,
    delta: nat,
    cutoff: nat,
    n: int,
) -> Seq<Seq<TypeSpec>>
    decreases rows, n,
{
    if n <= 0 || n > rows.len() {
        Seq::empty()
    } else {
        shift_rows_spec(rows, delta, cutoff, n - 1).push(
            shift_row_spec(rows[n - 1], delta, cutoff, rows[n - 1].len() as int),
        )
    }
}

/// Shift the first `n` types of a row.
pub open spec fn shift_row_spec(row: Seq<TypeSpec>, delta: nat, cutoff: nat, n: int) -> Seq<
    TypeSpec,
>
    decreases row, n,
{
    if n <= 0 || n > row.len() {
        Seq::empty()
    } else {
        shift_row_spec(row, delta, cutoff, n - 1).push(shift_type_spec(row[n - 1], delta, cutoff))
    }
}

/// Shift a custom type: only its arguments can mention variables.
pub open spec fn shift_custom_spec(c: CustomTypeSpec, delta: nat, cutoff: nat) -> CustomTypeSpec
    decreases c, 0int,
{
    CustomTypeSpec {
        extension: c.extension,
        id: c.id,
        args: shift_args_spec(c.args, delta, cutoff, c.args.len() as int),
        bound: c.bound,
    }
}

/// Shift the first `n` of a list of arguments.
pub open spec fn shift_args_spec(
    args: Seq<TypeArgSpec>,
    delta: nat,
    cutoff: nat,
    n: int,
) -> Seq<TypeArgSpec>
    decreases args, n,
{
    if n <= 0 || n > args.len() {
        Seq::empty()
    } else {
        shift_args_spec(args, delta, cutoff, n - 1).push(
            shift_arg_spec(args[n - 1], delta, cutoff),
        )
    }
}

/// Shift one argument.
pub open spec fn shift_arg_spec(a: TypeArgSpec, delta: nat, cutoff: nat) -> TypeArgSpec
    decreases a, 0int,
{
    match a {
        TypeArgSpec::Type(t) => TypeArgSpec::Type(shift_type_spec(t, delta, cutoff)),
        TypeArgSpec::BoundedNat(n) => a,
        TypeArgSpec::Sequence(elems) => TypeArgSpec::Sequence(
            shift_args_spec(elems, delta, cutoff, elems.len() as int),
        ),
        TypeArgSpec::Extensions(es) => TypeArgSpec::Extensions(shift_set_spec(es, delta, cutoff)),
        TypeArgSpec::Variable(i, decl) => if i >= cutoff {
            TypeArgSpec::Variable((i + delta) as nat, decl)
        } else {
            a
        },
    }
}

/// Shift one extension-set member.
pub open spec fn shift_item_spec(x: ExtItemSpec, delta: nat, cutoff: nat) -> ExtItemSpec {
    match x {
        ExtItemSpec::Ext(id) => ExtItemSpec::Ext(id),
        ExtItemSpec::Var(i) => if i >= cutoff {
            ExtItemSpec::Var((i + delta) as nat)
        } else {
            ExtItemSpec::Var(i)
        },
    }
}

/// Shift every member of an extension set.
pub open spec fn shift_set_spec(es: Set<ExtItemSpec>, delta: nat, cutoff: nat) -> Set<
    ExtItemSpec,
> {
    Set::new(|y: ExtItemSpec| exists|x: ExtItemSpec| es.contains(x) && y == shift_item_spec(
        x,
        delta,
        cutoff,
    ))
}

/// Shift a function type.
pub open spec fn shift_functype_spec(f: FuncTypeSpec, delta: nat, cutoff: nat) -> FuncTypeSpec
    decreases f, 0int,
{
    FuncTypeSpec {
        input: shift_row_spec(f.input, delta, cutoff, f.input.len() as int),
        output: shift_row_spec(f.output, delta, cutoff, f.output.len() as int),
        exts: shift_set_spec(f.exts, delta, cutoff),
    }
}

/// Shift a polymorphic function type: the body is shifted with the cutoff
/// raised past the scheme's own parameters, which keep the lowest indices.
pub open spec fn shift_poly_spec(p: PolyFuncSpec, delta: nat, cutoff: nat) -> PolyFuncSpec
    decreases p, 0int,
{
    PolyFuncSpec {
        params: p.params,
        body: shift_functype_spec(p.body, delta, cutoff + p.params.len()),
    }
}

// ------------------------------------------------------------------
// Substitution
// ------------------------------------------------------------------
/// Apply a substitution to a type.  The result is a row: a scalar variable
/// or any other variant yields exactly one type, while a row variable yields
/// the flattening of its list argument.  An argument spliced in under
/// `depth` binders has its free variables raised by `depth`.  On content
/// that [`subst_type_ok`] refuses, variables are left in place.
pub open spec fn subst_type_spec(t: TypeSpec, args: Seq<TypeArgSpec>, depth: nat) -> Seq<TypeSpec>
    decreases t, 1int,
{
    match t {
        TypeSpec::Extension(c) => seq![
            TypeSpec::Extension(subst_custom_spec(c, args, depth)),
        ],
        TypeSpec::Alias(n, b) => seq![t],
        TypeSpec::Function(pf) => seq![
            TypeSpec::Function(Box::new(subst_poly_spec(*pf, args, depth))),
        ],
        TypeSpec::Variable(i, b) => if i < depth || i - depth >= args.len() {
            seq![t]
        } else {
            match args[i - depth] {
                TypeArgSpec::Type(ty) => seq![shift_type_spec(ty, depth, 0)],
                _ => seq![t],
            }
        },
        TypeSpec::RowVariable(i, b) => if i < depth || i - depth >= args.len() {
            seq![t]
        } else {
            match args[i - depth] {
                TypeArgSpec::Sequence(elems) => elems_to_row_spec(
                    elems,
                    depth,
                    elems.len() as int,
                ),
                TypeArgSpec::Type(ty) => seq![shift_type_spec(ty, depth, 0)],
                _ => seq![t],
            }
        },
        TypeSpec::Sum(SumTypeSpec::Unit(n)) => seq![t],
        TypeSpec::Sum(SumTypeSpec::General(rows)) => seq![
            TypeSpec::Sum(
                SumTypeSpec::General(subst_rows_spec(rows, args, depth, rows.len() as int)),
            ),
        ],
    }
}

/// The row of types a list argument stands for: each element must be a type,
/// and is shifted past `depth` binders.  A non-type element is skipped; the
/// conditions in [`subst_type_ok`] rule that out.
pub open spec fn elems_to_row_spec(elems: Seq<TypeArgSpec>, depth: nat, n: int) -> Seq<TypeSpec>
    decreases elems, n,
{
    if n <= 0 || n > elems.len() {
        Seq::empty()
    } else {
        match elems[n - 1] {
            TypeArgSpec::Type(ty) => elems_to_row_spec(elems, depth, n - 1).push(
                shift_type_spec(ty, depth, 0),
            ),
            _ => elems_to_row_spec(elems, depth, n - 1),
        }
    }
}

/// Substitute into the first `n` types of a row, splicing row-variable
/// expansions in place.
pub open spec fn subst_row_spec(row: Seq<TypeSpec>, args: Seq<TypeArgSpec>, depth: nat, n: int) -> Seq<
    TypeSpec,
>
    decreases row, n,
{
    if n <= 0 || n > row.len() {
        Seq::empty()
    } else {
        subst_row_spec(row, args, depth, n - 1) + subst_type_spec(row[n - 1], args, depth)
    }
}

/// Substitute into the first `n` rows of a list of rows.
pub open spec fn subst_rows_spec(
    rows: Seq<Seq<TypeSpec>>,
    args: Seq<TypeArgSpec>,
    depth: nat,
    n: int,
) -> Seq<Seq<TypeSpec>>
    decreases rows, n,
{
    if n <= 0 || n > rows.len() {
        Seq::empty()
    } else {
        subst_rows_spec(rows, args, depth, n - 1).push(
            subst_row_spec(rows[n - 1], args, depth, rows[n - 1].len() as int),
        )
    }
}

/// Substitute into a custom type's arguments.  The stored bound is kept; a
/// registry would be needed to narrow it, and validation checks it.
pub open spec fn subst_custom_spec(c: CustomTypeSpec, args: Seq<TypeArgSpec>, depth: nat) -> CustomTypeSpec
    decreases c, 1int,
{
    CustomTypeSpec {
        extension: c.extension,
        id: c.id,
        args: subst_args_spec(c.args, args, depth, c.args.len() as int),
        bound: c.bound,
    }
}

/// Substitute into the first `n` of a list of arguments, elementwise.
pub open spec fn subst_args_spec(
    v: Seq<TypeArgSpec>,
    args: Seq<TypeArgSpec>,
    depth: nat,
    n: int,
) -> Seq<TypeArgSpec>
    decreases v, n,
{
    if n <= 0 || n > v.len() {
        Seq::empty()
    } else {
        subst_args_spec(v, args, depth, n - 1).push(subst_arg_spec(v[n - 1], args, depth))
    }
}

/// Substitute into one argument.  A type argument that stands for a single
/// type stays a type argument; one that was a row variable becomes the list
/// of its expansion.
pub open spec fn subst_arg_spec(a: TypeArgSpec, args: Seq<TypeArgSpec>, depth: nat) -> TypeArgSpec
    decreases a, 1int,
{
    match a {
        TypeArgSpec::Type(t) => {
            let row = subst_type_spec(t, args, depth);
            if row.len() == 1 {
                TypeArgSpec::Type(row[0])
            } else {
                TypeArgSpec::Sequence(row_to_elems_spec(row, row.len() as int))
            }
        },
        TypeArgSpec::BoundedNat(_) => a,
        TypeArgSpec::Sequence(elems) => TypeArgSpec::Sequence(
            subst_args_spec(elems, args, depth, elems.len() as int),
        ),
        TypeArgSpec::Extensions(es) => TypeArgSpec::Extensions(subst_set_spec(es, args, depth)),
        TypeArgSpec::Variable(i, decl) => if i < depth || i - depth >= args.len() {
            a
        } else {
            shift_arg_spec(args[i - depth], depth, 0)
        },
    }
}

/// Wrap a row of types back into a list of type arguments.
pub open spec fn row_to_elems_spec(row: Seq<TypeSpec>, n: int) -> Seq<TypeArgSpec>
    decreases row, n,
{
    if n <= 0 || n > row.len() {
        Seq::empty()
    } else {
        row_to_elems_spec(row, n - 1).push(TypeArgSpec::Type(row[n - 1]))
    }
}

/// The set a member of an extension set stands for after substitution.
pub open spec fn subst_item_spec(x: ExtItemSpec, args: Seq<TypeArgSpec>, depth: nat) -> Set<
    ExtItemSpec,
> {
    match x {
        ExtItemSpec::Ext(_) => Set::empty().insert(x),
        ExtItemSpec::Var(i) => if i < depth || i - depth >= args.len() {
            Set::empty().insert(x)
        } else {
            match args[i - depth] {
                TypeArgSpec::Extensions(es) => shift_set_spec(es, depth, 0),
                _ => Set::empty().insert(x),
            }
        },
    }
}

/// Substitute into an extension set: the union over its members of what each
/// stands for.
pub open spec fn subst_set_spec(es: Set<ExtItemSpec>, args: Seq<TypeArgSpec>, depth: nat) -> Set<
    ExtItemSpec,
> {
    Set::new(|y: ExtItemSpec| exists|x: ExtItemSpec| es.contains(x) && subst_item_spec(
        x,
        args,
        depth,
    ).contains(y))
}

/// Substitute into a function type.
pub open spec fn subst_functype_spec(f: FuncTypeSpec, args: Seq<TypeArgSpec>, depth: nat) -> FuncTypeSpec
    decreases f, 1int,
{
    FuncTypeSpec {
        input: subst_row_spec(f.input, args, depth, f.input.len() as int),
        output: subst_row_spec(f.output, args, depth, f.output.len() as int),
        exts: subst_set_spec(f.exts, args, depth),
    }
}

/// Substitute into a polymorphic function type: its own parameters take the
/// lowest indices, so the body is substituted one scope deeper.
pub open spec fn subst_poly_spec(p: PolyFuncSpec, args: Seq<TypeArgSpec>, depth: nat) -> PolyFuncSpec
    decreases p, 1int,
{
    PolyFuncSpec {
        params: p.params,
        body: subst_functype_spec(p.body, args, depth + p.params.len()),
    }
}

// ------------------------------------------------------------------
// When shifting and substitution succeed
// ------------------------------------------------------------------
/// Shifting a type succeeds when no raised index would leave the machine's
/// range, and no cutoff accumulation would either.
pub open spec fn shift_ok_type(t: TypeSpec, delta: nat, cutoff: nat) -> bool
    decreases t, 1int,
{
    match t {
        TypeSpec::Extension(c) => shift_ok_args(c.args, delta, cutoff, c.args.len() as int),
        TypeSpec::Alias(_, _) => true,
        TypeSpec::Function(pf) => cutoff + pf.params.len() <= usize::MAX && shift_ok_functype(
            pf.body,
            delta,
            cutoff + pf.params.len(),
        ),
        TypeSpec::Variable(i, _) => i >= cutoff ==> i + delta <= usize::MAX,
        TypeSpec::RowVariable(i, _) => i >= cutoff ==> i + delta <= usize::MAX,
        TypeSpec::Sum(SumTypeSpec::Unit(_)) => true,
        TypeSpec::Sum(SumTypeSpec::General(rows)) => shift_ok_rows(
            rows,
            delta,
            cutoff,
            rows.len() as int,
        ),
    }
}

/// Shifting the first `n` rows succeeds.
pub open spec fn shift_ok_rows(rows: Seq<Seq<TypeSpec>>, delta: nat, cutoff: nat, n: int) -> bool
    decreases rows, n,
{
    n <= 0 || n > rows.len() || (shift_ok_rows(rows, delta, cutoff, n - 1) && shift_ok_row(
        rows[n - 1],
        delta,
        cutoff,
        rows[n - 1].len() as int,
    ))
}

/// Shifting the first `n` types of a row succeeds.
pub open spec fn shift_ok_row(row: Seq<TypeSpec>, delta: nat, cutoff: nat, n: int) -> bool
    decreases row, n,
{
    n <= 0 || n > row.len() || (shift_ok_row(row, delta, cutoff, n - 1) && shift_ok_type(
        row[n - 1],
        delta,
        cutoff,
    ))
}

/// Shifting the first `n` arguments succeeds.
pub open spec fn shift_ok_args(args: Seq<TypeArgSpec>, delta: nat, cutoff: nat, n: int) -> bool
    decreases args, n,
{
    n <= 0 || n > args.len() || (shift_ok_args(args, delta, cutoff, n - 1) && shift_ok_arg(
        args[n - 1],
        delta,
        cutoff,
    ))
}

/// Shifting one member of an extension set succeeds.
pub open spec fn shift_ok_item(x: ExtItemSpec, delta: nat, cutoff: nat) -> bool {
    match x {
        ExtItemSpec::Ext(_) => true,
        ExtItemSpec::Var(i) => i >= cutoff ==> i + delta <= usize::MAX,
    }
}

/// Shifting an extension set succeeds when every member can be shifted.
pub open spec fn shift_ok_set(es: Set<ExtItemSpec>, delta: nat, cutoff: nat) -> bool {
    forall|x: ExtItemSpec| es.contains(x) ==> shift_ok_item(x, delta, cutoff)
}

/// Shifting one argument succeeds.
pub open spec fn shift_ok_arg(a: TypeArgSpec, delta: nat, cutoff: nat) -> bool
    decreases a, 1int,
{
    match a {
        TypeArgSpec::Type(t) => shift_ok_type(t, delta, cutoff),
        TypeArgSpec::BoundedNat(_) => true,
        TypeArgSpec::Sequence(elems) => shift_ok_args(elems, delta, cutoff, elems.len() as int),
        TypeArgSpec::Extensions(es) => shift_ok_set(es, delta, cutoff),
        TypeArgSpec::Variable(i, _) => i >= cutoff ==> i + delta <= usize::MAX,
    }
}

/// Shifting a function type succeeds.
pub open spec fn shift_ok_functype(f: FuncTypeSpec, delta: nat, cutoff: nat) -> bool
    decreases f, 1int,
{
    shift_ok_row(f.input, delta, cutoff, f.input.len() as int) && shift_ok_row(
        f.output,
        delta,
        cutoff,
        f.output.len() as int,
    ) && shift_ok_set(f.exts, delta, cutoff)
}

/// The prefix form of row-shift success says the same as the pointwise one.
pub proof fn lemma_shift_ok_row(row: Seq<TypeSpec>, delta: nat, cutoff: nat, n: int)
    requires
        0 <= n <= row.len(),
    ensures
        shift_ok_row(row, delta, cutoff, n) == (forall|i: int|
            0 <= i < n ==> shift_ok_type(#[trigger] row[i], delta, cutoff)),
    decreases n,
{
    if n > 0 {
        lemma_shift_ok_row(row, delta, cutoff, n - 1);
    }
}

/// The prefix form of rows-shift success says the same as the pointwise one.
pub proof fn lemma_shift_ok_rows(rows: Seq<Seq<TypeSpec>>, delta: nat, cutoff: nat, n: int)
    requires
        0 <= n <= rows.len(),
    ensures
        shift_ok_rows(rows, delta, cutoff, n) == (forall|i: int|
            0 <= i < n ==> shift_ok_row(#[trigger] rows[i], delta, cutoff, rows[i].len() as int)),
    decreases n,
{
    if n > 0 {
        lemma_shift_ok_rows(rows, delta, cutoff, n - 1);
    }
}

/// The prefix form of argument-shift success says the same as the pointwise
/// one.
pub proof fn lemma_shift_ok_args(args: Seq<TypeArgSpec>, delta: nat, cutoff: nat, n: int)
    requires
        0 <= n <= args.len(),
    ensures
        shift_ok_args(args, delta, cutoff, n) == (forall|i: int|
            0 <= i < n ==> shift_ok_arg(#[trigger] args[i], delta, cutoff)),
    decreases n,
{
    if n > 0 {
        lemma_shift_ok_args(args, delta, cutoff, n - 1);
    }
}

/// Substituting into a type succeeds when every variable in range of the
/// argument list resolves to an argument of the right kind, and every shift
/// and depth accumulation stays in the machine's range.
pub open spec fn subst_ok_type(t: TypeSpec, args: Seq<TypeArgSpec>, depth: nat) -> bool
    decreases t, 1int,
{
    match t {
        TypeSpec::Extension(c) => subst_ok_args(c.args, args, depth, c.args.len() as int),
        TypeSpec::Alias(_, _) => true,
        TypeSpec::Function(pf) => depth + pf.params.len() <= usize::MAX && subst_ok_functype(
            pf.body,
            args,
            depth + pf.params.len(),
        ),
        TypeSpec::Variable(i, _) => i < depth || (i - depth < args.len() && match args[i
            - depth] {
            TypeArgSpec::Type(ty) => shift_ok_type(ty, depth, 0),
            _ => false,
        }),
        TypeSpec::RowVariable(i, _) => i < depth || (i - depth < args.len() && row_var_arg_ok(
            args[i - depth],
            depth,
        )),
        TypeSpec::Sum(SumTypeSpec::Unit(_)) => true,
        TypeSpec::Sum(SumTypeSpec::General(rows)) => subst_ok_rows(
            rows,
            args,
            depth,
            rows.len() as int,
        ),
    }
}

/// An argument standing for a row variable must be a list of types, or
/// itself a row variable, and each replacement must shift cleanly.
pub open spec fn row_var_arg_ok(a: TypeArgSpec, depth: nat) -> bool {
    match a {
        TypeArgSpec::Sequence(elems) => elems_types_ok(elems, depth, elems.len() as int),
        TypeArgSpec::Type(ty) => ty is RowVariable && shift_ok_type(ty, depth, 0),
        _ => false,
    }
}

/// The first `n` elements are all types that shift cleanly past `depth`
/// binders.
pub open spec fn elems_types_ok(elems: Seq<TypeArgSpec>, depth: nat, n: int) -> bool
    decreases elems, n,
{
    n <= 0 || n > elems.len() || (elems_types_ok(elems, depth, n - 1) && match elems[n - 1] {
        TypeArgSpec::Type(ty) => shift_ok_type(ty, depth, 0),
        _ => false,
    })
}

/// The prefix form of element-type success says the same as the pointwise
/// one.
pub proof fn lemma_elems_types_ok(elems: Seq<TypeArgSpec>, depth: nat, n: int)
    requires
        0 <= n <= elems.len(),
    ensures
        elems_types_ok(elems, depth, n) == (forall|i: int|
            0 <= i < n ==> match #[trigger] elems[i] {
                TypeArgSpec::Type(ty) => shift_ok_type(ty, depth, 0),
                _ => false,
            }),
    decreases n,
{
    if n > 0 {
        lemma_elems_types_ok(elems, depth, n - 1);
    }
}

/// Substituting into the first `n` rows succeeds.
pub open spec fn subst_ok_rows(
    rows: Seq<Seq<TypeSpec>>,
    args: Seq<TypeArgSpec>,
    depth: nat,
    n: int,
) -> bool
    decreases rows, n,
{
    n <= 0 || n > rows.len() || (subst_ok_rows(rows, args, depth, n - 1) && subst_ok_row(
        rows[n - 1],
        args,
        depth,
        rows[n - 1].len() as int,
    ))
}

/// Substituting into the first `n` types of a row succeeds.
pub open spec fn subst_ok_row(row: Seq<TypeSpec>, args: Seq<TypeArgSpec>, depth: nat, n: int) -> bool
    decreases row, n,
{
    n <= 0 || n > row.len() || (subst_ok_row(row, args, depth, n - 1) && subst_ok_type(
        row[n - 1],
        args,
        depth,
    ))
}

/// Substituting into the first `n` of an argument list succeeds.
pub open spec fn subst_ok_args(
    v: Seq<TypeArgSpec>,
    args: Seq<TypeArgSpec>,
    depth: nat,
    n: int,
) -> bool
    decreases v, n,
{
    n <= 0 || n > v.len() || (subst_ok_args(v, args, depth, n - 1) && subst_ok_arg(
        v[n - 1],
        args,
        depth,
    ))
}

/// Substituting into an extension set succeeds when every member that
/// resolves to a concrete set can have that set shifted cleanly.
pub open spec fn subst_ok_set(es: Set<ExtItemSpec>, args: Seq<TypeArgSpec>, depth: nat) -> bool {
    forall|x: ExtItemSpec| es.contains(x) ==> match x {
        ExtItemSpec::Ext(_) => true,
        ExtItemSpec::Var(i) => i < depth || i - depth >= args.len() || (match args[i - depth] {
            TypeArgSpec::Extensions(es2) => shift_ok_set(es2, depth, 0),
            _ => true,
        }),
    }
}

/// Substituting into one argument succeeds.
pub open spec fn subst_ok_arg(a: TypeArgSpec, args: Seq<TypeArgSpec>, depth: nat) -> bool
    decreases a, 1int,
{
    match a {
        TypeArgSpec::Type(t) => subst_ok_type(t, args, depth),
        TypeArgSpec::BoundedNat(_) => true,
        TypeArgSpec::Sequence(elems) => subst_ok_args(elems, args, depth, elems.len() as int),
        TypeArgSpec::Extensions(es) => subst_ok_set(es, args, depth),
        TypeArgSpec::Variable(i, _) => i < depth || i - depth >= args.len() || shift_ok_arg(
            args[i - depth],
            depth,
            0,
        ),
    }
}

/// Substituting into a function type succeeds.
pub open spec fn subst_ok_functype(f: FuncTypeSpec, args: Seq<TypeArgSpec>, depth: nat) -> bool
    decreases f, 1int,
{
    subst_ok_row(f.input, args, depth, f.input.len() as int) && subst_ok_row(
        f.output,
        args,
        depth,
        f.output.len() as int,
    ) && subst_ok_set(f.exts, args, depth)
}

/// The prefix form of row-substitution success says the same as the
/// pointwise one.
pub proof fn lemma_subst_ok_row(row: Seq<TypeSpec>, args: Seq<TypeArgSpec>, depth: nat, n: int)
    requires
        0 <= n <= row.len(),
    ensures
        subst_ok_row(row, args, depth, n) == (forall|i: int|
            0 <= i < n ==> subst_ok_type(#[trigger] row[i], args, depth)),
    decreases n,
{
    if n > 0 {
        lemma_subst_ok_row(row, args, depth, n - 1);
    }
}

/// The prefix form of rows-substitution success says the same as the
/// pointwise one.
pub proof fn lemma_subst_ok_rows(
    rows: Seq<Seq<TypeSpec>>,
    args: Seq<TypeArgSpec>,
    depth: nat,
    n: int,
)
    requires
        0 <= n <= rows.len(),
    ensures
        subst_ok_rows(rows, args, depth, n) == (forall|i: int|
            0 <= i < n ==> subst_ok_row(#[trigger] rows[i], args, depth, rows[i].len() as int)),
    decreases n,
{
    if n > 0 {
        lemma_subst_ok_rows(rows, args, depth, n - 1);
    }
}

/// The prefix form of argument-substitution success says the same as the
/// pointwise one.
pub proof fn lemma_subst_ok_args(
    v: Seq<TypeArgSpec>,
    args: Seq<TypeArgSpec>,
    depth: nat,
    n: int,
)
    requires
        0 <= n <= v.len(),
    ensures
        subst_ok_args(v, args, depth, n) == (forall|i: int|
            0 <= i < n ==> subst_ok_arg(#[trigger] v[i], args, depth)),
    decreases n,
{
    if n > 0 {
        lemma_subst_ok_args(v, args, depth, n - 1);
    }
}


// ------------------------------------------------------------------
// Executable shifting
// ------------------------------------------------------------------
/// Shift a type: raise by `delta` every variable index at `cutoff` or above.
/// Fails exactly when an index would leave the machine's range.
pub fn shift_type(t: &Type, delta: usize, cutoff: usize) -> (r: Result<Type, SignatureError>)
    requires
        wf_type(*t),
    ensures
        (r is Ok) == shift_ok_type(type_view(*t), delta as nat, cutoff as nat),
        r matches Ok(v) ==> type_view(v) == shift_type_spec(type_view(*t), delta as nat, cutoff as nat)
            && wf_type(v),
    decreases t,
{
    match &t.e {
        TypeEnum::Extension(c) => {
            proof {
                lemma_args_view(c.args);
                assert(type_view(*t) == TypeSpec::Extension(custom_view(*c)));
                assert(custom_view(*c).args == args_view(c.args));
            }
            let c2 = shift_custom(c, delta, cutoff)?;
            Ok(Type::new_extension(c2))
        },
        TypeEnum::Alias(a) => Ok(Type::new_alias(a.clone())),
        TypeEnum::Function(pf) => {
            proof {
                crate::types::lemma_params_view(pf.params);
                assert(type_view(*t) == TypeSpec::Function(Box::new(poly_view(**pf))));
            }
            let p2 = shift_poly(pf, delta, cutoff)?;
            Ok(Type::new_function(p2))
        },
        TypeEnum::Variable(i, b) => {
            if *i >= cutoff {
                if *i > usize::MAX - delta {
                    Err(SignatureError::InvalidTypeArgs)
                } else {
                    Ok(Type::new_var_use(*i + delta, *b))
                }
            } else {
                Ok(Type::new_var_use(*i, *b))
            }
        },
        TypeEnum::RowVariable(i, b) => {
            if *i >= cutoff {
                if *i > usize::MAX - delta {
                    Err(SignatureError::InvalidTypeArgs)
                } else {
                    Ok(Type::new_row_var_use(*i + delta, *b))
                }
            } else {
                Ok(Type::new_row_var_use(*i, *b))
            }
        },
        TypeEnum::Sum(SumType::Unit { size }) => Ok(Type::new_unit_sum(*size)),
        TypeEnum::Sum(SumType::General { rows }) => {
            proof {
                lemma_rows_view(*rows);
                assert(type_view(*t) == TypeSpec::Sum(SumTypeSpec::General(rows_view(*rows))));
            }
            let rows2 = shift_rows(rows, delta, cutoff)?;
            proof {
                lemma_rows_view(rows2);
            }
            let r = Type::new(TypeEnum::Sum(SumType::General { rows: rows2 }));
            Ok(r)
        },
    }
}

/// Shift every row of a list of rows.
pub fn shift_rows(rows: &Vec<TypeRow>, delta: usize, cutoff: usize) -> (r: Result<
    Vec<TypeRow>,
    SignatureError,
>)
    requires
        wf_rows(*rows),
    ensures
        (r is Ok) == shift_ok_rows(rows_view(*rows), delta as nat, cutoff as nat, rows@.len() as int),
        r matches Ok(v) ==> rows_view(v) == shift_rows_spec(
            rows_view(*rows),
            delta as nat,
            cutoff as nat,
            rows@.len() as int,
        ) && wf_rows(v),
    decreases rows,
{
    let ghost vm = rows_view(*rows);
    proof {
        lemma_rows_view(*rows);
    }
    let mut out: Vec<TypeRow> = Vec::new();
    let mut i: usize = 0;
    while i < rows.len()
        invariant
            wf_rows(*rows),
            i <= rows@.len(),
            vm == rows_view(*rows),
            vm.len() == rows@.len(),
            forall|j: int| 0 <= j < rows@.len() ==> vm[j] == row_view(rows@[j]),
            shift_ok_rows(vm, delta as nat, cutoff as nat, i as int),
            rows_view(out) == shift_rows_spec(vm, delta as nat, cutoff as nat, i as int),
            wf_rows(out),
            out@.len() == i,
        decreases rows@.len() - i,
    {
        proof {
            assert forall|k: int| 0 <= k < rows@[i as int]@.len() implies wf_type(
                #[trigger] rows@[i as int]@[k],
            ) by {}
        }
        let row2 = match shift_row(&rows[i], delta, cutoff) {
            Ok(v) => v,
            Err(e) => {
                proof {
                    lemma_shift_ok_rows(vm, delta as nat, cutoff as nat, vm.len() as int);
                    lemma_row_view(rows@[i as int]);
                    assert(!shift_ok_row(vm[i as int], delta as nat, cutoff as nat, vm[i as int].len() as int));
                }
                return Err(e);
            },
        };
        let ghost pre = out;
        out.push(row2);
        proof {
            lemma_rows_view(out);
            lemma_rows_view(pre);
            lemma_row_view(rows@[i as int]);
            assert(rows_view(out) =~= shift_rows_spec(vm, delta as nat, cutoff as nat, i + 1));
            assert forall|i0: int, j0: int|
                0 <= i0 < out@.len() && 0 <= j0 < out@[i0]@.len() implies wf_type(
                #[trigger] out@[i0]@[j0],
            ) by {
                if i0 < pre@.len() {
                    assert(wf_type(pre@[i0]@[j0]));
                } else {
                    assert(wf_row(out@[i0]));
                }
            }
        }
        i += 1;
    }
    Ok(out)
}

/// Shift every type of a row.
pub fn shift_row(row: &TypeRow, delta: usize, cutoff: usize) -> (r: Result<
    TypeRow,
    SignatureError,
>)
    requires
        wf_row(*row),
    ensures
        (r is Ok) == shift_ok_row(row_view(*row), delta as nat, cutoff as nat, row@.len() as int),
        r matches Ok(v) ==> row_view(v) == shift_row_spec(
            row_view(*row),
            delta as nat,
            cutoff as nat,
            row@.len() as int,
        ) && wf_row(v),
    decreases row,
{
    let ghost vm = row_view(*row);
    proof {
        lemma_row_view(*row);
    }
    let mut out: TypeRow = Vec::new();
    let mut i: usize = 0;
    while i < row.len()
        invariant
            wf_row(*row),
            i <= row@.len(),
            vm == row_view(*row),
            vm.len() == row@.len(),
            forall|j: int| 0 <= j < row@.len() ==> vm[j] == type_view(row@[j]),
            shift_ok_row(vm, delta as nat, cutoff as nat, i as int),
            row_view(out) == shift_row_spec(vm, delta as nat, cutoff as nat, i as int),
            wf_row(out),
            out@.len() == i,
        decreases row@.len() - i,
    {
        let t2 = match shift_type(&row[i], delta, cutoff) {
            Ok(v) => v,
            Err(e) => {
                proof {
                    lemma_shift_ok_row(vm, delta as nat, cutoff as nat, vm.len() as int);
                    assert(!shift_ok_type(vm[i as int], delta as nat, cutoff as nat));
                }
                return Err(e);
            },
        };
        let ghost pre = out;
        out.push(t2);
        proof {
            lemma_row_view(out);
            lemma_row_view(pre);
            assert(row_view(out) =~= shift_row_spec(vm, delta as nat, cutoff as nat, i + 1));
        }
        i += 1;
    }
    Ok(out)
}

/// Shift a custom type's arguments.
pub fn shift_custom(c: &CustomType, delta: usize, cutoff: usize) -> (r: Result<
    CustomType,
    SignatureError,
>)
    requires
        wf_custom(*c),
    ensures
        (r is Ok) == shift_ok_args(
            args_view(c.args),
            delta as nat,
            cutoff as nat,
            c.args@.len() as int,
        ),
        r matches Ok(v) ==> custom_view(v) == shift_custom_spec(
            custom_view(*c),
            delta as nat,
            cutoff as nat,
        ) && wf_custom(v),
    decreases c,
{
    proof {
        lemma_args_view(c.args);
        assert(custom_view(*c) == CustomTypeSpec {
            extension: c.extension@,
            id: c.id@,
            args: args_view(c.args),
            bound: c.bound,
        });
    }
    let args2 = shift_args(&c.args, delta, cutoff)?;
    let r = CustomType {
        extension: c.extension.clone(),
        id: c.id.clone(),
        args: args2,
        bound: c.bound,
    };
    proof {
        assert(custom_view(r) =~= shift_custom_spec(custom_view(*c), delta as nat, cutoff as nat));
    }
    Ok(r)
}

/// Shift every argument of a list.
pub fn shift_args(v: &Vec<TypeArg>, delta: usize, cutoff: usize) -> (r: Result<
    Vec<TypeArg>,
    SignatureError,
>)
    requires
        wf_args(*v),
    ensures
        (r is Ok) == shift_ok_args(args_view(*v), delta as nat, cutoff as nat, v@.len() as int),
        r matches Ok(out) ==> args_view(out) == shift_args_spec(
            args_view(*v),
            delta as nat,
            cutoff as nat,
            v@.len() as int,
        ) && wf_args(out),
    decreases v,
{
    let ghost vm = args_view(*v);
    proof {
        lemma_args_view(*v);
    }
    let mut out: Vec<TypeArg> = Vec::new();
    let mut i: usize = 0;
    while i < v.len()
        invariant
            wf_args(*v),
            i <= v@.len(),
            vm == args_view(*v),
            vm.len() == v@.len(),
            forall|j: int| 0 <= j < v@.len() ==> vm[j] == arg_view(v@[j]),
            shift_ok_args(vm, delta as nat, cutoff as nat, i as int),
            args_view(out) == shift_args_spec(vm, delta as nat, cutoff as nat, i as int),
            wf_args(out),
            out@.len() == i,
        decreases v@.len() - i,
    {
        let a2 = match shift_arg(&v[i], delta, cutoff) {
            Ok(x) => x,
            Err(e) => {
                proof {
                    lemma_shift_ok_args(vm, delta as nat, cutoff as nat, vm.len() as int);
                    assert(!shift_ok_arg(vm[i as int], delta as nat, cutoff as nat));
                }
                return Err(e);
            },
        };
        let ghost pre = out;
        out.push(a2);
        proof {
            lemma_args_view(out);
            lemma_args_view(pre);
            assert(args_view(out) =~= shift_args_spec(vm, delta as nat, cutoff as nat, i + 1));
        }
        i += 1;
    }
    Ok(out)
}

/// Shift one argument.
pub fn shift_arg(a: &TypeArg, delta: usize, cutoff: usize) -> (r: Result<TypeArg, SignatureError>)
    requires
        wf_arg(*a),
    ensures
        (r is Ok) == shift_ok_arg(arg_view(*a), delta as nat, cutoff as nat),
        r matches Ok(v) ==> arg_view(v) == shift_arg_spec(arg_view(*a), delta as nat, cutoff as nat)
            && wf_arg(v),
    decreases a,
{
    match a {
        TypeArg::Type { ty } => {
            let t2 = shift_type(ty, delta, cutoff)?;
            Ok(TypeArg::Type { ty: t2 })
        },
        TypeArg::BoundedNat { n } => Ok(TypeArg::BoundedNat { n: *n }),
        TypeArg::Sequence { elems } => {
            proof {
                crate::types::lemma_wf_arg_sequence(*elems);
                lemma_args_view(*elems);
                assert(arg_view(*a) == TypeArgSpec::Sequence(args_view(*elems)));
            }
            let e2 = shift_args(elems, delta, cutoff)?;
            proof {
                crate::types::lemma_wf_arg_sequence(e2);
            }
            Ok(TypeArg::Sequence { elems: e2 })
        },
        TypeArg::Extensions { es } => {
            let es2 = shift_set(es, delta, cutoff)?;
            Ok(TypeArg::Extensions { es: es2 })
        },
        TypeArg::Variable { idx, cached_decl } => {
            if *idx >= cutoff {
                if *idx > usize::MAX - delta {
                    Err(SignatureError::InvalidTypeArgs)
                } else {
                    Ok(TypeArg::Variable { idx: *idx + delta, cached_decl: cached_decl.clone() })
                }
            } else {
                Ok(TypeArg::Variable { idx: *idx, cached_decl: cached_decl.clone() })
            }
        },
    }
}

/// Shift every member of an extension set.
pub fn shift_set(es: &ExtensionSet, delta: usize, cutoff: usize) -> (r: Result<
    ExtensionSet,
    SignatureError,
>)
    ensures
        (r is Ok) == shift_ok_set(es@, delta as nat, cutoff as nat),
        r matches Ok(v) ==> v@ == shift_set_spec(es@, delta as nat, cutoff as nat),
{
    let mut out = ExtensionSet::new();
    let mut i: usize = 0;
    while i < es.items.len()
        invariant
            i <= es.items@.len(),
            forall|j: int| 0 <= j < i ==> shift_ok_item(
                #[trigger] es.items@[j]@,
                delta as nat,
                cutoff as nat,
            ),
            out@ == Set::new(
                |y: ExtItemSpec| exists|j: int|
                    0 <= j < i && y == shift_item_spec(es.items@[j]@, delta as nat, cutoff as nat),
            ),
        decreases es.items@.len() - i,
    {
        proof {
            lemma_members_contains(es.items@, i as int);
        }
        let item = &es.items[i];
        let shifted = match item {
            ExtItem::Ext(id) => ExtItem::Ext(id.clone()),
            ExtItem::Var(v) => {
                if *v >= cutoff {
                    if *v > usize::MAX - delta {
                        proof {
                            assert(es@.contains(es.items@[i as int]@));
                            assert(!shift_ok_item(es.items@[i as int]@, delta as nat, cutoff as nat));
                        }
                        return Err(SignatureError::InvalidTypeArgs);
                    }
                    ExtItem::Var(*v + delta)
                } else {
                    ExtItem::Var(*v)
                }
            },
        };
        proof {
            assert(shifted@ == shift_item_spec(es.items@[i as int]@, delta as nat, cutoff as nat));
        }
        let ghost pre = out@;
        out.insert_item(shifted);
        proof {
            assert(out@ =~= Set::new(
                |y: ExtItemSpec| exists|j: int|
                    0 <= j < i + 1 && y == shift_item_spec(
                        es.items@[j]@,
                        delta as nat,
                        cutoff as nat,
                    ),
            )) by {
                assert forall|y: ExtItemSpec| out@.contains(y) implies exists|j: int|
                    0 <= j < i + 1 && y == shift_item_spec(
                        es.items@[j]@,
                        delta as nat,
                        cutoff as nat,
                    ) by {
                    if pre.contains(y) {
                        let j = choose|j: int|
                            0 <= j < i && y == shift_item_spec(
                                es.items@[j]@,
                                delta as nat,
                                cutoff as nat,
                            );
                        assert(0 <= j < i + 1 && y == shift_item_spec(
                            es.items@[j]@,
                            delta as nat,
                            cutoff as nat,
                        ));
                    } else {
                        assert(y == shift_item_spec(
                            es.items@[i as int]@,
                            delta as nat,
                            cutoff as nat,
                        ));
                    }
                }
            }
        }
        i += 1;
    }
    proof {
        assert forall|x: ExtItemSpec| es@.contains(x) implies shift_ok_item(
            x,
            delta as nat,
            cutoff as nat,
        ) by {
            let j = choose|j: int| 0 <= j < es.items@.len() && es.items@[j]@ == x;
            assert(shift_ok_item(es.items@[j]@, delta as nat, cutoff as nat));
        }
        assert forall|y: ExtItemSpec| out@.contains(y) implies shift_set_spec(
            es@,
            delta as nat,
            cutoff as nat,
        ).contains(y) by {
            let j = choose|j: int|
                0 <= j < es.items@.len() && y == shift_item_spec(
                    es.items@[j]@,
                    delta as nat,
                    cutoff as nat,
                );
            lemma_members_contains(es.items@, j);
            assert(es@.contains(es.items@[j]@) && y == shift_item_spec(
                es.items@[j]@,
                delta as nat,
                cutoff as nat,
            ));
        }
        assert forall|y: ExtItemSpec| shift_set_spec(es@, delta as nat, cutoff as nat).contains(
            y,
        ) implies out@.contains(y) by {
            let x = choose|x: ExtItemSpec|
                es@.contains(x) && y == shift_item_spec(x, delta as nat, cutoff as nat);
            let j = choose|j: int| 0 <= j < es.items@.len() && es.items@[j]@ == x;
            assert(0 <= j < es.items@.len() && y == shift_item_spec(
                es.items@[j]@,
                delta as nat,
                cutoff as nat,
            ));
        }
        assert(out@ =~= shift_set_spec(es@, delta as nat, cutoff as nat));
    }
    Ok(out)
}

/// Shift a function type.
pub fn shift_functype(f: &FunctionType, delta: usize, cutoff: usize) -> (r: Result<
    FunctionType,
    SignatureError,
>)
    requires
        wf_functype(*f),
    ensures
        (r is Ok) == shift_ok_functype(functype_view(*f), delta as nat, cutoff as nat),
        r matches Ok(v) ==> functype_view(v) == shift_functype_spec(
            functype_view(*f),
            delta as nat,
            cutoff as nat,
        ) && wf_functype(v),
    decreases f,
{
    proof {
        lemma_row_view(f.input);
        lemma_row_view(f.output);
        assert(functype_view(*f) == FuncTypeSpec {
            input: row_view(f.input),
            output: row_view(f.output),
            exts: f.extension_reqs@,
        });
    }
    let input = shift_row(&f.input, delta, cutoff)?;
    let output = shift_row(&f.output, delta, cutoff)?;
    let exts = shift_set(&f.extension_reqs, delta, cutoff)?;
    let r = FunctionType { input, output, extension_reqs: exts };
    proof {
        assert(functype_view(r) =~= shift_functype_spec(
            functype_view(*f),
            delta as nat,
            cutoff as nat,
        ));
    }
    Ok(r)
}

/// Shift a polymorphic function type: the body is shifted past the scheme's
/// own parameters.
pub fn shift_poly(p: &PolyFuncType, delta: usize, cutoff: usize) -> (r: Result<
    PolyFuncType,
    SignatureError,
>)
    requires
        wf_poly(*p),
    ensures
        (r is Ok) == (cutoff + p.params@.len() <= usize::MAX && shift_ok_functype(
            functype_view(p.body),
            delta as nat,
            cutoff as nat + p.params@.len(),
        )),
        r matches Ok(v) ==> poly_view(v) == shift_poly_spec(
            poly_view(*p),
            delta as nat,
            cutoff as nat,
        ) && wf_poly(v),
    decreases p,
{
    if cutoff > usize::MAX - p.params.len() {
        return Err(SignatureError::InvalidTypeArgs);
    }
    let body = shift_functype(&p.body, delta, cutoff + p.params.len())?;
    let params = crate::types::clone_params(&p.params);
    let r = PolyFuncType { params, body };
    proof {
        crate::types::lemma_params_view(p.params);
        assert(poly_view(r) =~= shift_poly_spec(poly_view(*p), delta as nat, cutoff as nat));
    }
    Ok(r)
}


// ------------------------------------------------------------------
// Executable substitution
// ------------------------------------------------------------------
/// Apply a substitution to a type, producing the row it stands for: one
/// type, except that a row variable expands to the flattening of its list
/// argument.  Fails exactly when a variable in range resolves to an argument
/// of the wrong kind — an internal-invariant breach that validation rules
/// out — or an index would leave the machine's range.
pub fn subst_type(t: &Type, args: &Vec<TypeArg>, depth: usize) -> (r: Result<
    TypeRow,
    SignatureError,
>)
    requires
        wf_type(*t),
        wf_args(*args),
    ensures
        (r is Ok) == subst_ok_type(type_view(*t), args_view(*args), depth as nat),
        r matches Ok(v) ==> row_view(v) == subst_type_spec(
            type_view(*t),
            args_view(*args),
            depth as nat,
        ) && wf_row(v),
    decreases t,
{
    proof {
        lemma_args_view(*args);
    }
    match &t.e {
        TypeEnum::Extension(c) => {
            proof {
                lemma_args_view(c.args);
                assert(type_view(*t) == TypeSpec::Extension(custom_view(*c)));
                assert(custom_view(*c).args == args_view(c.args));
            }
            let c2 = subst_custom(c, args, depth)?;
            let out = Type::new_extension(c2);
            let mut v: TypeRow = Vec::new();
            v.push(out);
            proof {
                lemma_row_view(v);
                assert(row_view(v) =~= subst_type_spec(
                    type_view(*t),
                    args_view(*args),
                    depth as nat,
                ));
            }
            Ok(v)
        },
        TypeEnum::Alias(a) => {
            let mut v: TypeRow = Vec::new();
            v.push(Type::new_alias(a.clone()));
            proof {
                lemma_row_view(v);
                assert(row_view(v) =~= subst_type_spec(
                    type_view(*t),
                    args_view(*args),
                    depth as nat,
                ));
            }
            Ok(v)
        },
        TypeEnum::Function(pf) => {
            proof {
                crate::types::lemma_params_view(pf.params);
                assert(type_view(*t) == TypeSpec::Function(Box::new(poly_view(**pf))));
            }
            let p2 = subst_poly(pf, args, depth)?;
            let mut v: TypeRow = Vec::new();
            v.push(Type::new_function(p2));
            proof {
                lemma_row_view(v);
                assert(row_view(v) =~= subst_type_spec(
                    type_view(*t),
                    args_view(*args),
                    depth as nat,
                ));
            }
            Ok(v)
        },
        TypeEnum::Variable(i, b) => {
            if *i < depth || *i - depth >= args.len() {
                if *i >= depth {
                    return Err(SignatureError::InvalidTypeArgs);
                }
                let mut v: TypeRow = Vec::new();
                v.push(Type::new_var_use(*i, *b));
                proof {
                    lemma_row_view(v);
                    assert(row_view(v) =~= subst_type_spec(
                        type_view(*t),
                        args_view(*args),
                        depth as nat,
                    ));
                }
                Ok(v)
            } else {
                match &args[*i - depth] {
                    TypeArg::Type { ty } => {
                        let t2 = shift_type(ty, depth, 0)?;
                        let mut v: TypeRow = Vec::new();
                        v.push(t2);
                        proof {
                            lemma_row_view(v);
                            assert(row_view(v) =~= subst_type_spec(
                                type_view(*t),
                                args_view(*args),
                                depth as nat,
                            ));
                        }
                        Ok(v)
                    },
                    _ => Err(SignatureError::InvalidTypeArgs),
                }
            }
        },
        TypeEnum::RowVariable(i, b) => {
            if *i < depth || *i - depth >= args.len() {
                if *i >= depth {
                    return Err(SignatureError::InvalidTypeArgs);
                }
                let mut v: TypeRow = Vec::new();
                v.push(Type::new_row_var_use(*i, *b));
                proof {
                    lemma_row_view(v);
                    assert(row_view(v) =~= subst_type_spec(
                        type_view(*t),
                        args_view(*args),
                        depth as nat,
                    ));
                }
                Ok(v)
            } else {
                proof {
                    assert(args_view(*args)[*i - depth] == arg_view(args@[*i - depth]));
                }
                match &args[*i - depth] {
                    TypeArg::Sequence { elems } => {
                        proof {
                            crate::types::lemma_wf_arg_sequence(*elems);
                            lemma_args_view(*elems);
                            assert(arg_view(args@[*i - depth]) == TypeArgSpec::Sequence(
                                args_view(*elems),
                            ));
                        }
                        let v = elems_to_row(elems, depth)?;
                        proof {
                            assert(row_view(v) == subst_type_spec(
                                type_view(*t),
                                args_view(*args),
                                depth as nat,
                            ));
                        }
                        Ok(v)
                    },
                    TypeArg::Type { ty } => {
                        proof {
                            assert(arg_view(args@[*i - depth]) == TypeArgSpec::Type(
                                type_view(*ty),
                            ));
                        }
                        if !ty.is_row_var() {
                            return Err(SignatureError::InvalidTypeArgs);
                        }
                        let t2 = shift_type(ty, depth, 0)?;
                        let mut v: TypeRow = Vec::new();
                        v.push(t2);
                        proof {
                            lemma_row_view(v);
                            assert(row_view(v) =~= subst_type_spec(
                                type_view(*t),
                                args_view(*args),
                                depth as nat,
                            ));
                        }
                        Ok(v)
                    },
                    _ => Err(SignatureError::InvalidTypeArgs),
                }
            }
        },
        TypeEnum::Sum(SumType::Unit { size }) => {
            let mut v: TypeRow = Vec::new();
            v.push(Type::new_unit_sum(*size));
            proof {
                lemma_row_view(v);
                assert(row_view(v) =~= subst_type_spec(
                    type_view(*t),
                    args_view(*args),
                    depth as nat,
                ));
            }
            Ok(v)
        },
        TypeEnum::Sum(SumType::General { rows }) => {
            proof {
                lemma_rows_view(*rows);
                assert(type_view(*t) == TypeSpec::Sum(SumTypeSpec::General(rows_view(*rows))));
            }
            let rows2 = subst_rows(rows, args, depth)?;
            proof {
                lemma_rows_view(rows2);
            }
            let out = Type::new(TypeEnum::Sum(SumType::General { rows: rows2 }));
            let mut v: TypeRow = Vec::new();
            v.push(out);
            proof {
                lemma_row_view(v);
                assert(row_view(v) =~= subst_type_spec(
                    type_view(*t),
                    args_view(*args),
                    depth as nat,
                ));
            }
            Ok(v)
        },
    }
}

/// The row of types a list argument stands for: each element must be a type
/// and is shifted past `depth` binders.
pub fn elems_to_row(elems: &Vec<TypeArg>, depth: usize) -> (r: Result<TypeRow, SignatureError>)
    requires
        wf_args(*elems),
    ensures
        (r is Ok) == elems_types_ok(args_view(*elems), depth as nat, elems@.len() as int),
        r matches Ok(v) ==> row_view(v) == elems_to_row_spec(
            args_view(*elems),
            depth as nat,
            elems@.len() as int,
        ) && wf_row(v),
{
    let ghost vm = args_view(*elems);
    proof {
        lemma_args_view(*elems);
    }
    let mut out: TypeRow = Vec::new();
    let mut i: usize = 0;
    while i < elems.len()
        invariant
            wf_args(*elems),
            i <= elems@.len(),
            vm == args_view(*elems),
            vm.len() == elems@.len(),
            forall|j: int| 0 <= j < elems@.len() ==> vm[j] == arg_view(elems@[j]),
            elems_types_ok(vm, depth as nat, i as int),
            row_view(out) == elems_to_row_spec(vm, depth as nat, i as int),
            wf_row(out),
        decreases elems@.len() - i,
    {
        match &elems[i] {
            TypeArg::Type { ty } => {
                let t2 = match shift_type(ty, depth, 0) {
                    Ok(v) => v,
                    Err(e) => {
                        proof {
                            lemma_elems_types_ok(vm, depth as nat, vm.len() as int);
                            assert(vm[i as int] matches TypeArgSpec::Type(tv) && !shift_ok_type(
                                tv,
                                depth as nat,
                                0,
                            ));
                        }
                        return Err(e);
                    },
                };
                let ghost pre = out;
                out.push(t2);
                proof {
                    lemma_row_view(out);
                    lemma_row_view(pre);
                    assert(row_view(out) =~= elems_to_row_spec(vm, depth as nat, i + 1));
                }
            },
            _ => {
                proof {
                    lemma_elems_types_ok(vm, depth as nat, vm.len() as int);
                    assert(!(vm[i as int] is Type));
                }
                return Err(SignatureError::InvalidTypeArgs);
            },
        }
        i += 1;
    }
    Ok(out)
}

/// Substitute into every type of a row, splicing row-variable expansions in
/// place.
pub fn subst_row(row: &TypeRow, args: &Vec<TypeArg>, depth: usize) -> (r: Result<
    TypeRow,
    SignatureError,
>)
    requires
        wf_row(*row),
        wf_args(*args),
    ensures
        (r is Ok) == subst_ok_row(row_view(*row), args_view(*args), depth as nat, row@.len() as int),
        r matches Ok(v) ==> row_view(v) == subst_row_spec(
            row_view(*row),
            args_view(*args),
            depth as nat,
            row@.len() as int,
        ) && wf_row(v),
    decreases row,
{
    let ghost vm = row_view(*row);
    let ghost am = args_view(*args);
    proof {
        lemma_row_view(*row);
    }
    let mut out: TypeRow = Vec::new();
    let mut i: usize = 0;
    while i < row.len()
        invariant
            wf_row(*row),
            wf_args(*args),
            i <= row@.len(),
            vm == row_view(*row),
            am == args_view(*args),
            vm.len() == row@.len(),
            forall|j: int| 0 <= j < row@.len() ==> vm[j] == type_view(row@[j]),
            subst_ok_row(vm, am, depth as nat, i as int),
            row_view(out) == subst_row_spec(vm, am, depth as nat, i as int),
            wf_row(out),
        decreases row@.len() - i,
    {
        let mut part = match subst_type(&row[i], args, depth) {
            Ok(v) => v,
            Err(e) => {
                proof {
                    lemma_subst_ok_row(vm, am, depth as nat, vm.len() as int);
                    assert(!subst_ok_type(vm[i as int], am, depth as nat));
                }
                return Err(e);
            },
        };
        let ghost pre = out;
        let ghost partg = part;
        out.append(&mut part);
        proof {
            lemma_row_view(out);
            lemma_row_view(pre);
            lemma_row_view(partg);
            assert(row_view(out) =~= subst_row_spec(vm, am, depth as nat, i + 1));
            assert forall|j: int| 0 <= j < out@.len() implies wf_type(#[trigger] out@[j]) by {
                if j < pre@.len() {
                    assert(wf_type(pre@[j]));
                } else {
                    assert(wf_type(partg@[j - pre@.len()]));
                }
            }
        }
        i += 1;
    }
    Ok(out)
}

/// Substitute into every row of a list of rows.
pub fn subst_rows(rows: &Vec<TypeRow>, args: &Vec<TypeArg>, depth: usize) -> (r: Result<
    Vec<TypeRow>,
    SignatureError,
>)
    requires
        wf_rows(*rows),
        wf_args(*args),
    ensures
        (r is Ok) == subst_ok_rows(
            rows_view(*rows),
            args_view(*args),
            depth as nat,
            rows@.len() as int,
        ),
        r matches Ok(v) ==> rows_view(v) == subst_rows_spec(
            rows_view(*rows),
            args_view(*args),
            depth as nat,
            rows@.len() as int,
        ) && wf_rows(v),
    decreases rows,
{
    let ghost vm = rows_view(*rows);
    let ghost am = args_view(*args);
    proof {
        lemma_rows_view(*rows);
    }
    let mut out: Vec<TypeRow> = Vec::new();
    let mut i: usize = 0;
    while i < rows.len()
        invariant
            wf_rows(*rows),
            wf_args(*args),
            i <= rows@.len(),
            vm == rows_view(*rows),
            am == args_view(*args),
            vm.len() == rows@.len(),
            forall|j: int| 0 <= j < rows@.len() ==> vm[j] == row_view(rows@[j]),
            subst_ok_rows(vm, am, depth as nat, i as int),
            rows_view(out) == subst_rows_spec(vm, am, depth as nat, i as int),
            wf_rows(out),
        decreases rows@.len() - i,
    {
        proof {
            assert forall|k: int| 0 <= k < rows@[i as int]@.len() implies wf_type(
                #[trigger] rows@[i as int]@[k],
            ) by {}
            lemma_row_view(rows@[i as int]);
        }
        let row2 = match subst_row(&rows[i], args, depth) {
            Ok(v) => v,
            Err(e) => {
                proof {
                    lemma_subst_ok_rows(vm, am, depth as nat, vm.len() as int);
                    assert(!subst_ok_row(vm[i as int], am, depth as nat, vm[i as int].len() as int));
                }
                return Err(e);
            },
        };
        let ghost pre = out;
        out.push(row2);
        proof {
            lemma_rows_view(out);
            lemma_rows_view(pre);
            assert(rows_view(out) =~= subst_rows_spec(vm, am, depth as nat, i + 1));
            assert forall|i0: int, j0: int|
                0 <= i0 < out@.len() && 0 <= j0 < out@[i0]@.len() implies wf_type(
                #[trigger] out@[i0]@[j0],
            ) by {
                if i0 < pre@.len() {
                    assert(wf_type(pre@[i0]@[j0]));
                } else {
                    assert(wf_row(out@[i0]));
                }
            }
        }
        i += 1;
    }
    Ok(out)
}

/// Substitute into a custom type's arguments.  The stored bound is kept;
/// validation checks it against the registry.
pub fn subst_custom(c: &CustomType, args: &Vec<TypeArg>, depth: usize) -> (r: Result<
    CustomType,
    SignatureError,
>)
    requires
        wf_custom(*c),
        wf_args(*args),
    ensures
        (r is Ok) == subst_ok_args(
            args_view(c.args),
            args_view(*args),
            depth as nat,
            c.args@.len() as int,
        ),
        r matches Ok(v) ==> custom_view(v) == subst_custom_spec(
            custom_view(*c),
            args_view(*args),
            depth as nat,
        ) && wf_custom(v),
    decreases c,
{
    proof {
        lemma_args_view(c.args);
        assert(custom_view(*c) == CustomTypeSpec {
            extension: c.extension@,
            id: c.id@,
            args: args_view(c.args),
            bound: c.bound,
        });
    }
    let args2 = subst_args(&c.args, args, depth)?;
    let r = CustomType {
        extension: c.extension.clone(),
        id: c.id.clone(),
        args: args2,
        bound: c.bound,
    };
    proof {
        assert(custom_view(r) =~= subst_custom_spec(
            custom_view(*c),
            args_view(*args),
            depth as nat,
        ));
    }
    Ok(r)
}

/// Substitute into every argument of a list, elementwise.
pub fn subst_args(v: &Vec<TypeArg>, args: &Vec<TypeArg>, depth: usize) -> (r: Result<
    Vec<TypeArg>,
    SignatureError,
>)
    requires
        wf_args(*v),
        wf_args(*args),
    ensures
        (r is Ok) == subst_ok_args(args_view(*v), args_view(*args), depth as nat, v@.len() as int),
        r matches Ok(out) ==> args_view(out) == subst_args_spec(
            args_view(*v),
            args_view(*args),
            depth as nat,
            v@.len() as int,
        ) && wf_args(out),
    decreases v,
{
    let ghost vm = args_view(*v);
    let ghost am = args_view(*args);
    proof {
        lemma_args_view(*v);
    }
    let mut out: Vec<TypeArg> = Vec::new();
    let mut i: usize = 0;
    while i < v.len()
        invariant
            wf_args(*v),
            wf_args(*args),
            i <= v@.len(),
            vm == args_view(*v),
            am == args_view(*args),
            vm.len() == v@.len(),
            forall|j: int| 0 <= j < v@.len() ==> vm[j] == arg_view(v@[j]),
            subst_ok_args(vm, am, depth as nat, i as int),
            args_view(out) == subst_args_spec(vm, am, depth as nat, i as int),
            wf_args(out),
        decreases v@.len() - i,
    {
        let a2 = match subst_arg(&v[i], args, depth) {
            Ok(x) => x,
            Err(e) => {
                proof {
                    lemma_subst_ok_args(vm, am, depth as nat, vm.len() as int);
                    assert(!subst_ok_arg(vm[i as int], am, depth as nat));
                }
                return Err(e);
            },
        };
        let ghost pre = out;
        out.push(a2);
        proof {
            lemma_args_view(out);
            lemma_args_view(pre);
            assert(args_view(out) =~= subst_args_spec(vm, am, depth as nat, i + 1));
        }
        i += 1;
    }
    Ok(out)
}

/// Substitute into one argument.
pub fn subst_arg(a: &TypeArg, args: &Vec<TypeArg>, depth: usize) -> (r: Result<
    TypeArg,
    SignatureError,
>)
    requires
        wf_arg(*a),
        wf_args(*args),
    ensures
        (r is Ok) == subst_ok_arg(arg_view(*a), args_view(*args), depth as nat),
        r matches Ok(v) ==> arg_view(v) == subst_arg_spec(
            arg_view(*a),
            args_view(*args),
            depth as nat,
        ) && wf_arg(v),
    decreases a,
{
    proof {
        lemma_args_view(*args);
    }
    match a {
        TypeArg::Type { ty } => {
            proof {
                assert(arg_view(*a) == TypeArgSpec::Type(type_view(*ty)));
            }
            let row = subst_type(ty, args, depth)?;
            proof {
                lemma_row_view(row);
            }
            if row.len() == 1 {
                let mut row = row;
                let ghost row0 = row;
                let t = match row.pop() {
                    Some(t) => t,
                    None => {
                        return Err(SignatureError::InvalidTypeArgs);
                    },
                };
                proof {
                    assert(t == row0@[0]);
                    assert(type_view(t) == row_view(row0)[0]);
                    assert(type_view(t) == subst_type_spec(
                        type_view(*ty),
                        args_view(*args),
                        depth as nat,
                    )[0]);
                }
                let out = TypeArg::Type { ty: t };
                proof {
                    assert(arg_view(out) == subst_arg_spec(
                        arg_view(*a),
                        args_view(*args),
                        depth as nat,
                    ));
                }
                Ok(out)
            } else {
                let elems = row_to_elems(&row);
                let out = TypeArg::Sequence { elems };
                proof {
                    crate::types::lemma_wf_arg_sequence(out->elems);
                    assert(arg_view(out) == subst_arg_spec(
                        arg_view(*a),
                        args_view(*args),
                        depth as nat,
                    ));
                }
                Ok(out)
            }
        },
        TypeArg::BoundedNat { n } => Ok(TypeArg::BoundedNat { n: *n }),
        TypeArg::Sequence { elems } => {
            proof {
                crate::types::lemma_wf_arg_sequence(*elems);
                lemma_args_view(*elems);
                assert(arg_view(*a) == TypeArgSpec::Sequence(args_view(*elems)));
            }
            let e2 = subst_args(elems, args, depth)?;
            proof {
                crate::types::lemma_wf_arg_sequence(e2);
            }
            Ok(TypeArg::Sequence { elems: e2 })
        },
        TypeArg::Extensions { es } => {
            let es2 = subst_set(es, args, depth)?;
            Ok(TypeArg::Extensions { es: es2 })
        },
        TypeArg::Variable { idx, cached_decl } => {
            if *idx < depth || *idx - depth >= args.len() {
                Ok(TypeArg::Variable { idx: *idx, cached_decl: cached_decl.clone() })
            } else {
                let shifted = shift_arg(&args[*idx - depth], depth, 0)?;
                Ok(shifted)
            }
        },
    }
}

/// Wrap a row of types back into a list of type arguments.
pub fn row_to_elems(row: &TypeRow) -> (r: Vec<TypeArg>)
    requires
        wf_row(*row),
    ensures
        args_view(r) == row_to_elems_spec(row_view(*row), row@.len() as int),
        wf_args(r),
        r@.len() == row@.len(),
{
    let ghost vm = row_view(*row);
    proof {
        lemma_row_view(*row);
    }
    let mut out: Vec<TypeArg> = Vec::new();
    let mut i: usize = 0;
    while i < row.len()
        invariant
            wf_row(*row),
            i <= row@.len(),
            vm == row_view(*row),
            vm.len() == row@.len(),
            forall|j: int| 0 <= j < row@.len() ==> vm[j] == type_view(row@[j]),
            args_view(out) == row_to_elems_spec(vm, i as int),
            wf_args(out),
            out@.len() == i,
        decreases row@.len() - i,
    {
        let ghost pre = out;
        out.push(TypeArg::Type { ty: row[i].clone() });
        proof {
            lemma_args_view(out);
            lemma_args_view(pre);
            assert(args_view(out) =~= row_to_elems_spec(vm, i + 1));
        }
        i += 1;
    }
    out
}

/// Substitute into an extension set.
pub fn subst_set(es: &ExtensionSet, args: &Vec<TypeArg>, depth: usize) -> (r: Result<
    ExtensionSet,
    SignatureError,
>)
    requires
        wf_args(*args),
    ensures
        (r is Ok) == subst_ok_set(es@, args_view(*args), depth as nat),
        r matches Ok(v) ==> v@ == subst_set_spec(es@, args_view(*args), depth as nat),
{
    let ghost am = args_view(*args);
    proof {
        lemma_args_view(*args);
    }
    let mut out = ExtensionSet::new();
    let mut i: usize = 0;
    while i < es.items.len()
        invariant
            wf_args(*args),
            am == args_view(*args),
            am.len() == args@.len(),
            forall|j: int| 0 <= j < args@.len() ==> am[j] == arg_view(args@[j]),
            i <= es.items@.len(),
            forall|j: int| 0 <= j < i ==> subst_item_ok(#[trigger] es.items@[j]@, am, depth as nat),
            out@ == Set::new(
                |y: ExtItemSpec| exists|j: int|
                    0 <= j < i && subst_item_spec(es.items@[j]@, am, depth as nat).contains(y),
            ),
        decreases es.items@.len() - i,
    {
        proof {
            lemma_members_contains(es.items@, i as int);
        }
        let ghost pre = out@;
        let item = &es.items[i];
        match item {
            ExtItem::Ext(id) => {
                out.insert_item(ExtItem::Ext(id.clone()));
                proof {
                    assert(subst_item_spec(es.items@[i as int]@, am, depth as nat)
                        =~= Set::<ExtItemSpec>::empty().insert(es.items@[i as int]@));
                }
            },
            ExtItem::Var(v) => {
                if *v < depth || *v - depth >= args.len() {
                    out.insert_item(ExtItem::Var(*v));
                    proof {
                        assert(subst_item_spec(es.items@[i as int]@, am, depth as nat)
                            =~= Set::<ExtItemSpec>::empty().insert(es.items@[i as int]@));
                    }
                } else {
                    match &args[*v - depth] {
                        TypeArg::Extensions { es: es2 } => {
                            let shifted = match shift_set(es2, depth, 0) {
                                Ok(x) => x,
                                Err(e) => {
                                    proof {
                                        assert(es@.contains(es.items@[i as int]@));
                                        assert(!subst_item_ok(
                                            es.items@[i as int]@,
                                            am,
                                            depth as nat,
                                        ));
                                    }
                                    return Err(e);
                                },
                            };
                            let ghost preu = out@;
                            out = out.union(&shifted);
                            proof {
                                assert(subst_item_spec(es.items@[i as int]@, am, depth as nat)
                                    =~= shifted@);
                            }
                        },
                        _ => {
                            out.insert_item(ExtItem::Var(*v));
                            proof {
                                assert(subst_item_spec(es.items@[i as int]@, am, depth as nat)
                                    =~= Set::<ExtItemSpec>::empty().insert(es.items@[i as int]@));
                            }
                        },
                    }
                }
            },
        }
        proof {
            assert forall|y: ExtItemSpec| out@.contains(y) implies (exists|j: int|
                0 <= j < i + 1 && subst_item_spec(es.items@[j]@, am, depth as nat).contains(
                    y,
                )) by {
                if pre.contains(y) {
                    let j = choose|j: int|
                        0 <= j < i && subst_item_spec(es.items@[j]@, am, depth as nat).contains(y);
                    assert(0 <= j < i + 1 && subst_item_spec(es.items@[j]@, am, depth as nat)
                        .contains(y));
                } else {
                    assert(subst_item_spec(es.items@[i as int]@, am, depth as nat).contains(y));
                }
            }
            assert(out@ =~= Set::new(
                |y: ExtItemSpec| exists|j: int|
                    0 <= j < i + 1 && subst_item_spec(es.items@[j]@, am, depth as nat).contains(y),
            ));
        }
        i += 1;
    }
    proof {
        assert forall|x: ExtItemSpec| es@.contains(x) implies subst_item_ok(
            x,
            am,
            depth as nat,
        ) by {
            let j = choose|j: int| 0 <= j < es.items@.len() && es.items@[j]@ == x;
            assert(subst_item_ok(es.items@[j]@, am, depth as nat));
        }
        assert forall|y: ExtItemSpec| out@.contains(y) implies subst_set_spec(
            es@,
            am,
            depth as nat,
        ).contains(y) by {
            let j = choose|j: int|
                0 <= j < es.items@.len() && subst_item_spec(es.items@[j]@, am, depth as nat)
                    .contains(y);
            lemma_members_contains(es.items@, j);
            assert(es@.contains(es.items@[j]@) && subst_item_spec(
                es.items@[j]@,
                am,
                depth as nat,
            ).contains(y));
        }
        assert forall|y: ExtItemSpec| subst_set_spec(es@, am, depth as nat).contains(
            y,
        ) implies out@.contains(y) by {
            let x = choose|x: ExtItemSpec|
                es@.contains(x) && subst_item_spec(x, am, depth as nat).contains(y);
            let j = choose|j: int| 0 <= j < es.items@.len() && es.items@[j]@ == x;
            assert(0 <= j < es.items@.len() && subst_item_spec(
                es.items@[j]@,
                am,
                depth as nat,
            ).contains(y));
        }
        assert(out@ =~= subst_set_spec(es@, am, depth as nat));
    }
    Ok(out)
}

/// Whether one member of an extension set can be substituted.
pub open spec fn subst_item_ok(x: ExtItemSpec, args: Seq<TypeArgSpec>, depth: nat) -> bool {
    match x {
        ExtItemSpec::Ext(_) => true,
        ExtItemSpec::Var(i) => i < depth || i - depth >= args.len() || (match args[i - depth] {
            TypeArgSpec::Extensions(es2) => shift_ok_set(es2, depth, 0),
            _ => true,
        }),
    }
}

/// Substitute into a function type.
pub fn subst_functype(f: &FunctionType, args: &Vec<TypeArg>, depth: usize) -> (r: Result<
    FunctionType,
    SignatureError,
>)
    requires
        wf_functype(*f),
        wf_args(*args),
    ensures
        (r is Ok) == subst_ok_functype(functype_view(*f), args_view(*args), depth as nat),
        r matches Ok(v) ==> functype_view(v) == subst_functype_spec(
            functype_view(*f),
            args_view(*args),
            depth as nat,
        ) && wf_functype(v),
    decreases f,
{
    proof {
        lemma_row_view(f.input);
        lemma_row_view(f.output);
        assert(functype_view(*f) == FuncTypeSpec {
            input: row_view(f.input),
            output: row_view(f.output),
            exts: f.extension_reqs@,
        });
    }
    let input = subst_row(&f.input, args, depth)?;
    let output = subst_row(&f.output, args, depth)?;
    let exts = subst_set(&f.extension_reqs, args, depth)?;
    let r = FunctionType { input, output, extension_reqs: exts };
    proof {
        assert(functype_view(r) =~= subst_functype_spec(
            functype_view(*f),
            args_view(*args),
            depth as nat,
        ));
    }
    Ok(r)
}

/// Substitute into a polymorphic function type: its own parameters take the
/// lowest indices, so the body is substituted one scope deeper.
pub fn subst_poly(p: &PolyFuncType, args: &Vec<TypeArg>, depth: usize) -> (r: Result<
    PolyFuncType,
    SignatureError,
>)
    requires
        wf_poly(*p),
        wf_args(*args),
    ensures
        (r is Ok) == (depth + p.params@.len() <= usize::MAX && subst_ok_functype(
            functype_view(p.body),
            args_view(*args),
            depth as nat + p.params@.len(),
        )),
        r matches Ok(v) ==> poly_view(v) == subst_poly_spec(
            poly_view(*p),
            args_view(*args),
            depth as nat,
        ) && wf_poly(v),
    decreases p,
{
    if depth > usize::MAX - p.params.len() {
        return Err(SignatureError::InvalidTypeArgs);
    }
    let body = subst_functype(&p.body, args, depth + p.params.len())?;
    let params = crate::types::clone_params(&p.params);
    let r = PolyFuncType { params, body };
    proof {
        crate::types::lemma_params_view(p.params);
        assert(poly_view(r) =~= subst_poly_spec(poly_view(*p), args_view(*args), depth as nat));
    }
    Ok(r)
}


// ------------------------------------------------------------------
// Instantiation
// ------------------------------------------------------------------
impl PolyFuncType {
    /// Instantiate the scheme with exactly one argument per declared
    /// parameter, producing a concrete function type (possibly still
    /// variable-containing, if the body referenced an enclosing scope).
    /// Succeeds exactly when the arguments fit the declared parameters in
    /// kind and bound and the substitution itself goes through.
    pub fn instantiate_all(&self, args: &Vec<TypeArg>) -> (r: Result<FunctionType, SignatureError>)
        requires
            wf_poly(*self),
            wf_args(*args),
        ensures
            (r is Ok) == (crate::type_param::args_fit(
                args_view(*args),
                params_view(self.params),
            ) && subst_ok_functype(functype_view(self.body), args_view(*args), 0)),
            r matches Ok(ft) ==> functype_view(ft) == subst_functype_spec(
                functype_view(self.body),
                args_view(*args),
                0,
            ) && wf_functype(ft),
            !crate::type_param::args_fit(args_view(*args), params_view(self.params)) ==> (
            r matches Err(e) && (e matches SignatureError::TypeArgMismatch(inner)
                && crate::type_param::args_report_ok(
                inner,
                args_view(*args),
                params_view(self.params),
            ))),
    {
        match crate::type_param::check_type_args(args, &self.params) {
            Ok(()) => {},
            Err(e) => {
                return Err(SignatureError::TypeArgMismatch(e));
            },
        }
        subst_functype(&self.body, args, 0)
    }

    /// Instantiate the scheme with some prefix of its parameters supplied.
    /// The remaining parameters are renumbered downward and kept, so the
    /// result is a new, possibly still polymorphic, function type.
    pub fn instantiate(&self, args: &Vec<TypeArg>) -> (r: Result<PolyFuncType, SignatureError>)
        requires
            wf_poly(*self),
            wf_args(*args),
        ensures
            (r is Ok) == (crate::type_param::args_fit(
                args_view(*args) + remaining_var_uses(params_view(self.params), args@.len() as int),
                params_view(self.params),
            ) && subst_ok_functype(
                functype_view(self.body),
                args_view(*args) + remaining_var_uses(params_view(self.params), args@.len() as int),
                0,
            )),
            r matches Ok(p) ==> params_view(p.params) == params_view(self.params).skip(
                args@.len() as int,
            ) && functype_view(p.body) == subst_functype_spec(
                functype_view(self.body),
                args_view(*args) + remaining_var_uses(params_view(self.params), args@.len() as int),
                0,
            ) && wf_poly(p),
    {
        proof {
            crate::types::lemma_params_view(self.params);
            lemma_args_view(*args);
        }
        if args.len() >= self.params.len() {
            proof {
                assert(args_view(*args) + remaining_var_uses(
                    params_view(self.params),
                    args@.len() as int,
                ) =~= args_view(*args));
            }
            let body = self.instantiate_all(args)?;
            let r = PolyFuncType { params: Vec::new(), body };
            proof {
                crate::types::lemma_params_view(r.params);
                assert(params_view(r.params) =~= params_view(self.params).skip(
                    args@.len() as int,
                ));
            }
            Ok(r)
        } else {
            let mut extended = crate::types::clone_args(args);
            let mut remaining: Vec<TypeParam> = Vec::new();
            let mut i: usize = args.len();
            proof {
                lemma_args_view(extended);
                assert(args_view(extended) =~= args_view(*args) + remaining_var_uses_upto(
                    params_view(self.params),
                    args@.len() as int,
                    args@.len() as int,
                ));
            }
            while i < self.params.len()
                invariant
                    wf_poly(*self),
                    wf_args(*args),
                    args@.len() <= i <= self.params@.len(),
                    params_view(self.params).len() == self.params@.len(),
                    forall|j: int| 0 <= j < self.params@.len() ==> params_view(self.params)[j]
                        == crate::types::param_view(self.params@[j]),
                    wf_args(extended),
                    args_view(*args).len() == args@.len(),
                    extended@.len() == i,
                    remaining@.len() == i - args@.len(),
                    forall|j: int| 0 <= j < i - args@.len() ==> crate::types::param_view(
                        #[trigger] remaining@[j],
                    ) == params_view(self.params)[args@.len() + j] && crate::types::wf_param(
                        remaining@[j],
                    ),
                    args_view(extended) == args_view(*args) + remaining_var_uses_upto(
                        params_view(self.params),
                        args@.len() as int,
                        i as int,
                    ),
                decreases self.params@.len() - i,
            {
                let decl = self.params[i].clone();
                let decl2 = self.params[i].clone();
                proof {
                    assert(crate::types::wf_param(self.params@[i as int]));
                }
                let v = TypeArg::new_var_use(i - args.len(), decl);
                proof {
                    assert(arg_view(v) == crate::type_param::new_var_use_spec(
                        (i - args@.len()) as nat,
                        params_view(self.params)[i as int],
                    ));
                }
                let ghost pre = extended;
                extended.push(v);
                remaining.push(decl2);
                proof {
                    lemma_args_view(extended);
                    lemma_args_view(pre);
                    assert(remaining_var_uses_upto(
                        params_view(self.params),
                        args@.len() as int,
                        i + 1,
                    ) == remaining_var_uses_upto(
                        params_view(self.params),
                        args@.len() as int,
                        i as int,
                    ).push(crate::type_param::new_var_use_spec(
                        (i - args@.len()) as nat,
                        params_view(self.params)[i as int],
                    )));
                    assert(args_view(pre).len() == pre@.len());
                    assert(remaining_var_uses_upto(
                        params_view(self.params),
                        args@.len() as int,
                        i as int,
                    ).len() == i - args@.len());
                    assert(args_view(extended).len() == pre@.len() + 1);
                    assert forall|j: int| 0 <= j < args_view(extended).len() implies args_view(
                        extended,
                    )[j] == (args_view(*args) + remaining_var_uses_upto(
                        params_view(self.params),
                        args@.len() as int,
                        i + 1,
                    ))[j] by {
                        if j < pre@.len() {
                            assert(args_view(extended)[j] == arg_view(pre@[j]));
                            assert(args_view(pre)[j] == arg_view(pre@[j]));
                        } else {
                            assert(args_view(extended)[j] == arg_view(v));
                        }
                    }
                    assert(args_view(extended) =~= args_view(*args) + remaining_var_uses_upto(
                        params_view(self.params),
                        args@.len() as int,
                        i + 1,
                    ));
                }
                i += 1;
            }
            proof {
                assert(remaining_var_uses_upto(
                    params_view(self.params),
                    args@.len() as int,
                    self.params@.len() as int,
                ) =~= remaining_var_uses(params_view(self.params), args@.len() as int));
            }
            let body = match crate::type_param::check_type_args(&extended, &self.params) {
                Ok(()) => subst_functype(&self.body, &extended, 0)?,
                Err(e) => {
                    return Err(SignatureError::TypeArgMismatch(e));
                },
            };
            let r = PolyFuncType { params: remaining, body };
            proof {
                crate::types::lemma_params_view(r.params);
                assert(params_view(r.params) =~= params_view(self.params).skip(
                    args@.len() as int,
                ));
            }
            Ok(r)
        }
    }
}

/// The variable uses that stand in for the parameters from position `from`
/// up to `n`, renumbered downward to start at zero.
pub open spec fn remaining_var_uses_upto(params: Seq<TypeParamSpec>, from: int, n: int) -> Seq<
    TypeArgSpec,
>
    decreases n - from,
{
    if n <= from || n > params.len() {
        Seq::empty()
    } else {
        remaining_var_uses_upto(params, from, n - 1).push(
            crate::type_param::new_var_use_spec((n - 1 - from) as nat, params[n - 1]),
        )
    }
}

/// The variable uses standing in for all parameters from position `from` on.
pub open spec fn remaining_var_uses(params: Seq<TypeParamSpec>, from: int) -> Seq<TypeArgSpec> {
    remaining_var_uses_upto(params, from, params.len() as int)
}


// ------------------------------------------------------------------
// The empty substitution is the identity
// ------------------------------------------------------------------
/// Substitution with an empty argument list leaves any type unchanged, at
/// any depth: every variable is out of the (empty) list's range and stays in
/// place.
pub proof fn lemma_subst_empty_type(t: TypeSpec, depth: nat)
    ensures
        subst_type_spec(t, Seq::empty(), depth) == seq![t],
    decreases t, 1int,
{
    match t {
        TypeSpec::Extension(c) => {
            lemma_subst_empty_args(c.args, depth, c.args.len() as int);
            assert(c.args.take(c.args.len() as int) =~~= c.args);
            assert(subst_custom_spec(c, Seq::empty(), depth) =~~= c);
            assert(subst_type_spec(t, Seq::empty(), depth) =~~= seq![t]);
        },
        TypeSpec::Alias(_, _) => {
        },
        TypeSpec::Function(pf) => {
            lemma_subst_empty_functype(pf.body, depth + pf.params.len());
            assert(subst_poly_spec(*pf, Seq::empty(), depth) =~~= *pf);
            assert(subst_type_spec(t, Seq::empty(), depth) =~~= seq![t]);
        },
        TypeSpec::Variable(i, b) => {
            assert(subst_type_spec(t, Seq::empty(), depth) =~~= seq![t]);
        },
        TypeSpec::RowVariable(i, b) => {
            assert(subst_type_spec(t, Seq::empty(), depth) =~~= seq![t]);
        },
        TypeSpec::Sum(SumTypeSpec::Unit(_)) => {
        },
        TypeSpec::Sum(SumTypeSpec::General(rows)) => {
            lemma_subst_empty_rows(rows, depth, rows.len() as int);
            assert(rows.take(rows.len() as int) =~~= rows);
            assert(subst_type_spec(t, Seq::empty(), depth) =~~= seq![t]);
        },
    }
}

/// Substitution with an empty argument list leaves the first `n` types of a
/// row unchanged.
pub proof fn lemma_subst_empty_row(row: Seq<TypeSpec>, depth: nat, n: int)
    requires
        0 <= n <= row.len(),
    ensures
        subst_row_spec(row, Seq::empty(), depth, n) == row.take(n),
    decreases row, n,
{
    if n > 0 {
        lemma_subst_empty_row(row, depth, n - 1);
        lemma_subst_empty_type(row[n - 1], depth);
        assert(subst_row_spec(row, Seq::empty(), depth, n) =~~= row.take(n));
    } else {
        assert(subst_row_spec(row, Seq::empty(), depth, n) =~~= row.take(n));
    }
}

/// Substitution with an empty argument list leaves the first `n` rows of a
/// list of rows unchanged.
pub proof fn lemma_subst_empty_rows(rows: Seq<Seq<TypeSpec>>, depth: nat, n: int)
    requires
        0 <= n <= rows.len(),
    ensures
        subst_rows_spec(rows, Seq::empty(), depth, n) == rows.take(n),
    decreases rows, n,
{
    if n > 0 {
        lemma_subst_empty_rows(rows, depth, n - 1);
        lemma_subst_empty_row(rows[n - 1], depth, rows[n - 1].len() as int);
        assert(rows[n - 1].take(rows[n - 1].len() as int) =~~= rows[n - 1]);
        assert(subst_rows_spec(rows, Seq::empty(), depth, n) =~~= rows.take(n));
    } else {
        assert(subst_rows_spec(rows, Seq::empty(), depth, n) =~~= rows.take(n));
    }
}

/// Substitution with an empty argument list leaves the first `n` of an
/// argument list unchanged.
pub proof fn lemma_subst_empty_args(v: Seq<TypeArgSpec>, depth: nat, n: int)
    requires
        0 <= n <= v.len(),
    ensures
        subst_args_spec(v, Seq::empty(), depth, n) == v.take(n),
    decreases v, n,
{
    if n > 0 {
        lemma_subst_empty_args(v, depth, n - 1);
        lemma_subst_empty_arg(v[n - 1], depth);
        assert(subst_args_spec(v, Seq::empty(), depth, n) =~~= v.take(n));
    } else {
        assert(subst_args_spec(v, Seq::empty(), depth, n) =~~= v.take(n));
    }
}

/// Substitution with an empty argument list leaves one argument unchanged.
pub proof fn lemma_subst_empty_arg(a: TypeArgSpec, depth: nat)
    ensures
        subst_arg_spec(a, Seq::empty(), depth) == a,
    decreases a, 1int,
{
    match a {
        TypeArgSpec::Type(t) => {
            lemma_subst_empty_type(t, depth);
            assert(subst_type_spec(t, Seq::empty(), depth).len() == 1);
            assert(subst_arg_spec(a, Seq::empty(), depth) =~~= a);
        },
        TypeArgSpec::BoundedNat(_) => {
        },
        TypeArgSpec::Sequence(elems) => {
            lemma_subst_empty_args(elems, depth, elems.len() as int);
            assert(elems.take(elems.len() as int) =~~= elems);
            assert(subst_arg_spec(a, Seq::empty(), depth) =~~= a);
        },
        TypeArgSpec::Extensions(es) => {
            lemma_subst_empty_set(es, depth);
            assert(subst_arg_spec(a, Seq::empty(), depth) =~~= a);
        },
        TypeArgSpec::Variable(i, _) => {
            assert(subst_arg_spec(a, Seq::empty(), depth) =~~= a);
        },
    }
}

/// Substitution with an empty argument list leaves an extension set
/// unchanged.
pub proof fn lemma_subst_empty_set(es: Set<ExtItemSpec>, depth: nat)
    ensures
        subst_set_spec(es, Seq::empty(), depth) == es,
{
    assert forall|y: ExtItemSpec| subst_set_spec(es, Seq::empty(), depth).contains(y) implies es
        .contains(y) by {
        let x = choose|x: ExtItemSpec|
            es.contains(x) && subst_item_spec(x, Seq::empty(), depth).contains(y);
        assert(subst_item_spec(x, Seq::empty(), depth) =~= Set::<ExtItemSpec>::empty().insert(x));
    }
    assert forall|y: ExtItemSpec| es.contains(y) implies subst_set_spec(
        es,
        Seq::empty(),
        depth,
    ).contains(y) by {
        assert(subst_item_spec(y, Seq::empty(), depth).contains(y));
    }
    assert(subst_set_spec(es, Seq::empty(), depth) =~= es);
}

/// Substitution with an empty argument list is the identity on any function
/// type, at any depth: this is the law that instantiating with an empty
/// variable list changes nothing, stated over the models that the
/// substitution functions' own contracts use.
pub proof fn lemma_subst_empty_functype(f: FuncTypeSpec, depth: nat)
    ensures
        subst_functype_spec(f, Seq::empty(), depth) == f,
    decreases f, 1int,
{
    lemma_subst_empty_row(f.input, depth, f.input.len() as int);
    lemma_subst_empty_row(f.output, depth, f.output.len() as int);
    lemma_subst_empty_set(f.exts, depth);
    assert(f.input.take(f.input.len() as int) =~~= f.input);
    assert(f.output.take(f.output.len() as int) =~~= f.output);
    assert(subst_functype_spec(f, Seq::empty(), depth) =~~= f);
}

/// Substitution with an empty argument list is the identity on any
/// polymorphic function type.
pub proof fn lemma_subst_empty_poly(p: PolyFuncSpec, depth: nat)
    ensures
        subst_poly_spec(p, Seq::empty(), depth) == p,
    decreases p, 1int,
{
    lemma_subst_empty_functype(p.body, depth + p.params.len());
    assert(subst_poly_spec(p, Seq::empty(), depth) =~~= p);
}


} // verus!
