//! The type algebra: the bound lattice, sums, rows, custom types, kinds and
//! arguments, function types and polymorphic function schemes.
//!
//! Every executable type here has a spec-level model (`...Spec`) reached by a
//! view function; contracts speak of those models.  A value may also cache a
//! bound that is recomputable from its structure; [`wf_type`] and its
//! companions say that every cache in a value equals the bound recomputed
//! from the structure, and every function building types establishes it.

use vstd::prelude::*;
use crate::extension_set::{ExtItemSpec, ExtensionId, ExtensionSet};

verus! {

/// The three-point lattice of bounds on what a program may do with a value
/// of a type: test it for equality, copy it, or neither.
#[derive(Copy, Clone, Debug, PartialEq, Eq, Hash, Structural)]
pub enum TypeBound {
    /// The equality operation is valid on this type.
    Eq,
    /// The type can be copied in the program.
    Copyable,
    /// No bound on the type.
    Any,
}

impl TypeBound {
    /// Rank of a bound in the total order `Eq` < `Copyable` < `Any`.
    pub open spec fn rank(self) -> int {
        match self {
            TypeBound::Eq => 0,
            TypeBound::Copyable => 1,
            TypeBound::Any => 2,
        }
    }

    /// Least upper bound over the lattice order.
    pub open spec fn lub(self, other: Self) -> Self {
        if other.rank() <= self.rank() {
            self
        } else {
            other
        }
    }

    /// Report whether this bound contains another: `b1.contains(b2)` holds
    /// exactly when every type bounded by `b2` is also bounded by `b1`.
    pub fn contains(&self, other: TypeBound) -> (r: bool)
        ensures
            r == (other.rank() <= self.rank()),
    {
        matches!(
            (self, other),
            (TypeBound::Any, _) | (_, TypeBound::Eq) | (TypeBound::Copyable, TypeBound::Copyable)
        )
    }

    /// The smallest bound containing both the receiver and the argument; it
    /// is always one of the two.
    pub fn union(self, other: Self) -> (r: Self)
        ensures
            r == self.lub(other),
    {
        if self.contains(other) {
            self
        } else {
            other
        }
    }
}

/// The least upper bound of two bounds is commutative.
pub proof fn lemma_bound_union_commutative(a: TypeBound, b: TypeBound)
    ensures
        a.lub(b) == b.lub(a),
{
}

/// The least upper bound of bounds is associative.
pub proof fn lemma_bound_union_associative(a: TypeBound, b: TypeBound, c: TypeBound)
    ensures
        a.lub(b).lub(c) == a.lub(b.lub(c)),
{
}

/// The least upper bound of bounds is idempotent.
pub proof fn lemma_bound_union_idempotent(a: TypeBound)
    ensures
        a.lub(a) == a,
{
}

/// `Any` absorbs every bound, and `Eq` is the identity element.
pub proof fn lemma_bound_union_any_eq(a: TypeBound)
    ensures
        a.lub(TypeBound::Any) == TypeBound::Any,
        TypeBound::Any.lub(a) == TypeBound::Any,
        a.lub(TypeBound::Eq) == a,
        TypeBound::Eq.lub(a) == a,
{
}

// ------------------------------------------------------------------
// Data
// ------------------------------------------------------------------
/// A row of types: the ports of one side of a signature, or one variant of a
/// sum.
pub type TypeRow = Vec<Type>;

/// The name of a type: unique within the extension that defines it.
pub type TypeName = String;

/// A declaration of a type alias: a name promised to stand for some type
/// with the given bound.
#[derive(Debug)]
pub struct AliasDecl {
    /// The name of the alias.
    pub name: TypeName,
    /// The bound promised for the aliased type.
    pub bound: TypeBound,
}

/// Representation of a sum type.  Either store the rows of the variants, or,
/// in the special but common case of a sum over empty rows, store only the
/// number of variants.
#[derive(Debug)]
pub enum SumType {
    /// A sum over `size` empty rows.
    Unit {
        /// The number of (empty) variants.
        size: u8,
    },
    /// The general case: one row of types per variant.
    General {
        /// The variant rows.
        rows: Vec<TypeRow>,
    },
}

/// An instance of a type family that an extension defines: the extension
/// identifier, the family's name, the concrete arguments, and a cached bound
/// that must match what the family's declaration computes for those
/// arguments (checked against a registry, not by [`wf_type`]).
#[derive(Debug)]
pub struct CustomType {
    /// The extension that defines the type family.
    pub extension: ExtensionId,
    /// The name of the type family within its extension.
    pub id: TypeName,
    /// Arguments fitting the parameters the family declares.
    pub args: Vec<TypeArg>,
    /// The bound describing what can be done to instances of this type.
    pub bound: TypeBound,
}

/// The structure of a type, without the cached bound.
#[derive(Debug)]
pub enum TypeEnum {
    /// An instance of a type family an extension defines.
    Extension(CustomType),
    /// A use of a type alias.
    Alias(AliasDecl),
    /// A polymorphic function type.
    Function(Box<PolyFuncType>),
    /// A use of a type variable: the De Bruijn index into the enclosing
    /// scopes' parameter lists, and a copy of the declared bound.
    Variable(usize, TypeBound),
    /// A use of a row variable, standing for any number of types: the De
    /// Bruijn index, and a copy of the declared bound.  Valid only at
    /// scheme boundaries, never as a concrete port type.
    RowVariable(usize, TypeBound),
    /// A sum type.
    Sum(SumType),
}

/// A type: its structure paired with the cached least upper bound of the
/// structure.
#[derive(Debug)]
pub struct Type {
    /// The structure of the type.
    pub e: TypeEnum,
    /// Cache of the least upper bound of `e`; [`wf_type`] ties it to the
    /// structure.
    pub bound: TypeBound,
}

/// An upper bound on a natural-number parameter: either none, or a strict
/// bound.
#[derive(Copy, Clone, Debug, PartialEq, Eq, Structural)]
pub enum UpperBound {
    /// Any natural number is allowed.
    Unbounded,
    /// Only naturals strictly below the given value are allowed.
    UpTo(u64),
}

impl UpperBound {
    /// Report whether every natural allowed by `other` is allowed by `self`.
    pub open spec fn contains_spec(self, other: UpperBound) -> bool {
        match (self, other) {
            (UpperBound::Unbounded, _) => true,
            (UpperBound::UpTo(_), UpperBound::Unbounded) => false,
            (UpperBound::UpTo(i), UpperBound::UpTo(j)) => j <= i,
        }
    }

    /// Report whether the given natural is allowed by this bound.
    pub open spec fn admits(self, n: u64) -> bool {
        match self {
            UpperBound::Unbounded => true,
            UpperBound::UpTo(i) => n < i,
        }
    }
}

/// The kind a generic site declares: the shape of argument it can be
/// instantiated with.
#[derive(Debug)]
pub enum TypeParam {
    /// A single type with (at most) the given bound.
    Type {
        /// The required bound.
        b: TypeBound,
    },
    /// A natural number below the given bound.
    BoundedNat {
        /// The upper bound on the argument.
        bound: UpperBound,
    },
    /// A statically-known value of the given custom type.
    Opaque {
        /// The custom type the value must have.
        ty: CustomType,
    },
    /// A variable-length list of arguments of one kind; a type variable
    /// declared with a list-of-types kind is a row variable.
    List {
        /// The kind of each element.
        param: Box<TypeParam>,
    },
    /// A fixed-length tuple of arguments of the given kinds.
    Tuple {
        /// The kinds of the components.
        params: Vec<TypeParam>,
    },
    /// A set of extension requirements.
    Extensions,
}

/// A concrete argument supplied for a [`TypeParam`].
#[derive(Debug)]
pub enum TypeArg {
    /// A type.
    Type {
        /// The supplied type.
        ty: Type,
    },
    /// A natural number.
    BoundedNat {
        /// The supplied number.
        n: u64,
    },
    /// A list of arguments.
    Sequence {
        /// The supplied elements.
        elems: Vec<TypeArg>,
    },
    /// A set of extension requirements.
    Extensions {
        /// The supplied set.
        es: ExtensionSet,
    },
    /// A use of a type variable of non-type kind: the De Bruijn index and a
    /// copy of the declared kind.
    Variable {
        /// The De Bruijn index of the variable.
        idx: usize,
        /// A copy of the kind the variable was declared with.
        cached_decl: TypeParam,
    },
}

/// The type of a function-like node: an input row, an output row, and the
/// extension requirements the operation's execution adds beyond what
/// accompanies its inputs.
#[derive(Debug)]
pub struct FunctionType {
    /// Value inputs of the function.
    pub input: TypeRow,
    /// Value outputs of the function.
    pub output: TypeRow,
    /// The extension requirements which are added by the operation.
    pub extension_reqs: ExtensionSet,
}

/// A polymorphic function type: an ordered list of declared parameters, and
/// a body whose free variables are De Bruijn indices into the concatenation
/// of those parameters (lowest indices) and any enclosing scope's.
#[derive(Debug)]
pub struct PolyFuncType {
    /// The declared type parameters; the scheme must be instantiated with
    /// one argument per parameter before the function can be called.
    pub params: Vec<TypeParam>,
    /// Template for the function; may contain variables up to the length of
    /// `params` plus the enclosing scope's.
    pub body: FunctionType,
}

// ------------------------------------------------------------------
// Spec models
// ------------------------------------------------------------------
/// Spec model of a sum type.
#[verifier::ext_equal]
pub enum SumTypeSpec {
    /// A sum over that many empty rows.
    Unit(nat),
    /// One row per variant.
    General(Seq<Seq<TypeSpec>>),
}

/// Spec model of a custom type.
#[verifier::ext_equal]
pub struct CustomTypeSpec {
    /// The defining extension's identifier.
    pub extension: Seq<char>,
    /// The type family's name.
    pub id: Seq<char>,
    /// The arguments.
    pub args: Seq<TypeArgSpec>,
    /// The stored bound.
    pub bound: TypeBound,
}

/// Spec model of a type's structure.  The cached bound of a [`Type`] is not
/// part of the model: it is recomputable, and [`wf_type`] ties it down.
#[verifier::ext_equal]
pub enum TypeSpec {
    /// An instance of an extension's type family.
    Extension(CustomTypeSpec),
    /// A use of an alias: its name and promised bound.
    Alias(Seq<char>, TypeBound),
    /// A polymorphic function type.
    Function(Box<PolyFuncSpec>),
    /// A use of a type variable: index and declared bound.
    Variable(nat, TypeBound),
    /// A use of a row variable: index and declared bound.
    RowVariable(nat, TypeBound),
    /// A sum type.
    Sum(SumTypeSpec),
}

/// Spec model of a parameter kind.
#[verifier::ext_equal]
pub enum TypeParamSpec {
    /// A single type with the given bound.
    Type(TypeBound),
    /// A natural below the given bound.
    BoundedNat(UpperBound),
    /// A statically-known value of the given custom type.
    Opaque(CustomTypeSpec),
    /// A list of arguments of one kind.
    List(Box<TypeParamSpec>),
    /// A tuple of arguments of the given kinds.
    Tuple(Seq<TypeParamSpec>),
    /// A set of extension requirements.
    Extensions,
}

/// Spec model of a type argument.
#[verifier::ext_equal]
pub enum TypeArgSpec {
    /// A type.
    Type(TypeSpec),
    /// A natural number.
    BoundedNat(u64),
    /// A list of arguments.
    Sequence(Seq<TypeArgSpec>),
    /// A set of extension requirements.
    Extensions(Set<ExtItemSpec>),
    /// A use of a variable of the given declared kind.
    Variable(nat, TypeParamSpec),
}

/// Spec model of a function type.
#[verifier::ext_equal]
pub struct FuncTypeSpec {
    /// The input row.
    pub input: Seq<TypeSpec>,
    /// The output row.
    pub output: Seq<TypeSpec>,
    /// The added extension requirements.
    pub exts: Set<ExtItemSpec>,
}

/// Spec model of a polymorphic function type.
#[verifier::ext_equal]
pub struct PolyFuncSpec {
    /// The declared parameters.
    pub params: Seq<TypeParamSpec>,
    /// The body.
    pub body: FuncTypeSpec,
}

// ------------------------------------------------------------------
// View functions
// ------------------------------------------------------------------
/// Spec view of a type.
pub open spec fn type_view(t: Type) -> TypeSpec
    decreases t,
{
    enum_view(t.e)
}

/// Spec view of a type's structure.
pub open spec fn enum_view(e: TypeEnum) -> TypeSpec
    decreases e,
{
    match e {
        TypeEnum::Extension(c) => TypeSpec::Extension(custom_view(c)),
        TypeEnum::Alias(a) => TypeSpec::Alias(a.name@, a.bound),
        TypeEnum::Function(pf) => TypeSpec::Function(Box::new(poly_view(*pf))),
        TypeEnum::Variable(idx, b) => TypeSpec::Variable(idx as nat, b),
        TypeEnum::RowVariable(idx, b) => TypeSpec::RowVariable(idx as nat, b),
        TypeEnum::Sum(s) => TypeSpec::Sum(sum_view(s)),
    }
}

/// Spec view of a sum type.
pub open spec fn sum_view(s: SumType) -> SumTypeSpec
    decreases s,
{
    match s {
        SumType::Unit { size } => SumTypeSpec::Unit(size as nat),
        SumType::General { rows } => SumTypeSpec::General(
            rows_view_prefix(rows, rows@.len() as int),
        ),
    }
}

/// Spec view of a custom type.
pub open spec fn custom_view(c: CustomType) -> CustomTypeSpec
    decreases c,
{
    CustomTypeSpec {
        extension: c.extension@,
        id: c.id@,
        args: args_view_prefix(c.args, c.args@.len() as int),
        bound: c.bound,
    }
}

/// Spec view of a parameter kind.
pub open spec fn param_view(p: TypeParam) -> TypeParamSpec
    decreases p,
{
    match p {
        TypeParam::Type { b } => TypeParamSpec::Type(b),
        TypeParam::BoundedNat { bound } => TypeParamSpec::BoundedNat(bound),
        TypeParam::Opaque { ty } => TypeParamSpec::Opaque(custom_view(ty)),
        TypeParam::List { param } => TypeParamSpec::List(Box::new(param_view(*param))),
        TypeParam::Tuple { params } => TypeParamSpec::Tuple(
            params_view_prefix(params, params@.len() as int),
        ),
        TypeParam::Extensions => TypeParamSpec::Extensions,
    }
}

/// Spec view of a type argument.
pub open spec fn arg_view(a: TypeArg) -> TypeArgSpec
    decreases a,
{
    match a {
        TypeArg::Type { ty } => TypeArgSpec::Type(type_view(ty)),
        TypeArg::BoundedNat { n } => TypeArgSpec::BoundedNat(n),
        TypeArg::Sequence { elems } => TypeArgSpec::Sequence(
            args_view_prefix(elems, elems@.len() as int),
        ),
        TypeArg::Extensions { es } => TypeArgSpec::Extensions(es@),
        TypeArg::Variable { idx, cached_decl } => TypeArgSpec::Variable(
            idx as nat,
            param_view(cached_decl),
        ),
    }
}

/// Spec view of a function type.
pub open spec fn functype_view(f: FunctionType) -> FuncTypeSpec
    decreases f,
{
    FuncTypeSpec {
        input: row_view_prefix(f.input, f.input@.len() as int),
        output: row_view_prefix(f.output, f.output@.len() as int),
        exts: f.extension_reqs@,
    }
}

/// Spec view of a polymorphic function type.
pub open spec fn poly_view(p: PolyFuncType) -> PolyFuncSpec
    decreases p,
{
    PolyFuncSpec {
        params: params_view_prefix(p.params, p.params@.len() as int),
        body: functype_view(p.body),
    }
}

/// Spec view of the first `n` types of a row.
pub open spec fn row_view_prefix(r: TypeRow, n: int) -> Seq<TypeSpec>
    decreases r, n,
{
    if n <= 0 || n > r@.len() {
        Seq::empty()
    } else {
        row_view_prefix(r, n - 1).push(type_view(r@[n - 1]))
    }
}

/// Spec view of the first `n` rows of a list of rows.
pub open spec fn rows_view_prefix(rows: Vec<TypeRow>, n: int) -> Seq<Seq<TypeSpec>>
    decreases rows, n,
{
    if n <= 0 || n > rows@.len() {
        Seq::empty()
    } else {
        rows_view_prefix(rows, n - 1).push(row_view_prefix(rows@[n - 1], rows@[n - 1]@.len() as int))
    }
}

/// Spec view of the first `n` of a list of arguments.
pub open spec fn args_view_prefix(v: Vec<TypeArg>, n: int) -> Seq<TypeArgSpec>
    decreases v, n,
{
    if n <= 0 || n > v@.len() {
        Seq::empty()
    } else {
        args_view_prefix(v, n - 1).push(arg_view(v@[n - 1]))
    }
}

/// Spec view of the first `n` of a list of parameter kinds.
pub open spec fn params_view_prefix(v: Vec<TypeParam>, n: int) -> Seq<TypeParamSpec>
    decreases v, n,
{
    if n <= 0 || n > v@.len() {
        Seq::empty()
    } else {
        params_view_prefix(v, n - 1).push(param_view(v@[n - 1]))
    }
}

/// Spec view of a whole row of types.
pub open spec fn row_view(r: TypeRow) -> Seq<TypeSpec> {
    row_view_prefix(r, r@.len() as int)
}

/// Spec view of a whole list of rows.
pub open spec fn rows_view(rows: Vec<TypeRow>) -> Seq<Seq<TypeSpec>> {
    rows_view_prefix(rows, rows@.len() as int)
}

/// Spec view of a whole list of arguments.
pub open spec fn args_view(v: Vec<TypeArg>) -> Seq<TypeArgSpec> {
    args_view_prefix(v, v@.len() as int)
}

/// Spec view of a whole list of parameter kinds.
pub open spec fn params_view(v: Vec<TypeParam>) -> Seq<TypeParamSpec> {
    params_view_prefix(v, v@.len() as int)
}

/// Length and contents of a prefix view of a row.
pub proof fn lemma_row_view_prefix(r: TypeRow, n: int)
    requires
        0 <= n <= r@.len(),
    ensures
        row_view_prefix(r, n).len() == n,
        forall|i: int| 0 <= i < n ==> row_view_prefix(r, n)[i] == type_view(r@[i]),
    decreases n,
{
    if n > 0 {
        lemma_row_view_prefix(r, n - 1);
    }
}

/// Length and contents of the view of a row.
pub broadcast proof fn lemma_row_view(r: TypeRow)
    ensures
        (#[trigger] row_view(r)).len() == r@.len(),
        forall|i: int| 0 <= i < r@.len() ==> row_view(r)[i] == type_view(r@[i]),
{
    lemma_row_view_prefix(r, r@.len() as int);
}

/// Length and contents of a prefix view of a list of rows.
pub proof fn lemma_rows_view_prefix(rows: Vec<TypeRow>, n: int)
    requires
        0 <= n <= rows@.len(),
    ensures
        rows_view_prefix(rows, n).len() == n,
        forall|i: int| 0 <= i < n ==> rows_view_prefix(rows, n)[i] == row_view(rows@[i]),
    decreases n,
{
    if n > 0 {
        lemma_rows_view_prefix(rows, n - 1);
    }
}

/// Length and contents of the view of a list of rows.
pub broadcast proof fn lemma_rows_view(rows: Vec<TypeRow>)
    ensures
        (#[trigger] rows_view(rows)).len() == rows@.len(),
        forall|i: int| 0 <= i < rows@.len() ==> rows_view(rows)[i] == row_view(rows@[i]),
{
    lemma_rows_view_prefix(rows, rows@.len() as int);
}

/// Length and contents of a prefix view of a list of arguments.
pub proof fn lemma_args_view_prefix(v: Vec<TypeArg>, n: int)
    requires
        0 <= n <= v@.len(),
    ensures
        args_view_prefix(v, n).len() == n,
        forall|i: int| 0 <= i < n ==> args_view_prefix(v, n)[i] == arg_view(v@[i]),
    decreases n,
{
    if n > 0 {
        lemma_args_view_prefix(v, n - 1);
    }
}

/// Length and contents of the view of a list of arguments.
pub broadcast proof fn lemma_args_view(v: Vec<TypeArg>)
    ensures
        (#[trigger] args_view(v)).len() == v@.len(),
        forall|i: int| 0 <= i < v@.len() ==> args_view(v)[i] == arg_view(v@[i]),
{
    lemma_args_view_prefix(v, v@.len() as int);
}

/// Length and contents of a prefix view of a list of parameter kinds.
pub proof fn lemma_params_view_prefix(v: Vec<TypeParam>, n: int)
    requires
        0 <= n <= v@.len(),
    ensures
        params_view_prefix(v, n).len() == n,
        forall|i: int| 0 <= i < n ==> params_view_prefix(v, n)[i] == param_view(v@[i]),
    decreases n,
{
    if n > 0 {
        lemma_params_view_prefix(v, n - 1);
    }
}

/// Length and contents of the view of a list of parameter kinds.
pub broadcast proof fn lemma_params_view(v: Vec<TypeParam>)
    ensures
        (#[trigger] params_view(v)).len() == v@.len(),
        forall|i: int| 0 <= i < v@.len() ==> params_view(v)[i] == param_view(v@[i]),
{
    lemma_params_view_prefix(v, v@.len() as int);
}

// ------------------------------------------------------------------
// The bound of a type, over the model
// ------------------------------------------------------------------
/// The least upper bound of a type, recomputed from its structure: a sum's
/// bound is the least upper bound over every element type of every variant,
/// a function value is always `Copyable`, and a unit sum is always `Eq`.
pub open spec fn bound_spec(t: TypeSpec) -> TypeBound
    decreases t,
{
    match t {
        TypeSpec::Extension(c) => c.bound,
        TypeSpec::Alias(_, b) => b,
        TypeSpec::Function(_) => TypeBound::Copyable,
        TypeSpec::Variable(_, b) => b,
        TypeSpec::RowVariable(_, b) => b,
        TypeSpec::Sum(SumTypeSpec::Unit(_)) => TypeBound::Eq,
        TypeSpec::Sum(SumTypeSpec::General(rows)) => rows_lub_prefix(rows, rows.len() as int),
    }
}

/// Least upper bound of the first `n` types of a row.
pub open spec fn row_lub_prefix(row: Seq<TypeSpec>, n: int) -> TypeBound
    decreases row, n,
{
    if n <= 0 || n > row.len() {
        TypeBound::Eq
    } else {
        row_lub_prefix(row, n - 1).lub(bound_spec(row[n - 1]))
    }
}

/// Least upper bound over all types of the first `n` rows.
pub open spec fn rows_lub_prefix(rows: Seq<Seq<TypeSpec>>, n: int) -> TypeBound
    decreases rows, n,
{
    if n <= 0 || n > rows.len() {
        TypeBound::Eq
    } else {
        rows_lub_prefix(rows, n - 1).lub(row_lub_prefix(rows[n - 1], rows[n - 1].len() as int))
    }
}

// ------------------------------------------------------------------
// Well-formedness: every cached bound equals the recomputed one
// ------------------------------------------------------------------
/// A type is well-formed when its cached bound equals the bound recomputed
/// from its structure, recursively.
pub open spec fn wf_type(t: Type) -> bool
    decreases t,
{
    wf_enum(t.e) && t.bound == bound_spec(enum_view(t.e))
}

/// Well-formedness of a type's structure.
pub open spec fn wf_enum(e: TypeEnum) -> bool
    decreases e,
{
    match e {
        TypeEnum::Extension(c) => wf_custom(c),
        TypeEnum::Alias(_) => true,
        TypeEnum::Function(pf) => wf_poly(*pf),
        TypeEnum::Variable(_, _) => true,
        TypeEnum::RowVariable(_, _) => true,
        TypeEnum::Sum(s) => wf_sum(s),
    }
}

/// Well-formedness of a sum type.
pub open spec fn wf_sum(s: SumType) -> bool
    decreases s,
{
    match s {
        SumType::Unit { .. } => true,
        SumType::General { rows } => wf_rows(rows),
    }
}

/// Well-formedness of a custom type: its arguments are well-formed.  (The
/// stored bound is checked against a registry by validation, not here.)
pub open spec fn wf_custom(c: CustomType) -> bool
    decreases c,
{
    forall|i: int| 0 <= i < c.args@.len() ==> wf_arg(#[trigger] c.args@[i])
}

/// Well-formedness of a type argument.
pub open spec fn wf_arg(a: TypeArg) -> bool
    decreases a, 0int,
{
    match a {
        TypeArg::Type { ty } => wf_type(ty),
        TypeArg::BoundedNat { .. } => true,
        TypeArg::Sequence { elems } => wf_args_upto(elems, elems@.len() as int),
        TypeArg::Extensions { .. } => true,
        TypeArg::Variable { cached_decl, .. } => wf_param(cached_decl),
    }
}

/// Well-formedness of a parameter kind.
pub open spec fn wf_param(p: TypeParam) -> bool
    decreases p, 0int,
{
    match p {
        TypeParam::Type { .. } => true,
        TypeParam::BoundedNat { .. } => true,
        TypeParam::Opaque { ty } => wf_custom(ty),
        TypeParam::List { param } => wf_param(*param),
        TypeParam::Tuple { params } => wf_params_upto(params, params@.len() as int),
        TypeParam::Extensions => true,
    }
}

/// Well-formedness of the first `n` elements of an argument list.
pub open spec fn wf_args_upto(v: Vec<TypeArg>, n: int) -> bool
    decreases v, n,
{
    n <= 0 || n > v@.len() || (wf_args_upto(v, n - 1) && wf_arg(v@[n - 1]))
}

/// Well-formedness of the first `n` elements of a parameter list.
pub open spec fn wf_params_upto(v: Vec<TypeParam>, n: int) -> bool
    decreases v, n,
{
    n <= 0 || n > v@.len() || (wf_params_upto(v, n - 1) && wf_param(v@[n - 1]))
}

/// The prefix form of argument well-formedness says the same as the
/// pointwise one.
pub proof fn lemma_wf_args_upto(v: Vec<TypeArg>, n: int)
    requires
        0 <= n <= v@.len(),
    ensures
        wf_args_upto(v, n) == (forall|i: int| 0 <= i < n ==> wf_arg(#[trigger] v@[i])),
    decreases n,
{
    if n > 0 {
        lemma_wf_args_upto(v, n - 1);
    }
}

/// The prefix form of parameter well-formedness says the same as the
/// pointwise one.
pub proof fn lemma_wf_params_upto(v: Vec<TypeParam>, n: int)
    requires
        0 <= n <= v@.len(),
    ensures
        wf_params_upto(v, n) == (forall|i: int| 0 <= i < n ==> wf_param(#[trigger] v@[i])),
    decreases n,
{
    if n > 0 {
        lemma_wf_params_upto(v, n - 1);
    }
}

/// A sequence argument is well-formed exactly when all of its elements are.
pub broadcast proof fn lemma_wf_arg_sequence(elems: Vec<TypeArg>)
    ensures
        #[trigger] wf_arg(TypeArg::Sequence { elems }) == wf_args(elems),
{
    lemma_wf_args_upto(elems, elems@.len() as int);
}

/// A tuple kind is well-formed exactly when all of its components are.
pub broadcast proof fn lemma_wf_param_tuple(params: Vec<TypeParam>)
    ensures
        #[trigger] wf_param(TypeParam::Tuple { params }) == wf_params(params),
{
    lemma_wf_params_upto(params, params@.len() as int);
}

/// Well-formedness of a function type.
pub open spec fn wf_functype(f: FunctionType) -> bool
    decreases f,
{
    (forall|i: int| 0 <= i < f.input@.len() ==> wf_type(#[trigger] f.input@[i])) && (forall|i: int|
        0 <= i < f.output@.len() ==> wf_type(#[trigger] f.output@[i]))
}

/// Well-formedness of a polymorphic function type.
pub open spec fn wf_poly(p: PolyFuncType) -> bool
    decreases p,
{
    (forall|i: int| 0 <= i < p.params@.len() ==> wf_param(#[trigger] p.params@[i])) && wf_functype(
        p.body,
    )
}

/// Well-formedness of a whole row.
pub open spec fn wf_row(r: TypeRow) -> bool {
    forall|i: int| 0 <= i < r@.len() ==> wf_type(#[trigger] r@[i])
}

/// Well-formedness of a whole list of rows.
pub open spec fn wf_rows(rows: Vec<TypeRow>) -> bool
    decreases rows,
{
    forall|i: int, j: int| 0 <= i < rows@.len() && 0 <= j < rows@[i]@.len() ==> wf_type(
        #[trigger] rows@[i]@[j],
    )
}

/// Well-formedness of a whole argument list.
pub open spec fn wf_args(v: Vec<TypeArg>) -> bool {
    forall|i: int| 0 <= i < v@.len() ==> wf_arg(#[trigger] v@[i])
}

/// Well-formedness of a whole parameter list.
pub open spec fn wf_params(v: Vec<TypeParam>) -> bool {
    forall|i: int| 0 <= i < v@.len() ==> wf_param(#[trigger] v@[i])
}

// ------------------------------------------------------------------
// Structural equality
// ------------------------------------------------------------------
/// Report whether two types have the same structure.  Cached bounds are not
/// compared: for well-formed values they follow from the structure.
pub fn type_eq(a: &Type, b: &Type) -> (r: bool)
    ensures
        r == (type_view(*a) == type_view(*b)),
    decreases a,
{
    enum_eq(&a.e, &b.e)
}

/// Report whether two type structures are the same.
pub fn enum_eq(a: &TypeEnum, b: &TypeEnum) -> (r: bool)
    ensures
        r == (enum_view(*a) == enum_view(*b)),
    decreases a,
{
    match (a, b) {
        (TypeEnum::Extension(x), TypeEnum::Extension(y)) => custom_eq(x, y),
        (TypeEnum::Alias(x), TypeEnum::Alias(y)) => x.name.eq(&y.name) && x.bound == y.bound,
        (TypeEnum::Function(x), TypeEnum::Function(y)) => poly_eq(x, y),
        (TypeEnum::Variable(i, bi), TypeEnum::Variable(j, bj)) => i == j && bi == bj,
        (TypeEnum::RowVariable(i, bi), TypeEnum::RowVariable(j, bj)) => i == j && bi == bj,
        (TypeEnum::Sum(x), TypeEnum::Sum(y)) => sum_eq(x, y),
        _ => false,
    }
}

/// Report whether two sum types have the same representation.  A unit sum
/// and a general sum are never the same, even over equally many empty rows;
/// [`SumType::new`] normalises the representation on construction.
pub fn sum_eq(a: &SumType, b: &SumType) -> (r: bool)
    ensures
        r == (sum_view(*a) == sum_view(*b)),
    decreases a,
{
    match (a, b) {
        (SumType::Unit { size: x }, SumType::Unit { size: y }) => x == y,
        (SumType::General { rows: x }, SumType::General { rows: y }) => rows_eq(x, y),
        _ => false,
    }
}

/// Report whether two lists of rows are elementwise the same.
pub fn rows_eq(a: &Vec<TypeRow>, b: &Vec<TypeRow>) -> (r: bool)
    ensures
        r == (rows_view(*a) == rows_view(*b)),
    decreases a,
{
    proof {
        lemma_rows_view(*a);
        lemma_rows_view(*b);
    }
    if a.len() != b.len() {
        return false;
    }
    let mut i: usize = 0;
    while i < a.len()
        invariant
            i <= a@.len(),
            a@.len() == b@.len(),
            rows_view(*a).len() == a@.len(),
            rows_view(*b).len() == b@.len(),
            forall|j: int| 0 <= j < i ==> rows_view(*a)[j] == rows_view(*b)[j],
        decreases a@.len() - i,
    {
        proof {
            lemma_rows_view(*a);
            lemma_rows_view(*b);
        }
        if !row_eq(&a[i], &b[i]) {
            proof {
                assert(rows_view(*a)[i as int] != rows_view(*b)[i as int]);
            }
            return false;
        }
        proof {
            assert(rows_view(*a)[i as int] == rows_view(*b)[i as int]);
        }
        i += 1;
    }
    proof {
        assert(rows_view(*a) =~= rows_view(*b));
    }
    true
}

/// Report whether two rows are elementwise the same.
pub fn row_eq(a: &TypeRow, b: &TypeRow) -> (r: bool)
    ensures
        r == (row_view(*a) == row_view(*b)),
    decreases a,
{
    proof {
        lemma_row_view(*a);
        lemma_row_view(*b);
    }
    if a.len() != b.len() {
        return false;
    }
    let mut i: usize = 0;
    while i < a.len()
        invariant
            i <= a@.len(),
            a@.len() == b@.len(),
            row_view(*a).len() == a@.len(),
            row_view(*b).len() == b@.len(),
            forall|j: int| 0 <= j < i ==> row_view(*a)[j] == row_view(*b)[j],
        decreases a@.len() - i,
    {
        proof {
            lemma_row_view(*a);
            lemma_row_view(*b);
        }
        if !type_eq(&a[i], &b[i]) {
            proof {
                assert(row_view(*a)[i as int] != row_view(*b)[i as int]);
            }
            return false;
        }
        proof {
            assert(row_view(*a)[i as int] == row_view(*b)[i as int]);
        }
        i += 1;
    }
    proof {
        assert(row_view(*a) =~= row_view(*b));
    }
    true
}

/// Report whether two custom types are the same: same extension, name,
/// arguments, and stored bound.
pub fn custom_eq(a: &CustomType, b: &CustomType) -> (r: bool)
    ensures
        r == (custom_view(*a) == custom_view(*b)),
    decreases a,
{
    a.extension.eq(&b.extension) && a.id.eq(&b.id) && a.bound == b.bound && args_eq(
        &a.args,
        &b.args,
    )
}

/// Report whether two argument lists are elementwise the same.
pub fn args_eq(a: &Vec<TypeArg>, b: &Vec<TypeArg>) -> (r: bool)
    ensures
        r == (args_view(*a) == args_view(*b)),
    decreases a,
{
    proof {
        lemma_args_view(*a);
        lemma_args_view(*b);
    }
    if a.len() != b.len() {
        return false;
    }
    let mut i: usize = 0;
    while i < a.len()
        invariant
            i <= a@.len(),
            a@.len() == b@.len(),
            args_view(*a).len() == a@.len(),
            args_view(*b).len() == b@.len(),
            forall|j: int| 0 <= j < i ==> args_view(*a)[j] == args_view(*b)[j],
        decreases a@.len() - i,
    {
        proof {
            lemma_args_view(*a);
            lemma_args_view(*b);
        }
        if !arg_eq(&a[i], &b[i]) {
            proof {
                assert(args_view(*a)[i as int] != args_view(*b)[i as int]);
            }
            return false;
        }
        proof {
            assert(args_view(*a)[i as int] == args_view(*b)[i as int]);
        }
        i += 1;
    }
    proof {
        assert(args_view(*a) =~= args_view(*b));
    }
    true
}

/// Report whether two type arguments are the same.  Extension sets are
/// compared as sets.
pub fn arg_eq(a: &TypeArg, b: &TypeArg) -> (r: bool)
    ensures
        r == (arg_view(*a) == arg_view(*b)),
    decreases a,
{
    match (a, b) {
        (TypeArg::Type { ty: x }, TypeArg::Type { ty: y }) => type_eq(x, y),
        (TypeArg::BoundedNat { n: x }, TypeArg::BoundedNat { n: y }) => x == y,
        (TypeArg::Sequence { elems: x }, TypeArg::Sequence { elems: y }) => args_eq(x, y),
        (TypeArg::Extensions { es: x }, TypeArg::Extensions { es: y }) => {
            let r = x.set_eq(y);
            proof {
                if x@ =~= y@ {
                    assert(arg_view(*a) =~= arg_view(*b));
                }
            }
            r
        },
        (
            TypeArg::Variable { idx: i, cached_decl: x },
            TypeArg::Variable { idx: j, cached_decl: y },
        ) => i == j && param_eq(x, y),
        _ => false,
    }
}

/// Report whether two parameter kinds are the same.
pub fn param_eq(a: &TypeParam, b: &TypeParam) -> (r: bool)
    ensures
        r == (param_view(*a) == param_view(*b)),
    decreases a,
{
    match (a, b) {
        (TypeParam::Type { b: x }, TypeParam::Type { b: y }) => x == y,
        (TypeParam::BoundedNat { bound: x }, TypeParam::BoundedNat { bound: y }) => x == y,
        (TypeParam::Opaque { ty: x }, TypeParam::Opaque { ty: y }) => custom_eq(x, y),
        (TypeParam::List { param: x }, TypeParam::List { param: y }) => param_eq(x, y),
        (TypeParam::Tuple { params: x }, TypeParam::Tuple { params: y }) => params_eq(x, y),
        (TypeParam::Extensions, TypeParam::Extensions) => true,
        _ => false,
    }
}

/// Report whether two parameter-kind lists are elementwise the same.
pub fn params_eq(a: &Vec<TypeParam>, b: &Vec<TypeParam>) -> (r: bool)
    ensures
        r == (params_view(*a) == params_view(*b)),
    decreases a,
{
    proof {
        lemma_params_view(*a);
        lemma_params_view(*b);
    }
    if a.len() != b.len() {
        return false;
    }
    let mut i: usize = 0;
    while i < a.len()
        invariant
            i <= a@.len(),
            a@.len() == b@.len(),
            params_view(*a).len() == a@.len(),
            params_view(*b).len() == b@.len(),
            forall|j: int| 0 <= j < i ==> params_view(*a)[j] == params_view(*b)[j],
        decreases a@.len() - i,
    {
        proof {
            lemma_params_view(*a);
            lemma_params_view(*b);
        }
        if !param_eq(&a[i], &b[i]) {
            proof {
                assert(params_view(*a)[i as int] != params_view(*b)[i as int]);
            }
            return false;
        }
        proof {
            assert(params_view(*a)[i as int] == params_view(*b)[i as int]);
        }
        i += 1;
    }
    proof {
        assert(params_view(*a) =~= params_view(*b));
    }
    true
}

/// Report whether two function types are the same: same rows, and the same
/// added extension requirements as sets.
pub fn functype_eq(a: &FunctionType, b: &FunctionType) -> (r: bool)
    ensures
        r == (functype_view(*a) == functype_view(*b)),
    decreases a,
{
    let r = row_eq(&a.input, &b.input) && row_eq(&a.output, &b.output) && a.extension_reqs.set_eq(
        &b.extension_reqs,
    );
    proof {
        if r {
            assert(functype_view(*a) =~= functype_view(*b));
        }
    }
    r
}

/// Report whether two polymorphic function types are the same.
pub fn poly_eq(a: &PolyFuncType, b: &PolyFuncType) -> (r: bool)
    ensures
        r == (poly_view(*a) == poly_view(*b)),
    decreases a,
{
    let r = params_eq(&a.params, &b.params) && functype_eq(&a.body, &b.body);
    proof {
        if r {
            assert(poly_view(*a) =~= poly_view(*b));
        }
    }
    r
}

// ------------------------------------------------------------------
// Cloning
// ------------------------------------------------------------------
/// Clone a row of types.
pub fn clone_row(v: &TypeRow) -> (r: TypeRow)
    ensures
        row_view(r) == row_view(*v),
        wf_row(*v) ==> wf_row(r),
        r@.len() == v@.len(),
    decreases v,
{
    let mut out: Vec<Type> = Vec::new();
    let mut i: usize = 0;
    while i < v.len()
        invariant
            i <= v@.len(),
            out@.len() == i,
            forall|j: int| 0 <= j < i ==> type_view(#[trigger] out@[j]) == type_view(v@[j]),
            forall|j: int| 0 <= j < i ==> (wf_type(v@[j]) ==> wf_type(#[trigger] out@[j])),
        decreases v@.len() - i,
    {
        out.push(v[i].clone());
        i += 1;
    }
    proof {
        lemma_row_view(out);
        lemma_row_view(*v);
        assert(row_view(out) =~= row_view(*v));
    }
    out
}

/// Clone a list of rows.
pub fn clone_rows(v: &Vec<TypeRow>) -> (r: Vec<TypeRow>)
    ensures
        rows_view(r) == rows_view(*v),
        wf_rows(*v) ==> wf_rows(r),
        r@.len() == v@.len(),
    decreases v,
{
    let mut out: Vec<TypeRow> = Vec::new();
    let mut i: usize = 0;
    while i < v.len()
        invariant
            i <= v@.len(),
            out@.len() == i,
            forall|j: int| 0 <= j < i ==> row_view(#[trigger] out@[j]) == row_view(v@[j]),
            forall|j: int| 0 <= j < i ==> (wf_row(v@[j]) ==> wf_row(#[trigger] out@[j])),
        decreases v@.len() - i,
    {
        out.push(clone_row(&v[i]));
        i += 1;
    }
    proof {
        lemma_rows_view(out);
        lemma_rows_view(*v);
        assert(rows_view(out) =~= rows_view(*v));
        if wf_rows(*v) {
            assert forall|i0: int, j0: int|
                0 <= i0 < out@.len() && 0 <= j0 < out@[i0]@.len() implies wf_type(
                #[trigger] out@[i0]@[j0],
            ) by {
                assert(wf_row(v@[i0]));
                assert(wf_row(out@[i0]));
            }
        }
    }
    out
}

/// Clone a list of type arguments.
pub fn clone_args(v: &Vec<TypeArg>) -> (r: Vec<TypeArg>)
    ensures
        args_view(r) == args_view(*v),
        wf_args(*v) ==> wf_args(r),
        r@.len() == v@.len(),
    decreases v,
{
    let mut out: Vec<TypeArg> = Vec::new();
    let mut i: usize = 0;
    while i < v.len()
        invariant
            i <= v@.len(),
            out@.len() == i,
            forall|j: int| 0 <= j < i ==> arg_view(#[trigger] out@[j]) == arg_view(v@[j]),
            forall|j: int| 0 <= j < i ==> (wf_arg(v@[j]) ==> wf_arg(#[trigger] out@[j])),
        decreases v@.len() - i,
    {
        out.push(v[i].clone());
        i += 1;
    }
    proof {
        lemma_args_view(out);
        lemma_args_view(*v);
        assert(args_view(out) =~= args_view(*v));
    }
    out
}

/// Clone a list of parameter kinds.
pub fn clone_params(v: &Vec<TypeParam>) -> (r: Vec<TypeParam>)
    ensures
        params_view(r) == params_view(*v),
        wf_params(*v) ==> wf_params(r),
        r@.len() == v@.len(),
    decreases v,
{
    let mut out: Vec<TypeParam> = Vec::new();
    let mut i: usize = 0;
    while i < v.len()
        invariant
            i <= v@.len(),
            out@.len() == i,
            forall|j: int| 0 <= j < i ==> param_view(#[trigger] out@[j]) == param_view(v@[j]),
            forall|j: int| 0 <= j < i ==> (wf_param(v@[j]) ==> wf_param(#[trigger] out@[j])),
        decreases v@.len() - i,
    {
        out.push(v[i].clone());
        i += 1;
    }
    proof {
        lemma_params_view(out);
        lemma_params_view(*v);
        assert(params_view(out) =~= params_view(*v));
    }
    out
}

impl Clone for AliasDecl {
    /// Clone an alias declaration.
    fn clone(&self) -> (r: Self)
        ensures
            r.name@ == self.name@,
            r.bound == self.bound,
    {
        AliasDecl { name: self.name.clone(), bound: self.bound }
    }
}

impl Clone for Type {
    /// Clone a type: the copy has the same structure, the same cached
    /// bound, and is well-formed if the original is.
    fn clone(&self) -> (r: Self)
        ensures
            type_view(r) == type_view(*self),
            r.bound == self.bound,
            wf_type(*self) ==> wf_type(r),
        decreases self,
    {
        Type { e: clone_enum(&self.e), bound: self.bound }
    }
}

/// Clone a type structure.
pub fn clone_enum(e: &TypeEnum) -> (r: TypeEnum)
    ensures
        enum_view(r) == enum_view(*e),
        wf_enum(*e) ==> wf_enum(r),
    decreases e,
{
    match e {
        TypeEnum::Extension(c) => TypeEnum::Extension(c.clone()),
        TypeEnum::Alias(a) => TypeEnum::Alias(a.clone()),
        TypeEnum::Function(pf) => TypeEnum::Function(Box::new(clone_poly(pf))),
        TypeEnum::Variable(idx, b) => TypeEnum::Variable(*idx, *b),
        TypeEnum::RowVariable(idx, b) => TypeEnum::RowVariable(*idx, *b),
        TypeEnum::Sum(s) => TypeEnum::Sum(s.clone()),
    }
}

impl Clone for SumType {
    /// Clone a sum type.
    fn clone(&self) -> (r: Self)
        ensures
            sum_view(r) == sum_view(*self),
            wf_sum(*self) ==> wf_sum(r),
        decreases self,
    {
        match self {
            SumType::Unit { size } => SumType::Unit { size: *size },
            SumType::General { rows } => SumType::General { rows: clone_rows(rows) },
        }
    }
}

impl Clone for CustomType {
    /// Clone a custom type.
    fn clone(&self) -> (r: Self)
        ensures
            custom_view(r) == custom_view(*self),
            wf_custom(*self) ==> wf_custom(r),
        decreases self,
    {
        let r = CustomType {
            extension: self.extension.clone(),
            id: self.id.clone(),
            args: clone_args(&self.args),
            bound: self.bound,
        };
        proof {
            assert(custom_view(r) =~= custom_view(*self));
        }
        r
    }
}

impl Clone for TypeArg {
    /// Clone a type argument.
    fn clone(&self) -> (r: Self)
        ensures
            arg_view(r) == arg_view(*self),
            wf_arg(*self) ==> wf_arg(r),
        decreases self,
    {
        broadcast use lemma_wf_arg_sequence;

        match self {
            TypeArg::Type { ty } => TypeArg::Type { ty: ty.clone() },
            TypeArg::BoundedNat { n } => TypeArg::BoundedNat { n: *n },
            TypeArg::Sequence { elems } => TypeArg::Sequence { elems: clone_args(elems) },
            TypeArg::Extensions { es } => TypeArg::Extensions { es: es.clone() },
            TypeArg::Variable { idx, cached_decl } => TypeArg::Variable {
                idx: *idx,
                cached_decl: cached_decl.clone(),
            },
        }
    }
}

impl Clone for TypeParam {
    /// Clone a parameter kind.
    fn clone(&self) -> (r: Self)
        ensures
            param_view(r) == param_view(*self),
            wf_param(*self) ==> wf_param(r),
        decreases self,
    {
        broadcast use lemma_wf_param_tuple;

        match self {
            TypeParam::Type { b } => TypeParam::Type { b: *b },
            TypeParam::BoundedNat { bound } => TypeParam::BoundedNat { bound: *bound },
            TypeParam::Opaque { ty } => TypeParam::Opaque { ty: ty.clone() },
            TypeParam::List { param } => TypeParam::List {
                param: Box::new((**param).clone()),
            },
            TypeParam::Tuple { params } => TypeParam::Tuple { params: clone_params(params) },
            TypeParam::Extensions => TypeParam::Extensions,
        }
    }
}

impl Clone for FunctionType {
    /// Clone a function type.
    fn clone(&self) -> (r: Self)
        ensures
            functype_view(r) == functype_view(*self),
            wf_functype(*self) ==> wf_functype(r),
        decreases self,
    {
        let r = FunctionType {
            input: clone_row(&self.input),
            output: clone_row(&self.output),
            extension_reqs: self.extension_reqs.clone(),
        };
        proof {
            assert(functype_view(r) =~= functype_view(*self));
        }
        r
    }
}

/// Clone a polymorphic function type.
pub fn clone_poly(p: &PolyFuncType) -> (r: PolyFuncType)
    ensures
        poly_view(r) == poly_view(*p),
        wf_poly(*p) ==> wf_poly(r),
    decreases p,
{
    let r = PolyFuncType { params: clone_params(&p.params), body: p.body.clone() };
    proof {
        assert(poly_view(r) =~= poly_view(*p));
    }
    r
}

impl Clone for PolyFuncType {
    /// Clone a polymorphic function type.
    fn clone(&self) -> (r: Self)
        ensures
            poly_view(r) == poly_view(*self),
            wf_poly(*self) ==> wf_poly(r),
    {
        clone_poly(self)
    }
}

// ------------------------------------------------------------------
// Construction
// ------------------------------------------------------------------
/// What [`SumType::new`] builds from the given variant rows: the compact
/// unit form whenever every row is empty and there are at most 255 of them,
/// else the general form.
pub open spec fn sum_new_spec(rows: Seq<Seq<TypeSpec>>) -> SumTypeSpec {
    if rows.len() <= 255 && (forall|i: int| 0 <= i < rows.len() ==> rows[i].len() == 0) {
        SumTypeSpec::Unit(rows.len())
    } else {
        SumTypeSpec::General(rows)
    }
}

/// The row of the `tag`th variant of a sum, if there is one.
pub open spec fn sum_variant_spec(s: SumTypeSpec, tag: int) -> Option<Seq<TypeSpec>> {
    match s {
        SumTypeSpec::Unit(size) => if 0 <= tag < size {
            Some(Seq::empty())
        } else {
            None
        },
        SumTypeSpec::General(rows) => if 0 <= tag < rows.len() {
            Some(rows[tag])
        } else {
            None
        },
    }
}

/// The number of variants of a sum.
pub open spec fn sum_num_variants_spec(s: SumTypeSpec) -> nat {
    match s {
        SumTypeSpec::Unit(size) => size,
        SumTypeSpec::General(rows) => rows.len(),
    }
}

impl SumType {
    /// Initialize a new sum type, using the compact unit form when every
    /// variant row is empty and there are at most 255 of them.
    pub fn new(variants: Vec<TypeRow>) -> (r: SumType)
        ensures
            sum_view(r) == sum_new_spec(rows_view(variants)),
            wf_rows(variants) ==> wf_sum(r),
    {
        proof {
            lemma_rows_view(variants);
        }
        let mut all_empty = true;
        let mut i: usize = 0;
        while i < variants.len()
            invariant
                i <= variants@.len(),
                rows_view(variants).len() == variants@.len(),
                forall|j: int| 0 <= j < variants@.len() ==> rows_view(variants)[j] == row_view(
                    variants@[j],
                ),
                all_empty == (forall|j: int|
                    0 <= j < i ==> #[trigger] rows_view(variants)[j].len() == 0),
            decreases variants@.len() - i,
        {
            proof {
                lemma_row_view(variants@[i as int]);
            }
            if variants[i].len() != 0 {
                all_empty = false;
                proof {
                    assert(rows_view(variants)[i as int].len() != 0);
                }
            } else {
                proof {
                    assert(rows_view(variants)[i as int].len() == 0);
                }
            }
            i += 1;
        }
        if variants.len() <= 255 && all_empty {
            SumType::Unit { size: variants.len() as u8 }
        } else {
            SumType::General { rows: variants }
        }
    }

    /// New unit sum with the given number of empty variants.
    pub fn new_unary(size: u8) -> (r: SumType)
        ensures
            sum_view(r) == SumTypeSpec::Unit(size as nat),
            wf_sum(r),
    {
        SumType::Unit { size }
    }

    /// New tuple: a sum with a single row of variants.
    pub fn new_tuple(types: TypeRow) -> (r: SumType)
        ensures
            sum_view(r) == sum_new_spec(seq![row_view(types)]),
            wf_row(types) ==> wf_sum(r),
    {
        let ghost types_g = types;
        let mut variants: Vec<TypeRow> = Vec::new();
        variants.push(types);
        proof {
            lemma_rows_view(variants);
            assert(rows_view(variants) =~= seq![row_view(types_g)]);
            assert(wf_row(types_g) ==> wf_rows(variants));
        }
        SumType::new(variants)
    }

    /// Report the `tag`th variant's row, if it exists.  The unit form hands
    /// back an empty row for every variant in range.
    pub fn get_variant(&self, tag: usize) -> (r: Option<TypeRow>)
        ensures
            (r is Some) == (sum_variant_spec(sum_view(*self), tag as int) is Some),
            r matches Some(row) ==> row_view(row) == sum_variant_spec(
                sum_view(*self),
                tag as int,
            )->Some_0 && (wf_sum(*self) ==> wf_row(row)),
    {
        match self {
            SumType::Unit { size } => {
                if tag < *size as usize {
                    let row: TypeRow = Vec::new();
                    proof {
                        lemma_row_view(row);
                        assert(row_view(row) =~= Seq::<TypeSpec>::empty());
                    }
                    Some(row)
                } else {
                    None
                }
            },
            SumType::General { rows } => {
                proof {
                    lemma_rows_view(*rows);
                }
                if tag < rows.len() {
                    let row = clone_row(&rows[tag]);
                    proof {
                        if wf_sum(*self) {
                            assert forall|j: int| 0 <= j < rows@[tag as int]@.len() implies wf_type(
                                #[trigger] rows@[tag as int]@[j],
                            ) by {}
                        }
                    }
                    Some(row)
                } else {
                    None
                }
            },
        }
    }

    /// Returns the number of variants in the sum type.
    pub fn num_variants(&self) -> (r: usize)
        ensures
            r == sum_num_variants_spec(sum_view(*self)),
    {
        proof {
            if self is General {
                lemma_rows_view(self->rows);
            }
        }
        match self {
            SumType::Unit { size } => *size as usize,
            SumType::General { rows } => rows.len(),
        }
    }

    /// Returns the variant row if there is exactly one variant.
    pub fn as_tuple(&self) -> (r: Option<TypeRow>)
        ensures
            (r is Some) == (sum_num_variants_spec(sum_view(*self)) == 1),
            r matches Some(row) ==> row_view(row) == sum_variant_spec(sum_view(*self), 0)->Some_0
                && (wf_sum(*self) ==> wf_row(row)),
    {
        if self.num_variants() == 1 {
            self.get_variant(0)
        } else {
            None
        }
    }
}

/// Over an all-empty-row list of at most 255 rows, [`SumType::new`] always
/// produces the unit form, and the row of every variant of that form is the
/// same (empty) row that the literal general form would give.
pub proof fn lemma_sum_new_unit(rows: Seq<Seq<TypeSpec>>, tag: int)
    requires
        rows.len() <= 255,
        forall|i: int| 0 <= i < rows.len() ==> rows[i].len() == 0,
    ensures
        sum_new_spec(rows) == SumTypeSpec::Unit(rows.len()),
        sum_variant_spec(sum_new_spec(rows), tag) == sum_variant_spec(
            SumTypeSpec::General(rows),
            tag,
        ),
{
    if 0 <= tag < rows.len() {
        assert(rows[tag] =~= Seq::<TypeSpec>::empty());
    }
}

/// Compute the least upper bound of a type structure from the cached bounds
/// of its well-formed children.
pub fn compute_bound(e: &TypeEnum) -> (r: TypeBound)
    requires
        wf_enum(*e),
    ensures
        r == bound_spec(enum_view(*e)),
{
    match e {
        TypeEnum::Extension(c) => c.bound,
        TypeEnum::Alias(a) => a.bound,
        TypeEnum::Function(_) => TypeBound::Copyable,
        TypeEnum::Variable(_, b) => *b,
        TypeEnum::RowVariable(_, b) => *b,
        TypeEnum::Sum(SumType::Unit { .. }) => TypeBound::Eq,
        TypeEnum::Sum(SumType::General { rows }) => {
            let ghost vm = rows_view(*rows);
            proof {
                lemma_rows_view(*rows);
            }
            let mut acc = TypeBound::Eq;
            let mut i: usize = 0;
            while i < rows.len()
                invariant
                    wf_rows(*rows),
                    i <= rows@.len(),
                    vm == rows_view(*rows),
                    vm.len() == rows@.len(),
                    forall|j: int| 0 <= j < rows@.len() ==> vm[j] == row_view(rows@[j]),
                    acc == rows_lub_prefix(vm, i as int),
                decreases rows@.len() - i,
            {
                let row = &rows[i];
                proof {
                    lemma_row_view(*row);
                }
                let mut j: usize = 0;
                while j < row.len()
                    invariant
                        wf_rows(*rows),
                        i < rows@.len(),
                        j <= row@.len(),
                        row == &rows@[i as int],
                        vm == rows_view(*rows),
                        vm.len() == rows@.len(),
                        forall|k: int| 0 <= k < rows@.len() ==> vm[k] == row_view(rows@[k]),
                        row_view(*row).len() == row@.len(),
                        forall|k: int| 0 <= k < row@.len() ==> row_view(*row)[k] == type_view(
                            row@[k],
                        ),
                        acc == rows_lub_prefix(vm, i as int).lub(row_lub_prefix(vm[i as int], j as int)),
                    decreases row@.len() - j,
                {
                    proof {
                        assert(wf_type(rows@[i as int]@[j as int]));
                    }
                    acc = acc.union(row[j].bound);
                    j += 1;
                }
                proof {
                    assert(rows_lub_prefix(vm, i + 1) == rows_lub_prefix(vm, i as int).lub(
                        row_lub_prefix(vm[i as int], vm[i as int].len() as int),
                    ));
                }
                i += 1;
            }
            acc
        },
    }
}

impl Type {
    /// Build a type from its structure, computing the cached bound.
    pub fn new(e: TypeEnum) -> (r: Type)
        requires
            wf_enum(e),
        ensures
            wf_type(r),
            type_view(r) == enum_view(e),
    {
        let bound = compute_bound(&e);
        Type { e, bound }
    }

    /// Initialize a new sum type by providing the possible variant rows.
    pub fn new_sum(variants: Vec<TypeRow>) -> (r: Type)
        requires
            wf_rows(variants),
        ensures
            wf_type(r),
            type_view(r) == TypeSpec::Sum(sum_new_spec(rows_view(variants))),
    {
        let ghost vg = variants;
        let s = SumType::new(variants);
        Type::new(TypeEnum::Sum(s))
    }

    /// Initialize a new tuple type by providing the element types.
    pub fn new_tuple(types: TypeRow) -> (r: Type)
        requires
            wf_row(types),
        ensures
            wf_type(r),
            type_view(r) == TypeSpec::Sum(sum_new_spec(seq![row_view(types)])),
    {
        let s = SumType::new_tuple(types);
        Type::new(TypeEnum::Sum(s))
    }

    /// New unit sum with the given number of empty variants.
    pub fn new_unit_sum(size: u8) -> (r: Type)
        ensures
            wf_type(r),
            type_view(r) == TypeSpec::Sum(SumTypeSpec::Unit(size as nat)),
    {
        Type { e: TypeEnum::Sum(SumType::Unit { size }), bound: TypeBound::Eq }
    }

    /// Initialize a new custom type.
    pub fn new_extension(opaque: CustomType) -> (r: Type)
        requires
            wf_custom(opaque),
        ensures
            wf_type(r),
            type_view(r) == TypeSpec::Extension(custom_view(opaque)),
    {
        let bound = opaque.bound;
        Type { e: TypeEnum::Extension(opaque), bound }
    }

    /// Initialize a new alias.
    pub fn new_alias(alias: AliasDecl) -> (r: Type)
        ensures
            wf_type(r),
            type_view(r) == TypeSpec::Alias(alias.name@, alias.bound),
    {
        let bound = alias.bound;
        Type { e: TypeEnum::Alias(alias), bound }
    }

    /// Initialize a new polymorphic function type.
    pub fn new_function(fun_ty: PolyFuncType) -> (r: Type)
        requires
            wf_poly(fun_ty),
        ensures
            wf_type(r),
            type_view(r) == TypeSpec::Function(Box::new(poly_view(fun_ty))),
    {
        Type { e: TypeEnum::Function(Box::new(fun_ty)), bound: TypeBound::Copyable }
    }

    /// New use of the type variable with the given De Bruijn index; `bound`
    /// must be exactly that with which the variable was declared.
    pub fn new_var_use(idx: usize, bound: TypeBound) -> (r: Type)
        ensures
            wf_type(r),
            type_view(r) == TypeSpec::Variable(idx as nat, bound),
    {
        Type { e: TypeEnum::Variable(idx, bound), bound }
    }

    /// New use of the row variable with the given De Bruijn index; `bound`
    /// must be exactly that with which the variable was declared.  For use at
    /// scheme boundaries only, never as a concrete port type.
    pub fn new_row_var_use(idx: usize, bound: TypeBound) -> (r: Type)
        ensures
            wf_type(r),
            type_view(r) == TypeSpec::RowVariable(idx as nat, bound),
    {
        Type { e: TypeEnum::RowVariable(idx, bound), bound }
    }

    /// Report the least upper bound of the type: the cached bound, which for
    /// a well-formed value equals the bound recomputed from the structure.
    pub fn least_upper_bound(&self) -> (r: TypeBound)
        ensures
            r == self.bound,
            wf_type(*self) ==> r == bound_spec(type_view(*self)),
    {
        self.bound
    }

    /// Report the component structure.
    pub fn as_type_enum(&self) -> (r: &TypeEnum)
        ensures
            *r == self.e,
    {
        &self.e
    }

    /// Report whether the type is copyable: its least upper bound is
    /// contained by the copyable bound.
    pub fn copyable(&self) -> (r: bool)
        ensures
            r == (self.bound.rank() <= TypeBound::Copyable.rank()),
    {
        let b = TypeBound::Copyable;
        b.contains(self.bound)
    }

    /// Report whether this type is really a row variable, standing for any
    /// number of types.
    pub fn is_row_var(&self) -> (r: bool)
        ensures
            r == (type_view(*self) is RowVariable),
    {
        matches!(self.e, TypeEnum::RowVariable(_, _))
    }
}


// ------------------------------------------------------------------
// Equality operators
// ------------------------------------------------------------------
impl PartialEq for Type {
    /// Two types are equal when their structures are; for well-formed
    /// values the cached bounds then agree too.
    fn eq(&self, other: &Self) -> (r: bool) {
        type_eq(self, other)
    }
}

impl vstd::std_specs::cmp::PartialEqSpecImpl for Type {
    open spec fn obeys_eq_spec() -> bool {
        true
    }

    open spec fn eq_spec(&self, other: &Self) -> bool {
        type_view(*self) == type_view(*other)
    }
}

impl Eq for Type {

}

impl PartialEq for SumType {
    fn eq(&self, other: &Self) -> (r: bool) {
        sum_eq(self, other)
    }
}

impl vstd::std_specs::cmp::PartialEqSpecImpl for SumType {
    open spec fn obeys_eq_spec() -> bool {
        true
    }

    open spec fn eq_spec(&self, other: &Self) -> bool {
        sum_view(*self) == sum_view(*other)
    }
}

impl Eq for SumType {

}

impl PartialEq for CustomType {
    fn eq(&self, other: &Self) -> (r: bool) {
        custom_eq(self, other)
    }
}

impl vstd::std_specs::cmp::PartialEqSpecImpl for CustomType {
    open spec fn obeys_eq_spec() -> bool {
        true
    }

    open spec fn eq_spec(&self, other: &Self) -> bool {
        custom_view(*self) == custom_view(*other)
    }
}

impl Eq for CustomType {

}

impl PartialEq for TypeArg {
    fn eq(&self, other: &Self) -> (r: bool) {
        arg_eq(self, other)
    }
}

impl vstd::std_specs::cmp::PartialEqSpecImpl for TypeArg {
    open spec fn obeys_eq_spec() -> bool {
        true
    }

    open spec fn eq_spec(&self, other: &Self) -> bool {
        arg_view(*self) == arg_view(*other)
    }
}

impl Eq for TypeArg {

}

impl PartialEq for TypeParam {
    fn eq(&self, other: &Self) -> (r: bool) {
        param_eq(self, other)
    }
}

impl vstd::std_specs::cmp::PartialEqSpecImpl for TypeParam {
    open spec fn obeys_eq_spec() -> bool {
        true
    }

    open spec fn eq_spec(&self, other: &Self) -> bool {
        param_view(*self) == param_view(*other)
    }
}

impl Eq for TypeParam {

}

impl PartialEq for FunctionType {
    fn eq(&self, other: &Self) -> (r: bool) {
        functype_eq(self, other)
    }
}

impl vstd::std_specs::cmp::PartialEqSpecImpl for FunctionType {
    open spec fn obeys_eq_spec() -> bool {
        true
    }

    open spec fn eq_spec(&self, other: &Self) -> bool {
        functype_view(*self) == functype_view(*other)
    }
}

impl Eq for FunctionType {

}

impl PartialEq for PolyFuncType {
    fn eq(&self, other: &Self) -> (r: bool) {
        poly_eq(self, other)
    }
}

impl vstd::std_specs::cmp::PartialEqSpecImpl for PolyFuncType {
    open spec fn obeys_eq_spec() -> bool {
        true
    }

    open spec fn eq_spec(&self, other: &Self) -> bool {
        poly_view(*self) == poly_view(*other)
    }
}

impl Eq for PolyFuncType {

}


} // verus!
