//! Extensions: named bundles of type definitions, operation definitions and
//! static values, and the registries they are looked up in.

use vstd::prelude::*;
use crate::extension_set::{ExtensionId, ExtensionSet};
use crate::type_param::{arg_error_view_eq, TypeArgError};
use crate::types::{
    arg_view, functype_view, param_view, params_view, poly_view, type_view, wf_functype, wf_params,
    wf_poly, CustomType, FunctionType, PolyFuncType, Type, TypeArg, TypeBound, TypeName, TypeParam,
};

verus! {

/// An error that can occur in computing or checking the signature of a node.
#[derive(Debug)]
pub enum SignatureError {
    /// A definition's name and an instantiation's name do not match.
    NameMismatch(TypeName, TypeName),
    /// A definition's extension and an instantiation's extension do not
    /// match.
    ExtensionMismatch(ExtensionId, ExtensionId),
    /// The type arguments of the node did not match the parameters declared
    /// by the definition.
    TypeArgMismatch(TypeArgError),
    /// Invalid type arguments: substitution was applied to content that
    /// validation would have rejected, or an index left the machine's range.
    InvalidTypeArgs,
    /// The registry did not contain an extension that the signature names.
    ExtensionNotFound(ExtensionId),
    /// The extension was found, but did not contain the named type
    /// definition.
    ExtensionTypeNotFound {
        /// The extension that was searched.
        exn: ExtensionId,
        /// The name of the missing type definition.
        typ: TypeName,
    },
    /// The extension was found, but did not contain the named operation
    /// definition.
    ExtensionOpNotFound {
        /// The extension that was searched.
        exn: ExtensionId,
        /// The name of the missing operation definition.
        op: TypeName,
    },
    /// The bound stored on a custom type does not match what its definition
    /// computes for the stored arguments.
    WrongBound {
        /// The bound the value carries.
        actual: TypeBound,
        /// The bound the definition computes.
        expected: TypeBound,
    },
    /// A type variable is used with a kind that does not match its
    /// declaration.
    TypeVarDoesNotMatchDeclaration {
        /// The kind the use carries.
        cached: TypeParam,
        /// The kind the variable was declared with.
        actual: TypeParam,
    },
    /// A type variable that was used has not been declared.
    FreeTypeVar {
        /// The index that was used.
        idx: usize,
        /// How many variables are in scope.
        num_decls: usize,
    },
    /// A row variable was used where a single concrete type is required.
    RowVarWhereTypeExpected {
        /// The index of the offending row variable.
        idx: usize,
    },
    /// A cached signature does not equal the signature recomputed from the
    /// definition.
    CachedTypeIncorrect {
        /// The signature the node carries.
        stored: PolyFuncType,
        /// The signature the definition computes.
        expected: PolyFuncType,
    },
}

/// Whether two signature errors say the same thing.
pub open spec fn sig_error_view_eq(a: SignatureError, b: SignatureError) -> bool {
    match (a, b) {
        (SignatureError::NameMismatch(x1, y1), SignatureError::NameMismatch(x2, y2)) => x1@ == x2@
            && y1@ == y2@,
        (
            SignatureError::ExtensionMismatch(x1, y1),
            SignatureError::ExtensionMismatch(x2, y2),
        ) => x1@ == x2@ && y1@ == y2@,
        (SignatureError::TypeArgMismatch(e1), SignatureError::TypeArgMismatch(e2)) =>
            arg_error_view_eq(e1, e2),
        (SignatureError::InvalidTypeArgs, SignatureError::InvalidTypeArgs) => true,
        (SignatureError::ExtensionNotFound(x1), SignatureError::ExtensionNotFound(x2)) => x1@
            == x2@,
        (
            SignatureError::ExtensionTypeNotFound { exn: e1, typ: t1 },
            SignatureError::ExtensionTypeNotFound { exn: e2, typ: t2 },
        ) => e1@ == e2@ && t1@ == t2@,
        (
            SignatureError::ExtensionOpNotFound { exn: e1, op: t1 },
            SignatureError::ExtensionOpNotFound { exn: e2, op: t2 },
        ) => e1@ == e2@ && t1@ == t2@,
        (
            SignatureError::WrongBound { actual: a1, expected: x1 },
            SignatureError::WrongBound { actual: a2, expected: x2 },
        ) => a1 == a2 && x1 == x2,
        (
            SignatureError::TypeVarDoesNotMatchDeclaration { cached: c1, actual: a1 },
            SignatureError::TypeVarDoesNotMatchDeclaration { cached: c2, actual: a2 },
        ) => param_view(c1) == param_view(c2) && param_view(a1) == param_view(a2),
        (
            SignatureError::FreeTypeVar { idx: i1, num_decls: n1 },
            SignatureError::FreeTypeVar { idx: i2, num_decls: n2 },
        ) => i1 == i2 && n1 == n2,
        (
            SignatureError::RowVarWhereTypeExpected { idx: i1 },
            SignatureError::RowVarWhereTypeExpected { idx: i2 },
        ) => i1 == i2,
        (
            SignatureError::CachedTypeIncorrect { stored: s1, expected: x1 },
            SignatureError::CachedTypeIncorrect { stored: s2, expected: x2 },
        ) => poly_view(s1) == poly_view(s2) && poly_view(x1) == poly_view(x2),
        _ => false,
    }
}

impl PartialEq for SignatureError {
    fn eq(&self, other: &Self) -> (r: bool) {
        match (self, other) {
            (SignatureError::NameMismatch(x1, y1), SignatureError::NameMismatch(x2, y2)) => x1.eq(
                x2,
            ) && y1.eq(y2),
            (
                SignatureError::ExtensionMismatch(x1, y1),
                SignatureError::ExtensionMismatch(x2, y2),
            ) => x1.eq(x2) && y1.eq(y2),
            (SignatureError::TypeArgMismatch(e1), SignatureError::TypeArgMismatch(e2)) => e1 == e2,
            (SignatureError::InvalidTypeArgs, SignatureError::InvalidTypeArgs) => true,
            (SignatureError::ExtensionNotFound(x1), SignatureError::ExtensionNotFound(x2)) => x1
                .eq(x2),
            (
                SignatureError::ExtensionTypeNotFound { exn: e1, typ: t1 },
                SignatureError::ExtensionTypeNotFound { exn: e2, typ: t2 },
            ) => e1.eq(e2) && t1.eq(t2),
            (
                SignatureError::ExtensionOpNotFound { exn: e1, op: t1 },
                SignatureError::ExtensionOpNotFound { exn: e2, op: t2 },
            ) => e1.eq(e2) && t1.eq(t2),
            (
                SignatureError::WrongBound { actual: a1, expected: x1 },
                SignatureError::WrongBound { actual: a2, expected: x2 },
            ) => a1 == a2 && x1 == x2,
            (
                SignatureError::TypeVarDoesNotMatchDeclaration { cached: c1, actual: a1 },
                SignatureError::TypeVarDoesNotMatchDeclaration { cached: c2, actual: a2 },
            ) => crate::types::param_eq(c1, c2) && crate::types::param_eq(a1, a2),
            (
                SignatureError::FreeTypeVar { idx: i1, num_decls: n1 },
                SignatureError::FreeTypeVar { idx: i2, num_decls: n2 },
            ) => i1 == i2 && n1 == n2,
            (
                SignatureError::RowVarWhereTypeExpected { idx: i1 },
                SignatureError::RowVarWhereTypeExpected { idx: i2 },
            ) => i1 == i2,
            (
                SignatureError::CachedTypeIncorrect { stored: s1, expected: x1 },
                SignatureError::CachedTypeIncorrect { stored: s2, expected: x2 },
            ) => crate::types::poly_eq(s1, s2) && crate::types::poly_eq(x1, x2),
            _ => false,
        }
    }
}

impl vstd::std_specs::cmp::PartialEqSpecImpl for SignatureError {
    open spec fn obeys_eq_spec() -> bool {
        true
    }

    open spec fn eq_spec(&self, other: &Self) -> bool {
        sig_error_view_eq(*self, *other)
    }
}

impl Eq for SignatureError {

}

// ------------------------------------------------------------------
// Type and operation definitions
// ------------------------------------------------------------------
/// How a type definition computes the bound of its instances: a fixed bound,
/// or the least upper bound of the arguments at the given parameter
/// positions.
#[derive(Debug)]
pub enum TypeDefBound {
    /// The bound is this, whatever the arguments.
    Explicit(TypeBound),
    /// The bound is the least upper bound of the (type) arguments at these
    /// parameter positions.
    FromParams(Vec<usize>),
}

/// An extension's declaration of a parametrised type family.
#[derive(Debug)]
pub struct TypeDef {
    /// The extension that declares the family.
    pub extension: ExtensionId,
    /// The family's name, unique within its extension.
    pub name: TypeName,
    /// The declared parameter kinds.
    pub params: Vec<TypeParam>,
    /// A human-readable description.
    pub description: String,
    /// The bound-computation policy.
    pub bound: TypeDefBound,
}

/// The bound a definition computes for the given arguments: over the listed
/// positions, the least upper bound of each type argument's bound.  A
/// position that is out of range or does not hold a type contributes `Any`.
pub open spec fn def_bound_spec(bd: TypeDefBound, args: Seq<crate::types::TypeArgSpec>) -> TypeBound {
    match bd {
        TypeDefBound::Explicit(b) => b,
        TypeDefBound::FromParams(idxs) => from_params_lub(idxs, args, idxs@.len() as int),
    }
}

/// Least upper bound over the first `n` listed positions.
pub open spec fn from_params_lub(
    idxs: Vec<usize>,
    args: Seq<crate::types::TypeArgSpec>,
    n: int,
) -> TypeBound
    decreases n,
{
    if n <= 0 || n > idxs@.len() {
        TypeBound::Eq
    } else {
        from_params_lub(idxs, args, n - 1).lub(arg_bound_spec(args, idxs@[n - 1] as int))
    }
}

/// The bound contributed by the argument at one position.
pub open spec fn arg_bound_spec(args: Seq<crate::types::TypeArgSpec>, i: int) -> TypeBound {
    if 0 <= i < args.len() {
        match args[i] {
            crate::types::TypeArgSpec::Type(t) => crate::types::bound_spec(t),
            _ => TypeBound::Any,
        }
    } else {
        TypeBound::Any
    }
}

impl TypeDef {
    /// Compute the bound of an instance with the given arguments.
    pub fn compute_bound(&self, args: &Vec<TypeArg>) -> (r: TypeBound)
        requires
            crate::types::wf_args(*args),
        ensures
            r == def_bound_spec(self.bound, crate::types::args_view(*args)),
    {
        proof {
            crate::types::lemma_args_view(*args);
        }
        match &self.bound {
            TypeDefBound::Explicit(b) => *b,
            TypeDefBound::FromParams(idxs) => {
                let ghost am = crate::types::args_view(*args);
                let mut acc = TypeBound::Eq;
                let mut i: usize = 0;
                while i < idxs.len()
                    invariant
                        crate::types::wf_args(*args),
                        i <= idxs@.len(),
                        am == crate::types::args_view(*args),
                        am.len() == args@.len(),
                        forall|j: int| 0 <= j < args@.len() ==> am[j] == crate::types::arg_view(
                            args@[j],
                        ),
                        self.bound matches TypeDefBound::FromParams(v) && v == *idxs,
                        acc == from_params_lub(*idxs, am, i as int),
                    decreases idxs@.len() - i,
                {
                    let k = idxs[i];
                    let b = if k < args.len() {
                        match &args[k] {
                            TypeArg::Type { ty } => {
                                proof {
                                    assert(crate::types::wf_type(*ty));
                                }
                                ty.least_upper_bound()
                            },
                            _ => TypeBound::Any,
                        }
                    } else {
                        TypeBound::Any
                    };
                    proof {
                        assert(b == arg_bound_spec(am, idxs@[i as int] as int));
                    }
                    acc = acc.union(b);
                    i += 1;
                }
                acc
            },
        }
    }

    /// Check that a custom instance is a valid instantiation of this
    /// definition: same extension, same name, arguments fitting the declared
    /// parameters.
    pub fn check_custom(&self, custom: &CustomType) -> (r: Result<(), SignatureError>)
        requires
            crate::types::wf_custom(*custom),
        ensures
            (r is Ok) == (self.extension@ == custom.extension@ && self.name@ == custom.id@
                && crate::type_param::args_fit(
                crate::types::args_view(custom.args),
                params_view(self.params),
            )),
            self.extension@ != custom.extension@ ==> (r matches Err(e) && (e matches
            SignatureError::ExtensionMismatch(a, b) && a@ == self.extension@ && b@
                == custom.extension@)),
            self.extension@ == custom.extension@ && self.name@ != custom.id@ ==> (r matches Err(
                e,
            ) && (e matches SignatureError::NameMismatch(a, b) && a@ == self.name@ && b@
                == custom.id@)),
            self.extension@ == custom.extension@ && self.name@ == custom.id@
                && !crate::type_param::args_fit(
                crate::types::args_view(custom.args),
                params_view(self.params),
            ) ==> (r matches Err(e) && (e matches SignatureError::TypeArgMismatch(inner)
                && crate::type_param::args_report_ok(
                inner,
                crate::types::args_view(custom.args),
                params_view(self.params),
            ))),
    {
        if !self.extension.eq(&custom.extension) {
            return Err(SignatureError::ExtensionMismatch(
                self.extension.clone(),
                custom.extension.clone(),
            ));
        }
        if !self.name.eq(&custom.id) {
            return Err(SignatureError::NameMismatch(self.name.clone(), custom.id.clone()));
        }
        match crate::type_param::check_type_args(&custom.args, &self.params) {
            Ok(()) => Ok(()),
            Err(e) => Err(SignatureError::TypeArgMismatch(e)),
        }
    }

    /// Instantiate the definition with concrete arguments, computing the
    /// instance's bound.  Fails exactly when the arguments do not fit the
    /// declared parameters.
    pub fn instantiate(&self, args: Vec<TypeArg>) -> (r: Result<CustomType, SignatureError>)
        requires
            crate::types::wf_args(args),
        ensures
            (r is Ok) == crate::type_param::args_fit(
                crate::types::args_view(args),
                params_view(self.params),
            ),
            r matches Err(e) ==> (e matches SignatureError::TypeArgMismatch(inner)
                && crate::type_param::args_report_ok(
                inner,
                crate::types::args_view(args),
                params_view(self.params),
            )),
            r matches Ok(c) ==> crate::types::custom_view(c) == (crate::types::CustomTypeSpec {
                extension: self.extension@,
                id: self.name@,
                args: crate::types::args_view(args),
                bound: def_bound_spec(self.bound, crate::types::args_view(args)),
            }) && crate::types::wf_custom(c),
    {
        match crate::type_param::check_type_args(&args, &self.params) {
            Ok(()) => {},
            Err(e) => {
                return Err(SignatureError::TypeArgMismatch(e));
            },
        }
        let bound = self.compute_bound(&args);
        let c = CustomType {
            extension: self.extension.clone(),
            id: self.name.clone(),
            args,
            bound,
        };
        proof {
            assert(crate::types::custom_view(c) =~= crate::types::CustomTypeSpec {
                extension: self.extension@,
                id: self.name@,
                args: crate::types::args_view(c.args),
                bound: def_bound_spec(self.bound, crate::types::args_view(c.args)),
            });
        }
        Ok(c)
    }
}

/// A constant value: this core models only its type; payloads live with the
/// serialization collaborators.
#[derive(Debug)]
pub struct Const {
    /// The type of the constant.
    pub datatype: Type,
}

impl Clone for Const {
    fn clone(&self) -> (r: Self)
        ensures
            type_view(r.datatype) == type_view(self.datatype),
            crate::types::wf_type(self.datatype) ==> crate::types::wf_type(r.datatype),
    {
        Const { datatype: self.datatype.clone() }
    }
}

/// A named static value an extension provides.
#[derive(Debug)]
pub struct ExtensionValue {
    /// The extension the value belongs to.
    pub extension: ExtensionId,
    /// The value's name within its extension.
    pub name: String,
    /// The typed value.
    pub typed_value: Const,
}

impl ExtensionValue {
    /// Returns a reference to the typed value.
    pub fn typed_value(&self) -> (r: &Const)
        ensures
            *r == self.typed_value,
    {
        &self.typed_value
    }

    /// Returns the value's name.
    pub fn name(&self) -> (r: &String)
        ensures
            *r == self.name,
    {
        &self.name
    }

    /// Returns the extension the value belongs to.
    pub fn extension(&self) -> (r: &ExtensionId)
        ensures
            *r == self.extension,
    {
        &self.extension
    }
}

/// A closed signature rule: how an operation definition computes a concrete
/// signature from its arguments when it does not carry a fixed scheme.
#[derive(Copy, Clone, Debug, PartialEq, Eq, Structural)]
pub enum SigRule {
    /// A comparison of two floating-point values, producing a boolean.
    FloatCompare,
    /// A binary floating-point operation.
    FloatBinary,
    /// A unary floating-point operation.
    FloatUnary,
}

/// The signature rule of an operation definition: a fixed polymorphic scheme
/// instantiated by substitution, or one of the closed rules.
#[derive(Debug)]
pub enum SignatureFunc {
    /// A fixed scheme.
    Fixed(PolyFuncType),
    /// A rule computing the signature from the arguments.
    Rule(SigRule),
}

/// An extension's declaration of an operation family.
#[derive(Debug)]
pub struct OpDef {
    /// The extension that declares the operation.
    pub extension: ExtensionId,
    /// The operation's name, unique within its extension.
    pub name: String,
    /// A human-readable description.
    pub description: String,
    /// Parameter kinds, for rule-based signatures.
    pub params: Vec<TypeParam>,
    /// The signature rule.
    pub signature_func: SignatureFunc,
}

/// A bundle of type definitions, operation definitions and static values,
/// identified by a unique name.
#[derive(Debug)]
pub struct Extension {
    /// Unique identifier for the extension.
    pub name: ExtensionId,
    /// Other extensions defining types used by this extension.
    pub extension_reqs: ExtensionSet,
    /// Types defined by this extension.
    pub types: Vec<TypeDef>,
    /// Static values defined by this extension.
    pub values: Vec<ExtensionValue>,
    /// Operation declarations.
    pub operations: Vec<OpDef>,
}

/// The first type definition with the given name, if any.
pub open spec fn find_typedef(types: Seq<TypeDef>, name: Seq<char>) -> Option<TypeDef>
    decreases types.len(),
{
    if types.len() == 0 {
        None
    } else if types[0].name@ == name {
        Some(types[0])
    } else {
        find_typedef(types.skip(1), name)
    }
}

/// The first operation definition with the given name, if any.
pub open spec fn find_opdef(ops: Seq<OpDef>, name: Seq<char>) -> Option<OpDef>
    decreases ops.len(),
{
    if ops.len() == 0 {
        None
    } else if ops[0].name@ == name {
        Some(ops[0])
    } else {
        find_opdef(ops.skip(1), name)
    }
}

/// The first value with the given name, if any.
pub open spec fn find_value(vals: Seq<ExtensionValue>, name: Seq<char>) -> Option<ExtensionValue>
    decreases vals.len(),
{
    if vals.len() == 0 {
        None
    } else if vals[0].name@ == name {
        Some(vals[0])
    } else {
        find_value(vals.skip(1), name)
    }
}

impl Extension {
    /// Creates a new extension with the given name and no requirements.
    pub fn new(name: ExtensionId) -> (r: Extension)
        ensures
            r.name@ == name@,
            r.extension_reqs@ == Set::<crate::extension_set::ExtItemSpec>::empty(),
            r.types@.len() == 0,
            r.values@.len() == 0,
            r.operations@.len() == 0,
    {
        Extension {
            name,
            extension_reqs: ExtensionSet::new(),
            types: Vec::new(),
            values: Vec::new(),
            operations: Vec::new(),
        }
    }

    /// Creates a new extension with the given name and requirements.
    pub fn new_with_reqs(name: ExtensionId, extension_reqs: ExtensionSet) -> (r: Extension)
        ensures
            r.name@ == name@,
            r.extension_reqs@ == extension_reqs@,
            r.types@.len() == 0,
            r.values@.len() == 0,
            r.operations@.len() == 0,
    {
        Extension { name, extension_reqs, types: Vec::new(), values: Vec::new(), operations: Vec::new() }
    }

    /// Returns the extension's name.
    pub fn name(&self) -> (r: &ExtensionId)
        ensures
            *r == self.name,
    {
        &self.name
    }

    /// Read-only access to the named type definition, if present.
    pub fn get_type(&self, wanted: &String) -> (r: Option<&TypeDef>)
        ensures
            match r {
                Some(d) => find_typedef(self.types@, wanted@) == Some(*d),
                None => find_typedef(self.types@, wanted@) is None,
            },
    {
        let mut i: usize = 0;
        proof {
            assert(self.types@.skip(0) =~= self.types@);
        }
        while i < self.types.len()
            invariant
                i <= self.types@.len(),
                find_typedef(self.types@, wanted@) == find_typedef(
                    self.types@.skip(i as int),
                    wanted@,
                ),
            decreases self.types@.len() - i,
        {
            proof {
                assert(self.types@.skip(i as int)[0] == self.types@[i as int]);
                assert(self.types@.skip(i as int).skip(1) =~= self.types@.skip(i + 1));
            }
            if self.types[i].name.eq(wanted) {
                return Some(&self.types[i]);
            }
            i += 1;
        }
        proof {
            assert(self.types@.skip(self.types@.len() as int).len() == 0);
        }
        None
    }

    /// Read-only access to the named operation definition, if present.
    pub fn get_op(&self, op_name: &String) -> (r: Option<&OpDef>)
        ensures
            match r {
                Some(d) => find_opdef(self.operations@, op_name@) == Some(*d),
                None => find_opdef(self.operations@, op_name@) is None,
            },
    {
        let mut i: usize = 0;
        proof {
            assert(self.operations@.skip(0) =~= self.operations@);
        }
        while i < self.operations.len()
            invariant
                i <= self.operations@.len(),
                find_opdef(self.operations@, op_name@) == find_opdef(
                    self.operations@.skip(i as int),
                    op_name@,
                ),
            decreases self.operations@.len() - i,
        {
            proof {
                assert(self.operations@.skip(i as int)[0] == self.operations@[i as int]);
                assert(self.operations@.skip(i as int).skip(1) =~= self.operations@.skip(i + 1));
            }
            if self.operations[i].name.eq(op_name) {
                return Some(&self.operations[i]);
            }
            i += 1;
        }
        proof {
            assert(self.operations@.skip(self.operations@.len() as int).len() == 0);
        }
        None
    }

    /// Read-only access to the named static value, if present.
    pub fn get_value(&self, value_name: &String) -> (r: Option<&ExtensionValue>)
        ensures
            match r {
                Some(d) => find_value(self.values@, value_name@) == Some(*d),
                None => find_value(self.values@, value_name@) is None,
            },
    {
        let mut i: usize = 0;
        proof {
            assert(self.values@.skip(0) =~= self.values@);
        }
        while i < self.values.len()
            invariant
                i <= self.values@.len(),
                find_value(self.values@, value_name@) == find_value(
                    self.values@.skip(i as int),
                    value_name@,
                ),
            decreases self.values@.len() - i,
        {
            proof {
                assert(self.values@.skip(i as int)[0] == self.values@[i as int]);
                assert(self.values@.skip(i as int).skip(1) =~= self.values@.skip(i + 1));
            }
            if self.values[i].name.eq(value_name) {
                return Some(&self.values[i]);
            }
            i += 1;
        }
        proof {
            assert(self.values@.skip(self.values@.len() as int).len() == 0);
        }
        None
    }

    /// Add a type definition to the extension.  Fails exactly when the
    /// extension already has a type of that name.
    pub fn add_type(
        &mut self,
        name: TypeName,
        params: Vec<TypeParam>,
        description: String,
        bound: TypeDefBound,
    ) -> (r: Result<(), ExtensionBuildError>)
        ensures
            (r is Ok) == (find_typedef(old(self).types@, name@) is None),
            r is Ok ==> final(self).types@ == old(self).types@.push(
                TypeDef {
                    extension: old(self).name,
                    name,
                    params,
                    description,
                    bound,
                },
            ) && final(self).name == old(self).name && final(self).operations == old(
                self,
            ).operations && final(self).values == old(self).values && final(self).extension_reqs
                == old(self).extension_reqs,
            r is Err ==> *final(self) == *old(self),
    {
        if self.get_type(&name).is_some() {
            return Err(ExtensionBuildError::TypeDefExists(name));
        }
        let def = TypeDef {
            extension: self.name.clone(),
            name,
            params,
            description,
            bound,
        };
        proof {
            assert(def.extension@ == self.name@);
        }
        self.types.push(def);
        Ok(())
    }

    /// Add an operation definition to the extension.  Fails exactly when the
    /// extension already has an operation of that name.
    pub fn add_op(
        &mut self,
        name: String,
        description: String,
        params: Vec<TypeParam>,
        signature_func: SignatureFunc,
    ) -> (r: Result<(), ExtensionBuildError>)
        ensures
            (r is Ok) == (find_opdef(old(self).operations@, name@) is None),
            r is Ok ==> final(self).operations@ == old(self).operations@.push(
                OpDef {
                    extension: old(self).name,
                    name,
                    description,
                    params,
                    signature_func,
                },
            ) && final(self).name == old(self).name && final(self).types == old(self).types
                && final(self).values == old(self).values && final(self).extension_reqs == old(
                self,
            ).extension_reqs,
            r is Err ==> *final(self) == *old(self),
    {
        if self.get_op(&name).is_some() {
            return Err(ExtensionBuildError::OpDefExists(name));
        }
        let def = OpDef { extension: self.name.clone(), name, description, params, signature_func };
        proof {
            assert(def.extension@ == self.name@);
        }
        self.operations.push(def);
        Ok(())
    }

    /// Add a named static value to the extension.  Fails exactly when the
    /// extension already has a value of that name.
    pub fn add_value(&mut self, name: String, typed_value: Const) -> (r: Result<
        (),
        ExtensionBuildError,
    >)
        ensures
            (r is Ok) == (find_value(old(self).values@, name@) is None),
            r is Ok ==> final(self).values@ == old(self).values@.push(
                ExtensionValue { extension: old(self).name, name, typed_value },
            ) && final(self).name == old(self).name && final(self).types == old(self).types
                && final(self).operations == old(self).operations && final(self).extension_reqs
                == old(self).extension_reqs,
            r is Err ==> *final(self) == *old(self),
    {
        if self.get_value(&name).is_some() {
            return Err(ExtensionBuildError::ValueExists(name));
        }
        let v = ExtensionValue { extension: self.name.clone(), name, typed_value };
        self.values.push(v);
        Ok(())
    }
}

/// An error in building up an extension.
#[derive(Debug)]
pub enum ExtensionBuildError {
    /// The extension already has an operation of this name.
    OpDefExists(String),
    /// The extension already has a type of this name.
    TypeDefExists(TypeName),
    /// The extension already has a value of this name.
    ValueExists(String),
}

/// Extension registries store extensions to be looked up, for example during
/// validation.  The collection is append-only.
#[derive(Debug)]
pub struct ExtensionRegistry {
    /// The registered extensions.
    pub extensions: Vec<Extension>,
}

/// The first extension with the given name, if any.
pub open spec fn find_ext(exts: Seq<Extension>, name: Seq<char>) -> Option<Extension>
    decreases exts.len(),
{
    if exts.len() == 0 {
        None
    } else if exts[0].name@ == name {
        Some(exts[0])
    } else {
        find_ext(exts.skip(1), name)
    }
}

impl ExtensionRegistry {
    /// Makes a new, empty registry.
    pub fn new() -> (r: ExtensionRegistry)
        ensures
            r.extensions@.len() == 0,
    {
        ExtensionRegistry { extensions: Vec::new() }
    }

    /// Gets the extension with the given name, if registered.
    pub fn get(&self, name: &String) -> (r: Option<&Extension>)
        ensures
            match r {
                Some(e) => find_ext(self.extensions@, name@) == Some(*e),
                None => find_ext(self.extensions@, name@) is None,
            },
    {
        let mut i: usize = 0;
        proof {
            assert(self.extensions@.skip(0) =~= self.extensions@);
        }
        while i < self.extensions.len()
            invariant
                i <= self.extensions@.len(),
                find_ext(self.extensions@, name@) == find_ext(
                    self.extensions@.skip(i as int),
                    name@,
                ),
            decreases self.extensions@.len() - i,
        {
            proof {
                assert(self.extensions@.skip(i as int)[0] == self.extensions@[i as int]);
                assert(self.extensions@.skip(i as int).skip(1) =~= self.extensions@.skip(i + 1));
            }
            if self.extensions[i].name.eq(name) {
                return Some(&self.extensions[i]);
            }
            i += 1;
        }
        proof {
            assert(self.extensions@.skip(self.extensions@.len() as int).len() == 0);
        }
        None
    }

    /// Registers an extension.  Fails exactly when one of that name is
    /// already registered; the registry is unchanged then.
    pub fn register(&mut self, ext: Extension) -> (r: Result<(), ExtensionBuildError>)
        ensures
            (r is Ok) == (find_ext(old(self).extensions@, ext.name@) is None),
            r is Ok ==> final(self).extensions@ == old(self).extensions@.push(ext),
            r is Err ==> *final(self) == *old(self),
    {
        if self.get(&ext.name).is_some() {
            return Err(ExtensionBuildError::OpDefExists(ext.name));
        }
        self.extensions.push(ext);
        Ok(())
    }
}


/// Well-formedness of an operation definition's types.
pub open spec fn wf_opdef(d: OpDef) -> bool {
    match d.signature_func {
        SignatureFunc::Fixed(p) => wf_poly(p),
        SignatureFunc::Rule(_) => true,
    }
}

/// Well-formedness of every definition in an extension.
pub open spec fn wf_extension(e: Extension) -> bool {
    forall|i: int| 0 <= i < e.operations@.len() ==> wf_opdef(#[trigger] e.operations@[i])
}

/// A found operation definition is one of the extension's.
pub proof fn lemma_find_opdef_member(ops: Seq<OpDef>, name: Seq<char>)
    ensures
        find_opdef(ops, name) matches Some(d) ==> exists|i: int|
            0 <= i < ops.len() && ops[i] == d,
    decreases ops.len(),
{
    if ops.len() > 0 {
        if ops[0].name@ == name {
        } else {
            lemma_find_opdef_member(ops.skip(1), name);
            if find_opdef(ops.skip(1), name) is Some {
                let d = find_opdef(ops.skip(1), name)->Some_0;
                let i = choose|i: int| 0 <= i < ops.skip(1).len() && ops.skip(1)[i] == d;
                assert(ops[i + 1] == d);
            }
        }
    }
}

impl OpDef {
    /// Compute the concrete signature for the supplied arguments: check them
    /// against the declared parameters, then instantiate the fixed scheme or
    /// run the closed rule.
    pub fn compute_signature(&self, args: &Vec<TypeArg>) -> (r: Result<
        FunctionType,
        SignatureError,
    >)
        requires
            wf_opdef(*self),
            crate::types::wf_args(*args),
        ensures
            self.signature_func matches SignatureFunc::Fixed(p) ==> (r is Ok) == (
            crate::type_param::args_fit(crate::types::args_view(*args), params_view(p.params))
                && crate::poly_func::subst_ok_functype(
                functype_view(p.body),
                crate::types::args_view(*args),
                0,
            )) && (r matches Ok(ft) ==> functype_view(ft)
                == crate::poly_func::subst_functype_spec(
                functype_view(p.body),
                crate::types::args_view(*args),
                0,
            )),
            self.signature_func matches SignatureFunc::Rule(_) ==> (r is Ok)
                == crate::type_param::args_fit(
                crate::types::args_view(*args),
                params_view(self.params),
            ),
            r matches Ok(ft) ==> wf_functype(ft),
    {
        match &self.signature_func {
            SignatureFunc::Fixed(p) => p.instantiate_all(args),
            SignatureFunc::Rule(rule) => {
                match crate::type_param::check_type_args(args, &self.params) {
                    Ok(()) => {},
                    Err(e) => {
                        return Err(SignatureError::TypeArgMismatch(e));
                    },
                }
                crate::float_ops::compute_rule_signature(*rule, args)
            },
        }
    }
}

impl Extension {
    /// Instantiate an operation this extension declares: look its definition
    /// up, check the arguments against the declared parameters, and return
    /// the concrete signature — computed by the definition's fixed scheme or
    /// closed rule — or the first error.
    pub fn instantiate_extension_op(&self, op_name: &String, args: &Vec<TypeArg>) -> (r: Result<
        FunctionType,
        SignatureError,
    >)
        requires
            wf_extension(*self),
            crate::types::wf_args(*args),
        ensures
            find_opdef(self.operations@, op_name@) is None ==> (r matches Err(e) && (e matches
            SignatureError::ExtensionOpNotFound { exn, op } && exn@ == self.name@ && op@
                == op_name@)),
            find_opdef(self.operations@, op_name@) matches Some(d) ==> {
                &&& (d.signature_func matches SignatureFunc::Fixed(p) ==> (r is Ok) == (
                crate::type_param::args_fit(crate::types::args_view(*args), params_view(p.params))
                    && crate::poly_func::subst_ok_functype(
                    functype_view(p.body),
                    crate::types::args_view(*args),
                    0,
                )) && (r matches Ok(ft) ==> functype_view(ft)
                    == crate::poly_func::subst_functype_spec(
                    functype_view(p.body),
                    crate::types::args_view(*args),
                    0,
                )))
                &&& (d.signature_func matches SignatureFunc::Rule(_) ==> (r is Ok)
                    == crate::type_param::args_fit(
                    crate::types::args_view(*args),
                    params_view(d.params),
                ))
            },
            r matches Ok(ft) ==> wf_functype(ft) && (find_opdef(self.operations@, op_name@)
                is Some),
    {
        proof {
            lemma_find_opdef_member(self.operations@, op_name@);
        }
        let def = match self.get_op(op_name) {
            Some(d) => d,
            None => {
                return Err(SignatureError::ExtensionOpNotFound {
                    exn: self.name.clone(),
                    op: op_name.clone(),
                });
            },
        };
        proof {
            let i = choose|i: int|
                0 <= i < self.operations@.len() && self.operations@[i] == *def;
            assert(wf_opdef(self.operations@[i]));
        }
        def.compute_signature(args)
    }
}


impl Clone for SignatureError {
    fn clone(&self) -> (r: Self)
        ensures
            sig_error_view_eq(r, *self),
    {
        match self {
            SignatureError::NameMismatch(a, b) => SignatureError::NameMismatch(
                a.clone(),
                b.clone(),
            ),
            SignatureError::ExtensionMismatch(a, b) => SignatureError::ExtensionMismatch(
                a.clone(),
                b.clone(),
            ),
            SignatureError::TypeArgMismatch(e) => SignatureError::TypeArgMismatch(e.clone()),
            SignatureError::InvalidTypeArgs => SignatureError::InvalidTypeArgs,
            SignatureError::ExtensionNotFound(a) => SignatureError::ExtensionNotFound(a.clone()),
            SignatureError::ExtensionTypeNotFound { exn, typ } =>
                SignatureError::ExtensionTypeNotFound { exn: exn.clone(), typ: typ.clone() },
            SignatureError::ExtensionOpNotFound { exn, op } => SignatureError::ExtensionOpNotFound {
                exn: exn.clone(),
                op: op.clone(),
            },
            SignatureError::WrongBound { actual, expected } => SignatureError::WrongBound {
                actual: *actual,
                expected: *expected,
            },
            SignatureError::TypeVarDoesNotMatchDeclaration { cached, actual } =>
                SignatureError::TypeVarDoesNotMatchDeclaration {
                cached: cached.clone(),
                actual: actual.clone(),
            },
            SignatureError::FreeTypeVar { idx, num_decls } => SignatureError::FreeTypeVar {
                idx: *idx,
                num_decls: *num_decls,
            },
            SignatureError::RowVarWhereTypeExpected { idx } =>
                SignatureError::RowVarWhereTypeExpected { idx: *idx },
            SignatureError::CachedTypeIncorrect { stored, expected } =>
                SignatureError::CachedTypeIncorrect {
                stored: stored.clone(),
                expected: expected.clone(),
            },
        }
    }
}


} // verus!
