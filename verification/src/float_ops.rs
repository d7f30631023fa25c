//! Basic floating-point operations: the extension's generic machinery only.
//! The element type is an opaque custom type; no floating-point values pass
//! through this module.

use vstd::prelude::*;
use crate::extension::{
    Extension, OpDef, SigRule, SignatureError, SignatureFunc,
};
use crate::extension_set::ExtensionSet;
use crate::types::{
    functype_view, lemma_row_view, row_view, type_view, wf_functype, wf_type, CustomType,
    FunctionType, Type, TypeArg, TypeBound, TypeRow, TypeSpec,
};

verus! {

/// The model of the element type of 64-bit floating-point numbers.
pub open spec fn float64_spec() -> TypeSpec {
    TypeSpec::Extension(
        crate::types::CustomTypeSpec {
            extension: "arithmetic.float.types"@,
            id: "float64"@,
            args: Seq::empty(),
            bound: TypeBound::Copyable,
        },
    )
}

/// The custom type of 64-bit floating-point numbers, as the types extension
/// declares it: an opaque, copyable element type.
pub fn float64_type() -> (r: Type)
    ensures
        wf_type(r),
        type_view(r) == float64_spec(),
{
    let c = CustomType {
        extension: float_types_ext_id(),
        id: float64_name(),
        args: Vec::new(),
        bound: TypeBound::Copyable,
    };
    proof {
        crate::types::lemma_args_view(c.args);
        assert(crate::types::wf_custom(c));
    }
    let r = Type::new_extension(c);
    proof {
        assert(type_view(r) =~~= float64_spec());
    }
    r
}

/// The boolean type: a sum of two empty rows.
pub fn bool_t() -> (r: Type)
    ensures
        wf_type(r),
        type_view(r) == TypeSpec::Sum(crate::types::SumTypeSpec::Unit(2)),
{
    Type::new_unit_sum(2)
}

/// The identifier of the extension that declares the element type.
fn float_types_ext_id() -> (r: String)
    ensures
        r@ == "arithmetic.float.types"@,
{
    let s: &str = "arithmetic.float.types";
    s.to_owned()
}

/// The element type's name.
fn float64_name() -> (r: String)
    ensures
        r@ == "float64"@,
{
    let s: &str = "float64";
    s.to_owned()
}


/// The signature of a floating-point comparison: two floats in, a boolean
/// out, whatever the arguments.
pub fn fcmp_sig(_arg_values: &Vec<TypeArg>) -> (r: Result<FunctionType, SignatureError>)
    ensures
        r is Ok,
        r matches Ok(f) ==> wf_functype(f) && functype_view(f).input =~= seq![
            float64_spec(),
            float64_spec(),
        ] && functype_view(f).output =~= seq![
            TypeSpec::Sum(crate::types::SumTypeSpec::Unit(2)),
        ] && functype_view(f).exts =~= Set::empty(),
{
    let mut input: TypeRow = Vec::new();
    input.push(float64_type());
    input.push(float64_type());
    let mut output: TypeRow = Vec::new();
    output.push(bool_t());
    let ghost ig = input;
    let ghost og = output;
    let f = FunctionType::new(input, output);
    proof {
        lemma_row_view(ig);
        lemma_row_view(og);
    }
    Ok(f)
}

/// The signature of a binary floating-point operation: two floats in, one
/// out, whatever the arguments.
pub fn fbinop_sig(_arg_values: &Vec<TypeArg>) -> (r: Result<FunctionType, SignatureError>)
    ensures
        r is Ok,
        r matches Ok(f) ==> wf_functype(f) && functype_view(f).input =~= seq![
            float64_spec(),
            float64_spec(),
        ] && functype_view(f).output =~= seq![float64_spec()] && functype_view(f).exts
            =~= Set::empty(),
{
    let mut input: TypeRow = Vec::new();
    input.push(float64_type());
    input.push(float64_type());
    let mut output: TypeRow = Vec::new();
    output.push(float64_type());
    let ghost ig = input;
    let ghost og = output;
    let f = FunctionType::new(input, output);
    proof {
        lemma_row_view(ig);
        lemma_row_view(og);
    }
    Ok(f)
}

/// The signature of a unary floating-point operation: one float in, one out,
/// whatever the arguments.
pub fn funop_sig(_arg_values: &Vec<TypeArg>) -> (r: Result<FunctionType, SignatureError>)
    ensures
        r is Ok,
        r matches Ok(f) ==> wf_functype(f) && functype_view(f).input =~= seq![float64_spec()]
            && functype_view(f).output =~= seq![float64_spec()] && functype_view(f).exts
            =~= Set::empty(),
{
    let mut input: TypeRow = Vec::new();
    input.push(float64_type());
    let mut output: TypeRow = Vec::new();
    output.push(float64_type());
    let ghost ig = input;
    let ghost og = output;
    let f = FunctionType::new(input, output);
    proof {
        lemma_row_view(ig);
        lemma_row_view(og);
    }
    Ok(f)
}

/// Compute the signature a closed rule gives for the supplied arguments:
/// exactly what the rule's own signature function returns.
pub fn compute_rule_signature(rule: SigRule, args: &Vec<TypeArg>) -> (r: Result<
    FunctionType,
    SignatureError,
>)
    ensures
        r is Ok,
        r matches Ok(f) ==> wf_functype(f),
        rule == SigRule::FloatCompare ==> (r matches Ok(f) && functype_view(f).input =~= seq![
            float64_spec(),
            float64_spec(),
        ] && functype_view(f).output =~= seq![
            TypeSpec::Sum(crate::types::SumTypeSpec::Unit(2)),
        ] && functype_view(f).exts =~= Set::empty()),
        rule == SigRule::FloatBinary ==> (r matches Ok(f) && functype_view(f).input =~= seq![
            float64_spec(),
            float64_spec(),
        ] && functype_view(f).output =~= seq![float64_spec()] && functype_view(f).exts
            =~= Set::empty()),
        rule == SigRule::FloatUnary ==> (r matches Ok(f) && functype_view(f).input =~= seq![
            float64_spec(),
        ] && functype_view(f).output =~= seq![float64_spec()] && functype_view(f).exts
            =~= Set::empty()),
{
    match rule {
        SigRule::FloatCompare => fcmp_sig(args),
        SigRule::FloatBinary => fbinop_sig(args),
        SigRule::FloatUnary => funop_sig(args),
    }
}

/// Make one floating-point operation definition.
fn float_op_def(name: &str, description: &str, rule: SigRule) -> (r: OpDef)
    ensures
        r.name@ == name@,
        r.extension@ == "arithmetic.float"@,
        r.params@.len() == 0,
        r.signature_func matches SignatureFunc::Rule(ru) && ru == rule,
{
    OpDef {
        extension: float_ext_id(),
        name: name.to_owned(),
        description: description.to_owned(),
        params: Vec::new(),
        signature_func: SignatureFunc::Rule(rule),
    }
}

/// The extension's own identifier.
fn float_ext_id() -> (r: String)
    ensures
        r@ == "arithmetic.float"@,
{
    let s: &str = "arithmetic.float";
    s.to_owned()
}

/// One operation of the floating-point extension carries the given name and
/// rule, declares no parameters, and belongs to the extension.
pub open spec fn float_op_is(d: OpDef, name: Seq<char>, rule: SigRule) -> bool {
    &&& d.name@ == name
    &&& d.extension@ == "arithmetic.float"@
    &&& d.params@.len() == 0
    &&& d.signature_func matches SignatureFunc::Rule(ru) && ru == rule
}

/// The extension of basic floating-point operations: comparisons, binary
/// and unary arithmetic, each with the signature its rule computes.
pub fn extension() -> (r: Extension)
    ensures
        r.name@ == "arithmetic.float"@,
        r.extension_reqs@ == Set::<crate::extension_set::ExtItemSpec>::empty().insert(
            crate::extension_set::ExtItemSpec::Ext("arithmetic.float.types"@),
        ),
        r.types@.len() == 0,
        r.values@.len() == 0,
        r.operations@.len() == 16,
        float_op_is(r.operations@[0], "feq"@, SigRule::FloatCompare),
        float_op_is(r.operations@[1], "fne"@, SigRule::FloatCompare),
        float_op_is(r.operations@[2], "flt"@, SigRule::FloatCompare),
        float_op_is(r.operations@[3], "fgt"@, SigRule::FloatCompare),
        float_op_is(r.operations@[4], "fle"@, SigRule::FloatCompare),
        float_op_is(r.operations@[5], "fge"@, SigRule::FloatCompare),
        float_op_is(r.operations@[6], "fmax"@, SigRule::FloatBinary),
        float_op_is(r.operations@[7], "fmin"@, SigRule::FloatBinary),
        float_op_is(r.operations@[8], "fadd"@, SigRule::FloatBinary),
        float_op_is(r.operations@[9], "fsub"@, SigRule::FloatBinary),
        float_op_is(r.operations@[10], "fneg"@, SigRule::FloatUnary),
        float_op_is(r.operations@[11], "fabs"@, SigRule::FloatUnary),
        float_op_is(r.operations@[12], "fmul"@, SigRule::FloatBinary),
        float_op_is(r.operations@[13], "fdiv"@, SigRule::FloatBinary),
        float_op_is(r.operations@[14], "ffloor"@, SigRule::FloatUnary),
        float_op_is(r.operations@[15], "fceil"@, SigRule::FloatUnary),
{
    let mut operations: Vec<OpDef> = Vec::new();
    operations.push(float_op_def("feq", "equality test", SigRule::FloatCompare));
    operations.push(float_op_def("fne", "inequality test", SigRule::FloatCompare));
    operations.push(float_op_def("flt", "less than", SigRule::FloatCompare));
    operations.push(float_op_def("fgt", "greater than", SigRule::FloatCompare));
    operations.push(float_op_def("fle", "less than or equal", SigRule::FloatCompare));
    operations.push(float_op_def("fge", "greater than or equal", SigRule::FloatCompare));
    operations.push(float_op_def("fmax", "maximum", SigRule::FloatBinary));
    operations.push(float_op_def("fmin", "minimum", SigRule::FloatBinary));
    operations.push(float_op_def("fadd", "addition", SigRule::FloatBinary));
    operations.push(float_op_def("fsub", "subtraction", SigRule::FloatBinary));
    operations.push(float_op_def("fneg", "negation", SigRule::FloatUnary));
    operations.push(float_op_def("fabs", "absolute value", SigRule::FloatUnary));
    operations.push(float_op_def("fmul", "multiplication", SigRule::FloatBinary));
    operations.push(float_op_def("fdiv", "division", SigRule::FloatBinary));
    operations.push(float_op_def("ffloor", "floor", SigRule::FloatUnary));
    operations.push(float_op_def("fceil", "ceiling", SigRule::FloatUnary));
    let types_ext = float_types_ext_id();
    Extension {
        name: float_ext_id(),
        extension_reqs: ExtensionSet::singleton(&types_ext),
        types: Vec::new(),
        values: Vec::new(),
        operations,
    }
}

} // verus!
