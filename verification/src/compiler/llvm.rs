//! The calls into the LLVM backend. Verus takes the contracts of the
//! functions of this file on trust: their bodies are not verified. None of
//! them promises anything of what the backend hands back.
use crate::lexer::ComparisonToken;
use inkwell::basic_block::BasicBlock;
use inkwell::builder::{Builder, BuilderError};
use inkwell::context::Context;
use inkwell::module::{Linkage, Module};
use inkwell::types::{BasicTypeEnum, FunctionType, IntType, StructType, VectorType};
use inkwell::values::{BasicValueEnum, FunctionValue, IntValue, PointerValue, StructValue};
use inkwell::IntPredicate;
use thread_local::ThreadLocal;
use vstd::prelude::*;

verus! {

#[verifier::external_type_specification]
#[verifier::external_body]
pub struct ExContext(Context);

#[verifier::external_type_specification]
#[verifier::external_body]
pub struct ExModule<'ctx>(Module<'ctx>);

#[verifier::external_type_specification]
#[verifier::external_body]
pub struct ExBuilder<'ctx>(Builder<'ctx>);

#[verifier::external_type_specification]
#[verifier::external_body]
pub struct ExBuilderError(BuilderError);

#[verifier::external_type_specification]
#[verifier::external_body]
pub struct ExBasicBlock<'ctx>(BasicBlock<'ctx>);

#[verifier::external_type_specification]
#[verifier::external_body]
pub struct ExFunctionValue<'ctx>(FunctionValue<'ctx>);

#[verifier::external_type_specification]
#[verifier::external_body]
pub struct ExIntValue<'ctx>(IntValue<'ctx>);

#[verifier::external_type_specification]
#[verifier::external_body]
pub struct ExPointerValue<'ctx>(PointerValue<'ctx>);

#[verifier::external_type_specification]
#[verifier::external_body]
pub struct ExStructValue<'ctx>(StructValue<'ctx>);

#[verifier::external_type_specification]
#[verifier::external_body]
pub struct ExIntType<'ctx>(IntType<'ctx>);

#[verifier::external_type_specification]
#[verifier::external_body]
pub struct ExStructType<'ctx>(StructType<'ctx>);

#[verifier::external_type_specification]
#[verifier::external_body]
pub struct ExFunctionType<'ctx>(FunctionType<'ctx>);

#[verifier::external_type_specification]
#[verifier::external_body]
pub struct ExVectorType<'ctx>(VectorType<'ctx>);

#[verifier::external_type_specification]
#[verifier::external_body]
pub struct ExBasicTypeEnum<'ctx>(BasicTypeEnum<'ctx>);

#[verifier::external_type_specification]
#[verifier::external_body]
pub struct ExBasicValueEnum<'ctx>(BasicValueEnum<'ctx>);

#[verifier::external_type_specification]
#[verifier::external_body]
#[verifier::reject_recursive_types(T)]
pub struct ExThreadLocal<T: Send>(ThreadLocal<T>);

/// `ThreadLocal::get_or` with `Context::create`: the context that `pool`
/// holds for the current thread, which is created if the thread has none
/// yet. Which context that is depends on the thread.
#[verifier::external_body]
pub(crate) fn thread_context(pool: &'static ThreadLocal<Context>) -> (context: &'static Context) {
    pool.get_or(Context::create)
}

/// `Context::create_module`: a new module of `context` with the given name.
#[verifier::external_body]
pub(crate) fn create_module(context: &'static Context, name: &str) -> (module: Module<'static>) {
    context.create_module(name)
}

/// `Context::create_builder`: a new instruction builder of `context`, not
/// positioned yet.
#[verifier::external_body]
pub(crate) fn create_builder(context: &'static Context) -> (builder: Builder<'static>) {
    context.create_builder()
}

/// `Context::i64_type`: the type of 64-bit integers.
#[verifier::external_body]
pub(crate) fn i64_type(context: &'static Context) -> (ty: IntType<'static>) {
    context.i64_type()
}

/// `Context::bool_type`: the type of single bits.
#[verifier::external_body]
pub(crate) fn bool_type(context: &'static Context) -> (ty: IntType<'static>) {
    context.bool_type()
}

/// `Context::custom_width_int_type`: the type of integers of `bits` bits.
/// The backend has no integer type of no bits.
#[verifier::external_body]
pub(crate) fn custom_width_int_type(context: &'static Context, bits: u32) -> (ty: IntType<'static>)
    requires
        1 <= bits <= 64,
{
    context.custom_width_int_type(bits)
}

/// `IntType::vec_type`: the type of vectors of `size` elements of the type
/// `element`. The backend has no vectors of no elements.
#[verifier::external_body]
pub(crate) fn vec_type(element: IntType<'static>, size: u32) -> (ty: VectorType<'static>)
    requires
        size > 0,
{
    element.vec_type(size)
}

/// `VectorType::const_zero`: the vector of the type `ty` whose elements are
/// all zero, as a value of any basic type.
#[verifier::external_body]
pub(crate) fn vec_const_zero(ty: VectorType<'static>) -> (zero: BasicValueEnum<'static>) {
    ty.const_zero().into()
}

/// The conversion of an `IntType` into a `BasicTypeEnum`.
#[verifier::external_body]
pub(crate) fn int_basic_type(ty: IntType<'static>) -> (basic: BasicTypeEnum<'static>) {
    ty.into()
}

/// The conversion of a `VectorType` into a `BasicTypeEnum`.
#[verifier::external_body]
pub(crate) fn vec_basic_type(ty: VectorType<'static>) -> (basic: BasicTypeEnum<'static>) {
    ty.into()
}

/// The conversion of an `IntValue` into a `BasicValueEnum`.
#[verifier::external_body]
pub(crate) fn int_basic_value(value: IntValue<'static>) -> (basic: BasicValueEnum<'static>) {
    value.into()
}

/// `Context::struct_type`: the unpacked structure type of two integers.
#[verifier::external_body]
pub(crate) fn struct_type(
    context: &'static Context,
    first: IntType<'static>,
    second: IntType<'static>,
) -> (ty: StructType<'static>) {
    context.struct_type(&[first.into(), second.into()], false)
}

/// `IntType::fn_type`: the type of functions that take `count` values of
/// the type `param` and give a value of the type `ret`. The list of the
/// parameter types is allocated, so their number is bounded.
#[verifier::external_body]
pub(crate) fn int_fn_type(ret: IntType<'static>, param: IntType<'static>, count: usize) -> (ty:
    FunctionType<'static>)
    requires
        count <= 0xffff,
{
    ret.fn_type(&vec![param.into(); count], false)
}

/// `StructType::fn_type`: the type of functions that take `count` values
/// of the type `param` and give a value of the type `ret`. The list of the
/// parameter types is allocated, so their number is bounded.
#[verifier::external_body]
pub(crate) fn struct_fn_type(ret: StructType<'static>, param: IntType<'static>, count: usize) -> (ty:
    FunctionType<'static>)
    requires
        count <= 0xffff,
{
    ret.fn_type(&vec![param.into(); count], false)
}

/// `IntType::const_int`: the constant of the type `ty` with the low bits of
/// `value`.
#[verifier::external_body]
pub(crate) fn const_int(ty: IntType<'static>, value: u64, sign_extend: bool) -> (constant: IntValue<
    'static,
>) {
    ty.const_int(value, sign_extend)
}

/// `Module::get_function`: the function of `module` with the given name, if
/// it has one.
#[verifier::external_body]
pub(crate) fn module_get_function(module: &Module<'static>, name: &str) -> (function: Option<
    FunctionValue<'static>,
>) {
    module.get_function(name)
}

/// `Module::add_function`: a new function of `module` with the given name
/// and type, with external linkage if `external` and with the default
/// linkage if not.
#[verifier::external_body]
pub(crate) fn module_add_function(
    module: &Module<'static>,
    name: &str,
    ty: FunctionType<'static>,
    external: bool,
) -> (function: FunctionValue<'static>) {
    module.add_function(name, ty, external.then_some(Linkage::External))
}

/// `FunctionValue::get_type`: the type of a function.
#[verifier::external_body]
pub(crate) fn function_type(function: FunctionValue<'static>) -> (ty: FunctionType<'static>) {
    function.get_type()
}

/// The `==` of `FunctionType`: whether two function types are the same type
/// of the backend.
#[verifier::external_body]
pub(crate) fn same_function_type(a: FunctionType<'static>, b: FunctionType<'static>) -> (same: bool) {
    a == b
}

/// `FunctionValue::get_nth_param`: the parameter of `function` with the
/// index `nth`, if there is one and it is an integer. The backend adds one
/// to `nth`.
#[verifier::external_body]
pub(crate) fn get_nth_param(function: FunctionValue<'static>, nth: u32) -> (param: Option<
    IntValue<'static>,
>)
    requires
        nth < u32::MAX,
{
    match function.get_nth_param(nth) {
        Some(BasicValueEnum::IntValue(value)) => Some(value),
        _ => None,
    }
}

/// `Context::append_basic_block`: a new basic block at the end of
/// `function`.
#[verifier::external_body]
pub(crate) fn append_basic_block(
    context: &'static Context,
    function: FunctionValue<'static>,
    name: &str,
) -> (block: BasicBlock<'static>) {
    context.append_basic_block(function, name)
}

/// `Builder::position_at_end`: moves the builder to the end of `block`.
#[verifier::external_body]
pub(crate) fn position_at_end(builder: &Builder<'static>, block: BasicBlock<'static>) {
    builder.position_at_end(block)
}

/// `Builder::build_switch`: a switch on `value` with the one case `zero`,
/// which leads to `zero_block`; every other value leads to `else_block`.
#[verifier::external_body]
pub(crate) fn build_switch(
    builder: &Builder<'static>,
    value: IntValue<'static>,
    else_block: BasicBlock<'static>,
    zero: IntValue<'static>,
    zero_block: BasicBlock<'static>,
) -> (built: Result<(), BuilderError>) {
    builder.build_switch(value, else_block, &[(zero, zero_block)]).map(|_| ())
}

/// `Builder::build_unconditional_branch`: a branch to `block`.
#[verifier::external_body]
pub(crate) fn build_unconditional_branch(builder: &Builder<'static>, block: BasicBlock<'static>) -> (built:
    Result<(), BuilderError>) {
    builder.build_unconditional_branch(block).map(|_| ())
}

/// `Builder::build_return`: the return of `value`.
#[verifier::external_body]
pub(crate) fn build_return(builder: &Builder<'static>, value: IntValue<'static>) -> (built: Result<
    (),
    BuilderError,
>) {
    builder.build_return(Some(&value)).map(|_| ())
}

/// `Builder::build_call`: a call of `function` with the two arguments `lhs`
/// and `rhs`. Gives the value of the call where it is a structure.
#[verifier::external_body]
pub(crate) fn build_call(
    builder: &Builder<'static>,
    function: FunctionValue<'static>,
    lhs: IntValue<'static>,
    rhs: IntValue<'static>,
    name: &str,
) -> (built: Result<Option<StructValue<'static>>, BuilderError>) {
    let call = builder.build_call(function, &[lhs.into(), rhs.into()], name)?;
    Ok(
        match call.try_as_basic_value().left() {
            Some(BasicValueEnum::StructValue(value)) => Some(value),
            _ => None,
        },
    )
}

/// `Builder::build_extract_value`: the field of `aggregate` with the given
/// index, where it is an integer.
#[verifier::external_body]
pub(crate) fn build_extract_value(
    builder: &Builder<'static>,
    aggregate: StructValue<'static>,
    index: u32,
    name: &str,
) -> (built: Result<Option<IntValue<'static>>, BuilderError>) {
    Ok(
        match builder.build_extract_value(aggregate, index, name)? {
            BasicValueEnum::IntValue(value) => Some(value),
            _ => None,
        },
    )
}

/// `Builder::build_int_compare`: the signed comparison of `lhs` with `rhs`.
#[verifier::external_body]
pub(crate) fn build_int_compare(
    builder: &Builder<'static>,
    pred: ComparisonToken,
    lhs: IntValue<'static>,
    rhs: IntValue<'static>,
    name: &str,
) -> (built: Result<IntValue<'static>, BuilderError>) {
    let op = match pred {
        ComparisonToken::Equal => IntPredicate::EQ,
        ComparisonToken::NotEqual => IntPredicate::NE,
        ComparisonToken::LessThan => IntPredicate::SLT,
        ComparisonToken::GreaterThan => IntPredicate::SGT,
        ComparisonToken::LessThanOrEqual => IntPredicate::SLE,
        ComparisonToken::GreaterThanOrEqual => IntPredicate::SGE,
    };
    builder.build_int_compare(op, lhs, rhs, name)
}

/// `Builder::build_and`: the bitwise and of `lhs` and `rhs`.
#[verifier::external_body]
pub(crate) fn build_and(
    builder: &Builder<'static>,
    lhs: IntValue<'static>,
    rhs: IntValue<'static>,
    name: &str,
) -> (built: Result<IntValue<'static>, BuilderError>) {
    builder.build_and(lhs, rhs, name)
}

/// `Builder::build_or`: the bitwise or of `lhs` and `rhs`.
#[verifier::external_body]
pub(crate) fn build_or(
    builder: &Builder<'static>,
    lhs: IntValue<'static>,
    rhs: IntValue<'static>,
    name: &str,
) -> (built: Result<IntValue<'static>, BuilderError>) {
    builder.build_or(lhs, rhs, name)
}

/// `Builder::build_int_signed_div`: the signed division of `lhs` by `rhs`.
#[verifier::external_body]
pub(crate) fn build_int_signed_div(
    builder: &Builder<'static>,
    lhs: IntValue<'static>,
    rhs: IntValue<'static>,
    name: &str,
) -> (built: Result<IntValue<'static>, BuilderError>) {
    builder.build_int_signed_div(lhs, rhs, name)
}

/// `Builder::build_int_signed_rem`: the signed remainder of `lhs` by `rhs`.
#[verifier::external_body]
pub(crate) fn build_int_signed_rem(
    builder: &Builder<'static>,
    lhs: IntValue<'static>,
    rhs: IntValue<'static>,
    name: &str,
) -> (built: Result<IntValue<'static>, BuilderError>) {
    builder.build_int_signed_rem(lhs, rhs, name)
}

/// `Builder::build_left_shift`: `lhs` shifted to the left by `rhs`.
#[verifier::external_body]
pub(crate) fn build_left_shift(
    builder: &Builder<'static>,
    lhs: IntValue<'static>,
    rhs: IntValue<'static>,
    name: &str,
) -> (built: Result<IntValue<'static>, BuilderError>) {
    builder.build_left_shift(lhs, rhs, name)
}

/// `Builder::build_right_shift`: `lhs` shifted to the right by `rhs`,
/// keeping the sign if `sign_extend` and filling with zeros if not.
#[verifier::external_body]
pub(crate) fn build_right_shift(
    builder: &Builder<'static>,
    lhs: IntValue<'static>,
    rhs: IntValue<'static>,
    sign_extend: bool,
    name: &str,
) -> (built: Result<IntValue<'static>, BuilderError>) {
    builder.build_right_shift(lhs, rhs, sign_extend, name)
}

/// `Builder::build_int_cast_sign_flag`: `value` truncated or extended to
/// the type `ty`, with its sign if `is_signed` and with zeros if not.
#[verifier::external_body]
pub(crate) fn build_int_cast_sign_flag(
    builder: &Builder<'static>,
    value: IntValue<'static>,
    ty: IntType<'static>,
    is_signed: bool,
    name: &str,
) -> (built: Result<IntValue<'static>, BuilderError>) {
    builder.build_int_cast_sign_flag(value, ty, is_signed, name)
}

/// `Builder::build_alloca`: storage on the stack for one value of the type
/// `ty`.
#[verifier::external_body]
pub(crate) fn build_alloca(builder: &Builder<'static>, ty: BasicTypeEnum<'static>, name: &str) -> (built:
    Result<PointerValue<'static>, BuilderError>) {
    builder.build_alloca(ty, name)
}

/// `Builder::build_store`: puts `value` into the storage that `ptr` points
/// to.
#[verifier::external_body]
pub(crate) fn build_store(
    builder: &Builder<'static>,
    ptr: PointerValue<'static>,
    value: BasicValueEnum<'static>,
) -> (built: Result<(), BuilderError>) {
    builder.build_store(ptr, value).map(|_| ())
}

/// `Builder::build_load`: what the storage that `ptr` points to holds,
/// where that is an integer.
#[verifier::external_body]
pub(crate) fn build_load(builder: &Builder<'static>, ptr: PointerValue<'static>, name: &str) -> (built:
    Result<Option<IntValue<'static>>, BuilderError>) {
    Ok(
        match builder.build_load(ptr, name)? {
            BasicValueEnum::IntValue(value) => Some(value),
            _ => None,
        },
    )
}

} // verus!
