//! The lowering of the code of a function into the LLVM backend.
use crate::compiler::ir::{
    BinOp, BlockRef, CastOp, CheckedOp, Code, CodeView, Inst, Operand, SlotView,
};
use crate::compiler::llvm::{
    append_basic_block, bool_type, build_alloca, build_and, build_call, build_extract_value,
    build_int_cast_sign_flag, build_int_compare, build_int_signed_div, build_int_signed_rem,
    build_left_shift, build_load, build_or, build_return, build_right_shift, build_store,
    build_switch, build_unconditional_branch, const_int, custom_width_int_type, function_type,
    get_nth_param, i64_type, int_basic_type, int_basic_value, int_fn_type, module_add_function,
    module_get_function, position_at_end, same_function_type, struct_fn_type, struct_type,
    vec_basic_type, vec_const_zero, vec_type,
};
use crate::errors::{LangError, LangErrorMsg, LangResult};
use crate::lexer::ComparisonToken;
use crate::types::{Type, CELL_STATE_BITS, INT_BITS};
use inkwell::basic_block::BasicBlock;
use inkwell::builder::{Builder, BuilderError};
use inkwell::context::Context;
use inkwell::module::Module;
use inkwell::types::FunctionType;
use inkwell::values::{FunctionValue, IntValue, PointerValue};
use vstd::prelude::*;

verus! {

/// A value of the backend with its width in bits.
#[derive(Clone, Copy)]
pub struct Lowered {
    pub value: IntValue<'static>,
    pub bits: u32,
}

/// The storage of a variable in the backend with the width of the integer
/// that it holds, if it holds one.
#[derive(Clone, Copy)]
pub struct LoweredSlot {
    pub ptr: PointerValue<'static>,
    pub bits: Option<u32>,
}

/// The error for an instruction that the backend did not take.
pub open spec fn backend_refused() -> LangError {
    LangErrorMsg::InternalError("The backend refused an instruction").without_span()
}

/// The error for code that cannot be lowered: a value is used before the
/// instruction that gives it, has another width than the instruction takes,
/// is a constant that does not fit its width, or names something that the
/// function does not have.
pub open spec fn malformed_code() -> LangError {
    LangErrorMsg::InternalError("Malformed code").without_span()
}

/// The error for a module that holds a function under the name of an
/// intrinsic with another type than the intrinsic has.
pub open spec fn intrinsic_mismatch() -> LangError {
    LangErrorMsg::InternalError(
        "Requested LLVM intrinsics with same name but different type signatures",
    ).without_span()
}

/// Whether `error` is one of the errors that the lowering ends with.
pub open spec fn is_lowering_error(error: LangError) -> bool {
    error == malformed_code() || error == backend_refused() || error == intrinsic_mismatch()
}

/// What the lowering knows of a function besides the widths of its
/// registers: the number of its parameters, the width of what each variable
/// slot holds, where that is an integer, and the number of its blocks.
pub struct Layout {
    pub param_count: usize,
    pub slots: Seq<Option<u32>>,
    pub block_count: nat,
}

/// Number of bits of a value of the type `ty` in a variable slot, if it is
/// an integer.
pub open spec fn spec_slot_bits(ty: Type) -> Option<u32> {
    match ty {
        Type::Int => Some(INT_BITS),
        Type::CellState => Some(CELL_STATE_BITS),
        Type::Vector(_) => None,
    }
}

/// The width in bits of `operand`, where the registers have the widths
/// `widths`; none where it cannot be lowered: a constant of no width or of
/// more than 64 bits, or one that does not fit its width; a parameter that
/// the function does not have; a register that does not exist or that no
/// instruction has written yet.
pub open spec fn operand_bits(operand: Operand, param_count: usize, widths: Seq<Option<u32>>) -> Option<
    u32,
> {
    match operand {
        Operand::Const { bits, value } => if 1 <= bits <= 64 && (bits < 64 ==> ((value as u64)
            >> bits) == 0) {
            Some(bits)
        } else {
            None
        },
        Operand::Param(i) => if i < param_count && i < 0xffff_ffff {
            Some(INT_BITS)
        } else {
            None
        },
        Operand::Reg(r) => if r < widths.len() {
            match widths[r as int] {
                Some(bits) => if 1 <= bits <= 64 {
                    Some(bits)
                } else {
                    None
                },
                None => None,
            }
        } else {
            None
        },
    }
}

/// Whether the comparison reads its operands as signed integers.
pub open spec fn is_ordered(pred: ComparisonToken) -> bool {
    pred != ComparisonToken::Equal && pred != ComparisonToken::NotEqual
}

/// Whether the operation works on each bit by itself.
pub open spec fn is_bitwise(op: BinOp) -> bool {
    op == BinOp::And || op == BinOp::Or
}

/// The width that a change of width gives.
pub open spec fn cast_bits(op: CastOp) -> u32 {
    match op {
        CastOp::TruncToCellState => CELL_STATE_BITS,
        CastOp::ZExtToInt => INT_BITS,
    }
}

/// The widths of the registers after `inst`, where they were `widths`
/// before it; none where the instruction cannot be lowered. The operands of
/// an instruction must have one width; arithmetic and ordered comparisons
/// take integers of the language only; a register that is written must
/// exist; a slot that is read or written must hold integers of the width
/// at hand; the target of a jump must be a block of the function; and a
/// function returns integers of the language only.
pub open spec fn inst_widths(inst: Inst, layout: Layout, widths: Seq<Option<u32>>) -> Option<
    Seq<Option<u32>>,
> {
    match inst {
        Inst::CheckedArith { lhs, rhs, result, overflow, .. } => {
            if operand_bits(lhs, layout.param_count, widths) == Some(INT_BITS) && operand_bits(
                rhs,
                layout.param_count,
                widths,
            ) == Some(INT_BITS) && result < widths.len() && overflow < widths.len() {
                Some(
                    widths.update(result as int, Some(INT_BITS)).update(
                        overflow as int,
                        Some(1u32),
                    ),
                )
            } else {
                None
            }
        },
        Inst::Compare { pred, lhs, rhs, dest } => match (
            operand_bits(lhs, layout.param_count, widths),
            operand_bits(rhs, layout.param_count, widths),
        ) {
            (Some(a), Some(b)) => if a == b && (is_ordered(pred) ==> a == INT_BITS) && dest
                < widths.len() {
                Some(widths.update(dest as int, Some(1u32)))
            } else {
                None
            },
            _ => None,
        },
        Inst::Binary { op, lhs, rhs, dest } => match (
            operand_bits(lhs, layout.param_count, widths),
            operand_bits(rhs, layout.param_count, widths),
        ) {
            (Some(a), Some(b)) => if a == b && (!is_bitwise(op) ==> a == INT_BITS) && dest
                < widths.len() {
                Some(widths.update(dest as int, Some(a)))
            } else {
                None
            },
            _ => None,
        },
        Inst::Cast { op, value, dest } => {
            if operand_bits(value, layout.param_count, widths) is Some && dest < widths.len() {
                Some(widths.update(dest as int, Some(cast_bits(op))))
            } else {
                None
            }
        },
        Inst::Load { slot, dest } => {
            if slot < layout.slots.len() && layout.slots[slot as int] is Some && dest
                < widths.len() {
                Some(widths.update(dest as int, layout.slots[slot as int]))
            } else {
                None
            }
        },
        Inst::Store { slot, value } => {
            if slot < layout.slots.len() && operand_bits(value, layout.param_count, widths)
                is Some && layout.slots[slot as int] == operand_bits(
                value,
                layout.param_count,
                widths,
            ) {
                Some(widths)
            } else {
                None
            }
        },
        Inst::Return(value) => {
            if operand_bits(value, layout.param_count, widths) == Some(INT_BITS) {
                Some(widths)
            } else {
                None
            }
        },
        Inst::Branch(block) => {
            if block.0 < layout.block_count {
                Some(widths)
            } else {
                None
            }
        },
        Inst::Switch { value, else_block, zero_block } => {
            if operand_bits(value, layout.param_count, widths) is Some && else_block.0
                < layout.block_count && zero_block.0 < layout.block_count {
                Some(widths)
            } else {
                None
            }
        },
    }
}

/// The widths of the registers after the first `count` instructions of
/// `insts`, or none where one of them cannot be lowered.
pub open spec fn block_widths(
    insts: Seq<Inst>,
    layout: Layout,
    widths: Seq<Option<u32>>,
    count: int,
) -> Option<Seq<Option<u32>>>
    decreases count,
{
    if count <= 0 {
        Some(widths)
    } else {
        match block_widths(insts, layout, widths, count - 1) {
            None => None,
            Some(before) => inst_widths(insts[count - 1], layout, before),
        }
    }
}

impl CodeView {
    /// What the lowering knows of the function besides the widths of its
    /// registers.
    pub open spec fn layout(self) -> Layout {
        Layout {
            param_count: self.param_count,
            slots: self.slots.map_values(|s: SlotView| spec_slot_bits(s.ty)),
            block_count: self.blocks.len(),
        }
    }

    /// The widths of the registers after the first `count` blocks, in the
    /// order of the blocks, where no register is written at the start; none
    /// where an instruction cannot be lowered. A register must be written
    /// in an earlier block, or earlier in the same block, than it is read.
    pub open spec fn widths_after(self, count: int) -> Option<Seq<Option<u32>>>
        decreases count,
    {
        if count <= 0 {
            Some(Seq::new(self.reg_count as nat, |i: int| None::<u32>))
        } else {
            match self.widths_after(count - 1) {
                None => None,
                Some(before) => block_widths(
                    self.blocks[count - 1].insts,
                    self.layout(),
                    before,
                    self.blocks[count - 1].insts.len() as int,
                ),
            }
        }
    }

    /// Whether the code can be lowered, as far as that lies with the code:
    /// it has no more parameters than a function of the backend is given
    /// here, and it has no blocks, or no variable is a vector of no
    /// elements and every instruction can be lowered.
    pub open spec fn lowerable(self) -> bool {
        &&& self.param_count <= 0xffff
        &&& self.blocks.len() > 0 ==> {
            &&& forall|i: int|
                0 <= i < self.slots.len() ==> (#[trigger] self.slots[i]).ty != Type::Vector(0)
            &&& self.widths_after(self.blocks.len() as int) is Some
        }
    }

    /// Whether lowering the code hands no instruction to the backend: it
    /// has no variables, and its blocks are empty.
    pub open spec fn needs_no_instruction(self) -> bool {
        &&& self.slots.len() == 0
        &&& forall|b: int| 0 <= b < self.blocks.len() ==> (#[trigger] self.blocks[b]).insts.len() == 0
    }
}

/// The error of the library for an error of the backend's builder.
pub fn backend_error(error: BuilderError) -> (e: LangError)
    ensures
        e == backend_refused(),
{
    LangErrorMsg::InternalError("The backend refused an instruction").without_span()
}

fn malformed<T>() -> (result: LangResult<T>)
    ensures
        result == Err::<T, LangError>(malformed_code()),
{
    Err(LangErrorMsg::InternalError("Malformed code").without_span())
}

/// What is done with the function that a module has under the name of an
/// intrinsic: it is taken where its type is the one asked for, and refused
/// where it is not.
pub fn check_intrinsic(found: FunctionValue<'static>, same_type: bool) -> (result: LangResult<
    FunctionValue<'static>,
>)
    ensures
        same_type ==> result == Ok::<FunctionValue<'static>, LangError>(found),
        !same_type ==> result == Err::<FunctionValue<'static>, LangError>(intrinsic_mismatch()),
{
    if same_type {
        Ok(found)
    } else {
        Err(
            LangErrorMsg::InternalError(
                "Requested LLVM intrinsics with same name but different type signatures",
            ).without_span(),
        )
    }
}

/// The function of `module` named `name`, which is declared with the type
/// `fn_type` and external linkage if the module has none of that name.
/// Fails where the module has one of another type.
pub fn get_intrinsic(module: &Module<'static>, name: &str, fn_type: FunctionType<'static>) -> (result:
    LangResult<FunctionValue<'static>>)
    ensures
        result is Err ==> result->Err_0 == intrinsic_mismatch(),
{
    match module_get_function(module, name) {
        Some(fn_value) => check_intrinsic(
            fn_value,
            same_function_type(function_type(fn_value), fn_type),
        ),
        None => Ok(module_add_function(module, name, fn_type, true)),
    }
}

/// The name of the backend's intrinsic for `op` on integers of the
/// language.
pub fn intrinsic_name(op: CheckedOp) -> (name: &'static str)
    ensures
        name == match op {
            CheckedOp::Add => "llvm.sadd.with.overflow.i64",
            CheckedOp::Sub => "llvm.ssub.with.overflow.i64",
            CheckedOp::Mul => "llvm.smul.with.overflow.i64",
        },
{
    match op {
        CheckedOp::Add => "llvm.sadd.with.overflow.i64",
        CheckedOp::Sub => "llvm.ssub.with.overflow.i64",
        CheckedOp::Mul => "llvm.smul.with.overflow.i64",
    }
}

/// Number of bits of a value of the type `ty` in a variable slot, if it is
/// an integer.
pub fn slot_bits(ty: Type) -> (bits: Option<u32>)
    ensures
        bits == spec_slot_bits(ty),
{
    match ty {
        Type::Int => Some(INT_BITS),
        Type::CellState => Some(CELL_STATE_BITS),
        Type::Vector(_) => None,
    }
}

/// The state of the lowering of one function.
struct Lowering<'a> {
    context: &'static Context,
    module: &'a Module<'static>,
    builder: &'a Builder<'static>,
    function: FunctionValue<'static>,
    param_count: usize,
    blocks: Vec<BasicBlock<'static>>,
    slots: Vec<LoweredSlot>,
    regs: Vec<Option<Lowered>>,
}

impl<'a> Lowering<'a> {
    /// The widths of the registers, as far as they are written.
    spec fn widths(&self) -> Seq<Option<u32>> {
        self.regs@.map_values(
            |l: Option<Lowered>|
                match l {
                    Some(lowered) => Some(lowered.bits),
                    None => None,
                },
        )
    }

    /// What the lowering knows of the function besides the widths of its
    /// registers.
    spec fn layout(&self) -> Layout {
        Layout {
            param_count: self.param_count,
            slots: self.slots@.map_values(|s: LoweredSlot| s.bits),
            block_count: self.blocks@.len(),
        }
    }

    /// Whether `later` is this lowering with other registers at most.
    spec fn same_function(&self, later: &Lowering<'a>) -> bool {
        &&& later.context == self.context
        &&& later.module == self.module
        &&& later.builder == self.builder
        &&& later.function == self.function
        &&& later.param_count == self.param_count
        &&& later.blocks == self.blocks
        &&& later.slots == self.slots
        &&& later.regs@.len() == self.regs@.len()
    }

    /// The value of the backend for `operand`, with its width: a constant
    /// of the backend, a parameter of the function, or what the register
    /// holds. Fails where the operand cannot be lowered, and where the
    /// backend has no such parameter.
    fn operand(&self, operand: Operand) -> (result: LangResult<Lowered>)
        ensures
            operand_bits(operand, self.param_count, self.widths()) is None ==> result == Err::<
                Lowered,
                LangError,
            >(malformed_code()),
            result matches Ok(lowered) ==> operand_bits(
                operand,
                self.param_count,
                self.widths(),
            ) == Some(lowered.bits) && 1 <= lowered.bits <= 64,
            result matches Ok(lowered) ==> (operand matches Operand::Reg(r) ==> self.regs@[r as int]
                == Some(lowered)),
            result matches Err(error) ==> error == malformed_code(),
    {
        match operand {
            Operand::Const { bits, value } => {
                if bits < 1 || bits > 64 {
                    return malformed();
                }
                if bits < 64 && ((value as u64) >> bits) != 0 {
                    return malformed();
                }
                let ty = custom_width_int_type(self.context, bits);
                Ok(Lowered { value: const_int(ty, value as u64, true), bits })
            },
            Operand::Param(i) => {
                if i >= self.param_count || i >= 0xffff_ffff {
                    return malformed();
                }
                match get_nth_param(self.function, i as u32) {
                    Some(value) => Ok(Lowered { value, bits: INT_BITS }),
                    None => malformed(),
                }
            },
            Operand::Reg(r) => {
                if r >= self.regs.len() {
                    return malformed();
                }
                match self.regs[r] {
                    Some(lowered) => {
                        if lowered.bits < 1 || lowered.bits > 64 {
                            return malformed();
                        }
                        Ok(lowered)
                    },
                    None => malformed(),
                }
            },
        }
    }

    /// Two operands of one width.
    fn operands(&self, lhs: Operand, rhs: Operand) -> (result: LangResult<(Lowered, Lowered)>)
        ensures
            !(operand_bits(lhs, self.param_count, self.widths()) is Some && operand_bits(
                lhs,
                self.param_count,
                self.widths(),
            ) == operand_bits(rhs, self.param_count, self.widths())) ==> result == Err::<
                (Lowered, Lowered),
                LangError,
            >(malformed_code()),
            result matches Ok(pair) ==> operand_bits(lhs, self.param_count, self.widths())
                == Some(pair.0.bits) && operand_bits(rhs, self.param_count, self.widths()) == Some(
                pair.1.bits,
            ) && pair.0.bits == pair.1.bits && 1 <= pair.0.bits <= 64,
            result matches Err(error) ==> error == malformed_code(),
    {
        let a = match self.operand(lhs) {
            Ok(a) => a,
            Err(error) => {
                return Err(error);
            },
        };
        let b = match self.operand(rhs) {
            Ok(b) => b,
            Err(error) => {
                return Err(error);
            },
        };
        if a.bits != b.bits {
            return malformed();
        }
        Ok((a, b))
    }

    /// Records the value that the register `dest` holds. Fails, and
    /// records nothing, where the function has no such register.
    fn define(&mut self, dest: usize, lowered: Lowered) -> (result: LangResult<()>)
        ensures
            old(self).same_function(final(self)),
            dest < old(self).regs@.len() ==> result is Ok && final(self).regs@ == old(
                self,
            ).regs@.update(dest as int, Some(lowered)) && final(self).widths() == old(
                self,
            ).widths().update(dest as int, Some(lowered.bits)),
            dest >= old(self).regs@.len() ==> result == Err::<(), LangError>(malformed_code())
                && final(self).regs@ == old(self).regs@,
    {
        if dest >= self.regs.len() {
            return malformed();
        }
        self.regs.set(dest, Some(lowered));
        proof {
            assert(self.widths() =~= old(self).widths().update(dest as int, Some(lowered.bits)));
        }
        Ok(())
    }

    /// The block of the backend for `block`. Fails where the function has
    /// no such block.
    fn block(&self, block: BlockRef) -> (result: LangResult<BasicBlock<'static>>)
        ensures
            block.0 < self.blocks@.len() ==> result == Ok::<BasicBlock<'static>, LangError>(
                self.blocks@[block.0 as int],
            ),
            block.0 >= self.blocks@.len() ==> result == Err::<BasicBlock<'static>, LangError>(
                malformed_code(),
            ),
    {
        if block.0 >= self.blocks.len() {
            return malformed();
        }
        Ok(self.blocks[block.0])
    }

    /// Lowers the arithmetic operation `op` with its overflow flag: a call
    /// of the backend's intrinsic, and the two fields of what it gives,
    /// which are recorded as the registers `result` and `overflow`. Where
    /// the instruction cannot be lowered it fails before anything is handed
    /// to the backend; where the backend fails, no register is recorded.
    fn checked_arith(
        &mut self,
        op: CheckedOp,
        lhs: Operand,
        rhs: Operand,
        result: usize,
        overflow: usize,
    ) -> (lowered: LangResult<()>)
        ensures
            old(self).same_function(final(self)),
            inst_widths(
                Inst::CheckedArith { op, lhs, rhs, result, overflow },
                old(self).layout(),
                old(self).widths(),
            ) is None ==> lowered == Err::<(), LangError>(malformed_code()),
            lowered is Ok ==> inst_widths(
                Inst::CheckedArith { op, lhs, rhs, result, overflow },
                old(self).layout(),
                old(self).widths(),
            ) == Some(final(self).widths()),
            lowered matches Err(error) ==> is_lowering_error(error) && final(self).regs@ == old(
                self,
            ).regs@,
    {
        let (a, b) = match self.operands(lhs, rhs) {
            Ok(pair) => pair,
            Err(error) => {
                return Err(error);
            },
        };
        if a.bits != INT_BITS {
            return malformed();
        }
        if result >= self.regs.len() || overflow >= self.regs.len() {
            return malformed();
        }
        let int_type = custom_width_int_type(self.context, INT_BITS);
        let return_type = struct_type(self.context, int_type, bool_type(self.context));
        let fn_type = struct_fn_type(return_type, int_type, 2);
        let intrinsic = match get_intrinsic(self.module, intrinsic_name(op), fn_type) {
            Ok(intrinsic) => intrinsic,
            Err(error) => {
                return Err(error);
            },
        };
        let pair = match build_call(self.builder, intrinsic, a.value, b.value, "tmp") {
            Ok(Some(pair)) => pair,
            Ok(None) => {
                return malformed();
            },
            Err(error) => {
                return Err(backend_error(error));
            },
        };
        let value = match build_extract_value(self.builder, pair, 0, "tmpResult") {
            Ok(Some(value)) => value,
            Ok(None) => {
                return malformed();
            },
            Err(error) => {
                return Err(backend_error(error));
            },
        };
        let flag = match build_extract_value(self.builder, pair, 1, "tmpOverflow") {
            Ok(Some(flag)) => flag,
            Ok(None) => {
                return malformed();
            },
            Err(error) => {
                return Err(backend_error(error));
            },
        };
        let _ = self.define(result, Lowered { value, bits: INT_BITS });
        let _ = self.define(overflow, Lowered { value: flag, bits: 1 });
        Ok(())
    }

    /// Records the value that an instruction gave as the register `dest`,
    /// which exists.
    fn record(&mut self, dest: usize, built: Result<IntValue<'static>, BuilderError>, bits: u32) -> (lowered:
        LangResult<()>)
        requires
            dest < old(self).regs@.len(),
        ensures
            old(self).same_function(final(self)),
            lowered is Ok ==> built is Ok && final(self).widths() == old(self).widths().update(
                dest as int,
                Some(bits),
            ),
            built is Ok ==> lowered is Ok,
            lowered matches Err(error) ==> error == backend_refused() && final(self).regs@ == old(
                self,
            ).regs@,
    {
        match built {
            Ok(value) => {
                let _ = self.define(dest, Lowered { value, bits });
                Ok(())
            },
            Err(error) => Err(backend_error(error)),
        }
    }

    /// Lowers one instruction at the builder's position: hands the
    /// backend's instruction for it to the builder, with the values of its
    /// operands, and records the value that it gives as the register that
    /// it writes. Where the instruction cannot be lowered it fails before
    /// anything is handed to the backend; where the backend fails, no
    /// register is recorded.
    fn inst(&mut self, inst: Inst) -> (lowered: LangResult<()>)
        ensures
            old(self).same_function(final(self)),
            inst_widths(inst, old(self).layout(), old(self).widths()) is None ==> lowered == Err::<
                (),
                LangError,
            >(malformed_code()),
            lowered is Ok ==> inst_widths(inst, old(self).layout(), old(self).widths()) == Some(
                final(self).widths(),
            ),
            lowered matches Err(error) ==> is_lowering_error(error) && final(self).regs@ == old(
                self,
            ).regs@,
    {
        match inst {
            Inst::CheckedArith { op, lhs, rhs, result, overflow } => self.checked_arith(
                op,
                lhs,
                rhs,
                result,
                overflow,
            ),
            Inst::Compare { pred, lhs, rhs, dest } => {
                let (a, b) = match self.operands(lhs, rhs) {
                    Ok(pair) => pair,
                    Err(error) => {
                        return Err(error);
                    },
                };
                let ordered = match pred {
                    ComparisonToken::Equal | ComparisonToken::NotEqual => false,
                    _ => true,
                };
                if ordered && a.bits != INT_BITS {
                    return malformed();
                }
                if dest >= self.regs.len() {
                    return malformed();
                }
                let built = build_int_compare(self.builder, pred, a.value, b.value, "tmp");
                self.record(dest, built, 1)
            },
            Inst::Binary { op, lhs, rhs, dest } => {
                let (a, b) = match self.operands(lhs, rhs) {
                    Ok(pair) => pair,
                    Err(error) => {
                        return Err(error);
                    },
                };
                let bitwise = match op {
                    BinOp::And | BinOp::Or => true,
                    _ => false,
                };
                if !bitwise && a.bits != INT_BITS {
                    return malformed();
                }
                if dest >= self.regs.len() {
                    return malformed();
                }
                let built = match op {
                    BinOp::And => build_and(self.builder, a.value, b.value, "tmp"),
                    BinOp::Or => build_or(self.builder, a.value, b.value, "tmp"),
                    BinOp::SDiv => build_int_signed_div(self.builder, a.value, b.value, "tmp"),
                    BinOp::SRem => build_int_signed_rem(self.builder, a.value, b.value, "tmp"),
                    BinOp::Shl => build_left_shift(self.builder, a.value, b.value, "tmp"),
                    BinOp::AShr => build_right_shift(self.builder, a.value, b.value, true, "tmp"),
                    BinOp::LShr => build_right_shift(self.builder, a.value, b.value, false, "tmp"),
                };
                self.record(dest, built, a.bits)
            },
            Inst::Cast { op, value, dest } => {
                let v = match self.operand(value) {
                    Ok(v) => v,
                    Err(error) => {
                        return Err(error);
                    },
                };
                if dest >= self.regs.len() {
                    return malformed();
                }
                let bits = match op {
                    CastOp::TruncToCellState => CELL_STATE_BITS,
                    CastOp::ZExtToInt => INT_BITS,
                };
                let ty = custom_width_int_type(self.context, bits);
                let built = build_int_cast_sign_flag(self.builder, v.value, ty, false, "tmp");
                self.record(dest, built, bits)
            },
            Inst::Load { slot, dest } => {
                if slot >= self.slots.len() {
                    return malformed();
                }
                let s = self.slots[slot];
                let bits = match s.bits {
                    Some(bits) => bits,
                    None => {
                        return malformed();
                    },
                };
                if dest >= self.regs.len() {
                    return malformed();
                }
                match build_load(self.builder, s.ptr, "tmp") {
                    Ok(Some(value)) => {
                        let _ = self.define(dest, Lowered { value, bits });
                        Ok(())
                    },
                    Ok(None) => malformed(),
                    Err(error) => Err(backend_error(error)),
                }
            },
            Inst::Store { slot, value } => {
                if slot >= self.slots.len() {
                    return malformed();
                }
                let s = self.slots[slot];
                let v = match self.operand(value) {
                    Ok(v) => v,
                    Err(error) => {
                        return Err(error);
                    },
                };
                if s.bits != Some(v.bits) {
                    return malformed();
                }
                match build_store(self.builder, s.ptr, int_basic_value(v.value)) {
                    Ok(_) => Ok(()),
                    Err(error) => Err(backend_error(error)),
                }
            },
            Inst::Return(value) => {
                let v = match self.operand(value) {
                    Ok(v) => v,
                    Err(error) => {
                        return Err(error);
                    },
                };
                if v.bits != INT_BITS {
                    return malformed();
                }
                match build_return(self.builder, v.value) {
                    Ok(_) => Ok(()),
                    Err(error) => Err(backend_error(error)),
                }
            },
            Inst::Branch(block) => {
                let target = match self.block(block) {
                    Ok(target) => target,
                    Err(error) => {
                        return Err(error);
                    },
                };
                match build_unconditional_branch(self.builder, target) {
                    Ok(_) => Ok(()),
                    Err(error) => Err(backend_error(error)),
                }
            },
            Inst::Switch { value, else_block, zero_block } => {
                let v = match self.operand(value) {
                    Ok(v) => v,
                    Err(error) => {
                        return Err(error);
                    },
                };
                let else_target = match self.block(else_block) {
                    Ok(target) => target,
                    Err(error) => {
                        return Err(error);
                    },
                };
                let zero_target = match self.block(zero_block) {
                    Ok(target) => target,
                    Err(error) => {
                        return Err(error);
                    },
                };
                let zero = const_int(custom_width_int_type(self.context, v.bits), 0, false);
                match build_switch(self.builder, v.value, else_target, zero, zero_target) {
                    Ok(_) => Ok(()),
                    Err(error) => Err(backend_error(error)),
                }
            },
        }
    }
}

/// Lowers the code of a function into `module`: a function of the backend
/// with the same blocks in the same order, storage for each variable that
/// holds zero at the start, and the backend's instruction for each
/// instruction, block by block. It succeeds only where the code can be
/// lowered, and it does succeed where nothing needs to be handed to the
/// backend's builder; else the backend decides. Fails where the code cannot
/// be lowered and where the backend refuses an instruction; what was
/// lowered before stays in the module.
pub fn lower_code(
    context: &'static Context,
    module: &Module<'static>,
    builder: &Builder<'static>,
    code: &Code,
) -> (result: LangResult<FunctionValue<'static>>)
    ensures
        result is Ok ==> code@.lowerable(),
        code@.param_count > 0xffff ==> result == Err::<FunctionValue<'static>, LangError>(
            malformed_code(),
        ),
        code@.param_count <= 0xffff && (code@.blocks.len() == 0 || code@.needs_no_instruction())
            ==> result is Ok,
        result matches Err(error) ==> is_lowering_error(error),
{
    if code.param_count > 0xffff {
        return malformed();
    }
    let int_type = custom_width_int_type(context, INT_BITS);
    let fn_type = int_fn_type(i64_type(context), int_type, code.param_count);
    let function = module_add_function(module, code.name.as_str(), fn_type, false);
    let mut lowering = Lowering {
        context,
        module,
        builder,
        function,
        param_count: code.param_count,
        blocks: Vec::new(),
        slots: Vec::new(),
        regs: Vec::new(),
    };
    let mut b: usize = 0;
    while b < code.blocks.len()
        invariant
            b <= code.blocks.len(),
            lowering.blocks.len() == b,
            lowering.param_count == code.param_count,
            lowering.slots@.len() == 0,
            lowering.regs@.len() == 0,
        decreases code.blocks.len() - b,
    {
        lowering.blocks.push(append_basic_block(context, function, code.blocks[b].name.as_str()));
        b = b + 1;
    }
    if code.blocks.len() == 0 {
        return Ok(function);
    }
    position_at_end(builder, lowering.blocks[0]);
    let mut s: usize = 0;
    while s < code.slots.len()
        invariant
            s <= code.slots.len(),
            code.param_count <= 0xffff,
            code.blocks.len() > 0,
            lowering.blocks.len() == code.blocks.len(),
            lowering.param_count == code.param_count,
            lowering.regs@.len() == 0,
            lowering.slots@.len() == s,
            forall|i: int|
                0 <= i < s ==> (#[trigger] lowering.slots@[i]).bits == spec_slot_bits(
                    code.slots@[i].ty,
                ) && code.slots@[i].ty != Type::Vector(0),
        decreases code.slots.len() - s,
    {
        proof {
            assert(code@.slots.len() == code.slots@.len());
        }
        let bits = slot_bits(code.slots[s].ty);
        let (ty, zero) = match code.slots[s].ty {
            Type::Vector(len) => {
                if len == 0 {
                    proof {
                        assert(code@.slots[s as int].ty == Type::Vector(0));
                    }
                    return malformed();
                }
                let vector = vec_type(int_type, len as u32);
                (vec_basic_type(vector), vec_const_zero(vector))
            },
            Type::Int => (int_basic_type(int_type), int_basic_value(const_int(int_type, 0, false))),
            Type::CellState => {
                let state = custom_width_int_type(context, CELL_STATE_BITS);
                (int_basic_type(state), int_basic_value(const_int(state, 0, false)))
            },
        };
        let ptr = match build_alloca(builder, ty, code.slots[s].name.as_str()) {
            Ok(ptr) => ptr,
            Err(error) => {
                return Err(backend_error(error));
            },
        };
        match build_store(builder, ptr, zero) {
            Ok(_) => {},
            Err(error) => {
                return Err(backend_error(error));
            },
        }
        lowering.slots.push(LoweredSlot { ptr, bits });
        s = s + 1;
    }
    let mut r: usize = 0;
    while r < code.reg_count
        invariant
            r <= code.reg_count,
            code.param_count <= 0xffff,
            code.blocks.len() > 0,
            lowering.blocks.len() == code.blocks.len(),
            lowering.param_count == code.param_count,
            lowering.slots@.len() == code.slots@.len(),
            forall|i: int|
                0 <= i < code.slots@.len() ==> (#[trigger] lowering.slots@[i]).bits
                    == spec_slot_bits(code.slots@[i].ty) && code.slots@[i].ty != Type::Vector(0),
            lowering.regs@.len() == r,
            forall|i: int| 0 <= i < r ==> (#[trigger] lowering.regs@[i]) is None,
        decreases code.reg_count - r,
    {
        lowering.regs.push(None);
        r = r + 1;
    }
    proof {
        assert(lowering.layout().slots =~= code@.layout().slots);
        assert(lowering.layout() == code@.layout());
        assert(lowering.widths() =~= Seq::new(code.reg_count as nat, |i: int| None::<u32>));
        assert forall|i: int| 0 <= i < code@.slots.len() implies (#[trigger] code@.slots[i]).ty
            != Type::Vector(0) by {
            assert(code@.slots[i].ty == code.slots@[i].ty);
            assert(lowering.slots@[i].bits == spec_slot_bits(code.slots@[i].ty));
        }
    }
    let mut b: usize = 0;
    while b < code.blocks.len()
        invariant
            b <= code.blocks.len(),
            code.param_count <= 0xffff,
            lowering.blocks.len() == code.blocks.len(),
            lowering.layout() == code@.layout(),
            forall|i: int|
                0 <= i < code@.slots.len() ==> (#[trigger] code@.slots[i]).ty != Type::Vector(0),
            code@.widths_after(b as int) == Some(lowering.widths()),
        decreases code.blocks.len() - b,
    {
        position_at_end(builder, lowering.blocks[b]);
        let ghost start = lowering.widths();
        let ghost insts = code@.blocks[b as int].insts;
        proof {
            assert(insts == code.blocks@[b as int].insts@);
        }
        let mut i: usize = 0;
        while i < code.blocks[b].insts.len()
            invariant
                b < code.blocks.len(),
                i <= code.blocks[b as int].insts.len(),
                code.param_count <= 0xffff,
                insts == code.blocks@[b as int].insts@,
                insts == code@.blocks[b as int].insts,
                lowering.blocks.len() == code.blocks.len(),
                lowering.layout() == code@.layout(),
                forall|k: int|
                    0 <= k < code@.slots.len() ==> (#[trigger] code@.slots[k]).ty != Type::Vector(
                        0,
                    ),
                code@.widths_after(b as int) == Some(start),
                block_widths(insts, code@.layout(), start, i as int) == Some(lowering.widths()),
            decreases code.blocks[b as int].insts.len() - i,
        {
            let ghost before = lowering.layout();
            match lowering.inst(code.blocks[b].insts[i]) {
                Ok(_) => {},
                Err(error) => {
                    return Err(error);
                },
            }
            proof {
                assert(lowering.layout().slots =~= before.slots);
                assert(lowering.layout() == before);
            }
            i = i + 1;
        }
        b = b + 1;
    }
    Ok(function)
}

} // verus!
