//! The code generator: the primitives that emit the code of one function,
//! block by block, with every decision going through one conditional.
pub mod facts;
pub mod ir;
pub mod llvm;
pub mod lower;
pub mod model;
pub mod running;
pub mod value;

pub use ir::{BinOp, Block, BlockRef, CastOp, CheckedOp, Code, Inst, Operand, Slot};
pub use model::CompilerView;
pub use value::Value;

use crate::ast::ErrorPointRef;
use crate::compiler::ir::BlockView;
use crate::compiler::llvm::{
    create_builder, create_module, custom_width_int_type, i64_type, thread_context,
};
use crate::compiler::lower::{
    get_intrinsic, intrinsic_mismatch, is_lowering_error, lower_code, malformed_code,
};
use crate::compiler::model::{
    div_overflow_check, min_int_value, nothing, too_many_values, trap, ArmFn,
};
use crate::errors::{LangError, LangErrorMsg, LangResult};
use crate::host::encode_error;
use crate::lexer::ComparisonToken;
use crate::types::{ConstValue, Type, CELL_STATE_BITS, INT_BITS, MIN_INT, RETURN_BITS};
use inkwell::builder::Builder;
use inkwell::context::Context;
use inkwell::module::Module;
use inkwell::types::{FunctionType, IntType};
use inkwell::values::FunctionValue;
use thread_local::ThreadLocal;
use vstd::prelude::*;

verus! {

/// The backend context of the current thread. A context is not safe to
/// share between threads, so each thread that generates code has its own in
/// `pool`: it is made when the thread asks for it first and lives as long as
/// the pool.
pub fn get_ctx(pool: &'static ThreadLocal<Context>) -> (context: &'static Context) {
    thread_context(pool)
}

/// The generator of the code of one function at a time. It emits into a
/// model of the code, which is lowered into a module of the backend when the
/// function is finished.
pub struct Compiler {
    /// The context of the backend. A context belongs to one thread.
    context: &'static Context,
    /// The module of the backend that finished functions are lowered into.
    module: Module<'static>,
    /// The instruction builder of the backend.
    builder: Builder<'static>,
    /// The function of the backend that was lowered last.
    fn_value_opt: Option<FunctionValue<'static>>,
    /// The code emitted so far.
    code: Code,
    /// The block that instructions are appended to.
    cursor: BlockRef,
}

impl View for Compiler {
    type V = CompilerView;

    closed spec fn view(&self) -> CompilerView {
        CompilerView { code: self.code@, cursor: self.cursor }
    }
}

/// What builds one arm of a conditional: a piece of code that starts at the
/// cursor.
pub trait BuildArm: Sized {
    /// What building the arm does to the generator, and whether it fails.
    spec fn arm(&self) -> ArmFn;

    /// Builds the arm at the cursor.
    fn build(self, compiler: &mut Compiler) -> (result: LangResult<()>)
        requires
            old(compiler).wf(),
        ensures
            final(compiler).wf(),
            final(compiler)@ == (self.arm())(old(compiler)@).0,
            result == (self.arm())(old(compiler)@).1,
            old(compiler)@.code.blocks.len() <= final(compiler)@.code.blocks.len(),
    ;
}

/// The arm that builds nothing: the path goes straight on.
pub struct FallThrough;

impl BuildArm for FallThrough {
    open spec fn arm(&self) -> ArmFn {
        nothing()
    }

    fn build(self, compiler: &mut Compiler) -> (result: LangResult<()>) {
        Ok(())
    }
}

/// The arm that ends the function with the signal for a runtime error.
pub struct Trap(pub ErrorPointRef);

impl BuildArm for Trap {
    open spec fn arm(&self) -> ArmFn {
        trap(self.0.idx)
    }

    fn build(self, compiler: &mut Compiler) -> (result: LangResult<()>) {
        compiler.build_return_error(self.0.idx);
        Ok(())
    }
}

/// The second stage of the check of a division, as the arm that is built
/// where the divisor is not zero.
struct DivOverflowCheck<A: BuildArm> {
    lhs: Operand,
    rhs: Operand,
    on_overflow: A,
}

impl<A: BuildArm> BuildArm for DivOverflowCheck<A> {
    closed spec fn arm(&self) -> ArmFn {
        div_overflow_check(self.lhs, self.rhs, self.on_overflow.arm())
    }

    fn build(self, compiler: &mut Compiler) -> (result: LangResult<()>) {
        if compiler.code.reg_count > usize::MAX - 3 {
            return Err(LangErrorMsg::InternalError("Too many values").without_span());
        }
        let is_min = compiler.code.reg_count;
        let is_neg_one = is_min + 1;
        let is_overflow = is_min + 2;
        compiler.code.reg_count = is_min + 3;
        proof {
            assert(compiler@ == old(compiler)@.with_regs(3));
        }
        let min_value = compiler.get_min_int_value();
        compiler.emit(
            Inst::Compare { pred: ComparisonToken::Equal, lhs: self.lhs, rhs: min_value, dest: is_min },
        );
        compiler.emit(
            Inst::Compare {
                pred: ComparisonToken::Equal,
                lhs: self.rhs,
                rhs: Operand::Const { bits: INT_BITS, value: -1i64 },
                dest: is_neg_one,
            },
        );
        compiler.emit(
            Inst::Binary {
                op: BinOp::And,
                lhs: Operand::Reg(is_min),
                rhs: Operand::Reg(is_neg_one),
                dest: is_overflow,
            },
        );
        compiler.build_conditional(Operand::Reg(is_overflow), self.on_overflow, FallThrough)
    }
}

impl Compiler {
    /// Whether the cursor stands at a block of the function.
    pub open spec fn wf(&self) -> bool {
        self@.wf()
    }

    /// The function of the backend that was lowered last, if any was.
    pub closed spec fn lowered(&self) -> Option<FunctionValue<'static>> {
        self.fn_value_opt
    }

    /// The context of the backend that the generator was made for.
    pub closed spec fn backend_context(&self) -> &'static Context {
        self.context
    }

    /// The module of the backend that finished functions are lowered into.
    pub closed spec fn backend_module(&self) -> Module<'static> {
        self.module
    }

    /// The instruction builder of the backend.
    pub closed spec fn backend_builder(&self) -> Builder<'static> {
        self.builder
    }

    /// Makes a generator for the context `context`, which lowers into a new
    /// module of that context named `module_name`. It has no function yet,
    /// and its cursor stands nowhere.
    pub fn new(context: &'static Context, module_name: &str) -> (compiler: Compiler)
        ensures
            compiler@ == CompilerView::idle(),
            compiler.lowered() is None,
            compiler.backend_context() == context,
    {
        let compiler = Compiler {
            context,
            module: create_module(context, module_name),
            builder: create_builder(context),
            fn_value_opt: None,
            code: Code {
                name: String::new(),
                param_count: 0,
                slots: Vec::new(),
                blocks: Vec::new(),
                reg_count: 0,
            },
            cursor: BlockRef(0),
        };
        proof {
            assert(compiler@ =~= CompilerView::idle());
        }
        compiler
    }

    /// Starts a function with the given name, number of parameters and
    /// variables: one empty block, `entry`, with the cursor at it. What was
    /// emitted for the function before is dropped.
    pub fn begin_function(&mut self, name: String, param_count: usize, slots: Vec<Slot>)
        ensures
            final(self).wf(),
            final(self)@ == CompilerView::begin(
                name@,
                param_count,
                slots@.map_values(|s: Slot| s@),
            ),
            final(self).lowered() == old(self).lowered(),
            final(self).backend_context() == old(self).backend_context(),
            final(self).backend_module() == old(self).backend_module(),
            final(self).backend_builder() == old(self).backend_builder(),
    {
        let mut blocks: Vec<Block> = Vec::new();
        blocks.push(Block { name: "entry".to_owned(), insts: Vec::new() });
        self.code = Code { name, param_count, slots, blocks, reg_count: 0 };
        self.cursor = BlockRef(0);
        proof {
            assert(self.code@.blocks =~= seq![BlockView { name: "entry"@, insts: Seq::empty() }]);
            assert(self@ =~= CompilerView::begin(
                name@,
                param_count,
                slots@.map_values(|s: Slot| s@),
            ));
        }
    }

    /// Lowers the function into the module of the backend and gives the
    /// function of the backend. The code that was emitted stays as it is.
    /// It succeeds only where the code can be lowered, and it does succeed
    /// where nothing needs to be handed to the backend's builder; else the
    /// backend decides. Fails where the code cannot be lowered and where
    /// the backend refuses an instruction.
    pub fn finish_function(&mut self) -> (result: LangResult<FunctionValue<'static>>)
        ensures
            final(self)@ == old(self)@,
            old(self).wf() ==> final(self).wf(),
            final(self).backend_context() == old(self).backend_context(),
            final(self).backend_module() == old(self).backend_module(),
            final(self).backend_builder() == old(self).backend_builder(),
            result is Ok ==> old(self)@.code.lowerable(),
            old(self)@.code.param_count > 0xffff ==> result == Err::<
                FunctionValue<'static>,
                LangError,
            >(malformed_code()),
            old(self)@.code.param_count <= 0xffff && (old(self)@.code.blocks.len() == 0 || old(
                self,
            )@.code.needs_no_instruction()) ==> result is Ok,
            result matches Err(error) ==> is_lowering_error(error) && final(self).lowered() == old(
                self,
            ).lowered(),
            result matches Ok(function) ==> final(self).lowered() == Some(function),
    {
        match lower_code(self.context, &self.module, &self.builder, &self.code) {
            Ok(function) => {
                self.fn_value_opt = Some(function);
                Ok(function)
            },
            Err(error) => Err(error),
        }
    }

    /// The function of the backend that was lowered last, if any was.
    pub fn fn_value(&self) -> (function: Option<FunctionValue<'static>>)
        ensures
            function == self.lowered(),
    {
        self.fn_value_opt
    }

    /// The type of the backend for the value that a function returns.
    pub fn return_type(&self) -> (ty: IntType<'static>) {
        i64_type(self.context)
    }

    /// The type of the backend for the integers of the language.
    pub fn int_type(&self) -> (ty: IntType<'static>) {
        custom_width_int_type(self.context, INT_BITS)
    }

    /// The type of the backend for cell states.
    pub fn cell_state_type(&self) -> (ty: IntType<'static>) {
        custom_width_int_type(self.context, CELL_STATE_BITS)
    }

    /// The instruction builder of the backend.
    pub fn builder(&mut self) -> (builder: &Builder<'static>)
        ensures
            *builder == old(self).backend_builder(),
    {
        &self.builder
    }

    /// The module of the backend that finished functions are lowered into.
    pub fn module(&self) -> (module: &Module<'static>)
        ensures
            *module == self.backend_module(),
    {
        &self.module
    }

    /// The function of the module named `name`, which is declared with the
    /// type `fn_type` and external linkage if the module has none of that
    /// name. Fails where the module has one of another type.
    pub fn get_llvm_intrinisic(&mut self, name: &str, fn_type: FunctionType<'static>) -> (result:
        LangResult<FunctionValue<'static>>)
        ensures
            final(self)@ == old(self)@,
            old(self).wf() ==> final(self).wf(),
            final(self).lowered() == old(self).lowered(),
            final(self).backend_context() == old(self).backend_context(),
            final(self).backend_module() == old(self).backend_module(),
            final(self).backend_builder() == old(self).backend_builder(),
            result is Err ==> result->Err_0 == intrinsic_mismatch(),
    {
        get_intrinsic(&self.module, name, fn_type)
    }

    /// The code emitted so far.
    pub fn code(&self) -> (code: &Code)
        ensures
            code@ == self@.code,
    {
        &self.code
    }

    /// The block that instructions are appended to.
    pub fn cursor(&self) -> (cursor: BlockRef)
        ensures
            cursor == self@.cursor,
    {
        self.cursor
    }

    /// The slots of the variables, in their order.
    pub fn vars(&self) -> (slots: &Vec<Slot>)
        ensures
            slots@.map_values(|s: Slot| s@) == self@.code.slots,
    {
        &self.code.slots
    }

    /// Appends an empty block named `name` to the function and gives the
    /// reference to it. The cursor stays where it is.
    pub fn append_basic_block(&mut self, name: &str) -> (block: BlockRef)
        ensures
            final(self)@ == old(self)@.append_basic_block(name@).0,
            block == old(self)@.append_basic_block(name@).1,
            old(self).wf() ==> final(self).wf(),
            final(self)@.code.blocks.len() == old(self)@.code.blocks.len() + 1,
            block.0 == old(self)@.code.blocks.len(),
    {
        let index = self.code.blocks.len();
        self.code.blocks.push(Block { name: name.to_owned(), insts: Vec::new() });
        proof {
            assert(self@.code.blocks =~= old(self)@.code.blocks.push(
                BlockView { name: name@, insts: Seq::empty() },
            ));
            assert(self@ =~= old(self)@.append_basic_block(name@).0);
        }
        BlockRef(index)
    }

    /// Whether the block at the cursor still needs a terminating
    /// instruction: whether it does not end in one yet.
    pub fn needs_terminator(&self) -> (needed: bool)
        requires
            self.wf(),
        ensures
            needed == self@.needs_terminator(),
    {
        let block = &self.code.blocks[self.cursor.0];
        let count = block.insts.len();
        count == 0 || !block.insts[count - 1].is_terminator()
    }

    /// Moves the cursor to the end of `block`.
    pub fn position_at_end(&mut self, block: BlockRef)
        requires
            block.0 < old(self)@.code.blocks.len(),
        ensures
            final(self).wf(),
            final(self)@ == old(self)@.position_at_end(block),
            final(self)@.code.blocks.len() == old(self)@.code.blocks.len(),
    {
        self.cursor = block;
    }

    /// Appends `inst` to the block at the cursor.
    pub fn emit(&mut self, inst: Inst)
        requires
            old(self).wf(),
        ensures
            final(self).wf(),
            final(self)@ == old(self)@.emit(inst),
            final(self)@.code.blocks.len() == old(self)@.code.blocks.len(),
    {
        let ghost before = self.code.blocks@;
        let index = self.cursor.0;
        let mut taken: Vec<Block> = Vec::new();
        std::mem::swap(&mut self.code.blocks, &mut taken);
        let mut block = Block { name: String::new(), insts: Vec::new() };
        std::mem::swap(&mut taken[index], &mut block);
        block.insts.push(inst);
        taken.set(index, block);
        self.code.blocks = taken;
        proof {
            assert(self@.code.blocks =~= old(self)@.code.blocks.update(
                index as int,
                BlockView {
                    insts: old(self)@.current().insts.push(inst),
                    ..old(self)@.current()
                },
            ));
            assert(self@ =~= old(self)@.emit(inst));
        }
    }

    /// Gives the function one more register, if it has one left.
    fn new_reg(&mut self) -> (result: LangResult<usize>)
        requires
            old(self).wf(),
        ensures
            old(self)@.has_room(1) ==> result == Ok::<usize, LangError>(old(self)@.code.reg_count)
                && final(self)@ == old(self)@.with_regs(1) && final(self).wf(),
            !old(self)@.has_room(1) ==> result == Err::<usize, LangError>(too_many_values())
                && final(self)@ == old(self)@ && final(self).wf(),
            final(self)@.code.blocks.len() == old(self)@.code.blocks.len(),
    {
        if self.code.reg_count > usize::MAX - 1 {
            return Err(LangErrorMsg::InternalError("Too many values").without_span());
        }
        let dest = self.code.reg_count;
        self.code.reg_count = dest + 1;
        proof {
            assert(self@ == old(self)@.with_regs(1));
        }
        Ok(dest)
    }

    /// Builds the signed comparison of `lhs` with `rhs` and gives its
    /// result, which is 1 where it holds and 0 where it does not. Fails,
    /// and builds nothing, where the function has no register left.
    pub fn build_compare(&mut self, pred: ComparisonToken, lhs: Operand, rhs: Operand) -> (result:
        LangResult<Operand>)
        requires
            old(self).wf(),
        ensures
            final(self).wf(),
            final(self)@ == old(self)@.build_compare(pred, lhs, rhs).0,
            result == old(self)@.build_compare(pred, lhs, rhs).1,
            final(self)@.code.blocks.len() == old(self)@.code.blocks.len(),
    {
        match self.new_reg() {
            Err(error) => Err(error),
            Ok(dest) => {
                self.emit(Inst::Compare { pred, lhs, rhs, dest });
                Ok(Operand::Reg(dest))
            },
        }
    }

    /// Builds the operation `op` on `lhs` and `rhs` and gives its result.
    /// The operation is not guarded: a division is to be built only on a
    /// path that a division check leads to. Fails, and builds nothing,
    /// where the function has no register left.
    pub fn build_binary(&mut self, op: BinOp, lhs: Operand, rhs: Operand) -> (result: LangResult<
        Operand,
    >)
        requires
            old(self).wf(),
        ensures
            final(self).wf(),
            final(self)@ == old(self)@.build_binary(op, lhs, rhs).0,
            result == old(self)@.build_binary(op, lhs, rhs).1,
            final(self)@.code.blocks.len() == old(self)@.code.blocks.len(),
    {
        match self.new_reg() {
            Err(error) => Err(error),
            Ok(dest) => {
                self.emit(Inst::Binary { op, lhs, rhs, dest });
                Ok(Operand::Reg(dest))
            },
        }
    }

    /// Builds the change `op` of the width of `value` and gives its result.
    /// Fails, and builds nothing, where the function has no register left.
    pub fn build_cast(&mut self, op: CastOp, value: Operand) -> (result: LangResult<Operand>)
        requires
            old(self).wf(),
        ensures
            final(self).wf(),
            final(self)@ == old(self)@.build_cast(op, value).0,
            result == old(self)@.build_cast(op, value).1,
            final(self)@.code.blocks.len() == old(self)@.code.blocks.len(),
    {
        match self.new_reg() {
            Err(error) => Err(error),
            Ok(dest) => {
                self.emit(Inst::Cast { op, value, dest });
                Ok(Operand::Reg(dest))
            },
        }
    }

    /// Builds the read of the variable slot `slot` and gives what it
    /// holds. Fails, and builds nothing, where the function has no register
    /// left.
    pub fn build_load(&mut self, slot: usize) -> (result: LangResult<Operand>)
        requires
            old(self).wf(),
        ensures
            final(self).wf(),
            final(self)@ == old(self)@.build_load(slot).0,
            result == old(self)@.build_load(slot).1,
            final(self)@.code.blocks.len() == old(self)@.code.blocks.len(),
    {
        match self.new_reg() {
            Err(error) => Err(error),
            Ok(dest) => {
                self.emit(Inst::Load { slot, dest });
                Ok(Operand::Reg(dest))
            },
        }
    }

    /// Builds the write of `value` into the variable slot `slot`.
    pub fn build_store(&mut self, slot: usize, value: Operand)
        requires
            old(self).wf(),
        ensures
            final(self).wf(),
            final(self)@ == old(self)@.build_store(slot, value),
            final(self)@.code.blocks.len() == old(self)@.code.blocks.len(),
    {
        self.emit(Inst::Store { slot, value });
    }

    /// Builds a conditional on `condition`, which need not be a single bit:
    /// appends the blocks `ifTrue`, `ifFalse` and `endIf`; ends the block at
    /// the cursor with a switch that goes to `ifFalse` where `condition` is
    /// zero and to `ifTrue` where it is not; builds each arm with the
    /// cursor at its block, and has it branch to `endIf` unless it ended in
    /// a terminator itself; and leaves the cursor at `endIf`. Where an arm
    /// fails, nothing is built after it.
    pub fn build_conditional<T: BuildArm, F: BuildArm>(
        &mut self,
        condition: Operand,
        build_if_true: T,
        build_if_false: F,
    ) -> (result: LangResult<()>)
        requires
            old(self).wf(),
        ensures
            final(self).wf(),
            final(self)@ == old(self)@.build_conditional(
                condition,
                build_if_true.arm(),
                build_if_false.arm(),
            ).0,
            result == old(self)@.build_conditional(
                condition,
                build_if_true.arm(),
                build_if_false.arm(),
            ).1,
            old(self)@.code.blocks.len() <= final(self)@.code.blocks.len(),
    {
        let if_true_bb = self.append_basic_block("ifTrue");
        let if_false_bb = self.append_basic_block("ifFalse");
        let merge_bb = self.append_basic_block("endIf");
        self.emit(Inst::Switch { value: condition, else_block: if_true_bb, zero_block: if_false_bb });

        self.position_at_end(if_true_bb);
        match build_if_true.build(self) {
            Err(error) => {
                return Err(error);
            },
            Ok(_) => {},
        }
        if self.needs_terminator() {
            self.emit(Inst::Branch(merge_bb));
        }

        self.position_at_end(if_false_bb);
        match build_if_false.build(self) {
            Err(error) => {
                return Err(error);
            },
            Ok(_) => {},
        }
        if self.needs_terminator() {
            self.emit(Inst::Branch(merge_bb));
        }
        self.position_at_end(merge_bb);
        Ok(())
    }

    /// Builds the arithmetic operation `op` on `lhs` and `rhs` in its
    /// variant that reports overflow, and a conditional on the overflow flag:
    /// where the flag is set, the path runs what `on_overflow` builds, which
    /// is expected to end it; where it is not, the path goes straight on.
    /// Gives the result of the operation, which is the exact result on the
    /// path without overflow. Fails, before anything is built, where the
    /// function has no two registers left.
    pub fn build_checked_int_arithmetic<A: BuildArm>(
        &mut self,
        lhs: Operand,
        rhs: Operand,
        op: CheckedOp,
        on_overflow: A,
    ) -> (result: LangResult<Operand>)
        requires
            old(self).wf(),
        ensures
            final(self).wf(),
            final(self)@ == old(self)@.build_checked_int_arithmetic(
                lhs,
                rhs,
                op,
                on_overflow.arm(),
            ).0,
            result == old(self)@.build_checked_int_arithmetic(lhs, rhs, op, on_overflow.arm()).1,
            old(self)@.code.blocks.len() <= final(self)@.code.blocks.len(),
    {
        if self.code.reg_count > usize::MAX - 2 {
            return Err(LangErrorMsg::InternalError("Too many values").without_span());
        }
        let result = self.code.reg_count;
        let overflow = result + 1;
        self.code.reg_count = result + 2;
        proof {
            assert(self@ == old(self)@.with_regs(2));
        }
        self.emit(Inst::CheckedArith { op, lhs, rhs, result, overflow });
        match self.build_conditional(Operand::Reg(overflow), on_overflow, FallThrough) {
            Err(error) => Err(error),
            Ok(_) => Ok(Operand::Reg(result)),
        }
    }

    /// Builds the check that guards a division of `lhs` by `rhs`, in two
    /// stages. First a conditional on whether `rhs` is zero: where it is,
    /// the path runs what `on_div_by_zero` builds and does not reach the
    /// second stage. Where it is not, a conditional on whether `lhs` is the
    /// smallest integer and `rhs` is minus one, the one division that
    /// overflows: where it is, the path runs what `on_overflow` builds.
    /// Both arms are expected to end their path. The division itself is
    /// not built: it is safe on the path that goes straight on. Fails where
    /// the function has no register left for a comparison.
    pub fn build_div_check<A: BuildArm, B: BuildArm>(
        &mut self,
        lhs: Operand,
        rhs: Operand,
        on_overflow: A,
        on_div_by_zero: B,
    ) -> (result: LangResult<()>)
        requires
            old(self).wf(),
        ensures
            final(self).wf(),
            final(self)@ == old(self)@.build_div_check(
                lhs,
                rhs,
                on_overflow.arm(),
                on_div_by_zero.arm(),
            ).0,
            result == old(self)@.build_div_check(
                lhs,
                rhs,
                on_overflow.arm(),
                on_div_by_zero.arm(),
            ).1,
            old(self)@.code.blocks.len() <= final(self)@.code.blocks.len(),
    {
        if self.code.reg_count > usize::MAX - 1 {
            return Err(LangErrorMsg::InternalError("Too many values").without_span());
        }
        let is_div_by_zero = self.code.reg_count;
        self.code.reg_count = is_div_by_zero + 1;
        proof {
            assert(self@ == old(self)@.with_regs(1));
        }
        self.emit(
            Inst::Compare {
                pred: ComparisonToken::Equal,
                lhs: rhs,
                rhs: Operand::Const { bits: INT_BITS, value: 0 },
                dest: is_div_by_zero,
            },
        );
        self.build_conditional(
            Operand::Reg(is_div_by_zero),
            on_div_by_zero,
            DivOverflowCheck { lhs, rhs, on_overflow },
        )
    }

    /// Ends the block at the cursor with the return of `value`, the cell
    /// state that a transition function gives.
    pub fn build_return_cell_state(&mut self, value: Operand)
        requires
            old(self).wf(),
        ensures
            final(self).wf(),
            final(self)@ == old(self)@.build_return(value),
            !final(self)@.needs_terminator(),
            final(self)@.code.blocks.len() == old(self)@.code.blocks.len(),
    {
        self.emit(Inst::Return(value));
    }

    /// Ends the block at the cursor with the return that signals the
    /// runtime error with the index `error_index`: the top bit of the
    /// returned value is set, and the other bits hold the index.
    pub fn build_return_error(&mut self, error_index: usize)
        requires
            old(self).wf(),
        ensures
            final(self).wf(),
            final(self)@ == old(self)@.build_return_error(error_index),
            !final(self)@.needs_terminator(),
            final(self)@.code.blocks.len() == old(self)@.code.blocks.len(),
    {
        let return_value: u64 = encode_error(error_index);
        self.emit(Inst::Return(Operand::Const { bits: RETURN_BITS, value: return_value as i64 }));
    }

    /// The smallest integer of the language, as a constant.
    fn get_min_int_value(&self) -> (value: Operand)
        ensures
            value == min_int_value(),
    {
        Operand::Const { bits: INT_BITS, value: MIN_INT }
    }

    /// The value that a variable of the type `ty` holds before its first
    /// assignment: the zero of that type.
    pub fn get_default_var_value(&self, ty: Type) -> (value: ConstValue)
        ensures
            value@ == ty.spec_default_value(),
    {
        ty.default_value()
    }
}

} // verus!
