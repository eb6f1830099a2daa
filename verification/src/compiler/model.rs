//! The mathematical model of the code generator: the code it has emitted,
//! the block it emits into, and what each of its primitives does to them.
use crate::compiler::ir::{
    BinOp, BlockRef, BlockView, CastOp, CheckedOp, CodeView, Inst, Operand, SlotView,
};
use crate::errors::{LangError, LangErrorMsg};
use crate::host::spec_encode_error;
use crate::lexer::ComparisonToken;
use crate::types::{INT_BITS, MIN_INT, RETURN_BITS};
use vstd::prelude::*;

verus! {

/// What a [`crate::compiler::Compiler`] holds: the code of the function
/// under construction and the block that instructions are appended to.
#[verifier::ext_equal]
pub struct CompilerView {
    pub code: CodeView,
    pub cursor: BlockRef,
}

/// What building one arm of a conditional does: the generator after it, and
/// whether it failed.
pub type ArmFn = spec_fn(CompilerView) -> (CompilerView, Result<(), LangError>);

/// The error for a function that would need more registers than can be
/// numbered.
pub open spec fn too_many_values() -> LangError {
    LangErrorMsg::InternalError("Too many values").without_span()
}

impl CompilerView {
    /// Whether the cursor stands at a block of the function.
    pub open spec fn wf(self) -> bool {
        self.cursor.0 < self.code.blocks.len()
    }

    /// The generator that has no function yet.
    pub open spec fn idle() -> CompilerView {
        CompilerView {
            code: CodeView {
                name: Seq::empty(),
                param_count: 0,
                slots: Seq::empty(),
                blocks: Seq::empty(),
                reg_count: 0,
            },
            cursor: BlockRef(0),
        }
    }

    /// The generator at the start of a function with the given name, number
    /// of parameters and variables: one empty block, `entry`, with the
    /// cursor at it.
    pub open spec fn begin(name: Seq<char>, param_count: usize, slots: Seq<SlotView>) -> CompilerView {
        CompilerView {
            code: CodeView {
                name,
                param_count,
                slots,
                blocks: seq![BlockView { name: "entry"@, insts: Seq::empty() }],
                reg_count: 0,
            },
            cursor: BlockRef(0),
        }
    }

    /// The block at the cursor.
    pub open spec fn current(self) -> BlockView {
        self.code.blocks[self.cursor.0 as int]
    }

    /// With a new, empty block named `name` at the end of the function. The
    /// cursor stays.
    pub open spec fn append_basic_block(self, name: Seq<char>) -> (CompilerView, BlockRef) {
        (
            CompilerView {
                code: CodeView {
                    blocks: self.code.blocks.push(BlockView { name, insts: Seq::empty() }),
                    ..self.code
                },
                ..self
            },
            BlockRef(self.code.blocks.len() as usize),
        )
    }

    /// Whether the block at the cursor has no terminating instruction yet.
    pub open spec fn needs_terminator(self) -> bool {
        self.current().needs_terminator()
    }

    /// With the cursor at the end of `block`.
    pub open spec fn position_at_end(self, block: BlockRef) -> CompilerView {
        CompilerView { cursor: block, ..self }
    }

    /// With `inst` appended to the block at the cursor. Where the cursor
    /// stands at no block, nothing is emitted.
    pub open spec fn emit(self, inst: Inst) -> CompilerView {
        if self.wf() {
            CompilerView {
                code: CodeView {
                    blocks: self.code.blocks.update(
                        self.cursor.0 as int,
                        BlockView { insts: self.current().insts.push(inst), ..self.current() },
                    ),
                    ..self.code
                },
                ..self
            }
        } else {
            self
        }
    }

    /// With `count` more registers. The first of them has the number that
    /// was the count of registers before.
    pub open spec fn with_regs(self, count: usize) -> CompilerView {
        CompilerView {
            code: CodeView { reg_count: (self.code.reg_count + count) as usize, ..self.code },
            ..self
        }
    }

    /// Whether `count` more registers can be numbered.
    pub open spec fn has_room(self, count: usize) -> bool {
        self.code.reg_count + count <= usize::MAX
    }

    /// With a branch to `merge` appended where the block at the cursor has
    /// no terminator yet.
    pub open spec fn close_arm(self, merge: BlockRef) -> CompilerView {
        if self.needs_terminator() {
            self.emit(Inst::Branch(merge))
        } else {
            self
        }
    }

    /// With the instruction that returns `value`.
    pub open spec fn build_return(self, value: Operand) -> CompilerView {
        self.emit(Inst::Return(value))
    }

    /// With the instruction that returns the signal for the runtime error
    /// with the index `error_index`.
    pub open spec fn build_return_error(self, error_index: usize) -> CompilerView {
        self.build_return(
            Operand::Const { bits: RETURN_BITS, value: spec_encode_error(error_index) as i64 },
        )
    }

    /// With one more register and the instruction that `inst` makes for it.
    /// Gives the register. Nothing is built where the function has no
    /// register left.
    pub open spec fn build_value(self, inst: spec_fn(usize) -> Inst) -> (
        CompilerView,
        Result<Operand, LangError>,
    ) {
        if !self.has_room(1) {
            (self, Err(too_many_values()))
        } else {
            let dest = self.code.reg_count;
            (self.with_regs(1).emit(inst(dest)), Ok(Operand::Reg(dest)))
        }
    }

    /// With the comparison of `lhs` with `rhs`, which gives 1 or 0.
    pub open spec fn build_compare(self, pred: ComparisonToken, lhs: Operand, rhs: Operand) -> (
        CompilerView,
        Result<Operand, LangError>,
    ) {
        self.build_value(|dest: usize| Inst::Compare { pred, lhs, rhs, dest })
    }

    /// With the operation `op` on `lhs` and `rhs`.
    pub open spec fn build_binary(self, op: BinOp, lhs: Operand, rhs: Operand) -> (
        CompilerView,
        Result<Operand, LangError>,
    ) {
        self.build_value(|dest: usize| Inst::Binary { op, lhs, rhs, dest })
    }

    /// With the change `op` of the width of `value`.
    pub open spec fn build_cast(self, op: CastOp, value: Operand) -> (
        CompilerView,
        Result<Operand, LangError>,
    ) {
        self.build_value(|dest: usize| Inst::Cast { op, value, dest })
    }

    /// With the read of the variable slot `slot`.
    pub open spec fn build_load(self, slot: usize) -> (CompilerView, Result<Operand, LangError>) {
        self.build_value(|dest: usize| Inst::Load { slot, dest })
    }

    /// With the write of `value` into the variable slot `slot`.
    pub open spec fn build_store(self, slot: usize, value: Operand) -> CompilerView {
        self.emit(Inst::Store { slot, value })
    }

    /// With a conditional on `condition`: three new blocks `ifTrue`,
    /// `ifFalse` and `endIf`; at the cursor a switch that goes to `ifFalse`
    /// where `condition` is zero and to `ifTrue` where it is not; what
    /// `build_if_true` builds from `ifTrue` on and what `build_if_false`
    /// builds from `ifFalse` on, each followed by a branch to `endIf`
    /// unless it ends in a terminator; and the cursor at `endIf`. Where an
    /// arm fails, nothing is built after it.
    pub open spec fn build_conditional(
        self,
        condition: Operand,
        build_if_true: ArmFn,
        build_if_false: ArmFn,
    ) -> (CompilerView, Result<(), LangError>) {
        let (c1, if_true) = self.append_basic_block("ifTrue"@);
        let (c2, if_false) = c1.append_basic_block("ifFalse"@);
        let (c3, merge) = c2.append_basic_block("endIf"@);
        let c4 = c3.emit(
            Inst::Switch { value: condition, else_block: if_true, zero_block: if_false },
        );
        let (c5, r1) = build_if_true(c4.position_at_end(if_true));
        match r1 {
            Err(error) => (c5, Err(error)),
            Ok(_) => {
                let c6 = c5.close_arm(merge);
                let (c7, r2) = build_if_false(c6.position_at_end(if_false));
                match r2 {
                    Err(error) => (c7, Err(error)),
                    Ok(_) => (c7.close_arm(merge).position_at_end(merge), Ok(())),
                }
            },
        }
    }

    /// With the arithmetic operation `op` on `lhs` and `rhs` that reports
    /// overflow, and a conditional on its overflow flag that runs what
    /// `on_overflow` builds where the flag is set and goes straight on where
    /// it is not. Gives the register of the operation's result.
    pub open spec fn build_checked_int_arithmetic(
        self,
        lhs: Operand,
        rhs: Operand,
        op: CheckedOp,
        on_overflow: ArmFn,
    ) -> (CompilerView, Result<Operand, LangError>) {
        if !self.has_room(2) {
            (self, Err(too_many_values()))
        } else {
            let result = self.code.reg_count;
            let overflow = (result + 1) as usize;
            let c1 = self.with_regs(2).emit(Inst::CheckedArith { op, lhs, rhs, result, overflow });
            let (c2, r) = c1.build_conditional(Operand::Reg(overflow), on_overflow, nothing());
            match r {
                Err(error) => (c2, Err(error)),
                Ok(_) => (c2, Ok(Operand::Reg(result))),
            }
        }
    }

    /// With the second stage of the check of a division, which is reached
    /// where the divisor is not zero: the comparison of `lhs` with the
    /// smallest integer and of `rhs` with minus one, and a conditional that
    /// runs what `on_overflow` builds where both hold.
    pub open spec fn build_div_overflow_check(self, lhs: Operand, rhs: Operand, on_overflow: ArmFn) -> (
        CompilerView,
        Result<(), LangError>,
    ) {
        if !self.has_room(3) {
            (self, Err(too_many_values()))
        } else {
            let is_min = self.code.reg_count;
            let is_neg_one = (is_min + 1) as usize;
            let is_overflow = (is_min + 2) as usize;
            let c1 = self.with_regs(3).emit(
                Inst::Compare {
                    pred: ComparisonToken::Equal,
                    lhs,
                    rhs: min_int_value(),
                    dest: is_min,
                },
            ).emit(
                Inst::Compare {
                    pred: ComparisonToken::Equal,
                    lhs: rhs,
                    rhs: Operand::Const { bits: INT_BITS, value: -1i64 },
                    dest: is_neg_one,
                },
            ).emit(
                Inst::Binary {
                    op: BinOp::And,
                    lhs: Operand::Reg(is_min),
                    rhs: Operand::Reg(is_neg_one),
                    dest: is_overflow,
                },
            );
            c1.build_conditional(Operand::Reg(is_overflow), on_overflow, nothing())
        }
    }

    /// With the check of a division of `lhs` by `rhs`: a conditional that
    /// runs what `on_div_by_zero` builds where `rhs` is zero and, where it
    /// is not, the second stage, which runs what `on_overflow` builds where
    /// `lhs` is the smallest integer and `rhs` is minus one.
    pub open spec fn build_div_check(
        self,
        lhs: Operand,
        rhs: Operand,
        on_overflow: ArmFn,
        on_div_by_zero: ArmFn,
    ) -> (CompilerView, Result<(), LangError>) {
        if !self.has_room(1) {
            (self, Err(too_many_values()))
        } else {
            let is_div_by_zero = self.code.reg_count;
            let c1 = self.with_regs(1).emit(
                Inst::Compare {
                    pred: ComparisonToken::Equal,
                    lhs: rhs,
                    rhs: Operand::Const { bits: INT_BITS, value: 0i64 },
                    dest: is_div_by_zero,
                },
            );
            c1.build_conditional(
                Operand::Reg(is_div_by_zero),
                on_div_by_zero,
                div_overflow_check(lhs, rhs, on_overflow),
            )
        }
    }
}

/// The arm that builds nothing.
pub open spec fn nothing() -> ArmFn {
    |c: CompilerView| (c, Ok::<(), LangError>(()))
}

/// The arm that returns the signal for the runtime error with the index
/// `error_index`.
pub open spec fn trap(error_index: usize) -> ArmFn {
    |c: CompilerView| (c.build_return_error(error_index), Ok::<(), LangError>(()))
}

/// The arm that builds the second stage of the check of a division.
pub open spec fn div_overflow_check(lhs: Operand, rhs: Operand, on_overflow: ArmFn) -> ArmFn {
    |c: CompilerView| c.build_div_overflow_check(lhs, rhs, on_overflow)
}

/// The smallest integer of the language, as a constant.
pub open spec fn min_int_value() -> Operand {
    Operand::Const { bits: INT_BITS, value: MIN_INT }
}

} // verus!
