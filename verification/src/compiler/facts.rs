//! What holds of the code that the generator emits, whatever it is asked
//! to emit.
use crate::compiler::ir::{
    flag, step, BinOp, BlockRef, CheckedOp, CodeView, Inst, Machine, Operand, SlotView, Step,
};
use crate::compiler::model::{nothing, trap, ArmFn, CompilerView};
use crate::errors::LangError;
use crate::host::spec_encode_error;
use crate::lexer::ComparisonToken;
use crate::types::{INT_BITS, MIN_INT, RETURN_BITS};
use vstd::arithmetic::div_mod::{lemma_div_nonincreasing, lemma_div_pos_is_pos};
use vstd::prelude::*;

verus! {

/// A block that ends in the return of an error needs no terminator.
pub proof fn lemma_return_error_terminates(c: CompilerView, error_index: usize)
    requires
        c.wf(),
    ensures
        !c.build_return_error(error_index).needs_terminator(),
        c.build_return_error(error_index).current().insts == c.current().insts.push(
            Inst::Return(
                Operand::Const { bits: RETURN_BITS, value: spec_encode_error(error_index) as i64 },
            ),
        ),
{
}

/// A block needs a terminator exactly until a terminator is its last
/// instruction: it does after an instruction that is none, and it does not
/// after one that is.
pub proof fn lemma_needs_terminator_after_emit(c: CompilerView, inst: Inst)
    requires
        c.wf(),
    ensures
        c.emit(inst).needs_terminator() == !inst.is_terminator(),
{
}

/// After an arm of a conditional is closed its block ends in a terminator:
/// the arm's own where it had one, and else the branch to the merge block,
/// which is then appended and nothing else.
pub proof fn lemma_close_arm(c: CompilerView, merge: BlockRef)
    requires
        c.wf(),
    ensures
        !c.close_arm(merge).needs_terminator(),
        c.needs_terminator() ==> c.close_arm(merge) == c.emit(Inst::Branch(merge)),
        !c.needs_terminator() ==> c.close_arm(merge) == c,
{
}

/// The shape of a conditional whose first arm traps and whose second arm
/// goes straight on. The block at the cursor gets the switch; the block
/// `ifTrue` holds the return of the error and no branch; the block
/// `ifFalse` holds the branch to `endIf` and nothing else; `endIf` is empty
/// and the cursor stands at it, so it needs a terminator.
pub proof fn lemma_conditional_with_trap(c: CompilerView, condition: Operand, error_index: usize)
    requires
        c.wf(),
        c.code.blocks.len() + 3 <= usize::MAX,
    ensures
        ({
            let n = c.code.blocks.len() as int;
            let (after, result) = c.build_conditional(condition, trap(error_index), nothing());
            &&& result is Ok
            &&& after.code.blocks.len() == n + 3
            &&& after.code.blocks[c.cursor.0 as int].insts == c.current().insts.push(
                Inst::Switch {
                    value: condition,
                    else_block: BlockRef(n as usize),
                    zero_block: BlockRef((n + 1) as usize),
                },
            )
            &&& after.code.blocks[n].insts == seq![
                Inst::Return(
                    Operand::Const {
                        bits: RETURN_BITS,
                        value: spec_encode_error(error_index) as i64,
                    },
                ),
            ]
            &&& after.code.blocks[n + 1].insts == seq![Inst::Branch(BlockRef((n + 2) as usize))]
            &&& after.code.blocks[n + 2].insts == Seq::<Inst>::empty()
            &&& after.cursor == BlockRef((n + 2) as usize)
            &&& after.needs_terminator()
            &&& forall|b: int|
                0 <= b < n && b != c.cursor.0 ==> after.code.blocks[b] == c.code.blocks[b]
        }),
{
    let n = c.code.blocks.len() as int;
    let (c1, if_true) = c.append_basic_block("ifTrue"@);
    let (c2, if_false) = c1.append_basic_block("ifFalse"@);
    let (c3, merge) = c2.append_basic_block("endIf"@);
    let c4 = c3.emit(
        Inst::Switch { value: condition, else_block: if_true, zero_block: if_false },
    );
    let c5 = c4.position_at_end(if_true).build_return_error(error_index);
    assert(!c5.needs_terminator());
    let c6 = c5.close_arm(merge);
    assert(c6 == c5);
    let c7 = c6.position_at_end(if_false);
    assert(c7.needs_terminator());
    let c8 = c7.close_arm(merge);
    let after = c8.position_at_end(merge);
    assert(c.build_conditional(condition, trap(error_index), nothing()).0 == after);
    assert(after.code.blocks[n].insts =~= seq![
        Inst::Return(
            Operand::Const { bits: RETURN_BITS, value: spec_encode_error(error_index) as i64 },
        ),
    ]);
    assert(after.code.blocks[n + 1].insts =~= seq![Inst::Branch(BlockRef((n + 2) as usize))]);
    assert(after.code.blocks[n + 2].insts =~= Seq::<Inst>::empty());
}

/// The generator after it emitted, into a new function of two parameters,
/// the check of the division of the first parameter by the second, the
/// division itself and the return of the quotient.
pub open spec fn guarded_division(name: Seq<char>, overflow_index: usize, zero_index: usize) -> CompilerView {
    let c0 = CompilerView::begin(name, 2, Seq::empty());
    let c1 = c0.build_div_check(
        Operand::Param(0),
        Operand::Param(1),
        trap(overflow_index),
        trap(zero_index),
    ).0;
    let (c2, quotient) = c1.build_binary(BinOp::SDiv, Operand::Param(0), Operand::Param(1));
    c2.build_return(quotient->Ok_0)
}

/// The constant that signals the runtime error with the index
/// `error_index`.
pub open spec fn error_signal(error_index: usize) -> Operand {
    Operand::Const { bits: RETURN_BITS, value: spec_encode_error(error_index) as i64 }
}

/// The blocks that the guarded division consists of.
pub proof fn lemma_guarded_division_blocks(name: Seq<char>, overflow_index: usize, zero_index: usize)
    ensures
        ({
            let blocks = guarded_division(name, overflow_index, zero_index).code.blocks;
            &&& blocks.len() == 7
            &&& guarded_division(name, overflow_index, zero_index).code.reg_count == 5
            &&& guarded_division(name, overflow_index, zero_index).code.slots.len() == 0
            &&& blocks[0].insts == seq![
                Inst::Compare {
                    pred: ComparisonToken::Equal,
                    lhs: Operand::Param(1),
                    rhs: Operand::Const { bits: INT_BITS, value: 0 },
                    dest: 0,
                },
                Inst::Switch {
                    value: Operand::Reg(0),
                    else_block: BlockRef(1),
                    zero_block: BlockRef(2),
                },
            ]
            &&& blocks[1].insts == seq![Inst::Return(error_signal(zero_index))]
            &&& blocks[2].insts == seq![
                Inst::Compare {
                    pred: ComparisonToken::Equal,
                    lhs: Operand::Param(0),
                    rhs: Operand::Const { bits: INT_BITS, value: MIN_INT },
                    dest: 1,
                },
                Inst::Compare {
                    pred: ComparisonToken::Equal,
                    lhs: Operand::Param(1),
                    rhs: Operand::Const { bits: INT_BITS, value: -1i64 },
                    dest: 2,
                },
                Inst::Binary {
                    op: BinOp::And,
                    lhs: Operand::Reg(1),
                    rhs: Operand::Reg(2),
                    dest: 3,
                },
                Inst::Switch {
                    value: Operand::Reg(3),
                    else_block: BlockRef(4),
                    zero_block: BlockRef(5),
                },
            ]
            &&& blocks[3].insts == seq![
                Inst::Binary {
                    op: BinOp::SDiv,
                    lhs: Operand::Param(0),
                    rhs: Operand::Param(1),
                    dest: 4,
                },
                Inst::Return(Operand::Reg(4)),
            ]
            &&& blocks[4].insts == seq![Inst::Return(error_signal(overflow_index))]
            &&& blocks[5].insts == seq![Inst::Branch(BlockRef(6))]
            &&& blocks[6].insts == seq![Inst::Branch(BlockRef(3))]
        }),
{
    let c0 = CompilerView::begin(name, 2, Seq::empty());
    let a0 = c0.with_regs(1).emit(
        Inst::Compare {
            pred: ComparisonToken::Equal,
            lhs: Operand::Param(1),
            rhs: Operand::Const { bits: INT_BITS, value: 0 },
            dest: 0,
        },
    );
    // The outer conditional.
    let (a1, if_true) = a0.append_basic_block("ifTrue"@);
    let (a2, if_false) = a1.append_basic_block("ifFalse"@);
    let (a3, merge) = a2.append_basic_block("endIf"@);
    let a4 = a3.emit(
        Inst::Switch { value: Operand::Reg(0), else_block: if_true, zero_block: if_false },
    );
    let a5 = a4.position_at_end(if_true).build_return_error(zero_index);
    assert(!a5.needs_terminator());
    let a6 = a5.close_arm(merge).position_at_end(if_false);
    // The second stage, in the false arm.
    let b0 = a6.with_regs(3).emit(
        Inst::Compare {
            pred: ComparisonToken::Equal,
            lhs: Operand::Param(0),
            rhs: Operand::Const { bits: INT_BITS, value: MIN_INT },
            dest: 1,
        },
    ).emit(
        Inst::Compare {
            pred: ComparisonToken::Equal,
            lhs: Operand::Param(1),
            rhs: Operand::Const { bits: INT_BITS, value: -1i64 },
            dest: 2,
        },
    ).emit(
        Inst::Binary { op: BinOp::And, lhs: Operand::Reg(1), rhs: Operand::Reg(2), dest: 3 },
    );
    lemma_conditional_with_trap(b0, Operand::Reg(3), overflow_index);
    let b1 = b0.build_conditional(Operand::Reg(3), trap(overflow_index), nothing()).0;
    assert(a6.build_div_overflow_check(
        Operand::Param(0),
        Operand::Param(1),
        trap(overflow_index),
    ) == (b1, Ok::<(), LangError>(())));
    assert(b1.needs_terminator());
    let a7 = b1.close_arm(merge).position_at_end(merge);
    let c1 = c0.build_div_check(
        Operand::Param(0),
        Operand::Param(1),
        trap(overflow_index),
        trap(zero_index),
    ).0;
    assert(c1 == a7);
    let done = guarded_division(name, overflow_index, zero_index);
    let blocks = done.code.blocks;
    assert(blocks.len() == 7);
    assert(blocks[0].insts =~= seq![
        Inst::Compare {
            pred: ComparisonToken::Equal,
            lhs: Operand::Param(1),
            rhs: Operand::Const { bits: INT_BITS, value: 0 },
            dest: 0,
        },
        Inst::Switch { value: Operand::Reg(0), else_block: BlockRef(1), zero_block: BlockRef(2) },
    ]);
    assert(blocks[1].insts =~= seq![Inst::Return(error_signal(zero_index))]);
    assert(blocks[2].insts =~= seq![
        Inst::Compare {
            pred: ComparisonToken::Equal,
            lhs: Operand::Param(0),
            rhs: Operand::Const { bits: INT_BITS, value: MIN_INT },
            dest: 1,
        },
        Inst::Compare {
            pred: ComparisonToken::Equal,
            lhs: Operand::Param(1),
            rhs: Operand::Const { bits: INT_BITS, value: -1i64 },
            dest: 2,
        },
        Inst::Binary { op: BinOp::And, lhs: Operand::Reg(1), rhs: Operand::Reg(2), dest: 3 },
        Inst::Switch { value: Operand::Reg(3), else_block: BlockRef(4), zero_block: BlockRef(5) },
    ]);
    assert(blocks[3].insts =~= seq![
        Inst::Binary { op: BinOp::SDiv, lhs: Operand::Param(0), rhs: Operand::Param(1), dest: 4 },
        Inst::Return(Operand::Reg(4)),
    ]);
    assert(blocks[4].insts =~= seq![Inst::Return(error_signal(overflow_index))]);
    assert(blocks[5].insts =~= seq![Inst::Branch(BlockRef(6))]);
    assert(blocks[6].insts =~= seq![Inst::Branch(BlockRef(3))]);
}

/// The bitwise and of two flags is the flag of both.
pub proof fn lemma_and_of_flags(p: bool, q: bool)
    ensures
        flag(p) & flag(q) == flag(p && q),
{
    assert(0i64 & 0i64 == 0i64) by (bit_vector);
    assert(0i64 & 1i64 == 0i64) by (bit_vector);
    assert(1i64 & 0i64 == 0i64) by (bit_vector);
    assert(1i64 & 1i64 == 1i64) by (bit_vector);
}

/// What the guarded division returns, for every dividend `a` and divisor
/// `b`: the signal of the error point for division by zero where `b` is
/// zero; the signal of the error point for overflow where `a` is the
/// smallest integer and `b` is minus one; and else what the division
/// instruction gives, which is reached on no other path.
pub proof fn lemma_guarded_division_runs(
    name: Seq<char>,
    overflow_index: usize,
    zero_index: usize,
    a: i64,
    b: i64,
)
    ensures
        guarded_division(name, overflow_index, zero_index).code.run(seq![a, b]) == (if b == 0 {
            Some(spec_encode_error(zero_index) as i64)
        } else if a == MIN_INT && b == -1 {
            Some(spec_encode_error(overflow_index) as i64)
        } else {
            a.checked_div(b)
        }),
{
    lemma_guarded_division_blocks(name, overflow_index, zero_index);
    let code = guarded_division(name, overflow_index, zero_index).code;
    let params = seq![a, b];
    let m0 = code.start();
    assert(m0.regs.len() == 5);
    let m1 = Machine { regs: m0.regs.update(0, Some(flag(b == 0))), slots: m0.slots };
    assert(step(code.blocks[0].insts[0], params, m0) == Step::Next(m1));
    assert(code.run_from(params, 0, 0, m0, 7) == code.run_from(params, 0, 1, m1, 7));
    if b == 0 {
        assert(step(code.blocks[0].insts[1], params, m1) == Step::Jump(BlockRef(1)));
        assert(code.run_from(params, 0, 1, m1, 7) == code.run_from(params, 1, 0, m1, 6));
        assert(step(code.blocks[1].insts[0], params, m1) == Step::Return(
            spec_encode_error(zero_index) as i64,
        ));
    } else {
        assert(step(code.blocks[0].insts[1], params, m1) == Step::Jump(BlockRef(2)));
        assert(code.run_from(params, 0, 1, m1, 7) == code.run_from(params, 2, 0, m1, 6));
        let m2 = Machine { regs: m1.regs.update(1, Some(flag(a == MIN_INT))), slots: m1.slots };
        assert(step(code.blocks[2].insts[0], params, m1) == Step::Next(m2));
        assert(code.run_from(params, 2, 0, m1, 6) == code.run_from(params, 2, 1, m2, 6));
        let m3 = Machine { regs: m2.regs.update(2, Some(flag(b == -1))), slots: m2.slots };
        assert(step(code.blocks[2].insts[1], params, m2) == Step::Next(m3));
        assert(code.run_from(params, 2, 1, m2, 6) == code.run_from(params, 2, 2, m3, 6));
        lemma_and_of_flags(a == MIN_INT, b == -1);
        let m4 = Machine {
            regs: m3.regs.update(3, Some(flag(a == MIN_INT && b == -1))),
            slots: m3.slots,
        };
        assert(step(code.blocks[2].insts[2], params, m3) == Step::Next(m4));
        assert(code.run_from(params, 2, 2, m3, 6) == code.run_from(params, 2, 3, m4, 6));
        if a == MIN_INT && b == -1 {
            assert(step(code.blocks[2].insts[3], params, m4) == Step::Jump(BlockRef(4)));
            assert(code.run_from(params, 2, 3, m4, 6) == code.run_from(params, 4, 0, m4, 5));
            assert(step(code.blocks[4].insts[0], params, m4) == Step::Return(
                spec_encode_error(overflow_index) as i64,
            ));
        } else {
            assert(step(code.blocks[2].insts[3], params, m4) == Step::Jump(BlockRef(5)));
            assert(code.run_from(params, 2, 3, m4, 6) == code.run_from(params, 5, 0, m4, 5));
            assert(step(code.blocks[5].insts[0], params, m4) == Step::Jump(BlockRef(6)));
            assert(code.run_from(params, 5, 0, m4, 5) == code.run_from(params, 6, 0, m4, 4));
            assert(step(code.blocks[6].insts[0], params, m4) == Step::Jump(BlockRef(3)));
            assert(code.run_from(params, 6, 0, m4, 4) == code.run_from(params, 3, 0, m4, 3));
            match a.checked_div(b) {
                Some(q) => {
                    let m5 = Machine { regs: m4.regs.update(4, Some(q)), slots: m4.slots };
                    assert(step(code.blocks[3].insts[0], params, m4) == Step::Next(m5));
                    assert(code.run_from(params, 3, 0, m4, 3) == code.run_from(
                        params,
                        3,
                        1,
                        m5,
                        3,
                    ));
                    assert(step(code.blocks[3].insts[1], params, m5) == Step::Return(q));
                },
                None => {
                    assert(step(code.blocks[3].insts[0], params, m4) == Step::Stuck);
                },
            }
        }
    }
}

/// A division that passes both checks has a quotient: the division
/// instruction is never stuck on the path that the checks let through.
pub proof fn lemma_checked_division_has_quotient(a: i64, b: i64)
    requires
        b != 0,
        !(a == MIN_INT && b == -1),
    ensures
        a.checked_div(b) is Some,
{
    let x = a as int;
    let d = b as int;
    if x > 0 && d > 0 {
        lemma_div_pos_is_pos(x, d);
        lemma_div_nonincreasing(x, d);
    } else if x < 0 && d < 0 {
        lemma_div_pos_is_pos(x * -1, d * -1);
        lemma_div_nonincreasing(x * -1, d * -1);
        if d == -1 {
            assert((x * -1) / 1 == x * -1);
        } else {
            assert(d * -1 >= 2);
            lemma_div_upper_half(x * -1, d * -1);
        }
    } else if x < 0 {
        lemma_div_pos_is_pos(x * -1, d);
        lemma_div_nonincreasing(x * -1, d);
    } else if x > 0 {
        lemma_div_pos_is_pos(x, d * -1);
        lemma_div_nonincreasing(x, d * -1);
    }
}

/// A quotient by two or more is smaller than its positive dividend.
proof fn lemma_div_upper_half(x: int, d: int)
    requires
        0 < x,
        2 <= d,
    ensures
        x / d < x,
{
    vstd::arithmetic::div_mod::lemma_div_decreases(x, d);
}

/// The generator after it emitted, into a new function of two parameters,
/// the checked operation `op` on the parameters and the return of its
/// result.
pub open spec fn checked_operation(name: Seq<char>, op: CheckedOp, overflow_index: usize) -> CompilerView {
    let c0 = CompilerView::begin(name, 2, Seq::empty());
    let (c1, result) = c0.build_checked_int_arithmetic(
        Operand::Param(0),
        Operand::Param(1),
        op,
        trap(overflow_index),
    );
    c1.build_return(result->Ok_0)
}

/// The blocks that the checked operation consists of.
pub proof fn lemma_checked_operation_blocks(name: Seq<char>, op: CheckedOp, overflow_index: usize)
    ensures
        ({
            let code = checked_operation(name, op, overflow_index).code;
            &&& code.blocks.len() == 4
            &&& code.reg_count == 2
            &&& code.slots.len() == 0
            &&& code.blocks[0].insts == seq![
                Inst::CheckedArith {
                    op,
                    lhs: Operand::Param(0),
                    rhs: Operand::Param(1),
                    result: 0,
                    overflow: 1,
                },
                Inst::Switch {
                    value: Operand::Reg(1),
                    else_block: BlockRef(1),
                    zero_block: BlockRef(2),
                },
            ]
            &&& code.blocks[1].insts == seq![Inst::Return(error_signal(overflow_index))]
            &&& code.blocks[2].insts == seq![Inst::Branch(BlockRef(3))]
            &&& code.blocks[3].insts == seq![Inst::Return(Operand::Reg(0))]
        }),
{
    let c0 = CompilerView::begin(name, 2, Seq::empty());
    let c1 = c0.with_regs(2).emit(
        Inst::CheckedArith {
            op,
            lhs: Operand::Param(0),
            rhs: Operand::Param(1),
            result: 0,
            overflow: 1,
        },
    );
    lemma_conditional_with_trap(c1, Operand::Reg(1), overflow_index);
    let code = checked_operation(name, op, overflow_index).code;
    assert(code.blocks[0].insts =~= seq![
        Inst::CheckedArith {
            op,
            lhs: Operand::Param(0),
            rhs: Operand::Param(1),
            result: 0,
            overflow: 1,
        },
        Inst::Switch { value: Operand::Reg(1), else_block: BlockRef(1), zero_block: BlockRef(2) },
    ]);
    assert(code.blocks[1].insts =~= seq![Inst::Return(error_signal(overflow_index))]);
    assert(code.blocks[2].insts =~= seq![Inst::Branch(BlockRef(3))]);
    assert(code.blocks[3].insts =~= seq![Inst::Return(Operand::Reg(0))]);
}

/// What the checked operation returns, for all operands `a` and `b`: the
/// signal of the error point for overflow where the exact result leaves
/// the range of the integers, and never a wrapped result; and else the
/// exact result.
pub proof fn lemma_checked_operation_runs(
    name: Seq<char>,
    op: CheckedOp,
    overflow_index: usize,
    a: i64,
    b: i64,
)
    ensures
        checked_operation(name, op, overflow_index).code.run(seq![a, b]) == Some(
            if op.apply(a, b).1 {
                spec_encode_error(overflow_index) as i64
            } else {
                op.apply(a, b).0
            },
        ),
{
    lemma_checked_operation_blocks(name, op, overflow_index);
    let code = checked_operation(name, op, overflow_index).code;
    let params = seq![a, b];
    let m0 = code.start();
    assert(m0.regs.len() == 2);
    let value = op.apply(a, b).0;
    let overflowed = op.apply(a, b).1;
    let m1 = Machine {
        regs: m0.regs.update(0, Some(value)).update(1, Some(flag(overflowed))),
        slots: m0.slots,
    };
    assert(step(code.blocks[0].insts[0], params, m0) == Step::Next(m1));
    assert(code.run_from(params, 0, 0, m0, 4) == code.run_from(params, 0, 1, m1, 4));
    if overflowed {
        assert(step(code.blocks[0].insts[1], params, m1) == Step::Jump(BlockRef(1)));
        assert(code.run_from(params, 0, 1, m1, 4) == code.run_from(params, 1, 0, m1, 3));
        assert(step(code.blocks[1].insts[0], params, m1) == Step::Return(
            spec_encode_error(overflow_index) as i64,
        ));
    } else {
        assert(step(code.blocks[0].insts[1], params, m1) == Step::Jump(BlockRef(2)));
        assert(code.run_from(params, 0, 1, m1, 4) == code.run_from(params, 2, 0, m1, 3));
        assert(step(code.blocks[2].insts[0], params, m1) == Step::Jump(BlockRef(3)));
        assert(code.run_from(params, 2, 0, m1, 3) == code.run_from(params, 3, 0, m1, 2));
        assert(step(code.blocks[3].insts[0], params, m1) == Step::Return(value));
    }
}

/// The arm that writes the integer `value` into the variable slot `slot`.
pub open spec fn store(slot: usize, value: i64) -> ArmFn {
    |c: CompilerView|
        (c.build_store(slot, Operand::Const { bits: INT_BITS, value }), Ok::<(), LangError>(()))
}

/// The generator after it emitted, into a new function of one parameter and
/// two integer variables, a conditional on the parameter whose first arm
/// writes 1 into the first variable and whose second arm writes 2 into the
/// second, and then the return of the bitwise or of the two variables.
pub open spec fn two_armed(name: Seq<char>, first: SlotView, second: SlotView) -> CompilerView {
    let c0 = CompilerView::begin(name, 1, seq![first, second]);
    let c1 = c0.build_conditional(Operand::Param(0), store(0, 1), store(1, 2)).0;
    let (c2, x) = c1.build_load(0);
    let (c3, y) = c2.build_load(1);
    let (c4, both) = c3.build_binary(BinOp::Or, x->Ok_0, y->Ok_0);
    c4.build_return(both->Ok_0)
}

/// The blocks that the conditional with two writing arms consists of.
pub proof fn lemma_two_armed_blocks(name: Seq<char>, first: SlotView, second: SlotView)
    ensures
        ({
            let code = two_armed(name, first, second).code;
            &&& code.blocks.len() == 4
            &&& code.reg_count == 3
            &&& code.slots.len() == 2
            &&& code.blocks[0].insts == seq![
                Inst::Switch {
                    value: Operand::Param(0),
                    else_block: BlockRef(1),
                    zero_block: BlockRef(2),
                },
            ]
            &&& code.blocks[1].insts == seq![
                Inst::Store { slot: 0, value: Operand::Const { bits: INT_BITS, value: 1 } },
                Inst::Branch(BlockRef(3)),
            ]
            &&& code.blocks[2].insts == seq![
                Inst::Store { slot: 1, value: Operand::Const { bits: INT_BITS, value: 2 } },
                Inst::Branch(BlockRef(3)),
            ]
            &&& code.blocks[3].insts == seq![
                Inst::Load { slot: 0, dest: 0 },
                Inst::Load { slot: 1, dest: 1 },
                Inst::Binary {
                    op: BinOp::Or,
                    lhs: Operand::Reg(0),
                    rhs: Operand::Reg(1),
                    dest: 2,
                },
                Inst::Return(Operand::Reg(2)),
            ]
        }),
{
    let c0 = CompilerView::begin(name, 1, seq![first, second]);
    let (a1, if_true) = c0.append_basic_block("ifTrue"@);
    let (a2, if_false) = a1.append_basic_block("ifFalse"@);
    let (a3, merge) = a2.append_basic_block("endIf"@);
    let a4 = a3.emit(
        Inst::Switch { value: Operand::Param(0), else_block: if_true, zero_block: if_false },
    );
    let a5 = a4.position_at_end(if_true).build_store(
        0,
        Operand::Const { bits: INT_BITS, value: 1 },
    );
    assert(a5.needs_terminator());
    let a6 = a5.close_arm(merge).position_at_end(if_false).build_store(
        1,
        Operand::Const { bits: INT_BITS, value: 2 },
    );
    assert(a6.needs_terminator());
    let a7 = a6.close_arm(merge).position_at_end(merge);
    assert(c0.build_conditional(Operand::Param(0), store(0, 1), store(1, 2)).0 == a7);
    let code = two_armed(name, first, second).code;
    assert(code.blocks[0].insts =~= seq![
        Inst::Switch { value: Operand::Param(0), else_block: BlockRef(1), zero_block: BlockRef(2) },
    ]);
    assert(code.blocks[1].insts =~= seq![
        Inst::Store { slot: 0, value: Operand::Const { bits: INT_BITS, value: 1 } },
        Inst::Branch(BlockRef(3)),
    ]);
    assert(code.blocks[2].insts =~= seq![
        Inst::Store { slot: 1, value: Operand::Const { bits: INT_BITS, value: 2 } },
        Inst::Branch(BlockRef(3)),
    ]);
    assert(code.blocks[3].insts =~= seq![
        Inst::Load { slot: 0, dest: 0 },
        Inst::Load { slot: 1, dest: 1 },
        Inst::Binary { op: BinOp::Or, lhs: Operand::Reg(0), rhs: Operand::Reg(1), dest: 2 },
        Inst::Return(Operand::Reg(2)),
    ]);
}

/// What follows the two arms: the read of both variables and the return of
/// their bitwise or.
proof fn lemma_two_armed_merge(code: CodeView, params: Seq<i64>, m: Machine, fuel: nat)
    requires
        code.blocks.len() == 4,
        code.blocks[3].insts == seq![
            Inst::Load { slot: 0, dest: 0 },
            Inst::Load { slot: 1, dest: 1 },
            Inst::Binary { op: BinOp::Or, lhs: Operand::Reg(0), rhs: Operand::Reg(1), dest: 2 },
            Inst::Return(Operand::Reg(2)),
        ],
        m.regs.len() == 3,
        m.slots.len() == 2,
    ensures
        code.run_from(params, 3, 0, m, fuel) == Some(m.slots[0] | m.slots[1]),
{
    let x = m.slots[0];
    let y = m.slots[1];
    let m2 = Machine { regs: m.regs.update(0, Some(x)), slots: m.slots };
    assert(step(code.blocks[3].insts[0], params, m) == Step::Next(m2));
    assert(code.run_from(params, 3, 0, m, fuel) == code.run_from(params, 3, 1, m2, fuel));
    let m3 = Machine { regs: m2.regs.update(1, Some(y)), slots: m2.slots };
    assert(step(code.blocks[3].insts[1], params, m2) == Step::Next(m3));
    assert(code.run_from(params, 3, 1, m2, fuel) == code.run_from(params, 3, 2, m3, fuel));
    let m4 = Machine { regs: m3.regs.update(2, Some(x | y)), slots: m3.slots };
    assert(step(code.blocks[3].insts[2], params, m3) == Step::Next(m4));
    assert(code.run_from(params, 3, 2, m3, fuel) == code.run_from(params, 3, 3, m4, fuel));
    assert(step(code.blocks[3].insts[3], params, m4) == Step::Return(x | y));
}

/// Of the two arms of a conditional exactly one runs, for every value of
/// the condition: where the condition is not zero, what the first arm
/// wrote is seen after the conditional and the second arm wrote nothing;
/// where it is zero, it is the other way round.
pub proof fn lemma_two_armed_runs(name: Seq<char>, first: SlotView, second: SlotView, condition: i64)
    ensures
        two_armed(name, first, second).code.run(seq![condition]) == Some(
            if condition != 0 {
                1i64
            } else {
                2i64
            },
        ),
{
    lemma_two_armed_blocks(name, first, second);
    let code = two_armed(name, first, second).code;
    let params = seq![condition];
    let m0 = code.start();
    assert(m0.regs.len() == 3);
    assert(m0.slots.len() == 2);
    assert(1i64 | 0i64 == 1i64) by (bit_vector);
    assert(0i64 | 2i64 == 2i64) by (bit_vector);
    if condition != 0 {
        assert(step(code.blocks[0].insts[0], params, m0) == Step::Jump(BlockRef(1)));
        assert(code.run_from(params, 0, 0, m0, 4) == code.run_from(params, 1, 0, m0, 3));
        let m1 = Machine { regs: m0.regs, slots: m0.slots.update(0, 1i64) };
        assert(step(code.blocks[1].insts[0], params, m0) == Step::Next(m1));
        assert(code.run_from(params, 1, 0, m0, 3) == code.run_from(params, 1, 1, m1, 3));
        assert(step(code.blocks[1].insts[1], params, m1) == Step::Jump(BlockRef(3)));
        assert(code.run_from(params, 1, 1, m1, 3) == code.run_from(params, 3, 0, m1, 2));
        lemma_two_armed_merge(code, params, m1, 2);
    } else {
        assert(step(code.blocks[0].insts[0], params, m0) == Step::Jump(BlockRef(2)));
        assert(code.run_from(params, 0, 0, m0, 4) == code.run_from(params, 2, 0, m0, 3));
        let m1 = Machine { regs: m0.regs, slots: m0.slots.update(1, 2i64) };
        assert(step(code.blocks[2].insts[0], params, m0) == Step::Next(m1));
        assert(code.run_from(params, 2, 0, m0, 3) == code.run_from(params, 2, 1, m1, 3));
        assert(step(code.blocks[2].insts[1], params, m1) == Step::Jump(BlockRef(3)));
        assert(code.run_from(params, 2, 1, m1, 3) == code.run_from(params, 3, 0, m1, 2));
        lemma_two_armed_merge(code, params, m1, 2);
    }
}

} // verus!
