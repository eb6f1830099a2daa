//! The generated code computes what the program means: it returns what the
//! program returns, and it ends with the signal of the error point that the
//! program ends with.
use crate::ast::compile_model::{checked_op, find_slot, is_shift, plain_op, state_limit};
use crate::ast::const_eval::chain_holds;
use crate::ast::model::{ExprView, FunctionView, UserFunctionView};
use crate::ast::semantics::{eval_binary_int_op, Flow};
use crate::ast::userfunc::ErrorPointRef;
use crate::compiler::facts::lemma_checked_division_has_quotient;
use crate::compiler::facts::lemma_and_of_flags;
use crate::compiler::ir::{
    flag, operand_value, step, BinOp, CastOp, CheckedOp, CodeView, Inst, Machine, Operand,
    SlotView, Step,
};
use crate::compiler::value::Value;
use crate::lexer::ComparisonToken;
use crate::types::{Type, INT_BITS};
use crate::compiler::model::{trap, CompilerView};
use crate::ast::model::StatementView;
use crate::ast::userfunc::StatementRef;
use crate::compiler::running::{
    gives, lemma_arrives_then_gives, lemma_build_value_extends, lemma_checks_extend,
    lemma_close_arm_stands, lemma_code_extends_refl, lemma_conditional_extends,
    lemma_conditional_never_shrinks, lemma_conditional_parts, lemma_conditional_runs,
    lemma_conditional_shape, lemma_emitted_stands, lemma_lands_then_leaves,
    lemma_open_conditional, lemma_step_next, lemma_step_return, lemma_steps_extend_any,
    never_shrinks,
};
use crate::compiler::running::{
    code_extends, defined_below, fits, grows, kept_below, lands, lemma_arrives_at_itself,
    lemma_checked_runs, lemma_code_extends_trans, lemma_div_check_runs, lemma_grows_emit,
    leaves, lemma_grows_refl, lemma_grows_trans, lemma_lands_trans, lemma_operand_kept,
    lemma_range_check_runs, lemma_value_runs, passes, traps, yields,
};
use crate::errors::Span;
use crate::host::spec_encode_error;
use crate::lexer::OperatorToken;
use crate::types::MIN_INT;
use vstd::arithmetic::div_mod::lemma_mod_bound;
use vstd::prelude::*;

verus! {

/// Whether `code` is a code that holds what the generator `c` has emitted,
/// and `m` a machine of that code.
pub open spec fn ready(code: CodeView, c: CompilerView, m: Machine) -> bool {
    &&& code.blocks.len() <= usize::MAX
    &&& code.slots.len() <= usize::MAX
    &&& code_extends(c.code, code)
    &&& fits(code, m)
}

/// A slot that is found stands in the table under its name.
pub proof fn lemma_find_slot(slots: Seq<SlotView>, name: Seq<char>, from: int)
    requires
        0 <= from,
        slots.len() <= usize::MAX,
    ensures
        find_slot(slots, name, from) matches Some(slot) ==> from <= slot < slots.len()
            && slots[slot as int].name == name,
    decreases slots.len() - from,
{
    if from < slots.len() && slots[from].name != name {
        lemma_find_slot(slots, name, from + 1);
    }
}

/// A remainder that passes both checks of a division has a value.
pub proof fn lemma_checked_remainder_has_value(a: i64, b: i64)
    requires
        b != 0,
        !(a == MIN_INT && b == -1),
    ensures
        a.checked_rem(b) is Some,
{
    let x = a as int;
    let d = b as int;
    if x > 0 && d > 0 {
        lemma_mod_bound(x, d);
    } else if x < 0 && d < 0 {
        lemma_mod_bound(x * -1, d * -1);
    } else if x < 0 {
        lemma_mod_bound(x * -1, d);
    } else if x > 0 {
        lemma_mod_bound(x, d * -1);
    }
}

/// A cell state is the integer that it was converted from.
pub proof fn lemma_cell_state_of(a: i64)
    requires
        0 <= a < 256,
    ensures
        (a as u8) as i64 == a,
{
    assert(0 <= a < 256 ==> (a as u8) as i64 == a) by (bit_vector);
}

/// Nothing yields the value that an operand has.
pub proof fn lemma_yields_at_once(
    code: CodeView,
    params: Seq<i64>,
    c: CompilerView,
    m: Machine,
    operand: Operand,
    value: i64,
)
    requires
        c.wf(),
        operand_value(operand, params, m.regs) == Some(value),
    ensures
        grows(c, c),
        yields(code, params, c, c, m, operand, value),
        passes(code, params, c, c, m),
{
    lemma_grows_refl(c);
    lemma_arrives_at_itself(code, params, c.cursor.0 as int, c.here(), m);
    assert(lands(code, params, c, c, m, m, 0));
}

/// An instruction that writes a value into a new register, after a piece
/// of code that passes, yields the value.
pub proof fn lemma_passes_then_value(
    c: CompilerView,
    c1: CompilerView,
    inst: Inst,
    code: CodeView,
    params: Seq<i64>,
    m: Machine,
    value: i64,
)
    requires
        grows(c, c1),
        c1.has_room(1),
        passes(code, params, c, c1, m),
        ready(code, c1.with_regs(1).emit(inst), m),
        forall|m1: Machine|
            kept_below(m, m1, c.code.reg_count as int) && m1.slots == m.slots
                ==> #[trigger] step(inst, params, m1) == Step::Next(
                Machine {
                    regs: m1.regs.update(c1.code.reg_count as int, Some(value)),
                    slots: m1.slots,
                },
            ),
    ensures
        grows(c, c1.with_regs(1).emit(inst)),
        yields(
            code,
            params,
            c,
            c1.with_regs(1).emit(inst),
            m,
            Operand::Reg(c1.code.reg_count),
            value,
        ),
        c1.with_regs(1).emit(inst).needs_terminator() == !inst.is_terminator(),
        c1.with_regs(1).emit(inst).code.reg_count == c1.code.reg_count + 1,
{
    let c2 = c1.with_regs(1).emit(inst);
    let (m1, j) = choose|m1: Machine, j: nat| #[trigger]
        lands(code, params, c, c1, m, m1, j) && m1.slots == m.slots;
    assert(step(inst, params, m1) == Step::Next(
        Machine { regs: m1.regs.update(c1.code.reg_count as int, Some(value)), slots: m1.slots },
    ));
    lemma_value_runs(c1, inst, code, params, m1, value);
    let m2 = Machine {
        regs: m1.regs.update(c1.code.reg_count as int, Some(value)),
        slots: m1.slots,
    };
    lemma_grows_trans(c, c1, c2);
    lemma_lands_trans(code, params, c, c1, c2, m, m1, j, m2, 0);
    assert(lands(code, params, c, c2, m, m2, j));
}

/// A trap in a piece of code is a trap in every piece that starts with it.
pub proof fn lemma_traps_early(
    code: CodeView,
    params: Seq<i64>,
    a: CompilerView,
    b: CompilerView,
    c: CompilerView,
    m: Machine,
    error_index: usize,
)
    requires
        grows(a, b),
        grows(b, c),
        traps(code, params, a, b, m, error_index),
    ensures
        traps(code, params, a, c, m, error_index),
{
    let j = choose|j: nat| #[trigger]
        leaves(
            code,
            params,
            a,
            b,
            m,
            spec_encode_error(error_index) as i64,
            j,
        );
    assert(leaves(
        code,
        params,
        a,
        c,
        m,
        spec_encode_error(error_index) as i64,
        j,
    ));
}

/// How the code of an operation on two integers runs, where it stands in
/// a larger code: it yields the value of the operation, or it traps to the
/// error point that the operation ends with.
pub proof fn lemma_binary_int_op_runs(
    c: CompilerView,
    span: Span,
    op: OperatorToken,
    overflow_error: Option<ErrorPointRef>,
    div_by_zero_error: Option<ErrorPointRef>,
    lhs: Operand,
    rhs: Operand,
    code: CodeView,
    params: Seq<i64>,
    m: Machine,
    a: i64,
    b: i64,
)
    requires
        c.wf(),
        c.build_binary_int_op(span, op, overflow_error, div_by_zero_error, lhs, rhs).1 is Ok,
        ready(
            code,
            c.build_binary_int_op(span, op, overflow_error, div_by_zero_error, lhs, rhs).0,
            m,
        ),
        defined_below(lhs, c.code.reg_count as int),
        defined_below(rhs, c.code.reg_count as int),
        operand_value(lhs, params, m.regs) == Some(a),
        operand_value(rhs, params, m.regs) == Some(b),
    ensures
        ({
            let (c2, result) = c.build_binary_int_op(
                span,
                op,
                overflow_error,
                div_by_zero_error,
                lhs,
                rhs,
            );
            &&& grows(c, c2)
            &&& defined_below(result->Ok_0, c2.code.reg_count as int)
            &&& match eval_binary_int_op(op, overflow_error, div_by_zero_error, a, b) {
                Ok(x) => yields(code, params, c, c2, m, result->Ok_0, x),
                Err(k) => traps(code, params, c, c2, m, k),
            }
        }),
{
    let (c2, result) = c.build_binary_int_op(span, op, overflow_error, div_by_zero_error, lhs, rhs);
    let r = c.code.reg_count;
    lemma_yields_at_once(code, params, c, m, lhs, a);
    if op == OperatorToken::Ampersand || op == OperatorToken::Pipe {
        let bin = plain_op(op)->Some_0;
        let inst = Inst::Binary { op: bin, lhs, rhs, dest: r };
        assert forall|m1: Machine|
            kept_below(m, m1, r as int) && m1.slots == m.slots implies #[trigger] step(
            inst,
            params,
            m1,
        ) == Step::Next(
            Machine {
                regs: m1.regs.update(r as int, Some(bin.apply(a, b)->Some_0)),
                slots: m1.slots,
            },
        ) by {
            lemma_operand_kept(lhs, params, m, m1, r as int);
            lemma_operand_kept(rhs, params, m, m1, r as int);
        }
        lemma_passes_then_value(c, c, inst, code, params, m, bin.apply(a, b)->Some_0);
    } else {
        let overflow = overflow_error->Some_0;
        if checked_op(op) is Some {
            lemma_checked_runs(
                c,
                lhs,
                rhs,
                checked_op(op)->Some_0,
                overflow.idx,
                code,
                params,
                m,
                a,
                b,
            );
        } else if is_shift(op) {
            let bin = plain_op(op)->Some_0;
            let (c1, r1) = c.build_range_check(rhs, 64, trap(overflow.idx));
            let inst = Inst::Binary { op: bin, lhs, rhs, dest: c1.code.reg_count };
            lemma_grows_emit(c1);
            lemma_grows_emit(c1.with_regs(1));
            lemma_code_extends_trans(c1.code, c1.with_regs(1).code, c2.code);
            lemma_code_extends_trans(c1.code, c2.code, code);
            lemma_range_check_runs(c, rhs, 64, overflow.idx, code, params, m, b);
            lemma_grows_trans(c1, c1.with_regs(1), c2);
            if 0 <= b < 64 {
                assert forall|m1: Machine|
                    kept_below(m, m1, r as int) && m1.slots == m.slots implies #[trigger] step(
                    inst,
                    params,
                    m1,
                ) == Step::Next(
                    Machine {
                        regs: m1.regs.update(
                            c1.code.reg_count as int,
                            Some(bin.apply(a, b)->Some_0),
                        ),
                        slots: m1.slots,
                    },
                ) by {
                    lemma_operand_kept(lhs, params, m, m1, r as int);
                    lemma_operand_kept(rhs, params, m, m1, r as int);
                }
                lemma_passes_then_value(c, c1, inst, code, params, m, bin.apply(a, b)->Some_0);
            } else {
                lemma_traps_early(code, params, c, c1, c2, m, overflow.idx);
                lemma_grows_trans(c, c1, c2);
            }
        } else {
            let div_by_zero = div_by_zero_error->Some_0;
            let bin = plain_op(op)->Some_0;
            let c1 = c.build_div_check(lhs, rhs, trap(overflow.idx), trap(div_by_zero.idx)).0;
            let inst = Inst::Binary { op: bin, lhs, rhs, dest: c1.code.reg_count };
            lemma_grows_emit(c1);
            lemma_grows_emit(c1.with_regs(1));
            lemma_code_extends_trans(c1.code, c1.with_regs(1).code, c2.code);
            lemma_code_extends_trans(c1.code, c2.code, code);
            lemma_div_check_runs(c, lhs, rhs, overflow.idx, div_by_zero.idx, code, params, m, a, b);
            lemma_grows_trans(c1, c1.with_regs(1), c2);
            lemma_grows_trans(c, c1, c2);
            if b == 0 {
                lemma_traps_early(code, params, c, c1, c2, m, div_by_zero.idx);
            } else if a == MIN_INT && b == -1 {
                lemma_traps_early(code, params, c, c1, c2, m, overflow.idx);
            } else {
                lemma_checked_division_has_quotient(a, b);
                lemma_checked_remainder_has_value(a, b);
                assert forall|m1: Machine|
                    kept_below(m, m1, r as int) && m1.slots == m.slots implies #[trigger] step(
                    inst,
                    params,
                    m1,
                ) == Step::Next(
                    Machine {
                        regs: m1.regs.update(
                            c1.code.reg_count as int,
                            Some(bin.apply(a, b)->Some_0),
                        ),
                        slots: m1.slots,
                    },
                ) by {
                    lemma_operand_kept(lhs, params, m, m1, r as int);
                    lemma_operand_kept(rhs, params, m, m1, r as int);
                }
                lemma_passes_then_value(c, c1, inst, code, params, m, bin.apply(a, b)->Some_0);
            }
        }
    }
}

/// An instruction that writes a value into a new register, after a piece
/// of code that yields a value, yields its own value.
pub proof fn lemma_yields_then_value(
    c: CompilerView,
    c1: CompilerView,
    before: Operand,
    x: i64,
    inst: Inst,
    code: CodeView,
    params: Seq<i64>,
    m: Machine,
    value: i64,
)
    requires
        grows(c, c1),
        c1.has_room(1),
        yields(code, params, c, c1, m, before, x),
        ready(code, c1.with_regs(1).emit(inst), m),
        forall|m1: Machine|
            kept_below(m, m1, c.code.reg_count as int) && m1.slots == m.slots && operand_value(
                before,
                params,
                m1.regs,
            ) == Some(x) ==> #[trigger] step(inst, params, m1) == Step::Next(
                Machine {
                    regs: m1.regs.update(c1.code.reg_count as int, Some(value)),
                    slots: m1.slots,
                },
            ),
    ensures
        grows(c, c1.with_regs(1).emit(inst)),
        yields(
            code,
            params,
            c,
            c1.with_regs(1).emit(inst),
            m,
            Operand::Reg(c1.code.reg_count),
            value,
        ),
        c1.with_regs(1).emit(inst).code.reg_count == c1.code.reg_count + 1,
{
    let c2 = c1.with_regs(1).emit(inst);
    let (m1, j) = choose|m1: Machine, j: nat| #[trigger]
        lands(code, params, c, c1, m, m1, j) && m1.slots == m.slots && operand_value(
            before,
            params,
            m1.regs,
        ) == Some(x);
    assert(step(inst, params, m1) == Step::Next(
        Machine { regs: m1.regs.update(c1.code.reg_count as int, Some(value)), slots: m1.slots },
    ));
    lemma_value_runs(c1, inst, code, params, m1, value);
    let m2 = Machine {
        regs: m1.regs.update(c1.code.reg_count as int, Some(value)),
        slots: m1.slots,
    };
    lemma_grows_trans(c, c1, c2);
    lemma_lands_trans(code, params, c, c1, c2, m, m1, j, m2, 0);
    assert(lands(code, params, c, c2, m, m2, j));
}

/// Whether the values `values` are held, on the machine `m`, in operands
/// that were computed before the register `low`, and are the integers `xs`.
pub open spec fn hold(params: Seq<i64>, m: Machine, low: int, values: Seq<Value>, xs: Seq<i64>) -> bool {
    &&& values.len() == xs.len()
    &&& forall|i: int|
        0 <= i < values.len() ==> defined_below((#[trigger] values[i]).operand, low)
            && operand_value(values[i].operand, params, m.regs) == Some(xs[i])
}

/// How the code of a chain of comparisons runs, where it stands in a
/// larger code: it yields the single bit that tells whether every
/// comparison holds.
pub proof fn lemma_chain_runs(
    c: CompilerView,
    comparisons: Seq<ComparisonToken>,
    values: Seq<Value>,
    xs: Seq<i64>,
    count: int,
    code: CodeView,
    params: Seq<i64>,
    m: Machine,
)
    requires
        c.wf(),
        0 <= count <= comparisons.len(),
        count < values.len(),
        c.build_chain(comparisons, values, count).1 is Ok,
        ready(code, c.build_chain(comparisons, values, count).0, m),
        hold(params, m, c.code.reg_count as int, values, xs),
    ensures
        ({
            let (c2, result) = c.build_chain(comparisons, values, count);
            &&& grows(c, c2)
            &&& c.code.reg_count <= c2.code.reg_count
            &&& defined_below(result->Ok_0, c2.code.reg_count as int)
            &&& yields(
                code,
                params,
                c,
                c2,
                m,
                result->Ok_0,
                flag(chain_holds(comparisons, xs, count)),
            )
        }),
    decreases count,
{
    let (c2, result) = c.build_chain(comparisons, values, count);
    if count <= 0 {
        lemma_yields_at_once(code, params, c, m, Operand::Const { bits: 1, value: 1 }, 1);
    } else {
        let (c1, r1) = c.build_chain(comparisons, values, count - 1);
        let all1 = r1->Ok_0;
        let r = c1.code.reg_count;
        let ic = Inst::Compare {
            pred: comparisons[count - 1],
            lhs: values[count - 1].operand,
            rhs: values[count].operand,
            dest: r,
        };
        let c1a = c1.with_regs(1).emit(ic);
        let ia = Inst::Binary {
            op: BinOp::And,
            lhs: all1,
            rhs: Operand::Reg(r),
            dest: (r + 1) as usize,
        };
        assert(c2 == c1a.with_regs(1).emit(ia));
        // What was emitted for the shorter chain stands in the larger code.
        let pred = comparisons[count - 1];
        let lhs = values[count - 1].operand;
        let rhs = values[count].operand;
        lemma_build_value_extends(c1, |dest: usize| Inst::Compare { pred, lhs, rhs, dest });
        lemma_build_value_extends(
            c1a,
            |dest: usize|
                Inst::Binary { op: BinOp::And, lhs: all1, rhs: Operand::Reg(r), dest },
        );
        lemma_code_extends_trans(c1a.code, c2.code, code);
        lemma_code_extends_trans(c1.code, c1a.code, code);
        lemma_chain_runs(c, comparisons, values, xs, count - 1, code, params, m);
        let before = flag(chain_holds(comparisons, xs, count - 1));
        let (m1, j) = choose|m1: Machine, j: nat| #[trigger]
            lands(code, params, c, c1, m, m1, j) && m1.slots == m.slots && operand_value(
                all1,
                params,
                m1.regs,
            ) == Some(before);
        let x = xs[count - 1];
        let y = xs[count];
        let this = flag(comparisons[count - 1].eval(x, y));
        lemma_operand_kept(values[count - 1].operand, params, m, m1, c.code.reg_count as int);
        lemma_operand_kept(values[count].operand, params, m, m1, c.code.reg_count as int);
        lemma_value_runs(c1, ic, code, params, m1, this);
        let m2 = Machine { regs: m1.regs.update(r as int, Some(this)), slots: m1.slots };
        lemma_operand_kept(all1, params, m1, m2, r as int);
        lemma_and_of_flags(
            chain_holds(comparisons, xs, count - 1),
            comparisons[count - 1].eval(x, y),
        );
        let both = flag(chain_holds(comparisons, xs, count));
        lemma_value_runs(c1a, ia, code, params, m2, both);
        let m3 = Machine { regs: m2.regs.update(r + 1, Some(both)), slots: m2.slots };
        lemma_grows_trans(c, c1, c1a);
        lemma_grows_trans(c, c1a, c2);
        lemma_lands_trans(code, params, c, c1, c1a, m, m1, j, m2, 0);
        lemma_lands_trans(code, params, c, c1a, c2, m, m2, j, m3, 0);
        assert(lands(code, params, c, c2, m, m3, j));
    }
}

/// How the code of the operation of an expression runs, where it stands
/// in a larger code and the values of the arguments are at hand: it yields
/// the value of the operation, or it traps to the error point that the
/// operation ends with.
pub proof fn lemma_operation_runs(
    f: UserFunctionView,
    c: CompilerView,
    e: ExprView,
    values: Seq<Value>,
    xs: Seq<i64>,
    code: CodeView,
    params: Seq<i64>,
    m: Machine,
)
    requires
        c.wf(),
        f.compile_operation(c, e, values).1 is Ok,
        ready(code, f.compile_operation(c, e, values).0, m),
        hold(params, m, c.code.reg_count as int, values, xs),
    ensures
        ({
            let (c2, result) = f.compile_operation(c, e, values);
            &&& grows(c, c2)
            &&& defined_below(result->Ok_0.operand, c2.code.reg_count as int)
            &&& match f.eval_operation(c.code.slots, m.slots, e, xs) {
                Ok(x) => yields(code, params, c, c2, m, result->Ok_0.operand, x),
                Err(k) => traps(code, params, c, c2, m, k),
            }
        }),
{
    let (c2, result) = f.compile_operation(c, e, values);
    let r = c.code.reg_count;
    lemma_yields_at_once(code, params, c, m, Operand::Const { bits: INT_BITS, value: 0 }, 0);
    match e.function {
        FunctionView::Int(i) => {
            lemma_yields_at_once(code, params, c, m, Operand::Const { bits: INT_BITS, value: i }, i);
        },
        FunctionView::GetVar { var_name, var_type } => {
            lemma_find_slot(c.code.slots, var_name, 0);
            let slot = find_slot(c.code.slots, var_name, 0)->Some_0;
            let inst = Inst::Load { slot, dest: r };
            assert forall|m1: Machine|
                kept_below(m, m1, r as int) && m1.slots == m.slots implies #[trigger] step(
                inst,
                params,
                m1,
            ) == Step::Next(
                Machine {
                    regs: m1.regs.update(r as int, Some(m.slots[slot as int])),
                    slots: m1.slots,
                },
            ) by {}
            lemma_passes_then_value(c, c, inst, code, params, m, m.slots[slot as int]);
        },
        FunctionView::NegInt { overflow_error } => {
            lemma_checked_runs(
                c,
                Operand::Const { bits: INT_BITS, value: 0 },
                values[0].operand,
                CheckedOp::Sub,
                overflow_error.idx,
                code,
                params,
                m,
                0,
                xs[0],
            );
        },
        FunctionView::IntToCellState { out_of_range_error } => {
            let limit = state_limit(f.rule_meta.state_count);
            let a = xs[0];
            let c1 = c.build_range_check(values[0].operand, limit, trap(out_of_range_error.idx)).0;
            let inst = Inst::Cast {
                op: CastOp::TruncToCellState,
                value: values[0].operand,
                dest: c1.code.reg_count,
            };
            lemma_grows_emit(c1);
            lemma_grows_emit(c1.with_regs(1));
            lemma_code_extends_trans(c1.code, c1.with_regs(1).code, c2.code);
            lemma_code_extends_trans(c1.code, c2.code, code);
            lemma_range_check_runs(
                c,
                values[0].operand,
                limit,
                out_of_range_error.idx,
                code,
                params,
                m,
                a,
            );
            lemma_grows_trans(c1, c1.with_regs(1), c2);
            lemma_grows_trans(c, c1, c2);
            if 0 <= a < limit {
                lemma_cell_state_of(a);
                assert forall|m1: Machine|
                    kept_below(m, m1, r as int) && m1.slots == m.slots implies #[trigger] step(
                    inst,
                    params,
                    m1,
                ) == Step::Next(
                    Machine {
                        regs: m1.regs.update(c1.code.reg_count as int, Some(a)),
                        slots: m1.slots,
                    },
                ) by {
                    lemma_operand_kept(values[0].operand, params, m, m1, r as int);
                }
                lemma_passes_then_value(c, c1, inst, code, params, m, a);
            } else {
                lemma_traps_early(code, params, c, c1, c2, m, out_of_range_error.idx);
            }
        },
        FunctionView::BinaryIntOp { op, overflow_error, div_by_zero_error } => {
            lemma_binary_int_op_runs(
                c,
                e.span,
                op,
                overflow_error,
                div_by_zero_error,
                values[0].operand,
                values[1].operand,
                code,
                params,
                m,
                xs[0],
                xs[1],
            );
        },
        FunctionView::Cmp { comparisons } => {
            let (c1, r1) = c.build_chain(comparisons, values, comparisons.len() as int);
            let all = r1->Ok_0;
            let inst = Inst::Cast { op: CastOp::ZExtToInt, value: all, dest: c1.code.reg_count };
            lemma_build_value_extends(
                c1,
                |dest: usize| Inst::Cast { op: CastOp::ZExtToInt, value: all, dest },
            );
            lemma_code_extends_trans(c1.code, c2.code, code);
            lemma_chain_runs(c, comparisons, values, xs, comparisons.len() as int, code, params, m);
            let holds = flag(chain_holds(comparisons, xs, comparisons.len() as int));
            assert forall|m1: Machine|
                kept_below(m, m1, r as int) && m1.slots == m.slots && operand_value(
                    all,
                    params,
                    m1.regs,
                ) == Some(holds) implies #[trigger] step(inst, params, m1) == Step::Next(
                Machine {
                    regs: m1.regs.update(c1.code.reg_count as int, Some(holds)),
                    slots: m1.slots,
                },
            ) by {}
            lemma_yields_then_value(c, c1, all, holds, inst, code, params, m, holds);
        },
    }
}

/// The code of a chain of comparisons leaves what was emitted where it
/// is.
pub proof fn lemma_chain_extends(
    c: CompilerView,
    comparisons: Seq<ComparisonToken>,
    values: Seq<Value>,
    count: int,
)
    ensures
        code_extends(c.code, c.build_chain(comparisons, values, count).0.code),
    decreases count,
{
    lemma_code_extends_refl(c.code);
    if count > 0 {
        lemma_chain_extends(c, comparisons, values, count - 1);
        let (c1, r1) = c.build_chain(comparisons, values, count - 1);
        if r1 is Ok {
            let pred = comparisons[count - 1];
            let lhs = values[count - 1].operand;
            let rhs = values[count].operand;
            let (c2, r2) = c1.build_compare(pred, lhs, rhs);
            lemma_build_value_extends(c1, |dest: usize| Inst::Compare { pred, lhs, rhs, dest });
            lemma_code_extends_trans(c.code, c1.code, c2.code);
            if r2 is Ok {
                let all = r1->Ok_0;
                let this = r2->Ok_0;
                lemma_build_value_extends(
                    c2,
                    |dest: usize| Inst::Binary { op: BinOp::And, lhs: all, rhs: this, dest },
                );
                lemma_code_extends_trans(
                    c.code,
                    c2.code,
                    c2.build_binary(BinOp::And, all, this).0.code,
                );
            }
        }
    }
}

/// The code of an operation on two integers leaves what was emitted where
/// it is.
pub proof fn lemma_binary_int_op_extends(
    c: CompilerView,
    span: Span,
    op: OperatorToken,
    overflow_error: Option<ErrorPointRef>,
    div_by_zero_error: Option<ErrorPointRef>,
    lhs: Operand,
    rhs: Operand,
)
    ensures
        code_extends(
            c.code,
            c.build_binary_int_op(span, op, overflow_error, div_by_zero_error, lhs, rhs).0.code,
        ),
{
    lemma_code_extends_refl(c.code);
    let done = c.build_binary_int_op(span, op, overflow_error, div_by_zero_error, lhs, rhs).0;
    if op == OperatorToken::Ampersand || op == OperatorToken::Pipe {
        let bin = plain_op(op)->Some_0;
        lemma_build_value_extends(c, |dest: usize| Inst::Binary { op: bin, lhs, rhs, dest });
    } else if op != OperatorToken::DoubleAsterisk && overflow_error is Some {
        let overflow = overflow_error->Some_0;
        if checked_op(op) is Some {
            lemma_checks_extend(c, lhs, rhs, checked_op(op)->Some_0, 0, overflow.idx, 0);
        } else if is_shift(op) {
            let bin = plain_op(op)->Some_0;
            lemma_checks_extend(c, rhs, rhs, CheckedOp::Add, 64, overflow.idx, 0);
            let (c1, r1) = c.build_range_check(rhs, 64, trap(overflow.idx));
            if r1 is Ok {
                lemma_build_value_extends(
                    c1,
                    |dest: usize| Inst::Binary { op: bin, lhs, rhs, dest },
                );
                lemma_code_extends_trans(c.code, c1.code, done.code);
            }
        } else if (op == OperatorToken::Slash || op == OperatorToken::Percent)
            && div_by_zero_error is Some {
            let div_by_zero = div_by_zero_error->Some_0;
            let bin = plain_op(op)->Some_0;
            lemma_checks_extend(c, lhs, rhs, CheckedOp::Add, 0, overflow.idx, div_by_zero.idx);
            let (c1, r1) = c.build_div_check(
                lhs,
                rhs,
                trap(overflow.idx),
                trap(div_by_zero.idx),
            );
            if r1 is Ok {
                lemma_build_value_extends(
                    c1,
                    |dest: usize| Inst::Binary { op: bin, lhs, rhs, dest },
                );
                lemma_code_extends_trans(c.code, c1.code, done.code);
            }
        }
    }
}

/// The code of the operation of an expression leaves what was emitted
/// where it is.
pub proof fn lemma_operation_extends(
    f: UserFunctionView,
    c: CompilerView,
    e: ExprView,
    values: Seq<Value>,
)
    ensures
        code_extends(c.code, f.compile_operation(c, e, values).0.code),
{
    lemma_code_extends_refl(c.code);
    let done = f.compile_operation(c, e, values).0;
    if values.len() == e.function.arity() {
        match e.function {
            FunctionView::Int(_) => {},
            FunctionView::GetVar { var_name, var_type } => {
                match find_slot(c.code.slots, var_name, 0) {
                    Some(slot) => {
                        lemma_build_value_extends(c, |dest: usize| Inst::Load { slot, dest });
                    },
                    None => {},
                }
            },
            FunctionView::NegInt { overflow_error } => {
                lemma_checks_extend(
                    c,
                    Operand::Const { bits: INT_BITS, value: 0 },
                    values[0].operand,
                    CheckedOp::Sub,
                    0,
                    overflow_error.idx,
                    0,
                );
            },
            FunctionView::IntToCellState { out_of_range_error } => {
                let limit = state_limit(f.rule_meta.state_count);
                let value = values[0].operand;
                lemma_checks_extend(
                    c,
                    value,
                    value,
                    CheckedOp::Add,
                    limit,
                    out_of_range_error.idx,
                    0,
                );
                let (c1, r1) = c.build_range_check(value, limit, trap(out_of_range_error.idx));
                if r1 is Ok {
                    lemma_build_value_extends(
                        c1,
                        |dest: usize| Inst::Cast { op: CastOp::TruncToCellState, value, dest },
                    );
                    lemma_code_extends_trans(c.code, c1.code, done.code);
                }
            },
            FunctionView::BinaryIntOp { op, overflow_error, div_by_zero_error } => {
                lemma_binary_int_op_extends(
                    c,
                    e.span,
                    op,
                    overflow_error,
                    div_by_zero_error,
                    values[0].operand,
                    values[1].operand,
                );
            },
            FunctionView::Cmp { comparisons } => {
                lemma_chain_extends(c, comparisons, values, comparisons.len() as int);
                let (c1, r1) = c.build_chain(comparisons, values, comparisons.len() as int);
                if r1 is Ok {
                    let value = r1->Ok_0;
                    lemma_build_value_extends(
                        c1,
                        |dest: usize| Inst::Cast { op: CastOp::ZExtToInt, value, dest },
                    );
                    lemma_code_extends_trans(c.code, c1.code, done.code);
                }
            },
        }
    }
}

/// The code of an expression leaves what was emitted where it is.
pub proof fn lemma_compile_expr_extends(f: UserFunctionView, c: CompilerView, expr: int)
    ensures
        code_extends(c.code, f.compile_expr(c, expr).0.code),
    decreases expr, f.expressions[expr].args.len() + 1,
{
    lemma_code_extends_refl(c.code);
    if 0 <= expr < f.expressions.len() {
        let e = f.expressions[expr];
        lemma_compile_args_extends(f, c, e, expr, e.args.len() as int);
        let (c1, r1) = f.compile_args(c, e, expr, e.args.len() as int);
        if r1 is Ok {
            lemma_operation_extends(f, c1, e, r1->Ok_0);
            lemma_code_extends_trans(c.code, c1.code, f.compile_expr(c, expr).0.code);
        }
    }
}

/// The code of the arguments of an expression leaves what was emitted
/// where it is.
pub proof fn lemma_compile_args_extends(
    f: UserFunctionView,
    c: CompilerView,
    e: ExprView,
    bound: int,
    count: int,
)
    ensures
        code_extends(c.code, f.compile_args(c, e, bound, count).0.code),
    decreases bound, count,
{
    lemma_code_extends_refl(c.code);
    if count > 0 {
        lemma_compile_args_extends(f, c, e, bound, count - 1);
        let (c1, r1) = f.compile_args(c, e, bound, count - 1);
        if r1 is Ok {
            let arg = e.args[count - 1].0 as int;
            if 0 <= arg < bound {
                lemma_compile_expr_extends(f, c1, arg);
                lemma_code_extends_trans(c.code, c1.code, f.compile_expr(c1, arg).0.code);
            }
        }
    }
}

/// The code of a statement leaves what was emitted where it is.
pub proof fn lemma_compile_statement_extends(f: UserFunctionView, c: CompilerView, statement: int)
    ensures
        code_extends(c.code, f.compile_statement(c, statement).0.code),
    decreases statement, f.nested_count(statement) + 1,
{
    lemma_code_extends_refl(c.code);
    let done = f.compile_statement(c, statement).0;
    if 0 <= statement < f.statements.len() {
        match f.statements[statement] {
            StatementView::SetVar { span, var_name, value_expr } => {
                lemma_compile_expr_extends(f, c, value_expr.0 as int);
                let (c1, r1) = f.compile_expr(c, value_expr.0 as int);
                lemma_steps_extend_any(c1);
                lemma_code_extends_trans(c.code, c1.code, done.code);
            },
            StatementView::If { span, cond_expr, if_true, if_false } => {
                lemma_compile_expr_extends(f, c, cond_expr.0 as int);
                let (c1, r1) = f.compile_expr(c, cond_expr.0 as int);
                if r1 is Ok {
                    let first = |x: CompilerView|
                        f.compile_block(x, span, if_true, statement, if_true.len() as int);
                    let second = |x: CompilerView|
                        f.compile_block(x, span, if_false, statement, if_false.len() as int);
                    assert forall|x: CompilerView|
                        code_extends(x.code, (#[trigger] first(x)).0.code) by {
                        lemma_compile_block_extends(
                            f,
                            x,
                            span,
                            if_true,
                            statement,
                            if_true.len() as int,
                        );
                    }
                    assert forall|x: CompilerView|
                        code_extends(x.code, (#[trigger] second(x)).0.code) by {
                        lemma_compile_block_extends(
                            f,
                            x,
                            span,
                            if_false,
                            statement,
                            if_false.len() as int,
                        );
                    }
                    lemma_conditional_extends(c1, r1->Ok_0.operand, first, second);
                    lemma_code_extends_trans(c.code, c1.code, done.code);
                }
            },
            StatementView::Return { span, ret_expr } => {
                lemma_compile_expr_extends(f, c, ret_expr.0 as int);
                let (c1, r1) = f.compile_expr(c, ret_expr.0 as int);
                if r1 is Ok {
                    let value = r1->Ok_0.operand;
                    lemma_steps_extend_any(c1);
                    lemma_build_value_extends(
                        c1,
                        |dest: usize| Inst::Cast { op: CastOp::ZExtToInt, value, dest },
                    );
                    let (c2, r2) = c1.build_cast(CastOp::ZExtToInt, value);
                    lemma_steps_extend_any(c2);
                    lemma_code_extends_trans(c1.code, c2.code, c2.build_return(r2->Ok_0).code);
                    lemma_code_extends_trans(c.code, c1.code, done.code);
                }
            },
        }
    }
}

/// The code of a block leaves what was emitted where it is.
pub proof fn lemma_compile_block_extends(
    f: UserFunctionView,
    c: CompilerView,
    span: Span,
    block: Seq<StatementRef>,
    bound: int,
    count: int,
)
    ensures
        code_extends(c.code, f.compile_block(c, span, block, bound, count).0.code),
    decreases bound, count,
{
    lemma_code_extends_refl(c.code);
    if count > 0 {
        lemma_compile_block_extends(f, c, span, block, bound, count - 1);
        let (c1, r1) = f.compile_block(c, span, block, bound, count - 1);
        if r1 is Ok {
            let statement = block[count - 1].0 as int;
            if 0 <= statement < bound {
                lemma_compile_statement_extends(f, c1, statement);
                lemma_code_extends_trans(c.code, c1.code, f.compile_statement(c1, statement).0.code);
            }
        }
    }
}

/// Whether running `code` through the piece of code between `c` and `c2`
/// on the machine `m` comes to the end of the piece with the variables as
/// they were and with the integers `xs` in the values `values`.
pub open spec fn args_yield(
    code: CodeView,
    params: Seq<i64>,
    c: CompilerView,
    c2: CompilerView,
    m: Machine,
    values: Seq<Value>,
    xs: Seq<i64>,
) -> bool {
    exists|m2: Machine, jumps: nat| #[trigger]
        lands(code, params, c, c2, m, m2, jumps) && m2.slots == m.slots && hold(
            params,
            m2,
            c2.code.reg_count as int,
            values,
            xs,
        )
}

/// Landing and then yielding a value is yielding it.
pub proof fn lemma_lands_then_yields(
    code: CodeView,
    params: Seq<i64>,
    a: CompilerView,
    b: CompilerView,
    c: CompilerView,
    m: Machine,
    m1: Machine,
    j: nat,
    operand: Operand,
    x: i64,
)
    requires
        grows(a, b),
        grows(b, c),
        lands(code, params, a, b, m, m1, j),
        m1.slots == m.slots,
        yields(code, params, b, c, m1, operand, x),
    ensures
        yields(code, params, a, c, m, operand, x),
{
    let (m2, j2) = choose|m2: Machine, j2: nat| #[trigger]
        lands(code, params, b, c, m1, m2, j2) && m2.slots == m1.slots && operand_value(
            operand,
            params,
            m2.regs,
        ) == Some(x);
    lemma_lands_trans(code, params, a, b, c, m, m1, j, m2, j2);
    assert(lands(code, params, a, c, m, m2, j + j2));
}

/// Landing and then trapping is trapping.
pub proof fn lemma_lands_then_traps(
    code: CodeView,
    params: Seq<i64>,
    a: CompilerView,
    b: CompilerView,
    c: CompilerView,
    m: Machine,
    m1: Machine,
    j: nat,
    error_index: usize,
)
    requires
        grows(a, b),
        grows(b, c),
        lands(code, params, a, b, m, m1, j),
        traps(code, params, b, c, m1, error_index),
    ensures
        traps(code, params, a, c, m, error_index),
{
    let j2 = choose|j2: nat| #[trigger]
        leaves(code, params, b, c, m1, spec_encode_error(error_index) as i64, j2);
    lemma_lands_then_leaves(
        code,
        params,
        a,
        b,
        c,
        m,
        m1,
        j,
        spec_encode_error(error_index) as i64,
        j2,
    );
    assert(leaves(code, params, a, c, m, spec_encode_error(error_index) as i64, j + j2));
}

/// The machine of `code` in which every register and every variable holds
/// zero.
pub open spec fn blank(code: CodeView) -> Machine {
    Machine {
        regs: Seq::new(code.reg_count as nat, |i: int| Some(0i64)),
        slots: Seq::new(code.slots.len(), |i: int| 0i64),
    }
}

/// Parameters for every index, all zero.
pub open spec fn blank_params() -> Seq<i64> {
    Seq::new((usize::MAX + 1) as nat, |i: int| 0i64)
}

/// What the values `values` are on the blank machine.
pub open spec fn blank_values(code: CodeView, values: Seq<Value>) -> Seq<i64> {
    Seq::new(
        values.len(),
        |i: int| operand_value(values[i].operand, blank_params(), blank(code).regs)->Some_0,
    )
}

/// On the blank machine every value that was computed is held.
pub proof fn lemma_blank_holds(code: CodeView, low: int, values: Seq<Value>)
    requires
        low <= code.reg_count,
        forall|i: int| 0 <= i < values.len() ==> defined_below((#[trigger] values[i]).operand, low),
    ensures
        fits(code, blank(code)),
        hold(blank_params(), blank(code), low, values, blank_values(code, values)),
{
}

/// The code of the operation of an expression is a piece of code, and its
/// result is held in a register of its own or where an argument was held.
pub proof fn lemma_operation_grows(
    f: UserFunctionView,
    c: CompilerView,
    e: ExprView,
    values: Seq<Value>,
    code: CodeView,
)
    requires
        c.wf(),
        f.compile_operation(c, e, values).1 is Ok,
        code.blocks.len() <= usize::MAX,
        code.slots.len() <= usize::MAX,
        code_extends(f.compile_operation(c, e, values).0.code, code),
        forall|i: int|
            0 <= i < values.len() ==> defined_below(
                (#[trigger] values[i]).operand,
                c.code.reg_count as int,
            ),
    ensures
        grows(c, f.compile_operation(c, e, values).0),
        defined_below(
            f.compile_operation(c, e, values).1->Ok_0.operand,
            f.compile_operation(c, e, values).0.code.reg_count as int,
        ),
{
    lemma_operation_extends(f, c, e, values);
    lemma_blank_holds(code, c.code.reg_count as int, values);
    lemma_operation_runs(
        f,
        c,
        e,
        values,
        blank_values(code, values),
        code,
        blank_params(),
        blank(code),
    );
}

/// The code of an expression computes the value of the expression. Where
/// the code stands in a larger code, running it on any machine of that
/// code yields the value that the expression has for the variables of the
/// machine, and leaves the variables as they were; or it returns the signal
/// of the error point that the expression ends with.
pub proof fn lemma_compile_expr_runs(
    f: UserFunctionView,
    c: CompilerView,
    expr: int,
    code: CodeView,
    params: Seq<i64>,
    m: Machine,
)
    requires
        c.wf(),
        f.compile_expr(c, expr).1 is Ok,
        ready(code, f.compile_expr(c, expr).0, m),
    ensures
        ({
            let (c2, result) = f.compile_expr(c, expr);
            &&& grows(c, c2)
            &&& defined_below(result->Ok_0.operand, c2.code.reg_count as int)
            &&& match f.eval_expr(c.code.slots, m.slots, expr) {
                Ok(x) => yields(code, params, c, c2, m, result->Ok_0.operand, x),
                Err(k) => traps(code, params, c, c2, m, k),
            }
        }),
    decreases expr, f.expressions[expr].args.len() + 1,
{
    let (c2, result) = f.compile_expr(c, expr);
    let e = f.expressions[expr];
    let count = e.args.len() as int;
    let (c1, r1) = f.compile_args(c, e, expr, count);
    let values = r1->Ok_0;
    lemma_operation_extends(f, c1, e, values);
    lemma_code_extends_trans(c1.code, c2.code, code);
    lemma_compile_args_runs(f, c, e, expr, count, code, params, m);
    lemma_operation_grows(f, c1, e, values, code);
    lemma_grows_trans(c, c1, c2);
    match f.eval_args(c.code.slots, m.slots, e, expr, count) {
        Ok(xs) => {
            let (m1, j) = choose|m1: Machine, j: nat| #[trigger]
                lands(code, params, c, c1, m, m1, j) && m1.slots == m.slots && hold(
                    params,
                    m1,
                    c1.code.reg_count as int,
                    values,
                    xs,
                );
            lemma_operation_runs(f, c1, e, values, xs, code, params, m1);
            match f.eval_operation(c.code.slots, m.slots, e, xs) {
                Ok(x) => {
                    lemma_lands_then_yields(
                        code,
                        params,
                        c,
                        c1,
                        c2,
                        m,
                        m1,
                        j,
                        result->Ok_0.operand,
                        x,
                    );
                },
                Err(k) => {
                    lemma_lands_then_traps(code, params, c, c1, c2, m, m1, j, k);
                },
            }
        },
        Err(k) => {
            lemma_traps_early(code, params, c, c1, c2, m, k);
        },
    }
}

/// The code of the arguments of an expression computes their values, from
/// left to right, up to the first that ends with an error.
pub proof fn lemma_compile_args_runs(
    f: UserFunctionView,
    c: CompilerView,
    e: ExprView,
    bound: int,
    count: int,
    code: CodeView,
    params: Seq<i64>,
    m: Machine,
)
    requires
        c.wf(),
        f.compile_args(c, e, bound, count).1 is Ok,
        ready(code, f.compile_args(c, e, bound, count).0, m),
    ensures
        ({
            let (c2, result) = f.compile_args(c, e, bound, count);
            &&& grows(c, c2)
            &&& forall|i: int|
                0 <= i < result->Ok_0.len() ==> defined_below(
                    (#[trigger] result->Ok_0[i]).operand,
                    c2.code.reg_count as int,
                )
            &&& match f.eval_args(c.code.slots, m.slots, e, bound, count) {
                Ok(xs) => args_yield(code, params, c, c2, m, result->Ok_0, xs),
                Err(k) => traps(code, params, c, c2, m, k),
            }
        }),
    decreases bound, count,
{
    let (c2, result) = f.compile_args(c, e, bound, count);
    if count <= 0 {
        lemma_grows_refl(c);
        lemma_arrives_at_itself(code, params, c.cursor.0 as int, c.here(), m);
        assert(lands(code, params, c, c, m, m, 0));
        assert(hold(params, m, c.code.reg_count as int, Seq::<Value>::empty(), Seq::<i64>::empty()));
    } else {
        let (c1, r1) = f.compile_args(c, e, bound, count - 1);
        let before = r1->Ok_0;
        let arg = e.args[count - 1].0 as int;
        let v = f.compile_expr(c1, arg).1->Ok_0;
        lemma_compile_expr_extends(f, c1, arg);
        lemma_code_extends_trans(c1.code, c2.code, code);
        lemma_compile_args_runs(f, c, e, bound, count - 1, code, params, m);
        // The code of the argument is a piece of code, whatever the machine.
        lemma_compile_expr_runs(f, c1, arg, code, params, m);
        lemma_grows_trans(c, c1, c2);
        assert forall|i: int| 0 <= i < result->Ok_0.len() implies defined_below(
            (#[trigger] result->Ok_0[i]).operand,
            c2.code.reg_count as int,
        ) by {
            if i < before.len() {
                assert(defined_below(before[i].operand, c1.code.reg_count as int));
            }
        }
        match f.eval_args(c.code.slots, m.slots, e, bound, count - 1) {
            Ok(xs1) => {
                let (m1, j) = choose|m1: Machine, j: nat| #[trigger]
                    lands(code, params, c, c1, m, m1, j) && m1.slots == m.slots && hold(
                        params,
                        m1,
                        c1.code.reg_count as int,
                        before,
                        xs1,
                    );
                lemma_compile_expr_runs(f, c1, arg, code, params, m1);
                match f.eval_expr(c.code.slots, m.slots, arg) {
                    Ok(x) => {
                        let (m2, j2) = choose|m2: Machine, j2: nat| #[trigger]
                            lands(code, params, c1, c2, m1, m2, j2) && m2.slots == m1.slots
                                && operand_value(v.operand, params, m2.regs) == Some(x);
                        lemma_lands_trans(code, params, c, c1, c2, m, m1, j, m2, j2);
                        let values = before.push(v);
                        let xs = xs1.push(x);
                        assert forall|i: int| 0 <= i < values.len() implies defined_below(
                            (#[trigger] values[i]).operand,
                            c2.code.reg_count as int,
                        ) && operand_value(values[i].operand, params, m2.regs) == Some(xs[i]) by {
                            if i < before.len() {
                                assert(defined_below(before[i].operand, c1.code.reg_count as int));
                                lemma_operand_kept(
                                    before[i].operand,
                                    params,
                                    m1,
                                    m2,
                                    c1.code.reg_count as int,
                                );
                            }
                        }
                        assert(lands(code, params, c, c2, m, m2, j + j2) && m2.slots == m.slots
                            && hold(params, m2, c2.code.reg_count as int, values, xs));
                    },
                    Err(k) => {
                        lemma_lands_then_traps(code, params, c, c1, c2, m, m1, j, k);
                    },
                }
            },
            Err(k) => {
                lemma_traps_early(code, params, c, c1, c2, m, k);
            },
        }
    }
}

/// Whether running `code` through the piece of code between `c` and `c2`
/// on the machine `m` ends as `flow` says: it comes to the end of the piece
/// with the variables holding the values of `flow`, or it returns the
/// value, or it returns the signal of the error point.
pub open spec fn flows(
    code: CodeView,
    params: Seq<i64>,
    c: CompilerView,
    c2: CompilerView,
    m: Machine,
    flow: Flow,
) -> bool {
    match flow {
        Flow::Next(mem) => exists|m2: Machine, jumps: nat| #[trigger]
            lands(code, params, c, c2, m, m2, jumps) && m2.slots == mem,
        Flow::Return(value) => exists|jumps: nat| #[trigger]
            leaves(code, params, c, c2, m, value, jumps),
        Flow::Trap(k) => traps(code, params, c, c2, m, k),
    }
}

/// Landing and then ending in some way is ending in that way.
pub proof fn lemma_lands_then_flows(
    code: CodeView,
    params: Seq<i64>,
    a: CompilerView,
    b: CompilerView,
    c: CompilerView,
    m: Machine,
    m1: Machine,
    j: nat,
    flow: Flow,
)
    requires
        grows(a, b),
        grows(b, c),
        lands(code, params, a, b, m, m1, j),
        flows(code, params, b, c, m1, flow),
    ensures
        flows(code, params, a, c, m, flow),
{
    match flow {
        Flow::Next(mem) => {
            let (m2, j2) = choose|m2: Machine, j2: nat| #[trigger]
                lands(code, params, b, c, m1, m2, j2) && m2.slots == mem;
            lemma_lands_trans(code, params, a, b, c, m, m1, j, m2, j2);
            assert(lands(code, params, a, c, m, m2, j + j2));
        },
        Flow::Return(value) => {
            let j2 = choose|j2: nat| #[trigger] leaves(code, params, b, c, m1, value, j2);
            lemma_lands_then_leaves(code, params, a, b, c, m, m1, j, value, j2);
            assert(leaves(code, params, a, c, m, value, j + j2));
        },
        Flow::Trap(k) => {
            lemma_lands_then_traps(code, params, a, b, c, m, m1, j, k);
        },
    }
}

/// An end that is no landing, in a piece of code, is the same end in every
/// piece that starts with it.
pub proof fn lemma_flows_early(
    code: CodeView,
    params: Seq<i64>,
    a: CompilerView,
    b: CompilerView,
    c: CompilerView,
    m: Machine,
    flow: Flow,
)
    requires
        grows(a, b),
        grows(b, c),
        !(flow is Next),
        flows(code, params, a, b, m, flow),
    ensures
        flows(code, params, a, c, m, flow),
{
    match flow {
        Flow::Return(value) => {
            let j = choose|j: nat| #[trigger] leaves(code, params, a, b, m, value, j);
            assert(leaves(code, params, a, c, m, value, j));
        },
        Flow::Trap(k) => {
            lemma_traps_early(code, params, a, b, c, m, k);
        },
        _ => {},
    }
}

/// The code of an assignment writes the value of its expression into the
/// slot of its variable.
pub proof fn lemma_set_var_runs(
    f: UserFunctionView,
    c: CompilerView,
    statement: int,
    code: CodeView,
    params: Seq<i64>,
    m: Machine,
)
    requires
        c.wf(),
        0 <= statement < f.statements.len(),
        f.statements[statement] is SetVar,
        f.compile_statement(c, statement).1 is Ok,
        ready(code, f.compile_statement(c, statement).0, m),
    ensures
        ({
            let c2 = f.compile_statement(c, statement).0;
            let flow = f.exec_statement(c.code.slots, m.slots, statement);
            &&& grows(c, c2)
            &&& flow is Next ==> c2.needs_terminator()
            &&& flows(code, params, c, c2, m, flow)
        }),
{
    let c2 = f.compile_statement(c, statement).0;
    let flow = f.exec_statement(c.code.slots, m.slots, statement);
    match f.statements[statement] {
        StatementView::SetVar { span, var_name, value_expr } => {
            let (c1, r1) = f.compile_expr(c, value_expr.0 as int);
            let value = r1->Ok_0;
            let slot = find_slot(c1.code.slots, var_name, 0)->Some_0;
            let inst = Inst::Store { slot, value: value.operand };
            lemma_steps_extend_any(c1);
            lemma_code_extends_trans(c1.code, c2.code, code);
            lemma_compile_expr_runs(f, c, value_expr.0 as int, code, params, m);
            lemma_grows_emit(c1);
            lemma_grows_trans(c, c1, c2);
            lemma_find_slot(c1.code.slots, var_name, 0);
            match f.eval_expr(c.code.slots, m.slots, value_expr.0 as int) {
                Ok(x) => {
                    let (m1, j) = choose|m1: Machine, j: nat| #[trigger]
                        lands(code, params, c, c1, m, m1, j) && m1.slots == m.slots
                            && operand_value(value.operand, params, m1.regs) == Some(x);
                    let m2 = Machine { regs: m1.regs, slots: m1.slots.update(slot as int, x) };
                    lemma_emitted_stands(c1, inst, code);
                    lemma_step_next(code, params, c1.cursor.0 as int, c1.here(), m1, m2);
                    assert(lands(code, params, c1, c2, m1, m2, 0));
                    lemma_lands_trans(code, params, c, c1, c2, m, m1, j, m2, 0);
                    assert(lands(code, params, c, c2, m, m2, j) && m2.slots == m.slots.update(
                        slot as int,
                        x,
                    ));
                },
                Err(k) => {
                    lemma_traps_early(code, params, c, c1, c2, m, k);
                },
            }
        },
        _ => {},
    }
}

/// A return of an operand, after a piece of code that yields a value in
/// that operand, returns the value.
pub proof fn lemma_yields_then_return(
    c: CompilerView,
    c1: CompilerView,
    operand: Operand,
    x: i64,
    code: CodeView,
    params: Seq<i64>,
    m: Machine,
)
    requires
        grows(c, c1),
        yields(code, params, c, c1, m, operand, x),
        code_extends(c1.emit(Inst::Return(operand)).code, code),
    ensures
        grows(c, c1.emit(Inst::Return(operand))),
        flows(code, params, c, c1.emit(Inst::Return(operand)), m, Flow::Return(x)),
{
    let inst = Inst::Return(operand);
    let c2 = c1.emit(inst);
    lemma_grows_emit(c1);
    lemma_grows_trans(c, c1, c2);
    let (m1, j) = choose|m1: Machine, j: nat| #[trigger]
        lands(code, params, c, c1, m, m1, j) && m1.slots == m.slots && operand_value(
            operand,
            params,
            m1.regs,
        ) == Some(x);
    lemma_emitted_stands(c1, inst, code);
    lemma_step_return(code, params, c1.cursor.0 as int, c1.here(), m1, x);
    lemma_arrives_then_gives(
        code,
        params,
        c.cursor.0 as int,
        c.here(),
        m,
        c1.cursor.0 as int,
        c1.here(),
        m1,
        j,
        x,
        0,
    );
    assert(gives(code, params, c.cursor.0 as int, c.here(), m, x, j));
    assert(c2.code.blocks.len() == c1.code.blocks.len());
    assert(leaves(code, params, c, c2, m, x, j));
    assert(exists|jumps: nat| #[trigger] leaves(code, params, c, c2, m, x, jumps));
    let flow = Flow::Return(x);
    assert(flow matches Flow::Return(value) && value == x);
    assert(flows(code, params, c, c2, m, flow));
}

/// The code of an exit returns the value of its expression.
pub proof fn lemma_return_runs(
    f: UserFunctionView,
    c: CompilerView,
    statement: int,
    code: CodeView,
    params: Seq<i64>,
    m: Machine,
)
    requires
        c.wf(),
        0 <= statement < f.statements.len(),
        f.statements[statement] is Return,
        f.compile_statement(c, statement).1 is Ok,
        ready(code, f.compile_statement(c, statement).0, m),
    ensures
        ({
            let c2 = f.compile_statement(c, statement).0;
            let flow = f.exec_statement(c.code.slots, m.slots, statement);
            &&& grows(c, c2)
            &&& !(flow is Next)
            &&& flows(code, params, c, c2, m, flow)
        }),
{
    let c2 = f.compile_statement(c, statement).0;
    let ret_expr = f.statements[statement]->Return_ret_expr;
    let (c1, r1) = f.compile_expr(c, ret_expr.0 as int);
    let value = r1->Ok_0;
    lemma_compile_expr_extends(f, c, ret_expr.0 as int);
    if value.ty == Type::Int {
        let inst = Inst::Return(value.operand);
        assert(c2 == c1.emit(inst));
        lemma_steps_extend_any(c1);
        lemma_code_extends_trans(c1.code, c2.code, code);
        lemma_compile_expr_runs(f, c, ret_expr.0 as int, code, params, m);
        lemma_grows_emit(c1);
        lemma_grows_trans(c, c1, c2);
        match f.eval_expr(c.code.slots, m.slots, ret_expr.0 as int) {
            Ok(x) => {
                lemma_yields_then_return(c, c1, value.operand, x, code, params, m);
            },
            Err(k) => {
                lemma_traps_early(code, params, c, c1, c2, m, k);
            },
        }
    } else {
        lemma_cell_state_return_runs(f, c, statement, code, params, m);
    }
}

/// The code of an exit with a cell state returns the cell state, widened
/// to the width of the returned value.
proof fn lemma_cell_state_return_runs(
    f: UserFunctionView,
    c: CompilerView,
    statement: int,
    code: CodeView,
    params: Seq<i64>,
    m: Machine,
)
    requires
        c.wf(),
        0 <= statement < f.statements.len(),
        f.statements[statement] is Return,
        f.compile_statement(c, statement).1 is Ok,
        f.compile_expr(c, f.statements[statement]->Return_ret_expr.0 as int).1->Ok_0.ty
            == Type::CellState,
        ready(code, f.compile_statement(c, statement).0, m),
    ensures
        ({
            let c2 = f.compile_statement(c, statement).0;
            let flow = f.exec_statement(c.code.slots, m.slots, statement);
            &&& grows(c, c2)
            &&& !(flow is Next)
            &&& flows(code, params, c, c2, m, flow)
        }),
{
    let c2 = f.compile_statement(c, statement).0;
    let ret_expr = f.statements[statement]->Return_ret_expr;
    let (c1, r1) = f.compile_expr(c, ret_expr.0 as int);
    let value = r1->Ok_0;
    let wide = Inst::Cast { op: CastOp::ZExtToInt, value: value.operand, dest: c1.code.reg_count };
    let c1a = c1.with_regs(1).emit(wide);
    let result = Operand::Reg(c1.code.reg_count);
    assert(c2 == c1a.emit(Inst::Return(result)));
    lemma_build_value_extends(
        c1,
        |dest: usize| Inst::Cast { op: CastOp::ZExtToInt, value: value.operand, dest },
    );
    lemma_steps_extend_any(c1a);
    lemma_code_extends_trans(c1a.code, c2.code, code);
    lemma_code_extends_trans(c1.code, c1a.code, code);
    lemma_compile_expr_runs(f, c, ret_expr.0 as int, code, params, m);
    lemma_grows_emit(c1);
    lemma_grows_emit(c1.with_regs(1));
    lemma_grows_trans(c1, c1.with_regs(1), c1a);
    lemma_grows_emit(c1a);
    lemma_grows_trans(c, c1, c1a);
    lemma_grows_trans(c, c1a, c2);
    match f.eval_expr(c.code.slots, m.slots, ret_expr.0 as int) {
        Ok(x) => {
            assert forall|m1: Machine|
                kept_below(m, m1, c.code.reg_count as int) && m1.slots == m.slots
                    && operand_value(value.operand, params, m1.regs) == Some(
                    x,
                ) implies #[trigger] step(wide, params, m1) == Step::Next(
                Machine {
                    regs: m1.regs.update(c1.code.reg_count as int, Some(x)),
                    slots: m1.slots,
                },
            ) by {}
            lemma_yields_then_value(c, c1, value.operand, x, wide, code, params, m, x);
            lemma_yields_then_return(c, c1a, result, x, code, params, m);
        },
        Err(k) => {
            lemma_traps_early(code, params, c, c1, c2, m, k);
        },
    }
}

/// The code of a statement does what the statement means. Where the code
/// stands in a larger code, running it on any machine of that code either
/// comes to the end of the statement with the variables as the statement
/// leaves them, or returns what the statement returns, or returns the
/// signal of the error point that the statement ends with.
#[verifier::rlimit(60)]
pub proof fn lemma_compile_statement_runs(
    f: UserFunctionView,
    c: CompilerView,
    statement: int,
    code: CodeView,
    params: Seq<i64>,
    m: Machine,
)
    requires
        c.wf(),
        f.compile_statement(c, statement).1 is Ok,
        ready(code, f.compile_statement(c, statement).0, m),
    ensures
        ({
            let c2 = f.compile_statement(c, statement).0;
            let flow = f.exec_statement(c.code.slots, m.slots, statement);
            &&& grows(c, c2)
            &&& flow is Next ==> c2.needs_terminator()
            &&& flows(code, params, c, c2, m, flow)
        }),
    decreases statement, f.nested_count(statement) + 1,
{
    let c2 = f.compile_statement(c, statement).0;
    let flow = f.exec_statement(c.code.slots, m.slots, statement);
    match f.statements[statement] {
        StatementView::SetVar { .. } => {
            lemma_set_var_runs(f, c, statement, code, params, m);
        },
        StatementView::If { span, cond_expr, if_true, if_false } => {
            let (c1, r1) = f.compile_expr(c, cond_expr.0 as int);
            let cond = r1->Ok_0.operand;
            let first = |x: CompilerView|
                f.compile_block(x, span, if_true, statement, if_true.len() as int);
            let second = |x: CompilerView|
                f.compile_block(x, span, if_false, statement, if_false.len() as int);
            assert(c2 == c1.build_conditional(cond, first, second).0);
            // The arms only extend the code, so the blocks can be numbered.
            assert forall|x: CompilerView|
                code_extends(x.code, (#[trigger] first(x)).0.code) by {
                lemma_compile_block_extends(f, x, span, if_true, statement, if_true.len() as int);
            }
            assert forall|x: CompilerView|
                code_extends(x.code, (#[trigger] second(x)).0.code) by {
                lemma_compile_block_extends(
                    f,
                    x,
                    span,
                    if_false,
                    statement,
                    if_false.len() as int,
                );
            }
            assert(never_shrinks(first));
            assert(never_shrinks(second));
            lemma_conditional_never_shrinks(c1, cond, first, second);
            lemma_conditional_extends(c1, cond, first, second);
            lemma_code_extends_trans(c1.code, c2.code, code);
            lemma_compile_expr_runs(f, c, cond_expr.0 as int, code, params, m);
            lemma_conditional_parts(c1, cond, first, second);
            let o = c1.open_conditional(cond);
            let (a1, q1) = first(o);
            let n1 = c1.next_arm(a1);
            let (a2, q2) = second(n1);
            assert(c2 == c1.close_conditional(a2));
            lemma_open_conditional(c1, cond);
            // Both arms are pieces of code, whatever the machine.
            let k1 = a1.close_arm(c1.merge());
            lemma_steps_extend_any(a1);
            lemma_steps_extend_any(a2);
            lemma_code_extends_trans(a1.code, k1.code, a2.code);
            lemma_code_extends_trans(a1.code, a2.code, c2.code);
            lemma_code_extends_trans(a1.code, c2.code, code);
            lemma_code_extends_trans(a2.code, c2.code, code);
            lemma_compile_block_runs(
                f,
                o,
                span,
                if_true,
                statement,
                if_true.len() as int,
                code,
                params,
                m,
            );
            lemma_close_arm_stands(a1, c1.merge());
            assert(n1.wf());
            lemma_compile_block_runs(
                f,
                n1,
                span,
                if_false,
                statement,
                if_false.len() as int,
                code,
                params,
                m,
            );
            lemma_conditional_shape(c1, cond, a1, a2);
            lemma_grows_trans(c, c1, c2);
            match f.eval_expr(c.code.slots, m.slots, cond_expr.0 as int) {
                Ok(x) => {
                    let (m1, j) = choose|m1: Machine, j: nat| #[trigger]
                        lands(code, params, c, c1, m, m1, j) && m1.slots == m.slots
                            && operand_value(cond, params, m1.regs) == Some(x);
                    if x != 0 {
                        lemma_compile_block_runs(
                            f,
                            o,
                            span,
                            if_true,
                            statement,
                            if_true.len() as int,
                            code,
                            params,
                            m1,
                        );
                        lemma_arm_runs(c1, cond, a1, a2, code, params, m1, x, flow);
                    } else {
                        lemma_compile_block_runs(
                            f,
                            n1,
                            span,
                            if_false,
                            statement,
                            if_false.len() as int,
                            code,
                            params,
                            m1,
                        );
                        lemma_arm_runs(c1, cond, a1, a2, code, params, m1, x, flow);
                    }
                    lemma_lands_then_flows(code, params, c, c1, c2, m, m1, j, flow);
                },
                Err(k) => {
                    lemma_traps_early(code, params, c, c1, c2, m, k);
                },
            }
        },
        StatementView::Return { .. } => {
            lemma_return_runs(f, c, statement, code, params, m);
        },
    }
}

/// How a conditional runs whose arms end as `flow` says: where the arm
/// that the condition picks lands, the conditional lands; where it returns
/// or traps, the conditional does.
proof fn lemma_arm_runs(
    c: CompilerView,
    condition: Operand,
    a1: CompilerView,
    a2: CompilerView,
    code: CodeView,
    params: Seq<i64>,
    m: Machine,
    value: i64,
    flow: Flow,
)
    requires
        c.wf(),
        code.blocks.len() <= usize::MAX,
        grows(c.open_conditional(condition), a1),
        grows(c.next_arm(a1), a2),
        code_extends(c.close_conditional(a2).code, code),
        operand_value(condition, params, m.regs) == Some(value),
        value != 0 ==> flows(code, params, c.open_conditional(condition), a1, m, flow) && (flow is Next
            ==> a1.needs_terminator()),
        value == 0 ==> flows(code, params, c.next_arm(a1), a2, m, flow) && (flow is Next
            ==> a2.needs_terminator()),
    ensures
        flows(code, params, c, c.close_conditional(a2), m, flow),
{
    let o = c.open_conditional(condition);
    let n1 = c.next_arm(a1);
    let from = if value != 0 {
        o
    } else {
        n1
    };
    let to = if value != 0 {
        a1
    } else {
        a2
    };
    match flow {
        Flow::Next(mem) => {
            let (m2, j) = choose|m2: Machine, j: nat| #[trigger]
                lands(code, params, from, to, m, m2, j) && m2.slots == mem;
            lemma_conditional_runs(c, condition, a1, a2, code, params, m, value, m2, 0, j);
            assert(lands(code, params, c, c.close_conditional(a2), m, m2, j + 2));
        },
        Flow::Return(v) => {
            let j = choose|j: nat| #[trigger] leaves(code, params, from, to, m, v, j);
            lemma_conditional_runs(c, condition, a1, a2, code, params, m, value, m, v, j);
            assert(leaves(code, params, c, c.close_conditional(a2), m, v, j + 1));
        },
        Flow::Trap(k) => {
            let v = spec_encode_error(k) as i64;
            let j = choose|j: nat| #[trigger] leaves(code, params, from, to, m, v, j);
            lemma_conditional_runs(c, condition, a1, a2, code, params, m, value, m, v, j);
            assert(leaves(code, params, c, c.close_conditional(a2), m, v, j + 1));
        },
    }
}

/// The code of a block does what the block means: its statements run in
/// their order until one returns or ends with an error.
pub proof fn lemma_compile_block_runs(
    f: UserFunctionView,
    c: CompilerView,
    span: Span,
    block: Seq<StatementRef>,
    bound: int,
    count: int,
    code: CodeView,
    params: Seq<i64>,
    m: Machine,
)
    requires
        c.wf(),
        f.compile_block(c, span, block, bound, count).1 is Ok,
        ready(code, f.compile_block(c, span, block, bound, count).0, m),
    ensures
        ({
            let c2 = f.compile_block(c, span, block, bound, count).0;
            let flow = f.exec_block(c.code.slots, m.slots, block, bound, count);
            &&& grows(c, c2)
            &&& c.needs_terminator() && flow is Next ==> c2.needs_terminator()
            &&& flows(code, params, c, c2, m, flow)
        }),
    decreases bound, count,
{
    let c2 = f.compile_block(c, span, block, bound, count).0;
    if count <= 0 {
        lemma_grows_refl(c);
        lemma_arrives_at_itself(code, params, c.cursor.0 as int, c.here(), m);
        assert(lands(code, params, c, c, m, m, 0));
    } else {
        let (c1, r1) = f.compile_block(c, span, block, bound, count - 1);
        let statement = block[count - 1].0 as int;
        lemma_compile_statement_extends(f, c1, statement);
        lemma_code_extends_trans(c1.code, c2.code, code);
        lemma_compile_block_runs(f, c, span, block, bound, count - 1, code, params, m);
        // The code of the statement is a piece of code, whatever the
        // machine.
        lemma_compile_statement_runs(f, c1, statement, code, params, m);
        lemma_grows_trans(c, c1, c2);
        let before = f.exec_block(c.code.slots, m.slots, block, bound, count - 1);
        match before {
            Flow::Next(mem1) => {
                let (m1, j) = choose|m1: Machine, j: nat| #[trigger]
                    lands(code, params, c, c1, m, m1, j) && m1.slots == mem1;
                lemma_compile_statement_runs(f, c1, statement, code, params, m1);
                lemma_lands_then_flows(
                    code,
                    params,
                    c,
                    c1,
                    c2,
                    m,
                    m1,
                    j,
                    f.exec_statement(c.code.slots, mem1, statement),
                );
            },
            _ => {
                lemma_flows_early(code, params, c, c1, c2, m, before);
            },
        }
    }
}

/// What the host gets from a function whose body ends as `flow` says: the
/// value that the body returns, the signal of the error point that it ends
/// with, or nothing where the body ends without an exit.
pub open spec fn outcome(flow: Flow) -> Option<i64> {
    match flow {
        Flow::Next(_) => None,
        Flow::Return(value) => Some(value),
        Flow::Trap(k) => Some(spec_encode_error(k) as i64),
    }
}

/// The generated code computes what the program means. The code that is
/// generated for the body of a function, in a new function whose variables
/// all hold zero at the start, returns what the body returns, for all
/// parameters: the value of the exit that the body reaches, or the signal
/// of the error point that it ends with. Where the body reaches no exit,
/// the code returns nothing. The blocks and the slots must fit the indices
/// that refer to them.
pub proof fn lemma_generated_code_runs(
    f: UserFunctionView,
    name: Seq<char>,
    param_count: usize,
    slots: Seq<SlotView>,
    span: Span,
    block: Seq<StatementRef>,
    params: Seq<i64>,
)
    requires
        f.compile_body(CompilerView::begin(name, param_count, slots), span, block).1 is Ok,
        f.compile_body(
            CompilerView::begin(name, param_count, slots),
            span,
            block,
        ).0.code.blocks.len() <= usize::MAX,
        slots.len() <= usize::MAX,
    ensures
        f.compile_body(CompilerView::begin(name, param_count, slots), span, block).0.code.run(
            params,
        ) == outcome(f.exec_body(slots, Seq::new(slots.len(), |i: int| 0i64), block)),
{
    let c = CompilerView::begin(name, param_count, slots);
    let c2 = f.compile_body(c, span, block).0;
    let code = c2.code;
    let m = code.start();
    let bound = f.statements.len() as int;
    let count = block.len() as int;
    lemma_compile_block_extends(f, c, span, block, bound, count);
    lemma_code_extends_refl(code);
    assert(m.slots =~= Seq::new(slots.len(), |i: int| 0i64));
    lemma_compile_block_runs(f, c, span, block, bound, count, code, params, m);
    let flow = f.exec_body(slots, Seq::new(slots.len(), |i: int| 0i64), block);
    assert(flow == f.exec_block(c.code.slots, m.slots, block, bound, count));
    let fuel = code.blocks.len();
    assert(c.cursor.0 == 0 && c.here() == 0);
    assert(c.code.blocks.len() == 1);
    match flow {
        Flow::Next(mem) => {
            let (m2, j) = choose|m2: Machine, j: nat| #[trigger]
                lands(code, params, c, c2, m, m2, j) && m2.slots == mem;
            assert(code.run_from(params, 0, 0, m, fuel) == code.run_from(
                params,
                c2.cursor.0 as int,
                c2.here(),
                m2,
                (fuel - j) as nat,
            ));
        },
        Flow::Return(value) => {
            let j = choose|j: nat| #[trigger] leaves(code, params, c, c2, m, value, j);
            assert(code.run_from(params, 0, 0, m, fuel) == Some(value));
        },
        Flow::Trap(k) => {
            let j = choose|j: nat| #[trigger]
                leaves(code, params, c, c2, m, spec_encode_error(k) as i64, j);
            assert(code.run_from(params, 0, 0, m, fuel) == Some(spec_encode_error(k) as i64));
        },
    }
}

} // verus!
