//! What a program means: the value of an expression and the effect of a
//! statement on the variables, with the runtime errors that end a function.
use crate::ast::compile_model::{checked_op, find_slot, is_shift, plain_op, state_limit};
use crate::ast::const_eval::chain_holds;
use crate::ast::model::{ExprView, FunctionView, StatementView, UserFunctionView};
use crate::ast::userfunc::{ErrorPointRef, StatementRef};
use crate::compiler::ir::{flag, CheckedOp, SlotView};
use crate::lexer::OperatorToken;
use crate::types::MIN_INT;
use vstd::prelude::*;

verus! {

/// How running a statement or a block ends.
pub enum Flow {
    /// The statements that follow run, with the variables holding these
    /// values.
    Next(Seq<i64>),
    /// The function returns this value.
    Return(i64),
    /// The function ends with the runtime error of the error point with
    /// this index.
    Trap(usize),
}

/// The value of the operation `op` on the integers `lhs` and `rhs`, or the
/// index of the error point that it ends with. An operation without the
/// error point that it needs, and one that has no code, has no meaning: it
/// is given the value zero.
pub open spec fn eval_binary_int_op(
    op: OperatorToken,
    overflow_error: Option<ErrorPointRef>,
    div_by_zero_error: Option<ErrorPointRef>,
    lhs: i64,
    rhs: i64,
) -> Result<i64, usize> {
    if op == OperatorToken::Ampersand {
        Ok(lhs & rhs)
    } else if op == OperatorToken::Pipe {
        Ok(lhs | rhs)
    } else {
        match overflow_error {
            None => Ok(0),
            Some(overflow) => {
                if checked_op(op) is Some {
                    let (value, overflowed) = checked_op(op)->Some_0.apply(lhs, rhs);
                    if overflowed {
                        Err(overflow.idx)
                    } else {
                        Ok(value)
                    }
                } else if is_shift(op) {
                    match plain_op(op)->Some_0.apply(lhs, rhs) {
                        Some(value) => Ok(value),
                        None => Err(overflow.idx),
                    }
                } else if op == OperatorToken::Slash || op == OperatorToken::Percent {
                    match div_by_zero_error {
                        None => Ok(0),
                        Some(div_by_zero) => if rhs == 0 {
                            Err(div_by_zero.idx)
                        } else if lhs == MIN_INT && rhs == -1 {
                            Err(overflow.idx)
                        } else {
                            match plain_op(op)->Some_0.apply(lhs, rhs) {
                                Some(value) => Ok(value),
                                None => Ok(0),
                            }
                        },
                    }
                } else {
                    Ok(0)
                }
            },
        }
    }
}

impl UserFunctionView {
    /// The value of the operation of the expression `e` on the integers
    /// `args`, where the variables in the slots `table` hold the values
    /// `mem`, or the index of the error point that it ends with.
    pub open spec fn eval_operation(
        self,
        table: Seq<SlotView>,
        mem: Seq<i64>,
        e: ExprView,
        args: Seq<i64>,
    ) -> Result<i64, usize> {
        match e.function {
            FunctionView::Int(i) => Ok(i),
            FunctionView::GetVar { var_name, .. } => match find_slot(table, var_name, 0) {
                Some(slot) => Ok(mem[slot as int]),
                None => Ok(0),
            },
            FunctionView::NegInt { overflow_error } => {
                let (value, overflowed) = CheckedOp::Sub.apply(0, args[0]);
                if overflowed {
                    Err(overflow_error.idx)
                } else {
                    Ok(value)
                }
            },
            FunctionView::IntToCellState { out_of_range_error } => {
                if 0 <= args[0] < state_limit(self.rule_meta.state_count) {
                    Ok(args[0])
                } else {
                    Err(out_of_range_error.idx)
                }
            },
            FunctionView::BinaryIntOp {
                op,
                overflow_error,
                div_by_zero_error,
            } => eval_binary_int_op(op, overflow_error, div_by_zero_error, args[0], args[1]),
            FunctionView::Cmp { comparisons } => Ok(
                flag(chain_holds(comparisons, args, comparisons.len() as int)),
            ),
        }
    }

    /// The value of the expression at the index `expr`, or the index of the
    /// error point that it ends with: its arguments are evaluated from left
    /// to right, and the first that ends with an error ends the expression.
    pub open spec fn eval_expr(self, table: Seq<SlotView>, mem: Seq<i64>, expr: int) -> Result<
        i64,
        usize,
    >
        decreases expr, self.expressions[expr].args.len() + 1,
    {
        if expr < 0 || expr >= self.expressions.len() {
            Ok(0)
        } else {
            let e = self.expressions[expr];
            match self.eval_args(table, mem, e, expr, e.args.len() as int) {
                Err(k) => Err(k),
                Ok(args) => self.eval_operation(table, mem, e, args),
            }
        }
    }

    /// The values of the first `count` arguments of the expression `e`,
    /// which stands at the index `bound`.
    pub open spec fn eval_args(
        self,
        table: Seq<SlotView>,
        mem: Seq<i64>,
        e: ExprView,
        bound: int,
        count: int,
    ) -> Result<Seq<i64>, usize>
        decreases bound, count,
    {
        if count <= 0 {
            Ok(Seq::empty())
        } else {
            match self.eval_args(table, mem, e, bound, count - 1) {
                Err(k) => Err(k),
                Ok(values) => {
                    let arg = e.args[count - 1].0 as int;
                    if 0 <= arg < bound {
                        match self.eval_expr(table, mem, arg) {
                            Err(k) => Err(k),
                            Ok(value) => Ok(values.push(value)),
                        }
                    } else {
                        Ok(values.push(0))
                    }
                },
            }
        }
    }

    /// How the statement at the index `statement` ends, where the variables
    /// hold the values `mem`. An assignment writes the value of its
    /// expression into its variable. A conditional runs its first block
    /// where its condition is not zero and its second block where it is.
    /// An exit returns the value of its expression.
    pub open spec fn exec_statement(self, table: Seq<SlotView>, mem: Seq<i64>, statement: int) -> Flow
        decreases statement, self.nested_count(statement) + 1,
    {
        if statement < 0 || statement >= self.statements.len() {
            Flow::Next(mem)
        } else {
            match self.statements[statement] {
                StatementView::SetVar { var_name, value_expr, .. } => match self.eval_expr(
                    table,
                    mem,
                    value_expr.0 as int,
                ) {
                    Err(k) => Flow::Trap(k),
                    Ok(value) => match find_slot(table, var_name, 0) {
                        Some(slot) => Flow::Next(mem.update(slot as int, value)),
                        None => Flow::Next(mem),
                    },
                },
                StatementView::If { cond_expr, if_true, if_false, .. } => match self.eval_expr(
                    table,
                    mem,
                    cond_expr.0 as int,
                ) {
                    Err(k) => Flow::Trap(k),
                    Ok(value) => if value != 0 {
                        self.exec_block(table, mem, if_true, statement, if_true.len() as int)
                    } else {
                        self.exec_block(table, mem, if_false, statement, if_false.len() as int)
                    },
                },
                StatementView::Return { ret_expr, .. } => match self.eval_expr(
                    table,
                    mem,
                    ret_expr.0 as int,
                ) {
                    Err(k) => Flow::Trap(k),
                    Ok(value) => Flow::Return(value),
                },
            }
        }
    }

    /// How the first `count` statements of the block `block` end, which the
    /// statement at the index `bound` holds: the statements run in their
    /// order until one returns or ends with an error.
    pub open spec fn exec_block(
        self,
        table: Seq<SlotView>,
        mem: Seq<i64>,
        block: Seq<StatementRef>,
        bound: int,
        count: int,
    ) -> Flow
        decreases bound, count,
    {
        if count <= 0 {
            Flow::Next(mem)
        } else {
            match self.exec_block(table, mem, block, bound, count - 1) {
                Flow::Next(mem1) => {
                    let statement = block[count - 1].0 as int;
                    if 0 <= statement < bound {
                        self.exec_statement(table, mem1, statement)
                    } else {
                        Flow::Next(mem1)
                    }
                },
                other => other,
            }
        }
    }

    /// How the statements `block`, which are the body of the function or a
    /// part of it, end where the variables hold the values `mem`.
    pub open spec fn exec_body(self, table: Seq<SlotView>, mem: Seq<i64>, block: Seq<StatementRef>) -> Flow {
        self.exec_block(table, mem, block, self.statements.len() as int, block.len() as int)
    }
}

} // verus!
