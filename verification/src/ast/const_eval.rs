//! The evaluation of expressions whose value is known while compiling.
use crate::ast::compile_model::{checked_op, is_shift, malformed_program, plain_op, state_limit};
use crate::ast::model::{ExprView, FunctionView, UserFunctionView};
use crate::ast::userfunc::{ErrorPointRef, ExprRef, UserFunction};
use crate::ast::{Expr, Function};
use crate::compiler::ir::{flag, BinOp, CheckedOp};
use crate::errors::{LangError, LangErrorMsg, LangResult, Span};
use crate::lexer::{ComparisonToken, OperatorToken};
use crate::types::{ConstValue, ConstValueView};
use vstd::prelude::*;

verus! {

/// Whether the first `count` comparisons of a chain hold between the
/// integers `args`.
pub open spec fn chain_holds(comparisons: Seq<ComparisonToken>, args: Seq<i64>, count: int) -> bool
    decreases count,
{
    if count <= 0 {
        true
    } else {
        chain_holds(comparisons, args, count - 1) && comparisons[count - 1].eval(
            args[count - 1],
            args[count],
        )
    }
}

/// The result of the operation `op` on the integers `lhs` and `rhs`, or the
/// error that the code of the operation would trap to.
pub open spec fn const_binary_int_op(
    span: Span,
    op: OperatorToken,
    overflow_error: Option<ErrorPointRef>,
    div_by_zero_error: Option<ErrorPointRef>,
    lhs: i64,
    rhs: i64,
) -> Result<i64, LangError> {
    if op == OperatorToken::Ampersand {
        Ok(lhs & rhs)
    } else if op == OperatorToken::Pipe {
        Ok(lhs | rhs)
    } else if op == OperatorToken::DoubleAsterisk {
        Err(LangErrorMsg::Unimplemented.with_span(span))
    } else {
        match overflow_error {
            None => Err(malformed_program(span)),
            Some(overflow) => {
                if checked_op(op) is Some {
                    let (value, overflowed) = checked_op(op)->Some_0.apply(lhs, rhs);
                    if overflowed {
                        Err(overflow.error)
                    } else {
                        Ok(value)
                    }
                } else if is_shift(op) {
                    match plain_op(op)->Some_0.apply(lhs, rhs) {
                        Some(value) => Ok(value),
                        None => Err(overflow.error),
                    }
                } else if op == OperatorToken::Slash || op == OperatorToken::Percent {
                    match div_by_zero_error {
                        None => Err(malformed_program(span)),
                        Some(div_by_zero) => if rhs == 0 {
                            Err(div_by_zero.error)
                        } else {
                            match plain_op(op)->Some_0.apply(lhs, rhs) {
                                Some(value) => Ok(value),
                                None => Err(overflow.error),
                            }
                        },
                    }
                } else {
                    Err(malformed_program(span))
                }
            },
        }
    }
}

impl UserFunctionView {
    /// The value of the operation of the expression `e` on the integers
    /// `args`, or the error that its code would end with. A variable has no
    /// value that is known while compiling.
    pub open spec fn const_operation(self, e: ExprView, args: Seq<i64>) -> Result<
        ConstValueView,
        LangError,
    > {
        if args.len() != e.function.arity() {
            Err(malformed_program(e.span))
        } else {
            match e.function {
                FunctionView::Int(i) => Ok(ConstValueView::Int(i)),
                FunctionView::GetVar { .. } => Err(
                    LangErrorMsg::CannotEvalAsConst.with_span(e.span),
                ),
                FunctionView::NegInt { overflow_error } => {
                    let (value, overflowed) = CheckedOp::Sub.apply(0, args[0]);
                    if overflowed {
                        Err(overflow_error.error)
                    } else {
                        Ok(ConstValueView::Int(value))
                    }
                },
                FunctionView::IntToCellState { out_of_range_error } => {
                    if 0 <= args[0] < state_limit(self.rule_meta.state_count) {
                        Ok(ConstValueView::CellState(args[0] as u8))
                    } else {
                        Err(out_of_range_error.error)
                    }
                },
                FunctionView::BinaryIntOp {
                    op,
                    overflow_error,
                    div_by_zero_error,
                } => match const_binary_int_op(
                    e.span,
                    op,
                    overflow_error,
                    div_by_zero_error,
                    args[0],
                    args[1],
                ) {
                    Ok(value) => Ok(ConstValueView::Int(value)),
                    Err(error) => Err(error),
                },
                FunctionView::Cmp { comparisons } => Ok(
                    ConstValueView::Int(
                        flag(chain_holds(comparisons, args, comparisons.len() as int)),
                    ),
                ),
            }
        }
    }

    /// The value of the expression at the index `expr`, where it is known
    /// while compiling: the values of its arguments from left to right,
    /// then the value of its operation.
    pub open spec fn const_eval_expr(self, expr: int) -> Result<ConstValueView, LangError>
        decreases expr, self.expressions[expr].args.len() + 1,
    {
        if expr < 0 || expr >= self.expressions.len() {
            Err(LangErrorMsg::InternalError("Malformed program").without_span())
        } else {
            let e = self.expressions[expr];
            match self.const_eval_args(e, expr, e.args.len() as int) {
                Err(error) => Err(error),
                Ok(args) => self.const_operation(e, args),
            }
        }
    }

    /// The values of the first `count` arguments of the expression `e`,
    /// which stands at the index `bound`, up to the first that has none.
    pub open spec fn const_eval_args(self, e: ExprView, bound: int, count: int) -> Result<
        Seq<i64>,
        LangError,
    >
        decreases bound, count,
    {
        if count <= 0 {
            Ok(Seq::empty())
        } else {
            match self.const_eval_args(e, bound, count - 1) {
                Err(error) => Err(error),
                Ok(values) => {
                    let arg = e.args[count - 1].0 as int;
                    if 0 <= arg < bound {
                        match self.const_eval_expr(arg) {
                            Err(error) => Err(error),
                            Ok(ConstValueView::Int(value)) => Ok(values.push(value)),
                            Ok(_) => Err(malformed_program(e.span)),
                        }
                    } else {
                        Err(malformed_program(e.span))
                    }
                },
            }
        }
    }
}

/// Where a prefix of the arguments of an expression has no value, a longer
/// prefix has none in the same way.
pub proof fn lemma_const_eval_args_stops(
    f: UserFunctionView,
    e: ExprView,
    bound: int,
    count: int,
    more: int,
)
    requires
        0 <= count <= more,
        f.const_eval_args(e, bound, count) is Err,
    ensures
        f.const_eval_args(e, bound, more) == f.const_eval_args(e, bound, count),
    decreases more,
{
    if count < more {
        lemma_const_eval_args_stops(f, e, bound, count, more - 1);
    }
}

/// Whether every comparison of a chain holds between the integers `args`.
fn chain_holds_of(comparisons: &Vec<ComparisonToken>, args: &Vec<i64>) -> (holds: bool)
    requires
        args@.len() == comparisons@.len() + 1,
    ensures
        holds == chain_holds(comparisons@, args@, comparisons@.len() as int),
{
    let mut holds = true;
    let mut k: usize = 0;
    while k < comparisons.len()
        invariant
            k <= comparisons.len(),
            args@.len() == comparisons@.len() + 1,
            holds == chain_holds(comparisons@, args@, k as int),
        decreases comparisons.len() - k,
    {
        let this_one = comparisons[k].eval(args[k], args[k + 1]);
        holds = holds && this_one;
        k = k + 1;
    }
    holds
}

/// The result of the operation `op` on the integers `lhs` and `rhs`, or the
/// error that the code of the operation would trap to.
fn const_binary_int_op_of(
    span: Span,
    op: OperatorToken,
    overflow_error: Option<ErrorPointRef>,
    div_by_zero_error: Option<ErrorPointRef>,
    lhs: i64,
    rhs: i64,
) -> (result: LangResult<i64>)
    ensures
        result == const_binary_int_op(span, op, overflow_error, div_by_zero_error, lhs, rhs),
{
    match op {
        OperatorToken::Ampersand => {
            return Ok(lhs & rhs);
        },
        OperatorToken::Pipe => {
            return Ok(lhs | rhs);
        },
        OperatorToken::DoubleAsterisk => {
            return Err(LangErrorMsg::Unimplemented.with_span(span));
        },
        _ => {},
    }
    let overflow = match overflow_error {
        Some(overflow) => overflow,
        None => {
            return Err(LangErrorMsg::InternalError("Malformed program").with_span(span));
        },
    };
    match op {
        OperatorToken::Plus | OperatorToken::Minus | OperatorToken::Asterisk => {
            let checked = match op {
                OperatorToken::Plus => CheckedOp::Add,
                OperatorToken::Minus => CheckedOp::Sub,
                _ => CheckedOp::Mul,
            };
            let (value, overflowed) = checked.apply(lhs, rhs);
            if overflowed {
                Err(overflow.error)
            } else {
                Ok(value)
            }
        },
        OperatorToken::DoubleLessThan
        | OperatorToken::DoubleGreaterThan
        | OperatorToken::TripleGreaterThan => {
            let shift = match op {
                OperatorToken::DoubleLessThan => BinOp::Shl,
                OperatorToken::DoubleGreaterThan => BinOp::AShr,
                _ => BinOp::LShr,
            };
            match shift.apply(lhs, rhs) {
                Some(value) => Ok(value),
                None => Err(overflow.error),
            }
        },
        OperatorToken::Slash | OperatorToken::Percent => {
            let div_by_zero = match div_by_zero_error {
                Some(div_by_zero) => div_by_zero,
                None => {
                    return Err(LangErrorMsg::InternalError("Malformed program").with_span(span));
                },
            };
            if rhs == 0 {
                return Err(div_by_zero.error);
            }
            let division = match op {
                OperatorToken::Slash => BinOp::SDiv,
                _ => BinOp::SRem,
            };
            match division.apply(lhs, rhs) {
                Some(value) => Ok(value),
                None => Err(overflow.error),
            }
        },
        _ => Err(LangErrorMsg::InternalError("Malformed program").with_span(span)),
    }
}

impl UserFunction {
    /// The value of the operation of the expression `node` on the integers
    /// `args`.
    fn const_operation(&self, node: &Expr, args: &Vec<i64>) -> (result: LangResult<ConstValue>)
        ensures
            match self@.const_operation(node@, args@) {
                Ok(value) => result is Ok && result->Ok_0@ == value,
                Err(error) => result == Err::<ConstValue, LangError>(error),
            },
    {
        if !node.function.takes(args.len()) {
            return Err(LangErrorMsg::InternalError("Malformed program").with_span(node.span));
        }
        match &node.function {
            Function::Int(i) => Ok(ConstValue::Int(*i)),
            Function::GetVar { .. } => Err(LangErrorMsg::CannotEvalAsConst.with_span(node.span)),
            Function::NegInt { overflow_error } => {
                let (value, overflowed) = CheckedOp::Sub.apply(0, args[0]);
                if overflowed {
                    Err(overflow_error.error)
                } else {
                    Ok(ConstValue::Int(value))
                }
            },
            Function::IntToCellState { out_of_range_error } => {
                let state_count = self.rule_meta().state_count;
                let limit: i64 = if state_count < 256 {
                    state_count as i64
                } else {
                    256
                };
                if 0 <= args[0] && args[0] < limit {
                    Ok(ConstValue::CellState(args[0] as u8))
                } else {
                    Err(out_of_range_error.error)
                }
            },
            Function::BinaryIntOp {
                op,
                overflow_error,
                div_by_zero_error,
            } => match const_binary_int_op_of(
                node.span,
                *op,
                *overflow_error,
                *div_by_zero_error,
                args[0],
                args[1],
            ) {
                Ok(value) => Ok(ConstValue::Int(value)),
                Err(error) => Err(error),
            },
            Function::Cmp { comparisons } => {
                if chain_holds_of(comparisons, args) {
                    Ok(ConstValue::Int(1))
                } else {
                    Ok(ConstValue::Int(0))
                }
            },
        }
    }

    /// Evaluates an expression whose value is known while compiling. The
    /// error is `CannotEvalAsConst` where the expression reads a variable,
    /// and the error of an error point where the code of the expression
    /// would end with it.
    pub fn const_eval_expr(&self, expr: ExprRef) -> (result: LangResult<ConstValue>)
        requires
            self@.has_expr(expr),
        ensures
            match self@.const_eval_expr(expr.0 as int) {
                Ok(value) => result is Ok && result->Ok_0@ == value,
                Err(error) => result == Err::<ConstValue, LangError>(error),
            },
        decreases expr.0,
    {
        let node = self.expr(expr);
        let mut args: Vec<i64> = Vec::new();
        let mut k: usize = 0;
        while k < node.args.len()
            invariant
                k <= node.args.len(),
                self@.has_expr(expr),
                node@ == self@.expressions[expr.0 as int],
                self@.const_eval_args(node@, expr.0 as int, k as int) == Ok::<Seq<i64>, LangError>(
                    args@,
                ),
            decreases node.args.len() - k,
        {
            let arg = node.args[k];
            proof {
                assert(node@.args[k as int] == arg);
            }
            if arg.0 >= expr.0 {
                proof {
                    assert(self@.const_eval_args(node@, expr.0 as int, k + 1) == Err::<
                        Seq<i64>,
                        LangError,
                    >(malformed_program(node.span)));
                    lemma_const_eval_args_stops(
                        self@,
                        node@,
                        expr.0 as int,
                        k + 1,
                        node.args@.len() as int,
                    );
                }
                return Err(LangErrorMsg::InternalError("Malformed program").with_span(node.span));
            }
            match self.const_eval_expr(arg) {
                Err(error) => {
                    proof {
                        assert(self@.const_eval_args(node@, expr.0 as int, k + 1) == Err::<
                            Seq<i64>,
                            LangError,
                        >(error));
                        lemma_const_eval_args_stops(
                            self@,
                            node@,
                            expr.0 as int,
                            k + 1,
                            node.args@.len() as int,
                        );
                    }
                    return Err(error);
                },
                Ok(ConstValue::Int(value)) => {
                    let ghost before = args@;
                    args.push(value);
                    proof {
                        assert(args@ == before.push(value));
                    }
                },
                Ok(_) => {
                    proof {
                        assert(self@.const_eval_args(node@, expr.0 as int, k + 1) == Err::<
                            Seq<i64>,
                            LangError,
                        >(malformed_program(node.span)));
                        lemma_const_eval_args_stops(
                            self@,
                            node@,
                            expr.0 as int,
                            k + 1,
                            node.args@.len() as int,
                        );
                    }
                    return Err(
                        LangErrorMsg::InternalError("Malformed program").with_span(node.span),
                    );
                },
            }
            k = k + 1;
        }
        self.const_operation(node, &args)
    }
}

} // verus!
