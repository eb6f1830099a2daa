//! What generating the code of an expression or a statement means: the
//! generator after it, and the value it computed or the error.
use crate::ast::model::{ExprView, FunctionView, StatementView, UserFunctionView};
use crate::ast::userfunc::{ErrorPointRef, StatementRef};
use crate::compiler::ir::{BinOp, CastOp, CheckedOp, Operand, SlotView};
use crate::compiler::model::{nothing, trap, ArmFn, CompilerView};
use crate::compiler::value::Value;
use crate::errors::{LangError, LangErrorMsg, Span};
use crate::lexer::{ComparisonToken, OperatorToken};
use crate::types::{Type, INT_BITS};
use vstd::prelude::*;

verus! {

/// The error for a program whose nodes do not fit together: an expression
/// that refers to a later one, a wrong number of arguments, an operation
/// without the error point it needs.
pub open spec fn malformed_program(span: Span) -> LangError {
    LangErrorMsg::InternalError("Malformed program").with_span(span)
}

/// The error for a variable that the generator has no slot for, or has a
/// slot of another type for.
pub open spec fn no_slot(span: Span) -> LangError {
    LangErrorMsg::InternalError("Variable has no slot of its type").with_span(span)
}

/// The index of the first slot from `from` on that is named `name`.
pub open spec fn find_slot(slots: Seq<SlotView>, name: Seq<char>, from: int) -> Option<usize>
    decreases slots.len() - from,
{
    if from < 0 || from >= slots.len() {
        None
    } else if slots[from].name == name {
        Some(from as usize)
    } else {
        find_slot(slots, name, from + 1)
    }
}

/// The value of the type `ty` that `built` gives, if it gives one.
pub open spec fn as_value(built: (CompilerView, Result<Operand, LangError>), ty: Type) -> (
    CompilerView,
    Result<Value, LangError>,
) {
    match built.1 {
        Ok(operand) => (built.0, Ok(Value { ty, operand })),
        Err(error) => (built.0, Err(error)),
    }
}

/// An integer constant of the language.
pub open spec fn int_const(value: i64) -> Operand {
    Operand::Const { bits: INT_BITS, value }
}

/// Number of cell states that the conversion of an integer accepts: those
/// of the rule, as far as a cell state can hold them.
pub open spec fn state_limit(state_count: u16) -> i64 {
    if state_count < 256 {
        state_count as i64
    } else {
        256
    }
}

/// The instruction for an operator that neither overflows nor divides, and
/// for a shift once its amount is checked.
pub open spec fn plain_op(op: OperatorToken) -> Option<BinOp> {
    match op {
        OperatorToken::Ampersand => Some(BinOp::And),
        OperatorToken::Pipe => Some(BinOp::Or),
        OperatorToken::DoubleLessThan => Some(BinOp::Shl),
        OperatorToken::DoubleGreaterThan => Some(BinOp::AShr),
        OperatorToken::TripleGreaterThan => Some(BinOp::LShr),
        OperatorToken::Slash => Some(BinOp::SDiv),
        OperatorToken::Percent => Some(BinOp::SRem),
        _ => None,
    }
}

/// The overflow-reporting operation for an operator that has one.
pub open spec fn checked_op(op: OperatorToken) -> Option<CheckedOp> {
    match op {
        OperatorToken::Plus => Some(CheckedOp::Add),
        OperatorToken::Minus => Some(CheckedOp::Sub),
        OperatorToken::Asterisk => Some(CheckedOp::Mul),
        _ => None,
    }
}

/// Whether `op` is a shift.
pub open spec fn is_shift(op: OperatorToken) -> bool {
    op == OperatorToken::DoubleLessThan || op == OperatorToken::DoubleGreaterThan || op
        == OperatorToken::TripleGreaterThan
}

impl CompilerView {
    /// With the check that `value` lies in `0..limit`: two comparisons, and
    /// a conditional that runs what `on_out_of_range` builds where one of
    /// them fails.
    pub open spec fn build_range_check(self, value: Operand, limit: i64, on_out_of_range: ArmFn) -> (
        CompilerView,
        Result<(), LangError>,
    ) {
        let (c1, r1) = self.build_compare(ComparisonToken::LessThan, value, int_const(0));
        match r1 {
            Err(error) => (c1, Err(error)),
            Ok(is_negative) => {
                let (c2, r2) = c1.build_compare(
                    ComparisonToken::GreaterThanOrEqual,
                    value,
                    int_const(limit),
                );
                match r2 {
                    Err(error) => (c2, Err(error)),
                    Ok(is_large) => {
                        let (c3, r3) = c2.build_binary(BinOp::Or, is_negative, is_large);
                        match r3 {
                            Err(error) => (c3, Err(error)),
                            Ok(is_outside) => c3.build_conditional(
                                is_outside,
                                on_out_of_range,
                                nothing(),
                            ),
                        }
                    },
                }
            },
        }
    }

    /// With the first `count` comparisons of a chain between the values
    /// `args`, each combined with those before it. Gives the single bit
    /// that tells whether all of them hold.
    pub open spec fn build_chain(
        self,
        comparisons: Seq<ComparisonToken>,
        args: Seq<Value>,
        count: int,
    ) -> (CompilerView, Result<Operand, LangError>)
        decreases count,
    {
        if count <= 0 {
            (self, Ok(Operand::Const { bits: 1, value: 1 }))
        } else {
            let (c1, r1) = self.build_chain(comparisons, args, count - 1);
            match r1 {
                Err(error) => (c1, Err(error)),
                Ok(all_before) => {
                    let (c2, r2) = c1.build_compare(
                        comparisons[count - 1],
                        args[count - 1].operand,
                        args[count].operand,
                    );
                    match r2 {
                        Err(error) => (c2, Err(error)),
                        Ok(this_one) => c2.build_binary(BinOp::And, all_before, this_one),
                    }
                },
            }
        }
    }

    /// With the code of the operation `op` on the integers `lhs` and `rhs`
    /// that traps to `overflow_error` where the result leaves the range of
    /// the integers or a shift has no result, and to `div_by_zero_error`
    /// where it divides by zero.
    pub open spec fn build_binary_int_op(
        self,
        span: Span,
        op: OperatorToken,
        overflow_error: Option<ErrorPointRef>,
        div_by_zero_error: Option<ErrorPointRef>,
        lhs: Operand,
        rhs: Operand,
    ) -> (CompilerView, Result<Operand, LangError>) {
        if op == OperatorToken::Ampersand || op == OperatorToken::Pipe {
            self.build_binary(plain_op(op)->Some_0, lhs, rhs)
        } else if op == OperatorToken::DoubleAsterisk {
            (self, Err(LangErrorMsg::Unimplemented.with_span(span)))
        } else {
            match overflow_error {
                None => (self, Err(malformed_program(span))),
                Some(overflow) => {
                    if checked_op(op) is Some {
                        self.build_checked_int_arithmetic(
                            lhs,
                            rhs,
                            checked_op(op)->Some_0,
                            trap(overflow.idx),
                        )
                    } else if is_shift(op) {
                        let (c1, r1) = self.build_range_check(rhs, 64, trap(overflow.idx));
                        match r1 {
                            Err(error) => (c1, Err(error)),
                            Ok(_) => c1.build_binary(plain_op(op)->Some_0, lhs, rhs),
                        }
                    } else if op == OperatorToken::Slash || op == OperatorToken::Percent {
                        match div_by_zero_error {
                            None => (self, Err(malformed_program(span))),
                            Some(div_by_zero) => {
                                let (c1, r1) = self.build_div_check(
                                    lhs,
                                    rhs,
                                    trap(overflow.idx),
                                    trap(div_by_zero.idx),
                                );
                                match r1 {
                                    Err(error) => (c1, Err(error)),
                                    Ok(_) => c1.build_binary(plain_op(op)->Some_0, lhs, rhs),
                                }
                            },
                        }
                    } else {
                        (self, Err(malformed_program(span)))
                    }
                },
            }
        }
    }
}

impl UserFunctionView {
    /// The code of the operation of the expression `e` on the values
    /// `args` of its arguments.
    pub open spec fn compile_operation(self, c: CompilerView, e: ExprView, args: Seq<Value>) -> (
        CompilerView,
        Result<Value, LangError>,
    ) {
        if args.len() != e.function.arity() {
            (c, Err(malformed_program(e.span)))
        } else {
            match e.function {
                FunctionView::Int(i) => (c, Ok(Value { ty: Type::Int, operand: int_const(i) })),
                FunctionView::GetVar { var_name, var_type } => match find_slot(
                    c.code.slots,
                    var_name,
                    0,
                ) {
                    None => (c, Err(no_slot(e.span))),
                    Some(slot) => if c.code.slots[slot as int].ty != var_type {
                        (c, Err(no_slot(e.span)))
                    } else if var_type is Vector {
                        (c, Err(LangErrorMsg::Unimplemented.with_span(e.span)))
                    } else {
                        as_value(c.build_load(slot), var_type)
                    },
                },
                FunctionView::NegInt { overflow_error } => as_value(
                    c.build_checked_int_arithmetic(
                        int_const(0),
                        args[0].operand,
                        CheckedOp::Sub,
                        trap(overflow_error.idx),
                    ),
                    Type::Int,
                ),
                FunctionView::IntToCellState { out_of_range_error } => {
                    let (c1, r1) = c.build_range_check(
                        args[0].operand,
                        state_limit(self.rule_meta.state_count),
                        trap(out_of_range_error.idx),
                    );
                    match r1 {
                        Err(error) => (c1, Err(error)),
                        Ok(_) => as_value(
                            c1.build_cast(CastOp::TruncToCellState, args[0].operand),
                            Type::CellState,
                        ),
                    }
                },
                FunctionView::BinaryIntOp { op, overflow_error, div_by_zero_error } => as_value(
                    c.build_binary_int_op(
                        e.span,
                        op,
                        overflow_error,
                        div_by_zero_error,
                        args[0].operand,
                        args[1].operand,
                    ),
                    Type::Int,
                ),
                FunctionView::Cmp { comparisons } => {
                    let (c1, r1) = c.build_chain(comparisons, args, comparisons.len() as int);
                    match r1 {
                        Err(error) => (c1, Err(error)),
                        Ok(all) => as_value(c1.build_cast(CastOp::ZExtToInt, all), Type::Int),
                    }
                },
            }
        }
    }

    /// The code of the expression at the index `expr`: the code of its
    /// arguments from left to right, then the code of its operation.
    pub open spec fn compile_expr(self, c: CompilerView, expr: int) -> (
        CompilerView,
        Result<Value, LangError>,
    )
        decreases expr, self.expressions[expr].args.len() + 1,
    {
        if expr < 0 || expr >= self.expressions.len() {
            (c, Err(LangErrorMsg::InternalError("Malformed program").without_span()))
        } else {
            let e = self.expressions[expr];
            let (c1, r1) = self.compile_args(c, e, expr, e.args.len() as int);
            match r1 {
                Err(error) => (c1, Err(error)),
                Ok(args) => self.compile_operation(c1, e, args),
            }
        }
    }

    /// The code of the first `count` arguments of the expression `e`, which
    /// stands at the index `bound`, from left to right and up to the first
    /// that fails.
    pub open spec fn compile_args(self, c: CompilerView, e: ExprView, bound: int, count: int) -> (
        CompilerView,
        Result<Seq<Value>, LangError>,
    )
        decreases bound, count,
    {
        if count <= 0 {
            (c, Ok(Seq::empty()))
        } else {
            let (c1, r1) = self.compile_args(c, e, bound, count - 1);
            match r1 {
                Err(error) => (c1, Err(error)),
                Ok(values) => {
                    let arg = e.args[count - 1].0 as int;
                    if 0 <= arg < bound {
                        let (c2, r2) = self.compile_expr(c1, arg);
                        match r2 {
                            Err(error) => (c2, Err(error)),
                            Ok(value) => (c2, Ok(values.push(value))),
                        }
                    } else {
                        (c1, Err(malformed_program(e.span)))
                    }
                },
            }
        }
    }

    /// Number of statements that the statement at the index `statement`
    /// holds in its blocks.
    pub open spec fn nested_count(self, statement: int) -> nat {
        match self.statements[statement] {
            StatementView::If { if_true, if_false, .. } => if_true.len() + if_false.len(),
            _ => 0,
        }
    }

    /// The code of the statement at the index `statement`.
    pub open spec fn compile_statement(self, c: CompilerView, statement: int) -> (
        CompilerView,
        Result<(), LangError>,
    )
        decreases statement, self.nested_count(statement) + 1,
    {
        if statement < 0 || statement >= self.statements.len() {
            (c, Err(LangErrorMsg::InternalError("Malformed program").without_span()))
        } else {
            match self.statements[statement] {
                StatementView::SetVar { span, var_name, value_expr } => {
                    let (c1, r1) = self.compile_expr(c, value_expr.0 as int);
                    match r1 {
                        Err(error) => (c1, Err(error)),
                        Ok(value) => match find_slot(c1.code.slots, var_name, 0) {
                            None => (c1, Err(no_slot(span))),
                            Some(slot) => {
                                let ty = c1.code.slots[slot as int].ty;
                                if ty != value.ty {
                                    (
                                        c1,
                                        Err(
                                            LangErrorMsg::TypeError {
                                                expected: ty,
                                                got: value.ty,
                                            }.with_span(span),
                                        ),
                                    )
                                } else if ty is Vector {
                                    (c1, Err(LangErrorMsg::Unimplemented.with_span(span)))
                                } else {
                                    (c1.build_store(slot, value.operand), Ok(()))
                                }
                            },
                        },
                    }
                },
                StatementView::If { span, cond_expr, if_true, if_false } => {
                    let (c1, r1) = self.compile_expr(c, cond_expr.0 as int);
                    match r1 {
                        Err(error) => (c1, Err(error)),
                        Ok(cond) => c1.build_conditional(
                            cond.operand,
                            |c: CompilerView|
                                self.compile_block(c, span, if_true, statement, if_true.len() as int),
                            |c: CompilerView|
                                self.compile_block(
                                    c,
                                    span,
                                    if_false,
                                    statement,
                                    if_false.len() as int,
                                ),
                        ),
                    }
                },
                StatementView::Return { span, ret_expr } => {
                    let (c1, r1) = self.compile_expr(c, ret_expr.0 as int);
                    match r1 {
                        Err(error) => (c1, Err(error)),
                        Ok(value) => match value.ty {
                            Type::Int => (c1.build_return(value.operand), Ok(())),
                            Type::CellState => {
                                let (c2, r2) = c1.build_cast(CastOp::ZExtToInt, value.operand);
                                match r2 {
                                    Err(error) => (c2, Err(error)),
                                    Ok(wide) => (c2.build_return(wide), Ok(())),
                                }
                            },
                            Type::Vector(_) => (
                                c1,
                                Err(LangErrorMsg::Unimplemented.with_span(span)),
                            ),
                        },
                    }
                },
            }
        }
    }

    /// The code of the first `count` statements of the block `block`, which
    /// the statement at the index `bound` holds, in their order and up to
    /// the first that fails.
    pub open spec fn compile_block(
        self,
        c: CompilerView,
        span: Span,
        block: Seq<StatementRef>,
        bound: int,
        count: int,
    ) -> (CompilerView, Result<(), LangError>)
        decreases bound, count,
    {
        if count <= 0 {
            (c, Ok(()))
        } else {
            let (c1, r1) = self.compile_block(c, span, block, bound, count - 1);
            match r1 {
                Err(error) => (c1, Err(error)),
                Ok(_) => {
                    let statement = block[count - 1].0 as int;
                    if 0 <= statement < bound {
                        self.compile_statement(c1, statement)
                    } else {
                        (c1, Err(malformed_program(span)))
                    }
                },
            }
        }
    }

    /// The code of the statements `block`, which are the body of the
    /// function or a part of it, in their order and up to the first that
    /// fails.
    pub open spec fn compile_body(self, c: CompilerView, span: Span, block: Seq<StatementRef>) -> (
        CompilerView,
        Result<(), LangError>,
    ) {
        self.compile_block(c, span, block, self.statements.len() as int, block.len() as int)
    }
}

} // verus!
