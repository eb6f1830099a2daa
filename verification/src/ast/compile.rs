//! The generation of the code of expressions and statements.
use crate::ast::compile_model::{find_slot, malformed_program, state_limit};
use crate::ast::model::{ExprView, UserFunctionView};
use crate::ast::userfunc::{ErrorPointRef, ExprRef, StatementRef, UserFunction};
use crate::ast::{Expr, Function, Statement};
use crate::compiler::ir::{BinOp, CastOp, CheckedOp, Inst, Operand, Slot};
use crate::compiler::model::{nothing, trap, CompilerView};
use crate::compiler::value::Value;
use crate::compiler::{BuildArm, Compiler, FallThrough, Trap};
use crate::errors::{LangError, LangErrorMsg, LangResult, Span};
use crate::lexer::{ComparisonToken, OperatorToken};
use crate::types::{Type, INT_BITS};
use vstd::prelude::*;

verus! {

/// Where the code of a prefix of the arguments of an expression fails, the
/// code of a longer prefix fails in the same way.
pub proof fn lemma_compile_args_stops(
    f: UserFunctionView,
    c: CompilerView,
    e: ExprView,
    bound: int,
    count: int,
    more: int,
)
    requires
        0 <= count <= more,
        f.compile_args(c, e, bound, count).1 is Err,
    ensures
        f.compile_args(c, e, bound, more) == f.compile_args(c, e, bound, count),
    decreases more,
{
    if count < more {
        lemma_compile_args_stops(f, c, e, bound, count, more - 1);
    }
}

/// Where the code of a prefix of a block fails, the code of a longer prefix
/// fails in the same way.
pub proof fn lemma_compile_block_stops(
    f: UserFunctionView,
    c: CompilerView,
    span: Span,
    block: Seq<StatementRef>,
    bound: int,
    count: int,
    more: int,
)
    requires
        0 <= count <= more,
        f.compile_block(c, span, block, bound, count).1 is Err,
    ensures
        f.compile_block(c, span, block, bound, more) == f.compile_block(c, span, block, bound, count),
    decreases more,
{
    if count < more {
        lemma_compile_block_stops(f, c, span, block, bound, count, more - 1);
    }
}

/// Where a prefix of a chain of comparisons cannot be built, a longer
/// prefix fails in the same way.
pub proof fn lemma_build_chain_stops(
    c: CompilerView,
    comparisons: Seq<ComparisonToken>,
    args: Seq<Value>,
    count: int,
    more: int,
)
    requires
        0 <= count <= more,
        c.build_chain(comparisons, args, count).1 is Err,
    ensures
        c.build_chain(comparisons, args, more) == c.build_chain(comparisons, args, count),
    decreases more,
{
    if count < more {
        lemma_build_chain_stops(c, comparisons, args, count, more - 1);
    }
}

impl ErrorPointRef {
    /// Generates the code that ends the function with the signal for this
    /// error.
    pub fn compile(&self, compiler: &mut Compiler)
        requires
            old(compiler).wf(),
        ensures
            final(compiler).wf(),
            final(compiler)@ == old(compiler)@.build_return_error(self.idx),
            !final(compiler)@.needs_terminator(),
            final(compiler)@.code.blocks.len() == old(compiler)@.code.blocks.len(),
    {
        compiler.build_return_error(self.idx);
    }
}

impl Compiler {
    /// The slot of the variable `name`, if the function has one.
    pub fn find_slot(&self, name: &String) -> (slot: Option<usize>)
        ensures
            slot == find_slot(self@.code.slots, name@, 0),
            slot matches Some(i) ==> i < self@.code.slots.len(),
    {
        let slots = self.vars();
        let mut i: usize = 0;
        while i < slots.len()
            invariant
                i <= slots.len(),
                slots@.map_values(|s: Slot| s@) == self@.code.slots,
                find_slot(self@.code.slots, name@, 0) == find_slot(
                    self@.code.slots,
                    name@,
                    i as int,
                ),
            decreases slots.len() - i,
        {
            proof {
                assert(self@.code.slots[i as int] == slots@[i as int]@);
            }
            if slots[i].name == *name {
                return Some(i);
            }
            i = i + 1;
        }
        None
    }

    /// The type of what the slot `slot` holds.
    pub fn slot_type(&self, slot: usize) -> (ty: Type)
        requires
            slot < self@.code.slots.len(),
        ensures
            ty == self@.code.slots[slot as int].ty,
    {
        let slots = self.vars();
        proof {
            assert(self@.code.slots[slot as int] == slots@[slot as int]@);
        }
        slots[slot].ty
    }

    /// Builds the check that `value` lies in `0..limit`: the comparison
    /// with each bound, and a conditional that runs what `on_out_of_range`
    /// builds, which is expected to end the path, where one of them fails.
    /// Fails where the function has no register left.
    pub fn build_range_check<A: BuildArm>(&mut self, value: Operand, limit: i64, on_out_of_range: A) -> (result:
        LangResult<()>)
        requires
            old(self).wf(),
        ensures
            final(self).wf(),
            final(self)@ == old(self)@.build_range_check(value, limit, on_out_of_range.arm()).0,
            result == old(self)@.build_range_check(value, limit, on_out_of_range.arm()).1,
            old(self)@.code.blocks.len() <= final(self)@.code.blocks.len(),
    {
        let is_negative = match self.build_compare(
            ComparisonToken::LessThan,
            value,
            Operand::Const { bits: INT_BITS, value: 0 },
        ) {
            Ok(v) => v,
            Err(error) => {
                return Err(error);
            },
        };
        let is_large = match self.build_compare(
            ComparisonToken::GreaterThanOrEqual,
            value,
            Operand::Const { bits: INT_BITS, value: limit },
        ) {
            Ok(v) => v,
            Err(error) => {
                return Err(error);
            },
        };
        let is_outside = match self.build_binary(BinOp::Or, is_negative, is_large) {
            Ok(v) => v,
            Err(error) => {
                return Err(error);
            },
        };
        self.build_conditional(is_outside, on_out_of_range, FallThrough)
    }

    /// Builds a chain of comparisons between the values `args`, each
    /// neighbouring pair compared and the results combined, and gives the
    /// single bit that tells whether all of them hold.
    pub fn build_chain(&mut self, comparisons: &Vec<ComparisonToken>, args: &Vec<Value>) -> (result:
        LangResult<Operand>)
        requires
            old(self).wf(),
            args@.len() == comparisons@.len() + 1,
        ensures
            final(self).wf(),
            final(self)@ == old(self)@.build_chain(
                comparisons@,
                args@,
                comparisons@.len() as int,
            ).0,
            result == old(self)@.build_chain(comparisons@, args@, comparisons@.len() as int).1,
            old(self)@.code.blocks.len() == final(self)@.code.blocks.len(),
    {
        let ghost c0 = self@;
        let mut all: Operand = Operand::Const { bits: 1, value: 1 };
        let mut k: usize = 0;
        while k < comparisons.len()
            invariant
                k <= comparisons.len(),
                args@.len() == comparisons@.len() + 1,
                c0 == old(self)@,
                self.wf(),
                self@ == c0.build_chain(comparisons@, args@, k as int).0,
                c0.build_chain(comparisons@, args@, k as int).1 == Ok::<Operand, LangError>(all),
                c0.code.blocks.len() == self@.code.blocks.len(),
            decreases comparisons.len() - k,
        {
            let this_one = match self.build_compare(
                comparisons[k],
                args[k].operand,
                args[k + 1].operand,
            ) {
                Ok(v) => v,
                Err(error) => {
                    proof {
                        lemma_build_chain_stops(
                            c0,
                            comparisons@,
                            args@,
                            k + 1,
                            comparisons@.len() as int,
                        );
                    }
                    return Err(error);
                },
            };
            all = match self.build_binary(BinOp::And, all, this_one) {
                Ok(v) => v,
                Err(error) => {
                    proof {
                        lemma_build_chain_stops(
                            c0,
                            comparisons@,
                            args@,
                            k + 1,
                            comparisons@.len() as int,
                        );
                    }
                    return Err(error);
                },
            };
            k = k + 1;
        }
        Ok(all)
    }

    /// Builds the operation `op` on the integers `lhs` and `rhs`. Addition,
    /// subtraction and multiplication trap to `overflow_error` on overflow.
    /// Division and remainder trap to `div_by_zero_error` where `rhs` is
    /// zero and to `overflow_error` where `lhs` is the smallest integer and
    /// `rhs` is minus one. A shift traps to `overflow_error` where `rhs` is
    /// outside `0..64`. The bitwise operations trap to nothing. The power
    /// is the error `Unimplemented` at `span`; an operation without the
    /// error point that it traps to is an `InternalError` at `span`.
    pub fn build_binary_int_op(
        &mut self,
        span: Span,
        op: OperatorToken,
        overflow_error: Option<ErrorPointRef>,
        div_by_zero_error: Option<ErrorPointRef>,
        lhs: Operand,
        rhs: Operand,
    ) -> (result: LangResult<Operand>)
        requires
            old(self).wf(),
        ensures
            final(self).wf(),
            final(self)@ == old(self)@.build_binary_int_op(
                span,
                op,
                overflow_error,
                div_by_zero_error,
                lhs,
                rhs,
            ).0,
            result == old(self)@.build_binary_int_op(
                span,
                op,
                overflow_error,
                div_by_zero_error,
                lhs,
                rhs,
            ).1,
            old(self)@.code.blocks.len() <= final(self)@.code.blocks.len(),
    {
        match op {
            OperatorToken::Ampersand => {
                return self.build_binary(BinOp::And, lhs, rhs);
            },
            OperatorToken::Pipe => {
                return self.build_binary(BinOp::Or, lhs, rhs);
            },
            OperatorToken::DoubleAsterisk => {
                return Err(LangErrorMsg::Unimplemented.with_span(span));
            },
            _ => {},
        }
        let overflow = match overflow_error {
            Some(overflow) => overflow,
            None => {
                return Err(LangErrorMsg::InternalError("Malformed program").with_span(span));
            },
        };
        match op {
            OperatorToken::Plus => self.build_checked_int_arithmetic(
                lhs,
                rhs,
                CheckedOp::Add,
                Trap(overflow),
            ),
            OperatorToken::Minus => self.build_checked_int_arithmetic(
                lhs,
                rhs,
                CheckedOp::Sub,
                Trap(overflow),
            ),
            OperatorToken::Asterisk => self.build_checked_int_arithmetic(
                lhs,
                rhs,
                CheckedOp::Mul,
                Trap(overflow),
            ),
            OperatorToken::DoubleLessThan
            | OperatorToken::DoubleGreaterThan
            | OperatorToken::TripleGreaterThan => {
                match self.build_range_check(rhs, 64, Trap(overflow)) {
                    Ok(_) => {},
                    Err(error) => {
                        return Err(error);
                    },
                }
                let shift = match op {
                    OperatorToken::DoubleLessThan => BinOp::Shl,
                    OperatorToken::DoubleGreaterThan => BinOp::AShr,
                    _ => BinOp::LShr,
                };
                self.build_binary(shift, lhs, rhs)
            },
            OperatorToken::Slash | OperatorToken::Percent => {
                let div_by_zero = match div_by_zero_error {
                    Some(div_by_zero) => div_by_zero,
                    None => {
                        return Err(
                            LangErrorMsg::InternalError("Malformed program").with_span(span),
                        );
                    },
                };
                match self.build_div_check(lhs, rhs, Trap(overflow), Trap(div_by_zero)) {
                    Ok(_) => {},
                    Err(error) => {
                        return Err(error);
                    },
                }
                let division = match op {
                    OperatorToken::Slash => BinOp::SDiv,
                    _ => BinOp::SRem,
                };
                self.build_binary(division, lhs, rhs)
            },
            _ => Err(LangErrorMsg::InternalError("Malformed program").with_span(span)),
        }
    }
}

/// The value of the type `ty` that `built` gives, if it gives one.
fn value_of(built: LangResult<Operand>, ty: Type) -> (result: LangResult<Value>)
    ensures
        result == match built {
            Ok(operand) => Ok::<Value, LangError>(Value { ty, operand }),
            Err(error) => Err::<Value, LangError>(error),
        },
{
    match built {
        Ok(operand) => Ok(Value { ty, operand }),
        Err(error) => Err(error),
    }
}

/// Number of cell states that the conversion of an integer accepts.
fn state_limit_of(state_count: u16) -> (limit: i64)
    ensures
        limit == state_limit(state_count),
{
    if state_count < 256 {
        state_count as i64
    } else {
        256
    }
}

impl UserFunction {
    /// The slots for the variables of the function, in the order of their
    /// first assignment.
    pub fn var_slots(&self) -> (slots: Vec<Slot>)
        requires
            self.wf(),
        ensures
            slots@.len() == self.spec_var_names().len(),
            forall|i: int|
                0 <= i < slots@.len() ==> (#[trigger] slots@[i]).name@ == self.spec_var_names()[i]
                    && self@.variables.contains_pair(slots@[i].name@, slots@[i].ty),
    {
        let mut slots: Vec<Slot> = Vec::new();
        let mut i: usize = 0;
        let count = self.var_count();
        while i < count
            invariant
                self.wf(),
                i <= count,
                count == self.spec_var_names().len(),
                slots@.len() == i,
                forall|j: int|
                    0 <= j < slots@.len() ==> (#[trigger] slots@[j]).name@
                        == self.spec_var_names()[j] && self@.variables.contains_pair(
                        slots@[j].name@,
                        slots@[j].ty,
                    ),
            decreases count - i,
        {
            let variable = self.var(i);
            slots.push(Slot { name: variable.name.clone(), ty: variable.ty });
            i = i + 1;
        }
        slots
    }

    /// Generates the code of the operation of the expression `node` on the
    /// values `args` of its arguments.
    fn compile_operation(&self, compiler: &mut Compiler, node: &Expr, args: &Vec<Value>) -> (result:
        LangResult<Value>)
        requires
            old(compiler).wf(),
        ensures
            final(compiler).wf(),
            final(compiler)@ == self@.compile_operation(old(compiler)@, node@, args@).0,
            result == self@.compile_operation(old(compiler)@, node@, args@).1,
            old(compiler)@.code.blocks.len() <= final(compiler)@.code.blocks.len(),
    {
        if !node.function.takes(args.len()) {
            return Err(LangErrorMsg::InternalError("Malformed program").with_span(node.span));
        }
        match &node.function {
            Function::Int(i) => Ok(
                Value { ty: Type::Int, operand: Operand::Const { bits: INT_BITS, value: *i } },
            ),
            Function::GetVar { var_name, var_type } => {
                match compiler.find_slot(var_name) {
                    None => Err(
                        LangErrorMsg::InternalError("Variable has no slot of its type").with_span(
                            node.span,
                        ),
                    ),
                    Some(slot) => {
                        if compiler.slot_type(slot) != *var_type {
                            return Err(
                                LangErrorMsg::InternalError(
                                    "Variable has no slot of its type",
                                ).with_span(node.span),
                            );
                        }
                        match var_type {
                            Type::Vector(_) => Err(
                                LangErrorMsg::Unimplemented.with_span(node.span),
                            ),
                            _ => value_of(compiler.build_load(slot), *var_type),
                        }
                    },
                }
            },
            Function::NegInt { overflow_error } => {
                let built = compiler.build_checked_int_arithmetic(
                    Operand::Const { bits: INT_BITS, value: 0 },
                    args[0].operand,
                    CheckedOp::Sub,
                    Trap(*overflow_error),
                );
                value_of(built, Type::Int)
            },
            Function::IntToCellState { out_of_range_error } => {
                let limit = state_limit_of(self.rule_meta().state_count);
                match compiler.build_range_check(args[0].operand, limit, Trap(*out_of_range_error)) {
                    Err(error) => Err(error),
                    Ok(_) => value_of(
                        compiler.build_cast(CastOp::TruncToCellState, args[0].operand),
                        Type::CellState,
                    ),
                }
            },
            Function::BinaryIntOp { op, overflow_error, div_by_zero_error } => {
                let built = compiler.build_binary_int_op(
                    node.span,
                    *op,
                    *overflow_error,
                    *div_by_zero_error,
                    args[0].operand,
                    args[1].operand,
                );
                value_of(built, Type::Int)
            },
            Function::Cmp { comparisons } => {
                match compiler.build_chain(comparisons, args) {
                    Err(error) => Err(error),
                    Ok(all) => value_of(compiler.build_cast(CastOp::ZExtToInt, all), Type::Int),
                }
            },
        }
    }

    /// Generates the code of an expression: the code of its arguments from
    /// left to right, then the code of its operation, which traps to the
    /// operation's error points. Gives the value that the code computes.
    pub fn compile_expr(&self, compiler: &mut Compiler, expr: ExprRef) -> (result: LangResult<Value>)
        requires
            old(compiler).wf(),
            self@.has_expr(expr),
        ensures
            final(compiler).wf(),
            final(compiler)@ == self@.compile_expr(old(compiler)@, expr.0 as int).0,
            result == self@.compile_expr(old(compiler)@, expr.0 as int).1,
            old(compiler)@.code.blocks.len() <= final(compiler)@.code.blocks.len(),
        decreases expr.0,
    {
        let ghost c0 = compiler@;
        let node = self.expr(expr);
        let mut args: Vec<Value> = Vec::new();
        let mut k: usize = 0;
        while k < node.args.len()
            invariant
                k <= node.args.len(),
                c0 == old(compiler)@,
                self@.has_expr(expr),
                node@ == self@.expressions[expr.0 as int],
                compiler.wf(),
                compiler@ == self@.compile_args(c0, node@, expr.0 as int, k as int).0,
                self@.compile_args(c0, node@, expr.0 as int, k as int).1 == Ok::<
                    Seq<Value>,
                    LangError,
                >(args@),
                c0.code.blocks.len() <= compiler@.code.blocks.len(),
            decreases node.args.len() - k,
        {
            let arg = node.args[k];
            let ghost c1 = compiler@;
            proof {
                assert(node@.args[k as int] == arg);
                assert(self@.compile_args(c0, node@, expr.0 as int, k as int) == (
                    c1,
                    Ok::<Seq<Value>, LangError>(args@),
                ));
            }
            if arg.0 >= expr.0 {
                proof {
                    assert(self@.compile_args(c0, node@, expr.0 as int, k + 1) == (
                        c1,
                        Err::<Seq<Value>, LangError>(malformed_program(node.span)),
                    ));
                    lemma_compile_args_stops(
                        self@,
                        c0,
                        node@,
                        expr.0 as int,
                        k + 1,
                        node.args@.len() as int,
                    );
                }
                return Err(LangErrorMsg::InternalError("Malformed program").with_span(node.span));
            }
            match self.compile_expr(compiler, arg) {
                Err(error) => {
                    proof {
                        assert(self@.compile_args(c0, node@, expr.0 as int, k + 1) == (
                            compiler@,
                            Err::<Seq<Value>, LangError>(error),
                        ));
                        lemma_compile_args_stops(
                            self@,
                            c0,
                            node@,
                            expr.0 as int,
                            k + 1,
                            node.args@.len() as int,
                        );
                    }
                    return Err(error);
                },
                Ok(value) => {
                    let ghost before = args@;
                    args.push(value);
                    proof {
                        assert(args@ == before.push(value));
                        assert(self@.compile_args(c0, node@, expr.0 as int, k + 1) == (
                            compiler@,
                            Ok::<Seq<Value>, LangError>(args@),
                        ));
                    }
                },
            }
            k = k + 1;
        }
        proof {
            assert(self@.compile_args(c0, node@, expr.0 as int, node@.args.len() as int) == (
                compiler@,
                Ok::<Seq<Value>, LangError>(args@),
            ));
        }
        self.compile_operation(compiler, node, &args)
    }

    /// Generates the code of the statements of `block`, which the statement
    /// `bound` at `span` holds, in their order.
    fn compile_block(
        &self,
        compiler: &mut Compiler,
        span: Span,
        block: &Vec<StatementRef>,
        bound: StatementRef,
    ) -> (result: LangResult<()>)
        requires
            old(compiler).wf(),
            bound.0 <= self@.statements.len(),
        ensures
            final(compiler).wf(),
            final(compiler)@ == self@.compile_block(
                old(compiler)@,
                span,
                block@,
                bound.0 as int,
                block@.len() as int,
            ).0,
            result == self@.compile_block(
                old(compiler)@,
                span,
                block@,
                bound.0 as int,
                block@.len() as int,
            ).1,
            old(compiler)@.code.blocks.len() <= final(compiler)@.code.blocks.len(),
        decreases bound.0, block@.len(),
    {
        let ghost c0 = compiler@;
        let mut k: usize = 0;
        while k < block.len()
            invariant
                k <= block.len(),
                c0 == old(compiler)@,
                bound.0 <= self@.statements.len(),
                compiler.wf(),
                compiler@ == self@.compile_block(c0, span, block@, bound.0 as int, k as int).0,
                self@.compile_block(c0, span, block@, bound.0 as int, k as int).1 == Ok::<
                    (),
                    LangError,
                >(()),
                c0.code.blocks.len() <= compiler@.code.blocks.len(),
            decreases block.len() - k,
        {
            let statement = block[k];
            let ghost c1 = compiler@;
            proof {
                assert(self@.compile_block(c0, span, block@, bound.0 as int, k as int) == (
                    c1,
                    Ok::<(), LangError>(()),
                ));
            }
            if statement.0 >= bound.0 {
                proof {
                    assert(self@.compile_block(c0, span, block@, bound.0 as int, k + 1) == (
                        c1,
                        Err::<(), LangError>(malformed_program(span)),
                    ));
                    lemma_compile_block_stops(
                        self@,
                        c0,
                        span,
                        block@,
                        bound.0 as int,
                        k + 1,
                        block@.len() as int,
                    );
                }
                return Err(LangErrorMsg::InternalError("Malformed program").with_span(span));
            }
            match self.compile_statement(compiler, statement) {
                Err(error) => {
                    proof {
                        assert(self@.compile_block(c0, span, block@, bound.0 as int, k + 1) == (
                            compiler@,
                            Err::<(), LangError>(error),
                        ));
                        lemma_compile_block_stops(
                            self@,
                            c0,
                            span,
                            block@,
                            bound.0 as int,
                            k + 1,
                            block@.len() as int,
                        );
                    }
                    return Err(error);
                },
                Ok(_) => {
                    proof {
                        assert(self@.compile_block(c0, span, block@, bound.0 as int, k + 1) == (
                            compiler@,
                            Ok::<(), LangError>(()),
                        ));
                    }
                },
            }
            k = k + 1;
        }
        Ok(())
    }

    /// Generates the code of the statements `block`, which are the body of
    /// the function or a part of it, in their order. A statement that is no
    /// statement of the function is an `InternalError` at `span`. The code
    /// that is generated returns what the statements mean.
    pub fn compile_body(&self, compiler: &mut Compiler, span: Span, block: &Vec<StatementRef>) -> (result:
        LangResult<()>)
        requires
            old(compiler).wf(),
        ensures
            final(compiler).wf(),
            final(compiler)@ == self@.compile_body(old(compiler)@, span, block@).0,
            result == self@.compile_body(old(compiler)@, span, block@).1,
            old(compiler)@.code.blocks.len() <= final(compiler)@.code.blocks.len(),
    {
        self.compile_block(compiler, span, block, StatementRef(self.statement_count()))
    }

    /// Generates the code of a statement. An assignment stores the value of
    /// its expression in the slot of its variable, which must hold values
    /// of that type. A conditional runs one of its blocks, by whether its
    /// condition is zero. An exit returns the value of its expression, a
    /// cell state widened to the width of the returned value.
    pub fn compile_statement(&self, compiler: &mut Compiler, statement: StatementRef) -> (result:
        LangResult<()>)
        requires
            old(compiler).wf(),
            self@.has_statement(statement),
        ensures
            final(compiler).wf(),
            final(compiler)@ == self@.compile_statement(old(compiler)@, statement.0 as int).0,
            result == self@.compile_statement(old(compiler)@, statement.0 as int).1,
            old(compiler)@.code.blocks.len() <= final(compiler)@.code.blocks.len(),
        decreases statement.0, self@.nested_count(statement.0 as int) + 1,
    {
        let ghost c0 = compiler@;
        match self.statement(statement) {
            Statement::SetVar { span, var_name, value_expr } => {
                if value_expr.0 >= self.expr_count() {
                    return Err(LangErrorMsg::InternalError("Malformed program").without_span());
                }
                let value = match self.compile_expr(compiler, *value_expr) {
                    Ok(value) => value,
                    Err(error) => {
                        return Err(error);
                    },
                };
                match compiler.find_slot(var_name) {
                    None => Err(
                        LangErrorMsg::InternalError("Variable has no slot of its type").with_span(
                            *span,
                        ),
                    ),
                    Some(slot) => {
                        let ty = compiler.slot_type(slot);
                        if ty != value.ty {
                            return Err(
                                LangErrorMsg::TypeError { expected: ty, got: value.ty }.with_span(
                                    *span,
                                ),
                            );
                        }
                        match ty {
                            Type::Vector(_) => Err(LangErrorMsg::Unimplemented.with_span(*span)),
                            _ => {
                                compiler.build_store(slot, value.operand);
                                Ok(())
                            },
                        }
                    },
                }
            },
            Statement::If { span, cond_expr, if_true, if_false } => {
                if cond_expr.0 >= self.expr_count() {
                    return Err(LangErrorMsg::InternalError("Malformed program").without_span());
                }
                let cond = match self.compile_expr(compiler, *cond_expr) {
                    Ok(cond) => cond,
                    Err(error) => {
                        return Err(error);
                    },
                };
                let if_true_bb = compiler.append_basic_block("ifTrue");
                let if_false_bb = compiler.append_basic_block("ifFalse");
                let merge_bb = compiler.append_basic_block("endIf");
                compiler.emit(
                    Inst::Switch {
                        value: cond.operand,
                        else_block: if_true_bb,
                        zero_block: if_false_bb,
                    },
                );
                compiler.position_at_end(if_true_bb);
                match self.compile_block(compiler, *span, if_true, statement) {
                    Ok(_) => {},
                    Err(error) => {
                        return Err(error);
                    },
                }
                if compiler.needs_terminator() {
                    compiler.emit(Inst::Branch(merge_bb));
                }
                compiler.position_at_end(if_false_bb);
                match self.compile_block(compiler, *span, if_false, statement) {
                    Ok(_) => {},
                    Err(error) => {
                        return Err(error);
                    },
                }
                if compiler.needs_terminator() {
                    compiler.emit(Inst::Branch(merge_bb));
                }
                compiler.position_at_end(merge_bb);
                Ok(())
            },
            Statement::Return { span, ret_expr } => {
                if ret_expr.0 >= self.expr_count() {
                    return Err(LangErrorMsg::InternalError("Malformed program").without_span());
                }
                let value = match self.compile_expr(compiler, *ret_expr) {
                    Ok(value) => value,
                    Err(error) => {
                        return Err(error);
                    },
                };
                match value.ty {
                    Type::Int => {
                        compiler.emit(Inst::Return(value.operand));
                        Ok(())
                    },
                    Type::CellState => {
                        match compiler.build_cast(CastOp::ZExtToInt, value.operand) {
                            Err(error) => Err(error),
                            Ok(wide) => {
                                compiler.build_return_cell_state(wide);
                                Ok(())
                            },
                        }
                    },
                    Type::Vector(_) => Err(LangErrorMsg::Unimplemented.with_span(*span)),
                }
            },
        }
    }
}

} // verus!
