//! The program that the builder makes of a syntax tree: expressions and
//! statements held in arenas and addressed by index.
pub mod compile;
pub mod compile_model;
pub mod const_eval;
pub mod correct;
pub mod facts;
pub mod model;
pub mod semantics;
pub mod typing;
pub mod userfunc;

pub use model::{ArgType, ExprView, FunctionView, StatementView, UserFunctionView};
pub use userfunc::{ErrorPointRef, ExprRef, StatementRef, UserFunction};

use crate::errors::{LangError, LangErrorMsg, LangResult, Span};
use crate::lexer::{ComparisonToken, OperatorToken};
use crate::types::Type;
use vstd::prelude::*;

verus! {

/// What is known of the automaton rule that a function belongs to. All the
/// functions of one rule share it.
#[derive(Debug, Clone, Copy, PartialEq, Eq, Structural)]
pub struct RuleMeta {
    /// Number of dimensions of the automaton.
    pub ndim: u8,
    /// Radius of the neighbourhood that a transition function sees.
    pub neighborhood_radius: u8,
    /// Number of states that a cell can be in.
    pub state_count: u16,
}

/// A built-in operation that an expression applies to its arguments.
#[derive(Debug, PartialEq, Eq)]
#[allow(inconsistent_fields)]
pub enum Function {
    /// An integer literal.
    Int(i64),
    /// The value of a variable.
    GetVar { var_name: String, var_type: Type },
    /// The negation of an integer.
    NegInt { overflow_error: ErrorPointRef },
    /// The cell state with a given number.
    IntToCellState { out_of_range_error: ErrorPointRef },
    /// An arithmetic or bitwise operation on two integers.
    BinaryIntOp {
        op: OperatorToken,
        overflow_error: Option<ErrorPointRef>,
        div_by_zero_error: Option<ErrorPointRef>,
    },
    /// A chain of comparisons between integers.
    Cmp { comparisons: Vec<ComparisonToken> },
}

impl View for Function {
    type V = FunctionView;

    open spec fn view(&self) -> FunctionView {
        match self {
            Function::Int(i) => FunctionView::Int(*i),
            Function::GetVar { var_name, var_type } => FunctionView::GetVar {
                var_name: var_name@,
                var_type: *var_type,
            },
            Function::NegInt { overflow_error } => FunctionView::NegInt {
                overflow_error: *overflow_error,
            },
            Function::IntToCellState { out_of_range_error } => FunctionView::IntToCellState {
                out_of_range_error: *out_of_range_error,
            },
            Function::BinaryIntOp { op, overflow_error, div_by_zero_error } => {
                FunctionView::BinaryIntOp {
                    op: *op,
                    overflow_error: *overflow_error,
                    div_by_zero_error: *div_by_zero_error,
                }
            },
            Function::Cmp { comparisons } => FunctionView::Cmp { comparisons: comparisons@ },
        }
    }
}

impl Function {
    /// The operation that reads the variable `var_name`, or the error
    /// `UseOfUninitializedVariable` at `span` if nothing was assigned to it.
    pub fn get_var(userfunc: &UserFunction, span: Span, var_name: String) -> (result: LangResult<
        Function,
    >)
        requires
            userfunc.wf(),
        ensures
            match userfunc@.new_get_var(span, var_name@) {
                Ok(function) => result is Ok && result->Ok_0@ == function && userfunc@.function_wf(
                    function,
                ),
                Err(error) => result == Err::<Function, LangError>(error),
            },
    {
        match userfunc.try_get_var(span, var_name.as_str()) {
            Ok(var_type) => Ok(Function::GetVar { var_name, var_type }),
            Err(error) => Err(error),
        }
    }

    /// The negation in an expression at `span`. Registers the error point
    /// for its overflow.
    pub fn neg_int(userfunc: &mut UserFunction, span: Span) -> (function: Function)
        requires
            old(userfunc).wf(),
        ensures
            final(userfunc).wf(),
            final(userfunc)@ == old(userfunc)@.new_neg_int(span).0,
            function@ == old(userfunc)@.new_neg_int(span).1,
            final(userfunc)@.function_wf(function@),
    {
        let overflow_error = userfunc.add_error_point(
            LangErrorMsg::IntegerOverflow.with_span(span),
        );
        Function::NegInt { overflow_error }
    }

    /// The conversion of an integer to a cell state in an expression at
    /// `span`. Registers the error point for an integer that is no cell
    /// state.
    pub fn int_to_cell_state(userfunc: &mut UserFunction, span: Span) -> (function: Function)
        requires
            old(userfunc).wf(),
        ensures
            final(userfunc).wf(),
            final(userfunc)@ == old(userfunc)@.new_int_to_cell_state(span).0,
            function@ == old(userfunc)@.new_int_to_cell_state(span).1,
            final(userfunc)@.function_wf(function@),
    {
        let out_of_range_error = userfunc.add_error_point(
            LangErrorMsg::CellStateOutOfRange.with_span(span),
        );
        Function::IntToCellState { out_of_range_error }
    }

    /// The operation `op` on two integers in an expression at `span`.
    /// Registers the error points that the operation can trap to: one for
    /// overflow unless `op` is bitwise, then one for division by zero if
    /// `op` divides. An operator that is no arithmetic or bitwise operation
    /// is the error `InternalError` at `span`, and nothing is registered.
    pub fn binary_int_op(userfunc: &mut UserFunction, span: Span, op: OperatorToken) -> (result:
        LangResult<Function>)
        requires
            old(userfunc).wf(),
        ensures
            final(userfunc).wf(),
            final(userfunc)@ == old(userfunc)@.new_binary_int_op(span, op).0,
            match old(userfunc)@.new_binary_int_op(span, op).1 {
                Ok(function) => result is Ok && result->Ok_0@ == function
                    && final(userfunc)@.function_wf(function),
                Err(error) => result == Err::<Function, LangError>(error),
            },
    {
        if !op.is_binary_int_op() {
            return Err(LangErrorMsg::InternalError("Invalid binary operator").with_span(span));
        }
        let overflow_error = match op {
            OperatorToken::Ampersand | OperatorToken::Pipe => None,
            _ => Some(userfunc.add_error_point(LangErrorMsg::IntegerOverflow.with_span(span))),
        };
        let div_by_zero_error = match op {
            OperatorToken::Slash | OperatorToken::Percent => Some(
                userfunc.add_error_point(LangErrorMsg::DivideByZero.with_span(span)),
            ),
            _ => None,
        };
        Ok(Function::BinaryIntOp { op, overflow_error, div_by_zero_error })
    }

    /// Whether the operation takes `count` arguments.
    pub fn takes(&self, count: usize) -> (b: bool)
        ensures
            b == (count == self@.arity()),
    {
        match self {
            Function::Int(_) => count == 0,
            Function::GetVar { .. } => count == 0,
            Function::NegInt { .. } => count == 1,
            Function::IntToCellState { .. } => count == 1,
            Function::BinaryIntOp { .. } => count == 2,
            Function::Cmp { comparisons } => count >= 1 && count - 1 == comparisons.len(),
        }
    }

    /// Type of the operation's result.
    pub fn result_type(&self) -> (ty: Type)
        ensures
            ty == self@.result_type(),
    {
        match self {
            Function::Int(_) => Type::Int,
            Function::GetVar { var_type, .. } => *var_type,
            Function::NegInt { .. } => Type::Int,
            Function::IntToCellState { .. } => Type::CellState,
            Function::BinaryIntOp { .. } => Type::Int,
            Function::Cmp { .. } => Type::Int,
        }
    }
}

/// One node of the arena of expressions: an operation, the expressions it is
/// applied to, and the type of its result.
#[derive(Debug, PartialEq, Eq)]
pub struct Expr {
    pub span: Span,
    pub function: Function,
    pub args: Vec<ExprRef>,
    pub return_type: Type,
}

impl View for Expr {
    type V = ExprView;

    open spec fn view(&self) -> ExprView {
        ExprView {
            span: self.span,
            function: self.function@,
            args: self.args@,
            return_type: self.return_type,
        }
    }
}

impl Expr {
    /// Checks the operation `function` against the expressions `args` of
    /// `userfunc`, and makes the expression at `span` that applies it to
    /// them. A wrong number of arguments is the error `InternalError` at
    /// `span`; an argument that is no integer is a `TypeError` at its own
    /// place, the leftmost such argument first.
    pub fn try_new(span: Span, userfunc: &UserFunction, function: Function, args: Vec<ExprRef>) -> (result:
        LangResult<Expr>)
        requires
            forall|k: int| 0 <= k < args@.len() ==> userfunc@.has_expr(#[trigger] args@[k]),
        ensures
            match function@.return_type(userfunc@.arg_types(args@), span) {
                Ok(return_type) => result is Ok && result->Ok_0@ == (ExprView {
                    span,
                    function: function@,
                    args: args@,
                    return_type,
                }),
                Err(error) => result == Err::<Expr, LangError>(error),
            },
    {
        if !function.takes(args.len()) {
            return Err(LangErrorMsg::InternalError("Invalid number of arguments").with_span(span));
        }
        let ghost types = userfunc@.arg_types(args@);
        let mut k: usize = 0;
        while k < args.len()
            invariant
                k <= args.len(),
                args@.len() == function@.arity(),
                types == userfunc@.arg_types(args@),
                forall|j: int| 0 <= j < args@.len() ==> userfunc@.has_expr(#[trigger] args@[j]),
                model::first_type_error(types, Type::Int, 0) == model::first_type_error(
                    types,
                    Type::Int,
                    k as int,
                ),
            decreases args.len() - k,
        {
            let arg = userfunc.expr(args[k]);
            proof {
                assert(types[k as int].ty == arg.return_type);
                assert(types[k as int].span == arg.span);
            }
            if arg.return_type != Type::Int {
                return Err(
                    LangErrorMsg::TypeError { expected: Type::Int, got: arg.return_type }.with_span(
                        arg.span,
                    ),
                );
            }
            k = k + 1;
        }
        let return_type = function.result_type();
        Ok(Expr { span, function, args, return_type })
    }
}

/// One node of the arena of statements.
#[derive(Debug, PartialEq, Eq)]
pub enum Statement {
    /// Assigns the value of an expression to a variable.
    SetVar { span: Span, var_name: String, value_expr: ExprRef },
    /// Runs one of two blocks, by whether an integer is zero.
    If { span: Span, cond_expr: ExprRef, if_true: Vec<StatementRef>, if_false: Vec<StatementRef> },
    /// Leaves the function with the value of an expression.
    Return { span: Span, ret_expr: ExprRef },
}

impl View for Statement {
    type V = StatementView;

    open spec fn view(&self) -> StatementView {
        match self {
            Statement::SetVar { span, var_name, value_expr } => StatementView::SetVar {
                span: *span,
                var_name: var_name@,
                value_expr: *value_expr,
            },
            Statement::If { span, cond_expr, if_true, if_false } => StatementView::If {
                span: *span,
                cond_expr: *cond_expr,
                if_true: if_true@,
                if_false: if_false@,
            },
            Statement::Return { span, ret_expr } => StatementView::Return {
                span: *span,
                ret_expr: *ret_expr,
            },
        }
    }
}

impl Statement {
    /// The assignment of the expression `value_expr` to the variable
    /// `var_name`. Makes the variable, with the type of the expression, if
    /// it does not exist; a variable that exists keeps its type.
    pub fn new_set_var(
        span: Span,
        userfunc: &mut UserFunction,
        var_name: String,
        value_expr: ExprRef,
    ) -> (statement: Statement)
        requires
            old(userfunc).wf(),
            old(userfunc)@.has_expr(value_expr),
        ensures
            final(userfunc).wf(),
            final(userfunc)@ == old(userfunc)@.new_set_var(span, var_name@, value_expr).0,
            statement@ == old(userfunc)@.new_set_var(span, var_name@, value_expr).1,
    {
        let ty = userfunc.expr(value_expr).return_type;
        userfunc.get_or_create_var(var_name.as_str(), ty);
        Statement::SetVar { span, var_name, value_expr }
    }

    /// The conditional that runs `if_true` where the expression `cond_expr`
    /// is not zero and `if_false` where it is. An expression that is no
    /// integer is a `TypeError` at its place.
    pub fn try_new_if(
        span: Span,
        userfunc: &UserFunction,
        cond_expr: ExprRef,
        if_true: Vec<StatementRef>,
        if_false: Vec<StatementRef>,
    ) -> (result: LangResult<Statement>)
        requires
            userfunc@.has_expr(cond_expr),
        ensures
            match userfunc@.new_if(span, cond_expr, if_true@, if_false@) {
                Ok(statement) => result is Ok && result->Ok_0@ == statement,
                Err(error) => result == Err::<Statement, LangError>(error),
            },
    {
        let cond = userfunc.expr(cond_expr);
        if cond.return_type == Type::Int {
            Ok(Statement::If { span, cond_expr, if_true, if_false })
        } else {
            Err(
                LangErrorMsg::TypeError { expected: Type::Int, got: cond.return_type }.with_span(
                    cond.span,
                ),
            )
        }
    }

    /// The exit with the value of the expression `ret_expr`. An expression
    /// of another type than the function gives is a `TypeError` at its
    /// place.
    pub fn try_new_return(span: Span, userfunc: &UserFunction, ret_expr: ExprRef) -> (result:
        LangResult<Statement>)
        requires
            userfunc@.has_expr(ret_expr),
        ensures
            match userfunc@.new_return(span, ret_expr) {
                Ok(statement) => result is Ok && result->Ok_0@ == statement,
                Err(error) => result == Err::<Statement, LangError>(error),
            },
    {
        let ret = userfunc.expr(ret_expr);
        let expected = userfunc.return_type();
        if ret.return_type == expected {
            Ok(Statement::Return { span, ret_expr })
        } else {
            Err(LangErrorMsg::TypeError { expected, got: ret.return_type }.with_span(ret.span))
        }
    }
}

} // verus!
