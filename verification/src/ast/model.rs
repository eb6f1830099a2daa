//! The mathematical model of a function under construction, and what
//! building a syntax tree into it means.
use crate::ast::userfunc::{ErrorPointRef, ExprRef, StatementRef};
use crate::ast::RuleMeta;
use crate::errors::{LangError, LangErrorMsg, Span};
use crate::lexer::{ComparisonToken, OperatorToken, PunctuationToken};
use crate::parser;
use crate::parser::Spanned;
use crate::types::Type;
use vstd::prelude::*;

verus! {

/// The type of an argument and the place of the expression that gives it.
pub struct ArgType {
    pub span: Span,
    pub ty: Type,
}

/// What a [`crate::ast::Function`] holds.
#[allow(inconsistent_fields)]
pub enum FunctionView {
    Int(i64),
    GetVar { var_name: Seq<char>, var_type: Type },
    NegInt { overflow_error: ErrorPointRef },
    IntToCellState { out_of_range_error: ErrorPointRef },
    BinaryIntOp {
        op: OperatorToken,
        overflow_error: Option<ErrorPointRef>,
        div_by_zero_error: Option<ErrorPointRef>,
    },
    Cmp { comparisons: Seq<ComparisonToken> },
}

/// What a [`crate::ast::Expr`] holds.
#[verifier::ext_equal]
pub struct ExprView {
    pub span: Span,
    pub function: FunctionView,
    pub args: Seq<ExprRef>,
    pub return_type: Type,
}

/// What a [`crate::ast::Statement`] holds.
#[verifier::ext_equal]
pub enum StatementView {
    SetVar { span: Span, var_name: Seq<char>, value_expr: ExprRef },
    If { span: Span, cond_expr: ExprRef, if_true: Seq<StatementRef>, if_false: Seq<StatementRef> },
    Return { span: Span, ret_expr: ExprRef },
}

/// What a [`crate::ast::UserFunction`] holds: its three arenas and the types
/// of its variables by name.
#[verifier::ext_equal]
pub struct UserFunctionView {
    pub rule_meta: RuleMeta,
    pub return_type: Type,
    pub is_transition_function: bool,
    pub statements: Seq<StatementView>,
    pub expressions: Seq<ExprView>,
    pub error_points: Seq<LangError>,
    pub variables: Map<Seq<char>, Type>,
}

/// The error for the first argument from index `from` on whose type is not
/// `expected`, if there is one.
pub open spec fn first_type_error(args: Seq<ArgType>, expected: Type, from: int) -> Option<
    LangError,
>
    decreases args.len() - from,
{
    if from < 0 || from >= args.len() {
        None
    } else if args[from].ty != expected {
        Some(LangErrorMsg::TypeError { expected, got: args[from].ty }.with_span(args[from].span))
    } else {
        first_type_error(args, expected, from + 1)
    }
}

/// The error that `args` give where `count` arguments of type `expected` are
/// asked for: a wrong count first, then the first argument of another type.
pub open spec fn check_args(args: Seq<ArgType>, span: Span, count: nat, expected: Type) -> Option<
    LangError,
> {
    if args.len() != count {
        Some(LangErrorMsg::InternalError("Invalid number of arguments").with_span(span))
    } else {
        first_type_error(args, expected, 0)
    }
}

/// Whether `op` can leave the range of the integers, or has an operand that
/// it has no result for.
pub open spec fn op_can_overflow(op: OperatorToken) -> bool {
    op != OperatorToken::Ampersand && op != OperatorToken::Pipe
}

/// Whether `op` divides by its right operand.
pub open spec fn op_divides(op: OperatorToken) -> bool {
    op == OperatorToken::Slash || op == OperatorToken::Percent
}

impl FunctionView {
    /// Number of arguments that the operation takes. All of them are
    /// integers.
    pub open spec fn arity(self) -> nat {
        match self {
            FunctionView::Int(_) => 0,
            FunctionView::GetVar { .. } => 0,
            FunctionView::NegInt { .. } => 1,
            FunctionView::IntToCellState { .. } => 1,
            FunctionView::BinaryIntOp { .. } => 2,
            FunctionView::Cmp { comparisons } => comparisons.len() + 1,
        }
    }

    /// Type of the operation's result.
    pub open spec fn result_type(self) -> Type {
        match self {
            FunctionView::Int(_) => Type::Int,
            FunctionView::GetVar { var_type, .. } => var_type,
            FunctionView::NegInt { .. } => Type::Int,
            FunctionView::IntToCellState { .. } => Type::CellState,
            FunctionView::BinaryIntOp { .. } => Type::Int,
            FunctionView::Cmp { .. } => Type::Int,
        }
    }

    /// The type of the operation applied to arguments of the types `args`, in
    /// an expression at `span`, or the error that the arguments give.
    pub open spec fn return_type(self, args: Seq<ArgType>, span: Span) -> Result<Type, LangError> {
        match check_args(args, span, self.arity(), Type::Int) {
            Some(error) => Err(error),
            None => Ok(self.result_type()),
        }
    }
}

impl UserFunctionView {
    /// Whether `r` names an error point of this function.
    pub open spec fn has_error_point(self, r: ErrorPointRef) -> bool {
        r.idx < self.error_points.len() && self.error_points[r.idx as int] == r.error
    }

    /// Whether `r` names an expression of this function.
    pub open spec fn has_expr(self, r: ExprRef) -> bool {
        r.0 < self.expressions.len()
    }

    /// Whether `r` names a statement of this function.
    pub open spec fn has_statement(self, r: StatementRef) -> bool {
        r.0 < self.statements.len()
    }

    /// The types of the expressions `args`, with their places.
    pub open spec fn arg_types(self, args: Seq<ExprRef>) -> Seq<ArgType> {
        Seq::new(
            args.len(),
            |k: int|
                ArgType {
                    span: self.expressions[args[k].0 as int].span,
                    ty: self.expressions[args[k].0 as int].return_type,
                },
        )
    }

    /// Whether `function` fits this function: it reads a variable under the
    /// variable's type, and it holds an error point of this function for
    /// each way in which it can fail, and no other.
    pub open spec fn function_wf(self, function: FunctionView) -> bool {
        match function {
            FunctionView::GetVar { var_name, var_type } => self.variables.contains_pair(
                var_name,
                var_type,
            ),
            FunctionView::NegInt { overflow_error } => self.has_error_point(overflow_error),
            FunctionView::IntToCellState { out_of_range_error } => self.has_error_point(
                out_of_range_error,
            ),
            FunctionView::BinaryIntOp { op, overflow_error, div_by_zero_error } => {
                &&& op.is_binary_int_op()
                &&& (overflow_error is Some) == op_can_overflow(op)
                &&& (div_by_zero_error is Some) == op_divides(op)
                &&& overflow_error matches Some(e) ==> self.has_error_point(e)
                &&& div_by_zero_error matches Some(e) ==> self.has_error_point(e)
            },
            _ => true,
        }
    }

    /// Whether the expression at index `i` applies an operation that fits
    /// this function to earlier expressions of the right types.
    pub open spec fn expr_wf_at(self, i: int) -> bool {
        let e = self.expressions[i];
        &&& forall|k: int| 0 <= k < e.args.len() ==> (#[trigger] e.args[k]).0 < i
        &&& e.function.return_type(self.arg_types(e.args), e.span) == Ok::<Type, LangError>(
            e.return_type,
        )
        &&& self.function_wf(e.function)
    }

    /// Whether the statement at index `i` refers to expressions of this
    /// function of the right types, to a variable of this function, and to
    /// earlier statements.
    pub open spec fn statement_wf_at(self, i: int) -> bool {
        match self.statements[i] {
            StatementView::SetVar { var_name, value_expr, .. } => {
                &&& self.has_expr(value_expr)
                &&& self.variables.dom().contains(var_name)
            },
            StatementView::If { cond_expr, if_true, if_false, .. } => {
                &&& self.has_expr(cond_expr)
                &&& self.expressions[cond_expr.0 as int].return_type == Type::Int
                &&& forall|k: int| 0 <= k < if_true.len() ==> (#[trigger] if_true[k]).0 < i
                &&& forall|k: int| 0 <= k < if_false.len() ==> (#[trigger] if_false[k]).0 < i
            },
            StatementView::Return { ret_expr, .. } => {
                &&& self.has_expr(ret_expr)
                &&& self.expressions[ret_expr.0 as int].return_type == self.return_type
            },
        }
    }

    /// Whether every index held in the arenas is valid and every node is
    /// well typed.
    pub open spec fn wf(self) -> bool {
        &&& forall|i: int| 0 <= i < self.expressions.len() ==> #[trigger] self.expr_wf_at(i)
        &&& forall|i: int| 0 <= i < self.statements.len() ==> #[trigger] self.statement_wf_at(i)
    }

    /// The function with nothing in it yet.
    pub open spec fn empty(
        rule_meta: RuleMeta,
        return_type: Type,
        is_transition_function: bool,
    ) -> UserFunctionView {
        UserFunctionView {
            rule_meta,
            return_type,
            is_transition_function,
            statements: Seq::empty(),
            expressions: Seq::empty(),
            error_points: Seq::empty(),
            variables: Map::empty(),
        }
    }

    /// Whether `later` is this function after more was built into it:
    /// nothing was removed or changed, and no variable changed its type.
    pub open spec fn extended_by(self, later: UserFunctionView) -> bool {
        &&& later.rule_meta == self.rule_meta
        &&& later.return_type == self.return_type
        &&& later.is_transition_function == self.is_transition_function
        &&& self.statements.is_prefix_of(later.statements)
        &&& self.expressions.is_prefix_of(later.expressions)
        &&& self.error_points.is_prefix_of(later.error_points)
        &&& self.variables.submap_of(later.variables)
    }

    /// The type of the variable `name`, or the error for a variable that
    /// nothing was assigned to.
    pub open spec fn try_get_var(self, span: Span, name: Seq<char>) -> Result<Type, LangError> {
        if self.variables.dom().contains(name) {
            Ok(self.variables[name])
        } else {
            Err(LangErrorMsg::UseOfUninitializedVariable.with_span(span))
        }
    }

    /// The function with the variable `name` in it, and the variable's type:
    /// the type it had, or `new_ty` if it is new.
    pub open spec fn get_or_create_var(self, name: Seq<char>, new_ty: Type) -> (
        UserFunctionView,
        Type,
    ) {
        if self.variables.dom().contains(name) {
            (self, self.variables[name])
        } else {
            (UserFunctionView { variables: self.variables.insert(name, new_ty), ..self }, new_ty)
        }
    }

    /// The function with one more error point, and the reference to it.
    pub open spec fn add_error_point(self, error: LangError) -> (UserFunctionView, ErrorPointRef) {
        (
            UserFunctionView { error_points: self.error_points.push(error), ..self },
            ErrorPointRef { idx: self.error_points.len() as usize, error },
        )
    }

    /// The function with one more expression, and the reference to it.
    pub open spec fn add_expr(self, expr: ExprView) -> (UserFunctionView, ExprRef) {
        (
            UserFunctionView { expressions: self.expressions.push(expr), ..self },
            ExprRef(self.expressions.len() as usize),
        )
    }

    /// The function with one more statement, and the reference to it.
    pub open spec fn add_statement(self, statement: StatementView) -> (
        UserFunctionView,
        StatementRef,
    ) {
        (
            UserFunctionView { statements: self.statements.push(statement), ..self },
            StatementRef(self.statements.len() as usize),
        )
    }

    /// The operation that reads the variable `name`, or the error for a
    /// variable that nothing was assigned to.
    pub open spec fn new_get_var(self, span: Span, name: Seq<char>) -> Result<
        FunctionView,
        LangError,
    > {
        match self.try_get_var(span, name) {
            Ok(var_type) => Ok(FunctionView::GetVar { var_name: name, var_type }),
            Err(error) => Err(error),
        }
    }

    /// The negation in an expression at `span`, with the error point for its
    /// overflow registered.
    pub open spec fn new_neg_int(self, span: Span) -> (UserFunctionView, FunctionView) {
        let (f, overflow_error) = self.add_error_point(
            LangErrorMsg::IntegerOverflow.with_span(span),
        );
        (f, FunctionView::NegInt { overflow_error })
    }

    /// The conversion to a cell state in an expression at `span`, with the
    /// error point for an integer that is no cell state registered.
    pub open spec fn new_int_to_cell_state(self, span: Span) -> (UserFunctionView, FunctionView) {
        let (f, out_of_range_error) = self.add_error_point(
            LangErrorMsg::CellStateOutOfRange.with_span(span),
        );
        (f, FunctionView::IntToCellState { out_of_range_error })
    }

    /// The operation `op` on two integers in an expression at `span`, with
    /// the error points registered that it can trap to: overflow first, then
    /// division by zero. An operator that is no such operation is an error,
    /// and nothing is registered.
    pub open spec fn new_binary_int_op(self, span: Span, op: OperatorToken) -> (
        UserFunctionView,
        Result<FunctionView, LangError>,
    ) {
        if !op.is_binary_int_op() {
            (self, Err(LangErrorMsg::InternalError("Invalid binary operator").with_span(span)))
        } else {
            let (f1, overflow_error) = if op_can_overflow(op) {
                let (f, e) = self.add_error_point(LangErrorMsg::IntegerOverflow.with_span(span));
                (f, Some(e))
            } else {
                (self, None)
            };
            let (f2, div_by_zero_error) = if op_divides(op) {
                let (f, e) = f1.add_error_point(LangErrorMsg::DivideByZero.with_span(span));
                (f, Some(e))
            } else {
                (f1, None)
            };
            (f2, Ok(FunctionView::BinaryIntOp { op, overflow_error, div_by_zero_error }))
        }
    }

    /// Checks `function` against the expressions `args` and appends the
    /// expression that applies it to them.
    pub open spec fn finish_expr(self, span: Span, function: FunctionView, args: Seq<ExprRef>) -> (
        UserFunctionView,
        Result<ExprRef, LangError>,
    ) {
        match function.return_type(self.arg_types(args), span) {
            Err(error) => (self, Err(error)),
            Ok(return_type) => {
                let (f, r) = self.add_expr(ExprView { span, function, args, return_type });
                (f, Ok(r))
            },
        }
    }

    /// Builds the expression `tree` into the function: its operands from
    /// left to right, each before the expression that uses it. Gives the
    /// function after that, with what was built before the first error, and
    /// the reference to the expression or the first error.
    pub open spec fn build_expr(self, tree: Spanned<parser::Expr>) -> (
        UserFunctionView,
        Result<ExprRef, LangError>,
    )
        decreases tree,
    {
        let span = tree.span;
        match tree.inner {
            parser::Expr::Int(i) => self.finish_expr(span, FunctionView::Int(i), seq![]),
            parser::Expr::Ident(name) => match self.new_get_var(span, name@) {
                Err(error) => (self, Err(error)),
                Ok(function) => self.finish_expr(span, function, seq![]),
            },
            parser::Expr::Group { start_token, inner } => match start_token {
                PunctuationToken::LParen => self.build_expr(*inner),
                PunctuationToken::LBracket => (
                    self,
                    Err(LangErrorMsg::Unimplemented.with_span(span)),
                ),
                _ => (self, Err(LangErrorMsg::InternalError("Invalid group").with_span(span))),
            },
            parser::Expr::List(_) => (
                self,
                Err(
                    LangErrorMsg::ExpectedGot {
                        expected: "expression",
                        got: "comma-separated list",
                    }.with_span(span),
                ),
            ),
            parser::Expr::UnaryOp { op, operand } => match op {
                OperatorToken::Minus => {
                    let (f1, r1) = self.build_expr(*operand);
                    match r1 {
                        Err(error) => (f1, Err(error)),
                        Ok(arg) => {
                            let (f2, function) = f1.new_neg_int(span);
                            f2.finish_expr(span, function, seq![arg])
                        },
                    }
                },
                OperatorToken::Tag => {
                    let (f1, r1) = self.build_expr(*operand);
                    match r1 {
                        Err(error) => (f1, Err(error)),
                        Ok(arg) => {
                            let (f2, function) = f1.new_int_to_cell_state(span);
                            f2.finish_expr(span, function, seq![arg])
                        },
                    }
                },
                _ => (
                    self,
                    Err(LangErrorMsg::InternalError("Invalid unary operator").with_span(span)),
                ),
            },
            parser::Expr::BinaryOp { lhs, op, rhs } => {
                if op.is_binary_int_op() {
                    let (f1, r1) = self.build_expr(*lhs);
                    match r1 {
                        Err(error) => (f1, Err(error)),
                        Ok(lhs_ref) => {
                            let (f2, r2) = f1.build_expr(*rhs);
                            match r2 {
                                Err(error) => (f2, Err(error)),
                                Ok(rhs_ref) => {
                                    let (f3, r3) = f2.new_binary_int_op(span, op);
                                    match r3 {
                                        Err(error) => (f3, Err(error)),
                                        Ok(function) => f3.finish_expr(
                                            span,
                                            function,
                                            seq![lhs_ref, rhs_ref],
                                        ),
                                    }
                                },
                            }
                        },
                    }
                } else if op == OperatorToken::Dot || op == OperatorToken::DotDot {
                    (self, Err(LangErrorMsg::Unimplemented.with_span(span)))
                } else {
                    (
                        self,
                        Err(LangErrorMsg::InternalError("Invalid binary operator").with_span(span)),
                    )
                }
            },
            parser::Expr::Cmp { exprs, comparisons } => {
                let (f1, r1) = self.build_exprs(exprs@);
                match r1 {
                    Err(error) => (f1, Err(error)),
                    Ok(args) => f1.finish_expr(span, FunctionView::Cmp { comparisons: comparisons@ }, args),
                }
            },
        }
    }

    /// Builds the expressions `trees` into the function from left to right,
    /// up to the first that fails.
    pub open spec fn build_exprs(self, trees: Seq<Spanned<parser::Expr>>) -> (
        UserFunctionView,
        Result<Seq<ExprRef>, LangError>,
    )
        decreases trees,
    {
        if trees.len() == 0 {
            (self, Ok(Seq::empty()))
        } else {
            let (f1, r1) = self.build_exprs(trees.drop_last());
            match r1 {
                Err(error) => (f1, Err(error)),
                Ok(refs) => {
                    let (f2, r2) = f1.build_expr(trees.last());
                    match r2 {
                        Err(error) => (f2, Err(error)),
                        Ok(r) => (f2, Ok(refs.push(r))),
                    }
                },
            }
        }
    }

    /// The assignment of the expression `value_expr` to the variable `name`,
    /// in the function where that variable exists: with the type of the
    /// expression if it is new, with the type it had if not.
    pub open spec fn new_set_var(self, span: Span, name: Seq<char>, value_expr: ExprRef) -> (
        UserFunctionView,
        StatementView,
    ) {
        let (f, _) = self.get_or_create_var(
            name,
            self.expressions[value_expr.0 as int].return_type,
        );
        (f, StatementView::SetVar { span, var_name: name, value_expr })
    }

    /// The conditional on the expression `cond_expr`, which must be an
    /// integer.
    pub open spec fn new_if(
        self,
        span: Span,
        cond_expr: ExprRef,
        if_true: Seq<StatementRef>,
        if_false: Seq<StatementRef>,
    ) -> Result<StatementView, LangError> {
        let cond = self.expressions[cond_expr.0 as int];
        if cond.return_type == Type::Int {
            Ok(StatementView::If { span, cond_expr, if_true, if_false })
        } else {
            Err(
                LangErrorMsg::TypeError { expected: Type::Int, got: cond.return_type }.with_span(
                    cond.span,
                ),
            )
        }
    }

    /// The exit with the value of the expression `ret_expr`, which must have
    /// the function's return type.
    pub open spec fn new_return(self, span: Span, ret_expr: ExprRef) -> Result<
        StatementView,
        LangError,
    > {
        let ret = self.expressions[ret_expr.0 as int];
        if ret.return_type == self.return_type {
            Ok(StatementView::Return { span, ret_expr })
        } else {
            Err(
                LangErrorMsg::TypeError {
                    expected: self.return_type,
                    got: ret.return_type,
                }.with_span(ret.span),
            )
        }
    }

    /// Builds the exit with the value of `ret_expr` at `span`.
    pub open spec fn build_exit(self, span: Span, ret_expr: Spanned<parser::Expr>) -> (
        UserFunctionView,
        Result<StatementRef, LangError>,
    ) {
        let (f1, r1) = self.build_expr(ret_expr);
        match r1 {
            Err(error) => (f1, Err(error)),
            Ok(ret) => match f1.new_return(span, ret) {
                Err(error) => (f1, Err(error)),
                Ok(statement) => {
                    let (f2, r) = f1.add_statement(statement);
                    (f2, Ok(r))
                },
            },
        }
    }

    /// The expression that an assignment with an operator stands for: the
    /// operator between the variable and the value, at the place of the whole
    /// statement.
    pub open spec fn desugared_value(
        span: Span,
        var_expr: Spanned<parser::Expr>,
        op: OperatorToken,
        value_expr: Spanned<parser::Expr>,
    ) -> Spanned<parser::Expr> {
        Spanned {
            span,
            inner: parser::Expr::BinaryOp {
                lhs: Box::new(var_expr),
                op,
                rhs: Box::new(value_expr),
            },
        }
    }

    /// Builds the statement `tree` into the function. Gives the function
    /// after that, with what was built before the first error, and the
    /// reference to the statement or the first error.
    pub open spec fn build_statement(self, tree: Spanned<parser::Statement>) -> (
        UserFunctionView,
        Result<StatementRef, LangError>,
    )
        decreases tree,
    {
        let span = tree.span;
        match tree.inner {
            parser::Statement::SetVar { var_expr, assign_op, value_expr } => match var_expr.inner {
                parser::Expr::Ident(name) => {
                    let (f1, r1) = match assign_op.op() {
                        Some(op) => self.build_expr(
                            Self::desugared_value(span, var_expr, op, value_expr),
                        ),
                        None => self.build_expr(value_expr),
                    };
                    match r1 {
                        Err(error) => (f1, Err(error)),
                        Ok(value) => {
                            let (f2, statement) = f1.new_set_var(span, name@, value);
                            let (f3, r) = f2.add_statement(statement);
                            (f3, Ok(r))
                        },
                    }
                },
                _ => (self, Err(LangErrorMsg::Expected("variable name").with_span(span))),
            },
            parser::Statement::If { cond_expr, if_true, if_false } => {
                let (f1, r1) = self.build_expr(cond_expr);
                match r1 {
                    Err(error) => (f1, Err(error)),
                    Ok(cond) => {
                        let (f2, r2) = f1.build_block(if_true@);
                        match r2 {
                            Err(error) => (f2, Err(error)),
                            Ok(true_refs) => {
                                let (f3, r3) = f2.build_block(if_false@);
                                match r3 {
                                    Err(error) => (f3, Err(error)),
                                    Ok(false_refs) => match f3.new_if(
                                        span,
                                        cond,
                                        true_refs,
                                        false_refs,
                                    ) {
                                        Err(error) => (f3, Err(error)),
                                        Ok(statement) => {
                                            let (f4, r) = f3.add_statement(statement);
                                            (f4, Ok(r))
                                        },
                                    },
                                }
                            },
                        }
                    },
                }
            },
            parser::Statement::Become(ret_expr) => {
                if self.is_transition_function {
                    self.build_exit(span, ret_expr)
                } else {
                    (self, Err(LangErrorMsg::BecomeInHelperFunction.with_span(span)))
                }
            },
            parser::Statement::Return(ret_expr) => {
                if self.is_transition_function {
                    (self, Err(LangErrorMsg::ReturnInTransitionFunction.with_span(span)))
                } else {
                    self.build_exit(span, ret_expr)
                }
            },
        }
    }

    /// Builds the statements `trees` into the function in their order, up to
    /// the first that fails.
    pub open spec fn build_block(self, trees: Seq<Spanned<parser::Statement>>) -> (
        UserFunctionView,
        Result<Seq<StatementRef>, LangError>,
    )
        decreases trees,
    {
        if trees.len() == 0 {
            (self, Ok(Seq::empty()))
        } else {
            let (f1, r1) = self.build_block(trees.drop_last());
            match r1 {
                Err(error) => (f1, Err(error)),
                Ok(refs) => {
                    let (f2, r2) = f1.build_statement(trees.last());
                    match r2 {
                        Err(error) => (f2, Err(error)),
                        Ok(r) => (f2, Ok(refs.push(r))),
                    }
                },
            }
        }
    }
}

/// A function extends itself.
pub proof fn lemma_extended_by_refl(f: UserFunctionView)
    ensures
        f.extended_by(f),
{
}

/// What extends an extension of a function extends the function.
pub proof fn lemma_extended_by_trans(a: UserFunctionView, b: UserFunctionView, c: UserFunctionView)
    requires
        a.extended_by(b),
        b.extended_by(c),
    ensures
        a.extended_by(c),
{
    assert(a.statements.is_prefix_of(c.statements));
    assert(a.expressions.is_prefix_of(c.expressions));
    assert(a.error_points.is_prefix_of(c.error_points));
    assert forall|name: Seq<char>| #[trigger] a.variables.dom().contains(name) implies {
        &&& c.variables.dom().contains(name)
        &&& a.variables[name] == c.variables[name]
    } by {
        assert(b.variables.dom().contains(name));
    }
    assert(a.variables.submap_of(c.variables));
}

/// Each step of building extends the function: nothing that was there is
/// removed or changed.
pub proof fn lemma_steps_extend(f: UserFunctionView)
    ensures
        forall|expr: ExprView| f.extended_by(#[trigger] f.add_expr(expr).0),
        forall|statement: StatementView| f.extended_by(#[trigger] f.add_statement(statement).0),
        forall|error: LangError| f.extended_by(#[trigger] f.add_error_point(error).0),
        forall|name: Seq<char>, ty: Type| f.extended_by(#[trigger] f.get_or_create_var(name, ty).0),
        forall|span: Span| f.extended_by(#[trigger] f.new_neg_int(span).0),
        forall|span: Span| f.extended_by(#[trigger] f.new_int_to_cell_state(span).0),
        forall|span: Span, op: OperatorToken|
            f.extended_by(#[trigger] f.new_binary_int_op(span, op).0),
        forall|span: Span, function: FunctionView, args: Seq<ExprRef>|
            f.extended_by(#[trigger] f.finish_expr(span, function, args).0),
        forall|span: Span, name: Seq<char>, value_expr: ExprRef|
            f.extended_by(#[trigger] f.new_set_var(span, name, value_expr).0),
{
    assert forall|span: Span, op: OperatorToken|
        f.extended_by(#[trigger] f.new_binary_int_op(span, op).0) by {
        let f1 = if op.is_binary_int_op() && op_can_overflow(op) {
            f.add_error_point(LangErrorMsg::IntegerOverflow.with_span(span)).0
        } else {
            f
        };
        assert(f.extended_by(f1));
        let f2 = f.new_binary_int_op(span, op).0;
        assert(f1.extended_by(f2));
        lemma_extended_by_trans(f, f1, f2);
    }
}

/// Where building a prefix of a sequence of expressions fails, building the
/// whole sequence fails in the same way.
pub proof fn lemma_build_exprs_stops(
    f: UserFunctionView,
    trees: Seq<Spanned<parser::Expr>>,
    count: int,
)
    requires
        0 <= count <= trees.len(),
        f.build_exprs(trees.take(count)).1 is Err,
    ensures
        f.build_exprs(trees) == f.build_exprs(trees.take(count)),
    decreases trees.len(),
{
    if count == trees.len() {
        assert(trees.take(count) =~= trees);
    } else {
        assert(trees.drop_last().take(count) =~= trees.take(count));
        lemma_build_exprs_stops(f, trees.drop_last(), count);
    }
}

/// Where building a prefix of a block fails, building the whole block fails
/// in the same way.
pub proof fn lemma_build_block_stops(
    f: UserFunctionView,
    trees: Seq<Spanned<parser::Statement>>,
    count: int,
)
    requires
        0 <= count <= trees.len(),
        f.build_block(trees.take(count)).1 is Err,
    ensures
        f.build_block(trees) == f.build_block(trees.take(count)),
    decreases trees.len(),
{
    if count == trees.len() {
        assert(trees.take(count) =~= trees);
    } else {
        assert(trees.drop_last().take(count) =~= trees.take(count));
        lemma_build_block_stops(f, trees.drop_last(), count);
    }
}

} // verus!
