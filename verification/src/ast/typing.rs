//! The types of the expressions of the syntax tree, and the fact that the
//! builder accepts exactly the expressions that have one.
use crate::ast::facts::{
    lemma_build_block_extends, lemma_build_expr_extends, lemma_build_exprs_extends,
    lemma_build_statement_extends,
};
use crate::ast::model::{
    check_args, lemma_extended_by_refl, lemma_extended_by_trans, lemma_steps_extend, ArgType,
    FunctionView, UserFunctionView,
};
use crate::ast::userfunc::{ExprRef, StatementRef};
use crate::errors::{LangError, LangErrorMsg, Span};
use crate::ast::facts::lemma_build_exit_extends;
use crate::lexer::{OperatorToken, PunctuationToken};
use crate::parser;
use crate::parser::Spanned;
use crate::types::Type;
use vstd::prelude::*;

verus! {

/// The place of the node that stands for `tree` in the program: the place of
/// the expression itself, or of what is inside it where it is a group in
/// round brackets.
pub open spec fn node_span(tree: Spanned<parser::Expr>) -> Span
    decreases tree,
{
    match tree.inner {
        parser::Expr::Group { start_token: PunctuationToken::LParen, inner } => node_span(*inner),
        _ => tree.span,
    }
}

/// The type of the result of an operation on integers, or the error that
/// the operands give: a wrong number of them, or the leftmost that is no
/// integer.
pub open spec fn int_operation(args: Seq<ArgType>, span: Span, count: nat, result: Type) -> Result<
    Type,
    LangError,
> {
    match check_args(args, span, count, Type::Int) {
        Some(error) => Err(error),
        None => Ok(result),
    }
}

/// The type of the expression `tree` where the variables have the types
/// `vars`, or the first error in it: every operand is typed, from left to
/// right, before the operation is checked against the types of its
/// operands.
pub open spec fn type_of(vars: Map<Seq<char>, Type>, tree: Spanned<parser::Expr>) -> Result<
    Type,
    LangError,
>
    decreases tree,
{
    let span = tree.span;
    match tree.inner {
        parser::Expr::Int(_) => Ok(Type::Int),
        parser::Expr::Ident(name) => if vars.dom().contains(name@) {
            Ok(vars[name@])
        } else {
            Err(LangErrorMsg::UseOfUninitializedVariable.with_span(span))
        },
        parser::Expr::Group { start_token, inner } => match start_token {
            PunctuationToken::LParen => type_of(vars, *inner),
            PunctuationToken::LBracket => Err(LangErrorMsg::Unimplemented.with_span(span)),
            _ => Err(LangErrorMsg::InternalError("Invalid group").with_span(span)),
        },
        parser::Expr::List(_) => Err(
            LangErrorMsg::ExpectedGot {
                expected: "expression",
                got: "comma-separated list",
            }.with_span(span),
        ),
        parser::Expr::UnaryOp { op, operand } => {
            if op == OperatorToken::Minus || op == OperatorToken::Tag {
                match type_of(vars, *operand) {
                    Err(error) => Err(error),
                    Ok(ty) => int_operation(
                        seq![ArgType { span: node_span(*operand), ty }],
                        span,
                        1,
                        if op == OperatorToken::Minus {
                            Type::Int
                        } else {
                            Type::CellState
                        },
                    ),
                }
            } else {
                Err(LangErrorMsg::InternalError("Invalid unary operator").with_span(span))
            }
        },
        parser::Expr::BinaryOp { lhs, op, rhs } => {
            if op.is_binary_int_op() {
                match type_of(vars, *lhs) {
                    Err(error) => Err(error),
                    Ok(lhs_ty) => match type_of(vars, *rhs) {
                        Err(error) => Err(error),
                        Ok(rhs_ty) => int_operation(
                            seq![
                                ArgType { span: node_span(*lhs), ty: lhs_ty },
                                ArgType { span: node_span(*rhs), ty: rhs_ty },
                            ],
                            span,
                            2,
                            Type::Int,
                        ),
                    },
                }
            } else if op == OperatorToken::Dot || op == OperatorToken::DotDot {
                Err(LangErrorMsg::Unimplemented.with_span(span))
            } else {
                Err(LangErrorMsg::InternalError("Invalid binary operator").with_span(span))
            }
        },
        parser::Expr::Cmp { exprs, comparisons } => match types_of(vars, exprs@) {
            Err(error) => Err(error),
            Ok(args) => int_operation(args, span, comparisons@.len() + 1, Type::Int),
        },
    }
}

/// The types of the expressions `trees` with the places of their nodes, or
/// the first error in them.
pub open spec fn types_of(vars: Map<Seq<char>, Type>, trees: Seq<Spanned<parser::Expr>>) -> Result<
    Seq<ArgType>,
    LangError,
>
    decreases trees,
{
    if trees.len() == 0 {
        Ok(Seq::empty())
    } else {
        match types_of(vars, trees.drop_last()) {
            Err(error) => Err(error),
            Ok(args) => match type_of(vars, trees.last()) {
                Err(error) => Err(error),
                Ok(ty) => Ok(args.push(ArgType { span: node_span(trees.last()), ty })),
            },
        }
    }
}

impl UserFunctionView {
    /// Whether `result` is what building an expression of the type or with
    /// the error `typed` into this function gives, where `later` is the
    /// function after it and `span` the place of the expression's node: the
    /// error itself, or a reference to an expression of `later` that has
    /// the type and the place. Building changes no variable and removes
    /// nothing.
    pub open spec fn built_as(
        self,
        later: UserFunctionView,
        result: Result<ExprRef, LangError>,
        typed: Result<Type, LangError>,
        span: Span,
    ) -> bool {
        &&& self.extended_by(later)
        &&& later.variables == self.variables
        &&& match typed {
            Err(error) => result == Err::<ExprRef, LangError>(error),
            Ok(ty) => {
                &&& result matches Ok(r)
                &&& later.has_expr(r)
                &&& later.expressions[r.0 as int].return_type == ty
                &&& later.expressions[r.0 as int].span == span
            },
        }
    }
}

/// The last step of building an expression: where the arguments have the
/// types `types`, the operation is checked against those types, and the
/// node that is appended has the type that the check gives.
proof fn lemma_finish_expr_typed(
    f: UserFunctionView,
    span: Span,
    function: FunctionView,
    args: Seq<ExprRef>,
    types: Seq<ArgType>,
)
    requires
        f.arg_types(args) == types,
        f.finish_expr(span, function, args).0.expressions.len() <= usize::MAX,
    ensures
        f.built_as(
            f.finish_expr(span, function, args).0,
            f.finish_expr(span, function, args).1,
            function.return_type(types, span),
            span,
        ),
{
    lemma_extended_by_refl(f);
    lemma_steps_extend(f);
}

/// The builder accepts exactly the expressions that have a type. Where the
/// expression `tree` has a type under the variables of the function,
/// building it gives a reference to an expression of that type; where it
/// has none, building it fails with the error that typing it gives. The
/// arena must fit the indices that refer into it.
pub proof fn lemma_build_expr_is_typing(f: UserFunctionView, tree: Spanned<parser::Expr>)
    requires
        f.build_expr(tree).0.expressions.len() <= usize::MAX,
    ensures
        f.built_as(
            f.build_expr(tree).0,
            f.build_expr(tree).1,
            type_of(f.variables, tree),
            node_span(tree),
        ),
    decreases tree,
{
    let span = tree.span;
    let done = f.build_expr(tree).0;
    lemma_extended_by_refl(f);
    lemma_build_expr_extends(f, tree);
    match tree.inner {
        parser::Expr::Int(i) => {
            assert(f.arg_types(Seq::<ExprRef>::empty()) =~= Seq::<ArgType>::empty());
            lemma_finish_expr_typed(f, span, FunctionView::Int(i), seq![], seq![]);
        },
        parser::Expr::Ident(name) => {
            if f.variables.dom().contains(name@) {
                assert(f.arg_types(Seq::<ExprRef>::empty()) =~= Seq::<ArgType>::empty());
                lemma_finish_expr_typed(
                    f,
                    span,
                    FunctionView::GetVar { var_name: name@, var_type: f.variables[name@] },
                    seq![],
                    seq![],
                );
            }
        },
        parser::Expr::Group { start_token, inner } => {
            if start_token == PunctuationToken::LParen {
                lemma_build_expr_is_typing(f, *inner);
            }
        },
        parser::Expr::List(_) => {},
        parser::Expr::UnaryOp { op, operand } => {
            if op == OperatorToken::Minus || op == OperatorToken::Tag {
                let (f1, r1) = f.build_expr(*operand);
                lemma_build_expr_extends(f, *operand);
                if r1 is Ok {
                    let (f2, function) = if op == OperatorToken::Minus {
                        f1.new_neg_int(span)
                    } else {
                        f1.new_int_to_cell_state(span)
                    };
                    lemma_steps_extend(f1);
                    lemma_steps_extend(f2);
                    assert(f1.extended_by(f2));
                    assert(f2.extended_by(done));
                    lemma_build_expr_is_typing(f, *operand);
                    let arg = r1->Ok_0;
                    let ty = type_of(f.variables, *operand)->Ok_0;
                    let types = seq![ArgType { span: node_span(*operand), ty }];
                    assert(f2.arg_types(seq![arg]) =~= types);
                    lemma_finish_expr_typed(f2, span, function, seq![arg], types);
                    lemma_extended_by_trans(f, f1, f2);
                    lemma_extended_by_trans(f, f2, done);
                } else {
                    lemma_build_expr_is_typing(f, *operand);
                }
            }
        },
        parser::Expr::BinaryOp { lhs, op, rhs } => {
            if op.is_binary_int_op() {
                let (f1, r1) = f.build_expr(*lhs);
                lemma_build_expr_extends(f, *lhs);
                if r1 is Ok {
                    let (f2, r2) = f1.build_expr(*rhs);
                    lemma_build_expr_extends(f1, *rhs);
                    if r2 is Ok {
                        let (f3, r3) = f2.new_binary_int_op(span, op);
                        lemma_steps_extend(f2);
                        lemma_steps_extend(f3);
                        assert(f2.extended_by(f3));
                        assert(f3.extended_by(done));
                        lemma_build_expr_is_typing(f, *lhs);
                        lemma_build_expr_is_typing(f1, *rhs);
                        let a = r1->Ok_0;
                        let b = r2->Ok_0;
                        let types = seq![
                            ArgType {
                                span: node_span(*lhs),
                                ty: type_of(f.variables, *lhs)->Ok_0,
                            },
                            ArgType {
                                span: node_span(*rhs),
                                ty: type_of(f.variables, *rhs)->Ok_0,
                            },
                        ];
                        assert(f2.expressions[a.0 as int] == f1.expressions[a.0 as int]);
                        assert(f3.arg_types(seq![a, b]) =~= types);
                        lemma_finish_expr_typed(f3, span, r3->Ok_0, seq![a, b], types);
                        lemma_extended_by_trans(f, f1, f2);
                        lemma_extended_by_trans(f, f2, f3);
                        lemma_extended_by_trans(f, f3, done);
                    } else {
                        lemma_build_expr_is_typing(f, *lhs);
                        lemma_build_expr_is_typing(f1, *rhs);
                        lemma_extended_by_trans(f, f1, f2);
                    }
                } else {
                    lemma_build_expr_is_typing(f, *lhs);
                }
            }
        },
        parser::Expr::Cmp { exprs, comparisons } => {
            let (f1, r1) = f.build_exprs(exprs@);
            lemma_build_exprs_extends(f, exprs@);
            lemma_steps_extend(f1);
            assert(f1.extended_by(done));
            lemma_build_exprs_is_typing(f, exprs@);
            if r1 is Ok {
                lemma_finish_expr_typed(
                    f1,
                    span,
                    FunctionView::Cmp { comparisons: comparisons@ },
                    r1->Ok_0,
                    types_of(f.variables, exprs@)->Ok_0,
                );
                lemma_extended_by_trans(f, f1, done);
            }
        },
    }
}

/// The builder accepts exactly the sequences of expressions that all have
/// a type: the references it gives are to expressions of those types, in
/// the same order.
pub proof fn lemma_build_exprs_is_typing(f: UserFunctionView, trees: Seq<Spanned<parser::Expr>>)
    requires
        f.build_exprs(trees).0.expressions.len() <= usize::MAX,
    ensures
        f.extended_by(f.build_exprs(trees).0),
        f.build_exprs(trees).0.variables == f.variables,
        match types_of(f.variables, trees) {
            Err(error) => f.build_exprs(trees).1 == Err::<Seq<ExprRef>, LangError>(error),
            Ok(types) => {
                &&& f.build_exprs(trees).1 matches Ok(refs)
                &&& f.build_exprs(trees).0.arg_types(refs) == types
                &&& forall|k: int|
                    0 <= k < refs.len() ==> f.build_exprs(trees).0.has_expr(#[trigger] refs[k])
            },
        },
    decreases trees,
{
    lemma_build_exprs_extends(f, trees);
    if trees.len() == 0 {
        assert(f.arg_types(Seq::<ExprRef>::empty()) =~= Seq::<ArgType>::empty());
    } else {
        let (f1, r1) = f.build_exprs(trees.drop_last());
        lemma_build_exprs_extends(f, trees.drop_last());
        if r1 is Ok {
            let (f2, r2) = f1.build_expr(trees.last());
            lemma_build_expr_extends(f1, trees.last());
            lemma_build_exprs_is_typing(f, trees.drop_last());
            lemma_build_expr_is_typing(f1, trees.last());
            if r2 is Ok {
                let refs = r1->Ok_0;
                let r = r2->Ok_0;
                let types = types_of(f.variables, trees.drop_last())->Ok_0;
                let ty = type_of(f.variables, trees.last())->Ok_0;
                assert forall|k: int| 0 <= k < refs.len() implies f2.expressions[refs[k].0 as int]
                    == f1.expressions[refs[k].0 as int] by {
                    assert(f1.has_expr(refs[k]));
                }
                assert(f2.arg_types(refs.push(r)) =~= types.push(
                    ArgType { span: node_span(trees.last()), ty },
                )) by {
                    assert(f1.arg_types(refs) == types);
                    assert forall|k: int| 0 <= k < refs.len() implies f2.arg_types(
                        refs.push(r),
                    )[k] == types[k] by {
                        assert(f1.arg_types(refs)[k] == types[k]);
                        assert(f1.has_expr(refs[k]));
                    }
                }
                assert forall|k: int| 0 <= k < refs.push(r).len() implies f2.has_expr(
                    #[trigger] refs.push(r)[k],
                ) by {
                    if k < refs.len() {
                        assert(f1.has_expr(refs[k]));
                    }
                }
            }
        } else {
            lemma_build_exprs_is_typing(f, trees.drop_last());
        }
    }
}

/// What a function is declared as: its kind and the type that it gives.
pub struct Header {
    pub is_transition_function: bool,
    pub return_type: Type,
}

impl UserFunctionView {
    /// What the function is declared as.
    pub open spec fn header(self) -> Header {
        Header {
            is_transition_function: self.is_transition_function,
            return_type: self.return_type,
        }
    }
}

/// The check of the exit with the value of `ret_expr`: the expression must
/// have the type that the function gives.
pub open spec fn check_exit(
    header: Header,
    vars: Map<Seq<char>, Type>,
    ret_expr: Spanned<parser::Expr>,
) -> Result<Map<Seq<char>, Type>, LangError> {
    match type_of(vars, ret_expr) {
        Err(error) => Err(error),
        Ok(ty) => if ty == header.return_type {
            Ok(vars)
        } else {
            Err(
                LangErrorMsg::TypeError { expected: header.return_type, got: ty }.with_span(
                    node_span(ret_expr),
                ),
            )
        },
    }
}

/// The check of the statement `tree` in a function declared as `header`
/// whose variables have the types `vars`: the types of the variables after
/// the statement, or the first error in it. An assignment gives a new
/// variable the type of its value, and an old one keeps its type. The
/// condition of a conditional is checked to be an integer after both of
/// its blocks. An exit must use the keyword of the kind of the function.
pub open spec fn check_statement(
    header: Header,
    vars: Map<Seq<char>, Type>,
    tree: Spanned<parser::Statement>,
) -> Result<Map<Seq<char>, Type>, LangError>
    decreases tree,
{
    let span = tree.span;
    match tree.inner {
        parser::Statement::SetVar { var_expr, assign_op, value_expr } => match var_expr.inner {
            parser::Expr::Ident(name) => {
                let value = match assign_op.op() {
                    Some(op) => UserFunctionView::desugared_value(span, var_expr, op, value_expr),
                    None => value_expr,
                };
                match type_of(vars, value) {
                    Err(error) => Err(error),
                    Ok(ty) => if vars.dom().contains(name@) {
                        Ok(vars)
                    } else {
                        Ok(vars.insert(name@, ty))
                    },
                }
            },
            _ => Err(LangErrorMsg::Expected("variable name").with_span(span)),
        },
        parser::Statement::If { cond_expr, if_true, if_false } => match type_of(vars, cond_expr) {
            Err(error) => Err(error),
            Ok(ty) => match check_block(header, vars, if_true@) {
                Err(error) => Err(error),
                Ok(vars1) => match check_block(header, vars1, if_false@) {
                    Err(error) => Err(error),
                    Ok(vars2) => if ty == Type::Int {
                        Ok(vars2)
                    } else {
                        Err(
                            LangErrorMsg::TypeError { expected: Type::Int, got: ty }.with_span(
                                node_span(cond_expr),
                            ),
                        )
                    },
                },
            },
        },
        parser::Statement::Become(ret_expr) => if header.is_transition_function {
            check_exit(header, vars, ret_expr)
        } else {
            Err(LangErrorMsg::BecomeInHelperFunction.with_span(span))
        },
        parser::Statement::Return(ret_expr) => if header.is_transition_function {
            Err(LangErrorMsg::ReturnInTransitionFunction.with_span(span))
        } else {
            check_exit(header, vars, ret_expr)
        },
    }
}

/// The check of the statements `trees` in their order: the types of the
/// variables after them, or the first error.
pub open spec fn check_block(
    header: Header,
    vars: Map<Seq<char>, Type>,
    trees: Seq<Spanned<parser::Statement>>,
) -> Result<Map<Seq<char>, Type>, LangError>
    decreases trees,
{
    if trees.len() == 0 {
        Ok(vars)
    } else {
        match check_block(header, vars, trees.drop_last()) {
            Err(error) => Err(error),
            Ok(vars1) => check_statement(header, vars1, trees.last()),
        }
    }
}

/// An exit builds exactly where it passes its check.
proof fn lemma_build_exit_is_checking(f: UserFunctionView, span: Span, ret_expr: Spanned<parser::Expr>)
    requires
        f.build_exit(span, ret_expr).0.expressions.len() <= usize::MAX,
    ensures
        match check_exit(f.header(), f.variables, ret_expr) {
            Err(error) => f.build_exit(span, ret_expr).1 == Err::<
                StatementRef,
                LangError,
            >(error),
            Ok(vars) => f.build_exit(span, ret_expr).1 is Ok && f.build_exit(
                span,
                ret_expr,
            ).0.variables == vars,
        },
{
    let f1 = f.build_expr(ret_expr).0;
    lemma_build_expr_extends(f, ret_expr);
    lemma_build_exit_extends(f, span, ret_expr);
    lemma_steps_extend(f1);
    lemma_build_expr_is_typing(f, ret_expr);
}

/// The builder accepts exactly the statements that pass their check. Where
/// the statement `tree` passes, building it succeeds and leaves the
/// variables with the types that the check gives; where it does not,
/// building it fails with the error of the check. The arena of the
/// expressions must fit the indices that refer into it.
pub proof fn lemma_build_statement_is_checking(f: UserFunctionView, tree: Spanned<parser::Statement>)
    requires
        f.build_statement(tree).0.expressions.len() <= usize::MAX,
    ensures
        match check_statement(f.header(), f.variables, tree) {
            Err(error) => f.build_statement(tree).1 == Err::<
                StatementRef,
                LangError,
            >(error),
            Ok(vars) => f.build_statement(tree).1 is Ok && f.build_statement(tree).0.variables
                == vars,
        },
    decreases tree,
{
    let span = tree.span;
    let done = f.build_statement(tree).0;
    lemma_build_statement_extends(f, tree);
    match tree.inner {
        parser::Statement::SetVar { var_expr, assign_op, value_expr } => {
            if var_expr.inner is Ident {
                let value = match assign_op.op() {
                    Some(op) => UserFunctionView::desugared_value(span, var_expr, op, value_expr),
                    None => value_expr,
                };
                let (f1, r1) = f.build_expr(value);
                lemma_build_expr_extends(f, value);
                if r1 is Ok {
                    lemma_steps_extend(f1);
                    let f2 = f1.new_set_var(span, var_expr.inner->Ident_0@, r1->Ok_0).0;
                    lemma_steps_extend(f2);
                    assert(f1.extended_by(f2));
                    assert(f2.extended_by(done));
                }
                lemma_build_expr_is_typing(f, value);
            }
        },
        parser::Statement::If { cond_expr, if_true, if_false } => {
            let (f1, r1) = f.build_expr(cond_expr);
            lemma_build_expr_extends(f, cond_expr);
            if r1 is Ok {
                let (f2, r2) = f1.build_block(if_true@);
                lemma_build_block_extends(f1, if_true@);
                if r2 is Ok {
                    let (f3, r3) = f2.build_block(if_false@);
                    lemma_build_block_extends(f2, if_false@);
                    if r3 is Ok {
                        lemma_steps_extend(f3);
                        assert(f3.extended_by(done));
                    }
                    lemma_build_expr_is_typing(f, cond_expr);
                    lemma_build_block_is_checking(f1, if_true@);
                    lemma_build_block_is_checking(f2, if_false@);
                    let cond = r1->Ok_0;
                    assert(f2.expressions[cond.0 as int] == f1.expressions[cond.0 as int]);
                    assert(f3.expressions[cond.0 as int] == f2.expressions[cond.0 as int]);
                } else {
                    lemma_build_expr_is_typing(f, cond_expr);
                    lemma_build_block_is_checking(f1, if_true@);
                }
            } else {
                lemma_build_expr_is_typing(f, cond_expr);
            }
        },
        parser::Statement::Become(ret_expr) => {
            if f.is_transition_function {
                lemma_build_exit_is_checking(f, span, ret_expr);
            }
        },
        parser::Statement::Return(ret_expr) => {
            if !f.is_transition_function {
                lemma_build_exit_is_checking(f, span, ret_expr);
            }
        },
    }
}

/// The builder accepts exactly the blocks whose statements all pass their
/// check, each under the types that the statements before it left.
pub proof fn lemma_build_block_is_checking(f: UserFunctionView, trees: Seq<Spanned<parser::Statement>>)
    requires
        f.build_block(trees).0.expressions.len() <= usize::MAX,
    ensures
        match check_block(f.header(), f.variables, trees) {
            Err(error) => f.build_block(trees).1 == Err::<
                Seq<StatementRef>,
                LangError,
            >(error),
            Ok(vars) => f.build_block(trees).1 is Ok && f.build_block(trees).0.variables == vars,
        },
    decreases trees,
{
    if trees.len() > 0 {
        let (f1, r1) = f.build_block(trees.drop_last());
        lemma_build_block_extends(f, trees.drop_last());
        if r1 is Ok {
            lemma_build_statement_extends(f1, trees.last());
            lemma_build_block_is_checking(f, trees.drop_last());
            lemma_build_statement_is_checking(f1, trees.last());
        } else {
            lemma_build_block_is_checking(f, trees.drop_last());
        }
    }
}

} // verus!
