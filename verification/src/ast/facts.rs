//! What holds of building, whatever the syntax tree.
use crate::ast::model::{
    lemma_build_block_stops, lemma_extended_by_refl, lemma_extended_by_trans,
    lemma_steps_extend, StatementView, UserFunctionView,
};
use crate::ast::userfunc::StatementRef;
use crate::errors::{LangError, LangErrorMsg, Span};
use crate::lexer::{AssignmentToken, OperatorToken, PunctuationToken};
use crate::parser;
use crate::parser::Spanned;
use crate::types::Type;
use vstd::prelude::*;

verus! {

/// The first call of `get_or_create_var` for a name fixes the type of the
/// variable: whatever is built afterwards, every later call for that name
/// gives that type, whatever type it proposes, and changes nothing.
pub proof fn lemma_var_type_is_fixed(
    f: UserFunctionView,
    name: Seq<char>,
    first_ty: Type,
    later: UserFunctionView,
    later_ty: Type,
)
    requires
        f.get_or_create_var(name, first_ty).0.extended_by(later),
    ensures
        later.get_or_create_var(name, later_ty) == (later, f.get_or_create_var(name, first_ty).1),
{
    let (f1, t1) = f.get_or_create_var(name, first_ty);
    assert(f1.variables.dom().contains(name));
    assert(f1.variables[name] == t1);
}

/// Building an expression only appends to the function: nothing that was
/// there is removed or changed, and no variable changes its type.
pub proof fn lemma_build_expr_extends(f: UserFunctionView, tree: Spanned<parser::Expr>)
    ensures
        f.extended_by(f.build_expr(tree).0),
        f.build_expr(tree).0.variables == f.variables,
    decreases tree,
{
    lemma_extended_by_refl(f);
    lemma_steps_extend(f);
    match tree.inner {
        parser::Expr::Group { start_token, inner } => {
            if start_token == PunctuationToken::LParen {
                lemma_build_expr_extends(f, *inner);
            }
        },
        parser::Expr::UnaryOp { op, operand } => {
            if op == OperatorToken::Minus || op == OperatorToken::Tag {
                lemma_build_expr_extends(f, *operand);
                let f1 = f.build_expr(*operand).0;
                if f.build_expr(*operand).1 is Ok {
                    lemma_steps_extend(f1);
                    let f2 = if op == OperatorToken::Minus {
                        f1.new_neg_int(tree.span).0
                    } else {
                        f1.new_int_to_cell_state(tree.span).0
                    };
                    lemma_steps_extend(f2);
                    lemma_extended_by_trans(f, f1, f2);
                    lemma_extended_by_trans(f, f2, f.build_expr(tree).0);
                }
            }
        },
        parser::Expr::BinaryOp { lhs, op, rhs } => {
            if op.is_binary_int_op() {
                lemma_build_expr_extends(f, *lhs);
                let f1 = f.build_expr(*lhs).0;
                if f.build_expr(*lhs).1 is Ok {
                    lemma_build_expr_extends(f1, *rhs);
                    let f2 = f1.build_expr(*rhs).0;
                    lemma_extended_by_trans(f, f1, f2);
                    if f1.build_expr(*rhs).1 is Ok {
                        lemma_steps_extend(f2);
                        let f3 = f2.new_binary_int_op(tree.span, op).0;
                        lemma_steps_extend(f3);
                        lemma_extended_by_trans(f, f2, f3);
                        lemma_extended_by_trans(f, f3, f.build_expr(tree).0);
                    }
                }
            }
        },
        parser::Expr::Cmp { exprs, comparisons } => {
            lemma_build_exprs_extends(f, exprs@);
            let f1 = f.build_exprs(exprs@).0;
            if f.build_exprs(exprs@).1 is Ok {
                lemma_steps_extend(f1);
                lemma_extended_by_trans(f, f1, f.build_expr(tree).0);
            }
        },
        _ => {},
    }
}

/// Building a sequence of expressions only appends to the function.
pub proof fn lemma_build_exprs_extends(f: UserFunctionView, trees: Seq<Spanned<parser::Expr>>)
    ensures
        f.extended_by(f.build_exprs(trees).0),
        f.build_exprs(trees).0.variables == f.variables,
    decreases trees,
{
    lemma_extended_by_refl(f);
    if trees.len() > 0 {
        lemma_build_exprs_extends(f, trees.drop_last());
        let f1 = f.build_exprs(trees.drop_last()).0;
        if f.build_exprs(trees.drop_last()).1 is Ok {
            lemma_build_expr_extends(f1, trees.last());
            lemma_extended_by_trans(f, f1, f1.build_expr(trees.last()).0);
        }
    }
}

/// Building the exit with the value of an expression only appends to the
/// function.
pub proof fn lemma_build_exit_extends(f: UserFunctionView, span: Span, ret_expr: Spanned<parser::Expr>)
    ensures
        f.extended_by(f.build_exit(span, ret_expr).0),
        f.build_exit(span, ret_expr).0.variables == f.variables,
{
    lemma_build_expr_extends(f, ret_expr);
    let f1 = f.build_expr(ret_expr).0;
    lemma_steps_extend(f1);
    if f.build_expr(ret_expr).1 is Ok {
        lemma_extended_by_trans(f, f1, f.build_exit(span, ret_expr).0);
    }
}

/// Building a statement only appends to the function: nothing that was
/// there is removed or changed, and no variable changes its type.
pub proof fn lemma_build_statement_extends(f: UserFunctionView, tree: Spanned<parser::Statement>)
    ensures
        f.extended_by(f.build_statement(tree).0),
    decreases tree,
{
    let span = tree.span;
    let done = f.build_statement(tree).0;
    lemma_extended_by_refl(f);
    match tree.inner {
        parser::Statement::SetVar { var_expr, assign_op, value_expr } => {
            if var_expr.inner is Ident {
                let value = match assign_op.op() {
                    Some(op) => UserFunctionView::desugared_value(span, var_expr, op, value_expr),
                    None => value_expr,
                };
                lemma_build_expr_extends(f, value);
                let f1 = f.build_expr(value).0;
                if f.build_expr(value).1 is Ok {
                    lemma_steps_extend(f1);
                    let f2 = f1.new_set_var(
                        span,
                        var_expr.inner->Ident_0@,
                        f.build_expr(value).1->Ok_0,
                    ).0;
                    lemma_steps_extend(f2);
                    lemma_extended_by_trans(f, f1, f2);
                    lemma_extended_by_trans(f, f2, done);
                }
            }
        },
        parser::Statement::If { cond_expr, if_true, if_false } => {
            lemma_build_expr_extends(f, cond_expr);
            let f1 = f.build_expr(cond_expr).0;
            if f.build_expr(cond_expr).1 is Ok {
                lemma_build_block_extends(f1, if_true@);
                let f2 = f1.build_block(if_true@).0;
                lemma_extended_by_trans(f, f1, f2);
                if f1.build_block(if_true@).1 is Ok {
                    lemma_build_block_extends(f2, if_false@);
                    let f3 = f2.build_block(if_false@).0;
                    lemma_extended_by_trans(f, f2, f3);
                    if f2.build_block(if_false@).1 is Ok {
                        lemma_steps_extend(f3);
                        lemma_extended_by_trans(f, f3, done);
                    }
                }
            }
        },
        parser::Statement::Become(ret_expr) => {
            lemma_build_exit_extends(f, span, ret_expr);
        },
        parser::Statement::Return(ret_expr) => {
            lemma_build_exit_extends(f, span, ret_expr);
        },
    }
}

/// Building a block only appends to the function.
pub proof fn lemma_build_block_extends(f: UserFunctionView, trees: Seq<Spanned<parser::Statement>>)
    ensures
        f.extended_by(f.build_block(trees).0),
    decreases trees,
{
    lemma_extended_by_refl(f);
    if trees.len() > 0 {
        lemma_build_block_extends(f, trees.drop_last());
        let f1 = f.build_block(trees.drop_last()).0;
        if f.build_block(trees.drop_last()).1 is Ok {
            lemma_build_statement_extends(f1, trees.last());
            lemma_extended_by_trans(f, f1, f1.build_statement(trees.last()).0);
        }
    }
}

/// The keyword of an exit must fit the kind of the function. In a helper
/// function `become` fails to build, and in a transition function `return`
/// does, each with its own error at the place of the statement and with
/// nothing built.
pub proof fn lemma_wrong_exit_fails(f: UserFunctionView, tree: Spanned<parser::Statement>)
    ensures
        !f.is_transition_function && tree.inner is Become ==> f.build_statement(tree) == (
            f,
            Err::<StatementRef, LangError>(
                LangErrorMsg::BecomeInHelperFunction.with_span(tree.span),
            ),
        ),
        f.is_transition_function && tree.inner is Return ==> f.build_statement(tree) == (
            f,
            Err::<StatementRef, LangError>(
                LangErrorMsg::ReturnInTransitionFunction.with_span(tree.span),
            ),
        ),
{
}

/// With the keyword that fits the kind of the function, `become` in a
/// transition function and `return` in a helper function, an exit builds
/// exactly where its expression builds and has the return type of the
/// function. The statement is then the last of the arena.
pub proof fn lemma_right_exit_builds(f: UserFunctionView, tree: Spanned<parser::Statement>)
    requires
        (f.is_transition_function && tree.inner is Become) || (!f.is_transition_function
            && tree.inner is Return),
    ensures
        ({
            let ret_expr = match tree.inner {
                parser::Statement::Become(e) => e,
                parser::Statement::Return(e) => e,
                _ => arbitrary(),
            };
            let (f1, built) = f.build_expr(ret_expr);
            let (f2, result) = f.build_statement(tree);
            &&& result is Ok <==> (built matches Ok(r) && f1.expressions[r.0 as int].return_type
                == f.return_type)
            &&& result matches Ok(s) ==> {
                &&& built matches Ok(r)
                &&& f2.statements == f1.statements.push(
                    StatementView::Return { span: tree.span, ret_expr: r },
                )
                &&& s == StatementRef(f1.statements.len() as usize)
            }
        }),
{
    let ret_expr = match tree.inner {
        parser::Statement::Become(e) => e,
        parser::Statement::Return(e) => e,
        _ => arbitrary(),
    };
    lemma_build_expr_extends(f, ret_expr);
}

/// A block that holds, at its top level, an exit with the keyword that
/// does not fit the kind of the function fails to build.
pub proof fn lemma_block_with_wrong_exit_fails(
    f: UserFunctionView,
    trees: Seq<Spanned<parser::Statement>>,
    i: int,
)
    requires
        0 <= i < trees.len(),
        (!f.is_transition_function && trees[i].inner is Become) || (f.is_transition_function
            && trees[i].inner is Return),
    ensures
        f.build_block(trees).1 is Err,
{
    let before = trees.take(i);
    let upto = trees.take(i + 1);
    assert(upto.drop_last() =~= before);
    assert(upto.last() == trees[i]);
    if f.build_block(before).1 is Err {
        lemma_build_block_stops(f, trees, i);
    } else {
        let f1 = f.build_block(before).0;
        lemma_build_block_extends(f, before);
        lemma_wrong_exit_fails(f1, trees[i]);
        assert(f.build_block(upto).1 is Err);
        lemma_build_block_stops(f, trees, i + 1);
    }
}

/// An assignment with an operator, `x op= e`, builds what the plain
/// assignment `x = x op e` builds, where the operation stands at the place
/// of the whole statement: the same function comes out, with the same
/// statement or the same error. So the code generated for the two is the
/// same code.
pub proof fn lemma_compound_assignment_is_desugared(
    f: UserFunctionView,
    span: Span,
    var_expr: Spanned<parser::Expr>,
    assign_op: AssignmentToken,
    value_expr: Spanned<parser::Expr>,
)
    requires
        assign_op.op() is Some,
    ensures
        f.build_statement(
            Spanned {
                span,
                inner: parser::Statement::SetVar { var_expr, assign_op, value_expr },
            },
        ) == f.build_statement(
            Spanned {
                span,
                inner: parser::Statement::SetVar {
                    var_expr,
                    assign_op: AssignmentToken::Assign,
                    value_expr: UserFunctionView::desugared_value(
                        span,
                        var_expr,
                        assign_op.op()->Some_0,
                        value_expr,
                    ),
                },
            },
        ),
{
}

} // verus!
