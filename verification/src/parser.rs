//! The syntax tree that the builder of the program consumes.
use crate::errors::Span;
use crate::lexer::{AssignmentToken, ComparisonToken, OperatorToken, PunctuationToken};
use vstd::prelude::*;

verus! {

/// A node of the syntax tree with its place in the source text.
#[derive(Debug, PartialEq, Eq)]
pub struct Spanned<T> {
    pub span: Span,
    pub inner: T,
}

/// An expression of the syntax tree.
#[derive(Debug, PartialEq, Eq)]
pub enum Expr {
    /// An integer literal.
    Int(i64),
    /// The name of a variable.
    Ident(String),
    /// An expression between brackets, with the opening bracket.
    Group { start_token: PunctuationToken, inner: Box<Spanned<Expr>> },
    /// Expressions separated by commas.
    List(Vec<Spanned<Expr>>),
    /// An operator in front of an expression.
    UnaryOp { op: OperatorToken, operand: Box<Spanned<Expr>> },
    /// An operator between two expressions.
    BinaryOp { lhs: Box<Spanned<Expr>>, op: OperatorToken, rhs: Box<Spanned<Expr>> },
    /// A chain of comparisons such as `a < b <= c`: the expressions, and the
    /// comparisons between each two neighbours.
    Cmp { exprs: Vec<Spanned<Expr>>, comparisons: Vec<ComparisonToken> },
}

/// A statement of the syntax tree.
#[derive(Debug, PartialEq, Eq)]
pub enum Statement {
    /// An assignment to a variable, plain or with an operator.
    SetVar { var_expr: Spanned<Expr>, assign_op: AssignmentToken, value_expr: Spanned<Expr> },
    /// A conditional with both of its branches.
    If { cond_expr: Spanned<Expr>, if_true: StatementBlock, if_false: StatementBlock },
    /// The exit of a transition function.
    Become(Spanned<Expr>),
    /// The exit of a helper function.
    Return(Spanned<Expr>),
}

/// A sequence of statements.
pub type StatementBlock = Vec<Spanned<Statement>>;

} // verus!
