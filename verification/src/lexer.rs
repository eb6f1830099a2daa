//! The tokens that the syntax tree carries.
use vstd::prelude::*;

verus! {

/// An operator of an expression.
#[derive(Debug, Clone, Copy, PartialEq, Eq, Structural)]
pub enum OperatorToken {
    /// `+`
    Plus,
    /// `-`
    Minus,
    /// `*`
    Asterisk,
    /// `/`
    Slash,
    /// `%`
    Percent,
    /// `**`
    DoubleAsterisk,
    /// `<<`
    DoubleLessThan,
    /// `>>`
    DoubleGreaterThan,
    /// `>>>`
    TripleGreaterThan,
    /// `&`
    Ampersand,
    /// `|`
    Pipe,
    /// `^`
    Caret,
    /// `~`
    Tilde,
    /// `#`
    Tag,
    /// `.`
    Dot,
    /// `..`
    DotDot,
}

impl OperatorToken {
    /// Whether this is one of the arithmetic and bitwise operators that take
    /// two integers and give an integer.
    pub open spec fn spec_is_binary_int_op(self) -> bool {
        match self {
            OperatorToken::Plus
            | OperatorToken::Minus
            | OperatorToken::Asterisk
            | OperatorToken::Slash
            | OperatorToken::Percent
            | OperatorToken::DoubleAsterisk
            | OperatorToken::DoubleLessThan
            | OperatorToken::DoubleGreaterThan
            | OperatorToken::TripleGreaterThan
            | OperatorToken::Ampersand
            | OperatorToken::Pipe => true,
            _ => false,
        }
    }

    /// Whether this is one of the arithmetic and bitwise operators that take
    /// two integers and give an integer.
    #[verifier::when_used_as_spec(spec_is_binary_int_op)]
    pub fn is_binary_int_op(self) -> (b: bool)
        ensures
            b == self.spec_is_binary_int_op(),
    {
        match self {
            OperatorToken::Plus
            | OperatorToken::Minus
            | OperatorToken::Asterisk
            | OperatorToken::Slash
            | OperatorToken::Percent
            | OperatorToken::DoubleAsterisk
            | OperatorToken::DoubleLessThan
            | OperatorToken::DoubleGreaterThan
            | OperatorToken::TripleGreaterThan
            | OperatorToken::Ampersand
            | OperatorToken::Pipe => true,
            _ => false,
        }
    }
}

/// A bracket or a separator.
#[derive(Debug, Clone, Copy, PartialEq, Eq, Structural)]
pub enum PunctuationToken {
    /// `(`
    LParen,
    /// `)`
    RParen,
    /// `[`
    LBracket,
    /// `]`
    RBracket,
    /// `{`
    LBrace,
    /// `}`
    RBrace,
    /// `,`
    Comma,
    /// `;`
    Semicolon,
}

/// A comparison between two neighbours of a chain such as `a < b <= c`.
#[derive(Debug, Clone, Copy, PartialEq, Eq, Structural)]
pub enum ComparisonToken {
    /// `==`
    Equal,
    /// `!=`
    NotEqual,
    /// `<`
    LessThan,
    /// `>`
    GreaterThan,
    /// `<=`
    LessThanOrEqual,
    /// `>=`
    GreaterThanOrEqual,
}

impl ComparisonToken {
    /// Whether the comparison holds of `lhs` and `rhs`.
    pub open spec fn spec_eval(self, lhs: i64, rhs: i64) -> bool {
        match self {
            ComparisonToken::Equal => lhs == rhs,
            ComparisonToken::NotEqual => lhs != rhs,
            ComparisonToken::LessThan => lhs < rhs,
            ComparisonToken::GreaterThan => lhs > rhs,
            ComparisonToken::LessThanOrEqual => lhs <= rhs,
            ComparisonToken::GreaterThanOrEqual => lhs >= rhs,
        }
    }

    /// Whether the comparison holds of `lhs` and `rhs`.
    #[verifier::when_used_as_spec(spec_eval)]
    pub fn eval(self, lhs: i64, rhs: i64) -> (b: bool)
        ensures
            b == self.spec_eval(lhs, rhs),
    {
        match self {
            ComparisonToken::Equal => lhs == rhs,
            ComparisonToken::NotEqual => lhs != rhs,
            ComparisonToken::LessThan => lhs < rhs,
            ComparisonToken::GreaterThan => lhs > rhs,
            ComparisonToken::LessThanOrEqual => lhs <= rhs,
            ComparisonToken::GreaterThanOrEqual => lhs >= rhs,
        }
    }
}

/// The operator of an assignment: `=`, or an operator followed by `=`.
#[derive(Debug, Clone, Copy, PartialEq, Eq, Structural)]
pub enum AssignmentToken {
    /// `=`
    Assign,
    /// `+=`
    AddAssign,
    /// `-=`
    SubAssign,
    /// `*=`
    MulAssign,
    /// `/=`
    DivAssign,
    /// `%=`
    RemAssign,
    /// `**=`
    PowAssign,
    /// `<<=`
    ShlAssign,
    /// `>>=`
    ShrSignedAssign,
    /// `>>>=`
    ShrUnsignedAssign,
    /// `&=`
    AndAssign,
    /// `|=`
    OrAssign,
    /// `^=`
    XorAssign,
}

impl AssignmentToken {
    /// The operator that is applied to the variable and the value before the
    /// assignment, if there is one.
    pub open spec fn spec_op(self) -> Option<OperatorToken> {
        match self {
            AssignmentToken::Assign => None,
            AssignmentToken::AddAssign => Some(OperatorToken::Plus),
            AssignmentToken::SubAssign => Some(OperatorToken::Minus),
            AssignmentToken::MulAssign => Some(OperatorToken::Asterisk),
            AssignmentToken::DivAssign => Some(OperatorToken::Slash),
            AssignmentToken::RemAssign => Some(OperatorToken::Percent),
            AssignmentToken::PowAssign => Some(OperatorToken::DoubleAsterisk),
            AssignmentToken::ShlAssign => Some(OperatorToken::DoubleLessThan),
            AssignmentToken::ShrSignedAssign => Some(OperatorToken::DoubleGreaterThan),
            AssignmentToken::ShrUnsignedAssign => Some(OperatorToken::TripleGreaterThan),
            AssignmentToken::AndAssign => Some(OperatorToken::Ampersand),
            AssignmentToken::OrAssign => Some(OperatorToken::Pipe),
            AssignmentToken::XorAssign => Some(OperatorToken::Caret),
        }
    }

    /// The operator that is applied to the variable and the value before the
    /// assignment, if there is one.
    #[verifier::when_used_as_spec(spec_op)]
    pub fn op(self) -> (op: Option<OperatorToken>)
        ensures
            op == self.spec_op(),
    {
        match self {
            AssignmentToken::Assign => None,
            AssignmentToken::AddAssign => Some(OperatorToken::Plus),
            AssignmentToken::SubAssign => Some(OperatorToken::Minus),
            AssignmentToken::MulAssign => Some(OperatorToken::Asterisk),
            AssignmentToken::DivAssign => Some(OperatorToken::Slash),
            AssignmentToken::RemAssign => Some(OperatorToken::Percent),
            AssignmentToken::PowAssign => Some(OperatorToken::DoubleAsterisk),
            AssignmentToken::ShlAssign => Some(OperatorToken::DoubleLessThan),
            AssignmentToken::ShrSignedAssign => Some(OperatorToken::DoubleGreaterThan),
            AssignmentToken::ShrUnsignedAssign => Some(OperatorToken::TripleGreaterThan),
            AssignmentToken::AndAssign => Some(OperatorToken::Ampersand),
            AssignmentToken::OrAssign => Some(OperatorToken::Pipe),
            AssignmentToken::XorAssign => Some(OperatorToken::Caret),
        }
    }
}

} // verus!
