//! Errors of building and of running a function, with their place in the
//! source text.
use crate::types::Type;
use vstd::prelude::*;

verus! {

/// A range of the source text, by the offsets of its first character and of
/// the character after its last.
#[derive(Debug, Clone, Copy, PartialEq, Eq, Structural)]
pub struct Span {
    pub start: usize,
    pub end: usize,
}

/// The kind of an error.
#[derive(Debug, Clone, Copy, PartialEq, Eq)]
#[allow(inconsistent_fields)]
pub enum LangErrorMsg {
    /// The syntax tree or the program has a shape that no source text gives.
    InternalError(&'static str),
    /// A construct of the grammar that has no meaning yet.
    Unimplemented,
    /// Something else was expected in this place.
    Expected(&'static str),
    /// One thing was expected and another found.
    ExpectedGot { expected: &'static str, got: &'static str },
    /// A value of one type was expected and one of another type found.
    TypeError { expected: Type, got: Type },
    /// A variable was read before anything was assigned to it.
    UseOfUninitializedVariable,
    /// `become` stands in a helper function.
    BecomeInHelperFunction,
    /// `return` stands in a transition function.
    ReturnInTransitionFunction,
    /// The expression has no value that is known while compiling.
    CannotEvalAsConst,
    /// An integer operation left the range of the integers.
    IntegerOverflow,
    /// A division or remainder by zero.
    DivideByZero,
    /// An integer that is no cell state was converted to one.
    CellStateOutOfRange,
}

/// An error with the place in the source text where it arose, if it has one.
#[derive(Debug, Clone, Copy, PartialEq, Eq)]
pub struct LangError {
    pub span: Option<Span>,
    pub msg: LangErrorMsg,
}

/// The result of an operation that may fail with a [`LangError`].
pub type LangResult<T> = Result<T, LangError>;

impl LangErrorMsg {
    /// The error of this kind at `span`.
    pub open spec fn spec_with_span(self, span: Span) -> LangError {
        LangError { span: Some(span), msg: self }
    }

    /// The error of this kind at `span`.
    #[verifier::when_used_as_spec(spec_with_span)]
    pub fn with_span(self, span: Span) -> (error: LangError)
        ensures
            error == self.spec_with_span(span),
    {
        LangError { span: Some(span), msg: self }
    }

    /// The error of this kind at no place of the source text.
    pub open spec fn spec_without_span(self) -> LangError {
        LangError { span: None, msg: self }
    }

    /// The error of this kind at no place of the source text.
    #[verifier::when_used_as_spec(spec_without_span)]
    pub fn without_span(self) -> (error: LangError)
        ensures
            error == self.spec_without_span(),
    {
        LangError { span: None, msg: self }
    }
}

} // verus!
