//! The result of an expression in the code of a function.
use crate::compiler::ir::Operand;
use crate::types::Type;
use vstd::prelude::*;

verus! {

/// A value that the code of a function has computed: where the code holds
/// it, and the type of the language that it has.
#[derive(Debug, Clone, Copy, PartialEq, Eq, Structural)]
pub struct Value {
    pub ty: Type,
    pub operand: Operand,
}

} // verus!
