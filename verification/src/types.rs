//! The closed set of value types of the language.
use vstd::prelude::*;

verus! {

/// Number of bits in an integer of the language.
pub const INT_BITS: u32 = 64;

/// Number of bits in a cell state.
pub const CELL_STATE_BITS: u32 = 8;

/// Number of bits in the value that a compiled function returns.
pub const RETURN_BITS: u32 = 64;

/// Smallest integer of the language.
pub const MIN_INT: i64 = -0x8000_0000_0000_0000;

/// Largest integer of the language.
pub const MAX_INT: i64 = 0x7fff_ffff_ffff_ffff;

/// The type of a value.
#[derive(Debug, Clone, Copy, PartialEq, Eq, Structural)]
pub enum Type {
    /// Signed integer of `INT_BITS` bits.
    Int,
    /// Cell state of `CELL_STATE_BITS` bits.
    CellState,
    /// Vector of integers, with its length.
    Vector(u8),
}

impl Type {
    /// Number of bits that one element of a value of this type occupies.
    pub open spec fn spec_bits(self) -> u32 {
        match self {
            Type::Int => INT_BITS,
            Type::CellState => CELL_STATE_BITS,
            Type::Vector(_) => INT_BITS,
        }
    }

    /// Number of bits that one element of a value of this type occupies.
    #[verifier::when_used_as_spec(spec_bits)]
    pub fn bits(self) -> (bits: u32)
        ensures
            bits == self.spec_bits(),
    {
        match self {
            Type::Int => INT_BITS,
            Type::CellState => CELL_STATE_BITS,
            Type::Vector(_) => INT_BITS,
        }
    }

    /// The zero value of this type.
    pub open spec fn spec_default_value(self) -> ConstValueView {
        match self {
            Type::Int => ConstValueView::Int(0),
            Type::CellState => ConstValueView::CellState(0),
            Type::Vector(len) => ConstValueView::Vector(Seq::new(len as nat, |i: int| 0i64)),
        }
    }

    /// The zero value of this type: what a variable holds before its first
    /// assignment.
    pub fn default_value(self) -> (value: ConstValue)
        ensures
            value@ == self.spec_default_value(),
            value@.ty() == self,
    {
        match self {
            Type::Int => ConstValue::Int(0),
            Type::CellState => ConstValue::CellState(0),
            Type::Vector(len) => {
                let mut elements: Vec<i64> = Vec::new();
                let mut i: u8 = 0;
                while i < len
                    invariant
                        i <= len,
                        elements@ == Seq::new(i as nat, |i: int| 0i64),
                    decreases len - i,
                {
                    elements.push(0);
                    i = i + 1;
                }
                ConstValue::Vector(elements)
            },
        }
    }
}

/// A value that is known while compiling.
#[derive(Debug, Clone, PartialEq, Eq)]
pub enum ConstValue {
    /// An integer.
    Int(i64),
    /// A cell state.
    CellState(u8),
    /// A vector of integers.
    Vector(Vec<i64>),
}

/// What a [`ConstValue`] holds.
pub enum ConstValueView {
    Int(i64),
    CellState(u8),
    Vector(Seq<i64>),
}

impl ConstValueView {
    /// The type of the value. A vector longer than any vector type can be has
    /// the longest vector type.
    pub open spec fn ty(self) -> Type {
        match self {
            ConstValueView::Int(_) => Type::Int,
            ConstValueView::CellState(_) => Type::CellState,
            ConstValueView::Vector(elements) => Type::Vector(
                if elements.len() <= 255 {
                    elements.len() as u8
                } else {
                    255u8
                },
            ),
        }
    }
}

impl View for ConstValue {
    type V = ConstValueView;

    open spec fn view(&self) -> ConstValueView {
        match self {
            ConstValue::Int(i) => ConstValueView::Int(*i),
            ConstValue::CellState(s) => ConstValueView::CellState(*s),
            ConstValue::Vector(elements) => ConstValueView::Vector(elements@),
        }
    }
}

impl ConstValue {
    /// The type of this value.
    pub fn ty(&self) -> (ty: Type)
        ensures
            ty == self@.ty(),
    {
        match self {
            ConstValue::Int(_) => Type::Int,
            ConstValue::CellState(_) => Type::CellState,
            ConstValue::Vector(elements) => {
                let len: usize = elements.len();
                if len <= 255 {
                    Type::Vector(len as u8)
                } else {
                    Type::Vector(255)
                }
            },
        }
    }
}

} // verus!
