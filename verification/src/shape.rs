//! Dimension descriptions used to validate layer wiring before instantiation.

use vstd::prelude::*;

verus! {

/// One dimension of a layer's output: a known constant, "same as the
/// parent's", or fully variable.
#[derive(Clone, Copy, Debug)]
pub enum Shape {
    /// A known size, e.g. a feature count or a time-series length.
    Const(usize),
    /// The layer repeats whatever size its parent has.
    Repeat,
    /// The size is left open, e.g. a variable batch dimension.
    Variable,
}

/// Raised when a non-constant `Shape` is forced to a constant.
#[derive(Clone, Copy, Debug, PartialEq, Eq, Structural)]
pub struct ShapeError;

impl Shape {
    /// Whether this shape is a known constant.
    pub open spec fn is_const(self) -> bool {
        self is Const
    }

    /// The constant value of a `Const` shape.
    pub open spec fn const_value(self) -> usize {
        self->Const_0
    }

    /// The constant size this shape carries, or `ShapeError` if it does not
    /// carry one.
    pub fn unwrap_to_conts(&self) -> (r: Result<usize, ShapeError>)
        ensures
            self.is_const() ==> r == Ok::<usize, ShapeError>(self.const_value()),
            !self.is_const() ==> r == Err::<usize, ShapeError>(ShapeError),
    {
        match self {
            Shape::Const(c) => Ok(*c),
            Shape::Repeat => Err(ShapeError),
            Shape::Variable => Err(ShapeError),
        }
    }
}

} // verus!
