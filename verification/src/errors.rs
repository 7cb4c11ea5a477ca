//! The error taxonomy of the library. Every failure is fatal at the point it
//! is raised; nothing is retried internally.

use vstd::prelude::*;

verus! {

/// Why an operation on the graph, the registry or the propagation engine
/// failed.
#[derive(Clone, Debug)]
pub enum ModelError {
    /// A declared input handle does not resolve to a source (dead-end) node.
    BadGraphTopology,
    /// A layer would receive an invalid (zero) feature count from a parent.
    InvalidLayerShape,
    /// A non-constant shape was forced to a constant, or constants that had
    /// to match did not.
    ShapeError,
    /// Propagation could not find a declared name in the caller-supplied
    /// input map.
    MissingInput,
    /// Propagation could not find a declared output in the computed buffer.
    MissingOutput,
    /// The registry has no factory for the requested type name.
    UnsupportedType(String),
    /// A rebuilt node's arity disagrees with its declared structural variant,
    /// or the serialized structure is internally inconsistent.
    GraphShapeMismatch,
    /// Width or height of tensors did not agree for the requested operation.
    DimensionMismatch,
}

impl ModelError {
    /// A short, stable label for the error kind.
    pub fn kind_name(&self) -> (r: String)
        ensures
            r@ == self.spec_kind_name(),
    {
        match self {
            ModelError::BadGraphTopology => "BadGraphTopology".to_owned(),
            ModelError::InvalidLayerShape => "InvalidLayerShape".to_owned(),
            ModelError::ShapeError => "ShapeError".to_owned(),
            ModelError::MissingInput => "MissingInput".to_owned(),
            ModelError::MissingOutput => "MissingOutput".to_owned(),
            ModelError::UnsupportedType(_) => "UnsupportedType".to_owned(),
            ModelError::GraphShapeMismatch => "GraphShapeMismatch".to_owned(),
            ModelError::DimensionMismatch => "DimensionMismatch".to_owned(),
        }
    }

    /// The label `kind_name` returns for each variant.
    pub open spec fn spec_kind_name(self) -> Seq<char> {
        match self {
            ModelError::BadGraphTopology => "BadGraphTopology"@,
            ModelError::InvalidLayerShape => "InvalidLayerShape"@,
            ModelError::ShapeError => "ShapeError"@,
            ModelError::MissingInput => "MissingInput"@,
            ModelError::MissingOutput => "MissingOutput"@,
            ModelError::UnsupportedType(_) => "UnsupportedType"@,
            ModelError::GraphShapeMismatch => "GraphShapeMismatch"@,
            ModelError::DimensionMismatch => "DimensionMismatch"@,
        }
    }
}

} // verus!
