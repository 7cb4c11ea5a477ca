//! Activation functions as a capability interface. The library ships the
//! pass-through activation; curve-shaped activations whose arithmetic
//! lives outside the library implement the same trait there and register
//! under their own names.

use vstd::prelude::*;

use crate::errors::ModelError;
use crate::jsonval::JsonValue;
use crate::tensor::Tensor;
use crate::tensor::TensorView;

verus! {

/// The serialized form of an activation: its registry name and its
/// parameter blob.
#[derive(Debug)]
pub struct ActivationSerialised {
    pub name: String,
    pub json: JsonValue,
}

/// An activation function: a deterministic tensor-to-tensor transform.
pub trait Activation: Sized {
    /// The transform applied, as a function of the input's value; `None`
    /// where the activation rejects the input.
    spec fn apply_spec(&self, input: TensorView) -> Option<TensorView>;

    /// Apply the transform.
    fn apply(&self, input: &Tensor) -> (r: Result<Tensor, ModelError>)
        ensures
            match self.apply_spec(input@) {
                Some(tv) => r matches Ok(t) && t@ == tv,
                None => r is Err,
            },
    ;

    /// The tagged serialized form of this activation.
    fn as_serialized(&self) -> ActivationSerialised;
}

/// The pass-through activation: returns its input unchanged.
#[derive(Debug)]
pub struct NoneAct;

impl NoneAct {
    /// A fresh pass-through activation.
    pub fn default_act() -> (r: NoneAct)
        ensures
            r == (NoneAct {}),
    {
        NoneAct {}
    }
}

impl Activation for NoneAct {
    open spec fn apply_spec(&self, input: TensorView) -> Option<TensorView> {
        Some(input)
    }

    fn apply(&self, input: &Tensor) -> (r: Result<Tensor, ModelError>)
        ensures
            match self.apply_spec(input@) {
                Some(tv) => r matches Ok(t) && t@ == tv,
                None => r is Err,
            },
    {
        Ok(input.clone_tensor())
    }

    fn as_serialized(&self) -> (r: ActivationSerialised)
        ensures
            r.name@ == "NoneAct"@,
            r.json@ is Null,
    {
        ActivationSerialised {
            name: "NoneAct".to_owned(),
            json: JsonValue::Null,
        }
    }
}

} // verus!
