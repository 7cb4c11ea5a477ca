//! Weight and bias suppliers: pluggable sources of freshly initialized
//! tensors, used only at instantiation time. The library ships the zero
//! supplier; randomized ones implement the same trait outside, where the
//! numeric distributions live.

use vstd::prelude::*;

use crate::tensor::TENSOR_MAX_LEN;
use crate::tensor::Tensor;

verus! {

/// A source of freshly initialized tensors. Randomized suppliers promise
/// only the dimensions of what they return.
pub trait Supplier: Sized {
    /// One freshly supplied cell, as its 32-bit pattern.
    fn supply_single(&mut self, in_f: usize, out_f: usize) -> u32;

    /// A freshly supplied `width` by `height` tensor.
    fn supply_matrix(&mut self, width: usize, height: usize) -> (r: Tensor)
        requires
            width * height <= TENSOR_MAX_LEN,
            width <= TENSOR_MAX_LEN,
            height <= TENSOR_MAX_LEN,
        ensures
            r@.width == width,
            r@.height == height,
    ;
}

/// The supplier of all-zero tensors.
pub struct ZeroSupplier;

impl ZeroSupplier {
    /// A fresh zero supplier.
    pub fn new() -> (r: ZeroSupplier)
        ensures
            r == (ZeroSupplier {}),
    {
        ZeroSupplier {}
    }
}

impl Supplier for ZeroSupplier {
    fn supply_single(&mut self, _in_f: usize, _out_f: usize) -> (r: u32)
        ensures
            r == 0u32,
    {
        0
    }

    fn supply_matrix(&mut self, width: usize, height: usize) -> (r: Tensor)
        ensures
            r@.width == width,
            r@.height == height,
            forall|i: int| 0 <= i < r@.data.len() ==> r@.data[i] == 0u32,
    {
        Tensor::zeroed(width, height)
    }
}

} // verus!
