//! Graph-construction primitives: identity handles and the connection kind
//! of a layer.

use vstd::prelude::*;

verus! {

/// An identity-comparable reference to a layer definition held in a
/// [`crate::arena::LayerArena`]. Two handles are equal exactly when they
/// index the same arena slot, so structurally identical but independently
/// created layers compare unequal.
#[derive(Clone, Copy, PartialEq, Eq, Structural, Hash, Debug)]
pub struct LayerRef(pub usize);

/// How a layer connects into the graph: a source without parents, one
/// parent, or an ordered list of parents.
#[derive(Clone, Debug)]
pub enum LayerType {
    DeadEnd,
    SingleParent(LayerRef),
    MultipleParent(Vec<LayerRef>),
}

/// The mathematical value of a [`LayerType`]: parent slots as plain
/// integers.
pub enum LayerTypeView {
    Dead,
    Single(int),
    Multi(Seq<int>),
}

impl LayerType {
    /// The connection kind as a mathematical value.
    pub open spec fn view_kind(&self) -> LayerTypeView {
        match self {
            LayerType::DeadEnd => LayerTypeView::Dead,
            LayerType::SingleParent(p) => LayerTypeView::Single(p.0 as int),
            LayerType::MultipleParent(ps) => LayerTypeView::Multi(
                ps@.map_values(|p: LayerRef| p.0 as int),
            ),
        }
    }
}

/// The parent slots a connection kind names, in order.
pub open spec fn parents_of(k: LayerTypeView) -> Seq<int> {
    match k {
        LayerTypeView::Dead => Seq::empty(),
        LayerTypeView::Single(p) => seq![p],
        LayerTypeView::Multi(ps) => ps,
    }
}

} // verus!
