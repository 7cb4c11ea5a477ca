//! The serializable skeleton of a flattened graph: one record per node with
//! its assigned name, its type tag and its parent links.

use vstd::prelude::*;

verus! {

/// A source node: no parents.
#[derive(Clone, Debug)]
pub struct DeadEndStruct {
    pub layer_name: String,
    pub type_tag: String,
}

/// A node with exactly one parent.
#[derive(Clone, Debug)]
pub struct SingleParentStruct {
    pub layer_name: String,
    pub type_tag: String,
    pub parent_name: String,
}

/// A node with an ordered list of parents.
#[derive(Clone, Debug)]
pub struct MultipleParentStruct {
    pub layer_name: String,
    pub type_tag: String,
    pub parent_names: Vec<String>,
}

/// The structural record of one flattened node.
#[derive(Clone, Debug)]
pub enum BuilderNode {
    DeadEnd(DeadEndStruct),
    SingleParent(SingleParentStruct),
    MultipleParent(MultipleParentStruct),
}

/// The mathematical value of a [`BuilderNode`].
pub enum NodeView {
    Dead { name: Seq<char>, tname: Seq<char> },
    Single { name: Seq<char>, tname: Seq<char>, parent: Seq<char> },
    Multi { name: Seq<char>, tname: Seq<char>, parents: Seq<Seq<char>> },
}

/// The assigned name of a node record.
pub open spec fn node_name_of(n: NodeView) -> Seq<char> {
    match n {
        NodeView::Dead { name, .. } => name,
        NodeView::Single { name, .. } => name,
        NodeView::Multi { name, .. } => name,
    }
}

/// The type tag of a node record.
pub open spec fn node_tname_of(n: NodeView) -> Seq<char> {
    match n {
        NodeView::Dead { tname, .. } => tname,
        NodeView::Single { tname, .. } => tname,
        NodeView::Multi { tname, .. } => tname,
    }
}

/// The parent names of a node record, in declared order.
pub open spec fn node_parents_of(n: NodeView) -> Seq<Seq<char>> {
    match n {
        NodeView::Dead { .. } => Seq::empty(),
        NodeView::Single { parent, .. } => seq![parent],
        NodeView::Multi { parents, .. } => parents,
    }
}

impl View for BuilderNode {
    type V = NodeView;

    open spec fn view(&self) -> NodeView {
        match self {
            BuilderNode::DeadEnd(s) => NodeView::Dead {
                name: s.layer_name@,
                tname: s.type_tag@,
            },
            BuilderNode::SingleParent(s) => NodeView::Single {
                name: s.layer_name@,
                tname: s.type_tag@,
                parent: s.parent_name@,
            },
            BuilderNode::MultipleParent(s) => NodeView::Multi {
                name: s.layer_name@,
                tname: s.type_tag@,
                parents: s.parent_names@.map_values(|p: String| p@),
            },
        }
    }
}

impl BuilderNode {
    /// The name the builder assigned to this node.
    pub fn layer_name(&self) -> (r: String)
        ensures
            r@ == node_name_of(self@),
    {
        match self {
            BuilderNode::DeadEnd(s) => s.layer_name.clone(),
            BuilderNode::SingleParent(s) => s.layer_name.clone(),
            BuilderNode::MultipleParent(s) => s.layer_name.clone(),
        }
    }

    /// The type tag of the layer this node was flattened from.
    pub fn type_tag(&self) -> (r: String)
        ensures
            r@ == node_tname_of(self@),
    {
        match self {
            BuilderNode::DeadEnd(s) => s.type_tag.clone(),
            BuilderNode::SingleParent(s) => s.type_tag.clone(),
            BuilderNode::MultipleParent(s) => s.type_tag.clone(),
        }
    }
}


/// A copy of a string list with the same contents.
pub fn clone_strings(v: &Vec<String>) -> (r: Vec<String>)
    ensures
        r@.map_values(|s: String| s@) == v@.map_values(|s: String| s@),
{
    let mut r: Vec<String> = Vec::new();
    let mut i: usize = 0;
    while i < v.len()
        invariant
            i <= v@.len(),
            r@.len() == i,
            forall|j: int| 0 <= j < i ==> (#[trigger] r@[j])@ == v@[j]@,
        decreases v@.len() - i,
    {
        r.push(v[i].clone());
        i = i + 1;
    }
    proof {
        assert(r@.map_values(|s: String| s@) =~= v@.map_values(|s: String| s@));
    }
    r
}

impl BuilderNode {
    /// A copy of this record with the same contents.
    pub fn clone_node(&self) -> (r: BuilderNode)
        ensures
            r@ == self@,
    {
        match self {
            BuilderNode::DeadEnd(s) => BuilderNode::DeadEnd(DeadEndStruct {
                layer_name: s.layer_name.clone(),
                type_tag: s.type_tag.clone(),
            }),
            BuilderNode::SingleParent(s) => BuilderNode::SingleParent(SingleParentStruct {
                layer_name: s.layer_name.clone(),
                type_tag: s.type_tag.clone(),
                parent_name: s.parent_name.clone(),
            }),
            BuilderNode::MultipleParent(s) => {
                let r = BuilderNode::MultipleParent(MultipleParentStruct {
                    layer_name: s.layer_name.clone(),
                    type_tag: s.type_tag.clone(),
                    parent_names: clone_strings(&s.parent_names),
                });
                r
            }
        }
    }
}

} // verus!
