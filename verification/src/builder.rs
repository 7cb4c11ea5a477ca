//! The graph builder: walks from the declared outputs back through parent
//! links, assigns each distinct definition a stable name exactly once, and
//! emits the flattened structural graph in post-order — so every node's
//! parents stand strictly earlier in it.

use vstd::prelude::*;

use crate::arena::EntryV;
use crate::arena::KindV;
use crate::arena::LayerDef;
use crate::arena::Layer;
use crate::errors::ModelError;
use crate::layers::ConcatImpl;
use crate::layers::FlattenImpl;
use crate::layers::InputImpl;
use crate::layers::LayerPropagateEnum;
use crate::layers::LayerSingleInput;
use crate::layers::ModelPropagationNode;
use crate::layers::SingleInstance;
use crate::model::Model;
use crate::model::str_vals_view;
use crate::shape::Shape;
use crate::strmap::StrMap;
use crate::strmap::keys_contain;
use crate::graph_elements::clone_strings;
use crate::arena::LayerArena;
use crate::arena::arena_wf;
use crate::graph_elements::BuilderNode;
use crate::graph_elements::DeadEndStruct;
use crate::graph_elements::MultipleParentStruct;
use crate::graph_elements::SingleParentStruct;
use crate::namegen::make_node_name;
use crate::node::LayerRef;
use crate::node::LayerType;
use crate::graph_elements::NodeView;
use crate::graph_elements::node_name_of;
use crate::graph_elements::node_tname_of;
use crate::namegen::spec_node_name;
use crate::namegen::lemma_node_name_injective;
use crate::node::LayerTypeView;
use crate::node::parents_of;

verus! {

broadcast use vstd::std_specs::vec::group_vec_axioms, vstd::seq::group_seq_axioms;

/// The mathematical value of a flattened graph under construction: which
/// arena slot each position came from, and the structural record written
/// for it.
pub struct GraphV {
    pub refs: Seq<int>,
    pub nodes: Seq<NodeView>,
}

impl GraphV {
    /// The empty graph.
    pub open spec fn empty() -> GraphV {
        GraphV { refs: Seq::empty(), nodes: Seq::empty() }
    }
}

/// Has slot `r` already been flattened into `g`?
pub open spec fn gv_contains(g: GraphV, r: int) -> bool {
    exists|i: int| 0 <= i < g.refs.len() && g.refs[i] == r
}

/// The position slot `r` was flattened at; meaningful only when
/// `gv_contains` holds and the slots are distinct.
pub open spec fn gv_index(g: GraphV, r: int) -> int {
    choose|i: int| 0 <= i < g.refs.len() && g.refs[i] == r
}

/// Does position `k` of `g` record its node faithfully: the same
/// connection kind as its arena slot, every parent flattened strictly
/// earlier, and parent names as recorded at the parents' positions?
pub open spec fn node_arity_ok(es: Seq<EntryV>, g: GraphV, k: int) -> bool {
    match es[g.refs[k]].node {
        LayerTypeView::Dead => g.nodes[k] is Dead,
        LayerTypeView::Single(p) => {
            &&& g.nodes[k] is Single
            &&& gv_contains(g, p)
            &&& gv_index(g, p) < k
            &&& g.nodes[k]->Single_parent == node_name_of(g.nodes[gv_index(g, p)])
        },
        LayerTypeView::Multi(ps) => {
            &&& g.nodes[k] is Multi
            &&& g.nodes[k]->Multi_parents.len() == ps.len()
            &&& forall|j: int| 0 <= j < ps.len() ==> {
                &&& gv_contains(g, #[trigger] ps[j])
                &&& gv_index(g, ps[j]) < k
                &&& g.nodes[k]->Multi_parents[j] == node_name_of(g.nodes[gv_index(g, ps[j])])
            }
        },
    }
}

/// The invariant of a graph under construction over arena `es`: positions
/// and slots in bijection, names formed from the type tag and the position,
/// and parent links resolved to earlier positions.
pub open spec fn graph_inv(es: Seq<EntryV>, g: GraphV) -> bool {
    &&& g.refs.len() == g.nodes.len()
    &&& forall|a: int, b: int| 0 <= a < b < g.refs.len() ==> g.refs[a] != g.refs[b]
    &&& forall|k: int| 0 <= k < g.refs.len() ==> 0 <= #[trigger] g.refs[k] < es.len()
    &&& forall|k: int| 0 <= k < g.refs.len()
            ==> node_name_of(#[trigger] g.nodes[k]) == spec_node_name(es[g.refs[k]].tag, k as nat)
    &&& forall|k: int| 0 <= k < g.refs.len()
            ==> node_tname_of(#[trigger] g.nodes[k]) == es[g.refs[k]].tag
    &&& forall|k: int| 0 <= k < g.refs.len() ==> #[trigger] node_arity_ok(es, g, k)
}

/// With distinct slots, the slot at position `i` is found again at
/// position `i`.
pub proof fn lemma_gv_index_of(g: GraphV, i: int)
    requires
        forall|a: int, b: int| 0 <= a < b < g.refs.len() ==> g.refs[a] != g.refs[b],
        0 <= i < g.refs.len(),
    ensures
        gv_contains(g, g.refs[i]),
        gv_index(g, g.refs[i]) == i,
{
    assert(gv_contains(g, g.refs[i]));
    let j = gv_index(g, g.refs[i]);
    if j < i {
        assert(g.refs[j] != g.refs[i]);
    }
    if i < j {
        assert(g.refs[i] != g.refs[j]);
    }
}

/// In a graph satisfying the invariant, positions carry distinct names.
pub proof fn lemma_graph_names_distinct(es: Seq<EntryV>, g: GraphV, a: int, b: int)
    requires
        graph_inv(es, g),
        0 <= a < g.nodes.len(),
        0 <= b < g.nodes.len(),
        a != b,
    ensures
        node_name_of(g.nodes[a]) != node_name_of(g.nodes[b]),
{
    if node_name_of(g.nodes[a]) == node_name_of(g.nodes[b]) {
        lemma_node_name_injective(
            es[g.refs[a]].tag, a as nat,
            es[g.refs[b]].tag, b as nat,
        );
    }
}

/// One flattening step: if `cur` is already in the graph, nothing changes
/// and its recorded name is returned; otherwise its parents are flattened
/// first, left to right, and then `cur` is appended under the name formed
/// from its type tag and the number of nodes already named.
pub open spec fn spec_visit(es: Seq<EntryV>, g: GraphV, cur: int) -> (GraphV, Seq<char>)
    decreases cur, 1int, 0int,
    when 0 <= cur < es.len() && arena_wf(es)
    via spec_visit_decreases
{
    if gv_contains(g, cur) {
        (g, node_name_of(g.nodes[gv_index(g, cur)]))
    } else {
        let e = es[cur];
        match e.node {
            LayerTypeView::Dead => {
                let name = spec_node_name(e.tag, g.refs.len());
                let node = NodeView::Dead { name: name, tname: e.tag };
                (GraphV { refs: g.refs.push(cur), nodes: g.nodes.push(node) }, name)
            },
            LayerTypeView::Single(p) => {
                let (g1, pname) = spec_visit(es, g, p);
                let name = spec_node_name(e.tag, g1.refs.len());
                let node = NodeView::Single { name: name, tname: e.tag, parent: pname };
                (GraphV { refs: g1.refs.push(cur), nodes: g1.nodes.push(node) }, name)
            },
            LayerTypeView::Multi(ps) => {
                let (g1, pnames) = spec_visit_list(es, g, ps, cur);
                let name = spec_node_name(e.tag, g1.refs.len());
                let node = NodeView::Multi { name: name, tname: e.tag, parents: pnames };
                (GraphV { refs: g1.refs.push(cur), nodes: g1.nodes.push(node) }, name)
            },
        }
    }
}

/// Flatten the slots `ps`, all below `bound`, left to right, collecting
/// their names.
pub open spec fn spec_visit_list(es: Seq<EntryV>, g: GraphV, ps: Seq<int>, bound: int)
    -> (GraphV, Seq<Seq<char>>)
    decreases bound, 0int, ps.len(),
    when 0 <= bound <= es.len() && arena_wf(es)
        && (forall|j: int| 0 <= j < ps.len() ==> 0 <= #[trigger] ps[j] < bound)
    via spec_visit_list_decreases
{
    if ps.len() == 0 {
        (g, Seq::empty())
    } else {
        let (g1, n1) = spec_visit(es, g, ps[0]);
        let (g2, rest) = spec_visit_list(es, g1, ps.drop_first(), bound);
        (g2, seq![n1] + rest)
    }
}

#[via_fn]
proof fn spec_visit_decreases(es: Seq<EntryV>, g: GraphV, cur: int) {
    if 0 <= cur < es.len() && arena_wf(es) && !gv_contains(g, cur) {
        match es[cur].node {
            LayerTypeView::Dead => {}
            LayerTypeView::Single(p) => {
                assert(parents_of(es[cur].node) =~= seq![p]);
                assert(parents_of(es[cur].node)[0] == p);
                assert(0 <= p < cur);
            }
            LayerTypeView::Multi(ps) => {
                assert(parents_of(es[cur].node) == ps);
                assert forall|j: int| 0 <= j < ps.len()
                    implies 0 <= #[trigger] ps[j] < cur by {
                    assert(parents_of(es[cur].node)[j] == ps[j]);
                }
            }
        }
    }
}

#[via_fn]
proof fn spec_visit_list_decreases(es: Seq<EntryV>, g: GraphV, ps: Seq<int>, bound: int) {
    if ps.len() > 0 {
        assert(0 <= bound <= es.len() && arena_wf(es)
            && (forall|j: int| 0 <= j < ps.len() ==> 0 <= #[trigger] ps[j] < bound)
            ==> 0 <= ps[0] < bound);
    }
}

/// Appending a fresh, faithfully recorded node preserves the graph
/// invariant; old positions and their indices stay put.
proof fn lemma_push_node(es: Seq<EntryV>, g: GraphV, cur: int, node: NodeView)
    requires
        graph_inv(es, g),
        0 <= cur < es.len(),
        !gv_contains(g, cur),
        node_name_of(node) == spec_node_name(es[cur].tag, g.refs.len()),
        node_tname_of(node) == es[cur].tag,
        match es[cur].node {
            LayerTypeView::Dead => node is Dead,
            LayerTypeView::Single(p) => {
                &&& node is Single
                &&& gv_contains(g, p)
                &&& node->Single_parent == node_name_of(g.nodes[gv_index(g, p)])
            },
            LayerTypeView::Multi(ps) => {
                &&& node is Multi
                &&& node->Multi_parents.len() == ps.len()
                &&& forall|j: int| 0 <= j < ps.len() ==> {
                    &&& gv_contains(g, #[trigger] ps[j])
                    &&& node->Multi_parents[j] == node_name_of(g.nodes[gv_index(g, ps[j])])
                }
            },
        },
    ensures
        ({
            let g2 = GraphV { refs: g.refs.push(cur), nodes: g.nodes.push(node) };
            &&& graph_inv(es, g2)
            &&& gv_contains(g2, cur)
            &&& gv_index(g2, cur) == g.refs.len()
            &&& forall|r: int| gv_contains(g, r)
                    ==> gv_contains(g2, r) && gv_index(g2, r) == gv_index(g, r)
            &&& forall|r: int| gv_contains(g2, r) ==> gv_contains(g, r) || r == cur
        }),
{
    let g2 = GraphV { refs: g.refs.push(cur), nodes: g.nodes.push(node) };
    let n = g.refs.len() as int;
    assert(g2.refs[n] == cur);
    assert(forall|a: int, b: int| 0 <= a < b < g2.refs.len() ==> g2.refs[a] != g2.refs[b]) by {
        assert forall|a: int, b: int| 0 <= a < b < g2.refs.len()
            implies g2.refs[a] != g2.refs[b] by {
            if b == n {
                assert(g2.refs[a] == g.refs[a]);
                lemma_gv_index_of(g, a);
                if g.refs[a] == cur {
                    assert(gv_contains(g, cur));
                }
            }
        }
    }
    assert forall|r: int| gv_contains(g, r)
        implies gv_contains(g2, r) && gv_index(g2, r) == gv_index(g, r) by {
        let i = gv_index(g, r);
        assert(0 <= i < g.refs.len() && g.refs[i] == r);
        assert(g2.refs[i] == r);
        assert(gv_contains(g2, r));
        let j = gv_index(g2, r);
        assert(0 <= j < g2.refs.len() && g2.refs[j] == r);
        if j != i {
            if j < n {
                assert(g.refs[j] == r);
                assert(g.refs[i] != g.refs[j] || i == j);
            } else {
                assert(r == cur);
                assert(gv_contains(g, cur));
            }
        }
    }
    assert forall|r: int| gv_contains(g2, r) implies gv_contains(g, r) || r == cur by {
        let i = choose|i: int| 0 <= i < g2.refs.len() && g2.refs[i] == r;
        if i < n {
            assert(g.refs[i] == r);
        }
    }
    lemma_gv_index_of(g2, n);
    assert(gv_index(g2, cur) == n);
    assert(node_name_of(g2.nodes[n]) == spec_node_name(es[g2.refs[n]].tag, n as nat));
    assert forall|k: int| 0 <= k < g2.refs.len() implies #[trigger] node_arity_ok(es, g2, k) by {
        if k < n {
            assert(node_arity_ok(es, g, k));
            assert(g2.refs[k] == g.refs[k]);
            assert(g2.nodes[k] == g.nodes[k]);
            match es[g.refs[k]].node {
                LayerTypeView::Dead => {}
                LayerTypeView::Single(p) => {
                    assert(gv_contains(g2, p) && gv_index(g2, p) == gv_index(g, p));
                    assert(g2.nodes[gv_index(g2, p)] == g.nodes[gv_index(g, p)]);
                }
                LayerTypeView::Multi(ps) => {
                    assert forall|j: int| 0 <= j < ps.len() implies {
                        &&& gv_contains(g2, #[trigger] ps[j])
                        &&& gv_index(g2, ps[j]) < k
                        &&& g2.nodes[k]->Multi_parents[j]
                            == node_name_of(g2.nodes[gv_index(g2, ps[j])])
                    } by {
                        assert(gv_contains(g, ps[j]));
                        assert(gv_index(g2, ps[j]) == gv_index(g, ps[j]));
                        assert(g2.nodes[gv_index(g, ps[j])] == g.nodes[gv_index(g, ps[j])]);
                    }
                }
            }
        } else {
            assert(g2.refs[k] == cur);
            assert(g2.nodes[k] == node);
            match es[cur].node {
                LayerTypeView::Dead => {}
                LayerTypeView::Single(p) => {
                    assert(gv_contains(g2, p) && gv_index(g2, p) == gv_index(g, p));
                    assert(gv_index(g2, p) < k);
                    assert(g2.nodes[gv_index(g2, p)] == g.nodes[gv_index(g, p)]);
                }
                LayerTypeView::Multi(ps) => {
                    assert forall|j: int| 0 <= j < ps.len() implies {
                        &&& gv_contains(g2, #[trigger] ps[j])
                        &&& gv_index(g2, ps[j]) < k
                        &&& g2.nodes[k]->Multi_parents[j]
                            == node_name_of(g2.nodes[gv_index(g2, ps[j])])
                    } by {
                        assert(gv_contains(g, ps[j]));
                        assert(gv_index(g2, ps[j]) == gv_index(g, ps[j]));
                        assert(gv_index(g, ps[j]) < n);
                        assert(g2.nodes[gv_index(g, ps[j])] == g.nodes[gv_index(g, ps[j])]);
                    }
                }
            }
        }
    }
}

/// Flattening preserves the graph invariant, only appends positions, keeps
/// the positions of already flattened slots, adds only slots up to `cur`,
/// and records `cur` under the returned name.
pub proof fn lemma_visit_inv(es: Seq<EntryV>, g: GraphV, cur: int)
    requires
        arena_wf(es),
        graph_inv(es, g),
        0 <= cur < es.len(),
    ensures
        ({
            let (g2, name) = spec_visit(es, g, cur);
            &&& graph_inv(es, g2)
            &&& g.refs.len() <= g2.refs.len()
            &&& g2.refs.subrange(0, g.refs.len() as int) == g.refs
            &&& g2.nodes.subrange(0, g.nodes.len() as int) == g.nodes
            &&& forall|r: int| gv_contains(g, r)
                    ==> gv_contains(g2, r) && gv_index(g2, r) == gv_index(g, r)
            &&& forall|r: int| gv_contains(g2, r) ==> gv_contains(g, r) || (0 <= r <= cur)
            &&& gv_contains(g2, cur)
            &&& name == node_name_of(g2.nodes[gv_index(g2, cur)])
        }),
    decreases cur, 1int, 0int,
{
    let (g2, name) = spec_visit(es, g, cur);
    if gv_contains(g, cur) {
        assert(g2.refs.subrange(0, g.refs.len() as int) =~= g.refs);
        assert(g2.nodes.subrange(0, g.nodes.len() as int) =~= g.nodes);
    } else {
        let e = es[cur];
        match e.node {
            LayerTypeView::Dead => {
                let node = NodeView::Dead { name: spec_node_name(e.tag, g.refs.len()), tname: e.tag };
                lemma_push_node(es, g, cur, node);
                assert(g2.refs.subrange(0, g.refs.len() as int) =~= g.refs);
                assert(g2.nodes.subrange(0, g.nodes.len() as int) =~= g.nodes);
            },
            LayerTypeView::Single(p) => {
                assert(parents_of(es[cur].node) =~= seq![p]);
                assert(parents_of(es[cur].node)[0] == p);
                assert(0 <= p < cur);
                lemma_visit_inv(es, g, p);
                let (g1, pname) = spec_visit(es, g, p);
                assert(!gv_contains(g1, cur));
                let node = NodeView::Single {
                    name: spec_node_name(e.tag, g1.refs.len()),
                    tname: e.tag,
                    parent: pname,
                };
                lemma_push_node(es, g1, cur, node);
                assert(g2.refs.subrange(0, g.refs.len() as int) =~= g.refs) by {
                    assert(g1.refs.subrange(0, g.refs.len() as int) == g.refs);
                    assert(forall|i: int| 0 <= i < g.refs.len()
                        ==> g2.refs[i] == g1.refs[i] && g1.refs[i] == g.refs[i]);
                }
                assert(g2.nodes.subrange(0, g.nodes.len() as int) =~= g.nodes) by {
                    assert(g1.nodes.subrange(0, g.nodes.len() as int) == g.nodes);
                    assert(forall|i: int| 0 <= i < g.nodes.len()
                        ==> g2.nodes[i] == g1.nodes[i] && g1.nodes[i] == g.nodes[i]);
                }
            },
            LayerTypeView::Multi(ps) => {
                assert(parents_of(es[cur].node) == ps);
                assert(forall|j: int| 0 <= j < ps.len()
                    ==> 0 <= #[trigger] parents_of(es[cur].node)[j] < cur);
                assert(forall|j: int| 0 <= j < ps.len() ==> 0 <= #[trigger] ps[j] < cur);
                lemma_visit_list_inv(es, g, ps, cur);
                let (g1, pnames) = spec_visit_list(es, g, ps, cur);
                assert(!gv_contains(g1, cur));
                let node = NodeView::Multi {
                    name: spec_node_name(e.tag, g1.refs.len()),
                    tname: e.tag,
                    parents: pnames,
                };
                lemma_push_node(es, g1, cur, node);
                assert(g2.refs.subrange(0, g.refs.len() as int) =~= g.refs) by {
                    assert(g1.refs.subrange(0, g.refs.len() as int) == g.refs);
                    assert(forall|i: int| 0 <= i < g.refs.len()
                        ==> g2.refs[i] == g1.refs[i] && g1.refs[i] == g.refs[i]);
                }
                assert(g2.nodes.subrange(0, g.nodes.len() as int) =~= g.nodes) by {
                    assert(g1.nodes.subrange(0, g.nodes.len() as int) == g.nodes);
                    assert(forall|i: int| 0 <= i < g.nodes.len()
                        ==> g2.nodes[i] == g1.nodes[i] && g1.nodes[i] == g.nodes[i]);
                }
            },
        }
    }
}

/// `lemma_visit_inv` for a list of slots below `bound`: additionally, each
/// listed slot ends up flattened, with its name collected in order.
pub proof fn lemma_visit_list_inv(es: Seq<EntryV>, g: GraphV, ps: Seq<int>, bound: int)
    requires
        arena_wf(es),
        graph_inv(es, g),
        0 <= bound <= es.len(),
        forall|j: int| 0 <= j < ps.len() ==> 0 <= #[trigger] ps[j] < bound,
    ensures
        ({
            let (g2, names) = spec_visit_list(es, g, ps, bound);
            &&& graph_inv(es, g2)
            &&& g.refs.len() <= g2.refs.len()
            &&& g2.refs.subrange(0, g.refs.len() as int) == g.refs
            &&& g2.nodes.subrange(0, g.nodes.len() as int) == g.nodes
            &&& forall|r: int| gv_contains(g, r)
                    ==> gv_contains(g2, r) && gv_index(g2, r) == gv_index(g, r)
            &&& forall|r: int| gv_contains(g2, r) ==> gv_contains(g, r) || (0 <= r < bound)
            &&& names.len() == ps.len()
            &&& forall|j: int| 0 <= j < ps.len() ==> {
                &&& gv_contains(g2, #[trigger] ps[j])
                &&& names[j] == node_name_of(g2.nodes[gv_index(g2, ps[j])])
            }
        }),
    decreases bound, 0int, ps.len(),
{
    let (g2, names) = spec_visit_list(es, g, ps, bound);
    if ps.len() == 0 {
        assert(g2.refs.subrange(0, g.refs.len() as int) =~= g.refs);
        assert(g2.nodes.subrange(0, g.nodes.len() as int) =~= g.nodes);
    } else {
        lemma_visit_inv(es, g, ps[0]);
        let (g1, n1) = spec_visit(es, g, ps[0]);
        assert(forall|j: int| 0 <= j < ps.drop_first().len()
            ==> 0 <= #[trigger] ps.drop_first()[j] < bound);
        lemma_visit_list_inv(es, g1, ps.drop_first(), bound);
        let (g2b, rest) = spec_visit_list(es, g1, ps.drop_first(), bound);
        assert(g2 == g2b);
        assert(names == seq![n1] + rest);
        assert(g2.refs.subrange(0, g.refs.len() as int) =~= g.refs) by {
            assert(forall|i: int| 0 <= i < g.refs.len()
                ==> g2.refs[i] == g1.refs[i] && g1.refs[i] == g.refs[i]);
        }
        assert(g2.nodes.subrange(0, g.nodes.len() as int) =~= g.nodes) by {
            assert(forall|i: int| 0 <= i < g.nodes.len()
                ==> g2.nodes[i] == g1.nodes[i] && g1.nodes[i] == g.nodes[i]);
        }
        assert forall|j: int| 0 <= j < ps.len() implies {
            &&& gv_contains(g2, #[trigger] ps[j])
            &&& names[j] == node_name_of(g2.nodes[gv_index(g2, ps[j])])
        } by {
            if j == 0 {
                let i1 = gv_index(g1, ps[0]);
                assert(gv_contains(g2, ps[0]) && gv_index(g2, ps[0]) == i1);
                assert(0 <= i1 < g1.nodes.len());
                assert(g2.nodes[i1] == g2.nodes.subrange(0, g1.nodes.len() as int)[i1]);
                assert(g2.nodes[i1] == g1.nodes[i1]);
                assert(names[0] == n1);
            } else {
                assert(ps.drop_first()[j - 1] == ps[j]);
                assert(rest[j - 1] == names[j]);
            }
        }
    }
}


/// The exec-side flattened graph under construction: an insertion-ordered
/// map from handles to their structural records.
pub struct RefMap {
    keys: Vec<LayerRef>,
    vals: Vec<BuilderNode>,
}

impl View for RefMap {
    type V = GraphV;

    closed spec fn view(&self) -> GraphV {
        GraphV {
            refs: self.keys@.map_values(|r: LayerRef| r.0 as int),
            nodes: self.vals@.map_values(|b: BuilderNode| b@),
        }
    }
}

impl RefMap {
    /// The empty graph.
    pub fn new() -> (r: Self)
        ensures
            r@ == GraphV::empty(),
    {
        let r = RefMap { keys: Vec::new(), vals: Vec::new() };
        proof {
            assert(r@.refs =~= GraphV::empty().refs);
            assert(r@.nodes =~= GraphV::empty().nodes);
        }
        r
    }

    /// How many nodes have been flattened.
    pub fn len(&self) -> (r: usize)
        ensures
            r == self@.refs.len(),
    {
        self.keys.len()
    }

    /// The position `r` was flattened at, if it has been.
    fn position_of(&self, r: LayerRef) -> (pos: Option<usize>)
        requires
            forall|a: int, b: int| 0 <= a < b < self@.refs.len()
                ==> self@.refs[a] != self@.refs[b],
        ensures
            match pos {
                Some(i) => i < self@.refs.len() && self@.refs[i as int] == r.0
                    && gv_contains(self@, r.0 as int)
                    && gv_index(self@, r.0 as int) == i,
                None => !gv_contains(self@, r.0 as int),
            },
    {
        let n = self.keys.len();
        let mut i: usize = 0;
        while i < n
            invariant
                i <= n,
                n == self@.refs.len(),
                n == self.keys@.len(),
                forall|a: int, b: int| 0 <= a < b < self@.refs.len()
                    ==> self@.refs[a] != self@.refs[b],
                forall|j: int| 0 <= j < i ==> self@.refs[j] != r.0 as int,
            decreases n - i,
        {
            if self.keys[i] == r {
                proof {
                    assert(self@.refs[i as int] == r.0 as int);
                    lemma_gv_index_of(self@, i as int);
                }
                return Some(i);
            }
            proof {
                assert(self@.refs[i as int] == self.keys@[i as int].0 as int);
            }
            i = i + 1;
        }
        None
    }

    /// The structural record at position `i`.
    pub fn val_at(&self, i: usize) -> (r: &BuilderNode)
        requires
            i < self@.nodes.len(),
        ensures
            r@ == self@.nodes[i as int],
    {
        &self.vals[i]
    }

    /// The handle at position `i`.
    pub fn key_at(&self, i: usize) -> (r: LayerRef)
        requires
            i < self@.refs.len(),
        ensures
            r.0 as int == self@.refs[i as int],
    {
        self.keys[i]
    }

    /// Append a node flattened from `r`.
    fn insert(&mut self, r: LayerRef, node: BuilderNode)
        ensures
            final(self)@.refs == old(self)@.refs.push(r.0 as int),
            final(self)@.nodes == old(self)@.nodes.push(node@),
    {
        self.keys.push(r);
        self.vals.push(node);
        proof {
            assert(final(self)@.refs =~= old(self)@.refs.push(r.0 as int));
            assert(final(self)@.nodes =~= old(self)@.nodes.push(node@));
        }
    }
}

/// Flatten `cur` into `graph`: parents first, then `cur` itself, memoized
/// over the handle so a shared ancestor is named exactly once. Returns the
/// node's assigned name.
fn iterate_nodes<D>(arena: &LayerArena<D>, graph: &mut RefMap, cur: LayerRef) -> (name: String)
    requires
        arena_wf(arena@),
        graph_inv(arena@, old(graph)@),
        (cur.0 as int) < arena@.len(),
    ensures
        final(graph)@ == spec_visit(arena@, old(graph)@, cur.0 as int).0,
        name@ == spec_visit(arena@, old(graph)@, cur.0 as int).1,
        graph_inv(arena@, final(graph)@),
    decreases cur.0,
{
    let ghost es = arena@;
    let ghost g0 = graph@;
    proof {
        lemma_visit_inv(es, g0, cur.0 as int);
    }
    match graph.position_of(cur) {
        Some(i) => {
            let name = graph.val_at(i).layer_name();
            name
        }
        None => {
            let e = arena.entry_at(cur.0);
            let tag_copy = e.tag.clone();
            proof {
                assert(es[cur.0 as int].node == e.node.view_kind());
                assert(es[cur.0 as int].tag == tag_copy@);
            }
            match &e.node {
                LayerType::DeadEnd => {
                    let name = make_node_name(&tag_copy, graph.len());
                    let bn = BuilderNode::DeadEnd(DeadEndStruct {
                        layer_name: name.clone(),
                        type_tag: tag_copy,
                    });
                    graph.insert(cur, bn);
                    name
                }
                LayerType::SingleParent(pr) => {
                    let p = *pr;
                    proof {
                        assert(parents_of(es[cur.0 as int].node) =~= seq![p.0 as int]);
                        assert(parents_of(es[cur.0 as int].node)[0] == p.0 as int);
                        assert(0 <= (p.0 as int) && (p.0 as int) < (cur.0 as int));
                        lemma_visit_inv(es, g0, p.0 as int);
                    }
                    let pname = iterate_nodes(arena, graph, p);
                    let name = make_node_name(&tag_copy, graph.len());
                    let bn = BuilderNode::SingleParent(SingleParentStruct {
                        layer_name: name.clone(),
                        type_tag: tag_copy,
                        parent_name: pname,
                    });
                    graph.insert(cur, bn);
                    name
                }
                LayerType::MultipleParent(ps) => {
                    let ghost psv = ps@.map_values(|x: LayerRef| x.0 as int);
                    proof {
                        assert(parents_of(es[cur.0 as int].node) == psv);
                        assert(forall|j: int| 0 <= j < psv.len()
                            ==> 0 <= #[trigger] psv[j] < cur.0 as int) by {
                            assert(forall|j: int| 0 <= j < psv.len()
                                ==> parents_of(es[cur.0 as int].node)[j] == psv[j]);
                        }
                        lemma_visit_list_inv(es, g0, psv, cur.0 as int);
                    }
                    let m = ps.len();
                    let mut pnames: Vec<String> = Vec::new();
                    let mut j: usize = 0;
                    proof {
                        assert(psv.skip(0) =~= psv);
                    }
                    while j < m
                        invariant
                            j <= m,
                            m == ps@.len(),
                            m == psv.len(),
                            es == arena@,
                            arena_wf(es),
                            psv == ps@.map_values(|x: LayerRef| x.0 as int),
                            forall|t: int| 0 <= t < psv.len()
                                ==> 0 <= #[trigger] psv[t] < cur.0 as int,
                            (cur.0 as int) < es.len(),
                            graph_inv(es, graph@),
                            pnames@.len() == j,
                            spec_visit_list(es, g0, psv, cur.0 as int) == ({
                                let (gf, nf) = spec_visit_list(es, graph@, psv.skip(j as int), cur.0 as int);
                                (gf, pnames@.map_values(|s: String| s@) + nf)
                            }),
                        decreases m - j,
                    {
                        proof {
                            assert(psv.skip(j as int).len() > 0);
                            assert(psv.skip(j as int)[0] == psv[j as int]);
                            assert(psv.skip(j as int).drop_first() =~= psv.skip(j as int + 1));
                            assert(forall|t: int| 0 <= t < psv.skip(j as int).len()
                                ==> 0 <= #[trigger] psv.skip(j as int)[t] < cur.0 as int);
                            lemma_visit_inv(es, graph@, psv[j as int]);
                        }
                        let ghost g_before = graph@;
                        let ghost pn_before = pnames@;
                        let pj = ps[j];
                        let rname = iterate_nodes(arena, graph, pj);
                        pnames.push(rname);
                        proof {
                            let (gmid, n1) = spec_visit(es, g_before, psv[j as int]);
                            assert(graph@ == gmid);
                            assert(rname@ == n1);
                            let (gf, nf) = spec_visit_list(es, gmid, psv.skip(j as int + 1), cur.0 as int);
                            assert(spec_visit_list(es, g_before, psv.skip(j as int), cur.0 as int)
                                == (gf, seq![n1] + nf));
                            assert(pnames@ == pn_before.push(rname));
                            assert(pn_before.map_values(|s: String| s@) + (seq![n1] + nf)
                                =~= pnames@.map_values(|s: String| s@) + nf);
                        }
                        j = j + 1;
                    }
                    proof {
                        assert(psv.skip(m as int) =~= Seq::<int>::empty());
                        let (gf, nf) = spec_visit_list(es, graph@, psv.skip(m as int), cur.0 as int);
                        assert(nf =~= Seq::<Seq<char>>::empty());
                        assert(pnames@.map_values(|s: String| s@) + nf
                            =~= pnames@.map_values(|s: String| s@));
                    }
                    let name = make_node_name(&tag_copy, graph.len());
                    let bn = BuilderNode::MultipleParent(MultipleParentStruct {
                        layer_name: name.clone(),
                        type_tag: tag_copy,
                        parent_names: pnames,
                    });
                    proof {
                        assert(bn@->Multi_parents =~= spec_visit_list(es, g0, psv, cur.0 as int).1);
                    }
                    graph.insert(cur, bn);
                    name
                }
            }
        }
    }
}


/// Check a list of declared endpoint handles: each must name an existing
/// slot, and for inputs (`must_dead`) a source node. The first offender
/// decides the error.
pub open spec fn spec_check_refs(es: Seq<EntryV>, iop: Seq<(int, Seq<char>)>, must_dead: bool)
    -> Result<(), ModelError>
    decreases iop.len(),
{
    if iop.len() == 0 {
        Ok(())
    } else if !(0 <= iop[0].0 < es.len()) {
        Err(ModelError::GraphShapeMismatch)
    } else if must_dead && !(es[iop[0].0].node is Dead) {
        Err(ModelError::BadGraphTopology)
    } else {
        spec_check_refs(es, iop.drop_first(), must_dead)
    }
}

/// Flatten the output slots in declaration order into one graph.
pub open spec fn spec_visit_seq(es: Seq<EntryV>, g: GraphV, outs: Seq<int>) -> GraphV
    decreases outs.len(),
    when arena_wf(es) && (forall|j: int| 0 <= j < outs.len() ==> 0 <= #[trigger] outs[j] < es.len())
{
    if outs.len() == 0 {
        g
    } else {
        spec_visit_seq(es, spec_visit(es, g, outs[0]).0, outs.drop_first())
    }
}

/// Flattening a list of outputs preserves the graph invariant and leaves
/// every output flattened.
pub proof fn lemma_visit_seq_inv(es: Seq<EntryV>, g: GraphV, outs: Seq<int>)
    requires
        arena_wf(es),
        graph_inv(es, g),
        forall|j: int| 0 <= j < outs.len() ==> 0 <= #[trigger] outs[j] < es.len(),
    ensures
        ({
            let g2 = spec_visit_seq(es, g, outs);
            &&& graph_inv(es, g2)
            &&& forall|r: int| gv_contains(g, r) ==> gv_contains(g2, r)
            &&& forall|j: int| 0 <= j < outs.len() ==> gv_contains(g2, #[trigger] outs[j])
        }),
    decreases outs.len(),
{
    if outs.len() > 0 {
        lemma_visit_inv(es, g, outs[0]);
        let g1 = spec_visit(es, g, outs[0]).0;
        lemma_visit_seq_inv(es, g1, outs.drop_first());
        let g2 = spec_visit_seq(es, g, outs);
        assert forall|j: int| 0 <= j < outs.len()
            implies gv_contains(g2, #[trigger] outs[j]) by {
            if j > 0 {
                assert(outs.drop_first()[j - 1] == outs[j]);
            }
        }
    }
}

/// Builds the executable model from a web of shared layer handles.
pub struct ModelBuilder {
    inputs: Vec<(LayerRef, String)>,
    outputs: Vec<(LayerRef, String)>,
    graph: RefMap,
}

/// The view of a declared endpoint list: slot and external name.
pub open spec fn io_pairs_view(v: Seq<(LayerRef, String)>) -> Seq<(int, Seq<char>)> {
    v.map_values(|p: (LayerRef, String)| (p.0.0 as int, p.1@))
}

impl ModelBuilder {
    /// The declared inputs: slot and external input name.
    pub closed spec fn inputs_view(&self) -> Seq<(int, Seq<char>)> {
        io_pairs_view(self.inputs@)
    }

    /// The declared outputs: slot and external output name.
    pub closed spec fn outputs_view(&self) -> Seq<(int, Seq<char>)> {
        io_pairs_view(self.outputs@)
    }

    /// The flattened graph.
    pub closed spec fn graph_view(&self) -> GraphV {
        self.graph@
    }

    /// The external name used for the single input and output of a
    /// straight-line model.
    pub fn single_io() -> (r: &'static str)
        ensures
            r@ == "DEF_IO"@,
    {
        "DEF_IO"
    }

    /// Build a model description from one input and one output handle,
    /// both mapped to the default external name.
    pub fn from_straight<D>(arena: &LayerArena<D>, input: LayerRef, output: LayerRef)
        -> (r: Result<ModelBuilder, ModelError>)
        requires
            arena_wf(arena@),
        ensures
            ({
                let es = arena@;
                let iv = seq![(input.0 as int, "DEF_IO"@)];
                let ov = seq![(output.0 as int, "DEF_IO"@)];
                match spec_check_refs(es, iv, true) {
                    Err(e) => r matches Err(e2) && e2 == e,
                    Ok(_) => match spec_check_refs(es, ov, false) {
                        Err(e) => r matches Err(e2) && e2 == e,
                        Ok(_) => r matches Ok(mb) && {
                            &&& mb.inputs_view() == iv
                            &&& mb.outputs_view() == ov
                            &&& mb.graph_view() == spec_visit_seq(es, GraphV::empty(),
                                seq![output.0 as int])
                            &&& graph_inv(es, mb.graph_view())
                        },
                    },
                }
            }),
    {
        let mut ins: Vec<(LayerRef, String)> = Vec::new();
        ins.push((input, Self::single_io().to_owned()));
        let mut outs: Vec<(LayerRef, String)> = Vec::new();
        outs.push((output, Self::single_io().to_owned()));
        proof {
            assert(io_pairs_view(ins@) =~= seq![(input.0 as int, "DEF_IO"@)]);
            assert(io_pairs_view(outs@) =~= seq![(output.0 as int, "DEF_IO"@)]);
            assert(io_pairs_view(ins@).map_values(|p: (int, Seq<char>)| p.0)
                =~= seq![input.0 as int]);
            assert(io_pairs_view(outs@).map_values(|p: (int, Seq<char>)| p.0)
                =~= seq![output.0 as int]);
        }
        Self::from(arena, ins, outs)
    }

    /// Build a model description from the declared input and output
    /// handles and their external names. Every input handle must resolve
    /// to a source node; a non-source input fails with
    /// `BadGraphTopology`, and a stale handle with `GraphShapeMismatch`.
    #[verifier::loop_isolation(false)]
    pub fn from<D>(
        arena: &LayerArena<D>,
        inputs: Vec<(LayerRef, String)>,
        outputs: Vec<(LayerRef, String)>,
    ) -> (r: Result<ModelBuilder, ModelError>)
        requires
            arena_wf(arena@),
        ensures
            ({
                let es = arena@;
                let iv = io_pairs_view(inputs@);
                let ov = io_pairs_view(outputs@);
                match spec_check_refs(es, iv, true) {
                    Err(e) => r matches Err(e2) && e2 == e,
                    Ok(_) => match spec_check_refs(es, ov, false) {
                        Err(e) => r matches Err(e2) && e2 == e,
                        Ok(_) => r matches Ok(mb) && {
                            &&& mb.inputs_view() == iv
                            &&& mb.outputs_view() == ov
                            &&& mb.graph_view() == spec_visit_seq(es, GraphV::empty(),
                                ov.map_values(|p: (int, Seq<char>)| p.0))
                            &&& graph_inv(es, mb.graph_view())
                        },
                    },
                }
            }),
    {
        let ghost es = arena@;
        let ghost iv = io_pairs_view(inputs@);
        let ghost ov = io_pairs_view(outputs@);
        let n = arena.len();

        // every declared input must exist and be a source
        let mut i: usize = 0;
        proof {
            assert(iv.skip(0) =~= iv);
        }
        while i < inputs.len()
            invariant
                i <= inputs@.len(),
                spec_check_refs(es, iv, true) == spec_check_refs(es, iv.skip(i as int), true),
            decreases inputs@.len() - i,
        {
            proof {
                assert(iv.skip(i as int).len() > 0);
                assert(iv.skip(i as int)[0] == iv[i as int]);
                assert(iv.skip(i as int).drop_first() =~= iv.skip(i as int + 1));
            }
            let href = inputs[i].0;
            if href.0 >= n {
                return Err(ModelError::GraphShapeMismatch);
            }
            let e = arena.entry_at(href.0);
            match &e.node {
                LayerType::DeadEnd => {}
                _ => {
                    proof {
                        assert(!(es[iv[i as int].0].node is Dead));
                    }
                    return Err(ModelError::BadGraphTopology);
                }
            }
            i = i + 1;
        }
        proof {
            assert(iv.skip(inputs@.len() as int) =~= Seq::<(int, Seq<char>)>::empty());
        }

        // every declared output must exist
        let mut o: usize = 0;
        proof {
            assert(ov.skip(0) =~= ov);
        }
        while o < outputs.len()
            invariant
                o <= outputs@.len(),
                spec_check_refs(es, ov, false) == spec_check_refs(es, ov.skip(o as int), false),
                forall|j: int| 0 <= j < o ==> 0 <= (#[trigger] ov[j]).0 < es.len(),
            decreases outputs@.len() - o,
        {
            proof {
                assert(ov.skip(o as int).len() > 0);
                assert(ov.skip(o as int)[0] == ov[o as int]);
                assert(ov.skip(o as int).drop_first() =~= ov.skip(o as int + 1));
            }
            let href = outputs[o].0;
            if href.0 >= n {
                return Err(ModelError::GraphShapeMismatch);
            }
            o = o + 1;
        }
        proof {
            assert(ov.skip(outputs@.len() as int) =~= Seq::<(int, Seq<char>)>::empty());
        }

        // flatten, starting from each declared output
        let ghost orefs = ov.map_values(|p: (int, Seq<char>)| p.0);
        proof {
            assert(forall|j: int| 0 <= j < orefs.len()
                ==> 0 <= #[trigger] orefs[j] < es.len()) by {
                assert(forall|j: int| 0 <= j < ov.len()
                    ==> orefs[j] == (#[trigger] ov[j]).0);
            }
            assert(orefs.skip(0) =~= orefs);
        }
        let mut graph = RefMap::new();
        let mut t: usize = 0;
        while t < outputs.len()
            invariant
                t <= outputs@.len(),
                graph_inv(es, graph@),
                spec_visit_seq(es, GraphV::empty(), orefs)
                    == spec_visit_seq(es, graph@, orefs.skip(t as int)),
            decreases outputs@.len() - t,
        {
            proof {
                assert(orefs.skip(t as int).len() > 0);
                assert(orefs.skip(t as int)[0] == orefs[t as int]);
                assert(orefs[t as int] == ov[t as int].0);
                assert(orefs.skip(t as int).drop_first() =~= orefs.skip(t as int + 1));
                assert(forall|j: int| 0 <= j < orefs.skip(t as int).len()
                    ==> 0 <= #[trigger] orefs.skip(t as int)[j] < es.len());
                lemma_visit_inv(es, graph@, orefs[t as int]);
            }
            let href = outputs[t].0;
            let _ = iterate_nodes(arena, &mut graph, href);
            t = t + 1;
        }
        proof {
            assert(orefs.skip(outputs@.len() as int) =~= Seq::<int>::empty());
        }
        Ok(ModelBuilder { inputs, outputs, graph })
    }
}


/// The names of the flattened nodes, in order.
pub open spec fn graph_names(g: GraphV) -> Seq<Seq<char>> {
    Seq::new(g.nodes.len(), |k: int| node_name_of(g.nodes[k]))
}

/// Does every flattened node come from a library-shipped definition?
pub open spec fn graph_closed(es: Seq<EntryV>, g: GraphV) -> bool {
    forall|k: int| 0 <= k < g.refs.len() ==> !((#[trigger] es[g.refs[k]].kind) is Ext)
}

/// The external name declared for slot `r`, taking the first declaration.
pub open spec fn ref_lookup(iop: Seq<(int, Seq<char>)>, r: int) -> Option<Seq<char>>
    decreases iop.len(),
{
    if iop.len() == 0 {
        None
    } else if iop[0].0 == r {
        Some(iop[0].1)
    } else {
        ref_lookup(iop.drop_first(), r)
    }
}

/// The name map accumulated over the first `k` flattened nodes: node name
/// to declared external name, in flattening order.
pub open spec fn spec_io_upto(g: GraphV, iop: Seq<(int, Seq<char>)>, k: int)
    -> (Seq<Seq<char>>, Seq<Seq<char>>)
    decreases k,
    when 0 <= k <= g.refs.len() && g.refs.len() == g.nodes.len()
{
    if k == 0 {
        (Seq::empty(), Seq::empty())
    } else {
        let (ks, vs) = spec_io_upto(g, iop, k - 1);
        match ref_lookup(iop, g.refs[k - 1]) {
            Some(d) => (ks.push(node_name_of(g.nodes[k - 1])), vs.push(d)),
            None => (ks, vs),
        }
    }
}

/// Every accumulated key is the name of one of the first `k` nodes.
proof fn lemma_io_upto_keys(g: GraphV, iop: Seq<(int, Seq<char>)>, k: int)
    requires
        0 <= k <= g.refs.len(),
        g.refs.len() == g.nodes.len(),
    ensures
        spec_io_upto(g, iop, k).0.len() == spec_io_upto(g, iop, k).1.len(),
        forall|i: int| 0 <= i < spec_io_upto(g, iop, k).0.len()
            ==> keys_contain(graph_names(g).subrange(0, k),
                #[trigger] spec_io_upto(g, iop, k).0[i]),
    decreases k,
{
    let nm = graph_names(g).subrange(0, k);
    if k == 0 {
        assert(spec_io_upto(g, iop, 0).0.len() == 0);
    } else {
        lemma_io_upto_keys(g, iop, k - 1);
        let nm0 = graph_names(g).subrange(0, k - 1);
        let (ks0, vs0) = spec_io_upto(g, iop, k - 1);
        let (ks, vs) = spec_io_upto(g, iop, k);
        assert forall|i: int| 0 <= i < ks.len()
            implies keys_contain(nm, #[trigger] ks[i]) by {
            match ref_lookup(iop, g.refs[k - 1]) {
                Some(d) => {
                    assert(ks == ks0.push(node_name_of(g.nodes[k - 1])));
                    if i < ks0.len() {
                        assert(keys_contain(nm0, ks0[i]));
                        let j = choose|j: int| 0 <= j < nm0.len() && nm0[j] == ks0[i];
                        assert(nm[j] == nm0[j]);
                        assert(keys_contain(nm, ks[i]));
                    } else {
                        assert(ks[i] == node_name_of(g.nodes[k - 1]));
                        assert(nm[k - 1] == node_name_of(g.nodes[k - 1]));
                        assert(keys_contain(nm, ks[i]));
                    }
                }
                None => {
                    assert(ks == ks0);
                    assert(keys_contain(nm0, ks0[i]));
                    let j = choose|j: int| 0 <= j < nm0.len() && nm0[j] == ks0[i];
                    assert(nm[j] == nm0[j]);
                    assert(keys_contain(nm, ks[i]));
                }
            }
        }
    }
}

/// The instantiation check one library node must pass: a flatten layer
/// needs a positive, constant feature count from its parent.
pub open spec fn spec_node_check(es: Seq<EntryV>, r: int) -> Result<(), ModelError> {
    match es[r].kind {
        KindV::Flatten => {
            match es[r].node {
                LayerTypeView::Single(p) => {
                    match es[p].features {
                        Shape::Const(c) => if c == 0 {
                            Err(ModelError::InvalidLayerShape)
                        } else {
                            Ok(())
                        },
                        _ => Err(ModelError::ShapeError),
                    }
                },
                _ => Ok(()),
            }
        },
        _ => Ok(()),
    }
}

/// The first instantiation failure among the first `k` flattened nodes,
/// if any.
pub open spec fn spec_build_status(es: Seq<EntryV>, g: GraphV, k: int) -> Result<(), ModelError>
    decreases k,
    when 0 <= k <= g.refs.len()
{
    if k == 0 {
        Ok(())
    } else {
        match spec_build_status(es, g, k - 1) {
            Ok(_) => spec_node_check(es, g.refs[k - 1]),
            Err(e) => Err(e),
        }
    }
}

/// Once a node fails its check, the status stays that failure.
proof fn lemma_status_propagates(es: Seq<EntryV>, g: GraphV, k: int, j: int, e: ModelError)
    requires
        0 <= k < j <= g.refs.len(),
        spec_build_status(es, g, k) == Ok::<(), ModelError>(()),
        spec_node_check(es, g.refs[k]) == Err::<(), ModelError>(e),
    ensures
        spec_build_status(es, g, j) == Err::<(), ModelError>(e),
    decreases j - k,
{
    if j == k + 1 {
    } else {
        lemma_status_propagates(es, g, k, j - 1, e);
    }
}

/// Does the executable step at position `k` faithfully realize the
/// structural record there: same arity, same parent names, and for the
/// library kinds the exact instance fields?
pub open spec fn step_matches<E: LayerSingleInput>(
    es: Seq<EntryV>,
    g: GraphV,
    k: int,
    node: ModelPropagationNode<E>,
) -> bool {
    let ev = es[g.refs[k]];
    match g.nodes[k] {
        NodeView::Dead { name, .. } => {
            node matches ModelPropagationNode::DeadEnd(si) && (match ev.kind {
                KindV::Input => si matches SingleInstance::Input(ii)
                    && ii.id@ == name && ii.features == ev.features && ii.size == ev.size,
                _ => true,
            })
        },
        NodeView::Single { name, parent, .. } => {
            node matches ModelPropagationNode::SingleInput(p, si) && p@ == parent
                && (match ev.kind {
                    KindV::Flatten => si matches SingleInstance::Flatten(fi) && fi.id@ == name,
                    _ => true,
                })
        },
        NodeView::Multi { name, parents, .. } => {
            node matches ModelPropagationNode::MultipleInput(pn, ci)
                && pn@.map_values(|s: String| s@) == parents
                && (ev.kind is Concat ==> ci.id@ == name
                    && ci.features == ev.features && ci.size == ev.size)
        },
    }
}

/// The first external name declared for `r`, if any.
fn io_lookup<'a>(pairs: &'a Vec<(LayerRef, String)>, r: LayerRef) -> (res: Option<&'a String>)
    ensures
        match res {
            Some(s) => ref_lookup(io_pairs_view(pairs@), r.0 as int) == Some(s@),
            None => ref_lookup(io_pairs_view(pairs@), r.0 as int) is None,
        },
{
    let ghost pv = io_pairs_view(pairs@);
    let mut i: usize = 0;
    proof {
        assert(pv.skip(0) =~= pv);
    }
    while i < pairs.len()
        invariant
            i <= pairs@.len(),
            pv == io_pairs_view(pairs@),
            pv.len() == pairs@.len(),
            ref_lookup(pv, r.0 as int) == ref_lookup(pv.skip(i as int), r.0 as int),
        decreases pairs@.len() - i,
    {
        proof {
            assert(pv.skip(i as int).len() > 0);
            assert(pv.skip(i as int)[0] == pv[i as int]);
            assert(pv[i as int] == (pairs@[i as int].0.0 as int, pairs@[i as int].1@));
            assert(pv.skip(i as int).drop_first() =~= pv.skip(i as int + 1));
        }
        if pairs[i].0 == r {
            return Some(&pairs[i].1);
        }
        i = i + 1;
    }
    proof {
        assert(pv.skip(pairs@.len() as int) =~= Seq::<(int, Seq<char>)>::empty());
    }
    None
}

impl ModelBuilder {
    /// Instantiate every flattened node, in order, and assemble the
    /// executable model together with its input/output name maps and its
    /// retained structural graph. A flatten layer whose parent declares
    /// zero features fails with `InvalidLayerShape`; a non-constant
    /// parent feature count fails with `ShapeError`; an externally
    /// defined instance whose arity disagrees with the structural record
    /// fails with `GraphShapeMismatch`.
    #[verifier::loop_isolation(false)]
    pub fn build<D, E>(&self, arena: &LayerArena<D>) -> (r: Result<Model<E>, ModelError>)
        where D: Layer<E>, E: LayerSingleInput,
        requires
            arena_wf(arena@),
            graph_inv(arena@, self.graph_view()),
        ensures
            ({
                let es = arena@;
                let g = self.graph_view();
                let iom = spec_io_upto(g, self.inputs_view(), g.refs.len() as int);
                let oom = spec_io_upto(g, self.outputs_view(), g.refs.len() as int);
                &&& (r matches Ok(m) ==> {
                    &&& m.maps_wf()
                    &&& m.sequential_prop.keys_view() == graph_names(g)
                    &&& forall|k: int| 0 <= k < g.refs.len()
                            ==> step_matches(es, g, k, #[trigger] m.sequential_prop.vals_view()[k])
                    &&& m.builder_ref.keys_view() == graph_names(g)
                    &&& m.builder_ref.vals_view().map_values(|b: BuilderNode| b@) == g.nodes
                    &&& m.input_layer_to_data_name.keys_view() == iom.0
                    &&& str_vals_view(m.input_layer_to_data_name.vals_view()) == iom.1
                    &&& m.output_layer_to_data_name.keys_view() == oom.0
                    &&& str_vals_view(m.output_layer_to_data_name.vals_view()) == oom.1
                    &&& spec_build_status(es, g, g.refs.len() as int) is Ok
                })
                &&& (graph_closed(es, g) ==> match spec_build_status(es, g, g.refs.len() as int) {
                    Ok(_) => r is Ok,
                    Err(e) => r matches Err(e2) && e2 == e,
                })
            }),
    {
        let ghost es = arena@;
        let ghost g = self.graph_view();
        let ghost allnames = graph_names(g);
        let n = self.graph.len();

        let mut in_map: StrMap<String> = StrMap::new();
        let mut out_map: StrMap<String> = StrMap::new();
        let mut seq_map: StrMap<ModelPropagationNode<E>> = StrMap::new();
        let mut bref: StrMap<BuilderNode> = StrMap::new();
        let mut k: usize = 0;
        proof {
            assert(str_vals_view(in_map.vals_view()) =~= Seq::<Seq<char>>::empty());
            assert(str_vals_view(out_map.vals_view()) =~= Seq::<Seq<char>>::empty());
            assert(bref.vals_view().map_values(|b: BuilderNode| b@) =~= Seq::<NodeView>::empty());
            assert(seq_map.keys_view() =~= allnames.subrange(0, 0));
            assert(bref.keys_view() =~= allnames.subrange(0, 0));
            assert(g.nodes.subrange(0, 0) =~= Seq::<NodeView>::empty());
        }
        while k < n
            invariant
                k <= n,
                n == g.refs.len(),
                in_map.wf(),
                out_map.wf(),
                seq_map.wf(),
                bref.wf(),
                seq_map.keys_view() == allnames.subrange(0, k as int),
                seq_map.vals_view().len() == k,
                forall|i: int| 0 <= i < k
                    ==> step_matches(es, g, i, #[trigger] seq_map.vals_view()[i]),
                bref.keys_view() == allnames.subrange(0, k as int),
                bref.vals_view().map_values(|b: BuilderNode| b@) == g.nodes.subrange(0, k as int),
                in_map.keys_view() == spec_io_upto(g, self.inputs_view(), k as int).0,
                str_vals_view(in_map.vals_view()) == spec_io_upto(g, self.inputs_view(), k as int).1,
                out_map.keys_view() == spec_io_upto(g, self.outputs_view(), k as int).0,
                str_vals_view(out_map.vals_view()) == spec_io_upto(g, self.outputs_view(), k as int).1,
                spec_build_status(es, g, k as int) == Ok::<(), ModelError>(()),
            decreases n - k,
        {
            let href = self.graph.key_at(k);
            let bn = self.graph.val_at(k);
            let name = bn.layer_name();
            proof {
                assert(name@ == allnames[k as int]);
                assert(href.0 as int == g.refs[k as int]);
                assert(node_arity_ok(es, g, k as int));
            }

            // io declarations for this node
            let ghost iom_k = spec_io_upto(g, self.inputs_view(), k as int);
            let ghost oom_k = spec_io_upto(g, self.outputs_view(), k as int);
            proof {
                lemma_io_upto_keys(g, self.inputs_view(), k as int);
                lemma_io_upto_keys(g, self.outputs_view(), k as int);
                let nmk = graph_names(g).subrange(0, k as int);
                assert forall|i: int| 0 <= i < iom_k.0.len()
                    implies iom_k.0[i] != name@ by {
                    assert(keys_contain(nmk, iom_k.0[i]));
                    let j = choose|j: int| 0 <= j < nmk.len() && nmk[j] == iom_k.0[i];
                    assert(nmk[j] == node_name_of(g.nodes[j]));
                    lemma_graph_names_distinct(es, g, j, k as int);
                }
                assert forall|i: int| 0 <= i < oom_k.0.len()
                    implies oom_k.0[i] != name@ by {
                    assert(keys_contain(nmk, oom_k.0[i]));
                    let j = choose|j: int| 0 <= j < nmk.len() && nmk[j] == oom_k.0[i];
                    assert(nmk[j] == node_name_of(g.nodes[j]));
                    lemma_graph_names_distinct(es, g, j, k as int);
                }
                assert(!keys_contain(iom_k.0, name@));
                assert(!keys_contain(oom_k.0, name@));
            }
            match io_lookup(&self.inputs, href) {
                Some(d) => {
                    in_map.insert(name.clone(), d.clone());
                    proof {
                        assert(str_vals_view(in_map.vals_view())
                            =~= spec_io_upto(g, self.inputs_view(), k as int + 1).1);
                    }
                }
                None => {}
            }
            match io_lookup(&self.outputs, href) {
                Some(d) => {
                    out_map.insert(name.clone(), d.clone());
                    proof {
                        assert(str_vals_view(out_map.vals_view())
                            =~= spec_io_upto(g, self.outputs_view(), k as int + 1).1);
                    }
                }
                None => {}
            }

            // instantiate
            let e = arena.entry_at(href.0);
            let node: ModelPropagationNode<E>;
            match &e.def {
                LayerDef::Input => {
                    proof {
                        assert(es[g.refs[k as int]].kind is Input);
                        assert(es[g.refs[k as int]].node is Dead);
                        assert(g.nodes[k as int] is Dead);
                    }
                    let inst = InputImpl {
                        id: name.clone(),
                        features: e.features,
                        size: e.size,
                    };
                    node = ModelPropagationNode::DeadEnd(SingleInstance::Input(inst));
                }
                LayerDef::Flatten => {
                    proof {
                        assert(es[g.refs[k as int]].kind is Flatten);
                        assert(es[g.refs[k as int]].node is Single);
                        assert(g.nodes[k as int] is Single);
                    }
                    let parent: LayerRef = match &e.node {
                        LayerType::SingleParent(p) => *p,
                        _ => {
                            proof {
                                assert(false);
                            }
                            return Err(ModelError::GraphShapeMismatch);
                        }
                    };
                    proof {
                        assert(es[g.refs[k as int]].node->Single_0 == parent.0 as int);
                        assert(parents_of(es[g.refs[k as int]].node) =~= seq![parent.0 as int]);
                        assert(parents_of(es[g.refs[k as int]].node)[0] == parent.0 as int);
                        assert(0 <= (parent.0 as int) && (parent.0 as int) < (g.refs[k as int]));
                    }
                    let (pf, _psz) = arena.get_shape(parent);
                    match pf {
                        Shape::Const(c) => {
                            if c == 0 {
                                proof {
                                    lemma_status_propagates(es, g, k as int, n as int,
                                        ModelError::InvalidLayerShape);
                                }
                                return Err(ModelError::InvalidLayerShape);
                            }
                        }
                        _ => {
                            proof {
                                lemma_status_propagates(es, g, k as int, n as int,
                                    ModelError::ShapeError);
                            }
                            return Err(ModelError::ShapeError);
                        }
                    }
                    let parent_name: String = match bn {
                        BuilderNode::SingleParent(sp) => sp.parent_name.clone(),
                        _ => {
                            proof {
                                assert(false);
                            }
                            return Err(ModelError::GraphShapeMismatch);
                        }
                    };
                    let inst = FlattenImpl { id: name.clone() };
                    node = ModelPropagationNode::SingleInput(
                        parent_name,
                        SingleInstance::Flatten(inst),
                    );
                }
                LayerDef::Concat => {
                    proof {
                        assert(es[g.refs[k as int]].kind is Concat);
                        assert(es[g.refs[k as int]].node is Multi);
                        assert(g.nodes[k as int] is Multi);
                    }
                    let parent_names: Vec<String> = match bn {
                        BuilderNode::MultipleParent(mp) => clone_strings(&mp.parent_names),
                        _ => {
                            proof {
                                assert(false);
                            }
                            return Err(ModelError::GraphShapeMismatch);
                        }
                    };
                    let inst = ConcatImpl {
                        id: name.clone(),
                        features: e.features,
                        size: e.size,
                    };
                    node = ModelPropagationNode::MultipleInput(parent_names, inst);
                }
                LayerDef::Ext(d) => {
                    let created = match d.create_instance(&name) {
                        Ok(c) => c,
                        Err(err) => {
                            return Err(err);
                        }
                    };
                    match created {
                        LayerPropagateEnum::SingleInput(si) => {
                            match bn {
                                BuilderNode::DeadEnd(_) => {
                                    node = ModelPropagationNode::DeadEnd(si);
                                }
                                BuilderNode::SingleParent(sp) => {
                                    node = ModelPropagationNode::SingleInput(
                                        sp.parent_name.clone(),
                                        si,
                                    );
                                }
                                BuilderNode::MultipleParent(_) => {
                                    return Err(ModelError::GraphShapeMismatch);
                                }
                            }
                        }
                        LayerPropagateEnum::MultipleInput(ci) => {
                            match bn {
                                BuilderNode::MultipleParent(mp) => {
                                    node = ModelPropagationNode::MultipleInput(
                                        clone_strings(&mp.parent_names),
                                        ci,
                                    );
                                }
                                _ => {
                                    return Err(ModelError::GraphShapeMismatch);
                                }
                            }
                        }
                    }
                }
            }
            proof {
                assert(step_matches(es, g, k as int, node));
                assert forall|i: int| 0 <= i < seq_map.keys_view().len()
                    implies seq_map.keys_view()[i] != name@ by {
                    lemma_graph_names_distinct(es, g, i, k as int);
                }
                assert(!keys_contain(seq_map.keys_view(), name@));
                assert(!keys_contain(bref.keys_view(), name@));
            }
            seq_map.insert(name.clone(), node);
            bref.insert(name, bn.clone_node());
            proof {
                assert(seq_map.keys_view() =~= allnames.subrange(0, k as int + 1));
                assert(bref.keys_view() =~= allnames.subrange(0, k as int + 1));
                assert(bref.vals_view().map_values(|b: BuilderNode| b@)
                    =~= g.nodes.subrange(0, k as int + 1));
                assert(spec_node_check(es, g.refs[k as int]) == Ok::<(), ModelError>(()));
            }
            k = k + 1;
        }
        proof {
            assert(allnames.subrange(0, n as int) =~= allnames);
            assert(g.nodes.subrange(0, n as int) =~= g.nodes);
        }
        Ok(Model {
            input_layer_to_data_name: in_map,
            output_layer_to_data_name: out_map,
            sequential_prop: seq_map,
            builder_ref: bref,
        })
    }
}

} // verus!
