//! The library's global guarantees, stated and proved as theorems over
//! the specifications of the builder, the propagation engine and the
//! serialized form.

use vstd::prelude::*;

use crate::arena::EntryV;
use crate::arena::KindV;
use crate::arena::arena_wf;
use crate::builder::GraphV;
use crate::builder::graph_closed;
use crate::builder::graph_inv;
use crate::builder::graph_names;
use crate::builder::gv_index;
use crate::builder::lemma_graph_names_distinct;
use crate::builder::node_arity_ok;
use crate::builder::spec_visit_seq;
use crate::graph_elements::node_name_of;
use crate::graph_elements::node_parents_of;
use crate::layers::LayerSingleInput;
use crate::layers::ModelPropagationNode;
use crate::model::sm_upsert;
use crate::model::spec_run_from;
use crate::model::spec_step_result;
use crate::node::LayerTypeView;
use crate::builder::step_matches;
use crate::graph_elements::NodeView;
use crate::graph_elements::node_tname_of;
use crate::injector::Factory;
use crate::jsonval::JsonValue;
use crate::layers::LayerMultiInput;
use crate::layers::LayerPropagateEnum;
use crate::layers::SingleInstance;
use crate::layers::lemma_id_blob_roundtrip;
use crate::layers::lemma_id_shapes_blob_roundtrip;
use crate::model::Model;
use crate::model::sm_get;
use crate::model::spec_propagate;
use crate::model::str_vals_view;
use crate::serial::LibActivationFactory;
use crate::serial::LibLayerFactory;
use crate::serial::ModelReader;
use crate::serial::ModelSerialized;
use crate::serial::node_blob_spec;
use crate::serial::node_vals_view;
use crate::serial::rebuild_step_ok;
use crate::serial::unwrap_step;
use crate::strmap::keys_contain;
use crate::strmap::key_index;
use crate::strmap::lemma_key_index_of_position;
use crate::tensor::TensorView;

verus! {

broadcast use vstd::std_specs::vec::group_vec_axioms, vstd::seq::group_seq_axioms;

/// Topological validity: in a flattened graph, every parent name of every
/// node was assigned to a node standing strictly earlier in the order.
pub proof fn lemma_topological_order(es: Seq<EntryV>, g: GraphV, k: int, j: int)
    requires
        graph_inv(es, g),
        0 <= k < g.nodes.len(),
        0 <= j < node_parents_of(g.nodes[k]).len(),
    ensures
        exists|i: int| 0 <= i < k
            && #[trigger] node_name_of(g.nodes[i]) == node_parents_of(g.nodes[k])[j],
{
    assert(node_arity_ok(es, g, k));
    match es[g.refs[k]].node {
        LayerTypeView::Dead => {
            assert(node_parents_of(g.nodes[k]).len() == 0);
        }
        LayerTypeView::Single(p) => {
            let i = gv_index(g, p);
            assert(node_parents_of(g.nodes[k]) =~= seq![g.nodes[k]->Single_parent]);
            assert(node_name_of(g.nodes[i]) == node_parents_of(g.nodes[k])[j]);
        }
        LayerTypeView::Multi(ps) => {
            assert(g.nodes[k]->Multi_parents.len() == ps.len());
            assert(node_parents_of(g.nodes[k]) == g.nodes[k]->Multi_parents);
            let i = gv_index(g, ps[j]);
            assert(node_name_of(g.nodes[i]) == node_parents_of(g.nodes[k])[j]);
        }
    }
}

/// Sharing: a shared definition is flattened at most once — two distinct
/// positions of the execution order never come from one handle, and never
/// carry one name.
pub proof fn lemma_shared_node_once(es: Seq<EntryV>, g: GraphV, a: int, b: int)
    requires
        graph_inv(es, g),
        0 <= a < g.refs.len(),
        0 <= b < g.refs.len(),
        a != b,
    ensures
        g.refs[a] != g.refs[b],
        node_name_of(g.nodes[a]) != node_name_of(g.nodes[b]),
{
    lemma_graph_names_distinct(es, g, a, b);
}

/// Sharing at propagation time: with distinct step names, a successful
/// pass buffers exactly one result per step — the final buffer's keys are
/// exactly the step names, in order.
pub proof fn lemma_one_result_per_node<E: LayerSingleInput>(
    names: Seq<Seq<char>>,
    nodes: Seq<ModelPropagationNode<E>>,
    in_keys: Seq<Seq<char>>,
    in_vals: Seq<Seq<char>>,
    xkeys: Seq<Seq<char>>,
    xvals: Seq<TensorView>,
    bkeys: Seq<Seq<char>>,
    bvals: Seq<TensorView>,
    k: int,
)
    requires
        0 <= k <= nodes.len(),
        names.len() == nodes.len(),
        forall|a: int, b: int| 0 <= a < b < names.len() ==> names[a] != names[b],
        bkeys == names.subrange(0, k),
    ensures
        match spec_run_from(names, nodes, in_keys, in_vals, xkeys, xvals, bkeys, bvals, k) {
            Ok((bk, _)) => bk == names,
            Err(_) => true,
        },
    decreases nodes.len() - k,
{
    if k == nodes.len() {
        assert(names.subrange(0, k) =~= names);
    } else {
        match spec_step_result(nodes[k], names[k], in_keys, in_vals, xkeys, xvals, bkeys, bvals) {
            Ok(t) => {
                assert(!keys_contain(bkeys, names[k])) by {
                    if keys_contain(bkeys, names[k]) {
                        let i = choose|i: int| 0 <= i < bkeys.len() && bkeys[i] == names[k];
                        assert(names[i] == names[k]);
                    }
                }
                let (bk2, bv2) = sm_upsert(bkeys, bvals, names[k], t);
                assert(bk2 =~= names.subrange(0, k + 1));
                lemma_one_result_per_node(names, nodes, in_keys, in_vals, xkeys, xvals,
                    bk2, bv2, k + 1);
            }
            Err(_) => {}
        }
    }
}

/// Naming determinism: the flattened graph, and with it every assigned
/// name, is a function of the arena and the declared outputs alone —
/// repeating the build with the same declarations in the same order
/// yields identical structural names.
pub proof fn lemma_naming_deterministic(es: Seq<EntryV>, outs: Seq<int>, g1: GraphV, g2: GraphV)
    requires
        arena_wf(es),
        forall|j: int| 0 <= j < outs.len() ==> 0 <= #[trigger] outs[j] < es.len(),
        g1 == spec_visit_seq(es, GraphV::empty(), outs),
        g2 == spec_visit_seq(es, GraphV::empty(), outs),
    ensures
        g1 == g2,
        graph_names(g1) == graph_names(g2),
{
}


/// Do two single-input instances behave identically: both the library's
/// pass-through, or both its flatten? (Their transforms ignore their
/// stored fields.)
pub open spec fn si_equiv<E: LayerSingleInput>(s1: SingleInstance<E>, s2: SingleInstance<E>) -> bool {
    ||| (s1 is Input && s2 is Input)
    ||| (s1 is Flatten && s2 is Flatten)
}

/// Do two execution steps behave identically: equivalent instances fed
/// from the same parent names?
pub open spec fn step_equiv<E: LayerSingleInput>(
    n1: ModelPropagationNode<E>,
    n2: ModelPropagationNode<E>,
) -> bool {
    match (n1, n2) {
        (ModelPropagationNode::DeadEnd(s1), ModelPropagationNode::DeadEnd(s2)) =>
            si_equiv(s1, s2),
        (ModelPropagationNode::SingleInput(p1, s1), ModelPropagationNode::SingleInput(p2, s2)) =>
            p1@ == p2@ && si_equiv(s1, s2),
        (ModelPropagationNode::MultipleInput(q1, _), ModelPropagationNode::MultipleInput(q2, _)) =>
            q1@.map_values(|x: String| x@) == q2@.map_values(|x: String| x@),
        _ => false,
    }
}

/// Behaviorally equivalent steps compute the same result from the same
/// surroundings.
proof fn lemma_step_equiv_result<E: LayerSingleInput>(
    n1: ModelPropagationNode<E>,
    n2: ModelPropagationNode<E>,
    name: Seq<char>,
    in_keys: Seq<Seq<char>>,
    in_vals: Seq<Seq<char>>,
    xkeys: Seq<Seq<char>>,
    xvals: Seq<TensorView>,
    bkeys: Seq<Seq<char>>,
    bvals: Seq<TensorView>,
)
    requires
        step_equiv(n1, n2),
    ensures
        spec_step_result(n1, name, in_keys, in_vals, xkeys, xvals, bkeys, bvals)
            == spec_step_result(n2, name, in_keys, in_vals, xkeys, xvals, bkeys, bvals),
{
}

/// Pointwise behaviorally equivalent plans run to the same buffer.
proof fn lemma_run_equiv<E: LayerSingleInput>(
    names: Seq<Seq<char>>,
    nodes1: Seq<ModelPropagationNode<E>>,
    nodes2: Seq<ModelPropagationNode<E>>,
    in_keys: Seq<Seq<char>>,
    in_vals: Seq<Seq<char>>,
    xkeys: Seq<Seq<char>>,
    xvals: Seq<TensorView>,
    bkeys: Seq<Seq<char>>,
    bvals: Seq<TensorView>,
    k: int,
)
    requires
        names.len() == nodes1.len(),
        nodes1.len() == nodes2.len(),
        0 <= k <= names.len(),
        forall|i: int| 0 <= i < nodes1.len() ==> step_equiv(#[trigger] nodes1[i], nodes2[i]),
    ensures
        spec_run_from(names, nodes1, in_keys, in_vals, xkeys, xvals, bkeys, bvals, k)
            == spec_run_from(names, nodes2, in_keys, in_vals, xkeys, xvals, bkeys, bvals, k),
    decreases names.len() - k,
{
    if k < names.len() {
        lemma_step_equiv_result(nodes1[k], nodes2[k], names[k], in_keys, in_vals,
            xkeys, xvals, bkeys, bvals);
        match spec_step_result(nodes1[k], names[k], in_keys, in_vals, xkeys, xvals, bkeys, bvals) {
            Ok(t) => {
                let (bk2, bv2) = sm_upsert(bkeys, bvals, names[k], t);
                lemma_run_equiv(names, nodes1, nodes2, in_keys, in_vals, xkeys, xvals,
                    bk2, bv2, k + 1);
            }
            Err(_) => {}
        }
    }
}

/// Two models with the same step names, behaviorally equivalent steps and
/// the same name maps propagate identically on every input set.
pub proof fn lemma_propagate_equiv<E: LayerSingleInput>(
    m1: Model<E>,
    m2: Model<E>,
    xkeys: Seq<Seq<char>>,
    xvals: Seq<TensorView>,
)
    requires
        m1.maps_wf(),
        m2.maps_wf(),
        m1.sequential_prop.keys_view() == m2.sequential_prop.keys_view(),
        forall|i: int| 0 <= i < m1.sequential_prop.vals_view().len()
            ==> step_equiv(#[trigger] m1.sequential_prop.vals_view()[i],
                m2.sequential_prop.vals_view()[i]),
        m1.input_layer_to_data_name.keys_view() == m2.input_layer_to_data_name.keys_view(),
        str_vals_view(m1.input_layer_to_data_name.vals_view())
            == str_vals_view(m2.input_layer_to_data_name.vals_view()),
        m1.output_layer_to_data_name.keys_view() == m2.output_layer_to_data_name.keys_view(),
        str_vals_view(m1.output_layer_to_data_name.vals_view())
            == str_vals_view(m2.output_layer_to_data_name.vals_view()),
    ensures
        spec_propagate(m1, xkeys, xvals) == spec_propagate(m2, xkeys, xvals),
{
    lemma_run_equiv(
        m1.sequential_prop.keys_view(),
        m1.sequential_prop.vals_view(),
        m2.sequential_prop.vals_view(),
        m1.input_layer_to_data_name.keys_view(),
        str_vals_view(m1.input_layer_to_data_name.vals_view()),
        xkeys,
        xvals,
        Seq::empty(),
        Seq::empty(),
        0,
    );
}

/// The facts `ModelBuilder::build` guarantees about a model it returned
/// over the flattened graph `g` of arena `es`.
pub open spec fn built_model_facts<E: LayerSingleInput>(
    es: Seq<EntryV>,
    g: GraphV,
    m: Model<E>,
) -> bool {
    &&& m.maps_wf()
    &&& m.sequential_prop.keys_view() == graph_names(g)
    &&& forall|i: int| 0 <= i < g.refs.len()
            ==> step_matches(es, g, i, #[trigger] m.sequential_prop.vals_view()[i])
    &&& m.builder_ref.keys_view() == graph_names(g)
    &&& node_vals_view(m.builder_ref.vals_view()) == g.nodes
}

/// The facts `Model::to_serialized_model` guarantees about the serialized
/// form of `m`.
pub open spec fn serialized_facts<E: LayerSingleInput>(m: Model<E>, s: ModelSerialized) -> bool {
    &&& s.maps_wf()
    &&& s.io.inputs.keys_view() == m.input_layer_to_data_name.keys_view()
    &&& str_vals_view(s.io.inputs.vals_view())
        == str_vals_view(m.input_layer_to_data_name.vals_view())
    &&& s.io.outputs.keys_view() == m.output_layer_to_data_name.keys_view()
    &&& str_vals_view(s.io.outputs.vals_view())
        == str_vals_view(m.output_layer_to_data_name.vals_view())
    &&& s.graph.graph.keys_view() == m.builder_ref.keys_view()
    &&& node_vals_view(s.graph.graph.vals_view()) == node_vals_view(m.builder_ref.vals_view())
    &&& s.meta.meta.keys_view() == m.sequential_prop.keys_view()
    &&& s.meta.meta.vals_view().map_values(|j: JsonValue| j@)
        == Seq::new(m.sequential_prop.vals_view().len(),
            |k: int| node_blob_spec(m.sequential_prop.vals_view()[k]))
}

/// The library reader's registries as `ModelReader::default_reader`
/// populates them.
pub open spec fn lib_reader_facts(reader: ModelReader<LibActivationFactory, LibLayerFactory>) -> bool {
    &&& reader.wf()
    &&& reader.layer_injector.names() == seq!["Input"@, "Flatten"@, "Concat"@]
    &&& reader.layer_injector.factories() == seq![LibLayerFactory::Input,
        LibLayerFactory::Flatten, LibLayerFactory::Concat]
}

/// Round trip, first half: a model built from library-shipped layers
/// serializes to a form that the library reader can rebuild — every
/// serialized node passes the rebuild check.
pub proof fn lemma_round_trip_rebuilds<E: LayerSingleInput>(
    es: Seq<EntryV>,
    g: GraphV,
    m: Model<E>,
    s: ModelSerialized,
    reader: ModelReader<LibActivationFactory, LibLayerFactory>,
    k: int,
)
    requires
        arena_wf(es),
        graph_inv(es, g),
        graph_closed(es, g),
        built_model_facts(es, g, m),
        serialized_facts(m, s),
        lib_reader_facts(reader),
        0 <= k < s.meta.meta.keys_view().len(),
    ensures
        rebuild_step_ok::<LibActivationFactory, LibLayerFactory, E>(&s, &reader, k),
{
    reveal_strlit("Input");
    reveal_strlit("Flatten");
    reveal_strlit("Concat");
    assert("Input"@.len() == 5);
    assert("Flatten"@.len() == 7);
    assert("Concat"@.len() == 6);

    let names = graph_names(g);
    let name = s.meta.meta.keys_view()[k];
    assert(name == names[k]);
    let blob = s.meta.meta.vals_view()[k]@;
    assert(s.meta.meta.vals_view().map_values(|j: JsonValue| j@).len()
        == s.meta.meta.vals_view().len());
    assert(s.meta.meta.vals_view().map_values(|j: JsonValue| j@)[k]
        == s.meta.meta.vals_view()[k]@);
    assert(blob == node_blob_spec(m.sequential_prop.vals_view()[k]));

    // the structural record of this node is g.nodes[k]
    assert(s.graph.graph.keys_view()[k] == names[k]);
    assert(keys_contain(s.graph.graph.keys_view(), name));
    lemma_key_index_of_position(s.graph.graph.keys_view(), k);
    assert(key_index(s.graph.graph.keys_view(), name) == k);
    let bn = sm_get(s.graph.graph.keys_view(), s.graph.graph.vals_view(), name);
    assert(bn@ == node_vals_view(s.graph.graph.vals_view())[k]);
    assert(bn@ == g.nodes[k]);
    assert(node_tname_of(bn@) == es[g.refs[k]].tag);

    let rnames = reader.layer_injector.names();
    assert(rnames[0] == "Input"@ && rnames[1] == "Flatten"@ && rnames[2] == "Concat"@);
    assert(node_arity_ok(es, g, k));
    let node = m.sequential_prop.vals_view()[k];
    assert(step_matches(es, g, k, node));
    assert(!(es[g.refs[k]].kind is Ext));

    match es[g.refs[k]].kind {
        KindV::Input => {
            assert(es[g.refs[k]].tag == "Input"@);
            assert(keys_contain(rnames, "Input"@));
            lemma_key_index_of_position(rnames, 0);
            let f = reader.layer_injector.spec_factory("Input"@);
            assert(f == LibLayerFactory::Input);
            assert(es[g.refs[k]].node is Dead);
            assert(g.nodes[k] is Dead);
            match node {
                ModelPropagationNode::DeadEnd(si) => {
                    match si {
                        SingleInstance::Input(ii) => {
                            assert(blob == ii.blob_spec());
                            lemma_id_shapes_blob_roundtrip(ii.id@, ii.features, ii.size);
                            assert(Factory::<LayerPropagateEnum<E>,
                                ModelReader<LibActivationFactory, LibLayerFactory>>::creates(
                                &f, blob, &reader));
                        }
                        _ => { assert(false); }
                    }
                }
                _ => { assert(false); }
            }
        }
        KindV::Flatten => {
            assert(es[g.refs[k]].tag == "Flatten"@);
            assert(keys_contain(rnames, "Flatten"@));
            lemma_key_index_of_position(rnames, 1);
            let f = reader.layer_injector.spec_factory("Flatten"@);
            assert(f == LibLayerFactory::Flatten);
            assert(es[g.refs[k]].node is Single);
            assert(g.nodes[k] is Single);
            match node {
                ModelPropagationNode::SingleInput(_, si) => {
                    match si {
                        SingleInstance::Flatten(fi) => {
                            assert(blob == fi.blob_spec());
                            lemma_id_blob_roundtrip(fi.id@);
                            assert(Factory::<LayerPropagateEnum<E>,
                                ModelReader<LibActivationFactory, LibLayerFactory>>::creates(
                                &f, blob, &reader));
                        }
                        _ => { assert(false); }
                    }
                }
                _ => { assert(false); }
            }
        }
        KindV::Concat => {
            assert(es[g.refs[k]].tag == "Concat"@);
            assert(keys_contain(rnames, "Concat"@));
            lemma_key_index_of_position(rnames, 2);
            let f = reader.layer_injector.spec_factory("Concat"@);
            assert(f == LibLayerFactory::Concat);
            assert(es[g.refs[k]].node is Multi);
            assert(g.nodes[k] is Multi);
            match node {
                ModelPropagationNode::MultipleInput(_, ci) => {
                    assert(blob == ci.multi_blob_spec());
                    lemma_id_shapes_blob_roundtrip(ci.id@, ci.features, ci.size);
                    assert(Factory::<LayerPropagateEnum<E>,
                        ModelReader<LibActivationFactory, LibLayerFactory>>::creates(
                        &f, blob, &reader));
                }
                _ => { assert(false); }
            }
        }
        KindV::Ext => {
            assert(false);
        }
    }
}

/// The facts `ModelSerialized::build_model` guarantees about a model it
/// returned with the library reader.
pub open spec fn rebuilt_model_facts<E: LayerSingleInput>(
    s: ModelSerialized,
    reader: ModelReader<LibActivationFactory, LibLayerFactory>,
    m2: Model<E>,
) -> bool {
    &&& m2.maps_wf()
    &&& m2.input_layer_to_data_name.keys_view() == s.io.inputs.keys_view()
    &&& str_vals_view(m2.input_layer_to_data_name.vals_view())
        == str_vals_view(s.io.inputs.vals_view())
    &&& m2.output_layer_to_data_name.keys_view() == s.io.outputs.keys_view()
    &&& str_vals_view(m2.output_layer_to_data_name.vals_view())
        == str_vals_view(s.io.outputs.vals_view())
    &&& m2.sequential_prop.keys_view() == s.meta.meta.keys_view()
    &&& forall|k: int| 0 <= k < s.meta.meta.keys_view().len() ==> {
        let name = s.meta.meta.keys_view()[k];
        let blob = s.meta.meta.vals_view()[k]@;
        let bnv = sm_get(s.graph.graph.keys_view(), s.graph.graph.vals_view(), name)@;
        let node = #[trigger] m2.sequential_prop.vals_view()[k];
        &&& (match bnv {
            NodeView::Dead { .. } => node is DeadEnd,
            NodeView::Single { parent, .. } => node matches
                ModelPropagationNode::SingleInput(p, _) && p@ == parent,
            NodeView::Multi { parents, .. } => node matches
                ModelPropagationNode::MultipleInput(pn, _)
                && pn@.map_values(|x: String| x@) == parents,
        })
        &&& reader.layer_injector.spec_factory(node_tname_of(bnv))
            .created_ok(blob, &reader, unwrap_step(node))
    }
}

/// Round trip, second half: the rebuilt model propagates exactly as the
/// original on every input set.
pub proof fn lemma_round_trip_preserves<E: LayerSingleInput>(
    es: Seq<EntryV>,
    g: GraphV,
    m: Model<E>,
    s: ModelSerialized,
    reader: ModelReader<LibActivationFactory, LibLayerFactory>,
    m2: Model<E>,
    xkeys: Seq<Seq<char>>,
    xvals: Seq<TensorView>,
)
    requires
        arena_wf(es),
        graph_inv(es, g),
        graph_closed(es, g),
        built_model_facts(es, g, m),
        serialized_facts(m, s),
        lib_reader_facts(reader),
        rebuilt_model_facts(s, reader, m2),
    ensures
        spec_propagate(m2, xkeys, xvals) == spec_propagate(m, xkeys, xvals),
{
    reveal_strlit("Input");
    reveal_strlit("Flatten");
    reveal_strlit("Concat");
    assert("Input"@.len() == 5);
    assert("Flatten"@.len() == 7);
    assert("Concat"@.len() == 6);
    let names = graph_names(g);
    let rnames = reader.layer_injector.names();
    assert(rnames[0] == "Input"@ && rnames[1] == "Flatten"@ && rnames[2] == "Concat"@);

    assert(m.sequential_prop.vals_view().len() == g.nodes.len());
    assert(m2.sequential_prop.vals_view().len() == g.nodes.len());
    assert forall|k: int| 0 <= k < m.sequential_prop.vals_view().len()
        implies step_equiv(#[trigger] m.sequential_prop.vals_view()[k],
            m2.sequential_prop.vals_view()[k]) by {
        let node1 = m.sequential_prop.vals_view()[k];
        let node2 = m2.sequential_prop.vals_view()[k];
        let name = s.meta.meta.keys_view()[k];
        assert(s.meta.meta.vals_view().map_values(|j: JsonValue| j@)[k]
            == s.meta.meta.vals_view()[k]@);
        assert(name == names[k]);
        assert(s.graph.graph.keys_view()[k] == names[k]);
        lemma_key_index_of_position(s.graph.graph.keys_view(), k);
        let bn = sm_get(s.graph.graph.keys_view(), s.graph.graph.vals_view(), name);
        assert(bn@ == node_vals_view(s.graph.graph.vals_view())[k]);
        assert(bn@ == g.nodes[k]);
        assert(node_tname_of(bn@) == es[g.refs[k]].tag);
        assert(step_matches(es, g, k, node1));
        assert(node_arity_ok(es, g, k));
        assert(!(es[g.refs[k]].kind is Ext));
        match es[g.refs[k]].kind {
            KindV::Input => {
                lemma_key_index_of_position(rnames, 0);
                assert(reader.layer_injector.spec_factory("Input"@) == LibLayerFactory::Input);
                assert(g.nodes[k] is Dead);
                assert(node2 is DeadEnd);
                assert(reader.layer_injector.spec_factory(node_tname_of(bn@))
                    .created_ok(s.meta.meta.vals_view()[k]@, &reader, unwrap_step(node2)));
                assert(unwrap_step(node2) matches LayerPropagateEnum::SingleInput(si)
                    && si is Input);
            }
            KindV::Flatten => {
                lemma_key_index_of_position(rnames, 1);
                assert(reader.layer_injector.spec_factory("Flatten"@) == LibLayerFactory::Flatten);
                assert(g.nodes[k] is Single);
                assert(node2 matches ModelPropagationNode::SingleInput(p, _)
                    && p@ == g.nodes[k]->Single_parent);
                assert(reader.layer_injector.spec_factory(node_tname_of(bn@))
                    .created_ok(s.meta.meta.vals_view()[k]@, &reader, unwrap_step(node2)));
                assert(unwrap_step(node2) matches LayerPropagateEnum::SingleInput(si)
                    && si is Flatten);
            }
            KindV::Concat => {
                lemma_key_index_of_position(rnames, 2);
                assert(reader.layer_injector.spec_factory("Concat"@) == LibLayerFactory::Concat);
                assert(g.nodes[k] is Multi);
                assert(node2 matches ModelPropagationNode::MultipleInput(pn, _)
                    && pn@.map_values(|x: String| x@) == g.nodes[k]->Multi_parents);
            }
            KindV::Ext => {
                assert(false);
            }
        }
    }
    lemma_propagate_equiv(m2, m, xkeys, xvals);
}


/// The parent names one execution step reads its inputs from, in order.
pub open spec fn step_parent_names<E: LayerSingleInput>(n: ModelPropagationNode<E>) -> Seq<Seq<char>> {
    match n {
        ModelPropagationNode::DeadEnd(_) => Seq::empty(),
        ModelPropagationNode::SingleInput(p, _) => seq![p@],
        ModelPropagationNode::MultipleInput(pn, _) => pn@.map_values(|x: String| x@),
    }
}

/// Topological validity of a built model: every parent name of every
/// execution step is the name of a step standing strictly earlier in the
/// execution order.
pub proof fn lemma_model_topological_order<E: LayerSingleInput>(
    es: Seq<EntryV>,
    g: GraphV,
    m: Model<E>,
    k: int,
    j: int,
)
    requires
        graph_inv(es, g),
        built_model_facts(es, g, m),
        0 <= k < m.sequential_prop.vals_view().len(),
        0 <= j < step_parent_names(m.sequential_prop.vals_view()[k]).len(),
    ensures
        exists|i: int| 0 <= i < k
            && #[trigger] m.sequential_prop.keys_view()[i]
                == step_parent_names(m.sequential_prop.vals_view()[k])[j],
{
    let node = m.sequential_prop.vals_view()[k];
    assert(m.sequential_prop.vals_view().len() == graph_names(g).len());
    assert(step_matches(es, g, k, node));
    assert(node_arity_ok(es, g, k));
    assert(step_parent_names(node) =~= node_parents_of(g.nodes[k])) by {
        match g.nodes[k] {
            NodeView::Dead { .. } => {}
            NodeView::Single { .. } => {}
            NodeView::Multi { .. } => {}
        }
    }
    lemma_topological_order(es, g, k, j);
    let i = choose|i: int| 0 <= i < k
        && #[trigger] node_name_of(g.nodes[i]) == node_parents_of(g.nodes[k])[j];
    assert(m.sequential_prop.keys_view()[i] == graph_names(g)[i]);
    assert(graph_names(g)[i] == node_name_of(g.nodes[i]));
}

/// Sharing in a built model: the execution order holds each assigned name
/// exactly once, so each node is instantiated exactly once.
pub proof fn lemma_model_names_distinct<E: LayerSingleInput>(
    es: Seq<EntryV>,
    g: GraphV,
    m: Model<E>,
    a: int,
    b: int,
)
    requires
        graph_inv(es, g),
        built_model_facts(es, g, m),
        0 <= a < m.sequential_prop.keys_view().len(),
        0 <= b < m.sequential_prop.keys_view().len(),
        a != b,
    ensures
        m.sequential_prop.keys_view()[a] != m.sequential_prop.keys_view()[b],
{
    assert(m.sequential_prop.keys_view()[a] == node_name_of(g.nodes[a]));
    assert(m.sequential_prop.keys_view()[b] == node_name_of(g.nodes[b]));
    lemma_graph_names_distinct(es, g, a, b);
}

} // verus!
