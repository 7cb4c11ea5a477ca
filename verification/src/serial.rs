//! The serialized model: its envelope types, the default registries for
//! the library-shipped kinds, and the rebuild of an executable model from
//! the serialized form.

use vstd::prelude::*;

use crate::activation::NoneAct;
use crate::errors::ModelError;
use crate::graph_elements::BuilderNode;
use crate::graph_elements::NodeView;
use crate::graph_elements::node_tname_of;
use crate::injector::Factory;
use crate::injector::GenericInjector;
use crate::jsonval::JsonValue;
use crate::jsonval::JsonView;
use crate::layers::ConcatImpl;
use crate::layers::FlattenImpl;
use crate::layers::InputImpl;
use crate::layers::LayerMultiInput;
use crate::layers::LayerPropagateEnum;
use crate::layers::LayerSingleInput;
use crate::layers::ModelPropagationNode;
use crate::layers::SingleInstance;
use crate::layers::si_blob_spec;
use crate::layers::id_from_json;
use crate::layers::id_shapes_from_json;
use crate::layers::spec_id_parse;
use crate::layers::spec_id_shapes_parse;
use crate::model::Model;
use crate::model::sm_get;
use crate::model::str_vals_view;
use crate::strmap::StrMap;
use crate::strmap::keys_contain;

verus! {

broadcast use vstd::std_specs::vec::group_vec_axioms, vstd::seq::group_seq_axioms;

/// The serialized input/output name maps.
pub struct ModelIO {
    pub inputs: StrMap<String>,
    pub outputs: StrMap<String>,
}

/// The serialized structural graph: node name to structural record.
pub struct ModelGraph {
    pub graph: StrMap<BuilderNode>,
}

/// The serialized per-node parameter blobs, keyed by node name.
pub struct ModelMeta {
    pub meta: StrMap<JsonValue>,
}

/// A serialized model: name maps, structural graph, and parameter blobs.
pub struct ModelSerialized {
    pub io: ModelIO,
    pub graph: ModelGraph,
    pub meta: ModelMeta,
}

impl ModelSerialized {
    /// All component maps are well-formed.
    pub open spec fn maps_wf(&self) -> bool {
        &&& self.io.inputs.wf()
        &&& self.io.outputs.wf()
        &&& self.graph.graph.wf()
        &&& self.meta.meta.wf()
    }
}

/// A copy of a string-valued map with the same contents.
pub fn clone_string_map(src: &StrMap<String>) -> (r: StrMap<String>)
    requires
        src.wf(),
    ensures
        r.wf(),
        r.keys_view() == src.keys_view(),
        str_vals_view(r.vals_view()) == str_vals_view(src.vals_view()),
{
    let n = src.len();
    let mut r: StrMap<String> = StrMap::new();
    let mut i: usize = 0;
    proof {
        assert(r.keys_view() =~= src.keys_view().subrange(0, 0));
        assert(str_vals_view(r.vals_view()) =~= str_vals_view(src.vals_view()).subrange(0, 0));
    }
    while i < n
        invariant
            i <= n,
            n == src.keys_view().len(),
            src.wf(),
            r.wf(),
            r.keys_view() == src.keys_view().subrange(0, i as int),
            str_vals_view(r.vals_view()) == str_vals_view(src.vals_view()).subrange(0, i as int),
        decreases n - i,
    {
        let k = src.key_at(i).clone();
        let v = src.val_at(i).clone();
        proof {
            assert forall|j: int| 0 <= j < r.keys_view().len()
                implies r.keys_view()[j] != k@ by {
                assert(r.keys_view()[j] == src.keys_view()[j]);
            }
            assert(!keys_contain(r.keys_view(), k@));
        }
        r.insert(k, v);
        proof {
            assert(r.keys_view() =~= src.keys_view().subrange(0, i as int + 1));
            assert(str_vals_view(r.vals_view())
                =~= str_vals_view(src.vals_view()).subrange(0, i as int + 1));
        }
        i = i + 1;
    }
    proof {
        assert(src.keys_view().subrange(0, n as int) =~= src.keys_view());
        assert(str_vals_view(src.vals_view()).subrange(0, n as int)
            =~= str_vals_view(src.vals_view()));
    }
    r
}

/// The views of a node-record map's values.
pub open spec fn node_vals_view(vals: Seq<BuilderNode>) -> Seq<NodeView> {
    vals.map_values(|b: BuilderNode| b@)
}

/// A copy of a structural-record map with the same contents.
pub fn clone_graph_map(src: &StrMap<BuilderNode>) -> (r: StrMap<BuilderNode>)
    requires
        src.wf(),
    ensures
        r.wf(),
        r.keys_view() == src.keys_view(),
        node_vals_view(r.vals_view()) == node_vals_view(src.vals_view()),
{
    let n = src.len();
    let mut r: StrMap<BuilderNode> = StrMap::new();
    let mut i: usize = 0;
    proof {
        assert(r.keys_view() =~= src.keys_view().subrange(0, 0));
        assert(node_vals_view(r.vals_view()) =~= node_vals_view(src.vals_view()).subrange(0, 0));
    }
    while i < n
        invariant
            i <= n,
            n == src.keys_view().len(),
            src.wf(),
            r.wf(),
            r.keys_view() == src.keys_view().subrange(0, i as int),
            node_vals_view(r.vals_view()) == node_vals_view(src.vals_view()).subrange(0, i as int),
        decreases n - i,
    {
        let k = src.key_at(i).clone();
        let v = src.val_at(i).clone_node();
        proof {
            assert forall|j: int| 0 <= j < r.keys_view().len()
                implies r.keys_view()[j] != k@ by {
                assert(r.keys_view()[j] == src.keys_view()[j]);
            }
            assert(!keys_contain(r.keys_view(), k@));
        }
        r.insert(k, v);
        proof {
            assert(r.keys_view() =~= src.keys_view().subrange(0, i as int + 1));
            assert(node_vals_view(r.vals_view())
                =~= node_vals_view(src.vals_view()).subrange(0, i as int + 1));
        }
        i = i + 1;
    }
    proof {
        assert(src.keys_view().subrange(0, n as int) =~= src.keys_view());
        assert(node_vals_view(src.vals_view()).subrange(0, n as int)
            =~= node_vals_view(src.vals_view()));
    }
    r
}

/// The parameter blob an execution step serializes to.
pub open spec fn node_blob_spec<E: LayerSingleInput>(n: ModelPropagationNode<E>) -> JsonView {
    match n {
        ModelPropagationNode::DeadEnd(s) => si_blob_spec(s),
        ModelPropagationNode::SingleInput(_, s) => si_blob_spec(s),
        ModelPropagationNode::MultipleInput(_, c) => c.multi_blob_spec(),
    }
}

impl<E: LayerSingleInput> Model<E> {
    /// The serialized form of this model: its name maps, its retained
    /// structural graph, and one parameter blob per node.
    #[verifier::loop_isolation(false)]
    pub fn to_serialized_model(&self) -> (r: ModelSerialized)
        requires
            self.maps_wf(),
        ensures
            r.maps_wf(),
            r.io.inputs.keys_view() == self.input_layer_to_data_name.keys_view(),
            str_vals_view(r.io.inputs.vals_view())
                == str_vals_view(self.input_layer_to_data_name.vals_view()),
            r.io.outputs.keys_view() == self.output_layer_to_data_name.keys_view(),
            str_vals_view(r.io.outputs.vals_view())
                == str_vals_view(self.output_layer_to_data_name.vals_view()),
            r.graph.graph.keys_view() == self.builder_ref.keys_view(),
            node_vals_view(r.graph.graph.vals_view())
                == node_vals_view(self.builder_ref.vals_view()),
            r.meta.meta.keys_view() == self.sequential_prop.keys_view(),
            r.meta.meta.vals_view().map_values(|j: JsonValue| j@)
                == Seq::new(self.sequential_prop.vals_view().len(),
                    |k: int| node_blob_spec(self.sequential_prop.vals_view()[k])),
    {
        let inputs = clone_string_map(&self.input_layer_to_data_name);
        let outputs = clone_string_map(&self.output_layer_to_data_name);
        let graph = clone_graph_map(&self.builder_ref);

        let ghost blobs = Seq::new(self.sequential_prop.vals_view().len(),
            |k: int| node_blob_spec(self.sequential_prop.vals_view()[k]));
        let n = self.sequential_prop.len();
        let mut meta: StrMap<JsonValue> = StrMap::new();
        let mut i: usize = 0;
        proof {
            assert(meta.keys_view() =~= self.sequential_prop.keys_view().subrange(0, 0));
            assert(meta.vals_view().map_values(|j: JsonValue| j@) =~= blobs.subrange(0, 0));
        }
        while i < n
            invariant
                i <= n,
                meta.wf(),
                meta.keys_view() == self.sequential_prop.keys_view().subrange(0, i as int),
                meta.vals_view().map_values(|j: JsonValue| j@) == blobs.subrange(0, i as int),
            decreases n - i,
        {
            let k = self.sequential_prop.key_at(i).clone();
            let blob = self.sequential_prop.val_at(i).to_json();
            proof {
                assert forall|j: int| 0 <= j < meta.keys_view().len()
                    implies meta.keys_view()[j] != k@ by {
                    assert(meta.keys_view()[j] == self.sequential_prop.keys_view()[j]);
                }
                assert(!keys_contain(meta.keys_view(), k@));
            }
            meta.insert(k, blob);
            proof {
                assert(meta.keys_view()
                    =~= self.sequential_prop.keys_view().subrange(0, i as int + 1));
                assert(meta.vals_view().map_values(|j: JsonValue| j@)
                    =~= blobs.subrange(0, i as int + 1));
            }
            i = i + 1;
        }
        proof {
            assert(self.sequential_prop.keys_view().subrange(0, n as int)
                =~= self.sequential_prop.keys_view());
            assert(blobs.subrange(0, n as int) =~= blobs);
        }
        ModelSerialized {
            io: ModelIO { inputs, outputs },
            graph: ModelGraph { graph },
            meta: ModelMeta { meta },
        }
    }
}

/// The factory for the library's activation kinds.
pub struct LibActivationFactory;

impl<C> Factory<NoneAct, C> for LibActivationFactory {
    open spec fn creates(&self, json: JsonView, ctx: &C) -> bool {
        true
    }

    open spec fn created_ok(&self, json: JsonView, ctx: &C, r: NoneAct) -> bool {
        r == (NoneAct {})
    }

    fn create(&self, json: &JsonValue, ctx: &C) -> (r: Result<NoneAct, ModelError>) {
        Ok(NoneAct {})
    }
}

/// The factory for the library's layer kinds, one variant per registered
/// type tag.
pub enum LibLayerFactory {
    Input,
    Flatten,
    Concat,
}

impl<E: LayerSingleInput, C> Factory<LayerPropagateEnum<E>, C> for LibLayerFactory {
    open spec fn creates(&self, json: JsonView, ctx: &C) -> bool {
        match self {
            LibLayerFactory::Input => spec_id_shapes_parse(json) is Some,
            LibLayerFactory::Flatten => spec_id_parse(json) is Some,
            LibLayerFactory::Concat => spec_id_shapes_parse(json) is Some,
        }
    }

    open spec fn created_ok(&self, json: JsonView, ctx: &C, r: LayerPropagateEnum<E>) -> bool {
        match self {
            LibLayerFactory::Input => {
                r matches LayerPropagateEnum::SingleInput(si)
                    && si matches SingleInstance::Input(ii)
                    && Some((ii.id@, ii.features, ii.size)) == spec_id_shapes_parse(json)
            },
            LibLayerFactory::Flatten => {
                r matches LayerPropagateEnum::SingleInput(si)
                    && si matches SingleInstance::Flatten(fi)
                    && Some(fi.id@) == spec_id_parse(json)
            },
            LibLayerFactory::Concat => {
                r matches LayerPropagateEnum::MultipleInput(ci)
                    && Some((ci.id@, ci.features, ci.size)) == spec_id_shapes_parse(json)
            },
        }
    }

    fn create(&self, json: &JsonValue, ctx: &C) -> (r: Result<LayerPropagateEnum<E>, ModelError>) {
        match self {
            LibLayerFactory::Input => {
                match id_shapes_from_json(json) {
                    Some((id, features, size)) => Ok(LayerPropagateEnum::SingleInput(
                        SingleInstance::Input(InputImpl { id, features, size }),
                    )),
                    None => Err(ModelError::GraphShapeMismatch),
                }
            }
            LibLayerFactory::Flatten => {
                match id_from_json(json) {
                    Some(id) => Ok(LayerPropagateEnum::SingleInput(
                        SingleInstance::Flatten(FlattenImpl { id }),
                    )),
                    None => Err(ModelError::GraphShapeMismatch),
                }
            }
            LibLayerFactory::Concat => {
                match id_shapes_from_json(json) {
                    Some((id, features, size)) => Ok(LayerPropagateEnum::MultipleInput(
                        ConcatImpl { id, features, size },
                    )),
                    None => Err(ModelError::GraphShapeMismatch),
                }
            }
        }
    }
}

impl GenericInjector<LibActivationFactory> {
    /// The registry pre-filled with the library's activation kinds.
    pub fn default_activation() -> (r: Self)
        ensures
            r.wf(),
            r.names() == seq!["NoneAct"@],
            r.factories() == seq![LibActivationFactory],
    {
        let mut r = GenericInjector::new();
        r.register("NoneAct".to_owned(), LibActivationFactory);
        proof {
            assert(r.names() =~= seq!["NoneAct"@]);
            assert(r.factories() =~= seq![LibActivationFactory]);
        }
        r
    }
}

impl GenericInjector<LibLayerFactory> {
    /// The registry pre-filled with the library's layer kinds.
    pub fn default_layer() -> (r: Self)
        ensures
            r.wf(),
            r.names() == seq!["Input"@, "Flatten"@, "Concat"@],
            r.factories() == seq![LibLayerFactory::Input, LibLayerFactory::Flatten,
                LibLayerFactory::Concat],
    {
        let mut r = GenericInjector::new();
        proof {
            reveal_strlit("Input");
            reveal_strlit("Flatten");
            reveal_strlit("Concat");
            assert("Input"@.len() == 5);
            assert("Flatten"@.len() == 7);
            assert("Concat"@.len() == 6);
        }
        r.register("Input".to_owned(), LibLayerFactory::Input);
        r.register("Flatten".to_owned(), LibLayerFactory::Flatten);
        r.register("Concat".to_owned(), LibLayerFactory::Concat);
        proof {
            assert(r.names() =~= seq!["Input"@, "Flatten"@, "Concat"@]);
            assert(r.factories() =~= seq![LibLayerFactory::Input, LibLayerFactory::Flatten,
                LibLayerFactory::Concat]);
        }
        r
    }
}

/// The reader that rebuilds models: one registry per object kind. Layer
/// factories receive the reader itself as context, so they can consult
/// the activation registry for a nested activation blob.
pub struct ModelReader<FA, FL> {
    pub activation_injector: GenericInjector<FA>,
    pub layer_injector: GenericInjector<FL>,
}

impl<FA, FL> ModelReader<FA, FL> {
    /// Both registries are well-formed.
    pub open spec fn wf(&self) -> bool {
        &&& self.activation_injector.wf()
        &&& self.layer_injector.wf()
    }

    /// The activation registry.
    pub fn get_activation_di(&self) -> (r: &GenericInjector<FA>)
        ensures
            r == &self.activation_injector,
    {
        &self.activation_injector
    }

    /// The layer registry.
    pub fn get_layer_di(&self) -> (r: &GenericInjector<FL>)
        ensures
            r == &self.layer_injector,
    {
        &self.layer_injector
    }
}

impl ModelReader<LibActivationFactory, LibLayerFactory> {
    /// The reader pre-filled with the library's own kinds.
    pub fn default_reader() -> (r: Self)
        ensures
            r.wf(),
            r.activation_injector.names() == seq!["NoneAct"@],
            r.layer_injector.names() == seq!["Input"@, "Flatten"@, "Concat"@],
            r.layer_injector.factories() == seq![LibLayerFactory::Input,
                LibLayerFactory::Flatten, LibLayerFactory::Concat],
    {
        ModelReader {
            activation_injector: GenericInjector::default_activation(),
            layer_injector: GenericInjector::default_layer(),
        }
    }
}

/// Is the arity of a freshly created instance the one the structural
/// record declares?
pub open spec fn arity_compat<E>(t: LayerPropagateEnum<E>, bnv: NodeView) -> bool {
    match bnv {
        NodeView::Dead { .. } => t is SingleInput,
        NodeView::Single { .. } => t is SingleInput,
        NodeView::Multi { .. } => t is MultipleInput,
    }
}

/// The created instance inside an execution step.
pub open spec fn unwrap_step<E>(n: ModelPropagationNode<E>) -> LayerPropagateEnum<E> {
    match n {
        ModelPropagationNode::DeadEnd(s) => LayerPropagateEnum::SingleInput(s),
        ModelPropagationNode::SingleInput(_, s) => LayerPropagateEnum::SingleInput(s),
        ModelPropagationNode::MultipleInput(_, c) => LayerPropagateEnum::MultipleInput(c),
    }
}

/// Can the serialized node at meta position `k` be rebuilt: its name has
/// a structural record, the record's type tag has a factory, the factory
/// accepts the blob, and everything that factory can produce has the
/// declared arity.
pub open spec fn rebuild_step_ok<FA, FL, E: LayerSingleInput>(
    s: &ModelSerialized,
    reader: &ModelReader<FA, FL>,
    k: int,
) -> bool
    where FL: Factory<LayerPropagateEnum<E>, ModelReader<FA, FL>>,
{
    let name = s.meta.meta.keys_view()[k];
    let blob = s.meta.meta.vals_view()[k]@;
    &&& keys_contain(s.graph.graph.keys_view(), name)
    &&& {
        let bnv = sm_get(s.graph.graph.keys_view(), s.graph.graph.vals_view(), name)@;
        let tname = node_tname_of(bnv);
        &&& keys_contain(reader.layer_injector.names(), tname)
        &&& {
            let f = reader.layer_injector.spec_factory(tname);
            &&& f.creates(blob, reader)
            &&& forall|t: LayerPropagateEnum<E>|
                #[trigger] f.created_ok(blob, reader, t) ==> arity_compat(t, bnv)
        }
    }
}

impl ModelSerialized {
    /// Rebuild an executable model: for each serialized node, look its
    /// type tag up in the structural graph, ask the layer registry for an
    /// instance, and re-wire it by the record's parent links. An unknown
    /// type tag fails with `UnsupportedType`; a missing record or an
    /// instance of the wrong arity fails with `GraphShapeMismatch`.
    #[verifier::loop_isolation(false)]
    pub fn build_model<FA, FL, E>(&self, reader: &ModelReader<FA, FL>)
        -> (r: Result<Model<E>, ModelError>)
        where FL: Factory<LayerPropagateEnum<E>, ModelReader<FA, FL>>, E: LayerSingleInput,
        requires
            self.maps_wf(),
            reader.wf(),
        ensures
            ({
                let n = self.meta.meta.keys_view().len();
                &&& ((forall|k: int| 0 <= k < n
                        ==> #[trigger] rebuild_step_ok::<FA, FL, E>(self, reader, k))
                    ==> r is Ok)
                &&& (r matches Ok(m) ==> {
                    &&& m.maps_wf()
                    &&& m.input_layer_to_data_name.keys_view() == self.io.inputs.keys_view()
                    &&& str_vals_view(m.input_layer_to_data_name.vals_view())
                        == str_vals_view(self.io.inputs.vals_view())
                    &&& m.output_layer_to_data_name.keys_view() == self.io.outputs.keys_view()
                    &&& str_vals_view(m.output_layer_to_data_name.vals_view())
                        == str_vals_view(self.io.outputs.vals_view())
                    &&& m.builder_ref.keys_view() == self.graph.graph.keys_view()
                    &&& node_vals_view(m.builder_ref.vals_view())
                        == node_vals_view(self.graph.graph.vals_view())
                    &&& m.sequential_prop.keys_view() == self.meta.meta.keys_view()
                    &&& forall|k: int| 0 <= k < n ==> {
                        let name = self.meta.meta.keys_view()[k];
                        let blob = self.meta.meta.vals_view()[k]@;
                        let bnv = sm_get(self.graph.graph.keys_view(),
                            self.graph.graph.vals_view(), name)@;
                        let node = #[trigger] m.sequential_prop.vals_view()[k];
                        &&& (match bnv {
                            NodeView::Dead { .. } => node is DeadEnd,
                            NodeView::Single { parent, .. } => node matches
                                ModelPropagationNode::SingleInput(p, _) && p@ == parent,
                            NodeView::Multi { parents, .. } => node matches
                                ModelPropagationNode::MultipleInput(pn, _)
                                && pn@.map_values(|x: String| x@) == parents,
                        })
                        &&& reader.layer_injector.spec_factory(node_tname_of(bnv))
                            .created_ok(blob, reader, unwrap_step(node))
                    }
                })
            }),
    {
        let inputs = clone_string_map(&self.io.inputs);
        let outputs = clone_string_map(&self.io.outputs);
        let bref = clone_graph_map(&self.graph.graph);

        let n = self.meta.meta.len();
        let mut seq_map: StrMap<ModelPropagationNode<E>> = StrMap::new();
        let mut k: usize = 0;
        proof {
            assert(seq_map.keys_view() =~= self.meta.meta.keys_view().subrange(0, 0));
        }
        while k < n
            invariant
                k <= n,
                seq_map.wf(),
                seq_map.keys_view() == self.meta.meta.keys_view().subrange(0, k as int),
                seq_map.vals_view().len() == k,
                forall|i: int| 0 <= i < k ==> {
                    let name = self.meta.meta.keys_view()[i];
                    let blob = self.meta.meta.vals_view()[i]@;
                    let bnv = sm_get(self.graph.graph.keys_view(),
                        self.graph.graph.vals_view(), name)@;
                    let node = #[trigger] seq_map.vals_view()[i];
                    &&& (match bnv {
                        NodeView::Dead { .. } => node is DeadEnd,
                        NodeView::Single { parent, .. } => node matches
                            ModelPropagationNode::SingleInput(p, _) && p@ == parent,
                        NodeView::Multi { parents, .. } => node matches
                            ModelPropagationNode::MultipleInput(pn, _)
                            && pn@.map_values(|x: String| x@) == parents,
                    })
                    &&& reader.layer_injector.spec_factory(node_tname_of(bnv))
                        .created_ok(blob, reader, unwrap_step(node))
                },
            decreases n - k,
        {
            let name = self.meta.meta.key_at(k).clone();
            let blob = self.meta.meta.val_at(k);
            let bn = match self.graph.graph.get(&name) {
                Some(b) => b,
                None => {
                    proof {
                        assert(!rebuild_step_ok::<FA, FL, E>(self, reader, k as int));
                    }
                    return Err(ModelError::GraphShapeMismatch);
                }
            };
            let tname = bn.type_tag();
            let created = match reader.layer_injector.create(&tname, blob, reader) {
                Ok(c) => c,
                Err(e) => {
                    proof {
                        assert(!rebuild_step_ok::<FA, FL, E>(self, reader, k as int));
                    }
                    return Err(e);
                }
            };
            let ghost gcreated = created;
            let node: ModelPropagationNode<E>;
            match created {
                LayerPropagateEnum::SingleInput(si) => {
                    match bn {
                        BuilderNode::DeadEnd(_) => {
                            node = ModelPropagationNode::DeadEnd(si);
                        }
                        BuilderNode::SingleParent(sp) => {
                            node = ModelPropagationNode::SingleInput(
                                sp.parent_name.clone(),
                                si,
                            );
                        }
                        BuilderNode::MultipleParent(_) => {
                            proof {
                                assert(!arity_compat(gcreated, bn@));
                                assert(!rebuild_step_ok::<FA, FL, E>(self, reader, k as int));
                            }
                            return Err(ModelError::GraphShapeMismatch);
                        }
                    }
                }
                LayerPropagateEnum::MultipleInput(ci) => {
                    match bn {
                        BuilderNode::MultipleParent(mp) => {
                            node = ModelPropagationNode::MultipleInput(
                                crate::graph_elements::clone_strings(&mp.parent_names),
                                ci,
                            );
                        }
                        _ => {
                            proof {
                                assert(!arity_compat(gcreated, bn@));
                                assert(!rebuild_step_ok::<FA, FL, E>(self, reader, k as int));
                            }
                            return Err(ModelError::GraphShapeMismatch);
                        }
                    }
                }
            }
            proof {
                assert forall|j: int| 0 <= j < seq_map.keys_view().len()
                    implies seq_map.keys_view()[j] != name@ by {
                    assert(seq_map.keys_view()[j] == self.meta.meta.keys_view()[j]);
                }
                assert(!keys_contain(seq_map.keys_view(), name@));
            }
            seq_map.insert(name, node);
            proof {
                assert(seq_map.keys_view()
                    =~= self.meta.meta.keys_view().subrange(0, k as int + 1));
            }
            k = k + 1;
        }
        proof {
            assert(self.meta.meta.keys_view().subrange(0, n as int)
                =~= self.meta.meta.keys_view());
        }
        Ok(Model {
            input_layer_to_data_name: inputs,
            output_layer_to_data_name: outputs,
            sequential_prop: seq_map,
            builder_ref: bref,
        })
    }
}

} // verus!
