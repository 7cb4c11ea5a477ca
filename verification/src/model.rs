//! The executable model: an immutable, topologically ordered sequence of
//! instantiated nodes plus input/output name maps. Propagation walks that
//! sequence once, buffering every node's tensor under the node's name, so a
//! shared ancestor is computed at most once per call.

use vstd::prelude::*;

use crate::errors::ModelError;
use crate::graph_elements::BuilderNode;
use crate::layers::LayerSingleInput;
use crate::layers::LayerMultiInput;
use crate::layers::ModelPropagationNode;
use crate::layers::si_propagate_spec;
use crate::strmap::StrMap;
use crate::strmap::keys_contain;
use crate::strmap::key_index;
use crate::tensor::Tensor;
use crate::tensor::TensorView;
use crate::tensor::spec_concat_horizontal;

verus! {

broadcast use vstd::std_specs::vec::group_vec_axioms, vstd::seq::group_seq_axioms;

/// The value stored under `k`; meaningful only when `keys_contain` holds.
pub open spec fn sm_get<V>(keys: Seq<Seq<char>>, vals: Seq<V>, k: Seq<char>) -> V {
    vals[key_index(keys, k)]
}

/// Insertion-ordered upsert on parallel key/value sequences, as
/// [`StrMap::insert`] performs it.
pub open spec fn sm_upsert<V>(keys: Seq<Seq<char>>, vals: Seq<V>, k: Seq<char>, v: V)
    -> (Seq<Seq<char>>, Seq<V>) {
    if keys_contain(keys, k) {
        (keys, vals.update(key_index(keys, k), v))
    } else {
        (keys.push(k), vals.push(v))
    }
}

/// An executable model. The `sequential_prop` order is topological: every
/// node's parents stand strictly earlier in it.
pub struct Model<E> {
    /// node name -> external input name
    pub input_layer_to_data_name: StrMap<String>,
    /// node name -> external output name
    pub output_layer_to_data_name: StrMap<String>,
    /// node name -> executable step, in execution order
    pub sequential_prop: StrMap<ModelPropagationNode<E>>,
    /// node name -> structural record, kept so the model can be
    /// re-serialized without the original handle graph
    pub builder_ref: StrMap<BuilderNode>,
}

/// The views of a string-valued map's values.
pub open spec fn str_vals_view(vals: Seq<String>) -> Seq<Seq<char>> {
    vals.map_values(|s: String| s@)
}

/// The views of a tensor-valued map's values.
pub open spec fn tensor_vals_view(vals: Seq<Tensor>) -> Seq<TensorView> {
    vals.map_values(|t: Tensor| t@)
}

impl<E> Model<E> {
    /// All four maps are well-formed.
    pub open spec fn maps_wf(&self) -> bool {
        &&& self.input_layer_to_data_name.wf()
        &&& self.output_layer_to_data_name.wf()
        &&& self.sequential_prop.wf()
        &&& self.builder_ref.wf()
    }
}

/// What one step computes from the buffer and the caller's inputs: the
/// node's output tensor, or the error that stops the pass.
pub open spec fn spec_step_result<E: LayerSingleInput>(
    node: ModelPropagationNode<E>,
    name: Seq<char>,
    in_keys: Seq<Seq<char>>,
    in_vals: Seq<Seq<char>>,
    xkeys: Seq<Seq<char>>,
    xvals: Seq<TensorView>,
    bkeys: Seq<Seq<char>>,
    bvals: Seq<TensorView>,
) -> Result<TensorView, ModelError> {
    match node {
        ModelPropagationNode::DeadEnd(inst) => {
            if !keys_contain(in_keys, name) {
                Err(ModelError::MissingInput)
            } else {
                let data_name = sm_get(in_keys, in_vals, name);
                if !keys_contain(xkeys, data_name) {
                    Err(ModelError::MissingInput)
                } else {
                    match si_propagate_spec(inst, sm_get(xkeys, xvals, data_name)) {
                        Some(t) => Ok(t),
                        None => Err(ModelError::DimensionMismatch),
                    }
                }
            }
        },
        ModelPropagationNode::SingleInput(parent, inst) => {
            if !keys_contain(bkeys, parent@) {
                Err(ModelError::MissingInput)
            } else {
                match si_propagate_spec(inst, sm_get(bkeys, bvals, parent@)) {
                    Some(t) => Ok(t),
                    None => Err(ModelError::DimensionMismatch),
                }
            }
        },
        ModelPropagationNode::MultipleInput(parents, inst) => {
            let pnames = parents@.map_values(|s: String| s@);
            if !(forall|j: int| 0 <= j < pnames.len()
                ==> keys_contain(bkeys, #[trigger] pnames[j])) {
                Err(ModelError::MissingInput)
            } else {
                let gathered = Seq::new(pnames.len(), |j: int| sm_get(bkeys, bvals, pnames[j]));
                match spec_concat_horizontal(gathered) {
                    Ok(t) => Ok(t),
                    Err(_) => Err(ModelError::DimensionMismatch),
                }
            }
        },
    }
}

/// Run the steps from position `k` on, threading the buffer, and return
/// the final buffer.
pub open spec fn spec_run_from<E: LayerSingleInput>(
    names: Seq<Seq<char>>,
    nodes: Seq<ModelPropagationNode<E>>,
    in_keys: Seq<Seq<char>>,
    in_vals: Seq<Seq<char>>,
    xkeys: Seq<Seq<char>>,
    xvals: Seq<TensorView>,
    bkeys: Seq<Seq<char>>,
    bvals: Seq<TensorView>,
    k: int,
) -> Result<(Seq<Seq<char>>, Seq<TensorView>), ModelError>
    decreases nodes.len() - k,
    when 0 <= k <= nodes.len() && names.len() == nodes.len()
{
    if k == nodes.len() {
        Ok((bkeys, bvals))
    } else {
        match spec_step_result(nodes[k], names[k], in_keys, in_vals, xkeys, xvals, bkeys, bvals) {
            Ok(t) => {
                let (bk2, bv2) = sm_upsert(bkeys, bvals, names[k], t);
                spec_run_from(names, nodes, in_keys, in_vals, xkeys, xvals, bk2, bv2, k + 1)
            },
            Err(e) => Err(e),
        }
    }
}

/// Collect the declared outputs from the final buffer, re-keyed under
/// their external names, from position `k` on.
pub open spec fn spec_collect_outputs(
    out_keys: Seq<Seq<char>>,
    out_vals: Seq<Seq<char>>,
    bkeys: Seq<Seq<char>>,
    bvals: Seq<TensorView>,
    okeys: Seq<Seq<char>>,
    ovals: Seq<TensorView>,
    k: int,
) -> Result<(Seq<Seq<char>>, Seq<TensorView>), ModelError>
    decreases out_keys.len() - k,
    when 0 <= k <= out_keys.len() && out_vals.len() == out_keys.len()
{
    if k == out_keys.len() {
        Ok((okeys, ovals))
    } else if !keys_contain(bkeys, out_keys[k]) {
        Err(ModelError::MissingOutput)
    } else {
        let v = sm_get(bkeys, bvals, out_keys[k]);
        let (ok2, ov2) = sm_upsert(okeys, ovals, out_vals[k], v);
        spec_collect_outputs(out_keys, out_vals, bkeys, bvals, ok2, ov2, k + 1)
    }
}

/// The whole propagation pass of `m` on `inputs`: run every step in
/// order, then collect the declared outputs.
pub open spec fn spec_propagate<E: LayerSingleInput>(
    m: Model<E>,
    xkeys: Seq<Seq<char>>,
    xvals: Seq<TensorView>,
) -> Result<(Seq<Seq<char>>, Seq<TensorView>), ModelError> {
    match spec_run_from(
        m.sequential_prop.keys_view(),
        m.sequential_prop.vals_view(),
        m.input_layer_to_data_name.keys_view(),
        str_vals_view(m.input_layer_to_data_name.vals_view()),
        xkeys,
        xvals,
        Seq::empty(),
        Seq::empty(),
        0,
    ) {
        Ok((bkeys, bvals)) => spec_collect_outputs(
            m.output_layer_to_data_name.keys_view(),
            str_vals_view(m.output_layer_to_data_name.vals_view()),
            bkeys,
            bvals,
            Seq::empty(),
            Seq::empty(),
            0,
        ),
        Err(e) => Err(e),
    }
}

impl<E: LayerSingleInput> Model<E> {
    /// Execute the plan on the caller-supplied tensors, one per declared
    /// external input name, and return the tensors of the declared
    /// outputs under their external names.
    #[verifier::loop_isolation(false)]
    pub fn propagate(&self, inputs: &StrMap<Tensor>) -> (r: Result<StrMap<Tensor>, ModelError>)
        requires
            self.maps_wf(),
            inputs.wf(),
        ensures
            match spec_propagate(*self, inputs.keys_view(), tensor_vals_view(inputs.vals_view())) {
                Ok((okeys, ovals)) => r matches Ok(out) && out.wf()
                    && out.keys_view() == okeys
                    && tensor_vals_view(out.vals_view()) == ovals,
                Err(e) => r matches Err(e2) && e2 == e,
            },
    {
        let ghost xkeys = inputs.keys_view();
        let ghost xvals = tensor_vals_view(inputs.vals_view());
        let ghost names = self.sequential_prop.keys_view();
        let ghost nodes = self.sequential_prop.vals_view();
        let ghost in_keys = self.input_layer_to_data_name.keys_view();
        let ghost in_vals = str_vals_view(self.input_layer_to_data_name.vals_view());

        let n = self.sequential_prop.len();
        let mut buffer: StrMap<Tensor> = StrMap::new();
        let mut k: usize = 0;
        proof {
            assert(tensor_vals_view(buffer.vals_view()) =~= Seq::<TensorView>::empty());
        }
        while k < n
            invariant
                k <= n,
                n == names.len(),
                names.len() == nodes.len(),
                self.maps_wf(),
                inputs.wf(),
                buffer.wf(),
                xkeys == inputs.keys_view(),
                xvals == tensor_vals_view(inputs.vals_view()),
                names == self.sequential_prop.keys_view(),
                nodes == self.sequential_prop.vals_view(),
                in_keys == self.input_layer_to_data_name.keys_view(),
                in_vals == str_vals_view(self.input_layer_to_data_name.vals_view()),
                spec_run_from(names, nodes, in_keys, in_vals, xkeys, xvals,
                    Seq::empty(), Seq::empty(), 0)
                    == spec_run_from(names, nodes, in_keys, in_vals, xkeys, xvals,
                        buffer.keys_view(), tensor_vals_view(buffer.vals_view()), k as int),
            decreases n - k,
        {
            let name_k = self.sequential_prop.key_at(k).clone();
            let node_k = self.sequential_prop.val_at(k);
            let ghost bk = buffer.keys_view();
            let ghost bv = tensor_vals_view(buffer.vals_view());
            let step: Tensor;
            match node_k {
                ModelPropagationNode::DeadEnd(inst) => {
                    let data_name = match self.input_layer_to_data_name.get(&name_k) {
                        Some(d) => d,
                        None => {
                            proof {
                                assert(!keys_contain(in_keys, names[k as int]));
                                assert(spec_step_result(nodes[k as int], names[k as int],
                                    in_keys, in_vals, xkeys, xvals, bk, bv)
                                    == Err::<TensorView, ModelError>(ModelError::MissingInput));
                            }
                            return Err(ModelError::MissingInput);
                        }
                    };
                    proof {
                        assert(keys_contain(in_keys, names[k as int]));
                        assert(data_name@ == sm_get(in_keys, in_vals, names[k as int]));
                    }
                    let data = match inputs.get(data_name) {
                        Some(t) => t,
                        None => {
                            proof {
                                assert(!keys_contain(xkeys, data_name@));
                                assert(spec_step_result(nodes[k as int], names[k as int],
                                    in_keys, in_vals, xkeys, xvals, bk, bv)
                                    == Err::<TensorView, ModelError>(ModelError::MissingInput));
                            }
                            return Err(ModelError::MissingInput);
                        }
                    };
                    proof {
                        assert(data@ == sm_get(xkeys, xvals, data_name@));
                    }
                    match inst.propagate(data) {
                        Ok(t) => {
                            step = t;
                        }
                        Err(_) => {
                            proof {
                                assert(si_propagate_spec(*inst, data@) is None);
                                assert(spec_step_result(nodes[k as int], names[k as int],
                                    in_keys, in_vals, xkeys, xvals, bk, bv)
                                    == Err::<TensorView, ModelError>(ModelError::DimensionMismatch));
                            }
                            return Err(ModelError::DimensionMismatch);
                        }
                    }
                }
                ModelPropagationNode::SingleInput(parent, inst) => {
                    let data = match buffer.get(parent) {
                        Some(t) => t,
                        None => {
                            proof {
                                assert(!keys_contain(bk, parent@));
                                assert(spec_step_result(nodes[k as int], names[k as int],
                                    in_keys, in_vals, xkeys, xvals, bk, bv)
                                    == Err::<TensorView, ModelError>(ModelError::MissingInput));
                            }
                            return Err(ModelError::MissingInput);
                        }
                    };
                    proof {
                        assert(data@ == sm_get(bk, bv, parent@));
                    }
                    let data2 = data.clone_tensor();
                    match inst.propagate(&data2) {
                        Ok(t) => {
                            step = t;
                        }
                        Err(_) => {
                            proof {
                                assert(si_propagate_spec(*inst, data2@) is None);
                                assert(spec_step_result(nodes[k as int], names[k as int],
                                    in_keys, in_vals, xkeys, xvals, bk, bv)
                                    == Err::<TensorView, ModelError>(ModelError::DimensionMismatch));
                            }
                            return Err(ModelError::DimensionMismatch);
                        }
                    }
                }
                ModelPropagationNode::MultipleInput(parents, inst) => {
                    let ghost pnames = parents@.map_values(|s: String| s@);
                    let mut gathered: Vec<Tensor> = Vec::new();
                    let mut j: usize = 0;
                    while j < parents.len()
                        invariant
                            j <= parents@.len(),
                            buffer.wf(),
                            pnames == parents@.map_values(|s: String| s@),
                            pnames.len() == parents@.len(),
                            bk == buffer.keys_view(),
                            bv == tensor_vals_view(buffer.vals_view()),
                            forall|t: int| 0 <= t < j
                                ==> keys_contain(bk, #[trigger] pnames[t]),
                            gathered@.len() == j,
                            forall|t: int| 0 <= t < j
                                ==> (#[trigger] gathered@[t])@ == sm_get(bk, bv, pnames[t]),
                        decreases parents@.len() - j,
                    {
                        let data = match buffer.get(&parents[j]) {
                            Some(t) => t,
                            None => {
                                proof {
                                    assert(!keys_contain(bk, pnames[j as int]));
                                    assert(spec_step_result(nodes[k as int], names[k as int],
                                        in_keys, in_vals, xkeys, xvals, bk, bv)
                                        == Err::<TensorView, ModelError>(ModelError::MissingInput));
                                }
                                return Err(ModelError::MissingInput);
                            }
                        };
                        gathered.push(data.clone_tensor());
                        proof {
                            assert(buffer.spec_get(pnames[j as int])@
                                == sm_get(bk, bv, pnames[j as int]));
                        }
                        j = j + 1;
                    }
                    proof {
                        assert(gathered@.map_values(|t: Tensor| t@)
                            =~= Seq::new(pnames.len(), |t: int| sm_get(bk, bv, pnames[t])));
                    }
                    match inst.propagate_multi(&gathered) {
                        Ok(t) => {
                            step = t;
                        }
                        Err(_) => {
                            proof {
                                assert(spec_concat_horizontal(
                                    gathered@.map_values(|x: Tensor| x@)) is Err);
                                assert(spec_step_result(nodes[k as int], names[k as int],
                                    in_keys, in_vals, xkeys, xvals, bk, bv)
                                    == Err::<TensorView, ModelError>(ModelError::DimensionMismatch));
                            }
                            return Err(ModelError::DimensionMismatch);
                        }
                    }
                }
            }
            proof {
                assert(spec_step_result(nodes[k as int], names[k as int], in_keys, in_vals,
                    xkeys, xvals, bk, bv) == Ok::<TensorView, ModelError>(step@));
            }
            buffer.insert(name_k, step);
            proof {
                assert(buffer.keys_view() == sm_upsert(bk, bv, names[k as int], step@).0);
                assert(tensor_vals_view(buffer.vals_view())
                    =~= sm_upsert(bk, bv, names[k as int], step@).1);
            }
            k = k + 1;
        }

        let ghost bkeys = buffer.keys_view();
        let ghost bvals = tensor_vals_view(buffer.vals_view());
        let ghost out_keys = self.output_layer_to_data_name.keys_view();
        let ghost out_vals = str_vals_view(self.output_layer_to_data_name.vals_view());

        let m = self.output_layer_to_data_name.len();
        let mut out: StrMap<Tensor> = StrMap::new();
        let mut t: usize = 0;
        proof {
            assert(spec_run_from(names, nodes, in_keys, in_vals, xkeys, xvals,
                bkeys, bvals, n as int) == Ok::<(Seq<Seq<char>>, Seq<TensorView>), ModelError>((bkeys, bvals)));
            assert(tensor_vals_view(out.vals_view()) =~= Seq::<TensorView>::empty());
        }
        while t < m
            invariant
                t <= m,
                m == out_keys.len(),
                out_keys.len() == out_vals.len(),
                self.maps_wf(),
                buffer.wf(),
                out.wf(),
                bkeys == buffer.keys_view(),
                bvals == tensor_vals_view(buffer.vals_view()),
                out_keys == self.output_layer_to_data_name.keys_view(),
                out_vals == str_vals_view(self.output_layer_to_data_name.vals_view()),
                spec_collect_outputs(out_keys, out_vals, bkeys, bvals,
                    Seq::empty(), Seq::empty(), 0)
                    == spec_collect_outputs(out_keys, out_vals, bkeys, bvals,
                        out.keys_view(), tensor_vals_view(out.vals_view()), t as int),
            decreases m - t,
        {
            let node_name = self.output_layer_to_data_name.key_at(t).clone();
            let data_name = self.output_layer_to_data_name.val_at(t).clone();
            let ghost ok0 = out.keys_view();
            let ghost ov0 = tensor_vals_view(out.vals_view());
            let v = match buffer.get(&node_name) {
                Some(x) => x.clone_tensor(),
                None => {
                    proof {
                        assert(!keys_contain(bkeys, out_keys[t as int]));
                        assert(spec_collect_outputs(out_keys, out_vals, bkeys, bvals,
                            ok0, ov0, t as int)
                            == Err::<(Seq<Seq<char>>, Seq<TensorView>), ModelError>(ModelError::MissingOutput));
                    }
                    return Err(ModelError::MissingOutput);
                }
            };
            out.insert(data_name, v);
            proof {
                assert(out.keys_view() == sm_upsert(ok0, ov0, out_vals[t as int], bvals[key_index(bkeys, out_keys[t as int])]).0);
                assert(tensor_vals_view(out.vals_view())
                    =~= sm_upsert(ok0, ov0, out_vals[t as int], bvals[key_index(bkeys, out_keys[t as int])]).1);
            }
            t = t + 1;
        }
        Ok(out)
    }
}


impl<E: LayerSingleInput> Model<E> {
    /// Execute a single-input model on one tensor, mapped to the default
    /// external name.
    pub fn propagate_single_input(&self, input: Tensor) -> (r: Result<StrMap<Tensor>, ModelError>)
        requires
            self.maps_wf(),
        ensures
            ({
                let xkeys = seq!["DEF_IO"@];
                let xvals = seq![input@];
                match spec_propagate(*self, xkeys, xvals) {
                    Ok((okeys, ovals)) => r matches Ok(out) && out.wf()
                        && out.keys_view() == okeys
                        && tensor_vals_view(out.vals_view()) == ovals,
                    Err(e) => r matches Err(e2) && e2 == e,
                }
            }),
    {
        let mut inputs: StrMap<Tensor> = StrMap::new();
        inputs.insert(crate::builder::ModelBuilder::single_io().to_owned(), input);
        proof {
            assert(inputs.keys_view() =~= seq!["DEF_IO"@]);
            assert(tensor_vals_view(inputs.vals_view()) =~= seq![input@]);
        }
        self.propagate(&inputs)
    }

    /// Execute the model and return the single output mapped to the
    /// default external name; `MissingOutput` when the model declares no
    /// such output.
    pub fn propagate_single_output(&self, inputs: &StrMap<Tensor>)
        -> (r: Result<Tensor, ModelError>)
        requires
            self.maps_wf(),
            inputs.wf(),
        ensures
            match spec_propagate(*self, inputs.keys_view(), tensor_vals_view(inputs.vals_view())) {
                Ok((okeys, ovals)) => {
                    if keys_contain(okeys, "DEF_IO"@) {
                        r matches Ok(t) && t@ == sm_get(okeys, ovals, "DEF_IO"@)
                    } else {
                        r matches Err(e) && e is MissingOutput
                    }
                },
                Err(e) => r matches Err(e2) && e2 == e,
            },
    {
        let out = match self.propagate(inputs) {
            Ok(o) => o,
            Err(e) => {
                return Err(e);
            }
        };
        match out.get(&crate::builder::ModelBuilder::single_io().to_owned()) {
            Some(t) => Ok(t.clone_tensor()),
            None => Err(ModelError::MissingOutput),
        }
    }

    /// Execute a single-input, single-output model on one tensor.
    pub fn propagate_single(&self, input: Tensor) -> (r: Result<Tensor, ModelError>)
        requires
            self.maps_wf(),
        ensures
            ({
                let xkeys = seq!["DEF_IO"@];
                let xvals = seq![input@];
                match spec_propagate(*self, xkeys, xvals) {
                    Ok((okeys, ovals)) => {
                        if keys_contain(okeys, "DEF_IO"@) {
                            r matches Ok(t) && t@ == sm_get(okeys, ovals, "DEF_IO"@)
                        } else {
                            r matches Err(e) && e is MissingOutput
                        }
                    },
                    Err(e) => r matches Err(e2) && e2 == e,
                }
            }),
    {
        let mut inputs: StrMap<Tensor> = StrMap::new();
        inputs.insert(crate::builder::ModelBuilder::single_io().to_owned(), input);
        proof {
            assert(inputs.keys_view() =~= seq!["DEF_IO"@]);
            assert(tensor_vals_view(inputs.vals_view()) =~= seq![input@]);
        }
        self.propagate_single_output(&inputs)
    }
}

} // verus!
