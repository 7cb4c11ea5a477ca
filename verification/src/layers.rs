//! Executable layer instances: what a flattened node runs at propagation
//! time, and the parameter blobs they serialize to.
//!
//! The library ships the data-movement layers (input pass-through, flatten,
//! concatenation) fully verified. Layers whose arithmetic lives outside the
//! library (dense products, activation curves) come in through the
//! [`LayerSingleInput`] capability trait and the `Ext` variant.

use vstd::prelude::*;

use crate::errors::ModelError;
use crate::jsonval::JsonValue;
use crate::jsonval::JsonView;
use crate::jsonval::obj_views;
use crate::jsonval::obj_lookup;
use crate::jsonval::lemma_obj_views_index;
use crate::shape::Shape;
use crate::tensor::Tensor;
use crate::tensor::TensorView;
use crate::tensor::spec_concat_horizontal;

verus! {

/// A single-input executable layer: produces its output tensor from its one
/// input tensor, deterministically. The library's own layers implement
/// this; so do externally supplied ones (the registry-extensible kinds).
pub trait LayerSingleInput: Sized {
    /// The transform this instance applies, as a function of the input's
    /// value; `None` where the instance rejects the input.
    spec fn propagate_spec(&self, input: TensorView) -> Option<TensorView>;

    /// The parameter blob this instance serializes to.
    spec fn blob_spec(&self) -> JsonView;

    /// Apply the transform.
    fn propagate(&self, input: &Tensor) -> (r: Result<Tensor, ModelError>)
        ensures
            match self.propagate_spec(input@) {
                Some(tv) => r matches Ok(t) && t@ == tv,
                None => r is Err,
            },
    ;

    /// The parameter blob to store for this instance.
    fn to_json(&self) -> (r: JsonValue)
        ensures
            r@ == self.blob_spec(),
    ;
}

/// The blob view of a shape: a tagged object for a constant, a plain tag
/// string otherwise.
pub open spec fn shape_blob_view(s: Shape) -> JsonView {
    match s {
        Shape::Const(n) => JsonView::Obj(seq![("Const"@, JsonView::Num(n as u64))]),
        Shape::Repeat => JsonView::Str("Repeat"@),
        Shape::Variable => JsonView::Str("Variable"@),
    }
}

/// The shape a blob view describes, if any.
pub open spec fn spec_shape_parse(v: JsonView) -> Option<Shape> {
    match v {
        JsonView::Obj(pairs) => {
            if pairs.len() == 1 && pairs[0].0 == "Const"@ {
                match pairs[0].1 {
                    JsonView::Num(n) => {
                        if n <= usize::MAX {
                            Some(Shape::Const(n as usize))
                        } else {
                            None
                        }
                    },
                    _ => None,
                }
            } else {
                None
            }
        },
        JsonView::Str(s) => {
            if s == "Repeat"@ {
                Some(Shape::Repeat)
            } else if s == "Variable"@ {
                Some(Shape::Variable)
            } else {
                None
            }
        },
        _ => None,
    }
}

/// Reading back a shape blob restores the shape.
pub proof fn lemma_shape_blob_roundtrip(s: Shape)
    ensures
        spec_shape_parse(shape_blob_view(s)) == Some(s),
{
    reveal_strlit("Repeat");
    reveal_strlit("Variable");
    match s {
        Shape::Const(n) => {
            let pairs = seq![("Const"@, JsonView::Num(n as u64))];
            assert(shape_blob_view(s) == JsonView::Obj(pairs));
            assert(pairs.len() == 1 && pairs[0].0 == "Const"@);
            assert(pairs[0].1 == JsonView::Num(n as u64));
            assert(n as u64 <= usize::MAX);
            assert(spec_shape_parse(shape_blob_view(s)) == Some(Shape::Const((n as u64) as usize)));
            assert((n as u64) as usize == n);
        }
        Shape::Repeat => {
            assert("Repeat"@.len() == 6);
            assert("Variable"@.len() == 8);
            assert("Repeat"@ != "Variable"@);
        }
        Shape::Variable => {
            assert("Repeat"@.len() == 6);
            assert("Variable"@.len() == 8);
            assert("Variable"@ != "Repeat"@);
        }
    }
}

/// Render a shape as its parameter-blob form.
pub fn shape_to_json(s: &Shape) -> (r: JsonValue)
    ensures
        r@ == shape_blob_view(*s),
{
    match s {
        Shape::Const(n) => {
            let mut pairs: Vec<(String, JsonValue)> = Vec::new();
            pairs.push(("Const".to_owned(), JsonValue::Num(*n as u64)));
            proof {
                lemma_obj_views_index(pairs@);
                assert(obj_views(pairs@) =~= seq![("Const"@, JsonView::Num(*n as u64))]);
            }
            JsonValue::Obj(pairs)
        }
        Shape::Repeat => JsonValue::Str("Repeat".to_owned()),
        Shape::Variable => JsonValue::Str("Variable".to_owned()),
    }
}

/// Read a shape back from its parameter-blob form.
pub fn shape_from_json(v: &JsonValue) -> (r: Option<Shape>)
    ensures
        r == spec_shape_parse(v@),
{
    match v {
        JsonValue::Obj(pairs) => {
            proof {
                lemma_obj_views_index(pairs@);
            }
            if pairs.len() == 1 {
                let key_matches = pairs[0].0.eq(&"Const".to_owned());
                if key_matches {
                    match &pairs[0].1 {
                        JsonValue::Num(n) => {
                            if *n <= usize::MAX as u64 {
                                Some(Shape::Const(*n as usize))
                            } else {
                                None
                            }
                        }
                        _ => None,
                    }
                } else {
                    None
                }
            } else {
                None
            }
        }
        JsonValue::Str(s) => {
            if s.eq(&"Repeat".to_owned()) {
                Some(Shape::Repeat)
            } else if s.eq(&"Variable".to_owned()) {
                Some(Shape::Variable)
            } else {
                None
            }
        }
        _ => None,
    }
}


/// A multi-input executable layer: produces its output from its parents'
/// tensors in declared order.
pub trait LayerMultiInput: Sized {
    /// The transform applied to the gathered inputs.
    spec fn propagate_multi_spec(&self, inputs: Seq<TensorView>) -> Result<TensorView, ModelError>;

    /// The parameter blob this instance serializes to.
    spec fn multi_blob_spec(&self) -> JsonView;

    /// Apply the transform to the gathered inputs.
    fn propagate_multi(&self, inputs: &Vec<Tensor>) -> (r: Result<Tensor, ModelError>)
        ensures
            match self.propagate_multi_spec(inputs@.map_values(|t: Tensor| t@)) {
                Ok(tv) => r matches Ok(t) && t@ == tv,
                Err(_) => r is Err,
            },
    ;

    /// The parameter blob to store for this instance.
    fn to_json(&self) -> (r: JsonValue)
        ensures
            r@ == self.multi_blob_spec(),
    ;
}

/// The blob of a node that stores an id and two shapes, as the input and
/// concatenation layers do.
pub open spec fn id_shapes_blob_view(id: Seq<char>, features: Shape, size: Shape) -> JsonView {
    JsonView::Obj(seq![
        ("id"@, JsonView::Str(id)),
        ("features"@, shape_blob_view(features)),
        ("size"@, shape_blob_view(size)),
    ])
}

/// The fields read back from an id-and-two-shapes blob, if it is one.
pub open spec fn spec_id_shapes_parse(v: JsonView) -> Option<(Seq<char>, Shape, Shape)> {
    match v {
        JsonView::Obj(pairs) => {
            match (obj_lookup(pairs, "id"@), obj_lookup(pairs, "features"@), obj_lookup(pairs, "size"@)) {
                (Some(JsonView::Str(id)), Some(fv), Some(sv)) => {
                    match (spec_shape_parse(fv), spec_shape_parse(sv)) {
                        (Some(f), Some(z)) => Some((id, f, z)),
                        _ => None,
                    }
                },
                _ => None,
            }
        },
        _ => None,
    }
}

/// Reading back an id-and-two-shapes blob restores its fields.
pub proof fn lemma_id_shapes_blob_roundtrip(id: Seq<char>, features: Shape, size: Shape)
    ensures
        spec_id_shapes_parse(id_shapes_blob_view(id, features, size)) == Some((id, features, size)),
{
    reveal_strlit("id");
    reveal_strlit("features");
    reveal_strlit("size");
    assert("id"@.len() == 2);
    assert("features"@.len() == 8);
    assert("size"@.len() == 4);
    let pairs = seq![
        ("id"@, JsonView::Str(id)),
        ("features"@, shape_blob_view(features)),
        ("size"@, shape_blob_view(size)),
    ];
    assert(obj_lookup(pairs, "id"@) == Some(JsonView::Str(id)));
    let tail = seq![
        ("features"@, shape_blob_view(features)),
        ("size"@, shape_blob_view(size)),
    ];
    let tail2 = seq![("size"@, shape_blob_view(size))];
    assert(pairs.drop_first() =~= tail);
    assert(tail.drop_first() =~= tail2);
    assert(pairs[0].0 != "features"@);
    assert(obj_lookup(pairs, "features"@) == obj_lookup(tail, "features"@));
    assert(tail[0].0 == "features"@);
    assert(obj_lookup(tail, "features"@) == Some(shape_blob_view(features)));
    assert(pairs[0].0 != "size"@);
    assert(tail[0].0 != "size"@);
    assert(obj_lookup(pairs, "size"@) == obj_lookup(tail, "size"@));
    assert(obj_lookup(tail, "size"@) == obj_lookup(tail2, "size"@));
    assert(tail2[0].0 == "size"@);
    assert(obj_lookup(tail2, "size"@) == Some(shape_blob_view(size)));
    lemma_shape_blob_roundtrip(features);
    lemma_shape_blob_roundtrip(size);
}

/// Build the blob of a node that stores an id and two shapes.
pub fn id_shapes_to_json(id: &String, features: &Shape, size: &Shape) -> (r: JsonValue)
    ensures
        r@ == id_shapes_blob_view(id@, *features, *size),
{
    let mut pairs: Vec<(String, JsonValue)> = Vec::new();
    pairs.push(("id".to_owned(), JsonValue::Str(id.clone())));
    pairs.push(("features".to_owned(), shape_to_json(features)));
    pairs.push(("size".to_owned(), shape_to_json(size)));
    proof {
        lemma_obj_views_index(pairs@);
        assert(obj_views(pairs@) =~= seq![
            ("id"@, JsonView::Str(id@)),
            ("features"@, shape_blob_view(*features)),
            ("size"@, shape_blob_view(*size)),
        ]);
    }
    JsonValue::Obj(pairs)
}

/// Read an id-and-two-shapes blob back into its fields.
pub fn id_shapes_from_json(v: &JsonValue) -> (r: Option<(String, Shape, Shape)>)
    ensures
        match spec_id_shapes_parse(v@) {
            Some((id, f, z)) => r matches Some(t) && t.0@ == id && t.1 == f && t.2 == z,
            None => r is None,
        },
{
    let id_v = match v.obj_get(&"id".to_owned()) {
        Some(x) => x,
        None => { return None; },
    };
    let id = match id_v.as_str() {
        Some(s) => s.clone(),
        None => { return None; },
    };
    let f_v = match v.obj_get(&"features".to_owned()) {
        Some(x) => x,
        None => { return None; },
    };
    let features = match shape_from_json(f_v) {
        Some(f) => f,
        None => { return None; },
    };
    let s_v = match v.obj_get(&"size".to_owned()) {
        Some(x) => x,
        None => { return None; },
    };
    let size = match shape_from_json(s_v) {
        Some(z) => z,
        None => { return None; },
    };
    Some((id, features, size))
}

/// The pass-through instance of a declared model input.
#[derive(Debug)]
pub struct InputImpl {
    pub id: String,
    pub features: Shape,
    pub size: Shape,
}

impl LayerSingleInput for InputImpl {
    open spec fn propagate_spec(&self, input: TensorView) -> Option<TensorView> {
        Some(input)
    }

    open spec fn blob_spec(&self) -> JsonView {
        id_shapes_blob_view(self.id@, self.features, self.size)
    }

    fn propagate(&self, input: &Tensor) -> (r: Result<Tensor, ModelError>)
        ensures
            match self.propagate_spec(input@) {
                Some(tv) => r matches Ok(t) && t@ == tv,
                None => r is Err,
            },
    {
        Ok(input.clone_tensor())
    }

    fn to_json(&self) -> (r: JsonValue)
        ensures
            r@ == self.blob_spec(),
    {
        id_shapes_to_json(&self.id, &self.features, &self.size)
    }
}

/// The instance that reshapes its input into a single row.
#[derive(Debug)]
pub struct FlattenImpl {
    pub id: String,
}

/// The blob of a node that stores only its id.
pub open spec fn id_blob_view(id: Seq<char>) -> JsonView {
    JsonView::Obj(seq![("id"@, JsonView::Str(id))])
}

/// The id read back from an id-only blob, if it is one.
pub open spec fn spec_id_parse(v: JsonView) -> Option<Seq<char>> {
    match v {
        JsonView::Obj(pairs) => {
            match obj_lookup(pairs, "id"@) {
                Some(JsonView::Str(id)) => Some(id),
                _ => None,
            }
        },
        _ => None,
    }
}

/// Reading back an id-only blob restores the id.
pub proof fn lemma_id_blob_roundtrip(id: Seq<char>)
    ensures
        spec_id_parse(id_blob_view(id)) == Some(id),
{
    let pairs = seq![("id"@, JsonView::Str(id))];
    assert(obj_lookup(pairs, "id"@) == Some(JsonView::Str(id)));
}

/// Read an id-only blob back into its id.
pub fn id_from_json(v: &JsonValue) -> (r: Option<String>)
    ensures
        match spec_id_parse(v@) {
            Some(id) => r matches Some(s) && s@ == id,
            None => r is None,
        },
{
    let id_v = match v.obj_get(&"id".to_owned()) {
        Some(x) => x,
        None => { return None; },
    };
    match id_v.as_str() {
        Some(s) => Some(s.clone()),
        None => None,
    }
}

impl LayerSingleInput for FlattenImpl {
    open spec fn propagate_spec(&self, input: TensorView) -> Option<TensorView> {
        Some(TensorView { width: input.data.len(), height: 1nat, data: input.data })
    }

    open spec fn blob_spec(&self) -> JsonView {
        id_blob_view(self.id@)
    }

    fn propagate(&self, input: &Tensor) -> (r: Result<Tensor, ModelError>)
        ensures
            match self.propagate_spec(input@) {
                Some(tv) => r matches Ok(t) && t@ == tv,
                None => r is Err,
            },
    {
        Ok(input.flattened())
    }

    fn to_json(&self) -> (r: JsonValue)
        ensures
            r@ == self.blob_spec(),
    {
        let mut pairs: Vec<(String, JsonValue)> = Vec::new();
        pairs.push(("id".to_owned(), JsonValue::Str(self.id.clone())));
        proof {
            lemma_obj_views_index(pairs@);
            assert(obj_views(pairs@) =~= seq![("id"@, JsonView::Str(self.id@))]);
        }
        JsonValue::Obj(pairs)
    }
}

/// The instance that concatenates its parents' tensors horizontally.
#[derive(Debug)]
pub struct ConcatImpl {
    pub id: String,
    pub features: Shape,
    pub size: Shape,
}

impl LayerMultiInput for ConcatImpl {
    open spec fn propagate_multi_spec(&self, inputs: Seq<TensorView>) -> Result<TensorView, ModelError> {
        spec_concat_horizontal(inputs)
    }

    open spec fn multi_blob_spec(&self) -> JsonView {
        id_shapes_blob_view(self.id@, self.features, self.size)
    }

    fn propagate_multi(&self, inputs: &Vec<Tensor>) -> (r: Result<Tensor, ModelError>)
        ensures
            match self.propagate_multi_spec(inputs@.map_values(|t: Tensor| t@)) {
                Ok(tv) => r matches Ok(t) && t@ == tv,
                Err(_) => r is Err,
            },
    {
        Tensor::concat_horizontal(inputs)
    }

    fn to_json(&self) -> (r: JsonValue)
        ensures
            r@ == self.multi_blob_spec(),
    {
        id_shapes_to_json(&self.id, &self.features, &self.size)
    }
}

/// A single-input instance of any kind: the library's own pass-through and
/// flatten instances, or an externally supplied one.
#[derive(Debug)]
pub enum SingleInstance<E> {
    Input(InputImpl),
    Flatten(FlattenImpl),
    Ext(E),
}

/// The transform a single-input instance applies.
pub open spec fn si_propagate_spec<E: LayerSingleInput>(
    s: SingleInstance<E>,
    input: TensorView,
) -> Option<TensorView> {
    match s {
        SingleInstance::Input(i) => i.propagate_spec(input),
        SingleInstance::Flatten(f) => f.propagate_spec(input),
        SingleInstance::Ext(e) => e.propagate_spec(input),
    }
}

/// The blob a single-input instance serializes to.
pub open spec fn si_blob_spec<E: LayerSingleInput>(s: SingleInstance<E>) -> JsonView {
    match s {
        SingleInstance::Input(i) => i.blob_spec(),
        SingleInstance::Flatten(f) => f.blob_spec(),
        SingleInstance::Ext(e) => e.blob_spec(),
    }
}

impl<E: LayerSingleInput> SingleInstance<E> {
    /// Apply the instance's transform.
    pub fn propagate(&self, input: &Tensor) -> (r: Result<Tensor, ModelError>)
        ensures
            match si_propagate_spec(*self, input@) {
                Some(tv) => r matches Ok(t) && t@ == tv,
                None => r is Err,
            },
    {
        match self {
            SingleInstance::Input(i) => i.propagate(input),
            SingleInstance::Flatten(f) => f.propagate(input),
            SingleInstance::Ext(e) => e.propagate(input),
        }
    }

    /// The parameter blob to store for this instance.
    pub fn to_json(&self) -> (r: JsonValue)
        ensures
            r@ == si_blob_spec(*self),
    {
        match self {
            SingleInstance::Input(i) => i.to_json(),
            SingleInstance::Flatten(f) => f.to_json(),
            SingleInstance::Ext(e) => e.to_json(),
        }
    }
}

/// A freshly created executable instance, before it is wired to its parent
/// names: single-input or multi-input.
#[derive(Debug)]
pub enum LayerPropagateEnum<E> {
    SingleInput(SingleInstance<E>),
    MultipleInput(ConcatImpl),
}

/// One step of an execution plan: an instance together with where its
/// input comes from.
#[derive(Debug)]
pub enum ModelPropagationNode<E> {
    DeadEnd(SingleInstance<E>),
    SingleInput(String, SingleInstance<E>),
    MultipleInput(Vec<String>, ConcatImpl),
}

impl<E: LayerSingleInput> ModelPropagationNode<E> {
    /// The parameter blob to store for this node's instance.
    pub fn to_json(&self) -> (r: JsonValue)
        ensures
            r@ == (match self {
                ModelPropagationNode::DeadEnd(s) => si_blob_spec(*s),
                ModelPropagationNode::SingleInput(_, s) => si_blob_spec(*s),
                ModelPropagationNode::MultipleInput(_, c) => c.multi_blob_spec(),
            }),
    {
        match self {
            ModelPropagationNode::DeadEnd(s) => s.to_json(),
            ModelPropagationNode::SingleInput(_, s) => s.to_json(),
            ModelPropagationNode::MultipleInput(_, c) => c.to_json(),
        }
    }
}


/// The inert extension instance: the `E` parameter of models built purely
/// from library-shipped layers. It transforms nothing and never appears
/// in such a model.
#[derive(Debug)]
pub struct NoExtInstance;

impl LayerSingleInput for NoExtInstance {
    open spec fn propagate_spec(&self, input: TensorView) -> Option<TensorView> {
        None
    }

    open spec fn blob_spec(&self) -> JsonView {
        JsonView::Null
    }

    fn propagate(&self, input: &Tensor) -> (r: Result<Tensor, ModelError>) {
        Err(ModelError::DimensionMismatch)
    }

    fn to_json(&self) -> (r: JsonValue) {
        JsonValue::Null
    }
}

} // verus!
