use neurotick::arena::Concat;
use neurotick::arena::Flatten;
use neurotick::arena::Input;
use neurotick::arena::Layer;
use neurotick::arena::LayerArena;
use neurotick::arena::NoExtLayer;
use neurotick::builder::ModelBuilder;
use neurotick::errors::ModelError;
use neurotick::layers::LayerPropagateEnum;
use neurotick::layers::LayerSingleInput;
use neurotick::layers::NoExtInstance;
use neurotick::layers::SingleInstance;
use neurotick::model::Model;
use neurotick::node::LayerRef;
use neurotick::node::LayerType;
use neurotick::shape::Shape;
use neurotick::strmap::StrMap;
use neurotick::tensor::Tensor;

fn constant_tensor(width: usize, height: usize, value: f32) -> Tensor {
    Tensor::constant(width, height, value.to_bits()).unwrap()
}

#[test]
fn flatten_full_const_layer_test() {
    let mut arena: LayerArena<NoExtLayer> = LayerArena::new();
    let input = Input::new(&mut arena, Shape::Const(3), Shape::Const(2));
    let flatten = Flatten::new(&mut arena, input).unwrap();
    let mb = ModelBuilder::from_straight(&arena, input, flatten).unwrap();
    let model: Model<NoExtInstance> = mb.build(&arena).unwrap();

    let input_data = constant_tensor(3, 2, 1.0);
    let output_data = model.propagate_single(input_data).unwrap();
    assert!(output_data.width() == 6 && output_data.height() == 1);
}

#[test]
fn flatten_const_variable_layer_test() {
    let mut arena: LayerArena<NoExtLayer> = LayerArena::new();
    let input = Input::new(&mut arena, Shape::Const(3), Shape::Variable);
    let flatten = Flatten::new(&mut arena, input).unwrap();

    let (feat, size) = arena.get_shape(flatten);
    assert!(matches!(feat, Shape::Variable) && size.unwrap_to_conts() == Ok(1));

    let mb = ModelBuilder::from_straight(&arena, input, flatten).unwrap();
    let model: Model<NoExtInstance> = mb.build(&arena).unwrap();

    let input_data = constant_tensor(3, 3, 1.0);
    let output_data = model.propagate_single(input_data).unwrap();
    assert!(output_data.width() == 9 && output_data.height() == 1);
}

#[test]
fn flatten_full_variable_layer_test() {
    let mut arena: LayerArena<NoExtLayer> = LayerArena::new();
    let input = Input::new(&mut arena, Shape::Variable, Shape::Variable);
    let flatten = Flatten::new(&mut arena, input).unwrap();

    let (feat, size) = arena.get_shape(flatten);
    assert!(matches!(feat, Shape::Variable) && size.unwrap_to_conts() == Ok(1));

    // instantiating a flatten layer forces its parent's feature count to
    // a constant; a fully variable parent is rejected as a typed error
    let mb = ModelBuilder::from_straight(&arena, input, flatten).unwrap();
    let r: Result<Model<NoExtInstance>, ModelError> = mb.build(&arena);
    assert!(matches!(r, Err(ModelError::ShapeError)));
}

#[test]
fn concat_layer_test() {
    let mut arena: LayerArena<NoExtLayer> = LayerArena::new();
    let input_1 = Input::new(&mut arena, Shape::Const(3), Shape::Const(2));
    let input_2 = Input::new(&mut arena, Shape::Const(5), Shape::Const(2));
    let concat = Concat::new(&mut arena, vec![input_1, input_2]).unwrap();

    let inputs = vec![
        (input_1, "1".to_string()),
        (input_2, "2".to_string()),
    ];
    let outputs = vec![(concat, ModelBuilder::single_io().to_string())];
    let mb = ModelBuilder::from(&arena, inputs, outputs).unwrap();
    let model: Model<NoExtInstance> = mb.build(&arena).unwrap();

    let mut input_map: StrMap<Tensor> = StrMap::new();
    input_map.insert("1".to_string(), constant_tensor(3, 2, 1.0));
    input_map.insert("2".to_string(), constant_tensor(5, 2, -1.0));

    let output_data = model.propagate_single_output(&input_map).unwrap();
    assert!(output_data.width() == 8 && output_data.height() == 2);

    // row-major layout: each row holds the first source's cells, then the
    // second's
    for row in 0..2 {
        for col in 0..8 {
            let expected = if col < 3 { 1.0f32 } else { -1.0f32 };
            assert_eq!(output_data.cell(row, col), expected.to_bits());
        }
    }
}

#[test]
fn concat_exact_cells() {
    let mut arena: LayerArena<NoExtLayer> = LayerArena::new();
    let a = Input::new(&mut arena, Shape::Const(2), Shape::Const(2));
    let b = Input::new(&mut arena, Shape::Const(1), Shape::Const(2));
    let concat = Concat::new(&mut arena, vec![a, b]).unwrap();

    let inputs = vec![(a, "a".to_string()), (b, "b".to_string())];
    let outputs = vec![(concat, "out".to_string())];
    let mb = ModelBuilder::from(&arena, inputs, outputs).unwrap();
    let model: Model<NoExtInstance> = mb.build(&arena).unwrap();

    let ta = Tensor::from_raw_vec(2, 2, vec![1, 2, 3, 4]).unwrap();
    let tb = Tensor::from_raw_vec(1, 2, vec![5, 6]).unwrap();
    let mut input_map: StrMap<Tensor> = StrMap::new();
    input_map.insert("a".to_string(), ta);
    input_map.insert("b".to_string(), tb);

    let out = model.propagate(&input_map).unwrap();
    let t = out.get(&"out".to_string()).unwrap();
    assert_eq!(t.cells(), vec![1, 2, 5, 3, 4, 6]);
}

#[test]
fn naming_is_deterministic() {
    let mut arena: LayerArena<NoExtLayer> = LayerArena::new();
    let input = Input::new(&mut arena, Shape::Const(3), Shape::Const(2));
    let flatten = Flatten::new(&mut arena, input).unwrap();

    let mb1 = ModelBuilder::from_straight(&arena, input, flatten).unwrap();
    let m1: Model<NoExtInstance> = mb1.build(&arena).unwrap();
    let mb2 = ModelBuilder::from_straight(&arena, input, flatten).unwrap();
    let m2: Model<NoExtInstance> = mb2.build(&arena).unwrap();

    assert_eq!(m1.builder_ref.len(), 2);
    assert_eq!(m2.builder_ref.len(), 2);
    assert_eq!(m1.builder_ref.key_at(0), "Input_0");
    assert_eq!(m1.builder_ref.key_at(1), "Flatten_1");
    assert_eq!(m2.builder_ref.key_at(0), "Input_0");
    assert_eq!(m2.builder_ref.key_at(1), "Flatten_1");
}

#[test]
fn shared_ancestor_named_once() {
    let mut arena: LayerArena<NoExtLayer> = LayerArena::new();
    let input = Input::new(&mut arena, Shape::Const(3), Shape::Const(2));
    let left = Flatten::new(&mut arena, input).unwrap();
    let right = Flatten::new(&mut arena, input).unwrap();
    let concat = Concat::new(&mut arena, vec![left, right]).unwrap();

    let inputs = vec![(input, ModelBuilder::single_io().to_string())];
    let outputs = vec![(concat, ModelBuilder::single_io().to_string())];
    let mb = ModelBuilder::from(&arena, inputs, outputs).unwrap();
    let model: Model<NoExtInstance> = mb.build(&arena).unwrap();

    // four distinct nodes: the shared input appears exactly once
    assert_eq!(model.builder_ref.len(), 4);
    assert_eq!(model.sequential_prop.len(), 4);

    let out = model.propagate_single(constant_tensor(3, 2, 2.0)).unwrap();
    assert!(out.width() == 12 && out.height() == 1);
}

#[test]
fn zero_feature_parent_rejected() {
    let mut arena: LayerArena<NoExtLayer> = LayerArena::new();
    let input = Input::new(&mut arena, Shape::Const(0), Shape::Const(2));
    let flatten = Flatten::new(&mut arena, input).unwrap();
    let mb = ModelBuilder::from_straight(&arena, input, flatten).unwrap();
    let r: Result<Model<NoExtInstance>, ModelError> = mb.build(&arena);
    assert!(matches!(r, Err(ModelError::InvalidLayerShape)));
}

#[test]
fn concat_differing_sizes_rejected() {
    let mut arena: LayerArena<NoExtLayer> = LayerArena::new();
    let a = Input::new(&mut arena, Shape::Const(3), Shape::Const(2));
    let b = Input::new(&mut arena, Shape::Const(5), Shape::Const(3));
    let r = Concat::new(&mut arena, vec![a, b]);
    assert!(matches!(r, Err(ModelError::ShapeError)));
}

#[test]
fn concat_height_mismatch_at_propagation() {
    let mut arena: LayerArena<NoExtLayer> = LayerArena::new();
    let a = Input::new(&mut arena, Shape::Const(3), Shape::Repeat);
    let b = Input::new(&mut arena, Shape::Const(5), Shape::Repeat);
    let concat = Concat::new(&mut arena, vec![a, b]).unwrap();

    let inputs = vec![(a, "a".to_string()), (b, "b".to_string())];
    let outputs = vec![(concat, "out".to_string())];
    let mb = ModelBuilder::from(&arena, inputs, outputs).unwrap();
    let model: Model<NoExtInstance> = mb.build(&arena).unwrap();

    let mut input_map: StrMap<Tensor> = StrMap::new();
    input_map.insert("a".to_string(), constant_tensor(3, 2, 1.0));
    input_map.insert("b".to_string(), constant_tensor(5, 3, 1.0));
    let r = model.propagate(&input_map);
    assert!(matches!(r, Err(ModelError::DimensionMismatch)));
}

#[test]
fn missing_input_rejected() {
    let mut arena: LayerArena<NoExtLayer> = LayerArena::new();
    let input = Input::new(&mut arena, Shape::Const(3), Shape::Const(2));
    let flatten = Flatten::new(&mut arena, input).unwrap();
    let mb = ModelBuilder::from_straight(&arena, input, flatten).unwrap();
    let model: Model<NoExtInstance> = mb.build(&arena).unwrap();

    let empty: StrMap<Tensor> = StrMap::new();
    let r = model.propagate(&empty);
    assert!(matches!(r, Err(ModelError::MissingInput)));
}

#[test]
fn non_source_input_rejected() {
    let mut arena: LayerArena<NoExtLayer> = LayerArena::new();
    let input = Input::new(&mut arena, Shape::Const(3), Shape::Const(2));
    let flatten = Flatten::new(&mut arena, input).unwrap();
    let reflatten = Flatten::new(&mut arena, flatten).unwrap();
    let r = ModelBuilder::from_straight(&arena, flatten, reflatten);
    assert!(matches!(r, Err(ModelError::BadGraphTopology)));
}

// An externally defined layer: widens each row to a declared feature
// count, padding new cells with zero.
struct WidenDef {
    parent: LayerRef,
    out_features: usize,
}

struct WidenInst {
    out_features: usize,
}

impl Layer<WidenInst> for WidenDef {
    fn type_tag(&self) -> String {
        "Widen".to_string()
    }

    fn get_node(&self) -> LayerType {
        LayerType::SingleParent(self.parent)
    }

    fn get_shape(&self) -> (Shape, Shape) {
        (Shape::Const(self.out_features), Shape::Repeat)
    }

    fn create_instance(&self, _name: &String)
        -> Result<LayerPropagateEnum<WidenInst>, ModelError> {
        Ok(LayerPropagateEnum::SingleInput(SingleInstance::Ext(WidenInst {
            out_features: self.out_features,
        })))
    }
}

impl LayerSingleInput for WidenInst {
    // ghost members of the verified trait; never executed
    fn propagate_spec(
        &self,
        _input: neurotick::tensor::TensorView,
    ) -> Option<neurotick::tensor::TensorView> {
        None
    }

    fn blob_spec(&self) -> neurotick::jsonval::JsonView {
        neurotick::jsonval::JsonView::Null
    }

    fn propagate(&self, input: &Tensor) -> Result<Tensor, ModelError> {
        let w = input.width();
        let h = input.height();
        let cells = input.cells();
        let mut out: Vec<u32> = Vec::new();
        for row in 0..h {
            for col in 0..self.out_features {
                if col < w {
                    out.push(cells[row * w + col]);
                } else {
                    out.push(0);
                }
            }
        }
        Tensor::from_raw_vec(self.out_features, h, out)
    }

    fn to_json(&self) -> neurotick::jsonval::JsonValue {
        neurotick::jsonval::JsonValue::Num(self.out_features as u64)
    }
}

#[test]
fn source_feeding_transform() {
    let mut arena: LayerArena<WidenDef> = LayerArena::new();
    let input = Input::new(&mut arena, Shape::Const(3), Shape::Const(2));
    let widen = arena
        .add_ext(WidenDef { parent: input, out_features: 4 })
        .unwrap();
    let mb = ModelBuilder::from_straight(&arena, input, widen).unwrap();
    let model: Model<WidenInst> = mb.build(&arena).unwrap();

    let out = model.propagate_single(constant_tensor(3, 2, 1.0)).unwrap();
    assert!(out.width() == 4 && out.height() == 2);
    for row in 0..2 {
        for col in 0..4 {
            let expected = if col < 3 { 1.0f32.to_bits() } else { 0 };
            assert_eq!(out.cell(row, col), expected);
        }
    }
}
