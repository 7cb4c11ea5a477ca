use neurotick::arena::Flatten;
use neurotick::arena::Input;
use neurotick::arena::LayerArena;
use neurotick::arena::NoExtLayer;
use neurotick::builder::ModelBuilder;
use neurotick::errors::ModelError;
use neurotick::jsonval::JsonValue;
use neurotick::layers::LayerPropagateEnum;
use neurotick::layers::NoExtInstance;
use neurotick::layers::SingleInstance;
use neurotick::model::Model;
use neurotick::serial::ModelReader;
use neurotick::shape::Shape;
use neurotick::strmap::StrMap;
use neurotick::tensor::MatrixPack;
use neurotick::tensor::Tensor;

#[test]
fn serialize_weight() {
    let values: Vec<f32> = vec![1.5, -2.25, 0.0, 3.75, 100.125, -0.001];
    let bits: Vec<u32> = values.iter().map(|f| f.to_bits()).collect();
    let pre = Tensor::from_raw_vec(3, 2, bits.clone()).unwrap();
    let pack = pre.pack();
    assert_eq!(pack.width, 3);
    assert_eq!(pack.height, 2);
    let post = Tensor::unpack(&pack).unwrap();
    assert_eq!(post.width(), 3);
    assert_eq!(post.height(), 2);
    assert_eq!(post.cells(), bits);
}

#[test]
fn pack_text_is_base64_of_big_endian_cells() {
    let t = Tensor::from_raw_vec(1, 1, vec![1]).unwrap();
    let pack = t.pack();
    // one cell 0x00000001 -> bytes 00 00 00 01 -> unpadded base64
    assert_eq!(pack.data, "AAAAAQ");
}

#[test]
fn unpack_rejects_bad_text() {
    let pack = MatrixPack {
        width: 1,
        height: 1,
        data: "not base64 !!".to_string(),
    };
    assert!(matches!(Tensor::unpack(&pack), Err(ModelError::DimensionMismatch)));

    let wrong_dims = MatrixPack {
        width: 2,
        height: 2,
        data: "AAAAAQ".to_string(),
    };
    assert!(matches!(Tensor::unpack(&wrong_dims), Err(ModelError::DimensionMismatch)));
}

#[test]
fn unregistered_type_fails() {
    let reader = ModelReader::default_reader();
    let r: Result<LayerPropagateEnum<NoExtInstance>, ModelError> = reader
        .get_layer_di()
        .create(&"Bogus".to_string(), &JsonValue::Null, &reader);
    match r {
        Err(ModelError::UnsupportedType(name)) => {
            assert_eq!(name, "Bogus");
        }
        _ => {
            panic!("an unknown type name must be refused");
        }
    }
}

fn const_shape_blob(n: u64) -> JsonValue {
    JsonValue::Obj(vec![("Const".to_string(), JsonValue::Num(n))])
}

#[test]
fn test_default_injector() {
    let test_feature_value: u64 = 3333;
    let reader = ModelReader::default_reader();
    let blob = JsonValue::Obj(vec![
        ("id".to_string(), JsonValue::Str("Input_0".to_string())),
        ("features".to_string(), const_shape_blob(test_feature_value)),
        ("size".to_string(), JsonValue::Str("Repeat".to_string())),
    ]);
    let r: Result<LayerPropagateEnum<NoExtInstance>, ModelError> = reader
        .get_layer_di()
        .create(&"Input".to_string(), &blob, &reader);
    match r {
        Ok(LayerPropagateEnum::SingleInput(SingleInstance::Input(ii))) => {
            assert_eq!(ii.id, "Input_0");
            assert!(matches!(ii.features, Shape::Const(3333)));
            assert!(matches!(ii.size, Shape::Repeat));
        }
        _ => {
            panic!("the registry must rebuild the declared input instance");
        }
    }
}

fn build_small_model() -> (LayerArena<NoExtLayer>, Model<NoExtInstance>) {
    let mut arena: LayerArena<NoExtLayer> = LayerArena::new();
    let input = Input::new(&mut arena, Shape::Const(3), Shape::Repeat);
    let flatten = Flatten::new(&mut arena, input).unwrap();
    let inputs = vec![(input, "input".to_string())];
    let outputs = vec![(flatten, "output".to_string())];
    let mb = ModelBuilder::from(&arena, inputs, outputs).unwrap();
    let model: Model<NoExtInstance> = mb.build(&arena).unwrap();
    (arena, model)
}

#[test]
fn test_small_model_restore() {
    let (_arena, model_pre_serialize) = build_small_model();
    let serialized = model_pre_serialize.to_serialized_model();

    let values: Vec<f32> = vec![0.5, 1.5, 2.5, -3.5, 4.5, -5.5];
    let bits: Vec<u32> = values.iter().map(|f| f.to_bits()).collect();
    let mut input_data: StrMap<Tensor> = StrMap::new();
    input_data.insert(
        "input".to_string(),
        Tensor::from_raw_vec(3, 2, bits.clone()).unwrap(),
    );

    let output_pre = model_pre_serialize.propagate(&input_data).unwrap();

    let reader = ModelReader::default_reader();
    let model_post_serialize: Model<NoExtInstance> =
        serialized.build_model(&reader).unwrap();
    let output_post = model_post_serialize.propagate(&input_data).unwrap();

    let pre = output_pre.get(&"output".to_string()).unwrap();
    let post = output_post.get(&"output".to_string()).unwrap();
    assert_eq!(pre.cells(), post.cells());
    assert_eq!(pre.width(), post.width());
    assert_eq!(pre.height(), post.height());
    assert_eq!(post.width(), 6);
    assert_eq!(post.height(), 1);
    assert_eq!(post.cells(), bits);
}

#[test]
fn serialized_structure_matches_model() {
    let (_arena, model) = build_small_model();
    let s = model.to_serialized_model();

    assert_eq!(s.meta.meta.len(), 2);
    assert_eq!(s.graph.graph.len(), 2);
    assert_eq!(s.graph.graph.key_at(0), "Input_0");
    assert_eq!(s.graph.graph.key_at(1), "Flatten_1");
    assert_eq!(s.meta.meta.key_at(0), "Input_0");
    assert_eq!(s.meta.meta.key_at(1), "Flatten_1");
    assert_eq!(s.graph.graph.val_at(0).layer_name(), "Input_0");
    assert_eq!(s.graph.graph.val_at(0).type_tag(), "Input");
    assert_eq!(s.graph.graph.val_at(1).type_tag(), "Flatten");
    assert_eq!(s.io.inputs.get(&"Input_0".to_string()), Some(&"input".to_string()));
    assert_eq!(s.io.outputs.get(&"Flatten_1".to_string()), Some(&"output".to_string()));
}

#[test]
fn inject_activation() {
    let reader = ModelReader::default_reader();
    let injector = reader.get_activation_di();
    let rebuilt: Result<neurotick::activation::NoneAct, ModelError> =
        injector.create(&"NoneAct".to_string(), &JsonValue::Null, &reader);
    assert!(rebuilt.is_ok());

    let missing: Result<neurotick::activation::NoneAct, ModelError> =
        injector.create(&"ReLu".to_string(), &JsonValue::Null, &reader);
    assert!(matches!(missing, Err(ModelError::UnsupportedType(_))));
}
