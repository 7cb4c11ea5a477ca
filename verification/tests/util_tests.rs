use neurotick::errors::ModelError;
use neurotick::extensions::distinct_values;
use neurotick::extensions::eq_vecs;
use neurotick::namegen::make_node_name;
use neurotick::namegen::usize_to_dec;
use neurotick::shape::Shape;
use neurotick::shape::ShapeError;
use neurotick::strmap::StrMap;
use neurotick::tensor::Tensor;

#[test]
fn test_distinct() {
    let vec_original: Vec<usize> = vec![2, 3, 4, 4, 6, 7, 8, 1, 2];
    let vec_distinct = distinct_values(&vec_original);
    assert_eq!(vec_distinct, vec![2, 3, 4, 6, 7, 8, 1]);
}

#[test]
fn test_eq_vecs() {
    let a: Vec<u32> = vec![1, 2, 3];
    let b: Vec<u32> = vec![1, 2, 3];
    let c: Vec<u32> = vec![1, 2, 4];
    let d: Vec<u32> = vec![1, 2];
    assert!(eq_vecs(&a, &b));
    assert!(!eq_vecs(&a, &c));
    assert!(!eq_vecs(&a, &d));
}

#[test]
fn test_shape_unwrap() {
    assert_eq!(Shape::Const(5).unwrap_to_conts(), Ok(5));
    assert_eq!(Shape::Repeat.unwrap_to_conts(), Err(ShapeError));
    assert_eq!(Shape::Variable.unwrap_to_conts(), Err(ShapeError));
}

#[test]
fn test_decimal_rendering() {
    assert_eq!(usize_to_dec(0), "0");
    assert_eq!(usize_to_dec(10), "10");
    assert_eq!(usize_to_dec(12345), "12345");
}

#[test]
fn test_node_name_format() {
    let name = make_node_name(&"Dense".to_string(), 7);
    assert_eq!(name, "Dense_7");
    let name2 = make_node_name(&"Input".to_string(), 0);
    assert_eq!(name2, "Input_0");
}

#[test]
fn test_strmap_order_and_overwrite() {
    let mut m: StrMap<u32> = StrMap::new();
    m.insert("b".to_string(), 1);
    m.insert("a".to_string(), 2);
    m.insert("b".to_string(), 3);
    assert_eq!(m.len(), 2);
    assert_eq!(m.key_at(0), "b");
    assert_eq!(m.key_at(1), "a");
    assert_eq!(m.get(&"b".to_string()), Some(&3));
    assert_eq!(m.get(&"a".to_string()), Some(&2));
    assert_eq!(m.get(&"c".to_string()), None);
}

#[test]
fn test_error_kind_names() {
    assert_eq!(ModelError::UnsupportedType("X".to_string()).kind_name(), "UnsupportedType");
    assert_eq!(ModelError::BadGraphTopology.kind_name(), "BadGraphTopology");
    assert_eq!(ModelError::InvalidLayerShape.kind_name(), "InvalidLayerShape");
    assert_eq!(ModelError::DimensionMismatch.kind_name(), "DimensionMismatch");
}

#[test]
fn test_from_raw_vec() {
    let values: Vec<f32> = vec![1., 2., 3., 4., 5., 6.];
    let bits: Vec<u32> = values.iter().map(|f| f.to_bits()).collect();
    let a = Tensor::from_raw_vec(3, 2, bits.clone()).unwrap();
    assert_eq!(a.cells(), bits);
    for row in 0..2 {
        for col in 0..3 {
            assert_eq!(a.cell(row, col), bits[row * 3 + col]);
        }
    }
    // a cell count that does not match the dimensions is refused
    assert!(Tensor::from_raw_vec(4, 2, bits).is_err());
}
