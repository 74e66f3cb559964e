use maku::{CpuBackend, DType, NodeId, PropertyId, TensorDesc, ValueId};

#[test]
fn ids_compare_by_value() {
    assert_eq!(ValueId(3), ValueId(3));
    assert_ne!(NodeId(1), NodeId(2));
}

#[test]
fn tensor_desc_keeps_its_shape() {
    let d = TensorDesc { dtype: DType::F32, shape: vec![2, 3] };
    assert_eq!(d.clone().shape, vec![2, 3]);
    assert_eq!(d.dtype, DType::F32);
}

#[test]
fn property_id_names_node_and_key() {
    let p = PropertyId::new(12, "a");
    assert_eq!(p, PropertyId { node_id: 12, key: "a".to_string() });
}

#[test]
fn backend_constructs() {
    let _backend = CpuBackend::new();
}
