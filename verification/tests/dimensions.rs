use gguf_swiss::dimensions::TensorDimensions;

#[test]
fn tensor_dimensions_count() {
    let dimensions = TensorDimensions([1, 2, 0, 0]);
    assert_eq!(dimensions.count(), 2);

    let dimensions = TensorDimensions([1, 2, 3, 4]);
    assert_eq!(dimensions.count(), 4);

    let dimensions = TensorDimensions([0, 0, 0, 0]);
    assert_eq!(dimensions.count(), 0);
}

#[test]
fn tensor_dimensions_total() {
    let dimensions = TensorDimensions([2, 4, 0, 0]);
    assert_eq!(dimensions.total(), 8);

    let dimensions = TensorDimensions([1, 2, 3, 4]);
    assert_eq!(dimensions.total(), 24);

    let dimensions = TensorDimensions([0, 0, 0, 0]);
    assert_eq!(dimensions.total(), 0);
}
