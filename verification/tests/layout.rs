use gguf_swiss::dimensions::{TensorDimensions, TooManyDimensions};
use gguf_swiss::layout::{advance_offset, align_offset, checked_align_offset, padding_for};

#[test]
fn align_offset_rounds_up_to_32() {
    assert_eq!(align_offset(0), 0);
    assert_eq!(align_offset(1), 32);
    assert_eq!(align_offset(8), 32);
    assert_eq!(align_offset(31), 32);
    assert_eq!(align_offset(32), 32);
    assert_eq!(align_offset(33), 64);
    assert_eq!(align_offset(u64::MAX - 31), u64::MAX - 31);
}

#[test]
fn checked_align_offset_knows_the_end_of_the_range() {
    assert_eq!(checked_align_offset(33), Some(64));
    assert_eq!(checked_align_offset(u64::MAX - 31), Some(u64::MAX - 31));
    assert_eq!(checked_align_offset(u64::MAX - 30), None);
    assert_eq!(checked_align_offset(u64::MAX), None);
}

#[test]
fn padding_brings_a_position_to_the_boundary() {
    for position in 0..200u64 {
        let padding = padding_for(position);
        assert!(padding < 32);
        assert_eq!((position + padding) % 32, 0);
        assert_eq!(position + padding, align_offset(position));
    }
}

#[test]
fn offsets_are_aligned_and_do_not_overlap() {
    let sizes = [8u64, 0, 32, 33, 1, 1000, 64, 31];
    let mut offsets = Vec::new();
    let mut cursor = 0u64;
    for size in sizes {
        offsets.push(cursor);
        cursor = advance_offset(cursor, size).unwrap();
    }
    assert_eq!(offsets, vec![0, 32, 32, 64, 128, 160, 1184, 1248]);
    assert_eq!(cursor, 1280);
    for index in 0..sizes.len() {
        assert_eq!(offsets[index] % 32, 0);
        if index + 1 < sizes.len() {
            assert!(offsets[index + 1] >= offsets[index] + sizes[index]);
        }
    }
}

#[test]
fn advance_offset_refuses_what_does_not_fit() {
    assert_eq!(advance_offset(u64::MAX - 31, 0), Some(u64::MAX - 31));
    assert_eq!(advance_offset(u64::MAX - 31, 1), None);
    assert_eq!(advance_offset(32, u64::MAX), None);
}

#[test]
fn width_last_shapes_are_reversed() {
    assert_eq!(TensorDimensions::from_width_last(&[]), Ok(TensorDimensions([0, 0, 0, 0])));
    assert_eq!(TensorDimensions::from_width_last(&[4]), Ok(TensorDimensions([4, 0, 0, 0])));
    assert_eq!(TensorDimensions::from_width_last(&[2, 3]), Ok(TensorDimensions([3, 2, 0, 0])));
    assert_eq!(
        TensorDimensions::from_width_last(&[5, 6, 7, 8]),
        Ok(TensorDimensions([8, 7, 6, 5]))
    );
    assert_eq!(
        TensorDimensions::from_width_last(&[1, 2, 3, 4, 5]),
        Err(TooManyDimensions { count: 5 })
    );
}

#[test]
fn translation_there_and_back_gives_the_shape() {
    let shapes: [&[u64]; 5] = [&[], &[7], &[2, 3], &[2, 3, 5], &[9, 8, 7, 6]];
    for shape in shapes {
        let dimensions = TensorDimensions::from_width_last(shape).unwrap();
        assert_eq!(dimensions.count(), shape.len());
        assert_eq!(dimensions.to_width_last(), shape.to_vec());
        assert_eq!(
            TensorDimensions::from_width_last(&dimensions.to_width_last()),
            Ok(dimensions)
        );
    }
}

#[test]
fn total_is_the_product_of_the_dimensions_in_use() {
    assert_eq!(TensorDimensions([7, 0, 0, 0]).total(), 7);
    assert_eq!(TensorDimensions([7, 0, 5, 0]).total(), 7);
    assert_eq!(TensorDimensions([2, 3, 5, 0]).total(), 30);
    assert_eq!(TensorDimensions([2, 3, 5, 7]).checked_total(), Some(210));
    assert_eq!(TensorDimensions([1 << 32, 1 << 31, 0, 0]).checked_total(), Some(1 << 63));
    assert_eq!(TensorDimensions([1 << 32, 1 << 32, 0, 0]).checked_total(), None);
    assert_eq!(TensorDimensions([u64::MAX, 1, 1, 2]).checked_total(), None);
}

#[test]
fn dimensions_are_written_in_brackets() {
    assert_eq!(TensorDimensions([0, 0, 0, 0]).to_text(), "[]");
    assert_eq!(TensorDimensions([3, 0, 0, 0]).to_text(), "[3]");
    assert_eq!(TensorDimensions([3, 20, 0, 0]).to_text(), "[3, 20]");
    assert_eq!(TensorDimensions([3, 20, 1, 0]).to_text(), "[3, 20, 1]");
    assert_eq!(TensorDimensions([1, 2, 3, 4]).to_text(), "[1, 2, 3, 4]");
    assert_eq!(TensorDimensions([1, 0, 3, 4]).to_text(), "[1]");
    assert_eq!(TensorDimensions::default(), TensorDimensions([0, 0, 0, 0]));
}
