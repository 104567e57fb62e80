use gguf_swiss::dimensions::TensorDimensions;
use gguf_swiss::error::PackFault;
use gguf_swiss::header::TensorType;
use gguf_swiss::numeric::{
    convert_values, encode_values_f16, encode_values_f32, narrow_values, read_source_scalars,
    widen_all, widen_bf16, write_padding, write_scalars, ConvertTensorInfo,
};
use gguf_swiss::safetensors::{StHeader, StTensorInfo};

fn narrow(bits: u32) -> u16 {
    half::f16::from_f32(f32::from_bits(bits)).to_bits()
}

#[test]
fn widening_agrees_with_the_half_crate_on_every_pattern() {
    for bits in 0..=u16::MAX {
        let expected = half::bf16::from_bits(bits).to_f32().to_bits();
        assert_eq!(widen_bf16(bits), expected, "{:#06x}", bits);
    }
}

#[test]
fn widening_puts_the_bits_on_top() {
    assert_eq!(widen_bf16(0x3f80), 0x3f80_0000);
    assert_eq!(f32::from_bits(widen_bf16(0x3f80)), 1.0);
    assert_eq!(f32::from_bits(widen_bf16(0xc000)), -2.0);
    assert_eq!(widen_bf16(0x7f80), 0x7f80_0000);
    assert_eq!(widen_bf16(0x7f81), 0x7fc1_0000);
    assert_eq!(widen_bf16(0xffc1), 0xffc1_0000);
}

#[test]
fn brain_floats_become_halves_as_the_half_crate_rounds() {
    let values = [
        half::bf16::from_f32(0.0),
        half::bf16::from_f32(1.0),
        half::bf16::from_f32(-1.0),
        half::bf16::MAX,
        half::bf16::MIN_POSITIVE_SUBNORMAL,
        half::bf16::from_f32(65504.0),
        half::bf16::from_f32(0.333),
        half::bf16::NEG_INFINITY,
    ];
    let mut source = Vec::new();
    let mut expected = Vec::new();
    for value in values {
        source.extend(value.to_le_bytes());
        expected.extend(half::f16::from_f32(value.to_f32()).to_le_bytes());
    }
    let scalars = widen_all(&source);
    assert_eq!(scalars.len(), values.len());
    let data = convert_values(TensorType::F16, &scalars, &narrow).unwrap();
    assert_eq!(data, expected);
    // The largest brain float is out of the range of halves, the smallest is below it.
    assert_eq!(&data[6..8], &half::f16::INFINITY.to_le_bytes());
    assert_eq!(&data[8..10], &[0, 0]);
    assert_eq!(&data[0..6], &[0, 0, 0x00, 0x3c, 0x00, 0xbc]);
}

#[test]
fn brain_floats_become_singles_exactly() {
    let values = [0.0f32, 1.0, -1.0, 3.140625, f32::INFINITY];
    let mut source = Vec::new();
    let mut expected = Vec::new();
    for value in values {
        source.extend(half::bf16::from_f32(value).to_le_bytes());
        expected.extend(half::bf16::from_f32(value).to_f32().to_le_bytes());
    }
    let scalars = widen_all(&source);
    assert_eq!(convert_values(TensorType::F32, &scalars, &narrow), Some(expected.clone()));
    assert_eq!(encode_values_f32(&scalars), expected);
    assert_eq!(convert_values(TensorType::Q4_0, &scalars, &narrow), None);
    assert_eq!(convert_values(TensorType::I8, &scalars, &narrow), None);
}

#[test]
fn values_are_laid_out_little_endian() {
    assert_eq!(encode_values_f16(&vec![0x3c00, 0x0102]), vec![0x00, 0x3c, 0x02, 0x01]);
    assert_eq!(
        encode_values_f32(&vec![0x3f80_0000, 0x0102_0304]),
        vec![0, 0, 0x80, 0x3f, 4, 3, 2, 1]
    );
    assert_eq!(narrow_values(&vec![0x3f80_0000, 0xbf80_0000], &narrow), vec![0x3c00, 0xbc00]);
    assert_eq!(widen_all(&[0x80, 0x3f, 0x00, 0xc0, 0x55]), vec![0x3f80_0000, 0xc000_0000]);
}

#[test]
fn padding_fills_up_to_the_boundary() {
    let mut out = vec![1u8; 5];
    assert_eq!(write_padding(&mut out), 32);
    assert_eq!(out.len(), 32);
    assert!(out[5..].iter().all(|byte| *byte == 0));
    assert_eq!(write_padding(&mut out), 32);
    assert_eq!(out.len(), 32);
    let mut out = Vec::new();
    assert_eq!(write_padding(&mut out), 0);
    assert!(out.is_empty());
}

fn conversion(name: &str, source: &str, dimensions: [u64; 4], offset: u64) -> ConvertTensorInfo {
    ConvertTensorInfo {
        name: name.to_string(),
        source: source.to_string(),
        dimensions: TensorDimensions(dimensions),
        offset,
        ty: TensorType::F16,
    }
}

#[test]
fn payloads_land_at_their_offsets() {
    let mut out = vec![9u8; 40];
    let tensor = conversion("t", "s", [2, 0, 0, 0], 32);
    assert_eq!(write_scalars(&mut out, 32, &tensor, &vec![1, 2, 3, 4]), Ok(()));
    assert_eq!(out.len(), 68);
    assert!(out[40..64].iter().all(|byte| *byte == 0));
    assert_eq!(&out[64..], &[1, 2, 3, 4]);

    let mut out = vec![9u8; 40];
    let error = write_scalars(&mut out, 32, &conversion("t", "s", [2, 0, 0, 0], 64), &vec![1])
        .unwrap_err();
    assert_eq!(error.fault, PackFault::LayoutInvariantViolation);
    assert_eq!(error.item, "t");
    let mut out = vec![9u8; 40];
    let error = write_scalars(&mut out, u64::MAX, &conversion("t", "s", [2, 0, 0, 0], 64), &vec![1])
        .unwrap_err();
    assert_eq!(error.fault, PackFault::LayoutInvariantViolation);
}

fn source_header(data_type: &str, shape: Vec<u64>, offsets: [u64; 2]) -> StHeader {
    StHeader {
        entries: vec![(
            "s".to_string(),
            StTensorInfo { data_type: data_type.to_string(), data_offsets: offsets, data_shape: shape },
        )],
        data_start: 4,
    }
}

#[test]
fn source_scalars_are_read_and_widened() {
    let file = [0xee, 0xee, 0xee, 0xee, 0xaa, 0xaa, 0x80, 0x3f, 0x00, 0x40, 0xbb];
    let header = source_header("BF16", vec![2], [2, 6]);
    let tensor = conversion("t", "s", [2, 0, 0, 0], 0);
    assert_eq!(
        read_source_scalars(&file, &header, &tensor),
        Ok(vec![0x3f80_0000, 0x4000_0000])
    );
}

#[test]
fn source_faults_are_told_apart() {
    let file = [0u8; 20];
    let fault = |header: &StHeader, tensor: &ConvertTensorInfo| {
        let error = read_source_scalars(&file, header, tensor).unwrap_err();
        assert_eq!(error.item, tensor.name);
        error.fault
    };
    let good = source_header("BF16", vec![2, 3], [0, 12]);
    assert!(read_source_scalars(&file, &good, &conversion("t", "s", [3, 2, 0, 0], 0)).is_ok());
    // The shapes differ but hold as many scalars.
    assert!(read_source_scalars(&file, &good, &conversion("t", "s", [6, 0, 0, 0], 0)).is_ok());
    assert_eq!(fault(&good, &conversion("t", "other", [3, 2, 0, 0], 0)), PackFault::MissingTensor);
    assert_eq!(
        fault(&source_header("BF16", vec![1, 1, 1, 1, 6], [0, 12]), &conversion("t", "s", [6, 0, 0, 0], 0)),
        PackFault::TooManyDimensions
    );
    assert_eq!(
        fault(&source_header("F16", vec![2, 3], [0, 12]), &conversion("t", "s", [3, 2, 0, 0], 0)),
        PackFault::UnsupportedSourceType
    );
    assert_eq!(fault(&good, &conversion("t", "s", [3, 3, 0, 0], 0)), PackFault::ShapeMismatch);
    assert_eq!(
        fault(&source_header("BF16", vec![2, 3], [0, 10]), &conversion("t", "s", [3, 2, 0, 0], 0)),
        PackFault::SizeMismatch
    );
    assert_eq!(
        fault(&source_header("BF16", vec![2, 3], [12, 0]), &conversion("t", "s", [3, 2, 0, 0], 0)),
        PackFault::SizeMismatch
    );
    assert_eq!(
        fault(&source_header("BF16", vec![2, 3], [5, 17]), &conversion("t", "s", [3, 2, 0, 0], 0)),
        PackFault::TruncatedSource
    );
    assert_eq!(
        fault(
            &source_header("BF16", vec![2], [0, 4]),
            &conversion("t", "s", [1 << 40, 1 << 40, 0, 0], 0)
        ),
        PackFault::TensorTooLarge
    );
}
