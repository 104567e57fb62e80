use gguf_swiss::read::metadata::{read_metadata_array, read_metadata_value};
use gguf_swiss::read::primitives::{
    read_bool, read_f32, read_f64, read_i16, read_i32, read_i64, read_i8, read_string, read_u16,
    read_u32, read_u64, read_u8,
};
use gguf_swiss::read::{read_metadata_entry, read_tensor_info};
use gguf_swiss::write::metadata::{write_array, write_metadata_entry, write_metadata_value};
use gguf_swiss::write::primitives::{
    write_bool, write_f32, write_f64, write_i16, write_i32, write_i64, write_i8, write_string,
    write_u16, write_u32, write_u64, write_u8,
};
use gguf_swiss::write::write_tensor_info;
use gguf_swiss::{
    read_header, write_header, ByteReader, Header, HeaderError, HeaderPlace, MetadataArray,
    MetadataType, MetadataValue, ReadError, TensorDimensions, TensorInfo, TensorType, WriteError,
};

#[test]
fn unsigned_scalars_are_little_endian() {
    let mut out = Vec::new();
    write_u8(&mut out, 0xab);
    write_u16(&mut out, 0x1234);
    write_u32(&mut out, 0x89abcdef);
    write_u64(&mut out, 0x0102030405060708);
    assert_eq!(
        out,
        vec![0xab, 0x34, 0x12, 0xef, 0xcd, 0xab, 0x89, 8, 7, 6, 5, 4, 3, 2, 1]
    );
    let mut reader = ByteReader::new(&out);
    assert_eq!(read_u8(&mut reader), Ok(0xab));
    assert_eq!(read_u16(&mut reader), Ok(0x1234));
    assert_eq!(read_u32(&mut reader), Ok(0x89abcdef));
    assert_eq!(read_u64(&mut reader), Ok(0x0102030405060708));
    assert_eq!(reader.remaining_len(), 0);
}

#[test]
fn signed_scalars_are_twos_complement() {
    let mut out = Vec::new();
    write_i8(&mut out, -1);
    write_i16(&mut out, -2);
    write_i32(&mut out, i32::MIN);
    write_i64(&mut out, -0x0102030405060708);
    let mut expected = vec![0xff, 0xfe, 0xff, 0, 0, 0, 0x80];
    expected.extend_from_slice(&(-0x0102030405060708i64).to_le_bytes());
    assert_eq!(out, expected);
    let mut reader = ByteReader::new(&out);
    assert_eq!(read_i8(&mut reader), Ok(-1));
    assert_eq!(read_i16(&mut reader), Ok(-2));
    assert_eq!(read_i32(&mut reader), Ok(i32::MIN));
    assert_eq!(read_i64(&mut reader), Ok(-0x0102030405060708));
}

#[test]
fn signed_scalars_match_std_at_the_edges() {
    for value in [i8::MIN, -1, 0, 1, i8::MAX] {
        let mut out = Vec::new();
        write_i8(&mut out, value);
        assert_eq!(out, value.to_le_bytes());
        assert_eq!(read_i8(&mut ByteReader::new(&out)), Ok(value));
    }
    for value in [i16::MIN, -1, 0, 1, i16::MAX] {
        let mut out = Vec::new();
        write_i16(&mut out, value);
        assert_eq!(out, value.to_le_bytes());
        assert_eq!(read_i16(&mut ByteReader::new(&out)), Ok(value));
    }
    for value in [i32::MIN, -1, 0, 1, i32::MAX] {
        let mut out = Vec::new();
        write_i32(&mut out, value);
        assert_eq!(out, value.to_le_bytes());
        assert_eq!(read_i32(&mut ByteReader::new(&out)), Ok(value));
    }
    for value in [i64::MIN, -1, 0, 1, i64::MAX] {
        let mut out = Vec::new();
        write_i64(&mut out, value);
        assert_eq!(out, value.to_le_bytes());
        assert_eq!(read_i64(&mut ByteReader::new(&out)), Ok(value));
    }
}

#[test]
fn floats_travel_as_bit_patterns() {
    let mut out = Vec::new();
    write_f32(&mut out, 1.5f32.to_bits());
    write_f64(&mut out, (-2.25f64).to_bits());
    let mut expected = 1.5f32.to_le_bytes().to_vec();
    expected.extend_from_slice(&(-2.25f64).to_le_bytes());
    assert_eq!(out, expected);
    let mut reader = ByteReader::new(&out);
    assert_eq!(read_f32(&mut reader).map(f32::from_bits), Ok(1.5));
    assert_eq!(read_f64(&mut reader).map(f64::from_bits), Ok(-2.25));
}

#[test]
fn bools_are_one_byte() {
    let mut out = Vec::new();
    write_bool(&mut out, true);
    write_bool(&mut out, false);
    assert_eq!(out, vec![1, 0]);
    let bytes = [0u8, 1, 2, 255];
    let mut reader = ByteReader::new(&bytes);
    assert_eq!(read_bool(&mut reader), Ok(false));
    assert_eq!(read_bool(&mut reader), Ok(true));
    assert_eq!(read_bool(&mut reader), Ok(true));
    assert_eq!(read_bool(&mut reader), Ok(true));
    assert_eq!(read_bool(&mut reader), Err(ReadError::TruncatedInput));
}

#[test]
fn short_input_is_truncated() {
    assert_eq!(read_u8(&mut ByteReader::new(&[])), Err(ReadError::TruncatedInput));
    assert_eq!(read_u16(&mut ByteReader::new(&[1])), Err(ReadError::TruncatedInput));
    assert_eq!(read_u32(&mut ByteReader::new(&[1, 2, 3])), Err(ReadError::TruncatedInput));
    assert_eq!(read_u64(&mut ByteReader::new(&[0; 7])), Err(ReadError::TruncatedInput));
    assert_eq!(read_i64(&mut ByteReader::new(&[0; 7])), Err(ReadError::TruncatedInput));
}

#[test]
fn strings_are_length_prefixed_bytes() {
    let mut out = Vec::new();
    assert_eq!(write_string(&mut out, b"ab\xff"), Ok(()));
    assert_eq!(out, vec![3, 0, 0, 0, 0, 0, 0, 0, b'a', b'b', 0xff]);
    let mut reader = ByteReader::new(&out);
    assert_eq!(read_string(&mut reader), Ok(b"ab\xff".to_vec()));
    assert_eq!(reader.remaining_len(), 0);
}

#[test]
fn strings_are_bounded() {
    let longest = vec![b'x'; 65535];
    let mut out = Vec::new();
    assert_eq!(write_string(&mut out, &longest), Ok(()));
    assert_eq!(read_string(&mut ByteReader::new(&out)), Ok(longest));

    let too_long = vec![b'x'; 65536];
    let mut out = Vec::new();
    assert_eq!(write_string(&mut out, &too_long), Err(WriteError::OversizedString));
    assert!(out.is_empty());

    let mut raw = 65536u64.to_le_bytes().to_vec();
    raw.extend_from_slice(&too_long);
    assert_eq!(read_string(&mut ByteReader::new(&raw)), Err(ReadError::OversizedString));

    let mut raw = 4u64.to_le_bytes().to_vec();
    raw.extend_from_slice(b"abc");
    assert_eq!(read_string(&mut ByteReader::new(&raw)), Err(ReadError::TruncatedInput));
}

#[test]
fn type_tags_are_the_format_numbers() {
    let kinds = [
        MetadataType::UInt8,
        MetadataType::Int8,
        MetadataType::UInt16,
        MetadataType::Int16,
        MetadataType::UInt32,
        MetadataType::Int32,
        MetadataType::Float32,
        MetadataType::Bool,
        MetadataType::String,
        MetadataType::Array,
        MetadataType::UInt64,
        MetadataType::Int64,
        MetadataType::Float64,
    ];
    for (tag, kind) in kinds.iter().enumerate() {
        assert_eq!(kind.tag(), tag as u32);
        assert_eq!(MetadataType::from_u32(tag as u32), Some(*kind));
    }
    assert_eq!(MetadataType::from_u32(13), None);
    assert_eq!(MetadataType::from_u32(u32::MAX), None);
}

#[test]
fn tensor_type_tags_skip_four_and_five() {
    assert_eq!(TensorType::from_u32(0), Some(TensorType::F32));
    assert_eq!(TensorType::from_u32(1), Some(TensorType::F16));
    assert_eq!(TensorType::from_u32(3), Some(TensorType::Q4_1));
    assert_eq!(TensorType::from_u32(4), None);
    assert_eq!(TensorType::from_u32(5), None);
    assert_eq!(TensorType::from_u32(6), Some(TensorType::Q5_0));
    assert_eq!(TensorType::from_u32(19), Some(TensorType::Count));
    assert_eq!(TensorType::from_u32(20), None);
    for tag in 0..32u32 {
        if let Some(kind) = TensorType::from_u32(tag) {
            assert_eq!(kind.tag(), tag);
        }
    }
}

fn sample_values() -> Vec<MetadataValue> {
    vec![
        MetadataValue::UInt8(200),
        MetadataValue::Int8(-100),
        MetadataValue::UInt16(60000),
        MetadataValue::Int16(-30000),
        MetadataValue::UInt32(4_000_000_000),
        MetadataValue::Int32(-2_000_000_000),
        MetadataValue::Float32(0.1f32.to_bits()),
        MetadataValue::Bool(true),
        MetadataValue::String(b"\xff\x00text".to_vec()),
        MetadataValue::UInt64(u64::MAX),
        MetadataValue::Int64(i64::MIN),
        MetadataValue::Float64(std::f64::consts::PI.to_bits()),
        MetadataValue::Array(MetadataArray::UInt8(vec![1, 2, 3])),
        MetadataValue::Array(MetadataArray::Int8(vec![-1, 2])),
        MetadataValue::Array(MetadataArray::UInt16(vec![1, 65535])),
        MetadataValue::Array(MetadataArray::Int16(vec![-1, 32767])),
        MetadataValue::Array(MetadataArray::UInt32(vec![1, 3, 5])),
        MetadataValue::Array(MetadataArray::Int32(vec![])),
        MetadataValue::Array(MetadataArray::Float32(vec![1.0f32.to_bits()])),
        MetadataValue::Array(MetadataArray::Bool(vec![true, false, true])),
        MetadataValue::Array(MetadataArray::String(vec![b"a".to_vec(), vec![], vec![0x80]])),
        MetadataValue::Array(MetadataArray::UInt64(vec![u64::MAX])),
        MetadataValue::Array(MetadataArray::Int64(vec![i64::MIN, i64::MAX])),
        MetadataValue::Array(MetadataArray::Float64(vec![2.5f64.to_bits()])),
    ]
}

#[test]
fn every_metadata_value_survives_the_round_trip() {
    for value in sample_values() {
        let mut out = vec![0xaa];
        assert_eq!(write_metadata_value(&mut out, &value), Ok(()));
        out.push(0x55);
        let mut reader = ByteReader::new(&out[1..]);
        assert_eq!(read_metadata_value(&mut reader), Ok(value));
        assert_eq!(reader.remaining_len(), 1);
    }
}

#[test]
fn metadata_value_layout_is_tag_then_payload() {
    let mut out = Vec::new();
    write_metadata_value(&mut out, &MetadataValue::UInt32(7)).unwrap();
    assert_eq!(out, vec![4, 0, 0, 0, 7, 0, 0, 0]);

    let mut out = Vec::new();
    let array = MetadataValue::Array(MetadataArray::UInt16(vec![1, 2]));
    write_metadata_value(&mut out, &array).unwrap();
    assert_eq!(
        out,
        vec![9, 0, 0, 0, 2, 0, 0, 0, 2, 0, 0, 0, 0, 0, 0, 0, 1, 0, 2, 0]
    );
}

#[test]
fn metadata_entry_layout_is_key_then_value() {
    let mut out = Vec::new();
    write_metadata_entry(&mut out, "k", &MetadataValue::Bool(true)).unwrap();
    assert_eq!(out, vec![1, 0, 0, 0, 0, 0, 0, 0, b'k', 7, 0, 0, 0, 1]);
    let mut reader = ByteReader::new(&out);
    assert_eq!(
        read_metadata_entry(&mut reader),
        Ok(("k".to_string(), MetadataValue::Bool(true)))
    );
}

#[test]
fn value_kinds_and_lengths() {
    assert_eq!(MetadataValue::Bool(true).ty(), MetadataType::Bool);
    assert_eq!(MetadataValue::String(vec![]).ty(), MetadataType::String);
    let array = MetadataArray::Int64(vec![1, 2, 3]);
    assert_eq!(array.ty(), MetadataType::Int64);
    assert_eq!(array.len(), 3);
    assert_eq!(MetadataValue::Array(array).ty(), MetadataType::Array);
    assert_eq!(MetadataArray::Array(vec![]).len(), 0);
}

#[test]
fn nested_arrays_are_not_written() {
    let nested = MetadataArray::Array(vec![MetadataArray::UInt8(vec![1])]);
    let mut out = Vec::new();
    assert_eq!(write_array(&mut out, &nested), Err(WriteError::NestedArray));
    let mut out = Vec::new();
    assert_eq!(
        write_metadata_entry(&mut out, "k", &MetadataValue::Array(nested)),
        Err(WriteError::NestedArray)
    );
}

fn array_header(tag: u32, length: u64) -> Vec<u8> {
    let mut out = tag.to_le_bytes().to_vec();
    out.extend_from_slice(&length.to_le_bytes());
    out
}

#[test]
fn nested_arrays_are_read_down_to_the_third_level() {
    // An array of one array of one array of two bytes.
    let mut raw = array_header(9, 1);
    raw.extend(array_header(9, 1));
    raw.extend(array_header(0, 2));
    raw.extend([7, 8]);
    let expected = MetadataArray::Array(vec![MetadataArray::Array(vec![MetadataArray::UInt8(
        vec![7, 8],
    )])]);
    assert_eq!(read_metadata_array(&mut ByteReader::new(&raw), 0), Ok(expected));

    // One level more is refused.
    let mut raw = array_header(9, 1);
    raw.extend(array_header(9, 1));
    raw.extend(array_header(9, 1));
    raw.extend(array_header(0, 0));
    assert_eq!(
        read_metadata_array(&mut ByteReader::new(&raw), 0),
        Err(ReadError::ExcessiveDepth)
    );

    // An empty array of arrays at the last level is fine.
    let mut raw = array_header(9, 1);
    raw.extend(array_header(9, 1));
    raw.extend(array_header(9, 0));
    let expected =
        MetadataArray::Array(vec![MetadataArray::Array(vec![MetadataArray::Array(vec![])])]);
    assert_eq!(read_metadata_array(&mut ByteReader::new(&raw), 0), Ok(expected));
    assert_eq!(
        read_metadata_array(&mut ByteReader::new(&raw), 3),
        Err(ReadError::ExcessiveDepth)
    );
}

#[test]
fn arrays_are_bounded() {
    let raw = array_header(0, 524289);
    assert_eq!(
        read_metadata_array(&mut ByteReader::new(&raw), 0),
        Err(ReadError::OversizedArray)
    );
    let mut raw = array_header(0, 524288);
    raw.extend(vec![1u8; 524288]);
    assert_eq!(
        read_metadata_array(&mut ByteReader::new(&raw), 0),
        Ok(MetadataArray::UInt8(vec![1u8; 524288]))
    );
    let raw = array_header(0, 3);
    assert_eq!(
        read_metadata_array(&mut ByteReader::new(&raw), 0),
        Err(ReadError::TruncatedInput)
    );
}

#[test]
fn unknown_type_tags_are_refused() {
    let raw = 13u32.to_le_bytes();
    assert_eq!(
        read_metadata_value(&mut ByteReader::new(&raw)),
        Err(ReadError::InvalidTypeTag(13))
    );
    let raw = array_header(99, 0);
    assert_eq!(
        read_metadata_array(&mut ByteReader::new(&raw), 0),
        Err(ReadError::InvalidTypeTag(99))
    );
}

fn sample_tensor(name: &str, offset: u64) -> TensorInfo {
    TensorInfo {
        name: name.to_string(),
        tensor_type: TensorType::F16,
        dimensions: TensorDimensions([3, 2, 0, 0]),
        offset,
    }
}

#[test]
fn tensor_info_layout() {
    let mut out = Vec::new();
    write_tensor_info(&mut out, &sample_tensor("w", 64)).unwrap();
    let mut expected = vec![1, 0, 0, 0, 0, 0, 0, 0, b'w', 2, 0, 0, 0];
    expected.extend(3u64.to_le_bytes());
    expected.extend(2u64.to_le_bytes());
    expected.extend(1u32.to_le_bytes());
    expected.extend(64u64.to_le_bytes());
    assert_eq!(out, expected);
    assert_eq!(read_tensor_info(&mut ByteReader::new(&out)), Ok(sample_tensor("w", 64)));
}

#[test]
fn tensor_info_faults() {
    let mut raw = vec![1, 0, 0, 0, 0, 0, 0, 0, b'w'];
    raw.extend(5u32.to_le_bytes());
    assert_eq!(
        read_tensor_info(&mut ByteReader::new(&raw)),
        Err(ReadError::TooManyDimensions)
    );

    let mut raw = vec![1, 0, 0, 0, 0, 0, 0, 0, b'w'];
    raw.extend(0u32.to_le_bytes());
    raw.extend(4u32.to_le_bytes());
    raw.extend(0u64.to_le_bytes());
    assert_eq!(
        read_tensor_info(&mut ByteReader::new(&raw)),
        Err(ReadError::InvalidTensorType(4))
    );

    let mut raw = vec![1, 0, 0, 0, 0, 0, 0, 0, 0xff];
    raw.extend(0u32.to_le_bytes());
    assert_eq!(read_tensor_info(&mut ByteReader::new(&raw)), Err(ReadError::InvalidText));
}

fn sample_header() -> Header {
    let mut metadata = Vec::new();
    for (index, value) in sample_values().into_iter().enumerate() {
        metadata.push((format!("key.{}", index), value));
    }
    metadata.push(("general.n\u{e4}me".to_string(), MetadataValue::String(b"x".to_vec())));
    Header {
        metadata,
        tensors: vec![
            sample_tensor("first", 0),
            TensorInfo {
                name: "second".to_string(),
                tensor_type: TensorType::F32,
                dimensions: TensorDimensions([1, 2, 3, 4]),
                offset: 32,
            },
            TensorInfo {
                name: String::new(),
                tensor_type: TensorType::Q8_0,
                dimensions: TensorDimensions([0, 0, 0, 0]),
                offset: u64::MAX,
            },
        ],
    }
}

#[test]
fn header_survives_the_round_trip() {
    let header = sample_header();
    let mut out = Vec::new();
    assert_eq!(write_header(&mut out, &header), Ok(()));
    assert_eq!(&out[..4], b"GGUF");
    assert_eq!(&out[4..8], &3u32.to_le_bytes());
    assert_eq!(&out[8..16], &3u64.to_le_bytes());
    assert_eq!(&out[16..24], &(header.metadata.len() as u64).to_le_bytes());
    out.extend([1, 2, 3]);
    let mut reader = ByteReader::new(&out);
    assert_eq!(read_header(&mut reader), Ok(header.clone()));
    assert_eq!(reader.remaining_len(), 3);
    assert_eq!(header.clone(), sample_header());
    for value in sample_values() {
        assert_eq!(value.clone(), value);
    }
    let nested = MetadataArray::Array(vec![
        MetadataArray::Array(vec![MetadataArray::String(vec![b"x".to_vec()])]),
        MetadataArray::Bool(vec![true]),
    ]);
    assert_eq!(nested.clone(), nested);
}

#[test]
fn empty_header_layout() {
    let mut out = Vec::new();
    write_header(&mut out, &Header::default()).unwrap();
    let mut expected = b"GGUF".to_vec();
    expected.extend(3u32.to_le_bytes());
    expected.extend(0u64.to_le_bytes());
    expected.extend(0u64.to_le_bytes());
    assert_eq!(out, expected);
    assert_eq!(read_header(&mut ByteReader::new(&out)), Ok(Header::default()));
}

fn header_prefix(magic: &[u8], version: u32, tensors: u64, metadata: u64) -> Vec<u8> {
    let mut out = magic.to_vec();
    out.extend(version.to_le_bytes());
    out.extend(tensors.to_le_bytes());
    out.extend(metadata.to_le_bytes());
    out
}

fn preamble(fault: ReadError) -> Result<Header, HeaderError> {
    Err(HeaderError { fault, place: HeaderPlace::Preamble })
}

#[test]
fn header_faults() {
    assert_eq!(read_header(&mut ByteReader::new(b"GGU")), preamble(ReadError::TruncatedInput));
    assert_eq!(
        read_header(&mut ByteReader::new(&header_prefix(b"GGUG", 3, 0, 0))),
        preamble(ReadError::MagicMismatch)
    );
    assert_eq!(
        read_header(&mut ByteReader::new(&header_prefix(b"GGUF", 1, 0, 0))),
        preamble(ReadError::UnsupportedVersion(1))
    );
    assert_eq!(
        read_header(&mut ByteReader::new(&header_prefix(b"GGUF", 4, 0, 0))),
        preamble(ReadError::UnsupportedVersion(4))
    );
    assert_eq!(
        read_header(&mut ByteReader::new(&header_prefix(b"GGUF", 3, 1025, 0))),
        preamble(ReadError::ExcessiveTensorCount)
    );
    assert_eq!(
        read_header(&mut ByteReader::new(&header_prefix(b"GGUF", 3, 0, 1025))),
        preamble(ReadError::ExcessiveMetadataCount)
    );
    assert_eq!(
        read_header(&mut ByteReader::new(&header_prefix(b"GGUF", 3, 1025, 1025))),
        preamble(ReadError::ExcessiveTensorCount)
    );
    assert_eq!(
        read_header(&mut ByteReader::new(b"GGUF\x03\x00")),
        preamble(ReadError::TruncatedInput)
    );
    assert_eq!(
        read_header(&mut ByteReader::new(&header_prefix(b"GGUF", 3, 1, 0))),
        Err(HeaderError { fault: ReadError::TruncatedInput, place: HeaderPlace::TensorInfo(0) })
    );
}

#[test]
fn header_faults_are_placed() {
    let mut header = sample_header();
    header.metadata.truncate(3);
    let mut out = Vec::new();
    write_header(&mut out, &header).unwrap();
    let whole = out.len();

    // The last tensor descriptor loses its last byte.
    assert_eq!(
        read_header(&mut ByteReader::new(&out[..whole - 1])),
        Err(HeaderError { fault: ReadError::TruncatedInput, place: HeaderPlace::TensorInfo(2) })
    );
    // The type tag of the second metadata value names no kind.
    let first_entry = 24 + 8 + "key.0".len() + 4 + 1;
    let tag_at = first_entry + 8 + "key.1".len();
    let mut broken = out.clone();
    broken[tag_at] = 200;
    assert_eq!(
        read_header(&mut ByteReader::new(&broken)),
        Err(HeaderError {
            fault: ReadError::InvalidTypeTag(200),
            place: HeaderPlace::MetadataEntry(1)
        })
    );
    // The key of the first entry is no text.
    let mut broken = out.clone();
    broken[24 + 8] = 0xff;
    assert_eq!(
        read_header(&mut ByteReader::new(&broken)),
        Err(HeaderError { fault: ReadError::InvalidText, place: HeaderPlace::MetadataEntry(0) })
    );
    // Everything after the counts is missing.
    assert_eq!(
        read_header(&mut ByteReader::new(&out[..24])),
        Err(HeaderError { fault: ReadError::TruncatedInput, place: HeaderPlace::MetadataEntry(0) })
    );
}

#[test]
fn both_versions_are_read() {
    assert_eq!(
        read_header(&mut ByteReader::new(&header_prefix(b"GGUF", 2, 0, 0))),
        Ok(Header::default())
    );
    assert_eq!(
        read_header(&mut ByteReader::new(&header_prefix(b"GGUF", 3, 0, 0))),
        Ok(Header::default())
    );
}

#[test]
fn header_with_the_most_entries_survives() {
    let mut header = Header::default();
    for index in 0..1024u64 {
        header.metadata.push((format!("k{}", index), MetadataValue::UInt64(index)));
        header.tensors.push(sample_tensor(&format!("t{}", index), index * 32));
    }
    let mut out = Vec::new();
    write_header(&mut out, &header).unwrap();
    assert_eq!(read_header(&mut ByteReader::new(&out)), Ok(header));
}

#[test]
fn header_with_too_many_entries_is_written_and_refused() {
    let mut header = Header::default();
    for index in 0..1025u64 {
        header.metadata.push((format!("k{}", index), MetadataValue::UInt64(index)));
    }
    let mut out = Vec::new();
    write_header(&mut out, &header).unwrap();
    assert_eq!(
        read_header(&mut ByteReader::new(&out)),
        preamble(ReadError::ExcessiveMetadataCount)
    );
}

#[test]
fn header_with_oversized_key_is_not_written() {
    let mut header = Header::default();
    header.metadata.push(("x".repeat(65536), MetadataValue::Bool(false)));
    let mut out = Vec::new();
    assert_eq!(write_header(&mut out, &header), Err(WriteError::OversizedString));
}
