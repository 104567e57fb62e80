//! Decoding undoes encoding: for runs of values, arrays, metadata values,
//! entries, tensor descriptors and whole headers.
use vstd::prelude::*;
use vstd::utf8::{encode_utf8, encode_utf8_decode_utf8, encode_utf8_valid_utf8};
use crate::dimensions::lemma_dimensions_equal;
use crate::error::{HeaderError, ReadError};
use crate::header::{
    lemma_tensor_tag_roundtrip, HeaderView, TensorInfo, TensorInfoView, CURRENT_VERSION,
    MAX_ENTRY_COUNT,
};
use crate::metadata::{
    lemma_metadata_tag_roundtrip, MetadataArrayView, MetadataValue, MetadataValueView,
    MAX_ARRAY_LENGTH,
};
use crate::read::metadata::{decode_array, decode_array_items, decode_elements, decode_value};
use crate::read::primitives::{decode_u32, decode_u64};
use crate::read::{
    decode_entry, decode_header, decode_header_body, decode_tensor_info, magic, padded,
};
use crate::wire::{
    lemma_string_roundtrip, lemma_unsigned_roundtrip, lemma_signed_roundtrip,
    lemma_bool_roundtrip, Wire,
};
use crate::write::metadata::{
    encode_array, encode_array_items, encode_elements, encode_entry, encode_payload, encode_value,
};
use crate::write::primitives::{encode_string, encode_u32, encode_u64};
use crate::write::{encode_header, encode_header_body, encode_tensor_info};

verus! {

/// Decoding a run undoes encoding it: what was laid out comes back value by
/// value, and the bytes that followed are left.
pub proof fn lemma_elements_roundtrip<T: Wire>(items: Seq<T::V>, tail: Seq<u8>)
    requires
        encode_elements::<T>(items) is Ok,
        forall|index: int| 0 <= index < items.len() ==> T::admits(#[trigger] items[index]),
    ensures
        decode_elements::<T>(encode_elements::<T>(items)->Ok_0 + tail, items.len()) == Ok::<
            (Seq<T::V>, Seq<u8>),
            ReadError,
        >((items, tail)),
    decreases items.len(),
{
    if items.len() > 0 {
        let front = items.drop_last();
        let last = items.last();
        let front_bytes = encode_elements::<T>(front)->Ok_0;
        let last_bytes = T::encoding(last)->Ok_0;
        lemma_elements_roundtrip::<T>(front, last_bytes + tail);
        T::lemma_roundtrip(last, tail);
        assert(front_bytes + last_bytes + tail =~= front_bytes + (last_bytes + tail));
        assert(front.push(last) =~= items);
    } else {
        assert(Seq::<u8>::empty() + tail =~= tail);
        assert(items =~= Seq::<T::V>::empty());
    }
}

/// Decoding an array undoes encoding it, at every level where an array may
/// stand, as long as it has no more than 524288 elements.
pub proof fn lemma_array_roundtrip(array: MetadataArrayView, depth: nat, tail: Seq<u8>)
    requires
        encode_array(array) is Ok,
        array.len() <= MAX_ARRAY_LENGTH,
        depth <= 2,
    ensures
        decode_array(encode_array(array)->Ok_0 + tail, depth) == Ok::<
            (MetadataArrayView, Seq<u8>),
            ReadError,
        >((array, tail)),
{
    let items = encode_array_items(array)->Ok_0;
    let tag = array.ty().spec_tag();
    let length = array.len() as u64;
    let whole = encode_array(array)->Ok_0 + tail;
    assert(whole =~= encode_u32(tag) + (encode_u64(length) + (items + tail)));
    lemma_unsigned_roundtrip(0, 0, tag, 0, encode_u64(length) + (items + tail));
    lemma_unsigned_roundtrip(0, 0, 0, length, items + tail);
    lemma_metadata_tag_roundtrip(array.ty(), tag);
    match array {
        MetadataArrayView::UInt8(values) => lemma_elements_roundtrip::<u8>(values, tail),
        MetadataArrayView::Int8(values) => lemma_elements_roundtrip::<i8>(values, tail),
        MetadataArrayView::UInt16(values) => lemma_elements_roundtrip::<u16>(values, tail),
        MetadataArrayView::Int16(values) => lemma_elements_roundtrip::<i16>(values, tail),
        MetadataArrayView::UInt32(values) => lemma_elements_roundtrip::<u32>(values, tail),
        MetadataArrayView::Int32(values) => lemma_elements_roundtrip::<i32>(values, tail),
        MetadataArrayView::Float32(values) => lemma_elements_roundtrip::<u32>(values, tail),
        MetadataArrayView::Bool(values) => lemma_elements_roundtrip::<bool>(values, tail),
        MetadataArrayView::String(values) => lemma_elements_roundtrip::<Vec<u8>>(values, tail),
        MetadataArrayView::Array(_) => {},
        MetadataArrayView::UInt64(values) => lemma_elements_roundtrip::<u64>(values, tail),
        MetadataArrayView::Int64(values) => lemma_elements_roundtrip::<i64>(values, tail),
        MetadataArrayView::Float64(values) => lemma_elements_roundtrip::<u64>(values, tail),
    }
    assert(decode_array_items(items + tail, array.ty(), array.len(), depth) == Ok::<
        (MetadataArrayView, Seq<u8>),
        ReadError,
    >((array, tail)));
}

/// Decoding a metadata value undoes encoding it, as long as an array has
/// no more than 524288 elements.
pub proof fn lemma_value_roundtrip(value: MetadataValueView, tail: Seq<u8>)
    requires
        encode_value(value) is Ok,
        MetadataValue::admits(value),
    ensures
        decode_value(encode_value(value)->Ok_0 + tail) == Ok::<
            (MetadataValueView, Seq<u8>),
            ReadError,
        >((value, tail)),
{
    let payload = encode_payload(value)->Ok_0;
    let tag = value.ty().spec_tag();
    let whole = encode_value(value)->Ok_0 + tail;
    assert(whole =~= encode_u32(tag) + (payload + tail));
    lemma_unsigned_roundtrip(0, 0, tag, 0, payload + tail);
    lemma_metadata_tag_roundtrip(value.ty(), tag);
    match value {
        MetadataValueView::UInt8(scalar) => lemma_unsigned_roundtrip(scalar, 0, 0, 0, tail),
        MetadataValueView::Int8(scalar) => lemma_signed_roundtrip(scalar, 0, 0, 0, tail),
        MetadataValueView::UInt16(scalar) => lemma_unsigned_roundtrip(0, scalar, 0, 0, tail),
        MetadataValueView::Int16(scalar) => lemma_signed_roundtrip(0, scalar, 0, 0, tail),
        MetadataValueView::UInt32(scalar) => lemma_unsigned_roundtrip(0, 0, scalar, 0, tail),
        MetadataValueView::Int32(scalar) => lemma_signed_roundtrip(0, 0, scalar, 0, tail),
        MetadataValueView::Float32(scalar) => lemma_unsigned_roundtrip(0, 0, scalar, 0, tail),
        MetadataValueView::Bool(scalar) => lemma_bool_roundtrip(scalar, tail),
        MetadataValueView::String(bytes) => lemma_string_roundtrip(bytes, tail),
        MetadataValueView::Array(array) => lemma_array_roundtrip(array, 0, tail),
        MetadataValueView::UInt64(scalar) => lemma_unsigned_roundtrip(0, 0, 0, scalar, tail),
        MetadataValueView::Int64(scalar) => lemma_signed_roundtrip(0, 0, 0, scalar, tail),
        MetadataValueView::Float64(scalar) => lemma_unsigned_roundtrip(0, 0, 0, scalar, tail),
    }
}

/// Decoding a metadata entry undoes encoding it.
pub proof fn lemma_entry_roundtrip(key: Seq<char>, value: MetadataValueView, tail: Seq<u8>)
    requires
        encode_entry(key, value) is Ok,
        MetadataValue::admits(value),
    ensures
        decode_entry(encode_entry(key, value)->Ok_0 + tail) == Ok::<
            ((Seq<char>, MetadataValueView), Seq<u8>),
            ReadError,
        >(((key, value), tail)),
{
    let name = encode_string(encode_utf8(key))->Ok_0;
    let rest = encode_value(value)->Ok_0;
    assert(encode_entry(key, value)->Ok_0 + tail =~= name + (rest + tail));
    lemma_string_roundtrip(encode_utf8(key), rest + tail);
    encode_utf8_valid_utf8(key);
    encode_utf8_decode_utf8(key);
    lemma_value_roundtrip(value, tail);
}

/// Decoding a tensor descriptor undoes encoding it, as long as its
/// dimensions are well formed.
pub proof fn lemma_tensor_info_roundtrip(info: TensorInfoView, tail: Seq<u8>)
    requires
        encode_tensor_info(info) is Ok,
        info.dimensions.well_formed(),
    ensures
        decode_tensor_info(encode_tensor_info(info)->Ok_0 + tail) == Ok::<
            (TensorInfoView, Seq<u8>),
            ReadError,
        >((info, tail)),
{
    let name = encode_string(encode_utf8(info.name))->Ok_0;
    let count = info.dimensions.spec_count();
    let slots = info.dimensions.slots().take(count as int);
    let extents = encode_elements::<u64>(slots)->Ok_0;
    let tag = info.tensor_type.spec_tag();
    let after_extents = encode_u32(tag) + (encode_u64(info.offset) + tail);
    let after_count = extents + after_extents;
    let after_name = encode_u32(count as u32) + after_count;
    assert(encode_tensor_info(info)->Ok_0 + tail =~= name + after_name);
    lemma_string_roundtrip(encode_utf8(info.name), after_name);
    encode_utf8_valid_utf8(info.name);
    encode_utf8_decode_utf8(info.name);
    lemma_unsigned_roundtrip(0, 0, count as u32, 0, after_count);
    lemma_elements_roundtrip::<u64>(slots, after_extents);
    lemma_unsigned_roundtrip(0, 0, tag, 0, encode_u64(info.offset) + tail);
    lemma_tensor_tag_roundtrip(info.tensor_type, tag);
    lemma_unsigned_roundtrip(0, 0, 0, info.offset, tail);
    assert(padded(slots).slots() =~= info.dimensions.slots());
    lemma_dimensions_equal(padded(slots), info.dimensions);
}

/// Whether a header is one that the decoder can give back: at most 1024
/// metadata entries and 1024 tensors, no array of more than 524288
/// elements, and well-formed dimensions throughout.
pub open spec fn within_bounds(header: HeaderView) -> bool {
    &&& header.metadata.len() <= MAX_ENTRY_COUNT
    &&& header.tensors.len() <= MAX_ENTRY_COUNT
    &&& forall|index: int|
        0 <= index < header.metadata.len() ==> MetadataValue::admits(
            (#[trigger] header.metadata[index]).1,
        )
    &&& forall|index: int|
        0 <= index < header.tensors.len() ==> (#[trigger] header.tensors[index]).dimensions.well_formed()
}

/// Decoding what follows the magic bytes undoes encoding it.
pub proof fn lemma_header_body_roundtrip(header: HeaderView, tail: Seq<u8>)
    requires
        encode_header_body(header) is Ok,
        within_bounds(header),
    ensures
        decode_header_body(encode_header_body(header)->Ok_0 + tail) == Ok::<
            (HeaderView, Seq<u8>),
            HeaderError,
        >((header, tail)),
{
    let metadata = encode_elements::<(String, MetadataValue)>(header.metadata)->Ok_0;
    let tensors = encode_elements::<TensorInfo>(header.tensors)->Ok_0;
    let tensor_count = header.tensors.len() as u64;
    let metadata_count = header.metadata.len() as u64;
    let after_metadata = tensors + tail;
    let after_counts = metadata + after_metadata;
    let after_tensor_count = encode_u64(metadata_count) + after_counts;
    let after_version = encode_u64(tensor_count) + after_tensor_count;
    let body = encode_u32(CURRENT_VERSION) + after_version;
    assert(encode_header_body(header)->Ok_0 + tail == body) by {
        assert(encode_header_body(header)->Ok_0 + tail =~= body);
    }
    assert(decode_u32(body) == Ok::<(u32, Seq<u8>), ReadError>((CURRENT_VERSION, after_version)))
        by {
        lemma_unsigned_roundtrip(0, 0, CURRENT_VERSION, 0, after_version);
    }
    assert(decode_u64(after_version) == Ok::<(u64, Seq<u8>), ReadError>(
        (tensor_count, after_tensor_count),
    )) by {
        lemma_unsigned_roundtrip(0, 0, 0, tensor_count, after_tensor_count);
    }
    assert(decode_u64(after_tensor_count) == Ok::<(u64, Seq<u8>), ReadError>(
        (metadata_count, after_counts),
    )) by {
        lemma_unsigned_roundtrip(0, 0, 0, metadata_count, after_counts);
    }
    assert(decode_elements::<(String, MetadataValue)>(after_counts, metadata_count as nat) == Ok::<
        (Seq<(Seq<char>, MetadataValueView)>, Seq<u8>),
        ReadError,
    >((header.metadata, after_metadata))) by {
        assert forall|index: int| 0 <= index < header.metadata.len() implies <(
            String,
            MetadataValue,
        ) as Wire>::admits(#[trigger] header.metadata[index]) by {}
        lemma_elements_roundtrip::<(String, MetadataValue)>(header.metadata, after_metadata);
    }
    assert(decode_elements::<TensorInfo>(after_metadata, tensor_count as nat) == Ok::<
        (Seq<TensorInfoView>, Seq<u8>),
        ReadError,
    >((header.tensors, tail))) by {
        lemma_elements_roundtrip::<TensorInfo>(header.tensors, tail);
    }
}

/// Decoding a header undoes encoding it: every header within the bounds
/// that has a layout is decoded from that layout unchanged, entry by entry
/// and tensor by tensor in their order, and the bytes after the layout are
/// left.
pub proof fn lemma_header_roundtrip(header: HeaderView, tail: Seq<u8>)
    requires
        encode_header(header) is Ok,
        within_bounds(header),
    ensures
        decode_header(encode_header(header)->Ok_0 + tail) == Ok::<
            (HeaderView, Seq<u8>),
            HeaderError,
        >((header, tail)),
{
    let body = encode_header_body(header)->Ok_0;
    let whole = encode_header(header)->Ok_0 + tail;
    assert(whole =~= magic() + (body + tail));
    assert(whole.take(4) =~= magic());
    assert(whole.skip(4) =~= body + tail);
    lemma_header_body_roundtrip(header, tail);
}

} // verus!
