//! Encoding metadata values and arrays.
use vstd::prelude::*;
use vstd::utf8::encode_utf8;
use crate::error::WriteError;
use crate::metadata::{MetadataArray, MetadataArrayView, MetadataValue, MetadataValueView};
use crate::read::metadata::element_views;
use crate::wire::Wire;
use crate::write::primitives::{
    encode_bool, encode_i16, encode_i32, encode_i64, encode_i8, encode_string, encode_u16,
    encode_u32, encode_u64, encode_u8, write_bool, write_f32, write_f64, write_i16, write_i32,
    write_i64, write_i8, write_string, write_u16, write_u32, write_u64, write_u8,
};

verus! {

/// The layouts of the values of a run, one after the other, or the reason
/// why the first value without a layout has none.
pub open spec fn encode_elements<T: Wire>(items: Seq<T::V>) -> Result<Seq<u8>, WriteError>
    decreases items.len(),
{
    if items.len() == 0 {
        Ok(Seq::empty())
    } else {
        match encode_elements::<T>(items.drop_last()) {
            Ok(bytes) => match T::encoding(items.last()) {
                Ok(last) => Ok(bytes + last),
                Err(error) => Err(error),
            },
            Err(error) => Err(error),
        }
    }
}

/// The layout of the elements of an array. Arrays of arrays have none.
pub open spec fn encode_array_items(array: MetadataArrayView) -> Result<Seq<u8>, WriteError> {
    match array {
        MetadataArrayView::UInt8(items) => encode_elements::<u8>(items),
        MetadataArrayView::Int8(items) => encode_elements::<i8>(items),
        MetadataArrayView::UInt16(items) => encode_elements::<u16>(items),
        MetadataArrayView::Int16(items) => encode_elements::<i16>(items),
        MetadataArrayView::UInt32(items) => encode_elements::<u32>(items),
        MetadataArrayView::Int32(items) => encode_elements::<i32>(items),
        MetadataArrayView::Float32(items) => encode_elements::<u32>(items),
        MetadataArrayView::Bool(items) => encode_elements::<bool>(items),
        MetadataArrayView::String(items) => encode_elements::<Vec<u8>>(items),
        MetadataArrayView::Array(_) => Err(WriteError::NestedArray),
        MetadataArrayView::UInt64(items) => encode_elements::<u64>(items),
        MetadataArrayView::Int64(items) => encode_elements::<i64>(items),
        MetadataArrayView::Float64(items) => encode_elements::<u64>(items),
    }
}

/// The layout of an array: the tag of its elements, its length, then its
/// elements.
pub open spec fn encode_array(array: MetadataArrayView) -> Result<Seq<u8>, WriteError> {
    match encode_array_items(array) {
        Ok(items) => Ok(
            encode_u32(array.ty().spec_tag()) + encode_u64(array.len() as u64) + items,
        ),
        Err(error) => Err(error),
    }
}

/// The layout of what follows the type tag of a metadata value.
pub open spec fn encode_payload(value: MetadataValueView) -> Result<Seq<u8>, WriteError> {
    match value {
        MetadataValueView::UInt8(value) => Ok(encode_u8(value)),
        MetadataValueView::Int8(value) => Ok(encode_i8(value)),
        MetadataValueView::UInt16(value) => Ok(encode_u16(value)),
        MetadataValueView::Int16(value) => Ok(encode_i16(value)),
        MetadataValueView::UInt32(value) => Ok(encode_u32(value)),
        MetadataValueView::Int32(value) => Ok(encode_i32(value)),
        MetadataValueView::Float32(value) => Ok(encode_u32(value)),
        MetadataValueView::Bool(value) => Ok(encode_bool(value)),
        MetadataValueView::String(value) => encode_string(value),
        MetadataValueView::Array(value) => encode_array(value),
        MetadataValueView::UInt64(value) => Ok(encode_u64(value)),
        MetadataValueView::Int64(value) => Ok(encode_i64(value)),
        MetadataValueView::Float64(value) => Ok(encode_u64(value)),
    }
}

/// The layout of a metadata value: its type tag, then its payload.
pub open spec fn encode_value(value: MetadataValueView) -> Result<Seq<u8>, WriteError> {
    match encode_payload(value) {
        Ok(payload) => Ok(encode_u32(value.ty().spec_tag()) + payload),
        Err(error) => Err(error),
    }
}

/// The layout of a metadata entry: the key as a byte string, then the
/// value. The key is laid out first, so its fault is reported first.
pub open spec fn encode_entry(key: Seq<char>, value: MetadataValueView) -> Result<
    Seq<u8>,
    WriteError,
> {
    match encode_string(encode_utf8(key)) {
        Ok(name) => match encode_value(value) {
            Ok(rest) => Ok(name + rest),
            Err(error) => Err(error),
        },
        Err(error) => Err(error),
    }
}

/// A run whose front part has no layout has none, for the same reason.
pub proof fn lemma_encode_elements_error<T: Wire>(items: Seq<T::V>, front: nat)
    requires
        front <= items.len(),
        encode_elements::<T>(items.take(front as int)) is Err,
    ensures
        encode_elements::<T>(items) == encode_elements::<T>(items.take(front as int)),
    decreases items.len(),
{
    if front < items.len() {
        assert(items.drop_last().take(front as int) =~= items.take(front as int));
        lemma_encode_elements_error::<T>(items.drop_last(), front);
    } else {
        assert(items.take(front as int) =~= items);
    }
}

/// Appends the length of a run and then its values, one after the other.
/// After a failure the writer holds what was written before it.
pub fn array_inner<T: Wire>(writer: &mut Vec<u8>, value: &Vec<T>) -> (result: Result<
    (),
    WriteError,
>)
    ensures
        old(writer)@.is_prefix_of(final(writer)@),
        match encode_elements::<T>(element_views(value@)) {
            Ok(bytes) => result is Ok && final(writer)@ == old(writer)@ + encode_u64(
                value@.len() as u64,
            ) + bytes,
            Err(error) => result == Err::<(), WriteError>(error),
        },
{
    write_u64(writer, value.len() as u64);
    let ghost views = element_views(value@);
    let ghost start = writer@;
    let mut index: usize = 0;
    assert(views.take(0) =~= Seq::<T::V>::empty());
    assert(start + Seq::<u8>::empty() =~= start);
    while index < value.len()
        invariant
            index <= value@.len(),
            views == element_views(value@),
            start == old(writer)@ + encode_u64(value@.len() as u64),
            encode_elements::<T>(views.take(index as int)) is Ok,
            writer@ == start + encode_elements::<T>(views.take(index as int))->Ok_0,
        decreases value@.len() - index,
    {
        let ghost before = writer@;
        let ghost done = encode_elements::<T>(views.take(index as int))->Ok_0;
        proof {
            assert(views.take(index + 1).drop_last() =~= views.take(index as int));
            assert(views.take(index + 1).last() == value@[index as int]@);
        }
        match value[index].write(writer) {
            Ok(()) => {
                assert(writer@ =~= start + (done + T::encoding(value@[index as int]@)->Ok_0));
            },
            Err(error) => {
                proof {
                    lemma_encode_elements_error::<T>(views, (index + 1) as nat);
                    assert(old(writer)@.is_prefix_of(writer@));
                }
                return Err(error);
            },
        }
        index = index + 1;
    }
    proof {
        assert(views.take(index as int) =~= views);
        assert(old(writer)@.is_prefix_of(writer@));
    }
    Ok(())
}

/// Appends an array: the tag of its elements, its length, then its
/// elements. An array of arrays is refused. After a failure the writer holds
/// what was written before it.
pub fn write_array(writer: &mut Vec<u8>, value: &MetadataArray) -> (result: Result<
    (),
    WriteError,
>)
    ensures
        old(writer)@.is_prefix_of(final(writer)@),
        match encode_array(value@) {
            Ok(bytes) => result is Ok && final(writer)@ == old(writer)@ + bytes,
            Err(error) => result == Err::<(), WriteError>(error),
        },
{
    let ty = value.ty();
    write_u32(writer, ty.tag());
    let ghost tagged = writer@;
    let result = match value {
        MetadataArray::UInt8(items) => {
            assert(element_views(items@) =~= items@);
            array_inner::<u8>(writer, items)
        },
        MetadataArray::Int8(items) => {
            assert(element_views(items@) =~= items@);
            array_inner::<i8>(writer, items)
        },
        MetadataArray::UInt16(items) => {
            assert(element_views(items@) =~= items@);
            array_inner::<u16>(writer, items)
        },
        MetadataArray::Int16(items) => {
            assert(element_views(items@) =~= items@);
            array_inner::<i16>(writer, items)
        },
        MetadataArray::UInt32(items) => {
            assert(element_views(items@) =~= items@);
            array_inner::<u32>(writer, items)
        },
        MetadataArray::Int32(items) => {
            assert(element_views(items@) =~= items@);
            array_inner::<i32>(writer, items)
        },
        MetadataArray::Float32(items) => {
            assert(element_views(items@) =~= items@);
            array_inner::<u32>(writer, items)
        },
        MetadataArray::Bool(items) => {
            assert(element_views(items@) =~= items@);
            array_inner::<bool>(writer, items)
        },
        MetadataArray::String(items) => {
            assert(value@->String_0 =~= element_views(items@));
            array_inner::<Vec<u8>>(writer, items)
        },
        MetadataArray::Array(_) => Err(WriteError::NestedArray),
        MetadataArray::UInt64(items) => {
            assert(element_views(items@) =~= items@);
            array_inner::<u64>(writer, items)
        },
        MetadataArray::Int64(items) => {
            assert(element_views(items@) =~= items@);
            array_inner::<i64>(writer, items)
        },
        MetadataArray::Float64(items) => {
            assert(element_views(items@) =~= items@);
            array_inner::<u64>(writer, items)
        },
    };
    proof {
        assert(old(writer)@.is_prefix_of(tagged));
        if result is Ok {
            let items = encode_array_items(value@)->Ok_0;
            assert(writer@ =~= old(writer)@ + (encode_u32(value@.ty().spec_tag()) + encode_u64(
                value@.len() as u64,
            ) + items));
        }
    }
    result
}

/// Appends a metadata value: its type tag, then its payload. After a
/// failure the writer holds what was written before it.
pub fn write_metadata_value(writer: &mut Vec<u8>, value: &MetadataValue) -> (result: Result<
    (),
    WriteError,
>)
    ensures
        old(writer)@.is_prefix_of(final(writer)@),
        match encode_value(value@) {
            Ok(bytes) => result is Ok && final(writer)@ == old(writer)@ + bytes,
            Err(error) => result == Err::<(), WriteError>(error),
        },
{
    let ty = value.ty();
    write_u32(writer, ty.tag());
    match value {
        MetadataValue::UInt8(value) => write_u8(writer, *value),
        MetadataValue::Int8(value) => write_i8(writer, *value),
        MetadataValue::UInt16(value) => write_u16(writer, *value),
        MetadataValue::Int16(value) => write_i16(writer, *value),
        MetadataValue::UInt32(value) => write_u32(writer, *value),
        MetadataValue::Int32(value) => write_i32(writer, *value),
        MetadataValue::Float32(value) => write_f32(writer, *value),
        MetadataValue::Bool(value) => write_bool(writer, *value),
        MetadataValue::String(value) => {
            let written = write_string(writer, value.as_slice());
            if let Err(error) = written {
                return Err(error);
            }
        },
        MetadataValue::Array(value) => {
            let written = write_array(writer, value);
            if let Err(error) = written {
                return Err(error);
            }
        },
        MetadataValue::UInt64(value) => write_u64(writer, *value),
        MetadataValue::Int64(value) => write_i64(writer, *value),
        MetadataValue::Float64(value) => write_f64(writer, *value),
    }
    proof {
        let payload = encode_payload(value@)->Ok_0;
        assert(writer@ =~= old(writer)@ + (encode_u32(value@.ty().spec_tag()) + payload));
    }
    Ok(())
}

/// Appends a metadata entry: the key as a byte string, then the value.
/// After a failure the writer holds what was written before it.
pub fn write_metadata_entry(writer: &mut Vec<u8>, key: &str, value: &MetadataValue) -> (result:
    Result<(), WriteError>)
    ensures
        old(writer)@.is_prefix_of(final(writer)@),
        match encode_entry(key@, value@) {
            Ok(bytes) => result is Ok && final(writer)@ == old(writer)@ + bytes,
            Err(error) => result == Err::<(), WriteError>(error),
        },
{
    write_string(writer, key.as_bytes())?;
    let written = write_metadata_value(writer, value);
    if let Err(error) = written {
        return Err(error);
    }
    proof {
        let name = encode_string(encode_utf8(key@))->Ok_0;
        let rest = encode_value(value@)->Ok_0;
        assert(writer@ =~= old(writer)@ + (name + rest));
    }
    Ok(())
}

} // verus!
