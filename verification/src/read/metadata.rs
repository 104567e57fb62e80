//! Decoding metadata values and arrays.
use vstd::prelude::*;
use crate::error::ReadError;
use crate::metadata::{
    MetadataArray, MetadataArrayView, MetadataType, MetadataValue, MetadataValueView,
    MAX_ARRAY_LENGTH,
};
use crate::read::primitives::{
    ByteReader, Decoded, decode_bool, decode_i16, decode_i32, decode_i64, decode_i8,
    decode_string, decode_u16, decode_u32, decode_u64, decode_u8, read_bool, read_f32, read_f64,
    read_i16, read_i32, read_i64, read_i8, read_string, read_u16, read_u32, read_u64, read_u8,
};
use crate::wire::Wire;

verus! {

/// What each element of a sequence stands for.
pub open spec fn element_views<T: View>(items: Seq<T>) -> Seq<T::V> {
    Seq::new(items.len(), |index: int| items[index]@)
}

/// Decodes `count` values of one kind, one after the other.
pub open spec fn decode_elements<T: Wire>(input: Seq<u8>, count: nat) -> Decoded<Seq<T::V>>
    decreases count,
{
    if count == 0 {
        Ok((Seq::empty(), input))
    } else {
        match decode_elements::<T>(input, (count - 1) as nat) {
            Ok((items, rest)) => match T::decoding(rest) {
                Ok((last, after)) => Ok((items.push(last), after)),
                Err(error) => Err(error),
            },
            Err(error) => Err(error),
        }
    }
}

/// How far below the deepest admitted level `depth` stands.
pub open spec fn levels_left(depth: nat) -> nat {
    if depth >= 3 {
        0
    } else {
        (3 - depth) as nat
    }
}

/// Decodes an array that stands `depth` levels below the top-level array:
/// the tag of its elements, its length, then its elements. An array at a
/// level past 2, a tag that names no kind and a length past 524288 are
/// refused, in that order.
pub open spec fn decode_array(input: Seq<u8>, depth: nat) -> Decoded<MetadataArrayView>
    decreases levels_left(depth), 1nat,
{
    if depth > 2 {
        Err(ReadError::ExcessiveDepth)
    } else {
        match decode_u32(input) {
            Err(error) => Err(error),
            Ok((tag, after_tag)) => match MetadataType::spec_from_u32(tag) {
                None => Err(ReadError::InvalidTypeTag(tag)),
                Some(kind) => match decode_u64(after_tag) {
                    Err(error) => Err(error),
                    Ok((length, after_length)) => if length > MAX_ARRAY_LENGTH {
                        Err(ReadError::OversizedArray)
                    } else {
                        decode_array_items(after_length, kind, length as nat, depth)
                    },
                },
            },
        }
    }
}

/// Decodes the `count` elements of an array of the given kind at level
/// `depth`.
pub open spec fn decode_array_items(input: Seq<u8>, kind: MetadataType, count: nat, depth: nat)
    -> Decoded<MetadataArrayView>
    recommends
        depth <= 2,
    decreases levels_left(depth), 0nat,
    when depth <= 2
{
    match kind {
        MetadataType::UInt8 => match decode_elements::<u8>(input, count) {
            Ok((items, rest)) => Ok((MetadataArrayView::UInt8(items), rest)),
            Err(error) => Err(error),
        },
        MetadataType::Int8 => match decode_elements::<i8>(input, count) {
            Ok((items, rest)) => Ok((MetadataArrayView::Int8(items), rest)),
            Err(error) => Err(error),
        },
        MetadataType::UInt16 => match decode_elements::<u16>(input, count) {
            Ok((items, rest)) => Ok((MetadataArrayView::UInt16(items), rest)),
            Err(error) => Err(error),
        },
        MetadataType::Int16 => match decode_elements::<i16>(input, count) {
            Ok((items, rest)) => Ok((MetadataArrayView::Int16(items), rest)),
            Err(error) => Err(error),
        },
        MetadataType::UInt32 => match decode_elements::<u32>(input, count) {
            Ok((items, rest)) => Ok((MetadataArrayView::UInt32(items), rest)),
            Err(error) => Err(error),
        },
        MetadataType::Int32 => match decode_elements::<i32>(input, count) {
            Ok((items, rest)) => Ok((MetadataArrayView::Int32(items), rest)),
            Err(error) => Err(error),
        },
        MetadataType::Float32 => match decode_elements::<u32>(input, count) {
            Ok((items, rest)) => Ok((MetadataArrayView::Float32(items), rest)),
            Err(error) => Err(error),
        },
        MetadataType::Bool => match decode_elements::<bool>(input, count) {
            Ok((items, rest)) => Ok((MetadataArrayView::Bool(items), rest)),
            Err(error) => Err(error),
        },
        MetadataType::String => match decode_elements::<Vec<u8>>(input, count) {
            Ok((items, rest)) => Ok((MetadataArrayView::String(items), rest)),
            Err(error) => Err(error),
        },
        MetadataType::Array => match decode_arrays(input, count, depth + 1) {
            Ok((items, rest)) => Ok((MetadataArrayView::Array(items), rest)),
            Err(error) => Err(error),
        },
        MetadataType::UInt64 => match decode_elements::<u64>(input, count) {
            Ok((items, rest)) => Ok((MetadataArrayView::UInt64(items), rest)),
            Err(error) => Err(error),
        },
        MetadataType::Int64 => match decode_elements::<i64>(input, count) {
            Ok((items, rest)) => Ok((MetadataArrayView::Int64(items), rest)),
            Err(error) => Err(error),
        },
        MetadataType::Float64 => match decode_elements::<u64>(input, count) {
            Ok((items, rest)) => Ok((MetadataArrayView::Float64(items), rest)),
            Err(error) => Err(error),
        },
    }
}

/// Decodes `count` arrays that stand at level `depth`, one after the other.
pub open spec fn decode_arrays(input: Seq<u8>, count: nat, depth: nat) -> Decoded<
    Seq<MetadataArrayView>,
>
    decreases levels_left(depth), count + 1,
{
    if count == 0 {
        Ok((Seq::empty(), input))
    } else {
        match decode_arrays(input, (count - 1) as nat, depth) {
            Ok((items, rest)) => match decode_array(rest, depth) {
                Ok((last, after)) => Ok((items.push(last), after)),
                Err(error) => Err(error),
            },
            Err(error) => Err(error),
        }
    }
}

/// Decodes a metadata value: its type tag, then what the tag announces.
pub open spec fn decode_value(input: Seq<u8>) -> Decoded<MetadataValueView> {
    match decode_u32(input) {
        Err(error) => Err(error),
        Ok((tag, rest)) => match MetadataType::spec_from_u32(tag) {
            None => Err(ReadError::InvalidTypeTag(tag)),
            Some(kind) => decode_value_of(rest, kind),
        },
    }
}

/// Decodes the payload of a metadata value of the given kind.
pub open spec fn decode_value_of(input: Seq<u8>, kind: MetadataType) -> Decoded<
    MetadataValueView,
> {
    match kind {
        MetadataType::UInt8 => match decode_u8(input) {
            Ok((value, rest)) => Ok((MetadataValueView::UInt8(value), rest)),
            Err(error) => Err(error),
        },
        MetadataType::Int8 => match decode_i8(input) {
            Ok((value, rest)) => Ok((MetadataValueView::Int8(value), rest)),
            Err(error) => Err(error),
        },
        MetadataType::UInt16 => match decode_u16(input) {
            Ok((value, rest)) => Ok((MetadataValueView::UInt16(value), rest)),
            Err(error) => Err(error),
        },
        MetadataType::Int16 => match decode_i16(input) {
            Ok((value, rest)) => Ok((MetadataValueView::Int16(value), rest)),
            Err(error) => Err(error),
        },
        MetadataType::UInt32 => match decode_u32(input) {
            Ok((value, rest)) => Ok((MetadataValueView::UInt32(value), rest)),
            Err(error) => Err(error),
        },
        MetadataType::Int32 => match decode_i32(input) {
            Ok((value, rest)) => Ok((MetadataValueView::Int32(value), rest)),
            Err(error) => Err(error),
        },
        MetadataType::Float32 => match decode_u32(input) {
            Ok((value, rest)) => Ok((MetadataValueView::Float32(value), rest)),
            Err(error) => Err(error),
        },
        MetadataType::Bool => match decode_bool(input) {
            Ok((value, rest)) => Ok((MetadataValueView::Bool(value), rest)),
            Err(error) => Err(error),
        },
        MetadataType::String => match decode_string(input) {
            Ok((value, rest)) => Ok((MetadataValueView::String(value), rest)),
            Err(error) => Err(error),
        },
        MetadataType::Array => match decode_array(input, 0) {
            Ok((value, rest)) => Ok((MetadataValueView::Array(value), rest)),
            Err(error) => Err(error),
        },
        MetadataType::UInt64 => match decode_u64(input) {
            Ok((value, rest)) => Ok((MetadataValueView::UInt64(value), rest)),
            Err(error) => Err(error),
        },
        MetadataType::Int64 => match decode_i64(input) {
            Ok((value, rest)) => Ok((MetadataValueView::Int64(value), rest)),
            Err(error) => Err(error),
        },
        MetadataType::Float64 => match decode_u64(input) {
            Ok((value, rest)) => Ok((MetadataValueView::Float64(value), rest)),
            Err(error) => Err(error),
        },
    }
}

/// Once decoding a run of values has failed, decoding a longer run fails in
/// the same way.
pub proof fn lemma_decode_elements_error<T: Wire>(input: Seq<u8>, fewer: nat, more: nat)
    requires
        fewer <= more,
        decode_elements::<T>(input, fewer) is Err,
    ensures
        decode_elements::<T>(input, more) == decode_elements::<T>(input, fewer),
    decreases more,
{
    if fewer < more {
        lemma_decode_elements_error::<T>(input, fewer, (more - 1) as nat);
    }
}

/// Once decoding a run of arrays has failed, decoding a longer run fails in
/// the same way.
pub proof fn lemma_decode_arrays_error(input: Seq<u8>, fewer: nat, more: nat, depth: nat)
    requires
        fewer <= more,
        decode_arrays(input, fewer, depth) is Err,
    ensures
        decode_arrays(input, more, depth) == decode_arrays(input, fewer, depth),
    decreases more,
{
    if fewer < more {
        lemma_decode_arrays_error(input, fewer, (more - 1) as nat, depth);
    }
}

/// How many of `count` values of one kind are decoded one after the other
/// before the first fault: all of them where there is none.
pub open spec fn decoded_count<T: Wire>(input: Seq<u8>, count: nat) -> nat
    decreases count,
{
    if count == 0 {
        0
    } else if decode_elements::<T>(input, count) is Ok {
        count
    } else {
        decoded_count::<T>(input, (count - 1) as nat)
    }
}

/// Where a run decodes up to a value and no further, that is how many of
/// its values are decoded.
pub proof fn lemma_decoded_count<T: Wire>(input: Seq<u8>, done: nat, count: nat)
    requires
        done < count,
        decode_elements::<T>(input, done) is Ok,
        decode_elements::<T>(input, done + 1) is Err,
    ensures
        decoded_count::<T>(input, count) == done,
        decode_elements::<T>(input, count) == decode_elements::<T>(input, done + 1),
    decreases count,
{
    lemma_decode_elements_error::<T>(input, done + 1, count);
    if count > done + 1 {
        lemma_decoded_count::<T>(input, done, (count - 1) as nat);
    } else if done > 0 {
        assert(decoded_count::<T>(input, done) == done);
    } else {
        assert(decoded_count::<T>(input, 0) == 0);
    }
}

/// Reads `length` values of one kind, one after the other, and tells after
/// how many values a fault was met.
pub fn array_inner_counted<T: Wire>(length: u64, reader: &mut ByteReader<'_>) -> (result: Result<
    Vec<T>,
    (ReadError, u64),
>)
    ensures
        match decode_elements::<T>(old(reader).remaining(), length as nat) {
            Ok((items, rest)) => {
                &&& result matches Ok(read) && element_views(read@) == items
                &&& final(reader).remaining() == rest
            },
            Err(error) => result matches Err(failure) && failure.0 == error && failure.1
                == decoded_count::<T>(old(reader).remaining(), length as nat),
        },
{
    let ghost input = reader.remaining();
    let mut data: Vec<T> = Vec::new();
    let mut index: u64 = 0;
    assert(element_views(data@) =~= Seq::<T::V>::empty());
    while index < length
        invariant
            index <= length,
            input == old(reader).remaining(),
            decode_elements::<T>(input, index as nat) == Ok::<(Seq<T::V>, Seq<u8>), ReadError>(
                (element_views(data@), reader.remaining()),
            ),
        decreases length - index,
    {
        let ghost before = data@;
        match T::read(reader) {
            Ok(value) => {
                data.push(value);
                assert(element_views(data@) =~= element_views(before).push(value@));
            },
            Err(error) => {
                proof {
                    assert(decode_elements::<T>(input, (index + 1) as nat) is Err);
                    lemma_decoded_count::<T>(input, index as nat, length as nat);
                }
                return Err((error, index));
            },
        }
        index = index + 1;
    }
    Ok(data)
}

/// Reads `length` values of one kind, one after the other.
pub fn array_inner<T: Wire>(length: u64, reader: &mut ByteReader<'_>) -> (result: Result<
    Vec<T>,
    ReadError,
>)
    ensures
        match decode_elements::<T>(old(reader).remaining(), length as nat) {
            Ok((items, rest)) => {
                &&& result matches Ok(read) && element_views(read@) == items
                &&& final(reader).remaining() == rest
            },
            Err(error) => result matches Err(failure) && failure == error,
        },
{
    match array_inner_counted::<T>(length, reader) {
        Ok(data) => Ok(data),
        Err((error, _)) => Err(error),
    }
}

/// Reads an array that stands `depth` levels below the top-level array.
pub fn read_metadata_array(reader: &mut ByteReader<'_>, depth: usize) -> (result: Result<
    MetadataArray,
    ReadError,
>)
    ensures
        match decode_array(old(reader).remaining(), depth as nat) {
            Ok((array, rest)) => {
                &&& result matches Ok(read) && read@ == array
                &&& final(reader).remaining() == rest
            },
            Err(error) => result matches Err(failure) && failure == error,
        },
    decreases levels_left(depth as nat),
{
    if depth > 2 {
        return Err(ReadError::ExcessiveDepth);
    }
    let type_index = read_u32(reader)?;
    let ty = match MetadataType::from_u32(type_index) {
        Some(ty) => ty,
        None => {
            return Err(ReadError::InvalidTypeTag(type_index));
        },
    };
    let length = read_u64(reader)?;
    if length > MAX_ARRAY_LENGTH {
        return Err(ReadError::OversizedArray);
    }
    let ghost input = reader.remaining();
    let value = match ty {
        MetadataType::UInt8 => {
            let items = array_inner::<u8>(length, reader)?;
            assert(element_views(items@) =~= items@);
            MetadataArray::UInt8(items)
        },
        MetadataType::Int8 => {
            let items = array_inner::<i8>(length, reader)?;
            assert(element_views(items@) =~= items@);
            MetadataArray::Int8(items)
        },
        MetadataType::UInt16 => {
            let items = array_inner::<u16>(length, reader)?;
            assert(element_views(items@) =~= items@);
            MetadataArray::UInt16(items)
        },
        MetadataType::Int16 => {
            let items = array_inner::<i16>(length, reader)?;
            assert(element_views(items@) =~= items@);
            MetadataArray::Int16(items)
        },
        MetadataType::UInt32 => {
            let items = array_inner::<u32>(length, reader)?;
            assert(element_views(items@) =~= items@);
            MetadataArray::UInt32(items)
        },
        MetadataType::Int32 => {
            let items = array_inner::<i32>(length, reader)?;
            assert(element_views(items@) =~= items@);
            MetadataArray::Int32(items)
        },
        MetadataType::Float32 => {
            let items = array_inner::<u32>(length, reader)?;
            assert(element_views(items@) =~= items@);
            MetadataArray::Float32(items)
        },
        MetadataType::Bool => {
            let items = array_inner::<bool>(length, reader)?;
            assert(element_views(items@) =~= items@);
            MetadataArray::Bool(items)
        },
        MetadataType::String => {
            let items = array_inner::<Vec<u8>>(length, reader)?;
            let array = MetadataArray::String(items);
            assert(array@->String_0 =~= element_views(items@));
            array
        },
        MetadataType::Array => {
            let mut items: Vec<MetadataArray> = Vec::new();
            let mut index: u64 = 0;
            assert(element_views(items@) =~= Seq::<MetadataArrayView>::empty());
            while index < length
                invariant
                    index <= length,
                    depth <= 2,
                    decode_array(old(reader).remaining(), depth as nat) == decode_array_items(
                        input,
                        MetadataType::Array,
                        length as nat,
                        depth as nat,
                    ),
                    decode_arrays(input, index as nat, (depth + 1) as nat) == Ok::<
                        (Seq<MetadataArrayView>, Seq<u8>),
                        ReadError,
                    >((element_views(items@), reader.remaining())),
                decreases length - index,
            {
                let ghost before = items@;
                match read_metadata_array(reader, depth + 1) {
                    Ok(item) => {
                        items.push(item);
                        assert(element_views(items@) =~= element_views(before).push(item@));
                    },
                    Err(error) => {
                        proof {
                            assert(decode_arrays(input, (index + 1) as nat, (depth + 1) as nat)
                                is Err);
                            lemma_decode_arrays_error(
                                input,
                                (index + 1) as nat,
                                length as nat,
                                (depth + 1) as nat,
                            );
                        }
                        return Err(error);
                    },
                }
                index = index + 1;
            }
            let array = MetadataArray::Array(items);
            assert(array@->Array_0 =~= element_views(items@));
            array
        },
        MetadataType::UInt64 => {
            let items = array_inner::<u64>(length, reader)?;
            assert(element_views(items@) =~= items@);
            MetadataArray::UInt64(items)
        },
        MetadataType::Int64 => {
            let items = array_inner::<i64>(length, reader)?;
            assert(element_views(items@) =~= items@);
            MetadataArray::Int64(items)
        },
        MetadataType::Float64 => {
            let items = array_inner::<u64>(length, reader)?;
            assert(element_views(items@) =~= items@);
            MetadataArray::Float64(items)
        },
    };
    Ok(value)
}

/// Reads a metadata value: its type tag, then what the tag announces.
pub fn read_metadata_value(reader: &mut ByteReader<'_>) -> (result: Result<
    MetadataValue,
    ReadError,
>)
    ensures
        match decode_value(old(reader).remaining()) {
            Ok((value, rest)) => {
                &&& result matches Ok(read) && read@ == value
                &&& final(reader).remaining() == rest
            },
            Err(error) => result matches Err(failure) && failure == error,
        },
{
    let type_index = read_u32(reader)?;
    let ty = match MetadataType::from_u32(type_index) {
        Some(ty) => ty,
        None => {
            return Err(ReadError::InvalidTypeTag(type_index));
        },
    };
    let value = match ty {
        MetadataType::UInt8 => MetadataValue::UInt8(read_u8(reader)?),
        MetadataType::Int8 => MetadataValue::Int8(read_i8(reader)?),
        MetadataType::UInt16 => MetadataValue::UInt16(read_u16(reader)?),
        MetadataType::Int16 => MetadataValue::Int16(read_i16(reader)?),
        MetadataType::UInt32 => MetadataValue::UInt32(read_u32(reader)?),
        MetadataType::Int32 => MetadataValue::Int32(read_i32(reader)?),
        MetadataType::Float32 => MetadataValue::Float32(read_f32(reader)?),
        MetadataType::Bool => MetadataValue::Bool(read_bool(reader)?),
        MetadataType::String => MetadataValue::String(read_string(reader)?),
        MetadataType::Array => MetadataValue::Array(read_metadata_array(reader, 0)?),
        MetadataType::UInt64 => MetadataValue::UInt64(read_u64(reader)?),
        MetadataType::Int64 => MetadataValue::Int64(read_i64(reader)?),
        MetadataType::Float64 => MetadataValue::Float64(read_f64(reader)?),
    };
    Ok(value)
}

} // verus!
