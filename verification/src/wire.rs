//! Values with a layout on the wire: what each looks like as bytes, and
//! that reading undoes writing.
use vstd::prelude::*;
use crate::error::{ReadError, WriteError};
use crate::read::primitives::{
    ByteReader, Decoded, decode_bool, decode_i16, decode_i32, decode_i64, decode_i8,
    decode_string, decode_u16, decode_u32, decode_u64, decode_u8, read_bool, read_i16, read_i32,
    read_i64, read_i8, read_string, read_u16, read_u32, read_u64, read_u8,
};
use crate::write::primitives::{
    encode_bool, encode_i16, encode_i32, encode_i64, encode_i8, encode_string, encode_u16,
    encode_u32, encode_u64, encode_u8, write_bool, write_i16, write_i32, write_i64, write_i8,
    write_string, write_u16, write_u32, write_u64, write_u8,
};
use crate::header::{TensorInfo, TensorInfoView};
use crate::metadata::{MetadataValue, MetadataValueView, MAX_ARRAY_LENGTH};
use crate::read::metadata::{decode_value, read_metadata_value};
use crate::read::{decode_entry, decode_tensor_info, read_metadata_entry, read_tensor_info};
use crate::roundtrip::{lemma_entry_roundtrip, lemma_tensor_info_roundtrip, lemma_value_roundtrip};
use crate::write::metadata::{encode_entry, encode_value, write_metadata_entry, write_metadata_value};
use crate::write::{encode_tensor_info, write_tensor_info};
use crate::endian::{
    lemma_le_bytes_len, lemma_le_prefix, lemma_pattern_roundtrip, lemma_radix_values,
    radix,
};

verus! {

/// A value with a layout on the wire.
pub trait Wire: Sized + View {
    /// The bytes that stand for a value, or why it has none.
    spec fn encoding(value: Self::V) -> Result<Seq<u8>, WriteError>;

    /// The value at the front of `input` and the bytes after it, or why
    /// there is none.
    spec fn decoding(input: Seq<u8>) -> Decoded<Self::V>;

    /// Whether the decoder takes the layout of a value: the limits that
    /// decoding enforces and encoding does not.
    spec fn admits(value: Self::V) -> bool;

    /// Decoding what was encoded gives the value back and leaves what
    /// followed.
    proof fn lemma_roundtrip(value: Self::V, tail: Seq<u8>)
        requires
            Self::encoding(value) is Ok,
            Self::admits(value),
        ensures
            Self::decoding(Self::encoding(value)->Ok_0 + tail) == Ok::<
                (Self::V, Seq<u8>),
                ReadError,
            >((value, tail)),
    ;

    /// Reads one value.
    fn read(reader: &mut ByteReader<'_>) -> (result: Result<Self, ReadError>)
        ensures
            match Self::decoding(old(reader).remaining()) {
                Ok((value, rest)) => {
                    &&& result matches Ok(read) && read@ == value
                    &&& final(reader).remaining() == rest
                },
                Err(error) => result matches Err(failure) && failure == error,
            },
    ;

    /// Appends one value. After a failure the writer holds what was written
    /// before it.
    fn write(&self, writer: &mut Vec<u8>) -> (result: Result<(), WriteError>)
        ensures
            old(writer)@.is_prefix_of(final(writer)@),
            match Self::encoding(self@) {
                Ok(bytes) => result is Ok && final(writer)@ == old(writer)@ + bytes,
                Err(error) => result == Err::<(), WriteError>(error),
            },
    ;
}

/// Reading an unsigned scalar undoes writing it, at each width.
pub proof fn lemma_unsigned_roundtrip(a: u8, b: u16, c: u32, d: u64, tail: Seq<u8>)
    ensures
        decode_u8(encode_u8(a) + tail) == Ok::<(u8, Seq<u8>), ReadError>((a, tail)),
        decode_u16(encode_u16(b) + tail) == Ok::<(u16, Seq<u8>), ReadError>((b, tail)),
        decode_u32(encode_u32(c) + tail) == Ok::<(u32, Seq<u8>), ReadError>((c, tail)),
        decode_u64(encode_u64(d) + tail) == Ok::<(u64, Seq<u8>), ReadError>((d, tail)),
{
    lemma_radix_values();
    lemma_le_prefix(a as nat, 1, tail);
    lemma_le_prefix(b as nat, 2, tail);
    lemma_le_prefix(c as nat, 4, tail);
    lemma_le_prefix(d as nat, 8, tail);
}

/// Reading a signed scalar undoes writing it, at each width.
pub proof fn lemma_signed_roundtrip(a: i8, b: i16, c: i32, d: i64, tail: Seq<u8>)
    ensures
        decode_i8(encode_i8(a) + tail) == Ok::<(i8, Seq<u8>), ReadError>((a, tail)),
        decode_i16(encode_i16(b) + tail) == Ok::<(i16, Seq<u8>), ReadError>((b, tail)),
        decode_i32(encode_i32(c) + tail) == Ok::<(i32, Seq<u8>), ReadError>((c, tail)),
        decode_i64(encode_i64(d) + tail) == Ok::<(i64, Seq<u8>), ReadError>((d, tail)),
{
    lemma_radix_values();
    lemma_pattern_roundtrip(a as int, radix(1));
    lemma_pattern_roundtrip(b as int, radix(2));
    lemma_pattern_roundtrip(c as int, radix(4));
    lemma_pattern_roundtrip(d as int, radix(8));
    lemma_le_prefix(crate::endian::pattern(a as int, radix(1)), 1, tail);
    lemma_le_prefix(crate::endian::pattern(b as int, radix(2)), 2, tail);
    lemma_le_prefix(crate::endian::pattern(c as int, radix(4)), 4, tail);
    lemma_le_prefix(crate::endian::pattern(d as int, radix(8)), 8, tail);
}

/// Reading a truth value undoes writing it.
pub proof fn lemma_bool_roundtrip(value: bool, tail: Seq<u8>)
    ensures
        decode_bool(encode_bool(value) + tail) == Ok::<(bool, Seq<u8>), ReadError>((value, tail)),
{
    lemma_radix_values();
    lemma_le_prefix(
        if value {
            1
        } else {
            0
        },
        1,
        tail,
    );
}

/// Reading a byte string of at most 65535 bytes undoes writing it.
pub proof fn lemma_string_roundtrip(data: Seq<u8>, tail: Seq<u8>)
    requires
        encode_string(data) is Ok,
    ensures
        decode_string(encode_string(data)->Ok_0 + tail) == Ok::<(Seq<u8>, Seq<u8>), ReadError>(
            (data, tail),
        ),
{
    let length = data.len() as u64;
    let whole = encode_string(data)->Ok_0 + tail;
    assert(whole =~= encode_u64(length) + (data + tail));
    lemma_unsigned_roundtrip(0, 0, 0, length, data + tail);
    assert((data + tail).take(length as int) =~= data);
    assert((data + tail).skip(length as int) =~= tail);
}

/// The widths of the scalar layouts.
pub proof fn lemma_encoding_lengths(a: u8, b: u16, c: u32, d: u64)
    ensures
        encode_u8(a).len() == 1,
        encode_u16(b).len() == 2,
        encode_u32(c).len() == 4,
        encode_u64(d).len() == 8,
{
    lemma_le_bytes_len(a as nat, 1);
    lemma_le_bytes_len(b as nat, 2);
    lemma_le_bytes_len(c as nat, 4);
    lemma_le_bytes_len(d as nat, 8);
}

impl Wire for u8 {
    open spec fn encoding(value: u8) -> Result<Seq<u8>, WriteError> {
        Ok(encode_u8(value))
    }

    open spec fn decoding(input: Seq<u8>) -> Decoded<u8> {
        decode_u8(input)
    }

    open spec fn admits(value: u8) -> bool {
        true
    }

    proof fn lemma_roundtrip(value: u8, tail: Seq<u8>) {
        lemma_unsigned_roundtrip(value, 0, 0, 0, tail);
    }

    fn read(reader: &mut ByteReader<'_>) -> (result: Result<Self, ReadError>) {
        read_u8(reader)
    }

    fn write(&self, writer: &mut Vec<u8>) -> (result: Result<(), WriteError>) {
        write_u8(writer, *self);
        Ok(())
    }
}

impl Wire for i8 {
    open spec fn encoding(value: i8) -> Result<Seq<u8>, WriteError> {
        Ok(encode_i8(value))
    }

    open spec fn decoding(input: Seq<u8>) -> Decoded<i8> {
        decode_i8(input)
    }

    open spec fn admits(value: i8) -> bool {
        true
    }

    proof fn lemma_roundtrip(value: i8, tail: Seq<u8>) {
        lemma_signed_roundtrip(value, 0, 0, 0, tail);
    }

    fn read(reader: &mut ByteReader<'_>) -> (result: Result<Self, ReadError>) {
        read_i8(reader)
    }

    fn write(&self, writer: &mut Vec<u8>) -> (result: Result<(), WriteError>) {
        write_i8(writer, *self);
        Ok(())
    }
}

impl Wire for u16 {
    open spec fn encoding(value: u16) -> Result<Seq<u8>, WriteError> {
        Ok(encode_u16(value))
    }

    open spec fn decoding(input: Seq<u8>) -> Decoded<u16> {
        decode_u16(input)
    }

    open spec fn admits(value: u16) -> bool {
        true
    }

    proof fn lemma_roundtrip(value: u16, tail: Seq<u8>) {
        lemma_unsigned_roundtrip(0, value, 0, 0, tail);
    }

    fn read(reader: &mut ByteReader<'_>) -> (result: Result<Self, ReadError>) {
        read_u16(reader)
    }

    fn write(&self, writer: &mut Vec<u8>) -> (result: Result<(), WriteError>) {
        write_u16(writer, *self);
        Ok(())
    }
}

impl Wire for i16 {
    open spec fn encoding(value: i16) -> Result<Seq<u8>, WriteError> {
        Ok(encode_i16(value))
    }

    open spec fn decoding(input: Seq<u8>) -> Decoded<i16> {
        decode_i16(input)
    }

    open spec fn admits(value: i16) -> bool {
        true
    }

    proof fn lemma_roundtrip(value: i16, tail: Seq<u8>) {
        lemma_signed_roundtrip(0, value, 0, 0, tail);
    }

    fn read(reader: &mut ByteReader<'_>) -> (result: Result<Self, ReadError>) {
        read_i16(reader)
    }

    fn write(&self, writer: &mut Vec<u8>) -> (result: Result<(), WriteError>) {
        write_i16(writer, *self);
        Ok(())
    }
}

impl Wire for u32 {
    open spec fn encoding(value: u32) -> Result<Seq<u8>, WriteError> {
        Ok(encode_u32(value))
    }

    open spec fn decoding(input: Seq<u8>) -> Decoded<u32> {
        decode_u32(input)
    }

    open spec fn admits(value: u32) -> bool {
        true
    }

    proof fn lemma_roundtrip(value: u32, tail: Seq<u8>) {
        lemma_unsigned_roundtrip(0, 0, value, 0, tail);
    }

    fn read(reader: &mut ByteReader<'_>) -> (result: Result<Self, ReadError>) {
        read_u32(reader)
    }

    fn write(&self, writer: &mut Vec<u8>) -> (result: Result<(), WriteError>) {
        write_u32(writer, *self);
        Ok(())
    }
}

impl Wire for i32 {
    open spec fn encoding(value: i32) -> Result<Seq<u8>, WriteError> {
        Ok(encode_i32(value))
    }

    open spec fn decoding(input: Seq<u8>) -> Decoded<i32> {
        decode_i32(input)
    }

    open spec fn admits(value: i32) -> bool {
        true
    }

    proof fn lemma_roundtrip(value: i32, tail: Seq<u8>) {
        lemma_signed_roundtrip(0, 0, value, 0, tail);
    }

    fn read(reader: &mut ByteReader<'_>) -> (result: Result<Self, ReadError>) {
        read_i32(reader)
    }

    fn write(&self, writer: &mut Vec<u8>) -> (result: Result<(), WriteError>) {
        write_i32(writer, *self);
        Ok(())
    }
}

impl Wire for u64 {
    open spec fn encoding(value: u64) -> Result<Seq<u8>, WriteError> {
        Ok(encode_u64(value))
    }

    open spec fn decoding(input: Seq<u8>) -> Decoded<u64> {
        decode_u64(input)
    }

    open spec fn admits(value: u64) -> bool {
        true
    }

    proof fn lemma_roundtrip(value: u64, tail: Seq<u8>) {
        lemma_unsigned_roundtrip(0, 0, 0, value, tail);
    }

    fn read(reader: &mut ByteReader<'_>) -> (result: Result<Self, ReadError>) {
        read_u64(reader)
    }

    fn write(&self, writer: &mut Vec<u8>) -> (result: Result<(), WriteError>) {
        write_u64(writer, *self);
        Ok(())
    }
}

impl Wire for i64 {
    open spec fn encoding(value: i64) -> Result<Seq<u8>, WriteError> {
        Ok(encode_i64(value))
    }

    open spec fn decoding(input: Seq<u8>) -> Decoded<i64> {
        decode_i64(input)
    }

    open spec fn admits(value: i64) -> bool {
        true
    }

    proof fn lemma_roundtrip(value: i64, tail: Seq<u8>) {
        lemma_signed_roundtrip(0, 0, 0, value, tail);
    }

    fn read(reader: &mut ByteReader<'_>) -> (result: Result<Self, ReadError>) {
        read_i64(reader)
    }

    fn write(&self, writer: &mut Vec<u8>) -> (result: Result<(), WriteError>) {
        write_i64(writer, *self);
        Ok(())
    }
}

impl Wire for bool {
    open spec fn encoding(value: bool) -> Result<Seq<u8>, WriteError> {
        Ok(encode_bool(value))
    }

    open spec fn decoding(input: Seq<u8>) -> Decoded<bool> {
        decode_bool(input)
    }

    open spec fn admits(value: bool) -> bool {
        true
    }

    proof fn lemma_roundtrip(value: bool, tail: Seq<u8>) {
        lemma_bool_roundtrip(value, tail);
    }

    fn read(reader: &mut ByteReader<'_>) -> (result: Result<Self, ReadError>) {
        read_bool(reader)
    }

    fn write(&self, writer: &mut Vec<u8>) -> (result: Result<(), WriteError>) {
        write_bool(writer, *self);
        Ok(())
    }
}

impl Wire for Vec<u8> {
    open spec fn encoding(value: Seq<u8>) -> Result<Seq<u8>, WriteError> {
        encode_string(value)
    }

    open spec fn decoding(input: Seq<u8>) -> Decoded<Seq<u8>> {
        decode_string(input)
    }

    open spec fn admits(value: Seq<u8>) -> bool {
        true
    }

    proof fn lemma_roundtrip(value: Seq<u8>, tail: Seq<u8>) {
        lemma_string_roundtrip(value, tail);
    }

    fn read(reader: &mut ByteReader<'_>) -> (result: Result<Self, ReadError>) {
        read_string(reader)
    }

    fn write(&self, writer: &mut Vec<u8>) -> (result: Result<(), WriteError>) {
        write_string(writer, self.as_slice())
    }
}

impl Wire for MetadataValue {
    open spec fn encoding(value: MetadataValueView) -> Result<Seq<u8>, WriteError> {
        encode_value(value)
    }

    open spec fn decoding(input: Seq<u8>) -> Decoded<MetadataValueView> {
        decode_value(input)
    }

    /// An array of more than 524288 elements has a layout that the decoder
    /// refuses.
    open spec fn admits(value: MetadataValueView) -> bool {
        value matches MetadataValueView::Array(array) ==> array.len() <= MAX_ARRAY_LENGTH
    }

    proof fn lemma_roundtrip(value: MetadataValueView, tail: Seq<u8>) {
        lemma_value_roundtrip(value, tail);
    }

    fn read(reader: &mut ByteReader<'_>) -> (result: Result<Self, ReadError>) {
        read_metadata_value(reader)
    }

    fn write(&self, writer: &mut Vec<u8>) -> (result: Result<(), WriteError>) {
        write_metadata_value(writer, self)
    }
}

impl Wire for (String, MetadataValue) {
    open spec fn encoding(value: (Seq<char>, MetadataValueView)) -> Result<Seq<u8>, WriteError> {
        encode_entry(value.0, value.1)
    }

    open spec fn decoding(input: Seq<u8>) -> Decoded<(Seq<char>, MetadataValueView)> {
        decode_entry(input)
    }

    open spec fn admits(value: (Seq<char>, MetadataValueView)) -> bool {
        MetadataValue::admits(value.1)
    }

    proof fn lemma_roundtrip(value: (Seq<char>, MetadataValueView), tail: Seq<u8>) {
        lemma_entry_roundtrip(value.0, value.1, tail);
    }

    fn read(reader: &mut ByteReader<'_>) -> (result: Result<Self, ReadError>) {
        read_metadata_entry(reader)
    }

    fn write(&self, writer: &mut Vec<u8>) -> (result: Result<(), WriteError>) {
        write_metadata_entry(writer, self.0.as_str(), &self.1)
    }
}

impl Wire for TensorInfo {
    open spec fn encoding(value: TensorInfoView) -> Result<Seq<u8>, WriteError> {
        encode_tensor_info(value)
    }

    open spec fn decoding(input: Seq<u8>) -> Decoded<TensorInfoView> {
        decode_tensor_info(input)
    }

    /// Only well-formed dimensions come out of the decoder.
    open spec fn admits(value: TensorInfoView) -> bool {
        value.dimensions.well_formed()
    }

    proof fn lemma_roundtrip(value: TensorInfoView, tail: Seq<u8>) {
        lemma_tensor_info_roundtrip(value, tail);
    }

    fn read(reader: &mut ByteReader<'_>) -> (result: Result<Self, ReadError>) {
        read_tensor_info(reader)
    }

    fn write(&self, writer: &mut Vec<u8>) -> (result: Result<(), WriteError>) {
        write_tensor_info(writer, self)
    }
}

} // verus!
