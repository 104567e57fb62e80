//! Reading the fixed-width scalars and the length-prefixed byte string.
use vstd::prelude::*;
use vstd::slice::slice_subrange;
use vstd::slice::slice_to_vec;
use crate::error::ReadError;
use crate::endian::{le_value, radix, signed, lemma_le_value_bound, lemma_radix_values};

verus! {

/// The longest byte string that the format admits.
pub const MAX_STRING_LENGTH: u64 = 65535;

/// A cursor over a byte slice. Reading moves it forward and never back.
pub struct ByteReader<'a> {
    data: &'a [u8],
    position: usize,
}

impl<'a> ByteReader<'a> {
    #[verifier::type_invariant]
    spec fn within_bounds(self) -> bool {
        self.position <= self.data@.len()
    }

    /// The bytes that have not been read yet.
    pub closed spec fn remaining(self) -> Seq<u8> {
        self.data@.skip(self.position as int)
    }

    /// A cursor at the start of `data`.
    pub fn new(data: &'a [u8]) -> (reader: Self)
        ensures
            reader.remaining() == data@,
    {
        ByteReader { data, position: 0 }
    }

    /// How many bytes are left.
    pub fn remaining_len(&self) -> (count: usize)
        ensures
            count == self.remaining().len(),
    {
        proof {
            use_type_invariant(self);
        }
        self.data.len() - self.position
    }

    /// Takes the next `count` bytes, or none at all where fewer are left.
    pub fn read_exact(&mut self, count: usize) -> (bytes: Option<&'a [u8]>)
        ensures
            match bytes {
                Some(bytes) => {
                    &&& count <= old(self).remaining().len()
                    &&& bytes@ == old(self).remaining().take(count as int)
                    &&& final(self).remaining() == old(self).remaining().skip(count as int)
                },
                None => {
                    &&& count > old(self).remaining().len()
                    &&& final(self).remaining() == old(self).remaining()
                },
            },
    {
        proof {
            use_type_invariant(&*self);
        }
        let data: &'a [u8] = self.data;
        if count <= data.len() - self.position {
            let start = self.position;
            let bytes = slice_subrange(data, start, start + count);
            self.position = start + count;
            assert(bytes@ =~= data@.skip(start as int).take(count as int));
            assert(data@.skip(start + count) =~= data@.skip(start as int).skip(count as int));
            Some(bytes)
        } else {
            None
        }
    }
}

/// What decoding a value from the front of a byte sequence gives: the value
/// and the bytes after it, or the reason why there is no value.
pub type Decoded<T> = Result<(T, Seq<u8>), ReadError>;

/// Whether a read that returned `result` and left `rest` unread did what
/// `expected` says. After a failed read the cursor's place is not defined.
pub open spec fn read_matches<T>(result: Result<T, ReadError>, rest: Seq<u8>, expected: Decoded<T>)
    -> bool {
    match expected {
        Ok((value, after)) => result == Ok::<T, ReadError>(value) && rest == after,
        Err(error) => result == Err::<T, ReadError>(error),
    }
}

/// Decodes an unsigned little-endian number of `width` bytes.
pub open spec fn decode_unsigned(input: Seq<u8>, width: nat) -> Decoded<nat> {
    if input.len() < width {
        Err(ReadError::TruncatedInput)
    } else {
        Ok((le_value(input.take(width as int)), input.skip(width as int)))
    }
}

/// Decodes one byte.
pub open spec fn decode_u8(input: Seq<u8>) -> Decoded<u8> {
    match decode_unsigned(input, 1) {
        Ok((raw, rest)) => Ok((raw as u8, rest)),
        Err(error) => Err(error),
    }
}

/// Decodes one byte as a two's complement number.
pub open spec fn decode_i8(input: Seq<u8>) -> Decoded<i8> {
    match decode_unsigned(input, 1) {
        Ok((raw, rest)) => Ok((signed(raw, radix(1)) as i8, rest)),
        Err(error) => Err(error),
    }
}

/// Decodes two bytes, least significant first.
pub open spec fn decode_u16(input: Seq<u8>) -> Decoded<u16> {
    match decode_unsigned(input, 2) {
        Ok((raw, rest)) => Ok((raw as u16, rest)),
        Err(error) => Err(error),
    }
}

/// Decodes two bytes as a two's complement number.
pub open spec fn decode_i16(input: Seq<u8>) -> Decoded<i16> {
    match decode_unsigned(input, 2) {
        Ok((raw, rest)) => Ok((signed(raw, radix(2)) as i16, rest)),
        Err(error) => Err(error),
    }
}

/// Decodes four bytes, least significant first.
pub open spec fn decode_u32(input: Seq<u8>) -> Decoded<u32> {
    match decode_unsigned(input, 4) {
        Ok((raw, rest)) => Ok((raw as u32, rest)),
        Err(error) => Err(error),
    }
}

/// Decodes four bytes as a two's complement number.
pub open spec fn decode_i32(input: Seq<u8>) -> Decoded<i32> {
    match decode_unsigned(input, 4) {
        Ok((raw, rest)) => Ok((signed(raw, radix(4)) as i32, rest)),
        Err(error) => Err(error),
    }
}

/// Decodes eight bytes, least significant first.
pub open spec fn decode_u64(input: Seq<u8>) -> Decoded<u64> {
    match decode_unsigned(input, 8) {
        Ok((raw, rest)) => Ok((raw as u64, rest)),
        Err(error) => Err(error),
    }
}

/// Decodes eight bytes as a two's complement number.
pub open spec fn decode_i64(input: Seq<u8>) -> Decoded<i64> {
    match decode_unsigned(input, 8) {
        Ok((raw, rest)) => Ok((signed(raw, radix(8)) as i64, rest)),
        Err(error) => Err(error),
    }
}

/// Decodes one byte as a truth value: zero is false, all else is true.
pub open spec fn decode_bool(input: Seq<u8>) -> Decoded<bool> {
    match decode_unsigned(input, 1) {
        Ok((raw, rest)) => Ok((raw != 0, rest)),
        Err(error) => Err(error),
    }
}

/// Decodes a byte string: an eight-byte length, then that many bytes.
pub open spec fn decode_string(input: Seq<u8>) -> Decoded<Seq<u8>> {
    match decode_u64(input) {
        Ok((length, rest)) => {
            if length > MAX_STRING_LENGTH {
                Err(ReadError::OversizedString)
            } else if rest.len() < length {
                Err(ReadError::TruncatedInput)
            } else {
                Ok((rest.take(length as int), rest.skip(length as int)))
            }
        },
        Err(error) => Err(error),
    }
}

/// Reads an unsigned little-endian number of up to eight bytes.
fn read_unsigned(reader: &mut ByteReader<'_>, width: usize) -> (result: Result<u64, ReadError>)
    requires
        width <= 8,
    ensures
        match decode_unsigned(old(reader).remaining(), width as nat) {
            Ok((value, rest)) => result == Ok::<u64, ReadError>(value as u64) && value < radix(
                width as nat,
            ) && final(reader).remaining() == rest,
            Err(error) => result == Err::<u64, ReadError>(error),
        },
{
    let bytes = match reader.read_exact(width) {
        Some(bytes) => bytes,
        None => {
            return Err(ReadError::TruncatedInput);
        },
    };
    let mut value: u64 = 0;
    let mut index: usize = width;
    proof {
        lemma_radix_values();
        assert(bytes@.skip(width as int) =~= Seq::<u8>::empty());
    }
    while index > 0
        invariant
            index <= width <= 8,
            bytes@.len() == width,
            value == le_value(bytes@.skip(index as int)),
        decreases index,
    {
        index = index - 1;
        proof {
            let longer = bytes@.skip(index as int);
            assert(longer.drop_first() =~= bytes@.skip(index + 1));
            lemma_le_value_bound(longer.drop_first());
            lemma_le_value_bound(longer);
            lemma_radix_monotonic(longer.len(), 8);
            lemma_radix_values();
        }
        value = value * 256 + bytes[index] as u64;
    }
    proof {
        assert(bytes@.skip(0) =~= bytes@);
        lemma_le_value_bound(bytes@);
    }
    Ok(value)
}

/// More bytes hold at least as many values.
proof fn lemma_radix_monotonic(narrow: nat, wide: nat)
    requires
        narrow <= wide,
    ensures
        0 < radix(narrow) <= radix(wide),
    decreases wide,
{
    if narrow < wide {
        lemma_radix_monotonic(narrow, (wide - 1) as nat);
    } else if wide > 0 {
        lemma_radix_monotonic((narrow - 1) as nat, (wide - 1) as nat);
    }
}

/// Reads one byte.
pub fn read_u8(reader: &mut ByteReader<'_>) -> (result: Result<u8, ReadError>)
    ensures
        read_matches(result, final(reader).remaining(), decode_u8(old(reader).remaining())),
{
    proof {
        lemma_radix_values();
    }
    match read_unsigned(reader, 1) {
        Ok(raw) => Ok(raw as u8),
        Err(error) => Err(error),
    }
}

/// Reads one byte as a two's complement number.
pub fn read_i8(reader: &mut ByteReader<'_>) -> (result: Result<i8, ReadError>)
    ensures
        read_matches(result, final(reader).remaining(), decode_i8(old(reader).remaining())),
{
    proof {
        lemma_radix_values();
    }
    match read_unsigned(reader, 1) {
        Ok(raw) => if raw >= 0x80 {
            Ok((raw as i16 - 0x100) as i8)
        } else {
            Ok(raw as i8)
        },
        Err(error) => Err(error),
    }
}

/// Reads two bytes, least significant first.
pub fn read_u16(reader: &mut ByteReader<'_>) -> (result: Result<u16, ReadError>)
    ensures
        read_matches(result, final(reader).remaining(), decode_u16(old(reader).remaining())),
{
    proof {
        lemma_radix_values();
    }
    match read_unsigned(reader, 2) {
        Ok(raw) => Ok(raw as u16),
        Err(error) => Err(error),
    }
}

/// Reads two bytes as a two's complement number.
pub fn read_i16(reader: &mut ByteReader<'_>) -> (result: Result<i16, ReadError>)
    ensures
        read_matches(result, final(reader).remaining(), decode_i16(old(reader).remaining())),
{
    proof {
        lemma_radix_values();
    }
    match read_unsigned(reader, 2) {
        Ok(raw) => if raw >= 0x8000 {
            Ok((raw as i32 - 0x1_0000) as i16)
        } else {
            Ok(raw as i16)
        },
        Err(error) => Err(error),
    }
}

/// Reads four bytes, least significant first.
pub fn read_u32(reader: &mut ByteReader<'_>) -> (result: Result<u32, ReadError>)
    ensures
        read_matches(result, final(reader).remaining(), decode_u32(old(reader).remaining())),
{
    proof {
        lemma_radix_values();
    }
    match read_unsigned(reader, 4) {
        Ok(raw) => Ok(raw as u32),
        Err(error) => Err(error),
    }
}

/// Reads four bytes as a two's complement number.
pub fn read_i32(reader: &mut ByteReader<'_>) -> (result: Result<i32, ReadError>)
    ensures
        read_matches(result, final(reader).remaining(), decode_i32(old(reader).remaining())),
{
    proof {
        lemma_radix_values();
    }
    match read_unsigned(reader, 4) {
        Ok(raw) => if raw >= 0x8000_0000 {
            Ok((raw as i64 - 0x1_0000_0000) as i32)
        } else {
            Ok(raw as i32)
        },
        Err(error) => Err(error),
    }
}

/// Reads eight bytes, least significant first.
pub fn read_u64(reader: &mut ByteReader<'_>) -> (result: Result<u64, ReadError>)
    ensures
        read_matches(result, final(reader).remaining(), decode_u64(old(reader).remaining())),
{
    proof {
        lemma_radix_values();
    }
    read_unsigned(reader, 8)
}

/// Reads eight bytes as a two's complement number.
pub fn read_i64(reader: &mut ByteReader<'_>) -> (result: Result<i64, ReadError>)
    ensures
        read_matches(result, final(reader).remaining(), decode_i64(old(reader).remaining())),
{
    proof {
        lemma_radix_values();
    }
    match read_unsigned(reader, 8) {
        Ok(raw) => if raw >= 0x8000_0000_0000_0000 {
            Ok((raw as i128 - 0x1_0000_0000_0000_0000) as i64)
        } else {
            Ok(raw as i64)
        },
        Err(error) => Err(error),
    }
}

/// Reads the bit pattern of a 32-bit IEEE 754 number.
pub fn read_f32(reader: &mut ByteReader<'_>) -> (result: Result<u32, ReadError>)
    ensures
        read_matches(result, final(reader).remaining(), decode_u32(old(reader).remaining())),
{
    read_u32(reader)
}

/// Reads the bit pattern of a 64-bit IEEE 754 number.
pub fn read_f64(reader: &mut ByteReader<'_>) -> (result: Result<u64, ReadError>)
    ensures
        read_matches(result, final(reader).remaining(), decode_u64(old(reader).remaining())),
{
    read_u64(reader)
}

/// Reads one byte as a truth value: zero is false, all else is true.
pub fn read_bool(reader: &mut ByteReader<'_>) -> (result: Result<bool, ReadError>)
    ensures
        read_matches(result, final(reader).remaining(), decode_bool(old(reader).remaining())),
{
    proof {
        lemma_radix_values();
    }
    match read_unsigned(reader, 1) {
        Ok(raw) => Ok(raw != 0),
        Err(error) => Err(error),
    }
}

/// Reads a byte string: an eight-byte length of at most 65535, then that
/// many bytes. The bytes need not be text.
pub fn read_string(reader: &mut ByteReader<'_>) -> (result: Result<Vec<u8>, ReadError>)
    ensures
        match decode_string(old(reader).remaining()) {
            Ok((bytes, rest)) => {
                &&& result matches Ok(read) && read@ == bytes
                &&& final(reader).remaining() == rest
            },
            Err(error) => result == Err::<Vec<u8>, ReadError>(error),
        },
{
    let length = read_u64(reader)?;
    if length > MAX_STRING_LENGTH {
        return Err(ReadError::OversizedString);
    }
    match reader.read_exact(length as usize) {
        Some(bytes) => Ok(slice_to_vec(bytes)),
        None => Err(ReadError::TruncatedInput),
    }
}

} // verus!
