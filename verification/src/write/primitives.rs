//! Writing the fixed-width scalars and the length-prefixed byte string.
use vstd::prelude::*;
use crate::error::WriteError;
use crate::read::primitives::MAX_STRING_LENGTH;
use crate::endian::{le_bytes, pattern, radix, lemma_radix_values};

verus! {

/// The one byte of `value`.
pub open spec fn encode_u8(value: u8) -> Seq<u8> {
    le_bytes(value as nat, 1)
}

/// The one byte of `value` in two's complement.
pub open spec fn encode_i8(value: i8) -> Seq<u8> {
    le_bytes(pattern(value as int, radix(1)), 1)
}

/// The two bytes of `value`, least significant first.
pub open spec fn encode_u16(value: u16) -> Seq<u8> {
    le_bytes(value as nat, 2)
}

/// The two bytes of `value` in two's complement, least significant first.
pub open spec fn encode_i16(value: i16) -> Seq<u8> {
    le_bytes(pattern(value as int, radix(2)), 2)
}

/// The four bytes of `value`, least significant first.
pub open spec fn encode_u32(value: u32) -> Seq<u8> {
    le_bytes(value as nat, 4)
}

/// The four bytes of `value` in two's complement, least significant first.
pub open spec fn encode_i32(value: i32) -> Seq<u8> {
    le_bytes(pattern(value as int, radix(4)), 4)
}

/// The eight bytes of `value`, least significant first.
pub open spec fn encode_u64(value: u64) -> Seq<u8> {
    le_bytes(value as nat, 8)
}

/// The eight bytes of `value` in two's complement, least significant first.
pub open spec fn encode_i64(value: i64) -> Seq<u8> {
    le_bytes(pattern(value as int, radix(8)), 8)
}

/// The one byte of a truth value: 1 for true, 0 for false.
pub open spec fn encode_bool(value: bool) -> Seq<u8> {
    le_bytes(
        if value {
            1
        } else {
            0
        },
        1,
    )
}

/// The layout of a byte string: its length in eight bytes, then its bytes.
/// A string of more than 65535 bytes has no layout.
pub open spec fn encode_string(data: Seq<u8>) -> Result<Seq<u8>, WriteError> {
    if data.len() > MAX_STRING_LENGTH {
        Err(WriteError::OversizedString)
    } else {
        Ok(encode_u64(data.len() as u64) + data)
    }
}

/// Appends the `width` low bytes of `value`, least significant first.
fn write_unsigned(writer: &mut Vec<u8>, value: u64, width: usize)
    ensures
        final(writer)@ == old(writer)@ + le_bytes(value as nat, width as nat),
{
    let mut rest: u64 = value;
    let mut index: usize = 0;
    assert(old(writer)@ + le_bytes(value as nat, width as nat) =~= old(writer)@ + Seq::<u8>::empty()
        + le_bytes(value as nat, width as nat));
    while index < width
        invariant
            index <= width,
            writer@ + le_bytes(rest as nat, (width - index) as nat) == old(writer)@ + le_bytes(
                value as nat,
                width as nat,
            ),
        decreases width - index,
    {
        let ghost before = writer@;
        writer.push((rest % 256) as u8);
        proof {
            let next = le_bytes((rest / 256) as nat, (width - index - 1) as nat);
            assert(before + le_bytes(rest as nat, (width - index) as nat) =~= before.push(
                (rest % 256) as u8,
            ) + next);
        }
        rest = rest / 256;
        index = index + 1;
    }
    assert(writer@ + le_bytes(rest as nat, 0) =~= writer@);
}

/// Appends one byte.
pub fn write_u8(writer: &mut Vec<u8>, value: u8)
    ensures
        final(writer)@ == old(writer)@ + encode_u8(value),
{
    write_unsigned(writer, value as u64, 1)
}

/// Appends one byte in two's complement.
pub fn write_i8(writer: &mut Vec<u8>, value: i8)
    ensures
        final(writer)@ == old(writer)@ + encode_i8(value),
{
    proof {
        lemma_radix_values();
    }
    let raw: u64 = if value < 0 {
        (value as i64 + 0x100) as u64
    } else {
        value as u64
    };
    write_unsigned(writer, raw, 1)
}

/// Appends two bytes, least significant first.
pub fn write_u16(writer: &mut Vec<u8>, value: u16)
    ensures
        final(writer)@ == old(writer)@ + encode_u16(value),
{
    write_unsigned(writer, value as u64, 2)
}

/// Appends two bytes in two's complement, least significant first.
pub fn write_i16(writer: &mut Vec<u8>, value: i16)
    ensures
        final(writer)@ == old(writer)@ + encode_i16(value),
{
    proof {
        lemma_radix_values();
    }
    let raw: u64 = if value < 0 {
        (value as i64 + 0x1_0000) as u64
    } else {
        value as u64
    };
    write_unsigned(writer, raw, 2)
}

/// Appends four bytes, least significant first.
pub fn write_u32(writer: &mut Vec<u8>, value: u32)
    ensures
        final(writer)@ == old(writer)@ + encode_u32(value),
{
    write_unsigned(writer, value as u64, 4)
}

/// Appends four bytes in two's complement, least significant first.
pub fn write_i32(writer: &mut Vec<u8>, value: i32)
    ensures
        final(writer)@ == old(writer)@ + encode_i32(value),
{
    proof {
        lemma_radix_values();
    }
    let raw: u64 = if value < 0 {
        (value as i64 + 0x1_0000_0000) as u64
    } else {
        value as u64
    };
    write_unsigned(writer, raw, 4)
}

/// Appends eight bytes, least significant first.
pub fn write_u64(writer: &mut Vec<u8>, value: u64)
    ensures
        final(writer)@ == old(writer)@ + encode_u64(value),
{
    write_unsigned(writer, value, 8)
}

/// Appends eight bytes in two's complement, least significant first.
pub fn write_i64(writer: &mut Vec<u8>, value: i64)
    ensures
        final(writer)@ == old(writer)@ + encode_i64(value),
{
    proof {
        lemma_radix_values();
    }
    let raw: u64 = if value < 0 {
        (value as i128 + 0x1_0000_0000_0000_0000) as u64
    } else {
        value as u64
    };
    write_unsigned(writer, raw, 8)
}

/// Appends the bit pattern of a 32-bit IEEE 754 number.
pub fn write_f32(writer: &mut Vec<u8>, bits: u32)
    ensures
        final(writer)@ == old(writer)@ + encode_u32(bits),
{
    write_u32(writer, bits)
}

/// Appends the bit pattern of a 64-bit IEEE 754 number.
pub fn write_f64(writer: &mut Vec<u8>, bits: u64)
    ensures
        final(writer)@ == old(writer)@ + encode_u64(bits),
{
    write_u64(writer, bits)
}

/// Appends a truth value as one byte: 1 for true, 0 for false.
pub fn write_bool(writer: &mut Vec<u8>, value: bool)
    ensures
        final(writer)@ == old(writer)@ + encode_bool(value),
{
    write_unsigned(
        writer,
        if value {
            1
        } else {
            0
        },
        1,
    )
}

/// Appends a byte string: its length in eight bytes, then its bytes.
/// A string of more than 65535 bytes is refused and nothing is written.
pub fn write_string(writer: &mut Vec<u8>, data: &[u8]) -> (result: Result<(), WriteError>)
    ensures
        match encode_string(data@) {
            Ok(bytes) => result is Ok && final(writer)@ == old(writer)@ + bytes,
            Err(error) => result == Err::<(), WriteError>(error) && final(writer)@ == old(writer)@,
        },
{
    if data.len() > MAX_STRING_LENGTH as usize {
        return Err(WriteError::OversizedString);
    }
    write_u64(writer, data.len() as u64);
    writer.extend_from_slice(data);
    assert(writer@ =~= old(writer)@ + (encode_u64(data@.len() as u64) + data@));
    Ok(())
}

} // verus!
