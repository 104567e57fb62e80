//! Little-endian layouts of the fixed-width scalars, as mathematics.
//!
//! An unsigned scalar of `n` bytes is the sum of `byte[i] * 256^i`. A signed
//! scalar is stored as its two's complement pattern of the same width.
use vstd::prelude::*;

verus! {

/// `256^width`: the number of values that `width` bytes can hold.
pub open spec fn radix(width: nat) -> nat
    decreases width,
{
    if width == 0 {
        1
    } else {
        256 * radix((width - 1) as nat)
    }
}

/// The `width` low bytes of `value`, least significant first.
pub open spec fn le_bytes(value: nat, width: nat) -> Seq<u8>
    decreases width,
{
    if width == 0 {
        Seq::empty()
    } else {
        seq![(value % 256) as u8] + le_bytes(value / 256, (width - 1) as nat)
    }
}

/// The number that `bytes` hold, least significant byte first.
pub open spec fn le_value(bytes: Seq<u8>) -> nat
    decreases bytes.len(),
{
    if bytes.len() == 0 {
        0
    } else {
        bytes[0] as nat + 256 * le_value(bytes.drop_first())
    }
}

/// The widths in use hold as many values as their integer types.
pub proof fn lemma_radix_values()
    ensures
        radix(0) == 1,
        radix(1) == 0x100,
        radix(2) == 0x1_0000,
        radix(4) == 0x1_0000_0000,
        radix(8) == 0x1_0000_0000_0000_0000,
{
    reveal_with_fuel(radix, 9);
}

/// A layout of `width` bytes has `width` bytes.
pub proof fn lemma_le_bytes_len(value: nat, width: nat)
    ensures
        le_bytes(value, width).len() == width,
    decreases width,
{
    if width > 0 {
        lemma_le_bytes_len(value / 256, (width - 1) as nat);
    }
}

/// What `n` bytes hold is below `256^n`.
pub proof fn lemma_le_value_bound(bytes: Seq<u8>)
    ensures
        le_value(bytes) < radix(bytes.len()),
    decreases bytes.len(),
{
    if bytes.len() > 0 {
        lemma_le_value_bound(bytes.drop_first());
    }
}

/// Laying out a value that fits and reading it back changes nothing.
pub proof fn lemma_le_roundtrip(value: nat, width: nat)
    requires
        value < radix(width),
    ensures
        le_value(le_bytes(value, width)) == value,
    decreases width,
{
    if width > 0 {
        let rest = le_bytes(value / 256, (width - 1) as nat);
        lemma_le_roundtrip(value / 256, (width - 1) as nat);
        assert(le_bytes(value, width).drop_first() =~= rest);
    }
}

/// A layout followed by more bytes is split again at its width: the value
/// comes back, and so do the bytes that followed.
pub proof fn lemma_le_prefix(value: nat, width: nat, tail: Seq<u8>)
    requires
        value < radix(width),
    ensures
        (le_bytes(value, width) + tail).len() >= width,
        le_value((le_bytes(value, width) + tail).take(width as int)) == value,
        (le_bytes(value, width) + tail).skip(width as int) == tail,
{
    lemma_le_bytes_len(value, width);
    lemma_le_roundtrip(value, width);
    let whole = le_bytes(value, width) + tail;
    assert(whole.take(width as int) =~= le_bytes(value, width));
    assert(whole.skip(width as int) =~= tail);
}

/// The two's complement pattern of `value`, where `modulus` is two to the
/// width in bits.
pub open spec fn pattern(value: int, modulus: nat) -> nat {
    if value < 0 {
        (value + modulus) as nat
    } else {
        value as nat
    }
}

/// The signed number whose two's complement pattern is `raw`, where
/// `modulus` is two to the width in bits.
pub open spec fn signed(raw: nat, modulus: nat) -> int {
    if 2 * raw >= modulus {
        raw - modulus
    } else {
        raw as int
    }
}

/// A signed number in range and its pattern determine each other.
pub proof fn lemma_pattern_roundtrip(value: int, modulus: nat)
    requires
        modulus % 2 == 0,
        -(modulus / 2) <= value < modulus / 2,
    ensures
        pattern(value, modulus) < modulus,
        signed(pattern(value, modulus), modulus) == value,
{
}

} // verus!
