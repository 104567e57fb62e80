//! Placement of tensor payloads in the data region of a container.
//!
//! Payloads follow each other in the order of their tensors. Each starts at
//! the cursor, and the cursor then moves past the payload and up to the next
//! multiple of 32.
use vstd::prelude::*;

verus! {

/// The smallest multiple of 32 that is not below `offset`.
pub open spec fn spec_align(offset: nat) -> nat {
    (offset + (32 - offset % 32) % 32) as nat
}

/// Where the cursor stands after a payload of `size` bytes was placed at
/// `offset`.
pub open spec fn spec_advance(offset: nat, size: nat) -> nat {
    spec_align(offset + size)
}

/// Where the cursor stands after payloads of the first `count` sizes were
/// placed one after the other, the first of them at `start`.
pub open spec fn cursor_after(start: nat, sizes: Seq<nat>, count: nat) -> nat
    decreases count,
{
    if count == 0 {
        start
    } else {
        spec_advance(cursor_after(start, sizes, (count - 1) as nat), sizes[count - 1])
    }
}

/// The offset of tensor `index` where the first tensor is placed at 0: the
/// cursor after the tensors before it.
pub open spec fn offset_of(sizes: Seq<nat>, index: nat) -> nat {
    cursor_after(0, sizes, index)
}

/// `spec_align` rounds up to a boundary, moves by less than one block, and
/// leaves aligned offsets alone.
pub proof fn lemma_align_properties(offset: nat)
    ensures
        spec_align(offset) % 32 == 0,
        offset <= spec_align(offset) < offset + 32,
        offset % 32 == 0 ==> spec_align(offset) == offset,
{
}

/// For any sizes, every assigned offset is a multiple of 32, and each
/// tensor starts no earlier than where the one before it ends.
pub proof fn lemma_offsets_aligned(sizes: Seq<nat>, index: nat)
    requires
        index < sizes.len(),
    ensures
        offset_of(sizes, index) % 32 == 0,
        offset_of(sizes, index + 1) % 32 == 0,
        offset_of(sizes, index + 1) >= offset_of(sizes, index) + sizes[index as int],
        offset_of(sizes, index + 1) < offset_of(sizes, index) + sizes[index as int] + 32,
    decreases index,
{
    if index > 0 {
        lemma_offsets_aligned(sizes, (index - 1) as nat);
    }
    lemma_align_properties(offset_of(sizes, index) + sizes[index as int]);
}

/// Offsets never decrease along the tensors, and they increase across every
/// tensor that has at least one byte.
pub proof fn lemma_offsets_ordered(sizes: Seq<nat>, earlier: nat, later: nat)
    requires
        earlier <= later <= sizes.len(),
    ensures
        offset_of(sizes, earlier) <= offset_of(sizes, later),
        earlier < later && sizes[earlier as int] > 0 ==> offset_of(sizes, earlier) < offset_of(
            sizes,
            later,
        ),
    decreases later - earlier,
{
    if earlier < later {
        lemma_offsets_aligned(sizes, earlier);
        lemma_offsets_ordered(sizes, earlier + 1, later);
    }
}

/// The cursor does not depend on the sizes that come after it.
pub proof fn lemma_cursor_prefix(start: nat, sizes: Seq<nat>, longer: Seq<nat>, count: nat)
    requires
        count <= sizes.len() <= longer.len(),
        forall|index: int| 0 <= index < sizes.len() ==> sizes[index] == longer[index],
    ensures
        cursor_after(start, sizes, count) == cursor_after(start, longer, count),
    decreases count,
{
    if count > 0 {
        lemma_cursor_prefix(start, sizes, longer, (count - 1) as nat);
    }
}

/// Rounds an offset up to the next 32-byte boundary.
///
/// An offset within 31 of `u64::MAX` that is no boundary itself has no
/// boundary above it that fits; such an offset is left out, and
/// `checked_align_offset` takes it.
pub fn align_offset(offset: u64) -> (aligned: u64)
    requires
        spec_align(offset as nat) <= u64::MAX,
    ensures
        aligned == spec_align(offset as nat),
{
    offset + (32 - (offset % 32)) % 32
}

/// Rounds an offset up to the next 32-byte boundary, where that boundary
/// fits in 64 bits.
pub fn checked_align_offset(offset: u64) -> (aligned: Option<u64>)
    ensures
        spec_align(offset as nat) <= u64::MAX ==> aligned == Some(spec_align(offset as nat) as u64),
        spec_align(offset as nat) > u64::MAX ==> aligned.is_none(),
{
    let padding = (32 - (offset % 32)) % 32;
    if padding <= u64::MAX - offset {
        Some(offset + padding)
    } else {
        None
    }
}

/// How many zero bytes bring a position to the next 32-byte boundary.
pub fn padding_for(position: u64) -> (padding: u64)
    ensures
        padding < 32,
        position + padding == spec_align(position as nat),
{
    (32 - (position % 32)) % 32
}

/// Moves the cursor past a payload of `size` bytes placed at `offset` and
/// up to the next boundary, where the result fits in 64 bits.
pub fn advance_offset(offset: u64, size: u64) -> (next: Option<u64>)
    ensures
        spec_advance(offset as nat, size as nat) <= u64::MAX ==> next == Some(
            spec_advance(offset as nat, size as nat) as u64,
        ),
        spec_advance(offset as nat, size as nat) > u64::MAX ==> next.is_none(),
{
    match offset.checked_add(size) {
        Some(end) => checked_align_offset(end),
        None => None,
    }
}

} // verus!
