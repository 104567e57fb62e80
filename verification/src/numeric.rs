//! Turning the payload of a source tensor into the payload of a container
//! tensor: 16-bit brain floats are widened to 32 bits and then written as
//! they are, or narrowed to 16-bit halves first.
//!
//! Numbers are handled as bit patterns throughout. Narrowing rounds, which
//! is arithmetic on numbers with fractions; it is handed in by the caller as
//! a function from the pattern of a 32-bit number to the pattern of a half.
use vstd::prelude::*;
use vstd::slice::slice_subrange;
use crate::dimensions::TensorDimensions;
use crate::error::{PackError, PackFault};
use crate::header::TensorType;
use crate::layout::{padding_for, spec_align};
use crate::safetensors::{find_entry, spec_find_entry, StHeader, StHeaderView};
use crate::write::primitives::{encode_u16, encode_u32, write_u16, write_u32};

verus! {

/// One tensor that a task converts: where it comes from and where it goes.
#[derive(Debug, Clone, PartialEq, Eq)]
pub struct ConvertTensorInfo {
    /// The name of the tensor in the container.
    pub name: String,
    /// The name of the tensor in the source.
    pub source: String,
    /// The shape of the tensor in the container.
    pub dimensions: TensorDimensions,
    /// Where the tensor's values start in the tensor data of the container.
    pub offset: u64,
    /// How the tensor's values are encoded in the container.
    pub ty: TensorType,
}

/// What a `ConvertTensorInfo` stands for.
pub struct ConvertTensorInfoView {
    pub name: Seq<char>,
    pub source: Seq<char>,
    pub dimensions: TensorDimensions,
    pub offset: u64,
    pub ty: TensorType,
}

impl View for ConvertTensorInfo {
    type V = ConvertTensorInfoView;

    open spec fn view(&self) -> ConvertTensorInfoView {
        ConvertTensorInfoView {
            name: self.name@,
            source: self.source@,
            dimensions: self.dimensions,
            offset: self.offset,
            ty: self.ty,
        }
    }
}

/// Whether a brain float pattern stands for no number: all exponent bits
/// set and a fraction that is not zero.
pub open spec fn is_nan(bits: u16) -> bool {
    bits % 0x8000 > 0x7f80
}

/// The pattern of the 32-bit number that a brain float equals: the same
/// sixteen bits on top of sixteen zero bits. A pattern that stands for no
/// number gets its highest fraction bit set on the way.
pub open spec fn spec_widen(bits: u16) -> u32 {
    if is_nan(bits) && (bits / 0x40) % 2 == 0 {
        ((bits + 0x40) * 0x1_0000) as u32
    } else {
        (bits * 0x1_0000) as u32
    }
}

/// The brain float that stands at place `index` of a payload, least
/// significant byte first.
pub open spec fn source_scalar(data: Seq<u8>, index: int) -> u16 {
    (data[2 * index] + 0x100 * data[2 * index + 1]) as u16
}

/// The widened scalars of a payload of brain floats.
pub open spec fn spec_widen_all(data: Seq<u8>) -> Seq<u32> {
    Seq::new(data.len() / 2, |index: int| spec_widen(source_scalar(data, index)))
}

/// The layout of 32-bit patterns, each least significant byte first.
pub open spec fn f32_layout(scalars: Seq<u32>) -> Seq<u8>
    decreases scalars.len(),
{
    if scalars.len() == 0 {
        Seq::empty()
    } else {
        f32_layout(scalars.drop_last()) + encode_u32(scalars.last())
    }
}

/// The layout of 16-bit patterns, each least significant byte first.
pub open spec fn f16_layout(halves: Seq<u16>) -> Seq<u8>
    decreases halves.len(),
{
    if halves.len() == 0 {
        Seq::empty()
    } else {
        f16_layout(halves.drop_last()) + encode_u16(halves.last())
    }
}

/// Whether `halves` is what `narrow` made of `scalars`, one by one.
pub open spec fn narrowed<F: Fn(u32) -> u16>(narrow: &F, scalars: Seq<u32>, halves: Seq<u16>)
    -> bool {
    &&& halves.len() == scalars.len()
    &&& forall|index: int|
        0 <= index < scalars.len() ==> call_ensures(
            narrow,
            (scalars[index],),
            #[trigger] halves[index],
        )
}

/// Whether `data` is a payload of the given element type for `scalars`:
/// the patterns themselves for F32, what `narrow` made of them for F16.
pub open spec fn is_payload<F: Fn(u32) -> u16>(
    narrow: &F,
    ty: TensorType,
    scalars: Seq<u32>,
    data: Seq<u8>,
) -> bool {
    match ty {
        TensorType::F32 => data == f32_layout(scalars),
        TensorType::F16 => exists|halves: Seq<u16>|
            narrowed(narrow, scalars, halves) && data == f16_layout(halves),
        _ => false,
    }
}

/// How many bytes one scalar of an element type takes, for the types that
/// the packer produces.
pub open spec fn scalar_width(ty: TensorType) -> nat {
    match ty {
        TensorType::F16 => 2,
        TensorType::F32 => 4,
        _ => 0,
    }
}

/// A layout has two bytes for every half and four for every 32-bit
/// pattern.
pub proof fn lemma_layout_len(halves: Seq<u16>, scalars: Seq<u32>)
    ensures
        f16_layout(halves).len() == 2 * halves.len(),
        f32_layout(scalars).len() == 4 * scalars.len(),
    decreases halves.len() + scalars.len(),
{
    if halves.len() > 0 {
        lemma_layout_len(halves.drop_last(), scalars);
        crate::wire::lemma_encoding_lengths(0, halves.last(), 0, 0);
    } else if scalars.len() > 0 {
        lemma_layout_len(halves, scalars.drop_last());
        crate::wire::lemma_encoding_lengths(0, 0, scalars.last(), 0);
    }
}

/// A payload has as many bytes as its scalars take in its element type.
pub proof fn lemma_payload_len<F: Fn(u32) -> u16>(
    narrow: &F,
    ty: TensorType,
    scalars: Seq<u32>,
    data: Seq<u8>,
)
    requires
        is_payload(narrow, ty, scalars, data),
    ensures
        data.len() == scalars.len() * scalar_width(ty),
{
    match ty {
        TensorType::F32 => {
            lemma_layout_len(Seq::empty(), scalars);
        },
        TensorType::F16 => {
            let halves = choose|halves: Seq<u16>|
                narrowed(narrow, scalars, halves) && data == f16_layout(halves);
            lemma_layout_len(halves, Seq::empty());
        },
        _ => {},
    }
}

/// `count` zero bytes.
pub open spec fn zeros(count: nat) -> Seq<u8> {
    Seq::new(count, |index: int| 0u8)
}

/// The scalars that a tensor takes from its source, widened to 32 bits.
/// The source has to have the tensor, in at most four dimensions, stored as
/// `BF16`, with as many scalars as the tensor declares and two bytes for
/// each, all of them inside the file; these are checked in that order.
pub open spec fn spec_read_source_scalars(
    file: Seq<u8>,
    header: StHeaderView,
    tensor: ConvertTensorInfoView,
) -> Result<Seq<u32>, PackFault> {
    match spec_find_entry(header.entries, tensor.source) {
        None => Err(PackFault::MissingTensor),
        Some(info) => if info.data_shape.len() > 4 {
            Err(PackFault::TooManyDimensions)
        } else if tensor.dimensions.spec_total() > u64::MAX
            || TensorDimensions::spec_from_width_last(info.data_shape).spec_total() > u64::MAX
            || tensor.dimensions.spec_total() * 2 > u64::MAX {
            Err(PackFault::TensorTooLarge)
        } else if info.data_type != "BF16"@ {
            Err(PackFault::UnsupportedSourceType)
        } else if TensorDimensions::spec_from_width_last(info.data_shape).spec_total()
            != tensor.dimensions.spec_total() {
            Err(PackFault::ShapeMismatch)
        } else if info.end < info.start || info.end - info.start != tensor.dimensions.spec_total()
            * 2 {
            Err(PackFault::SizeMismatch)
        } else if header.data_start + info.end > file.len() {
            Err(PackFault::TruncatedSource)
        } else {
            Ok(
                spec_widen_all(
                    file.subrange(header.data_start + info.start, header.data_start + info.end),
                ),
            )
        },
    }
}

/// Widens a brain float to the 32-bit number that it equals, both as bit
/// patterns.
pub fn widen_bf16(bits: u16) -> (wide: u32)
    ensures
        wide == spec_widen(bits),
{
    let quiet: u32 = if bits % 0x8000 > 0x7f80 && (bits / 0x40) % 2 == 0 {
        bits as u32 + 0x40
    } else {
        bits as u32
    };
    quiet * 0x1_0000
}

/// Widens every brain float of a payload.
pub fn widen_all(data: &[u8]) -> (scalars: Vec<u32>)
    ensures
        scalars@ == spec_widen_all(data@),
{
    let length = data.len();
    let count = length / 2;
    let mut scalars: Vec<u32> = Vec::new();
    let mut index: usize = 0;
    while index < count
        invariant
            length == data@.len(),
            index <= count == data@.len() / 2,
            scalars@.len() == index,
            forall|at: int|
                0 <= at < index ==> scalars@[at] == spec_widen(source_scalar(data@, at)),
        decreases count - index,
    {
        let low = data[2 * index] as u16;
        let high = data[2 * index + 1] as u16;
        scalars.push(widen_bf16(low + 0x100 * high));
        index = index + 1;
    }
    assert(scalars@ =~= spec_widen_all(data@));
    scalars
}

/// Reads the scalars of a tensor from its source and widens them to 32
/// bits.
pub fn read_source_scalars(
    source_file: &[u8],
    source_header: &StHeader,
    tensor: &ConvertTensorInfo,
) -> (result: Result<Vec<u32>, PackError>)
    ensures
        match spec_read_source_scalars(source_file@, source_header@, tensor@) {
            Ok(scalars) => result matches Ok(read) && read@ == scalars,
            Err(fault) => result matches Err(error) && error.reports(
                fault,
                Seq::empty(),
                tensor.name@,
            ),
        },
{
    let name = tensor.name.as_str();
    let source_info = match find_entry(source_header, tensor.source.as_str()) {
        Some(info) => info,
        None => {
            return Err(PackError::about(PackFault::MissingTensor, name));
        },
    };
    let source_dimensions = match TensorDimensions::from_width_last(
        source_info.data_shape.as_slice(),
    ) {
        Ok(dimensions) => dimensions,
        Err(_) => {
            return Err(PackError::about(PackFault::TooManyDimensions, name));
        },
    };
    let scalars_len = match tensor.dimensions.checked_total() {
        Some(total) => total,
        None => {
            return Err(PackError::about(PackFault::TensorTooLarge, name));
        },
    };
    let source_len = match source_dimensions.checked_total() {
        Some(total) => total,
        None => {
            return Err(PackError::about(PackFault::TensorTooLarge, name));
        },
    };
    let data_expected = match scalars_len.checked_mul(2) {
        Some(bytes) => bytes,
        None => {
            return Err(PackError::about(PackFault::TensorTooLarge, name));
        },
    };
    let bf16 = crate::text::copy_text("BF16");
    if source_info.data_type != bf16 {
        return Err(PackError::about(PackFault::UnsupportedSourceType, name));
    }
    if source_len != scalars_len {
        return Err(PackError::about(PackFault::ShapeMismatch, name));
    }
    let start = source_info.data_offsets[0];
    let end = source_info.data_offsets[1];
    if end < start || end - start != data_expected {
        return Err(PackError::about(PackFault::SizeMismatch, name));
    }
    let length = source_file.len() as u64;
    if source_header.data_start > length || end > length - source_header.data_start {
        return Err(PackError::about(PackFault::TruncatedSource, name));
    }
    let first = (source_header.data_start + start) as usize;
    let last = (source_header.data_start + end) as usize;
    let data = slice_subrange(source_file, first, last);
    Ok(widen_all(data))
}

/// Lays out 32-bit patterns, each least significant byte first.
pub fn encode_values_f32(scalars: &Vec<u32>) -> (data: Vec<u8>)
    ensures
        data@ == f32_layout(scalars@),
{
    let mut data: Vec<u8> = Vec::new();
    let mut index: usize = 0;
    assert(scalars@.take(0) =~= Seq::<u32>::empty());
    while index < scalars.len()
        invariant
            index <= scalars@.len(),
            data@ == f32_layout(scalars@.take(index as int)),
        decreases scalars@.len() - index,
    {
        proof {
            assert(scalars@.take(index + 1).drop_last() =~= scalars@.take(index as int));
        }
        write_u32(&mut data, scalars[index]);
        index = index + 1;
    }
    assert(scalars@.take(index as int) =~= scalars@);
    data
}

/// Lays out the patterns of 16-bit halves, each least significant byte
/// first.
pub fn encode_values_f16(halves: &Vec<u16>) -> (data: Vec<u8>)
    ensures
        data@ == f16_layout(halves@),
{
    let mut data: Vec<u8> = Vec::new();
    let mut index: usize = 0;
    assert(halves@.take(0) =~= Seq::<u16>::empty());
    while index < halves.len()
        invariant
            index <= halves@.len(),
            data@ == f16_layout(halves@.take(index as int)),
        decreases halves@.len() - index,
    {
        proof {
            assert(halves@.take(index + 1).drop_last() =~= halves@.take(index as int));
        }
        write_u16(&mut data, halves[index]);
        index = index + 1;
    }
    assert(halves@.take(index as int) =~= halves@);
    data
}

/// Narrows every scalar with the function that was handed in.
pub fn narrow_values<F: Fn(u32) -> u16>(scalars: &Vec<u32>, narrow: &F) -> (halves: Vec<u16>)
    requires
        forall|bits: u32| call_requires(narrow, (bits,)),
    ensures
        narrowed(narrow, scalars@, halves@),
{
    let mut halves: Vec<u16> = Vec::new();
    let mut index: usize = 0;
    while index < scalars.len()
        invariant
            forall|bits: u32| call_requires(narrow, (bits,)),
            index <= scalars@.len(),
            halves@.len() == index,
            forall|at: int|
                0 <= at < index ==> call_ensures(narrow, (scalars@[at],), #[trigger] halves@[at]),
        decreases scalars@.len() - index,
    {
        let half = narrow(scalars[index]);
        halves.push(half);
        index = index + 1;
    }
    halves
}

/// Encodes scalars in the element type of a container tensor. Only F16 and
/// F32 can be produced.
pub fn convert_values<F: Fn(u32) -> u16>(ty: TensorType, scalars: &Vec<u32>, narrow: &F) -> (data:
    Option<Vec<u8>>)
    requires
        forall|bits: u32| call_requires(narrow, (bits,)),
    ensures
        match data {
            Some(data) => is_payload(narrow, ty, scalars@, data@),
            None => ty != TensorType::F16 && ty != TensorType::F32,
        },
{
    match ty {
        TensorType::F16 => {
            let halves = narrow_values(scalars, narrow);
            Some(encode_values_f16(&halves))
        },
        TensorType::F32 => Some(encode_values_f32(scalars)),
        _ => None,
    }
}

/// Appends zero bytes until the output is a multiple of 32 bytes long, and
/// tells how long it is then.
pub fn write_padding(target: &mut Vec<u8>) -> (position: u64)
    ensures
        final(target)@ == old(target)@ + zeros((spec_align(old(target)@.len()) - old(target)@.len()) as nat),
        position == final(target)@.len() == spec_align(old(target)@.len()),
{
    let current = target.len() as u64;
    let padding = padding_for(current);
    let mut written: u64 = 0;
    assert(target@ =~= old(target)@ + zeros(0));
    while written < padding
        invariant
            written <= padding < 32,
            current + padding == spec_align(current as nat),
            current == old(target)@.len(),
            target@ == old(target)@ + zeros(written as nat),
        decreases padding - written,
    {
        target.push(0);
        written = written + 1;
        assert(target@ =~= old(target)@ + zeros(written as nat));
    }
    target.len() as u64
}

/// Places the payload of a tensor in the output: pads the output to the
/// next multiple of 32 bytes, makes sure that this is where the offset of
/// the tensor points, and appends the payload.
pub fn write_scalars(
    target: &mut Vec<u8>,
    data_start: u64,
    tensor: &ConvertTensorInfo,
    data: &Vec<u8>,
) -> (result: Result<(), PackError>)
    ensures
        old(target)@.is_prefix_of(final(target)@),
        spec_align(old(target)@.len()) == data_start + tensor.offset ==> {
            &&& result is Ok
            &&& final(target)@ == old(target)@ + zeros(
                (data_start + tensor.offset - old(target)@.len()) as nat,
            ) + data@
        },
        spec_align(old(target)@.len()) != data_start + tensor.offset ==> {
            &&& result matches Err(error)
            &&& error.reports(PackFault::LayoutInvariantViolation, Seq::empty(), tensor.name@)
        },
{
    let position = write_padding(target);
    let expected = data_start.checked_add(tensor.offset);
    if expected != Some(position) {
        return Err(PackError::about(PackFault::LayoutInvariantViolation, tensor.name.as_str()));
    }
    target.extend_from_slice(data.as_slice());
    Ok(())
}

} // verus!
