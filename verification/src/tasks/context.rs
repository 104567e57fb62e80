//! What the tasks of a run build together: the metadata entries and the
//! tensor descriptors of the header, and the cursor that places the tensor
//! payloads.
use vstd::prelude::*;
use crate::dimensions::TensorDimensions;
use crate::header::{TensorInfo, TensorInfoView, TensorType};
use crate::layout::{advance_offset, cursor_after, lemma_cursor_prefix, offset_of, spec_advance};
use crate::metadata::{MetadataValue, MetadataValueView};
use crate::numeric::scalar_width;
use crate::text::copy_text;

verus! {

/// How many bytes the payload of a tensor takes.
pub open spec fn payload_size(info: TensorInfoView) -> nat {
    info.dimensions.spec_total() * scalar_width(info.tensor_type)
}

/// The payload sizes of tensors, in their order.
pub open spec fn payload_sizes(tensors: Seq<TensorInfoView>) -> Seq<nat> {
    Seq::new(tensors.len(), |index: int| payload_size(tensors[index]))
}

/// What each metadata entry stands for.
pub open spec fn metadata_views(entries: Seq<(String, MetadataValue)>) -> Seq<
    (Seq<char>, MetadataValueView),
> {
    Seq::new(entries.len(), |index: int| entries[index]@)
}

/// What each tensor descriptor stands for.
pub open spec fn tensor_views(tensors: Seq<TensorInfo>) -> Seq<TensorInfoView> {
    Seq::new(tensors.len(), |index: int| tensors[index]@)
}

/// Whether descriptors are laid out one after the other from offset 0, each
/// at the next multiple of 32 after the one before, with the cursor behind
/// the last.
pub open spec fn descriptors_laid_out(descriptors: Seq<TensorInfoView>, cursor: u64) -> bool {
    &&& forall|index: int|
        0 <= index < descriptors.len() ==> (#[trigger] descriptors[index]).offset == offset_of(
            payload_sizes(descriptors),
            index as nat,
        )
    &&& cursor == cursor_after(0, payload_sizes(descriptors), descriptors.len())
}

/// The accumulator of a run. It is made once, handed to every task in turn,
/// and gives the header its contents at the end.
#[derive(Debug, PartialEq, Eq)]
pub struct ProcessContext {
    /// The metadata entries so far.
    pub metadata: Vec<(String, MetadataValue)>,
    /// The tensor descriptors so far.
    pub tensors: Vec<TensorInfo>,
    /// Where the payload of the next tensor will start.
    pub next_offset: u64,
}

impl ProcessContext {
    /// The metadata entries so far.
    pub open spec fn entries(self) -> Seq<(Seq<char>, MetadataValueView)> {
        metadata_views(self.metadata@)
    }

    /// The tensor descriptors so far.
    pub open spec fn descriptors(self) -> Seq<TensorInfoView> {
        tensor_views(self.tensors@)
    }

    /// Whether the tensors are laid out one after the other from offset 0,
    /// each at the next multiple of 32 after the one before, with the cursor
    /// behind the last.
    pub open spec fn laid_out(self) -> bool {
        descriptors_laid_out(self.descriptors(), self.next_offset)
    }

    /// A context without entries, without tensors, and with the cursor at 0.
    pub fn new() -> (ctx: ProcessContext)
        ensures
            ctx.entries().len() == 0,
            ctx.descriptors().len() == 0,
            ctx.next_offset == 0,
            ctx.laid_out(),
    {
        ProcessContext { metadata: Vec::new(), tensors: Vec::new(), next_offset: 0 }
    }

    /// Adds a metadata entry.
    pub fn push_metadata_value(&mut self, key: &str, value: MetadataValue)
        ensures
            final(self).entries() == old(self).entries().push((key@, value@)),
            final(self).tensors == old(self).tensors,
            final(self).next_offset == old(self).next_offset,
    {
        self.metadata.push((copy_text(key), value));
        assert(self.entries() =~= old(self).entries().push((key@, value@)));
    }

    /// Adds a text as a metadata entry. The entry holds the text's UTF-8
    /// bytes.
    pub fn push_metadata_str(&mut self, key: &str, value: &str)
        ensures
            final(self).entries() == old(self).entries().push(
                (key@, MetadataValueView::String(vstd::utf8::encode_utf8(value@))),
            ),
            final(self).tensors == old(self).tensors,
            final(self).next_offset == old(self).next_offset,
    {
        let bytes = vstd::slice::slice_to_vec(value.as_bytes());
        self.push_metadata_value(key, MetadataValue::String(bytes));
    }

    /// Adds a 32-bit number as a metadata entry.
    pub fn push_metadata_u32(&mut self, key: &str, value: u32)
        ensures
            final(self).entries() == old(self).entries().push(
                (key@, MetadataValueView::UInt32(value)),
            ),
            final(self).tensors == old(self).tensors,
            final(self).next_offset == old(self).next_offset,
    {
        self.push_metadata_value(key, MetadataValue::UInt32(value));
    }

    /// Adds a 64-bit number as a metadata entry.
    pub fn push_metadata_u64(&mut self, key: &str, value: u64)
        ensures
            final(self).entries() == old(self).entries().push(
                (key@, MetadataValueView::UInt64(value)),
            ),
            final(self).tensors == old(self).tensors,
            final(self).next_offset == old(self).next_offset,
    {
        self.push_metadata_value(key, MetadataValue::UInt64(value));
    }

    /// Adds a 32-bit number with a fraction, given as its bit pattern, as a
    /// metadata entry.
    pub fn push_metadata_f32(&mut self, key: &str, bits: u32)
        ensures
            final(self).entries() == old(self).entries().push(
                (key@, MetadataValueView::Float32(bits)),
            ),
            final(self).tensors == old(self).tensors,
            final(self).next_offset == old(self).next_offset,
    {
        self.push_metadata_value(key, MetadataValue::Float32(bits));
    }

    /// Adds a tensor at the cursor and moves the cursor past its payload, up
    /// to the next multiple of 32. Where the payload cannot be counted in 64
    /// bits, or the cursor would leave their range, nothing is added. Returns
    /// the offset of the tensor.
    pub fn push_tensor(
        &mut self,
        name: &str,
        tensor_type: TensorType,
        dimensions: TensorDimensions,
    ) -> (offset: Option<u64>)
        requires
            old(self).laid_out(),
        ensures
            final(self).laid_out(),
            final(self).metadata == old(self).metadata,
            match offset {
                Some(offset) => {
                    let added = TensorInfoView { name: name@, tensor_type, dimensions, offset };
                    &&& offset == old(self).next_offset
                    &&& final(self).descriptors() == old(self).descriptors().push(added)
                    &&& final(self).next_offset == spec_advance(
                        offset as nat,
                        payload_size(added),
                    )
                },
                None => {
                    &&& spec_advance(
                        old(self).next_offset as nat,
                        dimensions.spec_total() * scalar_width(tensor_type),
                    ) > u64::MAX
                    &&& *final(self) == *old(self)
                },
            },
    {
        let offset = self.next_offset;
        let width: u64 = match tensor_type {
            TensorType::F16 => 2,
            TensorType::F32 => 4,
            _ => 0,
        };
        proof {
            crate::layout::lemma_align_properties(
                (offset + dimensions.spec_total() * scalar_width(tensor_type)) as nat,
            );
            let total = dimensions.spec_total();
            assert(width > 0 ==> total * width >= total) by (nonlinear_arith);
            assert(width == 0 ==> total * width == 0) by (nonlinear_arith);
        }
        let size = if width == 0 {
            0
        } else {
            let scalars = match dimensions.checked_total() {
                Some(scalars) => scalars,
                None => {
                    return None;
                },
            };
            match scalars.checked_mul(width) {
                Some(size) => size,
                None => {
                    return None;
                },
            }
        };
        let next = match advance_offset(offset, size) {
            Some(next) => next,
            None => {
                return None;
            },
        };
        let ghost before = self.descriptors();
        let info = TensorInfo { name: copy_text(name), tensor_type, dimensions, offset };
        self.tensors.push(info);
        self.next_offset = next;
        proof {
            let after = self.descriptors();
            assert(after =~= before.push(
                TensorInfoView { name: name@, tensor_type, dimensions, offset },
            ));
            let sizes = payload_sizes(before);
            let longer = payload_sizes(after);
            assert forall|index: int| 0 <= index < after.len() implies (#[trigger] after[index]).offset
                == offset_of(longer, index as nat) by {
                if index < before.len() {
                    assert(after[index] == before[index]);
                    lemma_cursor_prefix(0, sizes, longer, index as nat);
                } else {
                    lemma_cursor_prefix(0, sizes, longer, before.len());
                }
            }
            lemma_cursor_prefix(0, sizes, longer, before.len());
            assert(longer[before.len() as int] == size as nat);
        }
        Some(offset)
    }
}

/// Among descriptors that are laid out, every offset is a multiple of 32,
/// each tensor starts no earlier than where the one before it ends, later
/// than it starts if that one has a payload at all, and the cursor stands
/// behind the last tensor.
pub proof fn lemma_laid_out_aligned(descriptors: Seq<TensorInfoView>, cursor: u64, index: int)
    requires
        descriptors_laid_out(descriptors, cursor),
        0 <= index < descriptors.len(),
    ensures
        descriptors[index].offset % 32 == 0,
        cursor % 32 == 0,
        descriptors[index].offset + payload_size(descriptors[index]) <= cursor,
        index + 1 < descriptors.len() ==> descriptors[index].offset + payload_size(
            descriptors[index],
        ) <= descriptors[index + 1].offset,
        index + 1 < descriptors.len() && payload_size(descriptors[index]) > 0
            ==> descriptors[index].offset < descriptors[index + 1].offset,
{
    let sizes = payload_sizes(descriptors);
    crate::layout::lemma_offsets_aligned(sizes, index as nat);
    crate::layout::lemma_offsets_aligned(sizes, (sizes.len() - 1) as nat);
    crate::layout::lemma_offsets_ordered(sizes, (index + 1) as nat, sizes.len());
}

} // verus!
