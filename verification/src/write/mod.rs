//! Encoding a container header as bytes.
pub mod metadata;
pub mod primitives;

use vstd::prelude::*;
use vstd::utf8::encode_utf8;
use crate::error::WriteError;
use crate::header::{Header, HeaderView, TensorInfo, TensorInfoView, CURRENT_VERSION};
use crate::metadata::MetadataValue;
use crate::read::magic;
use crate::read::metadata::element_views;
use crate::write::metadata::{encode_elements, write_metadata_entry};
use crate::write::primitives::{
    encode_string, encode_u32, encode_u64, write_string, write_u32, write_u64, write_u8,
};

verus! {

/// The layout of a tensor descriptor: the name as a byte string, the number
/// of dimensions in use, their extents, the tag of the element type, and
/// the offset.
pub open spec fn encode_tensor_info(info: TensorInfoView) -> Result<Seq<u8>, WriteError> {
    match encode_string(encode_utf8(info.name)) {
        Err(error) => Err(error),
        Ok(name) => match encode_elements::<u64>(
            info.dimensions.slots().take(info.dimensions.spec_count() as int),
        ) {
            Err(error) => Err(error),
            Ok(extents) => Ok(
                name + encode_u32(info.dimensions.spec_count() as u32) + extents + encode_u32(
                    info.tensor_type.spec_tag(),
                ) + encode_u64(info.offset),
            ),
        },
    }
}

/// The layout of what follows the magic bytes of a header: version 3, the
/// number of tensors, the number of metadata entries, the entries, the
/// descriptors.
pub open spec fn encode_header_body(header: HeaderView) -> Result<Seq<u8>, WriteError> {
    match encode_elements::<(String, MetadataValue)>(header.metadata) {
        Err(error) => Err(error),
        Ok(metadata) => match encode_elements::<TensorInfo>(header.tensors) {
            Err(error) => Err(error),
            Ok(tensors) => Ok(
                encode_u32(CURRENT_VERSION) + encode_u64(header.tensors.len() as u64)
                    + encode_u64(header.metadata.len() as u64) + metadata + tensors,
            ),
        },
    }
}

/// The layout of a header: the magic bytes, then the rest.
pub open spec fn encode_header(header: HeaderView) -> Result<Seq<u8>, WriteError> {
    match encode_header_body(header) {
        Err(error) => Err(error),
        Ok(body) => Ok(magic() + body),
    }
}

/// Appends a tensor descriptor. After a failure the writer holds what was
/// written before it.
pub fn write_tensor_info(writer: &mut Vec<u8>, value: &TensorInfo) -> (result: Result<
    (),
    WriteError,
>)
    ensures
        old(writer)@.is_prefix_of(final(writer)@),
        match encode_tensor_info(value@) {
            Ok(bytes) => result is Ok && final(writer)@ == old(writer)@ + bytes,
            Err(error) => result == Err::<(), WriteError>(error),
        },
{
    write_string(writer, value.name.as_str().as_bytes())?;
    let count = value.dimensions.count();
    write_u32(writer, count as u32);
    let ghost start = writer@;
    let ghost slots = value.dimensions.slots().take(count as int);
    let mut index: usize = 0;
    proof {
        assert(slots.take(0) =~= Seq::<u64>::empty());
        assert(start + Seq::<u8>::empty() =~= start);
    }
    while index < count
        invariant
            index <= count <= 4,
            slots == value.dimensions.slots().take(count as int),
            encode_elements::<u64>(slots.take(index as int)) is Ok,
            writer@ == start + encode_elements::<u64>(slots.take(index as int))->Ok_0,
        decreases count - index,
    {
        let ghost done = encode_elements::<u64>(slots.take(index as int))->Ok_0;
        proof {
            assert(slots.take(index + 1).drop_last() =~= slots.take(index as int));
            assert(slots.take(index + 1).last() == value.dimensions.0[index as int]);
        }
        write_u64(writer, value.dimensions.0[index]);
        assert(writer@ =~= start + (done + encode_u64(value.dimensions.0[index as int])));
        index = index + 1;
    }
    let ghost extents = encode_elements::<u64>(slots)->Ok_0;
    proof {
        assert(slots.take(count as int) =~= slots);
    }
    write_u32(writer, value.tensor_type.tag());
    write_u64(writer, value.offset);
    proof {
        let name = encode_string(encode_utf8(value.name@))->Ok_0;
        assert(writer@ =~= old(writer)@ + (name + encode_u32(count as u32) + extents + encode_u32(
            value.tensor_type.spec_tag(),
        ) + encode_u64(value.offset)));
        assert(old(writer)@.is_prefix_of(writer@));
    }
    Ok(())
}

/// Appends the header of a container. After a failure the writer holds
/// what was written before it.
pub fn write_header(writer: &mut Vec<u8>, header: &Header) -> (result: Result<(), WriteError>)
    ensures
        old(writer)@.is_prefix_of(final(writer)@),
        match encode_header(header@) {
            Ok(bytes) => result is Ok && final(writer)@ == old(writer)@ + bytes,
            Err(error) => result == Err::<(), WriteError>(error),
        },
{
    proof {
        assert(header@.metadata =~= element_views(header.metadata@));
        assert(header@.tensors =~= element_views(header.tensors@));
    }
    let ghost metadata_layout = encode_elements::<(String, MetadataValue)>(header@.metadata);
    let ghost tensors_layout = encode_elements::<TensorInfo>(header@.tensors);
    write_u8(writer, 0x47);
    write_u8(writer, 0x47);
    write_u8(writer, 0x55);
    write_u8(writer, 0x46);
    write_u32(writer, CURRENT_VERSION);
    write_u64(writer, header.tensors.len() as u64);
    write_u64(writer, header.metadata.len() as u64);
    let ghost counted = writer@;
    let mut index: usize = 0;
    proof {
        assert(header@.metadata.take(0) =~= Seq::<(Seq<char>, crate::metadata::MetadataValueView)>::empty());
        assert(counted + Seq::<u8>::empty() =~= counted);
    }
    while index < header.metadata.len()
        invariant
            index <= header.metadata@.len(),
            header@.metadata == element_views(header.metadata@),
            old(writer)@.is_prefix_of(counted),
            encode_elements::<(String, MetadataValue)>(header@.metadata.take(index as int)) is Ok,
            writer@ == counted + encode_elements::<(String, MetadataValue)>(
                header@.metadata.take(index as int),
            )->Ok_0,
        decreases header.metadata@.len() - index,
    {
        let ghost done = encode_elements::<(String, MetadataValue)>(
            header@.metadata.take(index as int),
        )->Ok_0;
        proof {
            assert(header@.metadata.take(index + 1).drop_last() =~= header@.metadata.take(
                index as int,
            ));
            assert(header@.metadata.take(index + 1).last() == header.metadata@[index as int]@);
        }
        let entry = &header.metadata[index];
        match write_metadata_entry(writer, entry.0.as_str(), &entry.1) {
            Ok(()) => {
                assert(writer@ =~= counted + (done + crate::write::metadata::encode_entry(
                    entry.0@,
                    entry.1@,
                )->Ok_0));
            },
            Err(error) => {
                proof {
                    crate::write::metadata::lemma_encode_elements_error::<(String, MetadataValue)>(
                        header@.metadata,
                        (index + 1) as nat,
                    );
                }
                return Err(error);
            },
        }
        index = index + 1;
    }
    proof {
        assert(header@.metadata.take(index as int) =~= header@.metadata);
    }
    let ghost entries = writer@;
    let mut index: usize = 0;
    proof {
        assert(header@.tensors.take(0) =~= Seq::<TensorInfoView>::empty());
        assert(entries + Seq::<u8>::empty() =~= entries);
    }
    while index < header.tensors.len()
        invariant
            index <= header.tensors@.len(),
            header@.tensors == element_views(header.tensors@),
            old(writer)@.is_prefix_of(entries),
            encode_elements::<(String, MetadataValue)>(header@.metadata) is Ok,
            encode_elements::<TensorInfo>(header@.tensors.take(index as int)) is Ok,
            writer@ == entries + encode_elements::<TensorInfo>(
                header@.tensors.take(index as int),
            )->Ok_0,
        decreases header.tensors@.len() - index,
    {
        let ghost done = encode_elements::<TensorInfo>(header@.tensors.take(index as int))->Ok_0;
        proof {
            assert(header@.tensors.take(index + 1).drop_last() =~= header@.tensors.take(
                index as int,
            ));
            assert(header@.tensors.take(index + 1).last() == header.tensors@[index as int]@);
        }
        match write_tensor_info(writer, &header.tensors[index]) {
            Ok(()) => {
                assert(writer@ =~= entries + (done + encode_tensor_info(
                    header.tensors@[index as int]@,
                )->Ok_0));
            },
            Err(error) => {
                proof {
                    crate::write::metadata::lemma_encode_elements_error::<TensorInfo>(
                        header@.tensors,
                        (index + 1) as nat,
                    );
                }
                return Err(error);
            },
        }
        index = index + 1;
    }
    proof {
        assert(header@.tensors.take(index as int) =~= header@.tensors);
        crate::wire::lemma_encoding_lengths(0x47, 0, 0, 0);
        assert(writer@ =~= old(writer)@ + (magic() + (encode_u32(CURRENT_VERSION) + encode_u64(
            header@.tensors.len() as u64,
        ) + encode_u64(header@.metadata.len() as u64) + metadata_layout->Ok_0
            + tensors_layout->Ok_0)));
    }
    Ok(())
}

} // verus!
