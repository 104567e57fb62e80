//! Decoding a container header from bytes.
pub mod metadata;
pub mod primitives;

use vstd::prelude::*;
use vstd::utf8::{decode_utf8, valid_utf8};
use crate::dimensions::TensorDimensions;
use crate::error::{HeaderError, HeaderPlace, ReadError};
use crate::header::{Header, HeaderView, TensorInfo, TensorInfoView, TensorType, MAX_ENTRY_COUNT};
use crate::metadata::{MetadataValue, MetadataValueView};
use crate::read::metadata::{
    array_inner, array_inner_counted, decode_elements, decode_value, decoded_count,
    element_views, read_metadata_value,
};
use crate::read::primitives::{
    ByteReader, Decoded, decode_string, decode_u32, decode_u64, read_string, read_u32, read_u64,
};
use crate::text::text_from_utf8;

verus! {

/// The four bytes that every container starts with: `GGUF`.
pub open spec fn magic() -> Seq<u8> {
    seq![0x47u8, 0x47u8, 0x55u8, 0x46u8]
}

/// The extent in slot `slot` after `items` were read into the first slots:
/// the item, or zero past the last item.
pub open spec fn padded_slot(items: Seq<u64>, slot: int) -> u64 {
    if 0 <= slot < items.len() {
        items[slot]
    } else {
        0
    }
}

/// The four slots that hold `items` up front and zeros behind.
pub open spec fn padded(items: Seq<u64>) -> TensorDimensions {
    TensorDimensions(
        [padded_slot(items, 0), padded_slot(items, 1), padded_slot(items, 2), padded_slot(items, 3)],
    )
}

/// Decodes a metadata entry: the key as a byte string, which has to be
/// UTF-8, then the value.
pub open spec fn decode_entry(input: Seq<u8>) -> Decoded<(Seq<char>, MetadataValueView)> {
    match decode_string(input) {
        Err(error) => Err(error),
        Ok((key, rest)) => if !valid_utf8(key) {
            Err(ReadError::InvalidText)
        } else {
            match decode_value(rest) {
                Err(error) => Err(error),
                Ok((value, after)) => Ok(((decode_utf8(key), value), after)),
            }
        },
    }
}

/// Decodes a tensor descriptor: the name, which has to be UTF-8, the number
/// of dimensions, which has to be at most 4, that many extents, the tag of
/// the element type, and the offset.
pub open spec fn decode_tensor_info(input: Seq<u8>) -> Decoded<TensorInfoView> {
    match decode_string(input) {
        Err(error) => Err(error),
        Ok((name, after_name)) => if !valid_utf8(name) {
            Err(ReadError::InvalidText)
        } else {
            match decode_u32(after_name) {
                Err(error) => Err(error),
                Ok((count, after_count)) => if count > 4 {
                    Err(ReadError::TooManyDimensions)
                } else {
                    match decode_elements::<u64>(after_count, count as nat) {
                        Err(error) => Err(error),
                        Ok((extents, after_extents)) => match decode_u32(after_extents) {
                            Err(error) => Err(error),
                            Ok((tag, after_tag)) => match TensorType::spec_from_u32(tag) {
                                None => Err(ReadError::InvalidTensorType(tag)),
                                Some(tensor_type) => match decode_u64(after_tag) {
                                    Err(error) => Err(error),
                                    Ok((offset, rest)) => Ok(
                                        (
                                            TensorInfoView {
                                                name: decode_utf8(name),
                                                tensor_type,
                                                dimensions: padded(extents),
                                                offset,
                                            },
                                            rest,
                                        ),
                                    ),
                                },
                            },
                        },
                    }
                },
            }
        },
    }
}

/// What decoding a header gives: the header and the bytes after it, or the
/// fault and where it was met.
pub type DecodedHeader = Result<(HeaderView, Seq<u8>), HeaderError>;

/// A fault in the magic bytes, the version or the counts.
pub open spec fn in_preamble(fault: ReadError) -> DecodedHeader {
    Err(HeaderError { fault, place: HeaderPlace::Preamble })
}

/// Decodes what follows the magic bytes of a header: the version, which has
/// to be 2 or 3, the number of tensors and the number of metadata entries,
/// each at most 1024, the metadata entries, and the tensor descriptors. A
/// fault in an entry or a descriptor is reported with its number.
pub open spec fn decode_header_body(input: Seq<u8>) -> DecodedHeader {
    match decode_u32(input) {
        Err(error) => in_preamble(error),
        Ok((version, after_version)) => if version != 3 && version != 2 {
            in_preamble(ReadError::UnsupportedVersion(version))
        } else {
            match decode_u64(after_version) {
                Err(error) => in_preamble(error),
                Ok((tensor_count, after_tensor_count)) => match decode_u64(after_tensor_count) {
                    Err(error) => in_preamble(error),
                    Ok((metadata_count, after_counts)) => if tensor_count > MAX_ENTRY_COUNT {
                        in_preamble(ReadError::ExcessiveTensorCount)
                    } else if metadata_count > MAX_ENTRY_COUNT {
                        in_preamble(ReadError::ExcessiveMetadataCount)
                    } else {
                        match decode_elements::<(String, MetadataValue)>(
                            after_counts,
                            metadata_count as nat,
                        ) {
                            Err(fault) => Err(
                                HeaderError {
                                    fault,
                                    place: HeaderPlace::MetadataEntry(
                                        decoded_count::<(String, MetadataValue)>(
                                            after_counts,
                                            metadata_count as nat,
                                        ) as u64,
                                    ),
                                },
                            ),
                            Ok((metadata, after_metadata)) => match decode_elements::<TensorInfo>(
                                after_metadata,
                                tensor_count as nat,
                            ) {
                                Err(fault) => Err(
                                    HeaderError {
                                        fault,
                                        place: HeaderPlace::TensorInfo(
                                            decoded_count::<TensorInfo>(
                                                after_metadata,
                                                tensor_count as nat,
                                            ) as u64,
                                        ),
                                    },
                                ),
                                Ok((tensors, rest)) => Ok((HeaderView { metadata, tensors }, rest)),
                            },
                        }
                    },
                },
            }
        },
    }
}

/// Decodes a header: the magic bytes, then the rest.
pub open spec fn decode_header(input: Seq<u8>) -> DecodedHeader {
    if input.len() < 4 {
        in_preamble(ReadError::TruncatedInput)
    } else if input.take(4) != magic() {
        in_preamble(ReadError::MagicMismatch)
    } else {
        decode_header_body(input.skip(4))
    }
}

/// A run that decodes has as many values as were asked for.
pub proof fn lemma_decode_elements_len<T: crate::wire::Wire>(input: Seq<u8>, count: nat)
    ensures
        decode_elements::<T>(input, count) matches Ok((items, _)) ==> items.len() == count,
    decreases count,
{
    if count > 0 {
        lemma_decode_elements_len::<T>(input, (count - 1) as nat);
    }
}

/// Reads a metadata entry: the key, then the value.
pub fn read_metadata_entry(reader: &mut ByteReader<'_>) -> (result: Result<
    (String, MetadataValue),
    ReadError,
>)
    ensures
        match decode_entry(old(reader).remaining()) {
            Ok((entry, rest)) => {
                &&& result matches Ok(read) && read@ == entry
                &&& final(reader).remaining() == rest
            },
            Err(error) => result matches Err(failure) && failure == error,
        },
{
    let key = read_string(reader)?;
    let key = match text_from_utf8(key) {
        Some(key) => key,
        None => {
            return Err(ReadError::InvalidText);
        },
    };
    let value = read_metadata_value(reader)?;
    Ok((key, value))
}

/// Reads a tensor descriptor.
pub fn read_tensor_info(reader: &mut ByteReader<'_>) -> (result: Result<TensorInfo, ReadError>)
    ensures
        match decode_tensor_info(old(reader).remaining()) {
            Ok((info, rest)) => {
                &&& result matches Ok(read) && read@ == info
                &&& final(reader).remaining() == rest
            },
            Err(error) => result matches Err(failure) && failure == error,
        },
{
    let name = read_string(reader)?;
    let name = match text_from_utf8(name) {
        Some(name) => name,
        None => {
            return Err(ReadError::InvalidText);
        },
    };
    let dimensions_count = read_u32(reader)?;
    if dimensions_count > 4 {
        return Err(ReadError::TooManyDimensions);
    }
    let ghost before_extents = reader.remaining();
    let extents = array_inner::<u64>(dimensions_count as u64, reader)?;
    proof {
        lemma_decode_elements_len::<u64>(before_extents, dimensions_count as nat);
        assert(element_views(extents@) =~= extents@);
    }
    let first = if dimensions_count > 0 {
        extents[0]
    } else {
        0
    };
    let second = if dimensions_count > 1 {
        extents[1]
    } else {
        0
    };
    let third = if dimensions_count > 2 {
        extents[2]
    } else {
        0
    };
    let fourth = if dimensions_count > 3 {
        extents[3]
    } else {
        0
    };
    let slots = [first, second, third, fourth];
    let dimensions = TensorDimensions(slots);
    assert(dimensions == padded(extents@)) by {
        assert(slots@ =~= padded(extents@).0@);
    }
    let tensor_type_index = read_u32(reader)?;
    let tensor_type = match TensorType::from_u32(tensor_type_index) {
        Some(tensor_type) => tensor_type,
        None => {
            return Err(ReadError::InvalidTensorType(tensor_type_index));
        },
    };
    let offset = read_u64(reader)?;
    Ok(TensorInfo { name, tensor_type, dimensions, offset })
}

/// A fault in the magic bytes, the version or the counts.
fn preamble_fault(fault: ReadError) -> (error: HeaderError)
    ensures
        error == (HeaderError { fault, place: HeaderPlace::Preamble }),
{
    HeaderError { fault, place: HeaderPlace::Preamble }
}

/// Reads the header of a container, from its magic bytes to its last tensor
/// descriptor. A version other than 2 or 3 is refused, and so are more than
/// 1024 tensors or metadata entries. A fault is reported with the place
/// where it was met.
pub fn read_header(reader: &mut ByteReader<'_>) -> (result: Result<Header, HeaderError>)
    ensures
        match decode_header(old(reader).remaining()) {
            Ok((header, rest)) => {
                &&& result matches Ok(read) && read@ == header
                &&& final(reader).remaining() == rest
            },
            Err(error) => result matches Err(failure) && failure == error,
        },
{
    let magic_bytes = match reader.read_exact(4) {
        Some(bytes) => bytes,
        None => {
            return Err(preamble_fault(ReadError::TruncatedInput));
        },
    };
    if magic_bytes[0] != 0x47 || magic_bytes[1] != 0x47 || magic_bytes[2] != 0x55 || magic_bytes[3]
        != 0x46 {
        return Err(preamble_fault(ReadError::MagicMismatch));
    }
    assert(magic_bytes@ =~= magic());
    let gguf_version = match read_u32(reader) {
        Ok(version) => version,
        Err(fault) => {
            return Err(preamble_fault(fault));
        },
    };
    if gguf_version != 3 && gguf_version != 2 {
        return Err(preamble_fault(ReadError::UnsupportedVersion(gguf_version)));
    }
    let tensor_count = match read_u64(reader) {
        Ok(count) => count,
        Err(fault) => {
            return Err(preamble_fault(fault));
        },
    };
    let metadata_kv_count = match read_u64(reader) {
        Ok(count) => count,
        Err(fault) => {
            return Err(preamble_fault(fault));
        },
    };
    if tensor_count > MAX_ENTRY_COUNT {
        return Err(preamble_fault(ReadError::ExcessiveTensorCount));
    }
    if metadata_kv_count > MAX_ENTRY_COUNT {
        return Err(preamble_fault(ReadError::ExcessiveMetadataCount));
    }
    let metadata = match array_inner_counted::<(String, MetadataValue)>(metadata_kv_count, reader) {
        Ok(metadata) => metadata,
        Err((fault, index)) => {
            return Err(HeaderError { fault, place: HeaderPlace::MetadataEntry(index) });
        },
    };
    let tensors = match array_inner_counted::<TensorInfo>(tensor_count, reader) {
        Ok(tensors) => tensors,
        Err((fault, index)) => {
            return Err(HeaderError { fault, place: HeaderPlace::TensorInfo(index) });
        },
    };
    let header = Header { metadata, tensors };
    proof {
        assert(header@.metadata =~= element_views(metadata@));
        assert(header@.tensors =~= element_views(tensors@));
    }
    Ok(header)
}

} // verus!
