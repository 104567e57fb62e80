//! The typed values that a container stores under its metadata keys.
use vstd::prelude::*;

verus! {

/// The most elements an array may have.
pub const MAX_ARRAY_LENGTH: u64 = 524288;

/// The kind of a metadata value, as the type tag on the wire names it.
#[derive(Debug, Clone, Copy, PartialEq, Eq, Structural)]
pub enum MetadataType {
    UInt8,
    Int8,
    UInt16,
    Int16,
    UInt32,
    Int32,
    Float32,
    Bool,
    String,
    Array,
    UInt64,
    Int64,
    Float64,
}

impl MetadataType {
    /// The kind that a tag names, if it names one.
    pub open spec fn spec_from_u32(value: u32) -> Option<MetadataType> {
        if value == 0 {
            Some(MetadataType::UInt8)
        } else if value == 1 {
            Some(MetadataType::Int8)
        } else if value == 2 {
            Some(MetadataType::UInt16)
        } else if value == 3 {
            Some(MetadataType::Int16)
        } else if value == 4 {
            Some(MetadataType::UInt32)
        } else if value == 5 {
            Some(MetadataType::Int32)
        } else if value == 6 {
            Some(MetadataType::Float32)
        } else if value == 7 {
            Some(MetadataType::Bool)
        } else if value == 8 {
            Some(MetadataType::String)
        } else if value == 9 {
            Some(MetadataType::Array)
        } else if value == 10 {
            Some(MetadataType::UInt64)
        } else if value == 11 {
            Some(MetadataType::Int64)
        } else if value == 12 {
            Some(MetadataType::Float64)
        } else {
            None
        }
    }

    /// The tag that names this kind on the wire.
    pub open spec fn spec_tag(self) -> u32 {
        match self {
            MetadataType::UInt8 => 0,
            MetadataType::Int8 => 1,
            MetadataType::UInt16 => 2,
            MetadataType::Int16 => 3,
            MetadataType::UInt32 => 4,
            MetadataType::Int32 => 5,
            MetadataType::Float32 => 6,
            MetadataType::Bool => 7,
            MetadataType::String => 8,
            MetadataType::Array => 9,
            MetadataType::UInt64 => 10,
            MetadataType::Int64 => 11,
            MetadataType::Float64 => 12,
        }
    }

    /// The kind that a tag names. Tags above 12 name none.
    pub fn from_u32(value: u32) -> (kind: Option<Self>)
        ensures
            kind == Self::spec_from_u32(value),
    {
        let kind = match value {
            0 => Self::UInt8,
            1 => Self::Int8,
            2 => Self::UInt16,
            3 => Self::Int16,
            4 => Self::UInt32,
            5 => Self::Int32,
            6 => Self::Float32,
            7 => Self::Bool,
            8 => Self::String,
            9 => Self::Array,
            10 => Self::UInt64,
            11 => Self::Int64,
            12 => Self::Float64,
            _ => {
                return None;
            },
        };
        Some(kind)
    }

    /// The tag that names this kind on the wire.
    pub fn tag(self) -> (tag: u32)
        ensures
            tag == self.spec_tag(),
    {
        match self {
            Self::UInt8 => 0,
            Self::Int8 => 1,
            Self::UInt16 => 2,
            Self::Int16 => 3,
            Self::UInt32 => 4,
            Self::Int32 => 5,
            Self::Float32 => 6,
            Self::Bool => 7,
            Self::String => 8,
            Self::Array => 9,
            Self::UInt64 => 10,
            Self::Int64 => 11,
            Self::Float64 => 12,
        }
    }
}

/// A kind and its tag determine each other.
pub proof fn lemma_metadata_tag_roundtrip(kind: MetadataType, tag: u32)
    ensures
        MetadataType::spec_from_u32(kind.spec_tag()) == Some(kind),
        MetadataType::spec_from_u32(tag) matches Some(named) ==> named.spec_tag() == tag,
        MetadataType::spec_from_u32(tag).is_none() <==> tag > 12,
{
}

/// A metadata value. A number with a fraction is held as its IEEE 754 bit
/// pattern, and a string is any sequence of bytes, text or not.
#[derive(Debug, PartialEq, Eq)]
pub enum MetadataValue {
    UInt8(u8),
    Int8(i8),
    UInt16(u16),
    Int16(i16),
    UInt32(u32),
    Int32(i32),
    Float32(u32),
    Bool(bool),
    String(Vec<u8>),
    Array(MetadataArray),
    UInt64(u64),
    Int64(i64),
    Float64(u64),
}

/// An array of metadata values of one kind, which may itself be the array
/// kind.
#[derive(Debug, PartialEq, Eq)]
pub enum MetadataArray {
    UInt8(Vec<u8>),
    Int8(Vec<i8>),
    UInt16(Vec<u16>),
    Int16(Vec<i16>),
    UInt32(Vec<u32>),
    Int32(Vec<i32>),
    Float32(Vec<u32>),
    Bool(Vec<bool>),
    String(Vec<Vec<u8>>),
    Array(Vec<MetadataArray>),
    UInt64(Vec<u64>),
    Int64(Vec<i64>),
    Float64(Vec<u64>),
}

/// What a `MetadataValue` stands for.
pub enum MetadataValueView {
    UInt8(u8),
    Int8(i8),
    UInt16(u16),
    Int16(i16),
    UInt32(u32),
    Int32(i32),
    Float32(u32),
    Bool(bool),
    String(Seq<u8>),
    Array(MetadataArrayView),
    UInt64(u64),
    Int64(i64),
    Float64(u64),
}

/// What a `MetadataArray` stands for.
pub enum MetadataArrayView {
    UInt8(Seq<u8>),
    Int8(Seq<i8>),
    UInt16(Seq<u16>),
    Int16(Seq<i16>),
    UInt32(Seq<u32>),
    Int32(Seq<i32>),
    Float32(Seq<u32>),
    Bool(Seq<bool>),
    String(Seq<Seq<u8>>),
    Array(Seq<MetadataArrayView>),
    UInt64(Seq<u64>),
    Int64(Seq<i64>),
    Float64(Seq<u64>),
}

impl MetadataArrayView {
    /// The kind of the elements.
    pub open spec fn ty(self) -> MetadataType {
        match self {
            MetadataArrayView::UInt8(_) => MetadataType::UInt8,
            MetadataArrayView::Int8(_) => MetadataType::Int8,
            MetadataArrayView::UInt16(_) => MetadataType::UInt16,
            MetadataArrayView::Int16(_) => MetadataType::Int16,
            MetadataArrayView::UInt32(_) => MetadataType::UInt32,
            MetadataArrayView::Int32(_) => MetadataType::Int32,
            MetadataArrayView::Float32(_) => MetadataType::Float32,
            MetadataArrayView::Bool(_) => MetadataType::Bool,
            MetadataArrayView::String(_) => MetadataType::String,
            MetadataArrayView::Array(_) => MetadataType::Array,
            MetadataArrayView::UInt64(_) => MetadataType::UInt64,
            MetadataArrayView::Int64(_) => MetadataType::Int64,
            MetadataArrayView::Float64(_) => MetadataType::Float64,
        }
    }

    /// The number of elements.
    pub open spec fn len(self) -> nat {
        match self {
            MetadataArrayView::UInt8(items) => items.len(),
            MetadataArrayView::Int8(items) => items.len(),
            MetadataArrayView::UInt16(items) => items.len(),
            MetadataArrayView::Int16(items) => items.len(),
            MetadataArrayView::UInt32(items) => items.len(),
            MetadataArrayView::Int32(items) => items.len(),
            MetadataArrayView::Float32(items) => items.len(),
            MetadataArrayView::Bool(items) => items.len(),
            MetadataArrayView::String(items) => items.len(),
            MetadataArrayView::Array(items) => items.len(),
            MetadataArrayView::UInt64(items) => items.len(),
            MetadataArrayView::Int64(items) => items.len(),
            MetadataArrayView::Float64(items) => items.len(),
        }
    }
}

impl MetadataValueView {
    /// The kind of the value.
    pub open spec fn ty(self) -> MetadataType {
        match self {
            MetadataValueView::UInt8(_) => MetadataType::UInt8,
            MetadataValueView::Int8(_) => MetadataType::Int8,
            MetadataValueView::UInt16(_) => MetadataType::UInt16,
            MetadataValueView::Int16(_) => MetadataType::Int16,
            MetadataValueView::UInt32(_) => MetadataType::UInt32,
            MetadataValueView::Int32(_) => MetadataType::Int32,
            MetadataValueView::Float32(_) => MetadataType::Float32,
            MetadataValueView::Bool(_) => MetadataType::Bool,
            MetadataValueView::String(_) => MetadataType::String,
            MetadataValueView::Array(_) => MetadataType::Array,
            MetadataValueView::UInt64(_) => MetadataType::UInt64,
            MetadataValueView::Int64(_) => MetadataType::Int64,
            MetadataValueView::Float64(_) => MetadataType::Float64,
        }
    }
}

impl View for MetadataArray {
    type V = MetadataArrayView;

    open spec fn view(&self) -> MetadataArrayView
        decreases self,
    {
        match self {
            MetadataArray::UInt8(items) => MetadataArrayView::UInt8(items@),
            MetadataArray::Int8(items) => MetadataArrayView::Int8(items@),
            MetadataArray::UInt16(items) => MetadataArrayView::UInt16(items@),
            MetadataArray::Int16(items) => MetadataArrayView::Int16(items@),
            MetadataArray::UInt32(items) => MetadataArrayView::UInt32(items@),
            MetadataArray::Int32(items) => MetadataArrayView::Int32(items@),
            MetadataArray::Float32(items) => MetadataArrayView::Float32(items@),
            MetadataArray::Bool(items) => MetadataArrayView::Bool(items@),
            MetadataArray::String(items) => MetadataArrayView::String(
                Seq::new(items@.len(), |index: int| items@[index]@),
            ),
            MetadataArray::Array(items) => MetadataArrayView::Array(
                Seq::new(
                    items@.len(),
                    |index: int|
                        if 0 <= index < items@.len() {
                            items@[index].view()
                        } else {
                            MetadataArrayView::Bool(Seq::empty())
                        },
                ),
            ),
            MetadataArray::UInt64(items) => MetadataArrayView::UInt64(items@),
            MetadataArray::Int64(items) => MetadataArrayView::Int64(items@),
            MetadataArray::Float64(items) => MetadataArrayView::Float64(items@),
        }
    }
}

impl View for MetadataValue {
    type V = MetadataValueView;

    open spec fn view(&self) -> MetadataValueView {
        match self {
            MetadataValue::UInt8(value) => MetadataValueView::UInt8(*value),
            MetadataValue::Int8(value) => MetadataValueView::Int8(*value),
            MetadataValue::UInt16(value) => MetadataValueView::UInt16(*value),
            MetadataValue::Int16(value) => MetadataValueView::Int16(*value),
            MetadataValue::UInt32(value) => MetadataValueView::UInt32(*value),
            MetadataValue::Int32(value) => MetadataValueView::Int32(*value),
            MetadataValue::Float32(value) => MetadataValueView::Float32(*value),
            MetadataValue::Bool(value) => MetadataValueView::Bool(*value),
            MetadataValue::String(value) => MetadataValueView::String(value@),
            MetadataValue::Array(value) => MetadataValueView::Array(value@),
            MetadataValue::UInt64(value) => MetadataValueView::UInt64(*value),
            MetadataValue::Int64(value) => MetadataValueView::Int64(*value),
            MetadataValue::Float64(value) => MetadataValueView::Float64(*value),
        }
    }
}

impl MetadataValue {
    /// The kind of the value.
    pub fn ty(&self) -> (kind: MetadataType)
        ensures
            kind == self@.ty(),
    {
        match self {
            Self::UInt8(_) => MetadataType::UInt8,
            Self::Int8(_) => MetadataType::Int8,
            Self::UInt16(_) => MetadataType::UInt16,
            Self::Int16(_) => MetadataType::Int16,
            Self::UInt32(_) => MetadataType::UInt32,
            Self::Int32(_) => MetadataType::Int32,
            Self::Float32(_) => MetadataType::Float32,
            Self::Bool(_) => MetadataType::Bool,
            Self::String(_) => MetadataType::String,
            Self::Array(_) => MetadataType::Array,
            Self::UInt64(_) => MetadataType::UInt64,
            Self::Int64(_) => MetadataType::Int64,
            Self::Float64(_) => MetadataType::Float64,
        }
    }
}

impl MetadataArray {
    /// The kind of the elements.
    pub fn ty(&self) -> (kind: MetadataType)
        ensures
            kind == self@.ty(),
    {
        match self {
            Self::UInt8(_) => MetadataType::UInt8,
            Self::Int8(_) => MetadataType::Int8,
            Self::UInt16(_) => MetadataType::UInt16,
            Self::Int16(_) => MetadataType::Int16,
            Self::UInt32(_) => MetadataType::UInt32,
            Self::Int32(_) => MetadataType::Int32,
            Self::Float32(_) => MetadataType::Float32,
            Self::Bool(_) => MetadataType::Bool,
            Self::String(_) => MetadataType::String,
            Self::Array(_) => MetadataType::Array,
            Self::UInt64(_) => MetadataType::UInt64,
            Self::Int64(_) => MetadataType::Int64,
            Self::Float64(_) => MetadataType::Float64,
        }
    }

    /// The number of elements.
    pub fn len(&self) -> (count: usize)
        ensures
            count == self@.len(),
    {
        match self {
            Self::UInt8(items) => items.len(),
            Self::Int8(items) => items.len(),
            Self::UInt16(items) => items.len(),
            Self::Int16(items) => items.len(),
            Self::UInt32(items) => items.len(),
            Self::Int32(items) => items.len(),
            Self::Float32(items) => items.len(),
            Self::Bool(items) => items.len(),
            Self::String(items) => items.len(),
            Self::Array(items) => items.len(),
            Self::UInt64(items) => items.len(),
            Self::Int64(items) => items.len(),
            Self::Float64(items) => items.len(),
        }
    }
}

/// A copy of a byte string.
fn copy_bytes(bytes: &Vec<u8>) -> (copy: Vec<u8>)
    ensures
        copy@ == bytes@,
{
    vstd::slice::slice_to_vec(bytes.as_slice())
}

impl Clone for MetadataArray {
    /// A copy that stands for the same array.
    fn clone(&self) -> (copy: Self)
        ensures
            copy@ == self@,
        decreases self,
    {
        match self {
            MetadataArray::UInt8(items) => MetadataArray::UInt8(
                vstd::slice::slice_to_vec(items.as_slice()),
            ),
            MetadataArray::Int8(items) => MetadataArray::Int8(
                vstd::slice::slice_to_vec(items.as_slice()),
            ),
            MetadataArray::UInt16(items) => MetadataArray::UInt16(
                vstd::slice::slice_to_vec(items.as_slice()),
            ),
            MetadataArray::Int16(items) => MetadataArray::Int16(
                vstd::slice::slice_to_vec(items.as_slice()),
            ),
            MetadataArray::UInt32(items) => MetadataArray::UInt32(
                vstd::slice::slice_to_vec(items.as_slice()),
            ),
            MetadataArray::Int32(items) => MetadataArray::Int32(
                vstd::slice::slice_to_vec(items.as_slice()),
            ),
            MetadataArray::Float32(items) => MetadataArray::Float32(
                vstd::slice::slice_to_vec(items.as_slice()),
            ),
            MetadataArray::Bool(items) => MetadataArray::Bool(
                vstd::slice::slice_to_vec(items.as_slice()),
            ),
            MetadataArray::String(items) => {
                let mut copies: Vec<Vec<u8>> = Vec::new();
                let mut index: usize = 0;
                while index < items.len()
                    invariant
                        index <= items@.len(),
                        copies@.len() == index,
                        forall|at: int| 0 <= at < index ==> (#[trigger] copies@[at])@ == items@[at]@,
                    decreases items@.len() - index,
                {
                    copies.push(copy_bytes(&items[index]));
                    index = index + 1;
                }
                let copy = MetadataArray::String(copies);
                assert(copy@->String_0 =~= self@->String_0);
                copy
            },
            MetadataArray::Array(items) => {
                let mut copies: Vec<MetadataArray> = Vec::new();
                let mut index: usize = 0;
                while index < items.len()
                    invariant
                        index <= items@.len(),
                        *self == MetadataArray::Array(*items),
                        copies@.len() == index,
                        forall|at: int| 0 <= at < index ==> (#[trigger] copies@[at])@ == items@[at]@,
                    decreases items@.len() - index,
                {
                    assert(decreases_to!(*self => self->Array_0));
                    copies.push(items[index].clone());
                    index = index + 1;
                }
                let copy = MetadataArray::Array(copies);
                assert(copy@->Array_0 =~= self@->Array_0);
                copy
            },
            MetadataArray::UInt64(items) => MetadataArray::UInt64(
                vstd::slice::slice_to_vec(items.as_slice()),
            ),
            MetadataArray::Int64(items) => MetadataArray::Int64(
                vstd::slice::slice_to_vec(items.as_slice()),
            ),
            MetadataArray::Float64(items) => MetadataArray::Float64(
                vstd::slice::slice_to_vec(items.as_slice()),
            ),
        }
    }
}

impl Clone for MetadataValue {
    /// A copy that stands for the same value.
    fn clone(&self) -> (copy: Self)
        ensures
            copy@ == self@,
    {
        match self {
            MetadataValue::UInt8(value) => MetadataValue::UInt8(*value),
            MetadataValue::Int8(value) => MetadataValue::Int8(*value),
            MetadataValue::UInt16(value) => MetadataValue::UInt16(*value),
            MetadataValue::Int16(value) => MetadataValue::Int16(*value),
            MetadataValue::UInt32(value) => MetadataValue::UInt32(*value),
            MetadataValue::Int32(value) => MetadataValue::Int32(*value),
            MetadataValue::Float32(value) => MetadataValue::Float32(*value),
            MetadataValue::Bool(value) => MetadataValue::Bool(*value),
            MetadataValue::String(value) => MetadataValue::String(copy_bytes(value)),
            MetadataValue::Array(value) => MetadataValue::Array(value.clone()),
            MetadataValue::UInt64(value) => MetadataValue::UInt64(*value),
            MetadataValue::Int64(value) => MetadataValue::Int64(*value),
            MetadataValue::Float64(value) => MetadataValue::Float64(*value),
        }
    }
}

} // verus!
