//! The header of a container: its metadata entries and its tensor
//! descriptors.
use vstd::prelude::*;
use crate::dimensions::TensorDimensions;
use crate::metadata::{MetadataValue, MetadataValueView};

verus! {

/// The most tensors, and the most metadata entries, that a decoded header
/// may announce.
pub const MAX_ENTRY_COUNT: u64 = 1024;

/// The version that the encoder writes.
pub const CURRENT_VERSION: u32 = 3;

/// How the values of a tensor are encoded.
#[allow(non_camel_case_types)]
#[derive(Debug, Clone, Copy, PartialEq, Eq, Structural)]
pub enum TensorType {
    F32,
    F16,
    Q4_0,
    Q4_1,
    Q5_0,
    Q5_1,
    Q8_0,
    Q8_1,
    Q2_K,
    Q3_K,
    Q4_K,
    Q5_K,
    Q6_K,
    Q8_K,
    I8,
    I16,
    I32,
    Count,
}

impl TensorType {
    /// The tag that names this element type on the wire.
    pub open spec fn spec_tag(self) -> u32 {
        match self {
            TensorType::F32 => 0,
            TensorType::F16 => 1,
            TensorType::Q4_0 => 2,
            TensorType::Q4_1 => 3,
            TensorType::Q5_0 => 6,
            TensorType::Q5_1 => 7,
            TensorType::Q8_0 => 8,
            TensorType::Q8_1 => 9,
            TensorType::Q2_K => 10,
            TensorType::Q3_K => 11,
            TensorType::Q4_K => 12,
            TensorType::Q5_K => 13,
            TensorType::Q6_K => 14,
            TensorType::Q8_K => 15,
            TensorType::I8 => 16,
            TensorType::I16 => 17,
            TensorType::I32 => 18,
            TensorType::Count => 19,
        }
    }

    /// The element type that a tag names, if it names one. Tags 4 and 5 and
    /// tags above 19 name none.
    pub open spec fn spec_from_u32(value: u32) -> Option<TensorType> {
        if value == 0 {
            Some(TensorType::F32)
        } else if value == 1 {
            Some(TensorType::F16)
        } else if value == 2 {
            Some(TensorType::Q4_0)
        } else if value == 3 {
            Some(TensorType::Q4_1)
        } else if value == 6 {
            Some(TensorType::Q5_0)
        } else if value == 7 {
            Some(TensorType::Q5_1)
        } else if value == 8 {
            Some(TensorType::Q8_0)
        } else if value == 9 {
            Some(TensorType::Q8_1)
        } else if value == 10 {
            Some(TensorType::Q2_K)
        } else if value == 11 {
            Some(TensorType::Q3_K)
        } else if value == 12 {
            Some(TensorType::Q4_K)
        } else if value == 13 {
            Some(TensorType::Q5_K)
        } else if value == 14 {
            Some(TensorType::Q6_K)
        } else if value == 15 {
            Some(TensorType::Q8_K)
        } else if value == 16 {
            Some(TensorType::I8)
        } else if value == 17 {
            Some(TensorType::I16)
        } else if value == 18 {
            Some(TensorType::I32)
        } else if value == 19 {
            Some(TensorType::Count)
        } else {
            None
        }
    }

    /// The element type that a tag names, if it names one.
    pub fn from_u32(value: u32) -> (kind: Option<Self>)
        ensures
            kind == Self::spec_from_u32(value),
    {
        let kind = match value {
            0 => Self::F32,
            1 => Self::F16,
            2 => Self::Q4_0,
            3 => Self::Q4_1,
            6 => Self::Q5_0,
            7 => Self::Q5_1,
            8 => Self::Q8_0,
            9 => Self::Q8_1,
            10 => Self::Q2_K,
            11 => Self::Q3_K,
            12 => Self::Q4_K,
            13 => Self::Q5_K,
            14 => Self::Q6_K,
            15 => Self::Q8_K,
            16 => Self::I8,
            17 => Self::I16,
            18 => Self::I32,
            19 => Self::Count,
            _ => {
                return None;
            },
        };
        Some(kind)
    }

    /// The tag that names this element type on the wire.
    pub fn tag(self) -> (tag: u32)
        ensures
            tag == self.spec_tag(),
    {
        match self {
            Self::F32 => 0,
            Self::F16 => 1,
            Self::Q4_0 => 2,
            Self::Q4_1 => 3,
            Self::Q5_0 => 6,
            Self::Q5_1 => 7,
            Self::Q8_0 => 8,
            Self::Q8_1 => 9,
            Self::Q2_K => 10,
            Self::Q3_K => 11,
            Self::Q4_K => 12,
            Self::Q5_K => 13,
            Self::Q6_K => 14,
            Self::Q8_K => 15,
            Self::I8 => 16,
            Self::I16 => 17,
            Self::I32 => 18,
            Self::Count => 19,
        }
    }
}

/// An element type and its tag determine each other.
pub proof fn lemma_tensor_tag_roundtrip(kind: TensorType, tag: u32)
    ensures
        TensorType::spec_from_u32(kind.spec_tag()) == Some(kind),
        TensorType::spec_from_u32(tag) matches Some(named) ==> named.spec_tag() == tag,
{
}

/// The descriptor of one tensor in a container.
#[derive(Debug, Clone, PartialEq, Eq)]
pub struct TensorInfo {
    /// The name of the tensor, which no other tensor of the container has.
    pub name: String,
    /// How the tensor's values are encoded.
    pub tensor_type: TensorType,
    /// The shape of the tensor.
    pub dimensions: TensorDimensions,
    /// Where the tensor's values start, counted from the start of the
    /// tensor data.
    pub offset: u64,
}

/// What a `TensorInfo` stands for.
pub struct TensorInfoView {
    pub name: Seq<char>,
    pub tensor_type: TensorType,
    pub dimensions: TensorDimensions,
    pub offset: u64,
}

impl View for TensorInfo {
    type V = TensorInfoView;

    open spec fn view(&self) -> TensorInfoView {
        TensorInfoView {
            name: self.name@,
            tensor_type: self.tensor_type,
            dimensions: self.dimensions,
            offset: self.offset,
        }
    }
}

/// The header of a container: metadata entries and tensor descriptors, each
/// in the order in which they stand in the file.
#[derive(Debug, Clone, PartialEq, Eq)]
pub struct Header {
    pub metadata: Vec<(String, MetadataValue)>,
    pub tensors: Vec<TensorInfo>,
}

/// What a `Header` stands for.
pub struct HeaderView {
    pub metadata: Seq<(Seq<char>, MetadataValueView)>,
    pub tensors: Seq<TensorInfoView>,
}

impl View for Header {
    type V = HeaderView;

    open spec fn view(&self) -> HeaderView {
        HeaderView {
            metadata: Seq::new(self.metadata@.len(), |index: int| self.metadata@[index]@),
            tensors: Seq::new(self.tensors@.len(), |index: int| self.tensors@[index]@),
        }
    }
}

impl Default for Header {
    /// The header without entries and without tensors.
    fn default() -> (header: Header)
        ensures
            header@.metadata.len() == 0,
            header@.tensors.len() == 0,
    {
        Header { metadata: Vec::new(), tensors: Vec::new() }
    }
}

} // verus!
